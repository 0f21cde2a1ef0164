//! The servers that a host pins in its configuration.
use vstd::prelude::*;

use super::config::{McpClientConfig, McpServerConfig, ModuleConfig};
use crate::text::same_text;

verus! {

/// The servers that a configuration declares, by name.
#[derive(Debug)]
pub struct StaticServers {
    servers: Vec<McpServerConfig>,
}

impl View for StaticServers {
    type V = Seq<McpServerConfig>;

    closed spec fn view(&self) -> Seq<McpServerConfig> {
        self.servers@
    }
}

impl StaticServers {
    /// How many servers are declared.
    #[must_use]
    pub fn len(&self) -> (r: usize)
        ensures
            r == self@.len(),
    {
        self.servers.len()
    }

    /// Whether none is.
    #[must_use]
    pub fn is_empty(&self) -> (r: bool)
        ensures
            r == (self@.len() == 0),
    {
        self.servers.len() == 0
    }

    /// The first server declared under `name`.
    #[must_use]
    pub fn get(&self, name: &str) -> (r: Option<&McpServerConfig>)
        ensures
            match r {
                Some(found) => exists|at: int|
                    0 <= at < self@.len() && *found == #[trigger] self@[at] && found.name@ == name@
                        && forall|i: int| 0 <= i < at ==> (#[trigger] self@[i]).name@ != name@,
                None => forall|i: int| 0 <= i < self@.len() ==> (#[trigger] self@[i]).name@ != name@,
            },
    {
        let mut at: usize = 0;
        while at < self.servers.len()
            invariant
                at <= self.servers@.len(),
                self@ == self.servers@,
                forall|i: int| 0 <= i < at ==> (#[trigger] self@[i]).name@ != name@,
            decreases self.servers@.len() - at,
        {
            if same_text(self.servers[at].name.as_str(), name) {
                assert(self@[at as int] == self.servers@[at as int]);
                return Some(&self.servers[at]);
            }
            at += 1;
        }
        None
    }
}

/// What the module serves from.
#[derive(Debug)]
pub struct McpService {
    static_servers: StaticServers,
    data_dir: Option<String>,
}

impl View for McpService {
    type V = (Seq<McpServerConfig>, Option<String>);

    closed spec fn view(&self) -> (Seq<McpServerConfig>, Option<String>) {
        (self.static_servers@, self.data_dir)
    }
}

impl McpService {
    /// Builds the service.
    #[must_use]
    pub fn new(config: ModuleConfig) -> (r: McpService)
        ensures
            r@ == (config.client.servers@, config.data_dir),
    {
        let client: McpClientConfig = config.client;
        McpService {
            static_servers: StaticServers { servers: client.servers },
            data_dir: config.data_dir,
        }
    }

    /// The servers that the configuration declares.
    #[must_use]
    pub fn static_servers(&self) -> (r: &StaticServers)
        ensures
            r@ == self@.0,
    {
        &self.static_servers
    }

    /// Where the store lives; nowhere means in memory.
    #[must_use]
    pub fn data_dir(&self) -> (r: &Option<String>)
        ensures
            *r == self@.1,
    {
        &self.data_dir
    }
}

} // verus!
