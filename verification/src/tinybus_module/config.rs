//! What a host passes the module when it loads it.
use vstd::prelude::*;

use crate::bus::{McpClientIdentityConfig, McpProxyConfig, McpRegistryAuthConfig};

verus! {

/// One server that a host pins in its configuration.
#[derive(Debug, Clone, PartialEq, Eq, Default)]
pub struct McpServerConfig {
    /// The name it is known by.
    pub name: String,
    /// Where it is.
    pub endpoint: String,
}

/// The servers, credentials, identity, and proxy.
#[derive(Debug, Clone, PartialEq, Eq)]
pub struct McpClientConfig {
    /// Whether the client is on.
    pub enabled: bool,
    /// The servers that the host pins.
    pub servers: Vec<McpServerConfig>,
    /// The credentials the catalogs take.
    pub registry_auth: McpRegistryAuthConfig,
    /// What clients say of themselves.
    pub identity: McpClientIdentityConfig,
    /// The proxies clients go through.
    pub proxy: Option<McpProxyConfig>,
}

/// Whether a client configuration is the one a host that gives none gets: on,
/// with no servers, credentials or proxies.
pub open spec fn client_defaults(client: McpClientConfig) -> bool {
    &&& client.enabled
    &&& client.servers@.len() == 0
    &&& client.registry_auth == (McpRegistryAuthConfig {
        smithery_api_key: None,
        mcp_official_token: None,
        mcp_official_base: None,
    })
    &&& client.identity.name@ == "tinymcp"@
    &&& client.identity.version@ == "0.1.0"@
    &&& client.proxy is None
}

impl Default for McpClientConfig {
    fn default() -> (r: McpClientConfig)
        ensures
            client_defaults(r),
    {
        McpClientConfig {
            enabled: true,
            servers: Vec::new(),
            registry_auth: McpRegistryAuthConfig::default(),
            identity: McpClientIdentityConfig::default(),
            proxy: None,
        }
    }
}

/// The module's configuration blob.
///
/// An absent one is the empty object, so every field has a default and a host
/// that supplies nothing gets a working module with no servers and an
/// in-memory store.
#[derive(Debug, Clone, PartialEq, Eq)]
pub struct ModuleConfig {
    /// Where the store and the audit log live.
    ///
    /// `None` keeps both in memory, which is what a host that only wants the
    /// statically declared servers should pass: there is nothing to persist,
    /// and creating files for it would leave state nobody asked for.
    pub data_dir: Option<String>,
    /// The servers, credentials, identity, and proxy.
    pub client: McpClientConfig,
}

impl Default for ModuleConfig {
    fn default() -> (r: ModuleConfig)
        ensures
            r.data_dir is None,
            client_defaults(r.client),
    {
        ModuleConfig { data_dir: None, client: McpClientConfig::default() }
    }
}

} // verus!
