//! Installing a server from a catalog.
//!
//! One record per service. A second install refreshes the credentials and the
//! configuration on the existing record rather than writing another: an
//! install form is usually followed straight away by a connect, and a user
//! re-running it to replace an expired token must not silently reconnect with
//! the old one.
//!
//! The check and the write are separated by a catalog lookup, so the insert is
//! conditional on the name still being absent. Losing that race refreshes the
//! winner's record rather than leaving a duplicate.
use vstd::prelude::*;

use super::install::{build_install_transport, pick_connection};
use super::naming::{now_ms, require_non_empty, split_routing_name};
use crate::bus::{
    CommandKind, InstallOutcome, InstalledServer, RegistryServerDetail, Transport,
};
use crate::env::EnvMap;
use crate::error::Error;
use crate::outside::fresh_uuid;
use crate::registry::sources::types::{Registries, RegistrySource};
use crate::text::{same_texts, text3};

verus! {

/// What an install needs to know or to have done next.
#[derive(Debug)]
pub enum InstallStep {
    /// The install that the store has under a name; answer with
    /// [`FindExisting::found`].
    FindExisting(FindExisting),
    /// The detail that a catalog has of a server; answer with
    /// [`FetchDetail::fetched`].
    FetchDetail(FetchDetail),
    /// A new record, written only if its name is absent; answer with
    /// [`Insert::inserted`].
    Insert(Insert),
    /// The record that won the race for a name; answer with
    /// [`FindWinner::found`].
    FindWinner(FindWinner),
    /// The credentials of a new record, stored; answer with
    /// [`StoreEnv::stored`].
    StoreEnv(StoreEnv),
    /// The credentials of an existing record; answer with
    /// [`LoadEnv::loaded`].
    LoadEnv(LoadEnv),
    /// The merged credentials of an existing record, stored; answer with
    /// [`StoreMerged::stored`].
    StoreMerged(StoreMerged),
    /// The names of those credentials, stored; answer with
    /// [`StoreNames::stored`].
    StoreNames(StoreNames),
    /// The configuration of an existing record, stored; answer with
    /// [`StoreConfig::stored`].
    StoreConfig(StoreConfig),
    /// Nothing: this is what installing came to.
    Done(Result<InstallOutcome, Error>),
}

/// See [`InstallStep::FindExisting`].
#[derive(Debug)]
pub struct FindExisting {
    /// The source to ask, where there is no record.
    pub source: String,
    /// The name to look up.
    pub name: String,
    /// The credentials that were given.
    pub env: EnvMap,
    /// The configuration that was given.
    pub config: Option<serde_json::Value>,
}

/// See [`InstallStep::FetchDetail`].
#[derive(Debug)]
pub struct FetchDetail {
    /// The source to ask.
    pub source: RegistrySource,
    /// The name to ask for.
    pub name: String,
    /// The credentials that were given.
    pub env: EnvMap,
    /// The configuration that was given.
    pub config: Option<serde_json::Value>,
}

/// See [`InstallStep::Insert`].
#[derive(Debug)]
pub struct Insert {
    /// The record to write.
    pub server: InstalledServer,
    /// The credentials that were given.
    pub env: EnvMap,
}

/// See [`InstallStep::FindWinner`].
#[derive(Debug)]
pub struct FindWinner {
    /// The name to look up.
    pub name: String,
    /// The credentials that were given.
    pub env: EnvMap,
    /// The configuration that was given.
    pub config: Option<serde_json::Value>,
}

/// See [`InstallStep::StoreEnv`].
#[derive(Debug)]
pub struct StoreEnv {
    /// The record that was written.
    pub server: InstalledServer,
    /// The credentials to store under its identifier.
    pub env: EnvMap,
}

/// See [`InstallStep::LoadEnv`].
#[derive(Debug)]
pub struct LoadEnv {
    /// The record whose credentials are wanted.
    pub existing: InstalledServer,
    /// The credentials that were given.
    pub env: EnvMap,
    /// The configuration that was given.
    pub config: Option<serde_json::Value>,
}

/// See [`InstallStep::StoreMerged`].
#[derive(Debug)]
pub struct StoreMerged {
    /// The record whose credentials these are.
    pub existing: InstalledServer,
    /// The credentials to store under its identifier.
    pub merged: EnvMap,
    /// The configuration that was given.
    pub config: Option<serde_json::Value>,
}

/// See [`InstallStep::StoreNames`].
#[derive(Debug)]
pub struct StoreNames {
    /// The record whose credentials are named.
    pub existing: InstalledServer,
    /// The names to store on it.
    pub names: Vec<String>,
    /// The configuration that was given.
    pub config: Option<serde_json::Value>,
}

/// See [`InstallStep::StoreConfig`].
#[derive(Debug)]
pub struct StoreConfig {
    /// The record whose configuration it is.
    pub existing: InstalledServer,
    /// The configuration to store on it.
    pub config: serde_json::Value,
}

/// The name an install goes by, once it is trimmed and its prefix is off.
pub open spec fn install_name(qualified_name: Seq<char>) -> Seq<char> {
    super::naming::routed(crate::text::trimmed(qualified_name)).1
}

/// The source an install comes from, in its own words.
pub open spec fn install_source(qualified_name: Seq<char>) -> Seq<char> {
    super::naming::routed(crate::text::trimmed(qualified_name)).0
}

/// How an install begins: a blank name is refused, and any other is looked up
/// before anything else.
pub open spec fn begins(
    qualified_name: Seq<char>,
    env: EnvMap,
    config: Option<serde_json::Value>,
    r: InstallStep,
) -> bool {
    if crate::text::blank(qualified_name) {
        r matches InstallStep::Done(Err(e)) && super::naming::blank_field(e, "qualified_name"@)
    } else {
        r matches InstallStep::FindExisting(next) && next.source@ == install_source(
            qualified_name,
        ) && next.name@ == install_name(qualified_name) && next.env == env && next.config == config
    }
}

/// What is done about the configuration of an existing record: it is replaced
/// where one was given, and then the install is done.
pub open spec fn configures(
    existing: InstalledServer,
    config: Option<serde_json::Value>,
    r: InstallStep,
) -> bool {
    match config {
        Some(value) => r == InstallStep::StoreConfig(StoreConfig { existing, config: value }),
        None => r == InstallStep::Done(
            Ok(InstallOutcome { server: existing, already_installed: true }),
        ),
    }
}

/// How refreshing an existing record begins: with its credentials where some
/// were given, else with its configuration.
pub open spec fn refreshes(
    existing: InstalledServer,
    env: EnvMap,
    config: Option<serde_json::Value>,
    r: InstallStep,
) -> bool {
    if env@ == Map::<Seq<char>, Seq<char>>::empty() {
        configures(existing, config, r)
    } else {
        r == InstallStep::LoadEnv(LoadEnv { existing, env, config })
    }
}

/// What follows from looking the name up.
pub open spec fn after_find(
    s: FindExisting,
    reply: Result<Option<InstalledServer>, Error>,
    r: InstallStep,
) -> bool {
    match reply {
        Err(e) => r == InstallStep::Done(Err(e)),
        Ok(Some(existing)) => refreshes(existing, s.env, s.config, r),
        Ok(None) => match crate::registry::sources::types::source_named(s.source@) {
            Some(source) => r == InstallStep::FetchDetail(
                FetchDetail { source, name: s.name, env: s.env, config: s.config },
            ),
            None => r matches InstallStep::Done(Err(e))
                && crate::registry::sources::types::no_such_source(e, s.source@),
        },
    }
}

/// Whether a record is the one that installing `detail` over `connection`
/// writes, apart from its identifier and its time.
pub open spec fn record_of(
    server: InstalledServer,
    name: String,
    detail: RegistryServerDetail,
    transport: Transport,
    command_kind: CommandKind,
    command: Seq<char>,
    args: Seq<Seq<char>>,
    env: EnvMap,
    config: Option<serde_json::Value>,
) -> bool {
    &&& server.qualified_name == name
    &&& server.display_name == detail.display_name
    &&& server.description == detail.description
    &&& server.icon_url == detail.icon_url
    &&& server.command_kind == command_kind
    &&& server.command@ == command
    &&& crate::text::texts(server.args@) == args
    &&& crate::text::texts(server.env_keys@) == crate::env::names_of(env@)
    &&& server.config == config
    &&& server.last_connected_at is None
    &&& server.transport == transport
    &&& server.enabled
}

/// What follows from a catalog's detail, for a record with this identifier and
/// time. A server that offers no way to connect, or a hosted one that gives no
/// endpoint, is refused.
pub open spec fn after_detail(
    s: FetchDetail,
    reply: Result<RegistryServerDetail, Error>,
    server_id: Seq<char>,
    installed_at: i64,
    r: InstallStep,
) -> bool {
    match reply {
        Err(e) => r == InstallStep::Done(Err(e)),
        Ok(detail) => match super::install::pick(detail.connections@) {
            None => r matches InstallStep::Done(Err(Error::MalformedResponse { detail: why }))
                && why@ == "`"@ + s.name@
                + "` offers neither a hosted endpoint nor a package; there is nothing to install"@,
            Some(picked) => if super::install::hosted(picked) {
                match super::install::endpoint_of(picked) {
                    Some(url) => r matches InstallStep::Insert(next) && next.server.server_id@
                        == server_id && next.server.installed_at == installed_at && next.env
                        == s.env && record_of(
                        next.server,
                        s.name,
                        detail,
                        Transport::HttpRemote { url },
                        CommandKind::Node,
                        ""@,
                        Seq::empty(),
                        s.env,
                        s.config,
                    ),
                    None => r matches InstallStep::Done(
                        Err(Error::MalformedResponse { detail: why }),
                    ) && why@ == "`"@ + s.name@
                        + "` is listed as hosted but publishes no endpoint"@,
                }
            } else {
                let (kind, command, args) = super::install::launch(s.name@, Some(picked));
                r matches InstallStep::Insert(next) && next.server.server_id@ == server_id
                    && next.server.installed_at == installed_at && next.env == s.env && record_of(
                    next.server,
                    s.name,
                    detail,
                    Transport::Stdio,
                    kind,
                    command,
                    args,
                    s.env,
                    s.config,
                )
            },
        },
    }
}

/// What follows from inserting the record.
pub open spec fn after_insert(s: Insert, reply: Result<bool, Error>, r: InstallStep) -> bool {
    match reply {
        Err(e) => r == InstallStep::Done(Err(e)),
        Ok(inserted) => if inserted {
            r == InstallStep::StoreEnv(StoreEnv { server: s.server, env: s.env })
        } else {
            r == InstallStep::FindWinner(
                FindWinner {
                    name: s.server.qualified_name,
                    env: s.env,
                    config: s.server.config,
                },
            )
        },
    }
}

/// What follows from looking the winner of a race up.
pub open spec fn after_winner(
    s: FindWinner,
    reply: Result<Option<InstalledServer>, Error>,
    r: InstallStep,
) -> bool {
    match reply {
        Err(e) => r == InstallStep::Done(Err(e)),
        Ok(Some(winner)) => refreshes(winner, s.env, s.config, r),
        Ok(None) => r matches InstallStep::Done(Err(Error::MalformedResponse { detail }))
            && detail@ == "an install lost a race but the winning record is gone"@,
    }
}

/// What follows from storing a new record's credentials.
pub open spec fn after_env(s: StoreEnv, reply: Result<(), Error>, r: InstallStep) -> bool {
    match reply {
        Err(e) => r == InstallStep::Done(Err(e)),
        Ok(_) => r == InstallStep::Done(
            Ok(InstallOutcome { server: s.server, already_installed: false }),
        ),
    }
}

/// What follows from an existing record's credentials: what was given is laid
/// over them.
pub open spec fn after_load(s: LoadEnv, reply: Result<EnvMap, Error>, r: InstallStep) -> bool {
    match reply {
        Err(e) => r == InstallStep::Done(Err(e)),
        Ok(stored) => r matches InstallStep::StoreMerged(next) && next.existing == s.existing
            && next.merged@ == stored@.union_prefer_right(s.env@) && next.config == s.config,
    }
}

/// What follows from storing the merged credentials: their names are stored
/// too, where the record does not have them already.
pub open spec fn after_merge(s: StoreMerged, reply: Result<(), Error>, r: InstallStep) -> bool {
    match reply {
        Err(e) => r == InstallStep::Done(Err(e)),
        Ok(_) => if crate::text::texts(s.existing.env_keys@) == crate::env::names_of(s.merged@) {
            configures(s.existing, s.config, r)
        } else {
            r matches InstallStep::StoreNames(next) && next.existing == s.existing
                && crate::text::texts(next.names@) == crate::env::names_of(s.merged@)
                && next.config == s.config
        },
    }
}

/// What follows from storing the names.
pub open spec fn after_names(s: StoreNames, reply: Result<(), Error>, r: InstallStep) -> bool {
    match reply {
        Err(e) => r == InstallStep::Done(Err(e)),
        Ok(_) => configures(InstalledServer { env_keys: s.names, ..s.existing }, s.config, r),
    }
}

/// What follows from storing the configuration.
pub open spec fn after_config(s: StoreConfig, reply: Result<(), Error>, r: InstallStep) -> bool {
    match reply {
        Err(e) => r == InstallStep::Done(Err(e)),
        Ok(_) => r == InstallStep::Done(
            Ok(
                InstallOutcome {
                    server: InstalledServer { config: Some(s.config), ..s.existing },
                    already_installed: true,
                },
            ),
        ),
    }
}

/// Begins installing a server.
pub fn begin_install(
    qualified_name: &str,
    env: EnvMap,
    config: Option<serde_json::Value>,
) -> (r: InstallStep)
    ensures
        begins(qualified_name@, env, config, r),
{
    match require_non_empty(qualified_name, "qualified_name") {
        Err(e) => InstallStep::Done(Err(e)),
        Ok(trimmed) => {
            let (source, name) = split_routing_name(trimmed);
            InstallStep::FindExisting(FindExisting { source, name, env, config })
        },
    }
}

/// Replaces the configuration of an existing record, where one was given.
fn configure(existing: InstalledServer, config: Option<serde_json::Value>) -> (r: InstallStep)
    ensures
        configures(existing, config, r),
{
    match config {
        Some(value) => InstallStep::StoreConfig(StoreConfig { existing, config: value }),
        None => InstallStep::Done(Ok(InstallOutcome { server: existing, already_installed: true })),
    }
}

/// Begins refreshing the credentials and configuration of an existing record.
///
/// Credentials are *merged*, not replaced: an install form that sends only the
/// one field its user retyped must not erase the ones it could not display.
pub fn refresh_install(
    existing: InstalledServer,
    env: EnvMap,
    config: Option<serde_json::Value>,
) -> (r: InstallStep)
    ensures
        refreshes(existing, env, config, r),
{
    if env.is_empty() {
        configure(existing, config)
    } else {
        InstallStep::LoadEnv(LoadEnv { existing, env, config })
    }
}

impl FindExisting {
    /// Answers with the install that has the name, if one does.
    pub fn found(self, reply: Result<Option<InstalledServer>, Error>, registries: &Registries) -> (r:
        InstallStep)
        ensures
            after_find(self, reply, r),
    {
        match reply {
            Err(e) => InstallStep::Done(Err(e)),
            Ok(Some(existing)) => refresh_install(existing, self.env, self.config),
            Ok(None) => match registries.get(self.source.as_str()) {
                Err(e) => InstallStep::Done(Err(e)),
                Ok(source) => InstallStep::FetchDetail(
                    FetchDetail { source, name: self.name, env: self.env, config: self.config },
                ),
            },
        }
    }
}

impl FetchDetail {
    /// Answers with what the catalog has of the server.
    pub fn fetched(self, reply: Result<RegistryServerDetail, Error>) -> (r: InstallStep)
        ensures
            exists|server_id: Seq<char>, installed_at: i64|
                crate::outside::uuid_text(server_id) && installed_at >= 0
                    && #[trigger] after_detail(self, reply, server_id, installed_at, r),
    {
        let server_id = fresh_uuid();
        let installed_at: i64 = now_ms();
        let ghost id = server_id@;
        let r = self.record(reply, server_id, installed_at);
        proof {
            assert(after_detail(self, reply, id, installed_at, r));
        }
        r
    }

    /// The same, for a record with this identifier and time.
    pub fn record(
        self,
        reply: Result<RegistryServerDetail, Error>,
        server_id: String,
        installed_at: i64,
    ) -> (r: InstallStep)
        ensures
            after_detail(self, reply, server_id@, installed_at, r),
    {
        let detail = match reply {
            Err(e) => {
                return InstallStep::Done(Err(e));
            },
            Ok(detail) => detail,
        };
        let built = match pick_connection(detail.connections.as_slice()) {
            None => {
                let why = text3(
                    "`",
                    self.name.as_str(),
                    "` offers neither a hosted endpoint nor a package; there is nothing to install",
                );
                return InstallStep::Done(Err(Error::malformed(why)));
            },
            Some(picked) => build_install_transport(self.name.as_str(), picked),
        };
        match built {
            Err(e) => InstallStep::Done(Err(e)),
            Ok((transport, command_kind, command, args)) => {
                proof {
                    if args@.len() == 0 {
                        assert(crate::text::texts(args@) =~= Seq::<Seq<char>>::empty());
                    }
                }
                let server = InstalledServer {
                    server_id,
                    qualified_name: self.name,
                    display_name: detail.display_name,
                    description: detail.description,
                    icon_url: detail.icon_url,
                    command_kind,
                    command,
                    args,
                    env_keys: self.env.names(),
                    config: self.config,
                    installed_at,
                    last_connected_at: None,
                    transport,
                    enabled: true,
                };
                InstallStep::Insert(Insert { server, env: self.env })
            },
        }
    }
}

impl Insert {
    /// Answers whether the record was written: it was not where its name was
    /// taken meanwhile.
    pub fn inserted(self, reply: Result<bool, Error>) -> (r: InstallStep)
        ensures
            after_insert(self, reply, r),
    {
        match reply {
            Err(e) => InstallStep::Done(Err(e)),
            Ok(inserted) => if inserted {
                InstallStep::StoreEnv(StoreEnv { server: self.server, env: self.env })
            } else {
                InstallStep::FindWinner(
                    FindWinner {
                        name: self.server.qualified_name,
                        env: self.env,
                        config: self.server.config,
                    },
                )
            },
        }
    }
}

impl FindWinner {
    /// Answers with the install that took the name.
    pub fn found(self, reply: Result<Option<InstalledServer>, Error>) -> (r: InstallStep)
        ensures
            after_winner(self, reply, r),
    {
        match reply {
            Err(e) => InstallStep::Done(Err(e)),
            Ok(Some(winner)) => refresh_install(winner, self.env, self.config),
            Ok(None) => InstallStep::Done(
                Err(
                    Error::malformed(
                        "an install lost a race but the winning record is gone".to_owned(),
                    ),
                ),
            ),
        }
    }
}

impl StoreEnv {
    /// Answers that the credentials are stored.
    pub fn stored(self, reply: Result<(), Error>) -> (r: InstallStep)
        ensures
            after_env(self, reply, r),
    {
        match reply {
            Err(e) => InstallStep::Done(Err(e)),
            Ok(_) => InstallStep::Done(
                Ok(InstallOutcome { server: self.server, already_installed: false }),
            ),
        }
    }
}

impl LoadEnv {
    /// Answers with the credentials that are stored.
    pub fn loaded(self, reply: Result<EnvMap, Error>) -> (r: InstallStep)
        ensures
            after_load(self, reply, r),
    {
        match reply {
            Err(e) => InstallStep::Done(Err(e)),
            Ok(stored) => {
                let mut merged = stored;
                merged.extend(self.env);
                InstallStep::StoreMerged(
                    StoreMerged { existing: self.existing, merged, config: self.config },
                )
            },
        }
    }
}

impl StoreMerged {
    /// Answers that the credentials are stored.
    pub fn stored(self, reply: Result<(), Error>) -> (r: InstallStep)
        ensures
            after_merge(self, reply, r),
    {
        match reply {
            Err(e) => InstallStep::Done(Err(e)),
            Ok(_) => {
                let names = self.merged.names();
                if same_texts(&self.existing.env_keys, &names) {
                    configure(self.existing, self.config)
                } else {
                    InstallStep::StoreNames(
                        StoreNames { existing: self.existing, names, config: self.config },
                    )
                }
            },
        }
    }
}

impl StoreNames {
    /// Answers that the names are stored.
    pub fn stored(self, reply: Result<(), Error>) -> (r: InstallStep)
        ensures
            after_names(self, reply, r),
    {
        match reply {
            Err(e) => InstallStep::Done(Err(e)),
            Ok(_) => {
                let mut existing = self.existing;
                existing.env_keys = self.names;
                configure(existing, self.config)
            },
        }
    }
}

impl StoreConfig {
    /// Answers that the configuration is stored.
    pub fn stored(self, reply: Result<(), Error>) -> (r: InstallStep)
        ensures
            after_config(self, reply, r),
    {
        match reply {
            Err(e) => InstallStep::Done(Err(e)),
            Ok(_) => {
                let mut existing = self.existing;
                existing.config = Some(self.config);
                InstallStep::Done(Ok(InstallOutcome { server: existing, already_installed: true }))
            },
        }
    }
}

} // verus!
