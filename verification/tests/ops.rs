//! The registry facade.
//!
//! The selection rules are tested directly. Operations are driven against a
//! host that keeps its records in memory and notes what it was asked to do.
use std::collections::BTreeMap;
use std::collections::BTreeSet;

use tinymcp::bus::{
    CommandKind, ConnectOutcome, InstallOutcome, InstalledServer, McpClientIdentityConfig,
    McpRegistryAuthConfig, McpTool, RegistryConnection, RegistrySearchPage, RegistryServerDetail,
    RegistryServerSummary, Transport, UpdateEnvOutcome, UpdateEnvStatus,
};
use tinymcp::env::EnvMap;
use tinymcp::error::Error;
use tinymcp::json::Json;
use tinymcp::registry::oauth::detect::DetectStep;
use tinymcp::registry::oauth::flow::{OAuthFlow, PendingSignIn};
use tinymcp::registry::ops::browsing::SearchStep;
use tinymcp::registry::ops::connecting::{ConnectStep, SignInStep};
use tinymcp::registry::ops::credentials::UpdateEnvStep;
use tinymcp::registry::ops::enabling::{EnableStep, UninstallStep};
use tinymcp::registry::ops::install::{
    build_install_transport, collect_required_env_keys, pick_connection, resolve_command,
    transport_kind,
};
use tinymcp::registry::ops::installing::InstallStep;
use tinymcp::registry::ops::naming::{epoch_ms, now_ms, require_non_empty, split_routing_name};
use tinymcp::registry::ops::tools::ToolCallResult;
use tinymcp::registry::ops::types::McpRegistry;
use tinymcp::registry::sources::types::RegistrySource;

/// A connection of the given kind.
fn connection(kind: &str, published: bool, url: Option<&str>) -> RegistryConnection {
    RegistryConnection {
        kind: kind.to_string(),
        published,
        deployment_url: url.map(str::to_string),
        config_schema: None,
        example_config: None,
    }
}

/// A detail record carrying `connections`.
fn detail(connections: Vec<RegistryConnection>) -> RegistryServerDetail {
    RegistryServerDetail {
        qualified_name: "com.vendor/server".to_string(),
        display_name: "Server".to_string(),
        description: None,
        icon_url: None,
        connections,
    }
}

/// A schema with these inputs.
fn schema(names: &[&str]) -> Json {
    let properties = names.iter().map(|name| (name.to_string(), Json::object(Vec::new()))).collect();
    Json::object(vec![("properties".to_string(), Json::object(properties))])
}

fn registry() -> McpRegistry {
    McpRegistry::new(
        McpRegistryAuthConfig::default(),
        McpClientIdentityConfig::default(),
        None,
    )
}

/// An install record.
fn install_record(server_id: &str, qualified_name: &str, enabled: bool) -> InstalledServer {
    InstalledServer {
        server_id: server_id.to_string(),
        qualified_name: qualified_name.to_string(),
        display_name: "Server".to_string(),
        description: None,
        icon_url: None,
        command_kind: CommandKind::Node,
        command: "npx".to_string(),
        args: Vec::new(),
        env_keys: Vec::new(),
        config: None,
        installed_at: 1_000,
        last_connected_at: None,
        transport: Transport::Stdio,
        enabled,
    }
}

fn env(pairs: &[(&str, &str)]) -> EnvMap {
    let mut map = EnvMap::new();
    for (name, value) in pairs {
        map.insert(name.to_string(), value.to_string());
    }
    map
}

fn tool(name: &str) -> McpTool {
    McpTool {
        name: name.to_string(),
        description: None,
        input_schema: serde_json::Value::Null,
    }
}

/// A host in memory.
#[derive(Default)]
struct Host {
    records: BTreeMap<String, InstalledServer>,
    credentials: BTreeMap<String, BTreeMap<String, String>>,
    live: BTreeSet<String>,
    recorded_failures: BTreeSet<String>,
    catalog: BTreeMap<String, RegistryServerDetail>,
    refusal: Option<Error>,
    hint: Option<String>,
    /// Written by someone else while the catalog is asked.
    rival: Option<InstalledServer>,
    /// Whether someone turns an install off while its session is ended.
    turned_off_meanwhile: bool,
    done: Vec<String>,
}

impl Host {
    fn with(records: Vec<InstalledServer>) -> Self {
        let mut host = Self::default();
        for record in records {
            host.records.insert(record.server_id.clone(), record);
        }
        host
    }

    fn find(&self, name: &str) -> Option<InstalledServer> {
        self.records.values().find(|record| record.qualified_name == name).cloned()
    }

    fn get(&self, id: &str) -> Result<InstalledServer, Error> {
        match self.records.get(id) {
            Some(record) => Ok(record.clone()),
            None => Err(Error::UnknownServer { server: id.to_string() }),
        }
    }

    fn load(&self, id: &str) -> EnvMap {
        let mut map = EnvMap::new();
        if let Some(stored) = self.credentials.get(id) {
            for (name, value) in stored {
                map.insert(name.clone(), value.clone());
            }
        }
        map
    }

    fn store(&mut self, id: &str, env: &EnvMap) {
        self.done.push(format!("store {id}"));
        self.credentials.insert(id.to_string(), env.pairs().iter().cloned().collect());
    }

    fn stored(&self, id: &str, name: &str) -> Option<&str> {
        self.credentials.get(id).and_then(|stored| stored.get(name)).map(String::as_str)
    }

    fn dial(&mut self, id: &str) -> Result<Vec<McpTool>, Error> {
        self.done.push(format!("dial {id}"));
        match &self.refusal {
            Some(error) => Err(error.clone()),
            None => {
                self.live.insert(id.to_string());
                Ok(vec![tool("forecast")])
            }
        }
    }

    fn end(&mut self, id: &str) -> bool {
        self.done.push(format!("end {id}"));
        self.live.remove(id)
    }

    fn install(
        &mut self,
        registry: &McpRegistry,
        name: &str,
        env: EnvMap,
        config: Option<serde_json::Value>,
    ) -> Result<InstallOutcome, Error> {
        let mut step = registry.install(name, env, config);
        loop {
            step = match step {
                InstallStep::FindExisting(s) => {
                    let found = self.find(&s.name);
                    s.found(Ok(found), registry.registries())
                }
                InstallStep::FetchDetail(s) => {
                    self.done.push(format!("fetch {} {}", s.source.as_str(), s.name));
                    if let Some(rival) = self.rival.take() {
                        self.records.insert(rival.server_id.clone(), rival);
                    }
                    let reply = match self.catalog.get(&s.name) {
                        Some(detail) => Ok(detail.clone()),
                        None => Err(Error::UnknownServer { server: s.name.clone() }),
                    };
                    s.fetched(reply)
                }
                InstallStep::Insert(s) => {
                    let absent = self.find(&s.server.qualified_name).is_none();
                    if absent {
                        self.records.insert(s.server.server_id.clone(), s.server.clone());
                    }
                    s.inserted(Ok(absent))
                }
                InstallStep::FindWinner(s) => {
                    let found = self.find(&s.name);
                    s.found(Ok(found))
                }
                InstallStep::StoreEnv(s) => {
                    self.store(&s.server.server_id.clone(), &s.env);
                    s.stored(Ok(()))
                }
                InstallStep::LoadEnv(s) => {
                    let loaded = self.load(&s.existing.server_id);
                    s.loaded(Ok(loaded))
                }
                InstallStep::StoreMerged(s) => {
                    self.store(&s.existing.server_id.clone(), &s.merged);
                    s.stored(Ok(()))
                }
                InstallStep::StoreNames(s) => {
                    self.done.push("names".to_string());
                    self.records.get_mut(&s.existing.server_id).unwrap().env_keys = s.names.clone();
                    s.stored(Ok(()))
                }
                InstallStep::StoreConfig(s) => {
                    self.records.get_mut(&s.existing.server_id).unwrap().config =
                        Some(s.config.clone());
                    s.stored(Ok(()))
                }
                InstallStep::Done(result) => return result,
            };
        }
    }

    fn update_env(
        &mut self,
        registry: &McpRegistry,
        id: &str,
        env: EnvMap,
    ) -> Result<UpdateEnvOutcome, Error> {
        let mut step = registry.update_env(id, env);
        loop {
            step = match step {
                UpdateEnvStep::CheckInstalled(s) => {
                    let record = self.get(&s.server_id);
                    s.checked(record)
                }
                UpdateEnvStep::LoadStored(s) => {
                    let loaded = self.load(&s.server_id);
                    s.loaded(Ok(loaded))
                }
                UpdateEnvStep::StoreMerged(s) => {
                    self.store(&s.server_id.clone(), &s.merged);
                    s.stored(Ok(()))
                }
                UpdateEnvStep::EndSession(s) => {
                    self.end(&s.server_id.clone());
                    if self.turned_off_meanwhile {
                        self.records.get_mut(&s.server_id).unwrap().enabled = false;
                    }
                    s.ended()
                }
                UpdateEnvStep::ReadInstall(s) => {
                    let record = self.get(&s.server_id);
                    s.read(record)
                }
                UpdateEnvStep::StoreNames(s) => {
                    self.records.get_mut(&s.server_id).unwrap().env_keys = s.names.clone();
                    s.stored(Ok(()))
                }
                UpdateEnvStep::Reconnect(s) => {
                    let reply = self.dial(&s.server_id.clone());
                    s.dialled(reply)
                }
                UpdateEnvStep::AskHint(s) => s.hinted(self.hint.clone()),
                UpdateEnvStep::Done(result) => return result,
            };
        }
    }

    fn set_enabled(&mut self, registry: &McpRegistry, id: &str, on: bool) -> Result<(), Error> {
        let mut step = registry.set_enabled(id, on);
        loop {
            step = match step {
                EnableStep::CheckInstalled(s) => {
                    let record = self.get(&s.server_id);
                    s.checked(record)
                }
                EnableStep::WriteEnabled(s) => {
                    self.records.get_mut(&s.server_id).unwrap().enabled = s.enabled;
                    s.written(Ok(()))
                }
                EnableStep::EndSession(s) => {
                    self.end(&s.server_id.clone());
                    s.ended()
                }
                EnableStep::ForgetFailure(s) => {
                    self.recorded_failures.remove(&s.server_id);
                    s.forgotten()
                }
                EnableStep::Done(result) => return result,
            };
        }
    }

    fn uninstall(&mut self, registry: &McpRegistry, id: &str) -> Result<bool, Error> {
        let mut step = registry.uninstall(id);
        loop {
            step = match step {
                UninstallStep::EndSession(s) => {
                    self.end(&s.server_id.clone());
                    s.ended()
                }
                UninstallStep::Delete(s) => {
                    self.credentials.remove(&s.server_id);
                    let went = self.records.remove(&s.server_id).is_some();
                    s.deleted(Ok(went))
                }
                UninstallStep::Done(result) => return result,
            };
        }
    }

    fn connect(&mut self, registry: &McpRegistry, id: &str) -> Result<ConnectOutcome, Error> {
        let mut step = registry.connect(id);
        loop {
            step = match step {
                ConnectStep::ReadInstall(s) => {
                    let record = self.get(&s.server_id);
                    s.read(record)
                }
                ConnectStep::Dial(s) => {
                    let reply = self.dial(&s.server_id.clone());
                    s.dialled(reply)
                }
                ConnectStep::Done(result) => return result,
            };
        }
    }

    fn complete(
        &mut self,
        registry: &McpRegistry,
        flow: &mut OAuthFlow,
        state: &str,
        exchanged: Result<(), Error>,
    ) -> Result<ConnectOutcome, Error> {
        let mut step = registry.oauth_complete(flow, state, "code");
        let mut exchanged = Some(exchanged);
        loop {
            step = match step {
                SignInStep::Exchange(s) => {
                    assert_eq!(s.code, "code");
                    assert_eq!(s.sign_in.verifier, "v");
                    self.done.push(format!("exchange {}", s.sign_in.server_id));
                    s.exchanged(exchanged.take().unwrap())
                }
                SignInStep::ReadInstall(s) => {
                    let record = self.get(&s.read.server_id);
                    s.read(record)
                }
                SignInStep::Dial(s) => {
                    let reply = self.dial(&s.dial.server_id.clone());
                    s.dialled(reply)
                }
                SignInStep::Done(result) => return result,
            };
        }
    }
}

#[test]
fn connection_kinds_are_normalised_onto_the_install_vocabulary() {
    assert_eq!(transport_kind(&connection("stdio", true, None)), "stdio");
    for hosted in ["http", "http_remote", "sse"] {
        assert_eq!(
            transport_kind(&connection(hosted, true, None)),
            "http_remote",
            "for {hosted}"
        );
    }
}

#[test]
fn a_published_hosted_endpoint_is_preferred_over_everything() {
    let connections = vec![
        connection("stdio", true, None),
        connection("http", true, Some("https://api.test/mcp")),
    ];

    let picked = pick_connection(&connections).expect("a connection");
    assert_eq!(transport_kind(picked), "http_remote");
}

#[test]
fn an_unpublished_hosted_endpoint_still_beats_a_published_package() {
    let connections = vec![
        connection("stdio", true, None),
        connection("http", false, Some("https://api.test/mcp")),
    ];

    assert_eq!(
        transport_kind(pick_connection(&connections).expect("a connection")),
        "http_remote"
    );
}

#[test]
fn a_published_package_is_used_when_there_is_no_hosted_endpoint() {
    let connections = vec![
        connection("stdio", false, None),
        connection("stdio", true, None),
    ];

    let picked = pick_connection(&connections).expect("a connection");
    assert!(picked.published);
}

#[test]
fn an_unpublished_package_is_the_last_resort() {
    let connections = vec![connection("stdio", false, None)];
    assert!(pick_connection(&connections).is_some());
}

#[test]
fn a_server_offering_nothing_dialable_yields_no_connection() {
    assert!(pick_connection(&[]).is_none());
    assert!(pick_connection(&[connection("carrier-pigeon", true, None)]).is_none());
}

#[test]
fn of_two_alike_the_first_is_picked() {
    let connections = vec![
        connection("carrier-pigeon", true, None),
        connection("sse", true, Some("https://one.test/mcp")),
        connection("http", true, Some("https://two.test/mcp")),
    ];
    let picked = pick_connection(&connections).expect("a connection");
    assert_eq!(picked.deployment_url.as_deref(), Some("https://one.test/mcp"));
}

#[test]
fn the_required_credentials_come_from_the_chosen_connection_only() {
    let mut hosted = connection("http", true, Some("https://api.test/mcp"));
    hosted.config_schema = Some(schema(&["Authorization"]));

    let mut package = connection("stdio", true, None);
    package.config_schema = Some(schema(&["LOCAL_PATH", "API_KEY"]));

    let required = collect_required_env_keys(&detail(vec![package, hosted]));

    assert_eq!(required, ["Authorization"]);
}

#[test]
fn a_connection_with_no_schema_requires_nothing() {
    let required = collect_required_env_keys(&detail(vec![connection(
        "http",
        true,
        Some("https://api.test/mcp"),
    )]));

    assert!(required.is_empty());
}

#[test]
fn a_server_with_no_connections_requires_nothing() {
    assert!(collect_required_env_keys(&detail(Vec::new())).is_empty());
}

#[test]
fn a_hosted_connection_becomes_a_remote_install_with_no_command() {
    let (transport, _, command, args) = build_install_transport(
        "com.vendor/server",
        &connection("http", true, Some("https://api.test/mcp")),
    )
    .expect("a transport");

    assert_eq!(
        transport,
        Transport::HttpRemote { url: "https://api.test/mcp".to_string() }
    );
    assert!(command.is_empty());
    assert!(args.is_empty());
}

#[test]
fn a_hosted_connection_with_no_endpoint_is_refused() {
    let error = build_install_transport("com.vendor/server", &connection("http", true, None))
        .expect_err("no endpoint");

    assert!(matches!(error, Error::MalformedResponse { .. }), "{error:?}");
}

#[test]
fn a_hosted_connection_with_a_blank_endpoint_is_refused() {
    assert!(
        build_install_transport("com.vendor/server", &connection("http", true, Some("   ")))
            .is_err()
    );
}

#[test]
fn a_package_connection_becomes_a_subprocess_install() {
    let (transport, kind, command, args) =
        build_install_transport("com.vendor/server", &connection("stdio", true, None))
            .expect("a transport");

    assert_eq!(transport, Transport::Stdio);
    assert_eq!(kind, CommandKind::Node);
    assert_eq!(command, "npx");
    assert_eq!(args, ["-y", "com.vendor/server"]);
}

#[test]
fn a_catalog_worked_example_is_used_when_there_is_one() {
    let mut package = connection("stdio", true, None);
    package.example_config = Some(Json::object(vec![
        ("command".to_string(), Json::text("uvx")),
        ("args".to_string(), Json::array(vec![Json::text("some-server")])),
    ]));

    let (kind, command, args) = resolve_command("com.vendor/server", Some(&package));

    assert_eq!(kind, CommandKind::Python);
    assert_eq!(command, "uvx");
    assert_eq!(args, ["some-server"]);
}

#[test]
fn the_launcher_names_the_ecosystem() {
    for (launcher, expected) in [
        ("uvx", CommandKind::Python),
        ("python3", CommandKind::Python),
        ("npx", CommandKind::Node),
        ("bun", CommandKind::Node),
    ] {
        let mut package = connection("stdio", true, None);
        package.example_config =
            Some(Json::object(vec![("command".to_string(), Json::text(launcher))]));

        let (kind, _, _) = resolve_command("com.vendor/server", Some(&package));
        assert_eq!(kind, expected, "for {launcher}");
    }
}

#[test]
fn a_package_with_no_example_falls_back_to_npx() {
    let (kind, command, args) = resolve_command("com.vendor/server", None);

    assert_eq!(kind, CommandKind::Node);
    assert_eq!(command, "npx");
    assert_eq!(args, ["-y", "com.vendor/server"]);
}

#[test]
fn an_example_that_names_no_launcher_is_no_example() {
    let mut package = connection("stdio", true, None);
    package.example_config = Some(Json::object(vec![
        ("command".to_string(), Json::text("  ")),
        ("args".to_string(), Json::array(vec![Json::text("x")])),
    ]));
    let (_, command, args) = resolve_command("name", Some(&package));
    assert_eq!(command, "npx");
    assert_eq!(args, ["-y", "name"]);
}

#[test]
fn a_name_is_trimmed_and_a_blank_one_is_refused() {
    assert_eq!(require_non_empty(" \u{3000}srv-1\n", "server_id"), Ok("srv-1"));
    assert_eq!(
        require_non_empty(" \t", "server_id"),
        Err(Error::UnknownServer { server: "<blank server_id>".to_string() })
    );
}

#[test]
fn a_routing_prefix_is_split_off_at_the_first_separator() {
    for (name, source, bare) in [
        ("smithery::@a/b", "smithery", "@a/b"),
        ("@a/b", "mcp_official", "@a/b"),
        ("a::b::c", "a", "b::c"),
        ("::b", "", "b"),
        ("a:b", "mcp_official", "a:b"),
    ] {
        assert_eq!(
            split_routing_name(name),
            (source.to_string(), bare.to_string()),
            "for {name}"
        );
    }
}

#[test]
fn a_time_that_does_not_fit_is_zero() {
    assert_eq!(epoch_ms(Some(1_700_000_000_000)), 1_700_000_000_000);
    assert_eq!(epoch_ms(Some(i64::MAX as u128)), i64::MAX);
    assert_eq!(epoch_ms(Some(i64::MAX as u128 + 1)), 0);
    assert_eq!(epoch_ms(None), 0);
    assert!(now_ms() > 1_600_000_000_000);
}

#[test]
fn a_blank_identifier_is_refused_by_every_operation_that_takes_one() {
    let registry = registry();
    let mut host = Host::default();

    assert!(host.connect(&registry, "   ").is_err());
    assert!(registry.disconnect("").is_err());
    assert!(host.uninstall(&registry, "  ").is_err());
    assert!(host.set_enabled(&registry, "", true).is_err());
    assert!(host.update_env(&registry, " ", EnvMap::new()).is_err());
    assert!(host.install(&registry, " ", EnvMap::new(), None).is_err());
    assert!(registry.list_tools("   ").is_err());
    assert!(matches!(registry.detect_auth(""), DetectStep::Done(Err(_))));
    assert!(registry.oauth_begin(" ", "http://127.0.0.1/").is_err());
    assert!(registry.registry_get("   ").is_err());
    assert!(registry.config_assist("   ").is_err());
    assert!(registry.tool_call("srv-1", "  ", serde_json::Value::Null).is_err());
    assert_eq!(
        registry.tool_call(" ", "x", serde_json::Value::Null).expect_err("blank").message(),
        "unknown mcp server `<blank server_id>`"
    );
    assert!(host.done.is_empty());
}

#[test]
fn installing_writes_one_record_and_its_credentials() {
    let registry = registry();
    let mut host = Host::default();
    host.catalog.insert(
        "@a/b".to_string(),
        detail(vec![
            connection("stdio", true, None),
            connection("http", true, Some("https://api.test/mcp")),
        ]),
    );

    let outcome = host
        .install(
            &registry,
            " smithery::@a/b ",
            env(&[("B", "2"), ("A", "1")]),
            Some(serde_json::Value::from(7)),
        )
        .expect("an install");

    assert!(!outcome.already_installed);
    assert_eq!(host.done[0], "fetch smithery @a/b");
    let server = outcome.server;
    assert_eq!(server.qualified_name, "@a/b");
    assert_eq!(server.display_name, "Server");
    assert_eq!(
        server.transport,
        Transport::HttpRemote { url: "https://api.test/mcp".to_string() }
    );
    assert_eq!(server.env_keys, ["A", "B"]);
    assert_eq!(server.config, Some(serde_json::Value::from(7)));
    assert!(server.enabled && server.last_connected_at.is_none());
    assert!(server.installed_at > 1_600_000_000_000);
    assert_eq!(server.server_id.len(), 36);
    assert_eq!(&server.server_id[14..15], "4");
    assert_eq!(host.records.len(), 1);
    assert_eq!(host.records[&server.server_id], server);
    assert_eq!(host.stored(&server.server_id, "A"), Some("1"));
}

#[test]
fn installing_again_refreshes_the_one_record() {
    let registry = registry();
    let mut existing = install_record("srv-1", "@a/b", false);
    existing.env_keys = vec!["KEPT".to_string(), "REPLACED".to_string()];
    let mut host = Host::with(vec![existing]);
    host.store("srv-1", &env(&[("KEPT", "old"), ("REPLACED", "old")]));
    host.done.clear();

    let outcome = host
        .install(&registry, "smithery::@a/b", env(&[("REPLACED", "new")]), None)
        .expect("a refresh");
    assert!(outcome.already_installed);
    assert_eq!(host.records.len(), 1);
    assert_eq!(host.stored("srv-1", "KEPT"), Some("old"));
    assert_eq!(host.stored("srv-1", "REPLACED"), Some("new"));
    // The names are what they were, so they are not written again.
    assert_eq!(host.done, ["store srv-1"]);

    let outcome = host
        .install(&registry, "@a/b", env(&[("ADDED", "x")]), Some(serde_json::Value::from(1)))
        .expect("a refresh");
    assert_eq!(outcome.server.env_keys, ["ADDED", "KEPT", "REPLACED"]);
    assert_eq!(outcome.server.config, Some(serde_json::Value::from(1)));
    assert_eq!(host.records["srv-1"], outcome.server);

    // Nothing given: nothing written.
    host.done.clear();
    let outcome = host.install(&registry, "@a/b", EnvMap::new(), None).expect("a refresh");
    assert!(outcome.already_installed && host.done.is_empty());
    assert!(!outcome.server.enabled);
}

#[test]
fn losing_the_race_for_a_name_refreshes_the_winner() {
    let registry = registry();
    let mut host = Host::default();
    host.catalog.insert("@a/b".to_string(), detail(vec![connection("stdio", true, None)]));
    host.rival = Some(install_record("winner", "@a/b", true));

    let outcome = host
        .install(&registry, "@a/b", env(&[("TOKEN", "x")]), Some(serde_json::Value::from(3)))
        .expect("a refresh");

    assert!(outcome.already_installed);
    assert_eq!(outcome.server.server_id, "winner");
    assert_eq!(outcome.server.config, Some(serde_json::Value::from(3)));
    assert_eq!(host.records.len(), 1);
    assert_eq!(host.stored("winner", "TOKEN"), Some("x"));
}

#[test]
fn an_install_that_cannot_be_is_an_error_and_writes_nothing() {
    let registry = registry();
    let mut host = Host::default();
    host.catalog.insert("odd".to_string(), detail(vec![connection("pigeon", true, None)]));
    host.catalog.insert("bare".to_string(), detail(vec![connection("http", true, None)]));

    assert_eq!(
        host.install(&registry, "nowhere::x", EnvMap::new(), None),
        Err(Error::UnknownServer { server: "registry source `nowhere`".to_string() })
    );
    assert_eq!(
        host.install(&registry, "odd", EnvMap::new(), None),
        Err(Error::MalformedResponse {
            detail: "`odd` offers neither a hosted endpoint nor a package; there is nothing to install"
                .to_string(),
        })
    );
    assert_eq!(
        host.install(&registry, "bare", EnvMap::new(), None),
        Err(Error::MalformedResponse {
            detail: "`bare` is listed as hosted but publishes no endpoint".to_string(),
        })
    );
    assert!(host.install(&registry, "absent", EnvMap::new(), None).is_err());
    assert!(host.records.is_empty() && host.credentials.is_empty());
}

#[test]
fn a_vanished_winner_is_an_error() {
    let registry = registry();
    let step = registry.install("@a/b", EnvMap::new(), None);
    let step = match step {
        InstallStep::FindExisting(s) => s.found(Ok(None), registry.registries()),
        other => panic!("{other:?}"),
    };
    let step = match step {
        InstallStep::FetchDetail(s) => s.record(
            Ok(detail(vec![connection("stdio", true, None)])),
            "id-1".to_string(),
            42,
        ),
        other => panic!("{other:?}"),
    };
    let step = match step {
        InstallStep::Insert(s) => {
            assert_eq!(s.server.server_id, "id-1");
            assert_eq!(s.server.installed_at, 42);
            assert_eq!(s.server.args, ["-y", "@a/b"]);
            s.inserted(Ok(false))
        }
        other => panic!("{other:?}"),
    };
    match step {
        InstallStep::FindWinner(s) => match s.found(Ok(None)) {
            InstallStep::Done(Err(error)) => assert_eq!(
                error.message(),
                "malformed mcp response: an install lost a race but the winning record is gone"
            ),
            other => panic!("{other:?}"),
        },
        other => panic!("{other:?}"),
    }
}

#[test]
fn uninstalling_reports_whether_a_record_went() {
    let registry = registry();
    let mut host = Host::with(vec![install_record("srv-1", "@test/server", true)]);
    host.live.insert("srv-1".to_string());

    assert!(host.uninstall(&registry, "srv-1").unwrap());
    assert!(host.live.is_empty());
    assert!(!host.uninstall(&registry, "srv-1").unwrap());
}

#[test]
fn uninstalling_takes_the_credentials_with_it() {
    let registry = registry();
    let mut host = Host::with(vec![install_record("srv-1", "@test/server", true)]);
    host.store("srv-1", &env(&[("API_KEY", "secret")]));

    host.uninstall(&registry, "srv-1").unwrap();

    assert!(host.load("srv-1").is_empty());
}

#[test]
fn turning_a_server_off_persists_and_clears_its_recorded_failure() {
    let registry = registry();
    let mut host = Host::with(vec![install_record("srv-1", "@test/server", true)]);
    host.live.insert("srv-1".to_string());
    host.recorded_failures.insert("srv-1".to_string());
    host.store("srv-1", &env(&[("API_KEY", "secret")]));

    host.set_enabled(&registry, "srv-1", false).unwrap();

    assert!(!host.records["srv-1"].enabled);
    assert!(host.recorded_failures.is_empty());
    assert!(host.live.is_empty());
    assert_eq!(host.stored("srv-1", "API_KEY"), Some("secret"));
}

#[test]
fn turning_a_server_on_does_not_connect_it() {
    let registry = registry();
    let mut host = Host::with(vec![install_record("srv-1", "@test/server", false)]);

    host.set_enabled(&registry, "srv-1", true).unwrap();

    assert!(host.records["srv-1"].enabled);
    assert!(host.live.is_empty());
    assert!(host.done.is_empty());
}

#[test]
fn enabling_a_server_that_is_not_installed_is_an_error_rather_than_a_no_op() {
    let error = Host::default()
        .set_enabled(&registry(), "absent", true)
        .expect_err("no such install");

    assert!(matches!(error, Error::UnknownServer { .. }), "{error:?}");
}

#[test]
fn connecting_a_server_that_is_turned_off_is_refused() {
    let registry = registry();
    let mut host = Host::with(vec![install_record("srv-1", "@test/server", false)]);

    let error = host.connect(&registry, "srv-1").expect_err("turned off");

    assert!(matches!(error, Error::ServerDisabled { .. }), "{error:?}");
    assert!(error.message().contains("disabled"), "{error:?}");
    assert!(host.done.is_empty());
}

#[test]
fn connecting_hands_back_the_tools_or_what_went_wrong() {
    let registry = registry();
    let mut host = Host::with(vec![install_record("srv-1", "@test/server", true)]);

    let outcome = host.connect(&registry, " srv-1 ").unwrap();
    assert_eq!(outcome.server_id, "srv-1");
    assert_eq!(outcome.tools, vec![tool("forecast")]);

    host.refusal = Some(Error::MissingAuthChallenge);
    assert_eq!(host.connect(&registry, "srv-1"), Err(Error::MissingAuthChallenge));
    assert!(matches!(host.connect(&registry, "absent"), Err(Error::UnknownServer { .. })));
}

#[test]
fn replacing_credentials_merges_rather_than_erasing() {
    let registry = registry();
    let mut host = Host::with(vec![install_record("srv-1", "@test/server", false)]);
    host.store("srv-1", &env(&[("KEPT", "old"), ("REPLACED", "old")]));

    let outcome = host.update_env(&registry, "srv-1", env(&[("REPLACED", "new")])).unwrap();

    assert_eq!(host.stored("srv-1", "KEPT"), Some("old"));
    assert_eq!(host.stored("srv-1", "REPLACED"), Some("new"));
    assert_eq!(outcome.env_keys, ["KEPT", "REPLACED"]);
    assert_eq!(host.records["srv-1"].env_keys, ["KEPT", "REPLACED"]);
}

#[test]
fn a_server_that_is_turned_off_is_not_reconnected_when_its_credentials_change() {
    let registry = registry();
    let mut host = Host::with(vec![install_record("srv-1", "@test/server", false)]);

    let outcome = host.update_env(&registry, "srv-1", env(&[("API_KEY", "new")])).unwrap();

    assert_eq!(outcome.status, UpdateEnvStatus::Disabled);
    assert!(outcome.tools.is_empty());
    assert_eq!(host.stored("srv-1", "API_KEY"), Some("new"));
    assert_eq!(host.done, ["store srv-1", "end srv-1"]);
}

#[test]
fn a_failed_reconnect_keeps_the_credentials_and_reports_the_failure() {
    let registry = registry();
    let mut host = Host::with(vec![install_record("srv-1", "@test/server", true)]);
    host.refusal = Some(Error::Transport {
        endpoint: "http://127.0.0.1:1".to_string(),
        source: "refused".to_string(),
    });

    let outcome = host.update_env(&registry, "srv-1", env(&[("API_KEY", "new")])).unwrap();

    assert_eq!(outcome.status, UpdateEnvStatus::Disconnected);
    assert_eq!(
        outcome.error.as_deref(),
        Some("mcp transport failure for `http://127.0.0.1:1`: refused")
    );
    assert_eq!(outcome.auth_hint, None);
    assert_eq!(host.stored("srv-1", "API_KEY"), Some("new"));
    assert_eq!(host.done, ["store srv-1", "end srv-1", "dial srv-1"]);
}

#[test]
fn a_refusal_for_want_of_credentials_crosses_as_its_hint_alone() {
    let registry = registry();
    let mut host = Host::with(vec![install_record("srv-1", "@test/server", true)]);
    host.refusal = Some(Error::Unauthorized {
        endpoint: "https://api.test".to_string(),
        resource_metadata: None,
    });
    host.hint = Some("token".to_string());

    let outcome = host.update_env(&registry, "srv-1", env(&[("API_KEY", "new")])).unwrap();

    assert_eq!(outcome.status, UpdateEnvStatus::Unauthorized);
    assert_eq!(outcome.auth_hint.as_deref(), Some("token"));
    assert_eq!(outcome.error, None);
}

#[test]
fn replaced_credentials_reconnect_a_server_that_is_on() {
    let registry = registry();
    let mut host = Host::with(vec![install_record("srv-1", "@test/server", true)]);

    let outcome = host.update_env(&registry, "srv-1", env(&[("A", "1")])).unwrap();

    assert_eq!(outcome.status, UpdateEnvStatus::Connected);
    assert_eq!(outcome.tools, vec![tool("forecast")]);
    assert!(host.live.contains("srv-1"));
}

#[test]
fn a_server_turned_off_while_its_session_ends_is_not_reconnected() {
    let registry = registry();
    let mut host = Host::with(vec![install_record("srv-1", "@test/server", true)]);
    host.turned_off_meanwhile = true;

    let outcome = host.update_env(&registry, "srv-1", env(&[("A", "1")])).unwrap();

    assert_eq!(outcome.status, UpdateEnvStatus::Disabled);
    assert_eq!(host.stored("srv-1", "A"), Some("1"));
    assert_eq!(host.done, ["store srv-1", "end srv-1"]);
}

#[test]
fn a_record_that_cannot_be_read_does_not_keep_credentials_from_being_stored() {
    let unreadable = || {
        Err(Error::Store { action: "reading".to_string(), source: "locked".to_string() })
    };
    let step = match registry().update_env("srv-1", env(&[("A", "1")])) {
        UpdateEnvStep::CheckInstalled(s) => s.checked(unreadable()),
        other => panic!("{other:?}"),
    };
    let step = match step {
        UpdateEnvStep::LoadStored(s) => s.loaded(Ok(EnvMap::new())),
        other => panic!("{other:?}"),
    };
    let step = match step {
        UpdateEnvStep::StoreMerged(s) => {
            assert_eq!(s.merged.get("A").map(String::as_str), Some("1"));
            s.stored(Ok(()))
        }
        other => panic!("{other:?}"),
    };
    let step = match step {
        UpdateEnvStep::EndSession(s) => s.ended(),
        other => panic!("{other:?}"),
    };
    match step {
        UpdateEnvStep::ReadInstall(s) => match s.read(unreadable()) {
            UpdateEnvStep::Done(Err(error)) => {
                assert!(matches!(error, Error::Store { .. }), "{error:?}");
            }
            other => panic!("{other:?}"),
        },
        other => panic!("{other:?}"),
    }
}

#[test]
fn replacing_credentials_of_what_is_not_installed_stores_nothing() {
    let registry = registry();
    let mut host = Host::default();
    host.live.insert("absent".to_string());

    assert_eq!(
        host.update_env(&registry, "absent", env(&[("A", "1")])),
        Err(Error::UnknownServer { server: "absent".to_string() })
    );
    assert!(host.credentials.is_empty());
    assert!(host.load("absent").is_empty());
    assert!(host.live.contains("absent"));
    assert!(host.done.is_empty());
}

#[test]
fn a_sign_in_that_worked_is_not_undone_by_a_failed_connect() {
    let registry = registry();
    let mut host = Host::with(vec![install_record("srv-1", "@test/server", true)]);

    let mut flow = OAuthFlow::new();
    let begin = |flow: &mut OAuthFlow, server_id: &str| {
        flow.park(
            "state".to_string(),
            PendingSignIn {
                server_id: server_id.to_string(),
                verifier: "v".to_string(),
                redirect_uri: "http://127.0.0.1/".to_string(),
                token_endpoint: "https://auth.test/token".to_string(),
                client_id: "cli-1".to_string(),
                client_secret: None,
            },
        );
    };

    begin(&mut flow, "srv-1");
    let outcome = host.complete(&registry, &mut flow, "state", Ok(())).unwrap();
    assert_eq!(outcome.tools, vec![tool("forecast")]);
    assert_eq!(flow.pending_count(), 0);

    host.refusal = Some(Error::MissingAuthChallenge);
    begin(&mut flow, "srv-1");
    let outcome = host.complete(&registry, &mut flow, "state", Ok(())).unwrap();
    assert_eq!(outcome, ConnectOutcome { server_id: "srv-1".to_string(), tools: Vec::new() });
    begin(&mut flow, "absent");
    let outcome = host.complete(&registry, &mut flow, "state", Ok(())).unwrap();
    assert_eq!(outcome.server_id, "absent");
    begin(&mut flow, "  ");
    let outcome = host.complete(&registry, &mut flow, "state", Ok(())).unwrap();
    assert_eq!(outcome.server_id, "  ");

    begin(&mut flow, "srv-1");
    assert_eq!(
        host.complete(&registry, &mut flow, "state", Err(Error::MissingAuthChallenge)),
        Err(Error::MissingAuthChallenge)
    );
}

#[test]
fn a_sign_in_with_a_state_never_issued_exchanges_and_dials_nothing() {
    let registry = registry();
    let mut host = Host::with(vec![install_record("srv-1", "@test/server", true)]);
    let mut flow = OAuthFlow::new();

    let error = host
        .complete(&registry, &mut flow, "never-issued", Ok(()))
        .expect_err("an unknown state");

    assert_eq!(
        error,
        Error::MalformedResponse { detail: "no sign-in was begun with this state".to_string() }
    );
    assert!(host.done.is_empty() && host.live.is_empty());
}

#[test]
fn listing_tools_on_a_server_that_is_not_connected_says_so() {
    let request = registry().list_tools("srv-1").unwrap();
    assert_eq!(request.server_id, "srv-1");
    let error = request.listed(None).expect_err("not connected");

    assert!(matches!(error, Error::NotConnected { .. }), "{error:?}");
    let request = registry().list_tools("srv-1").unwrap();
    assert_eq!(request.listed(Some(vec![tool("x")])), Ok(vec![tool("x")]));
}

#[test]
fn calling_a_tool_on_a_server_that_is_not_connected_says_so() {
    let call = || registry().tool_call("srv-1", " forecast ", serde_json::Value::from(1)).unwrap();
    assert_eq!(call().tool_name, "forecast");
    assert_eq!(call().arguments, serde_json::Value::from(1));
    let error = call().answered(None).expect_err("not connected");

    assert!(matches!(error, Error::NotConnected { .. }), "{error:?}");

    let result = ToolCallResult { is_error: true, raw_result: serde_json::Value::from(2) };
    let outcome = call().answered(Some(Ok(result))).unwrap();
    assert!(outcome.is_error);
    assert_eq!(outcome.result, serde_json::Value::from(2));
    assert_eq!(
        call().answered(Some(Err(Error::Rpc { message: "x".to_string() }))),
        Err(Error::Rpc { message: "x".to_string() })
    );
}

#[test]
fn registry_settings_report_whether_credentials_are_set_and_never_their_values() {
    let registry = McpRegistry::new(
        McpRegistryAuthConfig {
            smithery_api_key: Some("smithery-secret".to_string()),
            mcp_official_token: Some("official-secret".to_string()),
            mcp_official_base: Some("https://registry.test".to_string()),
        },
        McpClientIdentityConfig::default(),
        None,
    );

    let settings = registry.registry_settings(None);

    assert!(settings.smithery_api_key_set);
    assert!(settings.mcp_official_token_set);
    assert_eq!(settings.mcp_official_base.as_deref(), Some("https://registry.test"));

    let encoded = format!("{settings:?}");
    assert!(!encoded.contains("smithery-secret"), "{encoded}");
    assert!(!encoded.contains("official-secret"), "{encoded}");
}

#[test]
fn unset_registry_settings_report_nothing_configured() {
    let settings = registry().registry_settings(None);

    assert!(!settings.smithery_api_key_set);
    assert!(!settings.mcp_official_token_set);
    assert_eq!(settings.mcp_official_base, None);
    assert!(registry().registry_settings(Some("key".to_string())).smithery_api_key_set);
}

fn row(name: &str) -> RegistryServerSummary {
    RegistryServerSummary {
        qualified_name: name.to_string(),
        display_name: name.to_string(),
        description: None,
        icon_url: None,
        source: "x".to_string(),
        is_deployed: false,
        official: false,
        website_url: None,
        auth_kind: None,
    }
}

#[test]
fn a_search_asks_every_source_in_turn_and_merges_what_they_say() {
    let registry = registry();
    let step = registry.registry_search(Some("key".to_string()), Some("  weather "), 0, 0);
    let step = match step {
        SearchStep::Ask(s) => {
            assert_eq!(s.request.source, RegistrySource::McpOfficial);
            assert_eq!(s.request.query, "weather");
            assert_eq!((s.request.page, s.request.page_size), (1, 20));
            s.answered(Ok((vec![row("a"), row("b")], 2)))
        }
        other => panic!("{other:?}"),
    };
    let step = match step {
        SearchStep::Ask(s) => {
            assert_eq!(s.request.source, RegistrySource::Smithery);
            s.answered(Ok((vec![row("c")], 9)))
        }
        other => panic!("{other:?}"),
    };
    match step {
        SearchStep::Done(Ok(page)) => assert_eq!(
            page,
            RegistrySearchPage {
                servers: vec![row("a"), row("b"), row("c")],
                page: 1,
                total_pages: 9,
            }
        ),
        other => panic!("{other:?}"),
    }
}

#[test]
fn a_search_without_a_key_asks_the_official_source_alone() {
    let registry = registry();
    let step = registry.registry_search(Some("  ".to_string()), None, 5, 7);
    match step {
        SearchStep::Ask(s) => {
            assert_eq!(s.request.query, "");
            assert_eq!((s.request.page, s.request.page_size), (5, 7));
            match s.answered(Ok((Vec::new(), 1))) {
                SearchStep::Done(Ok(page)) => assert_eq!((page.page, page.total_pages), (5, 5)),
                other => panic!("{other:?}"),
            }
        }
        other => panic!("{other:?}"),
    }
}

#[test]
fn a_source_that_fails_takes_the_search_with_it() {
    let registry = registry();
    match registry.registry_search(Some("key".to_string()), None, 1, 20) {
        SearchStep::Ask(s) => match s.answered(Err(Error::MissingAuthChallenge)) {
            SearchStep::Done(Err(error)) => assert_eq!(error, Error::MissingAuthChallenge),
            other => panic!("{other:?}"),
        },
        other => panic!("{other:?}"),
    }
}

#[test]
fn a_detail_comes_with_the_credentials_an_install_would_need() {
    let registry = registry();
    let request = registry.registry_get(" smithery::@a/b ").unwrap();
    assert_eq!(request.source, RegistrySource::Smithery);
    assert_eq!(request.name, "@a/b");
    let mut package = connection("stdio", true, None);
    package.config_schema = Some(schema(&["B", "A"]));
    let (found, required) = request.answered(Ok(detail(vec![package]))).unwrap();
    assert_eq!(found.qualified_name, "com.vendor/server");
    assert_eq!(required, ["B", "A"]);

    assert_eq!(
        registry.registry_get("nowhere::x").expect_err("no such source"),
        Error::UnknownServer { server: "registry source `nowhere`".to_string() }
    );
    let request = registry.config_assist("x").unwrap();
    assert_eq!(request.source, RegistrySource::McpOfficial);
    assert!(request.answered(Err(Error::MissingAuthChallenge)).is_err());
}
