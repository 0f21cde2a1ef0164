//! What the loadable module offers a host.
use tinymcp::tinybus_module::config::{McpClientConfig, McpServerConfig, ModuleConfig};
use tinymcp::tinybus_module::manifest::{
    greet, manifest, methods, GreetRequest, GREET, INTERFACE, OBJECT_PATH,
};
use tinymcp::tinybus_module::service::McpService;

#[test]
fn the_manifest_declares_exactly_the_members_the_contract_names() {
    assert_eq!(manifest().methods, methods());
    assert_eq!(methods(), ["Greet"]);
    assert_eq!(GREET, "Greet");
}

#[test]
fn the_manifest_claims_the_interface_the_contract_names() {
    assert_eq!(manifest().provides, [INTERFACE]);
    assert_eq!(INTERFACE, "ai.tinyhumans.tinymcp.Greeting");
    assert_eq!(OBJECT_PATH, "/ai/tinyhumans/tinymcp/Greeting");
}

#[test]
fn the_module_is_not_lazy() {
    assert!(!manifest().lazy);
}

#[test]
fn the_module_serves_on_more_than_one_thread() {
    assert!(manifest().worker_threads > 1);
}

#[test]
fn the_manifest_asks_nothing_of_a_host() {
    let declared = manifest();
    assert!(declared.signals.is_empty() && declared.needed.is_empty());
    assert!(declared.optional.is_empty());
}

#[test]
fn a_default_configuration_is_a_working_one() {
    let config = ModuleConfig::default();

    assert_eq!(config.data_dir, None);
    assert!(config.client.servers.is_empty());
    assert!(config.client.enabled);
}

#[test]
fn a_service_builds_from_nothing() {
    let service = McpService::new(ModuleConfig::default());

    assert!(service.static_servers().is_empty());
    assert_eq!(service.data_dir(), &None);
}

#[test]
fn a_service_registers_the_statically_declared_servers() {
    let service = McpService::new(ModuleConfig {
        data_dir: None,
        client: McpClientConfig {
            servers: vec![McpServerConfig {
                name: "weather".to_string(),
                endpoint: "https://example.test/mcp".to_string(),
            }],
            ..McpClientConfig::default()
        },
    });

    assert_eq!(service.static_servers().len(), 1);
    assert!(service.static_servers().get("weather").is_some());
    assert!(service.static_servers().get("other").is_none());
}

#[test]
fn a_greeting_names_whom_it_greets() {
    let reply = greet(&GreetRequest { name: "Ferris".to_string() });
    assert_eq!(reply.greeting, "Hello, Ferris!");
}
