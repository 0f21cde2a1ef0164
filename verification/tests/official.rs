//! The official registry's rows.
//!
//! The fixtures are JSON texts, because the shapes come from a registry whose
//! schema moves and a fixture that no longer reads is the failure worth
//! catching.
use tinymcp::bus::CommandKind;
use tinymcp::json::Json;
use tinymcp::registry::ops::install::{collect_required_env_keys, resolve_command};
use tinymcp::registry::sources::official::convert::{official_page, read_official_page};
use tinymcp::registry::sources::official::cursors::CursorCache;
use tinymcp::registry::sources::official::paging::{page_bound, search_cache_key};
use tinymcp::registry::sources::official::types::{OfficialListResponse, OfficialServer};
use tinymcp::registry::sources::types::{RegistrySource, SearchRequest};

fn plain(value: serde_json::Value) -> Json {
    match value {
        serde_json::Value::Null => Json::Null,
        serde_json::Value::Bool(flag) => Json::Bool(flag),
        serde_json::Value::Number(number) => Json::Number(number.to_string()),
        serde_json::Value::String(text) => Json::Text(text),
        serde_json::Value::Array(items) => Json::Array(items.into_iter().map(plain).collect()),
        serde_json::Value::Object(members) => {
            Json::Object(members.into_iter().map(|(name, value)| (name, plain(value))).collect())
        }
    }
}

fn json(text: &str) -> Json {
    plain(serde_json::from_str(text).expect("a fixture is json"))
}

/// A list response wrapping `servers`.
fn list_response(servers: &str, next_cursor: Option<&str>) -> OfficialListResponse {
    let document = match next_cursor {
        Some(cursor) => {
            format!("{{\"servers\": {servers}, \"metadata\": {{\"nextCursor\": \"{cursor}\"}}}}")
        }
        None => format!("{{\"servers\": {servers}}}"),
    };
    OfficialListResponse::read(&json(&document)).expect("a list response decodes")
}

/// One envelope around a server that can be installed.
fn envelope(name: &str) -> String {
    format!(
        "{{\"server\": {{\"name\": \"{name}\", \"description\": \"a server\", \
         \"packages\": [{{\"registryType\": \"npm\", \"identifier\": \"{name}\"}}]}}}}"
    )
}

fn server(text: &str) -> OfficialServer {
    OfficialServer::read(&json(text))
}

fn text_at<'a>(document: &'a Json, path: &[&str]) -> Option<&'a str> {
    let mut at = document;
    for name in path {
        at = at.get(name)?;
    }
    at.as_str()
}

#[test]
fn a_row_is_read_from_inside_its_envelope() {
    let response = list_response(&format!("[{}]", envelope("io.github.example/server")), None);
    let summaries = response.into_summaries();

    assert_eq!(summaries.len(), 1);
    assert_eq!(summaries[0].qualified_name, "io.github.example/server");
    assert_eq!(summaries[0].description.as_deref(), Some("a server"));
}

#[test]
fn a_row_with_no_server_key_is_a_parse_error_rather_than_a_blank_card() {
    let decoded = OfficialListResponse::read(&json(
        r#"{"servers": [{ "name": "flat-shape", "description": "wrong level" }]}"#,
    ));

    assert!(decoded.is_err(), "a flat row should not decode");
    assert_eq!(
        decoded.expect_err("a flat row").message(),
        "malformed mcp response: a registry row has no `server` object"
    );
}

#[test]
fn an_empty_response_yields_no_rows() {
    assert!(list_response("[]", None).into_summaries().is_empty());
    let empty = OfficialListResponse::read(&json("{}")).unwrap();
    assert!(empty.into_summaries().is_empty());
}

#[test]
fn a_row_offering_no_way_to_connect_is_dropped() {
    let response = list_response(
        r#"[{ "server": { "name": "nothing/here", "description": "no way in" } }]"#,
        None,
    );

    assert!(response.into_summaries().is_empty());
}

#[test]
fn a_row_with_only_a_remote_is_kept() {
    let response = list_response(
        r#"[{"server": {"name": "remote/only", "remotes": [{ "url": "https://api.test/mcp" }]}}]"#,
        None,
    );

    let summaries = response.into_summaries();
    assert_eq!(summaries.len(), 1);
    assert!(summaries[0].is_deployed, "a hosted remote is deployed");
}

#[test]
fn a_deprecated_row_is_dropped() {
    let response = list_response(
        r#"[{
            "server": {
                "name": "old/server",
                "packages": [{ "registryType": "npm", "identifier": "old" }]
            },
            "_meta": {
                "io.modelcontextprotocol.registry/official": { "status": "deprecated" }
            }
        }]"#,
        None,
    );

    assert!(response.into_summaries().is_empty());
}

#[test]
fn a_row_with_no_metadata_is_not_treated_as_deprecated() {
    let response = list_response(&format!("[{}]", envelope("io.github.example/server")), None);
    assert_eq!(response.into_summaries().len(), 1);
}

#[test]
fn a_row_with_an_active_status_is_kept() {
    let response = list_response(
        r#"[{
            "server": {
                "name": "live/server",
                "packages": [{ "registryType": "npm", "identifier": "live" }]
            },
            "_meta": {
                "io.modelcontextprotocol.registry/official": { "status": "active" }
            }
        }]"#,
        None,
    );

    assert_eq!(response.into_summaries().len(), 1);
}

#[test]
fn a_repeated_name_appears_once() {
    let response = list_response(
        &format!("[{}, {}]", envelope("same/name"), envelope("same/name")),
        None,
    );

    assert_eq!(response.into_summaries().len(), 1);
}

#[test]
fn a_repeat_of_a_deprecated_row_is_listed_in_its_place() {
    let response = list_response(
        &format!(
            "[{}, {}, {}]",
            r#"{"server": {"name": "same/name", "packages": [{"identifier": "x"}]},
                "_meta": {"io.modelcontextprotocol.registry/official": {"status": "deprecated"}}}"#,
            envelope("other/name"),
            envelope("same/name")
        ),
        None,
    );
    let summaries = response.into_summaries();

    assert_eq!(summaries.len(), 2);
    assert_eq!(summaries[0].qualified_name, "other/name");
    assert_eq!(summaries[1].qualified_name, "same/name");
}

#[test]
fn a_declared_title_is_used_as_the_display_name() {
    let server = server(r#"{"name": "io.github.example/server-bar", "title": "Example Server"}"#);

    assert_eq!(server.display_name(), "Example Server");
}

#[test]
fn a_blank_title_falls_back_to_the_derived_name() {
    let server = server(r#"{"name": "io.github.example/server-bar", "title": "   "}"#);

    assert_eq!(server.display_name(), "server bar");
}

#[test]
fn a_name_is_derived_from_its_last_segment_with_separators_spaced() {
    for (name, expected) in [
        ("io.github.example/server-bar", "server bar"),
        ("io.github.example/server_bar", "server bar"),
        ("com.vendor.product", "product"),
        ("bare", "bare"),
    ] {
        let server = server(&format!("{{\"name\": \"{name}\"}}"));
        assert_eq!(server.display_name(), expected, "for {name}");
    }
}

#[test]
fn a_declared_website_becomes_the_trust_signal() {
    let server = server(r#"{"name": "com.vendor/server", "websiteUrl": "https://vendor.test"}"#);

    assert_eq!(server.into_summary().website_url.as_deref(), Some("https://vendor.test"));
}

#[test]
fn a_blank_website_is_not_a_trust_signal() {
    let server = server(r#"{"name": "com.vendor/server", "websiteUrl": "   "}"#);

    assert_eq!(server.into_summary().website_url, None);
}

#[test]
fn a_secret_header_declares_a_static_credential() {
    let server = server(
        r#"{
            "name": "com.vendor/server",
            "remotes": [{
                "url": "https://api.test/mcp",
                "headers": [{ "name": "X-Api-Key", "isSecret": true }]
            }]
        }"#,
    );

    assert_eq!(server.into_summary().auth_kind.as_deref(), Some("api_key"));
}

#[test]
fn an_authorization_header_declares_a_static_credential_even_unmarked() {
    let server = server(
        r#"{
            "name": "com.vendor/server",
            "remotes": [{
                "url": "https://api.test/mcp",
                "headers": [{ "name": "authorization" }]
            }]
        }"#,
    );

    assert_eq!(server.into_summary().auth_kind.as_deref(), Some("api_key"));
}

#[test]
fn an_authorization_header_is_known_in_any_case() {
    let server = server(
        r#"{
            "name": "com.vendor/server",
            "remotes": [
                { "url": "https://one.test/mcp", "headers": [{ "name": "X-Org" }] },
                { "url": "https://two.test/mcp", "headers": [{ "name": "AuthoriZation" }] }
            ]
        }"#,
    );

    assert_eq!(server.into_summary().auth_kind.as_deref(), Some("api_key"));
}

#[test]
fn a_secret_environment_variable_declares_a_static_credential() {
    let server = server(
        r#"{
            "name": "com.vendor/server",
            "packages": [{
                "registryType": "npm",
                "identifier": "server",
                "environmentVariables": [{ "name": "API_KEY", "isSecret": true }]
            }]
        }"#,
    );

    assert_eq!(server.into_summary().auth_kind.as_deref(), Some("api_key"));
}

#[test]
fn a_server_declaring_nothing_secret_has_no_credential_kind() {
    let server =
        server(r#"{"name": "com.vendor/open", "remotes": [{ "url": "https://api.test/mcp" }]}"#);

    assert_eq!(server.into_summary().auth_kind, None);
}

#[test]
fn a_row_is_never_badged_by_the_adapter() {
    let server = server(r#"{"name": "com.notion/mcp"}"#);
    let summary = server.into_summary();

    assert!(!summary.official);
    assert_eq!(summary.source, "mcp_official");
}

#[test]
fn a_remote_becomes_an_http_connection_with_its_endpoint() {
    let server =
        server(r#"{"name": "com.vendor/server", "remotes": [{ "url": "https://api.test/mcp" }]}"#);

    let detail = server.into_detail();
    assert_eq!(detail.connections.len(), 1);
    assert_eq!(detail.connections[0].kind, "http");
    assert_eq!(
        detail.connections[0].deployment_url.as_deref(),
        Some("https://api.test/mcp")
    );
}

#[test]
fn a_package_becomes_a_subprocess_connection_with_no_endpoint() {
    let server = server(
        r#"{
            "name": "com.vendor/server",
            "packages": [{ "registryType": "npm", "identifier": "some-server" }]
        }"#,
    );

    let detail = server.into_detail();
    assert_eq!(detail.connections.len(), 1);
    assert_eq!(detail.connections[0].kind, "stdio");
    assert_eq!(detail.connections[0].deployment_url, None);
}

#[test]
fn a_server_offering_both_gets_a_connection_for_each() {
    let server = server(
        r#"{
            "name": "com.vendor/server",
            "remotes": [{ "url": "https://api.test/mcp" }],
            "packages": [{ "registryType": "npm", "identifier": "some-server" }]
        }"#,
    );

    assert_eq!(server.into_detail().connections.len(), 2);
}

#[test]
fn declared_headers_become_an_input_schema() {
    let server = server(
        r#"{
            "name": "com.vendor/server",
            "remotes": [{
                "url": "https://api.test/mcp",
                "headers": [
                    { "name": "X-Api-Key", "description": "your key", "isSecret": true, "isRequired": true },
                    { "name": "X-Org", "description": "your organisation" }
                ]
            }]
        }"#,
    );

    let detail = server.into_detail();
    let schema = detail.connections[0].config_schema.as_ref().expect("a schema");

    assert_eq!(
        text_at(schema, &["properties", "X-Api-Key", "description"]),
        Some("your key")
    );
    let properties = schema.get("properties").unwrap();
    assert_eq!(
        properties.get("X-Api-Key").unwrap().get("x-secret"),
        Some(&Json::Bool(true))
    );
    assert_eq!(
        schema.get("required"),
        Some(&Json::Array(vec![Json::text("X-Api-Key")]))
    );
    // Not marked secret, so no masking marker.
    assert!(properties.get("X-Org").unwrap().get("x-secret").is_none());
    assert_eq!(text_at(schema, &["type"]), Some("object"));
    assert_eq!(text_at(schema, &["properties", "X-Org", "type"]), Some("string"));
}

#[test]
fn a_remote_declaring_no_headers_has_no_schema() {
    let server =
        server(r#"{"name": "com.vendor/server", "remotes": [{ "url": "https://api.test/mcp" }]}"#);

    assert_eq!(server.into_detail().connections[0].config_schema, None);
}

#[test]
fn an_unnamed_input_is_skipped() {
    let server = server(
        r#"{
            "name": "com.vendor/server",
            "remotes": [{
                "url": "https://api.test/mcp",
                "headers": [{ "name": "", "isRequired": true }]
            }]
        }"#,
    );

    assert_eq!(server.into_detail().connections[0].config_schema, None);
}

#[test]
fn declared_environment_variables_become_an_input_schema() {
    let server = server(
        r#"{
            "name": "com.vendor/server",
            "packages": [{
                "registryType": "npm",
                "identifier": "server",
                "environmentVariables": [
                    { "name": "API_KEY", "isSecret": true, "isRequired": true }
                ]
            }]
        }"#,
    );

    let detail = server.into_detail();
    let schema = detail.connections[0].config_schema.as_ref().expect("a schema");

    assert_eq!(
        schema.get("properties").unwrap().get("API_KEY").unwrap().get("x-secret"),
        Some(&Json::Bool(true))
    );
    assert_eq!(
        schema.get("required"),
        Some(&Json::Array(vec![Json::text("API_KEY")]))
    );
}

#[test]
fn a_registry_supplied_schema_is_used_when_no_variables_are_declared() {
    let server = server(
        r#"{
            "name": "com.vendor/server",
            "packages": [{
                "registryType": "npm",
                "identifier": "server",
                "configSchema": { "properties": { "region": {} } }
            }]
        }"#,
    );

    let detail = server.into_detail();
    let schema = detail.connections[0].config_schema.as_ref().expect("a schema");

    assert!(schema.get("properties").unwrap().get("region").is_some());
}

/// The launch example of a server's one package.
fn example_of(text: &str) -> Json {
    let detail = server(text).into_detail();
    detail.connections[0].example_config.clone().expect("an example")
}

#[test]
fn a_python_package_is_launched_with_uvx() {
    let example = example_of(
        r#"{
            "name": "com.vendor/server",
            "packages": [{ "registryType": "pypi", "identifier": "some-server" }]
        }"#,
    );

    assert_eq!(example.get("command"), Some(&Json::text("uvx")));
    assert_eq!(example.get("args"), Some(&json(r#"["some-server"]"#)));
}

#[test]
fn a_node_package_is_launched_with_npx_and_the_yes_flag() {
    let example = example_of(
        r#"{
            "name": "com.vendor/server",
            "packages": [{ "registryType": "npm", "identifier": "some-server" }]
        }"#,
    );

    assert_eq!(example.get("command"), Some(&Json::text("npx")));
    assert_eq!(example.get("args"), Some(&json(r#"["-y", "some-server"]"#)));
}

#[test]
fn a_node_package_with_its_own_arguments_does_not_get_the_yes_flag() {
    let example = example_of(
        r#"{
            "name": "com.vendor/server",
            "packages": [{
                "registryType": "npm",
                "identifier": "some-server",
                "runtimeArguments": [{ "value": "--stdio" }]
            }]
        }"#,
    );

    assert_eq!(example.get("args"), Some(&json(r#"["--stdio", "some-server"]"#)));
}

#[test]
fn a_declared_runtime_hint_wins_over_the_default_launcher() {
    let example = example_of(
        r#"{
            "name": "com.vendor/server",
            "packages": [{
                "registryType": "pypi",
                "identifier": "some-server",
                "runtimeHint": "pipx"
            }]
        }"#,
    );

    assert_eq!(example.get("command"), Some(&Json::text("pipx")));
}

#[test]
fn an_unrecognised_package_kind_is_launched_as_a_node_one() {
    let example = example_of(
        r#"{
            "name": "com.vendor/server",
            "packages": [{ "registryType": "brew", "identifier": "some-server" }]
        }"#,
    );

    assert_eq!(example.get("command"), Some(&Json::text("npx")));
}

#[test]
fn a_response_with_more_results_reports_one_page_beyond_the_current_one() {
    assert_eq!(page_bound(1, true), 2);
    assert_eq!(page_bound(7, true), 8);
}

#[test]
fn a_response_ending_the_results_reports_the_current_page() {
    assert_eq!(page_bound(1, false), 1);
    assert_eq!(page_bound(7, false), 7);
}

#[test]
fn the_page_bound_does_not_overflow() {
    assert_eq!(page_bound(u32::MAX, true), u32::MAX);
}

#[test]
fn a_cursor_is_read_from_the_metadata() {
    let response = list_response("[]", Some("token-1"));
    assert_eq!(response.next_cursor(), Some("token-1"));
}

#[test]
fn an_empty_cursor_counts_as_no_cursor() {
    let response = list_response("[]", Some(""));
    assert_eq!(response.next_cursor(), None);
}

#[test]
fn a_response_with_no_metadata_has_no_cursor() {
    assert_eq!(list_response("[]", None).next_cursor(), None);
}

#[test]
fn a_cache_key_separates_query_page_and_size() {
    assert_eq!(search_cache_key("weather", 2, 50), "mcp_official:search:weather:2:50");
    assert_ne!(search_cache_key("a", 1, 20), search_cache_key("a", 2, 20));
    assert_ne!(search_cache_key("a", 1, 20), search_cache_key("a", 1, 50));
    assert_ne!(search_cache_key("a", 1, 20), search_cache_key("b", 1, 20));
    // A query that ends like a page does not pass for one.
    assert_ne!(search_cache_key("a:1", 2, 20), search_cache_key("a", 12, 20));
    assert_ne!(search_cache_key("a:1", 2, 20), search_cache_key("a", 1, 220));
}

#[test]
fn a_cursor_is_remembered_for_its_page_alone() {
    let mut cursors = CursorCache::new();
    assert_eq!(cursors.cursor_for("a", 2, 20), None);
    cursors.note("a", 2, 20, "token-2".to_string());
    cursors.note("a", 3, 20, "token-3".to_string());
    assert_eq!(cursors.cursor_for("a", 2, 20).map(String::as_str), Some("token-2"));
    assert_eq!(cursors.cursor_for("a", 3, 20).map(String::as_str), Some("token-3"));
    assert_eq!(cursors.cursor_for("a", 2, 50), None);
    assert_eq!(cursors.cursor_for("b", 2, 20), None);
}

#[test]
fn an_install_asks_for_what_a_row_declares_and_launches_it_as_it_says() {
    let detail = server(
        r#"{
            "name": "com.vendor/server",
            "packages": [{
                "registryType": "pypi",
                "identifier": "some-server",
                "runtimeArguments": [{ "value": "--quiet" }, { "name": "unvalued" }],
                "environmentVariables": [
                    { "name": "B_KEY" }, { "name": " " }, { "name": "A_KEY", "isRequired": true }
                ]
            }]
        }"#,
    )
    .into_detail();

    assert_eq!(collect_required_env_keys(&detail), ["B_KEY", "A_KEY"]);
    let (kind, command, args) = resolve_command(&detail.qualified_name, Some(&detail.connections[0]));
    assert_eq!(kind, CommandKind::Python);
    assert_eq!(command, "uvx");
    assert_eq!(args, ["--quiet", "some-server"]);
}

fn request(page: u32) -> SearchRequest {
    SearchRequest {
        source: RegistrySource::McpOfficial,
        query: "weather".to_string(),
        page,
        page_size: 20,
    }
}

#[test]
fn a_search_comes_to_the_rows_of_its_response_and_a_bound_on_its_pages() {
    let rows = format!("[{}, {}]", envelope("a/one"), envelope("a/one"));

    let (found, pages) = official_page(&request(3), list_response(&rows, Some("token")));
    assert_eq!(found.len(), 1);
    assert_eq!(found[0].qualified_name, "a/one");
    assert_eq!(pages, 4);
    let (_, pages) = official_page(&request(3), list_response(&rows, Some("")));
    assert_eq!(pages, 3);
    let (_, pages) = official_page(&request(u32::MAX), list_response("[]", Some("token")));
    assert_eq!(pages, u32::MAX);

    let document = json(&format!(
        "{{\"servers\": {rows}, \"metadata\": {{\"nextCursor\": \"token\"}}}}"
    ));
    let (found, pages) = read_official_page(&request(1), &document).unwrap();
    assert_eq!((found.len(), pages), (1, 2));
    assert!(read_official_page(&request(1), &json(r#"{"servers": [{}]}"#)).is_err());
}
