//! The values that cross the library's boundary.
use vstd::prelude::*;

use crate::json::Json;

verus! {

/// Which ecosystem a launched server belongs to.
#[derive(Debug, Clone, Copy, PartialEq, Eq, Structural)]
pub enum CommandKind {
    /// Launched through Node.
    Node,
    /// Launched through Python.
    Python,
}

/// How an install is reached.
#[derive(Debug, Clone, PartialEq, Eq)]
pub enum Transport {
    /// A subprocess that speaks over its standard streams.
    Stdio,
    /// A hosted endpoint.
    HttpRemote {
        /// Where it is.
        url: String,
    },
}

/// One installed server, as the store holds it.
#[derive(Debug, Clone, PartialEq)]
pub struct InstalledServer {
    /// The install's identifier.
    pub server_id: String,
    /// The registry's qualified name, such as `@scope/server`.
    pub qualified_name: String,
    /// The registry's display name.
    pub display_name: String,
    /// What the server says it does.
    pub description: Option<String>,
    /// Where its icon is.
    pub icon_url: Option<String>,
    /// The ecosystem its command belongs to.
    pub command_kind: CommandKind,
    /// The program that launches it; empty for a hosted endpoint.
    pub command: String,
    /// The program's arguments.
    pub args: Vec<String>,
    /// The names of its stored credentials.
    pub env_keys: Vec<String>,
    /// Its configuration, when one was given.
    pub config: Option<serde_json::Value>,
    /// When it was installed, in milliseconds of the Unix epoch.
    pub installed_at: i64,
    /// When it last connected, in milliseconds of the Unix epoch.
    pub last_connected_at: Option<i64>,
    /// How it is reached.
    pub transport: Transport,
    /// Whether its user has it turned on.
    pub enabled: bool,
}

/// A tool that a server advertises.
#[derive(Debug, Clone, PartialEq)]
pub struct McpTool {
    /// The tool's name.
    pub name: String,
    /// What it does.
    pub description: Option<String>,
    /// What it takes.
    pub input_schema: serde_json::Value,
}

/// What installing came to.
#[derive(Debug, Clone, PartialEq)]
pub struct InstallOutcome {
    /// The record as it now stands.
    pub server: InstalledServer,
    /// Whether the record was there before.
    pub already_installed: bool,
}

/// What connecting came to.
#[derive(Debug, Clone, PartialEq)]
pub struct ConnectOutcome {
    /// The install that was connected.
    pub server_id: String,
    /// The tools it advertises.
    pub tools: Vec<McpTool>,
}

/// Where an install stands after its credentials were replaced.
#[derive(Debug, Clone, Copy, PartialEq, Eq, Structural)]
pub enum UpdateEnvStatus {
    /// It reconnected.
    Connected,
    /// It is turned off, and was left off.
    Disabled,
    /// It still wants credentials.
    Unauthorized,
    /// It could not be reconnected.
    Disconnected,
}

/// What replacing an install's credentials came to. The credentials are
/// stored whatever the status says.
#[derive(Debug, Clone, PartialEq)]
pub struct UpdateEnvOutcome {
    /// The install.
    pub server_id: String,
    /// Where it now stands.
    pub status: UpdateEnvStatus,
    /// The names of every credential now stored.
    pub env_keys: Vec<String>,
    /// The tools it advertises, when it reconnected.
    pub tools: Vec<McpTool>,
    /// What a server that answered 401 asks for.
    pub auth_hint: Option<String>,
    /// What failed, in words. A 401 has none: only its hint crosses.
    pub error: Option<String>,
}

/// What a tool call came to.
#[derive(Debug, Clone, PartialEq)]
pub struct ToolCallOutcome {
    /// Whether the tool reported failure.
    pub is_error: bool,
    /// What the server sent back.
    pub result: serde_json::Value,
}

/// One row of a catalog.
#[derive(Debug, Clone, PartialEq)]
pub struct RegistryServerSummary {
    /// The name the server is installed by.
    pub qualified_name: String,
    /// The name to show.
    pub display_name: String,
    /// What the server does.
    pub description: Option<String>,
    /// Where its icon is.
    pub icon_url: Option<String>,
    /// The catalog the row comes from.
    pub source: String,
    /// Whether the server offers a hosted endpoint.
    pub is_deployed: bool,
    /// Whether the row carries an official badge.
    pub official: bool,
    /// The vendor's site, when one is declared.
    pub website_url: Option<String>,
    /// Which kind of credential the server declares.
    pub auth_kind: Option<String>,
}

/// One page of a catalog search.
#[derive(Debug, Clone, PartialEq)]
pub struct RegistrySearchPage {
    /// The rows.
    pub servers: Vec<RegistryServerSummary>,
    /// Which page this is, counted from one.
    pub page: u32,
    /// A best-effort upper bound on the number of pages.
    pub total_pages: u32,
}

/// One way to reach a server that a catalog lists.
#[derive(Debug, Clone, PartialEq)]
pub struct RegistryConnection {
    /// `stdio`, `http` and the like, in the catalog's own vocabulary.
    pub kind: String,
    /// Whether the catalog has published it.
    pub published: bool,
    /// The hosted endpoint.
    pub deployment_url: Option<String>,
    /// The inputs it takes, as a JSON schema.
    pub config_schema: Option<Json>,
    /// A worked example of how it is launched.
    pub example_config: Option<Json>,
}

/// One server of a catalog, in full.
#[derive(Debug, Clone, PartialEq)]
pub struct RegistryServerDetail {
    /// The name the server is installed by.
    pub qualified_name: String,
    /// The name to show.
    pub display_name: String,
    /// What the server does.
    pub description: Option<String>,
    /// Where its icon is.
    pub icon_url: Option<String>,
    /// The ways to reach it.
    pub connections: Vec<RegistryConnection>,
}

/// Which registry credentials are set, without their values.
#[derive(Debug, Clone, PartialEq, Eq)]
pub struct RegistrySettings {
    /// Whether a Smithery key is in effect.
    pub smithery_api_key_set: bool,
    /// Whether a token for the official registry is configured.
    pub mcp_official_token_set: bool,
    /// The official registry's address, where it was overridden.
    pub mcp_official_base: Option<String>,
}

/// The credentials the catalogs take.
#[derive(Debug, Clone, PartialEq, Eq)]
pub struct McpRegistryAuthConfig {
    /// The Smithery key.
    pub smithery_api_key: Option<String>,
    /// The official registry's token.
    pub mcp_official_token: Option<String>,
    /// The official registry's address, where it is not the usual one.
    pub mcp_official_base: Option<String>,
}

impl Default for McpRegistryAuthConfig {
    fn default() -> (r: McpRegistryAuthConfig)
        ensures
            r.smithery_api_key is None,
            r.mcp_official_token is None,
            r.mcp_official_base is None,
    {
        McpRegistryAuthConfig {
            smithery_api_key: None,
            mcp_official_token: None,
            mcp_official_base: None,
        }
    }
}

/// What a client says of itself to a server.
#[derive(Debug, Clone, PartialEq, Eq)]
pub struct McpClientIdentityConfig {
    /// The client's name.
    pub name: String,
    /// The client's version.
    pub version: String,
}

impl Default for McpClientIdentityConfig {
    fn default() -> (r: McpClientIdentityConfig)
        ensures
            r.name@ == "tinymcp"@,
            r.version@ == "0.1.0"@,
    {
        McpClientIdentityConfig { name: "tinymcp".to_owned(), version: "0.1.0".to_owned() }
    }
}

/// The proxies a client goes through.
#[derive(Debug, Clone, PartialEq, Eq, Default)]
pub struct McpProxyConfig {
    /// The proxy for plain HTTP.
    pub http_proxy: Option<String>,
    /// The proxy for HTTPS.
    pub https_proxy: Option<String>,
}

} // verus!
