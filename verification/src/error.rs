//! The errors of this library.
//!
//! Every failure mode a caller might react to differently is a variant of its
//! own: callers match on variants, and message text is not a stable API.
//!
//! [`Error::Unauthorized`] is the one a caller acts on rather than reports. A
//! server that answers 401 is working and wants credentials, so it carries
//! what decides between offering a sign-in and offering a token field.
//!
//! Any variant with an endpoint holds what [`crate::endpoint::redact_endpoint`]
//! leaves of it, never the raw URL.
use vstd::prelude::*;

use crate::endpoint::redact_endpoint;
use crate::outside::{json_error_text, sql_error_text, url_free_text};
use crate::text::{decimal, same_text, text2, text3, text4, text5};

verus! {

/// What a server that answers 401 asks for.
#[derive(Debug, Clone, PartialEq, Eq)]
pub struct McpAuthChallenge {
    /// The authentication scheme, such as `Bearer`.
    pub scheme: String,
    /// The protection space the challenge names.
    pub realm: Option<String>,
    /// Where the protected resource's metadata is published.
    pub resource_metadata: Option<String>,
}

/// Errors returned by this library.
#[derive(Debug, Clone, PartialEq, Eq)]
#[non_exhaustive]
pub enum Error {
    /// A remote server answered HTTP 401: it is reachable and wants
    /// credentials.
    Unauthorized {
        /// The redacted endpoint the 401 came from.
        endpoint: String,
        /// The `resource_metadata` URL the challenge advertised, when it did.
        resource_metadata: Option<String>,
    },
    /// A remote server answered with a status other than success.
    Http {
        /// The redacted endpoint.
        endpoint: String,
        /// The status code.
        status: u16,
        /// The response body, for diagnosis.
        body: String,
    },
    /// The transport itself failed: connection refused, timeout, TLS, DNS.
    Transport {
        /// The redacted endpoint.
        endpoint: String,
        /// What the HTTP client reported, its URL stripped.
        source: String,
    },
    /// A server negotiated a protocol version this client does not speak.
    UnsupportedProtocolVersion {
        /// What the server asked for.
        version: String,
    },
    /// A response was not the shape the protocol requires.
    MalformedResponse {
        /// What was wrong with it.
        detail: String,
    },
    /// A server returned a JSON-RPC error object.
    Rpc {
        /// The `error` member, rendered.
        message: String,
    },
    /// A 401 arrived without a challenge discovery could work from.
    MissingAuthChallenge,
    /// Authorization discovery ran but could not complete.
    AuthDiscovery {
        /// What went wrong.
        detail: String,
        /// The challenge discovery started from.
        challenge: Box<McpAuthChallenge>,
    },
    /// A tool was blocked before any request was made.
    ToolNotAllowed {
        /// The server the call was aimed at.
        server: String,
        /// The tool that was blocked.
        tool: String,
    },
    /// A named server is not configured or not installed.
    UnknownServer {
        /// The name that did not resolve.
        server: String,
    },
    /// An install is turned off, which is a setting its user chose.
    ServerDisabled {
        /// The install that is off.
        server: String,
    },
    /// An install has no live session.
    NotConnected {
        /// The install that is not connected.
        server: String,
    },
    /// The program a server is launched with is not on this machine.
    MissingRuntime {
        /// The program that was looked for.
        command: String,
    },
    /// The HTTP client could not be constructed from the supplied settings.
    ClientBuild {
        /// What the HTTP client reported, its URL stripped.
        source: String,
    },
    /// A payload could not be encoded or decoded.
    Serialization {
        /// What the encoder reported.
        source: String,
    },
    /// The installed-server store could not do what was asked of it.
    Store {
        /// What was being attempted, in the present participle.
        action: String,
        /// What the database reported.
        source: String,
    },
    /// The store's directory or file could not be reached.
    StoreIo {
        /// The path that could not be reached.
        path: String,
        /// What the filesystem reported.
        source: String,
    },
}

/// What to install so that `command` is there.
pub open spec fn runtime_hint(command: Seq<char>) -> Seq<char> {
    if command == "npx"@ || command == "node"@ || command == "npm"@ {
        "; install Node.js to run this server"@
    } else if command == "uvx"@ || command == "uv"@ {
        "; install uv to run this server"@
    } else {
        "; install it or correct the command"@
    }
}

/// An error in words.
pub open spec fn error_text(e: Error) -> Seq<char> {
    match e {
        Error::Unauthorized { endpoint, .. } => "mcp unauthorized for `"@ + endpoint@ + "`"@,
        Error::Http { endpoint, status, .. } => "mcp http "@ + crate::text::decimal_text(
            status as nat,
        ) + " from `"@ + endpoint@ + "`"@,
        Error::Transport { endpoint, source } => "mcp transport failure for `"@ + endpoint@
            + "`: "@ + source@,
        Error::UnsupportedProtocolVersion { version } =>
            "unsupported mcp protocol version negotiated by server: "@ + version@,
        Error::MalformedResponse { detail } => "malformed mcp response: "@ + detail@,
        Error::Rpc { message } => "mcp error response: "@ + message@,
        Error::MissingAuthChallenge =>
            "401 response missing a parseable www-authenticate challenge"@,
        Error::AuthDiscovery { detail, .. } => "mcp authorization discovery failed: "@ + detail@,
        Error::ToolNotAllowed { server, tool } => "tool `"@ + tool@
            + "` is not permitted on server `"@ + server@ + "`"@,
        Error::UnknownServer { server } => "unknown mcp server `"@ + server@ + "`"@,
        Error::ServerDisabled { server } => "mcp server `"@ + server@
            + "` is disabled; enable it before connecting"@,
        Error::NotConnected { server } => "mcp server `"@ + server@ + "` is not connected"@,
        Error::MissingRuntime { command } => "command `"@ + command@ + "` was not found"@
            + runtime_hint(command@),
        Error::ClientBuild { source } => "could not build an http client: "@ + source@,
        Error::Serialization { source } => "mcp payload serialization failed: "@ + source@,
        Error::Store { action, source } => "mcp store failure while "@ + action@ + ": "@ + source@,
        Error::StoreIo { path, source } => "mcp store is unreachable at `"@ + path@ + "`: "@
            + source@,
    }
}

impl Error {
    /// A [`Self::Transport`] for `endpoint`, redacting it.
    ///
    /// The URL is stripped from the underlying error before it is rendered.
    /// That error renders its request URL in full, query string included, so
    /// keeping it would print the credential that is redacted beside it.
    pub fn transport(endpoint: &str, source: reqwest::Error) -> (r: Error)
        ensures
            r matches Error::Transport { endpoint: shown, source: said } && shown@
                == crate::endpoint::redacted(endpoint@) && said@
                == crate::outside::http_failure_text(source),
    {
        Error::Transport { endpoint: redact_endpoint(endpoint), source: url_free_text(source) }
    }

    /// A [`Self::ClientBuild`], its cause's URL stripped: a proxy URL can carry
    /// credentials too.
    pub fn client_build(source: reqwest::Error) -> (r: Error)
        ensures
            r matches Error::ClientBuild { source: said } && said@
                == crate::outside::http_failure_text(source),
    {
        Error::ClientBuild { source: url_free_text(source) }
    }

    /// A [`Self::Store`] describing what was being attempted.
    pub fn store(action: String, source: rusqlite::Error) -> (r: Error)
        ensures
            r matches Error::Store { action: doing, source: said } && doing == action && said@
                == crate::outside::sql_failure_text(source),
    {
        Error::Store { action, source: sql_error_text(source) }
    }

    /// A [`Self::MalformedResponse`] saying what was wrong.
    pub fn malformed(detail: String) -> (r: Error)
        ensures
            r == (Error::MalformedResponse { detail }),
    {
        Error::MalformedResponse { detail }
    }

    /// Whether this error means that the server wants credentials.
    #[must_use]
    pub fn is_unauthorized(&self) -> (r: bool)
        ensures
            r == (*self is Unauthorized),
    {
        match self {
            Error::Unauthorized { .. } => true,
            _ => false,
        }
    }

    /// Whether the 401 advertised OAuth; `false` for every error that is not
    /// a 401.
    #[must_use]
    pub fn advertises_oauth(&self) -> (r: bool)
        ensures
            r == (*self matches Error::Unauthorized { resource_metadata: Some(_), .. }),
    {
        match self {
            Error::Unauthorized { resource_metadata, .. } => resource_metadata.is_some(),
            _ => false,
        }
    }

    /// The error in words.
    #[must_use]
    pub fn message(&self) -> (text: String)
        ensures
            text@ == error_text(*self),
    {
        match self {
            Error::Unauthorized { endpoint, .. } => text3(
                "mcp unauthorized for `",
                endpoint.as_str(),
                "`",
            ),
            Error::Http { endpoint, status, .. } => {
                let code = decimal(*status as u64);
                text5("mcp http ", code.as_str(), " from `", endpoint.as_str(), "`")
            },
            Error::Transport { endpoint, source } => text4(
                "mcp transport failure for `",
                endpoint.as_str(),
                "`: ",
                source.as_str(),
            ),
            Error::UnsupportedProtocolVersion { version } => text2(
                "unsupported mcp protocol version negotiated by server: ",
                version.as_str(),
            ),
            Error::MalformedResponse { detail } => text2(
                "malformed mcp response: ",
                detail.as_str(),
            ),
            Error::Rpc { message } => text2("mcp error response: ", message.as_str()),
            Error::MissingAuthChallenge => {
                "401 response missing a parseable www-authenticate challenge".to_owned()
            },
            Error::AuthDiscovery { detail, .. } => text2(
                "mcp authorization discovery failed: ",
                detail.as_str(),
            ),
            Error::ToolNotAllowed { server, tool } => text5(
                "tool `",
                tool.as_str(),
                "` is not permitted on server `",
                server.as_str(),
                "`",
            ),
            Error::UnknownServer { server } => text3("unknown mcp server `", server.as_str(), "`"),
            Error::ServerDisabled { server } => text3(
                "mcp server `",
                server.as_str(),
                "` is disabled; enable it before connecting",
            ),
            Error::NotConnected { server } => text3(
                "mcp server `",
                server.as_str(),
                "` is not connected",
            ),
            Error::MissingRuntime { command } => text4(
                "command `",
                command.as_str(),
                "` was not found",
                hint_for(command.as_str()),
            ),
            Error::ClientBuild { source } => text2(
                "could not build an http client: ",
                source.as_str(),
            ),
            Error::Serialization { source } => text2(
                "mcp payload serialization failed: ",
                source.as_str(),
            ),
            Error::Store { action, source } => text4(
                "mcp store failure while ",
                action.as_str(),
                ": ",
                source.as_str(),
            ),
            Error::StoreIo { path, source } => text4(
                "mcp store is unreachable at `",
                path.as_str(),
                "`: ",
                source.as_str(),
            ),
        }
    }
}

/// What to install so that `command` is there.
fn hint_for(command: &str) -> (r: &'static str)
    ensures
        r@ == runtime_hint(command@),
{
    if same_text(command, "npx") || same_text(command, "node") || same_text(command, "npm") {
        "; install Node.js to run this server"
    } else if same_text(command, "uvx") || same_text(command, "uv") {
        "; install uv to run this server"
    } else {
        "; install it or correct the command"
    }
}

// What the conversion comes to is stated on `from` itself: the words are fixed
// by the failure, the string that holds them is not.
impl vstd::std_specs::convert::FromSpecImpl<serde_json::Error> for Error {
    open spec fn obeys_from_spec() -> bool {
        false
    }

    open spec fn from_spec(source: serde_json::Error) -> Error {
        arbitrary()
    }
}

impl From<serde_json::Error> for Error {
    fn from(source: serde_json::Error) -> (r: Error)
        ensures
            r matches Error::Serialization { source: said } && said@
                == crate::outside::json_failure_text(source),
    {
        Error::Serialization { source: json_error_text(source) }
    }
}

/// What a missing program is answered names the program, and what to install:
/// Node.js for each of its launchers, uv for each of its own.
pub proof fn a_missing_program_is_named(command: String)
    ensures
        error_text(Error::MissingRuntime { command }) == "command `"@ + command@
            + "` was not found"@ + runtime_hint(command@),
        command@ == "npx"@ || command@ == "node"@ || command@ == "npm"@ ==> runtime_hint(command@)
            == "; install Node.js to run this server"@,
        command@ == "uvx"@ || command@ == "uv"@ ==> runtime_hint(command@)
            == "; install uv to run this server"@,
{
    reveal_strlit("npx");
    reveal_strlit("node");
    reveal_strlit("npm");
    reveal_strlit("uvx");
    reveal_strlit("uv");
    assert("npx"@[0] == 'n' && "node"@[0] == 'n' && "npm"@[0] == 'n');
    assert("uvx"@[0] == 'u' && "uv"@[0] == 'u');
}

/// An error in words says each of its causes in full and shows nothing of a
/// response's body.
pub proof fn an_error_says_its_cause(
    endpoint: String,
    status: u16,
    body: String,
    other: String,
    source: String,
)
    ensures
        error_text(Error::Http { endpoint, status, body }) == error_text(
            Error::Http { endpoint, status, body: other },
        ),
        error_text(Error::Transport { endpoint, source }) == "mcp transport failure for `"@
            + endpoint@ + "`: "@ + source@,
        error_text(Error::ClientBuild { source }) == "could not build an http client: "@ + source@,
        error_text(Error::Serialization { source }) == "mcp payload serialization failed: "@
            + source@,
{
}

} // verus!
