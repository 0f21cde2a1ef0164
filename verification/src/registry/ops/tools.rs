//! The tools of connected installs, and signing in to them.
use vstd::prelude::*;

use super::naming::require_non_empty;
use crate::bus::{McpTool, ToolCallOutcome};
use crate::error::Error;

verus! {

/// The tools of a connected install, wanted from its session.
#[derive(Debug)]
pub struct ToolsRequest {
    /// The install.
    pub server_id: String,
}

/// Begins listing the tools of an install.
pub fn begin_list_tools(server_id: &str) -> (r: Result<ToolsRequest, Error>)
    ensures
        if crate::text::blank(server_id@) {
            r matches Err(e) && super::naming::blank_field(e, "server_id"@)
        } else {
            r matches Ok(request) && request.server_id@ == crate::text::trimmed(server_id@)
        },
{
    match require_non_empty(server_id, "server_id") {
        Err(e) => Err(e),
        Ok(id) => Ok(ToolsRequest { server_id: id.to_owned() }),
    }
}

/// What listing tools comes to, given what the session has.
pub open spec fn tools_answer(s: ToolsRequest, tools: Option<Vec<McpTool>>) -> Result<
    Vec<McpTool>,
    Error,
> {
    match tools {
        Some(tools) => Ok(tools),
        None => Err(Error::NotConnected { server: s.server_id }),
    }
}

impl ToolsRequest {
    /// Answers with the tools, or with nothing where the install has no live
    /// session.
    pub fn listed(self, tools: Option<Vec<McpTool>>) -> (r: Result<Vec<McpTool>, Error>)
        ensures
            r == tools_answer(self, tools),
    {
        match tools {
            Some(tools) => Ok(tools),
            None => Err(Error::NotConnected { server: self.server_id }),
        }
    }
}

/// A call of a tool, wanted from an install's session.
#[derive(Debug)]
pub struct ToolCallRequest {
    /// The install.
    pub server_id: String,
    /// The tool.
    pub tool_name: String,
    /// What to call it with.
    pub arguments: serde_json::Value,
}

/// What a server sent back for a call.
#[derive(Debug, Clone, PartialEq)]
pub struct ToolCallResult {
    /// Whether the tool reported failure.
    pub is_error: bool,
    /// The result as it was sent.
    pub raw_result: serde_json::Value,
}

/// Begins calling a tool of an install. Either name may not be blank; the
/// install's is looked at first.
pub fn begin_tool_call(
    server_id: &str,
    tool_name: &str,
    arguments: serde_json::Value,
) -> (r: Result<ToolCallRequest, Error>)
    ensures
        if crate::text::blank(server_id@) {
            r matches Err(e) && super::naming::blank_field(e, "server_id"@)
        } else if crate::text::blank(tool_name@) {
            r matches Err(e) && super::naming::blank_field(e, "tool_name"@)
        } else {
            r matches Ok(request) && request.server_id@ == crate::text::trimmed(server_id@)
                && request.tool_name@ == crate::text::trimmed(tool_name@) && request.arguments
                == arguments
        },
{
    let id = match require_non_empty(server_id, "server_id") {
        Err(e) => {
            return Err(e);
        },
        Ok(id) => id,
    };
    match require_non_empty(tool_name, "tool_name") {
        Err(e) => Err(e),
        Ok(tool) => Ok(
            ToolCallRequest { server_id: id.to_owned(), tool_name: tool.to_owned(), arguments },
        ),
    }
}

/// What calling a tool comes to, given what the session sent back.
pub open spec fn call_answer(
    s: ToolCallRequest,
    reply: Option<Result<ToolCallResult, Error>>,
) -> Result<ToolCallOutcome, Error> {
    match reply {
        None => Err(Error::NotConnected { server: s.server_id }),
        Some(Err(e)) => Err(e),
        Some(Ok(result)) => Ok(
            ToolCallOutcome { is_error: result.is_error, result: result.raw_result },
        ),
    }
}

/// A call is reported as it was: what the tool sent back, whatever it is, with
/// the tool's own word on whether it failed; the transport's failure itself; and
/// that the install is not connected exactly where it has no session.
pub proof fn a_call_is_reported_as_it_was(
    s: ToolCallRequest,
    reply: Option<Result<ToolCallResult, Error>>,
    listing: ToolsRequest,
    tools: Option<Vec<McpTool>>,
)
    ensures
        reply matches Some(Ok(sent)) ==> (call_answer(s, reply) matches Ok(outcome)
            && outcome.is_error == sent.is_error && outcome.result == sent.raw_result),
        reply matches Some(Err(e)) ==> call_answer(s, reply) == Err::<ToolCallOutcome, Error>(e),
        reply is None ==> (call_answer(s, reply) matches Err(Error::NotConnected { server })
            && server == s.server_id),
        tools matches Some(had) ==> tools_answer(listing, tools) == Ok::<Vec<McpTool>, Error>(had),
        tools is None ==> (tools_answer(listing, tools) matches Err(Error::NotConnected { server })
            && server == listing.server_id),
{
}

impl ToolCallRequest {
    /// Answers with what the server sent back, or with nothing where the
    /// install has no live session. A tool that reports failure is a
    /// successful call with the flag set.
    pub fn answered(self, reply: Option<Result<ToolCallResult, Error>>) -> (r: Result<
        ToolCallOutcome,
        Error,
    >)
        ensures
            r == call_answer(self, reply),
    {
        match reply {
            None => Err(Error::NotConnected { server: self.server_id }),
            Some(Err(e)) => Err(e),
            Some(Ok(result)) => Ok(
                ToolCallOutcome { is_error: result.is_error, result: result.raw_result },
            ),
        }
    }
}

/// A sign-in to begin.
#[derive(Debug)]
pub struct SignInRequest {
    /// The install.
    pub server_id: String,
    /// The loopback address the host is listening on.
    pub redirect_uri: String,
}

/// Begins a browser sign-in: a blank identifier is refused.
pub fn begin_oauth(server_id: &str, redirect_uri: &str) -> (r: Result<SignInRequest, Error>)
    ensures
        if crate::text::blank(server_id@) {
            r matches Err(e) && super::naming::blank_field(e, "server_id"@)
        } else {
            r matches Ok(request) && request.server_id@ == crate::text::trimmed(server_id@)
                && request.redirect_uri@ == redirect_uri@
        },
{
    match require_non_empty(server_id, "server_id") {
        Err(e) => Err(e),
        Ok(id) => Ok(
            SignInRequest { server_id: id.to_owned(), redirect_uri: redirect_uri.to_owned() },
        ),
    }
}

} // verus!
