//! What a server wants before it will talk.
use vstd::prelude::*;

use crate::bus::{InstalledServer, Transport};
use crate::error::Error;
use crate::registry::ops::host::HostModel;
use crate::registry::ops::naming::require_non_empty;

verus! {

/// What kind of credential a server wants.
#[derive(Debug, Clone, Copy, PartialEq, Eq, Structural)]
pub enum AuthKind {
    /// None: the server is open.
    Open,
    /// A token that its user pastes.
    Token,
    /// A browser sign-in.
    OAuth,
}

/// What a server wants, and where it is to be had.
#[derive(Debug, Clone, PartialEq, Eq)]
pub struct AuthDetection {
    /// The kind of credential.
    pub kind: AuthKind,
    /// Where a browser sign-in begins.
    pub authorization_endpoint: Option<String>,
}

/// What probing a hosted server came to.
#[derive(Debug, Clone, PartialEq, Eq)]
pub enum AuthProbe {
    /// It talked without asking for anything.
    Open,
    /// It asked for credentials. An authorization server that stands behind
    /// the challenge is named by where a sign-in begins.
    Challenged {
        /// Where a sign-in begins, where there is an authorization server.
        authorization_endpoint: Option<String>,
    },
    /// It could not be probed.
    Unreachable,
}

/// What detection needs to know next.
#[derive(Debug)]
pub enum DetectStep {
    /// The install's record; answer with [`DetectRead::read`].
    ReadInstall(DetectRead),
    /// A probe of a hosted endpoint; answer with [`ProbeEndpoint::probed`].
    Probe(ProbeEndpoint),
    /// Nothing: this is what the server wants.
    Done(Result<AuthDetection, Error>),
}

/// See [`DetectStep::ReadInstall`].
#[derive(Debug)]
pub struct DetectRead {
    /// The install.
    pub server_id: String,
}

/// See [`DetectStep::Probe`].
#[derive(Debug)]
pub struct ProbeEndpoint {
    /// The endpoint.
    pub url: String,
}

/// What a probe says the server wants. A challenge with no authorization
/// server behind it is a plain bearer gate; of a server that could not be
/// probed it is better to let its user paste something and find out.
pub open spec fn wants(probe: AuthProbe) -> AuthDetection {
    match probe {
        AuthProbe::Open => AuthDetection { kind: AuthKind::Open, authorization_endpoint: None },
        AuthProbe::Challenged { authorization_endpoint: Some(endpoint) } => AuthDetection {
            kind: AuthKind::OAuth,
            authorization_endpoint: Some(endpoint),
        },
        AuthProbe::Challenged { authorization_endpoint: None } => AuthDetection {
            kind: AuthKind::Token,
            authorization_endpoint: None,
        },
        AuthProbe::Unreachable => AuthDetection {
            kind: AuthKind::Token,
            authorization_endpoint: None,
        },
    }
}

/// How detection begins: a blank identifier is refused.
pub open spec fn begins(server_id: Seq<char>, r: DetectStep) -> bool {
    if crate::text::blank(server_id) {
        r matches DetectStep::Done(Err(e)) && crate::registry::ops::naming::blank_field(
            e,
            "server_id"@,
        )
    } else {
        r matches DetectStep::ReadInstall(next) && next.server_id@ == crate::text::trimmed(
            server_id,
        )
    }
}

/// What follows from the install's record. A record that could not be read is
/// an error: reporting that the server needs nothing would show its user a
/// state nobody checked.
pub open spec fn after_read(reply: Result<InstalledServer, Error>, r: DetectStep) -> bool {
    match reply {
        Err(e) => r == DetectStep::Done(Err(e)),
        Ok(server) => match server.transport {
            Transport::Stdio => r == DetectStep::Done(Ok(wants(AuthProbe::Open))),
            Transport::HttpRemote { url } => r == DetectStep::Probe(ProbeEndpoint { url }),
        },
    }
}

/// Begins classifying what a server wants.
pub fn begin_detect(server_id: &str) -> (r: DetectStep)
    ensures
        begins(server_id@, r),
{
    match require_non_empty(server_id, "server_id") {
        Err(e) => DetectStep::Done(Err(e)),
        Ok(id) => DetectStep::ReadInstall(DetectRead { server_id: id.to_owned() }),
    }
}

impl DetectRead {
    /// Answers with the install's record.
    pub fn read(self, reply: Result<InstalledServer, Error>) -> (r: DetectStep)
        ensures
            after_read(reply, r),
    {
        match reply {
            Err(e) => DetectStep::Done(Err(e)),
            Ok(server) => match server.transport {
                Transport::Stdio => DetectStep::Done(
                    Ok(AuthDetection { kind: AuthKind::Open, authorization_endpoint: None }),
                ),
                Transport::HttpRemote { url } => DetectStep::Probe(ProbeEndpoint { url }),
            },
        }
    }
}

impl ProbeEndpoint {
    /// Answers with what the probe came to.
    pub fn probed(self, probe: AuthProbe) -> (r: DetectStep)
        ensures
            r == DetectStep::Done(Ok(wants(probe))),
    {
        let detection = match probe {
            AuthProbe::Open => AuthDetection { kind: AuthKind::Open, authorization_endpoint: None },
            AuthProbe::Challenged { authorization_endpoint: Some(endpoint) } => AuthDetection {
                kind: AuthKind::OAuth,
                authorization_endpoint: Some(endpoint),
            },
            _ => AuthDetection { kind: AuthKind::Token, authorization_endpoint: None },
        };
        DetectStep::Done(Ok(detection))
    }
}

/// What detection of an identifier comes to, from the store's answer and, for a
/// hosted install, from the probe: what the probe of its endpoint says, nothing
/// for a subprocess, and an error for what is not installed or cannot be read.
pub open spec fn detects(
    h: HostModel,
    id: Seq<char>,
    probe: AuthProbe,
    result: Result<AuthDetection, Error>,
) -> bool {
    match result {
        Ok(detection) => h.records.contains_key(id) && detection == match h.records[id].transport {
            Transport::Stdio => wants(AuthProbe::Open),
            Transport::HttpRemote { .. } => wants(probe),
        },
        Err(e) => crate::registry::ops::host::store_failed(e) || (!h.records.contains_key(id)
            && crate::registry::ops::host::unknown_install(e, id)),
    }
}

/// Detection goes from the identifier through the store's answer to what the
/// server wants: a hosted install is probed at its own endpoint and reported as
/// the probe says, and any other is settled without a probe.
pub proof fn detection_follows_the_record(
    h: HostModel,
    s: DetectRead,
    reply: Result<InstalledServer, Error>,
    step: DetectStep,
    probe: AuthProbe,
)
    requires
        crate::registry::ops::host::get_answers(h, s.server_id@, reply),
        after_read(reply, step),
    ensures
        match step {
            DetectStep::Done(result) => detects(h, s.server_id@, probe, result),
            DetectStep::Probe(asked) => h.records.contains_key(s.server_id@)
                && h.records[s.server_id@].transport == (Transport::HttpRemote { url: asked.url })
                && detects(h, s.server_id@, probe, Ok(wants(probe))),
            DetectStep::ReadInstall(_) => false,
        },
{
}

/// A browser sign-in is offered exactly where there is somewhere for it to go.
pub proof fn a_sign_in_has_somewhere_to_go(probe: AuthProbe)
    ensures
        wants(probe).kind == AuthKind::OAuth <==> wants(probe).authorization_endpoint is Some,
{
}

} // verus!
