//! Connecting an install, and what signing in leads to.
use vstd::prelude::*;

use super::host::HostModel;
use super::naming::require_non_empty;
use crate::bus::{ConnectOutcome, InstalledServer, McpTool};
use crate::error::Error;
use crate::registry::oauth::flow::{OAuthFlow, PendingSignIn};

verus! {

/// What connecting needs to know or to have done next.
#[derive(Debug)]
pub enum ConnectStep {
    /// The install's record; answer with [`ReadInstall::read`].
    ReadInstall(ReadInstall),
    /// A connection to the install; answer with [`Dial::dialled`].
    Dial(Dial),
    /// Nothing: this is what it came to.
    Done(Result<ConnectOutcome, Error>),
}

/// See [`ConnectStep::ReadInstall`].
#[derive(Debug)]
pub struct ReadInstall {
    /// The install.
    pub server_id: String,
}

/// See [`ConnectStep::Dial`].
#[derive(Debug)]
pub struct Dial {
    /// The install.
    pub server_id: String,
    /// Its record.
    pub server: InstalledServer,
}

/// How connecting begins: a blank identifier is refused.
pub open spec fn begins(server_id: Seq<char>, r: ConnectStep) -> bool {
    if crate::text::blank(server_id) {
        r matches ConnectStep::Done(Err(e)) && super::naming::blank_field(e, "server_id"@)
    } else {
        r matches ConnectStep::ReadInstall(next) && next.server_id@ == crate::text::trimmed(
            server_id,
        )
    }
}

/// What follows from the record. An install that its user turned off is not
/// dialled, and the refusal says that this is a setting and no misbehaviour of
/// the server.
pub open spec fn after_read(
    s: ReadInstall,
    reply: Result<InstalledServer, Error>,
    r: ConnectStep,
) -> bool {
    match reply {
        Err(e) => r == ConnectStep::Done(Err(e)),
        Ok(server) => if server.enabled {
            r == ConnectStep::Dial(Dial { server_id: s.server_id, server })
        } else {
            r == ConnectStep::Done(Err(Error::ServerDisabled { server: s.server_id }))
        },
    }
}

/// What follows from dialling.
pub open spec fn after_dial(s: Dial, reply: Result<Vec<McpTool>, Error>, r: ConnectStep) -> bool {
    match reply {
        Err(e) => r == ConnectStep::Done(Err(e)),
        Ok(tools) => r == ConnectStep::Done(Ok(ConnectOutcome { server_id: s.server_id, tools })),
    }
}

/// Begins connecting an install.
pub fn begin_connect(server_id: &str) -> (r: ConnectStep)
    ensures
        begins(server_id@, r),
{
    match require_non_empty(server_id, "server_id") {
        Err(e) => ConnectStep::Done(Err(e)),
        Ok(id) => ConnectStep::ReadInstall(ReadInstall { server_id: id.to_owned() }),
    }
}

impl ReadInstall {
    /// Answers with the install's record.
    pub fn read(self, reply: Result<InstalledServer, Error>) -> (r: ConnectStep)
        ensures
            after_read(self, reply, r),
    {
        match reply {
            Err(e) => ConnectStep::Done(Err(e)),
            Ok(server) => if server.enabled {
                ConnectStep::Dial(Dial { server_id: self.server_id, server })
            } else {
                ConnectStep::Done(Err(Error::ServerDisabled { server: self.server_id }))
            },
        }
    }
}

impl Dial {
    /// Answers with the tools that the server advertises, or why it could not
    /// be connected.
    pub fn dialled(self, reply: Result<Vec<McpTool>, Error>) -> (r: ConnectStep)
        ensures
            after_dial(self, reply, r),
    {
        match reply {
            Err(e) => ConnectStep::Done(Err(e)),
            Ok(tools) => ConnectStep::Done(
                Ok(ConnectOutcome { server_id: self.server_id, tools }),
            ),
        }
    }
}

/// What finishing a sign-in needs to know or to have done next.
#[derive(Debug)]
pub enum SignInStep {
    /// The code exchanged for a stored token; answer with
    /// [`Exchange::exchanged`].
    Exchange(Exchange),
    /// The record of the install that signed in; answer with
    /// [`SignedInRead::read`].
    ReadInstall(SignedInRead),
    /// A connection to it; answer with [`SignedInDial::dialled`].
    Dial(SignedInDial),
    /// Nothing: this is what it came to.
    Done(Result<ConnectOutcome, Error>),
}

/// See [`SignInStep::Exchange`].
#[derive(Debug)]
pub struct Exchange {
    /// The sign-in that has come back.
    pub sign_in: PendingSignIn,
    /// The code that came back.
    pub code: String,
}

/// See [`SignInStep::ReadInstall`].
#[derive(Debug)]
pub struct SignedInRead {
    /// The install that signed in.
    pub server_id: String,
    /// How connecting it goes on.
    pub read: ReadInstall,
}

/// See [`SignInStep::Dial`].
#[derive(Debug)]
pub struct SignedInDial {
    /// The install that signed in.
    pub server_id: String,
    /// How connecting it goes on.
    pub dial: Dial,
}

/// What connecting, after a sign-in that worked, leads to. A stored token
/// followed by a failed connect is not an error: the outcome carries no tools.
pub open spec fn signed_in(server_id: String, step: ConnectStep, r: SignInStep) -> bool {
    match step {
        ConnectStep::ReadInstall(read) => r == SignInStep::ReadInstall(
            SignedInRead { server_id, read },
        ),
        ConnectStep::Dial(dial) => r == SignInStep::Dial(SignedInDial { server_id, dial }),
        ConnectStep::Done(Ok(outcome)) => r == SignInStep::Done(Ok(outcome)),
        ConnectStep::Done(Err(_)) => r matches SignInStep::Done(Ok(outcome)) && outcome.server_id
            == server_id && outcome.tools@.len() == 0,
    }
}

/// How finishing a sign-in begins: the code is exchanged for the sign-in that
/// was begun with the state, and a state that was never issued, or has come
/// back already, is refused.
pub open spec fn completes(
    pending: Map<Seq<char>, PendingSignIn>,
    state: Seq<char>,
    code: Seq<char>,
    r: SignInStep,
) -> bool {
    if pending.contains_key(state) {
        r matches SignInStep::Exchange(next) && next.sign_in == pending[state] && next.code@
            == code
    } else {
        r matches SignInStep::Done(Err(e)) && crate::registry::oauth::flow::unknown_state(e)
    }
}

/// What follows from the exchange: an error, or a connection to the install
/// that signed in.
pub open spec fn after_exchange(s: Exchange, reply: Result<(), Error>, r: SignInStep) -> bool {
    match reply {
        Err(e) => r == SignInStep::Done(Err(e)),
        Ok(_) => exists|step: ConnectStep|
            begins(s.sign_in.server_id@, step) && #[trigger] signed_in(
                s.sign_in.server_id,
                step,
                r,
            ),
    }
}

/// Begins finishing a browser sign-in.
pub fn begin_oauth_complete(flow: &mut OAuthFlow, state: &str, code: &str) -> (r: SignInStep)
    ensures
        final(flow)@ == old(flow)@.remove(state@),
        completes(old(flow)@, state@, code@, r),
{
    match flow.take(state) {
        Err(e) => SignInStep::Done(Err(e)),
        Ok(sign_in) => SignInStep::Exchange(Exchange { sign_in, code: code.to_owned() }),
    }
}

/// Goes on connecting after a sign-in that worked.
fn go_on(server_id: String, step: ConnectStep) -> (r: SignInStep)
    ensures
        signed_in(server_id, step, r),
{
    match step {
        ConnectStep::ReadInstall(read) => SignInStep::ReadInstall(
            SignedInRead { server_id, read },
        ),
        ConnectStep::Dial(dial) => SignInStep::Dial(SignedInDial { server_id, dial }),
        ConnectStep::Done(Ok(outcome)) => SignInStep::Done(Ok(outcome)),
        ConnectStep::Done(Err(_)) => SignInStep::Done(
            Ok(ConnectOutcome { server_id, tools: Vec::new() }),
        ),
    }
}

impl Exchange {
    /// Answers that the token is stored for the install that signed in.
    pub fn exchanged(self, reply: Result<(), Error>) -> (r: SignInStep)
        ensures
            after_exchange(self, reply, r),
    {
        match reply {
            Err(e) => SignInStep::Done(Err(e)),
            Ok(_) => {
                let step = begin_connect(self.sign_in.server_id.as_str());
                go_on(self.sign_in.server_id, step)
            },
        }
    }
}

impl SignedInRead {
    /// Answers with the install's record.
    pub fn read(self, reply: Result<InstalledServer, Error>) -> (r: SignInStep)
        ensures
            exists|step: ConnectStep|
                after_read(self.read, reply, step) && #[trigger] signed_in(self.server_id, step, r),
    {
        let step = self.read.read(reply);
        go_on(self.server_id, step)
    }
}

impl SignedInDial {
    /// Answers with the tools that the server advertises, or why it could not
    /// be connected.
    pub fn dialled(self, reply: Result<Vec<McpTool>, Error>) -> (r: SignInStep)
        ensures
            exists|step: ConnectStep|
                after_dial(self.dial, reply, step) && #[trigger] signed_in(self.server_id, step, r),
    {
        let step = self.dial.dialled(reply);
        go_on(self.server_id, step)
    }
}

/// A state that was never issued is refused: completing the sign-in ends at
/// once in that error, so nothing is exchanged and nothing is dialled.
pub proof fn a_state_never_issued_is_refused(
    pending: Map<Seq<char>, PendingSignIn>,
    state: Seq<char>,
    code: Seq<char>,
    r: SignInStep,
)
    requires
        !pending.contains_key(state),
        completes(pending, state, code, r),
    ensures
        r matches SignInStep::Done(Err(e)) && crate::registry::oauth::flow::unknown_state(e),
{
}

/// A state that has come back is refused when it comes back again.
pub proof fn a_state_comes_back_once(
    pending: Map<Seq<char>, PendingSignIn>,
    state: Seq<char>,
    code: Seq<char>,
    again: SignInStep,
)
    requires
        completes(pending.remove(state), state, code, again),
    ensures
        again matches SignInStep::Done(Err(e)) && crate::registry::oauth::flow::unknown_state(e),
{
}

/// What connects after a sign-in is the install that began it.
pub proof fn the_install_that_signed_in_is_connected(
    pending: Map<Seq<char>, PendingSignIn>,
    state: Seq<char>,
    code: Seq<char>,
    s: Exchange,
    r: SignInStep,
)
    requires
        completes(pending, state, code, SignInStep::Exchange(s)),
        after_exchange(s, Ok(()), r),
    ensures
        pending.contains_key(state),
        match r {
            SignInStep::ReadInstall(next) => next.server_id == pending[state].server_id
                && next.read.server_id@ == crate::text::trimmed(pending[state].server_id@),
            SignInStep::Done(Ok(outcome)) => outcome.server_id == pending[state].server_id
                && crate::text::blank(pending[state].server_id@),
            _ => false,
        },
{
}

/// Once the sign-in worked, finishing it never fails, whatever connecting does.
pub proof fn a_sign_in_that_worked_is_never_an_error(
    server_id: String,
    step: ConnectStep,
    r: SignInStep,
)
    requires
        signed_in(server_id, step, r),
    ensures
        !(r matches SignInStep::Done(Err(_))),
{
}

/// Whether a host that does what `step` wants comes to hold `then`, and its
/// answer leads to `next`.
pub open spec fn moves(h: HostModel, step: ConnectStep, then: HostModel, next: ConnectStep) -> bool {
    match step {
        ConnectStep::ReadInstall(s) => then == h && exists|reply: Result<InstalledServer, Error>|
            super::host::get_answers(h, s.server_id@, reply) && #[trigger] after_read(
                s,
                reply,
                next,
            ),
        ConnectStep::Dial(s) => exists|reply: Result<Vec<McpTool>, Error>|
            super::host::dials(h, s.server_id@, then, reply) && #[trigger] after_dial(
                s,
                reply,
                next,
            ),
        ConnectStep::Done(_) => false,
    }
}

/// An install that is turned off is never dialled: connecting it is refused as
/// disabled, unless the store could not be read, and no session comes of it.
pub proof fn a_disabled_install_is_never_dialled(
    h: HostModel,
    s: ReadInstall,
    then: HostModel,
    next: ConnectStep,
)
    requires
        h.records.contains_key(s.server_id@),
        !h.records[s.server_id@].enabled,
        moves(h, ConnectStep::ReadInstall(s), then, next),
    ensures
        then == h,
        next matches ConnectStep::Done(Err(e)) && (e == (Error::ServerDisabled {
            server: s.server_id,
        }) || super::host::store_failed(e)),
{
}

/// What is not installed is never dialled: connecting it is refused as unknown,
/// unless the store could not be read.
pub proof fn an_unknown_install_is_never_dialled(
    h: HostModel,
    s: ReadInstall,
    then: HostModel,
    next: ConnectStep,
)
    requires
        !h.records.contains_key(s.server_id@),
        moves(h, ConnectStep::ReadInstall(s), then, next),
    ensures
        then == h,
        next matches ConnectStep::Done(Err(e)) && (super::host::unknown_install(e, s.server_id@)
            || super::host::store_failed(e)),
{
}

/// Connecting reports success exactly where the install has a session
/// afterwards that the dial gave it.
pub proof fn connecting_reports_what_the_dial_gave(
    h: HostModel,
    s: Dial,
    then: HostModel,
    next: ConnectStep,
)
    requires
        !h.live.contains(s.server_id@),
        moves(h, ConnectStep::Dial(s), then, next),
    ensures
        next matches ConnectStep::Done(done) && (done is Ok <==> then.live.contains(s.server_id@)),
{
}

/// A connection is reported as it was: the install that was meant and the very
/// tools that it has, or the failure itself. What is turned off is refused under
/// its own identifier, and only what is turned on is dialled.
pub proof fn a_connection_is_reported_as_it_was(
    s: ReadInstall,
    reply: Result<InstalledServer, Error>,
    step: ConnectStep,
    dialled: Dial,
    tools: Result<Vec<McpTool>, Error>,
    r: ConnectStep,
)
    requires
        after_read(s, reply, step),
        after_dial(dialled, tools, r),
    ensures
        step matches ConnectStep::Dial(next) ==> reply == Ok::<InstalledServer, Error>(next.server)
            && next.server.enabled && next.server_id == s.server_id,
        reply matches Ok(server) ==> (!server.enabled ==> step == ConnectStep::Done(
            Err(Error::ServerDisabled { server: s.server_id }),
        )),
        reply matches Ok(server) ==> (server.enabled ==> step is Dial),
        reply matches Err(e) ==> step == ConnectStep::Done(Err(e)),
        tools matches Ok(found) ==> (r matches ConnectStep::Done(Ok(outcome)) && outcome.tools
            == found && outcome.server_id == dialled.server_id),
        tools matches Err(e) ==> r == ConnectStep::Done(Err(e)),
{
}

/// After a sign-in that worked, a connection that was made is reported as it is,
/// and one that failed as the install that signed in, without tools.
pub proof fn a_sign_in_reports_its_install(
    server_id: String,
    connected: Result<ConnectOutcome, Error>,
    r: SignInStep,
)
    requires
        signed_in(server_id, ConnectStep::Done(connected), r),
    ensures
        r matches SignInStep::Done(Ok(outcome)) && match connected {
            Ok(made) => outcome == made,
            Err(_) => outcome.server_id == server_id && outcome.tools@.len() == 0,
        },
{
}

} // verus!
