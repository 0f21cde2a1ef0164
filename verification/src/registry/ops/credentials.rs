//! Replacing an install's credentials.
//!
//! What is given is merged over what is stored, so that a form that sends only
//! the field its user retyped does not erase the ones it could not display.
//! The credentials are persisted *before* the reconnect and kept whatever it
//! does: a user who corrected a value keeps the correction.
//!
//! An unknown install is refused before anything is written or ended, so that a
//! bad identifier is a clear error and leaves no credentials behind. The record
//! that decides about the reconnect is read once the session has ended, so that
//! an install its user turned off meanwhile stays off.
use vstd::prelude::*;

use super::host::HostModel;
use super::naming::require_non_empty;
use crate::bus::{InstalledServer, McpTool, UpdateEnvOutcome, UpdateEnvStatus};
use crate::env::EnvMap;
use crate::error::Error;
use crate::text::same_texts;

verus! {

/// What replacing credentials needs to know or to have done next.
#[derive(Debug)]
pub enum UpdateEnvStep {
    /// Whether the install is there; answer with
    /// [`CheckInstalled::checked`].
    CheckInstalled(CheckInstalled),
    /// The credentials that are stored; answer with [`LoadStored::loaded`].
    LoadStored(LoadStored),
    /// The merged credentials, stored; answer with [`StoreMerged::stored`].
    StoreMerged(StoreMerged),
    /// The end of any live session; answer with [`EndSession::ended`].
    EndSession(EndSession),
    /// The install's record as it now stands; answer with
    /// [`ReadInstall::read`].
    ReadInstall(ReadInstall),
    /// The names of the credentials, stored on the record; answer with
    /// [`StoreNames::stored`].
    StoreNames(StoreNames),
    /// A connection to the install; answer with [`Reconnect::dialled`].
    Reconnect(Reconnect),
    /// What a server that answered 401 asks for, if that is what happened;
    /// answer with [`AskHint::hinted`].
    AskHint(AskHint),
    /// Nothing: this is what it came to.
    Done(Result<UpdateEnvOutcome, Error>),
}

/// See [`UpdateEnvStep::CheckInstalled`].
#[derive(Debug)]
pub struct CheckInstalled {
    /// The install.
    pub server_id: String,
    /// The credentials that were given.
    pub env: EnvMap,
}

/// See [`UpdateEnvStep::LoadStored`].
#[derive(Debug)]
pub struct LoadStored {
    /// The install.
    pub server_id: String,
    /// The credentials that were given.
    pub env: EnvMap,
}

/// See [`UpdateEnvStep::StoreMerged`].
#[derive(Debug)]
pub struct StoreMerged {
    /// The install.
    pub server_id: String,
    /// The credentials to store.
    pub merged: EnvMap,
}

/// See [`UpdateEnvStep::EndSession`].
#[derive(Debug)]
pub struct EndSession {
    /// The install.
    pub server_id: String,
    /// The credentials that are now stored.
    pub merged: EnvMap,
}

/// See [`UpdateEnvStep::ReadInstall`].
#[derive(Debug)]
pub struct ReadInstall {
    /// The install.
    pub server_id: String,
    /// The credentials that are now stored.
    pub merged: EnvMap,
}

/// See [`UpdateEnvStep::StoreNames`].
#[derive(Debug)]
pub struct StoreNames {
    /// The install.
    pub server_id: String,
    /// Its record.
    pub server: InstalledServer,
    /// The names to store on it.
    pub names: Vec<String>,
}

/// See [`UpdateEnvStep::Reconnect`].
#[derive(Debug)]
pub struct Reconnect {
    /// The install.
    pub server_id: String,
    /// Its record.
    pub server: InstalledServer,
}

/// See [`UpdateEnvStep::AskHint`].
#[derive(Debug)]
pub struct AskHint {
    /// The install.
    pub server_id: String,
    /// The names of its credentials.
    pub env_keys: Vec<String>,
    /// Why it could not be connected.
    pub error: Error,
}

/// How replacing credentials begins: a blank identifier is refused.
pub open spec fn begins(server_id: Seq<char>, env: EnvMap, r: UpdateEnvStep) -> bool {
    if crate::text::blank(server_id) {
        r matches UpdateEnvStep::Done(Err(e)) && super::naming::blank_field(e, "server_id"@)
    } else {
        r matches UpdateEnvStep::CheckInstalled(next) && next.server_id@ == crate::text::trimmed(
            server_id,
        ) && next.env == env
    }
}

/// What follows from whether the install is there. One that is unknown is
/// refused, and nothing has been written or ended. A record that could not be
/// read refuses nothing here: the credentials are still to be stored.
pub open spec fn after_check(
    s: CheckInstalled,
    reply: Result<InstalledServer, Error>,
    r: UpdateEnvStep,
) -> bool {
    if reply matches Err(e) && e is UnknownServer {
        r == UpdateEnvStep::Done(Err(reply->Err_0))
    } else {
        r == UpdateEnvStep::LoadStored(LoadStored { server_id: s.server_id, env: s.env })
    }
}

/// What follows from the stored credentials.
pub open spec fn after_load(s: LoadStored, reply: Result<EnvMap, Error>, r: UpdateEnvStep) -> bool {
    match reply {
        Err(e) => r == UpdateEnvStep::Done(Err(e)),
        Ok(stored) => r matches UpdateEnvStep::StoreMerged(next) && next.server_id == s.server_id
            && next.merged@ == stored@.union_prefer_right(s.env@),
    }
}

/// What follows from storing the merged credentials.
pub open spec fn after_store(s: StoreMerged, reply: Result<(), Error>, r: UpdateEnvStep) -> bool {
    match reply {
        Err(e) => r == UpdateEnvStep::Done(Err(e)),
        Ok(_) => r == UpdateEnvStep::EndSession(
            EndSession { server_id: s.server_id, merged: s.merged },
        ),
    }
}

/// What is done with a record whose names are in order. A server that its user
/// turned off must not come back up because its credentials changed.
pub open spec fn settles(server_id: String, server: InstalledServer, r: UpdateEnvStep) -> bool {
    if server.enabled {
        r == UpdateEnvStep::Reconnect(Reconnect { server_id, server })
    } else {
        r matches UpdateEnvStep::Done(Ok(outcome)) && outcome.server_id == server_id
            && outcome.status == UpdateEnvStatus::Disabled && outcome.env_keys == server.env_keys
            && outcome.tools@.len() == 0 && outcome.auth_hint is None && outcome.error is None
    }
}

/// What follows from the end of the session.
pub open spec fn after_end(s: EndSession, r: UpdateEnvStep) -> bool {
    r == UpdateEnvStep::ReadInstall(ReadInstall { server_id: s.server_id, merged: s.merged })
}

/// What follows from the record as it now stands: the names of the credentials
/// are stored, where it does not have them already.
pub open spec fn after_read(
    s: ReadInstall,
    reply: Result<InstalledServer, Error>,
    r: UpdateEnvStep,
) -> bool {
    match reply {
        Err(e) => r == UpdateEnvStep::Done(Err(e)),
        Ok(server) => if crate::text::texts(server.env_keys@) == crate::env::names_of(s.merged@) {
            settles(s.server_id, server, r)
        } else {
            r matches UpdateEnvStep::StoreNames(next) && next.server_id == s.server_id
                && next.server == server && crate::text::texts(next.names@)
                == crate::env::names_of(s.merged@)
        },
    }
}

/// What follows from storing the names.
pub open spec fn after_names(s: StoreNames, reply: Result<(), Error>, r: UpdateEnvStep) -> bool {
    match reply {
        Err(e) => r == UpdateEnvStep::Done(Err(e)),
        Ok(_) => settles(s.server_id, InstalledServer { env_keys: s.names, ..s.server }, r),
    }
}

/// What follows from dialling. A failure is no error: what was asked for,
/// storing the credentials, succeeded.
pub open spec fn after_dial(
    s: Reconnect,
    reply: Result<Vec<McpTool>, Error>,
    r: UpdateEnvStep,
) -> bool {
    match reply {
        Ok(tools) => r == UpdateEnvStep::Done(
            Ok(
                UpdateEnvOutcome {
                    server_id: s.server_id,
                    status: UpdateEnvStatus::Connected,
                    env_keys: s.server.env_keys,
                    tools,
                    auth_hint: None,
                    error: None,
                },
            ),
        ),
        Err(error) => r == UpdateEnvStep::AskHint(
            AskHint { server_id: s.server_id, env_keys: s.server.env_keys, error },
        ),
    }
}

/// What follows from the hint. A 401's message is withheld; only its hint
/// crosses.
pub open spec fn after_hint(s: AskHint, hint: Option<String>, r: UpdateEnvStep) -> bool {
    r matches UpdateEnvStep::Done(Ok(outcome)) && outcome.server_id == s.server_id
        && outcome.env_keys == s.env_keys && outcome.tools@.len() == 0 && outcome.auth_hint == hint
        && match hint {
        Some(_) => outcome.status == UpdateEnvStatus::Unauthorized && outcome.error is None,
        None => outcome.status == UpdateEnvStatus::Disconnected && (outcome.error matches Some(text)
            && text@ == crate::error::error_text(s.error)),
    }
}

/// Begins replacing an install's credentials.
pub fn begin_update_env(server_id: &str, env: EnvMap) -> (r: UpdateEnvStep)
    ensures
        begins(server_id@, env, r),
{
    match require_non_empty(server_id, "server_id") {
        Err(e) => UpdateEnvStep::Done(Err(e)),
        Ok(id) => UpdateEnvStep::CheckInstalled(
            CheckInstalled { server_id: id.to_owned(), env },
        ),
    }
}

/// Reconnects a server that is turned on, and leaves one that is not alone.
fn settle(server_id: String, server: InstalledServer) -> (r: UpdateEnvStep)
    ensures
        settles(server_id, server, r),
{
    if server.enabled {
        UpdateEnvStep::Reconnect(Reconnect { server_id, server })
    } else {
        UpdateEnvStep::Done(
            Ok(
                UpdateEnvOutcome {
                    server_id,
                    status: UpdateEnvStatus::Disabled,
                    env_keys: server.env_keys,
                    tools: Vec::new(),
                    auth_hint: None,
                    error: None,
                },
            ),
        )
    }
}

impl CheckInstalled {
    /// Answers with the install's record.
    pub fn checked(self, reply: Result<InstalledServer, Error>) -> (r: UpdateEnvStep)
        ensures
            after_check(self, reply, r),
    {
        match reply {
            Err(Error::UnknownServer { server }) => UpdateEnvStep::Done(
                Err(Error::UnknownServer { server }),
            ),
            _ => UpdateEnvStep::LoadStored(
                LoadStored { server_id: self.server_id, env: self.env },
            ),
        }
    }
}

impl LoadStored {
    /// Answers with the credentials that are stored.
    pub fn loaded(self, reply: Result<EnvMap, Error>) -> (r: UpdateEnvStep)
        ensures
            after_load(self, reply, r),
    {
        match reply {
            Err(e) => UpdateEnvStep::Done(Err(e)),
            Ok(stored) => {
                let mut merged = stored;
                merged.extend(self.env);
                UpdateEnvStep::StoreMerged(StoreMerged { server_id: self.server_id, merged })
            },
        }
    }
}

impl StoreMerged {
    /// Answers that the credentials are stored.
    pub fn stored(self, reply: Result<(), Error>) -> (r: UpdateEnvStep)
        ensures
            after_store(self, reply, r),
    {
        match reply {
            Err(e) => UpdateEnvStep::Done(Err(e)),
            Ok(_) => UpdateEnvStep::EndSession(
                EndSession { server_id: self.server_id, merged: self.merged },
            ),
        }
    }
}

impl EndSession {
    /// Answers that no session is live.
    pub fn ended(self) -> (r: UpdateEnvStep)
        ensures
            after_end(self, r),
    {
        UpdateEnvStep::ReadInstall(ReadInstall { server_id: self.server_id, merged: self.merged })
    }
}

impl ReadInstall {
    /// Answers with the install's record.
    pub fn read(self, reply: Result<InstalledServer, Error>) -> (r: UpdateEnvStep)
        ensures
            after_read(self, reply, r),
    {
        match reply {
            Err(e) => UpdateEnvStep::Done(Err(e)),
            Ok(server) => {
                let names = self.merged.names();
                if same_texts(&server.env_keys, &names) {
                    settle(self.server_id, server)
                } else {
                    UpdateEnvStep::StoreNames(
                        StoreNames { server_id: self.server_id, server, names },
                    )
                }
            },
        }
    }
}

impl StoreNames {
    /// Answers that the names are stored.
    pub fn stored(self, reply: Result<(), Error>) -> (r: UpdateEnvStep)
        ensures
            after_names(self, reply, r),
    {
        match reply {
            Err(e) => UpdateEnvStep::Done(Err(e)),
            Ok(_) => {
                let mut server = self.server;
                server.env_keys = self.names;
                settle(self.server_id, server)
            },
        }
    }
}

impl Reconnect {
    /// Answers with the tools that the server advertises, or why it could not
    /// be connected.
    pub fn dialled(self, reply: Result<Vec<McpTool>, Error>) -> (r: UpdateEnvStep)
        ensures
            after_dial(self, reply, r),
    {
        match reply {
            Ok(tools) => UpdateEnvStep::Done(
                Ok(
                    UpdateEnvOutcome {
                        server_id: self.server_id,
                        status: UpdateEnvStatus::Connected,
                        env_keys: self.server.env_keys,
                        tools,
                        auth_hint: None,
                        error: None,
                    },
                ),
            ),
            Err(error) => UpdateEnvStep::AskHint(
                AskHint { server_id: self.server_id, env_keys: self.server.env_keys, error },
            ),
        }
    }
}

impl AskHint {
    /// Answers with what the server asks for, where it answered 401.
    pub fn hinted(self, hint: Option<String>) -> (r: UpdateEnvStep)
        ensures
            after_hint(self, hint, r),
    {
        let (status, error) = match &hint {
            Some(_) => (UpdateEnvStatus::Unauthorized, None),
            None => (UpdateEnvStatus::Disconnected, Some(self.error.message())),
        };
        UpdateEnvStep::Done(
            Ok(
                UpdateEnvOutcome {
                    server_id: self.server_id,
                    status,
                    env_keys: self.env_keys,
                    tools: Vec::new(),
                    auth_hint: hint,
                    error,
                },
            ),
        )
    }
}

/// Whether a host that does what `step` wants comes to hold `then`, and its
/// answer leads to `next`.
pub open spec fn moves(
    h: HostModel,
    step: UpdateEnvStep,
    then: HostModel,
    next: UpdateEnvStep,
) -> bool {
    match step {
        UpdateEnvStep::CheckInstalled(s) => then == h && exists|
            reply: Result<InstalledServer, Error>,
        |
            super::host::get_answers(h, s.server_id@, reply) && #[trigger] after_check(
                s,
                reply,
                next,
            ),
        UpdateEnvStep::LoadStored(s) => then == h && exists|reply: Result<EnvMap, Error>|
            super::host::load_answers(h, s.server_id@, reply) && #[trigger] after_load(
                s,
                reply,
                next,
            ),
        UpdateEnvStep::StoreMerged(s) => exists|reply: Result<(), Error>|
            super::host::writes(
                h,
                super::host::with_env(h, s.server_id@, s.merged@),
                then,
                reply,
            ) && #[trigger] after_store(s, reply, next),
        UpdateEnvStep::EndSession(s) => then == super::host::without_session(h, s.server_id@)
            && after_end(s, next),
        UpdateEnvStep::ReadInstall(s) => then == h && exists|reply: Result<InstalledServer, Error>|
            super::host::get_answers(h, s.server_id@, reply) && #[trigger] after_read(
                s,
                reply,
                next,
            ),
        UpdateEnvStep::StoreNames(s) => exists|reply: Result<(), Error>|
            super::host::writes(
                h,
                super::host::with_record(
                    h,
                    s.server_id@,
                    InstalledServer { env_keys: s.names, ..h.records[s.server_id@] },
                ),
                then,
                reply,
            ) && #[trigger] after_names(s, reply, next),
        UpdateEnvStep::Reconnect(s) => exists|reply: Result<Vec<McpTool>, Error>|
            super::host::dials(h, s.server_id@, then, reply) && #[trigger] after_dial(
                s,
                reply,
                next,
            ),
        UpdateEnvStep::AskHint(s) => then == h && exists|hint: Option<String>| #[trigger]
            after_hint(s, hint, next),
        UpdateEnvStep::Done(_) => false,
    }
}

/// Whether `count` moves lead from one step to another.
pub open spec fn runs(
    h: HostModel,
    step: UpdateEnvStep,
    then: HostModel,
    last: UpdateEnvStep,
    count: nat,
) -> bool
    decreases count,
{
    if count == 0 {
        then == h && last == step
    } else {
        exists|mid: HostModel, next: UpdateEnvStep| #[trigger]
            moves(h, step, mid, next) && runs(mid, next, then, last, (count - 1) as nat)
    }
}

/// A bound on how many moves replacing credentials still takes.
pub open spec fn moves_left(step: UpdateEnvStep) -> nat {
    match step {
        UpdateEnvStep::CheckInstalled(_) => 8,
        UpdateEnvStep::LoadStored(_) => 7,
        UpdateEnvStep::StoreMerged(_) => 6,
        UpdateEnvStep::EndSession(_) => 5,
        UpdateEnvStep::ReadInstall(_) => 4,
        UpdateEnvStep::StoreNames(_) => 3,
        UpdateEnvStep::Reconnect(_) => 2,
        UpdateEnvStep::AskHint(_) => 1,
        UpdateEnvStep::Done(_) => 0,
    }
}

/// Replacing credentials always ends: every move brings it nearer its end.
pub proof fn replacing_credentials_ends(
    h: HostModel,
    step: UpdateEnvStep,
    then: HostModel,
    last: UpdateEnvStep,
    count: nat,
)
    requires
        runs(h, step, then, last, count),
    ensures
        count + moves_left(last) <= moves_left(step),
    decreases count,
{
    if count > 0 {
        let (mid, next) = choose|mid: HostModel, next: UpdateEnvStep| #[trigger]
            moves(h, step, mid, next) && runs(mid, next, then, last, (count - 1) as nat);
        assert(moves_left(next) < moves_left(step));
        replacing_credentials_ends(mid, next, then, last, (count - 1) as nat);
    }
}

/// The credentials of an install with what was given laid over them.
pub open spec fn merged(base: HostModel, s: CheckInstalled) -> Map<Seq<char>, Seq<char>> {
    super::host::stored_env(base, s.server_id@).union_prefer_right(s.env@)
}

/// Whether a host holds the merged credentials and has touched nothing else
/// but the install's own record and session.
pub open spec fn persisted(base: HostModel, s: CheckInstalled, h: HostModel) -> bool {
    &&& h.env == base.env.insert(s.server_id@, merged(base, s))
    &&& h.records.dom() == base.records.dom()
    &&& forall|id: Seq<char>|
        id != s.server_id@ && #[trigger] base.records.contains_key(id) ==> h.records[id] == (
        InstalledServer { last_connected_at: h.records[id].last_connected_at, ..base.records[id] })
    &&& h.live.remove(s.server_id@) == base.live.remove(s.server_id@)
    &&& h.failures.remove(s.server_id@) == base.failures.remove(s.server_id@)
}

/// Whether the record that a host holds names the merged credentials, and is
/// otherwise as it was.
pub open spec fn renamed(base: HostModel, s: CheckInstalled, h: HostModel) -> bool {
    let id = s.server_id@;
    &&& base.records.contains_key(id)
    &&& h.records[id] == (InstalledServer {
        env_keys: h.records[id].env_keys,
        last_connected_at: h.records[id].last_connected_at,
        ..base.records[id]
    })
    &&& crate::text::texts(h.records[id].env_keys@) == crate::env::names_of(merged(base, s))
}

/// How far replacing the credentials has come. From the moment that anything
/// else is done, the credentials are stored.
pub open spec fn progress(
    base: HostModel,
    s: CheckInstalled,
    h: HostModel,
    step: UpdateEnvStep,
) -> bool {
    let id = s.server_id@;
    match step {
        UpdateEnvStep::CheckInstalled(now) => now == s && h == base,
        UpdateEnvStep::LoadStored(now) => now.server_id == s.server_id && now.env == s.env && h
            == base,
        UpdateEnvStep::StoreMerged(now) => now.server_id == s.server_id && now.merged@ == merged(
            base,
            s,
        ) && h == base,
        UpdateEnvStep::EndSession(now) => now.server_id == s.server_id && now.merged@ == merged(
            base,
            s,
        ) && persisted(base, s, h) && h.records == base.records,
        UpdateEnvStep::ReadInstall(now) => now.server_id == s.server_id && now.merged@ == merged(
            base,
            s,
        ) && persisted(base, s, h) && h.records == base.records && !h.live.contains(id),
        UpdateEnvStep::StoreNames(now) => now.server_id == s.server_id
            && base.records.contains_key(id) && now.server == base.records[id]
            && crate::text::texts(now.names@) == crate::env::names_of(merged(base, s))
            && persisted(base, s, h) && h.records == base.records && !h.live.contains(id),
        UpdateEnvStep::Reconnect(now) => now.server_id == s.server_id && persisted(base, s, h)
            && renamed(base, s, h) && now.server == h.records[id] && now.server.enabled
            && !h.live.contains(id),
        UpdateEnvStep::AskHint(now) => now.server_id == s.server_id && persisted(base, s, h)
            && renamed(base, s, h) && now.env_keys == h.records[id].env_keys
            && h.records[id].enabled && !h.live.contains(id),
        UpdateEnvStep::Done(Ok(outcome)) => outcome.server_id == s.server_id && persisted(
            base,
            s,
            h,
        ) && renamed(base, s, h) && outcome.env_keys == h.records[id].env_keys && (outcome.status
            == UpdateEnvStatus::Connected <==> h.live.contains(id)) && (outcome.status
            == UpdateEnvStatus::Disabled <==> !h.records[id].enabled),
        UpdateEnvStep::Done(Err(_)) => true,
    }
}

proof fn lemma_progress_moves(
    base: HostModel,
    s: CheckInstalled,
    h: HostModel,
    step: UpdateEnvStep,
    then: HostModel,
    next: UpdateEnvStep,
)
    requires
        progress(base, s, h, step),
        moves(h, step, then, next),
    ensures
        progress(base, s, then, next),
{
    let id = s.server_id@;
    match step {
        UpdateEnvStep::StoreNames(now) => {
            assert(h.records[id] == base.records[id]);
            if then.records != h.records {
                assert(then.records.dom() =~= base.records.dom());
            }
        },
        UpdateEnvStep::Reconnect(now) => {
            assert(then.live.remove(id) =~= h.live.remove(id));
            assert(then.failures.remove(id) =~= h.failures.remove(id));
            assert(h.records.contains_key(id));
        },
        UpdateEnvStep::EndSession(now) => {
            assert(then.live.remove(id) =~= h.live.remove(id));
        },
        _ => {},
    }
}

/// Whenever an install is dialled because its credentials changed, they are
/// already stored, the install is turned on, and its record names them.
/// However it ends, the credentials stay: what is reported is what the store
/// holds, an install is reported connected exactly where it has a session, and
/// disabled exactly where it is turned off.
pub proof fn credentials_are_kept_whatever_the_reconnect_does(
    base: HostModel,
    s: CheckInstalled,
    then: HostModel,
    last: UpdateEnvStep,
    count: nat,
)
    requires
        runs(base, UpdateEnvStep::CheckInstalled(s), then, last, count),
    ensures
        progress(base, s, then, last),
{
    lemma_progress_runs(base, s, base, UpdateEnvStep::CheckInstalled(s), then, last, count);
}

proof fn lemma_progress_runs(
    base: HostModel,
    s: CheckInstalled,
    h: HostModel,
    step: UpdateEnvStep,
    then: HostModel,
    last: UpdateEnvStep,
    count: nat,
)
    requires
        progress(base, s, h, step),
        runs(h, step, then, last, count),
    ensures
        progress(base, s, then, last),
    decreases count,
{
    if count > 0 {
        let (mid, next) = choose|mid: HostModel, next: UpdateEnvStep| #[trigger]
            moves(h, step, mid, next) && runs(mid, next, then, last, (count - 1) as nat);
        lemma_progress_moves(base, s, h, step, mid, next);
        lemma_progress_runs(base, s, mid, next, then, last, (count - 1) as nat);
    }
}

/// Replacing the credentials of an identifier that names no install is refused
/// as unknown and changes nothing, wherever the store can be read: no credential
/// is stored, no session is ended.
pub proof fn an_unknown_install_is_left_untouched(
    base: HostModel,
    s: CheckInstalled,
    reply: Result<InstalledServer, Error>,
    next: UpdateEnvStep,
    then: HostModel,
    last: UpdateEnvStep,
    count: nat,
)
    requires
        !base.records.contains_key(s.server_id@),
        super::host::get_answers(base, s.server_id@, reply),
        !(reply matches Err(e) && super::host::store_failed(e)),
        after_check(s, reply, next),
        runs(base, next, then, last, count),
    ensures
        then == base,
        last matches UpdateEnvStep::Done(Err(e)) && super::host::unknown_install(
            e,
            s.server_id@,
        ),
{
    assert(next matches UpdateEnvStep::Done(Err(_)));
    if count > 0 {
        let (mid, beyond) = choose|mid: HostModel, beyond: UpdateEnvStep| #[trigger]
            moves(base, next, mid, beyond) && runs(mid, beyond, then, last, (count - 1) as nat);
        assert(moves(base, next, mid, beyond));
    }
}

/// Replacing credentials never succeeds for an identifier that names no
/// install, whether or not the store can be read.
pub proof fn an_unknown_install_is_never_a_success(
    base: HostModel,
    s: CheckInstalled,
    then: HostModel,
    last: UpdateEnvStep,
    count: nat,
)
    requires
        !base.records.contains_key(s.server_id@),
        runs(base, UpdateEnvStep::CheckInstalled(s), then, last, count),
    ensures
        !(last matches UpdateEnvStep::Done(Ok(_))),
        !(last is Reconnect),
{
    credentials_are_kept_whatever_the_reconnect_does(base, s, then, last, count);
}

/// An install that is turned off when its session has ended is not dialled,
/// whatever it was set to before.
pub proof fn an_install_turned_off_meanwhile_stays_off(
    h: HostModel,
    s: ReadInstall,
    then: HostModel,
    last: UpdateEnvStep,
    count: nat,
)
    requires
        h.records.contains_key(s.server_id@),
        !h.records[s.server_id@].enabled,
        runs(h, UpdateEnvStep::ReadInstall(s), then, last, count),
    ensures
        !(last is Reconnect),
        then.live == h.live,
        last matches UpdateEnvStep::Done(Ok(outcome)) ==> outcome.status
            == UpdateEnvStatus::Disabled,
{
    if count > 0 {
        let step = UpdateEnvStep::ReadInstall(s);
        let (mid, next) = choose|mid: HostModel, next: UpdateEnvStep| #[trigger]
            moves(h, step, mid, next) && runs(mid, next, then, last, (count - 1) as nat);
        assert(moves(h, step, mid, next));
        lemma_off_runs(mid, next, then, last, (count - 1) as nat);
    }
}

/// Whether a step is past reading a record that is turned off.
spec fn off(step: UpdateEnvStep) -> bool {
    match step {
        UpdateEnvStep::StoreNames(s) => !s.server.enabled,
        UpdateEnvStep::Done(Ok(outcome)) => outcome.status == UpdateEnvStatus::Disabled,
        UpdateEnvStep::Done(Err(_)) => true,
        _ => false,
    }
}

proof fn lemma_off_runs(
    h: HostModel,
    step: UpdateEnvStep,
    then: HostModel,
    last: UpdateEnvStep,
    count: nat,
)
    requires
        off(step),
        runs(h, step, then, last, count),
    ensures
        off(last),
        then.live == h.live,
    decreases count,
{
    if count > 0 {
        let (mid, next) = choose|mid: HostModel, next: UpdateEnvStep| #[trigger]
            moves(h, step, mid, next) && runs(mid, next, then, last, (count - 1) as nat);
        assert(moves(h, step, mid, next));
        lemma_off_runs(mid, next, then, last, (count - 1) as nat);
    }
}

/// Once credentials are replaced, the record names exactly what is stored,
/// whether or not it did so before.
pub proof fn the_record_names_the_replaced_credentials(
    base: HostModel,
    s: CheckInstalled,
    h: HostModel,
    outcome: UpdateEnvOutcome,
)
    requires
        progress(base, s, h, UpdateEnvStep::Done(Ok(outcome))),
    ensures
        super::host::names_match(h, s.server_id@),
        crate::text::texts(outcome.env_keys@) == crate::env::names_of(
            super::host::stored_env(h, s.server_id@),
        ),
{
}

/// Nothing that the server does makes replacing credentials fail: neither what
/// a dial came to nor what the server asks for leads to an error.
pub proof fn a_failed_reconnect_is_not_an_error(
    s: Reconnect,
    reply: Result<Vec<McpTool>, Error>,
    asked: AskHint,
    hint: Option<String>,
    r: UpdateEnvStep,
)
    requires
        after_dial(s, reply, r) || after_hint(asked, hint, r),
    ensures
        !(r matches UpdateEnvStep::Done(Err(_))),
{
}

/// In full: once credentials are replaced, exactly those that were stored and
/// those that were given are stored, the given ones with the given values; the
/// names reported are those, in ascending order; the install is the one that was
/// meant; and of its record only the names of its credentials and when it last
/// connected may differ.
pub proof fn replaced_credentials_in_full(
    base: HostModel,
    given: Seq<char>,
    env: EnvMap,
    s: CheckInstalled,
    then: HostModel,
    outcome: UpdateEnvOutcome,
    count: nat,
)
    requires
        begins(given, env, UpdateEnvStep::CheckInstalled(s)),
        runs(
            base,
            UpdateEnvStep::CheckInstalled(s),
            then,
            UpdateEnvStep::Done(Ok(outcome)),
            count,
        ),
    ensures
        ({
            let id = crate::text::trimmed(given);
            let stored = super::host::stored_env(then, id);
            let before = super::host::stored_env(base, id);
            let was = base.records[id];
            let is = then.records[id];
            &&& base.records.contains_key(id)
            &&& outcome.server_id@ == id
            &&& forall|name: Seq<char>| #[trigger]
                stored.contains_key(name) <==> before.contains_key(name) || env@.contains_key(name)
            &&& forall|name: Seq<char>| #[trigger]
                env@.contains_key(name) ==> stored[name] == env@[name]
            &&& forall|name: Seq<char>|
                !env@.contains_key(name) && #[trigger] before.contains_key(name) ==> stored[name]
                    == before[name]
            &&& crate::text::texts(outcome.env_keys@) == crate::env::names_of(stored)
            &&& is.env_keys == outcome.env_keys
            &&& is.server_id == was.server_id
            &&& is.qualified_name == was.qualified_name
            &&& is.enabled == was.enabled
            &&& is.transport == was.transport
            &&& is.command == was.command
            &&& is.args == was.args
            &&& is.config == was.config
            &&& outcome.status == UpdateEnvStatus::Connected <==> then.live.contains(id)
            &&& outcome.status == UpdateEnvStatus::Disabled <==> !was.enabled
        }),
{
    credentials_are_kept_whatever_the_reconnect_does(
        base,
        s,
        then,
        UpdateEnvStep::Done(Ok(outcome)),
        count,
    );
}

/// What a reconnect came to is reported as it was: the very tools that the
/// server has, or, where it asks for credentials, what it asks for and no words,
/// or else the failure in its own words and no hint.
pub proof fn a_reconnect_is_reported_as_it_was(
    s: Reconnect,
    reply: Result<Vec<McpTool>, Error>,
    r: UpdateEnvStep,
    asked: AskHint,
    hint: Option<String>,
    answer: UpdateEnvStep,
)
    requires
        after_dial(s, reply, r),
        after_hint(asked, hint, answer),
    ensures
        match reply {
            Ok(tools) => r matches UpdateEnvStep::Done(Ok(outcome)) && outcome.tools == tools
                && outcome.status == UpdateEnvStatus::Connected && outcome.server_id == s.server_id
                && outcome.env_keys == s.server.env_keys && outcome.error is None
                && outcome.auth_hint is None,
            Err(e) => r matches UpdateEnvStep::AskHint(next) && next.error == e && next.server_id
                == s.server_id && next.env_keys == s.server.env_keys,
        },
        answer matches UpdateEnvStep::Done(Ok(outcome)) && outcome.auth_hint == hint
            && outcome.tools@.len() == 0 && outcome.server_id == asked.server_id
            && outcome.env_keys == asked.env_keys && (hint is Some <==> outcome.status
            == UpdateEnvStatus::Unauthorized) && (hint is None <==> outcome.status
            == UpdateEnvStatus::Disconnected) && (hint is Some ==> outcome.error is None) && (hint
            is None ==> (outcome.error matches Some(words) && words@ == crate::error::error_text(
            asked.error,
        ))),
{
}

} // verus!
