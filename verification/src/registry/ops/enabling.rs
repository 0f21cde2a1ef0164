//! Turning installs on and off, disconnecting them and removing them.
//!
//! Turning an install off ends any live session, so its tools disappear at
//! once, and keeps the record and its credentials so that turning it back on
//! needs no retyping. Turning it on does *not* connect: being enabled is a
//! setting, being connected is a state, and a user must be able to enable a
//! server without also dialling it.
use vstd::prelude::*;

use super::host::HostModel;
use super::naming::require_non_empty;
use crate::bus::InstalledServer;
use crate::error::Error;

verus! {

/// What turning an install on or off needs to know or to have done next.
#[derive(Debug)]
pub enum EnableStep {
    /// Whether the install is there, so that a bad identifier is a clear error
    /// rather than a silent no-op; answer with [`CheckInstalled::checked`].
    CheckInstalled(CheckInstalled),
    /// The setting, written; answer with [`WriteEnabled::written`].
    WriteEnabled(WriteEnabled),
    /// The end of any live session; answer with [`EndSession::ended`].
    EndSession(EndSession),
    /// The install's recorded failure, forgotten; answer with
    /// [`ForgetFailure::forgotten`].
    ForgetFailure(ForgetFailure),
    /// Nothing: this is what it came to.
    Done(Result<(), Error>),
}

/// See [`EnableStep::CheckInstalled`].
#[derive(Debug)]
pub struct CheckInstalled {
    /// The install.
    pub server_id: String,
    /// What it is to be set to.
    pub enabled: bool,
}

/// See [`EnableStep::WriteEnabled`].
#[derive(Debug)]
pub struct WriteEnabled {
    /// The install.
    pub server_id: String,
    /// What it is to be set to.
    pub enabled: bool,
}

/// See [`EnableStep::EndSession`].
#[derive(Debug)]
pub struct EndSession {
    /// The install.
    pub server_id: String,
}

/// See [`EnableStep::ForgetFailure`].
#[derive(Debug)]
pub struct ForgetFailure {
    /// The install.
    pub server_id: String,
}

/// How turning an install on or off begins: a blank identifier is refused.
pub open spec fn begins(server_id: Seq<char>, enabled: bool, r: EnableStep) -> bool {
    if crate::text::blank(server_id) {
        r matches EnableStep::Done(Err(e)) && super::naming::blank_field(e, "server_id"@)
    } else {
        r matches EnableStep::CheckInstalled(next) && next.server_id@ == crate::text::trimmed(
            server_id,
        ) && next.enabled == enabled
    }
}

/// What follows from whether the install is there.
pub open spec fn after_check(
    s: CheckInstalled,
    reply: Result<InstalledServer, Error>,
    r: EnableStep,
) -> bool {
    match reply {
        Err(e) => r == EnableStep::Done(Err(e)),
        Ok(_) => r == EnableStep::WriteEnabled(
            WriteEnabled { server_id: s.server_id, enabled: s.enabled },
        ),
    }
}

/// What follows from writing the setting.
pub open spec fn after_write(s: WriteEnabled, reply: Result<(), Error>, r: EnableStep) -> bool {
    match reply {
        Err(e) => r == EnableStep::Done(Err(e)),
        Ok(_) => if s.enabled {
            r == EnableStep::Done(Ok(()))
        } else {
            r == EnableStep::EndSession(EndSession { server_id: s.server_id })
        },
    }
}

/// Begins turning an install on or off.
pub fn begin_set_enabled(server_id: &str, enabled: bool) -> (r: EnableStep)
    ensures
        begins(server_id@, enabled, r),
{
    match require_non_empty(server_id, "server_id") {
        Err(e) => EnableStep::Done(Err(e)),
        Ok(id) => EnableStep::CheckInstalled(
            CheckInstalled { server_id: id.to_owned(), enabled },
        ),
    }
}

impl CheckInstalled {
    /// Answers with the install's record.
    pub fn checked(self, reply: Result<InstalledServer, Error>) -> (r: EnableStep)
        ensures
            after_check(self, reply, r),
    {
        match reply {
            Err(e) => EnableStep::Done(Err(e)),
            Ok(_) => EnableStep::WriteEnabled(
                WriteEnabled { server_id: self.server_id, enabled: self.enabled },
            ),
        }
    }
}

impl WriteEnabled {
    /// Answers that the setting is written.
    pub fn written(self, reply: Result<(), Error>) -> (r: EnableStep)
        ensures
            after_write(self, reply, r),
    {
        match reply {
            Err(e) => EnableStep::Done(Err(e)),
            Ok(_) => if self.enabled {
                EnableStep::Done(Ok(()))
            } else {
                EnableStep::EndSession(EndSession { server_id: self.server_id })
            },
        }
    }
}

impl EndSession {
    /// Answers that no session is live.
    pub fn ended(self) -> (r: EnableStep)
        ensures
            r == EnableStep::ForgetFailure(ForgetFailure { server_id: self.server_id }),
    {
        EnableStep::ForgetFailure(ForgetFailure { server_id: self.server_id })
    }
}

impl ForgetFailure {
    /// Answers that the failure is forgotten.
    pub fn forgotten(self) -> (r: EnableStep)
        ensures
            r == EnableStep::Done(Ok(())),
    {
        EnableStep::Done(Ok(()))
    }
}

/// Whether a host that does what `step` wants comes to hold `then`, and its
/// answer leads to `next`.
pub open spec fn moves(h: HostModel, step: EnableStep, then: HostModel, next: EnableStep) -> bool {
    match step {
        EnableStep::CheckInstalled(s) => then == h && exists|reply: Result<InstalledServer, Error>|
            super::host::get_answers(h, s.server_id@, reply) && #[trigger] after_check(
                s,
                reply,
                next,
            ),
        EnableStep::WriteEnabled(s) => exists|reply: Result<(), Error>|
            super::host::writes(
                h,
                super::host::with_record(
                    h,
                    s.server_id@,
                    InstalledServer { enabled: s.enabled, ..h.records[s.server_id@] },
                ),
                then,
                reply,
            ) && #[trigger] after_write(s, reply, next),
        EnableStep::EndSession(s) => then == super::host::without_session(h, s.server_id@) && next
            == EnableStep::ForgetFailure(ForgetFailure { server_id: s.server_id }),
        EnableStep::ForgetFailure(s) => then == super::host::without_failure(h, s.server_id@)
            && next == EnableStep::Done(Ok(())),
        EnableStep::Done(_) => false,
    }
}

/// Whether `count` moves lead from one step to another.
pub open spec fn runs(
    h: HostModel,
    step: EnableStep,
    then: HostModel,
    last: EnableStep,
    count: nat,
) -> bool
    decreases count,
{
    if count == 0 {
        then == h && last == step
    } else {
        exists|mid: HostModel, next: EnableStep| #[trigger]
            moves(h, step, mid, next) && runs(mid, next, then, last, (count - 1) as nat)
    }
}

/// The host with an install turned on or off: only its setting differs, and
/// one that is turned off has no live session and no recorded failure.
pub open spec fn switched(base: HostModel, id: Seq<char>, enabled: bool) -> HostModel {
    HostModel {
        records: base.records.insert(id, InstalledServer { enabled, ..base.records[id] }),
        live: if enabled {
            base.live
        } else {
            base.live.remove(id)
        },
        failures: if enabled {
            base.failures
        } else {
            base.failures.remove(id)
        },
        ..base
    }
}

/// How far turning an install on or off has come.
spec fn switching(base: HostModel, s: CheckInstalled, h: HostModel, step: EnableStep) -> bool {
    let id = s.server_id@;
    match step {
        EnableStep::CheckInstalled(now) => now == s && h == base,
        EnableStep::WriteEnabled(now) => now.server_id == s.server_id && now.enabled == s.enabled
            && h == base && base.records.contains_key(id),
        EnableStep::EndSession(now) => now.server_id == s.server_id && !s.enabled
            && base.records.contains_key(id) && h == (HostModel {
            live: base.live,
            failures: base.failures,
            ..switched(base, id, false)
        }),
        EnableStep::ForgetFailure(now) => now.server_id == s.server_id && !s.enabled
            && base.records.contains_key(id) && h == (HostModel {
            failures: base.failures,
            ..switched(base, id, false)
        }),
        EnableStep::Done(Ok(_)) => base.records.contains_key(id) && h == switched(
            base,
            id,
            s.enabled,
        ),
        EnableStep::Done(Err(_)) => true,
    }
}

proof fn lemma_switching_runs(
    base: HostModel,
    s: CheckInstalled,
    h: HostModel,
    step: EnableStep,
    then: HostModel,
    last: EnableStep,
    count: nat,
)
    requires
        switching(base, s, h, step),
        runs(h, step, then, last, count),
    ensures
        switching(base, s, then, last),
    decreases count,
{
    if count > 0 {
        let (mid, next) = choose|mid: HostModel, next: EnableStep| #[trigger]
            moves(h, step, mid, next) && runs(mid, next, then, last, (count - 1) as nat);
        assert(switching(base, s, mid, next));
        lemma_switching_runs(base, s, mid, next, then, last, (count - 1) as nat);
    }
}

/// Turning an install on changes its setting and nothing else: no session is
/// begun or ended. Turning it off also ends its session and forgets its
/// recorded failure, and keeps its record and its credentials. Neither succeeds for an install that is not there.
pub proof fn turning_an_install_on_or_off_keeps_everything_else(
    base: HostModel,
    s: CheckInstalled,
    then: HostModel,
    count: nat,
)
    requires
        runs(base, EnableStep::CheckInstalled(s), then, EnableStep::Done(Ok(())), count),
    ensures
        base.records.contains_key(s.server_id@),
        then == switched(base, s.server_id@, s.enabled),
{
    lemma_switching_runs(
        base,
        s,
        base,
        EnableStep::CheckInstalled(s),
        then,
        EnableStep::Done(Ok(())),
        count,
    );
}

/// Turning on or off what is not installed is refused as unknown, unless the
/// store could not be read, and nothing is written.
pub proof fn an_unknown_install_is_not_switched(
    h: HostModel,
    s: CheckInstalled,
    then: HostModel,
    next: EnableStep,
)
    requires
        !h.records.contains_key(s.server_id@),
        moves(h, EnableStep::CheckInstalled(s), then, next),
    ensures
        then == h,
        next matches EnableStep::Done(Err(e)) && (super::host::unknown_install(e, s.server_id@)
            || super::host::store_failed(e)),
{
}

/// What removing an install needs to have done next.
#[derive(Debug)]
pub enum UninstallStep {
    /// The end of any live session; answer with [`EndBeforeDelete::ended`].
    EndSession(EndBeforeDelete),
    /// The record and its credentials, deleted; answer with
    /// [`Delete::deleted`].
    Delete(Delete),
    /// Nothing: whether a record went.
    Done(Result<bool, Error>),
}

/// See [`UninstallStep::EndSession`].
#[derive(Debug)]
pub struct EndBeforeDelete {
    /// The install.
    pub server_id: String,
}

/// See [`UninstallStep::Delete`].
#[derive(Debug)]
pub struct Delete {
    /// The install.
    pub server_id: String,
}

/// Begins removing an install: a blank identifier is refused, and any session
/// is ended first.
pub fn begin_uninstall(server_id: &str) -> (r: UninstallStep)
    ensures
        if crate::text::blank(server_id@) {
            r matches UninstallStep::Done(Err(e)) && super::naming::blank_field(e, "server_id"@)
        } else {
            r matches UninstallStep::EndSession(next) && next.server_id@ == crate::text::trimmed(
                server_id@,
            )
        },
{
    match require_non_empty(server_id, "server_id") {
        Err(e) => UninstallStep::Done(Err(e)),
        Ok(id) => UninstallStep::EndSession(EndBeforeDelete { server_id: id.to_owned() }),
    }
}

impl EndBeforeDelete {
    /// Answers that no session is live.
    pub fn ended(self) -> (r: UninstallStep)
        ensures
            r == UninstallStep::Delete(Delete { server_id: self.server_id }),
    {
        UninstallStep::Delete(Delete { server_id: self.server_id })
    }
}

impl Delete {
    /// Answers whether a record went.
    pub fn deleted(self, reply: Result<bool, Error>) -> (r: UninstallStep)
        ensures
            r == UninstallStep::Done(reply),
    {
        UninstallStep::Done(reply)
    }
}

/// What deleting a record comes to: it goes, and its credentials with it, or
/// nothing was there.
pub open spec fn deletes(
    h: HostModel,
    id: Seq<char>,
    then: HostModel,
    reply: Result<bool, Error>,
) -> bool {
    match reply {
        Ok(went) => went == h.records.contains_key(id) && then == (HostModel {
            records: h.records.remove(id),
            env: h.env.remove(id),
            ..h
        }),
        Err(_) => then == h,
    }
}

/// Removing an install leaves neither record nor credentials nor session
/// behind, and leaves every other install alone; whether a record went is
/// whether there was one, so removing it again reports that none did.
pub proof fn removing_leaves_nothing_behind(
    base: HostModel,
    s: EndBeforeDelete,
    then: HostModel,
    went: bool,
)
    requires
        deletes(
            super::host::without_session(base, s.server_id@),
            s.server_id@,
            then,
            Ok(went),
        ),
    ensures
        went == base.records.contains_key(s.server_id@),
        !then.records.contains_key(s.server_id@),
        super::host::stored_env(then, s.server_id@) == Map::<Seq<char>, Seq<char>>::empty(),
        !then.live.contains(s.server_id@),
        forall|id: Seq<char>|
            id != s.server_id@ ==> (then.records.contains_key(id) <==> (
            #[trigger] base.records.contains_key(id))) && (base.records.contains_key(id)
                ==> then.records[id] == base.records[id]) && super::host::stored_env(then, id)
                == super::host::stored_env(base, id) && (then.live.contains(id)
                <==> base.live.contains(id)) && (then.failures.contains(id)
                <==> base.failures.contains(id)),
{
}

/// In full: what is turned on or off has the setting that was asked for, and its
/// record is otherwise the same, as is every other record, every credential and
/// every other session. Turning it on leaves sessions and recorded failures
/// alone; turning it off leaves it with neither.
pub proof fn turning_an_install_on_or_off_in_full(
    base: HostModel,
    given: Seq<char>,
    enabled: bool,
    s: CheckInstalled,
    then: HostModel,
    count: nat,
    other: Seq<char>,
)
    requires
        begins(given, enabled, EnableStep::CheckInstalled(s)),
        runs(base, EnableStep::CheckInstalled(s), then, EnableStep::Done(Ok(())), count),
        other != crate::text::trimmed(given),
    ensures
        ({
            let id = crate::text::trimmed(given);
            let was = base.records[id];
            let is = then.records[id];
            &&& base.records.contains_key(id)
            &&& then.records.dom() == base.records.dom()
            &&& is.enabled == enabled
            &&& is == (InstalledServer { enabled: is.enabled, ..was })
            &&& base.records.contains_key(other) ==> then.records[other] == base.records[other]
            &&& then.env == base.env
            &&& then.live.contains(other) <==> base.live.contains(other)
            &&& then.failures.contains(other) <==> base.failures.contains(other)
            &&& enabled ==> then.live == base.live && then.failures == base.failures
            &&& !enabled ==> !then.live.contains(id) && !then.failures.contains(id)
        }),
{
    turning_an_install_on_or_off_keeps_everything_else(base, s, then, count);
    assert(then.records.dom() =~= base.records.dom());
}

} // verus!
