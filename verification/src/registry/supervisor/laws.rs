//! What holds of every supervisor cycle.
use vstd::prelude::*;

use super::backoff::BackoffState;
use super::model::{StepModel, SupervisorModel, WalkModel, World};
use super::report::{ProbeOutcome, ServerRef, SupervisorEvent};
use super::types::ConnectFailure;
use crate::bus::InstalledServer;

verus! {

/// Whether a step stands at an install that is there and turned on.
pub open spec fn step_valid(step: StepModel) -> bool {
    match step {
        StepModel::CheckSession(w) => walk_valid(w),
        StepModel::Probe(w) => walk_valid(w),
        StepModel::Disconnect(w) => walk_valid(w),
        StepModel::Dial(w) => walk_valid(w),
        StepModel::Finished(_) => true,
    }
}

/// Whether a walk stands at an install that is there and turned on.
pub open spec fn walk_valid(w: WalkModel) -> bool {
    0 <= w.at < w.servers.len() && super::model::current(w).enabled
}

/// The step after `step`, where every server answers as `worlds` says.
pub open spec fn answered(m: SupervisorModel, step: StepModel, worlds: Seq<World>) -> (
    SupervisorModel,
    StepModel,
) {
    match step {
        StepModel::CheckSession(w) => super::model::after_check(m, w, worlds[w.at].connected),
        StepModel::Probe(w) => super::model::after_probe(m, w, worlds[w.at].probe),
        StepModel::Disconnect(w) => super::model::attempt(m, w),
        StepModel::Dial(w) => super::model::after_dial(m, w, worlds[w.at].dial),
        StepModel::Finished(_) => (m, step),
    }
}

/// A bound on how many answers a cycle still waits for.
pub open spec fn answers_left(step: StepModel) -> int {
    match step {
        StepModel::CheckSession(w) => 4 * (w.servers.len() - w.at),
        StepModel::Probe(w) => 4 * (w.servers.len() - w.at) - 1,
        StepModel::Disconnect(w) => 4 * (w.servers.len() - w.at) - 2,
        StepModel::Dial(w) => 4 * (w.servers.len() - w.at) - 3,
        StepModel::Finished(_) => 0,
    }
}

/// Where a cycle ends after at most `answers` answers: what the supervisor
/// then knows and what it reports, or `None` where that many do not end it.
pub open spec fn run(m: SupervisorModel, step: StepModel, worlds: Seq<World>, answers: nat) -> Option<
    (SupervisorModel, Seq<SupervisorEvent>),
>
    decreases answers,
{
    match step {
        StepModel::Finished(events) => Some((m, events)),
        _ => if answers == 0 {
            None
        } else {
            let (next, then) = answered(m, step, worlds);
            run(next, then, worlds, (answers - 1) as nat)
        },
    }
}

/// What a cycle under way comes to.
pub open spec fn rest(m: SupervisorModel, w: WalkModel, worlds: Seq<World>) -> (
    SupervisorModel,
    Seq<SupervisorEvent>,
) {
    let (last, more) = super::model::cycle(m, w.servers, w.at, w.now, worlds);
    (last, w.events + more)
}

/// What a cycle that stands at `step` comes to.
pub open spec fn outcome(m: SupervisorModel, step: StepModel, worlds: Seq<World>) -> (
    SupervisorModel,
    Seq<SupervisorEvent>,
) {
    match step {
        StepModel::CheckSession(w) => rest(m, w, worlds),
        StepModel::Probe(w) => {
            let (next, events) = super::model::probed(
                m,
                super::model::current(w),
                w.now,
                worlds[w.at],
            );
            rest(next, super::model::past(w, events), worlds)
        },
        StepModel::Disconnect(w) => {
            let (next, events) = super::model::reconnected(
                m,
                super::model::current(w),
                w.now,
                worlds[w.at].dial,
            );
            rest(next, super::model::past(w, events), worlds)
        },
        StepModel::Dial(w) => {
            let (next, events) = super::model::dialled(
                m,
                super::model::current(w),
                w.now,
                worlds[w.at].dial,
            );
            rest(next, super::model::past(w, events), worlds)
        },
        StepModel::Finished(events) => (m, events),
    }
}

/// Going to the next server that is turned on changes nothing of what the
/// cycle comes to.
pub proof fn lemma_seek(m: SupervisorModel, w: WalkModel, worlds: Seq<World>)
    requires
        0 <= w.at <= w.servers.len(),
    ensures
        ({
            let (next, step) = super::model::seek(m, w);
            &&& step_valid(step)
            &&& outcome(next, step, worlds) == rest(m, w, worlds)
            &&& 0 <= answers_left(step) <= 4 * (w.servers.len() - w.at)
        }),
    decreases w.servers.len() - w.at,
{
    if w.at >= w.servers.len() {
        assert(w.events + Seq::<SupervisorEvent>::empty() == w.events);
    } else if !super::model::current(w).enabled {
        let id = super::model::current(w).server_id@;
        let ahead = super::model::past(w, seq![]);
        let forgotten = super::model::forget(m, id);
        assert(w.events + Seq::<SupervisorEvent>::empty() == w.events);
        lemma_seek(forgotten, ahead, worlds);
        let (last, more) = super::model::cycle(forgotten, w.servers, w.at + 1, w.now, worlds);
        assert(Seq::<SupervisorEvent>::empty() + more == more);
    }
}

/// An answer brings a cycle nearer its end and changes nothing of what it
/// comes to.
pub proof fn lemma_answer(m: SupervisorModel, step: StepModel, worlds: Seq<World>)
    requires
        step_valid(step),
        !(step is Finished),
    ensures
        ({
            let (next, then) = answered(m, step, worlds);
            &&& step_valid(then)
            &&& outcome(next, then, worlds) == outcome(m, step, worlds)
            &&& 0 <= answers_left(then) < answers_left(step)
        }),
{
    let w = match step {
        StepModel::CheckSession(w) => w,
        StepModel::Probe(w) => w,
        StepModel::Disconnect(w) => w,
        StepModel::Dial(w) => w,
        StepModel::Finished(_) => arbitrary(),
    };
    let server = super::model::current(w);
    let id = server.server_id@;
    let world = worlds[w.at];
    match step {
        StepModel::CheckSession(_) => {
            let (there, events) = super::model::server_cycle(m, server, w.now, world);
            let (last, more) = super::model::cycle(there, w.servers, w.at + 1, w.now, worlds);
            assert(w.events + (events + more) == (w.events + events) + more);
            if !world.connected {
                lemma_attempt(super::model::end_streak(m, id), w, worlds);
            }
        },
        StepModel::Probe(_) => {
            if super::model::ends_session(m, id, world.probe) {
                let dropped = super::model::drop_event(m, server, world.probe);
                let (there, events) = super::model::reconnected(
                    super::model::clear_counts(m, id),
                    server,
                    w.now,
                    world.dial,
                );
                assert(w.events + (seq![dropped] + events) == w.events.push(dropped) + events);
            } else {
                let (there, event) = super::model::probe_kept(m, server, world.probe);
                lemma_seek(there, super::model::past(w, seq![event]), worlds);
            }
        },
        StepModel::Disconnect(_) => {
            lemma_attempt(m, w, worlds);
        },
        StepModel::Dial(_) => {
            let (there, events) = super::model::dialled(m, server, w.now, world.dial);
            lemma_seek(there, super::model::past(w, events), worlds);
        },
        StepModel::Finished(_) => {},
    }
}

/// Dialling, or holding back, is what reconnecting means.
proof fn lemma_attempt(m: SupervisorModel, w: WalkModel, worlds: Seq<World>)
    requires
        walk_valid(w),
    ensures
        ({
            let (next, then) = super::model::attempt(m, w);
            let (there, events) = super::model::reconnected(
                m,
                super::model::current(w),
                w.now,
                worlds[w.at].dial,
            );
            &&& step_valid(then)
            &&& outcome(next, then, worlds) == rest(there, super::model::past(w, events), worlds)
            &&& 0 <= answers_left(then) <= 4 * (w.servers.len() - w.at) - 3
        }),
{
    if super::model::held_back(m, super::model::current(w).server_id@, w.now) {
        lemma_seek(m, super::model::past(w, seq![]), worlds);
    }
}

/// A cycle that stands at `step` runs to its end.
proof fn lemma_run(m: SupervisorModel, step: StepModel, worlds: Seq<World>, answers: nat)
    requires
        step_valid(step),
        0 <= answers_left(step) <= answers,
    ensures
        run(m, step, worlds, answers) == Some(outcome(m, step, worlds)),
    decreases answers,
{
    if !(step is Finished) {
        lemma_answer(m, step, worlds);
        let (next, then) = answered(m, step, worlds);
        lemma_run(next, then, worlds, (answers - 1) as nat);
    }
}

/// A cycle always ends, after at most four answers per install, and comes to
/// exactly what its installs come to, one after the other.
pub proof fn a_cycle_comes_to_what_its_installs_come_to(
    m: SupervisorModel,
    servers: Seq<InstalledServer>,
    now: u64,
    worlds: Seq<World>,
)
    ensures
        ({
            let (first, step) = super::model::seek(
                m,
                (WalkModel { servers, at: 0, now, events: Seq::empty() }),
            );
            run(first, step, worlds, 4 * servers.len()) == Some(
                super::model::cycle(m, servers, 0, now, worlds),
            )
        }),
{
    let w = WalkModel { servers, at: 0, now, events: Seq::empty() };
    lemma_seek(m, w, worlds);
    let (first, step) = super::model::seek(m, w);
    lemma_run(first, step, worlds, 4 * servers.len());
    let (last, events) = super::model::cycle(m, servers, 0, now, worlds);
    assert(w.events + events == events);
}

/// What a supervisor remembers of one server.
pub open spec fn memory(m: SupervisorModel, id: Seq<char>) -> (
    Option<BackoffState>,
    bool,
    Option<u32>,
) {
    (
        if m.backoff.contains_key(id) {
            Some(m.backoff[id])
        } else {
            None
        },
        m.parked.contains(id),
        if m.streaks.contains_key(id) {
            Some(m.streaks[id])
        } else {
            None
        },
    )
}

/// What one cycle does about one server leaves what is remembered of every
/// other server alone.
pub proof fn a_server_touches_no_other(
    m: SupervisorModel,
    server: InstalledServer,
    now: u64,
    world: World,
    other: Seq<char>,
)
    requires
        other != server.server_id@,
    ensures
        memory(super::model::server_cycle(m, server, now, world).0, other) == memory(m, other),
{
}

/// No cycle changes how the supervisor was set up.
pub proof fn a_cycle_changes_no_setting(
    m: SupervisorModel,
    servers: Seq<InstalledServer>,
    at: int,
    now: u64,
    worlds: Seq<World>,
)
    ensures
        ({
            let last = super::model::cycle(m, servers, at, now, worlds).0;
            &&& last.config == m.config
            &&& last.identity == m.identity
            &&& last.proxy == m.proxy
            &&& last.teardown_after == m.teardown_after
        }),
    decreases servers.len() - at,
{
    if 0 <= at < servers.len() {
        let (next, events) = super::model::server_cycle(m, servers[at], now, worlds[at]);
        a_cycle_changes_no_setting(next, servers, at + 1, now, worlds);
    }
}

/// What a cycle does about a server depends on nothing but what is remembered
/// of that server.
proof fn lemma_only_own_memory(
    a: SupervisorModel,
    b: SupervisorModel,
    server: InstalledServer,
    now: u64,
    world: World,
)
    requires
        memory(a, server.server_id@) == memory(b, server.server_id@),
        a.teardown_after == b.teardown_after,
    ensures
        ({
            let (x, xs) = super::model::server_cycle(a, server, now, world);
            let (y, ys) = super::model::server_cycle(b, server, now, world);
            xs == ys && memory(x, server.server_id@) == memory(y, server.server_id@)
        }),
{
    let id = server.server_id@;
    assert(super::model::penalty(a, id) == super::model::penalty(b, id));
    assert(super::model::streak(a, id) == super::model::streak(b, id));
}

/// Whether no two installs share an identifier.
pub open spec fn distinct(servers: Seq<InstalledServer>) -> bool {
    forall|i: int, j: int|
        0 <= i < j < servers.len() ==> (#[trigger] servers[i]).server_id@ != (
        #[trigger] servers[j]).server_id@
}

/// A server that the rest of a cycle does not walk is left alone by it.
proof fn lemma_unwalked(
    m: SupervisorModel,
    servers: Seq<InstalledServer>,
    at: int,
    now: u64,
    worlds: Seq<World>,
    id: Seq<char>,
)
    requires
        0 <= at,
        forall|i: int| at <= i < servers.len() ==> (#[trigger] servers[i]).server_id@ != id,
    ensures
        memory(super::model::cycle(m, servers, at, now, worlds).0, id) == memory(m, id),
    decreases servers.len() - at,
{
    if at < servers.len() {
        let (next, events) = super::model::server_cycle(m, servers[at], now, worlds[at]);
        a_server_touches_no_other(m, servers[at], now, worlds[at], id);
        lemma_unwalked(next, servers, at + 1, now, worlds, id);
    }
}

/// Installs are supervised independently: what a cycle comes to for one of
/// them is what it would come to were it the only one.
pub proof fn installs_are_supervised_independently(
    m: SupervisorModel,
    servers: Seq<InstalledServer>,
    now: u64,
    worlds: Seq<World>,
    which: int,
)
    requires
        distinct(servers),
        0 <= which < servers.len(),
    ensures
        memory(
            super::model::cycle(m, servers, 0, now, worlds).0,
            servers[which].server_id@,
        ) == memory(
            super::model::server_cycle(m, servers[which], now, worlds[which]).0,
            servers[which].server_id@,
        ),
{
    lemma_independent(m, m, servers, 0, now, worlds, which);
}

proof fn lemma_independent(
    m: SupervisorModel,
    reached: SupervisorModel,
    servers: Seq<InstalledServer>,
    at: int,
    now: u64,
    worlds: Seq<World>,
    which: int,
)
    requires
        distinct(servers),
        0 <= at <= which < servers.len(),
        memory(m, servers[which].server_id@) == memory(reached, servers[which].server_id@),
        m.teardown_after == reached.teardown_after,
    ensures
        memory(
            super::model::cycle(reached, servers, at, now, worlds).0,
            servers[which].server_id@,
        ) == memory(
            super::model::server_cycle(m, servers[which], now, worlds[which]).0,
            servers[which].server_id@,
        ),
    decreases servers.len() - at,
{
    let id = servers[which].server_id@;
    let (next, events) = super::model::server_cycle(reached, servers[at], now, worlds[at]);
    if at == which {
        lemma_only_own_memory(m, reached, servers[which], now, worlds[which]);
        assert forall|i: int| at + 1 <= i < servers.len() implies (
        #[trigger] servers[i]).server_id@ != id by {
            assert(servers[which].server_id@ != servers[i].server_id@);
        }
        lemma_unwalked(next, servers, at + 1, now, worlds, id);
    } else {
        assert(servers[at].server_id@ != servers[which].server_id@);
        a_server_touches_no_other(reached, servers[at], now, worlds[at], id);
        lemma_independent(m, next, servers, at + 1, now, worlds, which);
    }
}

/// Whether a cycle has nothing to say of a server: it is turned off, or has no
/// session and is parked or waiting out a backoff.
pub open spec fn quiet(m: SupervisorModel, server: InstalledServer, now: u64, world: World) -> bool {
    !server.enabled || (!world.connected && super::model::held_back(m, server.server_id@, now))
}

/// A report is empty exactly where every install is turned off, or has no
/// session and is parked or waiting out a backoff.
pub proof fn an_empty_report_means_nothing_to_say(
    m: SupervisorModel,
    servers: Seq<InstalledServer>,
    now: u64,
    worlds: Seq<World>,
)
    requires
        distinct(servers),
    ensures
        super::model::cycle(m, servers, 0, now, worlds).1.len() == 0 <==> forall|i: int|
            0 <= i < servers.len() ==> #[trigger] quiet(m, servers[i], now, worlds[i]),
{
    lemma_quiet(m, m, servers, 0, now, worlds);
}

proof fn lemma_quiet(
    m: SupervisorModel,
    reached: SupervisorModel,
    servers: Seq<InstalledServer>,
    at: int,
    now: u64,
    worlds: Seq<World>,
)
    requires
        distinct(servers),
        0 <= at <= servers.len(),
        m.teardown_after == reached.teardown_after,
        forall|i: int|
            at <= i < servers.len() ==> memory(m, (#[trigger] servers[i]).server_id@) == memory(
                reached,
                servers[i].server_id@,
            ),
    ensures
        super::model::cycle(reached, servers, at, now, worlds).1.len() == 0 <==> forall|i: int|
            at <= i < servers.len() ==> #[trigger] quiet(m, servers[i], now, worlds[i]),
    decreases servers.len() - at,
{
    if at < servers.len() {
        let server = servers[at];
        let id = server.server_id@;
        let (next, events) = super::model::server_cycle(reached, server, now, worlds[at]);
        assert(super::model::penalty(m, id) == super::model::penalty(reached, id));
        assert(quiet(m, server, now, worlds[at]) <==> events.len() == 0);
        assert forall|i: int| at + 1 <= i < servers.len() implies memory(
            m,
            (#[trigger] servers[i]).server_id@,
        ) == memory(next, servers[i].server_id@) by {
            assert(servers[at].server_id@ != servers[i].server_id@);
            a_server_touches_no_other(reached, server, now, worlds[at], servers[i].server_id@);
        }
        lemma_quiet(m, next, servers, at + 1, now, worlds);
        assert((forall|i: int|
            at <= i < servers.len() ==> #[trigger] quiet(m, servers[i], now, worlds[i])) <==> (quiet(
            m,
            servers[at],
            now,
            worlds[at],
        ) && forall|i: int|
            at + 1 <= i < servers.len() ==> #[trigger] quiet(m, servers[i], now, worlds[i])));
    }
}

/// Every event of a cycle is about an install that is turned on, and of one
/// install there are at most two: a dropped session, then what reconnecting
/// came to.
pub proof fn the_events_of_one_install(
    m: SupervisorModel,
    server: InstalledServer,
    now: u64,
    world: World,
)
    ensures
        ({
            let events = super::model::server_cycle(m, server, now, world).1;
            &&& events.len() <= 2
            &&& events.len() > 0 ==> server.enabled
            &&& forall|i: int|
                0 <= i < events.len() ==> super::report::subject(#[trigger] events[i])
                    == super::report::ref_of(server)
            &&& forall|i: int|
                0 <= i < events.len() ==> (#[trigger] events[i] is TransportDropped ==> i == 0)
            &&& events.len() == 2 ==> events[0] is TransportDropped
        }),
{
}

/// A dropped session is never one that answered, and its streak is zero unless
/// a timeout ended it; a session that timed out is kept only while the streak
/// is short of the limit.
pub proof fn a_session_ends_for_a_reason(
    m: SupervisorModel,
    server: InstalledServer,
    now: u64,
    world: World,
    which: int,
)
    requires
        0 <= which < super::model::server_cycle(m, server, now, world).1.len(),
    ensures
        match super::model::server_cycle(m, server, now, world).1[which] {
            SupervisorEvent::TransportDropped { outcome, consecutive_timeouts, .. } => match outcome {
                ProbeOutcome::Alive { .. } => false,
                ProbeOutcome::TimedOut { .. } => consecutive_timeouts >= m.teardown_after,
                ProbeOutcome::Failed { .. } => consecutive_timeouts == 0,
            },
            SupervisorEvent::ProbeTimedOut { consecutive, teardown_after, .. } => teardown_after
                == m.teardown_after && consecutive < teardown_after,
            _ => true,
        },
{
}

/// A supervisor's memory is sound where every penalty was earned by a failure
/// and no parked server carries one.
pub open spec fn sound(m: SupervisorModel) -> bool {
    &&& forall|id: Seq<char>| #[trigger]
        m.backoff.contains_key(id) ==> m.backoff[id].failures >= 1
    &&& forall|id: Seq<char>| #[trigger] m.parked.contains(id) ==> !m.backoff.contains_key(id)
}

/// Every cycle keeps a supervisor's memory sound.
pub proof fn a_cycle_keeps_memory_sound(
    m: SupervisorModel,
    servers: Seq<InstalledServer>,
    at: int,
    now: u64,
    worlds: Seq<World>,
)
    requires
        sound(m),
    ensures
        sound(super::model::cycle(m, servers, at, now, worlds).0),
    decreases servers.len() - at,
{
    if 0 <= at < servers.len() {
        let (next, events) = super::model::server_cycle(m, servers[at], now, worlds[at]);
        assert(sound(next));
        a_cycle_keeps_memory_sound(next, servers, at + 1, now, worlds);
    }
}

/// A disabled server is neither probed nor dialled, nothing is remembered of
/// it, and turning it back on gets it an immediate attempt.
pub proof fn a_disabled_install_starts_afresh(
    m: SupervisorModel,
    server: InstalledServer,
    now: u64,
    world: World,
    later: u64,
)
    requires
        !server.enabled,
    ensures
        ({
            let (next, events) = super::model::server_cycle(m, server, now, world);
            &&& events.len() == 0
            &&& memory(next, server.server_id@) == (None::<BackoffState>, false, None::<u32>)
            &&& !super::model::held_back(next, server.server_id@, later)
        }),
{
}

/// A server that is parked stays parked, with no penalty and no attempt, for
/// as long as it is turned on.
pub proof fn a_parked_install_is_not_dialled(
    m: SupervisorModel,
    server: InstalledServer,
    now: u64,
    world: World,
)
    requires
        sound(m),
        server.enabled,
        m.parked.contains(server.server_id@),
    ensures
        ({
            let (next, events) = super::model::server_cycle(m, server, now, world);
            &&& next.parked.contains(server.server_id@)
            &&& !next.backoff.contains_key(server.server_id@)
            &&& forall|i: int|
                0 <= i < events.len() ==> !(#[trigger] events[i] is Reconnected)
                    && !(events[i] is ReconnectFailed) && !(events[i] is Parked)
        }),
{
}

/// A failure that retrying cannot fix parks the server and costs it no
/// penalty.
pub proof fn a_terminal_failure_parks(
    m: SupervisorModel,
    server: InstalledServer,
    now: u64,
    world: World,
    failure: ConnectFailure,
)
    requires
        server.enabled,
        !world.connected,
        !super::model::held_back(m, server.server_id@, now),
        world.dial == Err::<usize, ConnectFailure>(failure),
        failure.terminal,
    ensures
        ({
            let (next, events) = super::model::server_cycle(m, server, now, world);
            &&& next.parked.contains(server.server_id@)
            &&& !next.backoff.contains_key(server.server_id@)
            &&& events == seq![
                SupervisorEvent::Parked {
                    server: super::report::ref_of(server),
                    error: failure.text,
                },
            ]
        }),
{
}

/// Any other failure earns a penalty: one more failure in a row, and no
/// attempt before the wait that they imply has passed.
pub proof fn a_failed_attempt_earns_a_growing_penalty(
    m: SupervisorModel,
    server: InstalledServer,
    now: u64,
    world: World,
    failure: ConnectFailure,
    later: u64,
)
    requires
        server.enabled,
        !world.connected,
        !super::model::held_back(m, server.server_id@, now),
        world.dial == Err::<usize, ConnectFailure>(failure),
        !failure.terminal,
    ensures
        ({
            let id = server.server_id@;
            let (next, events) = super::model::server_cycle(m, server, now, world);
            let failures = super::model::one_more(super::model::penalty(m, id).failures);
            &&& super::model::penalty(next, id) == (BackoffState { failures, failed_at: now })
            &&& super::model::held_back(next, id, later) <==> later < now + super::backoff::delay(
                failures as nat,
            )
        }),
{
}

/// A server inside its window is not retried: its penalty stands as it was,
/// and there is nothing to report.
pub proof fn an_install_inside_its_window_is_not_retried(
    m: SupervisorModel,
    server: InstalledServer,
    now: u64,
    world: World,
)
    requires
        server.enabled,
        !world.connected,
        !super::backoff::may_attempt(super::model::penalty(m, server.server_id@), now),
    ensures
        ({
            let (next, events) = super::model::server_cycle(m, server, now, world);
            events.len() == 0 && next.backoff == m.backoff && next.parked == m.parked
        }),
{
}

/// A server that connects, or answers its probe, carries no penalty
/// afterwards.
pub proof fn a_working_install_carries_no_penalty(
    m: SupervisorModel,
    server: InstalledServer,
    now: u64,
    world: World,
)
    requires
        server.enabled,
        world.connected ==> world.probe is Alive,
        !world.connected ==> world.dial is Ok && !super::model::held_back(
            m,
            server.server_id@,
            now,
        ),
    ensures
        ({
            let (next, events) = super::model::server_cycle(m, server, now, world);
            &&& !next.backoff.contains_key(server.server_id@)
            &&& super::model::streak(next, server.server_id@) == 0
            &&& events.len() == 1
            &&& world.connected ==> events[0] is ProbeAnswered
            &&& !world.connected ==> events[0] is Reconnected
        }),
{
}

/// A session that is ended is rebuilt in the same cycle: a server that is not
/// parked is dialled, whatever penalty it earned before it was last connected,
/// and what the dial came to is reported behind the drop. A success counts no
/// failures before it, and a failure is the first of its row.
pub proof fn an_ended_session_is_rebuilt_in_the_same_cycle(
    m: SupervisorModel,
    server: InstalledServer,
    now: u64,
    world: World,
)
    requires
        server.enabled,
        world.connected,
        super::model::ends_session(m, server.server_id@, world.probe),
        !m.parked.contains(server.server_id@),
    ensures
        ({
            let name = super::report::ref_of(server);
            let (next, events) = super::model::server_cycle(m, server, now, world);
            &&& events.len() == 2
            &&& events[0] == super::model::drop_event(m, server, world.probe)
            &&& match world.dial {
                Ok(tools) => events[1] == (SupervisorEvent::Reconnected {
                    server: name,
                    tools,
                    after_failures: 0,
                }) && !next.backoff.contains_key(server.server_id@),
                Err(failure) => if failure.terminal {
                    events[1] == (SupervisorEvent::Parked { server: name, error: failure.text })
                } else {
                    events[1] == (SupervisorEvent::ReconnectFailed {
                        server: name,
                        error: failure.text,
                        failures: 1,
                        retry_in: super::backoff::BACKOFF_BASE,
                    })
                },
            }
        }),
{
    super::backoff::the_delay_doubles_up_to_the_cap(1);
}

/// Once a session was ended, a dial is what is wanted next, unless the server
/// is parked.
pub proof fn a_dial_follows_an_ended_session(m: SupervisorModel, w: WalkModel, probe: ProbeOutcome)
    requires
        super::model::ends_session(m, super::model::current(w).server_id@, probe),
        !m.parked.contains(super::model::current(w).server_id@),
    ensures
        ({
            let (next, step) = super::model::after_probe(m, w, probe);
            step matches StepModel::Disconnect(ended) && super::model::attempt(next, ended) == (
                next,
                StepModel::Dial(ended),
            )
        }),
{
}

/// One slow answer keeps its session under every limit above one: the session
/// of a server with no timeouts behind it is not ended by a timeout, and an
/// answer starts the count again.
pub proof fn one_slow_answer_keeps_its_session(
    m: SupervisorModel,
    server: InstalledServer,
    now: u64,
    world: World,
)
    requires
        server.enabled,
        world.connected,
        world.probe is TimedOut,
        super::model::streak(m, server.server_id@) == 0,
        m.teardown_after > 1,
    ensures
        ({
            let (next, events) = super::model::server_cycle(m, server, now, world);
            &&& events.len() == 1
            &&& events[0] is ProbeTimedOut
            &&& super::model::streak(next, server.server_id@) == 1
            &&& next.backoff == m.backoff
        }),
{
}

/// One tick that a supervisor was given: the installs as the store listed
/// them, unless it could not be read, and what each would answer.
pub struct TickModel {
    /// The installs, where the store could be read.
    pub listed: Option<Seq<InstalledServer>>,
    /// When the tick was.
    pub now: u64,
    /// What each install would answer.
    pub worlds: Seq<World>,
}

/// What one tick saw of one install, and what it reported of it.
pub struct Visit {
    /// The install.
    pub server: InstalledServer,
    /// What was reported.
    pub events: Seq<SupervisorEvent>,
}

/// What a supervisor knows after one tick.
pub open spec fn after_tick(m: SupervisorModel, tick: TickModel) -> SupervisorModel {
    match tick.listed {
        Some(servers) => super::model::cycle(m, servers, 0, tick.now, tick.worlds).0,
        None => m,
    }
}

/// What a supervisor knows after these ticks.
pub open spec fn after_ticks(m: SupervisorModel, ticks: Seq<TickModel>) -> SupervisorModel
    decreases ticks.len(),
{
    if ticks.len() == 0 {
        m
    } else {
        after_tick(after_ticks(m, ticks.drop_last()), ticks.last())
    }
}

/// The visits of a cycle from the server at `at` on.
pub open spec fn cycle_visits(
    m: SupervisorModel,
    servers: Seq<InstalledServer>,
    at: int,
    now: u64,
    worlds: Seq<World>,
) -> Seq<Visit>
    decreases servers.len() - at,
{
    if at < 0 || at >= servers.len() {
        seq![]
    } else {
        let (next, events) = super::model::server_cycle(m, servers[at], now, worlds[at]);
        seq![Visit { server: servers[at], events }] + cycle_visits(
            next,
            servers,
            at + 1,
            now,
            worlds,
        )
    }
}

/// The visits of one tick.
pub open spec fn tick_visits(m: SupervisorModel, tick: TickModel) -> Seq<Visit> {
    match tick.listed {
        Some(servers) => cycle_visits(m, servers, 0, tick.now, tick.worlds),
        None => seq![],
    }
}

/// The visits of these ticks, in order.
pub open spec fn visits(m: SupervisorModel, ticks: Seq<TickModel>) -> Seq<Visit>
    decreases ticks.len(),
{
    if ticks.len() == 0 {
        seq![]
    } else {
        visits(m, ticks.drop_last()) + tick_visits(
            after_ticks(m, ticks.drop_last()),
            ticks.last(),
        )
    }
}

/// What visits reported, in order.
pub open spec fn reported(history: Seq<Visit>) -> Seq<SupervisorEvent>
    decreases history.len(),
{
    if history.len() == 0 {
        seq![]
    } else {
        history[0].events + reported(history.drop_first())
    }
}

/// A cycle's report is what its visits report, one after the other.
pub proof fn a_report_is_what_its_visits_report(
    m: SupervisorModel,
    servers: Seq<InstalledServer>,
    at: int,
    now: u64,
    worlds: Seq<World>,
)
    ensures
        super::model::cycle(m, servers, at, now, worlds).1 == reported(
            cycle_visits(m, servers, at, now, worlds),
        ),
    decreases servers.len() - at,
{
    if 0 <= at < servers.len() {
        let (next, events) = super::model::server_cycle(m, servers[at], now, worlds[at]);
        a_report_is_what_its_visits_report(next, servers, at + 1, now, worlds);
        let all = cycle_visits(m, servers, at, now, worlds);
        assert(all[0].events == events);
        assert(all.drop_first() =~= cycle_visits(next, servers, at + 1, now, worlds));
    }
}

/// Whether a visit attempted to connect this server, and failed in a way that
/// retrying may fix.
pub open spec fn failed_visit(visit: Visit, id: Seq<char>) -> bool {
    &&& visit.server.server_id@ == id
    &&& visit.events.len() > 0
    &&& visit.events.last() is ReconnectFailed
}

/// Whether a visit saw this server disabled, saw it answer its probe, or
/// attempted to connect it with any other outcome.
pub open spec fn settling_visit(visit: Visit, id: Seq<char>) -> bool {
    &&& visit.server.server_id@ == id
    &&& !visit.server.enabled || (visit.events.len() > 0 && (visit.events.last() is ProbeAnswered
        || visit.events.last() is Reconnected || visit.events.last() is Parked))
}

/// Whether the latest attempt to connect this server failed in a way that
/// retrying may fix, and no later visit saw it disabled or answering.
pub open spec fn owes(history: Seq<Visit>, id: Seq<char>) -> bool {
    exists|i: int|
        0 <= i < history.len() && failed_visit(#[trigger] history[i], id) && forall|j: int|
            i < j < history.len() ==> !settling_visit(#[trigger] history[j], id)
}

/// One more visit decides, or leaves what was so.
proof fn lemma_one_more_visit(history: Seq<Visit>, visit: Visit, id: Seq<char>)
    ensures
        owes(history.push(visit), id) <==> failed_visit(visit, id) || (owes(history, id)
            && !settling_visit(visit, id)),
{
    let longer = history.push(visit);
    let last = history.len() as int;
    if failed_visit(visit, id) {
        assert(failed_visit(longer[last], id));
        assert(owes(longer, id));
    } else if owes(history, id) && !settling_visit(visit, id) {
        let i = choose|i: int|
            0 <= i < history.len() && failed_visit(#[trigger] history[i], id) && forall|j: int|
                i < j < history.len() ==> !settling_visit(#[trigger] history[j], id);
        assert(failed_visit(longer[i], id));
        assert forall|j: int| i < j < longer.len() implies !settling_visit(
            #[trigger] longer[j],
            id,
        ) by {
            if j < last {
                assert(longer[j] == history[j]);
            }
        }
    }
    if owes(longer, id) && !failed_visit(visit, id) {
        let i = choose|i: int|
            0 <= i < longer.len() && failed_visit(#[trigger] longer[i], id) && forall|j: int|
                i < j < longer.len() ==> !settling_visit(#[trigger] longer[j], id);
        assert(i < last);
        assert(history[i] == longer[i]);
        assert forall|j: int| i < j < history.len() implies !settling_visit(
            #[trigger] history[j],
            id,
        ) by {
            assert(longer[j] == history[j]);
        }
        assert(!settling_visit(longer[last], id));
    }
}

/// What a visit does to a server's penalty is what it says of it.
proof fn lemma_visit_penalty(
    m: SupervisorModel,
    server: InstalledServer,
    now: u64,
    world: World,
    id: Seq<char>,
)
    requires
        sound(m),
    ensures
        ({
            let (next, events) = super::model::server_cycle(m, server, now, world);
            let visit = Visit { server, events };
            &&& sound(next)
            &&& next.backoff.contains_key(id) <==> failed_visit(visit, id) || (
            m.backoff.contains_key(id) && !settling_visit(visit, id))
        }),
{
    let sid = server.server_id@;
    if id != sid {
        a_server_touches_no_other(m, server, now, world, id);
        assert(memory(super::model::server_cycle(m, server, now, world).0, id) == memory(m, id));
    } else if m.parked.contains(sid) {
        assert(!m.backoff.contains_key(sid));
    }
}

/// Penalties follow what the visits of a cycle say.
proof fn lemma_cycle_penalties(
    m: SupervisorModel,
    servers: Seq<InstalledServer>,
    at: int,
    now: u64,
    worlds: Seq<World>,
    history: Seq<Visit>,
)
    requires
        0 <= at,
        sound(m),
        forall|id: Seq<char>| #[trigger] m.backoff.contains_key(id) <==> owes(history, id),
    ensures
        ({
            let last = super::model::cycle(m, servers, at, now, worlds).0;
            let longer = history + cycle_visits(m, servers, at, now, worlds);
            &&& sound(last)
            &&& forall|id: Seq<char>| #[trigger]
                last.backoff.contains_key(id) <==> owes(longer, id)
        }),
    decreases servers.len() - at,
{
    if at < servers.len() {
        let (next, events) = super::model::server_cycle(m, servers[at], now, worlds[at]);
        let visit = Visit { server: servers[at], events };
        let more = cycle_visits(next, servers, at + 1, now, worlds);
        lemma_visit_penalty(m, servers[at], now, worlds[at], servers[at].server_id@);
        assert forall|id: Seq<char>| #[trigger] next.backoff.contains_key(id) <==> owes(
            history.push(visit),
            id,
        ) by {
            lemma_visit_penalty(m, servers[at], now, worlds[at], id);
            lemma_one_more_visit(history, visit, id);
            assert(m.backoff.contains_key(id) <==> owes(history, id));
        }
        lemma_cycle_penalties(next, servers, at + 1, now, worlds, history.push(visit));
        assert(history.push(visit) + more =~= history + (seq![visit] + more));
    } else {
        assert(history + cycle_visits(m, servers, at, now, worlds) =~= history);
    }
}

proof fn lemma_ticks_penalties(m: SupervisorModel, ticks: Seq<TickModel>)
    requires
        m.backoff == Map::<Seq<char>, BackoffState>::empty(),
        m.parked == Set::<Seq<char>>::empty(),
    ensures
        sound(after_ticks(m, ticks)),
        forall|id: Seq<char>| #[trigger]
            after_ticks(m, ticks).backoff.contains_key(id) <==> owes(visits(m, ticks), id),
    decreases ticks.len(),
{
    if ticks.len() > 0 {
        let before = after_ticks(m, ticks.drop_last());
        let history = visits(m, ticks.drop_last());
        let tick = ticks.last();
        lemma_ticks_penalties(m, ticks.drop_last());
        match tick.listed {
            Some(servers) => {
                lemma_cycle_penalties(before, servers, 0, tick.now, tick.worlds, history);
            },
            None => {
                assert(history + tick_visits(before, tick) =~= history);
            },
        }
    }
}

/// After any number of ticks of a new supervisor, the servers that carry a
/// penalty are exactly those whose latest attempt to connect failed in a way
/// that retrying may fix and which no later tick saw disabled or answering
/// their probe. Their number, each counted once however often it failed, is
/// the number of penalties; before the first tick there is none.
pub proof fn penalties_are_the_attempts_that_failed_last(
    m: SupervisorModel,
    ticks: Seq<TickModel>,
    owing: Set<Seq<char>>,
)
    requires
        m.backoff == Map::<Seq<char>, BackoffState>::empty(),
        m.parked == Set::<Seq<char>>::empty(),
        forall|id: Seq<char>| #[trigger] owing.contains(id) <==> owes(visits(m, ticks), id),
    ensures
        after_ticks(m, ticks).backoff.dom() == owing,
        after_ticks(m, ticks).backoff.dom().len() == owing.len(),
        ticks.len() == 0 ==> owing.len() == 0,
{
    lemma_ticks_penalties(m, ticks);
    assert(after_ticks(m, ticks).backoff.dom() =~= owing) by {
        assert forall|id: Seq<char>| after_ticks(m, ticks).backoff.dom().contains(id)
            <==> owing.contains(id) by {
            assert(after_ticks(m, ticks).backoff.contains_key(id) <==> owing.contains(id));
        }
    }
}

/// Whether a name is that of an install: its identifier, its qualified name and
/// its display name, each in its place.
pub open spec fn names_install(name: ServerRef, server: InstalledServer) -> bool {
    &&& name.server_id == server.server_id
    &&& name.qualified_name == server.qualified_name
    &&& name.display_name == server.display_name
}

/// A connected install that answers its probe is reported once, under its own
/// names and with the very round trip that was measured. Its session is kept,
/// and nothing is held against it afterwards.
pub proof fn an_answered_probe_is_reported_as_measured(
    m: SupervisorModel,
    server: InstalledServer,
    now: u64,
    world: World,
    measured: u64,
)
    requires
        server.enabled,
        world.connected,
        world.probe == (ProbeOutcome::Alive { elapsed: measured }),
    ensures
        ({
            let (next, events) = super::model::server_cycle(m, server, now, world);
            &&& events.len() == 1
            &&& events[0] matches SupervisorEvent::ProbeAnswered { server: name, elapsed }
                && elapsed == measured && names_install(name, server)
            &&& next.backoff == m.backoff.remove(server.server_id@)
            &&& next.streaks == m.streaks.remove(server.server_id@)
            &&& next.parked == m.parked
        }),
{
}

/// A connected install that stays silent is reported once, under its own names,
/// with the window that elapsed, the streak that this makes and the limit in
/// force, as long as the streak is short of the limit. Its session is kept, the
/// streak is remembered, and nothing else changes.
pub proof fn a_silent_probe_is_reported_with_its_streak(
    m: SupervisorModel,
    server: InstalledServer,
    now: u64,
    world: World,
    window: u64,
    before: u32,
)
    requires
        server.enabled,
        world.connected,
        world.probe == (ProbeOutcome::TimedOut { after: window }),
        before == if m.streaks.contains_key(server.server_id@) {
            m.streaks[server.server_id@]
        } else {
            0u32
        },
        before + 1 < m.teardown_after,
    ensures
        ({
            let (next, events) = super::model::server_cycle(m, server, now, world);
            &&& events.len() == 1
            &&& events[0] matches SupervisorEvent::ProbeTimedOut {
                server: name,
                after,
                consecutive,
                teardown_after,
            } && after == window && consecutive == before + 1 && teardown_after
                == m.teardown_after && names_install(name, server)
            &&& next.streaks == m.streaks.insert(server.server_id@, (before + 1) as u32)
            &&& next.backoff == m.backoff
            &&& next.parked == m.parked
        }),
{
}

/// Whether an event says what a dial came to, made at `now` after `before`
/// failures in a row: how many tools the server has, or the failure in its own
/// words, with one more failure in the row and the wait that follows, or, where
/// retrying cannot help, that the server is parked.
pub open spec fn tells_the_dial(
    event: SupervisorEvent,
    server: InstalledServer,
    dial: Result<usize, ConnectFailure>,
    before: u32,
) -> bool {
    match dial {
        Ok(found) => event matches SupervisorEvent::Reconnected {
            server: name,
            tools,
            after_failures,
        } && tools == found && after_failures == before && names_install(name, server),
        Err(failure) => if failure.terminal {
            event matches SupervisorEvent::Parked { server: name, error } && error == failure.text
                && names_install(name, server)
        } else {
            event matches SupervisorEvent::ReconnectFailed {
                server: name,
                error,
                failures,
                retry_in,
            } && error == failure.text && names_install(name, server) && (before < u32::MAX
                ==> failures == before + 1) && retry_in == super::backoff::delay(failures as nat)
        },
    }
}

/// Whether a dial at `now`, after `before` failures in a row, took what is held
/// against a server from one state to another: nothing after a success, the
/// parking alone after a failure beyond retrying, and one more failure, as of
/// now, after any other.
pub open spec fn remembers_the_dial(
    m: SupervisorModel,
    next: SupervisorModel,
    id: Seq<char>,
    now: u64,
    dial: Result<usize, ConnectFailure>,
    before: u32,
) -> bool {
    &&& match dial {
        Ok(_) => next.backoff == m.backoff.remove(id) && next.parked == m.parked,
        Err(failure) => if failure.terminal {
            next.backoff == m.backoff.remove(id) && next.parked == m.parked.insert(id)
        } else {
            &&& next.parked == m.parked
            &&& next.backoff.dom() == m.backoff.dom().insert(id)
            &&& next.backoff.remove(id) == m.backoff.remove(id)
            &&& next.backoff[id].failed_at == now
            &&& before < u32::MAX ==> next.backoff[id].failures == before + 1
        },
    }
    &&& next.streaks == m.streaks.remove(id)
}

/// An install without a session, neither parked nor inside the wait that its
/// failures imply, is dialled: what the dial came to is reported, once, and
/// remembered.
pub proof fn an_install_without_a_session_is_dialled(
    m: SupervisorModel,
    server: InstalledServer,
    now: u64,
    world: World,
    before: u32,
)
    requires
        server.enabled,
        !world.connected,
        !m.parked.contains(server.server_id@),
        before == if m.backoff.contains_key(server.server_id@) {
            m.backoff[server.server_id@].failures
        } else {
            0u32
        },
        before > 0 ==> now >= m.backoff[server.server_id@].failed_at + super::backoff::delay(
            before as nat,
        ),
    ensures
        ({
            let (next, events) = super::model::server_cycle(m, server, now, world);
            &&& events.len() == 1
            &&& tells_the_dial(events[0], server, world.dial, before)
            &&& remembers_the_dial(m, next, server.server_id@, now, world.dial, before)
        }),
{
    let id = server.server_id@;
    let (next, events) = super::model::server_cycle(m, server, now, world);
    assert(next.backoff.remove(id) =~= m.backoff.remove(id));
    if world.dial matches Err(failure) && !failure.terminal {
        super::backoff::the_delay_never_shrinks(0, next.backoff[id].failures as nat);
        assert(next.backoff.dom() =~= m.backoff.dom().insert(id));
    }
}

/// An install without a session that is parked, or inside the wait that its
/// failures imply, is let be: nothing is reported, and what is held against it
/// stands.
pub proof fn an_install_held_back_is_let_be(
    m: SupervisorModel,
    server: InstalledServer,
    now: u64,
    world: World,
)
    requires
        server.enabled,
        !world.connected,
        m.parked.contains(server.server_id@) || (m.backoff.contains_key(server.server_id@)
            && m.backoff[server.server_id@].failures > 0 && now
            < m.backoff[server.server_id@].failed_at + super::backoff::delay(
            m.backoff[server.server_id@].failures as nat,
        )),
    ensures
        ({
            let (next, events) = super::model::server_cycle(m, server, now, world);
            &&& events.len() == 0
            &&& next.backoff == m.backoff
            &&& next.parked == m.parked
            &&& next.streaks == m.streaks.remove(server.server_id@)
        }),
{
}

/// A session whose transport was seen to fail, or that was silent as often in a
/// row as the limit says, is ended: reported first, under the install's own
/// names, with what the probe observed and the streak that ended it, none for a
/// failure. What the reconnect came to follows, as if nothing had failed before;
/// a parked install is not reconnected.
pub proof fn an_unusable_session_is_ended_and_reported(
    m: SupervisorModel,
    server: InstalledServer,
    now: u64,
    world: World,
    before: u32,
)
    requires
        server.enabled,
        world.connected,
        before == if m.streaks.contains_key(server.server_id@) {
            m.streaks[server.server_id@]
        } else {
            0u32
        },
        before < u32::MAX,
        world.probe is Failed || (world.probe is TimedOut && before + 1 >= m.teardown_after),
    ensures
        ({
            let id = server.server_id@;
            let (next, events) = super::model::server_cycle(m, server, now, world);
            &&& events.len() == if m.parked.contains(id) {
                1nat
            } else {
                2
            }
            &&& events[0] matches SupervisorEvent::TransportDropped {
                server: name,
                outcome,
                consecutive_timeouts,
            } && outcome == world.probe && names_install(name, server) && consecutive_timeouts
                == if world.probe is TimedOut {
                before + 1
            } else {
                0
            }
            &&& if m.parked.contains(id) {
                next.backoff == m.backoff.remove(id) && next.parked == m.parked && next.streaks
                    == m.streaks.remove(id)
            } else {
                tells_the_dial(events[1], server, world.dial, 0) && remembers_the_dial(
                    m,
                    next,
                    id,
                    now,
                    world.dial,
                    0,
                )
            }
        }),
{
    let id = server.server_id@;
    let (next, events) = super::model::server_cycle(m, server, now, world);
    assert(next.backoff.remove(id) =~= m.backoff.remove(id));
    assert(m.backoff.remove(id).remove(id) =~= m.backoff.remove(id));
    if world.dial matches Err(failure) && !failure.terminal && !m.parked.contains(id) {
        super::backoff::the_delay_never_shrinks(0, next.backoff[id].failures as nat);
        assert(next.backoff.dom() =~= m.backoff.dom().insert(id));
    }
}

/// A missing program is beyond retrying, and nothing else is: a server that
/// cannot be reached, fails or wants credentials is tried again.
pub proof fn only_a_missing_program_is_beyond_retrying(error: crate::error::Error)
    ensures
        super::model::beyond_retrying(error) <==> (error matches crate::error::Error::MissingRuntime {
            ..
        }),
        error is Transport || error is Http || error is Unauthorized || error is Rpc || error
            is MalformedResponse ==> !super::model::beyond_retrying(error),
{
}

} // verus!
