//! What a supervisor cycle means.
//!
//! A cycle is described twice. [`cycle`] says what one comes to, given what
//! every server would answer. The `after_` functions say what the supervisor
//! does next, answer by answer, which is how a host drives it.
use vstd::prelude::*;

use super::backoff::BackoffState;
use super::report::{ProbeOutcome, SupervisorEvent};
use super::types::{ConnectFailure, SupervisorConfig};
use crate::bus::{InstalledServer, McpClientIdentityConfig, McpProxyConfig};

verus! {

/// What a supervisor knows.
pub struct SupervisorModel {
    /// How it is paced.
    pub config: SupervisorConfig,
    /// What its clients say of themselves.
    pub identity: McpClientIdentityConfig,
    /// The proxies its clients go through.
    pub proxy: Option<McpProxyConfig>,
    /// The timeout streak at which a session is torn down.
    pub teardown_after: u32,
    /// The servers that carry a penalty.
    pub backoff: Map<Seq<char>, BackoffState>,
    /// The servers that are not dialled until they are disabled.
    pub parked: Set<Seq<char>>,
    /// How many probes in a row timed out on a session that was kept.
    pub streaks: Map<Seq<char>, u32>,
}

/// The penalty a server carries.
pub open spec fn penalty(m: SupervisorModel, id: Seq<char>) -> BackoffState {
    if m.backoff.contains_key(id) {
        m.backoff[id]
    } else {
        super::backoff::unburdened()
    }
}

/// The timeouts in a row that a server's session has behind it.
pub open spec fn streak(m: SupervisorModel, id: Seq<char>) -> u32 {
    if m.streaks.contains_key(id) {
        m.streaks[id]
    } else {
        0
    }
}

/// One more, as far as a count can go.
pub open spec fn one_more(n: u32) -> u32 {
    if n == u32::MAX {
        n
    } else {
        (n + 1) as u32
    }
}

/// Nothing remembered of a server.
pub open spec fn forget(m: SupervisorModel, id: Seq<char>) -> SupervisorModel {
    SupervisorModel {
        backoff: m.backoff.remove(id),
        parked: m.parked.remove(id),
        streaks: m.streaks.remove(id),
        ..m
    }
}

/// No penalty on a server.
pub open spec fn relieve(m: SupervisorModel, id: Seq<char>) -> SupervisorModel {
    SupervisorModel { backoff: m.backoff.remove(id), ..m }
}

/// No timeouts behind a server's session.
pub open spec fn end_streak(m: SupervisorModel, id: Seq<char>) -> SupervisorModel {
    SupervisorModel { streaks: m.streaks.remove(id), ..m }
}

/// Nothing counted against a server or its session: it was connected until
/// now, whatever failed before.
pub open spec fn clear_counts(m: SupervisorModel, id: Seq<char>) -> SupervisorModel {
    end_streak(relieve(m, id), id)
}

/// Whether trying again cannot help: a program that is not installed will not
/// appear because one waited.
pub open spec fn beyond_retrying(error: crate::error::Error) -> bool {
    error is MissingRuntime
}

/// What one server would answer during one cycle.
pub struct World {
    /// Whether it has a live session when it is looked at.
    pub connected: bool,
    /// What a probe of that session comes to.
    pub probe: ProbeOutcome,
    /// What dialling it comes to: how many tools it advertises, or a failure.
    pub dial: Result<usize, ConnectFailure>,
}

/// Whether a server is not to be dialled now.
pub open spec fn held_back(m: SupervisorModel, id: Seq<char>, now: u64) -> bool {
    m.parked.contains(id) || !super::backoff::may_attempt(penalty(m, id), now)
}

/// What dialling a server leaves behind.
pub open spec fn dialled(
    m: SupervisorModel,
    server: InstalledServer,
    now: u64,
    dial: Result<usize, ConnectFailure>,
) -> (SupervisorModel, Seq<SupervisorEvent>) {
    let id = server.server_id@;
    let name = super::report::ref_of(server);
    match dial {
        Ok(tools) => (
            relieve(m, id),
            seq![
                SupervisorEvent::Reconnected {
                    server: name,
                    tools,
                    after_failures: penalty(m, id).failures,
                },
            ],
        ),
        Err(failure) => if failure.terminal {
            (
                SupervisorModel {
                    backoff: m.backoff.remove(id),
                    parked: m.parked.insert(id),
                    ..m
                },
                seq![SupervisorEvent::Parked { server: name, error: failure.text }],
            )
        } else {
            let state = super::backoff::failed_again(penalty(m, id), now);
            (
                SupervisorModel { backoff: m.backoff.insert(id, state), ..m },
                seq![
                    SupervisorEvent::ReconnectFailed {
                        server: name,
                        error: failure.text,
                        failures: state.failures,
                        retry_in: super::backoff::delay(state.failures as nat) as u64,
                    },
                ],
            )
        },
    }
}

/// What reconnecting a server that has no session leaves behind.
pub open spec fn reconnected(
    m: SupervisorModel,
    server: InstalledServer,
    now: u64,
    dial: Result<usize, ConnectFailure>,
) -> (SupervisorModel, Seq<SupervisorEvent>) {
    if held_back(m, server.server_id@, now) {
        (m, seq![])
    } else {
        dialled(m, server, now, dial)
    }
}

/// Whether a probe ends the session it was made on.
pub open spec fn ends_session(m: SupervisorModel, id: Seq<char>, probe: ProbeOutcome) -> bool {
    match probe {
        ProbeOutcome::Alive { .. } => false,
        ProbeOutcome::TimedOut { .. } => one_more(streak(m, id)) >= m.teardown_after,
        ProbeOutcome::Failed { .. } => true,
    }
}

/// What a probe that does not end its session leaves behind.
pub open spec fn probe_kept(
    m: SupervisorModel,
    server: InstalledServer,
    probe: ProbeOutcome,
) -> (SupervisorModel, SupervisorEvent) {
    let id = server.server_id@;
    let name = super::report::ref_of(server);
    match probe {
        ProbeOutcome::Alive { elapsed } => (
            clear_counts(m, id),
            SupervisorEvent::ProbeAnswered { server: name, elapsed },
        ),
        ProbeOutcome::TimedOut { after } => {
            let consecutive = one_more(streak(m, id));
            (
                SupervisorModel { streaks: m.streaks.insert(id, consecutive), ..m },
                SupervisorEvent::ProbeTimedOut {
                    server: name,
                    after,
                    consecutive,
                    teardown_after: m.teardown_after,
                },
            )
        },
        ProbeOutcome::Failed { .. } => arbitrary(),
    }
}

/// What a probe that ends its session is reported as.
pub open spec fn drop_event(
    m: SupervisorModel,
    server: InstalledServer,
    probe: ProbeOutcome,
) -> SupervisorEvent {
    SupervisorEvent::TransportDropped {
        server: super::report::ref_of(server),
        outcome: probe,
        consecutive_timeouts: match probe {
            ProbeOutcome::TimedOut { .. } => one_more(streak(m, server.server_id@)),
            _ => 0,
        },
    }
}

/// What probing a connected server, and acting on it, leaves behind.
pub open spec fn probed(
    m: SupervisorModel,
    server: InstalledServer,
    now: u64,
    world: World,
) -> (SupervisorModel, Seq<SupervisorEvent>) {
    let id = server.server_id@;
    if ends_session(m, id, world.probe) {
        let (after, events) = reconnected(clear_counts(m, id), server, now, world.dial);
        (after, seq![drop_event(m, server, world.probe)] + events)
    } else {
        let (after, event) = probe_kept(m, server, world.probe);
        (after, seq![event])
    }
}

/// What one cycle does about one server.
///
/// A disabled server is forgotten, so that turning it back on gets an
/// immediate attempt. A connected one is probed. One without a session is
/// dialled, unless it is parked or waiting out a backoff.
pub open spec fn server_cycle(
    m: SupervisorModel,
    server: InstalledServer,
    now: u64,
    world: World,
) -> (SupervisorModel, Seq<SupervisorEvent>) {
    let id = server.server_id@;
    if !server.enabled {
        (forget(m, id), seq![])
    } else if world.connected {
        probed(m, server, now, world)
    } else {
        reconnected(end_streak(m, id), server, now, world.dial)
    }
}

/// What a cycle comes to from the server at `at` on: every server in turn.
pub open spec fn cycle(
    m: SupervisorModel,
    servers: Seq<InstalledServer>,
    at: int,
    now: u64,
    worlds: Seq<World>,
) -> (SupervisorModel, Seq<SupervisorEvent>)
    decreases servers.len() - at,
{
    if at < 0 || at >= servers.len() {
        (m, seq![])
    } else {
        let (next, events) = server_cycle(m, servers[at], now, worlds[at]);
        let (last, more) = cycle(next, servers, at + 1, now, worlds);
        (last, events + more)
    }
}

/// A cycle under way.
pub struct WalkModel {
    /// The installs being walked.
    pub servers: Seq<InstalledServer>,
    /// Which of them it is at.
    pub at: int,
    /// When the cycle began.
    pub now: u64,
    /// What it has observed so far.
    pub events: Seq<SupervisorEvent>,
}

/// What a cycle needs to know or to have done next.
pub enum StepModel {
    /// Whether the server has a live session.
    CheckSession(WalkModel),
    /// A probe of that session.
    Probe(WalkModel),
    /// The end of that session.
    Disconnect(WalkModel),
    /// A connection.
    Dial(WalkModel),
    /// Nothing: this is what was observed.
    Finished(Seq<SupervisorEvent>),
}

/// The server a cycle is at.
pub open spec fn current(w: WalkModel) -> InstalledServer {
    w.servers[w.at]
}

/// A cycle past the server it is at, with what was observed of it.
pub open spec fn past(w: WalkModel, events: Seq<SupervisorEvent>) -> WalkModel {
    WalkModel { at: w.at + 1, events: w.events + events, ..w }
}

/// The next server that is turned on, forgetting those that are not.
pub open spec fn seek(m: SupervisorModel, w: WalkModel) -> (SupervisorModel, StepModel)
    decreases w.servers.len() - w.at,
{
    if w.at < 0 || w.at >= w.servers.len() {
        (m, StepModel::Finished(w.events))
    } else if current(w).enabled {
        (m, StepModel::CheckSession(w))
    } else {
        seek(forget(m, current(w).server_id@), past(w, seq![]))
    }
}

/// A dial, unless the server is held back.
pub open spec fn attempt(m: SupervisorModel, w: WalkModel) -> (SupervisorModel, StepModel) {
    if held_back(m, current(w).server_id@, w.now) {
        seek(m, past(w, seq![]))
    } else {
        (m, StepModel::Dial(w))
    }
}

/// What follows from whether a session is live.
pub open spec fn after_check(m: SupervisorModel, w: WalkModel, connected: bool) -> (
    SupervisorModel,
    StepModel,
) {
    if connected {
        (m, StepModel::Probe(w))
    } else {
        attempt(end_streak(m, current(w).server_id@), w)
    }
}

/// What follows from a probe.
pub open spec fn after_probe(m: SupervisorModel, w: WalkModel, probe: ProbeOutcome) -> (
    SupervisorModel,
    StepModel,
) {
    let id = current(w).server_id@;
    if ends_session(m, id, probe) {
        (
            clear_counts(m, id),
            StepModel::Disconnect(
                WalkModel { events: w.events.push(drop_event(m, current(w), probe)), ..w },
            ),
        )
    } else {
        let (after, event) = probe_kept(m, current(w), probe);
        seek(after, past(w, seq![event]))
    }
}

/// What follows from a dial.
pub open spec fn after_dial(
    m: SupervisorModel,
    w: WalkModel,
    dial: Result<usize, ConnectFailure>,
) -> (SupervisorModel, StepModel) {
    let (after, events) = dialled(m, current(w), w.now, dial);
    seek(after, past(w, events))
}

} // verus!
