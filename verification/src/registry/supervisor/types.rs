//! The supervisor and its cycle.
//!
//! A cycle alternates decisions, which are made here, with work on live
//! sessions, which a host does: [`Supervisor::tick`] says what is wanted
//! first, and each answer says what is wanted next, until the cycle is
//! finished and hands back its report.
use vstd::hash_map::StringHashMap;
use vstd::hash_set::StringHashSet;
use vstd::prelude::*;

use super::backoff::BackoffState;
use super::model::{StepModel, SupervisorModel, WalkModel};
use super::report::{ProbeOutcome, ServerRef, SupervisorEvent, TickReport};
use crate::bus::{InstalledServer, McpClientIdentityConfig, McpProxyConfig};
use crate::error::Error;

verus! {

/// The timeout streak at which a session is torn down, where a host does not
/// choose one: the shortest under which a single slow answer keeps its
/// session.
pub const TEARDOWN_AFTER: u32 = 2;

/// How the supervisor is paced. Times are nanoseconds.
#[derive(Debug, Clone, Copy, PartialEq, Eq)]
pub struct SupervisorConfig {
    /// How often to walk the installed servers.
    pub tick_interval: u64,
    /// How long a liveness probe may take.
    ///
    /// A tool listing is a cheap round trip; a server that cannot answer one
    /// within this window is not usable for a real call either.
    pub probe_timeout: u64,
}

impl Default for SupervisorConfig {
    /// A walk every minute, with eight seconds for a probe.
    fn default() -> (r: SupervisorConfig)
        ensures
            r.tick_interval == 60 * super::backoff::SECOND,
            r.probe_timeout == 8 * super::backoff::SECOND,
    {
        SupervisorConfig { tick_interval: 60_000_000_000, probe_timeout: 8_000_000_000 }
    }
}

/// What a failed connection attempt means to the supervisor.
#[derive(Debug, Clone, PartialEq, Eq)]
pub struct ConnectFailure {
    /// Whether trying again cannot help.
    pub terminal: bool,
    /// What the attempt reported.
    pub text: String,
}

impl ConnectFailure {
    /// What `error` means: a program that is not installed will not appear
    /// because one waited, and nothing else is beyond retrying.
    #[must_use]
    pub fn of(error: &Error) -> (r: ConnectFailure)
        ensures
            r.terminal == super::model::beyond_retrying(*error),
            r.text@ == crate::error::error_text(*error),
    {
        let terminal = match error {
            Error::MissingRuntime { .. } => true,
            _ => false,
        };
        ConnectFailure { terminal, text: error.message() }
    }
}

/// Keeps installed servers connected.
pub struct Supervisor {
    config: SupervisorConfig,
    identity: McpClientIdentityConfig,
    proxy: Option<McpProxyConfig>,
    teardown_after: u32,
    backoff: StringHashMap<BackoffState>,
    parked: StringHashSet,
    streaks: StringHashMap<u32>,
}

impl View for Supervisor {
    type V = SupervisorModel;

    closed spec fn view(&self) -> SupervisorModel {
        SupervisorModel {
            config: self.config,
            identity: self.identity,
            proxy: self.proxy,
            teardown_after: self.teardown_after,
            backoff: self.backoff@,
            parked: self.parked@,
            streaks: self.streaks@,
        }
    }
}

/// The installs a cycle walks and how far it has come. It always stands at an
/// install that is turned on.
#[derive(Debug)]
pub struct Walk {
    servers: Vec<InstalledServer>,
    at: usize,
    now: u64,
    report: TickReport,
}

impl View for Walk {
    type V = WalkModel;

    closed spec fn view(&self) -> WalkModel {
        WalkModel {
            servers: self.servers@,
            at: self.at as int,
            now: self.now,
            events: self.report.events@,
        }
    }
}

impl Walk {
    #[verifier::type_invariant]
    spec fn stands_at_an_enabled_install(self) -> bool {
        self.at < self.servers@.len() && self.servers@[self.at as int].enabled
    }

    /// The install that the answer wanted is about.
    #[must_use]
    pub fn server(&self) -> (r: &InstalledServer)
        ensures
            *r == super::model::current(self@),
            0 <= self@.at < self@.servers.len(),
            r.enabled,
    {
        proof {
            use_type_invariant(self);
        }
        &self.servers[self.at]
    }
}

/// What a cycle needs to know or to have done next.
#[derive(Debug)]
pub enum CycleStep {
    /// Whether the install has a live session; answer with
    /// [`Supervisor::session_checked`].
    CheckSession(Walk),
    /// A probe of the install's session, within the supervisor's probe
    /// timeout; answer with [`Supervisor::probed`].
    Probe(Walk),
    /// The end of the install's session; answer with
    /// [`Supervisor::disconnected`].
    Disconnect(Walk),
    /// A connection to the install; answer with [`Supervisor::dialled`].
    Dial(Walk),
    /// Nothing: the cycle is over.
    Finished(TickReport),
}

impl View for CycleStep {
    type V = StepModel;

    open spec fn view(&self) -> StepModel {
        match *self {
            CycleStep::CheckSession(walk) => StepModel::CheckSession(walk@),
            CycleStep::Probe(walk) => StepModel::Probe(walk@),
            CycleStep::Disconnect(walk) => StepModel::Disconnect(walk@),
            CycleStep::Dial(walk) => StepModel::Dial(walk@),
            CycleStep::Finished(report) => StepModel::Finished(report.events@),
        }
    }
}

impl Supervisor {
    /// Builds a supervisor.
    #[must_use]
    pub fn new(
        config: SupervisorConfig,
        identity: McpClientIdentityConfig,
        proxy: Option<McpProxyConfig>,
    ) -> (r: Supervisor)
        ensures
            r@ == (SupervisorModel {
                config,
                identity,
                proxy,
                teardown_after: TEARDOWN_AFTER,
                backoff: Map::empty(),
                parked: Set::empty(),
                streaks: Map::empty(),
            }),
            super::laws::sound(r@),
    {
        Supervisor {
            config,
            identity,
            proxy,
            teardown_after: TEARDOWN_AFTER,
            backoff: StringHashMap::new(),
            parked: StringHashSet::new(),
            streaks: StringHashMap::new(),
        }
    }

    /// The same supervisor, tearing a session down after `probes` timeouts in
    /// a row. A streak of one or none means the first timeout ends it.
    #[must_use]
    pub fn with_teardown_after(self, probes: u32) -> (r: Supervisor)
        ensures
            r@ == (SupervisorModel { teardown_after: probes, ..self@ }),
    {
        Supervisor {
            config: self.config,
            identity: self.identity,
            proxy: self.proxy,
            teardown_after: probes,
            backoff: self.backoff,
            parked: self.parked,
            streaks: self.streaks,
        }
    }

    /// How the supervisor is paced.
    #[must_use]
    pub fn config(&self) -> (r: SupervisorConfig)
        ensures
            r == self@.config,
    {
        self.config
    }

    /// What the supervisor's clients say of themselves.
    #[must_use]
    pub fn identity(&self) -> (r: &McpClientIdentityConfig)
        ensures
            *r == self@.identity,
    {
        &self.identity
    }

    /// The proxies the supervisor's clients go through.
    #[must_use]
    pub fn proxy(&self) -> (r: &Option<McpProxyConfig>)
        ensures
            *r == self@.proxy,
    {
        &self.proxy
    }

    /// How many servers currently carry a backoff penalty.
    #[must_use]
    pub fn backed_off_count(&self) -> (r: usize)
        ensures
            r == self@.backoff.dom().len(),
    {
        self.backoff.len()
    }

    /// How many servers are parked.
    #[must_use]
    pub fn terminally_failed_count(&self) -> (r: usize)
        ensures
            r == self@.parked.len(),
    {
        self.parked.len()
    }

    /// Begins one cycle, at `now`, over the installs as the store lists them.
    ///
    /// A store that cannot be read costs this cycle and nothing else: it ends
    /// at once, with an empty report.
    pub fn tick(&mut self, listed: Result<Vec<InstalledServer>, Error>, now: u64) -> (r: CycleStep)
        ensures
            (final(self)@, r@) == match listed {
                Ok(servers) => super::model::seek(
                    old(self)@,
                    (WalkModel { servers: servers@, at: 0, now, events: Seq::empty() }),
                ),
                Err(_) => (old(self)@, StepModel::Finished(Seq::empty())),
            },
    {
        let report = TickReport { events: Vec::new() };
        match listed {
            Ok(servers) => self.seek(servers, 0, now, report),
            Err(_) => CycleStep::Finished(report),
        }
    }

    /// Answers [`CycleStep::CheckSession`].
    pub fn session_checked(&mut self, walk: Walk, connected: bool) -> (r: CycleStep)
        ensures
            (final(self)@, r@) == super::model::after_check(old(self)@, walk@, connected),
    {
        if connected {
            CycleStep::Probe(walk)
        } else {
            self.streaks.remove(walk.server().server_id.as_str());
            self.attempt(walk)
        }
    }

    /// Answers [`CycleStep::Probe`].
    pub fn probed(&mut self, walk: Walk, outcome: ProbeOutcome) -> (r: CycleStep)
        ensures
            (final(self)@, r@) == super::model::after_probe(old(self)@, walk@, outcome),
    {
        let server = ServerRef::from(walk.server());
        let timeouts: u32 = self.timeouts(server.server_id.as_str());
        match outcome {
            ProbeOutcome::Alive { elapsed } => {
                self.backoff.remove(server.server_id.as_str());
                self.streaks.remove(server.server_id.as_str());
                self.observed(walk, SupervisorEvent::ProbeAnswered { server, elapsed })
            },
            ProbeOutcome::TimedOut { after } => if timeouts < self.teardown_after {
                self.streaks.insert(server.server_id.clone(), timeouts);
                let teardown_after: u32 = self.teardown_after;
                self.observed(
                    walk,
                    SupervisorEvent::ProbeTimedOut {
                        server,
                        after,
                        consecutive: timeouts,
                        teardown_after,
                    },
                )
            } else {
                self.drop_session(
                    walk,
                    SupervisorEvent::TransportDropped {
                        server,
                        outcome: ProbeOutcome::TimedOut { after },
                        consecutive_timeouts: timeouts,
                    },
                )
            },
            ProbeOutcome::Failed { error } => self.drop_session(
                walk,
                SupervisorEvent::TransportDropped {
                    server,
                    outcome: ProbeOutcome::Failed { error },
                    consecutive_timeouts: 0,
                },
            ),
        }
    }

    /// Answers [`CycleStep::Disconnect`].
    pub fn disconnected(&mut self, walk: Walk) -> (r: CycleStep)
        ensures
            (final(self)@, r@) == super::model::attempt(old(self)@, walk@),
    {
        self.attempt(walk)
    }

    /// Answers [`CycleStep::Dial`]: how many tools the server advertises, or
    /// what the failure means.
    pub fn dialled(&mut self, walk: Walk, dial: Result<usize, ConnectFailure>) -> (r: CycleStep)
        ensures
            (final(self)@, r@) == super::model::after_dial(old(self)@, walk@, dial),
    {
        let server = ServerRef::from(walk.server());
        let mut state = self.penalty_of(server.server_id.as_str());
        let event = match dial {
            Ok(tools) => {
                self.backoff.remove(server.server_id.as_str());
                SupervisorEvent::Reconnected { server, tools, after_failures: state.failures }
            },
            Err(failure) => if failure.terminal {
                self.backoff.remove(server.server_id.as_str());
                self.parked.insert(server.server_id.clone());
                SupervisorEvent::Parked { server, error: failure.text }
            } else {
                state.record_failure(walk.now);
                self.backoff.insert(server.server_id.clone(), state);
                SupervisorEvent::ReconnectFailed {
                    server,
                    error: failure.text,
                    failures: state.failures,
                    retry_in: state.current_delay(),
                }
            },
        };
        self.observed(walk, event)
    }

    /// The penalty a server carries.
    fn penalty_of(&self, id: &str) -> (r: BackoffState)
        ensures
            r == super::model::penalty(self@, id@),
    {
        match self.backoff.get(id) {
            Some(state) => *state,
            None => BackoffState::default(),
        }
    }

    /// The timeouts in a row that a server's session has behind it once one
    /// more is counted.
    fn timeouts(&self, id: &str) -> (r: u32)
        ensures
            r == super::model::one_more(super::model::streak(self@, id@)),
    {
        match self.streaks.get(id) {
            Some(count) => if *count < u32::MAX {
                *count + 1
            } else {
                *count
            },
            None => 1,
        }
    }

    /// Goes on past a server that `event` was observed of.
    fn observed(&mut self, walk: Walk, event: SupervisorEvent) -> (r: CycleStep)
        ensures
            (final(self)@, r@) == super::model::seek(
                old(self)@,
                super::model::past(walk@, seq![event]),
            ),
    {
        proof {
            use_type_invariant(&walk);
        }
        let Walk { servers, at, now, mut report } = walk;
        let size: usize = servers.len();
        report.push(event);
        proof {
            assert(at < size);
            assert(report.events@ == walk@.events + seq![event]);
        }
        self.seek(servers, at + 1, now, report)
    }

    /// Wants a session that `event` was observed of ended. Whatever failed
    /// before that session does not hold its reconnect back.
    fn drop_session(&mut self, walk: Walk, event: SupervisorEvent) -> (r: CycleStep)
        ensures
            final(self)@ == super::model::clear_counts(
                old(self)@,
                super::model::current(walk@).server_id@,
            ),
            r@ == StepModel::Disconnect(
                (WalkModel { events: walk@.events.push(event), ..walk@ }),
            ),
    {
        proof {
            use_type_invariant(&walk);
        }
        self.backoff.remove(walk.server().server_id.as_str());
        self.streaks.remove(walk.server().server_id.as_str());
        let Walk { servers, at, now, mut report } = walk;
        report.push(event);
        CycleStep::Disconnect(Walk { servers, at, now, report })
    }

    /// Dials a server, unless it is held back.
    fn attempt(&mut self, walk: Walk) -> (r: CycleStep)
        ensures
            (final(self)@, r@) == super::model::attempt(old(self)@, walk@),
    {
        proof {
            use_type_invariant(&walk);
        }
        let now: u64 = walk.now;
        let id = walk.server().server_id.as_str();
        if self.parked.contains(id) || !self.penalty_of(id).ready(now) {
            let Walk { servers, at, now, report } = walk;
            let size: usize = servers.len();
            proof {
                assert(at < size);
                assert(walk@.events + Seq::<SupervisorEvent>::empty() == walk@.events);
            }
            self.seek(servers, at + 1, now, report)
        } else {
            CycleStep::Dial(walk)
        }
    }

    /// Goes to the next server that is turned on, forgetting those that are
    /// not.
    fn seek(
        &mut self,
        servers: Vec<InstalledServer>,
        from: usize,
        now: u64,
        report: TickReport,
    ) -> (r: CycleStep)
        requires
            from <= servers@.len(),
        ensures
            (final(self)@, r@) == super::model::seek(
                old(self)@,
                (WalkModel { servers: servers@, at: from as int, now, events: report.events@ }),
            ),
    {
        let ghost events = report.events@;
        let mut at: usize = from;
        while at < servers.len() && !servers[at].enabled
            invariant
                from <= at <= servers@.len(),
                events == report.events@,
                super::model::seek(
                    old(self)@,
                    (WalkModel { servers: servers@, at: from as int, now, events }),
                ) == super::model::seek(
                    self@,
                    (WalkModel { servers: servers@, at: at as int, now, events }),
                ),
            decreases servers@.len() - at,
        {
            let id = servers[at].server_id.as_str();
            self.backoff.remove(id);
            self.parked.remove(id);
            self.streaks.remove(id);
            proof {
                assert(events + Seq::<SupervisorEvent>::empty() == events);
            }
            at += 1;
        }
        if at < servers.len() {
            CycleStep::CheckSession(Walk { servers, at, now, report })
        } else {
            CycleStep::Finished(report)
        }
    }
}

} // verus!
