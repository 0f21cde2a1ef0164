//! The reconnect supervisor.
//!
//! The backoff curve is tested against a clock that the test owns. The cycle
//! is driven by a scripted host, one answer at a time.
use std::collections::BTreeMap;
use std::collections::BTreeSet;
use std::time::Duration;

use tinymcp::bus::{CommandKind, InstalledServer, McpClientIdentityConfig, Transport};
use tinymcp::error::Error;
use tinymcp::registry::supervisor::backoff::{
    delay_after, BackoffState, BACKOFF_BASE, BACKOFF_MAX, SECOND,
};
use tinymcp::registry::supervisor::report::{
    ProbeOutcome, ServerRef, SupervisorEvent, TickReport,
};
use tinymcp::registry::supervisor::types::{
    ConnectFailure, CycleStep, Supervisor, SupervisorConfig, TEARDOWN_AFTER,
};

fn nanos(duration: Duration) -> u64 {
    duration.as_nanos() as u64
}

/// An install with the given identifier.
fn install(server_id: &str, enabled: bool) -> InstalledServer {
    InstalledServer {
        server_id: server_id.to_string(),
        qualified_name: format!("@test/{server_id}"),
        display_name: server_id.to_string(),
        description: None,
        icon_url: None,
        command_kind: CommandKind::Node,
        command: "npx".to_string(),
        args: Vec::new(),
        env_keys: Vec::new(),
        config: None,
        installed_at: 1_000,
        last_connected_at: None,
        transport: Transport::Stdio,
        enabled,
    }
}

fn name_of(server: &InstalledServer) -> ServerRef {
    ServerRef::from(server)
}

fn supervisor() -> Supervisor {
    Supervisor::new(
        SupervisorConfig {
            tick_interval: nanos(Duration::from_millis(10)),
            probe_timeout: nanos(Duration::from_secs(5)),
        },
        McpClientIdentityConfig::default(),
        None,
    )
}

/// A host that answers from a script and notes what it was asked to do.
#[derive(Default)]
struct Host {
    live: BTreeSet<String>,
    probes: BTreeMap<String, ProbeOutcome>,
    failures: BTreeMap<String, Error>,
    dialled: Vec<String>,
    probed: Vec<String>,
    disconnected: Vec<String>,
}

impl Host {
    fn new() -> Self {
        Self::default()
    }

    fn tick(
        &mut self,
        supervisor: &mut Supervisor,
        listed: Result<Vec<InstalledServer>, Error>,
        now: u64,
    ) -> TickReport {
        let mut step = supervisor.tick(listed, now);
        loop {
            step = match step {
                CycleStep::CheckSession(walk) => {
                    let live = self.live.contains(&walk.server().server_id);
                    supervisor.session_checked(walk, live)
                }
                CycleStep::Probe(walk) => {
                    let id = walk.server().server_id.clone();
                    self.probed.push(id.clone());
                    let outcome = match self.probes.get(&id) {
                        Some(outcome) => outcome.clone(),
                        None => ProbeOutcome::Alive { elapsed: 7 },
                    };
                    supervisor.probed(walk, outcome)
                }
                CycleStep::Disconnect(walk) => {
                    let id = walk.server().server_id.clone();
                    self.live.remove(&id);
                    self.disconnected.push(id);
                    supervisor.disconnected(walk)
                }
                CycleStep::Dial(walk) => {
                    let id = walk.server().server_id.clone();
                    self.dialled.push(id.clone());
                    let reply = match self.failures.get(&id) {
                        Some(error) => Err(ConnectFailure::of(error)),
                        None => {
                            self.live.insert(id);
                            Ok(1)
                        }
                    };
                    supervisor.dialled(walk, reply)
                }
                CycleStep::Finished(report) => return report,
            };
        }
    }
}

fn refused() -> Error {
    Error::Transport {
        endpoint: "http://127.0.0.1:1/".to_string(),
        source: "connection refused".to_string(),
    }
}

#[test]
fn the_delay_doubles_with_each_consecutive_failure() {
    assert_eq!(delay_after(0), BACKOFF_BASE);
    assert_eq!(delay_after(1), nanos(Duration::from_secs(5)));
    assert_eq!(delay_after(2), nanos(Duration::from_secs(10)));
    assert_eq!(delay_after(3), nanos(Duration::from_secs(20)));
    assert_eq!(delay_after(4), nanos(Duration::from_secs(40)));
}

#[test]
fn the_delay_is_capped_so_a_long_down_server_is_still_retried() {
    assert_eq!(delay_after(20), BACKOFF_MAX);
}

#[test]
fn an_absurd_failure_count_does_not_overflow_into_a_short_delay() {
    assert_eq!(delay_after(u32::MAX), BACKOFF_MAX);
    assert_eq!(delay_after(64), BACKOFF_MAX);
    assert_eq!(delay_after(65), BACKOFF_MAX);
}

#[test]
fn the_cap_is_five_minutes_and_is_reached_at_the_seventh_failure() {
    assert_eq!(BACKOFF_MAX, nanos(Duration::from_secs(300)));
    assert_eq!(delay_after(6), nanos(Duration::from_secs(160)));
    assert_eq!(delay_after(7), BACKOFF_MAX);
}

#[test]
fn a_state_with_no_failures_is_ready_at_once() {
    assert!(BackoffState::default().ready(0));
}

#[test]
fn a_failure_defers_the_next_attempt_until_the_delay_has_passed() {
    let base = nanos(Duration::from_secs(1_000));
    let mut state = BackoffState::default();

    state.record_failure(base);

    assert_eq!(state.failures, 1);
    assert!(!state.ready(base));
    assert!(!state.ready(base + nanos(Duration::from_secs(4))));
    assert!(state.ready(base + nanos(Duration::from_secs(5))));
}

#[test]
fn consecutive_failures_lengthen_the_window() {
    let base = nanos(Duration::from_secs(1_000));
    let mut state = BackoffState::default();

    state.record_failure(base);
    state.record_failure(base);

    assert_eq!(state.failures, 2);
    assert!(!state.ready(base + nanos(Duration::from_secs(9))));
    assert!(state.ready(base + nanos(Duration::from_secs(10))));
}

#[test]
fn a_state_reports_the_delay_its_failure_count_implies() {
    let mut state = BackoffState::default();
    assert_eq!(state.current_delay(), BACKOFF_BASE);

    state.record_failure(1);
    state.record_failure(2);
    assert_eq!(state.current_delay(), nanos(Duration::from_secs(10)));
}

#[test]
fn a_failure_count_and_a_late_clock_do_not_overflow() {
    let mut state = BackoffState { failures: u32::MAX, failed_at: 0 };
    state.record_failure(u64::MAX);
    assert_eq!(state.failures, u32::MAX);
    assert!(!state.ready(u64::MAX));
    assert!(!state.ready(0));
}

#[test]
fn the_default_pacing_is_a_minute_with_an_eight_second_probe() {
    let config = SupervisorConfig::default();
    assert_eq!(config.tick_interval, nanos(Duration::from_secs(60)));
    assert_eq!(config.probe_timeout, nanos(Duration::from_secs(8)));
}

#[test]
fn a_tick_connects_a_server_that_is_not_connected() {
    let mut host = Host::new();
    let mut supervisor = supervisor();
    let server = install("srv-1", true);
    let name = name_of(&server);

    let report = host.tick(&mut supervisor, Ok(vec![server]), 0);

    assert!(host.live.contains("srv-1"));
    assert_eq!(
        report.events,
        vec![SupervisorEvent::Reconnected { server: name, tools: 1, after_failures: 0 }]
    );
}

#[test]
fn a_tick_leaves_a_healthy_connection_alone() {
    let mut host = Host::new();
    let mut supervisor = supervisor();

    host.tick(&mut supervisor, Ok(vec![install("srv-1", true)]), 0);
    let report = host.tick(&mut supervisor, Ok(vec![install("srv-1", true)]), SECOND);

    assert!(host.live.contains("srv-1"));
    assert!(host.disconnected.is_empty());
    assert_eq!(supervisor.backed_off_count(), 0);
    assert_eq!(report.events.len(), 1);
    assert_eq!(report.events[0].kind(), "probe_answered");
    assert!(!report.is_empty());
}

#[test]
fn a_disabled_server_is_not_connected() {
    let mut host = Host::new();
    let mut supervisor = supervisor();

    let report = host.tick(&mut supervisor, Ok(vec![install("srv-off", false)]), 0);

    assert!(!host.live.contains("srv-off"));
    assert!(host.dialled.is_empty() && host.probed.is_empty());
    assert!(report.is_empty());
}

#[test]
fn a_disabled_server_carries_no_backoff_penalty_into_being_re_enabled() {
    let mut host = Host::new();
    host.failures.insert("srv-1".to_string(), refused());
    let mut supervisor = supervisor();

    host.tick(&mut supervisor, Ok(vec![install("srv-1", true)]), 0);
    assert_eq!(supervisor.backed_off_count(), 1);

    host.tick(&mut supervisor, Ok(vec![install("srv-1", false)]), 1);
    assert_eq!(supervisor.backed_off_count(), 0);

    host.tick(&mut supervisor, Ok(vec![install("srv-1", true)]), 2);
    assert_eq!(host.dialled.len(), 2);
}

#[test]
fn a_failed_reconnect_earns_a_backoff_penalty() {
    let mut host = Host::new();
    host.failures.insert("srv-1".to_string(), refused());
    let mut supervisor = supervisor();
    let server = install("srv-1", true);
    let name = name_of(&server);

    let report = host.tick(&mut supervisor, Ok(vec![server]), 0);

    assert!(!host.live.contains("srv-1"));
    assert_eq!(supervisor.backed_off_count(), 1);
    assert_eq!(
        report.events,
        vec![SupervisorEvent::ReconnectFailed {
            server: name,
            error: "mcp transport failure for `http://127.0.0.1:1/`: connection refused".to_string(),
            failures: 1,
            retry_in: nanos(Duration::from_secs(5)),
        }]
    );
}

#[test]
fn a_missing_runtime_is_terminal_and_earns_no_backoff_penalty() {
    let mut host = Host::new();
    host.failures.insert(
        "srv-1".to_string(),
        Error::MissingRuntime { command: "npx".to_string() },
    );
    let mut supervisor = supervisor();

    let report = host.tick(&mut supervisor, Ok(vec![install("srv-1", true)]), 0);
    assert_eq!(report.events.len(), 1);
    assert_eq!(report.events[0].kind(), "parked");
    assert!(!host.live.contains("srv-1"));
    assert_eq!(supervisor.backed_off_count(), 0);
    assert_eq!(supervisor.terminally_failed_count(), 1);

    let report = host.tick(&mut supervisor, Ok(vec![install("srv-1", true)]), BACKOFF_MAX * 2);
    assert!(report.is_empty());
    assert_eq!(host.dialled.len(), 1);
    assert_eq!(supervisor.backed_off_count(), 0);
    assert_eq!(supervisor.terminally_failed_count(), 1);

    host.tick(&mut supervisor, Ok(vec![install("srv-1", false)]), BACKOFF_MAX * 3);
    assert_eq!(supervisor.terminally_failed_count(), 0);
}

#[test]
fn a_server_inside_its_backoff_window_is_not_retried() {
    let mut host = Host::new();
    host.failures.insert("srv-1".to_string(), refused());
    let mut supervisor = supervisor();

    host.tick(&mut supervisor, Ok(vec![install("srv-1", true)]), 0);
    let report = host.tick(&mut supervisor, Ok(vec![install("srv-1", true)]), SECOND);

    assert_eq!(supervisor.backed_off_count(), 1);
    assert_eq!(host.dialled.len(), 1);
    assert!(report.is_empty());
}

#[test]
fn a_server_whose_window_has_passed_is_retried() {
    let mut host = Host::new();
    host.failures.insert("srv-1".to_string(), refused());
    let mut supervisor = supervisor();

    host.tick(&mut supervisor, Ok(vec![install("srv-1", true)]), 0);
    assert_eq!(supervisor.backed_off_count(), 1);

    host.failures.clear();
    let report = host.tick(&mut supervisor, Ok(vec![install("srv-1", true)]), 30 * SECOND);

    assert!(host.live.contains("srv-1"));
    assert_eq!(supervisor.backed_off_count(), 0);
    assert_eq!(
        report.events,
        vec![SupervisorEvent::Reconnected {
            server: name_of(&install("srv-1", true)),
            tools: 1,
            after_failures: 1,
        }]
    );
}

#[test]
fn a_tick_over_an_empty_store_does_nothing() {
    let mut host = Host::new();
    let mut supervisor = supervisor();

    let report = host.tick(&mut supervisor, Ok(Vec::new()), 0);

    assert!(report.is_empty());
    assert_eq!(supervisor.backed_off_count(), 0);
    assert!(host.live.is_empty());
}

#[test]
fn a_tick_over_an_empty_store_does_nothing_and_does_not_fail() {
    let mut supervisor = Supervisor::new(
        SupervisorConfig::default(),
        McpClientIdentityConfig::default(),
        None,
    );

    let report = Host::new().tick(&mut supervisor, Ok(Vec::new()), 0);

    assert_eq!(report, TickReport::default());
}

#[test]
fn a_tick_leaves_a_disabled_install_alone() {
    let mut host = Host::new();
    let mut supervisor = Supervisor::new(
        SupervisorConfig::default(),
        McpClientIdentityConfig::default(),
        None,
    );

    host.tick(&mut supervisor, Ok(vec![install("srv-1", false)]), 0);

    assert_eq!(host.live.len(), 0);
    assert!(host.dialled.is_empty() && host.probed.is_empty() && host.disconnected.is_empty());
}

#[test]
fn a_tick_that_cannot_read_the_store_gives_up_quietly_rather_than_failing_the_loop() {
    let mut host = Host::new();
    host.failures.insert("srv-1".to_string(), refused());
    let mut supervisor = supervisor();
    host.tick(&mut supervisor, Ok(vec![install("srv-1", true)]), 0);

    let unreadable = Error::Store {
        action: "listing servers".to_string(),
        source: "no such table".to_string(),
    };
    let report = host.tick(&mut supervisor, Err(unreadable), SECOND);

    assert!(report.is_empty());
    assert_eq!(supervisor.backed_off_count(), 1);
    assert_eq!(host.dialled.len(), 1);
}

#[test]
fn a_dropped_transport_is_noticed_and_reconnected() {
    let mut host = Host::new();
    host.live.insert("srv-1".to_string());
    let broken = ProbeOutcome::Failed { error: "broken pipe".to_string() };
    host.probes.insert("srv-1".to_string(), broken.clone());
    let mut supervisor = supervisor();
    let name = name_of(&install("srv-1", true));

    let report = host.tick(&mut supervisor, Ok(vec![install("srv-1", true)]), 0);

    assert_eq!(host.disconnected, ["srv-1"]);
    assert!(host.live.contains("srv-1"));
    assert_eq!(
        report.events,
        vec![
            SupervisorEvent::TransportDropped {
                server: name.clone(),
                outcome: broken,
                consecutive_timeouts: 0,
            },
            SupervisorEvent::Reconnected { server: name, tools: 1, after_failures: 0 },
        ]
    );
}

#[test]
fn a_session_rebuilt_in_the_cycle_that_ended_it_counts_no_earlier_failures() {
    for later in [SECOND, 60 * SECOND] {
        let mut host = Host::new();
        host.failures.insert("srv-1".to_string(), refused());
        let mut supervisor = supervisor();
        host.tick(&mut supervisor, Ok(vec![install("srv-1", true)]), 0);
        assert_eq!(supervisor.backed_off_count(), 1);

        // The user connects it by hand, and the transport drops before a probe
        // has answered.
        host.failures.clear();
        host.live.insert("srv-1".to_string());
        let broken = ProbeOutcome::Failed { error: "broken pipe".to_string() };
        host.probes.insert("srv-1".to_string(), broken.clone());
        let name = name_of(&install("srv-1", true));

        let report = host.tick(&mut supervisor, Ok(vec![install("srv-1", true)]), later);

        assert_eq!(
            report.events,
            vec![
                SupervisorEvent::TransportDropped {
                    server: name.clone(),
                    outcome: broken,
                    consecutive_timeouts: 0,
                },
                SupervisorEvent::Reconnected { server: name, tools: 1, after_failures: 0 },
            ]
        );
        assert_eq!(supervisor.backed_off_count(), 0);
    }
}

#[test]
fn a_failed_rebuild_is_the_first_failure_of_its_row() {
    let mut host = Host::new();
    host.failures.insert("srv-1".to_string(), refused());
    let mut supervisor = supervisor();
    host.tick(&mut supervisor, Ok(vec![install("srv-1", true)]), 0);
    host.tick(&mut supervisor, Ok(vec![install("srv-1", true)]), 5 * SECOND);
    host.live.insert("srv-1".to_string());
    host.probes.insert(
        "srv-1".to_string(),
        ProbeOutcome::Failed { error: "broken pipe".to_string() },
    );

    let report = host.tick(&mut supervisor, Ok(vec![install("srv-1", true)]), 6 * SECOND);

    assert_eq!(report.events.len(), 2);
    match &report.events[1] {
        SupervisorEvent::ReconnectFailed { failures, retry_in, .. } => {
            assert_eq!((*failures, *retry_in), (1, 5 * SECOND));
        }
        other => panic!("expected a failed reconnect, got {other:?}"),
    }
}

#[test]
fn a_server_that_keeps_failing_is_counted_once() {
    let mut host = Host::new();
    host.failures.insert("one".to_string(), refused());
    host.failures.insert("two".to_string(), refused());
    let mut supervisor = supervisor();
    assert_eq!(supervisor.backed_off_count(), 0);
    for round in 0..4 {
        host.tick(
            &mut supervisor,
            Ok(vec![install("one", true), install("two", true)]),
            round * 400 * SECOND,
        );
        assert_eq!(supervisor.backed_off_count(), 2);
    }
    assert_eq!(host.dialled.len(), 8);
    host.failures.remove("one");
    host.tick(
        &mut supervisor,
        Ok(vec![install("one", true), install("two", true)]),
        1_600 * SECOND,
    );
    assert_eq!(supervisor.backed_off_count(), 1);
}

#[test]
fn a_server_that_cannot_be_reconnected_earns_a_growing_backoff() {
    let mut host = Host::new();
    host.failures.insert("srv-1".to_string(), refused());
    let mut supervisor = supervisor();

    host.tick(&mut supervisor, Ok(vec![install("srv-1", true)]), 0);
    host.tick(&mut supervisor, Ok(vec![install("srv-1", true)]), 0);
    assert_eq!(host.dialled.len(), 1);

    let report = host.tick(&mut supervisor, Ok(vec![install("srv-1", true)]), 5 * SECOND);
    assert_eq!(host.dialled.len(), 2);
    match &report.events[0] {
        SupervisorEvent::ReconnectFailed { failures, retry_in, .. } => {
            assert_eq!(*failures, 2);
            assert_eq!(*retry_in, 10 * SECOND);
        }
        other => panic!("expected a failed reconnect, got {other:?}"),
    }
}

#[test]
fn one_slow_answer_keeps_its_session_and_a_streak_ends_it() {
    let mut host = Host::new();
    host.live.insert("srv-1".to_string());
    let slow = ProbeOutcome::TimedOut { after: 5 * SECOND };
    host.probes.insert("srv-1".to_string(), slow.clone());
    let mut supervisor = supervisor();
    let name = name_of(&install("srv-1", true));
    assert_eq!(TEARDOWN_AFTER, 2);

    let report = host.tick(&mut supervisor, Ok(vec![install("srv-1", true)]), 0);
    assert!(host.disconnected.is_empty());
    assert_eq!(
        report.events,
        vec![SupervisorEvent::ProbeTimedOut {
            server: name.clone(),
            after: 5 * SECOND,
            consecutive: 1,
            teardown_after: 2,
        }]
    );

    let report = host.tick(&mut supervisor, Ok(vec![install("srv-1", true)]), SECOND);
    assert_eq!(host.disconnected, ["srv-1"]);
    assert_eq!(
        report.events[0],
        SupervisorEvent::TransportDropped {
            server: name,
            outcome: slow,
            consecutive_timeouts: 2,
        }
    );
}

#[test]
fn an_answer_between_two_slow_ones_starts_the_count_again() {
    let mut host = Host::new();
    host.live.insert("srv-1".to_string());
    let mut supervisor = supervisor().with_teardown_after(2);

    let slow = ProbeOutcome::TimedOut { after: SECOND };
    for round in 0..6 {
        let answer = if round % 2 == 0 {
            slow.clone()
        } else {
            ProbeOutcome::Alive { elapsed: 1 }
        };
        host.probes.insert("srv-1".to_string(), answer);
        host.tick(&mut supervisor, Ok(vec![install("srv-1", true)]), round);
    }
    assert!(host.disconnected.is_empty());
}

#[test]
fn installs_do_not_touch_each_other() {
    let mut host = Host::new();
    host.failures.insert("bad".to_string(), refused());
    host.failures.insert(
        "gone".to_string(),
        Error::MissingRuntime { command: "uvx".to_string() },
    );
    let mut supervisor = supervisor();

    let report = host.tick(
        &mut supervisor,
        Ok(vec![install("bad", true), install("off", false), install("gone", true), install("good", true)]),
        0,
    );

    let kinds: Vec<&str> = report.events.iter().map(|event| event.kind()).collect();
    assert_eq!(kinds, ["reconnect_failed", "parked", "reconnected"]);
    let names: Vec<&str> =
        report.events.iter().map(|event| event.server().server_id.as_str()).collect();
    assert_eq!(names, ["bad", "gone", "good"]);
    assert_eq!(supervisor.backed_off_count(), 1);
    assert_eq!(supervisor.terminally_failed_count(), 1);
}

#[test]
fn every_event_has_a_label_of_its_own() {
    let server = name_of(&install("srv-1", true));
    let timed_out = SupervisorEvent::ProbeTimedOut {
        server: server.clone(),
        after: 1,
        consecutive: 1,
        teardown_after: 2,
    };
    let dropped = SupervisorEvent::TransportDropped {
        server: server.clone(),
        outcome: ProbeOutcome::TimedOut { after: 1 },
        consecutive_timeouts: 2,
    };
    assert_eq!(timed_out.kind(), "probe_timed_out");
    assert_eq!(dropped.kind(), "transport_dropped");
    assert_eq!(timed_out.server(), &server);
    assert_eq!(server.qualified_name, "@test/srv-1");
    assert!(TickReport::default().is_empty());
}

#[test]
fn a_supervisor_carries_its_settings() {
    let supervisor = supervisor();
    assert_eq!(supervisor.config().probe_timeout, 5 * SECOND);
    assert_eq!(supervisor.identity().name, "tinymcp");
    assert_eq!(supervisor.proxy(), &None);
}
