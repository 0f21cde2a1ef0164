//! What one supervisor cycle observed, for a host to act on.
//!
//! A log line is not something a host can route: it cannot be filtered into an
//! event log a user reads, or turned into a notification when a server stays
//! down. A cycle therefore hands back a [`TickReport`], one
//! [`SupervisorEvent`] per thing it observed or did, in the order it happened,
//! and publishes nothing itself. Which of these a user should hear about is
//! the host's decision to make.
use vstd::prelude::*;

use crate::bus::InstalledServer;

verus! {

/// Which install an event is about.
///
/// The three names a host needs to route or render an event, copied out of
/// the install so the report owns its data and outlives the read that
/// produced it.
#[derive(Debug, Clone, PartialEq, Eq)]
pub struct ServerRef {
    /// The install's identifier.
    pub server_id: String,
    /// The registry's qualified name, such as `@scope/server`.
    pub qualified_name: String,
    /// The registry's display name.
    pub display_name: String,
}

/// The names of an install.
pub open spec fn ref_of(server: InstalledServer) -> ServerRef {
    ServerRef {
        server_id: server.server_id,
        qualified_name: server.qualified_name,
        display_name: server.display_name,
    }
}

impl vstd::std_specs::convert::FromSpecImpl<&InstalledServer> for ServerRef {
    open spec fn obeys_from_spec() -> bool {
        true
    }

    open spec fn from_spec(server: &InstalledServer) -> ServerRef {
        ref_of(*server)
    }
}

impl From<&InstalledServer> for ServerRef {
    fn from(server: &InstalledServer) -> (r: ServerRef) {
        ServerRef {
            server_id: server.server_id.clone(),
            qualified_name: server.qualified_name.clone(),
            display_name: server.display_name.clone(),
        }
    }
}

/// What a liveness probe came to.
#[derive(Debug, Clone, PartialEq, Eq)]
pub enum ProbeOutcome {
    /// The server answered.
    Alive {
        /// How long the round trip took, in nanoseconds.
        elapsed: u64,
    },
    /// The server did not answer inside the window: slow, not gone.
    TimedOut {
        /// The window that elapsed, in nanoseconds.
        after: u64,
    },
    /// The transport was observed to fail.
    Failed {
        /// What it reported, already rendered.
        error: String,
    },
}

/// One thing the supervisor observed or did during a cycle.
///
/// Non-exhaustive: a host matches with a wildcard, so a later cycle step can
/// report itself without breaking the hosts that do not care about it.
#[derive(Debug, Clone, PartialEq, Eq)]
#[non_exhaustive]
pub enum SupervisorEvent {
    /// A connected server answered its liveness probe.
    ///
    /// The nominal case, reported so a host can watch a server's latency drift
    /// before it starts missing the window.
    ProbeAnswered {
        /// The server that answered.
        server: ServerRef,
        /// How long the round trip took, in nanoseconds.
        elapsed: u64,
    },
    /// A connected server did not answer inside the probe window, and the
    /// session was kept.
    ///
    /// The session ends only once `consecutive` reaches `teardown_after`, and
    /// that cycle reports [`Self::TransportDropped`] instead of this.
    ProbeTimedOut {
        /// The server that went quiet.
        server: ServerRef,
        /// The window that elapsed without an answer, in nanoseconds.
        after: u64,
        /// How many probes in a row have now timed out, this one included.
        consecutive: u32,
        /// The streak length at which the session is torn down.
        teardown_after: u32,
    },
    /// A session was ended because its probe found it unusable, and a
    /// reconnect follows in the same cycle.
    ///
    /// What that reconnect came to is reported separately, as
    /// [`Self::Reconnected`], [`Self::ReconnectFailed`] or [`Self::Parked`].
    TransportDropped {
        /// The server whose session ended.
        server: ServerRef,
        /// What the probe observed. Never [`ProbeOutcome::Alive`].
        outcome: ProbeOutcome,
        /// The timeout streak that ended the session when the outcome was a
        /// timeout; zero for a transport that was observed to fail.
        consecutive_timeouts: u32,
    },
    /// A server was connected, either freshly or after its session was ended.
    Reconnected {
        /// The server that connected.
        server: ServerRef,
        /// How many tools it advertises.
        tools: usize,
        /// How many attempts in a row had failed before this one succeeded.
        ///
        /// Zero when the session was rebuilt in the same cycle that ended it,
        /// which no user was around to notice; anything else means the server
        /// had been unavailable across at least one whole cycle.
        after_failures: u32,
    },
    /// A connection attempt failed and will be retried after a backoff.
    ReconnectFailed {
        /// The server that could not be connected.
        server: ServerRef,
        /// What the attempt reported, already rendered.
        error: String,
        /// How many attempts in a row have now failed, this one included.
        failures: u32,
        /// How long the supervisor waits before the next attempt, in
        /// nanoseconds.
        retry_in: u64,
    },
    /// A connection attempt failed in a way retrying cannot fix, so the server
    /// is parked until it is disabled and re-enabled.
    ///
    /// That is exactly [`crate::error::Error::MissingRuntime`].
    Parked {
        /// The server that was parked.
        server: ServerRef,
        /// What the attempt reported, already rendered.
        error: String,
    },
}

/// The server an event is about.
pub open spec fn subject(event: SupervisorEvent) -> ServerRef {
    match event {
        SupervisorEvent::ProbeAnswered { server, .. } => server,
        SupervisorEvent::ProbeTimedOut { server, .. } => server,
        SupervisorEvent::TransportDropped { server, .. } => server,
        SupervisorEvent::Reconnected { server, .. } => server,
        SupervisorEvent::ReconnectFailed { server, .. } => server,
        SupervisorEvent::Parked { server, .. } => server,
    }
}

/// The one-word label of an event.
pub open spec fn label(event: SupervisorEvent) -> Seq<char> {
    match event {
        SupervisorEvent::ProbeAnswered { .. } => "probe_answered"@,
        SupervisorEvent::ProbeTimedOut { .. } => "probe_timed_out"@,
        SupervisorEvent::TransportDropped { .. } => "transport_dropped"@,
        SupervisorEvent::Reconnected { .. } => "reconnected"@,
        SupervisorEvent::ReconnectFailed { .. } => "reconnect_failed"@,
        SupervisorEvent::Parked { .. } => "parked"@,
    }
}

impl SupervisorEvent {
    /// The server this event is about.
    #[must_use]
    pub fn server(&self) -> (r: &ServerRef)
        ensures
            *r == subject(*self),
    {
        match self {
            SupervisorEvent::ProbeAnswered { server, .. } => server,
            SupervisorEvent::ProbeTimedOut { server, .. } => server,
            SupervisorEvent::TransportDropped { server, .. } => server,
            SupervisorEvent::Reconnected { server, .. } => server,
            SupervisorEvent::ReconnectFailed { server, .. } => server,
            SupervisorEvent::Parked { server, .. } => server,
        }
    }

    /// A stable one-word label, for structured log fields.
    #[must_use]
    pub fn kind(&self) -> (r: &'static str)
        ensures
            r@ == label(*self),
    {
        match self {
            SupervisorEvent::ProbeAnswered { .. } => "probe_answered",
            SupervisorEvent::ProbeTimedOut { .. } => "probe_timed_out",
            SupervisorEvent::TransportDropped { .. } => "transport_dropped",
            SupervisorEvent::Reconnected { .. } => "reconnected",
            SupervisorEvent::ReconnectFailed { .. } => "reconnect_failed",
            SupervisorEvent::Parked { .. } => "parked",
        }
    }
}

/// Two events of one label are of one variant: a label never stands for two
/// things.
pub proof fn a_label_names_one_variant(a: SupervisorEvent, b: SupervisorEvent)
    requires
        label(a) == label(b),
    ensures
        a is ProbeAnswered <==> b is ProbeAnswered,
        a is ProbeTimedOut <==> b is ProbeTimedOut,
        a is TransportDropped <==> b is TransportDropped,
        a is Reconnected <==> b is Reconnected,
        a is ReconnectFailed <==> b is ReconnectFailed,
        a is Parked <==> b is Parked,
{
    reveal_strlit("probe_answered");
    reveal_strlit("probe_timed_out");
    reveal_strlit("transport_dropped");
    reveal_strlit("reconnected");
    reveal_strlit("reconnect_failed");
    reveal_strlit("parked");
    assert("probe_answered"@.len() == 14);
    assert("probe_timed_out"@.len() == 15);
    assert("transport_dropped"@.len() == 17);
    assert("reconnected"@.len() == 11);
    assert("reconnect_failed"@.len() == 16);
    assert("parked"@.len() == 6);
}

/// Everything one cycle observed, in the order it happened.
#[derive(Debug, Clone, PartialEq, Eq)]
pub struct TickReport {
    /// The events, in observation order. A server that was torn down and
    /// reconnected in one cycle appears twice, the drop first.
    pub events: Vec<SupervisorEvent>,
}

impl Default for TickReport {
    fn default() -> (r: TickReport)
        ensures
            r.events@ == Seq::<SupervisorEvent>::empty(),
    {
        TickReport { events: Vec::new() }
    }
}

impl TickReport {
    /// Whether the cycle observed nothing at all.
    ///
    /// True for an empty store, and for one whose every install is disabled,
    /// parked, or waiting out a backoff. A healthy connected server is *not*
    /// nothing: it is a [`SupervisorEvent::ProbeAnswered`].
    #[must_use]
    pub fn is_empty(&self) -> (r: bool)
        ensures
            r == (self.events@.len() == 0),
    {
        self.events.len() == 0
    }

    /// Adds what was observed last.
    pub(crate) fn push(&mut self, event: SupervisorEvent)
        ensures
            final(self).events@ == old(self).events@.push(event),
    {
        self.events.push(event);
    }
}

} // verus!
