//! How long to wait before trying a failing server again.
//!
//! Times are nanoseconds. A point in time is counted from an origin of the
//! caller's choosing, the same one for every call.
use vstd::prelude::*;

verus! {

/// One second, in nanoseconds.
pub const SECOND: u64 = 1_000_000_000;

/// The wait after a first failure: five seconds.
pub const BACKOFF_BASE: u64 = 5_000_000_000;

/// The longest wait: five minutes. A server that has been down for long is
/// still retried, because its operator may fix it without anyone touching
/// this host.
pub const BACKOFF_MAX: u64 = 300_000_000_000;

/// The wait after `failures` failures in a row, before the cap: the base,
/// doubled with each failure after the first.
pub open spec fn uncapped(failures: nat) -> nat
    decreases failures,
{
    if failures <= 1 {
        BACKOFF_BASE as nat
    } else {
        2 * uncapped((failures - 1) as nat)
    }
}

/// The wait after `failures` failures in a row.
pub open spec fn delay(failures: nat) -> nat {
    if uncapped(failures) < BACKOFF_MAX {
        uncapped(failures)
    } else {
        BACKOFF_MAX as nat
    }
}

/// A wait before the cap never shrinks as failures add up.
pub proof fn lemma_uncapped_grows(fewer: nat, more: nat)
    requires
        fewer <= more,
    ensures
        BACKOFF_BASE <= uncapped(fewer) <= uncapped(more),
    decreases more,
{
    if more > 1 {
        if fewer < more {
            lemma_uncapped_grows(fewer, (more - 1) as nat);
        } else {
            lemma_uncapped_grows((more - 1) as nat, (more - 1) as nat);
        }
    }
}

/// The wait doubles with each failure in a row until it reaches the cap.
pub proof fn the_delay_doubles_up_to_the_cap(failures: nat)
    requires
        1 <= failures,
    ensures
        delay(0) == BACKOFF_BASE,
        delay(1) == BACKOFF_BASE,
        delay(failures + 1) == if 2 * delay(failures) < BACKOFF_MAX {
            2 * delay(failures)
        } else {
            BACKOFF_MAX as nat
        },
{
    reveal_with_fuel(uncapped, 3);
    assert(uncapped(failures + 1) == 2 * uncapped(failures));
}

/// The wait after a number of failures in a row is five seconds, doubled once
/// for each failure after the first, and never more than five minutes.
pub proof fn the_delay_in_nanoseconds(failures: nat)
    requires
        1 <= failures,
    ensures
        ({
            let doubled = 5_000_000_000 * vstd::arithmetic::power2::pow2((failures - 1) as nat);
            delay(failures) == if doubled < 300_000_000_000 {
                doubled
            } else {
                300_000_000_000
            }
        }),
    decreases failures,
{
    lemma_uncapped_power(failures);
}

proof fn lemma_uncapped_power(failures: nat)
    requires
        1 <= failures,
    ensures
        uncapped(failures) == 5_000_000_000 * vstd::arithmetic::power2::pow2(
            (failures - 1) as nat,
        ),
    decreases failures,
{
    if failures == 1 {
        vstd::arithmetic::power2::lemma2_to64();
    } else {
        lemma_uncapped_power((failures - 1) as nat);
        vstd::arithmetic::power2::lemma_pow2_unfold((failures - 1) as nat);
    }
}

/// The wait never shrinks as failures add up, and always stays between the
/// base and the cap.
pub proof fn the_delay_never_shrinks(fewer: nat, more: nat)
    requires
        fewer <= more,
    ensures
        BACKOFF_BASE <= delay(fewer) <= delay(more) <= BACKOFF_MAX,
{
    lemma_uncapped_grows(fewer, more);
}

/// From the seventh failure in a row on, the wait is the longest one.
pub proof fn a_long_run_of_failures_waits_the_longest(failures: nat)
    requires
        7 <= failures,
    ensures
        delay(failures) == BACKOFF_MAX,
{
    reveal_with_fuel(uncapped, 8);
    assert(uncapped(7) >= BACKOFF_MAX);
    lemma_uncapped_grows(7, failures);
}

/// The wait after `failures` failures in a row.
#[must_use]
pub fn delay_after(failures: u32) -> (wait: u64)
    ensures
        wait == delay(failures as nat),
{
    let mut wait: u64 = BACKOFF_BASE;
    let mut counted: u32 = 1;
    while counted < failures && wait < BACKOFF_MAX
        invariant
            1 <= counted,
            counted <= failures || counted == 1,
            wait == uncapped(counted as nat),
            wait <= 2 * BACKOFF_MAX,
        decreases failures - counted,
    {
        wait = wait * 2;
        counted += 1;
    }
    proof {
        if counted < failures {
            lemma_uncapped_grows(counted as nat, failures as nat);
        }
    }
    if wait < BACKOFF_MAX {
        wait
    } else {
        BACKOFF_MAX
    }
}

/// The failures in a row that one server has behind it.
#[derive(Debug, Clone, Copy, PartialEq, Eq)]
pub struct BackoffState {
    /// How many attempts in a row have failed.
    pub failures: u32,
    /// When the last of them failed; means nothing while none has.
    pub failed_at: u64,
}

/// Whether an attempt may be made at `now`.
pub open spec fn may_attempt(state: BackoffState, now: u64) -> bool {
    state.failures == 0 || now >= state.failed_at + delay(state.failures as nat)
}

/// The state after one more failure, at `now`.
pub open spec fn failed_again(state: BackoffState, now: u64) -> BackoffState {
    BackoffState {
        failures: if state.failures == u32::MAX {
            u32::MAX
        } else {
            (state.failures + 1) as u32
        },
        failed_at: now,
    }
}

/// The state of a server with no failures behind it.
pub open spec fn unburdened() -> BackoffState {
    BackoffState { failures: 0, failed_at: 0 }
}

impl Default for BackoffState {
    fn default() -> (r: BackoffState)
        ensures
            r == unburdened(),
    {
        BackoffState { failures: 0, failed_at: 0 }
    }
}

impl BackoffState {
    /// Whether an attempt may be made at `now`.
    #[must_use]
    pub fn ready(&self, now: u64) -> (r: bool)
        ensures
            r == may_attempt(*self, now),
    {
        if self.failures == 0 {
            return true;
        }
        let wait: u64 = delay_after(self.failures);
        now >= self.failed_at && now - self.failed_at >= wait
    }

    /// Records a failed attempt at `now`.
    pub fn record_failure(&mut self, now: u64)
        ensures
            *final(self) == failed_again(*old(self), now),
    {
        if self.failures < u32::MAX {
            self.failures = self.failures + 1;
        }
        self.failed_at = now;
    }

    /// The wait that the failures so far imply.
    #[must_use]
    pub fn current_delay(&self) -> (wait: u64)
        ensures
            wait == delay(self.failures as nat),
    {
        delay_after(self.failures)
    }
}

/// A failed attempt defers the next one by exactly the wait that the failures
/// then imply.
pub proof fn a_failure_defers_the_next_attempt(state: BackoffState, failed: u64, now: u64)
    ensures
        may_attempt(failed_again(state, failed), now) <==> now >= failed + delay(
            failed_again(state, failed).failures as nat,
        ),
{
}

} // verus!
