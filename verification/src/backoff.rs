//! Exponential backoff policy of the streaming ingestion client: the retry
//! delay starts at one time unit, doubles on every consecutive failure, is
//! capped, and resets to the initial value as soon as a connection succeeds.

use vstd::prelude::*;

verus! {

/// First delay, in time units, after the first failure.
pub const INITIAL_BACKOFF_UNITS: u64 = 1;

/// Largest delay, in time units, that the policy ever asks for.
pub const MAX_BACKOFF_UNITS: u64 = 30;

/// Reconnect delay state of a streaming source.
#[derive(Clone, Copy, Debug)]
pub struct Backoff {
    delay_units: u64,
}

/// The delay after one more consecutive failure: doubled, capped at
/// [`MAX_BACKOFF_UNITS`].
pub open spec fn next_delay(d: u64) -> u64 {
    if 2 * d <= MAX_BACKOFF_UNITS {
        (2 * d) as u64
    } else {
        MAX_BACKOFF_UNITS
    }
}

/// The delay the policy asks for after `n` consecutive failures, counting
/// from a fresh (or freshly reset) state: the first failure waits the initial
/// delay, and each further failure doubles it, capped.
pub open spec fn delay_after_failures(n: nat) -> u64
    decreases n,
{
    if n == 0 {
        INITIAL_BACKOFF_UNITS
    } else {
        next_delay(delay_after_failures((n - 1) as nat))
    }
}

impl Backoff {
    /// The delay, in time units, that the next failure will wait.
    pub closed spec fn delay(self) -> u64 {
        self.delay_units
    }

    /// The delay is always between the initial value and the cap.
    pub open spec fn wf(self) -> bool {
        INITIAL_BACKOFF_UNITS <= self.delay() <= MAX_BACKOFF_UNITS
    }

    /// A fresh policy waits the initial delay.
    pub fn new() -> (r: Backoff)
        ensures
            r.delay() == INITIAL_BACKOFF_UNITS,
            r.wf(),
    {
        Backoff { delay_units: INITIAL_BACKOFF_UNITS }
    }

    /// The delay the next failure will wait.
    pub fn current(&self) -> (r: u64)
        ensures
            r == self.delay(),
    {
        self.delay_units
    }

    /// Record one more consecutive failure: the delay doubles, capped.
    pub fn advance(&mut self)
        requires
            old(self).wf(),
        ensures
            final(self).delay() == next_delay(old(self).delay()),
            final(self).wf(),
    {
        if self.delay_units <= MAX_BACKOFF_UNITS / 2 {
            self.delay_units = 2 * self.delay_units;
        } else {
            self.delay_units = MAX_BACKOFF_UNITS;
        }
    }

    /// A successful connect resets the delay to the initial value,
    /// independent of whether the connection later delivers data.
    pub fn reset(&mut self)
        ensures
            final(self).delay() == INITIAL_BACKOFF_UNITS,
            final(self).wf(),
    {
        self.delay_units = INITIAL_BACKOFF_UNITS;
    }
}

/// The delay sequence for consecutive failures from a fresh state is the
/// initial delay doubled at each step until it reaches the cap, where it
/// stays: 1, 2, 4, 8, 16, 30, 30, ...
pub proof fn lemma_backoff_sequence(n: nat)
    ensures
        delay_after_failures(0) == 1,
        delay_after_failures(1) == 2,
        delay_after_failures(2) == 4,
        delay_after_failures(3) == 8,
        delay_after_failures(4) == 16,
        n >= 5 ==> delay_after_failures(n) == MAX_BACKOFF_UNITS,
    decreases n,
{
    assert(delay_after_failures(0) == 1);
    assert(delay_after_failures(1) == 2);
    assert(delay_after_failures(2) == 4);
    assert(delay_after_failures(3) == 8);
    assert(delay_after_failures(4) == 16);
    assert(delay_after_failures(5) == 30);
    if n > 5 {
        lemma_backoff_sequence((n - 1) as nat);
    }
}

} // verus!
