//! Retry with capped exponential backoff: nodes and their RPCs come up at unpredictable times, so that setup steps are
//! tried again rather than assuming readiness.
use crate::payment::{duration_debug, duration_text};
use crate::text::text;
use vstd::prelude::*;

verus! {

/// Backoff schedule for an operation, in nanoseconds. Delays double from `initial` up to `max`, and the operation as a
/// whole fails once `timeout` has elapsed.
#[derive(Debug, Clone, Copy, PartialEq, Eq, Structural)]
pub struct Backoff {
    pub initial: u64,
    pub max: u64,
    pub timeout: u64,
}

impl Default for Backoff {
    fn default() -> (b: Self)
        ensures
            b == (Backoff { initial: 250_000_000, max: 5_000_000_000, timeout: 60_000_000_000 }),
    {
        Backoff { initial: 250_000_000, max: 5_000_000_000, timeout: 60_000_000_000 }
    }
}

impl Backoff {
    /// A schedule for operations that are expected to take a while to converge, such as waiting for gossip to propagate
    /// through a network.
    pub fn slow() -> (b: Self)
        ensures
            b == (Backoff { initial: 1_000_000_000, max: 10_000_000_000, timeout: 300_000_000_000 }),
    {
        Backoff { initial: 1_000_000_000, max: 10_000_000_000, timeout: 300_000_000_000 }
    }

    /// The delay after a number of failed attempts.
    pub open spec fn delay(self, failures: nat) -> int
        decreases failures,
    {
        if failures == 0 {
            self.initial as int
        } else {
            self.next(self.delay((failures - 1) as nat))
        }
    }

    /// The delay that follows another one: twice as long, up to the maximum.
    pub open spec fn next(self, delay: int) -> int {
        if 2 * delay <= self.max {
            2 * delay
        } else {
            self.max as int
        }
    }
}

/// Delays only ever grow up to the maximum, unless the first of them is above it.
pub proof fn law_delays_are_capped(b: Backoff, failures: nat)
    requires
        b.initial <= b.max,
    ensures
        b.initial <= b.delay(failures) <= b.max,
        b.delay(failures) <= b.delay(failures + 1),
    decreases failures,
{
    if failures > 0 {
        law_delays_are_capped(b, (failures - 1) as nat);
    }
}

/// What is to be done when an attempt has failed.
#[derive(Debug)]
pub enum RetryStep {
    /// Wait for some nanoseconds before the next attempt.
    Wait(u64),
    /// Give up with an error.
    GiveUp(String),
}

/// The state of an operation that is tried until it succeeds.
#[derive(Debug)]
pub struct Retry {
    pub backoff: Backoff,
    /// The delay before the next attempt.
    pub next_delay: u64,
}

/// Why an operation was given up after some time.
pub open spec fn give_up_text(description: Seq<char>, elapsed: u64, error: Seq<char>) -> Seq<char> {
    description + ": not ready after "@ + duration_debug(elapsed / 1_000_000_000, (elapsed % 1_000_000_000) as u32)
        + ", last error: "@ + error
}

impl Retry {
    /// Starts an operation.
    pub fn new(backoff: Backoff) -> (r: Self)
        ensures
            r.backoff == backoff,
            r.next_delay == backoff.delay(0),
    {
        Retry { backoff, next_delay: backoff.initial }
    }

    /// Decides what is to be done after an attempt has failed with an error, given the time that has elapsed since the
    /// operation was started. The error that is given up with names the operation and the last underlying error.
    pub fn with_backoff(&mut self, description: &str, elapsed: u64, error: &str) -> (step: RetryStep)
        ensures
            final(self).backoff == old(self).backoff,
            if elapsed + old(self).next_delay > old(self).backoff.timeout {
                &&& step matches RetryStep::GiveUp(m)
                &&& m@ == give_up_text(description@, elapsed, error@)
                &&& *final(self) == *old(self)
            } else {
                &&& step == RetryStep::Wait(old(self).next_delay)
                &&& final(self).next_delay == old(self).backoff.next(old(self).next_delay as int)
            },
    {
        let delay: u64 = self.next_delay;
        if elapsed > self.backoff.timeout || delay > self.backoff.timeout - elapsed {
            let mut m = text(description);
            m.append(": not ready after ");
            m.append(duration_text(elapsed / 1_000_000_000, (elapsed % 1_000_000_000) as u32).as_str());
            m.append(", last error: ");
            m.append(error);
            return RetryStep::GiveUp(m);
        }
        let max: u64 = self.backoff.max;
        self.next_delay = if delay <= max && delay <= max - delay {
            2 * delay
        } else {
            max
        };
        RetryStep::Wait(delay)
    }
}

/// The first delay is the initial one. Each other is twice the one before, or the maximum if that would exceed it.
pub proof fn law_delays_double_up_to_the_maximum(b: Backoff, failures: nat)
    ensures
        b.delay(0) == b.initial,
        2 * b.delay(failures) <= b.max ==> b.delay(failures + 1) == 2 * b.delay(failures),
        2 * b.delay(failures) > b.max ==> b.delay(failures + 1) == b.max,
{
}

} // verus!
