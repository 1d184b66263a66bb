//! The time of a simulation.
use crate::node::SimulationError;
use crate::text::text;
use vstd::prelude::*;

verus! {

/// A clock that tells the time of a simulation, given how much of the runtime's time has elapsed since the clock was
/// created. Times are in nanoseconds since the Unix epoch.
pub trait Clock {
    /// The time at which the clock was created.
    spec fn start(&self) -> int;

    /// Reports the current time of the simulation.
    fn now(&self, elapsed: u64) -> (t: u64)
        requires
            self.start() + elapsed <= u64::MAX,
        ensures
            t == self.start() + elapsed,
    ;
}

/// A clock that reports time relative to a starting time. On a runtime whose time is paused, what has elapsed is virtual
/// time, which jumps forward to the next timer when no task can run.
#[derive(Debug, Clone, Copy)]
pub struct SimulationClock {
    /// The wall clock starting time that this clock was created at, used to provide calendar timestamps.
    pub start_time: u64,
}

impl SimulationClock {
    /// Creates a new simulation clock that reports time relative to `start_time`.
    pub fn new(start_time: u64) -> (c: Self)
        ensures
            c.start_time == start_time,
    {
        SimulationClock { start_time }
    }
}

impl Clock for SimulationClock {
    open spec fn start(&self) -> int {
        self.start_time as int
    }

    fn now(&self, elapsed: u64) -> (t: u64) {
        self.start_time + elapsed
    }
}

/// The clock never runs backwards, and time passes on it as it does on the runtime.
pub proof fn law_clock_follows_the_runtime(clock: SimulationClock, earlier: u64, later: u64)
    requires
        earlier <= later,
    ensures
        (clock.start() + later) - (clock.start() + earlier) == later - earlier,
        clock.start() + earlier <= clock.start() + later,
{
}

/// Checks that a runtime with virtual time can be created, which is not possible within another runtime.
pub fn check_runtime(within_runtime: bool) -> (r: Result<(), SimulationError>)
    ensures
        if within_runtime {
            &&& r matches Err(SimulationError::RuntimeError(m))
            &&& m@ == "block_on_virtual_time cannot be called from within a Tokio runtime; call it from a synchronous context so it can own a paused single-threaded runtime"@
        } else {
            r is Ok
        },
{
    if within_runtime {
        return Err(
            SimulationError::RuntimeError(
                text(
                    "block_on_virtual_time cannot be called from within a Tokio runtime; call it from a synchronous context so it can own a paused single-threaded runtime",
                ),
            ),
        );
    }
    Ok(())
}

} // verus!
