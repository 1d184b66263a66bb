//! An interceptor that delays htlcs.
use crate::intercept::{records, CustomRecords, InterceptReply, Records};
use crate::node::SimulationError;
use crate::text::text;
use std::collections::HashMap;
use vstd::prelude::*;

verus! {

/// LatencyIntercepor is a HTLC interceptor that will delay HTLC forwarding by some randomly chosen delay. It holds the
/// seed of the delays; they cannot be reproduced if it has none.
#[derive(Debug, Clone, Copy)]
pub struct LatencyIntercepor {
    pub seed: Option<u64>,
}

impl LatencyIntercepor {
    /// Creates a latency interceptor that samples delays from a Poisson distribution, given the error that comes of the
    /// distribution's mean, if there is one.
    pub fn new_poisson(distribution_error: Option<&str>, seed: Option<u64>) -> (r: Result<Self, SimulationError>)
        ensures
            match distribution_error {
                Some(e) => r matches Err(SimulationError::SimulatedNetworkError(m)) && m@
                    == "Could not create possion: "@ + e@,
                None => r matches Ok(l) && l.seed == seed,
            },
    {
        match distribution_error {
            Some(e) => {
                let mut m = text("Could not create possion: ");
                m.append(e);
                Err(SimulationError::SimulatedNetworkError(m))
            },
            None => Ok(LatencyIntercepor { seed }),
        }
    }

    /// What the interceptor replies once its delay is over or the simulation shuts down: the htlc goes on, and nothing is
    /// added to its records.
    pub fn intercept_htlc(&self) -> (r: InterceptReply)
        ensures
            r matches Ok(Ok(out)) && records(out) == Records::empty(),
    {
        let out: CustomRecords = HashMap::new();
        assert(records(out) =~= Records::empty());
        Ok(Ok(out))
    }

    /// The name of the interceptor.
    pub fn name(&self) -> (s: String)
        ensures
            s@ == "Latency Interceptor"@,
    {
        text("Latency Interceptor")
    }
}

} // verus!
