//! What generates the payments of an activity: who is paid, when and how much.
use crate::node::{DestinationGenerationError, NodeInfo, PaymentGenerationError, SimulationError};
use crate::primitives::PublicKey;
use vstd::prelude::*;

verus! {

/// A trait for selecting destination nodes for payments in the lightning network.
pub trait DestinationGenerator {
    /// Whether the generator may choose a destination for a source node, and what becomes of the generator then.
    spec fn may_choose(
        &self,
        after: &Self,
        source: PublicKey,
        r: Result<(NodeInfo, Option<u64>), DestinationGenerationError>,
    ) -> bool;

    /// choose_destination picks a destination node within the network, returning the node's information and its
    /// capacity (if available).
    fn choose_destination(&mut self, source: PublicKey) -> (r: Result<
        (NodeInfo, Option<u64>),
        DestinationGenerationError,
    >)
        ensures
            old(self).may_choose(final(self), source, r),
    ;
}

/// A trait for generating payment parameters in the lightning network. Times are in seconds.
pub trait PaymentGenerator {
    /// Returns the time that the payments should start.
    fn payment_start(&self) -> Option<u64>
    ;

    /// Returns the number of payments that should be made.
    /// Returns `Some(n)` if there's a limit on the number of payments to dispatch, or `None` otherwise.
    fn payment_count(&self) -> Option<u64>
    ;

    /// Returns the number of seconds that a node should wait until firing its next payment.
    fn next_payment_wait(&self) -> Result<u64, PaymentGenerationError>
    ;

    /// Returns a payment amount based, with a destination capacity optionally provided to inform the amount picked.
    fn payment_amount(&self, destination_capacity: Option<u64>) -> Result<u64, PaymentGenerationError>
    ;
}

/// The delay before a payment: the start delay where it is the first payment and one is set, otherwise the interval
/// between payments.
pub open spec fn delay(call_count: u64, start: Option<u64>, wait: Result<u64, PaymentGenerationError>) -> Result<
    u64,
    SimulationError,
> {
    match start {
        Some(s) if call_count == 0 => Ok(s),
        _ => match wait {
            Ok(w) => Ok(w),
            Err(e) => Err(SimulationError::PaymentGenerationError(e)),
        },
    }
}

/// The delay before a payment, given the start delay that is set for the activity, if there is one, and the interval
/// that was generated. No interval has to be generated for a first payment that has a start delay.
pub fn payment_delay(call_count: u64, start: Option<u64>, wait: Result<u64, PaymentGenerationError>) -> (r: Result<
    u64,
    SimulationError,
>)
    ensures
        r == delay(call_count, start, wait),
{
    if call_count == 0 {
        if let Some(s) = start {
            return Ok(s);
        }
    }
    match wait {
        Ok(w) => Ok(w),
        Err(e) => Err(SimulationError::PaymentGenerationError(e)),
    }
}

/// Gets the wait time for the next payment. If this is the first payment being generated, and a specific start delay
/// was set we return a once-off delay. Otherwise, the interval between payments is used.
pub fn get_payment_delay<A: PaymentGenerator>(call_count: u64, node_generator: &A) -> (r: Result<
    u64,
    SimulationError,
>)
    ensures
        exists|start: Option<u64>, wait: Result<u64, PaymentGenerationError>|
            {
                &&& r == #[trigger] delay(call_count, start, wait)
                &&& call_count == 0 ==> call_ensures(A::payment_start, (node_generator,), start)
                &&& call_count != 0 || start is None ==> call_ensures(
                    A::next_payment_wait,
                    (node_generator,),
                    wait,
                )
            },
{
    if call_count != 0 {
        let wait = node_generator.next_payment_wait();
        let ghost w = wait;
        let r = payment_delay(call_count, None, wait);
        assert(delay(call_count, None, w) == r);
        r
    } else {
        let start = node_generator.payment_start();
        match start {
            Some(s) => {
                let ghost w = Ok::<u64, PaymentGenerationError>(s);
                assert(delay(call_count, start, w) == Ok::<u64, SimulationError>(s));
                Ok(s)
            },
            None => {
                let wait = node_generator.next_payment_wait();
                let ghost w = wait;
                let r = payment_delay(call_count, None, wait);
                assert(delay(call_count, start, w) == r);
                r
            },
        }
    }
}

/// Only the first payment of an activity is delayed by its start, if it has one. All others, and the first one of an activity
/// without a start, are delayed by the interval that was generated, or by the error that came in its place.
pub proof fn law_only_the_first_payment_waits_for_the_start(
    call_count: u64,
    start: Option<u64>,
    wait: Result<u64, PaymentGenerationError>,
)
    ensures
        call_count == 0 ==> (start matches Some(s) ==> delay(call_count, start, wait) == Ok::<u64, SimulationError>(s)),
        call_count > 0 || start is None ==> (wait matches Ok(w) ==> delay(call_count, start, wait) == Ok::<u64, SimulationError>(w)),
        call_count > 0 || start is None ==> (wait matches Err(e) ==> delay(call_count, start, wait) == Err::<
            u64,
            SimulationError,
        >(SimulationError::PaymentGenerationError(e))),
{
}

} // verus!
