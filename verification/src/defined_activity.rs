//! Payment activity that is defined by the user: payments to one node, at given intervals and of given amounts.
use crate::generator::{DestinationGenerator, PaymentGenerator};
use crate::node::{
    Amount, DestinationGenerationError, Interval, NodeInfo, NodeInfoView, PaymentGenerationError,
};
use crate::primitives::PublicKey;
use crate::text::text;
use vstd::prelude::*;

verus! {

/// Generates the payments of an activity that was defined by the user.
#[derive(Debug)]
pub struct DefinedPaymentActivity {
    destination: NodeInfo,
    start: Option<u64>,
    count: Option<u64>,
    wait: Interval,
    amount: Amount,
}

impl Clone for DefinedPaymentActivity {
    fn clone(&self) -> (r: Self)
        ensures
            r.destination() == self.destination(),
            r.start() == self.start(),
            r.count() == self.count(),
            r.wait() == self.wait(),
            r.amount() == self.amount(),
    {
        proof {
            use_type_invariant(self);
        }
        DefinedPaymentActivity {
            destination: self.destination.clone(),
            start: self.start,
            count: self.count,
            wait: self.wait,
            amount: self.amount,
        }
    }
}

impl DefinedPaymentActivity {
    /// The node that is paid.
    pub closed spec fn destination(&self) -> NodeInfoView {
        self.destination@
    }

    /// The delay in seconds before the first payment, if there is one.
    pub closed spec fn start(&self) -> Option<u64> {
        self.start
    }

    /// The number of payments, if it is limited.
    pub closed spec fn count(&self) -> Option<u64> {
        self.count
    }

    /// The interval between payments in seconds.
    pub closed spec fn wait(&self) -> Interval {
        self.wait
    }

    /// The amount of a payment in msat.
    pub closed spec fn amount(&self) -> Amount {
        self.amount
    }

    /// Values can be drawn from the interval and from the amount.
    #[verifier::type_invariant]
    spec fn in_range(&self) -> bool {
        self.wait.widened().wf() && self.amount.wf()
    }

    /// Creates the generator of an activity.
    pub fn new(
        destination: NodeInfo,
        start: Option<u64>,
        count: Option<u64>,
        wait: Interval,
        amount: Amount,
    ) -> (a: Self)
        requires
            wait.widened().wf(),
            amount.wf(),
        ensures
            a.destination() == destination@,
            a.start() == start,
            a.count() == count,
            a.wait() == wait,
            a.amount() == amount,
    {
        DefinedPaymentActivity { destination, start, count, wait, amount }
    }

    /// The text of the activity.
    pub fn to_text(&self) -> (s: String)
        ensures
            s@ == "static payment of "@ + self.amount().text() + " to "@ + self.destination().text() + " every "@
                + self.wait().widened().text() + "s"@,
    {
        let mut s = text("static payment of ");
        s.append(self.amount.to_text().as_str());
        s.append(" to ");
        s.append(self.destination.to_text().as_str());
        s.append(" every ");
        s.append(self.wait.to_text().as_str());
        s.append("s");
        s
    }
}

impl DestinationGenerator for DefinedPaymentActivity {
    /// The node that is paid is always the same. Nothing is known of its capacity.
    open spec fn may_choose(
        &self,
        after: &Self,
        source: PublicKey,
        r: Result<(NodeInfo, Option<u64>), DestinationGenerationError>,
    ) -> bool {
        &&& r matches Ok(d)
        &&& d.0@ == self.destination()
        &&& d.1 is None
        &&& *after == *self
    }

    fn choose_destination(&mut self, _source: PublicKey) -> (r: Result<
        (NodeInfo, Option<u64>),
        DestinationGenerationError,
    >)
    {
        Ok((self.destination.clone(), None))
    }
}

impl PaymentGenerator for DefinedPaymentActivity {
    fn payment_start(&self) -> (r: Option<u64>)
        ensures
            r == self.start(),
    {
        self.start
    }

    fn payment_count(&self) -> (r: Option<u64>)
        ensures
            r == self.count(),
    {
        self.count
    }

    fn next_payment_wait(&self) -> (r: Result<u64, PaymentGenerationError>)
        ensures
            r matches Ok(w) && self.wait().widened().admits(w as int),
    {
        proof {
            use_type_invariant(self);
        }
        Ok(self.wait.value() as u64)
    }

    /// The amount does not depend on the destination's capacity, which must not be given.
    fn payment_amount(&self, destination_capacity: Option<u64>) -> (r: Result<u64, PaymentGenerationError>)
        ensures
            match destination_capacity {
                Some(_) => r matches Err(PaymentGenerationError(m)) && m@
                    == "destination amount must not be set for defined activity generator"@,
                None => r matches Ok(a) && self.amount().admits(a as int),
            },
    {
        proof {
            use_type_invariant(self);
        }
        if destination_capacity.is_some() {
            Err(
                PaymentGenerationError(
                    text("destination amount must not be set for defined activity generator"),
                ),
            )
        } else {
            Ok(self.amount.value())
        }
    }
}

} // verus!
