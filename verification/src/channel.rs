//! Simulated channels: the htlcs in flight on each side of a channel, its balances and its forwarding policies.
use crate::keyed::{Key, KeyedMap};
use crate::node::{NodeInfo, NodeInfoView, ShortChannelID, SimulationError};
use crate::primitives::{with_keysend_flag, NodeFeatures, PaymentHash, PublicKey};
use crate::text::{decimal, push_decimal, text};
use vstd::prelude::*;

verus! {

/// ForwardingError represents the various errors that we can run into when forwarding payments in a simulated network.
/// Since we're not using real lightning nodes, these errors are not obfuscated and can be propagated to the sending
/// node and used for analysis.
#[derive(Debug)]
pub enum ForwardingError {
    /// The forwarding node did not have sufficient outgoing balance to forward the htlc (htlc amount / balance).
    InsufficientBalance(u64, u64),
    /// The htlc forwarded is less than the channel's advertised minimum htlc amount (htlc amount / minimum).
    LessThanMinimum(u64, u64),
    /// The htlc forwarded is more than the channel's advertised maximum htlc amount (htlc amount / maximum).
    MoreThanMaximum(u64, u64),
    /// The channel has reached its maximum allowable number of htlcs in flight (total in flight / maximum).
    ExceedsInFlightCount(u64, u64),
    /// The forwarded htlc's amount would push the channel over its maximum allowable in flight total
    /// (total in flight / maximum).
    ExceedsInFlightTotal(u64, u64),
    /// The forwarded htlc's cltv expiry exceeds the maximum value used to express block heights in Bitcoin
    /// (cltv expiry / maximum).
    ExpiryInSeconds(u32, u32),
    /// The forwarded htlc has insufficient cltv delta for the channel's minimum delta (cltv delta / minimum).
    InsufficientCltvDelta(u32, u32),
    /// The forwarded htlc has insufficient fee for the channel's policy (fee / expected fee / base fee / prop fee).
    InsufficientFee(u64, u64, u64, u64),
    /// Custom error for interceptors if encountered a forwarding error during htlc interception.
    InterceptorError(String),
}

/// A message that relates two numbers.
pub open spec fn comparison(a: Seq<char>, x: nat, b: Seq<char>, y: nat) -> Seq<char> {
    a + decimal(x) + b + decimal(y)
}

/// A message that relates two numbers.
fn comparison_text(a: &str, x: u64, b: &str, y: u64) -> (s: String)
    ensures
        s@ == comparison(a@, x as nat, b@, y as nat),
{
    let mut s = text(a);
    push_decimal(&mut s, x);
    s.append(b);
    push_decimal(&mut s, y);
    s
}

impl ForwardingError {
    /// The message of the error.
    pub open spec fn text(&self) -> Seq<char> {
        match self {
            ForwardingError::InsufficientBalance(a, b) => comparison(
                "InsufficientBalance: amount: "@,
                *a as nat,
                " > balance: "@,
                *b as nat,
            ),
            ForwardingError::LessThanMinimum(a, b) => comparison(
                "LessThanMinimum: amount: "@,
                *a as nat,
                " < minimum: "@,
                *b as nat,
            ),
            ForwardingError::MoreThanMaximum(a, b) => comparison(
                "MoreThanMaximum: amount: "@,
                *a as nat,
                " > maximum: "@,
                *b as nat,
            ),
            ForwardingError::ExceedsInFlightCount(a, b) => comparison(
                "ExceedsInFlightCount: total in flight: "@,
                *a as nat,
                " > maximum count: "@,
                *b as nat,
            ),
            ForwardingError::ExceedsInFlightTotal(a, b) => comparison(
                "ExceedsInFlightTotal: total in flight amount: "@,
                *a as nat,
                " > maximum amount: "@,
                *b as nat,
            ),
            ForwardingError::ExpiryInSeconds(a, _) => "ExpiryInSeconds: cltv expressed in seconds: "@ + decimal(*a as nat),
            ForwardingError::InsufficientCltvDelta(a, b) => comparison(
                "InsufficientCltvDelta: cltv delta: "@,
                *a as nat,
                " < required: "@,
                *b as nat,
            ),
            ForwardingError::InsufficientFee(fee, expected, base, prop) => "InsufficientFee: offered fee: "@ + decimal(
                *fee as nat,
            ) + " (base: "@ + decimal(*base as nat) + ", prop: "@ + decimal(*prop as nat) + ") < expected: "@ + decimal(
                *expected as nat,
            ),
            ForwardingError::InterceptorError(m) => "InterceptorError: "@ + m@,
        }
    }

    /// The message of the error.
    pub fn to_text(&self) -> (s: String)
        ensures
            s@ == self.text(),
    {
        match self {
            ForwardingError::InsufficientBalance(a, b) => comparison_text(
                "InsufficientBalance: amount: ",
                *a,
                " > balance: ",
                *b,
            ),
            ForwardingError::LessThanMinimum(a, b) => comparison_text(
                "LessThanMinimum: amount: ",
                *a,
                " < minimum: ",
                *b,
            ),
            ForwardingError::MoreThanMaximum(a, b) => comparison_text(
                "MoreThanMaximum: amount: ",
                *a,
                " > maximum: ",
                *b,
            ),
            ForwardingError::ExceedsInFlightCount(a, b) => comparison_text(
                "ExceedsInFlightCount: total in flight: ",
                *a,
                " > maximum count: ",
                *b,
            ),
            ForwardingError::ExceedsInFlightTotal(a, b) => comparison_text(
                "ExceedsInFlightTotal: total in flight amount: ",
                *a,
                " > maximum amount: ",
                *b,
            ),
            ForwardingError::ExpiryInSeconds(a, _) => {
                let mut s = text("ExpiryInSeconds: cltv expressed in seconds: ");
                push_decimal(&mut s, *a as u64);
                s
            },
            ForwardingError::InsufficientCltvDelta(a, b) => comparison_text(
                "InsufficientCltvDelta: cltv delta: ",
                *a as u64,
                " < required: ",
                *b as u64,
            ),
            ForwardingError::InsufficientFee(fee, expected, base, prop) => {
                let mut s = text("InsufficientFee: offered fee: ");
                push_decimal(&mut s, *fee);
                s.append(" (base: ");
                push_decimal(&mut s, *base);
                s.append(", prop: ");
                push_decimal(&mut s, *prop);
                s.append(") < expected: ");
                push_decimal(&mut s, *expected);
                s
            },
            ForwardingError::InterceptorError(m) => {
                let mut s = text("InterceptorError: ");
                s.append(m.as_str());
                s
            },
        }
    }
}

impl Clone for ForwardingError {
    fn clone(&self) -> (r: Self)
        ensures
            r == *self,
    {
        match self {
            ForwardingError::InsufficientBalance(a, b) => ForwardingError::InsufficientBalance(*a, *b),
            ForwardingError::LessThanMinimum(a, b) => ForwardingError::LessThanMinimum(*a, *b),
            ForwardingError::MoreThanMaximum(a, b) => ForwardingError::MoreThanMaximum(*a, *b),
            ForwardingError::ExceedsInFlightCount(a, b) => ForwardingError::ExceedsInFlightCount(*a, *b),
            ForwardingError::ExceedsInFlightTotal(a, b) => ForwardingError::ExceedsInFlightTotal(*a, *b),
            ForwardingError::ExpiryInSeconds(a, b) => ForwardingError::ExpiryInSeconds(*a, *b),
            ForwardingError::InsufficientCltvDelta(a, b) => ForwardingError::InsufficientCltvDelta(*a, *b),
            ForwardingError::InsufficientFee(a, b, c, d) => ForwardingError::InsufficientFee(*a, *b, *c, *d),
            ForwardingError::InterceptorError(m) => ForwardingError::InterceptorError(m.clone()),
        }
    }
}

/// CriticalError represents an error while propagating a payment in a simulated network that warrants a shutdown.
#[derive(Debug)]
pub enum CriticalError {
    /// Zero amount htlcs are invalid in the protocol.
    ZeroAmountHtlc,
    /// The outgoing channel id was not found in the network graph.
    ChannelNotFound(ShortChannelID),
    /// The node pubkey provided was not associated with the channel in the network graph.
    NodeNotFound(PublicKey),
    /// The channel has already forwarded an HTLC with the payment hash provided.
    PaymentHashExists(PaymentHash),
    /// An htlc with the payment hash provided could not be found to resolve.
    PaymentHashNotFound(PaymentHash),
    /// The fee policy for a htlc amount would overflow with the given fee policy (htlc amount / base fee / prop fee).
    FeeOverflow(u64, u64, u64),
    /// Sanity check on channel balances failed (node balances / channel capacity).
    SanityCheckFailed(u64, u64),
    /// Intercepted HTLCs have duplicated custom records attached.
    DuplicateCustomRecord(u64),
    /// Custom error for interceptors if they encountered a critical error during htlc interception.
    InterceptorError(String),
}

impl Clone for CriticalError {
    fn clone(&self) -> (r: Self)
        ensures
            r == *self,
    {
        match self {
            CriticalError::ZeroAmountHtlc => CriticalError::ZeroAmountHtlc,
            CriticalError::ChannelNotFound(c) => CriticalError::ChannelNotFound(*c),
            CriticalError::NodeNotFound(k) => CriticalError::NodeNotFound(*k),
            CriticalError::PaymentHashExists(h) => CriticalError::PaymentHashExists(*h),
            CriticalError::PaymentHashNotFound(h) => CriticalError::PaymentHashNotFound(*h),
            CriticalError::FeeOverflow(a, b, c) => CriticalError::FeeOverflow(*a, *b, *c),
            CriticalError::SanityCheckFailed(a, b) => CriticalError::SanityCheckFailed(*a, *b),
            CriticalError::DuplicateCustomRecord(k) => CriticalError::DuplicateCustomRecord(*k),
            CriticalError::InterceptorError(m) => CriticalError::InterceptorError(m.clone()),
        }
    }
}

/// The outcome of a forwarding check: a critical error, a forwarding error, or neither.
pub type ForwardResult = Result<Result<(), ForwardingError>, CriticalError>;

/// Represents an in-flight htlc that has been forwarded over a channel that is awaiting resolution.
#[derive(Debug, Copy, Clone, PartialEq, Eq, Structural)]
pub struct Htlc {
    pub amount_msat: u64,
    pub cltv_expiry: u32,
}

/// The highest expiry that is a block height rather than a time in seconds.
pub const MAX_BLOCK_HEIGHT: u32 = 500000000;

/// The parts in which proportional fees are expressed.
pub const FEE_PARTS: u64 = 1000000;

/// Represents one node in the channel's forwarding policy and restrictions. Note that this doesn't directly map to
/// a single concept in the protocol, a few things have been combined for the sake of simplicity. Used to manage the
/// lightning "state machine" and check that HTLCs are added in accordance of the advertised policy.
#[derive(Debug)]
pub struct ChannelPolicy {
    pub pubkey: PublicKey,
    pub alias: String,
    pub max_htlc_count: u64,
    pub max_in_flight_msat: u64,
    pub min_htlc_size_msat: u64,
    pub max_htlc_size_msat: u64,
    pub cltv_expiry_delta: u32,
    pub base_fee: u64,
    pub fee_rate_prop: u64,
}

impl Clone for ChannelPolicy {
    fn clone(&self) -> (r: Self)
        ensures
            r == *self,
    {
        ChannelPolicy {
            pubkey: self.pubkey,
            alias: self.alias.clone(),
            max_htlc_count: self.max_htlc_count,
            max_in_flight_msat: self.max_in_flight_msat,
            min_htlc_size_msat: self.min_htlc_size_msat,
            max_htlc_size_msat: self.max_htlc_size_msat,
            cltv_expiry_delta: self.cltv_expiry_delta,
            base_fee: self.base_fee,
            fee_rate_prop: self.fee_rate_prop,
        }
    }
}

impl ChannelPolicy {
    /// What is wrong with the policy on a channel of the capacity provided, if anything.
    pub open spec fn error(&self, capacity_msat: u64) -> Option<Seq<char>> {
        if self.max_in_flight_msat > capacity_msat {
            Some(
                "max_in_flight_msat "@ + decimal(self.max_in_flight_msat as nat) + " > capacity "@ + decimal(
                    capacity_msat as nat,
                ),
            )
        } else if self.max_htlc_size_msat > capacity_msat {
            Some(
                "max_htlc_size_msat "@ + decimal(self.max_htlc_size_msat as nat) + " > capacity "@ + decimal(
                    capacity_msat as nat,
                ),
            )
        } else {
            None
        }
    }

    /// Validates that the channel policy is acceptable for the size of the channel.
    pub fn validate(&self, capacity_msat: u64) -> (r: Result<(), SimulationError>)
        ensures
            match self.error(capacity_msat) {
                Some(m) => r matches Err(SimulationError::SimulatedNetworkError(s)) && s@ == m,
                None => r is Ok,
            },
    {
        if self.max_in_flight_msat > capacity_msat {
            let mut m = text("max_in_flight_msat ");
            push_decimal(&mut m, self.max_in_flight_msat);
            m.append(" > capacity ");
            push_decimal(&mut m, capacity_msat);
            return Err(SimulationError::SimulatedNetworkError(m));
        }
        if self.max_htlc_size_msat > capacity_msat {
            let mut m = text("max_htlc_size_msat ");
            push_decimal(&mut m, self.max_htlc_size_msat);
            m.append(" > capacity ");
            push_decimal(&mut m, capacity_msat);
            return Err(SimulationError::SimulatedNetworkError(m));
        }
        Ok(())
    }

    /// The fee that the policy asks for forwarding an amount.
    pub open spec fn expected_fee(&self, amt: u64) -> int {
        amt * self.fee_rate_prop / FEE_PARTS as int + self.base_fee
    }

    /// Whether a forward abides by the policy. The cltv delta is checked first, and the fee of the policy must be
    /// within the range of amounts.
    pub open spec fn forward_outcome(&self, cltv_delta: u32, amt: u64, fee: u64) -> ForwardResult {
        if cltv_delta < self.cltv_expiry_delta {
            Ok(Err(ForwardingError::InsufficientCltvDelta(cltv_delta, self.cltv_expiry_delta)))
        } else if amt * self.fee_rate_prop > u64::MAX || self.expected_fee(amt) > u64::MAX {
            Err(CriticalError::FeeOverflow(amt, self.base_fee, self.fee_rate_prop))
        } else if fee < self.expected_fee(amt) {
            Ok(
                Err(
                    ForwardingError::InsufficientFee(
                        fee,
                        self.expected_fee(amt) as u64,
                        self.base_fee,
                        self.fee_rate_prop,
                    ),
                ),
            )
        } else {
            Ok(Ok(()))
        }
    }
}

/// The htlcs in flight in one direction: by payment hash, each with the index that it was added at.
pub type InFlightHtlcs = Map<PaymentHash, (Htlc, u64)>;

/// The sum of the amounts of htlcs in flight.
pub open spec fn amount_in_flight(htlcs: InFlightHtlcs) -> nat
    decreases htlcs.dom().len(),
{
    if htlcs.dom().finite() && htlcs.dom().len() > 0 {
        let k = htlcs.dom().choose();
        proof {
            assert(htlcs.remove(k).dom() =~= htlcs.dom().remove(k));
            assert(htlcs.dom().contains(k));
        }
        htlcs[k].0.amount_msat as nat + amount_in_flight(htlcs.remove(k))
    } else {
        0
    }
}

/// The sum over htlcs in flight is the amount of any one of them and the sum over the others.
pub proof fn lemma_amount_remove(htlcs: InFlightHtlcs, k: PaymentHash)
    requires
        htlcs.dom().finite(),
        htlcs.dom().contains(k),
    ensures
        amount_in_flight(htlcs) == htlcs[k].0.amount_msat + amount_in_flight(htlcs.remove(k)),
    decreases htlcs.dom().len(),
{
    let c = htlcs.dom().choose();
    assert(htlcs.dom().contains(c));
    assert(htlcs.remove(c).dom() =~= htlcs.dom().remove(c));
    assert(htlcs.remove(k).dom() =~= htlcs.dom().remove(k));
    if c != k {
        lemma_amount_remove(htlcs.remove(c), k);
        lemma_amount_remove(htlcs.remove(k), c);
        assert(htlcs.remove(c).remove(k) =~= htlcs.remove(k).remove(c));
    }
}

/// The sum over htlcs in flight grows by the amount of an htlc that is added.
pub proof fn lemma_amount_insert(htlcs: InFlightHtlcs, k: PaymentHash, v: (Htlc, u64))
    requires
        htlcs.dom().finite(),
        !htlcs.dom().contains(k),
    ensures
        amount_in_flight(htlcs.insert(k, v)) == v.0.amount_msat + amount_in_flight(htlcs),
{
    lemma_amount_remove(htlcs.insert(k, v), k);
    assert(htlcs.insert(k, v).remove(k) =~= htlcs);
}

/// The contents of a [`ChannelState`].
pub struct SideView {
    pub balance: int,
    pub in_flight: InFlightHtlcs,
    pub policy: ChannelPolicy,
    pub index: int,
}

impl SideView {
    /// Each htlc in flight has an index of its own, below the index that is given out next.
    pub open spec fn wf(self) -> bool {
        &&& self.in_flight.dom().finite()
        &&& self.in_flight.dom().len() <= self.index <= u64::MAX
        &&& forall|h: PaymentHash| #[trigger] self.in_flight.dom().contains(h) ==> self.in_flight[h].1 < self.index
        &&& forall|g: PaymentHash, h: PaymentHash|
            #![trigger self.in_flight.dom().contains(g), self.in_flight.dom().contains(h)]
            self.in_flight.dom().contains(g) && self.in_flight.dom().contains(h) && g != h ==> self.in_flight[g].1
                != self.in_flight[h].1
    }

    /// The liquidity of this side: its balance and what is in flight from it.
    pub open spec fn total(self) -> int {
        self.balance + amount_in_flight(self.in_flight)
    }

    /// Whether an htlc can be counted, and the sum of what is in flight and the htlc is in the range of amounts, where it
    /// has to be computed to decide on the htlc.
    pub open spec fn sums_in_range(self, htlc: Htlc) -> bool {
        &&& self.in_flight.dom().len() < u64::MAX
        &&& self.policy.min_htlc_size_msat <= htlc.amount_msat <= self.policy.max_htlc_size_msat
            && self.in_flight.dom().len() < self.policy.max_htlc_count ==> amount_in_flight(self.in_flight)
            + htlc.amount_msat <= u64::MAX
    }

    /// Whether an htlc can be given an index, and the sums that decide on it are in range.
    pub open spec fn in_range(self, htlc: Htlc) -> bool {
        self.index < u64::MAX && self.sums_in_range(htlc)
    }

    /// Why an htlc can not be added as an outgoing htlc, if there is a reason.
    pub open spec fn outgoing_failure(self, htlc: Htlc) -> Option<ForwardingError> {
        let count = self.in_flight.dom().len() + 1;
        let total = amount_in_flight(self.in_flight) + htlc.amount_msat;
        if htlc.amount_msat > self.policy.max_htlc_size_msat {
            Some(ForwardingError::MoreThanMaximum(htlc.amount_msat, self.policy.max_htlc_size_msat))
        } else if htlc.amount_msat < self.policy.min_htlc_size_msat {
            Some(ForwardingError::LessThanMinimum(htlc.amount_msat, self.policy.min_htlc_size_msat))
        } else if count > self.policy.max_htlc_count {
            Some(ForwardingError::ExceedsInFlightCount(count as u64, self.policy.max_htlc_count))
        } else if total > self.policy.max_in_flight_msat {
            Some(ForwardingError::ExceedsInFlightTotal(total as u64, self.policy.max_in_flight_msat))
        } else if htlc.amount_msat > self.balance {
            Some(ForwardingError::InsufficientBalance(htlc.amount_msat, self.balance as u64))
        } else if htlc.cltv_expiry > MAX_BLOCK_HEIGHT {
            Some(ForwardingError::ExpiryInSeconds(htlc.cltv_expiry, MAX_BLOCK_HEIGHT))
        } else {
            None
        }
    }

    /// The outcome of adding an htlc: the index that it gets, or why it is not added.
    pub open spec fn add_outcome(self, hash: PaymentHash, htlc: Htlc) -> Result<
        Result<u64, ForwardingError>,
        CriticalError,
    > {
        match self.outgoing_failure(htlc) {
            Some(e) => Ok(Err(e)),
            None => if self.in_flight.dom().contains(hash) {
                Err(CriticalError::PaymentHashExists(hash))
            } else {
                Ok(Ok(self.index as u64))
            },
        }
    }

    /// This side once an htlc was added: the htlc is in flight and its amount is no longer available.
    pub open spec fn added(self, hash: PaymentHash, htlc: Htlc) -> SideView {
        SideView {
            balance: self.balance - htlc.amount_msat,
            in_flight: self.in_flight.insert(hash, (htlc, self.index as u64)),
            index: self.index + 1,
            ..self
        }
    }

    /// This side once an htlc is no longer in flight.
    pub open spec fn removed(self, hash: PaymentHash) -> SideView {
        SideView { in_flight: self.in_flight.remove(hash), ..self }
    }

    /// This side once an amount was added to its balance.
    pub open spec fn credited(self, amt: int) -> SideView {
        SideView { balance: self.balance + amt, ..self }
    }
}

/// The internal state of one side of a simulated channel, including its forwarding parameters. This struct is
/// primarily responsible for handling our view of what's currently in-flight on the channel, and how much
/// liquidity we have.
#[derive(Debug)]
pub struct ChannelState {
    pub local_balance_msat: u64,
    /// Maps payment hash to htlc and index that it was added at.
    pub in_flight: KeyedMap<PaymentHash, (Htlc, u64)>,
    pub policy: ChannelPolicy,
    /// Tracks unique identifier for htlcs proposed by this node (sent in the outgoing direction).
    pub index: u64,
}

impl View for ChannelState {
    type V = SideView;

    open spec fn view(&self) -> SideView {
        SideView {
            balance: self.local_balance_msat as int,
            in_flight: self.in_flight@,
            policy: self.policy,
            index: self.index as int,
        }
    }
}

/// The sum of the amounts of the first entries of a list of htlcs.
spec fn entries_amount(entries: Seq<(PaymentHash, (Htlc, u64))>) -> nat
    decreases entries.len(),
{
    if entries.len() == 0 {
        0
    } else {
        entries_amount(entries.drop_last()) + entries.last().1.0.amount_msat as nat
    }
}

/// The map of the entries of a list with unique keys.
spec fn entries_map(entries: Seq<(PaymentHash, (Htlc, u64))>) -> InFlightHtlcs
    decreases entries.len(),
{
    if entries.len() == 0 {
        Map::empty()
    } else {
        entries_map(entries.drop_last()).insert(entries.last().0, entries.last().1)
    }
}

proof fn lemma_entries_map(entries: Seq<(PaymentHash, (Htlc, u64))>)
    requires
        forall|i: int, j: int|
            #![trigger entries[i], entries[j]]
            0 <= i < j < entries.len() ==> entries[i].0 != entries[j].0,
    ensures
        entries_map(entries).dom().finite(),
        forall|k: PaymentHash| #[trigger]
            entries_map(entries).dom().contains(k) ==> exists|i: int|
                0 <= i < entries.len() && (#[trigger] entries[i]).0 == k,
        forall|i: int|
            0 <= i < entries.len() ==> {
                let e = #[trigger] entries[i];
                entries_map(entries).dom().contains(e.0) && entries_map(entries)[e.0] == e.1
            },
        amount_in_flight(entries_map(entries)) == entries_amount(entries),
    decreases entries.len(),
{
    if entries.len() > 0 {
        let rest = entries.drop_last();
        let last = entries.last();
        assert forall|i: int, j: int|
            #![trigger rest[i], rest[j]]
            0 <= i < j < rest.len() implies rest[i].0 != rest[j].0 by {
            assert(entries[i].0 != entries[j].0);
        }
        lemma_entries_map(rest);
        assert(!entries_map(rest).dom().contains(last.0)) by {
            if entries_map(rest).dom().contains(last.0) {
                let i = choose|i: int| 0 <= i < rest.len() && (#[trigger] rest[i]).0 == last.0;
                assert(entries[i].0 != entries[entries.len() - 1].0);
            }
        }
        lemma_amount_insert(entries_map(rest), last.0, last.1);
        assert forall|k: PaymentHash| #[trigger]
            entries_map(entries).dom().contains(k) implies exists|i: int|
            0 <= i < entries.len() && (#[trigger] entries[i]).0 == k by {
            if k == last.0 {
                assert(entries[entries.len() - 1].0 == k);
            } else {
                assert(entries_map(rest).dom().contains(k));
                let i = choose|i: int| 0 <= i < rest.len() && (#[trigger] rest[i]).0 == k;
                assert(entries[i].0 == k);
            }
        }
        assert forall|i: int| 0 <= i < entries.len() implies {
            let e = #[trigger] entries[i];
            entries_map(entries).dom().contains(e.0) && entries_map(entries)[e.0] == e.1
        } by {
            if i < rest.len() {
                assert(rest[i] == entries[i]);
                assert(entries[i].0 != entries[entries.len() - 1].0);
            }
        }
    } else {
        assert(amount_in_flight(entries_map(entries)) == 0);
    }
}

proof fn lemma_prefix_amount(entries: Seq<(PaymentHash, (Htlc, u64))>, i: int)
    requires
        0 <= i <= entries.len(),
    ensures
        entries_amount(entries.subrange(0, i)) <= entries_amount(entries),
    decreases entries.len() - i,
{
    if i < entries.len() {
        lemma_prefix_amount(entries, i + 1);
        assert(entries.subrange(0, i + 1).drop_last() =~= entries.subrange(0, i));
    } else {
        assert(entries.subrange(0, i) =~= entries);
    }
}

proof fn lemma_state_amount(m: KeyedMap<PaymentHash, (Htlc, u64)>)
    requires
        m.wf(),
    ensures
        amount_in_flight(m@) == entries_amount(m.entries()),
{
    lemma_entries_map(m.entries());
    m.lemma_entries();
    assert(m@ =~= entries_map(m.entries())) by {
        assert forall|k: PaymentHash| m@.dom().contains(k) == entries_map(m.entries()).dom().contains(k) by {
            if m@.dom().contains(k) {
                let i = choose|i: int| 0 <= i < m.entries().len() && (#[trigger] m.entries()[i]).0 == k;
                assert(m.entries()[i].0 == k);
            }
        }
        assert forall|k: PaymentHash| m@.dom().contains(k) implies #[trigger] m@[k] == entries_map(m.entries())[k] by {
            let i = choose|i: int| 0 <= i < m.entries().len() && (#[trigger] m.entries()[i]).0 == k;
            assert(m.entries()[i].0 == k);
        }
    }
}

impl ChannelState {
    /// Each htlc in flight has an index of its own, below the index that is given out next.
    pub open spec fn wf(&self) -> bool {
        self.in_flight.wf() && self@.wf()
    }

    /// Creates a new channel with local liquidity as allocated by the caller. The responsibility of ensuring that the
    /// local balance of each side of the channel equals its total capacity is on the caller, as we are only dealing
    /// with a one-sided view of the channel's state.
    pub fn new(policy: ChannelPolicy, local_balance_msat: u64) -> (s: Self)
        ensures
            s.wf(),
            s@ == (SideView {
                balance: local_balance_msat as int,
                in_flight: Map::empty(),
                policy,
                index: 0,
            }),
    {
        ChannelState { local_balance_msat, in_flight: KeyedMap::new(), policy, index: 0 }
    }

    /// Returns the sum of all the *in flight outgoing* HTLCs on the channel.
    pub fn in_flight_total(&self) -> (total: u64)
        requires
            self.wf(),
            amount_in_flight(self@.in_flight) <= u64::MAX,
        ensures
            total == amount_in_flight(self@.in_flight),
    {
        proof {
            lemma_state_amount(self.in_flight);
        }
        let ghost entries = self.in_flight.entries();
        let n: usize = self.in_flight.len();
        let mut total: u64 = 0;
        let mut i: usize = 0;
        while i < n
            invariant
                self.wf(),
                entries == self.in_flight.entries(),
                n == entries.len(),
                i <= n,
                total == entries_amount(entries.subrange(0, i as int)),
                entries_amount(entries) <= u64::MAX,
            decreases n - i,
        {
            proof {
                lemma_prefix_amount(entries, i as int + 1);
                assert(entries.subrange(0, i as int + 1).drop_last() =~= entries.subrange(0, i as int));
            }
            total += self.in_flight.entry_at(i).1.0.amount_msat;
            i += 1;
        }
        assert(entries.subrange(0, n as int) =~= entries);
        total
    }

    /// Checks whether the proposed HTLC abides by the channel policy advertised for using this channel as the
    /// *outgoing* link in a forward.
    pub fn check_htlc_forward(&self, cltv_delta: u32, amt: u64, fee: u64) -> (r: ForwardResult)
        ensures
            r == self@.policy.forward_outcome(cltv_delta, amt, fee),
    {
        if cltv_delta < self.policy.cltv_expiry_delta {
            return Ok(
                Err(ForwardingError::InsufficientCltvDelta(cltv_delta, self.policy.cltv_expiry_delta)),
            );
        }
        let overflow = CriticalError::FeeOverflow(amt, self.policy.base_fee, self.policy.fee_rate_prop);
        let expected_fee: u64 = match amt.checked_mul(self.policy.fee_rate_prop) {
            Some(prop_fee) => match (prop_fee / FEE_PARTS).checked_add(self.policy.base_fee) {
                Some(expected_fee) => expected_fee,
                None => {
                    return Err(overflow);
                },
            },
            None => {
                return Err(overflow);
            },
        };
        if fee < expected_fee {
            return Ok(
                Err(
                    ForwardingError::InsufficientFee(
                        fee,
                        expected_fee,
                        self.policy.base_fee,
                        self.policy.fee_rate_prop,
                    ),
                ),
            );
        }
        Ok(Ok(()))
    }

    /// Checks whether the proposed HTLC can be added to the channel as an outgoing HTLC. This requires that we have
    /// sufficient liquidity, and that the restrictions on our in flight htlc balance and count are not violated by
    /// the addition of the HTLC. Specification sanity checks (such as reasonable CLTV) are also included, as this
    /// is where we'd check it in real life.
    pub fn check_outgoing_addition(&self, htlc: &Htlc) -> (r: Result<(), ForwardingError>)
        requires
            self.wf(),
            self@.sums_in_range(*htlc),
        ensures
            r == (match self@.outgoing_failure(*htlc) {
                Some(e) => Err(e),
                None => Ok(()),
            }),
    {
        if htlc.amount_msat > self.policy.max_htlc_size_msat {
            return Err(ForwardingError::MoreThanMaximum(htlc.amount_msat, self.policy.max_htlc_size_msat));
        }
        if htlc.amount_msat < self.policy.min_htlc_size_msat {
            return Err(ForwardingError::LessThanMinimum(htlc.amount_msat, self.policy.min_htlc_size_msat));
        }
        let count: u64 = self.in_flight.len() as u64 + 1;
        if count > self.policy.max_htlc_count {
            return Err(ForwardingError::ExceedsInFlightCount(count, self.policy.max_htlc_count));
        }
        let total: u64 = self.in_flight_total() + htlc.amount_msat;
        if total > self.policy.max_in_flight_msat {
            return Err(ForwardingError::ExceedsInFlightTotal(total, self.policy.max_in_flight_msat));
        }
        if htlc.amount_msat > self.local_balance_msat {
            return Err(ForwardingError::InsufficientBalance(htlc.amount_msat, self.local_balance_msat));
        }
        if htlc.cltv_expiry > MAX_BLOCK_HEIGHT {
            return Err(ForwardingError::ExpiryInSeconds(htlc.cltv_expiry, MAX_BLOCK_HEIGHT));
        }
        Ok(())
    }

    /// Adds the HTLC to our set of outgoing in-flight HTLCs, where the restrictions on outgoing HTLCs allow it. Local
    /// balance is decreased by the HTLC amount, as this liquidity is no longer available.
    ///
    /// Note: MPP payments are not currently supported, so this function will fail if a duplicate payment hash is
    /// reported.
    pub fn add_outgoing_htlc(&mut self, hash: PaymentHash, htlc: Htlc) -> (r: Result<
        Result<u64, ForwardingError>,
        CriticalError,
    >)
        requires
            old(self).wf(),
            old(self)@.in_range(htlc),
        ensures
            final(self).wf(),
            r == old(self)@.add_outcome(hash, htlc),
            final(self)@ == (if r is Ok && r->Ok_0 is Ok {
                old(self)@.added(hash, htlc)
            } else {
                old(self)@
            }),
            final(self)@ == old(self)@.after(SideCall::Add(hash, htlc)),
    {
        if let Err(fwd_err) = self.check_outgoing_addition(&htlc) {
            return Ok(Err(fwd_err));
        }
        if self.in_flight.contains_key(&hash) {
            return Err(CriticalError::PaymentHashExists(hash));
        }
        let index: u64 = self.index;
        self.index = index + 1;
        self.local_balance_msat = self.local_balance_msat - htlc.amount_msat;
        self.in_flight.insert(hash, (htlc, index));
        assert(self@ == old(self)@.added(hash, htlc));
        Ok(Ok(index))
    }

    /// Removes the HTLC from our set of outgoing in-flight HTLCs, failing if the payment hash is not found.
    pub fn remove_outgoing_htlc(&mut self, hash: &PaymentHash) -> (r: Result<(Htlc, u64), CriticalError>)
        requires
            old(self).wf(),
        ensures
            final(self).wf(),
            final(self)@ == old(self)@.removed(*hash),
            final(self)@ == old(self)@.after(SideCall::Remove(*hash)),
            r == (if old(self)@.in_flight.dom().contains(*hash) {
                Ok(old(self)@.in_flight[*hash])
            } else {
                Err(CriticalError::PaymentHashNotFound(*hash))
            }),
    {
        let removed = self.in_flight.remove(hash);
        proof {
            let before = old(self)@.in_flight;
            assert(before.remove(*hash).dom() =~= before.dom().remove(*hash));
        }
        match removed {
            Some(htlc) => Ok(htlc),
            None => Err(CriticalError::PaymentHashNotFound(*hash)),
        }
    }

    /// Updates channel state to account for the resolution of an outgoing in-flight HTLC. If the HTLC failed, the
    /// balance is failed back to the channel's local balance. If not, the in-flight balance is settled to the other
    /// node, so there is no operation.
    pub fn settle_outgoing_htlc(&mut self, amt: u64, success: bool)
        requires
            old(self).wf(),
            !success ==> old(self)@.balance + amt <= u64::MAX,
        ensures
            final(self).wf(),
            final(self)@ == (if success {
                old(self)@
            } else {
                old(self)@.credited(amt as int)
            }),
    {
        if !success {
            self.local_balance_msat = self.local_balance_msat + amt;
        }
    }

    /// Updates channel state to account for the resolution of an incoming in-flight HTLC. If the HTLC succeeded,
    /// the balance is settled to the channel's local balance. If not, the in-flight balance is failed back to the
    /// other node, so there is no operation.
    pub fn settle_incoming_htlc(&mut self, amt: u64, success: bool)
        requires
            old(self).wf(),
            success ==> old(self)@.balance + amt <= u64::MAX,
        ensures
            final(self).wf(),
            final(self)@ == (if success {
                old(self)@.credited(amt as int)
            } else {
                old(self)@
            }),
    {
        if success {
            self.local_balance_msat = self.local_balance_msat + amt;
        }
    }
}

/// The contents of a [`SimulatedChannel`].
pub struct ChannelView {
    pub capacity: u64,
    pub scid: ShortChannelID,
    pub node_1: SideView,
    pub node_2: SideView,
}

impl ChannelView {
    /// The total of the balances and of the htlcs in flight on both sides.
    pub open spec fn total(self) -> int {
        self.node_1.total() + self.node_2.total()
    }

    /// The balances and the htlcs in flight make up the capacity of the channel.
    pub open spec fn sane(self) -> bool {
        self.total() == self.capacity
    }

    /// Both sides are well formed, with balances and a total in the range of amounts.
    pub open spec fn wf(self) -> bool {
        &&& self.node_1.wf()
        &&& self.node_2.wf()
        &&& 0 <= self.node_1.balance
        &&& 0 <= self.node_2.balance
        &&& self.total() <= u64::MAX
    }

    /// Whether a node is one of the channel's two nodes.
    pub open spec fn has_node(self, pubkey: PublicKey) -> bool {
        pubkey == self.node_1.policy.pubkey || pubkey == self.node_2.policy.pubkey
    }

    /// The side of a node.
    pub open spec fn side(self, pubkey: PublicKey) -> SideView {
        if pubkey == self.node_1.policy.pubkey {
            self.node_1
        } else {
            self.node_2
        }
    }

    /// The side of the counterparty of a node.
    pub open spec fn other_side(self, pubkey: PublicKey) -> SideView {
        if pubkey == self.node_1.policy.pubkey {
            self.node_2
        } else {
            self.node_1
        }
    }

    /// The channel with other contents on the side of a node and on that of its counterparty.
    pub open spec fn with_sides(self, pubkey: PublicKey, side: SideView, other_side: SideView) -> ChannelView {
        if pubkey == self.node_1.policy.pubkey {
            ChannelView { node_1: side, node_2: other_side, ..self }
        } else {
            ChannelView { node_1: other_side, node_2: side, ..self }
        }
    }

    /// Whether the sums that decide on an htlc are in the range of amounts.
    pub open spec fn in_range(self, sender: PublicKey, htlc: Htlc) -> bool {
        self.sane() && self.has_node(sender) && htlc.amount_msat > 0 ==> self.side(sender).in_range(htlc)
    }

    /// The outcome of adding an htlc: the index that it gets, or why it is not added.
    pub open spec fn add_outcome(self, sender: PublicKey, hash: PaymentHash, htlc: Htlc) -> Result<
        Result<u64, ForwardingError>,
        CriticalError,
    > {
        if htlc.amount_msat == 0 {
            Err(CriticalError::ZeroAmountHtlc)
        } else if !self.sane() {
            Err(CriticalError::SanityCheckFailed(self.total() as u64, self.capacity))
        } else if !self.has_node(sender) {
            Err(CriticalError::NodeNotFound(sender))
        } else {
            self.side(sender).add_outcome(hash, htlc)
        }
    }

    /// The channel once an htlc was added on the side of its sender.
    pub open spec fn added(self, sender: PublicKey, hash: PaymentHash, htlc: Htlc) -> ChannelView {
        self.with_sides(sender, self.side(sender).added(hash, htlc), self.other_side(sender))
    }

    /// The channel once an amount that was sent by a node was resolved: it goes to the counterparty on success, and
    /// back to the sender on failure.
    pub open spec fn settled(self, sender: PublicKey, amt: int, success: bool) -> ChannelView {
        if success {
            self.with_sides(sender, self.side(sender), self.other_side(sender).credited(amt))
        } else {
            self.with_sides(sender, self.side(sender).credited(amt), self.other_side(sender))
        }
    }

    /// Whether an htlc that a node sent is in flight.
    pub open spec fn holds(self, sender: PublicKey, hash: PaymentHash) -> bool {
        self.has_node(sender) && self.side(sender).in_flight.dom().contains(hash)
    }

    /// The htlc that a node sent, with its index.
    pub open spec fn htlc(self, sender: PublicKey, hash: PaymentHash) -> (Htlc, u64) {
        self.side(sender).in_flight[hash]
    }

    /// The channel once an htlc was removed from the side of its sender and its amount was settled.
    pub open spec fn removed(self, sender: PublicKey, hash: PaymentHash, success: bool) -> ChannelView {
        self.with_sides(sender, self.side(sender).removed(hash), self.other_side(sender)).settled(
            sender,
            self.htlc(sender, hash).0.amount_msat as int,
            success,
        )
    }

    /// The outcome of removing an htlc: the htlc and its index, or why the removal failed.
    pub open spec fn remove_outcome(self, sender: PublicKey, hash: PaymentHash, success: bool) -> Result<
        (Htlc, u64),
        CriticalError,
    > {
        if !self.has_node(sender) {
            Err(CriticalError::NodeNotFound(sender))
        } else if !self.holds(sender, hash) {
            Err(CriticalError::PaymentHashNotFound(hash))
        } else if !self.removed(sender, hash, success).sane() {
            Err(CriticalError::SanityCheckFailed(self.removed(sender, hash, success).total() as u64, self.capacity))
        } else {
            Ok(self.htlc(sender, hash))
        }
    }

    /// What is wrong with the channel's nodes and policies, if anything.
    pub open spec fn error(self) -> Option<Seq<char>> {
        if self.node_1.policy.pubkey == self.node_2.policy.pubkey {
            Some(
                "Channel should have distinct node pubkeys, got: "@ + self.node_1.policy.pubkey.text()
                    + " for both nodes."@,
            )
        } else if self.node_1.policy.error(self.capacity) is Some {
            self.node_1.policy.error(self.capacity)
        } else {
            self.node_2.policy.error(self.capacity)
        }
    }
}

/// Represents a simulated channel, and is responsible for managing addition and removal of HTLCs from the channel and
/// sanity checks. Channel state is tracked *unidirectionally* for each participant in the channel.
///
/// Each node represented in the channel tracks only its outgoing HTLCs, and balance is transferred between the two
/// nodes as they settle or fail. Given some channel: node_1 <----> node_2:
/// * HTLC sent node_1 -> node_2: added to in-flight outgoing htlcs on node_1.
/// * HTLC sent node_2 -> node_1: added to in-flight outgoing htlcs on node_2.
///
/// Rules for managing balance are as follows:
/// * When an HTLC is in flight, the channel's local outgoing liquidity decreases (as it's locked up).
/// * When an HTLC fails, the balance is returned to the local node (the one that it was in-flight / outgoing on).
/// * When an HTLC succeeds, the balance is sent to the remote node (the one that did not track it as in-flight).
///
/// With each state transition, the simulated channel checks that the sum of its local balances and in-flight equal the
/// total channel capacity. Failure of this sanity check represents a critical failure in the state machine.
#[derive(Debug)]
pub struct SimulatedChannel {
    pub capacity_msat: u64,
    pub short_channel_id: ShortChannelID,
    pub node_1: ChannelState,
    pub node_2: ChannelState,
}

impl View for SimulatedChannel {
    type V = ChannelView;

    open spec fn view(&self) -> ChannelView {
        ChannelView {
            capacity: self.capacity_msat,
            scid: self.short_channel_id,
            node_1: self.node_1@,
            node_2: self.node_2@,
        }
    }
}

/// The information about a simulated node.
pub open spec fn node_info_view(pubkey: PublicKey, alias: Seq<char>) -> NodeInfoView {
    NodeInfoView { pubkey, alias, features: with_keysend_flag(Seq::empty()) }
}

/// Produces the node info for a mocked node, filling in the features that the simulator requires.
pub fn node_info(pubkey: PublicKey, alias: String) -> (info: NodeInfo)
    ensures
        info@ == node_info_view(pubkey, alias@),
{
    // Set any features that the simulator requires here.
    let mut features = NodeFeatures::empty();
    features.set_keysend_optional();
    NodeInfo { pubkey, alias, features }
}

impl SimulatedChannel {
    /// Both sides are well formed, with a total in the range of amounts.
    pub open spec fn wf(&self) -> bool {
        self.node_1.in_flight.wf() && self.node_2.in_flight.wf() && self@.wf()
    }

    /// Creates a new channel with the capacity and policies provided. The total capacity of the channel is evenly
    /// split between the channel participants (this is an arbitrary decision). Node 2 has the odd millisatoshi, if there
    /// is one.
    pub fn new(
        capacity_msat: u64,
        short_channel_id: ShortChannelID,
        node_1: ChannelPolicy,
        node_2: ChannelPolicy,
    ) -> (c: Self)
        ensures
            c.wf(),
            c@ == (ChannelView {
                capacity: capacity_msat,
                scid: short_channel_id,
                node_1: SideView {
                    balance: capacity_msat as int / 2,
                    in_flight: Map::empty(),
                    policy: node_1,
                    index: 0,
                },
                node_2: SideView {
                    balance: capacity_msat - capacity_msat as int / 2,
                    in_flight: Map::empty(),
                    policy: node_2,
                    index: 0,
                },
            }),
            c@.sane(),
    {
        let c = SimulatedChannel {
            capacity_msat,
            short_channel_id,
            node_1: ChannelState::new(node_1, capacity_msat / 2),
            node_2: ChannelState::new(node_2, capacity_msat - capacity_msat / 2),
        };
        assert(amount_in_flight(c@.node_1.in_flight) == 0);
        assert(amount_in_flight(c@.node_2.in_flight) == 0);
        c
    }

    /// Gets the public key of node 1 in the channel.
    pub fn get_node_1_pubkey(&self) -> (k: PublicKey)
        ensures
            k == self@.node_1.policy.pubkey,
    {
        self.node_1.policy.pubkey
    }

    /// Gets the public key of node 2 in the channel.
    pub fn get_node_2_pubkey(&self) -> (k: PublicKey)
        ensures
            k == self@.node_2.policy.pubkey,
    {
        self.node_2.policy.pubkey
    }

    /// Validates that a simulated channel has distinct node pairs and valid routing policies.
    pub fn validate(&self) -> (r: Result<(), SimulationError>)
        ensures
            match self@.error() {
                Some(m) => r matches Err(SimulationError::SimulatedNetworkError(s)) && s@ == m,
                None => r is Ok,
            },
    {
        if self.node_1.policy.pubkey.same(&self.node_2.policy.pubkey) {
            let mut m = text("Channel should have distinct node pubkeys, got: ");
            m.append(self.node_1.policy.pubkey.to_text().as_str());
            m.append(" for both nodes.");
            return Err(SimulationError::SimulatedNetworkError(m));
        }
        if let Err(e) = self.node_1.policy.validate(self.capacity_msat) {
            return Err(e);
        }
        self.node_2.policy.validate(self.capacity_msat)
    }

    /// The state of the side of a node of the channel.
    pub fn get_node(&self, pubkey: &PublicKey) -> (r: Result<&ChannelState, CriticalError>)
        ensures
            if self@.has_node(*pubkey) {
                r matches Ok(s) && s@ == self@.side(*pubkey) && (self.wf() ==> s.wf())
            } else {
                r == Err::<&ChannelState, CriticalError>(CriticalError::NodeNotFound(*pubkey))
            },
    {
        if pubkey.same(&self.node_1.policy.pubkey) {
            Ok(&self.node_1)
        } else if pubkey.same(&self.node_2.policy.pubkey) {
            Ok(&self.node_2)
        } else {
            Err(CriticalError::NodeNotFound(*pubkey))
        }
    }

    /// Adds an htlc to the appropriate side of the simulated channel, checking its policy and balance are okay. The
    /// public key of the node sending the HTLC (ie, the party that would send update_add_htlc in the protocol)
    /// must be provided to add the outgoing htlc to its side of the channel.
    pub fn add_htlc(&mut self, sending_node: &PublicKey, hash: PaymentHash, htlc: Htlc) -> (r: Result<
        Result<u64, ForwardingError>,
        CriticalError,
    >)
        requires
            old(self).wf(),
            old(self)@.in_range(*sending_node, htlc),
        ensures
            final(self).wf(),
            r == old(self)@.add_outcome(*sending_node, hash, htlc),
            final(self)@ == (if r is Ok && r->Ok_0 is Ok {
                old(self)@.added(*sending_node, hash, htlc)
            } else {
                old(self)@
            }),
            final(self)@ == old(self)@.after(ChannelCall::Add(*sending_node, hash, htlc)),
            final(self)@.total() == old(self)@.total(),
    {
        if htlc.amount_msat == 0 {
            return Err(CriticalError::ZeroAmountHtlc);
        }
        if let Err(e) = self.sanity_check() {
            return Err(e);
        }
        proof {
            let side = self@.side(*sending_node);
            if !side.in_flight.dom().contains(hash) {
                lemma_amount_insert(side.in_flight, hash, (htlc, side.index as u64));
            }
        }
        if sending_node.same(&self.node_1.policy.pubkey) {
            self.node_1.add_outgoing_htlc(hash, htlc)
        } else if sending_node.same(&self.node_2.policy.pubkey) {
            self.node_2.add_outgoing_htlc(hash, htlc)
        } else {
            Err(CriticalError::NodeNotFound(*sending_node))
        }
    }

    /// Performs a sanity check on the total balances in a channel. Note that we do not currently include on-chain
    /// fees or reserve so these values should exactly match.
    pub fn sanity_check(&self) -> (r: Result<(), CriticalError>)
        requires
            self.wf(),
        ensures
            r == (if self@.sane() {
                Ok(())
            } else {
                Err(CriticalError::SanityCheckFailed(self@.total() as u64, self.capacity_msat))
            }),
    {
        let node_1_total: u64 = self.node_1.local_balance_msat + self.node_1.in_flight_total();
        let node_2_total: u64 = self.node_2.local_balance_msat + self.node_2.in_flight_total();
        let channel_balance: u64 = node_1_total + node_2_total;
        if channel_balance != self.capacity_msat {
            return Err(CriticalError::SanityCheckFailed(channel_balance, self.capacity_msat));
        }
        Ok(())
    }

    /// Removes an htlc from the appropriate side of the simulated channel, settling balances across channel sides
    /// based on the success of the htlc. The public key of the node that originally sent the HTLC (ie, the party
    /// that would send update_add_htlc in the protocol) must be provided to remove the htlc from its side of the
    /// channel.
    pub fn remove_htlc(&mut self, sending_node: &PublicKey, hash: &PaymentHash, success: bool) -> (r: Result<
        (Htlc, u64),
        CriticalError,
    >)
        requires
            old(self).wf(),
        ensures
            final(self).wf(),
            r == old(self)@.remove_outcome(*sending_node, *hash, success),
            final(self)@ == (if old(self)@.holds(*sending_node, *hash) {
                old(self)@.removed(*sending_node, *hash, success)
            } else {
                old(self)@
            }),
            final(self)@ == old(self)@.after(ChannelCall::Remove(*sending_node, *hash, success)),
            final(self)@.total() == old(self)@.total(),
    {
        proof {
            let side = self@.side(*sending_node);
            if side.in_flight.dom().contains(*hash) {
                lemma_amount_remove(side.in_flight, *hash);
            } else {
                assert(side.in_flight.remove(*hash) =~= side.in_flight);
            }
        }
        let removed = if sending_node.same(&self.node_1.policy.pubkey) {
            self.node_1.remove_outgoing_htlc(hash)
        } else if sending_node.same(&self.node_2.policy.pubkey) {
            self.node_2.remove_outgoing_htlc(hash)
        } else {
            Err(CriticalError::NodeNotFound(*sending_node))
        };
        let htlc = match removed {
            Ok(htlc) => htlc,
            Err(e) => {
                return Err(e);
            },
        };
        if let Err(e) = self.settle_htlc(sending_node, htlc.0.amount_msat, success) {
            return Err(e);
        }
        if let Err(e) = self.sanity_check() {
            return Err(e);
        }
        Ok(htlc)
    }

    /// Updates the local balance of each node in the channel once a htlc has been resolved, pushing funds to the
    /// receiving nodes in the case of a successful payment and returning balance to the sender in the case of a
    /// failure.
    pub fn settle_htlc(&mut self, sending_node: &PublicKey, amount_msat: u64, success: bool) -> (r: Result<
        (),
        CriticalError,
    >)
        requires
            old(self).wf(),
            old(self)@.has_node(*sending_node) ==> old(self)@.total() + amount_msat <= u64::MAX,
        ensures
            final(self).wf(),
            r == (if old(self)@.has_node(*sending_node) {
                Ok(())
            } else {
                Err(CriticalError::NodeNotFound(*sending_node))
            }),
            final(self)@ == (if old(self)@.has_node(*sending_node) {
                old(self)@.settled(*sending_node, amount_msat as int, success)
            } else {
                old(self)@
            }),
    {
        if sending_node.same(&self.node_1.policy.pubkey) {
            self.node_1.settle_outgoing_htlc(amount_msat, success);
            self.node_2.settle_incoming_htlc(amount_msat, success);
            Ok(())
        } else if sending_node.same(&self.node_2.policy.pubkey) {
            self.node_2.settle_outgoing_htlc(amount_msat, success);
            self.node_1.settle_incoming_htlc(amount_msat, success);
            Ok(())
        } else {
            Err(CriticalError::NodeNotFound(*sending_node))
        }
    }

    /// Checks an htlc forward against the outgoing policy of the node provided.
    pub fn check_htlc_forward(
        &self,
        forwarding_node: &PublicKey,
        cltv_delta: u32,
        amount_msat: u64,
        fee_msat: u64,
    ) -> (r: ForwardResult)
        ensures
            r == (if self@.has_node(*forwarding_node) {
                self@.side(*forwarding_node).policy.forward_outcome(cltv_delta, amount_msat, fee_msat)
            } else {
                Err(CriticalError::NodeNotFound(*forwarding_node))
            }),
    {
        match self.get_node(forwarding_node) {
            Ok(side) => side.check_htlc_forward(cltv_delta, amount_msat, fee_msat),
            Err(e) => Err(e),
        }
    }

    /// The information about the two nodes of the channel.
    pub fn create_simulated_nodes(&self) -> (r: (NodeInfo, NodeInfo))
        ensures
            r.0@ == node_info_view(self@.node_1.policy.pubkey, self@.node_1.policy.alias@),
            r.1@ == node_info_view(self@.node_2.policy.pubkey, self@.node_2.policy.alias@),
    {
        (
            node_info(self.node_1.policy.pubkey, self.node_1.policy.alias.clone()),
            node_info(self.node_2.policy.pubkey, self.node_2.policy.alias.clone()),
        )
    }
}

/// Adding an htlc to a channel keeps the sum of its balances and of what is in flight, as does its resolution, so that
/// a channel whose funds make up its capacity keeps doing so.
pub proof fn law_funds_are_conserved(c: ChannelView, sender: PublicKey, hash: PaymentHash, htlc: Htlc, success: bool)
    requires
        c.wf(),
    ensures
        c.add_outcome(sender, hash, htlc) matches Ok(Ok(_)) && c.index_in_range(sender) ==> {
            let d = c.added(sender, hash, htlc);
            d.wf() && d.total() == c.total() && d.capacity == c.capacity
        },
        c.holds(sender, hash) ==> {
            let d = c.removed(sender, hash, success);
            d.wf() && d.total() == c.total() && d.capacity == c.capacity
        },
{
    let side = c.side(sender);
    if side.in_flight.dom().contains(hash) {
        lemma_amount_remove(side.in_flight, hash);
        assert(side.in_flight.remove(hash).dom() =~= side.in_flight.dom().remove(hash));
    } else {
        lemma_amount_insert(side.in_flight, hash, (htlc, side.index as u64));
    }
}

/// An htlc that was added can be resolved by its sender, under the index that was given out for it.
pub proof fn law_added_htlc_can_be_removed(
    c: ChannelView,
    sender: PublicKey,
    hash: PaymentHash,
    htlc: Htlc,
    success: bool,
)
    requires
        c.wf(),
        c.index_in_range(sender),
        c.add_outcome(sender, hash, htlc) matches Ok(Ok(_)),
    ensures
        c.added(sender, hash, htlc).remove_outcome(sender, hash, success) == Ok::<(Htlc, u64), CriticalError>(
            (htlc, c.side(sender).index as u64),
        ),
        c.add_outcome(sender, hash, htlc) == Ok::<Result<u64, ForwardingError>, CriticalError>(
            Ok(c.side(sender).index as u64),
        ),
{
    law_funds_are_conserved(c, sender, hash, htlc, success);
    let d = c.added(sender, hash, htlc);
    law_funds_are_conserved(d, sender, hash, htlc, success);
}

/// An htlc that was added and then failed leaves the balances and the htlcs in flight as they were.
pub proof fn law_failed_htlc_is_undone(c: ChannelView, sender: PublicKey, hash: PaymentHash, htlc: Htlc)
    requires
        c.wf(),
        c.add_outcome(sender, hash, htlc) matches Ok(Ok(_)),
    ensures
        c.added(sender, hash, htlc).removed(sender, hash, false).same_funds(c),
{
    let side = c.side(sender);
    assert(side.in_flight.insert(hash, (htlc, side.index as u64)).remove(hash) =~= side.in_flight);
}

/// An htlc that was added and then succeeded has moved its amount from the balance of its sender to that of the
/// sender's counterparty, and left the htlcs in flight as they were.
pub proof fn law_successful_htlc_moves_its_amount(c: ChannelView, sender: PublicKey, hash: PaymentHash, htlc: Htlc)
    requires
        c.wf(),
        c.add_outcome(sender, hash, htlc) matches Ok(Ok(_)),
    ensures
        c.added(sender, hash, htlc).removed(sender, hash, true).same_funds(
            c.transferred(sender, htlc.amount_msat as int),
        ),
{
    let side = c.side(sender);
    assert(side.in_flight.insert(hash, (htlc, side.index as u64)).remove(hash) =~= side.in_flight);
}

impl ChannelView {
    /// Whether the index of a node's next htlc is in the range of indexes.
    pub open spec fn index_in_range(self, pubkey: PublicKey) -> bool {
        self.side(pubkey).index < u64::MAX
    }

    /// Whether two channels have the same nodes, balances and htlcs in flight.
    pub open spec fn same_funds(self, other: ChannelView) -> bool {
        &&& self.capacity == other.capacity
        &&& self.scid == other.scid
        &&& self.node_1.policy == other.node_1.policy
        &&& self.node_2.policy == other.node_2.policy
        &&& self.node_1.balance == other.node_1.balance
        &&& self.node_2.balance == other.node_2.balance
        &&& self.node_1.in_flight == other.node_1.in_flight
        &&& self.node_2.in_flight == other.node_2.in_flight
    }

    /// The channel once an amount was moved from the balance of a node to that of its counterparty.
    pub open spec fn transferred(self, sender: PublicKey, amt: int) -> ChannelView {
        self.with_sides(sender, self.side(sender).credited(-amt), self.other_side(sender).credited(amt))
    }
}

/// A call that changes one side of a channel, with its arguments.
pub enum SideCall {
    /// Adds an outgoing htlc.
    Add(PaymentHash, Htlc),
    /// Removes an outgoing htlc.
    Remove(PaymentHash),
}

impl SideView {
    /// Whether an htlc is added.
    pub open spec fn takes(self, hash: PaymentHash, htlc: Htlc) -> bool {
        self.add_outcome(hash, htlc) matches Ok(Ok(_))
    }

    /// This side after a call.
    pub open spec fn after(self, call: SideCall) -> SideView {
        match call {
            SideCall::Add(hash, htlc) => if self.takes(hash, htlc) {
                self.added(hash, htlc)
            } else {
                self
            },
            SideCall::Remove(hash) => self.removed(hash),
        }
    }

    /// This side after a sequence of calls.
    pub open spec fn after_all(self, calls: Seq<SideCall>) -> SideView
        decreases calls.len(),
    {
        if calls.len() == 0 {
            self
        } else {
            self.after_all(calls.drop_last()).after(calls.last())
        }
    }

    /// The number of htlcs that a sequence of calls adds.
    pub open spec fn additions(self, calls: Seq<SideCall>) -> nat
        decreases calls.len(),
    {
        if calls.len() == 0 {
            0
        } else {
            let before = self.after_all(calls.drop_last());
            let last: nat = match calls.last() {
                SideCall::Add(hash, htlc) => if before.takes(hash, htlc) {
                    1
                } else {
                    0
                },
                SideCall::Remove(_) => 0,
            };
            self.additions(calls.drop_last()) + last
        }
    }
}

proof fn lemma_additions(s: SideView, calls: Seq<SideCall>)
    ensures
        s.after_all(calls).index == s.index + s.additions(calls),
        s.additions(calls) <= calls.len(),
    decreases calls.len(),
{
    if calls.len() > 0 {
        lemma_additions(s, calls.drop_last());
    }
}

/// Whatever htlcs are added to one side of a channel and removed from it, the next htlc that is added gets the index that
/// counts the additions before it, starting from the index that the side has at first, which is zero for a new one.
/// Removals and additions that fail do not count, and an addition that fails changes nothing.
pub proof fn law_index_counts_additions(s: SideView, calls: Seq<SideCall>, hash: PaymentHash, htlc: Htlc)
    ensures
        ({
            let now = s.after_all(calls);
            &&& now.takes(hash, htlc) ==> now.add_outcome(hash, htlc) == Ok::<
                Result<u64, ForwardingError>,
                CriticalError,
            >(Ok((s.index + s.additions(calls)) as u64))
            &&& !now.takes(hash, htlc) ==> now.after(SideCall::Add(hash, htlc)) == now
        }),
{
    lemma_additions(s, calls);
}

/// No index of an htlc is given out again, whatever htlcs are added and removed in between, as long as there are indexes to
/// give out.
pub proof fn law_no_index_is_reused(
    s: SideView,
    hash: PaymentHash,
    htlc: Htlc,
    calls: Seq<SideCall>,
    next_hash: PaymentHash,
    next_htlc: Htlc,
)
    requires
        0 <= s.index,
        s.added(hash, htlc).after_all(calls).index <= u64::MAX,
        s.takes(hash, htlc),
    ensures
        s.added(hash, htlc).after_all(calls).add_outcome(next_hash, next_htlc) matches Ok(Ok(next)) ==> next
            > s.add_outcome(hash, htlc)->Ok_0->Ok_0,
{
    law_index_counts_additions(s.added(hash, htlc), calls, next_hash, next_htlc);
    lemma_additions(s.added(hash, htlc), calls);
}

/// A call that changes a channel, with its arguments.
pub enum ChannelCall {
    /// Adds an htlc that a node sends.
    Add(PublicKey, PaymentHash, Htlc),
    /// Removes an htlc that a node sent, with or without success.
    Remove(PublicKey, PaymentHash, bool),
}

impl ChannelView {
    /// The channel after a call, whatever its outcome.
    pub open spec fn after(self, call: ChannelCall) -> ChannelView {
        match call {
            ChannelCall::Add(sender, hash, htlc) => if self.add_outcome(sender, hash, htlc) matches Ok(Ok(_)) {
                self.added(sender, hash, htlc)
            } else {
                self
            },
            ChannelCall::Remove(sender, hash, success) => if self.holds(sender, hash) {
                self.removed(sender, hash, success)
            } else {
                self
            },
        }
    }

    /// The channel after a sequence of calls.
    pub open spec fn after_all(self, calls: Seq<ChannelCall>) -> ChannelView
        decreases calls.len(),
    {
        if calls.len() == 0 {
            self
        } else {
            self.after_all(calls.drop_last()).after(calls.last())
        }
    }
}

/// A channel whose balances and htlcs in flight make up its capacity keeps doing so over any sequence of additions and
/// removals of htlcs, whatever their arguments and outcomes.
pub proof fn law_sane_channel_stays_sane(c: ChannelView, calls: Seq<ChannelCall>)
    requires
        c.wf(),
        c.sane(),
        c.node_1.index + calls.len() <= u64::MAX,
        c.node_2.index + calls.len() <= u64::MAX,
    ensures
        c.after_all(calls).sane(),
        c.after_all(calls).wf(),
        c.after_all(calls).capacity == c.capacity,
        c.after_all(calls).node_1.index <= c.node_1.index + calls.len(),
        c.after_all(calls).node_2.index <= c.node_2.index + calls.len(),
    decreases calls.len(),
{
    if calls.len() > 0 {
        let before = c.after_all(calls.drop_last());
        law_sane_channel_stays_sane(c, calls.drop_last());
        match calls.last() {
            ChannelCall::Add(sender, hash, htlc) => {
                law_funds_are_conserved(before, sender, hash, htlc, true);
            },
            ChannelCall::Remove(sender, hash, success) => {
                law_funds_are_conserved(before, sender, hash, Htlc { amount_msat: 0, cltv_expiry: 0 }, success);
            },
        }
    }
}

/// What a policy asks for a forward: the cltv delta of the policy, and a fee of its base fee and its rate in millionths of the
/// amount, rounded down. A forward that offers both is accepted, and one that offers less is not, for any base fee and any
/// rate. The fee that is reported as expected for one that is refused is the least fee that is accepted. There is no
/// decision where the product of the amount and the rate, or the least fee that would do, is out of range.
pub proof fn law_forward_is_accepted_for_its_fee(policy: ChannelPolicy, cltv_delta: u32, amt: u64, fee: u64)
    ensures
        policy.forward_outcome(cltv_delta, amt, fee) matches Ok(Ok(())) <==> {
            &&& cltv_delta >= policy.cltv_expiry_delta
            &&& amt * policy.fee_rate_prop <= u64::MAX
            &&& (fee - policy.base_fee + 1) * 1_000_000 > amt * policy.fee_rate_prop
        },
        policy.forward_outcome(cltv_delta, amt, fee) matches Ok(Err(ForwardingError::InsufficientCltvDelta(_, _)))
            <==> cltv_delta < policy.cltv_expiry_delta,
        policy.forward_outcome(cltv_delta, amt, fee) matches Ok(Err(ForwardingError::InsufficientCltvDelta(d, least)))
            ==> d == cltv_delta && least == policy.cltv_expiry_delta,
        policy.forward_outcome(cltv_delta, amt, fee) matches Ok(Err(ForwardingError::InsufficientFee(offered, f, b, r)))
            ==> {
            &&& offered == fee
            &&& b == policy.base_fee
            &&& r == policy.fee_rate_prop
            &&& fee < f
            &&& (f - policy.base_fee) * 1_000_000 <= amt * policy.fee_rate_prop < (f - policy.base_fee + 1) * 1_000_000
        },
        policy.forward_outcome(cltv_delta, amt, fee) matches Ok(Err(e)) ==> e is InsufficientCltvDelta || e is InsufficientFee,
        policy.forward_outcome(cltv_delta, amt, fee) is Err <==> {
            &&& cltv_delta >= policy.cltv_expiry_delta
            &&& amt * policy.fee_rate_prop > u64::MAX || (u64::MAX - policy.base_fee + 1) * 1_000_000 <= amt
                * policy.fee_rate_prop
        },
        policy.forward_outcome(cltv_delta, amt, fee) matches Err(e) ==> e == CriticalError::FeeOverflow(
            amt,
            policy.base_fee,
            policy.fee_rate_prop,
        ),
{
    let asked = amt * policy.fee_rate_prop;
    assert(asked >= 0) by (nonlinear_arith)
        requires
            asked == amt * policy.fee_rate_prop,
    ;
}

/// A policy is valid for a channel if and only if neither a single htlc nor all htlcs in flight may exceed the capacity.
pub proof fn law_valid_policy_fits_the_capacity(policy: ChannelPolicy, capacity_msat: u64)
    ensures
        policy.error(capacity_msat) is None <==> policy.max_in_flight_msat <= capacity_msat && policy.max_htlc_size_msat
            <= capacity_msat,
{
}

/// A channel is valid if and only if it has two distinct nodes, none of whose limits exceed the capacity.
pub proof fn law_valid_channel_has_distinct_nodes(c: ChannelView)
    ensures
        c.error() is None <==> {
            &&& c.node_1.policy.pubkey != c.node_2.policy.pubkey
            &&& c.node_1.policy.max_in_flight_msat <= c.capacity
            &&& c.node_1.policy.max_htlc_size_msat <= c.capacity
            &&& c.node_2.policy.max_in_flight_msat <= c.capacity
            &&& c.node_2.policy.max_htlc_size_msat <= c.capacity
        },
{
}

/// Nothing is in flight where there are no htlcs, and each htlc adds its amount to the rest.
pub proof fn law_in_flight_is_the_sum_of_amounts(htlcs: InFlightHtlcs, hash: PaymentHash, htlc: Htlc, index: u64)
    requires
        htlcs.dom().finite(),
        !htlcs.dom().contains(hash),
    ensures
        amount_in_flight(Map::empty()) == 0,
        amount_in_flight(htlcs.insert(hash, (htlc, index))) == amount_in_flight(htlcs) + htlc.amount_msat,
{
    lemma_amount_insert(htlcs, hash, (htlc, index));
}

/// An htlc is added if and only if it is within the limits on the size of htlcs, there are fewer htlcs in flight than are
/// allowed, no more than is allowed will be in flight with it, the balance suffices, its expiry is a block height, and its
/// hash is not in flight. Each error is reported for an htlc that breaks the limit it names, with the values that show it,
/// and that keeps the limits which are checked before.
pub proof fn law_added_htlc_keeps_all_limits(s: SideView, hash: PaymentHash, htlc: Htlc)
    requires
        s.wf(),
        0 <= s.balance <= u64::MAX,
        s.in_range(htlc),
    ensures
        s.add_outcome(hash, htlc) matches Ok(Ok(_)) <==> {
            &&& s.policy.min_htlc_size_msat <= htlc.amount_msat <= s.policy.max_htlc_size_msat
            &&& s.in_flight.dom().len() < s.policy.max_htlc_count
            &&& amount_in_flight(s.in_flight) + htlc.amount_msat <= s.policy.max_in_flight_msat
            &&& htlc.amount_msat <= s.balance
            &&& htlc.cltv_expiry <= 500_000_000
            &&& !s.in_flight.dom().contains(hash)
        },
        s.add_outcome(hash, htlc) matches Ok(Ok(i)) ==> i == s.index,
        s.add_outcome(hash, htlc) matches Err(e) ==> e == CriticalError::PaymentHashExists(hash)
            && s.in_flight.dom().contains(hash),
        s.add_outcome(hash, htlc) matches Ok(Err(e)) ==> match e {
            ForwardingError::MoreThanMaximum(a, m) => {
                &&& a == htlc.amount_msat
                &&& m == s.policy.max_htlc_size_msat
                &&& a > m
            },
            ForwardingError::LessThanMinimum(a, m) => {
                &&& a == htlc.amount_msat
                &&& m == s.policy.min_htlc_size_msat
                &&& a < m
                &&& a <= s.policy.max_htlc_size_msat
            },
            ForwardingError::ExceedsInFlightCount(n, m) => {
                &&& n == s.in_flight.dom().len() + 1
                &&& m == s.policy.max_htlc_count
                &&& n > m
                &&& s.policy.min_htlc_size_msat <= htlc.amount_msat <= s.policy.max_htlc_size_msat
            },
            ForwardingError::ExceedsInFlightTotal(t, m) => {
                &&& t == amount_in_flight(s.in_flight) + htlc.amount_msat
                &&& m == s.policy.max_in_flight_msat
                &&& t > m
                &&& s.policy.min_htlc_size_msat <= htlc.amount_msat <= s.policy.max_htlc_size_msat
                &&& s.in_flight.dom().len() < s.policy.max_htlc_count
            },
            ForwardingError::InsufficientBalance(a, b) => {
                &&& a == htlc.amount_msat
                &&& b == s.balance
                &&& a > b
                &&& s.policy.min_htlc_size_msat <= htlc.amount_msat <= s.policy.max_htlc_size_msat
                &&& s.in_flight.dom().len() < s.policy.max_htlc_count
                &&& amount_in_flight(s.in_flight) + htlc.amount_msat <= s.policy.max_in_flight_msat
            },
            ForwardingError::ExpiryInSeconds(x, m) => {
                &&& x == htlc.cltv_expiry
                &&& m == 500_000_000
                &&& x > m
                &&& s.policy.min_htlc_size_msat <= htlc.amount_msat <= s.policy.max_htlc_size_msat
                &&& s.in_flight.dom().len() < s.policy.max_htlc_count
                &&& amount_in_flight(s.in_flight) + htlc.amount_msat <= s.policy.max_in_flight_msat
                &&& htlc.amount_msat <= s.balance
            },
            _ => false,
        },
{
}

/// The total of a channel is what its two nodes have and what they have in flight.
pub proof fn law_total_is_balances_and_htlcs(c: ChannelView)
    ensures
        c.total() == c.node_1.balance + amount_in_flight(c.node_1.in_flight) + c.node_2.balance + amount_in_flight(
            c.node_2.in_flight,
        ),
        c.sane() <==> c.total() == c.capacity,
{
}

/// A node's own side of a channel is the one with its key, and its counterparty has the other.
pub proof fn law_each_node_has_its_own_side(c: ChannelView, pubkey: PublicKey)
    ensures
        c.has_node(pubkey) <==> c.node_1.policy.pubkey == pubkey || c.node_2.policy.pubkey == pubkey,
        c.has_node(pubkey) ==> c.side(pubkey).policy.pubkey == pubkey,
        c.node_1.policy.pubkey == pubkey ==> c.side(pubkey) == c.node_1 && c.other_side(pubkey) == c.node_2,
        c.node_1.policy.pubkey != pubkey && c.node_2.policy.pubkey == pubkey ==> c.side(pubkey) == c.node_2
            && c.other_side(pubkey) == c.node_1,
{
}

/// An htlc is added to a channel if and only if it has an amount, the funds of the channel make up its capacity, its sender is a
/// node of the channel, and the side of the sender takes it. Where it is added, its amount leaves the balance of its sender,
/// it is in flight with the index of its sender, and nothing else changes.
pub proof fn law_htlc_is_added_for_its_sender(c: ChannelView, sender: PublicKey, hash: PaymentHash, htlc: Htlc)
    ensures
        htlc.amount_msat == 0 ==> c.add_outcome(sender, hash, htlc) == Err::<Result<u64, ForwardingError>, CriticalError>(
            CriticalError::ZeroAmountHtlc,
        ),
        htlc.amount_msat > 0 && c.total() != c.capacity ==> c.add_outcome(sender, hash, htlc) == Err::<
            Result<u64, ForwardingError>,
            CriticalError,
        >(CriticalError::SanityCheckFailed(c.total() as u64, c.capacity)),
        htlc.amount_msat > 0 && c.total() == c.capacity ==> c.add_outcome(sender, hash, htlc) == (if sender
            == c.node_1.policy.pubkey {
            c.node_1.add_outcome(hash, htlc)
        } else if sender == c.node_2.policy.pubkey {
            c.node_2.add_outcome(hash, htlc)
        } else {
            Err(CriticalError::NodeNotFound(sender))
        }),
        c.add_outcome(sender, hash, htlc) matches Ok(Ok(i)) ==> {
            let d = c.added(sender, hash, htlc);
            let first = sender == c.node_1.policy.pubkey;
            let (before, after) = if first {
                (c.node_1, d.node_1)
            } else {
                (c.node_2, d.node_2)
            };
            &&& first || sender == c.node_2.policy.pubkey
            &&& d.capacity == c.capacity && d.scid == c.scid
            &&& first ==> d.node_2 == c.node_2
            &&& !first ==> d.node_1 == c.node_1
            &&& after.balance == before.balance - htlc.amount_msat
            &&& after.index == before.index + 1
            &&& after.policy == before.policy
            &&& after.in_flight.dom().contains(hash)
            &&& after.in_flight[hash] == (htlc, i)
            &&& after.in_flight.remove(hash) == before.in_flight
        },
{
    let side = c.side(sender);
    if c.add_outcome(sender, hash, htlc) matches Ok(Ok(_)) {
        assert(side.in_flight.insert(hash, (htlc, side.index as u64)).remove(hash) =~= side.in_flight);
    }
}

/// An htlc that a node of a channel has in flight is resolved for that node: it leaves the node's htlcs, its amount goes to the
/// counterparty's balance on success and back to the node's own on failure, and nothing else changes. There is nothing to
/// resolve for another node, or under another hash.
pub proof fn law_htlc_is_resolved_for_its_sender(c: ChannelView, sender: PublicKey, hash: PaymentHash, success: bool)
    requires
        c.wf(),
        c.sane(),
    ensures
        sender != c.node_1.policy.pubkey && sender != c.node_2.policy.pubkey ==> c.remove_outcome(sender, hash, success)
            == Err::<(Htlc, u64), CriticalError>(CriticalError::NodeNotFound(sender)),
        sender == c.node_1.policy.pubkey && !c.node_1.in_flight.dom().contains(hash) ==> c.remove_outcome(
            sender,
            hash,
            success,
        ) == Err::<(Htlc, u64), CriticalError>(CriticalError::PaymentHashNotFound(hash)),
        sender == c.node_2.policy.pubkey && sender != c.node_1.policy.pubkey && !c.node_2.in_flight.dom().contains(hash)
            ==> c.remove_outcome(sender, hash, success) == Err::<(Htlc, u64), CriticalError>(
            CriticalError::PaymentHashNotFound(hash),
        ),
        sender == c.node_1.policy.pubkey && c.node_1.in_flight.dom().contains(hash) ==> {
            let d = c.removed(sender, hash, success);
            let amount = c.node_1.in_flight[hash].0.amount_msat as int;
            &&& c.holds(sender, hash)
            &&& c.remove_outcome(sender, hash, success) == Ok::<(Htlc, u64), CriticalError>(c.node_1.in_flight[hash])
            &&& d.capacity == c.capacity && d.scid == c.scid
            &&& d.node_1 == (SideView {
                balance: c.node_1.balance + (if success { 0 } else { amount }),
                in_flight: c.node_1.in_flight.remove(hash),
                ..c.node_1
            })
            &&& d.node_2 == (SideView { balance: c.node_2.balance + (if success { amount } else { 0 }), ..c.node_2 })
        },
        sender == c.node_2.policy.pubkey && sender != c.node_1.policy.pubkey && c.node_2.in_flight.dom().contains(hash) ==> {
            let d = c.removed(sender, hash, success);
            let amount = c.node_2.in_flight[hash].0.amount_msat as int;
            &&& c.holds(sender, hash)
            &&& c.remove_outcome(sender, hash, success) == Ok::<(Htlc, u64), CriticalError>(c.node_2.in_flight[hash])
            &&& d.capacity == c.capacity && d.scid == c.scid
            &&& d.node_2 == (SideView {
                balance: c.node_2.balance + (if success { 0 } else { amount }),
                in_flight: c.node_2.in_flight.remove(hash),
                ..c.node_2
            })
            &&& d.node_1 == (SideView { balance: c.node_1.balance + (if success { amount } else { 0 }), ..c.node_1 })
        },
        !c.holds(sender, hash) ==> c.remove_outcome(sender, hash, success) is Err,
{
    law_funds_are_conserved(c, sender, hash, Htlc { amount_msat: 0, cltv_expiry: 0 }, success);
}

} // verus!
