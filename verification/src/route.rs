//! Payment routes: the hops that a payment takes through the network.
use crate::primitives::PublicKey;
use vstd::prelude::*;

verus! {

/// A hop in a route. The fee of the last hop is the amount that the payment delivers.
#[derive(Debug, Clone, Copy)]
pub struct RouteHop {
    /// The node that the hop leads to.
    pub pubkey: PublicKey,
    /// The channel that the hop uses.
    pub short_channel_id: u64,
    /// The fee taken on this hop (for paying for the use of the next channel in the path), or the amount of the
    /// payment on the last hop.
    pub fee_msat: u64,
    /// The CLTV delta added for this hop.
    pub cltv_expiry_delta: u32,
}

/// The sum of the fees of the hops from a position on, which is the amount that is sent over the hop at that position.
pub open spec fn amount_from(hops: Seq<RouteHop>, i: int) -> nat
    decreases hops.len() - i,
{
    if 0 <= i < hops.len() {
        hops[i].fee_msat as nat + amount_from(hops, i + 1)
    } else {
        0
    }
}

/// The sum of the CLTV deltas of the hops from a position on, which is the expiry of the htlc of that hop.
pub open spec fn expiry_from(hops: Seq<RouteHop>, i: int) -> nat
    decreases hops.len() - i,
{
    if 0 <= i < hops.len() {
        hops[i].cltv_expiry_delta as nat + expiry_from(hops, i + 1)
    } else {
        0
    }
}

/// The node that sends the htlc of a hop.
pub open spec fn sender_of(source: PublicKey, hops: Seq<RouteHop>, i: int) -> PublicKey {
    if i == 0 {
        source
    } else {
        hops[i - 1].pubkey
    }
}

/// Later hops carry smaller amounts, with earlier expiries.
pub proof fn lemma_amounts_decrease(hops: Seq<RouteHop>, i: int, j: int)
    requires
        0 <= i <= j,
    ensures
        amount_from(hops, j) <= amount_from(hops, i),
        expiry_from(hops, j) <= expiry_from(hops, i),
    decreases j - i,
{
    if i < j {
        lemma_amounts_decrease(hops, i + 1, j);
    }
}

/// A path through the network.
#[derive(Debug)]
pub struct Path {
    pub hops: Vec<RouteHop>,
}

impl Clone for Path {
    fn clone(&self) -> (r: Self)
        ensures
            r.hops@ == self.hops@,
    {
        let mut hops: Vec<RouteHop> = Vec::new();
        let mut i: usize = 0;
        while i < self.hops.len()
            invariant
                i <= self.hops@.len(),
                hops@ == self.hops@.subrange(0, i as int),
            decreases self.hops@.len() - i,
        {
            hops.push(self.hops[i]);
            assert(self.hops@.subrange(0, i as int + 1) =~= self.hops@.subrange(0, i as int).push(
                self.hops@[i as int],
            ));
            i += 1;
        }
        assert(self.hops@.subrange(0, i as int) =~= self.hops@);
        Path { hops }
    }
}

impl Path {
    /// Whether the path has a hop, and amounts and expiries that are in range.
    pub open spec fn wf(&self) -> bool {
        &&& self.hops@.len() > 0
        &&& amount_from(self.hops@, 0) <= u64::MAX
        &&& expiry_from(self.hops@, 0) <= u32::MAX
    }

    /// The amount that the source of the path sends: what is delivered and all fees.
    pub fn total_msat(&self) -> (total: u64)
        requires
            amount_from(self.hops@, 0) <= u64::MAX,
        ensures
            total == amount_from(self.hops@, 0),
    {
        let mut total: u64 = 0;
        let mut i: usize = self.hops.len();
        while i > 0
            invariant
                i <= self.hops@.len(),
                amount_from(self.hops@, 0) <= u64::MAX,
                total == amount_from(self.hops@, i as int),
            decreases i,
        {
            i -= 1;
            proof {
                lemma_amounts_decrease(self.hops@, 0, i as int);
            }
            total += self.hops[i].fee_msat;
        }
        total
    }

    /// The expiry of the htlc that the source of the path sends.
    pub fn total_expiry(&self) -> (total: u32)
        requires
            expiry_from(self.hops@, 0) <= u32::MAX,
        ensures
            total == expiry_from(self.hops@, 0),
    {
        let mut total: u32 = 0;
        let mut i: usize = self.hops.len();
        while i > 0
            invariant
                i <= self.hops@.len(),
                expiry_from(self.hops@, 0) <= u32::MAX,
                total == expiry_from(self.hops@, i as int),
            decreases i,
        {
            i -= 1;
            proof {
                lemma_amounts_decrease(self.hops@, 0, i as int);
            }
            total += self.hops[i].cltv_expiry_delta;
        }
        total
    }
}

/// The paths over which a payment is sent.
#[derive(Debug)]
pub struct Route {
    pub paths: Vec<Path>,
}

/// The htlc of a hop carries the fee of that hop on top of the htlc of the next one, and expires that much later. Nothing is
/// sent on from the end of a route. The first htlc is sent by the source, and each other by the node that the hop before leads
/// to.
pub proof fn law_htlcs_carry_the_fees_of_later_hops(source: PublicKey, hops: Seq<RouteHop>, i: int)
    requires
        0 <= i < hops.len(),
    ensures
        amount_from(hops, hops.len() as int) == 0,
        expiry_from(hops, hops.len() as int) == 0,
        amount_from(hops, i) - amount_from(hops, i + 1) == hops[i].fee_msat,
        expiry_from(hops, i) - expiry_from(hops, i + 1) == hops[i].cltv_expiry_delta,
        sender_of(source, hops, 0) == source,
        sender_of(source, hops, i + 1) == hops[i].pubkey,
{
}

} // verus!
