//! Random payment activity: destinations are picked by their capacity, and amounts are limited by it.
use crate::generator::DestinationGenerator;
use crate::keyed::Key;
use crate::node::{
    DestinationGenerationError, NodeInfo, PaymentGenerationError, RandomActivityError,
};
use crate::primitives::PublicKey;
use crate::rng::{chacha_pick, weight_sum, MutRng};
use crate::text::{decimal, push_decimal, text};
use vstd::prelude::*;

verus! {

/// Whether a key comes before another one, by their bytes from a position on.
pub open spec fn key_less_from(a: PublicKey, b: PublicKey, i: int) -> bool
    decreases 33 - i,
{
    if i < 0 || i >= 33 {
        false
    } else {
        a.0@[i] < b.0@[i] || (a.0@[i] == b.0@[i] && key_less_from(a, b, i + 1))
    }
}

/// Whether a key comes before another one in the order of their bytes.
pub open spec fn key_less(a: PublicKey, b: PublicKey) -> bool {
    key_less_from(a, b, 0)
}

proof fn lemma_key_order(a: PublicKey, b: PublicKey, c: PublicKey, i: int)
    requires
        0 <= i <= 33,
    ensures
        !(key_less_from(a, b, i) && key_less_from(b, a, i)),
        key_less_from(a, b, i) && key_less_from(b, c, i) ==> key_less_from(a, c, i),
        !key_less_from(b, a, i) && !key_less_from(c, b, i) ==> !key_less_from(c, a, i),
        !key_less_from(a, b, i) && !key_less_from(b, a, i) ==> forall|j: int| i <= j < 33 ==> a.0@[j] == b.0@[j],
    decreases 33 - i,
{
    if i < 33 {
        lemma_key_order(a, b, c, i + 1);
        if !key_less_from(a, b, i) && !key_less_from(b, a, i) {
            assert forall|j: int| i <= j < 33 implies a.0@[j] == b.0@[j] by {
                if j > i {
                    assert(i + 1 <= j);
                }
            }
        }
    }
}

/// Keys that do not come before one another are the same.
proof fn lemma_key_order_is_total(a: PublicKey, b: PublicKey)
    requires
        !key_less(a, b),
        !key_less(b, a),
    ensures
        a == b,
{
    lemma_key_order(a, b, a, 0);
    assert(a.0 =~= b.0);
}

/// Whether a key comes before another one in the order of their bytes.
fn comes_before(a: &PublicKey, b: &PublicKey) -> (r: bool)
    ensures
        r == key_less(*a, *b),
{
    let mut i: usize = 0;
    while i < 33
        invariant
            i <= 33,
            key_less(*a, *b) == key_less_from(*a, *b, i as int),
        decreases 33 - i,
    {
        if a.0[i] < b.0[i] {
            return true;
        }
        if a.0[i] > b.0[i] {
            return false;
        }
        i += 1;
    }
    false
}

/// Nodes are in the order of their keys.
pub open spec fn sorted_by_key(nodes: Seq<(NodeInfo, u64)>) -> bool {
    forall|i: int, j: int|
        #![trigger nodes[i], nodes[j]]
        0 <= i < j < nodes.len() ==> !key_less(nodes[j].0.pubkey, nodes[i].0.pubkey)
}

/// The capacities of nodes.
pub open spec fn capacities(nodes: Seq<(NodeInfo, u64)>) -> Seq<u64> {
    nodes.map_values(|n: (NodeInfo, u64)| n.1)
}

proof fn lemma_sum_insert(s: Seq<u64>, p: int, x: u64)
    requires
        0 <= p <= s.len(),
    ensures
        weight_sum(s.insert(p, x)) == weight_sum(s) + x,
    decreases s.len(),
{
    let t = s.insert(p, x);
    if p == s.len() {
        assert(t.drop_last() =~= s);
    } else {
        assert(t.drop_last() =~= s.drop_last().insert(p, x));
        assert(t.last() == s.last());
        lemma_sum_insert(s.drop_last(), p, x);
    }
}

proof fn lemma_multiset_insert<A>(s: Seq<A>, p: int, x: A)
    requires
        0 <= p <= s.len(),
    ensures
        s.insert(p, x).to_multiset() == s.to_multiset().insert(x),
{
    broadcast use vstd::seq_lib::group_to_multiset_ensures;

    let t = s.insert(p, x);
    assert(t.remove(p) =~= s);
    assert(t[p] == x);
    assert(t.to_multiset().count(x) > 0) by {
        assert(t.contains(x));
    }
    assert(s.to_multiset() == t.to_multiset().remove(x));
    assert(s.to_multiset().insert(x) =~= t.to_multiset());
}

/// Sorts nodes by their keys. Nodes with the same key stay in their order.
fn sort_by_key(nodes: Vec<(NodeInfo, u64)>) -> (sorted: Vec<(NodeInfo, u64)>)
    ensures
        sorted_by_key(sorted@),
        sorted@.to_multiset() == nodes@.to_multiset(),
        sorted@.len() == nodes@.len(),
        weight_sum(capacities(sorted@)) == weight_sum(capacities(nodes@)),
{
    let ghost all = nodes@;
    let mut rest = nodes;
    let mut sorted: Vec<(NodeInfo, u64)> = Vec::new();
    proof {
        broadcast use vstd::seq_lib::group_to_multiset_ensures;

        assert(sorted@ =~= Seq::empty());
        assert(sorted@.to_multiset() =~= vstd::multiset::Multiset::empty());
        assert(rest@.to_multiset().add(sorted@.to_multiset()) =~= all.to_multiset());
        assert(capacities(sorted@) =~= Seq::empty());
    }
    while rest.len() > 0
        invariant
            sorted_by_key(sorted@),
            rest@.to_multiset().add(sorted@.to_multiset()) == all.to_multiset(),
            rest@.len() + sorted@.len() == all.len(),
            weight_sum(capacities(rest@)) + weight_sum(capacities(sorted@)) == weight_sum(capacities(all)),
        decreases rest@.len(),
    {
        let ghost before = rest@;
        let ghost old_sorted = sorted@;
        if let Some(node) = rest.pop() {
            let mut p: usize = 0;
            while p < sorted.len() && comes_before(&sorted[p].0.pubkey, &node.0.pubkey)
                invariant
                    p <= sorted@.len(),
                    sorted@ == old_sorted,
                    forall|i: int| 0 <= i < p ==> key_less((#[trigger] sorted@[i]).0.pubkey, node.0.pubkey),
                ensures
                    p <= sorted@.len(),
                    sorted@ == old_sorted,
                    forall|i: int| 0 <= i < p ==> key_less((#[trigger] sorted@[i]).0.pubkey, node.0.pubkey),
                    p < sorted@.len() ==> !key_less(sorted@[p as int].0.pubkey, node.0.pubkey),
                decreases sorted@.len() - p,
            {
                p += 1;
            }
            let ghost kept = node;
            sorted.insert(p, node);
            proof {
                broadcast use vstd::seq_lib::group_to_multiset_ensures;

                assert(sorted@ =~= old_sorted.insert(p as int, kept));
                assert(before =~= rest@.push(kept));
                lemma_multiset_insert(old_sorted, p as int, kept);
                assert(rest@.to_multiset().add(sorted@.to_multiset()) =~= before.to_multiset().add(
                    old_sorted.to_multiset(),
                ));
                assert(capacities(sorted@) =~= capacities(old_sorted).insert(p as int, kept.1));
                lemma_sum_insert(capacities(old_sorted), p as int, kept.1);
                assert(capacities(before).drop_last() =~= capacities(rest@));
                assert forall|i: int, j: int|
                    #![trigger sorted@[i], sorted@[j]]
                    0 <= i < j < sorted@.len() implies !key_less(sorted@[j].0.pubkey, sorted@[i].0.pubkey) by {
                    let k = kept.0.pubkey;
                    if i < p && j == p {
                        lemma_key_order(sorted@[i].0.pubkey, k, k, 0);
                    } else if i == p {
                        // Everything from the position on does not come before the node.
                        let q = old_sorted[p as int].0.pubkey;
                        if j > p + 1 {
                            assert(!key_less(old_sorted[j - 1].0.pubkey, old_sorted[p as int].0.pubkey));
                        }
                        lemma_key_order(k, q, sorted@[j].0.pubkey, 0);
                    } else if i < p && j > p {
                        assert(!key_less(old_sorted[j - 1].0.pubkey, old_sorted[i].0.pubkey));
                    } else if j < p {
                        assert(!key_less(old_sorted[j].0.pubkey, old_sorted[i].0.pubkey));
                    } else {
                        assert(!key_less(old_sorted[j - 1].0.pubkey, old_sorted[i - 1].0.pubkey));
                    }
                }
            }
        }
    }
    proof {
        broadcast use vstd::seq_lib::group_to_multiset_ensures;

        assert(rest@ =~= Seq::empty());
        assert(rest@.to_multiset() =~= vstd::multiset::Multiset::empty());
        assert(sorted@.to_multiset() =~= all.to_multiset());
        assert(capacities(rest@) =~= Seq::empty());
    }
    sorted
}

/// The order of nodes with different keys is determined by their keys: however the nodes were listed, sorting them
/// gives the same list. So the same draws pick the same destinations.
pub proof fn law_sorted_order_is_unique(a: Seq<(NodeInfo, u64)>, b: Seq<(NodeInfo, u64)>)
    requires
        sorted_by_key(a),
        sorted_by_key(b),
        a.to_multiset() == b.to_multiset(),
        forall|i: int, j: int|
            #![trigger a[i], a[j]]
            0 <= i < j < a.len() ==> a[i].0.pubkey != a[j].0.pubkey,
    ensures
        a == b,
    decreases a.len(),
{
    broadcast use vstd::seq_lib::group_to_multiset_ensures;

    assert(a.len() == a.to_multiset().len());
    assert(b.len() == b.to_multiset().len());
    if a.len() == 0 {
        assert(a =~= b);
    } else {
        let x = a.last();
        let y = b.last();
        let n = a.len() - 1;
        // The last nodes of both lists are in the other list, so neither comes before the other.
        assert(b.contains(x)) by {
            assert(a.contains(x));
            assert(a.to_multiset().count(x) > 0);
        }
        assert(a.contains(y)) by {
            assert(b.contains(y));
            assert(b.to_multiset().count(y) > 0);
        }
        let i = choose|i: int| 0 <= i < b.len() && b[i] == x;
        let j = choose|j: int| 0 <= j < a.len() && a[j] == y;
        if i < n {
            assert(!key_less(b[n].0.pubkey, b[i].0.pubkey));
        } else {
            lemma_key_order(x.0.pubkey, x.0.pubkey, x.0.pubkey, 0);
        }
        if j < n {
            assert(!key_less(a[n].0.pubkey, a[j].0.pubkey));
        } else {
            lemma_key_order(y.0.pubkey, y.0.pubkey, y.0.pubkey, 0);
        }
        lemma_key_order_is_total(x.0.pubkey, y.0.pubkey);
        if j < n {
            assert(a[j].0.pubkey != a[n].0.pubkey);
        }
        assert(x == y);
        let c = a.drop_last();
        let d = b.drop_last();
        assert(a =~= c.push(x));
        assert(b =~= d.push(x));
        assert(c.to_multiset() =~= d.to_multiset()) by {
            assert(a.to_multiset() == c.to_multiset().insert(x));
            assert(b.to_multiset() == d.to_multiset().insert(x));
            assert(c.to_multiset() =~= a.to_multiset().remove(x));
            assert(d.to_multiset() =~= b.to_multiset().remove(x));
        }
        assert(sorted_by_key(c)) by {
            assert forall|i: int, j: int|
                #![trigger c[i], c[j]]
                0 <= i < j < c.len() implies !key_less(c[j].0.pubkey, c[i].0.pubkey) by {
                assert(!key_less(a[j].0.pubkey, a[i].0.pubkey));
            }
        }
        assert(sorted_by_key(d)) by {
            assert forall|i: int, j: int|
                #![trigger d[i], d[j]]
                0 <= i < j < d.len() implies !key_less(d[j].0.pubkey, d[i].0.pubkey) by {
                assert(!key_less(b[j].0.pubkey, b[i].0.pubkey));
            }
        }
        assert forall|i: int, j: int|
            #![trigger c[i], c[j]]
            0 <= i < j < c.len() implies c[i].0.pubkey != c[j].0.pubkey by {
            assert(a[i].0.pubkey != a[j].0.pubkey);
        }
        law_sorted_order_is_unique(c, d);
    }
}

/// How often a destination is drawn before it is given up to find one that is not the source.
pub const MAX_ATTEMPTS: u32 = 0x7fff_ffff;

/// The first node that is not the source among those that are drawn from a position of the stream of a seed on, and
/// the position after it, if there is one within a number of attempts.
pub open spec fn first_destination(
    nodes: Seq<(NodeInfo, u64)>,
    source: PublicKey,
    seed: u64,
    position: u128,
    attempts: nat,
) -> Option<(int, u128)>
    decreases attempts,
{
    if attempts == 0 {
        None
    } else {
        let (i, next) = chacha_pick(capacities(nodes), seed, position);
        if nodes[i as int].0.pubkey != source {
            Some((i as int, next))
        } else {
            first_destination(nodes, source, seed, next, (attempts - 1) as nat)
        }
    }
}

/// The index that is picked after a number of others from a position of the stream of a seed on, and the position after
/// it.
pub open spec fn nth_pick(weights: Seq<u64>, seed: u64, position: u128, n: nat) -> (usize, u128)
    decreases n,
{
    let first = chacha_pick(weights, seed, position);
    if n == 0 {
        first
    } else {
        nth_pick(weights, seed, first.1, (n - 1) as nat)
    }
}

/// A destination is found if and only if one of the nodes that are drawn is not the source, and it is not the source
/// itself then.
pub proof fn law_destination_is_found_if_drawn(
    nodes: Seq<(NodeInfo, u64)>,
    source: PublicKey,
    seed: u64,
    position: u128,
    attempts: nat,
)
    ensures
        first_destination(nodes, source, seed, position, attempts) is Some <==> exists|n: nat|
            n < attempts && nodes[(#[trigger] nth_pick(capacities(nodes), seed, position, n)).0 as int].0.pubkey
                != source,
        first_destination(nodes, source, seed, position, attempts) matches Some((i, _)) ==> nodes[i].0.pubkey != source,
    decreases attempts,
{
    if attempts > 0 {
        let weights = capacities(nodes);
        let first = chacha_pick(weights, seed, position);
        assert(nth_pick(weights, seed, position, 0) == first);
        if nodes[first.0 as int].0.pubkey == source {
            let left = (attempts - 1) as nat;
            law_destination_is_found_if_drawn(nodes, source, seed, first.1, left);
            if first_destination(nodes, source, seed, first.1, left) is Some {
                let n = choose|n: nat|
                    n < left && nodes[(#[trigger] nth_pick(weights, seed, first.1, n)).0 as int].0.pubkey != source;
                assert(nth_pick(weights, seed, position, n + 1) == nth_pick(weights, seed, first.1, n));
            }
            if exists|n: nat|
                n < attempts && nodes[(#[trigger] nth_pick(weights, seed, position, n)).0 as int].0.pubkey != source {
                let n = choose|n: nat|
                    n < attempts && nodes[(#[trigger] nth_pick(weights, seed, position, n)).0 as int].0.pubkey
                        != source;
                assert(n > 0);
                assert(nth_pick(weights, seed, first.1, (n - 1) as nat) == nth_pick(weights, seed, position, n));
            }
        }
    }
}

/// `NetworkGraphView` maintains a view of the network graph that can be used to pick nodes by their deployed liquidity
/// and track node capacity within the network. The `NetworkGraphView` also keeps a random number generator that allows
/// it to deterministically pick nodes. Tracking nodes in the network is memory-expensive, so we
/// use a single tracker for the whole network (in an unbounded environment, we'd make one _per_ node generating
/// random activity, which has a view of the full network except for itself).
/// In order to preserve deterministic events using the same seed, the nodes are sorted by their public keys.
#[derive(Debug)]
pub struct NetworkGraphView {
    nodes: Vec<(NodeInfo, u64)>,
    weights: Vec<u64>,
    rng: MutRng,
}

impl NetworkGraphView {
    /// The nodes of the network with their capacities, in the order of their keys.
    pub closed spec fn nodes(&self) -> Seq<(NodeInfo, u64)> {
        self.nodes@
    }

    /// The random number generator.
    pub closed spec fn rng(&self) -> MutRng {
        self.rng
    }

    /// There are nodes to pick from, each with a chance to be picked.
    #[verifier::type_invariant]
    spec fn in_range(&self) -> bool {
        &&& self.weights@ == capacities(self.nodes@)
        &&& 0 < weight_sum(self.weights@) <= u64::MAX
    }

    /// Creates a network view for the nodes and their capacities (in millisatoshis) provided. Returns an error
    /// if any node's capacity is zero (the node cannot receive), or there are not at least two nodes (one node can't
    /// send to itself).
    pub fn new(nodes: Vec<(NodeInfo, u64)>, rng: MutRng) -> (r: Result<Self, RandomActivityError>)
        requires
            weight_sum(capacities(nodes@)) <= u64::MAX,
        ensures
            if nodes@.len() < 2 {
                r matches Err(RandomActivityError::ValueError(m)) && m@
                    == "at least two nodes required for activity generation"@
            } else if exists|i: int| 0 <= i < nodes@.len() && (#[trigger] nodes@[i]).1 == 0 {
                r matches Err(RandomActivityError::InsufficientCapacity(m)) && m@
                    == "network generator created with zero capacity node"@
            } else {
                &&& r matches Ok(v)
                &&& sorted_by_key(v.nodes())
                &&& v.nodes().to_multiset() == nodes@.to_multiset()
                &&& v.rng() == rng
            },
    {
        if nodes.len() < 2 {
            return Err(
                RandomActivityError::ValueError(text("at least two nodes required for activity generation")),
            );
        }
        let mut i: usize = 0;
        while i < nodes.len()
            invariant
                i <= nodes@.len(),
                nodes@.len() >= 2,
                forall|j: int| 0 <= j < i ==> (#[trigger] nodes@[j]).1 != 0,
            decreases nodes@.len() - i,
        {
            if nodes[i].1 == 0 {
                assert(nodes@[i as int].1 == 0);
                return Err(
                    RandomActivityError::InsufficientCapacity(
                        text("network generator created with zero capacity node"),
                    ),
                );
            }
            i += 1;
        }
        let ghost all = nodes@;
        let sorted = sort_by_key(nodes);
        let mut weights: Vec<u64> = Vec::new();
        let mut k: usize = 0;
        while k < sorted.len()
            invariant
                k <= sorted@.len(),
                weights@ == capacities(sorted@).subrange(0, k as int),
            decreases sorted@.len() - k,
        {
            weights.push(sorted[k].1);
            assert(capacities(sorted@).subrange(0, k as int + 1) =~= capacities(sorted@).subrange(0, k as int).push(
                sorted@[k as int].1,
            ));
            k += 1;
        }
        proof {
            assert(weights@ =~= capacities(sorted@));
            assert(weight_sum(weights@) == weight_sum(capacities(all)));
            assert(capacities(all).last() == all.last().1);
            assert(all[all.len() - 1].1 != 0);
        }
        Ok(NetworkGraphView { nodes: sorted, weights, rng })
    }

    /// The text of the view.
    pub fn to_text(&self) -> (s: String)
        ensures
            s@ == "network graph view with: "@ + decimal(self.nodes().len()) + " channels"@,
    {
        let mut s = text("network graph view with: ");
        push_decimal(&mut s, self.nodes.len() as u64);
        s.append(" channels");
        s
    }
}

impl DestinationGenerator for NetworkGraphView {
    /// Randomly samples the network for a node, weighted by capacity.  Using a single graph view means that it's
    /// possible for a source node to select itself. After sufficient retries, this is highly improbable (even  with
    /// very small graphs, or those with one node significantly more capitalized than others), so the selection is only
    /// given up after a number of attempts that is not reached in practice.
    open spec fn may_choose(
        &self,
        after: &Self,
        source: PublicKey,
        r: Result<(NodeInfo, Option<u64>), DestinationGenerationError>,
    ) -> bool {
        let rng = self.rng();
        &&& after.nodes() == self.nodes()
        &&& after.rng().seed == rng.seed
        &&& match first_destination(self.nodes(), source, rng.seed, rng.position, MAX_ATTEMPTS as nat) {
            Some((i, position)) => {
                &&& 0 <= i < self.nodes().len()
                &&& r matches Ok(d)
                &&& d.0@ == self.nodes()[i].0@
                &&& d.1 == Some(self.nodes()[i].1)
                &&& d.0.pubkey != source
                &&& after.rng().position == position
            },
            None => {
                &&& r matches Err(DestinationGenerationError(m))
                &&& m@ == "Unable to select a destination for: "@ + source.text()
                &&& after.rng().position == nth_pick(
                    capacities(self.nodes()),
                    rng.seed,
                    rng.position,
                    (MAX_ATTEMPTS - 1) as nat,
                ).1
            },
        }
    }

    fn choose_destination(&mut self, source: PublicKey) -> (r: Result<
        (NodeInfo, Option<u64>),
        DestinationGenerationError,
    >)
    {
        proof {
            use_type_invariant(&*self);
        }
        let mut rng = self.rng;
        let mut attempts: u32 = MAX_ATTEMPTS;
        let ghost start = first_destination(
            self.nodes@,
            source,
            self.rng.seed,
            self.rng.position,
            MAX_ATTEMPTS as nat,
        );
        let ghost last = nth_pick(self.weights@, self.rng.seed, self.rng.position, (MAX_ATTEMPTS - 1) as nat);
        while attempts > 0
            invariant
                self.weights@ == capacities(self.nodes@),
                0 < weight_sum(self.weights@) <= u64::MAX,
                *self == *old(self),
                rng.seed == self.rng.seed,
                start == first_destination(self.nodes@, source, rng.seed, rng.position, attempts as nat),
                start == first_destination(
                    old(self).nodes(),
                    source,
                    old(self).rng().seed,
                    old(self).rng().position,
                    MAX_ATTEMPTS as nat,
                ),
                attempts <= MAX_ATTEMPTS,
                attempts > 0 ==> nth_pick(self.weights@, rng.seed, rng.position, (attempts - 1) as nat) == last,
                attempts == 0 ==> rng.position == last.1,
                last == nth_pick(self.weights@, self.rng.seed, self.rng.position, (MAX_ATTEMPTS - 1) as nat),
            decreases attempts,
        {
            let index: usize = rng.pick_weighted(&self.weights);
            let node = &self.nodes[index];
            attempts -= 1;
            if !node.0.pubkey.same(&source) {
                let destination = (node.0.clone(), Some(node.1));
                self.rng = rng;
                return Ok(destination);
            }
        }
        self.rng = rng;
        let mut m = text("Unable to select a destination for: ");
        m.append(source.to_text().as_str());
        Err(DestinationGenerationError(m))
    }
}

/// The capacity that a node needs to send payments of an expected amount: no less than twice the amount.
pub open spec fn required_capacity(expected_payment_amt: u64) -> int {
    2 * expected_payment_amt
}

/// The limit of the amount of payments between two nodes: half of the smaller of their capacities.
pub open spec fn limit_of(source_capacity: u64, destination_capacity: u64) -> int {
    if source_capacity <= destination_capacity {
        source_capacity as int / 2
    } else {
        destination_capacity as int / 2
    }
}

/// RandomPaymentActivity holds what the generation of random payments for an individual node is bound by: the node's
/// capacity and the expected payment amount.
#[derive(Debug, Clone, Copy)]
pub struct RandomPaymentActivity {
    pub source_capacity: u64,
    pub expected_payment_amt: u64,
}

impl RandomPaymentActivity {
    /// What is wrong with the parameters of an activity, if anything. The multiplier by which a node sends its
    /// capacity in a month must not be zero.
    pub open spec fn parameter_error(source_capacity_msat: u64, expected_payment_amt: u64, multiplier_is_zero: bool)
        -> Option<Seq<char>> {
        if source_capacity_msat == 0 {
            Some("source_capacity_msat cannot be zero"@)
        } else if expected_payment_amt == 0 {
            Some("expected_payment_amt cannot be zero"@)
        } else if multiplier_is_zero {
            Some("multiplier cannot be zero"@)
        } else {
            None
        }
    }

    /// The text of the error for a capacity that does not suffice.
    pub open spec fn capacity_error(node_capacity_msat: u64, expected_payment_amt: u64) -> Seq<char> {
        "node needs at least "@ + decimal(required_capacity(expected_payment_amt) as nat) + " capacity (has: "@
            + decimal(node_capacity_msat as nat) + ") to process expected payment amount: "@ + decimal(
            expected_payment_amt as nat,
        )
    }

    /// Creates a new activity generator for a node, returning an error if the node has insufficient capacity deployed
    /// for the expected payment amount provided. Capacity is defined as the sum of the channels that the node has
    /// open in the network divided by two (so that capacity is not double counted with channel counterparties).
    pub fn new(source_capacity_msat: u64, expected_payment_amt: u64, multiplier_is_zero: bool) -> (r: Result<
        Self,
        RandomActivityError,
    >)
        requires
            required_capacity(expected_payment_amt) <= u64::MAX,
        ensures
            match Self::parameter_error(source_capacity_msat, expected_payment_amt, multiplier_is_zero) {
                Some(e) => r matches Err(RandomActivityError::ValueError(m)) && m@ == e,
                None => if source_capacity_msat < required_capacity(expected_payment_amt) {
                    r matches Err(RandomActivityError::InsufficientCapacity(m)) && m@ == Self::capacity_error(
                        source_capacity_msat,
                        expected_payment_amt,
                    )
                } else {
                    r == Ok::<Self, RandomActivityError>(
                        RandomPaymentActivity { source_capacity: source_capacity_msat, expected_payment_amt },
                    )
                },
            },
    {
        if source_capacity_msat == 0 {
            return Err(RandomActivityError::ValueError(text("source_capacity_msat cannot be zero")));
        }
        if expected_payment_amt == 0 {
            return Err(RandomActivityError::ValueError(text("expected_payment_amt cannot be zero")));
        }
        if multiplier_is_zero {
            return Err(RandomActivityError::ValueError(text("multiplier cannot be zero")));
        }
        if let Err(e) = Self::validate_capacity(source_capacity_msat, expected_payment_amt) {
            return Err(e);
        }
        Ok(RandomPaymentActivity { source_capacity: source_capacity_msat, expected_payment_amt })
    }

    /// Validates that the generator will be able to generate payment amounts based on the node's capacity and the
    /// simulation's expected payment amount.
    ///
    /// We will not be able to generate payments if the payment limit for a node pair (half of the smaller node's
    /// capacity) is beneath the expected payment amount, because no log normal distribution has the expected
    /// amount as its mean while keeping 95% of its samples below a limit that is smaller than that mean.
    pub fn validate_capacity(node_capacity_msat: u64, expected_payment_amt: u64) -> (r: Result<
        (),
        RandomActivityError,
    >)
        requires
            required_capacity(expected_payment_amt) <= u64::MAX,
        ensures
            if node_capacity_msat < required_capacity(expected_payment_amt) {
                r matches Err(RandomActivityError::InsufficientCapacity(m)) && m@ == Self::capacity_error(
                    node_capacity_msat,
                    expected_payment_amt,
                )
            } else {
                r is Ok
            },
    {
        let min_required_capacity: u64 = 2 * expected_payment_amt;
        if node_capacity_msat < min_required_capacity {
            let mut m = text("node needs at least ");
            push_decimal(&mut m, min_required_capacity);
            m.append(" capacity (has: ");
            push_decimal(&mut m, node_capacity_msat);
            m.append(") to process expected payment amount: ");
            push_decimal(&mut m, expected_payment_amt);
            return Err(RandomActivityError::InsufficientCapacity(m));
        }
        Ok(())
    }

    /// The limit below which amounts of payments to a destination are kept, for the destination capacity provided.
    /// Amounts can only be generated where the capacity of the destination is known and the expected amount does not
    /// exceed the limit.
    pub fn payment_limit(&self, destination_capacity: Option<u64>) -> (r: Result<u64, PaymentGenerationError>)
        ensures
            match destination_capacity {
                None => r matches Err(PaymentGenerationError(m)) && m@
                    == "destination amount required for payment activity generator"@,
                Some(capacity) => if limit_of(self.source_capacity, capacity) < self.expected_payment_amt {
                    r matches Err(PaymentGenerationError(m)) && m@ == "expected payment amount: "@ + decimal(
                        self.expected_payment_amt as nat,
                    ) + " exceeds payment limit: "@ + decimal(
                        limit_of(self.source_capacity, capacity) as nat,
                    )
                } else {
                    r == Ok::<u64, PaymentGenerationError>(limit_of(self.source_capacity, capacity) as u64)
                },
            },
            r is Ok <==> {
                &&& destination_capacity is Some
                &&& destination_capacity->0 >= 2 * self.expected_payment_amt
                &&& self.source_capacity >= 2 * self.expected_payment_amt
            },
            r matches Ok(limit) ==> {
                let capacity = destination_capacity->0;
                &&& 2 * limit <= self.source_capacity
                &&& 2 * limit <= capacity
                &&& 2 * (limit + 1) > self.source_capacity || 2 * (limit + 1) > capacity
            },
    {
        let destination_capacity: u64 = match destination_capacity {
            Some(capacity) => capacity,
            None => {
                return Err(
                    PaymentGenerationError(text("destination amount required for payment activity generator")),
                );
            },
        };
        let payment_limit: u64 = if self.source_capacity <= destination_capacity {
            self.source_capacity / 2
        } else {
            destination_capacity / 2
        };
        if payment_limit < self.expected_payment_amt {
            let mut m = text("expected payment amount: ");
            push_decimal(&mut m, self.expected_payment_amt);
            m.append(" exceeds payment limit: ");
            push_decimal(&mut m, payment_limit);
            return Err(PaymentGenerationError(m));
        }
        Ok(payment_limit)
    }
}

/// Between nodes whose capacities both suffice for the expected amount, an amount can be generated.
pub proof fn law_sufficient_capacity_admits_amounts(source: u64, destination: u64, expected_payment_amt: u64)
    requires
        source >= required_capacity(expected_payment_amt),
        destination >= required_capacity(expected_payment_amt),
    ensures
        limit_of(source, destination) >= expected_payment_amt,
{
}

/// The limit of the amount of payments between two nodes does not depend on which of them pays. Twice the limit exceeds neither
/// capacity, and the limit is the largest number of which that is true.
pub proof fn law_limit_is_the_largest_that_both_can_hold_twice(source: u64, destination: u64)
    ensures
        limit_of(source, destination) == limit_of(destination, source),
        0 <= limit_of(source, destination),
        2 * limit_of(source, destination) <= source,
        2 * limit_of(source, destination) <= destination,
        2 * (limit_of(source, destination) + 1) > source || 2 * (limit_of(source, destination) + 1) > destination,
{
}

/// Amounts can be generated between two nodes if and only if the capacity of each of them is at least twice the expected amount,
/// which is also what decides on the capacity of a single node.
pub proof fn law_amounts_need_twice_the_expected_capacity(source: u64, destination: u64, expected_payment_amt: u64)
    ensures
        source < required_capacity(expected_payment_amt) <==> source < 2 * expected_payment_amt,
        limit_of(source, destination) >= expected_payment_amt <==> source >= 2 * expected_payment_amt && destination >= 2
            * expected_payment_amt,
{
}

/// The parameters of an activity are accepted if and only if none of them is zero.
pub proof fn law_no_parameter_is_zero(source_capacity_msat: u64, expected_payment_amt: u64, multiplier_is_zero: bool)
    ensures
        RandomPaymentActivity::parameter_error(source_capacity_msat, expected_payment_amt, multiplier_is_zero) is None
            <==> source_capacity_msat > 0 && expected_payment_amt > 0 && !multiplier_is_zero,
{
}

/// The weights by which nodes are picked are their capacities, in the order of the nodes.
pub proof fn law_nodes_are_picked_by_capacity(nodes: Seq<(NodeInfo, u64)>)
    ensures
        capacities(nodes).len() == nodes.len(),
        forall|i: int| 0 <= i < nodes.len() ==> #[trigger] capacities(nodes)[i] == nodes[i].1,
{
}

proof fn lemma_key_less_from(a: PublicKey, b: PublicKey, i: int)
    requires
        0 <= i <= 33,
    ensures
        key_less_from(a, b, i) <==> exists|p: int|
            i <= p < 33 && #[trigger] a.0@[p] < b.0@[p] && forall|q: int| i <= q < p ==> #[trigger] a.0@[q] == b.0@[q],
    decreases 33 - i,
{
    if i < 33 {
        lemma_key_less_from(a, b, i + 1);
        if key_less_from(a, b, i) {
            if a.0@[i] < b.0@[i] {
                assert(i <= i < 33 && a.0@[i] < b.0@[i] && forall|q: int| i <= q < i ==> #[trigger] a.0@[q] == b.0@[q]);
            } else {
                let p = choose|p: int|
                    i + 1 <= p < 33 && #[trigger] a.0@[p] < b.0@[p] && forall|q: int|
                        i + 1 <= q < p ==> #[trigger] a.0@[q] == b.0@[q];
                assert(i <= p < 33 && a.0@[p] < b.0@[p] && forall|q: int| i <= q < p ==> #[trigger] a.0@[q] == b.0@[q]);
            }
        }
        if exists|p: int|
            i <= p < 33 && #[trigger] a.0@[p] < b.0@[p] && forall|q: int| i <= q < p ==> #[trigger] a.0@[q] == b.0@[q] {
            let p = choose|p: int|
                i <= p < 33 && #[trigger] a.0@[p] < b.0@[p] && forall|q: int| i <= q < p ==> #[trigger] a.0@[q] == b.0@[q];
            if p > i {
                assert(a.0@[i] == b.0@[i]);
                assert(i + 1 <= p < 33 && a.0@[p] < b.0@[p] && forall|q: int|
                    i + 1 <= q < p ==> #[trigger] a.0@[q] == b.0@[q]);
            }
        }
    }
}

/// A key comes before another one if and only if it has the smaller byte where they first differ.
pub proof fn law_keys_are_ordered_by_their_first_difference(a: PublicKey, b: PublicKey)
    ensures
        key_less(a, b) <==> exists|p: int|
            0 <= p < 33 && #[trigger] a.0@[p] < b.0@[p] && forall|q: int| 0 <= q < p ==> #[trigger] a.0@[q] == b.0@[q],
{
    lemma_key_less_from(a, b, 0);
}

/// Each pick goes on where the one before it ended.
pub proof fn law_picks_follow_one_another(weights: Seq<u64>, seed: u64, position: u128, n: nat)
    ensures
        nth_pick(weights, seed, position, 0) == chacha_pick(weights, seed, position),
        nth_pick(weights, seed, position, n + 1) == chacha_pick(weights, seed, nth_pick(weights, seed, position, n).1),
    decreases n,
{
    let next = chacha_pick(weights, seed, position).1;
    if n > 0 {
        law_picks_follow_one_another(weights, seed, next, (n - 1) as nat);
    } else {
        assert(nth_pick(weights, seed, position, 1) == nth_pick(weights, seed, next, 0));
    }
}

/// The destination that is found is the first node that is picked by its capacity and is not the source: all picks before it are
/// the source, and the next destination is picked from where this one ended.
pub proof fn law_first_node_that_is_not_the_source_is_found(
    nodes: Seq<(NodeInfo, u64)>,
    source: PublicKey,
    seed: u64,
    position: u128,
    attempts: nat,
)
    ensures
        first_destination(nodes, source, seed, position, attempts) matches Some((i, after)) ==> exists|n: nat|
            {
                let pick = #[trigger] nth_pick(capacities(nodes), seed, position, n);
                &&& n < attempts
                &&& pick.0 == i
                &&& pick.1 == after
                &&& nodes[i].0.pubkey != source
                &&& forall|m: nat|
                    m < n ==> nodes[(#[trigger] nth_pick(capacities(nodes), seed, position, m)).0 as int].0.pubkey == source
            },
    decreases attempts,
{
    if attempts > 0 {
        let weights = capacities(nodes);
        let first = chacha_pick(weights, seed, position);
        assert(nth_pick(weights, seed, position, 0) == first);
        if nodes[first.0 as int].0.pubkey == source {
            let left = (attempts - 1) as nat;
            law_first_node_that_is_not_the_source_is_found(nodes, source, seed, first.1, left);
            if let Some((i, after)) = first_destination(nodes, source, seed, first.1, left) {
                let n = choose|n: nat|
                    {
                        let pick = #[trigger] nth_pick(weights, seed, first.1, n);
                        &&& n < left
                        &&& pick.0 == i
                        &&& pick.1 == after
                        &&& nodes[i].0.pubkey != source
                        &&& forall|m: nat|
                            m < n ==> nodes[(#[trigger] nth_pick(weights, seed, first.1, m)).0 as int].0.pubkey == source
                    };
                assert(nth_pick(weights, seed, position, n + 1) == nth_pick(weights, seed, first.1, n));
                assert forall|m: nat| m < n + 1 implies nodes[(#[trigger] nth_pick(weights, seed, position, m)).0 as int].0.pubkey
                    == source by {
                    if m > 0 {
                        assert(nth_pick(weights, seed, position, m) == nth_pick(weights, seed, first.1, (m - 1) as nat));
                    }
                }
            }
        }
    }
}

/// A destination is chosen with its capacity: it is the first node that is drawn and is not the source, and the next draw goes on
/// from there. No destination is chosen only if all nodes that are drawn are the source. The nodes stay the same.
pub proof fn law_chosen_destination_is_the_first_that_is_not_the_source(
    before: NetworkGraphView,
    after: NetworkGraphView,
    source: PublicKey,
    r: Result<(NodeInfo, Option<u64>), DestinationGenerationError>,
)
    requires
        before.may_choose(&after, source, r),
    ensures
        after.nodes() == before.nodes(),
        after.rng().seed == before.rng().seed,
        r matches Ok(d) ==> d.0.pubkey != source && exists|n: nat|
            {
                let pick = #[trigger] nth_pick(capacities(before.nodes()), before.rng().seed, before.rng().position, n);
                &&& n < 0x7fff_ffff
                &&& pick.0 < before.nodes().len()
                &&& d.0@ == before.nodes()[pick.0 as int].0@
                &&& d.1 == Some(before.nodes()[pick.0 as int].1)
                &&& after.rng().position == pick.1
                &&& forall|m: nat|
                    m < n ==> before.nodes()[(#[trigger] nth_pick(
                        capacities(before.nodes()),
                        before.rng().seed,
                        before.rng().position,
                        m,
                    )).0 as int].0.pubkey == source
            },
        r is Err ==> {
            &&& after.rng().position == nth_pick(
                capacities(before.nodes()),
                before.rng().seed,
                before.rng().position,
                0x7fff_fffe,
            ).1
            &&& forall|n: nat|
                n < 0x7fff_ffff ==> before.nodes()[(#[trigger] nth_pick(
                    capacities(before.nodes()),
                    before.rng().seed,
                    before.rng().position,
                    n,
                )).0 as int].0.pubkey == source
        },
{
    let rng = before.rng();
    law_first_node_that_is_not_the_source_is_found(before.nodes(), source, rng.seed, rng.position, MAX_ATTEMPTS as nat);
    law_destination_is_found_if_drawn(before.nodes(), source, rng.seed, rng.position, MAX_ATTEMPTS as nat);
}

} // verus!
