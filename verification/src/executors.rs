//! What executes the activity of a simulation: a generator of payments for each source node.
use crate::defined_activity::DefinedPaymentActivity;
use crate::keyed::KeyedMap;
use crate::node::{ActivityDefinition, NodeInfo, NodeInfoView, RandomActivityError, SimulationError};
use crate::primitives::PublicKey;
use crate::random_activity::{
    capacities, required_capacity, sorted_by_key, NetworkGraphView, RandomPaymentActivity,
};
use crate::rng::{is_drawn_seed, weight_sum, MutRng};
use crate::tasks::{active_capacity, eligible_capacity, law_capacity_is_half_of_all_channels};
use crate::text::text;
use vstd::prelude::*;

verus! {

/// The components required to spin up an activity that was defined by the user.
#[derive(Debug)]
pub struct ExecutorKit {
    /// The node that payments are sent from.
    pub source_info: NodeInfo,
    /// What generates destinations, times and amounts of the payments.
    pub generator: DefinedPaymentActivity,
}

/// Whether values can be drawn from the interval and the amount of an activity.
pub open spec fn definition_wf(a: ActivityDefinition) -> bool {
    a.interval_secs.widened().wf() && a.amount_msat.wf()
}

/// Whether an executor is that of an activity.
pub open spec fn executes(kit: ExecutorKit, a: ActivityDefinition) -> bool {
    &&& kit.source_info@ == a.source@
    &&& kit.generator.destination() == a.destination@
    &&& kit.generator.start() == (match a.start_secs {
        Some(s) => Some(s as u64),
        None => None,
    })
    &&& kit.generator.count() == a.count
    &&& kit.generator.wait() == a.interval_secs
    &&& kit.generator.amount() == a.amount_msat
}

/// Creates the executors of activities that were defined by the user, in their order.
pub fn activity_executors(activity: &Vec<ActivityDefinition>) -> (kits: Vec<ExecutorKit>)
    requires
        forall|i: int| 0 <= i < activity@.len() ==> definition_wf(#[trigger] activity@[i]),
    ensures
        kits@.len() == activity@.len(),
        forall|i: int| 0 <= i < activity@.len() ==> executes(#[trigger] kits@[i], activity@[i]),
{
    let mut kits: Vec<ExecutorKit> = Vec::new();
    let mut i: usize = 0;
    while i < activity.len()
        invariant
            i <= activity@.len(),
            kits@.len() == i,
            forall|j: int| 0 <= j < activity@.len() ==> definition_wf(#[trigger] activity@[j]),
            forall|j: int| 0 <= j < i ==> executes(#[trigger] kits@[j], activity@[j]),
        decreases activity@.len() - i,
    {
        let description = &activity[i];
        assert(definition_wf(activity@[i as int]));
        let start = match description.start_secs {
            Some(s) => Some(s as u64),
            None => None,
        };
        let generator = DefinedPaymentActivity::new(
            description.destination.clone(),
            start,
            description.count,
            description.interval_secs,
            description.amount_msat,
        );
        kits.push(ExecutorKit { source_info: description.source.clone(), generator });
        i += 1;
    }
    kits
}

/// The components required to spin up random activity on a node.
#[derive(Debug)]
pub struct RandomExecutor {
    /// The node that payments are sent from.
    pub source_info: NodeInfo,
    /// What payments are bound by.
    pub activity: RandomPaymentActivity,
    /// The random number generator of the node.
    pub rng: MutRng,
}

/// The components required to spin up random activity on the nodes of a network.
#[derive(Debug)]
pub struct RandomSetup {
    /// What destinations are picked from, shared by all nodes.
    pub network: NetworkGraphView,
    /// An executor for each node that is eligible for random activity.
    pub executors: Vec<RandomExecutor>,
}

/// The nodes with sufficient channels for an expected payment amount, each with its capacity.
pub open spec fn eligible(nodes: Seq<(NodeInfo, Vec<u64>)>, expected_payment_msat: u64) -> Seq<(NodeInfoView, u64)>
    decreases nodes.len(),
{
    if nodes.len() == 0 {
        Seq::empty()
    } else {
        let before = eligible(nodes.drop_last(), expected_payment_msat);
        match active_capacity(nodes.last().1@, expected_payment_msat) {
            Some(capacity) => before.push((nodes.last().0@, capacity)),
            None => before,
        }
    }
}

proof fn lemma_eligible_capacity(nodes: Seq<(NodeInfo, Vec<u64>)>, expected_payment_msat: u64)
    requires
        forall|i: int| 0 <= i < nodes.len() ==> weight_sum((#[trigger] nodes[i]).1@) <= u64::MAX,
    ensures
        forall|i: int|
            0 <= i < eligible(nodes, expected_payment_msat).len() ==> (#[trigger] eligible(
                nodes,
                expected_payment_msat,
            )[i]).1 >= required_capacity(expected_payment_msat),
    decreases nodes.len(),
{
    if nodes.len() > 0 {
        let before = nodes.drop_last();
        assert forall|i: int| 0 <= i < before.len() implies weight_sum((#[trigger] before[i]).1@) <= u64::MAX by {
            assert(before[i] == nodes[i]);
        }
        lemma_eligible_capacity(before, expected_payment_msat);
        let fewer = eligible(before, expected_payment_msat);
        let all = eligible(nodes, expected_payment_msat);
        assert(weight_sum(nodes[nodes.len() - 1].1@) <= u64::MAX);
        assert forall|i: int| 0 <= i < all.len() implies (#[trigger] all[i]).1 >= required_capacity(
            expected_payment_msat,
        ) by {
            if i < fewer.len() {
                assert(all[i] == fewer[i]);
            }
        }
    }
}

/// The contents of nodes with their capacities.
pub open spec fn node_views(nodes: Seq<(NodeInfo, u64)>) -> Seq<(NodeInfoView, u64)> {
    nodes.map_values(|n: (NodeInfo, u64)| (n.0@, n.1))
}

/// The capacities of nodes.
pub open spec fn view_capacities(nodes: Seq<(NodeInfoView, u64)>) -> Seq<u64> {
    nodes.map_values(|n: (NodeInfoView, u64)| n.1)
}

fn copy_nodes(nodes: &Vec<(NodeInfo, u64)>) -> (c: Vec<(NodeInfo, u64)>)
    ensures
        node_views(c@) == node_views(nodes@),
        capacities(c@) == capacities(nodes@),
{
    let mut c: Vec<(NodeInfo, u64)> = Vec::new();
    let mut i: usize = 0;
    while i < nodes.len()
        invariant
            i <= nodes@.len(),
            node_views(c@) == node_views(nodes@).subrange(0, i as int),
            capacities(c@) == capacities(nodes@).subrange(0, i as int),
        decreases nodes@.len() - i,
    {
        let ghost before = c@;
        let copied = (nodes[i].0.clone(), nodes[i].1);
        let ghost kept = copied;
        c.push(copied);
        proof {
            assert(node_views(c@) =~= node_views(before).push((kept.0@, kept.1)));
            assert(capacities(c@) =~= capacities(before).push(kept.1));
            assert(node_views(nodes@).subrange(0, i as int + 1) =~= node_views(nodes@).subrange(0, i as int).push(
                node_views(nodes@)[i as int],
            ));
            assert(capacities(nodes@).subrange(0, i as int + 1) =~= capacities(nodes@).subrange(0, i as int).push(
                capacities(nodes@)[i as int],
            ));
        }
        i += 1;
    }
    assert(node_views(nodes@).subrange(0, i as int) =~= node_views(nodes@));
    assert(capacities(nodes@).subrange(0, i as int) =~= capacities(nodes@));
    c
}

/// Creates the executors of random activity for the nodes and their channels provided. Only the subset of nodes that
/// have sufficient capacity to generate payments of our expected payment amount is active. A seed makes the picks of
/// destinations reproducible, and is salted for the generator of each node.
pub fn random_activity_nodes(
    nodes: &Vec<(NodeInfo, Vec<u64>)>,
    expected_payment_msat: u64,
    multiplier_is_zero: bool,
    seed: Option<u64>,
) -> (r: Result<RandomSetup, SimulationError>)
    requires
        required_capacity(expected_payment_msat) <= u64::MAX,
        forall|i: int| 0 <= i < nodes@.len() ==> weight_sum((#[trigger] nodes@[i]).1@) <= u64::MAX,
        weight_sum(view_capacities(eligible(nodes@, expected_payment_msat))) <= u64::MAX,
    ensures
        ({
            let active = eligible(nodes@, expected_payment_msat);
            if active.len() < 2 {
                r matches Err(SimulationError::RandomActivityError(RandomActivityError::ValueError(m))) && m@
                    == "at least two nodes required for activity generation"@
            } else if exists|i: int| 0 <= i < active.len() && (#[trigger] active[i]).1 == 0 {
                r matches Err(SimulationError::RandomActivityError(RandomActivityError::InsufficientCapacity(m))) && m@
                    == "network generator created with zero capacity node"@
            } else {
                match RandomPaymentActivity::parameter_error(active[0].1, expected_payment_msat, multiplier_is_zero) {
                    Some(e) => r matches Err(SimulationError::RandomActivityError(RandomActivityError::ValueError(m))) && m@
                        == e,
                    None => {
                        &&& r matches Ok(setup)
                        &&& sorted_by_key(setup.network.nodes())
                        &&& exists|list: Seq<(NodeInfo, u64)>|
                            #[trigger] node_views(list) == active && setup.network.nodes().to_multiset()
                                == list.to_multiset()
                        &&& setup.network.rng().position == 0
                        &&& seed is None ==> is_drawn_seed(setup.network.rng().seed)
                        &&& seed matches Some(s) ==> setup.network.rng().is_made_of(s, None)
                        &&& setup.executors@.len() == active.len()
                        &&& forall|i: int|
                            0 <= i < active.len() ==> {
                                let x = #[trigger] setup.executors@[i];
                                &&& x.source_info@ == active[i].0
                                &&& x.activity == (RandomPaymentActivity {
                                    source_capacity: active[i].1,
                                    expected_payment_amt: expected_payment_msat,
                                })
                                &&& x.rng.position == 0
                                &&& seed is None ==> is_drawn_seed(x.rng.seed)
                                &&& seed matches Some(s) ==> x.rng.is_made_of(s, Some(active[i].0.pubkey))
                            }
                    },
                }
            }
        }),
{
    let ghost active = eligible(nodes@, expected_payment_msat);
    let mut active_nodes: Vec<(NodeInfo, u64)> = Vec::new();
    let mut i: usize = 0;
    assert(nodes@.subrange(0, 0) =~= Seq::empty());
    assert(node_views(active_nodes@) =~= Seq::empty());
    while i < nodes.len()
        invariant
            i <= nodes@.len(),
            required_capacity(expected_payment_msat) <= u64::MAX,
            forall|j: int| 0 <= j < nodes@.len() ==> weight_sum((#[trigger] nodes@[j]).1@) <= u64::MAX,
            node_views(active_nodes@) == eligible(nodes@.subrange(0, i as int), expected_payment_msat),
        decreases nodes@.len() - i,
    {
        let node = &nodes[i];
        let ghost before = active_nodes@;
        proof {
            let next = nodes@.subrange(0, i as int + 1);
            assert(next.drop_last() =~= nodes@.subrange(0, i as int));
            assert(next.last() == nodes@[i as int]);
            assert(weight_sum(nodes@[i as int].1@) <= u64::MAX);
        }
        if let Some(capacity) = eligible_capacity(&node.1, expected_payment_msat) {
            let entry = (node.0.clone(), capacity);
            let ghost kept = entry;
            active_nodes.push(entry);
            assert(node_views(active_nodes@) =~= node_views(before).push((kept.0@, kept.1)));
        }
        i += 1;
    }
    assert(nodes@.subrange(0, i as int) =~= nodes@);
    let n: usize = active_nodes.len();
    proof {
        assert(active.len() == n);
        assert(capacities(active_nodes@) =~= view_capacities(active));
        lemma_eligible_capacity(nodes@, expected_payment_msat);
        assert forall|j: int| 0 <= j < n implies #[trigger] active[j] == (active_nodes@[j].0@, active_nodes@[j].1) by {}
    }
    // Create a network generator with a random number generator that is shared by all nodes.
    let shared_rng = match seed {
        Some(s) => MutRng::new(Some((s, None))),
        None => MutRng::new(None),
    };
    let list = copy_nodes(&active_nodes);
    let ghost listed = list@;
    proof {
        assert(listed.len() == node_views(listed).len());
        assert forall|j: int| 0 <= j < n implies (#[trigger] listed[j]).1 == active[j].1 by {
            assert(node_views(listed)[j] == active[j]);
        }
        if exists|j: int| 0 <= j < active.len() && (#[trigger] active[j]).1 == 0 {
            let j = choose|j: int| 0 <= j < active.len() && (#[trigger] active[j]).1 == 0;
            assert(listed[j].1 == 0);
        }
        if exists|j: int| 0 <= j < listed.len() && (#[trigger] listed[j]).1 == 0 {
            let j = choose|j: int| 0 <= j < listed.len() && (#[trigger] listed[j]).1 == 0;
            assert(active[j].1 == 0);
        }
    }
    let network = match NetworkGraphView::new(list, shared_rng) {
        Ok(network) => network,
        Err(e) => {
            return Err(SimulationError::RandomActivityError(e));
        },
    };
    let mut executors: Vec<RandomExecutor> = Vec::new();
    let mut k: usize = 0;
    while k < n
        invariant
            k <= n,
            n == active_nodes@.len(),
            n == active.len(),
            n >= 2,
            required_capacity(expected_payment_msat) <= u64::MAX,
            forall|j: int| 0 <= j < n ==> #[trigger] active[j] == (active_nodes@[j].0@, active_nodes@[j].1),
            active == eligible(nodes@, expected_payment_msat),
            !(exists|j: int| 0 <= j < active.len() && (#[trigger] active[j]).1 == 0),
            forall|j: int| 0 <= j < n ==> (#[trigger] active[j]).1 >= required_capacity(expected_payment_msat),
            k > 0 ==> RandomPaymentActivity::parameter_error(active[0].1, expected_payment_msat, multiplier_is_zero)
                is None,
            executors@.len() == k,
            forall|j: int|
                0 <= j < k ==> {
                    let x = #[trigger] executors@[j];
                    &&& x.source_info@ == active[j].0
                    &&& x.activity == (RandomPaymentActivity {
                        source_capacity: active[j].1,
                        expected_payment_amt: expected_payment_msat,
                    })
                    &&& x.rng.position == 0
                    &&& seed is None ==> is_drawn_seed(x.rng.seed)
                    &&& seed matches Some(s) ==> x.rng.is_made_of(s, Some(active[j].0.pubkey))
                },
        decreases n - k,
    {
        let node = &active_nodes[k];
        proof {
            assert(active[k as int] == (active_nodes@[k as int].0@, active_nodes@[k as int].1));
            assert(active[0].1 != 0 && active[k as int].1 != 0);
        }
        // Create a salted RNG for this node based on its pubkey.
        let rng = match seed {
            Some(s) => MutRng::new(Some((s, Some(&node.0.pubkey)))),
            None => MutRng::new(None),
        };
        match RandomPaymentActivity::new(node.1, expected_payment_msat, multiplier_is_zero) {
            Ok(activity) => {
                executors.push(RandomExecutor { source_info: node.0.clone(), activity, rng });
            },
            Err(e) => {
                return Err(SimulationError::RandomActivityError(e));
            },
        }
        k += 1;
    }
    proof {
        assert(node_views(listed) == active);
    }
    Ok(RandomSetup { network, executors })
}

/// Looks up the channel to the consumer of the events of a node, which must be there for the producer of an activity
/// to be dispatched.
pub fn producer_channel<'a, V>(channels: &'a KeyedMap<PublicKey, V>, source: &PublicKey) -> (r: Result<
    &'a V,
    SimulationError,
>)
    requires
        channels.wf(),
    ensures
        if channels@.dom().contains(*source) {
            r matches Ok(c) && *c == channels@[*source]
        } else {
            &&& r matches Err(SimulationError::RandomActivityError(RandomActivityError::ValueError(m)))
            &&& m@ == "Activity producer for: "@ + source.text() + " not found."@
        },
{
    match channels.get(source) {
        Some(c) => Ok(c),
        None => {
            let mut m = text("Activity producer for: ");
            m.append(source.to_text().as_str());
            m.append(" not found.");
            Err(SimulationError::RandomActivityError(RandomActivityError::ValueError(m)))
        },
    }
}

/// Exactly the nodes whose channels sum up to at least four times the expected amount are eligible, in their order, and each takes
/// part with half of that sum, rounded down.
pub proof fn law_eligible_nodes_have_the_capacity(nodes: Seq<(NodeInfo, Vec<u64>)>, expected_payment_msat: u64)
    requires
        forall|i: int| 0 <= i < nodes.len() ==> weight_sum((#[trigger] nodes[i]).1@) <= u64::MAX,
    ensures
        eligible(nodes, expected_payment_msat) == nodes.filter(
            |n: (NodeInfo, Vec<u64>)| weight_sum(n.1@) >= 4 * expected_payment_msat,
        ).map_values(|n: (NodeInfo, Vec<u64>)| (n.0@, (weight_sum(n.1@) / 2) as u64)),
    decreases nodes.len(),
{
    let pred = |n: (NodeInfo, Vec<u64>)| weight_sum(n.1@) >= 4 * expected_payment_msat;
    let view = |n: (NodeInfo, Vec<u64>)| (n.0@, (weight_sum(n.1@) / 2) as u64);
    reveal(Seq::filter);
    if nodes.len() > 0 {
        let before = nodes.drop_last();
        assert forall|i: int| 0 <= i < before.len() implies weight_sum((#[trigger] before[i]).1@) <= u64::MAX by {
            assert(before[i] == nodes[i]);
        }
        law_eligible_nodes_have_the_capacity(before, expected_payment_msat);
        let last = nodes.last();
        assert(weight_sum(nodes[nodes.len() - 1].1@) <= u64::MAX);
        law_capacity_is_half_of_all_channels(last.1@, expected_payment_msat);
        if pred(last) {
            assert(nodes.filter(pred) == before.filter(pred).push(last));
            assert(before.filter(pred).push(last).map_values(view) =~= before.filter(pred).map_values(view).push(view(last)));
        }
    } else {
        assert(nodes.filter(pred).map_values(view) =~= Seq::empty());
    }
}

/// What executes an activity pays from its source to its destination, with its start, its number of payments, its interval and its
/// amount.
pub proof fn law_activity_is_executed_as_defined(kit: ExecutorKit, a: ActivityDefinition)
    requires
        executes(kit, a),
    ensures
        kit.source_info.pubkey == a.source.pubkey,
        kit.generator.destination().pubkey == a.destination.pubkey,
        kit.generator.count() == a.count,
        kit.generator.wait() == a.interval_secs,
        kit.generator.amount() == a.amount_msat,
        kit.generator.start() is Some <==> a.start_secs is Some,
        a.start_secs matches Some(s) ==> kit.generator.start()->0 == s,
{
}

/// The nodes that destinations are picked from are listed with their own capacities.
pub proof fn law_nodes_are_listed_with_their_capacities(nodes: Seq<(NodeInfo, u64)>)
    ensures
        node_views(nodes).len() == nodes.len(),
        forall|i: int|
            0 <= i < nodes.len() ==> (#[trigger] node_views(nodes)[i]).0.pubkey == nodes[i].0.pubkey && node_views(nodes)[i].1
                == nodes[i].1,
        view_capacities(node_views(nodes)) == nodes.map_values(|n: (NodeInfo, u64)| n.1),
{
    assert(view_capacities(node_views(nodes)) =~= nodes.map_values(|n: (NodeInfo, u64)| n.1));
}

} // verus!
