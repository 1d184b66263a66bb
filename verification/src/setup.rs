//! Setting up a simulation on a simulated network from the description in a simulation file.
use crate::channel::{node_info_view, ChannelView, SimulatedChannel};
use crate::intercept::CustomRecords;
use crate::keyed::{Key, KeyedMap};
use crate::network::{channel_map, graph_error, graph_nodes, info_views, is_end, views, with_channel_of, SimGraph};
use crate::node::{ActivityDefinition, Graph, LightningError, NodeInfo, NodeInfoView, SimulationError};
use crate::parsing::{
    activity_view, described_channel, exclude_nodes, find_key, get_validated_activities, is_described,
    keeps_own_keys, law_all_activities_are_validated,
    law_mapping_is_unambiguous, lemma_find_key, mapping_error, resolve_activities, resolve_destination, resolve_source,
    ActivityParser, NetworkParser, SimParams,
};
use crate::primitives::{with_keysend_flag, PublicKey};
use crate::routing::{
    announcements, graph_channels, graph_policies, holds_channel, is_last_of_its_id, is_refused, is_routable,
    policy_updates, populate_network_graph, update_time, RoutingGraph,
};
use crate::sim_node::{graph_of, graph_view, ln_node_from_graph, nodes_by_key, SimNode};
use crate::simulation::{ControlledNode, Simulation, SimulationCfg};
use crate::text::{quote, quoted, text};
use vstd::prelude::*;

verus! {

/// A simulation on a simulated network.
pub struct NetworkSimulation {
    /// The graph on which payments are simulated.
    pub graph: SimGraph,
    /// A read-only copy of the channels for pathfinding.
    pub routing: RoutingGraph,
    /// The simulated nodes, in the order of the graph.
    pub nodes: Vec<SimNode>,
    /// The simulation that runs on those of the nodes that are not excluded.
    pub simulation: Simulation,
    /// The activity that was described.
    pub activities: Vec<ActivityDefinition>,
}

/// Why a simulation could not be set up.
#[derive(Debug)]
pub enum SetupError {
    /// The simulated network could not be created.
    Simulation(SimulationError),
    /// The activity is not valid.
    Lightning(LightningError),
}

/// The channels that are described in a simulation file.
pub open spec fn described_channels(channels: Seq<NetworkParser>) -> Seq<ChannelView> {
    channels.map_values(|p: NetworkParser| described_channel(p))
}

/// A list of nodes with a node set: it takes the place of the node with its key, or else comes last.
pub open spec fn with_node(nodes: Seq<NodeInfoView>, node: NodeInfoView) -> Seq<NodeInfoView> {
    match find_key(nodes, node.pubkey) {
        Some(i) => nodes.update(i, node),
        None => nodes.push(node),
    }
}

/// The nodes of channels, each with the alias that the last of its channels gives it.
pub open spec fn channel_nodes(channels: Seq<ChannelView>) -> Seq<NodeInfoView>
    decreases channels.len(),
{
    if channels.len() == 0 {
        Seq::empty()
    } else {
        let p1 = channels.last().node_1.policy;
        let p2 = channels.last().node_2.policy;
        with_node(
            with_node(channel_nodes(channels.drop_last()), node_info_view(p1.pubkey, p1.alias@)),
            node_info_view(p2.pubkey, p2.alias@),
        )
    }
}

/// Whether a graph holds the nodes in a list.
pub open spec fn is_graph_of(graph: Graph, nodes: Seq<NodeInfoView>) -> bool {
    graph.nodes_by_pk.wf() && graph_view(graph) == nodes_by_key(nodes)
}

/// Sets a node in a list.
fn set_node(nodes: &mut Vec<NodeInfo>, node: NodeInfo)
    ensures
        info_views(final(nodes)@) == with_node(info_views(old(nodes)@), node@),
{
    let ghost all = info_views(nodes@);
    let mut i: usize = 0;
    while i < nodes.len()
        invariant
            i <= nodes@.len(),
            nodes@ == old(nodes)@,
            all == info_views(nodes@),
            find_key(all.subrange(0, i as int), node.pubkey) is None,
        decreases nodes@.len() - i,
    {
        proof {
            let next = all.subrange(0, i as int + 1);
            assert(next.drop_last() =~= all.subrange(0, i as int));
            assert(next.last() == nodes@[i as int]@);
        }
        if nodes[i].pubkey.same(&node.pubkey) {
            proof {
                lemma_find_key_prefix(all, i as int + 1, node.pubkey);
            }
            let ghost info = node@;
            nodes.set(i, node);
            assert(info_views(nodes@) =~= all.update(i as int, info));
            return;
        }
        i += 1;
    }
    assert(all.subrange(0, i as int) =~= all);
    let ghost info = node@;
    nodes.push(node);
    assert(info_views(nodes@) =~= all.push(info));
}

proof fn lemma_find_key_prefix(nodes: Seq<NodeInfoView>, n: int, key: PublicKey)
    requires
        0 <= n <= nodes.len(),
        find_key(nodes.subrange(0, n), key) is Some,
    ensures
        find_key(nodes, key) == find_key(nodes.subrange(0, n), key),
    decreases nodes.len() - n,
{
    if n < nodes.len() {
        let next = nodes.subrange(0, n + 1);
        assert(next.drop_last() =~= nodes.subrange(0, n));
        lemma_find_key_prefix(nodes, n + 1, key);
    } else {
        assert(nodes.subrange(0, n) =~= nodes);
    }
}

/// Creates the channels that are described in a simulation file.
fn create_channels(described: &Vec<NetworkParser>) -> (channels: Vec<SimulatedChannel>)
    ensures
        views(channels@) == described_channels(described@),
        forall|i: int| 0 <= i < channels@.len() ==> (#[trigger] channels@[i]).wf(),
{
    let ghost all = described_channels(described@);
    let mut channels: Vec<SimulatedChannel> = Vec::new();
    let mut i: usize = 0;
    while i < described.len()
        invariant
            i <= described@.len(),
            all == described_channels(described@),
            views(channels@) == all.subrange(0, i as int),
            forall|j: int| 0 <= j < channels@.len() ==> (#[trigger] channels@[j]).wf(),
        decreases described@.len() - i,
    {
        let ghost before = channels@;
        let channel = described[i].to_channel();
        let ghost v = channel@;
        channels.push(channel);
        proof {
            assert(views(channels@) =~= views(before).push(v));
            assert(all.subrange(0, i as int + 1) =~= all.subrange(0, i as int).push(all[i as int]));
        }
        i += 1;
    }
    assert(all.subrange(0, i as int) =~= all);
    channels
}

/// Lists the nodes of channels.
fn list_channel_nodes(channels: &Vec<SimulatedChannel>) -> (nodes: Vec<NodeInfo>)
    ensures
        info_views(nodes@) == channel_nodes(views(channels@)),
{
    let ghost all = views(channels@);
    let mut nodes: Vec<NodeInfo> = Vec::new();
    let mut i: usize = 0;
    assert(info_views(nodes@) =~= channel_nodes(all.subrange(0, 0)));
    while i < channels.len()
        invariant
            i <= channels@.len(),
            all == views(channels@),
            info_views(nodes@) == channel_nodes(all.subrange(0, i as int)),
        decreases channels@.len() - i,
    {
        let (node_1, node_2) = channels[i].create_simulated_nodes();
        set_node(&mut nodes, node_1);
        set_node(&mut nodes, node_2);
        proof {
            let next = all.subrange(0, i as int + 1);
            assert(next.drop_last() =~= all.subrange(0, i as int));
            assert(next.last() == channels@[i as int]@);
        }
        i += 1;
    }
    assert(all.subrange(0, i as int) =~= all);
    nodes
}

/// The nodes that a simulation controls.
spec fn controlled(nodes: Map<PublicKey, ControlledNode>) -> Map<PublicKey, NodeInfoView> {
    nodes.map_values(|n: ControlledNode| n.info@)
}

/// Hands the simulated nodes to the simulation.
fn control_nodes(nodes: &Vec<SimNode>, Ghost(infos): Ghost<Seq<NodeInfoView>>) -> (map: KeyedMap<
    PublicKey,
    ControlledNode,
>)
    requires
        nodes@.len() == infos.len(),
        forall|i: int| 0 <= i < nodes@.len() ==> (#[trigger] nodes@[i]).info()@ == infos[i],
    ensures
        map.wf(),
        controlled(map@) == nodes_by_key(infos),
        forall|k: PublicKey| #[trigger] map@.dom().contains(k) ==> map@[k].network is Regtest,
{
    let mut map: KeyedMap<PublicKey, ControlledNode> = KeyedMap::new();
    let mut i: usize = 0;
    assert(controlled(map@) =~= nodes_by_key(infos.subrange(0, 0)));
    while i < nodes.len()
        invariant
            i <= nodes@.len(),
            nodes@.len() == infos.len(),
            forall|j: int| 0 <= j < nodes@.len() ==> (#[trigger] nodes@[j]).info()@ == infos[j],
            map.wf(),
            controlled(map@) == nodes_by_key(infos.subrange(0, i as int)),
            forall|k: PublicKey| #[trigger] map@.dom().contains(k) ==> map@[k].network is Regtest,
        decreases nodes@.len() - i,
    {
        let ghost before = map@;
        let info = nodes[i].get_info().clone();
        let key = info.pubkey;
        let ghost v = info@;
        let network = nodes[i].get_network();
        map.insert(key, ControlledNode { info, network });
        proof {
            let next = infos.subrange(0, i as int + 1);
            assert(next.drop_last() =~= infos.subrange(0, i as int));
            assert(next.last() == v);
            assert(controlled(map@) =~= controlled(before).insert(v.pubkey, v));
        }
        i += 1;
    }
    assert(infos.subrange(0, i as int) =~= infos);
    map
}

/// What is wrong with the activity that is described for the nodes of channels and a graph, if anything.
pub open spec fn described_activity_error(
    channels: Seq<ChannelView>,
    graph: Graph,
    activity: Seq<ActivityParser>,
) -> Option<Seq<char>> {
    match mapping_error(channel_nodes(channels)) {
        Some(m) => Some(m),
        None => match resolve_activities(channel_nodes(channels), graph, activity) {
            Err(m) => Some(m),
            Ok(_) => None,
        },
    }
}

/// Sets up the simulation of a network that is described in a simulation file: the graph on which payments are
/// simulated, the graph on which paths are found, the nodes (of which some may be excluded from the simulation), and the
/// activity, validated against the nodes of the channels and of the graph. The time is that of the channel policies, in
/// seconds. Whether paths can be found on the channels is up to the routing library and the time, so a network whose
/// channels are all valid may still be refused.
pub fn create_simulation_with_network(
    cfg: SimulationCfg,
    sim_params: &SimParams,
    custom_records: CustomRecords,
    now_secs: u64,
) -> (r: Result<NetworkSimulation, SetupError>)
    ensures
        ({
            let channels = described_channels(sim_params.sim_network@);
            match r {
                Err(SetupError::Simulation(e)) => {
                    &&& e matches SimulationError::SimulatedNetworkError(s)
                    &&& match graph_error(channels) {
                        Some(m) => s@ == "SimulatedNetworkError("@ + quoted(m) + ")"@,
                        None => is_refused(channels, update_time(now_secs), s),
                    }
                },
                Err(SetupError::Lightning(e)) => {
                    &&& graph_error(channels) is None
                    &&& match e {
                        LightningError::GetGraphError(m) => m@ == "Graph is empty"@ && graph_nodes(channels).dom().subset_of(
                            sim_params.exclude@.to_set(),
                        ),
                        LightningError::ValidationError(m) => !graph_nodes(channels).dom().subset_of(
                            sim_params.exclude@.to_set(),
                        ) && exists|g: Graph| #[trigger]
                            g.nodes_by_pk.wf() && described_activity_error(channels, g, sim_params.activity@) == Some(m@)
                                && graph_view(g).dom() == graph_nodes(channels).dom() && forall|k: PublicKey| #[trigger]
                            graph_view(g).dom().contains(k) ==> graph_view(g)[k] == graph_nodes(channels)[k].info,
                        _ => false,
                    }
                },
                Ok(net) => {
                    &&& graph_error(channels) is None
                    &&& net.graph.wf()
                    &&& net.graph.channels@ == channel_map(channels)
                    &&& net.graph.nodes() == graph_nodes(channels)
                    &&& net.graph.default_custom_records == custom_records
                    &&& forall|i: int| 0 <= i < channels.len() ==> #[trigger] is_routable(channels, i)
                    &&& graph_channels(net.routing) == announcements(channels)
                    &&& graph_policies(net.routing) == policy_updates(channels, update_time(now_secs))
                    &&& net.nodes@.len() == net.graph.node_list().len()
                    &&& forall|i: int|
                        0 <= i < net.nodes@.len() ==> (#[trigger] net.nodes@[i]).info()@ == net.graph.node_list()[i]
                    &&& net.simulation.cfg == cfg
                    &&& net.simulation.wf()
                    &&& net.simulation.results.success_payment == 0 && net.simulation.results.failed_payment == 0
                    &&& net.simulation.nodes@.dom() == graph_nodes(channels).dom().difference(
                        sim_params.exclude@.to_set(),
                    )
                    &&& net.simulation.nodes@.dom().len() > 0
                    &&& forall|k: PublicKey| #[trigger]
                        net.simulation.nodes@.dom().contains(k) ==> net.simulation.nodes@[k].info@ == graph_nodes(
                            channels,
                        )[k].info && net.simulation.nodes@[k].network is Regtest
                    &&& mapping_error(channel_nodes(channels)) is None
                    &&& exists|g: Graph| #[trigger]
                        is_graph_of(g, net.graph.node_list()) && resolve_activities(
                            channel_nodes(channels),
                            g,
                            sim_params.activity@,
                        ) == Ok::<Seq<_>, Seq<char>>(
                            net.activities@.map_values(|a: ActivityDefinition| activity_view(a)),
                        )
                    &&& net.activities@.len() == sim_params.activity@.len()
                    &&& forall|i: int|
                        0 <= i < net.activities@.len() ==> is_described(#[trigger] net.activities@[i], sim_params.activity@[i])
                    &&& forall|i: int| #[trigger]
                        is_last_of_its_id(channels, i) ==> holds_channel(
                            graph_channels(net.routing),
                            graph_policies(net.routing),
                            channels[i],
                            update_time(now_secs),
                        )
                },
            }
        }),
{
    let ghost channel_views = described_channels(sim_params.sim_network@);
    let channels = create_channels(&sim_params.sim_network);
    let nodes_info = list_channel_nodes(&channels);
    // The routing graph is a duplication of the channels, so that paths can be found without locking the simulation
    // graph.
    let routed = create_channels(&sim_params.sim_network);
    let graph = match SimGraph::new(channels, custom_records) {
        Ok(graph) => graph,
        Err(e) => {
            let m = match e {
                SimulationError::SimulatedNetworkError(m) => m,
                _ => text(""),
            };
            let mut s = text("SimulatedNetworkError(");
            s.append(quote(m.as_str()).as_str());
            s.append(")");
            return Err(SetupError::Simulation(SimulationError::SimulatedNetworkError(s)));
        },
    };
    let routing = match populate_network_graph(&routed, now_secs) {
        Ok(routing) => routing,
        Err(e) => {
            return Err(SetupError::Simulation(SimulationError::SimulatedNetworkError(e)));
        },
    };
    let nodes = ln_node_from_graph(&graph);
    let mut controlled_nodes = control_nodes(&nodes, Ghost(graph.node_list()));
    let ghost all = controlled_nodes@;
    proof {
        lemma_graph_node_keys(channel_views);
        lemma_node_list(graph);
        assert(all.dom() =~= controlled(all).dom());
    }
    exclude_nodes(&mut controlled_nodes, &sim_params.exclude);
    proof {
        controlled_nodes.lemma_len();
        let left = controlled_nodes@.dom();
        let excluded = sim_params.exclude@.to_set();
        assert(left =~= graph_nodes(channel_views).dom().difference(excluded));
        assert(left.len() == 0 <==> graph_nodes(channel_views).dom().subset_of(excluded)) by {
            if left.len() == 0 {
                assert(left =~= Set::empty());
                assert forall|k: PublicKey| graph_nodes(channel_views).dom().contains(k) implies excluded.contains(k) by {
                    assert(!left.contains(k));
                }
            } else if graph_nodes(channel_views).dom().subset_of(excluded) {
                let k = left.choose();
                assert(left.contains(k));
            }
        }
    }
    let known = graph_of(graph.list_nodes());
    let ghost g = known;
    assert(keeps_own_keys(g));
    let lookup = if controlled_nodes.len() == 0 {
        None
    } else {
        Some(Ok(known))
    };
    let activities = match get_validated_activities(lookup, nodes_info, &sim_params.activity) {
        Ok(activities) => activities,
        Err(e) => {
            proof {
                assert(graph_view(g).dom() =~= graph_nodes(channel_views).dom());
            }
            return Err(SetupError::Lightning(e));
        },
    };
    assert(is_graph_of(g, graph.node_list()));
    let simulation = Simulation::new(cfg, controlled_nodes);
    Ok(NetworkSimulation { graph, routing, nodes, simulation, activities })
}

proof fn lemma_graph_node_keys(channels: Seq<ChannelView>)
    ensures
        forall|k: PublicKey| #[trigger]
            graph_nodes(channels).dom().contains(k) ==> graph_nodes(channels)[k].info.pubkey == k,
    decreases channels.len(),
{
    if channels.len() > 0 {
        let c = channels.last();
        let before = graph_nodes(channels.drop_last());
        lemma_graph_node_keys(channels.drop_last());
        let with_first = with_channel_of(before, c.node_1.policy.pubkey, c.node_1.policy.alias@, c.capacity);
        assert forall|k: PublicKey| #[trigger] with_first.dom().contains(k) implies with_first[k].info.pubkey == k by {
            if k != c.node_1.policy.pubkey {
                assert(before.dom().contains(k));
            }
        }
        assert forall|k: PublicKey| #[trigger] graph_nodes(channels).dom().contains(k) implies graph_nodes(
            channels,
        )[k].info.pubkey == k by {
            if k != c.node_2.policy.pubkey {
                assert(with_first.dom().contains(k));
            }
        }
    }
}

proof fn lemma_nodes_by_key(nodes: Seq<NodeInfoView>)
    requires
        forall|i: int, j: int| 0 <= i < j < nodes.len() ==> (#[trigger] nodes[i]).pubkey != (#[trigger] nodes[j]).pubkey,
    ensures
        forall|i: int|
            0 <= i < nodes.len() ==> nodes_by_key(nodes).dom().contains((#[trigger] nodes[i]).pubkey) && nodes_by_key(
                nodes,
            )[nodes[i].pubkey] == nodes[i],
        forall|k: PublicKey| #[trigger]
            nodes_by_key(nodes).dom().contains(k) ==> exists|i: int|
                0 <= i < nodes.len() && (#[trigger] nodes[i]).pubkey == k,
    decreases nodes.len(),
{
    if nodes.len() > 0 {
        let rest = nodes.drop_last();
        lemma_nodes_by_key(rest);
        assert forall|i: int| 0 <= i < nodes.len() implies nodes_by_key(nodes).dom().contains(
            (#[trigger] nodes[i]).pubkey,
        ) && nodes_by_key(nodes)[nodes[i].pubkey] == nodes[i] by {
            if i < rest.len() {
                assert(rest[i] == nodes[i]);
                assert(nodes[i].pubkey != nodes[nodes.len() - 1].pubkey);
            }
        }
        assert forall|k: PublicKey| #[trigger] nodes_by_key(nodes).dom().contains(k) implies exists|i: int|
            0 <= i < nodes.len() && (#[trigger] nodes[i]).pubkey == k by {
            if k == nodes.last().pubkey {
                assert(nodes[nodes.len() - 1].pubkey == k);
            } else {
                assert(nodes_by_key(rest).dom().contains(k));
                let i = choose|i: int| 0 <= i < rest.len() && (#[trigger] rest[i]).pubkey == k;
                assert(nodes[i].pubkey == k);
            }
        }
    }
}

proof fn lemma_node_list(graph: SimGraph)
    requires
        graph.wf(),
        forall|k: PublicKey| #[trigger] graph.nodes().dom().contains(k) ==> graph.nodes()[k].info.pubkey == k,
    ensures
        nodes_by_key(graph.node_list()).dom() == graph.nodes().dom(),
        forall|k: PublicKey| #[trigger]
            graph.nodes().dom().contains(k) ==> nodes_by_key(graph.node_list())[k] == graph.nodes()[k].info,
{
    let list = graph.node_list();
    let entries = graph.nodes.entries();
    graph.nodes.lemma_entries();
    assert forall|i: int| 0 <= i < list.len() implies (#[trigger] list[i]).pubkey == entries[i].0 && graph.nodes().dom().contains(
        entries[i].0,
    ) && graph.nodes()[entries[i].0].info == list[i] by {
        assert(graph.nodes@.dom().contains(entries[i].0));
        assert(graph.nodes().dom().contains(entries[i].0));
    }
    lemma_nodes_by_key(list);
    assert forall|k: PublicKey| #[trigger] graph.nodes().dom().contains(k) implies nodes_by_key(list).dom().contains(k)
        && nodes_by_key(list)[k] == graph.nodes()[k].info by {
        assert(graph.nodes@.dom().contains(k));
        let i = choose|i: int| 0 <= i < entries.len() && (#[trigger] entries[i]).0 == k;
        assert(list[i].pubkey == k);
    }
    assert(nodes_by_key(list).dom() =~= graph.nodes().dom());
}

/// The alias that a channel gives one of its nodes.
pub open spec fn given_alias(c: ChannelView, k: PublicKey) -> Seq<char> {
    if c.node_2.policy.pubkey == k {
        c.node_2.policy.alias@
    } else {
        c.node_1.policy.alias@
    }
}

proof fn lemma_with_node(nodes: Seq<NodeInfoView>, node: NodeInfoView)
    requires
        forall|i: int, j: int|
            #![trigger nodes[i], nodes[j]]
            0 <= i < j < nodes.len() ==> nodes[i].pubkey != nodes[j].pubkey,
    ensures
        ({
            let after = with_node(nodes, node);
            &&& forall|i: int, j: int|
                #![trigger after[i], after[j]]
                0 <= i < j < after.len() ==> after[i].pubkey != after[j].pubkey
            &&& after.contains(node)
            &&& forall|n: NodeInfoView| n.pubkey != node.pubkey ==> (#[trigger] after.contains(n) <==> nodes.contains(n))
        }),
{
    lemma_find_key(nodes, node.pubkey);
    let after = with_node(nodes, node);
    match find_key(nodes, node.pubkey) {
        Some(p) => {
            assert(after[p] == node);
            assert forall|i: int, j: int|
                #![trigger after[i], after[j]]
                0 <= i < j < after.len() implies after[i].pubkey != after[j].pubkey by {
                assert(nodes[i].pubkey != nodes[j].pubkey);
            }
            assert forall|n: NodeInfoView| n.pubkey != node.pubkey implies (#[trigger] after.contains(n) <==> nodes.contains(
                n,
            )) by {
                if after.contains(n) {
                    let i = choose|i: int| 0 <= i < after.len() && after[i] == n;
                    assert(nodes[i] == n);
                }
                if nodes.contains(n) {
                    let i = choose|i: int| 0 <= i < nodes.len() && nodes[i] == n;
                    assert(after[i] == n);
                }
            }
        },
        None => {
            assert(after[nodes.len() as int] == node);
            assert forall|i: int, j: int|
                #![trigger after[i], after[j]]
                0 <= i < j < after.len() implies after[i].pubkey != after[j].pubkey by {
                assert(after[i] == nodes[i]);
                if j < nodes.len() {
                    assert(nodes[i].pubkey != nodes[j].pubkey);
                }
            }
            assert forall|n: NodeInfoView| n.pubkey != node.pubkey implies (#[trigger] after.contains(n) <==> nodes.contains(
                n,
            )) by {
                if after.contains(n) {
                    let i = choose|i: int| 0 <= i < after.len() && after[i] == n;
                    assert(nodes[i] == n);
                }
                if nodes.contains(n) {
                    let i = choose|i: int| 0 <= i < nodes.len() && nodes[i] == n;
                    assert(after[i] == n);
                }
            }
        },
    }
}

/// The nodes of channels are the ends of these, each listed once. A node has the alias that the last of its channels gives it.
pub proof fn law_nodes_are_the_ends_of_channels(channels: Seq<ChannelView>)
    ensures
        forall|i: int, j: int|
            #![trigger channel_nodes(channels)[i], channel_nodes(channels)[j]]
            0 <= i < j < channel_nodes(channels).len() ==> channel_nodes(channels)[i].pubkey != channel_nodes(channels)[j].pubkey,
        forall|n: NodeInfoView| #[trigger]
            channel_nodes(channels).contains(n) <==> exists|i: int|
                {
                    &&& 0 <= i < channels.len()
                    &&& is_end(#[trigger] channels[i], n.pubkey)
                    &&& n.alias == given_alias(channels[i], n.pubkey)
                    &&& n.features == with_keysend_flag(Seq::empty())
                    &&& forall|j: int| i < j < channels.len() ==> !is_end(#[trigger] channels[j], n.pubkey)
                },
    decreases channels.len(),
{
    let all = channel_nodes(channels);
    if channels.len() > 0 {
        let before = channels.drop_last();
        let n = before.len() as int;
        let c = channels.last();
        law_nodes_are_the_ends_of_channels(before);
        let first = node_info_view(c.node_1.policy.pubkey, c.node_1.policy.alias@);
        let second = node_info_view(c.node_2.policy.pubkey, c.node_2.policy.alias@);
        let with_first = with_node(channel_nodes(before), first);
        lemma_with_node(channel_nodes(before), first);
        lemma_with_node(with_first, second);
        assert forall|i: int| 0 <= i < n implies #[trigger] before[i] == channels[i] by {}
        assert(channels[n] == c);
        assert forall|m: NodeInfoView| #[trigger] all.contains(m) <==> exists|i: int|
            {
                &&& 0 <= i < channels.len()
                &&& is_end(#[trigger] channels[i], m.pubkey)
                &&& m.alias == given_alias(channels[i], m.pubkey)
                &&& m.features == with_keysend_flag(Seq::empty())
                &&& forall|j: int| i < j < channels.len() ==> !is_end(#[trigger] channels[j], m.pubkey)
            } by {
            if is_end(c, m.pubkey) {
                let given = if c.node_2.policy.pubkey == m.pubkey {
                    second
                } else {
                    first
                };
                // The node is listed once, as the last channel gives it.
                assert(all.contains(given)) by {
                    assert(with_first.contains(first));
                    assert(all.contains(second));
                    if given == first && first.pubkey != second.pubkey {
                        assert(all.contains(first));
                    }
                }
                if all.contains(m) {
                    let a = choose|i: int| 0 <= i < all.len() && all[i] == m;
                    let b = choose|i: int| 0 <= i < all.len() && all[i] == given;
                    if a < b {
                        assert(all[a].pubkey != all[b].pubkey);
                    } else if b < a {
                        assert(all[b].pubkey != all[a].pubkey);
                    }
                    assert(m == given);
                    assert(is_end(channels[n], m.pubkey));
                }
                if exists|i: int|
                    {
                        &&& 0 <= i < channels.len()
                        &&& is_end(#[trigger] channels[i], m.pubkey)
                        &&& m.alias == given_alias(channels[i], m.pubkey)
                        &&& m.features == with_keysend_flag(Seq::empty())
                        &&& forall|j: int| i < j < channels.len() ==> !is_end(#[trigger] channels[j], m.pubkey)
                    } {
                    let i = choose|i: int|
                        {
                            &&& 0 <= i < channels.len()
                            &&& is_end(#[trigger] channels[i], m.pubkey)
                            &&& m.alias == given_alias(channels[i], m.pubkey)
                            &&& m.features == with_keysend_flag(Seq::empty())
                            &&& forall|j: int| i < j < channels.len() ==> !is_end(#[trigger] channels[j], m.pubkey)
                        };
                    assert(is_end(channels[n], m.pubkey));
                    assert(i == n);
                    assert(m == given);
                }
            } else {
                assert(all.contains(m) <==> with_first.contains(m));
                assert(with_first.contains(m) <==> channel_nodes(before).contains(m));
                if channel_nodes(before).contains(m) {
                    let i = choose|i: int|
                        {
                            &&& 0 <= i < before.len()
                            &&& is_end(#[trigger] before[i], m.pubkey)
                            &&& m.alias == given_alias(before[i], m.pubkey)
                            &&& m.features == with_keysend_flag(Seq::empty())
                            &&& forall|j: int| i < j < before.len() ==> !is_end(#[trigger] before[j], m.pubkey)
                        };
                    assert(is_end(channels[i], m.pubkey));
                    assert forall|j: int| i < j < channels.len() implies !is_end(#[trigger] channels[j], m.pubkey) by {
                        if j < n {
                            assert(!is_end(before[j], m.pubkey));
                        }
                    }
                }
                if exists|i: int|
                    {
                        &&& 0 <= i < channels.len()
                        &&& is_end(#[trigger] channels[i], m.pubkey)
                        &&& m.alias == given_alias(channels[i], m.pubkey)
                        &&& m.features == with_keysend_flag(Seq::empty())
                        &&& forall|j: int| i < j < channels.len() ==> !is_end(#[trigger] channels[j], m.pubkey)
                    } {
                    let i = choose|i: int|
                        {
                            &&& 0 <= i < channels.len()
                            &&& is_end(#[trigger] channels[i], m.pubkey)
                            &&& m.alias == given_alias(channels[i], m.pubkey)
                            &&& m.features == with_keysend_flag(Seq::empty())
                            &&& forall|j: int| i < j < channels.len() ==> !is_end(#[trigger] channels[j], m.pubkey)
                        };
                    assert(i < n);
                    assert(is_end(before[i], m.pubkey));
                    assert forall|j: int| i < j < before.len() implies !is_end(#[trigger] before[j], m.pubkey) by {
                        assert(!is_end(channels[j], m.pubkey));
                    }
                }
            }
        }
    }
}

/// Each channel that is described is made, in the order of the descriptions.
pub proof fn law_every_described_channel_is_made(described: Seq<NetworkParser>)
    ensures
        described_channels(described).len() == described.len(),
        forall|i: int|
            0 <= i < described.len() ==> {
                let c = #[trigger] described_channels(described)[i];
                &&& c.scid == described[i].scid
                &&& c.capacity == described[i].capacity_msat
                &&& c.node_1.policy == described[i].node_1
                &&& c.node_2.policy == described[i].node_2
                &&& c.node_1.balance + c.node_2.balance == described[i].capacity_msat
                &&& c.node_1.balance <= c.node_2.balance <= c.node_1.balance + 1
            },
{
}

/// The activity of a file is valid if and only if no key and no alias of the nodes occurs twice, and each source and each
/// destination is found.
pub proof fn law_described_activity_is_valid_if_all_nodes_are_found(
    channels: Seq<ChannelView>,
    graph: Graph,
    activity: Seq<ActivityParser>,
)
    ensures
        described_activity_error(channels, graph, activity) is None <==> {
            let nodes = channel_nodes(channels);
            &&& forall|i: int, j: int|
                #![trigger nodes[i], nodes[j]]
                0 <= i < j < nodes.len() ==> nodes[i].pubkey != nodes[j].pubkey && (nodes[j].alias.len() > 0
                    ==> nodes[i].alias != nodes[j].alias)
            &&& forall|i: int|
                0 <= i < activity.len() ==> resolve_source(nodes, (#[trigger] activity[i]).source) is Ok && resolve_destination(
                    nodes,
                    graph,
                    activity[i].destination,
                ) is Ok
        },
{
    law_mapping_is_unambiguous(channel_nodes(channels));
    law_all_activities_are_validated(channel_nodes(channels), graph, activity);
}

} // verus!
