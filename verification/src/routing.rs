//! Pathfinding in the simulated network: the graph that routes are searched in, and the search.
use bitcoin::secp256k1::PublicKey as CurveKey;
use crate::channel::{
    law_forward_is_accepted_for_its_fee, ChannelPolicy, ChannelView, CriticalError, ForwardingError, SimulatedChannel,
};
use crate::network::{
    channel_map, forward_outcome, graph_error, is_valid_channel, law_forward_is_checked_by_its_forwarder,
    law_network_has_the_channels_of_its_list, law_network_has_valid_unique_channels, views,
};
use crate::node::{ShortChannelID, SimulationError};
use crate::primitives::{check_curve_point, is_curve_point, PublicKey};
use crate::route::{Path, Route, RouteHop};
use lightning::routing::gossip::{NetworkGraph, NodeId};
use lightning::routing::router::{find_route, PaymentParameters, RouteParameters};
use lightning::routing::scoring::ProbabilisticScorer;
use lightning::routing::utxo::UtxoResult;
use std::sync::Arc;
use vstd::prelude::*;

verus! {

/// A record that the pathfinding library wants to be logged.
#[verifier::external_type_specification]
#[verifier::external_body]
pub struct ExRecord<'a>(lightning::util::logger::Record<'a>);

/// The hash that identifies a chain.
#[verifier::external_type_specification]
#[verifier::external_body]
pub struct ExChainHash(bitcoin::blockdata::constants::ChainHash);

/// The result of looking up the output that funds a channel.
#[verifier::external_type_specification]
#[verifier::external_body]
pub struct ExUtxoResult(lightning::routing::utxo::UtxoResult);

/// The logger that pathfinding is given, which drops what is logged.
#[derive(Debug, Clone, Copy)]
pub struct WrappedLog {}

impl lightning::util::logger::Logger for WrappedLog {
    fn log(&self, _record: lightning::util::logger::Record) {
    }
}

/// A channel as it is announced to the graph.
#[derive(Debug, Clone, Copy)]
pub struct ChannelAnnouncement {
    pub short_channel_id: u64,
    pub node_1: PublicKey,
    pub node_2: PublicKey,
    pub capacity_sat: u64,
}

/// The policy of one direction of a channel as it is announced to the graph.
#[derive(Debug, Clone, Copy)]
pub struct PolicyUpdate {
    pub short_channel_id: u64,
    pub timestamp: u32,
    /// The direction: zero for the policy of node 1, and one for that of node 2.
    pub direction: u8,
    pub cltv_expiry_delta: u16,
    pub htlc_minimum_msat: u64,
    pub htlc_maximum_msat: u64,
    pub fee_base_msat: u32,
    pub fee_proportional_millionths: u32,
}

/// A mock utxo validator that just returns a fake output with the desired capacity for a channel, and the script that
/// the keys of the channel's nodes give.
#[derive(Debug, Clone, Copy)]
struct UtxoValidator {
    announcement: ChannelAnnouncement,
}

impl lightning::routing::utxo::UtxoLookup for UtxoValidator {
    /// Makes the output with `lightning::ln::chan_utils::make_funding_redeemscript`. Nothing is said of it: only the
    /// graph reads it.
    #[verifier::external_body]
    fn get_utxo(&self, _genesis_hash: &bitcoin::blockdata::constants::ChainHash, _short_channel_id: u64) -> UtxoResult {
        let key_1 = CurveKey::from_slice(&self.announcement.node_1.0).unwrap();
        let key_2 = CurveKey::from_slice(&self.announcement.node_2.0).unwrap();
        let script = lightning::ln::chan_utils::make_funding_redeemscript(&key_1, &key_2).to_v0_p2wsh();
        UtxoResult::Sync(Ok(bitcoin::TxOut { value: self.announcement.capacity_sat, script_pubkey: script }))
    }
}

/// The channels and policies that routes are searched in, held by `lightning::routing::gossip::NetworkGraph`, with a
/// scorer that has seen no payments.
#[verifier::external_body]
pub struct RoutingGraph {
    graph: NetworkGraph<&'static WrappedLog>,
    scorer: ProbabilisticScorer<Arc<NetworkGraph<&'static WrappedLog>>, &'static WrappedLog>,
}

/// The channels that a graph holds, by short channel ID.
pub uninterp spec fn graph_channels(graph: RoutingGraph) -> Map<u64, ChannelAnnouncement>;

/// The policies that a graph holds, by short channel ID and direction.
pub uninterp spec fn graph_policies(graph: RoutingGraph) -> Map<(u64, u8), PolicyUpdate>;

/// Policies without those of a channel.
pub open spec fn without_policies(policies: Map<(u64, u8), PolicyUpdate>, scid: u64) -> Map<(u64, u8), PolicyUpdate> {
    policies.remove((scid, 0u8)).remove((scid, 1u8))
}

/// Creates an empty graph with `NetworkGraph::new`, and a scorer with `ProbabilisticScorer::new`.
#[verifier::external_body]
fn empty_graph() -> (g: RoutingGraph)
    ensures
        graph_channels(g) == announcements(Seq::empty()),
        graph_policies(g) == policy_updates(Seq::empty(), 0),
{
    let graph = NetworkGraph::new(bitcoin::Network::Regtest, &WrappedLog {});
    let scored = Arc::new(NetworkGraph::new(bitcoin::Network::Regtest, &WrappedLog {}));
    RoutingGraph { graph, scorer: ProbabilisticScorer::new(Default::default(), scored, &WrappedLog {}) }
}

/// Whether a graph takes a channel: its nodes are distinct, and it does not know the channel with the same nodes.
pub open spec fn admits(known: Map<u64, ChannelAnnouncement>, a: ChannelAnnouncement) -> bool {
    &&& a.node_1 != a.node_2
    &&& known.dom().contains(a.short_channel_id) ==> known[a.short_channel_id].node_1 != a.node_1
        || known[a.short_channel_id].node_2 != a.node_2
}

/// Announces a channel with `NetworkGraph::update_channel_from_unsigned_announcement`. The call fails if the nodes of the
/// channel are not distinct, or if its short channel ID is known for the same nodes. Otherwise the channel is added, or
/// takes the place of the one with its ID. Its policies are then unknown. A call that fails changes nothing, and reports
/// the error as it is written for programmers. The text of the error is not said.
#[verifier::external_body]
fn announce(graph: RoutingGraph, a: &ChannelAnnouncement) -> (r: (RoutingGraph, Result<(), String>))
    requires
        is_curve_point(a.node_1.0@),
        is_curve_point(a.node_2.0@),
    ensures
        r.1 is Ok <==> admits(graph_channels(graph), *a),
        graph_channels(r.0) == (if r.1 is Ok {
            graph_channels(graph).insert(a.short_channel_id, *a)
        } else {
            graph_channels(graph)
        }),
        graph_policies(r.0) == (if r.1 is Ok {
            without_policies(graph_policies(graph), a.short_channel_id)
        } else {
            graph_policies(graph)
        }),
{
    let (id_1, id_2) = (NodeId::from_slice(&a.node_1.0).unwrap(), NodeId::from_slice(&a.node_2.0).unwrap());
    let message = lightning::ln::msgs::UnsignedChannelAnnouncement {
        features: lightning::ln::features::ChannelFeatures::empty(),
        chain_hash: bitcoin::blockdata::constants::ChainHash::REGTEST,
        short_channel_id: a.short_channel_id,
        node_id_1: id_1,
        node_id_2: id_2,
        bitcoin_key_1: id_1,
        bitcoin_key_2: id_2,
        excess_data: Vec::new(),
    };
    let validator = UtxoValidator { announcement: *a };
    let announced = graph.graph.update_channel_from_unsigned_announcement(&message, &Some(&validator));
    (graph, announced.map_err(|e| format!("{:?}", e)))
}

/// Whether the HTLCs that a policy allows fit into its channel, whose capacity must not exceed all bitcoin there is.
pub open spec fn fits(a: ChannelAnnouncement, u: PolicyUpdate) -> bool {
    a.capacity_sat <= MAX_ROUTE_MSAT / 1000 && u.htlc_maximum_msat <= a.capacity_sat * 1000
}

/// Announces the policy of a direction of a channel with `NetworkGraph::update_channel_unsigned`, which stores it for
/// that direction or fails without a change. It fails for a channel that is not known, for a policy that allows HTLCs
/// beyond the capacity of the channel, and for one that is not newer than what is known. Whether it succeeds otherwise
/// depends on the time, as updates that are too old or too far in the future are rejected. The error is reported as it is
/// written for programmers, and its text is not said.
#[verifier::external_body]
fn announce_policy(graph: RoutingGraph, u: &PolicyUpdate) -> (r: (RoutingGraph, Result<(), String>))
    requires
        u.direction <= 1,
    ensures
        graph_channels(r.0) == graph_channels(graph),
        !graph_channels(graph).dom().contains(u.short_channel_id) ==> r.1 is Err,
        !fits(graph_channels(graph)[u.short_channel_id], *u) ==> r.1 is Err,
        graph_policies(graph).dom().contains((u.short_channel_id, u.direction)) && u.timestamp <= graph_policies(
            graph,
        )[(u.short_channel_id, u.direction)].timestamp ==> r.1 is Err,
        graph_policies(r.0) == (if r.1 is Ok {
            graph_policies(graph).insert((u.short_channel_id, u.direction), *u)
        } else {
            graph_policies(graph)
        }),
{
    let message = lightning::ln::msgs::UnsignedChannelUpdate {
        chain_hash: bitcoin::blockdata::constants::ChainHash::REGTEST,
        short_channel_id: u.short_channel_id,
        timestamp: u.timestamp,
        flags: u.direction,
        cltv_expiry_delta: u.cltv_expiry_delta,
        htlc_minimum_msat: u.htlc_minimum_msat,
        htlc_maximum_msat: u.htlc_maximum_msat,
        fee_base_msat: u.fee_base_msat,
        fee_proportional_millionths: u.fee_proportional_millionths,
        excess_data: Vec::new(),
    };
    let announced = graph.graph.update_channel_unsigned(&message);
    (graph, announced.map_err(|e| format!("{:?}", e)))
}

/// The announcement of a simulated channel.
pub open spec fn announcement(c: ChannelView) -> ChannelAnnouncement {
    ChannelAnnouncement {
        short_channel_id: c.scid.0,
        node_1: c.node_1.policy.pubkey,
        node_2: c.node_2.policy.pubkey,
        capacity_sat: (c.capacity / 1000) as u64,
    }
}

/// The announcement of the policy of a direction of a simulated channel. Values that are wider than their fields are
/// cut off.
pub open spec fn policy_update(c: ChannelView, policy: ChannelPolicy, direction: u8, timestamp: u32) -> PolicyUpdate {
    PolicyUpdate {
        short_channel_id: c.scid.0,
        timestamp,
        direction,
        cltv_expiry_delta: (policy.cltv_expiry_delta % 0x1_0000) as u16,
        htlc_minimum_msat: policy.min_htlc_size_msat,
        htlc_maximum_msat: policy.max_htlc_size_msat,
        fee_base_msat: (policy.base_fee % 0x1_0000_0000) as u32,
        fee_proportional_millionths: (policy.fee_rate_prop % 0x1_0000_0000) as u32,
    }
}

/// The announcements of channels, by short channel ID.
pub open spec fn announcements(channels: Seq<ChannelView>) -> Map<u64, ChannelAnnouncement>
    decreases channels.len(),
{
    if channels.len() == 0 {
        Map::empty()
    } else {
        announcements(channels.drop_last()).insert(channels.last().scid.0, announcement(channels.last()))
    }
}

/// The announcements of the policies of channels, by short channel ID and direction.
pub open spec fn policy_updates(channels: Seq<ChannelView>, timestamp: u32) -> Map<(u64, u8), PolicyUpdate>
    decreases channels.len(),
{
    if channels.len() == 0 {
        Map::empty()
    } else {
        let c = channels.last();
        policy_updates(channels.drop_last(), timestamp).insert(
            (c.scid.0, 0u8),
            policy_update(c, c.node_1.policy, 0, timestamp),
        ).insert((c.scid.0, 1u8), policy_update(c, c.node_2.policy, 1, timestamp))
    }
}

/// The announcement of the policy of a direction of a channel.
fn update_of(channel: &SimulatedChannel, policy: &ChannelPolicy, direction: u8, timestamp: u32) -> (u: PolicyUpdate)
    ensures
        u == policy_update(channel@, *policy, direction, timestamp),
{
    let cltv: u32 = policy.cltv_expiry_delta;
    PolicyUpdate {
        short_channel_id: channel.short_channel_id.0,
        timestamp,
        direction,
        cltv_expiry_delta: (cltv % 0x1_0000) as u16,
        htlc_minimum_msat: policy.min_htlc_size_msat,
        htlc_maximum_msat: policy.max_htlc_size_msat,
        fee_base_msat: (policy.base_fee % 0x1_0000_0000) as u32,
        fee_proportional_millionths: (policy.fee_rate_prop % 0x1_0000_0000) as u32,
    }
}

/// Whether a channel of a list can be announced after those before it: its nodes are distinct points of the curve, it is
/// not a copy of the last channel with its ID, and its policies allow no HTLCs beyond its capacity.
pub open spec fn is_routable(channels: Seq<ChannelView>, i: int) -> bool {
    let c = channels[i];
    let a = announcement(c);
    &&& is_curve_point(a.node_1.0@)
    &&& is_curve_point(a.node_2.0@)
    &&& admits(announcements(channels.subrange(0, i)), a)
    &&& fits(a, policy_update(c, c.node_1.policy, 0, 0))
    &&& fits(a, policy_update(c, c.node_2.policy, 1, 0))
}

/// The time of the policies that are announced at a time in seconds, which is cut off at the width of its field.
pub open spec fn update_time(now_secs: u64) -> u32 {
    (now_secs % 0x1_0000_0000) as u32
}

/// Whether an error is one with which the routing library refuses a policy of a channel of a list, at the time of the
/// call, once the channels before it were announced.
pub closed spec fn policy_is_refused(channels: Seq<ChannelView>, timestamp: u32, i: int, e: String) -> bool {
    let c = channels[i];
    exists|u: PolicyUpdate, graph: RoutingGraph, left: RoutingGraph|
        {
            &&& u == policy_update(c, c.node_1.policy, 0, timestamp) || u == policy_update(
                c,
                c.node_2.policy,
                1,
                timestamp,
            )
            &&& graph_channels(graph) == announcements(channels.subrange(0, i + 1))
            &&& #[trigger] call_ensures(announce_policy, (graph, &u), (left, Err(e)))
        }
}

/// Whether an error is one with which a channel of a list is refused, once the channels before it were announced: by the
/// curve library for a key that is not a point of the curve, and by the routing library for the channel or a policy.
pub closed spec fn channel_is_refused(channels: Seq<ChannelView>, timestamp: u32, i: int, e: String) -> bool {
    let a = announcement(channels[i]);
    ||| !is_curve_point(a.node_1.0@) && call_ensures(check_curve_point, (&a.node_1,), Err(e))
    ||| !is_curve_point(a.node_2.0@) && call_ensures(check_curve_point, (&a.node_2,), Err(e))
    ||| exists|graph: RoutingGraph, left: RoutingGraph|
        graph_channels(graph) == announcements(channels.subrange(0, i)) && #[trigger] call_ensures(
            announce,
            (graph, &a),
            (left, Err(e)),
        )
    ||| policy_is_refused(channels, timestamp, i, e)
}

/// Whether an error is one with which a list of channels is refused: the first channel that can not be announced is refused,
/// or a policy of one that can be is, before it.
pub open spec fn is_refused(channels: Seq<ChannelView>, timestamp: u32, e: String) -> bool {
    exists|i: int|
        {
            &&& 0 <= i < channels.len()
            &&& forall|j: int| 0 <= j < i ==> #[trigger] is_routable(channels, j)
            &&& #[trigger] channel_is_refused(channels, timestamp, i, e)
            &&& is_routable(channels, i) ==> policy_is_refused(channels, timestamp, i, e)
        }
}

/// Populates a network graph based on the set of simulated channels provided. This function *only* applies channel
/// announcements, which has the effect of adding the nodes in each channel to the graph. This means that we will not
/// have node-level information (such as features) available in the routing graph. The time is that of the policies, in
/// seconds. The first channel that is refused ends it; where a channel can be announced, only the time can be the reason.
pub fn populate_network_graph(channels: &Vec<SimulatedChannel>, now_secs: u64) -> (r: Result<RoutingGraph, String>)
    ensures
        r matches Ok(g) ==> {
            &&& graph_channels(g) == announcements(views(channels@))
            &&& graph_policies(g) == policy_updates(views(channels@), update_time(now_secs))
        },
        r matches Ok(g) ==> forall|i: int| #[trigger]
            is_last_of_its_id(views(channels@), i) ==> holds_channel(
                graph_channels(g),
                graph_policies(g),
                views(channels@)[i],
                update_time(now_secs),
            ),
        r is Ok ==> forall|i: int| 0 <= i < channels@.len() ==> #[trigger] is_routable(views(channels@), i),
        r matches Err(e) ==> is_refused(views(channels@), update_time(now_secs), e),
        channels@.len() == 0 ==> r is Ok,
{
    let timestamp: u32 = (now_secs % 0x1_0000_0000) as u32;
    let ghost list = views(channels@);
    let mut graph = empty_graph();
    let mut i: usize = 0;
    assert(list.subrange(0, 0) =~= Seq::empty());
    while i < channels.len()
        invariant
            i <= channels@.len(),
            list == views(channels@),
            timestamp == update_time(now_secs),
            graph_channels(graph) == announcements(list.subrange(0, i as int)),
            graph_policies(graph) == policy_updates(list.subrange(0, i as int), timestamp),
            forall|j: int| 0 <= j < i ==> #[trigger] is_routable(list, j),
        decreases channels@.len() - i,
    {
        let channel = &channels[i];
        proof {
            let next = list.subrange(0, i as int + 1);
            assert(next.drop_last() =~= list.subrange(0, i as int));
            assert(next.last() == channel@);
        }
        let a = ChannelAnnouncement {
            short_channel_id: channel.short_channel_id.0,
            node_1: channel.node_1.policy.pubkey,
            node_2: channel.node_2.policy.pubkey,
            capacity_sat: channel.capacity_msat / 1000,
        };
        assert(a == announcement(list[i as int]));
        if let Err(e) = check_curve_point(&a.node_1) {
            assert(channel_is_refused(list, timestamp, i as int, e));
            return Err(e);
        }
        if let Err(e) = check_curve_point(&a.node_2) {
            assert(channel_is_refused(list, timestamp, i as int, e));
            return Err(e);
        }
        let ghost before = graph;
        let (added, announced) = announce(graph, &a);
        if let Err(e) = announced {
            assert(call_ensures(announce, (before, &a), (added, Err(e))));
            assert(channel_is_refused(list, timestamp, i as int, e));
            return Err(e);
        }
        // The direction of an update is interpreted as node_1 if it is zero, and node_2 otherwise.
        let first = update_of(channel, &channel.node_1.policy, 0, timestamp);
        let ghost unset = added;
        let (half, first_announced) = announce_policy(added, &first);
        if let Err(e) = first_announced {
            assert(call_ensures(announce_policy, (unset, &first), (half, Err(e))));
            assert(policy_is_refused(list, timestamp, i as int, e));
            assert(channel_is_refused(list, timestamp, i as int, e));
            return Err(e);
        }
        let second = update_of(channel, &channel.node_2.policy, 1, timestamp);
        let ghost half_set = half;
        let (full, second_announced) = announce_policy(half, &second);
        if let Err(e) = second_announced {
            assert(call_ensures(announce_policy, (half_set, &second), (full, Err(e))));
            assert(policy_is_refused(list, timestamp, i as int, e));
            assert(channel_is_refused(list, timestamp, i as int, e));
            return Err(e);
        }
        graph = full;
        proof {
            assert(graph_policies(graph) =~= policy_updates(list.subrange(0, i as int + 1), timestamp));
        }
        i += 1;
    }
    assert(list.subrange(0, i as int) =~= list);
    proof {
        law_graph_holds_the_policies_of_senders(list, timestamp);
    }
    Ok(graph)
}

/// What a route is searched with, and what bounds the search.
#[derive(Debug, Clone, Copy)]
pub struct RouteLimits {
    /// The highest sum of CLTV deltas on a path.
    pub max_total_cltv_expiry_delta: u32,
    /// The highest number of paths.
    pub max_path_count: u8,
    /// The share of a channel's capacity that may be used, as a power of one half.
    pub max_channel_saturation_power_of_half: u8,
    /// The CLTV delta that the recipient asks for.
    pub final_cltv_expiry_delta: u32,
    /// The highest sum of fees, if there is one.
    pub max_total_routing_fee_msat: Option<u64>,
    /// The byte that the seed of the search is filled with.
    pub seed_byte: u8,
}

/// What the default pathfinder searches with: a single path of any length and for any fees, on which no more than half of the
/// capacity of a channel is used, to a recipient that asks for no CLTV delta.
pub open spec fn path_limits() -> RouteLimits {
    RouteLimits {
        max_total_cltv_expiry_delta: u32::MAX,
        max_path_count: 1,
        max_channel_saturation_power_of_half: 1,
        final_cltv_expiry_delta: 0,
        max_total_routing_fee_msat: None,
        seed_byte: 0,
    }
}

/// What the default pathfinder searches with.
fn default_limits() -> (l: RouteLimits)
    ensures
        l == path_limits(),
{
    RouteLimits {
        max_total_cltv_expiry_delta: u32::MAX,
        max_path_count: 1,
        max_channel_saturation_power_of_half: 1,
        final_cltv_expiry_delta: 0,
        max_total_routing_fee_msat: None,
        seed_byte: 0,
    }
}

/// The highest amount that a route can be searched for.
pub const MAX_ROUTE_MSAT: u64 = 2_100_000_000_000_000_000;

/// A hop that was found: the node that it leads to, its channel, its fee and its CLTV delta.
pub type FoundHop = ([u8; 33], u64, u64, u32);

/// A hop of a route that was found.
pub open spec fn hop_of(h: FoundHop) -> RouteHop {
    RouteHop { pubkey: PublicKey(h.0), short_channel_id: h.1, fee_msat: h.2, cltv_expiry_delta: h.3 }
}

/// The hops of a path that was found.
pub open spec fn hops_of(found: Seq<FoundHop>) -> Seq<RouteHop> {
    found.map_values(|h: FoundHop| hop_of(h))
}

/// The policy that a graph holds for a hop of a path: that of the direction of its channel which leads from the node
/// before the hop to the node of the hop.
pub open spec fn hop_policy(graph: RoutingGraph, hops: Seq<RouteHop>, source: PublicKey, i: int) -> Option<PolicyUpdate> {
    let from = if i == 0 {
        source
    } else {
        hops[i - 1].pubkey
    };
    let scid = hops[i].short_channel_id;
    let a = graph_channels(graph)[scid];
    let direction: u8 = if a.node_1 == from {
        0
    } else {
        1
    };
    let ends = if direction == 0 {
        (a.node_1, a.node_2)
    } else {
        (a.node_2, a.node_1)
    };
    if graph_channels(graph).dom().contains(scid) && ends == (from, hops[i].pubkey) && graph_policies(
        graph,
    ).dom().contains((scid, direction)) {
        Some(graph_policies(graph)[(scid, direction)])
    } else {
        None
    }
}

/// Whether hops lead from a node to another one along the channels of a graph: each hop uses a channel between the node
/// before it and its own with a policy for that direction, and has the CLTV delta that the policy of the next hop asks
/// for.
pub open spec fn leads_along(graph: RoutingGraph, hops: Seq<RouteHop>, source: PublicKey, dest: PublicKey) -> bool {
    &&& hops.len() > 0
    &&& hops.last().pubkey == dest
    &&& forall|i: int| 0 <= i < hops.len() ==> #[trigger] hop_policy(graph, hops, source, i) is Some
    &&& forall|i: int|
        0 <= i < hops.len() - 1 ==> (#[trigger] hops[i]).cltv_expiry_delta == hop_policy(graph, hops, source, i + 1)
            ->0.cltv_expiry_delta
}

/// Whether hops deliver an amount: exactly that amount, or the least that the channel of the last hop takes if it is
/// more.
pub open spec fn delivers(graph: RoutingGraph, hops: Seq<RouteHop>, source: PublicKey, amount_msat: u64) -> bool {
    let least = hop_policy(graph, hops, source, hops.len() - 1)->0.htlc_minimum_msat;
    hops.last().fee_msat == (if least > amount_msat {
        least
    } else {
        amount_msat
    })
}

/// Searches for a route with `lightning::routing::router::find_route`, with a scorer that has seen no payments. There
/// is no route for no amount, for more than all bitcoin there is, or from a node to itself, and none where no path or no
/// CLTV delta on the way is allowed. A route has a path, and each path leads to the destination along the channels of the graph. If one path is allowed, there is one and it
/// delivers the amount. Which route is found is not said, as hash maps with random seeds take part in the search, nor are
/// the fees on it and the CLTV delta of its last hop, to which the library adds an offset.
#[verifier::external_body]
fn search(graph: &RoutingGraph, source: &PublicKey, dest: &PublicKey, amount_msat: u64, limits: &RouteLimits) -> (r:
    Result<Vec<Vec<FoundHop>>, String>)
    requires
        is_curve_point(source.0@),
        is_curve_point(dest.0@),
    ensures
        amount_msat == 0 || amount_msat > MAX_ROUTE_MSAT || *source == *dest ==> r is Err,
        limits.max_path_count == 0 || limits.max_total_cltv_expiry_delta <= limits.final_cltv_expiry_delta ==> r is Err,
        r matches Ok(paths) ==> paths@.len() > 0 && forall|i: int|
            0 <= i < paths@.len() ==> leads_along(*graph, hops_of((#[trigger] paths@[i])@), *source, *dest),
        r matches Ok(paths) ==> limits.max_path_count == 1 ==> paths@.len() == 1 && delivers(
            *graph,
            hops_of(paths@[0]@),
            *source,
            amount_msat,
        ),
{
    let from = CurveKey::from_slice(&source.0).unwrap();
    let payment_params = PaymentParameters::from_node_id(
        CurveKey::from_slice(&dest.0).unwrap(), limits.final_cltv_expiry_delta)
        .with_max_total_cltv_expiry_delta(limits.max_total_cltv_expiry_delta)
        .with_max_path_count(limits.max_path_count)
        .with_max_channel_saturation_power_of_half(limits.max_channel_saturation_power_of_half);
    let max_total_routing_fee_msat = limits.max_total_routing_fee_msat;
    let p = RouteParameters { payment_params, final_value_msat: amount_msat, max_total_routing_fee_msat };
    find_route(&from, &p, &graph.graph, None, &WrappedLog {}, &graph.scorer, &Default::default(), &[limits.seed_byte; 32])
        .map(|r| r.paths.iter().map(|p| p.hops.iter().map(|h| (
            h.pubkey.serialize(), h.short_channel_id, h.fee_msat, h.cltv_expiry_delta)).collect()).collect())
        .map_err(|e| e.err)
}

/// The path of the hops that were found.
fn path_of(found: &Vec<FoundHop>) -> (p: Path)
    ensures
        p.hops@ == hops_of(found@),
{
    let mut hops: Vec<RouteHop> = Vec::new();
    let mut i: usize = 0;
    while i < found.len()
        invariant
            i <= found@.len(),
            hops@.len() == i,
            forall|j: int| 0 <= j < i ==> #[trigger] hops@[j] == hop_of(found@[j]),
        decreases found@.len() - i,
    {
        let h = found[i];
        hops.push(RouteHop { pubkey: PublicKey(h.0), short_channel_id: h.1, fee_msat: h.2, cltv_expiry_delta: h.3 });
        i += 1;
    }
    assert(hops@ =~= hops_of(found@));
    Path { hops }
}

/// A trait for custom pathfinding implementations.
/// Finds a route from the source node to the destination node for the specified amount.
pub trait PathFinder {
    /// Returns a route containing the payment path, or an error if no route is found.
    fn find_route(&self, source: &PublicKey, dest: PublicKey, amount_msat: u64, pathfinding_graph: &RoutingGraph)
        -> Result<Route, SimulationError>
    ;
}

/// The default pathfinding implementation that uses the pathfinding algorithm of the lightning library.
#[derive(Debug, Clone, Copy)]
pub struct DefaultPathFinder;

impl DefaultPathFinder {
    /// Creates the default pathfinder.
    pub fn new() -> (p: Self)
        ensures
            p == DefaultPathFinder,
    {
        DefaultPathFinder
    }
}

/// Whether a route is one for an amount in a graph: a single path that leads from a node to another one along the
/// channels of the graph, and delivers the amount.
pub open spec fn is_route(graph: RoutingGraph, route: Route, source: PublicKey, dest: PublicKey, amount_msat: u64) -> bool {
    &&& route.paths@.len() == 1
    &&& leads_along(graph, route.paths@[0].hops@, source, dest)
    &&& delivers(graph, route.paths@[0].hops@, source, amount_msat)
}

/// Whether the search for a route within limits may find paths, or fail with an error.
pub closed spec fn search_finds(
    graph: RoutingGraph,
    source: PublicKey,
    dest: PublicKey,
    amount_msat: u64,
    limits: RouteLimits,
    found: Result<Vec<Vec<FoundHop>>, String>,
) -> bool {
    call_ensures(search, (&graph, &source, &dest, amount_msat, &limits), found)
}

/// Whether a route consists of the paths that were found, or the error of the search is reported where there are none.
pub open spec fn is_result_of(
    r: Result<Route, SimulationError>,
    found: Result<Vec<Vec<FoundHop>>, String>,
) -> bool {
    match found {
        Ok(paths) => {
            &&& r matches Ok(route)
            &&& route.paths@.len() == paths@.len()
            &&& forall|i: int| 0 <= i < paths@.len() ==> (#[trigger] route.paths@[i]).hops@ == hops_of(paths@[i]@)
        },
        Err(e) => r == Err::<Route, SimulationError>(SimulationError::SimulatedNetworkError(e)),
    }
}

/// Whether an error is that of the curve library for a key that is not a point of the curve.
pub closed spec fn is_key_error(key: PublicKey, e: String) -> bool {
    !is_curve_point(key.0@) && call_ensures(check_curve_point, (&key,), Err(e))
}

impl PathFinder for DefaultPathFinder {
    /// Searches for a single path of any length, on which no more than half of the capacity of a channel is used.
    fn find_route(&self, source: &PublicKey, dest: PublicKey, amount_msat: u64, pathfinding_graph: &RoutingGraph)
        -> (r: Result<Route, SimulationError>)
        ensures
            amount_msat == 0 || amount_msat > MAX_ROUTE_MSAT || *source == dest ==> r is Err,
            if is_curve_point(source.0@) && is_curve_point(dest.0@) {
                exists|found: Result<Vec<Vec<FoundHop>>, String>| #[trigger]
                    search_finds(*pathfinding_graph, *source, dest, amount_msat, path_limits(), found) && is_result_of(
                        r,
                        found,
                    )
            } else {
                &&& r matches Err(SimulationError::SimulatedNetworkError(e))
                &&& is_key_error(*source, e) || is_key_error(dest, e)
            },
            match r {
                Ok(route) => is_route(*pathfinding_graph, route, *source, dest, amount_msat),
                Err(e) => e is SimulatedNetworkError,
            },
    {
        if let Err(e) = check_curve_point(source) {
            return Err(SimulationError::SimulatedNetworkError(e));
        }
        if let Err(e) = check_curve_point(&dest) {
            return Err(SimulationError::SimulatedNetworkError(e));
        }
        let limits = default_limits();
        let searched = search(pathfinding_graph, source, &dest, amount_msat, &limits);
        let ghost result = searched;
        assert(search_finds(*pathfinding_graph, *source, dest, amount_msat, path_limits(), result));
        match searched {
            Ok(found) => {
                let mut paths: Vec<Path> = Vec::new();
                let mut i: usize = 0;
                while i < found.len()
                    invariant
                        i <= found@.len(),
                        paths@.len() == i,
                        forall|j: int| 0 <= j < i ==> (#[trigger] paths@[j]).hops@ == hops_of(found@[j]@),
                    decreases found@.len() - i,
                {
                    paths.push(path_of(&found[i]));
                    i += 1;
                }
                Ok(Route { paths })
            },
            Err(e) => Err(SimulationError::SimulatedNetworkError(e)),
        }
    }
}

/// Whether a channel of a list is the last one with its short channel ID.
pub open spec fn is_last_of_its_id(channels: Seq<ChannelView>, i: int) -> bool {
    &&& 0 <= i < channels.len()
    &&& forall|j: int| i < j < channels.len() ==> (#[trigger] channels[j]).scid.0 != channels[i].scid.0
}

/// Whether an update announces a policy of a channel, with as much of each value as its field can hold.
pub open spec fn announces(u: PolicyUpdate, policy: ChannelPolicy, scid: u64, direction: u8, timestamp: u32) -> bool {
    &&& u.short_channel_id == scid
    &&& u.direction == direction
    &&& u.timestamp == timestamp
    &&& u.htlc_minimum_msat == policy.min_htlc_size_msat
    &&& u.htlc_maximum_msat == policy.max_htlc_size_msat
    &&& policy.base_fee <= u32::MAX ==> u.fee_base_msat == policy.base_fee
    &&& policy.fee_rate_prop <= u32::MAX ==> u.fee_proportional_millionths == policy.fee_rate_prop
    &&& policy.cltv_expiry_delta <= u16::MAX ==> u.cltv_expiry_delta == policy.cltv_expiry_delta
    &&& (policy.base_fee - u.fee_base_msat) % 0x1_0000_0000 == 0
    &&& (policy.fee_rate_prop - u.fee_proportional_millionths) % 0x1_0000_0000 == 0
    &&& (policy.cltv_expiry_delta - u.cltv_expiry_delta) % 0x1_0000 == 0
}

/// Whether a graph holds a channel with its nodes and its capacity in whole satoshis, and for each direction of it the policy of
/// the node that sends in that direction: node 1 for the direction zero, and node 2 for the direction one.
pub open spec fn holds_channel(
    known: Map<u64, ChannelAnnouncement>,
    policies: Map<(u64, u8), PolicyUpdate>,
    c: ChannelView,
    timestamp: u32,
) -> bool {
    let a = known[c.scid.0];
    &&& known.dom().contains(c.scid.0)
    &&& a.short_channel_id == c.scid.0
    &&& a.node_1 == c.node_1.policy.pubkey
    &&& a.node_2 == c.node_2.policy.pubkey
    &&& a.capacity_sat * 1000 <= c.capacity < (a.capacity_sat + 1) * 1000
    &&& policies.dom().contains((c.scid.0, 0u8))
    &&& policies.dom().contains((c.scid.0, 1u8))
    &&& announces(policies[(c.scid.0, 0u8)], c.node_1.policy, c.scid.0, 0, timestamp)
    &&& announces(policies[(c.scid.0, 1u8)], c.node_2.policy, c.scid.0, 1, timestamp)
}

/// For each channel, a graph that is populated holds the policy of the node that sends in a direction as that of the direction:
/// its fees, its CLTV delta and its limits, where they fit their fields. It holds no other channels and no other policies.
pub proof fn law_graph_holds_the_policies_of_senders(channels: Seq<ChannelView>, timestamp: u32)
    ensures
        forall|i: int| #[trigger]
            is_last_of_its_id(channels, i) ==> holds_channel(
                announcements(channels),
                policy_updates(channels, timestamp),
                channels[i],
                timestamp,
            ),
        forall|k: u64| #[trigger]
            announcements(channels).dom().contains(k) ==> exists|i: int|
                0 <= i < channels.len() && (#[trigger] channels[i]).scid.0 == k,
        forall|k: u64, d: u8| #[trigger]
            policy_updates(channels, timestamp).dom().contains((k, d)) ==> d <= 1 && exists|i: int|
                0 <= i < channels.len() && (#[trigger] channels[i]).scid.0 == k,
    decreases channels.len(),
{
    if channels.len() > 0 {
        let before = channels.drop_last();
        let n = before.len() as int;
        let last = channels.last();
        law_graph_holds_the_policies_of_senders(before, timestamp);
        assert forall|i: int| 0 <= i < n implies #[trigger] before[i] == channels[i] by {}
        assert(channels[n] == last);
        assert forall|i: int| #[trigger] is_last_of_its_id(channels, i) implies holds_channel(
            announcements(channels),
            policy_updates(channels, timestamp),
            channels[i],
            timestamp,
        ) by {
            if i < n {
                assert(channels[n].scid.0 != channels[i].scid.0);
                assert(is_last_of_its_id(before, i)) by {
                    assert forall|j: int| i < j < before.len() implies (#[trigger] before[j]).scid.0 != before[i].scid.0 by {
                        assert(channels[j].scid.0 != channels[i].scid.0);
                    }
                }
                assert(before[i] == channels[i]);
            }
        }
        assert forall|k: u64| #[trigger] announcements(channels).dom().contains(k) implies exists|i: int|
            0 <= i < channels.len() && (#[trigger] channels[i]).scid.0 == k by {
            if k == last.scid.0 {
                assert(channels[n].scid.0 == k);
            } else {
                assert(announcements(before).dom().contains(k));
                let i = choose|i: int| 0 <= i < before.len() && (#[trigger] before[i]).scid.0 == k;
                assert(channels[i].scid.0 == k);
            }
        }
        assert forall|k: u64, d: u8| #[trigger] policy_updates(channels, timestamp).dom().contains((k, d)) implies d <= 1
            && exists|i: int| 0 <= i < channels.len() && (#[trigger] channels[i]).scid.0 == k by {
            if k == last.scid.0 && d <= 1 {
                assert(channels[n].scid.0 == k);
            } else {
                assert(policy_updates(before, timestamp).dom().contains((k, d)));
                let i = choose|i: int| 0 <= i < before.len() && (#[trigger] before[i]).scid.0 == k;
                assert(channels[i].scid.0 == k);
            }
        }
    }
}

/// The time of a policy is that at which it is announced, as far as its field can hold it.
pub proof fn law_policies_have_the_time_of_the_call(now_secs: u64)
    ensures
        now_secs <= u32::MAX ==> update_time(now_secs) == now_secs,
        (now_secs - update_time(now_secs)) % 0x1_0000_0000 == 0,
{
}

/// Whether the values of a policy fit the fields of its announcement.
pub open spec fn fits_announcement(policy: ChannelPolicy) -> bool {
    policy.base_fee <= u32::MAX && policy.fee_rate_prop <= u32::MAX && policy.cltv_expiry_delta <= u16::MAX
}

/// A route that leads along a graph of channels, and pays each node on it what the policy that the graph holds for the next hop
/// asks for, is forwarded by each node on it: the channel of the next hop accepts the forward.
pub proof fn law_route_priced_by_the_graph_is_forwarded(
    channels: Seq<ChannelView>,
    timestamp: u32,
    graph: RoutingGraph,
    hops: Seq<RouteHop>,
    source: PublicKey,
    dest: PublicKey,
    i: int,
    amount: u64,
)
    requires
        graph_error(channels) is None,
        forall|j: int|
            0 <= j < channels.len() ==> fits_announcement((#[trigger] channels[j]).node_1.policy) && fits_announcement(
                channels[j].node_2.policy,
            ),
        graph_channels(graph) == announcements(channels),
        graph_policies(graph) == policy_updates(channels, timestamp),
        leads_along(graph, hops, source, dest),
        0 <= i < hops.len() - 1,
        ({
            let asked = hop_policy(graph, hops, source, i + 1)->0;
            &&& amount * asked.fee_proportional_millionths <= u64::MAX
            &&& (hops[i].fee_msat - asked.fee_base_msat + 1) * 1_000_000 > amount * asked.fee_proportional_millionths
        }),
    ensures
        forward_outcome(
            channel_map(channels),
            ShortChannelID(hops[i + 1].short_channel_id),
            hops[i].pubkey,
            hops[i].cltv_expiry_delta,
            amount,
            hops[i].fee_msat,
        ) == Ok::<Result<(), ForwardingError>, CriticalError>(Ok(())),
{
    let k = hops[i + 1].short_channel_id;
    assert(hop_policy(graph, hops, source, i + 1) is Some);
    law_graph_holds_the_policies_of_senders(channels, timestamp);
    law_network_has_the_channels_of_its_list(channels);
    law_network_has_valid_unique_channels(channels);
    assert(announcements(channels).dom().contains(k));
    let j = choose|j: int| 0 <= j < channels.len() && (#[trigger] channels[j]).scid.0 == k;
    let c = channels[j];
    assert(is_last_of_its_id(channels, j)) by {
        assert forall|l: int| j < l < channels.len() implies (#[trigger] channels[l]).scid.0 != channels[j].scid.0 by {
            assert(channels[j].scid.0 != channels[l].scid.0);
        }
    }
    assert(holds_channel(announcements(channels), policy_updates(channels, timestamp), c, timestamp));
    assert(channel_map(channels)[k] == c);
    assert(fits_announcement(c.node_1.policy) && fits_announcement(c.node_2.policy));
    assert(is_valid_channel(c));
    let policy = if c.node_1.policy.pubkey == hops[i].pubkey {
        c.node_1.policy
    } else {
        c.node_2.policy
    };
    let asked = hop_policy(graph, hops, source, i + 1)->0;
    assert(hops[i].cltv_expiry_delta == asked.cltv_expiry_delta);
    assert(asked.fee_base_msat == policy.base_fee);
    assert(asked.fee_proportional_millionths == policy.fee_rate_prop);
    law_forward_is_checked_by_its_forwarder(
        channel_map(channels),
        ShortChannelID(k),
        hops[i].pubkey,
        hops[i].cltv_expiry_delta,
        amount,
        hops[i].fee_msat,
    );
    law_forward_is_accepted_for_its_fee(policy, hops[i].cltv_expiry_delta, amount, hops[i].fee_msat);
}

/// The default pathfinder asks for a single path, on which no more than half of a channel is used, and sets no bounds on the
/// CLTV deltas and the fees on it.
pub proof fn law_default_path_is_single_and_unbounded()
    ensures
        path_limits().max_path_count == 1,
        path_limits().max_channel_saturation_power_of_half == 1,
        path_limits().max_total_cltv_expiry_delta == u32::MAX,
        path_limits().max_total_routing_fee_msat is None,
        path_limits().final_cltv_expiry_delta == 0,
        path_limits().seed_byte == 0,
{
}

/// A channel can be announced only with two distinct nodes that are points of the curve, and with policies that allow no HTLC
/// beyond its capacity in whole satoshis, which must not exceed all bitcoin there is.
pub proof fn law_routable_channel_holds_its_htlcs(channels: Seq<ChannelView>, i: int)
    requires
        0 <= i < channels.len(),
        is_routable(channels, i),
    ensures
        channels[i].node_1.policy.pubkey != channels[i].node_2.policy.pubkey,
        is_curve_point(channels[i].node_1.policy.pubkey.0@),
        is_curve_point(channels[i].node_2.policy.pubkey.0@),
        channels[i].node_1.policy.max_htlc_size_msat <= channels[i].capacity,
        channels[i].node_2.policy.max_htlc_size_msat <= channels[i].capacity,
        channels[i].capacity / 1000 <= 2_100_000_000_000_000,
{
}

/// Hops that are found become the hops of a route, one for one and in order, with the node, the channel, the fee and the CLTV
/// delta that were found.
pub proof fn law_found_hops_are_kept(found: Seq<FoundHop>)
    ensures
        hops_of(found).len() == found.len(),
        forall|i: int|
            0 <= i < found.len() ==> {
                let h = #[trigger] hops_of(found)[i];
                &&& h.pubkey.0 == found[i].0
                &&& h.short_channel_id == found[i].1
                &&& h.fee_msat == found[i].2
                &&& h.cltv_expiry_delta == found[i].3
            },
{
}

} // verus!
