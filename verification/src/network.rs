//! The simulated network: its channels by short channel ID, and its nodes.
use crate::channel::{
    law_valid_channel_has_distinct_nodes, node_info, node_info_view, ChannelView, CriticalError, ForwardResult, ForwardingError, Htlc,
    SimulatedChannel,
};
use crate::intercept::CustomRecords;
use crate::keyed::KeyedMap;
use crate::node::{LightningError, NodeInfo, NodeInfoView, ShortChannelID, SimulationError};
use crate::primitives::{with_keysend_flag, PaymentHash, PublicKey};
use crate::text::text;
use std::collections::HashMap;
use vstd::prelude::*;

verus! {

/// The contents of the channels of a network, by short channel ID.
pub type ChannelMap = Map<u64, ChannelView>;

/// The channels of a simulated network, by short channel ID.
#[derive(Debug)]
pub struct SimChannels {
    channels: HashMap<u64, SimulatedChannel>,
}

impl View for SimChannels {
    type V = ChannelMap;

    closed spec fn view(&self) -> ChannelMap {
        self.channels@.map_values(|c: SimulatedChannel| c@)
    }
}

impl SimChannels {
    /// All channels are well formed.
    pub closed spec fn wf(&self) -> bool {
        forall|k: u64| #[trigger] self.channels@.contains_key(k) ==> self.channels@[k].wf()
    }

    /// The contents of each channel are well formed.
    pub proof fn lemma_wf(&self)
        requires
            self.wf(),
        ensures
            forall|k: u64| #[trigger] self@.dom().contains(k) ==> self@[k].wf(),
    {
        assert forall|k: u64| #[trigger] self@.dom().contains(k) implies self@[k].wf() by {
            assert(self.channels@.contains_key(k));
        }
    }

    /// A network without channels.
    pub fn new() -> (c: Self)
        ensures
            c.wf(),
            c@ == ChannelMap::empty(),
    {
        let c = SimChannels { channels: HashMap::new() };
        assert(c@ =~= ChannelMap::empty());
        c
    }

    /// The number of channels.
    pub fn len(&self) -> (n: usize)
        ensures
            n == self@.dom().len(),
    {
        broadcast use vstd::std_specs::hash::group_hash_axioms;

        assert(self@.dom() =~= self.channels@.dom());
        self.channels.len()
    }

    /// Looks up a channel.
    pub fn get(&self, scid: &ShortChannelID) -> (r: Option<&SimulatedChannel>)
        requires
            self.wf(),
        ensures
            match r {
                Some(c) => self@.dom().contains(scid.0) && c@ == self@[scid.0] && c.wf(),
                None => !self@.dom().contains(scid.0),
            },
    {
        broadcast use vstd::std_specs::hash::group_hash_axioms;

        self.channels.get(&scid.0)
    }

    /// Sets the channel of a short channel ID.
    pub fn insert(&mut self, scid: ShortChannelID, channel: SimulatedChannel)
        requires
            old(self).wf(),
            channel.wf(),
        ensures
            final(self).wf(),
            final(self)@ == old(self)@.insert(scid.0, channel@),
    {
        broadcast use vstd::std_specs::hash::group_hash_axioms;

        self.channels.insert(scid.0, channel);
        assert(self@ =~= old(self)@.insert(scid.0, channel@));
        assert(self.wf()) by {
            assert forall|k: u64| #[trigger] self.channels@.contains_key(k) implies self.channels@[k].wf() by {
                if k != scid.0 {
                    assert(old(self).channels@.contains_key(k));
                }
            }
        }
    }

    /// Takes a channel out of the network.
    fn take(&mut self, scid: &ShortChannelID) -> (r: Option<SimulatedChannel>)
        requires
            old(self).wf(),
        ensures
            final(self).wf(),
            final(self)@ == old(self)@.remove(scid.0),
            match r {
                Some(c) => old(self)@.dom().contains(scid.0) && c@ == old(self)@[scid.0] && c.wf(),
                None => !old(self)@.dom().contains(scid.0),
            },
    {
        broadcast use vstd::std_specs::hash::group_hash_axioms;

        let r = self.channels.remove(&scid.0);
        assert(self@ =~= old(self)@.remove(scid.0));
        assert(self.wf()) by {
            assert forall|k: u64| #[trigger] self.channels@.contains_key(k) implies self.channels@[k].wf() by {
                assert(old(self).channels@.contains_key(k));
            }
        }
        r
    }

    /// Adds an htlc to a channel, on the side of the node that sends it.
    pub fn add_htlc(&mut self, scid: &ShortChannelID, sender: &PublicKey, hash: PaymentHash, htlc: Htlc) -> (r: Result<
        Result<u64, ForwardingError>,
        CriticalError,
    >)
        requires
            old(self).wf(),
            old(self)@.dom().contains(scid.0) ==> old(self)@[scid.0].in_range(*sender, htlc),
        ensures
            final(self).wf(),
            r == add_outcome(old(self)@, *scid, *sender, hash, htlc),
            final(self)@ == (if r is Ok && r->Ok_0 is Ok {
                after_add(old(self)@, *scid, *sender, hash, htlc)
            } else {
                old(self)@
            }),
    {
        match self.take(scid) {
            Some(mut channel) => {
                let r = channel.add_htlc(sender, hash, htlc);
                self.insert(*scid, channel);
                assert(self@ =~= old(self)@.insert(scid.0, channel@));
                assert(old(self)@.insert(scid.0, old(self)@[scid.0]) =~= old(self)@);
                r
            },
            None => {
                assert(self@ =~= old(self)@);
                Err(CriticalError::ChannelNotFound(*scid))
            },
        }
    }

    /// Removes an htlc from a channel, from the side of the node that sent it, and settles its amount.
    pub fn remove_htlc(&mut self, scid: &ShortChannelID, sender: &PublicKey, hash: &PaymentHash, success: bool) -> (r:
        Result<(Htlc, u64), CriticalError>)
        requires
            old(self).wf(),
        ensures
            final(self).wf(),
            r == remove_outcome(old(self)@, *scid, *sender, *hash, success),
            final(self)@ == after_remove(old(self)@, *scid, *sender, *hash, success),
    {
        match self.take(scid) {
            Some(mut channel) => {
                let r = channel.remove_htlc(sender, hash, success);
                self.insert(*scid, channel);
                assert(self@ =~= old(self)@.insert(scid.0, channel@));
                assert(old(self)@.insert(scid.0, old(self)@[scid.0]) =~= old(self)@);
                r
            },
            None => {
                assert(self@ =~= old(self)@);
                Err(CriticalError::ChannelNotFound(*scid))
            },
        }
    }

    /// Checks an htlc forward against the policy of a node on a channel. A channel that does not exist has no policy
    /// that a forward could violate.
    pub fn check_htlc_forward(
        &self,
        scid: &ShortChannelID,
        node: &PublicKey,
        cltv_delta: u32,
        amount_msat: u64,
        fee_msat: u64,
    ) -> (r: ForwardResult)
        requires
            self.wf(),
        ensures
            r == forward_outcome(self@, *scid, *node, cltv_delta, amount_msat, fee_msat),
    {
        match self.get(scid) {
            Some(channel) => channel.check_htlc_forward(node, cltv_delta, amount_msat, fee_msat),
            None => Ok(Ok(())),
        }
    }
}

/// The outcome of adding an htlc to a channel of the network.
pub open spec fn add_outcome(
    channels: ChannelMap,
    scid: ShortChannelID,
    sender: PublicKey,
    hash: PaymentHash,
    htlc: Htlc,
) -> Result<Result<u64, ForwardingError>, CriticalError> {
    if channels.dom().contains(scid.0) {
        channels[scid.0].add_outcome(sender, hash, htlc)
    } else {
        Err(CriticalError::ChannelNotFound(scid))
    }
}

/// The channels of the network once an htlc was added to one of them.
pub open spec fn after_add(
    channels: ChannelMap,
    scid: ShortChannelID,
    sender: PublicKey,
    hash: PaymentHash,
    htlc: Htlc,
) -> ChannelMap {
    channels.insert(scid.0, channels[scid.0].added(sender, hash, htlc))
}

/// The outcome of removing an htlc from a channel of the network.
pub open spec fn remove_outcome(
    channels: ChannelMap,
    scid: ShortChannelID,
    sender: PublicKey,
    hash: PaymentHash,
    success: bool,
) -> Result<(Htlc, u64), CriticalError> {
    if channels.dom().contains(scid.0) {
        channels[scid.0].remove_outcome(sender, hash, success)
    } else {
        Err(CriticalError::ChannelNotFound(scid))
    }
}

/// The channels of the network after the removal of an htlc from one of them.
pub open spec fn after_remove(
    channels: ChannelMap,
    scid: ShortChannelID,
    sender: PublicKey,
    hash: PaymentHash,
    success: bool,
) -> ChannelMap {
    if channels.dom().contains(scid.0) && channels[scid.0].holds(sender, hash) {
        channels.insert(scid.0, channels[scid.0].removed(sender, hash, success))
    } else {
        channels
    }
}

/// The outcome of checking a forward against the policy of a node on a channel of the network.
pub open spec fn forward_outcome(
    channels: ChannelMap,
    scid: ShortChannelID,
    node: PublicKey,
    cltv_delta: u32,
    amount_msat: u64,
    fee_msat: u64,
) -> ForwardResult {
    if !channels.dom().contains(scid.0) {
        Ok(Ok(()))
    } else if !channels[scid.0].has_node(node) {
        Err(CriticalError::NodeNotFound(node))
    } else {
        channels[scid.0].side(node).policy.forward_outcome(cltv_delta, amount_msat, fee_msat)
    }
}

/// The channels of a list, by short channel ID.
pub open spec fn channel_map(channels: Seq<ChannelView>) -> ChannelMap
    decreases channels.len(),
{
    if channels.len() == 0 {
        Map::empty()
    } else {
        channel_map(channels.drop_last()).insert(channels.last().scid.0, channels.last())
    }
}

/// What is wrong with the first channel of a list that can not be part of a network with those before it, if there is
/// such a channel: it is not valid itself, or its short channel ID is taken.
pub open spec fn graph_error(channels: Seq<ChannelView>) -> Option<Seq<char>>
    decreases channels.len(),
{
    if channels.len() == 0 {
        None
    } else {
        let before = channels.drop_last();
        let last = channels.last();
        if graph_error(before) is Some {
            graph_error(before)
        } else if last.error() is Some {
            last.error()
        } else if channel_map(before).dom().contains(last.scid.0) {
            Some("Simulated short channel ID should be unique: "@ + last.scid.text() + " duplicated"@)
        } else {
            None
        }
    }
}

/// A node of the network: the information about it and the capacities of its channels.
pub struct GraphNodeView {
    pub info: NodeInfoView,
    pub capacities: Seq<u64>,
}

/// The nodes of a network, by public key.
pub type GraphNodes = Map<PublicKey, GraphNodeView>;

/// The nodes of a network once another channel of a node is known. The information about a node is that of its first
/// channel.
pub open spec fn with_channel_of(nodes: GraphNodes, pubkey: PublicKey, alias: Seq<char>, capacity: u64) -> GraphNodes {
    if nodes.dom().contains(pubkey) {
        nodes.insert(
            pubkey,
            GraphNodeView { info: nodes[pubkey].info, capacities: nodes[pubkey].capacities.push(capacity) },
        )
    } else {
        nodes.insert(
            pubkey,
            GraphNodeView { info: node_info_view(pubkey, alias), capacities: seq![capacity] },
        )
    }
}

/// The nodes of a list of channels, each with the capacities of its channels in the order of the list.
pub open spec fn graph_nodes(channels: Seq<ChannelView>) -> GraphNodes
    decreases channels.len(),
{
    if channels.len() == 0 {
        Map::empty()
    } else {
        let c = channels.last();
        let nodes = with_channel_of(
            graph_nodes(channels.drop_last()),
            c.node_1.policy.pubkey,
            c.node_1.policy.alias@,
            c.capacity,
        );
        with_channel_of(nodes, c.node_2.policy.pubkey, c.node_2.policy.alias@, c.capacity)
    }
}

/// SimGraph is the top level struct that is used to coordinate simulation of lightning nodes.
#[derive(Debug)]
pub struct SimGraph {
    /// nodes caches the list of nodes in the network with a vector of their channel capacities, only used for quick
    /// lookup.
    pub nodes: KeyedMap<PublicKey, (NodeInfo, Vec<u64>)>,
    /// channels maps the scid of a channel to its current simulation state.
    pub channels: SimChannels,
    /// Custom records that will be added to the first outgoing HTLC in a payment.
    pub default_custom_records: CustomRecords,
}

impl SimGraph {
    /// The nodes of the network.
    pub open spec fn nodes(&self) -> GraphNodes {
        self.nodes@.map_values(|n: (NodeInfo, Vec<u64>)| GraphNodeView { info: n.0@, capacities: n.1@ })
    }

    /// The nodes of the network, in the order in which they were found.
    pub open spec fn node_list(&self) -> Seq<NodeInfoView> {
        self.nodes.entries().map_values(|e: (PublicKey, (NodeInfo, Vec<u64>))| e.1.0@)
    }

    /// No node is listed twice, and all channels are well formed.
    pub open spec fn wf(&self) -> bool {
        &&& self.nodes.wf()
        &&& self.channels.wf()
    }

    /// Records a channel of a node.
    fn add_node_channel(nodes: &mut KeyedMap<PublicKey, (NodeInfo, Vec<u64>)>, pubkey: PublicKey, alias: &String,
        capacity: u64)
        requires
            old(nodes).wf(),
        ensures
            final(nodes).wf(),
            nodes_view(final(nodes)@) == with_channel_of(nodes_view(old(nodes)@), pubkey, alias@, capacity),
    {
        let ghost before = nodes@;
        let entry = match nodes.remove(&pubkey) {
            Some(node) => {
                let (info, mut capacities) = node;
                capacities.push(capacity);
                (info, capacities)
            },
            None => {
                let mut capacities: Vec<u64> = Vec::new();
                capacities.push(capacity);
                assert(capacities@ =~= seq![capacity]);
                (node_info(pubkey, alias.clone()), capacities)
            },
        };
        nodes.insert(pubkey, entry);
        assert(nodes_view(nodes@) =~= with_channel_of(nodes_view(before), pubkey, alias@, capacity));
    }

    /// Creates a graph on which to simulate payments.
    pub fn new(graph_channels: Vec<SimulatedChannel>, default_custom_records: CustomRecords) -> (r: Result<
        Self,
        SimulationError,
    >)
        requires
            forall|i: int| 0 <= i < graph_channels@.len() ==> (#[trigger] graph_channels@[i]).wf(),
        ensures
            match graph_error(views(graph_channels@)) {
                Some(m) => r matches Err(SimulationError::SimulatedNetworkError(s)) && s@ == m,
                None => {
                    &&& r matches Ok(g)
                    &&& g.wf()
                    &&& g.channels@ == channel_map(views(graph_channels@))
                    &&& g.nodes() == graph_nodes(views(graph_channels@))
                    &&& g.default_custom_records == default_custom_records
                },
            },
    {
        let mut nodes: KeyedMap<PublicKey, (NodeInfo, Vec<u64>)> = KeyedMap::new();
        let mut channels = SimChannels::new();
        let ghost all = graph_channels@;
        let ghost list = views(all);
        proof {
            assert(nodes_view(nodes@) =~= graph_nodes(list.subrange(0, 0)));
        }
        for channel in it: graph_channels
            invariant
                it.seq() == all,
                list == views(all),
                forall|j: int| 0 <= j < all.len() ==> (#[trigger] all[j]).wf(),
                nodes.wf(),
                channels.wf(),
                channels@ == channel_map(list.subrange(0, it.index() as int)),
                nodes_view(nodes@) == graph_nodes(list.subrange(0, it.index() as int)),
                graph_error(list.subrange(0, it.index() as int)) is None,
        {
            let ghost i = it.index() as int;
            proof {
                assert(channel == all[i]);
                let next = list.subrange(0, i + 1);
                assert(next.drop_last() =~= list.subrange(0, i));
                assert(next.last() == channel@);
            }
            // Assert that the channel is valid and that its short channel ID is unique within the simulation, required
            // because we use scid to identify the channel.
            if let Err(e) = channel.validate() {
                proof {
                    lemma_graph_error_stays(list, i + 1);
                }
                return Err(e);
            }
            let scid = channel.short_channel_id;
            if channels.get(&scid).is_some() {
                let mut m = text("Simulated short channel ID should be unique: ");
                m.append(scid.to_text().as_str());
                m.append(" duplicated");
                proof {
                    lemma_graph_error_stays(list, i + 1);
                }
                return Err(SimulationError::SimulatedNetworkError(m));
            }
            // It's okay to have duplicate pubkeys because one node can have many channels.
            Self::add_node_channel(
                &mut nodes,
                channel.node_1.policy.pubkey,
                &channel.node_1.policy.alias,
                channel.capacity_msat,
            );
            Self::add_node_channel(
                &mut nodes,
                channel.node_2.policy.pubkey,
                &channel.node_2.policy.alias,
                channel.capacity_msat,
            );
            channels.insert(scid, channel);
        }
        assert(list.subrange(0, list.len() as int) =~= list);
        Ok(SimGraph { nodes, channels, default_custom_records })
    }

    /// lookup_node fetches a node's information and channel capacities.
    pub fn lookup_node(&self, node: &PublicKey) -> (r: Result<(NodeInfo, Vec<u64>), LightningError>)
        requires
            self.wf(),
        ensures
            if self.nodes().dom().contains(*node) {
                &&& r matches Ok(n)
                &&& n.0@ == self.nodes()[*node].info
                &&& n.1@ == self.nodes()[*node].capacities
            } else {
                r matches Err(LightningError::GetNodeInfoError(m)) && m@ == "Node not found"@
            },
    {
        match self.nodes.get(node) {
            Some(n) => {
                let capacities = n.1.clone();
                assert(capacities@ =~= n.1@);
                Ok((n.0.clone(), capacities))
            },
            None => Err(LightningError::GetNodeInfoError(text("Node not found"))),
        }
    }

    /// Lists all nodes in the simulated network.
    pub fn list_nodes(&self) -> (r: Vec<NodeInfo>)
        requires
            self.wf(),
        ensures
            info_views(r@) == self.node_list(),
            forall|k: PublicKey| #[trigger]
                self.nodes().dom().contains(k) ==> self.node_list().contains(self.nodes()[k].info),
            self.node_list().len() == self.nodes().dom().len(),
    {
        proof {
            self.nodes.lemma_len();
            self.nodes.lemma_entries();
            assert(self.nodes().dom() =~= self.nodes@.dom());
            assert forall|k: PublicKey| #[trigger] self.nodes().dom().contains(k) implies self.node_list().contains(
                self.nodes()[k].info,
            ) by {
                assert(self.nodes@.dom().contains(k));
                let i = choose|i: int| 0 <= i < self.nodes.entries().len() && (#[trigger] self.nodes.entries()[i]).0 == k;
                assert(self.node_list()[i] == self.nodes()[k].info);
            }
        }
        let mut list: Vec<NodeInfo> = Vec::new();
        let n: usize = self.nodes.len();
        let mut i: usize = 0;
        while i < n
            invariant
                self.wf(),
                i <= n,
                n == self.nodes.entries().len(),
                info_views(list@) == self.node_list().subrange(0, i as int),
            decreases n - i,
        {
            let ghost before = list@;
            let info = self.nodes.entry_at(i).1.0.clone();
            list.push(info);
            proof {
                assert(info@ == self.node_list()[i as int]);
                assert(info_views(list@) =~= info_views(before).push(info@));
                assert(self.node_list().subrange(0, i as int + 1) =~= self.node_list().subrange(0, i as int).push(
                    self.node_list()[i as int],
                ));
            }
            i += 1;
        }
        assert(self.node_list().subrange(0, n as int) =~= self.node_list());
        list
    }
}

/// The contents of nodes and their channel capacities.
spec fn nodes_view(nodes: Map<PublicKey, (NodeInfo, Vec<u64>)>) -> GraphNodes {
    nodes.map_values(|n: (NodeInfo, Vec<u64>)| GraphNodeView { info: n.0@, capacities: n.1@ })
}

/// The contents of a list of channels.
pub open spec fn views(channels: Seq<SimulatedChannel>) -> Seq<ChannelView> {
    channels.map_values(|c: SimulatedChannel| c@)
}

/// The contents of a list of nodes.
pub open spec fn info_views(nodes: Seq<NodeInfo>) -> Seq<NodeInfoView> {
    nodes.map_values(|n: NodeInfo| n@)
}

proof fn lemma_graph_error_stays(channels: Seq<ChannelView>, n: int)
    requires
        0 <= n <= channels.len(),
        graph_error(channels.subrange(0, n)) is Some,
    ensures
        graph_error(channels) == graph_error(channels.subrange(0, n)),
    decreases channels.len() - n,
{
    if n < channels.len() {
        assert(channels.subrange(0, n + 1).drop_last() =~= channels.subrange(0, n));
        lemma_graph_error_stays(channels, n + 1);
    } else {
        assert(channels.subrange(0, n) =~= channels);
    }
}

/// Whether a channel has two distinct nodes, none of whose limits exceed its capacity.
pub open spec fn is_valid_channel(c: ChannelView) -> bool {
    &&& c.node_1.policy.pubkey != c.node_2.policy.pubkey
    &&& c.node_1.policy.max_in_flight_msat <= c.capacity
    &&& c.node_1.policy.max_htlc_size_msat <= c.capacity
    &&& c.node_2.policy.max_in_flight_msat <= c.capacity
    &&& c.node_2.policy.max_htlc_size_msat <= c.capacity
}

proof fn lemma_map_keys(channels: Seq<ChannelView>)
    ensures
        forall|k: u64| #[trigger]
            channel_map(channels).dom().contains(k) ==> exists|i: int|
                0 <= i < channels.len() && (#[trigger] channels[i]).scid.0 == k && channel_map(channels)[k] == channels[i]
                    && forall|j: int| i < j < channels.len() ==> (#[trigger] channels[j]).scid.0 != k,
        forall|i: int| 0 <= i < channels.len() ==> channel_map(channels).dom().contains((#[trigger] channels[i]).scid.0),
    decreases channels.len(),
{
    if channels.len() > 0 {
        let before = channels.drop_last();
        let n = before.len() as int;
        lemma_map_keys(before);
        assert forall|i: int| 0 <= i < channels.len() implies channel_map(channels).dom().contains(
            (#[trigger] channels[i]).scid.0,
        ) by {
            if i < n {
                assert(before[i] == channels[i]);
            }
        }
        assert forall|k: u64| #[trigger] channel_map(channels).dom().contains(k) implies exists|i: int|
            0 <= i < channels.len() && (#[trigger] channels[i]).scid.0 == k && channel_map(channels)[k] == channels[i]
                && forall|j: int| i < j < channels.len() ==> (#[trigger] channels[j]).scid.0 != k by {
            if k == channels.last().scid.0 {
                assert(channels[n].scid.0 == k);
            } else {
                assert(channel_map(before).dom().contains(k));
                let i = choose|i: int|
                    0 <= i < before.len() && (#[trigger] before[i]).scid.0 == k && channel_map(before)[k] == before[i]
                        && forall|j: int| i < j < before.len() ==> (#[trigger] before[j]).scid.0 != k;
                assert(channels[i] == before[i]);
                assert forall|j: int| i < j < channels.len() implies (#[trigger] channels[j]).scid.0 != k by {
                    if j < n {
                        assert(before[j].scid.0 != k);
                    }
                }
            }
        }
    }
}

/// A list of channels makes up a network if and only if each of them has two distinct nodes with limits that do not exceed
/// its capacity, and no two of them have the same short channel ID.
pub proof fn law_network_has_valid_unique_channels(channels: Seq<ChannelView>)
    ensures
        graph_error(channels) is None <==> {
            &&& forall|i: int| 0 <= i < channels.len() ==> is_valid_channel(#[trigger] channels[i])
            &&& forall|i: int, j: int|
                #![trigger channels[i], channels[j]]
                0 <= i < j < channels.len() ==> channels[i].scid.0 != channels[j].scid.0
        },
    decreases channels.len(),
{
    if channels.len() > 0 {
        let before = channels.drop_last();
        let n = before.len() as int;
        law_network_has_valid_unique_channels(before);
        lemma_map_keys(before);
        law_valid_channel_has_distinct_nodes(channels.last());
        assert forall|i: int| 0 <= i < n implies #[trigger] before[i] == channels[i] by {}
        if graph_error(channels) is None {
            assert forall|i: int| 0 <= i < channels.len() implies is_valid_channel(#[trigger] channels[i]) by {
                if i < n {
                    assert(is_valid_channel(before[i]));
                }
            }
            assert forall|i: int, j: int|
                #![trigger channels[i], channels[j]]
                0 <= i < j < channels.len() implies channels[i].scid.0 != channels[j].scid.0 by {
                assert(before[i] == channels[i]);
                if j < n {
                    assert(before[i].scid.0 != before[j].scid.0);
                }
            }
        } else {
            if graph_error(before) is Some {
                if forall|i: int| 0 <= i < n ==> is_valid_channel(#[trigger] before[i]) {
                    let (i, j) = choose|i: int, j: int|
                        #![trigger before[i], before[j]]
                        0 <= i < j < n && before[i].scid.0 == before[j].scid.0;
                    assert(channels[i].scid.0 == channels[j].scid.0);
                } else {
                    let i = choose|i: int| 0 <= i < n && !is_valid_channel(#[trigger] before[i]);
                    assert(!is_valid_channel(channels[i]));
                }
            } else if channels.last().error() is Some {
                assert(!is_valid_channel(channels[n]));
            } else {
                let k = channels.last().scid.0;
                let i = choose|i: int| 0 <= i < n && (#[trigger] before[i]).scid.0 == k;
                assert(channels[i].scid.0 == channels[n].scid.0);
            }
        }
    }
}

/// A network has exactly the channels that it was made of, each under its own short channel ID.
pub proof fn law_network_has_the_channels_of_its_list(channels: Seq<ChannelView>)
    requires
        graph_error(channels) is None,
    ensures
        forall|i: int|
            0 <= i < channels.len() ==> {
                let c = #[trigger] channels[i];
                channel_map(channels).dom().contains(c.scid.0) && channel_map(channels)[c.scid.0] == c
            },
        forall|k: u64| #[trigger]
            channel_map(channels).dom().contains(k) ==> exists|i: int|
                0 <= i < channels.len() && (#[trigger] channels[i]).scid.0 == k,
{
    lemma_map_keys(channels);
    law_network_has_valid_unique_channels(channels);
    assert forall|i: int| 0 <= i < channels.len() implies {
        let c = #[trigger] channels[i];
        channel_map(channels).dom().contains(c.scid.0) && channel_map(channels)[c.scid.0] == c
    } by {
        let k = channels[i].scid.0;
        assert(channel_map(channels).dom().contains(k));
        let j = choose|j: int|
            0 <= j < channels.len() && (#[trigger] channels[j]).scid.0 == k && channel_map(channels)[k] == channels[j];
        if i < j {
            assert(channels[i].scid.0 != channels[j].scid.0);
        } else if j < i {
            assert(channels[j].scid.0 != channels[i].scid.0);
        }
    }
}

/// Whether a node is one of the two nodes of a channel.
pub open spec fn is_end(c: ChannelView, k: PublicKey) -> bool {
    c.node_1.policy.pubkey == k || c.node_2.policy.pubkey == k
}

/// The nodes of a network are the ends of its channels. A node has the capacities of the channels that it is an end of, each
/// once and in their order, whatever their number, and the alias that its first channel gives it.
pub proof fn law_nodes_have_the_capacities_of_their_channels(channels: Seq<ChannelView>, k: PublicKey)
    requires
        graph_error(channels) is None,
    ensures
        graph_nodes(channels).dom().contains(k) <==> exists|i: int| 0 <= i < channels.len() && is_end(#[trigger] channels[i], k),
        graph_nodes(channels).dom().contains(k) ==> {
            let node = graph_nodes(channels)[k];
            &&& node.capacities == channels.filter(|c: ChannelView| is_end(c, k)).map_values(|c: ChannelView| c.capacity)
            &&& node.info.pubkey == k
            &&& node.info.features == with_keysend_flag(Seq::empty())
            &&& exists|i: int|
                {
                    let c = #[trigger] channels[i];
                    &&& 0 <= i < channels.len()
                    &&& is_end(c, k)
                    &&& forall|j: int| 0 <= j < i ==> !is_end(#[trigger] channels[j], k)
                    &&& node.info.alias == (if c.node_1.policy.pubkey == k {
                        c.node_1.policy.alias@
                    } else {
                        c.node_2.policy.alias@
                    })
                }
        },
    decreases channels.len(),
{
    if channels.len() > 0 {
        let before = channels.drop_last();
        let n = before.len() as int;
        let last = channels.last();
        let pred = |c: ChannelView| is_end(c, k);
        let cap = |c: ChannelView| c.capacity;
        law_nodes_have_the_capacities_of_their_channels(before, k);
        law_valid_channel_has_distinct_nodes(last);
        assert forall|i: int| 0 <= i < n implies #[trigger] before[i] == channels[i] by {}
        assert(channels[n] == last);
        reveal(Seq::filter);
        assert(channels.filter(pred) == if is_end(last, k) {
            before.filter(pred).push(last)
        } else {
            before.filter(pred)
        });
        assert(before.filter(pred).push(last).map_values(cap) =~= before.filter(pred).map_values(cap).push(last.capacity));
        if graph_nodes(before).dom().contains(k) {
            let i = choose|i: int|
                {
                    let c = #[trigger] before[i];
                    &&& 0 <= i < before.len()
                    &&& is_end(c, k)
                    &&& forall|j: int| 0 <= j < i ==> !is_end(#[trigger] before[j], k)
                    &&& graph_nodes(before)[k].info.alias == (if c.node_1.policy.pubkey == k {
                        c.node_1.policy.alias@
                    } else {
                        c.node_2.policy.alias@
                    })
                };
            assert(channels[i] == before[i]);
            assert(is_end(channels[i], k));
            assert forall|j: int| 0 <= j < i implies !is_end(#[trigger] channels[j], k) by {
                assert(!is_end(before[j], k));
            }
        } else {
            assert forall|j: int| 0 <= j < n implies !is_end(#[trigger] channels[j], k) by {
                assert(!is_end(before[j], k));
            }
            lemma_filter_none(before, k);
            assert(before.filter(pred).map_values(cap) =~= Seq::empty());
            if is_end(last, k) {
                assert(Seq::<u64>::empty().push(last.capacity) =~= seq![last.capacity]);
            }
        }
    }
}

proof fn lemma_filter_none(channels: Seq<ChannelView>, k: PublicKey)
    requires
        forall|i: int| 0 <= i < channels.len() ==> !is_end(#[trigger] channels[i], k),
    ensures
        channels.filter(|c: ChannelView| is_end(c, k)) == Seq::<ChannelView>::empty(),
    decreases channels.len(),
{
    reveal(Seq::filter);
    if channels.len() > 0 {
        let before = channels.drop_last();
        assert forall|i: int| 0 <= i < before.len() implies !is_end(#[trigger] before[i], k) by {
            assert(!is_end(channels[i], k));
        }
        lemma_filter_none(before, k);
        assert(!is_end(channels[channels.len() - 1], k));
    }
}

/// A forward is checked against the policy of the node that forwards it, on the channel that it goes out over. There is
/// nothing to check on a channel that does not exist, and no node but those of the channel can forward.
pub proof fn law_forward_is_checked_by_its_forwarder(
    channels: ChannelMap,
    scid: ShortChannelID,
    node: PublicKey,
    cltv_delta: u32,
    amount_msat: u64,
    fee_msat: u64,
)
    ensures
        !channels.dom().contains(scid.0) ==> forward_outcome(channels, scid, node, cltv_delta, amount_msat, fee_msat)
            == Ok::<Result<(), ForwardingError>, CriticalError>(Ok(())),
        channels.dom().contains(scid.0) ==> forward_outcome(channels, scid, node, cltv_delta, amount_msat, fee_msat) == (if node
            == channels[scid.0].node_1.policy.pubkey {
            channels[scid.0].node_1.policy.forward_outcome(cltv_delta, amount_msat, fee_msat)
        } else if node == channels[scid.0].node_2.policy.pubkey {
            channels[scid.0].node_2.policy.forward_outcome(cltv_delta, amount_msat, fee_msat)
        } else {
            Err(CriticalError::NodeNotFound(node))
        }),
{
}

/// Adding an htlc to a channel of the network, or removing one, touches no other channel, and there is none where the channel
/// does not exist.
pub proof fn law_htlcs_touch_their_own_channel(
    channels: ChannelMap,
    scid: ShortChannelID,
    sender: PublicKey,
    hash: PaymentHash,
    htlc: Htlc,
    success: bool,
)
    ensures
        !channels.dom().contains(scid.0) ==> {
            &&& add_outcome(channels, scid, sender, hash, htlc) == Err::<Result<u64, ForwardingError>, CriticalError>(
                CriticalError::ChannelNotFound(scid),
            )
            &&& remove_outcome(channels, scid, sender, hash, success) == Err::<(Htlc, u64), CriticalError>(
                CriticalError::ChannelNotFound(scid),
            )
            &&& after_remove(channels, scid, sender, hash, success) == channels
        },
        channels.dom().contains(scid.0) ==> {
            let c = channels[scid.0];
            let added = after_add(channels, scid, sender, hash, htlc);
            let removed = after_remove(channels, scid, sender, hash, success);
            &&& add_outcome(channels, scid, sender, hash, htlc) == c.add_outcome(sender, hash, htlc)
            &&& remove_outcome(channels, scid, sender, hash, success) == c.remove_outcome(sender, hash, success)
            &&& added.dom() == channels.dom() && removed.dom() == channels.dom()
            &&& added[scid.0] == c.added(sender, hash, htlc)
            &&& removed[scid.0] == (if c.holds(sender, hash) {
                c.removed(sender, hash, success)
            } else {
                c
            })
            &&& forall|k: u64| k != scid.0 ==> #[trigger] added[k] == channels[k] && #[trigger] removed[k] == channels[k]
        },
{
    if channels.dom().contains(scid.0) {
        assert(after_add(channels, scid, sender, hash, htlc).dom() =~= channels.dom());
        assert(after_remove(channels, scid, sender, hash, success).dom() =~= channels.dom());
    }
}

} // verus!
