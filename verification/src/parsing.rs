//! The simulation file: the nodes, channels and activities that it describes, and their validation.
use crate::channel::{ChannelPolicy, ChannelView, Htlc, SideView, SimulatedChannel};
use crate::keyed::{Key, KeyedMap};
use crate::network::info_views;
use crate::node::{
    ActivityDefinition, Amount, Graph, Interval, LightningError, NodeId, NodeInfo, NodeInfoView, ShortChannelID,
};
use crate::primitives::{PaymentHash, PublicKey};
use crate::text::{same_text, text};
use vstd::prelude::*;

verus! {

/// The details of a connection to an LND node.
#[derive(Debug)]
pub struct LndConnection {
    pub id: NodeId,
    pub address: String,
    pub macaroon: String,
    pub cert: String,
}

/// The details of a connection to a CLN node.
#[derive(Debug)]
pub struct ClnConnection {
    pub id: NodeId,
    pub address: String,
    pub ca_cert: String,
    pub client_cert: String,
    pub client_key: String,
}

/// The details of a connection to an Eclair node.
#[derive(Debug)]
pub struct EclairConnection {
    pub id: NodeId,
    pub base_url: String,
    pub api_username: String,
    pub api_password: String,
}

/// The details of a connection to an LDK server.
#[derive(Debug)]
pub struct LdkServerConnection {
    pub address: String,
    pub api_key: String,
    pub cert: String,
}

/// The details of a connection to a node.
#[derive(Debug)]
pub enum NodeConnection {
    Lnd(LndConnection),
    Cln(ClnConnection),
    Eclair(EclairConnection),
    LdkServer(LdkServerConnection),
}

/// A channel of a simulated network, as it is described in the simulation file.
#[derive(Debug)]
pub struct NetworkParser {
    pub scid: ShortChannelID,
    pub capacity_msat: u64,
    pub node_1: ChannelPolicy,
    pub node_2: ChannelPolicy,
}

/// The side of a channel that was described: it has a balance, and nothing is in flight.
pub open spec fn described_side(balance: int, policy: ChannelPolicy) -> SideView {
    SideView { balance, in_flight: Map::empty(), policy, index: 0 }
}

/// The channel that is described: its capacity is split between its nodes.
pub open spec fn described_channel(p: NetworkParser) -> ChannelView {
    ChannelView {
        capacity: p.capacity_msat,
        scid: p.scid,
        node_1: described_side(p.capacity_msat as int / 2, p.node_1),
        node_2: described_side(p.capacity_msat - p.capacity_msat as int / 2, p.node_2),
    }
}

impl NetworkParser {
    /// Creates the channel that is described.
    pub fn to_channel(&self) -> (c: SimulatedChannel)
        ensures
            c.wf(),
            c@ == described_channel(*self),
            c@.sane(),
    {
        SimulatedChannel::new(self.capacity_msat, self.scid, self.node_1.clone(), self.node_2.clone())
    }
}

/// Data structure used to parse information from the simulation file. It allows source and destination to be
/// [NodeId], which enables the use of public keys and aliases in the simulation description.
#[derive(Debug)]
pub struct ActivityParser {
    /// The source of the payment.
    pub source: NodeId,
    /// The destination of the payment.
    pub destination: NodeId,
    /// The time in the simulation to start the payment.
    pub start_secs: Option<u16>,
    /// The number of payments to send over the course of the simulation.
    pub count: Option<u64>,
    /// The interval of the event, as in every how many seconds the payment is performed.
    pub interval_secs: Interval,
    /// The amount of m_sat to used in this payment.
    pub amount_msat: Amount,
}

/// The contents of a simulation file.
#[derive(Debug)]
pub struct SimParams {
    /// Real nodes to connect to.
    pub nodes: Vec<NodeConnection>,
    /// The channels of a simulated network.
    pub sim_network: Vec<NetworkParser>,
    /// The payment activities to run.
    pub activity: Vec<ActivityParser>,
    /// Nodes that take no part in random activity.
    pub exclude: Vec<PublicKey>,
}

/// The position of the first node with a key, if there is one.
pub open spec fn find_key(nodes: Seq<NodeInfoView>, key: PublicKey) -> Option<int>
    decreases nodes.len(),
{
    if nodes.len() == 0 {
        None
    } else {
        match find_key(nodes.drop_last(), key) {
            Some(i) => Some(i),
            None => if nodes.last().pubkey == key {
                Some(nodes.len() - 1)
            } else {
                None
            },
        }
    }
}

/// The position of the first node with an alias, if there is one. Nodes with an empty alias have none.
pub open spec fn find_alias(nodes: Seq<NodeInfoView>, alias: Seq<char>) -> Option<int>
    decreases nodes.len(),
{
    if nodes.len() == 0 || alias.len() == 0 {
        None
    } else {
        match find_alias(nodes.drop_last(), alias) {
            Some(i) => Some(i),
            None => if nodes.last().alias == alias {
                Some(nodes.len() - 1)
            } else {
                None
            },
        }
    }
}

/// What is found by a key is a node with that key.
pub proof fn lemma_find_key(nodes: Seq<NodeInfoView>, key: PublicKey)
    ensures
        match find_key(nodes, key) {
            Some(i) => 0 <= i < nodes.len() && nodes[i].pubkey == key,
            None => forall|i: int| 0 <= i < nodes.len() ==> (#[trigger] nodes[i]).pubkey != key,
        },
    decreases nodes.len(),
{
    if nodes.len() > 0 {
        let rest = nodes.drop_last();
        lemma_find_key(rest, key);
        if find_key(nodes, key) is None {
            assert forall|i: int| 0 <= i < nodes.len() implies (#[trigger] nodes[i]).pubkey != key by {
                if i < rest.len() {
                    assert(rest[i] == nodes[i]);
                }
            }
        }
    }
}

/// What is found by an alias is a node with that alias.
pub proof fn lemma_find_alias(nodes: Seq<NodeInfoView>, alias: Seq<char>)
    ensures
        match find_alias(nodes, alias) {
            Some(i) => 0 <= i < nodes.len() && nodes[i].alias == alias && alias.len() > 0,
            None => alias.len() > 0 ==> forall|i: int| 0 <= i < nodes.len() ==> (#[trigger] nodes[i]).alias != alias,
        },
    decreases nodes.len(),
{
    if nodes.len() > 0 && alias.len() > 0 {
        let rest = nodes.drop_last();
        lemma_find_alias(rest, alias);
        if find_alias(nodes, alias) is None {
            assert forall|i: int| 0 <= i < nodes.len() implies (#[trigger] nodes[i]).alias != alias by {
                if i < rest.len() {
                    assert(rest[i] == nodes[i]);
                }
            }
        }
    }
}

/// What is wrong with a list of nodes, if anything: the first node whose key or alias has come before is named.
pub open spec fn mapping_error(nodes: Seq<NodeInfoView>) -> Option<Seq<char>>
    decreases nodes.len(),
{
    if nodes.len() == 0 {
        None
    } else {
        let before = nodes.drop_last();
        let last = nodes.last();
        if mapping_error(before) is Some {
            mapping_error(before)
        } else if find_key(before, last.pubkey) is Some {
            Some("duplicated node: "@ + last.pubkey.text() + "."@)
        } else if find_alias(before, last.alias) is Some {
            Some("duplicated alias: "@ + last.alias + "."@)
        } else {
            None
        }
    }
}

proof fn lemma_mapping_error_stays(nodes: Seq<NodeInfoView>, n: int)
    requires
        0 <= n <= nodes.len(),
        mapping_error(nodes.subrange(0, n)) is Some,
    ensures
        mapping_error(nodes) == mapping_error(nodes.subrange(0, n)),
    decreases nodes.len() - n,
{
    if n < nodes.len() {
        assert(nodes.subrange(0, n + 1).drop_last() =~= nodes.subrange(0, n));
        lemma_mapping_error_stays(nodes, n + 1);
    } else {
        assert(nodes.subrange(0, n) =~= nodes);
    }
}

/// A list of nodes is accepted exactly where no key, and no alias other than the empty one, occurs twice. So a key or
/// an alias identifies a node.
pub proof fn law_mapping_is_unambiguous(nodes: Seq<NodeInfoView>)
    ensures
        mapping_error(nodes) is None <==> forall|i: int, j: int|
            #![trigger nodes[i], nodes[j]]
            0 <= i < j < nodes.len() ==> nodes[i].pubkey != nodes[j].pubkey && (nodes[j].alias.len() > 0
                ==> nodes[i].alias != nodes[j].alias),
    decreases nodes.len(),
{
    if nodes.len() > 0 {
        let before = nodes.drop_last();
        let last = nodes.last();
        let n = nodes.len() - 1;
        law_mapping_is_unambiguous(before);
        lemma_find_key(before, last.pubkey);
        lemma_find_alias(before, last.alias);
        if mapping_error(nodes) is None {
            assert forall|i: int, j: int|
                #![trigger nodes[i], nodes[j]]
                0 <= i < j < nodes.len() implies nodes[i].pubkey != nodes[j].pubkey && (nodes[j].alias.len() > 0
                ==> nodes[i].alias != nodes[j].alias) by {
                assert(before[i] == nodes[i]);
                if j < n {
                    assert(before[j] == nodes[j]);
                }
            }
        } else if mapping_error(before) is Some {
            let (i, j) = choose|i: int, j: int|
                #![trigger before[i], before[j]]
                0 <= i < j < before.len() && !(before[i].pubkey != before[j].pubkey && (before[j].alias.len() > 0
                    ==> before[i].alias != before[j].alias));
            assert(nodes[i] == before[i] && nodes[j] == before[j]);
        } else if let Some(i) = find_key(before, last.pubkey) {
            assert(nodes[i] == before[i] && nodes[n] == last);
        } else if let Some(i) = find_alias(before, last.alias) {
            assert(nodes[i] == before[i] && nodes[n] == last);
        }
    }
}

/// The position of the first node with a key.
fn position_by_key(nodes: &Vec<NodeInfo>, n: usize, key: &PublicKey) -> (p: Option<usize>)
    requires
        n <= nodes@.len(),
    ensures
        match find_key(info_views(nodes@).subrange(0, n as int), *key) {
            Some(i) => p == Some(i as usize) && 0 <= i < n,
            None => p is None,
        },
{
    let ghost views = info_views(nodes@);
    let mut found: Option<usize> = None;
    let mut i: usize = 0;
    while i < n
        invariant
            i <= n,
            n <= nodes@.len(),
            views == info_views(nodes@),
            match find_key(views.subrange(0, i as int), *key) {
                Some(k) => found == Some(k as usize) && 0 <= k < i,
                None => found is None,
            },
        decreases n - i,
    {
        proof {
            let next = views.subrange(0, i as int + 1);
            assert(next.drop_last() =~= views.subrange(0, i as int));
            assert(next.last() == nodes@[i as int]@);
        }
        if found.is_none() && nodes[i].pubkey.same(key) {
            found = Some(i);
        }
        i += 1;
    }
    found
}

/// The position of the first node with an alias.
fn position_by_alias(nodes: &Vec<NodeInfo>, n: usize, alias: &str) -> (p: Option<usize>)
    requires
        n <= nodes@.len(),
    ensures
        match find_alias(info_views(nodes@).subrange(0, n as int), alias@) {
            Some(i) => p == Some(i as usize) && 0 <= i < n,
            None => p is None,
        },
{
    if alias.is_empty() {
        return None;
    }
    let ghost views = info_views(nodes@);
    let mut found: Option<usize> = None;
    let mut i: usize = 0;
    while i < n
        invariant
            i <= n,
            n <= nodes@.len(),
            alias@.len() > 0,
            views == info_views(nodes@),
            match find_alias(views.subrange(0, i as int), alias@) {
                Some(k) => found == Some(k as usize) && 0 <= k < i,
                None => found is None,
            },
        decreases n - i,
    {
        proof {
            let next = views.subrange(0, i as int + 1);
            assert(next.drop_last() =~= views.subrange(0, i as int));
            assert(next.last() == nodes@[i as int]@);
        }
        if found.is_none() && same_text(nodes[i].alias.as_str(), alias) {
            found = Some(i);
        }
        i += 1;
    }
    found
}

/// Nodes that can be looked up by their key and by their alias.
#[derive(Debug)]
pub struct NodeMapping {
    nodes: Vec<NodeInfo>,
}

impl View for NodeMapping {
    type V = Seq<NodeInfoView>;

    closed spec fn view(&self) -> Seq<NodeInfoView> {
        info_views(self.nodes@)
    }
}

impl NodeMapping {
    /// Looks up a node by its key.
    pub fn get(&self, key: &PublicKey) -> (r: Option<NodeInfo>)
        ensures
            match find_key(self@, *key) {
                Some(i) => r matches Some(n) && n@ == self@[i],
                None => r is None,
            },
    {
        assert(self@.subrange(0, self@.len() as int) =~= self@);
        match position_by_key(&self.nodes, self.nodes.len(), key) {
            Some(i) => Some(self.nodes[i].clone()),
            None => None,
        }
    }

    /// Looks up a node by its alias.
    pub fn get_alias(&self, alias: &str) -> (r: Option<NodeInfo>)
        ensures
            match find_alias(self@, alias@) {
                Some(i) => r matches Some(n) && n@ == self@[i],
                None => r is None,
            },
    {
        assert(self@.subrange(0, self@.len() as int) =~= self@);
        match position_by_alias(&self.nodes, self.nodes.len(), alias) {
            Some(i) => Some(self.nodes[i].clone()),
            None => None,
        }
    }
}

/// Makes nodes available for lookups by their key and by their alias for activity validation. Neither may be duplicated.
pub fn add_node_to_maps(nodes: Vec<NodeInfo>) -> (r: Result<NodeMapping, LightningError>)
    ensures
        match mapping_error(info_views(nodes@)) {
            Some(m) => r matches Err(LightningError::ValidationError(s)) && s@ == m,
            None => r matches Ok(map) && map@ == info_views(nodes@),
        },
{
    let ghost views = info_views(nodes@);
    let mut i: usize = 0;
    while i < nodes.len()
        invariant
            i <= nodes@.len(),
            views == info_views(nodes@),
            mapping_error(views.subrange(0, i as int)) is None,
        decreases nodes@.len() - i,
    {
        let node = &nodes[i];
        proof {
            let next = views.subrange(0, i as int + 1);
            assert(next.drop_last() =~= views.subrange(0, i as int));
            assert(next.last() == node@);
        }
        if position_by_key(&nodes, i, &node.pubkey).is_some() {
            let mut m = text("duplicated node: ");
            m.append(node.pubkey.to_text().as_str());
            m.append(".");
            proof {
                lemma_mapping_error_stays(views, i as int + 1);
            }
            return Err(LightningError::ValidationError(m));
        }
        if position_by_alias(&nodes, i, node.alias.as_str()).is_some() {
            let mut m = text("duplicated alias: ");
            m.append(node.alias.as_str());
            m.append(".");
            proof {
                lemma_mapping_error_stays(views, i as int + 1);
            }
            return Err(LightningError::ValidationError(m));
        }
        i += 1;
    }
    assert(views.subrange(0, i as int) =~= views);
    Ok(NodeMapping { nodes })
}

/// The keys of the nodes of a graph that have an alias, in the order of the graph.
pub open spec fn keys_with_alias(graph: Seq<NodeInfoView>, alias: Seq<char>) -> Seq<PublicKey>
    decreases graph.len(),
{
    if graph.len() == 0 {
        Seq::empty()
    } else {
        let before = keys_with_alias(graph.drop_last(), alias);
        if graph.last().alias == alias {
            before.push(graph.last().pubkey)
        } else {
            before
        }
    }
}

/// The text of a list of keys.
pub open spec fn keys_text(keys: Seq<PublicKey>) -> Seq<char>
    decreases keys.len(),
{
    if keys.len() == 0 {
        Seq::empty()
    } else if keys.len() == 1 {
        keys[0].text()
    } else {
        keys_text(keys.drop_last()) + ", "@ + keys.last().text()
    }
}

/// The nodes of a graph, each under its own key.
pub open spec fn graph_list(graph: Graph) -> Seq<NodeInfoView> {
    graph.nodes_by_pk.entries().map_values(|e: (PublicKey, NodeInfo)| e.1@)
}

/// The node of a graph with a key.
pub open spec fn graph_node(graph: Graph, key: PublicKey) -> Option<NodeInfoView> {
    if graph.nodes_by_pk@.dom().contains(key) {
        Some(graph.nodes_by_pk@[key]@)
    } else {
        None
    }
}

/// The node that is the first of those with an alias in a list.
pub open spec fn first_with_alias(graph: Seq<NodeInfoView>, alias: Seq<char>) -> NodeInfoView
    decreases graph.len(),
{
    if graph.len() == 0 || graph[0].alias == alias {
        graph[0]
    } else {
        first_with_alias(graph.drop_first(), alias)
    }
}

/// The source that a node id refers to: one of the nodes that we control.
pub open spec fn resolve_source(nodes: Seq<NodeInfoView>, id: NodeId) -> Result<NodeInfoView, Seq<char>> {
    let position = match id {
        NodeId::PublicKey(pk) => find_key(nodes, pk),
        NodeId::Alias(a) => find_alias(nodes, a@),
    };
    match position {
        Some(i) => Ok(nodes[i]),
        None => Err("activity source "@ + id.text() + " not found in nodes."@),
    }
}

/// The destination that a node id refers to: one of the nodes that we control, or else a node of the graph, where an
/// alias must be that of a single node.
pub open spec fn resolve_destination(nodes: Seq<NodeInfoView>, graph: Graph, id: NodeId) -> Result<
    NodeInfoView,
    Seq<char>,
> {
    let unknown = "unknown activity destination: "@ + id.text() + "."@;
    match id {
        NodeId::Alias(a) => match find_alias(nodes, a@) {
            Some(i) => Ok(nodes[i]),
            None => {
                let keys = keys_with_alias(graph_list(graph), a@);
                if keys.len() == 0 {
                    Err(unknown)
                } else if keys.len() > 1 {
                    Err(
                        "Multiple nodes in the graph have the same destination alias - "@ + a@
                            + ". \n                            Use one of these public keys as the destination instead - ["@
                            + keys_text(keys) + "]"@,
                    )
                } else {
                    Ok(first_with_alias(graph_list(graph), a@))
                }
            },
        },
        NodeId::PublicKey(pk) => match find_key(nodes, pk) {
            Some(i) => Ok(nodes[i]),
            None => match graph_node(graph, pk) {
                Some(n) => Ok(n),
                None => Err(unknown),
            },
        },
    }
}

/// The contents of an activity whose source and destination are known.
pub struct ActivityView {
    pub source: NodeInfoView,
    pub destination: NodeInfoView,
    pub start_secs: Option<u16>,
    pub count: Option<u64>,
    pub interval_secs: Interval,
    pub amount_msat: Amount,
}

/// The contents of an activity.
pub open spec fn activity_view(a: ActivityDefinition) -> ActivityView {
    ActivityView {
        source: a.source@,
        destination: a.destination@,
        start_secs: a.start_secs,
        count: a.count,
        interval_secs: a.interval_secs,
        amount_msat: a.amount_msat,
    }
}

/// The activity that is described, or what is wrong with it. The source is resolved first.
pub open spec fn resolve_activity(nodes: Seq<NodeInfoView>, graph: Graph, act: ActivityParser) -> Result<
    ActivityView,
    Seq<char>,
> {
    match resolve_source(nodes, act.source) {
        Err(e) => Err(e),
        Ok(source) => match resolve_destination(nodes, graph, act.destination) {
            Err(e) => Err(e),
            Ok(destination) => Ok(
                ActivityView {
                    source,
                    destination,
                    start_secs: act.start_secs,
                    count: act.count,
                    interval_secs: act.interval_secs,
                    amount_msat: act.amount_msat,
                },
            ),
        },
    }
}

/// The activities that are described, or what is wrong with the first of them that can not be resolved.
pub open spec fn resolve_activities(nodes: Seq<NodeInfoView>, graph: Graph, activity: Seq<ActivityParser>) -> Result<
    Seq<ActivityView>,
    Seq<char>,
>
    decreases activity.len(),
{
    if activity.len() == 0 {
        Ok(Seq::empty())
    } else {
        match resolve_activities(nodes, graph, activity.drop_last()) {
            Err(e) => Err(e),
            Ok(before) => match resolve_activity(nodes, graph, activity.last()) {
                Err(e) => Err(e),
                Ok(a) => Ok(before.push(a)),
            },
        }
    }
}

proof fn lemma_resolve_error_stays(nodes: Seq<NodeInfoView>, graph: Graph, activity: Seq<ActivityParser>, n: int)
    requires
        0 <= n <= activity.len(),
        resolve_activities(nodes, graph, activity.subrange(0, n)) is Err,
    ensures
        resolve_activities(nodes, graph, activity) == resolve_activities(nodes, graph, activity.subrange(0, n)),
    decreases activity.len() - n,
{
    if n < activity.len() {
        assert(activity.subrange(0, n + 1).drop_last() =~= activity.subrange(0, n));
        lemma_resolve_error_stays(nodes, graph, activity, n + 1);
    } else {
        assert(activity.subrange(0, n) =~= activity);
    }
}

/// The nodes of a graph that have an alias.
fn nodes_with_alias(graph: &Graph, alias: &str) -> (found: Vec<NodeInfo>)
    requires
        graph.nodes_by_pk.wf(),
    ensures
        info_views(found@).map_values(|n: NodeInfoView| n.pubkey) == keys_with_alias(graph_list(*graph), alias@),
        found@.len() > 0 ==> found@[0]@ == first_with_alias(graph_list(*graph), alias@),
{
    let ghost list = graph_list(*graph);
    let n: usize = graph.nodes_by_pk.len();
    let mut found: Vec<NodeInfo> = Vec::new();
    let mut i: usize = 0;
    assert(list.subrange(0, 0) =~= Seq::empty());
    assert(list.subrange(0, n as int) =~= list);
    assert(info_views(found@).map_values(|n: NodeInfoView| n.pubkey) =~= Seq::empty());
    while i < n
        invariant
            graph.nodes_by_pk.wf(),
            i <= n,
            n == list.len(),
            n == graph.nodes_by_pk.entries().len(),
            list == graph_list(*graph),
            info_views(found@).map_values(|n: NodeInfoView| n.pubkey) == keys_with_alias(
                list.subrange(0, i as int),
                alias@,
            ),
            found@.len() > 0 ==> found@[0]@ == first_with_alias(list, alias@),
            found@.len() == 0 ==> first_with_alias(list, alias@) == first_with_alias(
                list.subrange(i as int, n as int),
                alias@,
            ),
        decreases n - i,
    {
        let node = &graph.nodes_by_pk.entry_at(i).1;
        let ghost before = found@;
        proof {
            let next = list.subrange(0, i as int + 1);
            assert(next.drop_last() =~= list.subrange(0, i as int));
            assert(next.last() == node@);
            let rest = list.subrange(i as int, n as int);
            assert(rest[0] == node@);
            assert(rest.drop_first() =~= list.subrange(i as int + 1, n as int));
        }
        if same_text(node.alias.as_str(), alias) {
            let copy = node.clone();
            let ghost kept = copy@;
            found.push(copy);
            proof {
                assert(info_views(found@) =~= info_views(before).push(kept));
                assert(info_views(found@).map_values(|n: NodeInfoView| n.pubkey) =~= info_views(before).map_values(
                    |n: NodeInfoView| n.pubkey,
                ).push(kept.pubkey));
            }
        }
        i += 1;
    }
    assert(list.subrange(0, i as int) =~= list);
    found
}

/// The text of the keys of nodes.
fn list_keys(nodes: &Vec<NodeInfo>) -> (s: String)
    ensures
        s@ == keys_text(info_views(nodes@).map_values(|n: NodeInfoView| n.pubkey)),
{
    let ghost keys = info_views(nodes@).map_values(|n: NodeInfoView| n.pubkey);
    let mut s = String::new();
    let mut i: usize = 0;
    assert(keys.subrange(0, 0) =~= Seq::empty());
    while i < nodes.len()
        invariant
            i <= nodes@.len(),
            keys == info_views(nodes@).map_values(|n: NodeInfoView| n.pubkey),
            s@ == keys_text(keys.subrange(0, i as int)),
        decreases nodes@.len() - i,
    {
        proof {
            let next = keys.subrange(0, i as int + 1);
            assert(next.drop_last() =~= keys.subrange(0, i as int));
            assert(next.last() == nodes@[i as int].pubkey);
        }
        if i > 0 {
            s.append(", ");
        }
        s.append(nodes[i].pubkey.to_text().as_str());
        assert(s@ =~= keys_text(keys.subrange(0, i as int + 1)));
        i += 1;
    }
    assert(keys.subrange(0, i as int) =~= keys);
    s
}

/// The error for a destination that is not known.
fn unknown_destination(id: &NodeId) -> (e: LightningError)
    ensures
        e matches LightningError::ValidationError(m) && m@ == "unknown activity destination: "@ + id.text() + "."@,
{
    let mut m = text("unknown activity destination: ");
    m.append(id.to_text().as_str());
    m.append(".");
    LightningError::ValidationError(m)
}

/// Looks up the destination of an activity.
fn find_destination(nodes: &NodeMapping, graph: &Graph, id: &NodeId) -> (r: Result<NodeInfo, LightningError>)
    requires
        graph.nodes_by_pk.wf(),
    ensures
        match resolve_destination(nodes@, *graph, *id) {
            Ok(n) => r matches Ok(info) && info@ == n,
            Err(m) => r matches Err(LightningError::ValidationError(s)) && s@ == m,
        },
{
    match id {
        NodeId::Alias(a) => {
            if let Some(info) = nodes.get_alias(a.as_str()) {
                return Ok(info);
            }
            let found = nodes_with_alias(graph, a.as_str());
            proof {
                let keys = keys_with_alias(graph_list(*graph), a@);
                assert(keys.len() == found@.len());
            }
            if found.len() == 0 {
                return Err(unknown_destination(id));
            }
            if found.len() > 1 {
                let mut m = text("Multiple nodes in the graph have the same destination alias - ");
                m.append(a.as_str());
                m.append(
                    ". \n                            Use one of these public keys as the destination instead - [",
                );
                m.append(list_keys(&found).as_str());
                m.append("]");
                return Err(LightningError::ValidationError(m));
            }
            Ok(found[0].clone())
        },
        NodeId::PublicKey(pk) => {
            if let Some(info) = nodes.get(pk) {
                return Ok(info);
            }
            match graph.nodes_by_pk.get(pk) {
                Some(info) => Ok(info.clone()),
                None => Err(unknown_destination(id)),
            }
        },
    }
}

/// Validates a set of defined activities, cross-checking aliases and public keys against the set of clients that
/// have been configured, and against the graph.
pub fn validate_activities(activity: &Vec<ActivityParser>, nodes: &NodeMapping, graph: &Graph) -> (r: Result<
    Vec<ActivityDefinition>,
    LightningError,
>)
    requires
        graph.nodes_by_pk.wf(),
    ensures
        match resolve_activities(nodes@, *graph, activity@) {
            Ok(list) => r matches Ok(defs) && defs@.map_values(|a: ActivityDefinition| activity_view(a)) == list,
            Err(m) => r matches Err(LightningError::ValidationError(s)) && s@ == m,
        },
        keeps_own_keys(*graph) ==> (r matches Ok(defs) ==> {
            &&& defs@.len() == activity@.len()
            &&& forall|i: int| 0 <= i < defs@.len() ==> is_described(#[trigger] defs@[i], activity@[i])
        }),
{
    let mut validated: Vec<ActivityDefinition> = Vec::new();
    let mut i: usize = 0;
    assert(activity@.subrange(0, 0) =~= Seq::empty());
    assert(validated@.map_values(|a: ActivityDefinition| activity_view(a)) =~= Seq::empty());
    // Make all the activities identifiable by PK internally
    while i < activity.len()
        invariant
            graph.nodes_by_pk.wf(),
            i <= activity@.len(),
            resolve_activities(nodes@, *graph, activity@.subrange(0, i as int)) == Ok::<Seq<ActivityView>, Seq<char>>(
                validated@.map_values(|a: ActivityDefinition| activity_view(a)),
            ),
        decreases activity@.len() - i,
    {
        let act = &activity[i];
        proof {
            let next = activity@.subrange(0, i as int + 1);
            assert(next.drop_last() =~= activity@.subrange(0, i as int));
            assert(next.last() == act);
        }
        // We can only map source aliases to nodes we control, so if the source alias is not among them, we fail
        let source = match &act.source {
            NodeId::PublicKey(pk) => nodes.get(pk),
            NodeId::Alias(a) => nodes.get_alias(a.as_str()),
        };
        let source = match source {
            Some(source) => source,
            None => {
                let mut m = text("activity source ");
                m.append(act.source.to_text().as_str());
                m.append(" not found in nodes.");
                proof {
                    lemma_resolve_error_stays(nodes@, *graph, activity@, i as int + 1);
                }
                return Err(LightningError::ValidationError(m));
            },
        };
        let destination = match find_destination(nodes, graph, &act.destination) {
            Ok(destination) => destination,
            Err(e) => {
                proof {
                    lemma_resolve_error_stays(nodes@, *graph, activity@, i as int + 1);
                }
                return Err(e);
            },
        };
        let ghost before = validated@;
        let definition = ActivityDefinition {
            source,
            destination,
            start_secs: act.start_secs,
            count: act.count,
            interval_secs: act.interval_secs,
            amount_msat: act.amount_msat,
        };
        let ghost kept = activity_view(definition);
        validated.push(definition);
        assert(validated@.map_values(|a: ActivityDefinition| activity_view(a)) =~= before.map_values(
            |a: ActivityDefinition| activity_view(a),
        ).push(kept));
        i += 1;
    }
    assert(activity@.subrange(0, i as int) =~= activity@);
    proof {
        if keeps_own_keys(*graph) {
            lemma_described(nodes@, *graph, activity@, validated@);
        }
    }
    Ok(validated)
}

/// Validates activities, given the graph that was read from the first of the nodes that we control (or the text of the
/// error), and all nodes that we control. We need to be able to look up destination nodes in the graph, because we
/// allow defined activities to send to nodes that we do not control.
pub fn get_validated_activities(
    graph: Option<Result<Graph, String>>,
    nodes_info: Vec<NodeInfo>,
    activity: &Vec<ActivityParser>,
) -> (r: Result<Vec<ActivityDefinition>, LightningError>)
    requires
        graph matches Some(Ok(g)) ==> g.nodes_by_pk.wf(),
    ensures
        match graph {
            None => r matches Err(LightningError::GetGraphError(m)) && m@ == "Graph is empty"@,
            Some(Err(e)) => r matches Err(LightningError::GetGraphError(m)) && m@ == "Error getting graph "@ + e@,
            Some(Ok(g)) => match mapping_error(info_views(nodes_info@)) {
                Some(m) => r matches Err(LightningError::ValidationError(s)) && s@ == m,
                None => match resolve_activities(info_views(nodes_info@), g, activity@) {
                    Ok(list) => r matches Ok(defs) && defs@.map_values(|a: ActivityDefinition| activity_view(a))
                        == list,
                    Err(m) => r matches Err(LightningError::ValidationError(s)) && s@ == m,
                },
            },
        },
        graph matches Some(Ok(g)) ==> keeps_own_keys(g) ==> (r matches Ok(defs) ==> {
            &&& defs@.len() == activity@.len()
            &&& forall|i: int| 0 <= i < defs@.len() ==> is_described(#[trigger] defs@[i], activity@[i])
        }),
{
    let graph = match graph {
        Some(Ok(graph)) => graph,
        Some(Err(e)) => {
            let mut m = text("Error getting graph ");
            m.append(e.as_str());
            return Err(LightningError::GetGraphError(m));
        },
        None => {
            return Err(LightningError::GetGraphError(text("Graph is empty")));
        },
    };
    let mapping = match add_node_to_maps(nodes_info) {
        Ok(mapping) => mapping,
        Err(e) => {
            return Err(e);
        },
    };
    validate_activities(activity, &mapping, &graph)
}

/// A validated activity keeps the parameters of its description, its source is one of the nodes that we control, and
/// its destination is one of these or of the graph.
pub proof fn law_validated_activity_is_known(nodes: Seq<NodeInfoView>, graph: Graph, act: ActivityParser)
    requires
        resolve_activity(nodes, graph, act) is Ok,
        graph.nodes_by_pk.wf(),
    ensures
        ({
            let a = resolve_activity(nodes, graph, act)->Ok_0;
            &&& nodes.contains(a.source)
            &&& nodes.contains(a.destination) || graph_list(graph).contains(a.destination)
            &&& a.amount_msat == act.amount_msat && a.interval_secs == act.interval_secs
            &&& a.count == act.count && a.start_secs == act.start_secs
        }),
{
    let a = resolve_activity(nodes, graph, act)->Ok_0;
    match act.source {
        NodeId::PublicKey(pk) => lemma_find_key(nodes, pk),
        NodeId::Alias(s) => lemma_find_alias(nodes, s@),
    }
    match act.destination {
        NodeId::PublicKey(pk) => {
            lemma_find_key(nodes, pk);
            if find_key(nodes, pk) is None {
                graph.nodes_by_pk.lemma_entries();
                let i = choose|i: int|
                    0 <= i < graph.nodes_by_pk.entries().len() && (#[trigger] graph.nodes_by_pk.entries()[i]).0 == pk;
                assert(graph_list(graph)[i] == a.destination);
            }
        },
        NodeId::Alias(s) => {
            lemma_find_alias(nodes, s@);
            if find_alias(nodes, s@) is None {
                lemma_first_with_alias(graph_list(graph), s@);
            }
        },
    }
}

proof fn lemma_first_with_alias(graph: Seq<NodeInfoView>, alias: Seq<char>)
    requires
        keys_with_alias(graph, alias).len() > 0,
    ensures
        graph.contains(first_with_alias(graph, alias)),
        first_with_alias(graph, alias).alias == alias,
    decreases graph.len(),
{
    if graph.len() > 0 && graph[0].alias != alias {
        let rest = graph.drop_first();
        lemma_keys_skip(graph, alias);
        lemma_first_with_alias(rest, alias);
        let i = choose|i: int| 0 <= i < rest.len() && rest[i] == first_with_alias(rest, alias);
        assert(graph[i + 1] == rest[i]);
    } else if graph.len() > 0 {
        assert(graph[0] == first_with_alias(graph, alias));
    }
}

proof fn lemma_keys_skip(graph: Seq<NodeInfoView>, alias: Seq<char>)
    requires
        graph.len() > 0,
        graph[0].alias != alias,
    ensures
        keys_with_alias(graph, alias) == keys_with_alias(graph.drop_first(), alias),
    decreases graph.len(),
{
    if graph.len() > 1 {
        lemma_keys_skip(graph.drop_last(), alias);
        assert(graph.drop_last().drop_first() =~= graph.drop_first().drop_last());
    } else {
        assert(graph.drop_first() =~= Seq::empty());
        assert(graph.drop_last() =~= Seq::empty());
    }
}

/// Takes the nodes that are excluded out of those that the simulation controls.
pub fn exclude_nodes<V>(nodes: &mut KeyedMap<PublicKey, V>, exclude: &Vec<PublicKey>)
    requires
        old(nodes).wf(),
    ensures
        final(nodes).wf(),
        final(nodes)@ == old(nodes)@.remove_keys(exclude@.to_set()),
{
    let ghost before = nodes@;
    let mut i: usize = 0;
    assert(nodes@ =~= before.remove_keys(exclude@.subrange(0, 0).to_set()));
    while i < exclude.len()
        invariant
            i <= exclude@.len(),
            nodes.wf(),
            nodes@ == before.remove_keys(exclude@.subrange(0, i as int).to_set()),
        decreases exclude@.len() - i,
    {
        let ghost current = nodes@;
        nodes.remove(&exclude[i]);
        proof {
            let seen = exclude@.subrange(0, i as int);
            let next = exclude@.subrange(0, i as int + 1);
            assert(next =~= seen.push(exclude@[i as int]));
            assert forall|k: PublicKey| next.to_set().contains(k) == (seen.to_set().contains(k) || k
                == exclude@[i as int]) by {
                if next.contains(k) {
                    let j = choose|j: int| 0 <= j < next.len() && next[j] == k;
                    if j < i {
                        assert(seen[j] == k);
                    }
                }
                if seen.contains(k) {
                    let j = choose|j: int| 0 <= j < seen.len() && seen[j] == k;
                    assert(next[j] == k);
                }
                assert(next[i as int] == exclude@[i as int]);
            }
            assert(nodes@ =~= before.remove_keys(next.to_set()));
        }
        i += 1;
    }
    assert(exclude@.subrange(0, i as int) =~= exclude@);
}

/// Whether a node is the one that a node id names: it has the key, or the alias, of the id.
pub open spec fn is_named(id: NodeId, pubkey: PublicKey, alias: Seq<char>) -> bool {
    match id {
        NodeId::PublicKey(pk) => pubkey == pk,
        NodeId::Alias(a) => alias == a@,
    }
}

/// Whether a graph has each node under the node's own key.
pub open spec fn keeps_own_keys(graph: Graph) -> bool {
    forall|k: PublicKey| #[trigger] graph.nodes_by_pk@.dom().contains(k) ==> graph.nodes_by_pk@[k].pubkey == k
}

/// The source and the destination of a validated activity are the nodes that were named, by their key or by their alias. The
/// source is one of the nodes that we control. So is the destination if one of these is named, and it is a node of the graph
/// otherwise.
pub proof fn law_activity_is_between_the_nodes_that_were_named(nodes: Seq<NodeInfoView>, graph: Graph, act: ActivityParser)
    requires
        graph.nodes_by_pk.wf(),
        keeps_own_keys(graph),
        resolve_activity(nodes, graph, act) is Ok,
    ensures
        ({
            let a = resolve_activity(nodes, graph, act)->Ok_0;
            &&& is_named(act.source, a.source.pubkey, a.source.alias)
            &&& nodes.contains(a.source)
            &&& is_named(act.destination, a.destination.pubkey, a.destination.alias)
            &&& nodes.contains(a.destination) || exists|k: PublicKey| #[trigger]
                graph.nodes_by_pk@.dom().contains(k) && graph.nodes_by_pk@[k]@ == a.destination
        }),
{
    let a = resolve_activity(nodes, graph, act)->Ok_0;
    match act.source {
        NodeId::PublicKey(pk) => lemma_find_key(nodes, pk),
        NodeId::Alias(s) => lemma_find_alias(nodes, s@),
    }
    match act.destination {
        NodeId::PublicKey(pk) => {
            lemma_find_key(nodes, pk);
            if find_key(nodes, pk) is None {
                assert(graph.nodes_by_pk@.dom().contains(pk));
            }
        },
        NodeId::Alias(s) => {
            lemma_find_alias(nodes, s@);
            if find_alias(nodes, s@) is None {
                let list = graph_list(graph);
                lemma_first_with_alias(list, s@);
                let i = choose|i: int| 0 <= i < list.len() && list[i] == a.destination;
                graph.nodes_by_pk.lemma_entries();
                let e = graph.nodes_by_pk.entries()[i];
                assert(graph.nodes_by_pk@.dom().contains(e.0) && graph.nodes_by_pk@[e.0]@ == a.destination);
            }
        },
    }
}

/// A source is found if and only if one of the nodes that we control is named, where an empty alias names none.
pub proof fn law_source_is_found_among_our_nodes(nodes: Seq<NodeInfoView>, id: NodeId)
    ensures
        resolve_source(nodes, id) is Ok <==> exists|i: int|
            {
                &&& 0 <= i < nodes.len()
                &&& is_named(id, (#[trigger] nodes[i]).pubkey, nodes[i].alias)
                &&& id matches NodeId::Alias(a) ==> a@.len() > 0
            },
        resolve_source(nodes, id) matches Ok(n) ==> nodes.contains(n) && is_named(id, n.pubkey, n.alias),
{
    match id {
        NodeId::PublicKey(pk) => lemma_find_key(nodes, pk),
        NodeId::Alias(a) => {
            lemma_find_alias(nodes, a@);
            if a@.len() == 0 {
                assert(find_alias(nodes, a@) is None);
            }
        },
    }
}

proof fn lemma_keys_with_alias(graph: Seq<NodeInfoView>, alias: Seq<char>)
    ensures
        keys_with_alias(graph, alias).len() == 0 <==> forall|i: int| 0 <= i < graph.len() ==> (#[trigger] graph[i]).alias != alias,
        keys_with_alias(graph, alias).len() == 1 <==> exists|i: int|
            0 <= i < graph.len() && (#[trigger] graph[i]).alias == alias && forall|j: int|
                0 <= j < graph.len() && j != i ==> (#[trigger] graph[j]).alias != alias,
    decreases graph.len(),
{
    if graph.len() > 0 {
        let before = graph.drop_last();
        let n = before.len() as int;
        lemma_keys_with_alias(before, alias);
        assert forall|i: int| 0 <= i < n implies #[trigger] before[i] == graph[i] by {}
        assert(graph[n] == graph.last());
        if graph.last().alias == alias {
            if keys_with_alias(before, alias).len() == 0 {
                assert forall|j: int| 0 <= j < graph.len() && j != n implies (#[trigger] graph[j]).alias != alias by {
                    assert(before[j].alias != alias);
                }
                assert(graph[n].alias == alias);
            } else {
                let w = choose|i: int| 0 <= i < n && (#[trigger] before[i]).alias == alias;
                assert(graph[w].alias == alias);
                assert forall|i: int| 0 <= i < graph.len() && (#[trigger] graph[i]).alias == alias implies exists|j: int|
                    0 <= j < graph.len() && j != i && (#[trigger] graph[j]).alias == alias by {
                    if i == n {
                        assert(graph[w].alias == alias && w != i);
                    } else {
                        assert(graph[n].alias == alias && n != i);
                    }
                }
            }
        } else {
            if keys_with_alias(before, alias).len() == 1 {
                let i = choose|i: int|
                    0 <= i < before.len() && (#[trigger] before[i]).alias == alias && forall|j: int|
                        0 <= j < before.len() && j != i ==> (#[trigger] before[j]).alias != alias;
                assert(graph[i].alias == alias);
                assert forall|j: int| 0 <= j < graph.len() && j != i implies (#[trigger] graph[j]).alias != alias by {
                    if j < n {
                        assert(before[j].alias != alias);
                    }
                }
            } else {
                assert forall|i: int| 0 <= i < graph.len() && (#[trigger] graph[i]).alias == alias implies exists|j: int|
                    0 <= j < graph.len() && j != i && (#[trigger] graph[j]).alias == alias by {
                    assert(before[i].alias == alias);
                    let j = choose|j: int| 0 <= j < before.len() && j != i && (#[trigger] before[j]).alias == alias;
                    assert(graph[j].alias == alias);
                }
            }
            if keys_with_alias(before, alias).len() > 0 {
                let w = choose|i: int| 0 <= i < n && (#[trigger] before[i]).alias == alias;
                assert(graph[w].alias == alias);
            } else {
                assert forall|i: int| 0 <= i < graph.len() implies (#[trigger] graph[i]).alias != alias by {
                    if i < n {
                        assert(before[i].alias != alias);
                    }
                }
            }
        }
    }
}

/// A destination is found if and only if one of the nodes that we control is named, where an empty alias names none, or else the
/// graph has a node under the key, or a single node with the alias. A node that we control comes first.
pub proof fn law_destination_is_ours_or_the_only_one_of_the_graph(nodes: Seq<NodeInfoView>, graph: Graph, id: NodeId)
    requires
        graph.nodes_by_pk.wf(),
    ensures
        ({
            let ours = exists|i: int|
                {
                    &&& 0 <= i < nodes.len()
                    &&& is_named(id, (#[trigger] nodes[i]).pubkey, nodes[i].alias)
                    &&& id matches NodeId::Alias(a) ==> a@.len() > 0
                };
            let list = graph.nodes_by_pk.entries();
            let of_graph = match id {
                NodeId::PublicKey(pk) => graph.nodes_by_pk@.dom().contains(pk),
                NodeId::Alias(a) => exists|i: int|
                    {
                        &&& 0 <= i < list.len()
                        &&& (#[trigger] list[i]).1.alias@ == a@
                        &&& forall|j: int| 0 <= j < list.len() && j != i ==> (#[trigger] list[j]).1.alias@ != a@
                    },
            };
            &&& resolve_destination(nodes, graph, id) is Ok <==> ours || of_graph
            &&& ours ==> (resolve_destination(nodes, graph, id) matches Ok(n) && nodes.contains(n) && is_named(
                id,
                n.pubkey,
                n.alias,
            ))
        }),
{
    let list = graph.nodes_by_pk.entries();
    let infos = graph_list(graph);
    assert forall|i: int| 0 <= i < list.len() implies (#[trigger] infos[i]).alias == list[i].1.alias@ by {}
    match id {
        NodeId::PublicKey(pk) => lemma_find_key(nodes, pk),
        NodeId::Alias(a) => {
            lemma_find_alias(nodes, a@);
            if a@.len() == 0 {
                assert(find_alias(nodes, a@) is None);
            }
            lemma_keys_with_alias(infos, a@);
            if keys_with_alias(infos, a@).len() == 1 {
                let i = choose|i: int|
                    0 <= i < infos.len() && (#[trigger] infos[i]).alias == a@ && forall|j: int|
                        0 <= j < infos.len() && j != i ==> (#[trigger] infos[j]).alias != a@;
                assert(list[i].1.alias@ == a@);
                assert forall|j: int| 0 <= j < list.len() && j != i implies (#[trigger] list[j]).1.alias@ != a@ by {
                    assert(infos[j].alias != a@);
                }
            } else {
                assert forall|i: int| 0 <= i < list.len() && (#[trigger] list[i]).1.alias@ == a@ implies exists|j: int|
                    0 <= j < list.len() && j != i && (#[trigger] list[j]).1.alias@ == a@ by {
                    assert(infos[i].alias == a@);
                    let j = choose|j: int| 0 <= j < infos.len() && j != i && (#[trigger] infos[j]).alias == a@;
                    assert(list[j].1.alias@ == a@);
                }
            }
        },
    }
}

/// Activities are validated one for one and in order, with the parameters that were given for each, if and only if all of them
/// can be.
pub proof fn law_all_activities_are_validated(nodes: Seq<NodeInfoView>, graph: Graph, activity: Seq<ActivityParser>)
    ensures
        resolve_activities(nodes, graph, activity) is Ok <==> forall|i: int|
            0 <= i < activity.len() ==> resolve_source(nodes, (#[trigger] activity[i]).source) is Ok && resolve_destination(
                nodes,
                graph,
                activity[i].destination,
            ) is Ok,
        resolve_activities(nodes, graph, activity) matches Ok(list) ==> {
            &&& list.len() == activity.len()
            &&& forall|i: int|
                0 <= i < activity.len() ==> {
                    let a = #[trigger] list[i];
                    let act = activity[i];
                    &&& resolve_activity(nodes, graph, act) == Ok::<ActivityView, Seq<char>>(a)
                    &&& a.start_secs == act.start_secs && a.count == act.count
                    &&& a.interval_secs == act.interval_secs && a.amount_msat == act.amount_msat
                }
        },
        resolve_activities(nodes, graph, activity) matches Err(e) ==> exists|i: int|
            {
                &&& 0 <= i < activity.len()
                &&& resolve_activity(nodes, graph, #[trigger] activity[i]) == Err::<ActivityView, Seq<char>>(e)
                &&& forall|j: int| 0 <= j < i ==> resolve_activity(nodes, graph, #[trigger] activity[j]) is Ok
            },
    decreases activity.len(),
{
    if activity.len() > 0 {
        let before = activity.drop_last();
        let n = before.len() as int;
        law_all_activities_are_validated(nodes, graph, before);
        assert forall|i: int| 0 <= i < n implies #[trigger] before[i] == activity[i] by {}
        assert(activity[n] == activity.last());
        match resolve_activities(nodes, graph, before) {
            Err(e) => {
                let i = choose|i: int|
                    {
                        &&& 0 <= i < before.len()
                        &&& resolve_activity(nodes, graph, #[trigger] before[i]) == Err::<ActivityView, Seq<char>>(e)
                        &&& forall|j: int| 0 <= j < i ==> resolve_activity(nodes, graph, #[trigger] before[j]) is Ok
                    };
                assert(resolve_activity(nodes, graph, activity[i]) == Err::<ActivityView, Seq<char>>(e));
                assert forall|j: int| 0 <= j < i implies resolve_activity(nodes, graph, #[trigger] activity[j]) is Ok by {
                    assert(resolve_activity(nodes, graph, before[j]) is Ok);
                }
                let w = choose|i: int|
                    0 <= i < before.len() && !(resolve_source(nodes, (#[trigger] before[i]).source) is Ok && resolve_destination(
                        nodes,
                        graph,
                        before[i].destination,
                    ) is Ok);
                assert(activity[w] == before[w]);
            },
            Ok(list) => {
                assert forall|j: int| 0 <= j < n implies resolve_activity(nodes, graph, #[trigger] activity[j]) is Ok by {
                    let a = list[j];
                    assert(resolve_activity(nodes, graph, before[j]) == Ok::<ActivityView, Seq<char>>(a));
                }
                assert forall|j: int| 0 <= j < n implies resolve_source(nodes, (#[trigger] activity[j]).source) is Ok
                    && resolve_destination(nodes, graph, activity[j].destination) is Ok by {
                    assert(resolve_activity(nodes, graph, activity[j]) is Ok);
                }
                if let Ok(all) = resolve_activities(nodes, graph, activity) {
                    assert forall|i: int| 0 <= i < activity.len() implies {
                        let a = #[trigger] all[i];
                        let act = activity[i];
                        &&& resolve_activity(nodes, graph, act) == Ok::<ActivityView, Seq<char>>(a)
                        &&& a.start_secs == act.start_secs && a.count == act.count
                        &&& a.interval_secs == act.interval_secs && a.amount_msat == act.amount_msat
                    } by {
                        if i < n {
                            assert(all[i] == list[i]);
                            assert(before[i] == activity[i]);
                        }
                    }
                } else {
                    assert(resolve_activity(nodes, graph, activity[n]) is Err);
                }
            },
        }
    }
}

/// Whether an activity is the one that was described: its source and its destination are the nodes that were named, and it has
/// the parameters that were given.
pub open spec fn is_described(a: ActivityDefinition, act: ActivityParser) -> bool {
    &&& is_named(act.source, a.source.pubkey, a.source.alias@)
    &&& is_named(act.destination, a.destination.pubkey, a.destination.alias@)
    &&& a.start_secs == act.start_secs
    &&& a.count == act.count
    &&& a.interval_secs == act.interval_secs
    &&& a.amount_msat == act.amount_msat
}

proof fn lemma_described(
    nodes: Seq<NodeInfoView>,
    graph: Graph,
    activity: Seq<ActivityParser>,
    defs: Seq<ActivityDefinition>,
)
    requires
        graph.nodes_by_pk.wf(),
        keeps_own_keys(graph),
        resolve_activities(nodes, graph, activity) == Ok::<Seq<ActivityView>, Seq<char>>(
            defs.map_values(|a: ActivityDefinition| activity_view(a)),
        ),
    ensures
        defs.len() == activity.len(),
        forall|i: int| 0 <= i < defs.len() ==> is_described(#[trigger] defs[i], activity[i]),
{
    law_all_activities_are_validated(nodes, graph, activity);
    let list = defs.map_values(|a: ActivityDefinition| activity_view(a));
    assert forall|i: int| 0 <= i < defs.len() implies is_described(#[trigger] defs[i], activity[i]) by {
        assert(list[i] == activity_view(defs[i]));
        law_activity_is_between_the_nodes_that_were_named(nodes, graph, activity[i]);
    }
}

/// The channel that is described has the capacity, the short channel ID and the policies that were given. Its nodes share the
/// capacity, of which node 2 has the odd millisatoshi, and nothing is in flight.
pub proof fn law_described_channel_shares_its_capacity(p: NetworkParser)
    ensures
        ({
            let c = described_channel(p);
            &&& c.capacity == p.capacity_msat
            &&& c.scid == p.scid
            &&& c.node_1.policy == p.node_1
            &&& c.node_2.policy == p.node_2
            &&& c.node_1.balance + c.node_2.balance == p.capacity_msat
            &&& c.node_1.balance <= c.node_2.balance <= c.node_1.balance + 1
            &&& c.node_1.in_flight == Map::<PaymentHash, (Htlc, u64)>::empty()
            &&& c.node_2.in_flight == Map::<PaymentHash, (Htlc, u64)>::empty()
            &&& c.node_1.index == 0 && c.node_2.index == 0
        }),
{
}

} // verus!
