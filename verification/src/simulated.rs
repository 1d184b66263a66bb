//! An in-process simulated network: a deterministic graph emitted as channels of a simulation file, requiring no external
//! processes.
use crate::channel::ChannelPolicy;
use crate::network::{channel_map, graph_error};
use crate::node::ShortChannelID;
use crate::parsing::{described_channel, NetworkParser, NodeConnection};
use crate::primitives::{is_curve_point, PublicKey};
use crate::scenario::{NodeHandle, NodeImpl};
use crate::setup::described_channels;
use vstd::prelude::*;

verus! {

/// Capacity of every channel in the simulated network. Large relative to test payment amounts so that liquidity never
/// limits a test scenario.
pub const CHANNEL_CAPACITY_MSAT: u64 = 100_000_000;

/// The number of nodes, and of channels, in the simulated network.
pub const NETWORK_SIZE: usize = 5;

/// The environment's contribution to a simulation file.
#[derive(Debug)]
pub enum ConfigFragment {
    /// Entries for the `nodes` key: connection details for real nodes.
    RealNodes(Vec<NodeConnection>),
    /// Entries for the `sim_network` key: channels of a simulated network.
    SimGraph(Vec<NetworkParser>),
}

/// A provisioned network that simulations can run against.
pub trait TestNetwork: Sized {
    /// The nodes that the simulation will control.
    fn nodes(&self) -> &Vec<NodeHandle>;

    /// The network's contribution to the simulation config.
    fn config_fragment(self) -> ConfigFragment;
}

/// The public key of a secret key, in compressed form, if the secret key is valid.
pub uninterp spec fn public_key_of_secret(secret: Seq<u8>) -> Option<Seq<u8>>;

/// Computes the public key of a secret key with `secp256k1::SecretKey::from_slice`, which refuses zero and what is not
/// below the order of the group, and `secp256k1::PublicKey::from_secret_key`. The result depends on the secret alone,
/// and is a point of the curve. As the first byte of the order is 0xff, a secret whose first byte is less and not zero
/// is valid.
#[verifier::external_body]
fn derive_public_key(secret: &[u8; 32]) -> (r: Option<[u8; 33]>)
    ensures
        match r {
            Some(key) => public_key_of_secret(secret@) == Some(key@) && is_curve_point(key@),
            None => public_key_of_secret(secret@) is None,
        },
        0 < secret@[0] < 0xff ==> r is Some,
{
    let secret = bitcoin::secp256k1::SecretKey::from_slice(secret).ok()?;
    let curve = bitcoin::secp256k1::Secp256k1::new();
    Some(bitcoin::secp256k1::PublicKey::from_secret_key(&curve, &secret).serialize())
}

/// The secret key of a node of the simulated network.
pub open spec fn node_secret(i: int) -> Seq<u8> {
    Seq::new(32, |j: int| (i + 1) as u8)
}

/// The channel endpoints of the network, as indices into the node list: a ring of nodes 0-1-2-3 plus a spur node 4
/// attached to node 0.
pub open spec fn edge(i: int) -> (int, int) {
    if i == 0 {
        (0, 1)
    } else if i == 1 {
        (1, 2)
    } else if i == 2 {
        (2, 3)
    } else if i == 3 {
        (3, 0)
    } else {
        (0, 4)
    }
}

/// The policy of a node. Fees are zero, so that the amounts in results are those that scenarios dispatch.
pub open spec fn is_policy(p: ChannelPolicy, node: NodeHandle) -> bool {
    &&& p.pubkey == node.pubkey
    &&& p.alias@ == node.alias@
    &&& p.max_htlc_count == 483
    &&& p.max_in_flight_msat == CHANNEL_CAPACITY_MSAT
    &&& p.min_htlc_size_msat == 1
    &&& p.max_htlc_size_msat == CHANNEL_CAPACITY_MSAT
    &&& p.cltv_expiry_delta == 40
    &&& p.base_fee == 0
    &&& p.fee_rate_prop == 0
}

/// Whether a channel is the one between the nodes of an edge.
pub open spec fn is_channel(c: NetworkParser, i: int, nodes: Seq<NodeHandle>) -> bool {
    &&& c.scid.0 == i + 1
    &&& c.capacity_msat == CHANNEL_CAPACITY_MSAT
    &&& is_policy(c.node_1, nodes[edge(i).0])
    &&& is_policy(c.node_2, nodes[edge(i).1])
}

/// Whether nodes are those of the simulated network with some aliases.
pub open spec fn are_nodes(nodes: Seq<NodeHandle>, aliases: Seq<Seq<char>>) -> bool {
    &&& nodes.len() == NETWORK_SIZE
    &&& forall|i: int|
        0 <= i < nodes.len() ==> {
            &&& public_key_of_secret(node_secret(i)) == Some((#[trigger] nodes[i]).pubkey.0@)
            &&& nodes[i].alias@ == aliases[i]
            &&& nodes[i].implementation == NodeImpl::Simulated
        }
}

/// A deterministic five-node simulated network: a ring of nodes 0-1-2-3 plus a spur node 4 attached to node 0, so every
/// pair of nodes is connected and some pairs (e.g. 4 -> 2) can only be reached over multiple hops.
#[derive(Debug)]
pub struct SimulatedNetwork {
    pub handles: Vec<NodeHandle>,
    pub channels: Vec<NetworkParser>,
}

impl SimulatedNetwork {
    /// The channels are those of the network's edges.
    pub open spec fn wf(&self) -> bool {
        &&& self.handles@.len() == NETWORK_SIZE
        &&& self.channels@.len() == NETWORK_SIZE
        &&& forall|i: int| 0 <= i < NETWORK_SIZE ==> is_channel(#[trigger] self.channels@[i], i, self.handles@)
    }

    /// A network whose nodes have distinct aliases.
    pub fn new() -> (n: Self)
        ensures
            n.wf(),
            are_nodes(n.handles@, seq!["node_0"@, "node_1"@, "node_2"@, "node_3"@, "node_4"@]),
    {
        let n = SimulatedNetwork::with_aliases("node_0", "node_1", "node_2", "node_3", "node_4");
        n
    }

    /// A network where two nodes share an alias, for tests asserting that duplicate aliases are rejected.
    pub fn with_duplicate_alias() -> (n: Self)
        ensures
            n.wf(),
            are_nodes(n.handles@, seq!["node_0"@, "node_1"@, "node_2"@, "node_3"@, "node_3"@]),
    {
        SimulatedNetwork::with_aliases("node_0", "node_1", "node_2", "node_3", "node_3")
    }

    /// A network whose nodes have some aliases. Keys are deterministic so that runs are reproducible and configs that
    /// reference them can be asserted against.
    fn with_aliases(a0: &str, a1: &str, a2: &str, a3: &str, a4: &str) -> (n: Self)
        ensures
            n.wf(),
            are_nodes(n.handles@, seq![a0@, a1@, a2@, a3@, a4@]),
    {
        let mut handles: Vec<NodeHandle> = Vec::new();
        handles.push(SimulatedNetwork::handle(0, a0));
        handles.push(SimulatedNetwork::handle(1, a1));
        handles.push(SimulatedNetwork::handle(2, a2));
        handles.push(SimulatedNetwork::handle(3, a3));
        handles.push(SimulatedNetwork::handle(4, a4));
        let mut channels: Vec<NetworkParser> = Vec::new();
        let mut i: usize = 0;
        while i < NETWORK_SIZE
            invariant
                i <= NETWORK_SIZE,
                handles@.len() == NETWORK_SIZE,
                channels@.len() == i,
                forall|j: int| 0 <= j < i ==> is_channel(#[trigger] channels@[j], j, handles@),
            decreases NETWORK_SIZE - i,
        {
            let (a, b) = SimulatedNetwork::edge_at(i);
            let channel = NetworkParser {
                scid: ShortChannelID(i as u64 + 1),
                capacity_msat: CHANNEL_CAPACITY_MSAT,
                node_1: SimulatedNetwork::policy(&handles[a]),
                node_2: SimulatedNetwork::policy(&handles[b]),
            };
            channels.push(channel);
            i += 1;
        }
        SimulatedNetwork { handles, channels }
    }

    /// The endpoints of a channel.
    fn edge_at(i: usize) -> (r: (usize, usize))
        requires
            i < NETWORK_SIZE,
        ensures
            r.0 == edge(i as int).0,
            r.1 == edge(i as int).1,
            r.0 < NETWORK_SIZE,
            r.1 < NETWORK_SIZE,
    {
        match i {
            0 => (0, 1),
            1 => (1, 2),
            2 => (2, 3),
            3 => (3, 0),
            _ => (0, 4),
        }
    }

    /// A node with an alias.
    fn handle(i: u8, alias: &str) -> (h: NodeHandle)
        requires
            i < NETWORK_SIZE,
        ensures
            public_key_of_secret(node_secret(i as int)) == Some(h.pubkey.0@),
            h.alias@ == alias@,
            h.implementation == NodeImpl::Simulated,
    {
        let secret: [u8; 32] = [i + 1;32];
        assert(secret@ =~= node_secret(i as int));
        let pubkey = match derive_public_key(&secret) {
            Some(key) => PublicKey(key),
            None => PublicKey([0;33]),
        };
        NodeHandle { pubkey, alias: alias.to_owned(), implementation: NodeImpl::Simulated }
    }

    /// The policy of a node.
    fn policy(node: &NodeHandle) -> (p: ChannelPolicy)
        ensures
            is_policy(p, *node),
    {
        ChannelPolicy {
            pubkey: node.pubkey,
            alias: node.alias.clone(),
            max_htlc_count: 483,
            max_in_flight_msat: CHANNEL_CAPACITY_MSAT,
            min_htlc_size_msat: 1,
            max_htlc_size_msat: CHANNEL_CAPACITY_MSAT,
            cltv_expiry_delta: 40,
            base_fee: 0,
            fee_rate_prop: 0,
        }
    }
}

impl TestNetwork for SimulatedNetwork {
    fn nodes(&self) -> (r: &Vec<NodeHandle>)
        ensures
            *r == self.handles,
    {
        &self.handles
    }

    fn config_fragment(self) -> (r: ConfigFragment)
        ensures
            r == ConfigFragment::SimGraph(self.channels),
    {
        ConfigFragment::SimGraph(self.channels)
    }
}

/// The channels of the simulated network make up a valid graph if its nodes have distinct keys.
pub proof fn law_simulated_network_is_valid(network: SimulatedNetwork)
    requires
        network.wf(),
        forall|i: int, j: int|
            0 <= i < j < NETWORK_SIZE ==> (#[trigger] network.handles@[i]).pubkey != (#[trigger] network.handles@[j]).pubkey,
    ensures
        graph_error(described_channels(network.channels@)) is None,
{
    lemma_valid_prefix(network, NETWORK_SIZE as int);
    assert(network.channels@.subrange(0, NETWORK_SIZE as int) =~= network.channels@);
}

proof fn lemma_valid_prefix(network: SimulatedNetwork, n: int)
    requires
        network.wf(),
        forall|i: int, j: int|
            0 <= i < j < NETWORK_SIZE ==> (#[trigger] network.handles@[i]).pubkey != (#[trigger] network.handles@[j]).pubkey,
        0 <= n <= NETWORK_SIZE,
    ensures
        graph_error(described_channels(network.channels@.subrange(0, n))) is None,
        forall|scid: u64| #[trigger]
            channel_map(described_channels(network.channels@.subrange(0, n))).dom().contains(scid) ==> scid <= n,
    decreases n,
{
    let channels = described_channels(network.channels@.subrange(0, n));
    if n > 0 {
        lemma_valid_prefix(network, n - 1);
        assert(channels.drop_last() =~= described_channels(network.channels@.subrange(0, n - 1)));
        let c = network.channels@[n - 1];
        assert(channels.last() == described_channel(c));
        assert(is_channel(c, n - 1, network.handles@));
        let (a, b) = edge(n - 1);
        assert(network.handles@[a].pubkey != network.handles@[b].pubkey);
    }
}

/// The first four channels make up a ring of the first four nodes, and the last one attaches the last node to the first.
pub proof fn law_channels_are_a_ring_and_a_spur(i: int)
    ensures
        0 <= i < 4 ==> edge(i) == (i, (i + 1) % 4),
        edge(4) == (0int, 4int),
{
}

/// A policy of the network takes any forward with enough of a CLTV delta, whatever its amount and its fee, and it takes htlcs of any
/// amount up to the capacity, as one or as several in flight.
pub proof fn law_policies_charge_nothing(p: ChannelPolicy, node: NodeHandle, cltv_delta: u32, amount: u64, fee: u64)
    requires
        is_policy(p, node),
        cltv_delta >= 40,
    ensures
        p.forward_outcome(cltv_delta, amount, fee) matches Ok(Ok(())),
        p.pubkey == node.pubkey,
        p.alias@ == node.alias@,
        p.min_htlc_size_msat == 1,
        p.max_htlc_size_msat == 100_000_000,
        p.max_in_flight_msat == 100_000_000,
        p.max_htlc_count == 483,
        p.cltv_expiry_delta == 40,
{
    assert(amount * p.fee_rate_prop == 0) by (nonlinear_arith)
        requires
            p.fee_rate_prop == 0,
    ;
}

/// The channel of an edge is between the nodes of the edge, has the capacity of all channels, and is numbered from one on.
pub proof fn law_channels_join_the_nodes_of_their_edges(c: NetworkParser, i: int, nodes: Seq<NodeHandle>)
    requires
        is_channel(c, i, nodes),
    ensures
        c.scid.0 == i + 1,
        c.capacity_msat == 100_000_000,
        c.node_1.pubkey == nodes[edge(i).0].pubkey,
        c.node_2.pubkey == nodes[edge(i).1].pubkey,
{
}

/// The secret of a node is filled with the number of the node, counted from one.
pub proof fn law_secrets_are_filled_with_numbers(i: int, j: int)
    requires
        0 <= i < 255,
        0 <= j < 32,
    ensures
        node_secret(i).len() == 32,
        node_secret(i)[j] == i + 1,
{
}

/// There are five nodes, all of them simulated, with the aliases that are given in order.
pub proof fn law_nodes_are_simulated_under_their_aliases(nodes: Seq<NodeHandle>, aliases: Seq<Seq<char>>, i: int)
    requires
        are_nodes(nodes, aliases),
        0 <= i < 5,
    ensures
        nodes.len() == 5,
        nodes[i].implementation is Simulated,
        nodes[i].alias@ == aliases[i],
{
}

} // verus!
