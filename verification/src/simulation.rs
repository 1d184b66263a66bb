//! The simulation: validation of what it runs on, and the decisions of the tasks that it consists of.
use crate::keyed::KeyedMap;
use crate::node::{ActivityDefinition, LightningError, NodeInfo, NodeInfoView, ValueOrRange};
use crate::payment::PaymentResultLogger;
use crate::primitives::{keysend_flag, Network, PublicKey};
use crate::text::text;
use vstd::prelude::*;

verus! {

/// Configuration for writing simulation results to CSV files.
#[derive(Debug)]
pub struct WriteResults {
    /// Data directory where CSV result files are written.
    pub results_dir: String,
    /// The number of activity results to batch before printing in CSV.
    pub batch_size: u32,
}

/// Contains the configuration options for our simulation.
#[derive(Debug)]
pub struct SimulationCfg {
    /// Total simulation time in seconds. The simulation will run forever if undefined.
    pub total_time: Option<u64>,
    /// The expected payment size for the network.
    pub expected_payment_msat: u64,
    /// Configurations for printing results to CSV. Results are not written if this option is None.
    pub write_results: Option<WriteResults>,
    /// Optional seed for deterministic random number generation.
    pub seed: Option<u64>,
}

impl SimulationCfg {
    /// Creates the configuration of a simulation.
    pub fn new(
        total_time: Option<u32>,
        expected_payment_msat: u64,
        write_results: Option<WriteResults>,
        seed: Option<u64>,
    ) -> (c: Self)
        ensures
            c.total_time == (match total_time {
                Some(t) => Some(t as u64),
                None => None,
            }),
            c.expected_payment_msat == expected_payment_msat,
            c.write_results == write_results,
            c.seed == seed,
    {
        SimulationCfg {
            total_time: match total_time {
                Some(t) => Some(t as u64),
                None => None,
            },
            expected_payment_msat,
            write_results,
            seed,
        }
    }
}

/// A node that the simulation can execute events on.
#[derive(Debug)]
pub struct ControlledNode {
    /// The node's information.
    pub info: NodeInfo,
    /// The network that the node runs on.
    pub network: Network,
}

/// A lightning network payment simulator that manages payment flows between nodes.
/// The simulator can execute both predefined payment patterns and generate random payment activity
/// based on configuration parameters.
#[derive(Debug)]
pub struct Simulation {
    /// Config for the simulation itself.
    pub cfg: SimulationCfg,
    /// The lightning nodes that are being simulated.
    pub nodes: KeyedMap<PublicKey, ControlledNode>,
    /// Results logger that holds the simulation statistics.
    pub results: PaymentResultLogger,
}

/// The information about nodes, in their order.
pub open spec fn controlled_infos(nodes: Seq<(PublicKey, ControlledNode)>) -> Seq<NodeInfoView> {
    nodes.map_values(|n: (PublicKey, ControlledNode)| n.1.info@)
}

/// The networks of nodes, in their order.
pub open spec fn controlled_networks(nodes: Seq<(PublicKey, ControlledNode)>) -> Seq<Network> {
    nodes.map_values(|n: (PublicKey, ControlledNode)| n.1.network)
}

/// What is wrong with nodes on which random activity is to be generated, if anything: there must be two, and all of
/// them must support keysend. Otherwise the first that does not is named.
pub open spec fn random_activity_error(infos: Seq<NodeInfoView>) -> Option<Seq<char>> {
    if infos.len() <= 1 {
        Some("At least two nodes required for random activity generation."@)
    } else {
        keysend_error(infos)
    }
}

/// The error for the first node that does not support keysend, if there is one.
pub open spec fn keysend_error(infos: Seq<NodeInfoView>) -> Option<Seq<char>>
    decreases infos.len(),
{
    if infos.len() == 0 {
        None
    } else if !keysend_flag(infos[0].features) {
        Some(
            "All nodes eligible for random activity generation must support keysend, "@ + infos[0].text()
                + " does not"@,
        )
    } else {
        keysend_error(infos.drop_first())
    }
}

/// What is wrong with a payment flow of an amount, if anything: its amount must not be zero, its source must be one of
/// the nodes and its destination must support keysend.
pub open spec fn flow_error(nodes: Set<PublicKey>, flow: ActivityDefinition, amount: u64) -> Option<Seq<char>> {
    if amount == 0 {
        Some("We do not allow defined activity amount_msat with zero values"@)
    } else if !nodes.contains(flow.source.pubkey) {
        Some("Source node not found, "@ + flow.source@.text())
    } else if !keysend_flag(flow.destination.features@) {
        Some("Destination node does not support keysend, "@ + flow.destination@.text())
    } else {
        None
    }
}

/// The error of the first payment flow that has one, where the flows have amounts.
pub open spec fn flows_error(nodes: Set<PublicKey>, flows: Seq<ActivityDefinition>, amounts: Seq<u64>) -> Option<
    Seq<char>,
>
    decreases flows.len(),
{
    if flows.len() == 0 {
        None
    } else if flow_error(nodes, flows[0], amounts[0]) is Some {
        flow_error(nodes, flows[0], amounts[0])
    } else {
        flows_error(nodes, flows.drop_first(), amounts.drop_first())
    }
}

/// What is wrong with an activity, if anything. No flows at all stand for random activity.
pub open spec fn activity_error(
    nodes: Set<PublicKey>,
    infos: Seq<NodeInfoView>,
    flows: Seq<ActivityDefinition>,
    amounts: Seq<u64>,
) -> Option<Seq<char>> {
    if flows.len() == 0 {
        random_activity_error(infos)
    } else {
        flows_error(nodes, flows, amounts)
    }
}

/// What is wrong with the networks that nodes run on, if anything: there must be a node, none may run on mainnet, and
/// all must run on the network of the first.
pub open spec fn networks_error(networks: Seq<Network>) -> Option<Seq<char>> {
    if networks.len() == 0 {
        Some("we don't control any nodes. Specify at least one node in your config file"@)
    } else {
        network_error_from(networks, 0)
    }
}

/// The error for the first node from a position on that runs on mainnet or on another network than the first node.
pub open spec fn network_error_from(networks: Seq<Network>, i: int) -> Option<Seq<char>>
    decreases networks.len() - i,
{
    if i < 0 || i >= networks.len() {
        None
    } else if networks[i] == Network::Bitcoin {
        Some("mainnet is not supported"@)
    } else if networks[i] != networks[0] {
        Some("nodes are not on the same network "@ + networks[i].name() + "."@)
    } else {
        network_error_from(networks, i + 1)
    }
}

/// An activity is valid exactly where the rules hold of all of it: for random activity at least two nodes, which all
/// support keysend, and otherwise for each flow an amount that is not zero, a source among the nodes and a destination
/// that supports keysend.
pub proof fn law_activity_is_valid_if_all_flows_are(
    nodes: Set<PublicKey>,
    infos: Seq<NodeInfoView>,
    flows: Seq<ActivityDefinition>,
    amounts: Seq<u64>,
)
    requires
        amounts.len() == flows.len(),
    ensures
        activity_error(nodes, infos, flows, amounts) is None <==> if flows.len() == 0 {
            infos.len() >= 2 && forall|i: int| 0 <= i < infos.len() ==> keysend_flag((#[trigger] infos[i]).features)
        } else {
            forall|i: int|
                0 <= i < flows.len() ==> {
                    &&& amounts[i] != 0
                    &&& nodes.contains((#[trigger] flows[i]).source.pubkey)
                    &&& keysend_flag(flows[i].destination.features@)
                }
        },
{
    lemma_keysend_error(infos);
    lemma_flows_error(nodes, flows, amounts);
}

proof fn lemma_keysend_error(infos: Seq<NodeInfoView>)
    ensures
        keysend_error(infos) is None <==> forall|i: int|
            0 <= i < infos.len() ==> keysend_flag((#[trigger] infos[i]).features),
    decreases infos.len(),
{
    if infos.len() > 0 {
        let rest = infos.drop_first();
        lemma_keysend_error(rest);
        if keysend_error(infos) is None {
            assert forall|i: int| 0 <= i < infos.len() implies keysend_flag((#[trigger] infos[i]).features) by {
                if i > 0 {
                    assert(rest[i - 1] == infos[i]);
                }
            }
        } else if keysend_flag(infos[0].features) {
            let i = choose|i: int| 0 <= i < rest.len() && !keysend_flag((#[trigger] rest[i]).features);
            assert(infos[i + 1] == rest[i]);
        }
    }
}

proof fn lemma_flows_error(nodes: Set<PublicKey>, flows: Seq<ActivityDefinition>, amounts: Seq<u64>)
    requires
        amounts.len() == flows.len(),
    ensures
        flows_error(nodes, flows, amounts) is None <==> forall|i: int|
            0 <= i < flows.len() ==> {
                &&& amounts[i] != 0
                &&& nodes.contains((#[trigger] flows[i]).source.pubkey)
                &&& keysend_flag(flows[i].destination.features@)
            },
    decreases flows.len(),
{
    if flows.len() > 0 {
        let rest = flows.drop_first();
        let rest_amounts = amounts.drop_first();
        lemma_flows_error(nodes, rest, rest_amounts);
        if flows_error(nodes, flows, amounts) is None {
            assert forall|i: int| 0 <= i < flows.len() implies {
                &&& amounts[i] != 0
                &&& nodes.contains((#[trigger] flows[i]).source.pubkey)
                &&& keysend_flag(flows[i].destination.features@)
            } by {
                if i > 0 {
                    assert(rest[i - 1] == flows[i]);
                    assert(rest_amounts[i - 1] == amounts[i]);
                }
            }
        } else if flow_error(nodes, flows[0], amounts[0]) is None {
            let i = choose|i: int|
                0 <= i < rest.len() && !(rest_amounts[i] != 0 && nodes.contains((#[trigger] rest[i]).source.pubkey)
                    && keysend_flag(rest[i].destination.features@));
            assert(flows[i + 1] == rest[i]);
            assert(amounts[i + 1] == rest_amounts[i]);
        }
    }
}

/// The networks of nodes are valid exactly where there is a node, and all run on the same network, which is not
/// mainnet.
pub proof fn law_networks_are_valid_if_the_same(networks: Seq<Network>)
    ensures
        networks_error(networks) is None <==> networks.len() > 0 && networks[0] != Network::Bitcoin && forall|i: int|
            0 <= i < networks.len() ==> #[trigger] networks[i] == networks[0],
{
    if networks.len() > 0 {
        lemma_network_error(networks, 0);
    }
}

proof fn lemma_network_error(networks: Seq<Network>, i: int)
    requires
        0 <= i <= networks.len(),
    ensures
        network_error_from(networks, i) is None <==> forall|j: int|
            i <= j < networks.len() ==> #[trigger] networks[j] == networks[0] && networks[j] != Network::Bitcoin,
    decreases networks.len() - i,
{
    if i < networks.len() {
        lemma_network_error(networks, i + 1);
        if network_error_from(networks, i) is None {
            assert forall|j: int| i <= j < networks.len() implies #[trigger] networks[j] == networks[0] && networks[j]
                != Network::Bitcoin by {
                if j > i {
                    assert(i + 1 <= j);
                }
            }
        }
    }
}

/// The amounts of flows are the values that are given for them, or in the ranges that are given.
pub open spec fn amounts_of(flows: Seq<ActivityDefinition>, amounts: Seq<u64>) -> bool {
    &&& amounts.len() == flows.len()
    &&& forall|i: int| 0 <= i < flows.len() ==> (#[trigger] flows[i]).amount_msat.admits(amounts[i] as int)
}

impl Simulation {
    /// No node is listed twice.
    pub open spec fn wf(&self) -> bool {
        self.nodes.wf()
    }

    /// Creates a simulation of nodes.
    pub fn new(cfg: SimulationCfg, nodes: KeyedMap<PublicKey, ControlledNode>) -> (s: Self)
        ensures
            s.cfg == cfg,
            s.nodes == nodes,
            s.results == (PaymentResultLogger { success_payment: 0, failed_payment: 0, total_sent: 0 }),
    {
        Simulation { cfg, nodes, results: PaymentResultLogger::new() }
    }

    /// Checks an activity whose flows have the amounts provided.
    pub fn check_activity(&self, activity: &Vec<ActivityDefinition>, amounts: &Vec<u64>) -> (r: Result<
        (),
        LightningError,
    >)
        requires
            self.wf(),
            amounts@.len() == activity@.len(),
        ensures
            match activity_error(
                self.nodes@.dom(),
                controlled_infos(self.nodes.entries()),
                activity@,
                amounts@,
            ) {
                Some(m) => r matches Err(LightningError::ValidationError(s)) && s@ == m,
                None => r is Ok,
            },
    {
        // For now, empty activity signals random activity generation
        if activity.len() == 0 {
            let n: usize = self.nodes.len();
            let ghost infos = controlled_infos(self.nodes.entries());
            if n <= 1 {
                return Err(
                    LightningError::ValidationError(
                        text("At least two nodes required for random activity generation."),
                    ),
                );
            }
            let mut i: usize = 0;
            assert(infos.subrange(0, n as int) =~= infos);
            while i < n
                invariant
                    self.wf(),
                    i <= n,
                    n == self.nodes.entries().len(),
                    n >= 2,
                    activity@.len() == 0,
                    infos == controlled_infos(self.nodes.entries()),
                    keysend_error(infos) == keysend_error(infos.subrange(i as int, n as int)),
                decreases n - i,
            {
                let node = self.nodes.entry_at(i);
                let ghost rest = infos.subrange(i as int, n as int);
                assert(rest.drop_first() =~= infos.subrange(i as int + 1, n as int));
                assert(rest[0] == node.1.info@);
                if !node.1.info.features.supports_keysend() {
                    let mut m = text("All nodes eligible for random activity generation must support keysend, ");
                    m.append(node.1.info.to_text().as_str());
                    m.append(" does not");
                    return Err(LightningError::ValidationError(m));
                }
                i += 1;
            }
            return Ok(());
        }
        let n: usize = activity.len();
        let mut i: usize = 0;
        let ghost dom = self.nodes@.dom();
        assert(activity@.subrange(0, n as int) =~= activity@);
        assert(amounts@.subrange(0, n as int) =~= amounts@);
        while i < n
            invariant
                self.wf(),
                i <= n,
                n == activity@.len(),
                n == amounts@.len(),
                n > 0,
                dom == self.nodes@.dom(),
                flows_error(dom, activity@, amounts@) == flows_error(
                    dom,
                    activity@.subrange(i as int, n as int),
                    amounts@.subrange(i as int, n as int),
                ),
            decreases n - i,
        {
            let flow = &activity[i];
            proof {
                let rest = activity@.subrange(i as int, n as int);
                let rest_amounts = amounts@.subrange(i as int, n as int);
                assert(rest.drop_first() =~= activity@.subrange(i as int + 1, n as int));
                assert(rest_amounts.drop_first() =~= amounts@.subrange(i as int + 1, n as int));
                assert(rest[0] == flow);
                assert(rest_amounts[0] == amounts@[i as int]);
            }
            if amounts[i] == 0 {
                return Err(
                    LightningError::ValidationError(
                        text("We do not allow defined activity amount_msat with zero values"),
                    ),
                );
            }
            // We need every source node that is configured to execute some activity to be included in our set of
            // nodes so that we can execute events on it.
            if !self.nodes.contains_key(&flow.source.pubkey) {
                let mut m = text("Source node not found, ");
                m.append(flow.source.to_text().as_str());
                return Err(LightningError::ValidationError(m));
            }
            // Destinations must support keysend to be able to receive payments.
            // Note: validation should be update with a different check if an event is not a payment.
            if !flow.destination.features.supports_keysend() {
                let mut m = text("Destination node does not support keysend, ");
                m.append(flow.destination.to_text().as_str());
                return Err(LightningError::ValidationError(m));
            }
            i += 1;
        }
        Ok(())
    }

    /// validate_activity validates that the user-provided activity description is achievable for the network that
    /// we're working with. If no activity description is provided, then it ensures that we have configured a network
    /// that is suitable for random activity generation. The amount of a flow that has a range of amounts is sampled.
    pub fn validate_activity(&self, activity: &Vec<ActivityDefinition>) -> (r: Result<(), LightningError>)
        requires
            self.wf(),
            forall|i: int| 0 <= i < activity@.len() ==> (#[trigger] activity@[i]).amount_msat.wf(),
        ensures
            exists|amounts: Seq<u64>| #[trigger]
                amounts_of(activity@, amounts) && match activity_error(
                    self.nodes@.dom(),
                    controlled_infos(self.nodes.entries()),
                    activity@,
                    amounts,
                ) {
                    Some(m) => r matches Err(LightningError::ValidationError(s)) && s@ == m,
                    None => r is Ok,
                },
    {
        let mut amounts: Vec<u64> = Vec::new();
        let mut i: usize = 0;
        while i < activity.len()
            invariant
                i <= activity@.len(),
                amounts@.len() == i,
                forall|j: int| 0 <= j < activity@.len() ==> (#[trigger] activity@[j]).amount_msat.wf(),
                forall|j: int| 0 <= j < i ==> (#[trigger] activity@[j]).amount_msat.admits(amounts@[j] as int),
            decreases activity@.len() - i,
        {
            assert(activity@[i as int].amount_msat.wf());
            amounts.push(activity[i].amount_msat.value());
            i += 1;
        }
        assert(amounts_of(activity@, amounts@));
        self.check_activity(activity, &amounts)
    }

    /// validates that the nodes are all on the same network and ensures that we're not running on mainnet.
    pub fn validate_node_network(&self) -> (r: Result<(), LightningError>)
        requires
            self.wf(),
        ensures
            match networks_error(controlled_networks(self.nodes.entries())) {
                Some(m) => r matches Err(LightningError::ValidationError(s)) && s@ == m,
                None => r is Ok,
            },
    {
        let n: usize = self.nodes.len();
        if n == 0 {
            return Err(
                LightningError::ValidationError(
                    text("we don't control any nodes. Specify at least one node in your config file"),
                ),
            );
        }
        let ghost networks = controlled_networks(self.nodes.entries());
        let running_network = self.nodes.entry_at(0).1.network;
        let mut i: usize = 0;
        while i < n
            invariant
                self.wf(),
                i <= n,
                n == self.nodes.entries().len(),
                n > 0,
                networks == controlled_networks(self.nodes.entries()),
                running_network == networks[0],
                network_error_from(networks, 0) == network_error_from(networks, i as int),
            decreases n - i,
        {
            let network = self.nodes.entry_at(i).1.network;
            assert(network == networks[i as int]);
            if network == Network::Bitcoin {
                return Err(LightningError::ValidationError(text("mainnet is not supported")));
            }
            if running_network != network {
                let mut m = text("nodes are not on the same network ");
                m.append(network.to_text().as_str());
                m.append(".");
                return Err(LightningError::ValidationError(m));
            }
            i += 1;
        }
        Ok(())
    }

    /// The number of payments that were resolved.
    pub fn get_total_payments(&self) -> (n: u64)
        requires
            self.results.success_payment + self.results.failed_payment <= u64::MAX,
        ensures
            n == self.results.success_payment + self.results.failed_payment,
    {
        self.results.total_attempts()
    }
}

/// The nodes of a simulation can run together if and only if there is one, and all of them run on the network of the first, which is
/// not mainnet.
pub proof fn law_all_nodes_run_on_one_test_network(nodes: Seq<(PublicKey, ControlledNode)>)
    ensures
        networks_error(controlled_networks(nodes)) is None <==> nodes.len() > 0 && forall|i: int|
            0 <= i < nodes.len() ==> (#[trigger] nodes[i]).1.network == nodes[0].1.network && nodes[i].1.network
                != Network::Bitcoin,
{
    let networks = controlled_networks(nodes);
    law_networks_are_valid_if_the_same(networks);
    assert forall|i: int| 0 <= i < nodes.len() implies #[trigger] networks[i] == nodes[i].1.network by {}
    if networks_error(networks) is None {
        assert forall|i: int| 0 <= i < nodes.len() implies (#[trigger] nodes[i]).1.network == nodes[0].1.network
            && nodes[i].1.network != Network::Bitcoin by {
            assert(networks[i] == networks[0]);
        }
    } else if nodes.len() > 0 && networks[0] != Network::Bitcoin {
        let i = choose|i: int| 0 <= i < networks.len() && #[trigger] networks[i] != networks[0];
        assert(nodes[i].1.network != nodes[0].1.network);
    } else if nodes.len() > 0 {
        assert(nodes[0].1.network == Network::Bitcoin);
    }
}

/// Random activity can be generated on nodes if and only if there are two, and all of them have one of the two keysend bits.
pub proof fn law_random_activity_needs_keysend_on_all_nodes(
    keys: Set<PublicKey>,
    nodes: Seq<(PublicKey, ControlledNode)>,
    amounts: Seq<u64>,
)
    ensures
        activity_error(keys, controlled_infos(nodes), Seq::empty(), amounts) is None <==> nodes.len() >= 2 && forall|i: int|
            0 <= i < nodes.len() ==> {
                let flags = (#[trigger] nodes[i]).1.info.features.flags@;
                flags.len() > 6 && flags[6] & 0xc0u8 != 0
            },
{
    let infos = controlled_infos(nodes);
    lemma_keysend_error(infos);
    assert forall|i: int| 0 <= i < nodes.len() implies (#[trigger] infos[i]).features == nodes[i].1.info.features.flags@ by {}
    if keysend_error(infos) is None {
        assert forall|i: int| 0 <= i < nodes.len() implies {
            let flags = (#[trigger] nodes[i]).1.info.features.flags@;
            flags.len() > 6 && flags[6] & 0xc0u8 != 0
        } by {
            assert(keysend_flag(infos[i].features));
        }
    } else {
        let i = choose|i: int| 0 <= i < infos.len() && !keysend_flag((#[trigger] infos[i]).features);
        assert(!keysend_flag(nodes[i].1.info.features.flags@));
    }
}

/// The fault that is reported of a payment flow is that its amount is zero, else that its source is not one of the nodes, else that
/// its destination does not support keysend. There is no other fault.
pub proof fn law_faults_of_a_flow(nodes: Set<PublicKey>, flow: ActivityDefinition, amount: u64)
    ensures
        flow_error(nodes, flow, amount) == (if amount == 0 {
            Some("We do not allow defined activity amount_msat with zero values"@)
        } else if !nodes.contains(flow.source.pubkey) {
            Some("Source node not found, "@ + flow.source@.text())
        } else if !(flow.destination.features.flags@.len() > 6 && flow.destination.features.flags@[6] & 0xc0u8 != 0) {
            Some("Destination node does not support keysend, "@ + flow.destination@.text())
        } else {
            None
        }),
{
}

/// The fault that is reported of payment flows is that of the first flow that has one.
pub proof fn law_first_faulty_flow_is_reported(nodes: Set<PublicKey>, flows: Seq<ActivityDefinition>, amounts: Seq<u64>)
    requires
        amounts.len() == flows.len(),
    ensures
        flows_error(nodes, flows, amounts) is Some ==> exists|i: int|
            {
                &&& 0 <= i < flows.len()
                &&& flow_error(nodes, #[trigger] flows[i], amounts[i]) is Some
                &&& flows_error(nodes, flows, amounts) == flow_error(nodes, flows[i], amounts[i])
                &&& forall|j: int| 0 <= j < i ==> flow_error(nodes, #[trigger] flows[j], amounts[j]) is None
            },
    decreases flows.len(),
{
    if flows.len() > 0 {
        let rest = flows.drop_first();
        let rest_amounts = amounts.drop_first();
        law_first_faulty_flow_is_reported(nodes, rest, rest_amounts);
        if flow_error(nodes, flows[0], amounts[0]) is None {
            if flows_error(nodes, flows, amounts) is Some {
                let i = choose|i: int|
                    {
                        &&& 0 <= i < rest.len()
                        &&& flow_error(nodes, #[trigger] rest[i], rest_amounts[i]) is Some
                        &&& flows_error(nodes, rest, rest_amounts) == flow_error(nodes, rest[i], rest_amounts[i])
                        &&& forall|j: int| 0 <= j < i ==> flow_error(nodes, #[trigger] rest[j], rest_amounts[j]) is None
                    };
                assert(flow_error(nodes, flows[i + 1], amounts[i + 1]) is Some);
                assert forall|j: int| 0 <= j < i + 1 implies flow_error(nodes, #[trigger] flows[j], amounts[j]) is None by {
                    if j > 0 {
                        assert(flow_error(nodes, rest[j - 1], rest_amounts[j - 1]) is None);
                    }
                }
            }
        } else {
            assert(flow_error(nodes, flows[0], amounts[0]) is Some);
        }
    }
}

/// The amounts that flows are checked with are the ones that are given for them, or lie in the ranges that are given.
pub proof fn law_flows_are_checked_with_their_amounts(flows: Seq<ActivityDefinition>, amounts: Seq<u64>, i: int)
    requires
        amounts_of(flows, amounts),
        0 <= i < flows.len(),
    ensures
        amounts.len() == flows.len(),
        match flows[i].amount_msat {
            ValueOrRange::Value(x) => amounts[i] == x,
            ValueOrRange::Range(x, y) => x <= amounts[i] < y,
        },
{
    assert(flows[i].amount_msat.admits(amounts[i] as int));
}

} // verus!
