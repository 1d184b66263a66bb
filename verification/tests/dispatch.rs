//! Payments through a simulated network.
use bitcoin::secp256k1::{PublicKey as CurveKey, Secp256k1, SecretKey};
use simln::channel::{node_info, ChannelPolicy, ChannelState, CriticalError, ForwardingError, SimulatedChannel};
use simln::intercept::{handle_intercepted_htlc, CustomRecords, InterceptReply};
use simln::latency_interceptor::LatencyIntercepor;
use simln::network::SimGraph;
use simln::node::{LightningError, ShortChannelID, SimulationError};
use simln::payment::{PaymentOutcome, PaymentResult};
use simln::primitives::{PaymentHash, PublicKey};
use simln::propagate::{add_htlcs, remove_htlcs, resolve_payment, InterceptorReplies, PaymentReport};
use simln::route::Route;
use simln::routing::{populate_network_graph, DefaultPathFinder, PathFinder, RoutingGraph};
use simln::sim_node::{ln_node_from_graph, Dispatch, PathFeedback, SimNode, TrackEvent};
use std::time::{SystemTime, UNIX_EPOCH};

fn get_random_key() -> PublicKey {
    let secret: [u8; 32] = rand::random();
    match SecretKey::from_slice(&secret) {
        Ok(secret) => PublicKey(CurveKey::from_secret_key(&Secp256k1::new(), &secret).serialize()),
        Err(_) => get_random_key(),
    }
}

fn now_secs() -> u64 {
    SystemTime::now().duration_since(UNIX_EPOCH).unwrap().as_secs()
}

/// Creates a set of n simulated channels connected in a chain of channels, where the short channel ID of each
/// channel is its index in the chain of channels and all capacity is on the side of the node that opened the
/// channel.
fn create_simulated_channels(nodes: &[PublicKey], capacity_msat: u64) -> Vec<SimulatedChannel> {
    let mut channels = vec![];
    for i in 0..nodes.len() as u64 - 1 {
        let node_1_to_2 = ChannelPolicy {
            pubkey: nodes[i as usize],
            alias: String::default(),
            max_htlc_count: 483,
            max_in_flight_msat: capacity_msat / 2,
            min_htlc_size_msat: 1,
            max_htlc_size_msat: capacity_msat / 2,
            cltv_expiry_delta: 40,
            base_fee: 1000 * i,
            fee_rate_prop: 1500 * i,
        };
        let node_2_to_1 = ChannelPolicy {
            pubkey: nodes[i as usize + 1],
            alias: String::default(),
            max_htlc_count: 483,
            max_in_flight_msat: capacity_msat / 2,
            min_htlc_size_msat: 1,
            max_htlc_size_msat: capacity_msat / 2,
            cltv_expiry_delta: 40 + 10 * i as u32,
            base_fee: 2000 * i,
            fee_rate_prop: i,
        };
        channels.push(SimulatedChannel {
            capacity_msat,
            // Unique channel ID per link.
            short_channel_id: ShortChannelID::from(i),
            node_1: ChannelState::new(node_1_to_2, capacity_msat),
            node_2: ChannelState::new(node_2_to_1, 0),
        });
    }
    channels
}

/// Contains elements required to test dispatch_payment functionality.
struct DispatchPaymentTestKit {
    graph: SimGraph,
    nodes: Vec<PublicKey>,
    routing_graph: RoutingGraph,
    pathfinder: DefaultPathFinder,
}

impl DispatchPaymentTestKit {
    /// Creates a test graph with a set of nodes connected by three channels, with all the capacity of the channel
    /// on the side of the first node. For example, if called with capacity = 100 it will set up the following
    /// network:
    /// Alice (100) --- (0) Bob (100) --- (0) Carol (100) --- (0) Dave
    fn new(capacity: u64, custom_records: CustomRecords) -> Self {
        let nodes: Vec<PublicKey> = (0..4).map(|_| get_random_key()).collect();
        let channels = create_simulated_channels(&nodes, capacity);
        let routing_graph = populate_network_graph(&channels, now_secs()).unwrap();
        let kit = DispatchPaymentTestKit {
            graph: SimGraph::new(channels, custom_records).expect("could not create test graph"),
            nodes,
            routing_graph,
            pathfinder: DefaultPathFinder::new(),
        };

        // Assert that our channel balance is all on the side of the channel opener when we start up.
        assert_eq!(kit.channel_balances(), vec![(capacity, 0), (capacity, 0), (capacity, 0)]);
        kit
    }

    /// Returns a vector of local/remote channel balances for channels in the network.
    fn channel_balances(&self) -> Vec<(u64, u64)> {
        (0..self.graph.channels.len())
            .map(|i| {
                let channel = self.graph.channels.get(&ShortChannelID::from(i as u64)).unwrap();
                (channel.node_1.local_balance_msat, channel.node_2.local_balance_msat)
            })
            .collect()
    }

    fn find_route(&self, source: PublicKey, dest: PublicKey, amt: u64) -> Route {
        self.pathfinder.find_route(&source, dest, amt, &self.routing_graph).unwrap()
    }

    // Sends a test payment from source to destination, returning the route used and the report of the payment.
    fn send_intercepted(
        &mut self,
        source: PublicKey,
        dest: PublicKey,
        amt: u64,
        replies: &InterceptorReplies,
    ) -> (Route, PaymentReport) {
        let route = self.find_route(source, dest, amt);
        let report = self.graph.dispatch_payment(source, &route, None, PaymentHash([0; 32]), replies).unwrap();
        (route, report)
    }

    fn send_test_payment(&mut self, source: PublicKey, dest: PublicKey, amt: u64) -> (Route, PaymentReport) {
        self.send_intercepted(source, dest, amt, &InterceptorReplies::none())
    }

    // Sets the balance on the channel to the tuple provided, used to arrange liquidity for testing.
    fn set_channel_balance(&mut self, scid: ShortChannelID, balance: (u64, u64)) {
        let channel = self.graph.channels.get(&scid).unwrap();
        let changed = SimulatedChannel {
            capacity_msat: channel.capacity_msat,
            short_channel_id: scid,
            node_1: ChannelState::new(channel.node_1.policy.clone(), balance.0),
            node_2: ChannelState::new(channel.node_2.policy.clone(), balance.1),
        };
        assert!(changed.sanity_check().is_ok());
        self.graph.channels.insert(scid, changed);
    }
}

/// Dispatch of a successfully settled payment across a test network of simulated channels:
/// Alice --- Bob --- Carol --- Dave
#[test]
fn test_successful_dispatch() {
    let chan_capacity = 500_000_000;
    let mut test_kit = DispatchPaymentTestKit::new(chan_capacity, CustomRecords::default());
    let nodes = test_kit.nodes.clone();

    // Send a payment that should succeed from Alice -> Dave.
    let mut amt = 20_000;
    let (route, _) = test_kit.send_test_payment(nodes[0], nodes[3], amt);

    let route_total = route.paths[0].total_msat();
    let hop_1_amt = amt + route.paths[0].hops[1].fee_msat;
    assert_eq!(route_total, amt + route.paths[0].hops[0].fee_msat + route.paths[0].hops[1].fee_msat);

    // The sending node should have pushed the amount + total fee to the intermediary.
    let alice_to_bob = (chan_capacity - route_total, route_total);
    // The middle hop should include fees for the outgoing link.
    let mut bob_to_carol = (chan_capacity - hop_1_amt, hop_1_amt);
    // The receiving node should have the payment amount pushed to them.
    let carol_to_dave = (chan_capacity - amt, amt);

    let mut expected_balances = vec![alice_to_bob, bob_to_carol, carol_to_dave];
    assert_eq!(test_kit.channel_balances(), expected_balances);

    // Next, we'll test the case where a payment fails on the first hop. This is an edge case in our state
    // machine, so we want to specifically hit it. To do this, we'll try to send double the amount that we just
    // pushed to Dave back to Bob, expecting a failure on Dave's outgoing link due to insufficient liquidity.
    let _ = test_kit.send_test_payment(nodes[3], nodes[1], amt * 2);
    assert_eq!(test_kit.channel_balances(), expected_balances);

    // Now, test a successful single-hop payment from Bob -> Carol. We'll do this twice, so that we can drain all
    // the liquidity on Bob's side (to prepare for a multi-hop failure test). Our pathfinding only allows us to
    // use 50% of the channel's capacity, so we need to do two payments.
    amt = bob_to_carol.0 / 2;
    let _ = test_kit.send_test_payment(nodes[1], nodes[2], amt);

    bob_to_carol = (bob_to_carol.0 / 2, bob_to_carol.1 + amt);
    expected_balances = vec![alice_to_bob, bob_to_carol, carol_to_dave];
    assert_eq!(test_kit.channel_balances(), expected_balances);

    // When we push this amount a second time, all the liquidity should be moved to Carol's end.
    let _ = test_kit.send_test_payment(nodes[1], nodes[2], amt);
    bob_to_carol = (0, chan_capacity);
    expected_balances = vec![alice_to_bob, bob_to_carol, carol_to_dave];
    assert_eq!(test_kit.channel_balances(), expected_balances);

    // Finally, we'll test a multi-hop failure by trying to send from Alice -> Dave. Since Bob's liquidity is
    // drained, we expect a failure and unchanged balances along the route.
    let _ = test_kit.send_test_payment(nodes[0], nodes[3], 20_000);
    assert_eq!(test_kit.channel_balances(), expected_balances);
}

/// Successful dispatch of a multi-hop payment.
#[test]
fn test_successful_multi_hop() {
    let chan_capacity = 500_000_000;
    let mut test_kit = DispatchPaymentTestKit::new(chan_capacity, CustomRecords::default());
    let nodes = test_kit.nodes.clone();

    // Send a payment that should succeed from Alice -> Dave.
    let amt = 20_000;
    let (route, report) = test_kit.send_test_payment(nodes[0], nodes[3], amt);
    assert_eq!(report.result, PaymentResult { htlc_count: 1, payment_outcome: PaymentOutcome::Success });
    assert!(!report.shutdown);

    let route_total = route.paths[0].total_msat();
    let hop_1_amt = amt + route.paths[0].hops[1].fee_msat;

    let expected_balances = vec![
        // The sending node should have pushed the amount + total fee to the intermediary.
        (chan_capacity - route_total, route_total),
        // The middle hop should include fees for the outgoing link.
        (chan_capacity - hop_1_amt, hop_1_amt),
        // The receiving node should have the payment amount pushed to them.
        (chan_capacity - amt, amt),
    ];
    assert_eq!(test_kit.channel_balances(), expected_balances);
}

/// Success and failure for single hop payments, which are an edge case in our state machine.
#[test]
fn test_single_hop_payments() {
    let chan_capacity = 500_000_000;
    let mut test_kit = DispatchPaymentTestKit::new(chan_capacity, CustomRecords::default());
    let nodes = test_kit.nodes.clone();

    // Send a single hop payment from Alice -> Bob, it will succeed because Alice has all the liquidity.
    let amt = 150_000;
    let _ = test_kit.send_test_payment(nodes[0], nodes[1], amt);

    let expected_balances = vec![(chan_capacity - amt, amt), (chan_capacity, 0), (chan_capacity, 0)];
    assert_eq!(test_kit.channel_balances(), expected_balances);

    // Send a single hop payment from Dave -> Carol that will fail due to lack of liquidity, balances should be
    // unchanged.
    let _ = test_kit.send_test_payment(nodes[3], nodes[2], amt);
    assert_eq!(test_kit.channel_balances(), expected_balances);
}

/// Failing back of multi-hop payments at various failure indexes.
#[test]
fn test_multi_hop_faiulre() {
    let chan_capacity = 500_000_000;
    let mut test_kit = DispatchPaymentTestKit::new(chan_capacity, CustomRecords::default());
    let nodes = test_kit.nodes.clone();

    // Drain liquidity between Bob and Carol to force failures on Bob's outgoing linke.
    test_kit.set_channel_balance(ShortChannelID::from(1), (0, chan_capacity));

    let mut expected_balances = vec![(chan_capacity, 0), (0, chan_capacity), (chan_capacity, 0)];
    assert_eq!(test_kit.channel_balances(), expected_balances);

    // Send a payment from Alice -> Dave which we expect to fail leaving balances unaffected.
    let amt = 150_000;
    let _ = test_kit.send_test_payment(nodes[0], nodes[3], amt);
    assert_eq!(test_kit.channel_balances(), expected_balances);

    // Push liquidity to Dave so that we can send a payment which will fail on Bob's outgoing link, leaving
    // balances unaffected.
    expected_balances[2] = (0, chan_capacity);
    test_kit.set_channel_balance(ShortChannelID::from(2), (0, chan_capacity));

    let _ = test_kit.send_test_payment(nodes[3], nodes[0], amt);
    assert_eq!(test_kit.channel_balances(), expected_balances);
}

/// The failure of a payment is reported with the hop that it failed at.
#[test]
fn test_payment_failure_returns_correct_hop_index_of_failure() {
    let chan_capacity = 500_000_000;
    let mut test_kit = DispatchPaymentTestKit::new(chan_capacity, CustomRecords::default());
    let nodes = test_kit.nodes.clone();
    let mut node = SimNode::new(node_info(nodes[0], String::default()));

    // We are altering the route to make sure that we fail at each hop in turn.
    // We will assert that the failure index returned is the index of the hop that we altered.
    // This is done by setting the CLTV expiry delta to a value that will cause the payment to fail at that hop.
    // The last hop will always succeed, so we only test the first n-1 hops.
    for i in 0..2 {
        let mut route = test_kit.find_route(nodes[0], nodes[3], 20_000);
        assert_eq!(route.paths[0].hops.len(), 3);
        // Alter route to make payment fail on this hop.
        route.paths[0].hops[i].cltv_expiry_delta = 39;

        let preimage: [u8; 32] = rand::random();
        let payment_hash = PaymentHash::of_preimage(&preimage);
        assert!(node.send_to_route(&route, payment_hash).is_ok());
        let report = test_kit
            .graph
            .dispatch_payment(nodes[0], &route, None, payment_hash, &InterceptorReplies::none())
            .unwrap();

        let payment = node.take_payment(&payment_hash).unwrap();
        let (result, feedback) =
            SimNode::track_payment(&payment.path, TrackEvent::Result(Ok(report.result), Ok(())));
        assert!(matches!(
            result.unwrap().payment_outcome,
            PaymentOutcome::IndexFailure(idx) if idx == i
        ));
        assert!(matches!(feedback, PathFeedback::Failed(_)));
    }
}

/// A payment that was sent to a route can be followed until it has its result.
#[test]
fn test_send_and_track_payment_to_route() {
    let chan_capacity = 500_000_000;
    let mut test_kit = DispatchPaymentTestKit::new(chan_capacity, CustomRecords::default());
    let nodes = test_kit.nodes.clone();
    let mut node = SimNode::new(node_info(nodes[0], String::default()));
    let route = test_kit.find_route(nodes[0], nodes[3], 20_000);

    let preimage: [u8; 32] = rand::random();
    let payment_hash = PaymentHash::of_preimage(&preimage);
    node.send_to_route(&route, payment_hash).unwrap();
    let report = test_kit
        .graph
        .dispatch_payment(nodes[0], &route, None, payment_hash, &InterceptorReplies::none())
        .unwrap();

    let payment = node.take_payment(&payment_hash).unwrap();
    let (result, feedback) =
        SimNode::track_payment(&payment.path, TrackEvent::Result(Ok(report.result), Ok(())));
    assert!(matches!(result.unwrap().payment_outcome, PaymentOutcome::Success));
    assert!(matches!(feedback, PathFeedback::Successful));
}

/// The functionality of a `SimNode`.
#[test]
fn test_simulated_node() {
    // Create a routing graph with 5 hops.
    let keys: Vec<PublicKey> = (0..6).map(|_| get_random_key()).collect();
    let channels = create_simulated_channels(&keys, 300000000);
    let routing = populate_network_graph(&channels, now_secs()).unwrap();
    let graph = SimGraph::new(channels, CustomRecords::default()).unwrap();

    // Create a simulated node for the first channel in our network.
    let mut node = SimNode::new(node_info(keys[0], String::default()));

    let lookup_pk = keys[3];
    let info = node.get_node_info(&graph, &lookup_pk).unwrap();
    assert_eq!(lookup_pk, info.pubkey);
    assert_eq!(node.list_channels(&graph).unwrap(), vec![300000000]);
    assert_eq!(SimNode::new(node_info(lookup_pk, String::default())).list_channels(&graph).unwrap().len(), 2);

    // Next, we're going to test handling of in-flight payments with different results.
    let dest_1 = keys[2];
    let dest_2 = keys[4];
    let pathfinder = DefaultPathFinder::new();
    let (hash_1, dispatch_1) = node.send_payment(dest_1, 10_000, &pathfinder, &routing).unwrap();
    let (hash_2, dispatch_2) = node.send_payment(dest_2, 15_000, &pathfinder, &routing).unwrap();
    assert!(matches!(dispatch_1, Dispatch::OnPath(path) if path.hops.last().unwrap().pubkey == dest_1));
    assert!(matches!(dispatch_2, Dispatch::OnPath(path) if path.hops.last().unwrap().pubkey == dest_2));

    let success = PaymentResult { htlc_count: 2, payment_outcome: PaymentOutcome::Success };
    let payment = node.take_payment(&hash_1).unwrap();
    let (result_1, _) = SimNode::track_payment(&payment.path, TrackEvent::Result(Ok(success), Ok(())));
    assert!(matches!(result_1.unwrap().payment_outcome, PaymentOutcome::Success));

    let failure = PaymentResult { htlc_count: 0, payment_outcome: PaymentOutcome::InsufficientBalance };
    let payment = node.take_payment(&hash_2).unwrap();
    let (result_2, _) = SimNode::track_payment(&payment.path, TrackEvent::Result(Ok(failure), Ok(())));
    assert!(matches!(result_2.unwrap().payment_outcome, PaymentOutcome::InsufficientBalance));
}

#[test]
fn payments_are_tracked_once() {
    let key = get_random_key();
    let mut node = SimNode::new(node_info(key, String::default()));
    let hash = PaymentHash([9; 32]);
    assert!(matches!(
        node.take_payment(&hash),
        Err(LightningError::TrackPaymentError(m)) if m == format!("payment hash {} not found", hash.to_text())
    ));
    let missing = Err(SimulationError::SimulatedNetworkError("no route".to_string()));
    let not_found = PaymentResult { htlc_count: 0, payment_outcome: PaymentOutcome::RouteNotFound };
    assert!(matches!(node.register_payment(hash, missing), Ok(Dispatch::Resolved(result)) if result == not_found));
    let payment = node.take_payment(&hash).unwrap();
    assert!(payment.path.is_none());
    let (result, _) = SimNode::track_payment(&payment.path, TrackEvent::Result(Ok(not_found), Ok(())));
    assert_eq!(result.unwrap(), not_found);
    assert!(node.take_payment(&hash).is_err());
    let (result, _) = SimNode::track_payment(&payment.path, TrackEvent::Shutdown);
    assert!(matches!(result, Err(LightningError::TrackPaymentError(_))));
}

#[test]
fn routes_with_several_paths_are_not_sent() {
    let mut test_kit = DispatchPaymentTestKit::new(1_000_000, CustomRecords::default());
    let nodes = test_kit.nodes.clone();
    let mut node = SimNode::new(node_info(nodes[0], String::default()));
    let mut route = test_kit.find_route(nodes[0], nodes[1], 100);
    let other = test_kit.find_route(nodes[0], nodes[1], 100);
    route.paths.extend(other.paths);
    assert!(node.send_to_route(&route, PaymentHash([1; 32])).is_err());
    assert!(test_kit
        .graph
        .dispatch_payment(nodes[0], &route, None, PaymentHash([1; 32]), &InterceptorReplies::none())
        .is_none());
    assert_eq!(test_kit.channel_balances()[0], (1_000_000, 0));
}

#[test]
fn no_route_is_found_for_impossible_payments() {
    let test_kit = DispatchPaymentTestKit::new(1_000_000, CustomRecords::default());
    let nodes = &test_kit.nodes;
    let find = |source: PublicKey, dest: PublicKey, amt: u64| {
        test_kit.pathfinder.find_route(&source, dest, amt, &test_kit.routing_graph)
    };
    assert!(find(nodes[0], nodes[3], 0).is_err());
    assert!(find(nodes[0], nodes[0], 100).is_err());
    assert!(find(nodes[0], get_random_key(), 100).is_err());
    assert!(find(nodes[0], nodes[3], 600_000).is_err());
    let mut node = SimNode::new(node_info(nodes[0], String::default()));
    let (_, dispatch) =
        node.send_payment(nodes[3], 600_000, &test_kit.pathfinder, &test_kit.routing_graph).unwrap();
    let not_found = PaymentResult { htlc_count: 0, payment_outcome: PaymentOutcome::RouteNotFound };
    assert!(matches!(dispatch, Dispatch::Resolved(result) if result == not_found));
    assert!(find(PublicKey([7; 33]), nodes[3], 100).is_err());
    let route = find(nodes[0], nodes[3], 100).unwrap();
    assert_eq!(route.paths.len(), 1);
    let keys: Vec<PublicKey> = route.paths[0].hops.iter().map(|h| h.pubkey).collect();
    assert_eq!(keys, nodes[1..].to_vec());
    let scids: Vec<u64> = route.paths[0].hops.iter().map(|h| h.short_channel_id).collect();
    assert_eq!(scids, vec![0, 1, 2]);
    assert_eq!(route.paths[0].hops[2].fee_msat, 100);
    // Each hop adds the delta that the policy of the next one asks for.
    assert_eq!(route.paths[0].hops[0].cltv_expiry_delta, 40);
    assert_eq!(route.paths[0].hops[1].cltv_expiry_delta, 40);
}

#[test]
fn invalid_channels_are_not_routed() {
    let key = get_random_key();
    let other = get_random_key();
    let twice: Vec<SimulatedChannel> = [create_simulated_channels(&[key, other], 1_000), create_simulated_channels(&[key, other], 1_000)]
        .into_iter()
        .flatten()
        .collect();
    assert!(populate_network_graph(&twice, now_secs()).is_err());
    assert!(matches!(
        populate_network_graph(&create_simulated_channels(&[key, key], 1_000), now_secs()),
        Err(m) if m == "LightningError { err: \"Channel announcement node had a channel with itself\", action: IgnoreError }"
    ));
    // Policies are refused two weeks after their time.
    let old = create_simulated_channels(&[key, other], 1_000);
    assert!(matches!(
        populate_network_graph(&old, now_secs() - 15 * 24 * 3600),
        Err(m) if m.starts_with("LightningError { err: \"channel_update is older than two weeks old\"")
    ));
    // The policies of a channel can not allow more than its capacity in whole satoshis.
    let mut large = create_simulated_channels(&[key, other], 1_999);
    large[0].node_1.policy.max_htlc_size_msat = 1_000;
    assert!(populate_network_graph(&large, now_secs()).is_ok());
    large[0].node_1.policy.max_htlc_size_msat = 1_001;
    assert!(populate_network_graph(&large, now_secs()).is_err());
    // Another channel takes the place of the one with its ID.
    let replaced: Vec<SimulatedChannel> = [[key, other], [other, get_random_key()]]
        .iter()
        .flat_map(|nodes| create_simulated_channels(nodes, 1_000))
        .collect();
    assert!(populate_network_graph(&replaced, now_secs()).is_ok());
    assert!(populate_network_graph(&vec![], 0).is_ok());
    assert!(populate_network_graph(&create_simulated_channels(&[key, PublicKey([9; 33])], 1_000), now_secs()).is_err());
    assert!(matches!(
        SimGraph::new(twice, CustomRecords::default()),
        Err(SimulationError::SimulatedNetworkError(m)) if m == "Simulated short channel ID should be unique: 0:0:0 duplicated"
    ));
}

#[test]
fn nodes_of_the_network() {
    let test_kit = DispatchPaymentTestKit::new(1_000, CustomRecords::default());
    let (info, capacities) = test_kit.graph.lookup_node(&test_kit.nodes[1]).unwrap();
    assert_eq!(info.pubkey, test_kit.nodes[1]);
    assert!(info.features.supports_keysend());
    assert_eq!(capacities, vec![1_000, 1_000]);
    assert!(matches!(
        test_kit.graph.lookup_node(&get_random_key()),
        Err(LightningError::GetNodeInfoError(m)) if m == "Node not found"
    ));
    assert_eq!(test_kit.graph.list_nodes().len(), 4);
    let nodes = ln_node_from_graph(&test_kit.graph);
    assert_eq!(nodes.len(), 4);
    let graph = nodes[0].get_graph(&test_kit.graph);
    assert!(test_kit.nodes.iter().all(|k| graph.nodes_by_pk.contains_key(k)));
}

fn failing_reply() -> InterceptReply {
    Ok(Err(ForwardingError::InterceptorError("failing from mock interceptor".into())))
}

/// Intercepted htlc failures.
#[test]
fn test_intercepted_htlc_failure() {
    // Test with 2 interceptors where one of them returns a signal to fail the htlc.
    let response = handle_intercepted_htlc(
        CustomRecords::default(),
        &vec![Ok(Ok(CustomRecords::default())), failing_reply()],
    );
    // Test we got internal error back if there was a ForwardingError during interception.
    assert!(response.unwrap().is_err());

    // Try to set the a different value for the same key.
    let response = handle_intercepted_htlc(
        CustomRecords::default(),
        &vec![
            Ok(Ok(CustomRecords::from([(1000, vec![1])]))),
            Ok(Ok(CustomRecords::from([(1000, vec![5])]))),
        ],
    );
    // Test conflicting records return outer CriticalError.
    assert!(matches!(response, Err(CriticalError::DuplicateCustomRecord(1000))));
}

/// Intercepted htlc success.
#[test]
fn test_intercepted_htlc_success() {
    let response = handle_intercepted_htlc(
        CustomRecords::default(),
        &vec![Ok(Ok(CustomRecords::from([(1000, vec![1])])))],
    );
    // Test we got Ok response with custom records set by interceptor.
    assert!(response.unwrap().unwrap() == CustomRecords::from([(1000, vec![1])]));
}

/// An interceptor that fails an htlc does not shut the simulation down, and one with a critical error does.
#[test]
fn test_shutdown_intercepted_htlc() {
    let mut test_kit = DispatchPaymentTestKit::new(500_000_000, CustomRecords::default());
    let nodes = test_kit.nodes.clone();
    let replies = InterceptorReplies { intercepts: vec![vec![failing_reply()]], acks: vec![] };
    let (_, report) = test_kit.send_intercepted(nodes[0], nodes[3], 150_000_000, &replies);
    assert!(matches!(report.result.payment_outcome, PaymentOutcome::IndexFailure(0)));
    assert!(!report.shutdown);
    assert_eq!(test_kit.channel_balances(), vec![(500_000_000, 0), (500_000_000, 0), (500_000_000, 0)]);

    let critical = Err(CriticalError::InterceptorError("broken".into()));
    let replies = InterceptorReplies { intercepts: vec![vec![critical]], acks: vec![] };
    let (_, report) = test_kit.send_intercepted(nodes[0], nodes[3], 150_000_000, &replies);
    assert!(report.shutdown);
    assert!(report.result.payment_outcome != PaymentOutcome::Success);
}

/// Custom records set for interceptors in multi-hop payment.
#[test]
fn test_custom_records() {
    let custom_records = CustomRecords::from([(1000, vec![1])]);
    let chan_capacity = 500_000_000;
    let mut test_kit = DispatchPaymentTestKit::new(chan_capacity, custom_records.clone());
    let nodes = test_kit.nodes.clone();
    // Set empty records for 2nd hop.
    let replies = InterceptorReplies {
        intercepts: vec![vec![Ok(Ok(CustomRecords::default()))], vec![Ok(Ok(CustomRecords::default()))]],
        acks: vec![],
    };
    let (_, report) = test_kit.send_intercepted(nodes[0], nodes[2], 150_000, &replies);
    assert_eq!(report.result.payment_outcome, PaymentOutcome::Success);
    assert_eq!(report.requests.len(), 2);
    // Check custom records passed to interceptor are the default ones set.
    assert!(report.requests[0].incoming_custom_records == custom_records);
    // On this 2nd hop, the custom records should be empty.
    assert!(report.requests[1].incoming_custom_records == CustomRecords::default());
    assert_eq!(report.resolutions.len(), 2);
    assert!(report.resolutions.iter().all(|r| r.success));
    // Only the receiving node has no outgoing channel.
    assert_eq!(report.resolutions[0].forwarding_node, nodes[2]);
    assert_eq!(report.resolutions[0].outgoing_channel_id, None);
    assert_eq!(report.resolutions[1].forwarding_node, nodes[1]);
    assert_eq!(report.resolutions[1].outgoing_channel_id, Some(ShortChannelID::from(1)));
}

#[test]
fn failures_are_notified_along_the_route() {
    let mut test_kit = DispatchPaymentTestKit::new(500_000_000, CustomRecords::default());
    let nodes = test_kit.nodes.clone();
    // The second node on the way fails the htlc, and so is not its receiver.
    let passing = || Ok(Ok(CustomRecords::default()));
    let replies = InterceptorReplies { intercepts: vec![vec![passing()], vec![failing_reply()]], acks: vec![] };
    let (_, report) = test_kit.send_intercepted(nodes[0], nodes[3], 150_000, &replies);
    assert!(matches!(report.result.payment_outcome, PaymentOutcome::IndexFailure(1)));
    let told: Vec<(PublicKey, u64, Option<ShortChannelID>, bool)> = report
        .resolutions
        .iter()
        .map(|r| (r.forwarding_node, r.incoming_htlc.index, r.outgoing_channel_id, r.success))
        .collect();
    assert_eq!(
        told,
        vec![
            (nodes[2], 0, Some(ShortChannelID::from(2)), false),
            (nodes[1], 0, Some(ShortChannelID::from(1)), false),
        ]
    );
}

#[test]
fn added_payments_can_be_failed() {
    let mut test_kit = DispatchPaymentTestKit::new(500_000_000, CustomRecords::default());
    let nodes = test_kit.nodes.clone();
    let before = test_kit.channel_balances();
    let path = test_kit.find_route(nodes[0], nodes[3], 150_000).paths.remove(0);
    let hash = PaymentHash([8; 32]);
    let none = InterceptorReplies::none();
    let (added, _) = add_htlcs(&mut test_kit.graph.channels, nodes[0], &path, hash, &none, CustomRecords::default());
    assert!(matches!(added, Ok(Ok(()))));
    assert_ne!(test_kit.channel_balances(), before);
    let step = resolve_payment(&added, &path);
    assert_eq!((step.resolution_idx, step.success, step.shutdown), (Some(2), true, false));
    let (removed, _) = remove_htlcs(&mut test_kit.graph.channels, 2, &nodes[0], &path, &hash, false, &none);
    assert!(removed.is_ok());
    assert_eq!(test_kit.channel_balances(), before);
}

/// An interceptor that delays htlcs lets them go on.
#[test]
fn test_latency_response() {
    let interceptor = LatencyIntercepor::new_poisson(None, Some(1)).unwrap();
    assert!(interceptor.intercept_htlc().unwrap().unwrap() == CustomRecords::default());
    assert_eq!(interceptor.name(), "Latency Interceptor");
    assert!(matches!(
        LatencyIntercepor::new_poisson(Some("lambda is not positive"), None),
        Err(SimulationError::SimulatedNetworkError(m)) if m == "Could not create possion: lambda is not positive"
    ));
}
