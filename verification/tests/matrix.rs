//! Simulations on a simulated network, from the description of the network to the recorded results. Time is virtual, so
//! that runs complete at once.
use bitcoin::secp256k1::{PublicKey as CurveKey, Secp256k1, SecretKey};
use simln::asserts::{
    assert_activities_resolved, assert_all_success, assert_amounts_within, assert_defined_payments,
    assert_not_involved, assert_payments_between, assert_payments_dispatched, assert_sources_controlled,
    assert_total_payments, AssertionFailure,
};
use simln::executors::activity_executors;
use simln::generator::PaymentGenerator;
use simln::intercept::CustomRecords;
use simln::node::{LightningError, NodeId, SimulationError};
use simln::parsing::{EclairConnection, LdkServerConnection, LndConnection, NodeConnection};
use simln::payment::{PaymentOutcome, PaymentResult, PaymentResultLogger, Timestamp};
use simln::primitives::PublicKey;
use simln::propagate::InterceptorReplies;
use simln::results::{ResultsAction, ResultsConsumer};
use simln::route::Route;
use simln::routing::DefaultPathFinder;
use simln::runner::{handles_by_pubkey, read_record, read_records, result_row, RunOptions, SimFile, SimOutput};
use simln::scenario::{ActivityEntry, ConfigStyle, NodeHandle, NodeRef, Scenario, ValueSpec};
use simln::setup::{create_simulation_with_network, SetupError};
use simln::sim_node::{Dispatch, SimNode, TrackEvent};
use simln::simulated::{ConfigFragment, SimulatedNetwork, TestNetwork};
use simln::tasks::{
    produce_simulation_results, ConsumerAction, ConsumerInput, EventConsumer, EventProducer, OutputAction,
    ProducerAction,
};
use std::time::{SystemTime, UNIX_EPOCH};

fn now_secs() -> u64 {
    SystemTime::now().duration_since(UNIX_EPOCH).unwrap().as_secs()
}

/// Runs a scenario on a simulated network and returns its output, failing the test on any setup or simulation error.
fn run(scenario: &Scenario, opts: RunOptions) -> SimOutput {
    let network = SimulatedNetwork::new();
    let params = SimFile::new(SimulatedNetwork::new().config_fragment())
        .scenario(scenario, network.nodes())
        .parse_params()
        .unwrap();
    let mut net = create_simulation_with_network(
        opts.simulation_cfg(".".to_string()),
        &params,
        CustomRecords::default(),
        now_secs(),
    )
    .unwrap();
    let plan = net.simulation.internal_run(&net.activities).unwrap();
    assert_eq!(plan.activities, net.activities.len());

    let kits = activity_executors(&net.activities);
    let mut destinations: Vec<_> = activity_executors(&net.activities).into_iter().map(|k| k.generator).collect();
    let mut producers: Vec<EventProducer> = kits.iter().map(|k| EventProducer::new(k.source_info.clone())).collect();
    let mut consumers: Vec<EventConsumer> = kits.iter().map(|k| EventConsumer::new(k.source_info.pubkey)).collect();
    let mut results =
        ResultsConsumer::new(PaymentResultLogger::new(), &net.simulation.cfg.write_results).unwrap();
    let pathfinder = DefaultPathFinder::new();
    let mut rows = vec![];

    // The times at which the producers are to generate a payment.
    let mut due: Vec<Option<u64>> = vec![];
    for i in 0..kits.len() {
        due.push(next_time(&producers[i], &kits[i].generator, 0));
    }
    loop {
        let next = (0..kits.len()).filter(|i| due[*i].is_some()).min_by_key(|i| due[*i]);
        let i = match next {
            Some(i) => i,
            None => break,
        };
        let now = due[i].unwrap();
        if plan.total_time.map_or(false, |total| now >= total) {
            break;
        }
        let event = match producers[i].generate(&mut destinations[i], &kits[i].generator) {
            ProducerAction::Send(event) => event,
            _ => panic!("a payment can be generated"),
        };
        producers[i].sent();
        let (dest, amount) = match consumers[i].consume_events(ConsumerInput::Event(event, Timestamp { secs: now, nanos: 0 })) {
            ConsumerAction::SendPayment(dest, amount) => (dest, amount),
            _ => panic!("the payment is sent"),
        };
        let source = kits[i].source_info.pubkey;
        let node = net.nodes.iter_mut().find(|n| n.get_info().pubkey == source).unwrap();
        let (hash, dispatch) = node.send_payment(dest, amount, &pathfinder, &net.routing).unwrap();
        let result = match dispatch {
            Dispatch::OnPath(path) => {
                let route = Route { paths: vec![path] };
                let report = net
                    .graph
                    .dispatch_payment(source, &route, None, hash, &InterceptorReplies::none())
                    .unwrap();
                assert!(!report.shutdown);
                report.result
            }
            Dispatch::Resolved(result) => result,
        };
        let output = match consumers[i].consume_events(ConsumerInput::Sent(Ok(hash))) {
            ConsumerAction::Report(output) => output,
            _ => panic!("the payment was sent"),
        };
        consumers[i].consume_events(ConsumerInput::Reported);
        let payment = match produce_simulation_results(&net.simulation.nodes, &output) {
            OutputAction::Track(payment) => payment,
            _ => panic!("the payment is tracked"),
        };
        let in_flight = node.take_payment(&payment.hash.unwrap()).unwrap();
        let (report, _) = SimNode::track_payment(&in_flight.path, TrackEvent::Result(Ok(result), Ok(())));
        let report = report.unwrap();
        assert!(matches!(results.consume_simulation_results(&payment, &report, Ok(())), ResultsAction::Flush));
        rows.push(result_row(&payment, &report));
        due[i] = next_time(&producers[i], &kits[i].generator, now);
    }
    results.finish();
    SimOutput {
        params,
        activities: net.activities,
        total_payments: results.logger.total_attempts(),
        records: read_records(1, ".", &rows).unwrap(),
    }
}

fn next_time<A: PaymentGenerator>(producer: &EventProducer, generator: &A, now: u64) -> Option<u64> {
    match producer.next(generator) {
        ProducerAction::Sleep(wait) => Some(now + wait),
        ProducerAction::Stop(Ok(())) => None,
        _ => panic!("the activity has no errors"),
    }
}

/// Runs a scenario expected to fail validation and returns the full error text.
fn run_expecting_error(network: SimulatedNetwork, activity: Vec<ActivityEntry>) -> String {
    let params = SimFile::new(network.config_fragment()).activity_raw(activity).parse_params().unwrap();
    let cfg = RunOptions::default().simulation_cfg(".".to_string());
    match create_simulation_with_network(cfg, &params, CustomRecords::default(), now_secs()) {
        Ok(_) => panic!("simulation setup should fail validation"),
        Err(SetupError::Lightning(LightningError::ValidationError(m))) => m,
        Err(e) => panic!("{:?}", e),
    }
}

fn pair_keys(pairs: &[(usize, usize)]) -> Vec<(PublicKey, PublicKey)> {
    let network = SimulatedNetwork::new();
    let nodes = network.nodes();
    pairs.iter().map(|p| (nodes[p.0].pubkey, nodes[p.1].pubkey)).collect()
}

/// Defined activity across every combination of node reference style and value shape: however the config spells out
/// nodes and values, the same payments must flow. Includes a single-hop pair (node 0 -> 1) and a multi-hop pair (spur
/// node 4 -> 2, which must route through the ring).
#[test]
fn defined_activity_config_styles() {
    let refs = [NodeRef::Alias, NodeRef::Pubkey];
    let amounts = [ValueSpec::Scalar(1000), ValueSpec::Range(1000, 10_000)];
    let intervals = [ValueSpec::Scalar(2), ValueSpec::Range(1, 5)];
    for source_ref in refs {
        for dest_ref in refs {
            for amount_msat in amounts {
                for interval_secs in intervals {
                    let count = 5;
                    let scenario = Scenario::Defined {
                        pairs: vec![(0, 1), (4, 2)],
                        count: Some(count),
                        style: ConfigStyle { source_ref, dest_ref, amount_msat, interval_secs },
                    };
                    let out = run(&scenario, RunOptions::default());
                    let pairs = pair_keys(&[(0, 1), (4, 2)]);
                    assert!(assert_activities_resolved(&out, &pairs).is_ok());
                    assert!(assert_amounts_within(&out, amount_msat).is_ok());
                    assert!(assert_defined_payments(&out, &pairs, count).is_ok());
                }
            }
        }
    }
}

/// Defined activity without a count runs until the simulation's total time; on virtual time the payment schedule is
/// deterministic, so the exact number of dispatched payments is known.
#[test]
fn defined_activity_bounded_by_total_time() {
    let scenario = Scenario::Defined {
        pairs: vec![(0, 1)],
        count: None,
        style: ConfigStyle { interval_secs: ValueSpec::Scalar(10), ..Default::default() },
    };
    let out = run(&scenario, RunOptions { total_time: Some(95), ..Default::default() });

    // Payments dispatch every 10 virtual seconds until shutdown at t=95: t=10..=90.
    assert!(assert_total_payments(&out, 9).is_ok());
    assert!(assert_all_success(&out).is_ok());
    assert!(assert_payments_dispatched(&out).is_ok());
    assert!(matches!(assert_total_payments(&out, 8), Err(AssertionFailure::TotalPayments(_, _))));

    let network = SimulatedNetwork::new();
    let nodes = network.nodes();
    assert!(assert_sources_controlled(&out, nodes).is_ok());
    assert!(assert_not_involved(&out, &vec![nodes[2].pubkey]).is_ok());
    assert!(matches!(
        assert_not_involved(&out, &vec![nodes[2].pubkey, nodes[1].pubkey]),
        Err(AssertionFailure::Excluded(0, 1))
    ));
    assert!(matches!(
        assert_sources_controlled(&out, &vec![]),
        Err(AssertionFailure::Uncontrolled(0))
    ));
    assert_eq!(assert_payments_between(&out, &pair_keys(&[(2, 1), (0, 1)])).unwrap(), vec![0, 9]);
    assert!(matches!(
        assert_payments_between(&out, &pair_keys(&[(1, 0)])),
        Err(AssertionFailure::UnknownPair(0))
    ));
    assert!(matches!(
        assert_defined_payments(&out, &pair_keys(&[(0, 1)]), 8),
        Err(AssertionFailure::PairCount(0, 9))
    ));
    assert!(matches!(
        assert_amounts_within(&out, ValueSpec::Range(1001, 2000)),
        Err(AssertionFailure::Amount(0))
    ));
    assert!(matches!(
        assert_activities_resolved(&out, &vec![]),
        Err(AssertionFailure::ActivityCount(_, _))
    ));
}

fn entry(source: String, destination: String) -> ActivityEntry {
    ActivityEntry {
        source,
        destination,
        interval_secs: ValueSpec::Scalar(2),
        amount_msat: ValueSpec::Scalar(1000),
        count: None,
    }
}

/// An activity source that is not a controlled node fails validation with a specific error.
#[test]
fn unknown_source_rejected() {
    let network = SimulatedNetwork::new();
    let alias = network.nodes()[1].alias.clone();
    let error = run_expecting_error(network, vec![entry("ghost".to_string(), alias)]);
    assert!(error.contains("not found in nodes"), "expected unknown-source validation error, got: {error}");
}

/// An activity destination that exists nowhere in the graph fails validation.
#[test]
fn unknown_destination_rejected() {
    let network = SimulatedNetwork::new();
    let secp = Secp256k1::new();
    let stranger = CurveKey::from_secret_key(&secp, &SecretKey::from_slice(&[99u8; 32]).unwrap());
    let alias = network.nodes()[0].alias.clone();
    let error = run_expecting_error(network, vec![entry(alias, stranger.to_string())]);
    assert!(
        error.contains("unknown activity destination"),
        "expected unknown-destination validation error, got: {error}"
    );
}

/// A network where two nodes share an alias is rejected, since aliases would be ambiguous references.
#[test]
fn duplicate_alias_rejected() {
    let network = SimulatedNetwork::with_duplicate_alias();
    let keys: Vec<String> = network.nodes().iter().map(|n| n.pubkey.to_text()).collect();
    let error = run_expecting_error(network, vec![entry(keys[0].clone(), keys[1].clone())]);
    assert!(error.contains("duplicated alias"), "expected duplicate-alias validation error, got: {error}");
}

#[test]
fn excluded_nodes_take_no_part() {
    let network = SimulatedNetwork::new();
    let scenario = Scenario::Random { excludes: vec![4] };
    let params = SimFile::new(SimulatedNetwork::new().config_fragment())
        .scenario(&scenario, network.nodes())
        .parse_params()
        .unwrap();
    assert_eq!(params.exclude, vec![network.nodes()[4].pubkey]);
    let cfg = RunOptions::default().simulation_cfg(".".to_string());
    let net = create_simulation_with_network(cfg, &params, CustomRecords::default(), now_secs()).unwrap();
    assert!(net.activities.is_empty());
    assert_eq!(net.simulation.nodes.len(), 4);
    assert!(!net.simulation.nodes.contains_key(&network.nodes()[4].pubkey));
    assert!(net.simulation.internal_run(&net.activities).is_ok());
}

#[test]
fn invalid_networks_are_refused() {
    let network = SimulatedNetwork::new();
    let params = || SimFile::new(SimulatedNetwork::new().config_fragment()).parse_params().unwrap();
    let cfg = || RunOptions::default().simulation_cfg(".".to_string());
    let mut twice = params();
    twice.sim_network.push(params().sim_network.remove(0));
    match create_simulation_with_network(cfg(), &twice, CustomRecords::default(), now_secs()) {
        Err(SetupError::Simulation(SimulationError::SimulatedNetworkError(m))) => {
            assert!(m.starts_with("SimulatedNetworkError(\"Simulated short channel ID should be unique"), "{}", m)
        }
        _ => panic!("channels must be unique"),
    }
    let mut nobody = params();
    nobody.exclude = network.nodes().iter().map(|n| n.pubkey).collect();
    assert!(matches!(
        create_simulation_with_network(cfg(), &nobody, CustomRecords::default(), now_secs()),
        Err(SetupError::Lightning(LightningError::GetGraphError(_)))
    ));
}

#[test]
fn simulated_networks_are_valid() {
    let network = SimulatedNetwork::new();
    assert_eq!(network.nodes().len(), 5);
    let map = handles_by_pubkey(network.nodes());
    for (i, handle) in network.nodes().iter().enumerate() {
        assert_eq!(map.get(&handle.pubkey), Some(&i));
        assert!(PublicKey::parse(&handle.pubkey.to_text()).is_ok());
    }
    match network.config_fragment() {
        ConfigFragment::SimGraph(channels) => {
            assert!(channels.iter().all(|c| c.to_channel().validate().is_ok() && c.capacity_msat == 100_000_000));
        }
        _ => panic!("the network is simulated"),
    }
}

#[test]
fn results_are_read_back() {
    let out = run(
        &Scenario::Defined { pairs: vec![(0, 1)], count: Some(1), style: ConfigStyle::default() },
        RunOptions::default(),
    );
    let record = &out.records[0];
    assert!(record.is_success());
    assert_eq!(record.amount_msat, 1000);

    let payment = simln::payment::Payment {
        source: record.source,
        destination: record.destination,
        amount_msat: 77,
        hash: None,
        dispatch_time: Timestamp { secs: 2, nanos: 345_678_901 },
    };
    let result = PaymentResult { htlc_count: 0, payment_outcome: PaymentOutcome::IndexFailure(2) };
    let row = result_row(&payment, &result);
    assert_eq!(row[2..], ["77", "Unknown", "2345", "0", "2"].map(|s| s.to_string()));
    let read = read_record(&row).unwrap();
    assert_eq!((read.source, read.amount_msat, read.is_success()), (record.source, 77, false));
    assert!(read_record(&vec!["02".to_string()]).is_err());
    assert!(read_records(2, ".", &vec![row]).is_err());
}

#[test]
fn values_of_scenarios() {
    assert_eq!(ValueSpec::Scalar(5).to_json(), "5");
    assert_eq!(ValueSpec::Range(5, 9).to_json(), "[5,9]");
    assert!(ValueSpec::Range(5, 9).contains(5) && !ValueSpec::Range(5, 9).contains(9));
    assert!(ValueSpec::Range(9, 9).to_amount().is_err());
    assert!(ValueSpec::Scalar(70_000).to_interval().is_err());
    assert!(ValueSpec::Scalar(65_535).to_interval().is_ok());
}

/// The connections of real nodes are kept as they are described.
#[test]
fn real_nodes_are_kept() {
    let connections = vec![
        NodeConnection::Lnd(LndConnection {
            id: NodeId::Alias("lnd-node".to_string()),
            address: "localhost:10009".to_string(),
            macaroon: "/tmp/simln-test/admin.macaroon".to_string(),
            cert: "/tmp/simln-test/tls.cert".to_string(),
        }),
        NodeConnection::Eclair(EclairConnection {
            id: NodeId::Alias("eclair-node".to_string()),
            base_url: "127.0.0.1:8080".to_string(),
            api_username: "".to_string(),
            api_password: "eclair-password".to_string(),
        }),
        NodeConnection::LdkServer(LdkServerConnection {
            address: "https://127.0.0.1:3000".to_string(),
            api_key: "6d6b3f5e".to_string(),
            cert: "/tmp/simln-test/ldk-tls.crt".to_string(),
        }),
    ];
    let handles: Vec<NodeHandle> = vec![];
    let params = SimFile::new(ConfigFragment::RealNodes(connections))
        .scenario(&Scenario::Random { excludes: vec![] }, &handles)
        .parse_params()
        .unwrap();
    assert_eq!(params.nodes.len(), 3);
    assert!(params.sim_network.is_empty());
    assert!(matches!(params.nodes[0], NodeConnection::Lnd(_)));
    assert!(matches!(params.nodes[1], NodeConnection::Eclair(_)));
    assert!(matches!(params.nodes[2], NodeConnection::LdkServer(_)));
}
