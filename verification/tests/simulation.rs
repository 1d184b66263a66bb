//! The validation of simulations, and what runs them.
use bitcoin::secp256k1::{PublicKey as CurveKey, Secp256k1, SecretKey};
use simln::batched_writer::{BatchedWriter, QueueStep};
use simln::clock::{check_runtime, Clock, SimulationClock};
use simln::keyed::KeyedMap;
use simln::node::{ActivityDefinition, LightningError, NodeInfo, SimulationError, ValueOrRange};
use simln::payment::{Payment, PaymentOutcome, PaymentResult, PaymentResultLogger, Timestamp};
use simln::primitives::{Network, NodeFeatures, PaymentHash, PublicKey};
use simln::results::{ResultsAction, ResultsConsumer};
use simln::retry::{Backoff, Retry, RetryStep};
use simln::run::{shuts_down, RunEvent};
use simln::simulation::{ControlledNode, Simulation, SimulationCfg, WriteResults};
use simln::tasks::{
    produce_simulation_results, results_file_name, track_payment_result, ConsumerAction, ConsumerInput, EventConsumer,
    OutputAction, SimulationEvent, SimulationOutput,
};

fn get_random_key() -> PublicKey {
    let secret: [u8; 32] = rand::random();
    match SecretKey::from_slice(&secret) {
        Ok(secret) => PublicKey(CurveKey::from_secret_key(&Secp256k1::new(), &secret).serialize()),
        Err(_) => get_random_key(),
    }
}

fn create_node(keysend: bool) -> NodeInfo {
    let mut features = NodeFeatures::empty();
    if keysend {
        features.set_keysend_optional();
    }
    NodeInfo { pubkey: get_random_key(), alias: String::new(), features }
}

fn create_simulation(nodes: &[(NodeInfo, Network)]) -> Simulation {
    let mut clients = KeyedMap::new();
    for (info, network) in nodes {
        clients.insert(info.pubkey, ControlledNode { info: info.clone(), network: *network });
    }
    Simulation::new(SimulationCfg::new(Some(0), 0, None, None), clients)
}

fn keysend_nodes(n: usize) -> Vec<(NodeInfo, Network)> {
    (0..n).map(|_| (create_node(true), Network::Regtest)).collect()
}

fn nodes_on(networks: Vec<Network>) -> Vec<(NodeInfo, Network)> {
    networks.into_iter().map(|network| (create_node(true), network)).collect()
}

fn create_activity(source: NodeInfo, destination: NodeInfo, amount_msat: u64) -> ActivityDefinition {
    ActivityDefinition {
        source,
        destination,
        start_secs: None,
        count: None,
        interval_secs: ValueOrRange::Value(5),
        amount_msat: ValueOrRange::Value(amount_msat),
    }
}

/// An empty activity (for random generation) is valid when two nodes with keysend support are present.
#[test]
fn test_validate_activity_empty_with_sufficient_nodes() {
    let simulation = create_simulation(&keysend_nodes(3));
    assert!(simulation.validate_activity(&vec![]).is_ok());
}

/// An empty activity fails validation with only one keysend-enabled node.
#[test]
fn test_validate_activity_empty_with_insufficient_nodes() {
    let result = create_simulation(&keysend_nodes(1)).validate_activity(&vec![]);
    assert!(result.is_err());
    assert!(
        matches!(result, Err(LightningError::ValidationError(msg)) if msg.contains("At least two nodes required"))
    );
}

/// An empty activity fails when one of two nodes doesn't support keysend.
#[test]
fn test_validate_activity_empty_with_non_keysend_node() {
    let nodes = vec![(create_node(true), Network::Regtest), (create_node(false), Network::Regtest)];
    let result = create_simulation(&nodes).validate_activity(&vec![]);
    assert!(result.is_err());
    assert!(matches!(result, Err(LightningError::ValidationError(msg)) if msg.contains("must support keysend")));
}

/// An activity fails when the source node isn't in the clients map.
#[test]
fn test_validate_activity_with_missing_source_node() {
    let nodes = keysend_nodes(1);
    let missing_node = create_node(false);
    let dest_node = nodes[0].0.clone();

    let activity = create_activity(missing_node, dest_node, 1000);
    let result = create_simulation(&nodes).validate_activity(&vec![activity]);
    assert!(result.is_err());
    assert!(matches!(result, Err(LightningError::ValidationError(msg)) if msg.contains("Source node not found")));
}

/// An activity fails when the destination lacks keysend support.
#[test]
fn test_validate_activity_with_non_keysend_destination() {
    let nodes = keysend_nodes(1);
    let dest_node = create_node(false);

    let activity = create_activity(nodes[0].0.clone(), dest_node, 1000);
    let result = create_simulation(&nodes).validate_activity(&vec![activity]);
    assert!(result.is_err());
    assert!(
        matches!(result, Err(LightningError::ValidationError(msg)) if msg.contains("does not support keysend"))
    );
}

/// An activity with a non-zero amount between two keysend-enabled nodes passes validation.
#[test]
fn test_validate_activity_valid_payment_flow() {
    let nodes = keysend_nodes(1);
    let mut dest_node = create_node(false);
    dest_node.features.set_keysend_optional();

    let activity = create_activity(nodes[0].0.clone(), dest_node, 1000);
    assert!(create_simulation(&nodes).validate_activity(&vec![activity]).is_ok());
}

/// An activity with a zero amount between two keysend-enabled nodes fails.
#[test]
fn test_validate_zero_amount_no_valid() {
    let nodes = keysend_nodes(2);

    let activity = create_activity(nodes[0].0.clone(), nodes[1].0.clone(), 0);
    let result = create_simulation(&nodes).validate_activity(&vec![activity]);
    assert!(result.is_err());
    assert!(matches!(result, Err(LightningError::ValidationError(msg)) if msg.contains("zero values")));
}

/// Validation fails with no nodes.
#[test]
fn test_validate_node_network_empty_nodes() {
    let result = create_simulation(&[]).validate_node_network();
    assert!(result.is_err());
    assert!(
        matches!(result, Err(LightningError::ValidationError(msg)) if msg.contains("we don't control any nodes"))
    );
}

/// A node on Bitcoin mainnet fails validation.
#[test]
fn test_validate_node_network_mainnet_not_supported() {
    let result = create_simulation(&nodes_on(vec![Network::Bitcoin])).validate_node_network();
    assert!(result.is_err());
    assert!(
        matches!(result, Err(LightningError::ValidationError(msg)) if msg.contains("mainnet is not supported"))
    );
}

/// Nodes on Testnet and Regtest fail validation.
#[test]
fn test_validate_node_network_mixed_networks() {
    let result = create_simulation(&nodes_on(vec![Network::Testnet, Network::Regtest])).validate_node_network();
    assert!(result.is_err());
    assert!(
        matches!(result, Err(LightningError::ValidationError(msg)) if msg.contains("nodes are not on the same network"))
    );
}

/// Three Testnet nodes pass validation.
#[test]
fn test_validate_node_network_multiple_nodes_same_network() {
    let nodes = nodes_on(vec![Network::Testnet, Network::Testnet, Network::Testnet]);
    assert!(create_simulation(&nodes).validate_node_network().is_ok());
}

#[test]
fn test_validate_node_network_single_node_valid_network() {
    assert!(create_simulation(&nodes_on(vec![Network::Testnet])).validate_node_network().is_ok());
}

#[test]
fn runs_are_planned() {
    let nodes = keysend_nodes(3);
    let simulation = create_simulation(&nodes);
    let activity = vec![
        create_activity(nodes[2].0.clone(), nodes[0].0.clone(), 10),
        create_activity(nodes[2].0.clone(), nodes[1].0.clone(), 10),
    ];
    let plan = simulation.internal_run(&activity).unwrap();
    assert!(simulation.internal_run(&vec![create_activity(create_node(true), nodes[0].0.clone(), 10)]).is_err());
    assert_eq!(plan.total_time, Some(0));
    // Only nodes that are asked for get a consumer, and each gets one.
    let keys = simulation.dispatch_consumers(&vec![nodes[2].0.pubkey, nodes[2].0.pubkey]);
    assert_eq!(keys, vec![nodes[2].0.pubkey]);
    assert_eq!(simulation.get_total_payments(), 0);
    assert!(!shuts_down(RunEvent::TaskCompleted));
    assert!(shuts_down(RunEvent::TotalTimeElapsed));
}

/// Keeps the records that are queued, and those that were written.
struct Records {
    writer: BatchedWriter,
    queued: Vec<u32>,
    written: Vec<u32>,
}

impl Records {
    fn new(batch_size: u32) -> Self {
        Records { writer: BatchedWriter::new(batch_size).unwrap(), queued: vec![], written: vec![] }
    }

    fn flush(&mut self) {
        self.written.append(&mut self.queued);
    }

    fn queue(&mut self, record: Result<u32, String>) -> Result<(), String> {
        let serialized = match record {
            Ok(id) => {
                self.queued.push(id);
                Ok(())
            }
            Err(e) => Err(e),
        };
        match self.writer.queue(serialized) {
            QueueStep::Buffered => Ok(()),
            QueueStep::Flush => {
                self.flush();
                Ok(())
            }
            QueueStep::FlushAndFail(e) => {
                self.flush();
                match e {
                    SimulationError::CsvError(m) => Err(m),
                    _ => panic!("records are written to a table"),
                }
            }
        }
    }

    fn write(&mut self, force: bool) {
        if self.writer.write(force) {
            self.flush();
        }
    }
}

#[test]
fn test_basic_write_and_flush_on_batch_size() {
    let mut records = Records::new(2);
    records.queue(Ok(1)).unwrap();
    records.queue(Ok(2)).unwrap();
    assert_eq!(records.written, vec![1, 2]);

    // Queuing a record that doesn't hit our batch limit shouldn't flush.
    records.queue(Ok(3)).unwrap();
    assert_eq!(records.written, vec![1, 2]);

    // Force flushing should write even if batch isn't hit.
    records.write(true);
    assert_eq!(records.written, vec![1, 2, 3]);
}

#[test]
fn test_forced_flush() {
    let mut records = Records::new(10);
    records.queue(Ok(1)).unwrap();
    records.write(false);
    assert!(records.written.is_empty());
    records.write(true);
    assert_eq!(records.written, vec![1]);
}

#[test]
fn test_zero_batch_size() {
    assert!(BatchedWriter::new(0).is_err());
}

#[test]
fn test_serialization_error() {
    let mut records = Records::new(2);
    records.queue(Ok(1)).unwrap();

    let result = records.queue(Err("intentional failure".to_string()));
    assert!(result.is_err());

    records.write(true);
    assert_eq!(records.written, vec![1]);
}

/// The simulation clock advances by exactly the slept duration.
#[test]
fn test_simulation_clock_advances_on_sleep() {
    let secs = |n: u64| n * 1_000_000_000;
    let start = secs(1_700_000_000);
    let clock = SimulationClock::new(start);

    // No virtual time has elapsed yet.
    assert_eq!(clock.now(0), start);

    // Sleeping advances virtual time by exactly the requested duration.
    assert_eq!(clock.now(secs(3600)), start + secs(3600));

    // A subsequent sleep continues from where the previous one left off.
    assert_eq!(clock.now(secs(3600) + secs(60)), start + secs(3660));
}

/// A simulated day elapses, and the clock reflects the advance.
#[test]
fn test_block_on_virtual_time_advances_virtually() {
    let start = 1_700_000_000 * 1_000_000_000;
    assert!(check_runtime(false).is_ok());
    assert_eq!(SimulationClock::new(start).now(86_400 * 1_000_000_000), start + 86_400 * 1_000_000_000);
}

/// Calling from within a runtime is rejected rather than panicking.
#[test]
fn test_block_on_virtual_time_rejects_nested_runtime() {
    assert!(check_runtime(true).is_err());
}

#[test]
fn test_succeeds_after_failures() {
    let mut attempts = 0;
    let mut retry = Retry::new(Backoff::default());
    let mut elapsed = 0;
    let result = loop {
        let outcome = if attempts < 2 { Err("not yet") } else { Ok(42) };
        attempts += 1;
        match outcome {
            Ok(value) => break value,
            Err(e) => match retry.with_backoff("test op", elapsed, e) {
                RetryStep::Wait(wait) => elapsed += wait,
                RetryStep::GiveUp(e) => panic!("{}", e),
            },
        }
    };

    assert_eq!(result, 42);
    assert_eq!(attempts, 3);
}

#[test]
fn test_times_out_with_context() {
    let backoff = Backoff { initial: 1_000_000, max: 2_000_000, timeout: 20_000_000 };
    let mut retry = Retry::new(backoff);
    let mut elapsed = 0;
    let msg = loop {
        match retry.with_backoff("flaky node startup", elapsed, "connection refused") {
            RetryStep::Wait(wait) => elapsed += wait,
            RetryStep::GiveUp(e) => break e,
        }
    };

    assert!(msg.contains("flaky node startup"));
    assert!(msg.contains("connection refused"));
    assert_eq!(msg, "flaky node startup: not ready after 19ms, last error: connection refused");
}

#[test]
fn delays_double_up_to_the_maximum() {
    let mut retry = Retry::new(Backoff::slow());
    let delays: Vec<u64> = (0..6)
        .map(|_| match retry.with_backoff("sync", 0, "") {
            RetryStep::Wait(wait) => wait / 1_000_000_000,
            RetryStep::GiveUp(e) => panic!("{}", e),
        })
        .collect();
    assert_eq!(delays, vec![1, 2, 4, 8, 10, 10]);
}

fn payment(hash: Option<PaymentHash>) -> Payment {
    Payment {
        source: PublicKey([2; 33]),
        destination: PublicKey([3; 33]),
        amount_msat: 1_000,
        hash,
        dispatch_time: Timestamp { secs: 5, nanos: 250_000_000 },
    }
}

#[test]
fn events_are_consumed_until_shutdown() {
    let source = PublicKey([2; 33]);
    let event = || {
        let destination =
            NodeInfo { pubkey: PublicKey([3; 33]), alias: String::new(), features: NodeFeatures::empty() };
        ConsumerInput::Event(SimulationEvent::SendPayment(destination, 1_000), Timestamp { secs: 5, nanos: 250_000_000 })
    };
    let mut consumer = EventConsumer::new(source);
    assert!(matches!(
        consumer.consume_events(event()),
        ConsumerAction::SendPayment(PublicKey(k), 1_000) if k == [3; 33]
    ));
    match consumer.consume_events(ConsumerInput::Sent(Ok(PaymentHash([7; 32])))) {
        ConsumerAction::Report(SimulationOutput::SendPaymentSuccess(p)) => {
            assert_eq!(p.to_text(), payment(Some(PaymentHash([7; 32]))).to_text())
        }
        _ => panic!("the payment was sent"),
    }
    assert!(matches!(consumer.consume_events(ConsumerInput::Reported), ConsumerAction::Receive));
    assert!(matches!(consumer.consume_events(event()), ConsumerAction::SendPayment(_, _)));
    let refused = LightningError::SendPaymentError("no balance".to_string());
    match consumer.consume_events(ConsumerInput::Sent(Err(refused))) {
        ConsumerAction::Report(SimulationOutput::SendPaymentFailure(p, result)) => {
            assert_eq!(p.to_text(), payment(None).to_text());
            assert_eq!(result, PaymentResult::not_dispatched());
        }
        _ => panic!("the payment was not sent"),
    }
    assert!(matches!(consumer.consume_events(ConsumerInput::Shutdown), ConsumerAction::Stop(Ok(()))));

    let mut consumer = EventConsumer::new(source);
    consumer.consume_events(event());
    let broken = LightningError::PermanentError("node is down".to_string());
    assert!(matches!(
        consumer.consume_events(ConsumerInput::Sent(Err(broken))),
        ConsumerAction::Stop(Err(SimulationError::LightningError(LightningError::PermanentError(_))))
    ));
}

#[test]
fn outputs_lead_to_results() {
    let mut nodes: KeyedMap<PublicKey, u8> = KeyedMap::new();
    let sent = SimulationOutput::SendPaymentSuccess(payment(Some(PaymentHash([7; 32]))));
    assert!(matches!(
        produce_simulation_results(&nodes, &sent),
        OutputAction::Stop(SimulationError::MissingNodeError(_))
    ));
    nodes.insert(PublicKey([2; 33]), 0);
    assert!(matches!(produce_simulation_results(&nodes, &sent), OutputAction::Track(_)));
    let failed = SimulationOutput::SendPaymentFailure(payment(None), PaymentResult::not_dispatched());
    assert!(matches!(produce_simulation_results(&nodes, &failed), OutputAction::Report(_, _)));

    let success = PaymentResult { htlc_count: 1, payment_outcome: PaymentOutcome::Success };
    assert_eq!(track_payment_result(&payment(Some(PaymentHash([7; 32]))), Ok(success)), success);
    assert_eq!(
        track_payment_result(&payment(Some(PaymentHash([7; 32]))), Err(LightningError::InvalidPaymentHash)),
        PaymentResult::track_payment_failed()
    );
    assert_eq!(track_payment_result(&payment(None), Ok(success)), PaymentResult::not_dispatched());
    assert_eq!(results_file_name(77), "simulation_77.csv");
}

#[test]
fn results_are_counted() {
    let success = PaymentResult { htlc_count: 1, payment_outcome: PaymentOutcome::Success };
    let failure = PaymentResult { htlc_count: 0, payment_outcome: PaymentOutcome::RouteNotFound };
    let write = Some(WriteResults { results_dir: ".".to_string(), batch_size: 2 });
    assert!(ResultsConsumer::new(
        PaymentResultLogger::new(),
        &Some(WriteResults { results_dir: ".".to_string(), batch_size: 0 })
    )
    .is_err());
    let mut consumer = ResultsConsumer::new(PaymentResultLogger::new(), &write).unwrap();
    let p = payment(None);
    assert!(matches!(consumer.consume_simulation_results(&p, &success, Ok(())), ResultsAction::Wait));
    assert!(matches!(consumer.consume_simulation_results(&p, &failure, Ok(())), ResultsAction::Flush));
    assert!(matches!(
        consumer.consume_simulation_results(&p, &success, Err("disk full".to_string())),
        ResultsAction::FlushAndFail(SimulationError::CsvError(_))
    ));
    assert_eq!(consumer.logger.success_payment, 2);
    assert_eq!(consumer.logger.failed_payment, 1);
    assert_eq!(consumer.logger.total_sent, 3_000);
    assert_eq!(consumer.logger.total_attempts(), 3);
    let mut silent = ResultsConsumer::new(PaymentResultLogger::new(), &None).unwrap();
    assert!(matches!(silent.consume_simulation_results(&p, &success, Ok(())), ResultsAction::Wait));
}

#[test]
fn payments_have_texts() {
    let text = payment(Some(PaymentHash([0xab; 32]))).to_text_at("now");
    assert_eq!(
        text,
        format!(
            "Payment {} dispatched at now sending 1000 msat from {} -> {}.",
            "ab".repeat(32),
            "02".repeat(33),
            "03".repeat(33)
        )
    );
    assert!(payment(None).to_text().starts_with("Payment  dispatched at 5.25s sending 1000 msat from 0202"));
    assert_eq!(
        PaymentResult { htlc_count: 2, payment_outcome: PaymentOutcome::IndexFailure(4) }.to_text(),
        "Payment outcome: IndexFailure(4) with 2 htlcs"
    );
}
