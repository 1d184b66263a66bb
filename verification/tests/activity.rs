//! The generation of payments.
use bitcoin::secp256k1::{PublicKey as CurveKey, Secp256k1, SecretKey};
use rand::Rng;
use simln::defined_activity::DefinedPaymentActivity;
use simln::executors::{activity_executors, random_activity_nodes};
use simln::generator::{get_payment_delay, DestinationGenerator, PaymentGenerator};
use simln::node::{
    ActivityDefinition, NodeInfo, PaymentGenerationError, RandomActivityError, SimulationError, ValueOrRange,
};
use simln::primitives::{NodeFeatures, PublicKey};
use simln::random_activity::{NetworkGraphView, RandomPaymentActivity};
use simln::rng::MutRng;
use simln::tasks::{eligible_capacity, EventProducer, ProducerAction, SimulationEvent};

fn get_random_key() -> PublicKey {
    let secret: [u8; 32] = rand::random();
    match SecretKey::from_slice(&secret) {
        Ok(secret) => PublicKey(CurveKey::from_secret_key(&Secp256k1::new(), &secret).serialize()),
        Err(_) => get_random_key(),
    }
}

fn get_random_int(s: u64, e: u64) -> u64 {
    rand::thread_rng().gen_range(s..e)
}

fn create_nodes(n: usize, node_capacity: u64) -> Vec<(NodeInfo, u64)> {
    (1..=n)
        .map(|_| {
            (
                NodeInfo { pubkey: get_random_key(), alias: String::new(), features: NodeFeatures::empty() },
                node_capacity,
            )
        })
        .collect()
}

#[test]
fn create_seeded_mut_rng() {
    let seeds = vec![u64::MIN, u64::MAX];

    for seed in seeds {
        let mut rng_1 = MutRng::new(Some((seed, None)));
        let mut rng_2 = MutRng::new(Some((seed, None)));

        assert_eq!(rng_1.next_u64(), rng_2.next_u64())
    }
}

#[test]
fn create_unseeded_mut_rng() {
    let mut rng_1 = MutRng::new(None);
    let mut rng_2 = MutRng::new(None);

    assert_ne!(rng_1.next_u64(), rng_2.next_u64())
}

#[test]
fn create_salted_mut_rng() {
    let pk1 = get_random_key();
    let pk2 = get_random_key();

    let mut rng1 = MutRng::new(Some((42, Some(&pk1))));
    let mut rng2 = MutRng::new(Some((42, Some(&pk2))));

    let mut seq1 = Vec::new();
    let mut seq2 = Vec::new();

    for _ in 0..10 {
        seq1.push(rng1.next_u64());
        seq2.push(rng2.next_u64());
    }

    assert_ne!(seq1, seq2);

    let mut rng1_again = MutRng::new(Some((42, Some(&pk1))));
    let mut seq1_again = Vec::new();

    for _ in 0..10 {
        seq1_again.push(rng1_again.next_u64());
    }

    assert_eq!(seq1, seq1_again);
}

#[test]
fn numbers_go_on_with_the_position() {
    let mut rng = MutRng::new(Some((7, None)));
    let numbers: Vec<u64> = (0..5).map(|_| rng.next_u64()).collect();
    assert!(numbers.windows(2).all(|w| w[0] != w[1]));
    // A weight of zero is never picked.
    for _ in 0..20 {
        assert_eq!(rng.pick_weighted(&vec![0, 3, 0]), 1);
    }
}

struct MockGenerator {
    start: Option<u64>,
    wait: u64,
}

impl PaymentGenerator for MockGenerator {
    fn payment_start(&self) -> Option<u64> {
        self.start
    }
    fn payment_count(&self) -> Option<u64> {
        None
    }
    fn next_payment_wait(&self) -> Result<u64, PaymentGenerationError> {
        Ok(self.wait)
    }
    fn payment_amount(&self, _: Option<u64>) -> Result<u64, PaymentGenerationError> {
        Err(PaymentGenerationError("no amount".to_string()))
    }
}

#[test]
fn test_no_payment_delay() {
    // Setup mocked generator to have no start time and send payments every 5 seconds.
    let payment_interval = 5;
    let mock_generator = MockGenerator { start: None, wait: payment_interval };

    assert_eq!(get_payment_delay(0, &mock_generator).unwrap(), payment_interval);
    assert_eq!(get_payment_delay(1, &mock_generator).unwrap(), payment_interval);
}

#[test]
fn test_payment_delay() {
    // Setup mocked generator to have a start delay and payment interval with different values.
    let start_delay = 10;
    let payment_interval = 5;
    let mock_generator = MockGenerator { start: Some(start_delay), wait: payment_interval };

    assert_eq!(get_payment_delay(0, &mock_generator).unwrap(), start_delay);
    assert_eq!(get_payment_delay(1, &mock_generator).unwrap(), payment_interval);
}

#[test]
fn test_defined_activity_generator() {
    let node = create_nodes(1, 100000);
    let node = &node.first().unwrap().0;

    let source = get_random_key();
    let payment_amt = 50;

    let mut generator = DefinedPaymentActivity::new(
        node.clone(),
        None,
        None,
        ValueOrRange::Value(60),
        ValueOrRange::Value(payment_amt),
    );

    let (dest, dest_capacity) = generator.choose_destination(source).unwrap();
    assert_eq!(node.pubkey, dest.pubkey);
    assert!(dest_capacity.is_none());

    assert_eq!(payment_amt, generator.payment_amount(None).unwrap());
    assert!(matches!(generator.payment_amount(Some(10)), Err(PaymentGenerationError(..))));
}

#[test]
fn defined_activities_stay_within_their_ranges() {
    let node = create_nodes(1, 1).remove(0).0;
    let text = format!("static payment of (10-20) to {} every (1-4)s", node.to_text());
    let generator = DefinedPaymentActivity::new(
        node,
        Some(3),
        Some(9),
        ValueOrRange::Range(1, 4),
        ValueOrRange::Range(10, 20),
    );
    assert_eq!(generator.to_text(), text);
    assert_eq!(generator.payment_start(), Some(3));
    assert_eq!(generator.payment_count(), Some(9));
    for _ in 0..100 {
        assert!((1..4).contains(&generator.next_payment_wait().unwrap()));
        assert!((10..20).contains(&generator.payment_amount(None).unwrap()));
    }
}

#[test]
fn test_new() {
    // Check that we need, at least, two nodes
    let rng = || MutRng::new(Some((u64::MAX, None)));
    for i in 0..2 {
        assert!(matches!(
            NetworkGraphView::new(create_nodes(i, 42 * (i as u64 + 1)), rng()),
            Err(RandomActivityError::ValueError { .. })
        ));
    }

    // Check that, even if we have two nodes, the node capacity of all of them must be greater than 0
    // One of them is 0
    let mut nodes = create_nodes(1, 0);
    nodes.extend(create_nodes(1, 21));
    assert!(matches!(
        NetworkGraphView::new(nodes, rng()),
        Err(RandomActivityError::InsufficientCapacity { .. })
    ));

    // All of them are 0
    assert!(matches!(
        NetworkGraphView::new(create_nodes(2, 0), rng()),
        Err(RandomActivityError::InsufficientCapacity { .. })
    ));

    // Otherwise we should be good
    assert!(NetworkGraphView::new(create_nodes(2, 42), rng()).is_ok());
}

#[test]
fn test_sample_node_by_capacity() {
    // A completely unrealistic yet pathological setup in where a single node has the vast majority of the network's
    // capacity, while every other single node has almost none. Even in this extreme and unrealistic situation, the
    // method returns rather fast.
    let small_node_count = 999;
    let big_node_count = 1;
    let small_node_capacity = 1_000;
    let big_node_capacity = small_node_capacity * small_node_count as u64;

    let mut nodes = create_nodes(small_node_count, small_node_capacity);
    nodes.extend(create_nodes(big_node_count, big_node_capacity));
    let big_node = nodes.last().unwrap().0.pubkey;

    let rng = MutRng::new(Some((u64::MAX, None)));
    let mut view = NetworkGraphView::new(nodes, rng).unwrap();

    for _ in 0..10 {
        let (node, capacity) = view.choose_destination(big_node).unwrap();
        assert_ne!(node.pubkey, big_node);
        assert_eq!(capacity, Some(small_node_capacity));
    }
}

#[test]
fn the_order_of_nodes_does_not_matter() {
    let nodes = create_nodes(8, 500);
    let mut turned = nodes.clone();
    turned.reverse();
    let mut view_1 = NetworkGraphView::new(nodes.clone(), MutRng::new(Some((3, None)))).unwrap();
    let mut view_2 = NetworkGraphView::new(turned, MutRng::new(Some((3, None)))).unwrap();
    assert_eq!(view_1.to_text(), "network graph view with: 8 channels");
    for _ in 0..20 {
        assert_eq!(
            view_1.choose_destination(nodes[0].0.pubkey).unwrap().0.pubkey,
            view_2.choose_destination(nodes[0].0.pubkey).unwrap().0.pubkey
        );
    }
}

#[test]
fn random_activity_test_new() {
    // For the payment activity generator to fail during construction either the provided capacity must fail
    // validation or one of its parameters be zero. If the `capacity < expected_payment_amnt / 2`, the generator will
    // fail building
    let expected_payment = get_random_int(1, 100);
    assert!(RandomPaymentActivity::new(2 * expected_payment, expected_payment, false).is_ok());
    assert!(matches!(
        RandomPaymentActivity::new(2 * expected_payment, expected_payment + 1, false),
        Err(RandomActivityError::InsufficientCapacity { .. })
    ));

    // None of the parameters can be zero.
    assert!(matches!(
        RandomPaymentActivity::new(0, get_random_int(1, 10), false),
        Err(RandomActivityError::ValueError { .. })
    ));
    assert!(matches!(
        RandomPaymentActivity::new(get_random_int(1, 10), 0, false),
        Err(RandomActivityError::ValueError { .. })
    ));
    assert!(matches!(
        RandomPaymentActivity::new(get_random_int(1, 10), get_random_int(1, 10), true),
        Err(RandomActivityError::ValueError { .. })
    ));
}

#[test]
fn test_validate_capacity() {
    // There's not much to be tested here, given a `node_capacity` and an `expected_payment`
    // if the former over two is smaller than the latter, the function will error out
    for _ in 0..=get_random_int(20, 100) {
        let capacity = get_random_int(0, 100);
        let payment_amt = get_random_int(0, 100);

        let r = RandomPaymentActivity::validate_capacity(capacity, payment_amt);
        if capacity < 2 * payment_amt {
            assert!(matches!(r, Err(RandomActivityError::InsufficientCapacity { .. })));
        } else {
            assert!(r.is_ok());
        }
    }
    match RandomPaymentActivity::validate_capacity(9, 5) {
        Err(RandomActivityError::InsufficientCapacity(m)) => {
            assert_eq!(m, "node needs at least 10 capacity (has: 9) to process expected payment amount: 5")
        }
        _ => panic!("the capacity does not suffice"),
    }
}

#[test]
fn test_payment_amount() {
    // Payment amounts can only be generated if the payment limit for the node pair (half of the smaller node's
    // capacity) is at least the expected payment amount.
    let expected_payment = get_random_int(1, 100);
    let source_capacity = 2 * expected_payment;
    let pag = RandomPaymentActivity::new(source_capacity, expected_payment, false).unwrap();

    // Wrong cases
    for i in 0..source_capacity {
        assert!(matches!(pag.payment_limit(Some(i)), Err(PaymentGenerationError(..))))
    }

    // All other cases will work. We are not going to exhaustively test for the rest up to u64::MAX, let just pick a
    // bunch
    for i in source_capacity + 1..100 * source_capacity {
        assert!(pag.payment_limit(Some(i)).is_ok())
    }

    // We can even try really high numbers to make sure they are not troublesome
    for i in u64::MAX - 10000..u64::MAX {
        assert_eq!(pag.payment_limit(Some(i)).unwrap(), expected_payment)
    }

    assert!(matches!(pag.payment_limit(None), Err(PaymentGenerationError(..))));
}

#[test]
fn random_activity_is_set_up_for_capable_nodes() {
    let nodes = create_nodes(3, 0);
    let channels: Vec<(NodeInfo, Vec<u64>)> = vec![
        (nodes[0].0.clone(), vec![600, 600]),
        (nodes[1].0.clone(), vec![1_000]),
        (nodes[2].0.clone(), vec![100]),
    ];
    assert_eq!(eligible_capacity(&vec![600, 600], 300), Some(600));
    assert_eq!(eligible_capacity(&vec![600, 599], 300), None);
    assert_eq!(eligible_capacity(&vec![100], 300), None);
    let setup = random_activity_nodes(&channels, 200, false, Some(5)).unwrap();
    let keys: Vec<PublicKey> = setup.executors.iter().map(|e| e.source_info.pubkey).collect();
    assert_eq!(keys, vec![nodes[0].0.pubkey, nodes[1].0.pubkey]);
    assert_eq!(setup.executors[0].activity.source_capacity, 600);
    // The seed is salted with the key of each node.
    for executor in setup.executors.iter() {
        let mut salted = MutRng::new(Some((5, Some(&executor.source_info.pubkey))));
        let mut rng = executor.rng;
        assert_eq!(rng.next_u64(), salted.next_u64());
    }
    // Half of the channels of the last node does not suffice, so it is left out.
    let channels = vec![
        (nodes[0].0.clone(), vec![400]),
        (nodes[1].0.clone(), vec![400]),
        (nodes[2].0.clone(), vec![300]),
    ];
    let setup = random_activity_nodes(&channels, 100, false, Some(1)).unwrap();
    let keys: Vec<PublicKey> = setup.executors.iter().map(|e| e.source_info.pubkey).collect();
    assert_eq!(keys, vec![nodes[0].0.pubkey, nodes[1].0.pubkey]);
    assert!(matches!(
        random_activity_nodes(&channels, 100, true, Some(1)),
        Err(SimulationError::RandomActivityError(RandomActivityError::ValueError(m))) if m == "multiplier cannot be zero"
    ));
    assert!(matches!(
        random_activity_nodes(&vec![(nodes[0].0.clone(), vec![600, 600])], 200, false, Some(5)),
        Err(SimulationError::RandomActivityError(RandomActivityError::ValueError(_)))
    ));
}

#[test]
fn producers_send_as_often_as_they_are_to() {
    let nodes = create_nodes(2, 0);
    let activity = vec![ActivityDefinition {
        source: nodes[0].0.clone(),
        destination: nodes[1].0.clone(),
        start_secs: Some(4),
        count: Some(3),
        interval_secs: ValueOrRange::Value(2),
        amount_msat: ValueOrRange::Value(70),
    }];
    let mut destinations = activity_executors(&activity).remove(0).generator;
    let kits = activity_executors(&activity);
    assert_eq!(kits.len(), 1);
    let payments = &kits[0].generator;
    let mut producer = EventProducer::new(kits[0].source_info.clone());
    let mut waits = vec![];
    loop {
        match producer.next(payments) {
            ProducerAction::Sleep(wait) => waits.push(wait),
            ProducerAction::Stop(Ok(())) => break,
            _ => panic!("there is no error"),
        }
        match producer.generate(&mut destinations, payments) {
            ProducerAction::Send(SimulationEvent::SendPayment(destination, amount)) => {
                assert_eq!(destination.pubkey, nodes[1].0.pubkey);
                assert_eq!(amount, 70);
                producer.sent();
            }
            _ => panic!("the payment is sent"),
        }
    }
    assert_eq!(waits, vec![4, 2, 2]);
}
