//! The state of channels.
use bitcoin::secp256k1::{PublicKey as CurveKey, Secp256k1, SecretKey};
use simln::channel::{ChannelPolicy, ChannelState, CriticalError, ForwardingError, Htlc, SimulatedChannel};
use simln::node::{ShortChannelID, SimulationError};
use simln::primitives::{PaymentHash, PublicKey};

fn get_random_key() -> PublicKey {
    let secret: [u8; 32] = rand::random();
    match SecretKey::from_slice(&secret) {
        Ok(secret) => PublicKey(CurveKey::from_secret_key(&Secp256k1::new(), &secret).serialize()),
        Err(_) => get_random_key(),
    }
}

fn create_test_policy(max_in_flight_msat: u64) -> ChannelPolicy {
    ChannelPolicy {
        pubkey: get_random_key(),
        alias: String::default(),
        max_htlc_count: 10,
        max_in_flight_msat,
        min_htlc_size_msat: 2,
        max_htlc_size_msat: max_in_flight_msat / 2,
        cltv_expiry_delta: 10,
        base_fee: 1000,
        fee_rate_prop: 5000,
    }
}

fn assert_channel_balances(state: &ChannelState, local_balance: u64, in_flight_len: usize, in_flight_total: u64) {
    assert_eq!(state.local_balance_msat, local_balance);
    assert_eq!(state.in_flight.len(), in_flight_len);
    assert_eq!(state.in_flight_total(), in_flight_total);
}

/// State updates related to adding and removing HTLCs to a channel.
#[test]
fn test_channel_state_transitions() {
    let local_balance = 100_000_000;
    let mut channel_state = ChannelState::new(create_test_policy(local_balance / 2), local_balance);

    // Basic sanity check that we Initialize the channel correctly.
    assert_channel_balances(&channel_state, local_balance, 0, 0);

    // Add a few HTLCs to our internal state and assert that balances are as expected.
    let hash_1 = PaymentHash([1; 32]);
    let htlc_1 = Htlc { amount_msat: 1000, cltv_expiry: 40 };

    assert!(channel_state.add_outgoing_htlc(hash_1, htlc_1).is_ok());
    assert_channel_balances(&channel_state, local_balance - htlc_1.amount_msat, 1, htlc_1.amount_msat);

    // Try to add a htlc with the same payment hash and assert that we fail because we enforce one htlc per hash
    // at present.
    assert!(matches!(
        channel_state.add_outgoing_htlc(hash_1, htlc_1),
        Err(CriticalError::PaymentHashExists(_))
    ));

    // Add a second, distinct htlc to our in-flight state.
    let hash_2 = PaymentHash([2; 32]);
    let htlc_2 = Htlc { amount_msat: 1000, cltv_expiry: 40 };

    assert!(channel_state.add_outgoing_htlc(hash_2, htlc_2).is_ok());
    assert_channel_balances(
        &channel_state,
        local_balance - htlc_1.amount_msat - htlc_2.amount_msat,
        2,
        htlc_1.amount_msat + htlc_2.amount_msat,
    );

    // Remove our second htlc with a failure so that our in-flight drops and we return the balance.
    assert!(channel_state.remove_outgoing_htlc(&hash_2).is_ok());
    channel_state.settle_outgoing_htlc(htlc_2.amount_msat, false);
    assert_channel_balances(&channel_state, local_balance - htlc_1.amount_msat, 1, htlc_1.amount_msat);

    // Try to remove the same htlc and assert that we fail because the htlc can't be found.
    assert!(matches!(
        channel_state.remove_outgoing_htlc(&hash_2),
        Err(CriticalError::PaymentHashNotFound(_))
    ));

    // Finally, remove our original htlc with success and assert that our local balance is accordingly updated.
    assert!(channel_state.remove_outgoing_htlc(&hash_1).is_ok());
    channel_state.settle_outgoing_htlc(htlc_1.amount_msat, true);
    assert_channel_balances(&channel_state, local_balance - htlc_1.amount_msat, 0, 0);
}

/// Policy checks applied when forwarding a htlc over a channel.
#[test]
fn test_htlc_forward() {
    let local_balance = 140_000;
    let channel_state = ChannelState::new(create_test_policy(local_balance / 2), local_balance);

    // CLTV delta insufficient (one less than required).
    assert!(matches!(
        channel_state.check_htlc_forward(channel_state.policy.cltv_expiry_delta - 1, 0, 0),
        Ok(Err(ForwardingError::InsufficientCltvDelta(_, _)))
    ));

    // Test insufficient fee.
    let htlc_amount = 1000;
    let htlc_fee =
        channel_state.policy.base_fee + (channel_state.policy.fee_rate_prop * htlc_amount) / 1e6 as u64;

    assert!(matches!(
        channel_state.check_htlc_forward(channel_state.policy.cltv_expiry_delta, htlc_amount, htlc_fee - 1),
        Ok(Err(ForwardingError::InsufficientFee(_, _, _, _)))
    ));

    // Test exact and over-estimation of required policy.
    assert!(channel_state
        .check_htlc_forward(channel_state.policy.cltv_expiry_delta, htlc_amount, htlc_fee)
        .is_ok());

    assert!(channel_state
        .check_htlc_forward(channel_state.policy.cltv_expiry_delta * 2, htlc_amount, htlc_fee * 3)
        .is_ok());
}

/// Addition of outgoing htlc to local state.
#[test]
fn test_check_outgoing_addition() {
    // Create test channel with low local liquidity so that we run into failures.
    let local_balance = 100_000;
    let mut channel_state = ChannelState::new(create_test_policy(local_balance / 2), local_balance);

    let mut htlc = Htlc {
        amount_msat: channel_state.policy.max_htlc_size_msat + 1,
        cltv_expiry: channel_state.policy.cltv_expiry_delta,
    };
    // HTLC maximum size exceeded.
    assert!(matches!(
        channel_state.check_outgoing_addition(&htlc),
        Err(ForwardingError::MoreThanMaximum(_, _))
    ));

    // Beneath HTLC minimum size.
    htlc.amount_msat = channel_state.policy.min_htlc_size_msat - 1;
    assert!(matches!(
        channel_state.check_outgoing_addition(&htlc),
        Err(ForwardingError::LessThanMinimum(_, _))
    ));

    // Add two large htlcs so that we will start to run into our in-flight total amount limit.
    let hash_1 = PaymentHash([1; 32]);
    let htlc_1 = Htlc {
        amount_msat: channel_state.policy.max_in_flight_msat / 2,
        cltv_expiry: channel_state.policy.cltv_expiry_delta,
    };

    assert!(channel_state.check_outgoing_addition(&htlc_1).is_ok());
    assert!(channel_state.add_outgoing_htlc(hash_1, htlc_1).is_ok());

    let hash_2 = PaymentHash([2; 32]);
    let htlc_2 = Htlc {
        amount_msat: channel_state.policy.max_in_flight_msat / 2,
        cltv_expiry: channel_state.policy.cltv_expiry_delta,
    };

    assert!(channel_state.check_outgoing_addition(&htlc_2).is_ok());
    assert!(channel_state.add_outgoing_htlc(hash_2, htlc_2).is_ok());

    // Now, assert that we can't add even our smallest htlc size, because we're hit our in-flight amount limit.
    htlc.amount_msat = channel_state.policy.min_htlc_size_msat;
    assert!(matches!(
        channel_state.check_outgoing_addition(&htlc),
        Err(ForwardingError::ExceedsInFlightTotal(_, _))
    ));

    // Resolve both of the htlcs successfully so that the local liquidity is no longer available.
    assert!(channel_state.remove_outgoing_htlc(&hash_1).is_ok());
    channel_state.settle_outgoing_htlc(htlc_1.amount_msat, true);

    assert!(channel_state.remove_outgoing_htlc(&hash_2).is_ok());
    channel_state.settle_outgoing_htlc(htlc_2.amount_msat, true);

    // Now we're going to add many htlcs so that we hit our in-flight count limit (unique payment hash per htlc).
    for i in 0..channel_state.policy.max_htlc_count {
        let hash = PaymentHash([i.try_into().unwrap(); 32]);
        assert!(channel_state.check_outgoing_addition(&htlc).is_ok());
        assert!(channel_state.add_outgoing_htlc(hash, htlc).is_ok());
    }

    // Try to add one more htlc and we should be rejected.
    let htlc_3 = Htlc {
        amount_msat: channel_state.policy.min_htlc_size_msat,
        cltv_expiry: channel_state.policy.cltv_expiry_delta,
    };

    assert!(matches!(
        channel_state.check_outgoing_addition(&htlc_3),
        Err(ForwardingError::ExceedsInFlightCount(_, _))
    ));

    // Resolve all in-flight htlcs.
    for i in 0..channel_state.policy.max_htlc_count {
        let hash = PaymentHash([i.try_into().unwrap(); 32]);
        assert!(channel_state.remove_outgoing_htlc(&hash).is_ok());
        channel_state.settle_outgoing_htlc(htlc.amount_msat, true)
    }

    // Add and settle another htlc to move more liquidity away from our local balance.
    let hash_4 = PaymentHash([1; 32]);
    let htlc_4 = Htlc {
        amount_msat: channel_state.policy.max_htlc_size_msat,
        cltv_expiry: channel_state.policy.cltv_expiry_delta,
    };
    assert!(channel_state.check_outgoing_addition(&htlc_4).is_ok());
    assert!(channel_state.add_outgoing_htlc(hash_4, htlc_4).is_ok());
    assert!(channel_state.remove_outgoing_htlc(&hash_4).is_ok());
    channel_state.settle_outgoing_htlc(htlc_4.amount_msat, true);

    // Finally, assert that we don't have enough balance to forward our largest possible htlc (because of all the
    // htlcs that we've settled) and assert that we fail to a large htlc. The balance assertion here is just a
    // sanity check for the test, which will fail if we change the amounts settled/failed in the test.
    assert!(channel_state.local_balance_msat < channel_state.policy.max_htlc_size_msat);
    assert!(matches!(
        channel_state.check_outgoing_addition(&htlc_4),
        Err(ForwardingError::InsufficientBalance(_, _))
    ));
}

/// Basic functionality of a `SimulatedChannel`, not of the underlying `ChannelState`.
#[test]
fn test_simulated_channel() {
    // Create a test channel with all balance available to node 1 as local liquidity, and none for node_2 to begin
    // with.
    let capacity_msat = 500_000_000;
    let policy_1 = create_test_policy(capacity_msat / 2);
    let policy_2 = create_test_policy(capacity_msat / 2);

    let mut simulated_channel = SimulatedChannel {
        capacity_msat,
        short_channel_id: ShortChannelID::from(123),
        node_1: ChannelState::new(policy_1.clone(), capacity_msat),
        node_2: ChannelState::new(policy_2.clone(), 0),
    };

    // Assert that we're not able to send a htlc over node_2 -> node_1 (no liquidity).
    let hash_1 = PaymentHash([1; 32]);
    let htlc_1 = Htlc { amount_msat: policy_2.min_htlc_size_msat, cltv_expiry: policy_1.cltv_expiry_delta };

    assert!(matches!(
        simulated_channel.add_htlc(&policy_2.pubkey, hash_1, htlc_1),
        Ok(Err(ForwardingError::InsufficientBalance(_, _)))
    ));

    // Assert that we can send a htlc over node_1 -> node_2.
    let hash_2 = PaymentHash([1; 32]);
    let htlc_2 = Htlc { amount_msat: policy_1.max_htlc_size_msat, cltv_expiry: policy_2.cltv_expiry_delta };
    assert!(simulated_channel.add_htlc(&policy_1.pubkey, hash_2, htlc_2).is_ok());

    // Settle the htlc and then assert that we can send from node_2 -> node_2 because the balance has been shifted
    // across channels.
    assert!(simulated_channel.remove_htlc(&policy_1.pubkey, &hash_2, true).is_ok());

    assert!(simulated_channel.add_htlc(&policy_2.pubkey, hash_2, htlc_2).is_ok());

    // Finally, try to add/remove htlcs for a pubkey that is not participating in the channel and assert that we
    // fail.
    let pk = get_random_key();
    assert!(matches!(
        simulated_channel.add_htlc(&pk, hash_2, htlc_2),
        Err(CriticalError::NodeNotFound(_))
    ));

    assert!(matches!(
        simulated_channel.remove_htlc(&pk, &hash_2, true),
        Err(CriticalError::NodeNotFound(_))
    ));
}

fn funded_channel(capacity_msat: u64) -> (SimulatedChannel, PublicKey, PublicKey) {
    let policy_1 = create_test_policy(capacity_msat);
    let policy_2 = create_test_policy(capacity_msat);
    let (key_1, key_2) = (policy_1.pubkey, policy_2.pubkey);
    (SimulatedChannel::new(capacity_msat, ShortChannelID(7), policy_1, policy_2), key_1, key_2)
}

fn funds(c: &SimulatedChannel) -> (u64, u64, u64, u64) {
    (
        c.node_1.local_balance_msat,
        c.node_1.in_flight_total(),
        c.node_2.local_balance_msat,
        c.node_2.in_flight_total(),
    )
}

#[test]
fn funds_are_conserved() {
    let (mut channel, alice, bob) = funded_channel(1_000);
    assert_eq!(funds(&channel), (500, 0, 500, 0));
    let hash = PaymentHash([3; 32]);
    assert!(matches!(channel.add_htlc(&alice, hash, Htlc { amount_msat: 120, cltv_expiry: 9 }), Ok(Ok(0))));
    assert_eq!(funds(&channel), (380, 120, 500, 0));
    assert!(channel.sanity_check().is_ok());
    assert!(matches!(channel.remove_htlc(&alice, &hash, false), Ok((Htlc { amount_msat: 120, cltv_expiry: 9 }, 0))));
    assert_eq!(funds(&channel), (500, 0, 500, 0));
    assert!(matches!(channel.add_htlc(&alice, hash, Htlc { amount_msat: 120, cltv_expiry: 9 }), Ok(Ok(1))));
    assert!(channel.remove_htlc(&alice, &hash, true).is_ok());
    assert_eq!(funds(&channel), (380, 0, 620, 0));
    assert!(matches!(channel.add_htlc(&bob, hash, Htlc { amount_msat: 400, cltv_expiry: 9 }), Ok(Ok(0))));
    assert_eq!(funds(&channel), (380, 0, 220, 400));
    assert!(channel.sanity_check().is_ok());
}

#[test]
fn odd_capacity_is_split() {
    let (mut channel, alice, _) = funded_channel(1_001);
    assert_eq!(funds(&channel), (500, 0, 501, 0));
    assert!(channel.sanity_check().is_ok());
    let hash = PaymentHash([3; 32]);
    assert!(matches!(channel.add_htlc(&alice, hash, Htlc { amount_msat: 10, cltv_expiry: 9 }), Ok(Ok(0))));
    assert!(channel.sanity_check().is_ok());
}

#[test]
fn indexes_of_htlcs_are_not_reused() {
    let (mut channel, alice, bob) = funded_channel(1_000);
    let htlc = Htlc { amount_msat: 10, cltv_expiry: 9 };
    let mut indexes = vec![];
    for i in 0..5 {
        let hash = PaymentHash([i; 32]);
        indexes.push(channel.add_htlc(&alice, hash, htlc).unwrap().unwrap());
        // Neither a removal nor an addition that fails gives an index back.
        assert!(channel.remove_htlc(&alice, &hash, i % 2 == 0).is_ok());
        assert!(channel.add_htlc(&alice, hash, Htlc { amount_msat: 0, cltv_expiry: 9 }).is_err());
        assert!(channel.add_htlc(&alice, hash, Htlc { amount_msat: 900, cltv_expiry: 9 }).unwrap().is_err());
        assert!(channel.remove_htlc(&bob, &hash, true).is_err());
        assert!(channel.sanity_check().is_ok());
    }
    assert_eq!(indexes, vec![0, 1, 2, 3, 4]);
}

#[test]
fn errors_of_htlcs() {
    let (mut channel, alice, _) = funded_channel(1_000);
    let hash = PaymentHash([4; 32]);
    assert!(matches!(
        channel.add_htlc(&alice, hash, Htlc { amount_msat: 0, cltv_expiry: 9 }),
        Err(CriticalError::ZeroAmountHtlc)
    ));
    assert!(matches!(
        channel.add_htlc(&alice, hash, Htlc { amount_msat: 10, cltv_expiry: 500_000_001 }),
        Ok(Err(ForwardingError::ExpiryInSeconds(500_000_001, 500_000_000)))
    ));
    assert!(matches!(channel.remove_htlc(&alice, &hash, true), Err(CriticalError::PaymentHashNotFound(_))));
}

#[test]
fn errors_of_channels() {
    let (channel, alice, _) = funded_channel(1_000);
    assert!(channel.validate().is_ok());
    let mut same = funded_channel(1_000).0;
    same.node_1.policy.pubkey = alice;
    same.node_2.policy.pubkey = alice;
    match same.validate() {
        Err(SimulationError::SimulatedNetworkError(m)) => {
            assert_eq!(
                m,
                format!("Channel should have distinct node pubkeys, got: {} for both nodes.", alice.to_text())
            )
        }
        _ => panic!("nodes must be distinct"),
    }
    let mut policy = create_test_policy(2_000);
    assert!(matches!(
        policy.validate(1_000),
        Err(SimulationError::SimulatedNetworkError(m)) if m == "max_in_flight_msat 2000 > capacity 1000"
    ));
    policy.max_in_flight_msat = 1_000;
    policy.max_htlc_size_msat = 1_001;
    assert!(matches!(
        policy.validate(1_000),
        Err(SimulationError::SimulatedNetworkError(m)) if m == "max_htlc_size_msat 1001 > capacity 1000"
    ));
}

#[test]
fn fees_of_forwarded_htlcs() {
    let state = ChannelState::new(create_test_policy(100_000), 100_000);
    // 1000 base fee, and 0.5% of the amount.
    match state.check_htlc_forward(10, 20_000, 1_099) {
        Ok(Err(e)) => assert_eq!(
            e.to_text(),
            "InsufficientFee: offered fee: 1099 (base: 1000, prop: 5000) < expected: 1100"
        ),
        _ => panic!("the fee is too low"),
    }
    assert!(matches!(state.check_htlc_forward(10, 20_000, 1_100), Ok(Ok(()))));
    assert!(matches!(
        state.check_htlc_forward(10, u64::MAX, 0),
        Err(CriticalError::FeeOverflow(u64::MAX, 1000, 5000))
    ));
    assert_eq!(
        ForwardingError::ExceedsInFlightTotal(5, 4).to_text(),
        "ExceedsInFlightTotal: total in flight amount: 5 > maximum amount: 4"
    );
}
