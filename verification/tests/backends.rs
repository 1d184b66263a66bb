//! What the connections to the different lightning implementations make of replies, and what containers are started
//! with.
use simln::backend::{bytes_to_payment_hash, parse_network, shutdown_error, string_to_payment_hash};
use simln::cln::{ClnInfo, ClnNode, ClnPay};
use simln::containers::{
    bitcoind_args, built_image, check_contents, cln_args, cln_keysend_settled, container_name, eclair_endpoint,
    eclair_java_opts, eclair_keysend_settled, eclair_node_key, eclair_open_channel, funding_address, graph_synced,
    ldk_api_key, ldk_keysend_settled, ldk_server_config, lnd_args,
    lnd_keysend_settled, log_tail_start, p2p_address, ring_active, ring_node, split_image,
};
use simln::eclair::{base_url as eclair_url, endpoint_url, EclairInfo, EclairNode, PaymentStatus};
use simln::features::{flags_of_bits, parse_json_to_node_features, set_feature};
use simln::intercept::{copy_records, CustomRecords, HtlcRef, InterceptRequest};
use simln::ldk::{check_reply, GetNodeInfoResponse, LdkConnection, LdkNode};
use simln::ldk_server::{
    base_url, ldk_server_error_to_send_error, network_from_proto, LdkServerErrorCode, LdkServerInfo, LdkServerNode,
};
use simln::lnd::{parse_node_features, status_to_lightning_error, Chain, LndNode, LndPayment, KEYSEND_KEY, UNAVAILABLE};
use simln::node::{LightningError, NodeId, ShortChannelID};
use simln::payment::{PaymentOutcome, PaymentResult};
use simln::primitives::{Network, NodeFeatures, PaymentHash, PublicKey};
use simln::scenario::NodeImpl;
use simln::text::{decimal_text, trim_slashes};

const KEY_1: &str = "0279be667ef9dcbbac55a06295ce870b07029bfcdb2dce28d959f2815b16f81798";
const KEY_2: &str = "02c6047f9441ed7d6d3045406e95c07cd85c778e4b8cef3ca7abac09b95c709ee5";

fn key(text: &str) -> PublicKey {
    PublicKey::parse(text).unwrap()
}

#[test]
fn hashes_are_read() {
    let hash = PaymentHash([0xc4; 32]);
    assert_eq!(string_to_payment_hash(&hash.to_text()).unwrap(), hash);
    assert_eq!(string_to_payment_hash(&hash.to_text().to_uppercase()).unwrap(), hash);
    assert_eq!(bytes_to_payment_hash(&vec![0xc4; 32]).unwrap(), hash);
    for text in ["", "c4", "zz", "c4c"] {
        assert!(matches!(string_to_payment_hash(text), Err(LightningError::InvalidPaymentHash)));
    }
    assert!(matches!(bytes_to_payment_hash(&vec![0xc4; 33]), Err(LightningError::InvalidPaymentHash)));
    assert!(matches!(
        shutdown_error(),
        LightningError::TrackPaymentError(m) if m == "Shutdown before tracking results"
    ));
}

#[test]
fn reported_networks() {
    assert_eq!(parse_network("mainnet").unwrap(), Network::Bitcoin);
    assert_eq!(parse_network("regtest").unwrap(), Network::Regtest);
    assert!(matches!(
        parse_network("simnet"),
        Err(LightningError::ValidationError(m)) if m == "simnet is not supported"
    ));
    assert!(parse_network("moonnet").is_err());
    assert_eq!(network_from_proto(0).unwrap(), Network::Bitcoin);
    assert_eq!(network_from_proto(3).unwrap(), Network::Signet);
    assert!(matches!(
        network_from_proto(-7),
        Err(LightningError::GetInfoError(m)) if m == "ldk-server returned unsupported network value: -7"
    ));
    assert!(network_from_proto(2).is_err());
}

#[test]
fn keysend_is_a_feature() {
    assert!(!NodeFeatures::empty().supports_keysend());
    let mut features = NodeFeatures::empty();
    features.set_keysend_optional();
    assert!(features.supports_keysend());
    assert!(parse_node_features(&vec![55]).supports_keysend());
    assert!(parse_node_features(&vec![1, 54]).supports_keysend());
    assert!(!parse_node_features(&vec![53, 56]).supports_keysend());
    // In big endian order, the flags of the lowest bits come last.
    assert!(NodeFeatures::from_be_bytes(vec![0x80, 0, 0, 0, 0, 0, 0]).supports_keysend());
    assert!(!NodeFeatures::from_le_bytes(vec![0x80, 0, 0, 0, 0, 0, 0]).supports_keysend());
    assert!(NodeFeatures::from_le_bytes(vec![0, 0, 0, 0, 0, 0, 0x40]).supports_keysend());
    let mut flags = vec![];
    set_feature(&mut flags, 9);
    set_feature(&mut flags, 3);
    assert_eq!(flags, vec![8, 2]);
    assert_eq!(flags_of_bits(&vec![0, 7, 16], 1), vec![0x81, 0, 1]);
    let named = |name: &str, support: &str| {
        parse_json_to_node_features(&Some(vec![(name.to_string(), Some(support.to_string()))])).supports_keysend()
    };
    assert!(named("keysend", "optional"));
    assert!(named("keysend", "mandatory"));
    assert!(named("keysend", "anything else is optional"));
    assert!(!named("wumbo", "optional"));
    assert!(!parse_json_to_node_features(&None).supports_keysend());
}

#[test]
fn lnd_nodes() {
    let node = LndNode::new(&NodeId::PublicKey(key(KEY_1)), KEY_1, &vec![55], "alice".to_string()).unwrap();
    assert_eq!(node.get_info().alias, "alice");
    assert!(node.get_info().features.supports_keysend());
    assert!(matches!(
        LndNode::new(&NodeId::PublicKey(key(KEY_2)), KEY_1, &vec![], "alice".to_string()),
        Err(LightningError::ValidationError(_))
    ));
    assert!(matches!(
        LndNode::new(&NodeId::PublicKey(key(KEY_2)), "key", &vec![], "alice".to_string()),
        Err(LightningError::GetInfoError(_))
    ));
    let chain = |network: &str| Chain { chain: "bitcoin".to_string(), network: network.to_string() };
    assert_eq!(node.get_network(&vec![chain("testnet")]).unwrap(), Network::Testnet);
    let summary = "alice(0279be...f81798)";
    assert!(matches!(
        node.get_network(&vec![]),
        Err(LightningError::ValidationError(m)) if m == format!("{summary} is not connected any chain")
    ));
    assert!(matches!(
        node.get_network(&vec![chain("testnet"), chain("regtest")]),
        Err(LightningError::ValidationError(m)) if m == format!(
            "{summary} is connected to more than one chain: Map {{ iter: Iter([Chain {{ chain: \"bitcoin\", network: \"testnet\" }}, Chain {{ chain: \"bitcoin\", network: \"regtest\" }}]) }}"
        )
    ));
    assert_eq!(LndNode::list_channels(&vec![5, 7]), vec![5_000, 7_000]);
    assert!(matches!(
        LndNode::get_node_info(&key(KEY_2), None),
        Err(LightningError::GetNodeInfoError(m)) if m == "Node not found"
    ));
    assert_eq!(LndNode::get_node_info(&key(KEY_2), Some(("bob".to_string(), vec![]))).unwrap().alias, "bob");
}

#[test]
fn lnd_payments() {
    let request = LndNode::payment_request(&key(KEY_2), 1_000, &[0; 32]).unwrap();
    assert_eq!(request.amt_msat, 1_000);
    assert_eq!(request.dest_custom_record, (KEYSEND_KEY, [0; 32]));
    assert_eq!(request.payment_hash, PaymentHash::of_preimage(&[0; 32]));
    assert_eq!(request.timeout_seconds, 300);
    assert!(matches!(
        LndNode::payment_request(&key(KEY_2), u64::MAX, &[0; 32]),
        Err(LightningError::SendPaymentError(m)) if m == "Invalid send amount"
    ));
    let random = LndNode::send_payment(&key(KEY_2), 1_000).unwrap();
    assert_eq!(random.payment_hash, PaymentHash::of_preimage(&random.dest_custom_record.1));
    assert_ne!(random.dest_custom_record.1, LndNode::send_payment(&key(KEY_2), 1_000).unwrap().dest_custom_record.1);
    assert!(LndNode::payment_sent(&Some("c4".repeat(32))).is_ok());
    assert!(matches!(LndNode::payment_sent(&None), Err(LightningError::SendPaymentError(_))));

    let track = |status: i32, failure_reason: i32| {
        LndNode::track_payment(&Some(LndPayment { status, failure_reason, htlcs: 3 }))
    };
    let outcome = |payment_outcome: PaymentOutcome| PaymentResult { htlc_count: 3, payment_outcome };
    assert_eq!(track(2, 0).unwrap(), outcome(PaymentOutcome::Success));
    assert_eq!(track(3, 1).unwrap(), outcome(PaymentOutcome::PaymentExpired));
    assert_eq!(track(3, 2).unwrap(), outcome(PaymentOutcome::RouteNotFound));
    assert_eq!(track(3, 3).unwrap(), outcome(PaymentOutcome::UnexpectedError));
    assert_eq!(track(3, 4).unwrap(), outcome(PaymentOutcome::IncorrectPaymentDetails));
    assert_eq!(track(3, 5).unwrap(), outcome(PaymentOutcome::InsufficientBalance));
    assert_eq!(track(1, 0).unwrap(), outcome(PaymentOutcome::Unknown));
    for (status, reason, message) in
        [(3, 0, "Unexpected failure reason"), (3, 9, "Invalid failure reason"), (9, 0, "Invalid payment status")]
    {
        assert!(matches!(track(status, reason), Err(LightningError::TrackPaymentError(m)) if m == message));
    }
    assert!(matches!(
        LndNode::track_payment(&None),
        Err(LightningError::TrackPaymentError(m)) if m == "No payment"
    ));
    assert!(matches!(
        status_to_lightning_error(UNAVAILABLE, "down"),
        LightningError::SendPaymentError(m) if m == "Node unavailable: down"
    ));
    assert!(matches!(
        status_to_lightning_error(2, "no route"),
        LightningError::PermanentError(m) if m == "no route"
    ));
}

#[test]
fn cln_nodes() {
    let info = |network: &str| ClnInfo {
        id: key(KEY_1).0.to_vec(),
        alias: None,
        features: Some(vec![0x80, 0, 0, 0, 0, 0, 0]),
        network: network.to_string(),
    };
    let node = ClnNode::new(&NodeId::Alias("carol".to_string()), info("main")).unwrap();
    assert_eq!(node.get_info().alias, "carol");
    assert_eq!(node.get_network(), Network::Bitcoin);
    assert!(node.get_info().features.supports_keysend());
    assert!(ClnNode::new(&NodeId::PublicKey(key(KEY_2)), info("main")).is_err());
    assert!(ClnNode::new(&NodeId::PublicKey(key(KEY_1)), info("moonnet")).is_err());
    let unnamed = ClnInfo { id: vec![1, 2], ..info("main") };
    assert!(matches!(
        ClnNode::new(&NodeId::PublicKey(key(KEY_1)), unnamed),
        Err(LightningError::GetInfoError(_))
    ));
    assert_eq!(ClnNode::list_channels(&vec![Some(1), None], &vec![Some(3)]), vec![1, 0, 3]);
    assert_eq!(ClnNode::node_channels(&vec![None, Some(8)]), vec![0, 8]);
    assert_eq!(ClnNode::get_node_info(&key(KEY_2), Some((None, None))).unwrap().alias, "");
    assert!(ClnNode::get_node_info(&key(KEY_2), None).is_err());

    assert_eq!(ClnNode::send_payment(&Ok(vec![1; 32])).unwrap(), PaymentHash([1; 32]));
    assert!(matches!(ClnNode::send_payment(&Ok(vec![])), Err(LightningError::InvalidPaymentHash)));
    assert!(matches!(
        ClnNode::send_payment(&Err("RpcError { code: Some(203), message: \"no\" }".to_string())),
        Err(LightningError::PermanentError(m)) if m == "\"RpcError { code: Some(203), message: \\\"no\\\" }\""
    ));
    assert!(matches!(
        ClnNode::send_payment(&Err("code: Some(205)".to_string())),
        Err(LightningError::SendPaymentError(_))
    ));
    let track = |status: i32, number_of_parts: Option<u64>| ClnNode::track_payment(&Some(ClnPay { status, number_of_parts }));
    assert!(track(0, None).is_none());
    assert!(ClnNode::track_payment(&None).is_none());
    assert_eq!(
        track(2, Some(4)).unwrap().unwrap(),
        PaymentResult { htlc_count: 4, payment_outcome: PaymentOutcome::Success }
    );
    assert_eq!(
        track(1, None).unwrap().unwrap(),
        PaymentResult { htlc_count: 1, payment_outcome: PaymentOutcome::UnexpectedError }
    );
    assert!(track(3, None).unwrap().is_err());
}

#[test]
fn urls_of_eclair_nodes() {
    assert_eq!(eclair_url("HTTP://127.0.0.1:8080").unwrap(), "http://127.0.0.1:8080/");
    assert!(matches!(
        eclair_url("not a url"),
        Err(LightningError::GetInfoError(m)) if m == "relative URL without a base"
    ));
    assert_eq!(endpoint_url("http://127.0.0.1:8080/", "getinfo").unwrap(), "http://127.0.0.1:8080/getinfo");
    assert_eq!(endpoint_url("http://127.0.0.1:8080/api/x", "getinfo").unwrap(), "http://127.0.0.1:8080/api/getinfo");
    assert_eq!(endpoint_url("not a url", "getinfo").unwrap_err(), "relative URL without a base");
}

#[test]
fn credentials_of_containers() {
    assert_eq!(ldk_api_key(&vec![0x0a, 0xff]).unwrap(), "0aff");
    assert_eq!(ldk_api_key(&vec![]).unwrap_err(), "api key file empty");
    assert_eq!(eclair_endpoint(8080, "getinfo"), "http://127.0.0.1:8080/getinfo");
    assert_eq!(eclair_node_key(&Some(KEY_1.to_string()), "{}").unwrap(), key(KEY_1));
    assert_eq!(eclair_node_key(&None, "{}").unwrap_err(), "getinfo response missing nodeId: {}");
    assert!(eclair_node_key(&Some("02".to_string()), "{}").unwrap_err().starts_with("parsing eclair pubkey: "));
    // An address in upper case is written in lower case.
    let address = "bcrt1qw508d6qejxtdg4y5r3zarvary0c5xw7kygt080";
    assert_eq!(funding_address(&address.to_uppercase()).unwrap(), address);
    assert!(funding_address("nowhere").unwrap_err().starts_with("parsing funding address nowhere: "));
}

#[test]
fn eclair_nodes() {
    let info = |network: &str| EclairInfo {
        node_id: KEY_1.to_string(),
        alias: "erin".to_string(),
        network: network.to_string(),
        features: Some(vec![("keysend".to_string(), Some("optional".to_string()))]),
    };
    let node = EclairNode::new(&NodeId::PublicKey(key(KEY_1)), info("regtest")).unwrap();
    assert_eq!(node.get_info().alias, "erin");
    assert_eq!(node.get_network(), Network::Regtest);
    assert!(node.get_info().features.supports_keysend());
    assert!(EclairNode::new(&NodeId::PublicKey(key(KEY_1)), info("moonnet")).is_err());
    // A public key that is configured must be the one that the node reports, and an alias replaces the one reported.
    assert!(matches!(
        EclairNode::new(&NodeId::PublicKey(key(KEY_2)), info("regtest")),
        Err(LightningError::ValidationError(_))
    ));
    let renamed = EclairNode::new(&NodeId::Alias("other".to_string()), info("regtest")).unwrap();
    assert_eq!(renamed.get_info().alias, "other");

    let pair = |name: &str, value: &str| (name.to_string(), value.to_string());
    assert_eq!(
        EclairNode::send_payment(&key(KEY_2), 42, &[7; 32]),
        vec![pair("nodeId", KEY_2), pair("amountMsat", "42"), pair("paymentHash", &"07".repeat(32))]
    );
    let (preimage, params) = EclairNode::start_payment(&key(KEY_2), 42);
    assert_eq!(params, EclairNode::send_payment(&key(KEY_2), 42, &preimage));
    assert_eq!(
        EclairNode::sent_info(&[7; 32], "x".to_string()),
        vec![pair("paymentHash", &"07".repeat(32)), pair("id", "x")]
    );
    assert_eq!(EclairNode::payment_info(&PaymentHash([9; 32])), vec![pair("paymentHash", &"09".repeat(32))]);
    assert_eq!(EclairNode::node_info_request(&key(KEY_2)), vec![pair("nodeId", KEY_2)]);
    assert_eq!(EclairNode::get_node_info(&key(KEY_2), "bob".to_string(), &None).alias, "bob");
    assert_eq!(EclairNode::track_payment(&vec![]), None);
    assert_eq!(EclairNode::track_payment(&vec![PaymentStatus::Pending, PaymentStatus::Sent]), None);
    assert_eq!(
        EclairNode::track_payment(&vec![PaymentStatus::Sent, PaymentStatus::Pending]),
        Some(PaymentResult { htlc_count: 2, payment_outcome: PaymentOutcome::Success })
    );
    assert_eq!(
        EclairNode::track_payment(&vec![PaymentStatus::Failed]),
        Some(PaymentResult { htlc_count: 1, payment_outcome: PaymentOutcome::UnexpectedError })
    );
    assert_eq!(EclairNode::list_channels(&vec![vec![1, 2], vec![]]), vec![3_000, 0]);
}

#[test]
fn ldk_servers() {
    let info = |network: i32| LdkServerInfo {
        node_id: KEY_1.to_string(),
        node_alias: None,
        network,
        features: vec![55],
    };
    let node = LdkServerNode::new(info(4)).unwrap();
    assert_eq!(node.get_network(), Network::Regtest);
    assert_eq!(node.get_info().alias, "");
    assert!(node.get_info().features.supports_keysend());
    assert!(LdkServerNode::new(info(2)).is_err());
    assert!(node.own_info(&key(KEY_1)).is_some());
    assert!(node.own_info(&key(KEY_2)).is_none());
    assert!(LdkServerNode::get_node_info(&key(KEY_2), Some(None)).unwrap().features.supports_keysend());
    assert!(LdkServerNode::get_node_info(&key(KEY_2), None).is_err());
    assert_eq!(LdkServerNode::channel_capacities(&vec![(1, 2), (3, 4)]), 10);
    assert_eq!(base_url("https://localhost:3000//"), "localhost:3000");
    assert_eq!(base_url("localhost"), "localhost");

    assert!(LdkServerNode::send_payment(Ok("c4".repeat(32))).is_ok());
    assert!(matches!(
        LdkServerNode::send_payment(Err((LdkServerErrorCode::AuthError, "key".to_string()))),
        Err(LightningError::PermanentError(m)) if m == "key"
    ));
    for (code, permanent) in [
        (LdkServerErrorCode::InvalidRequestError, true),
        (LdkServerErrorCode::AuthError, true),
        (LdkServerErrorCode::LightningError, false),
        (LdkServerErrorCode::InternalServerError, false),
        (LdkServerErrorCode::InternalError, false),
    ] {
        let error = ldk_server_error_to_send_error(code, "".to_string());
        assert_eq!(matches!(error, LightningError::PermanentError(_)), permanent);
    }
    assert!(LdkServerNode::track_payment(None).is_none());
    assert!(LdkServerNode::track_payment(Some(0)).is_none());
    assert_eq!(
        LdkServerNode::track_payment(Some(1)).unwrap().unwrap(),
        PaymentResult { htlc_count: 1, payment_outcome: PaymentOutcome::Success }
    );
    assert_eq!(
        LdkServerNode::track_payment(Some(2)).unwrap().unwrap().payment_outcome,
        PaymentOutcome::UnexpectedError
    );
    assert!(LdkServerNode::track_payment(Some(3)).unwrap().is_err());
}

#[test]
fn ldk_nodes() {
    let connection =
        || LdkConnection { id: NodeId::Alias("ldk".to_string()), address: "localhost:3002".to_string() };
    let node = LdkNode::new(connection(), &GetNodeInfoResponse { node_id: KEY_1.to_string() }).unwrap();
    assert_eq!(node.get_info().pubkey, key(KEY_1));
    assert_eq!(node.get_network(), Network::Regtest);
    assert_eq!(LdkNode::url(&node.base_url, "getNodeInfo"), "http://localhost:3002/getNodeInfo");
    assert!(LdkNode::new(connection(), &GetNodeInfoResponse { node_id: "".to_string() }).is_err());
    assert_eq!(check_reply(true, vec![1]).unwrap(), vec![1]);
    assert!(matches!(
        check_reply(false, vec![1]),
        Err(LightningError::GetInfoError(m)) if m == "Unknown Error"
    ));
}

#[test]
fn containers_are_configured() {
    assert_eq!(container_name("lnd", 12), "simln-lnd-12");
    assert_eq!(p2p_address("simln-lnd-12"), "simln-lnd-12:9735");
    assert!(bitcoind_args().contains(&"-zmqpubrawtx=tcp://0.0.0.0:28333".to_string()));
    assert!(lnd_args("lnd", "btc").contains(&"--bitcoind.rpchost=btc:18443".to_string()));
    assert!(lnd_args("lnd", "btc").contains(&"--tlsextradomain=lnd".to_string()));
    assert!(cln_args("btc").contains(&"--grpc-port=9736".to_string()));
    let opts = eclair_java_opts("btc");
    assert!(opts.starts_with("-Declair.allow-unsafe-startup=true -Declair.chain=regtest "));
    assert!(opts.ends_with(" -Declair.relay.fees.public-channels.fee-proportional-millionths=0"));
    assert!(ldk_server_config("btc").contains("rpc_address = \"btc:18443\"\nrpc_user = \"user\"\n"));
    assert_eq!(split_image("host:5000/image:tag").unwrap(), ("host:5000/image".to_string(), "tag".to_string()));
    assert_eq!(split_image("image").unwrap(), ("image".to_string(), "latest".to_string()));
    assert_eq!(built_image(), "simln-ldk-server:8163f4fe1393");
    assert_eq!(log_tail_start(250), 150);
    assert_eq!(log_tail_start(99), 0);
    assert_eq!(check_contents("tls.cert", vec![]).unwrap_err(), "tls.cert exists but is empty");
    assert_eq!(check_contents("tls.cert", vec![1]).unwrap(), vec![1]);
    assert!(graph_synced(4, 4, 4, 4).is_ok());
    assert!(graph_synced(3, 4, 4, 4).unwrap_err().starts_with("graph has 3/4 nodes, 4/4 channels"));
    assert!(ring_active(2, 2, 2, 2).is_ok());
    assert!(ring_active(2, 1, 2, 2).is_err());
    assert!(matches!(ring_node(1), Ok(NodeImpl::Cln)));
    assert!(ring_node(4).is_err());
    assert!(lnd_keysend_settled(true, 1) && !lnd_keysend_settled(false, 1) && !lnd_keysend_settled(true, 0));
    assert!(cln_keysend_settled(1, "keysend-17.0") && !cln_keysend_settled(0, "keysend-17.0"));
    assert!(!cln_keysend_settled(1, "invoice"));
    assert!(eclair_keysend_settled(&Some("KeySend".to_string()), &Some("received".to_string())));
    assert!(!eclair_keysend_settled(&None, &None));
    assert!(!ldk_keysend_settled(0, 0, true));
    let (address, params) = eclair_open_channel(&key(KEY_2), "lnd:9735");
    assert_eq!(address, format!("{KEY_2}@lnd:9735"));
    assert_eq!(params[0], ("nodeId".to_string(), KEY_2.to_string()));
}

#[test]
fn requests_of_interceptors_have_texts() {
    let request = InterceptRequest {
        forwarding_node: key(KEY_1),
        payment_hash: PaymentHash([1; 32]),
        incoming_htlc: HtlcRef { channel_id: ShortChannelID::from(123), index: 1 },
        incoming_custom_records: CustomRecords::default(),
        outgoing_channel_id: None,
        incoming_amount_msat: 100,
        outgoing_amount_msat: 50,
        incoming_expiry_height: 120,
        outgoing_expiry_height: 100,
    };
    assert_eq!(
        request.to_text(),
        format!("htlc forwarded by {KEY_1} over 0:0:123:1 -> receive forward amounts 100 50")
    );
    let records = CustomRecords::from([(1, vec![2, 3]), (4, vec![])]);
    assert!(copy_records(&records) == records);
}

#[test]
fn texts_of_numbers() {
    assert_eq!(decimal_text(0), "0");
    assert_eq!(decimal_text(u64::MAX), "18446744073709551615");
    assert_eq!(trim_slashes("a/b//"), "a/b");
}
