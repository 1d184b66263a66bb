//! The options of the simulator, and what is read from its files.
use simln::cli::{
    default_config_path, deserialize_log_level, deserialize_total_time, from_config_field, loads_config,
    read_sim_path, Cli, CliOverrides, ConfigTable, FileLocation, LogLevel, SimulationConfig, DEFAULT_ACTIVITY_MULTIPLIER,
};
use simln::node::{LightningError, NodeId, NodeInfo, ShortChannelID, ValueOrRange};
use simln::parsing::{add_node_to_maps, get_validated_activities, ActivityParser, SimParams};
use simln::primitives::{Network, NodeFeatures, PaymentHash, PublicKey};
use simln::serializers::{check_value_or_range, parse_address, parse_node_id, payment_hash_text};

#[test]
fn test_from_config_field() {
    let config_map: ConfigTable = vec![("key".to_string(), "value".to_string())];

    let value = from_config_field(&config_map, "key", "default_value".to_string());
    let default_value = from_config_field(&config_map, "no_key", "default_value".to_string());

    assert_eq!(value, "value");
    assert_eq!(default_value, "default_value");
}

#[test]
fn fields_have_types() {
    let table: ConfigTable = vec![
        ("print_batch_size".to_string(), "12".to_string()),
        ("no_results".to_string(), "true".to_string()),
        ("expected_pmt_amt".to_string(), "many".to_string()),
        ("print_batch_size".to_string(), "13".to_string()),
    ];
    assert_eq!(from_config_field(&table, "print_batch_size", 1u32), 12);
    assert!(from_config_field(&table, "no_results", false));
    assert_eq!(from_config_field(&table, "expected_pmt_amt", 77u64), 77);
    assert_eq!(from_config_field(&table, "log_interval", 5u64), 5);

    let read = |text: &str| {
        let table: ConfigTable = vec![("field".to_string(), text.to_string())];
        (from_config_field(&table, "field", 9u64), from_config_field(&table, "field", true))
    };
    assert_eq!(read("YES"), (1, true));
    assert_eq!(read("Off"), (0, false));
    assert_eq!(read("0"), (0, false));
    assert_eq!(read("1"), (1, true));
    assert_eq!(read("+8"), (8, true));
    assert_eq!(read("-8"), (9, true));
    assert_eq!(read("18446744073709551616"), (9, true));
    assert_eq!(read(" no"), (9, true));
}

fn test_cli() -> CliOverrides {
    CliOverrides {
        data_dir: Some("data".to_string()),
        sim_file: Some("sim.json".to_string()),
        total_time: Some(60),
        print_batch_size: Some(10),
        log_level: Some(LogLevel::Debug),
        expected_pmt_amt: Some(500),
        capacity_multiplier: Some(3.142f64.to_bits()),
        no_results: Some(true),
    }
}

#[test]
fn overwrite_config_with_cli() {
    let test_config = SimulationConfig {
        data_dir: "simulation.data".to_string(),
        sim_file: "simulation.sim.json".to_string(),
        total_time: None,
        print_batch_size: 200,
        log_level: LogLevel::Trace,
        expected_pmt_amt: 500,
        capacity_multiplier: 5.5f64.to_bits(),
        no_results: true,
        log_interval: 10,
    };

    let test_config = test_config.overwrite_with_cli(test_cli());
    let test_cli = test_cli();

    assert_eq!(Some(test_config.data_dir), test_cli.data_dir);
    assert_eq!(Some(test_config.sim_file), test_cli.sim_file);
    assert_eq!(Some(test_config.print_batch_size), test_cli.print_batch_size);
    assert_eq!(Some(test_config.log_level), test_cli.log_level);
    assert_eq!(Some(test_config.expected_pmt_amt), test_cli.expected_pmt_amt);
    assert_eq!(Some(test_config.capacity_multiplier), test_cli.capacity_multiplier);
    assert_eq!(Some(test_config.no_results), test_cli.no_results);
    assert_eq!(test_config.log_interval, 10);
}

#[test]
fn replace_config_with_cli_args() {
    let cli = test_cli();
    let conf = Cli::from_config_fields(&vec![], None).unwrap().to_simulation_config().overwrite_with_cli(test_cli());

    assert_eq!(Some(conf.data_dir), cli.data_dir);
    assert_eq!(Some(conf.sim_file), cli.sim_file);
    assert_eq!(conf.total_time, cli.total_time);
    assert_eq!(Some(conf.print_batch_size), cli.print_batch_size);
    assert_eq!(Some(conf.log_level), cli.log_level);
    assert_eq!(Some(conf.expected_pmt_amt), cli.expected_pmt_amt);
    assert_eq!(Some(conf.capacity_multiplier), cli.capacity_multiplier);
    assert_eq!(Some(conf.no_results), cli.no_results);
}

#[test]
fn options_without_a_file_are_kept() {
    let nothing = CliOverrides {
        data_dir: None,
        sim_file: None,
        total_time: None,
        print_batch_size: None,
        log_level: None,
        expected_pmt_amt: None,
        capacity_multiplier: None,
        no_results: None,
    };
    let conf = Cli::default().to_simulation_config().overwrite_with_cli(nothing);
    assert_eq!(conf.data_dir, ".");
    assert_eq!(conf.sim_file, "sim.json");
    assert_eq!(conf.expected_pmt_amt, 3_800_000);
    assert_eq!(f64::from_bits(conf.capacity_multiplier), 2.0);
    assert_eq!(f64::from_bits(DEFAULT_ACTIVITY_MULTIPLIER), 2.0);
    assert_eq!(conf.log_level, LogLevel::Info);
}

#[test]
fn options_given_to_the_program_come_first() {
    let table: ConfigTable =
        vec![("log_level".to_string(), "trace".to_string()), ("print_batch_size".to_string(), "7".to_string())];
    let mut options = Cli::from_config_fields(&table, None).unwrap();
    assert_eq!(options.log_level, LogLevel::Trace);
    let mut given = Cli::default();
    given.print_batch_size = 9;
    options.overwrite_with(&given);
    assert_eq!(options.print_batch_size, 9);
    assert_eq!(options.log_level, LogLevel::Trace);
    assert!(Cli::from_config_fields(&vec![("log_level".to_string(), "loud".to_string())], None).is_err());
}

fn params() -> SimParams {
    SimParams { nodes: vec![], sim_network: vec![], activity: vec![], exclude: vec![] }
}

#[test]
fn options_must_fit_the_simulation_file() {
    assert!(Cli::default().validate(&params()).is_err());
    let mut cli = Cli::default();
    cli.speedup_clock = Some(2);
    assert!(cli.validate(&params()).is_err());
}

#[test]
fn values_of_options() {
    assert_eq!(deserialize_log_level("WARN").unwrap(), LogLevel::Warn);
    assert_eq!(deserialize_log_level("off").unwrap(), LogLevel::Off);
    assert_eq!(
        deserialize_log_level("loud").unwrap_err(),
        "Failed to deserialize LevelFilter from &str: attempted to convert a string that doesn't match an existing log level"
    );
    assert_eq!(deserialize_total_time(""), Ok(None));
    assert_eq!(deserialize_total_time("3600"), Ok(Some(3600)));
    assert!(deserialize_total_time("4294967296").unwrap_err().starts_with("Failed to parse u32 from &str: "));
    assert!(deserialize_total_time("-1").is_err());
}

#[test]
fn files_are_looked_for() {
    assert_eq!(default_config_path(true, true, false).unwrap_err(), "Default configuration file not found.");
    assert_eq!(default_config_path(true, false, true).unwrap(), FileLocation::InDirectory);
    assert_eq!(default_config_path(false, true, false).unwrap(), FileLocation::AsGiven);
    assert!(!loads_config("conf.ini", false));
    assert!(loads_config("conf.ini", true));
    assert!(loads_config("other.ini", false));
    assert_eq!(read_sim_path(true, true, true), Some(FileLocation::AsGiven));
    assert_eq!(read_sim_path(false, true, true), Some(FileLocation::InDirectory));
    assert_eq!(read_sim_path(false, false, true), None);
}

// The generator of the curve, and its double.
const KEY_1: &str = "0279be667ef9dcbbac55a06295ce870b07029bfcdb2dce28d959f2815b16f81798";
const KEY_2: &str = "02c6047f9441ed7d6d3045406e95c07cd85c778e4b8cef3ca7abac09b95c709ee5";

#[test]
fn node_ids_are_keys_or_aliases() {
    let key = PublicKey::parse(KEY_1).unwrap();
    assert_eq!(key.to_text(), KEY_1);
    assert!(matches!(parse_node_id(KEY_1.to_string()), NodeId::PublicKey(k) if k == key));
    assert!(matches!(parse_node_id("alice".to_string()), NodeId::Alias(a) if a == "alice"));
    // A text of the right form that is no point of the curve is an alias, too.
    assert!(matches!(parse_node_id("05".repeat(33)), NodeId::Alias(_)));
    assert!(PublicKey::from_slice(&vec![2; 32]).is_err());
    assert_eq!(NodeId::PublicKey(key).get_pk().unwrap(), &key);
    assert!(NodeId::Alias("alice".to_string()).get_pk().is_err());

    let mut alias = "bob".to_string();
    assert!(NodeId::Alias("alice".to_string()).validate(&key, &mut alias).is_ok());
    assert_eq!(alias, "alice");
    let other = PublicKey::parse(KEY_2).unwrap();
    assert!(NodeId::PublicKey(key).validate(&key, &mut alias).is_ok());
    assert!(matches!(
        NodeId::PublicKey(key).validate(&other, &mut alias),
        Err(LightningError::ValidationError(m)) if m == format!(
            "The provided node id does not match the one returned by the backend ({} != {}).",
            KEY_1,
            KEY_2
        )
    ));
}

#[test]
fn values_of_simulation_files() {
    assert_eq!(parse_address("localhost:10009".to_string()), "https://localhost:10009");
    assert_eq!(parse_address("http://localhost".to_string()), "http://localhost");
    assert_eq!(payment_hash_text(&None), "Unknown");
    assert_eq!(payment_hash_text(&Some(PaymentHash([1; 32]))), "01".repeat(32));
    assert!(check_value_or_range(ValueOrRange::Value(0)).is_ok());
    assert!(check_value_or_range(ValueOrRange::Range(1, 2)).is_ok());
    assert_eq!(
        check_value_or_range(ValueOrRange::Range(2, 2)).unwrap_err(),
        "Cannot parse range. Ranges must be strictly increasing (i.e. [x, y] with x > y). Received [2, 2]"
    );
}

#[test]
fn channel_ids_have_parts() {
    let scid = ShortChannelID::from((700_123u64 << 40) | (45 << 16) | 6);
    assert_eq!(scid.to_text(), "700123:45:6");
    assert_eq!(u64::from(scid), (700_123u64 << 40) | (45 << 16) | 6);
}

#[test]
fn networks_have_names() {
    for (network, name) in [
        (Network::Bitcoin, "bitcoin"),
        (Network::Testnet, "testnet"),
        (Network::Signet, "signet"),
        (Network::Regtest, "regtest"),
    ] {
        assert_eq!(network.to_text(), name);
        assert_eq!(Network::parse(name).unwrap(), network);
    }
    assert_eq!(Network::from_core_arg("main").unwrap(), Network::Bitcoin);
    assert_eq!(Network::from_core_arg("test").unwrap(), Network::Testnet);
    assert!(Network::from_core_arg("bitcoin").is_err());
    assert!(Network::parse("main").is_err());
}

#[test]
fn hashes_of_preimages() {
    // The digest of 32 zero bytes.
    assert_eq!(
        PaymentHash::of_preimage(&[0; 32]).to_text(),
        "66687aadf862bd776c8fc18b8e9f8e20089714856ee233b3902a591d0d5f2925"
    );
}

fn node(key: &str, alias: &str) -> NodeInfo {
    let mut features = NodeFeatures::empty();
    features.set_keysend_optional();
    NodeInfo { pubkey: PublicKey::parse(key).unwrap(), alias: alias.to_string(), features }
}

fn activity(source: &str, destination: &str) -> ActivityParser {
    ActivityParser {
        source: parse_node_id(source.to_string()),
        destination: parse_node_id(destination.to_string()),
        start_secs: None,
        count: Some(3),
        interval_secs: ValueOrRange::Value(1),
        amount_msat: ValueOrRange::Value(10),
    }
}

#[test]
fn nodes_are_referenced_by_key_and_alias() {
    let nodes = add_node_to_maps(vec![node(KEY_1, "alice"), node(KEY_2, "bob")]).unwrap();
    assert_eq!(nodes.get(&PublicKey::parse(KEY_2).unwrap()).unwrap().alias, "bob");
    assert_eq!(nodes.get_alias("alice").unwrap().pubkey.to_text(), KEY_1);
    assert!(nodes.get_alias("carol").is_none());
    assert!(matches!(
        add_node_to_maps(vec![node(KEY_1, "alice"), node(KEY_2, "alice")]),
        Err(LightningError::ValidationError(m)) if m.contains("duplicated alias")
    ));
    // Any number of nodes may have no alias.
    assert!(add_node_to_maps(vec![node(KEY_1, ""), node(KEY_2, "")]).is_ok());
}

#[test]
fn activities_are_validated() {
    let graph = || {
        let mut graph = simln::node::Graph::new();
        for n in [node(KEY_1, "alice"), node(KEY_2, "bob")] {
            graph.nodes_by_pk.insert(n.pubkey, n);
        }
        Some(Ok(graph))
    };
    let infos = || vec![node(KEY_1, "alice")];
    let activities = get_validated_activities(graph(), infos(), &vec![activity("alice", KEY_2)]).unwrap();
    assert_eq!(activities.len(), 1);
    assert_eq!(activities[0].source.pubkey.to_text(), KEY_1);
    assert_eq!(activities[0].destination.alias, "bob");
    assert_eq!(activities[0].count, Some(3));
    assert!(get_validated_activities(graph(), infos(), &vec![activity("carol", KEY_2)]).is_err());
    assert!(matches!(
        get_validated_activities(None, infos(), &vec![]),
        Err(LightningError::GetGraphError(_))
    ));
    assert!(get_validated_activities(Some(Err("no reply".to_string())), infos(), &vec![]).is_err());
}
