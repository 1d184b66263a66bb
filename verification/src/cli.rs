//! The options of the simulator: their defaults, and how the command line and configuration files set them.
use crate::parsing::SimParams;
use crate::simulation::{SimulationCfg, WriteResults};
use crate::text::{
    decimal, is_number_error, law_decimal_is_read_back, number_in, number_of, push_decimal, same_text, text,
};
use std::str::FromStr;
use vstd::prelude::*;

verus! {

/// The default directory where the simulation files are stored and where the results will be written to.
pub const DEFAULT_DATA_DIR: &'static str = ".";

/// The default simulation file to be used by the simulator.
pub const DEFAULT_SIM_FILE: &'static str = "sim.json";

/// The default expected payment amount for the simulation, around ~$10 at the time of writing.
pub const DEFAULT_EXPECTED_PAYMENT_AMOUNT: u64 = 3_800_000;

/// The bits of the default number of times that each node in the network sends its total deployed capacity in a
/// calendar month, which is two, as an IEEE 754 number of double precision.
pub const DEFAULT_ACTIVITY_MULTIPLIER: u64 = 0x4000_0000_0000_0000;

/// Default batch size to flush result data to disk
pub const DEFAULT_PRINT_BATCH_SIZE: u32 = 500;

/// Default configuration file
pub const DEFAULT_CONFIGURATION_FILE: &'static str = "conf.ini";

/// Default total time
pub const DEFAULT_TOTAL_TIME: Option<u32> = None;

/// Default log level
pub const DEFAULT_LOG_LEVEL: &'static str = "info";

/// Default no results
pub const DEFAULT_NO_RESULTS: bool = false;

/// Default log interval
pub const DEFAULT_LOG_INTERVAL: u64 = 60;

/// Configuration header
pub const CONFIG_HEADER: &'static str = "simln.conf";

/// Workspace root directory
pub const WORKSPACE_ROOT_DIR: &'static str = ".";

/// Level of verbosity of the messages displayed by the simulator.
#[derive(Debug, Clone, Copy, PartialEq, Eq, Structural)]
pub enum LogLevel {
    Off,
    Error,
    Warn,
    Info,
    Debug,
    Trace,
}

/// The character in lower case, where it is an ASCII letter.
pub open spec fn lower(c: char) -> char {
    if 'A' <= c && c <= 'Z' {
        (c as u32 + 32) as char
    } else {
        c
    }
}

/// Whether two texts are the same but for the case of ASCII letters.
pub open spec fn same_but_case(a: Seq<char>, b: Seq<char>) -> bool {
    a.map_values(|c: char| lower(c)) == b.map_values(|c: char| lower(c))
}

/// The log level with a name, whatever the case of its letters.
pub open spec fn named_level(name: Seq<char>) -> Option<LogLevel> {
    if same_but_case(name, "OFF"@) {
        Some(LogLevel::Off)
    } else if same_but_case(name, "ERROR"@) {
        Some(LogLevel::Error)
    } else if same_but_case(name, "WARN"@) {
        Some(LogLevel::Warn)
    } else if same_but_case(name, "INFO"@) {
        Some(LogLevel::Info)
    } else if same_but_case(name, "DEBUG"@) {
        Some(LogLevel::Debug)
    } else if same_but_case(name, "TRACE"@) {
        Some(LogLevel::Trace)
    } else {
        None
    }
}

/// Reads a log level with `log::LevelFilter::from_str`, which knows the levels by their names, whatever the case of
/// their letters.
#[verifier::external_body]
fn read_level(name: &str) -> (r: Result<LogLevel, String>)
    ensures
        match r {
            Ok(level) => named_level(name@) == Some(level),
            Err(m) => named_level(name@) is None && m@
                == "attempted to convert a string that doesn't match an existing log level"@,
        },
{
    match log::LevelFilter::from_str(name).map_err(|e| e.to_string())? {
        log::LevelFilter::Off => Ok(LogLevel::Off),
        log::LevelFilter::Error => Ok(LogLevel::Error),
        log::LevelFilter::Warn => Ok(LogLevel::Warn),
        log::LevelFilter::Info => Ok(LogLevel::Info),
        log::LevelFilter::Debug => Ok(LogLevel::Debug),
        log::LevelFilter::Trace => Ok(LogLevel::Trace),
    }
}

/// Reads the log level of a configuration.
pub fn deserialize_log_level(name: &str) -> (r: Result<LogLevel, String>)
    ensures
        match named_level(name@) {
            Some(level) => r == Ok::<LogLevel, String>(level),
            None => r matches Err(m) && m@ == "Failed to deserialize LevelFilter from &str: "@
                + "attempted to convert a string that doesn't match an existing log level"@,
        },
{
    match read_level(name) {
        Ok(level) => Ok(level),
        Err(e) => {
            let mut m = text("Failed to deserialize LevelFilter from &str: ");
            m.append(e.as_str());
            Err(m)
        },
    }
}

/// Reads the total time of a configuration, where nothing at all stands for no limit.
pub fn deserialize_total_time(s: &str) -> (r: Result<Option<u32>, String>)
    ensures
        if s@.len() == 0 {
            r == Ok::<Option<u32>, String>(None)
        } else {
            match number_in(s@, u32::MAX as nat) {
                Some(n) => r matches Ok(Some(t)) && t == n,
                None => r matches Err(m) && exists|e: Seq<char>| #[trigger]
                    is_number_error(s, e) && m@ == "Failed to parse u32 from &str: "@ + e,
            }
        },
{
    if s.is_empty() {
        return Ok(None);
    }
    match number_of(s) {
        Ok(n) => Ok(Some(n)),
        Err(e) => {
            let mut m = text("Failed to parse u32 from &str: ");
            m.append(e.as_str());
            assert(is_number_error(s, e@));
            Err(m)
        },
    }
}

/// The options of the simulator.
#[derive(Debug)]
pub struct Cli {
    /// Path to a directory containing simulation files, and where simulation results will be stored
    pub data_dir: String,
    /// Path to the simulation file to be used by the simulator
    /// This can either be an absolute path, or relative path with respect to data_dir
    pub sim_file: String,
    /// Total time the simulator will be running
    pub total_time: Option<u32>,
    /// Number of activity results to batch together before printing to csv file [min: 1]
    pub print_batch_size: u32,
    /// Level of verbosity of the messages displayed by the simulator.
    pub log_level: LogLevel,
    /// Expected payment amount for the random activity generator
    pub expected_pmt_amt: u64,
    /// The bits of the multiplier of the overall network capacity used by the random activity generator
    pub capacity_multiplier: u64,
    /// Do not create an output file containing the simulations results
    pub no_results: bool,
    /// Duration after which results are logged
    pub log_interval: u64,
    /// Sets a custom configuration (INI) file
    pub config: String,
    /// Seed to run random activity generator deterministically
    pub fix_seed: Option<u64>,
    /// A multiplier to wall time to speed up the simulation's clock. Only available when when running on a network of
    /// simulated nodes.
    pub speedup_clock: Option<u16>,
    /// Latency to optionally introduce for payments in a simulated network expressed in milliseconds.
    pub latency_ms: Option<u32>,
}

/// What is wrong with options for a simulation file, if anything.
pub open spec fn options_error(cli: Cli, params: SimParams) -> Option<Seq<char>> {
    let lightning = params.nodes@.len();
    let simulated = params.sim_network@.len();
    if lightning > 0 && simulated > 0 {
        Some(
            "Simulation file cannot contain "@ + decimal(lightning) + " nodes and "@ + decimal(simulated)
                + " sim_graph entries, \n                simulation can only be run with real or simulated nodes not both."@,
        )
    } else if lightning == 0 && simulated == 0 {
        Some(
            "Simulation file must contain nodes to run with real lightning \n                nodes or sim_graph to run with simulated nodes"@,
        )
    } else if lightning > 0 && cli.speedup_clock is Some {
        Some("Clock speedup is only allowed when running on a simulated network"@)
    } else if lightning > 0 && cli.latency_ms is Some {
        Some("Latency for payments is only allowed when running on a simulated network"@)
    } else if params.exclude@.len() > 0 && simulated == 0 {
        Some(
            "List of nodes to exclude from sending/receiving\n                    in random activity is only allowed on a simulated network"@,
        )
    } else if params.exclude@.len() > 0 && params.activity@.len() > 0 {
        Some("List of nodes to exclude from sending/receiving is only allowed on random activity"@)
    } else {
        None
    }
}

/// Options that are accepted for a simulation file are those of a simulation on either real or simulated nodes, which
/// only speeds up the clock, delays payments or excludes nodes where the nodes are simulated, and only excludes nodes
/// from random activity.
pub proof fn law_accepted_options(cli: Cli, params: SimParams)
    ensures
        options_error(cli, params) is None <==> {
            &&& (params.nodes@.len() > 0) != (params.sim_network@.len() > 0)
            &&& params.nodes@.len() > 0 ==> cli.speedup_clock is None && cli.latency_ms is None && params.exclude@.len()
                == 0
            &&& params.exclude@.len() > 0 ==> params.activity@.len() == 0
        },
{
}

/// The value that an option gets: that of the command line, unless it is the default there.
pub open spec fn overwritten<T>(configured: T, given: T, default_value: T) -> T {
    if given != default_value {
        given
    } else {
        configured
    }
}

/// The text that an option gets: that of the command line, unless it is the default there.
pub open spec fn overwritten_text(configured: Seq<char>, given: Seq<char>, default_value: Seq<char>) -> Seq<char> {
    if given != default_value {
        given
    } else {
        configured
    }
}

impl Default for Cli {
    fn default() -> (c: Self)
        ensures
            c.data_dir@ == DEFAULT_DATA_DIR@,
            c.sim_file@ == DEFAULT_SIM_FILE@,
            c.config@ == DEFAULT_CONFIGURATION_FILE@,
            c.total_time is None,
            c.print_batch_size == DEFAULT_PRINT_BATCH_SIZE,
            c.log_level == LogLevel::Info,
            c.expected_pmt_amt == DEFAULT_EXPECTED_PAYMENT_AMOUNT,
            c.capacity_multiplier == DEFAULT_ACTIVITY_MULTIPLIER,
            c.no_results == DEFAULT_NO_RESULTS,
            c.log_interval == DEFAULT_LOG_INTERVAL,
            c.fix_seed is None,
            c.speedup_clock is None,
            c.latency_ms is None,
    {
        Cli {
            data_dir: text(DEFAULT_DATA_DIR),
            sim_file: text(DEFAULT_SIM_FILE),
            total_time: DEFAULT_TOTAL_TIME,
            print_batch_size: DEFAULT_PRINT_BATCH_SIZE,
            log_level: LogLevel::Info,
            expected_pmt_amt: DEFAULT_EXPECTED_PAYMENT_AMOUNT,
            capacity_multiplier: DEFAULT_ACTIVITY_MULTIPLIER,
            no_results: DEFAULT_NO_RESULTS,
            log_interval: DEFAULT_LOG_INTERVAL,
            config: text(DEFAULT_CONFIGURATION_FILE),
            fix_seed: None,
            speedup_clock: None,
            latency_ms: None,
        }
    }
}

/// The entries of a section of a configuration file: the names of fields and the texts of their values.
pub type ConfigTable = Vec<(String, String)>;

/// The text of a field in a section of a configuration file.
pub open spec fn field_text(entries: Seq<(String, String)>, name: Seq<char>) -> Option<Seq<char>>
    decreases entries.len(),
{
    if entries.len() == 0 {
        None
    } else if entries[0].0@ == name {
        Some(entries[0].1@)
    } else {
        field_text(entries.drop_first(), name)
    }
}

/// Whether text is a word for yes, whatever the case of its letters.
pub open spec fn says_yes(text: Seq<char>) -> bool {
    same_but_case(text, "true"@) || same_but_case(text, "on"@) || same_but_case(text, "yes"@)
}

/// Whether text is a word for no, whatever the case of its letters.
pub open spec fn says_no(text: Seq<char>) -> bool {
    same_but_case(text, "false"@) || same_but_case(text, "off"@) || same_but_case(text, "no"@)
}

/// The number that text in the configuration file stands for: one for yes, zero for no, or decimal digits.
pub open spec fn config_number(text: Seq<char>) -> Option<u64> {
    if says_yes(text) {
        Some(1)
    } else if says_no(text) {
        Some(0)
    } else {
        match number_in(text, u64::MAX as nat) {
            Some(n) => Some(n as u64),
            None => None,
        }
    }
}

/// The flag that text in the configuration file stands for.
pub open spec fn config_flag(text: Seq<char>) -> Option<bool> {
    if text == "1"@ || says_yes(text) {
        Some(true)
    } else if text == "0"@ || says_no(text) {
        Some(false)
    } else {
        None
    }
}

/// Reads the number of a text value with `config::Value::into_uint`, which knows words for one and zero, and otherwise
/// reads the text as std reads a `u64`. The error is not kept.
#[verifier::external_body]
fn read_number(text: &str) -> (r: Option<u64>)
    ensures
        r == config_number(text@),
{
    config::Value::new(None, text).into_uint().ok()
}

/// Reads the flag of a text value with `config::Value::into_bool`, which knows the digits one and zero, and words for
/// them. The error is not kept.
#[verifier::external_body]
fn read_flag(text: &str) -> (r: Option<bool>)
    ensures
        r == config_flag(text@),
{
    config::Value::new(None, text).into_bool().ok()
}

/// A value that is read from the text of a field in a configuration file.
pub trait ConfigValue: Sized {
    /// Whether a value is the one that stands for text.
    spec fn stands_for(self, text: Seq<char>) -> bool;

    /// Whether text has a value.
    spec fn readable(text: Seq<char>) -> bool;

    /// Reads the value of text.
    fn read(text: &str) -> (r: Option<Self>)
        ensures
            r is Some <==> Self::readable(text@),
            r matches Some(v) ==> v.stands_for(text@),
    ;
}

impl ConfigValue for String {
    open spec fn stands_for(self, text: Seq<char>) -> bool {
        self@ == text
    }

    open spec fn readable(text: Seq<char>) -> bool {
        true
    }

    fn read(text: &str) -> (r: Option<Self>) {
        Some(text.to_owned())
    }
}

impl ConfigValue for u64 {
    open spec fn stands_for(self, text: Seq<char>) -> bool {
        config_number(text) == Some(self)
    }

    open spec fn readable(text: Seq<char>) -> bool {
        config_number(text) is Some
    }

    fn read(text: &str) -> (r: Option<Self>) {
        read_number(text)
    }
}

impl ConfigValue for u32 {
    open spec fn stands_for(self, text: Seq<char>) -> bool {
        config_number(text) == Some(self as u64)
    }

    open spec fn readable(text: Seq<char>) -> bool {
        config_number(text) matches Some(n) && n <= u32::MAX
    }

    fn read(text: &str) -> (r: Option<Self>) {
        match read_number(text) {
            Some(n) => if n <= 0xffff_ffff {
                Some(n as u32)
            } else {
                None
            },
            None => None,
        }
    }
}

impl ConfigValue for Option<u32> {
    open spec fn stands_for(self, text: Seq<char>) -> bool {
        self matches Some(n) && config_number(text) == Some(n as u64)
    }

    open spec fn readable(text: Seq<char>) -> bool {
        config_number(text) matches Some(n) && n <= u32::MAX
    }

    fn read(text: &str) -> (r: Option<Self>) {
        match read_number(text) {
            Some(n) => if n <= 0xffff_ffff {
                Some(Some(n as u32))
            } else {
                None
            },
            None => None,
        }
    }
}

impl ConfigValue for bool {
    open spec fn stands_for(self, text: Seq<char>) -> bool {
        config_flag(text) == Some(self)
    }

    open spec fn readable(text: Seq<char>) -> bool {
        config_flag(text) is Some
    }

    fn read(text: &str) -> (r: Option<Self>) {
        read_flag(text)
    }
}

/// Whether a value is that of a field in a section of a configuration file, or its default if there is no such field or
/// its text has no value.
pub open spec fn configured<T: ConfigValue>(
    entries: Seq<(String, String)>,
    name: Seq<char>,
    default_value: T,
    value: T,
) -> bool {
    match field_text(entries, name) {
        Some(text) => if T::readable(text) {
            value.stands_for(text)
        } else {
            value == default_value
        },
        None => value == default_value,
    }
}

/// Helper function to parse field_name from the config map. Defaults to the field_name's default if the field's text
/// has no value.
pub fn from_config_field<T: ConfigValue>(config_map: &ConfigTable, field_name: &str, default_value: T) -> (value: T)
    ensures
        configured(config_map@, field_name@, default_value, value),
{
    let mut i: usize = 0;
    assert(config_map@.skip(0) =~= config_map@);
    while i < config_map.len()
        invariant
            i <= config_map.len(),
            field_text(config_map@, field_name@) == field_text(config_map@.skip(i as int), field_name@),
        decreases config_map.len() - i,
    {
        let ghost rest = config_map@.skip(i as int);
        assert(rest.drop_first() =~= config_map@.skip(i + 1));
        if same_text(config_map[i].0.as_str(), field_name) {
            return match T::read(config_map[i].1.as_str()) {
                Some(value) => value,
                None => default_value,
            };
        }
        i += 1;
    }
    default_value
}

impl Cli {
    /// Validates the options for a simulation file.
    pub fn validate(&self, sim_params: &SimParams) -> (r: Result<(), String>)
        ensures
            match options_error(*self, *sim_params) {
                Some(m) => r matches Err(s) && s@ == m,
                None => r is Ok,
            },
    {
        let lightning: usize = sim_params.nodes.len();
        let simulated: usize = sim_params.sim_network.len();
        // Validate that nodes and sim_graph are exclusively set
        if lightning > 0 && simulated > 0 {
            let mut m = text("Simulation file cannot contain ");
            push_decimal(&mut m, lightning as u64);
            m.append(" nodes and ");
            push_decimal(&mut m, simulated as u64);
            m.append(
                " sim_graph entries, \n                simulation can only be run with real or simulated nodes not both.",
            );
            return Err(m);
        }
        if lightning == 0 && simulated == 0 {
            return Err(
                text(
                    "Simulation file must contain nodes to run with real lightning \n                nodes or sim_graph to run with simulated nodes",
                ),
            );
        }
        if lightning > 0 && self.speedup_clock.is_some() {
            return Err(text("Clock speedup is only allowed when running on a simulated network"));
        }
        if lightning > 0 && self.latency_ms.is_some() {
            return Err(text("Latency for payments is only allowed when running on a simulated network"));
        }
        if sim_params.exclude.len() > 0 {
            if simulated == 0 {
                return Err(
                    text(
                        "List of nodes to exclude from sending/receiving\n                    in random activity is only allowed on a simulated network",
                    ),
                );
            }
            if sim_params.activity.len() > 0 {
                return Err(
                    text("List of nodes to exclude from sending/receiving is only allowed on random activity"),
                );
            }
        }
        Ok(())
    }

    /// Creates options from a section of a configuration file and the bits of the multiplier in it, if it holds one. What
    /// is not there, or has no value, has its default value. The name of a log level must be known.
    pub fn from_config_fields(config_map: &ConfigTable, capacity_multiplier: Option<u64>) -> (r: Result<Self, String>)
        ensures
            ({
                let level = match field_text(config_map@, "log_level"@) {
                    Some(name) => named_level(name),
                    None => named_level(DEFAULT_LOG_LEVEL@),
                };
                match r {
                    Err(m) => level is None && m@
                        == "attempted to convert a string that doesn't match an existing log level"@,
                    Ok(c) => {
                        let table = config_map@;
                        &&& level == Some(c.log_level)
                        &&& c.data_dir@ == (match field_text(table, "data_dir"@) {
                            Some(text) => text,
                            None => DEFAULT_DATA_DIR@,
                        })
                        &&& c.sim_file@ == (match field_text(table, "sim_file"@) {
                            Some(text) => text,
                            None => DEFAULT_SIM_FILE@,
                        })
                        &&& configured(table, "total_time"@, DEFAULT_TOTAL_TIME, c.total_time)
                        &&& configured(table, "print_batch_size"@, DEFAULT_PRINT_BATCH_SIZE, c.print_batch_size)
                        &&& configured(table, "expected_pmt_amt"@, DEFAULT_EXPECTED_PAYMENT_AMOUNT, c.expected_pmt_amt)
                        &&& c.capacity_multiplier == given_or(capacity_multiplier, DEFAULT_ACTIVITY_MULTIPLIER)
                        &&& configured(table, "no_results"@, DEFAULT_NO_RESULTS, c.no_results)
                        &&& configured(table, "log_interval"@, DEFAULT_LOG_INTERVAL, c.log_interval)
                        &&& c.config@ == DEFAULT_CONFIGURATION_FILE@
                        &&& c.fix_seed is None && c.speedup_clock is None && c.latency_ms is None
                    },
                }
            }),
    {
        let level = from_config_field(config_map, "log_level", text(DEFAULT_LOG_LEVEL));
        let log_level = match read_level(level.as_str()) {
            Ok(level) => level,
            Err(e) => {
                return Err(e);
            },
        };
        Ok(
            Cli {
                data_dir: from_config_field(config_map, "data_dir", text(DEFAULT_DATA_DIR)),
                sim_file: from_config_field(config_map, "sim_file", text(DEFAULT_SIM_FILE)),
                total_time: from_config_field(config_map, "total_time", DEFAULT_TOTAL_TIME),
                print_batch_size: from_config_field(config_map, "print_batch_size", DEFAULT_PRINT_BATCH_SIZE),
                log_level,
                expected_pmt_amt: from_config_field(config_map, "expected_pmt_amt", DEFAULT_EXPECTED_PAYMENT_AMOUNT),
                capacity_multiplier: overwrite(capacity_multiplier, DEFAULT_ACTIVITY_MULTIPLIER),
                no_results: from_config_field(config_map, "no_results", DEFAULT_NO_RESULTS),
                log_interval: from_config_field(config_map, "log_interval", DEFAULT_LOG_INTERVAL),
                config: text(DEFAULT_CONFIGURATION_FILE),
                fix_seed: None,
                speedup_clock: None,
                latency_ms: None,
            },
        )
    }

    /// Overwrites options with those of the command line, where these are not the defaults. The options that no
    /// configuration file holds are those of the command line.
    pub fn overwrite_with(&mut self, cli: &Cli)
        ensures
            final(self).data_dir@ == overwritten_text(old(self).data_dir@, cli.data_dir@, DEFAULT_DATA_DIR@),
            final(self).sim_file@ == overwritten_text(old(self).sim_file@, cli.sim_file@, DEFAULT_SIM_FILE@),
            final(self).total_time == overwritten(old(self).total_time, cli.total_time, None),
            final(self).print_batch_size == overwritten(
                old(self).print_batch_size,
                cli.print_batch_size,
                DEFAULT_PRINT_BATCH_SIZE,
            ),
            final(self).log_level == overwritten(old(self).log_level, cli.log_level, LogLevel::Info),
            final(self).expected_pmt_amt == overwritten(
                old(self).expected_pmt_amt,
                cli.expected_pmt_amt,
                DEFAULT_EXPECTED_PAYMENT_AMOUNT,
            ),
            final(self).capacity_multiplier == overwritten(
                old(self).capacity_multiplier,
                cli.capacity_multiplier,
                DEFAULT_ACTIVITY_MULTIPLIER,
            ),
            final(self).no_results == overwritten(old(self).no_results, cli.no_results, DEFAULT_NO_RESULTS),
            final(self).log_interval == overwritten(old(self).log_interval, cli.log_interval, DEFAULT_LOG_INTERVAL),
            final(self).config@ == overwritten_text(old(self).config@, cli.config@, DEFAULT_CONFIGURATION_FILE@),
            final(self).fix_seed == cli.fix_seed,
            final(self).speedup_clock == cli.speedup_clock,
            final(self).latency_ms == cli.latency_ms,
    {
        if !same_text(cli.data_dir.as_str(), DEFAULT_DATA_DIR) {
            self.data_dir = cli.data_dir.clone();
        }
        if !same_text(cli.sim_file.as_str(), DEFAULT_SIM_FILE) {
            self.sim_file = cli.sim_file.clone();
        }
        if cli.total_time.is_some() {
            self.total_time = cli.total_time;
        }
        if cli.print_batch_size != DEFAULT_PRINT_BATCH_SIZE {
            self.print_batch_size = cli.print_batch_size;
        }
        if cli.log_level != LogLevel::Info {
            self.log_level = cli.log_level;
        }
        if cli.expected_pmt_amt != DEFAULT_EXPECTED_PAYMENT_AMOUNT {
            self.expected_pmt_amt = cli.expected_pmt_amt;
        }
        if cli.capacity_multiplier != DEFAULT_ACTIVITY_MULTIPLIER {
            self.capacity_multiplier = cli.capacity_multiplier;
        }
        if cli.no_results != DEFAULT_NO_RESULTS {
            self.no_results = cli.no_results;
        }
        if cli.log_interval != DEFAULT_LOG_INTERVAL {
            self.log_interval = cli.log_interval;
        }
        if !same_text(cli.config.as_str(), DEFAULT_CONFIGURATION_FILE) {
            self.config = cli.config.clone();
        }
        self.fix_seed = cli.fix_seed;
        self.speedup_clock = cli.speedup_clock;
        self.latency_ms = cli.latency_ms;
    }

    /// Converts into simulation config
    pub fn to_simulation_config(&self) -> (c: SimulationConfig)
        ensures
            c.data_dir@ == self.data_dir@,
            c.sim_file@ == self.sim_file@,
            c.total_time == self.total_time,
            c.print_batch_size == self.print_batch_size,
            c.log_level == self.log_level,
            c.expected_pmt_amt == self.expected_pmt_amt,
            c.capacity_multiplier == self.capacity_multiplier,
            c.no_results == self.no_results,
            c.log_interval == self.log_interval,
    {
        SimulationConfig {
            data_dir: self.data_dir.clone(),
            sim_file: self.sim_file.clone(),
            total_time: self.total_time,
            print_batch_size: self.print_batch_size,
            log_level: self.log_level,
            expected_pmt_amt: self.expected_pmt_amt,
            capacity_multiplier: self.capacity_multiplier,
            no_results: self.no_results,
            log_interval: self.log_interval,
        }
    }

    /// The configuration of the simulation, where results (if they are wanted) are written to a directory.
    pub fn simulation_cfg(&self, results_dir: String) -> (c: SimulationCfg)
        ensures
            c.total_time == (match self.total_time {
                Some(t) => Some(t as u64),
                None => None,
            }),
            c.expected_payment_msat == self.expected_pmt_amt,
            c.write_results == (if self.no_results {
                None
            } else {
                Some(WriteResults { results_dir, batch_size: self.print_batch_size })
            }),
            c.seed == self.fix_seed,
    {
        let write_results = if !self.no_results {
            Some(WriteResults { results_dir, batch_size: self.print_batch_size })
        } else {
            None
        };
        SimulationCfg::new(self.total_time, self.expected_pmt_amt, write_results, self.fix_seed)
    }
}

/// The configuration of a simulation.
#[derive(Debug)]
pub struct SimulationConfig {
    /// Path to a directory where simulation results are save
    pub data_dir: String,
    /// Path to simulation file
    pub sim_file: String,
    /// Duration for which the simulation should run
    pub total_time: Option<u32>,
    /// Number of activity results to batch together before printing to csv file [min: 1]
    pub print_batch_size: u32,
    /// Level of verbosity of the messages displayed by the simulator.
    pub log_level: LogLevel,
    /// Expected payment amount for the random activity generator
    pub expected_pmt_amt: u64,
    /// The bits of the multiplier of the overall network capacity used by the random activity generator
    pub capacity_multiplier: u64,
    /// Do not create an output file containing the simulations results
    pub no_results: bool,
    /// Duration after which results are logged
    pub log_interval: u64,
}

/// The options that were given on the command line.
#[derive(Debug)]
pub struct CliOverrides {
    pub data_dir: Option<String>,
    pub sim_file: Option<String>,
    pub total_time: Option<u32>,
    pub print_batch_size: Option<u32>,
    pub log_level: Option<LogLevel>,
    pub expected_pmt_amt: Option<u64>,
    pub capacity_multiplier: Option<u64>,
    pub no_results: Option<bool>,
}

/// The value of an option: that of the command line, if it was given there.
pub open spec fn given_or<T>(given: Option<T>, loaded: T) -> T {
    match given {
        Some(v) => v,
        None => loaded,
    }
}

/// The value of an option: that of the command line, if it was given there.
fn overwrite<T>(given: Option<T>, loaded: T) -> (r: T)
    ensures
        r == given_or(given, loaded),
{
    match given {
        Some(v) => v,
        None => loaded,
    }
}

impl SimulationConfig {
    /// The default simulation configuration file with default simulation values
    pub const DEFAULT_SIM_CONFIG_FILE: &'static str = "conf.ini";

    /// Overwrites loaded values with those that were given on the command line.
    pub fn overwrite_with_cli(self, cli: CliOverrides) -> (c: Self)
        ensures
            c == (SimulationConfig {
                data_dir: given_or(cli.data_dir, self.data_dir),
                sim_file: given_or(cli.sim_file, self.sim_file),
                total_time: (if cli.total_time is Some {
                    cli.total_time
                } else {
                    self.total_time
                }),
                print_batch_size: given_or(cli.print_batch_size, self.print_batch_size),
                log_level: given_or(cli.log_level, self.log_level),
                expected_pmt_amt: given_or(cli.expected_pmt_amt, self.expected_pmt_amt),
                capacity_multiplier: given_or(cli.capacity_multiplier, self.capacity_multiplier),
                no_results: given_or(cli.no_results, self.no_results),
                log_interval: self.log_interval,
            }),
    {
        SimulationConfig {
            data_dir: overwrite(cli.data_dir, self.data_dir),
            sim_file: overwrite(cli.sim_file, self.sim_file),
            total_time: if cli.total_time.is_some() {
                cli.total_time
            } else {
                self.total_time
            },
            print_batch_size: overwrite(cli.print_batch_size, self.print_batch_size),
            log_level: overwrite(cli.log_level, self.log_level),
            expected_pmt_amt: overwrite(cli.expected_pmt_amt, self.expected_pmt_amt),
            capacity_multiplier: overwrite(cli.capacity_multiplier, self.capacity_multiplier),
            no_results: overwrite(cli.no_results, self.no_results),
            log_interval: self.log_interval,
        }
    }
}

/// Where a file is looked for.
#[derive(Debug, Clone, Copy, PartialEq, Eq, Structural)]
pub enum FileLocation {
    /// At the path that was given.
    AsGiven,
    /// At that path within a directory.
    InDirectory,
}

/// Where the default configuration file is, given whether its path is relative (so that it is within the root
/// directory) and whether it exists at the one or the other place.
pub fn default_config_path(is_relative: bool, exists_as_given: bool, exists_in_root: bool) -> (r: Result<
    FileLocation,
    String,
>)
    ensures
        if is_relative && exists_in_root {
            r == Ok::<FileLocation, String>(FileLocation::InDirectory)
        } else if !is_relative && exists_as_given {
            r == Ok::<FileLocation, String>(FileLocation::AsGiven)
        } else {
            r matches Err(m) && m@ == "Default configuration file not found."@
        },
{
    let (location, exists) = if is_relative {
        (FileLocation::InDirectory, exists_in_root)
    } else {
        (FileLocation::AsGiven, exists_as_given)
    };
    if exists {
        Ok(location)
    } else {
        Err(text("Default configuration file not found."))
    }
}

/// Whether there is a configuration to be loaded: where the path is that of the default configuration file, only if it
/// was found.
pub fn loads_config(path: &str, default_found: bool) -> (r: bool)
    ensures
        r == (path@ != DEFAULT_CONFIGURATION_FILE@ || default_found),
{
    !same_text(path, DEFAULT_CONFIGURATION_FILE) || default_found
}

/// Where the simulation file is, given whether it exists at its path, whether the path is relative, and whether it
/// exists at that path within the data directory. It is to be selected by the user if it is not found.
pub fn read_sim_path(exists: bool, is_relative: bool, exists_in_data_dir: bool) -> (r: Option<FileLocation>)
    ensures
        r == (if exists {
            Some(FileLocation::AsGiven)
        } else if is_relative && exists_in_data_dir {
            Some(FileLocation::InDirectory)
        } else {
            None
        }),
{
    if exists {
        Some(FileLocation::AsGiven)
    } else if is_relative {
        if exists_in_data_dir {
            Some(FileLocation::InDirectory)
        } else {
            None
        }
    } else {
        None
    }
}

/// An option is that of the command line unless the command line has its default, and then it stays as it is configured.
pub proof fn law_command_line_overrides_the_file<T>(configured: T, given: T, default_value: T, a: Seq<char>, b: Seq<char>)
    ensures
        given != default_value ==> overwritten(configured, given, default_value) == given,
        overwritten(configured, default_value, default_value) == configured,
        a != b ==> overwritten_text(b, a, b) == a,
        overwritten_text(a, b, b) == a,
        given_or(Some(given), configured) == given,
        given_or(None, configured) == configured,
{
}

/// The text of a field is that of the first entry with its name, and there is none if no entry has it.
pub proof fn law_first_entry_gives_the_field(entries: Seq<(String, String)>, name: Seq<char>)
    ensures
        field_text(entries, name) is None <==> forall|i: int| 0 <= i < entries.len() ==> (#[trigger] entries[i]).0@ != name,
        field_text(entries, name) matches Some(text) ==> exists|i: int|
            {
                &&& 0 <= i < entries.len()
                &&& (#[trigger] entries[i]).0@ == name
                &&& entries[i].1@ == text
                &&& forall|j: int| 0 <= j < i ==> (#[trigger] entries[j]).0@ != name
            },
    decreases entries.len(),
{
    if entries.len() > 0 && entries[0].0@ != name {
        let rest = entries.drop_first();
        law_first_entry_gives_the_field(rest, name);
        if let Some(text) = field_text(rest, name) {
            let i = choose|i: int|
                {
                    &&& 0 <= i < rest.len()
                    &&& (#[trigger] rest[i]).0@ == name
                    &&& rest[i].1@ == text
                    &&& forall|j: int| 0 <= j < i ==> (#[trigger] rest[j]).0@ != name
                };
            assert(entries[i + 1].0@ == name);
            assert forall|j: int| 0 <= j < i + 1 implies (#[trigger] entries[j]).0@ != name by {
                if j > 0 {
                    assert(rest[j - 1].0@ != name);
                }
            }
        } else {
            assert forall|i: int| 0 <= i < entries.len() implies (#[trigger] entries[i]).0@ != name by {
                if i > 0 {
                    assert(rest[i - 1].0@ != name);
                }
            }
        }
    }
}

/// A field of a configuration file that can be read has its value there, and any other has its default.
pub proof fn law_fields_have_their_value_or_default(
    entries: Seq<(String, String)>,
    name: Seq<char>,
    default_value: u64,
    value: u64,
)
    requires
        configured(entries, name, default_value, value),
    ensures
        field_text(entries, name) is None ==> value == default_value,
        field_text(entries, name) matches Some(text) ==> value == (match config_number(text) {
            Some(n) => n,
            None => default_value,
        }),
{
}

/// Texts are the same but for case if and only if they are equally long and have the same characters in order, up to letters of
/// which one is the capital of the other.
pub proof fn law_case_matters_for_letters_only(a: Seq<char>, b: Seq<char>)
    ensures
        same_but_case(a, b) <==> a.len() == b.len() && forall|i: int|
            0 <= i < a.len() ==> {
                ||| #[trigger] a[i] == b[i]
                ||| 'A' <= a[i] && a[i] <= 'Z' && b[i] as int == a[i] as int + 32
                ||| 'A' <= b[i] && b[i] <= 'Z' && a[i] as int == b[i] as int + 32
            },
{
    let x = a.map_values(|c: char| lower(c));
    let y = b.map_values(|c: char| lower(c));
    if same_but_case(a, b) {
        assert(x.len() == y.len());
        assert forall|i: int| 0 <= i < a.len() implies {
            ||| #[trigger] a[i] == b[i]
            ||| 'A' <= a[i] && a[i] <= 'Z' && b[i] as int == a[i] as int + 32
            ||| 'A' <= b[i] && b[i] <= 'Z' && a[i] as int == b[i] as int + 32
        } by {
            assert(x[i] == y[i]);
        }
    }
    if a.len() == b.len() && forall|i: int|
        0 <= i < a.len() ==> {
            ||| #[trigger] a[i] == b[i]
            ||| 'A' <= a[i] && a[i] <= 'Z' && b[i] as int == a[i] as int + 32
            ||| 'A' <= b[i] && b[i] <= 'Z' && a[i] as int == b[i] as int + 32
        } {
        assert(x =~= y) by {
            assert forall|i: int| 0 <= i < x.len() implies x[i] == y[i] by {
                assert(a[i] == b[i] || a[i] != b[i]);
            }
        }
    }
}

/// A number that is written in decimal digits is read as itself, and words for yes and no are read as one and zero, and as flags.
pub proof fn law_numbers_and_words_are_read(n: u64, text: Seq<char>)
    ensures
        config_number(decimal(n as nat)) == Some(n),
        says_yes(text) ==> config_number(text) == Some(1u64) && config_flag(text) == Some(true),
        says_no(text) ==> config_number(text) == Some(0u64) && config_flag(text) == Some(false),
        config_flag("1"@) == Some(true),
        config_flag("0"@) == Some(false),
        !says_yes(text) && !says_no(text) && text != "1"@ && text != "0"@ ==> config_flag(text) is None,
{
    let word = decimal(n as nat);
    law_decimal_is_read_back(n as nat, u64::MAX as nat);
    reveal_strlit("true");
    reveal_strlit("on");
    reveal_strlit("yes");
    reveal_strlit("false");
    reveal_strlit("off");
    reveal_strlit("no");
    reveal_strlit("1");
    reveal_strlit("0");
    lemma_words_start_with_letters(word);
    lemma_words_start_with_letters(text);
    lemma_words_start_with_letters("0"@);
    law_case_matters_for_letters_only(text, "true"@);
    law_case_matters_for_letters_only(text, "on"@);
    law_case_matters_for_letters_only(text, "yes"@);
    law_case_matters_for_letters_only(text, "false"@);
    law_case_matters_for_letters_only(text, "off"@);
    law_case_matters_for_letters_only(text, "no"@);
    assert("on"@[0] == 'o' && "no"@[0] == 'n' && "yes"@[0] == 'y' && "off"@[0] == 'o');
    assert("1"@[0] == '1' && "0"@[0] == '0');
    assert(word[0] == word[0]);
    if says_no(text) {
        assert(text[0] == text[0]);
    }
}

/// Words for yes and no start with a letter.
proof fn lemma_words_start_with_letters(text: Seq<char>)
    ensures
        says_yes(text) || says_no(text) ==> text.len() >= 2 && text[0] >= 'A',
{
    reveal_strlit("true");
    reveal_strlit("on");
    reveal_strlit("yes");
    reveal_strlit("false");
    reveal_strlit("off");
    reveal_strlit("no");
    law_case_matters_for_letters_only(text, "true"@);
    law_case_matters_for_letters_only(text, "on"@);
    law_case_matters_for_letters_only(text, "yes"@);
    law_case_matters_for_letters_only(text, "false"@);
    law_case_matters_for_letters_only(text, "off"@);
    law_case_matters_for_letters_only(text, "no"@);
    assert("on"@[0] == 'o' && "no"@[0] == 'n' && "yes"@[0] == 'y' && "off"@[0] == 'o' && "true"@[0] == 't' && "false"@[0] == 'f');
    if says_yes(text) || says_no(text) {
        assert(text[0] == text[0]);
    }
}

/// A limit, a flag or a text of a configuration file that can be read has its value there, and any other has its default.
pub proof fn law_fields_of_all_kinds_are_read(
    entries: Seq<(String, String)>,
    name: Seq<char>,
    limit: (u32, u32),
    time: (Option<u32>, Option<u32>),
    flag: (bool, bool),
    word: (String, String),
)
    ensures
        configured(entries, name, limit.0, limit.1) ==> match field_text(entries, name) {
            Some(text) => match config_number(text) {
                Some(n) => if n <= 0xffff_ffff {
                    limit.1 == n
                } else {
                    limit.1 == limit.0
                },
                None => limit.1 == limit.0,
            },
            None => limit.1 == limit.0,
        },
        configured(entries, name, time.0, time.1) ==> match field_text(entries, name) {
            Some(text) => match config_number(text) {
                Some(n) => if n <= 0xffff_ffff {
                    time.1 matches Some(t) && t == n
                } else {
                    time.1 == time.0
                },
                None => time.1 == time.0,
            },
            None => time.1 == time.0,
        },
        configured(entries, name, flag.0, flag.1) ==> match field_text(entries, name) {
            Some(text) => match config_flag(text) {
                Some(b) => flag.1 == b,
                None => flag.1 == flag.0,
            },
            None => flag.1 == flag.0,
        },
        configured(entries, name, word.0, word.1) ==> match field_text(entries, name) {
            Some(text) => word.1@ == text,
            None => word.1 == word.0,
        },
{
}

} // verus!
