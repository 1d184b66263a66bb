//! Running simulation files and reading their results: what is assembled from the environment and the scenario, and what
//! is observed.
use crate::keyed::KeyedMap;
use crate::node::{ActivityDefinition, ValueOrRange};
use crate::parsing::{ActivityParser, NetworkParser, NodeConnection, SimParams};
use crate::payment::{Payment, PaymentOutcome, PaymentResult};
use crate::primitives::{is_curve_point, parsed_public_key, PublicKey};
use crate::scenario::{is_entry, refers_to, ActivityEntry, NodeHandle, Scenario, ValueSpec};
use crate::serializers::payment_hash_text;
use crate::simulated::ConfigFragment;
use crate::simulation::{SimulationCfg, WriteResults};
use crate::text::{
    decimal, decimal_text, hex_bytes, law_decimal_is_read_back, law_hex_round_trip, number_in, push_decimal, quote, quoted,
    read_u64, same_text, text,
};
use vstd::prelude::*;

verus! {

/// Assembles a simulation file from the environment and scenario layers.
#[derive(Debug)]
pub struct SimFile {
    pub fragment: ConfigFragment,
    pub activity: Vec<ActivityEntry>,
    pub exclude: Vec<String>,
}

/// Whether an activity is the one that is read from an entry.
pub open spec fn is_read_from(a: ActivityParser, entry: ActivityEntry) -> bool {
    &&& refers_to(entry.source@, a.source)
    &&& refers_to(entry.destination@, a.destination)
    &&& a.start_secs is None
    &&& a.count == entry.count
    &&& Some(a.interval_secs) == entry.interval_secs.interval()
    &&& a.amount_msat == entry.amount_msat.amount()
}

/// Whether an entry can be read.
pub open spec fn is_readable(entry: ActivityEntry) -> bool {
    entry.amount_msat.amount().wf() && entry.interval_secs.interval() is Some
}

impl SimFile {
    /// A file without activity.
    pub fn new(fragment: ConfigFragment) -> (f: Self)
        ensures
            f.fragment == fragment,
            f.activity@.len() == 0,
            f.exclude@.len() == 0,
    {
        SimFile { fragment, activity: Vec::new(), exclude: Vec::new() }
    }

    /// Populates activity and exclusions from a scenario.
    pub fn scenario(self, scenario: &Scenario, nodes: &Vec<NodeHandle>) -> (f: Self)
        requires
            scenario.fits(nodes@.len() as int),
        ensures
            f.fragment == self.fragment,
            match scenario {
                Scenario::Defined { pairs, count, style } => {
                    &&& f.exclude@.len() == 0
                    &&& f.activity@.len() == pairs@.len()
                    &&& forall|i: int|
                        0 <= i < f.activity@.len() ==> is_entry(
                            #[trigger] f.activity@[i],
                            pairs@[i],
                            *count,
                            *style,
                            nodes@,
                        )
                },
                Scenario::Random { excludes } => {
                    &&& f.activity@.len() == 0
                    &&& f.exclude@.len() == excludes@.len()
                    &&& forall|i: int|
                        0 <= i < f.exclude@.len() ==> (#[trigger] f.exclude@[i])@
                            == nodes@[excludes@[i] as int].pubkey.text()
                },
            },
    {
        SimFile {
            fragment: self.fragment,
            activity: scenario.activity_json(nodes),
            exclude: scenario.exclude_json(nodes),
        }
    }

    /// Sets a raw activity section, for tests that intentionally write invalid references.
    pub fn activity_raw(self, activity: Vec<ActivityEntry>) -> (f: Self)
        ensures
            f.fragment == self.fragment,
            f.activity == activity,
            f.exclude == self.exclude,
    {
        SimFile { fragment: self.fragment, activity, exclude: self.exclude }
    }

    /// The parameters that the simulator reads from the file. The keys of excluded nodes must be valid, as must all
    /// amounts and intervals.
    pub fn parse_params(self) -> (r: Result<SimParams, String>)
        ensures
            r is Ok <==> {
                &&& forall|i: int| 0 <= i < self.activity@.len() ==> is_readable(#[trigger] self.activity@[i])
                &&& forall|i: int|
                    0 <= i < self.exclude@.len() ==> parsed_public_key((#[trigger] self.exclude@[i])@) is Ok
            },
            r matches Ok(p) ==> {
                &&& match self.fragment {
                    ConfigFragment::RealNodes(nodes) => p.nodes == nodes && p.sim_network@.len() == 0,
                    ConfigFragment::SimGraph(channels) => p.sim_network == channels && p.nodes@.len() == 0,
                }
                &&& p.activity@.len() == self.activity@.len()
                &&& forall|i: int|
                    0 <= i < p.activity@.len() ==> is_read_from(#[trigger] p.activity@[i], self.activity@[i])
                &&& p.exclude@.len() == self.exclude@.len()
                &&& forall|i: int|
                    0 <= i < p.exclude@.len() ==> parsed_public_key(self.exclude@[i]@) == Ok::<Seq<u8>, Seq<char>>(
                        (#[trigger] p.exclude@[i]).0@,
                    )
            },
    {
        let mut activity: Vec<ActivityParser> = Vec::new();
        let mut i: usize = 0;
        while i < self.activity.len()
            invariant
                i <= self.activity@.len(),
                activity@.len() == i,
                forall|j: int| 0 <= j < i ==> is_readable(#[trigger] self.activity@[j]),
                forall|j: int| 0 <= j < i ==> is_read_from(#[trigger] activity@[j], self.activity@[j]),
            decreases self.activity@.len() - i,
        {
            match self.activity[i].parse() {
                Ok(a) => {
                    activity.push(a);
                },
                Err(e) => {
                    assert(!is_readable(self.activity@[i as int]));
                    return Err(e);
                },
            }
            i += 1;
        }
        let mut exclude: Vec<PublicKey> = Vec::new();
        let mut i: usize = 0;
        while i < self.exclude.len()
            invariant
                i <= self.exclude@.len(),
                exclude@.len() == i,
                forall|j: int|
                    0 <= j < i ==> parsed_public_key(self.exclude@[j]@) == Ok::<Seq<u8>, Seq<char>>(
                        (#[trigger] exclude@[j]).0@,
                    ),
                forall|j: int| 0 <= j < i ==> parsed_public_key((#[trigger] self.exclude@[j])@) is Ok,
            decreases self.exclude@.len() - i,
        {
            match PublicKey::parse(self.exclude[i].as_str()) {
                Ok(key) => {
                    exclude.push(key);
                },
                Err(e) => {
                    assert(parsed_public_key(self.exclude@[i as int]@) is Err);
                    return Err(e);
                },
            }
            i += 1;
        }
        let (nodes, sim_network) = match self.fragment {
            ConfigFragment::RealNodes(nodes) => (nodes, Vec::<NetworkParser>::new()),
            ConfigFragment::SimGraph(channels) => (Vec::<NodeConnection>::new(), channels),
        };
        Ok(SimParams { nodes, sim_network, activity, exclude })
    }
}

/// Options controlling a simulation run, mirroring the flags of the simulator that are relevant to tests.
#[derive(Debug, Clone, Copy, PartialEq, Eq, Structural)]
pub struct RunOptions {
    pub total_time: Option<u32>,
    pub expected_pmt_amt: u64,
    /// The bits of the capacity multiplier, as an IEEE 754 number of double precision.
    pub capacity_multiplier: u64,
    pub fix_seed: Option<u64>,
}

impl Default for RunOptions {
    fn default() -> (o: Self)
        ensures
            o.total_time == Some(3600u32),
            o.expected_pmt_amt == 3_800_000,
            o.capacity_multiplier == 0x4000_0000_0000_0000,
            o.fix_seed == Some(42u64),
    {
        RunOptions {
            total_time: Some(3600),
            expected_pmt_amt: 3_800_000,
            capacity_multiplier: 0x4000_0000_0000_0000,
            fix_seed: Some(42),
        }
    }
}

impl RunOptions {
    /// The configuration of a run, which flushes every record so results are complete even if shutdown races the writer.
    pub fn simulation_cfg(&self, results_dir: String) -> (c: SimulationCfg)
        ensures
            c.total_time == (match self.total_time {
                Some(t) => Some(t as u64),
                None => None,
            }),
            c.expected_payment_msat == self.expected_pmt_amt,
            c.write_results == Some(WriteResults { results_dir, batch_size: 1 }),
            c.seed == self.fix_seed,
    {
        SimulationCfg::new(
            self.total_time,
            self.expected_pmt_amt,
            Some(WriteResults { results_dir, batch_size: 1 }),
            self.fix_seed,
        )
    }
}

/// A payment recorded in the simulation's results.
#[derive(Debug)]
pub struct PaymentRecord {
    pub source: PublicKey,
    pub destination: PublicKey,
    pub amount_msat: u64,
    pub outcome: String,
}

impl PaymentRecord {
    /// Whether the payment succeeded.
    pub open spec fn succeeded(&self) -> bool {
        self.outcome@ == "Success"@
    }

    /// Whether the payment succeeded.
    pub fn is_success(&self) -> (r: bool)
        ensures
            r == self.succeeded(),
    {
        same_text(self.outcome.as_str(), "Success")
    }
}

/// The observable output of a simulation run.
#[derive(Debug)]
pub struct SimOutput {
    /// The parameters as read from the simulation file, for assertions on parsing itself.
    pub params: SimParams,
    /// The validated activities the simulation ran with, with node references fully resolved.
    pub activities: Vec<ActivityDefinition>,
    /// Total payments dispatched, as reported by the simulation.
    pub total_payments: u64,
    /// Per-payment records read back from the results.
    pub records: Vec<PaymentRecord>,
}

/// The text of an outcome in the results. The index at which a payment failed stands for itself.
pub open spec fn outcome_field(outcome: PaymentOutcome) -> Seq<char> {
    match outcome {
        PaymentOutcome::IndexFailure(i) => decimal(i as nat),
        _ => outcome.text(),
    }
}

/// Whether the fields of a row of the results are those of a payment and its result: source, destination, amount_msat,
/// hash, dispatch_time (in milliseconds), htlc_count and payment_outcome.
pub open spec fn is_row(row: Seq<String>, payment: Payment, result: PaymentResult) -> bool {
    &&& row.len() == 7
    &&& row[0]@ == payment.source.text()
    &&& row[1]@ == payment.destination.text()
    &&& row[2]@ == decimal(payment.amount_msat as nat)
    &&& row[3]@ == (match payment.hash {
        Some(h) => h.text(),
        None => "Unknown"@,
    })
    &&& row[4]@ == decimal(
        (payment.dispatch_time.secs * 1000 + payment.dispatch_time.nanos as int / 1_000_000) as nat,
    )
    &&& row[5]@ == decimal(result.htlc_count as nat)
    &&& row[6]@ == outcome_field(result.payment_outcome)
}

/// The fields of a payment and its result in the results.
pub fn result_row(payment: &Payment, result: &PaymentResult) -> (row: Vec<String>)
    requires
        payment.dispatch_time.secs * 1000 + 4294 <= u64::MAX,
    ensures
        is_row(row@, *payment, *result),
{
    let mut row: Vec<String> = Vec::new();
    row.push(payment.source.to_text());
    row.push(payment.destination.to_text());
    row.push(decimal_text(payment.amount_msat));
    row.push(payment_hash_text(&payment.hash));
    let millis: u64 = payment.dispatch_time.secs * 1000 + (payment.dispatch_time.nanos / 1_000_000) as u64;
    row.push(decimal_text(millis));
    row.push(decimal_text(result.htlc_count as u64));
    let outcome = match result.payment_outcome {
        PaymentOutcome::IndexFailure(i) => decimal_text(i as u64),
        _ => result.payment_outcome.to_text(),
    };
    row.push(outcome);
    row
}

/// The texts of fields in quotes, separated by commas.
pub open spec fn quoted_list(fields: Seq<String>) -> Seq<char>
    decreases fields.len(),
{
    if fields.len() == 0 {
        Seq::empty()
    } else if fields.len() == 1 {
        quoted(fields[0]@)
    } else {
        quoted_list(fields.drop_last()) + ", "@ + quoted(fields.last()@)
    }
}

/// Why a row lacks a field.
pub open spec fn missing_field(row: Seq<String>, i: nat) -> Seq<char> {
    "results row missing field "@ + decimal(i) + ": StringRecord(["@ + quoted_list(row) + "])"@
}

/// Why a row lacks a field.
fn missing_field_text(row: &Vec<String>, i: u64) -> (m: String)
    ensures
        m@ == missing_field(row@, i as nat),
{
    let mut list = String::new();
    let mut k: usize = 0;
    assert(row@.subrange(0, 0) =~= Seq::empty());
    while k < row.len()
        invariant
            k <= row@.len(),
            list@ == quoted_list(row@.subrange(0, k as int)),
        decreases row@.len() - k,
    {
        let ghost next = row@.subrange(0, k as int + 1);
        assert(next.drop_last() =~= row@.subrange(0, k as int));
        if k > 0 {
            list.append(", ");
        }
        list.append(quote(row[k].as_str()).as_str());
        assert(list@ =~= quoted_list(next));
        k += 1;
    }
    assert(row@.subrange(0, k as int) =~= row@);
    let mut m = text("results row missing field ");
    push_decimal(&mut m, i);
    m.append(": StringRecord([");
    m.append(list.as_str());
    m.append("])");
    m
}

/// What is wrong with a row of the results, if anything.
pub open spec fn row_error(row: Seq<String>) -> Option<Seq<char>> {
    if row.len() < 1 {
        Some(missing_field(row, 0))
    } else if parsed_public_key(row[0]@) is Err {
        Some("results row source pubkey"@)
    } else if row.len() < 2 {
        Some(missing_field(row, 1))
    } else if parsed_public_key(row[1]@) is Err {
        Some("results row destination pubkey"@)
    } else if row.len() < 3 {
        Some(missing_field(row, 2))
    } else if number_in(row[2]@, u64::MAX as nat) is None {
        Some("results row amount"@)
    } else if row.len() < 7 {
        Some(missing_field(row, 6))
    } else {
        None
    }
}

/// Reads a row of the results. A row that was written for a payment is read back as that payment.
pub fn read_record(row: &Vec<String>) -> (r: Result<PaymentRecord, String>)
    ensures
        match row_error(row@) {
            Some(m) => r matches Err(e) && e@ == m,
            None => {
                &&& r matches Ok(record)
                &&& parsed_public_key(row@[0]@) == Ok::<Seq<u8>, Seq<char>>(record.source.0@)
                &&& parsed_public_key(row@[1]@) == Ok::<Seq<u8>, Seq<char>>(record.destination.0@)
                &&& number_in(row@[2]@, u64::MAX as nat) == Some(record.amount_msat as nat)
                &&& record.outcome@ == row@[6]@
            },
        },
        forall|payment: Payment, result: PaymentResult|
            is_curve_point(payment.source.0@) && is_curve_point(payment.destination.0@) && #[trigger] is_row(
                row@,
                payment,
                result,
            ) ==> {
                &&& r matches Ok(record)
                &&& record.source == payment.source
                &&& record.destination == payment.destination
                &&& record.amount_msat == payment.amount_msat
                &&& record.outcome@ == outcome_field(result.payment_outcome)
            },
{
    proof {
        assert forall|payment: Payment, result: PaymentResult| #[trigger] is_row(row@, payment, result) implies number_in(
            row@[2]@,
            u64::MAX as nat,
        ) == Some(payment.amount_msat as nat) by {
            law_decimal_is_read_back(payment.amount_msat as nat, u64::MAX as nat);
        }
    }
    if row.len() < 1 {
        return Err(missing_field_text(row, 0));
    }
    let source = match PublicKey::parse(row[0].as_str()) {
        Ok(key) => key,
        Err(_) => {
            return Err(text("results row source pubkey"));
        },
    };
    if row.len() < 2 {
        return Err(missing_field_text(row, 1));
    }
    let destination = match PublicKey::parse(row[1].as_str()) {
        Ok(key) => key,
        Err(_) => {
            return Err(text("results row destination pubkey"));
        },
    };
    if row.len() < 3 {
        return Err(missing_field_text(row, 2));
    }
    let amount_msat: u64 = match read_u64(row[2].as_str()) {
        Some(n) => n,
        None => {
            return Err(text("results row amount"));
        },
    };
    if row.len() < 7 {
        return Err(missing_field_text(row, 6));
    }
    Ok(PaymentRecord { source, destination, amount_msat, outcome: row[6].clone() })
}

/// What is wrong with the first row of the results that is not valid, if there is one.
pub open spec fn rows_error(rows: Seq<Vec<String>>) -> Option<Seq<char>>
    decreases rows.len(),
{
    if rows.len() == 0 {
        None
    } else {
        match rows_error(rows.drop_last()) {
            Some(m) => Some(m),
            None => row_error(rows.last()@),
        }
    }
}

proof fn lemma_rows_error_stays(rows: Seq<Vec<String>>, n: int)
    requires
        0 <= n <= rows.len(),
        rows_error(rows.subrange(0, n)) is Some,
    ensures
        rows_error(rows) == rows_error(rows.subrange(0, n)),
    decreases rows.len() - n,
{
    if n < rows.len() {
        assert(rows.subrange(0, n + 1).drop_last() =~= rows.subrange(0, n));
        lemma_rows_error_stays(rows, n + 1);
    } else {
        assert(rows.subrange(0, n) =~= rows);
    }
}

/// Reads the rows of the results, given the number of files with results in the directory, of which there must be one.
pub fn read_records(files: usize, results_dir: &str, rows: &Vec<Vec<String>>) -> (r: Result<Vec<PaymentRecord>, String>)
    ensures
        if files == 0 {
            r matches Err(m) && m@ == "no results CSV found in "@ + results_dir@
        } else if files > 1 {
            r matches Err(m) && m@ == "expected a single results CSV in "@ + results_dir@ + ", found "@ + decimal(
                files as nat,
            )
        } else {
            match rows_error(rows@) {
                Some(m) => r matches Err(e) && e@ == m,
                None => {
                    &&& r matches Ok(records)
                    &&& records@.len() == rows@.len()
                    &&& forall|i: int|
                        0 <= i < records@.len() ==> {
                            &&& parsed_public_key(rows@[i]@[0]@) == Ok::<Seq<u8>, Seq<char>>(
                                (#[trigger] records@[i]).source.0@,
                            )
                            &&& parsed_public_key(rows@[i]@[1]@) == Ok::<Seq<u8>, Seq<char>>(
                                records@[i].destination.0@,
                            )
                            &&& number_in(rows@[i]@[2]@, u64::MAX as nat) == Some(records@[i].amount_msat as nat)
                            &&& records@[i].outcome@ == rows@[i]@[6]@
                        }
                },
            }
        },
{
    if files == 0 {
        let mut m = text("no results CSV found in ");
        m.append(results_dir);
        return Err(m);
    }
    if files > 1 {
        let mut m = text("expected a single results CSV in ");
        m.append(results_dir);
        m.append(", found ");
        push_decimal(&mut m, files as u64);
        return Err(m);
    }
    let mut records: Vec<PaymentRecord> = Vec::new();
    let mut i: usize = 0;
    assert(rows@.subrange(0, 0) =~= Seq::empty());
    while i < rows.len()
        invariant
            files == 1,
            i <= rows@.len(),
            records@.len() == i,
            rows_error(rows@.subrange(0, i as int)) is None,
            forall|j: int|
                0 <= j < i ==> {
                    &&& parsed_public_key(rows@[j]@[0]@) == Ok::<Seq<u8>, Seq<char>>((#[trigger] records@[j]).source.0@)
                    &&& parsed_public_key(rows@[j]@[1]@) == Ok::<Seq<u8>, Seq<char>>(records@[j].destination.0@)
                    &&& number_in(rows@[j]@[2]@, u64::MAX as nat) == Some(records@[j].amount_msat as nat)
                    &&& records@[j].outcome@ == rows@[j]@[6]@
                },
        decreases rows@.len() - i,
    {
        let ghost next = rows@.subrange(0, i as int + 1);
        proof {
            assert(next.drop_last() =~= rows@.subrange(0, i as int));
            assert(next.last() == rows@[i as int]);
        }
        match read_record(&rows[i]) {
            Ok(record) => {
                records.push(record);
            },
            Err(e) => {
                proof {
                    lemma_rows_error_stays(rows@, i as int + 1);
                }
                return Err(e);
            },
        }
        i += 1;
    }
    assert(rows@.subrange(0, i as int) =~= rows@);
    Ok(records)
}

/// Lookup from pubkey to the index of the last node that has it.
pub fn handles_by_pubkey(nodes: &Vec<NodeHandle>) -> (map: KeyedMap<PublicKey, usize>)
    ensures
        map.wf(),
        forall|i: int| 0 <= i < nodes@.len() ==> map@.dom().contains((#[trigger] nodes@[i]).pubkey),
        forall|k: PublicKey| #[trigger]
            map@.dom().contains(k) ==> {
                &&& map@[k] < nodes@.len()
                &&& nodes@[map@[k] as int].pubkey == k
                &&& forall|i: int| map@[k] < i < nodes@.len() ==> (#[trigger] nodes@[i]).pubkey != k
            },
{
    let mut map: KeyedMap<PublicKey, usize> = KeyedMap::new();
    let mut i: usize = 0;
    while i < nodes.len()
        invariant
            i <= nodes@.len(),
            map.wf(),
            forall|j: int| 0 <= j < i ==> map@.dom().contains((#[trigger] nodes@[j]).pubkey),
            forall|k: PublicKey| #[trigger]
                map@.dom().contains(k) ==> {
                    &&& map@[k] < i
                    &&& nodes@[map@[k] as int].pubkey == k
                    &&& forall|j: int| map@[k] < j < i ==> (#[trigger] nodes@[j]).pubkey != k
                },
        decreases nodes@.len() - i,
    {
        map.insert(nodes[i].pubkey, i);
        i += 1;
    }
    map
}

/// A row of the results gives back the payment and the result that it was written for: the keys of both nodes, the amount, the
/// hash, the time of dispatch in whole milliseconds, the number of htlcs and the outcome, where a failure at a hop is given by
/// the position of the hop.
pub proof fn law_row_gives_back_the_payment(row: Seq<String>, payment: Payment, result: PaymentResult)
    requires
        is_row(row, payment, result),
        payment.dispatch_time.nanos < 1_000_000_000,
    ensures
        row.len() == 7,
        hex_bytes(row[0]@) == payment.source.0@,
        hex_bytes(row[1]@) == payment.destination.0@,
        number_in(row[2]@, u64::MAX as nat) == Some(payment.amount_msat as nat),
        payment.hash matches Some(hash) ==> hex_bytes(row[3]@) == hash.0@,
        payment.hash is None ==> row[3]@ == "Unknown"@,
        ({
            let elapsed = payment.dispatch_time.secs * 1_000_000_000 + payment.dispatch_time.nanos;
            let max = (u64::MAX * 1000) as nat;
            &&& number_in(row[4]@, max + 1000) matches Some(millis)
            &&& millis * 1_000_000 <= elapsed < (millis + 1) * 1_000_000
        }),
        number_in(row[5]@, u64::MAX as nat) == Some(result.htlc_count as nat),
        result.payment_outcome matches PaymentOutcome::IndexFailure(i) ==> number_in(row[6]@, u64::MAX as nat) == Some(i as nat),
        result.payment_outcome is Success ==> row[6]@ == "Success"@,
        !(result.payment_outcome is IndexFailure) ==> row[6]@ == result.payment_outcome.text(),
{
    law_hex_round_trip(payment.source.0@);
    law_hex_round_trip(payment.destination.0@);
    if let Some(hash) = payment.hash {
        law_hex_round_trip(hash.0@);
    }
    law_decimal_is_read_back(payment.amount_msat as nat, u64::MAX as nat);
    law_decimal_is_read_back(result.htlc_count as nat, u64::MAX as nat);
    if let PaymentOutcome::IndexFailure(i) = result.payment_outcome {
        law_decimal_is_read_back(i as nat, u64::MAX as nat);
    }
    let millis = (payment.dispatch_time.secs * 1000 + payment.dispatch_time.nanos as int / 1_000_000) as nat;
    law_decimal_is_read_back(millis, (u64::MAX * 1000) as nat + 1000);
}

/// A row can be read if and only if it has all seven fields, both keys are keys and the amount is a number.
pub proof fn law_rows_need_keys_and_an_amount(row: Seq<String>)
    ensures
        row_error(row) is None <==> {
            &&& row.len() >= 7
            &&& parsed_public_key(row[0]@) is Ok
            &&& parsed_public_key(row[1]@) is Ok
            &&& number_in(row[2]@, u64::MAX as nat) is Some
        },
{
}

/// Rows can be read if and only if each of them can be, and what is wrong with them is what is wrong with the first that can not.
pub proof fn law_first_faulty_row_is_reported(rows: Seq<Vec<String>>)
    ensures
        rows_error(rows) is None <==> forall|i: int| 0 <= i < rows.len() ==> row_error((#[trigger] rows[i])@) is None,
        rows_error(rows) matches Some(m) ==> exists|i: int|
            {
                &&& 0 <= i < rows.len()
                &&& row_error((#[trigger] rows[i])@) == Some(m)
                &&& forall|j: int| 0 <= j < i ==> row_error((#[trigger] rows[j])@) is None
            },
    decreases rows.len(),
{
    if rows.len() > 0 {
        let before = rows.drop_last();
        let n = before.len() as int;
        law_first_faulty_row_is_reported(before);
        assert forall|i: int| 0 <= i < n implies #[trigger] before[i] == rows[i] by {}
        assert(rows[n] == rows.last());
        if let Some(m) = rows_error(before) {
            let i = choose|i: int|
                {
                    &&& 0 <= i < before.len()
                    &&& row_error((#[trigger] before[i])@) == Some(m)
                    &&& forall|j: int| 0 <= j < i ==> row_error((#[trigger] before[j])@) is None
                };
            assert(row_error(rows[i]@) == Some(m));
            assert forall|j: int| 0 <= j < i implies row_error((#[trigger] rows[j])@) is None by {
                assert(row_error(before[j]@) is None);
            }
        } else {
            assert forall|j: int| 0 <= j < n implies row_error((#[trigger] rows[j])@) is None by {
                assert(row_error(before[j]@) is None);
            }
            if row_error(rows.last()@) is Some {
                assert(row_error(rows[n]@) is Some);
            }
        }
    }
}

/// An entry of the file is read with its own references, number of payments, interval and amount, and without a start.
pub proof fn law_entries_are_read_as_written(a: ActivityParser, entry: ActivityEntry)
    requires
        is_read_from(a, entry),
    ensures
        refers_to(entry.source@, a.source),
        refers_to(entry.destination@, a.destination),
        a.start_secs is None,
        a.count == entry.count,
        match entry.amount_msat {
            ValueSpec::Scalar(v) => a.amount_msat == ValueOrRange::Value(v),
            ValueSpec::Range(x, y) => a.amount_msat == ValueOrRange::Range(x, y),
        },
        match entry.interval_secs {
            ValueSpec::Scalar(v) => a.interval_secs matches ValueOrRange::Value(w) && w == v,
            ValueSpec::Range(x, y) => a.interval_secs matches ValueOrRange::Range(w, z) && w == x && z == y,
        },
{
}

/// A payment that is read back from the results succeeded if and only if that was its outcome when it was written.
pub proof fn law_success_is_read_back(record: PaymentRecord, outcome: PaymentOutcome)
    requires
        record.outcome@ == outcome_field(outcome),
    ensures
        record.succeeded() <==> outcome is Success,
{
    reveal_strlit("Success");
    reveal_strlit("RecipientRejected");
    reveal_strlit("UserAbandoned");
    reveal_strlit("RetriesExhausted");
    reveal_strlit("PaymentExpired");
    reveal_strlit("RouteNotFound");
    reveal_strlit("UnexpectedError");
    reveal_strlit("IncorrectPaymentDetails");
    reveal_strlit("InsufficientBalance");
    reveal_strlit("Unknown");
    reveal_strlit("NotDispatched");
    reveal_strlit("TrackPaymentFailed");
    assert("Success"@[0] == 'S' && "Unknown"@[0] == 'U');
    if let PaymentOutcome::IndexFailure(i) = outcome {
        law_decimal_is_read_back(i as nat, u64::MAX as nat);
        assert(number_in("Success"@, u64::MAX as nat) is None);
    }
}

/// The texts of a row are listed in quotes, with commas between them.
pub proof fn law_texts_are_listed_in_quotes(fields: Seq<String>, field: String)
    ensures
        quoted_list(Seq::empty()).len() == 0,
        fields.len() == 0 ==> quoted_list(fields.push(field)) == quoted(field@),
        fields.len() > 0 ==> quoted_list(fields.push(field)) == quoted_list(fields) + ", "@ + quoted(field@),
{
    assert(fields.push(field).drop_last() =~= fields);
}

/// A row whose fields can be read as far as they go lacks the next field that is needed, and of fields that can not be read the first
/// is reported.
pub proof fn law_first_fault_of_a_row_is_reported(row: Seq<String>)
    ensures
        row.len() == 0 ==> row_error(row) == Some(missing_field(row, 0)),
        row.len() > 0 && parsed_public_key(row[0]@) is Err ==> row_error(row) == Some("results row source pubkey"@),
        row.len() > 0 && parsed_public_key(row[0]@) is Ok ==> {
            &&& row.len() == 1 ==> row_error(row) == Some(missing_field(row, 1))
            &&& row.len() > 1 && parsed_public_key(row[1]@) is Err ==> row_error(row) == Some(
                "results row destination pubkey"@,
            )
            &&& row.len() > 1 && parsed_public_key(row[1]@) is Ok ==> {
                &&& row.len() == 2 ==> row_error(row) == Some(missing_field(row, 2))
                &&& row.len() > 2 && number_in(row[2]@, u64::MAX as nat) is None ==> row_error(row) == Some(
                    "results row amount"@,
                )
                &&& 2 < row.len() < 7 && number_in(row[2]@, u64::MAX as nat) is Some ==> row_error(row) == Some(
                    missing_field(row, 6),
                )
            }
        },
{
}

} // verus!
