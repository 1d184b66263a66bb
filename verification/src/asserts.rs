//! Assertions over simulation output, independent of which environment produced it. An assertion that fails says why.
use crate::keyed::Key;
use crate::primitives::PublicKey;
use crate::runner::{PaymentRecord, SimOutput};
use crate::scenario::{NodeHandle, ValueSpec};
use vstd::prelude::*;

verus! {

/// Why an assertion failed.
#[derive(Debug, Clone, Copy)]
pub enum AssertionFailure {
    /// The number of validated activities is not the expected one (expected / found).
    ActivityCount(usize, usize),
    /// The activity at an index has another source than expected.
    ActivitySource(usize),
    /// The activity at an index has another destination than expected.
    ActivityDestination(usize),
    /// The simulation reported another number of payments than expected (expected / reported).
    TotalPayments(u64, u64),
    /// The results hold another number of records than expected (expected / found).
    RecordCount(u64, usize),
    /// No payment was dispatched.
    NoPayments,
    /// The payment in the record at an index did not succeed.
    Failed(usize),
    /// The amount of the record at an index is outside the configured amount.
    Amount(usize),
    /// The record at an index is not part of any configured activity.
    UnknownPair(usize),
    /// The number of payments of the pair at an index is not the expected one (index / recorded).
    PairCount(usize, u64),
    /// The record at the first index involves the excluded node at the second.
    Excluded(usize, usize),
    /// The source of the record at an index is not a controlled node.
    Uncontrolled(usize),
}

/// Asserts that the validated activities resolved to the expected source/destination handles, in order. This checks
/// alias/pubkey resolution end to end: however the config referenced the node, validation must land on the right pubkey.
pub fn assert_activities_resolved(out: &SimOutput, expected: &Vec<(PublicKey, PublicKey)>) -> (r: Result<
    (),
    AssertionFailure,
>)
    ensures
        r is Ok <==> {
            &&& out.activities@.len() == expected@.len()
            &&& forall|i: int|
                0 <= i < expected@.len() ==> (#[trigger] out.activities@[i]).source.pubkey == expected@[i].0
                    && out.activities@[i].destination.pubkey == expected@[i].1
        },
        match r {
            Err(AssertionFailure::ActivityCount(e, n)) => e == expected@.len() && n == out.activities@.len() && e != n,
            Err(AssertionFailure::ActivitySource(i)) => i < expected@.len() && out.activities@[i as int].source.pubkey
                != expected@[i as int].0,
            Err(AssertionFailure::ActivityDestination(i)) => i < expected@.len()
                && out.activities@[i as int].destination.pubkey != expected@[i as int].1,
            Err(_) => false,
            Ok(_) => true,
        },
{
    if out.activities.len() != expected.len() {
        return Err(AssertionFailure::ActivityCount(expected.len(), out.activities.len()));
    }
    let mut i: usize = 0;
    while i < expected.len()
        invariant
            i <= expected@.len(),
            out.activities@.len() == expected@.len(),
            forall|j: int|
                0 <= j < i ==> (#[trigger] out.activities@[j]).source.pubkey == expected@[j].0
                    && out.activities@[j].destination.pubkey == expected@[j].1,
        decreases expected@.len() - i,
    {
        if !out.activities[i].source.pubkey.same(&expected[i].0) {
            return Err(AssertionFailure::ActivitySource(i));
        }
        if !out.activities[i].destination.pubkey.same(&expected[i].1) {
            return Err(AssertionFailure::ActivityDestination(i));
        }
        i += 1;
    }
    Ok(())
}

/// Asserts that exactly `expected` payments were dispatched, and that the results recorded every one of them.
pub fn assert_total_payments(out: &SimOutput, expected: u64) -> (r: Result<(), AssertionFailure>)
    ensures
        r is Ok <==> out.total_payments == expected && out.records@.len() == expected,
        match r {
            Err(AssertionFailure::TotalPayments(e, n)) => e == expected && n == out.total_payments && e != n,
            Err(AssertionFailure::RecordCount(e, n)) => e == expected && n == out.records@.len() && e != n,
            Err(_) => false,
            Ok(_) => true,
        },
{
    if out.total_payments != expected {
        return Err(AssertionFailure::TotalPayments(expected, out.total_payments));
    }
    if out.records.len() as u64 != expected {
        return Err(AssertionFailure::RecordCount(expected, out.records.len()));
    }
    Ok(())
}

/// Asserts that at least one payment was dispatched and that the results agree with the simulation's own count. Used for
/// random activity, where exact counts depend on the generator.
pub fn assert_payments_dispatched(out: &SimOutput) -> (r: Result<(), AssertionFailure>)
    ensures
        r is Ok <==> out.total_payments > 0 && out.records@.len() == out.total_payments,
        match r {
            Err(AssertionFailure::NoPayments) => out.total_payments == 0,
            Err(AssertionFailure::RecordCount(e, n)) => e == out.total_payments && n == out.records@.len() && e != n,
            Err(_) => false,
            Ok(_) => true,
        },
{
    if out.total_payments == 0 {
        return Err(AssertionFailure::NoPayments);
    }
    if out.records.len() as u64 != out.total_payments {
        return Err(AssertionFailure::RecordCount(out.total_payments, out.records.len()));
    }
    Ok(())
}

/// Whether all payments succeeded.
pub open spec fn all_succeeded(records: Seq<PaymentRecord>) -> bool {
    forall|i: int| 0 <= i < records.len() ==> (#[trigger] records[i]).succeeded()
}

/// Asserts that every recorded payment succeeded.
pub fn assert_all_success(out: &SimOutput) -> (r: Result<(), AssertionFailure>)
    ensures
        r is Ok <==> all_succeeded(out.records@),
        match r {
            Err(AssertionFailure::Failed(i)) => i < out.records@.len() && !out.records@[i as int].succeeded(),
            Err(_) => false,
            Ok(_) => true,
        },
{
    let mut i: usize = 0;
    while i < out.records.len()
        invariant
            i <= out.records@.len(),
            forall|j: int| 0 <= j < i ==> (#[trigger] out.records@[j]).succeeded(),
        decreases out.records@.len() - i,
    {
        if !out.records[i].is_success() {
            return Err(AssertionFailure::Failed(i));
        }
        i += 1;
    }
    Ok(())
}

/// Asserts that every recorded payment amount could have been produced by the given spec.
pub fn assert_amounts_within(out: &SimOutput, spec_value: ValueSpec) -> (r: Result<(), AssertionFailure>)
    ensures
        r is Ok <==> forall|i: int|
            0 <= i < out.records@.len() ==> spec_value.amount().admits((#[trigger] out.records@[i]).amount_msat as int),
        match r {
            Err(AssertionFailure::Amount(i)) => i < out.records@.len() && !spec_value.amount().admits(
                out.records@[i as int].amount_msat as int,
            ),
            Err(_) => false,
            Ok(_) => true,
        },
{
    let mut i: usize = 0;
    while i < out.records.len()
        invariant
            i <= out.records@.len(),
            forall|j: int| 0 <= j < i ==> spec_value.amount().admits((#[trigger] out.records@[j]).amount_msat as int),
        decreases out.records@.len() - i,
    {
        if !spec_value.contains(out.records[i].amount_msat) {
            return Err(AssertionFailure::Amount(i));
        }
        i += 1;
    }
    Ok(())
}

/// The number of payments between a pair of nodes.
pub open spec fn payments_between(records: Seq<PaymentRecord>, pair: (PublicKey, PublicKey)) -> nat
    decreases records.len(),
{
    if records.len() == 0 {
        0
    } else {
        let last = records.last();
        payments_between(records.drop_last(), pair) + if last.source == pair.0 && last.destination == pair.1 {
            1nat
        } else {
            0nat
        }
    }
}

/// Counts the payments between a pair of nodes.
fn count_payments(records: &Vec<PaymentRecord>, pair: &(PublicKey, PublicKey)) -> (n: u64)
    ensures
        n == payments_between(records@, *pair),
        n <= records@.len(),
{
    let mut n: u64 = 0;
    let mut i: usize = 0;
    assert(records@.subrange(0, 0) =~= Seq::empty());
    while i < records.len()
        invariant
            i <= records@.len(),
            n <= i,
            n == payments_between(records@.subrange(0, i as int), *pair),
        decreases records@.len() - i,
    {
        assert(records@.subrange(0, i as int + 1).drop_last() =~= records@.subrange(0, i as int));
        if records[i].source.same(&pair.0) && records[i].destination.same(&pair.1) {
            n += 1;
        }
        i += 1;
    }
    assert(records@.subrange(0, i as int) =~= records@);
    n
}

/// Whether payments flow only between pairs of nodes.
pub open spec fn flow_between(records: Seq<PaymentRecord>, pairs: Seq<(PublicKey, PublicKey)>) -> bool {
    forall|i: int|
        0 <= i < records.len() ==> pairs.contains(((#[trigger] records[i]).source, records[i].destination))
}

/// Whether a pair is one of several.
fn holds_pair(pairs: &Vec<(PublicKey, PublicKey)>, source: &PublicKey, destination: &PublicKey) -> (r: bool)
    ensures
        r == pairs@.contains((*source, *destination)),
{
    let mut i: usize = 0;
    while i < pairs.len()
        invariant
            i <= pairs@.len(),
            forall|j: int| 0 <= j < i ==> pairs@[j] != (*source, *destination),
        decreases pairs@.len() - i,
    {
        if pairs[i].0.same(source) && pairs[i].1.same(destination) {
            assert(pairs@[i as int] == (*source, *destination));
            return true;
        }
        i += 1;
    }
    false
}

/// Asserts that recorded payments flow only between the expected (source, destination) pairs, and returns the per-pair
/// counts, in the order of the pairs, for further assertions.
pub fn assert_payments_between(out: &SimOutput, pairs: &Vec<(PublicKey, PublicKey)>) -> (r: Result<
    Vec<u64>,
    AssertionFailure,
>)
    ensures
        r is Ok <==> flow_between(out.records@, pairs@),
        match r {
            Ok(counts) => {
                &&& counts@.len() == pairs@.len()
                &&& forall|i: int|
                    0 <= i < counts@.len() ==> #[trigger] counts@[i] == payments_between(out.records@, pairs@[i])
            },
            Err(AssertionFailure::UnknownPair(i)) => i < out.records@.len() && !pairs@.contains(
                (out.records@[i as int].source, out.records@[i as int].destination),
            ),
            Err(_) => false,
        },
{
    let mut i: usize = 0;
    while i < out.records.len()
        invariant
            i <= out.records@.len(),
            forall|j: int|
                0 <= j < i ==> pairs@.contains(((#[trigger] out.records@[j]).source, out.records@[j].destination)),
        decreases out.records@.len() - i,
    {
        if !holds_pair(pairs, &out.records[i].source, &out.records[i].destination) {
            return Err(AssertionFailure::UnknownPair(i));
        }
        i += 1;
    }
    let mut counts: Vec<u64> = Vec::new();
    let mut i: usize = 0;
    while i < pairs.len()
        invariant
            i <= pairs@.len(),
            counts@.len() == i,
            forall|j: int| 0 <= j < i ==> #[trigger] counts@[j] == payments_between(out.records@, pairs@[j]),
        decreases pairs@.len() - i,
    {
        counts.push(count_payments(&out.records, &pairs[i]));
        i += 1;
    }
    Ok(counts)
}

/// Asserts the results of count-bounded defined activity: payments flow only between the configured pairs, every
/// recorded payment succeeded, and each pair recorded either `count` or `count - 1` payments.
///
/// The final payment of a run is allowed to be missing because meeting a payment count shuts the simulation down in the
/// same instant as the last dispatch, and the results consumer prefers the shutdown signal over draining pending results.
pub fn assert_defined_payments(out: &SimOutput, pairs: &Vec<(PublicKey, PublicKey)>, count: u64) -> (r: Result<
    (),
    AssertionFailure,
>)
    requires
        count > 0 || pairs@.len() == 0,
    ensures
        r is Ok <==> {
            &&& all_succeeded(out.records@)
            &&& flow_between(out.records@, pairs@)
            &&& forall|i: int|
                0 <= i < pairs@.len() ==> count - 1 <= payments_between(out.records@, #[trigger] pairs@[i]) <= count
        },
        match r {
            Err(AssertionFailure::Failed(i)) => i < out.records@.len() && !out.records@[i as int].succeeded(),
            Err(AssertionFailure::UnknownPair(i)) => all_succeeded(out.records@) && i < out.records@.len()
                && !pairs@.contains((out.records@[i as int].source, out.records@[i as int].destination)),
            Err(AssertionFailure::PairCount(i, n)) => {
                &&& all_succeeded(out.records@)
                &&& flow_between(out.records@, pairs@)
                &&& i < pairs@.len() && n == payments_between(out.records@, pairs@[i as int])
                &&& n < count - 1 || n > count
            },
            Err(_) => false,
            Ok(_) => true,
        },
{
    if let Err(e) = assert_all_success(out) {
        return Err(e);
    }
    let counts = match assert_payments_between(out, pairs) {
        Ok(counts) => counts,
        Err(e) => {
            return Err(e);
        },
    };
    let mut i: usize = 0;
    while i < pairs.len()
        invariant
            i <= pairs@.len(),
            count > 0 || pairs@.len() == 0,
            all_succeeded(out.records@),
            flow_between(out.records@, pairs@),
            counts@.len() == pairs@.len(),
            forall|j: int|
                0 <= j < counts@.len() ==> #[trigger] counts@[j] == payments_between(out.records@, pairs@[j]),
            forall|j: int|
                0 <= j < i ==> count - 1 <= payments_between(out.records@, #[trigger] pairs@[j]) <= count,
        decreases pairs@.len() - i,
    {
        let recorded: u64 = counts[i];
        assert(recorded == payments_between(out.records@, pairs@[i as int]));
        if recorded < count - 1 || recorded > count {
            return Err(AssertionFailure::PairCount(i, recorded));
        }
        i += 1;
    }
    Ok(())
}

/// Asserts that no recorded payment involves any of the given nodes, as sender or receiver.
pub fn assert_not_involved(out: &SimOutput, excluded: &Vec<PublicKey>) -> (r: Result<(), AssertionFailure>)
    ensures
        r is Ok <==> forall|i: int|
            0 <= i < out.records@.len() ==> !excluded@.contains((#[trigger] out.records@[i]).source)
                && !excluded@.contains(out.records@[i].destination),
        match r {
            Err(AssertionFailure::Excluded(i, j)) => {
                &&& i < out.records@.len() && j < excluded@.len()
                &&& out.records@[i as int].source == excluded@[j as int] || out.records@[i as int].destination
                    == excluded@[j as int]
            },
            Err(_) => false,
            Ok(_) => true,
        },
{
    let mut i: usize = 0;
    while i < out.records.len()
        invariant
            i <= out.records@.len(),
            forall|k: int|
                0 <= k < i ==> !excluded@.contains((#[trigger] out.records@[k]).source) && !excluded@.contains(
                    out.records@[k].destination,
                ),
        decreases out.records@.len() - i,
    {
        let mut j: usize = 0;
        while j < excluded.len()
            invariant
                i < out.records@.len(),
                j <= excluded@.len(),
                forall|k: int|
                    0 <= k < j ==> out.records@[i as int].source != #[trigger] excluded@[k]
                        && out.records@[i as int].destination != excluded@[k],
            decreases excluded@.len() - j,
        {
            if out.records[i].source.same(&excluded[j]) || out.records[i].destination.same(&excluded[j]) {
                assert(excluded@.contains(excluded@[j as int]));
                return Err(AssertionFailure::Excluded(i, j));
            }
            j += 1;
        }
        i += 1;
    }
    Ok(())
}

/// Asserts that every payment source is one of the given controlled nodes.
pub fn assert_sources_controlled(out: &SimOutput, controlled: &Vec<NodeHandle>) -> (r: Result<(), AssertionFailure>)
    ensures
        r is Ok <==> forall|i: int|
            0 <= i < out.records@.len() ==> is_controlled(controlled@, (#[trigger] out.records@[i]).source),
        match r {
            Err(AssertionFailure::Uncontrolled(i)) => i < out.records@.len() && !is_controlled(
                controlled@,
                out.records@[i as int].source,
            ),
            Err(_) => false,
            Ok(_) => true,
        },
{
    let mut i: usize = 0;
    while i < out.records.len()
        invariant
            i <= out.records@.len(),
            forall|j: int| 0 <= j < i ==> is_controlled(controlled@, (#[trigger] out.records@[j]).source),
        decreases out.records@.len() - i,
    {
        if !controls(controlled, &out.records[i].source) {
            return Err(AssertionFailure::Uncontrolled(i));
        }
        i += 1;
    }
    Ok(())
}

/// Whether a key is that of one of the given nodes.
pub open spec fn is_controlled(controlled: Seq<NodeHandle>, key: PublicKey) -> bool {
    exists|i: int| 0 <= i < controlled.len() && (#[trigger] controlled[i]).pubkey == key
}

/// Whether a key is that of one of the given nodes.
fn controls(controlled: &Vec<NodeHandle>, key: &PublicKey) -> (r: bool)
    ensures
        r == is_controlled(controlled@, *key),
{
    let mut i: usize = 0;
    while i < controlled.len()
        invariant
            i <= controlled@.len(),
            forall|j: int| 0 <= j < i ==> (#[trigger] controlled@[j]).pubkey != *key,
        decreases controlled@.len() - i,
    {
        if controlled[i].pubkey.same(key) {
            assert(controlled@[i as int].pubkey == *key);
            return true;
        }
        i += 1;
    }
    false
}

/// The payments between a pair of nodes are all those from its first to its second node.
pub proof fn law_payments_between_a_pair_are_all_counted(records: Seq<PaymentRecord>, pair: (PublicKey, PublicKey))
    ensures
        payments_between(records, pair) == records.filter(
            |r: PaymentRecord| r.source == pair.0 && r.destination == pair.1,
        ).len(),
    decreases records.len(),
{
    reveal(Seq::filter);
    if records.len() > 0 {
        law_payments_between_a_pair_are_all_counted(records.drop_last(), pair);
    }
}

/// Whether a pair is from a node to another one.
pub open spec fn has_pair(pairs: Seq<(PublicKey, PublicKey)>, source: PublicKey, destination: PublicKey) -> bool {
    exists|j: int| 0 <= j < pairs.len() && (#[trigger] pairs[j]).0 == source && pairs[j].1 == destination
}

/// All payments succeeded if and only if each has that outcome, and payments flow between pairs if and only if each of them is from
/// the first to the second node of a pair.
pub proof fn law_every_record_is_held_to_the_assertions(records: Seq<PaymentRecord>, pairs: Seq<(PublicKey, PublicKey)>)
    ensures
        all_succeeded(records) <==> forall|i: int| 0 <= i < records.len() ==> (#[trigger] records[i]).outcome@ == "Success"@,
        flow_between(records, pairs) <==> forall|i: int|
            0 <= i < records.len() ==> has_pair(pairs, (#[trigger] records[i]).source, records[i].destination),
{
    if all_succeeded(records) {
        assert forall|i: int| 0 <= i < records.len() implies (#[trigger] records[i]).outcome@ == "Success"@ by {
            assert(records[i].succeeded());
        }
    }
    assert forall|source: PublicKey, destination: PublicKey| #[trigger] has_pair(pairs, source, destination)
        <==> pairs.contains((source, destination)) by {
        if has_pair(pairs, source, destination) {
            let j = choose|j: int|
                0 <= j < pairs.len() && (#[trigger] pairs[j]).0 == source && pairs[j].1 == destination;
            assert(pairs[j] == (source, destination));
        }
        if pairs.contains((source, destination)) {
            let j = choose|j: int| 0 <= j < pairs.len() && pairs[j] == (source, destination);
            assert(pairs[j].0 == source);
        }
    }
    if flow_between(records, pairs) {
        assert forall|i: int| 0 <= i < records.len() implies has_pair(
            pairs,
            (#[trigger] records[i]).source,
            records[i].destination,
        ) by {
            assert(pairs.contains((records[i].source, records[i].destination)));
        }
    } else {
        let i = choose|i: int|
            0 <= i < records.len() && !pairs.contains(((#[trigger] records[i]).source, records[i].destination));
        assert(!has_pair(pairs, records[i].source, records[i].destination));
    }
}

/// A key is controlled once a node with it is given, whatever other nodes there are, and not without one.
pub proof fn law_key_is_controlled_by_its_node(controlled: Seq<NodeHandle>, node: NodeHandle, key: PublicKey)
    ensures
        !is_controlled(Seq::empty(), key),
        is_controlled(controlled.push(node), key) <==> is_controlled(controlled, key) || node.pubkey == key,
{
    let more = controlled.push(node);
    if is_controlled(controlled, key) {
        let i = choose|i: int| 0 <= i < controlled.len() && (#[trigger] controlled[i]).pubkey == key;
        assert(more[i].pubkey == key);
    }
    if node.pubkey == key {
        assert(more[controlled.len() as int].pubkey == key);
    }
    if is_controlled(more, key) {
        let i = choose|i: int| 0 <= i < more.len() && (#[trigger] more[i]).pubkey == key;
        if i < controlled.len() {
            assert(controlled[i].pubkey == key);
        }
    }
}

} // verus!
