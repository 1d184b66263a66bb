//! Scenarios: payment activity and the style in which it is written to configuration files. Scenarios reference nodes by
//! index into a list of nodes, so they are independent of how the underlying network is provisioned.
use crate::node::{Amount, Interval, NodeId, ValueOrRange};
use crate::parsing::ActivityParser;
use crate::primitives::{parsed_public_key, PublicKey};
use crate::serializers::{check_value_or_range, parse_node_id};
use crate::text::{decimal, decimal_text, hex_chars, law_decimal_is_read_back, number_in, push_decimal, text};
use vstd::prelude::*;

verus! {

/// The node implementation backing a [`NodeHandle`].
#[derive(Debug, Clone, Copy, PartialEq, Eq, Structural)]
pub enum NodeImpl {
    Simulated,
    Lnd,
    Cln,
    Eclair,
    LdkServer,
}

/// A node in a test network, exposing just enough for scenarios to reference it in config and for assertions to identify
/// it in results.
#[derive(Debug)]
pub struct NodeHandle {
    pub pubkey: PublicKey,
    pub alias: String,
    pub implementation: NodeImpl,
}

/// How a node is referenced in the config file.
#[derive(Debug, Clone, Copy, PartialEq, Eq, Structural)]
pub enum NodeRef {
    Alias,
    Pubkey,
}

impl NodeRef {
    /// The reference to a node.
    pub open spec fn reference(self, node: NodeHandle) -> Seq<char> {
        match self {
            NodeRef::Alias => node.alias@,
            NodeRef::Pubkey => node.pubkey.text(),
        }
    }

    /// The reference to a node, as it is written to the config file.
    pub fn to_json(self, node: &NodeHandle) -> (s: String)
        ensures
            s@ == self.reference(*node),
    {
        match self {
            NodeRef::Alias => node.alias.clone(),
            NodeRef::Pubkey => node.pubkey.to_text(),
        }
    }
}

/// A config value that is either a scalar or a `[min, max]` range.
#[derive(Debug, Clone, Copy, PartialEq, Eq, Structural)]
pub enum ValueSpec {
    Scalar(u64),
    Range(u64, u64),
}

impl ValueSpec {
    /// The text of the value in the config file.
    pub open spec fn json(self) -> Seq<char> {
        match self {
            ValueSpec::Scalar(v) => decimal(v as nat),
            ValueSpec::Range(min, max) => "["@ + decimal(min as nat) + ","@ + decimal(max as nat) + "]"@,
        }
    }

    /// The text of the value in the config file.
    pub fn to_json(self) -> (s: String)
        ensures
            s@ == self.json(),
    {
        match self {
            ValueSpec::Scalar(v) => decimal_text(v),
            ValueSpec::Range(min, max) => {
                let mut s = text("[");
                push_decimal(&mut s, min);
                s.append(",");
                push_decimal(&mut s, max);
                s.append("]");
                s
            },
        }
    }

    /// Whether a concrete value could have been produced from this spec.
    pub fn contains(self, value: u64) -> (r: bool)
        ensures
            r == self.amount().admits(value as int),
    {
        match self {
            ValueSpec::Scalar(v) => value == v,
            ValueSpec::Range(min, max) => min <= value && value < max,
        }
    }

    /// The amount that is read from the config file.
    pub open spec fn amount(self) -> Amount {
        match self {
            ValueSpec::Scalar(v) => ValueOrRange::Value(v),
            ValueSpec::Range(min, max) => ValueOrRange::Range(min, max),
        }
    }

    /// The interval that is read from the config file. It is given in 16 bits.
    pub open spec fn interval(self) -> Option<Interval> {
        match self {
            ValueSpec::Scalar(v) => if v <= u16::MAX {
                Some(ValueOrRange::Value(v as u16))
            } else {
                None
            },
            ValueSpec::Range(min, max) => if min < max && max <= u16::MAX {
                Some(ValueOrRange::Range(min as u16, max as u16))
            } else {
                None
            },
        }
    }

    /// Reads the value as an amount.
    pub fn to_amount(self) -> (r: Result<Amount, String>)
        ensures
            r is Ok <==> self.amount().wf(),
            r matches Ok(a) ==> a == self.amount(),
    {
        let v = match self {
            ValueSpec::Scalar(v) => ValueOrRange::Value(v),
            ValueSpec::Range(min, max) => ValueOrRange::Range(min, max),
        };
        check_value_or_range(v)
    }

    /// Reads the value as an interval.
    pub fn to_interval(self) -> (r: Result<Interval, String>)
        ensures
            match self.interval() {
                Some(i) => r == Ok::<Interval, String>(i),
                None => r is Err,
            },
    {
        if let Err(e) = self.to_amount() {
            return Err(e);
        }
        match self {
            ValueSpec::Scalar(v) => if v <= 0xffff {
                Ok(ValueOrRange::Value(v as u16))
            } else {
                Err(text("data did not match any variant of untagged enum ValueOrRange"))
            },
            ValueSpec::Range(min, max) => if max <= 0xffff {
                Ok(ValueOrRange::Range(min as u16, max as u16))
            } else {
                Err(text("data did not match any variant of untagged enum ValueOrRange"))
            },
        }
    }
}

/// The style in which defined activity is written to config: which identifier type references nodes, and whether
/// amounts/intervals are scalars or ranges.
#[derive(Debug, Clone, Copy, PartialEq, Eq, Structural)]
pub struct ConfigStyle {
    pub source_ref: NodeRef,
    pub dest_ref: NodeRef,
    pub amount_msat: ValueSpec,
    pub interval_secs: ValueSpec,
}

impl Default for ConfigStyle {
    fn default() -> (c: Self)
        ensures
            c == (ConfigStyle {
                source_ref: NodeRef::Pubkey,
                dest_ref: NodeRef::Pubkey,
                amount_msat: ValueSpec::Scalar(1000),
                interval_secs: ValueSpec::Scalar(2),
            }),
    {
        ConfigStyle {
            source_ref: NodeRef::Pubkey,
            dest_ref: NodeRef::Pubkey,
            amount_msat: ValueSpec::Scalar(1000),
            interval_secs: ValueSpec::Scalar(2),
        }
    }
}

/// An entry of the `activity` section of the config.
#[derive(Debug)]
pub struct ActivityEntry {
    pub source: String,
    pub destination: String,
    pub interval_secs: ValueSpec,
    pub amount_msat: ValueSpec,
    pub count: Option<u64>,
}

/// Whether a node id is the one that a reference stands for: a public key, or else an alias.
pub open spec fn refers_to(reference: Seq<char>, id: NodeId) -> bool {
    match parsed_public_key(reference) {
        Ok(bytes) => id matches NodeId::PublicKey(pk) && pk.0@ == bytes,
        Err(_) => id matches NodeId::Alias(a) && a@ == reference,
    }
}

impl ActivityEntry {
    /// Reads the entry as the simulator does.
    pub fn parse(&self) -> (r: Result<ActivityParser, String>)
        ensures
            r is Ok <==> self.amount_msat.amount().wf() && self.interval_secs.interval() is Some,
            r matches Ok(a) ==> {
                &&& refers_to(self.source@, a.source)
                &&& refers_to(self.destination@, a.destination)
                &&& a.start_secs is None
                &&& a.count == self.count
                &&& Some(a.interval_secs) == self.interval_secs.interval()
                &&& a.amount_msat == self.amount_msat.amount()
            },
    {
        let amount_msat = match self.amount_msat.to_amount() {
            Ok(amount) => amount,
            Err(e) => {
                return Err(e);
            },
        };
        let interval_secs = match self.interval_secs.to_interval() {
            Ok(interval) => interval,
            Err(e) => {
                return Err(e);
            },
        };
        Ok(
            ActivityParser {
                source: parse_node_id(self.source.clone()),
                destination: parse_node_id(self.destination.clone()),
                start_secs: None,
                count: self.count,
                interval_secs,
                amount_msat,
            },
        )
    }
}

/// Payment activity to run on a network.
#[derive(Debug)]
pub enum Scenario {
    /// Defined activity between pairs of nodes (indices into the handle slice), each dispatching `count` payments (or
    /// running until the simulation's total time when `None`).
    Defined { pairs: Vec<(usize, usize)>, count: Option<u64>, style: ConfigStyle },
    /// Random activity across the network, excluding the given nodes (indices into the handle slice) from sending and
    /// receiving.
    Random { excludes: Vec<usize> },
}

/// Whether an entry of the config is that of a pair of nodes.
pub open spec fn is_entry(
    entry: ActivityEntry,
    pair: (usize, usize),
    count: Option<u64>,
    style: ConfigStyle,
    nodes: Seq<NodeHandle>,
) -> bool {
    &&& entry.source@ == style.source_ref.reference(nodes[pair.0 as int])
    &&& entry.destination@ == style.dest_ref.reference(nodes[pair.1 as int])
    &&& entry.interval_secs == style.interval_secs
    &&& entry.amount_msat == style.amount_msat
    &&& entry.count == count
}

impl Scenario {
    /// All indices are those of nodes.
    pub open spec fn fits(&self, nodes: int) -> bool {
        match self {
            Scenario::Defined { pairs, .. } => forall|i: int|
                0 <= i < pairs@.len() ==> (#[trigger] pairs@[i]).0 < nodes && pairs@[i].1 < nodes,
            Scenario::Random { excludes } => forall|i: int|
                0 <= i < excludes@.len() ==> #[trigger] excludes@[i] < nodes,
        }
    }

    /// The `activity` section of the config; empty for random activity.
    pub fn activity_json(&self, nodes: &Vec<NodeHandle>) -> (r: Vec<ActivityEntry>)
        requires
            self.fits(nodes@.len() as int),
        ensures
            match self {
                Scenario::Defined { pairs, count, style } => {
                    &&& r@.len() == pairs@.len()
                    &&& forall|i: int|
                        0 <= i < r@.len() ==> is_entry(#[trigger] r@[i], pairs@[i], *count, *style, nodes@)
                },
                Scenario::Random { .. } => r@.len() == 0,
            },
    {
        let mut list: Vec<ActivityEntry> = Vec::new();
        if let Scenario::Defined { pairs, count, style } = self {
            let mut i: usize = 0;
            while i < pairs.len()
                invariant
                    i <= pairs@.len(),
                    forall|j: int|
                        0 <= j < pairs@.len() ==> (#[trigger] pairs@[j]).0 < nodes@.len() && pairs@[j].1 < nodes@.len(),
                    list@.len() == i,
                    forall|j: int| 0 <= j < i ==> is_entry(#[trigger] list@[j], pairs@[j], *count, *style, nodes@),
                decreases pairs@.len() - i,
            {
                let pair = pairs[i];
                assert(pairs@[i as int].0 < nodes@.len());
                let entry = ActivityEntry {
                    source: style.source_ref.to_json(&nodes[pair.0]),
                    destination: style.dest_ref.to_json(&nodes[pair.1]),
                    interval_secs: style.interval_secs,
                    amount_msat: style.amount_msat,
                    count: *count,
                };
                list.push(entry);
                i += 1;
            }
        }
        list
    }

    /// The `exclude` section of the config; empty for defined activity.
    pub fn exclude_json(&self, nodes: &Vec<NodeHandle>) -> (r: Vec<String>)
        requires
            self.fits(nodes@.len() as int),
        ensures
            match self {
                Scenario::Defined { .. } => r@.len() == 0,
                Scenario::Random { excludes } => {
                    &&& r@.len() == excludes@.len()
                    &&& forall|i: int|
                        0 <= i < r@.len() ==> (#[trigger] r@[i])@ == nodes@[excludes@[i] as int].pubkey.text()
                },
            },
    {
        let mut list: Vec<String> = Vec::new();
        if let Scenario::Random { excludes } = self {
            let mut i: usize = 0;
            while i < excludes.len()
                invariant
                    i <= excludes@.len(),
                    forall|j: int| 0 <= j < excludes@.len() ==> #[trigger] excludes@[j] < nodes@.len(),
                    list@.len() == i,
                    forall|j: int|
                        0 <= j < i ==> (#[trigger] list@[j])@ == nodes@[excludes@[j] as int].pubkey.text(),
                decreases excludes@.len() - i,
            {
                let index: usize = excludes[i];
                list.push(nodes[index].pubkey.to_text());
                i += 1;
            }
        }
        list
    }
}

/// However the config references a node, by its key or by an alias that is not the text of a key, what is read back is
/// that node.
pub proof fn law_reference_is_resolved(reference: NodeRef, node: NodeHandle, id: NodeId)
    requires
        refers_to(reference.reference(node), id),
        reference is Alias ==> parsed_public_key(node.alias@) is Err,
        reference is Pubkey ==> parsed_public_key(node.pubkey.text()) == Ok::<Seq<u8>, Seq<char>>(node.pubkey.0@),
    ensures
        match reference {
            NodeRef::Alias => id matches NodeId::Alias(a) && a@ == node.alias@,
            NodeRef::Pubkey => id == NodeId::PublicKey(node.pubkey),
        },
{
    if let NodeRef::Pubkey = reference {
        let pk = id->PublicKey_0;
        assert(pk.0 =~= node.pubkey.0);
    }
}

/// An amount is read as the value or the range that is written. So is an interval, if it fits into 16 bits and its range is
/// not empty.
pub proof fn law_values_are_read_as_written(value: ValueSpec, n: u64)
    ensures
        match value {
            ValueSpec::Scalar(v) => value.amount().admits(n as int) <==> n == v,
            ValueSpec::Range(x, y) => value.amount().admits(n as int) <==> x <= n && n < y,
        },
        match value {
            ValueSpec::Scalar(v) => value.interval() is Some <==> v < 0x1_0000,
            ValueSpec::Range(x, y) => value.interval() is Some <==> x < y && y < 0x1_0000,
        },
        value.interval() matches Some(i) ==> (i.widened().admits(n as int) <==> value.amount().admits(n as int)),
{
}

/// An entry of the config names the nodes of its pair, each as its style asks for, and has the values of the style.
pub proof fn law_entry_names_its_pair(
    entry: ActivityEntry,
    pair: (usize, usize),
    count: Option<u64>,
    style: ConfigStyle,
    nodes: Seq<NodeHandle>,
)
    requires
        is_entry(entry, pair, count, style, nodes),
    ensures
        entry.source@ == (if style.source_ref is Alias {
            nodes[pair.0 as int].alias@
        } else {
            hex_chars(nodes[pair.0 as int].pubkey.0@)
        }),
        entry.destination@ == (if style.dest_ref is Alias {
            nodes[pair.1 as int].alias@
        } else {
            hex_chars(nodes[pair.1 as int].pubkey.0@)
        }),
        entry.interval_secs == style.interval_secs,
        entry.amount_msat == style.amount_msat,
        entry.count == count,
{
}

/// A value is written as its number, and a range as both of its bounds in brackets.
pub proof fn law_values_are_written_with_their_bounds(v: u64, x: u64, y: u64)
    ensures
        number_in(ValueSpec::Scalar(v).json(), u64::MAX as nat) == Some(v as nat),
        ValueSpec::Range(x, y).json() == "["@ + decimal(x as nat) + ","@ + decimal(y as nat) + "]"@,
{
    law_decimal_is_read_back(v as nat, u64::MAX as nat);
}

} // verus!
