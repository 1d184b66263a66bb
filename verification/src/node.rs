//! Nodes, channels and the errors reported about them.
use crate::keyed::{Key, KeyedMap};
use crate::primitives::{NodeFeatures, PublicKey};
use crate::text::{decimal, push_decimal, quote, quoted, text};
use rand::Rng;
use vstd::prelude::*;

verus! {

/// Represents errors that can occur during lightning network operations.
#[derive(Debug)]
pub enum LightningError {
    /// Error that occurred while connecting to a lightning node.
    ConnectionError(String),
    /// Error that occurred while retrieving node information.
    GetInfoError(String),
    /// Error that occurred while sending a payment.
    SendPaymentError(String),
    /// Error that occurred while tracking a payment.
    TrackPaymentError(String),
    /// Error that occurred when a payment hash is invalid.
    InvalidPaymentHash,
    /// Error that occurred while retrieving information about a specific node.
    GetNodeInfoError(String),
    /// Error that occurred during configuration validation.
    ValidationError(String),
    /// Error that represents a permanent failure condition.
    PermanentError(String),
    /// Error that occurred while listing channels.
    ListChannelsError(String),
    /// Error that occurred while getting the graph.
    GetGraphError(String),
    /// Error that occurred while reading the clock.
    SystemTimeConversionError(String),
}

/// Represents an error that occurs when generating a destination for a payment.
#[derive(Debug)]
pub struct DestinationGenerationError(pub String);

/// Represents an error that occurs when generating payments.
#[derive(Debug)]
pub struct PaymentGenerationError(pub String);

/// Represents an error that occurs when setting up random activity.
#[derive(Debug)]
pub enum RandomActivityError {
    /// The parameters of a generator do not allow it to produce values.
    ValueError(String),
    /// The capacity of a node does not suffice.
    InsufficientCapacity(String),
}

/// Represents errors that can occur during simulation execution.
#[derive(Debug)]
pub enum SimulationError {
    /// Error that occurred during lightning network operations.
    LightningError(LightningError),
    /// Error that occurred during task execution.
    TaskError,
    /// Error that occurred while writing CSV data.
    CsvError(String),
    /// Error that occurred during file operations.
    FileError,
    /// Error that occurred during random activity generation.
    RandomActivityError(RandomActivityError),
    /// Error that occurred in the simulated network.
    SimulatedNetworkError(String),
    /// Error that occurred while accessing system time.
    SystemTimeError(String),
    /// Error that occurred when a required node was not found.
    MissingNodeError(String),
    /// Error that occurred in message passing channels.
    MpscChannelError(String),
    /// Error that occurred while generating payment parameters.
    PaymentGenerationError(PaymentGenerationError),
    /// Error that occurred while generating destination nodes.
    DestinationGenerationError(DestinationGenerationError),
    /// Error that occurred while setting up the runtime of a simulation.
    RuntimeError(String),
}

impl LightningError {
    /// The message of the error.
    pub open spec fn text(&self) -> Seq<char> {
        match self {
            LightningError::ConnectionError(m) => "Node connection error: "@ + m@,
            LightningError::GetInfoError(m) => "Get info error: "@ + m@,
            LightningError::SendPaymentError(m) => "Send payment error: "@ + m@,
            LightningError::TrackPaymentError(m) => "Track payment error: "@ + m@,
            LightningError::InvalidPaymentHash => "Invalid payment hash"@,
            LightningError::GetNodeInfoError(m) => "Get node info error: "@ + m@,
            LightningError::ValidationError(m) => "Config validation failed: "@ + m@,
            LightningError::PermanentError(m) => "Permanent error: "@ + quoted(m@),
            LightningError::ListChannelsError(m) => "List channels error: "@ + m@,
            LightningError::GetGraphError(m) => "Get graph error: "@ + m@,
            LightningError::SystemTimeConversionError(m) => "SystemTime conversion error: "@ + m@,
        }
    }

    /// The message of the error.
    pub fn to_text(&self) -> (s: String)
        ensures
            s@ == self.text(),
    {
        match self {
            LightningError::ConnectionError(m) => joined("Node connection error: ", m),
            LightningError::GetInfoError(m) => joined("Get info error: ", m),
            LightningError::SendPaymentError(m) => joined("Send payment error: ", m),
            LightningError::TrackPaymentError(m) => joined("Track payment error: ", m),
            LightningError::InvalidPaymentHash => text("Invalid payment hash"),
            LightningError::GetNodeInfoError(m) => joined("Get node info error: ", m),
            LightningError::ValidationError(m) => joined("Config validation failed: ", m),
            LightningError::PermanentError(m) => joined("Permanent error: ", &quote(m.as_str())),
            LightningError::ListChannelsError(m) => joined("List channels error: ", m),
            LightningError::GetGraphError(m) => joined("Get graph error: ", m),
            LightningError::SystemTimeConversionError(m) => joined("SystemTime conversion error: ", m),
        }
    }
}

/// Text behind other text.
fn joined(a: &str, b: &String) -> (s: String)
    ensures
        s@ == a@ + b@,
{
    let mut s = text(a);
    s.append(b.as_str());
    s
}

/// Represents a node id, either by its public key or alias.
#[derive(Debug)]
pub enum NodeId {
    /// The node's public key.
    PublicKey(PublicKey),
    /// The node's alias (human-readable name).
    Alias(String),
}

impl Clone for NodeId {
    fn clone(&self) -> (r: Self)
        ensures
            r == *self,
    {
        match self {
            NodeId::PublicKey(pk) => NodeId::PublicKey(*pk),
            NodeId::Alias(a) => NodeId::Alias(a.clone()),
        }
    }
}

/// Why the key of a node is not the one that was expected.
pub open spec fn id_mismatch(expected: Seq<char>, reported: Seq<char>) -> Seq<char> {
    "The provided node id does not match the one returned by the backend ("@ + expected + " != "@ + reported + ")."@
}

impl NodeId {
    /// The text of the node id: its key in hexadecimal, or its alias.
    pub open spec fn text(&self) -> Seq<char> {
        match self {
            NodeId::PublicKey(pk) => pk.text(),
            NodeId::Alias(a) => a@,
        }
    }

    /// Validates that the provided node id matches the one returned by the backend. If the node id is an alias,
    /// the backend's alias is replaced by it.
    pub fn validate(&self, node_id: &PublicKey, alias: &mut String) -> (r: Result<(), LightningError>)
        ensures
            match self {
                NodeId::PublicKey(pk) => {
                    &&& *final(alias) == *old(alias)
                    &&& if *pk == *node_id {
                        r is Ok
                    } else {
                        &&& r matches Err(LightningError::ValidationError(m))
                        &&& m@ == id_mismatch(pk.text(), node_id.text())
                    }
                },
                NodeId::Alias(a) => r is Ok && final(alias)@ == a@,
            },
    {
        match self {
            NodeId::PublicKey(pk) => {
                if !pk.same(node_id) {
                    let mut m = text("The provided node id does not match the one returned by the backend (");
                    m.append(pk.to_text().as_str());
                    m.append(" != ");
                    m.append(node_id.to_text().as_str());
                    m.append(").");
                    return Err(LightningError::ValidationError(m));
                }
            },
            NodeId::Alias(a) => {
                *alias = a.clone();
            },
        }
        Ok(())
    }

    /// Returns the public key of the node if it is a public key node id.
    pub fn get_pk(&self) -> (r: Result<&PublicKey, String>)
        ensures
            match self {
                NodeId::PublicKey(pk) => r == Ok::<&PublicKey, String>(pk),
                NodeId::Alias(_) => r matches Err(m) && m@ == "NodeId is not a PublicKey"@,
            },
    {
        match self {
            NodeId::PublicKey(pk) => Ok(pk),
            NodeId::Alias(_) => Err(text("NodeId is not a PublicKey")),
        }
    }

    /// The text of the node id: its key in hexadecimal, or its alias.
    pub fn to_text(&self) -> (s: String)
        ensures
            s@ == self.text(),
    {
        match self {
            NodeId::PublicKey(pk) => pk.to_text(),
            NodeId::Alias(a) => a.clone(),
        }
    }
}

/// Represents a short channel ID: the block height in the upper 24 bits, the transaction's index in the block in the
/// next 24 bits and the output's index in the lower 16 bits.
#[derive(Debug, Clone, Copy, PartialEq, Eq, Hash, Structural)]
pub struct ShortChannelID(pub u64);

impl From<u64> for ShortChannelID {
    fn from(value: u64) -> (r: Self) {
        ShortChannelID(value)
    }
}

impl vstd::std_specs::convert::FromSpecImpl<u64> for ShortChannelID {
    open spec fn obeys_from_spec() -> bool {
        true
    }

    open spec fn from_spec(value: u64) -> Self {
        ShortChannelID(value)
    }
}

impl From<ShortChannelID> for u64 {
    fn from(scid: ShortChannelID) -> (r: Self) {
        scid.0
    }
}

impl vstd::std_specs::convert::FromSpecImpl<ShortChannelID> for u64 {
    open spec fn obeys_from_spec() -> bool {
        true
    }

    open spec fn from_spec(scid: ShortChannelID) -> Self {
        scid.0
    }
}

/// A short channel ID is not changed by its conversion to a number and back, nor a number by the opposite conversions.
pub proof fn law_scid_round_trip(scid: ShortChannelID, value: u64)
    ensures
        <ShortChannelID as vstd::std_specs::convert::FromSpec<u64>>::from_spec(
            <u64 as vstd::std_specs::convert::FromSpec<ShortChannelID>>::from_spec(scid),
        ) == scid,
        <u64 as vstd::std_specs::convert::FromSpec<ShortChannelID>>::from_spec(
            <ShortChannelID as vstd::std_specs::convert::FromSpec<u64>>::from_spec(value),
        ) == value,
{
}

impl ShortChannelID {
    /// The height of the block that confirmed the channel.
    pub open spec fn block(&self) -> nat {
        self.0 as nat / 0x100_0000_0000
    }

    /// The index of the funding transaction in its block.
    pub open spec fn transaction(&self) -> nat {
        self.0 as nat / 0x1_0000 % 0x100_0000
    }

    /// The index of the funding output in its transaction.
    pub open spec fn output(&self) -> nat {
        self.0 as nat % 0x1_0000
    }

    /// The text of the short channel ID: block, transaction and output, separated by colons.
    pub open spec fn text(&self) -> Seq<char> {
        decimal(self.block()) + ":"@ + decimal(self.transaction()) + ":"@ + decimal(self.output())
    }

    /// The text of the short channel ID: block, transaction and output, separated by colons.
    pub fn to_text(&self) -> (s: String)
        ensures
            s@ == self.text(),
    {
        let n: u64 = self.0;
        assert(n >> 40 == n / 0x100_0000_0000) by (bit_vector);
        assert((n >> 16) & 0xff_ffff == n / 0x1_0000 % 0x100_0000) by (bit_vector);
        assert(n & 0xffff == n % 0x1_0000) by (bit_vector);
        let mut s = String::new();
        push_decimal(&mut s, n >> 40);
        s.append(":");
        push_decimal(&mut s, (n >> 16) & 0xff_ffff);
        s.append(":");
        push_decimal(&mut s, n & 0xffff);
        assert(s@ =~= self.text());
        s
    }
}

/// Distinct short channel IDs name distinct outputs.
pub proof fn law_scid_parts_are_unique(a: ShortChannelID, b: ShortChannelID)
    requires
        a.block() == b.block(),
        a.transaction() == b.transaction(),
        a.output() == b.output(),
    ensures
        a == b,
{
    assert(a.0 == a.0 / 0x100_0000_0000 * 0x100_0000_0000 + a.0 / 0x1_0000 % 0x100_0000 * 0x1_0000 + a.0 % 0x1_0000);
    assert(b.0 == b.0 / 0x100_0000_0000 * 0x100_0000_0000 + b.0 / 0x1_0000 % 0x100_0000 * 0x1_0000 + b.0 % 0x1_0000);
}

/// Either a value or a range given in the simulation file.
#[derive(Debug, Clone, Copy)]
pub enum ValueOrRange<T> {
    /// A single fixed value.
    Value(T),
    /// A range [min, max) from which values are randomly sampled.
    Range(T, T),
}

/// The payment amount in msat. Either a value or a range.
pub type Amount = ValueOrRange<u64>;

/// The interval of seconds between payments. Either a value or a range.
pub type Interval = ValueOrRange<u16>;

/// Draws a number with `rand::Rng::gen_range` on `rand::thread_rng`. Every number that is at least `low` and below
/// `high` can come out; the call panics on an empty range.
#[verifier::external_body]
fn sample_range(low: u64, high: u64) -> (r: u64)
    requires
        low < high,
    ensures
        low <= r < high,
{
    rand::thread_rng().gen_range(low..high)
}

/// Whether a number may be drawn from the numbers that are at least `low` and below `high`.
pub closed spec fn is_sample(low: u64, high: u64, n: u64) -> bool {
    call_ensures(sample_range, (low, high), n)
}

impl ValueOrRange<u64> {
    /// Whether a number can be drawn.
    pub open spec fn wf(&self) -> bool {
        self matches ValueOrRange::Range(x, y) ==> *x < *y
    }

    /// Whether a number is the value, or lies in the range.
    pub open spec fn admits(&self, n: int) -> bool {
        match self {
            ValueOrRange::Value(x) => n == *x,
            ValueOrRange::Range(x, y) => *x <= n < *y,
        }
    }

    /// Get the enclosed value. If value is defined as a range, sample from it uniformly at random.
    pub fn value(&self) -> (r: u64)
        requires
            self.wf(),
        ensures
            self.admits(r as int),
            self matches ValueOrRange::Range(x, y) ==> is_sample(*x, *y, r),
    {
        match self {
            ValueOrRange::Value(x) => *x,
            ValueOrRange::Range(x, y) => sample_range(*x, *y),
        }
    }

    /// The text of the value, or the bounds of the range in brackets.
    pub open spec fn text(&self) -> Seq<char> {
        match self {
            ValueOrRange::Value(x) => decimal(*x as nat),
            ValueOrRange::Range(x, y) => "("@ + decimal(*x as nat) + "-"@ + decimal(*y as nat) + ")"@,
        }
    }

    /// The text of the value, or the bounds of the range in brackets.
    pub fn to_text(&self) -> (s: String)
        ensures
            s@ == self.text(),
    {
        let mut s = String::new();
        match self {
            ValueOrRange::Value(x) => push_decimal(&mut s, *x),
            ValueOrRange::Range(x, y) => {
                s.append("(");
                push_decimal(&mut s, *x);
                s.append("-");
                push_decimal(&mut s, *y);
                s.append(")");
            },
        }
        assert(s@ =~= self.text());
        s
    }
}

impl ValueOrRange<u16> {
    /// The same value or range of wider numbers.
    pub open spec fn widened(&self) -> ValueOrRange<u64> {
        match self {
            ValueOrRange::Value(x) => ValueOrRange::Value(*x as u64),
            ValueOrRange::Range(x, y) => ValueOrRange::Range(*x as u64, *y as u64),
        }
    }

    /// The same value or range of wider numbers.
    pub fn widen(&self) -> (r: ValueOrRange<u64>)
        ensures
            r == self.widened(),
    {
        match self {
            ValueOrRange::Value(x) => ValueOrRange::Value(*x as u64),
            ValueOrRange::Range(x, y) => ValueOrRange::Range(*x as u64, *y as u64),
        }
    }

    /// Get the enclosed value. If value is defined as a range, sample from it uniformly at random.
    pub fn value(&self) -> (r: u16)
        requires
            self.widened().wf(),
        ensures
            self.widened().admits(r as int),
            self matches ValueOrRange::Range(x, y) ==> is_sample(*x as u64, *y as u64, r as u64),
    {
        match self {
            ValueOrRange::Value(x) => *x,
            ValueOrRange::Range(x, y) => sample_range(*x as u64, *y as u64) as u16,
        }
    }

    /// The text of the value, or the bounds of the range in brackets.
    pub fn to_text(&self) -> (s: String)
        ensures
            s@ == self.widened().text(),
    {
        self.widen().to_text()
    }
}

/// The contents of a [`NodeInfo`].
pub struct NodeInfoView {
    pub pubkey: PublicKey,
    pub alias: Seq<char>,
    pub features: Seq<u8>,
}

impl NodeInfoView {
    /// The first and the last six digits of the node's key.
    pub open spec fn key_summary(self) -> Seq<char> {
        self.pubkey.text().subrange(0, 6) + "..."@ + self.pubkey.text().subrange(60, 66)
    }

    /// The text of the node: a summary of its key, behind its alias where it has one.
    pub open spec fn text(self) -> Seq<char> {
        if self.alias.len() == 0 {
            self.key_summary()
        } else {
            self.alias + "("@ + self.key_summary() + ")"@
        }
    }
}

/// Information about a lightning network node.
#[derive(Debug)]
pub struct NodeInfo {
    /// The node's public key.
    pub pubkey: PublicKey,
    /// A human-readable name for the node (may be empty).
    pub alias: String,
    /// The node's supported protocol features and capabilities.
    pub features: NodeFeatures,
}

impl View for NodeInfo {
    type V = NodeInfoView;

    open spec fn view(&self) -> NodeInfoView {
        NodeInfoView { pubkey: self.pubkey, alias: self.alias@, features: self.features@ }
    }
}

impl Clone for NodeInfo {
    fn clone(&self) -> (r: Self)
        ensures
            r@ == self@,
    {
        NodeInfo { pubkey: self.pubkey, alias: self.alias.clone(), features: self.features.clone() }
    }
}

impl NodeInfo {
    /// The text of the node: a summary of its key, behind its alias where it has one.
    pub fn to_text(&self) -> (s: String)
        ensures
            s@ == self@.text(),
    {
        let pk = self.pubkey.to_text();
        let mut summary = text(pk.as_str().substring_char(0, 6));
        summary.append("...");
        summary.append(pk.as_str().substring_char(60, 66));
        assert(summary@ =~= self@.key_summary());
        if self.alias.as_str().is_empty() {
            summary
        } else {
            let mut s = self.alias.clone();
            s.append("(");
            s.append(summary.as_str());
            s.append(")");
            assert(s@ =~= self@.text());
            s
        }
    }
}

/// A channel and its size.
#[derive(Debug, Clone, Copy)]
pub struct ChannelInfo {
    pub channel_id: ShortChannelID,
    pub capacity_msat: u64,
}

/// Graph represents the network graph of the simulated network and is useful for efficient lookups.
#[derive(Debug)]
pub struct Graph {
    /// Nodes' information keyed by their public key.
    pub nodes_by_pk: KeyedMap<PublicKey, NodeInfo>,
}

impl Graph {
    /// Creates a graph without nodes.
    pub fn new() -> (g: Self)
        ensures
            g.nodes_by_pk.wf(),
            g.nodes_by_pk@ == Map::<PublicKey, NodeInfo>::empty(),
    {
        Graph { nodes_by_pk: KeyedMap::new() }
    }
}

impl Default for Graph {
    fn default() -> (g: Self)
        ensures
            g.nodes_by_pk.wf(),
            g.nodes_by_pk@ == Map::<PublicKey, NodeInfo>::empty(),
    {
        Graph::new()
    }
}

/// A payment activity between two nodes. This is constructed during activity validation and passed along to the
/// simulation.
#[derive(Debug)]
pub struct ActivityDefinition {
    /// The source of the payment.
    pub source: NodeInfo,
    /// The destination of the payment.
    pub destination: NodeInfo,
    /// The time in the simulation to start the payment.
    pub start_secs: Option<u16>,
    /// The number of payments to send over the course of the simulation.
    pub count: Option<u64>,
    /// The interval of the event, as in every how many seconds the payment is performed.
    pub interval_secs: Interval,
    /// The amount of m_sat to used in this payment.
    pub amount_msat: Amount,
}

/// A short channel ID that is put together from a block, a transaction and an output names them, and is written with them in this
/// order.
pub proof fn law_scid_names_its_parts(scid: ShortChannelID, block: nat, transaction: nat, output: nat)
    requires
        transaction < 0x100_0000,
        output < 0x1_0000,
        scid.0 == block * 0x100_0000_0000 + transaction * 0x1_0000 + output,
    ensures
        scid.block() == block,
        scid.transaction() == transaction,
        scid.output() == output,
        scid.text() == decimal(block) + ":"@ + decimal(transaction) + ":"@ + decimal(output),
{
}

/// A value admits only itself, and a range all numbers from its first on that are below its second. A range must not be empty.
pub proof fn law_range_admits_what_lies_in_it(low: u64, high: u64, n: int)
    ensures
        ValueOrRange::Value(low).admits(n) <==> n == low,
        ValueOrRange::Value(low).wf(),
        ValueOrRange::Range(low, high).admits(n) <==> low <= n && n < high,
        ValueOrRange::Range(low, high).wf() <==> exists|m: int| #[trigger] ValueOrRange::Range(low, high).admits(m),
{
    if low < high {
        assert(ValueOrRange::Range(low, high).admits(low as int));
    }
}

/// Widening keeps a value, and the bounds of a range.
pub proof fn law_widening_keeps_numbers(low: u16, high: u16, n: int)
    ensures
        ValueOrRange::<u16>::Value(low).widened().admits(n) <==> n == low,
        ValueOrRange::<u16>::Range(low, high).widened().admits(n) <==> low <= n && n < high,
{
}

/// The text of a node ends with the first and the last digits of its key, behind its alias if it has one.
pub proof fn law_node_is_named_by_alias_and_key(info: NodeInfoView)
    requires
        info.pubkey.text().len() == 66,
    ensures
        info.alias.len() > 0 ==> info.text().subrange(0, info.alias.len() as int) == info.alias,
        info.alias.len() == 0 ==> info.text().len() == "..."@.len() + 12,
        info.alias.len() == 0 ==> info.text().subrange(0, 6) == info.pubkey.text().subrange(0, 6),
        info.alias.len() == 0 ==> info.text().subrange(info.text().len() - 6, info.text().len() as int)
            == info.pubkey.text().subrange(60, 66),
{
    if info.alias.len() > 0 {
        assert(info.text().subrange(0, info.alias.len() as int) =~= info.alias);
    } else {
        assert(info.text().subrange(0, 6) =~= info.pubkey.text().subrange(0, 6));
        assert(info.text().subrange(info.text().len() - 6, info.text().len() as int) =~= info.pubkey.text().subrange(60, 66));
    }
}

} // verus!
