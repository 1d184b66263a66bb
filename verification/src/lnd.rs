//! Payments through LND nodes: what is asked of them and how their replies are read.
use crate::backend::{
    configured_alias, is_hash_text, parse_network, parse_node_key, reported_network, string_to_payment_hash,
};
use crate::features::{flags_len, flags_of_bits, has_feature};
use crate::node::{id_mismatch, LightningError, NodeId, NodeInfo};
use crate::payment::{PaymentOutcome, PaymentResult};
use crate::primitives::{parsed_public_key, sha256, Network, NodeFeatures, PaymentHash, PublicKey};
use crate::sim_node::{draw_preimage, is_drawn};
use crate::text::{hex_bytes, hex_chars, quote, quoted, text};
use vstd::prelude::*;

verus! {

/// The key of the custom record that holds the preimage of a spontaneous payment.
pub const KEYSEND_KEY: u64 = 5482373484;

/// How long a payment is attempted.
pub const SEND_PAYMENT_TIMEOUT_SECS: i32 = 300;

/// The gRPC status of a server that is unavailable.
pub const UNAVAILABLE: i32 = 14;

/// Parses the node features from the bits that LND reports.
pub fn parse_node_features(features: &Vec<u32>) -> (r: NodeFeatures)
    ensures
        r@.len() == flags_len(features@, 256),
        forall|b: u32| #[trigger] has_feature(r@, b) <==> features@.contains(b),
{
    NodeFeatures::from_le_bytes(flags_of_bits(features, 256))
}

/// A chain that a node is connected to.
#[derive(Debug)]
pub struct Chain {
    pub chain: String,
    pub network: String,
}

/// The list of chains, as it is shown in messages.
pub open spec fn chains_text(chains: Seq<Chain>) -> Seq<char>
    decreases chains.len(),
{
    if chains.len() == 0 {
        Seq::empty()
    } else {
        let c = chains.last();
        let before = if chains.len() == 1 {
            Seq::empty()
        } else {
            chains_text(chains.drop_last()) + ", "@
        };
        before + "Chain { chain: "@ + quoted(c.chain@) + ", network: "@ + quoted(c.network@) + " }"@
    }
}

/// The text of a list of chains.
fn write_chains(chains: &Vec<Chain>) -> (s: String)
    ensures
        s@ == chains_text(chains@),
{
    let mut s = String::new();
    let mut i: usize = 0;
    assert(chains@.subrange(0, 0) =~= Seq::empty());
    while i < chains.len()
        invariant
            i <= chains@.len(),
            s@ == chains_text(chains@.subrange(0, i as int)),
        decreases chains@.len() - i,
    {
        let ghost next = chains@.subrange(0, i as int + 1);
        assert(next.drop_last() =~= chains@.subrange(0, i as int));
        if i > 0 {
            s.append(", ");
        }
        s.append("Chain { chain: ");
        s.append(quote(chains[i].chain.as_str()).as_str());
        s.append(", network: ");
        s.append(quote(chains[i].network.as_str()).as_str());
        s.append(" }");
        assert(s@ =~= chains_text(next));
        i += 1;
    }
    assert(chains@.subrange(0, i as int) =~= chains@);
    s
}

/// The request for a spontaneous payment.
#[derive(Debug)]
pub struct SendPaymentRequest {
    pub amt_msat: i64,
    pub dest: PublicKey,
    /// The custom record for the recipient.
    pub dest_custom_record: (u64, [u8; 32]),
    pub payment_hash: PaymentHash,
    pub timeout_seconds: i32,
    pub fee_limit_msat: i64,
}

/// What LND reports about a payment.
#[derive(Debug, Clone, Copy)]
pub struct LndPayment {
    pub status: i32,
    pub failure_reason: i32,
    /// The number of attempts to settle the payment.
    pub htlcs: usize,
}

/// The status of a payment.
#[derive(Debug, Clone, Copy, PartialEq, Eq, Structural)]
pub enum PaymentStatus {
    Unknown,
    InFlight,
    Succeeded,
    Failed,
}

/// The reason for the failure of a payment.
#[derive(Debug, Clone, Copy, PartialEq, Eq, Structural)]
pub enum PaymentFailureReason {
    FailureReasonNone,
    FailureReasonTimeout,
    FailureReasonNoRoute,
    FailureReasonError,
    FailureReasonIncorrectPaymentDetails,
    FailureReasonInsufficientBalance,
}

/// The status with a number.
pub open spec fn status_of(value: i32) -> Option<PaymentStatus> {
    match value {
        0 => Some(PaymentStatus::Unknown),
        1 => Some(PaymentStatus::InFlight),
        2 => Some(PaymentStatus::Succeeded),
        3 => Some(PaymentStatus::Failed),
        _ => None,
    }
}

/// The reason with a number.
pub open spec fn failure_reason_of(value: i32) -> Option<PaymentFailureReason> {
    match value {
        0 => Some(PaymentFailureReason::FailureReasonNone),
        1 => Some(PaymentFailureReason::FailureReasonTimeout),
        2 => Some(PaymentFailureReason::FailureReasonNoRoute),
        3 => Some(PaymentFailureReason::FailureReasonError),
        4 => Some(PaymentFailureReason::FailureReasonIncorrectPaymentDetails),
        5 => Some(PaymentFailureReason::FailureReasonInsufficientBalance),
        _ => None,
    }
}

/// Reads the number of a status.
fn read_status(value: i32) -> (r: Option<PaymentStatus>)
    ensures
        r == status_of(value),
{
    match value {
        0 => Some(PaymentStatus::Unknown),
        1 => Some(PaymentStatus::InFlight),
        2 => Some(PaymentStatus::Succeeded),
        3 => Some(PaymentStatus::Failed),
        _ => None,
    }
}

/// Reads the number of a reason.
fn read_failure_reason(value: i32) -> (r: Option<PaymentFailureReason>)
    ensures
        r == failure_reason_of(value),
{
    match value {
        0 => Some(PaymentFailureReason::FailureReasonNone),
        1 => Some(PaymentFailureReason::FailureReasonTimeout),
        2 => Some(PaymentFailureReason::FailureReasonNoRoute),
        3 => Some(PaymentFailureReason::FailureReasonError),
        4 => Some(PaymentFailureReason::FailureReasonIncorrectPaymentDetails),
        5 => Some(PaymentFailureReason::FailureReasonInsufficientBalance),
        _ => None,
    }
}

/// The outcome of a payment with a status and a reason for its failure. None for a failure without a reason.
pub open spec fn lnd_outcome(status: PaymentStatus, reason: PaymentFailureReason) -> Option<PaymentOutcome> {
    match status {
        PaymentStatus::Succeeded => Some(PaymentOutcome::Success),
        PaymentStatus::Failed => match reason {
            PaymentFailureReason::FailureReasonTimeout => Some(PaymentOutcome::PaymentExpired),
            PaymentFailureReason::FailureReasonNoRoute => Some(PaymentOutcome::RouteNotFound),
            PaymentFailureReason::FailureReasonError => Some(PaymentOutcome::UnexpectedError),
            PaymentFailureReason::FailureReasonIncorrectPaymentDetails => Some(PaymentOutcome::IncorrectPaymentDetails),
            PaymentFailureReason::FailureReasonInsufficientBalance => Some(PaymentOutcome::InsufficientBalance),
            PaymentFailureReason::FailureReasonNone => None,
        },
        _ => Some(PaymentOutcome::Unknown),
    }
}

/// The result of a payment that LND reports, or why it is not known.
pub open spec fn lnd_result(payment: Option<LndPayment>) -> Result<PaymentResult, Seq<char>> {
    match payment {
        None => Err("No payment"@),
        Some(p) => match status_of(p.status) {
            None => Err("Invalid payment status"@),
            Some(status) => match failure_reason_of(p.failure_reason) {
                None => Err("Invalid failure reason"@),
                Some(reason) => match lnd_outcome(status, reason) {
                    None => Err("Unexpected failure reason"@),
                    Some(outcome) => Ok(PaymentResult { htlc_count: p.htlcs, payment_outcome: outcome }),
                },
            },
        },
    }
}

/// A connection to an LND node, with what the node reported about itself.
#[derive(Debug)]
pub struct LndNode {
    pub info: NodeInfo,
}

impl LndNode {
    /// Connects to a node that was configured with an id, given the key, features and alias that it reports.
    pub fn new(id: &NodeId, identity_pubkey: &str, features: &Vec<u32>, alias: String) -> (r: Result<
        Self,
        LightningError,
    >)
        ensures
            match parsed_public_key(identity_pubkey@) {
                Err(m) => r matches Err(LightningError::GetInfoError(e)) && e@ == m,
                Ok(bytes) => match r {
                    Ok(node) => {
                        &&& node.info.pubkey.0@ == bytes
                        &&& configured_alias(*id, node.info.pubkey, alias@) == Some(node.info.alias@)
                        &&& node.info.features@.len() == flags_len(features@, 256)
                        &&& forall|b: u32| #[trigger]
                            has_feature(node.info.features@, b) <==> features@.contains(b)
                    },
                    Err(LightningError::ValidationError(m)) => id matches NodeId::PublicKey(pk) && pk.0@ != bytes && m@
                        == id_mismatch(pk.text(), hex_chars(bytes)),
                    Err(_) => false,
                },
            },
    {
        let mut alias = alias;
        let pubkey = match parse_node_key(identity_pubkey) {
            Ok(pubkey) => pubkey,
            Err(e) => {
                return Err(e);
            },
        };
        if let Err(e) = id.validate(&pubkey, &mut alias) {
            proof {
                let pk = id->PublicKey_0;
                assert(pk.0@ == pubkey.0@ ==> pk.0 =~= pubkey.0);
            }
            return Err(e);
        }
        Ok(LndNode { info: NodeInfo { pubkey, features: parse_node_features(features), alias } })
    }

    /// The information that the node reported when the connection was made.
    pub fn get_info(&self) -> (i: &NodeInfo)
        ensures
            *i == self.info,
    {
        &self.info
    }

    /// The network of the one chain that the node must be connected to.
    pub fn get_network(&self, chains: &Vec<Chain>) -> (r: Result<Network, LightningError>)
        ensures
            if chains@.len() == 0 {
                &&& r matches Err(LightningError::ValidationError(m))
                &&& m@ == self.info@.text() + " is not connected any chain"@
            } else if chains@.len() > 1 {
                &&& r matches Err(LightningError::ValidationError(m))
                &&& m@ == self.info@.text() + " is connected to more than one chain: Map { iter: Iter(["@ + chains_text(
                    chains@,
                ) + "]) }"@
            } else {
                match reported_network(chains@[0].network@) {
                    Ok(network) => r == Ok::<Network, LightningError>(network),
                    Err(m) => r matches Err(LightningError::ValidationError(e)) && e@ == m,
                }
            },
    {
        if chains.len() == 0 {
            let mut m = self.info.to_text();
            m.append(" is not connected any chain");
            return Err(LightningError::ValidationError(m));
        }
        if chains.len() > 1 {
            let mut m = self.info.to_text();
            m.append(" is connected to more than one chain: Map { iter: Iter([");
            m.append(write_chains(chains).as_str());
            m.append("]) }");
            return Err(LightningError::ValidationError(m));
        }
        parse_network(chains[0].network.as_str())
    }

    /// The request to send a spontaneous payment with a preimage.
    pub fn payment_request(dest: &PublicKey, amount_msat: u64, preimage: &[u8; 32]) -> (r: Result<
        SendPaymentRequest,
        LightningError,
    >)
        ensures
            if amount_msat > i64::MAX {
                r matches Err(LightningError::SendPaymentError(m)) && m@ == "Invalid send amount"@
            } else {
                &&& r matches Ok(q)
                &&& q.amt_msat == amount_msat
                &&& q.dest == *dest
                &&& q.dest_custom_record == (KEYSEND_KEY, *preimage)
                &&& q.payment_hash.0@ == sha256(preimage@)
                &&& q.timeout_seconds == SEND_PAYMENT_TIMEOUT_SECS
                &&& q.fee_limit_msat == i64::MAX
            },
    {
        if amount_msat > 0x7fff_ffff_ffff_ffff {
            return Err(LightningError::SendPaymentError(text("Invalid send amount")));
        }
        Ok(
            SendPaymentRequest {
                amt_msat: amount_msat as i64,
                dest: *dest,
                dest_custom_record: (KEYSEND_KEY, *preimage),
                payment_hash: PaymentHash::of_preimage(preimage),
                timeout_seconds: SEND_PAYMENT_TIMEOUT_SECS,
                fee_limit_msat: 0x7fff_ffff_ffff_ffff,
            },
        )
    }

    /// The request to send a spontaneous payment, whose preimage is random.
    pub fn send_payment(dest: &PublicKey, amount_msat: u64) -> (r: Result<SendPaymentRequest, LightningError>)
        ensures
            if amount_msat > i64::MAX {
                r matches Err(LightningError::SendPaymentError(m)) && m@ == "Invalid send amount"@
            } else {
                &&& r matches Ok(q)
                &&& q.amt_msat == amount_msat
                &&& q.dest == *dest
                &&& q.dest_custom_record.0 == KEYSEND_KEY
                &&& is_drawn(q.dest_custom_record.1)
                &&& q.payment_hash.0@ == sha256(q.dest_custom_record.1@)
                &&& q.timeout_seconds == SEND_PAYMENT_TIMEOUT_SECS
                &&& q.fee_limit_msat == i64::MAX
            },
    {
        let preimage = draw_preimage();
        LndNode::payment_request(dest, amount_msat, &preimage)
    }

    /// The hash of a payment that was sent, given the hash in the first message about it, if there was one.
    pub fn payment_sent(payment_hash: &Option<String>) -> (r: Result<PaymentHash, LightningError>)
        ensures
            match payment_hash {
                None => r matches Err(LightningError::SendPaymentError(m)) && m@ == "No payment"@,
                Some(hash) => if is_hash_text(hash@) {
                    r matches Ok(h) && h.0@ == hex_bytes(hash@)
                } else {
                    r == Err::<PaymentHash, LightningError>(LightningError::InvalidPaymentHash)
                },
            },
    {
        match payment_hash {
            Some(hash) => string_to_payment_hash(hash.as_str()),
            None => Err(LightningError::SendPaymentError(text("No payment"))),
        }
    }

    /// The result of a payment, given what the node reports about it.
    pub fn track_payment(payment: &Option<LndPayment>) -> (r: Result<PaymentResult, LightningError>)
        ensures
            match lnd_result(*payment) {
                Ok(result) => r == Ok::<PaymentResult, LightningError>(result),
                Err(m) => r matches Err(LightningError::TrackPaymentError(e)) && e@ == m,
            },
    {
        let payment = match payment {
            Some(payment) => *payment,
            None => {
                return Err(LightningError::TrackPaymentError(text("No payment")));
            },
        };
        let status = match read_status(payment.status) {
            Some(status) => status,
            None => {
                return Err(LightningError::TrackPaymentError(text("Invalid payment status")));
            },
        };
        let reason = match read_failure_reason(payment.failure_reason) {
            Some(reason) => reason,
            None => {
                return Err(LightningError::TrackPaymentError(text("Invalid failure reason")));
            },
        };
        let payment_outcome = match status {
            PaymentStatus::Succeeded => PaymentOutcome::Success,
            PaymentStatus::Failed => match reason {
                PaymentFailureReason::FailureReasonTimeout => PaymentOutcome::PaymentExpired,
                PaymentFailureReason::FailureReasonNoRoute => PaymentOutcome::RouteNotFound,
                PaymentFailureReason::FailureReasonError => PaymentOutcome::UnexpectedError,
                PaymentFailureReason::FailureReasonIncorrectPaymentDetails => PaymentOutcome::IncorrectPaymentDetails,
                PaymentFailureReason::FailureReasonInsufficientBalance => PaymentOutcome::InsufficientBalance,
                // Payment status is Failed, but there is no reason
                PaymentFailureReason::FailureReasonNone => {
                    return Err(LightningError::TrackPaymentError(text("Unexpected failure reason")));
                },
            },
            // The payment is in flight or unknown
            _ => PaymentOutcome::Unknown,
        };
        Ok(PaymentResult { htlc_count: payment.htlcs, payment_outcome })
    }

    /// The information about a node, given the alias and features that the node reports for it, if it knows it.
    pub fn get_node_info(node_id: &PublicKey, node: Option<(String, Vec<u32>)>) -> (r: Result<NodeInfo, LightningError>)
        ensures
            match node {
                None => r matches Err(LightningError::GetNodeInfoError(m)) && m@ == "Node not found"@,
                Some(n) => {
                    &&& r matches Ok(info)
                    &&& info.pubkey == *node_id
                    &&& info.alias == n.0
                    &&& info.features@.len() == flags_len(n.1@, 256)
                    &&& forall|b: u32| #[trigger] has_feature(info.features@, b) <==> n.1@.contains(b)
                },
            },
    {
        match node {
            Some((alias, features)) => Ok(
                NodeInfo { pubkey: *node_id, alias, features: parse_node_features(&features) },
            ),
            None => Err(LightningError::GetNodeInfoError(text("Node not found"))),
        }
    }

    /// The capacities of channels in millisatoshis, given those in satoshis.
    pub fn list_channels(capacities: &Vec<i64>) -> (r: Vec<u64>)
        requires
            forall|i: int| 0 <= i < capacities@.len() ==> 0 <= #[trigger] capacities@[i] && capacities@[i] * 1000 <= u64::MAX,
        ensures
            r@ == capacities@.map_values(|c: i64| (c * 1000) as u64),
    {
        let mut list: Vec<u64> = Vec::new();
        let mut i: usize = 0;
        while i < capacities.len()
            invariant
                i <= capacities@.len(),
                forall|j: int|
                    0 <= j < capacities@.len() ==> 0 <= #[trigger] capacities@[j] && capacities@[j] * 1000 <= u64::MAX,
                list@.len() == i,
                forall|j: int| 0 <= j < i ==> list@[j] == capacities@[j] * 1000,
            decreases capacities@.len() - i,
        {
            let capacity: u64 = capacities[i] as u64;
            assert(capacities@[i as int] * 1000 <= u64::MAX);
            list.push(1000 * capacity);
            i += 1;
        }
        assert(list@ =~= capacities@.map_values(|c: i64| (c * 1000) as u64));
        list
    }
}

/// The error of a payment that the node refused with a gRPC status. An unavailable node may be tried again.
pub fn status_to_lightning_error(code: i32, message: &str) -> (e: LightningError)
    ensures
        if code == UNAVAILABLE {
            e matches LightningError::SendPaymentError(m) && m@ == "Node unavailable: "@ + message@
        } else {
            e matches LightningError::PermanentError(m) && m@ == message@
        },
{
    if code == UNAVAILABLE {
        let mut m = text("Node unavailable: ");
        m.append(message);
        LightningError::SendPaymentError(m)
    } else {
        LightningError::PermanentError(message.to_owned())
    }
}

/// What LND reports of a payment is read by its numbers: a payment with the status two succeeded, one with the status three failed
/// for its reason, and one with a lower status is not known yet. The htlcs that are reported are counted. Other numbers, and a
/// failure without a reason, are errors.
pub proof fn law_lnd_payments_are_read_by_their_numbers(p: LndPayment)
    ensures
        lnd_result(None) is Err,
        lnd_result(Some(p)) is Ok <==> {
            &&& 0 <= p.status <= 3
            &&& 0 <= p.failure_reason <= 5
            &&& p.status == 3 ==> p.failure_reason != 0
        },
        lnd_result(Some(p)) matches Ok(r) ==> {
            &&& r.htlc_count == p.htlcs
            &&& r.payment_outcome is Success <==> p.status == 2
            &&& r.payment_outcome is Unknown <==> p.status == 0 || p.status == 1
            &&& r.payment_outcome is PaymentExpired <==> p.status == 3 && p.failure_reason == 1
            &&& r.payment_outcome is RouteNotFound <==> p.status == 3 && p.failure_reason == 2
            &&& r.payment_outcome is UnexpectedError <==> p.status == 3 && p.failure_reason == 3
            &&& r.payment_outcome is IncorrectPaymentDetails <==> p.status == 3 && p.failure_reason == 4
            &&& r.payment_outcome is InsufficientBalance <==> p.status == 3 && p.failure_reason == 5
        },
{
}

} // verus!
