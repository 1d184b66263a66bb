//! Payments through CLN nodes: what is asked of them and how their replies are read.
use crate::backend::{bytes_to_payment_hash, configured_alias};
use crate::node::{id_mismatch, LightningError, NodeId, NodeInfo, NodeInfoView};
use crate::payment::{PaymentOutcome, PaymentResult};
use crate::primitives::{core_arg_network, network_name_error, public_key_of, Network, NodeFeatures, PaymentHash, PublicKey};
use crate::text::{
    contains_text, hex_chars, holds_text, law_contained_text_is_between_others, quote, quoted, text,
};
use vstd::prelude::*;

verus! {

/// The features that CLN reports in big endian order, where it reports any.
pub open spec fn reported_features(features: Option<Vec<u8>>) -> Seq<u8> {
    match features {
        Some(f) => f@.reverse(),
        None => Seq::empty(),
    }
}

/// Reads the features that a node reports.
fn read_features(features: Option<Vec<u8>>) -> (r: NodeFeatures)
    ensures
        r@ == reported_features(features),
{
    match features {
        Some(flags) => NodeFeatures::from_be_bytes(flags),
        None => NodeFeatures::empty(),
    }
}

/// The alias that a node reports, where it reports one.
pub open spec fn reported_alias(alias: Option<String>) -> Seq<char> {
    match alias {
        Some(a) => a@,
        None => Seq::empty(),
    }
}

/// Reads the alias that a node reports.
fn read_alias(alias: Option<String>) -> (r: String)
    ensures
        r@ == reported_alias(alias),
{
    match alias {
        Some(alias) => alias,
        None => {
            let empty = String::new();
            assert(empty@ =~= Seq::empty());
            empty
        },
    }
}

/// What CLN reports about itself.
#[derive(Debug)]
pub struct ClnInfo {
    pub id: Vec<u8>,
    pub alias: Option<String>,
    /// The features of the node, in big endian order.
    pub features: Option<Vec<u8>>,
    pub network: String,
}

/// What CLN reports about a payment.
#[derive(Debug, Clone, Copy)]
pub struct ClnPay {
    pub status: i32,
    pub number_of_parts: Option<u64>,
}

/// What is known about the result of a payment that CLN reports: nothing as long as it is pending.
pub open spec fn cln_result(pay: Option<ClnPay>) -> Option<Result<PaymentResult, Seq<char>>> {
    match pay {
        None => None,
        Some(p) => if p.status == 0 {
            None
        } else if p.status == 1 || p.status == 2 {
            let parts = match p.number_of_parts {
                Some(n) => n,
                None => 1,
            };
            if parts > usize::MAX {
                Some(Err("Invalid number of parts"@))
            } else {
                Some(
                    Ok(
                        PaymentResult {
                            htlc_count: parts as usize,
                            payment_outcome: if p.status == 2 {
                                PaymentOutcome::Success
                            } else {
                                PaymentOutcome::UnexpectedError
                            },
                        },
                    ),
                )
            }
        } else {
            Some(Err("Invalid payment status"@))
        },
    }
}

/// Whether the message of a refused payment has a code for which it is of no use to try again.
pub open spec fn is_permanent(message: Seq<char>) -> bool {
    holds_text(message, "Some(-1"@) || holds_text(message, "Some(203"@)
}

/// A connection to a CLN node, with what the node reported about itself.
#[derive(Debug)]
pub struct ClnNode {
    pub info: NodeInfo,
    pub network: Network,
}

impl ClnNode {
    /// Connects to a node that was configured with an id, given what it reports about itself.
    pub fn new(id: &NodeId, info: ClnInfo) -> (r: Result<Self, LightningError>)
        ensures
            match public_key_of(info.id@) {
                Err(m) => r matches Err(LightningError::GetInfoError(e)) && e@ == m,
                Ok(bytes) => if id matches NodeId::PublicKey(pk) && pk.0@ != bytes {
                    &&& r matches Err(LightningError::ValidationError(m))
                    &&& m@ == id_mismatch(id->PublicKey_0.text(), hex_chars(bytes))
                } else {
                    match core_arg_network(info.network@) {
                        None => r matches Err(LightningError::GetInfoError(e)) && e@ == network_name_error(info.network@),
                        Some(network) => {
                            &&& r matches Ok(node)
                            &&& node.info.pubkey.0@ == bytes
                            &&& configured_alias(*id, node.info.pubkey, reported_alias(info.alias)) == Some(
                                node.info.alias@,
                            )
                            &&& node.info.features@ == reported_features(info.features)
                            &&& node.network == network
                        },
                    }
                },
            },
    {
        let pubkey = match PublicKey::from_slice(info.id.as_slice()) {
            Ok(pubkey) => pubkey,
            Err(e) => {
                return Err(LightningError::GetInfoError(e));
            },
        };
        let mut alias = read_alias(info.alias);
        proof {
            if let NodeId::PublicKey(pk) = *id {
                assert(pk.0@ == pubkey.0@ ==> pk.0 =~= pubkey.0);
            }
        }
        if let Err(e) = id.validate(&pubkey, &mut alias) {
            return Err(e);
        }
        let features = read_features(info.features);
        let network = match Network::from_core_arg(info.network.as_str()) {
            Ok(network) => network,
            Err(e) => {
                return Err(LightningError::GetInfoError(e));
            },
        };
        Ok(ClnNode { info: NodeInfo { pubkey, features, alias }, network })
    }

    /// The information that the node reported when the connection was made.
    pub fn get_info(&self) -> (i: &NodeInfo)
        ensures
            *i == self.info,
    {
        &self.info
    }

    /// The network that the node runs on.
    pub fn get_network(&self) -> (n: Network)
        ensures
            n == self.network,
    {
        self.network
    }

    /// The amounts of the channels that were listed for one direction, which are nothing where they are not known.
    pub fn node_channels(amounts: &Vec<Option<u64>>) -> (r: Vec<u64>)
        ensures
            r@ == amounts@.map_values(
                |a: Option<u64>|
                    match a {
                        Some(n) => n,
                        None => 0,
                    },
            ),
    {
        let mut list: Vec<u64> = Vec::new();
        let mut i: usize = 0;
        while i < amounts.len()
            invariant
                i <= amounts@.len(),
                list@.len() == i,
                forall|j: int|
                    0 <= j < i ==> #[trigger] list@[j] == (match amounts@[j] {
                        Some(n) => n,
                        None => 0,
                    }),
            decreases amounts@.len() - i,
        {
            let amount: u64 = match amounts[i] {
                Some(n) => n,
                None => 0,
            };
            list.push(amount);
            i += 1;
        }
        assert(list@ =~= amounts@.map_values(
            |a: Option<u64>|
                match a {
                    Some(n) => n,
                    None => 0,
                },
        ));
        list
    }

    /// The hash of a payment that was sent, given the hash in the reply or the message with which the payment was
    /// refused.
    pub fn send_payment(reply: &Result<Vec<u8>, String>) -> (r: Result<PaymentHash, LightningError>)
        ensures
            match reply {
                Ok(bytes) => if bytes@.len() == 32 {
                    r matches Ok(hash) && hash.0@ == bytes@
                } else {
                    r == Err::<PaymentHash, LightningError>(LightningError::InvalidPaymentHash)
                },
                Err(message) => if is_permanent(message@) {
                    r matches Err(LightningError::PermanentError(m)) && m@ == quoted(message@)
                } else {
                    r matches Err(LightningError::SendPaymentError(m)) && m@ == quoted(message@)
                },
            },
    {
        match reply {
            Ok(bytes) => bytes_to_payment_hash(bytes),
            Err(message) => {
                if contains_text(message.as_str(), "Some(-1") || contains_text(message.as_str(), "Some(203") {
                    // Error codes -1 and 203 indicate permanent errors
                    Err(LightningError::PermanentError(quote(message.as_str())))
                } else {
                    // Error codes, 205, 206 and 210 indicate temporary errors that can be retried
                    Err(LightningError::SendPaymentError(quote(message.as_str())))
                }
            },
        }
    }

    /// The result of a payment, given what the node reports about it. None if it is to be asked again.
    pub fn track_payment(pay: &Option<ClnPay>) -> (r: Option<Result<PaymentResult, LightningError>>)
        ensures
            match cln_result(*pay) {
                None => r is None,
                Some(Ok(result)) => r == Some(Ok::<PaymentResult, LightningError>(result)),
                Some(Err(m)) => r matches Some(Err(LightningError::TrackPaymentError(e))) && e@ == m,
            },
    {
        let pay = match pay {
            Some(pay) => *pay,
            None => {
                return None;
            },
        };
        let payment_outcome = match pay.status {
            0 => {
                return None;
            },
            1 => PaymentOutcome::UnexpectedError,
            2 => PaymentOutcome::Success,
            _ => {
                return Some(Err(LightningError::TrackPaymentError(text("Invalid payment status"))));
            },
        };
        let parts: u64 = match pay.number_of_parts {
            Some(n) => n,
            None => 1,
        };
        if parts > usize::MAX as u64 {
            return Some(Err(LightningError::TrackPaymentError(text("Invalid number of parts"))));
        }
        Some(Ok(PaymentResult { htlc_count: parts as usize, payment_outcome }))
    }

    /// The information about a node with a key, given the alias and features that are reported for it.
    pub fn graph_node(pubkey: PublicKey, alias: Option<String>, features: Option<Vec<u8>>) -> (r: NodeInfo)
        ensures
            r@ == (NodeInfoView { pubkey, alias: reported_alias(alias), features: reported_features(features) }),
    {
        NodeInfo { pubkey, alias: read_alias(alias), features: read_features(features) }
    }

    /// The information about a node, given what is reported for it, if it is known.
    pub fn get_node_info(node_id: &PublicKey, node: Option<(Option<String>, Option<Vec<u8>>)>) -> (r: Result<
        NodeInfo,
        LightningError,
    >)
        ensures
            match node {
                None => r matches Err(LightningError::GetNodeInfoError(m)) && m@ == "Node not found"@,
                Some(n) => {
                    &&& r matches Ok(info)
                    &&& info@ == (NodeInfoView {
                        pubkey: *node_id,
                        alias: reported_alias(n.0),
                        features: reported_features(n.1),
                    })
                },
            },
    {
        match node {
            Some((alias, features)) => Ok(ClnNode::graph_node(*node_id, alias, features)),
            None => Err(LightningError::GetNodeInfoError(text("Node not found"))),
        }
    }

    /// The amounts of all channels, given those of both directions.
    pub fn list_channels(source: &Vec<Option<u64>>, destination: &Vec<Option<u64>>) -> (r: Vec<u64>)
        ensures
            r@ == (source@ + destination@).map_values(
                |a: Option<u64>|
                    match a {
                        Some(n) => n,
                        None => 0,
                    },
            ),
    {
        let mut list = ClnNode::node_channels(source);
        let mut others = ClnNode::node_channels(destination);
        list.append(&mut others);
        assert(list@ =~= (source@ + destination@).map_values(
            |a: Option<u64>|
                match a {
                    Some(n) => n,
                    None => 0,
                },
        ));
        list
    }
}

/// What CLN reports of a payment is read by its number: a payment with the status two succeeded, one with the status one failed, and
/// one with the status zero is pending. It has as many htlcs as parts, and one if their number is not given.
pub proof fn law_cln_payments_are_read_by_their_numbers(p: ClnPay)
    ensures
        cln_result(None) is None,
        cln_result(Some(p)) is None <==> p.status == 0,
        p.status < 0 || p.status > 2 ==> (cln_result(Some(p)) matches Some(r) && r is Err),
        cln_result(Some(p)) matches Some(Ok(r)) ==> {
            &&& p.status == 1 || p.status == 2
            &&& r.payment_outcome is Success <==> p.status == 2
            &&& r.payment_outcome is UnexpectedError <==> p.status == 1
            &&& p.number_of_parts matches Some(n) ==> r.htlc_count == n
            &&& p.number_of_parts is None ==> r.htlc_count == 1
        },
        (p.status == 1 || p.status == 2) && (p.number_of_parts matches Some(n) ==> n <= usize::MAX) ==> (cln_result(Some(p))
            matches Some(r) && r is Ok),
{
}

/// The features of a node are read from the last byte that is reported to the first, and nothing is read of what is not reported.
pub proof fn law_cln_features_are_reversed(features: Vec<u8>, alias: String)
    ensures
        reported_features(Some(features)).len() == features@.len(),
        forall|i: int|
            0 <= i < features@.len() ==> #[trigger] reported_features(Some(features))[i] == features@[features@.len() - 1 - i],
        reported_features(None).len() == 0,
        reported_alias(Some(alias)) == alias@,
        reported_alias(None).len() == 0,
{
}

/// A payment is refused for good if and only if its message holds one of the two codes of permanent errors.
pub proof fn law_cln_errors_are_permanent_by_their_code(message: Seq<char>)
    ensures
        is_permanent(message) <==> (exists|a: Seq<char>, b: Seq<char>| #[trigger] (a + "Some(-1"@ + b) == message) || (exists|
            a: Seq<char>,
            b: Seq<char>,
        | #[trigger] (a + "Some(203"@ + b) == message),
{
    law_contained_text_is_between_others(message, "Some(-1"@);
    law_contained_text_is_between_others(message, "Some(203"@);
}

} // verus!
