//! Payments through LDK servers: what is asked of them and how their replies are read.
use crate::backend::{is_hash_text, parse_node_key, string_to_payment_hash};
use crate::channel::{node_info, node_info_view};
use crate::features::{flags_len, flags_of_bits, has_feature};
use crate::keyed::Key;
use crate::node::{LightningError, NodeInfo};
use crate::payment::{PaymentOutcome, PaymentResult};
use crate::primitives::{parsed_public_key, Network, NodeFeatures, PaymentHash, PublicKey};
use crate::text::{hex_bytes, push_signed, signed_decimal, starts_with, text, trim_slashes, trimmed};
use vstd::prelude::*;

verus! {

/// The network with a number in the server's replies, or why it is not supported.
pub open spec fn proto_network(value: i32) -> Result<Network, Seq<char>> {
    match value {
        0 => Ok(Network::Bitcoin),
        1 => Ok(Network::Testnet),
        2 => Err("testnet4 network is not supported"@),
        3 => Ok(Network::Signet),
        4 => Ok(Network::Regtest),
        _ => Err("ldk-server returned unsupported network value: "@ + signed_decimal(value as int)),
    }
}

/// Reads the number of a network in the server's replies.
pub fn network_from_proto(value: i32) -> (r: Result<Network, LightningError>)
    ensures
        match proto_network(value) {
            Ok(network) => r == Ok::<Network, LightningError>(network),
            Err(m) => r matches Err(LightningError::GetInfoError(e)) && e@ == m,
        },
{
    match value {
        0 => Ok(Network::Bitcoin),
        1 => Ok(Network::Testnet),
        2 => Err(LightningError::GetInfoError(text("testnet4 network is not supported"))),
        3 => Ok(Network::Signet),
        4 => Ok(Network::Regtest),
        other => {
            let mut m = text("ldk-server returned unsupported network value: ");
            push_signed(&mut m, other);
            Err(LightningError::GetInfoError(m))
        },
    }
}

/// Sets the bits of the features that the server advertises.
pub fn parse_node_features(bits: &Vec<u32>) -> (r: NodeFeatures)
    ensures
        r@.len() == flags_len(bits@, 0),
        forall|b: u32| #[trigger] has_feature(r@, b) <==> bits@.contains(b),
{
    NodeFeatures::from_le_bytes(flags_of_bits(bits, 0))
}

/// The codes of the errors with which the server refuses requests.
#[derive(Debug, Clone, Copy, PartialEq, Eq, Structural)]
pub enum LdkServerErrorCode {
    InvalidRequestError,
    AuthError,
    LightningError,
    InternalServerError,
    InternalError,
}

/// The error of a payment that the server refused. Errors that are specific to the payment attempt (routing, balance,
/// upstream lightning failures) keep the simulation running; errors of the configuration are permanent.
pub fn ldk_server_error_to_send_error(code: LdkServerErrorCode, message: String) -> (e: LightningError)
    ensures
        e == (match code {
            LdkServerErrorCode::AuthError | LdkServerErrorCode::InvalidRequestError => LightningError::PermanentError(
                message,
            ),
            _ => LightningError::SendPaymentError(message),
        }),
{
    match code {
        LdkServerErrorCode::LightningError
        | LdkServerErrorCode::InternalError
        | LdkServerErrorCode::InternalServerError => LightningError::SendPaymentError(message),
        LdkServerErrorCode::AuthError | LdkServerErrorCode::InvalidRequestError => {
            LightningError::PermanentError(message)
        },
    }
}

/// An address without its scheme and without slashes at its end.
pub open spec fn bare_address(address: Seq<char>) -> Seq<char> {
    if "https://"@.is_prefix_of(address) {
        trimmed(address.skip("https://"@.len() as int))
    } else if "http://"@.is_prefix_of(address) {
        trimmed(address.skip("http://"@.len() as int))
    } else {
        trimmed(address)
    }
}

/// The URL under which the server at an address is reached.
pub fn base_url(address: &str) -> (r: String)
    ensures
        r@ == bare_address(address@),
{
    let n: usize = address.unicode_len();
    if starts_with(address, "https://") {
        let k: usize = "https://".unicode_len();
        let rest = address.substring_char(k, n);
        assert(rest@ =~= address@.skip(k as int));
        trim_slashes(rest)
    } else if starts_with(address, "http://") {
        let k: usize = "http://".unicode_len();
        let rest = address.substring_char(k, n);
        assert(rest@ =~= address@.skip(k as int));
        trim_slashes(rest)
    } else {
        trim_slashes(address)
    }
}

/// What the server reports about itself.
#[derive(Debug)]
pub struct LdkServerInfo {
    pub node_id: String,
    pub node_alias: Option<String>,
    pub network: i32,
    /// The bits of the features that it advertises.
    pub features: Vec<u32>,
}

/// What is known about the result of a payment whose status is reported by a number: nothing as long as it is pending.
pub open spec fn ldk_result(status: Option<i32>) -> Option<Result<PaymentResult, Seq<char>>> {
    match status {
        None => None,
        Some(0) => None,
        Some(1) => Some(Ok(PaymentResult { htlc_count: 1, payment_outcome: PaymentOutcome::Success })),
        Some(2) => Some(Ok(PaymentResult { htlc_count: 1, payment_outcome: PaymentOutcome::UnexpectedError })),
        Some(_) => Some(Err("Invalid payment status"@)),
    }
}

/// The sum of what channels can send and receive.
pub open spec fn total_capacity(channels: Seq<(u64, u64)>) -> int
    decreases channels.len(),
{
    if channels.len() == 0 {
        0
    } else {
        total_capacity(channels.drop_last()) + channels.last().0 + channels.last().1
    }
}

proof fn lemma_total_capacity(channels: Seq<(u64, u64)>, n: int)
    requires
        0 <= n <= channels.len(),
    ensures
        total_capacity(channels.subrange(0, n)) <= total_capacity(channels),
    decreases channels.len() - n,
{
    if n < channels.len() {
        lemma_total_capacity(channels, n + 1);
        assert(channels.subrange(0, n + 1).drop_last() =~= channels.subrange(0, n));
    } else {
        assert(channels.subrange(0, n) =~= channels);
    }
}

/// A connection to an LDK server, with what it reported about itself.
#[derive(Debug)]
pub struct LdkServerNode {
    pub info: NodeInfo,
    pub network: Network,
}

impl LdkServerNode {
    /// Connects to a server, given what it reports about itself.
    pub fn new(info: LdkServerInfo) -> (r: Result<Self, LightningError>)
        ensures
            match parsed_public_key(info.node_id@) {
                Err(m) => r matches Err(LightningError::GetInfoError(e)) && e@ == m,
                Ok(bytes) => match proto_network(info.network) {
                    Err(m) => r matches Err(LightningError::GetInfoError(e)) && e@ == m,
                    Ok(network) => {
                        &&& r matches Ok(node)
                        &&& node.info.pubkey.0@ == bytes
                        &&& node.info.alias@ == (match info.node_alias {
                            Some(a) => a@,
                            None => Seq::empty(),
                        })
                        &&& node.info.features@.len() == flags_len(info.features@, 0)
                        &&& forall|b: u32| #[trigger]
                            has_feature(node.info.features@, b) <==> info.features@.contains(b)
                        &&& node.network == network
                    },
                },
            },
    {
        let pubkey = match parse_node_key(info.node_id.as_str()) {
            Ok(pubkey) => pubkey,
            Err(e) => {
                return Err(e);
            },
        };
        let alias = match info.node_alias {
            Some(alias) => alias,
            None => String::new(),
        };
        let network = match network_from_proto(info.network) {
            Ok(network) => network,
            Err(e) => {
                return Err(e);
            },
        };
        let features = parse_node_features(&info.features);
        Ok(LdkServerNode { info: NodeInfo { pubkey, features, alias }, network })
    }

    /// The information that the server reported when the connection was made.
    pub fn get_info(&self) -> (i: &NodeInfo)
        ensures
            *i == self.info,
    {
        &self.info
    }

    /// The network that the server runs on.
    pub fn get_network(&self) -> (n: Network)
        ensures
            n == self.network,
    {
        self.network
    }

    /// The hash of a payment that was sent, given the payment's id in the reply or the error with which it was refused.
    pub fn send_payment(reply: Result<String, (LdkServerErrorCode, String)>) -> (r: Result<PaymentHash, LightningError>)
        ensures
            match reply {
                Ok(id) => if is_hash_text(id@) {
                    r matches Ok(h) && h.0@ == hex_bytes(id@)
                } else {
                    r == Err::<PaymentHash, LightningError>(LightningError::InvalidPaymentHash)
                },
                Err(e) => match e.0 {
                    LdkServerErrorCode::AuthError | LdkServerErrorCode::InvalidRequestError => r == Err::<
                        PaymentHash,
                        LightningError,
                    >(LightningError::PermanentError(e.1)),
                    _ => r == Err::<PaymentHash, LightningError>(LightningError::SendPaymentError(e.1)),
                },
            },
    {
        match reply {
            Ok(payment_id) => string_to_payment_hash(payment_id.as_str()),
            Err((code, message)) => Err(ldk_server_error_to_send_error(code, message)),
        }
    }

    /// The result of a payment, given the status that the server reports for it. None if it is to be asked again.
    pub fn track_payment(status: Option<i32>) -> (r: Option<Result<PaymentResult, LightningError>>)
        ensures
            match ldk_result(status) {
                None => r is None,
                Some(Ok(result)) => r == Some(Ok::<PaymentResult, LightningError>(result)),
                Some(Err(m)) => r matches Some(Err(LightningError::TrackPaymentError(e))) && e@ == m,
            },
    {
        match status {
            None => None,
            Some(0) => None,
            Some(1) => Some(Ok(PaymentResult { htlc_count: 1, payment_outcome: PaymentOutcome::Success })),
            // The server doesn't expose a failure reason, so routing failures and expiries can't be told apart.
            Some(2) => Some(Ok(PaymentResult { htlc_count: 1, payment_outcome: PaymentOutcome::UnexpectedError })),
            Some(_) => Some(Err(LightningError::TrackPaymentError(text("Invalid payment status")))),
        }
    }

    /// The information about the node itself, if it is the one that is asked for.
    pub fn own_info(&self, node_id: &PublicKey) -> (r: Option<NodeInfo>)
        ensures
            if *node_id == self.info.pubkey {
                r matches Some(info) && info@ == self.info@
            } else {
                r is None
            },
    {
        if node_id.same(&self.info.pubkey) {
            Some(self.info.clone())
        } else {
            None
        }
    }

    /// The information about another node, given the alias in its announcement, if it is known and has one. All nodes
    /// are taken to support keysend.
    pub fn get_node_info(node_id: &PublicKey, node: Option<Option<String>>) -> (r: Result<NodeInfo, LightningError>)
        ensures
            match node {
                None => r matches Err(LightningError::GetNodeInfoError(m)) && m@ == "Node not found"@,
                Some(Some(alias)) => r matches Ok(info) && info@ == node_info_view(*node_id, alias@),
                Some(None) => r matches Ok(info) && info@ == node_info_view(*node_id, Seq::empty()),
            },
    {
        match node {
            None => Err(LightningError::GetNodeInfoError(text("Node not found"))),
            Some(alias) => Ok(LdkServerNode::graph_node(*node_id, alias)),
        }
    }

    /// The information about a node of the graph, given the alias in its announcement, if it has one.
    pub fn graph_node(pubkey: PublicKey, alias: Option<String>) -> (r: NodeInfo)
        ensures
            r@ == node_info_view(
                pubkey,
                match alias {
                    Some(a) => a@,
                    None => Seq::empty(),
                },
            ),
    {
        let alias = match alias {
            Some(alias) => alias,
            None => {
                let empty = String::new();
                assert(empty@ =~= Seq::empty());
                empty
            },
        };
        node_info(pubkey, alias)
    }

    /// The sum of the capacities of channels, given what each of them can send and receive.
    pub fn channel_capacities(channels: &Vec<(u64, u64)>) -> (sum: u64)
        requires
            total_capacity(channels@) <= u64::MAX,
        ensures
            sum == total_capacity(channels@),
    {
        let mut sum: u64 = 0;
        let mut i: usize = 0;
        assert(channels@.subrange(0, 0) =~= Seq::empty());
        while i < channels.len()
            invariant
                i <= channels@.len(),
                total_capacity(channels@) <= u64::MAX,
                sum == total_capacity(channels@.subrange(0, i as int)),
            decreases channels@.len() - i,
        {
            proof {
                let next = channels@.subrange(0, i as int + 1);
                assert(next.drop_last() =~= channels@.subrange(0, i as int));
                lemma_total_capacity(channels@, i as int + 1);
            }
            sum += channels[i].0 + channels[i].1;
            i += 1;
        }
        assert(channels@.subrange(0, i as int) =~= channels@);
        sum
    }
}

/// The networks of the server's replies by their numbers, of which one is not supported and no others are known.
pub proof fn law_networks_are_read_by_their_numbers(value: i32)
    ensures
        proto_network(value) is Ok <==> value == 0 || value == 1 || value == 3 || value == 4,
        proto_network(value) matches Ok(network) ==> {
            &&& network is Bitcoin <==> value == 0
            &&& network is Testnet <==> value == 1
            &&& network is Signet <==> value == 3
            &&& network is Regtest <==> value == 4
        },
{
}

/// The status of a payment is read by its number: one for success, two for failure, and zero as long as it is pending. A payment that
/// is resolved counts as one htlc.
pub proof fn law_payments_are_read_by_their_numbers(status: i32)
    ensures
        ldk_result(None) is None,
        ldk_result(Some(status)) is None <==> status == 0,
        ldk_result(Some(status)) matches Some(Err(_)) <==> status < 0 || status > 2,
        ldk_result(Some(status)) matches Some(Ok(r)) ==> {
            &&& r.htlc_count == 1
            &&& r.payment_outcome is Success <==> status == 1
            &&& r.payment_outcome is UnexpectedError <==> status == 2
        },
{
}

/// The capacity of channels is what all of them can send and receive: no channels have none, and each adds both of its amounts.
pub proof fn law_capacity_adds_both_directions(channels: Seq<(u64, u64)>, channel: (u64, u64))
    ensures
        total_capacity(Seq::empty()) == 0,
        total_capacity(channels.push(channel)) == total_capacity(channels) + channel.0 + channel.1,
{
    assert(channels.push(channel).drop_last() =~= channels);
}

/// An address loses its scheme and the slashes at its end, and nothing else, whichever scheme it has.
pub proof fn law_address_loses_scheme_and_slashes(host: Seq<char>)
    requires
        host.len() > 0,
        host.last() != '/',
        !"https://"@.is_prefix_of(host),
        !"http://"@.is_prefix_of(host),
    ensures
        bare_address(host) == host,
        bare_address("https://"@ + host) == host,
        bare_address("http://"@ + host) == host,
        !"https://"@.is_prefix_of(host.push('/')) && !"http://"@.is_prefix_of(host.push('/')) ==> bare_address(
            host.push('/'),
        ) == host,
{
    reveal_strlit("https://");
    reveal_strlit("http://");
    let secure = "https://"@ + host;
    let plain = "http://"@ + host;
    assert(secure.subrange(0, 8) =~= "https://"@);
    assert(plain.subrange(0, 7) =~= "http://"@);
    assert(secure.skip(8) =~= host);
    assert(plain.skip(7) =~= host);
    assert(plain[4] == ':' && "https://"@[4] == 's');
    assert(!"https://"@.is_prefix_of(plain)) by {
        if "https://"@.is_prefix_of(plain) {
            assert(plain.subrange(0, 8)[4] == plain[4]);
        }
    }
    assert(host.push('/').drop_last() =~= host);
}

} // verus!
