//! Payments through Eclair nodes: what is asked of them and how their replies are read.
use crate::backend::{configured_alias, parse_network, parse_node_key, reported_network};
use crate::features::{activated_bit, activates, has_feature, parse_json_to_node_features, ActivatedFeature};
use crate::node::{id_mismatch, LightningError, NodeId, NodeInfo};
use crate::payment::{PaymentOutcome, PaymentResult};
use crate::primitives::{parsed_public_key, Network, PaymentHash, PublicKey};
use crate::rng::weight_sum;
use crate::sim_node::{draw_preimage, is_drawn};
use crate::text::{decimal, decimal_text, hex_chars, hex_encode, text};
use vstd::prelude::*;

verus! {

/// The parameters of a request: their names and values.
pub type RequestParams = Vec<(String, String)>;

/// Whether the parameters of a request are those with some names and values, in order.
pub open spec fn params_are(params: Seq<(String, String)>, expected: Seq<(Seq<char>, Seq<char>)>) -> bool {
    params.map_values(|p: (String, String)| (p.0@, p.1@)) == expected
}

/// What Eclair reports about itself.
#[derive(Debug)]
pub struct EclairInfo {
    pub node_id: String,
    pub alias: String,
    pub network: String,
    /// The features that are activated, by name.
    pub features: Option<Vec<ActivatedFeature>>,
}

/// The status of a part of a payment.
#[derive(Debug, Clone, Copy, PartialEq, Eq, Structural)]
pub enum PaymentStatus {
    Pending,
    Failed,
    Sent,
}

/// Whether features are those that are reported by name.
pub open spec fn are_features(flags: Seq<u8>, features: Option<Vec<ActivatedFeature>>) -> bool {
    &&& flags.len() == 8
    &&& forall|b: u32| #[trigger]
        has_feature(flags, b) <==> (match features {
            Some(list) => activates(list@, b),
            None => false,
        })
}

/// The result of a payment whose parts have a status. None as long as there are no parts, or the first is pending.
pub open spec fn eclair_result(parts: Seq<PaymentStatus>) -> Option<PaymentResult> {
    if parts.len() == 0 {
        None
    } else {
        match parts[0] {
            PaymentStatus::Pending => None,
            PaymentStatus::Sent => Some(
                PaymentResult { htlc_count: parts.len() as usize, payment_outcome: PaymentOutcome::Success },
            ),
            PaymentStatus::Failed => Some(
                PaymentResult { htlc_count: parts.len() as usize, payment_outcome: PaymentOutcome::UnexpectedError },
            ),
        }
    }
}

/// The sum of local balances in millisatoshis, given those in satoshis.
pub open spec fn local_capacity(balances: Seq<u64>) -> int
    decreases balances.len(),
{
    if balances.len() == 0 {
        0
    } else {
        local_capacity(balances.drop_last()) + balances.last() * 1000
    }
}

proof fn lemma_local_capacity(balances: Seq<u64>, n: int)
    requires
        0 <= n <= balances.len(),
    ensures
        0 <= local_capacity(balances.subrange(0, n)) <= local_capacity(balances),
    decreases balances.len() - n, n,
{
    if n < balances.len() {
        lemma_local_capacity(balances, n + 1);
        let next = balances.subrange(0, n + 1);
        assert(next.drop_last() =~= balances.subrange(0, n));
        lemma_capacity_positive(balances.subrange(0, n));
    } else {
        assert(balances.subrange(0, n) =~= balances);
        lemma_capacity_positive(balances);
    }
}

proof fn lemma_capacity_positive(balances: Seq<u64>)
    ensures
        0 <= local_capacity(balances),
    decreases balances.len(),
{
    if balances.len() > 0 {
        lemma_capacity_positive(balances.drop_last());
    }
}

/// Adds up local balances.
fn channel_capacity(balances: &Vec<u64>) -> (sum: u64)
    requires
        local_capacity(balances@) <= u64::MAX,
    ensures
        sum == local_capacity(balances@),
{
    let mut sum: u64 = 0;
    let mut i: usize = 0;
    assert(balances@.subrange(0, 0) =~= Seq::empty());
    while i < balances.len()
        invariant
            i <= balances@.len(),
            local_capacity(balances@) <= u64::MAX,
            sum == local_capacity(balances@.subrange(0, i as int)),
        decreases balances@.len() - i,
    {
        proof {
            let next = balances@.subrange(0, i as int + 1);
            assert(next.drop_last() =~= balances@.subrange(0, i as int));
            lemma_local_capacity(balances@, i as int + 1);
            lemma_capacity_positive(balances@.subrange(0, i as int));
        }
        sum += balances[i] * 1000;
        i += 1;
    }
    assert(balances@.subrange(0, i as int) =~= balances@);
    sum
}

/// A connection to an Eclair node, with what the node reported about itself.
#[derive(Debug)]
pub struct EclairNode {
    pub info: NodeInfo,
    pub network: Network,
}

/// What the URL library makes of text: the URL as it is written, or the error's text.
pub uninterp spec fn parsed_url(text: Seq<char>) -> Result<Seq<char>, Seq<char>>;

/// Parses a URL with `reqwest::Url::parse`, and writes it again with its `Display` implementation. The result depends on the
/// text alone.
#[verifier::external_body]
fn parse_url(text: &str) -> (r: Result<String, String>)
    ensures
        match r {
            Ok(url) => parsed_url(text@) == Ok::<Seq<char>, Seq<char>>(url@),
            Err(e) => parsed_url(text@) == Err::<Seq<char>, Seq<char>>(e@),
        },
{
    reqwest::Url::parse(text).map(|url| url.to_string()).map_err(|e| e.to_string())
}

/// What the URL library makes of an endpoint that is joined to the text of a URL: the URL as it is written, or the error's
/// text.
pub uninterp spec fn joined_url(base: Seq<char>, endpoint: Seq<char>) -> Result<Seq<char>, Seq<char>>;

/// Joins an endpoint to a URL with `reqwest::Url::join`, where the URL is read and the result is written as text. The result
/// depends on the two texts alone.
#[verifier::external_body]
fn join_url(base: &str, endpoint: &str) -> (r: Result<String, String>)
    ensures
        match r {
            Ok(url) => joined_url(base@, endpoint@) == Ok::<Seq<char>, Seq<char>>(url@),
            Err(e) => joined_url(base@, endpoint@) == Err::<Seq<char>, Seq<char>>(e@),
        },
{
    let url = reqwest::Url::parse(base).and_then(|url| url.join(endpoint));
    url.map(|url| url.to_string()).map_err(|e| e.to_string())
}

/// The URL that a node is configured with.
pub fn base_url(text: &str) -> (r: Result<String, LightningError>)
    ensures
        match parsed_url(text@) {
            Ok(url) => r matches Ok(s) && s@ == url,
            Err(m) => r matches Err(LightningError::GetInfoError(e)) && e@ == m,
        },
{
    match parse_url(text) {
        Ok(url) => Ok(url),
        Err(e) => Err(LightningError::GetInfoError(e)),
    }
}

/// The URL of an endpoint of a node's API, or the text of the error.
pub fn endpoint_url(base: &str, endpoint: &str) -> (r: Result<String, String>)
    ensures
        match joined_url(base@, endpoint@) {
            Ok(url) => r matches Ok(s) && s@ == url,
            Err(m) => r matches Err(e) && e@ == m,
        },
{
    join_url(base, endpoint)
}

impl EclairNode {
    /// Connects to a node that was configured with an id, given what it reports about itself.
    pub fn new(id: &NodeId, info: EclairInfo) -> (r: Result<Self, LightningError>)
        ensures
            match parsed_public_key(info.node_id@) {
                Err(m) => r matches Err(LightningError::GetInfoError(e)) && e@ == m,
                Ok(bytes) => if id matches NodeId::PublicKey(pk) && pk.0@ != bytes {
                    &&& r matches Err(LightningError::ValidationError(m))
                    &&& m@ == id_mismatch(id->PublicKey_0.text(), hex_chars(bytes))
                } else {
                    match reported_network(info.network@) {
                        Err(m) => r matches Err(LightningError::ValidationError(e)) && e@ == m,
                        Ok(network) => {
                            &&& r matches Ok(node)
                            &&& node.info.pubkey.0@ == bytes
                            &&& configured_alias(*id, node.info.pubkey, info.alias@) == Some(node.info.alias@)
                            &&& are_features(node.info.features@, info.features)
                            &&& node.network == network
                        },
                    }
                },
            },
    {
        let pubkey = match parse_node_key(info.node_id.as_str()) {
            Ok(pubkey) => pubkey,
            Err(e) => {
                return Err(e);
            },
        };
        let mut alias = info.alias;
        proof {
            if let NodeId::PublicKey(pk) = *id {
                assert(pk.0@ == pubkey.0@ ==> pk.0 =~= pubkey.0);
            }
        }
        if let Err(e) = id.validate(&pubkey, &mut alias) {
            return Err(e);
        }
        let network = match parse_network(info.network.as_str()) {
            Ok(network) => network,
            Err(e) => {
                return Err(e);
            },
        };
        let features = parse_json_to_node_features(&info.features);
        Ok(EclairNode { info: NodeInfo { pubkey, alias, features }, network })
    }

    /// The information that the node reported when the connection was made.
    pub fn get_info(&self) -> (i: &NodeInfo)
        ensures
            *i == self.info,
    {
        &self.info
    }

    /// The network that the node runs on.
    pub fn get_network(&self) -> (n: Network)
        ensures
            n == self.network,
    {
        self.network
    }

    /// The parameters of the request to send a payment with a preimage.
    pub fn send_payment(dest: &PublicKey, amount_msat: u64, preimage: &[u8; 32]) -> (params: RequestParams)
        ensures
            params_are(
                params@,
                seq![
                    ("nodeId"@, dest.text()),
                    ("amountMsat"@, decimal(amount_msat as nat)),
                    ("paymentHash"@, hex_chars(preimage@)),
                ],
            ),
    {
        let mut params: RequestParams = Vec::new();
        params.push((text("nodeId"), dest.to_text()));
        params.push((text("amountMsat"), decimal_text(amount_msat)));
        params.push((text("paymentHash"), hex_encode(preimage.as_slice())));
        assert(params@.map_values(|p: (String, String)| (p.0@, p.1@)) =~= seq![
            ("nodeId"@, dest.text()),
            ("amountMsat"@, decimal(amount_msat as nat)),
            ("paymentHash"@, hex_chars(preimage@)),
        ]);
        params
    }

    /// Starts a payment, whose preimage is random: the preimage, and the parameters of the request to send the payment.
    pub fn start_payment(dest: &PublicKey, amount_msat: u64) -> (r: ([u8; 32], RequestParams))
        ensures
            is_drawn(r.0),
            params_are(
                r.1@,
                seq![
                    ("nodeId"@, dest.text()),
                    ("amountMsat"@, decimal(amount_msat as nat)),
                    ("paymentHash"@, hex_chars(r.0@)),
                ],
            ),
    {
        let preimage = draw_preimage();
        let params = EclairNode::send_payment(dest, amount_msat, &preimage);
        (preimage, params)
    }

    /// The parameters of the request about a payment that was sent with a preimage, given the id in the reply.
    pub fn sent_info(preimage: &[u8; 32], id: String) -> (params: RequestParams)
        ensures
            params_are(params@, seq![("paymentHash"@, hex_chars(preimage@)), ("id"@, id@)]),
    {
        let ghost id_text = id@;
        let mut params: RequestParams = Vec::new();
        params.push((text("paymentHash"), hex_encode(preimage.as_slice())));
        params.push((text("id"), id));
        assert(params@.map_values(|p: (String, String)| (p.0@, p.1@)) =~= seq![
            ("paymentHash"@, hex_chars(preimage@)),
            ("id"@, id_text),
        ]);
        params
    }

    /// The parameters of the request about the result of a payment.
    pub fn payment_info(hash: &PaymentHash) -> (params: RequestParams)
        ensures
            params_are(params@, seq![("paymentHash"@, hash.text())]),
    {
        let mut params: RequestParams = Vec::new();
        params.push((text("paymentHash"), hash.to_text()));
        assert(params@.map_values(|p: (String, String)| (p.0@, p.1@)) =~= seq![("paymentHash"@, hash.text())]);
        params
    }

    /// The result of a payment, given the status of its parts. None if it is to be asked again.
    pub fn track_payment(parts: &Vec<PaymentStatus>) -> (r: Option<PaymentResult>)
        ensures
            r == eclair_result(parts@),
    {
        let htlc_count: usize = parts.len();
        if htlc_count == 0 {
            return None;
        }
        match parts[0] {
            PaymentStatus::Pending => None,
            PaymentStatus::Sent => Some(PaymentResult { htlc_count, payment_outcome: PaymentOutcome::Success }),
            PaymentStatus::Failed => Some(
                PaymentResult { htlc_count, payment_outcome: PaymentOutcome::UnexpectedError },
            ),
        }
    }

    /// The parameters of the request about a node.
    pub fn node_info_request(node_id: &PublicKey) -> (params: RequestParams)
        ensures
            params_are(params@, seq![("nodeId"@, node_id.text())]),
    {
        let mut params: RequestParams = Vec::new();
        params.push((text("nodeId"), node_id.to_text()));
        assert(params@.map_values(|p: (String, String)| (p.0@, p.1@)) =~= seq![("nodeId"@, node_id.text())]);
        params
    }

    /// The information about a node with a key, given the alias and features that are reported for it.
    pub fn get_node_info(node_id: &PublicKey, alias: String, features: &Option<Vec<ActivatedFeature>>) -> (r: NodeInfo)
        ensures
            r.pubkey == *node_id,
            r.alias == alias,
            are_features(r.features@, *features),
    {
        NodeInfo { pubkey: *node_id, alias, features: parse_json_to_node_features(features) }
    }

    /// The capacities of channels in millisatoshis, given the local balances of their commitments in satoshis.
    pub fn list_channels(channels: &Vec<Vec<u64>>) -> (r: Vec<u64>)
        requires
            forall|i: int| 0 <= i < channels@.len() ==> local_capacity((#[trigger] channels@[i])@) <= u64::MAX,
        ensures
            r@.len() == channels@.len(),
            forall|i: int| 0 <= i < r@.len() ==> #[trigger] r@[i] == local_capacity(channels@[i]@),
    {
        let mut list: Vec<u64> = Vec::new();
        let mut i: usize = 0;
        while i < channels.len()
            invariant
                i <= channels@.len(),
                forall|j: int| 0 <= j < channels@.len() ==> local_capacity((#[trigger] channels@[j])@) <= u64::MAX,
                list@.len() == i,
                forall|j: int| 0 <= j < i ==> #[trigger] list@[j] == local_capacity(channels@[j]@),
            decreases channels@.len() - i,
        {
            list.push(channel_capacity(&channels[i]));
            i += 1;
        }
        list
    }
}

/// The result of a payment is that of the first of its parts, once there is one that is not pending. Each part is an htlc.
pub proof fn law_eclair_payments_are_read_by_their_first_part(parts: Seq<PaymentStatus>)
    requires
        parts.len() <= usize::MAX,
    ensures
        eclair_result(parts) is Some <==> parts.len() > 0 && !(parts[0] is Pending),
        eclair_result(parts) matches Some(r) ==> {
            &&& r.htlc_count == parts.len()
            &&& r.payment_outcome is Success <==> parts[0] is Sent
            &&& r.payment_outcome is UnexpectedError <==> parts[0] is Failed
        },
{
}

/// The capacity of a channel is a thousand times the sum of the local balances of its commitments.
pub proof fn law_capacity_is_a_thousand_times_all_balances(balances: Seq<u64>)
    ensures
        local_capacity(balances) == 1000 * weight_sum(balances),
    decreases balances.len(),
{
    if balances.len() > 0 {
        law_capacity_is_a_thousand_times_all_balances(balances.drop_last());
    }
}

/// The parameters of a request are those that are expected if and only if there are as many, with the same names and values in order.
pub proof fn law_parameters_are_named_in_order(params: Seq<(String, String)>, expected: Seq<(Seq<char>, Seq<char>)>)
    ensures
        params_are(params, expected) <==> params.len() == expected.len() && forall|i: int|
            0 <= i < params.len() ==> (#[trigger] params[i]).0@ == expected[i].0 && params[i].1@ == expected[i].1,
{
    let views = params.map_values(|p: (String, String)| (p.0@, p.1@));
    if params_are(params, expected) {
        assert forall|i: int| 0 <= i < params.len() implies (#[trigger] params[i]).0@ == expected[i].0 && params[i].1@
            == expected[i].1 by {
            assert(views[i] == expected[i]);
        }
    }
    if params.len() == expected.len() && forall|i: int|
        0 <= i < params.len() ==> (#[trigger] params[i]).0@ == expected[i].0 && params[i].1@ == expected[i].1 {
        assert(views =~= expected) by {
            assert forall|i: int| 0 <= i < views.len() implies views[i] == expected[i] by {
                assert(params[i].0@ == expected[i].0);
            }
        }
    }
}

/// A node has a feature if and only if it reports one that is known by its name, with its even bit where it is mandatory and with
/// the odd bit above it otherwise.
pub proof fn law_eclair_features_are_those_reported(flags: Seq<u8>, list: Vec<ActivatedFeature>, bit: u32)
    ensures
        are_features(flags, Some(list)) ==> (has_feature(flags, bit) <==> exists|i: int|
            0 <= i < list@.len() && #[trigger] activated_bit(list@[i]) == Some(bit)),
        are_features(flags, None) ==> !has_feature(flags, bit),
{
}

} // verus!
