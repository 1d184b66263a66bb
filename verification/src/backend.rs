//! What the connections to the different lightning implementations have in common.
use crate::node::{LightningError, NodeId};
use crate::primitives::{
    law_network_name_is_read_back, named_network, network_name_error, parsed_public_key, Network, PaymentHash, PublicKey,
};
use crate::text::{hex_bytes, hex_decode, is_hex, law_hex_round_trip, same_text, text};
use vstd::prelude::*;

verus! {

/// Whether text stands for a payment hash: 64 hexadecimal digits.
pub open spec fn is_hash_text(s: Seq<char>) -> bool {
    is_hex(s) && s.len() == 64
}

/// Makes the hash of a payment out of the bytes that a node reports for it, of which there must be 32.
pub fn bytes_to_payment_hash(bytes: &Vec<u8>) -> (r: Result<PaymentHash, LightningError>)
    ensures
        if bytes@.len() == 32 {
            r matches Ok(hash) && hash.0@ == bytes@
        } else {
            r == Err::<PaymentHash, LightningError>(LightningError::InvalidPaymentHash)
        },
{
    if bytes.len() != 32 {
        return Err(LightningError::InvalidPaymentHash);
    }
    let mut hash: [u8; 32] = [0; 32];
    let mut i: usize = 0;
    while i < 32
        invariant
            i <= 32,
            bytes@.len() == 32,
            forall|j: int| 0 <= j < i ==> hash@[j] == bytes@[j],
        decreases 32 - i,
    {
        hash[i] = bytes[i];
        i += 1;
    }
    assert(hash@ =~= bytes@);
    Ok(PaymentHash(hash))
}

/// Reads the text of a payment hash.
pub fn string_to_payment_hash(hash: &str) -> (r: Result<PaymentHash, LightningError>)
    ensures
        if is_hash_text(hash@) {
            r matches Ok(h) && h.0@ == hex_bytes(hash@)
        } else {
            r == Err::<PaymentHash, LightningError>(LightningError::InvalidPaymentHash)
        },
{
    match hex_decode(hash) {
        Some(bytes) => bytes_to_payment_hash(&bytes),
        None => Err(LightningError::InvalidPaymentHash),
    }
}

/// A payment hash is read back from its text.
pub proof fn law_payment_hash_is_read_back(hash: PaymentHash)
    ensures
        is_hash_text(hash.text()),
        hex_bytes(hash.text()) == hash.0@,
{
    law_hex_round_trip(hash.0@);
}

/// The network that a node reports by a name, or why it is not supported.
pub open spec fn reported_network(name: Seq<char>) -> Result<Network, Seq<char>> {
    if name == "mainnet"@ {
        Ok(Network::Bitcoin)
    } else if name == "simnet"@ {
        Err("simnet is not supported"@)
    } else {
        match named_network(name) {
            Some(network) => Ok(network),
            None => Err(network_name_error(name)),
        }
    }
}

/// Reads the network that a node reports. The main network goes by another name there.
pub fn parse_network(name: &str) -> (r: Result<Network, LightningError>)
    ensures
        match reported_network(name@) {
            Ok(network) => r == Ok::<Network, LightningError>(network),
            Err(m) => r matches Err(LightningError::ValidationError(e)) && e@ == m,
        },
{
    if same_text(name, "mainnet") {
        return Ok(Network::Bitcoin);
    }
    if same_text(name, "simnet") {
        return Err(LightningError::ValidationError(text("simnet is not supported")));
    }
    match Network::parse(name) {
        Ok(network) => Ok(network),
        Err(e) => Err(LightningError::ValidationError(e)),
    }
}

/// Reads the public key that a node reports about itself.
pub fn parse_node_key(node_id: &str) -> (r: Result<PublicKey, LightningError>)
    ensures
        match parsed_public_key(node_id@) {
            Ok(bytes) => r matches Ok(key) && key.0@ == bytes,
            Err(m) => r matches Err(LightningError::GetInfoError(e)) && e@ == m,
        },
{
    match PublicKey::parse(node_id) {
        Ok(key) => Ok(key),
        Err(e) => Err(LightningError::GetInfoError(e)),
    }
}

/// The alias of a node that was configured with an id, given what it reports. None if the id is another node's.
pub open spec fn configured_alias(id: NodeId, pubkey: PublicKey, alias: Seq<char>) -> Option<Seq<char>> {
    match id {
        NodeId::PublicKey(pk) => if pk == pubkey {
            Some(alias)
        } else {
            None
        },
        NodeId::Alias(a) => Some(a@),
    }
}

/// The error of a payment whose result is not known when the simulation shuts down.
pub fn shutdown_error() -> (e: LightningError)
    ensures
        e matches LightningError::TrackPaymentError(m) && m@ == "Shutdown before tracking results"@,
{
    LightningError::TrackPaymentError(text("Shutdown before tracking results"))
}

/// A node that reports the main network under either of its names, or another network under its own name, is on that network. Any
/// other name is not supported.
pub proof fn law_reported_networks_go_by_their_names(name: Seq<char>, network: Network)
    ensures
        reported_network(name) == Ok::<Network, Seq<char>>(network) <==> (network is Bitcoin && name == "mainnet"@) || name
            == network.name(),
        reported_network(name) is Err <==> {
            &&& name != "mainnet"@
            &&& name != "bitcoin"@
            &&& name != "testnet"@
            &&& name != "signet"@
            &&& name != "regtest"@
        },
{
    law_network_name_is_read_back(network);
    reveal_strlit("mainnet");
    reveal_strlit("simnet");
    reveal_strlit("bitcoin");
    reveal_strlit("testnet");
    reveal_strlit("signet");
    reveal_strlit("regtest");
    assert("mainnet"@[0] == 'm' && "simnet"@[0] == 's' && "bitcoin"@[0] == 'b' && "testnet"@[0] == 't');
    assert("signet"@[2] == 'g' && "simnet"@[2] == 'm' && "regtest"@[0] == 'r' && "signet"@[0] == 's');
}

/// A node that was configured by its key keeps the alias that it reports, and one that was configured by an alias gets that one. The
/// key of another node is refused.
pub proof fn law_configured_alias_is_kept(id: NodeId, pubkey: PublicKey, alias: Seq<char>)
    ensures
        match id {
            NodeId::PublicKey(pk) => {
                &&& pk == pubkey ==> configured_alias(id, pubkey, alias) == Some(alias)
                &&& pk != pubkey ==> configured_alias(id, pubkey, alias) is None
            },
            NodeId::Alias(a) => configured_alias(id, pubkey, alias) == Some(a@),
        },
{
}

/// The text of a payment hash stands for 32 bytes.
pub proof fn law_hash_text_stands_for_a_hash(s: Seq<char>)
    ensures
        is_hash_text(s) <==> is_hex(s) && hex_bytes(s).len() == 32,
{
}

} // verus!
