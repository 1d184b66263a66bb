//! The texts that values have in configuration files and in results.
use crate::node::{Amount, NodeId, ValueOrRange};
use crate::primitives::{is_curve_point, parsed_public_key, PaymentHash, PublicKey};
use crate::text::{decimal, push_decimal, starts_with, text};
use vstd::prelude::*;

verus! {

/// The text of the hash of a payment in results, which is unknown for a payment that was not dispatched.
pub fn payment_hash_text(hash: &Option<PaymentHash>) -> (s: String)
    ensures
        s@ == (match hash {
            Some(h) => h.text(),
            None => "Unknown"@,
        }),
{
    match hash {
        Some(h) => h.to_text(),
        None => text("Unknown"),
    }
}

/// The node id that a text stands for, given what the text is as a public key. What is not a public key is an alias.
pub fn node_id_of(s: String, key: Result<PublicKey, String>) -> (id: NodeId)
    ensures
        match key {
            Ok(pk) => id == NodeId::PublicKey(pk),
            Err(_) => id == NodeId::Alias(s),
        },
{
    match key {
        Ok(pk) => NodeId::PublicKey(pk),
        Err(_) => NodeId::Alias(s),
    }
}

/// Reads a node id: a public key, or else an alias.
pub fn parse_node_id(s: String) -> (id: NodeId)
    ensures
        match parsed_public_key(s@) {
            Ok(bytes) => id matches NodeId::PublicKey(pk) && pk.0@ == bytes,
            Err(_) => id == NodeId::Alias(s),
        },
        // A key is read back from its text.
        forall|key: PublicKey|
            #[trigger] key.text() == s@ && is_curve_point(key.0@) ==> id == NodeId::PublicKey(key),
{
    let key = PublicKey::parse(s.as_str());
    node_id_of(s, key)
}

/// An address with the scheme that it has, or else with that of secured connections.
pub open spec fn with_scheme(s: Seq<char>) -> Seq<char> {
    if "https://"@.is_prefix_of(s) || "http://"@.is_prefix_of(s) {
        s
    } else {
        "https://"@ + s
    }
}

/// Reads an address. One without a scheme is taken to be that of a secured connection.
pub fn parse_address(s: String) -> (r: String)
    ensures
        r@ == with_scheme(s@),
{
    if starts_with(s.as_str(), "https://") || starts_with(s.as_str(), "http://") {
        s
    } else {
        let mut r = text("https://");
        r.append(s.as_str());
        r
    }
}

/// An address that has a scheme is not changed when it is read, so that it can be read again.
pub proof fn law_address_is_read_once(s: Seq<char>)
    ensures
        with_scheme(with_scheme(s)) == with_scheme(s),
{
    if !("https://"@.is_prefix_of(s) || "http://"@.is_prefix_of(s)) {
        let t = "https://"@ + s;
        assert(t.subrange(0, "https://"@.len() as int) =~= "https://"@);
    }
}

/// Checks a value or range that was read. Ranges must be strictly increasing.
pub fn check_value_or_range(v: Amount) -> (r: Result<Amount, String>)
    ensures
        match v {
            ValueOrRange::Range(x, y) if x >= y => r matches Err(m) && m@
                == "Cannot parse range. Ranges must be strictly increasing (i.e. [x, y] with x > y). Received ["@
                + decimal(x as nat) + ", "@ + decimal(y as nat) + "]"@,
            _ => r == Ok::<Amount, String>(v),
        },
        r matches Ok(w) ==> w.wf(),
{
    if let ValueOrRange::Range(x, y) = v {
        if x >= y {
            let mut m = text(
                "Cannot parse range. Ranges must be strictly increasing (i.e. [x, y] with x > y). Received [",
            );
            push_decimal(&mut m, x);
            m.append(", ");
            push_decimal(&mut m, y);
            m.append("]");
            return Err(m);
        }
    }
    Ok(v)
}

/// An address that was read has a scheme, and is otherwise as it was written. Only one without a scheme is changed, by the scheme of
/// secured connections before it.
pub proof fn law_address_has_a_scheme(s: Seq<char>)
    ensures
        "https://"@.is_prefix_of(with_scheme(s)) || "http://"@.is_prefix_of(with_scheme(s)),
        "https://"@.is_prefix_of(s) || "http://"@.is_prefix_of(s) <==> with_scheme(s) == s,
        with_scheme(s) != s ==> with_scheme(s) == "https://"@ + s,
{
    let t = "https://"@ + s;
    assert(t.subrange(0, "https://"@.len() as int) =~= "https://"@);
    reveal_strlit("https://");
    assert(t.len() == s.len() + 8);
}

} // verus!
