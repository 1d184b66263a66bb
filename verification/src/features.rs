//! Feature flags: setting the bits of features that a node advertises.
use crate::primitives::{keysend_flag, NodeFeatures};
use crate::text::same_text;
use vstd::prelude::*;

verus! {

/// Whether a bit of a byte is set.
pub open spec fn bit_set(byte: u8, offset: u32) -> bool {
    byte & (1u8 << offset) != 0
}

/// Whether the bit of a feature is set in flags in little endian order.
pub open spec fn has_feature(flags: Seq<u8>, bit: u32) -> bool {
    (bit / 8) < flags.len() && bit_set(flags[(bit / 8) as int], bit % 8)
}

/// Sets the bit of a feature, growing the flags with zero bytes where they are too short for it.
pub fn set_feature(flags: &mut Vec<u8>, bit: u32)
    ensures
        final(flags)@.len() == (if old(flags)@.len() > bit / 8 {
            old(flags)@.len()
        } else {
            (bit / 8 + 1) as nat
        }),
        forall|b: u32| #[trigger] has_feature(final(flags)@, b) <==> (has_feature(old(flags)@, b) || b == bit),
{
    let ghost before = flags@;
    let byte: usize = (bit / 8) as usize;
    while flags.len() <= byte
        invariant
            byte == bit / 8,
            before == old(flags)@,
            before.len() <= flags@.len(),
            flags@.len() <= byte + 1 || flags@ == before,
            forall|i: int| 0 <= i < before.len() ==> flags@[i] == before[i],
            forall|i: int| before.len() <= i < flags@.len() ==> flags@[i] == 0u8,
        decreases byte + 1 - flags@.len(),
    {
        flags.push(0);
    }
    let ghost grown = flags@;
    let offset: u32 = bit % 8;
    let value: u8 = flags[byte] | (1u8 << offset);
    flags.set(byte, value);
    proof {
        assert forall|b: u32| #[trigger] has_feature(flags@, b) <==> (has_feature(before, b) || b == bit) by {
            let i = (b / 8) as int;
            let p = b % 8;
            lemma_zero(p);
            if i < grown.len() {
                let g = grown[i];
                lemma_or(g, offset, p);
                if i == byte {
                    assert(b == bit <==> offset == p);
                }
            }
        }
    }
}

proof fn lemma_or(g: u8, offset: u32, p: u32)
    requires
        offset < 8,
        p < 8,
    ensures
        bit_set(g | (1u8 << offset), p) <==> (bit_set(g, p) || offset == p),
{
    assert(((g | (1u8 << offset)) & (1u8 << p) != 0) <==> (g & (1u8 << p) != 0 || offset == p)) by (bit_vector)
        requires
            offset < 8,
            p < 8,
    ;
}

proof fn lemma_zero(p: u32)
    requires
        p < 8,
    ensures
        !bit_set(0u8, p),
{
    assert(0u8 & (1u8 << p) == 0) by (bit_vector);
}

/// The number of bytes that flags need for the highest of some bits, where they have at least so many.
pub open spec fn flags_len(bits: Seq<u32>, least: nat) -> nat
    decreases bits.len(),
{
    if bits.len() == 0 {
        least
    } else {
        let before = flags_len(bits.drop_last(), least);
        if bits.last() / 8 < before {
            before
        } else {
            (bits.last() / 8 + 1) as nat
        }
    }
}

/// Sets the bits of features in flags of zero bytes, of which there are at least so many.
pub fn flags_of_bits(bits: &Vec<u32>, least: usize) -> (flags: Vec<u8>)
    ensures
        flags@.len() == flags_len(bits@, least as nat),
        forall|b: u32| #[trigger] has_feature(flags@, b) <==> bits@.contains(b),
{
    let mut flags: Vec<u8> = Vec::new();
    while flags.len() < least
        invariant
            flags@.len() <= least,
            forall|i: int| 0 <= i < flags@.len() ==> flags@[i] == 0u8,
        decreases least - flags@.len(),
    {
        flags.push(0);
    }
    let mut i: usize = 0;
    proof {
        assert(bits@.subrange(0, 0) =~= Seq::empty());
        assert forall|b: u32| #[trigger] has_feature(flags@, b) <==> bits@.subrange(0, 0).contains(b) by {
            lemma_zero(b % 8);
        }
    }
    while i < bits.len()
        invariant
            i <= bits@.len(),
            flags@.len() == flags_len(bits@.subrange(0, i as int), least as nat),
            forall|b: u32| #[trigger] has_feature(flags@, b) <==> bits@.subrange(0, i as int).contains(b),
        decreases bits@.len() - i,
    {
        let ghost before = flags@;
        set_feature(&mut flags, bits[i]);
        proof {
            let seen = bits@.subrange(0, i as int);
            let next = bits@.subrange(0, i as int + 1);
            assert(next.drop_last() =~= seen);
            assert(next =~= seen.push(bits@[i as int]));
            assert forall|b: u32| #[trigger] has_feature(flags@, b) <==> next.contains(b) by {
                assert(has_feature(flags@, b) <==> (has_feature(before, b) || b == bits@[i as int]));
                if next.contains(b) {
                    let j = choose|j: int| 0 <= j < next.len() && next[j] == b;
                    if j < i {
                        assert(seen[j] == b);
                    }
                }
                if seen.contains(b) {
                    let j = choose|j: int| 0 <= j < seen.len() && seen[j] == b;
                    assert(next[j] == b);
                }
                assert(next[i as int] == bits@[i as int]);
            }
        }
        i += 1;
    }
    assert(bits@.subrange(0, i as int) =~= bits@);
    flags
}

/// A node supports keysend if, and only if, it advertises the required or the optional bit of that feature.
pub proof fn law_keysend_by_bits(flags: Seq<u8>)
    ensures
        keysend_flag(flags) <==> has_feature(flags, 54) || has_feature(flags, 55),
{
    if flags.len() > 6 {
        let b = flags[6];
        assert((b & 0xc0u8 != 0) <==> (b & (1u8 << 6u32) != 0 || b & (1u8 << 7u32) != 0)) by (bit_vector);
    }
}

/// The bit of a feature by its name, where the feature is required.
pub open spec fn feature_bit(name: Seq<char>) -> Option<u32> {
    if name == "option_data_loss_protect"@ {
        Some(0)
    } else if name == "option_upfront_shutdown_script"@ {
        Some(4)
    } else if name == "gossip_queries"@ {
        Some(6)
    } else if name == "var_onion_optin"@ {
        Some(8)
    } else if name == "gossip_queries_ex"@ {
        Some(10)
    } else if name == "option_static_remotekey"@ {
        Some(12)
    } else if name == "payment_secret"@ {
        Some(14)
    } else if name == "basic_mpp"@ {
        Some(16)
    } else if name == "option_support_large_channel"@ {
        Some(18)
    } else if name == "option_anchors_zero_fee_htlc_tx"@ {
        Some(22)
    } else if name == "option_route_blinding"@ {
        Some(24)
    } else if name == "option_shutdown_anysegwit"@ {
        Some(26)
    } else if name == "option_dual_fund"@ {
        Some(28)
    } else if name == "option_quiesce"@ {
        Some(34)
    } else if name == "option_onion_messages"@ {
        Some(38)
    } else if name == "option_provide_storage"@ {
        Some(42)
    } else if name == "option_channel_type"@ {
        Some(44)
    } else if name == "option_scid_alias"@ {
        Some(46)
    } else if name == "option_payment_metadata"@ {
        Some(48)
    } else if name == "option_zeroconf"@ {
        Some(50)
    } else if name == "keysend"@ {
        Some(54)
    } else if name == "option_simple_close"@ {
        Some(60)
    } else {
        None
    }
}

/// Looks up the bit of a feature by its name.
fn find_feature_bit(name: &str) -> (r: Option<u32>)
    ensures
        r == feature_bit(name@),
        r matches Some(b) ==> b <= 60,
{
    if same_text(name, "option_data_loss_protect") {
        Some(0)
    } else if same_text(name, "option_upfront_shutdown_script") {
        Some(4)
    } else if same_text(name, "gossip_queries") {
        Some(6)
    } else if same_text(name, "var_onion_optin") {
        Some(8)
    } else if same_text(name, "gossip_queries_ex") {
        Some(10)
    } else if same_text(name, "option_static_remotekey") {
        Some(12)
    } else if same_text(name, "payment_secret") {
        Some(14)
    } else if same_text(name, "basic_mpp") {
        Some(16)
    } else if same_text(name, "option_support_large_channel") {
        Some(18)
    } else if same_text(name, "option_anchors_zero_fee_htlc_tx") {
        Some(22)
    } else if same_text(name, "option_route_blinding") {
        Some(24)
    } else if same_text(name, "option_shutdown_anysegwit") {
        Some(26)
    } else if same_text(name, "option_dual_fund") {
        Some(28)
    } else if same_text(name, "option_quiesce") {
        Some(34)
    } else if same_text(name, "option_onion_messages") {
        Some(38)
    } else if same_text(name, "option_provide_storage") {
        Some(42)
    } else if same_text(name, "option_channel_type") {
        Some(44)
    } else if same_text(name, "option_scid_alias") {
        Some(46)
    } else if same_text(name, "option_payment_metadata") {
        Some(48)
    } else if same_text(name, "option_zeroconf") {
        Some(50)
    } else if same_text(name, "keysend") {
        Some(54)
    } else if same_text(name, "option_simple_close") {
        Some(60)
    } else {
        None
    }
}

/// A feature that a node reports as activated: its name, and its level where that is text.
pub type ActivatedFeature = (String, Option<String>);

/// The bit of a feature that a node reports as activated, if it is known: the even bit for a mandatory feature, and the
/// odd bit above it for an optional one.
pub open spec fn activated_bit(feature: ActivatedFeature) -> Option<u32> {
    match feature_bit(feature.0@) {
        Some(bit) => if feature.1 matches Some(level) && level@ == "mandatory"@ {
            Some(bit)
        } else {
            Some((bit + 1) as u32)
        },
        None => None,
    }
}

/// Whether one of the features that a node reports as activated has a bit.
pub open spec fn activates(features: Seq<ActivatedFeature>, bit: u32) -> bool {
    exists|i: int| 0 <= i < features.len() && #[trigger] activated_bit(features[i]) == Some(bit)
}

/// The features of a node that reports them by name, where it reports any.
pub fn parse_json_to_node_features(activated: &Option<Vec<ActivatedFeature>>) -> (r: NodeFeatures)
    ensures
        r@.len() == 8,
        forall|b: u32| #[trigger]
            has_feature(r@, b) <==> (match activated {
                Some(features) => activates(features@, b),
                None => false,
            }),
{
    let no_bits: Vec<u32> = Vec::new();
    let mut flags: Vec<u8> = flags_of_bits(&no_bits, 8);
    if let Some(features) = activated {
        let mut i: usize = 0;
        while i < features.len()
            invariant
                i <= features@.len(),
                flags@.len() == 8,
                forall|b: u32| #[trigger]
                    has_feature(flags@, b) <==> activates(features@.subrange(0, i as int), b),
            decreases features@.len() - i,
        {
            let ghost before = flags@;
            let ghost seen = features@.subrange(0, i as int);
            let ghost next = features@.subrange(0, i as int + 1);
            let ghost bit = activated_bit(features@[i as int]);
            if let Some(position) = find_feature_bit(features[i].0.as_str()) {
                let is_mandatory = match &features[i].1 {
                    Some(level) => same_text(level.as_str(), "mandatory"),
                    None => false,
                };
                let bit: u32 = if is_mandatory {
                    position
                } else {
                    position + 1
                };
                set_feature(&mut flags, bit);
            }
            proof {
                assert forall|b: u32| #[trigger] has_feature(flags@, b) <==> activates(next, b) by {
                    assert(has_feature(flags@, b) <==> (has_feature(before, b) || bit == Some(b)));
                    if activates(next, b) {
                        let j = choose|j: int| 0 <= j < next.len() && #[trigger] activated_bit(next[j]) == Some(b);
                        if j < i {
                            assert(activated_bit(seen[j]) == Some(b));
                        }
                    }
                    if activates(seen, b) {
                        let j = choose|j: int| 0 <= j < seen.len() && #[trigger] activated_bit(seen[j]) == Some(b);
                        assert(activated_bit(next[j]) == Some(b));
                    }
                    if bit == Some(b) {
                        assert(activated_bit(next[i as int]) == Some(b));
                    }
                }
            }
            i += 1;
        }
        assert(features@.subrange(0, i as int) =~= features@);
    }
    NodeFeatures::from_le_bytes(flags)
}

/// Each feature that is known by its name has a bit of its own, which is even.
pub proof fn law_features_have_their_own_even_bits(a: Seq<char>, b: Seq<char>)
    ensures
        feature_bit(a) matches Some(x) ==> x % 2 == 0 && x <= 60,
        feature_bit(a) is Some && feature_bit(a) == feature_bit(b) ==> a == b,
{
}

/// The bits of the features that are known by their names.
pub proof fn law_features_have_their_assigned_bits()
    ensures
        feature_bit("option_data_loss_protect"@) == Some(0u32),
        feature_bit("option_upfront_shutdown_script"@) == Some(4u32),
        feature_bit("gossip_queries"@) == Some(6u32),
        feature_bit("var_onion_optin"@) == Some(8u32),
        feature_bit("gossip_queries_ex"@) == Some(10u32),
        feature_bit("option_static_remotekey"@) == Some(12u32),
        feature_bit("payment_secret"@) == Some(14u32),
        feature_bit("basic_mpp"@) == Some(16u32),
        feature_bit("option_support_large_channel"@) == Some(18u32),
        feature_bit("option_anchors_zero_fee_htlc_tx"@) == Some(22u32),
        feature_bit("option_route_blinding"@) == Some(24u32),
        feature_bit("option_shutdown_anysegwit"@) == Some(26u32),
        feature_bit("option_dual_fund"@) == Some(28u32),
        feature_bit("option_quiesce"@) == Some(34u32),
        feature_bit("option_onion_messages"@) == Some(38u32),
        feature_bit("option_provide_storage"@) == Some(42u32),
        feature_bit("option_channel_type"@) == Some(44u32),
        feature_bit("option_scid_alias"@) == Some(46u32),
        feature_bit("option_payment_metadata"@) == Some(48u32),
        feature_bit("option_zeroconf"@) == Some(50u32),
        feature_bit("keysend"@) == Some(54u32),
        feature_bit("option_simple_close"@) == Some(60u32),
{
    reveal_strlit("option_data_loss_protect");
    assert("option_data_loss_protect"@.len() == 24);
    reveal_strlit("option_upfront_shutdown_script");
    assert("option_upfront_shutdown_script"@.len() == 30);
    reveal_strlit("gossip_queries");
    assert("gossip_queries"@.len() == 14);
    reveal_strlit("var_onion_optin");
    assert("var_onion_optin"@.len() == 15);
    reveal_strlit("gossip_queries_ex");
    assert("gossip_queries_ex"@.len() == 17);
    reveal_strlit("option_static_remotekey");
    assert("option_static_remotekey"@.len() == 23);
    reveal_strlit("payment_secret");
    assert("payment_secret"@.len() == 14);
    reveal_strlit("basic_mpp");
    assert("basic_mpp"@.len() == 9);
    reveal_strlit("option_support_large_channel");
    assert("option_support_large_channel"@.len() == 28);
    reveal_strlit("option_anchors_zero_fee_htlc_tx");
    assert("option_anchors_zero_fee_htlc_tx"@.len() == 31);
    reveal_strlit("option_route_blinding");
    assert("option_route_blinding"@.len() == 21);
    reveal_strlit("option_shutdown_anysegwit");
    assert("option_shutdown_anysegwit"@.len() == 25);
    reveal_strlit("option_dual_fund");
    assert("option_dual_fund"@.len() == 16);
    reveal_strlit("option_quiesce");
    assert("option_quiesce"@.len() == 14);
    reveal_strlit("option_onion_messages");
    assert("option_onion_messages"@.len() == 21);
    reveal_strlit("option_provide_storage");
    assert("option_provide_storage"@.len() == 22);
    reveal_strlit("option_channel_type");
    assert("option_channel_type"@.len() == 19);
    reveal_strlit("option_scid_alias");
    assert("option_scid_alias"@.len() == 17);
    reveal_strlit("option_payment_metadata");
    assert("option_payment_metadata"@.len() == 23);
    reveal_strlit("option_zeroconf");
    assert("option_zeroconf"@.len() == 15);
    reveal_strlit("keysend");
    assert("keysend"@.len() == 7);
    reveal_strlit("option_simple_close");
    assert("option_simple_close"@.len() == 19);
    assert("payment_secret"@[0] != "gossip_queries"@[0]);
    assert("option_quiesce"@[0] != "gossip_queries"@[0]);
    assert("option_quiesce"@[0] != "payment_secret"@[0]);
    assert("option_onion_messages"@[7] != "option_route_blinding"@[7]);
    assert("option_scid_alias"@[0] != "gossip_queries_ex"@[0]);
    assert("option_payment_metadata"@[7] != "option_static_remotekey"@[7]);
    assert("option_zeroconf"@[0] != "var_onion_optin"@[0]);
    assert("option_simple_close"@[7] != "option_channel_type"@[7]);
}

/// A feature is set if and only if its bit is, counted from the lowest bit of the first byte on.
pub proof fn law_feature_is_its_bit_of_the_flags(flags: Seq<u8>, bit: u32)
    ensures
        has_feature(flags, bit) <==> {
            let byte = flags[(bit / 8) as int];
            let offset = bit % 8;
            let worth: u8 = if offset == 0 {
                1
            } else if offset == 1 {
                2
            } else if offset == 2 {
                4
            } else if offset == 3 {
                8
            } else if offset == 4 {
                16
            } else if offset == 5 {
                32
            } else if offset == 6 {
                64
            } else {
                128
            };
            bit / 8 < flags.len() && (byte / worth) % 2 == 1
        },
{
    if bit / 8 < flags.len() {
        let byte = flags[(bit / 8) as int];
        assert((byte & (1u8 << 0u32) != 0) <==> (byte / 1) % 2 == 1) by (bit_vector);
        assert((byte & (1u8 << 1u32) != 0) <==> (byte / 2) % 2 == 1) by (bit_vector);
        assert((byte & (1u8 << 2u32) != 0) <==> (byte / 4) % 2 == 1) by (bit_vector);
        assert((byte & (1u8 << 3u32) != 0) <==> (byte / 8) % 2 == 1) by (bit_vector);
        assert((byte & (1u8 << 4u32) != 0) <==> (byte / 16) % 2 == 1) by (bit_vector);
        assert((byte & (1u8 << 5u32) != 0) <==> (byte / 32) % 2 == 1) by (bit_vector);
        assert((byte & (1u8 << 6u32) != 0) <==> (byte / 64) % 2 == 1) by (bit_vector);
        assert((byte & (1u8 << 7u32) != 0) <==> (byte / 128) % 2 == 1) by (bit_vector);
    }
}

/// A feature that a node reports as mandatory has its even bit, and any other that is known has the odd bit above it.
pub proof fn law_only_mandatory_features_have_even_bits(feature: ActivatedFeature)
    ensures
        activated_bit(feature) is Some <==> feature_bit(feature.0@) is Some,
        feature_bit(feature.0@) matches Some(bit) ==> activated_bit(feature) == Some(
            if feature.1 is Some && feature.1->0@ == "mandatory"@ {
                bit
            } else {
                (bit + 1) as u32
            },
        ),
{
}

/// Flags are as long as the highest of their bits needs, and no shorter than they must be.
pub proof fn law_flags_hold_their_highest_bit(bits: Seq<u32>, least: nat)
    ensures
        flags_len(bits, least) >= least,
        forall|i: int| 0 <= i < bits.len() ==> (#[trigger] bits[i]) / 8 < flags_len(bits, least),
        flags_len(bits, least) == least || exists|i: int|
            0 <= i < bits.len() && (#[trigger] bits[i]) / 8 + 1 == flags_len(bits, least),
    decreases bits.len(),
{
    if bits.len() > 0 {
        let before = bits.drop_last();
        law_flags_hold_their_highest_bit(before, least);
        assert forall|i: int| 0 <= i < bits.len() implies (#[trigger] bits[i]) / 8 < flags_len(bits, least) by {
            if i < before.len() {
                assert(before[i] == bits[i]);
            }
        }
        if flags_len(bits, least) == flags_len(before, least) {
            if flags_len(before, least) != least {
                let i = choose|i: int| 0 <= i < before.len() && (#[trigger] before[i]) / 8 + 1 == flags_len(before, least);
                assert(bits[i] / 8 + 1 == flags_len(bits, least));
            }
        } else {
            assert(bits[bits.len() - 1] / 8 + 1 == flags_len(bits, least));
        }
    }
}

} // verus!
