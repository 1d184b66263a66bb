//! Plain values of the lightning protocol: keys, payment hashes, networks and feature flags.
use crate::keyed::Key;
use crate::text::{hex_chars, hex_encode};
use std::str::FromStr;
use vstd::prelude::*;

verus! {

/// A node's public key, in its compressed serialization.
#[derive(Clone, Copy, Debug, PartialEq, Eq, PartialOrd, Ord, Hash)]
pub struct PublicKey(pub [u8; 33]);

impl Key for PublicKey {
    fn same(&self, other: &Self) -> (r: bool) {
        let mut i: usize = 0;
        while i < 33
            invariant
                i <= 33,
                forall|j: int| 0 <= j < i ==> self.0@[j] == other.0@[j],
            decreases 33 - i,
        {
            if self.0[i] != other.0[i] {
                return false;
            }
            i += 1;
        }
        assert(self.0 =~= other.0);
        true
    }
}

/// What the curve library makes of the text of a public key: its compressed serialization, or the error's text.
pub uninterp spec fn parsed_public_key(text: Seq<char>) -> Result<Seq<u8>, Seq<char>>;

/// Whether the curve library accepts bytes as a public key in compressed form.
pub uninterp spec fn is_curve_point(bytes: Seq<u8>) -> bool;

/// Checks a key in compressed form with `secp256k1::PublicKey::from_slice`, which fails on bytes that are not a point of
/// the curve. The text of the error is not said.
#[verifier::external_body]
pub(crate) fn check_curve_point(key: &PublicKey) -> (r: Result<(), String>)
    ensures
        r is Ok <==> is_curve_point(key.0@),
{
    bitcoin::secp256k1::PublicKey::from_slice(&key.0).map(|_| ()).map_err(|e| e.to_string())
}

/// Whether the text of a key was parsed as that key.
pub open spec fn reads_back(text: Seq<char>, parsed: Result<[u8; 33], String>) -> bool {
    forall|key: PublicKey| #[trigger]
        key.text() == text && is_curve_point(key.0@) ==> (parsed matches Ok(bytes) && bytes == key.0)
}

/// Parses a public key with `secp256k1::PublicKey::from_str` and serializes it with `serialize`, which gives the 33
/// bytes of the compressed form. The result depends on the text alone. What is parsed is a point of the curve, and the
/// hexadecimal text of the compressed form of a point is parsed as that point.
#[verifier::external_body]
fn parse_public_key_bytes(text: &str) -> (r: Result<[u8; 33], String>)
    ensures
        match r {
            Ok(bytes) => parsed_public_key(text@) == Ok::<Seq<u8>, Seq<char>>(bytes@),
            Err(e) => parsed_public_key(text@) == Err::<Seq<u8>, Seq<char>>(e@),
        },
        r matches Ok(bytes) ==> is_curve_point(bytes@),
        reads_back(text@, r),
{
    bitcoin::secp256k1::PublicKey::from_str(text).map(|k| k.serialize()).map_err(|e| e.to_string())
}

/// What the curve library makes of the bytes of a public key: its compressed serialization, or the error's text.
pub uninterp spec fn public_key_of(bytes: Seq<u8>) -> Result<Seq<u8>, Seq<char>>;

/// Reads a public key with `secp256k1::PublicKey::from_slice` and serializes it with `serialize`, which gives the 33 bytes
/// of the compressed form. The result depends on the bytes alone, and is a point of the curve.
#[verifier::external_body]
fn read_public_key(bytes: &[u8]) -> (r: Result<[u8; 33], String>)
    ensures
        match r {
            Ok(key) => public_key_of(bytes@) == Ok::<Seq<u8>, Seq<char>>(key@),
            Err(e) => public_key_of(bytes@) == Err::<Seq<u8>, Seq<char>>(e@),
        },
        r matches Ok(key) ==> is_curve_point(key@),
{
    bitcoin::secp256k1::PublicKey::from_slice(bytes).map(|k| k.serialize()).map_err(|e| e.to_string())
}

impl PublicKey {
    /// Reads the bytes of a public key.
    pub fn from_slice(bytes: &[u8]) -> (r: Result<PublicKey, String>)
        ensures
            match r {
                Ok(key) => public_key_of(bytes@) == Ok::<Seq<u8>, Seq<char>>(key.0@),
                Err(e) => public_key_of(bytes@) == Err::<Seq<u8>, Seq<char>>(e@),
            },
            r matches Ok(key) ==> is_curve_point(key.0@),
    {
        match read_public_key(bytes) {
            Ok(key) => Ok(PublicKey(key)),
            Err(e) => Err(e),
        }
    }

    /// The lower case hexadecimal text of the key.
    pub open spec fn text(&self) -> Seq<char> {
        hex_chars(self.0@)
    }

    /// The lower case hexadecimal text of the key.
    pub fn to_text(&self) -> (s: String)
        ensures
            s@ == self.text(),
            s@.len() == 66,
    {
        hex_encode(self.0.as_slice())
    }

    /// Parses the text of a public key.
    pub fn parse(text: &str) -> (r: Result<PublicKey, String>)
        ensures
            match r {
                Ok(key) => parsed_public_key(text@) == Ok::<Seq<u8>, Seq<char>>(key.0@),
                Err(e) => parsed_public_key(text@) == Err::<Seq<u8>, Seq<char>>(e@),
            },
            r matches Ok(key) ==> is_curve_point(key.0@),
            forall|key: PublicKey|
                #[trigger] key.text() == text@ && is_curve_point(key.0@) ==> r == Ok::<PublicKey, String>(key),
    {
        match parse_public_key_bytes(text) {
            Ok(bytes) => Ok(PublicKey(bytes)),
            Err(e) => Err(e),
        }
    }
}

/// The hash that identifies a payment.
#[derive(Clone, Copy, Debug, PartialEq, Eq, PartialOrd, Ord, Hash)]
pub struct PaymentHash(pub [u8; 32]);

impl Key for PaymentHash {
    fn same(&self, other: &Self) -> (r: bool) {
        let mut i: usize = 0;
        while i < 32
            invariant
                i <= 32,
                forall|j: int| 0 <= j < i ==> self.0@[j] == other.0@[j],
            decreases 32 - i,
        {
            if self.0[i] != other.0[i] {
                return false;
            }
            i += 1;
        }
        assert(self.0 =~= other.0);
        true
    }
}

/// The SHA-256 digest of a sequence of bytes.
pub uninterp spec fn sha256(bytes: Seq<u8>) -> Seq<u8>;

/// Hashes bytes with `bitcoin::hashes::sha256::Hash::hash`. The digest is a function of the bytes.
#[verifier::external_body]
fn sha256_digest(bytes: &[u8]) -> (digest: [u8; 32])
    ensures
        digest@ == sha256(bytes@),
{
    let hash: bitcoin::hashes::sha256::Hash = bitcoin::hashes::Hash::hash(bytes);
    bitcoin::hashes::Hash::to_byte_array(hash)
}

impl PaymentHash {
    /// The lower case hexadecimal text of the hash.
    pub open spec fn text(&self) -> Seq<char> {
        hex_chars(self.0@)
    }

    /// The lower case hexadecimal text of the hash.
    pub fn to_text(&self) -> (s: String)
        ensures
            s@ == self.text(),
    {
        hex_encode(self.0.as_slice())
    }

    /// The hash of the payment that is settled by a preimage.
    pub fn of_preimage(preimage: &[u8; 32]) -> (hash: PaymentHash)
        ensures
            hash.0@ == sha256(preimage@),
    {
        PaymentHash(sha256_digest(preimage.as_slice()))
    }
}

/// The bitcoin network that a node runs on.
#[derive(Clone, Copy, Debug, PartialEq, Eq, Structural)]
pub enum Network {
    Bitcoin,
    Testnet,
    Signet,
    Regtest,
}

impl Network {
    /// The name of the network.
    pub open spec fn name(&self) -> Seq<char> {
        match self {
            Network::Bitcoin => "bitcoin"@,
            Network::Testnet => "testnet"@,
            Network::Signet => "signet"@,
            Network::Regtest => "regtest"@,
        }
    }

    /// The name of the network.
    pub fn to_text(&self) -> (s: String)
        ensures
            s@ == self.name(),
    {
        match self {
            Network::Bitcoin => "bitcoin".to_owned(),
            Network::Testnet => "testnet".to_owned(),
            Network::Signet => "signet".to_owned(),
            Network::Regtest => "regtest".to_owned(),
        }
    }
}

/// The network with a name.
pub open spec fn named_network(name: Seq<char>) -> Option<Network> {
    if name == "bitcoin"@ {
        Some(Network::Bitcoin)
    } else if name == "testnet"@ {
        Some(Network::Testnet)
    } else if name == "signet"@ {
        Some(Network::Signet)
    } else if name == "regtest"@ {
        Some(Network::Regtest)
    } else {
        None
    }
}

/// The network that an argument of bitcoind selects.
pub open spec fn core_arg_network(arg: Seq<char>) -> Option<Network> {
    if arg == "main"@ {
        Some(Network::Bitcoin)
    } else if arg == "test"@ {
        Some(Network::Testnet)
    } else if arg == "signet"@ {
        Some(Network::Signet)
    } else if arg == "regtest"@ {
        Some(Network::Regtest)
    } else {
        None
    }
}

/// Why a name is not that of a network.
pub open spec fn network_name_error(name: Seq<char>) -> Seq<char> {
    "failed to parse "@ + name + " as network"@
}

/// Reads the name of a network with `bitcoin::Network::from_str`, which knows the four networks.
#[verifier::external_body]
fn read_network(name: &str) -> (r: Result<Network, String>)
    ensures
        match r {
            Ok(network) => named_network(name@) == Some(network),
            Err(e) => named_network(name@) is None && e@ == network_name_error(name@),
        },
{
    match bitcoin::Network::from_str(name).map_err(|e| e.to_string())? {
        bitcoin::Network::Bitcoin => Ok(Network::Bitcoin),
        bitcoin::Network::Testnet => Ok(Network::Testnet),
        bitcoin::Network::Signet => Ok(Network::Signet),
        bitcoin::Network::Regtest => Ok(Network::Regtest),
        other => Err(other.to_string()),
    }
}

/// Reads an argument of bitcoind with `bitcoin::Network::from_core_arg`, which knows the four networks.
#[verifier::external_body]
fn read_core_arg(arg: &str) -> (r: Result<Network, String>)
    ensures
        match r {
            Ok(network) => core_arg_network(arg@) == Some(network),
            Err(e) => core_arg_network(arg@) is None && e@ == network_name_error(arg@),
        },
{
    match bitcoin::Network::from_core_arg(arg).map_err(|e| e.to_string())? {
        bitcoin::Network::Bitcoin => Ok(Network::Bitcoin),
        bitcoin::Network::Testnet => Ok(Network::Testnet),
        bitcoin::Network::Signet => Ok(Network::Signet),
        bitcoin::Network::Regtest => Ok(Network::Regtest),
        other => Err(other.to_string()),
    }
}

impl Network {
    /// The network with a name.
    pub fn parse(name: &str) -> (r: Result<Network, String>)
        ensures
            match named_network(name@) {
                Some(network) => r == Ok::<Network, String>(network),
                None => r matches Err(e) && e@ == network_name_error(name@),
            },
    {
        read_network(name)
    }

    /// The network that an argument of bitcoind selects.
    pub fn from_core_arg(arg: &str) -> (r: Result<Network, String>)
        ensures
            match core_arg_network(arg@) {
                Some(network) => r == Ok::<Network, String>(network),
                None => r matches Err(e) && e@ == network_name_error(arg@),
            },
    {
        read_core_arg(arg)
    }
}

/// A network is read back from its name.
pub proof fn law_network_name_is_read_back(network: Network)
    ensures
        named_network(network.name()) == Some(network),
{
    reveal_strlit("bitcoin");
    reveal_strlit("testnet");
    reveal_strlit("signet");
    reveal_strlit("regtest");
    assert("testnet"@[0] == 't' && "bitcoin"@[0] == 'b' && "signet"@[0] == 's' && "regtest"@[0] == 'r');
}

/// The protocol features of a node, as flags in little endian order: bit `8 * i + j` of the feature set is bit `j` of
/// byte `i`.
#[derive(Debug)]
pub struct NodeFeatures {
    pub flags: Vec<u8>,
}

/// Whether the keysend feature is set in feature flags, as required (bit 54) or as optional (bit 55).
pub open spec fn keysend_flag(flags: Seq<u8>) -> bool {
    flags.len() > 6 && flags[6] & 0xc0u8 != 0
}

/// Feature flags with the optional keysend bit (bit 55) set, grown with zero bytes where they are too short for it.
pub open spec fn with_keysend_flag(flags: Seq<u8>) -> Seq<u8> {
    let grown = if flags.len() > 6 {
        flags
    } else {
        flags + Seq::new((7 - flags.len()) as nat, |i: int| 0u8)
    };
    grown.update(6, grown[6] | 0x80u8)
}

/// Reads the keysend feature with `lightning::ln::features::NodeFeatures::supports_keysend`, which tests both of its
/// bits.
#[verifier::external_body]
fn flags_support_keysend(flags: &Vec<u8>) -> (r: bool)
    ensures
        r == keysend_flag(flags@),
{
    lightning::ln::features::NodeFeatures::from_le_bytes(flags.clone()).supports_keysend()
}

impl View for NodeFeatures {
    type V = Seq<u8>;

    open spec fn view(&self) -> Seq<u8> {
        self.flags@
    }
}

impl Clone for NodeFeatures {
    fn clone(&self) -> (r: Self)
        ensures
            r@ == self@,
    {
        let flags = self.flags.clone();
        assert(flags@ =~= self.flags@);
        NodeFeatures { flags }
    }
}

impl NodeFeatures {
    /// No features.
    pub fn empty() -> (f: Self)
        ensures
            f@ == Seq::<u8>::empty(),
    {
        NodeFeatures { flags: Vec::new() }
    }

    /// The features given by flags in little endian order.
    pub fn from_le_bytes(flags: Vec<u8>) -> (f: Self)
        ensures
            f@ == flags@,
    {
        NodeFeatures { flags }
    }

    /// The features given by flags in big endian order.
    pub fn from_be_bytes(flags: Vec<u8>) -> (f: Self)
        ensures
            f@ == flags@.reverse(),
    {
        let mut reversed: Vec<u8> = Vec::new();
        let n: usize = flags.len();
        let mut i: usize = 0;
        while i < n
            invariant
                i <= n,
                n == flags@.len(),
                reversed@.len() == i,
                forall|j: int| 0 <= j < i ==> reversed@[j] == flags@[n - 1 - j],
            decreases n - i,
        {
            reversed.push(flags[n - 1 - i]);
            i += 1;
        }
        assert(reversed@ =~= flags@.reverse());
        NodeFeatures { flags: reversed }
    }

    /// Whether the node can receive spontaneous payments.
    pub fn supports_keysend(&self) -> (r: bool)
        ensures
            r == keysend_flag(self@),
    {
        flags_support_keysend(&self.flags)
    }

    /// Sets the keysend feature as optional.
    pub fn set_keysend_optional(&mut self)
        ensures
            final(self)@ == with_keysend_flag(old(self)@),
    {
        while self.flags.len() < 7
            invariant
                old(self)@.len() <= self@.len(),
                self@.len() <= 7 || self@ == old(self)@,
                forall|i: int| 0 <= i < old(self)@.len() ==> self@[i] == old(self)@[i],
                forall|i: int| old(self)@.len() <= i < self@.len() ==> self@[i] == 0u8,
            decreases 7 - self@.len(),
        {
            self.flags.push(0);
        }
        let keysend: u8 = self.flags[6] | 0x80;
        self.flags.set(6, keysend);
        assert(self@ =~= with_keysend_flag(old(self)@));
    }
}

/// A node whose keysend feature has been set as optional supports keysend.
pub proof fn law_keysend_set_is_supported(flags: Seq<u8>)
    ensures
        keysend_flag(with_keysend_flag(flags)),
{
    let grown = if flags.len() > 6 {
        flags
    } else {
        flags + Seq::new((7 - flags.len()) as nat, |i: int| 0u8)
    };
    let b = grown[6];
    assert((b | 0x80u8) & 0xc0u8 != 0) by (bit_vector);
}

/// Setting keysend as optional sets the highest bit of the seventh byte, and changes no other bit of the flags, which are grown with
/// zeros to hold it.
pub proof fn law_setting_keysend_changes_one_bit(flags: Seq<u8>, i: int)
    requires
        0 <= i < with_keysend_flag(flags).len(),
    ensures
        with_keysend_flag(flags).len() == (if flags.len() < 7 {
            7
        } else {
            flags.len()
        }),
        with_keysend_flag(flags)[i] == (if i == 6 {
            (if i < flags.len() {
                flags[i]
            } else {
                0u8
            }) | 0x80u8
        } else if i < flags.len() {
            flags[i]
        } else {
            0u8
        }),
{
}

/// No two networks have the same name, and none is selected by the same argument.
pub proof fn law_networks_have_their_own_names(a: Network, b: Network, arg: Seq<char>)
    ensures
        a.name() == b.name() ==> a == b,
        core_arg_network("main"@) == Some(Network::Bitcoin),
        core_arg_network("test"@) == Some(Network::Testnet),
        core_arg_network("signet"@) == Some(Network::Signet),
        core_arg_network("regtest"@) == Some(Network::Regtest),
        core_arg_network(arg) is Some ==> arg == "main"@ || arg == "test"@ || arg == "signet"@ || arg == "regtest"@,
{
    law_network_name_is_read_back(a);
    law_network_name_is_read_back(b);
    reveal_strlit("main");
    reveal_strlit("test");
    reveal_strlit("signet");
    reveal_strlit("regtest");
    assert("main"@[0] == 'm' && "test"@[0] == 't' && "signet"@[0] == 's' && "regtest"@[0] == 'r');
}

} // verus!
