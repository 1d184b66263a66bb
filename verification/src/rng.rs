//! Random numbers that can be reproduced from a seed.
use crate::primitives::PublicKey;
use rand::distributions::Distribution;
use rand::{RngCore, SeedableRng};
use std::hash::Hasher;
use vstd::prelude::*;

verus! {

/// The number that the generator of a seed gives at a position of its stream, and the position after it.
pub uninterp spec fn chacha_draw(seed: u64, position: u128) -> (u64, u128);

/// The index that the generator of a seed picks at a position of its stream, with a chance in proportion to the weight
/// of each index, and the position after it.
pub uninterp spec fn chacha_pick(weights: Seq<u64>, seed: u64, position: u128) -> (usize, u128);

/// Draws a number with `next_u64` from the `rand_chacha::ChaCha8Rng` that `seed_from_u64` makes of a seed, moved to a
/// position by `set_word_pos`. The generator has no state but the seed and the position, which `get_word_pos` reads.
#[verifier::external_body]
fn draw(seed: u64, position: u128) -> (r: (u64, u128))
    ensures
        r == chacha_draw(seed, position),
{
    let mut rng = rand_chacha::ChaCha8Rng::seed_from_u64(seed);
    rng.set_word_pos(position);
    let value = rng.next_u64();
    (value, rng.get_word_pos())
}

/// Picks an index with `rand::distributions::WeightedIndex`, on the same generator as for single numbers. The index is
/// one of those that have a weight. The distribution can not be made of no weights, of weights that are all zero or of
/// weights whose sum is out of range.
#[verifier::external_body]
fn pick(weights: &Vec<u64>, seed: u64, position: u128) -> (r: (usize, u128))
    requires
        0 < weight_sum(weights@) <= u64::MAX,
    ensures
        r == chacha_pick(weights@, seed, position),
        r.0 < weights@.len(),
        weights@[r.0 as int] > 0,
{
    let mut rng = rand_chacha::ChaCha8Rng::seed_from_u64(seed);
    rng.set_word_pos(position);
    let index = rand::distributions::WeightedIndex::new(weights).unwrap().sample(&mut rng);
    (index, rng.get_word_pos())
}

/// The sum of weights.
pub open spec fn weight_sum(weights: Seq<u64>) -> nat
    decreases weights.len(),
{
    if weights.len() == 0 {
        0
    } else {
        weight_sum(weights.drop_last()) + weights.last() as nat
    }
}

/// Draws a seed with `rand::random`. Any number can come out.
#[verifier::external_body]
fn random_seed() -> u64 {
    rand::random()
}

/// Hashes bytes with `std::hash::DefaultHasher`, by way of the `Hash` implementation of byte vectors. Nothing is said
/// of the result: the hash of a vector starts with its length as a `usize`, whose size depends on the machine, and the
/// algorithm of the hasher may change between releases.
#[verifier::external_body]
fn hash_bytes(bytes: Vec<u8>) -> u64 {
    let mut hasher = std::hash::DefaultHasher::new();
    std::hash::Hash::hash(&bytes, &mut hasher);
    hasher.finish()
}

/// The bytes of a number in little endian order.
pub open spec fn le_bytes(n: u64) -> Seq<u8> {
    Seq::new(8, |i: int| (n as nat / vstd::arithmetic::power::pow(256, i as nat) as nat % 256) as u8)
}

/// Whether a seed is one that another seed is salted to for a node: a hash of the key of the node, and of the other seed in
/// little endian order.
pub closed spec fn salts_to(seed: u64, pubkey: PublicKey, salted: u64) -> bool {
    exists|bytes: Vec<u8>| bytes@ == pubkey.0@ + le_bytes(seed) && #[trigger] call_ensures(hash_bytes, (bytes,), salted)
}

/// Whether a seed may be drawn.
pub closed spec fn is_drawn_seed(seed: u64) -> bool {
    call_ensures(random_seed, (), seed)
}

/// Whether a seed is always salted to the same seed for a node. That is so as long as the hasher of std is the same.
pub open spec fn salts_alike(seed: u64, pubkey: PublicKey) -> bool {
    forall|a: u64, b: u64| #[trigger] salts_to(seed, pubkey, a) && #[trigger] salts_to(seed, pubkey, b) ==> a == b
}

/// A random number generator that is reproducible from its seed.
#[derive(Debug, Clone, Copy)]
pub struct MutRng {
    /// The seed of the generator.
    pub seed: u64,
    /// The position in the stream of the seed.
    pub position: u128,
}

impl MutRng {
    /// Whether this is a new generator for a seed, which is salted if there is a key.
    pub open spec fn is_made_of(&self, seed: u64, pubkey: Option<PublicKey>) -> bool {
        &&& self.position == 0
        &&& match pubkey {
            Some(pubkey) => salts_to(seed, pubkey, self.seed),
            None => self.seed == seed,
        }
    }

    /// The bytes that a seed and a node's key are hashed from, to salt the seed for that node: the key, and the seed
    /// in little endian order.
    pub fn salt_bytes(seed: u64, pubkey: &PublicKey) -> (bytes: Vec<u8>)
        ensures
            bytes@ == pubkey.0@ + le_bytes(seed),
    {
        let mut bytes: Vec<u8> = Vec::new();
        let mut i: usize = 0;
        while i < 33
            invariant
                i <= 33,
                bytes@ == pubkey.0@.subrange(0, i as int),
            decreases 33 - i,
        {
            bytes.push(pubkey.0[i]);
            assert(pubkey.0@.subrange(0, i as int + 1) =~= pubkey.0@.subrange(0, i as int).push(pubkey.0@[i as int]));
            i += 1;
        }
        assert(bytes@ =~= pubkey.0@);
        let mut rest: u64 = seed;
        let mut j: usize = 0;
        proof {
            vstd::arithmetic::power::lemma_pow0(256);
            assert(seed as nat / 1nat == seed);
        }
        while j < 8
            invariant
                j <= 8,
                bytes@ == pubkey.0@ + le_bytes(seed).subrange(0, j as int),
                rest == seed as nat / vstd::arithmetic::power::pow(256, j as nat) as nat,
                vstd::arithmetic::power::pow(256, j as nat) > 0,
            decreases 8 - j,
        {
            bytes.push((rest % 256) as u8);
            proof {
                let p = vstd::arithmetic::power::pow(256, j as nat);
                vstd::arithmetic::power::lemma_pow_adds(256, j as nat, 1);
                vstd::arithmetic::power::lemma_pow1(256);
                vstd::arithmetic::div_mod::lemma_div_denominator(seed as int, p, 256);
                assert(le_bytes(seed)[j as int] == (rest % 256) as u8);
                assert(bytes@ =~= pubkey.0@ + le_bytes(seed).subrange(0, j as int + 1));
                assert(p * 256 > 0) by (nonlinear_arith)
                    requires
                        p > 0,
                ;
            }
            rest = rest / 256;
            j += 1;
        }
        assert(le_bytes(seed).subrange(0, 8) =~= le_bytes(seed));
        bytes
    }

    /// Creates a new generator given an optional `u64` seed and optional pubkey. With a seed, random activity
    /// generation in the simulator occurs near-deterministically.
    /// Without one, activity generation is truly random, and based on a non-deterministic source of entropy.
    /// If a pubkey is provided, it will be used to salt the seed to ensure each node gets a different sequence.
    pub fn new(seed_opt: Option<(u64, Option<&PublicKey>)>) -> (r: Self)
        ensures
            r.position == 0,
            seed_opt is None ==> is_drawn_seed(r.seed),
            seed_opt matches Some((seed, None)) ==> r.is_made_of(seed, None),
            seed_opt matches Some((seed, Some(pubkey))) ==> r.is_made_of(seed, Some(*pubkey)),
    {
        let seed: u64 = match seed_opt {
            Some((seed, Some(pubkey))) => {
                let bytes = Self::salt_bytes(seed, pubkey);
                let ghost salt = bytes;
                let salted: u64 = hash_bytes(bytes);
                assert(call_ensures(hash_bytes, (salt,), salted));
                salted
            },
            Some((seed, None)) => seed,
            None => random_seed(),
        };
        MutRng { seed, position: 0 }
    }

    /// The next number.
    pub fn next_u64(&mut self) -> (n: u64)
        ensures
            (n, final(self).position) == chacha_draw(old(self).seed, old(self).position),
            final(self).seed == old(self).seed,
    {
        let (n, position) = draw(self.seed, self.position);
        self.position = position;
        n
    }

    /// Picks an index with a chance in proportion to its weight.
    pub fn pick_weighted(&mut self, weights: &Vec<u64>) -> (index: usize)
        requires
            0 < weight_sum(weights@) <= u64::MAX,
        ensures
            (index, final(self).position) == chacha_pick(weights@, old(self).seed, old(self).position),
            final(self).seed == old(self).seed,
            index < weights@.len(),
            weights@[index as int] > 0,
    {
        let (index, position) = pick(weights, self.seed, self.position);
        self.position = position;
        index
    }
}

/// The first numbers of a generator.
pub open spec fn draws(rng: MutRng, n: nat) -> Seq<u64>
    decreases n,
{
    if n == 0 {
        Seq::empty()
    } else {
        let (value, position) = chacha_draw(rng.seed, rng.position);
        seq![value] + draws(MutRng { seed: rng.seed, position }, (n - 1) as nat)
    }
}

/// Two generators that are made of the same seed give the same numbers, however many are drawn.
pub proof fn law_seed_determines_numbers(a: MutRng, b: MutRng, n: nat)
    requires
        a.seed == b.seed,
        a.position == 0,
        b.position == 0,
    ensures
        draws(a, n) == draws(b, n),
{
}

/// Two generators that are made of the same seed and the same key, if there is one, give the same numbers, however many are
/// drawn. With a key, this rests on the hasher that salts the seed, which has to give the same hash for the same bytes.
pub proof fn law_seed_and_key_determine_numbers(a: MutRng, b: MutRng, seed: u64, pubkey: Option<PublicKey>, n: nat)
    requires
        a.is_made_of(seed, pubkey),
        b.is_made_of(seed, pubkey),
        pubkey matches Some(pubkey) ==> salts_alike(seed, pubkey),
    ensures
        a == b,
        draws(a, n) == draws(b, n),
{
}

/// No weights have no sum, and each weight adds to the sum of those before it.
pub proof fn law_sum_adds_every_weight(weights: Seq<u64>, weight: u64)
    ensures
        weight_sum(Seq::empty()) == 0,
        weight_sum(weights.push(weight)) == weight_sum(weights) + weight,
{
    assert(weights.push(weight).drop_last() =~= weights);
}

/// A number is made up of its bytes, of which each counts for 256 times as much as the one before.
pub proof fn law_number_is_made_of_its_bytes(n: u64)
    ensures
        le_bytes(n).len() == 8,
        n == le_bytes(n)[0] + le_bytes(n)[1] * 0x100 + le_bytes(n)[2] * 0x1_0000 + le_bytes(n)[3] * 0x100_0000 + le_bytes(n)[4]
            * 0x1_0000_0000 + le_bytes(n)[5] * 0x100_0000_0000 + le_bytes(n)[6] * 0x1_0000_0000_0000 + le_bytes(n)[7]
            * 0x100_0000_0000_0000,
{
    vstd::arithmetic::power::lemma_pow0(256);
    vstd::arithmetic::power::lemma_pow1(256);
    vstd::arithmetic::power::lemma_pow_adds(256, 1, 1);
    vstd::arithmetic::power::lemma_pow_adds(256, 2, 1);
    vstd::arithmetic::power::lemma_pow_adds(256, 3, 1);
    vstd::arithmetic::power::lemma_pow_adds(256, 4, 1);
    vstd::arithmetic::power::lemma_pow_adds(256, 5, 1);
    vstd::arithmetic::power::lemma_pow_adds(256, 6, 1);
    let d1 = n / 0x100;
    let d2 = n / 0x1_0000;
    let d3 = n / 0x100_0000;
    let d4 = n / 0x1_0000_0000;
    let d5 = n / 0x100_0000_0000;
    let d6 = n / 0x1_0000_0000_0000;
    let d7 = n / 0x100_0000_0000_0000;
    assert(n == d1 * 0x100 + n % 0x100);
    assert(d2 == d1 / 0x100 && d3 == d2 / 0x100 && d4 == d3 / 0x100 && d5 == d4 / 0x100 && d6 == d5 / 0x100 && d7 == d6
        / 0x100);
    assert(d7 < 0x100);
    let b = le_bytes(n);
    assert(n as nat / 1nat == n);
    assert(b[0] == n % 0x100);
    assert(b[1] == d1 % 0x100);
    assert(b[2] == d2 % 0x100);
    assert(b[3] == d3 % 0x100);
    assert(b[4] == d4 % 0x100);
    assert(b[5] == d5 % 0x100);
    assert(b[6] == d6 % 0x100);
    assert(b[7] == d7 % 0x100);
}

} // verus!
