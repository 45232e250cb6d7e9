//! Correlation-robust hashing over 128-bit blocks, built on an
//! extendable-output hash.
use vstd::prelude::*;

use vstd::bytes::{
    spec_u128_from_le_bytes, spec_u128_to_le_bytes, u128_from_le_bytes, u128_to_le_bytes,
};

use crate::types::{KeyType, MacType};

verus! {

/// The first `n` bytes of the extendable output of the hash over `input`.
pub uninterp spec fn blake3_xof(input: Seq<u8>, n: nat) -> Seq<u8>;

/// Relies on blake3's `Hasher` and `OutputReader`: the extendable output is a
/// function of the input bytes alone, and `fill` reads as many bytes as the
/// buffer holds.
#[verifier::external_body]
pub(crate) fn blake3_xof_bytes(input: &Vec<u8>, n: usize) -> (r: Vec<u8>)
    ensures
        r@ == blake3_xof(input@, n as nat),
        r@.len() == n,
{
    let mut hasher = blake3::Hasher::new();
    hasher.update(input.as_slice());
    let mut out = vec![0u8; n];
    hasher.finalize_xof().fill(&mut out);
    out
}

/// The 128-bit hash of a single 128-bit block, serialized little-endian.
pub open spec fn spec_hash_u128(value: u128) -> u128 {
    spec_u128_from_le_bytes(blake3_xof(spec_u128_to_le_bytes(value), 16))
}

/// The 128-bit hash of two 128-bit blocks in order; non-commutative because
/// the input bytes differ when the arguments are swapped.
pub open spec fn spec_hash_keys(key1: u128, key2: u128) -> u128 {
    spec_u128_from_le_bytes(
        blake3_xof(spec_u128_to_le_bytes(key1) + spec_u128_to_le_bytes(key2), 16),
    )
}

fn hash_u128(value: u128) -> (r: MacType)
    ensures
        r.0 == spec_hash_u128(value),
{
    let bytes = u128_to_le_bytes(value);
    let digest = blake3_xof_bytes(&bytes, 16);
    MacType(u128_from_le_bytes(digest.as_slice()))
}

/// Hashes a MAC into a fresh 128-bit block.
pub fn hash(mac: MacType) -> (r: MacType)
    ensures
        r.0 == spec_hash_u128(mac.0),
{
    hash_u128(mac.0)
}

/// Hashes a key into a fresh 128-bit block.
pub fn hash_key(key: KeyType) -> (r: MacType)
    ensures
        r.0 == spec_hash_u128(key.0),
{
    hash_u128(key.0)
}

/// Hashes an ordered pair of keys into a 128-bit block.
pub fn hash_keys(key1: KeyType, key2: KeyType) -> (r: MacType)
    ensures
        r.0 == spec_hash_keys(key1.0, key2.0),
{
    let mut bytes = u128_to_le_bytes(key1.0);
    let mut tail = u128_to_le_bytes(key2.0);
    bytes.append(&mut tail);
    let digest = blake3_xof_bytes(&bytes, 16);
    MacType(u128_from_le_bytes(digest.as_slice()))
}

/// Hashing is deterministic: the digest is a function of the input block
/// alone, so equal inputs give equal digests.
pub proof fn lemma_hash_determinism(m1: u128, m2: u128)
    requires
        m1 == m2,
    ensures
        spec_hash_u128(m1) == spec_hash_u128(m2),
{
}

} // verus!
