//! The leaky-AND sub-protocol: from authenticated bits to authenticated AND
//! shares, one hash pair per column.
use vstd::prelude::*;

use crate::hash::{hash, spec_hash_u128};
use crate::types::{bit128, bit_word, lemma_low_bits_full, spec_low_bits, Delta, KeyType, MacType, K};

verus! {

/// A pair of masked hash rows per column, sent to the other party.
pub type AndHashes = Vec<[MacType; 2]>;

/// Row 0 of column `i`: the hash of the column key, masked by the sender's
/// random bit.
pub open spec fn spec_row0(random_bits: u128, keys: Seq<KeyType>, i: int) -> u128 {
    spec_hash_u128(keys[i].0) ^ bit_word(bit128(random_bits, i))
}

/// Row 1 of column `i`: the hash of the column key shifted by delta, masked
/// by the sender's random bit and its `y` bit.
pub open spec fn spec_row1(
    delta: Delta,
    random_bits: u128,
    authenticated_bits_y: u128,
    keys: Seq<KeyType>,
    i: int,
) -> u128 {
    spec_hash_u128(delta.0 ^ keys[i].0) ^ bit_word(bit128(random_bits, i)) ^ bit_word(
        bit128(authenticated_bits_y, i),
    )
}

/// Computes the two masked hash rows for each of the K columns, to be sent to
/// the other party.
///
/// `keys[i]` is the key for the authenticated bit at column `i`,
/// `random_bits` holds one fresh random bit per column, and
/// `authenticated_bits_y` is the sender's share of the `y` value.
pub fn compute_leaky_and_hashes(
    delta: &Delta,
    random_bits: u128,
    authenticated_bits_y: u128,
    keys: &Vec<KeyType>,
) -> (out: AndHashes)
    requires
        keys@.len() >= K,
    ensures
        out@.len() == K,
        forall|i: int|
            0 <= i < K ==> #[trigger] out@[i]@[0].0 == spec_row0(random_bits, keys@, i),
        forall|i: int|
            0 <= i < K ==> #[trigger] out@[i]@[1].0 == spec_row1(
                *delta,
                random_bits,
                authenticated_bits_y,
                keys@,
                i,
            ),
{
    let mut out: AndHashes = Vec::new();
    for i in 0..K
        invariant
            keys@.len() >= K,
            out@.len() == i,
            forall|j: int|
                0 <= j < i ==> #[trigger] out@[j]@[0].0 == spec_row0(random_bits, keys@, j),
            forall|j: int|
                0 <= j < i ==> #[trigger] out@[j]@[1].0 == spec_row1(
                    *delta,
                    random_bits,
                    authenticated_bits_y,
                    keys@,
                    j,
                ),
    {
        let random_bit: u128 = if random_bits & (1u128 << (i as u128)) != 0 {
            1
        } else {
            0
        };
        let y_bit: u128 = if authenticated_bits_y & (1u128 << (i as u128)) != 0 {
            1
        } else {
            0
        };
        assert(random_bit == bit_word(bit128(random_bits, i as int))
            && y_bit == bit_word(bit128(authenticated_bits_y, i as int))) by {
            let v = random_bits;
            let w = authenticated_bits_y;
            let k = i as u128;
            assert((v & (1u128 << k) != 0) == ((v >> k) & 1 == 1)) by (bit_vector);
            assert((w & (1u128 << k) != 0) == ((w >> k) & 1 == 1)) by (bit_vector);
        }
        let row0 = MacType(hash(MacType(keys[i].0)).0 ^ random_bit);
        let row1 = MacType(hash(delta.xor(MacType(keys[i].0))).0 ^ random_bit ^ y_bit);
        out.push([row0, row1]);
    }
    out
}

/// The bit derived for column `i`: whether the selected row differs from the
/// hash of the column MAC.
pub open spec fn spec_and_share_bit(
    authenticated_bits: u128,
    macs: Seq<MacType>,
    and_hashes: Seq<[MacType; 2]>,
    i: int,
) -> bool {
    let row = if bit128(authenticated_bits, i) {
        and_hashes[i]@[1].0
    } else {
        and_hashes[i]@[0].0
    };
    (row ^ spec_hash_u128(macs[i].0)) != 0
}

/// The word accumulating the derived bits of the first `n` columns.
pub open spec fn spec_derived_word(
    authenticated_bits: u128,
    macs: Seq<MacType>,
    and_hashes: Seq<[MacType; 2]>,
    n: int,
) -> u128
    decreases n,
{
    if n <= 0 {
        0
    } else {
        spec_derived_word(authenticated_bits, macs, and_hashes, n - 1) | (bit_word(
            spec_and_share_bit(authenticated_bits, macs, and_hashes, n - 1),
        ) << ((n - 1) as u128))
    }
}

/// Derives the local AND shares from the hash rows received from the other
/// party: per column, the selected row is compared against the hash of the
/// column MAC, and the resulting word is masked by the caller's own random
/// bits.
pub fn derive_and_shares(
    random_bits: u128,
    authenticated_bits: u128,
    macs: &Vec<MacType>,
    and_hashes: &AndHashes,
) -> (r: MacType)
    requires
        macs@.len() >= K,
        and_hashes@.len() >= K,
    ensures
        r.0 == spec_derived_word(authenticated_bits, macs@, and_hashes@, K as int) ^ random_bits,
{
    let mut result: u128 = 0;
    for i in 0..K
        invariant
            macs@.len() >= K,
            and_hashes@.len() >= K,
            result == spec_derived_word(authenticated_bits, macs@, and_hashes@, i as int),
    {
        let selected = if authenticated_bits & (1u128 << (i as u128)) != 0 {
            and_hashes[i][1]
        } else {
            and_hashes[i][0]
        };
        assert((authenticated_bits & (1u128 << (i as u128)) != 0) == bit128(
            authenticated_bits,
            i as int,
        )) by {
            let v = authenticated_bits;
            let k = i as u128;
            assert((v & (1u128 << k) != 0) == ((v >> k) & 1 == 1)) by (bit_vector);
        }
        let is_set = (selected.0 ^ hash(macs[i]).0) != 0;
        let add: u128 = if is_set {
            1
        } else {
            0
        };
        result = result | (add << (i as u128));
    }
    MacType(result ^ random_bits)
}


/// The IT-MAC relation between the receiver's select bits `x`, the sender's
/// keys and delta, and the receiver's MACs.
pub open spec fn consistent_macs(
    delta: Delta,
    x: u128,
    keys: Seq<KeyType>,
    macs: Seq<MacType>,
) -> bool {
    forall|i: int|
        0 <= i < K ==> #[trigger] macs[i].0 == (if bit128(x, i) {
            delta.0 ^ keys[i].0
        } else {
            keys[i].0
        })
}

proof fn lemma_derived_word_bits(
    authenticated_bits: u128,
    macs: Seq<MacType>,
    and_hashes: Seq<[MacType; 2]>,
    w: u128,
    n: int,
)
    requires
        0 <= n <= 128,
        forall|i: int|
            0 <= i < n ==> #[trigger] spec_and_share_bit(authenticated_bits, macs, and_hashes, i)
                == bit128(w, i),
    ensures
        spec_derived_word(authenticated_bits, macs, and_hashes, n) == spec_low_bits(w, n),
    decreases n,
{
    if n > 0 {
        lemma_derived_word_bits(authenticated_bits, macs, and_hashes, w, n - 1);
    }
}

/// Leaky-AND correctness: when the MACs satisfy the IT-MAC relation for the
/// receiver's bits `x` against the sender's delta and keys, and the hash rows
/// are the ones the sender computes from the shared random word `r` and its
/// value `y`, the word derived from the rows, masked by `r`, is exactly the
/// bitwise AND of `x` and `y`.
pub proof fn lemma_leaky_and_correctness(
    delta: Delta,
    r: u128,
    x: u128,
    y: u128,
    keys: Seq<KeyType>,
    macs: Seq<MacType>,
    and_hashes: Seq<[MacType; 2]>,
)
    requires
        keys.len() >= K,
        macs.len() >= K,
        and_hashes.len() >= K,
        consistent_macs(delta, x, keys, macs),
        forall|i: int| 0 <= i < K ==> #[trigger] and_hashes[i]@[0].0 == spec_row0(r, keys, i),
        forall|i: int|
            0 <= i < K ==> #[trigger] and_hashes[i]@[1].0 == spec_row1(delta, r, y, keys, i),
    ensures
        spec_derived_word(x, macs, and_hashes, K as int) ^ r == (x & y),
{
    let w = (x & y) ^ r;
    assert forall|i: int| 0 <= i < K implies #[trigger] spec_and_share_bit(x, macs, and_hashes, i)
        == bit128(w, i) by {
        let h0 = spec_hash_u128(keys[i].0);
        let h1 = spec_hash_u128(delta.0 ^ keys[i].0);
        let br = bit_word(bit128(r, i));
        let by_ = bit_word(bit128(y, i));
        let k = i as u128;
        assert(0u128 ^ 0u128 == 0 && 1u128 ^ 0u128 == 1 && 0u128 ^ 1u128 == 1 && 1u128 ^ 1u128
            == 0) by (bit_vector);
        assert(((((x & y) ^ r) >> k) & 1 == 1) == ((((x >> k) & 1 == 1) && ((y >> k) & 1 == 1))
            != ((r >> k) & 1 == 1))) by (bit_vector);
        if bit128(x, i) {
            assert(macs[i].0 == delta.0 ^ keys[i].0);
            assert(((h1 ^ br) ^ by_) ^ h1 == br ^ by_) by (bit_vector);
        } else {
            assert(macs[i].0 == keys[i].0);
            assert((h0 ^ br) ^ h0 == br) by (bit_vector);
        }
    }
    lemma_derived_word_bits(x, macs, and_hashes, w, 128);
    lemma_low_bits_full(w, 128);
    assert(((x & y) ^ r) ^ r == (x & y)) by (bit_vector);
}

} // verus!
