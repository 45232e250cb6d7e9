use vstd::prelude::*;

verus! {

/// Security parameter: the block size in bits and the number of columns in
/// every batch of the oblivious-transfer extension.
pub const K: usize = 128;

/// Index of a gate inside a circuit's gate list.
pub type GateIndex = u32;

/// A party-local 128-bit secret defining the key-MAC relationship for all
/// authenticated bits held against that party. It never travels on the wire.
#[derive(Debug, Clone, Copy, PartialEq, Eq, Structural)]
pub struct Delta(pub u128);

/// A 128-bit wire key, held by the party that did not contribute the bit.
#[derive(Debug, Clone, Copy, PartialEq, Eq, Structural)]
pub struct KeyType(pub u128);

/// A 128-bit MAC satisfying the IT-MAC relation `mac == key ^ (bit * delta)`
/// with the remote party's delta.
#[derive(Debug, Clone, Copy, PartialEq, Eq, Structural)]
pub struct MacType(pub u128);

/// A 128-bit identifier tagging a circuit wire during garbling.
#[derive(Debug, Clone, Copy, PartialEq, Eq, Structural)]
pub struct WireLabel(pub u128);

/// A party's share of an authenticated bit: the bit, its MAC and the key for
/// the other party's corresponding share.
#[derive(Debug, Clone, Copy, PartialEq, Eq, Structural)]
pub struct BitShare {
    pub mac: MacType,
    pub key: KeyType,
    pub bit: bool,
}

/// The error taxonomy of the protocol core. No error is recoverable: each one
/// aborts the session that raised it.
#[derive(Debug, Clone, Copy, PartialEq, Eq, Structural)]
pub enum Error {
    /// A protocol invariant was violated: a hash yielded a forbidden zero
    /// block, an index is out of range, or a gate references a later gate.
    ProtocolInvariantViolation,
    /// A commitment or authenticated-bit check failed.
    MacError,
    /// An incoming oblivious-transfer message has the wrong byte length.
    OtInitDeserializationError,
    /// A caller supplied an input bit vector of the wrong length.
    InputShapeError,
    /// The underlying serializer failed.
    SerializationError,
}

/// True iff bit `i` of `v` is set.
pub open spec fn bit128(v: u128, i: int) -> bool {
    (v >> (i as u128)) & 1 == 1
}

/// The 128-bit word holding a single bit in its lowest position.
pub open spec fn bit_word(b: bool) -> u128 {
    if b {
        1u128
    } else {
        0u128
    }
}

impl Delta {
    /// XOR of the local delta into a MAC, as used by the IT-MAC relation.
    pub fn xor(&self, mac: MacType) -> (r: MacType)
        ensures
            r.0 == self.0 ^ mac.0,
    {
        MacType(self.0 ^ mac.0)
    }
}



pub(crate) fn bytes_of_block(a: &[u8; 32]) -> (v: Vec<u8>)
    ensures
        v@ == a@,
{
    let mut v: Vec<u8> = Vec::new();
    for i in 0..32
        invariant
            v@.len() == i,
            forall|j: int| 0 <= j < i ==> v@[j] == a@[j],
    {
        v.push(a[i]);
    }
    assert(v@ =~= a@);
    v
}

pub(crate) fn block_of_bytes(v: &Vec<u8>) -> (a: [u8; 32])
    requires
        v@.len() == 32,
    ensures
        a@ == v@,
{
    let mut a: [u8; 32] = [0u8; 32];
    for i in 0..32
        invariant
            v@.len() == 32,
            forall|j: int| 0 <= j < i ==> a@[j] == v@[j],
    {
        a[i] = v[i];
    }
    assert(a@ =~= v@);
    a
}

/// The word whose low `n` bits are those of `w` and whose high bits are zero.
pub open spec fn spec_low_bits(w: u128, n: int) -> u128
    decreases n,
{
    if n <= 0 {
        0
    } else {
        spec_low_bits(w, n - 1) | (bit_word(bit128(w, n - 1)) << ((n - 1) as u128))
    }
}

pub proof fn lemma_low_bits_full(w: u128, n: int)
    requires
        0 <= n <= 128,
    ensures
        n == 128 ==> spec_low_bits(w, n) == w,
        n < 128 ==> spec_low_bits(w, n) == (w & !(u128::MAX << (n as u128))),
    decreases n,
{
    if n == 0 {
        assert(w & !(u128::MAX << 0) == 0) by (bit_vector);
    } else {
        lemma_low_bits_full(w, n - 1);
        let j = (n - 1) as u128;
        let b = bit_word(bit128(w, n - 1));
        assert((w >> j) & 1 == 0 || (w >> j) & 1 == 1) by (bit_vector);
        assert(b == (w >> j) & 1);
        if n < 128 {
            assert((w & !(u128::MAX << j)) | (((w >> j) & 1) << j) == (w & !(u128::MAX << (j
                + 1)))) by (bit_vector)
                requires
                    j < 127,
            ;
            assert((n as u128) == j + 1);
        } else {
            assert((w & !(u128::MAX << 127)) | (((w >> 127) & 1) << 127) == w) by (bit_vector);
        }
    }
}

proof fn lemma_low_bits_agree(a: u128, b: u128, n: int)
    requires
        0 <= n <= 128,
        forall|i: int| 0 <= i < n ==> bit128(a, i) == bit128(b, i),
    ensures
        spec_low_bits(a, n) == spec_low_bits(b, n),
    decreases n,
{
    if n > 0 {
        lemma_low_bits_agree(a, b, n - 1);
    }
}

/// Two 128-bit words with the same bits are the same word.
pub proof fn lemma_u128_bit_ext(a: u128, b: u128)
    requires
        forall|i: int| 0 <= i < 128 ==> bit128(a, i) == bit128(b, i),
    ensures
        a == b,
{
    lemma_low_bits_agree(a, b, 128);
    lemma_low_bits_full(a, 128);
    lemma_low_bits_full(b, 128);
}

} // verus!
