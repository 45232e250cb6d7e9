//! Commitment-based coin tossing: two parties agree on a shared 32-byte
//! random string that neither could bias.
//!
//! Protocol steps:
//! 1. each party commits with [`init`], sending the hash of its coin share;
//! 2. each party discloses its share with [`serialize`];
//! 3. each party checks the peer's opening against the commitment with
//!    [`finish`] and computes the joint coin.
use vstd::prelude::*;

use crate::hash::{blake3_xof, blake3_xof_bytes};
use crate::types::{block_of_bytes, bytes_of_block, Error};

verus! {

/// Number of bytes of a coin share and of the joint coin.
pub const COIN_LEN: usize = 32;

/// Number of bytes of a commitment: the full output of the hash.
pub const HASH_LEN: usize = 32;

/// A party's local coin share, kept secret until the disclosure step.
#[derive(Clone, Debug)]
pub struct CoinShare([u8; COIN_LEN]);

impl View for CoinShare {
    type V = Seq<u8>;

    closed spec fn view(&self) -> Seq<u8> {
        self.0@
    }
}

/// Result of the coin tossing protocol.
pub type CoinResult = [u8; COIN_LEN];

/// The commitment to a coin share: the full 32-byte hash output.
pub open spec fn spec_coin_hash(coin: Seq<u8>) -> Seq<u8> {
    blake3_xof(coin, HASH_LEN as nat)
}

/// The joint coin: the bytewise XOR of the two shares.
pub open spec fn spec_xor(lhs: Seq<u8>, rhs: Seq<u8>) -> Seq<u8> {
    Seq::new(COIN_LEN as nat, |i: int| lhs[i] ^ rhs[i])
}

/// Relies on bincode's `serialize` in its default fixed-width configuration:
/// a `[u8; 32]` is encoded as exactly its 32 bytes in order, and writing to a
/// byte vector does not fail.
#[verifier::external_body]
fn bincode_serialize_block(data: &[u8; 32]) -> (r: Result<Vec<u8>, Error>)
    ensures
        r is Ok,
        r matches Ok(v) ==> v@ == data@,
{
    bincode::serialize(data).map_err(|_| Error::SerializationError)
}

/// Relies on bincode's `deserialize` in its default configuration: a
/// `[u8; 32]` is decoded from the first 32 input bytes, trailing bytes are
/// allowed, and decoding fails exactly when fewer than 32 bytes are present.
#[verifier::external_body]
fn bincode_deserialize_block(bytes: &Vec<u8>) -> (r: Result<[u8; 32], Error>)
    ensures
        r is Ok <==> bytes@.len() >= 32,
        r matches Ok(a) ==> a@ == bytes@.subrange(0, 32),
        r matches Err(e) ==> e == Error::SerializationError,
{
    bincode::deserialize(bytes.as_slice()).map_err(|_| Error::SerializationError)
}

/// The commitment hash of a coin share.
pub fn hash_coinshare(s: &[u8; COIN_LEN]) -> (r: [u8; HASH_LEN])
    ensures
        r@ == spec_coin_hash(s@),
{
    let input = bytes_of_block(s);
    let digest = blake3_xof_bytes(&input, HASH_LEN);
    block_of_bytes(&digest)
}

/// Creates a new coin share and the commitment message for the other party.
pub fn init(coin: [u8; COIN_LEN]) -> (r: Result<(CoinShare, Vec<u8>), Error>)
    ensures
        r is Ok,
        r matches Ok(p) ==> p.0@ == coin@ && p.1@ == spec_coin_hash(coin@),
{
    let hash = hash_coinshare(&coin);
    let msg = match bincode_serialize_block(&hash) {
        Ok(msg) => msg,
        Err(e) => {
            return Err(e);
        },
    };
    Ok((CoinShare(coin), msg))
}

/// Serializes a coin share for disclosure at the second protocol step.
pub fn serialize(cs: &CoinShare) -> (r: Result<Vec<u8>, Error>)
    ensures
        r is Ok,
        r matches Ok(v) ==> v@ == cs@,
{
    bincode_serialize_block(&cs.0)
}

/// Bytewise XOR of two coin shares.
pub fn xor(lhs: [u8; COIN_LEN], rhs: [u8; COIN_LEN]) -> (r: CoinResult)
    ensures
        r@ == spec_xor(lhs@, rhs@),
{
    let mut result: [u8; 32] = [0u8; 32];
    for i in 0..32
        invariant
            forall|j: int| 0 <= j < i ==> result@[j] == (lhs@[j] ^ rhs@[j]),
    {
        result[i] = lhs[i] ^ rhs[i];
    }
    assert(result@ =~= spec_xor(lhs@, rhs@));
    result
}

/// Verifies the peer's opening against its commitment and returns the joint
/// coin.
///
/// An opening whose hash does not match the committed value is rejected with
/// a MAC error; a commitment or opening message too short to decode is a
/// serialization error.
pub fn finish(coin_share: CoinShare, upstream_hash_msg: Vec<u8>, upstream_coin: Vec<u8>) -> (r:
    Result<CoinResult, Error>)
    ensures
        (upstream_hash_msg@.len() < 32 || upstream_coin@.len() < 32) ==> r == Err::<
            CoinResult,
            Error,
        >(Error::SerializationError),
        (upstream_hash_msg@.len() >= 32 && upstream_coin@.len() >= 32 && spec_coin_hash(
            upstream_coin@.subrange(0, 32),
        ) != upstream_hash_msg@.subrange(0, 32)) ==> r == Err::<CoinResult, Error>(Error::MacError),
        (upstream_hash_msg@.len() >= 32 && upstream_coin@.len() >= 32 && spec_coin_hash(
            upstream_coin@.subrange(0, 32),
        ) == upstream_hash_msg@.subrange(0, 32)) ==> (r matches Ok(res) && res@ == spec_xor(
            coin_share@,
            upstream_coin@.subrange(0, 32),
        )),
{
    let upstream_hash = match bincode_deserialize_block(&upstream_hash_msg) {
        Ok(h) => h,
        Err(e) => {
            return Err(e);
        },
    };
    let upstream_coin = match bincode_deserialize_block(&upstream_coin) {
        Ok(c) => c,
        Err(e) => {
            return Err(e);
        },
    };

    let recomputed = hash_coinshare(&upstream_coin);
    let mut matches = true;
    for i in 0..32
        invariant
            matches <==> (forall|j: int| 0 <= j < i ==> recomputed@[j] == upstream_hash@[j]),
    {
        if recomputed[i] != upstream_hash[i] {
            matches = false;
        }
    }
    if !matches {
        assert(recomputed@ != upstream_hash@);
        return Err(Error::MacError);
    }
    assert(recomputed@ =~= upstream_hash@);

    Ok(xor(coin_share.0, upstream_coin))
}

/// Coin-toss agreement: the joint coin does not depend on which side computes
/// it, so two honest parties that open `coin1` and `coin2` to each other both
/// finish with the same 32-byte result.
pub proof fn lemma_coin_toss_agreement(coin1: Seq<u8>, coin2: Seq<u8>)
    requires
        coin1.len() == 32,
        coin2.len() == 32,
    ensures
        spec_xor(coin1, coin2) == spec_xor(coin2, coin1),
{
    assert forall|i: int| 0 <= i < 32 implies spec_xor(coin1, coin2)[i] == spec_xor(
        coin2,
        coin1,
    )[i] by {
        let a = coin1[i];
        let b = coin2[i];
        assert(a ^ b == b ^ a) by (bit_vector);
    }
    assert(spec_xor(coin1, coin2) =~= spec_xor(coin2, coin1));
}

} // verus!
