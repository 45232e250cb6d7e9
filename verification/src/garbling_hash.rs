//! Hashing for building garbled tables: one hash call per garbled row,
//! domain-separated by the two input-wire labels, a gate index and the row.
use vstd::prelude::*;

use vstd::bytes::{
    spec_u128_from_le_bytes, spec_u128_to_le_bytes, spec_u32_to_le_bytes, u128_from_le_bytes,
    u128_to_le_bytes, u32_to_le_bytes,
};
use vstd::slice::slice_subrange;

use crate::hash::blake3_xof;
use crate::hash::blake3_xof_bytes;
use crate::types::{BitShare, Error, GateIndex, KeyType, MacType, WireLabel};

verus! {

/// The bytes hashed for one garbled row: both labels, a gate index and the
/// row, all serialized little-endian.
pub open spec fn spec_row_input(label_x: u128, label_y: u128, gate: GateIndex, row: u8) -> Seq<
    u8,
> {
    spec_u128_to_le_bytes(label_x) + spec_u128_to_le_bytes(label_y) + spec_u32_to_le_bytes(gate)
        + seq![row]
}

/// The 33 bytes of extendable hash output consumed for one garbled row:
/// 16 bytes of MAC, 16 bytes of key, one bit byte, in that order.
pub open spec fn spec_row_bytes(label_x: u128, label_y: u128, gate: GateIndex, row: u8) -> Seq<
    u8,
> {
    blake3_xof(spec_row_input(label_x, label_y, gate, row), 33)
}

/// The MAC half of a garbled row's hash output.
pub open spec fn spec_row_mac(label_x: u128, label_y: u128, gate: GateIndex, row: u8) -> u128 {
    spec_u128_from_le_bytes(spec_row_bytes(label_x, label_y, gate, row).subrange(0, 16))
}

/// The key half of a garbled row's hash output.
pub open spec fn spec_row_key(label_x: u128, label_y: u128, gate: GateIndex, row: u8) -> u128 {
    spec_u128_from_le_bytes(spec_row_bytes(label_x, label_y, gate, row).subrange(16, 32))
}

/// The point-and-permute bit of a garbled row's hash output.
pub open spec fn spec_row_bit(label_x: u128, label_y: u128, gate: GateIndex, row: u8) -> bool {
    spec_row_bytes(label_x, label_y, gate, row)[32] & 1 == 1
}

/// Computes a garbled table share for one row of one gate.
///
/// A zero block in either the MAC half or the key half of the hash output is
/// a catastrophic collision signal; such an output is rejected as a protocol
/// invariant violation rather than used.
pub fn new(label_x: &WireLabel, label_y: &WireLabel, gate: GateIndex, row: u8) -> (r: Result<
    BitShare,
    Error,
>)
    ensures
        r is Ok <==> (spec_row_mac(label_x.0, label_y.0, gate, row) != 0 && spec_row_key(
            label_x.0,
            label_y.0,
            gate,
            row,
        ) != 0),
        r matches Ok(share) ==> share == (BitShare {
            mac: MacType(spec_row_mac(label_x.0, label_y.0, gate, row)),
            key: KeyType(spec_row_key(label_x.0, label_y.0, gate, row)),
            bit: spec_row_bit(label_x.0, label_y.0, gate, row),
        }),
        r matches Err(e) ==> e == Error::ProtocolInvariantViolation,
{
    let mut input = u128_to_le_bytes(label_x.0);
    let mut label_y_bytes = u128_to_le_bytes(label_y.0);
    let mut gate_bytes = u32_to_le_bytes(gate);
    input.append(&mut label_y_bytes);
    input.append(&mut gate_bytes);
    input.push(row);
    assert(input@ == spec_row_input(label_x.0, label_y.0, gate, row));

    let out = blake3_xof_bytes(&input, 33);
    let mac = u128_from_le_bytes(slice_subrange(out.as_slice(), 0, 16));
    let key = u128_from_le_bytes(slice_subrange(out.as_slice(), 16, 32));
    let bit_byte = out[32];

    if mac == 0 || key == 0 {
        return Err(Error::ProtocolInvariantViolation);
    }

    Ok(BitShare { mac: MacType(mac), key: KeyType(key), bit: (bit_byte & 1) == 1 })
}


impl BitShare {
    /// Componentwise XOR of two shares: MAC with MAC, key with key, bit with
    /// bit.
    pub fn xor(&self, other: &BitShare) -> (r: BitShare)
        ensures
            r.mac.0 == self.mac.0 ^ other.mac.0,
            r.key.0 == self.key.0 ^ other.key.0,
            r.bit == (self.bit != other.bit),
    {
        BitShare {
            mac: MacType(self.mac.0 ^ other.mac.0),
            key: KeyType(self.key.0 ^ other.key.0),
            bit: self.bit != other.bit,
        }
    }
}

/// The share standing in a published garbled row: the row hash masked with
/// the garbler's output-wire share.
pub open spec fn spec_garbled_row(
    label_x: u128,
    label_y: u128,
    gate: GateIndex,
    row: u8,
    share: BitShare,
) -> BitShare {
    BitShare {
        mac: MacType(spec_row_mac(label_x, label_y, gate, row) ^ share.mac.0),
        key: KeyType(spec_row_key(label_x, label_y, gate, row) ^ share.key.0),
        bit: spec_row_bit(label_x, label_y, gate, row) != share.bit,
    }
}

/// Masks the garbler's output-wire share for one row of one AND gate's
/// table: the published entry is the row hash XORed with the share, so only
/// the party holding the matching input labels can remove the mask.
pub fn garble_row(
    label_x: &WireLabel,
    label_y: &WireLabel,
    gate: GateIndex,
    row: u8,
    share: &BitShare,
) -> (r: Result<BitShare, Error>)
    ensures
        r is Ok <==> (spec_row_mac(label_x.0, label_y.0, gate, row) != 0 && spec_row_key(
            label_x.0,
            label_y.0,
            gate,
            row,
        ) != 0),
        r matches Ok(e) ==> e == spec_garbled_row(label_x.0, label_y.0, gate, row, *share),
        r matches Err(e) ==> e == Error::ProtocolInvariantViolation,
{
    let mask = match new(label_x, label_y, gate, row) {
        Ok(mask) => mask,
        Err(e) => {
            return Err(e);
        },
    };
    Ok(mask.xor(share))
}

/// Removes the mask from one published table entry: the evaluator recomputes
/// the row hash from the two input labels it holds and XORs it away.
pub fn evaluate_row(
    label_x: &WireLabel,
    label_y: &WireLabel,
    gate: GateIndex,
    row: u8,
    entry: &BitShare,
) -> (r: Result<BitShare, Error>)
    ensures
        r is Ok <==> (spec_row_mac(label_x.0, label_y.0, gate, row) != 0 && spec_row_key(
            label_x.0,
            label_y.0,
            gate,
            row,
        ) != 0),
        r matches Ok(s) ==> s == spec_garbled_row(label_x.0, label_y.0, gate, row, *entry),
        r matches Err(e) ==> e == Error::ProtocolInvariantViolation,
{
    garble_row(label_x, label_y, gate, row, entry)
}

/// Garbling round trip: evaluating a garbled row with the labels it was
/// built from returns the garbler's output-wire share unchanged, because the
/// row hash masks and unmasks the same way.
pub proof fn lemma_garble_evaluate_round_trip(
    label_x: u128,
    label_y: u128,
    gate: GateIndex,
    row: u8,
    share: BitShare,
)
    ensures
        spec_garbled_row(
            label_x,
            label_y,
            gate,
            row,
            spec_garbled_row(label_x, label_y, gate, row, share),
        ) == share,
{
    let m = spec_row_mac(label_x, label_y, gate, row);
    let k = spec_row_key(label_x, label_y, gate, row);
    let a = share.mac.0;
    let b = share.key.0;
    assert(m ^ (m ^ a) == a) by (bit_vector);
    assert(k ^ (k ^ b) == b) by (bit_vector);
}

} // verus!
