use mpc_core::leakydelta_ot::{
    matrix_transpose, Init, InitReply, LeakyOtReceiver, LeakyOtSender, OtInit, OtInitReply,
    OtMessage, SerializedOtInit,
};
use mpc_core::{Delta, Error, KeyType, K};
use rand_chacha::ChaCha20Rng;
use rand_core::{RngCore, SeedableRng};

fn random_ot_init(rng: &mut ChaCha20Rng) -> OtInit {
    let mut inits = Vec::with_capacity(K);
    for _ in 0..K {
        let mut block = [0u8; 32];
        rng.fill_bytes(&mut block);
        inits.push(Init(block));
    }
    OtInit(inits)
}

#[test]
fn test_serialization() {
    let mut rng = ChaCha20Rng::from_seed([42; 32]);

    let r_msg = random_ot_init(&mut rng);
    let s_msg = random_ot_init(&mut rng);

    let mut replies = Vec::with_capacity(K);
    for _ in 0..K {
        let mut c0 = [0u8; 32];
        let mut c1 = [0u8; 32];
        rng.fill_bytes(&mut c0);
        rng.fill_bytes(&mut c1);
        replies.push(InitReply { c0, c1 });
    }
    let reply = OtInitReply(replies);

    assert_eq!(r_msg, r_msg.serialize().deserialize().unwrap());
    assert_eq!(s_msg, s_msg.serialize().deserialize().unwrap());
    assert_eq!(
        reply,
        OtInitReply::deserialize(reply.serialize()).unwrap()
    );
}

#[test]
fn test_deserialize_wrong_length() {
    let short = SerializedOtInit(vec![0u8; 100]);
    assert_eq!(
        short.deserialize().unwrap_err(),
        Error::OtInitDeserializationError
    );
    let bad_reply = OtInitReply::deserialize(vec![0u8; 32 * 2 * K - 1]);
    assert_eq!(bad_reply.unwrap_err(), Error::OtInitDeserializationError);
}

#[test]
fn test_transpose_identity_matrix() {
    let mut rows = Vec::with_capacity(K);
    for i in 0..K {
        rows.push(KeyType(1u128 << i));
    }
    let cols = matrix_transpose(&rows);
    assert_eq!(cols.len(), K);
    for (j, col) in cols.iter().enumerate() {
        assert_eq!(col.0, 1u128 << j);
    }
}

#[test]
fn test_transpose_involution() {
    let mut rng = ChaCha20Rng::from_seed([7; 32]);
    let mut rows = Vec::with_capacity(K);
    for _ in 0..K {
        rows.push(KeyType(
            rng.next_u64() as u128 | ((rng.next_u64() as u128) << 64),
        ));
    }
    let once = matrix_transpose(&rows);
    let as_rows: Vec<KeyType> = once.iter().map(|m| KeyType(m.0)).collect();
    let twice = matrix_transpose(&as_rows);
    for i in 0..K {
        assert_eq!(twice[i].0, rows[i].0);
    }
}

#[test]
fn test_extension_it_mac_relation() {
    let mut rng = ChaCha20Rng::from_entropy();
    let delta = Delta(rng.next_u64() as u128 | ((rng.next_u64() as u128) << 64));
    let x = rng.next_u64() as u128 | ((rng.next_u64() as u128) << 64);

    // The receiver creates one 32-byte seed pair per column; the base
    // transfers would hand the sender the seed selected by its delta bit.
    let mut seeds0: Vec<OtMessage> = Vec::with_capacity(K);
    let mut seeds1: Vec<OtMessage> = Vec::with_capacity(K);
    let mut chosen: Vec<OtMessage> = Vec::with_capacity(K);
    for i in 0..K {
        let mut s0 = [0u8; 32];
        let mut s1 = [0u8; 32];
        rng.fill_bytes(&mut s0);
        rng.fill_bytes(&mut s1);
        seeds0.push(s0);
        seeds1.push(s1);
        chosen.push(if delta.0 & (1 << i) != 0 { s1 } else { s0 });
    }

    let mut receiver = LeakyOtReceiver::from_seed_pairs(&seeds0, &seeds1);
    let mut sender = LeakyOtSender::from_seeds(delta, &chosen);

    let (macs, correction) = receiver.new_batch(x);
    let keys = sender.send(&correction);

    for j in 0..K {
        let expected = if x & (1 << j) != 0 { delta.0 } else { 0 };
        assert_eq!(macs[j].0 ^ keys[j].0, expected);
    }
}

#[test]
fn test_delta_choice_bits() {
    let delta = Delta(0b1011);
    let bits = mpc_core::leakydelta_ot::delta_choice_bits(&delta);
    assert_eq!(bits.len(), K);
    assert!(bits[0] && bits[1] && !bits[2] && bits[3]);
    for bit in bits.iter().skip(4) {
        assert!(!bit);
    }
}

#[test]
fn test_generate_seed_pairs_are_distinct() {
    let (seeds0, seeds1) = mpc_core::leakydelta_ot::generate_seed_pairs([9; 32]);
    assert_eq!(seeds0.len(), K);
    assert_eq!(seeds1.len(), K);
    assert_ne!(seeds0[0], seeds1[0]);
    assert_ne!(seeds0[0], seeds0[1]);

    // The pairs are drawn from the stream under the given seed: a fresh
    // ChaCha20 generator under the same seed yields the same first words.
    let mut rng = ChaCha20Rng::from_seed([9; 32]);
    let mut expected = [0u8; 32];
    for chunk in expected.chunks_mut(8) {
        chunk.copy_from_slice(&rng.next_u64().to_le_bytes());
    }
    assert_eq!(seeds0[0], expected);

    let (again0, again1) = mpc_core::leakydelta_ot::generate_seed_pairs([9; 32]);
    assert_eq!(seeds0, again0);
    assert_eq!(seeds1, again1);
}
