use mpc_core::leakyand::{compute_leaky_and_hashes, derive_and_shares};
use mpc_core::{Delta, KeyType, MacType, K};
use rand_chacha::ChaCha20Rng;
use rand_core::{RngCore, SeedableRng};

fn next_u128(rng: &mut ChaCha20Rng) -> u128 {
    rng.next_u64() as u128 | ((rng.next_u64() as u128) << 64)
}

#[test]
fn test_leaky_and() {
    let mut rng = ChaCha20Rng::from_entropy();
    let x = next_u128(&mut rng);
    let y = next_u128(&mut rng);
    let shared_random = next_u128(&mut rng);
    let delta = Delta(next_u128(&mut rng));

    let mut keys = Vec::with_capacity(K);
    for _ in 0..K {
        keys.push(KeyType(next_u128(&mut rng)));
    }

    // MACs consistent with the IT-MAC relation for the receiver's bits x.
    let mut macs = Vec::with_capacity(K);
    for (i, key) in keys.iter().enumerate() {
        macs.push(MacType(if x & (1 << i) != 0 {
            delta.0 ^ key.0
        } else {
            key.0
        }));
    }

    let hashes = compute_leaky_and_hashes(&delta, shared_random, y, &keys);
    let result = derive_and_shares(shared_random, x, &macs, &hashes);
    assert_eq!(result.0, x & y);
}

#[test]
fn test_leaky_and_all_ones() {
    let delta = Delta(0x5555_5555_5555_5555_5555_5555_5555_5555);
    let x = u128::MAX;
    let y = u128::MAX;
    let shared_random = 0;

    let mut keys = Vec::with_capacity(K);
    for i in 0..K {
        keys.push(KeyType(i as u128 + 1));
    }
    let mut macs = Vec::with_capacity(K);
    for key in keys.iter() {
        macs.push(MacType(delta.0 ^ key.0));
    }

    let hashes = compute_leaky_and_hashes(&delta, shared_random, y, &keys);
    let result = derive_and_shares(shared_random, x, &macs, &hashes);
    assert_eq!(result.0, u128::MAX);
}
