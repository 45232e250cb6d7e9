use mpc_core::garbling_hash;
use mpc_core::garbling_hash::{evaluate_row, garble_row};
use mpc_core::hash::{hash, hash_keys};
use mpc_core::{BitShare, KeyType, MacType, WireLabel};

#[test]
fn test_new() {
    let h0 = garbling_hash::new(&WireLabel(0), &WireLabel(1), 0, 0).unwrap();
    let h1 = garbling_hash::new(&WireLabel(0), &WireLabel(1), 0, 1).unwrap();
    assert_ne!(h0, h1);
}

#[test]
fn test_hash_keys() {
    let h0 = hash_keys(KeyType(0), KeyType(1));
    let h1 = hash_keys(KeyType(0), KeyType(1));
    assert_eq!(h0, h1);
    let h2 = hash_keys(KeyType(1), KeyType(0));
    assert_ne!(h0, h2);
}

#[test]
fn test_hash_values() {
    let r0 = 164479851121213158701332959497568687214_u128;
    let r1 = 32869993993155099816536977414117934351_u128;

    assert_eq!(252301825721988224801639279640745335827, hash(MacType(r0)).0);
    assert_eq!(19881579897213927600698344798095172587, hash(MacType(r1)).0);
    assert_eq!(
        265242760764573362325515364989468422452,
        hash_keys(KeyType(r0), KeyType(r1)).0
    );
}

#[test]
fn test_random_hash() {
    let r: u128 = rand::random();
    let ref_0 = blake3::hash(&r.to_le_bytes());
    assert_eq!(&ref_0.as_bytes()[..16], hash(MacType(r)).0.to_ne_bytes());
}

#[test]
fn test_gate_hash_depends_on_every_argument() {
    let base = garbling_hash::new(&WireLabel(7), &WireLabel(9), 3, 2).unwrap();
    let other_x = garbling_hash::new(&WireLabel(8), &WireLabel(9), 3, 2).unwrap();
    let other_y = garbling_hash::new(&WireLabel(7), &WireLabel(10), 3, 2).unwrap();
    let other_gate = garbling_hash::new(&WireLabel(7), &WireLabel(9), 4, 2).unwrap();
    let again = garbling_hash::new(&WireLabel(7), &WireLabel(9), 3, 2).unwrap();
    assert_ne!(base, other_x);
    assert_ne!(base, other_y);
    assert_ne!(base, other_gate);
    assert_eq!(base, again);
}

#[test]
fn test_garble_evaluate_round_trip() {
    let share = BitShare {
        mac: MacType(0x1234_5678_9abc_def0_1234_5678_9abc_def0),
        key: KeyType(0x0fed_cba9_8765_4321_0fed_cba9_8765_4321),
        bit: true,
    };
    let lx = WireLabel(11);
    let ly = WireLabel(22);
    let entry = garble_row(&lx, &ly, 5, 3, &share).unwrap();
    assert_ne!(entry, share);
    let recovered = evaluate_row(&lx, &ly, 5, 3, &entry).unwrap();
    assert_eq!(recovered, share);
}
