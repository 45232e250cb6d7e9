use mpc_core::{Circuit, Error, Gate};

#[test]
fn test_and_gate_true_true() {
    let c = Circuit::new(
        vec![Gate::InContrib, Gate::InEval, Gate::And(0, 1)],
        vec![2],
    );
    let out = c.eval(&vec![true], &vec![true]).unwrap();
    assert_eq!(out, vec![true]);
}

#[test]
fn test_and_gate_true_false() {
    let c = Circuit::new(
        vec![Gate::InContrib, Gate::InEval, Gate::And(0, 1)],
        vec![2],
    );
    let out = c.eval(&vec![true], &vec![false]).unwrap();
    assert_eq!(out, vec![false]);
}

#[test]
fn test_xor_gate_true_false() {
    let c = Circuit::new(
        vec![Gate::InContrib, Gate::InEval, Gate::Xor(0, 1)],
        vec![2],
    );
    let out = c.eval(&vec![true], &vec![false]).unwrap();
    assert_eq!(out, vec![true]);
}

#[test]
fn test_not_gate_contributor_input() {
    let c = Circuit::new(vec![Gate::InContrib, Gate::Not(0)], vec![1]);
    let out = c.eval(&vec![true], &vec![]).unwrap();
    assert_eq!(out, vec![false]);
}

/// Ripple-carry adder over two 4-bit inputs; the carry chain uses
/// `g ^ t` in place of `g | t`, which agrees because both cannot be set.
fn four_bit_adder() -> Circuit {
    let gates = vec![
        Gate::InContrib, // 0: a0 (least significant)
        Gate::InContrib, // 1: a1
        Gate::InContrib, // 2: a2
        Gate::InContrib, // 3: a3
        Gate::InEval,    // 4: b0
        Gate::InEval,    // 5: b1
        Gate::InEval,    // 6: b2
        Gate::InEval,    // 7: b3
        Gate::Xor(0, 4), // 8: sum0
        Gate::And(0, 4), // 9: carry0
        Gate::Xor(1, 5),  // 10: p1
        Gate::Xor(10, 9), // 11: sum1
        Gate::And(1, 5),  // 12: g1
        Gate::And(10, 9), // 13: t1
        Gate::Xor(12, 13), // 14: carry1
        Gate::Xor(2, 6),   // 15: p2
        Gate::Xor(15, 14), // 16: sum2
        Gate::And(2, 6),   // 17: g2
        Gate::And(15, 14), // 18: t2
        Gate::Xor(17, 18), // 19: carry2
        Gate::Xor(3, 7),   // 20: p3
        Gate::Xor(20, 19), // 21: sum3
    ];
    Circuit::new(gates, vec![8, 11, 16, 21])
}

#[test]
fn test_four_bit_adder() {
    let c = four_bit_adder();
    // a = 0b0011, b = 0b0101, least significant bit first.
    let a = vec![true, true, false, false];
    let b = vec![true, false, true, false];
    let out = c.eval(&a, &b).unwrap();
    // a + b = 0b1000
    assert_eq!(out, vec![false, false, false, true]);
}

#[test]
fn test_eval_wrong_input_shape() {
    let c = Circuit::new(
        vec![Gate::InContrib, Gate::InEval, Gate::And(0, 1)],
        vec![2],
    );
    assert_eq!(
        c.eval(&vec![true, false], &vec![true]).unwrap_err(),
        Error::InputShapeError
    );
    assert_eq!(
        c.eval(&vec![true], &vec![]).unwrap_err(),
        Error::InputShapeError
    );
}

#[test]
fn test_validate_rejects_forward_reference() {
    let c = Circuit::new(vec![Gate::Not(0)], vec![0]);
    assert_eq!(
        c.validate().unwrap_err(),
        Error::ProtocolInvariantViolation
    );
    let c2 = Circuit::new(
        vec![Gate::InContrib, Gate::InEval, Gate::Xor(1, 2)],
        vec![2],
    );
    assert_eq!(
        c2.eval(&vec![true], &vec![true]).unwrap_err(),
        Error::ProtocolInvariantViolation
    );
}

#[test]
fn test_validate_rejects_output_out_of_range() {
    let c = Circuit::new(vec![Gate::InContrib], vec![1]);
    assert_eq!(
        c.validate().unwrap_err(),
        Error::ProtocolInvariantViolation
    );
}

#[test]
fn test_fingerprint_distinguishes_circuits() {
    let c1 = Circuit::new(
        vec![Gate::InContrib, Gate::InEval, Gate::And(0, 1)],
        vec![2],
    );
    let c2 = Circuit::new(
        vec![Gate::InContrib, Gate::InEval, Gate::Xor(0, 1)],
        vec![2],
    );
    let c3 = Circuit::new(
        vec![Gate::InContrib, Gate::InEval, Gate::And(0, 1)],
        vec![2],
    );
    assert_ne!(c1.blake3_hash(), c2.blake3_hash());
    assert_eq!(c1.blake3_hash(), c3.blake3_hash());

    let c4 = Circuit::new(
        vec![Gate::InContrib, Gate::InEval, Gate::And(0, 1)],
        vec![1],
    );
    assert_ne!(c1.blake3_hash(), c4.blake3_hash());
}

#[test]
fn test_build_two_party_circuit() {
    let c = mpc_core::circuit::build_two_party_circuit(1, 1, vec![Gate::And(0, 1)], vec![2])
        .unwrap();
    assert_eq!(
        c.gates,
        vec![Gate::InContrib, Gate::InEval, Gate::And(0, 1)]
    );
    let out = c.eval(&vec![true], &vec![true]).unwrap();
    assert_eq!(out, vec![true]);

    let bad = mpc_core::circuit::build_two_party_circuit(1, 1, vec![Gate::And(0, 3)], vec![2]);
    assert_eq!(bad.unwrap_err(), Error::ProtocolInvariantViolation);
}
