use zk_pipeline::circuit::{Circuit, Gate, GateKind};
use zk_pipeline::error::ZkError;
use zk_pipeline::eval::{evaluate, Binding};
use zk_pipeline::field::{add_mod, mul_mod, sub_mod, MODULUS};
use zk_pipeline::groth::{prove, verify, Proof};
use zk_pipeline::parse::parse_field_element;
use zk_pipeline::pipeline::run_pipeline;
use zk_pipeline::setup::{setup, Trapdoor};

const ROUND_C1: u64 = 7919;
const ROUND_C2: u64 = 104729;
const DELTA: u64 = 2;
const DELTA_INV: u64 = 9223372034707292161;

/// A hash-commitment circuit: signal 0 is the public `commitment` input,
/// signal 1 the private `preimage` input, and the gates compute a
/// Poseidon-style round `(preimage + c1)^5 + c2`, whose result signal 8 is
/// constrained equal to the commitment.
fn commitment_circuit() -> Circuit {
    let gates = vec![
        Gate { kind: GateKind::Const(ROUND_C1), out: 2 },
        Gate { kind: GateKind::Add(1, 2), out: 3 },
        Gate { kind: GateKind::Mul(3, 3), out: 4 },
        Gate { kind: GateKind::Mul(4, 4), out: 5 },
        Gate { kind: GateKind::Mul(5, 3), out: 6 },
        Gate { kind: GateKind::Const(ROUND_C2), out: 7 },
        Gate { kind: GateKind::Add(6, 7), out: 8 },
    ];
    Circuit::new(9, 1, vec![0, 1], gates, vec![(8, 0)]).unwrap()
}

fn demo_trapdoor() -> Trapdoor {
    Trapdoor {
        alpha: 3,
        beta: 5,
        gamma: 11,
        delta: DELTA,
        delta_inv: DELTA_INV,
        a_basis: vec![21, 22, 23, 24, 25, 26, 27, 28, 29],
        b_basis: vec![31, 32, 33, 34, 35, 36, 37, 38, 39],
        ic: vec![13],
        tau: vec![17, 19, 41, 43, 47, 53, 59, 61],
    }
}

fn bindings_for(commitment: u64, preimage: u64) -> Vec<Binding> {
    vec![
        Binding { signal: 0, value: commitment },
        Binding { signal: 1, value: preimage },
    ]
}

/// The commitment value that matches a preimage, read off the evaluated
/// witness itself.
fn correct_commitment(preimage: u64) -> u64 {
    let c = commitment_circuit();
    let w = evaluate(&c, &bindings_for(0, preimage)).unwrap();
    w[8]
}

#[test]
fn test_mopro_hello_world() {
    assert_eq!(zk_pipeline::mopro_hello_world(), "Hello, World!");
}

#[test]
fn lib_test_mopro_hello_world() {
    assert_eq!(zk_pipeline::mopro_hello_world(), "Hello, World!");
}

#[test]
fn test_wasm_hello_world() {
    assert_eq!(zk_pipeline::mopro_wasm_hello_world(), "Hello, World!");
}

#[test]
fn test_preimage_poseidon() {
    // Known preimage with a placeholder commitment that does not match it:
    // proof generation must still run; only verification may reject.
    let circuit_inputs = r#"{"preimage": "123456789", "commitment": "0"}"#.to_string();
    let fields: Vec<&str> = circuit_inputs.split('"').collect();
    let preimage = parse_field_element(fields[3]).unwrap();
    let commitment = parse_field_element(fields[7]).unwrap();
    assert_eq!(preimage, 123456789);
    assert_eq!(commitment, 0);

    let c = commitment_circuit();
    let (pk, _vk) = setup(&c, &demo_trapdoor()).unwrap();
    let w = evaluate(&c, &bindings_for(commitment, preimage)).unwrap();
    let result = prove(&pk, &w, 12345, 67890);
    println!("Proof generation result: {:?}", result.is_ok());
    assert!(result.is_ok());
}

#[test]
fn evaluate_is_deterministic() {
    let c = commitment_circuit();
    let b = bindings_for(77, 123456789);
    let w1 = evaluate(&c, &b).unwrap();
    let w2 = evaluate(&c, &b).unwrap();
    assert_eq!(w1, w2);
}

#[test]
fn evaluate_exact_values() {
    let c = commitment_circuit();
    let w = evaluate(&c, &bindings_for(5, 2)).unwrap();
    assert_eq!(w[0], 5);
    assert_eq!(w[1], 2);
    assert_eq!(w[2], ROUND_C1);
    assert_eq!(w[3], 2 + ROUND_C1);
    let t5 = ((2 + ROUND_C1) as u128).pow(5) % (MODULUS as u128);
    assert_eq!(w[6] as u128, t5);
    assert_eq!(w[8] as u128, t5 + ROUND_C2 as u128);
}

#[test]
fn missing_input_is_reported() {
    let c = commitment_circuit();
    let only_commitment = vec![Binding { signal: 0, value: 1 }];
    assert_eq!(evaluate(&c, &only_commitment), Err(ZkError::MissingInput));
    let empty: Vec<Binding> = Vec::new();
    assert_eq!(evaluate(&c, &empty), Err(ZkError::MissingInput));
}

#[test]
fn short_witness_is_reported() {
    let c = commitment_circuit();
    let (pk, _vk) = setup(&c, &demo_trapdoor()).unwrap();
    let short = vec![1u64, 2, 3];
    assert_eq!(prove(&pk, &short, 1, 2), Err(ZkError::WitnessSizeMismatch));
}

#[test]
fn round_trip_accepts() {
    let c = commitment_circuit();
    let (pk, vk) = setup(&c, &demo_trapdoor()).unwrap();
    let preimage = 123456789;
    let commitment = correct_commitment(preimage);
    let outcome = run_pipeline(&c, &pk, &vk, &bindings_for(commitment, preimage), 111, 222);
    assert_eq!(outcome, Ok(true));
}

#[test]
fn blinding_never_changes_the_outcome() {
    let c = commitment_circuit();
    let (pk, vk) = setup(&c, &demo_trapdoor()).unwrap();
    let commitment = correct_commitment(42);
    for (r, s) in [(0, 0), (1, MODULUS - 1), (987654321, 123456789)] {
        assert_eq!(run_pipeline(&c, &pk, &vk, &bindings_for(commitment, 42), r, s), Ok(true));
    }
}

#[test]
fn wrong_commitment_is_rejected() {
    // The scenario end to end: with the matching commitment the pipeline
    // accepts; with a wrong one a witness and a proof are still produced,
    // and verification returns false rather than an error.
    let c = commitment_circuit();
    let (pk, vk) = setup(&c, &demo_trapdoor()).unwrap();
    let preimage = parse_field_element("123456789").unwrap();
    let good = correct_commitment(preimage);
    assert_eq!(run_pipeline(&c, &pk, &vk, &bindings_for(good, preimage), 7, 8), Ok(true));
    let bad = parse_field_element("0").unwrap();
    assert_ne!(good, bad);
    assert_eq!(run_pipeline(&c, &pk, &vk, &bindings_for(bad, preimage), 7, 8), Ok(false));
}

#[test]
fn mutated_witness_is_rejected() {
    let c = commitment_circuit();
    let (pk, vk) = setup(&c, &demo_trapdoor()).unwrap();
    let preimage = 555;
    let commitment = correct_commitment(preimage);
    let mut w = evaluate(&c, &bindings_for(commitment, preimage)).unwrap();
    let pf_honest = prove(&pk, &w, 9, 10).unwrap();
    assert_eq!(verify(&vk, &vec![w[0]], &pf_honest), Ok(true));
    // Claim a different intermediate value for signal 4.
    w[4] = add_mod(w[4], 1);
    let pf = prove(&pk, &w, 9, 10).unwrap();
    assert_eq!(verify(&vk, &vec![w[0]], &pf), Ok(false));
}

#[test]
fn public_input_size_mismatch_is_reported() {
    let c = commitment_circuit();
    let (pk, vk) = setup(&c, &demo_trapdoor()).unwrap();
    let commitment = correct_commitment(1);
    let w = evaluate(&c, &bindings_for(commitment, 1)).unwrap();
    let pf = prove(&pk, &w, 4, 5).unwrap();
    let two_publics = vec![w[0], w[1]];
    assert_eq!(verify(&vk, &two_publics, &pf), Err(ZkError::PublicInputSizeMismatch));
    let none: Vec<u64> = Vec::new();
    assert_eq!(verify(&vk, &none, &pf), Err(ZkError::PublicInputSizeMismatch));
}

#[test]
fn malformed_circuit_is_reported() {
    // Gate reads signal 3, which nothing produces.
    let gates = vec![Gate { kind: GateKind::Add(0, 3), out: 1 }];
    let r = Circuit::new(2, 1, vec![0], gates, vec![]);
    assert_eq!(r.err(), Some(ZkError::MalformedCircuit));
    // A signal with two producers is refused as well.
    let gates = vec![
        Gate { kind: GateKind::Const(1), out: 1 },
        Gate { kind: GateKind::Const(2), out: 1 },
    ];
    let r = Circuit::new(2, 1, vec![0], gates, vec![]);
    assert_eq!(r.err(), Some(ZkError::MalformedCircuit));
}

#[test]
fn key_circuit_mismatch_is_reported() {
    let c = commitment_circuit();
    // Trapdoor with a wrong number of constraint weights.
    let mut t = demo_trapdoor();
    t.tau.pop();
    assert_eq!(setup(&c, &t).err(), Some(ZkError::KeyCircuitMismatch));
    // Keys built for a different circuit are refused by the pipeline.
    let other = Circuit::new(
        2,
        1,
        vec![0],
        vec![Gate { kind: GateKind::Const(9), out: 1 }],
        vec![],
    )
    .unwrap();
    let t2 = Trapdoor {
        alpha: 3,
        beta: 5,
        gamma: 11,
        delta: DELTA,
        delta_inv: DELTA_INV,
        a_basis: vec![1, 2],
        b_basis: vec![3, 4],
        ic: vec![5],
        tau: vec![6],
    };
    let (pk2, vk2) = setup(&other, &t2).unwrap();
    let outcome = run_pipeline(&c, &pk2, &vk2, &bindings_for(0, 1), 1, 2);
    assert_eq!(outcome, Err(ZkError::KeyCircuitMismatch));
}

#[test]
fn field_ops_exact_values() {
    assert_eq!(add_mod(MODULUS - 1, 1), 0);
    assert_eq!(add_mod(MODULUS - 1, MODULUS - 1), MODULUS - 2);
    assert_eq!(sub_mod(0, 1), MODULUS - 1);
    assert_eq!(sub_mod(7, 3), 4);
    // 2^64 mod (2^64 - 2^32 + 1) == 2^32 - 1.
    assert_eq!(mul_mod(1 << 32, 1 << 32), (1 << 32) - 1);
    assert_eq!(mul_mod(DELTA, DELTA_INV), 1);
}

#[test]
fn parse_decimal_values() {
    assert_eq!(parse_field_element("0"), Ok(0));
    assert_eq!(parse_field_element("123456789"), Ok(123456789));
    // The field prime itself reduces to zero.
    assert_eq!(parse_field_element("18446744069414584321"), Ok(0));
    assert_eq!(parse_field_element("18446744069414584322"), Ok(1));
    assert_eq!(parse_field_element(""), Err(ZkError::UnsupportedFormat));
    assert_eq!(parse_field_element("12a3"), Err(ZkError::UnsupportedFormat));
    assert_eq!(parse_field_element("-5"), Err(ZkError::UnsupportedFormat));
}

#[test]
fn proof_codec_round_trip() {
    let pf = Proof { a: 123456789, b: 0, c: MODULUS - 1 };
    let bytes = zk_pipeline::codec::encode_proof(&pf);
    assert_eq!(bytes.len(), 27);
    assert_eq!(zk_pipeline::codec::decode_proof(&bytes), Ok(pf));
}

#[test]
fn key_invariant_checks() {
    let c = commitment_circuit();
    let (mut pk, vk) = setup(&c, &demo_trapdoor()).unwrap();
    assert!(pk.check());
    assert!(vk.check());
    // A wrong inverse for delta breaks the proving key's invariant.
    pk.delta_inv = 1;
    assert!(!pk.check());
}

#[test]
fn prove_is_deterministic() {
    let c = commitment_circuit();
    let (pk, _vk) = setup(&c, &demo_trapdoor()).unwrap();
    let w = evaluate(&c, &bindings_for(3, 4)).unwrap();
    let p1 = prove(&pk, &w, 21, 22).unwrap();
    let p2 = prove(&pk, &w, 21, 22).unwrap();
    assert_eq!(p1, p2);
}

#[test]
fn verification_key_codec_round_trip() {
    let c = commitment_circuit();
    let (_pk, vk) = setup(&c, &demo_trapdoor()).unwrap();
    let bytes = zk_pipeline::codec::encode_verification_key(&vk);
    assert_eq!(bytes.len(), 43 + 8);
    let back = zk_pipeline::codec::decode_verification_key(&bytes).unwrap();
    assert_eq!(back.alpha, vk.alpha);
    assert_eq!(back.beta, vk.beta);
    assert_eq!(back.gamma, vk.gamma);
    assert_eq!(back.delta, vk.delta);
    assert_eq!(back.ic, vk.ic);
}

#[test]
fn verification_key_bad_header_is_reported() {
    let c = commitment_circuit();
    let (_pk, vk) = setup(&c, &demo_trapdoor()).unwrap();
    let good = zk_pipeline::codec::encode_verification_key(&vk);
    let mut bad = good.clone();
    bad[1] = 0x00;
    assert_eq!(
        zk_pipeline::codec::decode_verification_key(&bad).err(),
        Some(ZkError::UnsupportedFormat)
    );
    // A declared entry count that disagrees with the length.
    let mut bad = good;
    bad[35] = 7;
    assert_eq!(
        zk_pipeline::codec::decode_verification_key(&bad).err(),
        Some(ZkError::UnsupportedFormat)
    );
}

#[test]
fn unsupported_format_is_reported() {
    let pf = Proof { a: 1, b: 2, c: 3 };
    let good = zk_pipeline::codec::encode_proof(&pf);
    // Wrong magic.
    let mut bad = good.clone();
    bad[0] = 0;
    assert_eq!(zk_pipeline::codec::decode_proof(&bad), Err(ZkError::UnsupportedFormat));
    // Wrong version.
    let mut bad = good.clone();
    bad[2] = 9;
    assert_eq!(zk_pipeline::codec::decode_proof(&bad), Err(ZkError::UnsupportedFormat));
    // Truncated.
    let mut bad = good.clone();
    bad.pop();
    assert_eq!(zk_pipeline::codec::decode_proof(&bad), Err(ZkError::UnsupportedFormat));
    // A group element out of range.
    let mut bad = good;
    for i in 3..11 {
        bad[i] = 0xFF;
    }
    assert_eq!(zk_pipeline::codec::decode_proof(&bad), Err(ZkError::UnsupportedFormat));
}
