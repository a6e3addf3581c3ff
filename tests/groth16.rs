use ark_bls12_381::Bls12_381;
use ark_ec::{AffineCurve, PairingEngine, ProjectiveCurve};
use ark_ff::{BigInteger, Field, One, PrimeField, UniformRand, Zero};
use ark_relations::r1cs::SynthesisError;
use ark_std::test_rng;

use groth16_verifier::curve::{Fr, G1Affine, G1Projective, G2Affine, G2Projective, Gt};
use groth16_verifier::groth16::{
    challenge, check_equation, prepare_inputs, prepare_verifying_key, vec_verify_proof,
    vec_verify_proof_with_prepared_inputs, verify_proof, verify_proof_with_prepared_inputs, Proof,
    VerifyingKey,
};
use groth16_verifier::window::{batch_evaluate, build_table, evaluate, window_size};

/// The secret exponents of a test setup.
struct Trapdoor {
    alpha: Fr,
    beta: Fr,
    gamma: Fr,
    delta: Fr,
    zt_delta: Fr,
    abc: Vec<Fr>,
}

fn g1(s: Fr) -> ark_bls12_381::G1Affine {
    ark_bls12_381::G1Affine::prime_subgroup_generator().mul(s.into_repr()).into_affine()
}

fn g2(s: Fr) -> ark_bls12_381::G2Affine {
    ark_bls12_381::G2Affine::prime_subgroup_generator().mul(s.into_repr()).into_affine()
}

fn setup(n_inputs: usize) -> (Trapdoor, VerifyingKey) {
    let rng = &mut test_rng();
    let t = Trapdoor {
        alpha: Fr::rand(rng),
        beta: Fr::rand(rng),
        gamma: Fr::rand(rng),
        delta: Fr::rand(rng),
        zt_delta: Fr::rand(rng),
        abc: (0..n_inputs + 1).map(|_| Fr::rand(rng)).collect(),
    };
    let vk = VerifyingKey {
        alpha_g1_beta_g2: Gt(Bls12_381::pairing(g1(t.alpha), g2(t.beta))),
        gamma_g2: G2Affine(g2(t.gamma)),
        delta_g2: G2Affine(g2(t.delta)),
        gamma_abc_g1: t.abc.iter().map(|u| G1Affine(g1(*u))).collect(),
        zt: Gt(Bls12_381::pairing(g1(Fr::from(5u64)), g2(Fr::one()))),
        kappa_zt: Gt(Bls12_381::pairing(g1(Fr::from(7u64)), g2(Fr::one()))),
        zt_delta_g1: G1Affine(g1(t.zt_delta)),
    };
    (t, vk)
}

/// A proof that satisfies the verification equation, built from the
/// trapdoor: `d` is solved for once the challenge is known.
fn make_proof(t: &Trapdoor, inputs: &[Fr], seed: u64) -> Proof {
    let a = Fr::from(seed + 11);
    let b = Fr::from(seed + 13);
    let c = Fr::from(seed + 17);
    let dp = Fr::from(seed + 19);
    let mut proof = Proof {
        a: G1Affine(g1(a)),
        b: G2Affine(g2(b)),
        c: G1Affine(g1(c)),
        d: G1Affine(g1(Fr::one())),
        delta_prime: G2Affine(g2(dp)),
    };
    let m = challenge(&proof);
    let mut i_exp = t.abc[0];
    for (x, u) in inputs.iter().zip(t.abc.iter().skip(1)) {
        i_exp += *x * u;
    }
    let numerator = t.alpha * t.beta - a * b + i_exp * t.gamma + c * dp + m * m * t.zt_delta * t.delta;
    let d = numerator * (dp + m * t.delta).inverse().unwrap();
    proof.d = G1Affine(g1(d));
    proof
}

fn inputs_of(values: &[u64]) -> Vec<Fr> {
    values.iter().map(|v| Fr::from(*v)).collect()
}

#[test]
fn valid_proof_verifies() {
    let (t, vk) = setup(2);
    let xs = inputs_of(&[3, 9]);
    let proof = make_proof(&t, &xs, 0);
    let pvk = prepare_verifying_key(&vk);
    assert_eq!(verify_proof(&pvk, &proof, &xs), Ok(true));
}

#[test]
fn valid_proof_verifies_with_prepared_inputs() {
    let (t, vk) = setup(1);
    let xs = inputs_of(&[42]);
    let proof = make_proof(&t, &xs, 5);
    let pvk = prepare_verifying_key(&vk);
    let prepared = prepare_inputs(&pvk, &xs).unwrap();
    assert_eq!(verify_proof_with_prepared_inputs(&pvk, &proof, &prepared), Ok(true));
}

#[test]
fn length_mismatch_is_malformed_key() {
    let (_, vk) = setup(2);
    assert_eq!(vk.gamma_abc_g1.len(), 3);
    let pvk = prepare_verifying_key(&vk);
    let xs = inputs_of(&[1, 2, 3]);
    assert_eq!(prepare_inputs(&pvk, &xs), Err(SynthesisError::MalformedVerifyingKey));
    let (t, _) = setup(2);
    let proof = make_proof(&t, &inputs_of(&[1, 2]), 0);
    assert_eq!(verify_proof(&pvk, &proof, &xs), Err(SynthesisError::MalformedVerifyingKey));
    assert_eq!(
        prepare_inputs(&pvk, &inputs_of(&[1])),
        Err(SynthesisError::MalformedVerifyingKey)
    );
}

#[test]
fn tampered_proofs_are_rejected() {
    let (t, vk) = setup(2);
    let xs = inputs_of(&[3, 9]);
    let proof = make_proof(&t, &xs, 1);
    let pvk = prepare_verifying_key(&vk);
    let gen1 = ark_bls12_381::G1Affine::prime_subgroup_generator();
    let gen2 = ark_bls12_381::G2Affine::prime_subgroup_generator();
    let bump1 = |p: G1Affine| G1Affine(p.0 + gen1);
    let bump2 = |p: G2Affine| G2Affine(p.0 + gen2);

    let mut p = proof;
    p.a = bump1(p.a);
    assert_eq!(verify_proof(&pvk, &p, &xs), Ok(false));
    let mut p = proof;
    p.c = bump1(p.c);
    assert_eq!(verify_proof(&pvk, &p, &xs), Ok(false));
    let mut p = proof;
    p.d = bump1(p.d);
    assert_eq!(verify_proof(&pvk, &p, &xs), Ok(false));
    let mut p = proof;
    p.delta_prime = bump2(p.delta_prime);
    assert_eq!(verify_proof(&pvk, &p, &xs), Ok(false));
    let mut p = proof;
    p.b = bump2(p.b);
    assert_eq!(verify_proof(&pvk, &p, &xs), Ok(false));
    let bad_inputs = inputs_of(&[3, 10]);
    assert_eq!(verify_proof(&pvk, &proof, &bad_inputs), Ok(false));
}

#[test]
fn proof_for_other_key_is_rejected() {
    let (t, _) = setup(1);
    let xs = inputs_of(&[4]);
    let proof = make_proof(&t, &xs, 2);
    let (_, mut other) = setup(1);
    other.delta_g2 = G2Affine(g2(Fr::from(99u64)));
    let pvk = prepare_verifying_key(&other);
    assert_eq!(verify_proof(&pvk, &proof, &xs), Ok(false));
}

#[test]
fn challenge_depends_on_delta_prime() {
    let (t, _) = setup(1);
    let proof = make_proof(&t, &inputs_of(&[1]), 3);
    let m = challenge(&proof);
    assert_eq!(challenge(&proof), m);
    let mut other = proof;
    other.delta_prime = G2Affine(g2(Fr::from(1234u64)));
    assert_ne!(challenge(&other), m);
    let mut other = proof;
    other.d = G1Affine(g1(Fr::from(1234u64)));
    assert_eq!(challenge(&other), m);
    assert!(!m.is_zero());
}

#[test]
fn prepare_is_deterministic() {
    let (_, vk) = setup(2);
    let p1 = prepare_verifying_key(&vk);
    let p2 = prepare_verifying_key(&vk);
    assert_eq!(p1.gamma_g2_neg_pc.0, p2.gamma_g2_neg_pc.0);
    let expected = ark_ec::bls12::G2Prepared::from(-vk.gamma_g2.0);
    assert_eq!(p1.gamma_g2_neg_pc.0, expected);
    assert_eq!(p1.vk.gamma_abc_g1, vk.gamma_abc_g1);
    assert_eq!(p1.vk.alpha_g1_beta_g2, vk.alpha_g1_beta_g2);
}

#[test]
fn aggregation_is_affine_in_inputs() {
    let (t, vk) = setup(3);
    let pvk = prepare_verifying_key(&vk);
    let xs = inputs_of(&[2, 5, 7]);
    let base = prepare_inputs(&pvk, &xs).unwrap();
    let expected = g1(t.abc[0] + Fr::from(2u64) * t.abc[1] + Fr::from(5u64) * t.abc[2]
        + Fr::from(7u64) * t.abc[3]);
    assert_eq!(base.0.into_affine(), expected);
    let k = Fr::from(6u64);
    let scaled = vec![xs[0], xs[1] * k, xs[2]];
    let moved = prepare_inputs(&pvk, &scaled).unwrap();
    let diff = vk.gamma_abc_g1[2].0.mul((xs[1] * k - xs[1]).into_repr());
    assert_eq!(moved.0, base.0 + diff);
    let zero = prepare_inputs(&pvk, &inputs_of(&[0, 0, 0])).unwrap();
    assert_eq!(zero.0.into_affine(), vk.gamma_abc_g1[0].0);
}

#[test]
fn batch_of_valid_proofs_verifies() {
    let (t, vk) = setup(2);
    let inputs: Vec<Vec<Fr>> = vec![inputs_of(&[1, 2]), inputs_of(&[3, 4]), inputs_of(&[5, 6])];
    let proofs: Vec<Proof> =
        inputs.iter().enumerate().map(|(i, xs)| make_proof(&t, xs, i as u64 * 100)).collect();
    let pvk = prepare_verifying_key(&vk);
    for (p, xs) in proofs.iter().zip(inputs.iter()) {
        assert_eq!(verify_proof(&pvk, p, xs), Ok(true));
    }
    assert_eq!(vec_verify_proof(&vk, &proofs, &inputs), Ok(true));
    let prepared: Vec<G1Projective> =
        inputs.iter().map(|xs| prepare_inputs(&pvk, xs).unwrap()).collect();
    assert_eq!(vec_verify_proof_with_prepared_inputs(&pvk, &proofs, &prepared), Ok(true));
}

#[test]
fn batch_with_one_bad_proof_fails() {
    let (t, vk) = setup(2);
    let inputs: Vec<Vec<Fr>> = vec![inputs_of(&[1, 2]), inputs_of(&[3, 4]), inputs_of(&[5, 6])];
    let mut proofs: Vec<Proof> =
        inputs.iter().enumerate().map(|(i, xs)| make_proof(&t, xs, i as u64 * 100)).collect();
    proofs[1].c = G1Affine(g1(Fr::from(77u64)));
    assert_eq!(vec_verify_proof(&vk, &proofs, &inputs), Ok(false));
}

#[test]
fn empty_batch_verifies() {
    let (_, vk) = setup(1);
    assert_eq!(vec_verify_proof(&vk, &vec![], &vec![]), Ok(true));
}

#[test]
fn batch_errors_on_malformed_inputs() {
    let (t, vk) = setup(2);
    let xs = inputs_of(&[1, 2]);
    let proofs = vec![make_proof(&t, &xs, 0)];
    assert_eq!(
        vec_verify_proof(&vk, &proofs, &vec![inputs_of(&[1])]),
        Err(SynthesisError::MalformedVerifyingKey)
    );
    assert_eq!(
        vec_verify_proof(&vk, &proofs, &vec![xs.clone(), xs.clone()]),
        Err(SynthesisError::MalformedVerifyingKey)
    );
}

#[test]
fn window_size_values() {
    for n in 0..32 {
        assert_eq!(window_size(n), 3);
    }
    assert_eq!(window_size(32), 3);
    assert_eq!(window_size(33), 4);
    assert_eq!(window_size(1000), 6);
    assert_eq!(window_size(1 << 20), 13);
    assert_eq!(window_size(usize::MAX), 44);
    let mut last = 0;
    for n in 0..5000 {
        let w = window_size(n);
        assert!(w >= last);
        last = w;
    }
}

fn bits(s: Fr) -> Vec<bool> {
    s.into_repr().to_bits_le()
}

#[test]
fn g1_table_matches_scalar_multiplication() {
    let rng = &mut test_rng();
    let base = ark_bls12_381::G1Projective::rand(rng);
    let table = build_table(&G1Projective(base), 255, 4);
    assert_eq!(table.rows.len(), 64);
    assert_eq!(table.rows[63].len(), 8);
    for _ in 0..4 {
        let s = Fr::rand(rng);
        let r = evaluate(&table, &bits(s));
        assert_eq!(r.0, base.mul(s.into_repr()));
    }
    let mut naive = ark_bls12_381::G1Projective::zero();
    for k in 0..40u64 {
        assert_eq!(evaluate(&table, &bits(Fr::from(k))).0, naive);
        naive += &base;
    }
}

#[test]
fn g2_batch_evaluate_matches_scalar_multiplication() {
    let rng = &mut test_rng();
    let base = ark_bls12_381::G2Projective::rand(rng);
    let table = build_table(&G2Projective(base), 255, 3);
    let scalars: Vec<Fr> = (0..5).map(|_| Fr::rand(rng)).collect();
    let all: Vec<Vec<bool>> = scalars.iter().map(|s| bits(*s)).collect();
    let out = batch_evaluate(&table, &all);
    assert_eq!(out.len(), 5);
    for (o, s) in out.iter().zip(scalars.iter()) {
        assert_eq!(o.0, base.mul(s.into_repr()));
    }
}

#[test]
fn gt_table_matches_exponentiation() {
    let rng = &mut test_rng();
    let base = Bls12_381::pairing(
        ark_bls12_381::G1Projective::rand(rng),
        ark_bls12_381::G2Projective::rand(rng),
    );
    let table = build_table(&Gt(base), 255, 5);
    let s = Fr::rand(rng);
    assert_eq!(evaluate(&table, &bits(s)).0, base.pow(s.into_repr()));
    let mut naive = ark_bls12_381::Fq12::one();
    for k in 0..40u64 {
        assert_eq!(evaluate(&table, &bits(Fr::from(k))).0, naive);
        naive *= &base;
    }
}

#[test]
fn short_table_truncates_the_last_chunk() {
    let rng = &mut test_rng();
    let base = ark_bls12_381::G1Projective::rand(rng);
    let table = build_table(&G1Projective(base), 10, 4);
    assert_eq!(table.rows.len(), 3);
    assert_eq!(table.rows[0].len(), 16);
    assert_eq!(table.rows[2].len(), 4);
    let r = evaluate(&table, &bits(Fr::from(1023u64)));
    assert_eq!(r.0, base.mul(Fr::from(1023u64).into_repr()));
    let r = evaluate(&table, &bits(Fr::from(1024u64 + 5)));
    assert_eq!(r.0, base.mul(Fr::from(5u64).into_repr()));
}

#[test]
fn equation_with_table_multiples_matches_direct() {
    let (t, vk) = setup(1);
    let xs = inputs_of(&[8]);
    let proof = make_proof(&t, &xs, 9);
    let pvk = prepare_verifying_key(&vk);
    let prepared = prepare_inputs(&pvk, &xs).unwrap();
    let m = challenge(&proof);
    let direct_g2 = G2Projective(vk.delta_g2.0.mul(m.into_repr()));
    let direct_g1 = G1Projective(vk.zt_delta_g1.0.mul((m * m).into_repr()));
    assert_eq!(check_equation(&pvk, &proof, &prepared, &direct_g2, &direct_g1), Ok(true));
    let t2 = build_table(&G2Projective(vk.delta_g2.0.into_projective()), 255, window_size(1));
    let t1 = build_table(&G1Projective(vk.zt_delta_g1.0.into_projective()), 255, window_size(1));
    let e2 = evaluate(&t2, &bits(m));
    let e1 = evaluate(&t1, &bits(m * m));
    assert_eq!(e2, direct_g2);
    assert_eq!(e1, direct_g1);
    assert_eq!(check_equation(&pvk, &proof, &prepared, &e2, &e1), Ok(true));
    assert_eq!(check_equation(&pvk, &proof, &prepared, &e2, &direct_g1.clone()), Ok(true));
    let wrong = G1Projective(vk.zt_delta_g1.0.mul(m.into_repr()));
    assert_eq!(check_equation(&pvk, &proof, &prepared, &e2, &wrong), Ok(false));
}
