//! The verifying key, the proof, and single and batched verification.
//!
//! A proof is accepted when one five-term multi-pairing, taken through the
//! final exponentiation, equals the key's `alpha_g1_beta_g2`:
//!
//! ```text
//! e(a, b) · e(inputs, -gamma) · e(c, -delta') · e(d, delta' + m·delta)
//!     · e(m²·zt_delta, -delta)  ==  alpha_g1_beta_g2
//! ```
//!
//! where `m` is the proof's challenge (Blake2b-512 over the serialized `a`,
//! `b`, `c`, `delta'`, reduced into the scalar field).

use vstd::prelude::*;

use ark_relations::r1cs::SynthesisError;

use crate::curve::{
    blake2b_512, fr_bits_le, fr_bits_of, fr_size_in_bits, blake2b_512_of, final_exponentiation, final_exponentiation_of, fr_from_le_bytes_mod_order, fr_from_le_bytes_of, fr_mul, fr_mul_of, g1_add, g1_add_of, g1_affine_of, g1_bytes_of, g1_into_affine, g1_into_projective, g1_mul, g1_mul_of, g1_prepare, g1_prepared_of, g1_projective_of, g1_to_bytes, g2_add, g2_add_of, g2_affine_of, g2_bytes_of, g2_into_affine, g2_into_projective, g2_mul, g2_mul_of, g2_neg, g2_neg_of, g2_prepare, g2_prepared_clone, g2_prepared_of, g2_projective_of, g2_to_bytes, gt_eq, miller_loop, miller_loop_of, Fr, G1Affine, G1Prepared, G1Projective, G2Affine, G2Prepared, G2Projective, Gt,
};
use crate::window::{batch_evaluate, build_table, fixed_base_eval, window_size, window_size_spec};

verus! {

/// A verifying key, produced by a trusted setup.
#[derive(Debug)]
pub struct VerifyingKey {
    pub alpha_g1_beta_g2: Gt,
    pub gamma_g2: G2Affine,
    pub delta_g2: G2Affine,
    pub gamma_abc_g1: Vec<G1Affine>,
    pub zt: Gt,
    pub kappa_zt: Gt,
    pub zt_delta_g1: G1Affine,
}

/// A verifying key with the negation of `gamma_g2` prepared for pairing.
#[derive(Debug)]
pub struct PreparedVerifyingKey {
    pub vk: VerifyingKey,
    pub gamma_g2_neg_pc: G2Prepared,
}

/// A proof: the usual `a`, `b`, `c`, a per-proof `delta_prime` that replaces
/// the key's `delta_g2`, and `d`, which shows that replacement was honest.
#[derive(Clone, Copy, Debug)]
pub struct Proof {
    pub a: G1Affine,
    pub b: G2Affine,
    pub c: G1Affine,
    pub d: G1Affine,
    pub delta_prime: G2Affine,
}

impl PreparedVerifyingKey {
    /// The prepared `gamma_g2` is the prepared negation of the key's own.
    pub open spec fn wf(&self) -> bool {
        self.gamma_g2_neg_pc == prepared_gamma(self.vk)
    }
}

impl VerifyingKey {
    /// Field-by-field equality.
    pub open spec fn same_as(&self, o: VerifyingKey) -> bool {
        &&& self.alpha_g1_beta_g2 == o.alpha_g1_beta_g2
        &&& self.gamma_g2 == o.gamma_g2
        &&& self.delta_g2 == o.delta_g2
        &&& self.gamma_abc_g1@ == o.gamma_abc_g1@
        &&& self.zt == o.zt
        &&& self.kappa_zt == o.kappa_zt
        &&& self.zt_delta_g1 == o.zt_delta_g1
    }
}

// ---------------------------------------------------------------- challenge

/// The bytes hashed for a proof's challenge: `a`, `b`, `c`, `delta_prime`,
/// serialized, in that order.
pub open spec fn challenge_input(proof: Proof) -> Seq<u8> {
    g1_bytes_of(proof.a) + g2_bytes_of(proof.b) + g1_bytes_of(proof.c) + g2_bytes_of(
        proof.delta_prime,
    )
}

/// A proof's challenge: its Blake2b-512 digest read as a little-endian
/// integer, reduced into the scalar field.
pub open spec fn challenge_spec(proof: Proof) -> Fr {
    fr_from_le_bytes_of(blake2b_512_of(challenge_input(proof)))
}

/// Derives the challenge of a proof.
pub fn challenge(proof: &Proof) -> (r: Fr)
    ensures
        r == challenge_spec(*proof),
{
    let mut data = g1_to_bytes(&proof.a);
    let mut b = g2_to_bytes(&proof.b);
    data.append(&mut b);
    let mut c = g1_to_bytes(&proof.c);
    data.append(&mut c);
    let mut dp = g2_to_bytes(&proof.delta_prime);
    data.append(&mut dp);
    assert(data@ =~= challenge_input(*proof));
    let digest = blake2b_512(&data);
    fr_from_le_bytes_mod_order(&digest)
}

/// The challenge is a function of `a`, `b`, `c` and `delta_prime` alone:
/// two proofs that agree on those four have the same challenge.
pub proof fn lemma_challenge_deterministic(x: Proof, y: Proof)
    requires
        x.a == y.a,
        x.b == y.b,
        x.c == y.c,
        x.delta_prime == y.delta_prime,
    ensures
        challenge_spec(x) == challenge_spec(y),
{
}

// ---------------------------------------------------------------- key preparation

/// The prepared form of the negation of the key's `gamma_g2`.
pub open spec fn prepared_gamma(vk: VerifyingKey) -> G2Prepared {
    g2_prepared_of(g2_neg_of(vk.gamma_g2))
}

fn copy_key(vk: &VerifyingKey) -> (r: VerifyingKey)
    ensures
        r.same_as(*vk),
{
    let mut abc: Vec<G1Affine> = Vec::new();
    let mut i: usize = 0;
    while i < vk.gamma_abc_g1.len()
        invariant
            0 <= i <= vk.gamma_abc_g1@.len(),
            abc@ == vk.gamma_abc_g1@.subrange(0, i as int),
        decreases vk.gamma_abc_g1@.len() - i,
    {
        abc.push(vk.gamma_abc_g1[i]);
        i = i + 1;
        assert(abc@ =~= vk.gamma_abc_g1@.subrange(0, i as int));
    }
    assert(abc@ =~= vk.gamma_abc_g1@);
    VerifyingKey {
        alpha_g1_beta_g2: vk.alpha_g1_beta_g2,
        gamma_g2: vk.gamma_g2,
        delta_g2: vk.delta_g2,
        gamma_abc_g1: abc,
        zt: vk.zt,
        kappa_zt: vk.kappa_zt,
        zt_delta_g1: vk.zt_delta_g1,
    }
}

/// Prepares a verifying key for verification: a copy of the key and the
/// pairing-ready negation of its `gamma_g2`.
pub fn prepare_verifying_key(vk: &VerifyingKey) -> (r: PreparedVerifyingKey)
    ensures
        r.vk.same_as(*vk),
        r.gamma_g2_neg_pc == prepared_gamma(*vk),
        r.wf(),
{
    let neg = g2_neg(&vk.gamma_g2);
    PreparedVerifyingKey { vk: copy_key(vk), gamma_g2_neg_pc: g2_prepare(&neg) }
}

/// Preparing equal keys gives equal prepared `gamma_g2` values.
pub proof fn lemma_prepare_deterministic(vk1: VerifyingKey, vk2: VerifyingKey)
    requires
        vk1.same_as(vk2),
    ensures
        prepared_gamma(vk1) == prepared_gamma(vk2),
{
}

// ---------------------------------------------------------------- input aggregation

/// `gamma_abc[0] + sum_{i < k} xs[i] * gamma_abc[i + 1]`, accumulated left to
/// right.
pub open spec fn aggregate_prefix(gamma_abc: Seq<G1Affine>, xs: Seq<Fr>, k: nat) -> G1Projective
    decreases k,
{
    if k == 0 {
        g1_projective_of(gamma_abc[0])
    } else {
        g1_add_of(
            aggregate_prefix(gamma_abc, xs, (k - 1) as nat),
            g1_mul_of(gamma_abc[k as int], xs[k - 1]),
        )
    }
}

/// What aggregating the public inputs `xs` against the key gives.
pub open spec fn prepare_inputs_spec(vk: VerifyingKey, xs: Seq<Fr>) -> Result<G1Projective, SynthesisError> {
    if xs.len() + 1 != vk.gamma_abc_g1@.len() {
        Err(SynthesisError::MalformedVerifyingKey)
    } else {
        Ok(aggregate_prefix(vk.gamma_abc_g1@, xs, xs.len()))
    }
}

/// Aggregates the public inputs into one G1 point:
/// `gamma_abc_g1[0] + sum_i public_inputs[i] * gamma_abc_g1[i + 1]`. The key
/// must hold exactly one more basis point than there are inputs; otherwise
/// the key is malformed for these inputs.
pub fn prepare_inputs(pvk: &PreparedVerifyingKey, public_inputs: &[Fr]) -> (r: Result<
    G1Projective,
    SynthesisError,
>)
    ensures
        r == prepare_inputs_spec(pvk.vk, public_inputs@),
{
    let gamma_abc = &pvk.vk.gamma_abc_g1;
    if gamma_abc.len() == 0 || public_inputs.len() != gamma_abc.len() - 1 {
        return Err(SynthesisError::MalformedVerifyingKey);
    }
    let mut g_ic = g1_into_projective(&gamma_abc[0]);
    let mut i: usize = 0;
    while i < public_inputs.len()
        invariant
            public_inputs@.len() + 1 == gamma_abc@.len(),
            *gamma_abc == pvk.vk.gamma_abc_g1,
            0 <= i <= public_inputs@.len(),
            g_ic == aggregate_prefix(gamma_abc@, public_inputs@, i as nat),
        decreases public_inputs@.len() - i,
    {
        let term = g1_mul(&gamma_abc[i + 1], &public_inputs[i]);
        g_ic = g1_add(&g_ic, &term);
        i = i + 1;
    }
    Ok(g_ic)
}

// ---------------------------------------------------------------- the pairing equation

/// The five (G1, G2) pairs of the equation, given the aggregated inputs and
/// the two scalar multiples `m·delta_g2` and `m²·zt_delta_g1`.
pub open spec fn pairing_terms(
    pvk: PreparedVerifyingKey,
    proof: Proof,
    inputs: G1Projective,
    m_delta: G2Projective,
    m2_zt_delta: G1Projective,
) -> Seq<(G1Prepared, G2Prepared)> {
    seq![
        (g1_prepared_of(proof.a), g2_prepared_of(proof.b)),
        (g1_prepared_of(g1_affine_of(inputs)), pvk.gamma_g2_neg_pc),
        (g1_prepared_of(proof.c), g2_prepared_of(g2_neg_of(proof.delta_prime))),
        (
            g1_prepared_of(proof.d),
            g2_prepared_of(
                g2_affine_of(g2_add_of(m_delta, g2_projective_of(proof.delta_prime))),
            ),
        ),
        (g1_prepared_of(g1_affine_of(m2_zt_delta)), g2_prepared_of(g2_neg_of(pvk.vk.delta_g2))),
    ]
}

/// The outcome of the equation on the given pairs: whether the product of
/// pairings equals `alpha_g1_beta_g2`, or `UnexpectedIdentity` where the final
/// exponentiation is undefined.
pub open spec fn equation_outcome(
    pvk: PreparedVerifyingKey,
    terms: Seq<(G1Prepared, G2Prepared)>,
) -> Result<bool, SynthesisError> {
    match final_exponentiation_of(miller_loop_of(terms)) {
        Some(t) => Ok(t == pvk.vk.alpha_g1_beta_g2),
        None => Err(SynthesisError::UnexpectedIdentity),
    }
}

/// The outcome of verifying one proof against aggregated inputs.
pub open spec fn verify_spec(pvk: PreparedVerifyingKey, proof: Proof, inputs: G1Projective) -> Result<
    bool,
    SynthesisError,
> {
    let m = challenge_spec(proof);
    equation_outcome(
        pvk,
        pairing_terms(
            pvk,
            proof,
            inputs,
            g2_mul_of(pvk.vk.delta_g2, m),
            g1_mul_of(pvk.vk.zt_delta_g1, fr_mul_of(m, m)),
        ),
    )
}

/// Evaluates the verification equation for one proof, given its aggregated
/// inputs and the two scalar multiples `m·delta_g2` and `m²·zt_delta_g1`
/// (however they were computed).
pub fn check_equation(
    pvk: &PreparedVerifyingKey,
    proof: &Proof,
    inputs: &G1Projective,
    m_delta: &G2Projective,
    m2_zt_delta: &G1Projective,
) -> (r: Result<bool, SynthesisError>)
    requires
        pvk.wf(),
    ensures
        r == equation_outcome(*pvk, pairing_terms(*pvk, *proof, *inputs, *m_delta, *m2_zt_delta)),
{
    let mut pairs: Vec<(G1Prepared, G2Prepared)> = Vec::new();
    pairs.push((g1_prepare(&proof.a), g2_prepare(&proof.b)));
    let inputs_affine = g1_into_affine(inputs);
    pairs.push((g1_prepare(&inputs_affine), g2_prepared_clone(&pvk.gamma_g2_neg_pc)));
    let neg_delta_prime = g2_neg(&proof.delta_prime);
    pairs.push((g1_prepare(&proof.c), g2_prepare(&neg_delta_prime)));
    let delta_prime = g2_into_projective(&proof.delta_prime);
    let shifted = g2_into_affine(&g2_add(m_delta, &delta_prime));
    pairs.push((g1_prepare(&proof.d), g2_prepare(&shifted)));
    let zt_affine = g1_into_affine(m2_zt_delta);
    let neg_delta = g2_neg(&pvk.vk.delta_g2);
    pairs.push((g1_prepare(&zt_affine), g2_prepare(&neg_delta)));
    assert(pairs@ =~= pairing_terms(*pvk, *proof, *inputs, *m_delta, *m2_zt_delta));
    assert(pairs@[0].1 == g2_prepared_of(proof.b));
    assert(pairs@[1].1 == g2_prepared_of(g2_neg_of(pvk.vk.gamma_g2)));
    assert(pairs@[2].1 == g2_prepared_of(neg_delta_prime));
    assert(pairs@[3].1 == g2_prepared_of(shifted));
    assert(pairs@[4].1 == g2_prepared_of(neg_delta));
    let f = miller_loop(&pairs);
    match final_exponentiation(&f) {
        Some(t) => Ok(gt_eq(&t, &pvk.vk.alpha_g1_beta_g2)),
        None => Err(SynthesisError::UnexpectedIdentity),
    }
}

/// Verifies a proof against the prepared key and already aggregated public
/// inputs.
pub fn verify_proof_with_prepared_inputs(
    pvk: &PreparedVerifyingKey,
    proof: &Proof,
    prepared_inputs: &G1Projective,
) -> (r: Result<bool, SynthesisError>)
    requires
        pvk.wf(),
    ensures
        r == verify_spec(*pvk, *proof, *prepared_inputs),
{
    let m = challenge(proof);
    let m_delta = g2_mul(&pvk.vk.delta_g2, &m);
    let m2 = fr_mul(&m, &m);
    let m2_zt_delta = g1_mul(&pvk.vk.zt_delta_g1, &m2);
    check_equation(pvk, proof, prepared_inputs, &m_delta, &m2_zt_delta)
}

/// Verifies a proof against the prepared key and the instance's public
/// inputs.
pub fn verify_proof(pvk: &PreparedVerifyingKey, proof: &Proof, public_inputs: &[Fr]) -> (r: Result<
    bool,
    SynthesisError,
>)
    requires
        pvk.wf(),
    ensures
        r == match prepare_inputs_spec(pvk.vk, public_inputs@) {
            Ok(g) => verify_spec(*pvk, *proof, g),
            Err(e) => Err(e),
        },
{
    match prepare_inputs(pvk, public_inputs) {
        Ok(prepared) => verify_proof_with_prepared_inputs(pvk, proof, &prepared),
        Err(e) => Err(e),
    }
}

// ---------------------------------------------------------------- batch verification

/// The outcome of one proof of a batch whose tables use window `w`: the same
/// equation as for a single proof, with `m·delta_g2` and `m²·zt_delta_g1`
/// read from the shared tables (over the scalar field's 255 bits).
pub open spec fn batch_proof_outcome(
    pvk: PreparedVerifyingKey,
    proof: Proof,
    inputs: G1Projective,
    w: nat,
) -> Result<bool, SynthesisError> {
    let m = challenge_spec(proof);
    equation_outcome(
        pvk,
        pairing_terms(
            pvk,
            proof,
            inputs,
            fixed_base_eval(g2_projective_of(pvk.vk.delta_g2), 255, w, fr_bits_of(m)),
            fixed_base_eval(
                g1_projective_of(pvk.vk.zt_delta_g1),
                255,
                w,
                fr_bits_of(fr_mul_of(m, m)),
            ),
        ),
    )
}

/// The outcome of a batch: `UnexpectedIdentity` if any proof's equation is
/// undefined, else whether every proof's equation holds. The tables' window
/// is the one `window_size` gives for the batch's size.
pub open spec fn batch_outcome(
    pvk: PreparedVerifyingKey,
    proofs: Seq<Proof>,
    inputs: Seq<G1Projective>,
) -> Result<bool, SynthesisError> {
    let w = window_size_spec(proofs.len());
    if exists|i: int|
        0 <= i < proofs.len() && (#[trigger] batch_proof_outcome(pvk, proofs[i], inputs[i], w)) is Err {
        Err(SynthesisError::UnexpectedIdentity)
    } else {
        Ok(
            forall|i: int|
                0 <= i < proofs.len() ==> #[trigger] batch_proof_outcome(pvk, proofs[i], inputs[i], w)
                    == Ok::<bool, SynthesisError>(true),
        )
    }
}

/// A batch is accepted exactly when every proof's equation holds; where no
/// equation is undefined and one of them fails, the whole batch is rejected.
pub proof fn lemma_batch_is_conjunction(
    pvk: PreparedVerifyingKey,
    proofs: Seq<Proof>,
    inputs: Seq<G1Projective>,
    bad: int,
)
    requires
        0 <= bad < proofs.len(),
    ensures
        batch_outcome(pvk, proofs, inputs) == Ok::<bool, SynthesisError>(true) <==> forall|i: int|
            0 <= i < proofs.len() ==> #[trigger] batch_proof_outcome(
                pvk,
                proofs[i],
                inputs[i],
                window_size_spec(proofs.len()),
            ) == Ok::<bool, SynthesisError>(true),
        batch_proof_outcome(pvk, proofs[bad], inputs[bad], window_size_spec(proofs.len()))
            == Ok::<bool, SynthesisError>(false) && (forall|i: int|
            0 <= i < proofs.len() ==> (#[trigger] batch_proof_outcome(
                pvk,
                proofs[i],
                inputs[i],
                window_size_spec(proofs.len()),
            )) is Ok) ==> batch_outcome(pvk, proofs, inputs) == Ok::<bool, SynthesisError>(false),
{
    let w = window_size_spec(proofs.len());
    if batch_proof_outcome(pvk, proofs[bad], inputs[bad], w) == Ok::<bool, SynthesisError>(false)
        && (forall|i: int|
        0 <= i < proofs.len() ==> (#[trigger] batch_proof_outcome(pvk, proofs[i], inputs[i], w)) is Ok) {
        assert(!(batch_proof_outcome(pvk, proofs[bad], inputs[bad], w) == Ok::<bool, SynthesisError>(
            true,
        )));
    }
}

/// The batch outcome does not depend on the order of the proofs: permuting
/// the proofs together with their inputs gives the same outcome.
pub proof fn lemma_batch_order_independent(
    pvk: PreparedVerifyingKey,
    proofs: Seq<Proof>,
    inputs: Seq<G1Projective>,
    proofs2: Seq<Proof>,
    inputs2: Seq<G1Projective>,
    perm: Seq<int>,
    inv: Seq<int>,
)
    requires
        proofs.len() == inputs.len(),
        proofs2.len() == proofs.len(),
        inputs2.len() == proofs.len(),
        perm.len() == proofs.len(),
        inv.len() == proofs.len(),
        forall|i: int| 0 <= i < perm.len() ==> 0 <= #[trigger] perm[i] < perm.len(),
        forall|i: int| 0 <= i < inv.len() ==> 0 <= #[trigger] inv[i] < inv.len(),
        forall|i: int| 0 <= i < inv.len() ==> #[trigger] perm[inv[i]] == i,
        forall|i: int| 0 <= i < perm.len() ==> #[trigger] proofs2[i] == proofs[perm[i]],
        forall|i: int| 0 <= i < perm.len() ==> #[trigger] inputs2[i] == inputs[perm[i]],
    ensures
        batch_outcome(pvk, proofs2, inputs2) == batch_outcome(pvk, proofs, inputs),
{
    let w = window_size_spec(proofs.len());
    let ok1 = forall|i: int|
        0 <= i < proofs.len() ==> #[trigger] batch_proof_outcome(pvk, proofs[i], inputs[i], w)
            == Ok::<bool, SynthesisError>(true);
    let ok2 = forall|i: int|
        0 <= i < proofs2.len() ==> #[trigger] batch_proof_outcome(pvk, proofs2[i], inputs2[i], w)
            == Ok::<bool, SynthesisError>(true);
    let e1 = exists|i: int|
        0 <= i < proofs.len() && (#[trigger] batch_proof_outcome(pvk, proofs[i], inputs[i], w)) is Err;
    let e2 = exists|i: int|
        0 <= i < proofs2.len() && (#[trigger] batch_proof_outcome(pvk, proofs2[i], inputs2[i], w)) is Err;
    if e1 {
        let i = choose|i: int|
            0 <= i < proofs.len() && (#[trigger] batch_proof_outcome(pvk, proofs[i], inputs[i], w)) is Err;
        assert(proofs2[inv[i]] == proofs[i]);
        assert(batch_proof_outcome(pvk, proofs2[inv[i]], inputs2[inv[i]], w) is Err);
    }
    if e2 {
        let i = choose|i: int|
            0 <= i < proofs2.len() && (#[trigger] batch_proof_outcome(pvk, proofs2[i], inputs2[i], w)) is Err;
        assert(batch_proof_outcome(pvk, proofs[perm[i]], inputs[perm[i]], w) is Err);
    }
    if ok1 {
        assert forall|i: int| 0 <= i < proofs2.len() implies #[trigger] batch_proof_outcome(
            pvk,
            proofs2[i],
            inputs2[i],
            w,
        ) == Ok::<bool, SynthesisError>(true) by {
            assert(batch_proof_outcome(pvk, proofs[perm[i]], inputs[perm[i]], w) == Ok::<
                bool,
                SynthesisError,
            >(true));
        }
    }
    if ok2 {
        assert forall|i: int| 0 <= i < proofs.len() implies #[trigger] batch_proof_outcome(
            pvk,
            proofs[i],
            inputs[i],
            w,
        ) == Ok::<bool, SynthesisError>(true) by {
            assert(proofs2[inv[i]] == proofs[i]);
            assert(inputs2[inv[i]] == inputs[i]);
            assert(batch_proof_outcome(pvk, proofs2[inv[i]], inputs2[inv[i]], w) == Ok::<
                bool,
                SynthesisError,
            >(true));
        }
    }
}

/// Verifies a batch of proofs, each against its own aggregated inputs, with
/// one shared table per fixed base. The batch is valid only if every proof
/// is; one proof and one input point are needed per instance, else the key
/// is malformed for the batch.
pub fn vec_verify_proof_with_prepared_inputs(
    pvk: &PreparedVerifyingKey,
    proofs: &Vec<Proof>,
    prepared_inputs: &Vec<G1Projective>,
) -> (r: Result<bool, SynthesisError>)
    requires
        pvk.wf(),
    ensures
        proofs@.len() != prepared_inputs@.len() ==> r == Err::<bool, SynthesisError>(
            SynthesisError::MalformedVerifyingKey,
        ),
        proofs@.len() == prepared_inputs@.len() ==> r == batch_outcome(
            *pvk,
            proofs@,
            prepared_inputs@,
        ),
{
    if proofs.len() != prepared_inputs.len() {
        return Err(SynthesisError::MalformedVerifyingKey);
    }
    let n = proofs.len();
    let mut m_bits: Vec<Vec<bool>> = Vec::new();
    let mut m2_bits: Vec<Vec<bool>> = Vec::new();
    let mut i: usize = 0;
    while i < n
        invariant
            n == proofs@.len(),
            0 <= i <= n,
            m_bits@.len() == i,
            m2_bits@.len() == i,
            forall|j: int|
                0 <= j < i ==> #[trigger] m_bits@[j]@ == fr_bits_of(challenge_spec(proofs@[j])),
            forall|j: int|
                0 <= j < i ==> #[trigger] m2_bits@[j]@ == fr_bits_of(
                    fr_mul_of(challenge_spec(proofs@[j]), challenge_spec(proofs@[j])),
                ),
        decreases n - i,
    {
        let m = challenge(&proofs[i]);
        let m2 = fr_mul(&m, &m);
        m_bits.push(fr_bits_le(&m));
        m2_bits.push(fr_bits_le(&m2));
        i = i + 1;
    }
    let scalar_bits = fr_size_in_bits();
    let window = window_size(n);
    let ghost w = window_size_spec(n as nat);
    let t2 = build_table(&g2_into_projective(&pvk.vk.delta_g2), scalar_bits, window);
    let elem_g2 = batch_evaluate(&t2, &m_bits);
    let t1 = build_table(&g1_into_projective(&pvk.vk.zt_delta_g1), scalar_bits, window);
    let elem_g1 = batch_evaluate(&t1, &m2_bits);
    let mut results: Vec<Result<bool, SynthesisError>> = Vec::new();
    let mut i: usize = 0;
    while i < n
        invariant
            n == proofs@.len(),
            pvk.wf(),
            w == window_size_spec(n as nat),
            n == prepared_inputs@.len(),
            n == elem_g2@.len(),
            n == elem_g1@.len(),
            0 <= i <= n,
            results@.len() == i,
            forall|j: int|
                0 <= j < n ==> #[trigger] elem_g2@[j] == fixed_base_eval(
                    g2_projective_of(pvk.vk.delta_g2),
                    255,
                    w,
                    m_bits@[j]@,
                ),
            forall|j: int|
                0 <= j < n ==> #[trigger] elem_g1@[j] == fixed_base_eval(
                    g1_projective_of(pvk.vk.zt_delta_g1),
                    255,
                    w,
                    m2_bits@[j]@,
                ),
            forall|j: int|
                0 <= j < n ==> #[trigger] m_bits@[j]@ == fr_bits_of(challenge_spec(proofs@[j])),
            forall|j: int|
                0 <= j < n ==> #[trigger] m2_bits@[j]@ == fr_bits_of(
                    fr_mul_of(challenge_spec(proofs@[j]), challenge_spec(proofs@[j])),
                ),
            forall|j: int|
                0 <= j < i ==> #[trigger] results@[j] == batch_proof_outcome(
                    *pvk,
                    proofs@[j],
                    prepared_inputs@[j],
                    w,
                ),
        decreases n - i,
    {
        let outcome = check_equation(pvk, &proofs[i], &prepared_inputs[i], &elem_g2[i], &elem_g1[i]);
        proof {
            assert(m_bits@[i as int]@ == fr_bits_of(challenge_spec(proofs@[i as int])));
            assert(m2_bits@[i as int]@ == fr_bits_of(
                fr_mul_of(challenge_spec(proofs@[i as int]), challenge_spec(proofs@[i as int])),
            ));
        }
        results.push(outcome);
        i = i + 1;
    }
    let mut any_err = false;
    let mut all_true = true;
    let mut i: usize = 0;
    while i < n
        invariant
            n == results@.len(),
            0 <= i <= n,
            any_err == exists|j: int| 0 <= j < i && (#[trigger] results@[j]) is Err,
            all_true == forall|j: int|
                0 <= j < i ==> #[trigger] results@[j] != Ok::<bool, SynthesisError>(false),
        decreases n - i,
    {
        match results[i] {
            Ok(b) => {
                all_true = all_true && b;
            },
            Err(_) => {
                any_err = true;
            },
        }
        proof {
            if any_err {
                assert(exists|j: int| 0 <= j < i + 1 && (#[trigger] results@[j]) is Err);
            }
        }
        i = i + 1;
    }
    let r = if any_err {
        Err(SynthesisError::UnexpectedIdentity)
    } else {
        Ok(all_true)
    };
    proof {
        if !any_err {
            assert forall|j: int| 0 <= j < n implies #[trigger] batch_proof_outcome(
                *pvk,
                proofs@[j],
                prepared_inputs@[j],
                w,
            ) is Ok by {
                assert(results@[j] == batch_proof_outcome(*pvk, proofs@[j], prepared_inputs@[j], w));
            }
            if all_true {
                assert forall|j: int| 0 <= j < n implies #[trigger] batch_proof_outcome(
                    *pvk,
                    proofs@[j],
                    prepared_inputs@[j],
                    w,
                ) == Ok::<bool, SynthesisError>(true) by {
                    assert(results@[j] == batch_proof_outcome(*pvk, proofs@[j], prepared_inputs@[j], w));
                    assert(results@[j] is Ok);
                    assert(results@[j] != Ok::<bool, SynthesisError>(false));
                }
            } else {
                let j = choose|j: int| 0 <= j < n && !(#[trigger] results@[j] != Ok::<bool, SynthesisError>(false));
                assert(results@[j] == batch_proof_outcome(*pvk, proofs@[j], prepared_inputs@[j], w));
            }
        } else {
            let j = choose|j: int| 0 <= j < n && (#[trigger] results@[j]) is Err;
            assert(results@[j] == batch_proof_outcome(*pvk, proofs@[j], prepared_inputs@[j], w));
        }
    }
    r
}

/// The aggregated inputs of every instance of a batch, against the key.
pub open spec fn aggregated_inputs(vk: VerifyingKey, public_inputs: Seq<Vec<Fr>>) -> Seq<G1Projective> {
    Seq::new(
        public_inputs.len(),
        |i: int| aggregate_prefix(vk.gamma_abc_g1@, public_inputs[i]@, public_inputs[i]@.len()),
    )
}

/// Whether every instance of a batch has as many inputs as the key expects.
pub open spec fn inputs_fit_key(vk: VerifyingKey, public_inputs: Seq<Vec<Fr>>) -> bool {
    forall|i: int|
        0 <= i < public_inputs.len() ==> #[trigger] public_inputs[i]@.len() + 1
            == vk.gamma_abc_g1@.len()
}

proof fn lemma_proof_outcome_same_key(
    p1: PreparedVerifyingKey,
    p2: PreparedVerifyingKey,
    proof: Proof,
    inputs: G1Projective,
    w: nat,
)
    requires
        p1.wf(),
        p2.wf(),
        p1.vk.same_as(p2.vk),
    ensures
        batch_proof_outcome(p1, proof, inputs, w) == batch_proof_outcome(p2, proof, inputs, w),
{
    let m = challenge_spec(proof);
    let e2 = fixed_base_eval(g2_projective_of(p1.vk.delta_g2), 255, w, fr_bits_of(m));
    let e1 = fixed_base_eval(g1_projective_of(p1.vk.zt_delta_g1), 255, w, fr_bits_of(fr_mul_of(m, m)));
    assert(pairing_terms(p1, proof, inputs, e2, e1) =~= pairing_terms(p2, proof, inputs, e2, e1));
}

/// Two well-formed prepared keys of the same verifying key give every batch
/// the same outcome.
pub proof fn lemma_batch_outcome_same_key(
    p1: PreparedVerifyingKey,
    p2: PreparedVerifyingKey,
    proofs: Seq<Proof>,
    inputs: Seq<G1Projective>,
)
    requires
        p1.wf(),
        p2.wf(),
        p1.vk.same_as(p2.vk),
    ensures
        batch_outcome(p1, proofs, inputs) == batch_outcome(p2, proofs, inputs),
{
    let w = window_size_spec(proofs.len());
    let n = proofs.len();
    if exists|i: int| 0 <= i < n && (#[trigger] batch_proof_outcome(p1, proofs[i], inputs[i], w)) is Err {
        let i = choose|i: int| 0 <= i < n && (#[trigger] batch_proof_outcome(p1, proofs[i], inputs[i], w)) is Err;
        lemma_proof_outcome_same_key(p1, p2, proofs[i], inputs[i], w);
        assert(batch_proof_outcome(p2, proofs[i], inputs[i], w) is Err);
    }
    if exists|i: int| 0 <= i < n && (#[trigger] batch_proof_outcome(p2, proofs[i], inputs[i], w)) is Err {
        let i = choose|i: int| 0 <= i < n && (#[trigger] batch_proof_outcome(p2, proofs[i], inputs[i], w)) is Err;
        lemma_proof_outcome_same_key(p1, p2, proofs[i], inputs[i], w);
        assert(batch_proof_outcome(p1, proofs[i], inputs[i], w) is Err);
    }
    if forall|i: int|
        0 <= i < n ==> #[trigger] batch_proof_outcome(p1, proofs[i], inputs[i], w) == Ok::<
            bool,
            SynthesisError,
        >(true) {
        assert forall|i: int| 0 <= i < n implies #[trigger] batch_proof_outcome(
            p2,
            proofs[i],
            inputs[i],
            w,
        ) == Ok::<bool, SynthesisError>(true) by {
            lemma_proof_outcome_same_key(p1, p2, proofs[i], inputs[i], w);
        }
    }
    if forall|i: int|
        0 <= i < n ==> #[trigger] batch_proof_outcome(p2, proofs[i], inputs[i], w) == Ok::<
            bool,
            SynthesisError,
        >(true) {
        assert forall|i: int| 0 <= i < n implies #[trigger] batch_proof_outcome(
            p1,
            proofs[i],
            inputs[i],
            w,
        ) == Ok::<bool, SynthesisError>(true) by {
            lemma_proof_outcome_same_key(p1, p2, proofs[i], inputs[i], w);
        }
    }
}

/// Verifies a batch of proofs against one verifying key, each against its
/// own public inputs. The key is prepared once for the whole batch; the
/// outcome is that of `vec_verify_proof_with_prepared_inputs` on any
/// prepared form of the key and the aggregated inputs.
pub fn vec_verify_proof(vk: &VerifyingKey, proofs: &Vec<Proof>, public_inputs: &Vec<Vec<Fr>>) -> (r:
    Result<bool, SynthesisError>)
    ensures
        !inputs_fit_key(*vk, public_inputs@) ==> r == Err::<bool, SynthesisError>(
            SynthesisError::MalformedVerifyingKey,
        ),
        inputs_fit_key(*vk, public_inputs@) && proofs@.len() != public_inputs@.len() ==> r == Err::<
            bool,
            SynthesisError,
        >(SynthesisError::MalformedVerifyingKey),
        inputs_fit_key(*vk, public_inputs@) && proofs@.len() == public_inputs@.len() ==> forall|
            pvk: PreparedVerifyingKey,
        |
            pvk.wf() && pvk.vk.same_as(*vk) ==> r == batch_outcome(
                pvk,
                proofs@,
                aggregated_inputs(*vk, public_inputs@),
            ),
{
    let pvk = prepare_verifying_key(vk);
    let mut prepared: Vec<G1Projective> = Vec::new();
    let mut i: usize = 0;
    while i < public_inputs.len()
        invariant
            pvk.vk.same_as(*vk),
            pvk.wf(),
            0 <= i <= public_inputs@.len(),
            prepared@.len() == i,
            forall|j: int|
                0 <= j < i ==> #[trigger] public_inputs@[j]@.len() + 1 == vk.gamma_abc_g1@.len(),
            forall|j: int|
                0 <= j < i ==> #[trigger] prepared@[j] == aggregated_inputs(*vk, public_inputs@)[j],
        decreases public_inputs@.len() - i,
    {
        match prepare_inputs(&pvk, public_inputs[i].as_slice()) {
            Ok(g) => {
                prepared.push(g);
            },
            Err(e) => {
                return Err(e);
            },
        }
        i = i + 1;
    }
    assert(prepared@ =~= aggregated_inputs(*vk, public_inputs@));
    let r = vec_verify_proof_with_prepared_inputs(&pvk, proofs, &prepared);
    proof {
        if proofs@.len() == public_inputs@.len() {
            assert forall|p: PreparedVerifyingKey| p.wf() && p.vk.same_as(*vk) implies r
                == batch_outcome(p, proofs@, aggregated_inputs(*vk, public_inputs@)) by {
                lemma_batch_outcome_same_key(pvk, p, proofs@, prepared@);
            }
        }
    }
    r
}

} // verus!
