//! The pairing-friendly curve (BLS12-381) and the arithmetic, serialization
//! and hashing that the verifier takes from the arkworks and blake2 crates.
//!
//! Curve points, pairing values and prepared points are opaque here: each is
//! held in a small struct whose field is the arkworks value, and every
//! operation on them is a call into arkworks whose result is given a name.

use vstd::prelude::*;

use ark_ec::{AffineCurve, PairingEngine, ProjectiveCurve};
use ark_ff::{BigInteger, Field, One, PrimeField, ToBytes, Zero};
use ark_relations::r1cs::SynthesisError;
use blake2::{Blake2b, Digest};

use crate::window::WindowGroup;

verus! {

#[verifier::external_type_specification]
#[verifier::external_body]
#[verifier::reject_recursive_types(P)]
pub struct ExFp256<P>(ark_ff::Fp256<P>);

#[verifier::external_type_specification]
#[verifier::external_body]
pub struct ExFrParameters(ark_bls12_381::FrParameters);

#[verifier::external_type_specification]
pub struct ExSynthesisError(SynthesisError);

/// An element of the scalar field.
pub type Fr = ark_bls12_381::Fr;

/// A point of G1 in affine form.
#[verifier::external_body]
#[derive(Debug, PartialEq, Eq)]
pub struct G1Affine(pub ark_bls12_381::G1Affine);

/// A point of G2 in affine form.
#[verifier::external_body]
#[derive(Debug, PartialEq, Eq)]
pub struct G2Affine(pub ark_bls12_381::G2Affine);

/// A point of G1 in projective form.
#[verifier::external_body]
#[derive(Debug, PartialEq, Eq)]
pub struct G1Projective(pub ark_bls12_381::G1Projective);

/// A point of G2 in projective form.
#[verifier::external_body]
#[derive(Debug, PartialEq, Eq)]
pub struct G2Projective(pub ark_bls12_381::G2Projective);

/// An element of the pairing target group.
#[verifier::external_body]
#[derive(Debug, PartialEq, Eq)]
pub struct Gt(pub ark_bls12_381::Fq12);

/// A G1 point prepared for the Miller loop.
#[verifier::external_body]
#[derive(Debug)]
pub struct G1Prepared(pub ark_ec::bls12::G1Prepared<ark_bls12_381::Parameters>);

/// A G2 point prepared for the Miller loop.
#[verifier::external_body]
#[derive(Debug)]
pub struct G2Prepared(pub ark_ec::bls12::G2Prepared<ark_bls12_381::Parameters>);

impl Clone for G1Affine {
    fn clone(&self) -> (r: Self)
        ensures
            r == *self,
    {
        *self
    }
}

impl Copy for G1Affine {}

impl Clone for G2Affine {
    fn clone(&self) -> (r: Self)
        ensures
            r == *self,
    {
        *self
    }
}

impl Copy for G2Affine {}

impl Clone for G1Projective {
    fn clone(&self) -> (r: Self)
        ensures
            r == *self,
    {
        *self
    }
}

impl Copy for G1Projective {}

impl Clone for G2Projective {
    fn clone(&self) -> (r: Self)
        ensures
            r == *self,
    {
        *self
    }
}

impl Copy for G2Projective {}

impl Clone for Gt {
    fn clone(&self) -> (r: Self)
        ensures
            r == *self,
    {
        *self
    }
}

impl Copy for Gt {}

// ---------------------------------------------------------------- G1

pub uninterp spec fn g1_add_of(a: G1Projective, b: G1Projective) -> G1Projective;

pub uninterp spec fn g1_double_of(a: G1Projective) -> G1Projective;

pub uninterp spec fn g1_zero_of(u: ()) -> G1Projective;

pub uninterp spec fn g1_projective_of(p: G1Affine) -> G1Projective;

pub uninterp spec fn g1_affine_of(p: G1Projective) -> G1Affine;

pub uninterp spec fn g1_mul_of(p: G1Affine, s: Fr) -> G1Projective;

pub uninterp spec fn g1_prepared_of(p: G1Affine) -> G1Prepared;

pub uninterp spec fn g1_bytes_of(p: G1Affine) -> Seq<u8>;

/// Relies on `AddAssign<&GroupProjective>` of ark-ec: the sum of two G1 points.
#[verifier::external_body]
pub(crate) fn g1_add(a: &G1Projective, b: &G1Projective) -> (r: G1Projective)
    ensures
        r == g1_add_of(*a, *b),
{
    let mut s = a.0;
    s += &b.0;
    G1Projective(s)
}

/// Relies on `ProjectiveCurve::double` of ark-ec: twice a G1 point.
#[verifier::external_body]
pub(crate) fn g1_double(a: &G1Projective) -> (r: G1Projective)
    ensures
        r == g1_double_of(*a),
{
    G1Projective(a.0.double())
}

/// Relies on `Zero::zero` of ark-ec's G1 projective points: the point at
/// infinity, always the same value (`Zero::zero` takes no arguments).
#[verifier::external_body]
pub(crate) fn g1_zero() -> (r: G1Projective)
    ensures
        r == g1_zero_of(()),
{
    G1Projective(ark_bls12_381::G1Projective::zero())
}

/// Relies on `AffineCurve::into_projective` of ark-ec.
#[verifier::external_body]
pub(crate) fn g1_into_projective(p: &G1Affine) -> (r: G1Projective)
    ensures
        r == g1_projective_of(*p),
{
    G1Projective(p.0.into_projective())
}

/// Relies on `ProjectiveCurve::into_affine` of ark-ec.
#[verifier::external_body]
pub(crate) fn g1_into_affine(p: &G1Projective) -> (r: G1Affine)
    ensures
        r == g1_affine_of(*p),
{
    G1Affine(p.0.into_affine())
}

/// Relies on `AffineCurve::mul` of ark-ec: the scalar multiple `s * p`.
#[verifier::external_body]
pub(crate) fn g1_mul(p: &G1Affine, s: &Fr) -> (r: G1Projective)
    ensures
        r == g1_mul_of(*p, *s),
{
    G1Projective(p.0.mul(s.into_repr()))
}

/// Relies on `From<G1Affine>` for ark-ec's `bls12::G1Prepared`.
#[verifier::external_body]
pub(crate) fn g1_prepare(p: &G1Affine) -> (r: G1Prepared)
    ensures
        r == g1_prepared_of(*p),
{
    G1Prepared(ark_ec::bls12::G1Prepared::from(p.0))
}

/// Relies on `ToBytes::write` of ark-ec's affine points (what ark-ff's
/// `to_bytes!` calls): the canonical bytes of a G1 point.
#[verifier::external_body]
pub(crate) fn g1_to_bytes(p: &G1Affine) -> (r: Vec<u8>)
    ensures
        r@ == g1_bytes_of(*p),
{
    let mut v: Vec<u8> = Vec::new();
    match ToBytes::write(&p.0, &mut v) {
        Ok(()) => v,
        Err(_) => Vec::new(),
    }
}

// ---------------------------------------------------------------- G2

pub uninterp spec fn g2_add_of(a: G2Projective, b: G2Projective) -> G2Projective;

pub uninterp spec fn g2_double_of(a: G2Projective) -> G2Projective;

pub uninterp spec fn g2_zero_of(u: ()) -> G2Projective;

pub uninterp spec fn g2_projective_of(p: G2Affine) -> G2Projective;

pub uninterp spec fn g2_affine_of(p: G2Projective) -> G2Affine;

pub uninterp spec fn g2_mul_of(p: G2Affine, s: Fr) -> G2Projective;

pub uninterp spec fn g2_neg_of(p: G2Affine) -> G2Affine;

pub uninterp spec fn g2_prepared_of(p: G2Affine) -> G2Prepared;

pub uninterp spec fn g2_bytes_of(p: G2Affine) -> Seq<u8>;

/// Relies on `AddAssign<&GroupProjective>` of ark-ec: the sum of two G2 points.
#[verifier::external_body]
pub(crate) fn g2_add(a: &G2Projective, b: &G2Projective) -> (r: G2Projective)
    ensures
        r == g2_add_of(*a, *b),
{
    let mut s = a.0;
    s += &b.0;
    G2Projective(s)
}

/// Relies on `ProjectiveCurve::double` of ark-ec: twice a G2 point.
#[verifier::external_body]
pub(crate) fn g2_double(a: &G2Projective) -> (r: G2Projective)
    ensures
        r == g2_double_of(*a),
{
    G2Projective(a.0.double())
}

/// Relies on `Zero::zero` of ark-ec's G2 projective points: the point at
/// infinity, always the same value (`Zero::zero` takes no arguments).
#[verifier::external_body]
pub(crate) fn g2_zero() -> (r: G2Projective)
    ensures
        r == g2_zero_of(()),
{
    G2Projective(ark_bls12_381::G2Projective::zero())
}

/// Relies on `AffineCurve::into_projective` of ark-ec.
#[verifier::external_body]
pub(crate) fn g2_into_projective(p: &G2Affine) -> (r: G2Projective)
    ensures
        r == g2_projective_of(*p),
{
    G2Projective(p.0.into_projective())
}

/// Relies on `ProjectiveCurve::into_affine` of ark-ec.
#[verifier::external_body]
pub(crate) fn g2_into_affine(p: &G2Projective) -> (r: G2Affine)
    ensures
        r == g2_affine_of(*p),
{
    G2Affine(p.0.into_affine())
}

/// Relies on `AffineCurve::mul` of ark-ec: the scalar multiple `s * p`.
#[verifier::external_body]
pub(crate) fn g2_mul(p: &G2Affine, s: &Fr) -> (r: G2Projective)
    ensures
        r == g2_mul_of(*p, *s),
{
    G2Projective(p.0.mul(s.into_repr()))
}

/// Relies on `Neg` of ark-ec's affine points: the additive inverse.
#[verifier::external_body]
pub(crate) fn g2_neg(p: &G2Affine) -> (r: G2Affine)
    ensures
        r == g2_neg_of(*p),
{
    G2Affine(-p.0)
}

/// Relies on `From<G2Affine>` for ark-ec's `bls12::G2Prepared`.
#[verifier::external_body]
pub(crate) fn g2_prepare(p: &G2Affine) -> (r: G2Prepared)
    ensures
        r == g2_prepared_of(*p),
{
    G2Prepared(ark_ec::bls12::G2Prepared::from(p.0))
}

/// Relies on the derived `Clone` of ark-ec's `bls12::G2Prepared`, which copies
/// its line coefficients.
#[verifier::external_body]
pub(crate) fn g2_prepared_clone(p: &G2Prepared) -> (r: G2Prepared)
    ensures
        r == *p,
{
    G2Prepared(p.0.clone())
}

/// Relies on `ToBytes::write` of ark-ec's affine points (what ark-ff's
/// `to_bytes!` calls): the canonical bytes of a G2 point.
#[verifier::external_body]
pub(crate) fn g2_to_bytes(p: &G2Affine) -> (r: Vec<u8>)
    ensures
        r@ == g2_bytes_of(*p),
{
    let mut v: Vec<u8> = Vec::new();
    match ToBytes::write(&p.0, &mut v) {
        Ok(()) => v,
        Err(_) => Vec::new(),
    }
}

// ---------------------------------------------------------------- target group

pub uninterp spec fn gt_mul_of(a: Gt, b: Gt) -> Gt;

pub uninterp spec fn gt_square_of(a: Gt) -> Gt;

pub uninterp spec fn gt_one_of(u: ()) -> Gt;

pub uninterp spec fn miller_loop_of(pairs: Seq<(G1Prepared, G2Prepared)>) -> Gt;

pub uninterp spec fn final_exponentiation_of(f: Gt) -> Option<Gt>;

/// Relies on `Mul` of ark-ff's quadratic extension fields: the product.
#[verifier::external_body]
pub(crate) fn gt_mul(a: &Gt, b: &Gt) -> (r: Gt)
    ensures
        r == gt_mul_of(*a, *b),
{
    Gt(a.0 * b.0)
}

/// Relies on `Field::square` of ark-ff's quadratic extension fields.
#[verifier::external_body]
pub(crate) fn gt_square(a: &Gt) -> (r: Gt)
    ensures
        r == gt_square_of(*a),
{
    Gt(a.0.square())
}

/// Relies on `One::one` of ark-ff's quadratic extension fields: the
/// multiplicative identity, always the same value (`One::one` takes no
/// arguments).
#[verifier::external_body]
pub(crate) fn gt_one() -> (r: Gt)
    ensures
        r == gt_one_of(()),
{
    Gt(ark_bls12_381::Fq12::one())
}

/// Relies on the derived `PartialEq` of ark-ff's field elements, which
/// compares their reduced representations, so equal elements compare equal.
#[verifier::external_body]
pub(crate) fn gt_eq(a: &Gt, b: &Gt) -> (r: bool)
    ensures
        r == (*a == *b),
{
    a.0 == b.0
}

/// Relies on `PairingEngine::miller_loop` of ark-ec for BLS12-381: the
/// product of the Miller loops of all pairs. It reads one line coefficient
/// per step for each G2 element, so each must be a point prepared by
/// `G2Prepared::from`, which stores all of them.
#[verifier::external_body]
pub(crate) fn miller_loop(pairs: &Vec<(G1Prepared, G2Prepared)>) -> (r: Gt)
    requires
        forall|i: int|
            0 <= i < pairs@.len() ==> exists|q: G2Affine| #[trigger] pairs@[i].1 == g2_prepared_of(q),
    ensures
        r == miller_loop_of(pairs@),
{
    let v: Vec<_> = pairs.iter().map(|(p, q)| (p.0.clone(), q.0.clone())).collect();
    Gt(ark_bls12_381::Bls12_381::miller_loop(v.iter()))
}

/// Relies on `PairingEngine::final_exponentiation` of ark-ec for BLS12-381;
/// `None` where the Miller loop value has no inverse.
#[verifier::external_body]
pub(crate) fn final_exponentiation(f: &Gt) -> (r: Option<Gt>)
    ensures
        r == final_exponentiation_of(*f),
{
    ark_bls12_381::Bls12_381::final_exponentiation(&f.0).map(Gt)
}

// ---------------------------------------------------------------- scalars and hashing

pub uninterp spec fn fr_mul_of(a: Fr, b: Fr) -> Fr;

pub uninterp spec fn fr_from_le_bytes_of(b: Seq<u8>) -> Fr;

pub uninterp spec fn fr_bits_of(s: Fr) -> Seq<bool>;

pub uninterp spec fn blake2b_512_of(data: Seq<u8>) -> Seq<u8>;

/// Relies on `Mul` of ark-ff's prime fields: the product of two scalars.
#[verifier::external_body]
pub(crate) fn fr_mul(a: &Fr, b: &Fr) -> (r: Fr)
    ensures
        r == fr_mul_of(*a, *b),
{
    *a * *b
}

/// Relies on `PrimeField::from_le_bytes_mod_order` of ark-ff: the
/// little-endian integer of the bytes, reduced modulo the field order.
#[verifier::external_body]
pub(crate) fn fr_from_le_bytes_mod_order(b: &Vec<u8>) -> (r: Fr)
    ensures
        r == fr_from_le_bytes_of(b@),
{
    Fr::from_le_bytes_mod_order(b.as_slice())
}

/// Relies on `PrimeField::into_repr` and `BigInteger::to_bits_le` of ark-ff:
/// the bits of the scalar's canonical integer, least significant first.
#[verifier::external_body]
pub(crate) fn fr_bits_le(s: &Fr) -> (r: Vec<bool>)
    ensures
        r@ == fr_bits_of(*s),
{
    s.into_repr().to_bits_le()
}

/// Relies on `PrimeField::size_in_bits` of ark-ff, which is the
/// `MODULUS_BITS` of BLS12-381's scalar field, 255.
#[verifier::external_body]
pub(crate) fn fr_size_in_bits() -> (r: usize)
    ensures
        r == 255,
{
    <Fr as PrimeField>::size_in_bits()
}

/// Relies on `Blake2b` of blake2 (the 512-bit variant) through `Digest`:
/// the 64-byte digest of the data.
#[verifier::external_body]
pub(crate) fn blake2b_512(data: &Vec<u8>) -> (r: Vec<u8>)
    ensures
        r@ == blake2b_512_of(data@),
        r@.len() == 64,
{
    Blake2b::new().chain(data.as_slice()).finalize().to_vec()
}

// ---------------------------------------------------------------- the groups as window groups

impl WindowGroup for G1Projective {
    open spec fn op(a: Self, b: Self) -> Self {
        g1_add_of(a, b)
    }

    open spec fn twice(a: Self) -> Self {
        g1_double_of(a)
    }

    open spec fn unit() -> Self {
        g1_zero_of(())
    }

    /// Two projective values stand for one point when their affine forms agree.
    open spec fn equiv(a: Self, b: Self) -> bool {
        g1_affine_of(a) == g1_affine_of(b)
    }

    fn identity() -> (r: Self) {
        g1_zero()
    }

    fn combine(&self, other: &Self) -> (r: Self) {
        g1_add(self, other)
    }

    fn double(&self) -> (r: Self) {
        g1_double(self)
    }
}

impl WindowGroup for G2Projective {
    open spec fn op(a: Self, b: Self) -> Self {
        g2_add_of(a, b)
    }

    open spec fn twice(a: Self) -> Self {
        g2_double_of(a)
    }

    open spec fn unit() -> Self {
        g2_zero_of(())
    }

    /// Two projective values stand for one point when their affine forms agree.
    open spec fn equiv(a: Self, b: Self) -> bool {
        g2_affine_of(a) == g2_affine_of(b)
    }

    fn identity() -> (r: Self) {
        g2_zero()
    }

    fn combine(&self, other: &Self) -> (r: Self) {
        g2_add(self, other)
    }

    fn double(&self) -> (r: Self) {
        g2_double(self)
    }
}

impl WindowGroup for Gt {
    open spec fn op(a: Self, b: Self) -> Self {
        gt_mul_of(a, b)
    }

    open spec fn twice(a: Self) -> Self {
        gt_square_of(a)
    }

    open spec fn unit() -> Self {
        gt_one_of(())
    }

    /// Field elements are held reduced, so equal elements are equal values.
    open spec fn equiv(a: Self, b: Self) -> bool {
        a == b
    }

    fn identity() -> (r: Self) {
        gt_one()
    }

    fn combine(&self, other: &Self) -> (r: Self) {
        gt_mul(self, other)
    }

    fn double(&self) -> (r: Self) {
        gt_square(self)
    }
}

} // verus!
