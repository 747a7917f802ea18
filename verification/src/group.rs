//! The BN254 groups G1, G2 and GT, modelled by discrete logarithms.
//!
//! G1, G2 and GT are cyclic groups of the same prime order `fr_order()`,
//! generated respectively by the fixed generators g1 and g2 and by the
//! pairing value e(g1, g2). Every element this library handles is created
//! from a generator by the group operations, so it carries a ghost field:
//! its discrete logarithm to the group's generator, an integer in
//! `[0, fr_order())`. Likewise a `Scalar` carries its value as an integer.
//! Each trusted function below states how the arkworks call it relies on
//! acts on those logarithms; all contracts presume the ghost fields
//! faithful, which every function in this module maintains and which
//! nothing else in the library constructs. Group notation is additive,
//! as in arkworks:
//! `add` composes group elements (multiplication in the field underlying
//! GT), `mul` is scalar multiplication (exponentiation).

use vstd::prelude::*;

use ark_bn254::{Bn254, Fq, Fr, G1Affine, G1Projective, G2Projective};
use ark_ec::pairing::{Pairing, PairingOutput};
use ark_ec::{AffineRepr, CurveGroup, Group};
use ark_ff::{Field, PrimeField, Zero};
use ark_serialize::CanonicalSerialize;
use ark_std::UniformRand;

use crate::arith::{addmod, is_residue, mulmod, submod};

verus! {

/// Opaque holder of an `ark_bn254::Fr` field element.
#[verifier::external_body]
pub struct FrRepr {
    inner: Fr,
}

/// Opaque holder of an `ark_bn254::G1Projective` curve point.
#[verifier::external_body]
pub struct G1Repr {
    inner: G1Projective,
}

/// Opaque holder of an `ark_bn254::G2Projective` curve point.
#[verifier::external_body]
pub struct G2Repr {
    inner: G2Projective,
}

/// Opaque holder of a BN254 `PairingOutput` target-group element.
#[verifier::external_body]
pub struct GtRepr {
    inner: PairingOutput<Bn254>,
}

impl Clone for FrRepr {
    #[verifier::external_body]
    fn clone(&self) -> (r: Self) {
        FrRepr { inner: self.inner }
    }
}

impl Copy for FrRepr {

}

impl Clone for G1Repr {
    #[verifier::external_body]
    fn clone(&self) -> (r: Self) {
        G1Repr { inner: self.inner }
    }
}

impl Copy for G1Repr {

}

impl Clone for G2Repr {
    #[verifier::external_body]
    fn clone(&self) -> (r: Self) {
        G2Repr { inner: self.inner }
    }
}

impl Copy for G2Repr {

}

impl Clone for GtRepr {
    #[verifier::external_body]
    fn clone(&self) -> (r: Self) {
        GtRepr { inner: self.inner }
    }
}

impl Copy for GtRepr {

}

/// An element of the BN254 scalar field: a secret exponent or randomness.
#[derive(Clone, Copy)]
pub struct Scalar {
    pub fr: FrRepr,
    /// The element's value, as an integer in `[0, fr_order())`.
    pub v: Ghost<int>,
}

/// An element of G1, created only through generator exponentiation and the
/// group operations.
#[derive(Clone, Copy)]
pub struct G1Elem {
    pub point: G1Repr,
    /// The element's discrete logarithm to the G1 generator.
    pub dlog: Ghost<int>,
}

/// An element of G2, created only through generator exponentiation and the
/// group operations.
#[derive(Clone, Copy)]
pub struct G2Elem {
    pub point: G2Repr,
    /// The element's discrete logarithm to the G2 generator.
    pub dlog: Ghost<int>,
}

/// An element of the pairing target group GT.
#[derive(Clone, Copy)]
pub struct GtElem {
    pub elem: GtRepr,
    /// The element's discrete logarithm to e(g1, g2), the GT generator.
    pub dlog: Ghost<int>,
}

impl Scalar {
    pub open spec fn wf(&self) -> bool {
        is_residue(self.v@)
    }
}

impl G1Elem {
    pub open spec fn wf(&self) -> bool {
        is_residue(self.dlog@)
    }
}

impl G2Elem {
    pub open spec fn wf(&self) -> bool {
        is_residue(self.dlog@)
    }
}

impl GtElem {
    pub open spec fn wf(&self) -> bool {
        is_residue(self.dlog@)
    }
}

/// The compressed wire encoding of the G1 element with the given discrete
/// logarithm, as `CanonicalSerialize` produces it.
pub uninterp spec fn g1_bytes_of(dlog: int) -> Seq<u8>;

/// The compressed wire encoding of the G2 element with the given discrete
/// logarithm, as `CanonicalSerialize` produces it.
pub uninterp spec fn g2_bytes_of(dlog: int) -> Seq<u8>;

/// What the coordinate decode makes of a pair of big-endian affine
/// coordinate encodings: the discrete logarithm of the decoded point
/// when the point passes the curve and subgroup checks, nothing
/// otherwise. A deterministic function of the bytes alone.
pub uninterp spec fn g1_coords_point(xb: Seq<u8>, yb: Seq<u8>) -> Option<int>;

/// A ghost slot for the bodies below, which Verus does not read: the
/// value recorded here is irrelevant, each contract pins the real one.
fn ghost_slot() -> Ghost<int> {
    Ghost(0int)
}

/// Relies on `Fr::rand`: a scalar drawn uniformly from the field, so its
/// value lies in `[0, fr_order())` whatever was drawn.
#[verifier::external_body]
pub(crate) fn scalar_rand() -> (r: Scalar)
    ensures
        r.wf(),
{
    Scalar { fr: FrRepr { inner: Fr::rand(&mut rand::thread_rng()) }, v: ghost_slot() }
}

/// Relies on `Fr: From<u64>`: the integer reduced into the field; the field
/// order exceeds `u64::MAX`, so the value is the integer itself.
#[verifier::external_body]
pub(crate) fn scalar_from_u64(x: u64) -> (r: Scalar)
    ensures
        r.v@ == x as int,
{
    Scalar { fr: FrRepr { inner: Fr::from(x) }, v: ghost_slot() }
}

/// Relies on field multiplication on `Fr`: the product of the values,
/// reduced by the field order.
#[verifier::external_body]
pub(crate) fn scalar_mul(a: &Scalar, b: &Scalar) -> (r: Scalar)
    requires
        a.wf(),
        b.wf(),
    ensures
        r.wf(),
        r.v@ == mulmod(a.v@, b.v@),
{
    Scalar { fr: FrRepr { inner: a.fr.inner * b.fr.inner }, v: ghost_slot() }
}

/// Relies on `Field::inverse` on `Fr`: for a nonzero element it returns the
/// multiplicative inverse, the witness that multiplying by the element gives
/// one.
#[verifier::external_body]
pub(crate) fn scalar_inverse(s: &Scalar) -> (r: Scalar)
    requires
        s.wf(),
        s.v@ != 0,
    ensures
        r.wf(),
        mulmod(r.v@, s.v@) == 1,
{
    Scalar { fr: FrRepr { inner: s.fr.inner.inverse().unwrap() }, v: ghost_slot() }
}

/// Relies on `Zero::is_zero` on `Fr`: true exactly of the zero element.
#[verifier::external_body]
pub(crate) fn scalar_is_zero(s: &Scalar) -> (r: bool)
    requires
        s.wf(),
    ensures
        r <==> s.v@ == 0,
{
    s.fr.inner.is_zero()
}

/// Relies on `Group::generator` for G1: the fixed generator, of discrete
/// logarithm one to itself.
#[verifier::external_body]
pub(crate) fn g1_generator_point() -> (r: G1Elem)
    ensures
        r.wf(),
        r.dlog@ == 1,
{
    G1Elem { point: G1Repr { inner: G1Projective::generator() }, dlog: ghost_slot() }
}

/// Relies on `Zero::zero` for G1: the group identity, of discrete
/// logarithm zero.
#[verifier::external_body]
pub(crate) fn g1_zero_point() -> (r: G1Elem)
    ensures
        r.wf(),
        r.dlog@ == 0,
{
    G1Elem { point: G1Repr { inner: G1Projective::zero() }, dlog: ghost_slot() }
}

/// Relies on scalar multiplication in G1: it multiplies an element's
/// discrete logarithm by the scalar, modulo the group order.
#[verifier::external_body]
pub(crate) fn g1_mul(p: &G1Elem, s: &Scalar) -> (r: G1Elem)
    requires
        p.wf(),
        s.wf(),
    ensures
        r.wf(),
        r.dlog@ == mulmod(p.dlog@, s.v@),
{
    G1Elem { point: G1Repr { inner: p.point.inner * s.fr.inner }, dlog: ghost_slot() }
}

/// Relies on the group operation of G1: it adds discrete logarithms,
/// modulo the group order.
#[verifier::external_body]
pub(crate) fn g1_add(a: &G1Elem, b: &G1Elem) -> (r: G1Elem)
    requires
        a.wf(),
        b.wf(),
    ensures
        r.wf(),
        r.dlog@ == addmod(a.dlog@, b.dlog@),
{
    G1Elem { point: G1Repr { inner: a.point.inner + b.point.inner }, dlog: ghost_slot() }
}

/// Relies on `PartialEq` for G1 points: in a cyclic group of prime order,
/// elements are equal exactly when their discrete logarithms agree.
#[verifier::external_body]
pub(crate) fn g1_eq(a: &G1Elem, b: &G1Elem) -> (r: bool)
    requires
        a.wf(),
        b.wf(),
    ensures
        r <==> a.dlog@ == b.dlog@,
{
    a.point.inner == b.point.inner
}

/// Relies on `CanonicalSerialize::serialize_compressed` for G1: a
/// deterministic encoding of the point, hence a function of its discrete
/// logarithm alone; writing to a `Vec` cannot fail.
#[verifier::external_body]
pub(crate) fn g1_serialize(p: &G1Elem) -> (r: Vec<u8>)
    requires
        p.wf(),
    ensures
        r@ == g1_bytes_of(p.dlog@),
{
    let mut out: Vec<u8> = Vec::new();
    p.point.inner.into_affine().serialize_compressed(&mut out).unwrap();
    out
}

/// Relies on `CurveGroup::into_affine`, `Affine::is_on_curve` and
/// `Affine::is_in_correct_subgroup_assuming_on_curve` for G1: the group
/// operations are closed, so every element reached through them passes
/// both checks.
#[verifier::external_body]
pub(crate) fn g1_sanity_check(p: &G1Elem) -> (r: bool)
    requires
        p.wf(),
    ensures
        r,
{
    let affine = p.point.inner.into_affine();
    affine.is_on_curve() && affine.is_in_correct_subgroup_assuming_on_curve()
}

/// Relies on `Group::generator` for G2: the fixed generator, of discrete
/// logarithm one to itself.
#[verifier::external_body]
pub(crate) fn g2_generator_point() -> (r: G2Elem)
    ensures
        r.wf(),
        r.dlog@ == 1,
{
    G2Elem { point: G2Repr { inner: G2Projective::generator() }, dlog: ghost_slot() }
}

/// Relies on scalar multiplication in G2: it multiplies an element's
/// discrete logarithm by the scalar, modulo the group order.
#[verifier::external_body]
pub(crate) fn g2_mul(p: &G2Elem, s: &Scalar) -> (r: G2Elem)
    requires
        p.wf(),
        s.wf(),
    ensures
        r.wf(),
        r.dlog@ == mulmod(p.dlog@, s.v@),
{
    G2Elem { point: G2Repr { inner: p.point.inner * s.fr.inner }, dlog: ghost_slot() }
}

/// Relies on `PartialEq` for G2 points: in a cyclic group of prime order,
/// elements are equal exactly when their discrete logarithms agree.
#[verifier::external_body]
pub(crate) fn g2_eq(a: &G2Elem, b: &G2Elem) -> (r: bool)
    requires
        a.wf(),
        b.wf(),
    ensures
        r <==> a.dlog@ == b.dlog@,
{
    a.point.inner == b.point.inner
}

/// Relies on `CanonicalSerialize::serialize_compressed` for G2: a
/// deterministic encoding of the point, hence a function of its discrete
/// logarithm alone; writing to a `Vec` cannot fail.
#[verifier::external_body]
pub(crate) fn g2_serialize(p: &G2Elem) -> (r: Vec<u8>)
    requires
        p.wf(),
    ensures
        r@ == g2_bytes_of(p.dlog@),
{
    let mut out: Vec<u8> = Vec::new();
    p.point.inner.into_affine().serialize_compressed(&mut out).unwrap();
    out
}

/// Relies on `CurveGroup::into_affine`, `Affine::is_on_curve` and
/// `Affine::is_in_correct_subgroup_assuming_on_curve` for G2: the group
/// operations are closed, so every element reached through them passes
/// both checks.
#[verifier::external_body]
pub(crate) fn g2_sanity_check(p: &G2Elem) -> (r: bool)
    requires
        p.wf(),
    ensures
        r,
{
    let affine = p.point.inner.into_affine();
    affine.is_on_curve() && affine.is_in_correct_subgroup_assuming_on_curve()
}

/// Relies on `Bn254::pairing`: a bilinear map, so the result's discrete
/// logarithm to e(g1, g2) is the product of the arguments' discrete
/// logarithms, modulo the group order.
#[verifier::external_body]
pub(crate) fn pairing_points(p: &G1Elem, q: &G2Elem) -> (r: GtElem)
    requires
        p.wf(),
        q.wf(),
    ensures
        r.wf(),
        r.dlog@ == mulmod(p.dlog@, q.dlog@),
{
    GtElem { elem: GtRepr { inner: Bn254::pairing(p.point.inner, q.point.inner) }, dlog: ghost_slot() }
}

/// Relies on scalar multiplication on `PairingOutput`: exponentiation in
/// GT, which multiplies the discrete logarithm by the scalar.
#[verifier::external_body]
pub(crate) fn gt_mul(t: &GtElem, s: &Scalar) -> (r: GtElem)
    requires
        t.wf(),
        s.wf(),
    ensures
        r.wf(),
        r.dlog@ == mulmod(t.dlog@, s.v@),
{
    GtElem { elem: GtRepr { inner: t.elem.inner * s.fr.inner }, dlog: ghost_slot() }
}

/// Relies on `Add` on `PairingOutput`: the GT group operation, which adds
/// discrete logarithms modulo the group order.
#[verifier::external_body]
pub(crate) fn gt_add(a: &GtElem, b: &GtElem) -> (r: GtElem)
    requires
        a.wf(),
        b.wf(),
    ensures
        r.wf(),
        r.dlog@ == addmod(a.dlog@, b.dlog@),
{
    GtElem { elem: GtRepr { inner: a.elem.inner + b.elem.inner }, dlog: ghost_slot() }
}

/// Relies on `Sub` on `PairingOutput`: the inverse GT group operation,
/// which subtracts discrete logarithms modulo the group order.
#[verifier::external_body]
pub(crate) fn gt_sub(a: &GtElem, b: &GtElem) -> (r: GtElem)
    requires
        a.wf(),
        b.wf(),
    ensures
        r.wf(),
        r.dlog@ == submod(a.dlog@, b.dlog@),
{
    GtElem { elem: GtRepr { inner: a.elem.inner - b.elem.inner }, dlog: ghost_slot() }
}

/// Relies on `PartialEq` on `PairingOutput`: in a cyclic group of prime
/// order, elements are equal exactly when their discrete logarithms agree.
#[verifier::external_body]
pub(crate) fn gt_eq(a: &GtElem, b: &GtElem) -> (r: bool)
    requires
        a.wf(),
        b.wf(),
    ensures
        r <==> a.dlog@ == b.dlog@,
{
    a.elem.inner == b.elem.inner
}

/// Relies on `Fq::from_be_bytes_mod_order`, `G1Affine::new_unchecked`,
/// `Affine::is_on_curve` and `is_in_correct_subgroup_assuming_on_curve`:
/// reads big-endian affine coordinates and accepts the point only when
/// it passes both validity checks. Every step is a deterministic
/// function of the bytes, so the verdict and the accepted point are the
/// named `g1_coords_point` of them. BN254's G1 has cofactor one, so an
/// accepted point lies in the group and has a discrete logarithm.
#[verifier::external_body]
pub(crate) fn g1_from_coords(xb: &Vec<u8>, yb: &Vec<u8>) -> (r: Option<G1Elem>)
    ensures
        r is Some <==> g1_coords_point(xb@, yb@) is Some,
        r matches Some(p) ==> p.wf() && g1_coords_point(xb@, yb@) == Some(p.dlog@),
{
    let x = Fq::from_be_bytes_mod_order(xb.as_slice());
    let y = Fq::from_be_bytes_mod_order(yb.as_slice());
    let a = G1Affine::new_unchecked(x, y);
    if a.is_on_curve() && a.is_in_correct_subgroup_assuming_on_curve() {
        Some(G1Elem { point: G1Repr { inner: a.into_group() }, dlog: ghost_slot() })
    } else {
        None
    }
}

impl Scalar {
    /// The scalar with the given small integer value.
    pub fn from_u64(x: u64) -> (r: Scalar)
        ensures
            r.wf(),
            r.v@ == x as int,
    {
        let r = scalar_from_u64(x);
        assert(is_residue(x as int));
        r
    }
}

impl G1Elem {
    /// The identity element of G1.
    pub fn zero() -> (r: G1Elem)
        ensures
            r.wf(),
            r.dlog@ == 0,
    {
        g1_zero_point()
    }

    /// Scalar multiplication: the element taken `s` times.
    pub fn mul_scalar(&self, s: &Scalar) -> (r: G1Elem)
        requires
            self.wf(),
            s.wf(),
        ensures
            r.wf(),
            r.dlog@ == mulmod(self.dlog@, s.v@),
    {
        g1_mul(self, s)
    }

    /// The group operation: the sum of the two elements.
    pub fn add_elem(&self, other: &G1Elem) -> (r: G1Elem)
        requires
            self.wf(),
            other.wf(),
        ensures
            r.wf(),
            r.dlog@ == addmod(self.dlog@, other.dlog@),
    {
        g1_add(self, other)
    }

    /// Whether the two elements are the same group element.
    pub fn eq_elem(&self, other: &G1Elem) -> (r: bool)
        requires
            self.wf(),
            other.wf(),
        ensures
            r <==> self.dlog@ == other.dlog@,
    {
        g1_eq(self, other)
    }

    /// The element's compressed wire encoding.
    pub fn into_bytes(&self) -> (r: Vec<u8>)
        requires
            self.wf(),
        ensures
            r@ == g1_bytes_of(self.dlog@),
    {
        g1_serialize(self)
    }
}

impl G2Elem {
    /// Scalar multiplication: the element taken `s` times.
    pub fn mul_scalar(&self, s: &Scalar) -> (r: G2Elem)
        requires
            self.wf(),
            s.wf(),
        ensures
            r.wf(),
            r.dlog@ == mulmod(self.dlog@, s.v@),
    {
        g2_mul(self, s)
    }

    /// Whether the two elements are the same group element.
    pub fn eq_elem(&self, other: &G2Elem) -> (r: bool)
        requires
            self.wf(),
            other.wf(),
        ensures
            r <==> self.dlog@ == other.dlog@,
    {
        g2_eq(self, other)
    }

    /// The element's compressed wire encoding.
    pub fn into_bytes(&self) -> (r: Vec<u8>)
        requires
            self.wf(),
        ensures
            r@ == g2_bytes_of(self.dlog@),
    {
        g2_serialize(self)
    }
}

impl GtElem {
    /// Whether the two elements are the same group element.
    pub fn eq_elem(&self, other: &GtElem) -> (r: bool)
        requires
            self.wf(),
            other.wf(),
        ensures
            r <==> self.dlog@ == other.dlog@,
    {
        gt_eq(self, other)
    }
}

/// The bilinear pairing e: G1 x G2 -> GT.
pub fn pairing(p: &G1Elem, q: &G2Elem) -> (r: GtElem)
    requires
        p.wf(),
        q.wf(),
    ensures
        r.wf(),
        r.dlog@ == mulmod(p.dlog@, q.dlog@),
{
    pairing_points(p, q)
}

} // verus!
