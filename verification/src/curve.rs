//! Scalars and points of secp256k1, modelled by their values in the scalar
//! field.
//!
//! The group of secp256k1 points is cyclic of prime order `q` with generator
//! `g`, so every point is `k * g` for exactly one `k < q` and the maps between
//! points and their discrete logarithms are bijections.  A `CurvePoint` is
//! modelled by that `k` (`0` for the identity) and a `CurveScalar` by its
//! value modulo `q`; the arithmetic itself is performed by the `k256` crate
//! behind trusted wrappers whose contracts state what each operation does to
//! the model: point addition adds discrete logarithms, scalar multiplication
//! multiplies them, and the compressed SEC1 encoding of a non-identity point
//! is a bijection named `point_bytes` / `point_of_bytes`.

use crate::math::{be_bytes_of, mod_sub, nat_of_be, q};
use k256::elliptic_curve::group::GroupEncoding;
use k256::elliptic_curve::ops::Reduce;
use k256::elliptic_curve::sec1::{FromEncodedPoint, ToEncodedPoint};
use k256::elliptic_curve::Field;
use k256::elliptic_curve::PrimeField;
use rand_core::OsRng;
use vstd::prelude::*;

verus! {

#[verifier::external_type_specification]
#[verifier::external_body]
pub struct ExScalar(k256::Scalar);

#[verifier::external_type_specification]
#[verifier::external_body]
pub struct ExProjectivePoint(k256::ProjectivePoint);

/// A scalar modulo the secp256k1 group order; its model is its value.
#[derive(Clone, Copy)]
pub struct CurveScalar {
    inner: k256::Scalar,
    value: Ghost<nat>,
}

/// A point of the secp256k1 group; its model is its discrete logarithm with
/// respect to the generator (`0` for the identity).
#[derive(Clone, Copy)]
pub struct CurvePoint {
    inner: k256::ProjectivePoint,
    dlog: Ghost<nat>,
}

impl View for CurveScalar {
    type V = nat;

    closed spec fn view(&self) -> nat {
        self.value@
    }
}

impl View for CurvePoint {
    type V = nat;

    closed spec fn view(&self) -> nat {
        self.dlog@
    }
}

impl CurveScalar {
    #[verifier::type_invariant]
    pub(crate) open spec fn type_inv(self) -> bool {
        self@ < q()
    }
}

impl CurvePoint {
    #[verifier::type_invariant]
    pub(crate) open spec fn type_inv(self) -> bool {
        self@ < q()
    }
}

/// The compressed SEC1 encoding (33 bytes) of the non-identity point with
/// discrete logarithm `k`.
pub uninterp spec fn point_bytes(k: nat) -> Seq<u8>;

/// The discrete logarithm of the non-identity point whose compressed SEC1
/// encoding a 33-byte string is, or `None` where it encodes no such point.
pub uninterp spec fn point_of_bytes(b: Seq<u8>) -> Option<nat>;

/// Relies on `k256::Scalar`'s `Field::random` (rejection sampling): a
/// scalar sampled from a cryptographic generator; any value below `q` may
/// come back.
#[verifier::external_body]
pub fn random_scalar() -> (r: CurveScalar)
    ensures
        r@ < q(),
{
    CurveScalar { inner: k256::Scalar::random(&mut OsRng), value: Ghost(arbitrary()) }
}

/// Relies on `k256::NonZeroScalar::random`: a scalar sampled from a
/// cryptographic generator, never zero.
#[verifier::external_body]
pub(crate) fn random_nonzero_scalar() -> (r: CurveScalar)
    ensures
        0 < r@ < q(),
{
    let nz = k256::NonZeroScalar::random(&mut OsRng);
    CurveScalar { inner: *nz.as_ref(), value: Ghost(arbitrary()) }
}

/// Relies on `k256::Scalar::to_bytes`: the 32-byte big-endian encoding of the
/// value.
#[verifier::external_body]
pub fn scalar_to_bytes(s: &CurveScalar) -> (r: Vec<u8>)
    ensures
        r@ == be_bytes_of(s@, 32),
        r@.len() == 32,
{
    s.inner.to_bytes().to_vec()
}

/// Relies on `k256::Scalar::from_repr`: accepts exactly the 32-byte
/// big-endian encodings of values below `q`.
#[verifier::external_body]
pub fn bytes_to_scalar(b: &[u8]) -> (r: Option<CurveScalar>)
    ensures
        match r {
            Some(s) => b@.len() == 32 && s@ == nat_of_be(b@) && s@ < q(),
            None => b@.len() != 32 || nat_of_be(b@) >= q(),
        },
{
    if b.len() != 32 {
        return None;
    }
    let ct = k256::Scalar::from_repr(*k256::FieldBytes::from_slice(b));
    if bool::from(ct.is_some()) {
        Some(CurveScalar { inner: ct.unwrap(), value: Ghost(arbitrary()) })
    } else {
        None
    }
}

/// Relies on `k256::Scalar::reduce_bytes`: reduces a 32-byte big-endian
/// integer modulo `q`.
#[verifier::external_body]
pub(crate) fn scalar_reduce_bytes(b: &[u8]) -> (r: CurveScalar)
    requires
        b@.len() == 32,
    ensures
        r@ == nat_of_be(b@) % q(),
{
    let s = <k256::Scalar as Reduce<k256::U256>>::reduce_bytes(k256::FieldBytes::from_slice(b));
    CurveScalar { inner: s, value: Ghost(arbitrary()) }
}

/// Relies on `k256::Scalar`'s `Add`: addition modulo `q`.
#[verifier::external_body]
pub(crate) fn scalar_add(a: &CurveScalar, b: &CurveScalar) -> (r: CurveScalar)
    ensures
        r@ == (a@ + b@) % q(),
{
    CurveScalar { inner: a.inner + b.inner, value: Ghost(arbitrary()) }
}

/// Relies on `k256::Scalar`'s `Sub`: subtraction modulo `q`.
#[verifier::external_body]
pub(crate) fn scalar_sub(a: &CurveScalar, b: &CurveScalar) -> (r: CurveScalar)
    ensures
        r@ == mod_sub(a@, b@),
{
    CurveScalar { inner: a.inner - b.inner, value: Ghost(arbitrary()) }
}

/// Relies on `k256::Scalar`'s `Mul`: multiplication modulo `q`.  `q` is
/// prime, so a product of nonzero factors is nonzero.
#[verifier::external_body]
pub(crate) fn scalar_mul(a: &CurveScalar, b: &CurveScalar) -> (r: CurveScalar)
    ensures
        r@ == (a@ * b@) % q(),
        a@ != 0 && b@ != 0 ==> r@ != 0,
{
    CurveScalar { inner: a.inner * b.inner, value: Ghost(arbitrary()) }
}

/// Relies on `k256::Scalar::invert`: the multiplicative inverse modulo `q` of
/// a nonzero scalar.
#[verifier::external_body]
pub(crate) fn scalar_invert(a: &CurveScalar) -> (r: CurveScalar)
    requires
        a@ != 0,
    ensures
        (a@ * r@) % q() == 1,
        r@ < q(),
{
    CurveScalar { inner: a.inner.invert().unwrap(), value: Ghost(arbitrary()) }
}

/// Relies on `k256::Scalar::is_zero`.
#[verifier::external_body]
pub(crate) fn scalar_is_zero(a: &CurveScalar) -> (r: bool)
    ensures
        r == (a@ == 0),
{
    bool::from(a.inner.is_zero())
}

/// Relies on `k256::Scalar`'s constant-time equality: scalars are equal
/// exactly when their values are.
#[verifier::external_body]
pub(crate) fn scalar_eq(a: &CurveScalar, b: &CurveScalar) -> (r: bool)
    ensures
        r == (a@ == b@),
{
    a.inner == b.inner
}

/// Relies on `k256::Scalar::ONE`.
#[verifier::external_body]
pub(crate) fn scalar_one() -> (r: CurveScalar)
    ensures
        r@ == 1,
{
    CurveScalar { inner: k256::Scalar::ONE, value: Ghost(arbitrary()) }
}

/// Relies on `k256::Scalar::ZERO`.
#[verifier::external_body]
pub(crate) fn scalar_zero() -> (r: CurveScalar)
    ensures
        r@ == 0,
{
    CurveScalar { inner: k256::Scalar::ZERO, value: Ghost(arbitrary()) }
}

/// Relies on `k256::ProjectivePoint::GENERATOR`: the generator, of discrete
/// logarithm one.
#[verifier::external_body]
pub fn point_generator() -> (r: CurvePoint)
    ensures
        r@ == 1,
{
    CurvePoint { inner: k256::ProjectivePoint::GENERATOR, dlog: Ghost(arbitrary()) }
}

/// Relies on `k256::ProjectivePoint::IDENTITY`: the identity, of discrete
/// logarithm zero.
#[verifier::external_body]
pub(crate) fn point_identity() -> (r: CurvePoint)
    ensures
        r@ == 0,
{
    CurvePoint { inner: k256::ProjectivePoint::IDENTITY, dlog: Ghost(arbitrary()) }
}

/// Relies on `k256::ProjectivePoint`'s `Add`: the group law, which adds
/// discrete logarithms modulo `q`.
#[verifier::external_body]
pub fn point_add(a: &CurvePoint, b: &CurvePoint) -> (r: CurvePoint)
    ensures
        r@ == (a@ + b@) % q(),
{
    CurvePoint { inner: a.inner + b.inner, dlog: Ghost(arbitrary()) }
}

/// Relies on `k256::ProjectivePoint`'s `Mul<Scalar>`: scalar multiplication,
/// which multiplies the discrete logarithm by the scalar modulo `q`.  The
/// group order is prime, so a nonzero multiple of a non-identity point is not
/// the identity.
#[verifier::external_body]
pub(crate) fn point_mul(p: &CurvePoint, s: &CurveScalar) -> (r: CurvePoint)
    ensures
        r@ == (p@ * s@) % q(),
        p@ != 0 && s@ != 0 ==> r@ != 0,
{
    CurvePoint { inner: p.inner * s.inner, dlog: Ghost(arbitrary()) }
}

/// Relies on `k256::ProjectivePoint`'s constant-time equality: points are
/// equal exactly when their discrete logarithms are.
#[verifier::external_body]
pub(crate) fn point_eq(a: &CurvePoint, b: &CurvePoint) -> (r: bool)
    ensures
        r == (a@ == b@),
{
    a.inner == b.inner
}

/// Relies on `elliptic_curve::group::Group::is_identity`.
#[verifier::external_body]
pub(crate) fn point_is_identity(p: &CurvePoint) -> (r: bool)
    ensures
        r == (p@ == 0),
{
    p.inner == k256::ProjectivePoint::IDENTITY
}

/// Relies on `ToEncodedPoint::to_encoded_point` with compression: the
/// canonical 33-byte SEC1 encoding of a non-identity point, which decodes
/// back to the same point.
#[verifier::external_body]
pub fn point_to_bytes(p: &CurvePoint) -> (r: Vec<u8>)
    requires
        p@ != 0,
    ensures
        r@ == point_bytes(p@),
        r@.len() == 33,
        point_of_bytes(r@) == Some(p@),
{
    p.inner.to_affine().to_encoded_point(true).as_bytes().to_vec()
}

/// Relies on `k256::EncodedPoint::from_bytes` and
/// `FromEncodedPoint::from_encoded_point`: a 33-byte string with a
/// compressed tag decodes to the unique non-identity point it is the
/// compressed SEC1 encoding of, and re-encoding that point gives the same
/// bytes; strings with any other tag, or that encode no point on the
/// curve, are rejected.
#[verifier::external_body]
fn decode_point33(b: &[u8]) -> (r: Option<CurvePoint>)
    requires
        b@.len() == 33,
    ensures
        match r {
            Some(p) => point_of_bytes(b@) == Some(p@) && 0 < p@ < q() && point_bytes(p@) == b@,
            None => point_of_bytes(b@) is None,
        },
{
    if b[0] != 2 && b[0] != 3 {
        return None;
    }
    let ep = k256::EncodedPoint::from_bytes(b).ok()?;
    let ct = k256::ProjectivePoint::from_encoded_point(&ep);
    if bool::from(ct.is_some()) && ct.unwrap() != k256::ProjectivePoint::IDENTITY {
        Some(CurvePoint { inner: ct.unwrap(), dlog: Ghost(arbitrary()) })
    } else {
        None
    }
}

/// Decodes a compressed SEC1 point: exactly the 33-byte encodings of
/// non-identity points on the curve are accepted.
pub fn bytes_to_point(b: &[u8]) -> (r: Option<CurvePoint>)
    ensures
        match r {
            Some(p) => b@.len() == 33 && point_of_bytes(b@) == Some(p@) && 0 < p@ < q()
                && point_bytes(p@) == b@,
            None => b@.len() != 33 || point_of_bytes(b@) is None,
        },
{
    if b.len() != 33 {
        return None;
    }
    decode_point33(b)
}

} // verus!
