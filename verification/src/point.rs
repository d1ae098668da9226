//! Points of the secp256k1 group, carried as SEC1 compressed encodings: 33
//! bytes with a tag of 2 or 3 for an ordinary point, a single zero byte for
//! the identity. The group operations are performed by the `k256` crate
//! behind trusted wrappers; their results are named, since the group law
//! has no short statement, and every contract over them is exact up to
//! those names.
use vstd::prelude::*;

use crate::scalar::{be_val, group_order, scalar_valid};
use k256::ecdsa::signature::hazmat::PrehashVerifier;
use k256::elliptic_curve::bigint::U256;
use k256::elliptic_curve::ops::{MulByGenerator, Reduce};
use k256::elliptic_curve::sec1::{FromEncodedPoint, ToEncodedPoint};
use k256::{AffinePoint, ProjectivePoint, Scalar};

verus! {

/// The secp256k1 point type of `k256`, opaque to this library: all logic
/// works on SEC1 encodings, and this type only carries a decoded key out.
#[verifier::external_type_specification]
#[verifier::external_body]
pub struct ExProjectivePoint(ProjectivePoint);

/// Whether a byte string is a SEC1 encoding of a secp256k1 point.
pub uninterp spec fn point_valid(p: Seq<u8>) -> bool;

/// The compressed encoding of the sum of two points, given by their
/// encodings.
pub uninterp spec fn pt_add(a: Seq<u8>, b: Seq<u8>) -> Seq<u8>;

/// The compressed encoding of a scalar multiple of a point, given by the
/// scalar's value and the point's encoding.
pub uninterp spec fn pt_mul(s: nat, p: Seq<u8>) -> Seq<u8>;

/// The compressed encoding of a scalar multiple of the group's generator,
/// given by the scalar's value.
pub uninterp spec fn gen_mul(s: nat) -> Seq<u8>;

/// Tests whether a byte string is a SEC1 encoding of a point.
///
/// Relies on `k256::EncodedPoint::from_bytes` and
/// `k256::AffinePoint::from_encoded_point`, which together accept exactly
/// the well-formed SEC1 encodings of curve points.
#[verifier::external_body]
pub fn point_check(p: &Vec<u8>) -> (r: bool)
    ensures
        r == point_valid(p@),
{
    match k256::EncodedPoint::from_bytes(p) {
        Ok(enc) => bool::from(AffinePoint::from_encoded_point(&enc).is_some()),
        Err(_) => false,
    }
}

/// The compressed encoding of the identity point, a single zero byte.
///
/// Relies on `k256::ProjectivePoint::IDENTITY` and SEC1 encoding: the
/// identity encodes as the one-byte string zero, and decodes back.
#[verifier::external_body]
pub fn identity_encoding() -> (r: Vec<u8>)
    ensures
        r@ == seq![0u8],
        point_valid(r@),
{
    ProjectivePoint::IDENTITY.to_affine().to_encoded_point(true).as_bytes().to_vec()
}

/// Adds two points given by their encodings; fails exactly when an encoding
/// is invalid.
///
/// Relies on `k256::ProjectivePoint::add` and the SEC1 conversions around
/// it: the result re-encodes compressed, and every produced encoding is
/// itself valid.
#[verifier::external_body]
pub fn point_add(a: &Vec<u8>, b: &Vec<u8>) -> (r: Option<Vec<u8>>)
    ensures
        (r is Some) == (point_valid(a@) && point_valid(b@)),
        r matches Some(c) ==> c@ == pt_add(a@, b@) && point_valid(c@),
{
    let pa = k256::EncodedPoint::from_bytes(a).ok()
        .and_then(|e| Option::<AffinePoint>::from(AffinePoint::from_encoded_point(&e)))?;
    let pb = k256::EncodedPoint::from_bytes(b).ok()
        .and_then(|e| Option::<AffinePoint>::from(AffinePoint::from_encoded_point(&e)))?;
    let sum = ProjectivePoint::from(pa) + ProjectivePoint::from(pb);
    Some(sum.to_affine().to_encoded_point(true).as_bytes().to_vec())
}

/// Multiplies a point, given by its encoding, by a scalar given by its
/// canonical encoding; fails exactly when the point encoding is invalid.
///
/// Relies on `k256::ProjectivePoint::mul` and the SEC1 conversions around
/// it.
#[verifier::external_body]
pub fn point_mul(s: &[u8; 32], p: &Vec<u8>) -> (r: Option<Vec<u8>>)
    requires
        scalar_valid(s@),
    ensures
        (r is Some) == point_valid(p@),
        r matches Some(c) ==> c@ == pt_mul(be_val(s@), p@) && point_valid(c@),
{
    let sc = <Scalar as Reduce<U256>>::reduce_bytes(&(*s).into());
    let pp = k256::EncodedPoint::from_bytes(p).ok()
        .and_then(|e| Option::<AffinePoint>::from(AffinePoint::from_encoded_point(&e)))?;
    let prod = ProjectivePoint::from(pp) * sc;
    Some(prod.to_affine().to_encoded_point(true).as_bytes().to_vec())
}

/// Multiplies the group generator by a scalar given by its canonical
/// encoding.
///
/// Relies on `k256::ProjectivePoint::mul_by_generator` and the SEC1
/// conversions around it; a non-zero scalar gives an ordinary point, whose
/// compressed encoding is 33 bytes, because the generator's order is the
/// group order.
#[verifier::external_body]
pub fn generator_mul(s: &[u8; 32]) -> (r: Vec<u8>)
    requires
        scalar_valid(s@),
    ensures
        r@ == gen_mul(be_val(s@)),
        point_valid(r@),
        be_val(s@) != 0 ==> r@.len() == 33,
{
    let sc = <Scalar as Reduce<U256>>::reduce_bytes(&(*s).into());
    ProjectivePoint::mul_by_generator(&sc).to_affine().to_encoded_point(true).as_bytes().to_vec()
}

/// Whether the standard ECDSA verification of signature `(r, s)` on the
/// 32-byte prehashed message `m` under the SEC1-encoded public key succeeds.
pub uninterp spec fn ecdsa_verifies(pk: Seq<u8>, m: Seq<u8>, r: Seq<u8>, s: Seq<u8>) -> bool;

/// Runs standard ECDSA verification of `(r, s)` over the prehash `m` under
/// a SEC1-encoded public key.
///
/// Relies on `k256::ecdsa::VerifyingKey::verify_prehash` together with the
/// key and signature parsers around it; the outcome is a function of the
/// four inputs alone, and any parse failure counts as rejection.
#[verifier::external_body]
pub fn ecdsa_verify(pk: &Vec<u8>, m: &[u8; 32], r: &[u8; 32], s: &[u8; 32]) -> (ok: bool)
    ensures
        ok == ecdsa_verifies(pk@, m@, r@, s@),
{
    let key = match k256::ecdsa::VerifyingKey::from_sec1_bytes(pk) {
        Ok(k) => k,
        Err(_) => return false,
    };
    let sig = match k256::ecdsa::Signature::from_scalars(
        k256::FieldBytes::from(*r),
        k256::FieldBytes::from(*s),
    ) {
        Ok(sg) => sg,
        Err(_) => return false,
    };
    key.verify_prehash(m, &sig).is_ok()
}

/// The ASN.1 DER rendering of the signature `(r, s)`.
pub uninterp spec fn der_of(r: Seq<u8>, s: Seq<u8>) -> Seq<u8>;

/// Renders a signature in ASN.1 DER.
///
/// Relies on `k256::ecdsa::Signature::from_scalars` and `to_der`; the
/// rendering is a function of the two scalars, and `from_scalars` accepts
/// exactly the canonical non-zero pairs, which the contract requires.
#[verifier::external_body]
pub fn signature_to_der(r: &[u8; 32], s: &[u8; 32]) -> (d: Vec<u8>)
    requires
        scalar_valid(r@),
        scalar_valid(s@),
        be_val(r@) != 0,
        be_val(s@) != 0,
    ensures
        d@ == der_of(r@, s@),
{
    let sig = k256::ecdsa::Signature::from_scalars(
        k256::FieldBytes::from(*r),
        k256::FieldBytes::from(*s),
    )
    .expect("canonical non-zero scalars form a signature");
    sig.to_der().as_bytes().to_vec()
}

} // verus!
