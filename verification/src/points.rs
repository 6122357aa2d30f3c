//! Curve points of the commitment group, represented by canonical encodings.
//!
//! A `PointB` holds the canonical 32-byte compressed encoding of an affine
//! Pallas point (the sign of the y-coordinate packed into the top bit of the
//! x-coordinate; the group identity encodes as 32 zero bytes).  Group
//! arithmetic is delegated to `pasta_curves` through trusted wrappers whose
//! results are pinned by uninterpreted functions of the encodings.

use vstd::prelude::*;
use ff::PrimeField;
use group::{Curve, Group, GroupEncoding};
use group::prime::PrimeCurveAffine;
use pasta_curves::pallas;

use crate::fields::FieldB;

verus! {

/// Canonical encoding of the sum of the points with these two encodings.
pub uninterp spec fn pt_add_of(a: Seq<u8>, b: Seq<u8>) -> Seq<u8>;

/// Canonical encoding of the scalar multiple `s * P` of the point encoded by
/// `p`, where `s` is the field B element with canonical bytes `s_bytes`.
pub uninterp spec fn pt_mul_of(s_bytes: Seq<u8>, p: Seq<u8>) -> Seq<u8>;

/// Canonical encoding of `s * G` for the fixed group generator `G`.
pub uninterp spec fn gen_mul_of(s_bytes: Seq<u8>) -> Seq<u8>;

/// Whether 32 bytes are the canonical encoding of some point.
pub uninterp spec fn is_pt_enc(b: Seq<u8>) -> bool;

/// The canonical encoding of the group identity.
pub open spec fn pt_id() -> Seq<u8> {
    Seq::new(32, |i: int| 0u8)
}

/// A point of the commitment group, as its canonical 32-byte encoding.
#[derive(Clone, Copy, PartialEq, Eq, Debug)]
pub struct PointB {
    bytes: [u8; 32],
}

impl View for PointB {
    type V = Seq<u8>;

    closed spec fn view(&self) -> Seq<u8> {
        self.bytes@
    }
}

impl DeepView for PointB {
    type V = Seq<u8>;

    open spec fn deep_view(&self) -> Seq<u8> {
        self.view()
    }
}

impl PointB {
    /// Every value of this type is a canonical encoding; the constructors
    /// below are trusted to establish this.
    #[verifier::type_invariant]
    pub closed spec fn wf(self) -> bool {
        is_pt_enc(self.bytes@)
    }

    /// The canonical encoding of this point.  A valid encoding comes out of
    /// every value, so decoding it succeeds and returns this point again.
    pub fn encode(&self) -> (r: [u8; 32])
        ensures
            r@ == self@,
            is_pt_enc(self@),
    {
        proof {
            use_type_invariant(self);
        }
        self.bytes
    }
}

/// Relies on `group::Group::identity` and `GroupEncoding::to_bytes` for
/// Pallas: the identity encodes as 32 zero bytes.
#[verifier::external_body]
pub(crate) fn pt_identity() -> (r: PointB)
    ensures
        r@ == pt_id(),
{
    PointB { bytes: pallas::Point::identity().to_affine().to_bytes() }
}

/// Relies on point addition for Pallas (`core::ops::Add` on the group):
/// commutative, with the identity (encoded as 32 zero bytes) neutral, and
/// canonical re-encoding of the sum.
#[verifier::external_body]
pub(crate) fn pt_add(a: &PointB, b: &PointB) -> (r: PointB)
    ensures
        r@ == pt_add_of(a@, b@),
        r@ == pt_add_of(b@, a@),
        a@ == pt_id() ==> r@ == b@,
        b@ == pt_id() ==> r@ == a@,
{
    let pa = pallas::Affine::from_bytes(&a.bytes).unwrap();
    let pb = pallas::Affine::from_bytes(&b.bytes).unwrap();
    PointB { bytes: (pa.to_curve() + pb.to_curve()).to_affine().to_bytes() }
}

/// Relies on point doubling for Pallas (`Group::double`): the double of a
/// point is the point added to itself.
#[verifier::external_body]
pub(crate) fn pt_double(p: &PointB) -> (r: PointB)
    ensures
        r@ == pt_add_of(p@, p@),
{
    let pp = pallas::Affine::from_bytes(&p.bytes).unwrap();
    PointB { bytes: pp.to_curve().double().to_affine().to_bytes() }
}

/// Relies on scalar multiplication for Pallas (`core::ops::Mul` by a scalar
/// field element): multiplying by the scalar with canonical bytes `s`.
#[verifier::external_body]
pub(crate) fn pt_mul(s: &FieldB, p: &PointB) -> (r: PointB)
    ensures
        r@ == pt_mul_of(s@, p@),
{
    let sc = pasta_curves::pallas::Scalar::from_repr(s.to_bytes()).unwrap();
    let pp = pallas::Affine::from_bytes(&p.bytes).unwrap();
    PointB { bytes: (pp.to_curve() * sc).to_affine().to_bytes() }
}

/// Relies on `PrimeCurveAffine::generator` and scalar multiplication for
/// Pallas: the scalar multiple of the fixed generator.
#[verifier::external_body]
pub(crate) fn gen_mul(s: &FieldB) -> (r: PointB)
    ensures
        r@ == gen_mul_of(s@),
{
    let sc = pasta_curves::pallas::Scalar::from_repr(s.to_bytes()).unwrap();
    let g = pallas::Affine::generator();
    PointB { bytes: (g.to_curve() * sc).to_affine().to_bytes() }
}

/// What decoding 32 bytes yields: the bytes themselves, as the canonical
/// encoding of the decoded point, exactly when they encode a point.
pub open spec fn decode_spec(b: Seq<u8>) -> Option<Seq<u8>> {
    if is_pt_enc(b) {
        Some(b)
    } else {
        None
    }
}

/// Decode a point from its 32-byte compressed encoding.  Relies on
/// `GroupEncoding::from_bytes` for Pallas: it succeeds exactly on canonical
/// encodings, and the decoded point re-encodes to the input bytes.
#[verifier::external_body]
pub fn decode_point(bytes: &[u8; 32]) -> (r: Option<PointB>)
    ensures
        (r is Some) <==> is_pt_enc(bytes@),
        r matches Some(p) ==> p@ == bytes@,
        r matches Some(p) ==> decode_spec(bytes@) == Some(p@),
{
    let dec: Option<pallas::Affine> = pallas::Affine::from_bytes(bytes).into();
    match dec {
        Some(_) => Some(PointB { bytes: *bytes }),
        None => None,
    }
}

/// Encode a point to its canonical 32-byte compressed representation.
pub fn encode_point(p: &PointB) -> (r: [u8; 32])
    ensures
        r@ == p@,
        is_pt_enc(p@),
{
    p.encode()
}

/// Add two points.
pub fn add_points(a: &PointB, b: &PointB) -> (r: PointB)
    ensures
        r@ == pt_add_of(a@, b@),
{
    pt_add(a, b)
}

/// Scalar-multiply a point by a field B scalar.
pub fn mul_point(a: &PointB, s: &FieldB) -> (r: PointB)
    ensures
        r@ == pt_mul_of(s@, a@),
{
    pt_mul(s, a)
}

/// Encoding round trip: decoding a valid canonical encoding gives back
/// exactly the encoded point.  `PointB::encode` ensures its result is such
/// an encoding, so decoding what any point hands out returns that point.
pub proof fn lemma_decode_roundtrip(b: Seq<u8>)
    requires
        is_pt_enc(b),
    ensures
        decode_spec(b) == Some(b),
{
}

} // verus!
