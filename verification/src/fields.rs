//! The two scalar fields of the curve cycle, represented by canonical bytes.
//!
//! Field A (the Vesta scalar field) hosts polynomial roots and coefficients;
//! field B (the Pallas scalar field) hosts commitment scalars.  A value of
//! either type holds the canonical 32-byte little-endian representation of
//! the element, so equality of elements is equality of bytes.  All arithmetic
//! is delegated to the `pasta_curves` implementations of the `ff` traits
//! through trusted wrappers; the result of each operation is pinned by an
//! uninterpreted function of the operand bytes.

use vstd::prelude::*;
use ff::{Field, PrimeField};
use pasta_curves::vesta::Scalar as ScalarA;
use pasta_curves::pallas::Scalar as ScalarB;

verus! {

/// Canonical bytes of the field A element `x mod p_A`, for a small integer `x`.
pub uninterp spec fn fa_of_u64(x: u64) -> Seq<u8>;

/// Canonical bytes of the sum of the two field A elements with these bytes.
pub uninterp spec fn fa_add_of(a: Seq<u8>, b: Seq<u8>) -> Seq<u8>;

/// Canonical bytes of the difference of the two field A elements.
pub uninterp spec fn fa_sub_of(a: Seq<u8>, b: Seq<u8>) -> Seq<u8>;

/// Canonical bytes of the product of the two field A elements.
pub uninterp spec fn fa_mul_of(a: Seq<u8>, b: Seq<u8>) -> Seq<u8>;

/// Canonical bytes of the additive inverse of the field A element.
pub uninterp spec fn fa_neg_of(a: Seq<u8>) -> Seq<u8>;

/// Canonical bytes of the multiplicative inverse of a nonzero field A element.
pub uninterp spec fn fa_inv_of(a: Seq<u8>) -> Seq<u8>;

/// Canonical bytes of the field B element `x mod p_B`, for a small integer `x`.
pub uninterp spec fn fb_of_u64(x: u64) -> Seq<u8>;

/// Canonical bytes of the additive inverse of the field B element.
pub uninterp spec fn fb_neg_of(a: Seq<u8>) -> Seq<u8>;

/// Canonical bytes of the field A element obtained by wide reduction of 64
/// uniform bytes.
pub uninterp spec fn fa_wide_of(wide: Seq<u8>) -> Seq<u8>;

/// Canonical bytes of the field B element obtained by wide reduction of 64
/// uniform bytes.
pub uninterp spec fn fb_wide_of(wide: Seq<u8>) -> Seq<u8>;

/// An element of field A, as its canonical 32-byte representation.
#[derive(Clone, Copy, PartialEq, Eq, Debug)]
pub struct FieldA {
    bytes: [u8; 32],
}

/// An element of field B, as its canonical 32-byte representation.
#[derive(Clone, Copy, PartialEq, Eq, Debug)]
pub struct FieldB {
    bytes: [u8; 32],
}

impl View for FieldA {
    type V = Seq<u8>;

    closed spec fn view(&self) -> Seq<u8> {
        self.bytes@
    }
}

impl DeepView for FieldA {
    type V = Seq<u8>;

    open spec fn deep_view(&self) -> Seq<u8> {
        self.view()
    }
}

impl View for FieldB {
    type V = Seq<u8>;

    closed spec fn view(&self) -> Seq<u8> {
        self.bytes@
    }
}

impl DeepView for FieldB {
    type V = Seq<u8>;

    open spec fn deep_view(&self) -> Seq<u8> {
        self.view()
    }
}

/// Relies on `ff::PrimeField::from_u128` / `From<u64>` for the Vesta scalar
/// field: the canonical element for a small integer, injectively for small
/// inputs, so a nonzero `u64` never maps to the zero element.
#[verifier::external_body]
pub(crate) fn fa_from_u64(x: u64) -> (r: FieldA)
    ensures
        r@ == fa_of_u64(x),
        x != 0 ==> r@ != fa_of_u64(0),
{
    FieldA { bytes: ScalarA::from(x).to_repr() }
}

/// Relies on `ff::Field` addition for the Vesta scalar field: commutative,
/// with `from(0)` as the neutral element.
#[verifier::external_body]
pub(crate) fn fa_add(a: &FieldA, b: &FieldA) -> (r: FieldA)
    ensures
        r@ == fa_add_of(a@, b@),
        r@ == fa_add_of(b@, a@),
        a@ == fa_of_u64(0) ==> r@ == b@,
        b@ == fa_of_u64(0) ==> r@ == a@,
{
    let x = ScalarA::from_repr(a.bytes).unwrap();
    let y = ScalarA::from_repr(b.bytes).unwrap();
    FieldA { bytes: (x + y).to_repr() }
}

/// Relies on `ff::Field` subtraction for the Vesta scalar field:
/// `a - 0 == a`, and `a - a == 0`.
#[verifier::external_body]
pub(crate) fn fa_sub(a: &FieldA, b: &FieldA) -> (r: FieldA)
    ensures
        r@ == fa_sub_of(a@, b@),
        b@ == fa_of_u64(0) ==> r@ == a@,
        a@ == b@ ==> r@ == fa_of_u64(0),
{
    let x = ScalarA::from_repr(a.bytes).unwrap();
    let y = ScalarA::from_repr(b.bytes).unwrap();
    FieldA { bytes: (x - y).to_repr() }
}

/// Relies on `ff::Field` multiplication for the Vesta scalar field:
/// commutative, with `from(1)` neutral and `from(0)` absorbing.
#[verifier::external_body]
pub(crate) fn fa_mul(a: &FieldA, b: &FieldA) -> (r: FieldA)
    ensures
        r@ == fa_mul_of(a@, b@),
        r@ == fa_mul_of(b@, a@),
        a@ == fa_of_u64(1) ==> r@ == b@,
        b@ == fa_of_u64(1) ==> r@ == a@,
        a@ == fa_of_u64(0) ==> r@ == fa_of_u64(0),
        b@ == fa_of_u64(0) ==> r@ == fa_of_u64(0),
{
    let x = ScalarA::from_repr(a.bytes).unwrap();
    let y = ScalarA::from_repr(b.bytes).unwrap();
    FieldA { bytes: (x * y).to_repr() }
}

/// Relies on `ff::Field` negation for the Vesta scalar field: `-0 == 0`.
#[verifier::external_body]
pub(crate) fn fa_neg(a: &FieldA) -> (r: FieldA)
    ensures
        r@ == fa_neg_of(a@),
        a@ == fa_of_u64(0) ==> r@ == fa_of_u64(0),
{
    let x = ScalarA::from_repr(a.bytes).unwrap();
    FieldA { bytes: (-x).to_repr() }
}

/// Relies on `ff::Field::invert` for the Vesta scalar field: defined exactly
/// on nonzero elements, and the result multiplies with the input to one.
#[verifier::external_body]
pub(crate) fn fa_invert(a: &FieldA) -> (r: Option<FieldA>)
    ensures
        (r is Some) <==> a@ != fa_of_u64(0),
        r matches Some(x) ==> {
            &&& x@ == fa_inv_of(a@)
            &&& fa_mul_of(a@, x@) == fa_of_u64(1)
            &&& fa_mul_of(x@, a@) == fa_of_u64(1)
        },
{
    let x = ScalarA::from_repr(a.bytes).unwrap();
    let inv = x.invert();
    if inv.is_some().into() {
        Some(FieldA { bytes: inv.unwrap().to_repr() })
    } else {
        None
    }
}

/// Relies on `ff::PrimeField` / `From<u64>` for the Pallas scalar field.
#[verifier::external_body]
pub(crate) fn fb_from_u64(x: u64) -> (r: FieldB)
    ensures
        r@ == fb_of_u64(x),
        x != 0 ==> r@ != fb_of_u64(0),
{
    FieldB { bytes: ScalarB::from(x).to_repr() }
}

/// Relies on `ff::Field` negation for the Pallas scalar field.
#[verifier::external_body]
pub(crate) fn fb_neg(a: &FieldB) -> (r: FieldB)
    ensures
        r@ == fb_neg_of(a@),
{
    let x = ScalarB::from_repr(a.bytes).unwrap();
    FieldB { bytes: (-x).to_repr() }
}

/// Relies on `ff::FromUniformBytes<64>` for the Vesta scalar field: the
/// element is a function of the 64 input bytes alone.
#[verifier::external_body]
pub(crate) fn fa_from_uniform(wide: &Vec<u8>) -> (r: FieldA)
    requires
        wide@.len() == 64,
    ensures
        r@ == fa_wide_of(wide@),
        r@.len() == 32,
{
    let mut buf = [0u8; 64];
    buf.copy_from_slice(wide);
    let f = <ScalarA as ff::FromUniformBytes<64>>::from_uniform_bytes(&buf);
    FieldA { bytes: f.to_repr() }
}

/// Relies on `ff::FromUniformBytes<64>` for the Pallas scalar field: the
/// element is a function of the 64 input bytes alone.
#[verifier::external_body]
pub(crate) fn fb_from_uniform(wide: &Vec<u8>) -> (r: FieldB)
    requires
        wide@.len() == 64,
    ensures
        r@ == fb_wide_of(wide@),
{
    let mut buf = [0u8; 64];
    buf.copy_from_slice(wide);
    let f = <ScalarB as ff::FromUniformBytes<64>>::from_uniform_bytes(&buf);
    FieldB { bytes: f.to_repr() }
}

/// Canonical bytes of `ROOT_OF_UNITY ^ pow` in field A, for the field's
/// canonical primitive `2^S`-th root of unity.
pub uninterp spec fn fa_rootpow_of(pow: u64) -> Seq<u8>;

/// Relies on `ff::PrimeField::ROOT_OF_UNITY` and `pow_vartime` for the
/// Vesta scalar field: the chosen power of the canonical primitive root of
/// unity, a unit and hence never the zero element.
#[verifier::external_body]
pub(crate) fn fa_root_pow(pow: u64) -> (r: FieldA)
    ensures
        r@ == fa_rootpow_of(pow),
        r@ != fa_of_u64(0),
{
    let root = <ScalarA as PrimeField>::ROOT_OF_UNITY;
    FieldA { bytes: root.pow_vartime(&[pow]).to_repr() }
}

/// Relies on `ff::PrimeField::S` for the Vesta scalar field: its two-adicity
/// is 32, so the multiplicative group has a subgroup of order `2^32`.
#[verifier::external_body]
pub(crate) fn fa_two_adicity() -> (r: u32)
    ensures
        r == 32,
{
    <ScalarA as PrimeField>::S
}

impl FieldA {
    /// The canonical representation bytes of this element.
    pub fn to_bytes(&self) -> (r: [u8; 32])
        ensures
            r@ == self@,
    {
        self.bytes
    }

    /// The field A element for a small integer.
    pub fn from_u64(x: u64) -> (r: FieldA)
        ensures
            r@ == fa_of_u64(x),
            x != 0 ==> r@ != fa_of_u64(0),
    {
        fa_from_u64(x)
    }

    /// Field addition.
    pub fn add(&self, other: &FieldA) -> (r: FieldA)
        ensures
            r@ == fa_add_of(self@, other@),
    {
        fa_add(self, other)
    }

    /// Field subtraction.
    pub fn sub(&self, other: &FieldA) -> (r: FieldA)
        ensures
            r@ == fa_sub_of(self@, other@),
    {
        fa_sub(self, other)
    }

    /// Field multiplication.
    pub fn mul(&self, other: &FieldA) -> (r: FieldA)
        ensures
            r@ == fa_mul_of(self@, other@),
    {
        fa_mul(self, other)
    }

    /// Field negation.
    pub fn neg(&self) -> (r: FieldA)
        ensures
            r@ == fa_neg_of(self@),
    {
        fa_neg(self)
    }

    /// Multiplicative inverse; `None` exactly on the zero element.
    pub fn invert(&self) -> (r: Option<FieldA>)
        ensures
            (r is Some) <==> self@ != fa_of_u64(0),
            r matches Some(x) ==> x@ == fa_inv_of(self@)
                && fa_mul_of(self@, x@) == fa_of_u64(1),
    {
        fa_invert(self)
    }

    /// Whether two elements are equal, decided on their canonical bytes.
    pub fn eq_elem(&self, other: &FieldA) -> (r: bool)
        ensures
            r <==> self@ == other@,
    {
        let a = self.to_bytes();
        let b = other.to_bytes();
        bytes32_eq(&a, &b)
    }
}

impl FieldB {
    /// The canonical representation bytes of this element.
    pub fn to_bytes(&self) -> (r: [u8; 32])
        ensures
            r@ == self@,
    {
        self.bytes
    }

    /// The field B element for a small integer.
    pub fn from_u64(x: u64) -> (r: FieldB)
        ensures
            r@ == fb_of_u64(x),
            x != 0 ==> r@ != fb_of_u64(0),
    {
        fb_from_u64(x)
    }

    /// Field negation.
    pub fn neg(&self) -> (r: FieldB)
        ensures
            r@ == fb_neg_of(self@),
    {
        fb_neg(self)
    }
}

/// Whether two 32-byte arrays hold the same bytes.
pub fn bytes32_eq(a: &[u8; 32], b: &[u8; 32]) -> (r: bool)
    ensures
        r <==> a@ == b@,
{
    let mut i: usize = 0;
    while i < 32
        invariant
            i <= 32,
            forall|k: int| 0 <= k < i ==> a@[k] == b@[k],
        decreases 32 - i,
    {
        if a[i] != b[i] {
            assert(a@[i as int] != b@[i as int]);
            assert(a@ != b@);
            return false;
        }
        i += 1;
    }
    assert(a@ =~= b@);
    true
}

} // verus!
