//! Deterministic derivation of the commitment basis points.
//!
//! Basis point `G_{c,i}` is `s * G` for the scalar `s` obtained by hashing a
//! fixed domain string concatenated with the little-endian 4-byte chunk and
//! index, with a 512-bit digest reduced into field B without modular bias.
//! The derivation is a pure function of `(chunk, idx)`: any party reproduces
//! the same basis from the public tag.

use vstd::prelude::*;

use crate::bytes::{le4_of, push_le4};
use crate::fields::{fb_wide_of, FieldB};
use crate::hashing::{b512_of, blake2b_512_tagged};
use crate::params::CHUNK;
use crate::points::{gen_mul, gen_mul_of, PointB};

verus! {

/// Domain string of the basis derivation.  Longer than a personalization
/// allows, so it prefixes the hashed message.
pub open spec fn tag_basis() -> Seq<u8> {
    seq![
        116u8, 97u8, 99u8, 104u8, 121u8, 111u8, 110u8, 47u8, 105u8, 112u8, 97u8, 58u8, 98u8,
        97u8, 115u8, 101u8, 45u8, 100u8, 101u8, 114u8, 105u8, 118u8, 97u8, 116u8, 105u8, 111u8,
        110u8,
    ]
}

fn tag_basis_bytes() -> (r: Vec<u8>)
    ensures
        r@ == tag_basis(),
{
    let v: Vec<u8> = vec![
        116u8, 97u8, 99u8, 104u8, 121u8, 111u8, 110u8, 47u8, 105u8, 112u8, 97u8, 58u8, 98u8,
        97u8, 115u8, 101u8, 45u8, 100u8, 101u8, 114u8, 105u8, 118u8, 97u8, 116u8, 105u8, 111u8,
        110u8,
    ];
    assert(v@ =~= tag_basis());
    v
}

/// The field B scalar derived for `(chunk, idx)`.
pub open spec fn scalar_of(chunk: u32, idx: u32) -> Seq<u8> {
    fb_wide_of(b512_of(Seq::<u8>::empty(), tag_basis() + le4_of(chunk) + le4_of(idx)))
}

/// The canonical encoding of basis point `G_{chunk,idx} = scalar_of * G`.
pub open spec fn base_of(chunk: u32, idx: u32) -> Seq<u8> {
    gen_mul_of(scalar_of(chunk, idx))
}

/// Derive the deterministic field B scalar for `(chunk, idx)`.
pub fn derive_scalar(chunk: u32, idx: u32) -> (r: FieldB)
    ensures
        r@ == scalar_of(chunk, idx),
{
    let tag: Vec<u8> = Vec::new();
    let mut msg = tag_basis_bytes();
    push_le4(&mut msg, chunk);
    push_le4(&mut msg, idx);
    assert(msg@ =~= tag_basis() + le4_of(chunk) + le4_of(idx));
    let wide = blake2b_512_tagged(&tag, &msg);
    crate::fields::fb_from_uniform(&wide)
}

/// Derive the deterministic basis point `G_{chunk,idx}`.  The result is a
/// function of `(chunk, idx)` alone: two calls with the same arguments give
/// identical encodings.
pub fn derive_base(chunk: u32, idx: u32) -> (r: PointB)
    ensures
        r@ == base_of(chunk, idx),
{
    let s = derive_scalar(chunk, idx);
    gen_mul(&s)
}

/// The first `n` basis points `G_0 .. G_{n-1}`, walking chunks of `CHUNK`
/// indices each.
pub fn derive_bases_len(n: usize) -> (r: Vec<PointB>)
    requires
        n <= 0x4000_0000,
    ensures
        r@.len() == n,
        forall|k: int|
            0 <= k < n ==> #[trigger] r@[k]@ == base_of((k / (CHUNK as int)) as u32, (
            k % (CHUNK as int)) as u32),
{
    let mut bases: Vec<PointB> = Vec::new();
    let mut i: usize = 0;
    while i < n
        invariant
            n <= 0x4000_0000,
            i <= n,
            bases@.len() == i,
            forall|k: int|
                0 <= k < i ==> #[trigger] bases@[k]@ == base_of((k / (CHUNK as int)) as u32, (
                k % (CHUNK as int)) as u32),
        decreases n - i,
    {
        let chunk = (i / CHUNK) as u32;
        let idx = (i % CHUNK) as u32;
        bases.push(derive_base(chunk, idx));
        i += 1;
    }
    bases
}

/// All basis points for the full coefficient vector.
pub fn derive_all_bases() -> (r: Vec<PointB>)
    ensures
        r@.len() == crate::params::NUM_COEFFICIENTS,
        forall|k: int|
            0 <= k < r@.len() ==> #[trigger] r@[k]@ == base_of((k / (CHUNK as int)) as u32, (
            k % (CHUNK as int)) as u32),
{
    derive_bases_len(crate::params::NUM_COEFFICIENTS)
}

/// The distinguished generator `G_0`, the basis point for `(0, 0)`.
pub fn g0() -> (r: PointB)
    ensures
        r@ == base_of(0, 0),
{
    derive_base(0, 0)
}

} // verus!
