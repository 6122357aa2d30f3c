//! Domain-separated hashing and hash-to-field derivations.
//!
//! Every hash in the protocol is a BLAKE2b with a fixed personalization tag
//! (at most 16 bytes, zero-padded) or, for the domain strings longer than a
//! personalization allows, a plain BLAKE2b over the string concatenated
//! with the payload.
//! Wide 64-byte digests are reduced into a field element without modular
//! bias through the `ff::FromUniformBytes` reduction.

use vstd::prelude::*;

use crate::bytes::push_bytes;
use crate::fields::{fa_from_uniform, fa_wide_of, fb_from_uniform, fb_wide_of, FieldA, FieldB};

verus! {

/// The 32-byte BLAKE2b digest of `msg` under the zero-padded
/// personalization `tag`.
pub uninterp spec fn b256_of(tag: Seq<u8>, msg: Seq<u8>) -> Seq<u8>;

/// The 64-byte BLAKE2b digest of `msg` under the zero-padded
/// personalization `tag`.
pub uninterp spec fn b512_of(tag: Seq<u8>, msg: Seq<u8>) -> Seq<u8>;

/// Relies on `blake2b_simd::Params`: BLAKE2b with 32-byte output and a
/// personalization of at most 16 bytes, zero-padded; the digest is a
/// function of the tag and the message alone.
#[verifier::external_body]
pub(crate) fn blake2b_256_tagged(tag: &Vec<u8>, msg: &Vec<u8>) -> (r: [u8; 32])
    requires
        tag@.len() <= 16,
    ensures
        r@ == b256_of(tag@, msg@),
        r@.len() == 32,
{
    let hash = blake2b_simd::Params::new().hash_length(32).personal(tag).hash(msg);
    let mut out = [0u8; 32];
    out.copy_from_slice(hash.as_bytes());
    out
}

/// Relies on `blake2b_simd::Params`: BLAKE2b with 64-byte output and a
/// personalization of at most 16 bytes, zero-padded (an empty tag is the
/// same as no personalization); a function of tag and message alone.
#[verifier::external_body]
pub(crate) fn blake2b_512_tagged(tag: &Vec<u8>, msg: &Vec<u8>) -> (r: Vec<u8>)
    requires
        tag@.len() <= 16,
    ensures
        r@ == b512_of(tag@, msg@),
        r@.len() == 64,
{
    let hash = blake2b_simd::Params::new().hash_length(64).personal(tag).hash(msg);
    hash.as_bytes().to_vec()
}

/// Domain tag of the accumulator chain hash `h_i = H_A(A_i, P_i)`.
pub open spec fn tag_accum_a() -> Seq<u8> {
    seq![116u8, 97u8, 99u8, 104u8, 121u8, 111u8, 110u8, 58u8, 65u8, 47u8, 104u8]
}

fn tag_accum_a_bytes() -> (r: Vec<u8>)
    ensures
        r@ == tag_accum_a(),
        r@.len() == 11,
{
    let v: Vec<u8> = vec![116u8, 97u8, 99u8, 104u8, 121u8, 111u8, 110u8, 58u8, 65u8, 47u8, 104u8];
    assert(v@ =~= tag_accum_a());
    v
}

/// Domain tag of the secondary accumulator chain hash `h_i' = H_S(S_i, P_i')`.
pub open spec fn tag_accum_s() -> Seq<u8> {
    seq![116u8, 97u8, 99u8, 104u8, 121u8, 111u8, 110u8, 58u8, 83u8, 47u8, 104u8]
}

fn tag_accum_s_bytes() -> (r: Vec<u8>)
    ensures
        r@ == tag_accum_s(),
        r@.len() == 11,
{
    let v: Vec<u8> = vec![116u8, 97u8, 99u8, 104u8, 121u8, 111u8, 110u8, 58u8, 83u8, 47u8, 104u8];
    assert(v@ =~= tag_accum_s());
    v
}

/// Domain tag of the block evaluation-challenge derivation.
pub open spec fn tag_block_r() -> Seq<u8> {
    seq![
        116u8, 97u8, 99u8, 104u8, 121u8, 111u8, 110u8, 58u8, 98u8, 108u8, 111u8, 99u8, 107u8, 58u8,
        114u8,
    ]
}

fn tag_block_r_bytes() -> (r: Vec<u8>)
    ensures
        r@ == tag_block_r(),
        r@.len() == 15,
{
    let v: Vec<u8> = vec![
        116u8, 97u8, 99u8, 104u8, 121u8, 111u8, 110u8, 58u8, 98u8, 108u8, 111u8, 99u8, 107u8, 58u8,
        114u8,
    ];
    assert(v@ =~= tag_block_r());
    v
}

/// Domain tag of the canonical hash-to-field map for 32-byte nullifier tags.
pub open spec fn tag_gram_to_fr() -> Seq<u8> {
    seq![116u8, 103u8, 46u8, 116u8, 111u8, 95u8, 102u8, 114u8, 46u8, 118u8, 49u8, 0u8, 0u8, 0u8, 0u8, 0u8]
}

fn tag_gram_to_fr_bytes() -> (r: Vec<u8>)
    ensures
        r@ == tag_gram_to_fr(),
        r@.len() == 16,
{
    let v: Vec<u8> = vec![
        116u8, 103u8, 46u8, 116u8, 111u8, 95u8, 102u8, 114u8, 46u8, 118u8, 49u8, 0u8, 0u8, 0u8, 0u8,
        0u8,
    ];
    assert(v@ =~= tag_gram_to_fr());
    v
}

/// Domain string of the field A to field B coefficient re-mapping.  Longer
/// than a personalization allows, so it prefixes the hashed message.
pub open spec fn tag_coeff_map() -> Seq<u8> {
    seq![
        116u8, 97u8, 99u8, 104u8, 121u8, 111u8, 110u8, 47u8, 99u8, 111u8, 101u8, 102u8, 102u8, 45u8,
        109u8, 97u8, 112u8,
    ]
}

fn tag_coeff_map_bytes() -> (r: Vec<u8>)
    ensures
        r@ == tag_coeff_map(),
{
    let v: Vec<u8> = vec![
        116u8, 97u8, 99u8, 104u8, 121u8, 111u8, 110u8, 47u8, 99u8, 111u8, 101u8, 102u8, 102u8, 45u8,
        109u8, 97u8, 112u8,
    ];
    assert(v@ =~= tag_coeff_map());
    v
}

/// The untagged wide hash of 64 bytes, reduced into field A and returned as
/// the element's canonical 32 bytes.
pub open spec fn h64_of(input: Seq<u8>) -> Seq<u8> {
    fa_wide_of(b512_of(Seq::<u8>::empty(), input))
}

/// Hash 64 bytes to a field A element and return its canonical 32-byte
/// representation.
pub fn hash64_to32(input: &[u8; 64]) -> (r: [u8; 32])
    ensures
        r@ == h64_of(input@),
{
    let tag: Vec<u8> = Vec::new();
    let mut msg: Vec<u8> = Vec::new();
    push_bytes(&mut msg, input.as_slice());
    assert(msg@ =~= input@);
    let wide = blake2b_512_tagged(&tag, &msg);
    let f = fa_from_uniform(&wide);
    f.to_bytes()
}

/// Combine two 32-byte nodes into a parent hash.
pub fn compress_nodes(left: &[u8; 32], right: &[u8; 32]) -> (r: [u8; 32])
    ensures
        r@ == h64_of(left@ + right@),
{
    let tag: Vec<u8> = Vec::new();
    let mut msg: Vec<u8> = Vec::new();
    push_bytes(&mut msg, left.as_slice());
    push_bytes(&mut msg, right.as_slice());
    assert(msg@ =~= left@ + right@);
    let wide = blake2b_512_tagged(&tag, &msg);
    let f = fa_from_uniform(&wide);
    f.to_bytes()
}

/// The accumulator chain hash `h_i = H_A(A_i, P_i)` over point encodings.
pub open spec fn hash_a_of(a_i: Seq<u8>, p_i: Seq<u8>) -> Seq<u8> {
    b256_of(tag_accum_a(), a_i + p_i)
}

/// Domain-separated hash for the accumulator update.
#[allow(non_snake_case)]
pub fn hash_A_h(a_i: &[u8; 32], p_i: &[u8; 32]) -> (r: [u8; 32])
    ensures
        r@ == hash_a_of(a_i@, p_i@),
{
    let tag = tag_accum_a_bytes();
    let mut msg: Vec<u8> = Vec::new();
    push_bytes(&mut msg, a_i.as_slice());
    push_bytes(&mut msg, p_i.as_slice());
    assert(msg@ =~= a_i@ + p_i@);
    blake2b_256_tagged(&tag, &msg)
}

/// The secondary accumulator chain hash `h_i' = H_S(S_i, P_i')`.
pub open spec fn hash_s_of(s_i: Seq<u8>, p_prime: Seq<u8>) -> Seq<u8> {
    b256_of(tag_accum_s(), s_i + p_prime)
}

/// Domain-separated hash for the secondary accumulator update.
#[allow(non_snake_case)]
pub fn hash_S_h(s_i: &[u8; 32], p_i_prime: &[u8; 32]) -> (r: [u8; 32])
    ensures
        r@ == hash_s_of(s_i@, p_i_prime@),
{
    let tag = tag_accum_s_bytes();
    let mut msg: Vec<u8> = Vec::new();
    push_bytes(&mut msg, s_i.as_slice());
    push_bytes(&mut msg, p_i_prime.as_slice());
    assert(msg@ =~= s_i@ + p_i_prime@);
    blake2b_256_tagged(&tag, &msg)
}

/// The block evaluation challenge `r = H_r(P_i, A_i)` over point encodings.
pub open spec fn block_r_of(p_i: Seq<u8>, a_i: Seq<u8>) -> Seq<u8> {
    b256_of(tag_block_r(), p_i + a_i)
}

/// Derive the evaluation challenge from the block commitment and the prior
/// accumulator state.
pub fn derive_block_r(p_i: &[u8; 32], a_i: &[u8; 32]) -> (r: [u8; 32])
    ensures
        r@ == block_r_of(p_i@, a_i@),
{
    let tag = tag_block_r_bytes();
    let mut msg: Vec<u8> = Vec::new();
    push_bytes(&mut msg, p_i.as_slice());
    push_bytes(&mut msg, a_i.as_slice());
    assert(msg@ =~= p_i@ + a_i@);
    blake2b_256_tagged(&tag, &msg)
}

/// The field A element that a 32-byte nullifier tag maps to.
pub open spec fn gram_to_fr_of(tag32: Seq<u8>) -> Seq<u8> {
    fa_wide_of(b512_of(tag_gram_to_fr(), tag32))
}

/// Canonical hash-to-field for 32-byte nullifier tags into field A, by
/// domain-separated wide reduction.
pub fn tachygram_to_fr(tag32: &[u8; 32]) -> (r: FieldA)
    ensures
        r@ == gram_to_fr_of(tag32@),
        r@.len() == 32,
{
    let tag = tag_gram_to_fr_bytes();
    let mut msg: Vec<u8> = Vec::new();
    push_bytes(&mut msg, tag32.as_slice());
    assert(msg@ =~= tag32@);
    let wide = blake2b_512_tagged(&tag, &msg);
    fa_from_uniform(&wide)
}

/// The field B element that the canonical bytes of a field A element map to
/// under the domain-separated coefficient re-mapping.
pub open spec fn coeff_map_of(bytes32: Seq<u8>) -> Seq<u8> {
    fb_wide_of(b512_of(Seq::<u8>::empty(), tag_coeff_map() + bytes32))
}

/// Deterministically map a field A element (by its canonical 32 bytes) into
/// a field B element, via a wide reduction of a domain-separated hash.
pub fn map_vesta_scalar_to_pallas(bytes32: &[u8; 32]) -> (r: FieldB)
    ensures
        r@ == coeff_map_of(bytes32@),
{
    let tag: Vec<u8> = Vec::new();
    let mut msg: Vec<u8> = tag_coeff_map_bytes();
    push_bytes(&mut msg, bytes32.as_slice());
    assert(msg@ =~= tag_coeff_map() + bytes32@);
    let wide = blake2b_512_tagged(&tag, &msg);
    fb_from_uniform(&wide)
}

} // verus!
