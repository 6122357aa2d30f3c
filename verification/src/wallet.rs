//! The wallet-side non-membership removal step.
//!
//! Given a witness `(v, alpha_i, alpha_inv, P_i, S_i, A_i)` with
//! `alpha_i * alpha_inv = 1`, the step removes one committed root weighted
//! at the distinguished generator — `P_i' = P_i - alpha_i * G_0` — and
//! chains both accumulators: `A_{i+1} = h_i * A_i + P_i` over the unchanged
//! commitment, and `S_{i+1} = h_i' * S_i + P_i'` over the reduced one, with
//! the two chain hashes separately domain-tagged.

use vstd::prelude::*;

use crate::basis::base_of;
use crate::fields::{bytes32_eq, fa_from_u64, fa_mul, fa_mul_of, fa_of_u64, fb_neg, fb_neg_of,
    FieldA};
use crate::hashing::{coeff_map_of, hash_a_of, hash_s_of, hash_A_h, hash_S_h,
    map_vesta_scalar_to_pallas};
use crate::points::{encode_point, pt_add, pt_add_of, pt_mul, pt_mul_of, PointB};
use crate::record::next_state_of;

verus! {

/// Witness of one wallet step.
#[derive(Clone, Copy, Debug)]
pub struct WalletStepWitness {
    /// The committed value being consumed.
    pub v: FieldA,
    /// The weight of the removed root at the distinguished generator.
    pub alpha_i: FieldA,
    /// The claimed field inverse of `alpha_i`; checked.
    pub alpha_inv: FieldA,
    /// The block commitment `P_i`.
    pub p_i: PointB,
    /// The wallet's secondary accumulator `S_i`.
    pub s_i: PointB,
    /// The chain accumulator `A_i`.
    pub a_i: PointB,
}

/// Public outputs of one wallet step.
#[derive(Clone, Copy, PartialEq, Eq, Debug)]
pub struct WalletStepPublic {
    pub a_i_bytes: [u8; 32],
    pub a_next_bytes: [u8; 32],
    pub s_next_bytes: [u8; 32],
}

/// Why a wallet step was refused.
#[derive(Clone, Copy, PartialEq, Eq, Debug)]
pub enum WalletStepError {
    /// `alpha_i * alpha_inv` is not the multiplicative identity.
    AlphaInverseMismatch,
}

/// The reduced commitment `P_i' = P_i - alpha_i * G_0`, with `alpha_i`
/// mapped into field B by its canonical bytes.
pub open spec fn p_prime_of(p_i: Seq<u8>, alpha_i: Seq<u8>) -> Seq<u8> {
    pt_add_of(p_i, pt_mul_of(fb_neg_of(coeff_map_of(alpha_i)), base_of(0, 0)))
}

/// The secondary accumulator update `S_{i+1} = h_i' * S_i + P_i'`.
pub open spec fn s_next_of(s_i: Seq<u8>, p_prime: Seq<u8>) -> Seq<u8> {
    pt_add_of(pt_mul_of(coeff_map_of(hash_s_of(s_i, p_prime)), s_i), p_prime)
}

/// Perform one wallet non-membership step.  Succeeds exactly when the
/// claimed inverse is the field inverse of `alpha_i`, and then returns the
/// three point encodings `(A_i, A_{i+1}, S_{i+1})` the recurrences
/// determine; a mismatched inverse is refused.
pub fn prove_wallet_step(w: &WalletStepWitness) -> (r: Result<
    (WalletStepPublic, Vec<u8>),
    WalletStepError,
>)
    ensures
        (r is Ok) <==> fa_mul_of(w.alpha_i@, w.alpha_inv@) == fa_of_u64(1),
        r matches Ok(p) ==> {
            &&& p.0.a_i_bytes@ == w.a_i@
            &&& p.0.a_next_bytes@ == next_state_of(hash_a_of(w.a_i@, w.p_i@), w.a_i@, w.p_i@)
            &&& p.0.s_next_bytes@ == s_next_of(w.s_i@, p_prime_of(w.p_i@, w.alpha_i@))
            &&& p.1@.len() == 0
        },
        r matches Err(e) ==> e == WalletStepError::AlphaInverseMismatch,
{
    // The claimed inverse must multiply with alpha to one.
    let prod = fa_mul(&w.alpha_i, &w.alpha_inv);
    let one = fa_from_u64(1);
    let pb = prod.to_bytes();
    let ob = one.to_bytes();
    if !bytes32_eq(&pb, &ob) {
        return Err(WalletStepError::AlphaInverseMismatch);
    }
    // P_i' = P_i - alpha_i * G_0.
    let g0 = crate::basis::g0();
    let alpha_bytes = w.alpha_i.to_bytes();
    let alpha_b = map_vesta_scalar_to_pallas(&alpha_bytes);
    let neg_alpha = fb_neg(&alpha_b);
    let shift = pt_mul(&neg_alpha, &g0);
    let p_prime = pt_add(&w.p_i, &shift);
    // Domain hashes over the canonical encodings.
    let p_i_bytes = encode_point(&w.p_i);
    let a_i_bytes = encode_point(&w.a_i);
    let s_i_bytes = encode_point(&w.s_i);
    let p_prime_bytes = encode_point(&p_prime);
    let h_i_bytes = hash_A_h(&a_i_bytes, &p_i_bytes);
    let h_i_prime_bytes = hash_S_h(&s_i_bytes, &p_prime_bytes);
    // Map the hashes into field B and update both states.
    let h_i = map_vesta_scalar_to_pallas(&h_i_bytes);
    let h_i_prime = map_vesta_scalar_to_pallas(&h_i_prime_bytes);
    let a_scaled = pt_mul(&h_i, &w.a_i);
    let a_next = pt_add(&a_scaled, &w.p_i);
    let s_scaled = pt_mul(&h_i_prime, &w.s_i);
    let s_next = pt_add(&s_scaled, &p_prime);
    Ok(
        (
            WalletStepPublic {
                a_i_bytes,
                a_next_bytes: encode_point(&a_next),
                s_next_bytes: encode_point(&s_next),
            },
            Vec::new(),
        ),
    )
}

} // verus!
