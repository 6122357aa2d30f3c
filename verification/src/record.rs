//! The per-block accumulator record and its step verification.
//!
//! A record publishes `(P_i, h_i, A_{i+1})` for one block: the block's
//! polynomial commitment, the chain hash `h_i = H_A(A_i, P_i)`, and the
//! next accumulator state `A_{i+1} = h_i * A_i + P_i` with `h_i` mapped
//! into field B.  Both `h_i` and `A_{i+1}` are fully determined by
//! `(A_i, P_i)`, so the record is self-verifying given the prior state.

use vstd::prelude::*;

use crate::basis::{base_of, g0};
use crate::fields::bytes32_eq;
use crate::hashing::{coeff_map_of, hash_a_of, hash_A_h, map_vesta_scalar_to_pallas};
use crate::points::{decode_point, encode_point, is_pt_enc, pt_add, pt_add_of, pt_mul, pt_mul_of,
    PointB};

verus! {

/// A 32-byte compressed point encoding carried on the wire.
#[derive(Clone, Copy, PartialEq, Eq, Debug, Default)]
pub struct PallasPointBytes(pub [u8; 32]);

/// The publishable artifact of one block's accumulator step.
#[derive(Clone, PartialEq, Eq, Debug, Default)]
pub struct BlockAccumRecord {
    /// Polynomial commitment for block `i`, compressed.
    pub p_i: PallasPointBytes,
    /// Domain-separated chain hash `h_i = H_A(A_i, P_i)`.
    pub h_i: [u8; 32],
    /// Next accumulator state `A_{i+1}`, compressed.
    pub a_next: PallasPointBytes,
    /// Proof bytes attesting the step; opaque to this record.
    pub proof: Vec<u8>,
}

/// What wire bytes decode to when building a record: the point they encode,
/// or the distinguished generator as the fallback for invalid bytes.
pub open spec fn eff_point(b: Seq<u8>) -> Seq<u8> {
    if is_pt_enc(b) {
        b
    } else {
        base_of(0, 0)
    }
}

/// The accumulator recurrence: `A_{i+1} = h_i * A_i + P_i`, with the chain
/// hash mapped into field B.
pub open spec fn next_state_of(h_i: Seq<u8>, a_i: Seq<u8>, p_i: Seq<u8>) -> Seq<u8> {
    pt_add_of(pt_mul_of(coeff_map_of(h_i), a_i), p_i)
}

/// Whether a record's `(h_i, A_{i+1})` are exactly what `(A_i, P_i)`
/// determine: both points decode, the chain hash matches, and the next
/// state re-computes to the published encoding.
pub open spec fn step_holds(p_i: Seq<u8>, h_i: Seq<u8>, a_next: Seq<u8>, a_i: Seq<u8>) -> bool {
    &&& is_pt_enc(a_i)
    &&& is_pt_enc(p_i)
    &&& h_i == hash_a_of(a_i, p_i)
    &&& a_next == next_state_of(h_i, a_i, p_i)
}

impl BlockAccumRecord {
    /// Publisher helper: compute `h_i` and `A_{i+1}` from `(A_i, P_i)` and
    /// attach the proof bytes.  Bytes that decode to no point fall back to
    /// the distinguished generator.
    pub fn from_ai_pi(a_i: &PallasPointBytes, p_i: &PallasPointBytes, proof: Vec<u8>) -> (r:
        BlockAccumRecord)
        ensures
            r.p_i == *p_i,
            r.h_i@ == hash_a_of(a_i.0@, p_i.0@),
            r.a_next.0@ == next_state_of(r.h_i@, eff_point(a_i.0@), eff_point(p_i.0@)),
            r.proof@ == proof@,
    {
        let h_i = hash_A_h(&a_i.0, &p_i.0);
        let a_i_aff: PointB = match decode_point(&a_i.0) {
            Some(p) => p,
            None => g0(),
        };
        let p_i_aff: PointB = match decode_point(&p_i.0) {
            Some(p) => p,
            None => g0(),
        };
        let h_scalar = map_vesta_scalar_to_pallas(&h_i);
        let scaled = pt_mul(&h_scalar, &a_i_aff);
        let a_next_aff = pt_add(&scaled, &p_i_aff);
        let a_next = PallasPointBytes(encode_point(&a_next_aff));
        BlockAccumRecord { p_i: *p_i, h_i, a_next, proof }
    }

    /// Verifier helper: check that this record's `(h_i, A_{i+1})` are
    /// consistent with the prior state `A_i` and the record's `P_i`.  Any
    /// decode failure verifies as false; nothing here inspects the proof
    /// bytes.
    pub fn verify_step(&self, a_i: &PallasPointBytes) -> (r: bool)
        ensures
            r == step_holds(self.p_i.0@, self.h_i@, self.a_next.0@, a_i.0@),
    {
        let a_i_aff: PointB = match decode_point(&a_i.0) {
            Some(p) => p,
            None => {
                return false;
            },
        };
        let p_i_aff: PointB = match decode_point(&self.p_i.0) {
            Some(p) => p,
            None => {
                return false;
            },
        };
        let expected_h = hash_A_h(&a_i.0, &self.p_i.0);
        if !bytes32_eq(&expected_h, &self.h_i) {
            return false;
        }
        let h_scalar = map_vesta_scalar_to_pallas(&self.h_i);
        let scaled = pt_mul(&h_scalar, &a_i_aff);
        let a_next_aff = pt_add(&scaled, &p_i_aff);
        let enc = encode_point(&a_next_aff);
        bytes32_eq(&enc, &self.a_next.0)
    }
}

} // verus!
