//! The off-circuit block step: check the witness and compute the public
//! outputs of one block's accumulator transition.
//!
//! The witness binds the block's roots, their claimed coefficients, the
//! commitment `P_i`, and the prior accumulator `A_i`.  The step recomputes
//! the commitment from the coefficients and refuses a mismatch; it derives
//! the evaluation challenge from the two point encodings and refuses a
//! witness whose roots and coefficients evaluate differently there; then it
//! emits `(P_i, A_i, A_{i+1})` with `A_{i+1} = h_i * A_i + P_i`.

use vstd::prelude::*;

use crate::fields::{bytes32_eq, fa_from_uniform, fa_wide_of, FieldA, FieldB};
use crate::bytes::push_bytes;
use crate::hashing::{block_r_of, coeff_map_of, derive_block_r, hash_a_of, hash_A_h,
    map_vesta_scalar_to_pallas};
use crate::msm::{commit_coeffs, commit_of};
use crate::points::{encode_point, pt_add, pt_mul, PointB};
use crate::poly::{eval_from_roots, eval_horner, eval_roots_of, horner_of};
use crate::record::next_state_of;

verus! {

/// Witness of one block step.
#[derive(Clone, Debug)]
pub struct BlockPolyWitness {
    /// Block roots mapped into field A, sorted and deduplicated.
    pub roots: Vec<FieldA>,
    /// Claimed coefficients of `∏ (X - root)`, increasing degree.
    pub coeffs: Vec<FieldA>,
    /// The committed block point `P_i`.
    pub p_i: PointB,
    /// The prior accumulator `A_i`.
    pub a_i: PointB,
}

/// Public outputs of one block step.
#[derive(Clone, Copy, PartialEq, Eq, Debug)]
pub struct BlockPolyPublic {
    pub p_i_bytes: [u8; 32],
    pub a_i_bytes: [u8; 32],
    pub a_next_bytes: [u8; 32],
}

/// Why a block step was refused.
#[derive(Clone, Copy, PartialEq, Eq, Debug)]
pub enum BlockStepError {
    /// `P_i` is not the commitment to the given coefficients.
    CommitmentMismatch,
    /// Roots and coefficients disagree at the evaluation challenge.
    PolynomialIdentity,
}

/// The coefficients re-mapped into field B, element by element.
pub open spec fn mapped_coeffs(cs: Seq<Seq<u8>>) -> Seq<Seq<u8>> {
    Seq::new(cs.len(), |i: int| coeff_map_of(cs[i]))
}

/// The evaluation challenge: the block challenge digest of the two point
/// encodings, doubled to 64 bytes and wide-reduced into field A.
pub open spec fn challenge_of(p_i: Seq<u8>, a_i: Seq<u8>) -> Seq<u8> {
    fa_wide_of(block_r_of(p_i, a_i) + block_r_of(p_i, a_i))
}

/// Whether the witness commitment matches its coefficients.
pub open spec fn commitment_matches(w: BlockPolyWitness) -> bool {
    w.p_i@ == commit_of(mapped_coeffs(w.coeffs.deep_view()))
}

/// Whether roots and coefficients agree at the derived challenge.
pub open spec fn identity_holds(w: BlockPolyWitness) -> bool {
    eval_roots_of(w.roots.deep_view(), challenge_of(w.p_i@, w.a_i@)) == horner_of(
        w.coeffs.deep_view(),
        challenge_of(w.p_i@, w.a_i@),
    )
}

/// Check a block witness off-circuit and compute its public outputs.
/// Succeeds exactly when the commitment matches the coefficients and the
/// polynomial identity holds at the derived challenge; each failure names
/// the check that refused the witness.
pub fn prove_block_poly(w: &BlockPolyWitness) -> (r: Result<
    (BlockPolyPublic, Vec<u8>),
    BlockStepError,
>)
    requires
        w.coeffs@.len() <= 0x4000_0000,
    ensures
        (r is Ok) <==> (commitment_matches(*w) && identity_holds(*w)),
        r == Result::<(BlockPolyPublic, Vec<u8>), BlockStepError>::Err(
            BlockStepError::CommitmentMismatch,
        ) <==> !commitment_matches(*w),
        r == Result::<(BlockPolyPublic, Vec<u8>), BlockStepError>::Err(
            BlockStepError::PolynomialIdentity,
        ) <==> (commitment_matches(*w) && !identity_holds(*w)),
        r matches Ok(p) ==> {
            &&& p.0.p_i_bytes@ == w.p_i@
            &&& p.0.a_i_bytes@ == w.a_i@
            &&& p.0.a_next_bytes@ == next_state_of(hash_a_of(w.a_i@, w.p_i@), w.a_i@, w.p_i@)
            &&& p.1@.len() == 0
        },
{
    let p_i_bytes = encode_point(&w.p_i);
    let a_i_bytes = encode_point(&w.a_i);
    // Re-map the coefficients into field B and recompute the commitment.
    let n = w.coeffs.len();
    let mut coeffs_b: Vec<FieldB> = Vec::new();
    let mut i: usize = 0;
    while i < n
        invariant
            i <= n,
            n == w.coeffs@.len(),
            coeffs_b@.len() == i,
            forall|k: int|
                0 <= k < i ==> #[trigger] coeffs_b.deep_view()[k] == coeff_map_of(
                    w.coeffs.deep_view()[k],
                ),
        decreases n - i,
    {
        let ghost pre = coeffs_b.deep_view();
        let cb = w.coeffs[i].to_bytes();
        let m = map_vesta_scalar_to_pallas(&cb);
        coeffs_b.push(m);
        proof {
            assert(forall|idx: int|
                #![trigger coeffs_b.deep_view()[idx]]
                0 <= idx < pre.len() ==> coeffs_b.deep_view()[idx] == pre[idx]);
            assert(coeffs_b.deep_view()[pre.len() as int] == m@);
        }
        i += 1;
    }
    proof {
        assert(coeffs_b.deep_view() =~= mapped_coeffs(w.coeffs.deep_view()));
    }
    let p_ref = commit_coeffs(&coeffs_b);
    let p_ref_bytes = encode_point(&p_ref);
    if !bytes32_eq(&p_ref_bytes, &p_i_bytes) {
        return Err(BlockStepError::CommitmentMismatch);
    }
    // Derive the challenge and evaluate both sides.
    let r_bytes = derive_block_r(&p_i_bytes, &a_i_bytes);
    let mut wide: Vec<u8> = Vec::new();
    push_bytes(&mut wide, r_bytes.as_slice());
    push_bytes(&mut wide, r_bytes.as_slice());
    assert(wide@ =~= block_r_of(w.p_i@, w.a_i@) + block_r_of(w.p_i@, w.a_i@));
    let r_chal = fa_from_uniform(&wide);
    let lhs = eval_from_roots(&w.roots, &r_chal);
    let rhs = eval_horner(&w.coeffs, &r_chal);
    let lb = lhs.to_bytes();
    let rb = rhs.to_bytes();
    if !bytes32_eq(&lb, &rb) {
        return Err(BlockStepError::PolynomialIdentity);
    }
    // Chain the accumulator.
    let h_i_bytes = hash_A_h(&a_i_bytes, &p_i_bytes);
    let h_i = map_vesta_scalar_to_pallas(&h_i_bytes);
    let scaled = pt_mul(&h_i, &w.a_i);
    let a_next = pt_add(&scaled, &w.p_i);
    Ok(
        (
            BlockPolyPublic { p_i_bytes, a_i_bytes, a_next_bytes: encode_point(&a_next) },
            Vec::new(),
        ),
    )
}

} // verus!
