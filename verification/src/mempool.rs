//! Mempool admission and block verification over the rolling window.
//!
//! The window holds no per-key state yet, so admission checks freshness of
//! every nullifier against a window that reports everything fresh, and
//! block verification computes the per-block digests for history binding
//! without folding anything into the window.

use vstd::prelude::*;

use crate::digests::{compute_commitment_delta_digest, compute_nullifier_block_digest,
    compute_orchard_root_digest, BlockMMRLeaf};
use crate::types::TachyonBundle;
use crate::window::NullifierSMAWindow;

verus! {

/// Why a transaction was refused admission.
#[derive(Clone, Copy, PartialEq, Eq, Debug)]
pub enum AdmitError {
    /// A nullifier of the transaction is already present in the window.
    DuplicateNullifier,
}

/// Admit a transaction into the mempool: every nullifier must be fresh in
/// the window.  The present window reports every key fresh, so admission
/// always succeeds and the window is untouched.
pub fn admit_tx(bundle: &TachyonBundle, window: &mut NullifierSMAWindow) -> (r: Result<
    (),
    AdmitError,
>)
    ensures
        r is Ok,
        *final(window) == *old(window),
{
    let n = bundle.nullifiers.len();
    let mut i: usize = 0;
    while i < n
        invariant
            i <= n,
            n == bundle.nullifiers@.len(),
            *window == *old(window),
        decreases n - i,
    {
        if !window.is_fresh(&bundle.nullifiers[i]) {
            return Err(AdmitError::DuplicateNullifier);
        }
        i += 1;
    }
    Ok(())
}

/// Verify a block's bundles against the window: compute the per-block
/// digests and the history-tree leaf over all gathered nullifiers and
/// commitments.  Nothing is folded into the window yet, so it is returned
/// unchanged and verification always succeeds.
pub fn verify_block(bundles: &Vec<TachyonBundle>, window: &mut NullifierSMAWindow) -> (r: Result<
    (),
    AdmitError,
>)
    requires
        old(window).recent_roots@.len() < usize::MAX,
        bundles@.len() <= 0xFFFF,
        forall|i: int|
            0 <= i < bundles@.len() ==> #[trigger] bundles@[i].nullifiers@.len() <= 0xFFFF
                && bundles@[i].commitments@.len() <= 0xFFFF,
    ensures
        r is Ok,
        *final(window) == *old(window),
{
    let _ = window.window_len();
    let mut all_nullifiers: Vec<[u8; 32]> = Vec::new();
    let mut all_commitments: Vec<[u8; 32]> = Vec::new();
    let n = bundles.len();
    let mut i: usize = 0;
    while i < n
        invariant
            i <= n,
            n == bundles@.len() <= 0xFFFF,
            forall|k: int|
                0 <= k < bundles@.len() ==> #[trigger] bundles@[k].nullifiers@.len() <= 0xFFFF
                    && bundles@[k].commitments@.len() <= 0xFFFF,
            all_nullifiers@.len() <= i * 0xFFFF,
            all_commitments@.len() <= i * 0xFFFF,
            *window == *old(window),
        decreases n - i,
    {
        let bundle = &bundles[i];
        let mut j: usize = 0;
        let m = bundle.nullifiers.len();
        while j < m
            invariant
                j <= m,
                m == bundle.nullifiers@.len(),
                m <= 0xFFFF,
                i < bundles@.len() <= 0xFFFF,
                all_nullifiers@.len() <= i * 0xFFFF + j,
            decreases m - j,
        {
            proof {
                assert(i * 0xFFFF + j < 0xFFFF0000) by (nonlinear_arith)
                    requires
                        0 <= i < 0xFFFF + 1,
                        0 <= j < 0xFFFF,
                        i < 0xFFFF + 1,
                        i <= 0xFFFF,
                        j < m <= 0xFFFF,
                ;
            }
            all_nullifiers.push(bundle.nullifiers[j]);
            j += 1;
        }
        let mut j2: usize = 0;
        let m2 = bundle.commitments.len();
        while j2 < m2
            invariant
                j2 <= m2,
                m2 == bundle.commitments@.len(),
                m2 <= 0xFFFF,
                i < bundles@.len() <= 0xFFFF,
                all_commitments@.len() <= i * 0xFFFF + j2,
            decreases m2 - j2,
        {
            proof {
                assert(i * 0xFFFF + j2 < 0xFFFF0000) by (nonlinear_arith)
                    requires
                        0 <= i,
                        i <= 0xFFFF,
                        0 <= j2,
                        j2 < m2 <= 0xFFFF,
                ;
            }
            all_commitments.push(bundle.commitments[j2]);
            j2 += 1;
        }
        proof {
            assert(all_nullifiers@.len() <= (i + 1) * 0xFFFF) by (nonlinear_arith)
                requires
                    all_nullifiers@.len() <= i * 0xFFFF + 0xFFFF,
            ;
            assert(all_commitments@.len() <= (i + 1) * 0xFFFF) by (nonlinear_arith)
                requires
                    all_commitments@.len() <= i * 0xFFFF + 0xFFFF,
            ;
        }
        i += 1;
    }
    proof {
        assert(all_nullifiers@.len() <= 0xFFFF * 0xFFFF) by (nonlinear_arith)
            requires
                all_nullifiers@.len() <= n * 0xFFFF,
                n <= 0xFFFF,
        ;
        assert(all_commitments@.len() <= 0xFFFF * 0xFFFF) by (nonlinear_arith)
            requires
                all_commitments@.len() <= n * 0xFFFF,
                n <= 0xFFFF,
        ;
    }
    let nf_digest = compute_nullifier_block_digest(&all_nullifiers);
    let cm_delta_digest = compute_commitment_delta_digest(&all_commitments);
    // The note-commitment root comes from the tree state machine at block
    // finalization; the leaf binds a zero root until then.
    let orch_digest = compute_orchard_root_digest(&[0u8; 32]);
    let leaf = BlockMMRLeaf {
        orchard_root_digest: orch_digest,
        nullifier_block_digest: nf_digest,
        commitment_delta_digest: cm_delta_digest,
    };
    let _leaf_hash = leaf.leaf_hash();
    Ok(())
}

} // verus!
