//! Per-block digests, the history-tree leaf, and nullifier derivations.
//!
//! Each digest is a BLAKE2b-256 under its own fixed personalization tag, so
//! no two purposes can collide even on identical raw inputs.

use vstd::prelude::*;

use crate::bytes::{be4_of, be8_of, push_be4, push_be8, push_bytes};
use crate::hashing::{b256_of, blake2b_256_tagged};
use crate::types::{NullifierFlavor, OffchainSyncTag, OnChainNullifier, TachyonBundle,
    UnifiedTachygramDigest};

verus! {

/// BLAKE2b-256 digest of the latest note-commitment tree root.
#[derive(Clone, Copy, PartialEq, Eq, Debug, Default)]
pub struct OrchardRootDigest(pub [u8; 32]);

/// BLAKE2b-256 digest of the ordered per-block nullifier vector.
#[derive(Clone, Copy, PartialEq, Eq, Debug, Default)]
pub struct NullifierBlockDigest(pub [u8; 32]);

/// BLAKE2b-256 digest of the per-block commitment-tree delta.
#[derive(Clone, Copy, PartialEq, Eq, Debug, Default)]
pub struct CommitmentDeltaDigest(pub [u8; 32]);

/// History-tree leaf extension committed in chain history.
#[derive(Clone, Copy, PartialEq, Eq, Debug, Default)]
pub struct BlockMMRLeaf {
    pub orchard_root_digest: OrchardRootDigest,
    pub nullifier_block_digest: NullifierBlockDigest,
    pub commitment_delta_digest: CommitmentDeltaDigest,
}

/// The concatenation of a list of 32-byte strings.
pub open spec fn cat32(s: Seq<[u8; 32]>) -> Seq<u8>
    decreases s.len(),
{
    if s.len() == 0 {
        Seq::<u8>::empty()
    } else {
        cat32(s.drop_last()) + s.last()@
    }
}

/// Append the concatenation of a list of 32-byte strings.
fn push_cat32(out: &mut Vec<u8>, items: &Vec<[u8; 32]>)
    ensures
        final(out)@ == old(out)@ + cat32(items@),
{
    let ghost orig = out@;
    assert(out@ =~= orig + cat32(items@.take(0)));
    let mut i: usize = 0;
    while i < items.len()
        invariant
            i <= items@.len(),
            out@ == orig + cat32(items@.take(i as int)),
        decreases items@.len() - i,
    {
        push_bytes(out, items[i].as_slice());
        proof {
            let pre = items@.take(i as int);
            let post = items@.take(i + 1 as int);
            assert(post.drop_last() =~= pre);
            assert(post.last() == items@[i as int]);
        }
        i += 1;
    }
    assert(items@.take(items@.len() as int) =~= items@);
}

/// Domain tag of the note-commitment root digest.
pub open spec fn tag_orch_root() -> Seq<u8> {
    seq![111u8, 114u8, 99u8, 104u8, 46u8, 114u8, 111u8, 111u8, 116u8, 46u8, 118u8, 49u8, 0u8, 0u8, 0u8, 0u8]
}

fn tag_orch_root_bytes() -> (r: Vec<u8>)
    ensures
        r@ == tag_orch_root(),
        r@.len() == 16,
{
    let v: Vec<u8> = vec![
        111u8, 114u8, 99u8, 104u8, 46u8, 114u8, 111u8, 111u8, 116u8, 46u8, 118u8, 49u8, 0u8,
        0u8, 0u8, 0u8,
    ];
    assert(v@ =~= tag_orch_root());
    v
}

/// Domain tag of the per-block nullifier digest.
pub open spec fn tag_nf_block() -> Seq<u8> {
    seq![110u8, 102u8, 46u8, 98u8, 108u8, 111u8, 99u8, 107u8, 46u8, 118u8, 49u8, 0u8, 0u8, 0u8, 0u8, 0u8]
}

fn tag_nf_block_bytes() -> (r: Vec<u8>)
    ensures
        r@ == tag_nf_block(),
        r@.len() == 16,
{
    let v: Vec<u8> = vec![
        110u8, 102u8, 46u8, 98u8, 108u8, 111u8, 99u8, 107u8, 46u8, 118u8, 49u8, 0u8, 0u8, 0u8,
        0u8, 0u8,
    ];
    assert(v@ =~= tag_nf_block());
    v
}

/// Domain tag of the commitment-delta digest.
pub open spec fn tag_cm_delta() -> Seq<u8> {
    seq![99u8, 109u8, 46u8, 100u8, 101u8, 108u8, 116u8, 97u8, 46u8, 118u8, 49u8, 0u8, 0u8, 0u8, 0u8, 0u8]
}

fn tag_cm_delta_bytes() -> (r: Vec<u8>)
    ensures
        r@ == tag_cm_delta(),
        r@.len() == 16,
{
    let v: Vec<u8> = vec![
        99u8, 109u8, 46u8, 100u8, 101u8, 108u8, 116u8, 97u8, 46u8, 118u8, 49u8, 0u8, 0u8, 0u8,
        0u8, 0u8,
    ];
    assert(v@ =~= tag_cm_delta());
    v
}

/// Domain tag of the history-tree leaf hash.
pub open spec fn tag_mmr_leaf() -> Seq<u8> {
    seq![109u8, 109u8, 114u8, 46u8, 108u8, 101u8, 97u8, 102u8, 46u8, 118u8, 49u8, 0u8, 0u8, 0u8, 0u8, 0u8]
}

fn tag_mmr_leaf_bytes() -> (r: Vec<u8>)
    ensures
        r@ == tag_mmr_leaf(),
        r@.len() == 16,
{
    let v: Vec<u8> = vec![
        109u8, 109u8, 114u8, 46u8, 108u8, 101u8, 97u8, 102u8, 46u8, 118u8, 49u8, 0u8, 0u8, 0u8,
        0u8, 0u8,
    ];
    assert(v@ =~= tag_mmr_leaf());
    v
}

/// Domain tag of the block-level unified tachygram digest.
pub open spec fn tag_tg_unified_block() -> Seq<u8> {
    seq![116u8, 103u8, 46u8, 117u8, 110u8, 105u8, 102u8, 105u8, 101u8, 100u8, 46u8, 98u8, 108u8, 107u8, 0u8, 0u8]
}

fn tag_tg_unified_block_bytes() -> (r: Vec<u8>)
    ensures
        r@ == tag_tg_unified_block(),
        r@.len() == 16,
{
    let v: Vec<u8> = vec![
        116u8, 103u8, 46u8, 117u8, 110u8, 105u8, 102u8, 105u8, 101u8, 100u8, 46u8, 98u8, 108u8,
        107u8, 0u8, 0u8,
    ];
    assert(v@ =~= tag_tg_unified_block());
    v
}

/// Domain tag of the fixed nullifier flavor derivation.
pub open spec fn tag_flavor() -> Seq<u8> {
    seq![116u8, 97u8, 99u8, 104u8, 121u8, 111u8, 110u8, 46u8, 102u8, 108u8, 97u8, 118u8, 111u8, 114u8, 0u8, 0u8]
}

fn tag_flavor_bytes() -> (r: Vec<u8>)
    ensures
        r@ == tag_flavor(),
        r@.len() == 16,
{
    let v: Vec<u8> = vec![
        116u8, 97u8, 99u8, 104u8, 121u8, 111u8, 110u8, 46u8, 102u8, 108u8, 97u8, 118u8, 111u8,
        114u8, 0u8, 0u8,
    ];
    assert(v@ =~= tag_flavor());
    v
}

/// Domain tag of the on-chain nullifier derivation.
pub open spec fn tag_nf() -> Seq<u8> {
    seq![116u8, 97u8, 99u8, 104u8, 121u8, 111u8, 110u8, 46u8, 110u8, 102u8, 46u8, 118u8, 49u8, 0u8, 0u8, 0u8]
}

fn tag_nf_bytes() -> (r: Vec<u8>)
    ensures
        r@ == tag_nf(),
        r@.len() == 16,
{
    let v: Vec<u8> = vec![
        116u8, 97u8, 99u8, 104u8, 121u8, 111u8, 110u8, 46u8, 110u8, 102u8, 46u8, 118u8, 49u8,
        0u8, 0u8, 0u8,
    ];
    assert(v@ =~= tag_nf());
    v
}

/// Domain tag of the off-chain sync-tag derivation.
pub open spec fn tag_sync() -> Seq<u8> {
    seq![116u8, 97u8, 99u8, 104u8, 121u8, 111u8, 110u8, 46u8, 115u8, 121u8, 110u8, 99u8, 46u8, 118u8, 49u8, 0u8]
}

fn tag_sync_bytes() -> (r: Vec<u8>)
    ensures
        r@ == tag_sync(),
        r@.len() == 16,
{
    let v: Vec<u8> = vec![
        116u8, 97u8, 99u8, 104u8, 121u8, 111u8, 110u8, 46u8, 115u8, 121u8, 110u8, 99u8, 46u8,
        118u8, 49u8, 0u8,
    ];
    assert(v@ =~= tag_sync());
    v
}

/// Domain tag of the per-transaction unified tachygram digest.
pub open spec fn tag_tg_unified_tx() -> Seq<u8> {
    seq![116u8, 103u8, 46u8, 117u8, 110u8, 105u8, 102u8, 105u8, 101u8, 100u8, 46u8, 116u8, 120u8, 46u8, 118u8, 49u8]
}

fn tag_tg_unified_tx_bytes() -> (r: Vec<u8>)
    ensures
        r@ == tag_tg_unified_tx(),
        r@.len() == 16,
{
    let v: Vec<u8> = vec![
        116u8, 103u8, 46u8, 117u8, 110u8, 105u8, 102u8, 105u8, 101u8, 100u8, 46u8, 116u8, 120u8,
        46u8, 118u8, 49u8,
    ];
    assert(v@ =~= tag_tg_unified_tx());
    v
}

/// Compute the digest of the current note-commitment tree root.
pub fn compute_orchard_root_digest(root: &[u8; 32]) -> (r: OrchardRootDigest)
    ensures
        r.0@ == b256_of(tag_orch_root(), root@),
{
    let tag = tag_orch_root_bytes();
    let mut msg: Vec<u8> = Vec::new();
    push_bytes(&mut msg, root.as_slice());
    assert(msg@ =~= root@);
    OrchardRootDigest(blake2b_256_tagged(&tag, &msg))
}

/// Compute the digest of the ordered per-block nullifier vector.
pub fn compute_nullifier_block_digest(nullifiers: &Vec<[u8; 32]>) -> (r: NullifierBlockDigest)
    ensures
        r.0@ == b256_of(tag_nf_block(), cat32(nullifiers@)),
{
    let tag = tag_nf_block_bytes();
    let mut msg: Vec<u8> = Vec::new();
    push_cat32(&mut msg, nullifiers);
    assert(msg@ =~= cat32(nullifiers@));
    NullifierBlockDigest(blake2b_256_tagged(&tag, &msg))
}

/// Compute the digest of the ordered per-block commitment additions.
pub fn compute_commitment_delta_digest(commitments: &Vec<[u8; 32]>) -> (r: CommitmentDeltaDigest)
    ensures
        r.0@ == b256_of(tag_cm_delta(), cat32(commitments@)),
{
    let tag = tag_cm_delta_bytes();
    let mut msg: Vec<u8> = Vec::new();
    push_cat32(&mut msg, commitments);
    assert(msg@ =~= cat32(commitments@));
    CommitmentDeltaDigest(blake2b_256_tagged(&tag, &msg))
}

impl BlockMMRLeaf {
    /// Hash the leaf triple into a single 32-byte value.
    pub fn leaf_hash(&self) -> (r: [u8; 32])
        ensures
            r@ == b256_of(
                tag_mmr_leaf(),
                self.orchard_root_digest.0@ + self.nullifier_block_digest.0@
                    + self.commitment_delta_digest.0@,
            ),
    {
        let tag = tag_mmr_leaf_bytes();
        let mut msg: Vec<u8> = Vec::new();
        push_bytes(&mut msg, self.orchard_root_digest.0.as_slice());
        push_bytes(&mut msg, self.nullifier_block_digest.0.as_slice());
        push_bytes(&mut msg, self.commitment_delta_digest.0.as_slice());
        assert(msg@ =~= self.orchard_root_digest.0@ + self.nullifier_block_digest.0@
            + self.commitment_delta_digest.0@);
        blake2b_256_tagged(&tag, &msg)
    }
}

/// The concatenation of the big-endian encodings of a list of fees.
pub open spec fn cat_fees(fs: Seq<u64>) -> Seq<u8>
    decreases fs.len(),
{
    if fs.len() == 0 {
        Seq::<u8>::empty()
    } else {
        cat_fees(fs.drop_last()) + be8_of(fs.last())
    }
}

/// The canonical message of the block-level unified tachygram digest:
/// each list length-prefixed, in a fixed order.
pub open spec fn unified_block_msg(
    nullifiers: Seq<[u8; 32]>,
    commitments: Seq<[u8; 32]>,
    value_commitments: Seq<[u8; 32]>,
    fees: Seq<u64>,
) -> Seq<u8> {
    be4_of(nullifiers.len() as u32) + cat32(nullifiers) + be4_of(commitments.len() as u32)
        + cat32(commitments) + be4_of(value_commitments.len() as u32) + cat32(value_commitments)
        + be4_of(fees.len() as u32) + cat_fees(fees)
}

/// Block-level unified tachygram digest over on-chain primitives, counts
/// and order preserved.
pub fn compute_unified_tachygram_block(
    nullifiers: &Vec<[u8; 32]>,
    commitments: &Vec<[u8; 32]>,
    value_commitments: &Vec<[u8; 32]>,
    fees: &Vec<u64>,
) -> (r: [u8; 32])
    requires
        nullifiers@.len() <= u32::MAX,
        commitments@.len() <= u32::MAX,
        value_commitments@.len() <= u32::MAX,
        fees@.len() <= u32::MAX,
    ensures
        r@ == b256_of(
            tag_tg_unified_block(),
            unified_block_msg(nullifiers@, commitments@, value_commitments@, fees@),
        ),
{
    let tag = tag_tg_unified_block_bytes();
    let mut msg: Vec<u8> = Vec::new();
    push_be4(&mut msg, nullifiers.len() as u32);
    push_cat32(&mut msg, nullifiers);
    push_be4(&mut msg, commitments.len() as u32);
    push_cat32(&mut msg, commitments);
    push_be4(&mut msg, value_commitments.len() as u32);
    push_cat32(&mut msg, value_commitments);
    push_be4(&mut msg, fees.len() as u32);
    let ghost before_fees = msg@;
    let mut i: usize = 0;
    assert(msg@ =~= before_fees + cat_fees(fees@.take(0)));
    while i < fees.len()
        invariant
            i <= fees@.len(),
            msg@ == before_fees + cat_fees(fees@.take(i as int)),
        decreases fees@.len() - i,
    {
        push_be8(&mut msg, fees[i]);
        proof {
            let pre = fees@.take(i as int);
            let post = fees@.take(i + 1 as int);
            assert(post.drop_last() =~= pre);
            assert(post.last() == fees@[i as int]);
        }
        i += 1;
    }
    proof {
        assert(fees@.take(fees@.len() as int) =~= fees@);
        assert(msg@ =~= unified_block_msg(nullifiers@, commitments@, value_commitments@, fees@));
    }
    blake2b_256_tagged(&tag, &msg)
}

/// Derive the fixed nullifier flavor at output creation; committed inside
/// the note and immutable for the note's lifetime.
pub fn derive_fixed_flavor(note_commitment: &[u8; 32], note_randomness: &[u8; 32]) -> (r:
    NullifierFlavor)
    ensures
        r.0@ == b256_of(tag_flavor(), note_commitment@ + note_randomness@),
{
    let tag = tag_flavor_bytes();
    let mut msg: Vec<u8> = Vec::new();
    push_bytes(&mut msg, note_commitment.as_slice());
    push_bytes(&mut msg, note_randomness.as_slice());
    assert(msg@ =~= note_commitment@ + note_randomness@);
    NullifierFlavor(blake2b_256_tagged(&tag, &msg))
}

/// Derive the deterministic on-chain nullifier from the fixed flavor and
/// the public note commitment; globally unique per note.
pub fn derive_onchain_nullifier(fixed_flavor: &NullifierFlavor, note_commitment: &[u8; 32]) -> (r:
    OnChainNullifier)
    ensures
        r.0@ == b256_of(tag_nf(), fixed_flavor.0@ + note_commitment@),
{
    let tag = tag_nf_bytes();
    let mut msg: Vec<u8> = Vec::new();
    push_bytes(&mut msg, fixed_flavor.0.as_slice());
    push_bytes(&mut msg, note_commitment.as_slice());
    assert(msg@ =~= fixed_flavor.0@ + note_commitment@);
    OnChainNullifier(blake2b_256_tagged(&tag, &msg))
}

/// Derive a wallet-private off-chain sync tag from a view key and the fixed
/// flavor.
pub fn derive_offchain_sync_tag(view_key: &[u8; 32], fixed_flavor: &NullifierFlavor) -> (r:
    OffchainSyncTag)
    ensures
        r.0@ == b256_of(tag_sync(), view_key@ + fixed_flavor.0@),
{
    let tag = tag_sync_bytes();
    let mut msg: Vec<u8> = Vec::new();
    push_bytes(&mut msg, view_key.as_slice());
    push_bytes(&mut msg, fixed_flavor.0.as_slice());
    assert(msg@ =~= view_key@ + fixed_flavor.0@);
    OffchainSyncTag(blake2b_256_tagged(&tag, &msg))
}

/// The canonical message of the per-transaction unified tachygram digest.
pub open spec fn unified_tx_msg(
    nullifiers: Seq<[u8; 32]>,
    commitments: Seq<[u8; 32]>,
    value_commitment: Seq<u8>,
    fee: u64,
) -> Seq<u8> {
    be4_of(nullifiers.len() as u32) + cat32(nullifiers) + be4_of(commitments.len() as u32)
        + cat32(commitments) + value_commitment + be8_of(fee)
}

/// Derive the unified tachygram digest of a bundle's on-chain primitives.
pub fn derive_unified_tachygram_tx(bundle: &TachyonBundle) -> (r: UnifiedTachygramDigest)
    requires
        bundle.nullifiers@.len() <= u32::MAX,
        bundle.commitments@.len() <= u32::MAX,
    ensures
        r.0@ == b256_of(
            tag_tg_unified_tx(),
            unified_tx_msg(
                bundle.nullifiers@,
                bundle.commitments@,
                bundle.value_commitment@,
                bundle.fee,
            ),
        ),
{
    let tag = tag_tg_unified_tx_bytes();
    let mut msg: Vec<u8> = Vec::new();
    push_be4(&mut msg, bundle.nullifiers.len() as u32);
    push_cat32(&mut msg, &bundle.nullifiers);
    push_be4(&mut msg, bundle.commitments.len() as u32);
    push_cat32(&mut msg, &bundle.commitments);
    push_bytes(&mut msg, bundle.value_commitment.as_slice());
    push_be8(&mut msg, bundle.fee);
    assert(msg@ =~= unified_tx_msg(
        bundle.nullifiers@,
        bundle.commitments@,
        bundle.value_commitment@,
        bundle.fee,
    ));
    UnifiedTachygramDigest(blake2b_256_tagged(&tag, &msg))
}

} // verus!
