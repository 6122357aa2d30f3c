//! Accumulator roots, proofs, canonical batch encoding, and the rolling
//! nullifier window.

use vstd::prelude::*;

use crate::bytes::{le8_of, push_bytes, push_le8};

verus! {

/// A 32-byte commitment encoding.
#[derive(Clone, Copy, PartialEq, Eq, Hash, Debug, Default)]
pub struct Commitment(pub [u8; 32]);

/// Running accumulator state `A`, as a 32-byte point encoding.
#[derive(Clone, Copy, PartialEq, Eq, Hash, Debug, Default)]
pub struct AState(pub [u8; 32]);

/// Wallet-side secondary accumulator state `S`, as a 32-byte encoding.
#[derive(Clone, Copy, PartialEq, Eq, Hash, Debug, Default)]
pub struct SState(pub [u8; 32]);

/// A 32-byte accumulator root.
#[derive(Clone, Copy, PartialEq, Eq, Hash, Debug, Default)]
pub struct Root(pub [u8; 32]);

/// One step of a sparse Merkle path.
#[derive(Clone, PartialEq, Eq, Debug)]
pub struct PathElem {
    pub sibling: [u8; 32],
    pub is_right: bool,
}

/// A sparse Merkle path from leaf to root, most significant bit first.
#[derive(Clone, PartialEq, Eq, Debug, Default)]
pub struct Path(pub Vec<PathElem>);

/// A membership proof binding a key to presence at a leaf.
#[derive(Clone, PartialEq, Eq, Debug)]
pub struct MembershipProof {
    pub key_hash: [u8; 32],
    pub path: Path,
}

/// A non-membership proof showing that the leaf for a key is empty.
#[derive(Clone, PartialEq, Eq, Debug)]
pub struct NonMembershipProof {
    pub key_hash: [u8; 32],
    pub path: Path,
}

/// One canonical batch item: key hash and presence bit.
#[derive(Clone, PartialEq, Eq, Debug)]
pub struct BatchItem {
    pub key_hash: [u8; 32],
    pub present: bool,
}

/// A deterministic batch update (sorted by key, no duplicates).
#[derive(Clone, PartialEq, Eq, Debug, Default)]
pub struct BatchUpdate(pub Vec<BatchItem>);

/// Accumulator interface for consensus and circuits.
pub trait SparseMerkleAccumulator {
    /// Domain size exponent (tree height `k`, so `2^k` leaves).
    fn height(&self) -> usize;

    /// Current root.
    fn root(&self) -> Root;

    /// Prove membership of a key.
    fn prove_membership(&self, key_hash: [u8; 32]) -> MembershipProof;

    /// Prove non-membership of a key.
    fn prove_non_membership(&self, key_hash: [u8; 32]) -> NonMembershipProof;

    /// Apply a canonical batch and return the new root.
    fn apply_batch(&mut self, batch: &BatchUpdate) -> Root;
}

/// Vector-commitment interface, letting a commitment backend replace the
/// literal tree while keeping the same surface.
pub trait VectorCommitment {
    /// Domain size exponent.
    fn height(&self) -> usize;

    /// Commitment root bytes.
    fn commit(&self) -> Root;

    /// Opening witness for a position.
    fn open(&self, position: u64) -> Vec<u8>;

    /// Verify an opening against a commitment.
    fn verify(commitment: &Root, position: u64, witness: &[u8]) -> bool;
}

/// The canonical serialization of a root: its raw 32 bytes.
pub fn serialize_root(root: &Root) -> (r: [u8; 32])
    ensures
        r@ == root.0@,
{
    root.0
}

/// The encoding of one batch item: 32 key bytes and one presence byte.
pub open spec fn item_enc(it: BatchItem) -> Seq<u8> {
    it.key_hash@ + seq![if it.present { 1u8 } else { 0u8 }]
}

/// The encodings of the first `i` batch items, in order.
pub open spec fn items_enc(items: Seq<BatchItem>) -> Seq<u8>
    decreases items.len(),
{
    if items.len() == 0 {
        Seq::<u8>::empty()
    } else {
        items_enc(items.drop_last()) + item_enc(items.last())
    }
}

/// The canonical batch encoding: the 8-byte little-endian item count, then
/// each item's 32-byte key hash and presence byte.
pub open spec fn batch_enc(items: Seq<BatchItem>) -> Seq<u8> {
    le8_of(items.len() as u64) + items_enc(items)
}

/// Each item contributes exactly 33 bytes.
pub proof fn lemma_items_enc_len(items: Seq<BatchItem>)
    ensures
        items_enc(items).len() == 33 * items.len(),
    decreases items.len(),
{
    if items.len() == 0 {
    } else {
        lemma_items_enc_len(items.drop_last());
    }
}

/// Deterministic batch serialization.  A batch of `k` items encodes to
/// exactly `8 + 33 * k` bytes.
pub fn serialize_batch(batch: &BatchUpdate) -> (r: Vec<u8>)
    requires
        batch.0@.len() <= u64::MAX,
    ensures
        r@ == batch_enc(batch.0@),
        r@.len() == 8 + 33 * batch.0@.len(),
{
    let items = &batch.0;
    let mut out: Vec<u8> = Vec::new();
    push_le8(&mut out, items.len() as u64);
    let ghost prefix = out@;
    assert(out@ =~= prefix + items_enc(items@.take(0)));
    let mut i: usize = 0;
    while i < items.len()
        invariant
            i <= items@.len(),
            out@ == prefix + items_enc(items@.take(i as int)),
        decreases items@.len() - i,
    {
        push_bytes(&mut out, items[i].key_hash.as_slice());
        if items[i].present {
            out.push(1u8);
        } else {
            out.push(0u8);
        }
        proof {
            let pre = items@.take(i as int);
            let post = items@.take(i + 1 as int);
            assert(post.drop_last() =~= pre);
            assert(post.last() == items@[i as int]);
            assert(out@ =~= prefix + (items_enc(pre) + item_enc(items@[i as int])));
        }
        i += 1;
    }
    proof {
        assert(items@.take(items@.len() as int) =~= items@);
        assert(out@ =~= batch_enc(items@));
        lemma_items_enc_len(items@);
    }
    out
}

/// Rolling window of nullifiers backed by a root history.  The window
/// records prior roots most-recent-first; wiring the polynomial-commitment
/// accumulator underneath it is the consensus layer's step.
#[derive(Clone, PartialEq, Eq, Debug)]
pub struct NullifierSMAWindow {
    /// Current accumulator root for the window.
    pub current_root: Root,
    /// Prior roots for windowed validation, most recent first.
    pub recent_roots: Vec<Root>,
    /// Height of the underlying accumulator.
    pub height: usize,
}

impl NullifierSMAWindow {
    /// A window with the given height and initial root, and no history.
    pub fn new(height: usize, initial_root: Root) -> (r: NullifierSMAWindow)
        ensures
            r.current_root == initial_root,
            r.recent_roots@.len() == 0,
            r.height == height,
    {
        NullifierSMAWindow { current_root: initial_root, recent_roots: Vec::new(), height }
    }

    /// Record the present root in the history and return it unchanged: the
    /// window itself does not fold the batch in.
    pub fn apply_batch(&mut self, batch: &BatchUpdate) -> (r: Root)
        requires
            old(self).recent_roots@.len() < usize::MAX,
        ensures
            r == old(self).current_root,
            final(self).current_root == old(self).current_root,
            final(self).height == old(self).height,
            final(self).recent_roots@ == seq![old(self).current_root] + old(self).recent_roots@,
    {
        let cur = self.current_root;
        self.recent_roots.insert(0, cur);
        assert(self.recent_roots@ =~= seq![old(self).current_root] + old(self).recent_roots@);
        cur
    }

    /// Whether a key hash is fresh within the current window.  The window
    /// holds no per-key state, so every key reports fresh.
    pub fn is_fresh(&self, key_hash: &[u8; 32]) -> (r: bool)
        ensures
            r == true,
    {
        let _ = key_hash;
        true
    }

    /// The number of roots the window covers, the current one included.
    pub fn window_len(&self) -> (r: usize)
        requires
            self.recent_roots@.len() < usize::MAX,
        ensures
            r == self.recent_roots@.len() + 1,
    {
        self.recent_roots.len() + 1
    }
}

} // verus!
