//! Core transaction and consensus data types.

use vstd::prelude::*;

verus! {

/// Length of a tachygram (nullifier tag) in bytes.
pub const TACHYGRAM_LEN: usize = 32;

/// Length of an accumulator or tree root in bytes.
pub const ROOT_LEN: usize = 32;

/// Length of a RedPallas signature in bytes.
pub const REDPALLAS_SIG_LEN: usize = 64;

/// Length of a transaction id in bytes.
pub const TXID_LEN: usize = 32;

/// A 32-byte nullifier tag.
#[derive(Clone, Copy, PartialEq, Eq, Debug, Default)]
pub struct Tachygram(pub [u8; 32]);

/// A spend or output action.
#[derive(Clone, PartialEq, Eq, Debug)]
pub enum Tachyaction {
    Spend { nf: [u8; 32], value: u64 },
    Output { cm: [u8; 32], value: u64 },
}

/// Opaque encoded stamp bytes.
#[derive(Clone, PartialEq, Eq, Debug, Default)]
pub struct TachystampBytes(pub Vec<u8>);

/// A pair of anchoring roots.
#[derive(Clone, PartialEq, Eq, Debug, Default)]
pub struct AnchorRange {
    pub start: [u8; 32],
    pub end: [u8; 32],
}

/// A transaction bundle with its on-chain primitives.
#[derive(Clone, PartialEq, Eq, Debug)]
pub struct TachyonBundle {
    pub actions: Vec<Tachyaction>,
    pub grams: Vec<Tachygram>,
    pub stamp: Option<TachystampBytes>,
    pub range: Option<AnchorRange>,
    pub nullifiers: Vec<[u8; 32]>,
    pub commitments: Vec<[u8; 32]>,
    pub value_commitment: [u8; 32],
    pub fee: u64,
}

impl TachyonBundle {
    /// An empty bundle.
    pub fn new() -> (r: TachyonBundle)
        ensures
            r.actions@.len() == 0,
            r.grams@.len() == 0,
            r.stamp is None,
            r.range is None,
            r.nullifiers@.len() == 0,
            r.commitments@.len() == 0,
            r.value_commitment@ == Seq::new(32, |i: int| 0u8),
            r.fee == 0,
    {
        let vc = [0u8; 32];
        assert(vc@ =~= Seq::new(32, |i: int| 0u8));
        TachyonBundle {
            actions: Vec::new(),
            grams: Vec::new(),
            stamp: None,
            range: None,
            nullifiers: Vec::new(),
            commitments: Vec::new(),
            value_commitment: vc,
            fee: 0,
        }
    }
}

/// Fixed, output-time nullifier flavor committed in the note.
#[derive(Clone, Copy, PartialEq, Eq, Debug, Default)]
pub struct NullifierFlavor(pub [u8; 32]);

/// Deterministic on-chain nullifier derived from the fixed flavor.
#[derive(Clone, Copy, PartialEq, Eq, Debug, Default)]
pub struct OnChainNullifier(pub [u8; 32]);

/// Wallet-private off-chain sync tag; never on-chain.
#[derive(Clone, Copy, PartialEq, Eq, Debug, Default)]
pub struct OffchainSyncTag(pub [u8; 32]);

/// A 64-byte RedPallas signature.
#[derive(Clone, Copy, PartialEq, Eq, Hash, Debug)]
pub struct RedPallasSig(pub [u8; 64]);

/// An anchor over a position range of the note-commitment tree.
#[derive(Clone, PartialEq, Eq, Debug)]
pub struct RangeAnchor {
    pub min_pos: u64,
    pub max_pos: u64,
    pub root_min: [u8; 32],
    pub root_max: [u8; 32],
    pub frontier_attestation: Vec<u8>,
}

/// Opaque recursive proof bytes.
#[derive(Clone, PartialEq, Eq, Debug)]
pub struct PcdProof(pub Vec<u8>);

/// The per-transaction stamp carried in the new pool.
#[derive(Clone, PartialEq, Eq, Debug)]
pub struct Tachystamp {
    pub range_anchor: RangeAnchor,
    pub tachygrams: Vec<Tachygram>,
    pub auth: RedPallasSig,
    pub pcd_proof: PcdProof,
}

/// An aggregate proof over an exact, ordered transaction id list.
#[derive(Clone, PartialEq, Eq, Debug)]
pub struct AggregateProof {
    pub txids: Vec<[u8; 32]>,
    pub proof: Vec<u8>,
}

/// Digest binding a bundle's on-chain primitives into one 32-byte value.
#[derive(Clone, Copy, PartialEq, Eq, Debug, Default)]
pub struct UnifiedTachygramDigest(pub [u8; 32]);

} // verus!
