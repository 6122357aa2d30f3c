//! Interface types shared with a proving backend.
//!
//! The core computes the off-circuit reference values; a swappable proving
//! backend consumes the same witnesses and carries these bundles of proof
//! bytes and public inputs.  Nothing here interprets the proof bytes.

use vstd::prelude::*;

verus! {

/// Opaque proof bytes.
#[derive(Clone, PartialEq, Eq, Debug)]
pub struct ProofBytes(pub Vec<u8>);

/// Opaque verifying-key bytes.
#[derive(Clone, PartialEq, Eq, Debug)]
pub struct VerifyingKey(pub Vec<u8>);

/// Opaque proving-key bytes.
#[derive(Clone, PartialEq, Eq, Debug)]
pub struct ProvingKey(pub Vec<u8>);

/// Domain separator between block-level and transaction-level proofs.
#[derive(Clone, Copy, PartialEq, Eq, Debug)]
pub struct DomainSep {
    pub is_block: bool,
}

/// The authorizing-data digest bound inside a transaction proof.
#[derive(Clone, Copy, PartialEq, Eq, Debug, Default)]
pub struct AuthorizingDigest(pub [u8; 32]);

/// Public inputs of a transaction-level proof.
#[derive(Clone, PartialEq, Eq, Debug)]
pub struct TxPCDPublic {
    pub range_anchor_min_pos: u64,
    pub range_anchor_max_pos: u64,
    pub range_root_min: [u8; 32],
    pub range_root_max: [u8; 32],
    pub authorizing_digest: AuthorizingDigest,
    pub nullifiers: Vec<[u8; 32]>,
    pub commitments: Vec<[u8; 32]>,
    pub value_commitment: [u8; 32],
    pub fee: u64,
    pub hash_orchard_root: [u8; 32],
    pub hash_nullifier_block: [u8; 32],
    pub hash_commitment_delta: [u8; 32],
}

/// Public inputs of an aggregate-level proof.
#[derive(Clone, PartialEq, Eq, Debug)]
pub struct AggPCDPublic {
    pub total_count: u32,
    pub included_txids_digest: [u8; 32],
    pub window_root: [u8; 32],
    pub block_mmr_leaf_hash: [u8; 32],
}

/// A transaction-level proof with its public inputs.
#[derive(Clone, PartialEq, Eq, Debug)]
pub struct TxPCD {
    pub proof: ProofBytes,
    pub public: TxPCDPublic,
}

/// An aggregate-level proof with its public inputs.
#[derive(Clone, PartialEq, Eq, Debug)]
pub struct AggPCD {
    pub proof: ProofBytes,
    pub public: AggPCDPublic,
}

/// A domain-tagged proof attached to one transaction.
#[derive(Clone, PartialEq, Eq, Debug)]
pub struct Tachystamp {
    pub proof: ProofBytes,
    pub domain: DomainSep,
}

/// A domain-tagged aggregate over a number of transactions.
#[derive(Clone, PartialEq, Eq, Debug)]
pub struct Aggregate {
    pub proof: ProofBytes,
    pub domain: DomainSep,
    pub count: u32,
}

} // verus!
