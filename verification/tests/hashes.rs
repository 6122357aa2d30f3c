//! Hash derivations: domain separation, determinism, and cross-checks
//! against the hash library itself.

use ff::PrimeField;
use tachyon::digests::{
    compute_commitment_delta_digest, compute_nullifier_block_digest, compute_orchard_root_digest,
    compute_unified_tachygram_block, derive_fixed_flavor, derive_offchain_sync_tag,
    derive_onchain_nullifier, BlockMMRLeaf,
};
use tachyon::hashing::{
    compress_nodes, derive_block_r, hash64_to32, hash_A_h, hash_S_h, tachygram_to_fr,
};

#[test]
fn accumulator_hashes_are_domain_separated() {
    let a = [1u8; 32];
    let b = [2u8; 32];
    let ha = hash_A_h(&a, &b);
    let hs = hash_S_h(&a, &b);
    let hr = derive_block_r(&a, &b);
    assert_ne!(ha, hs);
    assert_ne!(ha, hr);
    assert_ne!(hs, hr);
    // Deterministic, and sensitive to the inputs.
    assert_eq!(ha, hash_A_h(&a, &b));
    assert_ne!(ha, hash_A_h(&b, &a));
    assert_ne!(ha, a);
    assert_ne!(ha, b);
}

/// Cross-check the accumulator hash against the hash library called
/// directly with the same tag, length, and message.
#[test]
fn hash_a_matches_blake2b_direct() {
    let a = [7u8; 32];
    let p = [9u8; 32];
    let mut msg = [0u8; 64];
    msg[..32].copy_from_slice(&a);
    msg[32..].copy_from_slice(&p);
    let direct = blake2b_simd::Params::new()
        .hash_length(32)
        .personal(b"tachyon:A/h")
        .hash(&msg);
    let ours = hash_A_h(&a, &p);
    assert_eq!(&ours[..], direct.as_bytes());
}

#[test]
fn hash64_reduces_into_field() {
    let out = hash64_to32(&[5u8; 64]);
    // The output is a canonical field representation.
    let parsed = pasta_curves::vesta::Scalar::from_repr(out.into());
    assert!(bool::from(parsed.is_some()));
    assert_eq!(out, hash64_to32(&[5u8; 64]));
    assert_ne!(out, hash64_to32(&[6u8; 64]));
}

#[test]
fn compress_combines_both_nodes() {
    let l = [1u8; 32];
    let r = [2u8; 32];
    let c = compress_nodes(&l, &r);
    assert_ne!(c, compress_nodes(&r, &l));
    assert_eq!(c, compress_nodes(&l, &r));
}

#[test]
fn tachygram_map_is_deterministic_and_spreading() {
    let f1 = tachygram_to_fr(&[1u8; 32]);
    let f2 = tachygram_to_fr(&[1u8; 32]);
    assert_eq!(f1, f2);
    assert_ne!(f1, tachygram_to_fr(&[2u8; 32]));
    // The image is not the raw tag bytes.
    assert_ne!(f1.to_bytes(), [1u8; 32]);
}

#[test]
fn block_digests_are_domain_separated() {
    let items = vec![[3u8; 32]];
    let nf = compute_nullifier_block_digest(&items);
    let cm = compute_commitment_delta_digest(&items);
    let or = compute_orchard_root_digest(&[3u8; 32]);
    assert_ne!(nf.0, cm.0);
    assert_ne!(nf.0, or.0);
    let leaf = BlockMMRLeaf {
        orchard_root_digest: or,
        nullifier_block_digest: nf,
        commitment_delta_digest: cm,
    };
    let h = leaf.leaf_hash();
    assert_ne!(h, nf.0);
    assert_ne!(h, cm.0);
}

#[test]
fn unified_block_digest_depends_on_counts() {
    let one = vec![[1u8; 32]];
    let none: Vec<[u8; 32]> = vec![];
    let fees = vec![10u64];
    let d1 = compute_unified_tachygram_block(&one, &none, &none, &fees);
    let d2 = compute_unified_tachygram_block(&none, &one, &none, &fees);
    assert_ne!(d1, d2);
}

#[test]
fn nullifier_derivations_chain() {
    let flavor = derive_fixed_flavor(&[1u8; 32], &[2u8; 32]);
    let nf = derive_onchain_nullifier(&flavor, &[1u8; 32]);
    let sync = derive_offchain_sync_tag(&[9u8; 32], &flavor);
    assert_ne!(flavor.0, nf.0);
    assert_ne!(flavor.0, sync.0);
    assert_ne!(nf.0, sync.0);
    assert_eq!(flavor, derive_fixed_flavor(&[1u8; 32], &[2u8; 32]));
}
