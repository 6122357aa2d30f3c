//! Block and wallet step checks, and the block publisher.

use tachyon::basis::g0;
use tachyon::block::{prove_block_poly, BlockPolyWitness, BlockStepError};
use tachyon::fields::{FieldA, FieldB};
use tachyon::hashing::map_vesta_scalar_to_pallas;
use tachyon::msm::commit_coeffs;
use tachyon::points::encode_point;
use tachyon::poly::roots_to_coeffs;
use tachyon::publisher::build_block_record;
use tachyon::record::PallasPointBytes;
use tachyon::wallet::{prove_wallet_step, WalletStepError, WalletStepWitness};

fn map_coeffs(coeffs: &[FieldA]) -> Vec<FieldB> {
    coeffs.iter().map(|c| map_vesta_scalar_to_pallas(&c.to_bytes())).collect()
}

#[test]
fn block_poly_off_circuit_sanity() {
    // Small example with 3 roots.
    let roots: Vec<FieldA> = [3u64, 5, 7].iter().map(|&v| FieldA::from_u64(v)).collect();
    let coeffs = roots_to_coeffs(&roots);
    let p_i = commit_coeffs(&map_coeffs(&coeffs));
    let a_i = g0();
    let wit = BlockPolyWitness { roots, coeffs, p_i, a_i };
    let (_public, _proof) = prove_block_poly(&wit).expect("off-circuit check");
}

#[test]
fn wallet_step_off_circuit_sanity() {
    // Use alpha != 0 and its inverse.
    let alpha = FieldA::from_u64(9);
    let alpha_inv = alpha.invert().unwrap();
    let p_i = g0();
    let a_i = g0();
    let s_i = g0();
    let wit = WalletStepWitness {
        v: FieldA::from_u64(1),
        alpha_i: alpha,
        alpha_inv,
        p_i,
        s_i,
        a_i,
    };
    let (_public, _proof) = prove_wallet_step(&wit).expect("off-circuit step");
}

/// Wallet step sanity: with the true inverse the step succeeds and returns
/// three point encodings; a false inverse is an explicit error.
#[test]
fn wallet_step_sanity() {
    let alpha = FieldA::from_u64(9);
    let alpha_inv = alpha.invert().unwrap();
    let base = g0();
    let wit = WalletStepWitness {
        v: FieldA::from_u64(1),
        alpha_i: alpha,
        alpha_inv,
        p_i: base,
        s_i: base,
        a_i: base,
    };
    let (public, proof) = prove_wallet_step(&wit).expect("true inverse must succeed");
    assert!(proof.is_empty());
    assert_eq!(public.a_i_bytes, encode_point(&base));
    // All three outputs are 32-byte encodings; the updated states differ
    // from the inputs.
    assert_ne!(public.a_next_bytes, public.a_i_bytes);
    assert_ne!(public.s_next_bytes, public.a_i_bytes);

    let bad = WalletStepWitness { alpha_inv: FieldA::from_u64(5), ..wit };
    match prove_wallet_step(&bad) {
        Err(WalletStepError::AlphaInverseMismatch) => {},
        _ => panic!("a wrong inverse must be refused"),
    }
}

#[test]
fn block_step_refuses_commitment_mismatch() {
    let roots: Vec<FieldA> = vec![FieldA::from_u64(3)];
    let coeffs = roots_to_coeffs(&roots);
    let wit = BlockPolyWitness {
        roots,
        coeffs,
        p_i: g0(),  // not the commitment to the coefficients
        a_i: g0(),
    };
    match prove_block_poly(&wit) {
        Err(BlockStepError::CommitmentMismatch) => {},
        _ => panic!("a wrong commitment must be refused"),
    }
}

#[test]
fn block_step_refuses_identity_failure() {
    // A commitment that matches the claimed coefficients, but coefficients
    // that are not the expansion of the roots.
    let roots: Vec<FieldA> = vec![FieldA::from_u64(3)];
    let wrong_coeffs: Vec<FieldA> = vec![FieldA::from_u64(5), FieldA::from_u64(1)];
    let p_i = commit_coeffs(&map_coeffs(&wrong_coeffs));
    let wit = BlockPolyWitness { roots, coeffs: wrong_coeffs, p_i, a_i: g0() };
    match prove_block_poly(&wit) {
        Err(BlockStepError::PolynomialIdentity) => {},
        _ => panic!("a false identity must be refused"),
    }
}

#[test]
fn publisher_builds_verifiable_record() {
    let a_i = PallasPointBytes(encode_point(&g0()));
    let grams: Vec<[u8; 32]> = vec![[1u8; 32], [2u8; 32], [3u8; 32], [2u8; 32]];
    let record = build_block_record(&a_i, &grams).expect("publisher step");
    assert!(record.verify_step(&a_i));
    assert!(record.proof.is_empty());
    // Duplicated tags do not change the record: the root set is
    // deduplicated before expansion.
    let grams_dedup: Vec<[u8; 32]> = vec![[1u8; 32], [2u8; 32], [3u8; 32]];
    let record2 = build_block_record(&a_i, &grams_dedup).expect("publisher step");
    assert_eq!(record, record2);
}

#[test]
fn publisher_empty_block() {
    let a_i = PallasPointBytes(encode_point(&g0()));
    let record = build_block_record(&a_i, &vec![]).expect("empty block");
    assert!(record.verify_step(&a_i));
}
