//! Batch encoding, the rolling window, and the block accumulator record.

use tachyon::basis::g0;
use tachyon::hashing::{hash_A_h, map_vesta_scalar_to_pallas};
use tachyon::points::{add_points, encode_point, mul_point};
use tachyon::record::{BlockAccumRecord, PallasPointBytes};
use tachyon::window::{serialize_batch, BatchItem, BatchUpdate, NullifierSMAWindow, Root};

#[test]
fn batch_encoding_roundtrip_size() {
    let batch = BatchUpdate(vec![
        BatchItem { key_hash: [1u8; 32], present: true },
        BatchItem { key_hash: [2u8; 32], present: false },
    ]);
    let enc = serialize_batch(&batch);
    assert_eq!(enc.len(), 8 + 2 * (32 + 1));
}

#[test]
fn batch_encoding_exact_bytes() {
    let batch = BatchUpdate(vec![BatchItem { key_hash: [7u8; 32], present: true }]);
    let enc = serialize_batch(&batch);
    assert_eq!(enc.len(), 8 + 33);
    // Little-endian count.
    assert_eq!(&enc[..8], &[1, 0, 0, 0, 0, 0, 0, 0]);
    assert_eq!(&enc[8..40], &[7u8; 32][..]);
    assert_eq!(enc[40], 1);
}

#[test]
fn batch_encoding_empty() {
    let batch = BatchUpdate(vec![]);
    let enc = serialize_batch(&batch);
    assert_eq!(enc.len(), 8);
}

#[test]
fn window_records_history() {
    let mut w = NullifierSMAWindow::new(32, Root([9u8; 32]));
    assert_eq!(w.window_len(), 1);
    let batch = BatchUpdate(vec![]);
    let r = w.apply_batch(&batch);
    assert_eq!(r, Root([9u8; 32]));
    assert_eq!(w.window_len(), 2);
    assert_eq!(w.recent_roots[0], Root([9u8; 32]));
    assert!(w.is_fresh(&[1u8; 32]));
}

/// Accumulator step scenario: a record built from `(A_i, P_i)` verifies,
/// and flipping any single byte of the state, the commitment, or the chain
/// hash makes verification fail.
#[test]
fn accumulator_step_scenario() {
    let roots = vec![
        tachyon::fields::FieldA::from_u64(3),
        tachyon::fields::FieldA::from_u64(5),
        tachyon::fields::FieldA::from_u64(7),
    ];
    let coeffs = tachyon::poly::roots_to_coeffs(&roots);
    let coeffs_b: Vec<tachyon::fields::FieldB> = coeffs
        .iter()
        .map(|c| map_vesta_scalar_to_pallas(&c.to_bytes()))
        .collect();
    let p_i = tachyon::msm::commit_coeffs(&coeffs_b);
    let a_i = g0();
    let a_i_bytes = encode_point(&a_i);
    let p_i_bytes = encode_point(&p_i);
    let h_i = hash_A_h(&a_i_bytes, &p_i_bytes);
    let h_scalar = map_vesta_scalar_to_pallas(&h_i);
    let a_next = add_points(&mul_point(&a_i, &h_scalar), &p_i);
    let record = BlockAccumRecord {
        p_i: PallasPointBytes(p_i_bytes),
        h_i,
        a_next: PallasPointBytes(encode_point(&a_next)),
        proof: vec![],
    };
    assert!(record.verify_step(&PallasPointBytes(a_i_bytes)));

    // Flipping one byte of A_i's encoding must fail verification.
    let mut bad_a = a_i_bytes;
    bad_a[3] ^= 0x01;
    assert!(!record.verify_step(&PallasPointBytes(bad_a)));

    // Flipping one byte of P_i's encoding must fail verification.
    let mut bad_rec = record.clone();
    bad_rec.p_i.0[5] ^= 0x01;
    assert!(!bad_rec.verify_step(&PallasPointBytes(a_i_bytes)));

    // Flipping one byte of h_i must fail verification.
    let mut bad_rec2 = record.clone();
    bad_rec2.h_i[0] ^= 0x01;
    assert!(!bad_rec2.verify_step(&PallasPointBytes(a_i_bytes)));
}

#[test]
fn from_ai_pi_matches_verify() {
    let a_i = PallasPointBytes(encode_point(&g0()));
    let p_i = PallasPointBytes(encode_point(&g0()));
    let rec = BlockAccumRecord::from_ai_pi(&a_i, &p_i, vec![]);
    assert!(rec.verify_step(&a_i));
}

#[test]
fn admit_and_verify_block() {
    let mut w = NullifierSMAWindow::new(32, Root([0u8; 32]));
    let bundle = tachyon::types::TachyonBundle::new();
    assert!(tachyon::mempool::admit_tx(&bundle, &mut w).is_ok());
    let bundles = vec![tachyon::types::TachyonBundle::new()];
    assert!(tachyon::mempool::verify_block(&bundles, &mut w).is_ok());
}
