//! MSM agreement, basis determinism, commitment encoding.

use tachyon::basis::{derive_base, derive_bases_len, g0};
use tachyon::fields::FieldB;
use tachyon::hashing::map_vesta_scalar_to_pallas;
use tachyon::msm::{commit_coeffs, msm_pippenger, msm_reference};
use tachyon::points::{add_points, encode_point, mul_point};

/// Full-range pseudo-arbitrary field B scalars, via wide reduction.
fn spread_scalars(n: usize) -> Vec<FieldB> {
    (0..n)
        .map(|i| {
            let mut b = [0u8; 32];
            b[0] = (i & 0xff) as u8;
            b[1] = ((i >> 8) & 0xff) as u8;
            b[2] = 0xA5;
            map_vesta_scalar_to_pallas(&b)
        })
        .collect()
}

fn check_agreement(n: usize) {
    let bases = derive_bases_len(n);
    let scalars = spread_scalars(n);
    let fast = msm_pippenger(&bases, &scalars);
    let slow = msm_reference(&bases, &scalars);
    assert_eq!(encode_point(&fast), encode_point(&slow));
}

/// MSM agreement: the windowed bucket method and the direct accumulation
/// agree on every tested input size.
#[test]
fn msm_agreement() {
    for n in [1usize, 2, 3] {
        check_agreement(n);
    }
}

#[test]
fn msm_agreement_mid() {
    for n in [7usize, 16] {
        check_agreement(n);
    }
}

#[test]
fn msm_agreement_window_boundary() {
    // 33 crosses the first window-width threshold.
    check_agreement(33);
}

#[test]
fn msm_agreement_64() {
    check_agreement(64);
}

#[test]
fn msm_empty_is_identity() {
    let bases = derive_bases_len(0);
    let scalars: Vec<FieldB> = vec![];
    let fast = msm_pippenger(&bases, &scalars);
    let slow = msm_reference(&bases, &scalars);
    assert_eq!(encode_point(&fast), [0u8; 32]);
    assert_eq!(encode_point(&slow), [0u8; 32]);
}

#[test]
fn msm_mismatched_lengths_use_shorter() {
    let bases = derive_bases_len(5);
    let scalars = spread_scalars(3);
    let fast = msm_pippenger(&bases, &scalars);
    let short_bases = derive_bases_len(3);
    let slow = msm_reference(&short_bases, &scalars);
    assert_eq!(encode_point(&fast), encode_point(&slow));
}

/// Basis determinism: the same indices give identical bytes, and distinct
/// indices give distinct points.
#[test]
fn basis_determinism() {
    let a1 = derive_base(0, 0);
    let a2 = derive_base(0, 0);
    assert_eq!(encode_point(&a1), encode_point(&a2));
    let b = derive_base(0, 1);
    assert_ne!(encode_point(&a1), encode_point(&b));
    let c = derive_base(1, 0);
    assert_ne!(encode_point(&a1), encode_point(&c));
    assert_eq!(encode_point(&g0()), encode_point(&derive_base(0, 0)));
}

#[test]
fn bases_len_walks_chunks() {
    let bases = derive_bases_len(3);
    assert_eq!(bases.len(), 3);
    assert_eq!(encode_point(&bases[0]), encode_point(&derive_base(0, 0)));
    assert_eq!(encode_point(&bases[1]), encode_point(&derive_base(0, 1)));
    assert_eq!(encode_point(&bases[2]), encode_point(&derive_base(0, 2)));
}

#[test]
fn ipa_commit_encodes_point() {
    // 4 coefficients; the commitment should produce a valid encoding.
    let coeffs: Vec<FieldB> =
        [1u64, 2, 3, 4].iter().map(|&v| FieldB::from_u64(v)).collect();
    let c = commit_coeffs(&coeffs);
    let bytes = encode_point(&c);
    assert!(bytes.iter().any(|&b| b != 0));
}

#[test]
fn commit_matches_reference() {
    let coeffs = spread_scalars(10);
    let c = commit_coeffs(&coeffs);
    let bases = derive_bases_len(10);
    let r = msm_reference(&bases, &coeffs);
    assert_eq!(encode_point(&c), encode_point(&r));
}

/// Scalar multiplication agrees with repeated addition, a group-level
/// cross-check of the point wrappers.
#[test]
fn mul_point_matches_addition() {
    let g = g0();
    let two = FieldB::from_u64(2);
    let doubled = mul_point(&g, &two);
    let added = add_points(&g, &g);
    assert_eq!(encode_point(&doubled), encode_point(&added));
    let three = FieldB::from_u64(3);
    let tripled = mul_point(&g, &three);
    let added3 = add_points(&added, &g);
    assert_eq!(encode_point(&tripled), encode_point(&added3));
}
