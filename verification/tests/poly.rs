//! Polynomial engine: identity, algorithm agreement, monic invariant.

use ff::PrimeField;
use tachyon::fields::FieldA;
use tachyon::fft::roots_to_coeffs_fft;
use tachyon::poly::{
    batch_roots_to_coeffs_parallel, eval_from_roots, eval_horner, pad_coeffs_to, roots_to_coeffs,
    roots_to_coeffs_parallel,
};

fn roots_from(vals: &[u64]) -> Vec<FieldA> {
    vals.iter().map(|&v| FieldA::from_u64(v)).collect()
}

/// Pseudo-arbitrary field elements spread over the field: small values and
/// wide-reduced hashes of a counter.
fn spread_roots(n: usize) -> Vec<FieldA> {
    (0..n)
        .map(|i| {
            let mut tag = [0u8; 32];
            tag[0] = (i & 0xff) as u8;
            tag[1] = ((i >> 8) & 0xff) as u8;
            tachyon::hashing::tachygram_to_fr(&tag)
        })
        .collect()
}

#[test]
fn poly_roots_and_eval_match() {
    let a = roots_from(&[3, 5, 7]);
    let coeffs = roots_to_coeffs(&a);
    // Evaluate at r = 11: prod (r - a).
    let r = FieldA::from_u64(11);
    let mut lhs = FieldA::from_u64(1);
    for ai in &a {
        lhs = lhs.mul(&r.sub(ai));
    }
    let rhs = eval_horner(&coeffs, &r);
    assert_eq!(lhs, rhs);
}

/// Polynomial identity: Horner evaluation of the expanded coefficients
/// agrees with the direct product over the roots, at several points.
#[test]
fn polynomial_identity_many_points() {
    for n in [0usize, 1, 2, 3, 5, 17] {
        let roots = spread_roots(n);
        let coeffs = roots_to_coeffs(&roots);
        for x_val in [0u64, 1, 2, 3, 11, 987654321] {
            let x = FieldA::from_u64(x_val);
            let lhs = eval_horner(&coeffs, &x);
            let rhs = eval_from_roots(&roots, &x);
            assert_eq!(lhs, rhs);
        }
    }
}

/// Algorithm agreement: the schoolbook, divide-and-conquer, and FFT
/// conversions produce identical coefficient vectors.
#[test]
fn algorithm_agreement_small_sizes() {
    for n in [0usize, 1, 2, 3, 17] {
        let roots = spread_roots(n);
        let a = roots_to_coeffs(&roots);
        let b = roots_to_coeffs_parallel(&roots);
        let c = roots_to_coeffs_fft(&roots);
        assert_eq!(a, b);
        assert_eq!(a, c);
    }
}

#[test]
fn algorithm_agreement_size_64() {
    let roots = spread_roots(64);
    let a = roots_to_coeffs(&roots);
    let b = roots_to_coeffs_parallel(&roots);
    let c = roots_to_coeffs_fft(&roots);
    assert_eq!(a, b);
    assert_eq!(a, c);
}

#[test]
fn algorithm_agreement_size_200() {
    let roots = spread_roots(200);
    let b = roots_to_coeffs_parallel(&roots);
    let c = roots_to_coeffs_fft(&roots);
    assert_eq!(b, c);
}

#[test]
fn algorithm_agreement_size_512() {
    let roots = spread_roots(512);
    let b = roots_to_coeffs_parallel(&roots);
    let c = roots_to_coeffs_fft(&roots);
    assert_eq!(b, c);
}

/// Monic invariant: one more coefficient than roots, and the last one is
/// the multiplicative identity.
#[test]
fn monic_invariant() {
    for n in [0usize, 1, 2, 3, 17, 64] {
        let roots = spread_roots(n);
        let coeffs = roots_to_coeffs(&roots);
        assert_eq!(coeffs.len(), n + 1);
        assert_eq!(*coeffs.last().unwrap(), FieldA::from_u64(1));
    }
}

#[test]
fn pad_extends_with_zeros() {
    let mut coeffs = roots_from(&[2, 4]);
    pad_coeffs_to(&mut coeffs, 5);
    assert_eq!(coeffs.len(), 5);
    assert_eq!(coeffs[3], FieldA::from_u64(0));
    assert_eq!(coeffs[4], FieldA::from_u64(0));
    // No-op when already long enough; never truncates.
    pad_coeffs_to(&mut coeffs, 2);
    assert_eq!(coeffs.len(), 5);
}

#[test]
fn batch_conversion_matches_single() {
    let batches = vec![spread_roots(2), spread_roots(5), vec![]];
    let out = batch_roots_to_coeffs_parallel(&batches);
    assert_eq!(out.len(), 3);
    for (i, b) in batches.iter().enumerate() {
        assert_eq!(out[i], roots_to_coeffs_parallel(b));
    }
    let out_fft = tachyon::fft::batch_roots_to_coeffs_fft(&batches);
    for (i, b) in batches.iter().enumerate() {
        assert_eq!(out_fft[i], roots_to_coeffs_fft(b));
    }
}

/// Cross-check the byte model against the underlying field library: small
/// integers, sums and products round-trip through `pasta_curves` directly.
#[test]
fn field_ops_match_pasta() {
    let five = FieldA::from_u64(5);
    let direct = pasta_curves::vesta::Scalar::from(5u64);
    assert_eq!(five.to_bytes(), <[u8; 32]>::from(direct.to_repr()));
    assert_eq!(FieldA::from_u64(2).add(&FieldA::from_u64(3)), five);
    assert_eq!(FieldA::from_u64(2).mul(&FieldA::from_u64(3)), FieldA::from_u64(6));
    assert_eq!(FieldA::from_u64(5).sub(&FieldA::from_u64(3)), FieldA::from_u64(2));
    assert_eq!(FieldA::from_u64(5).neg().add(&FieldA::from_u64(5)), FieldA::from_u64(0));
    let inv9 = FieldA::from_u64(9).invert().unwrap();
    assert_eq!(FieldA::from_u64(9).mul(&inv9), FieldA::from_u64(1));
    assert!(FieldA::from_u64(0).invert().is_none());
}
