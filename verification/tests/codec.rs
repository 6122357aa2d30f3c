//! Canonical encodings: round trips and failure modes.

use tachyon::codec::CodecError;
use tachyon::types::{
    AggregateProof, PcdProof, RangeAnchor, RedPallasSig, Tachygram, Tachystamp,
};

fn sample_stamp() -> Tachystamp {
    Tachystamp {
        range_anchor: RangeAnchor {
            min_pos: 5,
            max_pos: 900,
            root_min: [0xAA; 32],
            root_max: [0xBB; 32],
            frontier_attestation: vec![1, 2, 3],
        },
        tachygrams: vec![Tachygram([0x11; 32]), Tachygram([0x22; 32])],
        auth: RedPallasSig([0x33; 64]),
        pcd_proof: PcdProof(vec![9, 8, 7]),
    }
}

#[test]
fn stamp_round_trip() {
    let s = sample_stamp();
    let bytes = s.to_canonical_bytes();
    let back = Tachystamp::from_canonical_bytes(&bytes).expect("canonical bytes must decode");
    assert_eq!(back, s);
}

#[test]
fn stamp_rejects_bad_version() {
    let s = sample_stamp();
    let mut bytes = s.to_canonical_bytes();
    bytes[0] = 2;
    assert_eq!(
        Tachystamp::from_canonical_bytes(&bytes),
        Err(CodecError::UnsupportedVersion)
    );
}

#[test]
fn stamp_rejects_trailing_bytes() {
    let s = sample_stamp();
    let mut bytes = s.to_canonical_bytes();
    bytes.push(0);
    assert_eq!(
        Tachystamp::from_canonical_bytes(&bytes),
        Err(CodecError::TrailingBytes)
    );
}

#[test]
fn stamp_rejects_short_input() {
    let s = sample_stamp();
    let bytes = s.to_canonical_bytes();
    let truncated = &bytes[..bytes.len() - 1];
    assert_eq!(
        Tachystamp::from_canonical_bytes(truncated),
        Err(CodecError::UnexpectedEof)
    );
    assert_eq!(
        Tachystamp::from_canonical_bytes(&[]),
        Err(CodecError::UnexpectedEof)
    );
}

#[test]
fn aggregate_round_trip() {
    let a = AggregateProof { txids: vec![[1u8; 32], [2u8; 32]], proof: vec![4, 5] };
    let bytes = a.to_canonical_bytes();
    let back = AggregateProof::from_canonical_bytes(&bytes).expect("canonical bytes must decode");
    assert_eq!(back, a);
}

#[test]
fn aggregate_rejects_malformed() {
    let a = AggregateProof { txids: vec![[1u8; 32]], proof: vec![] };
    let mut bytes = a.to_canonical_bytes();
    bytes[0] = 9;
    assert_eq!(
        AggregateProof::from_canonical_bytes(&bytes),
        Err(CodecError::UnsupportedVersion)
    );
    let bytes2 = a.to_canonical_bytes();
    assert_eq!(
        AggregateProof::from_canonical_bytes(&bytes2[..10]),
        Err(CodecError::UnexpectedEof)
    );
}

#[test]
fn authorizing_digest_changes_with_content() {
    let s = sample_stamp();
    let d1 = s.authorizing_digest32();
    let mut s2 = sample_stamp();
    s2.range_anchor.min_pos = 6;
    let d2 = s2.authorizing_digest32();
    assert_ne!(d1, d2);
    assert_eq!(d1, sample_stamp().authorizing_digest32());
}

#[test]
fn aggregator_collects_in_order() {
    let vk = tachyon::pcd_types::VerifyingKey(vec![]);
    let agg = tachyon::aggregate::aggregate_txids(&vk, vec![[3u8; 32], [1u8; 32]]);
    assert_eq!(agg.txids, vec![[3u8; 32], [1u8; 32]]);
    assert!(agg.proof.is_empty());
}
