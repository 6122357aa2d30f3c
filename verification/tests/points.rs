//! Point encoding round trip and decode failure.

use tachyon::basis::{derive_base, g0};
use tachyon::points::{decode_point, encode_point};

/// Encoding round trip: decoding any valid encoding gives the same point
/// back; a corrupted 32-byte string decodes to nothing rather than failing.
#[test]
fn encoding_round_trip() {
    for (c, i) in [(0u32, 0u32), (0, 1), (1, 0), (2, 7)] {
        let p = derive_base(c, i);
        let bytes = encode_point(&p);
        let q = decode_point(&bytes).expect("canonical encoding must decode");
        assert_eq!(encode_point(&q), bytes);
        assert_eq!(q, p);
    }
}

#[test]
fn identity_round_trip() {
    // The group identity encodes as 32 zero bytes.
    let q = decode_point(&[0u8; 32]).expect("identity encoding must decode");
    assert_eq!(encode_point(&q), [0u8; 32]);
}

#[test]
fn corrupted_encoding_decodes_to_none() {
    // An x-coordinate beyond the field modulus is never canonical.
    let mut bad = [0xFFu8; 32];
    bad[31] = 0x7F;
    assert!(decode_point(&bad).is_none());
}

#[test]
fn flipped_byte_never_decodes_to_same_point() {
    let p = g0();
    let bytes = encode_point(&p);
    // Whatever a single flipped byte decodes to, it is not the original.
    for i in 0..32 {
        let mut corrupt = bytes;
        corrupt[i] ^= 0x01;
        match decode_point(&corrupt) {
            Some(q) => assert_ne!(encode_point(&q), bytes),
            None => {},
        }
    }
}
