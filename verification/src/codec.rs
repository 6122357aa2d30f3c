//! Canonical encoding and decoding of consensus objects.
//!
//! Encodings are versioned and deterministic: big-endian length prefixes,
//! fixed-width fields, no padding.  Decoding is a total function on byte
//! strings: malformed input yields an error naming what failed — a short
//! read, an unknown version byte, or trailing bytes — never a panic.

use vstd::prelude::*;

use crate::bytes::{be4_of, be8_of, push_be4, push_be8, push_bytes};
use crate::digests::cat32;
use crate::types::{AggregateProof, PcdProof, RangeAnchor, RedPallasSig, Tachygram, Tachystamp};

verus! {

/// Why a decode was refused.
#[derive(Clone, Copy, PartialEq, Eq, Debug)]
pub enum CodecError {
    /// The input ended before the field being read.
    UnexpectedEof,
    /// The leading version byte names no known encoding version.
    UnsupportedVersion,
    /// Bytes remained after the object's encoding ended.
    TrailingBytes,
}

/// The canonical encoding version.
pub const ENC_V1: u8 = 1;

/// Append a single byte.
pub fn encode_u8(v: u8, out: &mut Vec<u8>)
    ensures
        final(out)@ == old(out)@ + seq![v],
{
    out.push(v);
    assert(out@ =~= old(out)@ + seq![v]);
}

/// Append the 4 big-endian bytes of a 32-bit value.
pub fn encode_u32(v: u32, out: &mut Vec<u8>)
    ensures
        final(out)@ == old(out)@ + be4_of(v),
{
    push_be4(out, v);
}

/// Append the 8 big-endian bytes of a 64-bit value.
pub fn encode_u64(v: u64, out: &mut Vec<u8>)
    ensures
        final(out)@ == old(out)@ + be8_of(v),
{
    push_be8(out, v);
}

/// The encoding of a length-prefixed byte string.
pub open spec fn enc_bytes(b: Seq<u8>) -> Seq<u8> {
    be4_of(b.len() as u32) + b
}

/// Append a length-prefixed byte string.
pub fn encode_bytes(bytes: &Vec<u8>, out: &mut Vec<u8>)
    requires
        bytes@.len() <= u32::MAX,
    ensures
        final(out)@ == old(out)@ + enc_bytes(bytes@),
{
    push_be4(out, bytes.len() as u32);
    push_bytes(out, bytes.as_slice());
    assert(out@ =~= old(out)@ + enc_bytes(bytes@));
}

/// Read one byte at the cursor.
pub open spec fn p_u8(data: Seq<u8>, pos: int) -> Option<(u8, int)> {
    if 0 <= pos && pos + 1 <= data.len() {
        Some((data[pos], pos + 1))
    } else {
        None
    }
}

/// Read one byte; fails exactly when the input is exhausted.
pub fn read_u8(data: &[u8], pos: usize) -> (r: Result<(u8, usize), CodecError>)
    ensures
        r matches Ok((v, p)) ==> p_u8(data@, pos as int) == Some((v, p as int)),
        (r is Ok) <==> (p_u8(data@, pos as int) is Some),
        r matches Err(e) ==> e == CodecError::UnexpectedEof,
{
    if pos < data.len() {
        Ok((data[pos], pos + 1))
    } else {
        Err(CodecError::UnexpectedEof)
    }
}

/// The value of 4 big-endian bytes at the cursor.
pub open spec fn u32_at(data: Seq<u8>, pos: int) -> u32 {
    (data[pos] as int * 0x100_0000 + data[pos + 1] as int * 0x1_0000 + data[pos + 2] as int
        * 0x100 + data[pos + 3] as int) as u32
}

/// Read a big-endian 32-bit value at the cursor.
pub open spec fn p_u32(data: Seq<u8>, pos: int) -> Option<(u32, int)> {
    if 0 <= pos && pos + 4 <= data.len() {
        Some((u32_at(data, pos), pos + 4))
    } else {
        None
    }
}

/// The parsed value re-encodes to the bytes it was read from.
pub proof fn lemma_u32_at_enc(data: Seq<u8>, pos: int)
    requires
        0 <= pos,
        pos + 4 <= data.len(),
    ensures
        be4_of(u32_at(data, pos)) =~= data.subrange(pos, pos + 4),
{
    let b0 = data[pos];
    let b1 = data[pos + 1];
    let b2 = data[pos + 2];
    let b3 = data[pos + 3];
    let v: u32 = u32_at(data, pos);
    assert((v >> 24) & 0xff == b0 as u32 && (v >> 16) & 0xff == b1 as u32 && (v >> 8) & 0xff
        == b2 as u32 && v & 0xff == b3 as u32) by (bit_vector)
        requires
            v == (b0 as u32) * 0x100_0000 + (b1 as u32) * 0x1_0000 + (b2 as u32) * 0x100 + (
            b3 as u32),
    ;
}

/// Read 4 big-endian bytes; fails exactly on a short read.
pub fn read_u32(data: &[u8], pos: usize) -> (r: Result<(u32, usize), CodecError>)
    ensures
        r matches Ok((v, p)) ==> p_u32(data@, pos as int) == Some((v, p as int)),
        (r is Ok) <==> (p_u32(data@, pos as int) is Some),
        r matches Err(e) ==> e == CodecError::UnexpectedEof,
{
    if pos < data.len() && data.len() - pos >= 4 {
        let v: u32 = (data[pos] as u32) * 0x100_0000 + (data[pos + 1] as u32) * 0x1_0000 + (data[
            pos + 2] as u32) * 0x100 + (data[pos + 3] as u32);
        Ok((v, pos + 4))
    } else {
        Err(CodecError::UnexpectedEof)
    }
}

/// The value of 8 big-endian bytes at the cursor.
pub open spec fn u64_at(data: Seq<u8>, pos: int) -> u64 {
    (data[pos] as int * 0x100_0000_0000_0000 + data[pos + 1] as int * 0x1_0000_0000_0000 + data[
        pos + 2] as int * 0x100_0000_0000 + data[pos + 3] as int * 0x1_0000_0000 + data[pos
        + 4] as int * 0x100_0000 + data[pos + 5] as int * 0x1_0000 + data[pos + 6] as int * 0x100
        + data[pos + 7] as int) as u64
}

/// Read a big-endian 64-bit value at the cursor.
pub open spec fn p_u64(data: Seq<u8>, pos: int) -> Option<(u64, int)> {
    if 0 <= pos && pos + 8 <= data.len() {
        Some((u64_at(data, pos), pos + 8))
    } else {
        None
    }
}

/// Read 8 big-endian bytes; fails exactly on a short read.
pub fn read_u64(data: &[u8], pos: usize) -> (r: Result<(u64, usize), CodecError>)
    ensures
        r matches Ok((v, p)) ==> p_u64(data@, pos as int) == Some((v, p as int)),
        (r is Ok) <==> (p_u64(data@, pos as int) is Some),
        r matches Err(e) ==> e == CodecError::UnexpectedEof,
{
    if pos < data.len() && data.len() - pos >= 8 {
        let v: u64 = (data[pos] as u64) * 0x100_0000_0000_0000 + (data[pos + 1] as u64)
            * 0x1_0000_0000_0000 + (data[pos + 2] as u64) * 0x100_0000_0000 + (data[pos
            + 3] as u64) * 0x1_0000_0000 + (data[pos + 4] as u64) * 0x100_0000 + (data[pos
            + 5] as u64) * 0x1_0000 + (data[pos + 6] as u64) * 0x100 + (data[pos + 7] as u64);
        Ok((v, pos + 8))
    } else {
        Err(CodecError::UnexpectedEof)
    }
}

/// Read `n` raw bytes at the cursor.
pub open spec fn p_fixed(data: Seq<u8>, pos: int, n: int) -> Option<(Seq<u8>, int)> {
    if 0 <= pos && pos + n <= data.len() {
        Some((data.subrange(pos, pos + n), pos + n))
    } else {
        None
    }
}

/// Read `n` raw bytes; fails exactly on a short read.
pub fn read_fixed(data: &[u8], pos: usize, n: usize) -> (r: Result<(Vec<u8>, usize), CodecError>)
    ensures
        r matches Ok((v, p)) ==> {
            &&& p_fixed(data@, pos as int, n as int) == Some((v@, p as int))
            &&& v@.len() == n
        },
        (r is Ok) <==> (p_fixed(data@, pos as int, n as int) is Some),
        r matches Err(e) ==> e == CodecError::UnexpectedEof,
{
    if pos <= data.len() && data.len() - pos >= n {
        let dlen = data.len();
        let mut v: Vec<u8> = Vec::new();
        let mut i: usize = 0;
        while i < n
            invariant
                i <= n,
                pos + n <= dlen == data@.len(),
                v@ == data@.subrange(pos as int, pos + i as int),
            decreases n - i,
        {
            v.push(data[pos + i]);
            assert(v@ =~= data@.subrange(pos as int, pos + i + 1 as int));
            i += 1;
        }
        Ok((v, pos + n))
    } else {
        Err(CodecError::UnexpectedEof)
    }
}

/// Read a length-prefixed byte string at the cursor.
pub open spec fn p_vec(data: Seq<u8>, pos: int) -> Option<(Seq<u8>, int)> {
    match p_u32(data, pos) {
        Some((n, p1)) => p_fixed(data, p1, n as int),
        None => None,
    }
}

/// Read a length-prefixed byte string; fails exactly on a short read.
pub fn read_vec(data: &[u8], pos: usize) -> (r: Result<(Vec<u8>, usize), CodecError>)
    ensures
        r matches Ok((v, p)) ==> p_vec(data@, pos as int) == Some((v@, p as int)),
        (r is Ok) <==> (p_vec(data@, pos as int) is Some),
        r matches Err(e) ==> e == CodecError::UnexpectedEof,
{
    let (n, p1) = match read_u32(data, pos) {
        Ok(t) => t,
        Err(e) => {
            return Err(e);
        },
    };
    let (v, p2) = match read_fixed(data, p1, n as usize) {
        Ok(t) => t,
        Err(e) => {
            return Err(e);
        },
    };
    Ok((v, p2))
}

/// The concatenated raw bytes of a tachygram list.
pub open spec fn cat_grams(ts: Seq<Tachygram>) -> Seq<u8>
    decreases ts.len(),
{
    if ts.len() == 0 {
        Seq::<u8>::empty()
    } else {
        cat_grams(ts.drop_last()) + ts.last().0@
    }
}

/// The encoding of a tachygram list: a 4-byte count, then the raw tags.
pub open spec fn enc_vec_tachygram(ts: Seq<Tachygram>) -> Seq<u8> {
    be4_of(ts.len() as u32) + cat_grams(ts)
}

/// The encoding of a range anchor.
pub open spec fn enc_anchor(a: RangeAnchor) -> Seq<u8> {
    seq![ENC_V1] + be8_of(a.min_pos) + be8_of(a.max_pos) + a.root_min@ + a.root_max@ + enc_bytes(
        a.frontier_attestation@,
    )
}

/// The canonical stamp encoding: version byte, anchor, tachygrams, the
/// 64-byte signature, and the length-prefixed proof bytes.
pub open spec fn stamp_enc(s: Tachystamp) -> Seq<u8> {
    seq![ENC_V1] + enc_anchor(s.range_anchor) + enc_vec_tachygram(s.tachygrams@) + s.auth.0@
        + enc_bytes(s.pcd_proof.0@)
}

/// The encoding of a transaction id list: a 4-byte count, then the ids.
pub open spec fn enc_vec_txid(ids: Seq<[u8; 32]>) -> Seq<u8> {
    be4_of(ids.len() as u32) + cat32(ids)
}

/// The canonical aggregate-proof encoding.
pub open spec fn agg_enc(a: AggregateProof) -> Seq<u8> {
    seq![ENC_V1] + enc_vec_txid(a.txids@) + enc_bytes(a.proof@)
}

/// What a stamp parse recovers: the plain values of every field.
pub struct StampView {
    pub min_pos: u64,
    pub max_pos: u64,
    pub root_min: Seq<u8>,
    pub root_max: Seq<u8>,
    pub frontier: Seq<u8>,
    pub grams: Seq<Seq<u8>>,
    pub auth: Seq<u8>,
    pub proof: Seq<u8>,
}

/// The view a stamp value presents to the parser.
pub open spec fn stamp_view(s: Tachystamp) -> StampView {
    StampView {
        min_pos: s.range_anchor.min_pos,
        max_pos: s.range_anchor.max_pos,
        root_min: s.range_anchor.root_min@,
        root_max: s.range_anchor.root_max@,
        frontier: s.range_anchor.frontier_attestation@,
        grams: Seq::new(s.tachygrams@.len(), |i: int| s.tachygrams@[i].0@),
        auth: s.auth.0@,
        proof: s.pcd_proof.0@,
    }
}

/// Parse `n` fixed 32-byte tags at the cursor.
pub open spec fn p_grams(data: Seq<u8>, pos: int, n: nat) -> Option<(Seq<Seq<u8>>, int)>
    decreases n,
{
    if n == 0 {
        Some((Seq::<Seq<u8>>::empty(), pos))
    } else {
        match p_fixed(data, pos, 32) {
            Some((b, p1)) => match p_grams(data, p1, (n - 1) as nat) {
                Some((rest, p2)) => Some((seq![b] + rest, p2)),
                None => None,
            },
            None => None,
        }
    }
}

/// Parse a range anchor at the cursor: inner version byte (not checked),
/// two positions, two fixed roots, and the length-prefixed attestation.
pub open spec fn p_anchor(data: Seq<u8>, pos: int) -> Option<
    ((u64, u64, Seq<u8>, Seq<u8>, Seq<u8>), int),
> {
    match p_u8(data, pos) {
        Some((_ver, p0)) => match p_u64(data, p0) {
            Some((mn, p1)) => match p_u64(data, p1) {
                Some((mx, p2)) => match p_fixed(data, p2, 32) {
                    Some((rmin, p3)) => match p_fixed(data, p3, 32) {
                        Some((rmax, p4)) => match p_vec(data, p4) {
                            Some((fr, p5)) => Some(((mn, mx, rmin, rmax, fr), p5)),
                            None => None,
                        },
                        None => None,
                    },
                    None => None,
                },
                None => None,
            },
            None => None,
        },
        None => None,
    }
}

/// Parse a whole stamp from the start of the input: the version byte must
/// be the canonical one, and every field must be present.
pub open spec fn p_stamp_body(data: Seq<u8>) -> Option<(StampView, int)> {
    match p_u8(data, 0) {
        Some((ver, p0)) => if ver != ENC_V1 {
            None
        } else {
            match p_anchor(data, p0) {
                Some(((mn, mx, rmin, rmax, fr), p1)) => match p_u32(data, p1) {
                    Some((cnt, p2)) => match p_grams(data, p2, cnt as nat) {
                        Some((gs, p3)) => match p_fixed(data, p3, 64) {
                            Some((auth, p4)) => match p_vec(data, p4) {
                                Some((proof, p5)) => Some(
                                    (
                                        StampView {
                                            min_pos: mn,
                                            max_pos: mx,
                                            root_min: rmin,
                                            root_max: rmax,
                                            frontier: fr,
                                            grams: gs,
                                            auth,
                                            proof,
                                        },
                                        p5,
                                    ),
                                ),
                                None => None,
                            },
                            None => None,
                        },
                        None => None,
                    },
                    None => None,
                },
                None => None,
            }
        },
        None => None,
    }
}

impl Tachystamp {
    /// The canonical byte encoding of this stamp.
    pub fn to_canonical_bytes(&self) -> (r: Vec<u8>)
        requires
            self.tachygrams@.len() <= u32::MAX,
            self.range_anchor.frontier_attestation@.len() <= u32::MAX,
            self.pcd_proof.0@.len() <= u32::MAX,
        ensures
            r@ == stamp_enc(*self),
    {
        let mut out: Vec<u8> = Vec::new();
        out.push(ENC_V1);
        // Anchor.
        out.push(ENC_V1);
        push_be8(&mut out, self.range_anchor.min_pos);
        push_be8(&mut out, self.range_anchor.max_pos);
        push_bytes(&mut out, self.range_anchor.root_min.as_slice());
        push_bytes(&mut out, self.range_anchor.root_max.as_slice());
        encode_bytes(&self.range_anchor.frontier_attestation, &mut out);
        // Tachygrams.
        push_be4(&mut out, self.tachygrams.len() as u32);
        let ghost before_grams = out@;
        let mut i: usize = 0;
        assert(out@ =~= before_grams + cat_grams(self.tachygrams@.take(0)));
        while i < self.tachygrams.len()
            invariant
                i <= self.tachygrams@.len(),
                out@ == before_grams + cat_grams(self.tachygrams@.take(i as int)),
            decreases self.tachygrams@.len() - i,
        {
            push_bytes(&mut out, self.tachygrams[i].0.as_slice());
            proof {
                let pre = self.tachygrams@.take(i as int);
                let post = self.tachygrams@.take(i + 1 as int);
                assert(post.drop_last() =~= pre);
                assert(post.last() == self.tachygrams@[i as int]);
            }
            i += 1;
        }
        assert(self.tachygrams@.take(self.tachygrams@.len() as int) =~= self.tachygrams@);
        // Signature and proof bytes.
        push_bytes(&mut out, self.auth.0.as_slice());
        encode_bytes(&self.pcd_proof.0, &mut out);
        assert(out@ =~= stamp_enc(*self));
        out
    }

    /// Decode a stamp from its canonical bytes.  Succeeds exactly when the
    /// whole input is one well-formed stamp encoding; the error names the
    /// first check that failed: an unknown version, a short read, or
    /// trailing bytes.
    pub fn from_canonical_bytes(data: &[u8]) -> (r: Result<Tachystamp, CodecError>)
        ensures
            (r is Ok) <==> (p_stamp_body(data@) matches Some((v, p)) && p == data@.len()),
            r matches Ok(s) ==> p_stamp_body(data@) == Some((stamp_view(s), data@.len() as int)),
            r == Result::<Tachystamp, CodecError>::Err(CodecError::UnsupportedVersion) <==> (
            data@.len() >= 1 && data@[0] != ENC_V1),
            r == Result::<Tachystamp, CodecError>::Err(CodecError::TrailingBytes) <==> (
            p_stamp_body(data@) matches Some((v, p)) && p != data@.len()),
    {
        let (ver, p0) = match read_u8(data, 0) {
            Ok(t) => t,
            Err(e) => {
                return Err(e);
            },
        };
        if ver != ENC_V1 {
            return Err(CodecError::UnsupportedVersion);
        }
        // Anchor.
        let (_aver, pa) = match read_u8(data, p0) {
            Ok(t) => t,
            Err(e) => {
                return Err(e);
            },
        };
        let (min_pos, pb) = match read_u64(data, pa) {
            Ok(t) => t,
            Err(e) => {
                return Err(e);
            },
        };
        let (max_pos, pc) = match read_u64(data, pb) {
            Ok(t) => t,
            Err(e) => {
                return Err(e);
            },
        };
        let (rmin_v, pd) = match read_fixed(data, pc, 32) {
            Ok(t) => t,
            Err(e) => {
                return Err(e);
            },
        };
        let (rmax_v, pe) = match read_fixed(data, pd, 32) {
            Ok(t) => t,
            Err(e) => {
                return Err(e);
            },
        };
        let (frontier, pf) = match read_vec(data, pe) {
            Ok(t) => t,
            Err(e) => {
                return Err(e);
            },
        };
        // Tachygrams.
        let (cnt, pg) = match read_u32(data, pf) {
            Ok(t) => t,
            Err(e) => {
                return Err(e);
            },
        };
        let mut grams: Vec<Tachygram> = Vec::new();
        let mut pos = pg;
        let mut k: u32 = 0;
        proof {
            assert(p_grams(data@, pg as int, 0) == Some((Seq::<Seq<u8>>::empty(), pg as int)));
        }
        proof {
            assert(p_u8(data@, 0) == Some((ENC_V1, p0 as int)));
            assert(p_anchor(data@, p0 as int) == Some(
                ((min_pos, max_pos, rmin_v@, rmax_v@, frontier@), pf as int),
            ));
            assert(p_u32(data@, pf as int) == Some((cnt, pg as int)));
        }
        while k < cnt
            invariant
                k <= cnt,
                pos <= data@.len(),
                grams@.len() == k,
                p_u8(data@, 0) == Some((ENC_V1, p0 as int)),
                p_anchor(data@, p0 as int) == Some(
                    ((min_pos, max_pos, rmin_v@, rmax_v@, frontier@), pf as int),
                ),
                p_u32(data@, pf as int) == Some((cnt, pg as int)),
                p_grams(data@, pg as int, cnt as nat) == (match p_grams(
                    data@,
                    pos as int,
                    (cnt - k) as nat,
                ) {
                    Some((rest, pend)) => Some(
                        (
                            Seq::new(grams@.len(), |t: int| grams@[t].0@) + rest,
                            pend,
                        ),
                    ),
                    None => None::<(Seq<Seq<u8>>, int)>,
                }),
            decreases cnt - k,
        {
            let (tg, pnext) = match read_fixed(data, pos, 32) {
                Ok(t) => t,
                Err(e) => {
                    proof {
                        assert(p_grams(data@, pos as int, (cnt - k) as nat) is None);
                        assert(p_grams(data@, pg as int, cnt as nat) is None);
                        assert(p_stamp_body(data@) is None);
                    }
                    return Err(e);
                },
            };
            let arr = crate::bytes::vec_to_arr32(&tg);
            let ghost pre_grams = grams@;
            grams.push(Tachygram(arr));
            proof {
                assert(grams@ =~= pre_grams.push(Tachygram(arr)));
                let old_rest = p_grams(data@, pos as int, (cnt - k) as nat);
                let new_rest = p_grams(data@, pnext as int, (cnt - k - 1) as nat);
                assert(old_rest == (match new_rest {
                    Some((rest, pend)) => Some((seq![tg@] + rest, pend)),
                    None => None::<(Seq<Seq<u8>>, int)>,
                }));
                if new_rest is Some {
                    let (rest2, _pend2) = new_rest.unwrap();
                    assert(Seq::new(pre_grams.len(), |t: int| pre_grams[t].0@) + (seq![tg@]
                        + rest2) =~= Seq::new(grams@.len(), |t: int| grams@[t].0@) + rest2);
                }
            }
            pos = pnext;
            k += 1;
        }
        proof {
            assert(p_grams(data@, pos as int, 0) == Some((Seq::<Seq<u8>>::empty(), pos as int)));
            assert(Seq::new(grams@.len(), |t: int| grams@[t].0@) + Seq::<Seq<u8>>::empty()
                =~= Seq::new(grams@.len(), |t: int| grams@[t].0@));
        }
        // Signature and proof bytes.
        let (auth_v, ph) = match read_fixed(data, pos, 64) {
            Ok(t) => t,
            Err(e) => {
                return Err(e);
            },
        };
        let (proof_v, pi) = match read_vec(data, ph) {
            Ok(t) => t,
            Err(e) => {
                return Err(e);
            },
        };
        if pi != data.len() {
            return Err(CodecError::TrailingBytes);
        }
        let stamp = Tachystamp {
            range_anchor: RangeAnchor {
                min_pos,
                max_pos,
                root_min: crate::bytes::vec_to_arr32(&rmin_v),
                root_max: crate::bytes::vec_to_arr32(&rmax_v),
                frontier_attestation: frontier,
            },
            tachygrams: grams,
            auth: RedPallasSig(crate::bytes::vec_to_arr64(&auth_v)),
            pcd_proof: PcdProof(proof_v),
        };
        proof {
            assert(Seq::new(stamp.tachygrams@.len(), |t: int| stamp.tachygrams@[t].0@)
                =~= stamp_view(stamp).grams);
        }
        Ok(stamp)
    }

    /// The authorizing-data contribution of this stamp: its canonical
    /// bytes.
    pub fn zip244_authorizing_data_bytes(&self) -> (r: Vec<u8>)
        requires
            self.tachygrams@.len() <= u32::MAX,
            self.range_anchor.frontier_attestation@.len() <= u32::MAX,
            self.pcd_proof.0@.len() <= u32::MAX,
        ensures
            r@ == stamp_enc(*self),
    {
        self.to_canonical_bytes()
    }

    /// The 32-byte authorizing digest: the untagged BLAKE2b-256 of the
    /// canonical bytes.
    pub fn authorizing_digest32(&self) -> (r: [u8; 32])
        requires
            self.tachygrams@.len() <= u32::MAX,
            self.range_anchor.frontier_attestation@.len() <= u32::MAX,
            self.pcd_proof.0@.len() <= u32::MAX,
        ensures
            r@ == crate::hashing::b256_of(Seq::<u8>::empty(), stamp_enc(*self)),
    {
        let bytes = self.zip244_authorizing_data_bytes();
        let tag: Vec<u8> = Vec::new();
        crate::hashing::blake2b_256_tagged(&tag, &bytes)
    }
}

/// Parse a whole aggregate proof from the start of the input.
pub open spec fn p_agg_body(data: Seq<u8>) -> Option<((Seq<Seq<u8>>, Seq<u8>), int)> {
    match p_u8(data, 0) {
        Some((ver, p0)) => if ver != ENC_V1 {
            None
        } else {
            match p_u32(data, p0) {
                Some((cnt, p1)) => match p_grams(data, p1, cnt as nat) {
                    Some((ids, p2)) => match p_vec(data, p2) {
                        Some((proof, p3)) => Some(((ids, proof), p3)),
                        None => None,
                    },
                    None => None,
                },
                None => None,
            }
        },
        None => None,
    }
}

impl AggregateProof {
    /// The canonical byte encoding of this aggregate proof.
    pub fn to_canonical_bytes(&self) -> (r: Vec<u8>)
        requires
            self.txids@.len() <= u32::MAX,
            self.proof@.len() <= u32::MAX,
        ensures
            r@ == agg_enc(*self),
    {
        let mut out: Vec<u8> = Vec::new();
        out.push(ENC_V1);
        push_be4(&mut out, self.txids.len() as u32);
        let ghost before_ids = out@;
        let mut i: usize = 0;
        assert(out@ =~= before_ids + cat32(self.txids@.take(0)));
        while i < self.txids.len()
            invariant
                i <= self.txids@.len(),
                out@ == before_ids + cat32(self.txids@.take(i as int)),
            decreases self.txids@.len() - i,
        {
            push_bytes(&mut out, self.txids[i].as_slice());
            proof {
                let pre = self.txids@.take(i as int);
                let post = self.txids@.take(i + 1 as int);
                assert(post.drop_last() =~= pre);
                assert(post.last() == self.txids@[i as int]);
            }
            i += 1;
        }
        assert(self.txids@.take(self.txids@.len() as int) =~= self.txids@);
        encode_bytes(&self.proof, &mut out);
        assert(out@ =~= agg_enc(*self));
        out
    }

    /// Decode an aggregate proof from its canonical bytes.  Succeeds
    /// exactly when the whole input is one well-formed encoding.
    pub fn from_canonical_bytes(data: &[u8]) -> (r: Result<AggregateProof, CodecError>)
        ensures
            (r is Ok) <==> (p_agg_body(data@) matches Some((v, p)) && p == data@.len()),
            r matches Ok(a) ==> p_agg_body(data@) == Some(
                (
                    (Seq::new(a.txids@.len(), |t: int| a.txids@[t]@), a.proof@),
                    data@.len() as int,
                ),
            ),
            r == Result::<AggregateProof, CodecError>::Err(CodecError::UnsupportedVersion) <==> (
            data@.len() >= 1 && data@[0] != ENC_V1),
            r == Result::<AggregateProof, CodecError>::Err(CodecError::TrailingBytes) <==> (
            p_agg_body(data@) matches Some((v, p)) && p != data@.len()),
    {
        let (ver, p0) = match read_u8(data, 0) {
            Ok(t) => t,
            Err(e) => {
                return Err(e);
            },
        };
        if ver != ENC_V1 {
            return Err(CodecError::UnsupportedVersion);
        }
        let (cnt, p1) = match read_u32(data, p0) {
            Ok(t) => t,
            Err(e) => {
                return Err(e);
            },
        };
        let mut ids: Vec<[u8; 32]> = Vec::new();
        let mut pos = p1;
        let mut k: u32 = 0;
        proof {
            assert(p_grams(data@, p1 as int, 0) == Some((Seq::<Seq<u8>>::empty(), p1 as int)));
        }
        proof {
            assert(p_u8(data@, 0) == Some((ENC_V1, p0 as int)));
            assert(p_u32(data@, p0 as int) == Some((cnt, p1 as int)));
        }
        while k < cnt
            invariant
                k <= cnt,
                pos <= data@.len(),
                ids@.len() == k,
                p_u8(data@, 0) == Some((ENC_V1, p0 as int)),
                p_u32(data@, p0 as int) == Some((cnt, p1 as int)),
                p_grams(data@, p1 as int, cnt as nat) == (match p_grams(
                    data@,
                    pos as int,
                    (cnt - k) as nat,
                ) {
                    Some((rest, pend)) => Some(
                        (Seq::new(ids@.len(), |t: int| ids@[t]@) + rest, pend),
                    ),
                    None => None::<(Seq<Seq<u8>>, int)>,
                }),
            decreases cnt - k,
        {
            let (tg, pnext) = match read_fixed(data, pos, 32) {
                Ok(t) => t,
                Err(e) => {
                    proof {
                        assert(p_grams(data@, pos as int, (cnt - k) as nat) is None);
                        assert(p_grams(data@, p1 as int, cnt as nat) is None);
                        assert(p_agg_body(data@) is None);
                    }
                    return Err(e);
                },
            };
            let arr = crate::bytes::vec_to_arr32(&tg);
            let ghost pre_ids = ids@;
            ids.push(arr);
            proof {
                let old_rest = p_grams(data@, pos as int, (cnt - k) as nat);
                let new_rest = p_grams(data@, pnext as int, (cnt - k - 1) as nat);
                assert(old_rest == (match new_rest {
                    Some((rest, pend)) => Some((seq![tg@] + rest, pend)),
                    None => None::<(Seq<Seq<u8>>, int)>,
                }));
                if new_rest is Some {
                    let (rest2, _pend2) = new_rest.unwrap();
                    assert(Seq::new(pre_ids.len(), |t: int| pre_ids[t]@) + (seq![tg@] + rest2)
                        =~= Seq::new(ids@.len(), |t: int| ids@[t]@) + rest2);
                }
            }
            pos = pnext;
            k += 1;
        }
        proof {
            assert(p_grams(data@, pos as int, 0) == Some((Seq::<Seq<u8>>::empty(), pos as int)));
            assert(Seq::new(ids@.len(), |t: int| ids@[t]@) + Seq::<Seq<u8>>::empty() =~= Seq::new(
                ids@.len(),
                |t: int| ids@[t]@,
            ));
        }
        let (proof_v, p2) = match read_vec(data, pos) {
            Ok(t) => t,
            Err(e) => {
                return Err(e);
            },
        };
        if p2 != data.len() {
            return Err(CodecError::TrailingBytes);
        }
        Ok(AggregateProof { txids: ids, proof: proof_v })
    }
}

/// Reading four bytes that are the big-endian encoding of `v` yields `v`.
pub proof fn lemma_p_u32_of_enc(data: Seq<u8>, pos: int, v: u32)
    requires
        0 <= pos,
        pos + 4 <= data.len(),
        data.subrange(pos, pos + 4) == be4_of(v),
    ensures
        p_u32(data, pos) == Some((v, pos + 4)),
{
    assert(data[pos] == be4_of(v)[0]);
    assert(data[pos + 1] == be4_of(v)[1]);
    assert(data[pos + 2] == be4_of(v)[2]);
    assert(data[pos + 3] == be4_of(v)[3]);
    let b0 = ((v >> 24) & 0xff) as u8;
    let b1 = ((v >> 16) & 0xff) as u8;
    let b2 = ((v >> 8) & 0xff) as u8;
    let b3 = (v & 0xff) as u8;
    assert((b0 as u32) * 0x100_0000 + (b1 as u32) * 0x1_0000 + (b2 as u32) * 0x100 + (b3 as u32)
        == v) by (bit_vector)
        requires
            b0 == ((v >> 24) & 0xff) as u8,
            b1 == ((v >> 16) & 0xff) as u8,
            b2 == ((v >> 8) & 0xff) as u8,
            b3 == (v & 0xff) as u8,
    ;
    assert(u32_at(data, pos) == v);
}

/// Reading eight bytes that are the big-endian encoding of `v` yields `v`.
pub proof fn lemma_p_u64_of_enc(data: Seq<u8>, pos: int, v: u64)
    requires
        0 <= pos,
        pos + 8 <= data.len(),
        data.subrange(pos, pos + 8) == be8_of(v),
    ensures
        p_u64(data, pos) == Some((v, pos + 8)),
{
    assert(data[pos] == be8_of(v)[0]);
    assert(data[pos + 1] == be8_of(v)[1]);
    assert(data[pos + 2] == be8_of(v)[2]);
    assert(data[pos + 3] == be8_of(v)[3]);
    assert(data[pos + 4] == be8_of(v)[4]);
    assert(data[pos + 5] == be8_of(v)[5]);
    assert(data[pos + 6] == be8_of(v)[6]);
    assert(data[pos + 7] == be8_of(v)[7]);
    let b0 = ((v >> 56) & 0xff) as u8;
    let b1 = ((v >> 48) & 0xff) as u8;
    let b2 = ((v >> 40) & 0xff) as u8;
    let b3 = ((v >> 32) & 0xff) as u8;
    let b4 = ((v >> 24) & 0xff) as u8;
    let b5 = ((v >> 16) & 0xff) as u8;
    let b6 = ((v >> 8) & 0xff) as u8;
    let b7 = (v & 0xff) as u8;
    assert((b0 as u64) * 0x100_0000_0000_0000 + (b1 as u64) * 0x1_0000_0000_0000 + (b2 as u64)
        * 0x100_0000_0000 + (b3 as u64) * 0x1_0000_0000 + (b4 as u64) * 0x100_0000 + (b5 as u64)
        * 0x1_0000 + (b6 as u64) * 0x100 + (b7 as u64) == v) by (bit_vector)
        requires
            b0 == ((v >> 56) & 0xff) as u8,
            b1 == ((v >> 48) & 0xff) as u8,
            b2 == ((v >> 40) & 0xff) as u8,
            b3 == ((v >> 32) & 0xff) as u8,
            b4 == ((v >> 24) & 0xff) as u8,
            b5 == ((v >> 16) & 0xff) as u8,
            b6 == ((v >> 8) & 0xff) as u8,
            b7 == (v & 0xff) as u8,
    ;
    assert(u64_at(data, pos) == v);
}

/// Reading a length-prefixed byte string that encodes `b` yields `b`.
pub proof fn lemma_p_vec_of_enc(data: Seq<u8>, pos: int, b: Seq<u8>)
    requires
        0 <= pos,
        b.len() <= u32::MAX,
        pos + 4 + b.len() <= data.len(),
        data.subrange(pos, pos + 4 + b.len()) == enc_bytes(b),
    ensures
        p_vec(data, pos) == Some((b, pos + 4 + b.len())),
{
    let whole = data.subrange(pos, pos + 4 + b.len());
    assert(data.subrange(pos, pos + 4) =~= be4_of(b.len() as u32)) by {
        assert(forall|i: int|
            0 <= i < 4 ==> #[trigger] data.subrange(pos, pos + 4)[i] == whole[i]);
    }
    lemma_p_u32_of_enc(data, pos, b.len() as u32);
    assert((b.len() as u32) as int == b.len());
    assert(data.subrange(pos + 4, pos + 4 + b.len()) =~= b) by {
        assert(forall|i: int|
            0 <= i < b.len() ==> #[trigger] data.subrange(pos + 4, pos + 4 + b.len())[i]
                == whole[4 + i]);
        assert(forall|i: int| 0 <= i < b.len() ==> #[trigger] whole[4 + i] == b[i]);
    }
}

/// A list of 32-byte strings concatenates to 32 bytes per entry.
pub proof fn lemma_cat32_len(ids: Seq<[u8; 32]>)
    ensures
        cat32(ids).len() == 32 * ids.len(),
    decreases ids.len(),
{
    if ids.len() == 0 {
    } else {
        lemma_cat32_len(ids.drop_last());
    }
}

/// The concatenation decomposes at the front as well as at the back.
pub proof fn lemma_cat32_front(ids: Seq<[u8; 32]>)
    requires
        ids.len() > 0,
    ensures
        cat32(ids) == ids[0]@ + cat32(ids.skip(1)),
    decreases ids.len(),
{
    if ids.len() == 1 {
        assert(ids.drop_last().len() == 0);
        assert(ids.skip(1).len() == 0);
        assert(cat32(ids.drop_last()) =~= Seq::<u8>::empty());
        assert(cat32(ids.skip(1)) =~= Seq::<u8>::empty());
        assert(cat32(ids) == cat32(ids.drop_last()) + ids.last()@);
        assert(ids.last() == ids[0]);
        assert(cat32(ids) =~= ids[0]@ + cat32(ids.skip(1)));
    } else {
        let dl = ids.drop_last();
        lemma_cat32_front(dl);
        assert(ids.skip(1).drop_last() =~= dl.skip(1));
        assert(ids.skip(1).last() == ids.last());
        assert(cat32(ids.skip(1)) == cat32(dl.skip(1)) + ids.last()@);
        assert(cat32(ids) == cat32(dl) + ids.last()@);
        assert(cat32(ids) =~= (dl[0]@ + cat32(dl.skip(1))) + ids.last()@);
        assert((dl[0]@ + cat32(dl.skip(1))) + ids.last()@ =~= dl[0]@ + (cat32(dl.skip(1))
            + ids.last()@));
        assert(dl[0] == ids[0]);
        assert(cat32(ids) =~= ids[0]@ + cat32(ids.skip(1)));
    }
}

/// Reading `n` fixed 32-byte tags off their concatenation yields the tags.
pub proof fn lemma_p_grams_of_cat(data: Seq<u8>, pos: int, ids: Seq<[u8; 32]>)
    requires
        0 <= pos,
        pos + 32 * ids.len() <= data.len(),
        data.subrange(pos, pos + 32 * ids.len()) == cat32(ids),
    ensures
        p_grams(data, pos, ids.len()) == Some(
            (Seq::new(ids.len(), |i: int| ids[i]@), pos + 32 * ids.len()),
        ),
    decreases ids.len(),
{
    lemma_cat32_len(ids);
    if ids.len() == 0 {
        assert(Seq::new(0, |i: int| ids[i]@) =~= Seq::<Seq<u8>>::empty());
    } else {
        lemma_cat32_front(ids);
        lemma_cat32_len(ids.skip(1));
        let whole = data.subrange(pos, pos + 32 * ids.len());
        assert(data.subrange(pos, pos + 32) =~= ids[0]@) by {
            assert(forall|i: int|
                0 <= i < 32 ==> #[trigger] data.subrange(pos, pos + 32)[i] == whole[i]);
            assert(forall|i: int| 0 <= i < 32 ==> #[trigger] whole[i] == ids[0]@[i]);
        }
        assert(p_fixed(data, pos, 32) == Some((ids[0]@, pos + 32)));
        let tail_len: int = 32 * ids.skip(1).len() as int;
        assert(data.subrange(pos + 32, pos + 32 + tail_len) =~= cat32(ids.skip(1))) by {
            assert(forall|i: int|
                0 <= i < tail_len ==> #[trigger] data.subrange(pos + 32, pos + 32 + tail_len)[i]
                    == whole[32 + i]);
            assert(forall|i: int|
                0 <= i < tail_len ==> #[trigger] whole[32 + i] == cat32(ids.skip(1))[i]);
        }
        assert(pos + 32 + 32 * ids.skip(1).len() <= data.len());
        lemma_p_grams_of_cat(data, pos + 32, ids.skip(1));
        let tail = Seq::new(ids.skip(1).len(), |i: int| ids.skip(1)[i]@);
        assert(seq![ids[0]@] + tail =~= Seq::new(ids.len(), |i: int| ids[i]@));
        assert((ids.len() - 1) as nat == ids.skip(1).len());
    }
}

/// Round trip of the aggregate-proof codec at the specification level:
/// parsing the canonical encoding of any aggregate proof recovers exactly
/// its fields, consuming the whole encoding.  Together with the decoder's
/// contract, decoding what the encoder produced returns the same value.
pub proof fn lemma_agg_roundtrip(a: AggregateProof)
    requires
        a.txids@.len() <= u32::MAX,
        a.proof@.len() <= u32::MAX,
    ensures
        p_agg_body(agg_enc(a)) == Some(
            (
                (Seq::new(a.txids@.len(), |t: int| a.txids@[t]@), a.proof@),
                agg_enc(a).len() as int,
            ),
        ),
{
    let ids = a.txids@;
    let enc = agg_enc(a);
    lemma_cat32_len(ids);
    assert(enc.len() == 1 + 4 + 32 * ids.len() + 4 + a.proof@.len());
    assert(enc[0] == ENC_V1);
    assert(p_u8(enc, 0) == Some((ENC_V1, 1int)));
    assert(enc.subrange(1, 5) =~= be4_of(ids.len() as u32));
    lemma_p_u32_of_enc(enc, 1, ids.len() as u32);
    assert((ids.len() as u32) as nat == ids.len());
    assert(enc.subrange(5, 5 + 32 * ids.len() as int) =~= cat32(ids));
    lemma_p_grams_of_cat(enc, 5, ids);
    let pv: int = 5 + 32 * ids.len() as int;
    assert(enc.subrange(pv, pv + 4 + a.proof@.len()) =~= enc_bytes(a.proof@));
    lemma_p_vec_of_enc(enc, pv, a.proof@);
}

/// A tachygram list concatenates to 32 bytes per entry.
pub proof fn lemma_cat_grams_len(ts: Seq<Tachygram>)
    ensures
        cat_grams(ts).len() == 32 * ts.len(),
    decreases ts.len(),
{
    if ts.len() == 0 {
    } else {
        lemma_cat_grams_len(ts.drop_last());
    }
}

/// The tachygram concatenation decomposes at the front.
pub proof fn lemma_cat_grams_front(ts: Seq<Tachygram>)
    requires
        ts.len() > 0,
    ensures
        cat_grams(ts) == ts[0].0@ + cat_grams(ts.skip(1)),
    decreases ts.len(),
{
    if ts.len() == 1 {
        assert(ts.drop_last().len() == 0);
        assert(ts.skip(1).len() == 0);
        assert(cat_grams(ts.drop_last()) =~= Seq::<u8>::empty());
        assert(cat_grams(ts.skip(1)) =~= Seq::<u8>::empty());
        assert(cat_grams(ts) == cat_grams(ts.drop_last()) + ts.last().0@);
        assert(ts.last() == ts[0]);
        assert(cat_grams(ts) =~= ts[0].0@ + cat_grams(ts.skip(1)));
    } else {
        let dl = ts.drop_last();
        lemma_cat_grams_front(dl);
        assert(ts.skip(1).drop_last() =~= dl.skip(1));
        assert(ts.skip(1).last() == ts.last());
        assert(cat_grams(ts.skip(1)) == cat_grams(dl.skip(1)) + ts.last().0@);
        assert(cat_grams(ts) == cat_grams(dl) + ts.last().0@);
        assert(cat_grams(ts) =~= (dl[0].0@ + cat_grams(dl.skip(1))) + ts.last().0@);
        assert((dl[0].0@ + cat_grams(dl.skip(1))) + ts.last().0@ =~= dl[0].0@ + (cat_grams(
            dl.skip(1),
        ) + ts.last().0@));
        assert(dl[0] == ts[0]);
        assert(cat_grams(ts) =~= ts[0].0@ + cat_grams(ts.skip(1)));
    }
}

/// Reading `n` fixed tags off a tachygram concatenation yields the tags.
pub proof fn lemma_p_grams_of_cat_grams(data: Seq<u8>, pos: int, ts: Seq<Tachygram>)
    requires
        0 <= pos,
        pos + 32 * ts.len() <= data.len(),
        data.subrange(pos, pos + 32 * ts.len()) == cat_grams(ts),
    ensures
        p_grams(data, pos, ts.len()) == Some(
            (Seq::new(ts.len(), |i: int| ts[i].0@), pos + 32 * ts.len()),
        ),
    decreases ts.len(),
{
    lemma_cat_grams_len(ts);
    if ts.len() == 0 {
        assert(Seq::new(0, |i: int| ts[i].0@) =~= Seq::<Seq<u8>>::empty());
    } else {
        lemma_cat_grams_front(ts);
        lemma_cat_grams_len(ts.skip(1));
        let whole = data.subrange(pos, pos + 32 * ts.len());
        assert(data.subrange(pos, pos + 32) =~= ts[0].0@) by {
            assert(forall|i: int|
                0 <= i < 32 ==> #[trigger] data.subrange(pos, pos + 32)[i] == whole[i]);
            assert(forall|i: int| 0 <= i < 32 ==> #[trigger] whole[i] == ts[0].0@[i]);
        }
        assert(p_fixed(data, pos, 32) == Some((ts[0].0@, pos + 32)));
        let tail_len: int = 32 * ts.skip(1).len() as int;
        assert(data.subrange(pos + 32, pos + 32 + tail_len) =~= cat_grams(ts.skip(1))) by {
            assert(forall|i: int|
                0 <= i < tail_len ==> #[trigger] data.subrange(pos + 32, pos + 32 + tail_len)[i]
                    == whole[32 + i]);
            assert(forall|i: int|
                0 <= i < tail_len ==> #[trigger] whole[32 + i] == cat_grams(ts.skip(1))[i]);
        }
        assert(pos + 32 + 32 * ts.skip(1).len() <= data.len());
        lemma_p_grams_of_cat_grams(data, pos + 32, ts.skip(1));
        let tail = Seq::new(ts.skip(1).len(), |i: int| ts.skip(1)[i].0@);
        assert(seq![ts[0].0@] + tail =~= Seq::new(ts.len(), |i: int| ts[i].0@));
        assert((ts.len() - 1) as nat == ts.skip(1).len());
    }
}

/// Reading a range anchor off its encoding yields its fields.
pub proof fn lemma_p_anchor_of_enc(data: Seq<u8>, pos: int, a: RangeAnchor)
    requires
        0 <= pos,
        a.frontier_attestation@.len() <= u32::MAX,
        pos + 85 + a.frontier_attestation@.len() <= data.len(),
        data.subrange(pos, pos + 85 + a.frontier_attestation@.len()) == enc_anchor(a),
    ensures
        p_anchor(data, pos) == Some(
            (
                (a.min_pos, a.max_pos, a.root_min@, a.root_max@, a.frontier_attestation@),
                pos + 85 + a.frontier_attestation@.len(),
            ),
        ),
{
    let fl = a.frontier_attestation@.len() as int;
    let whole = data.subrange(pos, pos + 85 + fl);
    assert(whole.len() == 85 + fl);
    assert(data[pos] == whole[0]);
    assert(whole[0] == ENC_V1);
    assert(p_u8(data, pos) == Some((ENC_V1, pos + 1)));
    assert(data.subrange(pos + 1, pos + 9) =~= be8_of(a.min_pos)) by {
        assert(forall|i: int|
            0 <= i < 8 ==> #[trigger] data.subrange(pos + 1, pos + 9)[i] == whole[1 + i]);
    }
    lemma_p_u64_of_enc(data, pos + 1, a.min_pos);
    assert(data.subrange(pos + 9, pos + 17) =~= be8_of(a.max_pos)) by {
        assert(forall|i: int|
            0 <= i < 8 ==> #[trigger] data.subrange(pos + 9, pos + 17)[i] == whole[9 + i]);
    }
    lemma_p_u64_of_enc(data, pos + 9, a.max_pos);
    assert(data.subrange(pos + 17, pos + 49) =~= a.root_min@) by {
        assert(forall|i: int|
            0 <= i < 32 ==> #[trigger] data.subrange(pos + 17, pos + 49)[i] == whole[17 + i]);
        assert(forall|i: int| 0 <= i < 32 ==> #[trigger] whole[17 + i] == a.root_min@[i]);
    }
    assert(p_fixed(data, pos + 17, 32) == Some((a.root_min@, pos + 49)));
    assert(data.subrange(pos + 49, pos + 81) =~= a.root_max@) by {
        assert(forall|i: int|
            0 <= i < 32 ==> #[trigger] data.subrange(pos + 49, pos + 81)[i] == whole[49 + i]);
        assert(forall|i: int| 0 <= i < 32 ==> #[trigger] whole[49 + i] == a.root_max@[i]);
    }
    assert(p_fixed(data, pos + 49, 32) == Some((a.root_max@, pos + 81)));
    assert(data.subrange(pos + 81, pos + 85 + fl) =~= enc_bytes(a.frontier_attestation@)) by {
        assert(forall|i: int|
            0 <= i < 4 + fl ==> #[trigger] data.subrange(pos + 81, pos + 85 + fl)[i] == whole[81
                + i]);
    }
    lemma_p_vec_of_enc(data, pos + 81, a.frontier_attestation@);
}

/// Round trip of the stamp codec at the specification level: parsing the
/// canonical encoding of any stamp recovers exactly its field views,
/// consuming the whole encoding.  Together with the decoder's contract,
/// decoding what the encoder produced returns an equal stamp.
pub proof fn lemma_stamp_roundtrip(s: Tachystamp)
    requires
        s.tachygrams@.len() <= u32::MAX,
        s.range_anchor.frontier_attestation@.len() <= u32::MAX,
        s.pcd_proof.0@.len() <= u32::MAX,
    ensures
        p_stamp_body(stamp_enc(s)) == Some((stamp_view(s), stamp_enc(s).len() as int)),
{
    let enc = stamp_enc(s);
    let fl = s.range_anchor.frontier_attestation@.len() as int;
    let n = s.tachygrams@.len() as int;
    let pl = s.pcd_proof.0@.len() as int;
    lemma_cat_grams_len(s.tachygrams@);
    let anchor_end: int = 1 + 85 + fl;
    let grams_end: int = anchor_end + 4 + 32 * n;
    assert(enc.len() == grams_end + 64 + 4 + pl);
    assert(enc[0] == ENC_V1);
    assert(p_u8(enc, 0) == Some((ENC_V1, 1int)));
    assert(enc.subrange(1, anchor_end) =~= enc_anchor(s.range_anchor));
    lemma_p_anchor_of_enc(enc, 1, s.range_anchor);
    assert(enc.subrange(anchor_end, anchor_end + 4) =~= be4_of(n as u32));
    lemma_p_u32_of_enc(enc, anchor_end, n as u32);
    assert((n as u32) as nat == s.tachygrams@.len());
    assert(enc.subrange(anchor_end + 4, grams_end) =~= cat_grams(s.tachygrams@));
    lemma_p_grams_of_cat_grams(enc, anchor_end + 4, s.tachygrams@);
    assert(enc.subrange(grams_end, grams_end + 64) =~= s.auth.0@);
    assert(p_fixed(enc, grams_end, 64) == Some((s.auth.0@, grams_end + 64)));
    assert(enc.subrange(grams_end + 64, grams_end + 68 + pl) =~= enc_bytes(s.pcd_proof.0@));
    lemma_p_vec_of_enc(enc, grams_end + 64, s.pcd_proof.0@);
    assert(Seq::new(s.tachygrams@.len(), |i: int| s.tachygrams@[i].0@) == stamp_view(s).grams);
}

} // verus!
