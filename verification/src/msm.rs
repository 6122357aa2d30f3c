//! Windowed bucket (Pippenger) multi-scalar multiplication.
//!
//! `msm_pippenger` computes `Σ scalars[i] * bases[i]` over the shorter of
//! the two inputs by splitting each 255-bit scalar into `w`-bit digits,
//! walking the windows from the most significant down — doubling the
//! accumulator `w` times between windows — and, per window, sorting each
//! base into the bucket of its digit and combining the buckets with the
//! running sum-of-partial-sums scan.  The window width is a fixed step
//! function of the input size, so the result is reproducible bit for bit.
//! `msm_reference` is the direct one-by-one accumulation.

use vstd::prelude::*;
use vstd::arithmetic::power2::{lemma2_to64, lemma_pow2_pos, lemma_pow2_unfold, pow2};

use crate::basis::{base_of, derive_bases_len};
use crate::fields::FieldB;
use crate::points::{pt_add, pt_add_of, pt_double, pt_id, pt_identity, pt_mul, pt_mul_of, PointB};

verus! {

/// The window width chosen for `m` input pairs: coarser for small inputs,
/// finer for large ones.
pub open spec fn window_of(m: int) -> int {
    if m <= 32 {
        3
    } else if m <= 128 {
        5
    } else if m <= 512 {
        7
    } else if m <= 2048 {
        11
    } else if m <= 8192 {
        13
    } else {
        15
    }
}

/// Heuristic window size for an input of `m` pairs.
pub fn optimal_window(m: usize) -> (r: usize)
    ensures
        r as int == window_of(m as int),
        3 <= r <= 15,
{
    if m <= 32 {
        3
    } else if m <= 128 {
        5
    } else if m <= 512 {
        7
    } else if m <= 2048 {
        11
    } else if m <= 8192 {
        13
    } else {
        15
    }
}

/// Bit `k` of a little-endian byte string (zero past its end).
pub open spec fn bit_of(bytes: Seq<u8>, k: int) -> int {
    if 0 <= k && k / 8 < bytes.len() {
        (bytes[k / 8] as int / pow2((k % 8) as nat) as int) % 2
    } else {
        0
    }
}

/// The value of the `i` bits starting at `start`, least significant first.
pub open spec fn digit_rec(bytes: Seq<u8>, start: int, i: nat) -> int
    decreases i,
{
    if i == 0 {
        0
    } else {
        digit_rec(bytes, start, (i - 1) as nat) + bit_of(bytes, start + i - 1) * pow2(
            (i - 1) as nat,
        ) as int
    }
}

/// A `w`-bit window digit is below `2^w`.
pub proof fn lemma_digit_bound(bytes: Seq<u8>, start: int, i: nat)
    ensures
        0 <= digit_rec(bytes, start, i) < pow2(i),
    decreases i,
{
    if i == 0 {
        assert(pow2(0) == 1) by {
            lemma2_to64();
        }
    } else {
        lemma_digit_bound(bytes, start, (i - 1) as nat);
        lemma_pow2_unfold(i);
        lemma_pow2_pos((i - 1) as nat);
        let b = bit_of(bytes, start + i - 1);
        assert(0 <= b <= 1) by {
            if 0 <= start + i - 1 && (start + i - 1) / 8 < bytes.len() {
                let by = bytes[(start + i - 1) / 8] as int;
                let p = pow2(((start + i - 1) % 8) as nat) as int;
                assert(p > 0) by {
                    lemma_pow2_pos(((start + i - 1) % 8) as nat);
                }
                assert(0 <= (by / p) % 2 <= 1);
            }
        }
        assert(b * pow2((i - 1) as nat) as int <= pow2((i - 1) as nat) as int) by (nonlinear_arith)
            requires
                0 <= b <= 1,
                pow2((i - 1) as nat) as int > 0,
        ;
        assert(b * pow2((i - 1) as nat) as int >= 0) by (nonlinear_arith)
            requires
                0 <= b,
                pow2((i - 1) as nat) as int > 0,
        ;
    }
}

/// The `w`-bit digit of scalar bytes `s` for window `win`.
pub open spec fn digit_of(s: Seq<u8>, win: int, w: nat) -> int {
    digit_rec(s, win * w, w)
}

/// Extract the `w`-bit window digit at window index `win` from a scalar's
/// little-endian bytes.
fn window_value(le: &[u8; 32], win: usize, w: usize) -> (r: u32)
    requires
        1 <= w <= 15,
        win * w + w <= 0x1000,
    ensures
        r as int == digit_of(le@, win as int, w as nat),
        r < 0x8000,
{
    let start = win * w;
    let mut acc: u32 = 0;
    let mut pw: u32 = 1;
    let mut i: usize = 0;
    proof {
        assert(pow2(0) == 1 && pow2(15) == 0x8000) by {
            lemma2_to64();
        }
        lemma_digit_bound(le@, start as int, w as nat);
    }
    while i < w
        invariant
            i <= w <= 15,
            start == win * w,
            start + w <= 0x1000,
            pw == pow2(i as nat),
            acc as int == digit_rec(le@, start as int, i as nat),
            acc < 0x8000,
        decreases w - i,
    {
        proof {
            lemma_digit_bound(le@, start as int, (i + 1) as nat);
            lemma_digit_bound(le@, start as int, i as nat);
            lemma_pow2_unfold((i + 1) as nat);
            assert(pow2(i as nat) <= pow2(14)) by {
                if i < 14 {
                    vstd::arithmetic::power2::lemma_pow2_strictly_increases(i as nat, 14);
                }
            }
            assert(pow2(14) == 0x4000 && pow2(15) == 0x8000) by {
                lemma2_to64();
            }
        }
        let bit_idx = start + i;
        let byte = bit_idx / 8;
        let bit_in_byte = bit_idx % 8;
        let b: u8 = if byte < 32 {
            let x = le[byte];
            let sh8: u8 = bit_in_byte as u8;
            let y = x >> sh8;
            let sh = y & 1;
            proof {
                vstd::bits::lemma_u8_shr_is_div(x, sh8);
                assert(y & 1 == y % 2) by (bit_vector);
                lemma_pow2_pos(sh8 as nat);
            }
            sh
        } else {
            0
        };
        proof {
            assert(b as int == bit_of(le@, (start + i) as int));
        }
        acc = acc + (b as u32) * pw;
        pw = pw * 2;
        i += 1;
    }
    acc
}

/// The bucket array for window `win` after the first `i` bases have been
/// sorted in: bucket `d - 1` accumulates every base whose digit is `d`.
pub open spec fn buckets_upto(
    bases: Seq<Seq<u8>>,
    scalars: Seq<Seq<u8>>,
    win: int,
    w: nat,
    i: int,
) -> Seq<Seq<u8>>
    decreases i,
{
    if i <= 0 {
        Seq::new((pow2(w) - 1) as nat, |b: int| pt_id())
    } else {
        let prev = buckets_upto(bases, scalars, win, w, i - 1);
        let d = digit_of(scalars[i - 1], win, w);
        if d == 0 {
            prev
        } else {
            prev.update(d - 1, pt_add_of(prev[d - 1], bases[i - 1]))
        }
    }
}

/// The bucket count never changes while filling.
pub proof fn lemma_buckets_len(
    bases: Seq<Seq<u8>>,
    scalars: Seq<Seq<u8>>,
    win: int,
    w: nat,
    i: int,
)
    ensures
        buckets_upto(bases, scalars, win, w, i).len() == pow2(w) - 1,
    decreases i,
{
    lemma_pow2_pos(w);
    if i <= 0 {
        assert(buckets_upto(bases, scalars, win, w, i) == Seq::new(
            (pow2(w) - 1) as nat,
            |b: int| pt_id(),
        ));
    } else {
        lemma_buckets_len(bases, scalars, win, w, i - 1);
        let prev = buckets_upto(bases, scalars, win, w, i - 1);
        let d = digit_of(scalars[i - 1], win, w);
        lemma_digit_bound(scalars[i - 1], win * w, w);
        if d != 0 {
            assert(0 <= d - 1 < prev.len());
            assert(buckets_upto(bases, scalars, win, w, i) == prev.update(
                d - 1,
                pt_add_of(prev[d - 1], bases[i - 1]),
            ));
            assert(prev.update(d - 1, pt_add_of(prev[d - 1], bases[i - 1])).len() == prev.len());
        }
    }
}

/// The running sum-of-partial-sums scan from bucket index `len - 1` down to
/// `j`: the first component is the running bucket sum, the second the
/// accumulator the scan adds into.
pub open spec fn scan_pair(buckets: Seq<Seq<u8>>, acc0: Seq<u8>, j: int) -> (Seq<u8>, Seq<u8>)
    decreases buckets.len() - j,
{
    if j >= buckets.len() || j < 0 {
        (pt_id(), acc0)
    } else {
        let prev = scan_pair(buckets, acc0, j + 1);
        let run = pt_add_of(prev.0, buckets[j]);
        (run, pt_add_of(prev.1, run))
    }
}

/// `k` successive doublings of the point with encoding `p`.
pub open spec fn dbl_n(p: Seq<u8>, k: nat) -> Seq<u8>
    decreases k,
{
    if k == 0 {
        p
    } else {
        let q = dbl_n(p, (k - 1) as nat);
        pt_add_of(q, q)
    }
}

/// One window of the bucket method on top of accumulator `acc`: double `w`
/// times, fill the buckets for window `win`, add the bucket scan in.
pub open spec fn window_step(
    bases: Seq<Seq<u8>>,
    scalars: Seq<Seq<u8>>,
    m: int,
    w: nat,
    win: int,
    acc: Seq<u8>,
) -> Seq<u8> {
    scan_pair(buckets_upto(bases, scalars, win, w, m), dbl_n(acc, w), 0).1
}

/// The accumulator after the `t` most significant of `nw` windows.
pub open spec fn pip_upto(
    bases: Seq<Seq<u8>>,
    scalars: Seq<Seq<u8>>,
    m: int,
    w: nat,
    nw: nat,
    t: nat,
) -> Seq<u8>
    decreases t,
{
    if t == 0 {
        pt_id()
    } else {
        window_step(
            bases,
            scalars,
            m,
            w,
            (nw - t) as int,
            pip_upto(bases, scalars, m, w, nw, (t - 1) as nat),
        )
    }
}

/// The full windowed bucket computation over the shorter input length.
pub open spec fn pippenger_of(bases: Seq<Seq<u8>>, scalars: Seq<Seq<u8>>) -> Seq<u8> {
    let m = if bases.len() <= scalars.len() {
        bases.len() as int
    } else {
        scalars.len() as int
    };
    if m == 0 {
        pt_id()
    } else {
        let w = window_of(m) as nat;
        let nw = ((255 + w - 1) / (w as int)) as nat;
        pip_upto(bases, scalars, m, w, nw, nw)
    }
}

/// Windowed Pippenger multi-scalar multiplication: the bucket-method value
/// of `Σ scalars[i] * bases[i]` over the shorter input, the identity when
/// one input is empty.
pub fn msm_pippenger(bases: &Vec<PointB>, scalars: &Vec<FieldB>) -> (r: PointB)
    ensures
        r@ == pippenger_of(bases.deep_view(), scalars.deep_view()),
{
    let ghost db = bases.deep_view();
    let ghost ds = scalars.deep_view();
    let m = if bases.len() <= scalars.len() {
        bases.len()
    } else {
        scalars.len()
    };
    if m == 0 {
        return pt_identity();
    }
    let w = optimal_window(m);
    let num_windows = (255 + w - 1) / w;
    // Little-endian byte strings of the scalars, extracted once.
    let mut scalars_le: Vec<[u8; 32]> = Vec::new();
    let mut i: usize = 0;
    while i < m
        invariant
            i <= m,
            m <= scalars@.len(),
            ds == scalars.deep_view(),
            scalars_le@.len() == i,
            forall|k: int| 0 <= k < i ==> #[trigger] scalars_le@[k]@ == ds[k],
        decreases m - i,
    {
        scalars_le.push(scalars[i].to_bytes());
        i += 1;
    }
    let mut acc = pt_identity();
    let mut win = num_windows;
    proof {
        assert(pip_upto(db, ds, m as int, w as nat, num_windows as nat, 0) == pt_id());
    }
    while win > 0
        invariant
            win <= num_windows,
            m >= 1,
            m <= bases@.len(),
            m <= scalars@.len(),
            db == bases.deep_view(),
            ds == scalars.deep_view(),
            3 <= w <= 15,
            w as int == window_of(m as int),
            num_windows as int == (255 + w as int - 1) / (w as int),
            scalars_le@.len() == m,
            forall|k: int| 0 <= k < m ==> #[trigger] scalars_le@[k]@ == ds[k],
            acc@ == pip_upto(db, ds, m as int, w as nat, num_windows as nat, (num_windows
                - win) as nat),
        decreases win,
    {
        win -= 1;
        let ghost entry_acc = acc@;
        // Double w times to shift the accumulator one window up.
        let mut d: usize = 0;
        while d < w
            invariant
                d <= w,
                acc@ == dbl_n(entry_acc, d as nat),
            decreases w - d,
        {
            acc = pt_double(&acc);
            d += 1;
        }
        // Bucket count 2^w - 1.
        let mut bl: usize = 1;
        let mut e: usize = 0;
        proof {
            assert(pow2(0) == 1) by {
                lemma2_to64();
            }
        }
        while e < w
            invariant
                e <= w <= 15,
                bl == pow2(e as nat),
            decreases w - e,
        {
            proof {
                lemma_pow2_unfold((e + 1) as nat);
                assert(pow2(e as nat) <= pow2(14)) by {
                    if e < 14 {
                        vstd::arithmetic::power2::lemma_pow2_strictly_increases(e as nat, 14);
                    }
                }
                assert(pow2(14) == 0x4000) by {
                    lemma2_to64();
                }
            }
            bl = bl * 2;
            e += 1;
        }
        proof {
            lemma_pow2_pos(w as nat);
        }
        let bucket_len = bl - 1;
        let mut buckets: Vec<PointB> = Vec::new();
        while buckets.len() < bucket_len
            invariant
                buckets@.len() <= bucket_len,
                forall|k: int|
                    0 <= k < buckets@.len() ==> #[trigger] buckets.deep_view()[k] == pt_id(),
            decreases bucket_len - buckets@.len(),
        {
            let ghost pre = buckets.deep_view();
            buckets.push(pt_identity());
            proof {
                assert(forall|idx: int|
                    #![trigger buckets.deep_view()[idx]]
                    0 <= idx < pre.len() ==> buckets.deep_view()[idx] == pre[idx]);
                assert(buckets.deep_view()[pre.len() as int] == pt_id());
            }
        }
        proof {
            lemma_buckets_len(db, ds, win as int, w as nat, 0);
            assert(buckets.deep_view() =~= buckets_upto(db, ds, win as int, w as nat, 0));
        }
        // Fill the buckets.
        let mut i2: usize = 0;
        while i2 < m
            invariant
                i2 <= m,
                m <= bases@.len(),
                m <= scalars@.len(),
                db == bases.deep_view(),
                ds == scalars.deep_view(),
                3 <= w <= 15,
                win < num_windows,
                num_windows as int == (255 + w as int - 1) / (w as int),
                scalars_le@.len() == m,
                forall|k: int| 0 <= k < m ==> #[trigger] scalars_le@[k]@ == ds[k],
                bl == pow2(w as nat),
                bucket_len == bl - 1,
                buckets@.len() == bucket_len,
                buckets.deep_view() == buckets_upto(db, ds, win as int, w as nat, i2 as int),
            decreases m - i2,
        {
            proof {
                lemma_buckets_len(db, ds, win as int, w as nat, i2 as int);
                assert(win as int * w as int + w as int <= 0x1000) by (nonlinear_arith)
                    requires
                        0 <= win as int,
                        (win as int) < (255 + w as int - 1) / (w as int),
                        3 <= w as int <= 15,
                ;
                lemma_digit_bound(scalars_le@[i2 as int]@, (win * w) as int, w as nat);
            }
            let val = window_value(&scalars_le[i2], win, w);
            if val != 0 {
                let idx = (val - 1) as usize;
                let ghost pre = buckets.deep_view();
                let nb = pt_add(&buckets[idx], &bases[i2]);
                buckets[idx] = nb;
                proof {
                    assert(forall|t: int|
                        #![trigger buckets.deep_view()[t]]
                        0 <= t < pre.len() && t != idx as int ==> buckets.deep_view()[t] == pre[t]);
                    assert(buckets.deep_view()[idx as int] == nb@);
                    assert(buckets.deep_view() =~= pre.update(
                        idx as int,
                        pt_add_of(pre[idx as int], db[i2 as int]),
                    ));
                }
            }
            proof {
                assert(buckets.deep_view() =~= buckets_upto(
                    db,
                    ds,
                    win as int,
                    w as nat,
                    i2 + 1 as int,
                ));
            }
            i2 += 1;
        }
        // Combine buckets: running sum from the highest bucket down.
        let ghost full_buckets = buckets.deep_view();
        let ghost acc_shifted = acc@;
        let mut running = pt_identity();
        let mut j: usize = bucket_len;
        proof {
            assert(scan_pair(full_buckets, acc_shifted, bucket_len as int) == (pt_id(),
            acc_shifted));
        }
        while j > 0
            invariant
                j <= bucket_len,
                bucket_len == buckets@.len(),
                full_buckets == buckets.deep_view(),
                (running@, acc@) == scan_pair(full_buckets, acc_shifted, j as int),
            decreases j,
        {
            j -= 1;
            running = pt_add(&running, &buckets[j]);
            acc = pt_add(&acc, &running);
        }
        proof {
            assert(acc@ == window_step(db, ds, m as int, w as nat, win as int, entry_acc));
            assert((num_windows - win) as nat == ((num_windows - win - 1) + 1) as nat);
        }
    }
    proof {
        assert(acc@ == pippenger_of(db, ds));
    }
    acc
}

/// The direct accumulation `Σ scalars[i] * bases[i]`, folded left to right
/// over the first `i` pairs.
pub open spec fn msm_upto(bases: Seq<Seq<u8>>, scalars: Seq<Seq<u8>>, i: int) -> Seq<u8>
    decreases i,
{
    if i <= 0 {
        pt_id()
    } else {
        pt_add_of(
            msm_upto(bases, scalars, i - 1),
            pt_mul_of(scalars[i - 1], bases[i - 1]),
        )
    }
}

/// The reference multi-scalar multiplication over the shorter input length.
pub open spec fn msm_of(bases: Seq<Seq<u8>>, scalars: Seq<Seq<u8>>) -> Seq<u8> {
    let m = if bases.len() <= scalars.len() {
        bases.len() as int
    } else {
        scalars.len() as int
    };
    msm_upto(bases, scalars, m)
}

/// Reference multi-scalar multiplication: one scalar multiplication and one
/// addition per pair, the identity when one input is empty.
pub fn msm_reference(bases: &Vec<PointB>, scalars: &Vec<FieldB>) -> (r: PointB)
    ensures
        r@ == msm_of(bases.deep_view(), scalars.deep_view()),
{
    let ghost db = bases.deep_view();
    let ghost ds = scalars.deep_view();
    let m = if bases.len() <= scalars.len() {
        bases.len()
    } else {
        scalars.len()
    };
    let mut acc = pt_identity();
    let mut i: usize = 0;
    while i < m
        invariant
            i <= m,
            m <= bases@.len(),
            m <= scalars@.len(),
            db == bases.deep_view(),
            ds == scalars.deep_view(),
            acc@ == msm_upto(db, ds, i as int),
        decreases m - i,
    {
        let t = pt_mul(&scalars[i], &bases[i]);
        acc = pt_add(&acc, &t);
        i += 1;
    }
    acc
}

/// The commitment bases `G_0 .. G_{m-1}`.
pub open spec fn bases_seq(m: int) -> Seq<Seq<u8>> {
    Seq::new(m as nat, |k: int| base_of((k / 256) as u32, (k % 256) as u32))
}

/// The vector Pedersen commitment to a coefficient vector: the windowed
/// bucket MSM of the coefficients against the derived basis, the identity
/// for an empty vector.
pub open spec fn commit_of(coeffs: Seq<Seq<u8>>) -> Seq<u8> {
    if coeffs.len() == 0 {
        pt_id()
    } else {
        pippenger_of(bases_seq(coeffs.len() as int), coeffs)
    }
}

/// MSM agreement on empty input: with no pairs to accumulate, the windowed
/// bucket method and the direct accumulation both yield the identity.  The
/// agreement on nonempty inputs rests on the group laws of the outside
/// curve library, which no per-call contract states, and is exercised by
/// tests instead.
pub proof fn lemma_msm_agree_empty(bases: Seq<Seq<u8>>, scalars: Seq<Seq<u8>>)
    requires
        bases.len() == 0 || scalars.len() == 0,
    ensures
        pippenger_of(bases, scalars) == msm_of(bases, scalars),
        msm_of(bases, scalars) == pt_id(),
{
}

/// Compute the vector Pedersen commitment `C = Σ coeffs[k] * G_k`.
pub fn commit_coeffs(coeffs: &Vec<FieldB>) -> (r: PointB)
    requires
        coeffs@.len() <= 0x4000_0000,
    ensures
        r@ == commit_of(coeffs.deep_view()),
{
    let m = coeffs.len();
    if m == 0 {
        return pt_identity();
    }
    let bases = derive_bases_len(m);
    proof {
        assert(bases.deep_view() =~= bases_seq(m as int));
    }
    msm_pippenger(&bases, coeffs)
}

} // verus!
