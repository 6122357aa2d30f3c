//! Number-theoretic transform over field A, and the FFT-based
//! root-to-coefficient conversion.
//!
//! The transform is the iterative radix-2 decimation-in-time NTT: a
//! bit-reversal permutation followed by `log2(n)` butterfly stages, with the
//! twiddle factor of stage `s` the `2^s`-th square of the base root of
//! unity.  Polynomial products are computed by transforming both operands at
//! the smallest power-of-two length that fits the result, multiplying
//! pointwise, and transforming back; the root-to-coefficient conversion
//! builds a balanced product tree of linear factors with those products.

use vstd::prelude::*;
use vstd::arithmetic::power2::{lemma2_to64, lemma_pow2_adds, lemma_pow2_pos, lemma_pow2_unfold, pow2};
use vstd::arithmetic::div_mod::{lemma_div_denominator, lemma_fundamental_div_mod};

use crate::fields::{
    fa_add, fa_add_of, fa_from_u64, fa_invert, fa_mul, fa_mul_of, fa_neg, fa_neg_of, fa_of_u64,
    fa_root_pow, fa_rootpow_of, fa_sub, fa_sub_of, fa_two_adicity, fa_inv_of, FieldA,
};

verus! {

/// The reversal of the low `lg` bits of `x`: bit `i` of the input becomes
/// bit `lg - 1 - i` of the result.
pub open spec fn rev_bits(x: nat, lg: nat) -> nat
    decreases lg,
{
    if lg == 0 {
        0
    } else {
        (x % 2) * pow2((lg - 1) as nat) + rev_bits(x / 2, (lg - 1) as nat)
    }
}

/// A reversed index stays below `2^lg`.
pub proof fn lemma_rev_bits_bound(x: nat, lg: nat)
    ensures
        rev_bits(x, lg) < pow2(lg),
    decreases lg,
{
    if lg == 0 {
        assert(pow2(0) == 1) by {
            lemma2_to64();
        }
    } else {
        lemma_rev_bits_bound(x / 2, (lg - 1) as nat);
        lemma_pow2_unfold(lg);
        assert((x % 2) * pow2((lg - 1) as nat) <= pow2((lg - 1) as nat)) by {
            if x % 2 == 0 {
            } else {
                assert(x % 2 == 1);
            }
        }
    }
}

/// Peeling one step off the reversal from the high end: extending the
/// reversal by one bit doubles it and brings in bit `t` of the input.
pub proof fn lemma_rev_step(x: nat, t: nat)
    ensures
        rev_bits(x, (t + 1) as nat) == 2 * rev_bits(x, t) + (x / pow2(t)) % 2,
    decreases t,
{
    if t == 0 {
        assert(pow2(0) == 1) by {
            lemma2_to64();
        }
        assert(rev_bits(x, 1) == (x % 2) * pow2(0) + rev_bits(x / 2, 0));
        assert(rev_bits(x, 1) == x % 2);
        assert((x / pow2(0)) % 2 == x % 2);
    } else {
        lemma_rev_step(x / 2, (t - 1) as nat);
        lemma_pow2_unfold(t);
        lemma_pow2_pos((t - 1) as nat);
        lemma_div_denominator(x as int, 2, pow2((t - 1) as nat) as int);
        assert(x / 2 / pow2((t - 1) as nat) == x / pow2(t));
        assert((x % 2) * pow2(t) == 2 * ((x % 2) * pow2((t - 1) as nat))) by (nonlinear_arith)
            requires
                pow2(t) == 2 * pow2((t - 1) as nat),
        ;
        assert(rev_bits(x, (t + 1) as nat) == (x % 2) * pow2(t) + rev_bits(x / 2, t));
        assert(rev_bits(x, t) == (x % 2) * pow2((t - 1) as nat) + rev_bits(x / 2, (t - 1) as nat));
        assert(rev_bits(x / 2, t) == 2 * rev_bits(x / 2, (t - 1) as nat) + ((x / 2) / pow2(
            (t - 1) as nat,
        )) % 2);
    }
}

/// Reverse the low `lg` bits of `x`.
fn bitreverse(x: usize, lg: usize) -> (r: usize)
    requires
        lg <= 30,
    ensures
        r == rev_bits(x as nat, lg as nat),
{
    let mut y: usize = 0;
    let mut xc: usize = x;
    let mut t: usize = 0;
    proof {
        assert(pow2(0) == 1) by {
            lemma2_to64();
        }
    }
    while t < lg
        invariant
            t <= lg <= 30,
            y == rev_bits(x as nat, t as nat),
            y < pow2(t as nat),
            xc == x as nat / pow2(t as nat),
        decreases lg - t,
    {
        proof {
            lemma_rev_step(x as nat, t as nat);
            lemma_rev_bits_bound(x as nat, (t + 1) as nat);
            lemma_pow2_unfold((t + 1) as nat);
            assert(pow2(t as nat) <= pow2(30)) by {
                if t < 30 {
                    vstd::arithmetic::power2::lemma_pow2_strictly_increases(t as nat, 30);
                }
            }
            assert(pow2(30) == 0x40000000) by {
                lemma2_to64();
            }
            lemma_pow2_pos(t as nat);
            lemma_div_denominator(x as int, pow2(t as nat) as int, 2);
            lemma_pow2_adds(t as nat, 1);
            assert(pow2(1) == 2) by {
                lemma2_to64();
            }
        }
        y = y * 2 + (xc % 2);
        xc = xc / 2;
        t += 1;
    }
    y
}

/// The bit-reversal permutation of a length-`2^lg` sequence.
pub open spec fn bit_rev_perm(a: Seq<Seq<u8>>, lg: nat) -> Seq<Seq<u8>>
    recommends
        a.len() == pow2(lg),
{
    Seq::new(a.len(), |i: int| a[rev_bits(i as nat, lg) as int])
}

/// Apply the bit-reversal permutation.
fn bit_rev_permute(a: &Vec<FieldA>, lg: usize) -> (out: Vec<FieldA>)
    requires
        lg <= 30,
        a@.len() == pow2(lg as nat),
    ensures
        out.deep_view() == bit_rev_perm(a.deep_view(), lg as nat),
        out@.len() == a@.len(),
{
    let n = a.len();
    let mut out: Vec<FieldA> = Vec::new();
    let mut i: usize = 0;
    while i < n
        invariant
            i <= n,
            lg <= 30,
            n == a@.len() == pow2(lg as nat),
            out@.len() == i,
            forall|k: int|
                0 <= k < i ==> #[trigger] out.deep_view()[k] == a.deep_view()[rev_bits(
                    k as nat,
                    lg as nat,
                ) as int],
        decreases n - i,
    {
        let j = bitreverse(i, lg);
        proof {
            lemma_rev_bits_bound(i as nat, lg as nat);
        }
        let ghost pre = out.deep_view();
        out.push(a[j]);
        proof {
            assert(forall|idx: int|
                #![trigger out.deep_view()[idx]]
                0 <= idx < pre.len() ==> out.deep_view()[idx] == pre[idx]);
            assert(out.deep_view()[pre.len() as int] == a.deep_view()[j as int]);
        }
        i += 1;
    }
    assert(out.deep_view() =~= bit_rev_perm(a.deep_view(), lg as nat));
    out
}

/// The `k`-th power of `w` under the named field multiplication, with the
/// zeroth power the multiplicative identity.
pub open spec fn fa_pow(w: Seq<u8>, k: nat) -> Seq<u8>
    decreases k,
{
    if k == 0 {
        fa_of_u64(1)
    } else {
        fa_mul_of(fa_pow(w, (k - 1) as nat), w)
    }
}

/// One butterfly stage with block half-width `half` and twiddle base `wm`:
/// positions pair up at distance `half` inside each block of `2 * half`,
/// the lower one taking `u + w^j * v` and the upper one `u - w^j * v`.
pub open spec fn butterfly_stage(a: Seq<Seq<u8>>, half: int, wm: Seq<u8>) -> Seq<Seq<u8>>
    recommends
        half >= 1,
{
    Seq::new(
        a.len(),
        |p: int|
            {
                let jp = p % (2 * half);
                if jp < half {
                    fa_add_of(a[p], fa_mul_of(a[p + half], fa_pow(wm, jp as nat)))
                } else {
                    fa_sub_of(a[p - half], fa_mul_of(a[p], fa_pow(wm, (jp - half) as nat)))
                }
            },
    )
}

/// Apply one butterfly stage.
fn fft_stage(a: &Vec<FieldA>, half: usize, wm: &FieldA) -> (out: Vec<FieldA>)
    requires
        1 <= half,
        2 * half <= a@.len(),
        a@.len() as int % (2 * half as int) == 0,
        a@.len() < usize::MAX / 2,
    ensures
        out.deep_view() == butterfly_stage(a.deep_view(), half as int, wm@),
        out@.len() == a@.len(),
{
    let n = a.len();
    let len2 = 2 * half;
    // Twiddle table: ws[j] = wm^j for j < half.
    let mut ws: Vec<FieldA> = Vec::new();
    ws.push(fa_from_u64(1));
    assert(ws.deep_view() =~= Seq::new(1, |j: int| fa_pow(wm@, j as nat)));
    let mut j: usize = 1;
    while j < half
        invariant
            1 <= j <= half,
            ws@.len() == j,
            ws.deep_view() == Seq::new(j as nat, |k: int| fa_pow(wm@, k as nat)),
        decreases half - j,
    {
        let ghost pre = ws.deep_view();
        let t = fa_mul(&ws[j - 1], wm);
        ws.push(t);
        proof {
            assert(forall|idx: int|
                #![trigger ws.deep_view()[idx]]
                0 <= idx < pre.len() ==> ws.deep_view()[idx] == pre[idx]);
            assert(ws.deep_view()[pre.len() as int] == t@);
            assert(pre[j - 1 as int] == fa_pow(wm@, (j - 1) as nat));
            assert(ws.deep_view() =~= Seq::new((j + 1) as nat, |k: int| fa_pow(wm@, k as nat)));
        }
        j += 1;
    }
    let ghost da = a.deep_view();
    let ghost target = butterfly_stage(da, half as int, wm@);
    let mut out: Vec<FieldA> = Vec::new();
    let mut p: usize = 0;
    while p < n
        invariant
            p <= n,
            n == a@.len() == da.len(),
            n < usize::MAX / 2,
            da == a.deep_view(),
            1 <= half,
            len2 == 2 * half,
            len2 <= n,
            n as int % (len2 as int) == 0,
            ws@.len() == half,
            ws.deep_view() == Seq::new(half as nat, |k: int| fa_pow(wm@, k as nat)),
            target == butterfly_stage(da, half as int, wm@),
            out@.len() == p,
            forall|k: int| 0 <= k < p ==> #[trigger] out.deep_view()[k] == target[k],
        decreases n - p,
    {
        let jp = p % len2;
        proof {
            lemma_fundamental_div_mod(p as int, len2 as int);
            assert(0 <= jp < len2);
            // The whole block containing p lies inside the array.
            assert(len2 * (p as int / len2 as int) + len2 <= n) by (nonlinear_arith)
                requires
                    n as int % (len2 as int) == 0,
                    0 < len2 as int <= n,
                    p < n,
                    p as int == len2 as int * (p as int / len2 as int) + jp as int,
                    0 <= jp < len2,
            ;
        }
        let val = if jp < half {
            assert(ws.deep_view()[jp as int] == fa_pow(wm@, jp as nat));
            assert(ws@[jp as int]@ == fa_pow(wm@, jp as nat));
            let t = fa_mul(&a[p + half], &ws[jp]);
            assert(t@ == fa_mul_of(da[p + half], fa_pow(wm@, jp as nat)));
            fa_add(&a[p], &t)
        } else {
            assert(ws.deep_view()[jp - half] == fa_pow(wm@, (jp - half) as nat));
            assert(ws@[jp - half]@ == fa_pow(wm@, (jp - half) as nat));
            let t = fa_mul(&a[p], &ws[jp - half]);
            assert(t@ == fa_mul_of(da[p as int], fa_pow(wm@, (jp - half) as nat)));
            fa_sub(&a[p - half], &t)
        };
        let ghost pre = out.deep_view();
        out.push(val);
        proof {
            assert(forall|idx: int|
                #![trigger out.deep_view()[idx]]
                0 <= idx < pre.len() ==> out.deep_view()[idx] == pre[idx]);
            assert(out.deep_view()[pre.len() as int] == val@);
            assert(target[p as int] == val@);
        }
        p += 1;
    }
    assert(out.deep_view() =~= target);
    out
}

/// The per-stage twiddle base: stage `s` uses the `2^s`-th square of the
/// base root of unity, by repeated squaring.
pub open spec fn wm_at(omega: Seq<u8>, s: nat) -> Seq<u8>
    decreases s,
{
    if s == 0 {
        omega
    } else {
        fa_mul_of(wm_at(omega, (s - 1) as nat), wm_at(omega, (s - 1) as nat))
    }
}

/// The array after the first `s` of `lg` butterfly stages, stage `t`
/// having block half-width `2^t` and twiddle base `omega^(2^(lg - 1 - t))`
/// — the length-`2^(t+1)` subgroup generator.
pub open spec fn fft_upto(a: Seq<Seq<u8>>, omega: Seq<u8>, lg: nat, s: nat) -> Seq<Seq<u8>>
    decreases s,
{
    if s == 0 {
        a
    } else {
        butterfly_stage(
            fft_upto(a, omega, lg, (s - 1) as nat),
            pow2((s - 1) as nat) as int,
            wm_at(omega, (lg - s) as nat),
        )
    }
}

/// The stages preserve the array length.
pub proof fn lemma_fft_upto_len(a: Seq<Seq<u8>>, omega: Seq<u8>, lg: nat, s: nat)
    ensures
        fft_upto(a, omega, lg, s).len() == a.len(),
    decreases s,
{
    if s == 0 {
    } else {
        lemma_fft_upto_len(a, omega, lg, (s - 1) as nat);
    }
}

/// The full radix-2 transform of a length-`2^lg` array: the bit-reversal
/// permutation followed by all `lg` butterfly stages.
pub open spec fn fft_of(a: Seq<Seq<u8>>, omega: Seq<u8>, lg: nat) -> Seq<Seq<u8>>
    recommends
        a.len() == pow2(lg),
{
    fft_upto(bit_rev_perm(a, lg), omega, lg, lg)
}

/// Forward transform in the order the stages run.
fn fft_transform(input: Vec<FieldA>, omega: &FieldA, lg: usize) -> (out: Vec<FieldA>)
    requires
        lg <= 30,
        input@.len() == pow2(lg as nat),
    ensures
        out.deep_view() == fft_of(input.deep_view(), omega@, lg as nat),
        out@.len() == input@.len(),
{
    let ghost din = input.deep_view();
    let n = input.len();
    let mut a = bit_rev_permute(&input, lg);
    // Stage twiddle bases by repeated squaring: entry `k` is `omega^(2^k)`
    // squared down from `omega`; stage `s` uses entry `lg - 1 - s`.
    let mut tw: Vec<FieldA> = Vec::new();
    if lg > 0 {
        tw.push(*omega);
        proof {
            assert(tw.deep_view() =~= Seq::new(1, |k: int| wm_at(omega@, k as nat)));
        }
        let mut t: usize = 1;
        while t < lg
            invariant
                1 <= t <= lg,
                tw@.len() == t,
                tw.deep_view() == Seq::new(t as nat, |k: int| wm_at(omega@, k as nat)),
            decreases lg - t,
        {
            let ghost pre = tw.deep_view();
            let sq = fa_mul(&tw[t - 1], &tw[t - 1]);
            tw.push(sq);
            proof {
                assert(forall|idx: int|
                    #![trigger tw.deep_view()[idx]]
                    0 <= idx < pre.len() ==> tw.deep_view()[idx] == pre[idx]);
                assert(tw.deep_view()[pre.len() as int] == sq@);
                assert(pre[t - 1 as int] == wm_at(omega@, (t - 1) as nat));
                assert(tw.deep_view() =~= Seq::new((t + 1) as nat, |k: int| wm_at(omega@, k as nat)));
            }
            t += 1;
        }
    }
    let mut half: usize = 1;
    let mut s: usize = 0;
    proof {
        assert(pow2(0) == 1 && pow2(1) == 2 && pow2(30) == 0x40000000) by {
            lemma2_to64();
        }
    }
    while s < lg
        invariant
            s <= lg <= 30,
            n == pow2(lg as nat),
            half == pow2(s as nat),
            tw@.len() == lg,
            tw.deep_view() == Seq::new(lg as nat, |k: int| wm_at(omega@, k as nat)),
            a@.len() == n,
            din.len() == n,
            a.deep_view() == fft_upto(bit_rev_perm(din, lg as nat), omega@, lg as nat, s as nat),
        decreases lg - s,
    {
        proof {
            lemma_pow2_adds(s as nat, 1);
            lemma_pow2_adds((s + 1) as nat, (lg - s - 1) as nat);
            assert(pow2(1) == 2) by {
                lemma2_to64();
            }
            lemma_pow2_pos((s + 1) as nat);
            lemma_pow2_pos((lg - s - 1) as nat);
            vstd::arithmetic::div_mod::lemma_mod_multiples_basic(
                pow2((lg - s - 1) as nat) as int,
                pow2((s + 1) as nat) as int,
            );
            assert(pow2(lg as nat) <= pow2(30)) by {
                if lg < 30 {
                    vstd::arithmetic::power2::lemma_pow2_strictly_increases(lg as nat, 30);
                }
            }
            assert(pow2((s + 1) as nat) <= pow2(lg as nat)) by {
                if s + 1 < lg {
                    vstd::arithmetic::power2::lemma_pow2_strictly_increases(
                        (s + 1) as nat,
                        lg as nat,
                    );
                }
            }
            assert(pow2(30) == 0x40000000) by {
                lemma2_to64();
            }
            assert(2 * half == pow2((s + 1) as nat));
            assert(pow2(lg as nat) == pow2((lg - s - 1) as nat) * pow2((s + 1) as nat))
                by (nonlinear_arith)
                requires
                    pow2(lg as nat) == pow2((s + 1) as nat) * pow2((lg - s - 1) as nat),
            ;
            assert(pow2(lg as nat) as int % (pow2((s + 1) as nat) as int) == 0);
        }
        let wm = &tw[lg - 1 - s];
        proof {
            assert(tw.deep_view()[lg - 1 - s as int] == wm_at(omega@, (lg - 1 - s) as nat));
            assert((lg - 1 - s) as nat == (lg as nat - (s + 1) as nat) as nat);
        }
        let a2 = fft_stage(&a, half, wm);
        a = a2;
        half = half * 2;
        s += 1;
    }
    a
}

/// Every element multiplied by the constant `c`.
pub open spec fn scaled_by(u: Seq<Seq<u8>>, c: Seq<u8>) -> Seq<Seq<u8>> {
    Seq::new(u.len(), |i: int| fa_mul_of(u[i], c))
}

/// The inverse transform: the forward transform taken with the inverse root
/// of unity, scaled by the inverse of the length.
pub open spec fn ifft_of(a: Seq<Seq<u8>>, omega_inv: Seq<u8>, lg: nat) -> Seq<Seq<u8>>
    recommends
        a.len() == pow2(lg),
{
    scaled_by(fft_of(a, omega_inv, lg), fa_inv_of(fa_of_u64(pow2(lg) as u64)))
}

/// Inverse transform.
fn ifft_transform(input: Vec<FieldA>, omega_inv: &FieldA, lg: usize) -> (out: Vec<FieldA>)
    requires
        lg <= 30,
        input@.len() == pow2(lg as nat),
    ensures
        out.deep_view() == ifft_of(input.deep_view(), omega_inv@, lg as nat),
        out@.len() == input@.len(),
{
    let ghost din = input.deep_view();
    let n = input.len();
    let t = fft_transform(input, omega_inv, lg);
    proof {
        lemma_pow2_pos(lg as nat);
        assert(pow2(30) == 0x40000000) by {
            lemma2_to64();
        }
        assert(pow2(lg as nat) <= pow2(30)) by {
            if lg < 30 {
                vstd::arithmetic::power2::lemma_pow2_strictly_increases(lg as nat, 30);
            }
        }
    }
    let nf = fa_from_u64(n as u64);
    let n_inv = match fa_invert(&nf) {
        Some(v) => v,
        None => fa_from_u64(0),
    };
    assert(n_inv@ == fa_inv_of(fa_of_u64(pow2(lg as nat) as u64)));
    let mut out: Vec<FieldA> = Vec::new();
    let mut i: usize = 0;
    while i < n
        invariant
            i <= n,
            n == t@.len(),
            n_inv@ == fa_inv_of(fa_of_u64(pow2(lg as nat) as u64)),
            out@.len() == i,
            forall|k: int|
                0 <= k < i ==> #[trigger] out.deep_view()[k] == fa_mul_of(
                    t.deep_view()[k],
                    n_inv@,
                ),
        decreases n - i,
    {
        let ghost pre = out.deep_view();
        let v = fa_mul(&t[i], &n_inv);
        out.push(v);
        proof {
            assert(forall|idx: int|
                #![trigger out.deep_view()[idx]]
                0 <= idx < pre.len() ==> out.deep_view()[idx] == pre[idx]);
            assert(out.deep_view()[pre.len() as int] == v@);
        }
        i += 1;
    }
    assert(out.deep_view() =~= scaled_by(
        fft_of(din, omega_inv@, lg as nat),
        fa_inv_of(fa_of_u64(pow2(lg as nat) as u64)),
    ));
    out
}

/// The ceiling of the base-2 logarithm: the smallest `l` with `2^l >= m`.
pub open spec fn clog2(m: nat) -> nat
    decreases m,
{
    if m <= 1 {
        0
    } else {
        clog2(((m + 1) / 2) as nat) + 1
    }
}

/// `2^clog2(m)` covers `m` and does not overshoot it by a factor of two.
pub proof fn lemma_clog2_bounds(m: nat)
    requires
        m >= 1,
    ensures
        pow2(clog2(m)) >= m,
        m >= 2 ==> pow2(clog2(m)) <= 2 * (m - 1),
    decreases m,
{
    if m == 1 {
        assert(pow2(0) == 1) by {
            lemma2_to64();
        }
    } else {
        let h = ((m + 1) / 2) as nat;
        assert(1 <= h < m);
        lemma_clog2_bounds(h);
        lemma_pow2_unfold((clog2(h) + 1) as nat);
        assert(2 * h >= m);
        if h >= 2 {
            assert(2 * h <= m + 1);
            assert(pow2(clog2(m)) == 2 * pow2(clog2(h)));
            assert(pow2(clog2(h)) <= 2 * (h - 1));
        } else {
            assert(h == 1);
            assert(m == 2);
            assert(clog2(1) == 0);
            assert(pow2(0) == 1) by {
                lemma2_to64();
            }
        }
    }
}

/// The smallest power of two at least `m`, with its exponent.
fn next_pow2_log(m: usize) -> (r: (usize, usize))
    requires
        1 <= m <= 0x2000_0000,
    ensures
        r.1 as nat == clog2(m as nat),
        r.0 == pow2(r.1 as nat),
        r.0 >= m,
        r.0 <= 0x4000_0000,
        r.1 <= 30,
    decreases m,
{
    proof {
        lemma_clog2_bounds(m as nat);
    }
    if m <= 1 {
        proof {
            assert(pow2(0) == 1) by {
                lemma2_to64();
            }
        }
        (1, 0)
    } else {
        let h = (m + 1) / 2;
        let (p, l) = next_pow2_log(h);
        proof {
            lemma_pow2_unfold((l + 1) as nat);
            assert(pow2(30) == 0x40000000) by {
                lemma2_to64();
            }
            if l + 1 > 30 {
                vstd::arithmetic::power2::lemma_pow2_strictly_increases(30, (l + 1) as nat);
            }
        }
        (p * 2, l + 1)
    }
}

/// Zero-extension of a coefficient list to length `n`.
pub open spec fn pad_to(a: Seq<Seq<u8>>, n: nat) -> Seq<Seq<u8>> {
    Seq::new(n, |i: int| if i < a.len() { a[i] } else { fa_of_u64(0) })
}

/// Pointwise product of two equal-length lists.
pub open spec fn pointwise_mul(u: Seq<Seq<u8>>, v: Seq<Seq<u8>>) -> Seq<Seq<u8>> {
    Seq::new(u.len(), |i: int| fa_mul_of(u[i], v[i]))
}

/// The root of unity for transforms of length `2^lg`: the field's canonical
/// `2^32`-th primitive root raised to `2^(32 - lg)`.
pub open spec fn omega_of(lg: nat) -> Seq<u8>
    recommends
        lg <= 32,
{
    fa_rootpow_of(pow2((32 - lg) as nat) as u64)
}

/// The subgroup generator for transforms of length `2^lg`, and its inverse.
fn omega_for_size(lg: usize) -> (r: (FieldA, FieldA))
    requires
        lg <= 30,
    ensures
        r.0@ == omega_of(lg as nat),
        r.1@ == fa_inv_of(omega_of(lg as nat)),
{
    let s_total: u32 = fa_two_adicity();
    let e = s_total - (lg as u32);
    let mut pw: u64 = 1;
    let mut i: u32 = 0;
    proof {
        assert(pow2(0) == 1) by {
            lemma2_to64();
        }
    }
    while i < e
        invariant
            i <= e <= 32,
            pw == pow2(i as nat),
        decreases e - i,
    {
        proof {
            lemma_pow2_unfold((i + 1) as nat);
            assert(pow2(32) == 0x100000000) by {
                lemma2_to64();
            }
            assert(pow2(i as nat) <= pow2(31)) by {
                if i < 31 {
                    vstd::arithmetic::power2::lemma_pow2_strictly_increases(i as nat, 31);
                }
            }
            assert(pow2(31) == 0x80000000) by {
                lemma2_to64();
            }
        }
        pw = pw * 2;
        i += 1;
    }
    let omega = fa_root_pow(pw);
    let omega_inv = match fa_invert(&omega) {
        Some(v) => v,
        None => fa_from_u64(0),
    };
    (omega, omega_inv)
}

/// The length-doubling NTT product of two nonempty coefficient lists:
/// transform both at the smallest power-of-two length that fits the result,
/// multiply pointwise, transform back, truncate to the exact length.
pub open spec fn conv_fft_of(a: Seq<Seq<u8>>, b: Seq<Seq<u8>>) -> Seq<Seq<u8>>
    recommends
        a.len() >= 1,
        b.len() >= 1,
{
    let needed = (a.len() + b.len() - 1) as nat;
    let lg = clog2(needed);
    let n = pow2(lg);
    ifft_of(
        pointwise_mul(
            fft_of(pad_to(a, n), omega_of(lg), lg),
            fft_of(pad_to(b, n), omega_of(lg), lg),
        ),
        fa_inv_of(omega_of(lg)),
        lg,
    ).take(needed as int)
}

/// Pad a vector with zeros to length `n`.
fn pad_vec(a: &Vec<FieldA>, n: usize) -> (out: Vec<FieldA>)
    requires
        a@.len() <= n,
    ensures
        out.deep_view() == pad_to(a.deep_view(), n as nat),
        out@.len() == n,
{
    let mut out: Vec<FieldA> = Vec::new();
    let mut i: usize = 0;
    while i < n
        invariant
            i <= n,
            a@.len() <= n,
            out@.len() == i,
            forall|k: int|
                0 <= k < i ==> #[trigger] out.deep_view()[k] == pad_to(a.deep_view(), n as nat)[k],
        decreases n - i,
    {
        let ghost pre = out.deep_view();
        let v = if i < a.len() {
            a[i]
        } else {
            fa_from_u64(0)
        };
        out.push(v);
        proof {
            assert(forall|idx: int|
                #![trigger out.deep_view()[idx]]
                0 <= idx < pre.len() ==> out.deep_view()[idx] == pre[idx]);
            assert(out.deep_view()[pre.len() as int] == v@);
        }
        i += 1;
    }
    assert(out.deep_view() =~= pad_to(a.deep_view(), n as nat));
    out
}

/// Polynomial product through the transform.
fn convolution_fft(a: &Vec<FieldA>, b: &Vec<FieldA>) -> (out: Vec<FieldA>)
    requires
        a@.len() >= 1,
        b@.len() >= 1,
        a@.len() + b@.len() <= 0x2000_0000,
    ensures
        out.deep_view() == conv_fft_of(a.deep_view(), b.deep_view()),
        out@.len() == a@.len() + b@.len() - 1,
{
    let ghost da = a.deep_view();
    let ghost db = b.deep_view();
    let needed = a.len() + b.len() - 1;
    let (n, lg) = next_pow2_log(needed);
    let (omega, omega_inv) = omega_for_size(lg);
    let fa_v = pad_vec(a, n);
    let fb_v = pad_vec(b, n);
    let ta = fft_transform(fa_v, &omega, lg);
    let tb = fft_transform(fb_v, &omega, lg);
    let mut prod: Vec<FieldA> = Vec::new();
    let mut i: usize = 0;
    while i < n
        invariant
            i <= n,
            n == ta@.len() == tb@.len(),
            prod@.len() == i,
            forall|k: int|
                0 <= k < i ==> #[trigger] prod.deep_view()[k] == fa_mul_of(
                    ta.deep_view()[k],
                    tb.deep_view()[k],
                ),
        decreases n - i,
    {
        let ghost pre = prod.deep_view();
        let v = fa_mul(&ta[i], &tb[i]);
        prod.push(v);
        proof {
            assert(forall|idx: int|
                #![trigger prod.deep_view()[idx]]
                0 <= idx < pre.len() ==> prod.deep_view()[idx] == pre[idx]);
            assert(prod.deep_view()[pre.len() as int] == v@);
        }
        i += 1;
    }
    assert(prod.deep_view() =~= pointwise_mul(ta.deep_view(), tb.deep_view()));
    let mut res = ifft_transform(prod, &omega_inv, lg);
    let ghost full = res.deep_view();
    res.truncate(needed);
    proof {
        assert(res.deep_view() =~= full.take(needed as int));
        assert(res.deep_view() =~= conv_fft_of(da, db));
    }
    res
}

/// The degree-1 leaf polynomials `(X - r_j)` of the product tree.
pub open spec fn leaves_of(roots: Seq<Seq<u8>>) -> Seq<Seq<Seq<u8>>> {
    Seq::new(roots.len(), |i: int| seq![fa_neg_of(roots[i]), fa_of_u64(1)])
}

/// One level of the product tree: adjacent polynomials are multiplied, an
/// odd trailing one is carried up unchanged.
pub open spec fn combine_level(ps: Seq<Seq<Seq<u8>>>) -> Seq<Seq<Seq<u8>>> {
    Seq::new(
        ((ps.len() + 1) / 2) as nat,
        |i: int|
            if 2 * i + 1 < ps.len() {
                conv_fft_of(ps[2 * i], ps[2 * i + 1])
            } else {
                ps[2 * i]
            },
    )
}

/// The product tree folded to a single polynomial.
pub open spec fn combine_tree(ps: Seq<Seq<Seq<u8>>>) -> Seq<Seq<Seq<u8>>>
    decreases ps.len(),
{
    if ps.len() <= 1 {
        ps
    } else {
        combine_tree(combine_level(ps))
    }
}

/// The FFT-based root-to-coefficient conversion: the product of all leaves
/// `(X - r_j)`, computed level by level with NTT convolutions.
pub open spec fn fft_poly_of(roots: Seq<Seq<u8>>) -> Seq<Seq<u8>> {
    if roots.len() == 0 {
        seq![fa_of_u64(1)]
    } else {
        combine_tree(leaves_of(roots))[0]
    }
}

/// Every polynomial on a tree level is nonempty.
pub open spec fn wf_polys(ps: Seq<Seq<Seq<u8>>>) -> bool {
    forall|i: int| 0 <= i < ps.len() ==> #[trigger] ps[i].len() >= 1
}

/// The total degree carried by a tree level.
pub open spec fn tdeg(ps: Seq<Seq<Seq<u8>>>) -> int
    decreases ps.len(),
{
    if ps.len() == 0 {
        0
    } else {
        ps[0].len() - 1 + tdeg(ps.skip(1))
    }
}

/// Each element's degree is bounded by the level's total degree.
pub proof fn lemma_tdeg_elem(ps: Seq<Seq<Seq<u8>>>, i: int)
    requires
        wf_polys(ps),
        0 <= i < ps.len(),
    ensures
        tdeg(ps) >= 0,
        ps[i].len() - 1 <= tdeg(ps),
    decreases ps.len(),
{
    if ps.len() == 0 {
    } else {
        assert(ps[0].len() >= 1);
        assert(wf_polys(ps.skip(1))) by {
            assert(forall|k: int|
                0 <= k < ps.skip(1).len() ==> #[trigger] ps.skip(1)[k].len() >= 1);
        }
        if ps.len() == 1 {
            assert(ps.skip(1).len() == 0);
        } else {
            lemma_tdeg_elem(ps.skip(1), 0);
        }
        if i == 0 {
        } else {
            lemma_tdeg_elem(ps.skip(1), i - 1);
            assert(ps.skip(1)[i - 1] == ps[i]);
        }
    }
}

/// Two distinct elements' degrees together are bounded by the total degree.
pub proof fn lemma_tdeg_pair(ps: Seq<Seq<Seq<u8>>>, i: int, j: int)
    requires
        wf_polys(ps),
        0 <= i < j < ps.len(),
    ensures
        (ps[i].len() - 1) + (ps[j].len() - 1) <= tdeg(ps),
    decreases ps.len(),
{
    assert(wf_polys(ps.skip(1))) by {
        assert(forall|k: int| 0 <= k < ps.skip(1).len() ==> #[trigger] ps.skip(1)[k].len() >= 1);
    }
    if i == 0 {
        lemma_tdeg_elem(ps.skip(1), j - 1);
        assert(ps.skip(1)[j - 1] == ps[j]);
    } else {
        lemma_tdeg_pair(ps.skip(1), i - 1, j - 1);
        assert(ps.skip(1)[i - 1] == ps[i]);
        assert(ps.skip(1)[j - 1] == ps[j]);
        assert(ps[0].len() >= 1);
    }
}

/// The NTT product has one coefficient fewer than its operands together.
pub proof fn lemma_conv_fft_len(a: Seq<Seq<u8>>, b: Seq<Seq<u8>>)
    requires
        a.len() >= 1,
        b.len() >= 1,
        a.len() + b.len() <= 0x2000_0000,
    ensures
        conv_fft_of(a, b).len() == a.len() + b.len() - 1,
{
    let needed = (a.len() + b.len() - 1) as nat;
    let lg = clog2(needed);
    let n = pow2(lg);
    lemma_clog2_bounds(needed);
    lemma_fft_upto_len(bit_rev_perm(pad_to(a, n), lg), omega_of(lg), lg, lg);
    lemma_fft_upto_len(bit_rev_perm(pad_to(b, n), lg), omega_of(lg), lg, lg);
    let u = pointwise_mul(
        fft_of(pad_to(a, n), omega_of(lg), lg),
        fft_of(pad_to(b, n), omega_of(lg), lg),
    );
    assert(u.len() == n);
    lemma_fft_upto_len(bit_rev_perm(u, lg), fa_inv_of(omega_of(lg)), lg, lg);
}

/// Combining one level keeps every polynomial nonempty and the total degree
/// unchanged.
pub proof fn lemma_combine_level_tdeg(ps: Seq<Seq<Seq<u8>>>)
    requires
        wf_polys(ps),
        ps.len() >= 1,
        tdeg(ps) <= 0x1000_0000,
    ensures
        wf_polys(combine_level(ps)),
        tdeg(combine_level(ps)) == tdeg(ps),
    decreases ps.len(),
{
    let cl = combine_level(ps);
    if ps.len() == 1 {
        assert(cl.len() == 1);
        assert(cl[0] == ps[0]);
        assert(cl.skip(1).len() == 0);
        assert(ps.skip(1).len() == 0);
        assert(tdeg(cl.skip(1)) == 0);
        assert(tdeg(ps.skip(1)) == 0);
        assert(tdeg(cl) == cl[0].len() - 1 + tdeg(cl.skip(1)));
        assert(tdeg(ps) == ps[0].len() - 1 + tdeg(ps.skip(1)));
    } else {
        let rest = ps.skip(2);
        lemma_tdeg_pair(ps, 0, 1);
        lemma_tdeg_elem(ps, 0);
        lemma_conv_fft_len(ps[0], ps[1]);
        assert(wf_polys(rest)) by {
            assert(forall|k: int| 0 <= k < rest.len() ==> #[trigger] rest[k].len() >= 1);
        }
        assert(tdeg(ps) == ps[0].len() - 1 + ps[1].len() - 1 + tdeg(rest)) by {
            assert(ps.skip(1).skip(1) =~= rest);
            assert(ps.skip(1)[0] == ps[1]);
            assert(tdeg(ps.skip(1)) == ps[1].len() - 1 + tdeg(rest));
        }
        assert(tdeg(rest) >= 0) by {
            if rest.len() > 0 {
                lemma_tdeg_elem(rest, 0);
            }
        }
        if rest.len() >= 1 {
            lemma_combine_level_tdeg(rest);
        }
        assert(cl.skip(1) =~= combine_level(rest)) by {
            assert(cl.skip(1).len() == combine_level(rest).len());
            assert(forall|i: int|
                0 <= i < cl.skip(1).len() ==> #[trigger] cl.skip(1)[i] == combine_level(rest)[i])
                by {
                assert(forall|i: int|
                    0 <= i < cl.skip(1).len() ==> #[trigger] rest[2 * i] == ps[2 * i + 2] && (2 * i
                        + 1 < rest.len() ==> rest[2 * i + 1] == ps[2 * i + 3]));
            }
        }
        assert(cl[0] == conv_fft_of(ps[0], ps[1]));
        assert(tdeg(cl) == cl[0].len() - 1 + tdeg(cl.skip(1)));
        assert(tdeg(cl.skip(1)) == tdeg(combine_level(rest))) by {
            if rest.len() == 0 {
                assert(combine_level(rest).len() == 0);
                assert(cl.skip(1).len() == 0);
                assert(tdeg(cl.skip(1)) == 0);
                assert(tdeg(combine_level(rest)) == 0);
            }
        }
        assert(tdeg(combine_level(rest)) == tdeg(rest)) by {
            if rest.len() == 0 {
                assert(tdeg(combine_level(rest)) == 0);
                assert(tdeg(rest) == 0);
            }
        }
        assert(cl[0].len() == ps[0].len() + ps[1].len() - 1);
        assert(tdeg(cl) == tdeg(ps));
        assert(wf_polys(cl)) by {
            assert(forall|i: int| 0 <= i < cl.len() ==> #[trigger] cl[i].len() >= 1) by {
                assert(forall|i: int|
                    1 <= i < cl.len() ==> cl[i] == combine_level(rest)[i - 1]);
            }
        }
    }
}

/// The leaves carry one degree per root.
pub proof fn lemma_tdeg_leaves(roots: Seq<Seq<u8>>)
    ensures
        wf_polys(leaves_of(roots)),
        tdeg(leaves_of(roots)) == roots.len(),
    decreases roots.len(),
{
    let lv = leaves_of(roots);
    assert(wf_polys(lv)) by {
        assert(forall|i: int| 0 <= i < lv.len() ==> #[trigger] lv[i].len() >= 1);
    }
    if roots.len() == 0 {
    } else {
        lemma_tdeg_leaves(roots.skip(1));
        assert(lv.skip(1) =~= leaves_of(roots.skip(1))) by {
            assert(forall|i: int|
                0 <= i < lv.skip(1).len() ==> #[trigger] lv.skip(1)[i] == leaves_of(
                    roots.skip(1),
                )[i]);
        }
        assert(lv[0].len() == 2);
    }
}

/// FFT-accelerated root-to-coefficient conversion over a balanced product
/// tree; the result has one coefficient per root, plus one.
pub fn roots_to_coeffs_fft(roots: &Vec<FieldA>) -> (out: Vec<FieldA>)
    requires
        roots@.len() <= 0x0010_0000,
    ensures
        out.deep_view() == fft_poly_of(roots.deep_view()),
        out@.len() == roots@.len() + 1,
{
    let ghost droots = roots.deep_view();
    let n = roots.len();
    if n == 0 {
        let mut out: Vec<FieldA> = Vec::new();
        out.push(fa_from_u64(1));
        assert(out.deep_view() =~= fft_poly_of(droots));
        return out;
    }
    let mut polys: Vec<Vec<FieldA>> = Vec::new();
    let mut i: usize = 0;
    while i < n
        invariant
            i <= n,
            n == droots.len(),
            droots == roots.deep_view(),
            polys@.len() == i,
            forall|k: int|
                0 <= k < i ==> #[trigger] polys.deep_view()[k] == leaves_of(droots)[k],
        decreases n - i,
    {
        let mut leaf: Vec<FieldA> = Vec::new();
        leaf.push(fa_neg(&roots[i]));
        leaf.push(fa_from_u64(1));
        assert(leaf.deep_view() =~= leaves_of(droots)[i as int]);
        let ghost pre = polys.deep_view();
        polys.push(leaf);
        proof {
            assert(forall|idx: int|
                #![trigger polys.deep_view()[idx]]
                0 <= idx < pre.len() ==> polys.deep_view()[idx] == pre[idx]);
            assert(polys.deep_view()[pre.len() as int] == leaf.deep_view());
        }
        i += 1;
    }
    proof {
        assert(polys.deep_view() =~= leaves_of(droots));
        lemma_tdeg_leaves(droots);
    }
    while polys.len() > 1
        invariant
            polys@.len() >= 1,
            n == droots.len() <= 0x0010_0000,
            wf_polys(polys.deep_view()),
            tdeg(polys.deep_view()) == n as int,
            combine_tree(polys.deep_view()) == combine_tree(leaves_of(droots)),
        decreases polys@.len(),
    {
        let ghost orig = polys.deep_view();
        let ghost start_len = polys@.len();
        let mut next: Vec<Vec<FieldA>> = Vec::new();
        while polys.len() >= 2
            invariant
                n <= 0x0010_0000,
                wf_polys(orig),
                tdeg(orig) == n as int,
                orig.len() == start_len,
                next@.len() * 2 <= start_len,
                polys.deep_view() =~= orig.skip(2 * next@.len() as int),
                forall|k: int|
                    0 <= k < next@.len() ==> #[trigger] next.deep_view()[k] == combine_level(
                        orig,
                    )[k],
            decreases polys@.len(),
        {
            let ghost k = next@.len() as int;
            let ghost head = polys.deep_view();
            proof {
                assert(head.len() >= 2);
                assert(head[0] == orig[2 * k]);
                assert(head[1] == orig[2 * k + 1]);
            }
            let pa = polys.remove(0);
            let ghost mid = polys.deep_view();
            proof {
                assert(pa.deep_view() == head[0]);
                assert(forall|idx: int|
                    #![trigger mid[idx]]
                    0 <= idx < mid.len() ==> mid[idx] == head[idx + 1]);
            }
            let pb = polys.remove(0);
            proof {
                assert(pb.deep_view() == mid[0]);
                assert(forall|idx: int|
                    #![trigger polys.deep_view()[idx]]
                    0 <= idx < polys@.len() ==> polys.deep_view()[idx] == mid[idx + 1]);
                lemma_tdeg_pair(orig, 2 * k, 2 * k + 1);
                assert(polys.deep_view() =~= orig.skip(2 * (k + 1)));
            }
            let c = convolution_fft(&pa, &pb);
            let ghost pre = next.deep_view();
            next.push(c);
            proof {
                assert(forall|idx: int|
                    #![trigger next.deep_view()[idx]]
                    0 <= idx < pre.len() ==> next.deep_view()[idx] == pre[idx]);
                assert(next.deep_view()[pre.len() as int] == c.deep_view());
                assert(combine_level(orig)[k as int] == conv_fft_of(orig[2 * k], orig[2 * k + 1]));
            }
        }
        if polys.len() == 1 {
            let ghost k = next@.len() as int;
            let ghost head = polys.deep_view();
            proof {
                assert(head[0] == orig[2 * k]);
            }
            let last = polys.remove(0);
            proof {
                assert(last.deep_view() == head[0]);
                assert(combine_level(orig)[k as int] == orig[2 * k]);
            }
            let ghost pre = next.deep_view();
            next.push(last);
            proof {
                assert(forall|idx: int|
                    #![trigger next.deep_view()[idx]]
                    0 <= idx < pre.len() ==> next.deep_view()[idx] == pre[idx]);
                assert(next.deep_view()[pre.len() as int] == last.deep_view());
            }
        }
        proof {
            assert(next.deep_view() =~= combine_level(orig));
            lemma_combine_level_tdeg(orig);
            assert(combine_tree(orig) == combine_tree(combine_level(orig)));
        }
        polys = next;
    }
    let ghost fin = polys.deep_view();
    proof {
        assert(combine_tree(fin) == fin);
        assert(combine_tree(leaves_of(droots))[0] == fin[0]);
        assert(fin[0].len() - 1 + tdeg(fin.skip(1)) == n as int);
        assert(fin.skip(1).len() == 0);
        assert(tdeg(fin.skip(1)) == 0);
    }
    let result = polys.remove(0);
    assert(result.deep_view() == fin[0]);
    result
}

/// Conversion agreement on the empty root set: all three root-to-coefficient
/// algorithms yield the constant polynomial one.  Agreement on nonempty
/// sets rests on the field laws of the outside arithmetic, which no
/// per-call contract states, and is exercised by tests instead.
pub proof fn lemma_conversions_agree_empty()
    ensures
        crate::poly::poly_from_roots(Seq::<Seq<u8>>::empty()) == seq![fa_of_u64(1)],
        crate::poly::dc_poly_of(Seq::<Seq<u8>>::empty()) == seq![fa_of_u64(1)],
        fft_poly_of(Seq::<Seq<u8>>::empty()) == seq![fa_of_u64(1)],
{
}

/// Convert every batch of roots independently with the FFT conversion;
/// output order matches input order.
pub fn batch_roots_to_coeffs_fft(batches: &Vec<Vec<FieldA>>) -> (out: Vec<Vec<FieldA>>)
    requires
        forall|i: int| 0 <= i < batches@.len() ==> #[trigger] batches@[i]@.len() <= 0x0010_0000,
    ensures
        out@.len() == batches@.len(),
        forall|i: int|
            0 <= i < batches@.len() ==> #[trigger] out.deep_view()[i] == fft_poly_of(
                batches.deep_view()[i],
            ),
{
    let mut out: Vec<Vec<FieldA>> = Vec::new();
    let mut i: usize = 0;
    while i < batches.len()
        invariant
            i <= batches@.len(),
            out@.len() == i,
            forall|k: int|
                0 <= k < batches@.len() ==> #[trigger] batches@[k]@.len() <= 0x0010_0000,
            forall|k: int|
                0 <= k < i ==> #[trigger] out.deep_view()[k] == fft_poly_of(
                    batches.deep_view()[k],
                ),
        decreases batches@.len() - i,
    {
        let ghost pre = out.deep_view();
        let c = roots_to_coeffs_fft(&batches[i]);
        out.push(c);
        proof {
            assert(forall|idx: int|
                #![trigger out.deep_view()[idx]]
                0 <= idx < pre.len() ==> out.deep_view()[idx] == pre[idx]);
            assert(out.deep_view()[pre.len() as int] == c.deep_view());
            assert(batches.deep_view()[i as int] == batches@[i as int].deep_view());
        }
        i += 1;
    }
    out
}

} // verus!
