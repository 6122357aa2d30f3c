//! Polynomial engine over field A.
//!
//! A polynomial is a coefficient vector in increasing-degree order.  The
//! engine turns a root list into the coefficients of the monic product
//! `∏ (X - r_j)` — by schoolbook expansion here, and by divide-and-conquer
//! convolution — and evaluates polynomials by Horner's rule or directly
//! from the roots.  Every function is pinned to a specification built from
//! the named field operations, so the same roots always give the same
//! coefficients.

use vstd::prelude::*;

use crate::fields::{
    fa_add, fa_add_of, fa_from_u64, fa_mul, fa_mul_of, fa_neg, fa_neg_of, fa_of_u64, fa_sub,
    fa_sub_of, FieldA,
};

verus! {

/// One multiply-by-linear-factor step: the coefficients of `p(X) * (X - r)`
/// for a polynomial `p` with coefficient list `c` (nonempty).
pub open spec fn step_poly(c: Seq<Seq<u8>>, r: Seq<u8>) -> Seq<Seq<u8>>
    recommends
        c.len() >= 1,
{
    Seq::new(
        c.len() + 1,
        |k: int|
            if k == 0 {
                fa_mul_of(fa_neg_of(r), c[0])
            } else if k < c.len() {
                fa_add_of(c[k - 1], fa_mul_of(fa_neg_of(r), c[k]))
            } else {
                c[k - 1]
            },
    )
}

/// Coefficients of `∏ (X - r_j)` by sequential multiplication by linear
/// factors, in increasing-degree order; the empty product is the constant 1.
pub open spec fn poly_from_roots(roots: Seq<Seq<u8>>) -> Seq<Seq<u8>>
    decreases roots.len(),
{
    if roots.len() == 0 {
        seq![fa_of_u64(1)]
    } else {
        step_poly(poly_from_roots(roots.drop_last()), roots.last())
    }
}

/// The monic invariant: for any root list, the coefficient vector has one
/// entry more than there are roots, and its leading (last) coefficient is
/// the field's multiplicative identity.
pub proof fn lemma_poly_from_roots_monic(roots: Seq<Seq<u8>>)
    ensures
        poly_from_roots(roots).len() == roots.len() + 1,
        poly_from_roots(roots).last() == fa_of_u64(1),
    decreases roots.len(),
{
    if roots.len() == 0 {
    } else {
        lemma_poly_from_roots_monic(roots.drop_last());
    }
}

/// Multiply the polynomial with coefficients `c` by the linear factor
/// `(X - r)`.
fn mul_by_linear(c: &Vec<FieldA>, r: &FieldA) -> (out: Vec<FieldA>)
    requires
        1 <= c@.len() < usize::MAX,
    ensures
        out.deep_view() == step_poly(c.deep_view(), r@),
        out@.len() == c@.len() + 1,
{
    let n = c.len();
    let neg_r = fa_neg(r);
    let mut out: Vec<FieldA> = Vec::new();
    out.push(fa_mul(&neg_r, &c[0]));
    assert(out.deep_view() =~= step_poly(c.deep_view(), r@).take(1));
    let mut k: usize = 1;
    while k < n
        invariant
            1 <= k <= n,
            n == c@.len() < usize::MAX,
            neg_r@ == fa_neg_of(r@),
            out@.len() == k,
            out.deep_view() == step_poly(c.deep_view(), r@).take(k as int),
        decreases n - k,
    {
        let t = fa_mul(&neg_r, &c[k]);
        out.push(fa_add(&c[k - 1], &t));
        assert(out.deep_view() =~= step_poly(c.deep_view(), r@).take(k + 1 as int));
        k += 1;
    }
    assert(k == n);
    let ghost sp = step_poly(c.deep_view(), r@);
    out.push(c[n - 1]);
    proof {
        assert(out@.len() == n + 1);
        assert(sp.len() == n + 1);
        assert(forall|idx: int|
            0 <= idx < n ==> out.deep_view()[idx] == sp.take(n as int)[idx]);
        assert(forall|idx: int| 0 <= idx < n ==> sp.take(n as int)[idx] == sp[idx]);
        assert(out.deep_view()[n as int] == c.deep_view()[n - 1]);
        assert(sp[n as int] == c.deep_view()[n - 1]);
    }
    assert(out.deep_view() =~= sp);
    out
}

/// Given roots `a_0 .. a_{k-1}`, return the coefficients `c_0 ..= c_k` of
/// `p(X) = ∏ (X - a_j)` in increasing-degree order.  The result is monic:
/// it has `k + 1` entries and its last entry is the identity.
pub fn roots_to_coeffs(roots: &Vec<FieldA>) -> (out: Vec<FieldA>)
    requires
        roots@.len() < usize::MAX - 1,
    ensures
        out.deep_view() == poly_from_roots(roots.deep_view()),
        out@.len() == roots@.len() + 1,
        out.deep_view().last() == fa_of_u64(1),
{
    let n = roots.len();
    let mut c: Vec<FieldA> = Vec::new();
    c.push(fa_from_u64(1));
    assert(c.deep_view() =~= poly_from_roots(roots.deep_view().take(0)));
    let mut i: usize = 0;
    while i < n
        invariant
            i <= n,
            n == roots@.len() < usize::MAX - 1,
            c@.len() == i + 1,
            c.deep_view() == poly_from_roots(roots.deep_view().take(i as int)),
        decreases n - i,
    {
        c = mul_by_linear(&c, &roots[i]);
        proof {
            let pre = roots.deep_view().take(i as int);
            let post = roots.deep_view().take(i + 1 as int);
            assert(post.drop_last() =~= pre);
            assert(post.last() == roots.deep_view()[i as int]);
        }
        i += 1;
    }
    proof {
        assert(roots.deep_view().take(n as int) =~= roots.deep_view());
        lemma_poly_from_roots_monic(roots.deep_view());
    }
    c
}

/// Horner evaluation of the coefficient list `c` at `x`, consuming the
/// coefficients from the highest degree down; the empty polynomial is zero.
pub open spec fn horner_of(c: Seq<Seq<u8>>, x: Seq<u8>) -> Seq<u8>
    decreases c.len(),
{
    if c.len() == 0 {
        fa_of_u64(0)
    } else {
        fa_add_of(fa_mul_of(horner_of(c.subrange(1, c.len() as int), x), x), c[0])
    }
}

/// Evaluate the polynomial with coefficients `c` at the point `x` by
/// Horner's method.
pub fn eval_horner(coeffs: &Vec<FieldA>, x: &FieldA) -> (r: FieldA)
    ensures
        r@ == horner_of(coeffs.deep_view(), x@),
{
    let n = coeffs.len();
    let mut acc = fa_from_u64(0);
    assert(coeffs.deep_view().subrange(n as int, n as int) =~= Seq::<Seq<u8>>::empty());
    let mut k: usize = n;
    while k > 0
        invariant
            k <= n,
            n == coeffs@.len(),
            acc@ == horner_of(coeffs.deep_view().subrange(k as int, n as int), x@),
        decreases k,
    {
        k -= 1;
        let t = fa_mul(&acc, x);
        acc = fa_add(&t, &coeffs[k]);
        proof {
            let tail = coeffs.deep_view().subrange(k as int, n as int);
            assert(tail.subrange(1, tail.len() as int) =~= coeffs.deep_view().subrange(
                k + 1 as int,
                n as int,
            ));
            assert(tail[0] == coeffs.deep_view()[k as int]);
        }
    }
    assert(coeffs.deep_view().subrange(0, n as int) =~= coeffs.deep_view());
    acc
}

/// The direct product `∏ (x - a_j)` over the roots, folded left to right;
/// the empty product is one.
pub open spec fn eval_roots_of(roots: Seq<Seq<u8>>, x: Seq<u8>) -> Seq<u8>
    decreases roots.len(),
{
    if roots.len() == 0 {
        fa_of_u64(1)
    } else {
        fa_mul_of(eval_roots_of(roots.drop_last(), x), fa_sub_of(x, roots.last()))
    }
}

/// Evaluate `∏ (x - a_j)` directly from the roots, the independent
/// cross-check for the root-to-coefficient conversion.
pub fn eval_from_roots(roots: &Vec<FieldA>, x: &FieldA) -> (r: FieldA)
    ensures
        r@ == eval_roots_of(roots.deep_view(), x@),
{
    let n = roots.len();
    let mut acc = fa_from_u64(1);
    assert(roots.deep_view().take(0) =~= Seq::<Seq<u8>>::empty());
    let mut i: usize = 0;
    while i < n
        invariant
            i <= n,
            n == roots@.len(),
            acc@ == eval_roots_of(roots.deep_view().take(i as int), x@),
        decreases n - i,
    {
        let d = fa_sub(x, &roots[i]);
        acc = fa_mul(&acc, &d);
        proof {
            let pre = roots.deep_view().take(i as int);
            let post = roots.deep_view().take(i + 1 as int);
            assert(post.drop_last() =~= pre);
            assert(post.last() == roots.deep_view()[i as int]);
        }
        i += 1;
    }
    assert(roots.deep_view().take(n as int) =~= roots.deep_view());
    acc
}

/// Zero-extend a coefficient vector in place to `target_len`; a no-op when
/// it is already at least that long.  Never truncates.
pub fn pad_coeffs_to(coeffs: &mut Vec<FieldA>, target_len: usize)
    ensures
        final(coeffs)@.len() == if old(coeffs)@.len() >= target_len {
            old(coeffs)@.len() as int
        } else {
            target_len as int
        },
        final(coeffs).deep_view() == old(coeffs).deep_view() + Seq::new(
            (final(coeffs)@.len() - old(coeffs)@.len()) as nat,
            |i: int| fa_of_u64(0),
        ),
{
    let ghost orig = coeffs.deep_view();
    assert(coeffs.deep_view() =~= orig + Seq::new(0, |i: int| fa_of_u64(0)));
    while coeffs.len() < target_len
        invariant
            coeffs@.len() >= orig.len(),
            coeffs@.len() <= target_len || coeffs@.len() == orig.len(),
            coeffs.deep_view() == orig + Seq::new(
                (coeffs@.len() - orig.len()) as nat,
                |i: int| fa_of_u64(0),
            ),
        decreases target_len - coeffs@.len(),
    {
        let ghost m = coeffs@.len() - orig.len();
        let ghost pre = coeffs.deep_view();
        coeffs.push(fa_from_u64(0));
        proof {
            let target = orig + Seq::new((m + 1) as nat, |i: int| fa_of_u64(0));
            assert(coeffs@.len() - orig.len() == m + 1);
            assert(forall|idx: int|
                0 <= idx < pre.len() ==> coeffs.deep_view()[idx] == pre[idx]);
            assert(coeffs.deep_view()[pre.len() as int] == fa_of_u64(0));
            assert(forall|idx: int| 0 <= idx < pre.len() ==> pre[idx] == target[idx]);
            assert(target[pre.len() as int] == fa_of_u64(0));
            assert(coeffs.deep_view() =~= target);
        }
    }
}

/// The left-fold partial sum of row contributions to convolution entry
/// `k`: the value of `out[k]` after rows `0 .. i` of the double loop
/// `out[i + j] += a[i] * b[j]` have run, starting from zero.
pub open spec fn conv_partial(a: Seq<Seq<u8>>, b: Seq<Seq<u8>>, k: int, i: int) -> Seq<u8>
    decreases i,
{
    if i <= 0 {
        fa_of_u64(0)
    } else {
        let prev = conv_partial(a, b, k, i - 1);
        if 0 <= k - (i - 1) < b.len() {
            fa_add_of(prev, fa_mul_of(a[i - 1], b[k - (i - 1)]))
        } else {
            prev
        }
    }
}

/// The convolution (polynomial product) of two nonempty coefficient lists.
pub open spec fn conv_of(a: Seq<Seq<u8>>, b: Seq<Seq<u8>>) -> Seq<Seq<u8>>
    recommends
        a.len() >= 1,
        b.len() >= 1,
{
    Seq::new((a.len() + b.len() - 1) as nat, |k: int| conv_partial(a, b, k, a.len() as int))
}

/// Polynomial convolution: `out[i + j] += a[i] * b[j]` over all pairs.
fn convolve(a: &Vec<FieldA>, b: &Vec<FieldA>) -> (out: Vec<FieldA>)
    requires
        a@.len() >= 1,
        b@.len() >= 1,
        a@.len() + b@.len() <= usize::MAX,
    ensures
        out.deep_view() == conv_of(a.deep_view(), b.deep_view()),
        out@.len() == a@.len() + b@.len() - 1,
{
    let ghost da = a.deep_view();
    let ghost db = b.deep_view();
    let n = a.len() + b.len() - 1;
    let mut out: Vec<FieldA> = Vec::new();
    while out.len() < n
        invariant
            out@.len() <= n,
            forall|k: int| 0 <= k < out@.len() ==> #[trigger] out.deep_view()[k] == fa_of_u64(0),
        decreases n - out@.len(),
    {
        let ghost pre = out.deep_view();
        out.push(fa_from_u64(0));
        proof {
            assert(forall|idx: int|
                #![trigger out.deep_view()[idx]]
                0 <= idx < pre.len() ==> out.deep_view()[idx] == pre[idx]);
            assert(out.deep_view()[pre.len() as int] == fa_of_u64(0));
            assert(forall|k: int|
                0 <= k < out@.len() ==> #[trigger] out.deep_view()[k] == fa_of_u64(0));
        }
    }
    let mut i: usize = 0;
    while i < a.len()
        invariant
            i <= a@.len(),
            a.deep_view() == da,
            b.deep_view() == db,
            n == da.len() + db.len() - 1,
            n <= usize::MAX,
            out@.len() == n,
            forall|k: int|
                0 <= k < n ==> #[trigger] out.deep_view()[k] == conv_partial(da, db, k, i as int),
        decreases a@.len() - i,
    {
        let mut j: usize = 0;
        while j < b.len()
            invariant
                i < a@.len(),
                j <= b@.len(),
                a.deep_view() == da,
                b.deep_view() == db,
                n == da.len() + db.len() - 1,
                n <= usize::MAX,
                out@.len() == n,
                forall|k: int|
                    0 <= k < n ==> #[trigger] out.deep_view()[k] == (if i <= k < i + j {
                        conv_partial(da, db, k, i + 1 as int)
                    } else {
                        conv_partial(da, db, k, i as int)
                    }),
            decreases b@.len() - j,
        {
            let ghost pre = out.deep_view();
            let t = fa_mul(&a[i], &b[j]);
            let s = fa_add(&out[i + j], &t);
            out[i + j] = s;
            proof {
                assert(forall|idx: int|
                    #![trigger out.deep_view()[idx]]
                    0 <= idx < n && idx != i + j ==> out.deep_view()[idx] == pre[idx]);
                assert(out.deep_view()[i + j as int] == s@);
                assert(pre[i + j as int] == conv_partial(da, db, i + j as int, i as int));
                assert(conv_partial(da, db, i + j as int, i + 1 as int) == fa_add_of(
                    conv_partial(da, db, i + j as int, i as int),
                    fa_mul_of(da[i as int], db[j as int]),
                ));
            }
            j += 1;
        }
        proof {
            assert(forall|k: int|
                0 <= k < n && !(i <= k < i + db.len()) ==> conv_partial(da, db, k, i + 1 as int)
                    == conv_partial(da, db, k, i as int));
        }
        i += 1;
    }
    proof {
        assert(out.deep_view() =~= conv_of(da, db));
    }
    out
}

/// The divide-and-conquer form of the root-to-coefficient conversion: split
/// the roots at the midpoint, convert each half, convolve the halves.  A
/// single root gives `[-r, 1]`; no roots give `[1]`.
pub open spec fn dc_poly_of(roots: Seq<Seq<u8>>) -> Seq<Seq<u8>>
    decreases roots.len(),
{
    if roots.len() == 0 {
        seq![fa_of_u64(1)]
    } else if roots.len() == 1 {
        seq![fa_neg_of(roots[0]), fa_of_u64(1)]
    } else {
        let mid = roots.len() as int / 2;
        conv_of(dc_poly_of(roots.take(mid)), dc_poly_of(roots.skip(mid)))
    }
}

/// The divide-and-conquer conversion yields one coefficient per root, plus
/// one.
pub proof fn lemma_dc_poly_len(roots: Seq<Seq<u8>>)
    ensures
        dc_poly_of(roots).len() == roots.len() + 1,
    decreases roots.len(),
{
    if roots.len() <= 1 {
    } else {
        let mid = roots.len() as int / 2;
        lemma_dc_poly_len(roots.take(mid));
        lemma_dc_poly_len(roots.skip(mid));
    }
}

/// Divide-and-conquer conversion of the root range `lo .. hi`.
fn dc_range(roots: &Vec<FieldA>, lo: usize, hi: usize) -> (out: Vec<FieldA>)
    requires
        lo <= hi,
        hi <= roots@.len(),
        roots@.len() < usize::MAX - 1,
    ensures
        out.deep_view() == dc_poly_of(roots.deep_view().subrange(lo as int, hi as int)),
        out@.len() == hi - lo + 1,
    decreases hi - lo,
{
    let ghost seg = roots.deep_view().subrange(lo as int, hi as int);
    if hi - lo == 0 {
        let mut out: Vec<FieldA> = Vec::new();
        out.push(fa_from_u64(1));
        assert(out.deep_view() =~= dc_poly_of(seg));
        out
    } else if hi - lo == 1 {
        let mut out: Vec<FieldA> = Vec::new();
        out.push(fa_neg(&roots[lo]));
        out.push(fa_from_u64(1));
        assert(out.deep_view() =~= dc_poly_of(seg));
        out
    } else {
        let mid = lo + (hi - lo) / 2;
        let left = dc_range(roots, lo, mid);
        let right = dc_range(roots, mid, hi);
        let out = convolve(&left, &right);
        proof {
            let m = (hi - lo) as int / 2;
            assert(seg.take(m) =~= roots.deep_view().subrange(lo as int, mid as int));
            assert(seg.skip(m) =~= roots.deep_view().subrange(mid as int, hi as int));
        }
        out
    }
}

/// Root-to-coefficient conversion by divide-and-conquer convolution.  The
/// result has one coefficient per root, plus one, in increasing-degree
/// order.
pub fn roots_to_coeffs_parallel(roots: &Vec<FieldA>) -> (out: Vec<FieldA>)
    requires
        roots@.len() < usize::MAX - 1,
    ensures
        out.deep_view() == dc_poly_of(roots.deep_view()),
        out@.len() == roots@.len() + 1,
{
    let out = dc_range(roots, 0, roots.len());
    assert(roots.deep_view().subrange(0, roots@.len() as int) =~= roots.deep_view());
    out
}

/// Convert every batch of roots independently; output order matches input
/// order.
pub fn batch_roots_to_coeffs_parallel(batches: &Vec<Vec<FieldA>>) -> (out: Vec<Vec<FieldA>>)
    requires
        forall|i: int| 0 <= i < batches@.len() ==> #[trigger] batches@[i]@.len() < usize::MAX - 1,
    ensures
        out@.len() == batches@.len(),
        forall|i: int|
            0 <= i < batches@.len() ==> #[trigger] out.deep_view()[i] == dc_poly_of(
                batches.deep_view()[i]),
{
    let mut out: Vec<Vec<FieldA>> = Vec::new();
    let mut i: usize = 0;
    while i < batches.len()
        invariant
            i <= batches@.len(),
            out@.len() == i,
            forall|k: int| 0 <= k < batches@.len() ==> #[trigger] batches@[k]@.len() < usize::MAX - 1,
            forall|k: int|
                0 <= k < i ==> #[trigger] out.deep_view()[k] == dc_poly_of(batches.deep_view()[k]),
        decreases batches@.len() - i,
    {
        let ghost pre = out.deep_view();
        let c = roots_to_coeffs_parallel(&batches[i]);
        out.push(c);
        proof {
            assert(forall|idx: int|
                #![trigger out.deep_view()[idx]]
                0 <= idx < pre.len() ==> out.deep_view()[idx] == pre[idx]);
            assert(out.deep_view()[pre.len() as int] == c.deep_view());
            assert(batches.deep_view()[i as int] == batches@[i as int].deep_view());
        }
        i += 1;
    }
    out
}

} // verus!
