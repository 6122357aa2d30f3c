//! Block publisher: build a per-block accumulator record from the prior
//! state and the block's nullifier tags.
//!
//! The tags are mapped into field A, sorted and deduplicated; the monic
//! block polynomial's coefficients come from the FFT conversion for large
//! batches and from divide-and-conquer otherwise; the coefficients are
//! re-mapped into field B and committed; and the off-circuit block step
//! checks the witness and chains the accumulator.

use vstd::prelude::*;

use crate::block::{challenge_of, mapped_coeffs, prove_block_poly, BlockPolyWitness,
    BlockStepError};
use crate::fft::{fft_poly_of, roots_to_coeffs_fft};
use crate::fields::{FieldA, FieldB};
use crate::hashing::{coeff_map_of, gram_to_fr_of, hash_a_of, hash_A_h, map_vesta_scalar_to_pallas,
    tachygram_to_fr};
use crate::msm::{commit_coeffs, commit_of};
use crate::points::{decode_point, encode_point, PointB};
use crate::poly::{dc_poly_of, roots_to_coeffs_parallel};
use crate::record::{eff_point, next_state_of, BlockAccumRecord, PallasPointBytes};

verus! {

/// Byte-string order on canonical 32-byte representations, compared from
/// the most significant byte down — the order the field elements sort in.
pub open spec fn be_lt_upto(a: Seq<u8>, b: Seq<u8>, n: nat) -> bool
    decreases n,
{
    if n == 0 {
        false
    } else if a[n - 1] != b[n - 1] {
        a[n - 1] < b[n - 1]
    } else {
        be_lt_upto(a, b, (n - 1) as nat)
    }
}

/// Strictly-less on 32-byte field representations.
pub open spec fn be_lt(a: Seq<u8>, b: Seq<u8>) -> bool {
    be_lt_upto(a, b, 32)
}

/// Whether `a` sorts strictly before `b`.
fn fa_be_lt(a: &FieldA, b: &FieldA) -> (r: bool)
    ensures
        r == be_lt(a@, b@),
{
    let ab = a.to_bytes();
    let bb = b.to_bytes();
    let mut k: usize = 32;
    while k > 0
        invariant
            k <= 32,
            ab@ == a@,
            bb@ == b@,
            be_lt(a@, b@) == be_lt_upto(a@, b@, k as nat),
        decreases k,
    {
        if ab[k - 1] != bb[k - 1] {
            return ab[k - 1] < bb[k - 1];
        }
        k -= 1;
    }
    false
}

/// Insert a value into a strictly-sorted list of canonical representations,
/// keeping it strictly sorted: duplicates are dropped.
pub open spec fn insert_be(s: Seq<Seq<u8>>, x: Seq<u8>) -> Seq<Seq<u8>>
    decreases s.len(),
{
    if s.len() == 0 {
        seq![x]
    } else if be_lt(s.last(), x) {
        s.push(x)
    } else if s.last() == x {
        s
    } else {
        insert_be(s.drop_last(), x).push(s.last())
    }
}

/// The strictly-sorted deduplication of a list, built by insertion.
pub open spec fn sorted_dedup_of(ms: Seq<Seq<u8>>) -> Seq<Seq<u8>>
    decreases ms.len(),
{
    if ms.len() == 0 {
        Seq::<Seq<u8>>::empty()
    } else {
        insert_be(sorted_dedup_of(ms.drop_last()), ms.last())
    }
}

/// Insertion grows a list by at most one.
pub proof fn lemma_insert_be_len(s: Seq<Seq<u8>>, x: Seq<u8>)
    ensures
        insert_be(s, x).len() <= s.len() + 1,
    decreases s.len(),
{
    if s.len() == 0 {
    } else if be_lt(s.last(), x) {
    } else if s.last() == x {
    } else {
        lemma_insert_be_len(s.drop_last(), x);
    }
}

/// Insert one root into a sorted, duplicate-free root list.
fn insert_root(v: Vec<FieldA>, x: FieldA) -> (out: Vec<FieldA>)
    requires
        v@.len() < usize::MAX,
    ensures
        out.deep_view() == insert_be(v.deep_view(), x@),
        out@.len() <= v@.len() + 1,
    decreases v@.len(),
{
    proof {
        lemma_insert_be_len(v.deep_view(), x@);
    }
    let mut v = v;
    let n = v.len();
    if n == 0 {
        let mut out: Vec<FieldA> = Vec::new();
        out.push(x);
        assert(out.deep_view() =~= insert_be(Seq::<Seq<u8>>::empty(), x@));
        out
    } else {
        let ghost dv = v.deep_view();
        let last = v[n - 1];
        assert(last@ == dv.last());
        if fa_be_lt(&last, &x) {
            let ghost pre = v.deep_view();
            v.push(x);
            proof {
                assert(forall|idx: int|
                    #![trigger v.deep_view()[idx]]
                    0 <= idx < pre.len() ==> v.deep_view()[idx] == pre[idx]);
                assert(v.deep_view()[pre.len() as int] == x@);
                assert(v.deep_view() =~= insert_be(dv, x@));
            }
            v
        } else if last.eq_elem(&x) {
            v
        } else {
            let popped = match v.pop() {
                Some(p) => p,
                None => last,
            };
            let ghost dr = v.deep_view();
            proof {
                assert(popped == last);
                assert(dr =~= dv.drop_last());
            }
            let mut out = insert_root(v, x);
            let ghost pre = out.deep_view();
            out.push(popped);
            proof {
                assert(forall|idx: int|
                    #![trigger out.deep_view()[idx]]
                    0 <= idx < pre.len() ==> out.deep_view()[idx] == pre[idx]);
                assert(out.deep_view()[pre.len() as int] == last@);
                assert(out.deep_view() =~= insert_be(dv.drop_last(), x@).push(dv.last()));
            }
            out
        }
    }
}

/// Whether every entry of a list is a 32-byte representation.
pub open spec fn all32(s: Seq<Seq<u8>>) -> bool {
    forall|i: int| 0 <= i < s.len() ==> #[trigger] s[i].len() == 32
}

/// Whether a list is strictly increasing in the representation order:
/// sorted, with no duplicates.
pub open spec fn strictly_sorted(s: Seq<Seq<u8>>) -> bool {
    forall|i: int| 0 <= i < s.len() - 1 ==> #[trigger] be_lt(s[i], s[i + 1])
}

/// Two 32-byte strings that neither orders below the other are equal,
/// byte for byte down to the position compared.
proof fn lemma_be_upto_eq(a: Seq<u8>, b: Seq<u8>, n: nat)
    requires
        n <= a.len(),
        n <= b.len(),
        !be_lt_upto(a, b, n),
        !be_lt_upto(b, a, n),
    ensures
        forall|k: int| 0 <= k < n ==> a[k] == b[k],
    decreases n,
{
    if n == 0 {
    } else {
        if a[n - 1] != b[n - 1] {
            if a[n - 1] < b[n - 1] {
                assert(be_lt_upto(a, b, n));
            } else {
                assert(be_lt_upto(b, a, n));
            }
        }
        lemma_be_upto_eq(a, b, (n - 1) as nat);
    }
}

/// The representation order is total on 32-byte strings.
pub proof fn lemma_be_lt_trichotomy(a: Seq<u8>, b: Seq<u8>)
    requires
        a.len() == 32,
        b.len() == 32,
    ensures
        be_lt(a, b) || be_lt(b, a) || a == b,
{
    if !be_lt(a, b) && !be_lt(b, a) {
        lemma_be_upto_eq(a, b, 32);
        assert(a =~= b);
    }
}

/// The last entry after an insertion is the inserted value or the old last.
proof fn lemma_insert_be_last(s: Seq<Seq<u8>>, x: Seq<u8>)
    ensures
        insert_be(s, x).last() == x || (s.len() > 0 && insert_be(s, x).last() == s.last()),
{
}

/// Insertion keeps a strictly-sorted list of 32-byte representations
/// strictly sorted — in particular, it never introduces a duplicate.
pub proof fn lemma_insert_be_sorted(s: Seq<Seq<u8>>, x: Seq<u8>)
    requires
        strictly_sorted(s),
        all32(s),
        x.len() == 32,
    ensures
        strictly_sorted(insert_be(s, x)),
        all32(insert_be(s, x)),
    decreases s.len(),
{
    let r = insert_be(s, x);
    if s.len() == 0 {
        assert(strictly_sorted(r));
        assert(all32(r));
    } else if be_lt(s.last(), x) {
        assert(r == s.push(x));
        assert(forall|i: int| 0 <= i < r.len() - 1 ==> #[trigger] be_lt(r[i], r[i + 1])) by {
            assert(forall|i: int| 0 <= i < s.len() - 1 ==> #[trigger] r[i] == s[i] && r[i + 1]
                == s[i + 1]);
            assert(r[s.len() - 1] == s.last());
            assert(r[s.len() as int] == x);
        }
        assert(all32(r)) by {
            assert(forall|i: int| 0 <= i < s.len() ==> #[trigger] r[i] == s[i]);
            assert(r[s.len() as int] == x);
        }
    } else if s.last() == x {
    } else {
        lemma_be_lt_trichotomy(s.last(), x);
        assert(be_lt(x, s.last()));
        let dl = s.drop_last();
        assert(strictly_sorted(dl)) by {
            assert(forall|i: int| 0 <= i < dl.len() - 1 ==> #[trigger] dl[i] == s[i] && dl[i + 1]
                == s[i + 1]);
        }
        assert(all32(dl)) by {
            assert(forall|i: int| 0 <= i < dl.len() ==> #[trigger] dl[i] == s[i]);
        }
        lemma_insert_be_sorted(dl, x);
        lemma_insert_be_last(dl, x);
        let r0 = insert_be(dl, x);
        assert(r == r0.push(s.last()));
        assert(r0.len() >= 1);
        assert(be_lt(r0.last(), s.last())) by {
            if r0.last() == x {
            } else {
                assert(dl.len() > 0 && r0.last() == dl.last());
                assert(dl.last() == s[s.len() - 2]);
                let j: int = s.len() - 2;
                assert(be_lt(s[j], s[j + 1]));
                assert(s[j + 1] == s.last());
            }
        }
        assert(forall|i: int| 0 <= i < r.len() - 1 ==> #[trigger] be_lt(r[i], r[i + 1])) by {
            assert(forall|i: int| 0 <= i < r0.len() - 1 ==> #[trigger] r[i] == r0[i] && r[i + 1]
                == r0[i + 1]);
            assert(r[r0.len() - 1] == r0.last());
            assert(r[r0.len() as int] == s.last());
        }
        assert(all32(r)) by {
            assert(forall|i: int| 0 <= i < r0.len() ==> #[trigger] r[i] == r0[i]);
            assert(r[r0.len() as int] == s.last());
        }
    }
}

/// The sorted deduplication of any list of 32-byte representations is
/// strictly sorted: ordered, with no entry repeated.
pub proof fn lemma_sorted_dedup_sorted(ms: Seq<Seq<u8>>)
    requires
        all32(ms),
    ensures
        strictly_sorted(sorted_dedup_of(ms)),
        all32(sorted_dedup_of(ms)),
    decreases ms.len(),
{
    if ms.len() == 0 {
    } else {
        let dl = ms.drop_last();
        assert(all32(dl)) by {
            assert(forall|i: int| 0 <= i < dl.len() ==> #[trigger] dl[i] == ms[i]);
        }
        lemma_sorted_dedup_sorted(dl);
        assert(ms.last().len() == 32);
        lemma_insert_be_sorted(sorted_dedup_of(dl), ms.last());
    }
}

/// The field A images of a block's raw tags.
pub open spec fn grams_fr(gs: Seq<[u8; 32]>) -> Seq<Seq<u8>> {
    Seq::new(gs.len(), |i: int| gram_to_fr_of(gs[i]@))
}

/// The block's root list: the tags mapped into field A, sorted and
/// deduplicated.
pub open spec fn block_roots_of(gs: Seq<[u8; 32]>) -> Seq<Seq<u8>> {
    sorted_dedup_of(grams_fr(gs))
}

/// The block polynomial's coefficients: the FFT conversion for 64 roots or
/// more, divide-and-conquer below that.
pub open spec fn block_coeffs_of(roots: Seq<Seq<u8>>) -> Seq<Seq<u8>> {
    if roots.len() >= 64 {
        fft_poly_of(roots)
    } else {
        dc_poly_of(roots)
    }
}

/// Build the accumulator record for one block from the prior state `A_i`
/// and the block's tags.  The derived root set is strictly sorted with no
/// duplicates.  Succeeds exactly when the derived witness passes the
/// polynomial-identity check of the block step (its commitment check holds
/// by construction), and then publishes the commitment, the chain hash,
/// and the next state that `(A_i, P_i)` determine.
pub fn build_block_record(a_i: &PallasPointBytes, grams: &Vec<[u8; 32]>) -> (r: Result<
    BlockAccumRecord,
    BlockStepError,
>)
    requires
        grams@.len() <= 0x0010_0000,
    ensures
        strictly_sorted(block_roots_of(grams@)),
        ({
            let roots = block_roots_of(grams@);
            let coeffs = block_coeffs_of(roots);
            let p = commit_of(mapped_coeffs(coeffs));
            let a = eff_point(a_i.0@);
            let chal = challenge_of(p, a);
            &&& ((r is Ok) <==> crate::poly::eval_roots_of(roots, chal) == crate::poly::horner_of(
                coeffs,
                chal,
            ))
            &&& (r matches Ok(rec) ==> {
                &&& rec.p_i.0@ == p
                &&& rec.h_i@ == hash_a_of(a, p)
                &&& rec.a_next.0@ == next_state_of(rec.h_i@, a, p)
                &&& rec.proof@.len() == 0
            })
            &&& (r matches Err(e) ==> e == BlockStepError::PolynomialIdentity)
        }),
{
    let ghost gs = grams@;
    // Map the tags into field A, sorted and deduplicated.
    let mut roots: Vec<FieldA> = Vec::new();
    let mut i: usize = 0;
    assert(roots.deep_view() =~= sorted_dedup_of(grams_fr(gs).take(0)));
    while i < grams.len()
        invariant
            i <= gs.len(),
            gs == grams@,
            gs.len() <= 0x0010_0000,
            roots@.len() <= i,
            roots.deep_view() == sorted_dedup_of(grams_fr(gs).take(i as int)),
            forall|k: int| 0 <= k < i ==> #[trigger] grams_fr(gs)[k].len() == 32,
        decreases gs.len() - i,
    {
        let fr = tachygram_to_fr(&grams[i]);
        proof {
            assert(grams_fr(gs)[i as int].len() == 32);
        }
        roots = insert_root(roots, fr);
        proof {
            let pre = grams_fr(gs).take(i as int);
            let post = grams_fr(gs).take(i + 1 as int);
            assert(post.drop_last() =~= pre);
            assert(post.last() == grams_fr(gs)[i as int]);
        }
        i += 1;
    }
    proof {
        assert(grams_fr(gs).take(gs.len() as int) =~= grams_fr(gs));
        assert(all32(grams_fr(gs)));
        lemma_sorted_dedup_sorted(grams_fr(gs));
    }
    // Convert roots to coefficients.
    let coeffs = if roots.len() >= 64 {
        roots_to_coeffs_fft(&roots)
    } else {
        roots_to_coeffs_parallel(&roots)
    };
    assert(coeffs.deep_view() == block_coeffs_of(block_roots_of(gs)));
    // Re-map the coefficients into field B and commit.
    let n = coeffs.len();
    let mut coeffs_b: Vec<FieldB> = Vec::new();
    let mut k: usize = 0;
    while k < n
        invariant
            k <= n,
            n == coeffs@.len(),
            coeffs_b@.len() == k,
            forall|t: int|
                0 <= t < k ==> #[trigger] coeffs_b.deep_view()[t] == coeff_map_of(
                    coeffs.deep_view()[t],
                ),
        decreases n - k,
    {
        let ghost pre = coeffs_b.deep_view();
        let cb = coeffs[k].to_bytes();
        let m = map_vesta_scalar_to_pallas(&cb);
        coeffs_b.push(m);
        proof {
            assert(forall|idx: int|
                #![trigger coeffs_b.deep_view()[idx]]
                0 <= idx < pre.len() ==> coeffs_b.deep_view()[idx] == pre[idx]);
            assert(coeffs_b.deep_view()[pre.len() as int] == m@);
        }
        k += 1;
    }
    proof {
        assert(coeffs_b.deep_view() =~= mapped_coeffs(coeffs.deep_view()));
    }
    let p_i_aff = commit_coeffs(&coeffs_b);
    let p_i_bytes = encode_point(&p_i_aff);
    // The prior state, falling back to the distinguished generator.
    let a_i_aff: PointB = match decode_point(&a_i.0) {
        Some(p) => p,
        None => crate::basis::g0(),
    };
    // Check the witness and chain the accumulator.
    let wit = BlockPolyWitness { roots, coeffs, p_i: p_i_aff, a_i: a_i_aff };
    proof {
        assert(crate::block::commitment_matches(wit));
    }
    match prove_block_poly(&wit) {
        Ok((public, _proof)) => {
            let h_i = hash_A_h(&public.a_i_bytes, &public.p_i_bytes);
            Ok(
                BlockAccumRecord {
                    p_i: PallasPointBytes(p_i_bytes),
                    h_i,
                    a_next: PallasPointBytes(public.a_next_bytes),
                    proof: Vec::new(),
                },
            )
        },
        Err(e) => Err(e),
    }
}

} // verus!
