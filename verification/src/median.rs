//! Robust order-statistic primitives: the windowed median filter and the
//! median selection used to derive the flagging threshold.
//!
//! All selection happens under the documented total sort order of
//! [`crate::fbits`], so the behaviour on non-finite samples is fixed: a
//! positive not-a-number pattern sorts above every finite value.

use vstd::prelude::*;
use vstd::relations::sorted_by;
use vstd::seq_lib::lemma_sorted_unique;

use crate::fbits::{
    bits_leq, bits_order, f_key, lemma_bits_order_total, lemma_key_zero_is_zero,
    lemma_zero_pattern_facts, leq_bits, NEG_ZERO, POS_ZERO,
};
use crate::SolError;

verus! {

/// The window of `2*k + 1` samples centred at position `i` of `s`; positions
/// before the start or past the end of `s` are padding zeros.
pub open spec fn pad_window(s: Seq<u64>, i: int, k: int) -> Seq<u64> {
    Seq::new((2 * k + 1) as nat, |m: int|
        if 0 <= i - k + m < s.len() {
            s[i - k + m]
        } else {
            POS_ZERO
        })
}

/// The median of the window centred at `i`: the middle element of the window
/// sorted by the total sort order.
pub open spec fn window_median(s: Seq<u64>, i: int, k: int) -> u64 {
    pad_window(s, i, k).sort_by(bits_order())[k]
}

/// The predicate matching the exact bit pattern `v`.
pub open spec fn match_pred(v: u64) -> spec_fn(u64) -> bool {
    |x: u64| x == v
}

/// How many entries of `s` are the exact bit pattern `v`.
pub open spec fn count_matches(s: Seq<u64>, v: u64) -> int {
    s.filter(match_pred(v)).len() as int
}

/// Non-decreasing under the total sort order, stated over indices.
pub open spec fn sorted_bits(s: Seq<u64>) -> bool {
    forall|a: int, b: int| 0 <= a <= b < s.len() ==> bits_leq(#[trigger] s[a], #[trigger] s[b])
}

/// The index form of sortedness coincides with `sorted_by` under the sort
/// order relation.
proof fn lemma_sorted_bits_is_sorted_by(s: Seq<u64>)
    ensures
        sorted_bits(s) <==> sorted_by(s, bits_order()),
{
    let r = bits_order();
    if sorted_bits(s) {
        assert forall|a: int, b: int| 0 <= a < b < s.len() implies #[trigger] r(s[a], s[b]) by {
            assert(bits_leq(s[a], s[b]));
        }
    }
    if sorted_by(s, r) {
        assert forall|a: int, b: int| 0 <= a <= b < s.len() implies bits_leq(
            #[trigger] s[a],
            #[trigger] s[b],
        ) by {
            if a < b {
                assert(r(s[a], s[b]));
            }
        }
    }
}

/// A filter that accepts every element keeps the whole sequence.
proof fn lemma_filter_all(s: Seq<u64>, pred: spec_fn(u64) -> bool)
    requires
        forall|m: int| 0 <= m < s.len() ==> pred(s[m]),
    ensures
        s.filter(pred).len() == s.len(),
    decreases s.len(),
{
    reveal(Seq::filter);
    if s.len() != 0 {
        lemma_filter_all(s.drop_last(), pred);
    }
}

/// Exact-match counting agrees with multiset multiplicity, so it is invariant
/// under permutation.
proof fn lemma_count_matches_multiset(s: Seq<u64>, v: u64)
    ensures
        count_matches(s, v) == s.to_multiset().count(v),
    decreases s.len(),
{
    broadcast use vstd::seq_lib::group_to_multiset_ensures;
    broadcast use vstd::multiset::group_multiset_axioms;

    reveal(Seq::filter);
    if s.len() == 0 {
        assert(!s.contains(v));
        assert(s.to_multiset().count(v) == 0);
    } else {
        let pre = s.drop_last();
        let tail = s.last();
        lemma_count_matches_multiset(pre, v);
        assert(s =~= pre.push(tail));
        assert(pre.push(tail).to_multiset() =~= pre.to_multiset().insert(tail));
        assert(pre.to_multiset().insert(tail).count(v) == pre.to_multiset().count(v) + (
        if tail == v {
            1int
        } else {
            0int
        }));
    }
}

/// Exact-match counting splits over a cut of the sequence.
proof fn lemma_count_matches_split(s: Seq<u64>, v: u64, mid: int)
    requires
        0 <= mid <= s.len(),
    ensures
        count_matches(s, v) == count_matches(s.subrange(0, mid), v) + count_matches(
            s.subrange(mid, s.len() as int),
            v,
        ),
{
    let left = s.subrange(0, mid);
    let right = s.subrange(mid, s.len() as int);
    assert(s =~= left + right);
    Seq::<u64>::filter_distributes_over_add(left, right, match_pred(v));
}

/// A sorted permutation keeps the length and the elements of its input.
proof fn lemma_sort_by_len(w: Seq<u64>)
    ensures
        w.sort_by(bits_order()).len() == w.len(),
        forall|j: int|
            0 <= j < w.len() ==> w.contains(#[trigger] w.sort_by(bits_order())[j]),
{
    broadcast use vstd::seq_lib::group_to_multiset_ensures;

    lemma_bits_order_total();
    w.lemma_sort_by_ensures(bits_order());
    let s = w.sort_by(bits_order());
    assert(w.to_multiset().len() == w.len());
    assert(s.to_multiset().len() == s.len());
    assert forall|j: int| 0 <= j < w.len() implies w.contains(#[trigger] s[j]) by {
        assert(s.contains(s[j]));
        assert(s.to_multiset().count(s[j]) > 0);
        assert(w.to_multiset().count(s[j]) > 0);
    }
}

/// Indexed use of sortedness of a `sort_by` result.
proof fn lemma_sort_by_index(w: Seq<u64>, a: int, b: int)
    requires
        0 <= a <= b,
        b < w.sort_by(bits_order()).len(),
    ensures
        bits_leq(w.sort_by(bits_order())[a], w.sort_by(bits_order())[b]),
{
    lemma_bits_order_total();
    w.lemma_sort_by_ensures(bits_order());
    let r = bits_order();
    let s = w.sort_by(r);
    if a < b {
        assert(r(s[a], s[b]));
    }
}

/// The central selection fact: in a window holding only the sample `c` and
/// padding zeros, with at least `k + 1` copies of `c`, the middle element of
/// the sorted window has the key of `c`; it is `c` itself unless `c` is a
/// zero, where only the key (and hence the value) is pinned.
proof fn lemma_sorted_window_pick(w: Seq<u64>, c: u64, k: int)
    requires
        k >= 0,
        w.len() == 2 * k + 1,
        forall|m: int| 0 <= m < w.len() ==> w[m] == c || w[m] == POS_ZERO,
        count_matches(w, c) >= k + 1,
    ensures
        f_key(w.sort_by(bits_order())[k]) == f_key(c),
        f_key(c) != 0 ==> w.sort_by(bits_order())[k] == c,
        c == POS_ZERO ==> w.sort_by(bits_order())[k] == c,
{
    lemma_zero_pattern_facts();
    lemma_bits_order_total();
    lemma_sort_by_len(w);
    let s = w.sort_by(bits_order());
    assert(s.len() == 2 * k + 1);
    assert forall|j: int| 0 <= j < s.len() implies s[j] == c || s[j] == POS_ZERO by {
        let m = choose|m: int| 0 <= m < w.len() && w[m] == s[j];
    }
    if c == POS_ZERO {
        assert(s[k] == c);
    } else {
        lemma_bits_order_total();
        w.lemma_sort_by_ensures(bits_order());
        lemma_count_matches_multiset(w, c);
        lemma_count_matches_multiset(s, c);
        assert(count_matches(s, c) >= k + 1);
        if f_key(c) > 0 {
            if s[k] != c {
                assert forall|j: int| 0 <= j <= k implies s[j] != c by {
                    lemma_sort_by_index(w, j, k);
                    if s[j] == c {
                        assert(bits_leq(c, POS_ZERO));
                        assert(false);
                    }
                }
                let lo = s.subrange(0, k + 1);
                let hi = s.subrange(k + 1, s.len() as int);
                lemma_count_matches_split(s, c, k + 1);
                lo.lemma_all_neg_filter_empty(match_pred(c));
                hi.lemma_filter_len(match_pred(c));
                assert(count_matches(s, c) <= k);
                assert(false);
            }
        } else if f_key(c) < 0 {
            if s[k] != c {
                assert forall|j: int| k <= j < s.len() implies s[j] != c by {
                    lemma_sort_by_index(w, k, j);
                    if s[j] == c {
                        assert(bits_leq(POS_ZERO, c));
                        assert(false);
                    }
                }
                let lo = s.subrange(0, k);
                let hi = s.subrange(k, s.len() as int);
                lemma_count_matches_split(s, c, k);
                hi.lemma_all_neg_filter_empty(match_pred(c));
                lo.lemma_filter_len(match_pred(c));
                assert(count_matches(s, c) <= k);
                assert(false);
            }
        } else {
            assert(f_key(s[k]) == 0);
        }
    }
}

/// Law: the median filter maps a constant sequence to itself.
///
/// For a sequence that holds the same sample `c` everywhere and is longer
/// than the half-width `k`, every window holds at most `k` padding zeros, so
/// the median at every position has the value (the key) of `c`; it is
/// bit-identical to `c` unless `c` is the negative zero, which the positive
/// zero padding may replace by the equal-valued positive zero.  (A constant
/// sequence of length `k` or shorter is outside this law: there the padding
/// outnumbers the data and the median is a zero.)
pub proof fn lemma_medfilt_constant(s: Seq<u64>, c: u64, i: int, k: int)
    requires
        k >= 0,
        k < s.len(),
        0 <= i < s.len(),
        forall|j: int| 0 <= j < s.len() ==> s[j] == c,
    ensures
        f_key(window_median(s, i, k)) == f_key(c),
        c != NEG_ZERO ==> window_median(s, i, k) == c,
{
    let w = pad_window(s, i, k);
    let n = s.len() as int;
    let lo: int = if i >= k {
        0
    } else {
        k - i
    };
    let hi: int = if i + k < n {
        2 * k
    } else {
        k + n - 1 - i
    };
    assert(0 <= lo <= hi <= 2 * k);
    assert(hi - lo >= k);
    assert(forall|m: int| lo <= m <= hi ==> #[trigger] w[m] == c);
    let mid = w.subrange(lo, hi + 1);
    assert(forall|m: int| 0 <= m < mid.len() ==> match_pred(c)(#[trigger] mid[m]));
    lemma_filter_all(mid, match_pred(c));
    lemma_count_matches_split(w, c, lo);
    lemma_count_matches_split(w.subrange(lo, w.len() as int), c, hi + 1 - lo);
    assert(w.subrange(lo, w.len() as int).subrange(0, hi + 1 - lo) =~= mid);
    assert(count_matches(w, c) >= k + 1);
    lemma_sorted_window_pick(w, c, k);
    if c != NEG_ZERO && f_key(c) == 0 {
        lemma_key_zero_is_zero(c);
        assert(c == POS_ZERO);
    }
}

/// Law: with the minimal kernel (half-width zero) the median filter is the
/// identity, bit for bit.
pub proof fn lemma_medfilt_kernel_one(s: Seq<u64>, i: int)
    requires
        0 <= i < s.len(),
    ensures
        window_median(s, i, 0) == s[i],
{
    let w = pad_window(s, i, 0);
    assert(w.len() == 1);
    assert(w[0] == s[i]);
    lemma_sort_by_len(w);
    let sorted = w.sort_by(bits_order());
    assert(w.contains(sorted[0]));
}

/// Inserts `x` into a sorted vector, keeping it sorted; the contents grow by
/// exactly the one sample.
fn insert_sorted(out: &mut Vec<u64>, x: u64)
    requires
        sorted_bits(old(out)@),
    ensures
        sorted_bits(final(out)@),
        final(out)@.to_multiset() == old(out)@.to_multiset().insert(x),
        final(out)@.len() == old(out)@.len() + 1,
{
    broadcast use vstd::seq_lib::group_to_multiset_ensures;

    let mut pos: usize = 0;
    while pos < out.len() && leq_bits(out[pos], x)
        invariant
            sorted_bits(out@),
            out@ == old(out)@,
            pos <= out@.len(),
            forall|j: int| 0 <= j < pos ==> bits_leq(#[trigger] out@[j], x),
        decreases out@.len() - pos,
    {
        pos += 1;
    }
    let ghost before = out@;
    proof {
        lemma_bits_order_total();
    }
    out.insert(pos, x);
    proof {
        before.insert_ensures(pos as int, x);
        let now = out@;
        assert forall|a: int, b: int| 0 <= a <= b < now.len() implies bits_leq(
            #[trigger] now[a],
            #[trigger] now[b],
        ) by {
            let p = pos as int;
            if b < p {
                assert(now[a] == before[a] && now[b] == before[b]);
            } else if a > p {
                assert(now[a] == before[a - 1] && now[b] == before[b - 1]);
            } else if a == p && b == p {
            } else if a < p && b == p {
                assert(now[a] == before[a]);
                assert(bits_leq(before[a], x));
            } else if a == p && b > p {
                assert(now[b] == before[b - 1]);
                assert(p < before.len());
                assert(!bits_leq(before[p], x));
                assert(bits_leq(x, before[p]));
                assert(bits_leq(before[p], before[b - 1]));
            } else {
                assert(a < p && b > p);
                assert(now[a] == before[a] && now[b] == before[b - 1]);
                assert(bits_leq(before[a], before[b - 1]));
            }
        }
        assert(now.to_multiset() =~= before.to_multiset().insert(x)) by {
            assert(now =~= before.subrange(0, pos as int).push(x) + before.subrange(
                pos as int,
                before.len() as int,
            ));
            vstd::seq_lib::to_multiset_insert(before, pos as int, x);
        }
    }
}

/// Sorts bit patterns by the documented total sort order; the result is the
/// canonical sorted permutation of the input.
pub fn sort_bits(v: Vec<u64>) -> (r: Vec<u64>)
    ensures
        r@ == v@.sort_by(bits_order()),
        r@.len() == v@.len(),
{
    broadcast use vstd::seq_lib::group_to_multiset_ensures;

    let mut out: Vec<u64> = Vec::new();
    for idx in 0..v.len()
        invariant
            sorted_bits(out@),
            out@.to_multiset() == v@.subrange(0, idx as int).to_multiset(),
            out@.len() == idx,
    {
        let ghost prefix = v@.subrange(0, idx as int);
        insert_sorted(&mut out, v[idx]);
        proof {
            assert(v@.subrange(0, idx + 1) =~= prefix.push(v@[idx as int]));
            vstd::seq_lib::to_multiset_build(prefix, v@[idx as int]);
        }
    }
    proof {
        lemma_bits_order_total();
        assert(v@.subrange(0, v@.len() as int) =~= v@);
        v@.lemma_sort_by_ensures(bits_order());
        lemma_sorted_bits_is_sorted_by(out@);
        lemma_sorted_unique(out@, v@.sort_by(bits_order()), bits_order());
    }
    out
}

/// The windowed median filter.
///
/// The output has the length of the input; entry `i` is the median of the
/// `kernel_size` samples centred at `i`, with positions outside the input
/// treated as zeros, selected under the documented total sort order.  An even
/// `kernel_size` is rejected.
pub fn medfilt(input: &Vec<u64>, kernel_size: usize) -> (r: Result<Vec<u64>, SolError>)
    requires
        input@.len() + kernel_size <= usize::MAX,
    ensures
        match r {
            Ok(out) => kernel_size % 2 == 1 && out@.len() == input@.len() && forall|i: int|
                0 <= i < input@.len() ==> out@[i] == window_median(
                    input@,
                    i,
                    kernel_size as int / 2,
                ),
            Err(e) => kernel_size % 2 == 0 && e == SolError::InvalidArgument,
        },
{
    if kernel_size % 2 == 0 {
        return Err(SolError::InvalidArgument);
    }
    let half_k = kernel_size / 2;
    let mut out: Vec<u64> = Vec::new();
    for i in 0..input.len()
        invariant
            input@.len() + kernel_size <= usize::MAX,
            kernel_size % 2 == 1,
            half_k == kernel_size as int / 2,
            out@.len() == i,
            forall|j: int| 0 <= j < i ==> out@[j] == window_median(input@, j, half_k as int),
    {
        let mut w: Vec<u64> = Vec::new();
        for m in 0..kernel_size
            invariant
                input@.len() + kernel_size <= usize::MAX,
                i < input@.len(),
                half_k == kernel_size as int / 2,
                w@.len() == m,
                forall|q: int|
                    0 <= q < m ==> w@[q] == pad_window(input@, i as int, half_k as int)[q],
        {
            let p = i + m;
            if p >= half_k && p - half_k < input.len() {
                w.push(input[p - half_k]);
            } else {
                w.push(POS_ZERO);
            }
        }
        proof {
            assert(w@ =~= pad_window(input@, i as int, half_k as int));
        }
        let ws = sort_bits(w);
        out.push(ws[half_k]);
    }
    Ok(out)
}

/// The order statistics that define the median of a list of noise scores.
///
/// For an odd count the median is a single element; for an even count it is
/// conventionally the mean of the two central elements, a floating-point step
/// left to the caller, so both central elements are returned.
#[derive(Clone, Copy, Debug, PartialEq, Eq, Structural)]
pub enum MedianSelection {
    /// No scores were given; there is no median.
    Empty,
    /// The middle element of the sorted scores (odd count).
    Single(u64),
    /// The two central elements of the sorted scores (even count), in sort order.
    Between(u64, u64),
}

/// Selects the median order statistics of `xs` under the total sort order.
pub fn select_median(xs: &Vec<u64>) -> (r: MedianSelection)
    ensures
        ({
            let s = xs@.sort_by(bits_order());
            let n = xs@.len() as int;
            if n == 0 {
                r == MedianSelection::Empty
            } else if n % 2 == 1 {
                r == MedianSelection::Single(s[n / 2])
            } else {
                r == MedianSelection::Between(s[n / 2 - 1], s[n / 2])
            }
        }),
{
    let n = xs.len();
    if n == 0 {
        return MedianSelection::Empty;
    }
    let mut copy: Vec<u64> = Vec::new();
    for i in 0..n
        invariant
            n == xs@.len(),
            copy@.len() == i,
            forall|j: int| 0 <= j < i ==> copy@[j] == xs@[j],
    {
        copy.push(xs[i]);
    }
    proof {
        assert(copy@ =~= xs@);
    }
    let sorted = sort_bits(copy);
    proof {
        lemma_sort_by_len(xs@);
    }
    if n % 2 == 1 {
        MedianSelection::Single(sorted[n / 2])
    } else {
        MedianSelection::Between(sorted[n / 2 - 1], sorted[n / 2])
    }
}

} // verus!
