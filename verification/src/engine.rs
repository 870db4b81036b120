//! The reference-noise flagging engine.
//!
//! A solution table is a 4-axis array (time, frequency, antenna,
//! polarisation) of samples, held as nested vectors of bit patterns.  The
//! caller derives, per evaluated antenna, frequency channel and time chunk, a
//! circular-dispersion score of the reference-differenced phase, and a
//! single decision threshold (the core-station median score scaled by the
//! caller's sigma factor -- floating-point steps performed outside).  The
//! engine then rebuilds the weights, zeroing every polarisation of every
//! cell whose chunk score lies strictly above the threshold, and, only when
//! blanking is requested, rebuilds the values with not-a-number at the same
//! cells.  International stations are never evaluated.
//!
//! All rebuilding is pure: fresh arrays are returned and the inputs are
//! never aliased, so a flagging decision always reads pre-flag data.

use vstd::arithmetic::div_mod::{lemma_div_is_ordered, lemma_div_plus_one};
use vstd::prelude::*;

use crate::fbits::{
    f_gt, f_le, gt_float, is_finite_bits, is_finite_val, is_zero_bits, is_zero_val,
    lemma_gt_threshold_monotone, POS_ZERO, QUIET_NAN,
};
use crate::stations::{is_evaluated, spec_evaluated, StationClass};
use crate::SolError;

verus! {

/// Time samples are flagged in consecutive chunks of this many samples; the
/// final chunk of a table may be shorter.
pub const CHUNK_SIZE: usize = 8;

/// Kernel width of the median filter that estimates the slow trend of the
/// reference-differenced phase before its dispersion is scored.
pub const DETREND_KERNEL: usize = 59;

/// The chunk that time index `t` belongs to.
pub open spec fn spec_chunk_of(t: int) -> int {
    t / (CHUNK_SIZE as int)
}

/// The number of chunks covering `nt` time samples: full chunks plus the
/// shorter remainder chunk when the division is not exact.  An empty
/// remainder is not a chunk and is never evaluated.
pub open spec fn spec_chunk_count(nt: int) -> int {
    (nt + CHUNK_SIZE - 1) / (CHUNK_SIZE as int)
}

/// The chunk of time index `t`.
pub fn chunk_of(t: usize) -> (c: usize)
    ensures
        c == spec_chunk_of(t as int),
{
    t / CHUNK_SIZE
}

/// The number of chunks covering `nt` time samples.
pub fn chunk_count(nt: usize) -> (c: usize)
    ensures
        c == spec_chunk_count(nt as int),
{
    if nt == 0 {
        0
    } else {
        proof {
            lemma_div_plus_one(nt - 1, CHUNK_SIZE as int);
        }
        (nt - 1) / CHUNK_SIZE + 1
    }
}

/// Every time index below `nt` falls in a chunk below the chunk count.
pub proof fn lemma_chunk_in_range(t: int, nt: int)
    requires
        0 <= t < nt,
    ensures
        0 <= spec_chunk_of(t) <= spec_chunk_of(nt - 1) < spec_chunk_count(nt),
{
    lemma_div_is_ordered(t, nt - 1, CHUNK_SIZE as int);
    lemma_div_is_ordered(0, t, CHUNK_SIZE as int);
    lemma_div_plus_one(nt - 1, CHUNK_SIZE as int);
    lemma_div_is_ordered(nt - 1, nt + CHUNK_SIZE - 1 - CHUNK_SIZE, CHUNK_SIZE as int);
}

/// Well-formedness of a 4-axis table: uniform axis lengths
/// (time, frequency, antenna, polarisation).
pub open spec fn table_wf(
    v: Seq<Vec<Vec<Vec<u64>>>>,
    nt: int,
    nf: int,
    na: int,
    np: int,
) -> bool {
    &&& v.len() == nt
    &&& forall|t: int| 0 <= t < nt ==> (#[trigger] v[t])@.len() == nf
    &&& forall|t: int, f: int| 0 <= t < nt && 0 <= f < nf ==> (#[trigger] v[t]@[f])@.len() == na
    &&& forall|t: int, f: int, a: int|
        0 <= t < nt && 0 <= f < nf && 0 <= a < na ==> (#[trigger] v[t]@[f]@[a])@.len() == np
}

/// Well-formedness of the score array: one score per antenna, frequency
/// channel and time chunk.
pub open spec fn scores_wf(s: Seq<Vec<Vec<u64>>>, na: int, nf: int, nc: int) -> bool {
    &&& s.len() == na
    &&& forall|a: int| 0 <= a < na ==> (#[trigger] s[a])@.len() == nf
    &&& forall|a: int, f: int| 0 <= a < na && 0 <= f < nf ==> (#[trigger] s[a]@[f])@.len() == nc
}

/// The sample of a table at a coordinate.
pub open spec fn spec_table_cell(v: Seq<Vec<Vec<Vec<u64>>>>, t: int, f: int, a: int, p: int) -> u64 {
    v[t]@[f]@[a]@[p]
}

/// Whether the cell at (antenna `a`, channel `f`, time `t`) is flagged: the
/// station is evaluated (core or remote) and the dispersion score of its
/// chunk lies strictly above the threshold in the value order.  A
/// not-a-number score never exceeds the threshold.
pub open spec fn spec_cell_flagged(
    classes: Seq<StationClass>,
    scores: Seq<Vec<Vec<u64>>>,
    threshold: u64,
    a: int,
    f: int,
    t: int,
) -> bool {
    spec_evaluated(classes[a]) && f_gt(scores[a]@[f]@[spec_chunk_of(t)], threshold)
}

/// The sample an output table holds at a coordinate: `fill` where the mask
/// is active and the cell is flagged, the input sample everywhere else.
pub open spec fn spec_masked_cell(
    table: Seq<Vec<Vec<Vec<u64>>>>,
    classes: Seq<StationClass>,
    scores: Seq<Vec<Vec<u64>>>,
    threshold: u64,
    fill: u64,
    active: bool,
    t: int,
    f: int,
    a: int,
    p: int,
) -> u64 {
    if active && spec_cell_flagged(classes, scores, threshold, a, f, t) {
        fill
    } else {
        spec_table_cell(table, t, f, a, p)
    }
}

/// Law: flagging is antitone in the threshold.  A cell flagged under the
/// higher of two comparable thresholds is flagged under the lower one, so
/// raising the caller's sigma factor (which scales the threshold by a
/// non-negative factor) never flags a cell that a lower sigma left alone.
pub proof fn lemma_flagging_monotone(
    classes: Seq<StationClass>,
    scores: Seq<Vec<Vec<u64>>>,
    lo: u64,
    hi: u64,
    a: int,
    f: int,
    t: int,
)
    requires
        f_le(lo, hi),
        spec_cell_flagged(classes, scores, hi, a, f, t),
    ensures
        spec_cell_flagged(classes, scores, lo, a, f, t),
{
    lemma_gt_threshold_monotone(scores[a]@[f]@[spec_chunk_of(t)], lo, hi);
}

/// Law: a weight zeroed under the higher of two comparable thresholds is
/// zeroed under the lower one, whether it was zeroed by this pass or was
/// zero already.
pub proof fn lemma_flagged_weights_monotone(
    weights: Seq<Vec<Vec<Vec<u64>>>>,
    classes: Seq<StationClass>,
    scores: Seq<Vec<Vec<u64>>>,
    lo: u64,
    hi: u64,
    t: int,
    f: int,
    a: int,
    p: int,
)
    requires
        f_le(lo, hi),
        is_zero_bits(spec_masked_cell(weights, classes, scores, hi, POS_ZERO, true, t, f, a, p)),
    ensures
        is_zero_bits(spec_masked_cell(weights, classes, scores, lo, POS_ZERO, true, t, f, a, p)),
{
    crate::fbits::lemma_zero_pattern_facts();
    if spec_cell_flagged(classes, scores, hi, a, f, t) {
        lemma_flagging_monotone(classes, scores, lo, hi, a, f, t);
    }
}

/// Law: a cell of an international station always passes through unchanged,
/// whatever its noise.
pub proof fn lemma_international_untouched(
    table: Seq<Vec<Vec<Vec<u64>>>>,
    classes: Seq<StationClass>,
    scores: Seq<Vec<Vec<u64>>>,
    threshold: u64,
    fill: u64,
    active: bool,
    t: int,
    f: int,
    a: int,
    p: int,
)
    requires
        0 <= a < classes.len(),
        classes[a] == StationClass::International,
    ensures
        spec_masked_cell(table, classes, scores, threshold, fill, active, t, f, a, p)
            == spec_table_cell(table, t, f, a, p),
{
}

/// Law: with blanking disabled the values table passes through bit-identical,
/// whatever is flagged in the weights.
pub proof fn lemma_values_identical_without_blanking(
    values: Seq<Vec<Vec<Vec<u64>>>>,
    classes: Seq<StationClass>,
    scores: Seq<Vec<Vec<u64>>>,
    threshold: u64,
    t: int,
    f: int,
    a: int,
    p: int,
)
    ensures
        spec_masked_cell(values, classes, scores, threshold, QUIET_NAN, false, t, f, a, p)
            == spec_table_cell(values, t, f, a, p),
{
}

/// The flagging decision for one (antenna, channel, time) cell.
fn cell_decision(
    classes: &Vec<StationClass>,
    scores: &Vec<Vec<Vec<u64>>>,
    threshold: u64,
    a: usize,
    f: usize,
    t: usize,
) -> (b: bool)
    requires
        a < classes@.len(),
        a < scores@.len(),
        f < scores@[a as int]@.len(),
        spec_chunk_of(t as int) < scores@[a as int]@[f as int]@.len(),
    ensures
        b == spec_cell_flagged(classes@, scores@, threshold, a as int, f as int, t as int),
{
    let evaluated = is_evaluated(classes[a]);
    if !evaluated {
        return false;
    }
    let c = chunk_of(t);
    gt_float(scores[a][f][c], threshold)
}

/// Rebuilds one polarisation row, replacing every sample by `fill` when the
/// cell is flagged.
fn fill_row(row: &Vec<u64>, flagged: bool, fill: u64) -> (r: Vec<u64>)
    ensures
        r@.len() == row@.len(),
        forall|p: int|
            0 <= p < row@.len() ==> r@[p] == (if flagged {
                fill
            } else {
                row@[p]
            }),
{
    let mut r: Vec<u64> = Vec::new();
    for p in 0..row.len()
        invariant
            r@.len() == p,
            forall|q: int|
                0 <= q < p ==> r@[q] == (if flagged {
                    fill
                } else {
                    row@[q]
                }),
    {
        if flagged {
            r.push(fill);
        } else {
            r.push(row[p]);
        }
    }
    r
}

/// Rebuilds the antenna axis of one (time, channel) plane.
fn fill_antennas(
    slab: &Vec<Vec<u64>>,
    classes: &Vec<StationClass>,
    scores: &Vec<Vec<Vec<u64>>>,
    threshold: u64,
    fill: u64,
    active: bool,
    t: usize,
    f: usize,
) -> (r: Vec<Vec<u64>>)
    requires
        slab@.len() == classes@.len(),
        scores@.len() == classes@.len(),
        forall|a: int| 0 <= a < scores@.len() ==> f < (#[trigger] scores@[a])@.len(),
        forall|a: int|
            0 <= a < scores@.len() ==> spec_chunk_of(t as int) < (#[trigger] scores@[a])@[
            f as int]@.len(),
    ensures
        r@.len() == slab@.len(),
        forall|a: int| 0 <= a < slab@.len() ==> (#[trigger] r@[a])@.len() == slab@[a]@.len(),
        forall|a: int, p: int|
            0 <= a < slab@.len() && 0 <= p < slab@[a]@.len() ==> (#[trigger] r@[a]@[p])
                == spec_masked_cell_row(slab@, classes@, scores@, threshold, fill, active, t as int,
                f as int, a, p),
{
    let mut r: Vec<Vec<u64>> = Vec::new();
    for a in 0..slab.len()
        invariant
            slab@.len() == classes@.len(),
            scores@.len() == classes@.len(),
            forall|x: int| 0 <= x < scores@.len() ==> f < (#[trigger] scores@[x])@.len(),
            forall|x: int|
                0 <= x < scores@.len() ==> spec_chunk_of(t as int) < (#[trigger] scores@[x])@[
                f as int]@.len(),
            r@.len() == a,
            forall|x: int| 0 <= x < a ==> (#[trigger] r@[x])@.len() == slab@[x]@.len(),
            forall|x: int, p: int|
                0 <= x < a && 0 <= p < slab@[x]@.len() ==> (#[trigger] r@[x]@[p])
                    == spec_masked_cell_row(slab@, classes@, scores@, threshold, fill, active,
                    t as int, f as int, x, p),
    {
        let flagged = active && cell_decision(classes, scores, threshold, a, f, t);
        r.push(fill_row(&slab[a], flagged, fill));
    }
    r
}

/// The sample of one rebuilt (time, channel) plane row, stated against the
/// input plane rather than the whole table.
pub open spec fn spec_masked_cell_row(
    slab: Seq<Vec<u64>>,
    classes: Seq<StationClass>,
    scores: Seq<Vec<Vec<u64>>>,
    threshold: u64,
    fill: u64,
    active: bool,
    t: int,
    f: int,
    a: int,
    p: int,
) -> u64 {
    if active && spec_cell_flagged(classes, scores, threshold, a, f, t) {
        fill
    } else {
        slab[a]@[p]
    }
}

/// Rebuilds the frequency axis of one time step.
fn fill_channels(
    plane: &Vec<Vec<Vec<u64>>>,
    classes: &Vec<StationClass>,
    scores: &Vec<Vec<Vec<u64>>>,
    threshold: u64,
    fill: u64,
    active: bool,
    t: usize,
    nc: usize,
) -> (r: Vec<Vec<Vec<u64>>>)
    requires
        forall|f: int| 0 <= f < plane@.len() ==> (#[trigger] plane@[f])@.len() == classes@.len(),
        scores_wf(scores@, classes@.len() as int, plane@.len() as int, nc as int),
        spec_chunk_of(t as int) < nc,
    ensures
        r@.len() == plane@.len(),
        forall|f: int| 0 <= f < plane@.len() ==> (#[trigger] r@[f])@.len() == plane@[f]@.len(),
        forall|f: int, a: int|
            0 <= f < plane@.len() && 0 <= a < plane@[f]@.len() ==> (#[trigger] r@[f]@[a])@.len()
                == plane@[f]@[a]@.len(),
        forall|f: int, a: int, p: int|
            0 <= f < plane@.len() && 0 <= a < plane@[f]@.len() && 0 <= p < plane@[f]@[a]@.len()
                ==> (#[trigger] r@[f]@[a]@[p]) == spec_masked_cell_row(plane@[f]@, classes@,
                scores@, threshold, fill, active, t as int, f, a, p),
{
    let mut r: Vec<Vec<Vec<u64>>> = Vec::new();
    for f in 0..plane.len()
        invariant
            forall|x: int|
                0 <= x < plane@.len() ==> (#[trigger] plane@[x])@.len() == classes@.len(),
            scores_wf(scores@, classes@.len() as int, plane@.len() as int, nc as int),
            spec_chunk_of(t as int) < nc,
            r@.len() == f,
            forall|x: int| 0 <= x < f ==> (#[trigger] r@[x])@.len() == plane@[x]@.len(),
            forall|x: int, a: int|
                0 <= x < f && 0 <= a < plane@[x]@.len() ==> (#[trigger] r@[x]@[a])@.len()
                    == plane@[x]@[a]@.len(),
            forall|x: int, a: int, p: int|
                0 <= x < f && 0 <= a < plane@[x]@.len() && 0 <= p < plane@[x]@[a]@.len() ==> (
                #[trigger] r@[x]@[a]@[p]) == spec_masked_cell_row(plane@[x]@, classes@, scores@,
                threshold, fill, active, t as int, x, a, p),
    {
        r.push(fill_antennas(&plane[f], classes, scores, threshold, fill, active, t, f));
    }
    r
}

/// Rebuilds a whole table against the mask: `fill` at flagged cells when the
/// mask is active, the input sample everywhere else.
fn masked_fill(
    table: &Vec<Vec<Vec<Vec<u64>>>>,
    classes: &Vec<StationClass>,
    scores: &Vec<Vec<Vec<u64>>>,
    threshold: u64,
    fill: u64,
    active: bool,
    nt: usize,
    nf: usize,
    np: usize,
    nc: usize,
) -> (r: Vec<Vec<Vec<Vec<u64>>>>)
    requires
        table_wf(table@, nt as int, nf as int, classes@.len() as int, np as int),
        scores_wf(scores@, classes@.len() as int, nf as int, nc as int),
        nc == spec_chunk_count(nt as int),
    ensures
        table_wf(r@, nt as int, nf as int, classes@.len() as int, np as int),
        forall|t: int, f: int, a: int, p: int|
            0 <= t < nt && 0 <= f < nf && 0 <= a < classes@.len() && 0 <= p < np ==> (
            #[trigger] r@[t]@[f]@[a]@[p]) == spec_masked_cell(table@, classes@, scores@, threshold,
            fill, active, t, f, a, p),
{
    let na = classes.len();
    let mut r: Vec<Vec<Vec<Vec<u64>>>> = Vec::new();
    for t in 0..nt
        invariant
            table_wf(table@, nt as int, nf as int, classes@.len() as int, np as int),
            scores_wf(scores@, classes@.len() as int, nf as int, nc as int),
            nc == spec_chunk_count(nt as int),
            na == classes@.len(),
            r@.len() == t,
            forall|x: int| 0 <= x < t ==> (#[trigger] r@[x])@.len() == nf,
            forall|x: int, f: int|
                0 <= x < t && 0 <= f < nf ==> (#[trigger] r@[x]@[f])@.len() == na,
            forall|x: int, f: int, a: int|
                0 <= x < t && 0 <= f < nf && 0 <= a < na ==> (#[trigger] r@[x]@[f]@[a])@.len()
                    == np,
            forall|x: int, f: int, a: int, p: int|
                0 <= x < t && 0 <= f < nf && 0 <= a < na && 0 <= p < np ==> (
                #[trigger] r@[x]@[f]@[a]@[p]) == spec_masked_cell(table@, classes@, scores@,
                threshold, fill, active, x, f, a, p),
    {
        proof {
            lemma_chunk_in_range(t as int, nt as int);
        }
        r.push(fill_channels(&table[t], classes, scores, threshold, fill, active, t, nc));
    }
    r
}

/// The predicate matching a zero-valued sample; a zero weight marks a
/// flagged cell.
pub open spec fn zero_pred() -> spec_fn(u64) -> bool {
    |b: u64| is_zero_bits(b)
}

/// Zero-weight samples in one polarisation row.
pub open spec fn spec_zeros_row(row: Seq<u64>) -> int {
    row.filter(zero_pred()).len() as int
}

/// Zero-weight samples over the antenna axis of a (time, channel) plane.
pub open spec fn spec_zeros_slab(s: Seq<Vec<u64>>) -> int
    decreases s.len(),
{
    if s.len() == 0 {
        0
    } else {
        spec_zeros_slab(s.drop_last()) + spec_zeros_row(s.last()@)
    }
}

/// Zero-weight samples over one time step.
pub open spec fn spec_zeros_plane(s: Seq<Vec<Vec<u64>>>) -> int
    decreases s.len(),
{
    if s.len() == 0 {
        0
    } else {
        spec_zeros_plane(s.drop_last()) + spec_zeros_slab(s.last()@)
    }
}

/// Zero-weight samples of a whole table.
pub open spec fn spec_zeros_table(s: Seq<Vec<Vec<Vec<u64>>>>) -> int
    decreases s.len(),
{
    if s.len() == 0 {
        0
    } else {
        spec_zeros_table(s.drop_last()) + spec_zeros_plane(s.last()@)
    }
}

proof fn lemma_filter_push_local(s: Seq<u64>, pred: spec_fn(u64) -> bool, x: u64)
    ensures
        s.push(x).filter(pred) == (if pred(x) {
            s.filter(pred).push(x)
        } else {
            s.filter(pred)
        }),
{
    reveal(Seq::filter);
    assert(s.push(x).drop_last() =~= s);
    assert(s.push(x).last() == x);
}

proof fn lemma_zeros_slab_push(s: Seq<Vec<u64>>, x: Vec<u64>)
    ensures
        spec_zeros_slab(s.push(x)) == spec_zeros_slab(s) + spec_zeros_row(x@),
{
    assert(s.push(x).drop_last() =~= s);
    assert(s.push(x).last() == x);
}

proof fn lemma_zeros_plane_push(s: Seq<Vec<Vec<u64>>>, x: Vec<Vec<u64>>)
    ensures
        spec_zeros_plane(s.push(x)) == spec_zeros_plane(s) + spec_zeros_slab(x@),
{
    assert(s.push(x).drop_last() =~= s);
    assert(s.push(x).last() == x);
}

proof fn lemma_zeros_table_push(s: Seq<Vec<Vec<Vec<u64>>>>, x: Vec<Vec<Vec<u64>>>)
    ensures
        spec_zeros_table(s.push(x)) == spec_zeros_table(s) + spec_zeros_plane(x@),
{
    assert(s.push(x).drop_last() =~= s);
    assert(s.push(x).last() == x);
}

/// Counts the zero-weight samples of one row, with the row length.
fn count_cells_row(row: &Vec<u64>) -> (r: (u64, u64))
    ensures
        r.0 == spec_zeros_row(row@),
        r.1 == row@.len(),
        r.0 <= r.1,
{
    let mut c: u64 = 0;
    let n = row.len();
    for i in 0..n
        invariant
            n == row@.len(),
            c == spec_zeros_row(row@.subrange(0, i as int)),
            c <= i,
    {
        let z = is_zero_val(row[i]);
        if z {
            c = c + 1;
        }
        proof {
            assert(row@.subrange(0, i + 1) =~= row@.subrange(0, i as int).push(row@[i as int]));
            lemma_filter_push_local(row@.subrange(0, i as int), zero_pred(), row@[i as int]);
        }
    }
    proof {
        assert(row@.subrange(0, row@.len() as int) =~= row@);
    }
    (c, n as u64)
}

/// Counts zero-weight samples and cells over the antenna axis of a plane.
fn count_cells_slab(s: &Vec<Vec<u64>>, np: usize) -> (r: (u64, u64))
    requires
        forall|a: int| 0 <= a < s@.len() ==> (#[trigger] s@[a])@.len() == np,
        s@.len() * np <= u64::MAX,
    ensures
        r.0 == spec_zeros_slab(s@),
        r.1 == s@.len() * np,
        r.0 <= r.1,
{
    let mut c: u64 = 0;
    let mut n: u64 = 0;
    let len = s.len();
    for a in 0..len
        invariant
            len == s@.len(),
            forall|x: int| 0 <= x < s@.len() ==> (#[trigger] s@[x])@.len() == np,
            s@.len() * np <= u64::MAX,
            c == spec_zeros_slab(s@.subrange(0, a as int)),
            n == a * np,
            c <= n,
    {
        proof {
            assert((a + 1) * np == a * np + np) by (nonlinear_arith);
            assert((a + 1) * np <= s@.len() * np) by (nonlinear_arith)
                requires
                    a + 1 <= s@.len(),
                    np >= 0,
            ;
        }
        let rc = count_cells_row(&s[a]);
        c = c + rc.0;
        n = n + rc.1;
        proof {
            assert(s@.subrange(0, a + 1) =~= s@.subrange(0, a as int).push(s@[a as int]));
            lemma_zeros_slab_push(s@.subrange(0, a as int), s@[a as int]);
        }
    }
    proof {
        assert(s@.subrange(0, s@.len() as int) =~= s@);
    }
    (c, n)
}

/// Counts zero-weight samples and cells over one time step.
fn count_cells_plane(s: &Vec<Vec<Vec<u64>>>, na: usize, np: usize) -> (r: (u64, u64))
    requires
        forall|f: int| 0 <= f < s@.len() ==> (#[trigger] s@[f])@.len() == na,
        forall|f: int, a: int|
            0 <= f < s@.len() && 0 <= a < na ==> (#[trigger] s@[f]@[a])@.len() == np,
        s@.len() * na * np <= u64::MAX,
    ensures
        r.0 == spec_zeros_plane(s@),
        r.1 == s@.len() * na * np,
        r.0 <= r.1,
{
    let mut c: u64 = 0;
    let mut n: u64 = 0;
    let len = s.len();
    for f in 0..len
        invariant
            len == s@.len(),
            forall|x: int| 0 <= x < s@.len() ==> (#[trigger] s@[x])@.len() == na,
            forall|x: int, a: int|
                0 <= x < s@.len() && 0 <= a < na ==> (#[trigger] s@[x]@[a])@.len() == np,
            s@.len() * na * np <= u64::MAX,
            c == spec_zeros_plane(s@.subrange(0, f as int)),
            n == f * (na * np),
            c <= n,
    {
        proof {
            assert((f + 1) * (na * np) == f * (na * np) + na * np) by (nonlinear_arith);
            assert((f + 1) * (na * np) <= s@.len() * (na * np)) by (nonlinear_arith)
                requires
                    f + 1 <= s@.len(),
                    na * np >= 0,
            ;
            assert(s@.len() * (na * np) == s@.len() * na * np) by (nonlinear_arith);
        }
        let rc = count_cells_slab(&s[f], np);
        c = c + rc.0;
        n = n + rc.1;
        proof {
            assert(s@.subrange(0, f + 1) =~= s@.subrange(0, f as int).push(s@[f as int]));
            lemma_zeros_plane_push(s@.subrange(0, f as int), s@[f as int]);
        }
    }
    proof {
        assert(s@.subrange(0, s@.len() as int) =~= s@);
        assert(len * (na * np) == len * na * np) by (nonlinear_arith);
    }
    (c, n)
}

/// Counts flagged (zero-weight) cells and total cells of a weights table,
/// the two numbers of the reported flagged fraction.
pub fn flagged_fraction_counts(
    weights: &Vec<Vec<Vec<Vec<u64>>>>,
    nf: usize,
    na: usize,
    np: usize,
) -> (r: (u64, u64))
    requires
        table_wf(weights@, weights@.len() as int, nf as int, na as int, np as int),
        weights@.len() * nf * na * np <= u64::MAX,
    ensures
        r.0 == spec_zeros_table(weights@),
        r.1 == weights@.len() * nf * na * np,
        r.0 <= r.1,
{
    let mut c: u64 = 0;
    let mut n: u64 = 0;
    let nt = weights.len();
    for t in 0..nt
        invariant
            nt == weights@.len(),
            table_wf(weights@, nt as int, nf as int, na as int, np as int),
            weights@.len() * nf * na * np <= u64::MAX,
            c == spec_zeros_table(weights@.subrange(0, t as int)),
            n == t * (nf * na * np),
            c <= n,
    {
        proof {
            assert((t + 1) * (nf * na * np) == t * (nf * na * np) + nf * na * np)
                by (nonlinear_arith);
            assert((t + 1) * (nf * na * np) <= weights@.len() * (nf * na * np))
                by (nonlinear_arith)
                requires
                    t + 1 <= weights@.len(),
                    nf * na * np >= 0,
            ;
            assert(weights@.len() * (nf * na * np) == weights@.len() * nf * na * np)
                by (nonlinear_arith);
            assert(nf as int * na * np == nf as int * (na as int * np as int))
                by (nonlinear_arith);
        }
        let rc = count_cells_plane(&weights[t], na, np);
        c = c + rc.0;
        n = n + rc.1;
        proof {
            assert(weights@.subrange(0, t + 1) =~= weights@.subrange(0, t as int).push(
                weights@[t as int],
            ));
            lemma_zeros_table_push(weights@.subrange(0, t as int), weights@[t as int]);
        }
    }
    proof {
        assert(weights@.subrange(0, weights@.len() as int) =~= weights@);
        assert(nt * (nf * na * np) == nt * nf * na * np) by (nonlinear_arith);
    }
    (c, n)
}

/// Checks a table against the metadata axis lengths.
pub fn table_has_shape(
    v: &Vec<Vec<Vec<Vec<u64>>>>,
    nt: usize,
    nf: usize,
    na: usize,
    np: usize,
) -> (b: bool)
    ensures
        b == table_wf(v@, nt as int, nf as int, na as int, np as int),
{
    if v.len() != nt {
        return false;
    }
    for t in 0..nt
        invariant
            v@.len() == nt,
            forall|x: int| 0 <= x < t ==> (#[trigger] v@[x])@.len() == nf,
            forall|x: int, f: int|
                0 <= x < t && 0 <= f < nf ==> (#[trigger] v@[x]@[f])@.len() == na,
            forall|x: int, f: int, a: int|
                0 <= x < t && 0 <= f < nf && 0 <= a < na ==> (#[trigger] v@[x]@[f]@[a])@.len()
                    == np,
    {
        if v[t].len() != nf {
            return false;
        }
        for f in 0..nf
            invariant
                v@.len() == nt,
                t < nt,
                v@[t as int]@.len() == nf,
                forall|y: int| 0 <= y < f ==> (#[trigger] v@[t as int]@[y])@.len() == na,
                forall|y: int, a: int|
                    0 <= y < f && 0 <= a < na ==> (#[trigger] v@[t as int]@[y]@[a])@.len() == np,
        {
            if v[t][f].len() != na {
                return false;
            }
            for a in 0..na
                invariant
                    v@.len() == nt,
                    t < nt,
                    f < nf,
                    v@[t as int]@.len() == nf,
                    v@[t as int]@[f as int]@.len() == na,
                    forall|z: int|
                        0 <= z < a ==> (#[trigger] v@[t as int]@[f as int]@[z])@.len() == np,
            {
                if v[t][f][a].len() != np {
                    return false;
                }
            }
        }
    }
    true
}

/// Checks the score array against the antenna, channel and chunk counts.
pub fn scores_have_shape(s: &Vec<Vec<Vec<u64>>>, na: usize, nf: usize, nc: usize) -> (b: bool)
    ensures
        b == scores_wf(s@, na as int, nf as int, nc as int),
{
    if s.len() != na {
        return false;
    }
    for a in 0..na
        invariant
            s@.len() == na,
            forall|x: int| 0 <= x < a ==> (#[trigger] s@[x])@.len() == nf,
            forall|x: int, f: int|
                0 <= x < a && 0 <= f < nf ==> (#[trigger] s@[x]@[f])@.len() == nc,
    {
        if s[a].len() != nf {
            return false;
        }
        for f in 0..nf
            invariant
                s@.len() == na,
                a < na,
                s@[a as int]@.len() == nf,
                forall|y: int| 0 <= y < f ==> (#[trigger] s@[a as int]@[y])@.len() == nc,
        {
            if s[a][f].len() != nc {
                return false;
            }
        }
    }
    true
}

/// The predicate matching a finite sample.
pub open spec fn finite_pred() -> spec_fn(u64) -> bool {
    |b: u64| is_finite_bits(b)
}

/// Replaces every non-finite sample of a phase series by zero, the
/// convention applied before the trend of the series is estimated.
pub fn sanitize_series(series: &Vec<u64>) -> (r: Vec<u64>)
    ensures
        r@.len() == series@.len(),
        forall|i: int|
            0 <= i < series@.len() ==> r@[i] == (if is_finite_bits(series@[i]) {
                series@[i]
            } else {
                POS_ZERO
            }),
{
    let mut r: Vec<u64> = Vec::new();
    for i in 0..series.len()
        invariant
            r@.len() == i,
            forall|j: int|
                0 <= j < i ==> r@[j] == (if is_finite_bits(series@[j]) {
                    series@[j]
                } else {
                    POS_ZERO
                }),
    {
        let b = series[i];
        if is_finite_val(b) {
            r.push(b);
        } else {
            r.push(POS_ZERO);
        }
    }
    r
}

/// Keeps only the finite residuals of a detrended series, in order; the
/// dispersion score is computed over these alone.
pub fn retain_finite(series: &Vec<u64>) -> (r: Vec<u64>)
    ensures
        r@ == series@.filter(finite_pred()),
{
    let mut r: Vec<u64> = Vec::new();
    for i in 0..series.len()
        invariant
            r@ == series@.subrange(0, i as int).filter(finite_pred()),
    {
        let b = series[i];
        if is_finite_val(b) {
            r.push(b);
        }
        proof {
            assert(series@.subrange(0, i + 1) =~= series@.subrange(0, i as int).push(
                series@[i as int],
            ));
            lemma_filter_push_local(series@.subrange(0, i as int), finite_pred(), series@[i as int]);
        }
    }
    proof {
        assert(series@.subrange(0, series@.len() as int) =~= series@);
    }
    r
}

/// The noise score of a station: the dispersion of its detrended residuals,
/// or zero by convention when no finite residual is left.  The zero is
/// deliberate in place of propagating not-a-number into the threshold; note
/// that a scoreless station can thereby lower the core-station median.
pub fn noise_score(detrended: &Vec<u64>, dispersion: u64) -> (r: u64)
    ensures
        r == (if detrended@.len() == 0 {
            POS_ZERO
        } else {
            dispersion
        }),
{
    if detrended.len() == 0 {
        POS_ZERO
    } else {
        dispersion
    }
}

/// Validates the caller-chosen reference antenna index against the antenna
/// axis; an index outside the axis is an unknown reference antenna.
pub fn check_reference_antenna(reference: usize, n_antennas: usize) -> (r: Result<(), SolError>)
    ensures
        match r {
            Ok(_) => reference < n_antennas,
            Err(e) => reference >= n_antennas && e == SolError::InvalidArgument,
        },
{
    if reference < n_antennas {
        Ok(())
    } else {
        Err(SolError::InvalidArgument)
    }
}

/// Outcome of a flagging pass: the rebuilt tables and the flag statistics.
pub struct FlagOutcome {
    /// The values table: bit-identical to the input unless blanking was
    /// requested, in which case flagged cells hold not-a-number.
    pub values: Vec<Vec<Vec<Vec<u64>>>>,
    /// The weights table: zero at every flagged cell.
    pub weights: Vec<Vec<Vec<Vec<u64>>>>,
    /// Zero-weight cells of the input table.
    pub flagged_before: u64,
    /// Zero-weight cells of the rebuilt table.
    pub flagged_after: u64,
    /// Total cells of the table.
    pub total_cells: u64,
}

/// One flagging pass over a solution table.
///
/// `classes` holds the class of each antenna (one entry per antenna of the
/// table); `scores` holds, per antenna, channel and time chunk, the circular
/// dispersion of the reference-differenced polarisation phase difference
/// over that chunk; `threshold` is the decision boundary (the core-station
/// median score scaled by the caller's sigma factor).  The weights are
/// zeroed at every flagged cell; the values are blanked to not-a-number at
/// the same cells only when `blank` is set, and returned bit-identical
/// otherwise.  Shapes are validated first: nothing is produced from a
/// mismatched table.
pub fn flag_solutions(
    values: &Vec<Vec<Vec<Vec<u64>>>>,
    weights: &Vec<Vec<Vec<Vec<u64>>>>,
    classes: &Vec<StationClass>,
    scores: &Vec<Vec<Vec<u64>>>,
    threshold: u64,
    blank: bool,
    nt: usize,
    nf: usize,
    np: usize,
) -> (r: Result<FlagOutcome, SolError>)
    requires
        nt * nf * classes@.len() * np <= u64::MAX,
    ensures
        ({
            let na = classes@.len() as int;
            let shapes_ok = table_wf(values@, nt as int, nf as int, na, np as int) && table_wf(
                weights@,
                nt as int,
                nf as int,
                na,
                np as int,
            ) && scores_wf(scores@, na, nf as int, spec_chunk_count(nt as int));
            match r {
                Ok(out) => {
                    &&& shapes_ok
                    &&& table_wf(out.values@, nt as int, nf as int, na, np as int)
                    &&& table_wf(out.weights@, nt as int, nf as int, na, np as int)
                    &&& forall|t: int, f: int, a: int, p: int|
                        0 <= t < nt && 0 <= f < nf && 0 <= a < na && 0 <= p < np ==> (
                        #[trigger] out.weights@[t]@[f]@[a]@[p]) == spec_masked_cell(weights@,
                        classes@, scores@, threshold, POS_ZERO, true, t, f, a, p)
                    &&& forall|t: int, f: int, a: int, p: int|
                        0 <= t < nt && 0 <= f < nf && 0 <= a < na && 0 <= p < np ==> (
                        #[trigger] out.values@[t]@[f]@[a]@[p]) == spec_masked_cell(values@,
                        classes@, scores@, threshold, QUIET_NAN, blank, t, f, a, p)
                    &&& out.flagged_before == spec_zeros_table(weights@)
                    &&& out.flagged_after == spec_zeros_table(out.weights@)
                    &&& out.total_cells == nt * nf * na * np
                },
                Err(e) => e == SolError::ShapeMismatch && !shapes_ok,
            }
        }),
{
    let na = classes.len();
    let nc = chunk_count(nt);
    let values_ok = table_has_shape(values, nt, nf, na, np);
    let weights_ok = table_has_shape(weights, nt, nf, na, np);
    let scores_ok = scores_have_shape(scores, na, nf, nc);
    if !(values_ok && weights_ok && scores_ok) {
        return Err(SolError::ShapeMismatch);
    }
    let new_weights = masked_fill(weights, classes, scores, threshold, POS_ZERO, true, nt, nf, np,
        nc);
    let new_values = masked_fill(values, classes, scores, threshold, QUIET_NAN, blank, nt, nf, np,
        nc);
    let before_counts = flagged_fraction_counts(weights, nf, na, np);
    let after_counts = flagged_fraction_counts(&new_weights, nf, na, np);
    Ok(FlagOutcome {
        values: new_values,
        weights: new_weights,
        flagged_before: before_counts.0,
        flagged_after: after_counts.0,
        total_cells: before_counts.1,
    })
}

} // verus!
