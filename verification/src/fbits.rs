//! The bit-pattern model of IEEE 754 binary64 samples.
//!
//! A sample is a `u64` holding the bits of a 64-bit floating-point value:
//! sign (bit 63), exponent (bits 52..63) and fraction (bits 0..52).  The
//! predicates and orders below are pure functions of the bits.
//!
//! Two orders are defined:
//!
//! * the *value order* `f_le`/`f_lt`/`f_gt`/`f_eq`, the usual partial
//!   comparison of floating-point values: every comparison involving a
//!   not-a-number pattern is false, the two zeros compare equal, and all
//!   other values compare by signed magnitude;
//! * the *sort order* `bits_leq`, the total order used for median selection.
//!   It refines the value order with a fixed documented rule for the values
//!   the partial order leaves unordered: patterns are compared by the signed
//!   magnitude key, with the raw bit pattern as tie-breaker.  Consequently
//!   every positive not-a-number pattern sorts above positive infinity (and
//!   so above every finite value) and every negative one below negative
//!   infinity.

use vstd::prelude::*;
use vstd::relations::total_ordering;

verus! {

/// Bit pattern of +0.0, also the padding sample of the windowed median filter.
pub const POS_ZERO: u64 = 0;

/// Bit pattern of -0.0.
pub const NEG_ZERO: u64 = 0x8000_0000_0000_0000;

/// The canonical quiet not-a-number pattern, written when a flagged cell is blanked.
pub const QUIET_NAN: u64 = 0x7FF8_0000_0000_0000;

/// Mask selecting everything but the sign bit.
pub const MAGNITUDE_MASK: u64 = 0x7FFF_FFFF_FFFF_FFFF;

/// Magnitude of an infinity; larger magnitudes are not-a-number patterns.
pub const INFINITY_MAGNITUDE: u64 = 0x7FF0_0000_0000_0000;

/// The sign-less part of the pattern: exponent and fraction bits.
pub open spec fn magnitude_of(b: u64) -> u64 {
    b & MAGNITUDE_MASK
}

/// True when the sign bit is set.
pub open spec fn sign_negative(b: u64) -> bool {
    (b >> 63) == 1
}

/// A not-a-number pattern: maximal exponent with a non-zero fraction.
pub open spec fn is_nan_bits(b: u64) -> bool {
    magnitude_of(b) > INFINITY_MAGNITUDE
}

/// A finite value: zero, subnormal or normal (not infinite, not not-a-number).
pub open spec fn is_finite_bits(b: u64) -> bool {
    magnitude_of(b) < INFINITY_MAGNITUDE
}

/// A zero of either sign.
pub open spec fn is_zero_bits(b: u64) -> bool {
    magnitude_of(b) == 0
}

/// The signed-magnitude key: it orders all non-not-a-number patterns exactly
/// as their floating-point values, with both zeros mapping to key 0.
pub open spec fn f_key(b: u64) -> int {
    if sign_negative(b) {
        -(magnitude_of(b) as int)
    } else {
        magnitude_of(b) as int
    }
}

/// Value order `a <= b`: false whenever either side is a not-a-number pattern.
pub open spec fn f_le(a: u64, b: u64) -> bool {
    !is_nan_bits(a) && !is_nan_bits(b) && f_key(a) <= f_key(b)
}

/// Value order `a < b`: false whenever either side is a not-a-number pattern.
pub open spec fn f_lt(a: u64, b: u64) -> bool {
    !is_nan_bits(a) && !is_nan_bits(b) && f_key(a) < f_key(b)
}

/// Value order `a > b`.
pub open spec fn f_gt(a: u64, b: u64) -> bool {
    f_lt(b, a)
}

/// Value equality: equal keys, neither side a not-a-number pattern.
/// The two zeros are equal under this relation.
pub open spec fn f_eq(a: u64, b: u64) -> bool {
    !is_nan_bits(a) && !is_nan_bits(b) && f_key(a) == f_key(b)
}

/// The total sort order on bit patterns: by key, then by raw pattern.
pub open spec fn bits_leq(a: u64, b: u64) -> bool {
    f_key(a) < f_key(b) || (f_key(a) == f_key(b) && a <= b)
}

/// The sort order as a relation value, for `Seq::sort_by`.
pub open spec fn bits_order() -> spec_fn(u64, u64) -> bool {
    |a: u64, b: u64| bits_leq(a, b)
}

/// The sort order is a total order, as `Seq::sort_by` requires.
pub proof fn lemma_bits_order_total()
    ensures
        total_ordering(bits_order()),
{
    let r = bits_order();
    assert forall|x: u64| #[trigger] r(x, x) by {}
    assert forall|x: u64, y: u64| #[trigger] r(x, y) && #[trigger] r(y, x) implies x == y by {}
    assert forall|x: u64, y: u64, z: u64| #[trigger] r(x, y) && #[trigger] r(y, z) implies r(
        x,
        z,
    ) by {}
    assert forall|x: u64, y: u64| #[trigger] r(x, y) || #[trigger] r(y, x) by {}
}

/// The documented guarantee of the sort order: it agrees with the value
/// order wherever the latter speaks.  On patterns that are not not-a-number,
/// `bits_leq` never contradicts `f_le`, so median selection under the sort
/// order is an order statistic of the floating-point values whenever the
/// data is free of not-a-number samples.
pub proof fn lemma_bits_order_refines_value_order(a: u64, b: u64)
    requires
        !is_nan_bits(a),
        !is_nan_bits(b),
    ensures
        f_le(a, b) ==> bits_leq(a, b) || f_eq(a, b),
        bits_leq(a, b) ==> f_le(a, b),
{
}

/// Raising the threshold can only shrink the set of samples above it:
/// a sample strictly above the higher of two comparable thresholds is
/// strictly above the lower one.
pub proof fn lemma_gt_threshold_monotone(s: u64, lo: u64, hi: u64)
    requires
        f_le(lo, hi),
        f_gt(s, hi),
    ensures
        f_gt(s, lo),
{
}

/// Concrete facts about the zero patterns, fixed here once from the bit
/// arithmetic so that callers reason about keys alone.
pub proof fn lemma_zero_pattern_facts()
    ensures
        f_key(POS_ZERO) == 0,
        f_key(NEG_ZERO) == 0,
        !is_nan_bits(POS_ZERO),
        !is_nan_bits(NEG_ZERO),
        is_finite_bits(POS_ZERO),
        is_zero_bits(POS_ZERO),
        is_zero_bits(NEG_ZERO),
{
    assert(0u64 & 0x7FFF_FFFF_FFFF_FFFFu64 == 0u64) by (bit_vector);
    assert((0u64 >> 63) == 0u64) by (bit_vector);
    assert(0x8000_0000_0000_0000u64 & 0x7FFF_FFFF_FFFF_FFFFu64 == 0u64) by (bit_vector);
    assert((0x8000_0000_0000_0000u64 >> 63) == 1u64) by (bit_vector);
}

/// A pattern whose key is zero is one of the two zeros.
pub proof fn lemma_key_zero_is_zero(b: u64)
    requires
        f_key(b) == 0,
    ensures
        b == POS_ZERO || b == NEG_ZERO,
{
    assert(magnitude_of(b) == 0);
    assert((b & 0x7FFF_FFFF_FFFF_FFFFu64 == 0) ==> (b == 0u64 || b
        == 0x8000_0000_0000_0000u64)) by (bit_vector);
}

/// True when the pattern holds a finite value.
pub fn is_finite_val(b: u64) -> (r: bool)
    ensures
        r == is_finite_bits(b),
{
    (b & MAGNITUDE_MASK) < INFINITY_MAGNITUDE
}

/// True when the pattern is a not-a-number.
pub fn is_nan_val(b: u64) -> (r: bool)
    ensures
        r == is_nan_bits(b),
{
    (b & MAGNITUDE_MASK) > INFINITY_MAGNITUDE
}

/// True when the pattern is a zero of either sign.
pub fn is_zero_val(b: u64) -> (r: bool)
    ensures
        r == is_zero_bits(b),
{
    (b & MAGNITUDE_MASK) == 0
}

/// The signed-magnitude key as a machine integer.
pub fn key_val(b: u64) -> (k: i64)
    ensures
        k == f_key(b),
{
    let m = b & MAGNITUDE_MASK;
    proof {
        assert(b & 0x7FFF_FFFF_FFFF_FFFFu64 <= 0x7FFF_FFFF_FFFF_FFFFu64) by (bit_vector);
    }
    if (b >> 63) == 1 {
        -(m as i64)
    } else {
        m as i64
    }
}

/// Value-order comparison `a <= b` on bit patterns.
pub fn le_float(a: u64, b: u64) -> (r: bool)
    ensures
        r == f_le(a, b),
{
    if is_nan_val(a) || is_nan_val(b) {
        false
    } else {
        key_val(a) <= key_val(b)
    }
}

/// Value-order comparison `a < b` on bit patterns.
pub fn lt_float(a: u64, b: u64) -> (r: bool)
    ensures
        r == f_lt(a, b),
{
    if is_nan_val(a) || is_nan_val(b) {
        false
    } else {
        key_val(a) < key_val(b)
    }
}

/// Value-order comparison `a > b` on bit patterns; this is the comparison
/// that decides whether a noise score exceeds the flagging threshold.
pub fn gt_float(a: u64, b: u64) -> (r: bool)
    ensures
        r == f_gt(a, b),
{
    if is_nan_val(a) || is_nan_val(b) {
        false
    } else {
        key_val(a) > key_val(b)
    }
}

/// Sort-order comparison on bit patterns.
pub fn leq_bits(a: u64, b: u64) -> (r: bool)
    ensures
        r == bits_leq(a, b),
{
    let ka = key_val(a);
    let kb = key_val(b);
    ka < kb || (ka == kb && a <= b)
}

} // verus!
