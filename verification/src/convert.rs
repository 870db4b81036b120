//! The polarisation basis converter -- the exact algebra of the three fixed
//! Jones-matrix transforms.
//!
//! At every (time, frequency, antenna, direction) coordinate the converter
//! reconstructs four complex gains from amplitude/phase pairs, applies one
//! fixed linear transform, and decomposes the results back into amplitude
//! and phase.  The reconstruction and decomposition are transcendental
//! floating-point steps performed by the caller; the transforms themselves
//! are exact linear maps with coefficients in halves of units and of the
//! imaginary unit, and are verified here over integer-scaled complex gains.
//!
//! To stay in integers each executable transform computes *twice* the
//! physical transform; the caller halves the four results (an exact
//! floating-point step, a decrement of the exponent).  The slot order of the
//! four products is fixed per basis: circular `(rr, rl, lr, ll)`, linear
//! `(xx, xy, yx, yy)`, Stokes `(i, q, u, v)`.

use vstd::prelude::*;

use crate::SolError;

verus! {

/// The three supported basis conversions, mutually exclusive.
#[derive(Clone, Copy, Debug, PartialEq, Eq, Structural)]
pub enum ConversionMode {
    /// Circular products `(rr, rl, lr, ll)` to linear `(xx, xy, yx, yy)`.
    CircularToLinear,
    /// Linear products `(xx, xy, yx, yy)` to circular `(rr, rl, lr, ll)`.
    LinearToCircular,
    /// Circular products `(rr, rl, lr, ll)` to Stokes `(i, q, u, v)`.
    CircularToStokes,
}

/// Selects the conversion mode from the three caller switches.  Exactly one
/// switch must be set; none, or more than one, is an invalid argument.
pub fn select_mode(lin2circ: bool, circ2lin: bool, circ2stokes: bool) -> (r: Result<
    ConversionMode,
    SolError,
>)
    ensures
        match r {
            Ok(m) => {
                &&& lin2circ ==> m == ConversionMode::LinearToCircular
                &&& circ2lin ==> m == ConversionMode::CircularToLinear
                &&& circ2stokes ==> m == ConversionMode::CircularToStokes
                &&& (lin2circ && !circ2lin && !circ2stokes) || (!lin2circ && circ2lin
                    && !circ2stokes) || (!lin2circ && !circ2lin && circ2stokes)
            },
            Err(e) => {
                &&& e == SolError::InvalidArgument
                &&& !((lin2circ && !circ2lin && !circ2stokes) || (!lin2circ && circ2lin
                    && !circ2stokes) || (!lin2circ && !circ2lin && circ2stokes))
            },
        },
{
    if lin2circ && !circ2lin && !circ2stokes {
        Ok(ConversionMode::LinearToCircular)
    } else if !lin2circ && circ2lin && !circ2stokes {
        Ok(ConversionMode::CircularToLinear)
    } else if !lin2circ && !circ2lin && circ2stokes {
        Ok(ConversionMode::CircularToStokes)
    } else {
        Err(SolError::InvalidArgument)
    }
}

/// A complex gain with integer-scaled real and imaginary parts.
#[derive(Clone, Copy, Debug, PartialEq, Eq, Structural)]
pub struct ComplexGain {
    pub re: i64,
    pub im: i64,
}

/// Four complex gains, one per polarisation product, in the basis slot order.
#[derive(Clone, Copy, Debug, PartialEq, Eq, Structural)]
pub struct GainQuad {
    pub g0: ComplexGain,
    pub g1: ComplexGain,
    pub g2: ComplexGain,
    pub g3: ComplexGain,
}

/// A complex number with unbounded integer parts, the model of a gain.
pub struct SpecComplex {
    pub re: int,
    pub im: int,
}

/// The model of a gain quad.
pub struct SpecQuad {
    pub g0: SpecComplex,
    pub g1: SpecComplex,
    pub g2: SpecComplex,
    pub g3: SpecComplex,
}

/// The model of an executable gain.
pub open spec fn spec_of_gain(g: ComplexGain) -> SpecComplex {
    SpecComplex { re: g.re as int, im: g.im as int }
}

/// The model of an executable quad.
pub open spec fn spec_of_quad(q: GainQuad) -> SpecQuad {
    SpecQuad {
        g0: spec_of_gain(q.g0),
        g1: spec_of_gain(q.g1),
        g2: spec_of_gain(q.g2),
        g3: spec_of_gain(q.g3),
    }
}

/// Complex sum.
pub open spec fn c_sum(x: SpecComplex, y: SpecComplex) -> SpecComplex {
    SpecComplex { re: x.re + y.re, im: x.im + y.im }
}

/// Complex difference.
pub open spec fn c_diff(x: SpecComplex, y: SpecComplex) -> SpecComplex {
    SpecComplex { re: x.re - y.re, im: x.im - y.im }
}

/// Multiplication by the imaginary unit: `i * (re + i im) = -im + i re`.
pub open spec fn c_times_i(x: SpecComplex) -> SpecComplex {
    SpecComplex { re: -x.im, im: x.re }
}

/// Multiplication by the negated imaginary unit: `-i * (re + i im) = im - i re`.
pub open spec fn c_times_neg_i(x: SpecComplex) -> SpecComplex {
    SpecComplex { re: x.im, im: -x.re }
}

/// Scaling by an integer.
pub open spec fn c_scaled(x: SpecComplex, s: int) -> SpecComplex {
    SpecComplex { re: s * x.re, im: s * x.im }
}

/// Scaling a quad by an integer.
pub open spec fn spec_quad_scaled(q: SpecQuad, s: int) -> SpecQuad {
    SpecQuad {
        g0: c_scaled(q.g0, s),
        g1: c_scaled(q.g1, s),
        g2: c_scaled(q.g2, s),
        g3: c_scaled(q.g3, s),
    }
}

/// Twice the circular-to-linear transform:
/// `2 g_xx = g_rr + g_rl + g_lr + g_ll`,
/// `2 g_xy = i (g_rr - g_rl + g_lr - g_ll)`,
/// `2 g_yx = -i (g_rr + g_rl - g_lr - g_ll)`,
/// `2 g_yy = g_rr - g_rl - g_lr + g_ll`.
pub open spec fn spec_circ_to_lin_twice(q: SpecQuad) -> SpecQuad {
    SpecQuad {
        g0: c_sum(c_sum(q.g0, q.g1), c_sum(q.g2, q.g3)),
        g1: c_times_i(c_sum(c_diff(q.g0, q.g1), c_diff(q.g2, q.g3))),
        g2: c_times_neg_i(c_diff(c_sum(q.g0, q.g1), c_sum(q.g2, q.g3))),
        g3: c_sum(c_diff(q.g0, q.g1), c_diff(q.g3, q.g2)),
    }
}

/// Twice the linear-to-circular transform:
/// `2 g_rr = g_xx - i g_xy + i g_yx + g_yy`,
/// `2 g_rl = g_xx + i g_xy + i g_yx - g_yy`,
/// `2 g_lr = g_xx - i g_xy - i g_yx - g_yy`,
/// `2 g_ll = g_xx + i g_xy - i g_yx + g_yy`.
pub open spec fn spec_lin_to_circ_twice(q: SpecQuad) -> SpecQuad {
    SpecQuad {
        g0: c_sum(c_diff(q.g0, c_times_i(q.g1)), c_sum(c_times_i(q.g2), q.g3)),
        g1: c_diff(c_sum(q.g0, c_times_i(q.g1)), c_diff(q.g3, c_times_i(q.g2))),
        g2: c_diff(c_diff(q.g0, c_times_i(q.g1)), c_sum(c_times_i(q.g2), q.g3)),
        g3: c_sum(c_sum(q.g0, c_times_i(q.g1)), c_diff(q.g3, c_times_i(q.g2))),
    }
}

/// Twice the circular-to-Stokes decomposition:
/// `2 g_i = g_rr + g_ll`, `2 g_q = g_rl + g_lr`,
/// `2 g_u = -i (g_rl - g_lr)`, `2 g_v = g_rr - g_ll`.
pub open spec fn spec_circ_to_stokes_twice(q: SpecQuad) -> SpecQuad {
    SpecQuad {
        g0: c_sum(q.g0, q.g3),
        g1: c_sum(q.g1, q.g2),
        g2: c_times_neg_i(c_diff(q.g1, q.g2)),
        g3: c_diff(q.g0, q.g3),
    }
}

/// Law: the linear/circular transforms are mutually inverse.  Composing the
/// two doubled transforms, in either order, scales every gain by exactly
/// four (twice two), so the physical transforms compose to the identity and
/// a round trip reproduces the gains exactly in the algebra; floating-point
/// reconstruction and decomposition around it introduce only rounding.
pub proof fn lemma_polarization_round_trip(q: SpecQuad)
    ensures
        spec_circ_to_lin_twice(spec_lin_to_circ_twice(q)) == spec_quad_scaled(q, 4),
        spec_lin_to_circ_twice(spec_circ_to_lin_twice(q)) == spec_quad_scaled(q, 4),
{
}

/// Twice the circular-to-linear transform, exactly, on integer-scaled gains.
pub fn circular_to_linear_twice(q: &GainQuad) -> (r: GainQuad)
    requires
        quad_bounded(*q, GAIN_COMPONENT_LIMIT as int),
    ensures
        spec_of_quad(r) == spec_circ_to_lin_twice(spec_of_quad(*q)),
{
    let xx = ComplexGain {
        re: q.g0.re + q.g1.re + q.g2.re + q.g3.re,
        im: q.g0.im + q.g1.im + q.g2.im + q.g3.im,
    };
    let xy = ComplexGain {
        re: -(q.g0.im - q.g1.im + q.g2.im - q.g3.im),
        im: q.g0.re - q.g1.re + q.g2.re - q.g3.re,
    };
    let yx = ComplexGain {
        re: q.g0.im + q.g1.im - q.g2.im - q.g3.im,
        im: -(q.g0.re + q.g1.re - q.g2.re - q.g3.re),
    };
    let yy = ComplexGain {
        re: q.g0.re - q.g1.re - q.g2.re + q.g3.re,
        im: q.g0.im - q.g1.im - q.g2.im + q.g3.im,
    };
    GainQuad { g0: xx, g1: xy, g2: yx, g3: yy }
}

/// Twice the linear-to-circular transform, exactly, on integer-scaled gains.
pub fn linear_to_circular_twice(q: &GainQuad) -> (r: GainQuad)
    requires
        quad_bounded(*q, GAIN_COMPONENT_LIMIT as int),
    ensures
        spec_of_quad(r) == spec_lin_to_circ_twice(spec_of_quad(*q)),
{
    let rr = ComplexGain {
        re: q.g0.re + q.g1.im - q.g2.im + q.g3.re,
        im: q.g0.im - q.g1.re + q.g2.re + q.g3.im,
    };
    let rl = ComplexGain {
        re: q.g0.re - q.g1.im - q.g2.im - q.g3.re,
        im: q.g0.im + q.g1.re + q.g2.re - q.g3.im,
    };
    let lr = ComplexGain {
        re: q.g0.re + q.g1.im + q.g2.im - q.g3.re,
        im: q.g0.im - q.g1.re - q.g2.re - q.g3.im,
    };
    let ll = ComplexGain {
        re: q.g0.re - q.g1.im + q.g2.im + q.g3.re,
        im: q.g0.im + q.g1.re - q.g2.re + q.g3.im,
    };
    GainQuad { g0: rr, g1: rl, g2: lr, g3: ll }
}

/// Twice the circular-to-Stokes decomposition, exactly, on integer-scaled
/// gains.
pub fn circular_to_stokes_twice(q: &GainQuad) -> (r: GainQuad)
    requires
        quad_bounded(*q, GAIN_COMPONENT_LIMIT as int),
    ensures
        spec_of_quad(r) == spec_circ_to_stokes_twice(spec_of_quad(*q)),
{
    let si = ComplexGain { re: q.g0.re + q.g3.re, im: q.g0.im + q.g3.im };
    let sq = ComplexGain { re: q.g1.re + q.g2.re, im: q.g1.im + q.g2.im };
    let su = ComplexGain { re: q.g1.im - q.g2.im, im: -(q.g1.re - q.g2.re) };
    let sv = ComplexGain { re: q.g0.re - q.g3.re, im: q.g0.im - q.g3.im };
    GainQuad { g0: si, g1: sq, g2: su, g3: sv }
}

/// Room left for the four-term sums of the transforms: components up to
/// this magnitude cannot overflow a machine integer.
pub const GAIN_COMPONENT_LIMIT: i64 = 0x1FFF_FFFF_FFFF_FFFF;

/// Every component of the quad bounded in magnitude by `bound`.
pub open spec fn quad_bounded(q: GainQuad, bound: int) -> bool {
    &&& -bound <= q.g0.re <= bound
    &&& -bound <= q.g0.im <= bound
    &&& -bound <= q.g1.re <= bound
    &&& -bound <= q.g1.im <= bound
    &&& -bound <= q.g2.re <= bound
    &&& -bound <= q.g2.im <= bound
    &&& -bound <= q.g3.re <= bound
    &&& -bound <= q.g3.im <= bound
}

/// Applies the doubled transform of the chosen mode.
pub fn convert_quad_twice(mode: ConversionMode, q: &GainQuad) -> (r: GainQuad)
    requires
        quad_bounded(*q, GAIN_COMPONENT_LIMIT as int),
    ensures
        spec_of_quad(r) == spec_convert_twice(mode, spec_of_quad(*q)),
{
    match mode {
        ConversionMode::CircularToLinear => circular_to_linear_twice(q),
        ConversionMode::LinearToCircular => linear_to_circular_twice(q),
        ConversionMode::CircularToStokes => circular_to_stokes_twice(q),
    }
}

/// The doubled transform of the chosen mode.
pub open spec fn spec_convert_twice(mode: ConversionMode, q: SpecQuad) -> SpecQuad {
    match mode {
        ConversionMode::CircularToLinear => spec_circ_to_lin_twice(q),
        ConversionMode::LinearToCircular => spec_lin_to_circ_twice(q),
        ConversionMode::CircularToStokes => spec_circ_to_stokes_twice(q),
    }
}

} // verus!
