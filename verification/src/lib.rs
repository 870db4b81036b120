//! Verified core of a calibration-solution post-processing library for
//! radio-interferometer gain tables.
//!
//! Solution tables hold 64-bit floating-point samples.  Inside this crate a
//! sample is carried as its IEEE 754 binary64 *bit pattern* (`u64`): every
//! decision the library makes about a sample -- classification, ordering,
//! median selection, flagging -- is a pure function of the bits and is
//! verified exactly.  Transcendental arithmetic (complex exponentials,
//! logarithms) cannot be expressed here and is performed by the caller, which
//! hands the resulting bit patterns back to the verified engine.

use vstd::prelude::*;

pub mod convert;
pub mod engine;
pub mod fbits;
pub mod median;
pub mod meta;
pub mod stations;

pub use meta::SolTabKind;

verus! {

/// Fatal error conditions raised at a call boundary, before any mutation.
///
/// Degenerate numeric conditions (an empty detrended series, an all-blank
/// window) are not errors: the engine recovers from them locally by defined
/// conventions (see [`engine::noise_score`] and [`median::medfilt`]), and a
/// missing metadata axis is recovered by substituting a one-element default
/// (see [`meta::axis_or_default`]).
#[derive(Clone, Copy, Debug, PartialEq, Eq, Structural)]
pub enum SolError {
    /// Axis lengths are inconsistent between values, weights and metadata.
    ShapeMismatch,
    /// A caller-supplied parameter is unusable: an even median-filter kernel,
    /// an unknown reference antenna, or an unsupported conversion mode.
    InvalidArgument,
}

} // verus!
