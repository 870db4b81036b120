use h5o3::convert::{
    circular_to_linear_twice, circular_to_stokes_twice, convert_quad_twice,
    linear_to_circular_twice, select_mode, ComplexGain, ConversionMode, GainQuad,
};
use h5o3::SolError;

fn quad(parts: [(i64, i64); 4]) -> GainQuad {
    GainQuad {
        g0: ComplexGain { re: parts[0].0, im: parts[0].1 },
        g1: ComplexGain { re: parts[1].0, im: parts[1].1 },
        g2: ComplexGain { re: parts[2].0, im: parts[2].1 },
        g3: ComplexGain { re: parts[3].0, im: parts[3].1 },
    }
}

fn parts(q: &GainQuad) -> [(i64, i64); 4] {
    [
        (q.g0.re, q.g0.im),
        (q.g1.re, q.g1.im),
        (q.g2.re, q.g2.im),
        (q.g3.re, q.g3.im),
    ]
}

#[test]
fn mode_selection_requires_exactly_one_switch() {
    assert_eq!(select_mode(true, false, false), Ok(ConversionMode::LinearToCircular));
    assert_eq!(select_mode(false, true, false), Ok(ConversionMode::CircularToLinear));
    assert_eq!(select_mode(false, false, true), Ok(ConversionMode::CircularToStokes));
    assert_eq!(select_mode(false, false, false), Err(SolError::InvalidArgument));
    assert_eq!(select_mode(true, true, false), Err(SolError::InvalidArgument));
    assert_eq!(select_mode(true, true, true), Err(SolError::InvalidArgument));
}

#[test]
fn scenario_unpolarized_identity_gain_maps_to_linear_identity() {
    // g_rr = g_ll = 1 at phase 0, g_rl = g_lr = 0; the transforms are
    // computed doubled, so the gains enter as themselves and leave as twice
    // the linear gains: g_xx = g_yy = 1, g_xy = g_yx = 0.
    let circular = quad([(1, 0), (0, 0), (0, 0), (1, 0)]);
    let doubled_linear = circular_to_linear_twice(&circular);
    assert_eq!(parts(&doubled_linear), [(2, 0), (0, 0), (0, 0), (2, 0)]);
}

#[test]
fn circular_to_linear_mixes_crosshands_through_the_imaginary_unit() {
    // g_rl = 1 alone: 2 g_xx = 1, 2 g_xy = -i, 2 g_yx = -i, 2 g_yy = -1.
    let circular = quad([(0, 0), (1, 0), (0, 0), (0, 0)]);
    let doubled_linear = circular_to_linear_twice(&circular);
    assert_eq!(parts(&doubled_linear), [(1, 0), (0, -1), (0, -1), (-1, 0)]);
}

#[test]
fn linear_to_circular_of_identity() {
    // g_xx = g_yy = 1: 2 g_rr = 2, 2 g_ll = 2, crosshands vanish.
    let linear = quad([(1, 0), (0, 0), (0, 0), (1, 0)]);
    let doubled_circular = linear_to_circular_twice(&linear);
    assert_eq!(parts(&doubled_circular), [(2, 0), (0, 0), (0, 0), (2, 0)]);
}

#[test]
fn circular_to_stokes_of_identity_is_pure_intensity() {
    // g_rr = g_ll = 1: 2 g_i = 2 and q, u, v vanish.
    let circular = quad([(1, 0), (0, 0), (0, 0), (1, 0)]);
    let doubled_stokes = circular_to_stokes_twice(&circular);
    assert_eq!(parts(&doubled_stokes), [(2, 0), (0, 0), (0, 0), (0, 0)]);
}

#[test]
fn circular_to_stokes_separates_the_crosshands() {
    // g_rl = (0, 1), g_lr = (0, -1): 2 g_q = 0, 2 g_u = -i (g_rl - g_lr)
    // = -i * (0, 2) = (2, 0).
    let circular = quad([(0, 0), (0, 1), (0, -1), (0, 0)]);
    let doubled_stokes = circular_to_stokes_twice(&circular);
    assert_eq!(parts(&doubled_stokes), [(0, 0), (0, 0), (2, 0), (0, 0)]);
}

#[test]
fn linear_circular_round_trip_scales_by_four() {
    // Composing the two doubled transforms scales every gain by exactly
    // four, so the physical transforms are mutually inverse.
    let samples = [
        quad([(3, -1), (0, 5), (-7, 2), (4, 4)]),
        quad([(1, 0), (0, 0), (0, 0), (1, 0)]),
        quad([(0, 1), (2, -3), (5, 8), (-13, 21)]),
        quad([(1000000007, -999999937), (12345, -54321), (1, 1), (0, -1)]),
    ];
    for q in samples.iter() {
        let there = linear_to_circular_twice(q);
        let back = circular_to_linear_twice(&there);
        let original = parts(q);
        let returned = parts(&back);
        for slot in 0..4 {
            assert_eq!(returned[slot].0, 4 * original[slot].0);
            assert_eq!(returned[slot].1, 4 * original[slot].1);
        }
        let there = circular_to_linear_twice(q);
        let back = linear_to_circular_twice(&there);
        let returned = parts(&back);
        for slot in 0..4 {
            assert_eq!(returned[slot].0, 4 * original[slot].0);
            assert_eq!(returned[slot].1, 4 * original[slot].1);
        }
    }
}

#[test]
fn round_trip_reproduces_amplitude_and_phase_within_tolerance() {
    // The float pipeline around the exact algebra: reconstruct gains from
    // amplitude and phase, run linear -> circular -> linear with the
    // conventional halving after each doubled transform, and decompose.
    // Non-degenerate inputs come back within 1e-9 relative tolerance.
    let amplitudes = [1.0f64, 0.5, 2.25, 0.75];
    let phases = [0.3f64, -1.2, 2.9, 0.0];
    // scale to integers exactly representable in the doubled algebra
    let scale = 1i64 << 40;
    let as_int = |x: f64| -> i64 { (x * scale as f64).round() as i64 };
    let mut gains = [(0i64, 0i64); 4];
    for slot in 0..4 {
        let re = amplitudes[slot] * phases[slot].cos();
        let im = amplitudes[slot] * phases[slot].sin();
        gains[slot] = (as_int(re), as_int(im));
    }
    let q = quad(gains);
    let there = linear_to_circular_twice(&q);
    let back = circular_to_linear_twice(&there);
    let returned = parts(&back);
    for slot in 0..4 {
        // halve twice: the doubled transforms were applied twice
        let re = returned[slot].0 as f64 / 4.0 / scale as f64;
        let im = returned[slot].1 as f64 / 4.0 / scale as f64;
        let amp = (re * re + im * im).sqrt();
        let phase = im.atan2(re);
        assert!((amp - amplitudes[slot]).abs() <= 1e-9 * amplitudes[slot].max(1.0));
        if amplitudes[slot] > 0.0 {
            let mut dp = (phase - phases[slot]).abs();
            if dp > std::f64::consts::PI {
                dp = 2.0 * std::f64::consts::PI - dp;
            }
            assert!(dp <= 1e-9);
        }
    }
}

#[test]
fn convert_quad_twice_dispatches_by_mode() {
    let circular = quad([(1, 0), (0, 0), (0, 0), (1, 0)]);
    assert_eq!(
        parts(&convert_quad_twice(ConversionMode::CircularToLinear, &circular)),
        parts(&circular_to_linear_twice(&circular))
    );
    assert_eq!(
        parts(&convert_quad_twice(ConversionMode::LinearToCircular, &circular)),
        parts(&linear_to_circular_twice(&circular))
    );
    assert_eq!(
        parts(&convert_quad_twice(ConversionMode::CircularToStokes, &circular)),
        parts(&circular_to_stokes_twice(&circular))
    );
}
