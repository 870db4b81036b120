use h5o3::engine::{
    check_reference_antenna, chunk_count, chunk_of, flag_solutions, flagged_fraction_counts,
    noise_score, retain_finite, sanitize_series, CHUNK_SIZE, DETREND_KERNEL,
};
use h5o3::median::{medfilt, select_median, MedianSelection};
use h5o3::stations::{classify_stations, core_station_indices};
use h5o3::SolError;
use num::complex::Complex;

const PI: f64 = std::f64::consts::PI;

/// Maps a phase into `(-pi, pi]` by the engine's convention.
fn wrap(x: f64) -> f64 {
    (x + PI).rem_euclid(2.0 * PI) - PI
}

/// The circular standard deviation of a phase series: non-finite entries are
/// skipped, the mean resultant length is clamped into [0, 1], and an empty
/// series scores zero by convention.
fn circstd(xs: &[f64]) -> f64 {
    if xs.is_empty() {
        return 0.0;
    }
    let mut m = Complex::new(0.0f64, 0.0f64);
    for &theta in xs.iter().filter(|v| v.is_finite()) {
        m += Complex::from_polar(1.0, theta);
    }
    let mut r = m.norm() / xs.len() as f64;
    if r > 1.0 {
        r = 1.0;
    }
    if r < 0.0 {
        r = 0.0;
    }
    (-2.0 * r.ln()).sqrt()
}

fn table_of(phases: &dyn Fn(usize, usize, usize, usize) -> f64, nt: usize, nf: usize, na: usize, np: usize) -> Vec<Vec<Vec<Vec<u64>>>> {
    let mut v = Vec::new();
    for t in 0..nt {
        let mut plane = Vec::new();
        for f in 0..nf {
            let mut slab = Vec::new();
            for a in 0..na {
                let mut row = Vec::new();
                for p in 0..np {
                    row.push(phases(t, f, a, p).to_bits());
                }
                slab.push(row);
            }
            plane.push(slab);
        }
        v.push(plane);
    }
    v
}

#[test]
fn chunking_covers_the_time_axis() {
    assert_eq!(CHUNK_SIZE, 8);
    assert_eq!(chunk_count(0), 0);
    assert_eq!(chunk_count(1), 1);
    assert_eq!(chunk_count(8), 1);
    assert_eq!(chunk_count(9), 2);
    assert_eq!(chunk_count(16), 2);
    assert_eq!(chunk_count(17), 3);
    assert_eq!(chunk_of(0), 0);
    assert_eq!(chunk_of(7), 0);
    assert_eq!(chunk_of(8), 1);
    assert_eq!(chunk_of(15), 1);
}

#[test]
fn reference_antenna_must_exist() {
    assert!(check_reference_antenna(0, 4).is_ok());
    assert!(check_reference_antenna(13, 14).is_ok());
    assert_eq!(check_reference_antenna(4, 4), Err(SolError::InvalidArgument));
    assert_eq!(check_reference_antenna(0, 0), Err(SolError::InvalidArgument));
}

#[test]
fn sanitize_replaces_non_finite_samples_by_zero() {
    let series: Vec<u64> =
        [1.0, f64::NAN, f64::INFINITY, -2.0].iter().map(|x| x.to_bits()).collect();
    let clean = sanitize_series(&series);
    let expected: Vec<u64> = [1.0f64, 0.0, 0.0, -2.0].iter().map(|x| x.to_bits()).collect();
    assert_eq!(clean, expected);
}

#[test]
fn retain_finite_drops_non_finite_residuals() {
    let series: Vec<u64> =
        [1.0, f64::NAN, f64::NEG_INFINITY, -2.0].iter().map(|x| x.to_bits()).collect();
    let finite = retain_finite(&series);
    let expected: Vec<u64> = [1.0f64, -2.0].iter().map(|x| x.to_bits()).collect();
    assert_eq!(finite, expected);
}

#[test]
fn empty_residual_series_scores_zero() {
    let empty: Vec<u64> = Vec::new();
    let dispersion = 5.5f64.to_bits();
    assert_eq!(noise_score(&empty, dispersion), 0.0f64.to_bits());
    let one: Vec<u64> = vec![0.25f64.to_bits()];
    assert_eq!(noise_score(&one, dispersion), dispersion);
}

#[test]
fn flagged_fraction_counts_zero_weights_of_either_sign() {
    let weights = vec![vec![vec![
        vec![1.0f64.to_bits(), 0.0f64.to_bits()],
        vec![(-0.0f64).to_bits(), f64::NAN.to_bits()],
    ]]];
    let (flagged, total) = flagged_fraction_counts(&weights, 1, 2, 2);
    assert_eq!(flagged, 2);
    assert_eq!(total, 4);
}

#[test]
fn mismatched_shapes_are_rejected() {
    let values = table_of(&|_, _, _, _| 0.0, 4, 1, 2, 2);
    let mut weights = table_of(&|_, _, _, _| 1.0, 4, 1, 2, 2);
    weights[2][0][1].pop();
    let classes = classify_stations(&vec!["CS001".to_string(), "RS101".to_string()]);
    let scores = vec![vec![vec![0.0f64.to_bits()]]; 2];
    let r = flag_solutions(&values, &weights, &classes, &scores, 0, false, 4, 1, 2);
    assert_eq!(r.err(), Some(SolError::ShapeMismatch));
}

#[test]
fn empty_time_axis_is_a_valid_table() {
    let values: Vec<Vec<Vec<Vec<u64>>>> = Vec::new();
    let weights: Vec<Vec<Vec<Vec<u64>>>> = Vec::new();
    let classes = classify_stations(&vec!["CS001".to_string()]);
    let scores = vec![vec![Vec::new(); 1]];
    let outcome =
        flag_solutions(&values, &weights, &classes, &scores, 0, true, 0, 1, 2).unwrap();
    assert!(outcome.weights.is_empty());
    assert_eq!(outcome.total_cells, 0);
    assert_eq!(outcome.flagged_before, 0);
    assert_eq!(outcome.flagged_after, 0);
}

#[test]
fn exact_chunk_division_leaves_no_empty_remainder() {
    // eight time samples make exactly one chunk; a noisy chunk flags all of
    // them and nothing fails on the absent remainder
    let names: Vec<String> = ["CS001", "RS101"].iter().map(|s| s.to_string()).collect();
    let (nt, nf, np) = (8usize, 1usize, 1usize);
    let values = table_of(&|_, _, _, _| 0.0, nt, nf, 2, np);
    let weights = table_of(&|_, _, _, _| 1.0, nt, nf, 2, np);
    let classes = classify_stations(&names);
    assert_eq!(chunk_count(nt), 1);
    let scores = vec![vec![vec![0.0f64.to_bits()]], vec![vec![2.0f64.to_bits()]]];
    let outcome =
        flag_solutions(&values, &weights, &classes, &scores, 1.0f64.to_bits(), false, nt, nf, np)
            .unwrap();
    for t in 0..nt {
        assert_eq!(outcome.weights[t][0][1][0], 0.0f64.to_bits());
        assert_eq!(outcome.weights[t][0][0][0], 1.0f64.to_bits());
    }
    assert_eq!(outcome.flagged_after, nt as u64);
}

#[test]
fn scenario_noisy_remote_station_is_flagged_international_is_not() {
    // Four antennas: two core, one remote with alternating 0/pi phase (pure
    // noise at the chunk scale), one international.  Sixteen time samples,
    // one channel, two polarisations.  Reference station CS001, sigma 3.
    let names: Vec<String> = ["CS001", "CS002", "RS101", "DE601"]
        .iter()
        .map(|s| s.to_string())
        .collect();
    let (nt, nf, na, np) = (16usize, 1usize, 4usize, 2usize);
    let reference = 0usize;
    let sigma = 3.0f64;

    let phase = |t: usize, _f: usize, a: usize, p: usize| -> f64 {
        if a == 2 && p == 0 {
            PI * ((t % 2) as f64)
        } else {
            0.0
        }
    };
    let values = table_of(&phase, nt, nf, na, np);
    let weights = table_of(&|_, _, _, _| 1.0, nt, nf, na, np);
    let classes = classify_stations(&names);
    check_reference_antenna(reference, na).unwrap();

    // Reference differencing and the polarisation phase difference.
    let mut diff01 = vec![vec![vec![0.0f64; nt]; nf]; na];
    for t in 0..nt {
        for f in 0..nf {
            for a in 0..na {
                let d0 = phase(t, f, a, 0) - phase(t, f, reference, 0);
                let d1 = phase(t, f, a, 1) - phase(t, f, reference, 1);
                diff01[a][f][t] = wrap(d0 - d1);
            }
        }
    }

    // Core-station noise scores over the first channel, through the
    // detrending pipeline.
    let cores = core_station_indices(&classes);
    assert_eq!(cores, vec![0, 1]);
    let mut core_scores: Vec<u64> = Vec::new();
    for &a in cores.iter() {
        let series: Vec<u64> = (0..nt).map(|t| diff01[a][0][t].to_bits()).collect();
        let clean = sanitize_series(&series);
        let trend = medfilt(&clean, DETREND_KERNEL).unwrap();
        let residual: Vec<u64> = clean
            .iter()
            .zip(trend.iter())
            .map(|(c, m)| (f64::from_bits(*c) - f64::from_bits(*m)).to_bits())
            .collect();
        let finite = retain_finite(&residual);
        let floats: Vec<f64> = finite.iter().map(|b| f64::from_bits(*b)).collect();
        let dispersion = circstd(&floats).to_bits();
        core_scores.push(noise_score(&finite, dispersion));
    }
    let median = match select_median(&core_scores) {
        MedianSelection::Empty => 0.0,
        MedianSelection::Single(b) => f64::from_bits(b),
        MedianSelection::Between(x, y) => (f64::from_bits(x) + f64::from_bits(y)) / 2.0,
    };
    assert_eq!(median, 0.0);
    let threshold = (sigma * median).to_bits();

    // Per-chunk dispersion scores for every antenna and channel.
    let nc = chunk_count(nt);
    let mut scores: Vec<Vec<Vec<u64>>> = vec![vec![Vec::new(); nf]; na];
    for a in 0..na {
        for f in 0..nf {
            for chunk in 0..nc {
                let start = chunk * CHUNK_SIZE;
                let end = (start + CHUNK_SIZE).min(nt);
                scores[a][f].push(circstd(&diff01[a][f][start..end]).to_bits());
            }
        }
    }

    let outcome =
        flag_solutions(&values, &weights, &classes, &scores, threshold, false, nt, nf, np)
            .unwrap();

    let one = 1.0f64.to_bits();
    let zero = 0.0f64.to_bits();
    for t in 0..nt {
        for p in 0..np {
            // every weight cell of RS101 is flagged
            assert_eq!(outcome.weights[t][0][2][p], zero);
            // the international station DE601 is never evaluated
            assert_eq!(outcome.weights[t][0][3][p], one);
            // the quiet core stations keep their weights
            assert_eq!(outcome.weights[t][0][0][p], one);
            assert_eq!(outcome.weights[t][0][1][p], one);
        }
    }
    // with blanking off the values table is bit-identical to the input
    assert_eq!(outcome.values, values);
    assert_eq!(outcome.flagged_before, 0);
    assert_eq!(outcome.flagged_after, (nt * np) as u64);
    assert_eq!(outcome.total_cells, (nt * nf * na * np) as u64);
}

#[test]
fn blanking_writes_nan_into_flagged_values_only() {
    let names: Vec<String> = ["CS001", "RS101"].iter().map(|s| s.to_string()).collect();
    let (nt, nf, na, np) = (8usize, 1usize, 2usize, 2usize);
    let values = table_of(&|t, _, a, _| (t + 10 * a) as f64, nt, nf, na, np);
    let weights = table_of(&|_, _, _, _| 1.0, nt, nf, na, np);
    let classes = classify_stations(&names);
    // one chunk; the remote station's score lies above the threshold
    let scores = vec![
        vec![vec![0.1f64.to_bits()]],
        vec![vec![5.0f64.to_bits()]],
    ];
    let threshold = 1.0f64.to_bits();
    let outcome =
        flag_solutions(&values, &weights, &classes, &scores, threshold, true, nt, nf, np)
            .unwrap();
    for t in 0..nt {
        for p in 0..np {
            assert!(f64::from_bits(outcome.values[t][0][1][p]).is_nan());
            assert_eq!(outcome.weights[t][0][1][p], 0.0f64.to_bits());
            assert_eq!(outcome.values[t][0][0][p], values[t][0][0][p]);
            assert_eq!(outcome.weights[t][0][0][p], 1.0f64.to_bits());
        }
    }
    assert_eq!(outcome.flagged_after, (nt * np) as u64);
}

#[test]
fn raising_sigma_never_flags_new_cells() {
    let names: Vec<String> =
        ["CS001", "CS002", "RS101"].iter().map(|s| s.to_string()).collect();
    let (nt, nf, na, np) = (10usize, 2usize, 3usize, 2usize);
    let values = table_of(&|_, _, _, _| 0.0, nt, nf, na, np);
    let weights = table_of(&|_, _, _, _| 1.0, nt, nf, na, np);
    let classes = classify_stations(&names);
    let nc = chunk_count(nt);
    assert_eq!(nc, 2);
    let score_table = [
        [[0.5f64, 2.5], [1.5, 0.2]],
        [[3.0, 0.1], [f64::NAN, 1.2]],
        [[1.1, 9.0], [0.0, 2.1]],
    ];
    let mut scores: Vec<Vec<Vec<u64>>> = Vec::new();
    for a in 0..na {
        let mut per_channel = Vec::new();
        for f in 0..nf {
            per_channel.push(score_table[a][f].iter().map(|x| x.to_bits()).collect());
        }
        scores.push(per_channel);
    }
    let low = 1.0f64.to_bits();
    let high = 2.0f64.to_bits();
    let at_low =
        flag_solutions(&values, &weights, &classes, &scores, low, false, nt, nf, np).unwrap();
    let at_high =
        flag_solutions(&values, &weights, &classes, &scores, high, false, nt, nf, np).unwrap();
    let zero = 0.0f64.to_bits();
    let mut low_flags = 0usize;
    let mut high_flags = 0usize;
    for t in 0..nt {
        for f in 0..nf {
            for a in 0..na {
                for p in 0..np {
                    if at_high.weights[t][f][a][p] == zero {
                        high_flags += 1;
                        // flagged at the higher threshold: must be flagged at the lower
                        assert_eq!(at_low.weights[t][f][a][p], zero);
                    }
                    if at_low.weights[t][f][a][p] == zero {
                        low_flags += 1;
                    }
                }
            }
        }
    }
    assert!(high_flags > 0);
    assert!(low_flags > high_flags);
}
