use bilinear_tf::exact::ambiguity_cell;
use bilinear_tf::lag::lag_window;
use bilinear_tf::phase::{analysis_phase_index, mul_mod, synthesis_phase_index};
use bilinear_tf::plan::{ambiguity_terms, synthesis_terms, CellTerm, LagTerm};

#[test]
fn lag_window_full_at_zero_lag() {
    assert_eq!(lag_window(4, 0), (0, 4));
    assert_eq!(lag_window(4, 1), (0, 4));
}

#[test]
fn lag_window_shrinks_with_lag() {
    assert_eq!(lag_window(4, 2), (1, 3));
    assert_eq!(lag_window(4, 3), (1, 3));
    assert_eq!(lag_window(5, 4), (2, 3));
}

#[test]
fn lag_window_empty_when_lag_too_long() {
    assert_eq!(lag_window(3, 6), (3, 3));
    assert_eq!(lag_window(0, 0), (0, 0));
}

#[test]
fn mul_mod_small() {
    assert_eq!(mul_mod(7, 5, 6), 5);
    assert_eq!(mul_mod(0, 9, 4), 0);
}

#[test]
fn mul_mod_does_not_overflow() {
    let m = usize::MAX;
    assert_eq!(mul_mod(m, m, 10), ((m as u128 * m as u128) % 10) as usize);
    assert_eq!(mul_mod(m - 1, m - 2, m), 2);
}

#[test]
fn analysis_phase_is_negated_exponent() {
    assert_eq!(analysis_phase_index(4, 0, 3), 0);
    assert_eq!(analysis_phase_index(4, 1, 1), 3);
    assert_eq!(analysis_phase_index(4, 2, 3), 2);
    assert_eq!(analysis_phase_index(4, 3, 3), 3);
    assert_eq!(analysis_phase_index(8, 2, 4), 0);
}

#[test]
fn synthesis_phase_adds_exponents() {
    assert_eq!(synthesis_phase_index(4, 1, 2, 3, 1), 1);
    assert_eq!(synthesis_phase_index(5, 4, 4, 4, 4), 2);
    assert_eq!(synthesis_phase_index(1, 0, 0, 0, 0), 0);
}

#[test]
fn ambiguity_terms_skip_outside_partners() {
    let terms = ambiguity_terms(4, 1, 2);
    assert_eq!(
        terms,
        vec![
            LagTerm { plus: 2, minus: 0, phase: 3 },
            LagTerm { plus: 3, minus: 1, phase: 2 },
        ]
    );
}

#[test]
fn ambiguity_terms_zero_lag_cover_signal() {
    let terms = ambiguity_terms(3, 1, 0);
    assert_eq!(
        terms,
        vec![
            LagTerm { plus: 0, minus: 0, phase: 0 },
            LagTerm { plus: 1, minus: 1, phase: 2 },
            LagTerm { plus: 2, minus: 2, phase: 1 },
        ]
    );
}

#[test]
fn synthesis_terms_cover_every_cell() {
    let terms = synthesis_terms(2, 1, 1);
    assert_eq!(
        terms,
        vec![
            CellTerm { eta: 0, tau: 0, phase: 0 },
            CellTerm { eta: 0, tau: 1, phase: 1 },
            CellTerm { eta: 1, tau: 0, phase: 1 },
            CellTerm { eta: 1, tau: 1, phase: 0 },
        ]
    );
    assert_eq!(synthesis_terms(3, 0, 2).len(), 9);
}

#[test]
fn single_sample_cell_is_square() {
    assert_eq!(ambiguity_terms(1, 0, 0), vec![LagTerm { plus: 0, minus: 0, phase: 0 }]);
    assert_eq!(synthesis_terms(1, 0, 0), vec![CellTerm { eta: 0, tau: 0, phase: 0 }]);
    assert_eq!(ambiguity_cell(&vec![-5], 0, 0), vec![25]);
}

#[test]
fn boundary_skip_four_samples() {
    let x = vec![1, 2, 3, 4];
    let expected: [[[i128; 4]; 4]; 4] = [
        [[30, 0, 0, 0], [30, 0, 0, 0], [11, 0, 0, 0], [11, 0, 0, 0]],
        [[1, 16, 9, 4], [1, 16, 9, 4], [0, 0, 8, 3], [0, 0, 8, 3]],
        [[10, 0, 20, 0], [10, 0, 20, 0], [8, 0, 3, 0], [8, 0, 3, 0]],
        [[1, 4, 9, 16], [1, 4, 9, 16], [0, 3, 8, 0], [0, 3, 8, 0]],
    ];
    for eta in 0..4 {
        for tau in 0..4 {
            assert_eq!(ambiguity_cell(&x, eta, tau), expected[eta][tau].to_vec(), "cell ({}, {})", eta, tau);
        }
    }
}

#[test]
fn ambiguity_cell_evaluates_to_complex_sum() {
    // Evaluating the exact coefficients at the roots of unity gives the
    // floating-point definition of the ambiguity cell.
    let x = vec![3, -1, 4, 1, -5, 9];
    let n = x.len();
    for eta in 0..n {
        for tau in 0..n {
            let c = ambiguity_cell(&x, eta, tau);
            let (mut re, mut im) = (0.0f64, 0.0f64);
            for (k, v) in c.iter().enumerate() {
                let a = 2.0 * std::f64::consts::PI * k as f64 / n as f64;
                re += *v as f64 * a.cos();
                im += *v as f64 * a.sin();
            }
            let (mut dre, mut dim) = (0.0f64, 0.0f64);
            let h = tau / 2;
            for t in 0..n {
                if t >= h && t + h < n {
                    let a = -2.0 * std::f64::consts::PI * (eta * t) as f64 / n as f64;
                    let p = (x[t + h] * x[t - h]) as f64;
                    dre += p * a.cos();
                    dim += p * a.sin();
                }
            }
            assert!((re - dre).abs() < 1e-9 && (im - dim).abs() < 1e-9);
        }
    }
}

#[test]
fn energy_scales_with_square() {
    let x = vec![2, -7, 1, 8, 0];
    let y: Vec<i32> = x.iter().map(|v| v * 3).collect();
    for eta in 0..5 {
        for tau in 0..5 {
            let cx = ambiguity_cell(&x, eta, tau);
            let cy = ambiguity_cell(&y, eta, tau);
            let scaled: Vec<i128> = cx.iter().map(|v| v * 9).collect();
            assert_eq!(cy, scaled);
        }
    }
}

#[test]
fn repeated_calls_agree() {
    let x = vec![i32::MAX, i32::MIN, 17, -3];
    assert_eq!(ambiguity_cell(&x, 2, 3), ambiguity_cell(&x, 2, 3));
    assert_eq!(ambiguity_terms(9, 4, 5), ambiguity_terms(9, 4, 5));
}

#[test]
fn extreme_samples_do_not_overflow() {
    let x = vec![i32::MIN; 3];
    let m = i32::MIN as i128;
    assert_eq!(ambiguity_cell(&x, 0, 0), vec![3 * m * m, 0, 0]);
}
