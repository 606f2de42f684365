//! Tests of the lattice, the random source and the fixed-point sampling.

use schotter::errors::ConfigError;
use schotter::grid::{configure, GridLayout};
use schotter::rng::RandomSource;
use schotter::sampling::{compute_span, compute_target};
use schotter::units::div_trunc;

#[test]
fn grid_rejects_zero_rows() {
    assert_eq!(configure(0, 5), Err(ConfigError::ZeroRows));
}

#[test]
fn grid_rejects_zero_cols() {
    assert_eq!(configure(5, 0), Err(ConfigError::ZeroColumns));
}

#[test]
fn grid_accepts_positive_dimensions() {
    assert_eq!(configure(22, 12), Ok(GridLayout { rows: 22, cols: 12 }));
}

#[test]
fn grid_positions_row_major() {
    let layout = configure(2, 3).unwrap();
    let cells = layout.positions();
    assert_eq!(cells, vec![(0, 0), (1, 0), (2, 0), (0, 1), (1, 1), (2, 1)]);
}

#[test]
fn grid_single_cell() {
    let layout = configure(1, 1).unwrap();
    assert_eq!(layout.positions(), vec![(0, 0)]);
}

#[test]
fn rng_matches_reference_vector() {
    let mut source = RandomSource::from_seed(0);
    assert_eq!(source.next_u64(), 16294208416658607535);
    assert_eq!(source.next_u64(), 7960286522194355700);
    assert_eq!(source.next_u64(), 487617019471545679);
}

#[test]
fn rng_same_seed_same_sequence() {
    let mut a = RandomSource::from_seed(99);
    let mut b = RandomSource::from_seed(99);
    for _ in 0..50 {
        assert_eq!(a.next_u64(), b.next_u64());
    }
}

#[test]
fn rng_next_below_reduces_the_same_draw() {
    let mut raw = RandomSource::from_seed(7);
    let mut reduced = RandomSource::from_seed(7);
    for _ in 0..50 {
        let word = raw.next_u64();
        let value = reduced.next_below(250);
        assert_eq!(value, word % 250);
        assert!(value < 250);
    }
}

#[test]
fn div_trunc_rounds_toward_zero() {
    assert_eq!(div_trunc(7, 2), 3);
    assert_eq!(div_trunc(-7, 2), -3);
    assert_eq!(div_trunc(0, 5), 0);
    assert_eq!(div_trunc(-1, 300), 0);
    assert_eq!(div_trunc(-600, 300), -2);
}

#[test]
fn span_exact_mid_row() {
    // Row 11 of 22 gives the factor one half; a gain of one and the
    // displacement width of one lattice unit keep it at half a unit.
    assert_eq!(compute_span(11, 22, 1_000_000, 1_000_000), 500_000);
}

#[test]
fn span_zero_on_top_row() {
    assert_eq!(compute_span(0, 22, 5_000_000, 1_000_000), 0);
    assert_eq!(compute_span(0, 1, 4_294_967_295, 1_570_796), 0);
}

#[test]
fn span_monotone_in_row() {
    let mut previous = 0;
    for row in 0..22 {
        let span = compute_span(row, 22, 1_500_000, 1_000_000);
        assert!(span >= previous);
        previous = span;
    }
}

#[test]
fn target_extremes() {
    assert_eq!(compute_target(500_000, 0), -250_000);
    assert_eq!(compute_target(500_000, 999_999), 249_999);
    assert_eq!(compute_target(0, 123_456), 0);
}

#[test]
fn target_stays_within_half_span() {
    let span = compute_span(21, 22, 4_294_967_295, 1_570_796);
    for draw in [0, 1, 499_999, 500_000, 999_999] {
        let target = compute_target(span, draw);
        assert!(target.unsigned_abs() <= span / 2);
    }
}

#[test]
fn error_descriptions() {
    assert_eq!(ConfigError::ZeroRows.describe(), "rows must be positive");
    assert_eq!(ConfigError::ZeroColumns.describe(), "columns must be positive");
    assert_eq!(
        ConfigError::MotionProbabilityOutOfRange.describe(),
        "motion probability must be at most one"
    );
}
