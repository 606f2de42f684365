//! Row-scaled perturbation sampling.
//!
//! A stone's row decides how far it may stray: the row factor `row / rows`
//! grows from zero at the top row toward one, is scaled by a user gain, and
//! stretched over the width of the sampling interval (one lattice unit for
//! displacement, a half turn for rotation). The result is the *span* of the
//! stone's targets. A fresh draw then picks a target uniformly from the
//! centred interval `[-span/2, span/2)`, in micro-units.

use crate::units::{MICRO, SPAN_BOUND};
use vstd::prelude::*;

verus! {

/// The row factor `row / rows` in micro-units: `(row * MICRO) / rows`.
pub open spec fn row_factor(row: u32, rows: u32) -> int {
    (row * MICRO) / (rows as int)
}

/// Width of a stone's target interval, in micro-units: the row factor,
/// scaled by `gain`, stretched over a sampling interval of width `width`.
pub open spec fn perturb_span(row: u32, rows: u32, gain: u32, width: u64) -> int {
    let strength = (row_factor(row, rows) * gain) / (MICRO as int);
    (strength * width) / (MICRO as int)
}

/// The target picked by `draw` from the centred interval of width `span`:
/// `span * draw / MICRO - span / 2`.
pub open spec fn perturb_target(span: int, draw: u64) -> int {
    (span * draw) / (MICRO as int) - span / 2
}

/// The span computation of [`perturb_span`], executed exactly.
pub fn compute_span(row: u32, rows: u32, gain: u32, width: u64) -> (span: u64)
    requires
        row < rows,
        width <= 1_600_000,
    ensures
        span == perturb_span(row, rows, gain, width),
        span <= SPAN_BOUND,
{
    proof {
        lemma_span_bounds(row, rows, gain, width);
    }
    let factor: u64 = ((row as u64) * MICRO) / (rows as u64);
    assert(factor * (gain as u64) <= 1_000_000 * 4_294_967_295) by (nonlinear_arith)
        requires factor < 1_000_000, gain <= 4_294_967_295;
    let strength: u64 = (factor * (gain as u64)) / MICRO;
    assert(strength * width <= 6_871_947_672_000_000) by (nonlinear_arith)
        requires 0 <= strength <= 4_294_967_295, 0 <= width <= 1_600_000;
    (strength * width) / MICRO
}

/// The target computation of [`perturb_target`], executed exactly. The
/// result never leaves `[-span/2, span/2]`.
pub fn compute_target(span: u64, draw: u64) -> (target: i64)
    requires
        span <= SPAN_BOUND,
        draw < MICRO,
    ensures
        target == perturb_target(span as int, draw),
        -((span / 2) as int) <= target <= (span / 2) as int,
    {
    proof {
        lemma_target_magnitude(span as int, draw);
    }
    let scaled: u64 = (span * draw) / MICRO;
    let half: u64 = span / 2;
    (scaled as i64) - (half as i64)
}

/// The row factor stays below one (below `MICRO` micro-units), and the
/// span below `SPAN_BOUND`, for every row of the lattice.
pub proof fn lemma_span_bounds(row: u32, rows: u32, gain: u32, width: u64)
    requires
        row < rows,
        width <= 1_600_000,
    ensures
        0 <= row_factor(row, rows) < MICRO,
        0 <= perturb_span(row, rows, gain, width) <= SPAN_BOUND,
{
    let m = MICRO as int;
    let factor = row_factor(row, rows);
    assert(row * MICRO < rows as int * m) by (nonlinear_arith)
        requires row < rows, m == MICRO;
    vstd::arithmetic::div_mod::lemma_multiply_divide_lt(row * MICRO, rows as int, m);
    vstd::arithmetic::div_mod::lemma_div_pos_is_pos(row * MICRO, rows as int);
    let strength = (factor * gain) / m;
    assert(factor * gain >= 0) by (nonlinear_arith)
        requires factor >= 0;
    assert(factor * gain <= m * gain) by (nonlinear_arith)
        requires factor < m;
    vstd::arithmetic::div_mod::lemma_div_pos_is_pos(factor * gain, m);
    vstd::arithmetic::div_mod::lemma_div_is_ordered(factor * gain, m * gain, m);
    vstd::arithmetic::div_mod::lemma_div_multiples_vanish(gain as int, m);
    assert(strength <= gain);
    let span = (strength * width) / m;
    assert(strength * width >= 0) by (nonlinear_arith)
        requires strength >= 0;
    assert(strength * width <= 6_871_947_672_000_000) by (nonlinear_arith)
        requires 0 <= strength <= gain, gain <= 4_294_967_295, 0 <= width <= 1_600_000;
    vstd::arithmetic::div_mod::lemma_div_pos_is_pos(strength * width, m);
    vstd::arithmetic::div_mod::lemma_div_is_ordered(strength * width, 6_871_947_672_000_000, m);
    assert(6_871_947_672_000_000int / m == 6_871_947_672int);
}

/// No draw moves the target out of `[-span/2, span/2]`; the draw of zero
/// reaches the magnitude `span/2` exactly.
pub proof fn lemma_target_magnitude(span: int, draw: u64)
    requires
        0 <= span,
        draw < MICRO,
    ensures
        -(span / 2) <= perturb_target(span, draw) <= span / 2,
        perturb_target(span, 0) == -(span / 2),
{
    let m = MICRO as int;
    vstd::arithmetic::div_mod::lemma_div_pos_is_pos(span * draw, m);
    assert(span * draw >= 0) by (nonlinear_arith)
        requires span >= 0;
    vstd::arithmetic::div_mod::lemma_div_of0(m);
    assert(span * 0 == 0) by (nonlinear_arith);
    if span > 0 {
        assert(span * draw < m * span) by (nonlinear_arith)
            requires 0 <= draw < m, span > 0;
        vstd::arithmetic::div_mod::lemma_multiply_divide_lt(span * draw, m, span);
        assert((span * draw) / m <= span - 1);
        vstd::arithmetic::div_mod::lemma_fundamental_div_mod(span, 2);
        vstd::arithmetic::div_mod::lemma_mod_bound(span, 2);
        assert(span - 1 - span / 2 <= span / 2);
    }
}

} // verus!
