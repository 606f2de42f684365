//! The stated laws of the animation model, proved against the same
//! specification functions the executable contracts use.
//!
//! Determinism itself needs no lemma here: `StoneAnimator::advance`
//! promises that the new state equals a specification function of the old
//! state alone, so equal seeds and equal tick sequences give equal frames
//! by construction.

use crate::animator::{
    cell_wf, spec_advance, spec_advance_prefix, spec_phase_ticks, spec_scatter,
    spec_scatter_cell, spec_scatter_prefix, spec_step_cell, AnimatorConfig, PerturbationState,
};
use crate::rng::{draw_value, next_state};
use crate::sampling::{
    lemma_span_bounds, lemma_target_magnitude, perturb_span, perturb_target, row_factor,
};
use crate::units::{
    div_toward_zero, lemma_div_toward_zero, MICRO, MIN_PHASE_TICKS, OFFSET_BOUND,
    PHASE_TICK_BOUND, ROTATION_SPAN_MICRO, SPAN_BOUND, VELOCITY_BOUND,
};
use vstd::prelude::*;

verus! {

/// The state after `n` whole ticks.
pub open spec fn spec_advance_n(
    cells: Seq<PerturbationState>,
    cfg: AnimatorConfig,
    rows: u32,
    s: u64,
    n: nat,
) -> (Seq<PerturbationState>, u64)
    decreases n,
{
    if n == 0 {
        (cells, s)
    } else {
        let prev = spec_advance_n(cells, cfg, rows, s, (n - 1) as nat);
        spec_advance(prev.0, cfg, rows, prev.1)
    }
}

/// A stone with no displacement, no rotation and no velocity.
pub open spec fn is_still(c: PerturbationState) -> bool {
    &&& c.x_offset == 0
    &&& c.y_offset == 0
    &&& c.rotation == 0
    &&& c.x_velocity == 0
    &&& c.y_velocity == 0
    &&& c.rot_velocity == 0
}

/// Stepping a prefix leaves the length and the stones beyond it alone.
pub proof fn lemma_advance_prefix_frame(
    cells: Seq<PerturbationState>,
    cfg: AnimatorConfig,
    rows: u32,
    s: u64,
    n: int,
)
    requires
        0 <= n <= cells.len(),
    ensures
        spec_advance_prefix(cells, cfg, rows, s, n).0.len() == cells.len(),
        forall|j: int|
            n <= j < cells.len() ==> spec_advance_prefix(cells, cfg, rows, s, n).0[j] == cells[j],
    decreases n,
{
    if n > 0 {
        lemma_advance_prefix_frame(cells, cfg, rows, s, n - 1);
    }
}

/// Within a stepped prefix, the stone at index `i` is exactly its own
/// record stepped once, with the source state left behind by the stones
/// before it.
pub proof fn lemma_advance_prefix_cell(
    cells: Seq<PerturbationState>,
    cfg: AnimatorConfig,
    rows: u32,
    s: u64,
    n: int,
    i: int,
)
    requires
        0 <= i < n <= cells.len(),
    ensures
        spec_advance_prefix(cells, cfg, rows, s, n).0[i] == spec_step_cell(
            cells[i],
            cfg,
            rows,
            spec_advance_prefix(cells, cfg, rows, s, i).1,
        ).0,
    decreases n,
{
    lemma_advance_prefix_frame(cells, cfg, rows, s, n - 1);
    if i < n - 1 {
        lemma_advance_prefix_cell(cells, cfg, rows, s, n - 1, i);
    }
}

/// Over one whole tick, the stone at index `i` is its own record stepped
/// once; the rest of the tick only threads the source state past it.
pub proof fn lemma_advance_cell(
    cells: Seq<PerturbationState>,
    cfg: AnimatorConfig,
    rows: u32,
    s: u64,
    i: int,
)
    requires
        0 <= i < cells.len(),
    ensures
        spec_advance(cells, cfg, rows, s).0.len() == cells.len(),
        spec_advance(cells, cfg, rows, s).0[i] == spec_step_cell(
            cells[i],
            cfg,
            rows,
            spec_advance_prefix(cells, cfg, rows, s, i).1,
        ).0,
{
    lemma_advance_prefix_frame(cells, cfg, rows, s, cells.len() as int);
    lemma_advance_prefix_cell(cells, cfg, rows, s, cells.len() as int, i);
}

/// Row scaling: with the same draw, a farther row never has the smaller
/// reach. Every target of a row is bounded by that row's half-span, the
/// half-span is the magnitude the draw of zero attains exactly, and it
/// grows monotonically with the row index.
pub proof fn lemma_row_scaling(
    rows: u32,
    r1: u32,
    r2: u32,
    gain: u32,
    width: u64,
    draw: u64,
)
    requires
        r1 <= r2 < rows,
        width <= 1_600_000,
        draw < MICRO,
    ensures
        vstd::math::abs(
            perturb_target(perturb_span(r1, rows, gain, width), draw),
        ) <= perturb_span(r1, rows, gain, width) / 2,
        perturb_span(r1, rows, gain, width) / 2 <= perturb_span(r2, rows, gain, width) / 2,
        perturb_target(perturb_span(r2, rows, gain, width), 0) == -(perturb_span(
            r2,
            rows,
            gain,
            width,
        ) / 2),
{
    let m = MICRO as int;
    lemma_span_bounds(r1, rows, gain, width);
    lemma_span_bounds(r2, rows, gain, width);
    lemma_target_magnitude(perturb_span(r1, rows, gain, width), draw);
    lemma_target_magnitude(perturb_span(r2, rows, gain, width), 0);
    let f1 = row_factor(r1, rows);
    let f2 = row_factor(r2, rows);
    vstd::arithmetic::div_mod::lemma_div_is_ordered(r1 * MICRO, r2 * MICRO, rows as int);
    assert(f1 <= f2);
    vstd::arithmetic::mul::lemma_mul_inequality(f1, f2, gain as int);
    vstd::arithmetic::div_mod::lemma_div_is_ordered(f1 * gain, f2 * gain, m);
    let g1 = (f1 * gain) / m;
    let g2 = (f2 * gain) / m;
    vstd::arithmetic::mul::lemma_mul_inequality(g1, g2, width as int);
    vstd::arithmetic::div_mod::lemma_div_is_ordered(g1 * width, g2 * width, m);
    vstd::arithmetic::div_mod::lemma_div_is_ordered(
        perturb_span(r1, rows, gain, width),
        perturb_span(r2, rows, gain, width),
        2,
    );
}

/// Config-change lag: a stone mid-phase is stepped the same way under any
/// two configurations — changed gains, probability or seed touch only the
/// decisions still to come.
pub proof fn lemma_config_change_lag(
    c: PerturbationState,
    first: AnimatorConfig,
    second: AnimatorConfig,
    rows: u32,
    s: u64,
)
    requires
        c.remaining_ticks > 0,
    ensures
        spec_step_cell(c, first, rows, s) == spec_step_cell(c, second, rows, s),
{
}

/// The landing bound of one axis: steering from `position` toward
/// `target` over `k` ticks, the chosen velocity stays in bounds, the
/// landing point stays in bounds, and it misses the target by less than
/// one tick's worth of discarded remainder — under `k` micro-units.
proof fn lemma_axis_velocity(position: i64, target: int, k: u32)
    requires
        MIN_PHASE_TICKS <= k < PHASE_TICK_BOUND,
        -OFFSET_BOUND <= position <= OFFSET_BOUND,
        -(SPAN_BOUND as int) / 2 <= target <= (SPAN_BOUND as int) / 2,
    ensures
        ({
            let q = div_toward_zero(target - position, k as int);
            &&& -VELOCITY_BOUND <= q <= VELOCITY_BOUND
            &&& -OFFSET_BOUND <= position + k * q <= OFFSET_BOUND
            &&& vstd::math::abs(position + k * q - target) < k
        }),
{
    let gap = target - position;
    let t = k as int;
    lemma_div_toward_zero(gap, t);
    let q = div_toward_zero(gap, t);
    vstd::arithmetic::div_mod::lemma_div_is_ordered_by_denominator(
        vstd::math::abs(gap) as int,
        MIN_PHASE_TICKS as int,
        t,
    );
    vstd::arithmetic::div_mod::lemma_div_is_ordered(
        vstd::math::abs(gap) as int,
        7_500_000_000,
        MIN_PHASE_TICKS as int,
    );
    assert(t * q == q * t) by (nonlinear_arith);
}

/// Landing: a stone mid-phase with `remaining_ticks == k` and a stored
/// velocity accumulates exactly `j * velocity` on each axis over the next
/// `j <= k` ticks, counting down to `k - j`; with `j == k` the offsets sit
/// exactly on `start + k * velocity` — the landing point the velocity was
/// computed for — and the next tick is a decision point.
pub proof fn lemma_landing(
    cells: Seq<PerturbationState>,
    cfg: AnimatorConfig,
    rows: u32,
    s: u64,
    i: int,
    j: nat,
)
    requires
        0 <= i < cells.len(),
        cell_wf(cells[i], rows),
        j <= cells[i].remaining_ticks,
    ensures
        spec_advance_n(cells, cfg, rows, s, j).0.len() == cells.len(),
        ({
            let c = spec_advance_n(cells, cfg, rows, s, j).0[i];
            &&& c.col == cells[i].col
            &&& c.row == cells[i].row
            &&& c.x_velocity == cells[i].x_velocity
            &&& c.y_velocity == cells[i].y_velocity
            &&& c.rot_velocity == cells[i].rot_velocity
            &&& c.remaining_ticks == cells[i].remaining_ticks - j
            &&& c.x_offset == cells[i].x_offset + j * cells[i].x_velocity
            &&& c.y_offset == cells[i].y_offset + j * cells[i].y_velocity
            &&& c.rotation == cells[i].rotation + j * cells[i].rot_velocity
            &&& cell_wf(c, rows)
        }),
    decreases j,
{
    if j > 0 {
        lemma_landing(cells, cfg, rows, s, i, (j - 1) as nat);
        let prev = spec_advance_n(cells, cfg, rows, s, (j - 1) as nat);
        lemma_advance_cell(prev.0, cfg, rows, prev.1, i);
        let c_prev = prev.0[i];
        crate::animator::lemma_axis_tick(c_prev.x_offset, c_prev.x_velocity, c_prev.remaining_ticks);
        crate::animator::lemma_axis_tick(c_prev.y_offset, c_prev.y_velocity, c_prev.remaining_ticks);
        crate::animator::lemma_axis_tick(c_prev.rotation, c_prev.rot_velocity, c_prev.remaining_ticks);
        assert(cells[i].x_offset + (j - 1) * cells[i].x_velocity + cells[i].x_velocity == cells[i].x_offset
            + j * cells[i].x_velocity) by (nonlinear_arith);
        assert(cells[i].y_offset + (j - 1) * cells[i].y_velocity + cells[i].y_velocity == cells[i].y_offset
            + j * cells[i].y_velocity) by (nonlinear_arith);
        assert(cells[i].rotation + (j - 1) * cells[i].rot_velocity + cells[i].rot_velocity == cells[i].rotation
            + j * cells[i].rot_velocity) by (nonlinear_arith);
    } else {
        assert(j * cells[i].x_velocity == 0) by (nonlinear_arith)
            requires j == 0;
        assert(j * cells[i].y_velocity == 0) by (nonlinear_arith)
            requires j == 0;
        assert(j * cells[i].rot_velocity == 0) by (nonlinear_arith)
            requires j == 0;
    }
}

/// Rest invariant: a stone at rest — zero velocity, `remaining_ticks == k`
/// — keeps its offset and rotation unchanged for exactly the next `k`
/// ticks, counting down to zero, so that the tick after those `k` is a
/// decision point.
pub proof fn lemma_rest_invariant(
    cells: Seq<PerturbationState>,
    cfg: AnimatorConfig,
    rows: u32,
    s: u64,
    i: int,
    j: nat,
)
    requires
        0 <= i < cells.len(),
        cell_wf(cells[i], rows),
        cells[i].x_velocity == 0,
        cells[i].y_velocity == 0,
        cells[i].rot_velocity == 0,
        j <= cells[i].remaining_ticks,
    ensures
        spec_advance_n(cells, cfg, rows, s, j).0.len() == cells.len(),
        ({
            let c = spec_advance_n(cells, cfg, rows, s, j).0[i];
            &&& c.x_offset == cells[i].x_offset
            &&& c.y_offset == cells[i].y_offset
            &&& c.rotation == cells[i].rotation
            &&& c.x_velocity == 0
            &&& c.y_velocity == 0
            &&& c.rot_velocity == 0
            &&& c.remaining_ticks == cells[i].remaining_ticks - j
        }),
{
    lemma_landing(cells, cfg, rows, s, i, j);
    assert(j * cells[i].x_velocity == 0) by (nonlinear_arith)
        requires cells[i].x_velocity == 0;
    assert(j * cells[i].y_velocity == 0) by (nonlinear_arith)
        requires cells[i].y_velocity == 0;
    assert(j * cells[i].rot_velocity == 0) by (nonlinear_arith)
        requires cells[i].rot_velocity == 0;
}

/// The tick after a rest runs out is a decision: once the `k` frozen
/// ticks of [`lemma_rest_invariant`] have passed, the very next tick
/// draws a fresh phase for the stone, whose length again lies in
/// `[MIN_PHASE_TICKS, PHASE_TICK_BOUND)`.
pub proof fn lemma_rest_then_decision(
    cells: Seq<PerturbationState>,
    cfg: AnimatorConfig,
    rows: u32,
    s: u64,
    i: int,
)
    requires
        0 <= i < cells.len(),
        cell_wf(cells[i], rows),
        cells[i].x_velocity == 0,
        cells[i].y_velocity == 0,
        cells[i].rot_velocity == 0,
    ensures
        ({
            let k = cells[i].remaining_ticks;
            let after = spec_advance_n(cells, cfg, rows, s, (k + 1) as nat).0[i];
            &&& MIN_PHASE_TICKS <= after.remaining_ticks < PHASE_TICK_BOUND
            &&& after.x_offset == cells[i].x_offset
            &&& after.y_offset == cells[i].y_offset
            &&& after.rotation == cells[i].rotation
        }),
{
    let k = cells[i].remaining_ticks;
    lemma_rest_invariant(cells, cfg, rows, s, i, k as nat);
    let rested = spec_advance_n(cells, cfg, rows, s, k as nat);
    lemma_advance_cell(rested.0, cfg, rows, rested.1, i);
    let turn = spec_advance_prefix(rested.0, cfg, rows, rested.1, i).1;
    if draw_value(turn) % MICRO > cfg.motion_probability {
        vstd::arithmetic::div_mod::lemma_mod_bound(
            draw_value(next_state(turn)) as int,
            (PHASE_TICK_BOUND - MIN_PHASE_TICKS) as int,
        );
    } else {
        vstd::arithmetic::div_mod::lemma_mod_bound(
            draw_value(next_state(next_state(next_state(next_state(turn))))) as int,
            (PHASE_TICK_BOUND - MIN_PHASE_TICKS) as int,
        );
    }
}

/// A transition decision lands where it aims: the freshly chosen phase
/// length lies in `[MIN_PHASE_TICKS, PHASE_TICK_BOUND)`, and on every axis
/// the landing point `offset + remaining_ticks * velocity` misses the
/// drawn row-scaled target by less than `remaining_ticks` micro-units —
/// the remainder the truncating division discards; no snapping corrects
/// it at arrival.
pub proof fn lemma_transition_target(
    c: PerturbationState,
    cfg: AnimatorConfig,
    rows: u32,
    s: u64,
)
    requires
        cell_wf(c, rows),
        c.remaining_ticks == 0,
        draw_value(s) % MICRO <= cfg.motion_probability,
    ensures
        ({
            let stepped = spec_step_cell(c, cfg, rows, s).0;
            let dspan = perturb_span(c.row, rows, cfg.displacement_gain, MICRO);
            let rspan = perturb_span(c.row, rows, cfg.rotation_gain, ROTATION_SPAN_MICRO);
            let dx = draw_value(next_state(s)) % MICRO;
            let dy = draw_value(next_state(next_state(s))) % MICRO;
            let dr = draw_value(next_state(next_state(next_state(s)))) % MICRO;
            &&& cell_wf(stepped, rows)
            &&& MIN_PHASE_TICKS <= stepped.remaining_ticks < PHASE_TICK_BOUND
            &&& stepped.x_offset == c.x_offset
            &&& stepped.y_offset == c.y_offset
            &&& stepped.rotation == c.rotation
            &&& vstd::math::abs(
                stepped.x_offset + stepped.remaining_ticks * stepped.x_velocity - perturb_target(
                    dspan,
                    dx,
                ),
            ) < stepped.remaining_ticks
            &&& vstd::math::abs(
                stepped.y_offset + stepped.remaining_ticks * stepped.y_velocity - perturb_target(
                    dspan,
                    dy,
                ),
            ) < stepped.remaining_ticks
            &&& vstd::math::abs(
                stepped.rotation + stepped.remaining_ticks * stepped.rot_velocity - perturb_target(
                    rspan,
                    dr,
                ),
            ) < stepped.remaining_ticks
        }),
{
    let dspan = perturb_span(c.row, rows, cfg.displacement_gain, MICRO);
    let rspan = perturb_span(c.row, rows, cfg.rotation_gain, ROTATION_SPAN_MICRO);
    let dx = draw_value(next_state(s)) % MICRO;
    let dy = draw_value(next_state(next_state(s))) % MICRO;
    let dr = draw_value(next_state(next_state(next_state(s)))) % MICRO;
    let k = spec_phase_ticks(draw_value(next_state(next_state(next_state(next_state(s))))));
    vstd::arithmetic::div_mod::lemma_mod_bound(
        draw_value(next_state(next_state(next_state(next_state(s))))) as int,
        (PHASE_TICK_BOUND - MIN_PHASE_TICKS) as int,
    );
    lemma_span_bounds(c.row, rows, cfg.displacement_gain, MICRO);
    lemma_span_bounds(c.row, rows, cfg.rotation_gain, ROTATION_SPAN_MICRO);
    lemma_target_magnitude(dspan, dx);
    lemma_target_magnitude(dspan, dy);
    lemma_target_magnitude(rspan, dr);
    vstd::arithmetic::div_mod::lemma_div_is_ordered(dspan, SPAN_BOUND as int, 2);
    vstd::arithmetic::div_mod::lemma_div_is_ordered(rspan, SPAN_BOUND as int, 2);
    lemma_axis_velocity(c.x_offset, perturb_target(dspan, dx), k);
    lemma_axis_velocity(c.y_offset, perturb_target(dspan, dy), k);
    lemma_axis_velocity(c.rotation, perturb_target(rspan, dr), k);
}

/// Iterated ticks can be peeled from the front: `n` ticks from a state
/// are one tick, then `n - 1` ticks from its successor.
pub proof fn lemma_advance_n_unfold_first(
    cells: Seq<PerturbationState>,
    cfg: AnimatorConfig,
    rows: u32,
    s: u64,
    n: nat,
)
    requires
        n >= 1,
    ensures
        spec_advance_n(cells, cfg, rows, s, n) == spec_advance_n(
            spec_advance(cells, cfg, rows, s).0,
            cfg,
            rows,
            spec_advance(cells, cfg, rows, s).1,
            (n - 1) as nat,
        ),
    decreases n,
{
    let first = spec_advance(cells, cfg, rows, s);
    if n == 1 {
        assert(spec_advance_n(cells, cfg, rows, s, 0) == (cells, s));
        assert(spec_advance_n(first.0, cfg, rows, first.1, 0) == (first.0, first.1));
        assert(spec_advance_n(cells, cfg, rows, s, 1) == spec_advance(cells, cfg, rows, s));
    } else {
        lemma_advance_n_unfold_first(cells, cfg, rows, s, (n - 1) as nat);
        assert(spec_advance_n(cells, cfg, rows, s, n) == spec_advance(
            spec_advance_n(cells, cfg, rows, s, (n - 1) as nat).0,
            cfg,
            rows,
            spec_advance_n(cells, cfg, rows, s, (n - 1) as nat).1,
        ));
        assert(spec_advance_n(first.0, cfg, rows, first.1, (n - 1) as nat) == spec_advance(
            spec_advance_n(first.0, cfg, rows, first.1, (n - 2) as nat).0,
            cfg,
            rows,
            spec_advance_n(first.0, cfg, rows, first.1, (n - 2) as nat).1,
        ));
    }
}

/// Landing, end to end: a stone whose decision tick starts a transition
/// reaches, after exactly the drawn number of further ticks, an offset
/// and rotation within that number of micro-units of the drawn
/// row-scaled targets — the accumulated `k * velocity` equals the target
/// up to the remainder the truncating division discarded.
pub proof fn lemma_transition_landing(
    cells: Seq<PerturbationState>,
    cfg: AnimatorConfig,
    rows: u32,
    s: u64,
    i: int,
)
    requires
        0 <= i < cells.len(),
        cell_wf(cells[i], rows),
        cells[i].remaining_ticks == 0,
        draw_value(spec_advance_prefix(cells, cfg, rows, s, i).1) % MICRO
            <= cfg.motion_probability,
    ensures
        ({
            let turn = spec_advance_prefix(cells, cfg, rows, s, i).1;
            let first = spec_advance(cells, cfg, rows, s);
            let decided = first.0[i];
            let k = decided.remaining_ticks;
            let settled = spec_advance_n(first.0, cfg, rows, first.1, k as nat).0[i];
            let dspan = perturb_span(cells[i].row, rows, cfg.displacement_gain, MICRO);
            let rspan = perturb_span(cells[i].row, rows, cfg.rotation_gain, ROTATION_SPAN_MICRO);
            let dx = draw_value(next_state(turn)) % MICRO;
            let dy = draw_value(next_state(next_state(turn))) % MICRO;
            let dr = draw_value(next_state(next_state(next_state(turn)))) % MICRO;
            &&& MIN_PHASE_TICKS <= k < PHASE_TICK_BOUND
            &&& settled.remaining_ticks == 0
            &&& vstd::math::abs(settled.x_offset - perturb_target(dspan, dx)) < k
            &&& vstd::math::abs(settled.y_offset - perturb_target(dspan, dy)) < k
            &&& vstd::math::abs(settled.rotation - perturb_target(rspan, dr)) < k
            &&& spec_advance_n(cells, cfg, rows, s, (k + 1) as nat).0[i] == settled
        }),
{
    let turn = spec_advance_prefix(cells, cfg, rows, s, i).1;
    let first = spec_advance(cells, cfg, rows, s);
    lemma_advance_cell(cells, cfg, rows, s, i);
    lemma_transition_target(cells[i], cfg, rows, turn);
    let decided = first.0[i];
    let k = decided.remaining_ticks;
    lemma_landing(first.0, cfg, rows, first.1, i, k as nat);
    lemma_advance_n_unfold_first(cells, cfg, rows, s, (k + 1) as nat);
}

/// A stone of the top row that sits still steps to a stone that sits
/// still: the row factor of row zero is zero, so every span, target and
/// velocity it can draw is zero, whatever the gains and whatever the
/// source state.
pub proof fn lemma_top_row_still_step(
    c: PerturbationState,
    cfg: AnimatorConfig,
    rows: u32,
    s: u64,
)
    requires
        rows > 0,
        c.row == 0,
        is_still(c),
    ensures
        is_still(spec_step_cell(c, cfg, rows, s).0),
        spec_step_cell(c, cfg, rows, s).0.col == c.col,
        spec_step_cell(c, cfg, rows, s).0.row == c.row,
{
    let m = MICRO as int;
    assert(row_factor(0, rows) == 0) by {
        assert((0 * MICRO) as int == 0) by (nonlinear_arith);
        vstd::arithmetic::div_mod::lemma_div_of0(rows as int);
    }
    lemma_zero_span(rows, cfg.displacement_gain, MICRO);
    lemma_zero_span(rows, cfg.rotation_gain, ROTATION_SPAN_MICRO);
    if c.remaining_ticks == 0 && !(draw_value(s) % MICRO > cfg.motion_probability) {
        let s1 = next_state(s);
        let dx = draw_value(s1) % MICRO;
        let s2 = next_state(s1);
        let dy = draw_value(s2) % MICRO;
        let s3 = next_state(s2);
        let dr = draw_value(s3) % MICRO;
        let s4 = next_state(s3);
        let k = spec_phase_ticks(draw_value(s4));
        vstd::arithmetic::div_mod::lemma_mod_bound(
            draw_value(s4) as int,
            (PHASE_TICK_BOUND - MIN_PHASE_TICKS) as int,
        );
        lemma_zero_target(dx);
        lemma_zero_target(dy);
        lemma_zero_target(dr);
        vstd::arithmetic::div_mod::lemma_div_of0(k as int);
    }
}

/// A span over a zero row factor is zero.
proof fn lemma_zero_span(rows: u32, gain: u32, width: u64)
    requires
        rows > 0,
        row_factor(0, rows) == 0,
    ensures
        perturb_span(0, rows, gain, width) == 0,
{
    let m = MICRO as int;
    assert(0 * gain == 0) by (nonlinear_arith);
    vstd::arithmetic::div_mod::lemma_div_of0(m);
    assert(0 * width == 0) by (nonlinear_arith);
}

/// A target over a zero span is zero.
proof fn lemma_zero_target(draw: u64)
    ensures
        perturb_target(0, draw) == 0,
{
    assert(0 * draw == 0) by (nonlinear_arith);
    vstd::arithmetic::div_mod::lemma_div_of0(MICRO as int);
    vstd::arithmetic::div_mod::lemma_div_of0(2);
}

/// Boundary: on a lattice whose stones all sit on row zero — in
/// particular the single cell of a one-by-one layout — a state of still
/// stones stays still through any number of ticks, whatever the gains:
/// the row-scaling factor `0 / rows` is zero.
pub proof fn lemma_boundary(
    cells: Seq<PerturbationState>,
    cfg: AnimatorConfig,
    rows: u32,
    s: u64,
    n: nat,
)
    requires
        rows > 0,
        forall|i: int|
            0 <= i < cells.len() ==> (#[trigger] cells[i]).row == 0 && is_still(cells[i]),
    ensures
        spec_advance_n(cells, cfg, rows, s, n).0.len() == cells.len(),
        forall|i: int|
            0 <= i < cells.len() ==> (#[trigger] spec_advance_n(cells, cfg, rows, s, n).0[i]).row
                == 0 && is_still(spec_advance_n(cells, cfg, rows, s, n).0[i]),
    decreases n,
{
    if n > 0 {
        lemma_boundary(cells, cfg, rows, s, (n - 1) as nat);
        let prev = spec_advance_n(cells, cfg, rows, s, (n - 1) as nat);
        assert forall|i: int| 0 <= i < cells.len() implies (#[trigger] spec_advance_n(
            cells,
            cfg,
            rows,
            s,
            n,
        ).0[i]).row == 0 && is_still(spec_advance_n(cells, cfg, rows, s, n).0[i]) by {
            lemma_advance_cell(prev.0, cfg, rows, prev.1, i);
            lemma_top_row_still_step(
                prev.0[i],
                cfg,
                rows,
                spec_advance_prefix(prev.0, cfg, rows, prev.1, i).1,
            );
        }
        lemma_advance_prefix_frame(prev.0, cfg, rows, prev.1, prev.0.len() as int);
    }
}

/// Rescattering leaves the length and the stones beyond a prefix alone.
proof fn lemma_scatter_prefix_frame(
    cells: Seq<PerturbationState>,
    cfg: AnimatorConfig,
    rows: u32,
    n: int,
)
    requires
        0 <= n <= cells.len(),
    ensures
        spec_scatter_prefix(cells, cfg, rows, n).0.len() == cells.len(),
        forall|j: int|
            n <= j < cells.len() ==> spec_scatter_prefix(cells, cfg, rows, n).0[j] == cells[j],
    decreases n,
{
    if n > 0 {
        lemma_scatter_prefix_frame(cells, cfg, rows, n - 1);
    }
}

/// Two lattices whose stones share base positions rescatter identically
/// over a prefix: the rescatter of a stone reads nothing but its base and
/// the threaded source state.
proof fn lemma_scatter_prefix_congruent(
    a: Seq<PerturbationState>,
    b: Seq<PerturbationState>,
    cfg: AnimatorConfig,
    rows: u32,
    n: int,
)
    requires
        a.len() == b.len(),
        0 <= n <= a.len(),
        forall|j: int|
            0 <= j < a.len() ==> (#[trigger] a[j]).col == b[j].col && a[j].row == b[j].row,
    ensures
        spec_scatter_prefix(a, cfg, rows, n).1 == spec_scatter_prefix(b, cfg, rows, n).1,
        forall|j: int|
            0 <= j < n ==> spec_scatter_prefix(a, cfg, rows, n).0[j] == spec_scatter_prefix(
                b,
                cfg,
                rows,
                n,
            ).0[j],
    decreases n,
{
    if n > 0 {
        lemma_scatter_prefix_congruent(a, b, cfg, rows, n - 1);
        lemma_scatter_prefix_frame(a, cfg, rows, n - 1);
        lemma_scatter_prefix_frame(b, cfg, rows, n - 1);
        let prev_a = spec_scatter_prefix(a, cfg, rows, n - 1);
        let prev_b = spec_scatter_prefix(b, cfg, rows, n - 1);
        assert(prev_a.0[n - 1] == a[n - 1]);
        assert(prev_b.0[n - 1] == b[n - 1]);
        assert(a[n - 1].col == b[n - 1].col && a[n - 1].row == b[n - 1].row);
        assert(spec_scatter_cell(prev_a.0[n - 1], cfg, rows, prev_a.1).0 == spec_scatter_cell(
            prev_b.0[n - 1],
            cfg,
            rows,
            prev_b.1,
        ).0);
        assert forall|j: int| 0 <= j < n implies spec_scatter_prefix(a, cfg, rows, n).0[j]
            == spec_scatter_prefix(b, cfg, rows, n).0[j] by {
            if j < n - 1 {
                assert(spec_scatter_prefix(a, cfg, rows, n).0[j] == prev_a.0[j]);
                assert(spec_scatter_prefix(b, cfg, rows, n).0[j] == prev_b.0[j]);
            }
        }
    }
}

/// Frozen scatter: rescattering twice without changing the seed arranges
/// the stones exactly as rescattering once — the source is reseeded from
/// the same seed on every call, so the apparent randomness stands still
/// until the seed changes. Deliberate behaviour of the memoryless
/// rescatter, written down here so nobody mistakes it for a defect.
pub proof fn lemma_scatter_frozen(
    cells: Seq<PerturbationState>,
    cfg: AnimatorConfig,
    rows: u32,
)
    ensures
        spec_scatter(spec_scatter(cells, cfg, rows), cfg, rows) == spec_scatter(cells, cfg, rows),
{
    let once = spec_scatter(cells, cfg, rows);
    lemma_scatter_prefix_frame(cells, cfg, rows, cells.len() as int);
    assert forall|j: int| 0 <= j < cells.len() implies (#[trigger] once[j]).col == cells[j].col
        && once[j].row == cells[j].row by {
        lemma_scatter_prefix_at(cells, cfg, rows, cells.len() as int, j);
    }
    lemma_scatter_prefix_congruent(once, cells, cfg, rows, cells.len() as int);
    assert(spec_scatter(once, cfg, rows) =~= once) by {
        lemma_scatter_prefix_frame(once, cfg, rows, once.len() as int);
    }
}

/// Within a rescattered prefix, the stone at index `i` is its own record
/// rescattered once with the source state left behind by those before it.
proof fn lemma_scatter_prefix_at(
    cells: Seq<PerturbationState>,
    cfg: AnimatorConfig,
    rows: u32,
    n: int,
    i: int,
)
    requires
        0 <= i < n <= cells.len(),
    ensures
        spec_scatter_prefix(cells, cfg, rows, n).0[i] == spec_scatter_cell(
            cells[i],
            cfg,
            rows,
            spec_scatter_prefix(cells, cfg, rows, i).1,
        ).0,
    decreases n,
{
    lemma_scatter_prefix_frame(cells, cfg, rows, n - 1);
    if i < n - 1 {
        lemma_scatter_prefix_at(cells, cfg, rows, n - 1, i);
    }
}

} // verus!
