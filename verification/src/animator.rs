//! The stone animator: one perturbation record per lattice cell, advanced
//! one discrete step per tick by a randomized settle/transition policy.
//!
//! Per cell and per tick: while `remaining_ticks > 0` the stored velocity is
//! applied unchanged and the countdown decremented, consuming no randomness.
//! When the countdown reaches zero a decision is made: with probability
//! `1 - motion_probability` the stone rests (zero velocity) for a fresh
//! number of ticks drawn from `[MIN_PHASE_TICKS, PHASE_TICK_BOUND)`; else a
//! new row-scaled target is drawn and the velocity is set so that linear
//! interpolation over the drawn number of ticks lands on the target, up to
//! the sub-micro-unit remainder the integer division discards (no snapping
//! is performed at arrival, by design).
//!
//! The whole step is specified as a function of the prior state alone, so
//! determinism — the same seed and tick sequence reproduce the same frames
//! bit for bit — is part of every contract rather than a convention.

use crate::errors::ConfigError;
use crate::grid::GridLayout;
use crate::rng::{draw_value, next_state, RandomSource};
use crate::sampling::{compute_span, compute_target, perturb_span, perturb_target};
use crate::units::{
    div_toward_zero, div_trunc, lemma_div_toward_zero, MICRO, MIN_PHASE_TICKS, OFFSET_BOUND,
    PHASE_TICK_BOUND, ROTATION_SPAN_MICRO, SPAN_BOUND, VELOCITY_BOUND,
};
use vstd::prelude::*;

verus! {

/// The host-adjustable tunables, all in micro-units except the seed: a
/// gain of one is `MICRO`, a probability of one is `MICRO`.
#[derive(Clone, Copy, Debug, PartialEq, Eq, Structural)]
pub struct AnimatorConfig {
    /// Scales how far a stone's row lets it stray from its base, in
    /// micro-units per unit of row factor.
    pub displacement_gain: u32,
    /// Scales how far a stone's row lets it turn, likewise.
    pub rotation_gain: u32,
    /// Probability, in micro-units of one, that a decision starts a new
    /// transition rather than a rest.
    pub motion_probability: u32,
    /// Seed of the deterministic random source.
    pub random_seed: u64,
}

impl AnimatorConfig {
    /// The motion probability is at most one.
    pub open spec fn wf(self) -> bool {
        self.motion_probability <= MICRO
    }
}

/// The animation state of one stone. `col` and `row` are the immutable
/// lattice coordinates; everything else is mutated tick by tick, in
/// micro-units (offsets, rotation, velocities) and ticks (the countdown).
#[derive(Clone, Copy, Debug, PartialEq, Eq, Structural)]
pub struct PerturbationState {
    pub col: u32,
    pub row: u32,
    pub x_offset: i64,
    pub y_offset: i64,
    pub rotation: i64,
    pub x_velocity: i64,
    pub y_velocity: i64,
    pub rot_velocity: i64,
    pub remaining_ticks: u32,
}

/// One axis of a stone stays in bounds: the position, the velocity, and
/// the landing point the remaining ticks are steering toward.
pub open spec fn axis_wf(position: i64, velocity: i64, remaining: u32) -> bool {
    &&& -OFFSET_BOUND <= position <= OFFSET_BOUND
    &&& -VELOCITY_BOUND <= velocity <= VELOCITY_BOUND
    &&& -OFFSET_BOUND <= position + remaining * velocity <= OFFSET_BOUND
}

/// A stone's record is well formed within a lattice of `rows` rows.
pub open spec fn cell_wf(c: PerturbationState, rows: u32) -> bool {
    &&& c.row < rows
    &&& c.remaining_ticks < PHASE_TICK_BOUND
    &&& axis_wf(c.x_offset, c.x_velocity, c.remaining_ticks)
    &&& axis_wf(c.y_offset, c.y_velocity, c.remaining_ticks)
    &&& axis_wf(c.rotation, c.rot_velocity, c.remaining_ticks)
}

/// A phase length drawn from the word `w`: uniformly in
/// `[MIN_PHASE_TICKS, PHASE_TICK_BOUND)`, never zero, so the velocity
/// division is always by a positive count.
pub open spec fn spec_phase_ticks(w: u64) -> u32 {
    (MIN_PHASE_TICKS + w % ((PHASE_TICK_BOUND - MIN_PHASE_TICKS) as u64)) as u32
}

/// One mid-phase tick: velocity applied, countdown decremented, no
/// randomness consumed.
pub open spec fn spec_tick_cell(c: PerturbationState) -> PerturbationState {
    PerturbationState {
        x_offset: (c.x_offset + c.x_velocity) as i64,
        y_offset: (c.y_offset + c.y_velocity) as i64,
        rotation: (c.rotation + c.rot_velocity) as i64,
        remaining_ticks: (c.remaining_ticks - 1) as u32,
        ..c
    }
}

/// One step of one stone, as a function of the prior record, the current
/// configuration and the random-source state at the stone's turn. Returns
/// the stepped record and the source state left behind.
pub open spec fn spec_step_cell(
    c: PerturbationState,
    cfg: AnimatorConfig,
    rows: u32,
    s: u64,
) -> (PerturbationState, u64) {
    if c.remaining_ticks > 0 {
        (spec_tick_cell(c), s)
    } else if draw_value(s) % MICRO > cfg.motion_probability {
        let s1 = next_state(s);
        let ticks = spec_phase_ticks(draw_value(s1));
        (
            PerturbationState {
                x_velocity: 0,
                y_velocity: 0,
                rot_velocity: 0,
                remaining_ticks: ticks,
                ..c
            },
            next_state(s1),
        )
    } else {
        let s1 = next_state(s);
        let dx = draw_value(s1) % MICRO;
        let s2 = next_state(s1);
        let dy = draw_value(s2) % MICRO;
        let s3 = next_state(s2);
        let dr = draw_value(s3) % MICRO;
        let s4 = next_state(s3);
        let ticks = spec_phase_ticks(draw_value(s4));
        let s5 = next_state(s4);
        let dspan = perturb_span(c.row, rows, cfg.displacement_gain, MICRO);
        let rspan = perturb_span(c.row, rows, cfg.rotation_gain, ROTATION_SPAN_MICRO);
        (
            PerturbationState {
                x_velocity: div_toward_zero(
                    perturb_target(dspan, dx) - c.x_offset,
                    ticks as int,
                ) as i64,
                y_velocity: div_toward_zero(
                    perturb_target(dspan, dy) - c.y_offset,
                    ticks as int,
                ) as i64,
                rot_velocity: div_toward_zero(
                    perturb_target(rspan, dr) - c.rotation,
                    ticks as int,
                ) as i64,
                remaining_ticks: ticks,
                ..c
            },
            s5,
        )
    }
}

/// Applying one tick keeps an axis in bounds: the new position stays
/// between the old position and the landing point.
pub proof fn lemma_axis_tick(p: i64, v: i64, r: u32)
    requires
        r >= 1,
        axis_wf(p, v, r),
    ensures
        -OFFSET_BOUND <= p + v <= OFFSET_BOUND,
        axis_wf((p + v) as i64, v, (r - 1) as u32),
{
    assert(-OFFSET_BOUND <= p + v <= OFFSET_BOUND && p + v + (r - 1) * v == p + r * v)
        by (nonlinear_arith)
        requires
            1 <= r,
            -OFFSET_BOUND <= p <= OFFSET_BOUND,
            -VELOCITY_BOUND <= v <= VELOCITY_BOUND,
            -OFFSET_BOUND <= p + r * v <= OFFSET_BOUND;
}

/// The velocity that steers `position` onto `target` over `ticks` ticks,
/// rounded toward zero. The landing point `position + ticks * v` equals
/// the target up to the discarded sub-tick remainder, so it stays within
/// `PHASE_TICK_BOUND` micro-units of the target and inside the offset
/// bounds.
fn velocity_toward(position: i64, target: i64, ticks: u32) -> (v: i64)
    requires
        MIN_PHASE_TICKS <= ticks < PHASE_TICK_BOUND,
        -OFFSET_BOUND <= position <= OFFSET_BOUND,
        -(SPAN_BOUND as i64) / 2 <= target <= (SPAN_BOUND as i64) / 2,
    ensures
        v == div_toward_zero(target - position, ticks as int),
        -VELOCITY_BOUND <= v <= VELOCITY_BOUND,
        -OFFSET_BOUND <= position + ticks * v <= OFFSET_BOUND,
        vstd::math::abs(target - (position + ticks * v)) < PHASE_TICK_BOUND,
{
    let gap: i64 = target - position;
    let v = div_trunc(gap, ticks as i64);
    proof {
        let g = gap as int;
        let t = ticks as int;
        lemma_div_toward_zero(g, t);
        let q = div_toward_zero(g, t);
        vstd::arithmetic::div_mod::lemma_div_is_ordered_by_denominator(
            vstd::math::abs(g) as int,
            MIN_PHASE_TICKS as int,
            t,
        );
        vstd::arithmetic::div_mod::lemma_div_is_ordered(
            vstd::math::abs(g) as int,
            7_500_000_000,
            MIN_PHASE_TICKS as int,
        );
        assert(t * q == q * t) by (nonlinear_arith);
    }
    v
}

/// One executed step of one stone: exactly [`spec_step_cell`], and the
/// record stays well formed.
fn step_cell(
    c: PerturbationState,
    cfg: &AnimatorConfig,
    rows: u32,
    rng: &mut RandomSource,
) -> (stepped: PerturbationState)
    requires
        cfg.wf(),
        cell_wf(c, rows),
    ensures
        stepped == spec_step_cell(c, *cfg, rows, old(rng).state).0,
        final(rng).state == spec_step_cell(c, *cfg, rows, old(rng).state).1,
        cell_wf(stepped, rows),
        stepped.col == c.col,
        stepped.row == c.row,
{
    if c.remaining_ticks > 0 {
        proof {
            lemma_axis_tick(c.x_offset, c.x_velocity, c.remaining_ticks);
            lemma_axis_tick(c.y_offset, c.y_velocity, c.remaining_ticks);
            lemma_axis_tick(c.rotation, c.rot_velocity, c.remaining_ticks);
        }
        PerturbationState {
            x_offset: c.x_offset + c.x_velocity,
            y_offset: c.y_offset + c.y_velocity,
            rotation: c.rotation + c.rot_velocity,
            remaining_ticks: c.remaining_ticks - 1,
            ..c
        }
    } else {
        let decision = rng.next_below(MICRO);
        if decision > cfg.motion_probability as u64 {
            let ticks = draw_phase_ticks(rng);
            PerturbationState {
                x_velocity: 0,
                y_velocity: 0,
                rot_velocity: 0,
                remaining_ticks: ticks,
                ..c
            }
        } else {
            let dx = rng.next_below(MICRO);
            let dy = rng.next_below(MICRO);
            let dr = rng.next_below(MICRO);
            let ticks = draw_phase_ticks(rng);
            let dspan = compute_span(c.row, rows, cfg.displacement_gain, MICRO);
            let rspan = compute_span(c.row, rows, cfg.rotation_gain, ROTATION_SPAN_MICRO);
            let tx = compute_target(dspan, dx);
            let ty = compute_target(dspan, dy);
            let tr = compute_target(rspan, dr);
            PerturbationState {
                x_velocity: velocity_toward(c.x_offset, tx, ticks),
                y_velocity: velocity_toward(c.y_offset, ty, ticks),
                rot_velocity: velocity_toward(c.rotation, tr, ticks),
                remaining_ticks: ticks,
                ..c
            }
        }
    }
}

/// Draws a phase length in `[MIN_PHASE_TICKS, PHASE_TICK_BOUND)`.
fn draw_phase_ticks(rng: &mut RandomSource) -> (ticks: u32)
    ensures
        final(rng).state == next_state(old(rng).state),
        ticks == spec_phase_ticks(draw_value(old(rng).state)),
        MIN_PHASE_TICKS <= ticks < PHASE_TICK_BOUND,
{
    let w = rng.next_below((PHASE_TICK_BOUND - MIN_PHASE_TICKS) as u64);
    MIN_PHASE_TICKS + (w as u32)
}

/// The first `n` stones stepped in row-major order, the random-source
/// state threaded from stone to stone; stones at index `n` and beyond are
/// untouched.
pub open spec fn spec_advance_prefix(
    cells: Seq<PerturbationState>,
    cfg: AnimatorConfig,
    rows: u32,
    s: u64,
    n: int,
) -> (Seq<PerturbationState>, u64)
    decreases n,
{
    if n <= 0 {
        (cells, s)
    } else {
        let prev = spec_advance_prefix(cells, cfg, rows, s, n - 1);
        let stepped = spec_step_cell(prev.0[n - 1], cfg, rows, prev.1);
        (prev.0.update(n - 1, stepped.0), stepped.1)
    }
}

/// One whole tick: every stone stepped once, in row-major order.
pub open spec fn spec_advance(
    cells: Seq<PerturbationState>,
    cfg: AnimatorConfig,
    rows: u32,
    s: u64,
) -> (Seq<PerturbationState>, u64) {
    spec_advance_prefix(cells, cfg, rows, s, cells.len() as int)
}

/// The stone at row-major index `k` of a fresh animator: base position on
/// the lattice, everything dynamic zeroed, the countdown at zero so that
/// the first tick is a decision point.
pub open spec fn spec_initial_cell(k: int, cols: u32) -> PerturbationState {
    PerturbationState {
        col: (k % (cols as int)) as u32,
        row: (k / (cols as int)) as u32,
        x_offset: 0,
        y_offset: 0,
        rotation: 0,
        x_velocity: 0,
        y_velocity: 0,
        rot_velocity: 0,
        remaining_ticks: 0,
    }
}

/// The per-stone render transform the host reads once per frame.
#[derive(Clone, Copy, Debug, PartialEq, Eq, Structural)]
pub struct StoneTransform {
    pub base_col: u32,
    pub base_row: u32,
    pub x_offset: i64,
    pub y_offset: i64,
    pub rotation: i64,
}

/// The transform a stone's record renders as.
pub open spec fn spec_transform(c: PerturbationState) -> StoneTransform {
    StoneTransform {
        base_col: c.col,
        base_row: c.row,
        x_offset: c.x_offset,
        y_offset: c.y_offset,
        rotation: c.rotation,
    }
}

/// The animator: the lattice dimensions, the current tunables, the
/// deterministic random source, and one perturbation record per cell in
/// row-major order. The records are owned exclusively by the animator;
/// the host reads them only through [`StoneAnimator::snapshot`], between
/// ticks.
pub struct StoneAnimator {
    pub rows: u32,
    pub cols: u32,
    pub config: AnimatorConfig,
    pub source: RandomSource,
    pub gravel: Vec<PerturbationState>,
}

impl StoneAnimator {
    /// Dimensions positive, configuration valid, one well-formed record
    /// per cell, each sitting at its own row-major base position.
    pub open spec fn wf(self) -> bool {
        &&& self.rows > 0
        &&& self.cols > 0
        &&& self.config.wf()
        &&& self.gravel@.len() == self.rows * self.cols
        &&& forall|i: int|
            0 <= i < self.gravel@.len() ==> cell_wf(#[trigger] self.gravel@[i], self.rows)
        &&& forall|i: int|
            0 <= i < self.gravel@.len() ==> (#[trigger] self.gravel@[i]).col as int == i % (
            self.cols as int) && self.gravel@[i].row as int == i / (self.cols as int)
    }

    /// Advances every stone one step, as [`spec_advance`] — a function of
    /// the prior state alone, so a fixed seed and tick sequence reproduce
    /// the same animation bit for bit. The tick index carries no
    /// information the state machine uses; it is accepted so hosts can
    /// hand their frame counter through unchanged.
    pub fn advance(&mut self, _tick: u64)
        requires
            old(self).wf(),
        ensures
            final(self).wf(),
            final(self).rows == old(self).rows,
            final(self).cols == old(self).cols,
            final(self).config == old(self).config,
            final(self).gravel@ == spec_advance(
                old(self).gravel@,
                old(self).config,
                old(self).rows,
                old(self).source.state,
            ).0,
            final(self).source.state == spec_advance(
                old(self).gravel@,
                old(self).config,
                old(self).rows,
                old(self).source.state,
            ).1,
    {
        let ghost cells0 = self.gravel@;
        let ghost s0 = self.source.state;
        let ghost cfg0 = self.config;
        let ghost rows0 = self.rows;
        let ghost cols0 = self.cols;
        let n = self.gravel.len();
        let mut i: usize = 0;
        while i < n
            invariant
                i <= n,
                self.gravel@.len() == n,
                cells0.len() == n,
                self.rows == rows0,
                self.cols == cols0,
                self.config == cfg0,
                rows0 > 0,
                cols0 > 0,
                cfg0.wf(),
                self.gravel@ == spec_advance_prefix(cells0, cfg0, rows0, s0, i as int).0,
                self.source.state == spec_advance_prefix(cells0, cfg0, rows0, s0, i as int).1,
                forall|j: int| i <= j < n ==> self.gravel@[j] == cells0[j],
                forall|j: int| 0 <= j < n ==> cell_wf(#[trigger] self.gravel@[j], rows0),
                forall|j: int|
                    0 <= j < n ==> (#[trigger] self.gravel@[j]).col as int == j % (
                    cols0 as int) && self.gravel@[j].row as int == j / (cols0 as int),
            decreases n - i,
        {
            let c = self.gravel[i];
            let stepped = step_cell(c, &self.config, self.rows, &mut self.source);
            self.gravel[i] = stepped;
            i = i + 1;
        }
    }

    /// The per-stone transforms, one entry per cell in the layout's
    /// row-major order. Read-only: the animator is unchanged.
    pub fn snapshot(&self) -> (frame: Vec<StoneTransform>)
        ensures
            frame@.len() == self.gravel@.len(),
            forall|k: int|
                0 <= k < frame@.len() ==> (#[trigger] frame@[k]) == spec_transform(self.gravel@[k]),
    {
        let mut frame: Vec<StoneTransform> = Vec::new();
        let mut i: usize = 0;
        let n = self.gravel.len();
        while i < n
            invariant
                i <= n,
                n == self.gravel@.len(),
                frame@.len() == i,
                forall|k: int|
                    0 <= k < i ==> frame@[k] == spec_transform(self.gravel@[k]),
            decreases n - i,
        {
            let c = self.gravel[i];
            frame.push(StoneTransform {
                base_col: c.col,
                base_row: c.row,
                x_offset: c.x_offset,
                y_offset: c.y_offset,
                rotation: c.rotation,
            });
            i = i + 1;
        }
        frame
    }

    /// Replaces the tunables between ticks. A motion probability above
    /// one is rejected and nothing changes. On success no stone's record
    /// is touched — a stone mid-transition keeps its computed velocity
    /// until its next decision point, by design — and the random source
    /// is reseeded exactly when the seed differs from the current one;
    /// reseeding is one-way, the old sequence is not recoverable.
    pub fn set_config(&mut self, config: AnimatorConfig) -> (outcome: Result<(), ConfigError>)
        requires
            old(self).wf(),
        ensures
            final(self).wf(),
            !config.wf() ==> outcome == Err::<(), ConfigError>(
                ConfigError::MotionProbabilityOutOfRange,
            ) && *final(self) == *old(self),
            config.wf() ==> outcome == Ok::<(), ConfigError>(()) && final(self).config == config
                && final(self).gravel@ == old(self).gravel@ && final(self).rows == old(
                self,
            ).rows && final(self).cols == old(self).cols && final(self).source.state == (
            if config.random_seed != old(self).config.random_seed {
                config.random_seed
            } else {
                old(self).source.state
            }),
    {
        if config.motion_probability as u64 > MICRO {
            return Err(ConfigError::MotionProbabilityOutOfRange);
        }
        if config.random_seed != self.config.random_seed {
            self.source = RandomSource::from_seed(config.random_seed);
        }
        self.config = config;
        Ok(())
    }
}

/// One stone rescattered: offset and rotation drawn directly from the
/// stone's row-scaled intervals, velocity and countdown cleared.
pub open spec fn spec_scatter_cell(
    c: PerturbationState,
    cfg: AnimatorConfig,
    rows: u32,
    s: u64,
) -> (PerturbationState, u64) {
    let dx = draw_value(s) % MICRO;
    let s1 = next_state(s);
    let dy = draw_value(s1) % MICRO;
    let s2 = next_state(s1);
    let dr = draw_value(s2) % MICRO;
    let s3 = next_state(s2);
    let dspan = perturb_span(c.row, rows, cfg.displacement_gain, MICRO);
    let rspan = perturb_span(c.row, rows, cfg.rotation_gain, ROTATION_SPAN_MICRO);
    (
        PerturbationState {
            x_offset: perturb_target(dspan, dx) as i64,
            y_offset: perturb_target(dspan, dy) as i64,
            rotation: perturb_target(rspan, dr) as i64,
            x_velocity: 0,
            y_velocity: 0,
            rot_velocity: 0,
            remaining_ticks: 0,
            ..c
        },
        s3,
    )
}

/// The first `n` stones rescattered from a source seeded afresh with the
/// configured seed.
pub open spec fn spec_scatter_prefix(
    cells: Seq<PerturbationState>,
    cfg: AnimatorConfig,
    rows: u32,
    n: int,
) -> (Seq<PerturbationState>, u64)
    decreases n,
{
    if n <= 0 {
        (cells, cfg.random_seed)
    } else {
        let prev = spec_scatter_prefix(cells, cfg, rows, n - 1);
        let scattered = spec_scatter_cell(prev.0[n - 1], cfg, rows, prev.1);
        (prev.0.update(n - 1, scattered.0), scattered.1)
    }
}

/// Every stone rescattered, in row-major order.
pub open spec fn spec_scatter(
    cells: Seq<PerturbationState>,
    cfg: AnimatorConfig,
    rows: u32,
) -> Seq<PerturbationState> {
    spec_scatter_prefix(cells, cfg, rows, cells.len() as int).0
}

/// One executed rescatter of one stone: exactly [`spec_scatter_cell`].
fn scatter_cell(
    c: PerturbationState,
    cfg: &AnimatorConfig,
    rows: u32,
    rng: &mut RandomSource,
) -> (scattered: PerturbationState)
    requires
        c.row < rows,
    ensures
        scattered == spec_scatter_cell(c, *cfg, rows, old(rng).state).0,
        final(rng).state == spec_scatter_cell(c, *cfg, rows, old(rng).state).1,
        cell_wf(scattered, rows),
        scattered.col == c.col,
        scattered.row == c.row,
{
    let dx = rng.next_below(MICRO);
    let dy = rng.next_below(MICRO);
    let dr = rng.next_below(MICRO);
    let dspan = compute_span(c.row, rows, cfg.displacement_gain, MICRO);
    let rspan = compute_span(c.row, rows, cfg.rotation_gain, ROTATION_SPAN_MICRO);
    PerturbationState {
        x_offset: compute_target(dspan, dx),
        y_offset: compute_target(dspan, dy),
        rotation: compute_target(rspan, dr),
        x_velocity: 0,
        y_velocity: 0,
        rot_velocity: 0,
        remaining_ticks: 0,
        ..c
    }
}

impl StoneAnimator {
    /// The direct, memoryless perturbation: every stone's offset and
    /// rotation recomputed outright from a random source seeded afresh
    /// with the configured seed, no velocity or rest phase left behind.
    /// Because the source is reseeded from the same seed on every call
    /// rather than threaded on, repeating the call without changing the
    /// seed reproduces the identical arrangement — the apparent
    /// randomness is frozen until the seed changes. That is deliberate
    /// (it keeps a redraw stable), not a defect. The animator's own
    /// threaded source is left untouched.
    pub fn reset_scatter(&mut self)
        requires
            old(self).wf(),
        ensures
            final(self).wf(),
            final(self).rows == old(self).rows,
            final(self).cols == old(self).cols,
            final(self).config == old(self).config,
            final(self).source == old(self).source,
            final(self).gravel@ == spec_scatter(old(self).gravel@, old(self).config, old(self).rows),
    {
        let ghost cells0 = self.gravel@;
        let ghost cfg0 = self.config;
        let ghost rows0 = self.rows;
        let ghost cols0 = self.cols;
        let mut fresh = RandomSource::from_seed(self.config.random_seed);
        let n = self.gravel.len();
        let mut i: usize = 0;
        while i < n
            invariant
                i <= n,
                self.gravel@.len() == n,
                cells0.len() == n,
                self.rows == rows0,
                self.cols == cols0,
                self.config == cfg0,
                self.source == old(self).source,
                rows0 > 0,
                cols0 > 0,
                self.gravel@ == spec_scatter_prefix(cells0, cfg0, rows0, i as int).0,
                fresh.state == spec_scatter_prefix(cells0, cfg0, rows0, i as int).1,
                forall|j: int| i <= j < n ==> self.gravel@[j] == cells0[j],
                forall|j: int| 0 <= j < n ==> cell_wf(#[trigger] self.gravel@[j], rows0),
                forall|j: int|
                    0 <= j < n ==> (#[trigger] self.gravel@[j]).col as int == j % (
                    cols0 as int) && self.gravel@[j].row as int == j / (cols0 as int),
            decreases n - i,
        {
            let c = self.gravel[i];
            let scattered = scatter_cell(c, &self.config, self.rows, &mut fresh);
            self.gravel[i] = scattered;
            i = i + 1;
        }
    }
}

/// A fresh animator over the layout's lattice: every stone at its base
/// position with zero offset, rotation and velocity, and a countdown of
/// zero, so the first tick is a decision point for every stone. A motion
/// probability above one is rejected.
pub fn new_animator(layout: GridLayout, config: AnimatorConfig) -> (animator: Result<
    StoneAnimator,
    ConfigError,
>)
    requires
        layout.wf(),
        layout.rows * layout.cols <= usize::MAX,
    ensures
        match animator {
            Ok(a) => {
                &&& config.wf()
                &&& a.wf()
                &&& a.rows == layout.rows
                &&& a.cols == layout.cols
                &&& a.config == config
                &&& a.source.state == config.random_seed
                &&& a.gravel@.len() == layout.rows * layout.cols
                &&& forall|k: int|
                    0 <= k < a.gravel@.len() ==> (#[trigger] a.gravel@[k]) == spec_initial_cell(
                        k,
                        layout.cols,
                    )
            },
            Err(e) => !config.wf() && e == ConfigError::MotionProbabilityOutOfRange,
        },
{
    if config.motion_probability as u64 > MICRO {
        return Err(ConfigError::MotionProbabilityOutOfRange);
    }
    let mut gravel: Vec<PerturbationState> = Vec::new();
    let mut row: u32 = 0;
    while row < layout.rows
        invariant
            layout.wf(),
            layout.rows * layout.cols <= usize::MAX,
            row <= layout.rows,
            gravel@.len() == row * layout.cols,
            forall|k: int|
                0 <= k < gravel@.len() ==> (#[trigger] gravel@[k]) == spec_initial_cell(k, layout.cols),
        decreases layout.rows - row,
    {
        let mut col: u32 = 0;
        while col < layout.cols
            invariant
                layout.wf(),
                layout.rows * layout.cols <= usize::MAX,
                row < layout.rows,
                col <= layout.cols,
                gravel@.len() == row * layout.cols + col,
                forall|k: int|
                    0 <= k < gravel@.len() ==> (#[trigger] gravel@[k]) == spec_initial_cell(k, layout.cols),
            decreases layout.cols - col,
        {
            proof {
                vstd::arithmetic::div_mod::lemma_fundamental_div_mod_converse(
                    row * layout.cols + col,
                    layout.cols as int,
                    row as int,
                    col as int,
                );
            }
            gravel.push(PerturbationState {
                col,
                row,
                x_offset: 0,
                y_offset: 0,
                rotation: 0,
                x_velocity: 0,
                y_velocity: 0,
                rot_velocity: 0,
                remaining_ticks: 0,
            });
            col = col + 1;
        }
        proof {
            assert((row + 1) * layout.cols == row * layout.cols + layout.cols)
                by (nonlinear_arith);
        }
        row = row + 1;
    }
    let animator = StoneAnimator {
        rows: layout.rows,
        cols: layout.cols,
        config,
        source: RandomSource::from_seed(config.random_seed),
        gravel,
    };
    proof {
        assert forall|i: int| 0 <= i < animator.gravel@.len() implies cell_wf(
            #[trigger] animator.gravel@[i],
            animator.rows,
        ) && animator.gravel@[i].col as int == i % (animator.cols as int)
            && animator.gravel@[i].row as int == i / (animator.cols as int) by {
            assert(animator.rows * animator.cols == animator.cols * animator.rows)
                by (nonlinear_arith);
            vstd::arithmetic::div_mod::lemma_multiply_divide_lt(
                i,
                animator.cols as int,
                animator.rows as int,
            );
            vstd::arithmetic::div_mod::lemma_mod_bound(i, animator.cols as int);
            vstd::arithmetic::div_mod::lemma_div_pos_is_pos(i, animator.cols as int);
        }
    }
    Ok(animator)
}

} // verus!

