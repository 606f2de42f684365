//! Core of a generative "gravel" animation: a rectangular lattice of stones
//! whose positions and rotations are perturbed by pseudo-random noise.
//!
//! The library owns the whole temporal model — the grid of base positions,
//! one perturbation record per stone, and the settle/transition state machine
//! that advances every record once per tick — and exposes it to a host through
//! a pull-based interface: [`grid::configure`], [`animator::new_animator`],
//! [`animator::StoneAnimator::advance`], [`animator::StoneAnimator::snapshot`]
//! and [`animator::StoneAnimator::set_config`]. The host (windowing, drawing,
//! sliders, frame capture) stays outside and only supplies ticks and
//! configuration values, and reads the per-stone transforms back.
//!
//! All quantities are fixed-point integers in micro-units (one unit of the
//! lattice, or one radian, equals [`units::MICRO`] micro-units), so every
//! arithmetic step of the animation is exact and verified; randomness comes
//! from a deterministic, reseedable generator ([`rng::RandomSource`]) whose
//! whole behaviour is specified, which makes the animation reproducible from
//! a seed, tick for tick.

pub mod animator;
pub mod errors;
pub mod grid;
pub mod laws;
pub mod sampling;
pub mod rng;
pub mod units;
