//! Fixed-point scale and the global bounds of the animation model.

use vstd::prelude::*;

verus! {

/// Fixed-point scale: one lattice unit (or one radian) in micro-units.
pub const MICRO: u64 = 1_000_000;

/// A quarter turn (pi / 4 radians) in micro-radians, rounded down.
pub const QUARTER_TURN_MICRO: u64 = 785_398;

/// Width of the rotation sampling interval [-pi/4, pi/4) in micro-radians.
pub const ROTATION_SPAN_MICRO: u64 = 2 * QUARTER_TURN_MICRO;

/// Smallest number of ticks a rest or transition phase may last.
pub const MIN_PHASE_TICKS: u32 = 50;

/// Exclusive upper bound on the ticks of a rest or transition phase.
pub const PHASE_TICK_BOUND: u32 = 300;

/// Bound on every target-interval width (span) a row can produce, in
/// micro-units: the largest gain times the widest sampling interval.
pub const SPAN_BOUND: u64 = 7_000_000_000;

/// Bound on the magnitude of every offset, rotation and landing point,
/// in micro-units; comfortably above the largest reachable target.
pub const OFFSET_BOUND: i64 = 4_000_000_000;

/// Bound on the magnitude of every per-tick velocity, in micro-units.
pub const VELOCITY_BOUND: i64 = 200_000_000;

/// Integer division rounded toward zero, as the `/` operator of the
/// executable code computes it on signed operands.
pub open spec fn div_toward_zero(a: int, b: int) -> int {
    if a >= 0 {
        a / b
    } else {
        -((-a) / b)
    }
}

/// Quotient of `a` by `b` rounded toward zero.
pub fn div_trunc(a: i64, b: i64) -> (q: i64)
    requires
        b > 0,
        a > i64::MIN,
    ensures
        q == div_toward_zero(a as int, b as int),
{
    if a >= 0 {
        let q: u64 = (a as u64) / (b as u64);
        q as i64
    } else {
        let n: i64 = -a;
        let q: u64 = (n as u64) / (b as u64);
        -(q as i64)
    }
}

/// Rounding toward zero loses less than `b` from the product `b * q`:
/// the landing point `b * div_toward_zero(a, b)` differs from `a` by a
/// remainder below `b` in magnitude, on the same side as zero.
pub proof fn lemma_div_toward_zero(a: int, b: int)
    requires
        b > 0,
    ensures
        a >= 0 ==> 0 <= a - b * div_toward_zero(a, b) < b,
        a < 0 ==> -b < a - b * div_toward_zero(a, b) <= 0,
        vstd::math::abs(div_toward_zero(a, b)) == vstd::math::abs(a) as int / b,
{
    if a >= 0 {
        vstd::arithmetic::div_mod::lemma_fundamental_div_mod(a, b);
        vstd::arithmetic::div_mod::lemma_div_pos_is_pos(a, b);
    } else {
        vstd::arithmetic::div_mod::lemma_fundamental_div_mod(-a, b);
        vstd::arithmetic::div_mod::lemma_div_pos_is_pos(-a, b);
        assert(b * -((-a) / b) == -(b * ((-a) / b))) by (nonlinear_arith);
    }
}

} // verus!
