//! Quantization onto the instrument's 10 ns clock grid, and the
//! per-segment sampling solver.
//!
//! Times are carried in nanoseconds. The instrument cannot schedule
//! anything finer than 10 ns, so every time that reaches it first goes
//! through [`round_10ns`], the single rounding primitive of the crate.

use crate::intmath::{floor_div, floor_div_i128};
use vstd::arithmetic::div_mod::{
    lemma_div_is_ordered, lemma_div_multiples_vanish, lemma_div_pos_is_pos,
    lemma_fundamental_div_mod, lemma_fundamental_div_mod_converse_div,
};
use vstd::prelude::*;

verus! {

/// Width of one instrument clock tick, in nanoseconds.
pub const GRID_NS: i64 = 10;

/// Largest time, in nanoseconds, that the solvers accept; generous enough
/// for any realistic cycle, and small enough that every intermediate
/// product in the crate fits its machine word.
pub const MAX_TIME_NS: i64 = 1_000_000_000_000;

/// A time clamped down onto the 10 ns grid.
pub open spec fn spec_round_10ns(t: int) -> int {
    (t / 10) * 10
}

/// Rounds a time in nanoseconds down to the instrument's 10 ns grid.
pub fn round_10ns(t: i64) -> (r: i64)
    requires
        t > i64::MIN + 9,
    ensures
        r == spec_round_10ns(t as int),
{
    proof {
        lemma_round_10ns_bounds(t as int);
    }
    let q: i64 = floor_div(t, 10);
    q * 10
}

/// Rounding to the grid never increases a time, and loses less than one
/// full tick.
pub proof fn lemma_round_10ns_bounds(t: int)
    ensures
        spec_round_10ns(t) <= t,
        t - 10 < spec_round_10ns(t),
{
    lemma_fundamental_div_mod(t, 10);
    let q = t / 10;
    let r = t % 10;
    assert(10 * q == q * 10) by (nonlinear_arith);
}

/// Rounding to the grid is idempotent: a time already on the grid stays
/// exactly where it is.
pub proof fn lemma_round_10ns_idempotent(t: int)
    ensures
        spec_round_10ns(spec_round_10ns(t)) == spec_round_10ns(t),
{
    let q = t / 10;
    assert(q * 10 == q * 10 + 0);
    lemma_fundamental_div_mod_converse_div(q * 10, 10, q, 0);
}

/// Parts-per-million denominator used for duty cycles.
pub const PPM: i64 = 1_000_000;

/// A duration scaled by a fraction given in parts per million.
pub open spec fn spec_mul_ppm(t: int, ppm: int) -> int {
    t * ppm / 1_000_000
}

/// Multiplies a duration by a parts-per-million fraction, flooring to
/// whole nanoseconds; the result never exceeds the duration.
pub fn mul_ppm(t: i64, ppm: i64) -> (r: i64)
    requires
        0 <= t <= MAX_TIME_NS,
        0 <= ppm <= PPM,
    ensures
        r == spec_mul_ppm(t as int, ppm as int),
        0 <= r <= t,
{
    proof {
        assert(0 <= (t as int) * (ppm as int) <= (t as int) * 1_000_000) by (nonlinear_arith)
            requires
                0 <= t as int,
                0 <= ppm as int <= 1_000_000,
        ;
        lemma_div_pos_is_pos((t as int) * (ppm as int), 1_000_000);
        lemma_div_is_ordered((t as int) * (ppm as int), (t as int) * 1_000_000, 1_000_000);
        vstd::arithmetic::div_mod::lemma_div_by_multiple(t as int, 1_000_000);
    }
    let wide: i128 = (t as i128) * (ppm as i128);
    floor_div_i128(wide, 1_000_000) as i64
}

/// The sampling interval a segment resolves to before the grid floor is
/// applied: the measurable time split over the requested points, clamped
/// down onto the clock grid.
pub open spec fn spec_resolution(measure_total: int, n_points: int) -> int {
    spec_round_10ns(measure_total / n_points)
}

/// The sampling interval with the instrument's hard floor: nothing can
/// be scheduled faster than one clock tick.
pub open spec fn spec_resolution_clamped(measure_total: int, n_points: int) -> int {
    if spec_resolution(measure_total, n_points) < 10 {
        10
    } else {
        spec_resolution(measure_total, n_points)
    }
}

/// The shared averaging time after one segment is resolved: averaging
/// cannot exceed the inter-sample spacing, so it is silently reduced to
/// the resolution when it would.
pub open spec fn spec_avg_after(avg: int, resolution: int) -> int {
    if avg > resolution {
        spec_round_10ns(resolution)
    } else {
        avg
    }
}

/// How many whole sampling intervals fit into the measurable time left
/// after the averaging window.
pub open spec fn spec_points_base(measure_total: int, avg: int, resolution: int) -> int {
    (measure_total - avg) / resolution
}

/// Resolves the sampling interval and raw point count of one segment,
/// reducing the shared averaging time to the interval where it exceeds
/// it. With `clamp` the interval is held at the clock grid's floor;
/// without it the caller must have ruled out a zero interval.
pub fn resolve_segment_sampling(
    measure_total: i64,
    n_points: usize,
    avg_time: &mut i64,
    clamp: bool,
) -> (r: (i64, i64))
    requires
        0 <= measure_total <= MAX_TIME_NS,
        1 <= n_points <= 1_000_000_000,
        0 <= *old(avg_time) <= MAX_TIME_NS,
        !clamp ==> spec_resolution(measure_total as int, n_points as int) >= 1,
    ensures
        r.0 == if clamp {
            spec_resolution_clamped(measure_total as int, n_points as int)
        } else {
            spec_resolution(measure_total as int, n_points as int)
        },
        1 <= r.0 <= MAX_TIME_NS,
        *final(avg_time) == spec_avg_after(*old(avg_time) as int, r.0 as int),
        0 <= *final(avg_time) <= *old(avg_time),
        r.1 == spec_points_base(measure_total as int, *final(avg_time) as int, r.0 as int),
        -MAX_TIME_NS <= r.1 <= MAX_TIME_NS,
{
    let q: i64 = floor_div(measure_total, n_points as i64);
    proof {
        lemma_div_pos_is_pos(measure_total as int, n_points as int);
        vstd::arithmetic::div_mod::lemma_div_nonincreasing(measure_total as int, n_points as int);
        lemma_round_10ns_bounds(q as int);
        lemma_div_pos_is_pos(q as int, 10);
        assert((q as int / 10) * 10 >= 0) by (nonlinear_arith)
            requires
                q as int / 10 >= 0,
        ;
    }
    let mut resolution: i64 = round_10ns(q);
    if clamp && resolution < GRID_NS {
        resolution = GRID_NS;
    }
    proof {
        lemma_round_10ns_bounds(resolution as int);
        lemma_div_pos_is_pos(resolution as int, 10);
        assert((resolution as int / 10) * 10 >= 0) by (nonlinear_arith)
            requires
                resolution as int / 10 >= 0,
        ;
    }
    if *avg_time > resolution {
        *avg_time = round_10ns(resolution);
    }
    let points: i64 = floor_div(measure_total - *avg_time, resolution);
    proof {
        let x = (measure_total - *avg_time) as int;
        let d = resolution as int;
        lemma_fundamental_div_mod(x, d);
        assert(-MAX_TIME_NS <= points as int <= MAX_TIME_NS) by (nonlinear_arith)
            requires
                x == d * (points as int) + x % d,
                0 <= x % d < d,
                1 <= d,
                -MAX_TIME_NS <= x <= MAX_TIME_NS,
                points as int == x / d,
        ;
    }
    (resolution, points)
}

} // verus!
