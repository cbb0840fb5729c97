//! The vector-budget packer.
//!
//! The instrument accepts at most 2048 distinct waveform vectors per
//! pattern. When noise is injected, every pulse needs its own vectors, so
//! only a bounded number of pulses can be materialized; the rest are
//! produced by repeating the materialized block. Pulses separated by
//! `unique_pulses` positions therefore share one noise realization; that
//! trade-off is part of the design and is preserved here.

use crate::intmath::{ceil_div_u64, lemma_ceil_div_bounds, lemma_ceil_div_covers, spec_ceil_div};
use vstd::arithmetic::div_mod::{
    lemma_div_is_ordered, lemma_fundamental_div_mod, lemma_fundamental_div_mod_converse_div,
};
use vstd::prelude::*;

verus! {

/// Hardware ceiling on the number of vectors in one pattern.
pub const MAX_PATTERN_VECTORS: usize = 2048;

/// Largest pulse count the packer accepts; keeps every intermediate
/// value well inside a 32-bit word so the arithmetic is exact on any
/// machine.
pub const MAX_PULSES: usize = 1_000_000_000;

/// How one noisy pulse train is packed into the vector budget.
#[derive(Clone, Copy, Debug, PartialEq, Eq, Structural)]
pub struct PulsePacking {
    /// Pulses materialized with independent noise.
    pub unique_pulses: usize,
    /// Times the materialized block is played.
    pub repetitions: usize,
}

/// The most pulses one pattern can materialize, capped by the pulse
/// count itself.
pub open spec fn spec_unique_ceiling(n_points_high: int, n_points_low: int, n_pulses: int) -> int {
    let budget = MAX_PATTERN_VECTORS as int / (n_points_high + n_points_low);
    if budget < n_pulses {
        budget
    } else {
        n_pulses
    }
}

/// The materialized-pulse count: the ceiling above, re-balanced by the
/// repeat count so the final batch is not left small.
pub open spec fn spec_unique_pulses(n_points_high: int, n_points_low: int, n_pulses: int) -> int {
    spec_ceil_div(
        n_pulses,
        spec_ceil_div(n_pulses, spec_unique_ceiling(n_points_high, n_points_low, n_pulses)),
    )
}

/// The repeat count of the materialized block.
pub open spec fn spec_repetitions(n_points_high: int, n_points_low: int, n_pulses: int) -> int {
    spec_ceil_div(n_pulses, spec_unique_pulses(n_points_high, n_points_low, n_pulses))
}

/// `ceil(n / ceil(n / u)) <= u` for positive `n` and `u`: re-balancing a
/// batch count never increases the batch size.
proof fn lemma_rebalance_le(n: int, u: int)
    requires
        n >= 1,
        u >= 1,
    ensures
        spec_ceil_div(n, spec_ceil_div(n, u)) <= u,
{
    let r = spec_ceil_div(n, u);
    lemma_ceil_div_bounds(n, u);
    lemma_ceil_div_covers(n, u);
    assert(r * u == u * r) by (nonlinear_arith);
    assert(n + r - 1 <= u * r + r - 1);
    lemma_div_is_ordered(n + r - 1, u * r + r - 1, r);
    assert((u * r + r - 1) / r == u) by {
        lemma_fundamental_div_mod_converse_div(u * r + r - 1, r, u, r - 1);
    }
}

/// Decides how many pulses are materialized and how often the block
/// repeats, as the vector budget dictates.
///
/// The materialized block never exceeds the per-pattern budget nor the
/// requested pulse count, and block times repetitions covers every
/// requested pulse.
pub fn pack_pulses(n_points_high: usize, n_points_low: usize, n_pulses: usize) -> (p: PulsePacking)
    requires
        1 <= n_points_high + n_points_low <= MAX_PATTERN_VECTORS,
        1 <= n_pulses <= MAX_PULSES,
    ensures
        p.unique_pulses == spec_unique_pulses(
            n_points_high as int,
            n_points_low as int,
            n_pulses as int,
        ),
        p.repetitions == spec_repetitions(
            n_points_high as int,
            n_points_low as int,
            n_pulses as int,
        ),
        1 <= p.unique_pulses,
        p.unique_pulses <= MAX_PATTERN_VECTORS as int / (n_points_high + n_points_low) as int,
        p.unique_pulses <= n_pulses,
        1 <= p.repetitions,
        p.repetitions == spec_ceil_div(n_pulses as int, p.unique_pulses as int),
        p.unique_pulses * p.repetitions >= n_pulses,
{
    let cycle_points: usize = n_points_high + n_points_low;
    let budget: usize = MAX_PATTERN_VECTORS / cycle_points;
    let u0: usize = if budget < n_pulses {
        budget
    } else {
        n_pulses
    };
    proof {
        lemma_fundamental_div_mod(MAX_PATTERN_VECTORS as int, cycle_points as int);
        assert((MAX_PATTERN_VECTORS as int / cycle_points as int) * cycle_points as int
            <= MAX_PATTERN_VECTORS as int) by (nonlinear_arith)
            requires
                MAX_PATTERN_VECTORS as int == cycle_points as int * (MAX_PATTERN_VECTORS as int
                    / cycle_points as int) + MAX_PATTERN_VECTORS as int % cycle_points as int,
                MAX_PATTERN_VECTORS as int % cycle_points as int >= 0,
        ;
        assert(MAX_PATTERN_VECTORS as int / cycle_points as int >= 1) by (nonlinear_arith)
            requires
                MAX_PATTERN_VECTORS as int == cycle_points as int * (MAX_PATTERN_VECTORS as int
                    / cycle_points as int) + MAX_PATTERN_VECTORS as int % cycle_points as int,
                0 <= (MAX_PATTERN_VECTORS as int) % (cycle_points as int),
                ((MAX_PATTERN_VECTORS as int) % (cycle_points as int)) < (cycle_points as int),
                1 <= (cycle_points as int),
                (cycle_points as int) <= (MAX_PATTERN_VECTORS as int),
        ;
    }
    let n64: u64 = n_pulses as u64;
    let reps0: u64 = ceil_div_u64(n64, u0 as u64);
    proof {
        lemma_ceil_div_bounds(n64 as int, u0 as int);
    }
    let unique: u64 = ceil_div_u64(n64, reps0);
    proof {
        lemma_ceil_div_bounds(n64 as int, reps0 as int);
        lemma_rebalance_le(n64 as int, u0 as int);
    }
    let reps: u64 = ceil_div_u64(n64, unique);
    proof {
        lemma_ceil_div_bounds(n64 as int, unique as int);
        lemma_ceil_div_covers(n64 as int, unique as int);
        assert(spec_ceil_div(n64 as int, unique as int) * unique as int == unique as int
            * spec_ceil_div(n64 as int, unique as int)) by (nonlinear_arith);
    }
    PulsePacking { unique_pulses: unique as usize, repetitions: reps as usize }
}

} // verus!
