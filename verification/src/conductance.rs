//! The conductance estimator's reduction: a DC-sweep sample train is
//! collapsed into one scalar conductance.
//!
//! For every sample that carries a current and a nonzero voltage the
//! ratio `|current| / |voltage|` is accumulated; every sample with zero
//! voltage is excluded from both the sum and the divisor. With currents
//! in nanoamperes and voltages in microvolts, the ratio is scaled by
//! 10^6 so the result comes out in nanosiemens.

use crate::driver::Measurement;
use crate::measure::Error;
use vstd::arithmetic::div_mod::{lemma_div_nonincreasing, lemma_multiply_divide_le};
use vstd::math::abs;
use vstd::prelude::*;

verus! {

/// Nanosiemens per (nanoampere / microvolt).
pub const CONDUCTANCE_SCALE: i64 = 1_000_000;

/// Largest sample magnitude, in microvolts or nanoamperes, that the
/// reduction carries exactly.
pub const MAX_SAMPLE_MAGNITUDE: i64 = 1_000_000_000_000;

/// Whether one retrieved sample lies within the exactly-carried range.
pub open spec fn sample_in_range(m: Measurement) -> bool {
    &&& abs(m.voltage as int) <= MAX_SAMPLE_MAGNITUDE
    &&& (m.current matches Some(c) ==> abs(c as int) <= MAX_SAMPLE_MAGNITUDE)
}

/// Whether every sample of a train lies within the exactly-carried range.
pub open spec fn samples_in_range(s: Seq<Measurement>) -> bool {
    forall|i: int| 0 <= i < s.len() ==> sample_in_range(#[trigger] s[i])
}

/// The scaled ratio one sample contributes to the accumulated sum:
/// zero when the sample has no current or a zero voltage.
pub open spec fn spec_term(m: Measurement) -> int {
    match m.current {
        Some(c) => if m.voltage != 0 {
            abs(c as int) * CONDUCTANCE_SCALE / abs(m.voltage as int) as int
        } else {
            0
        },
        None => 0,
    }
}

/// Accumulated sum of the scaled ratios of a sample train.
pub open spec fn spec_ratio_sum(s: Seq<Measurement>) -> int
    decreases s.len(),
{
    if s.len() == 0 {
        0
    } else {
        spec_ratio_sum(s.drop_last()) + spec_term(s.last())
    }
}

/// How many samples carry a zero voltage; every one of them is
/// excluded from the divisor, whether or not it carries a current.
pub open spec fn spec_excluded(s: Seq<Measurement>) -> int
    decreases s.len(),
{
    if s.len() == 0 {
        0
    } else {
        spec_excluded(s.drop_last()) + (if s.last().voltage == 0 {
            1int
        } else {
            0int
        })
    }
}

/// The estimator's value on a sample train whose divisor is positive.
pub open spec fn spec_conductance(s: Seq<Measurement>) -> int {
    spec_ratio_sum(s) / (s.len() - spec_excluded(s))
}

/// Every term is bounded by the largest scaled ratio a sample in range
/// can produce.
proof fn lemma_term_bounds(m: Measurement)
    requires
        sample_in_range(m),
    ensures
        0 <= spec_term(m) <= MAX_SAMPLE_MAGNITUDE * CONDUCTANCE_SCALE,
{
    match m.current {
        Some(c) => {
            if m.voltage != 0 {
                let num = abs(c as int) * (CONDUCTANCE_SCALE as int);
                let den = abs(m.voltage as int) as int;
                assert(num <= MAX_SAMPLE_MAGNITUDE * CONDUCTANCE_SCALE) by (nonlinear_arith)
                    requires
                        abs(c as int) <= MAX_SAMPLE_MAGNITUDE,
                        num == abs(c as int) * (CONDUCTANCE_SCALE as int),
                ;
                assert(num / den <= num) by {
                    lemma_div_nonincreasing(num, den);
                }
                assert(num / den >= 0) by (nonlinear_arith)
                    requires
                        num >= 0,
                        den >= 1,
                ;
            }
        },
        None => {},
    }
}

/// Reduces a retrieved sample train to its conductance in nanosiemens.
///
/// Succeeds exactly on trains whose samples all lie in range and whose
/// divisor is positive; a train where every sample carried zero voltage
/// is reported as undefined rather than divided by zero.
pub fn conductance_from_measurements(meas: &Vec<Measurement>) -> (r: Result<i64, Error>)
    ensures
        r is Ok <==> samples_in_range(meas@) && meas@.len() - spec_excluded(meas@) > 0,
        r matches Ok(g) ==> g == spec_conductance(meas@) && g >= 0,
        r matches Err(e) ==> (e is SampleOutOfRange <==> !samples_in_range(meas@)),
        r matches Err(e) ==> (samples_in_range(meas@) ==> e is ConductanceUndefined),
{
    let ghost s = meas@;
    let mut acc: u128 = 0;
    let mut excluded: usize = 0;
    let mut i: usize = 0;
    while i < meas.len()
        invariant
            0 <= i <= meas@.len(),
            s == meas@,
            samples_in_range(s.subrange(0, i as int)),
            excluded as int == spec_excluded(s.subrange(0, i as int)),
            excluded <= i,
            acc as int == spec_ratio_sum(s.subrange(0, i as int)),
            acc as int <= (i - excluded) * (MAX_SAMPLE_MAGNITUDE * CONDUCTANCE_SCALE),
        decreases meas@.len() - i,
    {
        let m = meas[i];
        proof {
            assert(s.subrange(0, i + 1).drop_last() =~= s.subrange(0, i as int));
            assert(s.subrange(0, i + 1).last() == s[i as int]);
        }
        if m.voltage < -MAX_SAMPLE_MAGNITUDE || m.voltage > MAX_SAMPLE_MAGNITUDE {
            return Err(Error::SampleOutOfRange);
        }
        match m.current {
            Some(c) => {
                if c < -MAX_SAMPLE_MAGNITUDE || c > MAX_SAMPLE_MAGNITUDE {
                    return Err(Error::SampleOutOfRange);
                }
            },
            None => {},
        }
        if m.voltage == 0 {
            proof {
                assert((i + 1 - (excluded + 1)) * (MAX_SAMPLE_MAGNITUDE * CONDUCTANCE_SCALE) == (
                i - excluded) * (MAX_SAMPLE_MAGNITUDE * CONDUCTANCE_SCALE)) by (nonlinear_arith);
            }
            excluded = excluded + 1;
        } else {
            match m.current {
                Some(c) => {
                    let abs_c: u64 = if c >= 0 {
                        c as u64
                    } else {
                        (-c) as u64
                    };
                    let abs_v: u64 = if m.voltage >= 0 {
                        m.voltage as u64
                    } else {
                        (-m.voltage) as u64
                    };
                    let num: u64 = abs_c * (CONDUCTANCE_SCALE as u64);
                    let term: u64 = num / abs_v;
                    proof {
                        lemma_term_bounds(m);
                        assert(term as int == spec_term(m));
                        assert((i + 1 - excluded) * (MAX_SAMPLE_MAGNITUDE * CONDUCTANCE_SCALE)
                            == (i - excluded) * (MAX_SAMPLE_MAGNITUDE * CONDUCTANCE_SCALE) + (
                        MAX_SAMPLE_MAGNITUDE * CONDUCTANCE_SCALE)) by (nonlinear_arith);
                    }
                    acc = acc + (term as u128);
                },
                None => {
                    proof {
                        assert((i + 1 - excluded) * (MAX_SAMPLE_MAGNITUDE * CONDUCTANCE_SCALE)
                            == (i - excluded) * (MAX_SAMPLE_MAGNITUDE * CONDUCTANCE_SCALE) + (
                        MAX_SAMPLE_MAGNITUDE * CONDUCTANCE_SCALE)) by (nonlinear_arith);
                        assert((i - excluded) * (MAX_SAMPLE_MAGNITUDE * CONDUCTANCE_SCALE) >= 0)
                            by (nonlinear_arith)
                            requires
                                i >= excluded,
                        ;
                    }
                },
            }
        }
        i = i + 1;
    }
    proof {
        assert(s.subrange(0, meas@.len() as int) =~= s);
    }
    if meas.len() - excluded == 0 {
        return Err(Error::ConductanceUndefined);
    }
    let divisor: usize = meas.len() - excluded;
    let g: u128 = acc / (divisor as u128);
    proof {
        lemma_multiply_divide_le(
            acc as int,
            divisor as int,
            MAX_SAMPLE_MAGNITUDE * CONDUCTANCE_SCALE,
        );
        assert(divisor as int * (MAX_SAMPLE_MAGNITUDE * CONDUCTANCE_SCALE) == (divisor as int) * (
        MAX_SAMPLE_MAGNITUDE * CONDUCTANCE_SCALE)) by (nonlinear_arith);
    }
    Ok(g as i64)
}

} // verus!
