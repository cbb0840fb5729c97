//! Exact integer arithmetic helpers used throughout the crate.
//!
//! All quantities in this library are fixed-point integers, and every
//! rounding step of the timing and voltage formulas is expressed here as
//! a floor or ceiling division with a positive divisor.

use vstd::arithmetic::div_mod::{
    lemma_fundamental_div_mod, lemma_fundamental_div_mod_converse_div,
};
use vstd::prelude::*;

verus! {

/// Floor division of a signed value by a positive divisor.
///
/// In specifications `a / b` with `b > 0` is already floor division, so the
/// contract can state the result directly.
pub fn floor_div(a: i64, b: i64) -> (q: i64)
    requires
        b > 0,
        a > i64::MIN,
    ensures
        q == a as int / b as int,
{
    if a >= 0 {
        let m: u64 = a as u64;
        let d: u64 = m / (b as u64);
        proof {
            lemma_fundamental_div_mod(a as int, b as int);
        }
        d as i64
    } else {
        let m: u64 = (-a) as u64;
        let bb: u64 = b as u64;
        let d: u64 = m / bb;
        let r: u64 = m % bb;
        if r == 0 {
            proof {
                lemma_fundamental_div_mod(m as int, bb as int);
                assert(a as int == (-(d as int)) * (b as int) + 0) by (nonlinear_arith)
                    requires
                        m as int == (bb as int) * ((m as int) / (bb as int)) + (m as int) % (
                        bb as int),
                        (m as int) % (bb as int) == 0,
                        d as int == (m as int) / (bb as int),
                        a as int == -(m as int),
                        bb as int == b as int,
                ;
                lemma_fundamental_div_mod_converse_div(
                    a as int,
                    b as int,
                    -(d as int),
                    0,
                );
            }
            -(d as i64)
        } else {
            proof {
                lemma_fundamental_div_mod(m as int, bb as int);
                assert(a as int == (-(d as int) - 1) * (b as int) + ((b as int) - (r as int)))
                    by (nonlinear_arith)
                    requires
                        m as int == (d as int) * (bb as int) + (r as int),
                        a as int == -(m as int),
                        bb as int == b as int,
                ;
                lemma_fundamental_div_mod_converse_div(
                    a as int,
                    b as int,
                    -(d as int) - 1,
                    (b as int) - (r as int),
                );
            }
            -(d as i64) - 1
        }
    }
}

/// Floor division of a signed double-width value by a positive divisor.
pub fn floor_div_i128(a: i128, b: i128) -> (q: i128)
    requires
        b > 0,
        a > i128::MIN,
    ensures
        q == a as int / b as int,
{
    if a >= 0 {
        let m: u128 = a as u128;
        let d: u128 = m / (b as u128);
        proof {
            lemma_fundamental_div_mod(a as int, b as int);
        }
        d as i128
    } else {
        let m: u128 = (-a) as u128;
        let bb: u128 = b as u128;
        let d: u128 = m / bb;
        let r: u128 = m % bb;
        if r == 0 {
            proof {
                lemma_fundamental_div_mod(m as int, bb as int);
                assert(a as int == (-(d as int)) * (b as int) + 0) by (nonlinear_arith)
                    requires
                        m as int == (bb as int) * ((m as int) / (bb as int)) + (m as int) % (
                        bb as int),
                        (m as int) % (bb as int) == 0,
                        d as int == (m as int) / (bb as int),
                        a as int == -(m as int),
                        bb as int == b as int,
                ;
                lemma_fundamental_div_mod_converse_div(
                    a as int,
                    b as int,
                    -(d as int),
                    0,
                );
            }
            -(d as i128)
        } else {
            proof {
                lemma_fundamental_div_mod(m as int, bb as int);
                assert(a as int == (-(d as int) - 1) * (b as int) + ((b as int) - (r as int)))
                    by (nonlinear_arith)
                    requires
                        m as int == (d as int) * (bb as int) + (r as int),
                        a as int == -(m as int),
                        bb as int == b as int,
                ;
                lemma_fundamental_div_mod_converse_div(
                    a as int,
                    b as int,
                    -(d as int) - 1,
                    (b as int) - (r as int),
                );
            }
            -(d as i128) - 1
        }
    }
}

/// Ceiling division of two unsigned machine words, `b` positive.
pub fn ceil_div_u64(a: u64, b: u64) -> (q: u64)
    requires
        b > 0,
    ensures
        q == spec_ceil_div(a as int, b as int),
{
    if a == 0 {
        proof {
            lemma_fundamental_div_mod_converse_div((b as int) - 1, b as int, 0, (b as int) - 1);
        }
        0
    } else {
        let d: u64 = (a - 1) / b;
        proof {
            lemma_fundamental_div_mod((a - 1) as int, b as int);
            assert((a as int) + (b as int) - 1 == ((d as int) + 1) * (b as int) + ((a - 1) as int)
                % (b as int)) by (nonlinear_arith)
                requires
                    (a - 1) as int == (b as int) * (d as int) + ((a - 1) as int) % (b as int),
            ;
            lemma_fundamental_div_mod_converse_div(
                (a as int) + (b as int) - 1,
                b as int,
                (d as int) + 1,
                ((a - 1) as int) % (b as int),
            );
        }
        d + 1
    }
}

/// `ceil(a / b)` over the mathematical integers, for positive `b`.
pub open spec fn spec_ceil_div(a: int, b: int) -> int {
    (a + b - 1) / b
}

/// The ceiling never undershoots the exact quotient: `b * ceil(a/b) >= a`.
pub proof fn lemma_ceil_div_covers(a: int, b: int)
    requires
        b > 0,
    ensures
        spec_ceil_div(a, b) * b >= a,
{
    lemma_fundamental_div_mod(a + b - 1, b);
    let q = (a + b - 1) / b;
    let r = (a + b - 1) % b;
    assert(q * b == b * q) by (nonlinear_arith);
    assert(q * b == a + b - 1 - r);
}

/// The ceiling of a quotient of positives stays within the obvious bounds.
pub proof fn lemma_ceil_div_bounds(a: int, b: int)
    requires
        a >= 0,
        b > 0,
    ensures
        0 <= spec_ceil_div(a, b),
        spec_ceil_div(a, b) <= a,
        a > 0 ==> spec_ceil_div(a, b) >= 1,
{
    lemma_fundamental_div_mod(a + b - 1, b);
    if a == 0 {
        assert((b - 1) / b == 0) by {
            lemma_fundamental_div_mod_converse_div(b - 1, b, 0, b - 1);
        }
    } else {
        let q = (a + b - 1) / b;
        let r = (a + b - 1) % b;
        assert(b * q + r == a + b - 1);
        assert(q >= 1) by {
            if q <= 0 {
                assert(b * q <= 0) by (nonlinear_arith)
                    requires
                        q <= 0,
                        b > 0,
                ;
            }
        }
        assert(q <= a) by {
            if q > a {
                assert(b * q >= b * (a + 1)) by (nonlinear_arith)
                    requires
                        q >= a + 1,
                        b > 0,
                ;
                assert(b * (a + 1) == b * a + b) by (nonlinear_arith);
                assert(b * a >= a) by (nonlinear_arith)
                    requires
                        a >= 1,
                        b >= 1,
                ;
            }
        }
    }
}

} // verus!
