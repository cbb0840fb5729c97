//! Waveform transfer helpers: sending a sparse waveform to a pattern as
//! is, or resampling it onto an even grid with an independent noise draw
//! per sample.

use crate::driver::WgfmuDriver;
use crate::intmath::{floor_div, floor_div_i128};
use crate::timing::MAX_TIME_NS;
use crate::types::{waveform_bounded, Noise, VoltageWaveFormPoint, MAX_VOLTAGE_UV};
use vstd::arithmetic::div_mod::{
    lemma_div_is_ordered, lemma_div_multiples_vanish, lemma_div_pos_is_pos,
    lemma_fundamental_div_mod,
};
use vstd::prelude::*;

verus! {

/// Failures of the waveform helpers: a malformed argument detected before
/// any driver call, a propagated driver error, an invalid noise
/// description, or a failed lock on the shared instrument.
#[derive(Debug)]
pub enum Error {
    BadArguments(String),
    WgfmuError(crate::driver::Error),
    RandomDistributionError,
    WgfmuMutexLockError,
}

impl From<crate::driver::Error> for Error {
    fn from(error: crate::driver::Error) -> (r: Self) {
        Error::WgfmuError(error)
    }
}

impl vstd::std_specs::convert::FromSpecImpl<crate::driver::Error> for Error {
    open spec fn obeys_from_spec() -> bool {
        true
    }

    open spec fn from_spec(error: crate::driver::Error) -> Self {
        Error::WgfmuError(error)
    }
}

/// Largest sample count a resampling pass accepts.
pub const MAX_RESAMPLE_POINTS: usize = 1_000_000_000;

/// Absolute time of point `k` of a waveform: the first point sits at
/// time zero, and each later point follows its predecessor by its own
/// elapsed time.
pub open spec fn spec_pos(s: Seq<VoltageWaveFormPoint>, k: int) -> int
    decreases k,
{
    if k <= 0 {
        0
    } else {
        spec_pos(s, k - 1) + s[k].dtime
    }
}

/// Duration a resampling pass covers: the absolute time of the last
/// point, which equals the sum of all elapsed times but the first.
pub open spec fn spec_span(s: Seq<VoltageWaveFormPoint>) -> int {
    spec_pos(s, s.len() - 1)
}

/// Every point after the first advances time by at least one nanosecond,
/// so absolute positions are strictly increasing.
pub open spec fn interior_positive(s: Seq<VoltageWaveFormPoint>) -> bool {
    forall|i: int| 1 <= i < s.len() ==> (#[trigger] s[i]).dtime >= 1
}

/// What a waveform and a target count must satisfy for resampling: at
/// least two points on each side, and every value within the ranges the
/// fixed-point model carries exactly.
pub open spec fn resample_args_ok(s: Seq<VoltageWaveFormPoint>, n: int) -> bool {
    &&& s.len() >= 2
    &&& n >= 2
    &&& n <= MAX_RESAMPLE_POINTS
    &&& waveform_bounded(s, MAX_VOLTAGE_UV as int, MAX_TIME_NS as int)
    &&& interior_positive(s)
    &&& spec_span(s) <= MAX_TIME_NS
}

/// The uniform elapsed time between two resampled points.
pub open spec fn spec_sampling(s: Seq<VoltageWaveFormPoint>, n: int) -> int {
    spec_span(s) / (n - 1)
}

/// Index of the segment that brackets absolute time `x`, scanning
/// forward from `k`: the least index whose successor's position reaches
/// `x`, capped at the last segment.
pub open spec fn spec_seg(s: Seq<VoltageWaveFormPoint>, x: int, k: int) -> int
    decreases s.len() - k,
{
    if k >= s.len() - 2 {
        s.len() - 2
    } else if x <= spec_pos(s, k + 1) {
        k
    } else {
        spec_seg(s, x, k + 1)
    }
}

/// The piecewise-linear interpolation of a waveform at absolute time
/// `x`, with the fixed-point quotient floored.
pub open spec fn spec_interp(s: Seq<VoltageWaveFormPoint>, x: int) -> int {
    let k = spec_seg(s, x, 0);
    s[k].voltage + (x - spec_pos(s, k)) * (s[k + 1].voltage - s[k].voltage) / (spec_pos(s, k + 1)
        - spec_pos(s, k))
}

/// Positions step by the elapsed time of the point they reach.
proof fn lemma_pos_step(s: Seq<VoltageWaveFormPoint>, k: int)
    requires
        k >= 0,
    ensures
        spec_pos(s, k + 1) == spec_pos(s, k) + s[k + 1].dtime,
{
}

/// Between two indices the position grows by at least their distance and
/// never shrinks.
proof fn lemma_pos_monotone(s: Seq<VoltageWaveFormPoint>, a: int, b: int)
    requires
        0 <= a <= b <= s.len() - 1,
        interior_positive(s),
    ensures
        spec_pos(s, b) - spec_pos(s, a) >= b - a,
    decreases b - a,
{
    if a < b {
        lemma_pos_monotone(s, a, b - 1);
    }
}

/// Scanning for a bracketing segment can start past every segment whose
/// end lies strictly before `x`.
proof fn lemma_seg_from(s: Seq<VoltageWaveFormPoint>, x: int, k0: int, k: int)
    requires
        0 <= k0 <= k <= s.len() - 2,
        forall|j: int| k0 <= j < k ==> spec_pos(s, #[trigger] (j + 1)) < x,
    ensures
        spec_seg(s, x, k0) == spec_seg(s, x, k),
    decreases k - k0,
{
    if k0 < k {
        assert(spec_pos(s, k0 + 1) < x);
        lemma_seg_from(s, x, k0 + 1, k);
    }
}

/// Bounds of the floored interpolation quotient: it never leaves the
/// interval spanned by zero and the voltage difference.
pub proof fn lemma_interp_quotient_bounds(a: int, dy: int, d: int)
    requires
        0 <= a <= d,
        1 <= d,
    ensures
        dy >= 0 ==> 0 <= a * dy / d <= dy,
        dy < 0 ==> dy <= a * dy / d <= 0,
{
    if dy >= 0 {
        assert(0 <= a * dy <= d * dy) by (nonlinear_arith)
            requires
                0 <= a <= d,
                dy >= 0,
        ;
        lemma_div_pos_is_pos(a * dy, d);
        lemma_div_is_ordered(a * dy, d * dy, d);
        lemma_div_multiples_vanish(dy, d);
    } else {
        assert(d * dy <= a * dy <= 0) by (nonlinear_arith)
            requires
                0 <= a <= d,
                dy < 0,
        ;
        lemma_div_is_ordered(d * dy, a * dy, d);
        lemma_div_is_ordered(a * dy, 0, d);
        lemma_div_multiples_vanish(dy, d);
        assert(0int / d == 0) by {
            lemma_div_pos_is_pos(0, d);
            lemma_div_is_ordered(0, 0, d);
            vstd::arithmetic::div_mod::lemma_fundamental_div_mod_converse_div(0, d, 0, 0);
        }
    }
}

/// Resamples a sparse waveform into `n_points` evenly spaced points.
///
/// Every output point advances time by the same floored interval and
/// carries the exact piecewise-linear interpolation of the input at its
/// position. The bracketing scan walks the input once, never backward.
/// Succeeds exactly on arguments that satisfy `resample_args_ok`.
pub fn resample_waveform(waveform: &Vec<VoltageWaveFormPoint>, n_points: usize) -> (r: Result<
    Vec<VoltageWaveFormPoint>,
    Error,
>)
    ensures
        r is Ok <==> resample_args_ok(waveform@, n_points as int),
        r matches Ok(out) ==> ({
            &&& out@.len() == n_points
            &&& forall|i: int|
                0 <= i < n_points ==> (#[trigger] out@[i]).dtime == spec_sampling(
                    waveform@,
                    n_points as int,
                ) && out@[i].voltage == spec_interp(
                    waveform@,
                    i * spec_sampling(waveform@, n_points as int),
                )
        }),
        r matches Err(e) ==> e is BadArguments,
{
    let ghost s = waveform@;
    if waveform.len() < 2 {
        return Err(
            Error::BadArguments(String::from_str("`waveform` param needs to have at least 2 elements")),
        );
    }
    if n_points < 2 || n_points > MAX_RESAMPLE_POINTS {
        return Err(Error::BadArguments(String::from_str("sample count out of range")));
    }
    let len: usize = waveform.len();
    let mut i: usize = 0;
    while i < len
        invariant
            s == waveform@,
            len == s.len(),
            0 <= i <= len,
            forall|j: int|
                0 <= j < i ==> -MAX_VOLTAGE_UV <= (#[trigger] s[j]).voltage <= MAX_VOLTAGE_UV && 0
                    <= s[j].dtime <= MAX_TIME_NS,
            forall|j: int| 1 <= j < i ==> (#[trigger] s[j]).dtime >= 1,
        decreases len - i,
    {
        let p = waveform[i];
        if p.voltage < -MAX_VOLTAGE_UV || p.voltage > MAX_VOLTAGE_UV {
            return Err(Error::BadArguments(String::from_str("voltage out of range")));
        }
        if p.dtime < 0 || p.dtime > MAX_TIME_NS {
            return Err(Error::BadArguments(String::from_str("elapsed time out of range")));
        }
        if i >= 1 && p.dtime < 1 {
            return Err(Error::BadArguments(String::from_str("elapsed time must be positive")));
        }
        i = i + 1;
    }
    let mut total: i64 = 0;
    let mut k: usize = 1;
    while k < len
        invariant
            s == waveform@,
            len == s.len(),
            len >= 2,
            1 <= k <= len,
            waveform_bounded(s, MAX_VOLTAGE_UV as int, MAX_TIME_NS as int),
            interior_positive(s),
            total == spec_pos(s, k - 1),
            0 <= total <= MAX_TIME_NS,
        decreases len - k,
    {
        total = total + waveform[k].dtime;
        proof {
            lemma_pos_step(s, k - 1);
        }
        if total > MAX_TIME_NS {
            proof {
                lemma_pos_monotone(s, k as int, s.len() - 1);
            }
            return Err(Error::BadArguments(String::from_str("waveform span out of range")));
        }
        k = k + 1;
    }
    assert(total == spec_span(s));
    let n1: i64 = (n_points - 1) as i64;
    let samp: i64 = floor_div(total, n1);
    proof {
        lemma_fundamental_div_mod(total as int, n1 as int);
        lemma_div_pos_is_pos(total as int, n1 as int);
        assert((n1 as int) * (samp as int) == (samp as int) * (n1 as int)) by (nonlinear_arith);
        assert((samp as int) * (n1 as int) <= total as int);
    }
    let mut out: Vec<VoltageWaveFormPoint> = Vec::new();
    let mut cur: usize = 0;
    let mut ct: i64 = 0;
    let mut i: usize = 0;
    while i < n_points
        invariant
            s == waveform@,
            len == s.len(),
            len >= 2,
            2 <= n_points,
            waveform_bounded(s, MAX_VOLTAGE_UV as int, MAX_TIME_NS as int),
            interior_positive(s),
            total == spec_span(s),
            0 <= total <= MAX_TIME_NS,
            n1 == n_points - 1,
            samp == spec_sampling(s, n_points as int),
            samp >= 0,
            (samp as int) * (n1 as int) <= total as int,
            0 <= i <= n_points,
            0 <= cur <= len - 2,
            ct == spec_pos(s, cur as int),
            0 <= ct,
            ct <= (i as int) * (samp as int),
            forall|j: int| 0 <= j < cur ==> spec_pos(s, #[trigger] (j + 1)) < (i as int) * (
            samp as int),
            out@.len() == i,
            forall|j: int|
                0 <= j < i ==> (#[trigger] out@[j]).dtime == samp && out@[j].voltage == spec_interp(
                    s,
                    j * (samp as int),
                ),
        decreases n_points - i,
    {
        proof {
            assert((i as int) * (samp as int) <= (n1 as int) * (samp as int)) by (nonlinear_arith)
                requires
                    i as int <= n1 as int,
                    samp as int >= 0,
            ;
            assert((n1 as int) * (samp as int) == (samp as int) * (n1 as int))
                by (nonlinear_arith);
            assert(0 <= (i as int) * (samp as int)) by (nonlinear_arith)
                requires
                    i as int >= 0,
                    samp as int >= 0,
            ;
        }
        let time: i64 = (i as i64) * samp;
        assert(time <= total);
        while time > ct + waveform[cur + 1].dtime
            invariant
                s == waveform@,
                len == s.len(),
                len >= 2,
                waveform_bounded(s, MAX_VOLTAGE_UV as int, MAX_TIME_NS as int),
                interior_positive(s),
                total == spec_span(s),
                0 <= total <= MAX_TIME_NS,
                0 <= cur <= len - 2,
                ct == spec_pos(s, cur as int),
                0 <= ct,
                ct <= time,
                time <= total,
                forall|j: int| 0 <= j < cur ==> spec_pos(s, #[trigger] (j + 1)) < time,
            decreases len - cur,
        {
            proof {
                lemma_pos_step(s, cur as int);
                if cur + 2 > len - 1 {
                    assert(spec_pos(s, cur as int + 1) == total);
                }
                lemma_pos_monotone(s, cur as int + 1, s.len() - 1);
            }
            ct = ct + waveform[cur + 1].dtime;
            cur = cur + 1;
        }
        proof {
            lemma_pos_step(s, cur as int);
        }
        let y0: i64 = waveform[cur].voltage;
        let y1: i64 = waveform[cur + 1].voltage;
        let den: i64 = waveform[cur + 1].dtime;
        let a: i64 = time - ct;
        proof {
            assert(-MAX_VOLTAGE_UV <= s[cur as int].voltage <= MAX_VOLTAGE_UV);
            assert(-MAX_VOLTAGE_UV <= s[cur as int + 1].voltage <= MAX_VOLTAGE_UV);
            assert(1 <= s[cur as int + 1].dtime <= MAX_TIME_NS);
            assert(0 <= a as int <= den as int);
            assert(-(0x100000000000000000000i128 as int) <= (a as int) * ((y1 - y0) as int)
                <= 0x100000000000000000000i128 as int) by (nonlinear_arith)
                requires
                    0 <= a as int <= MAX_TIME_NS as int,
                    -2 * (MAX_VOLTAGE_UV as int) <= (y1 - y0) as int <= 2 * (
                    MAX_VOLTAGE_UV as int),
            ;
        }
        let num: i128 = (a as i128) * ((y1 - y0) as i128);
        let q128: i128 = floor_div_i128(num, den as i128);
        proof {
            lemma_interp_quotient_bounds(a as int, (y1 - y0) as int, den as int);
        }
        let y: i64 = y0 + (q128 as i64);
        proof {
            lemma_seg_from(s, time as int, 0, cur as int);
            assert(spec_seg(s, time as int, cur as int) == cur as int);
            assert(y as int == spec_interp(s, (i as int) * (samp as int)));
        }
        out.push(VoltageWaveFormPoint { voltage: y, dtime: samp });
        proof {
            assert(((i + 1) as int) * (samp as int) == (i as int) * (samp as int) + (samp as int))
                by (nonlinear_arith);
        }
        i = i + 1;
    }
    Ok(out)
}

/// A source of noise draws, in microvolts. The waveform logic only
/// consumes the drawn numbers; the floating-point Gaussian sampler that
/// produces them lives outside the verified crate, behind this port.
/// A draw with zero sigma is expected to return the mean.
pub trait NoiseSource {
    fn draw_gaussian(&mut self, mean: i64, sigma: i64) -> i64;
}

/// The sum clamped into the signed word, exactly where it fits.
fn saturating_add_i64(a: i64, b: i64) -> (r: i64)
    ensures
        a + b > i64::MAX ==> r == i64::MAX,
        a + b < i64::MIN ==> r == i64::MIN,
        i64::MIN <= a + b <= i64::MAX ==> r == a + b,
{
    let wide: i128 = (a as i128) + (b as i128);
    if wide > i64::MAX as i128 {
        i64::MAX
    } else if wide < i64::MIN as i128 {
        i64::MIN
    } else {
        wide as i64
    }
}

/// Resamples a sparse waveform onto `n_points` evenly spaced positions,
/// perturbs every sample by an independent Gaussian draw, and sends the
/// result to the addressed pattern, one vector per sample at the uniform
/// interval.
///
/// Arguments are rejected before any driver call exactly when the
/// resampling pass would reject them.
pub fn add_noisy_waveform<D: WgfmuDriver, N: NoiseSource>(
    wgfmu: &mut D,
    waveform: &Vec<VoltageWaveFormPoint>,
    n_points: usize,
    pattern: usize,
    noise: Noise,
    rng: &mut N,
) -> (r: Result<(), Error>)
    ensures
        (r matches Err(e) && e is BadArguments) <==> !resample_args_ok(
            waveform@,
            n_points as int,
        ),
        r matches Err(e) ==> e is BadArguments || e is WgfmuError,
{
    let sampled = match resample_waveform(waveform, n_points) {
        Ok(v) => v,
        Err(e) => {
            return Err(e);
        },
    };
    let mean: i64;
    let sigma: i64;
    match noise {
        Noise::Gaussian(params) => {
            mean = params.mean;
            sigma = params.sigma;
        },
    }
    let samp: i64 = sampled[0].dtime;
    let mut i: usize = 0;
    while i < sampled.len()
        invariant
            0 <= i <= sampled@.len(),
            sampled@.len() >= 2,
            resample_args_ok(waveform@, n_points as int),
        decreases sampled@.len() - i,
    {
        let voltage: i64 = saturating_add_i64(sampled[i].voltage, rng.draw_gaussian(mean, sigma));
        let res = wgfmu.add_vector(pattern, samp, voltage);
        match res {
            Ok(_) => {},
            Err(e) => {
                return Err(Error::WgfmuError(e));
            },
        }
        i = i + 1;
    }
    Ok(())
}

/// Sends every point of a waveform to the addressed pattern unchanged.
pub fn add_waveform<D: WgfmuDriver>(
    wgfmu: &mut D,
    waveform: &Vec<VoltageWaveFormPoint>,
    pattern: usize,
) -> (r: Result<(), Error>)
    ensures
        r matches Err(e) ==> e is WgfmuError,
{
    let mut i: usize = 0;
    while i < waveform.len()
        decreases waveform.len() - i,
    {
        let p = waveform[i];
        let res = wgfmu.add_vector(pattern, p.dtime, p.voltage);
        match res {
            Ok(_) => {},
            Err(e) => {
                return Err(Error::WgfmuError(e));
            },
        }
        i = i + 1;
    }
    Ok(())
}

/// Clears the instrument, opens a session when a name is given, brings
/// both channels into fast-IV operation, and runs the instrument's self
/// calibration. Any driver failure aborts the remaining steps and is
/// propagated verbatim.
pub fn calibrate<D: WgfmuDriver>(wgfmu: &mut D, instrument: Option<&str>) -> (r: Result<
    (),
    Error,
>)
    ensures
        r matches Err(e) ==> e is WgfmuError,
{
    match wgfmu.clear() {
        Ok(_) => {},
        Err(e) => {
            return Err(Error::WgfmuError(e));
        },
    }
    match instrument {
        Some(name) => {
            match wgfmu.open_session(name) {
                Ok(_) => {},
                Err(e) => {
                    return Err(Error::WgfmuError(e));
                },
            }
        },
        None => {},
    }
    match wgfmu.initialize() {
        Ok(_) => {},
        Err(e) => {
            return Err(Error::WgfmuError(e));
        },
    }
    match wgfmu.set_operation_mode(crate::driver::CHANNEL2, crate::driver::OperationMode::OperationModeFastIV) {
        Ok(_) => {},
        Err(e) => {
            return Err(Error::WgfmuError(e));
        },
    }
    match wgfmu.set_operation_mode(crate::driver::CHANNEL1, crate::driver::OperationMode::OperationModeFastIV) {
        Ok(_) => {},
        Err(e) => {
            return Err(Error::WgfmuError(e));
        },
    }
    match wgfmu.set_measure_mode(crate::driver::CHANNEL2, crate::driver::MeasureMode::MeasureModeVoltage) {
        Ok(_) => {},
        Err(e) => {
            return Err(Error::WgfmuError(e));
        },
    }
    match wgfmu.set_measure_mode(crate::driver::CHANNEL1, crate::driver::MeasureMode::MeasureModeCurrent) {
        Ok(_) => {},
        Err(e) => {
            return Err(Error::WgfmuError(e));
        },
    }
    match wgfmu.connect(crate::driver::CHANNEL2) {
        Ok(_) => {},
        Err(e) => {
            return Err(Error::WgfmuError(e));
        },
    }
    match wgfmu.connect(crate::driver::CHANNEL1) {
        Ok(_) => {},
        Err(e) => {
            return Err(Error::WgfmuError(e));
        },
    }
    match wgfmu.do_self_calibration() {
        Ok(_) => {},
        Err(e) => {
            return Err(Error::WgfmuError(e));
        },
    }
    match instrument {
        Some(_) => {
            match wgfmu.close_session() {
                Ok(_) => {},
                Err(e) => {
                    return Err(Error::WgfmuError(e));
                },
            }
        },
        None => {},
    }
    Ok(())
}

} // verus!
