//! Spike-timing-dependent-plasticity measurements: the asymmetric
//! pre/post-spike waveform, one STDP measurement, and the adaptive
//! delay-sweep controller with its bounded retry policy.

use crate::driver::{
    ground_pattern, margin_pattern, stimulus_pattern, MeasureEventMode, Measurement, WgfmuDriver,
    CHANNEL1, CHANNEL2, EVENT_STDP,
};
use crate::intmath::{floor_div, floor_div_i128};
use crate::measure::Error;
use crate::session::{configure_fastiv, measure_conductance_fastiv, open_session_retrying};
use crate::timing::{
    resolve_segment_sampling, round_10ns, spec_avg_after, spec_points_base, spec_resolution,
    spec_round_10ns, GRID_NS, MAX_TIME_NS,
};
use crate::types::{
    push_point, total_dtime, waveform_bounded, GaussianNoise, Noise, VoltageWaveFormPoint,
    MAX_VOLTAGE_UV,
};
use crate::utils::{add_noisy_waveform, add_waveform, resample_args_ok, NoiseSource};
use vstd::arithmetic::div_mod::{
    lemma_div_is_ordered, lemma_div_multiples_vanish, lemma_div_pos_is_pos,
    lemma_fundamental_div_mod,
};
use vstd::prelude::*;

verus! {

/// Direction of the intended conductance change: depression drives it
/// down, potenciation drives it up.
#[derive(Clone, Copy, Debug, PartialEq, Eq, Structural)]
pub enum StdpType {
    Depression,
    Potenciation,
}

/// Sign the waveform voltages carry for each direction.
pub open spec fn spec_stdp_mult(t: StdpType) -> int {
    match t {
        StdpType::Depression => 1,
        StdpType::Potenciation => -1,
    }
}

/// Plateau voltage of the overlap region: the pulse slope times the
/// delay, signed by the direction.
pub open spec fn spec_constant_v_high(amplitude: int, pulse_duration: int, delay: int, t: StdpType) -> int {
    spec_stdp_mult(t) * ((amplitude * delay) / pulse_duration)
}

/// Voltage cut away below the plateau by the opposing spike.
pub open spec fn spec_cutting_v(amplitude: int, pulse_duration: int, delay: int) -> int {
    (amplitude * (pulse_duration / 2 - delay)) / pulse_duration
}

/// Voltage of the lower pulse between the two plateaus.
pub open spec fn spec_low_v(amplitude: int, pulse_duration: int, delay: int, t: StdpType) -> int {
    spec_stdp_mult(t) * (-spec_cutting_v(amplitude, pulse_duration, delay) - amplitude / 2)
}

/// The pre/post-spike pulse pair as sent to the stimulus channel: idle,
/// plateau, lower pulse, second plateau, idle; a zero delay degenerates
/// to the symmetric shape without the cutting segments.
pub open spec fn spec_stdp_waveform(
    delay: i64,
    amplitude: i64,
    pulse_duration: i64,
    wait_time: i64,
    t: StdpType,
) -> Seq<VoltageWaveFormPoint> {
    let half = (pulse_duration as int / 2) as i64;
    let cvh = spec_constant_v_high(amplitude as int, pulse_duration as int, delay as int, t) as i64;
    let low = spec_low_v(amplitude as int, pulse_duration as int, delay as int, t) as i64;
    if delay != 0 {
        seq![
            VoltageWaveFormPoint { voltage: 0, dtime: GRID_NS },
            VoltageWaveFormPoint { voltage: 0, dtime: wait_time },
            VoltageWaveFormPoint { voltage: cvh, dtime: delay },
            VoltageWaveFormPoint { voltage: cvh, dtime: (half - delay) as i64 },
            VoltageWaveFormPoint { voltage: low, dtime: GRID_NS },
            VoltageWaveFormPoint { voltage: low, dtime: delay },
            VoltageWaveFormPoint { voltage: cvh, dtime: GRID_NS },
            VoltageWaveFormPoint { voltage: cvh, dtime: (half - delay) as i64 },
            VoltageWaveFormPoint { voltage: 0, dtime: delay },
            VoltageWaveFormPoint { voltage: 0, dtime: wait_time },
        ]
    } else {
        seq![
            VoltageWaveFormPoint { voltage: 0, dtime: GRID_NS },
            VoltageWaveFormPoint { voltage: 0, dtime: wait_time },
            VoltageWaveFormPoint { voltage: cvh, dtime: half },
            VoltageWaveFormPoint { voltage: 0, dtime: wait_time },
            VoltageWaveFormPoint { voltage: 0, dtime: wait_time },
        ]
    }
}

/// A slope evaluated at no more than half the pulse never exceeds half
/// the amplitude: `(a * (p/2)) / p <= a / 2`.
proof fn lemma_half_slope_bound(a: int, p: int)
    requires
        a >= 0,
        p >= 1,
    ensures
        (a * (p / 2)) / p <= a / 2,
{
    let h = p / 2;
    lemma_div_pos_is_pos(p, 2);
    lemma_fundamental_div_mod(p, 2);
    let q = (a * h) / p;
    lemma_fundamental_div_mod(a * h, p);
    assert(2 * q <= a) by (nonlinear_arith)
        requires
            a * h == p * q + (a * h) % p,
            (a * h) % p >= 0,
            p == 2 * h + p % 2,
            p % 2 >= 0,
            a >= 0,
            p >= 1,
            h >= 0,
    ;
    lemma_div_is_ordered(2 * q, a, 2);
    lemma_div_multiples_vanish(q, 2);
}

/// Builds the seven-segment pre/post-spike pulse pair.
///
/// Its total elapsed time is pinned exactly: with a nonzero delay it is
/// `2 * wait_time + pulse_duration + delay` up to the half-duration
/// rounding and the three 10 ns edge vectors; with a zero delay the
/// degenerate symmetric shape is produced instead.
pub fn stdp_voltage_waveform(
    delay: i64,
    amplitude: i64,
    pulse_duration: i64,
    wait_time: i64,
    stdp_type: StdpType,
) -> (out: Vec<VoltageWaveFormPoint>)
    requires
        0 <= amplitude <= MAX_VOLTAGE_UV,
        1 <= pulse_duration <= MAX_TIME_NS,
        0 <= wait_time <= MAX_TIME_NS,
        0 <= delay <= pulse_duration / 2,
    ensures
        out@ == spec_stdp_waveform(delay, amplitude, pulse_duration, wait_time, stdp_type),
        waveform_bounded(out@, MAX_VOLTAGE_UV as int, MAX_TIME_NS as int),
        delay != 0 ==> total_dtime(out@) == 2 * wait_time + delay + 2 * (pulse_duration as int
            / 2) + 3 * GRID_NS,
        delay == 0 ==> total_dtime(out@) == 3 * wait_time + pulse_duration as int / 2 + GRID_NS,
{
    let half: i64 = floor_div(pulse_duration, 2);
    let mult: i64 = match stdp_type {
        StdpType::Potenciation => -1,
        StdpType::Depression => 1,
    };
    proof {
        assert((amplitude as int) * (delay as int) == (delay as int) * (amplitude as int))
            by (nonlinear_arith);
        crate::utils::lemma_interp_quotient_bounds(
            delay as int,
            amplitude as int,
            pulse_duration as int,
        );
        assert(0 <= (amplitude as int) * (delay as int) <= (MAX_VOLTAGE_UV as int) * (
        MAX_TIME_NS as int)) by (nonlinear_arith)
            requires
                0 <= amplitude as int <= MAX_VOLTAGE_UV as int,
                0 <= delay as int <= MAX_TIME_NS as int,
        ;
    }
    let num_high: i128 = (amplitude as i128) * (delay as i128);
    let q_high: i128 = floor_div_i128(num_high, pulse_duration as i128);
    proof {
        assert(0 <= q_high as int <= amplitude as int);
        assert(-(MAX_VOLTAGE_UV as int) <= (mult as int) * (q_high as int) <= MAX_VOLTAGE_UV as int)
            by (nonlinear_arith)
            requires
                mult as int == 1 || mult as int == -1,
                0 <= q_high as int <= MAX_VOLTAGE_UV as int,
        ;
    }
    let constant_v_high: i64 = mult * (q_high as i64);
    let seg: i64 = half - delay;
    proof {
        assert((amplitude as int) * (seg as int) == (seg as int) * (amplitude as int))
            by (nonlinear_arith);
        crate::utils::lemma_interp_quotient_bounds(
            seg as int,
            amplitude as int,
            pulse_duration as int,
        );
        assert(0 <= (amplitude as int) * (seg as int) <= (MAX_VOLTAGE_UV as int) * (
        MAX_TIME_NS as int)) by (nonlinear_arith)
            requires
                0 <= amplitude as int <= MAX_VOLTAGE_UV as int,
                0 <= seg as int <= MAX_TIME_NS as int,
        ;
    }
    let num_cut: i128 = (amplitude as i128) * (seg as i128);
    let q_cut: i128 = floor_div_i128(num_cut, pulse_duration as i128);
    let cutting_v: i64 = q_cut as i64;
    let half_amp: i64 = floor_div(amplitude, 2);
    proof {
        lemma_div_pos_is_pos(amplitude as int, 2);
        assert((amplitude as int) * (seg as int) <= (amplitude as int) * ((pulse_duration as int)
            / 2)) by (nonlinear_arith)
            requires
                amplitude as int >= 0,
                seg as int <= (pulse_duration as int) / 2,
        ;
        lemma_div_is_ordered(
            (amplitude as int) * (seg as int),
            (amplitude as int) * ((pulse_duration as int) / 2),
            pulse_duration as int,
        );
        lemma_half_slope_bound(amplitude as int, pulse_duration as int);
        lemma_fundamental_div_mod(amplitude as int, 2);
    }
    proof {
        assert(0 <= cutting_v as int + half_amp as int <= amplitude as int);
        assert(-(MAX_VOLTAGE_UV as int) <= (mult as int) * (-(cutting_v as int) - (
        half_amp as int)) <= MAX_VOLTAGE_UV as int) by (nonlinear_arith)
            requires
                mult as int == 1 || mult as int == -1,
                0 <= cutting_v as int + half_amp as int <= MAX_VOLTAGE_UV as int,
        ;
    }
    let low_v: i64 = mult * (-cutting_v - half_amp);
    let mut waveform: Vec<VoltageWaveFormPoint> = Vec::new();
    push_point(&mut waveform, 0, GRID_NS);
    push_point(&mut waveform, 0, wait_time);
    if delay != 0 {
        push_point(&mut waveform, constant_v_high, delay);
    }
    push_point(&mut waveform, constant_v_high, half - delay);
    if delay != 0 {
        push_point(&mut waveform, low_v, GRID_NS);
        push_point(&mut waveform, low_v, delay);
        push_point(&mut waveform, constant_v_high, GRID_NS);
        push_point(&mut waveform, constant_v_high, half - delay);
        push_point(&mut waveform, 0, delay);
    } else {
        push_point(&mut waveform, 0, wait_time);
    }
    push_point(&mut waveform, 0, wait_time);
    proof {
        assert(waveform@ =~= spec_stdp_waveform(
            delay,
            amplitude,
            pulse_duration,
            wait_time,
            stdp_type,
        ));
        assert forall|i: int| 0 <= i < waveform@.len() implies -MAX_VOLTAGE_UV <= (
        #[trigger] waveform@[i]).voltage <= MAX_VOLTAGE_UV && 0 <= waveform@[i].dtime
            <= MAX_TIME_NS by {}
    }
    waveform
}

/// One completed STDP measurement: the retrieved stimulus samples and
/// the post-pulse conductance in nanosiemens.
#[derive(Clone, Debug)]
pub struct StdpMeasurement {
    pub iv: Vec<Measurement>,
    pub conductance: i64,
}

/// An STDP measurement tagged with its signed delay in nanoseconds:
/// negative for depression, positive for potenciation.
#[derive(Clone, Debug)]
pub struct StdpMeasurementWrapper {
    pub stdp_measurement: StdpMeasurement,
    pub delay: i64,
}

/// A whole delay sweep: the conductance before any pulse and every
/// attempt that was made, retries included, in the order they happened.
#[derive(Clone, Debug)]
pub struct StdpCollectionMeasurement {
    pub base_conductance: i64,
    pub collection: Vec<StdpMeasurementWrapper>,
}

/// How the sweep treats each delay: one measurement per delay, or
/// repeated attempts that try to force the conductance in the intended
/// direction.
#[derive(Clone, Copy, Debug, PartialEq, Eq, Structural)]
pub enum StdpCollectionMeasMode {
    SequentialMeasurement,
    ForceConductanceMeasurement,
}

/// Ceiling on the extra attempts per delay in the force-conductance
/// mode.
pub const MAX_FORCE_CONDUCTANCE_TRIES: usize = 3;

/// The waveform cycle of one STDP measurement: the delay, both idle
/// waits, and the pulse, clamped to the grid.
pub open spec fn spec_stdp_cycle(delay: int, wait_time: int, pulse_duration: int) -> int {
    spec_round_10ns(delay + 2 * wait_time + pulse_duration)
}

/// The measurable time of one STDP cycle: the cycle clamped once more,
/// with the margin tick reserved out.
pub open spec fn spec_stdp_measure_total(delay: int, wait_time: int, pulse_duration: int) -> int {
    spec_round_10ns(spec_round_10ns(spec_stdp_cycle(delay, wait_time, pulse_duration)) - 10)
}

/// How many samples a noisy STDP run asks the resampler for: the
/// resolved point count, clamped into the resampler's accepted range so
/// that a count it cannot take surfaces as an argument error.
pub open spec fn spec_stdp_sample_count(
    delay: int,
    wait_time: int,
    pulse_duration: int,
    n_points: int,
    avg_time: int,
) -> int {
    let measure_total = spec_stdp_measure_total(delay, wait_time, pulse_duration);
    let resolution = spec_resolution(measure_total, n_points);
    let reduced_avg = spec_avg_after(avg_time, resolution);
    let points = spec_points_base(measure_total, reduced_avg, resolution);
    if points < 0 {
        0
    } else if points > 1_000_000_000 {
        1_000_000_001
    } else {
        points
    }
}

/// A positive resolved sampling interval forces the measurable time to
/// cover at least one grid tick per requested point.
proof fn lemma_resolution_implies_total(measure_total: int, n: int)
    requires
        spec_resolution(measure_total, n) >= 1,
        1 <= n,
    ensures
        measure_total >= 10 * n,
{
    let q = measure_total / n;
    let h = q / 10;
    assert(h >= 1) by {
        if h <= 0 {
            assert(h * 10 <= 0) by (nonlinear_arith)
                requires
                    h <= 0,
            ;
        }
    }
    lemma_fundamental_div_mod(q, 10);
    assert(q >= 10) by (nonlinear_arith)
        requires
            q == 10 * h + q % 10,
            q % 10 >= 0,
            h >= 1,
    ;
    lemma_fundamental_div_mod(measure_total, n);
    assert(measure_total >= 10 * n) by (nonlinear_arith)
        requires
            measure_total == n * q + measure_total % n,
            measure_total % n >= 0,
            q >= 10,
            n >= 1,
    ;
}

/// A cycle that grants eleven grid ticks per requested point, plus the
/// rounding slack, resolves to a positive sampling interval.
pub proof fn lemma_stdp_resolution_sufficient(
    delay: int,
    wait_time: int,
    pulse_duration: int,
    n: int,
)
    requires
        delay >= 0,
        wait_time >= 0,
        pulse_duration >= 1,
        1 <= n,
        2 * wait_time + pulse_duration >= 11 * n + 30,
    ensures
        spec_resolution(spec_stdp_measure_total(delay, wait_time, pulse_duration), n) >= 1,
{
    let raw = delay + 2 * wait_time + pulse_duration;
    let cycle = spec_round_10ns(raw);
    crate::timing::lemma_round_10ns_bounds(raw);
    crate::timing::lemma_round_10ns_idempotent(raw);
    let tt = spec_round_10ns(cycle);
    let mtt = spec_round_10ns(tt - 10);
    crate::timing::lemma_round_10ns_bounds(tt - 10);
    assert(mtt > raw - 30);
    assert(mtt >= 11 * n + 1);
    let q = mtt / n;
    assert(q >= 11) by {
        lemma_div_is_ordered(11 * n, mtt, n);
        lemma_fundamental_div_mod(11 * n, n);
        assert((11 * n) / n == 11) by {
            assert(11 * n == n * 11);
            lemma_div_multiples_vanish(11, n);
        }
    }
    assert(q / 10 >= 1) by {
        lemma_div_is_ordered(10, q, 10);
        assert(10int / 10 == 1) by {
            lemma_div_multiples_vanish(1, 10);
        }
    }
    assert((q / 10) * 10 >= 10) by (nonlinear_arith)
        requires
            q / 10 >= 1,
    ;
}

/// Performs one STDP measurement: stages the spike-pair waveform and
/// its ground pattern, runs the session, retrieves the samples, lets
/// the transients settle for the fixed guard time, and probes the
/// conductance after the pulse.
///
/// A conductance it returns is never negative; every failure is a
/// propagated driver error, an argument error of the staging, or a
/// condition of the probe's retrieved train; and on a successful noisy
/// run the staged waveform was a valid resampling input.
pub fn measure_stdp_fastiv<D: WgfmuDriver, N: NoiseSource>(
    wgfmu: &mut D,
    instrument: Option<&str>,
    delay: i64,
    amplitude: i64,
    pulse_duration: i64,
    wait_time: i64,
    n_points: usize,
    avg_time: i64,
    stdp_type: StdpType,
    noise: bool,
    noise_std: i64,
    rng: &mut N,
) -> (r: Result<StdpMeasurement, Error>)
    requires
        0 <= amplitude <= MAX_VOLTAGE_UV,
        1 <= pulse_duration <= MAX_TIME_NS,
        0 <= wait_time <= MAX_TIME_NS,
        0 <= delay <= pulse_duration / 2,
        delay + 2 * wait_time + pulse_duration <= MAX_TIME_NS,
        1 <= n_points <= 1_000_000_000,
        0 <= avg_time <= MAX_TIME_NS,
        spec_resolution(
            spec_stdp_measure_total(delay as int, wait_time as int, pulse_duration as int),
            n_points as int,
        ) >= 1,
    ensures
        r matches Ok(m) ==> m.conductance >= 0,
        r matches Err(e) ==> e is WgfmuError || e is UtilsError || e is ConductanceUndefined
            || e is SampleOutOfRange,
        noise && r is Ok ==> resample_args_ok(
            spec_stdp_waveform(delay, amplitude, pulse_duration, wait_time, stdp_type),
            spec_stdp_sample_count(
                delay as int,
                wait_time as int,
                pulse_duration as int,
                n_points as int,
                avg_time as int,
            ),
        ),
{
    match wgfmu.clear() {
        Ok(_) => {},
        Err(e) => {
            return Err(Error::WgfmuError(e));
        },
    }
    let cycle_time: i64 = round_10ns(delay + wait_time * 2 + pulse_duration);
    proof {
        crate::timing::lemma_round_10ns_bounds(
            delay as int + 2 * wait_time as int + pulse_duration as int,
        );
        crate::timing::lemma_round_10ns_idempotent(
            delay as int + 2 * wait_time as int + pulse_duration as int,
        );
    }
    let mut avg_time = avg_time;
    let totaltime: i64 = round_10ns(cycle_time);
    proof {
        crate::timing::lemma_round_10ns_bounds(totaltime as int - 10);
        lemma_resolution_implies_total(
            spec_stdp_measure_total(delay as int, wait_time as int, pulse_duration as int),
            n_points as int,
        );
        assert(10 * n_points as int >= 0) by (nonlinear_arith)
            requires
                n_points as int >= 1,
        ;
    }
    let measure_totaltime: i64 = round_10ns(totaltime - 10);
    let (resolution, points) = resolve_segment_sampling(
        measure_totaltime,
        n_points,
        &mut avg_time,
        false,
    );
    let waveform = stdp_voltage_waveform(delay, amplitude, pulse_duration, wait_time, stdp_type);
    let stim: usize = stimulus_pattern(0);
    let margin: usize = margin_pattern(0);
    let ground: usize = ground_pattern(0);
    match wgfmu.create_pattern(stim, 0) {
        Ok(_) => {},
        Err(e) => {
            return Err(Error::WgfmuError(e));
        },
    }
    if !noise {
        match add_waveform(wgfmu, &waveform, stim) {
            Ok(_) => {},
            Err(e) => {
                return Err(Error::UtilsError(e));
            },
        }
    } else {
        // A point count that is negative or beyond the resampler's cap
        // cannot be sampled; it is handed over as an out-of-range count
        // so the argument error surfaces before any driver call.
        let sample_count: usize = if points < 0 {
            0
        } else if points > 1_000_000_000 {
            1_000_000_001
        } else {
            points as usize
        };
        match add_noisy_waveform(
            wgfmu,
            &waveform,
            sample_count,
            stim,
            Noise::Gaussian(GaussianNoise { mean: 0, sigma: noise_std }),
            rng,
        ) {
            Ok(_) => {},
            Err(e) => {
                return Err(Error::UtilsError(e));
            },
        }
    }
    match wgfmu.add_sequence(CHANNEL2, stim, 1) {
        Ok(_) => {},
        Err(e) => {
            return Err(Error::WgfmuError(e));
        },
    }
    match wgfmu.set_measure_event(
        stim,
        EVENT_STDP,
        0,
        points,
        resolution,
        avg_time,
        MeasureEventMode::MeasureEventDataAveraged,
    ) {
        Ok(_) => {},
        Err(e) => {
            return Err(Error::WgfmuError(e));
        },
    }
    match wgfmu.create_pattern(margin, 0) {
        Ok(_) => {},
        Err(e) => {
            return Err(Error::WgfmuError(e));
        },
    }
    match wgfmu.add_vector(margin, floor_div(cycle_time, 4), 0) {
        Ok(_) => {},
        Err(e) => {
            return Err(Error::WgfmuError(e));
        },
    }
    match wgfmu.add_sequence(CHANNEL2, margin, 1) {
        Ok(_) => {},
        Err(e) => {
            return Err(Error::WgfmuError(e));
        },
    }
    match wgfmu.create_pattern(ground, 0) {
        Ok(_) => {},
        Err(e) => {
            return Err(Error::WgfmuError(e));
        },
    }
    match wgfmu.add_vector(ground, cycle_time, 0) {
        Ok(_) => {},
        Err(e) => {
            return Err(Error::WgfmuError(e));
        },
    }
    match wgfmu.add_sequence(CHANNEL1, ground, 1) {
        Ok(_) => {},
        Err(e) => {
            return Err(Error::WgfmuError(e));
        },
    }
    match wgfmu.set_measure_event(
        ground,
        EVENT_STDP,
        0,
        points,
        resolution,
        avg_time,
        MeasureEventMode::MeasureEventDataAveraged,
    ) {
        Ok(_) => {},
        Err(e) => {
            return Err(Error::WgfmuError(e));
        },
    }
    match instrument {
        Some(name) => {
            match open_session_retrying(wgfmu, name) {
                Ok(_) => {},
                Err(e) => {
                    return Err(Error::WgfmuError(e));
                },
            }
        },
        None => {},
    }
    match wgfmu.initialize() {
        Ok(_) => {},
        Err(e) => {
            return Err(Error::WgfmuError(e));
        },
    }
    match configure_fastiv(wgfmu) {
        Ok(_) => {},
        Err(e) => {
            return Err(e);
        },
    }
    match wgfmu.execute() {
        Ok(_) => {},
        Err(e) => {
            return Err(Error::WgfmuError(e));
        },
    }
    match wgfmu.wait_until_completed() {
        Ok(_) => {},
        Err(e) => {
            return Err(Error::WgfmuError(e));
        },
    }
    let measurement = match wgfmu.get_measure_values(CHANNEL2) {
        Ok(v) => v,
        Err(e) => {
            return Err(Error::WgfmuError(e));
        },
    };
    match instrument {
        Some(_) => {
            match wgfmu.close_session() {
                Ok(_) => {},
                Err(e) => {
                    return Err(Error::WgfmuError(e));
                },
            }
        },
        None => {},
    }
    match wgfmu.settle(STDP_SETTLE_NS) {
        Ok(_) => {},
        Err(e) => {
            return Err(Error::WgfmuError(e));
        },
    }
    let conductance = match measure_conductance_fastiv(wgfmu, instrument) {
        Ok(v) => v,
        Err(e) => {
            return Err(e);
        },
    };
    Ok(StdpMeasurement { iv: measurement, conductance })
}

/// Guard time between the STDP pulse capture and the conductance probe,
/// in nanoseconds; fixed, never adaptive.
pub const STDP_SETTLE_NS: i64 = 1_000_000_000;

/// Whether a conductance moved in the direction the sweep wants: down
/// to or below the reference for depression, up to or above it for
/// potenciation.
pub open spec fn spec_conductance_ok(t: StdpType, prev: int, conductance: int) -> bool {
    match t {
        StdpType::Depression => conductance <= prev,
        StdpType::Potenciation => conductance >= prev,
    }
}

/// Decides the direction check of the force-conductance policy.
pub fn conductance_ok(stdp_type: StdpType, prev: i64, conductance: i64) -> (r: bool)
    ensures
        r == spec_conductance_ok(stdp_type, prev as int, conductance as int),
{
    match stdp_type {
        StdpType::Depression => conductance <= prev,
        StdpType::Potenciation => conductance >= prev,
    }
}

/// The better of two conductances for the sweep's direction: the
/// smaller for depression, the larger for potenciation.
pub open spec fn spec_pick(t: StdpType, a: int, b: int) -> int {
    match t {
        StdpType::Depression => if a <= b {
            a
        } else {
            b
        },
        StdpType::Potenciation => if a >= b {
            a
        } else {
            b
        },
    }
}

/// The best conductance recorded in a nonempty collection.
pub open spec fn spec_extreme(t: StdpType, s: Seq<StdpMeasurementWrapper>) -> int
    decreases s.len(),
{
    if s.len() <= 1 {
        s[0].stdp_measurement.conductance as int
    } else {
        spec_pick(
            t,
            spec_extreme(t, s.drop_last()),
            s.last().stdp_measurement.conductance as int,
        )
    }
}

/// The reference conductance the next attempt is held against: the
/// best one seen so far, or the base conductance while nothing has been
/// recorded.
pub open spec fn spec_prev_conductance(
    t: StdpType,
    base: int,
    s: Seq<StdpMeasurementWrapper>,
) -> int {
    if s.len() == 0 {
        base
    } else {
        spec_extreme(t, s)
    }
}

/// Scans the collection for the reference conductance.
fn prev_conductance(stdp_type: StdpType, base: i64, collection: &Vec<StdpMeasurementWrapper>) -> (
    r: i64)
    ensures
        r == spec_prev_conductance(stdp_type, base as int, collection@),
{
    if collection.len() == 0 {
        return base;
    }
    let mut best: i64 = collection[0].stdp_measurement.conductance;
    proof {
        assert(collection@.subrange(0, 1) =~= seq![collection@[0]]);
    }
    let mut i: usize = 1;
    while i < collection.len()
        invariant
            1 <= i <= collection@.len(),
            collection@.len() >= 1,
            best == spec_extreme(stdp_type, collection@.subrange(0, i as int)),
        decreases collection@.len() - i,
    {
        proof {
            assert(collection@.subrange(0, i + 1).drop_last() =~= collection@.subrange(
                0,
                i as int,
            ));
            assert(collection@.subrange(0, i + 1).last() == collection@[i as int]);
        }
        let c = collection[i].stdp_measurement.conductance;
        match stdp_type {
            StdpType::Depression => {
                if c < best {
                    best = c;
                }
            },
            StdpType::Potenciation => {
                if c > best {
                    best = c;
                }
            },
        }
        i = i + 1;
    }
    proof {
        assert(collection@.subrange(0, collection@.len() as int) =~= collection@);
    }
    best
}

/// The signed delay recorded with a measurement: negative for
/// depression, positive for potenciation.
pub open spec fn spec_signed_delay(t: StdpType, delay: int) -> int {
    match t {
        StdpType::Depression => -delay,
        StdpType::Potenciation => delay,
    }
}

/// Measures one delay under the force-conductance policy: the first
/// attempt is always recorded, and while the latest attempt fails the
/// direction check against the fixed reference, up to the allowed
/// number of extra attempts are taken and all recorded.
///
/// On success, every recorded attempt but the last failed the check,
/// and the batch either ends in an attempt that passed it or has used
/// every allowed attempt.
pub fn measure_stdp_delay_forced<D: WgfmuDriver, N: NoiseSource>(
    wgfmu: &mut D,
    delay: i64,
    amplitude: i64,
    pulse_duration: i64,
    wait_time: i64,
    n_points: usize,
    avg_time: i64,
    stdp_type: StdpType,
    noise: bool,
    noise_std: i64,
    prev_conductance: i64,
    rng: &mut N,
) -> (r: Result<Vec<StdpMeasurementWrapper>, Error>)
    requires
        0 <= amplitude <= MAX_VOLTAGE_UV,
        1 <= pulse_duration <= MAX_TIME_NS,
        0 <= wait_time <= MAX_TIME_NS,
        0 <= delay <= pulse_duration / 2,
        delay + 2 * wait_time + pulse_duration <= MAX_TIME_NS,
        1 <= n_points <= 1_000_000_000,
        0 <= avg_time <= MAX_TIME_NS,
        spec_resolution(
            spec_stdp_measure_total(delay as int, wait_time as int, pulse_duration as int),
            n_points as int,
        ) >= 1,
    ensures
        r matches Ok(batch) ==> ({
            &&& 1 <= batch@.len() <= 1 + MAX_FORCE_CONDUCTANCE_TRIES
            &&& forall|j: int|
                0 <= j < batch@.len() - 1 ==> !spec_conductance_ok(
                    stdp_type,
                    prev_conductance as int,
                    (#[trigger] batch@[j]).stdp_measurement.conductance as int,
                )
            &&& (spec_conductance_ok(
                stdp_type,
                prev_conductance as int,
                batch@.last().stdp_measurement.conductance as int,
            ) || batch@.len() == 1 + MAX_FORCE_CONDUCTANCE_TRIES)
            &&& forall|j: int|
                0 <= j < batch@.len() ==> (#[trigger] batch@[j]).delay == spec_signed_delay(
                    stdp_type,
                    delay as int,
                )
        }),
{
    let signed_delay: i64 = match stdp_type {
        StdpType::Depression => -delay,
        StdpType::Potenciation => delay,
    };
    let first = measure_stdp_fastiv(
        wgfmu,
        None,
        delay,
        amplitude,
        pulse_duration,
        wait_time,
        n_points,
        avg_time,
        stdp_type,
        noise,
        noise_std,
        rng,
    )?;
    let mut last_conductance: i64 = first.conductance;
    let mut batch: Vec<StdpMeasurementWrapper> = Vec::new();
    batch.push(StdpMeasurementWrapper { stdp_measurement: first, delay: signed_delay });
    let mut ntries: usize = 0;
    while ntries < MAX_FORCE_CONDUCTANCE_TRIES && !conductance_ok(
        stdp_type,
        prev_conductance,
        last_conductance,
    )
        invariant
            0 <= amplitude <= MAX_VOLTAGE_UV,
            1 <= pulse_duration <= MAX_TIME_NS,
            0 <= wait_time <= MAX_TIME_NS,
            0 <= delay <= pulse_duration as int / 2,
            delay + 2 * wait_time + pulse_duration <= MAX_TIME_NS,
            1 <= n_points <= 1_000_000_000,
            0 <= avg_time <= MAX_TIME_NS,
            spec_resolution(
                spec_stdp_measure_total(delay as int, wait_time as int, pulse_duration as int),
                n_points as int,
            ) >= 1,
            signed_delay == spec_signed_delay(stdp_type, delay as int),
            0 <= ntries <= MAX_FORCE_CONDUCTANCE_TRIES,
            batch@.len() == ntries + 1,
            last_conductance == batch@.last().stdp_measurement.conductance,
            forall|j: int|
                0 <= j < batch@.len() - 1 ==> !spec_conductance_ok(
                    stdp_type,
                    prev_conductance as int,
                    (#[trigger] batch@[j]).stdp_measurement.conductance as int,
                ),
            forall|j: int|
                0 <= j < batch@.len() ==> (#[trigger] batch@[j]).delay == spec_signed_delay(
                    stdp_type,
                    delay as int,
                ),
        decreases MAX_FORCE_CONDUCTANCE_TRIES - ntries,
    {
        let meas = measure_stdp_fastiv(
            wgfmu,
            None,
            delay,
            amplitude,
            pulse_duration,
            wait_time,
            n_points,
            avg_time,
            stdp_type,
            noise,
            noise_std,
            rng,
        )?;
        last_conductance = meas.conductance;
        batch.push(StdpMeasurementWrapper { stdp_measurement: meas, delay: signed_delay });
        ntries = ntries + 1;
    }
    Ok(batch)
}

/// The force-conductance retry policy, stated over one delay's recorded
/// batch: where an attempt already moves in the required direction no
/// retry happens, so a run whose first attempt passes the direction
/// check records exactly one attempt; and where no attempt ever passes
/// it, exactly the allowed number of extra attempts is recorded and the
/// sweep advances regardless.
pub proof fn lemma_force_conductance_policy(
    stdp_type: StdpType,
    prev: int,
    batch: Seq<StdpMeasurementWrapper>,
)
    requires
        1 <= batch.len() <= 1 + MAX_FORCE_CONDUCTANCE_TRIES,
        forall|j: int|
            0 <= j < batch.len() - 1 ==> !spec_conductance_ok(
                stdp_type,
                prev,
                (#[trigger] batch[j]).stdp_measurement.conductance as int,
            ),
        spec_conductance_ok(
            stdp_type,
            prev,
            batch.last().stdp_measurement.conductance as int,
        ) || batch.len() == 1 + MAX_FORCE_CONDUCTANCE_TRIES,
    ensures
        spec_conductance_ok(stdp_type, prev, batch[0].stdp_measurement.conductance as int)
            ==> batch.len() == 1,
        (forall|j: int|
            0 <= j < batch.len() ==> !spec_conductance_ok(
                stdp_type,
                prev,
                (#[trigger] batch[j]).stdp_measurement.conductance as int,
            )) ==> batch.len() == 1 + MAX_FORCE_CONDUCTANCE_TRIES,
{
}

/// What the delay sweep requires of its arguments: the fixed-point
/// ranges, a cycle granting eleven grid ticks per requested point plus
/// rounding slack (so the sampling interval cannot resolve to zero),
/// room for the largest delay, and a positive delay spacing.
pub open spec fn spec_stdp_collection_args_ok(
    delay_points: int,
    amplitude: int,
    wait_time: int,
    pulse_duration: int,
    n_points: int,
    avg_time: int,
) -> bool {
    &&& 0 <= amplitude <= MAX_VOLTAGE_UV
    &&& 1 <= pulse_duration <= MAX_TIME_NS
    &&& 0 <= wait_time <= MAX_TIME_NS
    &&& 2 * wait_time + pulse_duration >= 11 * n_points + 30
    &&& pulse_duration / 2 + 2 * wait_time + pulse_duration <= MAX_TIME_NS
    &&& 1 <= n_points <= 1_000_000_000
    &&& 0 <= avg_time <= MAX_TIME_NS
    &&& 1 <= delay_points <= 1_000_000
    &&& spec_delay_step(pulse_duration, delay_points) >= 1
}

/// Decides whether a delay sweep's arguments satisfy everything the
/// sweep requires, so a host can test the condition before calling.
pub fn stdp_collection_args_ok(
    delay_points: usize,
    amplitude: i64,
    wait_time: i64,
    pulse_duration: i64,
    n_points: usize,
    avg_time: i64,
) -> (r: bool)
    ensures
        r == spec_stdp_collection_args_ok(
            delay_points as int,
            amplitude as int,
            wait_time as int,
            pulse_duration as int,
            n_points as int,
            avg_time as int,
        ),
{
    if !(0 <= amplitude && amplitude <= MAX_VOLTAGE_UV) {
        return false;
    }
    if !(1 <= pulse_duration && pulse_duration <= MAX_TIME_NS) {
        return false;
    }
    if !(0 <= wait_time && wait_time <= MAX_TIME_NS) {
        return false;
    }
    if !(1 <= n_points && n_points <= 1_000_000_000) {
        return false;
    }
    if !(2 * wait_time + pulse_duration >= 11 * (n_points as i64) + 30) {
        return false;
    }
    let half: i64 = floor_div(pulse_duration, 2);
    proof {
        lemma_div_pos_is_pos(pulse_duration as int, 2);
        vstd::arithmetic::div_mod::lemma_div_nonincreasing(pulse_duration as int, 2);
    }
    if !(half + 2 * wait_time + pulse_duration <= MAX_TIME_NS) {
        return false;
    }
    if !(0 <= avg_time && avg_time <= MAX_TIME_NS) {
        return false;
    }
    if !(1 <= delay_points && delay_points <= 1_000_000) {
        return false;
    }
    proof {
        lemma_div_pos_is_pos(half as int * 9, 10);
        vstd::arithmetic::div_mod::lemma_div_nonincreasing(half as int * 9, 10);
    }
    let max_delay: i64 = floor_div(half * 9, 10);
    let step: i64 = floor_div(max_delay, (delay_points as i64) + 1);
    step >= 1
}

/// The largest delay the sweep may visit: ninety percent of half the
/// pulse duration, floored to whole nanoseconds.
pub open spec fn spec_max_delay(pulse_duration: int) -> int {
    (pulse_duration / 2) * 9 / 10
}

/// The spacing between two visited delays.
pub open spec fn spec_delay_step(pulse_duration: int, delay_points: int) -> int {
    spec_max_delay(pulse_duration) / (delay_points + 1)
}

/// Sweeps the delay axis: opens one session for the whole sweep, takes
/// the base conductance before any pulse, visits the inner delays in
/// descending order, measures each one under the chosen mode, and
/// closes the session.
///
/// Sequentially each delay is recorded exactly once; under the
/// force-conductance policy each delay contributes between one and the
/// allowed number of attempts, and every recorded delay carries the
/// direction's sign.
pub fn measure_stdp_collection_fastiv<D: WgfmuDriver, N: NoiseSource>(
    wgfmu: &mut D,
    instrument: &str,
    delay_points: usize,
    amplitude: i64,
    wait_time: i64,
    pulse_duration: i64,
    stdp_type: StdpType,
    n_points: usize,
    avg_time: i64,
    noise: bool,
    noise_std: i64,
    meas_mode: StdpCollectionMeasMode,
    rng: &mut N,
) -> (r: Result<StdpCollectionMeasurement, Error>)
    requires
        spec_stdp_collection_args_ok(
            delay_points as int,
            amplitude as int,
            wait_time as int,
            pulse_duration as int,
            n_points as int,
            avg_time as int,
        ),
    ensures
        r matches Ok(res) ==> ({
            &&& meas_mode is SequentialMeasurement ==> res.collection@.len() == delay_points
            &&& meas_mode is ForceConductanceMeasurement ==> delay_points <= res.collection@.len()
                <= delay_points * (1 + MAX_FORCE_CONDUCTANCE_TRIES)
            &&& forall|k: int|
                0 <= k < res.collection@.len() ==> ((stdp_type is Depression ==> (
                #[trigger] res.collection@[k]).delay <= -1) && (stdp_type is Potenciation
                    ==> res.collection@[k].delay >= 1))
            &&& meas_mode is SequentialMeasurement ==> forall|k: int|
                0 <= k < res.collection@.len() ==> (#[trigger] res.collection@[k]).delay
                    == spec_signed_delay(
                    stdp_type,
                    spec_delay_step(pulse_duration as int, delay_points as int) * (
                    delay_points - k),
                )
        }),
{
    match open_session_retrying(wgfmu, instrument) {
        Ok(_) => {},
        Err(e) => {
            return Err(Error::WgfmuError(e));
        },
    }
    let base_conductance = match measure_conductance_fastiv(wgfmu, None) {
        Ok(v) => v,
        Err(e) => {
            return Err(e);
        },
    };
    let half: i64 = floor_div(pulse_duration, 2);
    proof {
        lemma_div_pos_is_pos(pulse_duration as int, 2);
        vstd::arithmetic::div_mod::lemma_div_nonincreasing(pulse_duration as int, 2);
    }
    let max_delay: i64 = floor_div(half * 9, 10);
    proof {
        lemma_div_pos_is_pos(half as int * 9, 10);
        vstd::arithmetic::div_mod::lemma_div_nonincreasing(half as int * 9, 10);
        assert(spec_max_delay(pulse_duration as int) <= pulse_duration as int / 2) by {
            assert((half as int * 9) / 10 <= half as int * 9);
        }
    }
    let step: i64 = floor_div(max_delay, (delay_points as i64) + 1);
    proof {
        lemma_fundamental_div_mod(max_delay as int, delay_points as int + 1);
    }
    let mut collection: Vec<StdpMeasurementWrapper> = Vec::new();
    let mut i: usize = delay_points;
    while i >= 1
        invariant
            0 <= i <= delay_points,
            1 <= delay_points <= 1_000_000,
            0 <= amplitude <= MAX_VOLTAGE_UV,
            1 <= pulse_duration <= MAX_TIME_NS,
            0 <= wait_time <= MAX_TIME_NS,
            2 * wait_time + pulse_duration >= 11 * n_points + 30,
            pulse_duration as int / 2 + 2 * wait_time + pulse_duration <= MAX_TIME_NS,
            1 <= n_points <= 1_000_000_000,
            0 <= avg_time <= MAX_TIME_NS,
            step == spec_delay_step(pulse_duration as int, delay_points as int),
            1 <= step,
            max_delay == spec_max_delay(pulse_duration as int),
            max_delay as int == (delay_points as int + 1) * step + max_delay as int % (
            delay_points as int + 1),
            0 <= max_delay as int % (delay_points as int + 1),
            max_delay as int <= pulse_duration as int / 2,
            meas_mode is SequentialMeasurement ==> collection@.len() == delay_points - i,
            meas_mode is ForceConductanceMeasurement ==> delay_points - i <= collection@.len() <= (
            delay_points - i) * (1 + MAX_FORCE_CONDUCTANCE_TRIES),
            forall|k: int|
                0 <= k < collection@.len() ==> ((stdp_type is Depression ==> (
                #[trigger] collection@[k]).delay <= -1) && (stdp_type is Potenciation
                    ==> collection@[k].delay >= 1)),
            meas_mode is SequentialMeasurement ==> forall|k: int|
                0 <= k < collection@.len() ==> (#[trigger] collection@[k]).delay
                    == spec_signed_delay(
                    stdp_type,
                    step as int * (delay_points - k),
                ),
        decreases i,
    {
        proof {
            assert(1 <= step as int * i as int && step as int * i as int <= max_delay as int)
                by (nonlinear_arith)
                requires
                    1 <= step as int,
                    1 <= i as int <= delay_points as int,
                    max_delay as int == (delay_points as int + 1) * step as int
                        + max_delay as int % (delay_points as int + 1),
                    0 <= max_delay as int % (delay_points as int + 1),
            ;
            lemma_stdp_resolution_sufficient(
                step as int * i as int,
                wait_time as int,
                pulse_duration as int,
                n_points as int,
            );
        }
        let delay: i64 = step * (i as i64);
        match meas_mode {
            StdpCollectionMeasMode::SequentialMeasurement => {
                let meas = measure_stdp_fastiv(
                    wgfmu,
                    None,
                    delay,
                    amplitude,
                    pulse_duration,
                    wait_time,
                    n_points,
                    avg_time,
                    stdp_type,
                    noise,
                    noise_std,
                    rng,
                )?;
                let signed_delay: i64 = match stdp_type {
                    StdpType::Depression => -delay,
                    StdpType::Potenciation => delay,
                };
                collection.push(
                    StdpMeasurementWrapper { stdp_measurement: meas, delay: signed_delay },
                );
            },
            StdpCollectionMeasMode::ForceConductanceMeasurement => {
                let reference = prev_conductance(stdp_type, base_conductance, &collection);
                let mut batch = measure_stdp_delay_forced(
                    wgfmu,
                    delay,
                    amplitude,
                    pulse_duration,
                    wait_time,
                    n_points,
                    avg_time,
                    stdp_type,
                    noise,
                    noise_std,
                    reference,
                    rng,
                )?;
                proof {
                    assert((delay_points - i) * (1 + MAX_FORCE_CONDUCTANCE_TRIES) + (1
                        + MAX_FORCE_CONDUCTANCE_TRIES) == (delay_points - i + 1) * (1
                        + MAX_FORCE_CONDUCTANCE_TRIES)) by (nonlinear_arith);
                }
                collection.append(&mut batch);
            },
        }
        i = i - 1;
    }
    match wgfmu.close_session() {
        Ok(_) => {},
        Err(e) => {
            return Err(Error::WgfmuError(e));
        },
    }
    Ok(StdpCollectionMeasurement { base_conductance, collection })
}

} // verus!
