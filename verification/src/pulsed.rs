//! Pulse-train measurements: the parametric train description, the
//! per-segment timing resolution, the vector-budget packing, and the
//! orchestration of one full instrument session.

use crate::driver::{
    ground_pattern, margin_pattern, stimulus_pattern, MeasureEventMode, Measurement, WgfmuDriver,
    CHANNEL1, CHANNEL2, EVENT_HIGH, EVENT_HIGH_CURRENT, EVENT_LOW, EVENT_LOW_CURRENT,
    EVENT_PULSE_SAMPLE,
};
use crate::intmath::{floor_div, lemma_ceil_div_bounds};
use crate::measure::Error;
use crate::packer::{pack_pulses, spec_unique_pulses, MAX_PULSES};
use crate::session::{configure_fastiv, open_session_retrying};
use crate::timing::{
    mul_ppm, resolve_segment_sampling, round_10ns, spec_avg_after, spec_mul_ppm,
    spec_resolution_clamped, spec_round_10ns, MAX_TIME_NS, PPM,
};
use crate::types::{
    push_point, total_dtime, waveform_bounded, GaussianNoise, Noise, VoltageWaveFormPoint,
    MAX_VOLTAGE_UV,
};
use crate::utils::{add_noisy_waveform, add_waveform, resample_args_ok, NoiseSource};
use vstd::arithmetic::div_mod::{lemma_fundamental_div_mod, lemma_multiply_divide_lt};
use vstd::prelude::*;

verus! {

/// A parametric pulse-train description: `n_pulses` rectangular pulses
/// with the given duty cycle (in parts per million), cycle time (in
/// nanoseconds) and the two voltage levels (in microvolts).
#[derive(Clone, Copy, Debug, PartialEq, Eq, Structural)]
pub struct PulseTrain {
    pub n_pulses: usize,
    pub duty_cycle: i64,
    pub cycle_time: i64,
    pub v_high: i64,
    pub v_low: i64,
}

pub type PulseTrainCollection = Vec<PulseTrain>;

impl PulseTrain {
    /// The ranges the fixed-point model carries exactly: a proper duty
    /// cycle, bounded voltages, and a train short enough that its total
    /// duration stays within the largest accepted time.
    pub open spec fn valid(self) -> bool {
        &&& 1 <= self.n_pulses <= MAX_PULSES
        &&& 0 < self.duty_cycle < PPM
        &&& 1 <= self.cycle_time <= MAX_TIME_NS
        &&& -MAX_VOLTAGE_UV <= self.v_high <= MAX_VOLTAGE_UV
        &&& -MAX_VOLTAGE_UV <= self.v_low <= MAX_VOLTAGE_UV
        &&& (self.cycle_time + 20) * self.n_pulses <= MAX_TIME_NS
    }
}

/// One cycle of the pulse train as a four-point waveform: a 10 ns rising
/// edge, the high plateau, a 10 ns falling edge, the low plateau.
pub open spec fn spec_pulsed_waveform(
    v_high: i64,
    v_low: i64,
    cycle_time: i64,
    duty_cycle: i64,
) -> Seq<VoltageWaveFormPoint> {
    seq![
        VoltageWaveFormPoint { voltage: v_high, dtime: 10 },
        VoltageWaveFormPoint {
            voltage: v_high,
            dtime: spec_mul_ppm(cycle_time as int, duty_cycle as int) as i64,
        },
        VoltageWaveFormPoint { voltage: v_low, dtime: 10 },
        VoltageWaveFormPoint {
            voltage: v_low,
            dtime: spec_mul_ppm(cycle_time as int, (PPM - duty_cycle) as int) as i64,
        },
    ]
}

/// Builds one cycle of the pulse train.
pub fn init_pulsed_voltage_waveform(v_high: i64, v_low: i64, cycle_time: i64, duty_cycle: i64) -> (
    out: Vec<VoltageWaveFormPoint>)
    requires
        -MAX_VOLTAGE_UV <= v_high <= MAX_VOLTAGE_UV,
        -MAX_VOLTAGE_UV <= v_low <= MAX_VOLTAGE_UV,
        0 <= cycle_time <= MAX_TIME_NS,
        0 <= duty_cycle <= PPM,
    ensures
        out@ == spec_pulsed_waveform(v_high, v_low, cycle_time, duty_cycle),
        out@.len() == 4,
        waveform_bounded(out@, MAX_VOLTAGE_UV as int, MAX_TIME_NS as int),
        total_dtime(out@) <= cycle_time + 20,
{
    let high_time: i64 = mul_ppm(cycle_time, duty_cycle);
    let low_time: i64 = mul_ppm(cycle_time, PPM - duty_cycle);
    proof {
        let c = cycle_time as int;
        let d = duty_cycle as int;
        vstd::arithmetic::div_mod::lemma_fundamental_div_mod(c * d, 1_000_000);
        vstd::arithmetic::div_mod::lemma_fundamental_div_mod(c * (1_000_000 - d), 1_000_000);
        assert(high_time as int + low_time as int <= c) by (nonlinear_arith)
            requires
                c * d == 1_000_000 * (high_time as int) + (c * d) % 1_000_000,
                c * (1_000_000 - d) == 1_000_000 * (low_time as int) + (c * (1_000_000 - d))
                    % 1_000_000,
                (c * d) % 1_000_000 >= 0,
                (c * (1_000_000 - d)) % 1_000_000 >= 0,
                high_time as int == spec_mul_ppm(c, d),
                low_time as int == spec_mul_ppm(c, 1_000_000 - d),
        ;
    }
    let mut waveform: Vec<VoltageWaveFormPoint> = Vec::new();
    push_point(&mut waveform, v_high, 10);
    push_point(&mut waveform, v_high, high_time);
    push_point(&mut waveform, v_low, 10);
    push_point(&mut waveform, v_low, low_time);
    proof {
        assert(waveform@ =~= spec_pulsed_waveform(v_high, v_low, cycle_time, duty_cycle));
    }
    waveform
}

/// `times` copies of a waveform, in order.
pub open spec fn spec_repeat(s: Seq<VoltageWaveFormPoint>, times: int) -> Seq<VoltageWaveFormPoint>
    decreases times,
{
    if times <= 0 {
        Seq::empty()
    } else {
        spec_repeat(s, times - 1) + s
    }
}

/// A repeated waveform is as long as its copies put together.
proof fn lemma_spec_repeat_len(s: Seq<VoltageWaveFormPoint>, times: int)
    requires
        times >= 0,
    ensures
        spec_repeat(s, times).len() == times * s.len(),
    decreases times,
{
    if times == 0 {
        assert(0 * s.len() == 0) by (nonlinear_arith);
    } else {
        lemma_spec_repeat_len(s, times - 1);
        assert(times * s.len() == (times - 1) * s.len() + s.len()) by (nonlinear_arith);
    }
}

/// Indexing into a repeated waveform lands in the copy the index names.
proof fn lemma_spec_repeat_index(s: Seq<VoltageWaveFormPoint>, times: int, q: int, j: int)
    requires
        0 <= q < times,
        0 <= j < s.len(),
    ensures
        spec_repeat(s, times)[q * s.len() + j] == s[j],
    decreases times,
{
    lemma_spec_repeat_len(s, times - 1);
    if q == times - 1 {
        assert(q * s.len() + j - spec_repeat(s, times - 1).len() == j);
    } else {
        lemma_spec_repeat_index(s, times - 1, q, j);
        assert(q * s.len() + j < (times - 1) * s.len()) by (nonlinear_arith)
            requires
                0 <= q < times - 1,
                0 <= j < s.len(),
        ;
    }
}

/// Concatenates `times` copies of a waveform, in order.
fn repeat_waveform(waveform: &Vec<VoltageWaveFormPoint>, times: usize) -> (out: Vec<
    VoltageWaveFormPoint,
>)
    requires
        times * waveform@.len() <= 100_000_000,
    ensures
        out@ == spec_repeat(waveform@, times as int),
        out@.len() == times * waveform@.len(),
        forall|r: int, j: int|
            0 <= r < times && 0 <= j < waveform@.len() ==> #[trigger] out@[r * waveform@.len()
                + j] == waveform@[j],
{
    let mut out: Vec<VoltageWaveFormPoint> = Vec::new();
    let mut r: usize = 0;
    while r < times
        invariant
            0 <= r <= times,
            times * waveform@.len() <= 100_000_000,
            out@.len() == r * waveform@.len(),
            forall|q: int, j: int|
                0 <= q < r && 0 <= j < waveform@.len() ==> #[trigger] out@[q * waveform@.len()
                    + j] == waveform@[j],
        decreases times - r,
    {
        proof {
            assert((r + 1) * waveform@.len() == r * waveform@.len() + waveform@.len())
                by (nonlinear_arith);
            assert((r + 1) * waveform@.len() <= times * waveform@.len()) by (nonlinear_arith)
                requires
                    0 <= r < times,
                    waveform@.len() >= 0,
        ;
        }
        let mut j: usize = 0;
        while j < waveform.len()
            invariant
                0 <= j <= waveform@.len(),
                out@.len() == r * waveform@.len() + j,
                r * waveform@.len() + waveform@.len() <= 100_000_000,
                forall|q: int, jj: int|
                    0 <= q < r && 0 <= jj < waveform@.len() ==> #[trigger] out@[q
                        * waveform@.len() + jj] == waveform@[jj],
                forall|jj: int|
                    0 <= jj < j ==> #[trigger] out@[r * waveform@.len() + jj] == waveform@[jj],
            decreases waveform@.len() - j,
        {
            let ghost pre = out@;
            out.push(waveform[j]);
            proof {
                let len = waveform@.len() as int;
                assert forall|q: int, jj: int|
                    0 <= q < r && 0 <= jj < len implies #[trigger] out@[q * len + jj]
                    == waveform@[jj] by {
                    assert(0 <= q * len + jj < pre.len()) by (nonlinear_arith)
                        requires
                            0 <= q < r,
                            0 <= jj < len,
                            pre.len() == r * len + j,
                            0 <= j,
                    ;
                    assert(out@[q * len + jj] == pre[q * len + jj]);
                }
                assert forall|jj: int|
                    0 <= jj < j + 1 implies #[trigger] out@[r * len + jj] == waveform@[jj] by {
                    if jj < j {
                        assert(out@[r * len + jj] == pre[r * len + jj]);
                    } else {
                        assert(r * len + jj == pre.len());
                    }
                }
            }
            j = j + 1;
        }
        r = r + 1;
        proof {
            assert(out@.len() == r * waveform@.len()) by (nonlinear_arith)
                requires
                    out@.len() == (r - 1) * waveform@.len() + waveform@.len(),
        ;
        }
    }
    proof {
        lemma_spec_repeat_len(waveform@, times as int);
        let len = waveform@.len() as int;
        assert(out@ =~= spec_repeat(waveform@, times as int)) by {
            assert forall|idx: int| 0 <= idx < out@.len() implies out@[idx] == spec_repeat(
                waveform@,
                times as int,
            )[idx] by {
                let q = idx / len;
                let j = idx % len;
                lemma_fundamental_div_mod(idx, len);
                assert(q < times) by {
                    lemma_multiply_divide_lt(idx, len, times as int);
                    assert(len * (times as int) == (times as int) * len) by (nonlinear_arith);
                }
                assert(q >= 0) by {
                    vstd::arithmetic::div_mod::lemma_div_pos_is_pos(idx, len);
                }
                assert(idx == q * len + j) by (nonlinear_arith)
                    requires
                        idx == len * q + j,
                ;
                assert(out@[q * len + j] == waveform@[j]);
                lemma_spec_repeat_index(waveform@, times as int, q, j);
            }
        }
    }
    out
}

/// Sums the elapsed times of a waveform.
fn sum_dtime(waveform: &Vec<VoltageWaveFormPoint>) -> (r: i64)
    requires
        waveform_bounded(waveform@, MAX_VOLTAGE_UV as int, MAX_TIME_NS as int),
        waveform@.len() <= 1_000_000,
    ensures
        r == total_dtime(waveform@),
        0 <= r,
{
    let mut total: i64 = 0;
    let mut i: usize = 0;
    while i < waveform.len()
        invariant
            0 <= i <= waveform@.len(),
            waveform@.len() <= 1_000_000,
            waveform_bounded(waveform@, MAX_VOLTAGE_UV as int, MAX_TIME_NS as int),
            total == total_dtime(waveform@.subrange(0, i as int)),
            0 <= total <= i * MAX_TIME_NS,
        decreases waveform@.len() - i,
    {
        proof {
            assert(waveform@.subrange(0, i + 1).drop_last() =~= waveform@.subrange(0, i as int));
            assert(waveform@.subrange(0, i + 1).last() == waveform@[i as int]);
            assert((i + 1) * MAX_TIME_NS == i * MAX_TIME_NS + MAX_TIME_NS) by (nonlinear_arith);
            assert(i * MAX_TIME_NS <= 1_000_000 * MAX_TIME_NS) by (nonlinear_arith)
                requires
                    0 <= i <= 1_000_000,
        ;
        }
        total = total + waveform[i].dtime;
        i = i + 1;
    }
    proof {
        assert(waveform@.subrange(0, waveform@.len() as int) =~= waveform@);
    }
    total
}

/// The measurable time of the high segment: the segment's share of the
/// cycle, padded by one grid tick against the edge boundary, clamped to
/// the grid, with the margin tick reserved back out.
pub open spec fn spec_measure_total_high(cycle_time: int, duty_cycle: int) -> int {
    spec_round_10ns(spec_round_10ns(spec_mul_ppm(cycle_time, duty_cycle) + 10) - 10)
}

/// The measurable time of the low segment: its share of the cycle,
/// clamped to the grid.
pub open spec fn spec_measure_total_low(cycle_time: int, duty_cycle: int) -> int {
    spec_round_10ns(spec_round_10ns(spec_mul_ppm(cycle_time, 1_000_000 - duty_cycle)))
}

/// The shared averaging time after both segments are resolved: first
/// the high segment reduces it, then the low one, so the smaller of the
/// two resolutions wins.
pub open spec fn spec_pulse_avg_after(
    cycle_time: int,
    duty_cycle: int,
    n_points_high: int,
    n_points_low: int,
    avg: int,
) -> int {
    spec_avg_after(
        spec_avg_after(
            avg,
            spec_resolution_clamped(spec_measure_total_high(cycle_time, duty_cycle), n_points_high),
        ),
        spec_resolution_clamped(spec_measure_total_low(cycle_time, duty_cycle), n_points_low),
    )
}

/// Stages one pulse train on the instrument: resolves both segments'
/// sampling, packs the train into the vector budget when noise is
/// injected, builds the stimulus, margin and ground patterns, and
/// registers the measurement events.
///
/// The shared averaging time is only ever reduced, and ends exactly at
/// the value the two segment resolutions dictate.
pub fn wgfmu_add_pulse_train<D: WgfmuDriver, N: NoiseSource>(
    wgfmu: &mut D,
    pulse_train: PulseTrain,
    n_points_high: usize,
    n_points_low: usize,
    noise: bool,
    noise_std: i64,
    avg_time: &mut i64,
    pattern_index: usize,
    rng: &mut N,
) -> (r: Result<(), Error>)
    requires
        pulse_train.valid(),
        1 <= n_points_high <= 1_000_000_000,
        1 <= n_points_low <= 1_000_000_000,
        n_points_high + n_points_low <= 2048,
        0 <= *old(avg_time) <= MAX_TIME_NS,
        pattern_index <= 1_000_000_000,
    ensures
        *final(avg_time) == spec_pulse_avg_after(
            pulse_train.cycle_time as int,
            pulse_train.duty_cycle as int,
            n_points_high as int,
            n_points_low as int,
            *old(avg_time) as int,
        ),
        0 <= *final(avg_time) <= *old(avg_time),
        r matches Err(e) ==> e is WgfmuError || e is UtilsError,
        noise && r is Ok ==> resample_args_ok(
            spec_repeat(
                spec_pulsed_waveform(
                    pulse_train.v_high,
                    pulse_train.v_low,
                    pulse_train.cycle_time,
                    pulse_train.duty_cycle,
                ),
                spec_unique_pulses(
                    n_points_high as int,
                    n_points_low as int,
                    pulse_train.n_pulses as int,
                ),
            ),
            (n_points_high + n_points_low) * spec_unique_pulses(
                n_points_high as int,
                n_points_low as int,
                pulse_train.n_pulses as int,
            ),
        ),
{
    let total_time_high: i64 = round_10ns(mul_ppm(pulse_train.cycle_time, pulse_train.duty_cycle) + 10);
    proof {
        crate::timing::lemma_round_10ns_bounds(
            spec_mul_ppm(pulse_train.cycle_time as int, pulse_train.duty_cycle as int) + 10,
        );
        vstd::arithmetic::div_mod::lemma_div_pos_is_pos(
            spec_mul_ppm(pulse_train.cycle_time as int, pulse_train.duty_cycle as int) + 10,
            10,
        );
        assert(total_time_high as int >= 10) by {
            let v = spec_mul_ppm(pulse_train.cycle_time as int, pulse_train.duty_cycle as int)
                + 10;
            assert(v / 10 >= 1) by {
                vstd::arithmetic::div_mod::lemma_div_is_ordered(10, v, 10);
                vstd::arithmetic::div_mod::lemma_div_by_multiple(1, 10);
            }
            assert((v / 10) * 10 >= 10) by (nonlinear_arith)
                requires
                    v / 10 >= 1,
            ;
        }
    }
    let measure_total_high: i64 = round_10ns(total_time_high - 10);
    proof {
        crate::timing::lemma_round_10ns_bounds(total_time_high as int - 10);
        vstd::arithmetic::div_mod::lemma_div_pos_is_pos(total_time_high as int - 10, 10);
        assert(((total_time_high as int - 10) / 10) * 10 >= 0) by (nonlinear_arith)
            requires
                (total_time_high as int - 10) / 10 >= 0,
        ;
    }
    let (resolution_high, base_high) = resolve_segment_sampling(
        measure_total_high,
        n_points_high,
        avg_time,
        true,
    );
    let points_high: i64 = base_high - 1;
    let total_time_low: i64 = round_10ns(mul_ppm(pulse_train.cycle_time, PPM - pulse_train.duty_cycle));
    proof {
        crate::timing::lemma_round_10ns_bounds(
            spec_mul_ppm(pulse_train.cycle_time as int, (PPM - pulse_train.duty_cycle) as int),
        );
        vstd::arithmetic::div_mod::lemma_div_pos_is_pos(
            spec_mul_ppm(pulse_train.cycle_time as int, (PPM - pulse_train.duty_cycle) as int),
            10,
        );
        assert((spec_mul_ppm(pulse_train.cycle_time as int, (PPM - pulse_train.duty_cycle) as int)
            / 10) * 10 >= 0) by (nonlinear_arith)
            requires
                spec_mul_ppm(
                    pulse_train.cycle_time as int,
                    (PPM - pulse_train.duty_cycle) as int,
                ) / 10 >= 0,
        ;
    }
    let measure_total_low: i64 = round_10ns(total_time_low);
    proof {
        crate::timing::lemma_round_10ns_bounds(total_time_low as int);
        vstd::arithmetic::div_mod::lemma_div_pos_is_pos(total_time_low as int, 10);
        assert(((total_time_low as int) / 10) * 10 >= 0) by (nonlinear_arith)
            requires
                (total_time_low as int) / 10 >= 0,
        ;
    }
    let (resolution_low, base_low) = resolve_segment_sampling(
        measure_total_low,
        n_points_low,
        avg_time,
        true,
    );
    let points_low: i64 = base_low - 1;
    let packing = pack_pulses(n_points_high, n_points_low, pulse_train.n_pulses);
    proof {
        lemma_ceil_div_bounds(pulse_train.n_pulses as int, packing.unique_pulses as int);
    }
    let stim: usize = stimulus_pattern(pattern_index);
    let margin: usize = margin_pattern(pattern_index);
    let ground: usize = ground_pattern(pattern_index);
    match wgfmu.create_pattern(stim, 0) {
        Ok(_) => {},
        Err(e) => {
            return Err(Error::WgfmuError(e));
        },
    }
    let waveform = init_pulsed_voltage_waveform(
        pulse_train.v_high,
        pulse_train.v_low,
        pulse_train.cycle_time,
        pulse_train.duty_cycle,
    );
    let mut unique_finish_time: i64 = 0;
    let cycle_points: usize = n_points_high + n_points_low;
    if !noise {
        match add_waveform(wgfmu, &waveform, stim) {
            Ok(_) => {},
            Err(e) => {
                return Err(Error::UtilsError(e));
            },
        }
        match wgfmu.add_sequence(CHANNEL2, stim, pulse_train.n_pulses) {
            Ok(_) => {},
            Err(e) => {
                return Err(Error::WgfmuError(e));
            },
        }
    } else {
        proof {
            assert(packing.unique_pulses * waveform@.len() <= 2048 * 4) by (nonlinear_arith)
                requires
                    1 <= packing.unique_pulses <= 2048,
                    waveform@.len() == 4,
            ;
        }
        let repeated = repeat_waveform(&waveform, packing.unique_pulses);
        proof {
            assert(waveform_bounded(repeated@, MAX_VOLTAGE_UV as int, MAX_TIME_NS as int)) by {
                assert forall|i: int|
                    0 <= i < repeated@.len() implies -MAX_VOLTAGE_UV <= (
                #[trigger] repeated@[i]).voltage <= MAX_VOLTAGE_UV && 0 <= repeated@[i].dtime
                    <= MAX_TIME_NS by {
                    let q = i / 4;
                    let j = i % 4;
                    vstd::arithmetic::div_mod::lemma_fundamental_div_mod(i, 4);
                    assert(repeated@[q * 4 + j] == waveform@[j]) by {
                        assert(0 <= q < packing.unique_pulses) by (nonlinear_arith)
                            requires
                                0 <= i < packing.unique_pulses * 4,
                                i == q * 4 + j,
                                0 <= j < 4,
                        ;
                    }
                }
            }
        }
        proof {
            assert(cycle_points * packing.unique_pulses <= 2048 * 2048) by (nonlinear_arith)
                requires
                    1 <= cycle_points <= 2048,
                    1 <= packing.unique_pulses <= 2048,
            ;
        }
        let total_unique_points: usize = cycle_points * packing.unique_pulses;
        unique_finish_time = sum_dtime(&repeated);
        match add_noisy_waveform(
            wgfmu,
            &repeated,
            total_unique_points,
            stim,
            Noise::Gaussian(GaussianNoise { mean: 0, sigma: noise_std }),
            rng,
        ) {
            Ok(_) => {},
            Err(e) => {
                return Err(Error::UtilsError(e));
            },
        }
        proof {
            assert(resample_args_ok(
                spec_repeat(
                    spec_pulsed_waveform(
                        pulse_train.v_high,
                        pulse_train.v_low,
                        pulse_train.cycle_time,
                        pulse_train.duty_cycle,
                    ),
                    spec_unique_pulses(
                        n_points_high as int,
                        n_points_low as int,
                        pulse_train.n_pulses as int,
                    ),
                ),
                (n_points_high + n_points_low) * spec_unique_pulses(
                    n_points_high as int,
                    n_points_low as int,
                    pulse_train.n_pulses as int,
                ),
            ));
        }
        match wgfmu.add_sequence(CHANNEL2, stim, packing.repetitions) {
            Ok(_) => {},
            Err(e) => {
                return Err(Error::WgfmuError(e));
            },
        }
    }
    if !noise {
        match wgfmu.set_measure_event(
            stim,
            EVENT_HIGH,
            resolution_high + 10,
            points_high,
            resolution_high,
            *avg_time,
            MeasureEventMode::MeasureEventDataAveraged,
        ) {
            Ok(_) => {},
            Err(e) => {
                return Err(Error::WgfmuError(e));
            },
        }
        match wgfmu.set_measure_event(
            stim,
            EVENT_LOW,
            round_10ns(resolution_low + total_time_high),
            points_low,
            resolution_low,
            *avg_time,
            MeasureEventMode::MeasureEventDataAveraged,
        ) {
            Ok(_) => {},
            Err(e) => {
                return Err(Error::WgfmuError(e));
            },
        }
        match wgfmu.create_pattern(margin, 0) {
            Ok(_) => {},
            Err(e) => {
                return Err(Error::WgfmuError(e));
            },
        }
        match wgfmu.add_vector(margin, pulse_train.cycle_time, 0) {
            Ok(_) => {},
            Err(e) => {
                return Err(Error::WgfmuError(e));
            },
        }
        match wgfmu.add_sequence(CHANNEL2, margin, 1) {
            Ok(_) => {},
            Err(e) => {
                return Err(Error::WgfmuError(e));
            },
        }
    } else {
        proof {
            assert(2 <= cycle_points as int * packing.unique_pulses as int <= 4_194_304)
                by (nonlinear_arith)
                requires
                    2 <= cycle_points as int <= 2048,
                    1 <= packing.unique_pulses as int <= 2048,
            ;
        }
        let total_points: i64 = (cycle_points * packing.unique_pulses) as i64;
        match wgfmu.set_measure_event(
            stim,
            EVENT_PULSE_SAMPLE,
            0,
            total_points,
            floor_div(unique_finish_time - *avg_time, total_points - 1),
            *avg_time,
            MeasureEventMode::MeasureEventDataAveraged,
        ) {
            Ok(_) => {},
            Err(e) => {
                return Err(Error::WgfmuError(e));
            },
        }
    }
    let total_time: i64 = pulse_train.cycle_time + 20;
    match wgfmu.create_pattern(ground, 0) {
        Ok(_) => {},
        Err(e) => {
            return Err(Error::WgfmuError(e));
        },
    }
    if !noise {
        match wgfmu.set_vector(ground, total_time, 0) {
            Ok(_) => {},
            Err(e) => {
                return Err(Error::WgfmuError(e));
            },
        }
        match wgfmu.add_sequence(CHANNEL1, ground, pulse_train.n_pulses) {
            Ok(_) => {},
            Err(e) => {
                return Err(Error::WgfmuError(e));
            },
        }
        match wgfmu.set_measure_event(
            ground,
            EVENT_HIGH_CURRENT,
            resolution_high + 10,
            points_high,
            resolution_high,
            *avg_time,
            MeasureEventMode::MeasureEventDataAveraged,
        ) {
            Ok(_) => {},
            Err(e) => {
                return Err(Error::WgfmuError(e));
            },
        }
        match wgfmu.set_measure_event(
            ground,
            EVENT_LOW_CURRENT,
            round_10ns(resolution_low + total_time_high),
            points_low,
            resolution_low,
            *avg_time,
            MeasureEventMode::MeasureEventDataAveraged,
        ) {
            Ok(_) => {},
            Err(e) => {
                return Err(Error::WgfmuError(e));
            },
        }
    } else {
        proof {
            assert((pulse_train.cycle_time + 20) * pulse_train.n_pulses >= total_time as int)
                by (nonlinear_arith)
                requires
                    pulse_train.n_pulses >= 1,
                    total_time as int == pulse_train.cycle_time + 20,
                    total_time as int >= 0,
            ;
            assert((pulse_train.cycle_time + 20) * pulse_train.n_pulses >= 0);
        }
        let end_time: i64 = total_time * (pulse_train.n_pulses as i64);
        match wgfmu.set_vector(ground, end_time, 0) {
            Ok(_) => {},
            Err(e) => {
                return Err(Error::WgfmuError(e));
            },
        }
        match wgfmu.add_sequence(CHANNEL1, ground, 1) {
            Ok(_) => {},
            Err(e) => {
                return Err(Error::WgfmuError(e));
            },
        }
        let ghost up = packing.unique_pulses as int;
        proof {
            assert(2 <= cycle_points as int * up <= 4_194_304) by (nonlinear_arith)
                requires
                    2 <= cycle_points as int <= 2048,
                    1 <= up <= 2048,
            ;
            assert(2 <= packing.repetitions as int * (cycle_points as int * up)
                <= 1_000_000_000 * 4_194_304int) by (nonlinear_arith)
                requires
                    1 <= packing.repetitions as int <= 1_000_000_000,
                    2 <= cycle_points as int * up <= 4_194_304,
            ;
        }
        let unique_points: usize = cycle_points * packing.unique_pulses;
        let total_points_wide: i128 = (packing.repetitions as i128) * (unique_points as i128);
        let total_points: i64 = total_points_wide as i64;
        match wgfmu.set_measure_event(
            ground,
            EVENT_PULSE_SAMPLE,
            0,
            total_points,
            floor_div(unique_finish_time - *avg_time, total_points - 1),
            *avg_time,
            MeasureEventMode::MeasureEventDataAveraged,
        ) {
            Ok(_) => {},
            Err(e) => {
                return Err(Error::WgfmuError(e));
            },
        }
    }
    Ok(())
}

/// Measures one pulse train over a full instrument session: stages the
/// train, opens the session when an instrument name is given, runs it,
/// and retrieves the stimulus channel's samples.
///
/// Every failure is a propagated driver error or an argument error of
/// the staging; on a successful noisy run the staged block was a valid
/// resampling input.
pub fn measure_pulse_fastiv<D: WgfmuDriver, N: NoiseSource>(
    wgfmu: &mut D,
    instrument: Option<&str>,
    pulse_train: PulseTrain,
    n_points_high: usize,
    n_points_low: usize,
    avg_time: i64,
    noise: bool,
    noise_std: i64,
    rng: &mut N,
) -> (r: Result<Vec<Measurement>, Error>)
    requires
        pulse_train.valid(),
        1 <= n_points_high <= 1_000_000_000,
        1 <= n_points_low <= 1_000_000_000,
        n_points_high + n_points_low <= 2048,
        0 <= avg_time <= MAX_TIME_NS,
    ensures
        r matches Err(e) ==> e is WgfmuError || e is UtilsError,
        noise && r is Ok ==> resample_args_ok(
            spec_repeat(
                spec_pulsed_waveform(
                    pulse_train.v_high,
                    pulse_train.v_low,
                    pulse_train.cycle_time,
                    pulse_train.duty_cycle,
                ),
                spec_unique_pulses(
                    n_points_high as int,
                    n_points_low as int,
                    pulse_train.n_pulses as int,
                ),
            ),
            (n_points_high + n_points_low) * spec_unique_pulses(
                n_points_high as int,
                n_points_low as int,
                pulse_train.n_pulses as int,
            ),
        ),
{
    let mut avg_time = avg_time;
    match wgfmu.clear() {
        Ok(_) => {},
        Err(e) => {
            return Err(Error::WgfmuError(e));
        },
    }
    match wgfmu_add_pulse_train(
        wgfmu,
        pulse_train,
        n_points_high,
        n_points_low,
        noise,
        noise_std,
        &mut avg_time,
        0,
        rng,
    ) {
        Ok(_) => {},
        Err(e) => {
            return Err(e);
        },
    }
    match instrument {
        Some(name) => {
            match open_session_retrying(wgfmu, name) {
                Ok(_) => {},
                Err(e) => {
                    return Err(Error::WgfmuError(e));
                },
            }
        },
        None => {},
    }
    match wgfmu.initialize() {
        Ok(_) => {},
        Err(e) => {
            return Err(Error::WgfmuError(e));
        },
    }
    match configure_fastiv(wgfmu) {
        Ok(_) => {},
        Err(e) => {
            return Err(e);
        },
    }
    match wgfmu.execute() {
        Ok(_) => {},
        Err(e) => {
            return Err(Error::WgfmuError(e));
        },
    }
    match wgfmu.wait_until_completed() {
        Ok(_) => {},
        Err(e) => {
            return Err(Error::WgfmuError(e));
        },
    }
    let measurement = match wgfmu.get_measure_values(CHANNEL2) {
        Ok(v) => v,
        Err(e) => {
            return Err(Error::WgfmuError(e));
        },
    };
    match instrument {
        Some(_) => {
            match wgfmu.close_session() {
                Ok(_) => {},
                Err(e) => {
                    return Err(Error::WgfmuError(e));
                },
            }
        },
        None => {},
    }
    Ok(measurement)
}

/// Measures a collection of pulse trains in one session, each staged on
/// its own pattern identifiers; the averaging time is shared across all
/// of them, so the finest resolution of the whole collection wins.
///
/// Every failure is a propagated driver error or an argument error of
/// the staging; on a successful noisy run every train's staged block
/// was a valid resampling input.
pub fn measure_pulse_collection_fastiv<D: WgfmuDriver, N: NoiseSource>(
    wgfmu: &mut D,
    instrument: Option<&str>,
    pulse_train_collection: PulseTrainCollection,
    n_points_high: usize,
    n_points_low: usize,
    avg_time: i64,
    noise: bool,
    noise_std: i64,
    rng: &mut N,
) -> (r: Result<Vec<Measurement>, Error>)
    requires
        forall|i: int|
            0 <= i < pulse_train_collection@.len() ==> (
            #[trigger] pulse_train_collection@[i]).valid(),
        pulse_train_collection@.len() <= 1_000_000,
        1 <= n_points_high <= 1_000_000_000,
        1 <= n_points_low <= 1_000_000_000,
        n_points_high + n_points_low <= 2048,
        0 <= avg_time <= MAX_TIME_NS,
    ensures
        r matches Err(e) ==> e is WgfmuError || e is UtilsError,
        noise && r is Ok ==> forall|t: int|
            0 <= t < pulse_train_collection@.len() ==> resample_args_ok(
                spec_repeat(
                    spec_pulsed_waveform(
                        (#[trigger] pulse_train_collection@[t]).v_high,
                        pulse_train_collection@[t].v_low,
                        pulse_train_collection@[t].cycle_time,
                        pulse_train_collection@[t].duty_cycle,
                    ),
                    spec_unique_pulses(
                        n_points_high as int,
                        n_points_low as int,
                        pulse_train_collection@[t].n_pulses as int,
                    ),
                ),
                (n_points_high + n_points_low) * spec_unique_pulses(
                    n_points_high as int,
                    n_points_low as int,
                    pulse_train_collection@[t].n_pulses as int,
                ),
            ),
{
    match wgfmu.clear() {
        Ok(_) => {},
        Err(e) => {
            return Err(Error::WgfmuError(e));
        },
    }
    let mut avg_time = avg_time;
    let mut idx: usize = 0;
    while idx < pulse_train_collection.len()
        invariant
            0 <= idx <= pulse_train_collection@.len(),
            pulse_train_collection@.len() <= 1_000_000,
            forall|i: int|
                0 <= i < pulse_train_collection@.len() ==> (
                #[trigger] pulse_train_collection@[i]).valid(),
            1 <= n_points_high <= 1_000_000_000,
            1 <= n_points_low <= 1_000_000_000,
            n_points_high + n_points_low <= 2048,
            0 <= avg_time <= MAX_TIME_NS,
            noise ==> forall|t: int|
                0 <= t < idx ==> resample_args_ok(
                    spec_repeat(
                        spec_pulsed_waveform(
                            (#[trigger] pulse_train_collection@[t]).v_high,
                            pulse_train_collection@[t].v_low,
                            pulse_train_collection@[t].cycle_time,
                            pulse_train_collection@[t].duty_cycle,
                        ),
                        spec_unique_pulses(
                            n_points_high as int,
                            n_points_low as int,
                            pulse_train_collection@[t].n_pulses as int,
                        ),
                    ),
                    (n_points_high + n_points_low) * spec_unique_pulses(
                        n_points_high as int,
                        n_points_low as int,
                        pulse_train_collection@[t].n_pulses as int,
                    ),
                ),
        decreases pulse_train_collection@.len() - idx,
    {
        let pulse_train = pulse_train_collection[idx];
        match wgfmu_add_pulse_train(
            wgfmu,
            pulse_train,
            n_points_high,
            n_points_low,
            noise,
            noise_std,
            &mut avg_time,
            idx,
            rng,
        ) {
            Ok(_) => {},
            Err(e) => {
                return Err(e);
            },
        }
        idx = idx + 1;
    }
    match instrument {
        Some(name) => {
            match open_session_retrying(wgfmu, name) {
                Ok(_) => {},
                Err(e) => {
                    return Err(Error::WgfmuError(e));
                },
            }
        },
        None => {},
    }
    match wgfmu.initialize() {
        Ok(_) => {},
        Err(e) => {
            return Err(Error::WgfmuError(e));
        },
    }
    match configure_fastiv(wgfmu) {
        Ok(_) => {},
        Err(e) => {
            return Err(e);
        },
    }
    match wgfmu.execute() {
        Ok(_) => {},
        Err(e) => {
            return Err(Error::WgfmuError(e));
        },
    }
    match wgfmu.wait_until_completed() {
        Ok(_) => {},
        Err(e) => {
            return Err(Error::WgfmuError(e));
        },
    }
    let measurement = match wgfmu.get_measure_values(CHANNEL2) {
        Ok(v) => v,
        Err(e) => {
            return Err(Error::WgfmuError(e));
        },
    };
    match instrument {
        Some(_) => {
            match wgfmu.close_session() {
                Ok(_) => {},
                Err(e) => {
                    return Err(Error::WgfmuError(e));
                },
            }
        },
        None => {},
    }
    Ok(measurement)
}

} // verus!
