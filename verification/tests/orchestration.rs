use xavier::driver::{
    Error as DriverError, MeasureEventMode, MeasureMode, Measurement, OperationMode, WgfmuDriver,
    CHANNEL2,
};
use xavier::pulsed::{measure_pulse_fastiv, PulseTrain};
use xavier::sim::TestWgfmu;
use xavier::stdp::{
    measure_stdp_collection_fastiv, measure_stdp_delay_forced, StdpCollectionMeasMode, StdpType,
};
use xavier::types::{GaussianNoise, Noise, VoltageWaveFormPoint};
use xavier::utils::{add_noisy_waveform, calibrate, NoiseSource};

/// A noise source that returns the mean: what any Gaussian source does
/// with zero sigma.
struct MeanNoise;

impl NoiseSource for MeanNoise {
    fn draw_gaussian(&mut self, mean: i64, _sigma: i64) -> i64 {
        mean
    }
}

/// The Gaussian noise source used off-instrument, backed by the real
/// sampler.
struct GaussNoise;

impl NoiseSource for GaussNoise {
    fn draw_gaussian(&mut self, mean: i64, sigma: i64) -> i64 {
        match rand_distr::Normal::new(mean as f64, sigma as f64) {
            Ok(normal) => {
                rand_distr::Distribution::sample(&normal, &mut rand::thread_rng()) as i64
            }
            Err(_) => mean,
        }
    }
}

/// A driver whose retrieved samples carry a scripted current, so the
/// conductance of each probe is chosen by the test; it can also fail
/// the first session open with a stale-context error.
struct ScriptedDriver {
    currents: Vec<i64>,
    next: usize,
    opens: usize,
    closes: usize,
    fail_first_open: bool,
}

impl ScriptedDriver {
    fn with_currents(currents: Vec<i64>) -> ScriptedDriver {
        ScriptedDriver { currents, next: 0, opens: 0, closes: 0, fail_first_open: false }
    }
}

impl WgfmuDriver for ScriptedDriver {
    fn open_session(&mut self, _instrument: &str) -> Result<(), DriverError> {
        self.opens += 1;
        if self.fail_first_open && self.opens == 1 {
            return Err(DriverError::ContextError);
        }
        Ok(())
    }
    fn close_session(&mut self) -> Result<(), DriverError> {
        self.closes += 1;
        Ok(())
    }
    fn clear(&mut self) -> Result<(), DriverError> {
        Ok(())
    }
    fn create_pattern(&mut self, _pattern: usize, _init_v: i64) -> Result<(), DriverError> {
        Ok(())
    }
    fn add_vector(&mut self, _pattern: usize, _d: i64, _v: i64) -> Result<(), DriverError> {
        Ok(())
    }
    fn set_vector(&mut self, _pattern: usize, _t: i64, _v: i64) -> Result<(), DriverError> {
        Ok(())
    }
    fn set_measure_event(
        &mut self,
        _pattern: usize,
        _event: usize,
        _time: i64,
        _points: i64,
        _interval: i64,
        _average: i64,
        _mode: MeasureEventMode,
    ) -> Result<(), DriverError> {
        Ok(())
    }
    fn add_sequence(&mut self, _c: usize, _p: usize, _n: usize) -> Result<(), DriverError> {
        Ok(())
    }
    fn initialize(&mut self) -> Result<(), DriverError> {
        Ok(())
    }
    fn set_operation_mode(&mut self, _c: usize, _m: OperationMode) -> Result<(), DriverError> {
        Ok(())
    }
    fn set_measure_mode(&mut self, _c: usize, _m: MeasureMode) -> Result<(), DriverError> {
        Ok(())
    }
    fn connect(&mut self, _c: usize) -> Result<(), DriverError> {
        Ok(())
    }
    fn execute(&mut self) -> Result<(), DriverError> {
        Ok(())
    }
    fn wait_until_completed(&mut self) -> Result<(), DriverError> {
        Ok(())
    }
    fn get_measure_values(&mut self, _c: usize) -> Result<Vec<Measurement>, DriverError> {
        let current = if self.next < self.currents.len() {
            self.currents[self.next]
        } else {
            *self.currents.last().unwrap_or(&0)
        };
        self.next += 1;
        // One volt of drive, so the conductance in nanosiemens equals
        // the scripted current value.
        Ok(vec![Measurement { voltage: -1_000_000, current: Some(current), time: 0 }])
    }
    fn do_self_calibration(&mut self) -> Result<(), DriverError> {
        Ok(())
    }
    fn settle(&mut self, _d: i64) -> Result<(), DriverError> {
        Ok(())
    }
}

#[test]
fn simulated_pulse_measurement_returns_the_pattern() {
    let mut sim = TestWgfmu::new();
    let train = PulseTrain {
        n_pulses: 2,
        duty_cycle: 500_000,
        cycle_time: 1000,
        v_high: 1_000_000,
        v_low: 0,
    };
    let samples =
        measure_pulse_fastiv(&mut sim, None, train, 5, 5, 0, false, 0, &mut MeanNoise).unwrap();
    assert_eq!(samples.len(), 4);
    assert_eq!(samples[0].voltage, 1_000_000);
    assert_eq!(samples[0].current, Some(500_000));
    assert_eq!(samples[0].time, 10);
    assert_eq!(samples[1].voltage, 1_000_000);
    assert_eq!(samples[1].time, 510);
    assert_eq!(samples[2].voltage, 0);
    assert_eq!(samples[3].voltage, 0);
    assert_eq!(samples[3].time, 1020);
}

#[test]
fn calibrate_runs_through_the_simulator() {
    let mut sim = TestWgfmu::new();
    assert!(calibrate(&mut sim, Some("instrument")).is_ok());
}

fn noisy_pattern_voltages<N: NoiseSource>(rng: &mut N, mean: i64, sigma: i64) -> Vec<i64> {
    let mut sim = TestWgfmu::new();
    let waveform = vec![
        VoltageWaveFormPoint { voltage: 0, dtime: 10 },
        VoltageWaveFormPoint { voltage: 10_000_000, dtime: 1_000_000_000 },
        VoltageWaveFormPoint { voltage: 0, dtime: 1_000_000_000 },
    ];
    sim.create_pattern(7, 0).unwrap();
    add_noisy_waveform(&mut sim, &waveform, 5, 7, Noise::Gaussian(GaussianNoise { mean, sigma }), rng)
        .unwrap();
    sim.add_sequence(CHANNEL2, 7, 2).unwrap();
    sim.get_measure_values(CHANNEL2).unwrap().iter().map(|m| m.voltage).collect()
}

#[test]
fn noise_offset_shifts_every_sample() {
    let voltages = noisy_pattern_voltages(&mut MeanNoise, 5000, 0);
    assert_eq!(voltages, vec![5000, 5_005_000, 10_005_000, 5_005_000, 5000]);
}

#[test]
fn zero_sigma_gaussian_noise_is_exactly_the_mean() {
    let voltages = noisy_pattern_voltages(&mut GaussNoise, 5000, 0);
    assert_eq!(voltages, vec![5000, 5_005_000, 10_005_000, 5_005_000, 5000]);
}

#[test]
fn sweep_arguments_can_be_checked_before_calling() {
    assert!(xavier::stdp::stdp_collection_args_ok(2, 1_000_000, 2000, 1000, 10, 0));
    // Too many points for the cycle: the sampling interval would
    // resolve to zero.
    assert!(!xavier::stdp::stdp_collection_args_ok(2, 1_000_000, 50, 100, 1000, 0));
    // No room for a single positive delay spacing.
    assert!(!xavier::stdp::stdp_collection_args_ok(1_000_000, 1_000_000, 2000, 1000, 10, 0));
}

#[test]
fn improving_conductance_needs_no_retry() {
    // Depression with a reference of 100 nS; every probe reports 50 nS,
    // which already moves down, so exactly one attempt is recorded.
    let mut driver = ScriptedDriver::with_currents(vec![50]);
    let batch = measure_stdp_delay_forced(
        &mut driver,
        100,
        1_000_000,
        1000,
        1000,
        10,
        0,
        StdpType::Depression,
        false,
        0,
        100,
        &mut MeanNoise,
    )
    .unwrap();
    assert_eq!(batch.len(), 1);
    assert_eq!(batch[0].delay, -100);
    assert_eq!(batch[0].stdp_measurement.conductance, 50);
}

#[test]
fn stubborn_conductance_exhausts_the_retry_budget() {
    // Depression with a reference of 100 nS; every probe reports
    // 200 nS, so the first attempt and all three retries are recorded.
    let mut driver = ScriptedDriver::with_currents(vec![200]);
    let batch = measure_stdp_delay_forced(
        &mut driver,
        100,
        1_000_000,
        1000,
        1000,
        10,
        0,
        StdpType::Depression,
        false,
        0,
        100,
        &mut MeanNoise,
    )
    .unwrap();
    assert_eq!(batch.len(), 4);
    for w in &batch {
        assert_eq!(w.delay, -100);
        assert_eq!(w.stdp_measurement.conductance, 200);
    }
}

#[test]
fn sequential_sweep_visits_descending_delays_once() {
    let mut driver = ScriptedDriver::with_currents(vec![100]);
    let result = measure_stdp_collection_fastiv(
        &mut driver,
        "instrument",
        2,
        1_000_000,
        2000,
        1000,
        StdpType::Depression,
        10,
        0,
        false,
        0,
        StdpCollectionMeasMode::SequentialMeasurement,
        &mut MeanNoise,
    )
    .unwrap();
    assert_eq!(result.base_conductance, 100);
    // max delay 450 ns over three spacings of 150 ns; the endpoints are
    // discarded and the rest visited largest first, sign-flipped for
    // depression.
    assert_eq!(result.collection.len(), 2);
    assert_eq!(result.collection[0].delay, -300);
    assert_eq!(result.collection[1].delay, -150);
    assert_eq!(driver.closes, 1);
}

#[test]
fn forced_sweep_advances_even_without_improvement() {
    // The base probe reads 100 nS and every later probe strictly more
    // than anything seen before, so no attempt ever moves down; each of
    // the two delays still records one attempt plus the full retry
    // budget, and the sweep completes.
    let mut currents = vec![100];
    currents.extend((0..100).map(|k| 200 + k));
    let mut driver = ScriptedDriver::with_currents(currents);
    let result = measure_stdp_collection_fastiv(
        &mut driver,
        "instrument",
        2,
        1_000_000,
        2000,
        1000,
        StdpType::Depression,
        10,
        0,
        false,
        0,
        StdpCollectionMeasMode::ForceConductanceMeasurement,
        &mut MeanNoise,
    )
    .unwrap();
    assert_eq!(result.base_conductance, 100);
    assert_eq!(result.collection.len(), 8);
}

#[test]
fn forced_sweep_records_single_attempts_when_improving() {
    let mut currents = vec![100];
    currents.extend(std::iter::repeat(50).take(100));
    let mut driver = ScriptedDriver::with_currents(currents);
    let result = measure_stdp_collection_fastiv(
        &mut driver,
        "instrument",
        2,
        1_000_000,
        2000,
        1000,
        StdpType::Depression,
        10,
        0,
        false,
        0,
        StdpCollectionMeasMode::ForceConductanceMeasurement,
        &mut MeanNoise,
    )
    .unwrap();
    assert_eq!(result.collection.len(), 2);
}

/// A driver whose sequencer refuses to run.
struct FailingDriver;

impl WgfmuDriver for FailingDriver {
    fn open_session(&mut self, _i: &str) -> Result<(), DriverError> {
        Ok(())
    }
    fn close_session(&mut self) -> Result<(), DriverError> {
        Ok(())
    }
    fn clear(&mut self) -> Result<(), DriverError> {
        Ok(())
    }
    fn create_pattern(&mut self, _p: usize, _v: i64) -> Result<(), DriverError> {
        Ok(())
    }
    fn add_vector(&mut self, _p: usize, _d: i64, _v: i64) -> Result<(), DriverError> {
        Ok(())
    }
    fn set_vector(&mut self, _p: usize, _t: i64, _v: i64) -> Result<(), DriverError> {
        Ok(())
    }
    fn set_measure_event(
        &mut self,
        _p: usize,
        _e: usize,
        _t: i64,
        _n: i64,
        _i: i64,
        _a: i64,
        _m: MeasureEventMode,
    ) -> Result<(), DriverError> {
        Ok(())
    }
    fn add_sequence(&mut self, _c: usize, _p: usize, _n: usize) -> Result<(), DriverError> {
        Ok(())
    }
    fn initialize(&mut self) -> Result<(), DriverError> {
        Ok(())
    }
    fn set_operation_mode(&mut self, _c: usize, _m: OperationMode) -> Result<(), DriverError> {
        Ok(())
    }
    fn set_measure_mode(&mut self, _c: usize, _m: MeasureMode) -> Result<(), DriverError> {
        Ok(())
    }
    fn connect(&mut self, _c: usize) -> Result<(), DriverError> {
        Ok(())
    }
    fn execute(&mut self) -> Result<(), DriverError> {
        Err(DriverError::CommunicationError)
    }
    fn wait_until_completed(&mut self) -> Result<(), DriverError> {
        Ok(())
    }
    fn get_measure_values(&mut self, _c: usize) -> Result<Vec<Measurement>, DriverError> {
        Ok(Vec::new())
    }
    fn do_self_calibration(&mut self) -> Result<(), DriverError> {
        Ok(())
    }
    fn settle(&mut self, _d: i64) -> Result<(), DriverError> {
        Ok(())
    }
}

#[test]
fn driver_failures_abort_the_session_and_propagate() {
    let mut driver = FailingDriver;
    let train = PulseTrain {
        n_pulses: 1,
        duty_cycle: 500_000,
        cycle_time: 1000,
        v_high: 0,
        v_low: 0,
    };
    let result = measure_pulse_fastiv(&mut driver, None, train, 5, 5, 0, false, 0, &mut MeanNoise);
    assert!(matches!(
        result,
        Err(xavier::measure::Error::WgfmuError(DriverError::CommunicationError))
    ));
}

#[test]
fn noisy_stdp_with_too_few_samples_is_rejected_before_any_run() {
    // One requested point leaves fewer than the two samples a
    // resampling pass needs, so the argument error surfaces without
    // the session ever executing.
    let mut driver = FailingDriver;
    let result = xavier::stdp::measure_stdp_fastiv(
        &mut driver,
        None,
        1,
        1000,
        10,
        20,
        1,
        0,
        StdpType::Depression,
        true,
        0,
        &mut MeanNoise,
    );
    assert!(matches!(
        result,
        Err(xavier::measure::Error::UtilsError(xavier::utils::Error::BadArguments(_)))
    ));
}

#[test]
fn stale_sessions_are_reopened_once() {
    let mut driver = ScriptedDriver::with_currents(vec![100]);
    driver.fail_first_open = true;
    assert!(xavier::session::open_session_retrying(&mut driver, "instrument").is_ok());
    assert_eq!(driver.opens, 2);
    assert_eq!(driver.closes, 1);
}
