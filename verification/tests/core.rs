use xavier::conductance::conductance_from_measurements;
use xavier::driver::{get_result, Error as DriverError, Measurement};
use xavier::measure::Error as MeasureError;
use xavier::packer::pack_pulses;
use xavier::params::{encode_pulse_train, parse_pulse_train};
use xavier::pulsed::PulseTrain;
use xavier::stdp::{stdp_voltage_waveform, StdpType};
use xavier::timing::round_10ns;
use xavier::types::VoltageWaveFormPoint;
use xavier::utils::resample_waveform;

#[test]
fn round_10ns_clamps_down_to_the_grid() {
    assert_eq!(round_10ns(12345), 12340);
    assert_eq!(round_10ns(9), 0);
    assert_eq!(round_10ns(10), 10);
    assert_eq!(round_10ns(0), 0);
    assert_eq!(round_10ns(-5), -10);
}

#[test]
fn round_10ns_is_idempotent_and_never_increases() {
    for t in [0i64, 1, 9, 10, 11, 19, 123456789, 999_999_999_999] {
        let once = round_10ns(t);
        assert!(once <= t);
        assert_eq!(round_10ns(once), once);
    }
}

#[test]
fn packing_respects_the_vector_budget() {
    let p = pack_pulses(10, 10, 500);
    assert!(p.unique_pulses <= 102);
    assert!(p.unique_pulses * p.repetitions >= 500);
    assert_eq!(p.unique_pulses, 100);
    assert_eq!(p.repetitions, 5);
}

#[test]
fn packing_small_trains_needs_no_repetition() {
    let p = pack_pulses(10, 10, 50);
    assert_eq!(p.unique_pulses, 50);
    assert_eq!(p.repetitions, 1);
}

#[test]
fn packing_rebalances_the_final_batch() {
    // Budget 682, so 1000 pulses need 2 plays; the block is rebalanced
    // down to 500 so no small remainder batch is left.
    let p = pack_pulses(1, 2, 1000);
    assert_eq!(p.unique_pulses, 500);
    assert_eq!(p.repetitions, 2);
}

#[test]
fn resampling_interpolates_exactly() {
    // A triangle: 0 V, up to 10 V after one second, back to 0 V after
    // another second; five samples over the two-second span.
    let waveform = vec![
        VoltageWaveFormPoint { voltage: 0, dtime: 0 },
        VoltageWaveFormPoint { voltage: 10_000_000, dtime: 1_000_000_000 },
        VoltageWaveFormPoint { voltage: 0, dtime: 1_000_000_000 },
    ];
    let out = resample_waveform(&waveform, 5).unwrap();
    assert_eq!(out.len(), 5);
    for p in &out {
        assert_eq!(p.dtime, 500_000_000);
    }
    assert_eq!(out[0].voltage, 0);
    assert_eq!(out[1].voltage, 5_000_000);
    assert_eq!(out[2].voltage, 10_000_000);
    assert_eq!(out[3].voltage, 5_000_000);
    assert_eq!(out[4].voltage, 0);
}

#[test]
fn resampling_interpolates_the_last_sample_too() {
    // A ramp ending at 7 mV: the final sample carries the ramp's end
    // value, not a padding value.
    let waveform = vec![
        VoltageWaveFormPoint { voltage: 0, dtime: 0 },
        VoltageWaveFormPoint { voltage: 7000, dtime: 1_000_000_000 },
    ];
    let out = resample_waveform(&waveform, 3).unwrap();
    assert_eq!(out[0].voltage, 0);
    assert_eq!(out[1].voltage, 3500);
    assert_eq!(out[2].voltage, 7000);
}

#[test]
fn resampling_rejects_short_input() {
    let waveform = vec![VoltageWaveFormPoint { voltage: 0, dtime: 0 }];
    assert!(resample_waveform(&waveform, 5).is_err());
    let two = vec![
        VoltageWaveFormPoint { voltage: 0, dtime: 0 },
        VoltageWaveFormPoint { voltage: 1, dtime: 10 },
    ];
    assert!(resample_waveform(&two, 1).is_err());
    assert!(resample_waveform(&two, 2).is_ok());
}

#[test]
fn conductance_excludes_zero_voltage_samples() {
    let samples = vec![
        Measurement { voltage: -100_000, current: Some(-10_000_000), time: 0 },
        Measurement { voltage: 0, current: Some(0), time: 1_000_000_000 },
    ];
    // -0.1 V and -0.01 A give 0.1 S, which is 100 000 000 nS; the
    // zero-voltage sample is excluded from sum and divisor alike.
    assert_eq!(conductance_from_measurements(&samples).unwrap(), 100_000_000);
}

#[test]
fn conductance_counts_currentless_samples_in_the_divisor() {
    let samples = vec![
        Measurement { voltage: -100_000, current: Some(-10_000_000), time: 0 },
        Measurement { voltage: -100_000, current: None, time: 10 },
    ];
    assert_eq!(conductance_from_measurements(&samples).unwrap(), 50_000_000);
}

#[test]
fn conductance_excludes_currentless_zero_voltage_samples() {
    // A zero-voltage sample leaves the divisor whether or not it
    // carries a current.
    let samples = vec![
        Measurement { voltage: -100_000, current: Some(-10_000_000), time: 0 },
        Measurement { voltage: 0, current: None, time: 10 },
    ];
    assert_eq!(conductance_from_measurements(&samples).unwrap(), 100_000_000);
}

#[test]
fn conductance_of_all_zero_voltages_is_undefined() {
    let samples = vec![
        Measurement { voltage: 0, current: Some(5), time: 0 },
        Measurement { voltage: 0, current: Some(7), time: 10 },
    ];
    assert!(matches!(
        conductance_from_measurements(&samples),
        Err(MeasureError::ConductanceUndefined)
    ));
    let currentless = vec![
        Measurement { voltage: 0, current: None, time: 0 },
        Measurement { voltage: 0, current: Some(7), time: 10 },
    ];
    assert!(matches!(
        conductance_from_measurements(&currentless),
        Err(MeasureError::ConductanceUndefined)
    ));
}

#[test]
fn conductance_rejects_out_of_range_samples() {
    let samples = vec![Measurement {
        voltage: 2_000_000_000_000,
        current: Some(1),
        time: 0,
    }];
    assert!(matches!(
        conductance_from_measurements(&samples),
        Err(MeasureError::SampleOutOfRange)
    ));
}

#[test]
fn stdp_waveform_shape_for_depression() {
    // delay 100 ns, amplitude 2 V, pulse 1000 ns, wait 500 ns.
    let w = stdp_voltage_waveform(100, 2_000_000, 1000, 500, StdpType::Depression);
    let expected = vec![
        (0, 10),
        (0, 500),
        (200_000, 100),
        (200_000, 400),
        (-1_800_000, 10),
        (-1_800_000, 100),
        (200_000, 10),
        (200_000, 400),
        (0, 100),
        (0, 500),
    ];
    assert_eq!(w.len(), expected.len());
    for (p, (v, dt)) in w.iter().zip(expected.iter()) {
        assert_eq!(p.voltage, *v);
        assert_eq!(p.dtime, *dt);
    }
}

#[test]
fn stdp_waveform_total_time_matches_the_parameters() {
    // Total elapsed time is 2*wait + delay + 2*(pulse/2) + three grid
    // ticks for any valid delay.
    for delay in [1i64, 50, 100, 250, 499] {
        let w = stdp_voltage_waveform(delay, 2_000_000, 1000, 500, StdpType::Depression);
        let total: i64 = w.iter().map(|p| p.dtime).sum();
        assert_eq!(total, 2 * 500 + delay + 1000 + 30);
    }
}

#[test]
fn stdp_waveform_degenerates_at_zero_delay() {
    let w = stdp_voltage_waveform(0, 2_000_000, 1000, 500, StdpType::Potenciation);
    assert_eq!(w.len(), 5);
    for p in &w {
        assert_eq!(p.voltage, 0);
    }
    let total: i64 = w.iter().map(|p| p.dtime).sum();
    assert_eq!(total, 3 * 500 + 500 + 10);
}

#[test]
fn stdp_waveform_flips_sign_for_potenciation() {
    let w = stdp_voltage_waveform(100, 2_000_000, 1000, 500, StdpType::Potenciation);
    assert_eq!(w[2].voltage, -200_000);
    assert_eq!(w[4].voltage, 1_800_000);
}

#[test]
fn pulse_train_encodes_to_camel_case_json() {
    let pt = PulseTrain {
        n_pulses: 500,
        duty_cycle: 500_000,
        cycle_time: 1_000_000,
        v_high: 1_000_000,
        v_low: -500_000,
    };
    let bytes = encode_pulse_train(&pt);
    let expected = "{\"nPulses\":500,\"dutyCycle\":500000,\"cycleTime\":1000000,\"vHigh\":1000000,\"vLow\":-500000}";
    assert_eq!(bytes, expected.as_bytes().to_vec());
}

#[test]
fn pulse_train_round_trips_through_json() {
    let cases = vec![
        PulseTrain { n_pulses: 500, duty_cycle: 500_000, cycle_time: 1_000_000, v_high: 1_000_000, v_low: -500_000 },
        PulseTrain { n_pulses: 1, duty_cycle: 1, cycle_time: 1, v_high: 0, v_low: 0 },
        PulseTrain { n_pulses: 0, duty_cycle: -7, cycle_time: i64::MAX, v_high: i64::MIN, v_low: -1 },
    ];
    for pt in cases {
        let bytes = encode_pulse_train(&pt);
        let back = parse_pulse_train(&bytes).unwrap();
        assert_eq!(back, pt);
    }
}

#[test]
fn malformed_records_are_rejected() {
    assert!(parse_pulse_train(&b"{}".to_vec()).is_err());
    assert!(parse_pulse_train(&Vec::new()).is_err());
    let leading_zero =
        "{\"nPulses\":007,\"dutyCycle\":1,\"cycleTime\":1,\"vHigh\":1,\"vLow\":1}";
    assert!(parse_pulse_train(&leading_zero.as_bytes().to_vec()).is_err());
    let trailing =
        "{\"nPulses\":5,\"dutyCycle\":1,\"cycleTime\":1,\"vHigh\":1,\"vLow\":1} ";
    assert!(parse_pulse_train(&trailing.as_bytes().to_vec()).is_err());
}

#[test]
fn vendor_status_codes_map_to_the_closed_error_set() {
    assert!(get_result(0).is_ok());
    assert!(matches!(get_result(-3), Err(DriverError::ContextError)));
    assert!(matches!(get_result(-1), Err(DriverError::ParameterOutOfRangeError)));
    assert!(matches!(get_result(-13), Err(DriverError::SequencerNotRunningError)));
    assert!(matches!(get_result(-99), Err(DriverError::UnidentifiedError)));
    assert!(matches!(get_result(7), Err(DriverError::UnidentifiedError)));
}

#[test]
fn config_defaults_to_the_local_store() {
    let cfg = xavier::config::Config::default();
    assert_eq!(cfg.port, 8000);
    assert_eq!(cfg.database_url, "sqlite:./xavier.db?mode=rwc");
}
