//! Session plumbing shared by every measurement: opening the instrument
//! session with the stale-session recovery, the common fast-IV channel
//! configuration, and the DC-step conductance measurement.

use crate::conductance::conductance_from_measurements;
use crate::driver::{
    ground_pattern, margin_pattern, stimulus_pattern, MeasureEventMode, MeasureMode, OperationMode,
    WgfmuDriver, CHANNEL1, CHANNEL2, EVENT_CURRENT, EVENT_VOLTAGE,
};
use crate::intmath::floor_div;
use crate::measure::Error;
use vstd::prelude::*;

verus! {

/// Opens a session, and where the driver reports a stale context,
/// forces a session close and retries exactly once; any other failure,
/// including one of the forced close, is propagated verbatim.
pub fn open_session_retrying<D: WgfmuDriver>(wgfmu: &mut D, instrument: &str) -> (r: Result<
    (),
    crate::driver::Error,
>)
{
    let first = wgfmu.open_session(instrument);
    match first {
        Ok(_) => Ok(()),
        Err(crate::driver::Error::ContextError) => {
            match wgfmu.close_session() {
                Ok(_) => {},
                Err(e) => {
                    return Err(e);
                },
            }
            wgfmu.open_session(instrument)
        },
        Err(e) => Err(e),
    }
}

/// Brings both channels into fast-IV operation, voltage sensing on the
/// stimulus channel and current sensing on the ground channel, and
/// connects them.
pub fn configure_fastiv<D: WgfmuDriver>(wgfmu: &mut D) -> (r: Result<(), Error>)
    ensures
        r matches Err(e) ==> e is WgfmuError,
{
    match wgfmu.set_operation_mode(CHANNEL2, OperationMode::OperationModeFastIV) {
        Ok(_) => {},
        Err(e) => {
            return Err(Error::WgfmuError(e));
        },
    }
    match wgfmu.set_operation_mode(CHANNEL1, OperationMode::OperationModeFastIV) {
        Ok(_) => {},
        Err(e) => {
            return Err(Error::WgfmuError(e));
        },
    }
    match wgfmu.set_measure_mode(CHANNEL2, MeasureMode::MeasureModeVoltage) {
        Ok(_) => {},
        Err(e) => {
            return Err(Error::WgfmuError(e));
        },
    }
    match wgfmu.set_measure_mode(CHANNEL1, MeasureMode::MeasureModeCurrent) {
        Ok(_) => {},
        Err(e) => {
            return Err(Error::WgfmuError(e));
        },
    }
    match wgfmu.connect(CHANNEL2) {
        Ok(_) => {},
        Err(e) => {
            return Err(Error::WgfmuError(e));
        },
    }
    match wgfmu.connect(CHANNEL1) {
        Ok(_) => {},
        Err(e) => {
            return Err(Error::WgfmuError(e));
        },
    }
    Ok(())
}

/// Test voltage of the conductance probe, in microvolts.
pub const CONDUCTANCE_TEST_V_UV: i64 = -100_000;

/// Duration of the conductance probe's DC step, in nanoseconds.
pub const CONDUCTANCE_TEST_TIME_NS: i64 = 1_000_000_000;

/// Nominal sampling interval of the conductance probe, in nanoseconds.
pub const CONDUCTANCE_SAMPLING_NS: i64 = 10_000_000;

/// Drives the fixed low-amplitude DC step through one full session and
/// reduces the retrieved samples to a conductance in nanosiemens.
///
/// The reduction itself is `conductance_from_measurements`, whose
/// contract pins the result for every sample train the driver can hand
/// back; this function only stages the step and forwards that result,
/// so a conductance it returns is never negative, and every failure is
/// a propagated driver error or a condition of the retrieved train.
pub fn measure_conductance_fastiv<D: WgfmuDriver>(wgfmu: &mut D, instrument: Option<&str>) -> (r:
    Result<i64, Error>)
    ensures
        r matches Ok(g) ==> g >= 0,
        r matches Err(e) ==> e is WgfmuError || e is ConductanceUndefined || e is SampleOutOfRange,
{
    match wgfmu.clear() {
        Ok(_) => {},
        Err(e) => {
            return Err(Error::WgfmuError(e));
        },
    }
    let avg_time: i64 = 0;
    let test_v: i64 = CONDUCTANCE_TEST_V_UV;
    let test_time: i64 = CONDUCTANCE_TEST_TIME_NS;
    let resolution: i64 = CONDUCTANCE_SAMPLING_NS;
    let points: i64 = floor_div(test_time - avg_time, resolution) - 1;
    match wgfmu.create_pattern(stimulus_pattern(0), 0) {
        Ok(_) => {},
        Err(e) => {
            return Err(Error::WgfmuError(e));
        },
    }
    match wgfmu.add_vector(stimulus_pattern(0), 10, test_v) {
        Ok(_) => {},
        Err(e) => {
            return Err(Error::WgfmuError(e));
        },
    }
    match wgfmu.add_vector(stimulus_pattern(0), test_time, test_v) {
        Ok(_) => {},
        Err(e) => {
            return Err(Error::WgfmuError(e));
        },
    }
    match wgfmu.add_sequence(CHANNEL2, stimulus_pattern(0), 1) {
        Ok(_) => {},
        Err(e) => {
            return Err(Error::WgfmuError(e));
        },
    }
    match wgfmu.set_measure_event(
        stimulus_pattern(0),
        EVENT_VOLTAGE,
        0,
        points,
        resolution,
        avg_time,
        MeasureEventMode::MeasureEventDataAveraged,
    ) {
        Ok(_) => {},
        Err(e) => {
            return Err(Error::WgfmuError(e));
        },
    }
    match wgfmu.create_pattern(margin_pattern(0), 0) {
        Ok(_) => {},
        Err(e) => {
            return Err(Error::WgfmuError(e));
        },
    }
    match wgfmu.add_vector(margin_pattern(0), floor_div(test_time, 8), 0) {
        Ok(_) => {},
        Err(e) => {
            return Err(Error::WgfmuError(e));
        },
    }
    match wgfmu.add_sequence(CHANNEL2, margin_pattern(0), 1) {
        Ok(_) => {},
        Err(e) => {
            return Err(Error::WgfmuError(e));
        },
    }
    match wgfmu.create_pattern(ground_pattern(0), 0) {
        Ok(_) => {},
        Err(e) => {
            return Err(Error::WgfmuError(e));
        },
    }
    match wgfmu.set_vector(ground_pattern(0), floor_div(test_time * 9, 8) + 10, 0) {
        Ok(_) => {},
        Err(e) => {
            return Err(Error::WgfmuError(e));
        },
    }
    match wgfmu.add_sequence(CHANNEL1, ground_pattern(0), 1) {
        Ok(_) => {},
        Err(e) => {
            return Err(Error::WgfmuError(e));
        },
    }
    match wgfmu.set_measure_event(
        ground_pattern(0),
        EVENT_CURRENT,
        0,
        points,
        resolution,
        avg_time,
        MeasureEventMode::MeasureEventDataAveraged,
    ) {
        Ok(_) => {},
        Err(e) => {
            return Err(Error::WgfmuError(e));
        },
    }
    match instrument {
        Some(name) => {
            match open_session_retrying(wgfmu, name) {
                Ok(_) => {},
                Err(e) => {
                    return Err(Error::WgfmuError(e));
                },
            }
        },
        None => {},
    }
    match wgfmu.initialize() {
        Ok(_) => {},
        Err(e) => {
            return Err(Error::WgfmuError(e));
        },
    }
    match configure_fastiv(wgfmu) {
        Ok(_) => {},
        Err(e) => {
            return Err(e);
        },
    }
    match wgfmu.execute() {
        Ok(_) => {},
        Err(e) => {
            return Err(Error::WgfmuError(e));
        },
    }
    match wgfmu.wait_until_completed() {
        Ok(_) => {},
        Err(e) => {
            return Err(Error::WgfmuError(e));
        },
    }
    let measurement = match wgfmu.get_measure_values(CHANNEL2) {
        Ok(v) => v,
        Err(e) => {
            return Err(Error::WgfmuError(e));
        },
    };
    let conductance = match conductance_from_measurements(&measurement) {
        Ok(g) => g,
        Err(e) => {
            return Err(e);
        },
    };
    match instrument {
        Some(_) => {
            match wgfmu.close_session() {
                Ok(_) => {},
                Err(e) => {
                    return Err(Error::WgfmuError(e));
                },
            }
        },
        None => {},
    }
    Ok(conductance)
}

} // verus!
