//! The instrument driver contract: the closed set of vendor status codes,
//! channel and mode constants, the sample record, and the capability trait
//! that both the vendor binding and the in-memory simulator implement.
//!
//! The orchestration code depends only on this trait, never on a concrete
//! driver, so it stays host-portable and testable without hardware.

use vstd::prelude::*;

verus! {

/// Logical channel wired to ground / current sense.
pub const CHANNEL1: usize = 101;

/// Logical channel wired to force / voltage sense of the device under test.
pub const CHANNEL2: usize = 102;

/// Stimulus pattern identifier of the measurement with index `idx`.
/// Each measurement owns three consecutive pattern identifiers.
pub fn stimulus_pattern(idx: usize) -> (r: usize)
    requires
        idx <= 1_000_000_000,
    ensures
        r == 3 * idx,
{
    3 * idx
}

/// Margin pattern identifier of the measurement with index `idx`.
pub fn margin_pattern(idx: usize) -> (r: usize)
    requires
        idx <= 1_000_000_000,
    ensures
        r == 3 * idx + 1,
{
    3 * idx + 1
}

/// Ground-channel pattern identifier of the measurement with index `idx`.
pub fn ground_pattern(idx: usize) -> (r: usize)
    requires
        idx <= 1_000_000_000,
    ensures
        r == 3 * idx + 2,
{
    3 * idx + 2
}

/// Measurement-event identifier: voltage samples of a DC step.
pub const EVENT_VOLTAGE: usize = 0;

/// Measurement-event identifier: current samples of a DC step.
pub const EVENT_CURRENT: usize = 1;

/// Measurement-event identifier: samples of the high segment.
pub const EVENT_HIGH: usize = 2;

/// Measurement-event identifier: samples of the low segment.
pub const EVENT_LOW: usize = 3;

/// Measurement-event identifier: current samples of the high segment.
pub const EVENT_HIGH_CURRENT: usize = 4;

/// Measurement-event identifier: current samples of the low segment.
pub const EVENT_LOW_CURRENT: usize = 5;

/// Measurement-event identifier: the uniform per-pulse sampling used
/// when noise is injected.
pub const EVENT_PULSE_SAMPLE: usize = 6;

/// Measurement-event identifier: the single event of an STDP pulse.
pub const EVENT_STDP: usize = 7;

/// Closed enumeration mirroring the vendor's status codes, plus the two
/// conditions the binding itself can raise.
#[derive(Clone, Copy, Debug, PartialEq, Eq, Structural)]
pub enum Error {
    MutexUnlockError,
    NotImplemented,
    ParameterOutOfRangeError,
    IllegalStringError,
    ContextError,
    FunctionNotSupportedError,
    CommunicationError,
    FwError,
    LibraryError,
    UnidentifiedError,
    ChannelNotFoundError,
    PatternNotFoundError,
    EventNotFoundError,
    PatternAlreadyExistsError,
    SequencerNotRunningError,
}

/// The vendor's numeric code for each error the instrument can report.
pub open spec fn spec_error_code(e: Error) -> int {
    match e {
        Error::MutexUnlockError => 0,
        Error::NotImplemented => 1,
        Error::ParameterOutOfRangeError => -1,
        Error::IllegalStringError => -2,
        Error::ContextError => -3,
        Error::FunctionNotSupportedError => -4,
        Error::CommunicationError => -5,
        Error::FwError => -6,
        Error::LibraryError => -7,
        Error::UnidentifiedError => -8,
        Error::ChannelNotFoundError => -9,
        Error::PatternNotFoundError => -10,
        Error::EventNotFoundError => -11,
        Error::PatternAlreadyExistsError => -12,
        Error::SequencerNotRunningError => -13,
    }
}

/// Maps a raw return code of the vendor library to the driver result:
/// zero is success, known negative codes map to their error, and any
/// other value is reported as unidentified.
pub fn get_result(ret: i32) -> (r: Result<(), Error>)
    ensures
        ret == 0 <==> r is Ok,
        ret != 0 ==> (r matches Err(e) && (if -13 <= ret <= -1 {
            spec_error_code(e) == ret
        } else {
            e is UnidentifiedError
        })),
{
    match ret {
        0 => Ok(()),
        -1 => Err(Error::ParameterOutOfRangeError),
        -2 => Err(Error::IllegalStringError),
        -3 => Err(Error::ContextError),
        -4 => Err(Error::FunctionNotSupportedError),
        -5 => Err(Error::CommunicationError),
        -6 => Err(Error::FwError),
        -7 => Err(Error::LibraryError),
        -8 => Err(Error::UnidentifiedError),
        -9 => Err(Error::ChannelNotFoundError),
        -10 => Err(Error::PatternNotFoundError),
        -11 => Err(Error::EventNotFoundError),
        -12 => Err(Error::PatternAlreadyExistsError),
        -13 => Err(Error::SequencerNotRunningError),
        _ => Err(Error::UnidentifiedError),
    }
}

/// Outcome of the instrument's self calibration.
#[derive(Clone, Copy, Debug, PartialEq, Eq, Structural)]
pub enum CalibrationtTestResult {
    PASS,
    FAIL,
}

/// Sequencer status words the instrument can report.
#[derive(Clone, Copy, Debug, PartialEq, Eq, Structural)]
pub enum Status {
    Completed,
    Done,
    Running,
    AbortCompleted,
    Aborted,
    RunningIllegal,
    Idle,
}

/// Channel operation modes.
#[derive(Clone, Copy, Debug, PartialEq, Eq, Structural)]
pub enum OperationMode {
    OperationModeDC,
    OperationModeFastIV,
    OperationModePG,
    OperationModeSMU,
}

/// What a channel samples.
#[derive(Clone, Copy, Debug, PartialEq, Eq, Structural)]
pub enum MeasureMode {
    MeasureModeVoltage,
    MeasureModeCurrent,
}

/// How a measurement event reduces the raw samples.
#[derive(Clone, Copy, Debug, PartialEq, Eq, Structural)]
pub enum MeasureEventMode {
    MeasureEventDataAveraged,
    MeasureEventDataRaw,
}

/// One retrieved sample: voltage in microvolts, current in nanoamperes
/// (absent on a voltage-only channel), time in nanoseconds.
#[derive(Clone, Copy, Debug)]
pub struct Measurement {
    pub voltage: i64,
    pub current: Option<i64>,
    pub time: i64,
}

/// The driver capability interface. Implemented by the in-memory
/// simulator inside this crate and by the vendor-DLL binding outside it.
///
/// Patterns and measurement events are addressed by numeric identifiers;
/// a binding that needs the vendor's string names derives them from the
/// identifiers. The methods promise nothing: a physical instrument may
/// fail any call, so every caller states what holds of its own result
/// whatever a method returned.
pub trait WgfmuDriver: Sized {
    fn open_session(&mut self, instrument: &str) -> Result<(), Error>;

    fn close_session(&mut self) -> Result<(), Error>;

    fn clear(&mut self) -> Result<(), Error>;

    fn create_pattern(&mut self, pattern: usize, init_v: i64) -> Result<(), Error>;

    fn add_vector(&mut self, pattern: usize, d_time: i64, voltage: i64) -> Result<(), Error>;

    fn set_vector(&mut self, pattern: usize, time: i64, voltage: i64) -> Result<(), Error>;

    fn set_measure_event(
        &mut self,
        pattern: usize,
        event: usize,
        time: i64,
        points: i64,
        interval: i64,
        average: i64,
        measure_event_mode: MeasureEventMode,
    ) -> Result<(), Error>;

    fn add_sequence(&mut self, chan_id: usize, pattern: usize, count: usize) -> Result<(), Error>;

    fn initialize(&mut self) -> Result<(), Error>;

    fn set_operation_mode(&mut self, chan_id: usize, operation_mode: OperationMode) -> Result<
        (),
        Error,
    >;

    fn set_measure_mode(&mut self, chan_id: usize, mode: MeasureMode) -> Result<(), Error>;

    fn connect(&mut self, chan_id: usize) -> Result<(), Error>;

    fn execute(&mut self) -> Result<(), Error>;

    fn wait_until_completed(&mut self) -> Result<(), Error>;

    fn get_measure_values(&mut self, chan_id: usize) -> Result<Vec<Measurement>, Error>;

    fn do_self_calibration(&mut self) -> Result<(), Error>;

    /// Lets transients settle for the given guard time before the next
    /// driver call; a physical binding sleeps, the simulator returns.
    fn settle(&mut self, duration_ns: i64) -> Result<(), Error>;
}

} // verus!
