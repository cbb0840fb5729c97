//! A deterministic in-memory stand-in for the instrument driver: it
//! records every vector sent to a pattern, synthesizes a current of
//! half the voltage for each, and plays sequences back as the measured
//! waveform. Useful for exercising the orchestration without hardware.

use crate::driver::{
    Error, MeasureEventMode, MeasureMode, Measurement, OperationMode, WgfmuDriver,
};
use crate::intmath::floor_div;
use vstd::prelude::*;

verus! {

/// The vectors recorded for one pattern, with the pattern's running end
/// time.
#[derive(Clone, Debug)]
struct SimVector {
    measurements: Vec<Measurement>,
    last_t: i64,
}

/// The simulated driver.
#[derive(Debug)]
pub struct TestWgfmu {
    vectors: Vec<(usize, SimVector)>,
    last_t: i64,
    measured_waveform: Vec<Measurement>,
}

/// A pattern end time multiplied by a repeat count stays well inside the
/// double-width word, with room for two more single-width additions.
proof fn lemma_shift_product_in_range(cycle_time: int, reps: int)
    requires
        i64::MIN <= cycle_time <= i64::MAX,
        0 <= reps <= usize::MAX,
    ensures
        (i64::MIN as int) * (usize::MAX as int) <= cycle_time * reps <= (i64::MAX as int) * (
        usize::MAX as int),
{
    assert((i64::MIN as int) * (usize::MAX as int) <= cycle_time * reps <= (i64::MAX as int) * (
    usize::MAX as int)) by (nonlinear_arith)
        requires
            i64::MIN <= cycle_time <= i64::MAX,
            0 <= reps <= usize::MAX,
    ;
}

/// A double-width value clamped into the signed word.
fn saturate_i64(x: i128) -> (r: i64)
    ensures
        x > i64::MAX ==> r == i64::MAX,
        x < i64::MIN ==> r == i64::MIN,
        i64::MIN <= x <= i64::MAX ==> r as int == x as int,
{
    if x > i64::MAX as i128 {
        i64::MAX
    } else if x < i64::MIN as i128 {
        i64::MIN
    } else {
        x as i64
    }
}

impl TestWgfmu {
    /// A fresh simulator with no patterns and nothing measured.
    pub fn new() -> TestWgfmu {
        TestWgfmu { vectors: Vec::new(), last_t: 0, measured_waveform: Vec::new() }
    }

    /// Index of a pattern in the store, if it was created.
    fn find_pattern(&self, pattern: usize) -> (r: Option<usize>)
        ensures
            r matches Some(i) ==> i < self.vectors@.len() && self.vectors@[i as int].0 == pattern,
    {
        let mut i: usize = 0;
        while i < self.vectors.len()
            invariant
                0 <= i <= self.vectors@.len(),
            decreases self.vectors@.len() - i,
        {
            if self.vectors[i].0 == pattern {
                return Some(i);
            }
            i = i + 1;
        }
        None
    }
}

impl WgfmuDriver for TestWgfmu {
    fn open_session(&mut self, instrument: &str) -> Result<(), Error> {
        Ok(())
    }

    fn close_session(&mut self) -> Result<(), Error> {
        Ok(())
    }

    fn clear(&mut self) -> Result<(), Error> {
        Ok(())
    }

    fn create_pattern(&mut self, pattern: usize, init_v: i64) -> Result<(), Error> {
        let found = self.find_pattern(pattern);
        let fresh = SimVector { measurements: Vec::new(), last_t: 0 };
        match found {
            Some(i) => {
                self.vectors.set(i, (pattern, fresh));
            },
            None => {
                self.vectors.push((pattern, fresh));
            },
        }
        Ok(())
    }

    fn add_vector(&mut self, pattern: usize, d_time: i64, voltage: i64) -> Result<(), Error> {
        let step: i64 = if d_time <= 0 {
            10
        } else {
            d_time
        };
        let found = self.find_pattern(pattern);
        match found {
            Some(i) => {
                let mut entry = self.vectors[i].1.clone();
                entry.last_t = saturate_i64((entry.last_t as i128) + (step as i128));
                let halved: i64 = if voltage == i64::MIN {
                    i64::MIN / 2
                } else {
                    floor_div(voltage, 2)
                };
                entry.measurements.push(
                    Measurement { voltage: voltage, current: Some(halved), time: entry.last_t },
                );
                self.vectors.set(i, (pattern, entry));
            },
            None => {},
        }
        Ok(())
    }

    fn set_vector(&mut self, pattern: usize, time: i64, voltage: i64) -> Result<(), Error> {
        Ok(())
    }

    fn set_measure_event(
        &mut self,
        pattern: usize,
        event: usize,
        time: i64,
        points: i64,
        interval: i64,
        average: i64,
        measure_event_mode: MeasureEventMode,
    ) -> Result<(), Error> {
        Ok(())
    }

    fn add_sequence(&mut self, chan_id: usize, pattern: usize, count: usize) -> Result<
        (),
        Error,
    > {
        let found = self.find_pattern(pattern);
        match found {
            Some(idx) => {
                let entry = self.vectors[idx].1.clone();
                let cycle_time: i64 = entry.last_t;
                let mut rep: usize = 1;
                while rep < count
                    invariant
                        1 <= rep,
                    decreases count - rep,
                {
                    let mut j: usize = 0;
                    while j < entry.measurements.len()
                        invariant
                            0 <= j <= entry.measurements@.len(),
                            1 <= rep,
                        decreases entry.measurements@.len() - j,
                    {
                        let meas = entry.measurements[j];
                        proof {
                            lemma_shift_product_in_range(cycle_time as int, (rep - 1) as int);
                        }
                        let partial: i64 = saturate_i64(
                            (meas.time as i128) + (cycle_time as i128) * ((rep - 1) as i128),
                        );
                        let shifted: i64 = saturate_i64(
                            (partial as i128) + (self.last_t as i128),
                        );
                        self.measured_waveform.push(
                            Measurement {
                                voltage: meas.voltage,
                                current: meas.current,
                                time: shifted,
                            },
                        );
                        j = j + 1;
                    }
                    rep = rep + 1;
                }
                if count >= 1 {
                    proof {
                        lemma_shift_product_in_range(cycle_time as int, (count - 1) as int);
                    }
                    self.last_t = saturate_i64(
                        (self.last_t as i128) + (cycle_time as i128) * ((count - 1) as i128),
                    );
                }
            },
            None => {},
        }
        Ok(())
    }

    fn initialize(&mut self) -> Result<(), Error> {
        Ok(())
    }

    fn set_operation_mode(&mut self, chan_id: usize, operation_mode: OperationMode) -> Result<
        (),
        Error,
    > {
        Ok(())
    }

    fn set_measure_mode(&mut self, chan_id: usize, mode: MeasureMode) -> Result<(), Error> {
        Ok(())
    }

    fn connect(&mut self, chan_id: usize) -> Result<(), Error> {
        Ok(())
    }

    fn execute(&mut self) -> Result<(), Error> {
        Ok(())
    }

    fn wait_until_completed(&mut self) -> Result<(), Error> {
        Ok(())
    }

    fn get_measure_values(&mut self, chan_id: usize) -> Result<Vec<Measurement>, Error> {
        Ok(self.measured_waveform.clone())
    }

    fn do_self_calibration(&mut self) -> Result<(), Error> {
        Ok(())
    }

    fn settle(&mut self, duration_ns: i64) -> Result<(), Error> {
        Ok(())
    }
}

} // verus!
