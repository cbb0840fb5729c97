//! Value types for voltage waveforms and noise descriptions.
//!
//! A waveform is an ordered sequence of points; each point carries its
//! voltage in microvolts and the elapsed time since the previous point in
//! nanoseconds (never an absolute time).

use vstd::prelude::*;

verus! {

/// Largest voltage magnitude, in microvolts, that the generators accept.
pub const MAX_VOLTAGE_UV: i64 = 100_000_000;

/// One step of a waveform: a voltage in microvolts held for `dtime`
/// nanoseconds after the previous point.
#[derive(Clone, Copy, Debug, PartialEq, Eq, Structural)]
pub struct VoltageWaveFormPoint {
    pub voltage: i64,
    pub dtime: i64,
}

impl Default for VoltageWaveFormPoint {
    /// The all-zero point used to pre-fill freshly allocated waveforms.
    fn default() -> (p: VoltageWaveFormPoint)
        ensures
            p.voltage == 0,
            p.dtime == 0,
    {
        VoltageWaveFormPoint { voltage: 0, dtime: 0 }
    }
}

pub type VoltageWaveForm = Vec<VoltageWaveFormPoint>;

/// Sum of the elapsed times of every point of a waveform.
pub open spec fn total_dtime(s: Seq<VoltageWaveFormPoint>) -> int
    decreases s.len(),
{
    if s.len() == 0 {
        0
    } else {
        total_dtime(s.drop_last()) + s.last().dtime
    }
}

/// Every point's fields lie within the stated magnitudes.
pub open spec fn waveform_bounded(s: Seq<VoltageWaveFormPoint>, max_v: int, max_t: int) -> bool {
    forall|i: int|
        0 <= i < s.len() ==> -max_v <= (#[trigger] s[i]).voltage <= max_v && 0 <= s[i].dtime
            <= max_t
}

/// Appending a point extends the summed duration by its elapsed time.
pub proof fn lemma_total_dtime_push(s: Seq<VoltageWaveFormPoint>, p: VoltageWaveFormPoint)
    ensures
        total_dtime(s.push(p)) == total_dtime(s) + p.dtime,
{
    assert(s.push(p).drop_last() =~= s);
}

/// Appends a point to a waveform under construction, keeping its summed
/// duration in view.
pub fn push_point(waveform: &mut Vec<VoltageWaveFormPoint>, voltage: i64, dtime: i64)
    ensures
        final(waveform)@ == old(waveform)@.push(
            VoltageWaveFormPoint { voltage: voltage, dtime: dtime },
        ),
        total_dtime(final(waveform)@) == total_dtime(old(waveform)@) + dtime,
        final(waveform)@.len() == old(waveform)@.len() + 1,
{
    let p = VoltageWaveFormPoint { voltage: voltage, dtime: dtime };
    proof {
        lemma_total_dtime_push(waveform@, p);
    }
    waveform.push(p);
}

/// Parameters of the one supported noise distribution, in microvolts.
#[derive(Clone, Copy, Debug, PartialEq, Eq, Structural)]
pub struct GaussianNoise {
    pub mean: i64,
    pub sigma: i64,
}

/// A noise description to perturb resampled waveforms with.
#[derive(Clone, Copy, Debug, PartialEq, Eq, Structural)]
pub enum Noise {
    Gaussian(GaussianNoise),
}

} // verus!
