//! The constants that govern sampling and synthesis.

use vstd::prelude::*;

verus! {

/// Factor that turns a load average into the integer control value.
pub const DEFAULT_SCALE: u32 = 10;

/// Pitch, in hertz, sounded at a load average of exactly one.
pub const DEFAULT_BASE_FREQUENCY_HZ: u32 = 220;

/// Number of samples between two reads of the control value.
pub const DEFAULT_REFRESH_INTERVAL: u32 = 1000;

/// Seconds the sampler rests between two load queries.
pub const DEFAULT_SAMPLER_PERIOD_SECS: u64 = 1;

/// Configuration shared by the sampler and the oscillator.
#[derive(Clone, Copy, Debug, PartialEq, Eq, Structural)]
pub struct SynthConfig {
    pub scale: u32,
    pub base_frequency_hz: u32,
    pub refresh_interval: u32,
    pub sampler_period_secs: u64,
}

impl SynthConfig {
    /// A configuration is usable when neither divisor is zero.
    pub open spec fn well_formed(&self) -> bool {
        self.scale > 0 && self.refresh_interval > 0
    }

    /// The configuration with scale 10, base pitch 220 Hz, a refresh every
    /// 1000 samples and one load query per second.
    pub fn standard() -> (config: Self)
        ensures
            config.scale == DEFAULT_SCALE,
            config.base_frequency_hz == DEFAULT_BASE_FREQUENCY_HZ,
            config.refresh_interval == DEFAULT_REFRESH_INTERVAL,
            config.sampler_period_secs == DEFAULT_SAMPLER_PERIOD_SECS,
            config.well_formed(),
    {
        SynthConfig {
            scale: DEFAULT_SCALE,
            base_frequency_hz: DEFAULT_BASE_FREQUENCY_HZ,
            refresh_interval: DEFAULT_REFRESH_INTERVAL,
            sampler_period_secs: DEFAULT_SAMPLER_PERIOD_SECS,
        }
    }

    /// Tells whether the configuration is usable.
    pub fn is_well_formed(&self) -> (ok: bool)
        ensures
            ok == self.well_formed(),
    {
        self.scale > 0 && self.refresh_interval > 0
    }

    /// The control value that stands for a load average of exactly one, at
    /// which the oscillator sounds the base pitch.
    pub open spec fn neutral_control_spec(&self) -> usize {
        self.scale as usize
    }

    /// The control value to put into the cell before any load was sampled.
    pub fn neutral_control(&self) -> (control: usize)
        ensures
            control == self.neutral_control_spec(),
            control == self.scale,
    {
        self.scale as usize
    }
}

} // verus!
