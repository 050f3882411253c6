//! What the load sampler does with the outcome of one load query.
//!
//! The sampler runs forever on a thread of its own: it queries the load,
//! runs one cycle on the outcome, rests, and starts over. It is the only
//! writer of the control value cell.

use crate::config::SynthConfig;
use crate::control::ControlValueCell;
use crate::error::BeepError;
use crate::load::scaled_control;
use crate::load::scaled_control_for;
use crate::load::LoadSample;
use vstd::prelude::*;

verus! {

/// What one cycle of the sampler does.
#[derive(Clone, Copy, Debug, PartialEq, Eq, Structural)]
pub struct SamplerCycle {
    /// The control value to publish, or `None` to leave the cell alone.
    pub publish: Option<usize>,
    /// How long to rest before the next query, in seconds.
    pub rest_secs: u64,
}

/// The value the control value cell holds after a cycle, given the value it
/// held before and what the cycle does.
pub open spec fn published_after(before: usize, cycle: SamplerCycle) -> usize {
    match cycle.publish {
        Some(control) => control,
        None => before,
    }
}

/// The sampler's policy: the one-minute load average is scaled and
/// published, a failed query changes nothing, and either way the sampler
/// rests for its period.
#[derive(Clone, Copy, Debug, PartialEq, Eq, Structural)]
pub struct LoadSampler {
    pub config: SynthConfig,
}

impl LoadSampler {
    pub fn new(config: SynthConfig) -> (sampler: Self)
        ensures
            sampler.config == config,
    {
        LoadSampler { config }
    }

    /// What a cycle does on the outcome of its load query.
    pub open spec fn cycle_for(&self, reading: Result<LoadSample, BeepError>) -> SamplerCycle {
        SamplerCycle {
            publish: match reading {
                Ok(sample) => Some(
                    scaled_control_for(sample.one_minute, self.config.scale) as usize,
                ),
                Err(_) => None,
            },
            rest_secs: self.config.sampler_period_secs,
        }
    }

    /// Decides one cycle. A failed query is absorbed here: it is neither
    /// passed on nor retried before the next cycle.
    pub fn on_reading(&self, reading: Result<LoadSample, BeepError>) -> (cycle: SamplerCycle)
        ensures
            cycle == self.cycle_for(reading),
            cycle.rest_secs == self.config.sampler_period_secs,
            reading.is_ok() ==> cycle.publish == Some(
                scaled_control_for(reading.unwrap().one_minute, self.config.scale) as usize,
            ),
            reading.is_err() ==> cycle.publish.is_none(),
            forall|before: usize|
                reading.is_err() ==> #[trigger] published_after(before, cycle) == before,
    {
        let publish = match reading {
            Ok(sample) => Some(scaled_control(sample.one_minute, self.config.scale)),
            Err(_) => None,
        };
        SamplerCycle { publish, rest_secs: self.config.sampler_period_secs }
    }

    /// Runs one cycle up to the rest: decides it, publishes into `cell` what
    /// it says to publish, and returns it so that the caller can rest.
    pub fn run_cycle(&self, cell: &ControlValueCell, reading: Result<LoadSample, BeepError>) -> (cycle:
        SamplerCycle)
        ensures
            cycle == self.cycle_for(reading),
    {
        let cycle = self.on_reading(reading);
        match cycle.publish {
            Some(control) => cell.publish(control),
            None => {},
        }
        cycle
    }
}

/// A cycle whose query failed leaves the published value as it was.
pub proof fn lemma_failed_query_keeps_value(
    sampler: LoadSampler,
    before: usize,
    failure: BeepError,
)
    ensures
        published_after(before, sampler.cycle_for(Err(failure))) == before,
{
}

} // verus!
