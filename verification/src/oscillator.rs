//! The phase accumulator and its pitch refresh policy.
//!
//! The oscillator counts samples modulo the sample rate. The count, together
//! with the current pitch, names the point of the sine wave that belongs to a
//! frame. Whenever the count reaches a multiple of the refresh interval the
//! pitch is recomputed from the control value; between two such points it
//! never changes.

use crate::config::SynthConfig;
use crate::control::ControlValueCell;
use crate::sample::UnitSample;
use vstd::arithmetic::div_mod::lemma_mod_self_0;
use vstd::arithmetic::div_mod::lemma_small_mod;
use vstd::prelude::*;

verus! {

/// A pitch as an exact fraction, in hertz.
#[derive(Clone, Copy, Debug, PartialEq, Eq, Structural)]
pub struct Frequency {
    pub numerator: u128,
    pub denominator: u32,
}

/// The largest numerator a pitch can have: the largest base pitch times the
/// largest control value.
pub open spec fn max_frequency_numerator() -> int {
    0xFFFF_FFFFint * 0xFFFF_FFFF_FFFF_FFFFint
}

/// The pitch that belongs to a control value: the base pitch times the
/// control value, divided by the scale.
pub open spec fn frequency_for(config: SynthConfig, control: usize) -> Frequency {
    Frequency {
        numerator: (config.base_frequency_hz * control) as u128,
        denominator: config.scale,
    }
}

impl Frequency {
    pub open spec fn well_formed(&self) -> bool {
        self.denominator > 0 && self.numerator <= max_frequency_numerator()
    }

    /// The pitch is exactly `hz` hertz, with no fractional part.
    pub open spec fn is_whole_hertz(&self, hz: int) -> bool {
        self.numerator == hz * self.denominator
    }

    /// Computes the pitch that belongs to `control`.
    pub fn from_control(config: &SynthConfig, control: usize) -> (frequency: Self)
        ensures
            frequency == frequency_for(*config, control),
            frequency.numerator == config.base_frequency_hz * control,
            frequency.denominator == config.scale,
            config.well_formed() ==> frequency.well_formed(),
    {
        proof {
            lemma_product_bound(
                config.base_frequency_hz as int,
                control as int,
                0xFFFF_FFFF,
                0xFFFF_FFFF_FFFF_FFFF,
            );
        }
        let base: u128 = config.base_frequency_hz as u128;
        let factor: u128 = control as u128;
        Frequency { numerator: base * factor, denominator: config.scale }
    }
}

/// A product of bounded non-negative factors is bounded by the product of
/// the bounds.
proof fn lemma_product_bound(a: int, b: int, a_max: int, b_max: int)
    requires
        0 <= a <= a_max,
        0 <= b <= b_max,
    ensures
        0 <= a * b <= a_max * b_max,
{
    assert(0 <= a * b <= a_max * b_max) by (nonlinear_arith)
        requires
            0 <= a <= a_max,
            0 <= b <= b_max,
    ;
}

/// A position within one turn of the wave, as an exact fraction in `[0, 1)`.
#[derive(Clone, Copy, Debug, PartialEq, Eq, Structural)]
pub struct TurnFraction {
    pub numerator: u64,
    pub denominator: u64,
}

/// The point of the waveform that belongs to one frame. The sample there is
/// `sin(2π · clock / sample_rate_hz · frequency)`.
#[derive(Clone, Copy, Debug, PartialEq, Eq, Structural)]
pub struct PhasePoint {
    pub clock: u32,
    pub sample_rate_hz: u32,
    pub frequency: Frequency,
}

impl PhasePoint {
    pub open spec fn well_formed(&self) -> bool {
        self.clock < self.sample_rate_hz && self.frequency.well_formed()
    }

    /// The number of turns the wave has made at this point is
    /// `turns_numerator() / turns_denominator()`.
    pub open spec fn turns_numerator(&self) -> int {
        self.clock * self.frequency.numerator
    }

    pub open spec fn turns_denominator(&self) -> int {
        self.sample_rate_hz * self.frequency.denominator
    }

    /// Drops the whole turns: the sine at this point equals the sine at the
    /// returned fraction of one turn.
    pub fn turn_position(&self) -> (position: TurnFraction)
        requires
            self.well_formed(),
        ensures
            position.denominator == self.turns_denominator(),
            position.numerator == self.turns_numerator() % self.turns_denominator(),
            position.numerator < position.denominator,
    {
        proof {
            lemma_product_bound(
                self.clock as int,
                self.frequency.numerator as int,
                0xFFFF_FFFF,
                max_frequency_numerator(),
            );
            lemma_product_bound(
                self.sample_rate_hz as int - 1,
                self.frequency.denominator as int - 1,
                0xFFFF_FFFF - 1,
                0xFFFF_FFFF - 1,
            );
            assert(self.sample_rate_hz * self.frequency.denominator >= 1) by (nonlinear_arith)
                requires
                    self.sample_rate_hz >= 1,
                    self.frequency.denominator >= 1,
            ;
            lemma_product_bound(
                self.sample_rate_hz as int,
                self.frequency.denominator as int,
                0xFFFF_FFFF,
                0xFFFF_FFFF,
            );
        }
        let turns: u128 = (self.clock as u128) * self.frequency.numerator;
        let whole: u64 = (self.sample_rate_hz as u64) * (self.frequency.denominator as u64);
        let rest: u128 = turns % (whole as u128);
        TurnFraction { numerator: rest as u64, denominator: whole }
    }
}

/// The sample count that follows `clock` at the given sample rate.
pub open spec fn next_clock(clock: u32, sample_rate_hz: u32) -> u32 {
    ((clock + 1) % (sample_rate_hz as int)) as u32
}

/// The state of the tone generator. Owned by the audio callback alone.
#[derive(Clone, Copy, Debug, PartialEq, Eq, Structural)]
pub struct Oscillator {
    pub config: SynthConfig,
    pub sample_rate_hz: u32,
    /// Samples produced so far, modulo the sample rate.
    pub phase_clock: u32,
    pub current_frequency: Frequency,
    /// Samples produced since the pitch was last recomputed.
    pub samples_since_refresh: u32,
}

impl Oscillator {
    pub open spec fn well_formed(&self) -> bool {
        &&& self.config.well_formed()
        &&& self.sample_rate_hz > 0
        &&& self.phase_clock < self.sample_rate_hz
        &&& self.samples_since_refresh == self.phase_clock % self.config.refresh_interval
        &&& self.current_frequency.well_formed()
        &&& self.current_frequency.denominator == self.config.scale
    }

    /// The point of the waveform that the next sample is taken from.
    pub open spec fn phase_point_spec(&self) -> PhasePoint {
        PhasePoint {
            clock: self.phase_clock,
            sample_rate_hz: self.sample_rate_hz,
            frequency: self.current_frequency,
        }
    }

    /// Whether producing the next sample brings the count to a multiple of
    /// the refresh interval, so that the pitch is recomputed.
    pub open spec fn refresh_due(&self) -> bool {
        next_clock(self.phase_clock, self.sample_rate_hz) % self.config.refresh_interval == 0
    }

    /// The state after one sample, where `control` is what the control value
    /// cell holds at that moment. It is looked at only when a refresh is due.
    pub open spec fn after_step(self, control: usize) -> Oscillator {
        let clock = next_clock(self.phase_clock, self.sample_rate_hz);
        Oscillator {
            config: self.config,
            sample_rate_hz: self.sample_rate_hz,
            phase_clock: clock,
            current_frequency: if self.refresh_due() {
                frequency_for(self.config, control)
            } else {
                self.current_frequency
            },
            samples_since_refresh: clock % self.config.refresh_interval,
        }
    }

    /// The state after one sample for each entry of `controls`, in order.
    pub open spec fn after_steps(self, controls: Seq<usize>) -> Oscillator
        decreases controls.len(),
    {
        if controls.len() == 0 {
            self
        } else {
            self.after_steps(controls.drop_last()).after_step(controls.last())
        }
    }

    /// How many of the samples produced along `controls` recomputed the pitch.
    pub open spec fn refreshes_during(self, controls: Seq<usize>) -> nat
        decreases controls.len(),
    {
        if controls.len() == 0 {
            0
        } else {
            let before = self.after_steps(controls.drop_last());
            let earlier = self.refreshes_during(controls.drop_last());
            if before.refresh_due() {
                earlier + 1
            } else {
                earlier
            }
        }
    }

    /// An oscillator at the start of a stream: the count is zero and the
    /// pitch is the one that belongs to `initial_control`.
    pub fn new(config: SynthConfig, sample_rate_hz: u32, initial_control: usize) -> (oscillator:
        Self)
        requires
            config.well_formed(),
            sample_rate_hz > 0,
        ensures
            oscillator.well_formed(),
            oscillator.config == config,
            oscillator.sample_rate_hz == sample_rate_hz,
            oscillator.phase_clock == 0,
            oscillator.samples_since_refresh == 0,
            oscillator.current_frequency == frequency_for(config, initial_control),
    {
        Oscillator {
            config,
            sample_rate_hz,
            phase_clock: 0,
            current_frequency: Frequency::from_control(&config, initial_control),
            samples_since_refresh: 0,
        }
    }

    /// The point of the waveform that the next sample is taken from.
    pub fn phase_point(&self) -> (point: PhasePoint)
        ensures
            point == self.phase_point_spec(),
            self.well_formed() ==> point.well_formed(),
    {
        PhasePoint {
            clock: self.phase_clock,
            sample_rate_hz: self.sample_rate_hz,
            frequency: self.current_frequency,
        }
    }

    /// Moves the count on by one sample and says whether a refresh is due.
    fn tick(&mut self) -> (due: bool)
        requires
            old(self).well_formed(),
        ensures
            due == old(self).refresh_due(),
            final(self).config == old(self).config,
            final(self).sample_rate_hz == old(self).sample_rate_hz,
            final(self).current_frequency == old(self).current_frequency,
            final(self).phase_clock == next_clock(old(self).phase_clock, old(self).sample_rate_hz),
            final(self).samples_since_refresh == final(self).phase_clock
                % final(self).config.refresh_interval,
            final(self).well_formed(),
    {
        let following: u32 = if self.phase_clock == self.sample_rate_hz - 1 {
            0
        } else {
            self.phase_clock + 1
        };
        proof {
            if self.phase_clock == self.sample_rate_hz - 1 {
                assert((self.phase_clock + 1) % (self.sample_rate_hz as int) == 0) by {
                    lemma_mod_self_0(self.sample_rate_hz as int);
                }
            } else {
                lemma_small_mod((self.phase_clock + 1) as nat, self.sample_rate_hz as nat);
            }
        }
        let since: u32 = following % self.config.refresh_interval;
        self.phase_clock = following;
        self.samples_since_refresh = since;
        since == 0
    }

    /// Produces one sample's phase point, given the value that the control
    /// value cell holds. The pitch changes only if this sample brings the
    /// count to a multiple of the refresh interval.
    pub fn advance(&mut self, control: usize) -> (point: PhasePoint)
        requires
            old(self).well_formed(),
        ensures
            point == old(self).phase_point_spec(),
            point.well_formed(),
            *final(self) == old(self).after_step(control),
            final(self).well_formed(),
            final(self).phase_clock == (old(self).phase_clock + 1) % (old(
                self,
            ).sample_rate_hz as int),
            !old(self).refresh_due() ==> final(self).current_frequency == old(
                self,
            ).current_frequency,
            old(self).refresh_due() ==> final(self).current_frequency == frequency_for(
                old(self).config,
                control,
            ),
    {
        let point = self.phase_point();
        let due = self.tick();
        if due {
            self.current_frequency = Frequency::from_control(&self.config, control);
        }
        point
    }

    /// Produces one sample's phase point, reading the control value cell only
    /// if a refresh is due. Returns the value read, if any.
    pub fn next_phase_point(&mut self, cell: &ControlValueCell) -> (produced: (
        PhasePoint,
        Option<usize>,
    ))
        requires
            old(self).well_formed(),
        ensures
            produced.0 == old(self).phase_point_spec(),
            produced.0.well_formed(),
            produced.1.is_some() == old(self).refresh_due(),
            *final(self) == old(self).after_step(control_seen(produced.1)),
            final(self).well_formed(),
    {
        let point = self.phase_point();
        let due = self.tick();
        if due {
            let control: usize = cell.read();
            self.current_frequency = Frequency::from_control(&self.config, control);
            (point, Some(control))
        } else {
            (point, None)
        }
    }

    /// Produces one sample: `wave` evaluates the waveform at the phase point
    /// of this sample, and the oscillator moves on as in
    /// [`Oscillator::next_phase_point`]. Returns the sample and the control
    /// value read, if any.
    pub fn next_unit_sample<W: Fn(PhasePoint) -> UnitSample>(
        &mut self,
        cell: &ControlValueCell,
        wave: &W,
    ) -> (produced: (UnitSample, Option<usize>))
        requires
            old(self).well_formed(),
            call_requires(*wave, (old(self).phase_point_spec(),)),
        ensures
            call_ensures(*wave, (old(self).phase_point_spec(),), produced.0),
            produced.1.is_some() == old(self).refresh_due(),
            *final(self) == old(self).after_step(control_seen(produced.1)),
            final(self).well_formed(),
    {
        let (point, read) = self.next_phase_point(cell);
        (wave(point), read)
    }
}

/// The control value that a step went by: the one read, or zero where the
/// cell was not read because no refresh was due.
pub open spec fn control_seen(read: Option<usize>) -> usize {
    match read {
        Some(control) => control,
        None => 0,
    }
}

} // verus!
