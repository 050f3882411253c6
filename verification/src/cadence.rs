//! What holds of the oscillator over a run of samples.

use crate::config::SynthConfig;
use crate::oscillator::frequency_for;
use crate::oscillator::Oscillator;
use vstd::arithmetic::div_mod::lemma_add_mod_noop;
use vstd::arithmetic::div_mod::lemma_mod_self_0;
use vstd::arithmetic::div_mod::lemma_small_mod;
use vstd::prelude::*;

verus! {

/// A step keeps the oscillator well formed, whatever the control value.
pub proof fn lemma_step_keeps_well_formed(oscillator: Oscillator, control: usize)
    requires
        oscillator.well_formed(),
    ensures
        oscillator.after_step(control).well_formed(),
{
    let rate = oscillator.sample_rate_hz as int;
    assert(0 <= (oscillator.phase_clock + 1) % rate < rate);
    assert(0 <= oscillator.config.base_frequency_hz * control <= 0xFFFF_FFFFint
        * 0xFFFF_FFFF_FFFF_FFFFint) by (nonlinear_arith)
        requires
            0 <= oscillator.config.base_frequency_hz <= 0xFFFF_FFFF,
            0 <= control <= 0xFFFF_FFFF_FFFF_FFFF,
    ;
}

/// Running one more sample after a run is the run over the longer sequence.
pub proof fn lemma_steps_append(oscillator: Oscillator, controls: Seq<usize>, control: usize)
    ensures
        oscillator.after_steps(controls.push(control)) == oscillator.after_steps(
            controls,
        ).after_step(control),
        oscillator.refreshes_during(controls.push(control)) == oscillator.refreshes_during(
            controls,
        ) + if oscillator.after_steps(controls).refresh_due() {
            1nat
        } else {
            0nat
        },
{
    assert(controls.push(control).drop_last() =~= controls);
    assert(controls.push(control).last() == control);
}

/// Two runs in a row are one run over both sequences: it makes no difference
/// where one buffer ends and the next begins.
pub proof fn lemma_steps_concatenate(oscillator: Oscillator, first: Seq<usize>, second: Seq<usize>)
    ensures
        oscillator.after_steps(first + second) == oscillator.after_steps(first).after_steps(
            second,
        ),
        oscillator.refreshes_during(first + second) == oscillator.refreshes_during(first)
            + oscillator.after_steps(first).refreshes_during(second),
    decreases second.len(),
{
    if second.len() == 0 {
        assert(first + second =~= first);
    } else {
        lemma_steps_concatenate(oscillator, first, second.drop_last());
        assert((first + second).drop_last() =~= first + second.drop_last());
        assert((first + second).last() == second.last());
    }
}

/// A run of samples keeps the oscillator well formed.
pub proof fn lemma_steps_keep_well_formed(oscillator: Oscillator, controls: Seq<usize>)
    requires
        oscillator.well_formed(),
    ensures
        oscillator.after_steps(controls).well_formed(),
        oscillator.after_steps(controls).config == oscillator.config,
        oscillator.after_steps(controls).sample_rate_hz == oscillator.sample_rate_hz,
    decreases controls.len(),
{
    if controls.len() > 0 {
        lemma_steps_keep_well_formed(oscillator, controls.drop_last());
        lemma_step_keeps_well_formed(
            oscillator.after_steps(controls.drop_last()),
            controls.last(),
        );
    }
}

/// After `n` samples the count has advanced by exactly `n`, modulo the sample
/// rate, whatever the control values were.
pub proof fn lemma_clock_advances_by_count(oscillator: Oscillator, controls: Seq<usize>)
    requires
        oscillator.well_formed(),
    ensures
        oscillator.after_steps(controls).phase_clock == (oscillator.phase_clock + controls.len())
            % (oscillator.sample_rate_hz as int),
    decreases controls.len(),
{
    let rate = oscillator.sample_rate_hz as int;
    if controls.len() == 0 {
        lemma_small_mod(oscillator.phase_clock as nat, rate as nat);
    } else {
        let shorter = controls.drop_last();
        lemma_clock_advances_by_count(oscillator, shorter);
        lemma_steps_keep_well_formed(oscillator, shorter);
        let before = oscillator.after_steps(shorter).phase_clock as int;
        let travelled = oscillator.phase_clock + shorter.len();
        assert(before == travelled % rate);
        lemma_add_mod_noop(travelled, 1, rate);
        if rate > 1 {
            lemma_small_mod(1, rate as nat);
        }
        assert((before + 1) % rate == (travelled + 1) % rate);
    }
}

/// While no sample recomputes the pitch, the pitch stays what it was.
pub proof fn lemma_pitch_steady_without_refresh(oscillator: Oscillator, controls: Seq<usize>)
    requires
        oscillator.refreshes_during(controls) == 0,
    ensures
        oscillator.after_steps(controls).current_frequency == oscillator.current_frequency,
    decreases controls.len(),
{
    if controls.len() > 0 {
        lemma_pitch_steady_without_refresh(oscillator, controls.drop_last());
    }
}

/// Starting on a refresh boundary, fewer samples than the refresh interval
/// recompute nothing, as long as the count does not wrap.
pub proof fn lemma_quiet_stretch(oscillator: Oscillator, controls: Seq<usize>)
    requires
        oscillator.well_formed(),
        oscillator.phase_clock % oscillator.config.refresh_interval == 0,
        controls.len() < oscillator.config.refresh_interval,
        oscillator.phase_clock + controls.len() < oscillator.sample_rate_hz,
    ensures
        oscillator.after_steps(controls).phase_clock == oscillator.phase_clock + controls.len(),
        oscillator.refreshes_during(controls) == 0,
    decreases controls.len(),
{
    if controls.len() > 0 {
        let shorter = controls.drop_last();
        lemma_quiet_stretch(oscillator, shorter);
        let interval = oscillator.config.refresh_interval as int;
        let rate = oscillator.sample_rate_hz as int;
        let before = oscillator.after_steps(shorter);
        let reached = oscillator.phase_clock + controls.len();
        lemma_small_mod(reached as nat, rate as nat);
        lemma_offset_from_boundary(oscillator.phase_clock as int, controls.len() as int, interval);
        lemma_steps_keep_well_formed(oscillator, shorter);
        assert(before.phase_clock + 1 == reached);
        assert(oscillator.after_steps(controls) == before.after_step(controls.last()));
        assert(!before.refresh_due());
    }
}

/// A count that lies `offset` past a multiple of `interval`, with
/// `0 <= offset < interval`, leaves the remainder `offset`.
proof fn lemma_offset_from_boundary(boundary: int, offset: int, interval: int)
    requires
        interval > 0,
        boundary % interval == 0,
        0 <= offset < interval,
    ensures
        (boundary + offset) % interval == offset,
{
    lemma_add_mod_noop(boundary, offset, interval);
    lemma_small_mod(offset as nat, interval as nat);
}

/// Starting on a refresh boundary with a whole refresh interval left before
/// the count wraps, a run of exactly one interval recomputes the pitch once,
/// and it is the last sample of the run that does so.
pub proof fn lemma_one_refresh_per_interval(oscillator: Oscillator, controls: Seq<usize>)
    requires
        oscillator.well_formed(),
        oscillator.phase_clock % oscillator.config.refresh_interval == 0,
        oscillator.phase_clock + oscillator.config.refresh_interval <= oscillator.sample_rate_hz,
        controls.len() == oscillator.config.refresh_interval,
    ensures
        oscillator.refreshes_during(controls.drop_last()) == 0,
        oscillator.after_steps(controls.drop_last()).refresh_due(),
        oscillator.refreshes_during(controls) == 1,
        oscillator.after_steps(controls).phase_clock == (oscillator.phase_clock
            + oscillator.config.refresh_interval) % (oscillator.sample_rate_hz as int),
        oscillator.after_steps(controls).current_frequency == frequency_for(
            oscillator.config,
            controls.last(),
        ),
{
    let shorter = controls.drop_last();
    let interval = oscillator.config.refresh_interval as int;
    let rate = oscillator.sample_rate_hz as int;
    lemma_quiet_stretch(oscillator, shorter);
    lemma_steps_keep_well_formed(oscillator, shorter);
    let before = oscillator.after_steps(shorter);
    let reached = oscillator.phase_clock + interval;
    assert(before.phase_clock + 1 == reached);
    if reached == rate {
        lemma_mod_self_0(rate);
        lemma_small_mod(0, interval as nat);
    } else {
        lemma_small_mod(reached as nat, rate as nat);
        lemma_add_mod_noop(oscillator.phase_clock as int, interval, interval);
        lemma_mod_self_0(interval);
        lemma_small_mod(0, interval as nat);
    }
    assert(before.refresh_due());
}

/// Starting on a refresh boundary with a whole refresh interval left before
/// the count wraps, a run of one interval that ends while the control value
/// is the neutral one leaves the pitch at exactly the base pitch.
pub proof fn lemma_first_refresh_at_neutral_load(oscillator: Oscillator, controls: Seq<usize>)
    requires
        oscillator.well_formed(),
        oscillator.phase_clock % oscillator.config.refresh_interval == 0,
        oscillator.phase_clock + oscillator.config.refresh_interval <= oscillator.sample_rate_hz,
        controls.len() == oscillator.config.refresh_interval,
        controls.last() == oscillator.config.neutral_control_spec(),
    ensures
        oscillator.after_steps(controls).current_frequency.is_whole_hertz(
            oscillator.config.base_frequency_hz as int,
        ),
{
    lemma_one_refresh_per_interval(oscillator, controls);
    lemma_neutral_control_sounds_base(oscillator.config);
}

/// A control value equal to the scale stands for a load of exactly one: the
/// pitch computed from it is the base pitch, with no fractional part.
pub proof fn lemma_neutral_control_sounds_base(config: SynthConfig)
    requires
        config.well_formed(),
    ensures
        frequency_for(config, config.neutral_control_spec()).is_whole_hertz(
            config.base_frequency_hz as int,
        ),
        frequency_for(config, config.neutral_control_spec()).denominator == config.scale,
{
    assert(0 <= config.base_frequency_hz * config.scale <= 0xFFFF_FFFFint * 0xFFFF_FFFFint)
        by (nonlinear_arith)
        requires
            0 <= config.base_frequency_hz <= 0xFFFF_FFFF,
            0 <= config.scale <= 0xFFFF_FFFF,
    ;
}

} // verus!
