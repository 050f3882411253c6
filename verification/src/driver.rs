//! The real-time entry point: fills a buffer of interleaved frames.

use crate::config::SynthConfig;
use crate::control::ControlValueCell;
use crate::emitter::frame_end;
use crate::format::AudioFormatDescriptor;
use crate::format::StreamTag;
use crate::oscillator::control_seen;
use crate::oscillator::frequency_for;
use crate::oscillator::Oscillator;
use crate::oscillator::PhasePoint;
use crate::sample::UnitSample;
use vstd::arithmetic::div_mod::lemma_fundamental_div_mod;
use vstd::arithmetic::div_mod::lemma_mod_bound;
use vstd::prelude::*;

verus! {

/// The number of frames in a buffer of `len` slots: every `channel_count`
/// slots make a frame, and slots left over at the end make one more.
pub open spec fn frame_count(len: int, channel_count: int) -> int {
    (len + channel_count - 1) / channel_count
}

/// The frame that slot `i` of an interleaved buffer belongs to.
pub open spec fn frame_of(i: int, channel_count: int) -> int {
    i / channel_count
}

/// What went into the frames of one buffer, frame by frame.
pub struct FillTrace {
    /// The control value each step of the oscillator went by.
    pub controls: Seq<usize>,
    /// The sample of each frame, before its conversion.
    pub samples: Seq<UnitSample>,
}

/// The oscillator of one output stream, with what is needed to fill that
/// stream's buffers.
#[derive(Clone, Copy, Debug, PartialEq, Eq, Structural)]
pub struct SynthesisDriver {
    pub oscillator: Oscillator,
    pub channel_count: u16,
    pub stream: StreamTag,
}

impl SynthesisDriver {
    pub open spec fn well_formed(&self) -> bool {
        self.oscillator.well_formed() && self.channel_count > 0
    }

    /// A driver bound to `stream`, at the start of that stream. The pitch is
    /// the one that belongs to `initial_control`, the control value at that
    /// moment.
    pub fn new(
        config: SynthConfig,
        format: AudioFormatDescriptor,
        stream: StreamTag,
        initial_control: usize,
    ) -> (driver: Self)
        requires
            config.well_formed(),
            format.well_formed(),
        ensures
            driver.well_formed(),
            driver.stream == stream,
            driver.channel_count == format.channel_count,
            driver.oscillator.config == config,
            driver.oscillator.sample_rate_hz == format.sample_rate_hz,
            driver.oscillator.phase_clock == 0,
            driver.oscillator.samples_since_refresh == 0,
            driver.oscillator.current_frequency == frequency_for(config, initial_control),
    {
        SynthesisDriver {
            oscillator: Oscillator::new(config, format.sample_rate_hz, initial_control),
            channel_count: format.channel_count,
            stream,
        }
    }

    /// Fills `buffer` for the stream `presented`.
    ///
    /// If `presented` is not the stream this driver is bound to, nothing
    /// happens. Otherwise, for every frame in order, the oscillator produces
    /// one sample through `wave`, `encode` converts it once, and the result
    /// is written to every channel slot of the frame. The cell is read only
    /// by the samples that recompute the pitch.
    pub fn fill<S: Copy, W: Fn(PhasePoint) -> UnitSample, E: Fn(UnitSample) -> S>(
        &mut self,
        presented: StreamTag,
        buffer: &mut [S],
        cell: &ControlValueCell,
        wave: &W,
        encode: &E,
    ) -> (trace: Ghost<FillTrace>)
        requires
            old(self).well_formed(),
            forall|point: PhasePoint| point.well_formed() ==> call_requires(*wave, (point,)),
            forall|sample: UnitSample| call_requires(*encode, (sample,)),
        ensures
            final(self).well_formed(),
            final(self).stream == old(self).stream,
            final(self).channel_count == old(self).channel_count,
            final(buffer)@.len() == old(buffer)@.len(),
            trace@.samples.len() == trace@.controls.len(),
            presented != old(self).stream ==> {
                &&& *final(self) == *old(self)
                &&& final(buffer)@ == old(buffer)@
                &&& trace@.controls.len() == 0
            },
            presented == old(self).stream ==> {
                &&& trace@.controls.len() == frame_count(
                    old(buffer)@.len() as int,
                    old(self).channel_count as int,
                )
                &&& final(self).oscillator == old(self).oscillator.after_steps(trace@.controls)
                &&& forall|frame: int|
                    0 <= frame < trace@.samples.len() ==> call_ensures(
                        *wave,
                        (old(self).oscillator.after_steps(
                            trace@.controls.take(frame),
                        ).phase_point_spec(),),
                        #[trigger] trace@.samples[frame],
                    )
                &&& forall|i: int|
                    0 <= i < old(buffer)@.len() ==> 0 <= #[trigger] frame_of(
                        i,
                        old(self).channel_count as int,
                    ) < trace@.samples.len()
                &&& forall|i: int|
                    0 <= i < old(buffer)@.len() ==> call_ensures(
                        *encode,
                        (trace@.samples[frame_of(i, old(self).channel_count as int)],),
                        #[trigger] final(buffer)@[i],
                    )
                &&& forall|i: int, j: int|
                    0 <= i < old(buffer)@.len() && 0 <= j < old(buffer)@.len() && frame_of(
                        i,
                        old(self).channel_count as int,
                    ) == frame_of(j, old(self).channel_count as int)
                        ==> #[trigger] final(buffer)@[i] == #[trigger] final(buffer)@[j]
            },
    {
        if presented != self.stream {
            return Ghost(FillTrace { controls: Seq::empty(), samples: Seq::empty() });
        }
        let len: usize = buffer.len();
        let channels: usize = self.channel_count as usize;
        let ghost first = self.oscillator;
        let ghost mut controls: Seq<usize> = Seq::empty();
        let ghost mut samples: Seq<UnitSample> = Seq::empty();
        let mut start: usize = 0;
        while start < len
            invariant
                self.well_formed(),
                self.stream == old(self).stream,
                self.channel_count == old(self).channel_count,
                channels == self.channel_count,
                first == old(self).oscillator,
                buffer@.len() == len,
                len == old(buffer)@.len(),
                start <= len,
                start == len || start == controls.len() * channels,
                controls.len() * channels >= start,
                controls.len() > 0 ==> (controls.len() - 1) * channels < len,
                samples.len() == controls.len(),
                self.oscillator == first.after_steps(controls),
                forall|point: PhasePoint| point.well_formed() ==> call_requires(*wave, (point,)),
                forall|sample: UnitSample| call_requires(*encode, (sample,)),
                forall|frame: int|
                    0 <= frame < samples.len() ==> call_ensures(
                        *wave,
                        (first.after_steps(controls.take(frame)).phase_point_spec(),),
                        #[trigger] samples[frame],
                    ),
                forall|i: int|
                    0 <= i < start ==> 0 <= #[trigger] frame_of(i, channels as int) < samples.len(),
                forall|i: int|
                    0 <= i < start ==> call_ensures(
                        *encode,
                        (samples[frame_of(i, channels as int)],),
                        #[trigger] buffer@[i],
                    ),
                forall|i: int, j: int|
                    0 <= i < start && 0 <= j < start && frame_of(i, channels as int) == frame_of(
                        j,
                        channels as int,
                    ) ==> #[trigger] buffer@[i] == #[trigger] buffer@[j],
            decreases len - start,
        {
            let ghost frame = controls.len() as int;
            let ghost earlier_controls = controls;
            let ghost earlier_samples = samples;
            assert(self.oscillator.phase_point_spec().well_formed());
            let produced = self.oscillator.next_unit_sample(cell, wave);
            let end: usize = crate::emitter::write(buffer, start, channels, produced.0, encode);
            proof {
                controls = earlier_controls.push(control_seen(produced.1));
                samples = earlier_samples.push(produced.0);
                crate::cadence::lemma_steps_append(
                    first,
                    earlier_controls,
                    control_seen(produced.1),
                );
                assert(controls.take(frame) =~= earlier_controls);
                assert(start == frame * channels);
                lemma_frame_progress(frame, channels as int, start as int, end as int, len as int);
                assert forall|k: int| 0 <= k < samples.len() implies call_ensures(
                    *wave,
                    (first.after_steps(controls.take(k)).phase_point_spec(),),
                    #[trigger] samples[k],
                ) by {
                    if k < frame {
                        assert(controls.take(k) =~= earlier_controls.take(k));
                        assert(samples[k] == earlier_samples[k]);
                    }
                }
                assert forall|i: int| 0 <= i < end implies 0 <= #[trigger] frame_of(
                    i,
                    channels as int,
                ) < samples.len() by {
                    lemma_slot_frame(i, frame, channels as int, start as int, end as int);
                }
                assert forall|i: int| 0 <= i < end implies call_ensures(
                    *encode,
                    (samples[frame_of(i, channels as int)],),
                    #[trigger] buffer@[i],
                ) by {
                    lemma_slot_frame(i, frame, channels as int, start as int, end as int);
                    if i < start {
                        assert(samples[frame_of(i, channels as int)] == earlier_samples[frame_of(
                            i,
                            channels as int,
                        )]);
                    }
                }
                assert forall|i: int, j: int|
                    0 <= i < end && 0 <= j < end && frame_of(i, channels as int) == frame_of(
                        j,
                        channels as int,
                    ) implies #[trigger] buffer@[i] == #[trigger] buffer@[j] by {
                    lemma_slot_frame(i, frame, channels as int, start as int, end as int);
                    lemma_slot_frame(j, frame, channels as int, start as int, end as int);
                }
            }
            start = end;
        }
        proof {
            lemma_frames_cover(controls.len() as int, channels as int, len as int);
        }
        Ghost(FillTrace { controls, samples })
    }
}

/// Slots below `start` belong to frames before `frame`; slots from `start`
/// up to `end` belong to `frame`.
proof fn lemma_slot_frame(i: int, frame: int, channels: int, start: int, end: int)
    requires
        channels > 0,
        frame >= 0,
        start == frame * channels,
        0 <= i < end,
        end <= start + channels,
    ensures
        i < start ==> i / channels < frame,
        i >= start ==> i / channels == frame,
        0 <= i / channels <= frame,
{
    lemma_fundamental_div_mod(i, channels);
    lemma_mod_bound(i, channels);
    let q = i / channels;
    assert(i == channels * q + i % channels);
    assert(channels * q == q * channels) by (nonlinear_arith);
    if i < start {
        assert(q < frame) by (nonlinear_arith)
            requires
                q * channels <= i,
                i < frame * channels,
                channels > 0,
        ;
    } else {
        assert(q == frame) by (nonlinear_arith)
            requires
                q * channels <= i,
                i < q * channels + channels,
                frame * channels <= i,
                i < frame * channels + channels,
                channels > 0,
        ;
    }
    assert(q >= 0) by (nonlinear_arith)
        requires
            q * channels + channels > i,
            i >= 0,
            channels > 0,
    ;
}

/// Writing the frame numbered `frame` moves the write position to the start
/// of the next frame, or to the end of the buffer.
proof fn lemma_frame_progress(frame: int, channels: int, start: int, end: int, len: int)
    requires
        channels > 0,
        frame >= 0,
        start == frame * channels,
        start < len,
        end == frame_end(start, channels, len),
    ensures
        end == len || end == (frame + 1) * channels,
        (frame + 1) * channels >= end,
        frame * channels < len,
        start < end,
        end <= start + channels,
{
    assert((frame + 1) * channels == frame * channels + channels) by (nonlinear_arith);
}

/// Once the write position has reached the end, the frames written are all
/// the frames of the buffer.
proof fn lemma_frames_cover(frames: int, channels: int, len: int)
    requires
        channels > 0,
        frames >= 0,
        len >= 0,
        frames * channels >= len,
        frames > 0 ==> (frames - 1) * channels < len,
    ensures
        frames == frame_count(len, channels),
{
    let total = len + channels - 1;
    lemma_fundamental_div_mod(total, channels);
    lemma_mod_bound(total, channels);
    let q = total / channels;
    assert(total == channels * q + total % channels);
    if frames == 0 {
        assert(len == 0) by (nonlinear_arith)
            requires
                frames == 0,
                frames * channels >= len,
                len >= 0,
        ;
        assert(q == 0) by (nonlinear_arith)
            requires
                total == channels * q + total % channels,
                0 <= total % channels < channels,
                total == channels - 1,
                channels > 0,
        ;
    } else {
        assert(q == frames) by (nonlinear_arith)
            requires
                total == channels * q + total % channels,
                0 <= total % channels < channels,
                total == len + channels - 1,
                frames * channels >= len,
                (frames - 1) * channels < len,
                channels > 0,
        ;
    }
}

} // verus!
