use beepeeyou::config::SynthConfig;
use beepeeyou::control::ControlValueCell;
use beepeeyou::driver::SynthesisDriver;
use beepeeyou::format::AudioFormatDescriptor;
use beepeeyou::format::SampleEncoding;
use beepeeyou::format::StreamTag;
use beepeeyou::oscillator::PhasePoint;
use beepeeyou::sample::encode_signed16;
use beepeeyou::sample::encode_unsigned16;
use beepeeyou::sample::UnitSample;

fn sine(point: PhasePoint) -> UnitSample {
    let position = point.turn_position();
    let turn = position.numerator as f64 / position.denominator as f64;
    let value = (2.0 * std::f64::consts::PI * turn).sin() as f32;
    UnitSample::from_bits(value.to_bits())
}

fn float32(sample: UnitSample) -> f32 {
    f32::from_bits(sample.bits())
}

fn clock_of(point: PhasePoint) -> UnitSample {
    UnitSample::from_bits(point.clock)
}

fn bits_of(sample: UnitSample) -> u32 {
    sample.bits()
}

fn format(sample_rate_hz: u32, channel_count: u16, sample_encoding: SampleEncoding) -> AudioFormatDescriptor {
    AudioFormatDescriptor { sample_rate_hz, channel_count, sample_encoding }
}

#[test]
fn one_second_at_neutral_load_crosses_zero_440_times() {
    let cell = ControlValueCell::new(10);
    let mut driver = SynthesisDriver::new(
        SynthConfig::standard(),
        format(44100, 1, SampleEncoding::Float32),
        StreamTag(1),
        cell.read(),
    );
    let mut signal = vec![0.0f32; 44100];
    driver.fill(StreamTag(1), &mut signal, &cell, &sine, &float32);
    for sample in signal.iter() {
        assert!(-1.0 <= *sample && *sample <= 1.0);
    }
    let mut crossings = 0i32;
    for pair in signal.windows(2) {
        if (pair[0] >= 0.0) != (pair[1] >= 0.0) {
            crossings += 1;
        }
    }
    assert!((crossings - 2 * 220).abs() <= 1, "{}", crossings);
    assert_eq!(driver.oscillator.phase_clock, 0);
    assert_eq!(driver.oscillator.current_frequency.numerator, 2200);
}

#[test]
fn one_second_in_small_buffers_gives_the_same_signal() {
    let cell = ControlValueCell::new(10);
    let fmt = format(44100, 1, SampleEncoding::Float32);
    let mut whole_driver = SynthesisDriver::new(SynthConfig::standard(), fmt, StreamTag(1), 10);
    let mut whole = vec![0.0f32; 44100];
    whole_driver.fill(StreamTag(1), &mut whole, &cell, &sine, &float32);

    let mut pieces_driver = SynthesisDriver::new(SynthConfig::standard(), fmt, StreamTag(1), 10);
    let mut pieces = vec![0.0f32; 44100];
    for chunk in pieces.chunks_mut(441) {
        pieces_driver.fill(StreamTag(1), chunk, &cell, &sine, &float32);
    }
    assert_eq!(whole, pieces);
    assert_eq!(whole_driver, pieces_driver);
}

#[test]
fn other_stream_is_left_alone() {
    let cell = ControlValueCell::new(10);
    let mut driver = SynthesisDriver::new(
        SynthConfig::standard(),
        format(44100, 2, SampleEncoding::SignedInt16),
        StreamTag(7),
        10,
    );
    let before = driver;
    let mut buffer = [123i16; 16];
    driver.fill(StreamTag(8), &mut buffer, &cell, &sine, &encode_signed16);
    assert_eq!(buffer, [123i16; 16]);
    assert_eq!(driver, before);
}

#[test]
fn every_channel_of_a_frame_gets_the_same_sample() {
    let cell = ControlValueCell::new(10);
    let mut driver = SynthesisDriver::new(
        SynthConfig::standard(),
        format(44100, 2, SampleEncoding::UnsignedInt16),
        StreamTag(0),
        10,
    );
    let mut buffer = [0u16; 200];
    driver.fill(StreamTag(0), &mut buffer, &cell, &sine, &encode_unsigned16);
    for (frame, slots) in buffer.chunks(2).enumerate() {
        assert_eq!(slots[0], slots[1]);
        let point = PhasePoint {
            clock: frame as u32,
            sample_rate_hz: 44100,
            frequency: driver.oscillator.current_frequency,
        };
        assert_eq!(slots[0], encode_unsigned16(sine(point)));
    }
    assert_eq!(buffer[0], 32768);
    assert_eq!(driver.oscillator.phase_clock, 100);
}

#[test]
fn frames_are_numbered_by_the_sample_clock() {
    let cell = ControlValueCell::new(10);
    let mut driver = SynthesisDriver::new(
        SynthConfig::standard(),
        format(8000, 3, SampleEncoding::Float32),
        StreamTag(0),
        10,
    );
    let mut buffer = [u32::MAX; 12];
    driver.fill(StreamTag(0), &mut buffer, &cell, &clock_of, &bits_of);
    assert_eq!(buffer, [0, 0, 0, 1, 1, 1, 2, 2, 2, 3, 3, 3]);
    driver.fill(StreamTag(0), &mut buffer, &cell, &clock_of, &bits_of);
    assert_eq!(buffer, [4, 4, 4, 5, 5, 5, 6, 6, 6, 7, 7, 7]);
}

#[test]
fn slots_left_over_make_a_last_frame() {
    let cell = ControlValueCell::new(10);
    let mut driver = SynthesisDriver::new(
        SynthConfig::standard(),
        format(8000, 4, SampleEncoding::Float32),
        StreamTag(0),
        10,
    );
    let mut buffer = [u32::MAX; 10];
    driver.fill(StreamTag(0), &mut buffer, &cell, &clock_of, &bits_of);
    assert_eq!(buffer, [0, 0, 0, 0, 1, 1, 1, 1, 2, 2]);
    assert_eq!(driver.oscillator.phase_clock, 3);
}

#[test]
fn empty_buffer_produces_no_sample() {
    let cell = ControlValueCell::new(10);
    let mut driver = SynthesisDriver::new(
        SynthConfig::standard(),
        format(8000, 2, SampleEncoding::Float32),
        StreamTag(0),
        10,
    );
    let mut buffer: [u32; 0] = [];
    driver.fill(StreamTag(0), &mut buffer, &cell, &clock_of, &bits_of);
    assert_eq!(driver.oscillator.phase_clock, 0);
}

#[test]
fn pitch_follows_the_cell_at_refresh_boundaries() {
    let cell = ControlValueCell::new(10);
    let mut driver = SynthesisDriver::new(
        SynthConfig::standard(),
        format(44100, 1, SampleEncoding::Float32),
        StreamTag(0),
        cell.read(),
    );
    cell.publish(20);
    let mut pitches = vec![0u32; 1500];
    driver.fill(
        StreamTag(0),
        &mut pitches,
        &cell,
        &|point: PhasePoint| UnitSample::from_bits(point.frequency.numerator as u32),
        &bits_of,
    );
    for (frame, pitch) in pitches.iter().enumerate() {
        let expected = if frame < 1000 { 2200 } else { 4400 };
        assert_eq!(*pitch, expected, "{}", frame);
    }
}

#[test]
fn format_needs_a_rate_and_a_channel() {
    assert!(format(44100, 2, SampleEncoding::Float32).is_well_formed());
    assert!(!format(0, 2, SampleEncoding::Float32).is_well_formed());
    assert!(!format(44100, 0, SampleEncoding::SignedInt16).is_well_formed());
}

#[test]
fn signed_frames_follow_the_sine() {
    let cell = ControlValueCell::new(10);
    let mut driver = SynthesisDriver::new(
        SynthConfig::standard(),
        format(44100, 1, SampleEncoding::SignedInt16),
        StreamTag(3),
        10,
    );
    let mut buffer = [0i16; 101];
    driver.fill(StreamTag(3), &mut buffer, &cell, &sine, &encode_signed16);
    assert_eq!(buffer[0], 0);
    // A quarter of a period of 220 Hz is 50.1 frames: the peak is near frame 50.
    assert!(buffer[50] > 32700);
    assert!(buffer[25] > 0 && buffer[25] < buffer[50]);
    for frame in 0..101u32 {
        let point = PhasePoint {
            clock: frame,
            sample_rate_hz: 44100,
            frequency: driver.oscillator.current_frequency,
        };
        assert_eq!(buffer[frame as usize], encode_signed16(sine(point)));
    }
}
