use beepeeyou::emitter::write_frame;
use beepeeyou::format::SampleEncoding;
use beepeeyou::sample::encode;
use beepeeyou::sample::encode_signed16;
use beepeeyou::sample::encode_unsigned16;
use beepeeyou::sample::EncodedSample;
use beepeeyou::sample::UnitSample;

fn unit(x: f32) -> UnitSample {
    UnitSample::from_bits(x.to_bits())
}

// The documented formulas, evaluated in double precision. For the inputs
// used below every intermediate value is exact there.
fn expected_unsigned16(x: f32) -> u16 {
    let t = ((x as f64) * 0.5 + 0.5) * 65535.0;
    t.round().max(0.0).min(65535.0) as u16
}

fn expected_signed16(x: f32) -> i16 {
    let t = (x as f64) * 32767.0;
    t.round().max(-32768.0).min(32767.0) as i16
}

#[test]
fn unsigned16_full_scale() {
    assert_eq!(encode_unsigned16(unit(1.0)), 65535);
    assert_eq!(encode_unsigned16(unit(-1.0)), 0);
}

#[test]
fn signed16_full_scale() {
    assert_eq!(encode_signed16(unit(1.0)), 32767);
    assert_eq!(encode_signed16(unit(-1.0)), -32767);
    // Anything at or below -32767.5 / 32767 reaches the lower end.
    assert_eq!(encode_signed16(unit(-1.0001)), -32768);
    assert_eq!(encode_signed16(unit(-1.5)), -32768);
}

#[test]
fn zero_encodes_to_the_middle() {
    assert_eq!(encode_unsigned16(unit(0.0)), 32768);
    assert_eq!(encode_unsigned16(unit(-0.0)), 32768);
    assert_eq!(encode_signed16(unit(0.0)), 0);
    assert_eq!(encode_signed16(unit(-0.0)), 0);
}

#[test]
fn halves_round_away_from_zero() {
    // 0.5 * 32767 = 16383.5
    assert_eq!(encode_signed16(unit(0.5)), 16384);
    assert_eq!(encode_signed16(unit(-0.5)), -16384);
    // (0.5 * 0.5 + 0.5) * 65535 = 49151.25, (-0.5 * 0.5 + 0.5) * 65535 = 16383.75
    assert_eq!(encode_unsigned16(unit(0.5)), 49151);
    assert_eq!(encode_unsigned16(unit(-0.5)), 16384);
}

#[test]
fn out_of_range_samples_are_clamped() {
    for x in [1.0001f32, 1.5, 2.0, 3.0, 1000.0, 1.0e30, f32::MAX, f32::INFINITY] {
        assert_eq!(encode_unsigned16(unit(x)), 65535, "{}", x);
        assert_eq!(encode_signed16(unit(x)), 32767, "{}", x);
        assert_eq!(encode_unsigned16(unit(-x)), 0, "{}", -x);
        assert_eq!(encode_signed16(unit(-x)), -32768, "{}", -x);
    }
}

#[test]
fn not_a_number_encodes_as_zero() {
    assert_eq!(encode_unsigned16(unit(f32::NAN)), 0);
    assert_eq!(encode_signed16(unit(f32::NAN)), 0);
    assert_eq!(encode_unsigned16(UnitSample::from_bits(0xFFC0_0001)), 0);
    assert_eq!(encode_signed16(UnitSample::from_bits(0x7F80_0001)), 0);
}

#[test]
fn minute_samples_stay_next_to_the_middle() {
    for x in [f32::MIN_POSITIVE, 1.0e-40, 1.0e-30, 1.0e-10, 1.0e-6, 7.0e-6] {
        assert_eq!(encode_unsigned16(unit(x)), 32768, "{}", x);
        assert_eq!(encode_unsigned16(unit(-x)), 32767, "{}", -x);
        assert_eq!(encode_signed16(unit(x)), 0, "{}", x);
        assert_eq!(encode_signed16(unit(-x)), 0, "{}", -x);
    }
    // The smallest subnormal and the largest.
    assert_eq!(encode_unsigned16(UnitSample::from_bits(0x0000_0001)), 32768);
    assert_eq!(encode_unsigned16(UnitSample::from_bits(0x8000_0001)), 32767);
    assert_eq!(encode_unsigned16(UnitSample::from_bits(0x807F_FFFF)), 32767);
}

#[test]
fn encodings_match_the_formulas_on_a_grid() {
    for k in -2200i32..=2200 {
        let x = k as f32 / 1000.0;
        assert_eq!(encode_unsigned16(unit(x)), expected_unsigned16(x), "{}", x);
        assert_eq!(encode_signed16(unit(x)), expected_signed16(x), "{}", x);
    }
}

#[test]
fn encodings_match_the_formulas_across_exponents() {
    // Walk bit patterns from 2^-28 up to 4, positive and negative.
    let low = (2.0f32).powi(-28).to_bits();
    let high = (4.0f32).to_bits();
    let mut bits = low;
    while bits <= high {
        for sign in [0u32, 0x8000_0000] {
            let x = f32::from_bits(bits | sign);
            assert_eq!(encode_unsigned16(unit(x)), expected_unsigned16(x), "{:e}", x);
            assert_eq!(encode_signed16(unit(x)), expected_signed16(x), "{:e}", x);
        }
        bits += 9973;
    }
}

#[test]
fn encodings_match_the_formulas_near_each_step_of_a_sine() {
    for n in 0..4410u32 {
        let x = (2.0 * std::f64::consts::PI * 220.0 * n as f64 / 44100.0).sin() as f32;
        assert_eq!(encode_unsigned16(unit(x)), expected_unsigned16(x), "{}", x);
        assert_eq!(encode_signed16(unit(x)), expected_signed16(x), "{}", x);
    }
}

#[test]
fn float32_encoding_keeps_the_sample_unchanged() {
    for x in [0.0f32, -0.0, 1.0, -1.0, 0.1, -0.7, 1.0e-40, 3.5, f32::INFINITY] {
        match encode(SampleEncoding::Float32, unit(x)) {
            EncodedSample::Float32(bits) => {
                assert_eq!(bits, x.to_bits());
                assert_eq!(f32::from_bits(bits).to_bits(), x.to_bits());
            }
            other => panic!("{:?}", other),
        }
    }
    assert_eq!(
        encode(SampleEncoding::Float32, UnitSample::from_bits(0x7FC0_1234)),
        EncodedSample::Float32(0x7FC0_1234)
    );
}

#[test]
fn encode_dispatches_on_the_encoding() {
    assert_eq!(encode(SampleEncoding::UnsignedInt16, unit(1.0)), EncodedSample::UnsignedInt16(65535));
    assert_eq!(encode(SampleEncoding::UnsignedInt16, unit(-1.0)), EncodedSample::UnsignedInt16(0));
    assert_eq!(encode(SampleEncoding::SignedInt16, unit(1.0)), EncodedSample::SignedInt16(32767));
    assert_eq!(encode(SampleEncoding::SignedInt16, unit(-1.0)), EncodedSample::SignedInt16(-32767));
    assert_eq!(encode(SampleEncoding::SignedInt16, unit(0.25)), EncodedSample::SignedInt16(8192));
}

#[test]
fn unit_sample_round_trips_its_bits() {
    assert_eq!(UnitSample::from_bits(0x3F80_0000).bits(), 0x3F80_0000);
    assert_eq!(unit(1.0).bits(), 0x3F80_0000);
    assert_eq!(unit(-1.0).bits(), 0xBF80_0000);
}

#[test]
fn write_frame_fills_every_channel_slot() {
    let mut buffer = [0u16; 8];
    let end = write_frame(&mut buffer, 2, 3, 7);
    assert_eq!(end, 5);
    assert_eq!(buffer, [0, 0, 7, 7, 7, 0, 0, 0]);
}

#[test]
fn write_frame_stops_at_the_end_of_the_buffer() {
    let mut buffer = [1i16; 5];
    let end = write_frame(&mut buffer, 4, 2, -3);
    assert_eq!(end, 5);
    assert_eq!(buffer, [1, 1, 1, 1, -3]);
    let end = write_frame(&mut buffer, 5, 2, 9);
    assert_eq!(end, 5);
    assert_eq!(buffer, [1, 1, 1, 1, -3]);
    let end = write_frame(&mut buffer, 0, usize::MAX, 4);
    assert_eq!(end, 5);
    assert_eq!(buffer, [4, 4, 4, 4, 4]);
}

#[test]
fn write_frame_with_no_channels_writes_nothing() {
    let mut buffer = [1.5f32; 3];
    let end = write_frame(&mut buffer, 1, 0, 0.0);
    assert_eq!(end, 1);
    assert_eq!(buffer, [1.5, 1.5, 1.5]);
}

#[test]
fn write_converts_once_and_fills_the_frame() {
    let mut buffer = [9u16; 6];
    let end = beepeeyou::emitter::write(&mut buffer, 2, 2, unit(1.0), &encode_unsigned16);
    assert_eq!(end, 4);
    assert_eq!(buffer, [9, 9, 65535, 65535, 9, 9]);
    let mut signed = [9i16; 3];
    let end = beepeeyou::emitter::write(&mut signed, 1, 4, unit(-1.0), &encode_signed16);
    assert_eq!(end, 3);
    assert_eq!(signed, [9, -32767, -32767]);
    let mut floats = [0.25f32; 4];
    let end = beepeeyou::emitter::write(&mut floats, 0, 2, unit(-0.7), &|s: UnitSample| f32::from_bits(s.bits()));
    assert_eq!(end, 2);
    assert_eq!(floats, [-0.7, -0.7, 0.25, 0.25]);
}
