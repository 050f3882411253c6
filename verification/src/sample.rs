//! Samples of the waveform and their encodings for the output buffer.
//!
//! A sample is carried as the bit pattern of an IEEE-754 binary32 number.
//! Every finite pattern stands for an exact fraction, and the encodings are
//! defined on that fraction: nothing is rounded before the one rounding that
//! an encoding asks for.

use crate::format::SampleEncoding;
use crate::rounding::clamp_to;
use crate::rounding::lemma_round_at_least;
use crate::rounding::lemma_round_at_most;
use crate::rounding::lemma_round_not_positive;
use crate::rounding::lemma_round_within;
use crate::rounding::round_half_away;
use vstd::arithmetic::div_mod::lemma_basic_div;
use vstd::arithmetic::div_mod::lemma_fundamental_div_mod_converse;
use vstd::arithmetic::power2::lemma2_to64;
use vstd::arithmetic::power2::lemma2_to64_rest;
use vstd::arithmetic::power2::lemma_pow2_pos;
use vstd::arithmetic::power2::lemma_pow2_strictly_increases;
use vstd::arithmetic::power2::pow2;
use vstd::prelude::*;

verus! {

/// One sample of the waveform, nominally within `[-1, 1]`, as the bit
/// pattern of a binary32 number: one sign bit, eight exponent bits and
/// twenty-three fraction bits.
#[derive(Clone, Copy, Debug, PartialEq, Eq, Structural)]
pub struct UnitSample(pub u32);

impl UnitSample {
    pub open spec fn is_negative(&self) -> bool {
        self.0 >= 0x8000_0000
    }

    pub open spec fn exponent_field(&self) -> int {
        (self.0 as int / 0x80_0000) % 0x100
    }

    pub open spec fn fraction_field(&self) -> int {
        self.0 as int % 0x80_0000
    }

    pub open spec fn is_nan(&self) -> bool {
        self.exponent_field() == 255 && self.fraction_field() != 0
    }

    pub open spec fn is_infinite(&self) -> bool {
        self.exponent_field() == 255 && self.fraction_field() == 0
    }

    /// The fraction bits, with the implicit leading one of a normal number.
    pub open spec fn significand(&self) -> int {
        if self.exponent_field() == 0 {
            self.fraction_field()
        } else {
            0x80_0000 + self.fraction_field()
        }
    }

    /// A finite sample has the value `numerator() / denominator()`.
    pub open spec fn numerator(&self) -> int {
        let magnitude = if self.exponent_field() > 150 {
            self.significand() * pow2((self.exponent_field() - 150) as nat)
        } else {
            self.significand()
        };
        if self.is_negative() {
            -magnitude
        } else {
            magnitude
        }
    }

    pub open spec fn denominator(&self) -> int {
        if self.exponent_field() >= 150 {
            1
        } else if self.exponent_field() == 0 {
            pow2(149) as int
        } else {
            pow2((150 - self.exponent_field()) as nat) as int
        }
    }

    /// The sample is a number of size at most one.
    pub open spec fn within_unit_range(&self) -> bool {
        &&& !self.is_nan()
        &&& !self.is_infinite()
        &&& -self.denominator() <= self.numerator() <= self.denominator()
    }

    /// The sample with the given bit pattern.
    pub fn from_bits(bits: u32) -> (sample: Self)
        ensures
            sample.0 == bits,
    {
        UnitSample(bits)
    }

    /// The bit pattern of the sample.
    pub fn bits(&self) -> (bits: u32)
        ensures
            bits == self.0,
    {
        self.0
    }
}

/// The unsigned 16-bit encoding of a sample of value `x`: the integer
/// nearest to `(x · 0.5 + 0.5) · 65535`, kept within `[0, 65535]`. Not a
/// number encodes as zero.
pub open spec fn unsigned16_for(sample: UnitSample) -> int {
    if sample.is_nan() {
        0
    } else if sample.is_infinite() {
        if sample.is_negative() {
            0
        } else {
            65535
        }
    } else {
        clamp_to(
            round_half_away(
                (sample.numerator() + sample.denominator()) * 65535,
                2 * sample.denominator(),
            ),
            0,
            65535,
        )
    }
}

/// The signed 16-bit encoding of a sample of value `x`: the integer nearest
/// to `x · 32767`, kept within `[-32768, 32767]`. Not a number encodes as
/// zero.
pub open spec fn signed16_for(sample: UnitSample) -> int {
    if sample.is_nan() {
        0
    } else if sample.is_infinite() {
        if sample.is_negative() {
            -32768
        } else {
            32767
        }
    } else {
        clamp_to(
            round_half_away(sample.numerator() * 32767, sample.denominator()),
            -32768,
            32767,
        )
    }
}

/// A sample within `[-1, 1]` encodes as the formulas say, with nothing cut
/// off: the unsigned encoding lies within `[0, 65535]` and the signed one
/// within `[-32767, 32767]` before any clamping.
pub proof fn lemma_unit_range_is_not_clamped(sample: UnitSample)
    requires
        sample.within_unit_range(),
    ensures
        unsigned16_for(sample) == round_half_away(
            (sample.numerator() + sample.denominator()) * 65535,
            2 * sample.denominator(),
        ),
        signed16_for(sample) == round_half_away(sample.numerator() * 32767, sample.denominator()),
        -32767 <= signed16_for(sample) <= 32767,
{
    let n = sample.numerator();
    let d = sample.denominator();
    assert(d > 0) by {
        lemma_pow2_pos(149);
        if 0 < sample.exponent_field() < 150 {
            lemma_pow2_pos((150 - sample.exponent_field()) as nat);
        }
    }
    lemma_round_within((n + d) * 65535, 2 * d, 65535);
    assert(round_half_away((n + d) * 65535, 2 * d) >= 0);
    lemma_round_within(n * 32767, d, 32767);
}

/// How a sample's size relates to the encodings' rounding.
enum Magnitude {
    NotANumber,
    Infinite,
    /// At least two: every encoding saturates.
    Large,
    /// Below `2^-17`: too small to move an encoding by half a step.
    Minute { significand: u64 },
    /// `significand / unit`, with `unit` a power of two up to `2^40`.
    Ratio { significand: u64, unit: u64 },
}

/// Takes a sample's bit pattern apart.
fn measure(sample: UnitSample) -> (parts: (bool, Magnitude))
    ensures
        parts.0 == sample.is_negative(),
        match parts.1 {
            Magnitude::NotANumber => sample.is_nan(),
            Magnitude::Infinite => sample.is_infinite(),
            Magnitude::Large => {
                &&& !sample.is_nan()
                &&& !sample.is_infinite()
                &&& sample.denominator() > 0
                &&& sample.is_negative() ==> sample.numerator() <= -2 * sample.denominator()
                &&& !sample.is_negative() ==> sample.numerator() >= 2 * sample.denominator()
            },
            Magnitude::Minute { significand } => {
                &&& !sample.is_nan()
                &&& !sample.is_infinite()
                &&& significand < 0x100_0000
                &&& sample.denominator() >= 0x200_0000_0000
                &&& sample.is_negative() ==> sample.numerator() == -significand
                &&& !sample.is_negative() ==> sample.numerator() == significand
            },
            Magnitude::Ratio { significand, unit } => {
                &&& !sample.is_nan()
                &&& !sample.is_infinite()
                &&& significand < 0x100_0000
                &&& 0 < unit <= 0x100_0000_0000
                &&& sample.denominator() == unit
                &&& sample.is_negative() ==> sample.numerator() == -significand
                &&& !sample.is_negative() ==> sample.numerator() == significand
            },
        },
{
    let bits: u32 = sample.0;
    let negative: bool = bits >= 0x8000_0000;
    let exponent: u32 = (bits / 0x80_0000) % 0x100;
    let fraction: u32 = bits % 0x80_0000;
    if exponent == 255 {
        if fraction != 0 {
            (negative, Magnitude::NotANumber)
        } else {
            (negative, Magnitude::Infinite)
        }
    } else if exponent >= 128 {
        proof {
            lemma_large_sample(sample);
        }
        (negative, Magnitude::Large)
    } else {
        let significand: u64 = if exponent == 0 {
            fraction as u64
        } else {
            0x80_0000 + fraction as u64
        };
        let shift: u64 = if exponent == 0 {
            149
        } else {
            150 - exponent as u64
        };
        assert(sample.denominator() == pow2(shift as nat));
        if shift > 40 {
            proof {
                if shift > 41 {
                    lemma_pow2_strictly_increases(41, shift as nat);
                }
                lemma2_to64_rest();
            }
            (negative, Magnitude::Minute { significand })
        } else {
            proof {
                lemma_pow2_pos(shift as nat);
                lemma2_to64_rest();
                if shift < 40 {
                    lemma_pow2_strictly_increases(shift as nat, 40);
                }
                vstd::bits::lemma_u64_shl_is_mul(1, shift);
            }
            let unit: u64 = 1u64 << shift;
            (negative, Magnitude::Ratio { significand, unit })
        }
    }
}

/// Encodes a sample as an unsigned 16-bit integer.
pub fn encode_unsigned16(sample: UnitSample) -> (encoded: u16)
    ensures
        encoded == unsigned16_for(sample),
{
    let (negative, magnitude) = measure(sample);
    match magnitude {
        Magnitude::NotANumber => 0,
        Magnitude::Infinite => if negative {
            0
        } else {
            65535
        },
        Magnitude::Large => {
            proof {
                let lifted = sample.numerator() + sample.denominator();
                if negative {
                    lemma_round_not_positive(lifted * 65535, 2 * sample.denominator());
                } else {
                    lemma_round_at_least(lifted * 65535, 2 * sample.denominator(), 65535);
                }
            }
            if negative {
                0
            } else {
                65535
            }
        },
        Magnitude::Minute { significand } => {
            proof {
                lemma_minute_unsigned(sample.numerator(), sample.denominator());
            }
            if negative && significand != 0 {
                32767
            } else {
                32768
            }
        },
        Magnitude::Ratio { significand, unit } => {
            if negative && significand >= unit {
                proof {
                    let lifted = sample.numerator() + sample.denominator();
                    lemma_round_not_positive(lifted * 65535, 2 * sample.denominator());
                }
                0
            } else {
                let lifted: u64 = if negative {
                    unit - significand
                } else {
                    unit + significand
                };
                let rounded: u64 = (2 * (lifted * 65535) + 2 * unit) / (4 * unit);
                if rounded > 65535 {
                    65535
                } else {
                    rounded as u16
                }
            }
        },
    }
}

/// Encodes a sample as a signed 16-bit integer.
pub fn encode_signed16(sample: UnitSample) -> (encoded: i16)
    ensures
        encoded == signed16_for(sample),
{
    let (negative, magnitude) = measure(sample);
    match magnitude {
        Magnitude::NotANumber => 0,
        Magnitude::Infinite => if negative {
            -32768
        } else {
            32767
        },
        Magnitude::Large => {
            proof {
                if negative {
                    lemma_round_at_most(sample.numerator() * 32767, sample.denominator(), 32768);
                } else {
                    lemma_round_at_least(sample.numerator() * 32767, sample.denominator(), 32767);
                }
            }
            if negative {
                -32768
            } else {
                32767
            }
        },
        Magnitude::Minute { significand } => {
            proof {
                lemma_minute_signed(sample.numerator(), sample.denominator());
            }
            0
        },
        Magnitude::Ratio { significand, unit } => {
            let rounded: u64 = (2 * (significand * 32767) + unit) / (2 * unit);
            proof {
                if significand == 0 {
                    lemma_basic_div(unit as int, 2 * unit);
                }
            }
            if negative {
                if rounded >= 32768 {
                    -32768
                } else {
                    -(rounded as i16)
                }
            } else {
                if rounded > 32767 {
                    32767
                } else {
                    rounded as i16
                }
            }
        },
    }
}

/// A sample in the encoding of an output buffer. A 32-bit float is held as
/// its bit pattern.
#[derive(Clone, Copy, Debug, PartialEq, Eq, Structural)]
pub enum EncodedSample {
    UnsignedInt16(u16),
    SignedInt16(i16),
    Float32(u32),
}

/// What `sample` becomes in `encoding`. A 32-bit float is the sample itself,
/// unchanged.
pub open spec fn encoded_for(encoding: SampleEncoding, sample: UnitSample) -> EncodedSample {
    match encoding {
        SampleEncoding::UnsignedInt16 => EncodedSample::UnsignedInt16(
            unsigned16_for(sample) as u16,
        ),
        SampleEncoding::SignedInt16 => EncodedSample::SignedInt16(signed16_for(sample) as i16),
        SampleEncoding::Float32 => EncodedSample::Float32(sample.0),
    }
}

/// Encodes a sample for an output buffer of the given encoding.
pub fn encode(encoding: SampleEncoding, sample: UnitSample) -> (encoded: EncodedSample)
    ensures
        encoded == encoded_for(encoding, sample),
{
    match encoding {
        SampleEncoding::UnsignedInt16 => EncodedSample::UnsignedInt16(encode_unsigned16(sample)),
        SampleEncoding::SignedInt16 => EncodedSample::SignedInt16(encode_signed16(sample)),
        SampleEncoding::Float32 => EncodedSample::Float32(sample.0),
    }
}

/// A sample below `2^-17` in size lies within half a step of the middle of
/// the unsigned range, on the side of its sign.
proof fn lemma_minute_unsigned(numerator: int, denominator: int)
    requires
        -0x100_0000 < numerator < 0x100_0000,
        denominator >= 0x200_0000_0000,
    ensures
        numerator >= 0 ==> round_half_away((numerator + denominator) * 65535, 2 * denominator)
            == 32768,
        numerator < 0 ==> round_half_away((numerator + denominator) * 65535, 2 * denominator)
            == 32767,
{
    let doubled = 2 * ((numerator + denominator) * 65535) + 2 * denominator;
    let whole = 2 * (2 * denominator);
    if numerator >= 0 {
        lemma_fundamental_div_mod_converse(doubled, whole, 32768, 131070 * numerator);
    } else {
        lemma_fundamental_div_mod_converse(
            doubled,
            whole,
            32767,
            4 * denominator + 131070 * numerator,
        );
    }
}

/// A sample below `2^-17` in size is within half a step of zero in the
/// signed range.
proof fn lemma_minute_signed(numerator: int, denominator: int)
    requires
        -0x100_0000 < numerator < 0x100_0000,
        denominator >= 0x200_0000_0000,
    ensures
        round_half_away(numerator * 32767, denominator) == 0,
{
    if numerator >= 0 {
        lemma_basic_div(
            2 * (numerator * 32767) + denominator,
            2 * denominator,
        );
    } else {
        lemma_basic_div(
            2 * (-(numerator * 32767)) + denominator,
            2 * denominator,
        );
    }
}

/// A finite sample whose exponent field is 128 or more is at least two in
/// size.
proof fn lemma_large_sample(sample: UnitSample)
    requires
        128 <= sample.exponent_field() < 255,
    ensures
        sample.denominator() > 0,
        sample.is_negative() ==> sample.numerator() <= -2 * sample.denominator(),
        !sample.is_negative() ==> sample.numerator() >= 2 * sample.denominator(),
{
    let exponent = sample.exponent_field();
    let significand = sample.significand();
    assert(significand >= 0x80_0000);
    if exponent > 150 {
        let factor = pow2((exponent - 150) as nat) as int;
        lemma_pow2_pos((exponent - 150) as nat);
        assert(significand * factor >= 2) by (nonlinear_arith)
            requires
                significand >= 0x80_0000,
                factor >= 1,
        ;
    } else if exponent == 150 {
    } else {
        let shift = (150 - exponent) as nat;
        lemma_pow2_pos(shift);
        lemma2_to64();
        if shift < 22 {
            lemma_pow2_strictly_increases(shift, 22);
        }
        assert(pow2(shift) <= 0x40_0000);
    }
}

} // verus!
