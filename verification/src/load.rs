//! Load averages and the control value computed from them.
//!
//! A load average is carried as the bit pattern of an IEEE-754 binary64
//! number. The control value is defined as binary64 arithmetic defines it:
//! the product of the load and the scale is rounded to 53 significant bits,
//! and the result is then rounded to an integer. A load reported as 0.15
//! therefore gives 2 at a scale of 10, although the binary64 number nearest
//! to 0.15 lies a little below it.

use crate::rounding::round_half_away;
use vstd::arithmetic::div_mod::lemma_basic_div;
use vstd::arithmetic::div_mod::lemma_fundamental_div_mod;
use vstd::arithmetic::div_mod::lemma_mod_bound;
use vstd::arithmetic::power2::lemma2_to64;
use vstd::arithmetic::power2::lemma2_to64_rest;
use vstd::arithmetic::power2::lemma_pow2_adds;
use vstd::arithmetic::power2::lemma_pow2_pos;
use vstd::arithmetic::power2::lemma_pow2_strictly_increases;
use vstd::arithmetic::power2::lemma_pow2_unfold;
use vstd::arithmetic::power2::pow2;
use vstd::prelude::*;

verus! {

/// A load average as the bit pattern of a binary64 number: one sign bit,
/// eleven exponent bits and fifty-two fraction bits.
#[derive(Clone, Copy, Debug, PartialEq, Eq, Structural)]
pub struct LoadAverage(pub u64);

/// What one load query returns. Only the one-minute average is used.
#[derive(Clone, Copy, Debug, PartialEq, Eq, Structural)]
pub struct LoadSample {
    pub one_minute: LoadAverage,
    pub five_minute: LoadAverage,
    pub fifteen_minute: LoadAverage,
}

impl LoadAverage {
    pub open spec fn is_negative(&self) -> bool {
        self.0 >= 0x8000_0000_0000_0000
    }

    pub open spec fn exponent_field(&self) -> int {
        (self.0 as int / 0x10_0000_0000_0000) % 0x800
    }

    pub open spec fn fraction_field(&self) -> int {
        self.0 as int % 0x10_0000_0000_0000
    }

    pub open spec fn is_nan(&self) -> bool {
        self.exponent_field() == 2047 && self.fraction_field() != 0
    }

    pub open spec fn is_infinite(&self) -> bool {
        self.exponent_field() == 2047 && self.fraction_field() == 0
    }

    /// The fraction bits, with the implicit leading one of a normal number.
    pub open spec fn significand(&self) -> nat {
        if self.exponent_field() == 0 {
            self.fraction_field() as nat
        } else {
            (0x10_0000_0000_0000 + self.fraction_field()) as nat
        }
    }

    /// A finite load average has the size
    /// `significand() · 2^binary_exponent()`.
    pub open spec fn binary_exponent(&self) -> int {
        if self.exponent_field() == 0 {
            -1074
        } else {
            self.exponent_field() - 1075
        }
    }

    /// The load average with the given bit pattern.
    pub fn from_bits(bits: u64) -> (load: Self)
        ensures
            load.0 == bits,
    {
        LoadAverage(bits)
    }

    /// The bit pattern of the load average.
    pub fn bits(&self) -> (bits: u64)
        ensures
            bits == self.0,
    {
        self.0
    }
}

/// The number of binary digits of `n`, zero for zero.
pub open spec fn bit_length(n: nat) -> nat
    decreases n,
{
    if n == 0 {
        0
    } else {
        1 + bit_length(n / 2)
    }
}

/// `n` rounded to 53 significant binary digits. A value halfway between two
/// candidates goes to the one whose last kept digit is zero.
pub open spec fn round_to_binary64(n: nat) -> nat {
    if bit_length(n) <= 53 {
        n
    } else {
        let unit = pow2((bit_length(n) - 53) as nat);
        let kept = n / unit;
        let rest = n % unit;
        if 2 * rest > unit || (2 * rest == unit && kept % 2 == 1) {
            (kept + 1) * unit
        } else {
            kept * unit
        }
    }
}

/// The control value for a load average: the load times the scale as a
/// binary64 product, rounded to the nearest integer with halves away from
/// zero, and kept within the range of `usize`. A load that is negative or
/// not a number gives zero.
pub open spec fn scaled_control_for(load: LoadAverage, scale: u32) -> int {
    if load.is_nan() || load.is_negative() {
        0
    } else if load.is_infinite() {
        if scale == 0 {
            0
        } else {
            usize::MAX as int
        }
    } else {
        let product = round_to_binary64((load.significand() * scale) as nat) as int;
        let nearest = if load.binary_exponent() >= 0 {
            product * pow2(load.binary_exponent() as nat)
        } else {
            round_half_away(product, pow2((-load.binary_exponent()) as nat) as int)
        };
        if nearest > usize::MAX {
            usize::MAX as int
        } else {
            nearest
        }
    }
}

/// A number that is a multiple of `2^zeros` and has at most 53 digits above
/// them is not changed by rounding to 53 significant digits.
pub proof fn lemma_round_keeps_short_numbers(n: nat, zeros: nat)
    requires
        n % pow2(zeros) == 0,
        n < pow2(53 + zeros),
    ensures
        round_to_binary64(n) == n,
{
    lemma_bit_length_below(n, 53 + zeros);
    if bit_length(n) > 53 {
        let dropped = (bit_length(n) - 53) as nat;
        let unit = pow2(dropped) as int;
        let step = pow2(zeros) as int;
        lemma_pow2_pos(dropped);
        lemma_pow2_pos(zeros);
        lemma_pow2_adds(dropped, (zeros - dropped) as nat);
        let cofactor = pow2((zeros - dropped) as nat) as int;
        lemma_fundamental_div_mod(n as int, step);
        let multiple = (n as int / step) * cofactor;
        assert(n == multiple * unit) by (nonlinear_arith)
            requires
                n == step * (n as int / step) + n as int % step,
                n as int % step == 0,
                step == unit * cofactor,
                multiple == (n as int / step) * cofactor,
        ;
        vstd::arithmetic::div_mod::lemma_mod_multiples_basic(multiple, unit);
        lemma_fundamental_div_mod(n as int, unit);
        assert((n as int / unit) * unit == n) by (nonlinear_arith)
            requires
                n == unit * (n as int / unit) + n as int % unit,
                n as int % unit == 0,
        ;
    }
}

/// A load average of exactly one gives the scale itself: the neutral control
/// value.
pub proof fn lemma_load_of_one_gives_the_scale(scale: u32)
    ensures
        scaled_control_for(LoadAverage(0x3FF0_0000_0000_0000), scale) == scale,
{
    let one = LoadAverage(0x3FF0_0000_0000_0000);
    assert(one.exponent_field() == 1023);
    assert(one.fraction_field() == 0);
    assert(one.significand() == 0x10_0000_0000_0000);
    assert(one.binary_exponent() == -52);
    lemma2_to64();
    lemma2_to64_rest();
    lemma_pow2_adds(53, 52);
    let n = (one.significand() * scale) as nat;
    assert(n == scale * pow2(52));
    vstd::arithmetic::div_mod::lemma_mod_multiples_basic(scale as int, pow2(52) as int);
    assert(n < pow2(53 + 52)) by (nonlinear_arith)
        requires
            n == scale * pow2(52),
            scale < 0x1_0000_0000,
            pow2(53 + 52) == pow2(53) * pow2(52),
            pow2(53) == 0x20_0000_0000_0000,
            pow2(52) > 0,
    ;
    lemma_round_keeps_short_numbers(n, 52);
    let unit = pow2(52) as int;
    vstd::arithmetic::div_mod::lemma_fundamental_div_mod_converse(
        2 * (n as int) + unit,
        2 * unit,
        scale as int,
        unit,
    );
}

/// Computes the control value for a load average.
pub fn scaled_control(load: LoadAverage, scale: u32) -> (control: usize)
    ensures
        control == scaled_control_for(load, scale),
{
    let bits: u64 = load.0;
    let negative: bool = bits >= 0x8000_0000_0000_0000;
    let exponent: u64 = (bits / 0x10_0000_0000_0000) % 0x800;
    let fraction: u64 = bits % 0x10_0000_0000_0000;
    if exponent == 2047 {
        if fraction != 0 || negative || scale == 0 {
            0
        } else {
            usize::MAX
        }
    } else if negative {
        0
    } else {
        let significand: u128 = if exponent == 0 {
            fraction as u128
        } else {
            0x10_0000_0000_0000 + fraction as u128
        };
        proof {
            lemma_pow2_85();
            assert(significand * scale < 0x20_0000_0000_0000_0000_0000) by (nonlinear_arith)
                requires
                    significand < 0x20_0000_0000_0000,
                    scale < 0x1_0000_0000,
            ;
        }
        let product: u128 = round_product(significand * (scale as u128));
        if exponent >= 1075 {
            let shift: u64 = exponent - 1075;
            if product == 0 {
                proof {
                    assert(0 * pow2(shift as nat) == 0) by (nonlinear_arith);
                }
                0
            } else if shift >= 64 || product >= 0x1_0000_0000_0000_0000 {
                proof {
                    lemma_saturating_product(product as int, shift as nat);
                }
                usize::MAX
            } else {
                let factor: u128 = power_of_two(shift as u32);
                proof {
                    lemma2_to64();
                    lemma2_to64_rest();
                    if shift < 63 {
                        lemma_pow2_strictly_increases(shift as nat, 63);
                    }
                    assert(product * factor < 0x1_0000_0000_0000_0000 * 0x1_0000_0000_0000_0000)
                        by (nonlinear_arith)
                        requires
                            product < 0x1_0000_0000_0000_0000,
                            factor < 0x1_0000_0000_0000_0000,
                    ;
                }
                saturate(product * factor)
            }
        } else {
            let shift: u64 = if exponent == 0 {
                1074
            } else {
                1075 - exponent
            };
            if shift >= 88 {
                proof {
                    lemma_pow2_85();
                    lemma_pow2_strictly_increases(85, shift as nat);
                    lemma_pow2_adds(85, 1);
                    lemma2_to64();
                    if shift > 88 {
                        lemma_pow2_strictly_increases(88, shift as nat);
                    }
                    lemma_pow2_adds(85, 3);
                    let divisor = pow2(shift as nat) as int;
                    lemma_basic_div(2 * product + divisor, 2 * divisor);
                }
                0
            } else {
                let divisor: u128 = power_of_two(shift as u32);
                proof {
                    lemma_pow2_85();
                    lemma2_to64();
                    lemma_pow2_pos(shift as nat);
                    lemma_pow2_adds(85, 2);
                    if shift < 87 {
                        lemma_pow2_strictly_increases(shift as nat, 87);
                    }
                }
                saturate((2 * product + divisor) / (2 * divisor))
            }
        }
    }
}

/// Keeps a value within the range of `usize`.
fn saturate(value: u128) -> (kept: usize)
    ensures
        value <= usize::MAX ==> kept == value,
        value > usize::MAX ==> kept == usize::MAX,
{
    if value > usize::MAX as u128 {
        usize::MAX
    } else {
        value as usize
    }
}

/// A positive product that has, or is shifted up by, at least 64 digits
/// lies beyond the range of `usize`.
proof fn lemma_saturating_product(product: int, shift: nat)
    requires
        product > 0,
        shift >= 64 || product >= 0x1_0000_0000_0000_0000,
    ensures
        product * pow2(shift) > usize::MAX,
{
    lemma2_to64();
    lemma_pow2_pos(shift);
    if shift > 64 {
        lemma_pow2_strictly_increases(64, shift);
    }
    let factor = pow2(shift) as int;
    assert(product * factor >= 0x1_0000_0000_0000_0000) by (nonlinear_arith)
        requires
            product > 0,
            factor > 0,
            factor >= 0x1_0000_0000_0000_0000 || product >= 0x1_0000_0000_0000_0000,
    ;
}

proof fn lemma_pow2_85()
    ensures
        pow2(85) == 0x20_0000_0000_0000_0000_0000,
{
    lemma2_to64();
    lemma_pow2_adds(64, 21);
}

/// Rounds a product to 53 significant binary digits.
fn round_product(exact: u128) -> (product: u128)
    requires
        exact < 0x20_0000_0000_0000_0000_0000,
    ensures
        product == round_to_binary64(exact as nat),
        product <= 0x20_0000_0000_0000_0000_0000,
        exact > 0 ==> product > 0,
{
    let length: u32 = count_bits(exact);
    if length <= 53 {
        exact
    } else {
        proof {
            lemma_pow2_85();
            lemma_bit_length_below(exact as nat, 85);
        }
        let dropped: u32 = length - 53;
        let unit: u128 = power_of_two(dropped);
        proof {
            lemma2_to64();
            lemma2_to64_rest();
            lemma_pow2_pos(dropped as nat);
            if dropped < 32 {
                lemma_pow2_strictly_increases(dropped as nat, 32);
            }
            lemma_pow2_adds(53, dropped as nat);
            lemma_pow2_strictly_increases(dropped as nat, (length - 1) as nat);
            if length < 85 {
                lemma_pow2_strictly_increases(length as nat, 85);
            }
            lemma_fundamental_div_mod(exact as int, unit as int);
            lemma_mod_bound(exact as int, unit as int);
            let kept = exact as int / unit as int;
            let top = pow2(53) as int;
            assert(kept < top) by (nonlinear_arith)
                requires
                    exact == unit * kept + exact % unit,
                    0 <= exact % unit,
                    exact < top * unit,
                    unit > 0,
            ;
            assert(kept >= 1) by (nonlinear_arith)
                requires
                    exact == unit * kept + exact % unit,
                    exact % unit < unit,
                    exact >= unit,
                    unit > 0,
            ;
            assert((kept + 1) * unit <= top * unit) by (nonlinear_arith)
                requires
                    kept + 1 <= top,
                    unit > 0,
            ;
            assert(kept * unit <= (kept + 1) * unit) by (nonlinear_arith)
                requires
                    unit > 0,
            ;
            assert(kept * unit >= 1) by (nonlinear_arith)
                requires
                    kept >= 1,
                    unit >= 1,
            ;
        }
        let kept: u128 = exact / unit;
        let rest: u128 = exact % unit;
        if 2 * rest > unit || (2 * rest == unit && kept % 2 == 1) {
            (kept + 1) * unit
        } else {
            kept * unit
        }
    }
}

/// Computes `2^exponent`.
fn power_of_two(exponent: u32) -> (power: u128)
    requires
        exponent <= 126,
    ensures
        power == pow2(exponent as nat),
{
    let mut power: u128 = 1;
    let mut done: u32 = 0;
    proof {
        lemma2_to64();
        lemma_pow2_126();
    }
    while done < exponent
        invariant
            done <= exponent <= 126,
            power == pow2(done as nat),
            power <= pow2(126),
        decreases exponent - done,
    {
        proof {
            lemma_pow2_unfold((done + 1) as nat);
            if done + 1 < 126 {
                lemma_pow2_strictly_increases((done + 1) as nat, 126);
            }
            lemma_pow2_126();
        }
        power = power * 2;
        done = done + 1;
    }
    power
}

proof fn lemma_pow2_126()
    ensures
        pow2(126) == 0x4000_0000_0000_0000_0000_0000_0000_0000,
{
    lemma2_to64();
    lemma2_to64_rest();
    lemma_pow2_adds(63, 63);
}

/// Counts the binary digits of `n`.
fn count_bits(n: u128) -> (length: u32)
    ensures
        length == bit_length(n as nat),
        length <= 128,
        n > 0 ==> pow2((length - 1) as nat) <= n,
        n < pow2(length as nat),
{
    let mut rest: u128 = n;
    let mut length: u32 = 0;
    proof {
        lemma_bit_length_bounds(n as nat);
        lemma_bit_length_at_most_128(n);
    }
    while rest > 0
        invariant
            bit_length(n as nat) == length + bit_length(rest as nat),
            bit_length(n as nat) <= 128,
        decreases rest,
    {
        rest = rest / 2;
        length = length + 1;
    }
    length
}

/// A number with `bit_length` digits lies between the powers of two on
/// either side.
proof fn lemma_bit_length_bounds(n: nat)
    ensures
        n > 0 ==> pow2((bit_length(n) - 1) as nat) <= n,
        n < pow2(bit_length(n)),
    decreases n,
{
    lemma2_to64();
    if n > 0 {
        lemma_bit_length_bounds(n / 2);
        lemma_pow2_unfold(bit_length(n));
        if n / 2 > 0 {
            lemma_pow2_unfold((bit_length(n) - 1) as nat);
        }
    }
}

/// A number below `2^digits` has at most `digits` binary digits.
proof fn lemma_bit_length_below(n: nat, digits: nat)
    requires
        n < pow2(digits),
    ensures
        bit_length(n) <= digits,
{
    lemma_bit_length_bounds(n);
    if bit_length(n) > digits {
        if bit_length(n) - 1 > digits {
            lemma_pow2_strictly_increases(digits, (bit_length(n) - 1) as nat);
        }
    }
}

proof fn lemma_bit_length_at_most_128(n: u128)
    ensures
        bit_length(n as nat) <= 128,
{
    lemma2_to64();
    lemma_pow2_adds(64, 64);
    lemma_bit_length_below(n as nat, 128);
}

} // verus!
