//! The age of a yak as it is given from outside: a binary64 floating-point
//! number, handed over as its bit pattern, and the whole number of days that
//! the herd works with.
//!
//! A bit pattern `s eeeeeeeeeee f..f` (1, 11 and 52 bits) stands for
//! `(-1)^s * (2^52 + f) * 2^(e - 1075)` where `0 < e < 2047`, for
//! `(-1)^s * f * 2^(-1074)` where `e == 0`, for an infinity where `e == 2047`
//! and `f == 0`, and for no number at all where `e == 2047` and `f != 0`.

use vstd::prelude::*;
use vstd::arithmetic::div_mod::{
    lemma_basic_div, lemma_div_denominator, lemma_div_is_ordered,
    lemma_div_is_ordered_by_denominator, lemma_fundamental_div_mod,
};
use vstd::arithmetic::power2::{
    lemma2_to64, lemma2_to64_rest, lemma_pow2_adds, lemma_pow2_pos, lemma_pow2_strictly_increases,
    pow2,
};
use vstd::bits::{lemma_u64_shl_is_mul, lemma_u64_shr_is_div};

verus! {

/// 2^52: the weight of the bit that a normal number's fraction leaves out.
pub const HIDDEN_BIT: u64 = 0x10_0000_0000_0000;

/// 2^53: what every significand is below.
pub const SIGNIFICAND_LIMIT: u64 = 0x20_0000_0000_0000;

/// 2^63: the sign bit.
pub const SIGN_BIT: u64 = 0x8000_0000_0000_0000;

/// The exponent field of infinities and of what is no number.
pub const EXPONENT_SPECIAL: u64 = 0x7ff;

/// The exponent field of the numbers from 1 up to 2.
pub const EXPONENT_OF_ONE: u64 = 1_023;

/// The exponent field at which the significand counts units.
pub const EXPONENT_OF_UNITS: u64 = 1_075;

/// The number of days in a yak year.
pub const DAYS_IN_YAK_YEAR: u32 = 100;

/// Why an age was refused.
#[derive(Debug, Clone, Copy, PartialEq, Eq, Structural)]
pub enum InvalidAge {
    /// The age is no number.
    NotANumber,
    /// The age is infinite.
    Infinite,
    /// The age is below zero, or is the negative zero.
    Negative,
    /// The age is above 4294967295 days.
    TooLarge,
}

impl InvalidAge {
    /// The reason in words.
    pub open spec fn text(self) -> Seq<char> {
        match self {
            InvalidAge::NotANumber => "Yak age is NaN"@,
            InvalidAge::Infinite => "Yak age is infinite"@,
            InvalidAge::Negative => "Yak age cannot be negative"@,
            InvalidAge::TooLarge => "Yak age is too large"@,
        }
    }

    /// The reason in words.
    pub fn message(&self) -> (text: &'static str)
        ensures
            text@ == self.text(),
    {
        match self {
            InvalidAge::NotANumber => "Yak age is NaN",
            InvalidAge::Infinite => "Yak age is infinite",
            InvalidAge::Negative => "Yak age cannot be negative",
            InvalidAge::TooLarge => "Yak age is too large",
        }
    }
}

/// The magnitude of a finite number: `significand * 2^(scale - 1075)`.
pub struct Magnitude {
    pub significand: nat,
    pub scale: nat,
}

/// The least number of low bits to drop from `p` so that fewer than 2^53
/// remain.
pub open spec fn excess_bits(p: nat) -> nat
    decreases p,
{
    if p < SIGNIFICAND_LIMIT {
        0
    } else {
        1 + excess_bits(p / 2)
    }
}

/// `p / 2^k`, rounded to the nearest whole number, and to the even one of
/// the two where `p / 2^k` lies halfway between them.
pub open spec fn round_half_even(p: nat, k: nat) -> nat {
    let down = p / pow2(k);
    let rest = p % pow2(k);
    if 2 * rest > pow2(k) || (2 * rest == pow2(k) && down % 2 == 1) {
        down + 1
    } else {
        down
    }
}

impl Magnitude {
    /// The form in which a bit pattern gives a magnitude, and in which one
    /// can be given back as a bit pattern: the significand is below 2^53,
    /// and not below 2^52 unless the scale is the least one.
    pub open spec fn is_normal_form(self) -> bool {
        &&& self.significand < SIGNIFICAND_LIMIT
        &&& self.scale >= 1
        &&& self.scale > 1 ==> self.significand >= HIDDEN_BIT
    }

    /// The magnitude rounded toward zero to a whole number.
    pub open spec fn floor(self) -> nat {
        if self.scale >= EXPONENT_OF_UNITS {
            self.significand * pow2((self.scale - EXPONENT_OF_UNITS) as nat)
        } else {
            self.significand / pow2((EXPONENT_OF_UNITS - self.scale) as nat)
        }
    }

    /// Whether the magnitude is a whole number.
    pub open spec fn is_whole(self) -> bool {
        self.scale >= EXPONENT_OF_UNITS || self.significand % pow2(
            (EXPONENT_OF_UNITS - self.scale) as nat,
        ) == 0
    }

    /// Whether the magnitude is greater than `bound`.
    pub open spec fn exceeds(self, bound: nat) -> bool {
        self.floor() > bound || (self.floor() == bound && !self.is_whole())
    }

    /// Whether the magnitude is 2^1024 or more: too much for a finite
    /// binary64 number.
    pub open spec fn overflows(self) -> bool {
        self.significand * pow2(self.scale) >= pow2(2_099)
    }

    /// A hundred times the magnitude, as binary64 arithmetic gives it: the
    /// exact product where its significand is below 2^53, else the nearest
    /// magnitude with such a significand, and of two that are equally near
    /// the one whose significand is even.
    pub open spec fn times_hundred(self) -> Magnitude {
        let product = DAYS_IN_YAK_YEAR as nat * self.significand;
        let dropped = excess_bits(product);
        let rounded = round_half_even(product, dropped);
        if rounded == SIGNIFICAND_LIMIT {
            Magnitude { significand: HIDDEN_BIT as nat, scale: self.scale + dropped + 1 }
        } else {
            Magnitude { significand: rounded, scale: self.scale + dropped }
        }
    }

    /// The whole days in an age of this many days: none where it is greater
    /// than 4294967295, else the age rounded toward zero.
    pub open spec fn whole_days(self) -> Result<u32, InvalidAge> {
        if self.exceeds(u32::MAX as nat) {
            Err(InvalidAge::TooLarge)
        } else {
            Ok(self.floor() as u32)
        }
    }
}

/// The exponent field of a bit pattern.
pub open spec fn float_exponent(bits: u64) -> nat {
    ((bits / HIDDEN_BIT) % 0x800) as nat
}

/// The fraction field of a bit pattern.
pub open spec fn float_fraction(bits: u64) -> nat {
    (bits % HIDDEN_BIT) as nat
}

/// Whether the sign bit is set.
pub open spec fn float_is_negative(bits: u64) -> bool {
    bits >= SIGN_BIT
}

/// Whether the bit pattern stands for no number.
pub open spec fn float_is_nan(bits: u64) -> bool {
    float_exponent(bits) == EXPONENT_SPECIAL && float_fraction(bits) != 0
}

/// Whether the bit pattern stands for an infinity.
pub open spec fn float_is_infinite(bits: u64) -> bool {
    float_exponent(bits) == EXPONENT_SPECIAL && float_fraction(bits) == 0
}

/// The magnitude of the finite number that a bit pattern stands for.
pub open spec fn float_magnitude(bits: u64) -> Magnitude {
    if float_exponent(bits) == 0 {
        Magnitude { significand: float_fraction(bits), scale: 1 }
    } else {
        Magnitude {
            significand: HIDDEN_BIT as nat + float_fraction(bits),
            scale: float_exponent(bits),
        }
    }
}

/// The whole days in an age given as the bit pattern of a binary64 number of
/// years: the years are taken a hundredfold as binary64 arithmetic does it,
/// and the days are rounded toward zero. What is no number is refused first;
/// then what is infinite, be it the years or only their hundredfold, which
/// is infinite where it is too much for a finite number; then what carries
/// a minus sign; then what is greater than 4294967295.
pub open spec fn days_of_float_years(bits: u64) -> Result<u32, InvalidAge> {
    if float_is_nan(bits) {
        Err(InvalidAge::NotANumber)
    } else if float_is_infinite(bits) || float_magnitude(bits).times_hundred().overflows() {
        Err(InvalidAge::Infinite)
    } else if float_is_negative(bits) {
        Err(InvalidAge::Negative)
    } else {
        float_magnitude(bits).times_hundred().whole_days()
    }
}

/// The excess bits are the least number of bits to drop: without them fewer
/// than 2^53 remain, and with one of them kept there would be 2^53 or more.
pub proof fn lemma_excess_bits_is_least(p: nat)
    ensures
        p / pow2(excess_bits(p)) < SIGNIFICAND_LIMIT,
        excess_bits(p) > 0 ==> p / pow2((excess_bits(p) - 1) as nat) >= SIGNIFICAND_LIMIT,
    decreases p,
{
    lemma2_to64();
    if p >= SIGNIFICAND_LIMIT {
        let fewer = excess_bits(p / 2);
        lemma_excess_bits_is_least(p / 2);
        lemma_pow2_pos(fewer);
        lemma_pow2_adds(1, fewer);
        lemma_div_denominator(p as int, 2, pow2(fewer) as int);
        if fewer > 0 {
            let one_kept = (fewer - 1) as nat;
            lemma_pow2_pos(one_kept);
            lemma_pow2_adds(1, one_kept);
            lemma_div_denominator(p as int, 2, pow2(one_kept) as int);
            assert(p / pow2(fewer) == (p / 2) / pow2(one_kept));
        } else {
            assert(p / pow2(0) == p);
        }
        assert(p / pow2(fewer) >= SIGNIFICAND_LIMIT);
    }
}

/// Rounding to the nearest is rounding to the nearest: the rounded number,
/// taken `2^k`-fold, is no further than `2^k / 2` from `p`, and where it is
/// exactly that far it is even.
pub proof fn lemma_round_half_even_is_nearest(p: nat, k: nat)
    ensures
        ({
            let rounded = round_half_even(p, k);
            let twice_off = if rounded * pow2(k) >= p {
                2 * (rounded * pow2(k) - p)
            } else {
                2 * (p - rounded * pow2(k))
            };
            &&& twice_off <= pow2(k)
            &&& twice_off == pow2(k) ==> rounded % 2 == 0
        }),
{
    let unit = pow2(k);
    lemma_pow2_pos(k);
    let down = p / unit;
    let rest = p % unit;
    lemma_fundamental_div_mod(p as int, unit as int);
    assert(p == unit * down + rest);
    assert(unit * down == down * unit) by (nonlinear_arith);
    assert((down + 1) * unit == down * unit + unit) by (nonlinear_arith);
}

/// The sign, the exponent field and the fraction field of a bit pattern.
fn float_fields(bits: u64) -> (fields: (bool, u64, u64))
    ensures
        fields.0 == float_is_negative(bits),
        fields.1 == float_exponent(bits),
        fields.2 == float_fraction(bits),
        fields.1 <= EXPONENT_SPECIAL,
        fields.2 < HIDDEN_BIT,
{
    let exponent: u64 = (bits >> 52) & 0x7ff;
    let fraction: u64 = bits & 0xf_ffff_ffff_ffff;
    let negative: bool = (bits >> 63) == 1;
    assert(exponent == (bits / 0x10_0000_0000_0000) % 0x800) by (bit_vector)
        requires
            exponent == (bits >> 52) & 0x7ff,
    ;
    assert(fraction == bits % 0x10_0000_0000_0000) by (bit_vector)
        requires
            fraction == bits & 0xf_ffff_ffff_ffff,
    ;
    assert(negative == (bits >= 0x8000_0000_0000_0000)) by (bit_vector)
        requires
            negative == ((bits >> 63) == 1),
    ;
    (negative, exponent, fraction)
}

/// The significand and the scale of a finite number with these fields.
fn magnitude_of_fields(exponent: u64, fraction: u64) -> (magnitude: (u64, u64))
    requires
        exponent < EXPONENT_SPECIAL,
        fraction < HIDDEN_BIT,
    ensures
        magnitude.0 == if exponent == 0 {
            fraction as int
        } else {
            HIDDEN_BIT + fraction
        },
        magnitude.1 == if exponent == 0 {
            1
        } else {
            exponent
        },
        (Magnitude { significand: magnitude.0 as nat, scale: magnitude.1 as nat }).is_normal_form(),
{
    if exponent == 0 {
        (fraction, 1)
    } else {
        let significand: u64 = HIDDEN_BIT | fraction;
        assert(significand == 0x10_0000_0000_0000 + fraction) by (bit_vector)
            requires
                significand == 0x10_0000_0000_0000 | fraction,
                fraction < 0x10_0000_0000_0000,
        ;
        (significand, exponent)
    }
}

/// The whole days in an age of `significand * 2^(scale - 1075)` days.
fn whole_days(significand: u64, scale: u64) -> (days: Result<u32, InvalidAge>)
    requires
        (Magnitude { significand: significand as nat, scale: scale as nat }).is_normal_form(),
    ensures
        days == (Magnitude { significand: significand as nat, scale: scale as nat }).whole_days(),
{
    let ghost magnitude = Magnitude { significand: significand as nat, scale: scale as nat };
    proof {
        lemma2_to64();
        lemma2_to64_rest();
    }
    if scale < EXPONENT_OF_ONE {
        proof {
            let down = (EXPONENT_OF_UNITS - scale) as nat;
            if down > 53 {
                lemma_pow2_strictly_increases(53, down);
            }
            lemma_basic_div(significand as int, pow2(down) as int);
        }
        return Ok(0);
    }
    if scale > EXPONENT_OF_ONE + 31 {
        proof {
            lemma_floor_from_two_to_32(magnitude);
        }
        return Err(InvalidAge::TooLarge);
    }
    let shift: u64 = EXPONENT_OF_UNITS - scale;
    let whole: u64 = significand >> shift;
    assert(whole <= 0xffff_ffff) by (bit_vector)
        requires
            whole == significand >> shift,
            significand < 0x20_0000_0000_0000,
            21 <= shift <= 52,
    ;
    proof {
        lemma_u64_shr_is_div(significand, shift);
        let unit = pow2(shift as nat);
        lemma_pow2_pos(shift as nat);
        lemma_fundamental_div_mod(significand as int, unit as int);
        assert(whole * unit <= significand) by (nonlinear_arith)
            requires
                significand == unit * whole + significand as int % unit as int,
                significand as int % unit as int >= 0,
        ;
        lemma_u64_shl_is_mul(whole, shift);
    }
    let is_whole: bool = (whole << shift) == significand;
    if whole == 0xffff_ffff && !is_whole {
        return Err(InvalidAge::TooLarge);
    }
    Ok(whole as u32)
}

/// A magnitude in normal form whose scale is above that of 2^31 is at least
/// 2^32.
proof fn lemma_floor_from_two_to_32(magnitude: Magnitude)
    requires
        magnitude.is_normal_form(),
        magnitude.scale > EXPONENT_OF_ONE + 31,
    ensures
        magnitude.floor() >= 0x1_0000_0000,
{
    lemma2_to64();
    lemma2_to64_rest();
    let significand = magnitude.significand;
    if magnitude.scale >= EXPONENT_OF_UNITS {
        let up = (magnitude.scale - EXPONENT_OF_UNITS) as nat;
        lemma_pow2_pos(up);
        assert(significand * pow2(up) >= significand) by (nonlinear_arith)
            requires
                pow2(up) >= 1,
        ;
    } else {
        let down = (EXPONENT_OF_UNITS - magnitude.scale) as nat;
        lemma_pow2_pos(down);
        if down < 20 {
            lemma_pow2_strictly_increases(down, 20);
        }
        lemma_div_is_ordered_by_denominator(significand as int, pow2(down) as int, pow2(20) as int);
        lemma_div_is_ordered(HIDDEN_BIT as int, significand as int, pow2(20) as int);
    }
}

/// A magnitude in normal form is 2^1024 or more exactly where its scale is
/// that of the infinities or above.
proof fn lemma_overflows_by_scale(magnitude: Magnitude)
    requires
        magnitude.is_normal_form(),
    ensures
        magnitude.overflows() <==> magnitude.scale >= EXPONENT_SPECIAL,
{
    lemma2_to64();
    lemma2_to64_rest();
    let significand = magnitude.significand;
    let scale = magnitude.scale;
    lemma_pow2_pos(scale);
    if scale >= EXPONENT_SPECIAL {
        lemma_pow2_adds(52, scale);
        if 52 + scale > 2_099 {
            lemma_pow2_strictly_increases(2_099, 52 + scale);
        }
        assert(significand * pow2(scale) >= pow2(52) * pow2(scale)) by (nonlinear_arith)
            requires
                significand >= pow2(52),
        ;
    } else {
        lemma_pow2_adds(53, scale);
        if 53 + scale < 2_099 {
            lemma_pow2_strictly_increases(53 + scale, 2_099);
        }
        assert(significand * pow2(scale) < pow2(53) * pow2(scale)) by (nonlinear_arith)
            requires
                significand < pow2(53),
                pow2(scale) > 0,
        ;
    }
}

/// A hundred times the magnitude `significand * 2^(scale - 1075)`, rounded
/// as binary64 arithmetic rounds it.
fn times_hundred(significand: u64, scale: u64) -> (product: (u64, u64))
    requires
        (Magnitude { significand: significand as nat, scale: scale as nat }).is_normal_form(),
        scale < EXPONENT_SPECIAL,
    ensures
        (Magnitude { significand: product.0 as nat, scale: product.1 as nat }) == (Magnitude {
            significand: significand as nat,
            scale: scale as nat,
        }).times_hundred(),
        (Magnitude { significand: product.0 as nat, scale: product.1 as nat }).is_normal_form(),
{
    proof {
        lemma2_to64();
        lemma2_to64_rest();
        assert(DAYS_IN_YAK_YEAR as nat * significand as nat == 100 * significand)
            by (nonlinear_arith)
            requires
                DAYS_IN_YAK_YEAR == 100,
        ;
    }
    let exact: u64 = DAYS_IN_YAK_YEAR as u64 * significand;
    let mut unit: u64 = 1;
    let mut dropped: u64 = 0;
    while exact / unit >= SIGNIFICAND_LIMIT
        invariant
            exact < 100 * SIGNIFICAND_LIMIT,
            dropped <= 7,
            unit == pow2(dropped as nat),
            unit > 0,
            excess_bits(exact as nat) == dropped + excess_bits((exact / unit) as nat),
            dropped > 0 ==> exact / unit >= HIDDEN_BIT,
        decreases 7 - dropped,
    {
        proof {
            lemma2_to64();
            lemma_pow2_adds(dropped as nat, 1);
            lemma_div_denominator(exact as int, unit as int, 2);
            assert(dropped < 7) by {
                if dropped == 7 {
                    assert(unit == 128);
                    assert(exact / 128 < SIGNIFICAND_LIMIT);
                }
            }
        }
        unit = unit * 2;
        dropped = dropped + 1;
    }
    let down: u64 = exact / unit;
    let rest: u64 = exact % unit;
    let rounded: u64 = if 2 * rest > unit || (2 * rest == unit && down % 2 == 1) {
        down + 1
    } else {
        down
    };
    if rounded == SIGNIFICAND_LIMIT {
        (HIDDEN_BIT, scale + dropped + 1)
    } else {
        (rounded, scale + dropped)
    }
}

/// The whole days in an age given as the bit pattern of a binary64 number of
/// years, or why the age is refused.
pub fn yak_float_years_to_days(bits: u64) -> (days: Result<u32, InvalidAge>)
    ensures
        days == days_of_float_years(bits),
{
    let (negative, exponent, fraction) = float_fields(bits);
    if exponent == EXPONENT_SPECIAL {
        return if fraction != 0 {
            Err(InvalidAge::NotANumber)
        } else {
            Err(InvalidAge::Infinite)
        };
    }
    let (significand, scale) = magnitude_of_fields(exponent, fraction);
    let (significand, scale) = times_hundred(significand, scale);
    proof {
        lemma_overflows_by_scale(Magnitude { significand: significand as nat, scale: scale as nat });
    }
    if scale >= EXPONENT_SPECIAL {
        Err(InvalidAge::Infinite)
    } else if negative {
        Err(InvalidAge::Negative)
    } else {
        whole_days(significand, scale)
    }
}

} // verus!
