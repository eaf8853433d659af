//! Sums and quotients of 32-bit IEEE-754 values, given by their bit
//! patterns, as the downmix of such samples needs them.
//!
//! Every result is the exact result rounded to single precision, to the
//! nearest value and in a tie to the one with an even significand. Whatever
//! is not a number is given as one pattern that is none.

use vstd::prelude::*;
use vstd::arithmetic::power2::{lemma2_to64, pow2};
use crate::audio::ieee::{
    binary_exponent, exponent_field, fraction_field, is_nan, lemma_pack_parts, sign_bit, significand,
};
use crate::audio::rounding::{
    lemma_far_apart, lemma_pow2_monotone, pack, pack_bits, round_to_single, rounded,
};

verus! {

/// The pattern that stands for every result that is not a number.
pub const NOT_A_NUMBER: u32 = 0x7fc0_0000;

/// Whether the pattern is an infinity.
pub open spec fn is_infinite(bits: u32) -> bool {
    exponent_field(bits) == 255 && fraction_field(bits) == 0
}

/// The sum of two finite values that are not zero, the first of which has
/// no smaller exponent than the second: the exact sum, rounded. A sum of
/// exactly nothing is zero with a positive sign.
pub open spec fn ordered_sum(high: u32, low: u32) -> u32 {
    let apart = binary_exponent(high) - binary_exponent(low);
    let big = significand(high) * pow2(apart as nat);
    let small = significand(low);
    if sign_bit(high) == sign_bit(low) {
        rounded(sign_bit(high), big + small, 1, binary_exponent(low))
    } else if big > small {
        rounded(sign_bit(high), (big - small) as nat, 1, binary_exponent(low))
    } else if big < small {
        rounded(sign_bit(low), (small - big) as nat, 1, binary_exponent(low))
    } else {
        pack(false, 0, 0)
    }
}

/// The sum of two values in single precision.
pub open spec fn sum(a: u32, b: u32) -> u32 {
    if is_nan(a) || is_nan(b) {
        0x7fc0_0000
    } else if is_infinite(a) {
        if is_infinite(b) && sign_bit(a) != sign_bit(b) {
            0x7fc0_0000
        } else {
            a
        }
    } else if is_infinite(b) {
        b
    } else if significand(a) == 0 && significand(b) == 0 {
        pack(sign_bit(a) && sign_bit(b), 0, 0)
    } else if significand(a) == 0 {
        b
    } else if significand(b) == 0 {
        a
    } else if binary_exponent(a) >= binary_exponent(b) {
        ordered_sum(a, b)
    } else {
        ordered_sum(b, a)
    }
}

/// The quotient of a value and a whole number from one to 65535 in single
/// precision.
pub open spec fn quotient(a: u32, n: nat) -> u32
    recommends
        0 < n < 0x1_0000,
{
    if is_nan(a) {
        0x7fc0_0000
    } else if is_infinite(a) {
        a
    } else {
        rounded(sign_bit(a), significand(a), n, binary_exponent(a))
    }
}

/// The sum of the values of a frame, taken one after the other from zero.
pub open spec fn total(frame: Seq<u32>) -> u32
    decreases frame.len(),
{
    if frame.len() == 0 {
        0
    } else {
        sum(total(frame.drop_last()), frame.last())
    }
}

/// The mean of the values of a frame of at most 65535 channels: their sum
/// over their number.
pub open spec fn mean(frame: Seq<u32>) -> u32
    recommends
        0 < frame.len() < 0x1_0000,
{
    quotient(total(frame), frame.len())
}

/// The parts of a pattern: whether its sign bit is set, its exponent field
/// and its fraction.
fn parts(bits: u32) -> (r: (bool, u32, u32))
    ensures
        r.0 == sign_bit(bits),
        r.1 == exponent_field(bits),
        r.2 == fraction_field(bits),
        r.1 <= 255,
        r.2 < 0x80_0000,
{
    (bits >= 0x8000_0000, (bits / 0x80_0000) % 256, bits % 0x80_0000)
}

/// The significand and the binary exponent of a finite pattern.
fn finite_parts(field: u32, fraction: u32) -> (r: (u128, i32))
    requires
        field < 255,
        fraction < 0x80_0000,
    ensures
        r.0 == if field == 0 {
            fraction as nat
        } else {
            (fraction + 0x80_0000) as nat
        },
        r.1 == if field == 0 {
            -149
        } else {
            field - 150
        },
        r.0 < 0x100_0000,
        field != 0 ==> r.0 >= 0x80_0000,
        -149 <= r.1 <= 104,
{
    if field == 0 {
        (fraction as u128, -149)
    } else {
        (fraction as u128 + 0x80_0000, field as i32 - 150)
    }
}

/// The sum of two finite values that are not zero, the first of which has
/// no smaller exponent than the second.
fn add_ordered(
    high: u32,
    high_negative: bool,
    high_significand: u128,
    high_exponent: i32,
    low_negative: bool,
    low_significand: u128,
    low_exponent: i32,
) -> (bits: u32)
    requires
        high_negative == sign_bit(high),
        high_significand == significand(high),
        high_exponent == binary_exponent(high),
        0 < high_significand < 0x100_0000,
        0 < low_significand < 0x100_0000,
        -149 <= low_exponent <= high_exponent <= 104,
    ensures
        bits == ({
            let big = high_significand as nat * pow2((high_exponent - low_exponent) as nat);
            let small = low_significand as nat;
            if high_negative == low_negative {
                rounded(high_negative, big + small, 1, low_exponent as int)
            } else if big > small {
                rounded(high_negative, (big - small) as nat, 1, low_exponent as int)
            } else if big < small {
                rounded(low_negative, (small - big) as nat, 1, low_exponent as int)
            } else {
                pack(false, 0, 0)
            }
        }),
{
    let apart: i32 = high_exponent - low_exponent;
    if apart >= 27 {
        proof {
            lemma_pack_parts(high);
            lemma_pow2_monotone(27, apart as nat);
            lemma2_to64();
            let d = pow2(apart as nat);
            assert(high_significand as nat * d >= 0x80_0000 * 0x800_0000) by (nonlinear_arith)
                requires
                    high_significand >= 0x80_0000,
                    d >= 0x800_0000,
            ;
            lemma_far_apart(
                high_negative,
                high_significand as nat,
                low_significand as nat,
                apart as nat,
                low_exponent as int,
                high_negative == low_negative,
            );
        }
        return high;
    }
    let mut scale: u128 = 1;
    let mut i: i32 = 0;
    proof {
        lemma2_to64();
    }
    while i < apart
        invariant
            0 <= i <= apart <= 26,
            scale == pow2(i as nat),
            scale <= 0x400_0000,
        decreases apart - i,
    {
        proof {
            vstd::arithmetic::power2::lemma_pow2_unfold((i + 1) as nat);
            lemma_pow2_monotone((i + 1) as nat, 26);
            lemma2_to64();
        }
        scale = scale * 2;
        i = i + 1;
    }
    assert(high_significand * scale < 0x100_0000 * 0x400_0000) by (nonlinear_arith)
        requires
            high_significand < 0x100_0000,
            scale <= 0x400_0000,
    ;
    let big: u128 = high_significand * scale;
    let small: u128 = low_significand;
    if high_negative == low_negative {
        round_to_single(high_negative, big + small, 1, low_exponent)
    } else if big > small {
        round_to_single(high_negative, big - small, 1, low_exponent)
    } else if big < small {
        round_to_single(low_negative, small - big, 1, low_exponent)
    } else {
        pack_bits(false, 0, 0)
    }
}

/// The sum of two values in single precision.
pub fn add_single(a: u32, b: u32) -> (bits: u32)
    ensures
        bits == sum(a, b),
{
    let (a_negative, a_field, a_fraction) = parts(a);
    let (b_negative, b_field, b_fraction) = parts(b);
    let a_nan = a_field == 255 && a_fraction != 0;
    let b_nan = b_field == 255 && b_fraction != 0;
    if a_nan || b_nan {
        return NOT_A_NUMBER;
    }
    if a_field == 255 {
        if b_field == 255 && a_negative != b_negative {
            return NOT_A_NUMBER;
        }
        return a;
    }
    if b_field == 255 {
        return b;
    }
    let (a_significand, a_exponent) = finite_parts(a_field, a_fraction);
    let (b_significand, b_exponent) = finite_parts(b_field, b_fraction);
    if a_significand == 0 && b_significand == 0 {
        return pack_bits(a_negative && b_negative, 0, 0);
    }
    if a_significand == 0 {
        return b;
    }
    if b_significand == 0 {
        return a;
    }
    if a_exponent >= b_exponent {
        add_ordered(a, a_negative, a_significand, a_exponent, b_negative, b_significand, b_exponent)
    } else {
        add_ordered(b, b_negative, b_significand, b_exponent, a_negative, a_significand, a_exponent)
    }
}

/// The quotient of a value and a whole number from one to 65535 in single
/// precision.
pub fn divide_single(a: u32, n: u16) -> (bits: u32)
    requires
        n > 0,
    ensures
        bits == quotient(a, n as nat),
{
    let (negative, field, fraction) = parts(a);
    if field == 255 {
        if fraction != 0 {
            NOT_A_NUMBER
        } else {
            a
        }
    } else {
        let (significand, exponent) = finite_parts(field, fraction);
        round_to_single(negative, significand, n as u128, exponent)
    }
}

} // verus!
