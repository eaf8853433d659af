//! Conversion of 32-bit IEEE-754 samples, given by their bit patterns, to
//! 16-bit PCM.
//!
//! A sample is limited to the range from minus one to one, multiplied by
//! the full scale of 16 bits in single precision, and cut off toward zero.
//! What is not a number becomes silence.

use vstd::prelude::*;
use vstd::arithmetic::div_mod::{lemma_div_denominator, lemma_fundamental_div_mod};
use vstd::arithmetic::power2::{lemma2_to64, lemma2_to64_rest, lemma_pow2_adds, lemma_pow2_pos, lemma_pow2_unfold, pow2};
use crate::audio::rounding::{
    dropped_bits, encode, floor_log2, lemma_floor_log2, lemma_floor_log2_is, lemma_pow2_monotone,
    lemma_rounded_parts, pack, round_ratio, round_to_single, rounded, rounded_exponent, rounded_significand,
};

verus! {

/// Largest magnitude of an output sample.
pub const FULL_SCALE: u32 = 32767;

/// Whether the sign bit is set.
pub open spec fn sign_bit(bits: u32) -> bool {
    bits >= 0x8000_0000
}

/// The eight bits of the biased exponent.
pub open spec fn exponent_field(bits: u32) -> nat {
    ((bits as nat) / 0x80_0000) % 256
}

/// The twenty-three bits of the fraction.
pub open spec fn fraction_field(bits: u32) -> nat {
    (bits as nat) % 0x80_0000
}

/// Whether the pattern is not a number.
pub open spec fn is_nan(bits: u32) -> bool {
    exponent_field(bits) == 255 && fraction_field(bits) != 0
}

/// The significand as an integer: the fraction, with the hidden bit for a
/// normal number.
pub open spec fn significand(bits: u32) -> nat {
    if exponent_field(bits) == 0 {
        fraction_field(bits)
    } else {
        fraction_field(bits) + 0x80_0000
    }
}

/// The power of two that the significand of a finite pattern is
/// multiplied by.
pub open spec fn binary_exponent(bits: u32) -> int {
    if exponent_field(bits) == 0 {
        -149
    } else {
        exponent_field(bits) - 150
    }
}

/// A sample limited to the range from minus one to one: a magnitude of one
/// or more, an infinite one included, becomes one.
pub open spec fn limited(bits: u32) -> u32 {
    if !is_nan(bits) && exponent_field(bits) >= 127 {
        pack(sign_bit(bits), 127, 0)
    } else {
        bits
    }
}

/// The product of a finite sample and full scale, in single precision.
pub open spec fn times_full_scale(bits: u32) -> u32 {
    rounded(sign_bit(bits), significand(bits) * 32767, 1, binary_exponent(bits))
}

/// The whole part of a finite value: the value without its fraction.
pub open spec fn whole_part(bits: u32) -> int {
    let magnitude = if binary_exponent(bits) >= 0 {
        significand(bits) * pow2(binary_exponent(bits) as nat)
    } else {
        significand(bits) / pow2((-binary_exponent(bits)) as nat)
    };
    if sign_bit(bits) {
        -(magnitude as int)
    } else {
        magnitude as int
    }
}

/// The 16-bit sample for a 32-bit IEEE-754 sample: zero for a pattern that
/// is not a number, else the whole part of the limited sample times full
/// scale.
pub open spec fn pcm_of_ieee(bits: u32) -> int {
    if is_nan(bits) {
        0
    } else {
        whole_part(times_full_scale(limited(bits)))
    }
}

/// A pattern is made of its sign, its exponent field and its fraction.
pub proof fn lemma_pack_parts(bits: u32)
    ensures
        bits == pack(sign_bit(bits), exponent_field(bits), fraction_field(bits)),
{
    let whole = bits as nat;
    let upper = whole / 0x80_0000;
    assert(whole == upper * 0x80_0000 + whole % 0x80_0000);
    assert(upper < 512);
    assert(upper == (upper / 256) * 256 + upper % 256);
    assert(sign_bit(bits) <==> upper / 256 == 1);
    assert(upper / 256 == 0 || upper / 256 == 1);
}

/// The sign, the exponent field and the fraction that a pattern is made of
/// are those that it has.
pub proof fn lemma_unpack(negative: bool, field: nat, fraction: nat)
    requires
        field <= 255,
        fraction < 0x80_0000,
    ensures
        sign_bit(pack(negative, field, fraction)) == negative,
        exponent_field(pack(negative, field, fraction)) == field,
        fraction_field(pack(negative, field, fraction)) == fraction,
{
    let sign: nat = if negative {
        0x8000_0000
    } else {
        0
    };
    let whole: nat = sign + field * 0x80_0000 + fraction;
    assert(whole < 0x1_0000_0000);
    assert(pack(negative, field, fraction) == whole);
    let upper: nat = if negative {
        256 + field
    } else {
        field
    };
    assert(whole == upper * 0x80_0000 + fraction);
    lemma_fundamental_div_mod(whole as int, 0x80_0000);
    assert(whole / 0x80_0000 == upper && whole % 0x80_0000 == fraction) by {
        vstd::arithmetic::div_mod::lemma_fundamental_div_mod_converse(
            whole as int,
            0x80_0000,
            upper as int,
            fraction as int,
        );
    }
}

/// The whole part of a rounded value that lies below two to the 24th: what
/// its significand holds above the binary point.
pub proof fn lemma_whole_part_of_rounded(negative: bool, p: nat, e: int)
    requires
        0 < p < 0x10_0000_0000_0000,
        -200 <= e <= 200,
        rounded_exponent(p, 1, e) <= -2,
    ensures
        sign_bit(rounded(negative, p, 1, e)) == negative,
        exponent_field(rounded(negative, p, 1, e)) < 255,
        binary_exponent(rounded(negative, p, 1, e)) < 0,
        significand(rounded(negative, p, 1, e)) / pow2((-binary_exponent(rounded(negative, p, 1, e))) as nat)
            == rounded_significand(p, 1, e) / pow2((-rounded_exponent(p, 1, e)) as nat),
{
    lemma_rounded_parts(p, 1, e);
    lemma2_to64();
    let kept = rounded_significand(p, 1, e);
    let exponent = rounded_exponent(p, 1, e);
    let bits = rounded(negative, p, 1, e);
    assert(bits == encode(negative, kept, exponent));
    if kept < 0x80_0000 {
        lemma_unpack(negative, 0, kept);
    } else if kept < 0x100_0000 {
        lemma_unpack(negative, (exponent + 150) as nat, (kept - 0x80_0000) as nat);
    } else {
        lemma_unpack(negative, (exponent + 151) as nat, 0);
        let lower = pow2((-exponent - 1) as nat);
        lemma_pow2_unfold((-exponent) as nat);
        lemma_pow2_pos((-exponent - 1) as nat);
        assert(pow2((-exponent) as nat) == 2 * lower);
        lemma_div_denominator(0x100_0000, 2, lower as int);
        assert(0x100_0000nat / (2 * lower) == (0x100_0000nat / 2) / lower);
    }
}

/// A sample of magnitude at most one, times full scale, has a whole part
/// of at most full scale.
pub proof fn lemma_within_full_scale(m: nat, x: int)
    requires
        0 < m < 0x100_0000,
        -149 <= x,
        x <= -24 || (m == 0x80_0000 && x == -23),
    ensures
        rounded_exponent(m * 32767, 1, x) <= -8,
        rounded_significand(m * 32767, 1, x) / pow2((-rounded_exponent(m * 32767, 1, x)) as nat) <= 32767,
{
    lemma2_to64();
    lemma2_to64_rest();
    let p = m * 32767;
    assert(0 < p < 0x80_0000_0000) by (nonlinear_arith)
        requires
            p == m * 32767,
            0 < m < 0x100_0000,
    ;
    lemma_rounded_parts(p, 1, x);
    let scaled = p * pow2(40);
    assert(scaled == p * 0x100_0000_0000);
    assert(scaled / 1 == scaled);
    let top = floor_log2(scaled);
    lemma_floor_log2(scaled);
    if top > 78 {
        lemma_pow2_monotone(79, top);
        lemma_pow2_adds(64, 15);
        assert(pow2(79) == 0x1_0000_0000_0000_0000nat * 0x8000nat);
        assert(false) by (nonlinear_arith)
            requires
                pow2(top) >= 0x1_0000_0000_0000_0000nat * 0x8000nat,
                pow2(top) <= scaled,
                scaled == p * 0x100_0000_0000,
                p < 0x80_0000_0000,
        ;
    }
    let drop = dropped_bits(p, 1, x);
    assert(drop <= 55);
    let exponent = rounded_exponent(p, 1, x);
    assert(exponent <= -8);
    let unit = pow2(drop as nat);
    let scale = pow2((-exponent) as nat);
    lemma_pow2_pos(drop as nat);
    lemma_pow2_pos((-exponent) as nat);
    lemma_pow2_adds((-exponent) as nat, drop as nat);
    lemma_pow2_adds(40, (-x) as nat);
    assert(scale * unit == 0x100_0000_0000 * pow2((-x) as nat));
    assert(m <= pow2((-x) as nat)) by {
        if x <= -24 {
            lemma_pow2_monotone(24, (-x) as nat);
        }
    }
    let limit = 32767 * scale;
    assert(scaled <= limit * unit) by (nonlinear_arith)
        requires
            scaled == (m * 32767) * 0x100_0000_0000,
            m <= pow2((-x) as nat),
            scale * unit == 0x100_0000_0000 * pow2((-x) as nat),
            limit == 32767 * scale,
    ;
    assert(1 * unit == unit);
    let kept = scaled / unit;
    let rest = scaled % unit;
    lemma_fundamental_div_mod(scaled as int, unit as int);
    assert(scaled == unit * kept + rest);
    let rounded_up = round_ratio(scaled, unit);
    assert(rounded_up == rounded_significand(p, 1, x));
    assert(rounded_up <= limit) by (nonlinear_arith)
        requires
            scaled == unit * kept + rest,
            0 <= rest < unit,
            scaled <= limit * unit,
            rounded_up == kept || (rounded_up == kept + 1 && rest > 0),
    ;
    assert(rounded_up / scale <= 32767) by (nonlinear_arith)
        requires
            rounded_up <= 32767 * scale,
            scale > 0,
    ;
}

/// One times full scale is full scale.
pub proof fn lemma_one_times_full_scale(negative: bool)
    ensures
        rounded_significand(0x80_0000 * 32767, 1, -23) / pow2((-rounded_exponent(0x80_0000 * 32767, 1, -23)) as nat)
            == 32767,
{
    lemma2_to64();
    lemma2_to64_rest();
    let p: nat = 0x80_0000 * 32767;
    let scaled = p * pow2(40);
    assert(scaled == 0x80_0000 * 32767 * 0x100_0000_0000);
    assert(scaled / 1 == scaled);
    lemma_pow2_adds(64, 13);
    assert(pow2(77) == 0x1_0000_0000_0000_0000nat * 0x2000nat);
    assert(pow2(77) <= scaled < 2 * pow2(77)) by (nonlinear_arith)
        requires
            scaled == 0x80_0000 * 32767 * 0x100_0000_0000,
            pow2(77) == 0x1_0000_0000_0000_0000nat * 0x2000nat,
    ;
    lemma_floor_log2_is(scaled, 77);
    assert(dropped_bits(p, 1, -23) == 54);
    assert(pow2(54) == 0x40_0000_0000_0000);
    assert(1 * pow2(54) == 0x40_0000_0000_0000);
    assert(scaled == 0xff_fe00 * 0x40_0000_0000_0000nat) by (nonlinear_arith)
        requires
            scaled == 0x80_0000 * 32767 * 0x100_0000_0000,
    ;
    vstd::arithmetic::div_mod::lemma_fundamental_div_mod_converse(
        scaled as int,
        0x40_0000_0000_0000,
        0xff_fe00,
        0,
    );
    assert(round_ratio(scaled, 0x40_0000_0000_0000) == 0xff_fe00);
    assert(rounded_significand(p, 1, -23) == 0xff_fe00);
    assert(rounded_exponent(p, 1, -23) == -9);
    assert(pow2(9) == 512);
    assert(0xff_fe00nat / 512 == 32767);
}

/// Zero is converted to zero.
pub proof fn lemma_zero_is_silence()
    ensures
        pcm_of_ieee(0) == 0,
{
    lemma2_to64();
    lemma_pow2_pos(149);
    assert(exponent_field(0) == 0);
    assert(fraction_field(0) == 0);
    assert(limited(0) == 0);
    assert(times_full_scale(0) == pack(false, 0, 0));
    assert(pack(false, 0, 0) == 0);
    assert(0nat / pow2(149) == 0) by (nonlinear_arith)
        requires
            pow2(149) > 0,
    ;
}

/// Two to the power of `e`, for an exponent below 63.
fn power_of_two(e: u32) -> (p: u64)
    requires
        e < 63,
    ensures
        p == pow2(e as nat),
{
    let mut p: u64 = 1;
    let mut i: u32 = 0;
    proof {
        lemma2_to64();
    }
    while i < e
        invariant
            i <= e < 63,
            p == pow2(i as nat),
        decreases e - i,
    {
        proof {
            lemma_pow2_unfold((i + 1) as nat);
            lemma_pow2_monotone((i + 1) as nat, 62);
            lemma2_to64_rest();
        }
        p = p * 2;
        i = i + 1;
    }
    p
}

/// Converts a 32-bit IEEE-754 sample, given by its bit pattern, to a 16-bit
/// sample. The sample is limited to full scale, never wrapped.
pub fn ieee_sample_to_i16(bits: u32) -> (s: i16)
    ensures
        s as int == pcm_of_ieee(bits),
        -32767 <= s <= 32767,
{
    let negative = bits >= 0x8000_0000;
    let field: u32 = (bits / 0x80_0000) % 256;
    let fraction: u32 = bits % 0x80_0000;
    if field == 255 && fraction != 0 {
        return 0;
    }
    let ghost sample = limited(bits);
    proof {
        if field >= 127 {
            lemma_unpack(negative, 127, 0);
        }
    }
    let m: u128 = if field >= 127 {
        0x80_0000
    } else if field == 0 {
        fraction as u128
    } else {
        fraction as u128 + 0x80_0000
    };
    let x: i32 = if field >= 127 {
        -23
    } else if field == 0 {
        -149
    } else {
        field as i32 - 150
    };
    assert(m == significand(sample) && x == binary_exponent(sample) && negative == sign_bit(sample));
    if m == 0 {
        proof {
            lemma2_to64();
            lemma_unpack(negative, 0, 0);
            lemma_pow2_pos(149);
            assert(0nat / pow2(149) == 0) by (nonlinear_arith)
                requires
                    pow2(149) > 0,
            ;
        }
        return 0;
    }
    assert(m * 32767 < 0x80_0000_0000) by (nonlinear_arith)
        requires
            m < 0x100_0000,
    ;
    let product: u32 = round_to_single(negative, m * 32767, 1, x);
    proof {
        lemma_within_full_scale(m as nat, x as int);
        lemma_whole_part_of_rounded(negative, (m * 32767) as nat, x as int);
    }
    let product_field: u32 = (product / 0x80_0000) % 256;
    let product_fraction: u32 = product % 0x80_0000;
    let kept: u64 = if product_field == 0 {
        product_fraction as u64
    } else {
        product_fraction as u64 + 0x80_0000
    };
    let shift: u32 = if product_field == 0 {
        149
    } else {
        150 - product_field
    };
    let magnitude: u64 = if shift >= 25 {
        proof {
            lemma2_to64();
            lemma_pow2_monotone(25, shift as nat);
            assert(kept as nat / pow2(shift as nat) == 0) by (nonlinear_arith)
                requires
                    kept < 0x100_0000,
                    pow2(shift as nat) >= 0x200_0000,
            ;
        }
        0
    } else {
        proof {
            lemma_pow2_pos(shift as nat);
        }
        kept / power_of_two(shift)
    };
    if negative {
        -(magnitude as i16)
    } else {
        magnitude as i16
    }
}

} // verus!
