//! Rounding to single precision, on integers.
//!
//! A value is given as a ratio of two naturals times a power of two. It is
//! rounded to the nearest value that 32-bit IEEE-754 can hold, ties to the
//! value with an even significand; a value beyond the largest finite one
//! becomes infinite, and a value below the smallest normal one is rounded
//! to a multiple of the smallest subnormal one.

use vstd::prelude::*;
use vstd::arithmetic::div_mod::{
    lemma_div_denominator, lemma_div_is_ordered, lemma_div_multiples_vanish_quotient, lemma_fundamental_div_mod,
    lemma_fundamental_div_mod_converse,
};
use vstd::arithmetic::power2::{lemma2_to64, lemma2_to64_rest, lemma_pow2_adds, lemma_pow2_pos, lemma_pow2_unfold, pow2};

verus! {

/// Places by which a ratio is scaled up before it is rounded, so that
/// there always are bits to drop.
pub const HEADROOM: u32 = 40;

/// The bit pattern with the given sign, exponent field and fraction.
pub open spec fn pack(negative: bool, exponent_field: nat, fraction: nat) -> u32
    recommends
        exponent_field <= 255,
        fraction < 0x80_0000,
{
    ((if negative {
        0x8000_0000nat
    } else {
        0nat
    }) + exponent_field * 0x80_0000 + fraction) as u32
}

/// Number of bits of `n` behind its leading one: the whole part of its
/// binary logarithm.
pub open spec fn floor_log2(n: nat) -> nat
    decreases n,
{
    if n <= 1 {
        0
    } else {
        1 + floor_log2(n / 2)
    }
}

/// The whole number nearest to `p / unit`, ties to even.
pub open spec fn round_ratio(p: nat, unit: nat) -> nat
    recommends
        unit > 0,
{
    let kept = p / unit;
    let rest = p % unit;
    if 2 * rest > unit || (2 * rest == unit && kept % 2 == 1) {
        kept + 1
    } else {
        kept
    }
}

/// The bit pattern of the value `kept * 2^exponent`, for a significand of
/// at most 24 bits, or of two to the 24th, that has been rounded already.
pub open spec fn encode(negative: bool, kept: nat, exponent: int) -> u32
    recommends
        kept <= 0x100_0000,
        exponent >= -149,
{
    if kept < 0x80_0000 {
        pack(negative, 0, kept)
    } else {
        let significand = if kept == 0x100_0000 {
            0x80_0000nat
        } else {
            kept
        };
        let field = if kept == 0x100_0000 {
            exponent + 151
        } else {
            exponent + 150
        };
        if field >= 255 {
            pack(negative, 255, 0)
        } else {
            pack(negative, field as nat, (significand - 0x80_0000) as nat)
        }
    }
}

/// Number of low bits that rounding drops from the scaled ratio: as many
/// as leave 24 significant bits, but no fewer than the smallest subnormal
/// value asks for.
pub open spec fn dropped_bits(p: nat, q: nat, e: int) -> int
    recommends
        p > 0,
        q > 0,
{
    let top = floor_log2(p * pow2(40) / q) as int;
    if top - 23 >= -109 - e {
        top - 23
    } else {
        -109 - e
    }
}

/// The significand of `(p / q) * 2^e` once rounded: at most 24 bits, or
/// two to the 24th.
pub open spec fn rounded_significand(p: nat, q: nat, e: int) -> nat
    recommends
        p > 0,
        q > 0,
{
    round_ratio(p * pow2(40), q * pow2(dropped_bits(p, q, e) as nat))
}

/// The power of two that the rounded significand of `(p / q) * 2^e` is
/// multiplied by.
pub open spec fn rounded_exponent(p: nat, q: nat, e: int) -> int
    recommends
        p > 0,
        q > 0,
{
    e - 40 + dropped_bits(p, q, e)
}

/// The bit pattern of `(p / q) * 2^e`, rounded to single precision, with
/// the given sign.
pub open spec fn rounded(negative: bool, p: nat, q: nat, e: int) -> u32
    recommends
        q > 0,
{
    if p == 0 {
        pack(negative, 0, 0)
    } else {
        encode(negative, rounded_significand(p, q, e), rounded_exponent(p, q, e))
    }
}

/// The whole part of the binary logarithm lies between the powers of two
/// that it names.
pub proof fn lemma_floor_log2(n: nat)
    requires
        n > 0,
    ensures
        pow2(floor_log2(n)) <= n < 2 * pow2(floor_log2(n)),
    decreases n,
{
    lemma2_to64();
    if n > 1 {
        lemma_floor_log2(n / 2);
        lemma_pow2_unfold(floor_log2(n));
    }
}

/// Powers of two grow with their exponents.
pub proof fn lemma_pow2_monotone(a: nat, b: nat)
    requires
        a <= b,
    ensures
        pow2(a) <= pow2(b),
    decreases b - a,
{
    if a < b {
        lemma_pow2_monotone(a + 1, b);
        lemma_pow2_unfold(a + 1);
    }
}

/// A number between a power of two and the next has that power's exponent
/// as the whole part of its binary logarithm.
pub proof fn lemma_floor_log2_is(n: nat, t: nat)
    requires
        pow2(t) <= n < 2 * pow2(t),
    ensures
        floor_log2(n) == t,
{
    lemma_pow2_pos(t);
    lemma_floor_log2(n);
    let found = floor_log2(n);
    if found < t {
        lemma_pow2_unfold(found + 1);
        lemma_pow2_monotone(found + 1, t);
    }
    if found > t {
        lemma_pow2_unfold(t + 1);
        lemma_pow2_monotone(t + 1, found);
    }
}

/// What is rounded when the quotient and the remainder are known.
proof fn lemma_round_ratio_of(p: nat, unit: nat, kept: nat, rest: nat)
    requires
        unit > 0,
        rest < unit,
        p == kept * unit + rest,
    ensures
        round_ratio(p, unit) == if 2 * rest > unit || (2 * rest == unit && kept % 2 == 1) {
            kept + 1
        } else {
            kept
        },
{
    lemma_fundamental_div_mod_converse(p as int, unit as int, kept as int, rest as int);
}

/// Adding or taking away less than an eighth of a normal value's unit in
/// the last place leaves the value as it is: the sum of a normal value
/// with the significand `high` and a value with the significand `low`
/// whose exponent is lower by `apart`, at least 27, rounds to the first.
pub proof fn lemma_far_apart(negative: bool, high: nat, low: nat, apart: nat, exponent: int, same_sign: bool)
    requires
        0x80_0000 <= high < 0x100_0000,
        0 < low < 0x100_0000,
        apart >= 27,
        -149 <= exponent,
        exponent + apart <= 104,
    ensures
        rounded(
            negative,
            if same_sign {
                high * pow2(apart) + low
            } else {
                (high * pow2(apart) - low) as nat
            },
            1,
            exponent,
        ) == pack(negative, (exponent + apart + 150) as nat, (high - 0x80_0000) as nat),
{
    lemma2_to64();
    lemma2_to64_rest();
    let d = pow2(apart);
    lemma_pow2_monotone(27, apart);
    assert(d >= 0x800_0000);
    let p: nat = if same_sign {
        high * d + low
    } else {
        (high * d - low) as nat
    };
    assert(high * d >= 0x80_0000 * d) by (nonlinear_arith)
        requires
            high >= 0x80_0000,
            d >= 0,
    ;
    assert(high * d < 0x100_0000 * d) by (nonlinear_arith)
        requires
            high < 0x100_0000,
            d > 0,
    ;
    assert(p > 0);
    let scaled = p * pow2(40);
    assert(pow2(40) == 0x100_0000_0000);
    assert(scaled / 1 == scaled);
    lemma_pow2_adds(40, apart);
    let unit = pow2(40 + apart);
    assert(unit == 0x100_0000_0000 * d);
    if same_sign || high > 0x80_0000 {
        // The sum has the leading bit of the higher addend.
        lemma_pow2_adds(63, apart);
        assert(pow2(63) == 0x8000_0000_0000_0000);
        assert(pow2(63 + apart) == 0x8000_0000_0000_0000 * d);
        assert(0x80_0000 * d <= p < 0x100_0000 * d) by (nonlinear_arith)
            requires
                same_sign ==> p == high * d + low,
                !same_sign ==> p == high * d - low,
                same_sign || high > 0x80_0000,
                0x80_0000 <= high < 0x100_0000,
                0 < low < 0x100_0000,
                d >= 0x800_0000,
        ;
        assert(pow2(63 + apart) <= scaled < 2 * pow2(63 + apart)) by (nonlinear_arith)
            requires
                scaled == p * 0x100_0000_0000,
                0x80_0000 * d <= p < 0x100_0000 * d,
                pow2(63 + apart) == 0x8000_0000_0000_0000 * d,
        ;
        lemma_floor_log2_is(scaled, 63 + apart);
        assert(dropped_bits(p, 1, exponent) == 40 + apart);
        assert(1 * pow2(40 + apart) == unit);
        if same_sign {
            let rest = low * 0x100_0000_0000;
            assert(scaled == (high * d + low) * 0x100_0000_0000);
            assert(scaled == high * unit + rest) by (nonlinear_arith)
                requires
                    scaled == (high * d + low) * 0x100_0000_0000,
                    unit == 0x100_0000_0000 * d,
                    rest == low * 0x100_0000_0000,
            ;
            assert(2 * rest < unit) by (nonlinear_arith)
                requires
                    rest == low * 0x100_0000_0000,
                    unit == 0x100_0000_0000 * d,
                    low < 0x100_0000,
                    d >= 0x800_0000,
            ;
            lemma_round_ratio_of(scaled, unit, high, rest);
            assert(round_ratio(scaled, unit) == high);
        } else {
            let rest = ((d - low) * 0x100_0000_0000) as nat;
            assert(scaled == (high * d - low) * 0x100_0000_0000);
            assert(scaled == (high - 1) * unit + rest) by (nonlinear_arith)
                requires
                    scaled == (high * d - low) * 0x100_0000_0000,
                    unit == 0x100_0000_0000 * d,
                    rest == (d - low) * 0x100_0000_0000,
            ;
            assert(rest < unit && 2 * rest > unit) by (nonlinear_arith)
                requires
                    rest == (d - low) * 0x100_0000_0000,
                    unit == 0x100_0000_0000 * d,
                    0 < low < 0x100_0000,
                    d >= 0x800_0000,
            ;
            lemma_round_ratio_of(scaled, unit, (high - 1) as nat, rest);
            assert(round_ratio(scaled, unit) == high);
        }
        assert(encode(negative, high, exponent + apart) == pack(
            negative,
            (exponent + apart + 150) as nat,
            (high - 0x80_0000) as nat,
        ));
    } else {
        // Taking away from a power of two: the difference has one bit less.
        let half = pow2((apart - 1) as nat);
        lemma_pow2_unfold(apart);
        assert(d == 2 * half);
        lemma_pow2_adds(62, apart);
        assert(pow2(62) == 0x4000_0000_0000_0000);
        assert(pow2(62 + apart) == 0x4000_0000_0000_0000 * d);
        assert(high == 0x80_0000);
        assert(p == 0x80_0000 * d - low) by (nonlinear_arith)
            requires
                p == high * d - low,
                high == 0x80_0000,
        ;
        assert(pow2(62 + apart) <= scaled < 2 * pow2(62 + apart)) by (nonlinear_arith)
            requires
                scaled == p * 0x100_0000_0000,
                p == 0x80_0000 * d - low,
                0 < low < 0x100_0000,
                d >= 0x800_0000,
                pow2(62 + apart) == 0x4000_0000_0000_0000 * d,
        ;
        lemma_floor_log2_is(scaled, 62 + apart);
        assert(dropped_bits(p, 1, exponent) == 39 + apart);
        lemma_pow2_adds(40, (apart - 1) as nat);
        let lower_unit = pow2((39 + apart) as nat);
        assert(lower_unit == 0x100_0000_0000 * half);
        assert(1 * pow2((39 + apart) as nat) == lower_unit);
        let rest = ((half - low) * 0x100_0000_0000) as nat;
        assert(half >= 0x400_0000);
        assert(scaled == (0x80_0000 * d - low) * 0x100_0000_0000);
        assert(scaled == 0xff_ffff * lower_unit + rest) by (nonlinear_arith)
            requires
                scaled == (0x80_0000 * d - low) * 0x100_0000_0000,
                d == 2 * half,
                lower_unit == 0x100_0000_0000 * half,
                rest == (half - low) * 0x100_0000_0000,
        ;
        assert(rest < lower_unit && 2 * rest > lower_unit) by (nonlinear_arith)
            requires
                rest == (half - low) * 0x100_0000_0000,
                lower_unit == 0x100_0000_0000 * half,
                0 < low < 0x100_0000,
                half >= 0x400_0000,
        ;
        lemma_round_ratio_of(scaled, lower_unit, 0xff_ffff, rest);
        assert(round_ratio(scaled, lower_unit) == 0x100_0000);
        assert(encode(negative, 0x100_0000, exponent + apart - 1) == pack(
            negative,
            (exponent + apart + 150) as nat,
            0,
        ));
    }
}

/// A larger number has no smaller binary logarithm.
pub proof fn lemma_floor_log2_monotone(a: nat, b: nat)
    requires
        0 < a <= b,
    ensures
        floor_log2(a) <= floor_log2(b),
{
    lemma_floor_log2(a);
    lemma_floor_log2(b);
    if floor_log2(a) > floor_log2(b) {
        lemma_pow2_unfold(floor_log2(b) + 1);
        lemma_pow2_monotone(floor_log2(b) + 1, floor_log2(a));
    }
}

/// A number times a power of two has the binary logarithm of the number
/// plus the exponent of the power.
pub proof fn lemma_floor_log2_scaled(n: nat, e: nat)
    requires
        n > 0,
    ensures
        floor_log2(n * pow2(e)) == floor_log2(n) + e,
{
    lemma_floor_log2(n);
    let t = floor_log2(n);
    lemma_pow2_adds(t, e);
    lemma_pow2_pos(e);
    assert(pow2(t + e) <= n * pow2(e) < 2 * pow2(t + e)) by (nonlinear_arith)
        requires
            pow2(t) <= n < 2 * pow2(t),
            pow2(t + e) == pow2(t) * pow2(e),
            pow2(e) > 0,
    ;
    lemma_floor_log2_is(n * pow2(e), t + e);
}

/// Rounding a ratio keeps the order of the numerators.
pub proof fn lemma_round_ratio_monotone(p: nat, larger: nat, unit: nat)
    requires
        unit > 0,
        p <= larger,
    ensures
        round_ratio(p, unit) <= round_ratio(larger, unit),
{
    lemma_fundamental_div_mod(p as int, unit as int);
    lemma_fundamental_div_mod(larger as int, unit as int);
    lemma_div_is_ordered(p as int, larger as int, unit as int);
    let kept = p / unit;
    let kept_larger = larger / unit;
    if kept == kept_larger {
        let base = unit * kept;
        let rest = p % unit;
        let rest_larger = larger % unit;
        assert(p == base + rest);
        assert(larger == base + rest_larger);
        assert(rest <= rest_larger);
    }
}

/// Rounding a ratio does not see a factor that its two sides share.
pub proof fn lemma_round_ratio_scaled(p: nat, unit: nat, factor: nat)
    requires
        unit > 0,
        factor > 0,
    ensures
        round_ratio(p * factor, unit * factor) == round_ratio(p, unit),
{
    lemma_fundamental_div_mod(p as int, unit as int);
    let kept = p / unit;
    let rest = p % unit;
    assert(unit * factor > 0) by (nonlinear_arith)
        requires
            unit > 0,
            factor > 0,
    ;
    assert(p * factor == kept * (unit * factor) + rest * factor) by (nonlinear_arith)
        requires
            p == unit * kept + rest,
    ;
    assert(rest * factor < unit * factor) by (nonlinear_arith)
        requires
            rest < unit,
            factor > 0,
    ;
    lemma_round_ratio_of(p * factor, unit * factor, kept, rest * factor);
    assert((2 * (rest * factor) > unit * factor) == (2 * rest > unit)) by (nonlinear_arith)
        requires
            factor > 0,
    ;
    assert((2 * (rest * factor) == unit * factor) == (2 * rest == unit)) by (nonlinear_arith)
        requires
            factor > 0,
    ;
}

/// Number of low bits that rounding drops from a value that is given in
/// units of the smallest step: as many as leave 24 significant bits, but
/// no fewer than forty.
pub open spec fn dropped_from(value: nat) -> nat {
    if floor_log2(value) >= 63 {
        (floor_log2(value) - 23) as nat
    } else {
        40
    }
}

/// A value given in units of the smallest step, rounded to single
/// precision, in the same units.
pub open spec fn rounded_value(value: nat) -> nat {
    round_ratio(value, pow2(dropped_from(value))) * pow2(dropped_from(value))
}

/// Rounding to single precision keeps the order of the values: a larger
/// value is never rounded to a smaller one.
pub proof fn lemma_rounded_value_monotone(value: nat, larger: nat)
    requires
        0 < value <= larger,
    ensures
        rounded_value(value) <= rounded_value(larger),
{
    lemma2_to64();
    lemma2_to64_rest();
    let t = floor_log2(value);
    let u = floor_log2(larger);
    lemma_floor_log2_monotone(value, larger);
    lemma_floor_log2(value);
    lemma_floor_log2(larger);
    let d = dropped_from(value);
    let e = dropped_from(larger);
    lemma_pow2_pos(d);
    lemma_pow2_pos(e);
    if d == e {
        lemma_round_ratio_monotone(value, larger, pow2(d));
        assert(round_ratio(value, pow2(d)) * pow2(d) <= round_ratio(larger, pow2(d)) * pow2(d))
            by (nonlinear_arith)
            requires
                round_ratio(value, pow2(d)) <= round_ratio(larger, pow2(d)),
                pow2(d) > 0,
        ;
    } else {
        assert(d < e);
        assert(u >= 63 && e == u - 23);
        assert(t < u);
        // The larger value keeps at least its leading power of two.
        lemma_pow2_adds(e, 23);
        assert(pow2(u) == pow2(e) * 0x80_0000);
        lemma_fundamental_div_mod(larger as int, pow2(e) as int);
        let kept_larger = larger / pow2(e);
        assert(kept_larger >= 0x80_0000) by (nonlinear_arith)
            requires
                larger >= pow2(e) * 0x80_0000,
                larger == pow2(e) * kept_larger + larger % pow2(e),
                larger % pow2(e) < pow2(e),
                pow2(e) > 0,
        ;
        assert(rounded_value(larger) >= pow2(u)) by (nonlinear_arith)
            requires
                rounded_value(larger) == round_ratio(larger, pow2(e)) * pow2(e),
                round_ratio(larger, pow2(e)) >= kept_larger,
                kept_larger >= 0x80_0000,
                pow2(u) == pow2(e) * 0x80_0000,
                pow2(e) > 0,
        ;
        lemma_pow2_monotone(t + 1, u);
        lemma_pow2_unfold(t + 1);
        // The smaller value does not get beyond the next power of two.
        lemma_fundamental_div_mod(value as int, pow2(d) as int);
        let kept = value / pow2(d);
        let rest = value % pow2(d);
        if t + 1 >= d {
            lemma_pow2_adds(d, (t + 1 - d) as nat);
            let whole = pow2((t + 1 - d) as nat);
            assert(kept < whole) by (nonlinear_arith)
                requires
                    value < pow2(d) * whole,
                    value == pow2(d) * kept + rest,
                    rest >= 0,
                    pow2(d) > 0,
            ;
            assert(rounded_value(value) <= pow2(t + 1)) by (nonlinear_arith)
                requires
                    rounded_value(value) == round_ratio(value, pow2(d)) * pow2(d),
                    round_ratio(value, pow2(d)) <= kept + 1,
                    kept < whole,
                    pow2(t + 1) == pow2(d) * whole,
                    pow2(d) > 0,
            ;
        } else {
            assert(d == 40);
            lemma_pow2_monotone(t + 1, 39);
            assert(value < 0x80_0000_0000);
            assert(pow2(40) == 0x100_0000_0000);
            assert(kept == 0 && rest == value) by {
                lemma_fundamental_div_mod_converse(value as int, 0x100_0000_0000, 0, value as int);
            }
            assert(round_ratio(value, pow2(d)) == 0);
            assert(rounded_value(value) == 0);
        }
    }
}

/// The whole part of a rounded value that is given in units of the
/// smallest step, of which two to the `places`-th make one.
pub open spec fn whole_of_value(value: nat, places: nat) -> nat {
    rounded_value(value) / pow2(places)
}

/// The whole part of what a value is rounded to never falls when the
/// value grows.
pub proof fn lemma_whole_of_value_monotone(value: nat, larger: nat, places: nat)
    requires
        0 < value <= larger,
    ensures
        whole_of_value(value, places) <= whole_of_value(larger, places),
{
    lemma_rounded_value_monotone(value, larger);
    lemma_pow2_pos(places);
    lemma_div_is_ordered(rounded_value(value) as int, rounded_value(larger) as int, pow2(places) as int);
}

/// The parts of a rounded value, seen in units of the smallest step: for a
/// value `p * 2^e` with `e` no lower than the exponent of the subnormal
/// values, the significand times its power of two is what the value in
/// those units is rounded to, and its whole part is the whole part of
/// that.
pub proof fn lemma_rounded_in_units(p: nat, e: int)
    requires
        0 < p < 0x10_0000_0000_0000,
        -149 <= e <= 200,
        rounded_exponent(p, 1, e) <= 0,
    ensures
        rounded_significand(p, 1, e) / pow2((-rounded_exponent(p, 1, e)) as nat) == whole_of_value(
            p * pow2(40) * pow2((e + 149) as nat),
            189,
        ),
{
    lemma2_to64();
    lemma2_to64_rest();
    lemma_rounded_parts(p, 1, e);
    let shift = (e + 149) as nat;
    let scaled = p * pow2(40);
    assert(scaled == p * 0x100_0000_0000);
    assert(scaled / 1 == scaled);
    assert(scaled > 0);
    let value = scaled * pow2(shift);
    lemma_pow2_pos(shift);
    assert(value > 0) by (nonlinear_arith)
        requires
            value == scaled * pow2(shift),
            scaled > 0,
            pow2(shift) > 0,
    ;
    lemma_floor_log2_scaled(scaled, shift);
    let top = floor_log2(scaled);
    let drop = dropped_bits(p, 1, e);
    assert(drop == if top - 23 >= -109 - e {
        top - 23
    } else {
        -109 - e
    });
    let d = dropped_from(value);
    assert(d == drop + shift);
    lemma_pow2_adds(drop as nat, shift);
    lemma_pow2_pos(drop as nat);
    assert(1 * pow2(drop as nat) == pow2(drop as nat));
    lemma_round_ratio_scaled(scaled, pow2(drop as nat), pow2(shift));
    let kept = rounded_significand(p, 1, e);
    assert(kept == round_ratio(scaled, pow2(drop as nat)));
    assert(round_ratio(value, pow2(d)) == kept);
    let down = (-rounded_exponent(p, 1, e)) as nat;
    assert(down + d == 189);
    lemma_pow2_adds(d, down);
    lemma_pow2_pos(d);
    lemma_pow2_pos(down);
    lemma_div_multiples_vanish_quotient(pow2(d) as int, kept as int, pow2(down) as int);
    assert(kept * pow2(d) == pow2(d) * kept) by (nonlinear_arith);
    assert(pow2(189) == pow2(d) * pow2(down));
}

/// Two to the 126th.
proof fn lemma_pow2_126()
    ensures
        pow2(126) == 0x4000_0000_0000_0000_0000_0000_0000_0000,
{
    lemma2_to64();
    lemma2_to64_rest();
    lemma_pow2_adds(63, 63);
    assert(pow2(63) == 0x8000_0000_0000_0000);
    assert(0x8000_0000_0000_0000nat * 0x8000_0000_0000_0000nat == 0x4000_0000_0000_0000_0000_0000_0000_0000)
        by (nonlinear_arith);
}

/// Powers of two below the 127th fit 128 bits.
proof fn lemma_pow2_fits(e: nat)
    requires
        e <= 126,
    ensures
        pow2(e) <= 0x4000_0000_0000_0000_0000_0000_0000_0000,
{
    lemma_pow2_126();
    lemma_pow2_monotone(e, 126);
}

/// Two to the power of `e`.
fn power_of_two(e: u32) -> (p: u128)
    requires
        e <= 126,
    ensures
        p == pow2(e as nat),
{
    let mut p: u128 = 1;
    let mut i: u32 = 0;
    proof {
        lemma2_to64();
    }
    while i < e
        invariant
            i <= e <= 126,
            p == pow2(i as nat),
        decreases e - i,
    {
        proof {
            lemma_pow2_unfold((i + 1) as nat);
            lemma_pow2_fits((i + 1) as nat);
        }
        p = p * 2;
        i = i + 1;
    }
    p
}

/// The whole part of the binary logarithm of `n`.
fn log2_floor(n: u128) -> (t: u32)
    ensures
        t == floor_log2(n as nat),
        t <= 127,
{
    let mut rest: u128 = n;
    let mut t: u32 = 0;
    proof {
        lemma2_to64();
    }
    while rest > 1
        invariant
            floor_log2(n as nat) == t + floor_log2(rest as nat),
            t <= 127,
            (rest as nat) * pow2(t as nat) <= n,
        decreases rest,
    {
        proof {
            if t >= 127 {
                lemma_pow2_126();
                lemma_pow2_unfold(127);
                lemma_pow2_monotone(127, t as nat);
                assert(false) by (nonlinear_arith)
                    requires
                        rest >= 2,
                        pow2(t as nat) >= 2 * 0x4000_0000_0000_0000_0000_0000_0000_0000,
                        (rest as nat) * pow2(t as nat) <= n,
                        n <= 0xffff_ffff_ffff_ffff_ffff_ffff_ffff_ffff,
                ;
            }
            lemma_pow2_unfold((t + 1) as nat);
            let half = (rest / 2) as nat;
            assert(half * pow2((t + 1) as nat) <= (rest as nat) * pow2(t as nat)) by (nonlinear_arith)
                requires
                    half * 2 <= rest,
                    pow2((t + 1) as nat) == 2 * pow2(t as nat),
            ;
        }
        rest = rest / 2;
        t = t + 1;
    }
    t
}

/// The bit pattern with the given sign, exponent field and fraction.
pub fn pack_bits(negative: bool, exponent_field: u32, fraction: u32) -> (bits: u32)
    requires
        exponent_field <= 255,
        fraction < 0x80_0000,
    ensures
        bits == pack(negative, exponent_field as nat, fraction as nat),
{
    let sign: u32 = if negative {
        0x8000_0000
    } else {
        0
    };
    sign + exponent_field * 0x80_0000 + fraction
}

/// The bit pattern of the value `kept * 2^exponent` for a significand that
/// has been rounded already.
fn encode_bits(negative: bool, kept: u128, exponent: i32) -> (bits: u32)
    requires
        kept <= 0x100_0000,
        -149 <= exponent <= 1000,
    ensures
        bits == encode(negative, kept as nat, exponent as int),
{
    if kept < 0x80_0000 {
        pack_bits(negative, 0, kept as u32)
    } else {
        let significand: u32 = if kept == 0x100_0000 {
            0x80_0000
        } else {
            kept as u32
        };
        let field: i32 = if kept == 0x100_0000 {
            exponent + 151
        } else {
            exponent + 150
        };
        if field >= 255 {
            pack_bits(negative, 255, 0)
        } else {
            pack_bits(negative, field as u32, significand - 0x80_0000)
        }
    }
}

/// What is kept of the scaled ratio has at most 24 bits.
proof fn lemma_kept_is_short(scaled: nat, q: nat, top: nat, drop: nat)
    requires
        q > 0,
        top == floor_log2(scaled / q),
        scaled / q > 0,
        drop + 23 >= top,
        drop <= top + 200,
    ensures
        scaled / (q * pow2(drop)) < 0x100_0000,
{
    let quotient = scaled / q;
    lemma_floor_log2(quotient);
    lemma_pow2_pos(drop);
    lemma2_to64();
    lemma_div_denominator(scaled as int, q as int, pow2(drop) as int);
    assert(scaled / (q * pow2(drop)) == quotient / pow2(drop));
    lemma_pow2_unfold(top + 1);
    if top + 1 >= drop {
        lemma_pow2_adds(drop, (top + 1 - drop) as nat);
        lemma_pow2_monotone((top + 1 - drop) as nat, 24);
        assert(quotient / pow2(drop) < 0x100_0000) by (nonlinear_arith)
            requires
                quotient < pow2(drop) * pow2((top + 1 - drop) as nat),
                pow2((top + 1 - drop) as nat) <= 0x100_0000,
                pow2(drop) > 0,
        ;
    } else {
        lemma_pow2_monotone(top + 1, drop);
        assert(quotient / pow2(drop) < 0x100_0000) by (nonlinear_arith)
            requires
                quotient < pow2(drop),
                pow2(drop) > 0,
        ;
    }
}

/// What holds of the parts of a rounded value: at least one bit is
/// dropped; the significand is what is kept of the scaled ratio or one
/// more; it has 24 bits, or fewer for a subnormal value, or is two to the
/// 24th; and the exponent is not below that of the subnormal values.
pub proof fn lemma_rounded_parts(p: nat, q: nat, e: int)
    requires
        0 < p < 0x10_0000_0000_0000,
        0 < q < 0x1_0000,
        -200 <= e <= 200,
    ensures
        1 <= dropped_bits(p, q, e) <= 91,
        rounded_exponent(p, q, e) >= -149,
        rounded_significand(p, q, e) <= 0x100_0000,
        rounded_significand(p, q, e) >= 0x80_0000 || rounded_exponent(p, q, e) == -149,
        q * pow2(dropped_bits(p, q, e) as nat) > 0,
        p * pow2(40) / (q * pow2(dropped_bits(p, q, e) as nat)) <= rounded_significand(p, q, e) <= p * pow2(40) / (
        q * pow2(dropped_bits(p, q, e) as nat)) + 1,
{
    lemma2_to64();
    lemma2_to64_rest();
    let scaled = p * pow2(40);
    assert(scaled == p * 0x100_0000_0000);
    let quotient = scaled / q;
    assert(quotient >= 0x100_0000) by (nonlinear_arith)
        requires
            quotient == scaled / q,
            scaled >= 0x100_0000_0000,
            0 < q < 0x1_0000,
    ;
    let top = floor_log2(quotient);
    lemma_floor_log2(quotient);
    if top < 24 {
        lemma_pow2_unfold(top + 1);
        lemma_pow2_monotone(top + 1, 24);
    }
    if top > 91 {
        lemma_pow2_monotone(92, top);
        lemma_pow2_adds(64, 28);
        assert(pow2(92) == 0x1_0000_0000_0000_0000nat * 0x1000_0000nat);
        assert(quotient <= scaled) by (nonlinear_arith)
            requires
                quotient == scaled / q,
                q >= 1,
                scaled >= 0,
        ;
        assert(false) by (nonlinear_arith)
            requires
                pow2(top) >= 0x1_0000_0000_0000_0000nat * 0x1000_0000nat,
                pow2(top) <= quotient,
                quotient <= scaled,
                scaled == p * 0x100_0000_0000,
                p < 0x10_0000_0000_0000,
        ;
    }
    let drop = dropped_bits(p, q, e);
    assert(1 <= drop <= 91);
    let power = pow2(drop as nat);
    lemma_pow2_pos(drop as nat);
    assert(q * power > 0) by (nonlinear_arith)
        requires
            q > 0,
            power > 0,
    ;
    lemma_kept_is_short(scaled, q, top, drop as nat);
    if drop == top - 23 {
        lemma_div_denominator(scaled as int, q as int, power as int);
        lemma_pow2_adds(drop as nat, 23);
        assert(pow2(top) == power * 0x80_0000);
        assert(quotient / power >= 0x80_0000) by (nonlinear_arith)
            requires
                quotient >= power * 0x80_0000,
                power > 0,
        ;
    }
}

/// The bit pattern of `(p / q) * 2^e`, rounded to single precision, with
/// the given sign.
pub fn round_to_single(negative: bool, p: u128, q: u128, e: i32) -> (bits: u32)
    requires
        p < 0x10_0000_0000_0000,
        0 < q < 0x1_0000,
        -200 <= e <= 200,
    ensures
        bits == rounded(negative, p as nat, q as nat, e as int),
{
    if p == 0 {
        return pack_bits(negative, 0, 0);
    }
    proof {
        lemma2_to64();
    }
    let scaled: u128 = p * 0x100_0000_0000;
    let quotient: u128 = scaled / q;
    assert(quotient >= 0x100_0000) by (nonlinear_arith)
        requires
            quotient == scaled / q,
            scaled >= 0x100_0000_0000,
            0 < q < 0x1_0000,
    ;
    let top: u32 = log2_floor(quotient);
    proof {
        lemma_floor_log2(quotient as nat);
        if top < 24 {
            lemma_pow2_unfold((top + 1) as nat);
            lemma_pow2_monotone((top + 1) as nat, 24);
        }
        if top > 91 {
            lemma_pow2_monotone(92, top as nat);
            lemma2_to64_rest();
            lemma_pow2_adds(64, 28);
            assert(pow2(92) == 0x1_0000_0000_0000_0000nat * 0x1000_0000nat);
            assert(false) by (nonlinear_arith)
                requires
                    pow2(top as nat) >= 0x1_0000_0000_0000_0000nat * 0x1000_0000nat,
                    pow2(top as nat) <= quotient,
                    quotient <= scaled,
                    scaled == p * 0x100_0000_0000,
                    p < 0x10_0000_0000_0000,
            ;
        }
    }
    let drop: i32 = if top as i32 - 23 >= -109 - e {
        top as i32 - 23
    } else {
        -109 - e
    };
    assert(1 <= drop <= 91);
    let power: u128 = power_of_two(drop as u32);
    proof {
        lemma_pow2_monotone(drop as nat, 91);
        lemma2_to64_rest();
        lemma_pow2_adds(64, 27);
        assert(pow2(91) == 0x1_0000_0000_0000_0000nat * 0x800_0000nat);
        assert(q * power <= 0xffff * (0x1_0000_0000_0000_0000nat * 0x800_0000nat)) by (nonlinear_arith)
            requires
                q <= 0xffff,
                power <= 0x1_0000_0000_0000_0000nat * 0x800_0000nat,
        ;
        lemma_pow2_pos(drop as nat);
        assert(q * power > 0) by (nonlinear_arith)
            requires
                q > 0,
                power > 0,
        ;
        lemma_kept_is_short(scaled as nat, q as nat, top as nat, drop as nat);
    }
    let unit: u128 = q * power;
    let kept: u128 = scaled / unit;
    let rest: u128 = scaled % unit;
    let rounded_up: u128 = if 2 * rest > unit || (2 * rest == unit && kept % 2 == 1) {
        kept + 1
    } else {
        kept
    };
    assert(rounded_up == round_ratio(scaled as nat, (q as nat) * pow2(drop as nat)));
    assert(scaled as nat == (p as nat) * pow2(40));
    assert(drop == dropped_bits(p as nat, q as nat, e as int));
    encode_bits(negative, rounded_up, e - 40 + drop)
}

} // verus!
