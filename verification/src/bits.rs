//! Single-precision numbers by their bits. The state keeps such numbers as it
//! received them; these are the few questions that its rules ask of them.

use vstd::prelude::*;

verus! {

/// The bits of 1.0.
pub const ONE: u32 = 0x3f80_0000;

/// The bits of positive infinity; larger magnitudes are not numbers.
pub const INFINITY: u32 = 0x7f80_0000;

/// The bits of negative zero; from here on the sign is set.
pub const NEGATIVE_ZERO: u32 = 0x8000_0000;

/// The bits without the sign.
pub open spec fn magnitude(bits: u32) -> int {
    if bits >= NEGATIVE_ZERO {
        bits - NEGATIVE_ZERO
    } else {
        bits as int
    }
}

pub open spec fn is_number(bits: u32) -> bool {
    magnitude(bits) <= INFINITY
}

/// Numbers compare as these integers do: both zeros are 0, and a set sign
/// turns the order of the magnitudes round.
pub open spec fn rank(bits: u32) -> int {
    if bits >= NEGATIVE_ZERO {
        -magnitude(bits)
    } else {
        magnitude(bits)
    }
}

pub open spec fn less(a: u32, b: u32) -> bool {
    is_number(a) && is_number(b) && rank(a) < rank(b)
}

fn rank_of(bits: u32) -> (r: i64)
    ensures
        r == rank(bits),
{
    if bits >= NEGATIVE_ZERO {
        -((bits - NEGATIVE_ZERO) as i64)
    } else {
        bits as i64
    }
}

fn number(bits: u32) -> (r: bool)
    ensures
        r == is_number(bits),
{
    if bits >= NEGATIVE_ZERO {
        bits - NEGATIVE_ZERO <= INFINITY
    } else {
        bits <= INFINITY
    }
}

/// Whether the first number is the smaller one.
pub fn is_less(a: u32, b: u32) -> (r: bool)
    ensures
        r == less(a, b),
{
    number(a) && number(b) && rank_of(a) < rank_of(b)
}

pub open spec fn at_most(a: u32, b: u32) -> bool {
    is_number(a) && is_number(b) && rank(a) <= rank(b)
}

/// Whether the first number is not the larger one; false where one of them is
/// no number.
pub fn is_at_most(a: u32, b: u32) -> (r: bool)
    ensures
        r == at_most(a, b),
{
    number(a) && number(b) && rank_of(a) <= rank_of(b)
}

/// A number brought into the range from 0 to 1; what is no number stays.
pub open spec fn unit_clamped(bits: u32) -> u32 {
    if less(bits, 0) {
        0
    } else if less(ONE, bits) {
        ONE
    } else {
        bits
    }
}

pub fn clamp_unit(bits: u32) -> (r: u32)
    ensures
        r == unit_clamped(bits),
{
    if is_less(bits, 0) {
        0
    } else if is_less(ONE, bits) {
        ONE
    } else {
        bits
    }
}

/// Clamping into the unit range gives a number of that range, and clamping it
/// again changes nothing.
pub proof fn clamping_settles(bits: u32)
    requires
        is_number(bits),
    ensures
        0 <= rank(unit_clamped(bits)) <= rank(ONE),
        unit_clamped(unit_clamped(bits)) == unit_clamped(bits),
{
}

/// Two to the power of a small number.
pub open spec fn power(n: int) -> int
    decreases n,
{
    if n <= 0 {
        1
    } else {
        2 * power(n - 1)
    }
}

/// The whole part of a number as a byte: 0 below 1 and for what is no number,
/// 255 from 255 on. Between them the 24 leading bits are shifted by the
/// exponent.
pub open spec fn whole_byte(bits: u32) -> u8 {
    if !is_number(bits) || less(bits, ONE) {
        0
    } else if bits >= 0x437f_0000 {
        255
    } else {
        let exponent = bits / 0x80_0000;
        ((0x80_0000 + bits % 0x80_0000) / power(150 - exponent)) as u8
    }
}

pub fn to_byte(bits: u32) -> (r: u8)
    ensures
        r == whole_byte(bits),
{
    if !number(bits) || is_less(bits, ONE) {
        return 0;
    }
    if bits >= 0x437f_0000 {
        return 255;
    }
    let exponent: u32 = bits / 0x80_0000;
    let significand: u32 = 0x80_0000 + bits % 0x80_0000;
    proof {
        reveal_with_fuel(power, 24);
    }
    let divisor: u32 = if exponent == 127 {
        0x80_0000
    } else if exponent == 128 {
        0x40_0000
    } else if exponent == 129 {
        0x20_0000
    } else if exponent == 130 {
        0x10_0000
    } else if exponent == 131 {
        0x8_0000
    } else if exponent == 132 {
        0x4_0000
    } else if exponent == 133 {
        0x2_0000
    } else {
        0x1_0000
    };
    (significand / divisor) as u8
}

/// Bringing a number into the range from 0 to 1 leaves those in it as they are, makes 1
/// of the larger ones and 0 of the negative ones. What is no number stays.
pub proof fn clamping_keeps_the_range(bits: u32)
    ensures
        bits <= 0x3f80_0000 ==> unit_clamped(bits) == bits,
        0x3f80_0000 < bits <= 0x7f80_0000 ==> unit_clamped(bits) == 0x3f80_0000u32,
        0x8000_0000 < bits <= 0xff80_0000 ==> unit_clamped(bits) == 0,
        bits == 0x8000_0000 ==> unit_clamped(bits) == bits,
        0x7f80_0000 < bits < 0x8000_0000 || 0xff80_0000 < bits ==> unit_clamped(bits) == bits,
{
}

/// Positive numbers compare as their bits, negative ones the other way round, every
/// negative one is below every positive one, and both zeros are equal. What is no
/// number compares with nothing.
pub proof fn numbers_compare_by_their_bits(a: u32, b: u32)
    ensures
        a <= 0x7f80_0000 && b <= 0x7f80_0000 ==> (less(a, b) <==> a < b) && (at_most(a, b) <==> a
            <= b),
        0x8000_0000 <= a <= 0xff80_0000 && 0x8000_0000 <= b <= 0xff80_0000 ==> (less(a, b) <==> a
            > b) && (at_most(a, b) <==> a >= b),
        0x8000_0000 < a <= 0xff80_0000 && b <= 0x7f80_0000 ==> less(a, b) && !at_most(b, a),
        !less(0x8000_0000, 0) && !less(0, 0x8000_0000) && at_most(0, 0x8000_0000),
        0x7f80_0000 < a < 0x8000_0000 || 0xff80_0000 < a ==> !less(a, b) && !less(b, a)
            && !at_most(a, b) && !at_most(b, a),
{
}

/// The whole part of a number is the largest whole number that is not above it: its
/// leading bits, measured by the value of a one at that exponent.
pub proof fn whole_parts_are_below(bits: u32, exponent: int, one: int)
    requires
        0x3f80_0000 <= bits < 0x437f_0000,
        exponent == bits as int / 0x80_0000,
        one == power(150 - exponent),
    ensures
        whole_byte(bits) * one <= 0x80_0000 + bits as int % 0x80_0000 < (whole_byte(bits) + 1)
            * one,
        power(0) == 1,
        power(150 - exponent) == 2 * power(149 - exponent),
{
    reveal_with_fuel(power, 25);
    assert(127 <= exponent <= 134);
    let leading = 0x80_0000 + bits as int % 0x80_0000;
    assert(one > 0);
    let whole = leading / one;
    assert(one * whole <= leading < one * whole + one) by (nonlinear_arith)
        requires
            whole == leading / one,
            one > 0,
    ;
    assert(whole <= 255) by {
        if exponent == 134 {
            assert(one == 0x1_0000);
        } else {
            assert(one >= 0x2_0000);
            assert(leading < 0x100_0000);
            assert(whole < 128) by (nonlinear_arith)
                requires
                    one * whole <= leading,
                    leading < 0x100_0000,
                    one >= 0x2_0000,
            ;
        }
    }
    assert(0 <= whole) by (nonlinear_arith)
        requires
            leading < one * whole + one,
            leading >= 0,
            one > 0,
    ;
    assert(whole_byte(bits) == whole);
    assert(whole * one == one * whole && (whole + 1) * one == one * whole + one)
        by (nonlinear_arith);
}

} // verus!
