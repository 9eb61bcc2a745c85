//! IEEE 754 single precision numbers, carried as their bits.
//!
//! Nothing is computed with them here: they are told apart, ordered and kept
//! within bounds, which their bits alone decide.

use vstd::prelude::*;

verus! {

/// The bits of the sign.
pub const SIGN: u32 = 0x8000_0000;

/// The bits of infinity; what lies above it, without the sign, is no number.
pub const INFINITY: u32 = 0x7f80_0000;

/// The bits of one.
pub const ONE: u32 = 0x3f80_0000;

/// The bits of one half.
pub const HALF: u32 = 0x3f00_0000;

/// The bits without the sign.
pub open spec fn magnitude(bits: u32) -> int {
    if bits < SIGN {
        bits as int
    } else {
        bits - SIGN
    }
}

pub open spec fn is_nan(bits: u32) -> bool {
    magnitude(bits) > INFINITY
}

/// An integer that stands for the number: of two numbers the larger one has
/// the larger integer, and both zeros have zero.
pub open spec fn value(bits: u32) -> int {
    if bits < SIGN {
        magnitude(bits)
    } else {
        -magnitude(bits)
    }
}

fn value_i64(bits: u32) -> (r: i64)
    ensures
        r == value(bits),
{
    if bits < SIGN {
        bits as i64
    } else {
        -((bits - SIGN) as i64)
    }
}

/// Not a number.
pub fn nan(bits: u32) -> (r: bool)
    ensures
        r == is_nan(bits),
{
    if bits < SIGN {
        bits > INFINITY
    } else {
        bits - SIGN > INFINITY
    }
}

/// `==`: equal as numbers; what is no number equals nothing.
pub open spec fn equals(a: u32, b: u32) -> bool {
    !is_nan(a) && !is_nan(b) && value(a) == value(b)
}

/// `==` on two numbers.
pub fn equal(a: u32, b: u32) -> (r: bool)
    ensures
        r == equals(a, b),
{
    !nan(a) && !nan(b) && value_i64(a) == value_i64(b)
}

/// `<`: smaller as numbers; what is no number is smaller than nothing.
pub open spec fn below(a: u32, b: u32) -> bool {
    !is_nan(a) && !is_nan(b) && value(a) < value(b)
}

/// `<` on two numbers.
pub fn less(a: u32, b: u32) -> (r: bool)
    ensures
        r == below(a, b),
{
    !nan(a) && !nan(b) && value_i64(a) < value_i64(b)
}

/// The number lies between two bounds, both of them included.
pub open spec fn within(bits: u32, low: u32, high: u32) -> bool {
    !is_nan(bits) && !is_nan(low) && !is_nan(high) && value(low) <= value(bits) <= value(high)
}

/// `(low..=high).contains`.
pub fn contained(bits: u32, low: u32, high: u32) -> (r: bool)
    ensures
        r == within(bits, low, high),
{
    !nan(bits) && !nan(low) && !nan(high) && value_i64(low) <= value_i64(bits) && value_i64(bits)
        <= value_i64(high)
}

/// The number, no smaller than zero and no larger than one.
pub open spec fn unit(bits: u32) -> u32 {
    if is_nan(bits) {
        bits
    } else if value(bits) < 0 {
        0
    } else if value(bits) > ONE {
        ONE
    } else {
        bits
    }
}

/// `clamp` to zero and one.
pub fn clamp_unit(bits: u32) -> (r: u32)
    ensures
        r == unit(bits),
{
    if nan(bits) {
        bits
    } else if value_i64(bits) < 0 {
        0
    } else if value_i64(bits) > ONE as i64 {
        ONE
    } else {
        bits
    }
}

/// What is kept within zero and one lies there, and what lies there is kept.
pub proof fn law_unit(bits: u32)
    ensures
        !is_nan(bits) ==> within(unit(bits), 0, ONE),
        within(bits, 0, ONE) ==> unit(bits) == bits,
        unit(unit(bits)) == unit(bits),
{
}

/// The larger of two numbers; where one is none, the other.
pub open spec fn larger(a: u32, b: u32) -> u32 {
    if is_nan(b) || (!is_nan(a) && value(b) <= value(a)) {
        a
    } else {
        b
    }
}

/// `max`. Of two zeros it gives the first.
pub fn max(a: u32, b: u32) -> (r: u32)
    ensures
        r == larger(a, b),
{
    if nan(b) || (!nan(a) && value_i64(b) <= value_i64(a)) {
        a
    } else {
        b
    }
}

/// The place of the bits in the total order: negative before positive, zero
/// below zero before zero, and what is no number at both ends.
pub open spec fn rank(bits: u32) -> int {
    if bits < SIGN {
        SIGN + bits
    } else {
        u32::MAX - bits
    }
}

/// The place of the bits in the order of `total_cmp`.
pub fn total_rank(bits: u32) -> (r: u64)
    ensures
        r == rank(bits),
{
    if bits < SIGN {
        SIGN as u64 + bits as u64
    } else {
        (u32::MAX - bits) as u64
    }
}

/// The total order tells all bits apart, and orders numbers by their value.
pub proof fn law_total_order(a: u32, b: u32)
    ensures
        rank(a) == rank(b) <==> a == b,
        !is_nan(a) && !is_nan(b) && value(a) < value(b) ==> rank(a) < rank(b),
{
}

/// The larger of two numbers is one of them and not below the other; a value
/// that is no number gives way to one that is.
pub proof fn law_larger(a: u32, b: u32)
    ensures
        larger(a, b) == a || larger(a, b) == b,
        !below(larger(a, b), a) && !below(larger(a, b), b),
        is_nan(a) && !is_nan(b) ==> larger(a, b) == b,
        is_nan(b) ==> larger(a, b) == a,
{
}

/// Of two numbers one is below the other or they are equal, and never both;
/// what is no number is neither below nor equal to anything.
pub proof fn law_order_of_numbers(a: u32, b: u32)
    ensures
        !is_nan(a) && !is_nan(b) ==> below(a, b) || below(b, a) || equals(a, b),
        !(below(a, b) && below(b, a)),
        !(below(a, b) && equals(a, b)),
        is_nan(a) ==> !below(a, b) && !below(b, a) && !equals(a, b) && !equals(b, a),
        equals(0, SIGN),
        below(0, HALF) && below(HALF, ONE) && below(ONE, INFINITY),
        !is_nan(a) && a < SIGN && a > 0 ==> below(0, a),
        !is_nan(a) && a > SIGN ==> below(a, 0),
{
}

} // verus!
