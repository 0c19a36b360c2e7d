//! The order of 32-bit floats, read off their bits.

use vstd::prelude::*;

verus! {

/// The bits of infinity.
pub const INFINITY: u32 = 0x7f80_0000;

/// The sign bit.
pub const SIGN: u32 = 0x8000_0000;

/// Whether the bits are those of no number.
pub open spec fn is_nan(bits: u32) -> bool {
    (INFINITY < bits && bits < SIGN) || bits > SIGN + INFINITY
}

/// The place of a number among the others: both zeros are in the same place.
pub open spec fn place(bits: u32) -> int {
    if bits < SIGN {
        bits as int
    } else {
        SIGN - bits
    }
}

fn place_of(bits: u32) -> (r: i64)
    ensures
        r == place(bits),
{
    if bits < SIGN {
        bits as i64
    } else {
        SIGN as i64 - bits as i64
    }
}

/// Whether the bits are those of no number.
pub fn check_nan(bits: u32) -> (r: bool)
    ensures
        r == is_nan(bits),
{
    (INFINITY < bits && bits < SIGN) || bits > SIGN + INFINITY
}

/// Whether one number is less than another; what is no number is never less or greater.
pub open spec fn float_lt(a: u32, b: u32) -> bool {
    !is_nan(a) && !is_nan(b) && place(a) < place(b)
}

/// Whether one number is less than another.
pub fn float_before(a: u32, b: u32) -> (r: bool)
    ensures
        r == float_lt(a, b),
{
    !check_nan(a) && !check_nan(b) && place_of(a) < place_of(b)
}

/// The greater of two numbers; what is no number gives way to the other.
pub open spec fn float_max(a: u32, b: u32) -> u32 {
    if is_nan(a) {
        b
    } else if float_lt(a, b) {
        b
    } else {
        a
    }
}

/// The greater of two numbers.
pub fn greater_float(a: u32, b: u32) -> (r: u32)
    ensures
        r == float_max(a, b),
{
    if check_nan(a) || float_before(a, b) {
        b
    } else {
        a
    }
}

/// Whether the bits are those of a finite number.
pub open spec fn is_finite(bits: u32) -> bool {
    bits < INFINITY || (SIGN <= bits && bits < SIGN + INFINITY)
}

fn check_finite(bits: u32) -> (r: bool)
    ensures
        r == is_finite(bits),
{
    bits < INFINITY || (SIGN <= bits && bits < SIGN + INFINITY)
}

/// Whether two numbers are the same where they are written: both zeros are, and so is all that is
/// not finite, which is written as nothing.
pub open spec fn float_same(a: u32, b: u32) -> bool {
    if is_finite(a) && is_finite(b) {
        place(a) == place(b)
    } else {
        !is_finite(a) && !is_finite(b)
    }
}

/// Whether two numbers are the same where they are written.
pub fn same_float(a: u32, b: u32) -> (r: bool)
    ensures
        r == float_same(a, b),
{
    if check_finite(a) && check_finite(b) {
        place_of(a) == place_of(b)
    } else {
        !check_finite(a) && !check_finite(b)
    }
}

/// Whether a number is greater than zero.
pub open spec fn is_positive(bits: u32) -> bool {
    0 < bits && bits <= INFINITY
}

/// Being positive is being greater than zero.
pub proof fn positive_is_above_zero(bits: u32)
    ensures
        is_positive(bits) == float_lt(0, bits),
{
}

/// No number is less than itself, and of two numbers at most one is less.
pub proof fn float_order_is_asymmetric(a: u32, b: u32)
    ensures
        !float_lt(a, a),
        float_lt(a, b) ==> !float_lt(b, a),
{
}

} // verus!
