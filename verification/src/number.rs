//! Numbers as IEEE 754 binary64 bit patterns, and what can be decided on the
//! pattern alone: which patterns are NaN, which are equal as numbers, and
//! which come first.
use vstd::prelude::*;

verus! {

/// The sign bit.
pub const SIGN: u64 = 0x8000_0000_0000_0000;

/// Positive infinity: every exponent bit set and an empty fraction.
pub const INFINITY: u64 = 0x7ff0_0000_0000_0000;

/// The quiet NaN that stands in for an operand that is not a number.
pub const NAN: u64 = 0x7ff8_0000_0000_0000;

/// The pattern without its sign bit.
pub open spec fn magnitude(bits: u64) -> u64 {
    if bits >= SIGN {
        (bits - SIGN) as u64
    } else {
        bits
    }
}

/// Whether the sign bit is set.
pub open spec fn is_negative(bits: u64) -> bool {
    bits >= SIGN
}

/// Whether the pattern is a NaN: every exponent bit set and a fraction that
/// is not empty.
pub open spec fn is_nan(bits: u64) -> bool {
    magnitude(bits) > INFINITY
}

/// Equality of two numbers: a NaN equals nothing, not even itself, the two
/// zeros are equal, and otherwise the patterns have to agree.
pub open spec fn equal(a: u64, b: u64) -> bool {
    !is_nan(a) && !is_nan(b) && (a == b || (magnitude(a) == 0 && magnitude(b) == 0))
}

/// Whether `a` comes strictly before `b`: never with a NaN on either side;
/// among numbers of one sign the magnitudes decide, and a negative number
/// comes before a positive one unless both are zero.
pub open spec fn less(a: u64, b: u64) -> bool {
    !is_nan(a) && !is_nan(b) && if is_negative(a) {
        if is_negative(b) {
            magnitude(a) > magnitude(b)
        } else {
            magnitude(a) > 0 || magnitude(b) > 0
        }
    } else {
        !is_negative(b) && magnitude(a) < magnitude(b)
    }
}

/// Whether `a` comes before `b` or equals it.
pub open spec fn less_or_equal(a: u64, b: u64) -> bool {
    less(a, b) || equal(a, b)
}

/// Strips the sign bit from a pattern.
pub fn magnitude_of(bits: u64) -> (r: u64)
    ensures
        r == magnitude(bits),
{
    if bits >= SIGN {
        bits - SIGN
    } else {
        bits
    }
}

/// Tells whether a pattern is a NaN.
pub fn is_not_a_number(bits: u64) -> (r: bool)
    ensures
        r == is_nan(bits),
{
    magnitude_of(bits) > INFINITY
}

/// Compares two patterns as numbers for equality.
pub fn numbers_equal(a: u64, b: u64) -> (r: bool)
    ensures
        r == equal(a, b),
{
    !is_not_a_number(a) && !is_not_a_number(b) && (a == b || (magnitude_of(a) == 0 && magnitude_of(
        b,
    ) == 0))
}

/// Tells whether the number `a` is strictly less than the number `b`.
pub fn number_less(a: u64, b: u64) -> (r: bool)
    ensures
        r == less(a, b),
{
    if is_not_a_number(a) || is_not_a_number(b) {
        false
    } else if a >= SIGN {
        if b >= SIGN {
            magnitude_of(a) > magnitude_of(b)
        } else {
            magnitude_of(a) > 0 || magnitude_of(b) > 0
        }
    } else {
        b < SIGN && magnitude_of(a) < magnitude_of(b)
    }
}

/// Tells whether the number `a` is less than or equal to the number `b`.
pub fn number_less_or_equal(a: u64, b: u64) -> (r: bool)
    ensures
        r == less_or_equal(a, b),
{
    number_less(a, b) || numbers_equal(a, b)
}

/// The stand-in for operands that are not numbers is itself a NaN.
pub proof fn lemma_nan_is_nan()
    ensures
        is_nan(NAN),
{
}

} // verus!
