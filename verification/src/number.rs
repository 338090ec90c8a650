//! Doubles as the verified code sees them: the 64 bits of their IEEE 754
//! encoding. Comparison, equality, negation and the test for zero are
//! decided on the bits. Arithmetic, and conversion from and to text, are
//! left to the host of the interpreter.

use vstd::prelude::*;

verus! {

/// The bit that holds the sign.
pub const SIGN_BIT: u64 = 0x8000_0000_0000_0000;

/// The encoding of positive infinity. A larger magnitude is not a number.
pub const INFINITY_BITS: u64 = 0x7ff0_0000_0000_0000;

/// The encoding without its sign.
pub open spec fn magnitude(bits: u64) -> u64 {
    if bits >= SIGN_BIT {
        (bits - SIGN_BIT) as u64
    } else {
        bits
    }
}

/// Whether `bits` encodes no number at all.
pub open spec fn ieee_nan(bits: u64) -> bool {
    magnitude(bits) > INFINITY_BITS
}

/// Whether `bits` encodes zero, of either sign.
pub open spec fn ieee_zero(bits: u64) -> bool {
    magnitude(bits) == 0
}

/// An integer that orders the doubles which are numbers as their values
/// do: both zeros are 0, a positive double is its magnitude, a negative
/// one the opposite of its magnitude.
pub open spec fn order_key(bits: u64) -> int {
    if bits >= SIGN_BIT {
        -(magnitude(bits) as int)
    } else {
        bits as int
    }
}

/// Equality of doubles: nothing equals what is not a number, the two zeros
/// are equal, and otherwise equal doubles have equal encodings.
pub open spec fn ieee_equal(a: u64, b: u64) -> bool {
    !ieee_nan(a) && !ieee_nan(b) && order_key(a) == order_key(b)
}

/// `a < b` on doubles; false when either is not a number.
pub open spec fn ieee_less(a: u64, b: u64) -> bool {
    !ieee_nan(a) && !ieee_nan(b) && order_key(a) < order_key(b)
}

/// `a <= b` on doubles; false when either is not a number.
pub open spec fn ieee_less_equal(a: u64, b: u64) -> bool {
    !ieee_nan(a) && !ieee_nan(b) && order_key(a) <= order_key(b)
}

/// The double of opposite sign.
pub open spec fn ieee_negated(bits: u64) -> u64 {
    if bits >= SIGN_BIT {
        (bits - SIGN_BIT) as u64
    } else {
        (bits + SIGN_BIT) as u64
    }
}

fn magnitude_of(bits: u64) -> (r: u64)
    ensures
        r == magnitude(bits),
        r < SIGN_BIT,
{
    if bits >= SIGN_BIT {
        bits - SIGN_BIT
    } else {
        bits
    }
}

/// Whether `bits` encodes no number at all.
pub fn is_nan(bits: u64) -> (r: bool)
    ensures
        r == ieee_nan(bits),
{
    magnitude_of(bits) > INFINITY_BITS
}

/// Whether `bits` encodes zero, of either sign.
pub fn is_zero(bits: u64) -> (r: bool)
    ensures
        r == ieee_zero(bits),
{
    magnitude_of(bits) == 0
}

/// Equality of two doubles.
pub fn equal(a: u64, b: u64) -> (r: bool)
    ensures
        r == ieee_equal(a, b),
{
    if is_nan(a) || is_nan(b) {
        false
    } else if is_zero(a) {
        is_zero(b)
    } else {
        a == b
    }
}

/// `a < b` on two doubles.
pub fn less(a: u64, b: u64) -> (r: bool)
    ensures
        r == ieee_less(a, b),
{
    if is_nan(a) || is_nan(b) {
        return false;
    }
    let ma: u64 = magnitude_of(a);
    let mb: u64 = magnitude_of(b);
    if a >= SIGN_BIT {
        if b >= SIGN_BIT {
            ma > mb
        } else {
            ma > 0 || mb > 0
        }
    } else {
        if b >= SIGN_BIT {
            false
        } else {
            ma < mb
        }
    }
}

/// `a <= b` on two doubles.
pub fn less_equal(a: u64, b: u64) -> (r: bool)
    ensures
        r == ieee_less_equal(a, b),
{
    if is_nan(a) || is_nan(b) {
        false
    } else {
        less(a, b) || equal(a, b)
    }
}

/// The double of opposite sign.
pub fn negate(bits: u64) -> (r: u64)
    ensures
        r == ieee_negated(bits),
{
    if bits >= SIGN_BIT {
        bits - SIGN_BIT
    } else {
        bits + SIGN_BIT
    }
}

/// Negating twice gives the double back.
pub proof fn negation_is_an_involution(bits: u64)
    ensures
        ieee_negated(ieee_negated(bits)) == bits,
{
}

/// On doubles that are numbers, `<=` is `<` or `==`, and exactly one of
/// `a < b`, `a == b`, `b < a` holds.
pub proof fn order_is_total(a: u64, b: u64)
    requires
        !ieee_nan(a),
        !ieee_nan(b),
    ensures
        ieee_less_equal(a, b) == (ieee_less(a, b) || ieee_equal(a, b)),
        ieee_less(a, b) || ieee_equal(a, b) || ieee_less(b, a),
        !(ieee_less(a, b) && ieee_equal(a, b)),
        !(ieee_less(a, b) && ieee_less(b, a)),
{
}

} // verus!
