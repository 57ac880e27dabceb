//! Doubles by their bit patterns: finiteness and order, in integers.

use vstd::prelude::*;

verus! {

/// The weight of the lowest exponent bit.
pub const EXPONENT_UNIT: u64 = 0x0010_0000_0000_0000;

/// The sign bit.
pub const SIGN_BIT: u64 = 0x8000_0000_0000_0000;

/// The double is neither infinite nor a NaN: its exponent bits are not all set.
pub open spec fn is_finite(bits: u64) -> bool {
    (bits / EXPONENT_UNIT) % 2048 != 2047
}

/// A number that orders finite doubles as their values do: the magnitude bits with the sign. Both
/// zeros have the same one.
pub open spec fn order_key(bits: u64) -> int {
    if bits < SIGN_BIT {
        bits as int
    } else {
        SIGN_BIT - bits
    }
}

/// Whether the double is neither infinite nor a NaN.
pub fn finite(bits: u64) -> (r: bool)
    ensures
        r == is_finite(bits),
{
    (bits / EXPONENT_UNIT) % 2048 != 2047
}

/// Whether one finite double is less than another.
pub fn less(a: u64, b: u64) -> (r: bool)
    ensures
        r == (order_key(a) < order_key(b)),
{
    if a < SIGN_BIT {
        if b < SIGN_BIT {
            a < b
        } else {
            false
        }
    } else if b < SIGN_BIT {
        a > SIGN_BIT || b > 0
    } else {
        a > b
    }
}

} // verus!
