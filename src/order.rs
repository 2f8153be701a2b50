use vstd::prelude::*;

verus! {

/// Bit pattern of the sign bit of an IEEE-754 single-precision number.
pub const SIGN_BIT: u32 = 0x8000_0000;

/// Bit pattern of positive infinity; a larger magnitude is a NaN.
pub const INFINITY_BITS: u32 = 0x7f80_0000;

/// The single-precision number with bit pattern `bits` is a NaN: its
/// exponent is all ones and its fraction is not zero, whatever its sign.
pub open spec fn nan_bits(bits: u32) -> bool {
    bits % SIGN_BIT > INFINITY_BITS
}

/// Says whether the single-precision number with bit pattern `bits` is a NaN.
pub fn is_nan(bits: u32) -> (r: bool)
    ensures
        r == nan_bits(bits),
{
    bits % SIGN_BIT > INFINITY_BITS
}

/// The order key of the single-precision number with bit pattern `bits`:
/// the signed magnitude of its bit layout, so that both zeros share the key 0.
pub open spec fn key_of(bits: u32) -> int {
    if bits >= SIGN_BIT {
        -((bits - SIGN_BIT) as int)
    } else {
        bits as int
    }
}

/// Maps the bit pattern of a single-precision number to an integer key.
///
/// For two numbers that are not NaN, `a < b` exactly when the key of `a` is
/// below the key of `b`, and `a == b` exactly when their keys are equal: the
/// IEEE-754 layout stores the magnitude in the low 31 bits in increasing
/// order, and the sign in the top bit. Keys let distances and roots be
/// compared with integers.
pub fn order_key(bits: u32) -> (k: i64)
    ensures
        k == key_of(bits),
{
    if bits >= SIGN_BIT {
        -((bits - SIGN_BIT) as i64)
    } else {
        bits as i64
    }
}

} // verus!
