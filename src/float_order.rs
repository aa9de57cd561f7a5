//! Ordering of IEEE 754 binary64 values given by their bit patterns.
use vstd::prelude::*;

verus! {

/// The sign bit of a binary64 pattern.
pub const SIGN_BIT: u64 = 0x8000_0000_0000_0000;

/// The pattern of positive infinity: every larger magnitude is a NaN.
pub const INFINITY_BITS: u64 = 0x7FF0_0000_0000_0000;

/// Whether the sign bit of `b` is set.
pub open spec fn f64_negative(b: u64) -> bool {
    b >= SIGN_BIT
}

/// Exponent and fraction bits of `b`: magnitudes are ordered as these integers.
pub open spec fn f64_magnitude(b: u64) -> int {
    (b % SIGN_BIT) as int
}

/// Whether `b` is a NaN pattern.
pub open spec fn f64_is_nan(b: u64) -> bool {
    f64_magnitude(b) > INFINITY_BITS
}

/// Position of a non-NaN value on the extended real line; both zeros sit at 0.
pub open spec fn f64_rank(b: u64) -> int {
    if f64_negative(b) {
        -f64_magnitude(b)
    } else {
        f64_magnitude(b)
    }
}

/// `a < b` between binary64 values: false whenever either one is a NaN.
pub open spec fn f64_lt(a: u64, b: u64) -> bool {
    !f64_is_nan(a) && !f64_is_nan(b) && f64_rank(a) < f64_rank(b)
}

/// The binary64 comparison `a < b`, on bit patterns.
pub fn f64_less(a: u64, b: u64) -> (r: bool)
    ensures
        r == f64_lt(a, b),
{
    let ma = a % SIGN_BIT;
    let mb = b % SIGN_BIT;
    if ma > INFINITY_BITS || mb > INFINITY_BITS {
        return false;
    }
    let na = a >= SIGN_BIT;
    let nb = b >= SIGN_BIT;
    if !na && !nb {
        ma < mb
    } else if na && nb {
        mb < ma
    } else if na {
        !(ma == 0 && mb == 0)
    } else {
        false
    }
}

} // verus!
