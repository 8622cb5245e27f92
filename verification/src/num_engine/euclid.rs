//! Euclidean division and remainder by a positive divisor.

use vstd::prelude::*;

verus! {

/// Floor division of `a` by a positive `b`.
pub fn div_euclid_i32(a: i32, b: i32) -> (q: i32)
    requires
        b > 0,
    ensures
        q == a as int / b as int,
{
    match a.checked_div_euclid(b) {
        Some(q) => q,
        None => {
            assert(false) by (nonlinear_arith)
                requires
                    b > 0,
                    !(i32::MIN <= a as int / b as int <= i32::MAX),
            ;
            0
        },
    }
}

/// Remainder of the floor division of `a` by a positive `b`, in `[0, b)`.
pub fn rem_euclid_i32(a: i32, b: i32) -> (r: i32)
    requires
        b > 0,
    ensures
        r == a as int % b as int,
        0 <= r < b,
{
    match a.checked_rem_euclid(b) {
        Some(r) => r,
        None => 0,
    }
}

} // verus!
