//! Integer helpers.

use vstd::prelude::*;

verus! {

/// Absolute value of an `i32` as a `u32`.
pub fn abs(x: i32) -> (r: u32)
    requires
        x > i32::MIN,
    ensures
        r == (if x < 0 { -x } else { x as int }),
{
    if x < 0 {
        (-x) as u32
    } else {
        x as u32
    }
}

} // verus!
