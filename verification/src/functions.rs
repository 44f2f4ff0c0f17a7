//! Simple arithmetic helpers: rectangle area, box volume, and a lucky-number
//! check.

use vstd::prelude::*;

verus! {

/// The one value that `match_found` recognises.
pub const MATCH_TARGET: i32 = 13;

/// Area of a rectangle of sides `x` and `y`.
pub fn area_of(x: i32, y: i32) -> (r: i32)
    requires
        i32::MIN <= x * y <= i32::MAX,
    ensures
        r == x * y,
{
    x * y
}

/// Volume of a box of sides `x`, `y` and `z`.
pub fn volume(x: i32, y: i32, z: i32) -> (r: i32)
    requires
        i32::MIN <= x * y <= i32::MAX,
        i32::MIN <= x * y * z <= i32::MAX,
    ensures
        r == x * y * z,
{
    x * y * z
}

/// Whether `x` is the fixed target value.
pub fn match_found(x: i32) -> (r: bool)
    ensures
        r == (x == MATCH_TARGET),
{
    x == MATCH_TARGET
}

} // verus!
