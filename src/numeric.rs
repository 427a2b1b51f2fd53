//! Clamping conversions between the signed and unsigned pixel coordinate spaces.
use vstd::prelude::*;

verus! {

/// The value of `x` clamped into the range of `u32`.
pub open spec fn clamp_to_u32(x: int) -> int {
    if x < 0 {
        0
    } else if x > u32::MAX {
        u32::MAX as int
    } else {
        x
    }
}

/// The value of `x` clamped into the range of `i32`.
pub open spec fn clamp_to_i32(x: int) -> int {
    if x < i32::MIN {
        i32::MIN as int
    } else if x > i32::MAX {
        i32::MAX as int
    } else {
        x
    }
}

/// Converts an `i32` to a `u32`: negative values become 0, others pass through.
pub fn i32_to_u32(x: i32) -> (r: u32)
    ensures
        r == clamp_to_u32(x as int),
        x >= 0 ==> r == x,
        x < 0 ==> r == 0,
{
    if x < 0 {
        0
    } else {
        x as u32
    }
}

/// Converts a `u32` to an `i32`: values above `i32::MAX` become `i32::MAX`.
pub fn u32_to_i32(x: u32) -> (r: i32)
    ensures
        r == clamp_to_i32(x as int),
        x <= i32::MAX ==> r == x,
        x > i32::MAX ==> r == i32::MAX,
{
    if x > i32::MAX as u32 {
        i32::MAX
    } else {
        x as i32
    }
}

} // verus!
