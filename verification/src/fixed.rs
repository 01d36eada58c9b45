//! The number format shared by the whole engine.
//!
//! An integer `v` stands for the real number `v / 2^32`. A phase is a `u32`,
//! so that it ranges over `[0, 1)`; everything else is an `i64`, with
//! intermediate products taken in `i128`.

use vstd::prelude::*;

verus! {

/// The number 1.
pub const ONE: i64 = 0x1_0000_0000;

/// The number 1/2.
pub const HALF: i64 = 0x8000_0000;

/// The number 1/4.
pub const QUARTER: i64 = 0x4000_0000;

/// `x` limited to the interval from `lo` to `hi`.
pub open spec fn clamp(x: int, lo: int, hi: int) -> int {
    if x < lo {
        lo
    } else if x > hi {
        hi
    } else {
        x
    }
}

/// The product of two fixed-point numbers, rounded down to the next
/// representable number.
pub open spec fn scaled(a: int, b: int) -> int {
    (a * b) / (ONE as int)
}

/// `x` limited to what an `i64` holds.
pub open spec fn saturated(x: int) -> int {
    clamp(x, i64::MIN as int, i64::MAX as int)
}

/// Multiplies two fixed-point numbers. The result is exact up to rounding
/// down and is returned in `i128`, where it always fits.
pub fn multiply(a: i64, b: i64) -> (r: i128)
    ensures
        r == scaled(a as int, b as int),
        -0x8000_0000_0000_0000_0000_0000 <= r <= 0x8000_0000_0000_0000_0000_0000,
{
    assert(-0x4000_0000_0000_0000_0000_0000_0000_0000 <= a * b
        <= 0x4000_0000_0000_0000_0000_0000_0000_0000) by (nonlinear_arith)
        requires
            -0x8000_0000_0000_0000 <= a <= 0x8000_0000_0000_0000,
            -0x8000_0000_0000_0000 <= b <= 0x8000_0000_0000_0000,
    ;
    let wide: i128 = (a as i128) * (b as i128);
    let quotient: i128 = wide / 0x1_0000_0000;
    let remainder: i128 = wide % 0x1_0000_0000;
    if remainder < 0 {
        quotient - 1
    } else {
        quotient
    }
}

/// Limits a wide value to the interval from `lo` to `hi`.
pub fn clamp_to(x: i128, lo: i64, hi: i64) -> (r: i64)
    requires
        lo <= hi,
    ensures
        r == clamp(x as int, lo as int, hi as int),
{
    if x < lo as i128 {
        lo
    } else if x > hi as i128 {
        hi
    } else {
        x as i64
    }
}

/// Narrows a wide value to `i64`, keeping the nearest bound where it does
/// not fit.
pub fn saturate(x: i128) -> (r: i64)
    ensures
        r == saturated(x as int),
{
    clamp_to(x, i64::MIN, i64::MAX)
}

} // verus!
