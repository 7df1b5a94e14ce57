//! Integer helpers shared by the accounting rules.
//!
//! Prices and quantities are fixed-point numbers with six decimal places.
//! Money fields saturate instead of overflowing; every other calculation is
//! shown to stay within its type.

use vstd::prelude::*;

verus! {

/// One whole unit in the six-decimal fixed-point scale.
pub const SCALE: i128 = 1_000_000;

/// Basis points in one whole.
pub const BPS_DENOMINATOR: i128 = 10_000;

/// The magnitude of `x`.
pub open spec fn spec_abs(x: int) -> int {
    if x >= 0 {
        x
    } else {
        -x
    }
}

/// Division that rounds toward zero, for a positive divisor.
pub open spec fn trunc_div(a: int, b: int) -> int {
    if a >= 0 {
        a / b
    } else {
        -((-a) / b)
    }
}

/// `x` brought into the range of `i128`.
pub open spec fn clamp_i128(x: int) -> int {
    if x > i128::MAX {
        i128::MAX as int
    } else if x < i128::MIN {
        i128::MIN as int
    } else {
        x
    }
}

/// `x` brought into the range of `i64`.
pub open spec fn clamp_i64(x: int) -> int {
    if x > i64::MAX {
        i64::MAX as int
    } else if x < i64::MIN {
        i64::MIN as int
    } else {
        x
    }
}

/// `x` brought into the range of `u128`.
pub open spec fn clamp_u128(x: int) -> int {
    if x > u128::MAX {
        u128::MAX as int
    } else if x < 0 {
        0
    } else {
        x
    }
}

/// The magnitude of a signed 64-bit quantity, which always fits in `u64`.
pub fn abs_i64(x: i64) -> (r: u64)
    ensures
        r == spec_abs(x as int),
{
    if x >= 0 {
        x as u64
    } else {
        let y: i64 = -(x + 1);
        (y as u64) + 1
    }
}

/// The smaller of two magnitudes.
pub fn min_u64(a: u64, b: u64) -> (r: u64)
    ensures
        r == if a <= b { a } else { b },
{
    if a <= b {
        a
    } else {
        b
    }
}

/// Signed addition that stops at the ends of `i128`.
pub fn saturating_add_i128(a: i128, b: i128) -> (r: i128)
    ensures
        r == clamp_i128(a + b),
{
    match a.checked_add(b) {
        Some(s) => s,
        None => if b > 0 {
            i128::MAX
        } else {
            i128::MIN
        },
    }
}

/// Signed subtraction that stops at the ends of `i128`.
pub fn saturating_sub_i128(a: i128, b: i128) -> (r: i128)
    ensures
        r == clamp_i128(a - b),
{
    match a.checked_sub(b) {
        Some(s) => s,
        None => if b > 0 {
            i128::MIN
        } else {
            i128::MAX
        },
    }
}

/// Signed addition that stops at the ends of `i64`.
pub fn saturating_add_i64(a: i64, b: i64) -> (r: i64)
    ensures
        r == clamp_i64(a + b),
{
    match a.checked_add(b) {
        Some(s) => s,
        None => if b > 0 {
            i64::MAX
        } else {
            i64::MIN
        },
    }
}

/// Signed subtraction that stops at the ends of `i64`.
pub fn saturating_sub_i64(a: i64, b: i64) -> (r: i64)
    ensures
        r == clamp_i64(a - b),
{
    match a.checked_sub(b) {
        Some(s) => s,
        None => if b > 0 {
            i64::MIN
        } else {
            i64::MAX
        },
    }
}

/// The product of two 64-bit factors, one signed and one a magnitude, which
/// always fits in `i128`.
pub fn mul_i64_u64(a: i64, b: u64) -> (r: i128)
    ensures
        r == (a as int) * (b as int),
{
    assert(-0x8000_0000_0000_0000_0000_0000_0000_0000 <= (a as int) * (b as int)
        <= 0x7fff_ffff_ffff_ffff_ffff_ffff_ffff_ffff) by (nonlinear_arith)
        requires
            -0x8000_0000_0000_0000 <= a < 0x8000_0000_0000_0000,
            0 <= b < 0x1_0000_0000_0000_0000,
    ;
    (a as i128) * (b as i128)
}

} // verus!
