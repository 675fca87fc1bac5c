//! Floating-point values that the configuration and the tiling tree
//! carry as their IEEE-754 `binary32` bit patterns. The comparisons
//! here follow IEEE-754: every comparison with NaN is false, and `-0.0`
//! equals `0.0`.

use vstd::prelude::*;

verus! {

/// Bit pattern of `0.05f32`.
pub const RATIO_MIN_BITS: u32 = 0x3d4c_cccd;
/// Bit pattern of `0.95f32`.
pub const RATIO_MAX_BITS: u32 = 0x3f73_3333;
/// Bit pattern of `0.5f32`.
pub const HALF_BITS: u32 = 0x3f00_0000;
/// Bit pattern of `1.0f32`.
pub const ONE_BITS: u32 = 0x3f80_0000;
/// Bit pattern of `0.0f32`.
pub const ZERO_BITS: u32 = 0;

/// The pattern encodes a NaN.
pub open spec fn is_nan(b: u32) -> bool {
    (b & 0x7f80_0000u32) == 0x7f80_0000u32 && (b & 0x007f_ffffu32) != 0
}

/// A key that orders non-NaN patterns as their values: negative values
/// map below zero, and both zeros map to `0`.
pub open spec fn order_key(b: u32) -> int {
    if (b & 0x8000_0000u32) != 0 {
        -((b & 0x7fff_ffffu32) as int)
    } else {
        b as int
    }
}

/// `a < b` as IEEE-754 defines it.
pub open spec fn f32_lt(a: u32, b: u32) -> bool {
    !is_nan(a) && !is_nan(b) && order_key(a) < order_key(b)
}

/// `a <= b` as IEEE-754 defines it.
pub open spec fn f32_le(a: u32, b: u32) -> bool {
    !is_nan(a) && !is_nan(b) && order_key(a) <= order_key(b)
}

/// `f32::clamp(x, min, max)` for `min <= max`: below `min` gives `min`,
/// above `max` gives `max`, anything else (NaN too) is kept.
pub open spec fn f32_clamp(x: u32, min: u32, max: u32) -> u32 {
    let y = if f32_lt(x, min) {
        min
    } else {
        x
    };
    if f32_lt(max, y) {
        max
    } else {
        y
    }
}

/// Executable NaN test.
pub fn nan_bits(b: u32) -> (r: bool)
    ensures
        r == is_nan(b),
{
    (b & 0x7f80_0000u32) == 0x7f80_0000u32 && (b & 0x007f_ffffu32) != 0
}

/// Executable `<`.
pub fn lt_bits(a: u32, b: u32) -> (r: bool)
    ensures
        r == f32_lt(a, b),
{
    if nan_bits(a) || nan_bits(b) {
        return false;
    }
    let ka: i64 = if (a & 0x8000_0000u32) != 0 {
        -((a & 0x7fff_ffffu32) as i64)
    } else {
        a as i64
    };
    let kb: i64 = if (b & 0x8000_0000u32) != 0 {
        -((b & 0x7fff_ffffu32) as i64)
    } else {
        b as i64
    };
    ka < kb
}

/// Executable `<=`.
pub fn le_bits(a: u32, b: u32) -> (r: bool)
    ensures
        r == f32_le(a, b),
{
    if nan_bits(a) || nan_bits(b) {
        return false;
    }
    let ka: i64 = if (a & 0x8000_0000u32) != 0 {
        -((a & 0x7fff_ffffu32) as i64)
    } else {
        a as i64
    };
    let kb: i64 = if (b & 0x8000_0000u32) != 0 {
        -((b & 0x7fff_ffffu32) as i64)
    } else {
        b as i64
    };
    ka <= kb
}

/// Executable `f32::clamp`.
pub fn clamp_bits(x: u32, min: u32, max: u32) -> (r: u32)
    ensures
        r == f32_clamp(x, min, max),
{
    let y = if lt_bits(x, min) {
        min
    } else {
        x
    };
    if lt_bits(max, y) {
        max
    } else {
        y
    }
}

/// `(lo..=hi).contains(&x)`: `lo <= x && x <= hi`.
pub open spec fn f32_in_range(x: u32, lo: u32, hi: u32) -> bool {
    f32_le(lo, x) && f32_le(x, hi)
}

/// Executable range test.
pub fn in_range_bits(x: u32, lo: u32, hi: u32) -> (r: bool)
    ensures
        r == f32_in_range(x, lo, hi),
{
    le_bits(lo, x) && le_bits(x, hi)
}

} // verus!
