//! Fixed-point units and the few arithmetic helpers shared by every module.
//!
//! Stored quantities have a fixed width. Where a result would leave the
//! range of its type it stops at the end of the range on its side: the
//! `clamp` functions say so in contracts, and the executable helpers do it.

use vstd::prelude::*;

verus! {

/// Sub-units per world unit. Lengths, coordinates and offsets are `i32`
/// counts of sub-units; speeds are sub-units per second.
pub const UNIT: i32 = 1000;

/// Ticks per second. Durations and elapsed times are counted in ticks.
pub const TICKS_PER_SECOND: u32 = 1000;

/// Absolute value of a mathematical integer.
pub open spec fn abs(v: int) -> int {
    if v < 0 {
        -v
    } else {
        v
    }
}

/// The `i32` nearest to `v`.
pub open spec fn clamp32(v: int) -> i32 {
    if v < i32::MIN {
        i32::MIN
    } else if v > i32::MAX {
        i32::MAX
    } else {
        v as i32
    }
}

/// The `i64` nearest to `v`.
pub open spec fn clamp64(v: int) -> i64 {
    if v < i64::MIN {
        i64::MIN
    } else if v > i64::MAX {
        i64::MAX
    } else {
        v as i64
    }
}

/// Brings a wide intermediate result back into the `i32` range.
pub fn saturate(v: i64) -> (r: i32)
    ensures
        r == clamp32(v as int),
{
    if v < i32::MIN as i64 {
        i32::MIN
    } else if v > i32::MAX as i64 {
        i32::MAX
    } else {
        v as i32
    }
}

/// Brings a wide intermediate result back into the `i64` range.
pub fn saturate64(v: i128) -> (r: i64)
    ensures
        r == clamp64(v as int),
{
    if v < i64::MIN as i128 {
        i64::MIN
    } else if v > i64::MAX as i128 {
        i64::MAX
    } else {
        v as i64
    }
}

/// Negation inside the `i32` range: `-v`, except that the one value without
/// a negative, `i32::MIN`, maps to `i32::MAX`.
pub fn negate(v: i32) -> (r: i32)
    ensures
        r == clamp32(-(v as int)),
{
    if v == i32::MIN {
        i32::MAX
    } else {
        -v
    }
}

/// Size of a coordinate or a speed.
pub fn magnitude(v: i32) -> (r: u32)
    ensures
        r == abs(v as int),
{
    if v < 0 {
        if v == i32::MIN {
            2147483648u32
        } else {
            (-v) as u32
        }
    } else {
        v as u32
    }
}

/// The exact product of two `i32` values.
pub fn product(a: i32, b: i32) -> (r: i64)
    ensures
        r == a * b,
{
    assert(-0x8000_0000 * 0x8000_0000 <= a * b <= 0x8000_0000 * 0x8000_0000) by (nonlinear_arith)
        requires
            -0x8000_0000 <= a <= 0x8000_0000,
            -0x8000_0000 <= b <= 0x8000_0000,
    ;
    a as i64 * b as i64
}

/// The quotient of `n` by a positive `d`, rounded towards zero.
pub open spec fn div_toward_zero(n: int, d: int) -> int {
    if n >= 0 {
        n / d
    } else {
        -((-n) / d)
    }
}

/// Divides `n` by `d`, rounding towards zero.
pub fn divide(n: i128, d: u64) -> (r: i128)
    requires
        d > 0,
    ensures
        r == div_toward_zero(n as int, d as int),
        abs(r as int) <= abs(n as int),
{
    if n >= 0 {
        let size: u128 = n as u128;
        let q: u128 = size / (d as u128);
        assert(q <= size) by (nonlinear_arith)
            requires
                q == size / (d as u128),
                d > 0,
        ;
        q as i128
    } else {
        let size: u128 = if n == i128::MIN {
            170141183460469231731687303715884105728u128
        } else {
            (-n) as u128
        };
        let q: u128 = size / (d as u128);
        assert(q <= size) by (nonlinear_arith)
            requires
                q == size / (d as u128),
                d > 0,
        ;
        if q == 170141183460469231731687303715884105728u128 {
            i128::MIN
        } else {
            -(q as i128)
        }
    }
}

/// The remainder that goes with [`div_toward_zero`]: it has the sign of `n`.
pub open spec fn rem_toward_zero(n: int, d: int) -> int {
    n - d * div_toward_zero(n, d)
}

/// Divides `n` by `d`, rounding towards zero, and returns quotient and
/// remainder.
pub fn divide_small(n: i64, d: u32) -> (r: (i64, i64))
    requires
        d > 0,
    ensures
        r.0 == div_toward_zero(n as int, d as int),
        r.1 == rem_toward_zero(n as int, d as int),
        abs(r.0 as int) <= abs(n as int),
        abs(r.1 as int) < d,
{
    let size: u64 = if n < 0 {
        if n == i64::MIN {
            9223372036854775808u64
        } else {
            (-n) as u64
        }
    } else {
        n as u64
    };
    let q: u64 = size / (d as u64);
    let m: u64 = size % (d as u64);
    assert(q <= size && size == (d as u64) * q + m) by (nonlinear_arith)
        requires
            q == size / (d as u64),
            m == size % (d as u64),
            d > 0,
    ;
    assert(rem_toward_zero(n as int, d as int) == (if n >= 0 {
        m as int
    } else {
        -(m as int)
    })) by (nonlinear_arith)
        requires
            size == abs(n as int),
            q == size / (d as u64),
            size == (d as u64) * q + m,
            d > 0,
    ;
    if n >= 0 {
        (q as i64, m as i64)
    } else if q == 9223372036854775808u64 {
        (i64::MIN, -(m as i64))
    } else {
        (-(q as i64), -(m as i64))
    }
}

/// Brings a very wide intermediate result back into the `i32` range.
pub fn saturate_wide(v: i128) -> (r: i32)
    ensures
        r == clamp32(v as int),
{
    if v < i32::MIN as i128 {
        i32::MIN
    } else if v > i32::MAX as i128 {
        i32::MAX
    } else {
        v as i32
    }
}

} // verus!
