//! Saturating fixed-point arithmetic.
//!
//! A real number `x` is represented by the `i64` value `x * SCALE`, rounded
//! toward zero. Sums and products that would leave the `i64` range saturate
//! at `i64::MIN` / `i64::MAX`; division by `SCALE` truncates toward zero,
//! matching Rust's `/` on signed integers.

use vstd::prelude::*;

verus! {

/// Number of fixed-point units in one. A position coordinate, velocity
/// component, coefficient or score of `k` units stands for the real number
/// `k / SCALE`.
pub const SCALE: i64 = 1_000_000;

/// The value of `x` pulled back into the `i64` range.
pub open spec fn clamp_i64(x: int) -> int {
    if x > i64::MAX as int {
        i64::MAX as int
    } else if x < i64::MIN as int {
        i64::MIN as int
    } else {
        x
    }
}

/// Division rounding toward zero (the semantics of `/` on Rust's signed
/// integers), for a positive divisor.
pub open spec fn div_to_zero(a: int, d: int) -> int
    recommends
        d > 0,
{
    if a >= 0 {
        a / d
    } else {
        -((-a) / d)
    }
}

/// `a + b`, saturating at the `i64` range.
pub open spec fn spec_sat_add(a: int, b: int) -> int {
    clamp_i64(a + b)
}

/// `a - b`, saturating at the `i64` range.
pub open spec fn spec_sat_sub(a: int, b: int) -> int {
    clamp_i64(a - b)
}

/// The fixed-point product `(a * b) / SCALE`, truncated toward zero and
/// saturating at the `i64` range.
pub open spec fn spec_fmul(a: int, b: int) -> int {
    clamp_i64(div_to_zero(a * b, SCALE as int))
}

fn clamp_to_i64(x: i128) -> (r: i64)
    ensures
        r as int == clamp_i64(x as int),
{
    if x > i64::MAX as i128 {
        i64::MAX
    } else if x < i64::MIN as i128 {
        i64::MIN
    } else {
        x as i64
    }
}

fn div_i128_to_zero(a: i128, d: i128) -> (r: i128)
    requires
        d > 0,
        a != i128::MIN,
    ensures
        r as int == div_to_zero(a as int, d as int),
{
    if a >= 0 {
        let q: u128 = (a as u128) / (d as u128);
        q as i128
    } else {
        let q: u128 = ((-a) as u128) / (d as u128);
        assert(q <= (-a) as u128);
        -(q as i128)
    }
}

/// `a + b`, saturating at the `i64` range.
pub fn sat_add(a: i64, b: i64) -> (r: i64)
    ensures
        r as int == spec_sat_add(a as int, b as int),
{
    clamp_to_i64(a as i128 + b as i128)
}

/// `a - b`, saturating at the `i64` range.
pub fn sat_sub(a: i64, b: i64) -> (r: i64)
    ensures
        r as int == spec_sat_sub(a as int, b as int),
{
    clamp_to_i64(a as i128 - b as i128)
}

/// The fixed-point product of `a` and `b`: `(a * b) / SCALE`, truncated
/// toward zero and saturating at the `i64` range.
pub fn fmul(a: i64, b: i64) -> (r: i64)
    ensures
        r as int == spec_fmul(a as int, b as int),
{
    proof {
        assert(i128::MIN < (a as int) * (b as int) <= i128::MAX) by (nonlinear_arith)
            requires
                i64::MIN <= a <= i64::MAX,
                i64::MIN <= b <= i64::MAX,
        {}
    }
    let p: i128 = (a as i128) * (b as i128);
    let q: i128 = div_i128_to_zero(p, SCALE as i128);
    clamp_to_i64(q)
}

/// `a + b`, saturating at the `u128` range.
pub open spec fn spec_sat_add_u128(a: int, b: int) -> int {
    if a + b > u128::MAX as int {
        u128::MAX as int
    } else {
        a + b
    }
}

/// `a + b`, saturating at the `u128` range.
pub fn sat_add_u128(a: u128, b: u128) -> (r: u128)
    ensures
        r as int == spec_sat_add_u128(a as int, b as int),
{
    if a > u128::MAX - b {
        u128::MAX
    } else {
        a + b
    }
}

/// One more than the largest `u128` whose square still fits in a `u128`.
pub const SQRT_BOUND: u128 = 0x1_0000_0000_0000_0000;

/// The integer square root: the largest `r` with `r * r <= n`, found by
/// binary search.
pub fn isqrt_u128(n: u128) -> (r: u128)
    ensures
        r < SQRT_BOUND,
        (r as int) * (r as int) <= n as int,
        (n as int) < ((r as int + 1) * (r as int + 1)),
{
    let mut lo: u128 = 0;
    let mut hi: u128 = SQRT_BOUND;
    proof {
        assert((SQRT_BOUND as int) * (SQRT_BOUND as int) > u128::MAX as int) by (nonlinear_arith)
            requires
                SQRT_BOUND == 0x1_0000_0000_0000_0000u128,
        {}
    }
    while hi - lo > 1
        invariant
            lo < hi <= SQRT_BOUND,
            (lo as int) * (lo as int) <= n as int,
            (hi as int) * (hi as int) > n as int,
        decreases hi - lo,
    {
        let mid: u128 = lo + (hi - lo) / 2;
        proof {
            assert((mid as int) * (mid as int) <= u128::MAX as int) by (nonlinear_arith)
                requires
                    0 <= mid < 0x1_0000_0000_0000_0000u128,
            {}
        }
        if mid * mid <= n {
            lo = mid;
        } else {
            hi = mid;
        }
    }
    lo
}

} // verus!
