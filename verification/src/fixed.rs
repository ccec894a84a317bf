//! Fixed-point arithmetic helpers.
//!
//! Lengths, positions, velocities and forces are integers counted in
//! thousandths of a pixel. Results that leave the 32-bit range stick to its
//! nearest end, much as a floating-point sum sticks to infinity.

use vstd::prelude::*;

verus! {

/// How many units make up one pixel.
pub const UNITS_PER_PIXEL: i32 = 1000;

/// The nearest value to `v` that a 32-bit coordinate can hold.
pub open spec fn clamp_i32(v: int) -> int {
    if v < i32::MIN as int {
        i32::MIN as int
    } else if v > i32::MAX as int {
        i32::MAX as int
    } else {
        v
    }
}

/// Division that rounds toward zero, for a positive divisor.
pub open spec fn div_toward_zero(a: int, b: int) -> int
    recommends
        b > 0,
{
    if a >= 0 {
        a / b
    } else {
        -((-a) / b)
    }
}

/// `r` is the least natural number whose square reaches `n`.
pub open spec fn is_ceil_sqrt(n: nat, r: nat) -> bool {
    &&& r * r >= n
    &&& (r == 0 || (r - 1) * (r - 1) < n)
}

/// The square root of `n`, rounded up.
pub open spec fn ceil_sqrt(n: nat) -> nat {
    choose|r: nat| is_ceil_sqrt(n, r)
}

/// Every natural number has a rounded-up square root.
pub proof fn lemma_ceil_sqrt_exists(n: nat)
    ensures
        is_ceil_sqrt(n, ceil_sqrt(n)),
    decreases n,
{
    if n == 0 {
        assert(is_ceil_sqrt(0, 0));
    } else {
        lemma_ceil_sqrt_exists((n - 1) as nat);
        let r = ceil_sqrt((n - 1) as nat);
        if r * r >= n {
            assert(is_ceil_sqrt(n, r));
        } else {
            assert((r + 1) * (r + 1) >= n) by (nonlinear_arith)
                requires
                    r * r >= n - 1,
            ;
            assert(is_ceil_sqrt(n, (r + 1) as nat));
        }
    }
}

/// The rounded-up square root is the only number that fits its definition.
pub proof fn lemma_ceil_sqrt_unique(n: nat, r: nat)
    requires
        is_ceil_sqrt(n, r),
    ensures
        r == ceil_sqrt(n),
{
    lemma_ceil_sqrt_exists(n);
    let s = ceil_sqrt(n);
    if r < s {
        assert(r * r <= (s - 1) * (s - 1)) by (nonlinear_arith)
            requires
                0 <= r <= s - 1,
        ;
    } else if s < r {
        assert(s * s <= (r - 1) * (r - 1)) by (nonlinear_arith)
            requires
                0 <= s <= r - 1,
        ;
    }
}

/// Squares grow with their roots, so a rounded-up root bounds every number
/// whose square stays at or below `n`.
pub proof fn lemma_ceil_sqrt_bounds(n: nat, a: nat)
    requires
        a * a <= n,
    ensures
        a <= ceil_sqrt(n),
{
    lemma_ceil_sqrt_exists(n);
    let s = ceil_sqrt(n);
    if s < a {
        assert(s * s < a * a) by (nonlinear_arith)
            requires
                0 <= s < a,
        ;
    }
}

/// Clamps a 64-bit value into the 32-bit coordinate range.
pub fn saturate(v: i64) -> (r: i32)
    ensures
        r == clamp_i32(v as int),
{
    if v < i32::MIN as i64 {
        i32::MIN
    } else if v > i32::MAX as i64 {
        i32::MAX
    } else {
        v as i32
    }
}

/// Divides by a positive number, rounding toward zero.
pub fn trunc_div(a: i64, b: i64) -> (r: i64)
    requires
        b > 0,
        a > i64::MIN,
    ensures
        r == div_toward_zero(a as int, b as int),
{
    if a >= 0 {
        a / b
    } else {
        let q: i64 = (-a) / b;
        -q
    }
}

/// Computes the square root of `n`, rounded up.
pub fn ceil_sqrt_u64(n: u64) -> (r: u64)
    ensures
        r == ceil_sqrt(n as nat),
        r <= 0x1_0000_0000,
{
    let mut lo: u64 = 0;
    let mut hi: u64 = 0x1_0000_0000;
    assert(0x1_0000_0000u64 * 0x1_0000_0000u64 >= n) by (nonlinear_arith)
        requires
            n <= u64::MAX,
    ;
    while lo < hi
        invariant
            lo <= hi <= 0x1_0000_0000,
            hi * hi >= n,
            lo == 0 || (lo - 1) * (lo - 1) < n,
        decreases hi - lo,
    {
        let mid: u64 = lo + (hi - lo) / 2;
        assert(mid * mid <= 0xffff_ffff * 0xffff_ffff) by (nonlinear_arith)
            requires
                0 <= mid <= 0xffff_ffff,
        ;
        let square: u128 = (mid as u128) * (mid as u128);
        if square >= n as u128 {
            hi = mid;
        } else {
            lo = mid + 1;
        }
    }
    proof {
        lemma_ceil_sqrt_unique(n as nat, lo as nat);
    }
    lo
}

} // verus!
