//! Two-dimensional fixed-point vectors.

use vstd::prelude::*;
use crate::fixed::{
    ceil_sqrt, ceil_sqrt_u64, clamp_i32, div_toward_zero, lemma_ceil_sqrt_bounds,
    lemma_ceil_sqrt_exists, saturate, trunc_div, UNITS_PER_PIXEL,
};

verus! {

/// A point or displacement, each component in units or, where a function
/// says so, in whole pixels.
#[derive(Clone, Copy, PartialEq, Eq, Structural, Debug)]
pub struct Vec2 {
    pub x: i32,
    pub y: i32,
}

/// The absolute value of an integer.
pub open spec fn abs(v: int) -> nat {
    if v < 0 {
        (-v) as nat
    } else {
        v as nat
    }
}

/// `v * num / den`, rounded toward zero and kept in the coordinate range.
pub open spec fn scale_component(v: int, num: int, den: int) -> int
    recommends
        den > 0,
{
    clamp_i32(div_toward_zero(v * num, den))
}

/// If `q` is the rounded-down quotient of `a * len` by `m`, then `q * m`
/// does not exceed `a * len`, and the same holds of the squares.
proof fn lemma_quotient_square(a: nat, len: nat, m: nat, q: nat)
    requires
        m > 0,
        q == (a * len) / m,
    ensures
        (q * q) * (m * m) <= (a * a) * (len * len),
{
    let p = a * len;
    assert(q * m <= p) by (nonlinear_arith)
        requires
            m > 0,
            q == p / m,
            p >= 0,
    ;
    assert((q * m) * (q * m) <= p * p) by (nonlinear_arith)
        requires
            0 <= q * m <= p,
    ;
    assert((q * m) * (q * m) == (q * q) * (m * m)) by (nonlinear_arith);
    assert(p * p == (a * a) * (len * len)) by (nonlinear_arith)
        requires
            p == a * len,
    ;
}

/// A quotient of `a * len` by `m` stays at or below `len` when `a <= m`.
proof fn lemma_quotient_bound(a: nat, len: nat, m: nat)
    requires
        m > 0,
        a <= m,
    ensures
        (a * len) / m <= len,
{
    assert((a * len) / m <= len) by (nonlinear_arith)
        requires
            m > 0,
            0 <= a <= m,
            len >= 0,
    ;
}

impl Vec2 {
    /// The squared length, exact.
    pub open spec fn norm2(self) -> nat {
        (self.x * self.x + self.y * self.y) as nat
    }

    /// The length, rounded up to a whole unit.
    pub open spec fn length(self) -> nat {
        ceil_sqrt(self.norm2())
    }

    /// The component-wise sum, each component kept in range.
    pub open spec fn spec_plus(self, other: Vec2) -> Vec2 {
        Vec2 {
            x: clamp_i32(self.x + other.x) as i32,
            y: clamp_i32(self.y + other.y) as i32,
        }
    }

    /// The component-wise difference, each component kept in range.
    pub open spec fn spec_minus(self, other: Vec2) -> Vec2 {
        Vec2 {
            x: clamp_i32(self.x - other.x) as i32,
            y: clamp_i32(self.y - other.y) as i32,
        }
    }

    /// Each component times `num / den`, rounded toward zero.
    pub open spec fn spec_scaled(self, num: int, den: int) -> Vec2
        recommends
            den > 0,
    {
        Vec2 {
            x: scale_component(self.x as int, num, den) as i32,
            y: scale_component(self.y as int, num, den) as i32,
        }
    }

    /// The vector stretched or shrunk to length `len`, as far as whole units
    /// allow: each component is scaled by `len / length` and rounded toward
    /// zero. The zero vector has no direction and stays zero.
    pub open spec fn spec_normalize_to(self, len: int) -> Vec2 {
        if self.norm2() == 0 {
            self
        } else {
            self.spec_scaled(len, self.length() as int)
        }
    }

    /// The position in whole pixels, rounded toward zero.
    pub open spec fn spec_to_pixels(self) -> Vec2 {
        Vec2 {
            x: div_toward_zero(self.x as int, UNITS_PER_PIXEL as int) as i32,
            y: div_toward_zero(self.y as int, UNITS_PER_PIXEL as int) as i32,
        }
    }

    /// The position, in units, of a point given in whole pixels.
    pub open spec fn spec_from_pixels(x: i32, y: i32) -> Vec2 {
        Vec2 {
            x: clamp_i32(x * UNITS_PER_PIXEL) as i32,
            y: clamp_i32(y * UNITS_PER_PIXEL) as i32,
        }
    }

    /// Where a point given in units shows on a screen that is scrolled by
    /// `offset` pixels, in whole pixels.
    pub open spec fn spec_on_screen(self, offset: Vec2) -> Vec2 {
        self.spec_minus(Vec2::spec_from_pixels(offset.x, offset.y)).spec_to_pixels()
    }

    pub fn new(x: i32, y: i32) -> (v: Vec2)
        ensures
            v == (Vec2 { x, y }),
    {
        Vec2 { x, y }
    }

    pub fn zero() -> (v: Vec2)
        ensures
            v == (Vec2 { x: 0, y: 0 }),
    {
        Vec2 { x: 0, y: 0 }
    }

    #[verifier::when_used_as_spec(spec_from_pixels)]
    pub fn from_pixels(x: i32, y: i32) -> (v: Vec2)
        ensures
            v == Vec2::spec_from_pixels(x, y),
    {
        Vec2 {
            x: saturate(x as i64 * UNITS_PER_PIXEL as i64),
            y: saturate(y as i64 * UNITS_PER_PIXEL as i64),
        }
    }

    #[verifier::when_used_as_spec(spec_to_pixels)]
    pub fn to_pixels(self) -> (v: Vec2)
        ensures
            v == self.spec_to_pixels(),
    {
        let x = trunc_div(self.x as i64, UNITS_PER_PIXEL as i64);
        let y = trunc_div(self.y as i64, UNITS_PER_PIXEL as i64);
        Vec2 { x: x as i32, y: y as i32 }
    }

    #[verifier::when_used_as_spec(spec_on_screen)]
    pub fn on_screen(self, offset: Vec2) -> (v: Vec2)
        ensures
            v == self.spec_on_screen(offset),
    {
        self.minus(Vec2::from_pixels(offset.x, offset.y)).to_pixels()
    }

    #[verifier::when_used_as_spec(spec_plus)]
    pub fn plus(self, other: Vec2) -> (v: Vec2)
        ensures
            v == self.spec_plus(other),
    {
        Vec2 {
            x: saturate(self.x as i64 + other.x as i64),
            y: saturate(self.y as i64 + other.y as i64),
        }
    }

    #[verifier::when_used_as_spec(spec_minus)]
    pub fn minus(self, other: Vec2) -> (v: Vec2)
        ensures
            v == self.spec_minus(other),
    {
        Vec2 {
            x: saturate(self.x as i64 - other.x as i64),
            y: saturate(self.y as i64 - other.y as i64),
        }
    }

    /// The squared length.
    pub fn magnitude2(self) -> (m: u64)
        ensures
            m == self.norm2(),
    {
        let x = self.x as i64;
        let y = self.y as i64;
        assert(0 <= x * x <= 0x4000_0000_0000_0000) by (nonlinear_arith)
            requires
                -0x8000_0000 <= x <= 0x7fff_ffff,
        ;
        assert(0 <= y * y <= 0x4000_0000_0000_0000) by (nonlinear_arith)
            requires
                -0x8000_0000 <= y <= 0x7fff_ffff,
        ;
        let xx: u64 = (x * x) as u64;
        let yy: u64 = (y * y) as u64;
        xx + yy
    }

    /// The length, rounded up to a whole unit.
    pub fn magnitude(self) -> (m: u32)
        ensures
            m == self.length(),
    {
        let n = self.magnitude2();
        let r = ceil_sqrt_u64(n);
        proof {
            // 3037000500 squared already exceeds the largest squared length.
            lemma_ceil_sqrt_exists(n as nat);
            self.lemma_norm2_limit();
            if r > 3037000500 {
                assert((r - 1) * (r - 1) >= 3037000500 * 3037000500) by (nonlinear_arith)
                    requires
                        r - 1 >= 3037000500,
                ;
            }
        }
        r as u32
    }

    pub fn scaled(self, num: i32, den: i32) -> (v: Vec2)
        requires
            den > 0,
        ensures
            v == self.spec_scaled(num as int, den as int),
    {
        self.scaled_wide(num, den as i64)
    }

    fn scaled_wide(self, num: i32, den: i64) -> (v: Vec2)
        requires
            den > 0,
        ensures
            v == self.spec_scaled(num as int, den as int),
    {
        let x = self.x as i64;
        let y = self.y as i64;
        let n = num as i64;
        assert(-0x4000_0000_0000_0000 <= x * n <= 0x4000_0000_0000_0000) by (nonlinear_arith)
            requires
                -0x8000_0000 <= x <= 0x7fff_ffff,
                -0x8000_0000 <= n <= 0x7fff_ffff,
        ;
        assert(-0x4000_0000_0000_0000 <= y * n <= 0x4000_0000_0000_0000) by (nonlinear_arith)
            requires
                -0x8000_0000 <= y <= 0x7fff_ffff,
                -0x8000_0000 <= n <= 0x7fff_ffff,
        ;
        let qx = trunc_div(x * n, den);
        let qy = trunc_div(y * n, den);
        Vec2 { x: saturate(qx), y: saturate(qy) }
    }

    /// Rescales the vector to length `len`; see [`Vec2::spec_normalize_to`].
    pub fn normalize_to(self, len: i32) -> (v: Vec2)
        ensures
            v == self.spec_normalize_to(len as int),
    {
        let n = self.magnitude2();
        if n == 0 {
            self
        } else {
            let m = self.magnitude();
            proof {
                lemma_ceil_sqrt_exists(n as nat);
            }
            self.scaled_wide(len, m as i64)
        }
    }

    /// Rescales the vector to the length of one pixel.
    pub fn normalize(self) -> (v: Vec2)
        ensures
            v == self.spec_normalize_to(UNITS_PER_PIXEL as int),
    {
        self.normalize_to(UNITS_PER_PIXEL)
    }

    /// A squared length never exceeds twice the square of 2^31, and it only
    /// reaches the square of 2^31 - 1 when a component is `i32::MIN`.
    pub proof fn lemma_norm2_limit(self)
        ensures
            self.norm2() <= 0x8000_0000_0000_0000,
    {
        let x = self.x as int;
        let y = self.y as int;
        assert(0 <= x * x <= 0x4000_0000_0000_0000) by (nonlinear_arith)
            requires
                -0x8000_0000 <= x <= 0x7fff_ffff,
        ;
        assert(0 <= y * y <= 0x4000_0000_0000_0000) by (nonlinear_arith)
            requires
                -0x8000_0000 <= y <= 0x7fff_ffff,
        ;
    }

    /// A vector rescaled to a non-negative length is never longer than that
    /// length: rounding only ever shortens it.
    pub proof fn lemma_normalize_to_within(self, len: int)
        requires
            0 <= len <= i32::MAX,
        ensures
            self.spec_normalize_to(len).norm2() <= len * len,
    {
        if self.norm2() == 0 {
            assert(len * len >= 0) by (nonlinear_arith);
        } else {
            let n = self.norm2();
            let m = self.length();
            lemma_ceil_sqrt_exists(n);
            let ax = abs(self.x as int);
            let ay = abs(self.y as int);
            assert(ax * ax == self.x * self.x) by (nonlinear_arith)
                requires
                    ax == abs(self.x as int),
            ;
            assert(ay * ay == self.y * self.y) by (nonlinear_arith)
                requires
                    ay == abs(self.y as int),
            ;
            assert(ay * ay >= 0) by (nonlinear_arith);
            assert(ax * ax >= 0) by (nonlinear_arith);
            lemma_ceil_sqrt_bounds(n, ax);
            lemma_ceil_sqrt_bounds(n, ay);
            let l = len as nat;
            let qx = (ax * l) / m;
            let qy = (ay * l) / m;
            lemma_quotient_bound(ax, l, m);
            lemma_quotient_bound(ay, l, m);
            lemma_quotient_square(ax, l, m, qx);
            lemma_quotient_square(ay, l, m, qy);
            let r = self.spec_normalize_to(len);
            assert(abs(r.x as int) == qx) by {
                assert(self.x * len == ax * l || self.x * len == -(ax * l)) by (nonlinear_arith)
                    requires
                        ax == abs(self.x as int),
                        l == len,
                        len >= 0,
                ;
                assert(ax * l >= 0) by (nonlinear_arith);
            }
            assert(abs(r.y as int) == qy) by {
                assert(self.y * len == ay * l || self.y * len == -(ay * l)) by (nonlinear_arith)
                    requires
                        ay == abs(self.y as int),
                        l == len,
                        len >= 0,
                ;
                assert(ay * l >= 0) by (nonlinear_arith);
            }
            assert(r.x * r.x == qx * qx) by (nonlinear_arith)
                requires
                    qx == abs(r.x as int),
            ;
            assert(r.y * r.y == qy * qy) by (nonlinear_arith)
                requires
                    qy == abs(r.y as int),
            ;
            let mm = m * m;
            let ll = l * l;
            assert((qx * qx + qy * qy) * mm <= ll * mm) by (nonlinear_arith)
                requires
                    (qx * qx) * mm <= (ax * ax) * ll,
                    (qy * qy) * mm <= (ay * ay) * ll,
                    ax * ax + ay * ay <= mm,
                    ll >= 0,
            ;
            assert(qx * qx + qy * qy <= ll) by (nonlinear_arith)
                requires
                    (qx * qx + qy * qy) * mm <= ll * mm,
                    mm > 0,
            ;
        }
    }
}

} // verus!
