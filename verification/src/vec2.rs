//! Fixed-point 2D vectors. Positions, velocities and forces are pairs of
//! `i64` components; the specification-level model of a vector is a pair of
//! unbounded integers, reached through the `@` view.
//!
//! Normalizing a vector to a target length divides by the *ceiling* of the
//! length's square root with truncating division, so the result never gets
//! longer than the target — the integer analogue of `normalize() * len` that
//! resolves the zero-length case to the zero vector instead of NaN.

use vstd::prelude::*;

verus! {

use crate::COORD_LIMIT;
use crate::math::{
    div_trunc_i128, is_sqrt_floor, isqrt_ceil_u128, lemma_sqrt_floor_bound,
    lemma_sqrt_floor_exists, sqrt_ceil, sqrt_floor, tdiv,
};
use vstd::math::abs;

/// A 2D vector with fixed-point integer components.
#[derive(Clone, Copy, Debug, PartialEq, Eq, Structural)]
pub struct Vec2I {
    pub x: i64,
    pub y: i64,
}

impl View for Vec2I {
    type V = (int, int);

    open spec fn view(&self) -> (int, int) {
        (self.x as int, self.y as int)
    }
}

/// Componentwise sum.
pub open spec fn vadd(a: (int, int), b: (int, int)) -> (int, int) {
    (a.0 + b.0, a.1 + b.1)
}

/// Componentwise difference.
pub open spec fn vsub(a: (int, int), b: (int, int)) -> (int, int) {
    (a.0 - b.0, a.1 - b.1)
}

/// Componentwise negation.
pub open spec fn vneg(a: (int, int)) -> (int, int) {
    (-a.0, -a.1)
}

/// Scaling by an integer factor.
pub open spec fn vscale(a: (int, int), k: int) -> (int, int) {
    (a.0 * k, a.1 * k)
}

/// Componentwise truncating division by a positive factor.
pub open spec fn vdiv(a: (int, int), k: int) -> (int, int) {
    (tdiv(a.0, k), tdiv(a.1, k))
}

/// Squared Euclidean length.
pub open spec fn len_sq(a: (int, int)) -> int {
    a.0 * a.0 + a.1 * a.1
}

/// Squared Euclidean distance between two points.
pub open spec fn dist_sq(a: (int, int), b: (int, int)) -> int {
    len_sq(vsub(a, b))
}

/// The vector rescaled to length (at most) `l`: each component is
/// `c * l / ceil(|a|)`, truncated toward zero. A zero-length vector maps to
/// the zero vector.
pub open spec fn vnorm_to(a: (int, int), l: int) -> (int, int) {
    let n = sqrt_ceil(len_sq(a));
    if n == 0 {
        (0, 0)
    } else {
        (tdiv(a.0 * l, n), tdiv(a.1 * l, n))
    }
}

/// The vector, clamped to length at most `l`: rescaled only when its length
/// exceeds `l`.
pub open spec fn vlimit(a: (int, int), l: int) -> (int, int) {
    if len_sq(a) > l * l {
        vnorm_to(a, l)
    } else {
        a
    }
}

/// Both components within the global coordinate bound.
pub open spec fn in_range(a: (int, int)) -> bool {
    -COORD_LIMIT <= a.0 <= COORD_LIMIT && -COORD_LIMIT <= a.1 <= COORD_LIMIT
}

/// Largest magnitude a force-accumulation component may reach; vectors in
/// this range can still be normalized and clamped exactly.
pub const WIDE_LIMIT: i64 = 0x2000_0000_0000;

/// Both components within the accumulation bound.
pub open spec fn wide(a: (int, int)) -> bool {
    -WIDE_LIMIT <= a.0 <= WIDE_LIMIT && -WIDE_LIMIT <= a.1 <= WIDE_LIMIT
}

impl Vec2I {
    /// Both components within the global coordinate bound.
    pub open spec fn valid(self) -> bool {
        in_range(self@)
    }

    pub fn new(x: i64, y: i64) -> (r: Vec2I)
        ensures
            r@ == (x as int, y as int),
    {
        Vec2I { x, y }
    }

    pub fn zero() -> (r: Vec2I)
        ensures
            r@ == (0int, 0int),
    {
        Vec2I { x: 0, y: 0 }
    }

    pub fn add(self, o: Vec2I) -> (r: Vec2I)
        requires
            i64::MIN <= self.x + o.x <= i64::MAX,
            i64::MIN <= self.y + o.y <= i64::MAX,
        ensures
            r@ == vadd(self@, o@),
    {
        Vec2I { x: self.x + o.x, y: self.y + o.y }
    }

    pub fn sub(self, o: Vec2I) -> (r: Vec2I)
        requires
            i64::MIN <= self.x - o.x <= i64::MAX,
            i64::MIN <= self.y - o.y <= i64::MAX,
        ensures
            r@ == vsub(self@, o@),
    {
        Vec2I { x: self.x - o.x, y: self.y - o.y }
    }

    pub fn neg(self) -> (r: Vec2I)
        requires
            self.x > i64::MIN,
            self.y > i64::MIN,
        ensures
            r@ == vneg(self@),
    {
        Vec2I { x: -self.x, y: -self.y }
    }

    pub fn scale(self, k: i64) -> (r: Vec2I)
        requires
            i64::MIN <= self.x * k <= i64::MAX,
            i64::MIN <= self.y * k <= i64::MAX,
        ensures
            r@ == vscale(self@, k as int),
    {
        Vec2I { x: self.x * k, y: self.y * k }
    }

    /// Squared distance to another point; exact, no rounding.
    pub fn dist_sq(self, o: Vec2I) -> (r: i64)
        requires
            self.valid(),
            o.valid(),
        ensures
            r as int == dist_sq(self@, o@),
            0 <= r <= 0x2000_0000_0000_0000,
    {
        let dx: i64 = self.x - o.x;
        let dy: i64 = self.y - o.y;
        proof {
            lemma_square_range(dx as int, 2 * COORD_LIMIT as int);
            lemma_square_range(dy as int, 2 * COORD_LIMIT as int);
        }
        dx * dx + dy * dy
    }

    /// Squared length; exact, no rounding.
    pub fn len_sq(self) -> (r: i64)
        requires
            self.valid(),
        ensures
            r as int == len_sq(self@),
            0 <= r <= 0x2000_0000_0000_0000,
    {
        proof {
            lemma_square_range(self.x as int, COORD_LIMIT as int);
            lemma_square_range(self.y as int, COORD_LIMIT as int);
        }
        self.x * self.x + self.y * self.y
    }

    /// Squared length on the wide accumulator type; exact, no rounding.
    pub fn len_sq_wide(self) -> (r: i128)
        requires
            wide(self@),
        ensures
            r as int == len_sq(self@),
            0 <= r <= 0x8000_0000_0000_0000_0000_0000,
    {
        let xw: i128 = self.x as i128;
        let yw: i128 = self.y as i128;
        proof {
            lemma_square_range(xw as int, WIDE_LIMIT as int);
            lemma_square_range(yw as int, WIDE_LIMIT as int);
        }
        xw * xw + yw * yw
    }

    /// Rescale to length (at most) `l`; the zero vector stays zero.
    pub fn norm_to(self, l: i64) -> (r: Vec2I)
        requires
            wide(self@),
            0 <= l <= COORD_LIMIT,
        ensures
            r@ == vnorm_to(self@, l as int),
            -l <= r.x <= l,
            -l <= r.y <= l,
            len_sq(r@) <= l * l,
    {
        let d2: i128 = self.len_sq_wide();
        let n_u: u128 = isqrt_ceil_u128(d2 as u128);
        if n_u == 0 {
            proof {
                lemma_square_range(0, l as int);
            }
            Vec2I { x: 0, y: 0 }
        } else {
            proof {
                lemma_sqrt_floor_exists(d2 as int);
                lemma_sqrt_floor_bound(d2 as int, 0x1_0000_0000_0000int);
                lemma_mul_abs_bound(self.x as int, l as int, WIDE_LIMIT as int, COORD_LIMIT as int);
                lemma_mul_abs_bound(self.y as int, l as int, WIDE_LIMIT as int, COORD_LIMIT as int);
            }
            let n: i128 = n_u as i128;
            let rx: i128 = div_trunc_i128((self.x as i128) * (l as i128), n);
            let ry: i128 = div_trunc_i128((self.y as i128) * (l as i128), n);
            proof {
                lemma_norm_component_bound(self.x as int, self@, l as int);
                lemma_norm_component_bound(self.y as int, self@, l as int);
                lemma_norm_len_bound(self@, l as int);
            }
            Vec2I { x: rx as i64, y: ry as i64 }
        }
    }
}

/// `|a| <= b` implies `a * a <= b * b`.
pub proof fn lemma_square_range(a: int, b: int)
    requires
        -b <= a <= b,
    ensures
        0 <= a * a <= b * b,
{
    assert(0 <= a * a <= b * b) by (nonlinear_arith)
        requires
            -b <= a <= b,
    ;
}

/// `|a| <= c` and `|b| <= d` imply `|a * b| <= c * d`.
pub proof fn lemma_mul_abs_bound(a: int, b: int, c: int, d: int)
    requires
        -c <= a <= c,
        -d <= b <= d,
    ensures
        -(c * d) <= a * b <= c * d,
{
    assert(-(c * d) <= a * b <= c * d) by (nonlinear_arith)
        requires
            -c <= a <= c,
            -d <= b <= d,
    ;
}

/// Truncating division by a positive divisor never increases magnitude, and
/// multiplying the quotient back never exceeds the dividend in magnitude.
pub proof fn lemma_tdiv_mag(a: int, n: int)
    requires
        n > 0,
    ensures
        abs(tdiv(a, n)) * n <= abs(a),
        abs(tdiv(a, n)) <= abs(a),
{
    if a >= 0 {
        vstd::arithmetic::div_mod::lemma_fundamental_div_mod(a, n);
        assert(tdiv(a, n) == a / n);
        assert(a / n >= 0) by {
            vstd::arithmetic::div_mod::lemma_div_pos_is_pos(a, n);
        }
        assert((a / n) * n <= a) by (nonlinear_arith)
            requires
                n > 0,
                a == n * (a / n) + a % n,
                a % n >= 0,
        ;
        assert(a / n <= a) by (nonlinear_arith)
            requires
                n >= 1,
                a / n >= 0,
                (a / n) * n <= a,
        ;
    } else {
        let m = -a;
        vstd::arithmetic::div_mod::lemma_fundamental_div_mod(m, n);
        assert(tdiv(a, n) == -(m / n));
        assert(m / n >= 0) by {
            vstd::arithmetic::div_mod::lemma_div_pos_is_pos(m, n);
        }
        assert((m / n) * n <= m) by (nonlinear_arith)
            requires
                n > 0,
                m == n * (m / n) + m % n,
                m % n >= 0,
        ;
        assert(m / n <= m) by (nonlinear_arith)
            requires
                n >= 1,
                m / n >= 0,
                (m / n) * n <= m,
        ;
    }
}

/// A component of a vector rescaled to length `l` stays within `[-l, l]`.
pub proof fn lemma_norm_component_bound(c: int, a: (int, int), l: int)
    requires
        l >= 0,
        c == a.0 || c == a.1,
        sqrt_ceil(len_sq(a)) > 0,
        is_sqrt_floor(len_sq(a), sqrt_floor(len_sq(a))),
    ensures
        -l <= tdiv(c * l, sqrt_ceil(len_sq(a))) <= l,
{
    let d2 = len_sq(a);
    let n = sqrt_ceil(d2);
    assert(c * c <= d2) by (nonlinear_arith)
        requires
            c == a.0 || c == a.1,
            d2 == a.0 * a.0 + a.1 * a.1,
    ;
    assert(d2 <= n * n);
    assert(abs(c) <= n) by (nonlinear_arith)
        requires
            c * c <= n * n,
            n > 0,
    ;
    lemma_tdiv_mag(c * l, n);
    assert(abs(c * l) <= n * l) by (nonlinear_arith)
        requires
            abs(c) <= n,
            l >= 0,
    ;
    assert(abs(tdiv(c * l, n)) * n <= n * l);
    assert(abs(tdiv(c * l, n)) <= l) by (nonlinear_arith)
        requires
            abs(tdiv(c * l, n)) * n <= n * l,
            n > 0,
    ;
}

/// A vector rescaled to length `l` has squared length at most `l * l`.
pub proof fn lemma_norm_len_bound(a: (int, int), l: int)
    requires
        l >= 0,
        is_sqrt_floor(len_sq(a), sqrt_floor(len_sq(a))),
    ensures
        len_sq(vnorm_to(a, l)) <= l * l,
{
    let d2 = len_sq(a);
    let n = sqrt_ceil(d2);
    if n == 0 {
        assert(len_sq((0int, 0int)) == 0);
        assert(0 <= l * l) by (nonlinear_arith);
    } else {
        let p = tdiv(a.0 * l, n);
        let q = tdiv(a.1 * l, n);
        lemma_tdiv_mag(a.0 * l, n);
        lemma_tdiv_mag(a.1 * l, n);
        assert(d2 <= n * n);
        assert((p * p) * (n * n) <= ((a.0 * l) * (a.0 * l))) by (nonlinear_arith)
            requires
                abs(p) * n <= abs(a.0 * l),
                n > 0,
        ;
        assert((q * q) * (n * n) <= ((a.1 * l) * (a.1 * l))) by (nonlinear_arith)
            requires
                abs(q) * n <= abs(a.1 * l),
                n > 0,
        ;
        assert((a.0 * l) * (a.0 * l) + (a.1 * l) * (a.1 * l) == d2 * (l * l)) by (nonlinear_arith)
            requires
                d2 == a.0 * a.0 + a.1 * a.1,
        ;
        assert((p * p + q * q) * (n * n) <= (n * n) * (l * l)) by (nonlinear_arith)
            requires
                (p * p) * (n * n) <= ((a.0 * l) * (a.0 * l)),
                (q * q) * (n * n) <= ((a.1 * l) * (a.1 * l)),
                (a.0 * l) * (a.0 * l) + (a.1 * l) * (a.1 * l) == d2 * (l * l),
                d2 <= n * n,
                l >= 0,
                n > 0,
        ;
        assert(p * p + q * q <= l * l) by (nonlinear_arith)
            requires
                (p * p + q * q) * (n * n) <= (n * n) * (l * l),
                n > 0,
        ;
    }
}

} // verus!
