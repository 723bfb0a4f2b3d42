//! Integer arithmetic helpers: floor and truncating division on signed
//! integers, and integer square roots (floor and ceiling). These are the
//! building blocks of the fixed-point vector math in the rest of the crate.

use vstd::prelude::*;

verus! {

use vstd::arithmetic::div_mod::lemma_fundamental_div_mod_converse;

/// Truncating (round-toward-zero) division, the rounding mode of the force
/// computations: it never increases a component's magnitude.
pub open spec fn tdiv(a: int, b: int) -> int {
    if a >= 0 {
        a / b
    } else {
        -((-a) / b)
    }
}

/// `r` is the floor of the square root of `n`.
pub open spec fn is_sqrt_floor(n: int, r: int) -> bool {
    0 <= r && r * r <= n && n < (r + 1) * (r + 1)
}

/// Floor of the square root of `n` (meaningful for `n >= 0`).
pub open spec fn sqrt_floor(n: int) -> int {
    choose|r: int| is_sqrt_floor(n, r)
}

/// Ceiling of the square root of `n`: the least `r` with `n <= r * r`.
pub open spec fn sqrt_ceil(n: int) -> int {
    if sqrt_floor(n) * sqrt_floor(n) == n {
        sqrt_floor(n)
    } else {
        sqrt_floor(n) + 1
    }
}

/// Every nonnegative integer has a square-root floor, and `sqrt_floor`
/// denotes it.
pub proof fn lemma_sqrt_floor_exists(n: int)
    requires
        n >= 0,
    ensures
        is_sqrt_floor(n, sqrt_floor(n)),
    decreases n,
{
    if n == 0 {
        assert(is_sqrt_floor(0, 0));
    } else {
        lemma_sqrt_floor_exists(n - 1);
        let r = sqrt_floor(n - 1);
        if n < (r + 1) * (r + 1) {
            assert(is_sqrt_floor(n, r));
        } else {
            assert(n == (r + 1) * (r + 1));
            assert(n < (r + 2) * (r + 2)) by (nonlinear_arith)
                requires
                    n == (r + 1) * (r + 1),
                    r >= 0,
            ;
            assert(is_sqrt_floor(n, r + 1));
        }
    }
}

/// The square-root floor is unique.
pub proof fn lemma_sqrt_floor_unique(n: int, r: int)
    requires
        is_sqrt_floor(n, r),
    ensures
        r == sqrt_floor(n),
{
    assert(n >= 0) by (nonlinear_arith)
        requires
            0 <= r && r * r <= n,
    ;
    lemma_sqrt_floor_exists(n);
    let s = sqrt_floor(n);
    if r < s {
        assert((r + 1) * (r + 1) <= s * s) by (nonlinear_arith)
            requires
                0 <= r && r + 1 <= s,
        ;
    }
    if s < r {
        assert((s + 1) * (s + 1) <= r * r) by (nonlinear_arith)
            requires
                0 <= s && s + 1 <= r,
        ;
    }
}

/// Squaring is monotone on nonnegative integers; relates bounds on a value
/// to bounds on its square root.
pub proof fn lemma_sqrt_floor_bound(n: int, b: int)
    requires
        0 <= n,
        0 <= b,
        n <= b * b,
    ensures
        sqrt_floor(n) <= b,
{
    lemma_sqrt_floor_exists(n);
    let s = sqrt_floor(n);
    if s > b {
        assert(s * s > b * b) by (nonlinear_arith)
            requires
                0 <= b && b < s,
        ;
    }
}

/// Floor of the square root, computed by binary search.
pub fn isqrt_u64(n: u64) -> (r: u64)
    ensures
        is_sqrt_floor(n as int, r as int),
        r as int == sqrt_floor(n as int),
{
    let mut lo: u64 = 0;
    let mut hi: u64 = 0x1_0000_0000;
    assert((0x1_0000_0000int) * (0x1_0000_0000int) > n as int) by (nonlinear_arith)
        requires
            n <= 0xffff_ffff_ffff_ffffu64,
    ;
    while lo + 1 < hi
        invariant
            lo < hi <= 0x1_0000_0000,
            (lo as int) * (lo as int) <= n as int,
            (n as int) < (hi as int) * (hi as int),
        decreases hi - lo,
    {
        let mid: u64 = lo + (hi - lo) / 2;
        assert((mid as int) * (mid as int) < 0x1_0000_0000_0000_0000int) by (nonlinear_arith)
            requires
                mid < 0x1_0000_0000u64,
        ;
        if mid * mid <= n {
            lo = mid;
        } else {
            hi = mid;
        }
    }
    proof {
        lemma_sqrt_floor_unique(n as int, lo as int);
    }
    lo
}

/// Ceiling of the square root.
pub fn isqrt_ceil_u64(n: u64) -> (r: u64)
    ensures
        r as int == sqrt_ceil(n as int),
        n as int <= (r as int) * (r as int),
        n > 0 ==> r > 0,
{
    let s = isqrt_u64(n);
    if s * s == n {
        s
    } else {
        assert((s as int) < 0x1_0000_0000) by (nonlinear_arith)
            requires
                (s as int) * (s as int) <= n as int,
        ;
        s + 1
    }
}

/// Floor division of a signed value by a positive divisor; agrees with the
/// mathematical `/` of specifications.
pub fn div_floor_i64(a: i64, b: i64) -> (r: i64)
    requires
        b > 0,
        a > i64::MIN,
    ensures
        r as int == a as int / b as int,
        a >= 0 ==> 0 <= r <= a,
        a < 0 ==> a <= r <= 0,
{
    let bu: u64 = b as u64;
    if a >= 0 {
        let q: u64 = (a as u64) / bu;
        proof {
            vstd::arithmetic::div_mod::lemma_fundamental_div_mod(a as int, b as int);
            assert(q <= a) by (nonlinear_arith)
                requires
                    a as int == (b as int) * (q as int) + (a as int % b as int),
                    a % b >= 0,
                    b >= 1,
                    q >= 0,
            ;
        }
        q as i64
    } else {
        let m: u64 = (-a) as u64;
        let q: u64 = m / bu;
        let rem: u64 = m % bu;
        proof {
            vstd::arithmetic::div_mod::lemma_fundamental_div_mod(m as int, b as int);
            assert(q as int + 1 <= m as int || (q as int <= m && rem == 0)) by (nonlinear_arith)
                requires
                    m as int == (b as int) * (q as int) + (rem as int),
                    0 <= rem < b,
                    b >= 1,
                    q >= 0,
                    m >= 1,
            ;
        }
        if rem == 0 {
            proof {
                assert((-(q as int)) * (b as int) == -((b as int) * (q as int)))
                    by (nonlinear_arith);
                lemma_fundamental_div_mod_converse(a as int, b as int, -(q as int), 0);
            }
            -(q as i64)
        } else {
            proof {
                assert((-(q as int) - 1) * (b as int) == -((b as int) * (q as int)) - b)
                    by (nonlinear_arith);
                lemma_fundamental_div_mod_converse(
                    a as int,
                    b as int,
                    -(q as int) - 1,
                    b - rem,
                );
            }
            -(q as i64) - 1
        }
    }
}

/// Truncating division of a signed value by a positive divisor; agrees with
/// the `tdiv` of specifications.
pub fn div_trunc_i64(a: i64, b: i64) -> (r: i64)
    requires
        b > 0,
        a > i64::MIN,
    ensures
        r as int == tdiv(a as int, b as int),
{
    let bu: u64 = b as u64;
    if a >= 0 {
        let q: u64 = (a as u64) / bu;
        q as i64
    } else {
        let m: u64 = (-a) as u64;
        let q: u64 = m / bu;
        -(q as i64)
    }
}

/// Truncating division on the wide accumulator type used by the steering
/// sums.
pub fn div_trunc_i128(a: i128, b: i128) -> (r: i128)
    requires
        b > 0,
        a > i128::MIN,
    ensures
        r as int == tdiv(a as int, b as int),
{
    let bu: u128 = b as u128;
    if a >= 0 {
        let q: u128 = (a as u128) / bu;
        q as i128
    } else {
        let m: u128 = (-a) as u128;
        let q: u128 = m / bu;
        -(q as i128)
    }
}

/// Sign of an integer, mirroring `i64::signum`.
pub open spec fn sign(a: int) -> int {
    if a > 0 {
        1
    } else if a < 0 {
        -1
    } else {
        0
    }
}

/// `i64::signum`, written out so its result is known exactly.
pub fn signum_i64(a: i64) -> (r: i64)
    ensures
        r as int == sign(a as int),
{
    if a > 0 {
        1
    } else if a < 0 {
        -1
    } else {
        0
    }
}


/// Floor of the square root on the wide accumulator type.
pub fn isqrt_u128(n: u128) -> (r: u128)
    ensures
        is_sqrt_floor(n as int, r as int),
        r as int == sqrt_floor(n as int),
{
    let mut lo: u128 = 0;
    let mut hi: u128 = 0x1_0000_0000_0000_0000;
    assert((0x1_0000_0000_0000_0000int) * (0x1_0000_0000_0000_0000int) > n as int)
        by (nonlinear_arith)
        requires
            (n as int) < 0x1_0000_0000_0000_0000_0000_0000_0000_0000int,
    ;
    while lo + 1 < hi
        invariant
            lo < hi <= 0x1_0000_0000_0000_0000,
            (lo as int) * (lo as int) <= n as int,
            (n as int) < (hi as int) * (hi as int),
        decreases hi - lo,
    {
        let mid: u128 = lo + (hi - lo) / 2;
        assert((mid as int) * (mid as int) < 0x1_0000_0000_0000_0000_0000_0000_0000_0000int)
            by (nonlinear_arith)
            requires
                mid < 0x1_0000_0000_0000_0000u128,
        ;
        if mid * mid <= n {
            lo = mid;
        } else {
            hi = mid;
        }
    }
    proof {
        lemma_sqrt_floor_unique(n as int, lo as int);
    }
    lo
}

/// Ceiling of the square root on the wide accumulator type.
pub fn isqrt_ceil_u128(n: u128) -> (r: u128)
    ensures
        r as int == sqrt_ceil(n as int),
        n as int <= (r as int) * (r as int),
        n > 0 ==> r > 0,
{
    let s = isqrt_u128(n);
    if s * s == n {
        s
    } else {
        assert((s as int) < 0x1_0000_0000_0000_0000) by (nonlinear_arith)
            requires
                (s as int) * (s as int) <= n as int,
        ;
        s + 1
    }
}

} // verus!
