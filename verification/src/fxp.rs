//! Fixed-point scalar arithmetic: scaled integers, integer square roots and
//! the division helpers the simulation core is built on.
//!
//! One world unit is `FP_ONE` fixed-point units. All helpers here are exact:
//! each executable function is proved equal to a mathematical spec function
//! over `int`.

use vstd::prelude::*;
use vstd::arithmetic::div_mod::{
    lemma_fundamental_div_mod, lemma_fundamental_div_mod_converse_mod,
};
use vstd::math::abs;

verus! {

/// One world unit, in fixed-point units.
pub const FP_ONE: i64 = 1024;

/// The square of an integer.
pub open spec fn sq(x: int) -> int {
    x * x
}

/// Floor of the square root of `n` (0 for negative `n`).
pub open spec fn sqrt_floor(n: int) -> int
    decreases n,
{
    if n < 1 {
        0
    } else {
        let r = sqrt_floor(n - 1);
        if sq(r + 1) <= n {
            r + 1
        } else {
            r
        }
    }
}

/// Ceiling of the square root of `n` (0 for negative `n`).
pub open spec fn sqrt_ceil(n: int) -> int {
    if sq(sqrt_floor(n)) == n {
        sqrt_floor(n)
    } else {
        sqrt_floor(n) + 1
    }
}

/// `sqrt_floor(n)` is a value `r >= 0` with `r^2 <= n < (r+1)^2`.
pub proof fn lemma_sqrt_floor_props(n: int)
    requires
        n >= 0,
    ensures
        0 <= sqrt_floor(n),
        sq(sqrt_floor(n)) <= n,
        n < sq(sqrt_floor(n) + 1),
    decreases n,
{
    if n < 1 {
    } else {
        lemma_sqrt_floor_props(n - 1);
        let r = sqrt_floor(n - 1);
        if sq(r + 1) <= n {
            assert(sq(r + 1) < sq(r + 2)) by (nonlinear_arith)
                requires
                    r >= 0,
            ;
        }
    }
}

/// Any `r >= 0` with `r^2 <= n < (r+1)^2` equals `sqrt_floor(n)`.
pub proof fn lemma_sqrt_floor_unique(n: int, r: int)
    requires
        n >= 0,
        r >= 0,
        sq(r) <= n,
        n < sq(r + 1),
    ensures
        r == sqrt_floor(n),
{
    lemma_sqrt_floor_props(n);
    let s = sqrt_floor(n);
    if r < s {
        assert(sq(r + 1) <= sq(s)) by (nonlinear_arith)
            requires
                0 <= r,
                r < s,
        ;
    }
    if s < r {
        assert(sq(s + 1) <= sq(r)) by (nonlinear_arith)
            requires
                0 <= s,
                s < r,
        ;
    }
}

/// `sqrt_ceil(n)` is at least the true square root: `sqrt_ceil(n)^2 >= n`,
/// and it is at most `sqrt_floor(n) + 1`.
pub proof fn lemma_sqrt_ceil_props(n: int)
    requires
        n >= 0,
    ensures
        0 <= sqrt_ceil(n),
        n <= sq(sqrt_ceil(n)),
        sqrt_floor(n) <= sqrt_ceil(n) <= sqrt_floor(n) + 1,
        n >= 1 ==> sqrt_ceil(n) >= 1,
{
    lemma_sqrt_floor_props(n);
    let f = sqrt_floor(n);
    if n >= 1 && sq(f) == n {
        assert(f >= 1) by (nonlinear_arith)
            requires
                f >= 0,
                f * f >= 1,
        ;
    }
}

/// Division rounded toward zero (callers pass `b > 0`).
pub open spec fn div_trunc(a: int, b: int) -> int {
    if a >= 0 {
        a / b
    } else {
        -((-a) / b)
    }
}

/// Division rounded away from zero (callers pass `b > 0`).
pub open spec fn div_away(a: int, b: int) -> int {
    if a >= 0 {
        (a + b - 1) / b
    } else {
        -(((-a) + b - 1) / b)
    }
}

/// The Euclidean remainder lies in `[0, b)`.
pub proof fn lemma_mod_range(a: int, b: int)
    requires
        b > 0,
    ensures
        0 <= a % b < b,
{
    assert(0 <= a % b < b) by (nonlinear_arith)
        requires
            b > 0,
    ;
}

/// The Euclidean quotient of a non-negative dividend is non-negative.
pub proof fn lemma_div_nonneg(a: int, b: int)
    requires
        a >= 0,
        b > 0,
    ensures
        a / b >= 0,
{
    assert(a / b >= 0) by (nonlinear_arith)
        requires
            a >= 0,
            b > 0,
    ;
}

/// A non-negative Euclidean quotient never exceeds the dividend.
pub proof fn lemma_div_le(a: int, b: int)
    requires
        a >= 0,
        b > 0,
    ensures
        a / b <= a,
{
    assert(a / b <= a) by (nonlinear_arith)
        requires
            a >= 0,
            b > 0,
    ;
}

/// The square of the absolute value is the square of the value.
pub proof fn lemma_abs_sq(a: int)
    ensures
        (abs(a) as int) * (abs(a) as int) == a * a,
{
    if a < 0 {
        assert((-a) * (-a) == a * a) by (nonlinear_arith);
    }
}

/// Magnitude and sign facts of truncating division: the magnitude of the
/// quotient times the divisor never exceeds the magnitude of the dividend.
pub proof fn lemma_div_trunc_facts(a: int, b: int)
    requires
        b > 0,
    ensures
        abs(div_trunc(a, b)) * b <= abs(a),
        abs(a) < (abs(div_trunc(a, b)) + 1) * b,
        a >= 0 ==> div_trunc(a, b) >= 0,
        a <= 0 ==> div_trunc(a, b) <= 0,
{
    if a >= 0 {
        let q = a / b;
        let r = a % b;
        lemma_fundamental_div_mod(a, b);
        lemma_mod_range(a, b);
        lemma_div_nonneg(a, b);
        assert(q * b <= a && a < (q + 1) * b) by (nonlinear_arith)
            requires
                a == b * q + r,
                0 <= r < b,
        ;
    } else {
        let n = -a;
        let q = n / b;
        let r = n % b;
        lemma_fundamental_div_mod(n, b);
        lemma_mod_range(n, b);
        lemma_div_nonneg(n, b);
        assert(q * b <= n && n < (q + 1) * b) by (nonlinear_arith)
            requires
                n == b * q + r,
                0 <= r < b,
        ;
    }
}

/// Magnitude and sign facts of away-rounding division: the magnitude of the
/// quotient times the divisor is at least the magnitude of the dividend.
pub proof fn lemma_div_away_facts(a: int, b: int)
    requires
        b > 0,
    ensures
        abs(a) <= abs(div_away(a, b)) * b,
        abs(div_away(a, b)) * b < abs(a) + b,
        a >= 0 ==> div_away(a, b) >= 0,
        a <= 0 ==> div_away(a, b) <= 0,
{
    if a >= 0 {
        let q = (a + b - 1) / b;
        let r = (a + b - 1) % b;
        lemma_fundamental_div_mod(a + b - 1, b);
        lemma_mod_range(a + b - 1, b);
        lemma_div_nonneg(a + b - 1, b);
        assert(a <= q * b && q * b < a + b) by (nonlinear_arith)
            requires
                a + b - 1 == b * q + r,
                0 <= r < b,
        ;
        if a == 0 {
            assert((b - 1) / b == 0) by (nonlinear_arith)
                requires
                    b > 0,
            ;
        }
    } else {
        let n = -a;
        let q = (n + b - 1) / b;
        let r = (n + b - 1) % b;
        lemma_fundamental_div_mod(n + b - 1, b);
        lemma_mod_range(n + b - 1, b);
        lemma_div_nonneg(n + b - 1, b);
        assert(n <= q * b && q * b < n + b) by (nonlinear_arith)
            requires
                n + b - 1 == b * q + r,
                0 <= r < b,
        ;
    }
}

/// Floor of the square root, computed by binary search.
pub fn isqrt_u128(n: u128) -> (r: u64)
    ensures
        r == sqrt_floor(n as int),
{
    let mut lo: u128 = 0;
    let mut hi: u128 = if n >= 0xFFFF_FFFF_FFFF_FFFFu128 {
        0x1_0000_0000_0000_0000u128
    } else {
        n + 1
    };
    proof {
        if n >= 0xFFFF_FFFF_FFFF_FFFFu128 {
            assert((n as int) < sq(0x1_0000_0000_0000_0000)) by (nonlinear_arith)
                requires
                    n <= u128::MAX,
            ;
        } else {
            assert((n as int) < sq(n as int + 1)) by (nonlinear_arith)
                requires
                    n >= 0,
            ;
        }
    }
    while lo + 1 < hi
        invariant
            0 <= lo < hi <= 0x1_0000_0000_0000_0000u128,
            sq(lo as int) <= n as int,
            (n as int) < sq(hi as int),
        decreases hi - lo,
    {
        let mid = lo + (hi - lo) / 2;
        proof {
            assert(mid < hi);
            assert(mid * mid <= u128::MAX) by (nonlinear_arith)
                requires
                    mid <= 0xFFFF_FFFF_FFFF_FFFFu128,
            ;
        }
        if mid * mid <= n {
            lo = mid;
        } else {
            hi = mid;
        }
    }
    proof {
        lemma_sqrt_floor_unique(n as int, lo as int);
    }
    lo as u64
}

/// Ceiling of the square root, computed from the floor.
pub fn isqrt_ceil_u128(n: u128) -> (r: u64)
    requires
        (n as int) <= sq(0xFFFF_FFFF_FFFF_FFFF),
    ensures
        r == sqrt_ceil(n as int),
{
    let f = isqrt_u128(n);
    proof {
        lemma_sqrt_floor_props(n as int);
    }
    if (f as u128) * (f as u128) == n {
        f
    } else {
        proof {
            if f == 0xFFFF_FFFF_FFFF_FFFFu64 {
                assert(n as int == sq(f as int));
            }
        }
        f + 1
    }
}

/// Truncating division on `i128` (rounds toward zero).
pub fn div_trunc_i128(a: i128, b: i128) -> (q: i128)
    requires
        b > 0,
        a > i128::MIN,
    ensures
        q == div_trunc(a as int, b as int),
{
    if a >= 0 {
        proof {
            lemma_div_nonneg(a as int, b as int);
            lemma_div_le(a as int, b as int);
        }
        ((a as u128) / (b as u128)) as i128
    } else {
        proof {
            lemma_div_nonneg((-a) as int, b as int);
            lemma_div_le((-a) as int, b as int);
        }
        -((((-a) as u128) / (b as u128)) as i128)
    }
}

/// Away-rounding division on `i128`.
pub fn div_away_i128(a: i128, b: i128) -> (q: i128)
    requires
        b > 0,
        a < i128::MAX - b,
        -(i128::MAX - b) < a,
    ensures
        q == div_away(a as int, b as int),
{
    if a >= 0 {
        proof {
            lemma_div_nonneg(a as int + b as int - 1, b as int);
            lemma_div_le(a as int + b as int - 1, b as int);
        }
        (((a as u128) + (b as u128) - 1) / (b as u128)) as i128
    } else {
        proof {
            lemma_div_nonneg((-a) as int + b as int - 1, b as int);
            lemma_div_le((-a) as int + b as int - 1, b as int);
        }
        -(((((-a) as u128) + (b as u128) - 1) / (b as u128)) as i128)
    }
}

/// Product of two bounded `i128` values, proved free of overflow.
pub fn mul_i128(a: i128, b: i128) -> (r: i128)
    requires
        -0x4000_0000_0000_0000 <= a <= 0x4000_0000_0000_0000,
        -0x4000_0000_0000_0000 <= b <= 0x4000_0000_0000_0000,
    ensures
        r == a * b,
{
    proof {
        assert(-0x1000_0000_0000_0000_0000_0000_0000_0000i128 <= a * b
            <= 0x1000_0000_0000_0000_0000_0000_0000_0000i128) by (nonlinear_arith)
            requires
                -0x4000_0000_0000_0000 <= a <= 0x4000_0000_0000_0000,
                -0x4000_0000_0000_0000 <= b <= 0x4000_0000_0000_0000,
        ;
    }
    a * b
}

/// Euclidean remainder on `i64`, always in `[0, m)`.
pub fn mod_euclid_i64(a: i64, m: i64) -> (r: i64)
    requires
        m > 0,
        a > i64::MIN,
    ensures
        r == (a as int) % (m as int),
        0 <= r < m,
{
    proof {
        lemma_mod_range(a as int, m as int);
    }
    if a >= 0 {
        ((a as u64) % (m as u64)) as i64
    } else {
        let rm = ((-a) as u64) % (m as u64);
        proof {
            let n = (-a) as int;
            let mi = m as int;
            lemma_fundamental_div_mod(n, mi);
            lemma_mod_range(n, mi);
            let q = n / mi;
            if n % mi == 0 {
                assert(a as int == mi * (-q) + 0) by (nonlinear_arith)
                    requires
                        a as int == -n,
                        n == mi * q + n % mi,
                        n % mi == 0,
                ;
                lemma_fundamental_div_mod_converse_mod(a as int, mi, -q, 0);
            } else {
                assert(a as int == mi * (-q - 1) + (mi - n % mi)) by (nonlinear_arith)
                    requires
                        a as int == -n,
                        n == mi * q + n % mi,
                ;
                lemma_fundamental_div_mod_converse_mod(a as int, mi, -q - 1, mi - n % mi);
            }
        }
        if rm == 0 {
            0
        } else {
            ((m as u64) - rm) as i64
        }
    }
}

/// Wrap `p` into the centered half-open interval of width `w`:
/// the result lies in `[-(w/2), w - w/2)` and is congruent to `p` modulo `w`.
pub open spec fn wrap_around(p: int, w: int) -> int {
    (p + w / 2) % w - w / 2
}

/// The wrapped coordinate lies inside the centered interval.
pub proof fn lemma_wrap_range(p: int, w: int)
    requires
        w >= 1,
    ensures
        -(w / 2) <= wrap_around(p, w),
        wrap_around(p, w) < w - w / 2,
{
    lemma_mod_range(p + w / 2, w);
}

/// Wrap a coordinate into the centered interval of width `w`.
pub fn wrap_i64(p: i64, w: i64) -> (r: i64)
    requires
        1 <= w <= 0x4000_0000_0000,
        -0x1000_0000_0000_0000 <= p <= 0x1000_0000_0000_0000,
    ensures
        r == wrap_around(p as int, w as int),
        -(w / 2) <= r < w - w / 2,
{
    let half = ((w as u64) / 2) as i64;
    let m = mod_euclid_i64(p + half, w);
    proof {
        lemma_wrap_range(p as int, w as int);
    }
    m - half
}

} // verus!
