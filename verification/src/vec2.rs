//! Two-dimensional vectors of fixed-point scalars, with the magnitude
//! clamping operations the integration pass relies on.
//!
//! Clamping a vector to a magnitude bound while preserving its direction is
//! inherently inexact in integers. The operations here give one-sided exact
//! guarantees: clamping down never exceeds the bound, scaling up never falls
//! short of it, and the loss in the other direction is at most `SPEED_SLACK`
//! fixed-point units.

use vstd::prelude::*;
use vstd::math::abs;
use crate::fxp::{
    sq, sqrt_floor, sqrt_ceil, div_trunc, div_away, lemma_sqrt_floor_props,
    lemma_sqrt_ceil_props, lemma_div_trunc_facts, lemma_div_away_facts,
    lemma_abs_sq, isqrt_u128, isqrt_ceil_u128, div_trunc_i128, div_away_i128,
};

verus! {

/// Largest magnitude loss a clamp may introduce, in fixed-point units.
pub const SPEED_SLACK: i64 = 8;

/// A two-dimensional vector of fixed-point scalars.
#[derive(Clone, Copy, Debug, PartialEq, Eq, Structural)]
pub struct Vec2 {
    pub x: i64,
    pub y: i64,
}

impl Vec2 {
    /// The squared magnitude, as a mathematical integer.
    pub open spec fn norm2(self) -> int {
        sq(self.x as int) + sq(self.y as int)
    }

    pub fn new(x: i64, y: i64) -> (v: Vec2)
        ensures
            v == (Vec2 { x, y }),
    {
        Vec2 { x, y }
    }

    pub fn zero() -> (v: Vec2)
        ensures
            v == (Vec2 { x: 0i64, y: 0i64 }),
    {
        Vec2 { x: 0, y: 0 }
    }
}

/// Scale `(x, y)` down to magnitude at most `m`, truncating toward zero,
/// leaving the vector unchanged when it is already within the bound.
pub open spec fn spec_clamp_mag_down(x: int, y: int, m: int) -> (int, int) {
    let n2 = sq(x) + sq(y);
    if n2 <= sq(m) {
        (x, y)
    } else {
        let s = sqrt_ceil(n2);
        (div_trunc(x * m, s), div_trunc(y * m, s))
    }
}

/// Scale a non-zero `(x, y)` to magnitude at least `m`, rounding away
/// from zero.
pub open spec fn spec_scale_up(x: int, y: int, m: int) -> (int, int) {
    let s = sqrt_floor(sq(x) + sq(y));
    (div_away(x * m, s), div_away(y * m, s))
}

/// Clamp the magnitude of `(x, y)` into `[lo, hi]`: a zero vector becomes
/// `(lo, 0)`, a slow vector is scaled up to `lo` (and back down if that
/// overshoots `hi`), a fast vector is scaled down to `hi`.
pub open spec fn spec_clamp_speed(x: int, y: int, lo: int, hi: int) -> (int, int) {
    let n2 = sq(x) + sq(y);
    if n2 == 0 {
        (lo, 0)
    } else if n2 < sq(lo) {
        let u = spec_scale_up(x, y, lo);
        spec_clamp_mag_down(u.0, u.1, hi)
    } else {
        spec_clamp_mag_down(x, y, hi)
    }
}

/// A vector whose squared magnitude is bounded has bounded components.
pub proof fn lemma_comp_le_norm(x: int, y: int, b: int)
    requires
        sq(x) + sq(y) <= sq(b),
        b >= 0,
    ensures
        -b <= x <= b,
        -b <= y <= b,
{
    assert(-b <= x <= b && -b <= y <= b) by (nonlinear_arith)
        requires
            x * x + y * y <= b * b,
            b >= 0,
    ;
}

/// Clamping down never exceeds the bound.
pub proof fn lemma_clamp_mag_down_le(x: int, y: int, m: int)
    requires
        m >= 0,
    ensures
        ({
            let r = spec_clamp_mag_down(x, y, m);
            sq(r.0) + sq(r.1) <= sq(m)
        }),
{
    let n2 = sq(x) + sq(y);
    if n2 <= sq(m) {
    } else {
        lemma_sqrt_ceil_props(n2);
        let s = sqrt_ceil(n2);
        assert(n2 >= 1) by (nonlinear_arith)
            requires
                n2 > m * m,
                m >= 0,
        ;
        let qx = div_trunc(x * m, s);
        let qy = div_trunc(y * m, s);
        lemma_div_trunc_facts(x * m, s);
        lemma_div_trunc_facts(y * m, s);
        let aqx = abs(qx) as int;
        let aqy = abs(qy) as int;
        let axm = abs(x * m) as int;
        let aym = abs(y * m) as int;
        lemma_abs_sq(qx);
        lemma_abs_sq(qy);
        lemma_abs_sq(x * m);
        lemma_abs_sq(y * m);
        assert(0 <= aqx * s && 0 <= aqy * s) by (nonlinear_arith)
            requires
                aqx >= 0,
                aqy >= 0,
                s >= 1,
        ;
        assert((aqx * s) * (aqx * s) <= axm * axm) by (nonlinear_arith)
            requires
                0 <= aqx * s,
                aqx * s <= axm,
        ;
        assert((aqy * s) * (aqy * s) <= aym * aym) by (nonlinear_arith)
            requires
                0 <= aqy * s,
                aqy * s <= aym,
        ;
        assert((aqx * s) * (aqx * s) == (qx * qx) * (s * s)) by (nonlinear_arith)
            requires
                aqx * aqx == qx * qx,
        ;
        assert((aqy * s) * (aqy * s) == (qy * qy) * (s * s)) by (nonlinear_arith)
            requires
                aqy * aqy == qy * qy,
        ;
        assert(axm * axm == (x * x) * (m * m)) by (nonlinear_arith)
            requires
                axm * axm == (x * m) * (x * m),
        ;
        assert(aym * aym == (y * y) * (m * m)) by (nonlinear_arith)
            requires
                aym * aym == (y * m) * (y * m),
        ;
        assert((qx * qx + qy * qy) * (s * s) == (qx * qx) * (s * s) + (qy * qy) * (s * s))
            by (nonlinear_arith);
        assert((x * x) * (m * m) + (y * y) * (m * m) == n2 * (m * m)) by (nonlinear_arith)
            requires
                n2 == x * x + y * y,
        ;
        assert(n2 * (m * m) <= (s * s) * (m * m)) by (nonlinear_arith)
            requires
                n2 <= s * s,
                0 <= m * m,
        ;
        assert(qx * qx + qy * qy <= m * m) by (nonlinear_arith)
            requires
                (qx * qx + qy * qy) * (s * s) <= (s * s) * (m * m),
                1 <= s,
        ;
    }
}

/// Scaling up reaches at least the target magnitude, and each resulting
/// component has magnitude at most the target.
pub proof fn lemma_scale_up_ge(x: int, y: int, m: int)
    requires
        m >= 0,
        sq(x) + sq(y) >= 1,
    ensures
        ({
            let r = spec_scale_up(x, y, m);
            sq(r.0) + sq(r.1) >= sq(m) && -m <= r.0 <= m && -m <= r.1 <= m
        }),
{
    let n2 = sq(x) + sq(y);
    lemma_sqrt_floor_props(n2);
    let s = sqrt_floor(n2);
    assert(s >= 1) by (nonlinear_arith)
        requires
            n2 >= 1,
            s >= 0,
            n2 < (s + 1) * (s + 1),
    ;
    let qx = div_away(x * m, s);
    let qy = div_away(y * m, s);
    lemma_div_away_facts(x * m, s);
    lemma_div_away_facts(y * m, s);
    let aqx = abs(qx) as int;
    let aqy = abs(qy) as int;
    let axm = abs(x * m) as int;
    let aym = abs(y * m) as int;
    let ax = abs(x) as int;
    let ay = abs(y) as int;
    lemma_abs_sq(qx);
    lemma_abs_sq(qy);
    lemma_abs_sq(x * m);
    lemma_abs_sq(y * m);
    // components of the input are bounded by the floor square root
    assert(-s <= x <= s && -s <= y <= s) by (nonlinear_arith)
        requires
            x * x + y * y == n2,
            n2 < (s + 1) * (s + 1),
            s >= 0,
    ;
    // lower bound: the scaled sum of squares reaches the target
    assert(axm * axm <= (aqx * s) * (aqx * s)) by (nonlinear_arith)
        requires
            0 <= axm,
            axm <= aqx * s,
    ;
    assert(aym * aym <= (aqy * s) * (aqy * s)) by (nonlinear_arith)
        requires
            0 <= aym,
            aym <= aqy * s,
    ;
    assert((aqx * s) * (aqx * s) == (qx * qx) * (s * s)) by (nonlinear_arith)
        requires
            aqx * aqx == qx * qx,
    ;
    assert((aqy * s) * (aqy * s) == (qy * qy) * (s * s)) by (nonlinear_arith)
        requires
            aqy * aqy == qy * qy,
    ;
    assert(axm * axm == (x * x) * (m * m)) by (nonlinear_arith)
        requires
            axm * axm == (x * m) * (x * m),
    ;
    assert(aym * aym == (y * y) * (m * m)) by (nonlinear_arith)
        requires
            aym * aym == (y * m) * (y * m),
    ;
    assert((qx * qx + qy * qy) * (s * s) == (qx * qx) * (s * s) + (qy * qy) * (s * s))
        by (nonlinear_arith);
    assert((x * x) * (m * m) + (y * y) * (m * m) == n2 * (m * m)) by (nonlinear_arith)
        requires
            n2 == x * x + y * y,
    ;
    assert(n2 * (m * m) >= (s * s) * (m * m)) by (nonlinear_arith)
        requires
            n2 >= s * s,
            0 <= m * m,
    ;
    assert(qx * qx + qy * qy >= m * m) by (nonlinear_arith)
        requires
            (qx * qx + qy * qy) * (s * s) >= (s * s) * (m * m),
            1 <= s,
    ;
    // upper bound: each component magnitude is at most the target
    assert(axm == ax * m && aym == ay * m) by (nonlinear_arith)
        requires
            m >= 0,
            ax == (if x >= 0 { x } else { -x }),
            ay == (if y >= 0 { y } else { -y }),
            axm == (if x * m >= 0 { x * m } else { -(x * m) }),
            aym == (if y * m >= 0 { y * m } else { -(y * m) }),
    ;
    assert(ax * m <= s * m && ay * m <= s * m) by (nonlinear_arith)
        requires
            0 <= ax <= s,
            0 <= ay <= s,
            0 <= m,
    ;
    assert(aqx <= m && aqy <= m) by (nonlinear_arith)
        requires
            aqx * s < s * m + s,
            aqy * s < s * m + s,
            s >= 1,
            aqx >= 0,
            aqy >= 0,
    ;
}

/// Clamping down from above the bound loses at most `SPEED_SLACK` of
/// magnitude: the result is no shorter than `m - SPEED_SLACK`.
pub proof fn lemma_clamp_mag_down_lower(x: int, y: int, m: int)
    requires
        m >= SPEED_SLACK,
        sq(x) + sq(y) > sq(m),
    ensures
        ({
            let r = spec_clamp_mag_down(x, y, m);
            sq(r.0) + sq(r.1) >= sq(m - SPEED_SLACK)
        }),
{
    let n2 = sq(x) + sq(y);
    lemma_sqrt_ceil_props(n2);
    let s = sqrt_ceil(n2);
    assert(n2 >= 1) by (nonlinear_arith)
        requires
            n2 > m * m,
            m >= 0,
    ;
    // the ceiling square root is close: (s - 1)^2 < n2 <= s^2
    lemma_sqrt_floor_props(n2);
    let f = sqrt_floor(n2);
    if sq(f) == n2 {
        assert(sq(s - 1) < n2) by (nonlinear_arith)
            requires
                s == f,
                s >= 1,
                n2 == s * s,
        ;
    } else {
        assert(sq(s - 1) < n2);
    }
    // s is strictly above m
    assert(s >= m + 1) by (nonlinear_arith)
        requires
            n2 > m * m,
            n2 <= s * s,
            s >= 0,
            m >= 0,
    ;
    let qx = div_trunc(x * m, s);
    let qy = div_trunc(y * m, s);
    lemma_div_trunc_facts(x * m, s);
    lemma_div_trunc_facts(y * m, s);
    let aqx = abs(qx) as int;
    let aqy = abs(qy) as int;
    let axm = abs(x * m) as int;
    let aym = abs(y * m) as int;
    let ax = abs(x) as int;
    let ay = abs(y) as int;
    lemma_abs_sq(qx);
    lemma_abs_sq(qy);
    lemma_abs_sq(x * m);
    lemma_abs_sq(y * m);
    // input components are bounded by s
    assert(-s <= x <= s && -s <= y <= s) by (nonlinear_arith)
        requires
            x * x + y * y == n2,
            n2 <= s * s,
            s >= 0,
    ;
    assert(axm == ax * m && aym == ay * m) by (nonlinear_arith)
        requires
            m >= 0,
            ax == (if x >= 0 { x } else { -x }),
            ay == (if y >= 0 { y } else { -y }),
            axm == (if x * m >= 0 { x * m } else { -(x * m) }),
            aym == (if y * m >= 0 { y * m } else { -(y * m) }),
    ;
    assert(ax * m <= s * m && ay * m <= s * m) by (nonlinear_arith)
        requires
            0 <= ax <= s,
            0 <= ay <= s,
            0 <= m,
    ;
    // each clamped component magnitude is at most m
    assert(aqx <= m && aqy <= m) by (nonlinear_arith)
        requires
            aqx * s <= s * m,
            aqy * s <= s * m,
            s >= 1,
            aqx >= 0,
            aqy >= 0,
    ;
    // lower bound on each scaled component square
    let gx = (aqx + 1) * s;
    let gy = (aqy + 1) * s;
    assert(axm * axm < gx * gx) by (nonlinear_arith)
        requires
            0 <= axm,
            axm < gx,
    ;
    assert(aym * aym < gy * gy) by (nonlinear_arith)
        requires
            0 <= aym,
            aym < gy,
    ;
    assert(gx * gx == (s * s) * (aqx * aqx + 2 * aqx + 1)) by (nonlinear_arith)
        requires
            gx == (aqx + 1) * s,
    ;
    assert(gy * gy == (s * s) * (aqy * aqy + 2 * aqy + 1)) by (nonlinear_arith)
        requires
            gy == (aqy + 1) * s,
    ;
    assert(axm * axm == (x * x) * (m * m)) by (nonlinear_arith)
        requires
            axm * axm == (x * m) * (x * m),
    ;
    assert(aym * aym == (y * y) * (m * m)) by (nonlinear_arith)
        requires
            aym * aym == (y * m) * (y * m),
    ;
    assert((x * x) * (m * m) + (y * y) * (m * m) == n2 * (m * m)) by (nonlinear_arith)
        requires
            n2 == x * x + y * y,
    ;
    // sum the two components
    let q2 = aqx * aqx + aqy * aqy;
    assert((s * s) * (aqx * aqx + 2 * aqx + 1) + (s * s) * (aqy * aqy + 2 * aqy + 1)
        == (s * s) * (q2 + 2 * aqx + 2 * aqy + 2)) by (nonlinear_arith)
        requires
            q2 == aqx * aqx + aqy * aqy,
    ;
    assert((s * s) * (q2 + 2 * aqx + 2 * aqy + 2) <= (s * s) * (q2 + 4 * m + 2))
        by (nonlinear_arith)
        requires
            aqx + aqy <= 2 * m,
            0 <= s * s,
    ;
    assert(n2 * (m * m) >= ((s - 1) * (s - 1) + 1) * (m * m)) by (nonlinear_arith)
        requires
            n2 >= (s - 1) * (s - 1) + 1,
            0 <= m * m,
    ;
    // the polynomial core of the bound
    assert(2 * (s * (m * m)) <= 2 * ((s * s) * m)) by (nonlinear_arith)
        requires
            0 <= m <= s,
    ;
    assert((s * s) * (10 * m - 66) == 10 * ((s * s) * m) - 66 * (s * s)) by (nonlinear_arith);
    assert((s * s) * (10 * m - 66) >= 0) by (nonlinear_arith)
        requires
            m >= 8,
    ;
    assert(((s - 1) * (s - 1) + 1) * (m * m) - (s * s) * ((m - 8) * (m - 8) + 4 * m + 2)
        == 12 * ((s * s) * m) - 2 * (s * (m * m)) + 2 * (m * m) - 66 * (s * s))
        by (nonlinear_arith);
    assert(0 <= m * m) by (nonlinear_arith);
    assert(((s - 1) * (s - 1) + 1) * (m * m) >= (s * s) * ((m - 8) * (m - 8) + 4 * m + 2));
    assert(q2 >= (m - 8) * (m - 8)) by (nonlinear_arith)
        requires
            (s * s) * (q2 + 4 * m + 2) >= (s * s) * ((m - 8) * (m - 8) + 4 * m + 2),
            s >= 1,
    ;
}

/// Squared magnitude of a vector given by components, in `i128`.
pub fn norm2_i128(x: i64, y: i64) -> (n: i128)
    requires
        -0x4000_0000_0000_0000 <= x <= 0x4000_0000_0000_0000,
        -0x4000_0000_0000_0000 <= y <= 0x4000_0000_0000_0000,
    ensures
        n == sq(x as int) + sq(y as int),
        0 <= n <= 0x2000_0000_0000_0000_0000_0000_0000_0000i128,
{
    let xi = x as i128;
    let yi = y as i128;
    proof {
        assert(0 <= xi * xi <= 0x1000_0000_0000_0000_0000_0000_0000_0000i128) by (nonlinear_arith)
            requires
                -0x4000_0000_0000_0000 <= xi <= 0x4000_0000_0000_0000,
        ;
        assert(0 <= yi * yi <= 0x1000_0000_0000_0000_0000_0000_0000_0000i128) by (nonlinear_arith)
            requires
                -0x4000_0000_0000_0000 <= yi <= 0x4000_0000_0000_0000,
        ;
    }
    xi * xi + yi * yi
}

/// Clamp a vector's magnitude down to `m`, exactly as `spec_clamp_mag_down`.
pub fn clamp_mag_down_vec(v: Vec2, m: i64) -> (r: Vec2)
    requires
        0 <= m <= 0x4000_0000,
        -0x4000_0000_0000_0000 <= v.x <= 0x4000_0000_0000_0000,
        -0x4000_0000_0000_0000 <= v.y <= 0x4000_0000_0000_0000,
    ensures
        (r.x as int, r.y as int) == spec_clamp_mag_down(v.x as int, v.y as int, m as int),
        r.norm2() <= sq(m as int),
{
    proof {
        lemma_clamp_mag_down_le(v.x as int, v.y as int, m as int);
        assert(0 <= (m as i128) * (m as i128) <= 0x1000_0000_0000_0000i128) by (nonlinear_arith)
            requires
                0 <= m as i128 <= 0x4000_0000,
        ;
    }
    let n2 = norm2_i128(v.x, v.y);
    let m2 = (m as i128) * (m as i128);
    if n2 <= m2 {
        v
    } else {
        proof {
            lemma_sqrt_ceil_props(n2 as int);
        }
        let s = isqrt_ceil_u128(n2 as u128) as i128;
        proof {
            assert(s >= 1);
            assert(-0x8000_0000_0000_0000_0000_0000i128 <= (v.x as i128) * (m as i128)
                <= 0x8000_0000_0000_0000_0000_0000i128) by (nonlinear_arith)
                requires
                    -0x4000_0000_0000_0000 <= v.x as i128 <= 0x4000_0000_0000_0000,
                    0 <= m as i128 <= 0x4000_0000,
            ;
            assert(-0x8000_0000_0000_0000_0000_0000i128 <= (v.y as i128) * (m as i128)
                <= 0x8000_0000_0000_0000_0000_0000i128) by (nonlinear_arith)
                requires
                    -0x4000_0000_0000_0000 <= v.y as i128 <= 0x4000_0000_0000_0000,
                    0 <= m as i128 <= 0x4000_0000,
            ;
        }
        let qx = div_trunc_i128((v.x as i128) * (m as i128), s);
        let qy = div_trunc_i128((v.y as i128) * (m as i128), s);
        proof {
            let rr = spec_clamp_mag_down(v.x as int, v.y as int, m as int);
            lemma_comp_le_norm(rr.0, rr.1, m as int);
        }
        Vec2 { x: qx as i64, y: qy as i64 }
    }
}

/// Clamp a vector's magnitude into `[lo, hi]`, exactly as `spec_clamp_speed`.
pub fn clamp_speed_vec(v: Vec2, lo: i64, hi: i64) -> (r: Vec2)
    requires
        0 <= lo <= hi <= 0x4000_0000,
        -0x4000_0000_0000_0000 <= v.x <= 0x4000_0000_0000_0000,
        -0x4000_0000_0000_0000 <= v.y <= 0x4000_0000_0000_0000,
    ensures
        (r.x as int, r.y as int) == spec_clamp_speed(v.x as int, v.y as int, lo as int, hi as int),
        r.norm2() <= sq(hi as int),
        lo >= SPEED_SLACK ==> r.norm2() >= sq(lo - SPEED_SLACK),
{
    let n2 = norm2_i128(v.x, v.y);
    proof {
        assert(0 <= (lo as i128) * (lo as i128) <= 0x1000_0000_0000_0000i128) by (nonlinear_arith)
            requires
                0 <= lo as i128 <= 0x4000_0000,
        ;
    }
    let lo2 = (lo as i128) * (lo as i128);
    proof {
        assert(sq(lo as int) <= sq(hi as int)) by (nonlinear_arith)
            requires
                0 <= lo as int <= hi as int,
        ;
        if lo >= SPEED_SLACK {
            assert(sq(lo as int - SPEED_SLACK as int) <= sq(lo as int)) by (nonlinear_arith)
                requires
                    0 <= lo as int - SPEED_SLACK as int <= lo as int,
            ;
            assert(sq(hi as int - SPEED_SLACK as int) >= sq(lo as int - SPEED_SLACK as int))
                by (nonlinear_arith)
                requires
                    0 <= lo as int - SPEED_SLACK as int <= hi as int - SPEED_SLACK as int,
            ;
        }
    }
    if n2 == 0 {
        Vec2 { x: lo, y: 0 }
    } else if n2 < lo2 {
        proof {
            lemma_scale_up_ge(v.x as int, v.y as int, lo as int);
            lemma_sqrt_floor_props(n2 as int);
            assert((n2 as int) < sq(lo as int));
        }
        let s = isqrt_u128(n2 as u128) as i128;
        proof {
            assert(s >= 1) by (nonlinear_arith)
                requires
                    s as int == sqrt_floor(n2 as int),
                    s as int >= 0,
                    n2 as int >= 1,
                    (n2 as int) < (s as int + 1) * (s as int + 1),
            ;
            assert(-0x8000_0000_0000_0000_0000_0000i128 <= (v.x as i128) * (lo as i128)
                <= 0x8000_0000_0000_0000_0000_0000i128) by (nonlinear_arith)
                requires
                    -0x4000_0000_0000_0000 <= v.x as i128 <= 0x4000_0000_0000_0000,
                    0 <= lo as i128 <= 0x4000_0000,
            ;
            assert(-0x8000_0000_0000_0000_0000_0000i128 <= (v.y as i128) * (lo as i128)
                <= 0x8000_0000_0000_0000_0000_0000i128) by (nonlinear_arith)
                requires
                    -0x4000_0000_0000_0000 <= v.y as i128 <= 0x4000_0000_0000_0000,
                    0 <= lo as i128 <= 0x4000_0000,
            ;
        }
        let ux = div_away_i128((v.x as i128) * (lo as i128), s);
        let uy = div_away_i128((v.y as i128) * (lo as i128), s);
        proof {
            let us = spec_scale_up(v.x as int, v.y as int, lo as int);
            assert(us.0 == ux as int && us.1 == uy as int);
            assert(-lo <= ux <= lo && -lo <= uy <= lo);
        }
        let u = Vec2 { x: ux as i64, y: uy as i64 };
        let r = clamp_mag_down_vec(u, hi);
        proof {
            let us = spec_scale_up(v.x as int, v.y as int, lo as int);
            if sq(us.0) + sq(us.1) > sq(hi as int) && lo >= SPEED_SLACK {
                lemma_clamp_mag_down_lower(us.0, us.1, hi as int);
            }
        }
        r
    } else {
        let r = clamp_mag_down_vec(v, hi);
        proof {
            if v.norm2() > sq(hi as int) && lo >= SPEED_SLACK {
                lemma_clamp_mag_down_lower(v.x as int, v.y as int, hi as int);
            }
        }
        r
    }
}

} // verus!
