//! Fixed-point sine and cosine of angles in degrees.
//!
//! The sine uses Bhaskara I's rational approximation on the folded
//! quarter turn; the cosine is reconstructed as the square root of
//! `1 - sin^2` with the sign of the true cosine. That construction pins
//! `sin^2 + cos^2` within a couple of units of one, which is what the
//! camera's normalization proofs lean on.

use crate::fixed::{
    div_round, div_round_i128, isqrt, lemma_div_round_le, lemma_isqrt_bounds, lemma_isqrt_unique,
    lemma_mul_abs_le, mul_ii, spec_isqrt, SCALE, SCALE_SQ,
};
use vstd::arithmetic::div_mod::{
    lemma_mod_add_multiples_vanish, lemma_mod_bound, lemma_mod_sub_multiples_vanish,
};
use vstd::prelude::*;

verus! {

pub const DEG90: i64 = 90_000_000;

pub const DEG180: i64 = 180_000_000;

pub const DEG360: i64 = 360_000_000;

/// Largest angle magnitude the reduction accepts.
pub const ANGLE_LIMIT: i64 = 40_000_000_000_000;

/// The representative of `a` in the half-open turn `(-180, 180]`.
pub open spec fn reduce_deg(a: int) -> int {
    let m = a % (DEG360 as int);
    if m > DEG180 {
        m - DEG360
    } else {
        m
    }
}

/// Fold a reduced angle into the half turn `[-90, 90]` without changing
/// its sine.
pub open spec fn fold_half(r: int) -> int {
    if r > DEG90 {
        DEG180 - r
    } else if r < -DEG90 {
        -DEG180 - r
    } else {
        r
    }
}

/// Bhaskara I's approximation of `sin(x degrees)` for `x` in `[0, 90]`:
/// `4 x (180 - x) / (40500 - x (180 - x))`, carried to the fixed-point
/// grid.
pub open spec fn bhaskara(x: int) -> int {
    div_round(
        4 * SCALE * (x * (DEG180 - x)),
        40500 * SCALE_SQ - x * (DEG180 - x),
    )
}

pub open spec fn sin_reduced(r: int) -> int {
    let f = fold_half(r);
    if f >= 0 {
        bhaskara(f)
    } else {
        -bhaskara(-f)
    }
}

pub open spec fn spec_fx_sin(a: int) -> int {
    sin_reduced(reduce_deg(a))
}

/// Cosine: magnitude from `sqrt(1 - sin^2)`, sign from the quadrant.
pub open spec fn spec_fx_cos(a: int) -> int {
    let r = reduce_deg(a);
    let s = spec_fx_sin(a);
    if -DEG90 <= r <= DEG90 {
        spec_isqrt(SCALE_SQ - s * s)
    } else {
        -spec_isqrt(SCALE_SQ - s * s)
    }
}

/// `x (180 - x)` peaks at the quarter turn.
proof fn lemma_bhaskara_core_bounds(x: int)
    requires
        0 <= x <= DEG90,
    ensures
        0 <= x * (DEG180 - x) <= 8100 * SCALE_SQ,
{
    assert(0 <= x * (DEG180 - x)) by (nonlinear_arith)
        requires
            0 <= x <= 180_000_000,
    ;
    assert((x - 90_000_000) * (x - 90_000_000) >= 0) by (nonlinear_arith);
    assert(x * (180_000_000 - x) == 8100_000_000_000_000 - (x - 90_000_000) * (x - 90_000_000))
        by (nonlinear_arith);
}

/// The approximation stays within `[0, 1]` on the quarter turn.
proof fn lemma_bhaskara_range(x: int)
    requires
        0 <= x <= DEG90,
    ensures
        0 <= bhaskara(x) <= SCALE,
{
    lemma_bhaskara_core_bounds(x);
    let p = x * (DEG180 - x);
    let num = 4 * SCALE * p;
    let den = 40500 * SCALE_SQ - p;
    assert(den > 0);
    assert(num <= SCALE * den && -(SCALE * den) <= num) by (nonlinear_arith)
        requires
            0 <= p <= 8100 * SCALE_SQ,
            num == 4 * SCALE * p,
            den == 40500 * SCALE_SQ - p,
    ;
    lemma_div_round_le(num, den, SCALE as int);
}

/// Executable Bhaskara sine on the folded quarter turn.
fn bhaskara_exec(x: i64) -> (s: i64)
    requires
        0 <= x <= DEG90,
    ensures
        s == bhaskara(x as int),
        0 <= s <= SCALE,
{
    proof {
        lemma_bhaskara_core_bounds(x as int);
        lemma_bhaskara_range(x as int);
    }
    let p = mul_ii(x, DEG180 - x);
    let num = 4 * (SCALE as i128) * p;
    let den = 40500 * (SCALE_SQ as i128) - p;
    div_round_i128(num, den) as i64
}

/// Reduce an angle to `(-180, 180]` degrees.
fn reduce_angle(a: i64) -> (r: i64)
    requires
        -ANGLE_LIMIT <= a <= ANGLE_LIMIT,
    ensures
        r == reduce_deg(a as int),
        -DEG180 < r <= DEG180,
{
    let mut r = a;
    while r > DEG180
        invariant
            r % DEG360 == a % DEG360,
            r <= ANGLE_LIMIT,
            -ANGLE_LIMIT - DEG360 < r,
        decreases r + ANGLE_LIMIT + DEG360,
    {
        proof {
            lemma_mod_sub_multiples_vanish(r as int, DEG360 as int);
        }
        r = r - DEG360;
    }
    while r <= -DEG180
        invariant
            r % DEG360 == a % DEG360,
            r <= DEG180,
            -ANGLE_LIMIT - DEG360 < r,
        decreases DEG180 - r,
    {
        proof {
            lemma_mod_add_multiples_vanish(r as int, DEG360 as int);
        }
        r = r + DEG360;
    }
    proof {
        lemma_mod_bound(a as int, DEG360 as int);
        if r >= 0 {
            vstd::arithmetic::div_mod::lemma_small_mod(r as nat, DEG360 as nat);
        } else {
            lemma_mod_add_multiples_vanish(r as int, DEG360 as int);
            vstd::arithmetic::div_mod::lemma_small_mod((r + DEG360) as nat, DEG360 as nat);
        }
    }
    r
}

/// A zero angle has exactly zero sine and exactly unit cosine, so a
/// rotation by zero is exactly the identity.
pub proof fn lemma_sincos_zero()
    ensures
        spec_fx_sin(0) == 0,
        spec_fx_cos(0) == SCALE,
{
    vstd::arithmetic::div_mod::lemma_small_mod(0nat, DEG360 as nat);
    assert(reduce_deg(0) == 0);
    assert(fold_half(0) == 0);
    assert(0 * (DEG180 - 0) == 0);
    crate::fixed::lemma_div_round_exact(0, 40500 * SCALE_SQ - 0 * (DEG180 - 0));
    assert(0 * (40500 * SCALE_SQ - 0 * (DEG180 - 0)) == 0) by (nonlinear_arith);
    assert(bhaskara(0) == 0);
    assert(spec_fx_sin(0) == 0);
    assert(SCALE * SCALE == SCALE_SQ && (SCALE + 1) * (SCALE + 1) == SCALE_SQ + 2 * SCALE + 1)
        by (nonlinear_arith)
        requires
            SCALE == 1_000_000,
            SCALE_SQ == 1_000_000_000_000,
    ;
    lemma_isqrt_unique(SCALE_SQ - 0 * 0, SCALE as int);
}

/// On the half-fov range the sine is strictly positive, so the
/// perspective ratio `cos / sin` is well defined.
pub proof fn lemma_sin_half_fov(x: int)
    requires
        500_000 <= x <= 89_500_000,
    ensures
        spec_fx_sin(x) == bhaskara(x),
        1 <= spec_fx_sin(x) <= SCALE,
        0 <= spec_fx_cos(x) <= SCALE,
{
    vstd::arithmetic::div_mod::lemma_small_mod(x as nat, DEG360 as nat);
    assert(reduce_deg(x) == x);
    assert(fold_half(x) == x);
    lemma_bhaskara_core_bounds(x);
    lemma_bhaskara_range(x);
    let p = x * (DEG180 - x);
    let num = 4 * SCALE * p;
    let den = 40500 * SCALE_SQ - p;
    assert(p >= 45_250_000_000_000) by (nonlinear_arith)
        requires
            p == x * (DEG180 - x),
            x >= 500_000,
            DEG180 - x >= 90_500_000,
            DEG180 == 180_000_000,
    ;
    assert(num >= 181_000_000_000_000_000_000 && den <= 40_500_000_000_000_000 && den > 0)
        by (nonlinear_arith)
        requires
            num == 4 * SCALE * p,
            den == 40500 * SCALE_SQ - p,
            0 <= p <= 8100 * SCALE_SQ,
            p >= 45_250_000_000_000,
            SCALE == 1_000_000,
            SCALE_SQ == 1_000_000_000_000,
    ;
    let sv = div_round(num, den);
    crate::fixed::lemma_div_round_err(num, den);
    vstd::arithmetic::div_mod::lemma_fundamental_div_mod(den, 2);
    vstd::arithmetic::div_mod::lemma_mod_bound(den, 2);
    assert(den * sv >= num - den);
    assert(sv >= 1) by (nonlinear_arith)
        requires
            den * sv >= num - den,
            num >= 181_000_000_000_000_000_000,
            0 < den <= 40_500_000_000_000_000,
    ;
    let s = spec_fx_sin(x);
    crate::vec3::lemma_sq_nonneg(s);
    lemma_mul_abs_le(s, s, SCALE as int, SCALE as int);
    lemma_isqrt_bounds(SCALE_SQ - s * s);
    let m = spec_isqrt(SCALE_SQ - s * s);
    assert(m <= SCALE) by (nonlinear_arith)
        requires
            0 <= m,
            m * m <= SCALE_SQ - s * s,
            0 <= s * s,
            SCALE_SQ == 1_000_000_000_000,
            SCALE == 1_000_000,
    ;
}

/// Sine and cosine of an angle in fixed-point degrees. The pair lands on
/// or just inside the unit circle: `c*c + s*s` is within `2 * SCALE + 1`
/// below `SCALE_SQ` and never above it.
pub fn fx_sincos(angle: i64) -> (cs: (i64, i64))
    requires
        -ANGLE_LIMIT <= angle <= ANGLE_LIMIT,
    ensures
        cs.0 == spec_fx_cos(angle as int),
        cs.1 == spec_fx_sin(angle as int),
        -SCALE <= cs.0 <= SCALE,
        -SCALE <= cs.1 <= SCALE,
        SCALE_SQ - 2 * SCALE - 1 <= cs.0 * cs.0 + cs.1 * cs.1 <= SCALE_SQ,
{
    let r = reduce_angle(angle);
    let f = if r > DEG90 {
        DEG180 - r
    } else if r < -DEG90 {
        -DEG180 - r
    } else {
        r
    };
    let s = if f >= 0 {
        bhaskara_exec(f)
    } else {
        proof {
            lemma_bhaskara_range(-f as int);
        }
        -bhaskara_exec(-f)
    };
    proof {
        lemma_mul_abs_le(s as int, s as int, SCALE as int, SCALE as int);
        assert(s * s >= 0) by (nonlinear_arith);
        lemma_isqrt_bounds(SCALE_SQ - s * s);
    }
    let s2 = mul_ii(s, s);
    let mag = isqrt(((SCALE_SQ as i128) - s2) as u128);
    proof {
        let m = mag as int;
        assert(m <= SCALE) by (nonlinear_arith)
            requires
                0 <= m,
                m * m <= SCALE_SQ - s * s,
                s * s >= 0,
                SCALE_SQ == 1_000_000_000_000,
                SCALE == 1_000_000,
        ;
    }
    let c = if -DEG90 <= r && r <= DEG90 {
        mag as i64
    } else {
        -(mag as i64)
    };
    proof {
        let m = mag as int;
        assert(c * c == m * m) by (nonlinear_arith)
            requires
                c == m || c == -m,
        ;
        assert((m + 1) * (m + 1) == m * m + 2 * m + 1) by (nonlinear_arith);
    }
    (c, s)
}

} // verus!
