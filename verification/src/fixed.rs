//! Fixed-point scalar arithmetic.
//!
//! A quantity of `SCALE` raw units stands for 1.0. Products of two scaled
//! quantities are divided by `SCALE` with rounding to nearest (ties away
//! from zero), so every operation lands on the representable value
//! closest to the real one.

use vstd::arithmetic::div_mod::{
    lemma_basic_div, lemma_fundamental_div_mod, lemma_hoist_over_denominator, lemma_mod_bound,
};
use vstd::prelude::*;

verus! {

/// Raw units per 1.0 of the fixed-point representation.
pub const SCALE: i64 = 1_000_000;

/// `SCALE * SCALE`, raw units per 1.0 of a product of two scaled values.
pub const SCALE_SQ: i64 = 1_000_000_000_000;

/// Nearest integer to `a / d` (for positive `d`), ties rounded away from
/// zero. Division on `int` is Euclidean, so the negative side is mirrored
/// explicitly.
pub open spec fn div_round(a: int, d: int) -> int {
    if a >= 0 {
        (a + d / 2) / d
    } else {
        -((-a + d / 2) / d)
    }
}

/// `a` pulled into `[-lim, lim]`.
pub open spec fn clamp(a: int, lim: int) -> int {
    if a < -lim {
        -lim
    } else if a > lim {
        lim
    } else {
        a
    }
}

/// Floor square root: the largest `r` with `r * r <= n` (0 for `n <= 0`),
/// by the classical radix-4 recurrence.
pub open spec fn spec_isqrt(n: int) -> int
    decreases n,
{
    if n <= 0 {
        0
    } else {
        let r = 2 * spec_isqrt(n / 4);
        if (r + 1) * (r + 1) <= n {
            r + 1
        } else {
            r
        }
    }
}

/// Magnitude bound for a product from magnitude bounds on its factors.
pub proof fn lemma_mul_abs_le(a: int, b: int, aa: int, bb: int)
    by (nonlinear_arith)
    requires
        -aa <= a <= aa,
        -bb <= b <= bb,
    ensures
        -(aa * bb) <= a * b <= aa * bb,
{
}

/// Rounded division misses the exact quotient by at most half the divisor:
/// `|d * div_round(a, d) - a| <= d / 2`.
pub proof fn lemma_div_round_err(a: int, d: int)
    requires
        0 < d,
    ensures
        -(d / 2) <= d * div_round(a, d) - a <= d / 2,
{
    lemma_fundamental_div_mod(d, 2);
    lemma_mod_bound(d, 2);
    if a >= 0 {
        let x = a + d / 2;
        let q = x / d;
        lemma_fundamental_div_mod(x, d);
        lemma_mod_bound(x, d);
        assert(div_round(a, d) == q);
        assert(d * q - a == d / 2 - (x % d));
    } else {
        let x = -a + d / 2;
        let q = x / d;
        lemma_fundamental_div_mod(x, d);
        lemma_mod_bound(x, d);
        assert(div_round(a, d) == -q);
        assert(d * -q == -(d * q)) by (nonlinear_arith);
        assert(d * -q - a == (x % d) - d / 2);
    }
}

/// Rounded division of an exact multiple recovers the factor.
pub proof fn lemma_div_round_exact(x: int, d: int)
    requires
        0 < d,
    ensures
        div_round(x * d, d) == x,
{
    assert(x >= 0 ==> x * d >= 0) by (nonlinear_arith)
        requires
            d > 0,
    ;
    assert(x < 0 ==> x * d < 0) by (nonlinear_arith)
        requires
            d > 0,
    ;
    lemma_basic_div(d / 2, d);
    lemma_fundamental_div_mod(d, 2);
    lemma_mod_bound(d, 2);
    if x * d >= 0 {
        lemma_hoist_over_denominator(d / 2, x, d as nat);
        assert((d / 2 + x * d) / d == d / 2 / d + x);
    } else {
        lemma_hoist_over_denominator(d / 2, -x, d as nat);
        assert((d / 2 + -x * d) / d == d / 2 / d + -x);
        assert(-(x * d) + d / 2 == d / 2 + -x * d) by (nonlinear_arith);
    }
}

/// Magnitude bound for rounded division: `|a| <= b * d` gives
/// `|div_round(a, d)| <= b`.
pub proof fn lemma_div_round_le(a: int, d: int, b: int)
    requires
        0 < d,
        0 <= b,
        -(b * d) <= a <= b * d,
    ensures
        -b <= div_round(a, d) <= b,
{
    lemma_div_round_err(a, d);
    let r = div_round(a, d);
    lemma_fundamental_div_mod(d, 2);
    lemma_mod_bound(d, 2);
    assert(d * r <= b * d + d / 2);
    assert(d * r >= -(b * d) - d / 2);
    assert(d * r <= b * d + d / 2 && d / 2 * 2 <= d ==> r <= b) by (nonlinear_arith)
        requires
            d > 0,
            0 <= b,
    ;
    assert(d * r >= -(b * d) - d / 2 && d / 2 * 2 <= d ==> r >= -b) by (nonlinear_arith)
        requires
            d > 0,
            0 <= b,
    ;
}

/// The floor square root of a nonnegative number brackets it between
/// consecutive squares.
pub proof fn lemma_isqrt_bounds(n: int)
    requires
        n >= 0,
    ensures
        0 <= spec_isqrt(n),
        spec_isqrt(n) * spec_isqrt(n) <= n,
        n < (spec_isqrt(n) + 1) * (spec_isqrt(n) + 1),
    decreases n,
{
    if n <= 0 {
    } else {
        lemma_isqrt_bounds(n / 4);
        let r0 = spec_isqrt(n / 4);
        lemma_fundamental_div_mod(n, 4);
        lemma_mod_bound(n, 4);
        assert(4 * (n / 4) <= n);
        assert(n <= 4 * (n / 4) + 3);
        let r = 2 * r0;
        assert(r * r == 4 * (r0 * r0)) by (nonlinear_arith)
            requires
                r == 2 * r0,
        ;
        assert(r * r <= n);
        assert((r + 2) * (r + 2) == 4 * ((r0 + 1) * (r0 + 1))) by (nonlinear_arith)
            requires
                r == 2 * r0,
        ;
        assert(n < (r + 2) * (r + 2));
        if (r + 1) * (r + 1) <= n {
            assert(spec_isqrt(n) == r + 1);
        } else {
            assert(spec_isqrt(n) == r);
        }
    }
}

/// Any `r` bracketing `n` between `r * r` and `(r + 1) * (r + 1)` is the
/// floor square root.
pub proof fn lemma_isqrt_unique(n: int, r: int)
    requires
        0 <= r,
        r * r <= n,
        n < (r + 1) * (r + 1),
    ensures
        r == spec_isqrt(n),
{
    lemma_isqrt_bounds(n);
    let q = spec_isqrt(n);
    assert(q < r + 1 && r < q + 1) by (nonlinear_arith)
        requires
            0 <= r,
            0 <= q,
            r * r <= n,
            n < (r + 1) * (r + 1),
            q * q <= n,
            n < (q + 1) * (q + 1),
    ;
}

/// Product of two `i64` values, widened so it cannot overflow.
pub fn mul_ii(a: i64, b: i64) -> (r: i128)
    ensures
        r == a * b,
{
    proof {
        lemma_mul_abs_le(a as int, b as int, 0x8000_0000_0000_0000, 0x8000_0000_0000_0000);
    }
    (a as i128) * (b as i128)
}

/// Rounded division in executable form; mirrors `div_round`. The operand
/// bounds leave headroom so the intermediate sums stay in range.
pub fn div_round_i128(a: i128, d: i128) -> (r: i128)
    requires
        0 < d < 0x4000_0000_0000_0000_0000_0000_0000_0000i128,
        -0x4000_0000_0000_0000_0000_0000_0000_0000i128 < a
            < 0x4000_0000_0000_0000_0000_0000_0000_0000i128,
    ensures
        r == div_round(a as int, d as int),
{
    let du = d as u128;
    if a >= 0 {
        let q = (a as u128 + du / 2) / du;
        proof {
            let x = a + d / 2;
            let qi = x / (d as int);
            lemma_fundamental_div_mod(x, d as int);
            lemma_mod_bound(x, d as int);
            assert(qi >= 0 && qi <= d * qi) by (nonlinear_arith)
                requires
                    d >= 1,
                    d * qi == x - (x % (d as int)),
                    x >= 0,
                    0 <= x % (d as int) < d,
            ;
            assert(q == qi);
        }
        q as i128
    } else {
        let m = (-a) as u128;
        let q = (m + du / 2) / du;
        proof {
            let x = -a + d / 2;
            let qi = x / (d as int);
            lemma_fundamental_div_mod(x, d as int);
            lemma_mod_bound(x, d as int);
            assert(qi >= 0 && qi <= d * qi) by (nonlinear_arith)
                requires
                    d >= 1,
                    d * qi == x - (x % (d as int)),
                    x >= 0,
                    0 <= x % (d as int) < d,
            ;
            assert(q == qi);
        }
        -(q as i128)
    }
}

/// Clamp into `[-lim, lim]`, narrowing to `i64`.
pub fn clamp_i128(a: i128, lim: i64) -> (r: i64)
    requires
        0 < lim,
    ensures
        r == clamp(a as int, lim as int),
{
    if a < -(lim as i128) {
        -lim
    } else if a > lim as i128 {
        lim
    } else {
        a as i64
    }
}

/// Floor square root in executable form, by bisection.
pub fn isqrt(x: u128) -> (r: u64)
    requires
        x < 1329227995784915872903807060280344576u128,  // 2^120
    ensures
        r == spec_isqrt(x as int),
        r * r <= x,
        x < (r + 1) * (r + 1),
{
    let mut lo: u64 = 0;
    let mut hi: u64 = 1152921504606846976u64;  // 2^60
    proof {
        assert((hi as int) * (hi as int) == 1329227995784915872903807060280344576int)
            by (nonlinear_arith)
            requires
                hi == 1152921504606846976u64,
        ;
    }
    while hi - lo > 1
        invariant
            lo < hi,
            hi <= 1152921504606846976u64,
            (lo as int) * (lo as int) <= x as int,
            (x as int) < (hi as int) * (hi as int),
        decreases hi - lo,
    {
        let mid = lo + (hi - lo) / 2;
        proof {
            assert((mid as int) * (mid as int) <= 1329227995784915872903807060280344576int)
                by (nonlinear_arith)
                requires
                    0 <= mid <= 1152921504606846976,
            ;
        }
        let sq = (mid as u128) * (mid as u128);
        if sq <= x {
            lo = mid;
        } else {
            hi = mid;
        }
    }
    proof {
        lemma_isqrt_unique(x as int, lo as int);
    }
    lo
}

} // verus!
