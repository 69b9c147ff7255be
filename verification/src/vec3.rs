//! Fixed-point 3-vectors: the value type for point positions and camera
//! axes, with the handful of vector operations the simulation and the
//! camera need.

use crate::fixed::{
    div_round, div_round_i128, isqrt, lemma_div_round_err, lemma_div_round_le, lemma_isqrt_bounds,
    lemma_mul_abs_le, mul_ii, spec_isqrt, SCALE, SCALE_SQ,
};
use vstd::prelude::*;

verus! {

/// Component magnitude accepted by the executable vector operations.
pub const VEC_COMP_LIMIT: i64 = 3_000_000_000_000_000;

/// A vector whose squared norm is within `UNIT_TOL` of `SCALE * SCALE`
/// counts as unit length; `renormalize` leaves it untouched.
pub const UNIT_TOL: i64 = 1_000_000_000;

/// Squared-norm tolerance that rescaling by the floor square root
/// actually achieves (much tighter than `UNIT_TOL`).
pub const RESCALE_TOL: i64 = 16_000_000;

/// A position or direction, each component in fixed-point raw units.
#[derive(Clone, Copy, PartialEq, Eq, Structural, Debug)]
pub struct FxVec3 {
    pub x: i64,
    pub y: i64,
    pub z: i64,
}

pub open spec fn norm_sq(v: FxVec3) -> int {
    v.x * v.x + v.y * v.y + v.z * v.z
}

pub open spec fn dot(a: FxVec3, b: FxVec3) -> int {
    a.x * b.x + a.y * b.y + a.z * b.z
}

pub open spec fn cross_x(a: FxVec3, b: FxVec3) -> int {
    a.y * b.z - a.z * b.y
}

pub open spec fn cross_y(a: FxVec3, b: FxVec3) -> int {
    a.z * b.x - a.x * b.z
}

pub open spec fn cross_z(a: FxVec3, b: FxVec3) -> int {
    a.x * b.y - a.y * b.x
}

/// Component bound on a vector.
pub open spec fn comps_le(v: FxVec3, lim: int) -> bool {
    &&& -lim <= v.x <= lim
    &&& -lim <= v.y <= lim
    &&& -lim <= v.z <= lim
}

/// The rescaling that `renormalize` applies when a vector has drifted out
/// of tolerance: divide by the floor square root of the squared norm.
pub open spec fn spec_rescale(v: FxVec3) -> FxVec3 {
    let n = spec_isqrt(norm_sq(v));
    FxVec3 {
        x: div_round(v.x * SCALE, n) as i64,
        y: div_round(v.y * SCALE, n) as i64,
        z: div_round(v.z * SCALE, n) as i64,
    }
}

/// Renormalization is a no-op while the vector is within `UNIT_TOL` of
/// unit length, so an already-normalized vector is left bit-identical.
pub open spec fn spec_renormalize(v: FxVec3) -> FxVec3 {
    if SCALE_SQ - UNIT_TOL <= norm_sq(v) <= SCALE_SQ + UNIT_TOL {
        v
    } else {
        spec_rescale(v)
    }
}

pub fn fx_dot(a: &FxVec3, b: &FxVec3) -> (r: i128)
    requires
        comps_le(*a, VEC_COMP_LIMIT as int),
        comps_le(*b, VEC_COMP_LIMIT as int),
    ensures
        r == dot(*a, *b),
{
    proof {
        lemma_mul_abs_le(a.x as int, b.x as int, VEC_COMP_LIMIT as int, VEC_COMP_LIMIT as int);
        lemma_mul_abs_le(a.y as int, b.y as int, VEC_COMP_LIMIT as int, VEC_COMP_LIMIT as int);
        lemma_mul_abs_le(a.z as int, b.z as int, VEC_COMP_LIMIT as int, VEC_COMP_LIMIT as int);
    }
    mul_ii(a.x, b.x) + mul_ii(a.y, b.y) + mul_ii(a.z, b.z)
}

pub fn fx_norm_sq(v: &FxVec3) -> (r: i128)
    requires
        comps_le(*v, VEC_COMP_LIMIT as int),
    ensures
        r == norm_sq(*v),
        r >= 0,
{
    proof {
        lemma_mul_abs_le(v.x as int, v.x as int, VEC_COMP_LIMIT as int, VEC_COMP_LIMIT as int);
        lemma_mul_abs_le(v.y as int, v.y as int, VEC_COMP_LIMIT as int, VEC_COMP_LIMIT as int);
        lemma_mul_abs_le(v.z as int, v.z as int, VEC_COMP_LIMIT as int, VEC_COMP_LIMIT as int);
        lemma_squares_nonneg(*v);
    }
    mul_ii(v.x, v.x) + mul_ii(v.y, v.y) + mul_ii(v.z, v.z)
}

/// Cross product; the caller keeps components small enough that the
/// products fit an `i64`.
pub fn fx_cross(a: &FxVec3, b: &FxVec3) -> (r: FxVec3)
    requires
        comps_le(*a, 2_000_000_000int),
        comps_le(*b, 2_000_000_000int),
    ensures
        r.x == cross_x(*a, *b),
        r.y == cross_y(*a, *b),
        r.z == cross_z(*a, *b),
{
    proof {
        lemma_mul_abs_le(a.y as int, b.z as int, 2_000_000_000, 2_000_000_000);
        lemma_mul_abs_le(a.z as int, b.y as int, 2_000_000_000, 2_000_000_000);
        lemma_mul_abs_le(a.z as int, b.x as int, 2_000_000_000, 2_000_000_000);
        lemma_mul_abs_le(a.x as int, b.z as int, 2_000_000_000, 2_000_000_000);
        lemma_mul_abs_le(a.x as int, b.y as int, 2_000_000_000, 2_000_000_000);
        lemma_mul_abs_le(a.y as int, b.x as int, 2_000_000_000, 2_000_000_000);
    }
    FxVec3 {
        x: (mul_ii(a.y, b.z) - mul_ii(a.z, b.y)) as i64,
        y: (mul_ii(a.z, b.x) - mul_ii(a.x, b.z)) as i64,
        z: (mul_ii(a.x, b.y) - mul_ii(a.y, b.x)) as i64,
    }
}

pub proof fn lemma_squares_nonneg(v: FxVec3)
    ensures
        v.x * v.x >= 0,
        v.y * v.y >= 0,
        v.z * v.z >= 0,
        norm_sq(v) >= 0,
{
    lemma_sq_nonneg(v.x as int);
    lemma_sq_nonneg(v.y as int);
    lemma_sq_nonneg(v.z as int);
}

pub proof fn lemma_sq_nonneg(a: int)
    by (nonlinear_arith)
    ensures
        a * a >= 0,
{
}

proof fn lemma_triple_product_zero_flat(ax: int, ay: int, az: int, bx: int, by: int, bz: int)
    ensures
        ax * (ay * bz - az * by) + ay * (az * bx - ax * bz) + az * (ax * by - ay * bx) == 0,
        bx * (ay * bz - az * by) + by * (az * bx - ax * bz) + bz * (ax * by - ay * bx) == 0,
{
    assert(ax * (ay * bz - az * by) == ax * (ay * bz) - ax * (az * by)) by (nonlinear_arith);
    assert(ay * (az * bx - ax * bz) == ay * (az * bx) - ay * (ax * bz)) by (nonlinear_arith);
    assert(az * (ax * by - ay * bx) == az * (ax * by) - az * (ay * bx)) by (nonlinear_arith);
    assert(ax * (ay * bz) == ay * (ax * bz)) by (nonlinear_arith);
    assert(ax * (az * by) == az * (ax * by)) by (nonlinear_arith);
    assert(ay * (az * bx) == az * (ay * bx)) by (nonlinear_arith);
    assert(bx * (ay * bz - az * by) == bx * (ay * bz) - bx * (az * by)) by (nonlinear_arith);
    assert(by * (az * bx - ax * bz) == by * (az * bx) - by * (ax * bz)) by (nonlinear_arith);
    assert(bz * (ax * by - ay * bx) == bz * (ax * by) - bz * (ay * bx)) by (nonlinear_arith);
    assert(bx * (ay * bz) == bz * (ay * bx)) by (nonlinear_arith);
    assert(bx * (az * by) == by * (az * bx)) by (nonlinear_arith);
    assert(by * (ax * bz) == bz * (ax * by)) by (nonlinear_arith);
}

/// A vector is orthogonal to its own cross product with anything.
pub proof fn lemma_dot_cross_zero(a: FxVec3, b: FxVec3)
    ensures
        a.x * cross_x(a, b) + a.y * cross_y(a, b) + a.z * cross_z(a, b) == 0,
        b.x * cross_x(a, b) + b.y * cross_y(a, b) + b.z * cross_z(a, b) == 0,
{
    lemma_triple_product_zero_flat(
        a.x as int,
        a.y as int,
        a.z as int,
        b.x as int,
        b.y as int,
        b.z as int,
    );
}

/// Brahmagupta's identity for one coordinate pair.
pub proof fn lemma_brahmagupta(p: int, q: int, r: int, s: int)
    ensures
        (p * r + q * s) * (p * r + q * s) + (p * s - q * r) * (p * s - q * r) == (p * p + q * q) * (
        r * r + s * s),
{
    assert((p * r + q * s) * (p * r + q * s) == (p * r) * (p * r) + 2 * ((p * r) * (q * s)) + (q
        * s) * (q * s)) by (nonlinear_arith);
    assert((p * s - q * r) * (p * s - q * r) == (p * s) * (p * s) - 2 * ((p * s) * (q * r)) + (q
        * r) * (q * r)) by (nonlinear_arith);
    assert((p * p + q * q) * (r * r + s * s) == (p * p) * (r * r) + (p * p) * (s * s) + (q * q) * (
    r * r) + (q * q) * (s * s)) by (nonlinear_arith);
    assert((p * r) * (p * r) == (p * p) * (r * r)) by (nonlinear_arith);
    assert((q * s) * (q * s) == (q * q) * (s * s)) by (nonlinear_arith);
    assert((p * s) * (p * s) == (p * p) * (s * s)) by (nonlinear_arith);
    assert((q * r) * (q * r) == (q * q) * (r * r)) by (nonlinear_arith);
    assert((p * r) * (q * s) == (p * s) * (q * r)) by (nonlinear_arith);
}

proof fn lemma_lagrange_flat(ax: int, ay: int, az: int, bx: int, by: int, bz: int)
    ensures
        (ay * bz - az * by) * (ay * bz - az * by) + (az * bx - ax * bz) * (az * bx - ax * bz) + (ax
            * by - ay * bx) * (ax * by - ay * bx) == (ax * ax + ay * ay + az * az) * (bx * bx + by
            * by + bz * bz) - (ax * bx + ay * by + az * bz) * (ax * bx + ay * by + az * bz),
{
    lemma_brahmagupta(ay, az, by, bz);
    lemma_brahmagupta(az, ax, bz, bx);
    lemma_brahmagupta(ax, ay, bx, by);
    let u = ax * bx;
    let v = ay * by;
    let w = az * bz;
    assert((u + v + w) * (u + v + w) == u * u + v * v + w * w + 2 * (u * v) + 2 * (v * w) + 2 * (w
        * u)) by (nonlinear_arith);
    assert((ay * by + az * bz) * (ay * by + az * bz) == v * v + 2 * (v * w) + w * w)
        by (nonlinear_arith)
        requires
            v == ay * by,
            w == az * bz,
    ;
    assert((az * bz + ax * bx) * (az * bz + ax * bx) == w * w + 2 * (w * u) + u * u)
        by (nonlinear_arith)
        requires
            w == az * bz,
            u == ax * bx,
    ;
    assert((ax * bx + ay * by) * (ax * bx + ay * by) == u * u + 2 * (u * v) + v * v)
        by (nonlinear_arith)
        requires
            u == ax * bx,
            v == ay * by,
    ;
    assert((ax * ax + ay * ay + az * az) * (bx * bx + by * by + bz * bz) == (ax * ax) * (bx * bx)
        + (ax * ax) * (by * by) + (ax * ax) * (bz * bz) + (ay * ay) * (bx * bx) + (ay * ay) * (by
        * by) + (ay * ay) * (bz * bz) + (az * az) * (bx * bx) + (az * az) * (by * by) + (az * az)
        * (bz * bz)) by (nonlinear_arith);
    assert((ay * ay + az * az) * (by * by + bz * bz) == (ay * ay) * (by * by) + (ay * ay) * (bz
        * bz) + (az * az) * (by * by) + (az * az) * (bz * bz)) by (nonlinear_arith);
    assert((az * az + ax * ax) * (bz * bz + bx * bx) == (az * az) * (bz * bz) + (az * az) * (bx
        * bx) + (ax * ax) * (bz * bz) + (ax * ax) * (bx * bx)) by (nonlinear_arith);
    assert((ax * ax + ay * ay) * (bx * bx + by * by) == (ax * ax) * (bx * bx) + (ax * ax) * (by
        * by) + (ay * ay) * (bx * bx) + (ay * ay) * (by * by)) by (nonlinear_arith);
    assert(u * u == (ax * ax) * (bx * bx)) by (nonlinear_arith)
        requires
            u == ax * bx,
    ;
    assert(v * v == (ay * ay) * (by * by)) by (nonlinear_arith)
        requires
            v == ay * by,
    ;
    assert(w * w == (az * az) * (bz * bz)) by (nonlinear_arith)
        requires
            w == az * bz,
    ;
}

/// Lagrange identity: the squared norm of a cross product.
pub proof fn lemma_cross_norm(a: FxVec3, b: FxVec3)
    ensures
        cross_x(a, b) * cross_x(a, b) + cross_y(a, b) * cross_y(a, b) + cross_z(a, b) * cross_z(
            a,
            b,
        ) == norm_sq(a) * norm_sq(b) - dot(a, b) * dot(a, b),
{
    lemma_lagrange_flat(a.x as int, a.y as int, a.z as int, b.x as int, b.y as int, b.z as int);
}

/// Renormalize: identity within `UNIT_TOL` of unit length, otherwise
/// rescale by the floor square root of the squared norm.
pub fn renormalize(v: FxVec3) -> (r: FxVec3)
    requires
        norm_sq(v) >= 1,
        comps_le(v, 2_500_000_000_000int),
    ensures
        r == spec_renormalize(v),
{
    let n2 = fx_norm_sq(&v);
    if (SCALE_SQ - UNIT_TOL) as i128 <= n2 && n2 <= (SCALE_SQ + UNIT_TOL) as i128 {
        v
    } else {
        proof {
            lemma_mul_abs_le(v.x as int, v.x as int, 2_500_000_000_000, 2_500_000_000_000);
            lemma_mul_abs_le(v.y as int, v.y as int, 2_500_000_000_000, 2_500_000_000_000);
            lemma_mul_abs_le(v.z as int, v.z as int, 2_500_000_000_000, 2_500_000_000_000);
            lemma_isqrt_bounds(n2 as int);
        }
        let n = isqrt(n2 as u128);
        proof {
            let ni = n as int;
            assert(ni >= 1) by (nonlinear_arith)
                requires
                    ni >= 0,
                    n2 >= 1,
                    n2 < (ni + 1) * (ni + 1),
            ;
            lemma_rescale_comp_fits(v.x as int, ni);
            lemma_rescale_comp_fits(v.y as int, ni);
            lemma_rescale_comp_fits(v.z as int, ni);
        }
        let x = div_round_i128(mul_ii(v.x, SCALE), n as i128) as i64;
        let y = div_round_i128(mul_ii(v.y, SCALE), n as i128) as i64;
        let z = div_round_i128(mul_ii(v.z, SCALE), n as i128) as i64;
        FxVec3 { x, y, z }
    }
}

/// A rescaled component stays far inside the `i64` range.
proof fn lemma_rescale_comp_fits(c: int, n: int)
    requires
        n >= 1,
        -2_500_000_000_000 <= c <= 2_500_000_000_000,
    ensures
        -2_500_000_000_000_000_000 <= div_round(c * SCALE, n) <= 2_500_000_000_000_000_000,
{
    assert(-(2_500_000_000_000_000_000 * n) <= c * SCALE <= 2_500_000_000_000_000_000 * n)
        by (nonlinear_arith)
        requires
            n >= 1,
            -2_500_000_000_000 <= c <= 2_500_000_000_000,
    ;
    lemma_div_round_le(c * SCALE, n, 2_500_000_000_000_000_000);
}

/// Public per-component range facts for a rescale, for callers that need
/// the cast back to `i64` to be lossless.
pub proof fn lemma_rescale_fits_pub(v: FxVec3, n: int)
    requires
        n >= 1,
        comps_le(v, 2_500_000_000_000int),
    ensures
        -2_500_000_000_000_000_000 <= div_round(v.x * SCALE, n) <= 2_500_000_000_000_000_000,
        -2_500_000_000_000_000_000 <= div_round(v.y * SCALE, n) <= 2_500_000_000_000_000_000,
        -2_500_000_000_000_000_000 <= div_round(v.z * SCALE, n) <= 2_500_000_000_000_000_000,
{
    lemma_rescale_comp_fits(v.x as int, n);
    lemma_rescale_comp_fits(v.y as int, n);
    lemma_rescale_comp_fits(v.z as int, n);
}

/// Shared groundwork for the rescale lemmas: brackets the floor square
/// root and the components of `v` against it.
proof fn lemma_rescale_setup(v: FxVec3)
    requires
        250_000_000_000 <= norm_sq(v),
        comps_le(v, 2_500_000_000_000int),
    ensures
        ({
            let n = spec_isqrt(norm_sq(v));
            &&& 500_000 <= n <= 4_400_000_000_000
            &&& n * n <= norm_sq(v) < (n + 1) * (n + 1)
            &&& -n <= v.x <= n
            &&& -n <= v.y <= n
            &&& -n <= v.z <= n
        }),
{
    let nn = norm_sq(v);
    lemma_isqrt_bounds(nn);
    let n = spec_isqrt(nn);
    lemma_squares_nonneg(v);
    lemma_mul_abs_le(v.x as int, v.x as int, 2_500_000_000_000, 2_500_000_000_000);
    lemma_mul_abs_le(v.y as int, v.y as int, 2_500_000_000_000, 2_500_000_000_000);
    lemma_mul_abs_le(v.z as int, v.z as int, 2_500_000_000_000, 2_500_000_000_000);
    assert(n >= 500_000) by (nonlinear_arith)
        requires
            n >= 0,
            nn < (n + 1) * (n + 1),
            nn >= 250_000_000_000,
    ;
    assert(n <= 4_400_000_000_000) by (nonlinear_arith)
        requires
            n >= 0,
            n * n <= nn,
            nn <= 18_750_000_000_000_000_000_000_000,
    ;
    assert(-n <= v.x <= n) by (nonlinear_arith)
        requires
            n >= 0,
            v.x * v.x <= nn,
            nn < (n + 1) * (n + 1),
    ;
    assert(-n <= v.y <= n) by (nonlinear_arith)
        requires
            n >= 0,
            v.y * v.y <= nn,
            nn < (n + 1) * (n + 1),
    ;
    assert(-n <= v.z <= n) by (nonlinear_arith)
        requires
            n >= 0,
            v.z * v.z <= nn,
            nn < (n + 1) * (n + 1),
    ;
}

/// Rescaling a vector whose norm is at least one half lands its squared
/// norm within `RESCALE_TOL` of one, so `spec_renormalize` always leaves
/// a well-conditioned vector unit length up to `UNIT_TOL`.
pub proof fn lemma_renormalize_unit(v: FxVec3)
    requires
        250_000_000_000 <= norm_sq(v),
        comps_le(v, 2_500_000_000_000int),
    ensures
        SCALE_SQ - UNIT_TOL <= norm_sq(spec_renormalize(v)) <= SCALE_SQ + UNIT_TOL,
{
    let nn = norm_sq(v);
    if SCALE_SQ - UNIT_TOL <= nn <= SCALE_SQ + UNIT_TOL {
    } else {
        lemma_rescale_setup(v);
        let n = spec_isqrt(nn);
        let r = spec_rescale(v);
        let rx = div_round(v.x * SCALE, n);
        let ry = div_round(v.y * SCALE, n);
        let rz = div_round(v.z * SCALE, n);
        lemma_rescale_comp_fits(v.x as int, n);
        lemma_rescale_comp_fits(v.y as int, n);
        lemma_rescale_comp_fits(v.z as int, n);
        assert(r.x == rx && r.y == ry && r.z == rz);
        lemma_div_round_err(v.x * SCALE, n);
        lemma_div_round_err(v.y * SCALE, n);
        lemma_div_round_err(v.z * SCALE, n);
        let ex = n * rx - v.x * SCALE;
        let ey = n * ry - v.y * SCALE;
        let ez = n * rz - v.z * SCALE;
        vstd::arithmetic::div_mod::lemma_fundamental_div_mod(n, 2);
        vstd::arithmetic::div_mod::lemma_mod_bound(n, 2);
        assert(-n <= 2 * ex <= n && -n <= 2 * ey <= n && -n <= 2 * ez <= n);
        let xx = norm_sq(r);
        assert((n * rx) * (n * rx) == (n * n) * (rx * rx)) by (nonlinear_arith);
        assert((n * ry) * (n * ry) == (n * n) * (ry * ry)) by (nonlinear_arith);
        assert((n * rz) * (n * rz) == (n * n) * (rz * rz)) by (nonlinear_arith);
        assert((v.x * SCALE + ex) * (v.x * SCALE + ex) == SCALE_SQ * (v.x * v.x) + 2 * SCALE * (v.x
            * ex) + ex * ex) by (nonlinear_arith)
            requires
                SCALE == 1_000_000 && SCALE_SQ == 1_000_000_000_000,
        ;
        assert((v.y * SCALE + ey) * (v.y * SCALE + ey) == SCALE_SQ * (v.y * v.y) + 2 * SCALE * (v.y
            * ey) + ey * ey) by (nonlinear_arith)
            requires
                SCALE == 1_000_000 && SCALE_SQ == 1_000_000_000_000,
        ;
        assert((v.z * SCALE + ez) * (v.z * SCALE + ez) == SCALE_SQ * (v.z * v.z) + 2 * SCALE * (v.z
            * ez) + ez * ez) by (nonlinear_arith)
            requires
                SCALE == 1_000_000 && SCALE_SQ == 1_000_000_000_000,
        ;
        // |v_i * e_i| <= n * (n / 2) and e_i * e_i <= (n / 2) ^ 2
        assert(-(SCALE * (n * n)) <= 2 * SCALE * (v.x * ex) <= SCALE * (n * n))
            by (nonlinear_arith)
            requires
                -n <= v.x <= n,
                -n <= 2 * ex <= n,
                n >= 1,
                SCALE == 1_000_000,
        ;
        assert(-(SCALE * (n * n)) <= 2 * SCALE * (v.y * ey) <= SCALE * (n * n))
            by (nonlinear_arith)
            requires
                -n <= v.y <= n,
                -n <= 2 * ey <= n,
                n >= 1,
                SCALE == 1_000_000,
        ;
        assert(-(SCALE * (n * n)) <= 2 * SCALE * (v.z * ez) <= SCALE * (n * n))
            by (nonlinear_arith)
            requires
                -n <= v.z <= n,
                -n <= 2 * ez <= n,
                n >= 1,
                SCALE == 1_000_000,
        ;
        assert(0 <= ex * ex <= n * n && 0 <= ey * ey <= n * n && 0 <= ez * ez <= n * n)
            by (nonlinear_arith)
            requires
                -n <= 2 * ex <= n,
                -n <= 2 * ey <= n,
                -n <= 2 * ez <= n,
                n >= 1,
        ;
        // n^2 * |r|^2 == SCALE^2 * |v|^2 + cross terms
        assert((n * n) * xx == (n * n) * (rx * rx) + (n * n) * (ry * ry) + (n * n) * (rz * rz))
            by (nonlinear_arith)
            requires
                xx == rx * rx + ry * ry + rz * rz,
        ;
        assert((n * n) * xx == SCALE_SQ * nn + (2 * SCALE * (v.x * ex) + 2 * SCALE * (v.y * ey) + 2
            * SCALE * (v.z * ez)) + (ex * ex + ey * ey + ez * ez));
        let slack = (2 * SCALE * (v.x * ex) + 2 * SCALE * (v.y * ey) + 2 * SCALE * (v.z * ez)) + (
        ex * ex + ey * ey + ez * ez);
        assert(-(3 * SCALE * (n * n)) <= slack <= 3 * SCALE * (n * n) + 3 * (n * n))
            by (nonlinear_arith)
            requires
                slack == (2 * SCALE * (v.x * ex) + 2 * SCALE * (v.y * ey) + 2 * SCALE * (v.z * ez))
                    + (ex * ex + ey * ey + ez * ez),
                -(SCALE * (n * n)) <= 2 * SCALE * (v.x * ex) <= SCALE * (n * n),
                -(SCALE * (n * n)) <= 2 * SCALE * (v.y * ey) <= SCALE * (n * n),
                -(SCALE * (n * n)) <= 2 * SCALE * (v.z * ez) <= SCALE * (n * n),
                0 <= ex * ex <= n * n,
                0 <= ey * ey <= n * n,
                0 <= ez * ez <= n * n,
        ;
        assert(nn <= n * n + 2 * n) by (nonlinear_arith)
            requires
                nn < (n + 1) * (n + 1),
        ;
        assert((n * n) * xx <= SCALE_SQ * (n * n) + 2 * SCALE_SQ * n + 3 * SCALE * (n * n) + 3 * (n
            * n)) by (nonlinear_arith)
            requires
                (n * n) * xx == SCALE_SQ * nn + slack,
                slack <= 3 * SCALE * (n * n) + 3 * (n * n),
                nn <= n * n + 2 * n,
                SCALE_SQ == 1_000_000_000_000,
        ;
        assert((n * n) * xx >= SCALE_SQ * (n * n) - 3 * SCALE * (n * n)) by (nonlinear_arith)
            requires
                (n * n) * xx == SCALE_SQ * nn + slack,
                slack >= -(3 * SCALE * (n * n)),
                nn >= n * n,
                SCALE_SQ == 1_000_000_000_000,
        ;
        assert(xx <= SCALE_SQ + RESCALE_TOL) by (nonlinear_arith)
            requires
                (n * n) * xx <= SCALE_SQ * (n * n) + 2 * SCALE_SQ * n + 3 * SCALE * (n * n) + 3 * (
                n * n),
                500_000 <= n <= 4_400_000_000_000,
                SCALE == 1_000_000 && SCALE_SQ == 1_000_000_000_000 && RESCALE_TOL == 16_000_000,
        ;
        assert(xx >= SCALE_SQ - RESCALE_TOL) by (nonlinear_arith)
            requires
                (n * n) * xx >= SCALE_SQ * (n * n) - 3 * SCALE * (n * n),
                500_000 <= n <= 4_400_000_000_000,
                SCALE == 1_000_000 && SCALE_SQ == 1_000_000_000_000 && RESCALE_TOL == 16_000_000,
        ;
    }
}

/// The result of renormalizing a well-conditioned vector has components
/// barely above unit length.
pub proof fn lemma_renormalize_comps(v: FxVec3)
    requires
        250_000_000_000 <= norm_sq(v),
        comps_le(v, 2_500_000_000_000int),
    ensures
        comps_le(spec_renormalize(v), 1_100_000int),
{
    let nn = norm_sq(v);
    lemma_squares_nonneg(v);
    if SCALE_SQ - UNIT_TOL <= nn <= SCALE_SQ + UNIT_TOL {
        assert(-1_100_000 <= v.x <= 1_100_000) by (nonlinear_arith)
            requires
                v.x * v.x <= 1_001_000_000_000,
        ;
        assert(-1_100_000 <= v.y <= 1_100_000) by (nonlinear_arith)
            requires
                v.y * v.y <= 1_001_000_000_000,
        ;
        assert(-1_100_000 <= v.z <= 1_100_000) by (nonlinear_arith)
            requires
                v.z * v.z <= 1_001_000_000_000,
        ;
    } else {
        lemma_rescale_setup(v);
        let n = spec_isqrt(nn);
        assert(-((SCALE + 1) * n) <= v.x * SCALE <= (SCALE + 1) * n) by (nonlinear_arith)
            requires
                -n <= v.x <= n,
                n >= 1,
                SCALE == 1_000_000,
        ;
        assert(-((SCALE + 1) * n) <= v.y * SCALE <= (SCALE + 1) * n) by (nonlinear_arith)
            requires
                -n <= v.y <= n,
                n >= 1,
                SCALE == 1_000_000,
        ;
        assert(-((SCALE + 1) * n) <= v.z * SCALE <= (SCALE + 1) * n) by (nonlinear_arith)
            requires
                -n <= v.z <= n,
                n >= 1,
                SCALE == 1_000_000,
        ;
        lemma_div_round_le(v.x * SCALE, n, SCALE + 1);
        lemma_div_round_le(v.y * SCALE, n, SCALE + 1);
        lemma_div_round_le(v.z * SCALE, n, SCALE + 1);
        lemma_rescale_comp_fits(v.x as int, n);
        lemma_rescale_comp_fits(v.y as int, n);
        lemma_rescale_comp_fits(v.z as int, n);
    }
}

/// Renormalizing never zeroes the horizontal part of a vector whose norm
/// stays below two: the pitch axis can never degenerate.
pub proof fn lemma_renormalize_keeps_axis(v: FxVec3)
    requires
        1 <= norm_sq(v) < 4 * SCALE_SQ,
        comps_le(v, 2_500_000_000_000int),
        v.x != 0 || v.z != 0,
    ensures
        spec_renormalize(v).x != 0 || spec_renormalize(v).z != 0,
{
    let nn = norm_sq(v);
    if SCALE_SQ - UNIT_TOL <= nn <= SCALE_SQ + UNIT_TOL {
    } else {
        lemma_isqrt_bounds(nn);
        let n = spec_isqrt(nn);
        assert(n <= 2 * SCALE - 1) by (nonlinear_arith)
            requires
                n >= 0,
                n * n <= nn,
                nn < 4 * SCALE_SQ,
                SCALE == 1_000_000 && SCALE_SQ == 1_000_000_000_000,
        ;
        assert(n >= 1) by (nonlinear_arith)
            requires
                n >= 0,
                nn >= 1,
                nn < (n + 1) * (n + 1),
        ;
        vstd::arithmetic::div_mod::lemma_fundamental_div_mod(n, 2);
        vstd::arithmetic::div_mod::lemma_mod_bound(n, 2);
        if v.x != 0 {
            let rx = div_round(v.x * SCALE, n);
            lemma_rescale_comp_fits(v.x as int, n);
            lemma_div_round_err(v.x * SCALE, n);
            if rx == 0 {
                assert(-n <= 2 * (v.x * SCALE) <= n);
                assert(false) by (nonlinear_arith)
                    requires
                        v.x != 0,
                        -n <= 2 * (v.x * SCALE) <= n,
                        n <= 2 * SCALE - 1,
                        SCALE == 1_000_000,
                ;
            }
            assert(spec_rescale(v).x == rx);
        } else {
            let rz = div_round(v.z * SCALE, n);
            lemma_rescale_comp_fits(v.z as int, n);
            lemma_div_round_err(v.z * SCALE, n);
            if rz == 0 {
                assert(-n <= 2 * (v.z * SCALE) <= n);
                assert(false) by (nonlinear_arith)
                    requires
                        v.z != 0,
                        -n <= 2 * (v.z * SCALE) <= n,
                        n <= 2 * SCALE - 1,
                        SCALE == 1_000_000,
                ;
            }
            assert(spec_rescale(v).z == rz);
        }
    }
}

} // verus!
