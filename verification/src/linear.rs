//! Three-dimensional vectors and rays over fixed-point scalars.
//!
//! Every operation states its exact result: the spec functions below give
//! each component of a product, cross product or normalized vector as an
//! integer expression over the raw fixed-point representation.

use vstd::prelude::*;

verus! {

use vstd::arithmetic::div_mod::*;
use vstd::arithmetic::mul::*;
use crate::fixed::{
    iabs, fx_mul, fx_div, isqrt_spec, sin_fx, cos_fx, fmul, fdiv, isqrt, sin_deg, cos_deg,
    lemma_fx_mul_mag, lemma_fx_mul_comm, lemma_fx_mul_basics, lemma_mul_le, lemma_tdiv_mag,
    lemma_div_superadd, lemma_isqrt_char, lemma_iabs_mul, lemma_fx_mul_bounds,
    lemma_sin_fx_zero, lemma_cos_fx_zero,
};

#[derive(Copy, Clone, Debug, PartialEq, Eq, Structural)]
pub struct Vector {
    pub x: i64,
    pub y: i64,
    pub z: i64,
}

/// Every component's magnitude is at most `m`.
pub open spec fn bounded(v: Vector, m: int) -> bool {
    iabs(v.x as int) <= m && iabs(v.y as int) <= m && iabs(v.z as int) <= m
}

/// No component is zero-free: the vector is not the origin.
pub open spec fn nonzero(v: Vector) -> bool {
    v.x != 0 || v.y != 0 || v.z != 0
}

/// The fixed-point dot product.
pub open spec fn dot_spec(a: Vector, b: Vector) -> int {
    fx_mul(a.x as int, b.x as int) + fx_mul(a.y as int, b.y as int) + fx_mul(
        a.z as int,
        b.z as int,
    )
}

/// First component of the fixed-point cross product.
pub open spec fn cross_x(a: Vector, b: Vector) -> int {
    fx_mul(a.y as int, b.z as int) - fx_mul(a.z as int, b.y as int)
}

/// Second component of the fixed-point cross product.
pub open spec fn cross_y(a: Vector, b: Vector) -> int {
    fx_mul(a.z as int, b.x as int) - fx_mul(a.x as int, b.z as int)
}

/// Third component of the fixed-point cross product.
pub open spec fn cross_z(a: Vector, b: Vector) -> int {
    fx_mul(a.x as int, b.y as int) - fx_mul(a.y as int, b.x as int)
}

/// Sum of the squared raw components (scaled by 65536 squared).
pub open spec fn mag_sq(v: Vector) -> int {
    v.x as int * v.x as int + v.y as int * v.y as int + v.z as int * v.z as int
}

/// The raw magnitude: the floor square root of the squared sum.
pub open spec fn mag_spec(v: Vector) -> int {
    isqrt_spec(mag_sq(v))
}

/// Components of `v` scaled down by its own magnitude.
pub open spec fn norm_x(v: Vector) -> int {
    fx_div(v.x as int, mag_spec(v))
}

pub open spec fn norm_y(v: Vector) -> int {
    fx_div(v.y as int, mag_spec(v))
}

pub open spec fn norm_z(v: Vector) -> int {
    fx_div(v.z as int, mag_spec(v))
}

/// A vector built in specifications from integer components.
pub open spec fn vec3(x: int, y: int, z: int) -> Vector {
    Vector { x: x as i64, y: y as i64, z: z as i64 }
}

/// The difference `p - q`, built in specifications.
pub open spec fn sub_vec(p: Vector, q: Vector) -> Vector {
    vec3(p.x - q.x, p.y - q.y, p.z - q.z)
}

/// Components of `v` mirrored across `a`: twice the projection onto the
/// axis, minus the vector itself.
pub open spec fn reflect_x(v: Vector, a: Vector) -> int {
    fx_mul(fx_mul(131072, dot_spec(v, a)), a.x as int) - v.x as int
}

pub open spec fn reflect_y(v: Vector, a: Vector) -> int {
    fx_mul(fx_mul(131072, dot_spec(v, a)), a.y as int) - v.y as int
}

pub open spec fn reflect_z(v: Vector, a: Vector) -> int {
    fx_mul(fx_mul(131072, dot_spec(v, a)), a.z as int) - v.z as int
}

/// First component of `v` rotated by `deg` raw degrees about `a`, by the
/// Rodrigues rotation matrix built from the normalized axis and the
/// fixed-point sine and cosine of the angle.
pub open spec fn rotate_x(v: Vector, deg: int, a: Vector) -> int {
    let nx = norm_x(a);
    let ny = norm_y(a);
    let nz = norm_z(a);
    let s = sin_fx(deg);
    let c = cos_fx(deg);
    fx_mul(c + fx_mul(fx_mul(nx, nx), 65536 - c), v.x as int) + fx_mul(
        fx_mul(fx_mul(nx, ny), 65536 - c) - fx_mul(nz, s),
        v.y as int,
    ) + fx_mul(fx_mul(fx_mul(nx, nz), 65536 - c) + fx_mul(ny, s), v.z as int)
}

/// Second component of the rotated vector.
pub open spec fn rotate_y(v: Vector, deg: int, a: Vector) -> int {
    let nx = norm_x(a);
    let ny = norm_y(a);
    let nz = norm_z(a);
    let s = sin_fx(deg);
    let c = cos_fx(deg);
    fx_mul(fx_mul(fx_mul(nx, ny), 65536 - c) + fx_mul(nz, s), v.x as int) + fx_mul(
        c + fx_mul(fx_mul(ny, ny), 65536 - c),
        v.y as int,
    ) + fx_mul(fx_mul(fx_mul(ny, nz), 65536 - c) - fx_mul(nx, s), v.z as int)
}

/// Third component of the rotated vector.
pub open spec fn rotate_z(v: Vector, deg: int, a: Vector) -> int {
    let nx = norm_x(a);
    let ny = norm_y(a);
    let nz = norm_z(a);
    let s = sin_fx(deg);
    let c = cos_fx(deg);
    fx_mul(fx_mul(fx_mul(nx, nz), 65536 - c) - fx_mul(ny, s), v.x as int) + fx_mul(
        fx_mul(fx_mul(ny, nz), 65536 - c) + fx_mul(nx, s),
        v.y as int,
    ) + fx_mul(c + fx_mul(fx_mul(nz, nz), 65536 - c), v.z as int)
}

/// Rotating any vector by zero degrees about any axis moves nothing:
/// the sine is exactly zero and the cosine exactly one, so the rotation
/// matrix collapses to the identity, rounding included.
pub proof fn lemma_rotate_zero(v: Vector, axis: Vector)
    ensures
        rotate_x(v, 0, axis) == v.x,
        rotate_y(v, 0, axis) == v.y,
        rotate_z(v, 0, axis) == v.z,
{
    lemma_sin_fx_zero();
    lemma_cos_fx_zero();
    let nx = norm_x(axis);
    let ny = norm_y(axis);
    let nz = norm_z(axis);
    lemma_fx_mul_basics(fx_mul(nx, nx));
    lemma_fx_mul_basics(fx_mul(nx, ny));
    lemma_fx_mul_basics(fx_mul(nx, nz));
    lemma_fx_mul_basics(fx_mul(ny, ny));
    lemma_fx_mul_basics(fx_mul(ny, nz));
    lemma_fx_mul_basics(fx_mul(nz, nz));
    lemma_fx_mul_basics(nx);
    lemma_fx_mul_basics(ny);
    lemma_fx_mul_basics(nz);
    lemma_fx_mul_basics(v.x as int);
    lemma_fx_mul_basics(v.y as int);
    lemma_fx_mul_basics(v.z as int);
}

/// A normalized vector has magnitude one, up to rounding: for any
/// vector at least one unit long, the magnitude of its normalization
/// lies within a few raw steps of 65536. (Shorter nonzero vectors lose
/// relative precision to the fixed-point grid; they are the one family
/// this bound leaves out.)
pub proof fn lemma_normalize_unit(v: Vector)
    requires
        bounded(v, 0x1000_0000_0000_0000),
        65536 <= mag_spec(v),
    ensures
        65532 <= mag_spec(vec3(norm_x(v), norm_y(v), norm_z(v))) <= 65537,
{
    let s = mag_sq(v);
    let m = mag_spec(v);
    let ax = iabs(v.x as int);
    let ay = iabs(v.y as int);
    let az = iabs(v.z as int);
    lemma_iabs_mul(v.x as int, v.x as int);
    lemma_iabs_mul(v.y as int, v.y as int);
    lemma_iabs_mul(v.z as int, v.z as int);
    assert(0 <= v.x as int * v.x as int && 0 <= v.y as int * v.y as int && 0 <= v.z as int
        * v.z as int) by (nonlinear_arith);
    assert(s == ax * ax + ay * ay + az * az);
    lemma_isqrt_char(s);
    assert(m * m <= s < (m + 1) * (m + 1));
    assert(ax <= m && ay <= m && az <= m) by (nonlinear_arith)
        requires
            ax * ax <= s && ay * ay <= s && az * az <= s,
            s < (m + 1) * (m + 1),
            0 <= ax && 0 <= ay && 0 <= az && 0 <= m,
    ;
    lemma_tdiv_mag(v.x as int * 65536, m);
    lemma_tdiv_mag(v.y as int * 65536, m);
    lemma_tdiv_mag(v.z as int * 65536, m);
    lemma_iabs_mul(v.x as int, 65536);
    lemma_iabs_mul(v.y as int, 65536);
    lemma_iabs_mul(v.z as int, 65536);
    let qx = iabs(norm_x(v));
    let qy = iabs(norm_y(v));
    let qz = iabs(norm_z(v));
    assert(qx == ax * 65536 / m && qy == ay * 65536 / m && qz == az * 65536 / m);
    lemma_norm_comp_square(ax, m, qx);
    lemma_norm_comp_square(ay, m, qy);
    lemma_norm_comp_square(az, m, qz);
    let q_sum = qx * qx + qy * qy + qz * qz;
    assert(q_sum * (m * m) <= 65536 * 65536 * s) by (nonlinear_arith)
        requires
            qx * qx * (m * m) <= ax * ax * (65536 * 65536),
            qy * qy * (m * m) <= ay * ay * (65536 * 65536),
            qz * qz * (m * m) <= az * az * (65536 * 65536),
            s == ax * ax + ay * ay + az * az,
            q_sum == qx * qx + qy * qy + qz * qz,
    ;
    assert(65536 * 65536 * s < (q_sum + 2 * (qx + qy + qz) + 3) * (m * m)) by (nonlinear_arith)
        requires
            ax * ax * (65536 * 65536) < (qx + 1) * (qx + 1) * (m * m),
            ay * ay * (65536 * 65536) < (qy + 1) * (qy + 1) * (m * m),
            az * az * (65536 * 65536) < (qz + 1) * (qz + 1) * (m * m),
            s == ax * ax + ay * ay + az * az,
            q_sum == qx * qx + qy * qy + qz * qz,
    ;
    assert(q_sum < 65538 * 65538) by (nonlinear_arith)
        requires
            q_sum * (m * m) <= 65536 * 65536 * s,
            s < (m + 1) * (m + 1),
            m * m <= s,
            65536 <= m,
            0 <= q_sum,
    ;
    assert(65532 * 65532 <= q_sum) by (nonlinear_arith)
        requires
            65536 * 65536 * s < (q_sum + 2 * (qx + qy + qz) + 3) * (m * m),
            m * m <= s,
            65536 <= m,
            0 <= qx <= 65536 && 0 <= qy <= 65536 && 0 <= qz <= 65536,
    ;
    let nv = vec3(norm_x(v), norm_y(v), norm_z(v));
    lemma_iabs_mul(nv.x as int, nv.x as int);
    lemma_iabs_mul(nv.y as int, nv.y as int);
    lemma_iabs_mul(nv.z as int, nv.z as int);
    assert(0 <= nv.x as int * nv.x as int && 0 <= nv.y as int * nv.y as int && 0 <= nv.z as int
        * nv.z as int) by (nonlinear_arith);
    assert(mag_sq(nv) == q_sum);
    lemma_isqrt_char(q_sum);
    let r = isqrt_spec(q_sum);
    assert(65532 <= r <= 65537) by (nonlinear_arith)
        requires
            r * r <= q_sum < (r + 1) * (r + 1),
            65532 * 65532 <= q_sum,
            q_sum < 65538 * 65538,
            0 <= r,
    ;
}

/// Squaring the division bracket of one normalized component: the
/// quotient's square sits between the squares of the bracket's ends.
proof fn lemma_norm_comp_square(a: int, m: int, q: int)
    requires
        0 <= a,
        0 < m,
        q == a * 65536 / m,
        a <= m,
    ensures
        q * q * (m * m) <= a * a * (65536 * 65536),
        a * a * (65536 * 65536) < (q + 1) * (q + 1) * (m * m),
        0 <= q <= 65536,
{
    lemma_fundamental_div_mod(a * 65536, m);
    lemma_mod_bound(a * 65536, m);
    lemma_div_pos_is_pos(a * 65536, m);
    assert(0 <= a * 65536) by (nonlinear_arith)
        requires
            0 <= a,
    ;
    assert(q * m <= a * 65536 < (q + 1) * m) by (nonlinear_arith)
        requires
            a * 65536 == m * q + (a * 65536) % m,
            0 <= (a * 65536) % m < m,
    ;
    assert(q <= 65536) by (nonlinear_arith)
        requires
            q * m <= a * 65536,
            a <= m,
            0 < m,
            0 <= q,
    ;
    assert(q * q * (m * m) <= a * a * (65536 * 65536)) by (nonlinear_arith)
        requires
            0 <= q * m,
            q * m <= a * 65536,
    ;
    assert(a * a * (65536 * 65536) < (q + 1) * (q + 1) * (m * m)) by (nonlinear_arith)
        requires
            0 <= a * 65536,
            a * 65536 < (q + 1) * m,
    ;
}

/// After normalization the dominant component keeps at least half a unit:
/// the magnitude of a vector is below twice its largest component.
proof fn lemma_norm_floor(amax: int, a2: int, a3: int, m: int, s: int)
    requires
        0 <= a2 <= amax,
        0 <= a3 <= amax,
        1 <= m,
        m * m <= s,
        1 <= s,
        s == amax * amax + a2 * a2 + a3 * a3,
    ensures
        (amax * 65536) / m >= 32768,
{
    assert(1 <= amax && m < 2 * amax) by (nonlinear_arith)
        requires
            0 <= a2 <= amax,
            0 <= a3 <= amax,
            m * m <= s,
            1 <= s,
            1 <= m,
            s == amax * amax + a2 * a2 + a3 * a3,
    ;
    lemma_div_is_ordered_by_denominator(amax * 65536, m, 2 * amax);
    assert(amax * 65536 == 32768 * (2 * amax)) by (nonlinear_arith);
    lemma_div_by_multiple(32768, 2 * amax);
}

/// The dot product of two component-bounded vectors satisfies the overflow
/// precondition of `dot` and is itself bounded.
pub proof fn lemma_dot_bound(a: Vector, b: Vector, bound_a: int, bound_b: int)
    requires
        bounded(a, bound_a),
        bounded(b, bound_b),
    ensures
        iabs(a.x as int * b.x as int) + iabs(a.y as int * b.y as int) + iabs(
            a.z as int * b.z as int,
        ) <= 3 * (bound_a * bound_b),
        iabs(dot_spec(a, b)) <= 3 * (bound_a * bound_b) / 65536 + 3,
{
    lemma_mul_le(a.x as int, b.x as int, bound_a, bound_b);
    lemma_mul_le(a.y as int, b.y as int, bound_a, bound_b);
    lemma_mul_le(a.z as int, b.z as int, bound_a, bound_b);
    lemma_fx_mul_mag(a.x as int, b.x as int, bound_a * bound_b);
    lemma_fx_mul_mag(a.y as int, b.y as int, bound_a * bound_b);
    lemma_fx_mul_mag(a.z as int, b.z as int, bound_a * bound_b);
    let p = bound_a * bound_b;
    lemma_div_superadd(p, p, 65536);
    lemma_div_superadd(p + p, p, 65536);
    lemma_div_is_ordered(p + p, p + p + p, 65536);
    assert(3 * p == p + p + p);
    assert(p / 65536 + p / 65536 + p / 65536 <= (3 * p) / 65536 + 3);
}

/// Each component of the cross product of bounded vectors is bounded.
pub proof fn lemma_cross_bound(a: Vector, b: Vector, bound_a: int, bound_b: int)
    requires
        bounded(a, bound_a),
        bounded(b, bound_b),
    ensures
        iabs(cross_x(a, b)) <= 2 * (bound_a * bound_b / 65536),
        iabs(cross_y(a, b)) <= 2 * (bound_a * bound_b / 65536),
        iabs(cross_z(a, b)) <= 2 * (bound_a * bound_b / 65536),
        iabs(a.y as int * b.z as int) <= bound_a * bound_b,
        iabs(a.z as int * b.y as int) <= bound_a * bound_b,
        iabs(a.z as int * b.x as int) <= bound_a * bound_b,
        iabs(a.x as int * b.z as int) <= bound_a * bound_b,
        iabs(a.x as int * b.y as int) <= bound_a * bound_b,
        iabs(a.y as int * b.x as int) <= bound_a * bound_b,
{
    let p = bound_a * bound_b;
    lemma_mul_le(a.y as int, b.z as int, bound_a, bound_b);
    lemma_mul_le(a.z as int, b.y as int, bound_a, bound_b);
    lemma_mul_le(a.z as int, b.x as int, bound_a, bound_b);
    lemma_mul_le(a.x as int, b.z as int, bound_a, bound_b);
    lemma_mul_le(a.x as int, b.y as int, bound_a, bound_b);
    lemma_mul_le(a.y as int, b.x as int, bound_a, bound_b);
    lemma_fx_mul_mag(a.y as int, b.z as int, p);
    lemma_fx_mul_mag(a.z as int, b.y as int, p);
    lemma_fx_mul_mag(a.z as int, b.x as int, p);
    lemma_fx_mul_mag(a.x as int, b.z as int, p);
    lemma_fx_mul_mag(a.x as int, b.y as int, p);
    lemma_fx_mul_mag(a.y as int, b.x as int, p);
}

/// The cross product is antisymmetric: swapping the arguments negates
/// every component of the result, exactly, rounding included.
pub proof fn lemma_cross_antisymmetric(a: Vector, b: Vector)
    ensures
        cross_x(a, b) == -cross_x(b, a),
        cross_y(a, b) == -cross_y(b, a),
        cross_z(a, b) == -cross_z(b, a),
{
    lemma_fx_mul_comm(a.y as int, b.z as int);
    lemma_fx_mul_comm(a.z as int, b.y as int);
    lemma_fx_mul_comm(a.z as int, b.x as int);
    lemma_fx_mul_comm(a.x as int, b.z as int);
    lemma_fx_mul_comm(a.x as int, b.y as int);
    lemma_fx_mul_comm(a.y as int, b.x as int);
}

/// The dot product is symmetric, exactly, rounding included.
pub proof fn lemma_dot_symmetric(a: Vector, b: Vector)
    ensures
        dot_spec(a, b) == dot_spec(b, a),
{
    lemma_fx_mul_comm(a.x as int, b.x as int);
    lemma_fx_mul_comm(a.y as int, b.y as int);
    lemma_fx_mul_comm(a.z as int, b.z as int);
}

impl Vector {
    pub fn new(x: i64, y: i64, z: i64) -> (r: Vector)
        ensures
            r.x == x,
            r.y == y,
            r.z == z,
    {
        Vector { x, y, z }
    }

    /// The fixed-point dot product of two vectors.
    pub fn dot(&self, other: &Vector) -> (r: i64)
        requires
            iabs(self.x as int * other.x as int) + iabs(self.y as int * other.y as int) + iabs(
                self.z as int * other.z as int,
            ) <= 0x7fff_ffff_ffff_ffff as int * 0x10000,
        ensures
            r == dot_spec(*self, *other),
    {
        proof {
            let p1 = iabs(self.x as int * other.x as int);
            let p2 = iabs(self.y as int * other.y as int);
            let p3 = iabs(self.z as int * other.z as int);
            lemma_tdiv_mag(self.x as int * other.x as int, 65536);
            lemma_tdiv_mag(self.y as int * other.y as int, 65536);
            lemma_tdiv_mag(self.z as int * other.z as int, 65536);
            lemma_div_superadd(p1, p2, 65536);
            lemma_div_superadd(p1 + p2, p3, 65536);
            lemma_div_is_ordered(p1 + p2 + p3, 0x7fff_ffff_ffff_ffff as int * 0x10000, 65536);
            lemma_div_multiples_vanish(0x7fff_ffff_ffff_ffff, 0x10000);
        }
        let t1: i64 = fmul(self.x, other.x);
        let t2: i64 = fmul(self.y, other.y);
        let t3: i64 = fmul(self.z, other.z);
        t1 + t2 + t3
    }

    /// The fixed-point cross product of two vectors.
    pub fn cross(&self, other: &Vector) -> (r: Vector)
        requires
            iabs(self.x as int) <= 0x2000_0000_0000_0000,
            iabs(self.y as int) <= 0x2000_0000_0000_0000,
            iabs(self.z as int) <= 0x2000_0000_0000_0000,
            iabs(other.x as int) <= 0x2000_0000_0000_0000,
            iabs(other.y as int) <= 0x2000_0000_0000_0000,
            iabs(other.z as int) <= 0x2000_0000_0000_0000,
            iabs(self.y as int * other.z as int) <= 0x3fff_ffff_ffff_ffff as int * 0x8000,
            iabs(self.z as int * other.y as int) <= 0x3fff_ffff_ffff_ffff as int * 0x8000,
            iabs(self.z as int * other.x as int) <= 0x3fff_ffff_ffff_ffff as int * 0x8000,
            iabs(self.x as int * other.z as int) <= 0x3fff_ffff_ffff_ffff as int * 0x8000,
            iabs(self.x as int * other.y as int) <= 0x3fff_ffff_ffff_ffff as int * 0x8000,
            iabs(self.y as int * other.x as int) <= 0x3fff_ffff_ffff_ffff as int * 0x8000,
        ensures
            r.x == cross_x(*self, *other),
            r.y == cross_y(*self, *other),
            r.z == cross_z(*self, *other),
    {
        proof {
            lemma_fx_mul_mag(self.y as int, other.z as int, 0x3fff_ffff_ffff_ffff as int * 0x8000);
            lemma_fx_mul_mag(self.z as int, other.y as int, 0x3fff_ffff_ffff_ffff as int * 0x8000);
            lemma_fx_mul_mag(self.z as int, other.x as int, 0x3fff_ffff_ffff_ffff as int * 0x8000);
            lemma_fx_mul_mag(self.x as int, other.z as int, 0x3fff_ffff_ffff_ffff as int * 0x8000);
            lemma_fx_mul_mag(self.x as int, other.y as int, 0x3fff_ffff_ffff_ffff as int * 0x8000);
            lemma_fx_mul_mag(self.y as int, other.x as int, 0x3fff_ffff_ffff_ffff as int * 0x8000);
            lemma_div_multiples_vanish(0x3fff_ffff_ffff_ffff, 0x8000);
        }
        Vector::new(
            fmul(self.y, other.z) - fmul(self.z, other.y),
            fmul(self.z, other.x) - fmul(self.x, other.z),
            fmul(self.x, other.y) - fmul(self.y, other.x),
        )
    }

    /// The raw magnitude, the floor square root of the squared-component sum.
    pub fn magnitude(&self) -> (r: i64)
        requires
            iabs(self.x as int) <= 0x1000_0000_0000_0000,
            iabs(self.y as int) <= 0x1000_0000_0000_0000,
            iabs(self.z as int) <= 0x1000_0000_0000_0000,
        ensures
            r == mag_spec(*self),
            0 <= r <= 0x2000_0000_0000_0000,
            r * r <= mag_sq(*self),
            mag_sq(*self) < (r + 1) * (r + 1),
    {
        proof {
            lemma_mul_le(self.x as int, self.x as int, 0x1000_0000_0000_0000, 0x1000_0000_0000_0000);
            lemma_mul_le(self.y as int, self.y as int, 0x1000_0000_0000_0000, 0x1000_0000_0000_0000);
            lemma_mul_le(self.z as int, self.z as int, 0x1000_0000_0000_0000, 0x1000_0000_0000_0000);
            assert(0 <= self.x as int * self.x as int && 0 <= self.y as int * self.y as int && 0
                <= self.z as int * self.z as int) by (nonlinear_arith);
        }
        let xx: u128 = ((self.x as i128) * (self.x as i128)) as u128;
        let yy: u128 = ((self.y as i128) * (self.y as i128)) as u128;
        let zz: u128 = ((self.z as i128) * (self.z as i128)) as u128;
        let s: u128 = xx + yy + zz;
        let m: u64 = isqrt(s);
        proof {
            assert(m <= 0x2000_0000_0000_0000) by (nonlinear_arith)
                requires
                    m as int * m as int <= s,
                    0 <= m,
                    s <= 3 * (0x1000_0000_0000_0000 as int * 0x1000_0000_0000_0000),
            ;
        }
        m as i64
    }

    pub fn add(&self, other: &Vector) -> (r: Vector)
        requires
            iabs(self.x as int + other.x as int) <= 0x7fff_ffff_ffff_ffff,
            iabs(self.y as int + other.y as int) <= 0x7fff_ffff_ffff_ffff,
            iabs(self.z as int + other.z as int) <= 0x7fff_ffff_ffff_ffff,
        ensures
            r.x == self.x as int + other.x as int,
            r.y == self.y as int + other.y as int,
            r.z == self.z as int + other.z as int,
    {
        Vector::new(self.x + other.x, self.y + other.y, self.z + other.z)
    }

    pub fn subtract(&self, other: &Vector) -> (r: Vector)
        requires
            iabs(self.x as int - other.x as int) <= 0x7fff_ffff_ffff_ffff,
            iabs(self.y as int - other.y as int) <= 0x7fff_ffff_ffff_ffff,
            iabs(self.z as int - other.z as int) <= 0x7fff_ffff_ffff_ffff,
        ensures
            r.x == self.x as int - other.x as int,
            r.y == self.y as int - other.y as int,
            r.z == self.z as int - other.z as int,
    {
        Vector::new(self.x - other.x, self.y - other.y, self.z - other.z)
    }

    pub fn negative(&self) -> (r: Vector)
        requires
            iabs(self.x as int) <= 0x7fff_ffff_ffff_ffff,
            iabs(self.y as int) <= 0x7fff_ffff_ffff_ffff,
            iabs(self.z as int) <= 0x7fff_ffff_ffff_ffff,
        ensures
            r.x == -(self.x as int),
            r.y == -(self.y as int),
            r.z == -(self.z as int),
    {
        Vector::new(-self.x, -self.y, -self.z)
    }

    /// Scale every component by the fixed-point factor `scale`.
    pub fn scale(&self, scale: i64) -> (r: Vector)
        requires
            iabs(scale as int * self.x as int) <= 0x7fff_ffff_ffff_ffff as int * 0x10000,
            iabs(scale as int * self.y as int) <= 0x7fff_ffff_ffff_ffff as int * 0x10000,
            iabs(scale as int * self.z as int) <= 0x7fff_ffff_ffff_ffff as int * 0x10000,
        ensures
            r.x == fx_mul(scale as int, self.x as int),
            r.y == fx_mul(scale as int, self.y as int),
            r.z == fx_mul(scale as int, self.z as int),
    {
        Vector::new(fmul(scale, self.x), fmul(scale, self.y), fmul(scale, self.z))
    }

    /// Scale the vector to unit length (magnitude 65536 raw), each
    /// component rounding toward zero. The zero vector has no direction
    /// and is ruled out.
    pub fn normalize(&self) -> (r: Vector)
        requires
            nonzero(*self),
            iabs(self.x as int) <= 0x1000_0000_0000_0000,
            iabs(self.y as int) <= 0x1000_0000_0000_0000,
            iabs(self.z as int) <= 0x1000_0000_0000_0000,
        ensures
            r.x == norm_x(*self),
            r.y == norm_y(*self),
            r.z == norm_z(*self),
            bounded(r, 65536),
            iabs(r.x as int) >= 32768 || iabs(r.y as int) >= 32768 || iabs(r.z as int) >= 32768,
    {
        let m: i64 = self.magnitude();
        let ghost s = mag_sq(*self);
        let ghost ax = iabs(self.x as int);
        let ghost ay = iabs(self.y as int);
        let ghost az = iabs(self.z as int);
        proof {
            lemma_iabs_mul(self.x as int, self.x as int);
            lemma_iabs_mul(self.y as int, self.y as int);
            lemma_iabs_mul(self.z as int, self.z as int);
            assert(0 <= self.x as int * self.x as int && 0 <= self.y as int * self.y as int && 0
                <= self.z as int * self.z as int) by (nonlinear_arith);
            assert(self.x as int * self.x as int == ax * ax && self.y as int * self.y as int == ay
                * ay && self.z as int * self.z as int == az * az);
            assert(1 <= s) by (nonlinear_arith)
                requires
                    s == ax * ax + ay * ay + az * az,
                    0 <= ax && 0 <= ay && 0 <= az,
                    ax != 0 || ay != 0 || az != 0,
            ;
            assert(1 <= m) by (nonlinear_arith)
                requires
                    0 <= m,
                    s < (m + 1) * (m + 1),
                    1 <= s,
            ;
            assert(ax <= m && ay <= m && az <= m) by (nonlinear_arith)
                requires
                    ax * ax <= s && ay * ay <= s && az * az <= s,
                    s < (m + 1) * (m + 1),
                    0 <= ax && 0 <= ay && 0 <= az && 0 <= m,
            ;
            lemma_iabs_mul(self.x as int, 65536);
            lemma_iabs_mul(self.y as int, 65536);
            lemma_iabs_mul(self.z as int, 65536);
            assert(ax * 65536 <= m as int * 0x7fff_ffff_ffff_ffff && ay * 65536 <= m as int
                * 0x7fff_ffff_ffff_ffff && az * 65536 <= m as int * 0x7fff_ffff_ffff_ffff)
                by (nonlinear_arith)
                requires
                    ax <= m && ay <= m && az <= m,
                    1 <= m,
            ;
        }
        let rx: i64 = fdiv(self.x, m);
        let ry: i64 = fdiv(self.y, m);
        let rz: i64 = fdiv(self.z, m);
        proof {
            lemma_tdiv_mag(self.x as int * 65536, m as int);
            lemma_tdiv_mag(self.y as int * 65536, m as int);
            lemma_tdiv_mag(self.z as int * 65536, m as int);
            assert(ax * 65536 <= 65536 * m && ay * 65536 <= 65536 * m && az * 65536 <= 65536 * m);
            lemma_div_is_ordered(ax * 65536, 65536 * m, m as int);
            lemma_div_is_ordered(ay * 65536, 65536 * m, m as int);
            lemma_div_is_ordered(az * 65536, 65536 * m, m as int);
            lemma_div_by_multiple(65536, m as int);
            // The largest component keeps at least half a unit of length.
            if ax >= ay && ax >= az {
                lemma_norm_floor(ax, ay, az, m as int, s);
                assert(iabs(rx as int) >= 32768);
            } else if ay >= az {
                lemma_norm_floor(ay, ax, az, m as int, s);
                assert(iabs(ry as int) >= 32768);
            } else {
                lemma_norm_floor(az, ax, ay, m as int, s);
                assert(iabs(rz as int) >= 32768);
            }
        }
        Vector::new(rx, ry, rz)
    }

    /// Rotate `self` by `degrees` (raw fixed-point degrees) about `axis`,
    /// using the Rodrigues rotation matrix built from the normalized axis.
    pub fn rotate(&self, degrees: i64, axis: &Vector) -> (r: Vector)
        requires
            nonzero(*axis),
            bounded(*axis, 0x1000_0000_0000_0000),
            bounded(*self, 0x100_0000_0000),
            -0x3fff_ffff_fe00_0000 <= degrees <= 0x3fff_ffff_fe00_0000,
        ensures
            r.x == rotate_x(*self, degrees as int, *axis),
            r.y == rotate_y(*self, degrees as int, *axis),
            r.z == rotate_z(*self, degrees as int, *axis),
            bounded(*self, 0x4_0000) ==> bounded(r, 0x24_0000),
    {
        let a: Vector = axis.normalize();
        let s: i64 = sin_deg(degrees);
        let c: i64 = cos_deg(degrees);
        let omc: i64 = 65536 - c;
        proof {
            lemma_fx_mul_bounds(a.x as int, a.x as int, 65536, 65536);
            lemma_fx_mul_bounds(a.x as int, a.y as int, 65536, 65536);
            lemma_fx_mul_bounds(a.x as int, a.z as int, 65536, 65536);
            lemma_fx_mul_bounds(a.y as int, a.y as int, 65536, 65536);
            lemma_fx_mul_bounds(a.y as int, a.z as int, 65536, 65536);
            lemma_fx_mul_bounds(a.z as int, a.z as int, 65536, 65536);
            lemma_fx_mul_bounds(a.x as int, s as int, 65536, 65536);
            lemma_fx_mul_bounds(a.y as int, s as int, 65536, 65536);
            lemma_fx_mul_bounds(a.z as int, s as int, 65536, 65536);
        }
        let xx: i64 = fmul(a.x, a.x);
        let xy: i64 = fmul(a.x, a.y);
        let xz: i64 = fmul(a.x, a.z);
        let yy: i64 = fmul(a.y, a.y);
        let yz: i64 = fmul(a.y, a.z);
        let zz: i64 = fmul(a.z, a.z);
        let sx: i64 = fmul(a.x, s);
        let sy: i64 = fmul(a.y, s);
        let sz: i64 = fmul(a.z, s);
        proof {
            lemma_fx_mul_bounds(xx as int, omc as int, 65536, 131072);
            lemma_fx_mul_bounds(xy as int, omc as int, 65536, 131072);
            lemma_fx_mul_bounds(xz as int, omc as int, 65536, 131072);
            lemma_fx_mul_bounds(yy as int, omc as int, 65536, 131072);
            lemma_fx_mul_bounds(yz as int, omc as int, 65536, 131072);
            lemma_fx_mul_bounds(zz as int, omc as int, 65536, 131072);
        }
        let txx: i64 = fmul(xx, omc);
        let txy: i64 = fmul(xy, omc);
        let txz: i64 = fmul(xz, omc);
        let tyy: i64 = fmul(yy, omc);
        let tyz: i64 = fmul(yz, omc);
        let tzz: i64 = fmul(zz, omc);
        let m00: i64 = c + txx;
        let m01: i64 = txy - sz;
        let m02: i64 = txz + sy;
        let m10: i64 = txy + sz;
        let m11: i64 = c + tyy;
        let m12: i64 = tyz - sx;
        let m20: i64 = txz - sy;
        let m21: i64 = tyz + sx;
        let m22: i64 = c + tzz;
        proof {
            lemma_fx_mul_bounds(m00 as int, self.x as int, 196608, 0x100_0000_0000);
            lemma_fx_mul_bounds(m01 as int, self.y as int, 196608, 0x100_0000_0000);
            lemma_fx_mul_bounds(m02 as int, self.z as int, 196608, 0x100_0000_0000);
            lemma_fx_mul_bounds(m10 as int, self.x as int, 196608, 0x100_0000_0000);
            lemma_fx_mul_bounds(m11 as int, self.y as int, 196608, 0x100_0000_0000);
            lemma_fx_mul_bounds(m12 as int, self.z as int, 196608, 0x100_0000_0000);
            lemma_fx_mul_bounds(m20 as int, self.x as int, 196608, 0x100_0000_0000);
            lemma_fx_mul_bounds(m21 as int, self.y as int, 196608, 0x100_0000_0000);
            lemma_fx_mul_bounds(m22 as int, self.z as int, 196608, 0x100_0000_0000);
            if bounded(*self, 0x4_0000) {
                lemma_fx_mul_bounds(m00 as int, self.x as int, 196608, 0x4_0000);
                lemma_fx_mul_bounds(m01 as int, self.y as int, 196608, 0x4_0000);
                lemma_fx_mul_bounds(m02 as int, self.z as int, 196608, 0x4_0000);
                lemma_fx_mul_bounds(m10 as int, self.x as int, 196608, 0x4_0000);
                lemma_fx_mul_bounds(m11 as int, self.y as int, 196608, 0x4_0000);
                lemma_fx_mul_bounds(m12 as int, self.z as int, 196608, 0x4_0000);
                lemma_fx_mul_bounds(m20 as int, self.x as int, 196608, 0x4_0000);
                lemma_fx_mul_bounds(m21 as int, self.y as int, 196608, 0x4_0000);
                lemma_fx_mul_bounds(m22 as int, self.z as int, 196608, 0x4_0000);
            }
        }
        Vector::new(
            fmul(m00, self.x) + fmul(m01, self.y) + fmul(m02, self.z),
            fmul(m10, self.x) + fmul(m11, self.y) + fmul(m12, self.z),
            fmul(m20, self.x) + fmul(m21, self.y) + fmul(m22, self.z),
        )
    }

    /// Mirror `self` across `axis`: twice the projection onto the axis,
    /// minus the vector itself.
    pub fn reflect_across(&self, axis: &Vector) -> (r: Vector)
        requires
            bounded(*self, 0x1000_0000),
            bounded(*axis, 0x1000_0000),
        ensures
            r.x == reflect_x(*self, *axis),
            r.y == reflect_y(*self, *axis),
            r.z == reflect_z(*self, *axis),
    {
        proof {
            lemma_dot_bound(*self, *axis, 0x1000_0000, 0x1000_0000);
            let d = dot_spec(*self, *axis);
            lemma_mul_le(131072, d, 131072, 0x300_0000_0003);
            lemma_fx_mul_mag(131072, d, 131072 as int * 0x300_0000_0003);
            let sc = fx_mul(131072, d);
            lemma_mul_le(sc, axis.x as int, 0x600_0000_0006, 0x1000_0000);
            lemma_mul_le(sc, axis.y as int, 0x600_0000_0006, 0x1000_0000);
            lemma_mul_le(sc, axis.z as int, 0x600_0000_0006, 0x1000_0000);
            lemma_fx_mul_mag(sc, axis.x as int, 0x600_0000_0006 as int * 0x1000_0000);
            lemma_fx_mul_mag(sc, axis.y as int, 0x600_0000_0006 as int * 0x1000_0000);
            lemma_fx_mul_mag(sc, axis.z as int, 0x600_0000_0006 as int * 0x1000_0000);
        }
        let d: i64 = self.dot(axis);
        let sc: i64 = fmul(131072, d);
        let delta: Vector = axis.scale(sc);
        delta.subtract(self)
    }

    /// Exact component equality.
    pub fn equals(&self, other: &Vector) -> (r: bool)
        ensures
            r == (self.x == other.x && self.y == other.y && self.z == other.z),
    {
        self.x == other.x && self.y == other.y && self.z == other.z
    }
}

pub struct Ray {
    pub position: Vector,
    pub direction: Vector,
}

} // verus!
