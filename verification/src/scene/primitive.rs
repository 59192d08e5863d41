//! Triangles and the Moeller-Trumbore ray intersection test.
//!
//! A triangle keeps its anchor vertex, two precomputed edge vectors, a
//! normalized face normal, a material index, and optional per-vertex
//! texture coordinates and normals. Intersection works division-free:
//! the barycentric conditions are decided on the numerators against the
//! determinant, and the quotients are formed only for an accepted hit,
//! so every division is exact within its proved bounds.

use vstd::prelude::*;

verus! {

use vstd::arithmetic::div_mod::*;
use crate::fixed::{
    iabs, fx_mul, fx_div, fdiv, lemma_fx_mul_bounds, lemma_mul_le,
    lemma_tdiv_mag, lemma_div_superadd, lemma_iabs_mul,
};
use crate::linear::{Vector, Ray, bounded, dot_spec, cross_x, cross_y, cross_z, norm_x,
    norm_y, norm_z, vec3, sub_vec, lemma_dot_bound, lemma_cross_bound};
use crate::scene::lighting::UV;

/// Bound on vertex coordinates (4096 world units).
pub const VERTEX_LIMIT: i64 = 0x1000_0000;

/// Bound on edge vectors: a difference of two vertices.
pub const EDGE_LIMIT: i64 = 0x2000_0000;

/// Bound on per-vertex shading normals (two units).
pub const VNORMAL_LIMIT: i64 = 0x2_0000;

/// Bound on interpolated shading normals.
pub const NORMAL_LIMIT: i64 = 0x8_0000;

/// Bound on texture coordinates.
pub const UV_LIMIT: i64 = 0x1_0000_0000;

/// Bound on the position and direction of any ray handed to `intersect`.
pub const RAY_LIMIT: i64 = 0x8000_0000;

/// Bound on any point on a triangle (anchor plus both full edges).
pub const POINT_LIMIT: i64 = 0x5000_0000;

/// Upper bound on meaningful hit distances; the query starts from here.
pub const RANGE_LIMIT: i64 = 0x1_0000_0000_0000;

/// Hits closer than this (about 1e-4 units, in units of the ray
/// direction's length) are rejected to avoid self-intersection.
pub const EPS_T: i64 = 7;

/// The cross product of `b - a` and `c - a` vanishes: the corners are
/// collinear and span no plane.
pub open spec fn degenerate(a: Vector, b: Vector, c: Vector) -> bool {
    let e1 = sub_vec(b, a);
    let e2 = sub_vec(c, a);
    cross_x(e1, e2) == 0 && cross_y(e1, e2) == 0 && cross_z(e1, e2) == 0
}

pub struct Triangle {
    pub material_id: usize,
    pub normal: Vector,
    pub edge1: Vector,
    pub edge2: Vector,
    pub a: Vector,
    pub texture_map: Option<(UV, UV, UV)>,
    pub normal_map: Option<(Vector, Vector, Vector)>,
}

/// Geometry within the world bounds: anchor and edges bounded, the face
/// normal unit-bounded, optional per-vertex data bounded.
pub open spec fn triangle_wf(t: Triangle) -> bool {
    &&& bounded(t.a, VERTEX_LIMIT as int)
    &&& bounded(t.edge1, EDGE_LIMIT as int)
    &&& bounded(t.edge2, EDGE_LIMIT as int)
    &&& bounded(t.normal, 65536)
    &&& match t.normal_map {
        Option::Some(nm) => bounded(nm.0, VNORMAL_LIMIT as int) && bounded(
            nm.1,
            VNORMAL_LIMIT as int,
        ) && bounded(nm.2, VNORMAL_LIMIT as int),
        Option::None => true,
    }
    &&& match t.texture_map {
        Option::Some(tm) => iabs(tm.0.u as int) <= UV_LIMIT && iabs(tm.0.v as int) <= UV_LIMIT
            && iabs(tm.1.u as int) <= UV_LIMIT && iabs(tm.1.v as int) <= UV_LIMIT && iabs(
            tm.2.u as int,
        ) <= UV_LIMIT && iabs(tm.2.v as int) <= UV_LIMIT,
        Option::None => true,
    }
}

/// The edge cross product `direction x edge2` of the intersection test.
pub open spec fn isect_h(t: Triangle, r: Ray) -> Vector {
    vec3(
        cross_x(r.direction, t.edge2),
        cross_y(r.direction, t.edge2),
        cross_z(r.direction, t.edge2),
    )
}

/// The determinant `edge1 . (direction x edge2)`.
pub open spec fn isect_det(t: Triangle, r: Ray) -> int {
    dot_spec(t.edge1, isect_h(t, r))
}

/// The ray origin relative to the triangle's anchor.
pub open spec fn isect_delta(t: Triangle, r: Ray) -> Vector {
    sub_vec(r.position, t.a)
}

/// Numerator of the first barycentric coordinate.
pub open spec fn isect_unum(t: Triangle, r: Ray) -> int {
    dot_spec(isect_delta(t, r), isect_h(t, r))
}

/// The cross product `delta x edge1`.
pub open spec fn isect_q(t: Triangle, r: Ray) -> Vector {
    vec3(
        cross_x(isect_delta(t, r), t.edge1),
        cross_y(isect_delta(t, r), t.edge1),
        cross_z(isect_delta(t, r), t.edge1),
    )
}

/// Numerator of the second barycentric coordinate.
pub open spec fn isect_vnum(t: Triangle, r: Ray) -> int {
    dot_spec(r.direction, isect_q(t, r))
}

/// Numerator of the hit distance.
pub open spec fn isect_tnum(t: Triangle, r: Ray) -> int {
    dot_spec(t.edge2, isect_q(t, r))
}

/// The ray hits the triangle within `max_range`: it approaches the front
/// face, is not parallel, both barycentric coordinates and their sum lie
/// within the unit simplex, and the distance lies strictly between the
/// self-intersection epsilon and `max_range`. The barycentric and
/// distance conditions compare numerators against the determinant, which
/// is exact rational arithmetic.
pub open spec fn isect_hit(t: Triangle, r: Ray, max_range: int) -> bool {
    let nd = dot_spec(t.normal, r.direction);
    let det = isect_det(t, r);
    let un = isect_unum(t, r);
    let vn = isect_vnum(t, r);
    let tn = isect_tnum(t, r);
    &&& nd < 0
    &&& det != 0
    &&& if det > 0 {
        0 <= un <= det
    } else {
        det <= un <= 0
    }
    &&& if det > 0 {
        0 <= vn && un + vn <= det
    } else {
        vn <= 0 && un + vn >= det
    }
    &&& if det > 0 {
        tn * 65536 > EPS_T * det && tn * 65536 < max_range * det
    } else {
        tn * 65536 < EPS_T * det && tn * 65536 > max_range * det
    }
}

/// The hit distance, in units of the ray direction's length.
pub open spec fn isect_t(t: Triangle, r: Ray) -> int {
    fx_div(isect_tnum(t, r), isect_det(t, r))
}

/// The first barycentric coordinate of the hit.
pub open spec fn isect_u(t: Triangle, r: Ray) -> int {
    fx_div(isect_unum(t, r), isect_det(t, r))
}

/// The second barycentric coordinate of the hit.
pub open spec fn isect_v(t: Triangle, r: Ray) -> int {
    fx_div(isect_vnum(t, r), isect_det(t, r))
}

/// The interpolated shading normal at barycentric coordinates `(b, c)`:
/// the face normal where no per-vertex normals exist, else their
/// barycentric blend.
pub open spec fn sn_x(t: Triangle, b: int, c: int) -> int {
    match t.normal_map {
        Option::Some(nm) => fx_mul(65536 - b - c, nm.0.x as int) + fx_mul(b, nm.1.x as int)
            + fx_mul(c, nm.2.x as int),
        Option::None => t.normal.x as int,
    }
}

pub open spec fn sn_y(t: Triangle, b: int, c: int) -> int {
    match t.normal_map {
        Option::Some(nm) => fx_mul(65536 - b - c, nm.0.y as int) + fx_mul(b, nm.1.y as int)
            + fx_mul(c, nm.2.y as int),
        Option::None => t.normal.y as int,
    }
}

pub open spec fn sn_z(t: Triangle, b: int, c: int) -> int {
    match t.normal_map {
        Option::Some(nm) => fx_mul(65536 - b - c, nm.0.z as int) + fx_mul(b, nm.1.z as int)
            + fx_mul(c, nm.2.z as int),
        Option::None => t.normal.z as int,
    }
}

/// The interpolated texture coordinate at barycentric `(b, c)`.
pub open spec fn uv_u(t: Triangle, b: int, c: int) -> int {
    let tm = t.texture_map->Some_0;
    fx_mul(65536 - b - c, tm.0.u as int) + fx_mul(b, tm.1.u as int) + fx_mul(c, tm.2.u as int)
}

pub open spec fn uv_v(t: Triangle, b: int, c: int) -> int {
    let tm = t.texture_map->Some_0;
    fx_mul(65536 - b - c, tm.0.v as int) + fx_mul(b, tm.1.v as int) + fx_mul(c, tm.2.v as int)
}

/// The point at barycentric coordinates `(u, v)`: anchor plus the two
/// edges scaled by the coordinates.
pub open spec fn point_x(t: Triangle, u: int, v: int) -> int {
    t.a.x + fx_mul(u, t.edge1.x as int) + fx_mul(v, t.edge2.x as int)
}

pub open spec fn point_y(t: Triangle, u: int, v: int) -> int {
    t.a.y + fx_mul(u, t.edge1.y as int) + fx_mul(v, t.edge2.y as int)
}

pub open spec fn point_z(t: Triangle, u: int, v: int) -> int {
    t.a.z + fx_mul(u, t.edge1.z as int) + fx_mul(v, t.edge2.z as int)
}

/// A ray orthogonal to the face normal never hits: the intersection test
/// culls every direction that does not strictly approach the front face.
pub proof fn lemma_parallel_misses(t: Triangle, r: Ray, max_range: int)
    requires
        dot_spec(t.normal, r.direction) == 0,
    ensures
        !isect_hit(t, r, max_range),
{
}

/// A numerator strictly between epsilon and `max_range` multiples of the
/// determinant divides without overflowing.
proof fn lemma_ratio_fits(tn: int, det: int, mr: int)
    requires
        det != 0,
        0 < mr <= RANGE_LIMIT,
        det > 0 ==> EPS_T * det < tn * 65536 < mr * det,
        det < 0 ==> mr * det < tn * 65536 < EPS_T * det,
    ensures
        iabs(tn) * 65536 <= iabs(det) * 0x7fff_ffff_ffff_ffff,
{
    lemma_iabs_mul(tn, 65536);
    assert(iabs(tn) * 65536 <= iabs(det) * 0x7fff_ffff_ffff_ffff) by (nonlinear_arith)
        requires
            det != 0,
            0 < mr <= 0x1_0000_0000_0000,
            det > 0 ==> EPS_T * det < tn * 65536 < mr * det,
            det < 0 ==> mr * det < tn * 65536 < EPS_T * det,
            iabs(tn * 65536) == iabs(tn) * 65536,
            EPS_T == 7,
    ;
}

/// A numerator within one determinant of zero divides without
/// overflowing.
proof fn lemma_ratio_unit(un: int, det: int)
    requires
        det != 0,
        det > 0 ==> 0 <= un <= det,
        det < 0 ==> det <= un <= 0,
    ensures
        iabs(un) * 65536 <= iabs(det) * 0x7fff_ffff_ffff_ffff,
{
    assert(iabs(un) * 65536 <= iabs(det) * 0x7fff_ffff_ffff_ffff) by (nonlinear_arith)
        requires
            iabs(un) <= iabs(det),
            0 <= iabs(un),
    ;
}

/// The quotient of a numerator strictly between epsilon and `max_range`
/// multiples of the determinant lies in `[EPS_T, max_range)`.
proof fn lemma_ratio_range(tn: int, det: int, eps: int, mr: int)
    requires
        det != 0,
        0 < eps,
        0 < mr,
        det > 0 ==> eps * det < tn * 65536 < mr * det,
        det < 0 ==> mr * det < tn * 65536 < eps * det,
    ensures
        eps <= fx_div(tn, det) < mr,
{
    let n = iabs(tn * 65536);
    let d = iabs(det);
    lemma_iabs_mul(tn, 65536);
    lemma_tdiv_mag(tn * 65536, det);
    assert(eps * d < n && n < mr * d && (0 <= tn * 65536) == (0 <= det)) by (nonlinear_arith)
        requires
            det != 0,
            0 < eps,
            0 < mr,
            det > 0 ==> eps * det < tn * 65536 < mr * det,
            det < 0 ==> mr * det < tn * 65536 < eps * det,
            n == iabs(tn * 65536),
            d == iabs(det),
    ;
    assert(fx_div(tn, det) == n / d);
    lemma_multiply_divide_lt(n, d, mr);
    lemma_div_is_ordered(eps * d, n, d);
    lemma_div_by_multiple(eps, d);
    assert(eps * d == d * eps);
}

/// Barycentric numerators of the determinant's sign divide to
/// coordinates within the unit simplex.
proof fn lemma_unit_pair(un: int, vn: int, det: int)
    requires
        det != 0,
        det > 0 ==> 0 <= un && 0 <= vn && un + vn <= det,
        det < 0 ==> un <= 0 && vn <= 0 && un + vn >= det,
    ensures
        0 <= fx_div(un, det) <= 65536,
        0 <= fx_div(vn, det) <= 65536,
        fx_div(un, det) + fx_div(vn, det) <= 65536,
{
    let d = iabs(det);
    lemma_tdiv_mag(un * 65536, det);
    lemma_tdiv_mag(vn * 65536, det);
    lemma_iabs_mul(un, 65536);
    lemma_iabs_mul(vn, 65536);
    assert((0 <= un * 65536) == (0 <= un) && (0 <= vn * 65536) == (0 <= vn) && iabs(un) + iabs(vn)
        == iabs(un + vn) && iabs(un + vn) <= d) by (nonlinear_arith)
        requires
            det != 0,
            det > 0 ==> 0 <= un && 0 <= vn && un + vn <= det,
            det < 0 ==> un <= 0 && vn <= 0 && un + vn >= det,
            d == iabs(det),
    ;
    assert(fx_div(un, det) == iabs(un) * 65536 / d && fx_div(vn, det) == iabs(vn) * 65536 / d);
    lemma_div_pos_is_pos(iabs(un) * 65536, d);
    lemma_div_pos_is_pos(iabs(vn) * 65536, d);
    lemma_div_superadd(iabs(un) * 65536, iabs(vn) * 65536, d);
    assert(iabs(un) * 65536 + iabs(vn) * 65536 == (iabs(un) + iabs(vn)) * 65536)
        by (nonlinear_arith);
    assert((iabs(un) + iabs(vn)) * 65536 <= 65536 * d) by (nonlinear_arith)
        requires
            iabs(un) + iabs(vn) <= d,
            0 <= d,
    ;
    lemma_div_is_ordered((iabs(un) + iabs(vn)) * 65536, 65536 * d, d);
    lemma_div_by_multiple(65536, d);
    lemma_div_is_ordered(iabs(un) * 65536, 65536 * d, d);
    lemma_div_is_ordered(iabs(vn) * 65536, 65536 * d, d);
    assert(iabs(un) * 65536 <= 65536 * d && iabs(vn) * 65536 <= 65536 * d) by (nonlinear_arith)
        requires
            iabs(un) <= d,
            iabs(vn) <= d,
            0 <= iabs(un),
            0 <= iabs(vn),
    ;
}

/// An accepted hit yields a distance strictly inside
/// `[EPS_T, max_range)` and barycentric coordinates within the unit
/// simplex.
pub proof fn lemma_hit_props(t: Triangle, r: Ray, max_range: int)
    requires
        isect_hit(t, r, max_range),
        0 < max_range <= RANGE_LIMIT,
    ensures
        EPS_T <= isect_t(t, r) < max_range,
        0 <= isect_u(t, r) <= 65536,
        0 <= isect_v(t, r) <= 65536,
        isect_u(t, r) + isect_v(t, r) <= 65536,
{
    let det = isect_det(t, r);
    lemma_ratio_range(isect_tnum(t, r), det, EPS_T as int, max_range);
    lemma_unit_pair(isect_unum(t, r), isect_vnum(t, r), det);
}

/// A hit within a shorter range is also a hit within any longer one.
pub proof fn lemma_hit_monotone(t: Triangle, r: Ray, m1: int, m2: int)
    requires
        m1 <= m2,
        isect_hit(t, r, m1),
    ensures
        isect_hit(t, r, m2),
{
    let det = isect_det(t, r);
    let tn = isect_tnum(t, r);
    if det > 0 {
        assert(tn * 65536 < m2 * det) by (nonlinear_arith)
            requires
                det > 0,
                tn * 65536 < m1 * det,
                m1 <= m2,
        ;
    } else {
        assert(tn * 65536 > m2 * det) by (nonlinear_arith)
            requires
                det < 0,
                tn * 65536 > m1 * det,
                m1 <= m2,
        ;
    }
}

/// Check whether three corners span no plane; such a triangle has no
/// face normal and cannot be constructed.
pub fn is_degenerate(a: &Vector, b: &Vector, c: &Vector) -> (r: bool)
    requires
        bounded(*a, VERTEX_LIMIT as int),
        bounded(*b, VERTEX_LIMIT as int),
        bounded(*c, VERTEX_LIMIT as int),
    ensures
        r == degenerate(*a, *b, *c),
{
    let e1: Vector = b.subtract(a);
    let e2: Vector = c.subtract(a);
    proof {
        lemma_cross_bound(e1, e2, EDGE_LIMIT as int, EDGE_LIMIT as int);
    }
    let n: Vector = e1.cross(&e2);
    n.x == 0 && n.y == 0 && n.z == 0
}

impl Triangle {
    /// Build a triangle from three corners; the corners must span a
    /// plane, and the face normal is precomputed from the edges.
    pub fn new(
        a: Vector,
        b: Vector,
        c: Vector,
        material_id: usize,
        texture_map: Option<(UV, UV, UV)>,
        normal_map: Option<(Vector, Vector, Vector)>,
    ) -> (r: Triangle)
        requires
            bounded(a, VERTEX_LIMIT as int),
            bounded(b, VERTEX_LIMIT as int),
            bounded(c, VERTEX_LIMIT as int),
            !degenerate(a, b, c),
            match texture_map {
                Option::Some(tm) => iabs(tm.0.u as int) <= UV_LIMIT && iabs(tm.0.v as int)
                    <= UV_LIMIT && iabs(tm.1.u as int) <= UV_LIMIT && iabs(tm.1.v as int)
                    <= UV_LIMIT && iabs(tm.2.u as int) <= UV_LIMIT && iabs(tm.2.v as int)
                    <= UV_LIMIT,
                Option::None => true,
            },
            match normal_map {
                Option::Some(nm) => bounded(nm.0, VNORMAL_LIMIT as int) && bounded(
                    nm.1,
                    VNORMAL_LIMIT as int,
                ) && bounded(nm.2, VNORMAL_LIMIT as int),
                Option::None => true,
            },
        ensures
            r.a == a,
            r.edge1 == sub_vec(b, a),
            r.edge2 == sub_vec(c, a),
            r.material_id == material_id,
            r.texture_map == texture_map,
            r.normal_map == normal_map,
            r.normal.x == norm_x(
                vec3(
                    cross_x(sub_vec(b, a), sub_vec(c, a)),
                    cross_y(sub_vec(b, a), sub_vec(c, a)),
                    cross_z(sub_vec(b, a), sub_vec(c, a)),
                ),
            ),
            r.normal.y == norm_y(
                vec3(
                    cross_x(sub_vec(b, a), sub_vec(c, a)),
                    cross_y(sub_vec(b, a), sub_vec(c, a)),
                    cross_z(sub_vec(b, a), sub_vec(c, a)),
                ),
            ),
            r.normal.z == norm_z(
                vec3(
                    cross_x(sub_vec(b, a), sub_vec(c, a)),
                    cross_y(sub_vec(b, a), sub_vec(c, a)),
                    cross_z(sub_vec(b, a), sub_vec(c, a)),
                ),
            ),
            triangle_wf(r),
    {
        let edge1: Vector = b.subtract(&a);
        let edge2: Vector = c.subtract(&a);
        proof {
            lemma_cross_bound(edge1, edge2, EDGE_LIMIT as int, EDGE_LIMIT as int);
        }
        let cross_product: Vector = edge1.cross(&edge2);
        let normal: Vector = cross_product.normalize();
        Triangle { material_id, normal, edge1, edge2, a, texture_map, normal_map }
    }

    pub fn material_id(&self) -> (r: usize)
        ensures
            r == self.material_id,
    {
        self.material_id
    }

    pub fn has_texture(&self) -> (r: bool)
        ensures
            r == (self.texture_map is Some),
    {
        match self.texture_map {
            Option::None => false,
            Option::Some(_) => true,
        }
    }

    fn has_normal_map(&self) -> (r: bool)
        ensures
            r == (self.normal_map is Some),
    {
        match self.normal_map {
            Option::None => false,
            Option::Some(_) => true,
        }
    }

    /// Moeller-Trumbore intersection against a back-face-culling
    /// triangle. On a hit the result is `(true, t, u, v)` with the
    /// distance `t` (in units of the direction's length) and the
    /// barycentric coordinates `(u, v)`; on a miss it is
    /// `(false, max_range, 0, 0)`.
    pub fn intersect(&self, ray: &Ray, max_range: i64) -> (res: (bool, i64, i64, i64))
        requires
            triangle_wf(*self),
            bounded(ray.position, RAY_LIMIT as int),
            bounded(ray.direction, RAY_LIMIT as int),
            0 < max_range <= RANGE_LIMIT,
        ensures
            res.0 == isect_hit(*self, *ray, max_range as int),
            !res.0 ==> res.1 == max_range && res.2 == 0 && res.3 == 0,
            res.0 ==> res.1 == isect_t(*self, *ray) && EPS_T <= res.1 < max_range,
            res.0 ==> res.2 == isect_u(*self, *ray) && res.3 == isect_v(*self, *ray),
            res.0 ==> 0 <= res.2 && 0 <= res.3 && res.2 + res.3 <= 65536,
            dot_spec(self.normal, ray.direction) >= 0 ==> !res.0,
            isect_det(*self, *ray) == 0 ==> !res.0,
    {
        proof {
            lemma_dot_bound(self.normal, ray.direction, 65536, RAY_LIMIT as int);
        }
        let nd: i64 = self.normal.dot(&ray.direction);
        if nd >= 0 {
            return (false, max_range, 0, 0);
        }
        proof {
            lemma_cross_bound(ray.direction, self.edge2, RAY_LIMIT as int, EDGE_LIMIT as int);
        }
        let h: Vector = ray.direction.cross(&self.edge2);
        proof {
            assert(h == isect_h(*self, *ray));
            lemma_dot_bound(self.edge1, h, EDGE_LIMIT as int, 0x2000_0000_0000);
        }
        let det: i64 = self.edge1.dot(&h);
        if det == 0 {
            return (false, max_range, 0, 0);
        }
        let delta: Vector = ray.position.subtract(&self.a);
        proof {
            assert(delta == isect_delta(*self, *ray));
            lemma_dot_bound(delta, h, 0x1_0000_0000, 0x2000_0000_0000);
        }
        let un: i64 = delta.dot(&h);
        let u_ok: bool = if det > 0 {
            0 <= un && un <= det
        } else {
            det <= un && un <= 0
        };
        if !u_ok {
            return (false, max_range, 0, 0);
        }
        proof {
            lemma_cross_bound(delta, self.edge1, 0x1_0000_0000, EDGE_LIMIT as int);
        }
        let q: Vector = delta.cross(&self.edge1);
        proof {
            assert(q == isect_q(*self, *ray));
            lemma_dot_bound(ray.direction, q, RAY_LIMIT as int, 0x4000_0000_0000);
            lemma_dot_bound(self.edge2, q, EDGE_LIMIT as int, 0x4000_0000_0000);
        }
        let vn: i64 = ray.direction.dot(&q);
        let v_ok: bool = if det > 0 {
            0 <= vn && un + vn <= det
        } else {
            vn <= 0 && un + vn >= det
        };
        if !v_ok {
            return (false, max_range, 0, 0);
        }
        let tn: i64 = self.edge2.dot(&q);
        proof {
            lemma_mul_le(tn as int, 65536, 0x8000_0000_0000_0000, 65536);
            lemma_mul_le(EPS_T as int, det as int, 7, 0x8000_0000_0000_0000);
            lemma_mul_le(max_range as int, det as int, RANGE_LIMIT as int, 0x8000_0000_0000_0000);
        }
        let tnw: i128 = (tn as i128) * 65536;
        let detw: i128 = det as i128;
        let low: i128 = (EPS_T as i128) * detw;
        let high: i128 = (max_range as i128) * detw;
        let t_ok: bool = if det > 0 {
            tnw > low && tnw < high
        } else {
            tnw < low && tnw > high
        };
        if !t_ok {
            return (false, max_range, 0, 0);
        }
        proof {
            lemma_ratio_fits(tn as int, det as int, max_range as int);
            lemma_ratio_unit(un as int, det as int);
            lemma_ratio_unit(vn as int, det as int);
        }
        let t: i64 = fdiv(tn, det);
        let u: i64 = fdiv(un, det);
        let v: i64 = fdiv(vn, det);
        proof {
            lemma_ratio_range(tn as int, det as int, EPS_T as int, max_range as int);
            lemma_unit_pair(un as int, vn as int, det as int);
        }
        (true, t, u, v)
    }

    /// The shading normal at barycentric coordinates `(b, c)`: the face
    /// normal, or the blend of the per-vertex normals where those exist.
    pub fn surface_normal(&self, b: i64, c: i64) -> (r: Vector)
        requires
            triangle_wf(*self),
            0 <= b <= 65536,
            0 <= c <= 65536,
            b + c <= 65536,
        ensures
            r.x == sn_x(*self, b as int, c as int),
            r.y == sn_y(*self, b as int, c as int),
            r.z == sn_z(*self, b as int, c as int),
            bounded(r, NORMAL_LIMIT as int),
    {
        if !self.has_normal_map() {
            return self.normal;
        }
        let a: i64 = 65536 - b - c;
        let normal_map: (Vector, Vector, Vector) = self.normal_map.unwrap();
        proof {
            lemma_fx_mul_bounds(a as int, normal_map.0.x as int, 65536, VNORMAL_LIMIT as int);
            lemma_fx_mul_bounds(a as int, normal_map.0.y as int, 65536, VNORMAL_LIMIT as int);
            lemma_fx_mul_bounds(a as int, normal_map.0.z as int, 65536, VNORMAL_LIMIT as int);
            lemma_fx_mul_bounds(b as int, normal_map.1.x as int, 65536, VNORMAL_LIMIT as int);
            lemma_fx_mul_bounds(b as int, normal_map.1.y as int, 65536, VNORMAL_LIMIT as int);
            lemma_fx_mul_bounds(b as int, normal_map.1.z as int, 65536, VNORMAL_LIMIT as int);
            lemma_fx_mul_bounds(c as int, normal_map.2.x as int, 65536, VNORMAL_LIMIT as int);
            lemma_fx_mul_bounds(c as int, normal_map.2.y as int, 65536, VNORMAL_LIMIT as int);
            lemma_fx_mul_bounds(c as int, normal_map.2.z as int, 65536, VNORMAL_LIMIT as int);
        }
        let a_vec: Vector = normal_map.0.scale(a);
        let b_vec: Vector = normal_map.1.scale(b);
        let c_vec: Vector = normal_map.2.scale(c);
        a_vec.add(&b_vec).add(&c_vec)
    }

    /// The interpolated texture coordinate at barycentric `(b, c)`; only
    /// for triangles that carry texture coordinates.
    pub fn uv(&self, b: i64, c: i64) -> (r: UV)
        requires
            triangle_wf(*self),
            self.texture_map is Some,
            0 <= b <= 65536,
            0 <= c <= 65536,
            b + c <= 65536,
        ensures
            r.u == uv_u(*self, b as int, c as int),
            r.v == uv_v(*self, b as int, c as int),
            iabs(r.u as int) <= 3 * UV_LIMIT,
            iabs(r.v as int) <= 3 * UV_LIMIT,
    {
        let a: i64 = 65536 - b - c;
        let texture_uv: (UV, UV, UV) = self.texture_map.unwrap();
        proof {
            lemma_fx_mul_bounds(a as int, texture_uv.0.u as int, 65536, UV_LIMIT as int);
            lemma_fx_mul_bounds(a as int, texture_uv.0.v as int, 65536, UV_LIMIT as int);
            lemma_fx_mul_bounds(b as int, texture_uv.1.u as int, 65536, UV_LIMIT as int);
            lemma_fx_mul_bounds(b as int, texture_uv.1.v as int, 65536, UV_LIMIT as int);
            lemma_fx_mul_bounds(c as int, texture_uv.2.u as int, 65536, UV_LIMIT as int);
            lemma_fx_mul_bounds(c as int, texture_uv.2.v as int, 65536, UV_LIMIT as int);
        }
        let u: i64 = crate::fixed::fmul(a, texture_uv.0.u) + crate::fixed::fmul(b, texture_uv.1.u)
            + crate::fixed::fmul(c, texture_uv.2.u);
        let v: i64 = crate::fixed::fmul(a, texture_uv.0.v) + crate::fixed::fmul(b, texture_uv.1.v)
            + crate::fixed::fmul(c, texture_uv.2.v);
        UV::new(u, v)
    }

    /// The world-space point at barycentric coordinates `(u, v)`.
    pub fn point_at(&self, u: i64, v: i64) -> (r: Vector)
        requires
            triangle_wf(*self),
            0 <= u <= 65536,
            0 <= v <= 65536,
            u + v <= 65536,
        ensures
            r.x == point_x(*self, u as int, v as int),
            r.y == point_y(*self, u as int, v as int),
            r.z == point_z(*self, u as int, v as int),
            bounded(r, POINT_LIMIT as int),
    {
        proof {
            lemma_fx_mul_bounds(u as int, self.edge1.x as int, 65536, EDGE_LIMIT as int);
            lemma_fx_mul_bounds(u as int, self.edge1.y as int, 65536, EDGE_LIMIT as int);
            lemma_fx_mul_bounds(u as int, self.edge1.z as int, 65536, EDGE_LIMIT as int);
            lemma_fx_mul_bounds(v as int, self.edge2.x as int, 65536, EDGE_LIMIT as int);
            lemma_fx_mul_bounds(v as int, self.edge2.y as int, 65536, EDGE_LIMIT as int);
            lemma_fx_mul_bounds(v as int, self.edge2.z as int, 65536, EDGE_LIMIT as int);
        }
        let e1: Vector = self.edge1.scale(u);
        let e2: Vector = self.edge2.scale(v);
        self.a.add(&e1).add(&e2)
    }
}

} // verus!
