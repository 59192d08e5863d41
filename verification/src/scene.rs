//! The renderable world: materials, lights and triangles, and the
//! nearest-intersection query over them.
//!
//! The query is a linear scan that hands each triangle the best distance
//! found so far as its range bound, so a later triangle can only win by
//! being strictly closer. `scan` is the exact specification of that
//! reduction, and `lemma_scan_closest` states the point of it: nothing
//! in the scene hits strictly within the returned distance.

use vstd::prelude::*;

pub mod lighting;
pub mod primitive;

verus! {

use crate::linear::{Vector, Ray, bounded, dot_spec};
use crate::scene::lighting::{Material, material_wf};
use crate::scene::primitive::{Triangle, triangle_wf, isect_hit, isect_t, isect_u, isect_v,
    lemma_hit_props, lemma_hit_monotone, RAY_LIMIT, RANGE_LIMIT, EPS_T};

pub struct Scene {
    pub materials: Vec<Material>,
    pub objects: Vec<Triangle>,
}

/// Every material and triangle is well-formed and every triangle's
/// material index points into the material list.
pub open spec fn scene_wf(s: Scene) -> bool {
    &&& forall|i: int| 0 <= i < s.materials.len() ==> material_wf(#[trigger] s.materials[i])
    &&& forall|i: int|
        0 <= i < s.objects.len() ==> triangle_wf(#[trigger] s.objects[i])
            && s.objects[i].material_id < s.materials.len()
}

/// The state of the nearest-hit reduction after the first `k` triangles:
/// the winning index, the best distance (starting from `RANGE_LIMIT`),
/// and the winner's barycentric coordinates.
pub open spec fn scan(objects: Seq<Triangle>, r: Ray, k: int) -> (Option<int>, int, int, int)
    decreases k,
{
    if k <= 0 {
        (Option::None, RANGE_LIMIT as int, 0, 0)
    } else {
        let prev = scan(objects, r, k - 1);
        if isect_hit(objects[k - 1], r, prev.1) {
            (
                Option::Some(k - 1),
                isect_t(objects[k - 1], r),
                isect_u(objects[k - 1], r),
                isect_v(objects[k - 1], r),
            )
        } else {
            prev
        }
    }
}

/// Basic facts about the reduction state: the best distance stays in
/// `[EPS_T, RANGE_LIMIT]`, is `RANGE_LIMIT` exactly while nothing was
/// hit, and the winner's barycentric coordinates lie in the unit
/// simplex.
pub proof fn lemma_scan_props(objects: Seq<Triangle>, r: Ray, k: int)
    requires
        0 <= k <= objects.len(),
    ensures
        EPS_T <= scan(objects, r, k).1 <= RANGE_LIMIT,
        scan(objects, r, k).0 is None ==> scan(objects, r, k).1 == RANGE_LIMIT && scan(
            objects,
            r,
            k,
        ).2 == 0 && scan(objects, r, k).3 == 0,
        scan(objects, r, k).0 matches Option::Some(w) ==> 0 <= w < k && 0 <= scan(objects, r, k).2
            <= 65536 && 0 <= scan(objects, r, k).3 <= 65536 && scan(objects, r, k).2 + scan(
            objects,
            r,
            k,
        ).3 <= 65536 && scan(objects, r, k).1 < RANGE_LIMIT && dot_spec(
            objects[w].normal,
            r.direction,
        ) < 0,
    decreases k,
{
    if k > 0 {
        lemma_scan_props(objects, r, k - 1);
        let prev = scan(objects, r, k - 1);
        if isect_hit(objects[k - 1], r, prev.1) {
            lemma_hit_props(objects[k - 1], r, prev.1);
        }
    }
}

/// Nothing in the scene hits strictly closer than the reduction's
/// result: the returned distance is minimal.
pub proof fn lemma_scan_closest(objects: Seq<Triangle>, r: Ray, k: int)
    requires
        0 <= k <= objects.len(),
    ensures
        forall|j: int| 0 <= j < k ==> !isect_hit(#[trigger] objects[j], r, scan(objects, r, k).1),
    decreases k,
{
    if k > 0 {
        lemma_scan_props(objects, r, k - 1);
        lemma_scan_closest(objects, r, k - 1);
        let prev = scan(objects, r, k - 1);
        let cur = scan(objects, r, k);
        if isect_hit(objects[k - 1], r, prev.1) {
            lemma_hit_props(objects[k - 1], r, prev.1);
            // The new best is the winner's own truncated distance, so the
            // winner does not hit strictly within it, and anything older
            // already failed against the larger previous bound.
            assert forall|j: int| 0 <= j < k implies !isect_hit(
                #[trigger] objects[j],
                r,
                cur.1,
            ) by {
                if isect_hit(objects[j], r, cur.1) {
                    lemma_hit_monotone(objects[j], r, cur.1, prev.1);
                    if j == k - 1 {
                        lemma_hit_props(objects[j], r, cur.1);
                    }
                }
            }
        }
    }
}

impl Scene {
    pub fn new(materials: Vec<Material>, objects: Vec<Triangle>) -> (r: Scene)
        requires
            forall|i: int| 0 <= i < materials.len() ==> material_wf(#[trigger] materials[i]),
            forall|i: int|
                0 <= i < objects.len() ==> triangle_wf(#[trigger] objects[i])
                    && objects[i].material_id < materials.len(),
        ensures
            r.materials == materials,
            r.objects == objects,
            scene_wf(r),
    {
        Scene { materials, objects }
    }

    /// Scan every triangle for the nearest hit: each test is bounded by
    /// the best distance so far, so the result is the closest hit in the
    /// scene, or no hit and the full range.
    pub fn find_intersection(&self, ray: &Ray) -> (res: (Option<usize>, i64, i64, i64))
        requires
            scene_wf(*self),
            bounded(ray.position, RAY_LIMIT as int),
            bounded(ray.direction, RAY_LIMIT as int),
        ensures
            ({
                let sc = scan(self.objects@, *ray, self.objects@.len() as int);
                &&& (res.0 is Some) == (sc.0 is Some)
                &&& res.0 matches Option::Some(w) ==> sc.0 == Option::Some(w as int) && w
                    < self.objects@.len()
                &&& res.1 == sc.1
                &&& res.2 == sc.2
                &&& res.3 == sc.3
            }),
            forall|j: int|
                0 <= j < self.objects@.len() ==> !isect_hit(
                    #[trigger] self.objects@[j],
                    *ray,
                    res.1 as int,
                ),
            res.0 is None ==> res.1 == RANGE_LIMIT && res.2 == 0 && res.3 == 0,
            res.0 is Some ==> EPS_T <= res.1 < RANGE_LIMIT && 0 <= res.2 && 0 <= res.3 && res.2
                + res.3 <= 65536,
    {
        let mut t: i64 = RANGE_LIMIT;
        let mut intersection: Option<usize> = Option::None;
        let mut a: i64 = 0;
        let mut b: i64 = 0;
        let mut i: usize = 0;
        proof {
            lemma_scan_props(self.objects@, *ray, 0);
        }
        while i < self.objects.len()
            invariant
                scene_wf(*self),
                bounded(ray.position, RAY_LIMIT as int),
                bounded(ray.direction, RAY_LIMIT as int),
                0 <= i <= self.objects@.len(),
                ({
                    let sc = scan(self.objects@, *ray, i as int);
                    &&& (intersection is Some) == (sc.0 is Some)
                    &&& intersection matches Option::Some(w) ==> sc.0 == Option::Some(w as int)
                        && w < self.objects@.len()
                    &&& t == sc.1
                    &&& a == sc.2
                    &&& b == sc.3
                }),
                EPS_T <= t <= RANGE_LIMIT,
            decreases self.objects@.len() - i,
        {
            let object = &self.objects[i];
            let (intersected, temp_t, temp_a, temp_b) = object.intersect(ray, t);
            proof {
                lemma_scan_props(self.objects@, *ray, i + 1);
            }
            if intersected {
                intersection = Option::Some(i);
                t = temp_t;
                a = temp_a;
                b = temp_b;
            }
            i = i + 1;
        }
        proof {
            lemma_scan_props(self.objects@, *ray, self.objects@.len() as int);
            lemma_scan_closest(self.objects@, *ray, self.objects@.len() as int);
        }
        (intersection, t, a, b)
    }
}

} // verus!
