//! Fan tessellation of polygon faces into triangles.
//!
//! A face is a list of index triples (position, optional texture,
//! optional normal) into the model's attribute arrays. The first corner
//! anchors a fan: every consecutive pair of the remaining corners forms
//! one triangle with it, carrying interpolation data exactly when the
//! anchor carries it.

use vstd::prelude::*;

verus! {

use crate::fixed::iabs;
use crate::linear::{Vector, bounded, cross_x, cross_y, cross_z, norm_x, norm_y, norm_z, vec3,
    sub_vec};
use crate::scene::lighting::UV;
use crate::scene::primitive::{Triangle, triangle_wf, degenerate, VERTEX_LIMIT, VNORMAL_LIMIT,
    UV_LIMIT};

/// An index triple of a face corner: position index, optional texture
/// coordinate index, optional normal index.
pub type IndexTuple = (usize, Option<usize>, Option<usize>);

/// Every corner's indices point into the attribute arrays, and the
/// texture and normal indices are present exactly when the anchor's
/// are.
pub open spec fn polygon_wf(
    polygon: Seq<IndexTuple>,
    positions: Seq<Vector>,
    textures: Seq<UV>,
    normals: Seq<Vector>,
) -> bool {
    &&& polygon.len() >= 1
    &&& forall|i: int|
        0 <= i < polygon.len() ==> (#[trigger] polygon[i]).0 < positions.len() && (polygon[0].1
            is Some ==> (polygon[i].1 matches Option::Some(t) && t < textures.len())) && (
        polygon[0].2 is Some ==> (polygon[i].2 matches Option::Some(n) && n < normals.len()))
}

/// The attribute arrays hold world-bounded data.
pub open spec fn attributes_wf(
    positions: Seq<Vector>,
    textures: Seq<UV>,
    normals: Seq<Vector>,
) -> bool {
    &&& forall|i: int|
        0 <= i < positions.len() ==> bounded(#[trigger] positions[i], VERTEX_LIMIT as int)
    &&& forall|i: int|
        0 <= i < textures.len() ==> iabs((#[trigger] textures[i]).u as int) <= UV_LIMIT && iabs(
            textures[i].v as int,
        ) <= UV_LIMIT
    &&& forall|i: int|
        0 <= i < normals.len() ==> bounded(#[trigger] normals[i], VNORMAL_LIMIT as int)
}

/// No fan triangle is degenerate: the anchor and each consecutive
/// corner pair span a plane.
pub open spec fn fan_nondegenerate(polygon: Seq<IndexTuple>, positions: Seq<Vector>) -> bool {
    forall|k: int|
        0 <= k < polygon.len() - 2 ==> !degenerate(
            positions[polygon[0].0 as int],
            positions[(#[trigger] polygon[k + 1]).0 as int],
            positions[polygon[k + 2].0 as int],
        )
}

/// The `k`-th fan triangle: anchored at the first corner, spanning
/// corners `k+1` and `k+2`, with the anchor-led interpolation data.
pub open spec fn fan_matches(
    t: Triangle,
    polygon: Seq<IndexTuple>,
    positions: Seq<Vector>,
    textures: Seq<UV>,
    normals: Seq<Vector>,
    material_index: int,
    k: int,
) -> bool {
    let anchor = polygon[0];
    let first = polygon[k + 1];
    let second = polygon[k + 2];
    let a = positions[anchor.0 as int];
    let b = positions[first.0 as int];
    let c = positions[second.0 as int];
    &&& t.a == a
    &&& t.edge1 == sub_vec(b, a)
    &&& t.edge2 == sub_vec(c, a)
    &&& t.material_id == material_index
    &&& t.texture_map == (if anchor.1 is Some {
        Option::Some(
            (
                textures[anchor.1->Some_0 as int],
                textures[first.1->Some_0 as int],
                textures[second.1->Some_0 as int],
            ),
        )
    } else {
        Option::<(UV, UV, UV)>::None
    })
    &&& t.normal_map == (if anchor.2 is Some {
        Option::Some(
            (
                normals[anchor.2->Some_0 as int],
                normals[first.2->Some_0 as int],
                normals[second.2->Some_0 as int],
            ),
        )
    } else {
        Option::<(Vector, Vector, Vector)>::None
    })
    &&& t.normal.x == norm_x(
        vec3(
            cross_x(sub_vec(b, a), sub_vec(c, a)),
            cross_y(sub_vec(b, a), sub_vec(c, a)),
            cross_z(sub_vec(b, a), sub_vec(c, a)),
        ),
    )
    &&& triangle_wf(t)
}

/// Append the fan triangles of one polygon face to the mesh: corner
/// zero anchors, and each window of two further corners closes one
/// triangle.
pub fn tessellate(
    polygon: &Vec<IndexTuple>,
    positions: &Vec<Vector>,
    textures: &Vec<UV>,
    normals: &Vec<Vector>,
    material_index: usize,
    mesh: &mut Vec<Triangle>,
)
    requires
        polygon_wf(polygon@, positions@, textures@, normals@),
        attributes_wf(positions@, textures@, normals@),
        fan_nondegenerate(polygon@, positions@),
    ensures
        final(mesh)@.len() == old(mesh)@.len() + (if polygon@.len() >= 3 {
            polygon@.len() - 2
        } else {
            0
        }),
        forall|j: int| 0 <= j < old(mesh)@.len() ==> final(mesh)@[j] == old(mesh)@[j],
        forall|k: int|
            0 <= k < polygon@.len() - 2 ==> fan_matches(
                #[trigger] final(mesh)@[old(mesh)@.len() + k],
                polygon@,
                positions@,
                textures@,
                normals@,
                material_index as int,
                k,
            ),
{
    let anchor: IndexTuple = polygon[0];
    let a: Vector = positions[anchor.0];
    let has_texture: bool = anchor.1.is_some();
    let has_normals: bool = anchor.2.is_some();
    let ghost mesh0 = mesh@;
    let fan_count: usize = if polygon.len() >= 3 {
        polygon.len() - 2
    } else {
        0
    };
    let mut k: usize = 0;
    while k < fan_count
        invariant
            polygon_wf(polygon@, positions@, textures@, normals@),
            attributes_wf(positions@, textures@, normals@),
            fan_nondegenerate(polygon@, positions@),
            anchor == polygon@[0],
            a == positions@[anchor.0 as int],
            has_texture == (anchor.1 is Some),
            has_normals == (anchor.2 is Some),
            0 <= k <= fan_count,
            polygon@.len() <= usize::MAX,
            fan_count == (if polygon@.len() >= 3 {
                polygon@.len() - 2
            } else {
                0
            }),
            mesh@.len() == mesh0.len() + k,
            forall|j: int| 0 <= j < mesh0.len() ==> mesh@[j] == mesh0[j],
            forall|j: int|
                0 <= j < k ==> fan_matches(
                    #[trigger] mesh@[mesh0.len() + j],
                    polygon@,
                    positions@,
                    textures@,
                    normals@,
                    material_index as int,
                    j,
                ),
        decreases fan_count - k,
    {
        proof {
            assert(k + 2 < polygon@.len());
        }
        let first: IndexTuple = polygon[k + 1];
        let second: IndexTuple = polygon[k + 2];
        let b: Vector = positions[first.0];
        let c: Vector = positions[second.0];
        let texture_map: Option<(UV, UV, UV)> = if has_texture {
            Option::Some(
                (
                    textures[anchor.1.unwrap()],
                    textures[first.1.unwrap()],
                    textures[second.1.unwrap()],
                ),
            )
        } else {
            Option::None
        };
        let normal_map: Option<(Vector, Vector, Vector)> = if has_normals {
            Option::Some(
                (normals[anchor.2.unwrap()], normals[first.2.unwrap()], normals[second.2.unwrap()]),
            )
        } else {
            Option::None
        };
        let t: Triangle = Triangle::new(a, b, c, material_index, texture_map, normal_map);
        mesh.push(t);
        k = k + 1;
    }
}

} // verus!
