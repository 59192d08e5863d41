//! Model decoding: fan tessellation and the binary facet stream.

use raytracer::load::stl::{load_stl, StlError};
use raytracer::load::wavefront::tessellate;
use raytracer::linear::Vector;
use raytracer::scene::lighting::UV;
use raytracer::scene::primitive::Triangle;

const ONE: i64 = 65536;

#[test]
fn tessellate_quad_into_fan() {
    let positions = vec![
        Vector::new(0, 0, 0),
        Vector::new(ONE, 0, 0),
        Vector::new(ONE, ONE, 0),
        Vector::new(0, ONE, 0),
    ];
    let textures: Vec<UV> = Vec::new();
    let normals: Vec<Vector> = Vec::new();
    let polygon: Vec<(usize, Option<usize>, Option<usize>)> = vec![
        (0, None, None),
        (1, None, None),
        (2, None, None),
        (3, None, None),
    ];
    let mut mesh: Vec<Triangle> = Vec::new();
    tessellate(&polygon, &positions, &textures, &normals, 7, &mut mesh);
    assert_eq!(mesh.len(), 2);
    // Both triangles anchor at corner zero.
    assert_eq!(mesh[0].a, Vector::new(0, 0, 0));
    assert_eq!(mesh[1].a, Vector::new(0, 0, 0));
    assert_eq!(mesh[0].edge1, Vector::new(ONE, 0, 0));
    assert_eq!(mesh[0].edge2, Vector::new(ONE, ONE, 0));
    assert_eq!(mesh[1].edge1, Vector::new(ONE, ONE, 0));
    assert_eq!(mesh[1].edge2, Vector::new(0, ONE, 0));
    assert_eq!(mesh[0].material_id, 7);
    assert_eq!(mesh[1].material_id, 7);
}

#[test]
fn tessellate_triangle_alone() {
    let positions = vec![
        Vector::new(0, 0, 0),
        Vector::new(ONE, 0, 0),
        Vector::new(0, ONE, 0),
    ];
    let polygon: Vec<(usize, Option<usize>, Option<usize>)> =
        vec![(0, None, None), (1, None, None), (2, None, None)];
    let mut mesh: Vec<Triangle> = Vec::new();
    tessellate(&polygon, &positions, &Vec::new(), &Vec::new(), 0, &mut mesh);
    assert_eq!(mesh.len(), 1);
}

fn push_f32(out: &mut Vec<u8>, value: f32) {
    let bits = value.to_bits();
    out.push((bits & 0xff) as u8);
    out.push(((bits >> 8) & 0xff) as u8);
    out.push(((bits >> 16) & 0xff) as u8);
    out.push(((bits >> 24) & 0xff) as u8);
}

fn facet(out: &mut Vec<u8>, corners: [[f32; 3]; 3]) {
    // The facet normal is read past and may be anything.
    push_f32(out, 0.0);
    push_f32(out, 0.0);
    push_f32(out, 0.0);
    for corner in corners.iter() {
        push_f32(out, corner[0]);
        push_f32(out, corner[1]);
        push_f32(out, corner[2]);
    }
    out.push(0);
    out.push(0);
}

#[test]
fn stl_decodes_one_facet() {
    let mut data: Vec<u8> = vec![1, 0, 0, 0];
    facet(
        &mut data,
        [[0.0, 0.0, 0.0], [0.0, 1.0, 0.0], [1.0, 0.0, 0.0]],
    );
    let triangles = load_stl(&data).expect("a complete facet must decode");
    assert_eq!(triangles.len(), 1);
    assert_eq!(triangles[0].a, Vector::new(0, 0, 0));
    assert_eq!(triangles[0].edge1, Vector::new(0, ONE, 0));
    assert_eq!(triangles[0].edge2, Vector::new(ONE, 0, 0));
    assert_eq!(triangles[0].material_id, 0);
    // The face normal points along negative z, unit length.
    assert_eq!(triangles[0].normal, Vector::new(0, 0, -ONE));
}

#[test]
fn stl_decodes_fractional_coordinates() {
    let mut data: Vec<u8> = vec![1, 0, 0, 0];
    facet(
        &mut data,
        [[0.25, -0.5, 2.75], [0.0, 1.0, 0.0], [1.0, 0.0, 0.0]],
    );
    let triangles = load_stl(&data).expect("finite coordinates must decode");
    assert_eq!(
        triangles[0].a,
        Vector::new(ONE / 4, -ONE / 2, 2 * ONE + 3 * ONE / 4)
    );
}

#[test]
fn stl_truncated_stream_is_refused() {
    let data: Vec<u8> = vec![2, 0, 0, 0, 1, 2, 3];
    assert!(matches!(load_stl(&data), Err(StlError::Truncated)));
    let short: Vec<u8> = vec![9];
    assert!(matches!(load_stl(&short), Err(StlError::Truncated)));
}

#[test]
fn stl_infinite_coordinate_is_refused() {
    let mut data: Vec<u8> = vec![1, 0, 0, 0];
    facet(
        &mut data,
        [[f32::INFINITY, 0.0, 0.0], [0.0, 1.0, 0.0], [1.0, 0.0, 0.0]],
    );
    assert!(matches!(load_stl(&data), Err(StlError::OutOfRange)));
}

#[test]
fn stl_oversized_coordinate_is_refused() {
    let mut data: Vec<u8> = vec![1, 0, 0, 0];
    facet(
        &mut data,
        [[1.0e10, 0.0, 0.0], [0.0, 1.0, 0.0], [1.0, 0.0, 0.0]],
    );
    assert!(matches!(load_stl(&data), Err(StlError::OutOfRange)));
}

#[test]
fn stl_flat_facet_is_refused() {
    let mut data: Vec<u8> = vec![1, 0, 0, 0];
    facet(
        &mut data,
        [[0.0, 0.0, 0.0], [1.0, 0.0, 0.0], [2.0, 0.0, 0.0]],
    );
    assert!(matches!(load_stl(&data), Err(StlError::Degenerate)));
}

#[test]
fn stl_empty_stream_decodes_no_triangles() {
    let data: Vec<u8> = vec![0, 0, 0, 0];
    let triangles = load_stl(&data).expect("zero facets are fine");
    assert_eq!(triangles.len(), 0);
}
