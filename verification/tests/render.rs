//! Scene, shading and render-loop behavior on small hand-built worlds.

use raytracer::linear::{Ray, Vector};
use raytracer::render::lens::{Lens, OrthographicLens, Scope};
use raytracer::render::{trace_ray, visible_lights, RenderTask};
use raytracer::scene::lighting::{Color, Lighting, LightSource, Material, Texture};
use raytracer::scene::primitive::Triangle;
use raytracer::scene::Scene;

const ONE: i64 = 65536;

fn no_texture() -> Texture {
    Texture::new(Vec::new(), 0, 0)
}

fn plain_material(ambient: Color, reflectance: i64) -> Material {
    Material::new(
        Color(0, 0, 0),
        Color(0, 0, 0),
        ambient,
        0,
        reflectance,
        no_texture(),
    )
}

/// A big triangle in the plane `z == depth` whose face normal points
/// toward negative z; it covers the square [-100, 100] around the axis.
fn backdrop(depth: i64, material_id: usize) -> Triangle {
    Triangle::new(
        Vector::new(-100 * ONE, -100 * ONE, depth),
        Vector::new(-100 * ONE, 300 * ONE, depth),
        Vector::new(300 * ONE, -100 * ONE, depth),
        material_id,
        None,
        None,
    )
}

/// Same plane, facing positive z instead.
fn backdrop_facing_back(depth: i64, material_id: usize) -> Triangle {
    Triangle::new(
        Vector::new(-100 * ONE, -100 * ONE, depth),
        Vector::new(300 * ONE, -100 * ONE, depth),
        Vector::new(-100 * ONE, 300 * ONE, depth),
        material_id,
        None,
        None,
    )
}

fn ambient_only_light(level: i64) -> LightSource {
    LightSource {
        position: Vector::new(0, 0, -10 * ONE),
        specular: Color(0, 0, 0),
        diffuse: Color(0, 0, 0),
        ambient: Color(level, level, level),
    }
}

#[test]
fn intersect_centroid_hit_and_backface_miss() {
    // A unit triangle in the plane z == 0, facing negative z.
    let tri = Triangle::new(
        Vector::new(0, 0, 0),
        Vector::new(0, ONE, 0),
        Vector::new(ONE, 0, 0),
        0,
        None,
        None,
    );
    // Aim at the centroid along the negative of the face normal.
    let at_centroid = Ray {
        position: Vector::new(ONE / 3, ONE / 3, -2 * ONE),
        direction: Vector::new(0, 0, ONE),
    };
    let (hit, t, u, v) = tri.intersect(&at_centroid, 100 * ONE);
    assert!(hit);
    assert!((t - 2 * ONE).abs() <= 2);
    assert!(u >= 0 && v >= 0 && u + v <= ONE);

    // Aimed away (along the positive normal): back-face culled.
    let away = Ray {
        position: Vector::new(ONE / 3, ONE / 3, -2 * ONE),
        direction: Vector::new(0, 0, -ONE),
    };
    let (hit, t, u, v) = tri.intersect(&away, 100 * ONE);
    assert!(!hit);
    assert_eq!((t, u, v), (100 * ONE, 0, 0));
}

#[test]
fn intersect_parallel_ray_misses() {
    let tri = Triangle::new(
        Vector::new(0, 0, 0),
        Vector::new(0, ONE, 0),
        Vector::new(ONE, 0, 0),
        0,
        None,
        None,
    );
    // Direction orthogonal to the face normal, from several origins.
    for (px, py, pz) in [(0i64, 0i64, -ONE), (ONE / 2, ONE / 4, 0), (-ONE, 0, ONE)] {
        let ray = Ray {
            position: Vector::new(px, py, pz),
            direction: Vector::new(ONE, 0, 0),
        };
        let (hit, _, _, _) = tri.intersect(&ray, 100 * ONE);
        assert!(!hit);
    }
}

#[test]
fn nearest_intersection_wins() {
    let materials = vec![plain_material(Color(0, 0, 0), 0)];
    let near_first = Scene::new(materials, vec![backdrop(5 * ONE, 0), backdrop(10 * ONE, 0)]);
    let ray = Ray {
        position: Vector::new(0, 0, 0),
        direction: Vector::new(0, 0, ONE),
    };
    let (idx, t, _, _) = near_first.find_intersection(&ray);
    assert_eq!(idx, Some(0));
    assert_eq!(t, 5 * ONE);

    let materials = vec![plain_material(Color(0, 0, 0), 0)];
    let near_second = Scene::new(materials, vec![backdrop(10 * ONE, 0), backdrop(5 * ONE, 0)]);
    let (idx, t, _, _) = near_second.find_intersection(&ray);
    assert_eq!(idx, Some(1));
    assert_eq!(t, 5 * ONE);
}

#[test]
fn no_intersection_reports_none() {
    let materials = vec![plain_material(Color(0, 0, 0), 0)];
    let scene = Scene::new(materials, vec![backdrop(5 * ONE, 0)]);
    // Looking away from the backdrop.
    let ray = Ray {
        position: Vector::new(0, 0, 0),
        direction: Vector::new(0, 0, -ONE),
    };
    let (idx, _, _, _) = scene.find_intersection(&ray);
    assert_eq!(idx, None);
}

#[test]
fn occluded_light_is_excluded() {
    let materials = vec![plain_material(Color(0, 0, 0), 0)];
    // A shading point at the origin, a light behind the backdrop.
    let light = LightSource {
        position: Vector::new(0, 0, 5 * ONE),
        specular: Color(ONE, ONE, ONE),
        diffuse: Color(ONE, ONE, ONE),
        ambient: Color(0, 0, 0),
    };
    let occluded_scene = Scene::new(materials, vec![backdrop(2 * ONE, 0)]);
    let lighting = Lighting::new(vec![light]);
    let point = Vector::new(0, 0, 0);
    let vis = visible_lights(&occluded_scene, &lighting, &point);
    assert_eq!(vis.len(), 0);

    // The same light with nothing in between is included.
    let materials = vec![plain_material(Color(0, 0, 0), 0)];
    let open_scene = Scene::new(materials, vec![backdrop(9 * ONE, 0)]);
    let vis = visible_lights(&open_scene, &lighting, &point);
    assert_eq!(vis.len(), 1);
    assert_eq!(vis[0].position.z, 5 * ONE);
}

#[test]
fn reflection_budget_counts_bounces() {
    // A mirror corridor: two fully reflective ambient-lit planes facing
    // each other. Each traced bounce adds one more ambient term, and
    // the budget is the only cutoff.
    let materials = vec![plain_material(Color(ONE, ONE, ONE), ONE)];
    let scene = Scene::new(
        materials,
        vec![backdrop(5 * ONE, 0), backdrop_facing_back(-5 * ONE, 0)],
    );
    let lighting = Lighting::new(vec![ambient_only_light(ONE / 4)]);
    let ray = Ray {
        position: Vector::new(0, 0, 0),
        direction: Vector::new(0, 0, ONE),
    };
    let c0 = trace_ray(&scene, &lighting, &ray, ONE, 0);
    let c1 = trace_ray(&scene, &lighting, &ray, ONE, 1);
    let c2 = trace_ray(&scene, &lighting, &ray, ONE, 2);
    assert_eq!(c0.0, ONE / 4);
    assert_eq!(c1.0, 2 * (ONE / 4));
    assert_eq!(c2.0, 3 * (ONE / 4));
}

#[test]
fn render_ambient_square() {
    // A single backdrop facing an orthographic camera, one ambient-only
    // light: every pixel inside the triangle's projection has the same
    // non-black ambient color.
    let materials = vec![plain_material(Color(ONE, ONE, ONE), 0)];
    let scene = Scene::new(materials, vec![backdrop(5 * ONE, 0)]);
    let lighting = Lighting::new(vec![ambient_only_light(ONE / 2)]);
    let scope = Scope::new(Vector::new(0, 0, ONE), Vector::new(0, 0, 0), 0);
    let lens = OrthographicLens::new(2 * ONE, 2, 2, scope);
    let task = RenderTask {
        scene: &scene,
        lighting: &lighting,
        lens: &lens,
        image_width: 2,
        image_height: 2,
        max_reflections: 0,
    };
    let buffer = task.execute().expect("nonzero dimensions must render");
    assert_eq!(buffer.len(), 12);
    for px in 0..4 {
        for ch in 0..3 {
            assert_eq!(buffer[3 * px + ch], 127);
        }
    }

    // The same render with the scene far off to the side is black.
    let materials = vec![plain_material(Color(ONE, ONE, ONE), 0)];
    let far_triangle = Triangle::new(
        Vector::new(500 * ONE, 500 * ONE, 5 * ONE),
        Vector::new(500 * ONE, 501 * ONE, 5 * ONE),
        Vector::new(501 * ONE, 500 * ONE, 5 * ONE),
        0,
        None,
        None,
    );
    let empty_scene = Scene::new(materials, vec![far_triangle]);
    let lighting = Lighting::new(vec![ambient_only_light(ONE / 2)]);
    let scope = Scope::new(Vector::new(0, 0, ONE), Vector::new(0, 0, 0), 0);
    let lens = OrthographicLens::new(2 * ONE, 2, 2, scope);
    let task = RenderTask {
        scene: &empty_scene,
        lighting: &lighting,
        lens: &lens,
        image_width: 2,
        image_height: 2,
        max_reflections: 0,
    };
    let buffer = task.execute().expect("nonzero dimensions must render");
    assert_eq!(buffer, vec![0u8; 12]);
}

#[test]
fn zero_dimensions_fail() {
    let materials = vec![plain_material(Color(0, 0, 0), 0)];
    let scene = Scene::new(materials, vec![]);
    let lighting = Lighting::new(vec![]);
    let scope = Scope::new(Vector::new(0, 0, ONE), Vector::new(0, 0, 0), 0);
    let lens = OrthographicLens::new(2 * ONE, 2, 2, scope);
    let task = RenderTask {
        scene: &scene,
        lighting: &lighting,
        lens: &lens,
        image_width: 0,
        image_height: 2,
        max_reflections: 0,
    };
    assert!(task.execute().is_none());
}

#[test]
fn orthographic_center_ray() {
    let scope = Scope::new(Vector::new(0, 0, ONE), Vector::new(0, 0, 0), 0);
    let lens = OrthographicLens::new(2 * ONE, 4, 4, scope);
    let ray = lens.generate_light_ray(0, 0);
    assert_eq!((ray.position.x, ray.position.y, ray.position.z), (0, 0, 0));
    assert_eq!(
        (ray.direction.x, ray.direction.y, ray.direction.z),
        (0, 0, ONE)
    );
}

#[test]
fn vertical_camera_keeps_a_basis() {
    // Looking straight up, forward coincides with world-up and the
    // right axis falls back to the world x axis.
    let scope = Scope::new(Vector::new(0, 5 * ONE, 0), Vector::new(0, 0, 0), 0);
    assert_eq!(scope.forward, Vector::new(0, ONE, 0));
    let lens = OrthographicLens::new(2 * ONE, 2, 2, scope);
    let ray = lens.generate_light_ray(0, 0);
    assert_eq!(ray.direction, Vector::new(0, ONE, 0));
}

#[test]
fn downward_camera_keeps_a_basis() {
    // Looking straight down, the cross product with world-up vanishes
    // just as it does looking straight up; the fallback applies to
    // both signs and the basis stays usable.
    let scope = Scope::new(Vector::new(0, -5 * ONE, 0), Vector::new(0, 0, 0), 0);
    assert_eq!(scope.forward, Vector::new(0, -ONE, 0));
    assert_eq!(scope.right, Vector::new(ONE, 0, 0));
    assert_eq!(scope.up, Vector::new(0, 0, -ONE));
}

#[test]
fn lighting_aggregates_ambient() {
    let a = LightSource {
        position: Vector::new(ONE, 0, 0),
        specular: Color(0, 0, 0),
        diffuse: Color(0, 0, 0),
        ambient: Color(100, 200, 300),
    };
    let b = LightSource {
        position: Vector::new(0, ONE, 0),
        specular: Color(0, 0, 0),
        diffuse: Color(0, 0, 0),
        ambient: Color(1, 2, 3),
    };
    let lighting = Lighting::new(vec![a, b]);
    assert_eq!(lighting.ambient_light, Color(101, 202, 303));
}

#[test]
fn lighting_rotate_quarter_turn() {
    let light = LightSource {
        position: Vector::new(2 * ONE, 3 * ONE, 5 * ONE),
        specular: Color(0, 0, 0),
        diffuse: Color(0, 0, 0),
        ambient: Color(7, 7, 7),
    };
    let lighting = Lighting::new(vec![light]);
    let turned = lighting.rotate(90 * ONE);
    // The swing maps (x, y, z) to (x cos - z sin, y, x sin + z sin).
    assert_eq!(turned.lights[0].position.x, -5 * ONE);
    assert_eq!(turned.lights[0].position.y, 3 * ONE);
    assert_eq!(turned.lights[0].position.z, 7 * ONE);
    assert_eq!(turned.ambient_light, Color(7, 7, 7));
}

#[test]
fn textured_shading_samples_texture() {
    // A 1x1 texture of pure red; the backdrop carries texture
    // coordinates, a white diffuse light shines straight onto it. The
    // texture sample replaces the material's diffuse color, so the
    // half-bright material diffuse leaves no trace in the result.
    let texture = Texture::new(vec![255, 0, 0], 1, 1);
    let material = Material::new(
        Color(0, 0, 0),
        Color(ONE / 2, ONE / 2, ONE / 2),
        Color(0, 0, 0),
        0,
        0,
        texture,
    );
    let uv0 = raytracer::scene::lighting::UV::new(32768, 32768);
    let tri = Triangle::new(
        Vector::new(-100 * ONE, -100 * ONE, 5 * ONE),
        Vector::new(-100 * ONE, 300 * ONE, 5 * ONE),
        Vector::new(300 * ONE, -100 * ONE, 5 * ONE),
        0,
        Some((uv0, uv0, uv0)),
        None,
    );
    let scene = Scene::new(vec![material], vec![tri]);
    let light = LightSource {
        position: Vector::new(0, 0, 0),
        specular: Color(0, 0, 0),
        diffuse: Color(ONE, ONE, ONE),
        ambient: Color(0, 0, 0),
    };
    let lighting = Lighting::new(vec![light]);
    let ray = Ray {
        position: Vector::new(0, 0, -ONE),
        direction: Vector::new(0, 0, ONE),
    };
    let color = trace_ray(&scene, &lighting, &ray, ONE, 0);
    // The red channel carries the full texture sample, not the product
    // with the material diffuse; green and blue sample the texture's
    // zero bytes.
    assert_eq!(color.0, ONE);
    assert_eq!(color.1, 0);
    assert_eq!(color.2, 0);
}
