//! The render engine: per-pixel primary rays, shadow-filtered shading,
//! recursive mirror reflection with a hard depth cutoff, and the
//! row-major pixel buffer.
//!
//! `trace_spec` is the exact specification of one traced ray: the
//! nearest hit's local shading plus, while the bounce budget lasts, the
//! recursively traced mirror ray, attenuated by each surface's
//! reflectance. The recursion is structurally bounded by the budget, so
//! termination is part of the definition.

use vstd::prelude::*;

pub mod lens;

verus! {

use crate::fixed::{iabs, tdiv, fx_mul, lemma_fx_mul_basics};
use crate::linear::{Vector, Ray, bounded, vec3, sub_vec};
use crate::scene::{Scene, scene_wf, scan, lemma_scan_props};
use crate::scene::lighting::{Color, UV, LightSource, Material, Lighting, lighting_wf, light_wf,
    lights_wf, shade_sum, combine_spec, tex_sample, bounce_x, bounce_y, bounce_z, calculate,
    calculate_with_tex, pixel_spec, SHADE_LIMIT};
use crate::scene::primitive::{Triangle, triangle_wf, point_x, point_y, point_z, sn_x, sn_y, sn_z,
    uv_u, uv_v, POINT_LIMIT};
use crate::render::lens::Lens;
use vstd::arithmetic::mul::lemma_mul_is_distributive_add;
use vstd::arithmetic::div_mod::{lemma_div_pos_is_pos, lemma_multiply_divide_le};

/// The most reflection bounces a render may be configured with.
pub const MAX_BOUNCES: u32 = 1024;

/// The widest and tallest image a render may produce.
pub const MAX_IMAGE_DIM: u32 = 0x4000;

/// The unnormalized shadow probe from a surface point toward a light:
/// its direction is the full displacement, so a hit distance of one
/// marks the light itself.
pub open spec fn shadow_ray(p: Vector, l: LightSource) -> Ray {
    Ray { position: p, direction: sub_vec(l.position, p) }
}

/// The light reaches the point: the nearest hit along the shadow probe
/// lies at distance one or beyond, so nothing stands strictly between
/// the point and the light.
pub open spec fn light_visible(s: Scene, p: Vector, l: LightSource) -> bool {
    scan(s.objects@, shadow_ray(p, l), s.objects@.len() as int).1 >= 65536
}

/// The lights that reach `p`, kept in order.
pub open spec fn visible_seq(s: Scene, lights: Seq<LightSource>, p: Vector) -> Seq<LightSource>
    decreases lights.len(),
{
    if lights.len() == 0 {
        Seq::empty()
    } else {
        let prev = visible_seq(s, lights.drop_last(), p);
        if light_visible(s, p, lights.last()) {
            prev.push(lights.last())
        } else {
            prev
        }
    }
}

/// The shadow test filters exactly: every light kept for shading is
/// visible from the point, and every visible light is kept. An occluded
/// light therefore never contributes, and an unoccluded one always
/// does.
pub proof fn lemma_visible_filter(s: Scene, lights: Seq<LightSource>, p: Vector)
    ensures
        visible_seq(s, lights, p).len() <= lights.len(),
        forall|j: int|
            0 <= j < visible_seq(s, lights, p).len() ==> light_visible(
                s,
                p,
                #[trigger] visible_seq(s, lights, p)[j],
            ),
        forall|i: int|
            0 <= i < lights.len() && light_visible(s, p, #[trigger] lights[i]) ==> visible_seq(
                s,
                lights,
                p,
            ).contains(lights[i]),
        lights_wf(lights) ==> lights_wf(visible_seq(s, lights, p)),
    decreases lights.len(),
{
    if lights.len() > 0 {
        lemma_visible_filter(s, lights.drop_last(), p);
        assert(forall|i: int|
            0 <= i < lights.len() - 1 ==> lights.drop_last()[i] == #[trigger] lights[i]);
        let prev = visible_seq(s, lights.drop_last(), p);
        if light_visible(s, p, lights.last()) {
            assert(visible_seq(s, lights, p) == prev.push(lights.last()));
            assert(forall|i: int|
                0 <= i < lights.len() && light_visible(s, p, #[trigger] lights[i])
                    ==> visible_seq(s, lights, p).contains(lights[i])) by {
                assert forall|i: int|
                    0 <= i < lights.len() && light_visible(s, p, #[trigger] lights[i])
                    implies visible_seq(s, lights, p).contains(lights[i]) by {
                    if i == lights.len() - 1 {
                        assert(visible_seq(s, lights, p).last() == lights[i]);
                    } else {
                        let k = choose|k: int|
                            0 <= k < prev.len() && prev[k] == lights.drop_last()[i];
                        assert(prev.contains(lights.drop_last()[i]));
                        assert(visible_seq(s, lights, p)[k] == lights[i]);
                    }
                }
            }
        }
    }
}

/// The effective diffuse color channel at a hit: where the triangle
/// carries texture coordinates, the material's diffuse color is
/// replaced by the texture sample at the interpolated coordinates.
pub open spec fn hit_diffuse(tri: Triangle, mat: Material, u: int, v: int, channel: int) -> int {
    if tri.texture_map is Some {
        let uvv = UV { u: uv_u(tri, u, v) as i64, v: uv_v(tri, u, v) as i64 };
        tex_sample(mat.texture, uvv, channel)
    } else {
        if channel == 0 {
            mat.diffuse.0 as int
        } else if channel == 1 {
            mat.diffuse.1 as int
        } else {
            mat.diffuse.2 as int
        }
    }
}

/// One channel of the local (non-recursive) shading at a hit: the
/// shadow-filtered lights' diffuse and specular terms plus the ambient
/// term.
pub open spec fn local_shade(
    s: Scene,
    lg: Lighting,
    r: Ray,
    tri: Triangle,
    u: int,
    v: int,
    strength: int,
    channel: int,
) -> int {
    let point = vec3(point_x(tri, u, v), point_y(tri, u, v), point_z(tri, u, v));
    let n = vec3(sn_x(tri, u, v), sn_y(tri, u, v), sn_z(tri, u, v));
    let vis = visible_seq(s, lg.lights@, point);
    let mat = s.materials@[tri.material_id as int];
    let amb = if channel == 0 {
        lg.ambient_light.0 as int
    } else if channel == 1 {
        lg.ambient_light.1 as int
    } else {
        lg.ambient_light.2 as int
    };
    let mamb = if channel == 0 {
        mat.ambient.0 as int
    } else if channel == 1 {
        mat.ambient.1 as int
    } else {
        mat.ambient.2 as int
    };
    shade_sum(
        vis,
        point,
        r.direction,
        n,
        strength,
        mat,
        hit_diffuse(tri, mat, u, v, 0),
        hit_diffuse(tri, mat, u, v, 1),
        hit_diffuse(tri, mat, u, v, 2),
        channel,
    ) + combine_spec(strength, amb, mamb)
}

/// The mirror ray leaving a hit: it starts at the hit point and mirrors
/// the incoming direction across the interpolated normal.
pub open spec fn bounce_ray(r: Ray, tri: Triangle, u: int, v: int) -> Ray {
    let point = vec3(point_x(tri, u, v), point_y(tri, u, v), point_z(tri, u, v));
    let n = vec3(sn_x(tri, u, v), sn_y(tri, u, v), sn_z(tri, u, v));
    Ray {
        position: point,
        direction: vec3(
            bounce_x(r.direction, n),
            bounce_y(r.direction, n),
            bounce_z(r.direction, n),
        ),
    }
}

/// One channel of a traced ray: black where nothing is hit; otherwise
/// the local shading plus, while the bounce budget lasts, the traced
/// mirror ray attenuated by the surface's reflectance. The budget
/// strictly decreases, so the recursion terminates for every ray.
pub open spec fn trace_spec(
    s: Scene,
    lg: Lighting,
    r: Ray,
    strength: int,
    depth: int,
    channel: int,
) -> int
    decreases depth,
{
    let sc = scan(s.objects@, r, s.objects@.len() as int);
    match sc.0 {
        Option::None => 0,
        Option::Some(w) => {
            let tri = s.objects@[w];
            let local = local_shade(s, lg, r, tri, sc.2, sc.3, strength, channel);
            if depth > 0 {
                let mat = s.materials@[tri.material_id as int];
                local + trace_spec(
                    s,
                    lg,
                    bounce_ray(r, tri, sc.2, sc.3),
                    fx_mul(strength, mat.reflectance as int),
                    depth - 1,
                    channel,
                )
            } else {
                local
            }
        },
    }
}

/// With a zero bounce budget a traced ray is its local shading alone:
/// no recursive contribution is added.
pub proof fn lemma_trace_local_only(s: Scene, lg: Lighting, r: Ray, strength: int, channel: int)
    ensures
        trace_spec(s, lg, r, strength, 0, channel) == ({
            let sc = scan(s.objects@, r, s.objects@.len() as int);
            match sc.0 {
                Option::None => 0,
                Option::Some(w) => local_shade(
                    s,
                    lg,
                    r,
                    s.objects@[w],
                    sc.2,
                    sc.3,
                    strength,
                    channel,
                ),
            }
        }),
{
}

/// The lights of the scene that reach `point`, in order: the shadow
/// test drops exactly the occluded ones.
pub fn visible_lights(scene: &Scene, lighting: &Lighting, point: &Vector) -> (res: Vec<
    LightSource,
>)
    requires
        scene_wf(*scene),
        lighting_wf(*lighting),
        bounded(*point, POINT_LIMIT as int),
    ensures
        res@ == visible_seq(*scene, lighting.lights@, *point),
{
    let mut out: Vec<LightSource> = Vec::new();
    let mut i: usize = 0;
    while i < lighting.lights.len()
        invariant
            scene_wf(*scene),
            lighting_wf(*lighting),
            bounded(*point, POINT_LIMIT as int),
            0 <= i <= lighting.lights@.len(),
            out@ == visible_seq(*scene, lighting.lights@.subrange(0, i as int), *point),
        decreases lighting.lights@.len() - i,
    {
        proof {
            assert(light_wf(lighting.lights@[i as int]));
            assert(lighting.lights@.subrange(0, i + 1).drop_last() =~= lighting.lights@.subrange(
                0,
                i as int,
            ));
            assert(lighting.lights@.subrange(0, i + 1).last() == lighting.lights@[i as int]);
        }
        let light = &lighting.lights[i];
        let direction: Vector = light.position.subtract(point);
        let ray: Ray = Ray { position: *point, direction };
        proof {
            assert(ray == shadow_ray(*point, lighting.lights@[i as int]));
        }
        let (_hit, t, _u, _v) = scene.find_intersection(&ray);
        if t >= 65536 {
            out.push(*light);
        }
        i = i + 1;
    }
    proof {
        assert(lighting.lights@.subrange(0, lighting.lights@.len() as int) =~= lighting.lights@);
    }
    out
}

/// Trace one ray to a color: find the nearest hit, shade it under the
/// visible lights, and while the bounce budget lasts add the traced
/// mirror reflection.
pub fn trace_ray(
    scene: &Scene,
    lighting: &Lighting,
    ray: &Ray,
    light_strength: i64,
    reflections: u32,
) -> (res: Color)
    requires
        scene_wf(*scene),
        lighting_wf(*lighting),
        bounded(ray.position, POINT_LIMIT as int),
        bounded(ray.direction, 0x200_0000),
        0 <= light_strength <= 65536,
        reflections <= MAX_BOUNCES,
    ensures
        res.0 == trace_spec(
            *scene,
            *lighting,
            *ray,
            light_strength as int,
            reflections as int,
            0,
        ),
        res.1 == trace_spec(
            *scene,
            *lighting,
            *ray,
            light_strength as int,
            reflections as int,
            1,
        ),
        res.2 == trace_spec(
            *scene,
            *lighting,
            *ray,
            light_strength as int,
            reflections as int,
            2,
        ),
        iabs(res.0 as int) <= (reflections + 1) * SHADE_LIMIT,
        iabs(res.1 as int) <= (reflections + 1) * SHADE_LIMIT,
        iabs(res.2 as int) <= (reflections + 1) * SHADE_LIMIT,
    decreases reflections,
{
    let (index, _t, u, v) = scene.find_intersection(ray);
    match index {
        Option::None => Color::black(),
        Option::Some(idx) => {
            proof {
                lemma_scan_props(scene.objects@, *ray, scene.objects@.len() as int);
                assert(triangle_wf(scene.objects@[idx as int]));
                // A winning hit approaches the front face, so the ray's
                // direction cannot be the zero vector.
                if ray.direction.x == 0 && ray.direction.y == 0 && ray.direction.z == 0 {
                    lemma_fx_mul_basics(scene.objects@[idx as int].normal.x as int);
                    lemma_fx_mul_basics(scene.objects@[idx as int].normal.y as int);
                    lemma_fx_mul_basics(scene.objects@[idx as int].normal.z as int);
                    assert(false);
                }
            }
            let tri = &scene.objects[idx];
            let point: Vector = tri.point_at(u, v);
            let normal: Vector = tri.surface_normal(u, v);
            let hit_ray: Ray = Ray { position: point, direction: ray.direction };
            let vis: Vec<LightSource> = visible_lights(scene, lighting, &point);
            proof {
                lemma_visible_filter(*scene, lighting.lights@, point);
                crate::scene::lighting::lemma_ambient_sum_bound(lighting.lights@, 0);
                crate::scene::lighting::lemma_ambient_sum_bound(lighting.lights@, 1);
                crate::scene::lighting::lemma_ambient_sum_bound(lighting.lights@, 2);
                assert(lighting.lights@.len() * 0x100_0000 <= 0x10_0000_0000) by (nonlinear_arith)
                    requires
                        lighting.lights@.len() <= 4096,
                ;
            }
            let mid: usize = tri.material_id();
            let material = &scene.materials[mid];
            let (color0, new_strength, rays) = if tri.has_texture() {
                let uv: UV = tri.uv(u, v);
                calculate_with_tex(
                    &vis,
                    lighting.ambient_light,
                    &hit_ray,
                    uv,
                    normal,
                    light_strength,
                    material,
                )
            } else {
                calculate(&vis, lighting.ambient_light, &hit_ray, normal, light_strength, material)
            };
            let mut color: Color = color0;
            proof {
                assert(color.0 == local_shade(
                    *scene,
                    *lighting,
                    *ray,
                    scene.objects@[idx as int],
                    u as int,
                    v as int,
                    light_strength as int,
                    0,
                ));
                assert(color.1 == local_shade(
                    *scene,
                    *lighting,
                    *ray,
                    scene.objects@[idx as int],
                    u as int,
                    v as int,
                    light_strength as int,
                    1,
                ));
                assert(color.2 == local_shade(
                    *scene,
                    *lighting,
                    *ray,
                    scene.objects@[idx as int],
                    u as int,
                    v as int,
                    light_strength as int,
                    2,
                ));
            }
            if reflections > 0 {
                let next = &rays[0];
                proof {
                    assert(*next == bounce_ray(
                        *ray,
                        scene.objects@[idx as int],
                        u as int,
                        v as int,
                    ));
                }
                let rec: Color = trace_ray(scene, lighting, next, new_strength, reflections - 1);
                proof {
                    assert(reflections * SHADE_LIMIT + SHADE_LIMIT == (reflections + 1)
                        * SHADE_LIMIT) by (nonlinear_arith);
                    assert((reflections + 1) * SHADE_LIMIT <= 1025 * SHADE_LIMIT)
                        by (nonlinear_arith)
                        requires
                            reflections <= 1024,
                            SHADE_LIMIT == 0x8_0000_0000_0000,
                    ;
                }
                color.add(rec);
            }
            color
        },
    }
}

/// The normalized device coordinate of pixel `i` out of `n`: `2i/n - 1`
/// as a fixed-point scalar.
pub open spec fn screen_x(i: int, n: int) -> int {
    tdiv((2 * i - n) * 65536, n)
}

/// Compute the normalized device coordinate of pixel `i` out of `n`.
fn screen_coord(i: u32, n: u32) -> (r: i64)
    requires
        0 < n,
        i < n,
    ensures
        r == screen_x(i as int, n as int),
        -65536 <= r <= 65536,
{
    let num: i64 = 2 * (i as i64) - (n as i64);
    proof {
        let m = if 0 <= num {
            num as int
        } else {
            -num as int
        };
        assert(m * 65536 <= n as int * 65536) by (nonlinear_arith)
            requires
                0 <= m <= n,
        ;
        lemma_div_pos_is_pos(m * 65536, n as int);
        lemma_multiply_divide_le(m * 65536, n as int, 65536);
    }
    if num >= 0 {
        ((((num as u64) * 65536) / (n as u64))) as i64
    } else {
        -(((((-num) as u64) * 65536) / (n as u64)) as i64)
    }
}

/// One channel of the finished pixel at column `i`, row `j`: the primary
/// ray for the pixel's device coordinates (the vertical axis flipped so
/// that row zero is the top), traced at full strength, quantized.
pub open spec fn pixel_at<L: Lens>(
    s: Scene,
    lg: Lighting,
    camera: L,
    w: int,
    h: int,
    depth: int,
    j: int,
    i: int,
    c: int,
) -> int {
    let sx = screen_x(i, w);
    let sy = -screen_x(j, h);
    pixel_spec(
        trace_spec(
            s,
            lg,
            Ray {
                position: camera.ray_origin(sx, sy),
                direction: camera.ray_direction(sx, sy),
            },
            65536,
            depth,
            c,
        ),
    )
}

/// One render invocation: a scene, its lighting, a lens, the image size
/// and the reflection budget.
pub struct RenderTask<'a, L: Lens> {
    pub scene: &'a Scene,
    pub lighting: &'a Lighting,
    pub lens: &'a L,
    pub image_width: u32,
    pub image_height: u32,
    pub max_reflections: u32,
}

impl<L: Lens> RenderTask<'_, L> {
    /// Render every pixel row-major into a dense RGB byte buffer, or
    /// nothing if either image dimension is zero.
    pub fn execute(&self) -> (res: Option<Vec<u8>>)
        requires
            scene_wf(*self.scene),
            lighting_wf(*self.lighting),
            self.lens.wf(),
            self.max_reflections <= MAX_BOUNCES,
            self.image_width <= MAX_IMAGE_DIM,
            self.image_height <= MAX_IMAGE_DIM,
        ensures
            (res is Some) == (self.image_width > 0 && self.image_height > 0),
            res matches Option::Some(buffer) ==> buffer@.len() == 3 * (self.image_width as int
                * self.image_height as int) && forall|j: int, i: int, c: int|
                0 <= j < self.image_height && 0 <= i < self.image_width && 0 <= c < 3
                    ==> buffer@[3 * (j * self.image_width as int + i) + c] == pixel_at(
                    *self.scene,
                    *self.lighting,
                    *self.lens,
                    self.image_width as int,
                    self.image_height as int,
                    self.max_reflections as int,
                    j,
                    i,
                    c,
                ),
    {
        if self.image_width == 0 || self.image_height == 0 {
            return Option::None;
        }
        let w: u32 = self.image_width;
        let h: u32 = self.image_height;
        let ghost wi = w as int;
        let ghost hi = h as int;
        let mut buffer: Vec<u8> = Vec::new();
        let mut py: u32 = 0;
        while py < h
            invariant
                scene_wf(*self.scene),
                lighting_wf(*self.lighting),
                self.lens.wf(),
                self.max_reflections <= MAX_BOUNCES,
                0 < w <= MAX_IMAGE_DIM,
                0 < h <= MAX_IMAGE_DIM,
                w == self.image_width,
                h == self.image_height,
                wi == w as int,
                hi == h as int,
                0 <= py <= hi,
                buffer@.len() == 3 * (py as int * wi),
                forall|j: int, i: int, c: int|
                    0 <= j < py && 0 <= i < wi && 0 <= c < 3 ==> buffer@[3 * (j * wi + i) + c]
                        == pixel_at(
                        *self.scene,
                        *self.lighting,
                        *self.lens,
                        wi,
                        hi,
                        self.max_reflections as int,
                        j,
                        i,
                        c,
                    ),
            decreases hi - py,
        {
            let mut px: u32 = 0;
            proof {
                assert(0 <= py as int * wi && py as int * wi <= 0x4000 * 0x4000)
                    by (nonlinear_arith)
                    requires
                        0 <= py < hi <= 0x4000,
                        0 < wi <= 0x4000,
                ;
            }
            while px < w
                invariant
                    scene_wf(*self.scene),
                    lighting_wf(*self.lighting),
                    self.lens.wf(),
                    self.max_reflections <= MAX_BOUNCES,
                    0 < w <= MAX_IMAGE_DIM,
                    0 < h <= MAX_IMAGE_DIM,
                    w == self.image_width,
                    h == self.image_height,
                    wi == w as int,
                    hi == h as int,
                    0 <= py < hi,
                    0 <= px <= wi,
                    0 <= py as int * wi <= 0x4000 * 0x4000,
                    buffer@.len() == 3 * (py as int * wi + px as int),
                    forall|j: int, i: int, c: int|
                        0 <= j < py && 0 <= i < wi && 0 <= c < 3 ==> buffer@[3 * (j * wi + i) + c]
                            == pixel_at(
                            *self.scene,
                            *self.lighting,
                            *self.lens,
                            wi,
                            hi,
                            self.max_reflections as int,
                            j,
                            i,
                            c,
                        ),
                    forall|i: int, c: int|
                        0 <= i < px && 0 <= c < 3 ==> buffer@[3 * (py as int * wi + i) + c]
                            == pixel_at(
                            *self.scene,
                            *self.lighting,
                            *self.lens,
                            wi,
                            hi,
                            self.max_reflections as int,
                            py as int,
                            i,
                            c,
                        ),
                decreases wi - px,
            {
                let sx: i64 = screen_coord(px, w);
                let sy: i64 = -screen_coord(py, h);
                let ray: Ray = self.lens.generate_light_ray(sx, sy);
                let color: Color = trace_ray(
                    self.scene,
                    self.lighting,
                    &ray,
                    65536,
                    self.max_reflections,
                );
                proof {
                    assert((self.max_reflections + 1) * SHADE_LIMIT <= 1025 * SHADE_LIMIT)
                        by (nonlinear_arith)
                        requires
                            self.max_reflections <= 1024,
                            SHADE_LIMIT == 0x8_0000_0000_0000,
                    ;
                }
                let pixel: (u8, u8, u8) = color.to_pixel();
                let ghost old_buffer = buffer@;
                buffer.push(pixel.0);
                buffer.push(pixel.1);
                buffer.push(pixel.2);
                proof {
                    let base = 3 * (py as int * wi + px as int);
                    assert(buffer@.len() == base + 3);
                    assert(buffer@[base] == pixel.0 && buffer@[base + 1] == pixel.1 && buffer@[base
                        + 2] == pixel.2);
                    assert forall|j: int, i: int, c: int|
                        0 <= j < py && 0 <= i < wi && 0 <= c < 3 implies buffer@[3 * (j * wi + i)
                        + c] == pixel_at(
                        *self.scene,
                        *self.lighting,
                        *self.lens,
                        wi,
                        hi,
                        self.max_reflections as int,
                        j,
                        i,
                        c,
                    ) by {
                        assert(j * wi + i < py as int * wi + px as int) by (nonlinear_arith)
                            requires
                                0 <= j < py as int,
                                0 <= i < wi,
                                0 <= px as int,
                                0 < wi,
                        ;
                        assert(buffer@[3 * (j * wi + i) + c] == old_buffer[3 * (j * wi + i) + c]);
                    }
                    assert forall|i: int, c: int|
                        0 <= i < px + 1 && 0 <= c < 3 implies buffer@[3 * (py as int * wi + i) + c]
                        == pixel_at(
                        *self.scene,
                        *self.lighting,
                        *self.lens,
                        wi,
                        hi,
                        self.max_reflections as int,
                        py as int,
                        i,
                        c,
                    ) by {
                        if i < px {
                            assert(3 * (py as int * wi + i) + c < base);
                            assert(buffer@[3 * (py as int * wi + i) + c] == old_buffer[3 * (
                            py as int * wi + i) + c]);
                        }
                    }
                }
                px = px + 1;
            }
            proof {
                lemma_mul_is_distributive_add(wi, py as int, 1);
                assert(py as int * wi + wi == (py as int + 1) * wi) by (nonlinear_arith);
            }
            py = py + 1;
        }
        proof {
            assert(hi * wi == wi * hi) by (nonlinear_arith);
        }
        Option::Some(buffer)
    }
}

} // verus!
