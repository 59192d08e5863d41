//! Colors, texture lookup, materials and light sources.
//!
//! Color channels are fixed-point scalars with 65536 as full brightness;
//! they accumulate without an upper clamp and are only clamped when a
//! pixel is emitted.
//!
//! One deliberate bound: the Phong specular base is clamped into [0, 1]
//! before exponentiation, not only at zero. The base is a product of
//! unit-scaled directions and exceeds one only through rounding or an
//! overlong interpolated shading normal; saturating there keeps the
//! verified power total, where an unclamped base would overflow for
//! large exponents.

use vstd::prelude::*;

verus! {

use vstd::arithmetic::div_mod::*;
use vstd::arithmetic::mul::{lemma_mul_is_associative, lemma_mul_nonnegative};
use crate::fixed::{
    iabs, fx_mul, fx_pow, fmul, fpow, emod,
    lemma_fx_mul_basics, lemma_fx_mul_bounds, lemma_mul_le, lemma_tdiv_mag,
};
use crate::linear::{Vector, Ray, bounded, nonzero, dot_spec, norm_x, norm_y,
    norm_z, reflect_x, reflect_y, reflect_z, vec3, sub_vec, lemma_dot_bound};

/// Channel bound for material and light colors (256 units of brightness).
pub const COLOR_LIMIT: i64 = 0x100_0000;

/// Bound on light positions; loose enough to hold a light swung
/// by the orbit transform from within the vertex bound.
pub const LIGHT_POS_LIMIT: i64 = 0x3000_0000;

/// At most this many light sources take part in shading.
pub const MAX_LIGHTS: usize = 4096;

/// Bound on every color channel a single shading call can produce.
pub const SHADE_LIMIT: i64 = 0x8_0000_0000_0000;

#[derive(Copy, Clone, Debug, PartialEq, Eq, Structural)]
pub struct UV {
    pub u: i64,
    pub v: i64,
}

impl UV {
    pub fn new(u: i64, v: i64) -> (r: UV)
        ensures
            r.u == u,
            r.v == v,
    {
        UV { u, v }
    }
}

#[derive(Copy, Clone, Debug, PartialEq, Eq, Structural)]
pub struct Color(pub i64, pub i64, pub i64);

/// The channel value `c` scaled to a byte: clamped into [0, 255] after
/// multiplying by 255, negative values darkening to zero.
pub open spec fn pixel_spec(c: int) -> int {
    if c <= 0 {
        0
    } else if c * 255 / 65536 >= 255 {
        255
    } else {
        c * 255 / 65536
    }
}

/// One channel of `combine`: both colors and the coefficient multiplied
/// together channel-wise.
pub open spec fn combine_spec(coef: int, first: int, second: int) -> int {
    fx_mul(fx_mul(coef, first), second)
}

impl Color {
    pub fn black() -> (r: Color)
        ensures
            r == (Color(0, 0, 0)),
    {
        Color(0, 0, 0)
    }

    pub fn new(red: i64, green: i64, blue: i64) -> (r: Color)
        ensures
            r == (Color(red, green, blue)),
    {
        Color(red, green, blue)
    }

    /// Channel-wise product of two colors, scaled by `coef`.
    fn combine(coef: i64, first: Color, second: Color) -> (r: Color)
        requires
            iabs(coef as int) <= 0x100_0000,
            iabs(first.0 as int) <= 0x10_0000_0000,
            iabs(first.1 as int) <= 0x10_0000_0000,
            iabs(first.2 as int) <= 0x10_0000_0000,
            iabs(second.0 as int) <= 0x1000_0000,
            iabs(second.1 as int) <= 0x1000_0000,
            iabs(second.2 as int) <= 0x1000_0000,
        ensures
            r.0 == combine_spec(coef as int, first.0 as int, second.0 as int),
            r.1 == combine_spec(coef as int, first.1 as int, second.1 as int),
            r.2 == combine_spec(coef as int, first.2 as int, second.2 as int),
            iabs(r.0 as int) <= 0x100_0000_0000_0000,
            iabs(r.1 as int) <= 0x100_0000_0000_0000,
            iabs(r.2 as int) <= 0x100_0000_0000_0000,
    {
        proof {
            lemma_fx_mul_bounds(coef as int, first.0 as int, 0x100_0000, 0x10_0000_0000);
            lemma_fx_mul_bounds(coef as int, first.1 as int, 0x100_0000, 0x10_0000_0000);
            lemma_fx_mul_bounds(coef as int, first.2 as int, 0x100_0000, 0x10_0000_0000);
            lemma_fx_mul_bounds(
                fx_mul(coef as int, first.0 as int),
                second.0 as int,
                0x1000_0000_0000,
                0x1000_0000,
            );
            lemma_fx_mul_bounds(
                fx_mul(coef as int, first.1 as int),
                second.1 as int,
                0x1000_0000_0000,
                0x1000_0000,
            );
            lemma_fx_mul_bounds(
                fx_mul(coef as int, first.2 as int),
                second.2 as int,
                0x1000_0000_0000,
                0x1000_0000,
            );
        }
        Color(
            fmul(fmul(coef, first.0), second.0),
            fmul(fmul(coef, first.1), second.1),
            fmul(fmul(coef, first.2), second.2),
        )
    }

    /// Accumulate another color channel-wise.
    pub fn add(&mut self, other: Color)
        requires
            iabs(old(self).0 as int + other.0 as int) <= 0x7fff_ffff_ffff_ffff,
            iabs(old(self).1 as int + other.1 as int) <= 0x7fff_ffff_ffff_ffff,
            iabs(old(self).2 as int + other.2 as int) <= 0x7fff_ffff_ffff_ffff,
        ensures
            final(self).0 == old(self).0 as int + other.0 as int,
            final(self).1 == old(self).1 as int + other.1 as int,
            final(self).2 == old(self).2 as int + other.2 as int,
    {
        self.0 = self.0 + other.0;
        self.1 = self.1 + other.1;
        self.2 = self.2 + other.2;
    }

    /// Quantize to one 8-bit value per channel, clamped into [0, 255].
    pub fn to_pixel(&self) -> (r: (u8, u8, u8))
        requires
            iabs(self.0 as int) <= 0x4000_0000_0000_0000,
            iabs(self.1 as int) <= 0x4000_0000_0000_0000,
            iabs(self.2 as int) <= 0x4000_0000_0000_0000,
        ensures
            r.0 == pixel_spec(self.0 as int),
            r.1 == pixel_spec(self.1 as int),
            r.2 == pixel_spec(self.2 as int),
    {
        (
            Color::channel_to_pixel(self.0),
            Color::channel_to_pixel(self.1),
            Color::channel_to_pixel(self.2),
        )
    }

    fn channel_to_pixel(c: i64) -> (r: u8)
        requires
            iabs(c as int) <= 0x4000_0000_0000_0000,
        ensures
            r == pixel_spec(c as int),
    {
        if c <= 0 {
            0
        } else {
            let w: u128 = ((c as u128) * 255) / 65536;
            proof {
                lemma_div_pos_is_pos(c as int * 255, 65536);
            }
            if w >= 255 {
                255
            } else {
                w as u8
            }
        }
    }
}

/// A texture holds its decoded image bytes row-major, three bytes per
/// pixel; an empty texture (zero by zero) stands for "no texture".
pub struct Texture {
    pub data: Vec<u8>,
    pub width: usize,
    pub height: usize,
}

/// The texture's buffer is exactly as large as its dimensions promise,
/// and the dimensions are small enough for index arithmetic.
pub open spec fn texture_wf(t: Texture) -> bool {
    t.width <= 0x7fff && t.height <= 0x7fff && t.data.len() == 3 * t.width * t.height
}

/// The `channel` component (0 red, 1 green, 2 blue) of the texture
/// sample at `uv`, whose coordinates wrap modulo one; a computed index
/// beyond the buffer falls back to black.
pub open spec fn tex_sample(t: Texture, uv: UV, channel: int) -> int {
    let um = (uv.u as int) % 65536;
    let vm = (uv.v as int) % 65536;
    let x = um * t.width / 65536;
    let y = (65536 - vm) * t.height / 65536;
    let idx = 3 * (y * t.width + x);
    if idx + 2 >= t.data.len() {
        0
    } else {
        (t.data[idx + channel] as int) * 65536 / 255
    }
}

impl Texture {
    pub fn new(data: Vec<u8>, width: usize, height: usize) -> (r: Texture)
        requires
            width <= 0x7fff,
            height <= 0x7fff,
            data.len() == 3 * width * height,
        ensures
            r.data == data,
            r.width == width,
            r.height == height,
            texture_wf(r),
    {
        Texture { data, width, height }
    }

    /// Sample the texture at `uv`; coordinates wrap modulo one, and an
    /// index computed past the buffer falls back to black.
    fn color_at(&self, uv: UV) -> (r: Color)
        requires
            texture_wf(*self),
            iabs(uv.u as int) <= 0x4000_0000_0000_0000,
            iabs(uv.v as int) <= 0x4000_0000_0000_0000,
        ensures
            r.0 == tex_sample(*self, uv, 0),
            r.1 == tex_sample(*self, uv, 1),
            r.2 == tex_sample(*self, uv, 2),
            0 <= r.0 <= 65536,
            0 <= r.1 <= 65536,
            0 <= r.2 <= 65536,
    {
        let um: i64 = emod(uv.u, 65536);
        let vm: i64 = emod(uv.v, 65536);
        proof {
            assert(0 <= um as int * self.width as int <= 65536 * self.width as int && 0 <= (65536
                - vm as int) * self.height as int <= 65536 * self.height as int)
                by (nonlinear_arith)
                requires
                    0 <= um < 65536,
                    0 <= vm < 65536,
                    0 <= self.width,
                    0 <= self.height,
            ;
            lemma_div_pos_is_pos(um as int * self.width as int, 65536);
            lemma_multiply_divide_le(um as int * self.width as int, 65536, self.width as int);
            lemma_div_pos_is_pos((65536 - vm as int) * self.height as int, 65536);
            lemma_multiply_divide_le(
                (65536 - vm as int) * self.height as int,
                65536,
                self.height as int,
            );
        }
        let x: usize = (((um as u64) * (self.width as u64)) / 65536) as usize;
        let y: usize = ((((65536 - vm) as u64) * (self.height as u64)) / 65536) as usize;
        proof {
            assert(y as int * self.width as int <= 0x7fff * 0x7fff && x < 0x8000)
                by (nonlinear_arith)
                requires
                    0 <= y <= self.height,
                    0 <= x <= self.width,
                    self.width <= 0x7fff,
                    self.height <= 0x7fff,
            ;
        }
        let index: usize = 3 * (y * self.width + x);
        if index >= 3 * self.width * self.height {
            Color::black()
        } else {
            proof {
                lemma_mul_is_associative(3, self.width as int, self.height as int);
                let k = y as int * self.width as int + x as int;
                let wh = self.width as int * self.height as int;
                assert(3 * k + 2 < 3 * wh) by (nonlinear_arith)
                    requires
                        0 <= k,
                        3 * k < 3 * wh,
                ;
                lemma_div_pos_is_pos(self.data[index as int] as int * 65536, 255);
                lemma_div_pos_is_pos(self.data[index as int + 1] as int * 65536, 255);
                lemma_div_pos_is_pos(self.data[index as int + 2] as int * 65536, 255);
                lemma_multiply_divide_le(self.data[index as int] as int * 65536, 255, 65536);
                lemma_multiply_divide_le(self.data[index as int + 1] as int * 65536, 255, 65536);
                lemma_multiply_divide_le(self.data[index as int + 2] as int * 65536, 255, 65536);
            }
            let r: i64 = (((self.data[index] as u64) * 65536) / 255) as i64;
            let g: i64 = (((self.data[index + 1] as u64) * 65536) / 255) as i64;
            let b: i64 = (((self.data[index + 2] as u64) * 65536) / 255) as i64;
            Color(r, g, b)
        }
    }
}

/// Surface properties: Phong colors, a specular exponent, a mirror
/// reflectance in [0, 1], and an optional texture.
pub struct Material {
    pub specular: Color,
    pub diffuse: Color,
    pub ambient: Color,
    pub alpha: i64,
    pub reflectance: i64,
    pub texture: Texture,
}

/// Every color channel bounded, a nonnegative exponent, a reflectance
/// within [0, 1], and a well-formed texture.
pub open spec fn material_wf(m: Material) -> bool {
    &&& iabs(m.specular.0 as int) <= COLOR_LIMIT && iabs(m.specular.1 as int) <= COLOR_LIMIT
        && iabs(m.specular.2 as int) <= COLOR_LIMIT
    &&& iabs(m.diffuse.0 as int) <= COLOR_LIMIT && iabs(m.diffuse.1 as int) <= COLOR_LIMIT && iabs(
        m.diffuse.2 as int,
    ) <= COLOR_LIMIT
    &&& iabs(m.ambient.0 as int) <= COLOR_LIMIT && iabs(m.ambient.1 as int) <= COLOR_LIMIT
        && iabs(m.ambient.2 as int) <= COLOR_LIMIT
    &&& 0 <= m.alpha
    &&& 0 <= m.reflectance <= 65536
    &&& texture_wf(m.texture)
}

impl Material {
    pub fn new(
        specular: Color,
        diffuse: Color,
        ambient: Color,
        alpha: i64,
        reflectance: i64,
        texture: Texture,
    ) -> (r: Material)
        requires
            iabs(specular.0 as int) <= COLOR_LIMIT,
            iabs(specular.1 as int) <= COLOR_LIMIT,
            iabs(specular.2 as int) <= COLOR_LIMIT,
            iabs(diffuse.0 as int) <= COLOR_LIMIT,
            iabs(diffuse.1 as int) <= COLOR_LIMIT,
            iabs(diffuse.2 as int) <= COLOR_LIMIT,
            iabs(ambient.0 as int) <= COLOR_LIMIT,
            iabs(ambient.1 as int) <= COLOR_LIMIT,
            iabs(ambient.2 as int) <= COLOR_LIMIT,
            0 <= alpha,
            0 <= reflectance <= 65536,
            texture_wf(texture),
        ensures
            r.specular == specular,
            r.diffuse == diffuse,
            r.ambient == ambient,
            r.alpha == alpha,
            r.reflectance == reflectance,
            r.texture == texture,
            material_wf(r),
    {
        Material { specular, diffuse, ambient, alpha, reflectance, texture }
    }
}

/// A point light: a position plus its specular, diffuse and ambient
/// contributions.
#[derive(Copy, Clone, Debug, PartialEq, Eq, Structural)]
pub struct LightSource {
    pub position: Vector,
    pub specular: Color,
    pub diffuse: Color,
    pub ambient: Color,
}

/// Position within the light bound and all channels within the color
/// bound.
pub open spec fn light_wf(l: LightSource) -> bool {
    &&& bounded(l.position, LIGHT_POS_LIMIT as int)
    &&& iabs(l.specular.0 as int) <= COLOR_LIMIT && iabs(l.specular.1 as int) <= COLOR_LIMIT
        && iabs(l.specular.2 as int) <= COLOR_LIMIT
    &&& iabs(l.diffuse.0 as int) <= COLOR_LIMIT && iabs(l.diffuse.1 as int) <= COLOR_LIMIT
        && iabs(l.diffuse.2 as int) <= COLOR_LIMIT
    &&& iabs(l.ambient.0 as int) <= COLOR_LIMIT && iabs(l.ambient.1 as int) <= COLOR_LIMIT
        && iabs(l.ambient.2 as int) <= COLOR_LIMIT
}

/// Every light in the sequence is well-formed.
pub open spec fn lights_wf(lights: Seq<LightSource>) -> bool {
    forall|i: int| 0 <= i < lights.len() ==> light_wf(#[trigger] lights[i])
}

/// One channel of the sum of all lights' ambient colors.
pub open spec fn ambient_sum(lights: Seq<LightSource>, channel: int) -> int
    decreases lights.len(),
{
    if lights.len() == 0 {
        0
    } else {
        ambient_sum(lights.drop_last(), channel) + (if channel == 0 {
            lights.last().ambient.0 as int
        } else if channel == 1 {
            lights.last().ambient.1 as int
        } else {
            lights.last().ambient.2 as int
        })
    }
}

/// The ambient sum over well-formed lights grows at most linearly.
pub proof fn lemma_ambient_sum_bound(lights: Seq<LightSource>, channel: int)
    requires
        lights_wf(lights),
    ensures
        iabs(ambient_sum(lights, channel)) <= lights.len() * COLOR_LIMIT,
    decreases lights.len(),
{
    if lights.len() > 0 {
        assert(lights_wf(lights.drop_last())) by {
            assert(forall|i: int|
                0 <= i < lights.len() - 1 ==> lights.drop_last()[i] == #[trigger] lights[i]);
        }
        lemma_ambient_sum_bound(lights.drop_last(), channel);
        assert(light_wf(lights.last()));
    }
}

/// The unnormalized displacement from the shaded point to the light.
pub open spec fn ldist(l: LightSource, p: Vector) -> Vector {
    sub_vec(l.position, p)
}

/// That displacement scaled to unit length.
pub open spec fn ldist_n(l: LightSource, p: Vector) -> Vector {
    let dv = ldist(l, p);
    vec3(norm_x(dv), norm_y(dv), norm_z(dv))
}

/// The light lies on the front side of the surface: the unnormalized
/// displacement has a positive component along the normal.
pub open spec fn facing(l: LightSource, p: Vector, n: Vector) -> bool {
    dot_spec(n, ldist(l, p)) > 0
}

/// Lambertian coefficient: unit light direction dotted with the normal.
pub open spec fn light_dcoef(l: LightSource, p: Vector, n: Vector) -> int {
    dot_spec(ldist_n(l, p), n)
}

/// The unit light direction mirrored across the normal.
pub open spec fn light_refl(l: LightSource, p: Vector, n: Vector) -> Vector {
    vec3(
        reflect_x(ldist_n(l, p), n),
        reflect_y(ldist_n(l, p), n),
        reflect_z(ldist_n(l, p), n),
    )
}

/// The raw Phong base: the mirrored light direction dotted with the
/// reversed viewing direction.
pub open spec fn light_sbase(l: LightSource, p: Vector, d: Vector, n: Vector) -> int {
    dot_spec(light_refl(l, p, n), vec3(-(d.x as int), -(d.y as int), -(d.z as int)))
}

/// Clamp into `[0, 1]`: a negative base reflects no highlight, and a
/// base can only exceed one by rounding or an overlong shading normal.
pub open spec fn clamp_unit(x: int) -> int {
    if x < 0 {
        0
    } else if x > 65536 {
        65536
    } else {
        x
    }
}

/// One front-facing light's contribution to one channel: the diffuse
/// term plus the Phong specular term, both attenuated by `strength`.
/// `dr`, `dg`, `db` are the effective diffuse material color (the plain
/// material color, or its product with a texture sample).
pub open spec fn light_term(
    l: LightSource,
    p: Vector,
    d: Vector,
    n: Vector,
    strength: int,
    mat: Material,
    dr: int,
    dg: int,
    db: int,
    channel: int,
) -> int {
    let dc = fx_mul(light_dcoef(l, p, n), strength);
    let sc = fx_mul(fx_pow(clamp_unit(light_sbase(l, p, d, n)), mat.alpha as int), strength);
    let ldif = if channel == 0 {
        l.diffuse.0 as int
    } else if channel == 1 {
        l.diffuse.1 as int
    } else {
        l.diffuse.2 as int
    };
    let dch = if channel == 0 {
        dr
    } else if channel == 1 {
        dg
    } else {
        db
    };
    let lspec = if channel == 0 {
        l.specular.0 as int
    } else if channel == 1 {
        l.specular.1 as int
    } else {
        l.specular.2 as int
    };
    let mspec = if channel == 0 {
        mat.specular.0 as int
    } else if channel == 1 {
        mat.specular.1 as int
    } else {
        mat.specular.2 as int
    };
    combine_spec(dc, ldif, dch) + combine_spec(sc, lspec, mspec)
}

/// One channel of the summed contribution of every front-facing light.
pub open spec fn shade_sum(
    lights: Seq<LightSource>,
    p: Vector,
    d: Vector,
    n: Vector,
    strength: int,
    mat: Material,
    dr: int,
    dg: int,
    db: int,
    channel: int,
) -> int
    decreases lights.len(),
{
    if lights.len() == 0 {
        0
    } else {
        shade_sum(lights.drop_last(), p, d, n, strength, mat, dr, dg, db, channel) + (if facing(
            lights.last(),
            p,
            n,
        ) {
            light_term(lights.last(), p, d, n, strength, mat, dr, dg, db, channel)
        } else {
            0
        })
    }
}

/// The direction of the single secondary ray: the reversed incoming
/// direction, normalized, mirrored across the surface normal.
pub open spec fn bounce_x(d: Vector, n: Vector) -> int {
    let nv = vec3(-(d.x as int), -(d.y as int), -(d.z as int));
    reflect_x(vec3(norm_x(nv), norm_y(nv), norm_z(nv)), n)
}

pub open spec fn bounce_y(d: Vector, n: Vector) -> int {
    let nv = vec3(-(d.x as int), -(d.y as int), -(d.z as int));
    reflect_y(vec3(norm_x(nv), norm_y(nv), norm_z(nv)), n)
}

pub open spec fn bounce_z(d: Vector, n: Vector) -> int {
    let nv = vec3(-(d.x as int), -(d.y as int), -(d.z as int));
    reflect_z(vec3(norm_x(nv), norm_y(nv), norm_z(nv)), n)
}

impl LightSource {
    /// Sum the ambient contribution of every light.
    pub fn calculate_ambient(lights: &Vec<LightSource>) -> (r: Color)
        requires
            lights_wf(lights@),
            lights@.len() <= MAX_LIGHTS,
        ensures
            r.0 == ambient_sum(lights@, 0),
            r.1 == ambient_sum(lights@, 1),
            r.2 == ambient_sum(lights@, 2),
            iabs(r.0 as int) <= lights@.len() * COLOR_LIMIT,
            iabs(r.1 as int) <= lights@.len() * COLOR_LIMIT,
            iabs(r.2 as int) <= lights@.len() * COLOR_LIMIT,
    {
        let mut red: i64 = 0;
        let mut green: i64 = 0;
        let mut blue: i64 = 0;
        let mut i: usize = 0;
        while i < lights.len()
            invariant
                0 <= i <= lights@.len(),
                lights_wf(lights@),
                lights@.len() <= MAX_LIGHTS,
                red == ambient_sum(lights@.subrange(0, i as int), 0),
                green == ambient_sum(lights@.subrange(0, i as int), 1),
                blue == ambient_sum(lights@.subrange(0, i as int), 2),
                iabs(red as int) <= i * COLOR_LIMIT,
                iabs(green as int) <= i * COLOR_LIMIT,
                iabs(blue as int) <= i * COLOR_LIMIT,
            decreases lights@.len() - i,
        {
            proof {
                assert(light_wf(lights@[i as int]));
                assert(lights@.subrange(0, i + 1).drop_last() =~= lights@.subrange(0, i as int));
                assert(lights@.subrange(0, i + 1).last() == lights@[i as int]);
                assert(i * COLOR_LIMIT + COLOR_LIMIT == (i + 1) * COLOR_LIMIT) by (nonlinear_arith);
            }
            let light = &lights[i];
            red = red + light.ambient.0;
            green = green + light.ambient.1;
            blue = blue + light.ambient.2;
            i = i + 1;
        }
        proof {
            assert(lights@.subrange(0, lights@.len() as int) =~= lights@);
        }
        Color(red, green, blue)
    }
}

/// One front-facing light's diffuse-plus-specular contribution.
fn light_contribution(
    light: &LightSource,
    ray: &Ray,
    normal: Vector,
    light_strength: i64,
    material: &Material,
    diffuse_color: Color,
) -> (res: Color)
    requires
        light_wf(*light),
        bounded(ray.position, 0x8000_0000),
        bounded(ray.direction, 0x200_0000),
        bounded(normal, 0x8_0000),
        material_wf(*material),
        iabs(diffuse_color.0 as int) <= 0x100_0000,
        iabs(diffuse_color.1 as int) <= 0x100_0000,
        iabs(diffuse_color.2 as int) <= 0x100_0000,
        0 <= light_strength <= 65536,
        facing(*light, ray.position, normal),
    ensures
        res.0 == light_term(
            *light,
            ray.position,
            ray.direction,
            normal,
            light_strength as int,
            *material,
            diffuse_color.0 as int,
            diffuse_color.1 as int,
            diffuse_color.2 as int,
            0,
        ),
        res.1 == light_term(
            *light,
            ray.position,
            ray.direction,
            normal,
            light_strength as int,
            *material,
            diffuse_color.0 as int,
            diffuse_color.1 as int,
            diffuse_color.2 as int,
            1,
        ),
        res.2 == light_term(
            *light,
            ray.position,
            ray.direction,
            normal,
            light_strength as int,
            *material,
            diffuse_color.0 as int,
            diffuse_color.1 as int,
            diffuse_color.2 as int,
            2,
        ),
        iabs(res.0 as int) <= 0x40_0000_0000,
        iabs(res.1 as int) <= 0x40_0000_0000,
        iabs(res.2 as int) <= 0x40_0000_0000,
{
    let dist: Vector = light.position.subtract(&ray.position);
    proof {
        assert(dist == ldist(*light, ray.position));
        if dist.x == 0 && dist.y == 0 && dist.z == 0 {
            lemma_fx_mul_basics(normal.x as int);
            lemma_fx_mul_basics(normal.y as int);
            lemma_fx_mul_basics(normal.z as int);
            assert(false);
        }
    }
    let dist_n: Vector = dist.normalize();
    proof {
        assert(dist_n == ldist_n(*light, ray.position));
        lemma_dot_bound(dist_n, normal, 65536, 0x8_0000);
    }
    let reflection: Vector = dist_n.reflect_across(&normal);
    proof {
        lemma_fx_mul_bounds(131072, dot_spec(dist_n, normal), 131072, 0x18_0003);
        let sc = fx_mul(131072, dot_spec(dist_n, normal));
        lemma_fx_mul_bounds(sc, normal.x as int, 0x30_0006, 0x8_0000);
        lemma_fx_mul_bounds(sc, normal.y as int, 0x30_0006, 0x8_0000);
        lemma_fx_mul_bounds(sc, normal.z as int, 0x30_0006, 0x8_0000);
        assert(reflection == light_refl(*light, ray.position, normal));
    }
    let diffuse_coef: i64 = dist_n.dot(&normal);
    proof {
        lemma_mul_le(diffuse_coef as int, light_strength as int, 0x18_0003, 65536);
        lemma_fx_mul_bounds(diffuse_coef as int, light_strength as int, 0x18_0003, 65536);
    }
    let dcs: i64 = fmul(diffuse_coef, light_strength);
    let diffuse: Color = Color::combine(dcs, light.diffuse, diffuse_color);
    proof {
        lemma_fx_mul_bounds(dcs as int, light.diffuse.0 as int, 0x18_0003, 0x100_0000);
        lemma_fx_mul_bounds(dcs as int, light.diffuse.1 as int, 0x18_0003, 0x100_0000);
        lemma_fx_mul_bounds(dcs as int, light.diffuse.2 as int, 0x18_0003, 0x100_0000);
        lemma_fx_mul_bounds(
            fx_mul(dcs as int, light.diffuse.0 as int),
            diffuse_color.0 as int,
            0x1800_0300,
            0x100_0000,
        );
        lemma_fx_mul_bounds(
            fx_mul(dcs as int, light.diffuse.1 as int),
            diffuse_color.1 as int,
            0x1800_0300,
            0x100_0000,
        );
        lemma_fx_mul_bounds(
            fx_mul(dcs as int, light.diffuse.2 as int),
            diffuse_color.2 as int,
            0x1800_0300,
            0x100_0000,
        );
    }
    let negd: Vector = ray.direction.negative();
    proof {
        lemma_dot_bound(reflection, negd, 0x200_0000, 0x200_0000);
    }
    let mut specular_base: i64 = reflection.dot(&negd);
    if specular_base < 0 {
        specular_base = 0;
    }
    if specular_base > 65536 {
        specular_base = 65536;
    }
    proof {
        assert(negd == (vec3(
            -(ray.direction.x as int),
            -(ray.direction.y as int),
            -(ray.direction.z as int),
        )));
        assert(specular_base == clamp_unit(
            light_sbase(*light, ray.position, ray.direction, normal),
        ));
    }
    let specular_coef: i64 = fpow(specular_base, material.alpha);
    proof {
        lemma_mul_le(specular_coef as int, light_strength as int, 65536, 65536);
        lemma_fx_mul_bounds(specular_coef as int, light_strength as int, 65536, 65536);
    }
    let scs: i64 = fmul(specular_coef, light_strength);
    let specular: Color = Color::combine(scs, light.specular, material.specular);
    proof {
        lemma_fx_mul_bounds(scs as int, light.specular.0 as int, 65536, 0x100_0000);
        lemma_fx_mul_bounds(scs as int, light.specular.1 as int, 65536, 0x100_0000);
        lemma_fx_mul_bounds(scs as int, light.specular.2 as int, 65536, 0x100_0000);
        lemma_fx_mul_bounds(
            fx_mul(scs as int, light.specular.0 as int),
            material.specular.0 as int,
            0x100_0000,
            0x100_0000,
        );
        lemma_fx_mul_bounds(
            fx_mul(scs as int, light.specular.1 as int),
            material.specular.1 as int,
            0x100_0000,
            0x100_0000,
        );
        lemma_fx_mul_bounds(
            fx_mul(scs as int, light.specular.2 as int),
            material.specular.2 as int,
            0x100_0000,
            0x100_0000,
        );
    }
    let mut out: Color = diffuse;
    out.add(specular);
    out
}

/// Shared shading loop: sum every front-facing light's contribution with
/// the effective diffuse color `diffuse_color`, add the ambient term,
/// and build the single attenuated mirror ray.
fn shade(
    lights: &Vec<LightSource>,
    ambient_light: Color,
    ray: &Ray,
    normal: Vector,
    light_strength: i64,
    material: &Material,
    diffuse_color: Color,
) -> (res: (Color, i64, Vec<Ray>))
    requires
        lights_wf(lights@),
        lights@.len() <= MAX_LIGHTS,
        bounded(ray.position, 0x8000_0000),
        bounded(ray.direction, 0x200_0000),
        nonzero(ray.direction),
        bounded(normal, 0x8_0000),
        material_wf(*material),
        iabs(ambient_light.0 as int) <= 0x10_0000_0000,
        iabs(ambient_light.1 as int) <= 0x10_0000_0000,
        iabs(ambient_light.2 as int) <= 0x10_0000_0000,
        iabs(diffuse_color.0 as int) <= 0x100_0000,
        iabs(diffuse_color.1 as int) <= 0x100_0000,
        iabs(diffuse_color.2 as int) <= 0x100_0000,
        0 <= light_strength <= 65536,
    ensures
        res.0.0 == shade_sum(
            lights@,
            ray.position,
            ray.direction,
            normal,
            light_strength as int,
            *material,
            diffuse_color.0 as int,
            diffuse_color.1 as int,
            diffuse_color.2 as int,
            0,
        ) + combine_spec(light_strength as int, ambient_light.0 as int, material.ambient.0 as int),
        res.0.1 == shade_sum(
            lights@,
            ray.position,
            ray.direction,
            normal,
            light_strength as int,
            *material,
            diffuse_color.0 as int,
            diffuse_color.1 as int,
            diffuse_color.2 as int,
            1,
        ) + combine_spec(light_strength as int, ambient_light.1 as int, material.ambient.1 as int),
        res.0.2 == shade_sum(
            lights@,
            ray.position,
            ray.direction,
            normal,
            light_strength as int,
            *material,
            diffuse_color.0 as int,
            diffuse_color.1 as int,
            diffuse_color.2 as int,
            2,
        ) + combine_spec(light_strength as int, ambient_light.2 as int, material.ambient.2 as int),
        iabs(res.0.0 as int) <= SHADE_LIMIT,
        iabs(res.0.1 as int) <= SHADE_LIMIT,
        iabs(res.0.2 as int) <= SHADE_LIMIT,
        res.1 == fx_mul(light_strength as int, material.reflectance as int),
        0 <= res.1 <= 65536,
        res.2@.len() == 1,
        res.2@[0].position == ray.position,
        res.2@[0].direction.x == bounce_x(ray.direction, normal),
        res.2@[0].direction.y == bounce_y(ray.direction, normal),
        res.2@[0].direction.z == bounce_z(ray.direction, normal),
        bounded(res.2@[0].direction, 0x200_0000),
{
    let mut color: Color = Color(0, 0, 0);
    let mut i: usize = 0;
    while i < lights.len()
        invariant
            lights_wf(lights@),
            lights@.len() <= MAX_LIGHTS,
            bounded(ray.position, 0x8000_0000),
            bounded(ray.direction, 0x200_0000),
            bounded(normal, 0x8_0000),
            material_wf(*material),
            iabs(diffuse_color.0 as int) <= 0x100_0000,
            iabs(diffuse_color.1 as int) <= 0x100_0000,
            iabs(diffuse_color.2 as int) <= 0x100_0000,
            0 <= light_strength <= 65536,
            0 <= i <= lights@.len(),
            color.0 == shade_sum(
                lights@.subrange(0, i as int),
                ray.position,
                ray.direction,
                normal,
                light_strength as int,
                *material,
                diffuse_color.0 as int,
                diffuse_color.1 as int,
                diffuse_color.2 as int,
                0,
            ),
            color.1 == shade_sum(
                lights@.subrange(0, i as int),
                ray.position,
                ray.direction,
                normal,
                light_strength as int,
                *material,
                diffuse_color.0 as int,
                diffuse_color.1 as int,
                diffuse_color.2 as int,
                1,
            ),
            color.2 == shade_sum(
                lights@.subrange(0, i as int),
                ray.position,
                ray.direction,
                normal,
                light_strength as int,
                *material,
                diffuse_color.0 as int,
                diffuse_color.1 as int,
                diffuse_color.2 as int,
                2,
            ),
            iabs(color.0 as int) <= i * 0x40_0000_0000,
            iabs(color.1 as int) <= i * 0x40_0000_0000,
            iabs(color.2 as int) <= i * 0x40_0000_0000,
        decreases lights@.len() - i,
    {
        proof {
            assert(light_wf(lights@[i as int]));
            assert(lights@.subrange(0, i + 1).drop_last() =~= lights@.subrange(0, i as int));
            assert(lights@.subrange(0, i + 1).last() == lights@[i as int]);
            assert(i * 0x40_0000_0000 + 0x40_0000_0000 == (i + 1) * 0x40_0000_0000)
                by (nonlinear_arith);
        }
        let light = &lights[i];
        let dist: Vector = light.position.subtract(&ray.position);
        proof {
            lemma_dot_bound(normal, dist, 0x8_0000, 0x1_0000_0000);
            assert(dist == ldist(lights@[i as int], ray.position));
        }
        let nd: i64 = normal.dot(&dist);
        if nd > 0 {
            let term: Color = light_contribution(
                light,
                ray,
                normal,
                light_strength,
                material,
                diffuse_color,
            );
            color.add(term);
        }
        i = i + 1;
    }
    proof {
        assert(lights@.subrange(0, lights@.len() as int) =~= lights@);
        assert(lights@.len() * 0x40_0000_0000 <= 4096 * 0x40_0000_0000) by (nonlinear_arith)
            requires
                lights@.len() <= 4096,
        ;
    }
    let ambient_term: Color = Color::combine(light_strength, ambient_light, material.ambient);
    proof {
        lemma_fx_mul_bounds(light_strength as int, ambient_light.0 as int, 65536, 0x10_0000_0000);
        lemma_fx_mul_bounds(light_strength as int, ambient_light.1 as int, 65536, 0x10_0000_0000);
        lemma_fx_mul_bounds(light_strength as int, ambient_light.2 as int, 65536, 0x10_0000_0000);
        lemma_fx_mul_bounds(
            fx_mul(light_strength as int, ambient_light.0 as int),
            material.ambient.0 as int,
            0x10_0000_0000,
            0x100_0000,
        );
        lemma_fx_mul_bounds(
            fx_mul(light_strength as int, ambient_light.1 as int),
            material.ambient.1 as int,
            0x10_0000_0000,
            0x100_0000,
        );
        lemma_fx_mul_bounds(
            fx_mul(light_strength as int, ambient_light.2 as int),
            material.ambient.2 as int,
            0x10_0000_0000,
            0x100_0000,
        );
    }
    color.add(ambient_term);
    let negv: Vector = ray.direction.negative();
    let negn: Vector = negv.normalize();
    proof {
        lemma_dot_bound(negn, normal, 65536, 0x8_0000);
        lemma_fx_mul_bounds(131072, dot_spec(negn, normal), 131072, 0x18_0003);
        let sc = fx_mul(131072, dot_spec(negn, normal));
        lemma_fx_mul_bounds(sc, normal.x as int, 0x30_0006, 0x8_0000);
        lemma_fx_mul_bounds(sc, normal.y as int, 0x30_0006, 0x8_0000);
        lemma_fx_mul_bounds(sc, normal.z as int, 0x30_0006, 0x8_0000);
    }
    let bounce: Vector = negn.reflect_across(&normal);
    proof {
        assert(negv == (vec3(
            -(ray.direction.x as int),
            -(ray.direction.y as int),
            -(ray.direction.z as int),
        )));
        assert(negn == (vec3(norm_x(negv), norm_y(negv), norm_z(negv))));
        assert(bounce.x == bounce_x(ray.direction, normal));
        assert(bounce.y == bounce_y(ray.direction, normal));
        assert(bounce.z == bounce_z(ray.direction, normal));
        lemma_fx_mul_bounds(light_strength as int, material.reflectance as int, 65536, 65536);
        lemma_mul_nonnegative(light_strength as int, material.reflectance as int);
        lemma_tdiv_mag(light_strength as int * material.reflectance as int, 65536);
    }
    let reflection_ray: Ray = Ray { position: ray.position, direction: bounce };
    let new_strength: i64 = fmul(light_strength, material.reflectance);
    let mut rays: Vec<Ray> = Vec::new();
    rays.push(reflection_ray);
    (color, new_strength, rays)
}

/// Shade a hit point: the summed diffuse, specular and ambient terms of
/// the visible lights, the attenuated strength for the next bounce, and
/// the single mirror ray. `ray.position` is the hit point and
/// `ray.direction` the incoming direction.
pub fn calculate(
    lights: &Vec<LightSource>,
    ambient_light: Color,
    ray: &Ray,
    normal: Vector,
    light_strength: i64,
    material: &Material,
) -> (res: (Color, i64, Vec<Ray>))
    requires
        lights_wf(lights@),
        lights@.len() <= MAX_LIGHTS,
        bounded(ray.position, 0x8000_0000),
        bounded(ray.direction, 0x200_0000),
        nonzero(ray.direction),
        bounded(normal, 0x8_0000),
        material_wf(*material),
        iabs(ambient_light.0 as int) <= 0x10_0000_0000,
        iabs(ambient_light.1 as int) <= 0x10_0000_0000,
        iabs(ambient_light.2 as int) <= 0x10_0000_0000,
        0 <= light_strength <= 65536,
    ensures
        res.0.0 == shade_sum(
            lights@,
            ray.position,
            ray.direction,
            normal,
            light_strength as int,
            *material,
            material.diffuse.0 as int,
            material.diffuse.1 as int,
            material.diffuse.2 as int,
            0,
        ) + combine_spec(light_strength as int, ambient_light.0 as int, material.ambient.0 as int),
        res.0.1 == shade_sum(
            lights@,
            ray.position,
            ray.direction,
            normal,
            light_strength as int,
            *material,
            material.diffuse.0 as int,
            material.diffuse.1 as int,
            material.diffuse.2 as int,
            1,
        ) + combine_spec(light_strength as int, ambient_light.1 as int, material.ambient.1 as int),
        res.0.2 == shade_sum(
            lights@,
            ray.position,
            ray.direction,
            normal,
            light_strength as int,
            *material,
            material.diffuse.0 as int,
            material.diffuse.1 as int,
            material.diffuse.2 as int,
            2,
        ) + combine_spec(light_strength as int, ambient_light.2 as int, material.ambient.2 as int),
        iabs(res.0.0 as int) <= SHADE_LIMIT,
        iabs(res.0.1 as int) <= SHADE_LIMIT,
        iabs(res.0.2 as int) <= SHADE_LIMIT,
        res.1 == fx_mul(light_strength as int, material.reflectance as int),
        0 <= res.1 <= 65536,
        res.2@.len() == 1,
        res.2@[0].position == ray.position,
        res.2@[0].direction.x == bounce_x(ray.direction, normal),
        res.2@[0].direction.y == bounce_y(ray.direction, normal),
        res.2@[0].direction.z == bounce_z(ray.direction, normal),
        bounded(res.2@[0].direction, 0x200_0000),
{
    shade(lights, ambient_light, ray, normal, light_strength, material, material.diffuse)
}

/// Shade a hit point on a textured triangle: as `calculate`, but the
/// diffuse material color is replaced per-pixel by the texture sample
/// at `uv`.
pub fn calculate_with_tex(
    lights: &Vec<LightSource>,
    ambient_light: Color,
    ray: &Ray,
    uv: UV,
    normal: Vector,
    light_strength: i64,
    material: &Material,
) -> (res: (Color, i64, Vec<Ray>))
    requires
        lights_wf(lights@),
        lights@.len() <= MAX_LIGHTS,
        bounded(ray.position, 0x8000_0000),
        bounded(ray.direction, 0x200_0000),
        nonzero(ray.direction),
        bounded(normal, 0x8_0000),
        material_wf(*material),
        iabs(ambient_light.0 as int) <= 0x10_0000_0000,
        iabs(ambient_light.1 as int) <= 0x10_0000_0000,
        iabs(ambient_light.2 as int) <= 0x10_0000_0000,
        iabs(uv.u as int) <= 0x4000_0000_0000_0000,
        iabs(uv.v as int) <= 0x4000_0000_0000_0000,
        0 <= light_strength <= 65536,
    ensures
        res.0.0 == shade_sum(
            lights@,
            ray.position,
            ray.direction,
            normal,
            light_strength as int,
            *material,
            tex_sample(material.texture, uv, 0),
            tex_sample(material.texture, uv, 1),
            tex_sample(material.texture, uv, 2),
            0,
        ) + combine_spec(light_strength as int, ambient_light.0 as int, material.ambient.0 as int),
        res.0.1 == shade_sum(
            lights@,
            ray.position,
            ray.direction,
            normal,
            light_strength as int,
            *material,
            tex_sample(material.texture, uv, 0),
            tex_sample(material.texture, uv, 1),
            tex_sample(material.texture, uv, 2),
            1,
        ) + combine_spec(light_strength as int, ambient_light.1 as int, material.ambient.1 as int),
        res.0.2 == shade_sum(
            lights@,
            ray.position,
            ray.direction,
            normal,
            light_strength as int,
            *material,
            tex_sample(material.texture, uv, 0),
            tex_sample(material.texture, uv, 1),
            tex_sample(material.texture, uv, 2),
            2,
        ) + combine_spec(light_strength as int, ambient_light.2 as int, material.ambient.2 as int),
        iabs(res.0.0 as int) <= SHADE_LIMIT,
        iabs(res.0.1 as int) <= SHADE_LIMIT,
        iabs(res.0.2 as int) <= SHADE_LIMIT,
        res.1 == fx_mul(light_strength as int, material.reflectance as int),
        0 <= res.1 <= 65536,
        res.2@.len() == 1,
        res.2@[0].position == ray.position,
        res.2@[0].direction.x == bounce_x(ray.direction, normal),
        res.2@[0].direction.y == bounce_y(ray.direction, normal),
        res.2@[0].direction.z == bounce_z(ray.direction, normal),
        bounded(res.2@[0].direction, 0x200_0000),
{
    let tex_color: Color = material.texture.color_at(uv);
    shade(lights, ambient_light, ray, normal, light_strength, material, tex_color)
}

/// The scene's lights together with the precomputed ambient aggregate:
/// the channel-wise sum of every light's ambient color.
pub struct Lighting {
    pub lights: Vec<LightSource>,
    pub ambient_light: Color,
}

/// Well-formed lights, within the count bound, with the ambient
/// aggregate equal to the sum it stands for.
pub open spec fn lighting_wf(l: Lighting) -> bool {
    &&& lights_wf(l.lights@)
    &&& l.lights@.len() <= MAX_LIGHTS
    &&& l.ambient_light.0 == ambient_sum(l.lights@, 0)
    &&& l.ambient_light.1 == ambient_sum(l.lights@, 1)
    &&& l.ambient_light.2 == ambient_sum(l.lights@, 2)
}

impl Lighting {
    pub fn new(lights: Vec<LightSource>) -> (r: Lighting)
        requires
            lights_wf(lights@),
            lights@.len() <= MAX_LIGHTS,
        ensures
            r.lights == lights,
            lighting_wf(r),
    {
        let ambient_light: Color = LightSource::calculate_ambient(&lights);
        Lighting { lights, ambient_light }
    }

    /// Move every light with the renderer's orbit transform for `theta`
    /// raw degrees: the new position is `(x cos - z sin, y, x sin + z sin)`.
    /// Colors are kept and the ambient aggregate is rebuilt.
    pub fn rotate(&self, theta: i64) -> (r: Lighting)
        requires
            lighting_wf(*self),
            forall|i: int|
                0 <= i < self.lights@.len() ==> bounded(
                    (#[trigger] self.lights@[i]).position,
                    0x1000_0000,
                ),
            -0x3fff_ffff_fe00_0000 <= theta <= 0x3fff_ffff_fe00_0000,
        ensures
            r.lights@.len() == self.lights@.len(),
            forall|i: int|
                0 <= i < self.lights@.len() ==> {
                    let p = self.lights@[i].position;
                    let s = crate::fixed::sin_fx(theta as int);
                    let c = crate::fixed::cos_fx(theta as int);
                    &&& (#[trigger] r.lights@[i]).position.x == dot_spec(p, vec3(c, 0, -s))
                    &&& r.lights@[i].position.y == dot_spec(p, vec3(0, 65536, 0))
                    &&& r.lights@[i].position.z == dot_spec(p, vec3(s, 0, s))
                    &&& r.lights@[i].specular == self.lights@[i].specular
                    &&& r.lights@[i].diffuse == self.lights@[i].diffuse
                    &&& r.lights@[i].ambient == self.lights@[i].ambient
                },
            lighting_wf(r),
    {
        let mut rotated_lights: Vec<LightSource> = Vec::new();
        let sin: i64 = crate::fixed::sin_deg(theta);
        let cos: i64 = crate::fixed::cos_deg(theta);
        let xto: Vector = Vector::new(cos, 0, -sin);
        let yto: Vector = Vector::new(0, 65536, 0);
        let zto: Vector = Vector::new(sin, 0, sin);
        let mut i: usize = 0;
        while i < self.lights.len()
            invariant
                lighting_wf(*self),
                forall|k: int|
                    0 <= k < self.lights@.len() ==> bounded(
                        (#[trigger] self.lights@[k]).position,
                        0x1000_0000,
                    ),
                0 <= i <= self.lights@.len(),
                iabs(sin as int) <= 65536,
                iabs(cos as int) <= 65536,
                sin == crate::fixed::sin_fx(theta as int),
                cos == crate::fixed::cos_fx(theta as int),
                xto == (vec3(cos as int, 0, -(sin as int))),
                yto == (vec3(0, 65536, 0)),
                zto == (vec3(sin as int, 0, sin as int)),
                rotated_lights@.len() == i,
                forall|j: int|
                    0 <= j < i ==> {
                        let p = self.lights@[j].position;
                        &&& (#[trigger] rotated_lights@[j]).position.x == dot_spec(p, xto)
                        &&& rotated_lights@[j].position.y == dot_spec(p, yto)
                        &&& rotated_lights@[j].position.z == dot_spec(p, zto)
                        &&& rotated_lights@[j].specular == self.lights@[j].specular
                        &&& rotated_lights@[j].diffuse == self.lights@[j].diffuse
                        &&& rotated_lights@[j].ambient == self.lights@[j].ambient
                        &&& light_wf(rotated_lights@[j])
                    },
            decreases self.lights@.len() - i,
        {
            let light = &self.lights[i];
            proof {
                assert(light_wf(self.lights@[i as int]));
                lemma_dot_bound(light.position, xto, 0x1000_0000, 65536);
                lemma_dot_bound(light.position, yto, 0x1000_0000, 65536);
                lemma_dot_bound(light.position, zto, 0x1000_0000, 65536);
            }
            let x: i64 = light.position.dot(&xto);
            let y: i64 = light.position.dot(&yto);
            let z: i64 = light.position.dot(&zto);
            let position: Vector = Vector::new(x, y, z);
            let transformed = LightSource {
                position,
                ambient: light.ambient,
                diffuse: light.diffuse,
                specular: light.specular,
            };
            rotated_lights.push(transformed);
            i = i + 1;
        }
        proof {
            assert(lights_wf(rotated_lights@));
        }
        Lighting::new(rotated_lights)
    }
}

} // verus!
