//! Camera projection: an orientation basis plus a lens that turns
//! normalized screen coordinates in [-1, 1] into world-space rays.

use vstd::prelude::*;

verus! {

use crate::fixed::{tdiv, fx_mul, fmul, lemma_fx_mul_bounds, lemma_mul_le};
use vstd::arithmetic::div_mod::{lemma_div_pos_is_pos, lemma_multiply_divide_le};
use crate::linear::{Vector, Ray, bounded, nonzero, cross_x, cross_y, cross_z, norm_x,
    norm_y, norm_z, rotate_x, rotate_y, rotate_z, vec3, sub_vec, lemma_cross_bound};

/// Bound on camera positions and look-at targets.
pub const CAMERA_LIMIT: i64 = 0x1000_0000;

/// Bound on the view plane's width and height in world units.
pub const VIEW_LIMIT: i64 = 0x40_0000;

/// Bound on the focal length.
pub const FOCAL_LIMIT: i64 = 0x1000_0000;

/// The world-space extent of the image plane.
pub struct ViewPort {
    pub width: i64,
    pub height: i64,
}

pub open spec fn viewport_wf(v: ViewPort) -> bool {
    0 <= v.width <= VIEW_LIMIT && 0 <= v.height <= VIEW_LIMIT
}

/// The camera's orientation basis: three roughly unit-length axes
/// derived from a position, a look-at target and a roll angle.
pub struct Scope {
    pub position: Vector,
    pub right: Vector,
    pub up: Vector,
    pub forward: Vector,
}

/// The basis axes within their rounding-slack bounds and the position
/// within the world.
pub open spec fn scope_wf(s: Scope) -> bool {
    &&& bounded(s.position, CAMERA_LIMIT as int)
    &&& bounded(s.forward, 0x1_0000)
    &&& bounded(s.up, 0x40_0000)
    &&& bounded(s.right, 0x80_0000)
}

impl Scope {
    /// Build the basis: forward points from `position` to `target`,
    /// right and up complete it against world-up (falling back to
    /// world-right whenever forward is vertical, pointing up or down,
    /// where the cross product with world-up vanishes), and the basis
    /// is rolled about forward by `-roll` raw degrees.
    pub fn new(target: Vector, position: Vector, roll: i64) -> (r: Scope)
        requires
            bounded(target, CAMERA_LIMIT as int),
            bounded(position, CAMERA_LIMIT as int),
            nonzero(sub_vec(target, position)),
            -0x3fff_ffff_fe00_0000 <= roll <= 0x3fff_ffff_fe00_0000,
        ensures
            r.position == position,
            ({
                let fwd = vec3(
                    norm_x(sub_vec(target, position)),
                    norm_y(sub_vec(target, position)),
                    norm_z(sub_vec(target, position)),
                );
                let vertical = vec3(0, 65536, 0);
                let right0 = if fwd.x == 0 && fwd.z == 0 {
                    vec3(65536, 0, 0)
                } else {
                    vec3(cross_x(fwd, vertical), cross_y(fwd, vertical), cross_z(fwd, vertical))
                };
                let up0 = vec3(cross_x(right0, fwd), cross_y(right0, fwd), cross_z(right0, fwd));
                let up1 = vec3(
                    rotate_x(up0, -roll as int, fwd),
                    rotate_y(up0, -roll as int, fwd),
                    rotate_z(up0, -roll as int, fwd),
                );
                &&& r.forward == fwd
                &&& r.up == up1
                &&& r.right == (vec3(cross_x(fwd, up1), cross_y(fwd, up1), cross_z(fwd, up1)))
            }),
            scope_wf(r),
    {
        let diff: Vector = target.subtract(&position);
        let forward: Vector = diff.normalize();
        let vertical: Vector = Vector::new(0, 65536, 0);
        let right: Vector = if forward.x == 0 && forward.z == 0 {
            Vector::new(65536, 0, 0)
        } else {
            proof {
                lemma_cross_bound(forward, vertical, 0x1_0000, 0x1_0000);
            }
            forward.cross(&vertical)
        };
        proof {
            lemma_cross_bound(right, forward, 0x2_0000, 0x1_0000);
        }
        let up: Vector = right.cross(&forward);
        let up: Vector = up.rotate(-roll, &forward);
        proof {
            lemma_cross_bound(forward, up, 0x1_0000, 0x40_0000);
        }
        let right: Vector = forward.cross(&up);
        Scope { position, right, up, forward }
    }
}

/// A camera projection: turns screen coordinates in [-1, 1] (given as
/// fixed-point scalars) into a world-space ray.
pub trait Lens {
    /// The lens's bounds and basis are well-formed.
    spec fn wf(&self) -> bool;

    /// The origin of the ray for screen position `(x, y)`.
    spec fn ray_origin(&self, x: int, y: int) -> Vector;

    /// The direction of the ray for screen position `(x, y)`.
    spec fn ray_direction(&self, x: int, y: int) -> Vector;

    fn generate_light_ray(&self, x: i64, y: i64) -> (r: Ray)
        requires
            self.wf(),
            -65536 <= x <= 65536,
            -65536 <= y <= 65536,
        ensures
            r.position == self.ray_origin(x as int, y as int),
            r.direction == self.ray_direction(x as int, y as int),
            bounded(r.position, 0x4000_0000),
            bounded(r.direction, 0x2_0000),
    ;
}

/// The scaled offset along a basis axis for one screen coordinate:
/// `axis * (coord * extent * 0.5)`.
pub open spec fn port_offset(axis: Vector, coord: int, extent: int) -> Vector {
    let s = fx_mul(fx_mul(coord, extent), 32768);
    vec3(fx_mul(s, axis.x as int), fx_mul(s, axis.y as int), fx_mul(s, axis.z as int))
}

/// The view-plane height derived from its width and the image's aspect
/// ratio.
pub open spec fn port_height(width: int, image_width: int, image_height: int) -> int {
    fx_mul(width, tdiv(image_height * 65536, image_width))
}

/// Compute one view-plane offset along a basis axis.
fn offset_along(axis: &Vector, coord: i64, extent: i64) -> (r: Vector)
    requires
        bounded(*axis, 0x80_0000),
        -65536 <= coord <= 65536,
        0 <= extent <= VIEW_LIMIT,
    ensures
        r == port_offset(*axis, coord as int, extent as int),
        bounded(r, 0x1000_0000),
{
    proof {
        lemma_fx_mul_bounds(coord as int, extent as int, 65536, 0x40_0000);
        lemma_fx_mul_bounds(fx_mul(coord as int, extent as int), 32768, 0x40_0000, 32768);
        let s = fx_mul(fx_mul(coord as int, extent as int), 32768);
        lemma_fx_mul_bounds(s, axis.x as int, 0x20_0000, 0x80_0000);
        lemma_fx_mul_bounds(s, axis.y as int, 0x20_0000, 0x80_0000);
        lemma_fx_mul_bounds(s, axis.z as int, 0x20_0000, 0x80_0000);
    }
    let s: i64 = fmul(fmul(coord, extent), 32768);
    axis.scale(s)
}

/// Compute the view-plane height from the width and image dimensions.
fn derive_height(width: i64, image_width: u32, image_height: u32) -> (r: i64)
    requires
        0 < image_width,
        image_height <= 0x7fff,
        0 <= width <= VIEW_LIMIT,
    ensures
        r == port_height(width as int, image_width as int, image_height as int),
        0 <= r,
{
    proof {
        lemma_div_pos_is_pos(image_height as int * 65536, image_width as int);
        assert(image_height as int * 65536 <= image_width as int * (image_height as int * 65536))
            by (nonlinear_arith)
            requires
                1 <= image_width,
                0 <= image_height,
        ;
        lemma_multiply_divide_le(
            image_height as int * 65536,
            image_width as int,
            image_height as int * 65536,
        );
        lemma_mul_le(width as int, tdiv(image_height as int * 65536, image_width as int),
            0x40_0000, 0x7fff_0000);
    }
    let ratio: i64 = (((image_height as u64) * 65536) / (image_width as u64)) as i64;
    fmul(width, ratio)
}

/// Parallel projection: all rays share the forward direction and start
/// spread across the view plane.
pub struct OrthographicLens {
    pub view_port: ViewPort,
    pub scope: Scope,
}

impl OrthographicLens {
    pub fn new(width: i64, image_width: u32, image_height: u32, scope: Scope) -> (r:
        OrthographicLens)
        requires
            scope_wf(scope),
            0 < image_width,
            image_height <= 0x7fff,
            0 <= width <= VIEW_LIMIT,
            port_height(width as int, image_width as int, image_height as int) <= VIEW_LIMIT,
        ensures
            r.scope == scope,
            r.view_port.width == width,
            r.view_port.height == port_height(
                width as int,
                image_width as int,
                image_height as int,
            ),
            r.wf(),
    {
        let height: i64 = derive_height(width, image_width, image_height);
        OrthographicLens { view_port: ViewPort { width, height }, scope }
    }
}

impl Lens for OrthographicLens {
    open spec fn wf(&self) -> bool {
        viewport_wf(self.view_port) && scope_wf(self.scope)
    }

    open spec fn ray_origin(&self, x: int, y: int) -> Vector {
        let h = port_offset(self.scope.right, x, self.view_port.width as int);
        let v = port_offset(self.scope.up, y, self.view_port.height as int);
        vec3(
            self.scope.position.x + h.x + v.x,
            self.scope.position.y + h.y + v.y,
            self.scope.position.z + h.z + v.z,
        )
    }

    open spec fn ray_direction(&self, x: int, y: int) -> Vector {
        self.scope.forward
    }

    fn generate_light_ray(&self, x: i64, y: i64) -> (r: Ray) {
        let horizontal: Vector = offset_along(&self.scope.right, x, self.view_port.width);
        let vertical: Vector = offset_along(&self.scope.up, y, self.view_port.height);
        Ray {
            position: self.scope.position.add(&horizontal).add(&vertical),
            direction: self.scope.forward,
        }
    }
}

/// Perspective projection: all rays start at the camera position and
/// fan out through the view plane at the focal distance.
pub struct PerspectiveLens {
    pub view_port: ViewPort,
    pub scope: Scope,
    pub focal_length: i64,
}

/// The unnormalized perspective direction for screen position `(x, y)`.
pub open spec fn persp_sum(l: PerspectiveLens, x: int, y: int) -> Vector {
    let f = vec3(
        fx_mul(l.focal_length as int, l.scope.forward.x as int),
        fx_mul(l.focal_length as int, l.scope.forward.y as int),
        fx_mul(l.focal_length as int, l.scope.forward.z as int),
    );
    let h = port_offset(l.scope.right, x, l.view_port.width as int);
    let v = port_offset(l.scope.up, y, l.view_port.height as int);
    vec3(f.x + h.x + v.x, f.y + h.y + v.y, f.z + h.z + v.z)
}

impl PerspectiveLens {
    pub fn new(
        width: i64,
        image_width: u32,
        image_height: u32,
        scope: Scope,
        focal_length: i64,
    ) -> (r: PerspectiveLens)
        requires
            scope_wf(scope),
            0 < image_width,
            image_height <= 0x7fff,
            0 <= width <= VIEW_LIMIT,
            0 <= focal_length <= FOCAL_LIMIT,
            port_height(width as int, image_width as int, image_height as int) <= VIEW_LIMIT,
        ensures
            r.scope == scope,
            r.view_port.width == width,
            r.view_port.height == port_height(
                width as int,
                image_width as int,
                image_height as int,
            ),
            r.focal_length == focal_length,
            r.wf(),
    {
        let height: i64 = derive_height(width, image_width, image_height);
        PerspectiveLens { view_port: ViewPort { width, height }, scope, focal_length }
    }
}

impl Lens for PerspectiveLens {
    open spec fn wf(&self) -> bool {
        viewport_wf(self.view_port) && scope_wf(self.scope) && 0 <= self.focal_length
            <= FOCAL_LIMIT
    }

    open spec fn ray_origin(&self, x: int, y: int) -> Vector {
        self.scope.position
    }

    /// The summed direction normalized; a degenerate zero sum (possible
    /// only at a zero focal length) falls back to the forward axis.
    open spec fn ray_direction(&self, x: int, y: int) -> Vector {
        let s = persp_sum(*self, x, y);
        if s == (vec3(0, 0, 0)) {
            self.scope.forward
        } else {
            vec3(norm_x(s), norm_y(s), norm_z(s))
        }
    }

    fn generate_light_ray(&self, x: i64, y: i64) -> (r: Ray) {
        proof {
            lemma_fx_mul_bounds(self.focal_length as int, self.scope.forward.x as int,
                FOCAL_LIMIT as int, 0x1_0000);
            lemma_fx_mul_bounds(self.focal_length as int, self.scope.forward.y as int,
                FOCAL_LIMIT as int, 0x1_0000);
            lemma_fx_mul_bounds(self.focal_length as int, self.scope.forward.z as int,
                FOCAL_LIMIT as int, 0x1_0000);
        }
        let forward: Vector = self.scope.forward.scale(self.focal_length);
        let horizontal: Vector = offset_along(&self.scope.right, x, self.view_port.width);
        let vertical: Vector = offset_along(&self.scope.up, y, self.view_port.height);
        let sum: Vector = forward.add(&horizontal).add(&vertical);
        proof {
            assert(fx_mul(self.focal_length as int, self.scope.forward.x as int) == fx_mul(
                self.scope.forward.x as int,
                self.focal_length as int,
            )) by {
                crate::fixed::lemma_fx_mul_comm(
                    self.scope.forward.x as int,
                    self.focal_length as int,
                );
            }
            assert(fx_mul(self.focal_length as int, self.scope.forward.y as int) == fx_mul(
                self.scope.forward.y as int,
                self.focal_length as int,
            )) by {
                crate::fixed::lemma_fx_mul_comm(
                    self.scope.forward.y as int,
                    self.focal_length as int,
                );
            }
            assert(fx_mul(self.focal_length as int, self.scope.forward.z as int) == fx_mul(
                self.scope.forward.z as int,
                self.focal_length as int,
            )) by {
                crate::fixed::lemma_fx_mul_comm(
                    self.scope.forward.z as int,
                    self.focal_length as int,
                );
            }
            assert(sum == persp_sum(*self, x as int, y as int));
        }
        if sum.x == 0 && sum.y == 0 && sum.z == 0 {
            Ray { position: self.scope.position, direction: self.scope.forward }
        } else {
            let direction: Vector = sum.normalize();
            Ray { position: self.scope.position, direction }
        }
    }
}

} // verus!
