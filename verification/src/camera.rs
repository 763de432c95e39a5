//! The pinhole camera: maps normalized image-plane coordinates to world rays
//! through a look-at orthonormal basis.
//!
//! The vertical field of view enters as `half_height`, the tangent of half
//! the vertical view angle in fixed point (the tangent itself is
//! transcendental, so callers compute it and hand in the fixed-point value).

use vstd::prelude::*;
use crate::fixed::{fmul, fp_mul, lemma_fmul_bound, CMAX, ONE};
use crate::ray::{ray_wf, Ray, RayV};
use crate::vec3::{
    in_box, lemma_cross_bound, lemma_scale_bound, lemma_vnorm_unitish, unitish, v_add, v_cross,
    v_neg, v_scale, v_sub, vnorm, zerov, Vector3D, V3,
};

verus! {

/// Mathematical model of a camera.
pub struct CameraV {
    pub position: V3,
    pub look_at: V3,
    pub up: V3,
    pub half_height: int,
    pub aspect_ratio: int,
}

/// A camera: position, look-at target, up hint, the tangent of half the
/// vertical field of view, and the width/height aspect ratio, all fixed
/// point.
#[derive(Clone, Copy, PartialEq, Eq, Structural, Debug)]
pub struct Camera {
    pub position: Vector3D,
    pub look_at: Vector3D,
    pub up: Vector3D,
    pub half_height: i64,
    pub aspect_ratio: i64,
}

impl View for Camera {
    type V = CameraV;

    open spec fn view(&self) -> CameraV {
        CameraV {
            position: self.position@,
            look_at: self.look_at@,
            up: self.up@,
            half_height: self.half_height as int,
            aspect_ratio: self.aspect_ratio as int,
        }
    }
}

/// The basis vector pointing from the look-at target to the camera; the
/// camera looks down its negation.
pub open spec fn cam_w(c: CameraV) -> V3 {
    vnorm(v_sub(c.position, c.look_at))
}

/// Coordinate bounds, a position distinct from the target, and an up hint not
/// colinear with the view direction (else the basis degenerates): what ray
/// generation requires.
pub open spec fn camera_wf(c: CameraV) -> bool {
    &&& in_box(c.position, CMAX as int)
    &&& in_box(c.look_at, CMAX as int)
    &&& in_box(c.up, CMAX as int)
    &&& -(CMAX as int) <= c.half_height <= CMAX as int
    &&& -(CMAX as int) <= c.aspect_ratio <= CMAX as int
    &&& c.position != c.look_at
    &&& v_cross(c.up, cam_w(c)) != zerov()
}

/// The unnormalized ray direction for image-plane coordinates `(s, t)`:
/// lower-left corner plus the scaled horizontal and vertical spans, minus the
/// position. Should rounding ever cancel it to zero, the view axis stands in,
/// so that construction of the ray stays meaningful.
pub open spec fn cam_dir(c: CameraV, s: int, t: int) -> V3 {
    let w: V3 = cam_w(c);
    let u: V3 = vnorm(v_cross(c.up, w));
    let v: V3 = v_cross(w, u);
    let hw: int = fmul(c.aspect_ratio, c.half_height);
    let ll: V3 = v_sub(v_sub(v_sub(c.position, v_scale(u, hw)), v_scale(v, c.half_height)), w);
    let horizontal: V3 = v_scale(v_scale(u, 2 * (ONE as int)), hw);
    let vertical: V3 = v_scale(v_scale(v, 2 * (ONE as int)), c.half_height);
    let d: V3 = v_sub(
        v_add(v_add(ll, v_scale(horizontal, s)), v_scale(vertical, t)),
        c.position,
    );
    if d == zerov() {
        v_neg(w)
    } else {
        d
    }
}

/// The ray for image-plane coordinates `(s, t)`: from the camera position,
/// along the normalized generated direction.
pub open spec fn cam_ray(c: CameraV, s: int, t: int) -> RayV {
    RayV { origin: c.position, dir: vnorm(cam_dir(c, s, t)) }
}

impl Camera {
    pub fn new(position: Vector3D, look_at: Vector3D, up: Vector3D, half_height: i64,
        aspect_ratio: i64) -> (c: Camera)
        ensures
            c@ == (CameraV {
                position: position@,
                look_at: look_at@,
                up: up@,
                half_height: half_height as int,
                aspect_ratio: aspect_ratio as int,
            }),
    {
        Camera { position, look_at, up, half_height, aspect_ratio }
    }

    /// The ray through normalized image-plane coordinates `(s, t)`, each in
    /// `[0, ONE]`.
    pub fn generate_ray(&self, s: i64, t: i64) -> (r: Ray)
        requires
            camera_wf(self@),
            0 <= s <= ONE,
            0 <= t <= ONE,
        ensures
            r@ == cam_ray(self@, s as int, t as int),
            ray_wf(r@),
            r@.origin == self@.position,
    {
        proof {
            lemma_vnorm_unitish(v_sub(self@.position, self@.look_at));
        }
        let w: Vector3D = self.position.sub(&self.look_at).normalize();
        proof {
            lemma_cross_bound(self@.up, w@, CMAX as int, 4096);
            lemma_vnorm_unitish(v_cross(self@.up, cam_w(self@)));
        }
        let u: Vector3D = self.up.cross(&w).normalize();
        proof {
            lemma_cross_bound(w@, u@, 4096, 4096);
        }
        let v: Vector3D = w.cross(&u);
        proof {
            lemma_fmul_bound(self@.aspect_ratio, self@.half_height, CMAX as int, CMAX as int);
        }
        let hw: i64 = fp_mul(self.aspect_ratio, self.half_height);
        proof {
            lemma_scale_bound(u@, hw as int, 4096, 0x10_0000_0000);
            lemma_scale_bound(v@, self@.half_height, 8192, CMAX as int);
        }
        let ll: Vector3D = self.position.sub(&u.scale(hw)).sub(&v.scale(self.half_height)).sub(&w);
        proof {
            lemma_scale_bound(u@, 2 * (ONE as int), 4096, 8192);
            lemma_scale_bound(v_scale(u@, 2 * (ONE as int)), hw as int, 8192, 0x10_0000_0000);
            lemma_scale_bound(v@, 2 * (ONE as int), 8192, 8192);
            lemma_scale_bound(v_scale(v@, 2 * (ONE as int)), self@.half_height, 16384,
                CMAX as int);
        }
        let horizontal: Vector3D = u.scale(2 * ONE).scale(hw);
        let vertical: Vector3D = v.scale(2 * ONE).scale(self.half_height);
        proof {
            lemma_scale_bound(horizontal@, s as int, 0x20_0000_0000, 4096);
            lemma_scale_bound(vertical@, t as int, 0x2000_0000, 4096);
        }
        let d: Vector3D = ll.add(&horizontal.scale(s)).add(&vertical.scale(t)).sub(&self.position);
        if d.x == 0 && d.y == 0 && d.z == 0 {
            Ray::new(self.position, w.neg())
        } else {
            Ray::new(self.position, d)
        }
    }

    /// Whether this camera obeys the bounds and non-degeneracy conditions ray
    /// generation requires.
    pub fn well_formed(&self) -> (r: bool)
        ensures
            r == camera_wf(self@),
    {
        let bounds: bool = -CMAX <= self.position.x && self.position.x <= CMAX && -CMAX
            <= self.position.y && self.position.y <= CMAX && -CMAX <= self.position.z
            && self.position.z <= CMAX && -CMAX <= self.look_at.x && self.look_at.x <= CMAX
            && -CMAX <= self.look_at.y && self.look_at.y <= CMAX && -CMAX <= self.look_at.z
            && self.look_at.z <= CMAX && -CMAX <= self.up.x && self.up.x <= CMAX && -CMAX
            <= self.up.y && self.up.y <= CMAX && -CMAX <= self.up.z && self.up.z <= CMAX && -CMAX
            <= self.half_height && self.half_height <= CMAX && -CMAX <= self.aspect_ratio
            && self.aspect_ratio <= CMAX;
        if !bounds {
            return false;
        }
        if self.position.x == self.look_at.x && self.position.y == self.look_at.y
            && self.position.z == self.look_at.z {
            return false;
        }
        proof {
            lemma_vnorm_unitish(v_sub(self@.position, self@.look_at));
        }
        let w: Vector3D = self.position.sub(&self.look_at).normalize();
        let c: Vector3D = self.up.cross(&w);
        !(c.x == 0 && c.y == 0 && c.z == 0)
    }
}

} // verus!
