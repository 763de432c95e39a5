//! Rays: an origin and a direction that construction always normalizes, so
//! every caller may rely on a nearly unit direction.

use vstd::prelude::*;
use crate::vec3::{
    in_box, lemma_scale_bound, unitish, v_add, v_scale, vnorm, zerov, Vector3D, V3,
};

verus! {

/// Mathematical model of a ray.
pub struct RayV {
    pub origin: V3,
    pub dir: V3,
}

/// A ray; `new` normalizes the direction, and the intersection routines
/// require that property (`ray_wf`).
#[derive(Clone, Copy, PartialEq, Eq, Structural, Debug)]
pub struct Ray {
    pub origin: Vector3D,
    pub direction: Vector3D,
}

impl View for Ray {
    type V = RayV;

    open spec fn view(&self) -> RayV {
        RayV { origin: self.origin@, dir: self.direction@ }
    }
}

/// What construction guarantees of every ray: a nearly unit direction.
pub open spec fn ray_wf(r: RayV) -> bool {
    unitish(r.dir)
}

/// The point the ray reaches at parameter `t`.
pub open spec fn ray_at(r: RayV, t: int) -> V3 {
    v_add(r.origin, v_scale(r.dir, t))
}

impl Ray {
    /// Builds a ray, normalizing the direction. The direction must be
    /// nonzero: normalizing the zero vector is a precondition violation.
    pub fn new(origin: Vector3D, direction: Vector3D) -> (r: Ray)
        requires
            direction@ != zerov(),
            in_box(direction@, 0x1000_0000_0000_0000),
        ensures
            r@ == (RayV { origin: origin@, dir: vnorm(direction@) }),
            ray_wf(r@),
    {
        Ray { origin, direction: direction.normalize() }
    }

    /// The point at parameter `t`; no sign restriction, callers interpret
    /// negative `t` as behind the origin and reject it themselves.
    pub fn point_at(&self, t: i64) -> (p: Vector3D)
        requires
            ray_wf(self@),
            in_box(self@.origin, 0x1000_0000_0000_0000),
            -0x1000_0000_0000_0000 <= t <= 0x1000_0000_0000_0000,
        ensures
            p@ == ray_at(self@, t as int),
    {
        proof {
            lemma_scale_bound(self@.dir, t as int, 4096, 0x1000_0000_0000_0000);
        }
        self.origin.add(&self.direction.scale(t))
    }
}

} // verus!
