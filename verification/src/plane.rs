//! Planes: a point and a unit normal, ray intersection by projecting onto the
//! normal.

use vstd::prelude::*;
use crate::fixed::{fdiv, fp_div, lemma_fdiv_bound, CMAX, OMAX, PMAX, ONE};
use crate::objects::{opt_hit, HitV, Intersection};
use crate::ray::{ray_at, ray_wf, Ray, RayV};
use crate::vec3::{in_box, lemma_dot_bound, unitish, v_dot, v_sub, vnorm, zerov, Vector3D, V3};

verus! {

/// Mathematical model of a plane.
pub struct PlaneV {
    pub point: V3,
    pub normal: V3,
}

/// A plane given by a point on it and its normal; `new` normalizes the
/// normal.
#[derive(Clone, Copy, PartialEq, Eq, Structural, Debug)]
pub struct Plane {
    pub point: Vector3D,
    pub normal: Vector3D,
}

impl View for Plane {
    type V = PlaneV;

    open spec fn view(&self) -> PlaneV {
        PlaneV { point: self.point@, normal: self.normal@ }
    }
}

/// Coordinate bounds and the normalized normal every scene plane obeys.
pub open spec fn plane_wf(p: PlaneV) -> bool {
    &&& in_box(p.point, CMAX as int)
    &&& in_box(p.normal, ONE as int)
}

/// The forward plane hit: reject a ray parallel to the plane (the projection
/// of the direction onto the normal vanishes at this resolution), otherwise
/// `t` solves the projected linear equation; reject `t < 0`, and guard the
/// hit point into the `PMAX` box. The normal is the plane's own, regardless
/// of the hit point.
pub open spec fn plane_hit(pl: PlaneV, r: RayV) -> Option<HitV> {
    let denom: int = v_dot(r.dir, pl.normal);
    if denom == 0 {
        None
    } else {
        let t: int = fdiv(v_dot(v_sub(pl.point, r.origin), pl.normal), denom);
        if t >= 0 {
            let p: V3 = ray_at(r, t);
            if in_box(p, PMAX as int) {
                Some(HitV { t, point: p, normal: pl.normal })
            } else {
                None
            }
        } else {
            None
        }
    }
}

impl Plane {
    /// Builds a plane, normalizing the normal, which must be nonzero.
    pub fn new(point: Vector3D, normal: Vector3D) -> (p: Plane)
        requires
            normal@ != zerov(),
            in_box(normal@, 0x1000_0000_0000_0000),
        ensures
            p@ == (PlaneV { point: point@, normal: vnorm(normal@) }),
            unitish(p@.normal),
    {
        Plane { point, normal: normal.normalize() }
    }

    /// The nearest forward hit of `ray` against this plane, if any.
    pub fn intersect(&self, ray: &Ray) -> (res: Option<Intersection>)
        requires
            plane_wf(self@),
            ray_wf(ray@),
            in_box(ray@.origin, OMAX as int),
        ensures
            opt_hit(res) == plane_hit(self@, ray@),
    {
        proof {
            lemma_dot_bound(ray@.dir, self@.normal, 4096, 4096);
            lemma_dot_bound(v_sub(self@.point, ray@.origin), self@.normal, 0x2000_0000, 4096);
        }
        let denom: i64 = ray.direction.dot(&self.normal);
        if denom == 0 {
            None
        } else {
            let v: Vector3D = self.point.sub(&ray.origin);
            proof {
                lemma_fdiv_bound(v_dot(v@, self@.normal), denom as int, 0x6000_0000);
            }
            let t: i64 = fp_div(v.dot(&self.normal), denom);
            if t >= 0 {
                let p: Vector3D = ray.point_at(t);
                if -PMAX <= p.x && p.x <= PMAX && -PMAX <= p.y && p.y <= PMAX && -PMAX <= p.z
                    && p.z <= PMAX {
                    Some(Intersection { t, point: p, normal: self.normal })
                } else {
                    None
                }
            } else {
                None
            }
        }
    }

    /// The plane's normal, the same at every point.
    pub fn normal(&self, _point: &Vector3D) -> (n: Vector3D)
        ensures
            n@ == self@.normal,
    {
        self.normal
    }
}

} // verus!
