//! Spheres: quadratic ray intersection, smaller root first.

use vstd::prelude::*;
use crate::fixed::{
    fdiv, fmul, fsqrt, fp_div, fp_mul, fp_sqrt, lemma_fdiv_bound, lemma_fmul_bound,
    CMAX, OMAX, PMAX, ONE,
};
use crate::objects::{opt_hit, HitV, Intersection};
use crate::ray::{ray_at, ray_wf, Ray, RayV};
use crate::vec3::{
    in_box, lemma_dot_bound, lemma_tdiv_lower, v_dot, v_sub, vnoz, Vector3D, V3,
};

verus! {

/// Mathematical model of a sphere.
pub struct SphereV {
    pub center: V3,
    pub radius: int,
}

/// A sphere given by center and radius.
#[derive(Clone, Copy, PartialEq, Eq, Structural, Debug)]
pub struct Sphere {
    pub center: Vector3D,
    pub radius: i64,
}

impl View for Sphere {
    type V = SphereV;

    open spec fn view(&self) -> SphereV {
        SphereV { center: self.center@, radius: self.radius as int }
    }
}

/// Coordinate bounds every scene primitive obeys.
pub open spec fn sphere_wf(s: SphereV) -> bool {
    &&& in_box(s.center, CMAX as int)
    &&& -(CMAX as int) <= s.radius <= CMAX as int
}

/// The nearest forward sphere hit: solve `|O + tD - C|^2 = r^2`, reject a
/// negative discriminant, take the smaller root, reject `t <= 0`, and guard
/// the hit point into the `PMAX` box. The normal points from the center
/// through the hit.
pub open spec fn sphere_hit(s: SphereV, r: RayV) -> Option<HitV> {
    let oc: V3 = v_sub(r.origin, s.center);
    let a: int = v_dot(r.dir, r.dir);
    let b: int = 2 * v_dot(oc, r.dir);
    let c: int = v_dot(oc, oc) - fmul(s.radius, s.radius);
    let disc: int = fmul(b, b) - 4 * fmul(a, c);
    if disc < 0 {
        None
    } else {
        let t: int = fdiv(-b - fsqrt(disc), 2 * a);
        if t > 0 {
            let p: V3 = ray_at(r, t);
            if in_box(p, PMAX as int) {
                Some(HitV { t, point: p, normal: vnoz(v_sub(p, s.center)) })
            } else {
                None
            }
        } else {
            None
        }
    }
}

/// A sphere's outward normal at a surface point.
pub open spec fn sphere_normal(s: SphereV, p: V3) -> V3 {
    vnoz(v_sub(p, s.center))
}

impl Sphere {
    pub fn new(center: Vector3D, radius: i64) -> (s: Sphere)
        ensures
            s@ == (SphereV { center: center@, radius: radius as int }),
    {
        Sphere { center, radius }
    }

    /// The nearest forward hit of `ray` against this sphere, if any.
    pub fn intersect(&self, ray: &Ray) -> (res: Option<Intersection>)
        requires
            sphere_wf(self@),
            ray_wf(ray@),
            in_box(ray@.origin, OMAX as int),
        ensures
            opt_hit(res) == sphere_hit(self@, ray@),
    {
        let oc: Vector3D = ray.origin.sub(&self.center);
        proof {
            lemma_dot_bound(ray@.dir, ray@.dir, 4096, 4096);
            lemma_dot_bound(oc@, ray@.dir, 0x2000_0000, 4096);
            lemma_dot_bound(oc@, oc@, 0x2000_0000, 0x2000_0000);
            lemma_fmul_bound(self@.radius, self@.radius, CMAX as int, CMAX as int);
            lemma_tdiv_lower(ray@.dir.x * ray@.dir.x + ray@.dir.y * ray@.dir.y
                + ray@.dir.z * ray@.dir.z, ONE as int, 1024);
        }
        let a: i64 = ray.direction.dot(&ray.direction);
        let b: i64 = 2 * oc.dot(&ray.direction);
        let c: i64 = oc.dot(&oc) - fp_mul(self.radius, self.radius);
        proof {
            lemma_fmul_bound(b as int, b as int, 0xC000_0000, 0xC000_0000);
            lemma_fmul_bound(a as int, c as int, 12288, 0x2_4000_0000_0000);
        }
        let disc: i64 = fp_mul(b, b) - 4 * fp_mul(a, c);
        if disc < 0 {
            None
        } else {
            let sq: i64 = fp_sqrt(disc);
            proof {
                assert(sq as int <= 0x8_0000_0000) by (nonlinear_arith)
                    requires
                        0 <= sq as int,
                        (sq as int) * (sq as int) <= (disc as int) * 4096,
                        disc as int <= 0x24_0000_0000_0000,
                ;
                lemma_fdiv_bound(-(b as int) - sq as int, 2 * (a as int), 0x10_0000_0000);
            }
            let t: i64 = fp_div(-b - sq, 2 * a);
            if t > 0 {
                let p: Vector3D = ray.point_at(t);
                if -PMAX <= p.x && p.x <= PMAX && -PMAX <= p.y && p.y <= PMAX && -PMAX <= p.z
                    && p.z <= PMAX {
                    let normal: Vector3D = p.sub(&self.center).normalize_or_zero();
                    Some(Intersection { t, point: p, normal })
                } else {
                    None
                }
            } else {
                None
            }
        }
    }

    /// The outward normal at a surface point.
    pub fn normal(&self, point: &Vector3D) -> (n: Vector3D)
        requires
            sphere_wf(self@),
            in_box(point@, PMAX as int),
        ensures
            n@ == sphere_normal(self@, point@),
    {
        point.sub(&self.center).normalize_or_zero()
    }
}

} // verus!
