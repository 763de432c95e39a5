//! Finite capped cylinders: the lateral quadratic (axis component removed)
//! plus two disk caps, keeping the smallest positive parameter.

use vstd::prelude::*;
use crate::fixed::{
    fdiv, fmul, fsqrt, fp_div, fp_mul, fp_sqrt, lemma_fdiv_bound, lemma_fmul_bound, CMAX, OMAX,
    PMAX, ONE,
};
use crate::objects::{opt_hit, HitV, Intersection};
use crate::ray::{ray_at, ray_wf, Ray, RayV};
use crate::vec3::{
    in_box, lemma_dot_bound, lemma_scale_bound, v_add, v_dot, v_neg, v_scale, v_sub, vlen, vnoz,
    zerov, Vector3D, V3,
};

verus! {

/// Mathematical model of a capped cylinder.
pub struct CylinderV {
    pub center: V3,
    pub axis: V3,
    pub radius: int,
    pub height: int,
}

/// A capped cylinder: base-disk center, unit axis (normalized by `new`),
/// radius, and height along the axis.
#[derive(Clone, Copy, PartialEq, Eq, Structural, Debug)]
pub struct Cylinder {
    pub center: Vector3D,
    pub axis: Vector3D,
    pub radius: i64,
    pub height: i64,
}

impl View for Cylinder {
    type V = CylinderV;

    open spec fn view(&self) -> CylinderV {
        CylinderV {
            center: self.center@,
            axis: self.axis@,
            radius: self.radius as int,
            height: self.height as int,
        }
    }
}

/// Coordinate bounds and the normalized axis every scene cylinder obeys.
pub open spec fn cylinder_wf(c: CylinderV) -> bool {
    &&& in_box(c.center, CMAX as int)
    &&& in_box(c.axis, ONE as int)
    &&& -(CMAX as int) <= c.radius <= CMAX as int
    &&& -(CMAX as int) <= c.height <= CMAX as int
}

/// A lateral candidate at parameter `t`: it replaces `best` when it is
/// forward, nearer, projects within the cylinder's height span, and its point
/// passes the `PMAX` guard. The normal points from the axis through the hit.
pub open spec fn cyl_lateral(cy: CylinderV, r: RayV, t: int, best: Option<HitV>) -> Option<HitV> {
    let better: bool = match best {
        Option::None => true,
        Option::Some(h) => t < h.t,
    };
    if t > 0 && better {
        let p: V3 = ray_at(r, t);
        let hc: int = v_dot(v_sub(p, cy.center), cy.axis);
        if in_box(p, PMAX as int) && 0 <= hc <= cy.height {
            Some(
                HitV {
                    t,
                    point: p,
                    normal: vnoz(v_sub(p, v_add(cy.center, v_scale(cy.axis, hc)))),
                },
            )
        } else {
            best
        }
    } else {
        best
    }
}

/// A cap candidate against the disk at `bc` with outward normal `bn`: the
/// ray/plane parameter replaces `best` when it is forward, nearer, lands
/// within `radius` of the disk center, and passes the `PMAX` guard. A ray
/// parallel to the disk plane is skipped (the float division would have
/// produced an infinite parameter, rejected just the same).
pub open spec fn cyl_cap(cy: CylinderV, r: RayV, bc: V3, bn: V3, best: Option<HitV>) -> Option<
    HitV,
> {
    let den: int = v_dot(r.dir, bn);
    if den == 0 {
        best
    } else {
        let t: int = fdiv(v_dot(v_sub(bc, r.origin), bn), den);
        let better: bool = match best {
            Option::None => true,
            Option::Some(h) => t < h.t,
        };
        if t > 0 && better {
            let p: V3 = ray_at(r, t);
            if in_box(p, PMAX as int) && vlen(v_sub(p, bc)) <= cy.radius {
                Some(HitV { t, point: p, normal: bn })
            } else {
                best
            }
        } else {
            best
        }
    }
}

/// The nearest forward cylinder hit: up to two lateral roots (skipped when
/// the lateral quadratic degenerates, that is when the ray parallels the
/// axis) and the two caps, in that order, keeping the smallest positive
/// parameter.
pub open spec fn cylinder_hit(cy: CylinderV, r: RayV) -> Option<HitV> {
    let oc: V3 = v_sub(r.origin, cy.center);
    let ad: int = v_dot(r.dir, cy.axis);
    let ao: int = v_dot(oc, cy.axis);
    let a: int = v_dot(r.dir, r.dir) - fmul(ad, ad);
    let b: int = 2 * (v_dot(r.dir, oc) - fmul(ad, ao));
    let c: int = v_dot(oc, oc) - fmul(ao, ao) - fmul(cy.radius, cy.radius);
    let disc: int = fmul(b, b) - 4 * fmul(a, c);
    let best1: Option<HitV> = if disc >= 0 && a != 0 {
        cyl_lateral(cy, r, fdiv(-b - fsqrt(disc), 2 * a), None)
    } else {
        None
    };
    let best2: Option<HitV> = if disc >= 0 && a != 0 {
        cyl_lateral(cy, r, fdiv(-b + fsqrt(disc), 2 * a), best1)
    } else {
        best1
    };
    let best3: Option<HitV> = cyl_cap(cy, r, cy.center, v_neg(cy.axis), best2);
    cyl_cap(cy, r, v_add(cy.center, v_scale(cy.axis, cy.height)), cy.axis, best3)
}

/// The cylinder normal at a surface point: a cap's outward axis when the
/// point projects onto a cap plane, else radially out from the axis.
pub open spec fn cylinder_normal(cy: CylinderV, p: V3) -> V3 {
    let hc: int = v_dot(v_sub(p, cy.center), cy.axis);
    if hc == 0 {
        v_neg(cy.axis)
    } else if hc == cy.height {
        cy.axis
    } else {
        vnoz(v_sub(p, v_add(cy.center, v_scale(cy.axis, hc))))
    }
}

/// A lateral candidate only ever adds a guarded, forward hit.
pub proof fn lemma_cyl_lateral_ok(cy: CylinderV, r: RayV, t: int, best: Option<HitV>)
    requires
        crate::objects::hit_ok(best),
    ensures
        crate::objects::hit_ok(cyl_lateral(cy, r, t, best)),
{
}

/// A cap candidate only ever adds a guarded, forward hit.
pub proof fn lemma_cyl_cap_ok(cy: CylinderV, r: RayV, bc: V3, bn: V3, best: Option<HitV>)
    requires
        crate::objects::hit_ok(best),
    ensures
        crate::objects::hit_ok(cyl_cap(cy, r, bc, bn, best)),
{
}

/// Every cylinder hit is guarded and forward.
pub proof fn lemma_cylinder_hit_ok(cy: CylinderV, r: RayV)
    ensures
        crate::objects::hit_ok(cylinder_hit(cy, r)),
{
    let oc: V3 = v_sub(r.origin, cy.center);
    let ad: int = v_dot(r.dir, cy.axis);
    let ao: int = v_dot(oc, cy.axis);
    let a: int = v_dot(r.dir, r.dir) - fmul(ad, ad);
    let b: int = 2 * (v_dot(r.dir, oc) - fmul(ad, ao));
    let c: int = v_dot(oc, oc) - fmul(ao, ao) - fmul(cy.radius, cy.radius);
    let disc: int = fmul(b, b) - 4 * fmul(a, c);
    let best1: Option<HitV> = if disc >= 0 && a != 0 {
        cyl_lateral(cy, r, fdiv(-b - fsqrt(disc), 2 * a), None)
    } else {
        None
    };
    let best2: Option<HitV> = if disc >= 0 && a != 0 {
        cyl_lateral(cy, r, fdiv(-b + fsqrt(disc), 2 * a), best1)
    } else {
        best1
    };
    let best3: Option<HitV> = cyl_cap(cy, r, cy.center, v_neg(cy.axis), best2);
    if disc >= 0 && a != 0 {
        lemma_cyl_lateral_ok(cy, r, fdiv(-b - fsqrt(disc), 2 * a), None);
        lemma_cyl_lateral_ok(cy, r, fdiv(-b + fsqrt(disc), 2 * a), best1);
    }
    lemma_cyl_cap_ok(cy, r, cy.center, v_neg(cy.axis), best2);
    lemma_cyl_cap_ok(cy, r, v_add(cy.center, v_scale(cy.axis, cy.height)), cy.axis, best3);
}

impl Cylinder {
    /// Builds a cylinder, normalizing the axis, which must be nonzero.
    pub fn new(center: Vector3D, axis: Vector3D, radius: i64, height: i64) -> (c: Cylinder)
        requires
            axis@ != zerov(),
            in_box(axis@, 0x1000_0000_0000_0000),
        ensures
            c@.center == center@,
            c@.axis == crate::vec3::vnorm(axis@),
            c@.radius == radius as int,
            c@.height == height as int,
            in_box(c@.axis, ONE as int),
    {
        Cylinder { center, axis: axis.normalize(), radius, height }
    }

    /// One lateral candidate, folded into the best hit so far.
    fn lateral_candidate(&self, ray: &Ray, t: i64, best: Option<Intersection>) -> (res: Option<
        Intersection,
    >)
        requires
            cylinder_wf(self@),
            ray_wf(ray@),
            in_box(ray@.origin, OMAX as int),
            -0x1000_0000_0000_0000 <= t <= 0x1000_0000_0000_0000,
        ensures
            opt_hit(res) == cyl_lateral(self@, ray@, t as int, opt_hit(best)),
    {
        let better: bool = match best {
            Option::None => true,
            Option::Some(h) => t < h.t,
        };
        if t > 0 && better {
            let p: Vector3D = ray.point_at(t);
            if -PMAX <= p.x && p.x <= PMAX && -PMAX <= p.y && p.y <= PMAX && -PMAX <= p.z
                && p.z <= PMAX {
                proof {
                    lemma_dot_bound(v_sub(p@, self@.center), self@.axis, 0x8000_0000, 4096);
                }
                let hc: i64 = p.sub(&self.center).dot(&self.axis);
                if 0 <= hc && hc <= self.height {
                    proof {
                        lemma_scale_bound(self@.axis, hc as int, 4096, CMAX as int);
                    }
                    let axis_point: Vector3D = self.center.add(&self.axis.scale(hc));
                    let normal: Vector3D = p.sub(&axis_point).normalize_or_zero();
                    Some(Intersection { t, point: p, normal })
                } else {
                    best
                }
            } else {
                best
            }
        } else {
            best
        }
    }

    /// One cap candidate, folded into the best hit so far.
    fn cap_candidate(&self, ray: &Ray, bc: Vector3D, bn: Vector3D, best: Option<Intersection>)
        -> (res: Option<Intersection>)
        requires
            cylinder_wf(self@),
            ray_wf(ray@),
            in_box(ray@.origin, OMAX as int),
            in_box(bc@, 0x4000_0000),
            in_box(bn@, ONE as int),
        ensures
            opt_hit(res) == cyl_cap(self@, ray@, bc@, bn@, opt_hit(best)),
    {
        proof {
            lemma_dot_bound(ray@.dir, bn@, 4096, 4096);
            lemma_dot_bound(v_sub(bc@, ray@.origin), bn@, 0x5000_0000, 4096);
        }
        let den: i64 = ray.direction.dot(&bn);
        if den == 0 {
            best
        } else {
            proof {
                lemma_fdiv_bound(v_dot(v_sub(bc@, ray@.origin), bn@), den as int, 0xF000_0000);
            }
            let t: i64 = fp_div(bc.sub(&ray.origin).dot(&bn), den);
            let better: bool = match best {
                Option::None => true,
                Option::Some(h) => t < h.t,
            };
            if t > 0 && better {
                let p: Vector3D = ray.point_at(t);
                if -PMAX <= p.x && p.x <= PMAX && -PMAX <= p.y && p.y <= PMAX && -PMAX <= p.z
                    && p.z <= PMAX {
                    let dist: i64 = p.sub(&bc).length();
                    if dist <= self.radius {
                        Some(Intersection { t, point: p, normal: bn })
                    } else {
                        best
                    }
                } else {
                    best
                }
            } else {
                best
            }
        }
    }

    /// The nearest forward hit of `ray` against this cylinder, if any.
    pub fn intersect(&self, ray: &Ray) -> (res: Option<Intersection>)
        requires
            cylinder_wf(self@),
            ray_wf(ray@),
            in_box(ray@.origin, OMAX as int),
        ensures
            opt_hit(res) == cylinder_hit(self@, ray@),
    {
        let oc: Vector3D = ray.origin.sub(&self.center);
        proof {
            lemma_dot_bound(ray@.dir, self@.axis, 4096, 4096);
            lemma_dot_bound(oc@, self@.axis, 0x2000_0000, 4096);
            lemma_dot_bound(ray@.dir, ray@.dir, 4096, 4096);
            lemma_dot_bound(ray@.dir, oc@, 4096, 0x2000_0000);
            lemma_dot_bound(oc@, oc@, 0x2000_0000, 0x2000_0000);
        }
        let ad: i64 = ray.direction.dot(&self.axis);
        let ao: i64 = oc.dot(&self.axis);
        proof {
            lemma_fmul_bound(ad as int, ad as int, 12288, 12288);
            lemma_fmul_bound(ad as int, ao as int, 12288, 0x6000_0000);
            lemma_fmul_bound(ao as int, ao as int, 0x6000_0000, 0x6000_0000);
            lemma_fmul_bound(self@.radius, self@.radius, CMAX as int, CMAX as int);
        }
        let a: i64 = ray.direction.dot(&ray.direction) - fp_mul(ad, ad);
        let b: i64 = 2 * (ray.direction.dot(&oc) - fp_mul(ad, ao));
        let c: i64 = oc.dot(&oc) - fp_mul(ao, ao) - fp_mul(self.radius, self.radius);
        proof {
            lemma_fmul_bound(b as int, b as int, 0x3_0000_0000, 0x3_0000_0000);
            lemma_fmul_bound(a as int, c as int, 49152, 0x4_0000_0000_0000);
        }
        let disc: i64 = fp_mul(b, b) - 4 * fp_mul(a, c);
        let mut best: Option<Intersection> = None;
        if disc >= 0 && a != 0 {
            let sq: i64 = fp_sqrt(disc);
            proof {
                assert(sq as int <= 0x10_0000_0000) by (nonlinear_arith)
                    requires
                        0 <= sq as int,
                        (sq as int) * (sq as int) <= (disc as int) * 4096,
                        disc as int <= 0x150_0000_0000_0000,
                ;
                lemma_fdiv_bound(-(b as int) - sq as int, 2 * (a as int), 0x13_0000_0000);
                lemma_fdiv_bound(-(b as int) + sq as int, 2 * (a as int), 0x13_0000_0000);
            }
            let t1: i64 = fp_div(-b - sq, 2 * a);
            best = self.lateral_candidate(ray, t1, best);
            let t2: i64 = fp_div(-b + sq, 2 * a);
            best = self.lateral_candidate(ray, t2, best);
        }
        let bn0: Vector3D = self.axis.neg();
        best = self.cap_candidate(ray, self.center, bn0, best);
        proof {
            lemma_scale_bound(self@.axis, self@.height, 4096, CMAX as int);
        }
        let top: Vector3D = self.center.add(&self.axis.scale(self.height));
        best = self.cap_candidate(ray, top, self.axis, best);
        best
    }

    /// The normal at a surface point: cap planes get their outward axis, the
    /// lateral surface points radially out from the axis.
    pub fn normal(&self, point: &Vector3D) -> (n: Vector3D)
        requires
            cylinder_wf(self@),
            in_box(point@, PMAX as int),
        ensures
            n@ == cylinder_normal(self@, point@),
    {
        proof {
            lemma_dot_bound(v_sub(point@, self@.center), self@.axis, 0x8000_0000, 4096);
        }
        let hc: i64 = point.sub(&self.center).dot(&self.axis);
        if hc == 0 {
            self.axis.neg()
        } else if hc == self.height {
            self.axis
        } else {
            proof {
                lemma_scale_bound(self@.axis, hc as int, 4096, 0x1_8000_0000);
            }
            let axis_point: Vector3D = self.center.add(&self.axis.scale(hc));
            point.sub(&axis_point).normalize_or_zero()
        }
    }
}

} // verus!
