//! The polymorphic primitive: a closed sum over the four shape families, each
//! answering ray intersection and surface-normal queries, plus the
//! `Intersection` record those queries produce.

use vstd::prelude::*;
use crate::cube::{cube_hit, cube_normal, cube_wf, Cube, CubeV};
use crate::cylinder::{cylinder_hit, cylinder_normal, cylinder_wf, Cylinder, CylinderV};
use crate::fixed::{CMAX, OMAX, PMAX, ONE};
use crate::plane::{plane_hit, plane_wf, Plane, PlaneV};
use crate::ray::{ray_wf, Ray, RayV};
use crate::sphere::{sphere_hit, sphere_normal, sphere_wf, Sphere, SphereV};
use crate::vec3::{in_box, Vector3D, V3};

verus! {

/// Mathematical model of an intersection.
pub struct HitV {
    pub t: int,
    pub point: V3,
    pub normal: V3,
}

/// The nearest valid forward hit of a ray against a primitive: parametric
/// distance, world-space point, and surface normal.
#[derive(Clone, Copy, PartialEq, Eq, Structural, Debug)]
pub struct Intersection {
    pub t: i64,
    pub point: Vector3D,
    pub normal: Vector3D,
}

impl View for Intersection {
    type V = HitV;

    open spec fn view(&self) -> HitV {
        HitV { t: self.t as int, point: self.point@, normal: self.normal@ }
    }
}

/// The model of an optional intersection.
pub open spec fn opt_hit(o: Option<Intersection>) -> Option<HitV> {
    match o {
        Some(i) => Some(i@),
        None => None,
    }
}

/// Mathematical model of a primitive.
pub enum ObjV {
    Sphere(SphereV),
    Plane(PlaneV),
    Cube(CubeV),
    Cylinder(CylinderV),
}

/// A primitive: the closed sum of the four shape families. Each variant
/// answers ray intersection and normal queries by static dispatch.
#[derive(Clone, Copy, PartialEq, Eq, Structural, Debug)]
pub enum Object {
    Sphere(Sphere),
    Plane(Plane),
    Cube(Cube),
    Cylinder(Cylinder),
}

impl View for Object {
    type V = ObjV;

    open spec fn view(&self) -> ObjV {
        match *self {
            Object::Sphere(s) => ObjV::Sphere(s@),
            Object::Plane(p) => ObjV::Plane(p@),
            Object::Cube(c) => ObjV::Cube(c@),
            Object::Cylinder(c) => ObjV::Cylinder(c@),
        }
    }
}

/// The coordinate bounds (and normalized stored vectors) every scene
/// primitive obeys.
pub open spec fn obj_wf(o: ObjV) -> bool {
    match o {
        ObjV::Sphere(s) => sphere_wf(s),
        ObjV::Plane(p) => plane_wf(p),
        ObjV::Cube(c) => cube_wf(c),
        ObjV::Cylinder(c) => cylinder_wf(c),
    }
}

/// The nearest forward hit of a ray against a primitive.
pub open spec fn obj_hit(o: ObjV, r: RayV) -> Option<HitV> {
    match o {
        ObjV::Sphere(s) => sphere_hit(s, r),
        ObjV::Plane(p) => plane_hit(p, r),
        ObjV::Cube(c) => cube_hit(c, r),
        ObjV::Cylinder(c) => cylinder_hit(c, r),
    }
}

/// The surface normal of a primitive at a point.
pub open spec fn obj_normal(o: ObjV, p: V3) -> V3 {
    match o {
        ObjV::Sphere(s) => sphere_normal(s, p),
        ObjV::Plane(pl) => pl.normal,
        ObjV::Cube(c) => cube_normal(c, p),
        ObjV::Cylinder(c) => cylinder_normal(c, p),
    }
}

/// A well-guarded optional hit: its point lies in the `PMAX` box and its
/// parameter is nonnegative.
pub open spec fn hit_ok(o: Option<HitV>) -> bool {
    match o {
        Option::Some(h) => in_box(h.point, PMAX as int) && 0 <= h.t,
        Option::None => true,
    }
}

/// Every hit a primitive reports is guarded and forward.
pub proof fn lemma_obj_hit_ok(o: ObjV, r: RayV)
    ensures
        hit_ok(obj_hit(o, r)),
{
    match o {
        ObjV::Sphere(s) => {},
        ObjV::Plane(p) => {},
        ObjV::Cube(c) => {},
        ObjV::Cylinder(c) => {
            crate::cylinder::lemma_cylinder_hit_ok(c, r);
        },
    }
}

/// The normal a primitive reports at a guarded point stays within the box
/// normal's bias bound, one quantum above `ONE`.
pub proof fn lemma_obj_normal_bound(o: ObjV, p: V3)
    requires
        obj_wf(o),
        in_box(p, PMAX as int),
    ensures
        in_box(obj_normal(o, p), 4097),
{
    match o {
        ObjV::Sphere(s) => {
            crate::vec3::lemma_vnoz_box(crate::vec3::v_sub(p, s.center));
        },
        ObjV::Plane(pl) => {},
        ObjV::Cube(c) => {},
        ObjV::Cylinder(c) => {
            let hc: int = crate::vec3::v_dot(crate::vec3::v_sub(p, c.center), c.axis);
            crate::vec3::lemma_dot_bound(crate::vec3::v_sub(p, c.center), c.axis, 0x8000_0000,
                4096);
            crate::vec3::lemma_scale_bound(c.axis, hc, 4096, 0x1_8000_0000);
            crate::vec3::lemma_vnoz_box(
                crate::vec3::v_sub(
                    p,
                    crate::vec3::v_add(c.center, crate::vec3::v_scale(c.axis, hc)),
                ),
            );
        },
    }
}

impl Object {
    /// The nearest forward hit of `ray` against this primitive, if any.
    pub fn intersect(&self, ray: &Ray) -> (res: Option<Intersection>)
        requires
            obj_wf(self@),
            ray_wf(ray@),
            in_box(ray@.origin, OMAX as int),
        ensures
            opt_hit(res) == obj_hit(self@, ray@),
    {
        match self {
            Object::Sphere(s) => s.intersect(ray),
            Object::Plane(p) => p.intersect(ray),
            Object::Cube(c) => c.intersect(ray),
            Object::Cylinder(c) => c.intersect(ray),
        }
    }

    /// The surface normal at a point.
    pub fn normal(&self, point: &Vector3D) -> (n: Vector3D)
        requires
            obj_wf(self@),
            in_box(point@, PMAX as int),
        ensures
            n@ == obj_normal(self@, point@),
    {
        match self {
            Object::Sphere(s) => s.normal(point),
            Object::Plane(p) => p.normal(point),
            Object::Cube(c) => c.normal(point),
            Object::Cylinder(c) => c.normal(point),
        }
    }

    /// Whether this primitive obeys the coordinate bounds the renderer
    /// requires.
    pub fn well_formed(&self) -> (r: bool)
        ensures
            r == obj_wf(self@),
    {
        match self {
            Object::Sphere(s) => {
                -CMAX <= s.center.x && s.center.x <= CMAX && -CMAX <= s.center.y && s.center.y
                    <= CMAX && -CMAX <= s.center.z && s.center.z <= CMAX && -CMAX <= s.radius
                    && s.radius <= CMAX
            },
            Object::Plane(p) => {
                -CMAX <= p.point.x && p.point.x <= CMAX && -CMAX <= p.point.y && p.point.y <= CMAX
                    && -CMAX <= p.point.z && p.point.z <= CMAX && -ONE <= p.normal.x && p.normal.x
                    <= ONE && -ONE <= p.normal.y && p.normal.y <= ONE && -ONE <= p.normal.z
                    && p.normal.z <= ONE
            },
            Object::Cube(c) => {
                -CMAX <= c.min.x && c.min.x <= CMAX && -CMAX <= c.min.y && c.min.y <= CMAX && -CMAX
                    <= c.min.z && c.min.z <= CMAX && -CMAX <= c.max.x && c.max.x <= CMAX && -CMAX
                    <= c.max.y && c.max.y <= CMAX && -CMAX <= c.max.z && c.max.z <= CMAX
            },
            Object::Cylinder(c) => {
                -CMAX <= c.center.x && c.center.x <= CMAX && -CMAX <= c.center.y && c.center.y
                    <= CMAX && -CMAX <= c.center.z && c.center.z <= CMAX && -ONE <= c.axis.x
                    && c.axis.x <= ONE && -ONE <= c.axis.y && c.axis.y <= ONE && -ONE
                    <= c.axis.z && c.axis.z <= ONE && -CMAX <= c.radius && c.radius <= CMAX
                    && -CMAX <= c.height && c.height <= CMAX
            },
        }
    }
}

} // verus!
