//! Axis-aligned boxes: the slab method, one entry/exit interval per axis.

use vstd::prelude::*;
use crate::fixed::{fdiv, fmul, fp_div, fp_mul, lemma_fdiv_bound, lemma_fmul_bound, CMAX, HALF,
    OMAX, PMAX};
use crate::objects::{opt_hit, HitV, Intersection};
use crate::ray::{ray_at, ray_wf, Ray, RayV};
use crate::vec3::{in_box, Vector3D, V3};

verus! {

/// Mathematical model of an axis-aligned box.
pub struct CubeV {
    pub min: V3,
    pub max: V3,
}

/// An axis-aligned box given by two opposite corners.
#[derive(Clone, Copy, PartialEq, Eq, Structural, Debug)]
pub struct Cube {
    pub min: Vector3D,
    pub max: Vector3D,
}

impl View for Cube {
    type V = CubeV;

    open spec fn view(&self) -> CubeV {
        CubeV { min: self.min@, max: self.max@ }
    }
}

/// Coordinate bounds every scene box obeys.
pub open spec fn cube_wf(c: CubeV) -> bool {
    &&& in_box(c.min, CMAX as int)
    &&& in_box(c.max, CMAX as int)
}

/// The sign of an offset; zero counts as positive.
pub open spec fn sgn(v: int) -> int {
    if v < 0 {
        -1
    } else {
        1
    }
}

/// One axis of the slab method: the ordered parameter interval between the
/// two bounding planes. A zero direction component leaves the axis
/// unconstrained when the origin lies between the planes (the unbounded
/// interval stands in for the infinities the float division would produce)
/// and rejects the ray outright otherwise.
pub open spec fn axis_slab(minc: int, maxc: int, o: int, d: int) -> Option<(int, int)> {
    if d == 0 {
        if o < minc || o > maxc {
            None
        } else {
            Some((-0x7fff_ffff_ffff_ffff, 0x7fff_ffff_ffff_ffff))
        }
    } else {
        let t1: int = fdiv(minc - o, d);
        let t2: int = fdiv(maxc - o, d);
        if t1 > t2 {
            Some((t2, t1))
        } else {
            Some((t1, t2))
        }
    }
}

/// The forward box hit: intersect the three axis intervals; if the entry
/// parameter is negative the exit takes its place (ray origin inside the
/// box); reject if that too is negative, and guard the hit point into the
/// `PMAX` box.
pub open spec fn cube_hit(c: CubeV, r: RayV) -> Option<HitV> {
    match axis_slab(c.min.x, c.max.x, r.origin.x, r.dir.x) {
        None => None,
        Some((txmin, txmax)) => match axis_slab(c.min.y, c.max.y, r.origin.y, r.dir.y) {
            None => None,
            Some((tymin, tymax)) => if txmin > tymax || tymin > txmax {
                None
            } else {
                let tmin1: int = if tymin > txmin { tymin } else { txmin };
                let tmax1: int = if tymax < txmax { tymax } else { txmax };
                match axis_slab(c.min.z, c.max.z, r.origin.z, r.dir.z) {
                    None => None,
                    Some((tzmin, tzmax)) => if tmin1 > tzmax || tzmin > tmax1 {
                        None
                    } else {
                        let tmin2: int = if tzmin > tmin1 { tzmin } else { tmin1 };
                        let tmax2: int = if tzmax < tmax1 { tzmax } else { tmax1 };
                        let t: int = if tmin2 < 0 { tmax2 } else { tmin2 };
                        if t < 0 {
                            None
                        } else {
                            let p: V3 = ray_at(r, t);
                            if in_box(p, PMAX as int) {
                                Some(HitV { t, point: p, normal: cube_normal(c, p) })
                            } else {
                                None
                            }
                        }
                    },
                }
            },
        },
    }
}

/// The box normal at a surface point: the axis of largest offset from the box
/// center, signed by the offset, with magnitude one quantum above `ONE` (the
/// smallest representable bias above one, pushing the normal fractionally
/// outside the box; it is deliberately not unit length).
pub open spec fn cube_normal(c: CubeV, p: V3) -> V3 {
    let dx: int = p.x - fmul(c.min.x + c.max.x, HALF as int);
    let dy: int = p.y - fmul(c.min.y + c.max.y, HALF as int);
    let dz: int = p.z - fmul(c.min.z + c.max.z, HALF as int);
    let sx: int = if dx < 0 { -dx } else { dx };
    let sy: int = if dy < 0 { -dy } else { dy };
    let sz: int = if dz < 0 { -dz } else { dz };
    if sx > sy && sx > sz {
        V3 { x: sgn(dx) * 4097, y: 0, z: 0 }
    } else if sy > sz {
        V3 { x: 0, y: sgn(dy) * 4097, z: 0 }
    } else {
        V3 { x: 0, y: 0, z: sgn(dz) * 4097 }
    }
}

/// One axis of the slab method, executable.
fn slab(minc: i64, maxc: i64, o: i64, d: i64) -> (res: Option<(i64, i64)>)
    requires
        -CMAX <= minc <= CMAX,
        -CMAX <= maxc <= CMAX,
        -OMAX <= o <= OMAX,
    ensures
        match res {
            Some(p) => axis_slab(minc as int, maxc as int, o as int, d as int)
                == Some((p.0 as int, p.1 as int)),
            None => axis_slab(minc as int, maxc as int, o as int, d as int) is None,
        },
        d != 0 && res is Some ==> -0x2_0000_0000_0000 <= res->Some_0.0 <= 0x2_0000_0000_0000
            && -0x2_0000_0000_0000 <= res->Some_0.1 <= 0x2_0000_0000_0000,
{
    if d == 0 {
        if o < minc || o > maxc {
            None
        } else {
            Some((-0x7fff_ffff_ffff_ffff, 0x7fff_ffff_ffff_ffff))
        }
    } else {
        proof {
            lemma_fdiv_bound(minc - o as int, d as int, 0x2000_0000);
            lemma_fdiv_bound(maxc - o as int, d as int, 0x2000_0000);
        }
        let t1: i64 = fp_div(minc - o, d);
        let t2: i64 = fp_div(maxc - o, d);
        if t1 > t2 {
            Some((t2, t1))
        } else {
            Some((t1, t2))
        }
    }
}

impl Cube {
    pub fn new(min: Vector3D, max: Vector3D) -> (c: Cube)
        ensures
            c@ == (CubeV { min: min@, max: max@ }),
    {
        Cube { min, max }
    }

    /// The nearest forward hit of `ray` against this box, if any.
    pub fn intersect(&self, ray: &Ray) -> (res: Option<Intersection>)
        requires
            cube_wf(self@),
            ray_wf(ray@),
            in_box(ray@.origin, OMAX as int),
        ensures
            opt_hit(res) == cube_hit(self@, ray@),
    {
        let sx: Option<(i64, i64)> = slab(self.min.x, self.max.x, ray.origin.x, ray.direction.x);
        let (mut tmin, mut tmax): (i64, i64) = match sx {
            Some(p) => p,
            None => {
                return None;
            },
        };
        let sy: Option<(i64, i64)> = slab(self.min.y, self.max.y, ray.origin.y, ray.direction.y);
        let (tymin, tymax): (i64, i64) = match sy {
            Some(p) => p,
            None => {
                return None;
            },
        };
        if tmin > tymax || tymin > tmax {
            return None;
        }
        if tymin > tmin {
            tmin = tymin;
        }
        if tymax < tmax {
            tmax = tymax;
        }
        let sz: Option<(i64, i64)> = slab(self.min.z, self.max.z, ray.origin.z, ray.direction.z);
        let (tzmin, tzmax): (i64, i64) = match sz {
            Some(p) => p,
            None => {
                return None;
            },
        };
        if tmin > tzmax || tzmin > tmax {
            return None;
        }
        if tzmin > tmin {
            tmin = tzmin;
        }
        if tzmax < tmax {
            tmax = tzmax;
        }
        if tmin < 0 {
            tmin = tmax;
            if tmin < 0 {
                return None;
            }
        }
        proof {
            // a nearly unit direction has a nonzero component, so the final
            // parameter came through at least one finite axis interval
            assert(ray@.dir.x != 0 || ray@.dir.y != 0 || ray@.dir.z != 0);
            assert(-0x2_0000_0000_0000 <= tmin as int <= 0x2_0000_0000_0000);
        }
        let p: Vector3D = ray.point_at(tmin);
        if -PMAX <= p.x && p.x <= PMAX && -PMAX <= p.y && p.y <= PMAX && -PMAX <= p.z
            && p.z <= PMAX {
            let normal: Vector3D = self.normal(&p);
            Some(Intersection { t: tmin, point: p, normal })
        } else {
            None
        }
    }

    /// The box normal at a surface point: dominant offset axis, signed, with
    /// the smallest representable bias above one.
    pub fn normal(&self, point: &Vector3D) -> (n: Vector3D)
        requires
            cube_wf(self@),
            in_box(point@, 0x1_0000_0000_0000),
        ensures
            n@ == cube_normal(self@, point@),
    {
        proof {
            lemma_fmul_bound(self@.min.x + self@.max.x, HALF as int, 0x2000000, 2048);
            lemma_fmul_bound(self@.min.y + self@.max.y, HALF as int, 0x2000000, 2048);
            lemma_fmul_bound(self@.min.z + self@.max.z, HALF as int, 0x2000000, 2048);
        }
        let dx: i64 = point.x - fp_mul(self.min.x + self.max.x, HALF);
        let dy: i64 = point.y - fp_mul(self.min.y + self.max.y, HALF);
        let dz: i64 = point.z - fp_mul(self.min.z + self.max.z, HALF);
        let sx: i64 = if dx < 0 { -dx } else { dx };
        let sy: i64 = if dy < 0 { -dy } else { dy };
        let sz: i64 = if dz < 0 { -dz } else { dz };
        if sx > sy && sx > sz {
            Vector3D { x: if dx < 0 { -4097 } else { 4097 }, y: 0, z: 0 }
        } else if sy > sz {
            Vector3D { x: 0, y: if dy < 0 { -4097 } else { 4097 }, z: 0 }
        } else {
            Vector3D { x: 0, y: 0, z: if dz < 0 { -4097 } else { 4097 } }
        }
    }
}

} // verus!
