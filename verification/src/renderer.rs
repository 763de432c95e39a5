//! The renderer: per-pixel camera rays, nearest-hit search across the scene,
//! Lambertian shading with a fixed ambient term, and binary shadow tests.

use vstd::prelude::*;
use vstd::arithmetic::div_mod::lemma_fundamental_div_mod_converse;
use crate::camera::{cam_ray, camera_wf, Camera, CameraV};
use crate::color::{black, c_add, c_in_box, c_scale, Color, C3};
use crate::fixed::{fdiv, fp_div, lemma_fmul_bound, lemma_unit_ratio, CMAX, OMAX, PMAX};
use crate::light::{light_wf, Light, LightV};
use crate::objects::{
    lemma_obj_hit_ok, lemma_obj_normal_bound, obj_hit, obj_normal, obj_wf, HitV, Intersection,
    ObjV,
};
use crate::ray::{ray_wf, Ray, RayV};
use crate::scene::{scene_wf, Scene, SceneV};
use crate::vec3::{
    in_box, lemma_dot_bound, lemma_scale_bound, lemma_vnorm_unitish, v_add, v_dot, v_scale,
    v_sub, vlen, vnorm, zerov, Vector3D, V3,
};

verus! {

/// The fixed ambient term, one tenth of full intensity (the nearest
/// fixed-point value) on every channel.
pub const AMBIENT: i64 = 410;

/// The offset along the light direction at which shadow rays start, one tenth
/// of a world unit (the nearest fixed-point value), avoiding
/// self-intersection at the shaded point.
pub const SHADOW_OFFSET: i64 = 410;

/// The ambient color every shaded point starts from.
pub open spec fn ambient() -> C3 {
    C3 { r: AMBIENT as int, g: AMBIENT as int, b: AMBIENT as int }
}

/// The nearest hit, and its primitive's index, among the first `n`
/// primitives: a later hit replaces an earlier one only when strictly nearer,
/// so ties keep the first-inserted primitive.
pub open spec fn nearest_upto(objs: Seq<ObjV>, r: RayV, n: int) -> Option<(HitV, int)>
    decreases n,
{
    if n <= 0 {
        None
    } else {
        let prev: Option<(HitV, int)> = nearest_upto(objs, r, n - 1);
        match obj_hit(objs[n - 1], r) {
            Option::None => prev,
            Option::Some(h) => match prev {
                Option::None => Some((h, n - 1)),
                Option::Some(p) => if h.t < p.0.t {
                    Some((h, n - 1))
                } else {
                    prev
                },
            },
        }
    }
}

/// The nearest hit across the whole scene.
pub open spec fn nearest_hit(s: SceneV, r: RayV) -> Option<(HitV, int)> {
    nearest_upto(s.objects, r, s.objects.len() as int)
}

/// Whatever `nearest_upto` reports came from the primitive it names.
pub proof fn lemma_nearest_upto_src(objs: Seq<ObjV>, r: RayV, n: int)
    ensures
        match nearest_upto(objs, r, n) {
            Option::Some(p) => 0 <= p.1 < n && obj_hit(objs[p.1], r) == Some(p.0),
            Option::None => true,
        },
    decreases n,
{
    if n > 0 {
        lemma_nearest_upto_src(objs, r, n - 1);
    }
}

/// The distance from a shadow ray's origin to the light it probes.
pub open spec fn shadow_dist(r: RayV, l: LightV) -> int {
    vlen(v_sub(l.position, r.origin))
}

/// A primitive occludes the shadow ray when it reports a hit strictly nearer
/// than the light.
pub open spec fn occludes(o: ObjV, r: RayV, dist: int) -> bool {
    match obj_hit(o, r) {
        Option::Some(h) => h.t < dist,
        Option::None => false,
    }
}

/// Some primitive lies between the shadow ray's origin and the light.
pub open spec fn shadowed(objs: Seq<ObjV>, r: RayV, l: LightV) -> bool {
    exists|j: int| 0 <= j < objs.len() && occludes(#[trigger] objs[j], r, shadow_dist(r, l))
}

/// One light's contribution at a hit: zero when the light sits at the hit
/// point (no direction exists toward it) or when the point is shadowed, else
/// the light's color times its intensity times the clamped Lambertian cosine.
/// No distance attenuation is applied.
pub open spec fn light_term(s: SceneV, hit: HitV, o: ObjV, l: LightV) -> C3 {
    if l.position == hit.point {
        black()
    } else {
        let ldir: V3 = vnorm(v_sub(l.position, hit.point));
        let sray: RayV = RayV {
            origin: v_add(hit.point, v_scale(ldir, SHADOW_OFFSET as int)),
            dir: vnorm(ldir),
        };
        if shadowed(s.objects, sray, l) {
            black()
        } else {
            let dt: int = v_dot(obj_normal(o, hit.point), ldir);
            let diffuse: int = if dt > 0 {
                dt
            } else {
                0
            };
            c_scale(c_scale(l.color, l.intensity), diffuse)
        }
    }
}

/// The shade accumulated over the first `n` lights, from the ambient term up.
pub open spec fn shade_upto(s: SceneV, hit: HitV, o: ObjV, n: int) -> C3
    decreases n,
{
    if n <= 0 {
        ambient()
    } else {
        c_add(shade_upto(s, hit, o, n - 1), light_term(s, hit, o, s.lights[n - 1]))
    }
}

/// The shade of a hit under all of the scene's lights.
pub open spec fn shade_color(s: SceneV, hit: HitV, o: ObjV) -> C3 {
    shade_upto(s, hit, o, s.lights.len() as int)
}

/// The color a ray resolves to: the background when it misses everything,
/// else the shade of the nearest hit.
pub open spec fn trace_color(s: SceneV, r: RayV) -> C3 {
    match nearest_hit(s, r) {
        Option::None => black(),
        Option::Some(p) => shade_color(s, p.0, s.objects[p.1]),
    }
}

/// The color of pixel `(x, y)` in a `w` by `h` image.
pub open spec fn pixel_color(s: SceneV, c: CameraV, x: int, y: int, w: int, h: int) -> C3 {
    trace_color(s, cam_ray(c, fdiv(x, w), fdiv(y, h)))
}

/// The renderer's full contract: a row-major buffer of `w * h` colors, pixel
/// `(x, y)` at index `y * w + x`.
pub open spec fn render_ok(buf: Seq<Color>, s: SceneV, c: CameraV, w: int, h: int) -> bool {
    &&& buf.len() == w * h
    &&& forall|i: int|
        0 <= i < buf.len() ==> (#[trigger] buf[i])@ == pixel_color(s, c, i % w, i / w, w, h)
}

/// The renderer: an output resolution in pixels.
#[derive(Clone, Copy, PartialEq, Eq, Structural, Debug)]
pub struct Renderer {
    pub width: u32,
    pub height: u32,
}

impl Renderer {
    pub fn new(width: u32, height: u32) -> (r: Renderer)
        ensures
            r.width == width,
            r.height == height,
    {
        Renderer { width, height }
    }

    /// The nearest hit of `ray` across the scene's primitives, with the index
    /// of the primitive that produced it; ties keep the first-inserted one.
    pub fn nearest_intersection(&self, ray: &Ray, scene: &Scene) -> (res: Option<
        (Intersection, usize),
    >)
        requires
            scene_wf(scene@),
            ray_wf(ray@),
            in_box(ray@.origin, OMAX as int),
        ensures
            match res {
                Option::Some(p) => nearest_hit(scene@, ray@) == Some((p.0@, p.1 as int)) && (
                p.1 as int) < scene@.objects.len(),
                Option::None => nearest_hit(scene@, ray@) is None,
            },
    {
        let mut best: Option<(Intersection, usize)> = None;
        let mut i: usize = 0;
        while i < scene.objects.len()
            invariant
                scene_wf(scene@),
                ray_wf(ray@),
                in_box(ray@.origin, OMAX as int),
                i <= scene.objects.len(),
                match best {
                    Option::Some(p) => nearest_upto(scene@.objects, ray@, i as int) == Some(
                        (p.0@, p.1 as int),
                    ) && p.1 < i,
                    Option::None => nearest_upto(scene@.objects, ray@, i as int) is None,
                },
            decreases scene.objects.len() - i,
        {
            proof {
                assert(obj_wf(scene@.objects[i as int]));
            }
            let hit: Option<Intersection> = scene.objects[i].intersect(ray);
            if let Some(inter) = hit {
                let replace: bool = match &best {
                    Option::None => true,
                    Option::Some(b) => inter.t < b.0.t,
                };
                if replace {
                    best = Some((inter, i));
                }
            }
            i = i + 1;
        }
        best
    }

    /// Whether an occluder lies between the shadow ray's origin and the
    /// light.
    pub fn is_in_shadow(&self, shadow_ray: Ray, scene: &Scene, light: &Light) -> (r: bool)
        requires
            scene_wf(scene@),
            ray_wf(shadow_ray@),
            in_box(shadow_ray@.origin, OMAX as int),
            in_box(light@.position, CMAX as int),
        ensures
            r == shadowed(scene@.objects, shadow_ray@, light@),
    {
        let dist: i64 = light.position.sub(&shadow_ray.origin).length();
        let mut i: usize = 0;
        while i < scene.objects.len()
            invariant
                scene_wf(scene@),
                ray_wf(shadow_ray@),
                in_box(shadow_ray@.origin, OMAX as int),
                i <= scene.objects.len(),
                dist as int == shadow_dist(shadow_ray@, light@),
                forall|j: int|
                    0 <= j < i ==> !occludes(
                        #[trigger] scene@.objects[j],
                        shadow_ray@,
                        shadow_dist(shadow_ray@, light@),
                    ),
            decreases scene.objects.len() - i,
        {
            proof {
                assert(obj_wf(scene@.objects[i as int]));
            }
            let hit: Option<Intersection> = scene.objects[i].intersect(&shadow_ray);
            if let Some(inter) = hit {
                if inter.t < dist {
                    proof {
                        assert(occludes(scene@.objects[i as int], shadow_ray@,
                            shadow_dist(shadow_ray@, light@)));
                    }
                    return true;
                }
            }
            proof {
                assert(!occludes(scene@.objects[i as int], shadow_ray@,
                    shadow_dist(shadow_ray@, light@)));
            }
            i = i + 1;
        }
        false
    }

    /// The shade at a hit of the scene's primitive at `index`: the ambient
    /// term plus each unshadowed light's Lambertian contribution.
    #[verifier::rlimit(60)]
    pub fn shade(&self, scene: &Scene, intersection: &Intersection, index: usize) -> (c: Color)
        requires
            scene_wf(scene@),
            (index as int) < scene@.objects.len(),
            in_box(intersection@.point, PMAX as int),
        ensures
            c@ == shade_color(scene@, intersection@, scene@.objects[index as int]),
    {
        let mut color: Color = Color::new(AMBIENT, AMBIENT, AMBIENT);
        let mut k: usize = 0;
        while k < scene.lights.len()
            invariant
                scene_wf(scene@),
                (index as int) < scene@.objects.len(),
                in_box(intersection@.point, PMAX as int),
                k <= scene.lights.len(),
                color@ == shade_upto(scene@, intersection@, scene@.objects[index as int],
                    k as int),
                c_in_box(color@, 410 + (k as int) * 0x40_0000_0000),
            decreases scene.lights.len() - k,
        {
            proof {
                assert(light_wf(scene@.lights[k as int]));
            }
            let l: Light = scene.lights[k];
            let p: Vector3D = intersection.point;
            if !(l.position.x == p.x && l.position.y == p.y && l.position.z == p.z) {
                proof {
                    lemma_vnorm_unitish(v_sub(l@.position, intersection@.point));
                }
                let ldir: Vector3D = l.position.sub(&p).normalize();
                proof {
                    lemma_scale_bound(ldir@, SHADOW_OFFSET as int, 4096, 410);
                    assert(ldir@ != zerov());
                }
                let sorigin: Vector3D = p.add(&ldir.scale(SHADOW_OFFSET));
                let sray: Ray = Ray::new(sorigin, ldir);
                if !self.is_in_shadow(sray, scene, &l) {
                    proof {
                        assert(obj_wf(scene@.objects[index as int]));
                        lemma_obj_normal_bound(scene@.objects[index as int],
                            intersection@.point);
                    }
                    let normal: Vector3D = scene.objects[index].normal(&intersection.point);
                    proof {
                        lemma_dot_bound(normal@, ldir@, 4097, 4096);
                        lemma_fmul_bound(l@.color.r, l@.intensity, CMAX as int, CMAX as int);
                        lemma_fmul_bound(l@.color.g, l@.intensity, CMAX as int, CMAX as int);
                        lemma_fmul_bound(l@.color.b, l@.intensity, CMAX as int, CMAX as int);
                    }
                    let dt: i64 = normal.dot(&ldir);
                    let diffuse: i64 = if dt > 0 {
                        dt
                    } else {
                        0
                    };
                    let cs: Color = l.color.scale(l.intensity);
                    proof {
                        lemma_fmul_bound(cs@.r, diffuse as int, 0x10_0000_0000, 12291);
                        lemma_fmul_bound(cs@.g, diffuse as int, 0x10_0000_0000, 12291);
                        lemma_fmul_bound(cs@.b, diffuse as int, 0x10_0000_0000, 12291);
                    }
                    let gain: Color = cs.scale(diffuse);
                    color = color.add(&gain);
                }
            }
            k = k + 1;
        }
        color
    }

    /// The color a ray resolves to: the background when it misses every
    /// primitive, else the shade of the nearest hit. The depth guard caps
    /// recursive bounces; no recursive call exists yet, so it only cuts the
    /// trace off above depth five.
    pub fn trace_ray(&self, ray: Ray, scene: &Scene, depth: u32) -> (c: Color)
        requires
            scene_wf(scene@),
            ray_wf(ray@),
            in_box(ray@.origin, OMAX as int),
        ensures
            c@ == if depth > 5 {
                black()
            } else {
                trace_color(scene@, ray@)
            },
    {
        if depth > 5 {
            return Color::new(0, 0, 0);
        }
        let nearest: Option<(Intersection, usize)> = self.nearest_intersection(&ray, scene);
        match nearest {
            Some(pair) => {
                proof {
                    lemma_nearest_upto_src(scene@.objects, ray@, scene@.objects.len() as int);
                    lemma_obj_hit_ok(scene@.objects[pair.1 as int], ray@);
                }
                self.shade(scene, &pair.0, pair.1)
            },
            None => Color::new(0, 0, 0),
        }
    }

    /// Renders the scene through the camera: a flat, row-major buffer with
    /// one color per pixel, pixel `(x, y)` at index `y * width + x`.
    pub fn render(&self, scene: &Scene, camera: &Camera) -> (image: Vec<Color>)
        requires
            scene_wf(scene@),
            camera_wf(camera@),
            (self.width as int) * (self.height as int) <= usize::MAX as int,
        ensures
            render_ok(image@, scene@, camera@, self.width as int, self.height as int),
    {
        let w: usize = self.width as usize;
        let h: usize = self.height as usize;
        let mut image: Vec<Color> = Vec::new();
        let mut y: usize = 0;
        while y < h
            invariant
                scene_wf(scene@),
                camera_wf(camera@),
                w == self.width as int,
                h == self.height as int,
                w * h <= usize::MAX,
                y <= h,
                image@.len() == y * w,
                forall|i: int|
                    0 <= i < image@.len() ==> (#[trigger] image@[i])@ == pixel_color(
                        scene@,
                        camera@,
                        i % (w as int),
                        i / (w as int),
                        w as int,
                        h as int,
                    ),
            decreases h - y,
        {
            let mut x: usize = 0;
            proof {
                assert((y as int) * (w as int) + (w as int) == ((y as int) + 1) * (w as int))
                    by (nonlinear_arith);
                assert(((y as int) + 1) * (w as int) <= (h as int) * (w as int))
                    by (nonlinear_arith)
                    requires
                        (y as int) + 1 <= h as int,
                        0 <= w as int,
                ;
                assert((h as int) * (w as int) == (w as int) * (h as int)) by (nonlinear_arith);
            }
            while x < w
                invariant
                    scene_wf(scene@),
                    camera_wf(camera@),
                    w == self.width as int,
                    h == self.height as int,
                    w * h <= usize::MAX,
                    y < h,
                    x <= w,
                    (y as int) * (w as int) + (w as int) <= (w as int) * (h as int),
                    image@.len() == y * w + x,
                    forall|i: int|
                        0 <= i < image@.len() ==> (#[trigger] image@[i])@ == pixel_color(
                            scene@,
                            camera@,
                            i % (w as int),
                            i / (w as int),
                            w as int,
                            h as int,
                        ),
                decreases w - x,
            {
                proof {
                    lemma_unit_ratio(x as int, w as int);
                    lemma_unit_ratio(y as int, h as int);
                }
                let u: i64 = fp_div(x as i64, w as i64);
                let v: i64 = fp_div(y as i64, h as i64);
                let r: Ray = camera.generate_ray(u, v);
                let c: Color = self.trace_ray(r, scene, 0);
                proof {
                    lemma_fundamental_div_mod_converse(
                        (y as int) * (w as int) + (x as int),
                        w as int,
                        y as int,
                        x as int,
                    );
                }
                image.push(c);
                x = x + 1;
            }
            y = y + 1;
        }
        proof {
            assert((h as int) * (w as int) == (w as int) * (h as int)) by (nonlinear_arith);
        }
        image
    }
}

} // verus!
