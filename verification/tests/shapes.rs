// Intersection routines of the four primitive families on concrete
// fixed-point scenes (4096 stands for 1.0).

use raytracer::cube::Cube;
use raytracer::cylinder::Cylinder;
use raytracer::plane::Plane;
use raytracer::ray::Ray;
use raytracer::sphere::Sphere;
use raytracer::vec3::Vector3D;

fn v(x: i64, y: i64, z: i64) -> Vector3D {
    Vector3D::new(x, y, z)
}

#[test]
fn sphere_hit_head_on() {
    // unit sphere at the origin, ray from (0,0,-5) toward the origin:
    // t = 4, hit point (0,0,-1), normal (0,0,-1)
    let s = Sphere::new(v(0, 0, 0), 4096);
    let r = Ray::new(v(0, 0, -20480), v(0, 0, 4096));
    let hit = s.intersect(&r).unwrap();
    assert_eq!(hit.t, 16384);
    assert_eq!(hit.point, v(0, 0, -4096));
    assert_eq!(hit.normal, v(0, 0, -4096));
}

#[test]
fn sphere_behind_origin_is_missed() {
    let s = Sphere::new(v(0, 0, 0), 4096);
    let r = Ray::new(v(0, 0, -20480), v(0, 0, -4096));
    assert!(s.intersect(&r).is_none());
}

#[test]
fn sphere_off_axis_ray_misses() {
    let s = Sphere::new(v(0, 0, 0), 4096);
    let r = Ray::new(v(0, 0, -20480), v(0, 4096, 0));
    assert!(s.intersect(&r).is_none());
}

#[test]
fn sphere_normal_points_outward() {
    let s = Sphere::new(v(0, 0, 0), 4096);
    assert_eq!(s.normal(&v(0, 0, -4096)), v(0, 0, -4096));
    assert_eq!(s.normal(&v(8192, 0, 0)), v(4096, 0, 0));
}

#[test]
fn plane_hit_from_above() {
    // plane y = -1 with normal (0,1,0); ray from (0,5,0) straight down:
    // t = 6, hit point (0,-1,0)
    let p = Plane::new(v(0, -4096, 0), v(0, 4096, 0));
    let r = Ray::new(v(0, 20480, 0), v(0, -4096, 0));
    let hit = p.intersect(&r).unwrap();
    assert_eq!(hit.t, 24576);
    assert_eq!(hit.point, v(0, -4096, 0));
    assert_eq!(hit.normal, v(0, 4096, 0));
}

#[test]
fn plane_parallel_ray_misses() {
    let p = Plane::new(v(0, -4096, 0), v(0, 4096, 0));
    let r = Ray::new(v(0, 20480, 0), v(4096, 0, 0));
    assert!(p.intersect(&r).is_none());
}

#[test]
fn plane_behind_origin_is_missed() {
    let p = Plane::new(v(0, -4096, 0), v(0, 4096, 0));
    let r = Ray::new(v(0, -20480, 0), v(0, -4096, 0));
    assert!(p.intersect(&r).is_none());
}

#[test]
fn plane_construction_normalizes_normal() {
    let p = Plane::new(v(0, 0, 0), v(0, 8192, 0));
    assert_eq!(p.normal, v(0, 4096, 0));
    assert_eq!(p.normal(&v(123, 456, 789)), v(0, 4096, 0));
}

#[test]
fn cube_hit_front_face() {
    // cube [-1,1]^3, ray from (0,0,-5) along +z: t = 4, and the normal's
    // dominant axis is z with negative sign
    let c = Cube::new(v(-4096, -4096, -4096), v(4096, 4096, 4096));
    let r = Ray::new(v(0, 0, -20480), v(0, 0, 4096));
    let hit = c.intersect(&r).unwrap();
    assert_eq!(hit.t, 16384);
    assert_eq!(hit.point, v(0, 0, -4096));
    assert_eq!(hit.normal, v(0, 0, -4097));
}

#[test]
fn cube_ray_from_inside_hits_exit_face() {
    let c = Cube::new(v(-4096, -4096, -4096), v(4096, 4096, 4096));
    let r = Ray::new(v(0, 0, 0), v(0, 0, 4096));
    let hit = c.intersect(&r).unwrap();
    assert_eq!(hit.t, 4096);
    assert_eq!(hit.point, v(0, 0, 4096));
    assert_eq!(hit.normal, v(0, 0, 4097));
}

#[test]
fn cube_axis_parallel_ray_outside_slab_misses() {
    let c = Cube::new(v(-4096, -4096, -4096), v(4096, 4096, 4096));
    let r = Ray::new(v(0, 20480, -20480), v(0, 0, 4096));
    assert!(c.intersect(&r).is_none());
}

#[test]
fn cube_behind_origin_is_missed() {
    let c = Cube::new(v(-4096, -4096, -4096), v(4096, 4096, 4096));
    let r = Ray::new(v(0, 0, -20480), v(0, 0, -4096));
    assert!(c.intersect(&r).is_none());
}

#[test]
fn cylinder_lateral_hit() {
    // cylinder from y=-1 up to y=1, radius 1; ray from (0,0,-5) along +z:
    // t = 4, hit point (0,0,-1), radial normal (0,0,-1)
    let c = Cylinder::new(v(0, -4096, 0), v(0, 4096, 0), 4096, 8192);
    let r = Ray::new(v(0, 0, -20480), v(0, 0, 4096));
    let hit = c.intersect(&r).unwrap();
    assert_eq!(hit.t, 16384);
    assert_eq!(hit.point, v(0, 0, -4096));
    assert_eq!(hit.normal, v(0, 0, -4096));
}

#[test]
fn cylinder_cap_hit_from_above() {
    // ray straight down onto the top cap: t = 1, cap normal is the axis
    let c = Cylinder::new(v(0, 0, 0), v(0, 4096, 0), 4096, 4096);
    let r = Ray::new(v(0, 8192, 0), v(0, -4096, 0));
    let hit = c.intersect(&r).unwrap();
    assert_eq!(hit.t, 4096);
    assert_eq!(hit.point, v(0, 4096, 0));
    assert_eq!(hit.normal, v(0, 4096, 0));
}

#[test]
fn cylinder_parallel_ray_outside_radius_misses() {
    let c = Cylinder::new(v(0, 0, 0), v(0, 4096, 0), 4096, 4096);
    let r = Ray::new(v(20480, 0, 0), v(0, 4096, 0));
    assert!(c.intersect(&r).is_none());
}

#[test]
fn cylinder_construction_normalizes_axis() {
    let c = Cylinder::new(v(0, 0, 0), v(0, 8192, 0), 4096, 4096);
    assert_eq!(c.axis, v(0, 4096, 0));
}

#[test]
fn cylinder_normal_lateral_and_caps() {
    let c = Cylinder::new(v(0, 0, 0), v(0, 4096, 0), 4096, 4096);
    assert_eq!(c.normal(&v(4096, 2048, 0)), v(4096, 0, 0));
    assert_eq!(c.normal(&v(4096, 0, 0)), v(0, -4096, 0));
    assert_eq!(c.normal(&v(4096, 4096, 0)), v(0, 4096, 0));
}
