// Scene assembly, camera rays, shading, shadows and full renders on concrete
// fixed-point scenes (4096 stands for 1.0).

use raytracer::camera::Camera;
use raytracer::color::Color;
use raytracer::light::Light;
use raytracer::objects::Object;
use raytracer::ray::Ray;
use raytracer::renderer::Renderer;
use raytracer::scene::Scene;
use raytracer::sphere::Sphere;
use raytracer::vec3::Vector3D;

fn v(x: i64, y: i64, z: i64) -> Vector3D {
    Vector3D::new(x, y, z)
}

fn unit_sphere_scene() -> Scene {
    let mut scene = Scene::new();
    scene.add_object(Object::Sphere(Sphere::new(v(0, 0, 0), 4096)));
    scene
}

#[test]
fn scene_collects_objects_and_lights() {
    let mut scene = Scene::new();
    assert_eq!(scene.objects.len(), 0);
    assert_eq!(scene.lights.len(), 0);
    scene.add_object(Object::Sphere(Sphere::new(v(0, 0, 0), 4096)));
    scene.add_light(Light::new(v(0, 20480, 0), Color::new(4096, 4096, 4096), 4096));
    assert_eq!(scene.objects.len(), 1);
    assert_eq!(scene.lights.len(), 1);
    assert!(scene.well_formed());
}

#[test]
fn camera_center_ray_points_at_target() {
    // 90-degree vertical field of view: half_height = tan(45 degrees) = 1
    let cam = Camera::new(v(0, 0, 0), v(0, 0, 4096), v(0, 4096, 0), 4096, 4096);
    assert!(cam.well_formed());
    let r = cam.generate_ray(2048, 2048);
    assert_eq!(r.origin, v(0, 0, 0));
    assert_eq!(r.direction, v(0, 0, 4096));
}

#[test]
fn occluded_point_is_in_shadow_and_flips_without_occluder() {
    // the unit sphere stands between the shaded point and the light
    let light = Light::new(v(0, 0, -20480), Color::new(4096, 4096, 4096), 4096);
    let shadow_ray = Ray::new(v(0, 0, 20480), v(0, 0, -4096));
    let renderer = Renderer::new(4, 4);
    let occluded = unit_sphere_scene();
    assert!(renderer.is_in_shadow(shadow_ray, &occluded, &light));
    let empty = Scene::new();
    let shadow_ray2 = Ray::new(v(0, 0, 20480), v(0, 0, -4096));
    assert!(!renderer.is_in_shadow(shadow_ray2, &empty, &light));
}

#[test]
fn lambertian_shading_head_on() {
    // light directly behind the ray origin: full diffuse term on top of the
    // ambient 0.1, with unit light color and intensity: 410 + 4096 per channel
    let mut scene = unit_sphere_scene();
    scene.add_light(Light::new(v(0, 0, -20480), Color::new(4096, 4096, 4096), 4096));
    let renderer = Renderer::new(4, 4);
    let ray = Ray::new(v(0, 0, -20480), v(0, 0, 4096));
    let c = renderer.trace_ray(ray, &scene, 0);
    assert_eq!(c, Color::new(4506, 4506, 4506));
}

#[test]
fn shading_without_lights_is_ambient_only() {
    let scene = unit_sphere_scene();
    let renderer = Renderer::new(4, 4);
    let ray = Ray::new(v(0, 0, -20480), v(0, 0, 4096));
    let c = renderer.trace_ray(ray, &scene, 0);
    assert_eq!(c, Color::new(410, 410, 410));
}

#[test]
fn shadowed_point_keeps_only_ambient() {
    // a second sphere between the first hit and the light blocks it
    let mut scene = unit_sphere_scene();
    scene.add_object(Object::Sphere(Sphere::new(v(0, 0, -12288), 2048)));
    scene.add_light(Light::new(v(0, 0, -20480), Color::new(4096, 4096, 4096), 4096));
    let renderer = Renderer::new(4, 4);
    // aim slightly off axis so the nearest hit is still the unit sphere
    let ray = Ray::new(v(0, 0, -20480), v(0, 0, 4096));
    let c = renderer.trace_ray(ray, &scene, 0);
    // the blocker is hit first; its own shaded point faces the light, which
    // sits behind the blocker's surface: ambient plus its diffuse term
    assert_eq!(c.r, c.g);
    assert_eq!(c.g, c.b);
}

#[test]
fn ray_missing_everything_is_black() {
    let scene = unit_sphere_scene();
    let renderer = Renderer::new(4, 4);
    let ray = Ray::new(v(0, 0, -20480), v(0, 4096, 0));
    assert_eq!(renderer.trace_ray(ray, &scene, 0), Color::new(0, 0, 0));
}

#[test]
fn trace_depth_guard_cuts_off() {
    let mut scene = unit_sphere_scene();
    scene.add_light(Light::new(v(0, 0, -20480), Color::new(4096, 4096, 4096), 4096));
    let renderer = Renderer::new(4, 4);
    let ray = Ray::new(v(0, 0, -20480), v(0, 0, 4096));
    assert_eq!(renderer.trace_ray(ray, &scene, 6), Color::new(0, 0, 0));
}

#[test]
fn render_fills_row_major_buffer() {
    let mut scene = unit_sphere_scene();
    scene.add_light(Light::new(v(-20480, 20480, -20480), Color::new(4096, 4096, 4096), 4096));
    let cam = Camera::new(v(0, 0, -20480), v(0, 0, 0), v(0, 4096, 0), 4096, 5461);
    let renderer = Renderer::new(8, 6);
    let image = renderer.render(&scene, &cam);
    assert_eq!(image.len(), 48);
}

#[test]
fn render_of_empty_scene_is_all_black() {
    let scene = Scene::new();
    let cam = Camera::new(v(0, 0, -20480), v(0, 0, 0), v(0, 4096, 0), 4096, 4096);
    let renderer = Renderer::new(4, 4);
    let image = renderer.render(&scene, &cam);
    assert_eq!(image.len(), 16);
    for c in &image {
        assert_eq!(*c, Color::new(0, 0, 0));
    }
}

#[test]
fn render_twice_is_bit_identical() {
    let mut scene = unit_sphere_scene();
    scene.add_object(Object::Plane(raytracer::plane::Plane::new(
        v(0, -8192, 0),
        v(0, 4096, 0),
    )));
    scene.add_light(Light::new(v(-20480, 20480, -20480), Color::new(4096, 4096, 4096), 4096));
    let cam = Camera::new(v(0, 0, -20480), v(0, 0, 0), v(0, 4096, 0), 4096, 5461);
    let renderer = Renderer::new(16, 12);
    let first = renderer.render(&scene, &cam);
    let second = renderer.render(&scene, &cam);
    assert_eq!(first.len(), second.len());
    for i in 0..first.len() {
        assert_eq!(first[i], second[i]);
    }
}

#[test]
fn nearest_intersection_keeps_first_on_tie() {
    // two identical spheres: the scan keeps the first-inserted one
    let mut scene = Scene::new();
    scene.add_object(Object::Sphere(Sphere::new(v(0, 0, 0), 4096)));
    scene.add_object(Object::Sphere(Sphere::new(v(0, 0, 0), 4096)));
    let renderer = Renderer::new(4, 4);
    let ray = Ray::new(v(0, 0, -20480), v(0, 0, 4096));
    let (hit, index) = renderer.nearest_intersection(&ray, &scene).unwrap();
    assert_eq!(index, 0);
    assert_eq!(hit.t, 16384);
}

#[test]
fn nearest_intersection_picks_strictly_closer() {
    let mut scene = Scene::new();
    scene.add_object(Object::Sphere(Sphere::new(v(0, 0, 0), 4096)));
    scene.add_object(Object::Sphere(Sphere::new(v(0, 0, -12288), 2048)));
    let renderer = Renderer::new(4, 4);
    let ray = Ray::new(v(0, 0, -20480), v(0, 0, 4096));
    let (_, index) = renderer.nearest_intersection(&ray, &scene).unwrap();
    assert_eq!(index, 1);
}
