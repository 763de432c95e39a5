//! An offline ray-tracing renderer over fixed-point arithmetic.
//!
//! Scenes are built from four primitive families (spheres, planes, axis-aligned
//! boxes and capped cylinders) plus point lights; a pinhole camera turns pixel
//! coordinates into rays, and the renderer resolves the nearest hit per pixel,
//! applying Lambertian shading with binary shadow tests.
//!
//! All scalars are fixed-point: an `i64` counts 1/4096ths of a world unit, so
//! every routine is an exact function of its integer inputs and is verified
//! against a functional specification.

pub mod fixed;
pub mod vec3;
pub mod color;
pub mod ray;
pub mod objects;
pub mod sphere;
pub mod plane;
pub mod cube;
pub mod cylinder;
pub mod light;
pub mod scene;
pub mod camera;
pub mod renderer;
pub mod laws;

pub use fixed::ONE;
