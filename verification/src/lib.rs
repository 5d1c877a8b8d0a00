//! The branching core of a Monte-Carlo path tracer for scenes of spheres.
//!
//! Numbers are IEEE 754 binary32 values held by their encodings, so that
//! every comparison the tracer makes is an exact statement about integers.
//! The caller evaluates the branch-free formulas (vector algebra, roots of
//! the sphere quadratic, reflection and refraction directions) and hands the
//! resulting numbers in; every choice between them is made, and proved, here.

pub mod scalar;
pub mod sampling;
pub mod vec3;
pub mod ray;
pub mod hittable;
pub mod material;
pub mod sphere;
pub mod hittable_list;
pub mod camera;
pub mod integrator;
pub mod ppm;
