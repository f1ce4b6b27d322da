//! A small ray-tracing core on 16.16 fixed-point scalars.

pub mod fx;
pub mod vec3;
pub mod point3;
pub mod ray;
pub mod rgb;
pub mod mat4;
pub mod trig;
pub mod transform;
pub mod sphere;
pub mod triangle;
pub mod shape;
pub mod integrator;
