//! A ray-tracing kernel over fixed-point arithmetic.

pub mod _box;
pub mod aabb;
pub mod aarect;
pub mod bvh;
pub mod camera;
pub mod color;
pub mod constantmedium;
pub mod hittable;
pub mod hittable_list;
pub mod material;
pub mod math;
pub mod movingsphere;
pub mod nearest;
pub mod perlin;
pub mod ray;
pub mod render;
pub mod scalar;
pub mod sphere;
pub mod texture;
pub mod util;
pub mod vec3;
