//! A small ray-tracing kernel over exact fixed-point arithmetic.
//!
//! Real-valued geometry is modelled by signed 64-bit fixed-point numbers
//! with 32 fractional bits, so that every operation of the kernel has an
//! exact mathematical meaning that the proofs can speak about.

pub mod num;
pub mod coords;
pub mod matrix;
pub mod normal;
pub mod ray;
pub mod transform;
pub mod color;
pub mod canvas;
pub mod light;
pub mod material;
pub mod sphere;
pub mod plane;
pub mod shape;
pub mod world;
pub mod view_transform;
pub mod camera;
