//! An offline Monte-Carlo path tracer whose geometry, materials and
//! sampling logic are verified.
//!
//! All geometric quantities are fixed-point numbers: an `i64` holds a real
//! value scaled by [`math::SCALE`].  Every operation on them is exact integer
//! arithmetic, so contracts can state results precisely.

use vstd::prelude::*;

pub mod aabb;
pub mod algs;
pub mod camera;
pub mod filter;
pub mod hit;
pub mod hitables;
pub mod interval;
pub mod material;
pub mod math;
pub mod multizip;
pub mod onb;
pub mod pdf;
pub mod ppm;
pub mod primitive;
pub mod ray;
pub mod render;
pub mod rng;
pub mod sampling;
pub mod texture;
pub mod transform;
pub mod vec3;

verus! {

} // verus!
