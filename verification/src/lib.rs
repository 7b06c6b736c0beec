//! A Monte Carlo path tracer over fixed-point arithmetic, together with a few
//! small verified utilities (a person formatter and 3-vector algebra).
//!
//! All scalar quantities of the renderer are fixed-point numbers: an `i64`
//! holding the real value times `2^16`. Geometry tests, colour blending and
//! the light-transport loop are verified against exact integer contracts.

pub mod fixed;
pub mod vec3;
pub mod materials;
pub mod geometry;
pub mod tracer;
pub mod render;
pub mod scene;
pub mod person;
mod rng;
