//! A verified signed-distance-field renderer core.
//!
//! A scene is a columnar entity store whose entities carry any subset of
//! {position, implicit surface, light, color}. A sphere-tracing intersector
//! marches rays through the surfaces' distance fields, a lighting evaluator
//! casts secondary occlusion rays per light, and a frame renderer averages
//! stochastic per-pixel samples into a row-major buffer.
//!
//! Scalars throughout are fixed-point integers: an `i64` raw value stands
//! for the rational `raw / SCALE`. All arithmetic saturates at the `i64`
//! range, so every operation is total, and every public function's result
//! is pinned to a spec-level model of the same computation — rendering the
//! same scene with the same parameters and seed is proved to yield the same
//! buffer.

pub mod camera;
pub mod color;
pub mod fixed;
pub mod light;
pub mod ray;
pub mod render;
pub mod rng;
pub mod sdf;
pub mod vec3;
pub mod world;
