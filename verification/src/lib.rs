//! An offline triangle-mesh ray tracer: vector algebra, Moeller-Trumbore
//! ray/triangle intersection, nearest-hit scene queries, Phong-style shading
//! with shadow tests and mirror reflection, camera lenses, and the per-pixel
//! render loop.
//!
//! Scalars are signed 16.16 fixed-point numbers (an `i64` counting steps of
//! 1/65536), so every arithmetic step has an exact integer meaning that the
//! contracts state in full.

pub mod fixed;
pub mod linear;
pub mod scene;
pub mod render;
pub mod config;
pub mod load;
