//! Render configuration: image output, camera placement, and the
//! reflection budget. The surrounding program fills these from its
//! command line and configuration file and hands them in as plain
//! values.

use vstd::prelude::*;

verus! {

use crate::linear::Vector;

/// Where and how large the rendered image is.
pub struct OutputConfig {
    pub image_width: u32,
    pub image_height: u32,
    pub image_file: String,
}

/// Camera placement and projection parameters, in raw fixed-point
/// world units (roll in raw degrees).
pub struct CameraConfig {
    pub view_width: i64,
    pub position: Vector,
    pub target: Vector,
    pub roll: i64,
    pub focal_length: i64,
}

/// A complete render configuration.
pub struct Config {
    pub camera: CameraConfig,
    pub output: OutputConfig,
    pub maximum_reflections: u32,
    pub model_file: String,
    pub lighting_file: String,
}

} // verus!
