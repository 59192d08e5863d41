//! Scene construction from decoded model data: the pure halves of the
//! loaders. The surrounding program reads and decodes files, hands the
//! plain values in, and receives ready triangles.

pub mod stl;
pub mod wavefront;
