//! Integer core of a Monte-Carlo path tracer: image texels, checker
//! parity, Perlin lattice tables, bounding-volume-hierarchy layout and the
//! plain-text image encoding.

pub mod utils;
pub mod bitmap;
pub mod texture;
pub mod perlin;
pub mod bvh;
pub mod ppm;
