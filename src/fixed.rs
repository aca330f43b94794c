use vstd::prelude::*;

verus! {

/// The fixed-point value 1.0 for depths, texture coordinates, normalized
/// device coordinates and clip-space `w`: sixteen fractional bits.
pub const ONE: i64 = 65536;

/// Sub-pixel steps per pixel in screen-space positions.
pub const SUBPIXEL: i64 = 256;

/// The depth that a cleared buffer holds: 1.0, the far plane.
pub const DEPTH_FAR: i32 = 65536;

/// Largest framebuffer width or height that the rasterizer accepts.
pub const DIM_LIMIT: usize = 4096;

/// Bound on the magnitude of a screen-space coordinate, in sub-pixels.
pub const COORD_LIMIT: i64 = 16777216;

/// Bound on the magnitude of a normalized device coordinate (16.0).
pub const NDC_LIMIT: i64 = 1048576;

/// Bound on clip-space `w` and on the magnitude of a texture coordinate (256.0).
pub const ATTR_LIMIT: i64 = 16777216;

} // verus!
