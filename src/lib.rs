//! A software rasterizer whose pipeline runs on exact fixed-point integers:
//! screen positions in sub-pixel units, depth and texture coordinates with
//! sixteen fractional bits, and a framebuffer of packed 8-bit colours.

pub mod barycentric;
pub mod fixed;
pub mod framebuffer;
pub mod texture;
pub mod raster;
pub mod mesh;
pub mod tile;
pub mod arcball;
pub mod camera;
pub mod shader;
