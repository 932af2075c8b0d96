//! A software triangle rasterizer on fixed-point integers: framebuffer with a
//! depth test, barycentric rasterization, fragment shaders and the mesh-face
//! grammar, each with its contract.

pub mod color;
pub mod framebuffer;
pub mod geometry;
pub mod vertex;
pub mod fragment;
pub mod triangle;
pub mod shaders;
pub mod render;
pub mod transform;
pub mod obj;
pub mod model;
