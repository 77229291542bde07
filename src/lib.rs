//! The verified parts of a quaternion-Julia ray marcher: the RGBA image buffer, color
//! literals, the assembly of a scene from its description (resolving the names it refers by), and
//! the command-line validators. The floating-point pipeline (rays, distance estimation,
//! sphere tracing, shading) runs on top of these.
pub mod camera;
pub mod cli;
pub mod color;
pub mod img;
pub mod light;
pub mod render;
pub mod serialize;
