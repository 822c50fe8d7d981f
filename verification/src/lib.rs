//! A software triangle rasterizer whose arithmetic is carried out in
//! 16.16 fixed point, so that every step of the pipeline — perspective
//! division, bounding-box computation, barycentric coverage testing,
//! attribute interpolation and pixel writes — has an exact mathematical
//! description and is proved against it.
//!
//! - [`fixed`] holds the saturating fixed-point scalar type [`Fx`];
//! - [`geom`] the small fixed-point vector types;
//! - [`interpolate`] the attribute-interpolation capability;
//! - [`pipeline`] the shading-pipeline trait and two simple pipelines;
//! - [`raster`] the engine itself, whose effect on the byte buffer is
//!   pinned down exactly by [`raster::rasterize_spec`];
//! - [`laws`] proved statements about the engine: the three-bound
//!   coverage test, exact interpolation at corners, painter's-algorithm
//!   overwrite order, off-screen triangles writing nothing, the channel
//!   byte mapping, and the untouched fourth byte of every pixel.

pub mod fixed;
pub mod geom;
pub mod interpolate;
pub mod pipeline;
pub mod raster;
pub mod laws;

pub use fixed::Fx;
pub use fixed::SCALE;
pub use geom::{Vec2, Vec3, Vec4};
pub use interpolate::Interpolate;
pub use pipeline::PipelineTrait;
pub use raster::rasterize;
