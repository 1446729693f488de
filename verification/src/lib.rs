//! A voxel-display drawing core: exact integer rasterization of lines,
//! planes, frames, cuboids, spheres and shells; positional decoding of
//! drawing commands into a shape (an ordered sequence of grid cells) and a
//! shader (a pure per-cell color function); and compositing of the shaded
//! cells into a fixed-size cubic grid of colors.
//!
//! Colors are carried as fixed-point channel values so that every step of
//! the pipeline, gradient evaluation included, is exact integer arithmetic.
//!
//! Compositing follows the clip/replace policy: a cell outside the grid
//! is silently skipped, and a write replaces the stored color entirely.

pub mod bresenham3d;
pub mod geometry;
pub mod model;
pub mod paint;
pub mod readers;
pub mod resolve;
pub mod shader;
