//! Non-destructive raster image edit engine.
//!
//! The engine holds an original image, an ordered set of adjustable filters,
//! and produces rendered previews or exports without overwriting the source
//! pixels. All numeric parameters are fixed-point integers in milli-units
//! (1000 = 1.0); pixel channels are 8-bit.
//!
//! Leaf-first: [`num`] and [`color`] hold the shared arithmetic, [`image`]
//! the raster type, [`curve`] the spline tone curve, [`filters`] the
//! fixed-slot parameter table with its delta/merge algebra, [`kernels`]
//! the per-pixel CPU filters, [`rendering`] the dispatcher that walks a
//! filter table, [`buffers`] the multi-colorspace cache, [`session`] the
//! edit orchestrator, and [`histogram`] the statistics and row-buffer
//! operations.

pub mod num;
pub mod color;
pub mod image;
pub mod buffers;
pub mod curve;
pub mod filters;
pub mod kernels;
pub mod rendering;
pub mod session;
pub mod histogram;
