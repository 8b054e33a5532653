//! Core of a tiled image super-resolution engine.
//!
//! The library models an RGB8 raster as plain bytes and verifies the
//! pipeline around it: mirror-padded tile extraction, stitching of
//! upscaled tiles, planar-CHW marshalling, model/scale caching with
//! negative entries, and the orchestration decisions (batch override,
//! tile sizing, scale reconciliation).

pub mod cache;
pub mod engine;
pub mod error;
pub mod geometry;
pub mod gpu;
pub mod marshal;
pub mod models;
pub mod raster;
pub mod resize;
pub mod strutil;
pub mod stub;
pub mod sysmem;
pub mod tiling;

pub use error::AppError;
