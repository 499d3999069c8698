//! Recording storage: file naming, run annotations, image export checks
//! and reader statistics.

pub mod naming;
pub mod annotation;
pub mod tiff;
pub mod reader;
pub mod recording;
pub mod documents;
pub mod zarr;
pub mod columnar;
pub mod manifest;
