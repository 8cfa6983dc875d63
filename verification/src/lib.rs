//! Decoder for GeoTIFF raster files.
//!
//! A file is a byte sequence: an eight-byte header that fixes the byte order,
//! one image file directory of tagged values, the raster stored as strips or
//! as tiles, and a directory of geo keys nested in one of the tags.
//! Every decoding step is a function of those bytes, and each carries a
//! contract that says which value it yields and when it fails.

pub mod endian;
pub mod lowlevel;
pub mod raster;
pub mod reader;
pub mod tiff;

pub use crate::tiff::TIFF;
