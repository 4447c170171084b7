//! A 3x3 convolution filter over RGBA8 rasters, with verified contracts.
//!
//! `filter::process_image` applies a kernel to every interior pixel of a
//! row-major RGBA8 buffer, leaving the 1-pixel border zero and each interior
//! pixel's alpha unchanged. Weights are rational (integer numerators over a
//! common divisor), so every weighted sum is exact; the clamped quotient is
//! truncated to an 8-bit channel.

pub mod filter;
pub mod kernel;
pub mod laws;
pub mod raster;
