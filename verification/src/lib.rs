//! Image buffers and the integer side of resampling, filtering and
//! unsharp masking.

pub mod buffer;
pub mod imageops;

pub use buffer::ImageBuf;
