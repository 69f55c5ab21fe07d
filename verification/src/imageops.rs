//! Image processing operations.

pub mod sample;
