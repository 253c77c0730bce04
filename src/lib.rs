//! Block-based DCT image container: tiling, binary header codec with
//! deferred offset patching, and post-compression dispatch.

pub mod codec;
pub mod coefficients;
pub mod dgf;
pub mod error;
pub mod format;
pub mod pixels;
pub mod post;
pub mod tiling;
