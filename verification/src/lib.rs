//! Transcoding between signed PCM audio samples and RGB raster pixels.
//!
//! The crate has three layers, leaves first:
//! - [`sample`]: the per-sample codec between a signed 16/24-bit PCM sample
//!   and an unsigned pixel channel triple, including the RGB565 packing;
//! - [`mapper`]: the stream mapper that walks pixels or samples in row-major
//!   order, handling grayscale byte interleaving, end-of-stream padding,
//!   channel rotation and image dimension inference;
//! - [`header`]: the RIFF/WAVE post-processor that splices a private
//!   16-byte chunk carrying the image dimensions into a finished file, and
//!   the matching reader that recovers them before decoding.
//!
//! Container parsing and file I/O are left to callers; every function here
//! works on plain values and is verified against its contract.

pub mod error;
pub mod header;
pub mod mapper;
pub mod sample;
