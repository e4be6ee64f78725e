//! A native codec boundary for a game asset pipeline: PNG image
//! encoding/decoding with 8-bit RGBA normalization, and decompression of
//! raw DEFLATE blocks embedded in a proprietary container format.
//!
//! Every buffer that crosses the boundary is an owned plain value; the
//! thin C-compatible layer around this library is responsible only for
//! pointer marshalling and for pairing each allocation with exactly one
//! matching free.

pub mod adler;
pub mod errors;
pub mod inflate;
pub mod png_codec;
pub mod raw_image;
