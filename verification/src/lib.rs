//! A verified codec for the mozlz4 container format: a fixed 8-byte magic
//! tag, a little-endian 32-bit uncompressed-size header, and an LZ4 block
//! payload. The container layout, its validation and its size arithmetic are
//! verified; the LZ4 block primitive is an outside capability reached through
//! a small trusted boundary.

pub mod block;
pub mod bytes;
pub mod codec;

pub use codec::{compress, decompress, Error};
