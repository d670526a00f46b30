//! Codec for PNG-style chunks: a four-byte ASCII type tag whose letter case
//! encodes metadata flags, and a length-prefixed, CRC-protected record that
//! carries an arbitrary payload.

pub mod chunk;
pub mod chunk_type;
pub mod crc32;
pub mod error;
pub mod text;
pub mod wire;
