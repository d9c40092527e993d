//! A binary record format shaped after the chunks of a PNG file.
//!
//! A record pairs a four-byte type code with a payload of arbitrary bytes and
//! protects both with a CRC-32 checksum. The crate turns such records into
//! their exact wire bytes and reads wire bytes back, refusing every buffer
//! that is not a well-formed record. All of it is verified with Verus.

pub mod error;
pub mod text;
pub mod chunk_type;
pub mod checksum;
pub mod frame;
pub mod chunk;
