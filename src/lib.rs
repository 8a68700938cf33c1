//! Length-prefixed, typed, checksummed byte records in the PNG chunk layout.

pub mod chunk;
pub mod chunk_type;
pub mod error;
