//! Chunk-level reading and writing of PNG files: typed chunk codes, checksummed
//! chunk records, and the signature-prefixed container that holds them.
pub mod bytes;
pub mod chunk;
pub mod chunk_type;
pub mod png;
