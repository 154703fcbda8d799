//! One-shot, buffer-oriented DEFLATE, zlib and gzip compression.
//!
//! The library exposes three one-shot operations per format: a worst-case
//! output-size bound, a compress call that writes into a caller-sized buffer,
//! and a decompress call that does the same.  Buffers are never grown: a
//! too-small output buffer yields a typed `InsufficientSpace` error, and a
//! structurally invalid input yields `BadData`.  The raw DEFLATE entropy
//! coding itself is delegated to an outside engine; the zlib and gzip
//! container framing (headers, Adler-32 and CRC-32 trailers, the gzip size
//! field) is built and checked here.

pub mod checksum;
pub mod compress;
pub mod decompress;
pub mod engine;
pub mod framing;
pub mod level;

pub use checksum::{adler32, crc32, Crc};
pub use compress::{CompressionError, Compressor};
pub use decompress::{DecompressionError, Decompressor};
pub use level::{CompressionLvl, CompressionLvlError, CompressionLvlIter};
