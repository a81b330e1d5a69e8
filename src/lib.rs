//! Encoding and decoding of values in the MTProto binary format.
//!
//! Every value is written as a stream of little-endian words: integers are
//! widened to 32 or 64 bits, booleans become one of two 32-bit constants,
//! and strings and byte blobs get a length header and zero padding so that
//! the whole encoding stays aligned to 4 bytes.
pub mod de;
pub mod encoding;
pub mod error;
pub mod laws;
pub mod ser;
pub mod wire;
