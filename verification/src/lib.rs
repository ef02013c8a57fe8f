//! A minimal content-addressable object store.
//!
//! Typed byte payloads are framed with an ASCII header `"<kind> <size>\0"`,
//! compressed for on-disk storage, and addressed by the SHA-1 digest of the
//! uncompressed header-plus-payload bytes.

pub mod bytes;
pub mod digest;
pub mod digits;
pub mod error;
pub mod header;
pub mod kind;
pub mod object;
pub mod store;
pub mod utf8;
pub mod zlib;
