//! Decoding of fixed-width, little-endian binary records.
//!
//! A type that implements [`decode::FromExactBytesLe`] declares the exact
//! number of bytes it decodes from and a pure decode function over exactly
//! that many bytes. Fixed-width integers are the primitive decodable types;
//! a record type decodes by repeatedly splitting its buffer with
//! [`split::split_fixed`] and decoding each prefix with the field type's own
//! decoder, consuming the buffer exactly.

pub mod decode;
pub mod error;
pub mod header;
pub mod split;
pub mod value;
