//! Buffer abstractions for TNS protocol encoding/decoding
//!
//! This module provides buffer types for reading and writing binary TNS protocol data.
//! Integers in the compact form ("UB") are a length byte followed by that many bytes, most
//! significant first. Byte strings are a length byte followed by the bytes, or, where they are
//! long, a marker followed by chunks.

pub mod laws;
pub mod read;
pub mod write;

pub use read::ReadBuffer;
pub use write::WriteBuffer;
