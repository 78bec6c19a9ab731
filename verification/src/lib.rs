//! Hiding text messages inside PNG-style chunk containers.
//!
//! A container is the fixed 8-byte PNG signature followed by an ordered
//! sequence of chunks; each chunk is a length-prefixed, CRC-32-protected
//! record tagged with a 4-letter ASCII type. A message can be embedded as a
//! new chunk, optionally encrypted with a password-derived key before it
//! becomes the chunk payload.

pub mod args;
pub mod bytes;
pub mod chunk;
pub mod chunk_type;
pub mod commands;
pub mod crypto;
pub mod error;
pub mod png;
pub mod text;
