//! Error kinds shared by the container, chunk and confidentiality layers.

use vstd::prelude::*;

verus! {

/// What went wrong during an operation on a container, a chunk or an
/// encrypted payload.
#[derive(Clone, Copy, Debug, PartialEq, Eq, Structural)]
pub enum PngmeError {
    /// Malformed input: a bad signature, truncated chunk framing,
    /// non-alphabetic tag bytes, or a truncated or undecodable encrypted
    /// blob.
    Format,
    /// A chunk's stored checksum did not match the checksum recomputed over
    /// its tag and payload.
    Integrity,
    /// A removal targeted a tag that no chunk in the container carries.
    NotFound,
    /// Authenticated decryption failed: wrong password or tampered data, or
    /// the decrypted bytes were not valid UTF-8.
    Crypto,
    /// Payload bytes were not valid UTF-8 when rendered as text.
    Encoding,
}

impl PngmeError {
    /// A short human-readable description of the error kind.
    pub fn message(&self) -> (r: &'static str)
        ensures
            r@.len() > 0,
    {
        let s: &'static str = match self {
            PngmeError::Format => "malformed input",
            PngmeError::Integrity => "checksum mismatch",
            PngmeError::NotFound => "no chunk with the requested type",
            PngmeError::Crypto => "decryption failed: wrong password or corrupted data",
            PngmeError::Encoding => "payload is not valid UTF-8 text",
        };
        proof {
            reveal_strlit("malformed input");
            reveal_strlit("checksum mismatch");
            reveal_strlit("no chunk with the requested type");
            reveal_strlit("decryption failed: wrong password or corrupted data");
            reveal_strlit("payload is not valid UTF-8 text");
        }
        s
    }
}

} // verus!
