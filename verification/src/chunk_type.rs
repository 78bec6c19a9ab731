//! The 4-byte ASCII tag that identifies a chunk's purpose, with its
//! bit-encoded property flags.

use crate::error::PngmeError;
use vstd::prelude::*;
use vstd::string::StringSliceAdditionalSpecFns;

verus! {

/// Is `b` the byte of an ASCII letter?
pub open spec fn is_ascii_letter(b: u8) -> bool {
    (65 <= b && b <= 90) || (97 <= b && b <= 122)
}

/// Is `b` the byte of an uppercase ASCII letter?
pub open spec fn is_ascii_upper(b: u8) -> bool {
    65 <= b && b <= 90
}

/// Do the four bytes of `s` form a well-formed tag (exactly four ASCII
/// letters)?
pub open spec fn tag_bytes_alphabetic(s: Seq<u8>) -> bool {
    s.len() == 4 && forall|i: int| 0 <= i < 4 ==> is_ascii_letter(#[trigger] s[i])
}

/// A chunk type tag: four bytes, each an ASCII letter. Property flags are
/// read from bit 5 (value 32) of individual bytes, never stored.
#[derive(Clone, Copy, Debug, PartialEq, Eq)]
pub struct ChunkType {
    bytes: [u8; 4],
}

impl View for ChunkType {
    type V = Seq<u8>;

    closed spec fn view(&self) -> Seq<u8> {
        self.bytes@
    }
}

impl ChunkType {
    /// Every constructed tag holds exactly four ASCII letters.
    pub open spec fn wf(self) -> bool {
        tag_bytes_alphabetic(self@)
    }

    /// The tag is "critical" iff its first byte is uppercase.
    pub open spec fn spec_is_critical(self) -> bool {
        is_ascii_upper(self@[0])
    }

    /// The tag is "public" iff its second byte is uppercase.
    pub open spec fn spec_is_public(self) -> bool {
        is_ascii_upper(self@[1])
    }

    /// The reserved bit is valid iff bit 5 of the third byte is clear.
    pub open spec fn spec_is_reserved_bit_valid(self) -> bool {
        self@[2] & 32 == 0
    }

    /// The tag is "safe to copy" iff bit 5 of the fourth byte is set.
    pub open spec fn spec_is_safe_to_copy(self) -> bool {
        self@[3] & 32 != 0
    }

    /// A tag is "valid" iff all four bytes are ASCII letters and the
    /// reserved-bit rule holds.
    pub open spec fn spec_is_valid(self) -> bool {
        tag_bytes_alphabetic(self@) && self.spec_is_reserved_bit_valid()
    }

    /// Accepts exactly the 4-byte arrays whose bytes are all ASCII letters.
    pub fn try_from(value: [u8; 4]) -> (r: Result<ChunkType, PngmeError>)
        ensures
            match r {
                Ok(t) => tag_bytes_alphabetic(value@) && t@ == value@,
                Err(e) => !tag_bytes_alphabetic(value@) && e == PngmeError::Format,
            },
    {
        let b0 = value[0];
        let b1 = value[1];
        let b2 = value[2];
        let b3 = value[3];
        if is_letter(b0) && is_letter(b1) && is_letter(b2) && is_letter(b3) {
            let t = ChunkType { bytes: value };
            proof {
                assert(forall|i: int| 0 <= i < 4 ==> is_ascii_letter(#[trigger] value@[i])) by {
                    assert(value@[0] == b0 && value@[1] == b1 && value@[2] == b2 && value@[3]
                        == b3);
                }
            }
            Ok(t)
        } else {
            Err(PngmeError::Format)
        }
    }

    /// Accepts exactly the strings of four ASCII letters; the tag holds
    /// their byte values.
    pub fn from_str(s: &str) -> (r: Result<ChunkType, PngmeError>)
        ensures
            match r {
                Ok(t) => tag_bytes_alphabetic(s.spec_bytes()) && t@ == s.spec_bytes(),
                Err(e) => !tag_bytes_alphabetic(s.spec_bytes()) && e == PngmeError::Format,
            },
    {
        let bs = s.as_bytes();
        if bs.len() == 4 {
            let value: [u8; 4] = [bs[0], bs[1], bs[2], bs[3]];
            proof {
                assert(value@ =~= s.spec_bytes());
            }
            ChunkType::try_from(value)
        } else {
            Err(PngmeError::Format)
        }
    }

    /// The four raw bytes of the tag.
    pub fn bytes(&self) -> (r: [u8; 4])
        ensures
            r@ == self@,
    {
        self.bytes
    }

    /// Bit query: uppercase first byte means the chunk is critical.
    pub fn is_critical(&self) -> (r: bool)
        ensures
            r == self.spec_is_critical(),
    {
        65 <= self.bytes[0] && self.bytes[0] <= 90
    }

    /// Bit query: uppercase second byte means the chunk is public.
    pub fn is_public(&self) -> (r: bool)
        ensures
            r == self.spec_is_public(),
    {
        65 <= self.bytes[1] && self.bytes[1] <= 90
    }

    /// Bit query: bit 5 of the third byte must be clear for a conforming
    /// tag.
    pub fn is_reserved_bit_valid(&self) -> (r: bool)
        ensures
            r == self.spec_is_reserved_bit_valid(),
    {
        self.bytes[2] & 32 == 0
    }

    /// Bit query: bit 5 of the fourth byte set means safe to copy.
    pub fn is_safe_to_copy(&self) -> (r: bool)
        ensures
            r == self.spec_is_safe_to_copy(),
    {
        self.bytes[3] & 32 != 0
    }

    /// All four bytes are ASCII letters and the reserved-bit rule holds.
    /// A tag built by `try_from` can still report `false` here: parsing is
    /// permissive, validity is a separate query.
    pub fn is_valid(&self) -> (r: bool)
        ensures
            r == self.spec_is_valid(),
    {
        let alpha = is_letter(self.bytes[0]) && is_letter(self.bytes[1]) && is_letter(
            self.bytes[2],
        ) && is_letter(self.bytes[3]);
        proof {
            assert(tag_bytes_alphabetic(self@) ==> is_ascii_letter(self@[0]) && is_ascii_letter(
                self@[1],
            ) && is_ascii_letter(self@[2]) && is_ascii_letter(self@[3]));
        }
        alpha && self.is_reserved_bit_valid()
    }

    /// The tag rendered as text, one character per byte. Lossless for the
    /// ASCII letters every constructed tag holds.
    pub fn to_text(&self) -> (r: String)
        requires
            self.wf(),
        ensures
            r@ == self@.map_values(|b: u8| b as char),
            r@.len() == 4,
    {
        crate::text::ascii_to_string(&self.bytes)
    }
}

/// Decides `is_ascii_letter` on a byte.
pub fn is_letter(b: u8) -> (r: bool)
    ensures
        r == is_ascii_letter(b),
{
    (65 <= b && b <= 90) || (97 <= b && b <= 122)
}

} // verus!
