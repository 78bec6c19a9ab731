//! One length-prefixed, CRC-protected record of the container, and its
//! exact byte layout.

use crate::bytes::{u32_be_bytes, u32_be_value, u32_from_be, u32_to_be};
use crate::chunk_type::{tag_bytes_alphabetic, ChunkType};
use crate::error::PngmeError;
use crate::text::string_from_utf8;
use vstd::prelude::*;
use vstd::utf8::{decode_utf8, valid_utf8};

verus! {

/// The CRC-32/ISO-HDLC checksum of a byte sequence, as the crc crate
/// computes it.
pub uninterp spec fn crc32_of(bytes: Seq<u8>) -> u32;

/// Relies on crc's `Crc::<u32>::checksum` with the CRC-32/ISO-HDLC
/// algorithm: the result depends on the input bytes alone.
#[verifier::external_body]
fn crc32(bytes: &Vec<u8>) -> (r: u32)
    ensures
        r == crc32_of(bytes@),
{
    crc::Crc::<u32>::new(&crc::CRC_32_ISO_HDLC).checksum(bytes.as_slice())
}

/// Appends every byte of `src` to `dst`.
pub fn push_all(dst: &mut Vec<u8>, src: &[u8])
    ensures
        final(dst)@ == old(dst)@ + src@,
{
    let mut i: usize = 0;
    while i < src.len()
        invariant
            i <= src@.len(),
            dst@ == old(dst)@ + src@.subrange(0, i as int),
        decreases src@.len() - i,
    {
        let b = src[i];
        dst.push(b);
        proof {
            assert(old(dst)@ + src@.subrange(0, i + 1) =~= (old(dst)@ + src@.subrange(
                0,
                i as int,
            )).push(b));
        }
        i = i + 1;
    }
    proof {
        assert(src@.subrange(0, src@.len() as int) =~= src@);
    }
}

/// The serialized form of a chunk with the given tag and payload:
/// `length (4 bytes, big-endian) ‖ tag (4 bytes) ‖ payload ‖
/// checksum (4 bytes, big-endian)`.
pub open spec fn chunk_ser(tag: Seq<u8>, data: Seq<u8>) -> Seq<u8> {
    u32_to_be(data.len() as u32) + tag + data + u32_to_be(crc32_of(tag + data))
}

/// Parsing one chunk from the front of `s`: the declared length must fit in
/// the available bytes, the tag must be alphabetic, and the stored checksum
/// must match the one recomputed over tag and payload. Bytes past the chunk
/// are ignored.
pub open spec fn spec_parse_chunk(s: Seq<u8>) -> Result<(Seq<u8>, Seq<u8>), PngmeError> {
    if s.len() < 12 {
        Err(PngmeError::Format)
    } else {
        let len = u32_from_be(s.subrange(0, 4)) as int;
        if s.len() < 12 + len {
            Err(PngmeError::Format)
        } else {
            let tag = s.subrange(4, 8);
            let data = s.subrange(8, 8 + len);
            let stored = u32_from_be(s.subrange(8 + len, 12 + len));
            if !tag_bytes_alphabetic(tag) {
                Err(PngmeError::Format)
            } else if stored != crc32_of(tag + data) {
                Err(PngmeError::Integrity)
            } else {
                Ok((tag, data))
            }
        }
    }
}

/// Round trip: the serialized form of a chunk with the given tag and
/// payload parses back to exactly that tag and payload, whatever bytes
/// follow it.
pub proof fn lemma_parse_chunk_ser(tag: Seq<u8>, data: Seq<u8>, extra: Seq<u8>)
    requires
        tag_bytes_alphabetic(tag),
        data.len() <= u32::MAX,
    ensures
        spec_parse_chunk(chunk_ser(tag, data) + extra) == Ok::<_, PngmeError>((tag, data)),
        (chunk_ser(tag, data) + extra).len() == 12 + data.len() + extra.len(),
        (chunk_ser(tag, data) + extra).skip(12 + data.len() as int) == extra,
{
    let s = chunk_ser(tag, data) + extra;
    let len = data.len() as int;
    assert(s.len() == 12 + len + extra.len());
    assert(s.subrange(0, 4) =~= u32_to_be(data.len() as u32));
    crate::bytes::lemma_u32_be_round_trip(data.len() as u32);
    assert(u32_from_be(s.subrange(0, 4)) == data.len() as u32);
    assert(s.subrange(4, 8) =~= tag);
    assert(s.subrange(8, 8 + len) =~= data);
    assert(s.subrange(8 + len, 12 + len) =~= u32_to_be(crc32_of(tag + data)));
    crate::bytes::lemma_u32_be_round_trip(crc32_of(tag + data));
    assert(s.skip(12 + len) =~= extra);
}

/// Round trip for a whole chunk value: parsing the serialized form of a
/// well-formed chunk yields its own tag and payload.
pub proof fn lemma_chunk_round_trip(c: Chunk)
    requires
        c.wf(),
    ensures
        spec_parse_chunk(c.spec_serialized()) == Ok::<_, PngmeError>(
            (c.spec_tag(), c.spec_data()),
        ),
{
    lemma_parse_chunk_ser(c.spec_tag(), c.spec_data(), Seq::empty());
    assert(c.spec_serialized() + Seq::<u8>::empty() =~= c.spec_serialized());
}

/// Checksum sensitivity: replacing the tag or payload region of a
/// serialized chunk, while keeping the declared length and the stored
/// checksum, is rejected as an integrity failure whenever the replacement's
/// checksum differs from the stored one and the replaced tag still reads as
/// four ASCII letters. A corruption that turns a tag byte into a non-letter
/// is rejected earlier, as a format failure.
pub proof fn lemma_checksum_sensitivity(tag: Seq<u8>, data: Seq<u8>, tag2: Seq<u8>, data2: Seq<u8>)
    requires
        tag_bytes_alphabetic(tag),
        data.len() <= u32::MAX,
        tag_bytes_alphabetic(tag2),
        data2.len() == data.len(),
        crc32_of(tag2 + data2) != crc32_of(tag + data),
    ensures
        spec_parse_chunk(
            u32_to_be(data.len() as u32) + tag2 + data2 + u32_to_be(crc32_of(tag + data)),
        ) == Err::<(Seq<u8>, Seq<u8>), _>(PngmeError::Integrity),
{
    let s = u32_to_be(data.len() as u32) + tag2 + data2 + u32_to_be(crc32_of(tag + data));
    let len = data.len() as int;
    assert(s.len() == 12 + len);
    assert(s.subrange(0, 4) =~= u32_to_be(data.len() as u32));
    crate::bytes::lemma_u32_be_round_trip(data.len() as u32);
    assert(u32_from_be(s.subrange(0, 4)) == data.len() as u32);
    assert(s.subrange(4, 8) =~= tag2);
    assert(s.subrange(8, 8 + len) =~= data2);
    assert(s.subrange(8 + len, 12 + len) =~= u32_to_be(crc32_of(tag + data)));
    crate::bytes::lemma_u32_be_round_trip(crc32_of(tag + data));
}

/// One record of the container: a tag, an owned payload, and the CRC-32
/// checksum computed over tag-then-payload at construction time.
pub struct Chunk {
    chunk_type: ChunkType,
    data: Vec<u8>,
    crc: u32,
}

impl Chunk {
    /// The tag of this chunk.
    pub closed spec fn spec_chunk_type(self) -> ChunkType {
        self.chunk_type
    }

    /// The tag bytes of this chunk.
    pub open spec fn spec_tag(self) -> Seq<u8> {
        self.spec_chunk_type()@
    }

    /// The payload bytes of this chunk.
    pub closed spec fn spec_data(self) -> Seq<u8> {
        self.data@
    }

    /// The stored checksum of this chunk.
    pub closed spec fn spec_crc(self) -> u32 {
        self.crc
    }

    /// Well-formed: the tag is four ASCII letters, the payload length fits
    /// in 32 bits, and the stored checksum is the one computed over tag and
    /// payload.
    pub open spec fn wf(self) -> bool {
        &&& self.spec_chunk_type().wf()
        &&& self.spec_data().len() <= u32::MAX
        &&& self.spec_crc() == crc32_of(self.spec_tag() + self.spec_data())
    }

    /// The exact byte layout of this chunk.
    pub open spec fn spec_serialized(self) -> Seq<u8> {
        chunk_ser(self.spec_tag(), self.spec_data())
    }

    /// Builds a chunk from a tag and a payload, computing the checksum
    /// over tag-then-payload immediately.
    pub fn new(chunk_type: ChunkType, data: Vec<u8>) -> (r: Chunk)
        requires
            chunk_type.wf(),
            data@.len() <= u32::MAX,
        ensures
            r.spec_chunk_type() == chunk_type,
            r.spec_data() == data@,
            r.spec_crc() == crc32_of(chunk_type@ + data@),
            r.wf(),
    {
        let tag_bytes = chunk_type.bytes();
        let mut crc_input: Vec<u8> = Vec::new();
        push_all(&mut crc_input, tag_bytes.as_slice());
        push_all(&mut crc_input, data.as_slice());
        proof {
            assert(crc_input@ =~= chunk_type@ + data@);
        }
        let crc = crc32(&crc_input);
        Chunk { chunk_type, data, crc }
    }

    /// The payload byte count.
    pub fn length(&self) -> (r: u32)
        requires
            self.wf(),
        ensures
            r == self.spec_data().len(),
    {
        self.data.len() as u32
    }

    /// The tag of this chunk.
    pub fn chunk_type(&self) -> (r: &ChunkType)
        ensures
            *r == self.spec_chunk_type(),
    {
        &self.chunk_type
    }

    /// The payload bytes.
    pub fn data(&self) -> (r: &[u8])
        ensures
            r@ == self.spec_data(),
    {
        self.data.as_slice()
    }

    /// The stored checksum.
    pub fn crc(&self) -> (r: u32)
        ensures
            r == self.spec_crc(),
    {
        self.crc
    }

    /// The payload rendered as text; fails exactly when the payload is not
    /// valid UTF-8.
    pub fn data_as_string(&self) -> (r: Result<String, PngmeError>)
        ensures
            match r {
                Ok(s) => valid_utf8(self.spec_data()) && s@ == decode_utf8(self.spec_data()),
                Err(e) => !valid_utf8(self.spec_data()) && e == PngmeError::Encoding,
            },
    {
        let copy = vstd::slice::slice_to_vec(self.data.as_slice());
        match string_from_utf8(copy) {
            Some(s) => Ok(s),
            None => Err(PngmeError::Encoding),
        }
    }

    /// The payload rendered as text, or empty text when the payload is not
    /// valid UTF-8; never fails.
    pub fn display_text(&self) -> (r: String)
        ensures
            r@ == if valid_utf8(self.spec_data()) {
                decode_utf8(self.spec_data())
            } else {
                Seq::<char>::empty()
            },
    {
        match self.data_as_string() {
            Ok(s) => s,
            Err(_) => String::new(),
        }
    }

    /// Serializes the chunk into its exact byte layout.
    pub fn as_bytes(&self) -> (r: Vec<u8>)
        requires
            self.wf(),
        ensures
            r@ == self.spec_serialized(),
    {
        let mut out = u32_be_bytes(self.length());
        let tag_bytes = self.chunk_type.bytes();
        push_all(&mut out, tag_bytes.as_slice());
        push_all(&mut out, self.data.as_slice());
        let crc_bytes = u32_be_bytes(self.crc);
        push_all(&mut out, crc_bytes.as_slice());
        proof {
            assert(out@ =~= self.spec_serialized());
        }
        out
    }

    /// Parses one chunk from the front of `value`, verifying framing, tag
    /// and checksum exactly as `spec_parse_chunk` states.
    pub fn try_from(value: &[u8]) -> (r: Result<Chunk, PngmeError>)
        ensures
            match r {
                Ok(c) => spec_parse_chunk(value@) == Ok::<_, PngmeError>(
                    (c.spec_tag(), c.spec_data()),
                ) && c.wf(),
                Err(e) => spec_parse_chunk(value@) == Err::<(Seq<u8>, Seq<u8>), _>(e),
            },
    {
        if value.len() < 12 {
            return Err(PngmeError::Format);
        }
        let declared = u32_be_value(value[0], value[1], value[2], value[3]);
        proof {
            assert(seq![value@[0], value@[1], value@[2], value@[3]] =~= value@.subrange(0, 4));
        }
        let len = declared as usize;
        if value.len() - 12 < len {
            return Err(PngmeError::Format);
        }
        let tag_arr: [u8; 4] = [value[4], value[5], value[6], value[7]];
        proof {
            assert(tag_arr@ =~= value@.subrange(4, 8));
        }
        let chunk_type = match ChunkType::try_from(tag_arr) {
            Ok(t) => t,
            Err(e) => {
                return Err(e);
            },
        };
        let data = vstd::slice::slice_to_vec(&value[8..8 + len]);
        let stored = u32_be_value(
            value[8 + len],
            value[9 + len],
            value[10 + len],
            value[11 + len],
        );
        proof {
            assert(seq![
                value@[8 + len],
                value@[9 + len],
                value@[10 + len],
                value@[11 + len],
            ] =~= value@.subrange(8 + len, 12 + len));
        }
        let mut crc_input: Vec<u8> = Vec::new();
        let tag_bytes = chunk_type.bytes();
        push_all(&mut crc_input, tag_bytes.as_slice());
        push_all(&mut crc_input, data.as_slice());
        proof {
            assert(crc_input@ =~= value@.subrange(4, 8) + value@.subrange(8, 8 + len as int));
        }
        let computed = crc32(&crc_input);
        if computed != stored {
            return Err(PngmeError::Integrity);
        }
        let chunk = Chunk::new(chunk_type, data);
        Ok(chunk)
    }
}

} // verus!
