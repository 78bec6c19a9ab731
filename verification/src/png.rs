//! The container: an 8-byte fixed signature followed by an ordered sequence
//! of chunks, with lookup, append, first-match removal and full
//! serialization.

use crate::chunk::{chunk_ser, spec_parse_chunk, Chunk};
use crate::error::PngmeError;
use vstd::prelude::*;
use vstd::string::StringSliceAdditionalSpecFns;

verus! {

/// The fixed 8-byte signature that opens every container.
pub open spec fn png_signature() -> Seq<u8> {
    seq![137u8, 80u8, 78u8, 71u8, 13u8, 10u8, 26u8, 10u8]
}

/// The (tag bytes, payload bytes) pairs of a chunk sequence.
pub open spec fn chunk_recs(cs: Seq<Chunk>) -> Seq<(Seq<u8>, Seq<u8>)> {
    cs.map_values(|c: Chunk| (c.spec_tag(), c.spec_data()))
}

/// The concatenation of the serialized forms of the chunks, in order.
pub open spec fn chunks_ser(cs: Seq<Chunk>) -> Seq<u8>
    decreases cs.len(),
{
    if cs.len() == 0 {
        Seq::empty()
    } else {
        cs[0].spec_serialized() + chunks_ser(cs.drop_first())
    }
}

/// Parsing a byte stream as a chunk sequence: chunks are read one after the
/// other, each consuming `12 + declared length` bytes, until the stream is
/// exhausted. An empty stream is a legal empty sequence; any chunk error is
/// propagated.
pub open spec fn spec_parse_chunks(s: Seq<u8>) -> Result<Seq<(Seq<u8>, Seq<u8>)>, PngmeError>
    decreases s.len(),
{
    if s.len() == 0 {
        Ok(Seq::empty())
    } else {
        match spec_parse_chunk(s) {
            Err(e) => Err(e),
            Ok((tag, data)) => match spec_parse_chunks(s.skip(12 + data.len() as int)) {
                Err(e) => Err(e),
                Ok(rest) => Ok(seq![(tag, data)] + rest),
            },
        }
    }
}

/// Parsing a whole container byte stream: the first 8 bytes must equal the
/// fixed signature, the rest parses as a chunk sequence.
pub open spec fn spec_parse_container(s: Seq<u8>) -> Result<Seq<(Seq<u8>, Seq<u8>)>, PngmeError> {
    if s.len() < 8 || s.subrange(0, 8) != png_signature() {
        Err(PngmeError::Format)
    } else {
        spec_parse_chunks(s.skip(8))
    }
}

/// The concatenated serialized forms of (tag, payload) records, each with
/// its freshly computed checksum.
pub open spec fn recs_ser(rs: Seq<(Seq<u8>, Seq<u8>)>) -> Seq<u8>
    decreases rs.len(),
{
    if rs.len() == 0 {
        Seq::empty()
    } else {
        chunk_ser(rs[0].0, rs[0].1) + recs_ser(rs.drop_first())
    }
}

/// A chunk sequence serializes exactly as its (tag, payload) records do.
pub proof fn lemma_chunks_ser_is_recs_ser(cs: Seq<Chunk>)
    ensures
        chunks_ser(cs) == recs_ser(chunk_recs(cs)),
    decreases cs.len(),
{
    if cs.len() == 0 {
        assert(chunk_recs(cs).len() == 0);
    } else {
        lemma_chunks_ser_is_recs_ser(cs.drop_first());
        assert(chunk_recs(cs.drop_first()) =~= chunk_recs(cs).drop_first());
        assert(chunk_recs(cs)[0].0 == cs[0].spec_tag());
        assert(chunk_recs(cs)[0].1 == cs[0].spec_data());
    }
}

/// The position of the first record in `rs` whose tag bytes equal `tag`.
pub open spec fn spec_first_match_rec(rs: Seq<(Seq<u8>, Seq<u8>)>, tag: Seq<u8>) -> Option<int>
    decreases rs.len(),
{
    if rs.len() == 0 {
        None
    } else if rs[0].0 == tag {
        Some(0int)
    } else {
        match spec_first_match_rec(rs.drop_first(), tag) {
            None => None,
            Some(i) => Some(i + 1),
        }
    }
}

/// The first match among chunks is the first match among their records.
pub proof fn lemma_first_match_recs(cs: Seq<Chunk>, tag: Seq<u8>)
    ensures
        spec_first_match(cs, tag) == spec_first_match_rec(chunk_recs(cs), tag),
    decreases cs.len(),
{
    if cs.len() == 0 {
    } else {
        lemma_first_match_recs(cs.drop_first(), tag);
        assert(chunk_recs(cs.drop_first()) =~= chunk_recs(cs).drop_first());
        assert(chunk_recs(cs)[0].0 == cs[0].spec_tag());
    }
}

/// The position of the first chunk in `cs` whose tag bytes equal `tag`.
pub open spec fn spec_first_match(cs: Seq<Chunk>, tag: Seq<u8>) -> Option<int>
    decreases cs.len(),
{
    if cs.len() == 0 {
        None
    } else if cs[0].spec_tag() == tag {
        Some(0int)
    } else {
        match spec_first_match(cs.drop_first(), tag) {
            None => None,
            Some(i) => Some(i + 1),
        }
    }
}

/// First-match semantics: the index returned by `spec_first_match` is the
/// earliest chunk carrying the tag, and a `None` means no chunk carries it.
pub proof fn lemma_first_match_is_earliest(cs: Seq<Chunk>, tag: Seq<u8>)
    ensures
        match spec_first_match(cs, tag) {
            Some(i) => 0 <= i < cs.len() && cs[i].spec_tag() == tag && forall|j: int|
                0 <= j < i ==> (#[trigger] cs[j].spec_tag()) != tag,
            None => forall|j: int| 0 <= j < cs.len() ==> (#[trigger] cs[j].spec_tag()) != tag,
        },
    decreases cs.len(),
{
    if cs.len() == 0 {
    } else if cs[0].spec_tag() == tag {
    } else {
        lemma_first_match_is_earliest(cs.drop_first(), tag);
        assert(forall|j: int| 1 <= j < cs.len() ==> cs[j] == cs.drop_first()[j - 1]);
    }
}

/// A chunk carrying the tag with no earlier carrier pins the result of
/// `spec_first_match`.
pub proof fn lemma_first_match_from_witness(cs: Seq<Chunk>, tag: Seq<u8>, i: int)
    requires
        0 <= i < cs.len(),
        cs[i].spec_tag() == tag,
        forall|j: int| 0 <= j < i ==> (#[trigger] cs[j].spec_tag()) != tag,
    ensures
        spec_first_match(cs, tag) == Some(i),
    decreases cs.len(),
{
    if i == 0 {
    } else {
        assert(cs[0].spec_tag() != tag);
        let tail = cs.drop_first();
        assert(forall|j: int| 0 <= j < i - 1 ==> tail[j] == cs[j + 1]);
        lemma_first_match_from_witness(tail, tag, i - 1);
    }
}

/// The full byte structure: fixed signature plus ordered chunk sequence.
pub struct Png {
    chunks: Vec<Chunk>,
}

impl View for Png {
    type V = Seq<Chunk>;

    closed spec fn view(&self) -> Seq<Chunk> {
        self.chunks@
    }
}

impl Png {
    /// Every held chunk is well-formed.
    pub open spec fn wf(self) -> bool {
        forall|i: int| 0 <= i < self@.len() ==> (#[trigger] self@[i]).wf()
    }

    /// The exact serialized form: signature bytes, then each chunk's
    /// serialized form in sequence order.
    pub open spec fn spec_serialized(self) -> Seq<u8> {
        png_signature() + chunks_ser(self@)
    }

    /// A container holding the given chunks in order.
    pub fn from_chunks(chunks: Vec<Chunk>) -> (r: Png)
        ensures
            r@ == chunks@,
    {
        Png { chunks }
    }

    /// The held chunks, in sequence order.
    pub fn chunks(&self) -> (r: &[Chunk])
        ensures
            r@ == self@,
    {
        self.chunks.as_slice()
    }

    /// Appends a chunk at the end of the ordered sequence; duplicate tags
    /// are permitted.
    pub fn append_chunk(&mut self, chunk: Chunk)
        ensures
            final(self)@ == old(self)@.push(chunk),
    {
        self.chunks.push(chunk);
    }

    /// Returns the first chunk (in sequence order) whose tag's text form
    /// equals `tag_text`, or `None` if absent.
    pub fn chunk_by_type(&self, tag_text: &str) -> (r: Option<&Chunk>)
        requires
            self.wf(),
        ensures
            match r {
                Some(c) => match spec_first_match(self@, tag_text.spec_bytes()) {
                    Some(i) => *c == self@[i],
                    None => false,
                },
                None => spec_first_match(self@, tag_text.spec_bytes()) is None,
            },
    {
        match self.find_index(tag_text) {
            Some(i) => {
                proof {
                    lemma_first_match_is_earliest(self@, tag_text.spec_bytes());
                }
                Some(&self.chunks[i])
            },
            None => None,
        }
    }

    /// The index of the first chunk whose tag bytes equal the bytes of
    /// `tag_text`, or `None` if no chunk carries that tag.
    pub fn find_index(&self, tag_text: &str) -> (r: Option<usize>)
        ensures
            match r {
                Some(i) => spec_first_match(self@, tag_text.spec_bytes()) == Some(i as int),
                None => spec_first_match(self@, tag_text.spec_bytes()) is None,
            },
    {
        let tag = tag_text.as_bytes();
        let ghost tseq = tag_text.spec_bytes();
        let mut i: usize = 0;
        while i < self.chunks.len()
            invariant
                i <= self@.len(),
                tag@ == tseq,
                tseq == tag_text.spec_bytes(),
                forall|j: int| 0 <= j < i ==> (#[trigger] self@[j].spec_tag()) != tseq,
            decreases self@.len() - i,
        {
            let c = &self.chunks[i];
            if tag_matches(c, tag) {
                proof {
                    assert(*c == self@[i as int]);
                    assert(c.spec_tag() == tseq);
                    lemma_first_match_from_witness(self@, tseq, i as int);
                }
                return Some(i);
            }
            i = i + 1;
        }
        proof {
            lemma_first_match_is_earliest(self@, tseq);
            match spec_first_match(self@, tseq) {
                Some(k) => {
                    assert(self@[k].spec_tag() != tseq);
                },
                None => {},
            }
        }
        None
    }

    /// Removes the first chunk matching `tag_text` and returns it; fails
    /// with `NotFound`, leaving the container unchanged, exactly when no
    /// chunk matches. At most one chunk is removed even if several share
    /// the tag.
    pub fn remove_first_chunk(&mut self, tag_text: &str) -> (r: Result<Chunk, PngmeError>)
        ensures
            match spec_first_match(old(self)@, tag_text.spec_bytes()) {
                Some(i) => match r {
                    Ok(c) => c == old(self)@[i] && final(self)@ == old(self)@.remove(i),
                    Err(_) => false,
                },
                None => match r {
                    Ok(_) => false,
                    Err(e) => e == PngmeError::NotFound && final(self)@ == old(self)@,
                },
            },
    {
        match self.find_index(tag_text) {
            Some(i) => {
                proof {
                    lemma_first_match_is_earliest(self@, tag_text.spec_bytes());
                }
                let c = self.chunks.remove(i);
                Ok(c)
            },
            None => Err(PngmeError::NotFound),
        }
    }

    /// Serializes the container: signature bytes followed by each chunk's
    /// serialized form in sequence order.
    pub fn as_bytes(&self) -> (r: Vec<u8>)
        requires
            self.wf(),
        ensures
            r@ == self.spec_serialized(),
    {
        let mut out: Vec<u8> = signature_bytes();
        let mut i: usize = 0;
        while i < self.chunks.len()
            invariant
                i <= self@.len(),
                self.wf(),
                out@ == png_signature() + chunks_ser(self@.take(i as int)),
            decreases self@.len() - i,
        {
            let c = &self.chunks[i];
            let cb = c.as_bytes();
            crate::chunk::push_all(&mut out, cb.as_slice());
            proof {
                assert(self@.take(i + 1).drop_last() =~= self@.take(i as int));
                lemma_chunks_ser_snoc(self@.take(i + 1));
                assert(self@.take(i + 1).last() == self@[i as int]);
            }
            i = i + 1;
        }
        proof {
            assert(self@.take(self@.len() as int) =~= self@);
        }
        out
    }

    /// Parses a byte stream: the first 8 bytes must equal the fixed
    /// signature, and the rest must parse as a chunk sequence. An empty
    /// chunk sequence after a valid signature is legal.
    pub fn try_from(value: &[u8]) -> (r: Result<Png, PngmeError>)
        ensures
            match r {
                Ok(p) => spec_parse_container(value@) == Ok::<_, PngmeError>(chunk_recs(p@))
                    && p.wf(),
                Err(e) => spec_parse_container(value@) == Err::<Seq<(Seq<u8>, Seq<u8>)>, _>(e),
            },
    {
        if value.len() < 8 {
            return Err(PngmeError::Format);
        }
        let sig_ok = value[0] == 137 && value[1] == 80 && value[2] == 78 && value[3] == 71
            && value[4] == 13 && value[5] == 10 && value[6] == 26 && value[7] == 10;
        proof {
            let sub = value@.subrange(0, 8);
            if sig_ok {
                assert(sub =~= png_signature());
            } else if sub == png_signature() {
                assert(sub[0] == 137 && sub[1] == 80 && sub[2] == 78 && sub[3] == 71 && sub[4]
                    == 13 && sub[5] == 10 && sub[6] == 26 && sub[7] == 10);
                assert(false);
            }
        }
        if !sig_ok {
            return Err(PngmeError::Format);
        }
        let mut chunks: Vec<Chunk> = Vec::new();
        let mut pos: usize = 8;
        while pos < value.len()
            invariant
                8 <= pos <= value@.len(),
                value@.subrange(0, 8) == png_signature(),
                forall|j: int| 0 <= j < chunks@.len() ==> (#[trigger] chunks@[j]).wf(),
                spec_parse_chunks(value@.skip(8)) == (match spec_parse_chunks(
                    value@.skip(pos as int),
                ) {
                    Ok(rest) => Ok::<_, PngmeError>(chunk_recs(chunks@) + rest),
                    Err(e) => Err(e),
                }),
            decreases value@.len() - pos,
        {
            let tail = vstd::slice::slice_subrange(value, pos, value.len());
            proof {
                assert(tail@ =~= value@.skip(pos as int));
            }
            let chunk = match Chunk::try_from(tail) {
                Ok(c) => c,
                Err(e) => {
                    proof {
                        assert(value@.skip(pos as int).len() > 0);
                        assert(spec_parse_chunks(value@.skip(pos as int)) == Err::<
                            Seq<(Seq<u8>, Seq<u8>)>,
                            _,
                        >(e));
                    }
                    return Err(e);
                },
            };
            let dlen = chunk.length();
            let consumed: usize = 12 + dlen as usize;
            proof {
                assert(spec_parse_chunk(tail@) == Ok::<_, PngmeError>(
                    (chunk.spec_tag(), chunk.spec_data()),
                ));
                assert(tail@.len() >= 12 + chunk.spec_data().len());
                assert(value@.skip(pos as int).skip(12 + chunk.spec_data().len() as int)
                    =~= value@.skip(pos + consumed));
                assert(chunk_recs(chunks@.push(chunk)) =~= chunk_recs(chunks@) + seq![
                    (chunk.spec_tag(), chunk.spec_data()),
                ]);
                match spec_parse_chunks(value@.skip(pos + consumed)) {
                    Ok(rest2) => {
                        assert(chunk_recs(chunks@) + (seq![(chunk.spec_tag(), chunk.spec_data())]
                            + rest2) =~= chunk_recs(chunks@.push(chunk)) + rest2);
                    },
                    Err(_) => {},
                }
            }
            chunks.push(chunk);
            pos = pos + consumed;
        }
        proof {
            assert(value@.skip(pos as int).len() == 0);
            assert(spec_parse_chunks(value@.skip(pos as int)) == Ok::<_, PngmeError>(
                Seq::<(Seq<u8>, Seq<u8>)>::empty(),
            ));
            assert(chunk_recs(chunks@) + Seq::<(Seq<u8>, Seq<u8>)>::empty() =~= chunk_recs(
                chunks@,
            ));
        }
        Ok(Png { chunks })
    }
}

/// The fixed signature as owned bytes.
pub fn signature_bytes() -> (r: Vec<u8>)
    ensures
        r@ == png_signature(),
{
    let mut out: Vec<u8> = Vec::new();
    out.push(137);
    out.push(80);
    out.push(78);
    out.push(71);
    out.push(13);
    out.push(10);
    out.push(26);
    out.push(10);
    proof {
        assert(out@ =~= png_signature());
    }
    out
}

/// Does the chunk's 4-byte tag equal `tag` byte for byte?
fn tag_matches(c: &Chunk, tag: &[u8]) -> (r: bool)
    ensures
        r == (c.spec_tag() == tag@),
{
    let cb = c.chunk_type().bytes();
    if tag.len() == 4 {
        let eq = tag[0] == cb[0] && tag[1] == cb[1] && tag[2] == cb[2] && tag[3] == cb[3];
        proof {
            if eq {
                assert(tag@ =~= cb@);
            } else {
                assert(tag@ != cb@);
            }
        }
        eq
    } else {
        proof {
            assert(cb@.len() == 4);
        }
        false
    }
}

/// Container round trip: the concatenated serialized forms of any sequence
/// of well-formed chunks parse back to the same ordered (tag, payload)
/// pairs.
#[verifier::rlimit(50)]
pub proof fn lemma_container_round_trip(cs: Seq<Chunk>)
    requires
        forall|i: int| 0 <= i < cs.len() ==> (#[trigger] cs[i]).wf(),
    ensures
        spec_parse_chunks(chunks_ser(cs)) == Ok::<_, PngmeError>(chunk_recs(cs)),
    decreases cs.len(),
{
    if cs.len() == 0 {
        assert(chunks_ser(cs).len() == 0);
        assert(chunk_recs(cs) =~= Seq::<(Seq<u8>, Seq<u8>)>::empty());
    } else {
        let c = cs[0];
        let rest = cs.drop_first();
        let s = chunks_ser(cs);
        assert(s == c.spec_serialized() + chunks_ser(rest));
        crate::chunk::lemma_parse_chunk_ser(c.spec_tag(), c.spec_data(), chunks_ser(rest));
        let len = c.spec_data().len() as int;
        assert(s.skip(12 + len) == chunks_ser(rest));
        assert(forall|i: int| 0 <= i < rest.len() ==> (#[trigger] rest[i]).wf()) by {
            assert(forall|i: int| 0 <= i < rest.len() ==> rest[i] == cs[i + 1]);
        }
        lemma_container_round_trip(rest);
        assert(chunk_recs(cs) =~= seq![(c.spec_tag(), c.spec_data())] + chunk_recs(rest));
        assert(s.len() > 0);
    }
}

/// Container round trip at the container level: the serialized form of a
/// well-formed container opens with the signature and its remainder parses
/// back to the container's own ordered (tag, payload) pairs.
pub proof fn lemma_png_round_trip(p: Png)
    requires
        p.wf(),
    ensures
        p.spec_serialized().len() >= 8,
        p.spec_serialized().subrange(0, 8) == png_signature(),
        spec_parse_chunks(p.spec_serialized().skip(8)) == Ok::<_, PngmeError>(chunk_recs(p@)),
{
    assert(p.spec_serialized().subrange(0, 8) =~= png_signature());
    assert(p.spec_serialized().skip(8) =~= chunks_ser(p@));
    lemma_container_round_trip(p@);
}

/// Serializing one more chunk appends its serialized form.
pub proof fn lemma_chunks_ser_snoc(cs: Seq<Chunk>)
    requires
        cs.len() > 0,
    ensures
        chunks_ser(cs) == chunks_ser(cs.drop_last()) + cs.last().spec_serialized(),
    decreases cs.len(),
{
    if cs.len() == 1 {
        assert(cs.drop_last() =~= Seq::<Chunk>::empty());
        assert(chunks_ser(cs.drop_last()) =~= Seq::<u8>::empty());
        assert(cs.drop_first() =~= Seq::<Chunk>::empty());
        assert(chunks_ser(cs) =~= cs[0].spec_serialized());
        assert(chunks_ser(cs.drop_last()) + cs.last().spec_serialized() =~= cs[0].spec_serialized());
    } else {
        let tail = cs.drop_first();
        lemma_chunks_ser_snoc(tail);
        assert(tail.drop_last() =~= cs.drop_last().drop_first());
        assert(tail.last() == cs.last());
        assert(chunks_ser(cs) == cs[0].spec_serialized() + chunks_ser(tail));
        assert(cs.drop_last()[0] == cs[0]);
        assert(chunks_ser(cs.drop_last()) == cs[0].spec_serialized() + chunks_ser(
            cs.drop_last().drop_first(),
        ));
        assert(cs[0].spec_serialized() + (chunks_ser(tail.drop_last()) + tail.last().spec_serialized())
            =~= (cs[0].spec_serialized() + chunks_ser(tail.drop_last()))
            + tail.last().spec_serialized());
    }
}

} // verus!
