//! The four end-to-end operations over already-resident container bytes:
//! embed a message as a new chunk, extract one, strip one, and list the
//! chunk texts. Reading and writing the bytes is the caller's business.

use crate::chunk::Chunk;
use crate::chunk_type::{tag_bytes_alphabetic, ChunkType};
use crate::crypto::{
    aes_gcm_open, aes_gcm_seal, argon2_key_of, base64_decode_of, base64_of, Crypto, EncryptedData,
};
use crate::error::PngmeError;
use crate::png::{
    chunk_recs, lemma_chunks_ser_is_recs_ser, lemma_first_match_recs, png_signature, recs_ser,
    spec_first_match_rec, spec_parse_container, Png,
};
use vstd::prelude::*;
use vstd::string::{StrSliceExecFns, StringSliceAdditionalSpecFns};
use vstd::utf8::{decode_utf8, encode_utf8, valid_utf8};

verus! {

/// The byte view of an optional password argument.
pub open spec fn spec_password_bytes(p: Option<&str>) -> Option<Seq<u8>> {
    match p {
        None => None,
        Some(s) => Some(s.spec_bytes()),
    }
}

/// One well-formed encryption of `message` under `password`: the
/// ciphertext seals the message bytes under the key derived from the
/// password and this salt, and opens back to them with the same key and
/// nonce.
pub open spec fn spec_blob_for(
    salt: Seq<u8>,
    nonce: Seq<u8>,
    ct: Seq<u8>,
    message: Seq<char>,
    password: Seq<u8>,
) -> bool {
    &&& salt.len() == 32
    &&& nonce.len() == 12
    &&& ct == aes_gcm_seal(argon2_key_of(password, salt), nonce, encode_utf8(message))
    &&& aes_gcm_open(argon2_key_of(password, salt), nonce, ct) == Some(encode_utf8(message))
}

/// An encrypted chunk payload for `message` under `password`: the UTF-8
/// bytes of the decodable transport text of some well-formed encryption of
/// the message.
pub open spec fn spec_encrypted_payload(
    payload: Seq<u8>,
    message: Seq<char>,
    password: Seq<u8>,
) -> bool {
    exists|salt: Seq<u8>, nonce: Seq<u8>, ct: Seq<u8>|
        {
            &&& #[trigger] spec_blob_for(salt, nonce, ct, message, password)
            &&& base64_decode_of(base64_of(salt + nonce + ct)) == Some(salt + nonce + ct)
            &&& payload == encode_utf8(base64_of(salt + nonce + ct))
        }
}

/// The chunk payload that embedding uses: the raw message bytes without a
/// password, an encrypted payload with one.
pub open spec fn spec_payload_for(
    payload: Seq<u8>,
    message: Seq<char>,
    password: Option<Seq<u8>>,
) -> bool {
    match password {
        None => payload == encode_utf8(message),
        Some(pw) => spec_encrypted_payload(payload, message, pw),
    }
}

/// The chunk payload `payload` decrypts under `password` to `text`: it is
/// the UTF-8 text of a decodable transport blob of at least 44 bytes whose
/// ciphertext opens under the password-derived key to the UTF-8 bytes of
/// `text`.
pub open spec fn spec_extracted_decrypts(
    payload: Seq<u8>,
    password: Seq<u8>,
    text: Seq<char>,
) -> bool {
    &&& valid_utf8(payload)
    &&& match base64_decode_of(decode_utf8(payload)) {
        Some(d) => {
            &&& d.len() >= 44
            &&& match aes_gcm_open(
                argon2_key_of(password, d.subrange(0, 32)),
                d.subrange(32, 44),
                d.subrange(44, d.len() as int),
            ) {
                Some(pt) => valid_utf8(pt) && text == decode_utf8(pt),
                None => false,
            }
        },
        None => false,
    }
}

/// Embeds `message` under `tag_text` into the container bytes: parses the
/// container, appends one chunk whose payload is the message bytes (or,
/// with a password, the transport text of their encryption), and returns
/// the new container bytes. Fails with the container's parse error, with
/// `Format` for a tag that is not four ASCII letters or a payload too long
/// for the 32-bit length field, and with `Crypto` (or `Format`) when
/// encryption was asked for and gave out.
pub fn embed(container_bytes: &[u8], tag_text: &str, message: &str, password: Option<&str>) -> (r:
    Result<Vec<u8>, PngmeError>)
    ensures
        match r {
            Ok(out) => {
                &&& spec_parse_container(container_bytes@) is Ok
                &&& tag_bytes_alphabetic(tag_text.spec_bytes())
                &&& exists|payload: Seq<u8>|
                    {
                        &&& #[trigger] spec_payload_for(
                            payload,
                            message@,
                            spec_password_bytes(password),
                        )
                        &&& payload.len() <= u32::MAX
                        &&& out@ == png_signature() + recs_ser(
                            spec_parse_container(container_bytes@).unwrap().push(
                                (tag_text.spec_bytes(), payload),
                            ),
                        )
                    }
            },
            Err(e) => {
                ||| spec_parse_container(container_bytes@) == Err::<Seq<(Seq<u8>, Seq<u8>)>, _>(e)
                ||| (spec_parse_container(container_bytes@) is Ok && !tag_bytes_alphabetic(
                    tag_text.spec_bytes(),
                ) && e == PngmeError::Format)
                ||| (spec_parse_container(container_bytes@) is Ok && tag_bytes_alphabetic(
                    tag_text.spec_bytes(),
                ) && password is Some && (e == PngmeError::Crypto || e == PngmeError::Format))
                ||| (spec_parse_container(container_bytes@) is Ok && tag_bytes_alphabetic(
                    tag_text.spec_bytes(),
                ) && password is None && encode_utf8(message@).len() > u32::MAX && e
                    == PngmeError::Format)
            },
        },
{
    let mut png = match Png::try_from(container_bytes) {
        Ok(p) => p,
        Err(e) => {
            return Err(e);
        },
    };
    let ghost orig = png@;
    let chunk_type = match ChunkType::from_str(tag_text) {
        Ok(t) => t,
        Err(e) => {
            return Err(e);
        },
    };
    let payload: Vec<u8> = match password {
        Some(pw) => {
            let blob = match Crypto::encrypt(message, pw) {
                Ok(b) => b,
                Err(e) => {
                    return Err(e);
                },
            };
            let text = blob.to_base64();
            let p = text.as_str().as_bytes_vec();
            proof {
                assert(spec_blob_for(
                    blob.spec_salt(),
                    blob.spec_nonce(),
                    blob.spec_ciphertext(),
                    message@,
                    pw.spec_bytes(),
                ));
                assert(blob.spec_packed() == blob.spec_salt() + blob.spec_nonce()
                    + blob.spec_ciphertext());
                assert(spec_encrypted_payload(p@, message@, pw.spec_bytes()));
            }
            p
        },
        None => message.as_bytes_vec(),
    };
    if payload.len() > 0xFFFFFFFF {
        return Err(PngmeError::Format);
    }
    let ghost pl = payload@;
    let chunk = Chunk::new(chunk_type, payload);
    png.append_chunk(chunk);
    proof {
        assert(forall|i: int| 0 <= i < png@.len() ==> (#[trigger] png@[i]).wf()) by {
            assert(forall|i: int| 0 <= i < orig.len() ==> png@[i] == orig[i]);
            assert(png@[orig.len() as int] == chunk);
        }
    }
    let out = png.as_bytes();
    proof {
        lemma_chunks_ser_is_recs_ser(png@);
        assert(chunk_recs(png@) =~= chunk_recs(orig).push((tag_text.spec_bytes(), pl)));
        assert(spec_payload_for(pl, message@, spec_password_bytes(password)));
    }
    Ok(out)
}

/// Locates the first chunk tagged `tag_text` and returns its message:
/// the payload text directly, or, with a password, the decryption of the
/// payload read as a transport blob. A missing chunk is the normal
/// `Ok(None)` outcome, not an error. Fails with the container's parse
/// error; with `Encoding` when the payload is not UTF-8 text; with
/// `Format` when the transport text does not decode to at least 44 bytes;
/// and with `Crypto` when decryption refuses (wrong password or tampered
/// data).
pub fn extract(container_bytes: &[u8], tag_text: &str, password: Option<&str>) -> (r: Result<
    Option<String>,
    PngmeError,
>)
    ensures
        match spec_parse_container(container_bytes@) {
            Err(pe) => r matches Err(e) && e == pe,
            Ok(recs) => match spec_first_match_rec(recs, tag_text.spec_bytes()) {
                None => r matches Ok(o) && o is None,
                Some(i) => match spec_password_bytes(password) {
                    None => match r {
                        Ok(o) => match o {
                            Some(s) => valid_utf8(recs[i].1) && s@ == decode_utf8(recs[i].1),
                            None => false,
                        },
                        Err(e) => e == PngmeError::Encoding && !valid_utf8(recs[i].1),
                    },
                    Some(pw) => match r {
                        Ok(o) => match o {
                            Some(s) => spec_extracted_decrypts(recs[i].1, pw, s@),
                            None => false,
                        },
                        Err(e) => {
                            ||| (e == PngmeError::Encoding && !valid_utf8(recs[i].1))
                            ||| (e == PngmeError::Format && valid_utf8(recs[i].1) && match
                                base64_decode_of(decode_utf8(recs[i].1)) {
                                None => true,
                                Some(d) => d.len() < 44,
                            })
                            ||| e == PngmeError::Crypto
                        },
                    },
                },
            },
        },
{
    let png = match Png::try_from(container_bytes) {
        Ok(p) => p,
        Err(e) => {
            return Err(e);
        },
    };
    proof {
        lemma_first_match_recs(png@, tag_text.spec_bytes());
        crate::png::lemma_first_match_is_earliest(png@, tag_text.spec_bytes());
    }
    let chunk = match png.chunk_by_type(tag_text) {
        Some(c) => c,
        None => {
            return Ok(None);
        },
    };
    proof {
        match crate::png::spec_first_match(png@, tag_text.spec_bytes()) {
            Some(i0) => {
                assert(chunk_recs(png@)[i0].1 == png@[i0].spec_data());
            },
            None => {
                assert(false);
            },
        }
    }
    let text = match chunk.data_as_string() {
        Ok(s) => s,
        Err(e) => {
            return Err(e);
        },
    };
    match password {
        Some(pw) => {
            let blob = match EncryptedData::from_base64(text.as_str()) {
                Ok(b) => b,
                Err(e) => {
                    return Err(e);
                },
            };
            let msg = match Crypto::decrypt(&blob, pw) {
                Ok(m) => m,
                Err(e) => {
                    return Err(e);
                },
            };
            proof {
                assert(spec_extracted_decrypts(chunk.spec_data(), pw.spec_bytes(), msg@));
            }
            Ok(Some(msg))
        },
        None => Ok(Some(text)),
    }
}

/// Removes the first chunk tagged `tag_text` and returns the new
/// container bytes. Fails with the container's parse error, or with
/// `NotFound` when no chunk carries the tag — never silently.
pub fn strip(container_bytes: &[u8], tag_text: &str) -> (r: Result<Vec<u8>, PngmeError>)
    ensures
        match spec_parse_container(container_bytes@) {
            Err(pe) => r matches Err(e) && e == pe,
            Ok(recs) => match spec_first_match_rec(recs, tag_text.spec_bytes()) {
                Some(i) => match r {
                    Ok(out) => out@ == png_signature() + recs_ser(recs.remove(i)),
                    Err(_) => false,
                },
                None => r matches Err(e) && e == PngmeError::NotFound,
            },
        },
{
    let mut png = match Png::try_from(container_bytes) {
        Ok(p) => p,
        Err(e) => {
            return Err(e);
        },
    };
    let ghost orig = png@;
    proof {
        lemma_first_match_recs(orig, tag_text.spec_bytes());
    }
    match png.remove_first_chunk(tag_text) {
        Ok(_) => {},
        Err(e) => {
            return Err(e);
        },
    }
    proof {
        crate::png::lemma_first_match_is_earliest(orig, tag_text.spec_bytes());
        match crate::png::spec_first_match(orig, tag_text.spec_bytes()) {
            Some(i) => {
                orig.remove_ensures(i);
                assert(forall|j: int| 0 <= j < png@.len() ==> (#[trigger] png@[j]).wf());
                assert(chunk_recs(png@) =~= chunk_recs(orig).remove(i));
            },
            None => {
                assert(false);
            },
        }
    }
    let out = png.as_bytes();
    proof {
        lemma_chunks_ser_is_recs_ser(png@);
    }
    Ok(out)
}

/// Renders every chunk's payload as text, in sequence order: the decoded
/// text for UTF-8 payloads, empty text otherwise — one bad payload does
/// not abort its siblings. An empty container gives the empty list.
/// Fails only with the container's parse error.
pub fn list(container_bytes: &[u8]) -> (r: Result<Vec<String>, PngmeError>)
    ensures
        match spec_parse_container(container_bytes@) {
            Err(pe) => r matches Err(e) && e == pe,
            Ok(recs) => match r {
                Ok(texts) => texts@.len() == recs.len() && forall|i: int|
                    0 <= i < recs.len() ==> (#[trigger] texts@[i])@ == (if valid_utf8(recs[i].1) {
                        decode_utf8(recs[i].1)
                    } else {
                        Seq::<char>::empty()
                    }),
                Err(_) => false,
            },
        },
{
    let png = match Png::try_from(container_bytes) {
        Ok(p) => p,
        Err(e) => {
            return Err(e);
        },
    };
    let chunks = png.chunks();
    let mut texts: Vec<String> = Vec::new();
    let mut i: usize = 0;
    while i < chunks.len()
        invariant
            i <= chunks@.len(),
            chunks@ == png@,
            texts@.len() == i,
            forall|j: int|
                0 <= j < i ==> (#[trigger] texts@[j])@ == (if valid_utf8(png@[j].spec_data()) {
                    decode_utf8(png@[j].spec_data())
                } else {
                    Seq::<char>::empty()
                }),
        decreases chunks@.len() - i,
    {
        let c = &chunks[i];
        let t = c.display_text();
        texts.push(t);
        i = i + 1;
    }
    proof {
        assert(forall|j: int|
            0 <= j < png@.len() ==> (#[trigger] chunk_recs(png@)[j]).1 == png@[j].spec_data());
    }
    Ok(texts)
}

} // verus!
