//! Moving between byte payloads and text: UTF-8 decoding and the ASCII
//! special case used for tag rendering.

use vstd::prelude::*;
use vstd::utf8::{decode_utf8, valid_utf8};

verus! {

/// Every byte of `s` is in the ASCII range.
pub open spec fn all_ascii(s: Seq<u8>) -> bool {
    forall|i: int| 0 <= i < s.len() ==> #[trigger] s[i] < 0x80
}

/// ASCII bytes are valid UTF-8 and decode one byte to one character.
pub proof fn lemma_ascii_decode(s: Seq<u8>)
    requires
        all_ascii(s),
    ensures
        valid_utf8(s),
        decode_utf8(s) == s.map_values(|b: u8| b as char),
    decreases s.len(),
{
    let f = |b: u8| b as char;
    if s.len() == 0 {
        assert(s.map_values(f) =~= Seq::<char>::empty());
        assert(decode_utf8(s) =~= s.map_values(f));
    } else {
        let b = s[0];
        assert(b < 0x80);
        assert(b & 0x7f == b) by (bit_vector)
            requires
                b < 0x80,
        ;
        assert(vstd::utf8::is_leading_byte_width_1(b));
        assert(vstd::utf8::valid_first_scalar(s));
        assert(vstd::utf8::length_of_first_scalar(s) == 1);
        let tail = s.subrange(1, s.len() as int);
        assert(vstd::utf8::pop_first_scalar(s) =~= tail);
        lemma_ascii_decode(tail);
        assert(vstd::utf8::decode_first_scalar(s) == b as u32);
        assert(decode_utf8(s) =~= s.map_values(f)) by {
            assert(decode_utf8(s) == seq![(b as u32) as char] + decode_utf8(tail));
            assert(decode_utf8(tail) == tail.map_values(f));
            assert forall|i: int| 0 <= i < s.len() implies decode_utf8(s)[i] == s.map_values(f)[i]
            by {
                if i == 0 {
                    assert(decode_utf8(s)[0] == (b as u32) as char);
                    assert(s.map_values(f)[0] == b as char);
                } else {
                    assert(decode_utf8(s)[i] == decode_utf8(tail)[i - 1]);
                    assert(tail.map_values(f)[i - 1] == f(tail[i - 1]));
                    assert(tail[i - 1] == s[i]);
                }
            }
            assert(decode_utf8(s).len() == s.map_values(f).len());
        }
    }
}

/// Relies on String::from_utf8: it succeeds exactly on valid UTF-8 input
/// and returns the decoded text.
#[verifier::external_body]
pub fn string_from_utf8(bytes: Vec<u8>) -> (r: Option<String>)
    ensures
        match r {
            Some(s) => valid_utf8(bytes@) && s@ == decode_utf8(bytes@),
            None => !valid_utf8(bytes@),
        },
{
    match String::from_utf8(bytes) {
        Ok(s) => Some(s),
        Err(_) => None,
    }
}

/// Renders ASCII bytes as text, one character per byte.
pub fn ascii_to_string(bytes: &[u8]) -> (r: String)
    requires
        all_ascii(bytes@),
    ensures
        r@ == bytes@.map_values(|b: u8| b as char),
{
    let v = vstd::slice::slice_to_vec(bytes);
    proof {
        lemma_ascii_decode(bytes@);
    }
    let r = string_from_utf8(v);
    r.unwrap()
}

} // verus!
