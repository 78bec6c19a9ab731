//! Big-endian encoding of 32-bit values, used for chunk lengths and
//! checksums in the container format.

use vstd::prelude::*;

verus! {

/// The four big-endian bytes of a 32-bit value.
pub open spec fn u32_to_be(v: u32) -> Seq<u8> {
    seq![
        (v / 0x1000000) as u8,
        ((v / 0x10000) % 0x100) as u8,
        ((v / 0x100) % 0x100) as u8,
        (v % 0x100) as u8,
    ]
}

/// The 32-bit value read from four big-endian bytes.
pub open spec fn u32_from_be(s: Seq<u8>) -> u32
    recommends
        s.len() == 4,
{
    (s[0] * 0x1000000 + s[1] * 0x10000 + s[2] * 0x100 + s[3]) as u32
}

/// Decoding the four big-endian bytes of a value gives the value back.
pub proof fn lemma_u32_be_round_trip(v: u32)
    ensures
        u32_from_be(u32_to_be(v)) == v,
{
    let b0 = (v / 0x1000000) as u8;
    let b1 = ((v / 0x10000) % 0x100) as u8;
    let b2 = ((v / 0x100) % 0x100) as u8;
    let b3 = (v % 0x100) as u8;
    assert((((v / 0x1000000) as u8) as u32) * 0x1000000 + ((((v / 0x10000) % 0x100) as u8) as u32)
        * 0x10000 + ((((v / 0x100) % 0x100) as u8) as u32) * 0x100 + (((v % 0x100) as u8) as u32)
        == v) by (bit_vector);
    assert(u32_to_be(v) =~= seq![b0, b1, b2, b3]);
}

/// Writes a 32-bit value as four big-endian bytes.
pub fn u32_be_bytes(v: u32) -> (r: Vec<u8>)
    ensures
        r@ == u32_to_be(v),
{
    let mut out: Vec<u8> = Vec::new();
    let b0: u8 = (v / 0x1000000) as u8;
    let b1: u8 = ((v / 0x10000) % 0x100) as u8;
    let b2: u8 = ((v / 0x100) % 0x100) as u8;
    let b3: u8 = (v % 0x100) as u8;
    out.push(b0);
    out.push(b1);
    out.push(b2);
    out.push(b3);
    proof {
        assert(out@ =~= u32_to_be(v));
    }
    out
}

/// Reads a 32-bit value from four big-endian bytes.
pub fn u32_be_value(b0: u8, b1: u8, b2: u8, b3: u8) -> (r: u32)
    ensures
        r == u32_from_be(seq![b0, b1, b2, b3]),
{
    let r: u32 = (b0 as u32) * 0x1000000 + (b1 as u32) * 0x10000 + (b2 as u32) * 0x100
        + (b3 as u32);
    r
}

} // verus!
