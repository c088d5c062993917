//! Conversions between 32-bit words and their little-endian byte form.

use vstd::prelude::*;

verus! {

/// The word stored little-endian in a sequence of four bytes.
pub open spec fn word_of_bytes(b: Seq<u8>) -> u32
    recommends
        b.len() == 4,
{
    (b[0] + b[1] * 0x100 + b[2] * 0x1_0000 + b[3] * 0x100_0000) as u32
}

/// The four little-endian bytes of a word, lowest byte first.
pub open spec fn bytes_of_word(v: u32) -> Seq<u8> {
    seq![
        (v % 0x100) as u8,
        ((v / 0x100) % 0x100) as u8,
        ((v / 0x1_0000) % 0x100) as u8,
        ((v / 0x100_0000) % 0x100) as u8,
    ]
}

/// Reads a 32-bit word from four little-endian bytes.
pub fn to_u32(buf: &[u8; 4]) -> (r: u32)
    ensures
        r == word_of_bytes(buf@),
{
    let b0: u32 = buf[0] as u32;
    let b1: u32 = buf[1] as u32;
    let b2: u32 = buf[2] as u32;
    let b3: u32 = buf[3] as u32;
    b0 + b1 * 0x100 + b2 * 0x1_0000 + b3 * 0x100_0000
}

/// Splits a 32-bit word into four little-endian bytes.
pub fn from_u32(val: u32) -> (r: [u8; 4])
    ensures
        r@ == bytes_of_word(val),
{
    let r: [u8; 4] = [
        (val % 0x100) as u8,
        ((val / 0x100) % 0x100) as u8,
        ((val / 0x1_0000) % 0x100) as u8,
        ((val / 0x100_0000) % 0x100) as u8,
    ];
    proof {
        assert(r@ =~= bytes_of_word(val));
    }
    r
}

/// Splitting a word into bytes and reading them back yields the word.
pub proof fn lemma_word_bytes_round_trip(v: u32)
    ensures
        word_of_bytes(bytes_of_word(v)) == v,
{
    assert(v % 0x100 + (v / 0x100 % 0x100) * 0x100 + (v / 0x1_0000 % 0x100) * 0x1_0000 + (v
        / 0x100_0000 % 0x100) * 0x100_0000 == v) by (bit_vector);
}

} // verus!
