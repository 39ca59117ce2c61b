//! Byte order: four bytes as one 32-bit word, most or least significant byte
//! first, and the exchange of the two orders.

use vstd::prelude::*;

verus! {

/// The word whose bytes, most significant first, are `b3`, `b2`, `b1`, `b0`.
pub open spec fn word_of(b3: u8, b2: u8, b1: u8, b0: u8) -> u32 {
    (b3 as int * 0x100_0000 + b2 as int * 0x1_0000 + b1 as int * 0x100 + b0 as int) as u32
}

/// The half-word whose more significant byte is `hi`.
pub open spec fn half_of(hi: u8, lo: u8) -> u16 {
    (hi as int * 0x100 + lo as int) as u16
}

/// The word that four bytes spell when the first is the most significant.
pub open spec fn u32_from_be(bytes: Seq<u8>) -> u32
    recommends
        bytes.len() == 4,
{
    word_of(bytes[0], bytes[1], bytes[2], bytes[3])
}

/// The word that four bytes spell when the first is the least significant.
pub open spec fn u32_from_le(bytes: Seq<u8>) -> u32
    recommends
        bytes.len() == 4,
{
    word_of(bytes[3], bytes[2], bytes[1], bytes[0])
}

/// The four bytes of a word, least significant first.
pub open spec fn le_bytes(word: u32) -> Seq<u8> {
    seq![
        (word as int % 0x100) as u8,
        (word as int / 0x100 % 0x100) as u8,
        (word as int / 0x1_0000 % 0x100) as u8,
        (word as int / 0x100_0000) as u8,
    ]
}

/// The four bytes of a word, most significant first.
pub open spec fn be_bytes(word: u32) -> Seq<u8> {
    le_bytes(word).reverse()
}

/// The word with the order of its four bytes reversed.
pub open spec fn swapped(word: u32) -> u32 {
    u32_from_be(le_bytes(word))
}

/// Reverses the order of the four bytes of `num`.
pub fn swap32(num: u32) -> (res: u32)
    ensures
        res == swapped(num),
{
    let b0: u32 = (num >> 24) & 0xff;
    let b1: u32 = (num >> 8) & 0xff00;
    let b2: u32 = (num << 8) & 0xff0000;
    let b3: u32 = (num << 24) & 0xff000000;
    assert(b0 == num / 0x100_0000) by (bit_vector)
        requires
            b0 == (num >> 24) & 0xff,
    ;
    assert(b1 == (num / 0x1_0000 % 0x100) * 0x100) by (bit_vector)
        requires
            b1 == (num >> 8) & 0xff00,
    ;
    assert(b2 == (num / 0x100 % 0x100) * 0x1_0000) by (bit_vector)
        requires
            b2 == (num << 8) & 0xff0000,
    ;
    assert(b3 == (num % 0x100) * 0x100_0000) by (bit_vector)
        requires
            b3 == (num << 24) & 0xff000000,
    ;
    assert(b0 | b2 | b1 | b3 == b3 + b2 + b1 + b0) by (bit_vector)
        requires
            b0 == (num >> 24) & 0xff,
            b1 == (num >> 8) & 0xff00,
            b2 == (num << 8) & 0xff0000,
            b3 == (num << 24) & 0xff000000,
    ;
    b0 | b2 | b1 | b3
}

/// Reads four bytes as a word, the first byte being the most significant.
pub fn as_u32_be(array: &[u8; 4]) -> (res: u32)
    ensures
        res == u32_from_be(array@),
{
    let b3: u32 = (array[0] as u32) << 24;
    let b2: u32 = (array[1] as u32) << 16;
    let b1: u32 = (array[2] as u32) << 8;
    let b0: u32 = array[3] as u32;
    proof {
        lemma_shifted_bytes(array[0], array[1], array[2]);
    }
    b3 + b2 + b1 + b0
}

/// Reads four bytes as a word, the first byte being the least significant.
pub fn as_u32_le(array: &[u8; 4]) -> (res: u32)
    ensures
        res == u32_from_le(array@),
{
    let b0: u32 = array[0] as u32;
    let b1: u32 = (array[1] as u32) << 8;
    let b2: u32 = (array[2] as u32) << 16;
    let b3: u32 = (array[3] as u32) << 24;
    proof {
        lemma_shifted_bytes(array[3], array[2], array[1]);
    }
    b0 + b1 + b2 + b3
}

/// Reads two bytes as a half-word, the first byte being the more significant.
pub fn as_u16_be(hi: u8, lo: u8) -> (res: u16)
    ensures
        res == half_of(hi, lo),
{
    let upper: u16 = (hi as u16) << 8;
    assert((hi as u16) << 8 == (hi as u16) * 0x100) by (bit_vector);
    upper + lo as u16
}

/// A byte moved up by three, two or one places is the byte times the weight of
/// that place.
proof fn lemma_shifted_bytes(b3: u8, b2: u8, b1: u8)
    ensures
        (b3 as u32) << 24 == b3 as int * 0x100_0000,
        (b2 as u32) << 16 == b2 as int * 0x1_0000,
        (b1 as u32) << 8 == b1 as int * 0x100,
{
    assert((b3 as u32) << 24 == (b3 as u32) * 0x100_0000) by (bit_vector);
    assert((b2 as u32) << 16 == (b2 as u32) * 0x1_0000) by (bit_vector);
    assert((b1 as u32) << 8 == (b1 as u32) * 0x100) by (bit_vector);
}

/// A word is spelled by its own bytes.
pub proof fn lemma_bytes_round_trip(word: u32)
    ensures
        u32_from_le(le_bytes(word)) == word,
        u32_from_be(be_bytes(word)) == word,
{
}

/// The bytes of the word that four bytes spell are those four bytes.
pub proof fn lemma_bytes_of_word(b3: u8, b2: u8, b1: u8, b0: u8)
    ensures
        le_bytes(word_of(b3, b2, b1, b0)) == seq![b0, b1, b2, b3],
{
    let word = b3 as int * 0x100_0000 + b2 as int * 0x1_0000 + b1 as int * 0x100 + b0 as int;
    assert(word % 0x100 == b0 as int && word / 0x100 == b3 as int * 0x1_0000 + b2 as int * 0x100
        + b1 as int);
    assert(word / 0x100 % 0x100 == b1 as int);
    assert(word / 0x1_0000 == b3 as int * 0x100 + b2 as int);
    assert(word / 0x1_0000 % 0x100 == b2 as int);
    assert(word / 0x100_0000 == b3 as int);
    assert(le_bytes(word_of(b3, b2, b1, b0)) =~= seq![b0, b1, b2, b3]);
}

/// To exchange the byte order twice gives the word back.
pub proof fn lemma_swap_twice(word: u32)
    ensures
        swapped(swapped(word)) == word,
{
    let bytes = le_bytes(word);
    lemma_bytes_of_word(bytes[0], bytes[1], bytes[2], bytes[3]);
    lemma_bytes_round_trip(word);
}

/// Four bytes read in one order are the byte-swapped word of the same bytes
/// read in the other.
pub proof fn lemma_orders_mirror(bytes: Seq<u8>)
    requires
        bytes.len() == 4,
    ensures
        u32_from_be(bytes) == swapped(u32_from_le(bytes)),
        u32_from_le(bytes) == swapped(u32_from_be(bytes)),
{
    lemma_bytes_of_word(bytes[3], bytes[2], bytes[1], bytes[0]);
    lemma_bytes_of_word(bytes[0], bytes[1], bytes[2], bytes[3]);
}

} // verus!
