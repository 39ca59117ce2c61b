//! Hexadecimal text: pairs of digits, each pair one byte.

use vstd::prelude::*;

verus! {

/// Whether `c` is the ASCII code of a hexadecimal digit, in either case.
pub open spec fn is_hex_digit(c: u8) -> bool {
    ||| 0x30 <= c <= 0x39
    ||| 0x41 <= c <= 0x46
    ||| 0x61 <= c <= 0x66
}

/// The value, from 0 to 15, of the hexadecimal digit with ASCII code `c`.
pub open spec fn hex_digit_value(c: u8) -> int
    recommends
        is_hex_digit(c),
{
    if 0x30 <= c <= 0x39 {
        c - 0x30
    } else if 0x41 <= c <= 0x46 {
        c - 0x41 + 10
    } else {
        c - 0x61 + 10
    }
}

/// Whether `digits` is an even number of hexadecimal digits.
pub open spec fn is_hex_text(digits: Seq<u8>) -> bool {
    &&& digits.len() % 2 == 0
    &&& forall|i: int| 0 <= i < digits.len() ==> is_hex_digit(#[trigger] digits[i])
}

/// The bytes that the digit pairs of `digits` spell, the first digit of each
/// pair being the upper half of its byte.
pub open spec fn hex_bytes(digits: Seq<u8>) -> Seq<u8>
    recommends
        is_hex_text(digits),
{
    Seq::new(
        digits.len() / 2,
        |i: int| (16 * hex_digit_value(digits[2 * i]) + hex_digit_value(digits[2 * i + 1])) as u8,
    )
}

/// Decodes hexadecimal text with `hex::decode`.  That function answers with
/// the decoded bytes when the text has an even length and holds nothing but
/// the digits `0-9`, `a-f` and `A-F`, and with an error in every other case;
/// here the error is dropped and `None` stands in its place.
#[verifier::external_body]
pub(crate) fn decode_hex(digits: &[u8]) -> (decoded: Option<Vec<u8>>)
    ensures
        decoded is Some <==> is_hex_text(digits@),
        decoded matches Some(bytes) ==> bytes@ == hex_bytes(digits@),
{
    hex::decode(digits).ok()
}

} // verus!
