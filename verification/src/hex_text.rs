//! Hexadecimal text: what it means for bytes to be hex digits, the bytes they
//! stand for, and the two conversions, which the `hex` crate performs.

use vstd::prelude::*;

verus! {

/// `b` is one of `0`-`9`, `a`-`f`, `A`-`F` in ASCII.
pub open spec fn is_hex_digit(b: u8) -> bool {
    (0x30 <= b <= 0x39) || (0x41 <= b <= 0x46) || (0x61 <= b <= 0x66)
}

/// The number 0..=15 that the hex digit `b` stands for.
pub open spec fn hex_digit_value(b: u8) -> int
    recommends
        is_hex_digit(b),
{
    if b <= 0x39 {
        b - 0x30
    } else if b <= 0x46 {
        b - 0x41 + 10
    } else {
        b - 0x61 + 10
    }
}

/// `digits` is an even number of hex digits, so it decodes to bytes.
pub open spec fn is_hex_text(digits: Seq<u8>) -> bool {
    &&& digits.len() % 2 == 0
    &&& forall|i: int| 0 <= i < digits.len() ==> is_hex_digit(#[trigger] digits[i])
}

/// The byte that the two hex digits `high` and `low` stand for.
pub open spec fn hex_pair_value(high: u8, low: u8) -> u8 {
    (16 * hex_digit_value(high) + hex_digit_value(low)) as u8
}

/// The bytes that the hex text `digits` stands for: one byte per two digits,
/// the first digit of each pair being the high half.
pub open spec fn hex_decoded(digits: Seq<u8>) -> Seq<u8>
    recommends
        is_hex_text(digits),
{
    Seq::new(digits.len() / 2, |i: int| hex_pair_value(digits[2 * i], digits[2 * i + 1]))
}

/// The lower-case hex digit for `nibble`, which is in 0..=15.
pub open spec fn lower_hex_char(nibble: int) -> char
    recommends
        0 <= nibble < 16,
{
    if nibble < 10 {
        ((0x30 + nibble) as u8) as char
    } else {
        ((0x61 + nibble - 10) as u8) as char
    }
}

/// The lower-case hex text of `bytes`: two digits per byte, high half first.
pub open spec fn hex_encoded(bytes: Seq<u8>) -> Seq<char> {
    Seq::new(
        2 * bytes.len(),
        |i: int|
            if i % 2 == 0 {
                lower_hex_char(bytes[i / 2] as int / 16)
            } else {
                lower_hex_char(bytes[i / 2] as int % 16)
            },
    )
}

/// Calls `hex::decode`. It succeeds exactly on an even number of hex digits
/// of either case, and then gives the bytes they stand for; on anything else
/// it reports an error, which is dropped here.
#[verifier::external_body]
pub(crate) fn hex_decode(digits: &[u8]) -> (out: Option<Vec<u8>>)
    ensures
        out is Some <==> is_hex_text(digits@),
        out matches Some(bytes) ==> bytes@ == hex_decoded(digits@),
{
    hex::decode(digits).ok()
}

/// Calls `hex::encode`, which writes each byte as two lower-case hex digits.
#[verifier::external_body]
pub(crate) fn hex_encode(bytes: &[u8]) -> (text: String)
    ensures
        text@ == hex_encoded(bytes@),
{
    hex::encode(bytes)
}

} // verus!
