//! Salts: the 32-byte values that, with the owner, fix a wallet's address.
//!
//! A salt is either read from `0x`-prefixed hex text or drawn at random.

use vstd::prelude::*;
use vstd::array::array_as_slice;
use vstd::slice::slice_subrange;
use vstd::string::StringSliceAdditionalSpecFns;
use crate::error::ErrorKind;
use crate::hex_text::{hex_decode, hex_decoded, hex_encode, hex_encoded, is_hex_text};

verus! {

/// Number of bytes in a salt.
pub const SALT_LEN: usize = 32;

/// A salt: exactly 32 bytes.
#[derive(Clone, Copy, Debug)]
pub struct Salt {
    pub bytes: [u8; 32],
}

impl View for Salt {
    type V = Seq<u8>;

    open spec fn view(&self) -> Seq<u8> {
        self.bytes@
    }
}

/// The bytes of the salt that `text` spells, if it spells one: `0x` followed
/// by exactly 64 hex digits. `text` is the text's UTF-8 encoding.
pub open spec fn salt_of_text(text: Seq<u8>) -> Option<Seq<u8>> {
    if text.len() == 2 + 2 * SALT_LEN && text[0] == 0x30 && text[1] == 0x78 && is_hex_text(
        text.skip(2),
    ) {
        Some(hex_decoded(text.skip(2)))
    } else {
        None
    }
}

/// The text form of a salt: `0x` and 64 lower-case hex digits.
pub open spec fn salt_text(bytes: Seq<u8>) -> Seq<char> {
    seq!['0', 'x'] + hex_encoded(bytes)
}

/// Calls `rand::random` for 32 bytes from the thread's generator. Nothing is
/// claimed of the bytes: every call may give any value.
#[verifier::external_body]
fn random_salt_bytes() -> (bytes: [u8; 32]) {
    rand::random()
}

/// Copies 32 bytes into an array.
fn salt_from_bytes(source: &Vec<u8>) -> (salt: Salt)
    requires
        source@.len() == SALT_LEN,
    ensures
        salt@ == source@,
{
    let mut bytes: [u8; 32] = [0u8; 32];
    let mut i: usize = 0;
    while i < 32
        invariant
            i <= 32,
            source@.len() == 32,
            forall|j: int| 0 <= j < i ==> bytes@[j] == source@[j],
        decreases 32 - i,
    {
        bytes[i] = source[i];
        i += 1;
    }
    Salt { bytes }
}

/// Reads a salt from `0x`-prefixed hex text. Text that lacks the prefix, holds
/// anything but hex digits after it, or decodes to a number of bytes other
/// than 32 is refused as a bad request; nothing is padded or cut.
pub fn parse_salt(text: &str) -> (r: Result<Salt, ErrorKind>)
    ensures
        match salt_of_text(text.spec_bytes()) {
            Some(bytes) => r matches Ok(salt) && salt@ == bytes,
            None => r == Err::<Salt, ErrorKind>(ErrorKind::BadRequest),
        },
{
    let raw = text.as_bytes();
    if raw.len() < 2 || raw[0] != 0x30 || raw[1] != 0x78 {
        return Err(ErrorKind::BadRequest);
    }
    let digits = slice_subrange(raw, 2, raw.len());
    match hex_decode(digits) {
        None => Err(ErrorKind::BadRequest),
        Some(decoded) => {
            if decoded.len() != SALT_LEN {
                Err(ErrorKind::BadRequest)
            } else {
                Ok(salt_from_bytes(&decoded))
            }
        },
    }
}

/// Draws a fresh salt at random.
pub fn generate_salt() -> (salt: Salt)
    ensures
        salt@.len() == SALT_LEN,
{
    Salt { bytes: random_salt_bytes() }
}

impl Salt {
    /// The salt as `0x` and 64 lower-case hex digits.
    pub fn to_hex(&self) -> (text: String)
        ensures
            text@ == salt_text(self@),
    {
        let digits = hex_encode(array_as_slice(&self.bytes));
        let mut text = String::new();
        text.append("0x");
        text.append(digits.as_str());
        proof {
            reveal_strlit("0x");
        }
        text
    }
}

} // verus!
