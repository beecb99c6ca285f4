//! Account addresses: 20 bytes, read from hex text and written with the
//! mixed-case checksum, both by `alloy`.

use std::str::FromStr;
use vstd::prelude::*;
use vstd::string::StringSliceAdditionalSpecFns;
use crate::error::ErrorKind;
use crate::hex_text::{hex_decoded, is_hex_text};

verus! {

/// Number of bytes in an address.
pub const ADDRESS_LEN: usize = 20;

/// An account address: exactly 20 bytes.
#[derive(Clone, Copy, Debug)]
pub struct Address {
    pub bytes: [u8; 20],
}

impl View for Address {
    type V = Seq<u8>;

    open spec fn view(&self) -> Seq<u8> {
        self.bytes@
    }
}

/// `text` begins with `0x` or `0X`.
pub open spec fn has_hex_prefix(text: Seq<u8>) -> bool {
    text.len() >= 2 && text[0] == 0x30 && (text[1] == 0x78 || text[1] == 0x58)
}

/// `text` without its `0x` prefix, if it has one.
pub open spec fn without_hex_prefix(text: Seq<u8>) -> Seq<u8> {
    if has_hex_prefix(text) {
        text.skip(2)
    } else {
        text
    }
}

/// The bytes of the address that `text` spells, if it spells one: exactly 40
/// hex digits of either case, with or without a `0x` prefix. `text` is the
/// text's UTF-8 encoding.
pub open spec fn address_of_text(text: Seq<u8>) -> Option<Seq<u8>> {
    let digits = without_hex_prefix(text);
    if digits.len() == 2 * ADDRESS_LEN && is_hex_text(digits) {
        Some(hex_decoded(digits))
    } else {
        None
    }
}

/// The checksummed text of an address, as `alloy` writes it: `0x` and 40 hex
/// digits whose letters are upper or lower case according to a hash of the
/// digits.
pub uninterp spec fn checksum_text(bytes: Seq<u8>) -> Seq<char>;

/// Calls `alloy`'s `Address::from_str`. It strips one `0x` or `0X` prefix,
/// then accepts exactly 40 hex digits of either case and decodes them pair by
/// pair; it checks no checksum. Any other text is an error, dropped here.
#[verifier::external_body]
fn address_from_text(text: &str) -> (out: Option<[u8; 20]>)
    ensures
        match address_of_text(text.spec_bytes()) {
            Some(bytes) => out matches Some(found) && found@ == bytes,
            None => out is None,
        },
{
    alloy::primitives::Address::from_str(text).ok().map(|address| address.0.0)
}

/// Calls `alloy`'s `Address::to_checksum` without a chain id.
#[verifier::external_body]
fn address_to_checksum(bytes: &[u8; 20]) -> (text: String)
    ensures
        text@ == checksum_text(bytes@),
{
    alloy::primitives::Address::from(*bytes).to_checksum(None)
}

/// Reads an address from hex text; text that does not spell 20 bytes is
/// refused as a bad request.
pub fn parse_address(text: &str) -> (r: Result<Address, ErrorKind>)
    ensures
        match address_of_text(text.spec_bytes()) {
            Some(bytes) => r matches Ok(address) && address@ == bytes,
            None => r == Err::<Address, ErrorKind>(ErrorKind::BadRequest),
        },
{
    match address_from_text(text) {
        Some(bytes) => Ok(Address { bytes }),
        None => Err(ErrorKind::BadRequest),
    }
}

impl Address {
    /// The address with its mixed-case checksum.
    pub fn to_checksum(&self) -> (text: String)
        ensures
            text@ == checksum_text(self@),
    {
        address_to_checksum(&self.bytes)
    }

    /// Whether two addresses hold the same bytes.
    pub fn same(&self, other: &Address) -> (r: bool)
        ensures
            r == (self@ == other@),
    {
        let mut i: usize = 0;
        while i < 20
            invariant
                i <= 20,
                forall|j: int| 0 <= j < i ==> self.bytes@[j] == other.bytes@[j],
            decreases 20 - i,
        {
            if self.bytes[i] != other.bytes[i] {
                return false;
            }
            i += 1;
        }
        assert(self@ =~= other@);
        true
    }
}

} // verus!
