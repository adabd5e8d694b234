//! The calls this library makes into outside crates, each with the contract
//! that the crate's source and documentation show.
use vstd::prelude::*;

use crate::text::all_ascii;

verus! {

/// What `unidecode::unidecode` returns for a string: its ASCII
/// transliteration, character by character, from the crate's table.
pub uninterp spec fn unidecode_view(s: Seq<char>) -> Seq<char>;

/// Calls `unidecode::unidecode`. The contract names its result
/// (`unidecode_view`) and states the two guarantees that the crate documents:
/// the result is ASCII, and an ASCII input is returned unchanged (every ASCII
/// character maps to itself and the result is the concatenation of the
/// characters' transliterations).
#[verifier::external_body]
pub(crate) fn transliterate(s: &str) -> (r: String)
    ensures
        r@ == unidecode_view(s@),
        all_ascii(r@),
        all_ascii(s@) ==> r@ == s@,
{
    unidecode::unidecode(s)
}

/// The lowercase hexadecimal digit for `d < 16`.
pub open spec fn hex_digit(d: u8) -> char {
    if d < 10 {
        (('0' as u8) + d) as char
    } else {
        (('a' as u8) + (d - 10)) as char
    }
}

/// Lowercase hexadecimal encoding: two digits per byte, high nibble first.
pub open spec fn hex_lower(b: Seq<u8>) -> Seq<char>
    decreases b.len(),
{
    if b.len() == 0 {
        Seq::empty()
    } else {
        seq![hex_digit(b[0] / 16), hex_digit(b[0] % 16)] + hex_lower(b.subrange(1, b.len() as int))
    }
}

/// Calls `hex::encode`, which writes each byte as two lowercase hexadecimal
/// digits, high nibble first (its table is `0123456789abcdef`).
#[verifier::external_body]
pub(crate) fn hex_encode(b: &[u8]) -> (r: String)
    ensures
        r@ == hex_lower(b@),
{
    hex::encode(b)
}

/// What `near_sdk::serde_json::from_slice::<near_sdk::json_types::U128>`
/// gives for a byte string: the number, or `None` where parsing fails.
pub uninterp spec fn json_u128_of(b: Seq<u8>) -> Option<u128>;

/// Calls `near_sdk::serde_json::from_slice::<U128>` on a promise's return
/// bytes. The contract names its result (`json_u128_of`); the format (a JSON
/// string of decimal digits) is left to the crate.
#[verifier::external_body]
pub(crate) fn parse_json_u128(b: &[u8]) -> (r: Option<u128>)
    ensures
        r == json_u128_of(b@),
{
    match near_sdk::serde_json::from_slice::<near_sdk::json_types::U128>(b) {
        Ok(v) => Some(v.0),
        Err(_) => None,
    }
}

} // verus!
