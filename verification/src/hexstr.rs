//! Lowercase hexadecimal rendering of digests, the display form the
//! illustrative harness prints. The encoding itself is done by the `hex`
//! crate behind a trusted wrapper; its contract states the rendering exactly.

use vstd::prelude::*;

verus! {

/// The lowercase hexadecimal digit for a value below 16.
pub open spec fn hex_digit(n: u8) -> char
    recommends
        n < 16,
{
    if n == 0 {
        '0'
    } else if n == 1 {
        '1'
    } else if n == 2 {
        '2'
    } else if n == 3 {
        '3'
    } else if n == 4 {
        '4'
    } else if n == 5 {
        '5'
    } else if n == 6 {
        '6'
    } else if n == 7 {
        '7'
    } else if n == 8 {
        '8'
    } else if n == 9 {
        '9'
    } else if n == 10 {
        'a'
    } else if n == 11 {
        'b'
    } else if n == 12 {
        'c'
    } else if n == 13 {
        'd'
    } else if n == 14 {
        'e'
    } else {
        'f'
    }
}

/// The lowercase hexadecimal rendering of a byte sequence: two digits per
/// byte, high nibble first.
pub open spec fn spec_hex(bytes: Seq<u8>) -> Seq<char> {
    Seq::new(
        2 * bytes.len(),
        |i: int|
            if i % 2 == 0 {
                hex_digit(bytes[i / 2] / 16)
            } else {
                hex_digit(bytes[i / 2] % 16)
            },
    )
}

/// Relies on hex::encode: every byte becomes two lowercase hexadecimal
/// digits from the table "0123456789abcdef", high nibble first.
#[verifier::external_body]
fn hex_encode_bytes(bytes: &[u8]) -> (r: String)
    ensures
        r@ == spec_hex(bytes@),
{
    hex::encode(bytes)
}

/// Renders a 20-byte digest as its 40-character lowercase hexadecimal string.
pub fn digest_hex(digest: &[u8; 20]) -> (r: String)
    ensures
        r@ == spec_hex(digest@),
        r@.len() == 40,
{
    hex_encode_bytes(digest.as_slice())
}

} // verus!
