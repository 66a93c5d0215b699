//! Percent-encoding of URL query components.

use vstd::prelude::*;
use vstd::utf8::encode_utf8;

verus! {

/// The bytes that stay as they are: ASCII letters and digits, `-`, `.`,
/// `_` and `~`.
pub open spec fn is_unreserved_byte(b: u8) -> bool {
    ||| (0x30 <= b && b <= 0x39)
    ||| (0x41 <= b && b <= 0x5A)
    ||| (0x61 <= b && b <= 0x7A)
    ||| b == 0x2D
    ||| b == 0x2E
    ||| b == 0x5F
    ||| b == 0x7E
}

/// An upper-case hexadecimal digit.
pub open spec fn hex_digit_char(d: u8) -> char {
    if d < 10 {
        ((0x30 + d) as u32) as char
    } else {
        ((0x37 + d) as u32) as char
    }
}

/// One byte as it is written: kept when unreserved, else `%` and its two
/// hexadecimal digits.
pub open spec fn encoded_byte(b: u8) -> Seq<char> {
    if is_unreserved_byte(b) {
        seq![(b as u32) as char]
    } else {
        seq!['%', hex_digit_char(b / 16), hex_digit_char(b % 16)]
    }
}

pub open spec fn encoded_bytes(bytes: Seq<u8>) -> Seq<char>
    decreases bytes.len(),
{
    if bytes.len() == 0 {
        seq![]
    } else {
        encoded_byte(bytes[0]) + encoded_bytes(bytes.drop_first())
    }
}

/// What `urlencoding::encode` makes of a text: every byte of its UTF-8
/// form except ASCII alphanumerics and `-`, `_`, `.`, `~` written as `%XX`.
pub open spec fn url_encoded(s: Seq<char>) -> Seq<char> {
    encoded_bytes(encode_utf8(s))
}

/// Percent-encodes `s` with `urlencoding::encode`, which the crate
/// documents as encoding every UTF-8 byte but the unreserved ones (its
/// source writes the hexadecimal digits in upper case).
#[verifier::external_body]
pub(crate) fn url_encode(s: &str) -> (r: String)
    ensures
        r@ == url_encoded(s@),
{
    urlencoding::encode(s).into_owned()
}

} // verus!
