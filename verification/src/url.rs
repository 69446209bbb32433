//! Percent-encoding.

use vstd::prelude::*;
use vstd::utf8::encode_utf8;

verus! {

/// A byte that percent-encoding leaves alone: an ASCII letter or digit, `-`,
/// `.`, `_` or `~`.
pub open spec fn unreserved(b: u8) -> bool {
    ||| 0x30 <= b <= 0x39
    ||| 0x41 <= b <= 0x5a
    ||| 0x61 <= b <= 0x7a
    ||| b == 0x2d
    ||| b == 0x2e
    ||| b == 0x5f
    ||| b == 0x7e
}

/// The upper-case hexadecimal digit of `d`.
pub open spec fn upper_digit(d: int) -> char {
    seq!['0', '1', '2', '3', '4', '5', '6', '7', '8', '9', 'A', 'B', 'C', 'D', 'E', 'F'][d]
}

/// One byte, percent-encoded.
pub open spec fn percent_byte(b: u8) -> Seq<char> {
    if unreserved(b) {
        seq![b as char]
    } else {
        seq!['%', upper_digit(b as int / 16), upper_digit(b as int % 16)]
    }
}

/// Bytes, percent-encoded one after the other.
pub open spec fn percent_bytes(bytes: Seq<u8>) -> Seq<char>
    decreases bytes.len(),
{
    if bytes.len() == 0 {
        Seq::empty()
    } else {
        percent_bytes(bytes.drop_last()) + percent_byte(bytes.last())
    }
}

/// A text, percent-encoded.
pub open spec fn percent_text(s: Seq<char>) -> Seq<char> {
    percent_bytes(encode_utf8(s))
}

/// `urlencoding::encode`: the UTF-8 bytes of the text, each left alone where
/// it is a letter, a digit or one of `-._~`, and else written as `%` and its
/// two upper-case hexadecimal digits.
#[verifier::external_body]
pub(crate) fn percent_encode(s: &str) -> (encoded: String)
    ensures
        encoded@ == percent_text(s@),
{
    urlencoding::encode(s).into_owned()
}

} // verus!
