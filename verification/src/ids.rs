//! Random identifiers.

use vstd::prelude::*;
use crate::text::chars_of;

verus! {

/// A lower-case hexadecimal digit.
pub open spec fn hex_digit(c: char) -> bool {
    '0' <= c <= '9' || 'a' <= c <= 'f'
}

/// The textual form of a UUID: 36 characters, hyphens at the four places
/// where the groups meet, lower-case hexadecimal digits elsewhere.
pub open spec fn uuid_text(s: Seq<char>) -> bool {
    &&& s.len() == 36
    &&& forall|i: int|
        0 <= i < 36 ==> if i == 8 || i == 13 || i == 18 || i == 23 {
            #[trigger] s[i] == '-'
        } else {
            hex_digit(s[i])
        }
}

/// `uuid::Uuid::new_v4` and its `Display`: a random UUID in its hyphenated
/// textual form. Nothing is said of which one.
#[verifier::external_body]
pub(crate) fn new_uuid() -> (s: String)
    ensures
        uuid_text(s@),
{
    uuid::Uuid::new_v4().to_string()
}

/// `uuid::Uuid::new_v4` and `Uuid::simple`: a random UUID as 32 lower-case
/// hexadecimal digits. Nothing is said of which one.
#[verifier::external_body]
fn new_simple_uuid() -> (s: String)
    ensures
        s@.len() == 32,
        forall|i: int| 0 <= i < 32 ==> hex_digit(#[trigger] s@[i]),
{
    uuid::Uuid::new_v4().simple().to_string()
}

/// The upper-case form of a lower-case hexadecimal digit.
pub open spec fn upper_hex(c: char) -> char {
    if 'a' <= c <= 'f' {
        ((c as int) - ('a' as int) + ('A' as int)) as char
    } else {
        c
    }
}

/// The first six characters of `simple`, in upper case.
pub open spec fn code_of(simple: Seq<char>) -> Seq<char> {
    simple.take(6).map_values(|c: char| upper_hex(c))
}

/// Six upper-case hexadecimal digits.
pub open spec fn lobby_code(s: Seq<char>) -> bool {
    s.len() == 6 && forall|i: int|
        0 <= i < 6 ==> '0' <= #[trigger] s[i] <= '9' || 'A' <= s[i] <= 'F'
}

/// The upper-case hexadecimal digit with this value.
pub open spec fn code_digit(value: int) -> char {
    if value < 10 {
        (value + ('0' as int)) as char
    } else {
        (value - 10 + ('A' as int)) as char
    }
}

/// The upper-case hexadecimal digit with this value.
pub fn code_digit_of(value: u8) -> (c: char)
    requires
        value < 16,
    ensures
        c == code_digit(value as int),
        '0' <= c <= '9' || 'A' <= c <= 'F',
{
    match value {
        0 => '0',
        1 => '1',
        2 => '2',
        3 => '3',
        4 => '4',
        5 => '5',
        6 => '6',
        7 => '7',
        8 => '8',
        9 => '9',
        10 => 'A',
        11 => 'B',
        12 => 'C',
        13 => 'D',
        14 => 'E',
        _ => 'F',
    }
}

/// Every upper-case hexadecimal digit has a value.
pub proof fn lemma_code_digit(c: char) -> (value: int)
    requires
        '0' <= c <= '9' || 'A' <= c <= 'F',
    ensures
        0 <= value < 16,
        code_digit(value) == c,
{
    if c <= '9' {
        c as int - '0' as int
    } else {
        c as int - 'A' as int + 10
    }
}

fn upper_hex_char(c: char) -> (u: char)
    ensures
        u == upper_hex(c),
{
    match c {
        'a' => 'A',
        'b' => 'B',
        'c' => 'C',
        'd' => 'D',
        'e' => 'E',
        'f' => 'F',
        _ => c,
    }
}

/// The lobby code that a UUID in its simple form gives: its first six digits,
/// in upper case. Short and typeable, it doubles as an invite code.
pub fn code_from_simple(simple: &str) -> (code: String)
    requires
        simple@.len() >= 6,
    ensures
        code@ == code_of(simple@),
{
    let chars = chars_of(simple);
    let mut code = String::new();
    let mut i: usize = 0;
    while i < 6
        invariant
            i <= 6,
            chars@ == simple@,
            simple@.len() >= 6,
            code@ == simple@.take(i as int).map_values(|c: char| upper_hex(c)),
        decreases 6 - i,
    {
        code.push(upper_hex_char(chars[i]));
        proof {
            assert(simple@.take(i + 1) == simple@.take(i as int).push(simple@[i as int]));
        }
        i += 1;
    }
    code
}

/// A random lobby code.
pub fn new_lobby_code() -> (code: String)
    ensures
        lobby_code(code@),
{
    let simple = new_simple_uuid();
    let code = code_from_simple(simple.as_str());
    proof {
        assert forall|i: int| 0 <= i < 6 implies '0' <= #[trigger] code@[i] <= '9' || 'A' <= code@[i]
            <= 'F' by {
            assert(hex_digit(simple@[i]));
            assert(code@[i] == upper_hex(simple@[i]));
        }
    }
    code
}

} // verus!
