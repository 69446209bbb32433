//! Relay credentials.
//!
//! A credential is a user name and a password. The user name is
//! `<role>:<expiry>:<room_id>`, the very text that the relay authenticates;
//! the password is the hexadecimal HMAC-SHA256 tag of the user name under the
//! secret that the service shares with the relay.

use vstd::prelude::*;
use crate::digest::{hmac_sha256, hmac_sha256_tag};
use crate::models::{TurnCredentials, TurnCredentialsModel};
use crate::text::{
    decimal, decimal_text, digit, digit_char, joined, lemma_decimal_injective,
    lemma_strip_unchanged, trim, trimmed, white_space,
};
use crate::text::lemma_decimal_digits;
use crate::time::{unix_secs, Timestamp};
use vstd::utf8::encode_utf8;

verus! {

/// The value of a hexadecimal digit.
pub open spec fn nibble(b: u8) -> Option<u8> {
    if 0x30 <= b <= 0x39 {
        Some((b - 0x30) as u8)
    } else if 0x61 <= b <= 0x66 {
        Some((b - 0x61 + 10) as u8)
    } else if 0x41 <= b <= 0x46 {
        Some((b - 0x41 + 10) as u8)
    } else {
        None
    }
}

/// The bytes that pairs of hexadecimal digits stand for; `None` where a digit
/// is missing or is none.
pub open spec fn unhex(digits: Seq<u8>) -> Option<Seq<u8>> {
    if digits.len() % 2 == 0 && forall|i: int|
        0 <= i < digits.len() ==> nibble(#[trigger] digits[i]) is Some {
        Some(
            Seq::new(
                (digits.len() / 2) as nat,
                |i: int| (nibble(digits[2 * i])->0 * 16 + nibble(digits[2 * i + 1])->0) as u8,
            ),
        )
    } else {
        None
    }
}

/// The two lower-case hexadecimal digits of each byte.
pub open spec fn hex(bytes: Seq<u8>) -> Seq<char> {
    Seq::new(
        2 * bytes.len(),
        |i: int| digit(if i % 2 == 0 {
            bytes[i / 2] as int / 16
        } else {
            bytes[i / 2] as int % 16
        }),
    )
}

/// The bytes of the secret: those that its hexadecimal digits stand for, or,
/// where it is not hexadecimal, those of its text.
pub open spec fn secret_bytes(secret: Seq<char>) -> Seq<u8> {
    match unhex(encode_utf8(trimmed(secret))) {
        Some(bytes) => bytes,
        None => encode_utf8(secret),
    }
}

/// The user name of a credential.
pub open spec fn relay_username(role: nat, expiry: nat, room_id: Seq<char>) -> Seq<char> {
    decimal(role) + seq![':'] + decimal(expiry) + seq![':'] + room_id
}

/// The credential of `role` in a room, issued at Unix second `now`.
pub open spec fn credentials(
    secret: Seq<char>,
    ip: Seq<char>,
    room_id: Seq<char>,
    role: nat,
    ttl_secs: u64,
    now: nat,
) -> TurnCredentialsModel {
    let username = relay_username(role, now + ttl_secs as nat, room_id);
    TurnCredentialsModel {
        uri: "relay://"@ + ip + ":3478"@,
        username,
        password: hex(hmac_sha256(secret_bytes(secret), encode_utf8(username))),
        ttl_secs,
    }
}

/// Issues a credential that expires `ttl_secs` from now. The host has role 0,
/// the joining player role 1.
pub fn mint_credentials(
    shared_secret: &str,
    relay_server_ip: &str,
    room_id: &str,
    role: u8,
    ttl_secs: u64,
) -> (creds: TurnCredentials)
    ensures
        creds@.password.len() == 64,
        exists|now: nat|
            now + ttl_secs <= u64::MAX && creds@ == #[trigger] credentials(
                shared_secret@,
                relay_server_ip@,
                room_id@,
                role as nat,
                ttl_secs,
                now,
            ),
{
    let now = clock_second(secs_since_epoch(), ttl_secs);
    mint_credentials_at(shared_secret, relay_server_ip, room_id, role, ttl_secs, now)
}

/// `std::time::SystemTime::elapsed` of the Unix epoch, in whole seconds; `None`
/// where the clock precedes the epoch. Nothing is said of which second it is.
#[verifier::external_body]
fn secs_since_epoch() -> Option<u64> {
    std::time::UNIX_EPOCH.elapsed().ok().map(|span| span.as_secs())
}

/// The Unix second that a clock reading stands for: 0 before the epoch, and never
/// so late that the expiry `ttl_secs` later could not be written.
pub open spec fn second_read(reading: Option<u64>, ttl_secs: u64) -> int {
    match reading {
        Some(secs) => if secs + ttl_secs > u64::MAX {
            u64::MAX - ttl_secs
        } else {
            secs as int
        },
        None => 0,
    }
}

/// The Unix second that a clock reading stands for.
pub fn clock_second(reading: Option<u64>, ttl_secs: u64) -> (secs: u64)
    ensures
        secs == second_read(reading, ttl_secs),
{
    match reading {
        Some(secs) => if secs > u64::MAX - ttl_secs {
            u64::MAX - ttl_secs
        } else {
            secs
        },
        None => 0,
    }
}

/// The Unix second at which something issued at `t` counts as issued.
pub open spec fn issued_second(t: Timestamp) -> nat {
    if unix_secs(t) < 0 {
        0
    } else {
        unix_secs(t) as nat
    }
}

/// The Unix second of a point in time; 0 before the epoch.
pub fn issue_second(t: Timestamp) -> (secs: u64)
    ensures
        secs == issued_second(t),
        secs <= i64::MAX,
{
    let secs = t.unix_secs();
    if secs < 0 {
        0
    } else {
        secs as u64
    }
}

/// Issues a credential at Unix second `now` that expires `ttl_secs` later.
pub fn mint_credentials_at(
    shared_secret: &str,
    relay_server_ip: &str,
    room_id: &str,
    role: u8,
    ttl_secs: u64,
    now: u64,
) -> (creds: TurnCredentials)
    requires
        now + ttl_secs <= u64::MAX,
    ensures
        creds@.password.len() == 64,
        creds@ == credentials(
            shared_secret@,
            relay_server_ip@,
            room_id@,
            role as nat,
            ttl_secs,
            now as nat,
        ),
{
    let expiry = now + ttl_secs;
    let mut username = decimal_text(role as u64);
    username.push(':');
    username.append(decimal_text(expiry).as_str());
    username.push(':');
    username.append(room_id);
    proof {
        assert(username@ == relay_username(role as nat, expiry as nat, room_id@));
    }
    let password = match hex_decode(shared_secret) {
        Some(key) => hex_encode(hmac_sha256_tag(key.as_slice(), username.as_str().as_bytes()).as_slice()),
        None => hex_encode(
            hmac_sha256_tag(shared_secret.as_bytes(), username.as_str().as_bytes()).as_slice(),
        ),
    };
    let host = joined("relay://", relay_server_ip);
    TurnCredentials { uri: joined(host.as_str(), ":3478"), username, password, ttl_secs }
}

/// The bytes that the hexadecimal digits of a text stand for, white space at
/// its ends aside.
pub fn hex_decode(s: &str) -> (res: Option<Vec<u8>>)
    ensures
        match res {
            Some(bytes) => unhex(encode_utf8(trimmed(s@))) == Some(bytes@),
            None => unhex(encode_utf8(trimmed(s@))) is None,
        },
{
    let text = trim(s);
    let digits = text.as_str().as_bytes();
    if digits.len() % 2 != 0 {
        return None;
    }
    let mut out: Vec<u8> = Vec::new();
    let mut i: usize = 0;
    while i < digits.len()
        invariant
            digits@ == encode_utf8(trimmed(s@)),
            i <= digits.len(),
            i % 2 == 0,
            digits.len() % 2 == 0,
            out.len() == i / 2,
            forall|j: int| 0 <= j < i ==> nibble(#[trigger] digits@[j]) is Some,
            forall|j: int|
                0 <= j < i / 2 ==> #[trigger] out@[j] == (nibble(digits@[2 * j])->0 * 16 + nibble(
                    digits@[2 * j + 1],
                )->0) as u8,
        decreases digits.len() - i,
    {
        let Some(hi) = hex_nibble(digits[i]) else {
            return None;
        };
        let Some(lo) = hex_nibble(digits[i + 1]) else {
            return None;
        };
        assert((hi << 4) | lo == hi * 16 + lo) by (bit_vector)
            requires
                hi < 16,
                lo < 16,
        ;
        out.push((hi << 4) | lo);
        i += 2;
    }
    proof {
        assert(unhex(digits@)->0 =~= out@);
    }
    Some(out)
}

/// The value of a hexadecimal digit in either case.
pub fn hex_nibble(b: u8) -> (res: Option<u8>)
    ensures
        res == nibble(b),
        res matches Some(v) ==> v < 16,
{
    match b {
        0x30..=0x39 => Some(b - 0x30),
        0x61..=0x66 => Some(b - 0x61 + 10),
        0x41..=0x46 => Some(b - 0x41 + 10),
        _ => None,
    }
}

/// The two lower-case hexadecimal digits of each byte.
pub fn hex_encode(bytes: &[u8]) -> (s: String)
    ensures
        s@ == hex(bytes@),
{
    let mut s = String::new();
    let mut i: usize = 0;
    while i < bytes.len()
        invariant
            i <= bytes.len(),
            s@ == hex(bytes@.take(i as int)),
        decreases bytes.len() - i,
    {
        s.push(digit_char(bytes[i] / 16));
        s.push(digit_char(bytes[i] % 16));
        proof {
            assert(hex(bytes@.take(i + 1)) =~= hex(bytes@.take(i as int)).push(
                digit(bytes@[i as int] as int / 16),
            ).push(digit(bytes@[i as int] as int % 16)));
        }
        i += 1;
    }
    assert(bytes@.take(bytes@.len() as int) == bytes@);
    s
}

/// Decoding gives back the bytes that were encoded.
pub proof fn hex_round_trip(bytes: Seq<u8>)
    ensures
        unhex(encode_utf8(trimmed(hex(bytes)))) == Some(bytes),
{
    let text = hex(bytes);
    assert forall|i: int| 0 <= i < text.len() implies {
        &&& #[trigger] text[i] as int <= 0x7f
        &&& !white_space(text[i])
        &&& nibble(text[i] as u8) == Some(
            (if i % 2 == 0 {
                bytes[i / 2] as int / 16
            } else {
                bytes[i / 2] as int % 16
            }) as u8,
        )
    } by {
        let d = if i % 2 == 0 {
            bytes[i / 2] as int / 16
        } else {
            bytes[i / 2] as int % 16
        };
        assert(0 <= d < 16);
        assert(text[i] == digit(d));
    }
    lemma_strip_unchanged(text, |c: char| white_space(c));
    assert(vstd::utf8::is_ascii_chars(text));
    vstd::utf8::is_ascii_chars_encode_utf8(text);
    let digits = encode_utf8(text);
    assert forall|i: int| 0 <= i < digits.len() implies nibble(#[trigger] digits[i]) is Some by {
        assert(digits[i] == text[i] as u8);
    }
    assert(unhex(digits)->0 =~= bytes) by {
        assert forall|i: int| 0 <= i < bytes.len() implies unhex(digits)->0[i] == bytes[i] by {
            assert(digits[2 * i] == text[2 * i] as u8);
            assert(digits[2 * i + 1] == text[2 * i + 1] as u8);
            assert((2 * i) / 2 == i && (2 * i + 1) / 2 == i);
        }
    }
}

/// The upper-case form of an ASCII letter.
pub open spec fn upper_byte(b: u8) -> u8 {
    if 0x61 <= b <= 0x7a {
        (b - 0x20) as u8
    } else {
        b
    }
}

/// The lower-case form of an ASCII letter.
pub open spec fn lower_byte(b: u8) -> u8 {
    if 0x41 <= b <= 0x5a {
        (b + 0x20) as u8
    } else {
        b
    }
}

/// Decoding takes upper-case digits for what it takes lower-case ones for.
pub proof fn hex_ignores_case(digits: Seq<u8>)
    ensures
        unhex(digits.map_values(|b: u8| upper_byte(b))) == unhex(digits),
{
    let upper = digits.map_values(|b: u8| upper_byte(b));
    assert forall|i: int| 0 <= i < digits.len() implies nibble(#[trigger] upper[i]) == nibble(
        digits[i],
    ) by {}
    assert forall|i: int| 0 <= i < digits.len() implies nibble(#[trigger] digits[i]) == nibble(
        upper[i],
    ) by {}
    if unhex(digits) is Some {
        assert(unhex(upper)->0 =~= unhex(digits)->0);
    }
}

/// Encoding gives back the digits that were decoded, in lower case.
pub proof fn hex_gives_back_digits(digits: Seq<u8>)
    ensures
        unhex(digits) matches Some(bytes) ==> hex(bytes) == digits.map_values(
            |b: u8| lower_byte(b) as char,
        ),
{
    if let Some(bytes) = unhex(digits) {
        let lower = digits.map_values(|b: u8| lower_byte(b) as char);
        assert forall|i: int| 0 <= i < digits.len() implies hex(bytes)[i] == lower[i] by {
            let k = i / 2;
            let (high, low) = (nibble(digits[2 * k])->0, nibble(digits[2 * k + 1])->0);
            assert(nibble(digits[2 * k]) is Some && nibble(digits[2 * k + 1]) is Some);
            assert(high < 16 && low < 16);
            assert(bytes[k] == high * 16 + low);
            assert(bytes[k] as int / 16 == high && bytes[k] as int % 16 == low);
            assert(i == 2 * k || i == 2 * k + 1);
        }
        assert(hex(bytes) =~= lower);
    }
}

/// The two colons of a credential's user name part it into role, expiry and
/// room: splitting at the first two colons gives back the three.
pub proof fn relay_username_splits(
    role: nat,
    expiry: nat,
    room_id: Seq<char>,
    role2: nat,
    expiry2: nat,
    room_id2: Seq<char>,
)
    requires
        relay_username(role, expiry, room_id) == relay_username(role2, expiry2, room_id2),
    ensures
        role == role2,
        expiry == expiry2,
        room_id == room_id2,
{
    let (a, b) = (decimal(role), decimal(role2));
    let (c, d) = (decimal(expiry), decimal(expiry2));
    lemma_decimal_digits(role);
    lemma_decimal_digits(role2);
    lemma_decimal_digits(expiry);
    lemma_decimal_digits(expiry2);
    let rest = c + seq![':'] + room_id;
    let rest2 = d + seq![':'] + room_id2;
    assert(relay_username(role, expiry, room_id) == a + seq![':'] + rest);
    assert(relay_username(role2, expiry2, room_id2) == b + seq![':'] + rest2);
    lemma_split_at_colon(a, rest, b, rest2);
    lemma_split_at_colon(c, room_id, d, room_id2);
    lemma_decimal_injective(role, role2);
    lemma_decimal_injective(expiry, expiry2);
}

proof fn lemma_split_at_colon(a: Seq<char>, x: Seq<char>, b: Seq<char>, y: Seq<char>)
    requires
        a + seq![':'] + x == b + seq![':'] + y,
        forall|i: int| 0 <= i < a.len() ==> #[trigger] a[i] != ':',
        forall|i: int| 0 <= i < b.len() ==> #[trigger] b[i] != ':',
    ensures
        a == b,
        x == y,
{
    let s = a + seq![':'] + x;
    let t = b + seq![':'] + y;
    assert(s[a.len() as int] == ':');
    assert(t[b.len() as int] == ':');
    if a.len() < b.len() {
        assert(t[a.len() as int] == b[a.len() as int]);
    }
    if b.len() < a.len() {
        assert(s[b.len() as int] == a[b.len() as int]);
    }
    assert(a =~= s.take(a.len() as int));
    assert(b =~= t.take(b.len() as int));
    assert(x =~= s.skip(a.len() as int + 1));
    assert(y =~= t.skip(b.len() as int + 1));
}

} // verus!
