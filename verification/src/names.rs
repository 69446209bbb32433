//! Cleaning up what players call themselves and their lobbies, and what they
//! say in chat.

use vstd::prelude::*;
use crate::error::{outcome, AppError, AppErrorModel};
use crate::text::{
    ascii_alphanumeric, chars_of, contains_char, control, is_ascii_alphanumeric, is_control,
    is_white_space, joined, lemma_strip, lemma_strip_unchanged, strip, text_of, trim, trim_char,
    trimmed, white_space,
};
use vstd::utf8::encode_utf8;

verus! {

/// How long a user name can get.
pub const MAX_USERNAME_LEN: usize = 24;

/// How long a lobby name can get.
pub const MAX_LOBBY_NAME_LEN: usize = 32;

/// How long a chat message can get.
pub const LOBBY_CHAT_MAX_CHARS: usize = 180;

/// How long an e-mail address can get, in bytes.
pub const MAX_EMAIL_BYTES: usize = 254;

/// A character that names keep.
pub open spec fn name_char(c: char) -> bool {
    ascii_alphanumeric(c) || c == '_' || c == '-'
}

/// `s` with its name characters kept, each run of blanks replaced by one
/// `filler`, and the rest dropped. A blank after a `filler` adds none.
pub open spec fn squeezed(s: Seq<char>, blank: spec_fn(char) -> bool, filler: char) -> Seq<char>
    decreases s.len(),
{
    if s.len() == 0 {
        Seq::empty()
    } else {
        let before = squeezed(s.drop_last(), blank, filler);
        let c = s.last();
        if name_char(c) {
            before.push(c)
        } else if blank(c) && !(before.len() > 0 && before.last() == filler) {
            before.push(filler)
        } else {
            before
        }
    }
}

/// The first `n` characters of `s`, or all of it.
pub open spec fn at_most(s: Seq<char>, n: int) -> Seq<char> {
    if s.len() > n {
        s.take(n)
    } else {
        s
    }
}

/// The user name that a player's choice gives, if it gives one: name characters
/// kept, white space turned into underscores, cut to its longest, without
/// underscores at either end, and at least two characters long.
pub open spec fn clean_username(raw: Seq<char>) -> Option<Seq<char>> {
    let cut = at_most(
        squeezed(trimmed(raw), |c: char| white_space(c), '_'),
        MAX_USERNAME_LEN as int,
    );
    let name = strip(cut, |c: char| c == '_');
    if name.len() >= 2 {
        Some(name)
    } else {
        None
    }
}

/// The lobby name that a player's choice gives, or else one made of `fallback`.
pub open spec fn clean_lobby_name(name: Option<Seq<char>>, fallback: Seq<char>) -> Seq<char> {
    let source = match name {
        Some(n) => n,
        None => fallback,
    };
    let cut = at_most(
        squeezed(trimmed(source), |c: char| c == ' ', ' '),
        MAX_LOBBY_NAME_LEN as int,
    );
    let clean = trimmed(cut);
    if clean.len() == 0 {
        fallback + "'s Lobby"@
    } else {
        clean
    }
}

/// What a chat message comes to: it is trimmed, and must then be neither empty
/// nor too long nor hold control characters other than tabs.
pub open spec fn clean_chat(raw: Seq<char>) -> Result<Seq<char>, AppErrorModel> {
    let message = trimmed(raw);
    if message.len() == 0 {
        Err(AppErrorModel::BadRequest("Message is empty"@))
    } else if message.len() > LOBBY_CHAT_MAX_CHARS {
        Err(AppErrorModel::BadRequest("Message is too long"@))
    } else if exists|i: int|
        0 <= i < message.len() && control(#[trigger] message[i]) && message[i] != '\t' {
        Err(AppErrorModel::BadRequest("Message contains control characters"@))
    } else {
        Ok(message)
    }
}

/// The lower-case form of an ASCII letter; other characters are unchanged.
pub open spec fn ascii_lower(c: char) -> char {
    if 'A' <= c <= 'Z' {
        ((c as int) - ('A' as int) + ('a' as int)) as char
    } else {
        c
    }
}

/// The e-mail address that a player's entry gives, if it looks like one.
pub open spec fn clean_email(raw: Seq<char>) -> Option<Seq<char>> {
    let email = trimmed(raw).map_values(|c: char| ascii_lower(c));
    if encode_utf8(email).len() <= MAX_EMAIL_BYTES && email.contains('@') && email.contains('.') {
        Some(email)
    } else {
        None
    }
}

/// A longer text squeezes to a longer one.
proof fn lemma_squeezed_prefix(s: Seq<char>, n: int, blank: spec_fn(char) -> bool, filler: char)
    requires
        0 <= n <= s.len(),
    ensures
        squeezed(s.take(n), blank, filler).len() <= squeezed(s, blank, filler).len(),
        squeezed(s, blank, filler).take(squeezed(s.take(n), blank, filler).len() as int)
            == squeezed(s.take(n), blank, filler),
    decreases s.len(),
{
    if n == s.len() {
        assert(s.take(n) == s);
        assert(squeezed(s, blank, filler).take(squeezed(s, blank, filler).len() as int)
            == squeezed(s, blank, filler));
    } else {
        lemma_squeezed_prefix(s.drop_last(), n, blank, filler);
        assert(s.drop_last().take(n) == s.take(n));
        let before = squeezed(s.drop_last(), blank, filler);
        let after = squeezed(s, blank, filler);
        let k = squeezed(s.take(n), blank, filler).len() as int;
        assert(after.take(k) =~= before.take(k));
    }
}

/// A squeezed text holds only name characters and fillers.
proof fn lemma_squeezed_chars(s: Seq<char>, blank: spec_fn(char) -> bool, filler: char)
    ensures
        forall|i: int|
            0 <= i < squeezed(s, blank, filler).len() ==> {
                let c = #[trigger] squeezed(s, blank, filler)[i];
                name_char(c) || c == filler
            },
    decreases s.len(),
{
    if s.len() > 0 {
        lemma_squeezed_chars(s.drop_last(), blank, filler);
        let before = squeezed(s.drop_last(), blank, filler);
        let after = squeezed(s, blank, filler);
        assert forall|i: int| 0 <= i < after.len() implies name_char(#[trigger] after[i])
            || after[i] == filler by {
            if i < before.len() {
                assert(after[i] == before[i]);
            }
        }
    }
}

fn is_name_char(c: char) -> (b: bool)
    ensures
        b == name_char(c),
{
    is_ascii_alphanumeric(c) || c == '_' || c == '-'
}

/// The name characters of a text with its white space squeezed, cut to its
/// longest.
fn squeeze_username(text: &str) -> (out: Vec<char>)
    ensures
        out@ == at_most(
            squeezed(text@, |c: char| white_space(c), '_'),
            MAX_USERNAME_LEN as int,
        ),
{
    let chars = chars_of(text);
    let ghost blank = |c: char| white_space(c);
    let mut out: Vec<char> = Vec::new();
    let mut i: usize = 0;
    assert(squeezed(text@.take(0), blank, '_') == Seq::<char>::empty());
    while i < chars.len()
        invariant
            i <= chars.len(),
            chars@ == text@,
            blank == (|c: char| white_space(c)),
            out@ == squeezed(text@.take(i as int), blank, '_'),
            out.len() < MAX_USERNAME_LEN,
        decreases chars.len() - i,
    {
        let c = chars[i];
        proof {
            assert(text@.take(i + 1).drop_last() == text@.take(i as int));
            assert(text@.take(i + 1).last() == c);
        }
        if is_name_char(c) {
            out.push(c);
        } else if is_white_space(c) && !(out.len() > 0 && out[out.len() - 1] == '_') {
            out.push('_');
        }
        if out.len() >= MAX_USERNAME_LEN {
            proof {
                lemma_squeezed_prefix(text@, i + 1, blank, '_');
                let all = squeezed(text@, blank, '_');
                assert(all.take(out@.len() as int) == out@);
                assert(all.len() == out@.len() ==> all == all.take(all.len() as int));
            }
            return out;
        }
        i += 1;
    }
    assert(text@.take(text@.len() as int) == text@);
    out
}

/// The name characters of a text with its spaces squeezed, cut to its longest.
fn squeeze_lobby_name(text: &str) -> (out: Vec<char>)
    ensures
        out@ == at_most(squeezed(text@, |c: char| c == ' ', ' '), MAX_LOBBY_NAME_LEN as int),
{
    let chars = chars_of(text);
    let ghost blank = |c: char| c == ' ';
    let mut out: Vec<char> = Vec::new();
    let mut i: usize = 0;
    assert(squeezed(text@.take(0), blank, ' ') == Seq::<char>::empty());
    while i < chars.len()
        invariant
            i <= chars.len(),
            chars@ == text@,
            blank == (|c: char| c == ' '),
            out@ == squeezed(text@.take(i as int), blank, ' '),
            out.len() < MAX_LOBBY_NAME_LEN,
        decreases chars.len() - i,
    {
        let c = chars[i];
        proof {
            assert(text@.take(i + 1).drop_last() == text@.take(i as int));
            assert(text@.take(i + 1).last() == c);
        }
        if is_name_char(c) {
            out.push(c);
        } else if c == ' ' && !(out.len() > 0 && out[out.len() - 1] == ' ') {
            out.push(' ');
        }
        if out.len() >= MAX_LOBBY_NAME_LEN {
            proof {
                lemma_squeezed_prefix(text@, i + 1, blank, ' ');
                let all = squeezed(text@, blank, ' ');
                assert(all.take(out@.len() as int) == out@);
                assert(all.len() == out@.len() ==> all == all.take(all.len() as int));
            }
            return out;
        }
        i += 1;
    }
    assert(text@.take(text@.len() as int) == text@);
    out
}

/// The user name that a player's choice gives, if it gives one.
pub fn sanitize_username(raw: &str) -> (res: Option<String>)
    ensures
        res.deep_view() == clean_username(raw@),
{
    let text = trim(raw);
    let cut = squeeze_username(text.as_str());
    let whole = text_of(&cut, 0, cut.len());
    assert(cut@.subrange(0, cut@.len() as int) == cut@);
    let name = trim_char(whole.as_str(), '_');
    if chars_of(name.as_str()).len() >= 2 {
        Some(name)
    } else {
        None
    }
}

/// The e-mail address that a player's entry gives, if it looks like one.
pub fn normalize_email(raw: &str) -> (res: Option<String>)
    ensures
        res.deep_view() == clean_email(raw@),
{
    let text = trim(raw);
    let chars = chars_of(text.as_str());
    let mut email = String::new();
    let mut i: usize = 0;
    while i < chars.len()
        invariant
            i <= chars.len(),
            chars@ == text@,
            email@ == text@.take(i as int).map_values(|c: char| ascii_lower(c)),
        decreases chars.len() - i,
    {
        email.push(ascii_lower_char(chars[i]));
        proof {
            assert(text@.take(i + 1) == text@.take(i as int).push(text@[i as int]));
        }
        i += 1;
    }
    assert(text@.take(text@.len() as int) == text@);
    if email.as_str().as_bytes().len() <= MAX_EMAIL_BYTES && contains_char(email.as_str(), '@')
        && contains_char(email.as_str(), '.') {
        Some(email)
    } else {
        None
    }
}

fn ascii_lower_char(c: char) -> (l: char)
    ensures
        l == ascii_lower(c),
{
    if 'A' <= c && c <= 'Z' {
        let lower: u8 = c as u8 + 32;
        lower as char
    } else {
        c
    }
}

/// The lobby name that a player's choice gives, or else one made of `fallback`.
pub fn sanitize_lobby_name(name: Option<&str>, fallback: &str) -> (res: String)
    ensures
        res@ == clean_lobby_name(
            match name {
                Some(n) => Some(n@),
                None => None,
            },
            fallback@,
        ),
{
    let text = match name {
        Some(n) => trim(n),
        None => trim(fallback),
    };
    let cut = squeeze_lobby_name(text.as_str());
    let whole = text_of(&cut, 0, cut.len());
    assert(cut@.subrange(0, cut@.len() as int) == cut@);
    let clean = trim(whole.as_str());
    if clean.as_str().is_empty() {
        joined(fallback, "'s Lobby")
    } else {
        clean
    }
}

/// What a chat message comes to.
pub fn normalize_lobby_chat(raw: &str) -> (res: Result<String, AppError>)
    ensures
        outcome(res) == clean_chat(raw@),
{
    let message = trim(raw);
    let chars = chars_of(message.as_str());
    if chars.len() == 0 {
        return Err(AppError::bad_request("Message is empty"));
    }
    if chars.len() > LOBBY_CHAT_MAX_CHARS {
        return Err(AppError::bad_request("Message is too long"));
    }
    let mut i: usize = 0;
    while i < chars.len()
        invariant
            i <= chars.len(),
            chars@ == message@,
            message@ == trimmed(raw@),
            0 < message@.len() <= LOBBY_CHAT_MAX_CHARS,
            forall|j: int|
                0 <= j < i ==> !(control(#[trigger] message@[j]) && message@[j] != '\t'),
        decreases chars.len() - i,
    {
        if is_control(chars[i]) && chars[i] != '\t' {
            proof {
                assert(control(message@[i as int]) && message@[i as int] != '\t');
            }
            return Err(AppError::bad_request("Message contains control characters"));
        }
        i += 1;
    }
    Ok(message)
}

/// A clean user name has from 2 to 24 characters, all of them name characters,
/// and no underscore at either end.
pub proof fn clean_username_is_well_formed(raw: Seq<char>)
    ensures
        clean_username(raw) matches Some(name) ==> {
            &&& 2 <= name.len() <= MAX_USERNAME_LEN
            &&& forall|i: int| 0 <= i < name.len() ==> name_char(#[trigger] name[i])
            &&& name[0] != '_' && name.last() != '_'
        },
{
    let all = squeezed(trimmed(raw), |c: char| white_space(c), '_');
    let cut = at_most(all, MAX_USERNAME_LEN as int);
    let p = |c: char| c == '_';
    lemma_squeezed_chars(trimmed(raw), |c: char| white_space(c), '_');
    lemma_strip(cut, p);
    let (i, j) = choose|i: int, j: int|
        0 <= i <= j <= cut.len() && strip(cut, p) == #[trigger] cut.subrange(i, j);
    assert forall|k: int| 0 <= k < strip(cut, p).len() implies name_char(
        #[trigger] strip(cut, p)[k],
    ) by {
        assert(strip(cut, p)[k] == all[i + k]);
    }
}

/// Squeezing leaves name characters alone.
pub proof fn lemma_squeezed_unchanged(s: Seq<char>, blank: spec_fn(char) -> bool, filler: char)
    requires
        forall|i: int| 0 <= i < s.len() ==> name_char(#[trigger] s[i]),
    ensures
        squeezed(s, blank, filler) == s,
    decreases s.len(),
{
    if s.len() > 0 {
        lemma_squeezed_unchanged(s.drop_last(), blank, filler);
        assert(s.drop_last().push(s.last()) == s);
    }
}

/// A user name that has been cleaned stays as it is when it is cleaned again.
pub proof fn clean_username_is_stable(raw: Seq<char>)
    ensures
        clean_username(raw) matches Some(name) ==> clean_username(name) == Some(name),
{
    if let Some(name) = clean_username(raw) {
        clean_username_is_well_formed(raw);
        let blank = |c: char| white_space(c);
        assert(name_char(name[0]) && name_char(name.last()));
        lemma_strip_unchanged(name, blank);
        assert(trimmed(name) == name);
        lemma_squeezed_unchanged(name, blank, '_');
        lemma_strip_unchanged(name, |c: char| c == '_');
    }
}

/// A lobby name is never empty, and one that was not made of the fallback has
/// at most 32 characters, all of them name characters or single spaces.
pub proof fn clean_lobby_name_is_well_formed(name: Option<Seq<char>>, fallback: Seq<char>)
    ensures
        clean_lobby_name(name, fallback).len() > 0,
        clean_lobby_name(name, fallback) != fallback + "'s Lobby"@ ==> {
            let clean = clean_lobby_name(name, fallback);
            &&& clean.len() <= MAX_LOBBY_NAME_LEN
            &&& forall|i: int|
                0 <= i < clean.len() ==> name_char(#[trigger] clean[i]) || clean[i] == ' '
        },
{
    reveal_strlit("'s Lobby");
    let source = match name {
        Some(n) => n,
        None => fallback,
    };
    let blank = |c: char| c == ' ';
    let all = squeezed(trimmed(source), blank, ' ');
    let cut = at_most(all, MAX_LOBBY_NAME_LEN as int);
    let p = |c: char| white_space(c);
    lemma_squeezed_chars(trimmed(source), blank, ' ');
    lemma_strip(cut, p);
    let (i, j) = choose|i: int, j: int|
        0 <= i <= j <= cut.len() && strip(cut, p) == #[trigger] cut.subrange(i, j);
    assert(trimmed(cut) == strip(cut, p));
    assert forall|k: int| 0 <= k < trimmed(cut).len() implies name_char(#[trigger] trimmed(cut)[k])
        || trimmed(cut)[k] == ' ' by {
        assert(trimmed(cut)[k] == all[i + k]);
    }
}

/// An accepted chat message is accepted again as it is.
pub proof fn clean_chat_is_stable(raw: Seq<char>)
    ensures
        clean_chat(raw) matches Ok(message) ==> clean_chat(message) == Ok::<
            Seq<char>,
            AppErrorModel,
        >(message),
{
    let p = |c: char| white_space(c);
    lemma_strip(raw, p);
    assert(trimmed(raw) == strip(raw, p));
    lemma_strip_unchanged(trimmed(raw), p);
    assert(trimmed(trimmed(raw)) == strip(trimmed(raw), p));
}

} // verus!
