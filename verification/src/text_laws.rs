//! What texts come out as: names and messages, numerals, encodings and dates.

use vstd::prelude::*;
use vstd::utf8::encode_utf8;
use crate::error::AppErrorModel;
use crate::ids::{code_digit, code_of, lobby_code};
use crate::incidents::object_name;
use crate::lobby_laws::lemma_filter;
use crate::names::{
    ascii_lower, at_most, clean_chat, clean_email, clean_lobby_name, clean_username,
    lemma_squeezed_unchanged, name_char, squeezed,
};
use crate::text::{
    control, decimal, digit, lemma_strip_unchanged, padded_decimal, strip, strip_back, strip_front,
    trimmed, white_space,
};
use crate::time::{
    calendar_parts, date_at, days_before_month, elapsed_secs, is_date, lemma_one_date,
    lemma_year_len, rfc3339_at, rfc3339_text, secs_later, unix_millis_after, unix_secs, year_len,
    Timestamp,
};
use crate::turn::{hex, hex_round_trip, nibble, secret_bytes, unhex};
use crate::url::{percent_byte, percent_bytes, percent_text};

verus! {

// Trimming

/// Whether a text is another one without the characters in `p` at either end.
pub open spec fn middle_of(
    s: Seq<char>,
    p: spec_fn(char) -> bool,
    out: Seq<char>,
    i: int,
    j: int,
) -> bool {
    &&& 0 <= i <= j <= s.len()
    &&& out == s.subrange(i, j)
    &&& forall|k: int| 0 <= k < i ==> p(#[trigger] s[k])
    &&& forall|k: int| j <= k < s.len() ==> p(#[trigger] s[k])
    &&& out.len() > 0 ==> !p(out[0]) && !p(out.last())
}

proof fn lemma_front(s: Seq<char>, p: spec_fn(char) -> bool) -> (i: int)
    ensures
        0 <= i <= s.len(),
        strip_front(s, p) == s.skip(i),
        forall|k: int| 0 <= k < i ==> p(#[trigger] s[k]),
        i < s.len() ==> !p(s[i]),
    decreases s.len(),
{
    if s.len() > 0 && p(s[0]) {
        let rest = s.drop_first();
        let i = lemma_front(rest, p);
        assert(rest.skip(i) == s.skip(i + 1));
        assert forall|k: int| 0 <= k < i + 1 implies p(#[trigger] s[k]) by {
            if k > 0 {
                assert(rest[k - 1] == s[k]);
            }
        }
        if i + 1 < s.len() {
            assert(rest[i] == s[i + 1]);
        }
        i + 1
    } else {
        assert(s.skip(0) == s);
        0
    }
}

proof fn lemma_back(s: Seq<char>, p: spec_fn(char) -> bool) -> (j: int)
    ensures
        0 <= j <= s.len(),
        strip_back(s, p) == s.take(j),
        forall|k: int| j <= k < s.len() ==> p(#[trigger] s[k]),
        j > 0 ==> !p(s[j - 1]),
    decreases s.len(),
{
    if s.len() > 0 && p(s.last()) {
        let rest = s.drop_last();
        let j = lemma_back(rest, p);
        assert(rest.take(j) == s.take(j));
        assert forall|k: int| j <= k < s.len() implies p(#[trigger] s[k]) by {
            if k < s.len() - 1 {
                assert(rest[k] == s[k]);
            }
        }
        if j > 0 {
            assert(rest[j - 1] == s[j - 1]);
        }
        j
    } else {
        assert(s.take(s.len() as int) == s);
        s.len() as int
    }
}

proof fn lemma_middle(s: Seq<char>, p: spec_fn(char) -> bool) -> (r: (int, int))
    ensures
        middle_of(s, p, strip(s, p), r.0, r.1),
{
    let i = lemma_front(s, p);
    let front = s.skip(i);
    let j = lemma_back(front, p);
    let out = strip(s, p);
    assert(out == front.take(j));
    assert(out =~= s.subrange(i, i + j));
    assert forall|k: int| i + j <= k < s.len() implies p(#[trigger] s[k]) by {
        assert(front[k - i] == s[k]);
    }
    if out.len() > 0 {
        assert(out[0] == s[i]);
        assert(out.last() == front[j - 1]);
    }
    (i, i + j)
}

/// A trimmed text is the middle of the text: all that is gone is white space, and
/// none is left at either end.
pub proof fn trimming_takes_white_space_off_the_ends(s: Seq<char>) -> (ends: (int, int))
    ensures
        ({
            let (i, j) = ends;
            let out = trimmed(s);
            &&& 0 <= i <= j <= s.len() && out == s.subrange(i, j)
            &&& forall|k: int| 0 <= k < i || j <= k < s.len() ==> white_space(#[trigger] s[k])
            &&& out.len() > 0 ==> !white_space(out[0]) && !white_space(out.last())
        }),
{
    lemma_middle(s, |c: char| white_space(c))
}

/// White space is what Unicode calls so: in ASCII the space and the five controls
/// from tab to carriage return, and beyond it next line, the spaces and the
/// separators of lines and paragraphs.
pub proof fn white_space_is_that_of_unicode(c: char)
    ensures
        ({
            let n = c as int;
            white_space(c) <==> 9 <= n <= 13 || n == 32 || n == 0x85 || n == 0xa0 || n == 0x1680
                || 0x2000 <= n <= 0x200a || n == 0x2028 || n == 0x2029 || n == 0x202f || n
                == 0x205f || n == 0x3000
        }),
{
}

// Names

/// A letter or digit of ASCII, or a hyphen.
pub open spec fn letter(c: char) -> bool {
    'a' <= c <= 'z' || 'A' <= c <= 'Z' || '0' <= c <= '9' || c == '-'
}

/// Whether a text is made of letters, digits and hyphens.
pub open spec fn word(s: Seq<char>) -> bool {
    s.len() > 0 && forall|i: int| 0 <= i < s.len() ==> letter(#[trigger] s[i])
}

/// A name that is fit to be one is left as it is.
pub proof fn fit_names_are_kept(name: Seq<char>)
    requires
        2 <= name.len() <= 24,
        forall|i: int| 0 <= i < name.len() ==> letter(#[trigger] name[i]) || name[i] == '_',
        name[0] != '_',
        name.last() != '_',
    ensures
        clean_username(name) == Some(name),
{
    let blank = |c: char| white_space(c);
    assert(letter(name[0]) && letter(name[name.len() - 1]));
    lemma_strip_unchanged(name, blank);
    assert forall|i: int| 0 <= i < name.len() implies name_char(#[trigger] name[i]) by {}
    lemma_squeezed_unchanged(name, blank, '_');
    lemma_strip_unchanged(name, |c: char| c == '_');
}

/// A name that is too long is cut to twenty-four characters.
pub proof fn long_names_are_cut(name: Seq<char>)
    requires
        word(name),
        name.len() > 24,
    ensures
        clean_username(name) == Some(name.take(24)),
{
    let blank = |c: char| white_space(c);
    assert(letter(name[0]) && letter(name[name.len() - 1]) && letter(name[23]));
    lemma_strip_unchanged(name, blank);
    assert forall|i: int| 0 <= i < name.len() implies name_char(#[trigger] name[i]) by {}
    lemma_squeezed_unchanged(name, blank, '_');
    lemma_strip_unchanged(name.take(24), |c: char| c == '_');
}

/// What a gap between two words comes to: one filler.
proof fn lemma_words(
    a: Seq<char>,
    gap: Seq<char>,
    b: Seq<char>,
    blank: spec_fn(char) -> bool,
    filler: char,
)
    requires
        word(a),
        forall|i: int| 0 <= i < b.len() ==> letter(#[trigger] b[i]),
        gap.len() > 0,
        forall|i: int| 0 <= i < gap.len() ==> blank(#[trigger] gap[i]) && !name_char(gap[i]),
        !letter(filler),
    ensures
        squeezed(a + gap + b, blank, filler) == a + seq![filler] + b,
    decreases gap.len() + b.len(),
{
    let s = a + gap + b;
    if b.len() > 0 {
        let rest = b.drop_last();
        assert forall|i: int| 0 <= i < rest.len() implies letter(#[trigger] rest[i]) by {
            assert(rest[i] == b[i]);
        }
        lemma_words(a, gap, rest, blank, filler);
        assert(s.drop_last() =~= a + gap + rest);
        assert(letter(b[b.len() - 1]));
        assert(s.last() == b.last() && name_char(s.last()));
        assert((a + seq![filler] + rest).push(b.last()) =~= a + seq![filler] + b);
    } else {
        let fewer = gap.drop_last();
        assert(s.drop_last() =~= a + fewer + b);
        assert(s.last() == gap[gap.len() - 1]);
        if fewer.len() > 0 {
            assert forall|i: int| 0 <= i < fewer.len() implies blank(#[trigger] fewer[i])
                && !name_char(fewer[i]) by {
                assert(fewer[i] == gap[i]);
            }
            lemma_words(a, fewer, b, blank, filler);
            assert((a + seq![filler] + b).last() == filler);
        } else {
            assert(s.drop_last() =~= a);
            assert forall|i: int| 0 <= i < a.len() implies name_char(#[trigger] a[i]) by {}
            lemma_squeezed_unchanged(a, blank, filler);
            assert(letter(a[a.len() - 1]));
            assert(a.push(filler) =~= a + seq![filler] + b);
        }
    }
}

/// White space between two words of a name becomes one underscore, however much of
/// it there is, and white space around them nothing.
pub proof fn gaps_in_names_become_underscores(
    before: Seq<char>,
    a: Seq<char>,
    gap: Seq<char>,
    b: Seq<char>,
    after: Seq<char>,
)
    requires
        word(a),
        word(b),
        gap.len() > 0,
        forall|i: int| 0 <= i < gap.len() ==> white_space(#[trigger] gap[i]),
        forall|i: int| 0 <= i < before.len() ==> white_space(#[trigger] before[i]),
        forall|i: int| 0 <= i < after.len() ==> white_space(#[trigger] after[i]),
        a.len() + b.len() < 24,
    ensures
        clean_username(before + a + gap + b + after) == Some(a + "_"@ + b),
{
    reveal_strlit("_");
    let blank = |c: char| white_space(c);
    let core = a + gap + b;
    let raw = before + a + gap + b + after;
    assert(raw =~= before + core + after);
    assert(letter(a[0]) && letter(b[b.len() - 1]) && letter(b[0]));
    assert(core[0] == a[0] && core.last() == b.last());
    lemma_between(before, core, after, blank);
    assert(trimmed(raw) == core);
    lemma_words(a, gap, b, blank, '_');
    let name = a + seq!['_'] + b;
    assert("_"@ =~= seq!['_']);
    assert(name[0] == a[0] && name.last() == b.last());
    lemma_strip_unchanged(name, |c: char| c == '_');
}

/// What is left between two ends that are trimmed.
proof fn lemma_between(
    before: Seq<char>,
    core: Seq<char>,
    after: Seq<char>,
    p: spec_fn(char) -> bool,
)
    requires
        core.len() > 0,
        !p(core[0]),
        !p(core.last()),
        forall|i: int| 0 <= i < before.len() ==> p(#[trigger] before[i]),
        forall|i: int| 0 <= i < after.len() ==> p(#[trigger] after[i]),
    ensures
        strip(before + core + after, p) == core,
{
    let s = before + core + after;
    let (i, j) = lemma_middle(s, p);
    let out = strip(s, p);
    assert(s[before.len() as int] == core[0]);
    assert(s[before.len() + core.len() - 1] == core.last());
    assert(i <= before.len());
    assert(j >= before.len() + core.len());
    if i < before.len() {
        assert(out[0] == s[i]);
        assert(s[i] == before[i]);
    }
    if j > before.len() + core.len() {
        assert(out.last() == s[j - 1]);
        assert(s[j - 1] == after[j - 1 - before.len() - core.len()]);
    }
    assert(out =~= core);
}

/// A filter does not miss what trimming takes off.
proof fn lemma_filter_strip(s: Seq<char>, p: spec_fn(char) -> bool, q: spec_fn(char) -> bool)
    requires
        forall|c: char| #[trigger] p(c) ==> !q(c),
    ensures
        strip(s, p).filter(q) == s.filter(q),
{
    let (i, j) = lemma_middle(s, p);
    let (a, b, c) = (s.take(i), s.subrange(i, j), s.skip(j));
    assert(s =~= a + b + c);
    Seq::filter_distributes_over_add(a + b, c, q);
    Seq::filter_distributes_over_add(a, b, q);
    lemma_none(a, q);
    lemma_none(c, q);
    assert(s.filter(q) =~= b.filter(q));
}

/// A filter that nothing passes.
proof fn lemma_none(s: Seq<char>, q: spec_fn(char) -> bool)
    requires
        forall|i: int| 0 <= i < s.len() ==> !q(#[trigger] s[i]),
    ensures
        s.filter(q) == Seq::<char>::empty(),
{
    lemma_filter(s, q);
    if s.filter(q).len() > 0 {
        let x = s.filter(q)[0];
        assert(s.filter(q).contains(x));
        let i = choose|i: int| 0 <= i < s.len() && s[i] == x;
        assert(!q(s[i]));
    }
}

/// Squeezing neither takes letters nor adds any.
proof fn lemma_filter_squeezed(
    s: Seq<char>,
    blank: spec_fn(char) -> bool,
    filler: char,
    q: spec_fn(char) -> bool,
)
    requires
        !q(filler),
        forall|c: char| #[trigger] q(c) ==> name_char(c),
    ensures
        squeezed(s, blank, filler).filter(q) == s.filter(q),
        squeezed(s, blank, filler).len() <= s.len(),
    decreases s.len(),
{
    reveal(Seq::filter);
    if s.len() > 0 {
        let rest = s.drop_last();
        lemma_filter_squeezed(rest, blank, filler, q);
        let before = squeezed(rest, blank, filler);
        let after = squeezed(s, blank, filler);
        if after.len() > before.len() {
            assert(after.drop_last() =~= before);
        }
    }
}

/// A clean name has the letters of what was chosen, in their order, from the first
/// on; and if that had at most twenty-four characters, it has all of them, so that
/// two letters are enough for a name.
pub proof fn names_keep_their_letters(raw: Seq<char>)
    ensures
        ({
            let letters = |c: char| letter(c);
            let res = clean_username(raw);
            &&& res matches Some(name) ==> name.filter(letters).len() <= raw.filter(letters).len()
                && name.filter(letters) == raw.filter(letters).take(
                name.filter(letters).len() as int,
            )
            &&& raw.len() <= 24 && raw.filter(letters).len() >= 2 ==> res is Some
            &&& raw.len() <= 24 && res is Some ==> res->0.filter(letters) == raw.filter(letters)
        }),
{
    let q = |c: char| letter(c);
    let blank = |c: char| white_space(c);
    let under = |c: char| c == '_';
    let core = trimmed(raw);
    lemma_filter_strip(raw, blank, q);
    lemma_filter_squeezed(core, blank, '_', q);
    let all = squeezed(core, blank, '_');
    let cut = at_most(all, 24);
    let (i, j) = lemma_middle(raw, blank);
    assert(core.len() <= raw.len());
    assert(all.filter(q) == raw.filter(q));
    let tail = all.skip(cut.len() as int);
    assert(all =~= cut + tail);
    Seq::filter_distributes_over_add(cut, tail, q);
    lemma_filter_strip(cut, under, q);
    let name = strip(cut, under);
    assert(cut.filter(q) =~= all.filter(q).take(cut.filter(q).len() as int));
    if raw.len() <= 24 {
        assert(cut == all);
        lemma_filter_len(name, q);
    }
}

/// A filter makes nothing longer.
proof fn lemma_filter_len(s: Seq<char>, q: spec_fn(char) -> bool)
    ensures
        s.filter(q).len() <= s.len(),
    decreases s.len(),
{
    reveal(Seq::filter);
    if s.len() > 0 {
        lemma_filter_len(s.drop_last(), q);
    }
}

/// A lobby's name that is fit to be one is left as it is; without one, the
/// creator's name stands in.
pub proof fn fit_lobby_names_are_kept(name: Seq<char>, fallback: Seq<char>)
    requires
        0 < name.len() <= 32,
        forall|i: int| 0 <= i < name.len() ==> letter(#[trigger] name[i]) || name[i] == '_',
    ensures
        clean_lobby_name(Some(name), fallback) == name,
        clean_lobby_name(None, name) == name,
{
    let blank = |c: char| c == ' ';
    let white = |c: char| white_space(c);
    assert(letter(name[0]) || name[0] == '_');
    assert(letter(name[name.len() - 1]) || name[name.len() - 1] == '_');
    lemma_strip_unchanged(name, white);
    assert forall|i: int| 0 <= i < name.len() implies name_char(#[trigger] name[i]) by {}
    lemma_squeezed_unchanged(name, blank, ' ');
}

/// A lobby's name that is too long is cut to thirty-two characters.
pub proof fn long_lobby_names_are_cut(name: Seq<char>, fallback: Seq<char>)
    requires
        word(name),
        name.len() > 32,
    ensures
        clean_lobby_name(Some(name), fallback) == name.take(32),
{
    let blank = |c: char| c == ' ';
    let white = |c: char| white_space(c);
    assert(letter(name[0]) && letter(name[name.len() - 1]) && letter(name[31]));
    lemma_strip_unchanged(name, white);
    assert forall|i: int| 0 <= i < name.len() implies name_char(#[trigger] name[i]) by {}
    lemma_squeezed_unchanged(name, blank, ' ');
    lemma_strip_unchanged(name.take(32), white);
}

/// Spaces between two words of a lobby's name become one.
pub proof fn gaps_in_lobby_names_become_spaces(
    a: Seq<char>,
    gap: Seq<char>,
    b: Seq<char>,
    fallback: Seq<char>,
)
    requires
        word(a),
        word(b),
        gap.len() > 0,
        forall|i: int| 0 <= i < gap.len() ==> #[trigger] gap[i] == ' ',
        a.len() + b.len() < 32,
    ensures
        clean_lobby_name(Some(a + gap + b), fallback) == a + " "@ + b,
{
    reveal_strlit(" ");
    let blank = |c: char| c == ' ';
    let white = |c: char| white_space(c);
    let raw = a + gap + b;
    assert(letter(a[0]) && letter(b[b.len() - 1]));
    assert(raw[0] == a[0] && raw.last() == b.last());
    lemma_strip_unchanged(raw, white);
    lemma_words(a, gap, b, blank, ' ');
    let name = a + seq![' '] + b;
    assert(" "@ =~= seq![' ']);
    assert(name[0] == a[0] && name.last() == b.last());
    lemma_strip_unchanged(name, white);
}

/// A lobby's name of which nothing is left is made of the creator's.
pub proof fn lobbies_without_a_name_are_their_creators(raw: Seq<char>, fallback: Seq<char>)
    requires
        forall|i: int|
            0 <= i < raw.len() ==> !letter(#[trigger] raw[i]) && raw[i] != '_' && raw[i] != ' ',
    ensures
        clean_lobby_name(Some(raw), fallback) == fallback + "'s Lobby"@,
{
    let blank = |c: char| c == ' ';
    let white = |c: char| white_space(c);
    let (i, j) = lemma_middle(raw, white);
    let core = trimmed(raw);
    assert forall|k: int| 0 <= k < core.len() implies !name_char(#[trigger] core[k]) && core[k]
        != ' ' by {
        assert(core[k] == raw[i + k]);
    }
    lemma_squeezed_none(core, blank, ' ');
    let none = Seq::<char>::empty();
    assert(squeezed(core, blank, ' ') =~= none);
    assert(at_most(none, 32) =~= none);
    assert(trimmed(none) =~= none);
}

/// Squeezing a text without name characters or blanks leaves nothing.
proof fn lemma_squeezed_none(s: Seq<char>, blank: spec_fn(char) -> bool, filler: char)
    requires
        forall|i: int| 0 <= i < s.len() ==> !name_char(#[trigger] s[i]) && !blank(s[i]),
    ensures
        squeezed(s, blank, filler).len() == 0,
    decreases s.len(),
{
    if s.len() > 0 {
        let rest = s.drop_last();
        assert forall|i: int| 0 <= i < rest.len() implies !name_char(#[trigger] rest[i]) && !blank(
            rest[i],
        ) by {
            assert(rest[i] == s[i]);
        }
        lemma_squeezed_none(rest, blank, filler);
        assert(!name_char(s[s.len() - 1]));
    }
}

// Messages and addresses

/// A message is accepted without the white space around it if it has from 1 to 180
/// characters and none of them is a control character, a tab excepted; what is
/// refused is told which of these it is.
pub proof fn messages_are_accepted_by_length(raw: Seq<char>)
    ensures
        ({
            let res = clean_chat(raw);
            let m = trimmed(raw);
            let garbled = exists|i: int|
                {
                    &&& 0 <= i < m.len() && #[trigger] m[i] != '\t'
                    &&& m[i] < ' ' || '\u{7f}' <= m[i] <= '\u{9f}'
                };
            &&& res is Ok <==> 1 <= m.len() <= 180 && !garbled
            &&& res is Ok ==> res->Ok_0 == m
            &&& m.len() == 0 ==> res->Err_0 == AppErrorModel::BadRequest("Message is empty"@)
            &&& m.len() > 180 ==> res->Err_0 == AppErrorModel::BadRequest("Message is too long"@)
            &&& 1 <= m.len() <= 180 && garbled ==> res->Err_0 == AppErrorModel::BadRequest(
                "Message contains control characters"@,
            )
        }),
{
    let m = trimmed(raw);
    if exists|i: int|
        0 <= i < m.len() && #[trigger] m[i] != '\t' && (m[i] < ' ' || '\u{7f}' <= m[i]
            <= '\u{9f}') {
        let i = choose|i: int|
            0 <= i < m.len() && #[trigger] m[i] != '\t' && (m[i] < ' ' || '\u{7f}' <= m[i]
                <= '\u{9f}');
        assert(control(m[i]) && m[i] != '\t');
    }
}

/// An address is accepted without the white space around it and in lower case, if
/// it has an at sign and a dot and at most 254 bytes.
pub proof fn addresses_are_accepted_in_lower_case(raw: Seq<char>)
    ensures
        ({
            let res = clean_email(raw);
            let m = trimmed(raw);
            let low = Seq::new(
                m.len(),
                |i: int|
                    if 'A' <= m[i] <= 'Z' {
                        (m[i] as u32 + 32) as char
                    } else {
                        m[i]
                    },
            );
            &&& res is Some <==> encode_utf8(low).len() <= 254 && m.contains('@') && m.contains('.')
            &&& res is Some ==> res->0 == low
        }),
{
    let m = trimmed(raw);
    let low = Seq::new(
        m.len(),
        |i: int|
            if 'A' <= m[i] <= 'Z' {
                (m[i] as u32 + 32) as char
            } else {
                m[i]
            },
    );
    let mapped = m.map_values(|c: char| ascii_lower(c));
    assert(mapped =~= low);
    assert forall|c: char| c == '@' || c == '.' implies low.contains(c) == m.contains(c) by {
        if low.contains(c) {
            let i = choose|i: int| 0 <= i < low.len() && low[i] == c;
            assert(m[i] == c);
        }
        if m.contains(c) {
            let i = choose|i: int| 0 <= i < m.len() && m[i] == c;
            assert(low[i] == c);
        }
    }
}

// Numerals and encodings

/// The number that a text of digits stands for.
pub open spec fn read_number(s: Seq<char>) -> int
    decreases s.len(),
{
    if s.len() == 0 {
        0
    } else {
        read_number(s.drop_last()) * 10 + (s.last() as int - '0' as int)
    }
}

/// A numeral, read, gives back the number; it has no leading zero, and one that is
/// padded has at least the width that was asked for.
pub proof fn numerals_read_back(n: nat, width: nat)
    ensures
        read_number(decimal(n)) == n,
        n > 0 ==> decimal(n)[0] != '0',
        read_number(padded_decimal(n, width)) == n,
        padded_decimal(n, width).len() >= width,
        decimal(n).len() >= width ==> padded_decimal(n, width) == decimal(n),
        decimal(n).len() < width ==> padded_decimal(n, width).len() == width,
{
    lemma_numeral(n);
    let d = decimal(n);
    if d.len() < width {
        let zeros = Seq::new((width - d.len()) as nat, |i: int| '0');
        lemma_zeros(zeros, d);
    }
}

proof fn lemma_numeral(n: nat)
    ensures
        read_number(decimal(n)) == n,
        decimal(n).len() > 0,
        n > 0 ==> decimal(n)[0] != '0',
    decreases n,
{
    if n < 10 {
        let s = seq![digit(n as int)];
        assert(s.drop_last() =~= Seq::empty());
        assert(read_number(s.drop_last()) == 0);
        assert(s.last() == digit(n as int));
    } else {
        lemma_numeral(n / 10);
        let s = decimal(n);
        assert(s.drop_last() =~= decimal(n / 10));
        assert(s.last() == digit((n % 10) as int));
        assert(s[0] == decimal(n / 10)[0]);
    }
}

proof fn lemma_zeros(zeros: Seq<char>, d: Seq<char>)
    requires
        forall|i: int| 0 <= i < zeros.len() ==> #[trigger] zeros[i] == '0',
    ensures
        read_number(zeros + d) == read_number(d),
    decreases zeros.len() + d.len(),
{
    let s = zeros + d;
    if d.len() > 0 {
        assert(s.drop_last() =~= zeros + d.drop_last());
        lemma_zeros(zeros, d.drop_last());
    } else if zeros.len() > 0 {
        let fewer = zeros.drop_last();
        assert(s.drop_last() =~= fewer + d);
        assert(s.last() == zeros[zeros.len() - 1]);
        assert forall|i: int| 0 <= i < fewer.len() implies #[trigger] fewer[i] == '0' by {
            assert(fewer[i] == zeros[i]);
        }
        lemma_zeros(fewer, d);
    }
}

/// The value of a hexadecimal digit, in lower or in upper case.
pub open spec fn digit_value(c: char) -> int {
    if c <= '9' {
        c as int - '0' as int
    } else if c <= 'F' {
        c as int - 'A' as int + 10
    } else {
        c as int - 'a' as int + 10
    }
}

/// Each byte has two hexadecimal digits, the higher one first, in lower case.
pub proof fn bytes_have_two_digits(bytes: Seq<u8>, i: int)
    requires
        0 <= i < bytes.len(),
    ensures
        hex(bytes).len() == 2 * bytes.len(),
        digit_value(hex(bytes)[2 * i]) * 16 + digit_value(hex(bytes)[2 * i + 1]) == bytes[i],
        forall|k: int|
            0 <= k < hex(bytes).len() ==> '0' <= #[trigger] hex(bytes)[k] <= '9' || 'a' <= hex(
                bytes,
            )[k] <= 'f',
{
    assert((2 * i) / 2 == i && (2 * i + 1) / 2 == i && (2 * i) % 2 == 0 && (2 * i + 1) % 2 == 1);
    assert forall|k: int| 0 <= k < hex(bytes).len() implies '0' <= #[trigger] hex(bytes)[k] <= '9'
        || 'a' <= hex(bytes)[k] <= 'f' by {
        let d = if k % 2 == 0 {
            bytes[k / 2] as int / 16
        } else {
            bytes[k / 2] as int % 16
        };
        assert(0 <= d < 16);
        assert(hex(bytes)[k] == digit(d));
    }
    let b = bytes[i] as int;
    assert(hex(bytes)[2 * i] == digit(b / 16));
    assert(hex(bytes)[2 * i + 1] == digit(b % 16));
    assert(digit_value(digit(b / 16)) == b / 16);
    assert(digit_value(digit(b % 16)) == b % 16);
}

/// A shared secret that is written in hexadecimal is the bytes that it stands for;
/// any other is its own bytes.
pub proof fn secrets_may_be_hexadecimal(bytes: Seq<u8>, secret: Seq<char>)
    ensures
        secret_bytes(hex(bytes)) == bytes,
        unhex(encode_utf8(trimmed(secret))) is None ==> secret_bytes(secret) == encode_utf8(secret),
{
    hex_round_trip(bytes);
}

/// What can be decoded: an even number of hexadecimal digits, and nothing else.
pub proof fn digits_come_in_pairs(digits: Seq<u8>)
    ensures
        unhex(digits) is Some <==> digits.len() % 2 == 0 && forall|i: int|
            0 <= i < digits.len() ==> 0x30 <= #[trigger] digits[i] <= 0x39 || 0x41 <= digits[i]
                <= 0x46 || 0x61 <= digits[i] <= 0x66,
{
    if unhex(digits) is Some {
        assert forall|i: int| 0 <= i < digits.len() implies 0x30 <= #[trigger] digits[i] <= 0x39
            || 0x41 <= digits[i] <= 0x46 || 0x61 <= digits[i] <= 0x66 by {
            assert(nibble(digits[i]) is Some);
        }
    }
}

/// In a query, a letter, a digit and each of four marks stands for itself, and
/// every other byte is a percent sign and two digits in upper case.
pub proof fn bytes_are_escaped_one_by_one(a: Seq<u8>, b: u8, text: Seq<char>)
    ensures
        percent_text(text) == percent_bytes(encode_utf8(text)),
        percent_bytes(Seq::empty()) == Seq::<char>::empty(),
        percent_bytes(a.push(b)) == percent_bytes(a) + percent_byte(b),
        ({
            let c = b as char;
            let out = percent_byte(b);
            let plain = 'a' <= c <= 'z' || 'A' <= c <= 'Z' || '0' <= c <= '9' || c == '-' || c
                == '.' || c == '_' || c == '~';
            &&& plain ==> out == seq![c]
            &&& !plain ==> {
                &&& out.len() == 3 && out[0] == '%'
                &&& digit_value(out[1]) * 16 + digit_value(out[2]) == b
                &&& '0' <= out[1] <= '9' || 'A' <= out[1] <= 'F'
                &&& '0' <= out[2] <= '9' || 'A' <= out[2] <= 'F'
            }
        }),
{
    assert(a.push(b).drop_last() =~= a);
    let (h, l) = (b as int / 16, b as int % 16);
    assert(0 <= h < 16 && 0 <= l < 16);
}

/// A lobby's code is the beginning of a random number's hexadecimal form, in upper
/// case: each of its six characters is worth what the digit in its place is.
pub proof fn codes_are_upper_case_digits(simple: Seq<char>, i: int)
    requires
        simple.len() >= 6,
        0 <= i < 6,
        '0' <= simple[i] <= '9' || 'a' <= simple[i] <= 'f',
    ensures
        code_of(simple).len() == 6,
        digit_value(code_of(simple)[i]) == digit_value(simple[i]),
        '0' <= code_of(simple)[i] <= '9' || 'A' <= code_of(simple)[i] <= 'F',
{
}

/// A lobby's code has six characters, each a digit or a letter from A to F.
pub proof fn codes_have_six_characters(code: Seq<char>, i: int)
    requires
        lobby_code(code),
        0 <= i < 6,
    ensures
        code.len() == 6,
        '0' <= code[i] <= '9' || 'A' <= code[i] <= 'F',
{
}

/// Each value under sixteen has one digit in upper case.
pub proof fn code_digits_have_their_value(value: int)
    requires
        0 <= value < 16,
    ensures
        digit_value(code_digit(value)) == value,
        '0' <= code_digit(value) <= '9' || 'A' <= code_digit(value) <= 'F',
{
}

// Time

/// Times are told to the nanosecond in what is written of them, to the second in
/// ages and deadlines, and to the millisecond in appointments.
pub proof fn times_are_told_in_their_units(t: Timestamp, earlier: Timestamp, n: int)
    requires
        0 <= earlier.nanos <= t.nanos < 8_210_266_876_800_000_000_000,
        0 <= n < 100_000_000,
    ensures
        rfc3339_at(t) == rfc3339_text(
            (t.nanos as int / 1_000_000_000) as i64,
            (t.nanos as int % 1_000_000_000) as u32,
        ),
        elapsed_secs(t, earlier) == (t.nanos - earlier.nanos) / 1_000_000_000,
        elapsed_secs(earlier, t) == -elapsed_secs(t, earlier),
        unix_secs(t) == t.nanos as int / 1_000_000_000,
        unix_millis_after(t, n) == t.nanos as int / 1_000_000 + n,
        secs_later(t, n).nanos == t.nanos + n * 1_000_000_000,
{
}

/// The days of a month in the Gregorian calendar.
pub open spec fn days_in(year: int, month: int) -> int {
    if month == 2 {
        if year % 4 == 0 && (year % 100 != 0 || year % 400 == 0) {
            29
        } else {
            28
        }
    } else if month == 4 || month == 6 || month == 9 || month == 11 {
        30
    } else {
        31
    }
}

/// The calendar starts with 1 January 1970, and each day is followed by the next
/// one of its month, or the first of the next month, or New Year's Day.
pub proof fn dates_follow_each_other(y: i32, m: u32, d: u32, day: int)
    requires
        is_date((y, m, d), day),
        y < i32::MAX,
    ensures
        is_date((1970, 1, 1), 0),
        1 <= m <= 12 && 1 <= d <= days_in(y as int, m as int),
        d < days_in(y as int, m as int) ==> is_date((y, m, (d + 1) as u32), day + 1),
        d == days_in(y as int, m as int) && m < 12 ==> is_date((y, (m + 1) as u32, 1), day + 1),
        d == 31 && m == 12 ==> is_date(((y + 1) as i32, 1, 1), day + 1),
{
    let year = y as int;
    reveal_with_fuel(days_before_month, 13);
    lemma_year_len(year);
    assert(days_before_month(year, 13) == year_len(year));
}

/// A record of a day is filed under its date: year in four digits, month and day
/// in two.
pub proof fn records_are_filed_by_date(
    at: Timestamp,
    y: i32,
    m: u32,
    d: u32,
    incident_id: Seq<char>,
)
    requires
        0 <= at.nanos < 8_210_266_876_800_000_000_000,
        is_date((y, m, d), at.nanos as int / 86_400_000_000_000),
        y >= 0,
    ensures
        object_name(at, incident_id) == padded_decimal(y as nat, 4) + "/"@ + padded_decimal(
            m as nat,
            2,
        ) + "/"@ + padded_decimal(d as nat, 2) + "/"@ + incident_id + ".json"@,
{
    let day = at.nanos as int / 86_400_000_000_000;
    assert(calendar_parts(at).0 as int / 86_400 == day);
    lemma_one_date((y, m, d), date_at(at), day);
}

} // verus!
