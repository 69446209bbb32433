//! Text: character classes, trimming, decimal and hexadecimal digits, order.
//!
//! A string is modelled by the sequence of its characters.

use vstd::prelude::*;

verus! {

/// `String::push`: appends the character at the end of the string.
pub assume_specification[ String::push ](s: &mut String, c: char)
    ensures
        final(s)@ == old(s)@.push(c),
;

// Character classes

/// The Unicode property White_Space.
pub open spec fn white_space(c: char) -> bool {
    ||| '\u{9}' <= c <= '\u{d}'
    ||| c == '\u{20}'
    ||| c == '\u{85}'
    ||| c == '\u{a0}'
    ||| c == '\u{1680}'
    ||| '\u{2000}' <= c <= '\u{200a}'
    ||| c == '\u{2028}'
    ||| c == '\u{2029}'
    ||| c == '\u{202f}'
    ||| c == '\u{205f}'
    ||| c == '\u{3000}'
}

/// The Unicode general category Cc.
pub open spec fn control(c: char) -> bool {
    c <= '\u{1f}' || '\u{7f}' <= c <= '\u{9f}'
}

/// An ASCII letter or digit.
pub open spec fn ascii_alphanumeric(c: char) -> bool {
    '0' <= c <= '9' || 'A' <= c <= 'Z' || 'a' <= c <= 'z'
}

/// Whether `c` has the Unicode property White_Space.
pub fn is_white_space(c: char) -> (b: bool)
    ensures
        b == white_space(c),
{
    ('\u{9}' <= c && c <= '\u{d}') || c == '\u{20}' || c == '\u{85}' || c == '\u{a0}' || c
        == '\u{1680}' || ('\u{2000}' <= c && c <= '\u{200a}') || c == '\u{2028}' || c == '\u{2029}'
        || c == '\u{202f}' || c == '\u{205f}' || c == '\u{3000}'
}

/// Whether `c` is a control character.
pub fn is_control(c: char) -> (b: bool)
    ensures
        b == control(c),
{
    c <= '\u{1f}' || ('\u{7f}' <= c && c <= '\u{9f}')
}

/// Whether `c` is an ASCII letter or digit.
pub fn is_ascii_alphanumeric(c: char) -> (b: bool)
    ensures
        b == ascii_alphanumeric(c),
{
    ('0' <= c && c <= '9') || ('A' <= c && c <= 'Z') || ('a' <= c && c <= 'z')
}

// Characters of a string

/// The characters of a string, in order.
pub fn chars_of(s: &str) -> (chars: Vec<char>)
    ensures
        chars@ == s@,
{
    let mut chars: Vec<char> = Vec::new();
    for c in it: s.chars()
        invariant
            chars@ == s@.take(it.index() as int),
            it.seq() == s@,
    {
        chars.push(c);
    }
    assert(s@.take(s@.len() as int) == s@);
    chars
}

/// The string with the characters `chars[from..to]`.
pub fn text_of(chars: &Vec<char>, from: usize, to: usize) -> (s: String)
    requires
        from <= to <= chars.len(),
    ensures
        s@ == chars@.subrange(from as int, to as int),
{
    let mut s = String::new();
    let mut i: usize = from;
    while i < to
        invariant
            from <= i <= to <= chars.len(),
            s@ == chars@.subrange(from as int, i as int),
        decreases to - i,
    {
        s.push(chars[i]);
        i += 1;
    }
    s
}

/// Whether the two strings hold the same characters.
pub fn same_text(a: &str, b: &str) -> (res: bool)
    ensures
        res == (a@ == b@),
{
    a.to_owned() == b.to_owned()
}

/// Whether `c` occurs in the string.
pub fn contains_char(s: &str, c: char) -> (res: bool)
    ensures
        res == s@.contains(c),
{
    let chars = chars_of(s);
    let mut i: usize = 0;
    while i < chars.len()
        invariant
            i <= chars.len(),
            chars@ == s@,
            forall|j: int| 0 <= j < i ==> chars@[j] != c,
        decreases chars.len() - i,
    {
        if chars[i] == c {
            assert(s@[i as int] == c);
            return true;
        }
        i += 1;
    }
    false
}

/// Whether a string begins with another one.
pub fn begins_with(s: &str, prefix: &str) -> (res: bool)
    ensures
        res == prefix@.is_prefix_of(s@),
{
    let chars = chars_of(s);
    let front = chars_of(prefix);
    if front.len() > chars.len() {
        return false;
    }
    let mut i: usize = 0;
    while i < front.len()
        invariant
            i <= front.len() <= chars.len(),
            chars@ == s@,
            front@ == prefix@,
            forall|j: int| 0 <= j < i ==> front@[j] == chars@[j],
        decreases front.len() - i,
    {
        if front[i] != chars[i] {
            assert(s@.subrange(0, prefix@.len() as int)[i as int] == s@[i as int]);
            return false;
        }
        i += 1;
    }
    assert(prefix@ =~= s@.subrange(0, prefix@.len() as int));
    true
}

/// The concatenation of two strings.
pub fn joined(a: &str, b: &str) -> (s: String)
    ensures
        s@ == a@ + b@,
{
    let mut s = a.to_owned();
    s.append(b);
    s
}

// Trimming

/// `s` without its leading characters in `p`.
pub open spec fn strip_front(s: Seq<char>, p: spec_fn(char) -> bool) -> Seq<char>
    decreases s.len(),
{
    if s.len() > 0 && p(s[0]) {
        strip_front(s.drop_first(), p)
    } else {
        s
    }
}

/// `s` without its trailing characters in `p`.
pub open spec fn strip_back(s: Seq<char>, p: spec_fn(char) -> bool) -> Seq<char>
    decreases s.len(),
{
    if s.len() > 0 && p(s.last()) {
        strip_back(s.drop_last(), p)
    } else {
        s
    }
}

/// `s` without the characters in `p` at either end.
pub open spec fn strip(s: Seq<char>, p: spec_fn(char) -> bool) -> Seq<char> {
    strip_back(strip_front(s, p), p)
}

/// `s` without white space at either end.
pub open spec fn trimmed(s: Seq<char>) -> Seq<char> {
    strip(s, |c: char| white_space(c))
}

/// The string without white space at either end.
pub fn trim(s: &str) -> (res: String)
    ensures
        res@ == trimmed(s@),
{
    let chars = chars_of(s);
    let ghost p = |c: char| white_space(c);
    let mut from: usize = 0;
    assert(s@.skip(0) == s@);
    while from < chars.len() && is_white_space(chars[from])
        invariant
            from <= chars.len(),
            chars@ == s@,
            p == (|c: char| white_space(c)),
            strip_front(s@, p) == strip_front(s@.skip(from as int), p),
        decreases chars.len() - from,
    {
        proof {
            assert(s@.skip(from as int).drop_first() == s@.skip(from + 1));
        }
        from += 1;
    }
    let mut to: usize = chars.len();
    assert(s@.subrange(from as int, to as int) == s@.skip(from as int));
    while to > from && is_white_space(chars[to - 1])
        invariant
            from <= to <= chars.len(),
            chars@ == s@,
            p == (|c: char| white_space(c)),
            trimmed(s@) == strip_back(s@.subrange(from as int, to as int), p),
        decreases to,
    {
        proof {
            assert(s@.subrange(from as int, to as int).drop_last() == s@.subrange(
                from as int,
                to - 1,
            ));
        }
        to -= 1;
    }
    text_of(&chars, from, to)
}

/// The string without the character `c` at either end.
pub fn trim_char(s: &str, c: char) -> (res: String)
    ensures
        res@ == strip(s@, |d: char| d == c),
{
    let chars = chars_of(s);
    let ghost p = |d: char| d == c;
    let mut from: usize = 0;
    assert(s@.skip(0) == s@);
    while from < chars.len() && chars[from] == c
        invariant
            from <= chars.len(),
            chars@ == s@,
            p == (|d: char| d == c),
            strip_front(s@, p) == strip_front(s@.skip(from as int), p),
        decreases chars.len() - from,
    {
        proof {
            assert(s@.skip(from as int).drop_first() == s@.skip(from + 1));
        }
        from += 1;
    }
    let mut to: usize = chars.len();
    assert(s@.subrange(from as int, to as int) == s@.skip(from as int));
    while to > from && chars[to - 1] == c
        invariant
            from <= to <= chars.len(),
            chars@ == s@,
            p == (|d: char| d == c),
            strip(s@, p) == strip_back(s@.subrange(from as int, to as int), p),
        decreases to,
    {
        proof {
            assert(s@.subrange(from as int, to as int).drop_last() == s@.subrange(
                from as int,
                to - 1,
            ));
        }
        to -= 1;
    }
    text_of(&chars, from, to)
}

/// The string without the character `c` at its end.
pub fn trim_char_back(s: &str, c: char) -> (res: String)
    ensures
        res@ == strip_back(s@, |d: char| d == c),
{
    let chars = chars_of(s);
    let ghost p = |d: char| d == c;
    let mut to: usize = chars.len();
    assert(s@.take(to as int) == s@);
    while to > 0 && chars[to - 1] == c
        invariant
            to <= chars.len(),
            chars@ == s@,
            p == (|d: char| d == c),
            strip_back(s@, p) == strip_back(s@.take(to as int), p),
        decreases to,
    {
        proof {
            assert(s@.take(to as int).drop_last() == s@.take(to - 1));
        }
        to -= 1;
    }
    text_of(&chars, 0, to)
}

/// What is left after trimming neither starts nor ends with a trimmed
/// character, and is a stretch of the text that was trimmed.
pub proof fn lemma_strip(s: Seq<char>, p: spec_fn(char) -> bool)
    ensures
        exists|i: int, j: int|
            0 <= i <= j <= s.len() && strip(s, p) == #[trigger] s.subrange(i, j),
        strip(s, p).len() > 0 ==> !p(strip(s, p)[0]) && !p(strip(s, p).last()),
{
    let front = strip_front(s, p);
    lemma_strip_front(s, p);
    lemma_strip_back(front, p);
    let i = choose|i: int| 0 <= i <= s.len() && front == #[trigger] s.skip(i);
    let j = choose|j: int| 0 <= j <= front.len() && strip(s, p) == #[trigger] front.take(j);
    assert(strip(s, p) == s.subrange(i, i + j));
}

proof fn lemma_strip_front(s: Seq<char>, p: spec_fn(char) -> bool)
    ensures
        exists|i: int| 0 <= i <= s.len() && strip_front(s, p) == #[trigger] s.skip(i),
        strip_front(s, p).len() > 0 ==> !p(strip_front(s, p)[0]),
    decreases s.len(),
{
    if s.len() > 0 && p(s[0]) {
        lemma_strip_front(s.drop_first(), p);
        let i = choose|i: int|
            0 <= i <= s.len() - 1 && strip_front(s.drop_first(), p) == #[trigger] s.drop_first().skip(
                i,
            );
        assert(s.drop_first().skip(i) == s.skip(i + 1));
    } else {
        assert(s.skip(0) == s);
    }
}

proof fn lemma_strip_back(s: Seq<char>, p: spec_fn(char) -> bool)
    ensures
        exists|j: int| 0 <= j <= s.len() && strip_back(s, p) == #[trigger] s.take(j),
        strip_back(s, p).len() > 0 ==> !p(strip_back(s, p).last()),
    decreases s.len(),
{
    if s.len() > 0 && p(s.last()) {
        lemma_strip_back(s.drop_last(), p);
        let j = choose|j: int|
            0 <= j <= s.len() - 1 && strip_back(s.drop_last(), p) == #[trigger] s.drop_last().take(
                j,
            );
        assert(s.drop_last().take(j) == s.take(j));
    } else {
        assert(s.take(s.len() as int) == s);
    }
}

/// Trimming leaves alone what has no trimmed character at either end.
pub proof fn lemma_strip_unchanged(s: Seq<char>, p: spec_fn(char) -> bool)
    requires
        s.len() > 0 ==> !p(s[0]) && !p(s.last()),
    ensures
        strip(s, p) == s,
{
}

// Digits

/// The lower-case hexadecimal digit of `d`.
pub open spec fn digit(d: int) -> char {
    seq!['0', '1', '2', '3', '4', '5', '6', '7', '8', '9', 'a', 'b', 'c', 'd', 'e', 'f'][d]
}

/// `n` in decimal, without leading zeros.
pub open spec fn decimal(n: nat) -> Seq<char>
    decreases n,
{
    if n < 10 {
        seq![digit(n as int)]
    } else {
        decimal(n / 10).push(digit((n % 10) as int))
    }
}

/// `n` in decimal, padded on the left with zeros to `width` characters.
pub open spec fn padded_decimal(n: nat, width: nat) -> Seq<char> {
    let d = decimal(n);
    if d.len() >= width {
        d
    } else {
        Seq::new((width - d.len()) as nat, |i: int| '0') + d
    }
}

/// The lower-case hexadecimal digit of `d`.
pub fn digit_char(d: u8) -> (c: char)
    requires
        d < 16,
    ensures
        c == digit(d as int),
{
    match d {
        0 => '0',
        1 => '1',
        2 => '2',
        3 => '3',
        4 => '4',
        5 => '5',
        6 => '6',
        7 => '7',
        8 => '8',
        9 => '9',
        10 => 'a',
        11 => 'b',
        12 => 'c',
        13 => 'd',
        14 => 'e',
        _ => 'f',
    }
}

/// `n` in decimal.
pub fn decimal_text(n: u64) -> (s: String)
    ensures
        s@ == decimal(n as nat),
    decreases n,
{
    if n < 10 {
        let mut s = String::new();
        s.push(digit_char(n as u8));
        s
    } else {
        let mut s = decimal_text(n / 10);
        s.push(digit_char((n % 10) as u8));
        s
    }
}

/// `n` in decimal with a minus sign where it is negative.
pub open spec fn signed_decimal(n: int) -> Seq<char> {
    if n < 0 {
        seq!['-'] + decimal((-n) as nat)
    } else {
        decimal(n as nat)
    }
}

/// `n` in decimal with a minus sign where it is negative.
pub fn signed_decimal_text(n: i64) -> (s: String)
    ensures
        s@ == signed_decimal(n as int),
{
    if n < 0 {
        let magnitude = (-(n as i128)) as u64;
        let mut s = String::new();
        s.push('-');
        s.append(decimal_text(magnitude).as_str());
        s
    } else {
        decimal_text(n as u64)
    }
}

/// `n` in decimal, padded on the left with zeros to `width` characters.
pub fn padded_decimal_text(n: u64, width: usize) -> (s: String)
    ensures
        s@ == padded_decimal(n as nat, width as nat),
{
    let d = decimal_text(n);
    let len = chars_of(d.as_str()).len();
    let mut s = String::new();
    let mut i: usize = len;
    while i < width
        invariant
            len == d@.len(),
            len <= i,
            i <= width || i == len,
            s@ == Seq::new((i - len) as nat, |i: int| '0'),
        decreases width - i,
    {
        s.push('0');
        i += 1;
    }
    s.append(d.as_str());
    s
}

/// A decimal numeral is made of the ten digits and is not empty.
pub proof fn lemma_decimal_digits(n: nat)
    ensures
        decimal(n).len() > 0,
        forall|i: int| 0 <= i < decimal(n).len() ==> '0' <= #[trigger] decimal(n)[i] <= '9',
    decreases n,
{
    if n >= 10 {
        lemma_decimal_digits(n / 10);
    }
}

/// Different numbers have different numerals.
pub proof fn lemma_decimal_injective(m: nat, n: nat)
    requires
        decimal(m) == decimal(n),
    ensures
        m == n,
    decreases m,
{
    lemma_decimal_digits(m / 10);
    lemma_decimal_digits(n / 10);
    assert(decimal(m).last() == digit((m % 10) as int));
    assert(decimal(n).last() == digit((n % 10) as int));
    assert(m % 10 == n % 10);
    if m >= 10 && n >= 10 {
        assert(decimal(m).drop_last() == decimal(m / 10));
        assert(decimal(n).drop_last() == decimal(n / 10));
        lemma_decimal_injective(m / 10, n / 10);
    }
}

} // verus!
