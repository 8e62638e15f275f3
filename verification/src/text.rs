//! Character-level text: the classes, searches and rewrites that the parsers,
//! the prompt rules and the report writer share.
//!
//! Text is modelled as `Seq<char>`; executable code works on `&[char]`.

use vstd::prelude::*;
use vstd::slice::slice_subrange;
#[allow(unused_imports)]
use vstd::string::StringExecFns;

verus! {

/// `String::push`: appends one character.
pub assume_specification[ String::push ](s: &mut String, c: char)
    ensures
        final(s)@ == old(s)@.push(c),
;

// ---------------------------------------------------------------------------
// Conversions
// ---------------------------------------------------------------------------

/// The characters of `s`, in order.
pub fn to_chars(s: &str) -> (out: Vec<char>)
    ensures
        out@ == s@,
{
    let mut out: Vec<char> = Vec::new();
    for c in it: s.chars()
        invariant
            it.seq() == s@,
            out@ == s@.take(it.index() as int),
    {
        out.push(c);
        assert(s@.take(it.index() as int + 1) =~= s@.take(it.index() as int).push(c));
    }
    assert(s@.take(s@.len() as int) =~= s@);
    out
}

/// The string made of `chars`.
pub fn to_text(chars: &[char]) -> (out: String)
    ensures
        out@ == chars@,
{
    let mut out: String = String::new();
    let mut i: usize = 0;
    while i < chars.len()
        invariant
            i <= chars@.len(),
            out@ == chars@.take(i as int),
        decreases chars@.len() - i,
    {
        out.push(chars[i]);
        assert(chars@.take(i + 1) =~= chars@.take(i as int).push(chars@[i as int]));
        i += 1;
    }
    assert(chars@.take(chars@.len() as int) =~= chars@);
    out
}

/// Whether two character sequences are the same.
pub fn same_chars(a: &[char], b: &[char]) -> (r: bool)
    ensures
        r == (a@ == b@),
{
    if a.len() != b.len() {
        return false;
    }
    let mut i: usize = 0;
    while i < a.len()
        invariant
            a@.len() == b@.len(),
            i <= a@.len(),
            forall|j: int| 0 <= j < i ==> a@[j] == b@[j],
        decreases a@.len() - i,
    {
        if a[i] != b[i] {
            return false;
        }
        i += 1;
    }
    assert(a@ =~= b@);
    true
}

/// Whether two strings hold the same characters.
pub fn same_text(a: &str, b: &str) -> (r: bool)
    ensures
        r == (a@ == b@),
{
    let a_chars: Vec<char> = to_chars(a);
    let b_chars: Vec<char> = to_chars(b);
    same_chars(&a_chars, &b_chars)
}

// ---------------------------------------------------------------------------
// Character classes
// ---------------------------------------------------------------------------

/// The Unicode `White_Space` property.
pub open spec fn whitespace(c: char) -> bool {
    ||| '\u{9}' <= c <= '\u{d}'
    ||| c == ' '
    ||| c == '\u{85}'
    ||| c == '\u{a0}'
    ||| c == '\u{1680}'
    ||| '\u{2000}' <= c <= '\u{200a}'
    ||| c == '\u{2028}'
    ||| c == '\u{2029}'
    ||| c == '\u{202f}'
    ||| c == '\u{205f}'
    ||| c == '\u{3000}'
}

/// The control codes: the general category `Cc`.
pub open spec fn control(c: char) -> bool {
    c <= '\u{1f}' || '\u{7f}' <= c <= '\u{9f}'
}

pub fn is_whitespace(c: char) -> (r: bool)
    ensures
        r == whitespace(c),
{
    ('\u{9}' <= c && c <= '\u{d}') || c == ' ' || c == '\u{85}' || c == '\u{a0}' || c == '\u{1680}'
        || ('\u{2000}' <= c && c <= '\u{200a}') || c == '\u{2028}' || c == '\u{2029}' || c
        == '\u{202f}' || c == '\u{205f}' || c == '\u{3000}'
}

pub fn is_control(c: char) -> (r: bool)
    ensures
        r == control(c),
{
    c <= '\u{1f}' || ('\u{7f}' <= c && c <= '\u{9f}')
}

// ---------------------------------------------------------------------------
// Trimming
// ---------------------------------------------------------------------------

/// `s` without leading and trailing white space.
pub open spec fn trimmed(s: Seq<char>) -> Seq<char>
    decreases s.len(),
{
    if s.len() == 0 {
        s
    } else if whitespace(s.first()) {
        trimmed(s.drop_first())
    } else if whitespace(s.last()) {
        trimmed(s.drop_last())
    } else {
        s
    }
}

/// `trimmed`, as a slice of its argument.
pub fn trim(s: &[char]) -> (out: &[char])
    ensures
        out@ == trimmed(s@),
{
    let mut start: usize = 0;
    let n: usize = s.len();
    assert(s@.subrange(0, n as int) =~= s@);
    while start < n && is_whitespace(s[start])
        invariant
            start <= n == s@.len(),
            trimmed(s@) == trimmed(s@.subrange(start as int, n as int)),
        decreases n - start,
    {
        assert(s@.subrange(start as int, n as int).drop_first() =~= s@.subrange(
            start + 1,
            n as int,
        ));
        start += 1;
    }
    let mut end: usize = n;
    assert(start < n ==> !whitespace(s@.subrange(start as int, n as int).first()));
    while start < end && is_whitespace(s[end - 1])
        invariant
            start <= end <= n == s@.len(),
            start < n ==> !whitespace(s@[start as int]),
            trimmed(s@) == trimmed(s@.subrange(start as int, end as int)),
        decreases end,
    {
        assert(s@.subrange(start as int, end as int).drop_last() =~= s@.subrange(
            start as int,
            end - 1,
        ));
        end -= 1;
    }
    slice_subrange(s, start, end)
}

/// Trimming leaves nothing exactly when there is nothing but white space.
pub proof fn lemma_trimmed_empty(s: Seq<char>)
    ensures
        trimmed(s).len() == 0 <==> (forall|i: int| 0 <= i < s.len() ==> whitespace(s[i])),
    decreases s.len(),
{
    if s.len() > 0 {
        if whitespace(s.first()) {
            lemma_trimmed_empty(s.drop_first());
            assert forall|i: int|
                trimmed(s.drop_first()).len() == 0 && 0 <= i < s.len() implies whitespace(s[i]) by {
                if i > 0 {
                    assert(s.drop_first()[i - 1] == s[i]);
                }
            }
            if forall|i: int| 0 <= i < s.len() ==> whitespace(s[i]) {
                assert forall|i: int| 0 <= i < s.drop_first().len() implies whitespace(
                    s.drop_first()[i],
                ) by {
                    assert(s.drop_first()[i] == s[i + 1]);
                }
            }
        } else if whitespace(s.last()) {
            lemma_trimmed_empty(s.drop_last());
            assert(!whitespace(s[0]));
            assert(s.drop_last()[0] == s[0]);
        }
    }
}

/// Whether `s` holds anything but white space.
pub fn is_blank(s: &str) -> (r: bool)
    ensures
        r == (trimmed(s@).len() == 0),
{
    let chars: Vec<char> = to_chars(s);
    trim(&chars).len() == 0
}

// ---------------------------------------------------------------------------
// Prefixes and searches
// ---------------------------------------------------------------------------

/// `part` stands in `s` at `at`.
pub open spec fn stands_at(s: Seq<char>, part: Seq<char>, at: int) -> bool {
    0 <= at && at + part.len() <= s.len() && s.subrange(at, at + part.len()) == part
}

/// `part` stands somewhere in `s`.
pub open spec fn has_part(s: Seq<char>, part: Seq<char>) -> bool {
    exists|at: int| stands_at(s, part, at)
}

/// The first place at or after `from` where `part` stands in `s`.
pub open spec fn first_at(s: Seq<char>, part: Seq<char>, from: int) -> Option<int>
    decreases s.len() - from + 1,
{
    if from < 0 || from + part.len() > s.len() {
        None
    } else if stands_at(s, part, from) {
        Some(from)
    } else {
        first_at(s, part, from + 1)
    }
}

pub proof fn lemma_first_at(s: Seq<char>, part: Seq<char>, from: int)
    requires
        0 <= from,
    ensures
        match first_at(s, part, from) {
            Some(at) => from <= at && stands_at(s, part, at) && (forall|i: int|
                from <= i < at ==> !stands_at(s, part, i)),
            None => forall|i: int| from <= i ==> !stands_at(s, part, i),
        },
    decreases s.len() - from + 1,
{
    if from + part.len() <= s.len() && !stands_at(s, part, from) {
        lemma_first_at(s, part, from + 1);
    }
}

/// Whether `part` stands in `s` at `at`.
pub fn part_at(s: &[char], part: &[char], at: usize) -> (r: bool)
    ensures
        r == stands_at(s@, part@, at as int),
{
    let n: usize = s.len();
    if part.len() > n || at > n - part.len() {
        return false;
    }
    let mut i: usize = 0;
    while i < part.len()
        invariant
            n == s@.len(),
            at + part@.len() <= n,
            i <= part@.len(),
            forall|j: int| 0 <= j < i ==> s@[at + j] == part@[j],
        decreases part@.len() - i,
    {
        if s[at + i] != part[i] {
            proof {
                if s@.subrange(at as int, at + part@.len()) == part@ {
                    assert(s@.subrange(at as int, at + part@.len())[i as int] == part@[i as int]);
                }
            }
            return false;
        }
        i += 1;
    }
    assert(s@.subrange(at as int, at + part@.len()) =~= part@);
    true
}

/// The first place at or after `from` where `part` stands in `s`.
pub fn find_part(s: &[char], part: &[char], from: usize) -> (r: Option<usize>)
    ensures
        match r {
            Some(at) => first_at(s@, part@, from as int) == Some(at as int),
            None => first_at(s@, part@, from as int) is None,
        },
{
    if part.len() > s.len() {
        return None;
    }
    let last: usize = s.len() - part.len();
    let mut at: usize = from;
    while at <= last
        invariant
            from <= at,
            last + part@.len() == s@.len(),
            first_at(s@, part@, from as int) == first_at(s@, part@, at as int),
        decreases last + 1 - at,
    {
        if part_at(s, part, at) {
            return Some(at);
        }
        if at == last {
            assert(first_at(s@, part@, at + 1) is None);
            return None;
        }
        at += 1;
    }
    None
}

/// Whether `part` stands somewhere in `s`.
pub fn contains_part(s: &[char], part: &[char]) -> (r: bool)
    ensures
        r == has_part(s@, part@),
{
    let found: Option<usize> = find_part(s, part, 0);
    proof {
        lemma_first_at(s@, part@, 0);
    }
    found.is_some()
}

/// What follows `prefix` at the start of `s`.
pub open spec fn after_prefix(s: Seq<char>, prefix: Seq<char>) -> Option<Seq<char>> {
    if prefix.is_prefix_of(s) {
        Some(s.skip(prefix.len() as int))
    } else {
        None
    }
}

/// What follows `prefix` at the start of `s`, as a slice of it.
pub fn strip_prefix<'a>(s: &'a [char], prefix: &str) -> (out: Option<&'a [char]>)
    ensures
        match out {
            Some(rest) => after_prefix(s@, prefix@) == Some(rest@),
            None => after_prefix(s@, prefix@) is None,
        },
{
    let part: Vec<char> = to_chars(prefix);
    if part_at(s, &part, 0) {
        let n: usize = s.len();
        let rest: &'a [char] = slice_subrange(s, part.len(), n);
        assert(rest@ =~= s@.skip(prefix@.len() as int));
        Some(rest)
    } else {
        None
    }
}

/// Whether `s` holds exactly the characters of `literal`.
pub fn equals(s: &[char], literal: &str) -> (r: bool)
    ensures
        r == (s@ == literal@),
{
    let part: Vec<char> = to_chars(literal);
    same_chars(s, &part)
}

// ---------------------------------------------------------------------------
// Decimal numbers
// ---------------------------------------------------------------------------

/// The character that writes the digit `n`.
pub open spec fn digit(n: int) -> char {
    (48 + n) as char
}

/// `n` in decimal, without leading zeros.
pub open spec fn digits(n: int) -> Seq<char>
    decreases n,
{
    if n < 10 {
        seq![digit(n)]
    } else {
        digits(n / 10).push(digit(n % 10))
    }
}

/// `n` in decimal, with a leading minus sign where it is negative.
pub open spec fn decimal(n: int) -> Seq<char> {
    if n < 0 {
        seq!['-'] + digits(-n)
    } else {
        digits(n)
    }
}

/// `digits`, computed.
pub fn digits_of(n: u64) -> (out: Vec<char>)
    ensures
        out@ == digits(n as int),
    decreases n,
{
    let low: u8 = 48 + (n % 10) as u8;
    let c: char = low as char;
    assert(c == digit((n % 10) as int));
    if n < 10 {
        let mut out: Vec<char> = Vec::new();
        out.push(c);
        assert(out@ =~= seq![digit(n as int)]);
        out
    } else {
        let mut out: Vec<char> = digits_of(n / 10);
        out.push(c);
        out
    }
}

/// `decimal`, computed.
pub fn decimal_of(n: i64) -> (out: String)
    ensures
        out@ == decimal(n as int),
{
    if n < 0 {
        let magnitude: u64 = (-(n as i128)) as u64;
        let body: Vec<char> = digits_of(magnitude);
        let mut out: String = String::new();
        out.push('-');
        let tail: String = to_text(&body);
        out.append(tail.as_str());
        assert(out@ =~= seq!['-'] + digits(-n));
        out
    } else {
        let body: Vec<char> = digits_of(n as u64);
        to_text(&body)
    }
}

// ---------------------------------------------------------------------------
// UTF-8 widths
// ---------------------------------------------------------------------------

/// How many bytes UTF-8 spends on `c`.
pub open spec fn utf8_width(c: char) -> int {
    if c <= '\u{7f}' {
        1
    } else if c <= '\u{7ff}' {
        2
    } else if c <= '\u{ffff}' {
        3
    } else {
        4
    }
}

/// How many bytes UTF-8 spends on `s`.
pub open spec fn utf8_len(s: Seq<char>) -> int
    decreases s.len(),
{
    if s.len() == 0 {
        0
    } else {
        utf8_width(s.first()) + utf8_len(s.drop_first())
    }
}

/// How many leading characters of `s` fit in `limit` bytes of UTF-8.
pub open spec fn fitting(s: Seq<char>, limit: int) -> int
    decreases s.len(),
{
    if s.len() == 0 || utf8_width(s.first()) > limit {
        0
    } else {
        1 + fitting(s.drop_first(), limit - utf8_width(s.first()))
    }
}

pub fn width_of(c: char) -> (w: usize)
    ensures
        w == utf8_width(c),
{
    if c <= '\u{7f}' {
        1
    } else if c <= '\u{7ff}' {
        2
    } else if c <= '\u{ffff}' {
        3
    } else {
        4
    }
}

proof fn lemma_utf8_width_is_encoded_len(c: char)
    ensures
        utf8_width(c) == vstd::utf8::encode_scalar(c as u32).len(),
{
    vstd::utf8::char_is_scalar(c);
    assert(c <= '\u{7f}' <==> (c as u32) <= 0x7f);
}

/// `utf8_len` is the length of the UTF-8 encoding.
pub proof fn lemma_utf8_len_is_encoded_len(s: Seq<char>)
    ensures
        utf8_len(s) == vstd::utf8::encode_utf8(s).len(),
    decreases s.len(),
{
    if s.len() > 0 {
        lemma_utf8_len_is_encoded_len(s.drop_first());
        lemma_utf8_width_is_encoded_len(s[0]);
    }
}

pub proof fn lemma_utf8_len_bounds(s: Seq<char>)
    ensures
        s.len() <= utf8_len(s) <= 4 * s.len(),
    decreases s.len(),
{
    if s.len() > 0 {
        lemma_utf8_len_bounds(s.drop_first());
    }
}

pub proof fn lemma_utf8_len_concat(a: Seq<char>, b: Seq<char>)
    ensures
        utf8_len(a + b) == utf8_len(a) + utf8_len(b),
    decreases a.len(),
{
    if a.len() == 0 {
        assert(a + b =~= b);
    } else {
        lemma_utf8_len_concat(a.drop_first(), b);
        assert((a + b).drop_first() =~= a.drop_first() + b);
    }
}

/// An ASCII text takes one byte for each character.
pub proof fn lemma_utf8_len_ascii(s: Seq<char>)
    requires
        forall|i: int| 0 <= i < s.len() ==> s[i] <= '\u{7f}',
    ensures
        utf8_len(s) == s.len(),
    decreases s.len(),
{
    if s.len() > 0 {
        assert forall|i: int| 0 <= i < s.drop_first().len() implies s.drop_first()[i]
            <= '\u{7f}' by {
            assert(s.drop_first()[i] == s[i + 1]);
        }
        lemma_utf8_len_ascii(s.drop_first());
    }
}

/// The prefix that fits is within the limit, and it is the longest such prefix.
pub proof fn lemma_fitting(s: Seq<char>, limit: int)
    requires
        0 <= limit,
    ensures
        0 <= fitting(s, limit) <= s.len(),
        utf8_len(s.take(fitting(s, limit))) <= limit,
        fitting(s, limit) < s.len() ==> utf8_len(s.take(fitting(s, limit) + 1)) > limit,
        utf8_len(s) <= limit <==> fitting(s, limit) == s.len(),
    decreases s.len(),
{
    if s.len() > 0 {
        lemma_utf8_len_bounds(s.drop_first());
        if utf8_width(s.first()) <= limit {
            let rest = s.drop_first();
            let room = limit - utf8_width(s.first());
            lemma_fitting(rest, room);
            let n = fitting(rest, room);
            assert(s.take(n + 1).drop_first() =~= rest.take(n));
            if n < rest.len() {
                assert(s.take(n + 2).drop_first() =~= rest.take(n + 1));
                assert(utf8_len(s.take(n + 2)) == utf8_width(s.first()) + utf8_len(
                    rest.take(n + 1),
                ));
            }
        } else {
            assert(s.take(0) =~= Seq::<char>::empty());
            assert(s.take(1).drop_first() =~= Seq::<char>::empty());
            reveal_with_fuel(utf8_len, 2);
        }
    }
}

/// `fitting`, computed.
pub fn fitting_of(s: &[char], limit: usize) -> (n: usize)
    ensures
        n == fitting(s@, limit as int),
{
    let mut i: usize = 0;
    let mut room: usize = limit;
    assert(s@.skip(0) =~= s@);
    while i < s.len()
        invariant
            i <= s@.len(),
            fitting(s@, limit as int) == i + fitting(s@.skip(i as int), room as int),
        decreases s@.len() - i,
    {
        let w: usize = width_of(s[i]);
        assert(s@.skip(i as int).first() == s@[i as int]);
        if w > room {
            return i;
        }
        assert(s@.skip(i as int).drop_first() =~= s@.skip(i + 1));
        room -= w;
        i += 1;
    }
    i
}

// ---------------------------------------------------------------------------
// Case
// ---------------------------------------------------------------------------

/// `str::to_lowercase`: the text in lower case, by the Unicode tables.
pub uninterp spec fn lowercase(s: Seq<char>) -> Seq<char>;

pub open spec fn ascii(c: char) -> bool {
    c <= '\u{7f}'
}

pub open spec fn all_ascii(s: Seq<char>) -> bool {
    forall|i: int| 0 <= i < s.len() ==> ascii(#[trigger] s[i])
}

/// `s` in lower case, by `str::to_lowercase`. In ASCII text the letters from `A` to
/// `Z` become those from `a` to `z`, and the rest stays; what the tables say of other
/// characters is left to the name.
#[verifier::external_body]
pub(crate) fn to_lowercase(s: &str) -> (out: String)
    ensures
        out@ == lowercase(s@),
        all_ascii(s@) ==> out@ == ascii_lowered(s@),
{
    s.to_lowercase()
}

/// `char::is_alphanumeric`: a letter or a number, by the Unicode tables.
pub uninterp spec fn alphanumeric(c: char) -> bool;

/// Whether `c` is a letter or a number, by `char::is_alphanumeric`. In ASCII these are
/// the letters from `A` to `Z` and `a` to `z` and the digits; what the tables say of
/// other characters is left to the name.
#[verifier::external_body]
pub(crate) fn is_alphanumeric(c: char) -> (r: bool)
    ensures
        r == alphanumeric(c),
        ascii(c) ==> r == ascii_alphanumeric(c),
{
    c.is_alphanumeric()
}

/// `c` in lower case where it is an ASCII letter.
pub open spec fn ascii_lower(c: char) -> char {
    if 'A' <= c <= 'Z' {
        (c as int + 32) as char
    } else {
        c
    }
}

/// `s` with its ASCII letters in lower case.
pub open spec fn ascii_lowered(s: Seq<char>) -> Seq<char> {
    s.map_values(|c: char| ascii_lower(c))
}

/// Equal but for the case of ASCII letters.
pub open spec fn same_ascii(a: Seq<char>, b: Seq<char>) -> bool {
    ascii_lowered(a) == ascii_lowered(b)
}

pub fn to_ascii_lower(c: char) -> (r: char)
    ensures
        r == ascii_lower(c),
{
    if 'A' <= c && c <= 'Z' {
        let code: u8 = (c as u32 + 32) as u8;
        code as char
    } else {
        c
    }
}

pub fn eq_ignore_ascii_case(a: &[char], b: &[char]) -> (r: bool)
    ensures
        r == same_ascii(a@, b@),
{
    if a.len() != b.len() {
        assert(ascii_lowered(a@).len() != ascii_lowered(b@).len());
        return false;
    }
    let mut i: usize = 0;
    while i < a.len()
        invariant
            a@.len() == b@.len(),
            i <= a@.len(),
            forall|j: int| 0 <= j < i ==> ascii_lower(a@[j]) == ascii_lower(b@[j]),
        decreases a@.len() - i,
    {
        if to_ascii_lower(a[i]) != to_ascii_lower(b[i]) {
            assert(ascii_lowered(a@)[i as int] != ascii_lowered(b@)[i as int]);
            return false;
        }
        i += 1;
    }
    assert(ascii_lowered(a@) =~= ascii_lowered(b@));
    true
}

/// `same_ascii` of two strings.
pub fn texts_eq_ignore_ascii_case(a: &str, b: &str) -> (r: bool)
    ensures
        r == same_ascii(a@, b@),
{
    let a_chars: Vec<char> = to_chars(a);
    let b_chars: Vec<char> = to_chars(b);
    eq_ignore_ascii_case(&a_chars, &b_chars)
}

/// `same_ascii` of two strings without the white space around them.
pub fn trimmed_eq_ignore_ascii_case(a: &str, b: &str) -> (r: bool)
    ensures
        r == same_ascii(trimmed(a@), trimmed(b@)),
{
    let a_chars: Vec<char> = to_chars(a);
    let b_chars: Vec<char> = to_chars(b);
    eq_ignore_ascii_case(trim(&a_chars), trim(&b_chars))
}

/// An ASCII letter or digit.
pub open spec fn ascii_alphanumeric(c: char) -> bool {
    'a' <= c <= 'z' || 'A' <= c <= 'Z' || '0' <= c <= '9'
}

pub fn is_ascii_alphanumeric(c: char) -> (r: bool)
    ensures
        r == ascii_alphanumeric(c),
{
    ('a' <= c && c <= 'z') || ('A' <= c && c <= 'Z') || ('0' <= c && c <= '9')
}

// ---------------------------------------------------------------------------
// Words
// ---------------------------------------------------------------------------

/// The words that end in `s`, and the word that `s` ends with.
pub open spec fn word_state(s: Seq<char>) -> (Seq<Seq<char>>, Seq<char>)
    decreases s.len(),
{
    if s.len() == 0 {
        (Seq::empty(), Seq::empty())
    } else {
        let (done, word) = word_state(s.drop_last());
        if !whitespace(s.last()) {
            (done, word.push(s.last()))
        } else if word.len() > 0 {
            (done.push(word), Seq::empty())
        } else {
            (done, word)
        }
    }
}

/// The words of `s`, which white space separates.
pub open spec fn words(s: Seq<char>) -> Seq<Seq<char>> {
    let (done, word) = word_state(s);
    if word.len() > 0 {
        done.push(word)
    } else {
        done
    }
}

/// `words`, computed.
pub fn split_words(s: &[char]) -> (out: Vec<Vec<char>>)
    ensures
        out.deep_view() == words(s@),
{
    let mut done: Vec<Vec<char>> = Vec::new();
    let mut word: Vec<char> = Vec::new();
    let mut i: usize = 0;
    assert(s@.take(0) =~= Seq::<char>::empty());
    assert(done.deep_view() =~= Seq::<Seq<char>>::empty());
    assert(word@ =~= Seq::<char>::empty());
    while i < s.len()
        invariant
            i <= s@.len(),
            (done.deep_view(), word@) == word_state(s@.take(i as int)),
        decreases s@.len() - i,
    {
        let c: char = s[i];
        assert(s@.take(i + 1).drop_last() =~= s@.take(i as int));
        if !is_whitespace(c) {
            word.push(c);
        } else if word.len() > 0 {
            let ghost before = done.deep_view();
            assert(word.deep_view() =~= word@);
            done.push(word);
            assert(done.deep_view() =~= before.push(word@));
            word = Vec::new();
            assert(word@ =~= Seq::<char>::empty());
        }
        i += 1;
    }
    assert(s@.take(s@.len() as int) =~= s@);
    if word.len() > 0 {
        let ghost before = done.deep_view();
        assert(word.deep_view() =~= word@);
        done.push(word);
        assert(done.deep_view() =~= before.push(word@));
    }
    done
}

/// The words, one space between two of them.
pub open spec fn spaced(ws: Seq<Seq<char>>) -> Seq<char>
    decreases ws.len(),
{
    if ws.len() == 0 {
        Seq::empty()
    } else if ws.len() == 1 {
        ws.last()
    } else {
        spaced(ws.drop_last()).push(' ') + ws.last()
    }
}

/// `spaced`, computed.
pub fn join_spaced(ws: &Vec<Vec<char>>) -> (out: Vec<char>)
    ensures
        out@ == spaced(ws.deep_view()),
{
    let ghost all = ws.deep_view();
    let mut out: Vec<char> = Vec::new();
    let mut i: usize = 0;
    assert(out@ =~= spaced(all.take(0)));
    while i < ws.len()
        invariant
            i <= ws@.len(),
            all == ws.deep_view(),
            out@ == spaced(all.take(i as int)),
        decreases ws@.len() - i,
    {
        let ghost before = out@;
        if i > 0 {
            out.push(' ');
        }
        let ghost head = out@;
        let word: &Vec<char> = &ws[i];
        let mut j: usize = 0;
        while j < word.len()
            invariant
                j <= word@.len(),
                out@ == head + word@.take(j as int),
            decreases word@.len() - j,
        {
            out.push(word[j]);
            assert(word@.take(j + 1) =~= word@.take(j as int).push(word@[j as int]));
            j += 1;
        }
        proof {
            assert(word@.take(word@.len() as int) =~= word@);
            assert(word.deep_view() =~= word@);
            assert(all.take(i + 1).drop_last() =~= all.take(i as int));
            assert(all.take(i + 1).last() == word@);
            assert(out@ =~= spaced(all.take(i + 1)));
        }
        i += 1;
    }
    assert(all.take(all.len() as int) =~= all);
    out
}

// ---------------------------------------------------------------------------
// Appending a part
// ---------------------------------------------------------------------------

/// `target` with a space and `value` behind it, where there is anything in it
/// but white space.
pub open spec fn with_part(target: Seq<char>, value: Option<Seq<char>>) -> Seq<char> {
    match value {
        Some(value) => if trimmed(value).len() == 0 {
            target
        } else {
            target.push(' ') + trimmed(value)
        },
        None => target,
    }
}

/// `with_part`, computed.
pub fn push_text(target: &mut String, value: &Option<String>)
    ensures
        final(target)@ == with_part(old(target)@, value.deep_view()),
{
    if let Some(value) = value {
        let chars: Vec<char> = to_chars(value.as_str());
        let inner: &[char] = trim(&chars);
        if inner.len() > 0 {
            let text: String = to_text(inner);
            target.push(' ');
            target.append(text.as_str());
        }
    }
}

} // verus!
