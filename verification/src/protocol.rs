//! The line protocol in which a diagnostic collector reports processes, windows
//! and elements: its scalars, its records, and the redaction of what was read.

use crate::diagnose::{
    ProcessInfo, UiElement, WindowInfo, MAX_DIAGNOSTIC_COLLECTION_ELEMENTS,
    MAX_DIAGNOSTIC_COLLECTION_PROCESSES, MAX_DIAGNOSTIC_COLLECTION_WINDOWS,
    MAX_DIAGNOSTIC_PROTOCOL_VALUE_CHARS,
};
#[allow(unused_imports)]
use crate::diagnose::{
    element_count, lemma_element_count_push, lemma_window_count_push,
    lemma_window_element_count_push, window_count, window_element_count, ElementView, ProcessView,
    WindowView,
};
#[allow(unused_imports)]
use crate::text::{
    after_prefix, control, first_at, fitting, lemma_first_at, lemma_fitting, lemma_trimmed_empty,
    trimmed, whitespace,
};
use crate::text::{
    equals, find_part, fitting_of, is_blank, is_control, is_whitespace, same_chars, same_text,
    strip_prefix, to_chars, to_text, trim,
};
use vstd::prelude::*;
use vstd::slice::slice_subrange;

verus! {

pub const MAX_DIAGNOSTIC_PARSE_LINES: usize = 4096;

/// The bytes that an encoded scalar may take before it is decoded.
pub const MAX_ENCODED_SCALAR_BYTES: usize = 640;

/// How many fields of an element record are read.
pub const MAX_ELEMENT_FIELDS: usize = 8;

pub const DIAGNOSTIC_COLLECTION_TRUNCATED_TEXT: &'static str = "diagnostic collection truncated";

pub const DIAGNOSTIC_PARSE_TRUNCATED_TEXT: &'static str = "diagnostic parser truncated input";

pub const DIAGNOSTIC_RAW_OUTPUT_TRUNCATED_TEXT: &'static str = "diagnostic raw output truncated";

pub const DIAGNOSTIC_SECURE_TRAVERSAL_TRUNCATED_TEXT: &'static str =
    "diagnostic secure-field traversal truncated";

// ---------------------------------------------------------------------------
// Scalars
// ---------------------------------------------------------------------------

/// The value of a hexadecimal digit.
pub open spec fn hex_value(c: char) -> Option<int> {
    if '0' <= c <= '9' {
        Some(c as int - '0' as int)
    } else if 'a' <= c <= 'f' {
        Some(c as int - 'a' as int + 10)
    } else if 'A' <= c <= 'F' {
        Some(c as int - 'A' as int + 10)
    } else {
        None
    }
}

fn hex_value_of(c: char) -> (r: Option<u8>)
    ensures
        match r {
            Some(v) => hex_value(c) == Some(v as int) && v < 16,
            None => hex_value(c) is None,
        },
{
    if '0' <= c && c <= '9' {
        Some((c as u32 - 48) as u8)
    } else if 'a' <= c && c <= 'f' {
        Some((c as u32 - 97 + 10) as u8)
    } else if 'A' <= c && c <= 'F' {
        Some((c as u32 - 65 + 10) as u8)
    } else {
        None
    }
}

/// `s` with each `%` and two hexadecimal digits replaced by the character with
/// that code. A `%` that is not followed by two such digits stays, together
/// with the two characters after it.
pub open spec fn percent_decoded(s: Seq<char>) -> Seq<char>
    decreases s.len(),
{
    if s.len() == 0 {
        Seq::empty()
    } else if s[0] != '%' {
        seq![s[0]] + percent_decoded(s.skip(1))
    } else if s.len() < 3 {
        s
    } else {
        match (hex_value(s[1]), hex_value(s[2])) {
            (Some(high), Some(low)) => seq![(high * 16 + low) as char] + percent_decoded(s.skip(3)),
            _ => s.take(3) + percent_decoded(s.skip(3)),
        }
    }
}

/// `percent_decoded`, computed.
pub fn percent_decode_protocol_value(s: &[char]) -> (out: Vec<char>)
    ensures
        out@ == percent_decoded(s@),
{
    let mut out: Vec<char> = Vec::new();
    let n: usize = s.len();
    let mut i: usize = 0;
    assert(s@.skip(0) =~= s@);
    assert(out@ + percent_decoded(s@) =~= percent_decoded(s@));
    while i < n
        invariant
            i <= n == s@.len(),
            percent_decoded(s@) == out@ + percent_decoded(s@.skip(i as int)),
        decreases n - i,
    {
        let ghost left = s@.skip(i as int);
        let ghost before = out@;
        if s[i] != '%' {
            out.push(s[i]);
            proof {
                assert(left.skip(1) =~= s@.skip(i + 1));
                assert(out@ + percent_decoded(left.skip(1)) =~= before + percent_decoded(left));
            }
            i += 1;
        } else if n - i < 3 {
            while i < n
                invariant
                    i <= n == s@.len(),
                    percent_decoded(s@) == out@ + s@.skip(i as int),
                decreases n - i,
            {
                let ghost held = out@;
                out.push(s[i]);
                assert(held + s@.skip(i as int) =~= out@ + s@.skip(i + 1));
                i += 1;
            }
            assert(out@ + s@.skip(i as int) =~= out@);
            return out;
        } else {
            let high: Option<u8> = hex_value_of(s[i + 1]);
            let low: Option<u8> = hex_value_of(s[i + 2]);
            match (high, low) {
                (Some(high), Some(low)) => {
                    let byte: u8 = high * 16 + low;
                    out.push(byte as char);
                    assert(left.skip(3) =~= s@.skip(i + 3));
                    assert(out@ + percent_decoded(left.skip(3)) =~= before + percent_decoded(left));
                },
                _ => {
                    out.push('%');
                    out.push(s[i + 1]);
                    out.push(s[i + 2]);
                    assert(left.skip(3) =~= s@.skip(i + 3));
                    assert(out@ =~= before + left.take(3));
                    assert(out@ + percent_decoded(left.skip(3)) =~= before + percent_decoded(left));
                },
            }
            i += 3;
        }
    }
    assert(s@.skip(n as int) =~= Seq::<char>::empty());
    assert(out@ + percent_decoded(s@.skip(n as int)) =~= out@);
    out
}

/// A character that a report scalar never holds; a run of them becomes a space.
pub open spec fn separating(c: char) -> bool {
    control(c) || c == '|' || whitespace(c)
}

/// The words of `s`, one space between two of them, and whether separating
/// characters follow the last word.
pub open spec fn joined_words(s: Seq<char>) -> (Seq<char>, bool)
    decreases s.len(),
{
    if s.len() == 0 {
        (Seq::empty(), false)
    } else {
        let (out, pending) = joined_words(s.drop_last());
        let c = s.last();
        if separating(c) {
            (out, out.len() > 0)
        } else if pending {
            (out.push(' ').push(c), false)
        } else {
            (out.push(c), false)
        }
    }
}

/// `s` as a report scalar: the words of its first characters, one space apart.
pub open spec fn sanitized(s: Seq<char>) -> Seq<char> {
    if s.len() <= MAX_DIAGNOSTIC_PROTOCOL_VALUE_CHARS {
        joined_words(s).0
    } else {
        joined_words(s.take(MAX_DIAGNOSTIC_PROTOCOL_VALUE_CHARS as int)).0
    }
}

fn sanitize_chars(s: &[char]) -> (out: Vec<char>)
    ensures
        out@ == sanitized(s@),
{
    let n: usize = if s.len() <= MAX_DIAGNOSTIC_PROTOCOL_VALUE_CHARS {
        s.len()
    } else {
        MAX_DIAGNOSTIC_PROTOCOL_VALUE_CHARS
    };
    let mut out: Vec<char> = Vec::new();
    let mut pending: bool = false;
    let mut i: usize = 0;
    assert(s@.take(0) =~= Seq::<char>::empty());
    while i < n
        invariant
            i <= n <= s@.len(),
            (out@, pending) == joined_words(s@.take(i as int)),
        decreases n - i,
    {
        let c: char = s[i];
        assert(s@.take(i + 1).drop_last() =~= s@.take(i as int));
        if is_control(c) || c == '|' || is_whitespace(c) {
            pending = out.len() > 0;
        } else {
            if pending {
                out.push(' ');
                pending = false;
            }
            out.push(c);
        }
        i += 1;
    }
    assert(s@.take(s@.len() as int) =~= s@);
    out
}

/// `sanitized`, computed.
pub fn sanitized_report_scalar(value: &str) -> (out: String)
    ensures
        out@ == sanitized(value@),
{
    let chars: Vec<char> = to_chars(value);
    let words: Vec<char> = sanitize_chars(&chars);
    to_text(&words)
}

/// The scalar that `s` encodes: at most so many bytes are read, the percent
/// encoding is taken off, and what is left is made a report scalar.
pub open spec fn decoded(s: Seq<char>) -> Seq<char> {
    sanitized(percent_decoded(s.take(fitting(s, MAX_ENCODED_SCALAR_BYTES as int))))
}

/// `decoded`, computed.
pub fn decode_protocol_value(s: &[char]) -> (out: Vec<char>)
    ensures
        out@ == decoded(s@),
{
    proof {
        lemma_fitting(s@, MAX_ENCODED_SCALAR_BYTES as int);
    }
    let keep: usize = fitting_of(s, MAX_ENCODED_SCALAR_BYTES);
    let capped: &[char] = slice_subrange(s, 0, keep);
    assert(capped@ =~= s@.take(keep as int));
    let plain: Vec<char> = percent_decode_protocol_value(capped);
    sanitize_chars(&plain)
}

/// A report scalar is short, holds no control character and no field separator,
/// holds white space only as single spaces between words, and is not changed by
/// being made a report scalar again.
pub proof fn law_sanitized(s: Seq<char>)
    ensures
        sanitized(s).len() <= MAX_DIAGNOSTIC_PROTOCOL_VALUE_CHARS,
        forall|i: int|
            0 <= i < sanitized(s).len() ==> !control(#[trigger] sanitized(s)[i])
                && sanitized(s)[i] != '|' && (whitespace(sanitized(s)[i]) ==> sanitized(s)[i] == ' '
                && 0 < i < sanitized(s).len() - 1 && !whitespace(sanitized(s)[i - 1])),
        sanitized(sanitized(s)) == sanitized(s),
{
    let head = if s.len() <= MAX_DIAGNOSTIC_PROTOCOL_VALUE_CHARS {
        s
    } else {
        s.take(MAX_DIAGNOSTIC_PROTOCOL_VALUE_CHARS as int)
    };
    lemma_joined_words(head);
    lemma_joined_words_again(head);
}

/// Words one space apart.
spec fn spaced_words(w: Seq<char>) -> bool {
    forall|i: int|
        #![trigger w[i]]
        0 <= i < w.len() ==> !control(w[i]) && w[i] != '|' && (whitespace(w[i]) ==> w[i] == ' ' && 0
            < i < w.len() - 1 && !whitespace(w[i - 1]))
}

proof fn lemma_joined_words(s: Seq<char>)
    ensures
        spaced_words(joined_words(s).0),
        joined_words(s).1 ==> joined_words(s).0.len() > 0,
        joined_words(s).0.len() + (if joined_words(s).1 {
            1int
        } else {
            0int
        }) <= s.len(),
    decreases s.len(),
{
    if s.len() > 0 {
        lemma_joined_words(s.drop_last());
        let (out, pending) = joined_words(s.drop_last());
        let c = s.last();
        if !separating(c) {
            let w = joined_words(s).0;
            assert forall|i: int| #![trigger w[i]] 0 <= i < w.len() implies !control(w[i]) && w[i]
                != '|' && (whitespace(w[i]) ==> w[i] == ' ' && 0 < i < w.len() - 1 && !whitespace(
                w[i - 1],
            )) by {
                if i < out.len() {
                    assert(w[i] == out[i]);
                    if whitespace(w[i]) {
                        assert(w[i - 1] == out[i - 1]);
                    }
                } else if pending && i == out.len() {
                    assert(w[i] == ' ');
                    assert(w[i - 1] == out[out.len() - 1]);
                    assert(!whitespace(out[out.len() - 1]));
                } else {
                    assert(w[i] == c);
                }
            }
        }
    }
}

proof fn lemma_words_kept(w: Seq<char>, n: int)
    requires
        spaced_words(w),
        0 <= n <= w.len(),
    ensures
        n == 0 || !whitespace(w[n - 1]) ==> joined_words(w.take(n)) == (w.take(n), false),
        n > 0 && whitespace(w[n - 1]) ==> joined_words(w.take(n)) == (w.take(n - 1), true),
    decreases n,
{
    if n > 0 {
        lemma_words_kept(w, n - 1);
        assert(w.take(n).drop_last() =~= w.take(n - 1));
        let c = w[n - 1];
        assert(w.take(n).last() == c);
        if whitespace(c) {
            assert(n - 1 > 0);
        } else {
            assert(!control(c) && c != '|');
            if n - 1 > 0 && whitespace(w[n - 2]) {
                assert(w[n - 2] == ' ');
                assert(w.take(n - 2).push(' ').push(c) =~= w.take(n));
            } else {
                assert(w.take(n - 1).push(c) =~= w.take(n));
            }
        }
    } else {
        assert(w.take(0) =~= Seq::<char>::empty());
    }
}

proof fn lemma_joined_words_again(s: Seq<char>)
    ensures
        joined_words(joined_words(s).0).0 == joined_words(s).0,
{
    let w = joined_words(s).0;
    lemma_joined_words(s);
    lemma_words_kept(w, w.len() as int);
    assert(w.take(w.len() as int) =~= w);
    if w.len() > 0 {
        assert(!whitespace(w[w.len() - 1]));
    }
}

// ---------------------------------------------------------------------------
// Numbers
// ---------------------------------------------------------------------------

/// The number that a run of decimal digits writes.
pub open spec fn digits_value(s: Seq<char>) -> Option<int>
    decreases s.len(),
{
    if s.len() == 0 {
        Some(0)
    } else if '0' <= s.last() <= '9' {
        match digits_value(s.drop_last()) {
            Some(v) => Some(10 * v + (s.last() as int - '0' as int)),
            None => None,
        }
    } else {
        None
    }
}

/// The number that `s` writes: an optional sign, then decimal digits.
pub open spec fn number_value(s: Seq<char>) -> Option<int> {
    if s.len() == 0 {
        None
    } else if s[0] == '-' || s[0] == '+' {
        if s.len() == 1 {
            None
        } else {
            match digits_value(s.skip(1)) {
                Some(v) => Some(
                    if s[0] == '-' {
                        -v
                    } else {
                        v
                    },
                ),
                None => None,
            }
        }
    } else {
        digits_value(s)
    }
}

/// The number that `s` writes, where it fits the type.
pub open spec fn pid_value(s: Seq<char>) -> Option<i32> {
    match number_value(s) {
        Some(v) => if i32::MIN <= v <= i32::MAX {
            Some(v as i32)
        } else {
            None
        },
        None => None,
    }
}

proof fn lemma_digits_value_grows(s: Seq<char>, n: int)
    requires
        0 <= n <= s.len(),
    ensures
        digits_value(s) is Some ==> digits_value(s.take(n)) is Some && 0 <= digits_value(
            s.take(n),
        )->0 <= digits_value(s)->0,
    decreases s.len(),
{
    if n == s.len() {
        assert(s.take(n) =~= s);
        if s.len() > 0 {
            lemma_digits_value_grows(s.drop_last(), s.len() - 1);
            assert(s.drop_last().take(s.len() - 1) =~= s.drop_last());
        }
    } else {
        lemma_digits_value_grows(s.drop_last(), n);
        assert(s.drop_last().take(n) =~= s.take(n));
    }
}

/// The number that a run of decimal digits writes, up to a little over what a
/// pid can be.
fn read_digits(s: &[char]) -> (r: Option<i64>)
    ensures
        match r {
            Some(v) => digits_value(s@) == Some(v as int) && 0 <= v <= 0x1_0000_0000,
            None => digits_value(s@) is None || digits_value(s@)->0 > 0x1_0000_0000,
        },
{
    let mut value: i64 = 0;
    let mut i: usize = 0;
    assert(s@.take(0) =~= Seq::<char>::empty());
    while i < s.len()
        invariant
            i <= s@.len(),
            0 <= value <= 0x1_0000_0000,
            digits_value(s@.take(i as int)) == Some(value as int),
        decreases s@.len() - i,
    {
        let c: char = s[i];
        assert(s@.take(i + 1).drop_last() =~= s@.take(i as int));
        assert(s@.take(i + 1).last() == c);
        if c < '0' || '9' < c {
            proof {
                lemma_digits_value_grows(s@, i + 1);
            }
            return None;
        }
        value = 10 * value + (c as u32 - 48) as i64;
        if value > 0x1_0000_0000 {
            proof {
                lemma_digits_value_grows(s@, i + 1);
            }
            return None;
        }
        i += 1;
    }
    assert(s@.take(s@.len() as int) =~= s@);
    Some(value)
}

/// `pid_value`, computed.
pub fn parse_pid(s: &[char]) -> (r: Option<i32>)
    ensures
        r == pid_value(s@),
{
    if s.len() == 0 {
        return None;
    }
    let signed: bool = s[0] == '-' || s[0] == '+';
    if signed && s.len() == 1 {
        return None;
    }
    let body: &[char] = if signed {
        slice_subrange(s, 1, s.len())
    } else {
        s
    };
    assert(signed ==> body@ =~= s@.skip(1));
    match read_digits(body) {
        Some(v) => {
            let number: i64 = if s[0] == '-' {
                -v
            } else {
                v
            };
            if number < i32::MIN as i64 || number > i32::MAX as i64 {
                None
            } else {
                Some(number as i32)
            }
        },
        None => None,
    }
}

// ---------------------------------------------------------------------------
// Records
// ---------------------------------------------------------------------------

/// What has been read so far.
#[verifier::ext_equal]
pub struct ParseView {
    pub targets: Seq<ProcessView>,
    pub dialogs: Seq<ProcessView>,
    pub reasons: Seq<Seq<char>>,
    /// The process whose windows are being read.
    pub process: Option<ProcessView>,
    /// The window whose elements are being read.
    pub window: Option<WindowView>,
    pub in_system: bool,
    pub processes: int,
    pub windows: int,
    pub elements: int,
}

pub open spec fn empty_parse() -> ParseView {
    ParseView {
        targets: Seq::empty(),
        dialogs: Seq::empty(),
        reasons: Seq::empty(),
        process: None,
        window: None,
        in_system: false,
        processes: 0,
        windows: 0,
        elements: 0,
    }
}

/// `reasons` with `reason` in it, once.
pub open spec fn with_reason(reasons: Seq<Seq<char>>, reason: Seq<char>) -> Seq<Seq<char>> {
    if reasons.contains(reason) {
        reasons
    } else {
        reasons.push(reason)
    }
}

pub open spec fn note_reason(st: ParseView, reason: Seq<char>) -> ParseView {
    ParseView { reasons: with_reason(st.reasons, reason), ..st }
}

/// The open window goes to the open process.
pub open spec fn close_window(st: ParseView) -> ParseView {
    match st.window {
        Some(w) => match st.process {
            Some(p) => ParseView {
                process: Some(ProcessView { windows: p.windows.push(w), ..p }),
                window: None,
                ..st
            },
            None => ParseView { window: None, ..st },
        },
        None => st,
    }
}

/// The open process goes to the list that it belongs to.
pub open spec fn close_process(st: ParseView) -> ParseView {
    let st = close_window(st);
    match st.process {
        Some(p) => if st.in_system {
            ParseView { dialogs: st.dialogs.push(p), process: None, ..st }
        } else {
            ParseView { targets: st.targets.push(p), process: None, ..st }
        },
        None => st,
    }
}

/// The process record's part before the pid, and the part after it.
pub open spec fn split_pid(rest: Seq<char>) -> (Seq<char>, Option<Seq<char>>) {
    match first_at(rest, "|pid="@, 0) {
        Some(at) => (rest.take(at), Some(rest.skip(at + "|pid="@.len()))),
        None => (rest, None),
    }
}

/// A `PROCESS:` record: it is taken where it names the expected application,
/// there is room, and its pid is trusted.
pub open spec fn read_process(
    st: ParseView,
    rest: Seq<char>,
    app: Seq<char>,
    trusted: Option<Seq<i32>>,
) -> ParseView {
    let st = ParseView { in_system: false, ..close_process(st) };
    let (name_part, pid_part) = split_pid(rest);
    let name = decoded(trimmed(name_part));
    let pid = match pid_part {
        Some(part) => pid_value(decoded(part)),
        None => None,
    };
    if name != app {
        st
    } else if st.processes >= MAX_DIAGNOSTIC_COLLECTION_PROCESSES {
        note_reason(st, DIAGNOSTIC_COLLECTION_TRUNCATED_TEXT@)
    } else if trusted is Some && !(pid is Some && trusted->0.contains(pid->0)) {
        st
    } else {
        ParseView {
            processes: st.processes + 1,
            process: Some(ProcessView { name, pid, windows: Seq::empty() }),
            ..st
        }
    }
}

/// The system processes whose dialogs are reported.
pub open spec fn dialog_process(name: Seq<char>) -> bool {
    name == "SecurityAgent"@ || name == "loginwindow"@
}

/// A `SYSTEM_PROCESS:` record.
pub open spec fn read_system_process(st: ParseView, rest: Seq<char>) -> ParseView {
    let st = ParseView { in_system: true, ..close_process(st) };
    let name = decoded(trimmed(rest));
    if !dialog_process(name) {
        st
    } else if st.processes >= MAX_DIAGNOSTIC_COLLECTION_PROCESSES {
        note_reason(st, DIAGNOSTIC_COLLECTION_TRUNCATED_TEXT@)
    } else {
        ParseView {
            processes: st.processes + 1,
            process: Some(ProcessView { name, pid: None, windows: Seq::empty() }),
            ..st
        }
    }
}

/// A `WINDOW:` record.
pub open spec fn read_window(st: ParseView, rest: Seq<char>) -> ParseView {
    let st = close_window(st);
    if st.process is None {
        st
    } else if st.windows >= MAX_DIAGNOSTIC_COLLECTION_WINDOWS {
        note_reason(st, DIAGNOSTIC_COLLECTION_TRUNCATED_TEXT@)
    } else {
        ParseView {
            windows: st.windows + 1,
            window: Some(WindowView { title: decoded(rest), elements: Seq::empty() }),
            ..st
        }
    }
}

/// How far `s` goes before `c`.
pub open spec fn until(s: Seq<char>, c: char) -> int
    decreases s.len(),
{
    if s.len() == 0 || s.first() == c {
        0
    } else {
        1 + until(s.drop_first(), c)
    }
}

/// An element record as far as it has been read.
#[verifier::ext_equal]
pub struct FieldsView {
    pub element: ElementView,
    pub typed: bool,
}

pub open spec fn empty_fields() -> FieldsView {
    FieldsView {
        element: ElementView {
            element_type: Seq::empty(),
            name: Seq::empty(),
            value: None,
            enabled: None,
        },
        typed: false,
    }
}

/// One field of an element record: a known key and its value, or the type.
pub open spec fn read_field(f: FieldsView, part: Seq<char>) -> FieldsView {
    if part.contains('=') {
        let key = part.take(until(part, '='));
        let value = decoded(part.skip(until(part, '=') + 1));
        if key == "name"@ {
            FieldsView { element: ElementView { name: value, ..f.element }, ..f }
        } else if key == "value"@ {
            FieldsView { element: ElementView { value: Some(value), ..f.element }, ..f }
        } else if key == "enabled"@ {
            FieldsView {
                element: ElementView { enabled: Some(value == "true"@), ..f.element },
                ..f
            }
        } else {
            f
        }
    } else if !f.typed {
        FieldsView {
            element: ElementView { element_type: decoded(part), ..f.element },
            typed: true,
        }
    } else {
        f
    }
}

/// The first `room` fields of an element record.
pub open spec fn read_fields(f: FieldsView, s: Seq<char>, room: int) -> FieldsView
    decreases room,
{
    if room <= 0 {
        f
    } else {
        let n = until(s, '|');
        let read = read_field(f, s.take(n));
        if n >= s.len() {
            read
        } else {
            read_fields(read, s.skip(n + 1), room - 1)
        }
    }
}

/// An `ELEMENT:` record.
pub open spec fn read_element(st: ParseView, rest: Seq<char>) -> ParseView {
    if st.process is None || st.window is None {
        st
    } else if st.elements >= MAX_DIAGNOSTIC_COLLECTION_ELEMENTS {
        note_reason(st, DIAGNOSTIC_COLLECTION_TRUNCATED_TEXT@)
    } else {
        let element = read_fields(empty_fields(), rest, MAX_ELEMENT_FIELDS as int).element;
        ParseView {
            elements: st.elements + 1,
            window: Some(
                WindowView { elements: st.window->0.elements.push(element), ..st.window->0 },
            ),
            ..st
        }
    }
}

/// The text that a `TRUNCATED:` record stands for.
pub open spec fn truncation_text(reason: Seq<char>) -> Seq<char> {
    if reason == "collection"@ {
        DIAGNOSTIC_COLLECTION_TRUNCATED_TEXT@
    } else if reason == "raw-output"@ {
        DIAGNOSTIC_RAW_OUTPUT_TRUNCATED_TEXT@
    } else if reason == "secure-traversal"@ {
        DIAGNOSTIC_SECURE_TRAVERSAL_TRUNCATED_TEXT@
    } else {
        DIAGNOSTIC_PARSE_TRUNCATED_TEXT@
    }
}

/// One line of the protocol, without the white space around it.
pub open spec fn read_record(
    st: ParseView,
    line: Seq<char>,
    app: Seq<char>,
    trusted: Option<Seq<i32>>,
) -> ParseView {
    match after_prefix(line, "TRUNCATED:"@) {
        Some(reason) => note_reason(st, truncation_text(trimmed(reason))),
        None => match after_prefix(line, "PROCESS:"@) {
            Some(rest) => read_process(st, rest, app, trusted),
            None => match after_prefix(line, "SYSTEM_PROCESS:"@) {
                Some(rest) => read_system_process(st, rest),
                None => match after_prefix(line, "WINDOW:"@) {
                    Some(rest) => read_window(st, rest),
                    None => match after_prefix(line, "ELEMENT:"@) {
                        Some(rest) => read_element(st, rest),
                        None => st,
                    },
                },
            },
        },
    }
}

/// The lines of `s`, of which so many may still be read.
pub open spec fn read_lines(
    st: ParseView,
    s: Seq<char>,
    room: int,
    app: Seq<char>,
    trusted: Option<Seq<i32>>,
) -> ParseView
    decreases room,
{
    if s.len() == 0 {
        st
    } else if room <= 0 {
        note_reason(st, DIAGNOSTIC_PARSE_TRUNCATED_TEXT@)
    } else {
        let n = until(s, '\n');
        let read = read_record(st, trimmed(s.take(n)), app, trusted);
        if n >= s.len() {
            read
        } else {
            read_lines(read, s.skip(n + 1), room - 1, app, trusted)
        }
    }
}

/// `until`, computed.
pub fn until_char(s: &[char], c: char) -> (n: usize)
    ensures
        n == until(s@, c),
        n <= s@.len(),
        n == s@.len() <==> !s@.contains(c),
{
    let mut i: usize = 0;
    assert(s@.skip(0) =~= s@);
    while i < s.len()
        invariant
            i <= s@.len(),
            until(s@, c) == i + until(s@.skip(i as int), c),
            forall|j: int| 0 <= j < i ==> s@[j] != c,
        decreases s@.len() - i,
    {
        assert(s@.skip(i as int).first() == s@[i as int]);
        if s[i] == c {
            assert(s@.contains(c));
            return i;
        }
        assert(s@.skip(i as int).drop_first() =~= s@.skip(i + 1));
        i += 1;
    }
    i
}

/// `reasons` gains `reason` unless it is there.
pub fn add_truncation_reason(reasons: &mut Vec<String>, reason: &str)
    ensures
        final(reasons).deep_view() == with_reason(old(reasons).deep_view(), reason@),
{
    let mut i: usize = 0;
    while i < reasons.len()
        invariant
            i <= reasons@.len(),
            *reasons == *old(reasons),
            forall|j: int| 0 <= j < i ==> reasons@[j]@ != reason@,
        decreases reasons@.len() - i,
    {
        if same_text(reasons[i].as_str(), reason) {
            assert(reasons.deep_view()[i as int] == reason@);
            return;
        }
        i += 1;
    }
    proof {
        if reasons.deep_view().contains(reason@) {
            let j = choose|j: int|
                0 <= j < reasons.deep_view().len() && reasons.deep_view()[j] == reason@;
            assert(reasons@[j]@ == reason@);
        }
    }
    let added: String = reason.to_owned();
    reasons.push(added);
    assert(reasons.deep_view() =~= old(reasons).deep_view().push(reason@));
}

/// A reader of the protocol between two lines.
pub struct RecordReader {
    targets: Vec<ProcessInfo>,
    dialogs: Vec<ProcessInfo>,
    reasons: Vec<String>,
    process: Option<ProcessInfo>,
    window: Option<WindowInfo>,
    in_system: bool,
    processes: usize,
    windows: usize,
    elements: usize,
}

impl DeepView for RecordReader {
    type V = ParseView;

    closed spec fn deep_view(&self) -> ParseView {
        ParseView {
            targets: self.targets.deep_view(),
            dialogs: self.dialogs.deep_view(),
            reasons: self.reasons.deep_view(),
            process: self.process.deep_view(),
            window: self.window.deep_view(),
            in_system: self.in_system,
            processes: self.processes as int,
            windows: self.windows as int,
            elements: self.elements as int,
        }
    }
}

fn read_field_into(element: &mut UiElement, typed: &mut bool, part: &[char])
    ensures
        (FieldsView { element: final(element).deep_view(), typed: *final(typed) }) == read_field(
            FieldsView { element: old(element).deep_view(), typed: *old(typed) },
            part@,
        ),
{
    let at: usize = until_char(part, '=');
    if at < part.len() {
        let key: &[char] = slice_subrange(part, 0, at);
        let raw: &[char] = slice_subrange(part, at + 1, part.len());
        assert(key@ =~= part@.take(at as int));
        assert(raw@ =~= part@.skip(at + 1));
        let value: Vec<char> = decode_protocol_value(raw);
        if equals(key, "name") {
            element.name = to_text(&value);
        } else if equals(key, "value") {
            element.value = Some(to_text(&value));
        } else if equals(key, "enabled") {
            element.enabled = Some(equals(&value, "true"));
        }
    } else if !*typed {
        let value: Vec<char> = decode_protocol_value(part);
        element.element_type = to_text(&value);
        *typed = true;
    }
}

fn read_element_fields(rest: &[char]) -> (element: UiElement)
    ensures
        element.deep_view() == read_fields(
            empty_fields(),
            rest@,
            MAX_ELEMENT_FIELDS as int,
        ).element,
{
    let mut element: UiElement = UiElement {
        element_type: String::new(),
        name: String::new(),
        value: None,
        enabled: None,
    };
    let mut typed: bool = false;
    let mut left: &[char] = rest;
    let mut room: usize = MAX_ELEMENT_FIELDS;
    assert(element.deep_view() == empty_fields().element);
    while room > 0
        invariant
            read_fields(empty_fields(), rest@, MAX_ELEMENT_FIELDS as int) == read_fields(
                (FieldsView { element: element.deep_view(), typed }),
                left@,
                room as int,
            ),
        decreases room,
    {
        let n: usize = until_char(left, '|');
        let part: &[char] = slice_subrange(left, 0, n);
        assert(part@ =~= left@.take(n as int));
        read_field_into(&mut element, &mut typed, part);
        if n >= left.len() {
            return element;
        }
        let next: &[char] = slice_subrange(left, n + 1, left.len());
        assert(next@ =~= left@.skip(n + 1));
        left = next;
        room -= 1;
    }
    element
}

impl RecordReader {
    /// The counts are within their limits.
    pub closed spec fn wf(&self) -> bool {
        &&& self.processes <= MAX_DIAGNOSTIC_COLLECTION_PROCESSES
        &&& self.windows <= MAX_DIAGNOSTIC_COLLECTION_WINDOWS
        &&& self.elements <= MAX_DIAGNOSTIC_COLLECTION_ELEMENTS
    }

    pub fn new() -> (reader: Self)
        ensures
            reader.wf(),
            reader.deep_view() == empty_parse(),
    {
        let reader: RecordReader = RecordReader {
            targets: Vec::new(),
            dialogs: Vec::new(),
            reasons: Vec::new(),
            process: None,
            window: None,
            in_system: false,
            processes: 0,
            windows: 0,
            elements: 0,
        };
        assert(reader.deep_view() =~= empty_parse());
        reader
    }

    fn note(&mut self, reason: &str)
        requires
            old(self).wf(),
        ensures
            final(self).wf(),
            final(self).deep_view() == note_reason(old(self).deep_view(), reason@),
    {
        add_truncation_reason(&mut self.reasons, reason);
    }

    fn finish_current_window(&mut self)
        requires
            old(self).wf(),
        ensures
            final(self).wf(),
            final(self).deep_view() == close_window(old(self).deep_view()),
    {
        if let Some(w) = self.window.take() {
            if let Some(p) = self.process.take() {
                let ghost before = p.windows.deep_view();
                let mut open: ProcessInfo = p;
                open.windows.push(w);
                assert(open.windows.deep_view() =~= before.push(w.deep_view()));
                self.process = Some(open);
            }
        }
    }

    fn finish_current_process(&mut self)
        requires
            old(self).wf(),
        ensures
            final(self).wf(),
            final(self).deep_view() == close_process(old(self).deep_view()),
    {
        self.finish_current_window();
        let ghost mid = *self;
        if let Some(p) = self.process.take() {
            if self.in_system {
                self.dialogs.push(p);
                assert(self.dialogs.deep_view() =~= mid.dialogs.deep_view().push(p.deep_view()));
            } else {
                self.targets.push(p);
                assert(self.targets.deep_view() =~= mid.targets.deep_view().push(p.deep_view()));
            }
        }
    }

    fn read_process_record(&mut self, rest: &[char], app: &[char], trusted: Option<&[i32]>)
        requires
            old(self).wf(),
        ensures
            final(self).wf(),
            final(self).deep_view() == read_process(
                old(self).deep_view(),
                rest@,
                app@,
                match trusted {
                    Some(pids) => Some(pids@),
                    None => None,
                },
            ),
    {
        self.finish_current_process();
        self.in_system = false;
        let marker: Vec<char> = to_chars("|pid=");
        let found: Option<usize> = find_part(rest, &marker, 0);
        proof {
            lemma_first_at(rest@, "|pid="@, 0);
        }
        let name_end: usize = match found {
            Some(at) => at,
            None => rest.len(),
        };
        let name_part: &[char] = slice_subrange(rest, 0, name_end);
        assert(name_part@ =~= split_pid(rest@).0);
        let name: Vec<char> = decode_protocol_value(trim(name_part));
        if !same_chars(&name, app) {
            return;
        }
        if self.processes >= MAX_DIAGNOSTIC_COLLECTION_PROCESSES {
            self.note(DIAGNOSTIC_COLLECTION_TRUNCATED_TEXT);
            return;
        }
        let pid: Option<i32> = match found {
            Some(at) => {
                let n: usize = rest.len();
                let pid_part: &[char] = slice_subrange(rest, at + marker.len(), n);
                assert(pid_part@ =~= split_pid(rest@).1->0);
                let digits: Vec<char> = decode_protocol_value(pid_part);
                parse_pid(&digits)
            },
            None => None,
        };
        if let Some(pids) = trusted {
            let known: bool = match pid {
                Some(pid) => has_pid(pids, pid),
                None => false,
            };
            if !known {
                return;
            }
        }
        self.processes = self.processes + 1;
        let windows: Vec<WindowInfo> = Vec::new();
        assert(windows.deep_view() =~= Seq::<WindowView>::empty());
        self.process = Some(ProcessInfo { name: to_text(&name), pid, windows });
    }

    fn read_system_process_record(&mut self, rest: &[char])
        requires
            old(self).wf(),
        ensures
            final(self).wf(),
            final(self).deep_view() == read_system_process(old(self).deep_view(), rest@),
    {
        self.finish_current_process();
        self.in_system = true;
        let name: Vec<char> = decode_protocol_value(trim(rest));
        if !(equals(&name, "SecurityAgent") || equals(&name, "loginwindow")) {
            return;
        }
        if self.processes >= MAX_DIAGNOSTIC_COLLECTION_PROCESSES {
            self.note(DIAGNOSTIC_COLLECTION_TRUNCATED_TEXT);
            return;
        }
        self.processes = self.processes + 1;
        let windows: Vec<WindowInfo> = Vec::new();
        assert(windows.deep_view() =~= Seq::<WindowView>::empty());
        self.process = Some(ProcessInfo { name: to_text(&name), pid: None, windows });
    }

    fn read_window_record(&mut self, rest: &[char])
        requires
            old(self).wf(),
        ensures
            final(self).wf(),
            final(self).deep_view() == read_window(old(self).deep_view(), rest@),
    {
        self.finish_current_window();
        if self.process.is_none() {
            return;
        }
        if self.windows >= MAX_DIAGNOSTIC_COLLECTION_WINDOWS {
            self.note(DIAGNOSTIC_COLLECTION_TRUNCATED_TEXT);
            return;
        }
        self.windows = self.windows + 1;
        let title: Vec<char> = decode_protocol_value(rest);
        let elements: Vec<UiElement> = Vec::new();
        assert(elements.deep_view() =~= Seq::<ElementView>::empty());
        self.window = Some(WindowInfo { title: to_text(&title), elements });
    }

    fn read_element_record(&mut self, rest: &[char])
        requires
            old(self).wf(),
        ensures
            final(self).wf(),
            final(self).deep_view() == read_element(old(self).deep_view(), rest@),
    {
        if self.process.is_none() || self.window.is_none() {
            return;
        }
        if self.elements >= MAX_DIAGNOSTIC_COLLECTION_ELEMENTS {
            self.note(DIAGNOSTIC_COLLECTION_TRUNCATED_TEXT);
            return;
        }
        let element: UiElement = read_element_fields(rest);
        if let Some(w) = self.window.take() {
            let ghost before = w.elements.deep_view();
            let mut open: WindowInfo = w;
            open.elements.push(element);
            assert(open.elements.deep_view() =~= before.push(element.deep_view()));
            self.window = Some(open);
            self.elements = self.elements + 1;
        }
    }

    /// Takes in one line, without the white space around it.
    pub fn read_line(&mut self, line: &[char], app: &[char], trusted: Option<&[i32]>)
        requires
            old(self).wf(),
        ensures
            final(self).wf(),
            final(self).deep_view() == read_record(
                old(self).deep_view(),
                line@,
                app@,
                match trusted {
                    Some(pids) => Some(pids@),
                    None => None,
                },
            ),
    {
        if let Some(reason) = strip_prefix(line, "TRUNCATED:") {
            let reason: &[char] = trim(reason);
            if equals(reason, "collection") {
                self.note(DIAGNOSTIC_COLLECTION_TRUNCATED_TEXT);
            } else if equals(reason, "raw-output") {
                self.note(DIAGNOSTIC_RAW_OUTPUT_TRUNCATED_TEXT);
            } else if equals(reason, "secure-traversal") {
                self.note(DIAGNOSTIC_SECURE_TRAVERSAL_TRUNCATED_TEXT);
            } else {
                self.note(DIAGNOSTIC_PARSE_TRUNCATED_TEXT);
            }
        } else if let Some(rest) = strip_prefix(line, "PROCESS:") {
            self.read_process_record(rest, app, trusted);
        } else if let Some(rest) = strip_prefix(line, "SYSTEM_PROCESS:") {
            self.read_system_process_record(rest);
        } else if let Some(rest) = strip_prefix(line, "WINDOW:") {
            self.read_window_record(rest);
        } else if let Some(rest) = strip_prefix(line, "ELEMENT:") {
            self.read_element_record(rest);
        }
    }

    fn read_all(&mut self, text: &[char], app: &[char], trusted: Option<&[i32]>)
        requires
            old(self).wf(),
        ensures
            final(self).wf(),
            final(self).deep_view() == read_lines(
                old(self).deep_view(),
                text@,
                MAX_DIAGNOSTIC_PARSE_LINES as int,
                app@,
                match trusted {
                    Some(pids) => Some(pids@),
                    None => None,
                },
            ),
    {
        let ghost pids: Option<Seq<i32>> = match trusted {
            Some(pids) => Some(pids@),
            None => None,
        };
        let mut left: &[char] = text;
        let mut room: usize = MAX_DIAGNOSTIC_PARSE_LINES;
        loop
            invariant
                self.wf(),
                pids == match trusted {
                    Some(pids) => Some(pids@),
                    None => None,
                },
                read_lines(
                    old(self).deep_view(),
                    text@,
                    MAX_DIAGNOSTIC_PARSE_LINES as int,
                    app@,
                    pids,
                ) == read_lines(self.deep_view(), left@, room as int, app@, pids),
            decreases room,
        {
            if left.len() == 0 {
                return;
            }
            if room == 0 {
                self.note(DIAGNOSTIC_PARSE_TRUNCATED_TEXT);
                return;
            }
            let n: usize = until_char(left, '\n');
            let line: &[char] = slice_subrange(left, 0, n);
            assert(line@ =~= left@.take(n as int));
            self.read_line(trim(line), app, trusted);
            if n >= left.len() {
                return;
            }
            let next: &[char] = slice_subrange(left, n + 1, left.len());
            assert(next@ =~= left@.skip(n + 1));
            left = next;
            room -= 1;
        }
    }
}

fn has_pid(pids: &[i32], pid: i32) -> (r: bool)
    ensures
        r == pids@.contains(pid),
{
    let mut i: usize = 0;
    while i < pids.len()
        invariant
            i <= pids@.len(),
            forall|j: int| 0 <= j < i ==> pids@[j] != pid,
        decreases pids@.len() - i,
    {
        if pids[i] == pid {
            return true;
        }
        i += 1;
    }
    false
}

// ---------------------------------------------------------------------------
// Redaction
// ---------------------------------------------------------------------------

pub open spec fn redacted_title(s: Seq<char>) -> Seq<char> {
    if trimmed(s).len() == 0 {
        Seq::empty()
    } else {
        "[redacted title]"@
    }
}

pub open spec fn redacted_text(s: Seq<char>) -> Seq<char> {
    if trimmed(s).len() == 0 {
        Seq::empty()
    } else {
        "[redacted]"@
    }
}

/// The element types that are reported by name.
pub open spec fn known_element_type(s: Seq<char>) -> bool {
    ||| s == "text_field"@
    ||| s == "secure_text_field"@
    ||| s == "button"@
    ||| s == "static_text"@
    ||| s == "pop_up_button"@
    ||| s == "check_box"@
    ||| s == "radio_button"@
}

pub open spec fn redacted_element_type(s: Seq<char>) -> Seq<char> {
    let value = sanitized(s);
    if trimmed(value).len() == 0 {
        Seq::empty()
    } else if known_element_type(value) {
        value
    } else {
        "[redacted type]"@
    }
}

pub open spec fn redacted_element(e: ElementView) -> ElementView {
    ElementView {
        element_type: redacted_element_type(e.element_type),
        name: redacted_text(e.name),
        value: match e.value {
            Some(value) => Some(redacted_text(value)),
            None => None,
        },
        enabled: e.enabled,
    }
}

pub open spec fn redacted_window(w: WindowView) -> WindowView {
    WindowView {
        title: redacted_title(w.title),
        elements: w.elements.map_values(|e: ElementView| redacted_element(e)),
    }
}

pub open spec fn redacted_process(p: ProcessView) -> ProcessView {
    ProcessView { windows: p.windows.map_values(|w: WindowView| redacted_window(w)), ..p }
}

fn redact_title(value: &str) -> (out: String)
    ensures
        out@ == redacted_title(value@),
{
    if is_blank(value) {
        String::new()
    } else {
        "[redacted title]".to_owned()
    }
}

fn redact_text(value: &str) -> (out: String)
    ensures
        out@ == redacted_text(value@),
{
    if is_blank(value) {
        String::new()
    } else {
        "[redacted]".to_owned()
    }
}

fn redact_element_type(value: &str) -> (out: String)
    ensures
        out@ == redacted_element_type(value@),
{
    let value: String = sanitized_report_scalar(value);
    let name: &str = value.as_str();
    if is_blank(name) {
        String::new()
    } else if same_text(name, "text_field") || same_text(name, "secure_text_field") || same_text(
        name,
        "button",
    ) || same_text(name, "static_text") || same_text(name, "pop_up_button") || same_text(
        name,
        "check_box",
    ) || same_text(name, "radio_button") {
        value
    } else {
        "[redacted type]".to_owned()
    }
}

fn redact_element(e: &UiElement) -> (out: UiElement)
    ensures
        out.deep_view() == redacted_element(e.deep_view()),
{
    UiElement {
        element_type: redact_element_type(e.element_type.as_str()),
        name: redact_text(e.name.as_str()),
        value: match &e.value {
            Some(value) => Some(redact_text(value.as_str())),
            None => None,
        },
        enabled: e.enabled,
    }
}

fn redact_window(w: &WindowInfo) -> (out: WindowInfo)
    ensures
        out.deep_view() == redacted_window(w.deep_view()),
{
    let mut elements: Vec<UiElement> = Vec::new();
    let mut i: usize = 0;
    while i < w.elements.len()
        invariant
            i <= w.elements@.len(),
            elements@.len() == i,
            forall|j: int|
                0 <= j < i ==> (#[trigger] elements@[j]).deep_view() == redacted_element(
                    w.elements@[j].deep_view(),
                ),
        decreases w.elements@.len() - i,
    {
        elements.push(redact_element(&w.elements[i]));
        i += 1;
    }
    let out: WindowInfo = WindowInfo { title: redact_title(w.title.as_str()), elements };
    assert(out.deep_view().elements =~= redacted_window(w.deep_view()).elements);
    out
}

fn redact_process(p: &ProcessInfo) -> (out: ProcessInfo)
    ensures
        out.deep_view() == redacted_process(p.deep_view()),
{
    let mut windows: Vec<WindowInfo> = Vec::new();
    let mut i: usize = 0;
    while i < p.windows.len()
        invariant
            i <= p.windows@.len(),
            windows@.len() == i,
            forall|j: int|
                0 <= j < i ==> (#[trigger] windows@[j]).deep_view() == redacted_window(
                    p.windows@[j].deep_view(),
                ),
        decreases p.windows@.len() - i,
    {
        windows.push(redact_window(&p.windows[i]));
        i += 1;
    }
    let out: ProcessInfo = ProcessInfo { name: p.name.clone(), pid: p.pid, windows };
    assert(out.deep_view().windows =~= redacted_process(p.deep_view()).windows);
    out
}

fn redact_processes(ps: &Vec<ProcessInfo>) -> (out: Vec<ProcessInfo>)
    ensures
        out.deep_view() == ps.deep_view().map_values(|p: ProcessView| redacted_process(p)),
{
    let mut out: Vec<ProcessInfo> = Vec::new();
    let mut i: usize = 0;
    while i < ps.len()
        invariant
            i <= ps@.len(),
            out@.len() == i,
            forall|j: int|
                0 <= j < i ==> (#[trigger] out@[j]).deep_view() == redacted_process(
                    ps@[j].deep_view(),
                ),
        decreases ps@.len() - i,
    {
        out.push(redact_process(&ps[i]));
        i += 1;
    }
    assert(out.deep_view() =~= ps.deep_view().map_values(|p: ProcessView| redacted_process(p)));
    out
}

pub open spec fn redacted_processes(ps: Seq<ProcessView>) -> Seq<ProcessView> {
    ps.map_values(|p: ProcessView| redacted_process(p))
}

/// Takes out of a report what its titles, types, names and values give away.
pub fn redact_report_parts(
    target_processes: &mut Vec<ProcessInfo>,
    system_dialogs: &mut Vec<ProcessInfo>,
)
    ensures
        final(target_processes).deep_view() == redacted_processes(
            old(target_processes).deep_view(),
        ),
        final(system_dialogs).deep_view() == redacted_processes(old(system_dialogs).deep_view()),
{
    let targets: Vec<ProcessInfo> = redact_processes(target_processes);
    let dialogs: Vec<ProcessInfo> = redact_processes(system_dialogs);
    *target_processes = targets;
    *system_dialogs = dialogs;
}

// ---------------------------------------------------------------------------
// A whole protocol text
// ---------------------------------------------------------------------------

/// What a protocol text reports.
#[verifier::ext_equal]
pub struct ParsedView {
    pub targets: Seq<ProcessView>,
    pub dialogs: Seq<ProcessView>,
    pub reasons: Seq<Seq<char>>,
}

/// What is read of `text`, before redaction.
pub open spec fn read_text(
    text: Seq<char>,
    app_name: Seq<char>,
    trusted: Option<Seq<i32>>,
) -> ParseView {
    close_process(
        read_lines(
            empty_parse(),
            text,
            MAX_DIAGNOSTIC_PARSE_LINES as int,
            sanitized(app_name),
            trusted,
        ),
    )
}

/// What `text` reports of the application `app_name`: its processes with a
/// trusted pid, the system dialogs, and why something was left out.
pub open spec fn parsed(
    text: Seq<char>,
    app_name: Seq<char>,
    trusted: Option<Seq<i32>>,
) -> ParsedView {
    let st = read_text(text, app_name, trusted);
    ParsedView {
        targets: st.targets.map_values(|p: ProcessView| redacted_process(p)),
        dialogs: st.dialogs.map_values(|p: ProcessView| redacted_process(p)),
        reasons: st.reasons,
    }
}

/// `parsed`, computed.
pub fn parse_output_with_truncation(
    text: &str,
    app_name: &str,
    trusted_target_pids: Option<&[i32]>,
) -> (out: (Vec<ProcessInfo>, Vec<ProcessInfo>, Vec<String>))
    ensures
        ({
            let trusted = match trusted_target_pids {
                Some(pids) => Some(pids@),
                None => None,
            };
            let want = parsed(text@, app_name@, trusted);
            &&& out.0.deep_view() == want.targets
            &&& out.1.deep_view() == want.dialogs
            &&& out.2.deep_view() == want.reasons
        }),
{
    let chars: Vec<char> = to_chars(text);
    let app: String = sanitized_report_scalar(app_name);
    let app: Vec<char> = to_chars(app.as_str());
    let mut reader: RecordReader = RecordReader::new();
    reader.read_all(&chars, &app, trusted_target_pids);
    reader.finish_current_process();
    let mut targets: Vec<ProcessInfo> = reader.targets;
    let mut dialogs: Vec<ProcessInfo> = reader.dialogs;
    redact_report_parts(&mut targets, &mut dialogs);
    (targets, dialogs, reader.reasons)
}

// ---------------------------------------------------------------------------
// Laws of the protocol
// ---------------------------------------------------------------------------

/// A process that may be reported as a target.
pub open spec fn target_allowed(
    p: ProcessView,
    app: Seq<char>,
    trusted: Option<Seq<i32>>,
) -> bool {
    &&& p.name == app
    &&& trusted is Some ==> p.pid is Some && trusted->0.contains(p.pid->0)
}

/// A process that may be reported for its dialogs.
pub open spec fn dialog_allowed(p: ProcessView) -> bool {
    dialog_process(p.name) && p.pid is None
}

/// The texts that a report can give as reasons.
pub open spec fn reason_text(s: Seq<char>) -> bool {
    ||| s == DIAGNOSTIC_COLLECTION_TRUNCATED_TEXT@
    ||| s == DIAGNOSTIC_PARSE_TRUNCATED_TEXT@
    ||| s == DIAGNOSTIC_RAW_OUTPUT_TRUNCATED_TEXT@
    ||| s == DIAGNOSTIC_SECURE_TRAVERSAL_TRUNCATED_TEXT@
}

spec fn open_windows(st: ParseView) -> int {
    (match st.process {
        Some(p) => p.windows.len() as int,
        None => 0,
    }) + (if st.window is Some {
        1int
    } else {
        0int
    })
}

spec fn open_elements(st: ParseView) -> int {
    (match st.process {
        Some(p) => window_element_count(p.windows),
        None => 0,
    }) + (match st.window {
        Some(w) => w.elements.len() as int,
        None => 0,
    })
}

/// What holds after every line.
spec fn parse_inv(st: ParseView, app: Seq<char>, trusted: Option<Seq<i32>>) -> bool {
    &&& st.window is Some ==> st.process is Some
    &&& st.targets.len() + st.dialogs.len() + (if st.process is Some {
        1int
    } else {
        0int
    }) <= st.processes <= MAX_DIAGNOSTIC_COLLECTION_PROCESSES
    &&& window_count(st.targets) + window_count(st.dialogs) + open_windows(st) <= st.windows
        <= MAX_DIAGNOSTIC_COLLECTION_WINDOWS
    &&& element_count(st.targets) + element_count(st.dialogs) + open_elements(st) <= st.elements
        <= MAX_DIAGNOSTIC_COLLECTION_ELEMENTS
    &&& forall|i: int|
        0 <= i < st.targets.len() ==> target_allowed(#[trigger] st.targets[i], app, trusted)
    &&& forall|i: int| 0 <= i < st.dialogs.len() ==> dialog_allowed(#[trigger] st.dialogs[i])
    &&& st.process is Some ==> if st.in_system {
        dialog_allowed(st.process->0)
    } else {
        target_allowed(st.process->0, app, trusted)
    }
    &&& st.reasons.no_duplicates()
    &&& forall|i: int| 0 <= i < st.reasons.len() ==> reason_text(#[trigger] st.reasons[i])
}

proof fn lemma_close_window_inv(st: ParseView, app: Seq<char>, trusted: Option<Seq<i32>>)
    requires
        parse_inv(st, app, trusted),
    ensures
        parse_inv(close_window(st), app, trusted),
        close_window(st).window is None,
{
    if st.window is Some {
        lemma_window_element_count_push(st.process->0.windows, st.window->0);
    }
}

proof fn lemma_close_process_inv(st: ParseView, app: Seq<char>, trusted: Option<Seq<i32>>)
    requires
        parse_inv(st, app, trusted),
    ensures
        parse_inv(close_process(st), app, trusted),
        close_process(st).process is None,
        close_process(st).window is None,
{
    lemma_close_window_inv(st, app, trusted);
    let mid = close_window(st);
    if mid.process is Some {
        lemma_window_count_push(mid.targets, mid.process->0);
        lemma_window_count_push(mid.dialogs, mid.process->0);
        lemma_element_count_push(mid.targets, mid.process->0);
        lemma_element_count_push(mid.dialogs, mid.process->0);
    }
}

proof fn lemma_read_record_inv(
    st: ParseView,
    line: Seq<char>,
    app: Seq<char>,
    trusted: Option<Seq<i32>>,
)
    requires
        parse_inv(st, app, trusted),
    ensures
        parse_inv(read_record(st, line, app, trusted), app, trusted),
{
    lemma_close_window_inv(st, app, trusted);
    lemma_close_process_inv(st, app, trusted);
}

proof fn lemma_read_lines_inv(
    st: ParseView,
    s: Seq<char>,
    room: int,
    app: Seq<char>,
    trusted: Option<Seq<i32>>,
)
    requires
        parse_inv(st, app, trusted),
    ensures
        parse_inv(read_lines(st, s, room, app, trusted), app, trusted),
    decreases room,
{
    if s.len() > 0 && room > 0 {
        let n = until(s, '\n');
        lemma_read_record_inv(st, trimmed(s.take(n)), app, trusted);
        if n < s.len() {
            lemma_read_lines_inv(
                read_record(st, trimmed(s.take(n)), app, trusted),
                s.skip(n + 1),
                room - 1,
                app,
                trusted,
            );
        }
    }
}

proof fn lemma_read_text_inv(text: Seq<char>, app_name: Seq<char>, trusted: Option<Seq<i32>>)
    ensures
        parse_inv(read_text(text, app_name, trusted), sanitized(app_name), trusted),
{
    let app = sanitized(app_name);
    lemma_read_lines_inv(empty_parse(), text, MAX_DIAGNOSTIC_PARSE_LINES as int, app, trusted);
    lemma_close_process_inv(
        read_lines(empty_parse(), text, MAX_DIAGNOSTIC_PARSE_LINES as int, app, trusted),
        app,
        trusted,
    );
}

proof fn lemma_redacted_counts(ps: Seq<ProcessView>)
    ensures
        window_count(ps.map_values(|p: ProcessView| redacted_process(p))) == window_count(ps),
        element_count(ps.map_values(|p: ProcessView| redacted_process(p))) == element_count(ps),
    decreases ps.len(),
{
    if ps.len() > 0 {
        let f = |p: ProcessView| redacted_process(p);
        lemma_redacted_counts(ps.drop_first());
        lemma_redacted_window_counts(ps.first().windows);
        assert(ps.map_values(f).drop_first() =~= ps.drop_first().map_values(f));
    }
}

proof fn lemma_redacted_window_counts(ws: Seq<WindowView>)
    ensures
        window_element_count(ws.map_values(|w: WindowView| redacted_window(w)))
            == window_element_count(ws),
    decreases ws.len(),
{
    if ws.len() > 0 {
        let f = |w: WindowView| redacted_window(w);
        lemma_redacted_window_counts(ws.drop_first());
        assert(ws.map_values(f).drop_first() =~= ws.drop_first().map_values(f));
    }
}

/// However long a protocol text is, what it reports stays within the limits on
/// processes, windows and elements.
pub proof fn law_parsed_within_limits(
    text: Seq<char>,
    app_name: Seq<char>,
    trusted: Option<Seq<i32>>,
)
    ensures
        ({
            let out = parsed(text, app_name, trusted);
            &&& out.targets.len() + out.dialogs.len() <= MAX_DIAGNOSTIC_COLLECTION_PROCESSES
            &&& window_count(out.targets) + window_count(out.dialogs)
                <= MAX_DIAGNOSTIC_COLLECTION_WINDOWS
            &&& element_count(out.targets) + element_count(out.dialogs)
                <= MAX_DIAGNOSTIC_COLLECTION_ELEMENTS
        }),
{
    lemma_read_text_inv(text, app_name, trusted);
    let st = read_text(text, app_name, trusted);
    lemma_redacted_counts(st.targets);
    lemma_redacted_counts(st.dialogs);
}

/// Nothing but the expected application, under a trusted pid where pids are
/// given, is reported as a target; nothing but the two known system processes is
/// reported for its dialogs; each reason is one of the known texts, given once.
pub proof fn law_parsed_identity(
    text: Seq<char>,
    app_name: Seq<char>,
    trusted: Option<Seq<i32>>,
)
    ensures
        ({
            let out = parsed(text, app_name, trusted);
            &&& forall|i: int|
                0 <= i < out.targets.len() ==> target_allowed(
                    #[trigger] out.targets[i],
                    sanitized(app_name),
                    trusted,
                )
            &&& forall|i: int|
                0 <= i < out.dialogs.len() ==> dialog_allowed(#[trigger] out.dialogs[i])
            &&& out.reasons.no_duplicates()
            &&& forall|i: int| 0 <= i < out.reasons.len() ==> reason_text(#[trigger] out.reasons[i])
        }),
{
    lemma_read_text_inv(text, app_name, trusted);
    let st = read_text(text, app_name, trusted);
    let out = parsed(text, app_name, trusted);
    assert forall|i: int| 0 <= i < out.targets.len() implies target_allowed(
        #[trigger] out.targets[i],
        sanitized(app_name),
        trusted,
    ) by {
        assert(target_allowed(st.targets[i], sanitized(app_name), trusted));
    }
    assert forall|i: int| 0 <= i < out.dialogs.len() implies dialog_allowed(
        #[trigger] out.dialogs[i],
    ) by {
        assert(dialog_allowed(st.dialogs[i]));
    }
}

/// Text that gives nothing away: empty, or the placeholder.
pub open spec fn blank_or(s: Seq<char>, placeholder: Seq<char>) -> bool {
    s.len() == 0 || s == placeholder
}

pub open spec fn element_redacted(e: ElementView) -> bool {
    &&& blank_or(e.element_type, "[redacted type]"@) || known_element_type(e.element_type)
    &&& blank_or(e.name, "[redacted]"@)
    &&& e.value is Some ==> blank_or(e.value->0, "[redacted]"@)
}

pub open spec fn window_redacted(w: WindowView) -> bool {
    &&& blank_or(w.title, "[redacted title]"@)
    &&& forall|i: int| 0 <= i < w.elements.len() ==> element_redacted(#[trigger] w.elements[i])
}

pub open spec fn process_redacted(p: ProcessView) -> bool {
    forall|i: int| 0 <= i < p.windows.len() ==> window_redacted(#[trigger] p.windows[i])
}

/// No title, name, value or unknown type that a protocol text holds is reported.
pub proof fn law_parsed_is_redacted(
    text: Seq<char>,
    app_name: Seq<char>,
    trusted: Option<Seq<i32>>,
)
    ensures
        ({
            let out = parsed(text, app_name, trusted);
            &&& forall|i: int|
                0 <= i < out.targets.len() ==> process_redacted(#[trigger] out.targets[i])
            &&& forall|i: int|
                0 <= i < out.dialogs.len() ==> process_redacted(#[trigger] out.dialogs[i])
        }),
{
    let st = read_text(text, app_name, trusted);
    let out = parsed(text, app_name, trusted);
    assert forall|i: int| 0 <= i < out.targets.len() implies process_redacted(
        #[trigger] out.targets[i],
    ) by {
        lemma_process_redacted(st.targets[i]);
    }
    assert forall|i: int| 0 <= i < out.dialogs.len() implies process_redacted(
        #[trigger] out.dialogs[i],
    ) by {
        lemma_process_redacted(st.dialogs[i]);
    }
}

proof fn lemma_process_redacted(p: ProcessView)
    ensures
        process_redacted(redacted_process(p)),
{
    let r = redacted_process(p);
    assert forall|i: int| 0 <= i < r.windows.len() implies window_redacted(
        #[trigger] r.windows[i],
    ) by {
        let w = p.windows[i];
        assert(r.windows[i] == redacted_window(w));
        assert forall|j: int| 0 <= j < redacted_window(w).elements.len() implies element_redacted(
            #[trigger] redacted_window(w).elements[j],
        ) by {
            assert(redacted_window(w).elements[j] == redacted_element(w.elements[j]));
        }
    }
}

/// Text without anything that parts words stays as it is.
proof fn lemma_one_word(s: Seq<char>)
    requires
        forall|i: int|
            0 <= i < s.len() ==> !separating(#[trigger] s[i]),
    ensures
        joined_words(s) == (s, false),
    decreases s.len(),
{
    if s.len() > 0 {
        lemma_one_word(s.drop_last());
        assert(s.drop_last().push(s.last()) =~= s);
    }
}

proof fn lemma_known_types_are_words(s: Seq<char>)
    requires
        known_element_type(s),
    ensures
        sanitized(s) == s,
        trimmed(s).len() > 0,
{
    reveal_strlit("text_field");
    reveal_strlit("secure_text_field");
    reveal_strlit("button");
    reveal_strlit("static_text");
    reveal_strlit("pop_up_button");
    reveal_strlit("check_box");
    reveal_strlit("radio_button");
    assert(forall|i: int| 0 <= i < s.len() ==> 'a' <= #[trigger] s[i] <= 'z' || s[i] == '_');
    lemma_one_word(s);
    lemma_trimmed_empty(s);
    assert(!whitespace(s[0]));
}

proof fn lemma_placeholders_stay()
    ensures
        redacted_title("[redacted title]"@) == "[redacted title]"@,
        redacted_text("[redacted]"@) == "[redacted]"@,
        redacted_element_type("[redacted type]"@) == "[redacted type]"@,
        redacted_title(Seq::empty()) == Seq::<char>::empty(),
        redacted_text(Seq::empty()) == Seq::<char>::empty(),
        redacted_element_type(Seq::empty()) == Seq::<char>::empty(),
{
    reveal_strlit("[redacted title]");
    reveal_strlit("[redacted]");
    reveal_strlit("[redacted type]");
    lemma_trimmed_empty("[redacted title]"@);
    lemma_trimmed_empty("[redacted]"@);
    assert(!whitespace("[redacted title]"@[0]));
    assert(!whitespace("[redacted]"@[0]));
    let t = "[redacted type]"@;
    lemma_one_word(t.take(9));
    assert(t.take(10).drop_last() =~= t.take(9));
    assert(t.take(11).drop_last() =~= t.take(10));
    assert(t.take(12).drop_last() =~= t.take(11));
    assert(t.take(13).drop_last() =~= t.take(12));
    assert(t.take(14).drop_last() =~= t.take(13));
    assert(t.take(15).drop_last() =~= t.take(14));
    assert(t.take(15) =~= t);
    assert(joined_words(t.take(10)) == (t.take(9), true));
    assert(joined_words(t.take(11)) == (t.take(11), false)) by {
        assert(t.take(9).push(' ').push('t') =~= t.take(11));
    }
    assert(joined_words(t.take(12)) == (t.take(12), false)) by {
        assert(t.take(11).push('y') =~= t.take(12));
    }
    assert(joined_words(t.take(13)) == (t.take(13), false)) by {
        assert(t.take(12).push('p') =~= t.take(13));
    }
    assert(joined_words(t.take(14)) == (t.take(14), false)) by {
        assert(t.take(13).push('e') =~= t.take(14));
    }
    assert(joined_words(t.take(15)) == (t.take(15), false)) by {
        assert(t.take(14).push(']') =~= t.take(15));
    }
    assert(joined_words(t).0 =~= t);
    lemma_trimmed_empty(t);
    assert(!whitespace(t[0]));
    assert(!known_element_type(t)) by {
        reveal_strlit("text_field");
        reveal_strlit("secure_text_field");
        reveal_strlit("button");
        reveal_strlit("static_text");
        reveal_strlit("pop_up_button");
        reveal_strlit("check_box");
        reveal_strlit("radio_button");
        assert(t[0] == '[');
    }
}

proof fn lemma_element_redacted_once(e: ElementView)
    ensures
        redacted_element(redacted_element(e)) == redacted_element(e),
{
    lemma_placeholders_stay();
    let value = sanitized(e.element_type);
    if known_element_type(value) {
        lemma_known_types_are_words(value);
    }
}

proof fn lemma_process_redacted_once(p: ProcessView)
    ensures
        redacted_process(redacted_process(p)) == redacted_process(p),
{
    lemma_placeholders_stay();
    let once = redacted_process(p);
    let twice = redacted_process(once);
    assert forall|i: int| 0 <= i < once.windows.len() implies #[trigger] twice.windows[i]
        == once.windows[i] by {
        let w = once.windows[i];
        assert(w == redacted_window(p.windows[i]));
        assert(twice.windows[i] == redacted_window(w));
        assert forall|j: int| 0 <= j < w.elements.len() implies #[trigger] redacted_window(
            w,
        ).elements[j] == w.elements[j] by {
            lemma_element_redacted_once(p.windows[i].elements[j]);
        }
        assert(redacted_window(w).elements =~= w.elements);
    }
    assert(twice.windows =~= once.windows);
}

/// Redacting a second time changes nothing.
pub proof fn law_redaction_is_idempotent(ps: Seq<ProcessView>)
    ensures
        redacted_processes(redacted_processes(ps)) == redacted_processes(ps),
{
    let once = redacted_processes(ps);
    assert forall|i: int| 0 <= i < ps.len() implies #[trigger] redacted_processes(once)[i]
        == once[i] by {
        lemma_process_redacted_once(ps[i]);
    }
    assert(redacted_processes(once) =~= once);
}

/// The elements differ at most in type, name and value.
pub open spec fn same_but_for_element_texts(a: ElementView, b: ElementView) -> bool {
    a.enabled == b.enabled && (a.value is Some) == (b.value is Some)
}

/// The windows differ at most in the title, and their elements in type, name and value.
pub open spec fn same_but_for_window_texts(a: WindowView, b: WindowView) -> bool {
    &&& a.elements.len() == b.elements.len()
    &&& forall|i: int|
        0 <= i < a.elements.len() ==> same_but_for_element_texts(
            #[trigger] a.elements[i],
            b.elements[i],
        )
}

/// The processes have the same name and id, and windows that differ at most in texts.
pub open spec fn same_but_for_texts(a: ProcessView, b: ProcessView) -> bool {
    &&& a.name == b.name
    &&& a.pid == b.pid
    &&& a.windows.len() == b.windows.len()
    &&& forall|i: int|
        0 <= i < a.windows.len() ==> same_but_for_window_texts(
            #[trigger] a.windows[i],
            b.windows[i],
        )
}

/// Redacting changes titles, types, names and values alone: the processes, windows and
/// elements stay as many and in order, and whatever else they hold is kept.
pub proof fn law_redaction_keeps_the_rest(ps: Seq<ProcessView>)
    ensures
        redacted_processes(ps).len() == ps.len(),
        forall|i: int|
            0 <= i < ps.len() ==> same_but_for_texts(
                #[trigger] ps[i],
                redacted_processes(ps)[i],
            ),
{
}

} // verus!
