//! What the rules on texts come to.

#[allow(unused_imports)]
use crate::text::{
    after_prefix, ascii_lower, ascii_lowered, control, decimal, digit, digits, first_at, fitting,
    has_part, lemma_first_at, lemma_fitting, lemma_trimmed_empty, lemma_utf8_len_bounds, same_ascii,
    spaced, stands_at, trimmed, utf8_len, whitespace, with_part, word_state, words,
};
use vstd::prelude::*;

verus! {

// ---------------------------------------------------------------------------
// White space
// ---------------------------------------------------------------------------

/// The characters that Unicode calls white space.
pub open spec fn blank(c: char) -> bool {
    ||| c == '\t' || c == '\n' || c == '\u{b}' || c == '\u{c}' || c == '\r'
    ||| c == ' ' || c == '\u{85}' || c == '\u{a0}' || c == '\u{1680}'
    ||| 0x2000 <= c as int <= 0x200a
    ||| c == '\u{2028}' || c == '\u{2029}' || c == '\u{202f}' || c == '\u{205f}'
    ||| c == '\u{3000}'
}

pub open spec fn all_blank(s: Seq<char>) -> bool {
    forall|i: int| 0 <= i < s.len() ==> blank(#[trigger] s[i])
}

/// A text that neither begins nor ends with white space.
pub open spec fn bare(s: Seq<char>) -> bool {
    s.len() > 0 ==> !blank(s.first()) && !blank(s.last())
}

/// Trimming takes away the white space round a text, all of it, and nothing else.
pub proof fn law_trimming_takes_the_white_space_away(
    before: Seq<char>,
    s: Seq<char>,
    after: Seq<char>,
)
    requires
        all_blank(before),
        all_blank(after),
        bare(s),
    ensures
        trimmed(before + s + after) == s,
    decreases before.len() + after.len(),
{
    let t = before + s + after;
    if s.len() == 0 {
        assert forall|i: int| 0 <= i < t.len() implies whitespace(t[i]) by {
            if i < before.len() {
                assert(blank(before[i]));
            } else {
                assert(blank(after[i - before.len()]));
            }
        }
        lemma_trimmed_empty(t);
        assert(trimmed(t) =~= s);
    } else if before.len() > 0 {
        assert(blank(before[0]));
        assert(t.first() == before[0]);
        assert(t.drop_first() =~= before.drop_first() + s + after);
        assert forall|i: int| 0 <= i < before.drop_first().len() implies blank(
            #[trigger] before.drop_first()[i],
        ) by {
            assert(blank(before[i + 1]));
        }
        law_trimming_takes_the_white_space_away(before.drop_first(), s, after);
    } else if after.len() > 0 {
        assert(t.first() == s.first());
        assert(blank(after.last()));
        assert(t.last() == after.last());
        assert(t.drop_last() =~= before + s + after.drop_last());
        assert forall|i: int| 0 <= i < after.drop_last().len() implies blank(
            #[trigger] after.drop_last()[i],
        ) by {
            assert(blank(after[i]));
        }
        law_trimming_takes_the_white_space_away(before, s, after.drop_last());
    } else {
        assert(t =~= s);
    }
}

/// Words are told apart by white space and by nothing else: a text without any is one
/// word, and white space between two texts separates their words.
pub proof fn law_white_space_separates_words(a: Seq<char>, gap: Seq<char>, b: Seq<char>)
    requires
        all_blank(gap),
        gap.len() > 0,
    ensures
        words(a + gap + b) == words(a) + words(b),
{
    lemma_words_after_gap(a, gap);
    lemma_word_state_concat(a + gap, b);
    let (done_a, word_a) = word_state(a + gap);
    let (done_b, word_b) = word_state(b);
    assert(words(a + gap + b) =~= words(a) + words(b));
}

/// A text without white space is one word.
pub proof fn law_a_text_without_white_space_is_a_word(s: Seq<char>)
    requires
        forall|i: int| 0 <= i < s.len() ==> !blank(#[trigger] s[i]),
    ensures
        s.len() > 0 ==> words(s) == seq![s],
        s.len() == 0 ==> words(s) == Seq::<Seq<char>>::empty(),
{
    lemma_one_word(s);
    if s.len() > 0 {
        assert(words(s) =~= seq![s]);
    }
}

proof fn lemma_one_word(s: Seq<char>)
    requires
        forall|i: int| 0 <= i < s.len() ==> !blank(#[trigger] s[i]),
    ensures
        word_state(s) == (Seq::<Seq<char>>::empty(), s),
    decreases s.len(),
{
    if s.len() > 0 {
        assert forall|i: int| 0 <= i < s.drop_last().len() implies !blank(
            #[trigger] s.drop_last()[i],
        ) by {
            assert(!blank(s[i]));
        }
        lemma_one_word(s.drop_last());
        assert(!blank(s[s.len() - 1]));
        assert(s.drop_last().push(s.last()) =~= s);
    } else {
        assert(s =~= Seq::<char>::empty());
    }
}

proof fn lemma_words_after_gap(a: Seq<char>, gap: Seq<char>)
    requires
        all_blank(gap),
        gap.len() > 0,
    ensures
        word_state(a + gap) == (words(a), Seq::<char>::empty()),
    decreases gap.len(),
{
    let t = a + gap;
    assert(blank(gap[gap.len() - 1]));
    assert(t.last() == gap.last());
    if gap.len() == 1 {
        assert(t.drop_last() =~= a);
        let (done, word) = word_state(a);
        if word.len() == 0 {
            assert(word =~= Seq::<char>::empty());
        }
    } else {
        assert(t.drop_last() =~= a + gap.drop_last());
        assert forall|i: int| 0 <= i < gap.drop_last().len() implies blank(
            #[trigger] gap.drop_last()[i],
        ) by {
            assert(blank(gap[i]));
        }
        lemma_words_after_gap(a, gap.drop_last());
    }
}

proof fn lemma_word_state_concat(a: Seq<char>, b: Seq<char>)
    requires
        word_state(a).1.len() == 0,
    ensures
        word_state(a + b).0 == word_state(a).0 + word_state(b).0,
        word_state(a + b).1 == word_state(b).1,
    decreases b.len(),
{
    if b.len() == 0 {
        assert(a + b =~= a);
        assert(word_state(a).0 + Seq::<Seq<char>>::empty() =~= word_state(a).0);
        assert(word_state(a).1 =~= Seq::<char>::empty());
    } else {
        assert((a + b).drop_last() =~= a + b.drop_last());
        assert((a + b).last() == b.last());
        lemma_word_state_concat(a, b.drop_last());
        let (done, word) = word_state(b.drop_last());
        if whitespace(b.last()) && word.len() > 0 {
            assert(word_state(a).0 + done.push(word) =~= (word_state(a).0 + done).push(word));
        }
    }
}

/// Words that are put together again with single spaces are the same words.
pub proof fn law_spaced_words_stay_the_same(ws: Seq<Seq<char>>)
    requires
        forall|k: int|
            0 <= k < ws.len() ==> (#[trigger] ws[k]).len() > 0 && (forall|i: int|
                0 <= i < ws[k].len() ==> !blank(#[trigger] ws[k][i])),
    ensures
        words(spaced(ws)) == ws,
    decreases ws.len(),
{
    if ws.len() == 0 {
        assert(words(spaced(ws)) =~= ws);
    } else if ws.len() == 1 {
        assert(ws.last() == ws[0]);
        law_a_text_without_white_space_is_a_word(ws[0]);
        assert(seq![ws[0]] =~= ws);
    } else {
        let front = ws.drop_last();
        assert forall|k: int| 0 <= k < front.len() implies (#[trigger] front[k]).len() > 0 && (
        forall|i: int| 0 <= i < front[k].len() ==> !blank(#[trigger] front[k][i])) by {
            assert(front[k] == ws[k]);
        }
        law_spaced_words_stay_the_same(front);
        let last = ws[ws.len() - 1];
        law_a_text_without_white_space_is_a_word(last);
        law_white_space_separates_words(spaced(front), seq![' '], last);
        assert(spaced(front).push(' ') + last =~= spaced(front) + seq![' '] + last);
        assert(front + seq![last] =~= ws);
    }
}

/// A value is added to a text with a single space, without the white space round it; one
/// that is missing or blank adds nothing.
pub proof fn law_a_value_is_added_with_a_space(
    target: Seq<char>,
    before: Seq<char>,
    value: Seq<char>,
    after: Seq<char>,
)
    requires
        all_blank(before),
        all_blank(after),
        bare(value),
    ensures
        with_part(target, None) == target,
        with_part(target, Some(before + value + after)) == if value.len() == 0 {
            target
        } else {
            target + seq![' '] + value
        },
{
    law_trimming_takes_the_white_space_away(before, value, after);
    assert(target.push(' ') =~= target + seq![' ']);
}

// ---------------------------------------------------------------------------
// Parts and letters
// ---------------------------------------------------------------------------

/// A text that stands between two others is part of what they make, and where none
/// stands earlier it is found there.
pub proof fn law_a_part_is_found(before: Seq<char>, part: Seq<char>, after: Seq<char>)
    ensures
        has_part(before + part + after, part),
        (forall|i: int| 0 <= i < before.len() ==> !stands_at(before + part + after, part, i))
            ==> first_at(before + part + after, part, 0) == Some(before.len() as int),
{
    let s = before + part + after;
    assert(s.subrange(before.len() as int, before.len() as int + part.len()) =~= part);
    assert(stands_at(s, part, before.len() as int));
    lemma_first_at(s, part, 0);
}

/// What is found is there: a text that has a part falls into what stands before it, the
/// part, and what stands after it.
pub proof fn law_a_found_part_is_there(s: Seq<char>, part: Seq<char>)
    ensures
        has_part(s, part) <==> exists|at: int|
            #![trigger s.take(at)]
            0 <= at <= s.len() - part.len() && s == s.take(at) + part + s.skip(at + part.len()),
        first_at(s, part, 0) is Some <==> has_part(s, part),
{
    lemma_first_at(s, part, 0);
    if has_part(s, part) {
        let at = choose|at: int| stands_at(s, part, at);
        assert(s =~= s.take(at) + part + s.skip(at + part.len())) by {
            assert(s.subrange(at, at + part.len()) == part);
            assert forall|i: int| 0 <= i < s.len() implies s[i] == (s.take(at) + part + s.skip(
                at + part.len(),
            ))[i] by {
                if at <= i < at + part.len() {
                    assert(s.subrange(at, at + part.len())[i - at] == s[i]);
                }
            }
        }
        assert(s.take(at) == s.take(at));
        assert(first_at(s, part, 0) is Some);
    }
    if exists|at: int|
        #![trigger s.take(at)]
        0 <= at <= s.len() - part.len() && s == s.take(at) + part + s.skip(at + part.len()) {
        let at = choose|at: int|
            #![trigger s.take(at)]
            0 <= at <= s.len() - part.len() && s == s.take(at) + part + s.skip(at + part.len());
        law_a_part_is_found(s.take(at), part, s.skip(at + part.len()));
    }
}

/// One letter is another but for its case, as far as the letters from A to Z go.
pub open spec fn same_letter(a: char, b: char) -> bool {
    ||| a == b
    ||| 'A' <= a <= 'Z' && b as int == a as int + ('a' as int - 'A' as int)
    ||| 'A' <= b <= 'Z' && a as int == b as int + ('a' as int - 'A' as int)
}

/// Two texts are the same but for case exactly where they are as long as each other and
/// each letter is the other's.
pub proof fn law_same_but_for_case(a: Seq<char>, b: Seq<char>)
    ensures
        same_ascii(a, b) <==> a.len() == b.len() && (forall|i: int|
            0 <= i < a.len() ==> same_letter(#[trigger] a[i], b[i])),
{
    if same_ascii(a, b) {
        assert(ascii_lowered(a).len() == a.len());
        assert(ascii_lowered(b).len() == b.len());
        assert forall|i: int| 0 <= i < a.len() implies same_letter(#[trigger] a[i], b[i]) by {
            assert(ascii_lowered(a)[i] == ascii_lower(a[i]));
            assert(ascii_lowered(b)[i] == ascii_lower(b[i]));
            lemma_lower(a[i]);
            lemma_lower(b[i]);
        }
    }
    if a.len() == b.len() && (forall|i: int|
        0 <= i < a.len() ==> same_letter(#[trigger] a[i], b[i])) {
        assert forall|i: int| 0 <= i < a.len() implies ascii_lowered(a)[i] == ascii_lowered(
            b,
        )[i] by {
            assert(same_letter(a[i], b[i]));
            lemma_lower(a[i]);
            lemma_lower(b[i]);
        }
        assert(ascii_lowered(a) =~= ascii_lowered(b));
    }
}

proof fn lemma_lower(c: char)
    ensures
        'A' <= c <= 'Z' ==> ascii_lower(c) as int == c as int + 32,
        !('A' <= c <= 'Z') ==> ascii_lower(c) == c,
{
}

/// What follows a beginning is the rest of the text.
pub proof fn law_the_rest_after_a_beginning(prefix: Seq<char>, rest: Seq<char>)
    ensures
        after_prefix(prefix + rest, prefix) == Some(rest),
{
    assert((prefix + rest).skip(prefix.len() as int) =~= rest);
    assert(prefix =~= (prefix + rest).take(prefix.len() as int));
    assert(prefix.is_prefix_of(prefix + rest));
}

/// A control character is one of the first thirty-two, or one of the thirty-three that
/// begin with the delete character.
pub proof fn law_control_characters(c: char)
    ensures
        control(c) <==> (c as int) < 32 || 127 <= (c as int) < 160,
{
}

// ---------------------------------------------------------------------------
// Numbers and lengths
// ---------------------------------------------------------------------------

/// The number that a run of digits writes.
pub open spec fn number_of(s: Seq<char>) -> int
    decreases s.len(),
{
    if s.len() == 0 {
        0
    } else {
        number_of(s.drop_last()) * 10 + (s.last() as int - '0' as int)
    }
}

/// A number is written in digits that mean it, the first of which is zero for the number
/// zero only; a negative one is written after a minus sign.
pub proof fn law_decimal_means_its_number(n: int)
    ensures
        n >= 0 ==> {
            &&& number_of(decimal(n)) == n
            &&& decimal(n).len() > 0
            &&& forall|i: int| 0 <= i < decimal(n).len() ==> '0' <= #[trigger] decimal(n)[i] <= '9'
            &&& decimal(n)[0] == '0' ==> n == 0 && decimal(n).len() == 1
        },
        n < 0 ==> decimal(n) == seq!['-'] + decimal(-n),
{
    if n >= 0 {
        lemma_digits(n);
    }
}

proof fn lemma_digits(n: int)
    requires
        n >= 0,
    ensures
        number_of(digits(n)) == n,
        digits(n).len() > 0,
        forall|i: int| 0 <= i < digits(n).len() ==> '0' <= #[trigger] digits(n)[i] <= '9',
        digits(n)[0] == '0' ==> n == 0 && digits(n).len() == 1,
    decreases n,
{
    if n < 10 {
        let s = digits(n);
        assert(s.drop_last() =~= Seq::<char>::empty());
        assert(number_of(s.drop_last()) == 0);
    } else {
        lemma_digits(n / 10);
        let s = digits(n);
        assert(s.drop_last() =~= digits(n / 10));
        assert(s.last() == digit(n % 10));
        assert(s[0] == digits(n / 10)[0]);
        assert forall|i: int| 0 <= i < s.len() implies '0' <= #[trigger] s[i] <= '9' by {
            if i < s.len() - 1 {
                assert(s[i] == digits(n / 10)[i]);
            }
        }
    }
}

/// What is kept of a text that is too long is as much of its beginning as fits.
pub proof fn law_as_much_is_kept_as_fits(s: Seq<char>, limit: int, k: int)
    requires
        0 <= limit,
        0 <= k <= s.len(),
    ensures
        k <= fitting(s, limit) <==> vstd::utf8::encode_utf8(s.take(k)).len() <= limit,
{
    lemma_fitting(s, limit);
    crate::text::lemma_utf8_len_is_encoded_len(s.take(k));
    let n = fitting(s, limit);
    if k <= n {
        lemma_longer_takes_more(s, k, n);
    } else {
        lemma_longer_takes_more(s, n + 1, k);
    }
}

proof fn lemma_longer_takes_more(s: Seq<char>, j: int, k: int)
    requires
        0 <= j <= k <= s.len(),
    ensures
        utf8_len(s.take(j)) <= utf8_len(s.take(k)),
{
    assert(s.take(k) =~= s.take(j) + s.subrange(j, k));
    crate::text::lemma_utf8_len_concat(s.take(j), s.subrange(j, k));
    lemma_utf8_len_bounds(s.subrange(j, k));
}

} // verus!
