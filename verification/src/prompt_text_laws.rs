//! What the rules on the texts of a prompt come to.

#[allow(unused_imports)]
use crate::prompt_text::{
    credential_text_keywords, credential_window, has_any_keyword, has_keyword, identifier,
    identity_verified, keyword_from, keyword_in, label_mark, label_rank, login_title_keywords,
    lower_has_cue, non_session_keywords, password_cues, same_username, session_title,
    sheet_text_keywords, stands_alone, submit_label, submit_labels, submit_word, title_matches,
    without_marks, PromptOrigin,
};
#[allow(unused_imports)]
use crate::text::{
    alphanumeric, ascii_alphanumeric, ascii_lower, first_at, has_part, lemma_first_at, same_ascii,
    spaced, stands_at, trimmed, words,
};
#[allow(unused_imports)]
use crate::text_laws::{
    all_blank, bare, blank, law_same_but_for_case, law_spaced_words_stay_the_same,
    law_trimming_takes_the_white_space_away, same_letter,
};
use vstd::prelude::*;

verus! {

// ---------------------------------------------------------------------------
// Keywords
// ---------------------------------------------------------------------------

/// A keyword counts where it stands apart from letters and digits, and no other
/// occurrence of it reaches into that place.
pub proof fn law_a_keyword_that_stands_apart_counts(
    before: Seq<char>,
    keyword: Seq<char>,
    after: Seq<char>,
)
    requires
        keyword.len() > 0,
        before.len() > 0 ==> !alphanumeric(before.last()),
        after.len() > 0 ==> !alphanumeric(after.first()),
        forall|i: int|
            before.len() - keyword.len() < i < before.len() ==> !stands_at(
                before + keyword + after,
                keyword,
                i,
            ),
    ensures
        keyword_in(before + keyword + after, keyword),
{
    let t = before + keyword + after;
    let at = before.len() as int;
    assert(t.subrange(at, at + keyword.len()) =~= keyword);
    if at > 0 {
        assert(t[at - 1] == before.last());
    }
    if after.len() > 0 {
        assert(t[at + keyword.len()] == after.first());
    }
    lemma_keyword_reached(t, keyword, 0, at);
}

proof fn lemma_keyword_reached(t: Seq<char>, k: Seq<char>, from: int, at: int)
    requires
        k.len() > 0,
        0 <= from <= at,
        stands_at(t, k, at),
        stands_alone(t, at, k.len() as int),
        forall|i: int| at - k.len() < i < at ==> !stands_at(t, k, i),
    ensures
        keyword_from(t, k, from),
    decreases at - from,
{
    lemma_first_at(t, k, from);
    let found = first_at(t, k, from)->0;
    if found < at {
        lemma_keyword_reached(t, k, found + k.len(), at);
    }
}

/// Nothing else counts: a keyword that is found stands somewhere apart from letters and
/// digits.
pub proof fn law_a_keyword_that_counts_stands_apart(t: Seq<char>, keyword: Seq<char>)
    requires
        keyword_in(t, keyword),
    ensures
        exists|at: int| #[trigger]
            stands_at(t, keyword, at) && (at == 0 || !alphanumeric(t[at - 1])) && (at
                + keyword.len() >= t.len() || !alphanumeric(t[at + keyword.len()])),
{
    if t == keyword {
        assert(t.subrange(0, t.len() as int) =~= t);
        assert(stands_at(t, keyword, 0));
    } else {
        let at = lemma_keyword_stands(t, keyword, 0);
        assert(stands_at(t, keyword, at));
    }
}

proof fn lemma_keyword_stands(t: Seq<char>, k: Seq<char>, from: int) -> (at: int)
    requires
        keyword_from(t, k, from),
    ensures
        stands_at(t, k, at),
        stands_alone(t, at, k.len() as int),
    decreases t.len() + 1 - from,
{
    lemma_first_at(t, k, from);
    let found = first_at(t, k, from)->0;
    if stands_alone(t, found, k.len() as int) {
        found
    } else {
        let step: int = if k.len() == 0 {
            1
        } else {
            k.len() as int
        };
        lemma_keyword_stands(t, k, found + step)
    }
}

/// A title is one of a login exactly where one of these words stands in it.
pub proof fn law_titles_of_a_login(title: Seq<char>)
    ensures
        has_any_keyword(title, login_title_keywords()) <==> {
            ||| has_keyword(title, "Sign in"@)
            ||| has_keyword(title, "Authentication"@)
            ||| has_keyword(title, "Credentials"@)
            ||| has_keyword(title, "Login"@)
            ||| has_keyword(title, "Password"@)
            ||| has_keyword(title, "Enter password"@)
            ||| has_keyword(title, "Microsoft account"@)
            ||| has_keyword(title, "Work or school"@)
            ||| has_keyword(title, "Authenticate"@)
            ||| has_keyword(title, "Log in"@)
            ||| has_keyword(title, "Sign-in"@)
            ||| has_keyword(title, "Credential"@)
        },
{
    let ks = login_title_keywords();
    assert(ks.len() == 12);
    assert(forall|i: int| 0 <= i < 12 ==> (has_keyword(title, #[trigger] ks[i]) ==> has_any_keyword(
        title,
        ks,
    )));
    assert(ks[0] == "Sign in"@ && ks[1] == "Authentication"@ && ks[2] == "Credentials"@ && ks[3]
        == "Login"@ && ks[4] == "Password"@ && ks[5] == "Enter password"@ && ks[6]
        == "Microsoft account"@ && ks[7] == "Work or school"@ && ks[8] == "Authenticate"@ && ks[9]
        == "Log in"@ && ks[10] == "Sign-in"@ && ks[11] == "Credential"@);
}

/// A text of a window asks for credentials exactly where one of these phrases stands in
/// it.
pub proof fn law_texts_that_ask_for_credentials(text: Seq<char>)
    ensures
        has_any_keyword(text, credential_text_keywords()) <==> {
            ||| has_keyword(text, "Sign in"@)
            ||| has_keyword(text, "Sign-in"@)
            ||| has_keyword(text, "Log in"@)
            ||| has_keyword(text, "Enter Your Credentials"@)
            ||| has_keyword(text, "Enter password"@)
            ||| has_keyword(text, "Microsoft account"@)
            ||| has_keyword(text, "Work or school"@)
            ||| has_keyword(text, "Authenticate"@)
            ||| has_keyword(text, "These credentials will be used"@)
            ||| has_keyword(text, "used to connect to"@)
            ||| has_keyword(text, "Введите пароль"@)
            ||| has_keyword(text, "Mot de passe"@)
            ||| has_keyword(text, "Contraseña"@)
            ||| has_keyword(text, "Contrasena"@)
            ||| has_keyword(text, "Hasło"@)
            ||| has_keyword(text, "Haslo"@)
        },
{
    let ks = credential_text_keywords();
    assert(ks.len() == 16);
    assert(forall|i: int| 0 <= i < 16 ==> (has_keyword(text, #[trigger] ks[i]) ==> has_any_keyword(
        text,
        ks,
    )));
    assert(ks[0] == "Sign in"@ && ks[1] == "Sign-in"@ && ks[2] == "Log in"@ && ks[3]
        == "Enter Your Credentials"@ && ks[4] == "Enter password"@ && ks[5] == "Microsoft account"@
        && ks[6] == "Work or school"@ && ks[7] == "Authenticate"@ && ks[8]
        == "These credentials will be used"@ && ks[9] == "used to connect to"@ && ks[10]
        == "Введите пароль"@ && ks[11] == "Mot de passe"@ && ks[12] == "Contraseña"@ && ks[13]
        == "Contrasena"@ && ks[14] == "Hasło"@ && ks[15] == "Haslo"@);
}

/// A text of a sheet asks for credentials exactly where one of these phrases stands in it.
pub proof fn law_texts_of_a_sheet(text: Seq<char>)
    ensures
        has_any_keyword(text, sheet_text_keywords()) <==> {
            ||| has_keyword(text, "Enter your user account"@)
            ||| has_keyword(text, "Enter Your Credentials"@)
            ||| has_keyword(text, "Enter password"@)
            ||| has_keyword(text, "These credentials will be used"@)
            ||| has_keyword(text, "used to connect to"@)
            ||| has_keyword(text, "Введите пароль"@)
            ||| has_keyword(text, "Mot de passe"@)
            ||| has_keyword(text, "Contraseña"@)
            ||| has_keyword(text, "Contrasena"@)
            ||| has_keyword(text, "Wpisz hasło"@)
            ||| has_keyword(text, "Wpisz haslo"@)
            ||| has_keyword(text, "Podaj hasło"@)
            ||| has_keyword(text, "Podaj haslo"@)
        },
{
    let ks = sheet_text_keywords();
    assert(ks.len() == 13);
    assert(forall|i: int| 0 <= i < 13 ==> (has_keyword(text, #[trigger] ks[i]) ==> has_any_keyword(
        text,
        ks,
    )));
    assert(ks[0] == "Enter your user account"@ && ks[1] == "Enter Your Credentials"@ && ks[2]
        == "Enter password"@ && ks[3] == "These credentials will be used"@ && ks[4]
        == "used to connect to"@ && ks[5] == "Введите пароль"@ && ks[6] == "Mot de passe"@ && ks[7]
        == "Contraseña"@ && ks[8] == "Contrasena"@ && ks[9] == "Wpisz hasło"@ && ks[10]
        == "Wpisz haslo"@ && ks[11] == "Podaj hasło"@ && ks[12] == "Podaj haslo"@);
}

/// A title is one of a session where it is not blank and none of the words stands in it
/// that the application's own windows have in theirs.
pub proof fn law_titles_of_a_session(title: Seq<char>)
    ensures
        session_title(title) <==> {
            let t = trimmed(title);
            &&& t.len() > 0
            &&& !has_keyword(t, "devices"@)
            &&& !has_keyword(t, "windows app"@)
            &&& !has_keyword(t, "settings"@)
            &&& !has_keyword(t, "preferences"@)
            &&& !has_keyword(t, "about windows app"@)
            &&& !has_keyword(t, "connection center"@)
            &&& !has_keyword(t, "connection lost"@)
            &&& !has_keyword(t, "disconnected"@)
            &&& !has_keyword(t, "unable to connect"@)
            &&& !has_keyword(t, "add pc"@)
            &&& !has_keyword(t, "add workspace"@)
            &&& !has_keyword(t, "workspaces"@)
            &&& !has_keyword(t, "workspace"@)
            &&& !has_keyword(t, "accounts"@)
            &&& !has_keyword(t, "sign in"@)
            &&& !has_keyword(t, "authentication"@)
            &&& !has_keyword(t, "credentials"@)
            &&& !has_keyword(t, "login"@)
            &&& !has_keyword(t, "password"@)
        },
{
    let t = trimmed(title);
    let ks = non_session_keywords();
    assert(ks.len() == 19);
    assert(forall|i: int| 0 <= i < 19 ==> (has_keyword(t, #[trigger] ks[i]) ==> has_any_keyword(
        t,
        ks,
    )));
    assert(ks[0] == "devices"@ && ks[1] == "windows app"@ && ks[2] == "settings"@ && ks[3]
        == "preferences"@ && ks[4] == "about windows app"@ && ks[5] == "connection center"@ && ks[6]
        == "connection lost"@ && ks[7] == "disconnected"@ && ks[8] == "unable to connect"@ && ks[9]
        == "add pc"@ && ks[10] == "add workspace"@ && ks[11] == "workspaces"@ && ks[12]
        == "workspace"@ && ks[13] == "accounts"@ && ks[14] == "sign in"@ && ks[15]
        == "authentication"@ && ks[16] == "credentials"@ && ks[17] == "login"@ && ks[18]
        == "password"@);
}

/// A window is known for a prompt by its title and its text together, a sheet by its text
/// alone.
pub proof fn law_what_identifies_a_prompt(title: Seq<char>, text: Seq<char>)
    ensures
        identity_verified(title, text, PromptOrigin::Window) <==> has_any_keyword(
            title,
            login_title_keywords(),
        ) && has_any_keyword(text, credential_text_keywords()),
        identity_verified(title, text, PromptOrigin::Sheet) <==> has_any_keyword(
            text,
            sheet_text_keywords(),
        ),
{
}

/// A window that is no dialog, or a dialog whose title is not one of a login, is not one
/// for credentials; a dialog with such a title is, however its role is written.
pub proof fn law_a_dialog_of_a_login(role: Seq<char>, subrole: Seq<char>, title: Seq<char>)
    requires
        same_ascii(role, "AXWindow"@),
        has_any_keyword(title, login_title_keywords()),
    ensures
        credential_window(Some(role), Some(subrole), title) <==> same_ascii(subrole, "AXDialog"@)
            || same_ascii(subrole, "AXSystemDialog"@),
        !credential_window(None, Some(subrole), title),
        !credential_window(Some(role), None, title),
{
}

/// A title that is expected has to be the one that is shown, but for case and for white
/// space round what was expected; without one, or with a blank one, any will do.
pub proof fn law_an_expected_title(
    current: Seq<char>,
    before: Seq<char>,
    expected: Seq<char>,
    after: Seq<char>,
)
    requires
        all_blank(before),
        all_blank(after),
        bare(expected),
    ensures
        title_matches(current, None),
        title_matches(current, Some(before + expected + after)) <==> expected.len() == 0 || (
        current.len() == expected.len() && (forall|i: int|
            0 <= i < current.len() ==> same_letter(#[trigger] current[i], expected[i]))),
{
    law_trimming_takes_the_white_space_away(before, expected, after);
    law_same_but_for_case(current, expected);
}

/// Two user names are the same but for case and for white space round them.
pub proof fn law_the_same_user_name(
    a: Seq<char>,
    b: Seq<char>,
    before: Seq<char>,
    after: Seq<char>,
)
    requires
        all_blank(before),
        all_blank(after),
        bare(a),
        bare(b),
    ensures
        same_username(before + a + after, b) <==> a.len() == b.len() && (forall|i: int|
            0 <= i < a.len() ==> same_letter(#[trigger] a[i], b[i])),
        same_username(b, before + a + after) <==> same_username(before + a + after, b),
{
    law_trimming_takes_the_white_space_away(before, a, after);
    law_trimming_takes_the_white_space_away(Seq::empty(), b, Seq::empty());
    assert(Seq::<char>::empty() + b + Seq::<char>::empty() =~= b);
    law_same_but_for_case(a, b);
}

/// A text speaks of a password exactly where one of these words is part of it, in small
/// letters.
pub proof fn law_words_for_a_password(lower: Seq<char>)
    ensures
        lower_has_cue(lower) <==> {
            ||| has_part(lower, "password"@)
            ||| has_part(lower, "passwort"@)
            ||| has_part(lower, "kennwort"@)
            ||| has_part(lower, "mot de passe"@)
            ||| has_part(lower, "contraseña"@)
            ||| has_part(lower, "contrasena"@)
            ||| has_part(lower, "hasło"@)
            ||| has_part(lower, "haslo"@)
            ||| has_part(lower, "пароль"@)
        },
{
    let ks = password_cues();
    assert(ks.len() == 9);
    assert(forall|i: int| 0 <= i < 9 ==> (has_part(lower, #[trigger] ks[i]) ==> lower_has_cue(
        lower,
    )));
    assert(ks[0] == "password"@ && ks[1] == "passwort"@ && ks[2] == "kennwort"@ && ks[3]
        == "mot de passe"@ && ks[4] == "contraseña"@ && ks[5] == "contrasena"@ && ks[6] == "hasło"@
        && ks[7] == "haslo"@ && ks[8] == "пароль"@);
}

// ---------------------------------------------------------------------------
// Identifiers and labels
// ---------------------------------------------------------------------------

/// An identifier is made of the letters and digits of a text in their order, the letters
/// in small; everything else is left out.
pub proof fn law_what_an_identifier_keeps(a: Seq<char>, c: char, b: Seq<char>)
    ensures
        identifier(a + b) == identifier(a) + identifier(b),
        'a' <= c <= 'z' || '0' <= c <= '9' ==> identifier(seq![c]) == seq![c],
        'A' <= c <= 'Z' ==> identifier(seq![c]) == seq![(c as int + 32) as char],
        !('a' <= c <= 'z' || '0' <= c <= '9' || 'A' <= c <= 'Z') ==> identifier(seq![c])
            == Seq::<char>::empty(),
{
    lemma_identifier_concat(a, b);
    lemma_identifier_one(c);
}

proof fn lemma_identifier_one(c: char)
    ensures
        identifier(seq![c]) == if ascii_alphanumeric(c) {
            seq![ascii_lower(c)]
        } else {
            Seq::<char>::empty()
        },
{
    let one = seq![c];
    assert(one.drop_last() =~= Seq::<char>::empty());
    assert(identifier(one.drop_last()) =~= Seq::<char>::empty());
    assert(Seq::<char>::empty().push(ascii_lower(c)) =~= seq![ascii_lower(c)]);
}

proof fn lemma_identifier_concat(a: Seq<char>, b: Seq<char>)
    ensures
        identifier(a + b) == identifier(a) + identifier(b),
    decreases b.len(),
{
    if b.len() == 0 {
        assert(a + b =~= a);
        assert(identifier(a) + Seq::<char>::empty() =~= identifier(a));
    } else {
        assert((a + b).drop_last() =~= a + b.drop_last());
        lemma_identifier_concat(a, b.drop_last());
        if ascii_alphanumeric(b.last()) {
            assert((identifier(a) + identifier(b.drop_last())).push(ascii_lower(b.last()))
                =~= identifier(a) + identifier(b.drop_last()).push(ascii_lower(b.last())));
        }
    }
}

/// The marks that a label is read without are the two that announce a shortcut and the two
/// that set the direction of writing; everything else stays in its order.
pub proof fn law_a_label_without_marks(a: Seq<char>, c: char, b: Seq<char>)
    ensures
        without_marks(a + b) == without_marks(a) + without_marks(b),
        without_marks(seq![c]) == if c == '&' || c == '_' || c == '\u{200e}' || c == '\u{200f}' {
            Seq::<char>::empty()
        } else {
            seq![c]
        },
{
    lemma_without_marks_concat(a, b);
    let one = seq![c];
    assert(one.drop_last() =~= Seq::<char>::empty());
    assert(without_marks(one.drop_last()) =~= Seq::<char>::empty());
    assert(Seq::<char>::empty().push(c) =~= one);
}

proof fn lemma_without_marks_concat(a: Seq<char>, b: Seq<char>)
    ensures
        without_marks(a + b) == without_marks(a) + without_marks(b),
    decreases b.len(),
{
    if b.len() == 0 {
        assert(a + b =~= a);
        assert(without_marks(a) + Seq::<char>::empty() =~= without_marks(a));
    } else {
        assert((a + b).drop_last() =~= a + b.drop_last());
        lemma_without_marks_concat(a, b.drop_last());
        if !label_mark(b.last()) {
            assert((without_marks(a) + without_marks(b.drop_last())).push(b.last())
                =~= without_marks(a) + without_marks(b.drop_last()).push(b.last()));
        }
    }
}

/// The words of a label that holds no marks.
pub open spec fn label_words(ws: Seq<Seq<char>>) -> bool {
    forall|k: int|
        0 <= k < ws.len() ==> (#[trigger] ws[k]).len() > 0 && (forall|i: int|
            0 <= i < ws[k].len() ==> !blank(#[trigger] ws[k][i]) && !label_mark(ws[k][i]))
}

/// A label is read with single spaces between its words, and without the word "button" at
/// its end.
pub proof fn law_a_label_is_read_without_button(ws: Seq<Seq<char>>)
    requires
        ws.len() > 0,
        label_words(ws),
    ensures
        submit_label(spaced(ws.push("button"@))) == spaced(ws),
        submit_label(spaced(ws.push("Button"@))) == spaced(ws),
        ws.last() != "button"@ && ws.last() != "Button"@ ==> submit_label(spaced(ws)) == spaced(
            ws,
        ),
{
    reveal_strlit("button");
    reveal_strlit("Button");
    reveal_strlit(" button");
    reveal_strlit(" Button");
    lemma_spaced_bare(ws);
    assert(" button"@ =~= seq![' '] + "button"@);
    assert(" Button"@ =~= seq![' '] + "Button"@);
    lemma_label_with(ws, "button"@);
    lemma_label_with(ws, "Button"@);
    let small = spaced(ws) + " button"@;
    let large = spaced(ws) + " Button"@;
    assert(small.take(small.len() - 7) =~= spaced(ws));
    assert(large.take(large.len() - 7) =~= spaced(ws));
    assert(" button"@.is_suffix_of(small)) by {
        assert(small.subrange(small.len() - 7, small.len() as int) =~= " button"@);
    }
    assert(" Button"@.is_suffix_of(large)) by {
        assert(large.subrange(large.len() - 7, large.len() as int) =~= " Button"@);
    }
    assert(!(" button"@.is_suffix_of(large))) by {
        assert(large.subrange(large.len() - 7, large.len() as int)[1] == 'B');
        assert(" button"@[1] == 'b');
    }
    if ws.last() != "button"@ && ws.last() != "Button"@ {
        lemma_label_unmarked(ws);
        lemma_no_word_at_the_end(ws, "button"@);
        lemma_no_word_at_the_end(ws, "Button"@);
    }
}

/// A label with one more word.
proof fn lemma_label_with(ws: Seq<Seq<char>>, word: Seq<char>)
    requires
        ws.len() > 0,
        label_words(ws),
        word.len() > 0,
        forall|i: int| 0 <= i < word.len() ==> !blank(#[trigger] word[i]) && !label_mark(word[i]),
    ensures
        spaced(words(without_marks(spaced(ws.push(word))))) == spaced(ws) + (seq![' '] + word),
{
    let longer = ws.push(word);
    assert forall|k: int| 0 <= k < longer.len() implies (#[trigger] longer[k]).len() > 0 && (
    forall|i: int|
        0 <= i < longer[k].len() ==> !blank(#[trigger] longer[k][i]) && !label_mark(
            longer[k][i],
        )) by {
        if k < ws.len() {
            assert(longer[k] == ws[k]);
        }
    }
    lemma_label_unmarked(longer);
    assert(longer.drop_last() =~= ws);
    assert(spaced(longer) =~= spaced(ws) + (seq![' '] + word));
}

/// A label without marks is read as it is.
proof fn lemma_label_unmarked(ws: Seq<Seq<char>>)
    requires
        label_words(ws),
    ensures
        spaced(words(without_marks(spaced(ws)))) == spaced(ws),
{
    lemma_spaced_unmarked(ws);
    lemma_unmarked(spaced(ws));
    assert forall|k: int| 0 <= k < ws.len() implies (#[trigger] ws[k]).len() > 0 && (forall|i: int|
        0 <= i < ws[k].len() ==> !blank(#[trigger] ws[k][i])) by {}
    law_spaced_words_stay_the_same(ws);
}

proof fn lemma_unmarked(s: Seq<char>)
    requires
        forall|i: int| 0 <= i < s.len() ==> !label_mark(#[trigger] s[i]),
    ensures
        without_marks(s) == s,
    decreases s.len(),
{
    if s.len() > 0 {
        assert forall|i: int| 0 <= i < s.drop_last().len() implies !label_mark(
            #[trigger] s.drop_last()[i],
        ) by {
            assert(!label_mark(s[i]));
        }
        lemma_unmarked(s.drop_last());
        assert(!label_mark(s[s.len() - 1]));
        assert(s.drop_last().push(s.last()) =~= s);
    } else {
        assert(s =~= Seq::<char>::empty());
    }
}

proof fn lemma_spaced_unmarked(ws: Seq<Seq<char>>)
    requires
        label_words(ws),
    ensures
        forall|i: int| 0 <= i < spaced(ws).len() ==> !label_mark(#[trigger] spaced(ws)[i]),
    decreases ws.len(),
{
    if ws.len() > 0 {
        let last = ws[ws.len() - 1];
        assert(last.len() > 0);
        if ws.len() > 1 {
            let front = ws.drop_last();
            assert forall|k: int| 0 <= k < front.len() implies (#[trigger] front[k]).len() > 0 && (
            forall|i: int|
                0 <= i < front[k].len() ==> !blank(#[trigger] front[k][i]) && !label_mark(
                    front[k][i],
                )) by {
                assert(front[k] == ws[k]);
            }
            lemma_spaced_unmarked(front);
            assert forall|i: int| 0 <= i < spaced(ws).len() implies !label_mark(
                #[trigger] spaced(ws)[i],
            ) by {
                let n = spaced(front).len() as int;
                if i < n {
                    assert(spaced(ws)[i] == spaced(front)[i]);
                } else if i == n {
                    assert(spaced(ws)[i] == ' ');
                } else {
                    assert(spaced(ws)[i] == last[i - n - 1]);
                }
            }
        } else {
            assert forall|i: int| 0 <= i < spaced(ws).len() implies !label_mark(
                #[trigger] spaced(ws)[i],
            ) by {
                assert(spaced(ws)[i] == ws[0][i]);
            }
        }
    }
}

/// A text of words neither begins nor ends with white space, so that trimming leaves it.
proof fn lemma_spaced_bare(ws: Seq<Seq<char>>)
    requires
        ws.len() > 0,
        label_words(ws),
    ensures
        trimmed(spaced(ws)) == spaced(ws),
        spaced(ws).len() > 0,
{
    lemma_spaced_ends(ws);
    let s = spaced(ws);
    law_trimming_takes_the_white_space_away(Seq::empty(), s, Seq::empty());
    assert(Seq::<char>::empty() + s + Seq::<char>::empty() =~= s);
}

proof fn lemma_spaced_ends(ws: Seq<Seq<char>>)
    requires
        ws.len() > 0,
        label_words(ws),
    ensures
        spaced(ws).len() > 0,
        spaced(ws).first() == ws[0][0],
        spaced(ws).last() == ws.last().last(),
        !blank(spaced(ws).first()),
        !blank(spaced(ws).last()),
    decreases ws.len(),
{
    assert(ws[0].len() > 0 && !blank(ws[0][0]));
    let last = ws[ws.len() - 1];
    assert(last.len() > 0 && !blank(last[last.len() - 1]));
    if ws.len() > 1 {
        let front = ws.drop_last();
        assert forall|k: int| 0 <= k < front.len() implies (#[trigger] front[k]).len() > 0 && (
        forall|i: int|
            0 <= i < front[k].len() ==> !blank(#[trigger] front[k][i]) && !label_mark(
                front[k][i],
            )) by {
            assert(front[k] == ws[k]);
        }
        lemma_spaced_ends(front);
        assert(spaced(ws).first() == spaced(front).first());
    }
}

/// A text of words ends with a space and a word only where that is its last word.
proof fn lemma_no_word_at_the_end(ws: Seq<Seq<char>>, word: Seq<char>)
    requires
        ws.len() > 0,
        label_words(ws),
        ws.last() != word,
        word.len() > 0,
        forall|i: int| 0 <= i < word.len() ==> !blank(#[trigger] word[i]),
    ensures
        !((seq![' '] + word).is_suffix_of(spaced(ws))),
{
    let s = spaced(ws);
    let tail = seq![' '] + word;
    let last = ws[ws.len() - 1];
    let n = s.len() as int;
    if tail.is_suffix_of(s) {
        assert(s.subrange(n - tail.len(), n) == tail);
        assert forall|i: int| 0 <= i < tail.len() implies s[n - tail.len() + i] == tail[i] by {
            assert(s.subrange(n - tail.len(), n)[i] == tail[i]);
        }
        assert forall|i: int| 0 <= i < last.len() implies s[n - last.len() + i] == last[i] by {}
        if word.len() == last.len() {
            assert forall|i: int| 0 <= i < word.len() implies word[i] == last[i] by {
                assert(tail[i + 1] == word[i]);
                assert(s[n - tail.len() + i + 1] == tail[i + 1]);
            }
            assert(word =~= last);
        } else if word.len() < last.len() {
            let i = last.len() - word.len() - 1;
            assert(s[n - last.len() + i] == last[i]);
            assert(tail[0] == ' ');
            assert(s[n - tail.len() + 0] == tail[0]);
            assert(!blank(last[i]));
        } else {
            assert(ws.len() > 1) by {
                if ws.len() == 1 {
                    assert(s == last);
                }
            }
            assert(s[n - last.len() - 1] == ' ');
            let i = word.len() - last.len();
            assert(tail[i] == word[i - 1]);
            assert(s[n - tail.len() + i] == tail[i]);
            assert(!blank(word[i - 1]));
        }
    }
}

/// The identifiers of the labels that submit.
pub open spec fn submits(token: Seq<char>) -> bool {
    ||| token == "continue"@
    ||| token == "ok"@
    ||| token == "okbutton"@
    ||| token == "signin"@
    ||| token == "login"@
    ||| token == "connect"@
    ||| token == "next"@
    ||| token == "submit"@
    ||| token == "done"@
}

/// A word submits by its letters and digits alone, whatever stands between them and
/// however they are written.
pub proof fn law_words_that_submit(word: Seq<char>)
    ensures
        submit_word(word) <==> submits(identifier(word)),
{
    lemma_label_identifiers();
    let ls = submit_labels();
    let token = identifier(word);
    assert(ls.len() == 9);
    assert(ls[0] == "Continue"@ && ls[1] == "Продолжить"@ && ls[2] == "OK"@ && ls[3] == "Sign in"@
        && ls[4] == "Log in"@ && ls[5] == "Connect"@ && ls[6] == "Next"@ && ls[7] == "Submit"@
        && ls[8] == "Done"@);
    assert(forall|i: int|
        0 <= i < 9 ==> (identifier(#[trigger] ls[i]) == token ==> exists|j: int|
            0 <= j < ls.len() && identifier(#[trigger] ls[j]) == token));
}

/// The identifiers of the labels, worked out.
proof fn lemma_label_identifiers()
    ensures
        identifier("Continue"@) == "continue"@,
        identifier("Продолжить"@).len() == 0,
        identifier("OK"@) == "ok"@,
        identifier("Sign in"@) == "signin"@,
        identifier("Log in"@) == "login"@,
        identifier("Connect"@) == "connect"@,
        identifier("Next"@) == "next"@,
        identifier("Submit"@) == "submit"@,
        identifier("Done"@) == "done"@,
        "continue"@.len() > 0,
        "ok"@.len() > 0,
        "okbutton"@.len() > 0,
        "signin"@.len() > 0,
        "login"@.len() > 0,
        "connect"@.len() > 0,
        "next"@.len() > 0,
        "submit"@.len() > 0,
        "done"@.len() > 0,
{
    reveal_strlit("Continue");
    reveal_strlit("Продолжить");
    reveal_strlit("OK");
    reveal_strlit("Sign in");
    reveal_strlit("Log in");
    reveal_strlit("Connect");
    reveal_strlit("Next");
    reveal_strlit("Submit");
    reveal_strlit("Done");
    reveal_strlit("continue");
    reveal_strlit("ok");
    reveal_strlit("okbutton");
    reveal_strlit("signin");
    reveal_strlit("login");
    reveal_strlit("connect");
    reveal_strlit("next");
    reveal_strlit("submit");
    reveal_strlit("done");
    lemma_kept_letters("Continue"@, "continue"@);
    lemma_no_letters("Продолжить"@);
    lemma_kept_letters("OK"@, "ok"@);
    lemma_kept_letters("Connect"@, "connect"@);
    lemma_kept_letters("Next"@, "next"@);
    lemma_kept_letters("Submit"@, "submit"@);
    lemma_kept_letters("Done"@, "done"@);
    reveal_strlit("Sign");
    reveal_strlit("sign");
    reveal_strlit("Log");
    reveal_strlit("log");
    reveal_strlit("in");
    lemma_kept_letters("Sign"@, "sign"@);
    lemma_kept_letters("Log"@, "log"@);
    lemma_kept_letters("in"@, "in"@);
    lemma_no_letters(seq![' ']);
    lemma_identifier_concat("Sign"@, seq![' ']);
    lemma_identifier_concat("Sign"@ + seq![' '], "in"@);
    assert("Sign"@ + seq![' '] + "in"@ =~= "Sign in"@);
    assert(identifier("Sign in"@) =~= "signin"@);
    lemma_identifier_concat("Log"@, seq![' ']);
    lemma_identifier_concat("Log"@ + seq![' '], "in"@);
    assert("Log"@ + seq![' '] + "in"@ =~= "Log in"@);
    assert(identifier("Log in"@) =~= "login"@);
}

proof fn lemma_kept_letters(s: Seq<char>, lower: Seq<char>)
    requires
        s.len() == lower.len(),
        forall|i: int|
            0 <= i < s.len() ==> ascii_alphanumeric(#[trigger] s[i]) && ascii_lower(s[i])
                == lower[i],
    ensures
        identifier(s) == lower,
    decreases s.len(),
{
    if s.len() > 0 {
        let front = s.drop_last();
        assert forall|i: int| 0 <= i < front.len() implies ascii_alphanumeric(#[trigger] front[i])
            && ascii_lower(front[i]) == lower.drop_last()[i] by {
            assert(ascii_alphanumeric(s[i]));
        }
        lemma_kept_letters(front, lower.drop_last());
        assert(ascii_alphanumeric(s[s.len() - 1]));
        assert(lower.drop_last().push(lower.last()) =~= lower);
    } else {
        assert(lower =~= Seq::<char>::empty());
    }
}

proof fn lemma_no_letters(s: Seq<char>)
    requires
        forall|i: int| 0 <= i < s.len() ==> !ascii_alphanumeric(#[trigger] s[i]),
    ensures
        identifier(s) == Seq::<char>::empty(),
    decreases s.len(),
{
    if s.len() > 0 {
        let front = s.drop_last();
        assert forall|i: int| 0 <= i < front.len() implies !ascii_alphanumeric(
            #[trigger] front[i],
        ) by {
            assert(!ascii_alphanumeric(s[i]));
        }
        lemma_no_letters(front);
        assert(!ascii_alphanumeric(s[s.len() - 1]));
    }
}

/// A button that continues comes first; any other that submits, by its label or by a word
/// of it, comes next; the rest do not submit.
pub proof fn law_ranks_of_labels(label: Seq<char>)
    ensures
        label_rank(label) == Some(0u8) <==> same_ascii(label, "continue"@) || label
            == "Продолжить"@,
        label_rank(label) == Some(1u8) <==> !(same_ascii(label, "continue"@) || label
            == "Продолжить"@) && label.len() > 0 && {
            ||| same_ascii(label, "OK"@)
            ||| same_ascii(label, "Sign in"@)
            ||| same_ascii(label, "Log in"@)
            ||| same_ascii(label, "Connect"@)
            ||| same_ascii(label, "Next"@)
            ||| same_ascii(label, "Submit"@)
            ||| same_ascii(label, "Done"@)
            ||| same_ascii(label, "Продолжить"@)
            ||| exists|i: int|
                0 <= i < words(label).len() && submits(identifier(#[trigger] words(label)[i]))
        },
        label_rank(label) is None || label_rank(label) == Some(0u8) || label_rank(label) == Some(
            1u8,
        ),
{
    reveal_strlit("continue");
    reveal_strlit("Continue");
    reveal_strlit("Продолжить");
    assert("continue"@.len() == 8);
    assert("Продолжить"@.len() == 10);
    law_same_but_for_case(label, "continue"@);
    law_same_but_for_case(label, "Continue"@);
    law_same_but_for_case("Continue"@, "continue"@);
    assert(same_ascii("Continue"@, "continue"@));
    assert(same_ascii(label, "Continue"@) <==> same_ascii(label, "continue"@));
    let ls = submit_labels();
    assert(ls.len() == 9);
    assert(ls[0] == "Continue"@ && ls[1] == "Продолжить"@ && ls[2] == "OK"@ && ls[3] == "Sign in"@
        && ls[4] == "Log in"@ && ls[5] == "Connect"@ && ls[6] == "Next"@ && ls[7] == "Submit"@
        && ls[8] == "Done"@);
    let listed = exists|i: int| 0 <= i < ls.len() && same_ascii(label, #[trigger] ls[i]);
    assert(forall|i: int| 0 <= i < 9 ==> (same_ascii(label, #[trigger] ls[i]) ==> listed));
    assert forall|i: int| 0 <= i < words(label).len() implies (submit_word(
        #[trigger] words(label)[i],
    ) <==> submits(identifier(words(label)[i]))) by {
        law_words_that_submit(words(label)[i]);
    }
}

} // verus!
