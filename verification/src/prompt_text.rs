//! What the text of a credential prompt says: keywords, submit labels, password
//! cues and the account that it names.

#[allow(unused_imports)]
use crate::text::{
    alphanumeric, ascii_alphanumeric, ascii_lower, first_at, has_part, lemma_first_at, lowercase,
    same_ascii, spaced, trimmed, words,
};
use crate::text::{
    contains_part, eq_ignore_ascii_case, equals, find_part, is_alphanumeric, is_ascii_alphanumeric,
    join_spaced, same_chars, same_text, split_words, texts_eq_ignore_ascii_case, to_ascii_lower,
    to_chars, to_lowercase, to_text, trim, trimmed_eq_ignore_ascii_case,
};
#[allow(unused_imports)]
use crate::protocol::until;
use crate::protocol::until_char;
use vstd::prelude::*;
use vstd::slice::slice_subrange;

verus! {

/// Where a prompt stands: in a window of its own, or in a sheet of a window.
#[derive(Debug, Clone, Copy, PartialEq, Eq, Structural)]
pub enum PromptOrigin {
    Window,
    Sheet,
}

pub open spec fn origin_text(origin: PromptOrigin) -> Seq<char> {
    match origin {
        PromptOrigin::Window => "window"@,
        PromptOrigin::Sheet => "sheet"@,
    }
}

impl PromptOrigin {
    pub fn as_str(self) -> (out: &'static str)
        ensures
            out@ == origin_text(self),
    {
        match self {
            PromptOrigin::Window => "window",
            PromptOrigin::Sheet => "sheet",
        }
    }
}

// ---------------------------------------------------------------------------
// Keywords
// ---------------------------------------------------------------------------

/// No letter or number touches the part of `t` from `at` on that is `len` long.
pub open spec fn stands_alone(t: Seq<char>, at: int, len: int) -> bool {
    &&& at == 0 || !alphanumeric(t[at - 1])
    &&& at + len >= t.len() || !alphanumeric(t[at + len])
}

/// Of the places of `k` in `t` that do not overlap, taken from the left, one at
/// or after `from` stands alone.
pub open spec fn keyword_from(t: Seq<char>, k: Seq<char>, from: int) -> bool
    decreases t.len() + 1 - from,
{
    if from < 0 || from > t.len() {
        false
    } else {
        match first_at(t, k, from) {
            Some(at) => if at < from || at + k.len() > t.len() {
                false
            } else {
                stands_alone(t, at, k.len() as int) || keyword_from(
                    t,
                    k,
                    at + if k.len() == 0 {
                        1
                    } else {
                        k.len() as int
                    },
                )
            },
            None => false,
        }
    }
}

/// Whether the text `t` holds the keyword `k`, both in lower case.
pub open spec fn keyword_in(t: Seq<char>, k: Seq<char>) -> bool {
    t == k || keyword_from(t, k, 0)
}

/// Whether `text` holds `keyword`, in any case, as a word or words of its own.
pub open spec fn has_keyword(text: Seq<char>, keyword: Seq<char>) -> bool {
    keyword_in(lowercase(text), lowercase(keyword))
}

/// `keyword_in`, computed.
pub fn lower_contains_keyword(t: &[char], k: &[char]) -> (r: bool)
    ensures
        r == keyword_in(t@, k@),
{
    if same_chars(t, k) {
        return true;
    }
    let n: usize = t.len();
    let step: usize = if k.len() == 0 {
        1
    } else {
        k.len()
    };
    let mut from: usize = 0;
    while from <= n
        invariant
            n == t@.len(),
            step == if k@.len() == 0 {
                1
            } else {
                k@.len()
            },
            keyword_from(t@, k@, 0) == keyword_from(t@, k@, from as int),
            t@ != k@,
        decreases n + 1 - from,
    {
        proof {
            lemma_first_at(t@, k@, from as int);
        }
        match find_part(t, k, from) {
            None => {
                return false;
            },
            Some(at) => {
                let end: usize = at + k.len();
                let before_ok: bool = at == 0 || !is_alphanumeric(t[at - 1]);
                let after_ok: bool = end >= n || !is_alphanumeric(t[end]);
                if before_ok && after_ok {
                    return true;
                }
                if at == n {
                    assert(!keyword_from(t@, k@, at + step));
                    return false;
                }
                from = at + step;
            },
        }
    }
    false
}

/// `has_keyword`, computed.
pub fn contains_keyword(text: &str, keyword: &str) -> (r: bool)
    ensures
        r == has_keyword(text@, keyword@),
{
    let text_lower: String = to_lowercase(text);
    let keyword_lower: String = to_lowercase(keyword);
    let t: Vec<char> = to_chars(text_lower.as_str());
    let k: Vec<char> = to_chars(keyword_lower.as_str());
    lower_contains_keyword(&t, &k)
}

/// Whether `text` holds one of `keywords`.
pub open spec fn has_any_keyword(text: Seq<char>, keywords: Seq<Seq<char>>) -> bool {
    exists|i: int| 0 <= i < keywords.len() && has_keyword(text, #[trigger] keywords[i])
}

fn contains_any_keyword(text: &str, keywords: &Vec<&'static str>) -> (r: bool)
    ensures
        r == has_any_keyword(text@, keywords.deep_view()),
{
    let mut i: usize = 0;
    while i < keywords.len()
        invariant
            i <= keywords@.len(),
            forall|j: int| 0 <= j < i ==> !has_keyword(text@, #[trigger] keywords@[j]@),
        decreases keywords@.len() - i,
    {
        if contains_keyword(text, keywords[i]) {
            assert(has_keyword(text@, keywords.deep_view()[i as int]));
            return true;
        }
        i += 1;
    }
    proof {
        assert forall|j: int| 0 <= j < keywords.deep_view().len() implies !has_keyword(
            text@,
            #[trigger] keywords.deep_view()[j],
        ) by {
            assert(keywords.deep_view()[j] == keywords@[j]@);
        }
    }
    false
}

pub open spec fn login_title_keywords() -> Seq<Seq<char>> {
    seq![
        "Sign in"@,
        "Authentication"@,
        "Credentials"@,
        "Login"@,
        "Password"@,
        "Enter password"@,
        "Microsoft account"@,
        "Work or school"@,
        "Authenticate"@,
        "Log in"@,
        "Sign-in"@,
        "Credential"@,
    ]
}

/// Whether a window title is one of a login window.
pub fn login_title_like(title: &str) -> (r: bool)
    ensures
        r == has_any_keyword(title@, login_title_keywords()),
{
    let keywords: Vec<&'static str> = vec![
        "Sign in",
        "Authentication",
        "Credentials",
        "Login",
        "Password",
        "Enter password",
        "Microsoft account",
        "Work or school",
        "Authenticate",
        "Log in",
        "Sign-in",
        "Credential",
    ];
    assert(keywords.deep_view() =~= login_title_keywords());
    contains_any_keyword(title, &keywords)
}

pub open spec fn credential_text_keywords() -> Seq<Seq<char>> {
    seq![
        "Sign in"@,
        "Sign-in"@,
        "Log in"@,
        "Enter Your Credentials"@,
        "Enter password"@,
        "Microsoft account"@,
        "Work or school"@,
        "Authenticate"@,
        "These credentials will be used"@,
        "used to connect to"@,
        "Введите пароль"@,
        "Mot de passe"@,
        "Contraseña"@,
        "Contrasena"@,
        "Hasło"@,
        "Haslo"@,
    ]
}

/// Whether the text of a window is that of a credential prompt.
pub fn credential_prompt_text_like(text: &str) -> (r: bool)
    ensures
        r == has_any_keyword(text@, credential_text_keywords()),
{
    let keywords: Vec<&'static str> = vec![
        "Sign in",
        "Sign-in",
        "Log in",
        "Enter Your Credentials",
        "Enter password",
        "Microsoft account",
        "Work or school",
        "Authenticate",
        "These credentials will be used",
        "used to connect to",
        "Введите пароль",
        "Mot de passe",
        "Contraseña",
        "Contrasena",
        "Hasło",
        "Haslo",
    ];
    assert(keywords.deep_view() =~= credential_text_keywords());
    contains_any_keyword(text, &keywords)
}

pub open spec fn sheet_text_keywords() -> Seq<Seq<char>> {
    seq![
        "Enter your user account"@,
        "Enter Your Credentials"@,
        "Enter password"@,
        "These credentials will be used"@,
        "used to connect to"@,
        "Введите пароль"@,
        "Mot de passe"@,
        "Contraseña"@,
        "Contrasena"@,
        "Wpisz hasło"@,
        "Wpisz haslo"@,
        "Podaj hasło"@,
        "Podaj haslo"@,
    ]
}

/// Whether the text of a sheet is that of a credential prompt.
pub fn sheet_credential_prompt_text_like(text: &str) -> (r: bool)
    ensures
        r == has_any_keyword(text@, sheet_text_keywords()),
{
    let keywords: Vec<&'static str> = vec![
        "Enter your user account",
        "Enter Your Credentials",
        "Enter password",
        "These credentials will be used",
        "used to connect to",
        "Введите пароль",
        "Mot de passe",
        "Contraseña",
        "Contrasena",
        "Wpisz hasło",
        "Wpisz haslo",
        "Podaj hasło",
        "Podaj haslo",
    ];
    assert(keywords.deep_view() =~= sheet_text_keywords());
    contains_any_keyword(text, &keywords)
}

pub open spec fn non_session_keywords() -> Seq<Seq<char>> {
    seq![
        "devices"@,
        "windows app"@,
        "settings"@,
        "preferences"@,
        "about windows app"@,
        "connection center"@,
        "connection lost"@,
        "disconnected"@,
        "unable to connect"@,
        "add pc"@,
        "add workspace"@,
        "workspaces"@,
        "workspace"@,
        "accounts"@,
        "sign in"@,
        "authentication"@,
        "credentials"@,
        "login"@,
        "password"@,
    ]
}

/// A title that a remote session may have: not blank, and without a keyword of
/// the application's own windows.
pub open spec fn session_title(title: Seq<char>) -> bool {
    trimmed(title).len() > 0 && !has_any_keyword(trimmed(title), non_session_keywords())
}

/// `session_title`, computed.
pub fn is_probable_session_window_title(title: &str) -> (r: bool)
    ensures
        r == session_title(title@),
{
    let chars: Vec<char> = to_chars(title);
    let inner: &[char] = trim(&chars);
    if inner.len() == 0 {
        return false;
    }
    let text: String = to_text(inner);
    let keywords: Vec<&'static str> = vec![
        "devices",
        "windows app",
        "settings",
        "preferences",
        "about windows app",
        "connection center",
        "connection lost",
        "disconnected",
        "unable to connect",
        "add pc",
        "add workspace",
        "workspaces",
        "workspace",
        "accounts",
        "sign in",
        "authentication",
        "credentials",
        "login",
        "password",
    ];
    assert(keywords.deep_view() =~= non_session_keywords());
    !contains_any_keyword(text.as_str(), &keywords)
}

/// Whether title and text are those of a credential prompt. A window needs both;
/// a sheet is known by its text alone.
pub open spec fn identity_verified(
    window_title: Seq<char>,
    body_text: Seq<char>,
    origin: PromptOrigin,
) -> bool {
    match origin {
        PromptOrigin::Window => has_any_keyword(body_text, credential_text_keywords())
            && has_any_keyword(window_title, login_title_keywords()),
        PromptOrigin::Sheet => has_any_keyword(body_text, sheet_text_keywords()),
    }
}

/// `identity_verified`, computed.
pub fn prompt_identity_verified(window_title: &str, body_text: &str, origin: PromptOrigin) -> (r:
    bool)
    ensures
        r == identity_verified(window_title@, body_text@, origin),
{
    match origin {
        PromptOrigin::Window => {
            credential_prompt_text_like(body_text) && login_title_like(window_title)
        },
        PromptOrigin::Sheet => sheet_credential_prompt_text_like(body_text),
    }
}

/// The role and subrole that a dialog window has, and a title that a login
/// window has.
pub open spec fn credential_window(
    role: Option<Seq<char>>,
    subrole: Option<Seq<char>>,
    window_title: Seq<char>,
) -> bool {
    &&& role is Some && same_ascii(role->0, "AXWindow"@)
    &&& subrole is Some && (same_ascii(subrole->0, "AXDialog"@) || same_ascii(
        subrole->0,
        "AXSystemDialog"@,
    ))
    &&& has_any_keyword(window_title, login_title_keywords())
}

/// `credential_window`, computed.
pub fn native_credential_window_identity(
    role: Option<&str>,
    subrole: Option<&str>,
    window_title: &str,
) -> (r: bool)
    ensures
        r == credential_window(role.deep_view(), subrole.deep_view(), window_title@),
{
    let role_ok: bool = match role {
        Some(role) => texts_eq_ignore_ascii_case(role, "AXWindow"),
        None => false,
    };
    let subrole_ok: bool = match subrole {
        Some(subrole) => texts_eq_ignore_ascii_case(subrole, "AXDialog")
            || texts_eq_ignore_ascii_case(subrole, "AXSystemDialog"),
        None => false,
    };
    role_ok && subrole_ok && login_title_like(window_title)
}

/// Whether a window title is the expected one; where none is expected, any is.
pub open spec fn title_matches(current: Seq<char>, expected: Option<Seq<char>>) -> bool {
    match expected {
        Some(expected) => trimmed(expected).len() == 0 || same_ascii(current, trimmed(expected)),
        None => true,
    }
}

/// `title_matches`, computed.
pub fn prompt_window_title_matches(
    current_title: &str,
    expected_window_title: Option<&str>,
) -> (r: bool)
    ensures
        r == title_matches(current_title@, expected_window_title.deep_view()),
{
    match expected_window_title {
        Some(expected) => {
            let chars: Vec<char> = to_chars(expected);
            let inner: &[char] = trim(&chars);
            if inner.len() == 0 {
                return true;
            }
            let current: Vec<char> = to_chars(current_title);
            eq_ignore_ascii_case(&current, inner)
        },
        None => true,
    }
}

/// Whether two account names are the same.
pub open spec fn same_username(a: Seq<char>, b: Seq<char>) -> bool {
    same_ascii(trimmed(a), trimmed(b))
}

/// `same_username`, computed.
pub fn usernames_match(prompt_email: &str, account_username: &str) -> (r: bool)
    ensures
        r == same_username(prompt_email@, account_username@),
{
    trimmed_eq_ignore_ascii_case(prompt_email, account_username)
}

// ---------------------------------------------------------------------------
// Identifiers and password cues
// ---------------------------------------------------------------------------

/// The ASCII letters and digits of `s`, in lower case.
pub open spec fn identifier(s: Seq<char>) -> Seq<char>
    decreases s.len(),
{
    if s.len() == 0 {
        Seq::empty()
    } else if ascii_alphanumeric(s.last()) {
        identifier(s.drop_last()).push(ascii_lower(s.last()))
    } else {
        identifier(s.drop_last())
    }
}

/// `identifier`, computed.
pub fn normalized_identifier(s: &[char]) -> (out: Vec<char>)
    ensures
        out@ == identifier(s@),
{
    let mut out: Vec<char> = Vec::new();
    let mut i: usize = 0;
    assert(s@.take(0) =~= Seq::<char>::empty());
    while i < s.len()
        invariant
            i <= s@.len(),
            out@ == identifier(s@.take(i as int)),
        decreases s@.len() - i,
    {
        let c: char = s[i];
        assert(s@.take(i + 1).drop_last() =~= s@.take(i as int));
        if is_ascii_alphanumeric(c) {
            out.push(to_ascii_lower(c));
        }
        i += 1;
    }
    assert(s@.take(s@.len() as int) =~= s@);
    out
}

pub open spec fn password_cues() -> Seq<Seq<char>> {
    seq![
        "password"@,
        "passwort"@,
        "kennwort"@,
        "mot de passe"@,
        "contraseña"@,
        "contrasena"@,
        "hasło"@,
        "haslo"@,
        "пароль"@,
    ]
}

/// Whether a text in lower case speaks of a password.
pub open spec fn lower_has_cue(lower: Seq<char>) -> bool {
    exists|i: int|
        0 <= i < password_cues().len() && has_part(lower, #[trigger] password_cues()[i])
}

/// Whether `text` speaks of a password.
pub open spec fn has_password_cue(text: Seq<char>) -> bool {
    lower_has_cue(lowercase(text))
}

/// `lower_has_cue`, computed.
pub fn lower_contains_password_cue(lower: &[char]) -> (r: bool)
    ensures
        r == lower_has_cue(lower@),
{
    let cues: Vec<&'static str> = vec![
        "password",
        "passwort",
        "kennwort",
        "mot de passe",
        "contraseña",
        "contrasena",
        "hasło",
        "haslo",
        "пароль",
    ];
    assert(cues.deep_view() =~= password_cues());
    let mut i: usize = 0;
    while i < cues.len()
        invariant
            i <= cues@.len(),
            cues.deep_view() == password_cues(),
            forall|j: int| 0 <= j < i ==> !has_part(lower@, #[trigger] password_cues()[j]),
        decreases cues@.len() - i,
    {
        let cue: Vec<char> = to_chars(cues[i]);
        assert(cue@ == cues.deep_view()[i as int]);
        if contains_part(lower, &cue) {
            assert(has_part(lower@, password_cues()[i as int]));
            return true;
        }
        i += 1;
    }
    false
}

/// `has_password_cue`, computed.
pub fn text_contains_password_cue(text: &str) -> (r: bool)
    ensures
        r == has_password_cue(text@),
{
    let lower: String = to_lowercase(text);
    let chars: Vec<char> = to_chars(lower.as_str());
    lower_contains_password_cue(&chars)
}

// ---------------------------------------------------------------------------
// Submit labels
// ---------------------------------------------------------------------------

/// A character that marks a mnemonic or a writing direction.
pub open spec fn label_mark(c: char) -> bool {
    c == '&' || c == '_' || c == '\u{200e}' || c == '\u{200f}'
}

pub open spec fn without_marks(s: Seq<char>) -> Seq<char>
    decreases s.len(),
{
    if s.len() == 0 {
        Seq::empty()
    } else if label_mark(s.last()) {
        without_marks(s.drop_last())
    } else {
        without_marks(s.drop_last()).push(s.last())
    }
}

/// `s` without `suffix` at its end.
pub open spec fn before_suffix(s: Seq<char>, suffix: Seq<char>) -> Option<Seq<char>> {
    if suffix.is_suffix_of(s) {
        Some(s.take(s.len() - suffix.len()))
    } else {
        None
    }
}

/// A button's label without marks, spare white space and the word "button".
pub open spec fn submit_label(label: Seq<char>) -> Seq<char> {
    let collapsed = spaced(words(without_marks(label)));
    trimmed(
        match before_suffix(collapsed, " button"@) {
            Some(head) => head,
            None => match before_suffix(collapsed, " Button"@) {
                Some(head) => head,
                None => collapsed,
            },
        },
    )
}

fn strip_suffix<'a>(s: &'a [char], suffix: &str) -> (out: Option<&'a [char]>)
    ensures
        match out {
            Some(head) => before_suffix(s@, suffix@) == Some(head@),
            None => before_suffix(s@, suffix@) is None,
        },
{
    let part: Vec<char> = to_chars(suffix);
    let n: usize = s.len();
    if part.len() > n {
        return None;
    }
    let at: usize = n - part.len();
    let tail: &[char] = slice_subrange(s, at, n);
    if same_chars(tail, &part) {
        let head: &'a [char] = slice_subrange(s, 0, at);
        assert(head@ =~= s@.take(s@.len() - suffix@.len()));
        Some(head)
    } else {
        None
    }
}

fn submit_label_chars(label: &str) -> (out: Vec<char>)
    ensures
        out@ == submit_label(label@),
{
    let chars: Vec<char> = to_chars(label);
    let mut plain: Vec<char> = Vec::new();
    let mut i: usize = 0;
    assert(chars@.take(0) =~= Seq::<char>::empty());
    while i < chars.len()
        invariant
            i <= chars@.len(),
            plain@ == without_marks(chars@.take(i as int)),
        decreases chars@.len() - i,
    {
        let c: char = chars[i];
        assert(chars@.take(i + 1).drop_last() =~= chars@.take(i as int));
        if !(c == '&' || c == '_' || c == '\u{200e}' || c == '\u{200f}') {
            plain.push(c);
        }
        i += 1;
    }
    assert(chars@.take(chars@.len() as int) =~= chars@);
    let parts: Vec<Vec<char>> = split_words(&plain);
    let collapsed: Vec<char> = join_spaced(&parts);
    let head: &[char] = match strip_suffix(&collapsed, " button") {
        Some(head) => head,
        None => match strip_suffix(&collapsed, " Button") {
            Some(head) => head,
            None => collapsed.as_slice(),
        },
    };
    let inner: &[char] = trim(head);
    vstd::slice::slice_to_vec(inner)
}

/// `submit_label`, computed.
pub fn normalized_submit_label(label: &str) -> (out: String)
    ensures
        out@ == submit_label(label@),
{
    let chars: Vec<char> = submit_label_chars(label);
    to_text(&chars)
}

pub open spec fn submit_labels() -> Seq<Seq<char>> {
    seq![
        "Continue"@,
        "Продолжить"@,
        "OK"@,
        "Sign in"@,
        "Log in"@,
        "Connect"@,
        "Next"@,
        "Submit"@,
        "Done"@,
    ]
}

/// A word of a label that submits by itself.
pub open spec fn submit_word(word: Seq<char>) -> bool {
    let token = identifier(word);
    &&& token.len() > 0
    &&& {
        ||| token == "ok"@
        ||| token == "okbutton"@
        ||| exists|i: int|
            0 <= i < submit_labels().len() && identifier(#[trigger] submit_labels()[i]) == token
    }
}

/// How well a label, already normalized, says that its button submits.
pub open spec fn label_rank(label: Seq<char>) -> Option<u8> {
    if label.len() == 0 {
        None
    } else if same_ascii(label, "continue"@) || label == "Продолжить"@ {
        Some(0u8)
    } else if exists|i: int|
        0 <= i < submit_labels().len() && same_ascii(label, #[trigger] submit_labels()[i]) {
        Some(1u8)
    } else if exists|i: int| 0 <= i < words(label).len() && submit_word(#[trigger] words(label)[i]) {
        Some(1u8)
    } else {
        None
    }
}

fn submit_label_list() -> (out: Vec<&'static str>)
    ensures
        out.deep_view() == submit_labels(),
{
    let out: Vec<&'static str> = vec![
        "Continue",
        "Продолжить",
        "OK",
        "Sign in",
        "Log in",
        "Connect",
        "Next",
        "Submit",
        "Done",
    ];
    assert(out.deep_view() =~= submit_labels());
    out
}

fn is_submit_word(word: &[char], labels: &Vec<&'static str>) -> (r: bool)
    requires
        labels.deep_view() == submit_labels(),
    ensures
        r == submit_word(word@),
{
    let token: Vec<char> = normalized_identifier(word);
    if token.len() == 0 {
        return false;
    }
    if equals(&token, "ok") || equals(&token, "okbutton") {
        return true;
    }
    let mut i: usize = 0;
    while i < labels.len()
        invariant
            i <= labels@.len(),
            labels.deep_view() == submit_labels(),
            token@ == identifier(word@),
            token@.len() > 0,
            forall|j: int| 0 <= j < i ==> identifier(#[trigger] submit_labels()[j]) != token@,
        decreases labels@.len() - i,
    {
        let chars: Vec<char> = to_chars(labels[i]);
        assert(chars@ == labels.deep_view()[i as int]);
        let name: Vec<char> = normalized_identifier(&chars);
        if same_chars(&name, &token) {
            assert(identifier(submit_labels()[i as int]) == token@);
            return true;
        }
        i += 1;
    }
    false
}

/// How well a label says that its button submits: 0 is best.
pub fn submit_label_rank(label: &str) -> (r: Option<u8>)
    ensures
        r == label_rank(submit_label(label@)),
{
    let chars: Vec<char> = submit_label_chars(label);
    if chars.len() == 0 {
        return None;
    }
    let best: Vec<char> = to_chars("continue");
    if eq_ignore_ascii_case(&chars, &best) || equals(&chars, "Продолжить") {
        return Some(0);
    }
    let labels: Vec<&'static str> = submit_label_list();
    let ghost text = submit_label(label@);
    let mut i: usize = 0;
    while i < labels.len()
        invariant
            i <= labels@.len(),
            labels.deep_view() == submit_labels(),
            chars@ == text,
            text == submit_label(label@),
            text.len() > 0,
            !(same_ascii(text, "continue"@) || text == "Продолжить"@),
            forall|j: int| 0 <= j < i ==> !same_ascii(text, #[trigger] submit_labels()[j]),
        decreases labels@.len() - i,
    {
        let known: Vec<char> = to_chars(labels[i]);
        assert(known@ == labels.deep_view()[i as int]);
        if eq_ignore_ascii_case(&chars, &known) {
            assert(same_ascii(text, submit_labels()[i as int]));
            return Some(1);
        }
        i += 1;
    }
    let parts: Vec<Vec<char>> = split_words(&chars);
    let mut k: usize = 0;
    while k < parts.len()
        invariant
            k <= parts@.len(),
            labels.deep_view() == submit_labels(),
            parts.deep_view() == words(text),
            text == submit_label(label@),
            text.len() > 0,
            !(same_ascii(text, "continue"@) || text == "Продолжить"@),
            forall|j: int|
                0 <= j < submit_labels().len() ==> !same_ascii(text, #[trigger] submit_labels()[j]),
            forall|j: int| 0 <= j < k ==> !submit_word(#[trigger] words(text)[j]),
        decreases parts@.len() - k,
    {
        assert(parts@[k as int].deep_view() =~= parts@[k as int]@);
        assert(parts.deep_view()[k as int] == parts@[k as int]@);
        if is_submit_word(&parts[k], &labels) {
            assert(submit_word(words(text)[k as int]));
            return Some(1);
        }
        k += 1;
    }
    None
}

// ---------------------------------------------------------------------------
// The account that a prompt names
// ---------------------------------------------------------------------------

/// A character of an e-mail address.
pub open spec fn email_char(c: char) -> bool {
    ascii_alphanumeric(c) || c == '.' || c == '_' || c == '%' || c == '+' || c == '-' || c == '@'
}

pub fn is_email_char(c: char) -> (r: bool)
    ensures
        r == email_char(c),
{
    is_ascii_alphanumeric(c) || c == '.' || c == '_' || c == '%' || c == '+' || c == '-' || c == '@'
}

/// Where the run of e-mail characters that ends before `at` begins.
pub open spec fn run_start(s: Seq<char>, at: int) -> int
    decreases at,
{
    if at > 0 && email_char(s[at - 1]) {
        run_start(s, at - 1)
    } else {
        at
    }
}

/// Where the run of e-mail characters that begins at `at` ends.
pub open spec fn run_end(s: Seq<char>, at: int) -> int
    decreases s.len() - at,
{
    if at < s.len() && email_char(s[at]) {
        run_end(s, at + 1)
    } else {
        at
    }
}

/// Punctuation that may follow or precede an address.
pub open spec fn address_punctuation(c: char) -> bool {
    c == '.' || c == ',' || c == ';' || c == ':' || c == ')' || c == ']' || c == '}'
}

/// `s` without punctuation around it.
pub open spec fn bare_address(s: Seq<char>) -> Seq<char>
    decreases s.len(),
{
    if s.len() == 0 {
        s
    } else if address_punctuation(s.first()) {
        bare_address(s.drop_first())
    } else if address_punctuation(s.last()) {
        bare_address(s.drop_last())
    } else {
        s
    }
}

/// A name, one `@`, and a domain with a period inside it.
pub open spec fn address_like(s: Seq<char>) -> bool {
    let at = until(s, '@');
    let domain = s.skip(at + 1);
    &&& 0 < at < s.len()
    &&& !domain.contains('@')
    &&& domain.contains('.')
    &&& domain.first() != '.'
    &&& domain.last() != '.'
}

/// The text around the `@` at `at`.
pub open spec fn address_at(s: Seq<char>, at: int) -> Seq<char> {
    bare_address(s.subrange(run_start(s, at), run_end(s, at + 1)))
}

/// The distinct addresses around the first `n` characters of `s`: how each is
/// compared, and how it is written where it stands first.
pub open spec fn addresses(s: Seq<char>, n: int) -> Seq<(Seq<char>, Seq<char>)>
    decreases n,
{
    if n <= 0 {
        Seq::empty()
    } else {
        let found = addresses(s, n - 1);
        let address = address_at(s, n - 1);
        let key = lowercase(trimmed(address));
        if s[n - 1] == '@' && address_like(address) && !(exists|i: int|
            0 <= i < found.len() && (#[trigger] found[i]).0 == key) {
            found.push((key, address))
        } else {
            found
        }
    }
}

/// The one address that a text names.
pub open spec fn named_email(s: Seq<char>) -> Option<Seq<char>> {
    let found = addresses(s, s.len() as int);
    if found.len() == 1 {
        Some(found[0].1)
    } else {
        None
    }
}

proof fn lemma_run_start(s: Seq<char>, at: int)
    requires
        0 <= at,
    ensures
        0 <= run_start(s, at) <= at,
    decreases at,
{
    if at > 0 && email_char(s[at - 1]) {
        lemma_run_start(s, at - 1);
    }
}

proof fn lemma_run_end(s: Seq<char>, at: int)
    requires
        at <= s.len(),
    ensures
        at <= run_end(s, at) <= s.len(),
    decreases s.len() - at,
{
    if at < s.len() && email_char(s[at]) {
        lemma_run_end(s, at + 1);
    }
}

fn is_address_punctuation(c: char) -> (r: bool)
    ensures
        r == address_punctuation(c),
{
    c == '.' || c == ',' || c == ';' || c == ':' || c == ')' || c == ']' || c == '}'
}

fn trim_address(s: &[char]) -> (out: &[char])
    ensures
        out@ == bare_address(s@),
{
    let n: usize = s.len();
    let mut start: usize = 0;
    assert(s@.subrange(0, n as int) =~= s@);
    while start < n && is_address_punctuation(s[start])
        invariant
            start <= n == s@.len(),
            bare_address(s@) == bare_address(s@.subrange(start as int, n as int)),
        decreases n - start,
    {
        assert(s@.subrange(start as int, n as int).drop_first() =~= s@.subrange(
            start + 1,
            n as int,
        ));
        start += 1;
    }
    let mut end: usize = n;
    while start < end && is_address_punctuation(s[end - 1])
        invariant
            start <= end <= n == s@.len(),
            start < n ==> !address_punctuation(s@[start as int]),
            bare_address(s@) == bare_address(s@.subrange(start as int, end as int)),
        decreases end,
    {
        assert(s@.subrange(start as int, end as int).drop_last() =~= s@.subrange(
            start as int,
            end - 1,
        ));
        end -= 1;
    }
    slice_subrange(s, start, end)
}

fn is_address_like(s: &[char]) -> (r: bool)
    ensures
        r == address_like(s@),
{
    let at: usize = until_char(s, '@');
    if at == 0 || at >= s.len() {
        return false;
    }
    let domain: &[char] = slice_subrange(s, at + 1, s.len());
    assert(domain@ =~= s@.skip(at + 1));
    if until_char(domain, '@') < domain.len() || until_char(domain, '.') >= domain.len() {
        return false;
    }
    domain[0] != '.' && domain[domain.len() - 1] != '.'
}

fn address_around(s: &[char], at: usize) -> (out: Vec<char>)
    requires
        at < s@.len(),
    ensures
        out@ == address_at(s@, at as int),
{
    let n: usize = s.len();
    let mut start: usize = at;
    while start > 0 && is_email_char(s[start - 1])
        invariant
            start <= at < n == s@.len(),
            run_start(s@, at as int) == run_start(s@, start as int),
        decreases start,
    {
        start -= 1;
    }
    let mut end: usize = at + 1;
    while end < n && is_email_char(s[end])
        invariant
            at < end <= n == s@.len(),
            run_end(s@, at + 1) == run_end(s@, end as int),
        decreases n - end,
    {
        end += 1;
    }
    let run: &[char] = slice_subrange(s, start, end);
    let bare: &[char] = trim_address(run);
    vstd::slice::slice_to_vec(bare)
}

fn has_key(keys: &Vec<String>, key: &str) -> (r: bool)
    ensures
        r == exists|i: int| 0 <= i < keys@.len() && (#[trigger] keys@[i])@ == key@,
{
    let mut i: usize = 0;
    while i < keys.len()
        invariant
            i <= keys@.len(),
            forall|j: int| 0 <= j < i ==> (#[trigger] keys@[j])@ != key@,
        decreases keys@.len() - i,
    {
        if same_text(keys[i].as_str(), key) {
            return true;
        }
        i += 1;
    }
    false
}

/// `named_email`, computed.
pub fn extract_email_like(text: &str) -> (r: Option<String>)
    ensures
        r.deep_view() == named_email(text@),
{
    let chars: Vec<char> = to_chars(text);
    let mut keys: Vec<String> = Vec::new();
    let mut found: Vec<String> = Vec::new();
    let mut i: usize = 0;
    while i < chars.len()
        invariant
            chars@ == text@,
            i <= chars@.len(),
            keys@.len() == found@.len() == addresses(text@, i as int).len(),
            forall|j: int|
                0 <= j < keys@.len() ==> (#[trigger] keys@[j])@ == addresses(text@, i as int)[j].0,
            forall|j: int|
                0 <= j < found@.len() ==> (#[trigger] found@[j])@ == addresses(text@, i as int)[j].1,
        decreases chars@.len() - i,
    {
        let ghost before = addresses(text@, i as int);
        if chars[i] == '@' {
            let address: Vec<char> = address_around(&chars, i);
            if is_address_like(&address) {
                let inner: String = to_text(trim(&address));
                let key: String = to_lowercase(inner.as_str());
                let known: bool = has_key(&keys, key.as_str());
                proof {
                    if known {
                        let j = choose|j: int| 0 <= j < keys@.len() && (#[trigger] keys@[j])@ == key@;
                        assert(before[j].0 == key@);
                    } else {
                        assert forall|j: int| 0 <= j < before.len() implies (#[trigger] before[j]).0
                            != key@ by {
                            assert(keys@[j]@ == before[j].0);
                        }
                    }
                }
                if !known {
                    keys.push(key);
                    found.push(to_text(&address));
                }
            }
        }
        i += 1;
    }
    if found.len() == 1 {
        Some(found[0].clone())
    } else {
        None
    }
}

/// A text that names an account names it once: every address in it is the same
/// but for case.
pub proof fn law_named_email_is_unique(s: Seq<char>, at: int)
    requires
        0 <= at < s.len(),
        s[at] == '@',
        address_like(address_at(s, at)),
        named_email(s) is Some,
    ensures
        lowercase(trimmed(address_at(s, at))) == lowercase(trimmed(named_email(s)->0)),
{
    lemma_addresses_hold(s, s.len() as int, at);
    let found = addresses(s, s.len() as int);
    let i = choose|i: int|
        0 <= i < found.len() && (#[trigger] found[i]).0 == lowercase(trimmed(address_at(s, at)));
    assert(i == 0);
    lemma_addresses_keys(s, s.len() as int);
}

proof fn lemma_addresses_hold(s: Seq<char>, n: int, at: int)
    requires
        0 <= at < n <= s.len(),
        s[at] == '@',
        address_like(address_at(s, at)),
    ensures
        exists|i: int|
            0 <= i < addresses(s, n).len() && (#[trigger] addresses(s, n)[i]).0 == lowercase(
                trimmed(address_at(s, at)),
            ),
    decreases n,
{
    let key = lowercase(trimmed(address_at(s, at)));
    let before = addresses(s, n - 1);
    let after = addresses(s, n);
    if at < n - 1 {
        lemma_addresses_hold(s, n - 1, at);
        let i = choose|i: int| 0 <= i < before.len() && (#[trigger] before[i]).0 == key;
        assert(after[i] == before[i]);
    } else if exists|i: int| 0 <= i < before.len() && (#[trigger] before[i]).0 == key {
        let i = choose|i: int| 0 <= i < before.len() && (#[trigger] before[i]).0 == key;
        assert(after[i].0 == key);
    } else {
        assert(after[before.len() as int].0 == key);
    }
}

proof fn lemma_addresses_keys(s: Seq<char>, n: int)
    ensures
        forall|i: int|
            0 <= i < addresses(s, n).len() ==> (#[trigger] addresses(s, n)[i]).0 == lowercase(
                trimmed(addresses(s, n)[i].1),
            ),
    decreases n,
{
    if n > 0 {
        lemma_addresses_keys(s, n - 1);
        let before = addresses(s, n - 1);
        let after = addresses(s, n);
        assert forall|i: int| 0 <= i < after.len() implies (#[trigger] after[i]).0 == lowercase(
            trimmed(after[i].1),
        ) by {
            if i < before.len() {
                assert(after[i] == before[i]);
            }
        }
    }
}

// ---------------------------------------------------------------------------
// Which account is read
// ---------------------------------------------------------------------------

/// A Latin letter or a digit.
pub open spec fn letter_or_digit(c: char) -> bool {
    'a' <= c <= 'z' || 'A' <= c <= 'Z' || '0' <= c <= '9'
}

/// A character of a name or a domain in an address.
pub open spec fn name_char(c: char) -> bool {
    letter_or_digit(c) || c == '.' || c == '_' || c == '%' || c == '+' || c == '-'
}

/// A name or a domain as an address holds it: it begins and ends with a letter or a
/// digit.
pub open spec fn address_name(s: Seq<char>) -> bool {
    &&& s.len() > 0
    &&& letter_or_digit(s.first())
    &&& letter_or_digit(s.last())
    &&& forall|i: int| 0 <= i < s.len() ==> name_char(#[trigger] s[i])
}

/// An address: a name, an `@`, and a domain with a period in it.
pub open spec fn plain_address(local: Seq<char>, domain: Seq<char>) -> bool {
    address_name(local) && address_name(domain) && domain.contains('.')
}

pub open spec fn all_periods(s: Seq<char>) -> bool {
    forall|i: int| 0 <= i < s.len() ==> #[trigger] s[i] == '.'
}

/// Text before an address that does not run into it.
pub open spec fn ends_apart(s: Seq<char>) -> bool {
    s.len() == 0 || !name_char(s.last()) && s.last() != '@'
}

/// Text after an address that does not run into it.
pub open spec fn begins_apart(s: Seq<char>) -> bool {
    s.len() == 0 || !name_char(s.first()) && s.first() != '@'
}

proof fn lemma_run_start_at(s: Seq<char>, a: int, at: int)
    requires
        0 <= a <= at <= s.len(),
        forall|i: int| a <= i < at ==> email_char(#[trigger] s[i]),
        a == 0 || !email_char(s[a - 1]),
    ensures
        run_start(s, at) == a,
    decreases at,
{
    if at > a {
        lemma_run_start_at(s, a, at - 1);
    }
}

proof fn lemma_run_end_at(s: Seq<char>, at: int, b: int)
    requires
        0 <= at <= b <= s.len(),
        forall|i: int| at <= i < b ==> email_char(#[trigger] s[i]),
        b == s.len() || !email_char(s[b]),
    ensures
        run_end(s, at) == b,
    decreases b - at,
{
    if at < b {
        lemma_run_end_at(s, at + 1, b);
    }
}

proof fn lemma_bare_between(d1: Seq<char>, m: Seq<char>, d2: Seq<char>)
    requires
        all_periods(d1),
        all_periods(d2),
        m.len() > 0,
        !address_punctuation(m.first()),
        !address_punctuation(m.last()),
    ensures
        bare_address(d1 + m + d2) == m,
    decreases d1.len() + d2.len(),
{
    let s = d1 + m + d2;
    if d1.len() > 0 {
        assert(s.first() == d1[0]);
        assert(s.drop_first() =~= d1.drop_first() + m + d2);
        lemma_bare_between(d1.drop_first(), m, d2);
    } else if d2.len() > 0 {
        assert(s.first() == m.first());
        assert(s.last() == d2[d2.len() - 1]);
        assert(s.drop_last() =~= d1 + m + d2.drop_last());
        lemma_bare_between(d1, m, d2.drop_last());
    } else {
        assert(s =~= m);
    }
}

proof fn lemma_until_at(s: Seq<char>, c: char, n: int)
    requires
        0 <= n < s.len(),
        s[n] == c,
        forall|i: int| 0 <= i < n ==> #[trigger] s[i] != c,
    ensures
        until(s, c) == n,
    decreases n,
{
    if n > 0 {
        assert(s.drop_first()[n - 1] == c);
        assert(forall|i: int| 0 <= i < n - 1 ==> #[trigger] s.drop_first()[i] == s[i + 1]);
        lemma_until_at(s.drop_first(), c, n - 1);
    }
}

proof fn lemma_plain_address(local: Seq<char>, domain: Seq<char>)
    requires
        plain_address(local, domain),
    ensures
        address_like(local + seq!['@'] + domain),
        !address_punctuation((local + seq!['@'] + domain).first()),
        !address_punctuation((local + seq!['@'] + domain).last()),
{
    let m = local + seq!['@'] + domain;
    assert(m[local.len() as int] == '@');
    lemma_until_at(m, '@', local.len() as int);
    assert(m.skip(local.len() as int + 1) =~= domain);
    assert(m.first() == local.first());
    assert(m.last() == domain.last());
}

/// The address that stands at the `@` of an address in a text, with or without periods
/// around it.
proof fn lemma_address_at(
    p: Seq<char>,
    d1: Seq<char>,
    local: Seq<char>,
    domain: Seq<char>,
    d2: Seq<char>,
    q: Seq<char>,
)
    requires
        plain_address(local, domain),
        all_periods(d1),
        all_periods(d2),
        ends_apart(p),
        begins_apart(q),
    ensures
        ({
            let m = local + seq!['@'] + domain;
            let s = p + d1 + m + d2 + q;
            let at = p.len() + d1.len() + local.len();
            &&& 0 <= at < s.len()
            &&& s[at as int] == '@'
            &&& address_at(s, at as int) == m
            &&& address_like(m)
        }),
{
    let m = local + seq!['@'] + domain;
    let run = d1 + m + d2;
    let s = p + d1 + m + d2 + q;
    let a = p.len() as int;
    let b = a + run.len();
    let at = a + d1.len() + local.len();
    assert(s =~= p + run + q);
    assert forall|i: int| a <= i < b implies email_char(#[trigger] s[i]) by {
        let j = i - a;
        assert(s[i] == run[j]);
        if j < d1.len() {
            assert(run[j] == d1[j]);
        } else if j < d1.len() + local.len() {
            assert(run[j] == local[j - d1.len()]);
        } else if j == d1.len() + local.len() {
            assert(run[j] == '@');
        } else if j < d1.len() + m.len() {
            assert(run[j] == domain[j - d1.len() - local.len() - 1]);
        } else {
            assert(run[j] == d2[j - d1.len() - m.len()]);
        }
    }
    if a > 0 {
        assert(s[a - 1] == p.last());
    }
    if b < s.len() {
        assert(s[b] == q.first());
    }
    assert(s[at] == run[at - a]);
    lemma_run_start_at(s, a, at);
    lemma_run_end_at(s, at + 1, b);
    assert(s.subrange(a, b) =~= run);
    lemma_plain_address(local, domain);
    lemma_bare_between(d1, m, d2);
}

proof fn lemma_no_addresses(s: Seq<char>, n: int)
    requires
        n <= s.len(),
        forall|i: int| 0 <= i < n ==> #[trigger] s[i] != '@',
    ensures
        addresses(s, n) == Seq::<(Seq<char>, Seq<char>)>::empty(),
    decreases n,
{
    if n > 0 {
        lemma_no_addresses(s, n - 1);
    }
}

proof fn lemma_same_addresses(s: Seq<char>, a: int, b: int)
    requires
        0 <= a <= b <= s.len(),
        forall|i: int| a <= i < b ==> #[trigger] s[i] != '@',
    ensures
        addresses(s, b) == addresses(s, a),
    decreases b - a,
{
    if b > a {
        lemma_same_addresses(s, a, b - 1);
    }
}

/// An address that stands apart in a text, and beside which the text holds no other
/// `@`, is the account that the text names, letter for letter. Its name and its domain
/// may hold Latin letters, digits, periods, underscores, percent signs, plus signs and
/// hyphens; periods around it do not count.
pub proof fn law_lone_address_is_read(
    p: Seq<char>,
    d1: Seq<char>,
    local: Seq<char>,
    domain: Seq<char>,
    d2: Seq<char>,
    q: Seq<char>,
)
    requires
        plain_address(local, domain),
        all_periods(d1),
        all_periods(d2),
        ends_apart(p),
        begins_apart(q),
        !p.contains('@'),
        !q.contains('@'),
    ensures
        named_email(p + d1 + (local + seq!['@'] + domain) + d2 + q) == Some(
            local + seq!['@'] + domain,
        ),
{
    let m = local + seq!['@'] + domain;
    let s = p + d1 + m + d2 + q;
    let at = (p.len() + d1.len() + local.len()) as int;
    lemma_address_at(p, d1, local, domain, d2, q);
    let head = p + d1 + local;
    let tail = domain + d2 + q;
    assert(s =~= head + seq!['@'] + tail);
    assert forall|i: int| 0 <= i < s.len() && i != at implies #[trigger] s[i] != '@' by {
        if i < p.len() {
            assert(s[i] == p[i]);
        } else if i < p.len() + d1.len() {
            assert(s[i] == d1[i - p.len()]);
        } else if i < at {
            assert(s[i] == local[i - p.len() - d1.len()]);
        } else if i < at + 1 + domain.len() {
            assert(s[i] == domain[i - at - 1]);
        } else if i < at + 1 + domain.len() + d2.len() {
            assert(s[i] == d2[i - at - 1 - domain.len()]);
        } else {
            assert(s[i] == q[i - at - 1 - domain.len() - d2.len()]);
        }
    }
    lemma_no_addresses(s, at);
    lemma_same_addresses(s, at + 1, s.len() as int);
    assert(addresses(s, at + 1) =~= seq![(lowercase(trimmed(m)), m)]);
}

/// A text without an `@` names no account.
pub proof fn law_no_at_sign_no_account(s: Seq<char>)
    requires
        !s.contains('@'),
    ensures
        named_email(s) is None,
{
    assert forall|i: int| 0 <= i < s.len() implies #[trigger] s[i] != '@' by {
        if s[i] == '@' {
            assert(s.contains('@'));
        }
    }
    lemma_no_addresses(s, s.len() as int);
}

/// A text that holds two addresses which differ in more than their case names no
/// account, whatever else stands in it.
pub proof fn law_two_accounts_name_none(
    p: Seq<char>,
    local1: Seq<char>,
    domain1: Seq<char>,
    mid: Seq<char>,
    local2: Seq<char>,
    domain2: Seq<char>,
    q: Seq<char>,
)
    requires
        plain_address(local1, domain1),
        plain_address(local2, domain2),
        lowercase(local1 + seq!['@'] + domain1) != lowercase(local2 + seq!['@'] + domain2),
        ends_apart(p),
        mid.len() > 0,
        begins_apart(mid),
        ends_apart(mid),
        begins_apart(q),
    ensures
        named_email(
            p + (local1 + seq!['@'] + domain1) + mid + (local2 + seq!['@'] + domain2) + q,
        ) is None,
{
    let m1 = local1 + seq!['@'] + domain1;
    let m2 = local2 + seq!['@'] + domain2;
    let s = p + m1 + mid + m2 + q;
    let none = Seq::<char>::empty();
    let rest = mid + m2 + q;
    let head = p + m1 + mid;
    assert(rest.first() == mid.first());
    assert(head.last() == mid.last());
    lemma_address_at(p, none, local1, domain1, none, rest);
    assert(s =~= p + none + m1 + none + rest);
    lemma_address_at(head, none, local2, domain2, none, q);
    assert(s =~= head + none + m2 + none + q);
    lemma_plain_address_is_trimmed(local1, domain1);
    lemma_plain_address_is_trimmed(local2, domain2);
    let one = p.len() + none.len() + local1.len();
    let other = head.len() + none.len() + local2.len();
    if named_email(s) is Some {
        law_named_email_is_unique(s, one as int);
        law_named_email_is_unique(s, other as int);
    }
}

proof fn lemma_plain_address_is_trimmed(local: Seq<char>, domain: Seq<char>)
    requires
        plain_address(local, domain),
    ensures
        trimmed(local + seq!['@'] + domain) == local + seq!['@'] + domain,
{
    let m = local + seq!['@'] + domain;
    assert(m.first() == local.first());
    assert(m.last() == domain.last());
}

/// A text that holds one address several times over, and no other `@`, names it.
pub proof fn law_repeated_address_is_read(
    p: Seq<char>,
    local: Seq<char>,
    domain: Seq<char>,
    mid: Seq<char>,
    q: Seq<char>,
)
    requires
        plain_address(local, domain),
        ends_apart(p),
        mid.len() > 0,
        begins_apart(mid),
        ends_apart(mid),
        begins_apart(q),
        !p.contains('@'),
        !mid.contains('@'),
        !q.contains('@'),
    ensures
        named_email(
            p + (local + seq!['@'] + domain) + mid + (local + seq!['@'] + domain) + q,
        ) == Some(local + seq!['@'] + domain),
{
    let m = local + seq!['@'] + domain;
    let s = p + m + mid + m + q;
    let none = Seq::<char>::empty();
    let rest = mid + m + q;
    let head = p + m + mid;
    assert(rest.first() == mid.first());
    assert(head.last() == mid.last());
    lemma_address_at(p, none, local, domain, none, rest);
    assert(s =~= p + none + m + none + rest);
    lemma_address_at(head, none, local, domain, none, q);
    assert(s =~= head + none + m + none + q);
    let one = (p.len() + local.len()) as int;
    let other = (head.len() + local.len()) as int;
    assert forall|i: int| 0 <= i < s.len() && i != one && i != other implies #[trigger] s[i]
        != '@' by {
        if i < p.len() {
            assert(s[i] == p[i]);
        } else if i < one {
            assert(s[i] == local[i - p.len()]);
        } else if i < p.len() + m.len() {
            assert(s[i] == domain[i - one - 1]);
        } else if i < head.len() {
            assert(s[i] == mid[i - p.len() - m.len()]);
        } else if i < other {
            assert(s[i] == local[i - head.len()]);
        } else if i < head.len() + m.len() {
            assert(s[i] == domain[i - other - 1]);
        } else {
            assert(s[i] == q[i - head.len() - m.len()]);
        }
    }
    let key = lowercase(trimmed(m));
    lemma_no_addresses(s, one);
    assert(addresses(s, one + 1) =~= seq![(key, m)]);
    lemma_same_addresses(s, one + 1, other);
    let found = addresses(s, other);
    assert(found[0].0 == key);
    assert(addresses(s, other + 1) == found);
    lemma_same_addresses(s, other + 1, s.len() as int);
}

} // verus!
