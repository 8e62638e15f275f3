//! What became of a prompt after it was submitted: still there, replaced, turned
//! into a session, or gone with the application.

#[allow(unused_imports)]
use crate::ax_tree::hidden_at;
#[allow(unused_imports)]
use crate::inspection::{names_one_window, InspectionView, WindowTitleView};
use crate::inspection::{window_title_binding_is_unique, MacosInspection, MacosWindowTitle};
use crate::live::{belongs_to_process, LiveState};
#[allow(unused_imports)]
use crate::live::{process_at, LiveView};
use crate::prompt::MacosPrompt;
#[allow(unused_imports)]
use crate::prompt::PromptView;
use crate::prompt_scan::{contains_id, text_ref, visible_direct_sheets};
#[allow(unused_imports)]
use crate::prompt_scan::shown_sheets;
#[allow(unused_imports)]
use crate::prompt_text::same_username;
use crate::prompt_text::{usernames_match, PromptOrigin};
use crate::submit::MacosSubmittedPrompt;
#[allow(unused_imports)]
use crate::submit::SubmittedView;
#[allow(unused_imports)]
use crate::text::{same_ascii, trimmed};
use crate::text::{same_text, trimmed_eq_ignore_ascii_case};
#[allow(unused_imports)]
use crate::waiting::elapsed;
use crate::waiting::{elapsed_since, POST_SUBMIT_POLL_MS, POST_SUBMIT_REQUIRED_ABSENCE_DWELL_MS};
use vstd::prelude::*;

verus! {

pub const STILL_PROMPT: &'static str = "still_prompt";

pub const PROMPT_MISMATCH: &'static str = "prompt_mismatch";

pub const PROMPT_AMBIGUOUS: &'static str = "prompt_ambiguous";

pub const PROMPT_GONE_UNKNOWN: &'static str = "prompt_gone_unknown";

pub const AUTHENTICATED: &'static str = "authenticated";

pub const FAILED: &'static str = "failed";

/// No two outcomes have the same name.
proof fn lemma_outcomes_differ()
    ensures
        STILL_PROMPT@.len() == 12,
        PROMPT_MISMATCH@.len() == 15,
        PROMPT_AMBIGUOUS@.len() == 16,
        PROMPT_GONE_UNKNOWN@.len() == 19,
        AUTHENTICATED@.len() == 13,
        FAILED@.len() == 6,
{
    reveal_strlit("still_prompt");
    reveal_strlit("prompt_mismatch");
    reveal_strlit("prompt_ambiguous");
    reveal_strlit("prompt_gone_unknown");
    reveal_strlit("authenticated");
    reveal_strlit("failed");
}

// ---------------------------------------------------------------------------
// The absence of the prompt
// ---------------------------------------------------------------------------

/// Since when the prompt is absent, after one more look: from the first of the
/// looks without a break that all found it absent.
pub open spec fn absent_since(previous: Option<u64>, present: Option<bool>, now: u64) -> Option<
    u64,
> {
    match present {
        Some(false) => match previous {
            Some(since) => Some(since),
            None => Some(now),
        },
        _ => None,
    }
}

/// `absent_since`, computed.
pub fn next_prompt_absence_since(
    previous: Option<u64>,
    prompt_is_present: Option<bool>,
    observed_at: u64,
) -> (out: Option<u64>)
    ensures
        out == absent_since(previous, prompt_is_present, observed_at),
{
    match prompt_is_present {
        Some(false) => match previous {
            Some(since) => Some(since),
            None => Some(observed_at),
        },
        _ => None,
    }
}

/// The prompt has been absent long enough.
pub open spec fn dwelt(since: Option<u64>, now: u64, required: u64) -> bool {
    since matches Some(since) && elapsed(since, now) >= required
}

/// `dwelt`, computed.
pub fn prompt_absence_dwell_confirmed(
    absent_since: Option<u64>,
    observed_at: u64,
    required_dwell: u64,
) -> (r: bool)
    ensures
        r == dwelt(absent_since, observed_at, required_dwell),
{
    match absent_since {
        Some(since) => elapsed_since(since, observed_at) >= required_dwell,
        None => false,
    }
}

/// Whether the submitted sheet is there. Another sheet in its place says nothing.
pub open spec fn sheet_presence(submitted_visible: bool, sheets: int) -> Option<bool> {
    if submitted_visible {
        Some(true)
    } else if sheets == 0 {
        Some(false)
    } else {
        None
    }
}

/// `sheet_presence`, computed.
pub fn submitted_sheet_presence(
    submitted_sheet_visible: bool,
    visible_direct_sheet_count: usize,
) -> (out: Option<bool>)
    ensures
        out == sheet_presence(submitted_sheet_visible, visible_direct_sheet_count as int),
{
    if submitted_sheet_visible {
        Some(true)
    } else if visible_direct_sheet_count == 0 {
        Some(false)
    } else {
        None
    }
}

/// Whether the submitted prompt is there, whatever it says now.
pub open spec fn presence(live: LiveView, s: SubmittedView) -> Option<bool> {
    if process_at(live.nodes, s.target_window) != Some(s.process_id) || process_at(
        live.nodes,
        s.prompt_container,
    ) != Some(s.process_id) {
        None
    } else {
        match live.windows {
            None => None,
            Some(windows) => match s.origin {
                PromptOrigin::Sheet => if !windows.contains(s.target_window) {
                    Some(false)
                } else {
                    match shown_sheets(live.nodes, s.target_window) {
                        Err(_) => None,
                        Ok(sheets) => sheet_presence(
                            sheets.contains(s.prompt_container),
                            sheets.len() as int,
                        ),
                    }
                },
                PromptOrigin::Window => Some(
                    windows.contains(s.prompt_container) && !hidden_at(
                        live.nodes,
                        s.prompt_container,
                    ),
                ),
            },
        }
    }
}

/// `presence`, computed.
pub fn submitted_prompt_presence(live: &LiveState, submitted_prompt: &MacosSubmittedPrompt) -> (out:
    Option<bool>)
    ensures
        out == presence(live.deep_view(), submitted_prompt.deep_view()),
{
    let s: &MacosSubmittedPrompt = submitted_prompt;
    if !belongs_to_process(&live.tree, s.target_window, s.process_id) || !belongs_to_process(
        &live.tree,
        s.prompt_container,
        s.process_id,
    ) {
        return None;
    }
    let windows: &Vec<u64> = match &live.windows {
        Some(windows) => windows,
        None => {
            return None;
        },
    };
    match s.origin {
        PromptOrigin::Sheet => {
            if !contains_id(windows, s.target_window) {
                return Some(false);
            }
            match visible_direct_sheets(&live.tree, s.target_window) {
                Ok(sheets) => submitted_sheet_presence(
                    contains_id(&sheets, s.prompt_container),
                    sheets.len(),
                ),
                Err(_) => None,
            }
        },
        PromptOrigin::Window => Some(
            contains_id(windows, s.prompt_container) && !live.tree.is_hidden(s.prompt_container),
        ),
    }
}

// ---------------------------------------------------------------------------
// The prompts that are shown
// ---------------------------------------------------------------------------

/// The process, window title and account of a prompt.
pub type Identity = (i32, Seq<char>, Option<Seq<char>>);

pub open spec fn of_window(i: Identity, process_id: i32, title: Seq<char>) -> bool {
    i.0 == process_id && same_ascii(trimmed(i.1), trimmed(title))
}

pub open spec fn of_account(
    i: Identity,
    process_id: i32,
    title: Seq<char>,
    email: Seq<char>,
) -> bool {
    of_window(i, process_id, title) && i.2 is Some && same_username(i.2->0, email)
}

/// How many of the prompts are of the process, of the window, and of the account.
pub open spec fn tally(
    ps: Seq<Identity>,
    process_id: i32,
    title: Seq<char>,
    email: Seq<char>,
) -> (int, int, int)
    decreases ps.len(),
{
    if ps.len() == 0 {
        (0, 0, 0)
    } else {
        let (a, b, c) = tally(ps.drop_last(), process_id, title, email);
        (
            a + if ps.last().0 == process_id {
                1int
            } else {
                0int
            },
            b + if of_window(ps.last(), process_id, title) {
                1int
            } else {
                0int
            },
            c + if of_account(ps.last(), process_id, title, email) {
                1int
            } else {
                0int
            },
        )
    }
}

/// What the prompts that are shown say of the submitted one; `None` where the
/// process shows none.
pub open spec fn prompts_say(
    ps: Seq<Identity>,
    process_id: i32,
    title: Seq<char>,
    email: Seq<char>,
    title_is_unique: bool,
) -> Option<Seq<char>> {
    let (of_process, of_window, of_account) = tally(ps, process_id, title, email);
    if of_process == 0 {
        None
    } else if of_window != of_process {
        Some(
            if of_process == 1 {
                PROMPT_MISMATCH@
            } else {
                PROMPT_AMBIGUOUS@
            },
        )
    } else if !title_is_unique {
        Some(PROMPT_AMBIGUOUS@)
    } else if of_account == 0 {
        Some(PROMPT_MISMATCH@)
    } else if of_account == 1 && of_window == 1 {
        Some(STILL_PROMPT@)
    } else {
        Some(PROMPT_AMBIGUOUS@)
    }
}

pub open spec fn identity_of(p: (i32, &str, Option<&str>)) -> Identity {
    (p.0, p.1@, p.2.deep_view())
}

pub open spec fn identities_of(ps: Seq<(i32, &str, Option<&str>)>) -> Seq<Identity> {
    ps.map_values(|p: (i32, &str, Option<&str>)| identity_of(p))
}

proof fn lemma_tally_bounds(
    ps: Seq<Identity>,
    process_id: i32,
    title: Seq<char>,
    email: Seq<char>,
)
    ensures
        0 <= tally(ps, process_id, title, email).2 <= tally(ps, process_id, title, email).1
            <= tally(ps, process_id, title, email).0 <= ps.len(),
    decreases ps.len(),
{
    if ps.len() > 0 {
        lemma_tally_bounds(ps.drop_last(), process_id, title, email);
    }
}

/// `prompts_say`, computed.
pub fn classify_post_submit_prompt_identities(
    prompts: &[(i32, &str, Option<&str>)],
    expected_process_id: i32,
    expected_window_title: &str,
    expected_email: &str,
    expected_window_title_is_unique: bool,
) -> (out: Option<&'static str>)
    ensures
        out.deep_view() == prompts_say(
            identities_of(prompts@),
            expected_process_id,
            expected_window_title@,
            expected_email@,
            expected_window_title_is_unique,
        ),
{
    let ghost ps = identities_of(prompts@);
    let mut of_process: usize = 0;
    let mut of_window: usize = 0;
    let mut of_account: usize = 0;
    let mut i: usize = 0;
    assert(ps.take(0) =~= Seq::<Identity>::empty());
    while i < prompts.len()
        invariant
            i <= prompts@.len(),
            ps == identities_of(prompts@),
            (of_process as int, of_window as int, of_account as int) == tally(
                ps.take(i as int),
                expected_process_id,
                expected_window_title@,
                expected_email@,
            ),
        decreases prompts@.len() - i,
    {
        proof {
            assert(ps.take(i + 1).drop_last() =~= ps.take(i as int));
            assert(ps.take(i + 1).last() == identity_of(prompts@[i as int]));
            lemma_tally_bounds(
                ps.take(i as int),
                expected_process_id,
                expected_window_title@,
                expected_email@,
            );
        }
        let (process_id, title, email): (i32, &str, Option<&str>) = prompts[i];
        if process_id == expected_process_id {
            of_process += 1;
            if trimmed_eq_ignore_ascii_case(title, expected_window_title) {
                of_window += 1;
                let named: bool = match email {
                    Some(email) => usernames_match(email, expected_email),
                    None => false,
                };
                if named {
                    of_account += 1;
                }
            }
        }
        i += 1;
    }
    assert(ps.take(ps.len() as int) =~= ps);
    if of_process == 0 {
        return None;
    }
    if of_window != of_process {
        return Some(
            if of_process == 1 {
                PROMPT_MISMATCH
            } else {
                PROMPT_AMBIGUOUS
            },
        );
    }
    if !expected_window_title_is_unique {
        return Some(PROMPT_AMBIGUOUS);
    }
    if of_account == 0 {
        Some(PROMPT_MISMATCH)
    } else if of_account == 1 && of_window == 1 {
        Some(STILL_PROMPT)
    } else {
        Some(PROMPT_AMBIGUOUS)
    }
}

pub open spec fn prompt_identity(p: PromptView) -> Identity {
    (p.target.process_id, p.target.window_title, p.email)
}

/// What the prompts of a look say of the submitted one.
pub open spec fn candidates_say(
    prompts: Seq<PromptView>,
    windows: Seq<WindowTitleView>,
    process_id: i32,
    title: Seq<char>,
    email: Seq<char>,
) -> Option<Seq<char>> {
    prompts_say(
        prompts.map_values(|p: PromptView| prompt_identity(p)),
        process_id,
        title,
        email,
        names_one_window(windows, process_id, title),
    )
}

/// `candidates_say`, computed.
pub fn classify_post_submit_prompt_candidates(
    prompts: &Vec<MacosPrompt>,
    window_titles: &Vec<MacosWindowTitle>,
    expected_process_id: i32,
    expected_window_title: &str,
    expected_email: &str,
) -> (out: Option<&'static str>)
    ensures
        out.deep_view() == candidates_say(
            prompts.deep_view(),
            window_titles.deep_view(),
            expected_process_id,
            expected_window_title@,
            expected_email@,
        ),
{
    let ghost all = prompts.deep_view();
    let mut triples: Vec<(i32, &str, Option<&str>)> = Vec::new();
    let mut i: usize = 0;
    while i < prompts.len()
        invariant
            i <= prompts@.len(),
            all == prompts.deep_view(),
            triples@.len() == i,
            forall|j: int|
                0 <= j < i ==> identity_of(#[trigger] triples@[j]) == prompt_identity(all[j]),
        decreases prompts@.len() - i,
    {
        triples.push(
            (
                prompts[i].target.process_id,
                prompts[i].target.window_title.as_str(),
                text_ref(&prompts[i].email),
            ),
        );
        i += 1;
    }
    assert(identities_of(triples@) =~= all.map_values(|p: PromptView| prompt_identity(p)));
    classify_post_submit_prompt_identities(
        &triples,
        expected_process_id,
        expected_window_title,
        expected_email,
        window_title_binding_is_unique(window_titles, expected_process_id, expected_window_title),
    )
}

// ---------------------------------------------------------------------------
// The session that a sheet turned into
// ---------------------------------------------------------------------------

/// The window that the prompt hung on is the one target in front.
pub open spec fn parent_in_front(
    target_process_id: i32,
    target_title: Seq<char>,
    target_frontmost: bool,
    submitted_process_id: i32,
    submitted_title: Seq<char>,
    submitted_title_is_unique: bool,
) -> bool {
    &&& target_frontmost
    &&& submitted_title_is_unique
    &&& target_process_id == submitted_process_id
    &&& same_ascii(trimmed(target_title), trimmed(submitted_title))
}

/// `parent_in_front`, computed.
pub fn submitted_parent_target_identity_is_unique_foreground(
    target_process_id: i32,
    target_window_title: &str,
    target_frontmost: bool,
    submitted_process_id: i32,
    submitted_window_title: &str,
    submitted_window_title_is_unique: bool,
) -> (r: bool)
    ensures
        r == parent_in_front(
            target_process_id,
            target_window_title@,
            target_frontmost,
            submitted_process_id,
            submitted_window_title@,
            submitted_window_title_is_unique,
        ),
{
    target_frontmost && submitted_window_title_is_unique && target_process_id
        == submitted_process_id && trimmed_eq_ignore_ascii_case(
        target_window_title,
        submitted_window_title,
    )
}

/// A session in the window that the submitted sheet hung on.
pub open spec fn session_of_sheet(
    origin: PromptOrigin,
    submitted_process_id: i32,
    session_process_id: i32,
    submitted_title: Seq<char>,
    session_title: Seq<char>,
    same_window: bool,
    parent_in_front: bool,
) -> bool {
    &&& origin == PromptOrigin::Sheet
    &&& parent_in_front
    &&& session_process_id == submitted_process_id
    &&& same_ascii(trimmed(session_title), trimmed(submitted_title))
    &&& same_window
}

/// `session_of_sheet`, computed.
pub fn submitted_sheet_session_identity_matches(
    origin: PromptOrigin,
    submitted_process_id: i32,
    session_process_id: i32,
    submitted_window_title: &str,
    session_window_title: &str,
    same_target_window: bool,
    submitted_parent_is_unique_foreground: bool,
) -> (r: bool)
    ensures
        r == session_of_sheet(
            origin,
            submitted_process_id,
            session_process_id,
            submitted_window_title@,
            session_window_title@,
            same_target_window,
            submitted_parent_is_unique_foreground,
        ),
{
    origin == PromptOrigin::Sheet && submitted_parent_is_unique_foreground && session_process_id
        == submitted_process_id && trimmed_eq_ignore_ascii_case(
        session_window_title,
        submitted_window_title,
    ) && same_target_window
}

/// Whether a session window is the one that the prompt hung on.
pub open spec fn is_session_of(
    s: SubmittedView,
    session: WindowTitleView,
    parent_in_front: bool,
) -> bool {
    session_of_sheet(
        s.origin,
        s.process_id,
        session.process_id,
        s.window_title,
        session.title,
        session.window == Some(s.target_window),
        parent_in_front,
    )
}

/// `is_session_of`, computed.
pub fn submitted_prompt_matches_session_window(
    submitted_prompt: &MacosSubmittedPrompt,
    session: &MacosWindowTitle,
    submitted_parent_is_unique_foreground: bool,
) -> (r: bool)
    ensures
        r == is_session_of(
            submitted_prompt.deep_view(),
            session.deep_view(),
            submitted_parent_is_unique_foreground,
        ),
{
    let same_window: bool = match session.window {
        Some(window) => window == submitted_prompt.target_window,
        None => false,
    };
    submitted_sheet_session_identity_matches(
        submitted_prompt.origin,
        submitted_prompt.process_id,
        session.process_id,
        submitted_prompt.window_title.as_str(),
        session.title.as_str(),
        same_window,
        submitted_parent_is_unique_foreground,
    )
}

/// The window that the prompt hung on is the target of the look, alone and in
/// front.
pub open spec fn parent_is_target(i: InspectionView, s: SubmittedView) -> bool {
    i.target matches Some(target) && parent_in_front(
        target.process_id,
        target.window_title,
        target.frontmost,
        s.process_id,
        s.window_title,
        names_one_window(i.window_titles, s.process_id, s.window_title),
    )
}

/// `parent_is_target`, computed.
pub fn submitted_parent_is_unique_foreground_target(
    inspection: &MacosInspection,
    submitted_prompt: &MacosSubmittedPrompt,
) -> (r: bool)
    ensures
        r == parent_is_target(inspection.deep_view(), submitted_prompt.deep_view()),
{
    match &inspection.target {
        Some(target) => submitted_parent_target_identity_is_unique_foreground(
            target.process_id,
            target.window_title.as_str(),
            target.frontmost,
            submitted_prompt.process_id,
            submitted_prompt.window_title.as_str(),
            window_title_binding_is_unique(
                &inspection.window_titles,
                submitted_prompt.process_id,
                submitted_prompt.window_title.as_str(),
            ),
        ),
        None => false,
    }
}

pub open spec fn submitted_for(s: SubmittedView, process_id: i32, email: Seq<char>) -> bool {
    s.process_id == process_id && same_username(s.email, email)
}

/// `submitted_for`, computed.
pub fn submitted_prompt_matches_expected(
    submitted_prompt: &MacosSubmittedPrompt,
    expected_process_id: i32,
    expected_email: &str,
) -> (r: bool)
    ensures
        r == submitted_for(submitted_prompt.deep_view(), expected_process_id, expected_email@),
{
    submitted_prompt.process_id == expected_process_id && usernames_match(
        submitted_prompt.email.as_str(),
        expected_email,
    )
}

/// One of the sessions is that of the submitted prompt.
pub open spec fn has_session_of(i: InspectionView, s: SubmittedView, process_id: i32) -> bool {
    exists|j: int|
        0 <= j < i.session_windows.len() && (#[trigger] i.session_windows[j]).process_id
            == process_id && is_session_of(s, i.session_windows[j], parent_is_target(i, s))
}

/// The submitted prompt turned into a session: it is confirmed gone, its window is
/// the one in front, and that window is a session of the expected process.
pub open spec fn turned_into_session(
    i: InspectionView,
    s: Option<SubmittedView>,
    process_id: i32,
    email: Seq<char>,
    gone: bool,
) -> bool {
    s matches Some(s) && gone && parent_is_target(i, s) && submitted_for(s, process_id, email)
        && has_session_of(i, s, process_id)
}

// ---------------------------------------------------------------------------
// The outcome
// ---------------------------------------------------------------------------

/// The outcome by one prompt, the process and its session.
pub open spec fn state_of(
    prompt_email: Option<Seq<char>>,
    running: bool,
    has_session: bool,
    email: Seq<char>,
) -> Option<Seq<char>> {
    match prompt_email {
        Some(prompt_email) => Some(
            if same_username(prompt_email, email) {
                STILL_PROMPT@
            } else {
                PROMPT_MISMATCH@
            },
        ),
        None => if !running {
            Some(FAILED@)
        } else if has_session {
            Some(AUTHENTICATED@)
        } else {
            None
        },
    }
}

/// `state_of`, computed.
pub fn classify_post_submit_state(
    prompt_email: Option<&str>,
    target_running: bool,
    has_session_for_expected_process: bool,
    expected_email: &str,
) -> (out: Option<&'static str>)
    ensures
        out.deep_view() == state_of(
            prompt_email.deep_view(),
            target_running,
            has_session_for_expected_process,
            expected_email@,
        ),
{
    if let Some(prompt_email) = prompt_email {
        return Some(
            if usernames_match(prompt_email, expected_email) {
                STILL_PROMPT
            } else {
                PROMPT_MISMATCH
            },
        );
    }
    if !target_running {
        return Some(FAILED);
    }
    if has_session_for_expected_process {
        return Some(AUTHENTICATED);
    }
    None
}

/// The outcome by one look.
pub open spec fn look_says(
    i: InspectionView,
    process_id: i32,
    title: Seq<char>,
    email: Seq<char>,
    s: Option<SubmittedView>,
    gone: bool,
) -> Option<Seq<char>> {
    match candidates_say(i.prompts, i.window_titles, process_id, title, email) {
        Some(state) => Some(state),
        None => state_of(
            None,
            i.process_found,
            turned_into_session(i, s, process_id, email, gone),
            email,
        ),
    }
}

fn any_session_of(
    inspection: &MacosInspection,
    submitted: &MacosSubmittedPrompt,
    process_id: i32,
    parent_in_front: bool,
) -> (r: bool)
    requires
        parent_in_front == parent_is_target(inspection.deep_view(), submitted.deep_view()),
    ensures
        r == has_session_of(inspection.deep_view(), submitted.deep_view(), process_id),
{
    let ghost sessions = inspection.deep_view().session_windows;
    let mut i: usize = 0;
    while i < inspection.session_windows.len()
        invariant
            i <= inspection.session_windows@.len(),
            sessions == inspection.deep_view().session_windows,
            parent_in_front == parent_is_target(inspection.deep_view(), submitted.deep_view()),
            forall|j: int|
                0 <= j < i && (#[trigger] sessions[j]).process_id == process_id ==> !is_session_of(
                    submitted.deep_view(),
                    sessions[j],
                    parent_in_front,
                ),
        decreases inspection.session_windows@.len() - i,
    {
        let session: &MacosWindowTitle = &inspection.session_windows[i];
        assert(sessions[i as int] == session.deep_view());
        if session.process_id == process_id && submitted_prompt_matches_session_window(
            submitted,
            session,
            parent_in_front,
        ) {
            return true;
        }
        i += 1;
    }
    false
}

/// `look_says`, computed.
pub fn classify_post_submit_inspection(
    inspection: &MacosInspection,
    expected_process_id: i32,
    expected_window_title: &str,
    expected_email: &str,
    submitted_prompt: Option<&MacosSubmittedPrompt>,
    submitted_prompt_disappearance_confirmed: bool,
) -> (out: Option<&'static str>)
    ensures
        out.deep_view() == look_says(
            inspection.deep_view(),
            expected_process_id,
            expected_window_title@,
            expected_email@,
            submitted_prompt.deep_view(),
            submitted_prompt_disappearance_confirmed,
        ),
{
    let has_session: bool = match submitted_prompt {
        Some(submitted) => {
            let in_front: bool = submitted_parent_is_unique_foreground_target(
                inspection,
                submitted,
            );
            submitted_prompt_disappearance_confirmed && in_front
                && submitted_prompt_matches_expected(
                submitted,
                expected_process_id,
                expected_email,
            ) && any_session_of(inspection, submitted, expected_process_id, in_front)
        },
        None => false,
    };
    if let Some(state) = classify_post_submit_prompt_candidates(
        &inspection.prompts,
        &inspection.window_titles,
        expected_process_id,
        expected_window_title,
        expected_email,
    ) {
        return Some(state);
    }
    classify_post_submit_state(None, inspection.process_found, has_session, expected_email)
}

/// Whether the state of a visible prompt ends the check. The prompt that was
/// submitted may stay for a moment.
pub open spec fn ends_check(state: Seq<char>, submitted_known: bool) -> bool {
    state != STILL_PROMPT@ || !submitted_known
}

/// `ends_check`, computed.
pub fn post_submit_prompt_state_is_terminal_during_poll(
    prompt_state: &str,
    submitted_prompt_available: bool,
) -> (r: bool)
    ensures
        r == ends_check(prompt_state@, submitted_prompt_available),
{
    !same_text(prompt_state, STILL_PROMPT) || !submitted_prompt_available
}

/// What to do after a look.
#[derive(Debug, Clone, Copy)]
pub enum PostStep {
    Done(&'static str),
    Sleep(u64),
}

pub enum PostStepView {
    Done(Seq<char>),
    Sleep(u64),
}

impl DeepView for PostStep {
    type V = PostStepView;

    open spec fn deep_view(&self) -> PostStepView {
        match self {
            PostStep::Done(state) => PostStepView::Done(state@),
            PostStep::Sleep(ms) => PostStepView::Sleep(*ms),
        }
    }
}

/// A check of what became of a prompt.
pub struct PostCheck {
    pub process_id: i32,
    pub window_title: String,
    pub email: String,
    pub submitted: Option<MacosSubmittedPrompt>,
    pub started: u64,
    pub timeout: u64,
    pub absent_since: Option<u64>,
    pub last_visible: Option<&'static str>,
}

#[verifier::ext_equal]
pub struct PostView {
    pub process_id: i32,
    pub window_title: Seq<char>,
    pub email: Seq<char>,
    pub submitted: Option<SubmittedView>,
    pub started: u64,
    pub timeout: u64,
    pub absent_since: Option<u64>,
    pub last_visible: Option<Seq<char>>,
}

impl DeepView for PostCheck {
    type V = PostView;

    open spec fn deep_view(&self) -> PostView {
        PostView {
            process_id: self.process_id,
            window_title: self.window_title@,
            email: self.email@,
            submitted: self.submitted.deep_view(),
            started: self.started,
            timeout: self.timeout,
            absent_since: self.absent_since,
            last_visible: self.last_visible.deep_view(),
        }
    }
}

/// A look: what was found, or nothing where it failed; and whether the submitted
/// prompt is there.
pub struct PostLook {
    pub inspection: Option<InspectionView>,
    pub present: Option<bool>,
    pub now: u64,
}

/// Since when the prompt is absent, after a look. A look that failed breaks the
/// absence.
pub open spec fn absence_after(c: PostView, look: PostLook) -> Option<u64> {
    match look.inspection {
        Some(_) => absent_since(
            c.absent_since,
            if c.submitted is Some {
                look.present
            } else {
                None
            },
            look.now,
        ),
        None => None,
    }
}

/// What a look says of the submitted prompt.
pub open spec fn check_says(c: PostView, look: PostLook) -> Option<Seq<char>> {
    match look.inspection {
        Some(i) => look_says(
            i,
            c.process_id,
            c.window_title,
            c.email,
            c.submitted,
            dwelt(absence_after(c, look), look.now, POST_SUBMIT_REQUIRED_ABSENCE_DWELL_MS),
        ),
        None => None,
    }
}

pub open spec fn or_unknown(state: Option<Seq<char>>) -> Seq<char> {
    match state {
        Some(state) => state,
        None => PROMPT_GONE_UNKNOWN@,
    }
}

/// The outcome that a look settles.
pub open spec fn settled(c: PostView, look: PostLook) -> Option<Seq<char>> {
    match look.inspection {
        Some(i) => {
            let says = check_says(c, look);
            if i.prompt is Some {
                if ends_check(or_unknown(says), c.submitted is Some) {
                    Some(or_unknown(says))
                } else {
                    None
                }
            } else {
                says
            }
        },
        None => None,
    }
}

/// The check after a look.
pub open spec fn after_post_look(c: PostView, look: PostLook) -> PostView {
    PostView {
        absent_since: absence_after(c, look),
        last_visible: match look.inspection {
            Some(i) => if i.prompt is Some && settled(c, look) is None {
                Some(or_unknown(check_says(c, look)))
            } else {
                c.last_visible
            },
            None => c.last_visible,
        },
        ..c
    }
}

/// What to do after a look.
pub open spec fn post_step(c: PostView, look: PostLook) -> PostStepView {
    match settled(c, look) {
        Some(state) => PostStepView::Done(state),
        None => if elapsed(c.started, look.now) >= c.timeout {
            PostStepView::Done(or_unknown(after_post_look(c, look).last_visible))
        } else {
            PostStepView::Sleep(POST_SUBMIT_POLL_MS)
        },
    }
}

impl PostCheck {
    /// A check that starts now.
    pub fn post_check_state(
        expected_process_id: i32,
        expected_window_title: &str,
        expected_email: &str,
        submitted: Option<MacosSubmittedPrompt>,
        timeout: u64,
        now: u64,
    ) -> (out: Self)
        ensures
            out.deep_view() == (PostView {
                process_id: expected_process_id,
                window_title: expected_window_title@,
                email: expected_email@,
                submitted: submitted.deep_view(),
                started: now,
                timeout,
                absent_since: None,
                last_visible: None,
            }),
    {
        PostCheck {
            process_id: expected_process_id,
            window_title: expected_window_title.to_owned(),
            email: expected_email.to_owned(),
            submitted,
            started: now,
            timeout,
            absent_since: None,
            last_visible: None,
        }
    }

    fn submitted_ref(&self) -> (out: Option<&MacosSubmittedPrompt>)
        ensures
            out.deep_view() == self.deep_view().submitted,
    {
        match &self.submitted {
            Some(submitted) => Some(submitted),
            None => None,
        }
    }

    /// One look at the application; `None` where the look failed. `present` is
    /// what `submitted_prompt_presence` says.
    pub fn on_look(
        &mut self,
        inspection: Option<&MacosInspection>,
        present: Option<bool>,
        now: u64,
    ) -> (out: PostStep)
        ensures
            final(self).deep_view() == after_post_look(
                old(self).deep_view(),
                (PostLook { inspection: inspection.deep_view(), present, now }),
            ),
            out.deep_view() == post_step(
                old(self).deep_view(),
                (PostLook { inspection: inspection.deep_view(), present, now }),
            ),
    {
        let ghost start = self.deep_view();
        let ghost look = PostLook { inspection: inspection.deep_view(), present, now };
        match inspection {
            Some(inspection) => {
                let known: Option<bool> = if self.submitted.is_some() {
                    present
                } else {
                    None
                };
                self.absent_since = next_prompt_absence_since(self.absent_since, known, now);
                let gone: bool = prompt_absence_dwell_confirmed(
                    self.absent_since,
                    now,
                    POST_SUBMIT_REQUIRED_ABSENCE_DWELL_MS,
                );
                let says: Option<&'static str> = classify_post_submit_inspection(
                    inspection,
                    self.process_id,
                    self.window_title.as_str(),
                    self.email.as_str(),
                    self.submitted_ref(),
                    gone,
                );
                assert(says.deep_view() == check_says(start, look));
                if inspection.prompt.is_some() {
                    let state: &'static str = match says {
                        Some(state) => state,
                        None => PROMPT_GONE_UNKNOWN,
                    };
                    if post_submit_prompt_state_is_terminal_during_poll(
                        state,
                        self.submitted.is_some(),
                    ) {
                        return PostStep::Done(state);
                    }
                    self.last_visible = Some(state);
                } else if let Some(state) = says {
                    return PostStep::Done(state);
                }
            },
            None => {
                self.absent_since = None;
            },
        }
        assert(settled(start, look) is None);
        assert(self.deep_view() =~= after_post_look(start, look));
        if elapsed_since(self.started, now) >= self.timeout {
            return PostStep::Done(
                match self.last_visible {
                    Some(state) => state,
                    None => PROMPT_GONE_UNKNOWN,
                },
            );
        }
        PostStep::Sleep(POST_SUBMIT_POLL_MS)
    }
}

// ---------------------------------------------------------------------------
// What a check keeps to
// ---------------------------------------------------------------------------

pub open spec fn after_post_looks(c: PostView, looks: Seq<PostLook>) -> PostView
    decreases looks.len(),
{
    if looks.len() == 0 {
        c
    } else {
        after_post_look(after_post_looks(c, looks.drop_last()), looks.last())
    }
}

/// A look that found the submitted prompt absent.
pub open spec fn saw_absence(look: PostLook) -> bool {
    look.inspection is Some && look.present == Some(false)
}

proof fn lemma_absence(c: PostView, looks: Seq<PostLook>) -> (first: int)
    requires
        c.absent_since is None,
        c.last_visible is None,
    ensures
        ({
            let after = after_post_looks(c, looks);
            &&& after.process_id == c.process_id
            &&& after.window_title == c.window_title
            &&& after.email == c.email
            &&& after.submitted == c.submitted
            &&& after.last_visible matches Some(state) ==> state == STILL_PROMPT@
            &&& after.absent_since matches Some(since) ==> {
                &&& 0 <= first < looks.len()
                &&& looks[first].now == since
                &&& forall|j: int| first <= j < looks.len() ==> saw_absence(#[trigger] looks[j])
            }
        }),
    decreases looks.len(),
{
    if looks.len() == 0 {
        0
    } else {
        let before = looks.drop_last();
        let first = lemma_absence(c, before);
        assert(forall|j: int| 0 <= j < before.len() ==> before[j] == looks[j]);
        if after_post_looks(c, before).absent_since is Some {
            first
        } else {
            looks.len() - 1
        }
    }
}

/// A check ends as authenticated only where the submitted sheet was seen absent by
/// every one of a stretch of looks, none of which failed, for the whole dwell, and
/// its window is then the one session in front.
pub proof fn law_authenticated_needs_a_dwell(c: PostView, looks: Seq<PostLook>) -> (first: int)
    requires
        c.absent_since is None,
        c.last_visible is None,
        looks.len() > 0,
        post_step(after_post_looks(c, looks.drop_last()), looks.last()) == PostStepView::Done(
            AUTHENTICATED@,
        ),
    ensures
        0 <= first < looks.len(),
        forall|j: int| first <= j < looks.len() ==> saw_absence(#[trigger] looks[j]),
        elapsed(looks[first].now, looks.last().now) >= POST_SUBMIT_REQUIRED_ABSENCE_DWELL_MS,
        looks.last().inspection is Some,
        turned_into_session(
            looks.last().inspection->0,
            c.submitted,
            c.process_id,
            c.email,
            true,
        ),
        c.submitted is Some,
        c.submitted->0.origin == PromptOrigin::Sheet,
{
    lemma_outcomes_differ();
    let before = after_post_looks(c, looks.drop_last());
    let a = lemma_absence(c, looks.drop_last());
    lemma_absence(c, looks)
}

/// A check ends as failed only where a look succeeded and found the process gone.
pub proof fn law_failed_needs_an_exit(c: PostView, looks: Seq<PostLook>)
    requires
        c.absent_since is None,
        c.last_visible is None,
        looks.len() > 0,
        post_step(after_post_looks(c, looks.drop_last()), looks.last()) == PostStepView::Done(
            FAILED@,
        ),
    ensures
        looks.last().inspection matches Some(i) && !i.process_found,
{
    lemma_outcomes_differ();
    let a = lemma_absence(c, looks.drop_last());
}

// ---------------------------------------------------------------------------
// What a check comes to
// ---------------------------------------------------------------------------

/// The prompt stands in the window of that title.
pub open spec fn in_window(p: Identity, title: Seq<char>) -> bool {
    same_ascii(trimmed(p.1), trimmed(title))
}

/// The prompt names the account.
pub open spec fn for_account(p: Identity, email: Seq<char>) -> bool {
    p.2 is Some && same_ascii(trimmed(p.2->0), trimmed(email))
}

/// Prompt `i` is the only one of the process.
pub open spec fn lone_prompt(ps: Seq<Identity>, process_id: i32, i: int) -> bool {
    &&& 0 <= i < ps.len()
    &&& ps[i].0 == process_id
    &&& forall|j: int| 0 <= j < ps.len() && j != i ==> (#[trigger] ps[j]).0 != process_id
}

proof fn lemma_tally_none(ps: Seq<Identity>, process_id: i32, title: Seq<char>, email: Seq<char>)
    ensures
        tally(ps, process_id, title, email).0 == 0 <==> forall|i: int|
            0 <= i < ps.len() ==> (#[trigger] ps[i]).0 != process_id,
        tally(ps, process_id, title, email).1 == tally(ps, process_id, title, email).0 <==> forall|
            i: int,
        |
            0 <= i < ps.len() && (#[trigger] ps[i]).0 == process_id ==> in_window(ps[i], title),
        tally(ps, process_id, title, email).2 == 0 <==> forall|i: int|
            0 <= i < ps.len() && (#[trigger] ps[i]).0 == process_id && in_window(ps[i], title)
                ==> !for_account(ps[i], email),
    decreases ps.len(),
{
    if ps.len() > 0 {
        let before = ps.drop_last();
        lemma_tally_none(before, process_id, title, email);
        lemma_tally_bounds(before, process_id, title, email);
        assert(forall|i: int| 0 <= i < before.len() ==> #[trigger] ps[i] == before[i]);
        assert(ps[ps.len() - 1] == ps.last());
        let (a, b, c) = tally(before, process_id, title, email);
        if a == 0 {
            assert(forall|i: int| 0 <= i < before.len() ==> (#[trigger] ps[i]).0 != process_id);
        } else {
            let i = choose|i: int| 0 <= i < before.len() && (#[trigger] before[i]).0 == process_id;
            assert(ps[i].0 == process_id);
        }
        if b != a {
            let i = choose|i: int|
                0 <= i < before.len() && (#[trigger] before[i]).0 == process_id && !in_window(
                    before[i],
                    title,
                );
            assert(ps[i].0 == process_id && !in_window(ps[i], title));
        }
        if c != 0 {
            let i = choose|i: int|
                0 <= i < before.len() && (#[trigger] before[i]).0 == process_id && in_window(
                    before[i],
                    title,
                ) && for_account(before[i], email);
            assert(ps[i].0 == process_id && in_window(ps[i], title) && for_account(ps[i], email));
        }
    }
}

proof fn lemma_tally_one(ps: Seq<Identity>, process_id: i32, title: Seq<char>, email: Seq<char>)
    ensures
        tally(ps, process_id, title, email).0 == 1 <==> exists|i: int| #[trigger]
            lone_prompt(ps, process_id, i),
    decreases ps.len(),
{
    if ps.len() > 0 {
        let before = ps.drop_last();
        let n = ps.len() - 1;
        lemma_tally_one(before, process_id, title, email);
        lemma_tally_none(before, process_id, title, email);
        lemma_tally_bounds(before, process_id, title, email);
        assert(forall|i: int| 0 <= i < before.len() ==> #[trigger] ps[i] == before[i]);
        let a = tally(before, process_id, title, email).0;
        if ps.last().0 == process_id {
            if a == 0 {
                assert(lone_prompt(ps, process_id, n));
            } else {
                let k = choose|k: int|
                    0 <= k < before.len() && (#[trigger] before[k]).0 == process_id;
                assert(ps[k].0 == process_id && ps[n].0 == process_id);
            }
        } else {
            if exists|i: int| #[trigger] lone_prompt(before, process_id, i) {
                let i = choose|i: int| #[trigger] lone_prompt(before, process_id, i);
                assert(lone_prompt(ps, process_id, i));
            }
            if exists|i: int| #[trigger] lone_prompt(ps, process_id, i) {
                let i = choose|i: int| #[trigger] lone_prompt(ps, process_id, i);
                assert(i < n);
                assert(lone_prompt(before, process_id, i));
            }
        }
    }
}

/// What the prompts on the screen say. Where the process shows none, nothing. Where it
/// shows one alone: it is still there where the window is told by its title and the
/// account is the same, and another prompt where the window or the account is another.
/// Where it shows several, they are not told apart, unless all stand in that window and
/// none is of the account.
pub proof fn law_prompts_on_the_screen(
    ps: Seq<Identity>,
    process_id: i32,
    title: Seq<char>,
    email: Seq<char>,
    unique: bool,
)
    ensures
        prompts_say(ps, process_id, title, email, unique) is None <==> forall|i: int|
            0 <= i < ps.len() ==> (#[trigger] ps[i]).0 != process_id,
        forall|i: int| #[trigger]
            lone_prompt(ps, process_id, i) ==> prompts_say(ps, process_id, title, email, unique)
                == Some(
                if !in_window(ps[i], title) {
                    "prompt_mismatch"@
                } else if !unique {
                    "prompt_ambiguous"@
                } else if for_account(ps[i], email) {
                    "still_prompt"@
                } else {
                    "prompt_mismatch"@
                },
            ),
        forall|i: int, j: int|
            0 <= i < j < ps.len() && (#[trigger] ps[i]).0 == process_id && (#[trigger] ps[j]).0
                == process_id ==> {
                let say = prompts_say(ps, process_id, title, email, unique);
                ||| say == Some("prompt_ambiguous"@)
                ||| {
                    &&& say == Some("prompt_mismatch"@)
                    &&& unique
                    &&& forall|k: int|
                        0 <= k < ps.len() && (#[trigger] ps[k]).0 == process_id ==> in_window(
                            ps[k],
                            title,
                        ) && !for_account(ps[k], email)
                }
            },
{
    lemma_tally_none(ps, process_id, title, email);
    lemma_tally_one(ps, process_id, title, email);
    lemma_tally_bounds(ps, process_id, title, email);
    assert forall|i: int| #[trigger] lone_prompt(ps, process_id, i) implies prompts_say(
        ps,
        process_id,
        title,
        email,
        unique,
    ) == Some(
        if !in_window(ps[i], title) {
            "prompt_mismatch"@
        } else if !unique {
            "prompt_ambiguous"@
        } else if for_account(ps[i], email) {
            "still_prompt"@
        } else {
            "prompt_mismatch"@
        },
    ) by {
        assert(ps[i].0 == process_id);
    }
    assert forall|i: int, j: int|
        0 <= i < j < ps.len() && (#[trigger] ps[i]).0 == process_id && (#[trigger] ps[j]).0
            == process_id implies tally(ps, process_id, title, email).0 >= 2 by {
        if tally(ps, process_id, title, email).0 == 1 {
            let k = choose|k: int| #[trigger] lone_prompt(ps, process_id, k);
            assert(k == i && k == j);
        }
    }
}

/// A look that showed the submitted prompt still on the screen.
pub open spec fn showed_it(c: PostView, look: PostLook) -> bool {
    look.inspection matches Some(i) && i.prompt is Some && candidates_say(
        i.prompts,
        i.window_titles,
        c.process_id,
        c.window_title,
        c.email,
    ) == Some("still_prompt"@)
}

/// A look that settles nothing: it failed, or showed the submitted prompt, or showed no
/// prompt while the process runs and no session has taken the prompt's place.
pub open spec fn settles_nothing(c: PostView, look: PostLook) -> bool {
    ||| look.inspection is None
    ||| showed_it(c, look)
    ||| {
        let i = look.inspection->0;
        &&& look.inspection is Some
        &&& i.prompt is None
        &&& i.process_found
        &&& candidates_say(i.prompts, i.window_titles, c.process_id, c.window_title, c.email) is None
        &&& !turned_into_session(i, c.submitted, c.process_id, c.email, true)
    }
}

proof fn lemma_unsettled(c: PostView, looks: Seq<PostLook>)
    requires
        c.last_visible is None,
        c.submitted is Some,
        forall|j: int| 0 <= j < looks.len() ==> settles_nothing(c, #[trigger] looks[j]),
    ensures
        ({
            let after = after_post_looks(c, looks);
            &&& after == (PostView {
                absent_since: after.absent_since,
                last_visible: after.last_visible,
                ..c
            })
            &&& after.last_visible == if exists|j: int|
                0 <= j < looks.len() && showed_it(c, #[trigger] looks[j]) {
                Some(STILL_PROMPT@)
            } else {
                None
            }
        }),
    decreases looks.len(),
{
    lemma_outcomes_differ();
    if looks.len() > 0 {
        let before = looks.drop_last();
        assert(forall|j: int| 0 <= j < before.len() ==> #[trigger] looks[j] == before[j]);
        lemma_unsettled(c, before);
        let was = after_post_looks(c, before);
        let look = looks.last();
        assert(looks[looks.len() - 1] == look);
        assert(settles_nothing(c, look));
        assert(settled(was, look) is None);
        if showed_it(c, look) {
            assert(showed_it(c, looks[looks.len() - 1]));
        } else if exists|j: int| 0 <= j < before.len() && showed_it(c, #[trigger] before[j]) {
            let j = choose|j: int| 0 <= j < before.len() && showed_it(c, #[trigger] before[j]);
            assert(showed_it(c, looks[j]));
        }
    }
}

/// A check in which nothing was settled goes on until its time is over, a look each tenth
/// of a second. Then the prompt is reported as still there where any look showed it, and
/// as gone without a trace only where none did.
pub proof fn law_unsettled_check_says_what_it_saw(c: PostView, looks: Seq<PostLook>)
    requires
        c.last_visible is None,
        c.submitted is Some,
        looks.len() > 0,
        forall|j: int| 0 <= j < looks.len() ==> settles_nothing(c, #[trigger] looks[j]),
    ensures
        ({
            let step = post_step(after_post_looks(c, looks.drop_last()), looks.last());
            let spent = if looks.last().now >= c.started {
                looks.last().now - c.started
            } else {
                0
            };
            step == if spent < c.timeout {
                PostStepView::Sleep(100)
            } else if exists|j: int| 0 <= j < looks.len() && showed_it(c, #[trigger] looks[j]) {
                PostStepView::Done("still_prompt"@)
            } else {
                PostStepView::Done("prompt_gone_unknown"@)
            }
        }),
{
    lemma_outcomes_differ();
    let before = looks.drop_last();
    assert(forall|j: int| 0 <= j < before.len() ==> #[trigger] looks[j] == before[j]);
    assert(looks[looks.len() - 1] == looks.last());
    lemma_unsettled(c, before);
    lemma_unsettled(c, looks);
    assert(settled(after_post_looks(c, before), looks.last()) is None);
}

/// Another prompt, or prompts that cannot be told apart, end a check at once; so does a
/// prompt of another account. A process that is gone and shows no prompt ends it as
/// failed.
pub proof fn law_clear_outcome_ends_a_check(c: PostView, look: PostLook)
    requires
        look.inspection is Some,
    ensures
        ({
            let i = look.inspection->0;
            let say = candidates_say(
                i.prompts,
                i.window_titles,
                c.process_id,
                c.window_title,
                c.email,
            );
            &&& say is Some && say->0 != "still_prompt"@ ==> post_step(c, look)
                == PostStepView::Done(say->0)
            &&& say is Some && i.prompt is None ==> post_step(c, look) == PostStepView::Done(say->0)
            &&& say is Some && c.submitted is None ==> post_step(c, look) == PostStepView::Done(
                say->0,
            )
            &&& say is None && !i.process_found ==> post_step(c, look) == PostStepView::Done(
                "failed"@,
            )
        }),
{
    lemma_outcomes_differ();
}

/// The window that the submitted sheet hung on is in front, alone of its title, and is now
/// a session.
pub open spec fn session_took_its_place(
    i: InspectionView,
    s: SubmittedView,
    process_id: i32,
    email: Seq<char>,
) -> bool {
    &&& s.origin == PromptOrigin::Sheet
    &&& s.process_id == process_id
    &&& same_ascii(trimmed(s.email), trimmed(email))
    &&& i.target is Some
    &&& i.target->0.frontmost
    &&& i.target->0.process_id == process_id
    &&& same_ascii(trimmed(i.target->0.window_title), trimmed(s.window_title))
    &&& names_one_window(i.window_titles, process_id, s.window_title)
    &&& exists|j: int|
        {
            &&& 0 <= j < i.session_windows.len()
            &&& (#[trigger] i.session_windows[j]).process_id == process_id
            &&& i.session_windows[j].window == Some(s.target_window)
            &&& same_ascii(trimmed(i.session_windows[j].title), trimmed(s.window_title))
        }
}

proof fn lemma_absence_lasts(c: PostView, looks: Seq<PostLook>)
    requires
        c.absent_since is None,
        c.submitted is Some,
        looks.len() > 0,
        forall|j: int| 0 <= j < looks.len() ==> saw_absence(#[trigger] looks[j]),
    ensures
        after_post_looks(c, looks).absent_since == Some(looks[0].now),
        after_post_looks(c, looks).submitted == c.submitted,
        after_post_looks(c, looks).process_id == c.process_id,
        after_post_looks(c, looks).email == c.email,
        after_post_looks(c, looks).window_title == c.window_title,
    decreases looks.len(),
{
    let before = looks.drop_last();
    assert(forall|j: int| 0 <= j < before.len() ==> #[trigger] looks[j] == before[j]);
    assert(looks[looks.len() - 1] == looks.last());
    if before.len() > 0 {
        lemma_absence_lasts(c, before);
    }
}

/// A submitted sheet that was absent in every look for the whole dwell, and whose window is
/// then the session in front, was accepted.
pub proof fn law_dwell_and_session_authenticate(c: PostView, looks: Seq<PostLook>)
    requires
        c.absent_since is None,
        c.submitted is Some,
        looks.len() > 0,
        forall|j: int| 0 <= j < looks.len() ==> saw_absence(#[trigger] looks[j]),
        looks.last().now - looks[0].now >= 1500,
        looks.last().inspection is Some,
        looks.last().inspection->0.process_found,
        looks.last().inspection->0.prompt is None,
        forall|k: int|
            0 <= k < looks.last().inspection->0.prompts.len() ==> (
            #[trigger] looks.last().inspection->0.prompts[k]).target.process_id != c.process_id,
        session_took_its_place(
            looks.last().inspection->0,
            c.submitted->0,
            c.process_id,
            c.email,
        ),
    ensures
        post_step(after_post_looks(c, looks.drop_last()), looks.last()) == PostStepView::Done(
            "authenticated"@,
        ),
{
    lemma_outcomes_differ();
    let before = looks.drop_last();
    let look = looks.last();
    let i = look.inspection->0;
    let s = c.submitted->0;
    assert(forall|j: int| 0 <= j < before.len() ==> #[trigger] looks[j] == before[j]);
    assert(looks[looks.len() - 1] == look);
    if before.len() > 0 {
        lemma_absence_lasts(c, before);
    }
    let was = after_post_looks(c, before);
    assert(absence_after(was, look) == Some(looks[0].now));
    let ids = i.prompts.map_values(|p: PromptView| prompt_identity(p));
    lemma_tally_none(ids, c.process_id, c.window_title, c.email);
    assert(candidates_say(i.prompts, i.window_titles, c.process_id, c.window_title, c.email) is None);
    let j = choose|j: int|
        {
            &&& 0 <= j < i.session_windows.len()
            &&& (#[trigger] i.session_windows[j]).process_id == c.process_id
            &&& i.session_windows[j].window == Some(s.target_window)
            &&& same_ascii(trimmed(i.session_windows[j].title), trimmed(s.window_title))
        };
    assert(is_session_of(s, i.session_windows[j], parent_is_target(i, s)));
    assert(has_session_of(i, s, c.process_id));
    assert(turned_into_session(i, c.submitted, c.process_id, c.email, true));
}

/// Whether the submitted prompt is on the screen. A sheet is there where the window shows
/// it, and gone where its window is, or where the window shows no sheet at all; a prompt in
/// a window of its own is there where that window is listed and not hidden. Nothing is
/// said where its elements are not those of the process, or the windows are not known.
pub proof fn law_presence_of_the_prompt(live: LiveView, s: SubmittedView)
    ensures
        process_at(live.nodes, s.target_window) != Some(s.process_id) ==> presence(live, s) is None,
        process_at(live.nodes, s.prompt_container) != Some(s.process_id) ==> presence(
            live,
            s,
        ) is None,
        live.windows is None ==> presence(live, s) is None,
        process_at(live.nodes, s.target_window) == Some(s.process_id) && process_at(
            live.nodes,
            s.prompt_container,
        ) == Some(s.process_id) && live.windows is Some ==> {
            let windows = live.windows->0;
            let sheets = shown_sheets(live.nodes, s.target_window);
            &&& s.origin == PromptOrigin::Window ==> presence(live, s) == Some(
                windows.contains(s.prompt_container) && !hidden_at(live.nodes, s.prompt_container),
            )
            &&& s.origin == PromptOrigin::Sheet && !windows.contains(s.target_window) ==> presence(
                live,
                s,
            ) == Some(false)
            &&& s.origin == PromptOrigin::Sheet && windows.contains(s.target_window) ==> {
                &&& sheets is Err ==> presence(live, s) is None
                &&& sheets is Ok && sheets->Ok_0.contains(s.prompt_container) ==> presence(live, s)
                    == Some(true)
                &&& sheets is Ok && sheets->Ok_0.len() == 0 ==> presence(live, s) == Some(false)
                &&& sheets is Ok && sheets->Ok_0.len() > 0 && !sheets->Ok_0.contains(
                    s.prompt_container,
                ) ==> presence(live, s) is None
            }
        },
{
}

/// What a look without other prompts comes to: a prompt of the account is still there, and
/// one of another is a mismatch; without a prompt, a process that is gone has failed, and
/// one with the session is authenticated.
pub proof fn law_what_a_look_comes_to(
    prompt_email: Seq<char>,
    running: bool,
    has_session: bool,
    email: Seq<char>,
)
    ensures
        state_of(Some(prompt_email), running, has_session, email) == Some(
            if same_ascii(trimmed(prompt_email), trimmed(email)) {
                "still_prompt"@
            } else {
                "prompt_mismatch"@
            },
        ),
        state_of(None, false, has_session, email) == Some("failed"@),
        state_of(None, true, true, email) == Some("authenticated"@),
        state_of(None, true, false, email) is None,
{
}

/// An absence lasts from the first look that saw it; a look that saw the prompt, or that
/// could not tell, ends it.
pub proof fn law_how_long_an_absence_lasts(since: u64, now: u64, required: u64)
    ensures
        absent_since(None, Some(false), now) == Some(now),
        absent_since(Some(since), Some(false), now) == Some(since),
        absent_since(Some(since), Some(true), now) is None,
        absent_since(Some(since), None, now) is None,
        !dwelt(None, now, required),
        since <= now ==> (dwelt(Some(since), now, required) <==> now >= since + required),
{
}

/// The session that took the place of a sheet: of the same process, with the same title,
/// in the same window, which is the one in front and the only one with that title.
pub proof fn law_the_session_of_a_sheet(i: InspectionView, s: SubmittedView, w: WindowTitleView)
    ensures
        parent_is_target(i, s) <==> (i.target matches Some(target) && {
            &&& target.frontmost
            &&& target.process_id == s.process_id
            &&& same_ascii(trimmed(target.window_title), trimmed(s.window_title))
            &&& names_one_window(i.window_titles, s.process_id, s.window_title)
        }),
        is_session_of(s, w, parent_is_target(i, s)) <==> {
            &&& s.origin == PromptOrigin::Sheet
            &&& parent_is_target(i, s)
            &&& w.process_id == s.process_id
            &&& same_ascii(trimmed(w.title), trimmed(s.window_title))
            &&& w.window == Some(s.target_window)
        },
{
}

/// What was submitted is what is checked where the process and the account are the same.
pub proof fn law_what_was_submitted(s: SubmittedView, process_id: i32, email: Seq<char>)
    ensures
        submitted_for(s, process_id, email) <==> s.process_id == process_id && same_ascii(
            trimmed(s.email),
            trimmed(email),
        ),
{
}

/// Every outcome ends a check, but that the prompt is still there, and that too where it is
/// not known which prompt was submitted.
pub proof fn law_which_outcomes_end_a_check(state: Seq<char>)
    ensures
        ends_check(state, false),
        ends_check(state, true) <==> state != "still_prompt"@,
{
}

/// A sheet is there where it is seen, gone where no sheet is, and otherwise it is not clear.
pub proof fn law_whether_a_sheet_is_there(sheets: int)
    requires
        0 <= sheets,
    ensures
        sheet_presence(true, sheets) == Some(true),
        sheet_presence(false, 0) == Some(false),
        sheets > 0 ==> sheet_presence(false, sheets) is None,
{
}

} // verus!
