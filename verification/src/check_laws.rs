//! What the checks before each side effect accept.

#[allow(unused_imports)]
use crate::ax_tree::{lookup, node_sensitive, shown, within, NodeView};
#[allow(unused_imports)]
use crate::element_laws::{kept, says_secure};
#[allow(unused_imports)]
use crate::identity::TrustedInfoView;
#[allow(unused_imports)]
use crate::inspection::{detected, foreground_state, foreground_states, AppView};
#[allow(unused_imports)]
use crate::live::{
    field_focused, in_front_now, sheet_stands_alone, snapshot_fault, snapshots_fault, text_fault,
    trust_fault, window_in_front, Action, Fault, LiveView, Moment, PromptErrorView,
};
#[allow(unused_imports)]
use crate::prompt::{snapshots_say, Expectation, PromptView, SnapshotView};
#[allow(unused_imports)]
use crate::prompt_scan::{scannable, title_at};
#[allow(unused_imports)]
use crate::prompt_text::{same_username, PromptOrigin};
#[allow(unused_imports)]
use crate::revalidate::{
    aims_at, clear_error, fill_target_fault, filled_fault, filled_for, focus_error, insertion_error,
    key_error, preflight, ready_error, revalidated, submit_error, FilledView, VerifiedView,
};
#[allow(unused_imports)]
use crate::selection::law_the_window_in_front_alone_claims_it;
#[allow(unused_imports)]
use crate::text::{same_ascii, trimmed};
#[allow(unused_imports)]
use crate::live::{fault_text, foreign_fault, front_fault, identity_fault, outside_fault};
#[allow(unused_imports)]
use crate::prompt_scan::{shown_sheets, sole_sheet_prompt, ScanErrorView};
#[allow(unused_imports)]
use crate::text::lowercase;
#[allow(unused_imports)]
use crate::live::{title_fault, Part};
use vstd::prelude::*;

verus! {

// ---------------------------------------------------------------------------
// What stands
// ---------------------------------------------------------------------------

/// An element of a process.
pub open spec fn belongs(nodes: Seq<NodeView>, id: u64, process_id: i32) -> bool {
    lookup(nodes, id) matches Some(n) && n.process_id == Some(process_id)
}

/// An element that does not say that it is hidden.
pub open spec fn seen(nodes: Seq<NodeView>, id: u64) -> bool {
    !(lookup(nodes, id) matches Some(n) && n.hidden == Some(true))
}

/// An element that says that it is enabled.
pub open spec fn enabled(nodes: Seq<NodeView>, id: u64) -> bool {
    lookup(nodes, id) matches Some(n) && n.enabled == Some(true)
}

/// A secure text field.
pub open spec fn secure(nodes: Seq<NodeView>, id: u64) -> bool {
    lookup(nodes, id) matches Some(n) && (says_secure(n.role) || says_secure(n.subrole))
}

/// A window that has a title, and the one that it had.
pub open spec fn bears(nodes: Seq<NodeView>, window: u64, title: Seq<char>) -> bool {
    &&& trimmed(title_at(nodes, window)).len() > 0
    &&& same_ascii(trimmed(title_at(nodes, window)), trimmed(title))
}

/// The process is trusted, and as the same as before.
pub open spec fn trusted_as(live: LiveView, info: TrustedInfoView) -> bool {
    live.trusted == Ok::<Option<TrustedInfoView>, Seq<char>>(Some(info))
}

/// A text of a prompt reads as it was kept: its element is of the process and in the
/// prompt, is shown, cannot hold a password, and has the same title, placeholder and value.
pub open spec fn reads_as_kept(
    nodes: Seq<NodeView>,
    s: SnapshotView,
    root: u64,
    process_id: i32,
) -> bool {
    &&& belongs(nodes, s.element, process_id)
    &&& within(nodes, s.element, root)
    &&& seen(nodes, s.element)
    &&& lookup(nodes, s.element) matches Some(n) && {
        &&& !node_sensitive(n)
        &&& s.title == kept(n.title)
        &&& s.placeholder == kept(n.placeholder)
        &&& s.value == if n.role matches Some(role) && (same_ascii(role, "AXTextField"@)
            || same_ascii(role, "AXStaticText"@)) {
            kept(n.value)
        } else {
            None
        }
    }
}

/// All texts of a prompt read as they were kept, and they speak of the account.
pub open spec fn texts_stand(
    nodes: Seq<NodeView>,
    p: PromptView,
    process_id: i32,
    email: Seq<char>,
    title: Seq<char>,
) -> bool {
    &&& forall|i: int|
        0 <= i < p.identity_text.len() ==> reads_as_kept(
            nodes,
            #[trigger] p.identity_text[i],
            p.prompt_root,
            process_id,
        )
    &&& snapshots_say(p.identity_text, Expectation { email, title, origin: p.origin })
}

proof fn lemma_text(
    nodes: Seq<NodeView>,
    s: SnapshotView,
    root: u64,
    process_id: i32,
    action: Action,
)
    ensures
        snapshot_fault(nodes, s, root, process_id, action) is None <==> reads_as_kept(
            nodes,
            s,
            root,
            process_id,
        ),
{
}

proof fn lemma_texts(
    nodes: Seq<NodeView>,
    ss: Seq<SnapshotView>,
    n: int,
    root: u64,
    process_id: i32,
    action: Action,
)
    requires
        0 <= n <= ss.len(),
    ensures
        snapshots_fault(nodes, ss, n, root, process_id, action) is None <==> forall|i: int|
            n <= i < ss.len() ==> reads_as_kept(nodes, #[trigger] ss[i], root, process_id),
    decreases ss.len() - n,
{
    if n < ss.len() {
        lemma_text(nodes, ss[n], root, process_id, action);
        lemma_texts(nodes, ss, n + 1, root, process_id, action);
        if reads_as_kept(nodes, ss[n], root, process_id) && (forall|i: int|
            n + 1 <= i < ss.len() ==> reads_as_kept(nodes, #[trigger] ss[i], root, process_id)) {
            assert forall|i: int| n <= i < ss.len() implies reads_as_kept(
                nodes,
                #[trigger] ss[i],
                root,
                process_id,
            ) by {
                if i > n {
                    assert(n + 1 <= i);
                }
            }
        }
    }
}

/// The texts of a prompt are found unchanged exactly where they all read as they were kept
/// and speak of the account.
pub proof fn law_texts_are_found_unchanged(
    nodes: Seq<NodeView>,
    p: PromptView,
    process_id: i32,
    email: Seq<char>,
    title: Seq<char>,
    action: Action,
)
    ensures
        text_fault(nodes, p, process_id, email, title, action) is None <==> texts_stand(
            nodes,
            p,
            process_id,
            email,
            title,
        ),
{
    lemma_texts(nodes, p.identity_text, 0, p.prompt_root, process_id, action);
}

/// The window in front is the one that alone claims the focus or to be the main one, of
/// those that are shown, which all say whether they do, of an application in front.
pub proof fn law_the_window_in_front(live: LiveView, windows: Seq<u64>, k: usize)
    requires
        live.windows == Some(windows),
        shown(live.nodes, windows).len() <= usize::MAX,
        k < shown(live.nodes, windows).len(),
        live.frontmost == Some(true),
        forall|i: int|
            0 <= i < shown(live.nodes, windows).len() ==> (lookup(
                live.nodes,
                #[trigger] shown(live.nodes, windows)[i],
            ) matches Some(n) && n.focused is Some && n.main is Some && ((n.focused == Some(true)
                || n.main == Some(true)) <==> i == k)),
    ensures
        window_in_front(live) == Some(shown(live.nodes, windows)[k as int]),
{
    let ids = shown(live.nodes, windows);
    let states = foreground_states(live.nodes, ids);
    assert forall|i: int| 0 <= i < states.len() implies (#[trigger] states[i]).focused is Some
        && states[i].main is Some && ((states[i].focused == Some(true) || states[i].main == Some(
        true,
    )) <==> i == k) by {
        assert(states[i] == foreground_state(live.nodes, ids[i]));
        let n = lookup(live.nodes, ids[i])->0;
        assert(n.focused is Some);
    }
    law_the_window_in_front_alone_claims_it(true, states, k);
}

/// No window is in front of an application that is not, or that does not say.
pub proof fn law_no_window_in_front_of_a_background_application(live: LiveView)
    requires
        live.frontmost != Some(true) || live.windows is None,
    ensures
        window_in_front(live) is None,
{
}

/// A prompt is in front where the process is the application, its window is in front, and
/// its root stands in its container: for a window, the window itself, a dialog of a login;
/// for a sheet, the only one that holds a prompt, which is this one.
pub proof fn law_a_prompt_in_front(live: LiveView, p: PromptView)
    ensures
        in_front_now(live, p) <==> {
            &&& live.application == Some(p.target.process_id)
            &&& window_in_front(live) == Some(p.target_window)
            &&& within(live.nodes, p.prompt_root, p.native_container)
            &&& p.origin == PromptOrigin::Window ==> p.native_container == p.target_window
                && scannable(live.nodes, p.target_window, p.target.window_title)
            &&& p.origin == PromptOrigin::Sheet ==> sheet_stands_alone(
                live.nodes,
                p,
                p.target_window,
            )
        },
{
}

/// A field has the focus where it says so, and where the application in front has its focus
/// in it, on an element of the process.
pub proof fn law_a_focused_field(live: LiveView, field: u64, process_id: i32)
    ensures
        field_focused(live, field, process_id) <==> {
            &&& lookup(live.nodes, field) matches Some(n) && n.focused == Some(true)
            &&& live.application == Some(process_id)
            &&& live.frontmost == Some(true)
            &&& live.focused matches Some(focused) && belongs(live.nodes, focused, process_id)
                && within(live.nodes, focused, field)
        },
{
}

// ---------------------------------------------------------------------------
// What is accepted
// ---------------------------------------------------------------------------

/// A prompt is aimed at an account where the process, the title, the account and the kind
/// of prompt are the expected ones; the title and the account but for case.
pub proof fn law_a_prompt_aimed_at_an_account(
    p: PromptView,
    process_id: i32,
    title: Seq<char>,
    origin: Seq<char>,
    email: Seq<char>,
)
    ensures
        aims_at(p, process_id, title, origin, email) <==> {
            &&& p.target.process_id == process_id
            &&& same_ascii(p.target.window_title, title)
            &&& p.email is Some
            &&& same_username(p.email->0, email)
            &&& p.origin == PromptOrigin::Window ==> same_ascii("window"@, trimmed(origin))
            &&& p.origin == PromptOrigin::Sheet ==> same_ascii("sheet"@, trimmed(origin))
        },
        fill_target_fault(
            VerifiedView { prompt: p, trusted_process: p.trusted_process },
            process_id,
            title,
            origin,
            email,
        ) is None <==> aims_at(p, process_id, title, origin, email) && snapshots_say(
            p.identity_text,
            Expectation { email, title, origin: p.origin },
        ),
{
    reveal(fill_target_fault);
}

/// A prompt that was detected is taken where it is of the process, in front, and has the
/// title, the account and the kind; otherwise the first of these that does not hold is the
/// fault.
pub proof fn law_a_detected_prompt_is_taken(
    apps: Seq<AppView>,
    live: LiveView,
    process_id: i32,
    title: Seq<char>,
    origin: Seq<char>,
    email: Seq<char>,
)
    ensures
        ({
            let out = revalidated(apps, live, process_id, title, origin, email);
            match detected(apps, Some(process_id), Some(title), Some(email)) {
                Err(e) => out == Err::<VerifiedView, PromptErrorView>(PromptErrorView::Detect(e)),
                Ok(None) => out == Err::<VerifiedView, PromptErrorView>(
                    PromptErrorView::Fault(Fault::Disappeared),
                ),
                Ok(Some(p)) => {
                    let aimed = aims_at(p, process_id, title, origin, email);
                    &&& aimed && in_front_now(live, p) ==> out == Ok::<
                        VerifiedView,
                        PromptErrorView,
                    >(VerifiedView { prompt: p, trusted_process: p.trusted_process })
                    &&& !(aimed && in_front_now(live, p)) ==> out is Err
                    &&& p.target.process_id != process_id ==> out == Err::<
                        VerifiedView,
                        PromptErrorView,
                    >(PromptErrorView::Fault(Fault::ProcessChanged))
                    &&& aimed && !in_front_now(live, p) ==> out == Err::<
                        VerifiedView,
                        PromptErrorView,
                    >(PromptErrorView::Fault(Fault::NotFrontmost(Action::Automation)))
                },
            }
        }),
{
}

/// The process that a prompt belongs to has to be trusted still, and as the same; whatever
/// else is known of it is reported.
pub proof fn law_trust_is_asked_again(
    now: Result<Option<TrustedInfoView>, Seq<char>>,
    expected: TrustedInfoView,
    moment: Moment,
)
    ensures
        trust_fault(now, expected, moment) is None <==> now == Ok::<
            Option<TrustedInfoView>,
            Seq<char>,
        >(Some(expected)),
        now matches Err(why) ==> trust_fault(now, expected, moment) == Some(
            PromptErrorView::TrustUnknown(why),
        ),
        now == Ok::<Option<TrustedInfoView>, Seq<char>>(None) ==> trust_fault(
            now,
            expected,
            moment,
        ) == Some(PromptErrorView::Fault(Fault::NoLongerTrusted)),
{
}

/// A password may be inserted exactly where the window bears its title, the window, the
/// root and the field are of the process and shown, the field is a secure and enabled one
/// in the prompt, the prompt is in front before and after, its texts stand, its button is
/// in it, and the process is trusted as before.
pub proof fn law_where_a_password_may_be_inserted(
    live: LiveView,
    last: LiveView,
    v: VerifiedView,
    process_id: i32,
    title: Seq<char>,
    email: Seq<char>,
)
    ensures
        insertion_error(live, last, v, process_id, title, email) is None <==> {
            let nodes = live.nodes;
            let p = v.prompt;
            &&& bears(nodes, p.target_window, title)
            &&& belongs(nodes, p.target_window, process_id)
            &&& belongs(nodes, p.prompt_root, process_id)
            &&& belongs(nodes, p.password_field, process_id)
            &&& within(nodes, p.password_field, p.prompt_root)
            &&& in_front_now(live, p)
            &&& seen(nodes, p.target_window)
            &&& seen(nodes, p.prompt_root)
            &&& seen(nodes, p.password_field)
            &&& secure(nodes, p.password_field)
            &&& enabled(nodes, p.password_field)
            &&& texts_stand(nodes, p, process_id, email, title)
            &&& p.submit_button is Some
            &&& belongs(nodes, p.submit_button->0, process_id)
            &&& within(nodes, p.submit_button->0, p.prompt_root)
            &&& trusted_as(live, v.trusted_process)
            &&& in_front_now(last, p)
        },
{
    reveal(insertion_error);
    law_texts_are_found_unchanged(
        live.nodes,
        v.prompt,
        process_id,
        email,
        title,
        Action::PasswordInsertion,
    );
}

/// A field may be given the focus exactly where its prompt is in front, its process is
/// trusted as before, and it is a secure, enabled and visible field of the process in the
/// prompt.
pub proof fn law_where_a_field_may_be_focused(live: LiveView, p: PromptView, process_id: i32)
    ensures
        focus_error(live, p, process_id) is None <==> {
            &&& in_front_now(live, p)
            &&& trusted_as(live, p.trusted_process)
            &&& belongs(live.nodes, p.password_field, process_id)
            &&& within(live.nodes, p.password_field, p.prompt_root)
            &&& seen(live.nodes, p.password_field)
            &&& secure(live.nodes, p.password_field)
            &&& enabled(live.nodes, p.password_field)
        },
{
    reveal(focus_error);
}

/// A key may be sent exactly where the window bears its title, the prompt is in front, its
/// texts stand, its process is trusted as before, and the field, still a secure, enabled
/// and visible one in the prompt, has the focus.
pub proof fn law_where_a_key_may_be_sent(
    live: LiveView,
    last: LiveView,
    p: PromptView,
    process_id: i32,
    title: Seq<char>,
    email: Seq<char>,
    trusted_process: TrustedInfoView,
    action: Action,
)
    ensures
        key_error(live, last, p, process_id, title, email, trusted_process, action) is None <==> {
            &&& bears(live.nodes, p.target_window, title)
            &&& in_front_now(live, p)
            &&& texts_stand(live.nodes, p, process_id, email, title)
            &&& trusted_as(live, trusted_process)
            &&& trusted_as(live, p.trusted_process)
            &&& belongs(last.nodes, p.password_field, process_id)
            &&& within(last.nodes, p.password_field, p.prompt_root)
            &&& seen(last.nodes, p.password_field)
            &&& secure(last.nodes, p.password_field)
            &&& enabled(last.nodes, p.password_field)
            &&& field_focused(last, p.password_field, process_id)
        },
{
    reveal(key_error);
    law_texts_are_found_unchanged(live.nodes, p, process_id, email, title, action);
}

/// A filled prompt stands exactly where its window bears its title, it is of the account it
/// was filled for, its window, root, field and button are where they were, and it is shown.
pub proof fn law_where_a_filled_prompt_stands(live: LiveView, f: FilledView)
    ensures
        filled_fault(live, f) is None <==> {
            let nodes = live.nodes;
            let p = f.prompt;
            let pid = p.target.process_id;
            &&& trimmed(p.target.window_title).len() > 0
            &&& bears(nodes, p.target_window, p.target.window_title)
            &&& p.email is Some
            &&& same_username(p.email->0, f.expected_email)
            &&& belongs(nodes, p.target_window, pid)
            &&& belongs(nodes, p.prompt_root, pid)
            &&& belongs(nodes, p.password_field, pid)
            &&& within(nodes, p.password_field, p.prompt_root)
            &&& p.submit_button is Some
            &&& belongs(nodes, p.submit_button->0, pid)
            &&& within(nodes, p.submit_button->0, p.prompt_root)
            &&& seen(nodes, p.target_window)
            &&& seen(nodes, p.prompt_root)
        },
{
    reveal(filled_fault);
}

/// The button of a filled prompt may be used exactly where it became ready, is there and
/// enabled, the texts stand, and the process is trusted as before.
pub proof fn law_where_a_button_is_ready(button_ready: bool, after: LiveView, f: FilledView)
    ensures
        ready_error(button_ready, after, f) is None <==> {
            &&& f.submit_button_ready_after_fill || button_ready
            &&& f.prompt.submit_button is Some
            &&& enabled(after.nodes, f.prompt.submit_button->0)
            &&& texts_stand(
                after.nodes,
                f.prompt,
                f.prompt.target.process_id,
                f.expected_email,
                f.prompt.target.window_title,
            )
            &&& trusted_as(after, f.trusted_process)
        },
{
    reveal(ready_error);
    law_texts_are_found_unchanged(
        after.nodes,
        f.prompt,
        f.prompt.target.process_id,
        f.expected_email,
        f.prompt.target.window_title,
        Action::FastSubmit,
    );
}

/// A prompt may be submitted exactly where its window bears its title, everything of it is
/// of the process, in its place and shown, the field is secure, the button enabled, the
/// texts stand, the process is trusted as before, and the prompt is in front at the end.
pub proof fn law_where_a_prompt_may_be_submitted(
    live: LiveView,
    last: LiveView,
    p: PromptView,
    button: u64,
    trusted_process: TrustedInfoView,
    email: Seq<char>,
    title: Seq<char>,
    action: Action,
)
    ensures
        submit_error(live, last, p, button, trusted_process, email, title, action) is None <==> {
            let nodes = live.nodes;
            let pid = p.target.process_id;
            &&& bears(nodes, p.target_window, title)
            &&& belongs(nodes, p.target_window, pid)
            &&& belongs(nodes, p.native_container, pid)
            &&& belongs(nodes, p.prompt_root, pid)
            &&& belongs(nodes, p.password_field, pid)
            &&& belongs(nodes, button, pid)
            &&& within(nodes, p.prompt_root, p.native_container)
            &&& within(nodes, p.password_field, p.prompt_root)
            &&& within(nodes, button, p.prompt_root)
            &&& seen(nodes, p.target_window)
            &&& seen(nodes, p.native_container)
            &&& seen(nodes, p.prompt_root)
            &&& seen(nodes, p.password_field)
            &&& seen(nodes, button)
            &&& secure(nodes, p.password_field)
            &&& enabled(nodes, button)
            &&& texts_stand(nodes, p, pid, email, title)
            &&& trusted_as(live, trusted_process)
            &&& in_front_now(last, p)
        },
{
    reveal(submit_error);
    law_texts_are_found_unchanged(live.nodes, p, p.target.process_id, email, title, action);
}

/// A filled field may be emptied exactly where everything of its prompt is of the process
/// and in its place, its window, root and field are shown, it is secure still, and the
/// process is trusted as before.
pub proof fn law_where_a_field_may_be_emptied(live: LiveView, f: FilledView)
    ensures
        clear_error(live, f) is None <==> {
            let nodes = live.nodes;
            let p = f.prompt;
            let pid = p.target.process_id;
            &&& belongs(nodes, p.target_window, pid)
            &&& belongs(nodes, p.native_container, pid)
            &&& belongs(nodes, p.prompt_root, pid)
            &&& belongs(nodes, p.password_field, pid)
            &&& within(nodes, p.native_container, p.target_window)
            &&& within(nodes, p.prompt_root, p.native_container)
            &&& within(nodes, p.password_field, p.prompt_root)
            &&& seen(nodes, p.target_window)
            &&& seen(nodes, p.prompt_root)
            &&& seen(nodes, p.password_field)
            &&& secure(nodes, p.password_field)
            &&& trusted_as(live, f.trusted_process)
        },
{
    reveal(clear_error);
}

/// What was filled is submitted for the same process, title, kind and account only.
pub proof fn law_what_was_filled_is_submitted(
    f: FilledView,
    process_id: i32,
    title: Seq<char>,
    origin: Seq<char>,
    email: Seq<char>,
)
    ensures
        filled_for(f, process_id, title, origin, email) <==> {
            &&& f.prompt.target.process_id == process_id
            &&& same_ascii(f.prompt.target.window_title, title)
            &&& f.prompt.origin == PromptOrigin::Window ==> same_ascii("window"@, trimmed(origin))
            &&& f.prompt.origin == PromptOrigin::Sheet ==> same_ascii("sheet"@, trimmed(origin))
            &&& same_username(f.expected_email, email)
        },
{
}

/// A password may be loaded where the prompt, given or detected, is aimed at the account,
/// speaks of it, and may take a password; it is then the prompt that is filled.
pub proof fn law_where_a_password_may_be_loaded(
    given: Option<VerifiedView>,
    apps: Seq<AppView>,
    live: LiveView,
    last: LiveView,
    process_id: i32,
    title: Seq<char>,
    origin: Seq<char>,
    email: Seq<char>,
    v: VerifiedView,
)
    requires
        given == Some(v) || given is None && revalidated(
            apps,
            live,
            process_id,
            title,
            origin,
            email,
        ) == Ok::<VerifiedView, PromptErrorView>(v),
    ensures
        preflight(given, apps, live, last, process_id, title, origin, email) == Ok::<
            VerifiedView,
            PromptErrorView,
        >(v) <==> {
            &&& fill_target_fault(v, process_id, title, origin, email) is None
            &&& insertion_error(live, last, v, process_id, title, email) is None
        },
{
}

/// A sheet is still the prompt where the sheets of its window hold one prompt alone and
/// that is the same: of the process and the window with its title, of the account, and made
/// of the same elements.
pub proof fn law_a_sheet_that_is_still_the_prompt(
    nodes: Seq<NodeView>,
    p: PromptView,
    window: u64,
    sheets: Seq<u64>,
    found: PromptView,
)
    requires
        shown_sheets(nodes, window) == Ok::<Seq<u64>, ScanErrorView>(sheets),
        sole_sheet_prompt(nodes, p.target, window, sheets, p.trusted_process) == Ok::<
            Option<PromptView>,
            ScanErrorView,
        >(Some(found)),
    ensures
        sheet_stands_alone(nodes, p, window) <==> {
            &&& p.target.process_id == found.target.process_id
            &&& same_ascii(trimmed(p.target.window_title), trimmed(found.target.window_title))
            &&& (p.email is Some) == (found.email is Some)
            &&& p.email is Some ==> lowercase(trimmed(p.email->0)) == lowercase(
                trimmed(found.email->0),
            )
            &&& p.target_window == found.target_window
            &&& p.native_container == found.native_container
            &&& p.prompt_root == found.prompt_root
            &&& p.password_field == found.password_field
            &&& p.submit_button == found.submit_button
        },
{
}

/// Without a prompt on them, or with one that is not clear, the sheets do not show it.
pub proof fn law_a_sheet_that_is_gone(
    nodes: Seq<NodeView>,
    p: PromptView,
    window: u64,
    sheets: Seq<u64>,
)
    ensures
        shown_sheets(nodes, window) is Err ==> !sheet_stands_alone(nodes, p, window),
        shown_sheets(nodes, window) == Ok::<Seq<u64>, ScanErrorView>(sheets)
            && !(sole_sheet_prompt(nodes, p.target, window, sheets, p.trusted_process) matches Ok(
            Some(_),
        )) ==> !sheet_stands_alone(nodes, p, window),
{
}

/// Each fault is named for what does not stand.
pub proof fn law_what_faults_are_named_for(
    nodes: Seq<NodeView>,
    id: u64,
    ancestor: u64,
    process_id: i32,
    part: Part,
    title: Seq<char>,
    frontmost: bool,
    action: Action,
    a: TrustedInfoView,
    b: TrustedInfoView,
    moment: Moment,
)
    ensures
        foreign_fault(nodes, id, process_id, part) == if belongs(nodes, id, process_id) {
            None
        } else {
            Some(Fault::Foreign(part))
        },
        outside_fault(nodes, id, ancestor, part) == if within(nodes, id, ancestor) {
            None
        } else {
            Some(Fault::Outside(part))
        },
        title_fault(nodes, id, title) == if bears(nodes, id, title) {
            None
        } else {
            Some(Fault::WindowTitleChanged)
        },
        front_fault(frontmost, action) == if frontmost {
            None
        } else {
            Some(Fault::NotFrontmost(action))
        },
        identity_fault(a, b, moment) == if a == b {
            None
        } else {
            Some(Fault::IdentityChanged(moment))
        },
{
}

/// What is said of a part of a prompt, of what was about to be done, and of the rest.
pub proof fn law_what_faults_say()
    ensures
        fault_text(Fault::Foreign(Part::TargetWindow)) == "target window"@
            + " no longer belongs to the trusted process"@,
        fault_text(Fault::Foreign(Part::PromptContainer)) == "prompt container"@
            + " no longer belongs to the trusted process"@,
        fault_text(Fault::Foreign(Part::PromptRoot)) == "prompt root"@
            + " no longer belongs to the trusted process"@,
        fault_text(Fault::Foreign(Part::PasswordField)) == "password field"@
            + " no longer belongs to the trusted process"@,
        fault_text(Fault::Foreign(Part::SubmitButton)) == "submit button"@
            + " no longer belongs to the trusted process"@,
        fault_text(Fault::Outside(Part::PromptText)) == "prompt text"@
            + " is no longer inside the verified credential prompt"@,
        fault_text(Fault::NotFrontmost(Action::Automation))
            == "credential prompt is not frontmost before "@ + "automation"@,
        fault_text(Fault::NotFrontmost(Action::PasswordInsertion))
            == "credential prompt is not frontmost before "@ + "password insertion"@,
        fault_text(Fault::NotFrontmost(Action::PasswordFieldFocus))
            == "credential prompt is not frontmost before "@ + "password field focus"@,
        fault_text(Fault::ContentChanged(Action::FastSubmit))
            == "credential prompt content changed before "@ + "fast submit"@,
        fault_text(Fault::FocusChanged(Action::ClearShortcut))
            == "password field focus changed before "@ + "password field clear shortcut"@,
        fault_text(Fault::FocusChanged(Action::Clear)) == "password field focus changed before "@
            + "password field clear"@,
        fault_text(Fault::FocusChanged(Action::KeyboardInsertion))
            == "password field focus changed before "@ + "keyboard password insertion"@,
        fault_text(Fault::FocusChanged(Action::PostInsertion))
            == "password field focus changed before "@ + "post-keyboard password insertion"@,
        fault_text(Fault::FocusChanged(Action::ReturnSubmit))
            == "password field focus changed before "@ + "Return submit"@,
        fault_text(Fault::ButtonNotUsable(Action::AxPressSubmit))
            == "verified submit button is not visible and enabled before "@
            + "AXPress fallback submit"@,
        fault_text(Fault::Disappeared) == "credential prompt disappeared before automation"@,
        fault_text(Fault::ProcessChanged) == "credential prompt process changed before automation"@,
        fault_text(Fault::TitleChanged) == "credential prompt title changed before automation"@,
        fault_text(Fault::EmailChanged) == "credential prompt email changed before automation"@,
        fault_text(Fault::OriginChanged) == "credential prompt origin changed before automation"@,
        fault_text(Fault::NoLongerTrusted) == "credential prompt process is no longer trusted"@,
        fault_text(Fault::TitleMissing) == "credential prompt title missing before fast submit"@,
        fault_text(Fault::ButtonDisabled) == "verified submit button is no longer enabled"@,
        fault_text(Fault::ClearFailed) == "failed to clear the original filled password field"@,
{
}

} // verus!
