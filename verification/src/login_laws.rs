//! What a login keeps to from its first step to its last: a password is loaded for,
//! typed into and submitted from only a prompt that names the account, in front, in
//! the trusted process.

#[allow(unused_imports)]
use crate::ax_tree::within;
#[allow(unused_imports)]
use crate::fill::{fill_run, key_action, send_error, FillEvent, FillView};
use crate::fill::{FillKey, FillStage};
#[allow(unused_imports)]
use crate::identity::TrustedInfoView;
#[allow(unused_imports)]
use crate::inspection::AppView;
use crate::live::Action;
#[allow(unused_imports)]
use crate::live::{
    enabled_at, field_focused, in_front_now, insertable_at, process_at, secure_at, snapshot_stale,
    snapshots_fault, text_fault, title_stands, window_in_front, LiveView,
};
#[allow(unused_imports)]
use crate::prompt::{snapshots_text, PromptView, SnapshotView};
#[allow(unused_imports)]
use crate::prompt_text::{named_email, same_username};
#[allow(unused_imports)]
use crate::revalidate::{
    aims_at, fill_target_fault, insertion_error, key_error, preflight, submit_error, VerifiedView,
};
use crate::submit::SubmitStage;
#[allow(unused_imports)]
use crate::submit::{
    return_error, side_effect_error, submit_next, submit_run, SubmitEvent, SubmitView,
};
use vstd::prelude::*;

verus! {

// ---------------------------------------------------------------------------
// What a check finds
// ---------------------------------------------------------------------------

/// A text of the prompt still stands as it was read, inside the prompt.
pub open spec fn text_stands(live: LiveView, p: PromptView, s: SnapshotView, pid: i32) -> bool {
    &&& process_at(live.nodes, s.element) == Some(pid)
    &&& within(live.nodes, s.element, p.prompt_root)
    &&& !snapshot_stale(live.nodes, s)
}

/// The prompt is that of the account: its process is the trusted one, its window is in
/// front under its title, and its texts, which stand as they were read, name the account
/// and no other.
pub open spec fn shows_account(
    live: LiveView,
    p: PromptView,
    pid: i32,
    title: Seq<char>,
    email: Seq<char>,
    trusted: TrustedInfoView,
) -> bool {
    &&& live.trusted == Ok::<Option<TrustedInfoView>, Seq<char>>(Some(trusted))
    &&& title_stands(live.nodes, p.target_window, title)
    &&& forall|i: int|
        0 <= i < p.identity_text.len() ==> text_stands(live, p, #[trigger] p.identity_text[i], pid)
    &&& named_email(snapshots_text(p.identity_text)) matches Some(named) && same_username(
        named,
        email,
    )
}

/// The prompt is in front.
pub open spec fn stands_in_front(live: LiveView, p: PromptView) -> bool {
    &&& live.application == Some(p.target.process_id)
    &&& window_in_front(live) == Some(p.target_window)
    &&& in_front_now(live, p)
}

/// The password field is a visible, enabled and secure one inside the prompt.
pub open spec fn field_stands(live: LiveView, p: PromptView, pid: i32) -> bool {
    &&& process_at(live.nodes, p.password_field) == Some(pid)
    &&& within(live.nodes, p.password_field, p.prompt_root)
    &&& insertable_at(live.nodes, p.password_field)
}

proof fn lemma_texts_stand(live: LiveView, p: PromptView, n: int, pid: i32, action: Action)
    requires
        0 <= n <= p.identity_text.len(),
        snapshots_fault(live.nodes, p.identity_text, n, p.prompt_root, pid, action) is None,
    ensures
        forall|i: int|
            n <= i < p.identity_text.len() ==> text_stands(
                live,
                p,
                #[trigger] p.identity_text[i],
                pid,
            ),
    decreases p.identity_text.len() - n,
{
    if n < p.identity_text.len() {
        lemma_texts_stand(live, p, n + 1, pid, action);
    }
}

proof fn lemma_text_fault(
    live: LiveView,
    p: PromptView,
    pid: i32,
    email: Seq<char>,
    title: Seq<char>,
    action: Action,
)
    requires
        text_fault(live.nodes, p, pid, email, title, action) is None,
    ensures
        forall|i: int|
            0 <= i < p.identity_text.len() ==> text_stands(
                live,
                p,
                #[trigger] p.identity_text[i],
                pid,
            ),
        named_email(snapshots_text(p.identity_text)) matches Some(named) && same_username(
            named,
            email,
        ),
{
    lemma_texts_stand(live, p, 0, pid, action);
}

/// What it means that nothing stands against a key.
proof fn lemma_key_error(
    live: LiveView,
    last: LiveView,
    p: PromptView,
    pid: i32,
    title: Seq<char>,
    email: Seq<char>,
    trusted: TrustedInfoView,
    action: Action,
)
    requires
        key_error(live, last, p, pid, title, email, trusted, action) is None,
    ensures
        shows_account(live, p, pid, title, email, trusted),
        stands_in_front(live, p),
        field_stands(last, p, pid),
        field_focused(last, p.password_field, pid),
{
    reveal(key_error);
    lemma_text_fault(live, p, pid, email, title, action);
}

// ---------------------------------------------------------------------------
// Loading a password
// ---------------------------------------------------------------------------

/// A password is loaded only for a prompt that is aimed at the account, shows it, and
/// stands in front with a secure field; afterwards it is in front still.
pub proof fn law_password_is_loaded_for_the_named_account(
    given: Option<VerifiedView>,
    apps: Seq<AppView>,
    live: LiveView,
    last: LiveView,
    process_id: i32,
    title: Seq<char>,
    origin: Seq<char>,
    email: Seq<char>,
)
    requires
        preflight(given, apps, live, last, process_id, title, origin, email) is Ok,
    ensures
        ({
            let v = preflight(given, apps, live, last, process_id, title, origin, email)->Ok_0;
            &&& aims_at(v.prompt, process_id, title, origin, email)
            &&& shows_account(live, v.prompt, process_id, title, email, v.trusted_process)
            &&& stands_in_front(live, v.prompt)
            &&& field_stands(live, v.prompt, process_id)
            &&& stands_in_front(last, v.prompt)
        }),
{
    reveal(insertion_error);
    reveal(fill_target_fault);
    let v = preflight(given, apps, live, last, process_id, title, origin, email)->Ok_0;
    lemma_text_fault(live, v.prompt, process_id, email, title, Action::PasswordInsertion);
}

// ---------------------------------------------------------------------------
// Typing
// ---------------------------------------------------------------------------

/// A look that found the prompt of the account with the focus in its field.
pub open spec fn found_ready(f: FillView, e: FillEvent) -> bool {
    e matches FillEvent::Live(live, last) && {
        let p = f.verified.prompt;
        &&& shows_account(
            live,
            p,
            f.process_id,
            f.window_title,
            f.email,
            f.verified.trusted_process,
        )
        &&& stands_in_front(live, p)
        &&& field_stands(last, p, f.process_id)
        &&& field_focused(last, p.password_field, f.process_id)
    }
}

pub open spec fn guard_agreed(e: FillEvent) -> bool {
    e matches FillEvent::Guard(Ok(_))
}

/// A look found everything ready, and after it the guard agreed.
pub open spec fn ready_and_agreed(f: FillView, es: Seq<FillEvent>) -> bool {
    exists|i: int, j: int|
        0 <= i < j < es.len() && #[trigger] found_ready(f, es[i]) && #[trigger] guard_agreed(es[j])
}

pub open spec fn seen_ready(f: FillView, es: Seq<FillEvent>) -> bool {
    exists|i: int| 0 <= i < es.len() && #[trigger] found_ready(f, es[i])
}

spec fn same_target(f: FillView, g: FillView) -> bool {
    &&& g.verified == f.verified
    &&& g.process_id == f.process_id
    &&& g.window_title == f.window_title
    &&& g.prompt_origin == f.prompt_origin
    &&& g.email == f.email
}

spec fn aimed(f: FillView) -> bool {
    aims_at(f.verified.prompt, f.process_id, f.window_title, f.prompt_origin, f.email)
}

spec fn fill_explained(f: FillView, es: Seq<FillEvent>) -> bool {
    let g = fill_run(f, es);
    &&& same_target(f, g)
    &&& g.stage is Start || g.stage is FailedBeforeWrite || aimed(f)
    &&& match g.stage {
        FillStage::LastGuard(_) => seen_ready(f, es),
        FillStage::Send(_) => ready_and_agreed(f, es),
        _ => true,
    }
}

proof fn lemma_fill_step(f: FillView, es: Seq<FillEvent>)
    requires
        es.len() > 0,
        fill_explained(f, es.drop_last()),
    ensures
        fill_explained(f, es),
{
    reveal(fill_target_fault);
    let before = es.drop_last();
    let g = fill_run(f, before);
    let n = before.len() as int;
    let e = es.last();
    assert(es[n] == e);
    assert(forall|i: int| 0 <= i < n ==> before[i] == es[i]);
    if seen_ready(f, before) {
        let i = choose|i: int| 0 <= i < before.len() && #[trigger] found_ready(f, before[i]);
        assert(found_ready(f, es[i]));
        if guard_agreed(e) {
            assert(guard_agreed(es[n]));
        }
    }
    if ready_and_agreed(f, before) {
        let (i, j) = choose|i: int, j: int|
            0 <= i < j < before.len() && #[trigger] found_ready(f, before[i])
                && #[trigger] guard_agreed(before[j]);
        assert(found_ready(f, es[i]) && guard_agreed(es[j]));
    }
    if let FillStage::Check(k) = g.stage {
        if let FillEvent::Live(live, last) = e {
            if send_error(g, live, last, key_action(k)) is None {
                lemma_key_error(
                    live,
                    last,
                    f.verified.prompt,
                    f.process_id,
                    f.window_title,
                    f.email,
                    f.verified.trusted_process,
                    key_action(k),
                );
                assert(found_ready(f, es[n]));
            }
        }
    }
}

proof fn lemma_fill_explained(f: FillView, es: Seq<FillEvent>)
    requires
        f.stage is Start,
    ensures
        fill_explained(f, es),
    decreases es.len(),
{
    if es.len() > 0 {
        lemma_fill_explained(f, es.drop_last());
        lemma_fill_step(f, es);
    }
}

/// Whatever happens during a fill, a key is sent, and a password typed, only where the
/// prompt is aimed at the account, a look found it showing that account, in front, with
/// the focus in its secure field, and the guard agreed after that look.
pub proof fn law_keys_go_to_the_prompt_of_the_account(
    f: FillView,
    es: Seq<FillEvent>,
    k: FillKey,
)
    requires
        f.stage is Start,
        fill_run(f, es).stage == FillStage::Send(k),
    ensures
        aims_at(f.verified.prompt, f.process_id, f.window_title, f.prompt_origin, f.email),
        ready_and_agreed(f, es),
        fill_run(f, es).process_id == f.process_id,
{
    lemma_fill_explained(f, es);
}

// ---------------------------------------------------------------------------
// Submitting
// ---------------------------------------------------------------------------

/// A look before the Return key found the prompt of the account with the focus in its
/// field.
pub open spec fn found_ready_for_return(s: SubmitView, e: SubmitEvent) -> bool {
    e matches SubmitEvent::Live(live, last) && {
        let p = s.filled.prompt;
        let pid = p.target.process_id;
        &&& shows_account(
            live,
            p,
            pid,
            p.target.window_title,
            s.filled.expected_email,
            s.filled.trusted_process,
        )
        &&& stands_in_front(live, p)
        &&& field_stands(last, p, pid)
        &&& field_focused(last, p.password_field, pid)
    }
}

/// A look before the press of `button` found it in the prompt of the account.
pub open spec fn found_ready_for_press(s: SubmitView, button: u64, e: SubmitEvent) -> bool {
    e matches SubmitEvent::Live(live, last) && {
        let p = s.filled.prompt;
        let pid = p.target.process_id;
        &&& shows_account(
            live,
            p,
            pid,
            p.target.window_title,
            s.filled.expected_email,
            s.filled.trusted_process,
        )
        &&& process_at(live.nodes, button) == Some(pid)
        &&& within(live.nodes, button, p.prompt_root)
        &&& enabled_at(live.nodes, button)
        &&& secure_at(live.nodes, p.password_field)
        &&& stands_in_front(last, p)
    }
}

pub open spec fn submit_agreed(e: SubmitEvent) -> bool {
    e matches SubmitEvent::Guard(Ok(_))
}

pub open spec fn return_checked(s: SubmitView, es: Seq<SubmitEvent>) -> bool {
    exists|i: int| 0 <= i < es.len() && #[trigger] found_ready_for_return(s, es[i])
}

/// A look found the prompt ready for the Return key, and after it the guard agreed.
pub open spec fn return_agreed(s: SubmitView, es: Seq<SubmitEvent>) -> bool {
    exists|i: int, j: int|
        0 <= i < j < es.len() && #[trigger] found_ready_for_return(s, es[i])
            && #[trigger] submit_agreed(es[j])
}

pub open spec fn press_checked(s: SubmitView, button: u64, es: Seq<SubmitEvent>) -> bool {
    exists|i: int| 0 <= i < es.len() && #[trigger] found_ready_for_press(s, button, es[i])
}

/// A look found the prompt ready for the press, and after it the guard agreed.
pub open spec fn press_agreed(s: SubmitView, button: u64, es: Seq<SubmitEvent>) -> bool {
    exists|i: int, j: int|
        0 <= i < j < es.len() && #[trigger] found_ready_for_press(s, button, es[i])
            && #[trigger] submit_agreed(es[j])
}

spec fn submit_explained(s: SubmitView, es: Seq<SubmitEvent>) -> bool {
    let t = submit_run(s, es);
    &&& t.filled == s.filled
    &&& match t.stage {
        SubmitStage::ReturnLastGuard => return_checked(s, es),
        SubmitStage::SendReturn => return_agreed(s, es),
        SubmitStage::FallbackGuard(_) => press_checked(s, t.button, es),
        SubmitStage::Press(_) => press_agreed(s, t.button, es),
        _ => true,
    }
}

proof fn lemma_press_error(
    live: LiveView,
    last: LiveView,
    p: PromptView,
    button: u64,
    trusted: TrustedInfoView,
    email: Seq<char>,
    title: Seq<char>,
    action: Action,
)
    requires
        submit_error(live, last, p, button, trusted, email, title, action) is None,
    ensures
        shows_account(live, p, p.target.process_id, title, email, trusted),
        process_at(live.nodes, button) == Some(p.target.process_id),
        within(live.nodes, button, p.prompt_root),
        enabled_at(live.nodes, button),
        secure_at(live.nodes, p.password_field),
        stands_in_front(last, p),
{
    reveal(submit_error);
    lemma_text_fault(live, p, p.target.process_id, email, title, action);
}

/// What was found stays found, and what the guard agrees to later is agreed.
proof fn lemma_submit_kept(s: SubmitView, button: u64, es: Seq<SubmitEvent>)
    requires
        es.len() > 0,
    ensures
        return_checked(s, es.drop_last()) ==> return_checked(s, es),
        return_agreed(s, es.drop_last()) ==> return_agreed(s, es),
        press_checked(s, button, es.drop_last()) ==> press_checked(s, button, es),
        press_agreed(s, button, es.drop_last()) ==> press_agreed(s, button, es),
        return_checked(s, es.drop_last()) && submit_agreed(es.last()) ==> return_agreed(s, es),
        press_checked(s, button, es.drop_last()) && submit_agreed(es.last()) ==> press_agreed(
            s,
            button,
            es,
        ),
        found_ready_for_return(s, es.last()) ==> return_checked(s, es),
        found_ready_for_press(s, button, es.last()) ==> press_checked(s, button, es),
{
    let before = es.drop_last();
    let n = before.len() as int;
    assert(es[n] == es.last());
    if return_checked(s, before) {
        let i = choose|i: int|
            0 <= i < before.len() && #[trigger] found_ready_for_return(s, before[i]);
        assert(found_ready_for_return(s, es[i]));
        assert(submit_agreed(es[n]) == submit_agreed(es.last()));
    }
    if return_agreed(s, before) {
        let (i, j) = choose|i: int, j: int|
            0 <= i < j < before.len() && #[trigger] found_ready_for_return(s, before[i])
                && #[trigger] submit_agreed(before[j]);
        assert(found_ready_for_return(s, es[i]) && submit_agreed(es[j]));
    }
    if press_checked(s, button, before) {
        let i = choose|i: int|
            0 <= i < before.len() && #[trigger] found_ready_for_press(s, button, before[i]);
        assert(found_ready_for_press(s, button, es[i]));
        assert(submit_agreed(es[n]) == submit_agreed(es.last()));
    }
    if press_agreed(s, button, before) {
        let (i, j) = choose|i: int, j: int|
            0 <= i < j < before.len() && #[trigger] found_ready_for_press(s, button, before[i])
                && #[trigger] submit_agreed(before[j]);
        assert(found_ready_for_press(s, button, es[i]) && submit_agreed(es[j]));
    }
    assert(found_ready_for_return(s, es[n]) == found_ready_for_return(s, es.last()));
    assert(found_ready_for_press(s, button, es[n]) == found_ready_for_press(s, button, es.last()));
}

/// A look that lets a submit go on found what it has to find.
proof fn lemma_submit_looks(s: SubmitView, t: SubmitView, e: SubmitEvent)
    requires
        t.filled == s.filled,
    ensures
        t.stage is ReturnCheck && submit_next(t, e).stage is ReturnLastGuard
            ==> found_ready_for_return(s, e),
        t.stage is Fallback && submit_next(t, e).stage is FallbackGuard ==> found_ready_for_press(
            s,
            t.button,
            e,
        ),
{
    if let SubmitEvent::Live(live, last) = e {
        let p = s.filled.prompt;
        if t.stage is ReturnCheck && return_error(t, live, last) is None {
            lemma_key_error(
                live,
                last,
                p,
                p.target.process_id,
                p.target.window_title,
                s.filled.expected_email,
                s.filled.trusted_process,
                Action::ReturnSubmit,
            );
        }
        if t.stage is Fallback && side_effect_error(t, live, last, Action::AxPressSubmit) is None {
            lemma_press_error(
                live,
                last,
                p,
                t.button,
                s.filled.trusted_process,
                s.filled.expected_email,
                p.target.window_title,
                Action::AxPressSubmit,
            );
        }
    }
}

/// How a submit comes to each of the stages around an effect.
proof fn lemma_submit_stages(t: SubmitView, e: SubmitEvent)
    ensures
        ({
            let u = submit_next(t, e);
            &&& u.filled == t.filled
            &&& u.stage is ReturnLastGuard ==> u.stage == t.stage || t.stage is ReturnCheck
            &&& u.stage is SendReturn ==> u.stage == t.stage || (t.stage is ReturnLastGuard
                && submit_agreed(e))
            &&& u.stage is FallbackGuard ==> u.button == t.button && (t.stage is FallbackGuard
                || t.stage is Fallback)
            &&& u.stage is Press ==> u.button == t.button && (t.stage is Press || (
            t.stage is FallbackGuard && submit_agreed(e)))
        }),
{
}

proof fn lemma_submit_step(s: SubmitView, es: Seq<SubmitEvent>)
    requires
        es.len() > 0,
        submit_explained(s, es.drop_last()),
    ensures
        submit_explained(s, es),
{
    let t = submit_run(s, es.drop_last());
    lemma_submit_kept(s, t.button, es);
    lemma_submit_looks(s, t, es.last());
    lemma_submit_stages(t, es.last());
}

proof fn lemma_submit_explained(s: SubmitView, es: Seq<SubmitEvent>)
    requires
        s.stage is Start,
    ensures
        submit_explained(s, es),
    decreases es.len(),
{
    if es.len() > 0 {
        lemma_submit_explained(s, es.drop_last());
        lemma_submit_step(s, es);
    }
}

/// Whatever happens during a submit, the Return key is sent and the button is pressed
/// only where a look found the prompt showing the account it was filled for, in front,
/// and the guard agreed after that look.
pub proof fn law_only_the_prompt_of_the_account_is_submitted(
    s: SubmitView,
    es: Seq<SubmitEvent>,
)
    requires
        s.stage is Start,
    ensures
        submit_run(s, es).filled == s.filled,
        submit_run(s, es).stage is SendReturn ==> return_agreed(s, es),
        submit_run(s, es).stage is Press ==> press_agreed(s, submit_run(s, es).button, es),
{
    lemma_submit_explained(s, es);
}

} // verus!
