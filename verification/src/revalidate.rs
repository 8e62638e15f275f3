//! Whether a prompt may still be typed into, submitted or cleared.

#[allow(unused_imports)]
use crate::ax_tree::{hidden_at, NodeView};
use crate::ax_tree::AxTree;
#[allow(unused_imports)]
use crate::identity::TrustedInfoView;
use crate::identity::TrustedProcessInfo;
#[allow(unused_imports)]
use crate::inspection::{detected, AppView};
use crate::inspection::{detect_visible_prompt, AppSnapshot};
use crate::live::{
    element_enabled, element_insertable, element_secure, ensure_element_belongs_to_process,
    ensure_element_within_prompt_root, ensure_live_prompt_window_title,
    ensure_prompt_frontmost_for_automation, ensure_prompt_identity_text_still_matches,
    ensure_still_trusted, password_field_has_focus, Action, Fault, LiveState, Moment, Part,
    PromptError,
};
#[allow(unused_imports)]
use crate::live::{
    as_error, enabled_at, error_of, field_focused, foreign_fault, front_fault, in_front_now,
    insertable_at, outside_fault, secure_at, text_fault, title_fault, trust_fault, verdict,
    LiveView, PromptErrorView,
};
use crate::prompt::{prompt_text_snapshots_match, MacosPrompt};
#[allow(unused_imports)]
use crate::prompt::{snapshots_say, Expectation, PromptView};
use crate::prompt_text::{usernames_match, PromptOrigin};
#[allow(unused_imports)]
use crate::prompt_text::{origin_text, same_username};
#[allow(unused_imports)]
use crate::text::{same_ascii, trimmed};
use crate::text::{eq_ignore_ascii_case, is_blank, texts_eq_ignore_ascii_case, to_chars, trim};
use vstd::prelude::*;

verus! {

/// The first of two faults that stands.
pub open spec fn first(a: Option<Fault>, b: Option<Fault>) -> Option<Fault> {
    if a is Some {
        a
    } else {
        b
    }
}

/// The first of two errors that stands.
pub open spec fn first_error(
    a: Option<PromptErrorView>,
    b: Option<PromptErrorView>,
) -> Option<PromptErrorView> {
    if a is Some {
        a
    } else {
        b
    }
}

/// A fault where a condition holds.
pub open spec fn fault_if(condition: bool, fault: Fault) -> Option<Fault> {
    if condition {
        Some(fault)
    } else {
        None
    }
}

// ---------------------------------------------------------------------------
// Prompts along the way
// ---------------------------------------------------------------------------

/// A prompt that was found, with the process that it was found in.
#[derive(Clone)]
pub struct MacosVerifiedPrompt {
    pub prompt: MacosPrompt,
    pub trusted_process: TrustedProcessInfo,
}

#[verifier::ext_equal]
pub struct VerifiedView {
    pub prompt: PromptView,
    pub trusted_process: TrustedInfoView,
}

impl DeepView for MacosVerifiedPrompt {
    type V = VerifiedView;

    open spec fn deep_view(&self) -> VerifiedView {
        VerifiedView {
            prompt: self.prompt.deep_view(),
            trusted_process: self.trusted_process.deep_view(),
        }
    }
}

/// A prompt that a password was typed into.
#[derive(Clone)]
pub struct MacosFilledPrompt {
    pub prompt: MacosPrompt,
    pub expected_email: String,
    pub trusted_process: TrustedProcessInfo,
    pub submit_button_ready_after_fill: bool,
}

#[verifier::ext_equal]
pub struct FilledView {
    pub prompt: PromptView,
    pub expected_email: Seq<char>,
    pub trusted_process: TrustedInfoView,
    pub submit_button_ready_after_fill: bool,
}

impl DeepView for MacosFilledPrompt {
    type V = FilledView;

    open spec fn deep_view(&self) -> FilledView {
        FilledView {
            prompt: self.prompt.deep_view(),
            expected_email: self.expected_email@,
            trusted_process: self.trusted_process.deep_view(),
            submit_button_ready_after_fill: self.submit_button_ready_after_fill,
        }
    }
}

/// The origin that is asked for, but for case and white space around it.
pub open spec fn origin_is(origin: PromptOrigin, expected: Seq<char>) -> bool {
    same_ascii(origin_text(origin), trimmed(expected))
}

fn origin_matches(origin: PromptOrigin, expected: &str) -> (r: bool)
    ensures
        r == origin_is(origin, expected@),
{
    let chars: Vec<char> = to_chars(expected);
    let own: Vec<char> = to_chars(origin.as_str());
    eq_ignore_ascii_case(&own, trim(&chars))
}

pub open spec fn names_account(email: Option<Seq<char>>, expected: Seq<char>) -> bool {
    email is Some && same_username(email->0, expected)
}

fn email_matches(email: &Option<String>, expected: &str) -> (r: bool)
    ensures
        r == names_account(email.deep_view(), expected@),
{
    match email {
        Some(email) => usernames_match(email.as_str(), expected),
        None => false,
    }
}

/// The prompt is the expected one.
pub open spec fn aims_at(
    p: PromptView,
    process_id: i32,
    title: Seq<char>,
    origin: Seq<char>,
    email: Seq<char>,
) -> bool {
    &&& p.target.process_id == process_id
    &&& same_ascii(p.target.window_title, title)
    &&& names_account(p.email, email)
    &&& origin_is(p.origin, origin)
}

/// The prompt that was filled is the expected one, for the account that it was
/// filled for.
pub open spec fn filled_for(
    f: FilledView,
    process_id: i32,
    title: Seq<char>,
    origin: Seq<char>,
    email: Seq<char>,
) -> bool {
    &&& f.prompt.target.process_id == process_id
    &&& same_ascii(f.prompt.target.window_title, title)
    &&& origin_is(f.prompt.origin, origin)
    &&& same_username(f.expected_email, email)
}

impl MacosVerifiedPrompt {
    pub fn duplicate(&self) -> (out: Self)
        ensures
            out.deep_view() == self.deep_view(),
    {
        MacosVerifiedPrompt {
            prompt: self.prompt.duplicate(),
            trusted_process: self.trusted_process.duplicate(),
        }
    }

    /// A prompt that was just found, with its own process.
    pub fn from_detected_prompt(prompt: MacosPrompt) -> (out: Self)
        ensures
            out.deep_view() == (VerifiedView {
                prompt: prompt.deep_view(),
                trusted_process: prompt.deep_view().trusted_process,
            }),
    {
        let trusted_process: TrustedProcessInfo = prompt.trusted_process.duplicate();
        MacosVerifiedPrompt { prompt, trusted_process }
    }

    /// `aims_at`, computed.
    pub fn matches_expected(
        &self,
        expected_process_id: i32,
        expected_window_title: &str,
        expected_prompt_origin: &str,
        expected_email: &str,
    ) -> (r: bool)
        ensures
            r == aims_at(
                self.deep_view().prompt,
                expected_process_id,
                expected_window_title@,
                expected_prompt_origin@,
                expected_email@,
            ),
    {
        self.prompt.target.process_id == expected_process_id && texts_eq_ignore_ascii_case(
            self.prompt.target.window_title.as_str(),
            expected_window_title,
        ) && email_matches(&self.prompt.email, expected_email) && origin_matches(
            self.prompt.origin,
            expected_prompt_origin,
        )
    }

    /// Whether the texts that identify the prompt identify the expected one.
    pub fn identity_text_matches(&self, expected_email: &str, expected_window_title: &str) -> (r:
        bool)
        ensures
            r == snapshots_say(
                self.deep_view().prompt.identity_text,
                (Expectation {
                    email: expected_email@,
                    title: expected_window_title@,
                    origin: self.prompt.origin,
                }),
            ),
    {
        prompt_text_snapshots_match(
            &self.prompt.identity_text,
            expected_email,
            expected_window_title,
            self.prompt.origin,
        )
    }
}

impl MacosFilledPrompt {
    pub fn duplicate(&self) -> (out: Self)
        ensures
            out.deep_view() == self.deep_view(),
    {
        MacosFilledPrompt {
            prompt: self.prompt.duplicate(),
            expected_email: self.expected_email.clone(),
            trusted_process: self.trusted_process.duplicate(),
            submit_button_ready_after_fill: self.submit_button_ready_after_fill,
        }
    }

    /// `filled_for`, computed.
    pub fn matches_expected(
        &self,
        expected_process_id: i32,
        expected_window_title: &str,
        expected_prompt_origin: &str,
        expected_email: &str,
    ) -> (r: bool)
        ensures
            r == filled_for(
                self.deep_view(),
                expected_process_id,
                expected_window_title@,
                expected_prompt_origin@,
                expected_email@,
            ),
    {
        self.prompt.target.process_id == expected_process_id && texts_eq_ignore_ascii_case(
            self.prompt.target.window_title.as_str(),
            expected_window_title,
        ) && origin_matches(self.prompt.origin, expected_prompt_origin) && usernames_match(
            self.expected_email.as_str(),
            expected_email,
        )
    }
}

// ---------------------------------------------------------------------------
// Finding the expected prompt again
// ---------------------------------------------------------------------------

/// What is wrong with a prompt that was found again.
pub open spec fn found_fault(
    live: LiveView,
    p: PromptView,
    process_id: i32,
    title: Seq<char>,
    origin: Seq<char>,
    email: Seq<char>,
) -> Option<Fault> {
    first(
        fault_if(p.target.process_id != process_id, Fault::ProcessChanged),
        first(
            front_fault(in_front_now(live, p), Action::Automation),
            first(
                fault_if(!same_ascii(p.target.window_title, title), Fault::TitleChanged),
                first(
                    fault_if(!names_account(p.email, email), Fault::EmailChanged),
                    fault_if(!origin_is(p.origin, origin), Fault::OriginChanged),
                ),
            ),
        ),
    )
}

/// The expected prompt, found again.
pub open spec fn revalidated(
    apps: Seq<AppView>,
    live: LiveView,
    process_id: i32,
    title: Seq<char>,
    origin: Seq<char>,
    email: Seq<char>,
) -> Result<VerifiedView, PromptErrorView> {
    match detected(apps, Some(process_id), Some(title), Some(email)) {
        Err(e) => Err(PromptErrorView::Detect(e)),
        Ok(None) => Err(PromptErrorView::Fault(Fault::Disappeared)),
        Ok(Some(p)) => match found_fault(live, p, process_id, title, origin, email) {
            Some(f) => Err(PromptErrorView::Fault(f)),
            None => Ok(VerifiedView { prompt: p, trusted_process: p.trusted_process }),
        },
    }
}

pub open spec fn verified_view(out: Result<MacosVerifiedPrompt, PromptError>) -> Result<
    VerifiedView,
    PromptErrorView,
> {
    match out {
        Ok(v) => Ok(v.deep_view()),
        Err(e) => Err(e.deep_view()),
    }
}

/// `revalidated`, computed.
pub fn revalidate_prompt(
    apps: &Vec<AppSnapshot>,
    live: &LiveState,
    expected_process_id: i32,
    expected_window_title: &str,
    expected_prompt_origin: &str,
    expected_email: &str,
) -> (out: Result<MacosVerifiedPrompt, PromptError>)
    ensures
        verified_view(out) == revalidated(
            apps.deep_view(),
            live.deep_view(),
            expected_process_id,
            expected_window_title@,
            expected_prompt_origin@,
            expected_email@,
        ),
{
    let title: Option<&str> = Some(expected_window_title);
    let email: Option<&str> = Some(expected_email);
    let prompt: MacosPrompt = match detect_visible_prompt(
        apps,
        Some(expected_process_id),
        title,
        email,
    ) {
        Ok(Some(prompt)) => prompt,
        Ok(None) => {
            return Err(PromptError::Fault(Fault::Disappeared));
        },
        Err(error) => {
            return Err(PromptError::Detect(error));
        },
    };
    if prompt.target.process_id != expected_process_id {
        return Err(PromptError::Fault(Fault::ProcessChanged));
    }
    if let Err(fault) = ensure_prompt_frontmost_for_automation(live, &prompt, Action::Automation) {
        return Err(PromptError::Fault(fault));
    }
    if !texts_eq_ignore_ascii_case(prompt.target.window_title.as_str(), expected_window_title) {
        return Err(PromptError::Fault(Fault::TitleChanged));
    }
    if !email_matches(&prompt.email, expected_email) {
        return Err(PromptError::Fault(Fault::EmailChanged));
    }
    if !origin_matches(prompt.origin, expected_prompt_origin) {
        return Err(PromptError::Fault(Fault::OriginChanged));
    }
    Ok(MacosVerifiedPrompt::from_detected_prompt(prompt))
}

/// What is wrong with a verified prompt as the target of a fill.
#[verifier::opaque]
pub open spec fn fill_target_fault(
    v: VerifiedView,
    process_id: i32,
    title: Seq<char>,
    origin: Seq<char>,
    email: Seq<char>,
) -> Option<Fault> {
    first(
        fault_if(!aims_at(v.prompt, process_id, title, origin, email), Fault::TargetChanged),
        fault_if(
            !snapshots_say(
                v.prompt.identity_text,
                Expectation { email, title, origin: v.prompt.origin },
            ),
            Fault::TargetContentChanged,
        ),
    )
}

/// `fill_target_fault`, computed.
pub fn ensure_verified_prompt_matches_fill_target(
    verified_prompt: &MacosVerifiedPrompt,
    expected_process_id: i32,
    expected_window_title: &str,
    expected_prompt_origin: &str,
    expected_email: &str,
) -> (out: Result<(), Fault>)
    ensures
        out == verdict(
            fill_target_fault(
                verified_prompt.deep_view(),
                expected_process_id,
                expected_window_title@,
                expected_prompt_origin@,
                expected_email@,
            ),
        ),
{
    proof {
        reveal(fill_target_fault);
    }
    if !verified_prompt.matches_expected(
        expected_process_id,
        expected_window_title,
        expected_prompt_origin,
        expected_email,
    ) {
        return Err(Fault::TargetChanged);
    }
    if !verified_prompt.identity_text_matches(expected_email, expected_window_title) {
        return Err(Fault::TargetContentChanged);
    }
    Ok(())
}

// ---------------------------------------------------------------------------
// Before a password is inserted
// ---------------------------------------------------------------------------

/// What is wrong with the elements of a prompt before a password is inserted.
pub open spec fn insertion_fault(
    live: LiveView,
    p: PromptView,
    process_id: i32,
    title: Seq<char>,
    email: Seq<char>,
) -> Option<Fault> {
    let nodes = live.nodes;
    first(
        title_fault(nodes, p.target_window, title),
        first(
            foreign_fault(nodes, p.target_window, process_id, Part::TargetWindow),
            first(
                foreign_fault(nodes, p.prompt_root, process_id, Part::PromptRoot),
                first(
                    field_place_fault(nodes, p, process_id),
                    first(
                        front_fault(in_front_now(live, p), Action::PasswordInsertion),
                        first(
                            fault_if(
                                hidden_at(nodes, p.target_window) || hidden_at(nodes, p.prompt_root)
                                    || hidden_at(nodes, p.password_field),
                                Fault::HiddenBeforeInsertion,
                            ),
                            first(
                                fault_if(
                                    !insertable_at(nodes, p.password_field),
                                    Fault::FieldNotSecure,
                                ),
                                first(
                                    text_fault(
                                        nodes,
                                        p,
                                        process_id,
                                        email,
                                        title,
                                        Action::PasswordInsertion,
                                    ),
                                    match p.submit_button {
                                        None => Some(Fault::ButtonGoneBeforeInsertion),
                                        Some(b) => button_place_fault(nodes, p, b, process_id),
                                    },
                                ),
                            ),
                        ),
                    ),
                ),
            ),
        ),
    )
}

pub open spec fn field_place_fault(nodes: Seq<NodeView>, p: PromptView, process_id: i32) -> Option<
    Fault,
> {
    first(
        foreign_fault(nodes, p.password_field, process_id, Part::PasswordField),
        outside_fault(nodes, p.password_field, p.prompt_root, Part::PasswordField),
    )
}

pub open spec fn button_place_fault(
    nodes: Seq<NodeView>,
    p: PromptView,
    button: u64,
    process_id: i32,
) -> Option<Fault> {
    first(
        foreign_fault(nodes, button, process_id, Part::SubmitButton),
        outside_fault(nodes, button, p.prompt_root, Part::SubmitButton),
    )
}

fn ensure_field_in_place(tree: &AxTree, prompt: &MacosPrompt, process_id: i32) -> (out: Result<
    (),
    Fault,
>)
    ensures
        out == verdict(field_place_fault(tree.deep_view(), prompt.deep_view(), process_id)),
{
    if let Err(fault) = ensure_element_belongs_to_process(
        tree,
        prompt.password_field,
        process_id,
        Part::PasswordField,
    ) {
        return Err(fault);
    }
    ensure_element_within_prompt_root(
        tree,
        prompt.password_field,
        prompt.prompt_root,
        Part::PasswordField,
    )
}

fn ensure_button_in_place(
    tree: &AxTree,
    prompt: &MacosPrompt,
    button: u64,
    process_id: i32,
) -> (out: Result<(), Fault>)
    ensures
        out == verdict(
            button_place_fault(tree.deep_view(), prompt.deep_view(), button, process_id),
        ),
{
    if let Err(fault) = ensure_element_belongs_to_process(
        tree,
        button,
        process_id,
        Part::SubmitButton,
    ) {
        return Err(fault);
    }
    ensure_element_within_prompt_root(tree, button, prompt.prompt_root, Part::SubmitButton)
}

fn ensure_ready_for_insertion(
    live: &LiveState,
    prompt: &MacosPrompt,
    process_id: i32,
    title: &str,
    email: &str,
) -> (out: Result<(), Fault>)
    ensures
        out == verdict(
            insertion_fault(live.deep_view(), prompt.deep_view(), process_id, title@, email@),
        ),
{
    let tree: &AxTree = &live.tree;
    if let Err(fault) = ensure_live_prompt_window_title(tree, prompt.target_window, title) {
        return Err(fault);
    }
    if let Err(fault) = ensure_element_belongs_to_process(
        tree,
        prompt.target_window,
        process_id,
        Part::TargetWindow,
    ) {
        return Err(fault);
    }
    if let Err(fault) = ensure_element_belongs_to_process(
        tree,
        prompt.prompt_root,
        process_id,
        Part::PromptRoot,
    ) {
        return Err(fault);
    }
    if let Err(fault) = ensure_field_in_place(tree, prompt, process_id) {
        return Err(fault);
    }
    if let Err(fault) = ensure_prompt_frontmost_for_automation(
        live,
        prompt,
        Action::PasswordInsertion,
    ) {
        return Err(fault);
    }
    if tree.is_hidden(prompt.target_window) || tree.is_hidden(prompt.prompt_root)
        || tree.is_hidden(prompt.password_field) {
        return Err(Fault::HiddenBeforeInsertion);
    }
    if !element_insertable(tree, prompt.password_field) {
        return Err(Fault::FieldNotSecure);
    }
    if let Err(fault) = ensure_prompt_identity_text_still_matches(
        tree,
        prompt,
        process_id,
        email,
        title,
        Action::PasswordInsertion,
    ) {
        return Err(fault);
    }
    match prompt.submit_button {
        Some(button) => ensure_button_in_place(tree, prompt, button, process_id),
        None => Err(Fault::ButtonGoneBeforeInsertion),
    }
}

/// What stands against inserting a password: `live` is read before the process is
/// identified, `last` after it.
#[verifier::opaque]
pub open spec fn insertion_error(
    live: LiveView,
    last: LiveView,
    v: VerifiedView,
    process_id: i32,
    title: Seq<char>,
    email: Seq<char>,
) -> Option<PromptErrorView> {
    first_error(
        as_error(insertion_fault(live, v.prompt, process_id, title, email)),
        first_error(
            trust_fault(live.trusted, v.trusted_process, Moment::PasswordInsertion),
            as_error(front_fault(in_front_now(last, v.prompt), Action::PasswordInsertion)),
        ),
    )
}

/// `insertion_error`, computed.
pub fn revalidate_prepared_prompt_for_fill(
    live: &LiveState,
    last: &LiveState,
    verified_prompt: &MacosVerifiedPrompt,
    expected_process_id: i32,
    expected_window_title: &str,
    expected_email: &str,
) -> (out: Result<(), PromptError>)
    ensures
        error_of(out) == insertion_error(
            live.deep_view(),
            last.deep_view(),
            verified_prompt.deep_view(),
            expected_process_id,
            expected_window_title@,
            expected_email@,
        ),
{
    proof {
        reveal(insertion_error);
    }
    let prompt: &MacosPrompt = &verified_prompt.prompt;
    if let Err(fault) = ensure_ready_for_insertion(
        live,
        prompt,
        expected_process_id,
        expected_window_title,
        expected_email,
    ) {
        return Err(PromptError::Fault(fault));
    }
    if let Err(error) = ensure_still_trusted(
        live,
        &verified_prompt.trusted_process,
        Moment::PasswordInsertion,
    ) {
        return Err(error);
    }
    match ensure_prompt_frontmost_for_automation(last, prompt, Action::PasswordInsertion) {
        Ok(_) => Ok(()),
        Err(fault) => Err(PromptError::Fault(fault)),
    }
}

/// The prompt that a password may be loaded for: the one given, or else the one
/// found again.
pub open spec fn preflight(
    given: Option<VerifiedView>,
    apps: Seq<AppView>,
    live: LiveView,
    last: LiveView,
    process_id: i32,
    title: Seq<char>,
    origin: Seq<char>,
    email: Seq<char>,
) -> Result<VerifiedView, PromptErrorView> {
    let verified = match given {
        Some(v) => Ok(v),
        None => revalidated(apps, live, process_id, title, origin, email),
    };
    match verified {
        Err(e) => Err(e),
        Ok(v) => match first_error(
            as_error(fill_target_fault(v, process_id, title, origin, email)),
            insertion_error(live, last, v, process_id, title, email),
        ) {
            Some(e) => Err(e),
            None => Ok(v),
        },
    }
}

/// `preflight`, computed.
pub fn preflight_password_load_prompt(
    verified_prompt: Option<&MacosVerifiedPrompt>,
    apps: &Vec<AppSnapshot>,
    live: &LiveState,
    last: &LiveState,
    expected_process_id: i32,
    expected_window_title: &str,
    expected_prompt_origin: &str,
    expected_email: &str,
) -> (out: Result<MacosVerifiedPrompt, PromptError>)
    ensures
        verified_view(out) == preflight(
            verified_prompt.deep_view(),
            apps.deep_view(),
            live.deep_view(),
            last.deep_view(),
            expected_process_id,
            expected_window_title@,
            expected_prompt_origin@,
            expected_email@,
        ),
{
    let verified: MacosVerifiedPrompt = match verified_prompt {
        Some(verified) => verified.duplicate(),
        None => match revalidate_prompt(
            apps,
            live,
            expected_process_id,
            expected_window_title,
            expected_prompt_origin,
            expected_email,
        ) {
            Ok(verified) => verified,
            Err(error) => {
                return Err(error);
            },
        },
    };
    if let Err(fault) = ensure_verified_prompt_matches_fill_target(
        &verified,
        expected_process_id,
        expected_window_title,
        expected_prompt_origin,
        expected_email,
    ) {
        return Err(PromptError::Fault(fault));
    }
    match revalidate_prepared_prompt_for_fill(
        live,
        last,
        &verified,
        expected_process_id,
        expected_window_title,
        expected_email,
    ) {
        Ok(_) => Ok(verified),
        Err(error) => Err(error),
    }
}

// ---------------------------------------------------------------------------
// Before a key is sent
// ---------------------------------------------------------------------------

/// What is wrong with the field before a key is sent to it.
pub open spec fn field_fault(nodes: Seq<NodeView>, p: PromptView, process_id: i32) -> Option<
    Fault,
> {
    first(
        field_place_fault(nodes, p, process_id),
        fault_if(!insertable_at(nodes, p.password_field), Fault::FieldNotUsable),
    )
}

/// `field_fault`, computed.
pub fn verified_password_field_in_prompt_after_trust(
    tree: &AxTree,
    prompt: &MacosPrompt,
    expected_process_id: i32,
) -> (out: Result<(), Fault>)
    ensures
        out == verdict(field_fault(tree.deep_view(), prompt.deep_view(), expected_process_id)),
{
    if let Err(fault) = ensure_field_in_place(tree, prompt, expected_process_id) {
        return Err(fault);
    }
    if !element_insertable(tree, prompt.password_field) {
        return Err(Fault::FieldNotUsable);
    }
    Ok(())
}

/// What stands against giving the field the focus.
#[verifier::opaque]
pub open spec fn focus_error(live: LiveView, p: PromptView, process_id: i32) -> Option<
    PromptErrorView,
> {
    first_error(
        as_error(front_fault(in_front_now(live, p), Action::PasswordFieldFocus)),
        first_error(
            trust_fault(live.trusted, p.trusted_process, Moment::KeyboardInput),
            as_error(field_fault(live.nodes, p, process_id)),
        ),
    )
}

/// `focus_error`, computed.
pub fn verified_password_field_in_prompt(
    live: &LiveState,
    prompt: &MacosPrompt,
    expected_process_id: i32,
) -> (out: Result<(), PromptError>)
    ensures
        error_of(out) == focus_error(live.deep_view(), prompt.deep_view(), expected_process_id),
{
    proof {
        reveal(focus_error);
    }
    if let Err(fault) = ensure_prompt_frontmost_for_automation(
        live,
        prompt,
        Action::PasswordFieldFocus,
    ) {
        return Err(PromptError::Fault(fault));
    }
    if let Err(error) = ensure_still_trusted(live, &prompt.trusted_process, Moment::KeyboardInput) {
        return Err(error);
    }
    match verified_password_field_in_prompt_after_trust(&live.tree, prompt, expected_process_id) {
        Ok(_) => Ok(()),
        Err(fault) => Err(PromptError::Fault(fault)),
    }
}

/// What is wrong with the prompt before a key is sent.
pub open spec fn key_prompt_fault(
    live: LiveView,
    p: PromptView,
    process_id: i32,
    title: Seq<char>,
    email: Seq<char>,
    action: Action,
) -> Option<Fault> {
    first(
        title_fault(live.nodes, p.target_window, title),
        first(
            front_fault(in_front_now(live, p), action),
            text_fault(live.nodes, p, process_id, email, title, action),
        ),
    )
}

/// What stands against sending a key to the field: `live` is read before the
/// process is identified, `last` after it.
#[verifier::opaque]
pub open spec fn key_error(
    live: LiveView,
    last: LiveView,
    p: PromptView,
    process_id: i32,
    title: Seq<char>,
    email: Seq<char>,
    trusted_process: TrustedInfoView,
    action: Action,
) -> Option<PromptErrorView> {
    first_error(
        as_error(key_prompt_fault(live, p, process_id, title, email, action)),
        first_error(
            trust_fault(live.trusted, trusted_process, Moment::KeyboardSideEffect),
            first_error(
                trust_fault(live.trusted, p.trusted_process, Moment::KeyboardInput),
                as_error(
                    first(
                        field_fault(last.nodes, p, process_id),
                        fault_if(
                            !field_focused(last, p.password_field, process_id),
                            Fault::FocusChanged(action),
                        ),
                    ),
                ),
            ),
        ),
    )
}

fn ensure_prompt_ready_for_key(
    live: &LiveState,
    prompt: &MacosPrompt,
    process_id: i32,
    title: &str,
    email: &str,
    action: Action,
) -> (out: Result<(), Fault>)
    ensures
        out == verdict(
            key_prompt_fault(
                live.deep_view(),
                prompt.deep_view(),
                process_id,
                title@,
                email@,
                action,
            ),
        ),
{
    if let Err(fault) = ensure_live_prompt_window_title(&live.tree, prompt.target_window, title) {
        return Err(fault);
    }
    if let Err(fault) = ensure_prompt_frontmost_for_automation(live, prompt, action) {
        return Err(fault);
    }
    ensure_prompt_identity_text_still_matches(&live.tree, prompt, process_id, email, title, action)
}

/// `key_error`, computed.
pub fn revalidate_focused_password_field_for_keyboard(
    live: &LiveState,
    last: &LiveState,
    prompt: &MacosPrompt,
    expected_process_id: i32,
    expected_window_title: &str,
    expected_email: &str,
    expected_trusted_process: &TrustedProcessInfo,
    action: Action,
) -> (out: Result<(), PromptError>)
    ensures
        error_of(out) == key_error(
            live.deep_view(),
            last.deep_view(),
            prompt.deep_view(),
            expected_process_id,
            expected_window_title@,
            expected_email@,
            expected_trusted_process.deep_view(),
            action,
        ),
{
    proof {
        reveal(key_error);
    }
    if let Err(fault) = ensure_prompt_ready_for_key(
        live,
        prompt,
        expected_process_id,
        expected_window_title,
        expected_email,
        action,
    ) {
        return Err(PromptError::Fault(fault));
    }
    if let Err(error) = ensure_still_trusted(
        live,
        expected_trusted_process,
        Moment::KeyboardSideEffect,
    ) {
        return Err(error);
    }
    if let Err(error) = ensure_still_trusted(live, &prompt.trusted_process, Moment::KeyboardInput) {
        return Err(error);
    }
    if let Err(fault) = verified_password_field_in_prompt_after_trust(
        &last.tree,
        prompt,
        expected_process_id,
    ) {
        return Err(PromptError::Fault(fault));
    }
    if !password_field_has_focus(last, prompt.password_field, expected_process_id) {
        return Err(PromptError::Fault(Fault::FocusChanged(action)));
    }
    Ok(())
}

// ---------------------------------------------------------------------------
// Before a prompt is submitted
// ---------------------------------------------------------------------------

/// What is wrong with a filled prompt, before its button is waited for.
#[verifier::opaque]
pub open spec fn filled_fault(live: LiveView, f: FilledView) -> Option<Fault> {
    let nodes = live.nodes;
    let p = f.prompt;
    let pid = p.target.process_id;
    first(
        fault_if(trimmed(p.target.window_title).len() == 0, Fault::TitleMissing),
        first(
            title_fault(nodes, p.target_window, p.target.window_title),
            first(
                fault_if(
                    !names_account(p.email, f.expected_email),
                    Fault::EmailChangedBeforeSubmit,
                ),
                first(
                    foreign_fault(nodes, p.target_window, pid, Part::TargetWindow),
                    first(
                        foreign_fault(nodes, p.prompt_root, pid, Part::PromptRoot),
                        first(
                            field_place_fault(nodes, p, pid),
                            match p.submit_button {
                                None => Some(Fault::ButtonGoneBeforeSubmit),
                                Some(b) => first(
                                    button_place_fault(nodes, p, b, pid),
                                    fault_if(
                                        hidden_at(nodes, p.target_window) || hidden_at(
                                            nodes,
                                            p.prompt_root,
                                        ),
                                        Fault::HiddenBeforeSubmit,
                                    ),
                                ),
                            },
                        ),
                    ),
                ),
            ),
        ),
    )
}

/// `filled_fault`, computed.
pub fn ensure_filled_prompt_stands(live: &LiveState, filled: &MacosFilledPrompt) -> (out: Result<
    (),
    Fault,
>)
    ensures
        out == verdict(filled_fault(live.deep_view(), filled.deep_view())),
{
    proof {
        reveal(filled_fault);
    }
    let tree: &AxTree = &live.tree;
    let prompt: &MacosPrompt = &filled.prompt;
    let pid: i32 = prompt.target.process_id;
    if is_blank(prompt.target.window_title.as_str()) {
        return Err(Fault::TitleMissing);
    }
    if let Err(fault) = ensure_live_prompt_window_title(
        tree,
        prompt.target_window,
        prompt.target.window_title.as_str(),
    ) {
        return Err(fault);
    }
    if !email_matches(&prompt.email, filled.expected_email.as_str()) {
        return Err(Fault::EmailChangedBeforeSubmit);
    }
    if let Err(fault) = ensure_element_belongs_to_process(
        tree,
        prompt.target_window,
        pid,
        Part::TargetWindow,
    ) {
        return Err(fault);
    }
    if let Err(fault) = ensure_element_belongs_to_process(
        tree,
        prompt.prompt_root,
        pid,
        Part::PromptRoot,
    ) {
        return Err(fault);
    }
    if let Err(fault) = ensure_field_in_place(tree, prompt, pid) {
        return Err(fault);
    }
    let button: u64 = match prompt.submit_button {
        Some(button) => button,
        None => {
            return Err(Fault::ButtonGoneBeforeSubmit);
        },
    };
    if let Err(fault) = ensure_button_in_place(tree, prompt, button, pid) {
        return Err(fault);
    }
    if tree.is_hidden(prompt.target_window) || tree.is_hidden(prompt.prompt_root) {
        return Err(Fault::HiddenBeforeSubmit);
    }
    Ok(())
}

/// What stands against submitting a filled prompt, once its button was waited
/// for where it was not ready after the fill; `button_ready` says how that ended.
#[verifier::opaque]
pub open spec fn ready_error(button_ready: bool, after: LiveView, f: FilledView) -> Option<
    PromptErrorView,
> {
    let p = f.prompt;
    first_error(
        as_error(
            first(
                fault_if(
                    !f.submit_button_ready_after_fill && !button_ready,
                    Fault::ButtonNotReady,
                ),
                first(
                    fault_if(p.submit_button is None, Fault::ButtonGoneBeforeSubmit),
                    first(
                        fault_if(
                            !enabled_at(after.nodes, p.submit_button->0),
                            Fault::ButtonDisabled,
                        ),
                        text_fault(
                            after.nodes,
                            p,
                            p.target.process_id,
                            f.expected_email,
                            p.target.window_title,
                            Action::FastSubmit,
                        ),
                    ),
                ),
            ),
        ),
        trust_fault(after.trusted, f.trusted_process, Moment::FastSubmit),
    )
}

/// The button of a filled prompt, or what stands against pressing it.
pub open spec fn button_result(error: Option<PromptErrorView>, f: FilledView) -> Result<
    u64,
    PromptErrorView,
> {
    match error {
        Some(e) => Err(e),
        None => Ok(f.prompt.submit_button->0),
    }
}

pub open spec fn button_view(out: Result<u64, PromptError>) -> Result<u64, PromptErrorView> {
    match out {
        Ok(button) => Ok(button),
        Err(e) => Err(e.deep_view()),
    }
}

/// `ready_error`, computed.
pub fn ensure_filled_prompt_ready(
    button_ready: bool,
    after: &LiveState,
    filled_prompt: &MacosFilledPrompt,
) -> (out: Result<u64, PromptError>)
    ensures
        button_view(out) == button_result(
            ready_error(button_ready, after.deep_view(), filled_prompt.deep_view()),
            filled_prompt.deep_view(),
        ),
        out is Ok ==> filled_prompt.prompt.submit_button is Some,
{
    proof {
        reveal(ready_error);
    }
    let prompt: &MacosPrompt = &filled_prompt.prompt;
    if !filled_prompt.submit_button_ready_after_fill && !button_ready {
        return Err(PromptError::Fault(Fault::ButtonNotReady));
    }
    let button: u64 = match prompt.submit_button {
        Some(button) => button,
        None => {
            return Err(PromptError::Fault(Fault::ButtonGoneBeforeSubmit));
        },
    };
    if !element_enabled(&after.tree, button) {
        return Err(PromptError::Fault(Fault::ButtonDisabled));
    }
    if let Err(fault) = ensure_prompt_identity_text_still_matches(
        &after.tree,
        prompt,
        prompt.target.process_id,
        filled_prompt.expected_email.as_str(),
        prompt.target.window_title.as_str(),
        Action::FastSubmit,
    ) {
        return Err(PromptError::Fault(fault));
    }
    match ensure_still_trusted(after, &filled_prompt.trusted_process, Moment::FastSubmit) {
        Ok(_) => Ok(button),
        Err(error) => Err(error),
    }
}

/// What stands against submitting a filled prompt. Where its button was not ready
/// after the fill, it is waited for between `before` and `after`.
pub open spec fn filled_error(
    before: LiveView,
    button_ready: bool,
    after: LiveView,
    f: FilledView,
) -> Option<PromptErrorView> {
    first_error(as_error(filled_fault(before, f)), ready_error(button_ready, after, f))
}

/// `filled_error`, computed: the button of a filled prompt that may be submitted.
pub fn revalidate_filled_prompt(
    before: &LiveState,
    button_ready: bool,
    after: &LiveState,
    filled_prompt: &MacosFilledPrompt,
) -> (out: Result<u64, PromptError>)
    ensures
        button_view(out) == button_result(
            filled_error(
                before.deep_view(),
                button_ready,
                after.deep_view(),
                filled_prompt.deep_view(),
            ),
            filled_prompt.deep_view(),
        ),
{
    if let Err(fault) = ensure_filled_prompt_stands(before, filled_prompt) {
        return Err(PromptError::Fault(fault));
    }
    ensure_filled_prompt_ready(button_ready, after, filled_prompt)
}

/// What is wrong with the elements of a prompt right before it is submitted.
pub open spec fn submit_fault(
    live: LiveView,
    p: PromptView,
    button: u64,
    title: Seq<char>,
    email: Seq<char>,
    action: Action,
) -> Option<Fault> {
    let nodes = live.nodes;
    let pid = p.target.process_id;
    first(
        title_fault(nodes, p.target_window, title),
        first(
            foreign_fault(nodes, p.target_window, pid, Part::TargetWindow),
            first(
                foreign_fault(nodes, p.native_container, pid, Part::PromptContainer),
                first(
                    foreign_fault(nodes, p.prompt_root, pid, Part::PromptRoot),
                    first(
                        foreign_fault(nodes, p.password_field, pid, Part::PasswordField),
                        first(
                            foreign_fault(nodes, button, pid, Part::SubmitButton),
                            first(
                                outside_fault(
                                    nodes,
                                    p.prompt_root,
                                    p.native_container,
                                    Part::PromptRoot,
                                ),
                                first(
                                    outside_fault(
                                        nodes,
                                        p.password_field,
                                        p.prompt_root,
                                        Part::PasswordField,
                                    ),
                                    first(
                                        outside_fault(
                                            nodes,
                                            button,
                                            p.prompt_root,
                                            Part::SubmitButton,
                                        ),
                                        first(
                                            fault_if(
                                                !usable(nodes, p, button),
                                                Fault::ButtonNotUsable(action),
                                            ),
                                            text_fault(nodes, p, pid, email, title, action),
                                        ),
                                    ),
                                ),
                            ),
                        ),
                    ),
                ),
            ),
        ),
    )
}

/// All of the prompt is shown, its field is secure and its button is enabled.
pub open spec fn usable(nodes: Seq<NodeView>, p: PromptView, button: u64) -> bool {
    &&& !hidden_at(nodes, p.target_window)
    &&& !hidden_at(nodes, p.native_container)
    &&& !hidden_at(nodes, p.prompt_root)
    &&& !hidden_at(nodes, p.password_field)
    &&& !hidden_at(nodes, button)
    &&& secure_at(nodes, p.password_field)
    &&& enabled_at(nodes, button)
}

fn prompt_usable(tree: &AxTree, prompt: &MacosPrompt, button: u64) -> (r: bool)
    ensures
        r == usable(tree.deep_view(), prompt.deep_view(), button),
{
    !tree.is_hidden(prompt.target_window) && !tree.is_hidden(prompt.native_container)
        && !tree.is_hidden(prompt.prompt_root) && !tree.is_hidden(prompt.password_field)
        && !tree.is_hidden(button) && element_secure(tree, prompt.password_field)
        && element_enabled(tree, button)
}

fn ensure_parts_belong(tree: &AxTree, prompt: &MacosPrompt, pid: i32) -> (out: Result<(), Fault>)
    ensures
        out == verdict(
            first(
                foreign_fault(tree.deep_view(), prompt.target_window, pid, Part::TargetWindow),
                first(
                    foreign_fault(
                        tree.deep_view(),
                        prompt.native_container,
                        pid,
                        Part::PromptContainer,
                    ),
                    first(
                        foreign_fault(tree.deep_view(), prompt.prompt_root, pid, Part::PromptRoot),
                        foreign_fault(
                            tree.deep_view(),
                            prompt.password_field,
                            pid,
                            Part::PasswordField,
                        ),
                    ),
                ),
            ),
        ),
{
    if let Err(fault) = ensure_element_belongs_to_process(
        tree,
        prompt.target_window,
        pid,
        Part::TargetWindow,
    ) {
        return Err(fault);
    }
    if let Err(fault) = ensure_element_belongs_to_process(
        tree,
        prompt.native_container,
        pid,
        Part::PromptContainer,
    ) {
        return Err(fault);
    }
    if let Err(fault) = ensure_element_belongs_to_process(
        tree,
        prompt.prompt_root,
        pid,
        Part::PromptRoot,
    ) {
        return Err(fault);
    }
    ensure_element_belongs_to_process(tree, prompt.password_field, pid, Part::PasswordField)
}

fn ensure_ready_for_submit(
    live: &LiveState,
    prompt: &MacosPrompt,
    button: u64,
    title: &str,
    email: &str,
    action: Action,
) -> (out: Result<(), Fault>)
    ensures
        out == verdict(
            submit_fault(live.deep_view(), prompt.deep_view(), button, title@, email@, action),
        ),
{
    let tree: &AxTree = &live.tree;
    let pid: i32 = prompt.target.process_id;
    if let Err(fault) = ensure_live_prompt_window_title(tree, prompt.target_window, title) {
        return Err(fault);
    }
    if let Err(fault) = ensure_parts_belong(tree, prompt, pid) {
        return Err(fault);
    }
    if let Err(fault) = ensure_element_belongs_to_process(tree, button, pid, Part::SubmitButton) {
        return Err(fault);
    }
    if let Err(fault) = ensure_element_within_prompt_root(
        tree,
        prompt.prompt_root,
        prompt.native_container,
        Part::PromptRoot,
    ) {
        return Err(fault);
    }
    if let Err(fault) = ensure_element_within_prompt_root(
        tree,
        prompt.password_field,
        prompt.prompt_root,
        Part::PasswordField,
    ) {
        return Err(fault);
    }
    if let Err(fault) = ensure_element_within_prompt_root(
        tree,
        button,
        prompt.prompt_root,
        Part::SubmitButton,
    ) {
        return Err(fault);
    }
    if !prompt_usable(tree, prompt, button) {
        return Err(Fault::ButtonNotUsable(action));
    }
    ensure_prompt_identity_text_still_matches(tree, prompt, pid, email, title, action)
}

/// What stands against submitting right now: `live` is read before the process is
/// identified, `last` after it.
#[verifier::opaque]
pub open spec fn submit_error(
    live: LiveView,
    last: LiveView,
    p: PromptView,
    button: u64,
    trusted_process: TrustedInfoView,
    email: Seq<char>,
    title: Seq<char>,
    action: Action,
) -> Option<PromptErrorView> {
    first_error(
        as_error(submit_fault(live, p, button, title, email, action)),
        first_error(
            trust_fault(live.trusted, trusted_process, Moment::SubmitSideEffect),
            as_error(front_fault(in_front_now(last, p), action)),
        ),
    )
}

/// `submit_error`, computed.
pub fn ensure_submit_side_effect_target_ready(
    live: &LiveState,
    last: &LiveState,
    prompt: &MacosPrompt,
    button: u64,
    expected_trusted_process: &TrustedProcessInfo,
    expected_email: &str,
    expected_window_title: &str,
    action: Action,
) -> (out: Result<(), PromptError>)
    ensures
        error_of(out) == submit_error(
            live.deep_view(),
            last.deep_view(),
            prompt.deep_view(),
            button,
            expected_trusted_process.deep_view(),
            expected_email@,
            expected_window_title@,
            action,
        ),
{
    proof {
        reveal(submit_error);
    }
    if let Err(fault) = ensure_ready_for_submit(
        live,
        prompt,
        button,
        expected_window_title,
        expected_email,
        action,
    ) {
        return Err(PromptError::Fault(fault));
    }
    if let Err(error) = ensure_still_trusted(
        live,
        expected_trusted_process,
        Moment::SubmitSideEffect,
    ) {
        return Err(error);
    }
    match ensure_prompt_frontmost_for_automation(last, prompt, action) {
        Ok(_) => Ok(()),
        Err(fault) => Err(PromptError::Fault(fault)),
    }
}

// ---------------------------------------------------------------------------
// Before a password is cleared
// ---------------------------------------------------------------------------

/// What stands against clearing a filled field. The prompt need not be in front.
#[verifier::opaque]
pub open spec fn clear_error(live: LiveView, f: FilledView) -> Option<PromptErrorView> {
    let nodes = live.nodes;
    let p = f.prompt;
    let pid = p.target.process_id;
    first_error(
        as_error(
            first(
                first(
                    foreign_fault(nodes, p.target_window, pid, Part::TargetWindow),
                    first(
                        foreign_fault(nodes, p.native_container, pid, Part::PromptContainer),
                        first(
                            foreign_fault(nodes, p.prompt_root, pid, Part::PromptRoot),
                            foreign_fault(nodes, p.password_field, pid, Part::PasswordField),
                        ),
                    ),
                ),
                first(
                    outside_fault(
                        nodes,
                        p.native_container,
                        p.target_window,
                        Part::PromptContainer,
                    ),
                    first(
                        outside_fault(nodes, p.prompt_root, p.native_container, Part::PromptRoot),
                        first(
                            outside_fault(
                                nodes,
                                p.password_field,
                                p.prompt_root,
                                Part::PasswordField,
                            ),
                            fault_if(
                                hidden_at(nodes, p.target_window) || hidden_at(
                                    nodes,
                                    p.prompt_root,
                                ) || hidden_at(nodes, p.password_field) || !secure_at(
                                    nodes,
                                    p.password_field,
                                ),
                                Fault::FieldLost,
                            ),
                        ),
                    ),
                ),
            ),
        ),
        trust_fault(live.trusted, f.trusted_process, Moment::PasswordCleanup),
    )
}

/// `clear_error`, computed.
pub fn ensure_filled_field_may_be_cleared(
    live: &LiveState,
    filled_prompt: &MacosFilledPrompt,
) -> (out: Result<(), PromptError>)
    ensures
        error_of(out) == clear_error(live.deep_view(), filled_prompt.deep_view()),
{
    proof {
        reveal(clear_error);
    }
    let tree: &AxTree = &live.tree;
    let prompt: &MacosPrompt = &filled_prompt.prompt;
    let pid: i32 = prompt.target.process_id;
    if let Err(fault) = ensure_parts_belong(tree, prompt, pid) {
        return Err(PromptError::Fault(fault));
    }
    if let Err(fault) = ensure_element_within_prompt_root(
        tree,
        prompt.native_container,
        prompt.target_window,
        Part::PromptContainer,
    ) {
        return Err(PromptError::Fault(fault));
    }
    if let Err(fault) = ensure_element_within_prompt_root(
        tree,
        prompt.prompt_root,
        prompt.native_container,
        Part::PromptRoot,
    ) {
        return Err(PromptError::Fault(fault));
    }
    if let Err(fault) = ensure_element_within_prompt_root(
        tree,
        prompt.password_field,
        prompt.prompt_root,
        Part::PasswordField,
    ) {
        return Err(PromptError::Fault(fault));
    }
    if tree.is_hidden(prompt.target_window) || tree.is_hidden(prompt.prompt_root)
        || tree.is_hidden(prompt.password_field) || !element_secure(tree, prompt.password_field) {
        return Err(PromptError::Fault(Fault::FieldLost));
    }
    ensure_still_trusted(live, &filled_prompt.trusted_process, Moment::PasswordCleanup)
}

} // verus!
