//! A prompt that was found before, held against what is on the screen now.

#[allow(unused_imports)]
use crate::ax_tree::{
    lookup, node_enabled, node_hidden, node_password_field, node_secure, node_sensitive, shown,
    within, NodeView,
};
use crate::ax_tree::AxTree;
#[allow(unused_imports)]
use crate::identity::TrustedInfoView;
use crate::identity::TrustedProcessInfo;
#[allow(unused_imports)]
use crate::inspection::{front_window, same_candidate, DetectErrorView};
use crate::inspection::{front_window_index, same_prompt_candidate, DetectError};
use crate::prompt::{prompt_text_snapshots_match, take_snapshot, MacosPrompt, PromptTextSnapshot};
#[allow(unused_imports)]
use crate::prompt::{snapshot_of, snapshots_say, Expectation, PromptView, SnapshotView};
use crate::prompt_scan::{
    element_title, unique_direct_sheet_prompt, visible_direct_sheets, window_should_scan_for_prompt,
};
#[allow(unused_imports)]
use crate::prompt_scan::{scannable, shown_sheets, sole_sheet_prompt, title_at};
use crate::prompt_text::PromptOrigin;
#[allow(unused_imports)]
use crate::text::{same_ascii, trimmed};
use crate::text::{is_blank, same_text, trimmed_eq_ignore_ascii_case};
use vstd::prelude::*;
#[allow(unused_imports)]
use vstd::string::StringExecFns;

verus! {

/// What was read of the application just now.
pub struct LiveState {
    /// The process that the application element names; `None` where there is no
    /// such element.
    pub application: Option<i32>,
    pub frontmost: Option<bool>,
    /// The windows; `None` where the query failed.
    pub windows: Option<Vec<u64>>,
    /// The element that has the focus.
    pub focused: Option<u64>,
    /// The elements, with those of an earlier read that still answer though no
    /// window holds them any more.
    pub tree: AxTree,
    /// The process as the system identifies it: trusted or not, or the error of
    /// the lookup.
    pub trusted: Result<Option<TrustedProcessInfo>, String>,
}

#[verifier::ext_equal]
pub struct LiveView {
    pub application: Option<i32>,
    pub frontmost: Option<bool>,
    pub windows: Option<Seq<u64>>,
    pub focused: Option<u64>,
    pub nodes: Seq<NodeView>,
    pub trusted: Result<Option<TrustedInfoView>, Seq<char>>,
}

impl DeepView for LiveState {
    type V = LiveView;

    open spec fn deep_view(&self) -> LiveView {
        LiveView {
            application: self.application,
            frontmost: self.frontmost,
            windows: match self.windows {
                Some(ids) => Some(ids@),
                None => None,
            },
            focused: self.focused,
            nodes: self.tree.deep_view(),
            trusted: match self.trusted {
                Ok(info) => Ok(info.deep_view()),
                Err(e) => Err(e@),
            },
        }
    }
}

// ---------------------------------------------------------------------------
// What may be wrong
// ---------------------------------------------------------------------------

/// A part of a prompt.
#[derive(Debug, Clone, Copy, PartialEq, Eq, Structural)]
pub enum Part {
    TargetWindow,
    PromptContainer,
    PromptRoot,
    PasswordField,
    SubmitButton,
    PromptText,
}

/// What is about to be done.
#[derive(Debug, Clone, Copy, PartialEq, Eq, Structural)]
pub enum Action {
    Automation,
    PasswordInsertion,
    PasswordFieldFocus,
    ClearShortcut,
    Clear,
    KeyboardInsertion,
    PostInsertion,
    FastSubmit,
    ReturnSubmit,
    AxPressSubmit,
}

/// When the identity of the process is compared.
#[derive(Debug, Clone, Copy, PartialEq, Eq, Structural)]
pub enum Moment {
    PasswordInsertion,
    FastSubmit,
    SubmitSideEffect,
    KeyboardSideEffect,
    KeyboardInput,
    PasswordCleanup,
}

/// Why a prompt may not be used any more.
#[derive(Debug, Clone, Copy, PartialEq, Eq, Structural)]
pub enum Fault {
    Disappeared,
    ProcessChanged,
    TitleChanged,
    EmailChanged,
    OriginChanged,
    TargetChanged,
    TargetContentChanged,
    WindowTitleChanged,
    Foreign(Part),
    Outside(Part),
    NotFrontmost(Action),
    ContentChanged(Action),
    HiddenBeforeInsertion,
    HiddenBeforeSubmit,
    FieldNotSecure,
    FieldNotUsable,
    ButtonGoneBeforeInsertion,
    ButtonGoneBeforeSubmit,
    NoLongerTrusted,
    IdentityChanged(Moment),
    TitleMissing,
    EmailChangedBeforeSubmit,
    ButtonNotReady,
    ButtonDisabled,
    ButtonNotUsable(Action),
    FocusChanged(Action),
    FocusUnverified,
    FieldLost,
    ClearFailed,
    FilledPromptChanged,
}

/// Why a prompt may not be used, or why there is no saying.
#[derive(Debug, Clone, PartialEq, Eq)]
pub enum PromptError {
    Fault(Fault),
    TrustUnknown(String),
    Detect(DetectError),
}

pub enum PromptErrorView {
    Fault(Fault),
    TrustUnknown(Seq<char>),
    Detect(DetectErrorView),
}

impl DeepView for PromptError {
    type V = PromptErrorView;

    open spec fn deep_view(&self) -> PromptErrorView {
        match self {
            PromptError::Fault(f) => PromptErrorView::Fault(*f),
            PromptError::TrustUnknown(e) => PromptErrorView::TrustUnknown(e@),
            PromptError::Detect(e) => PromptErrorView::Detect(e.deep_view()),
        }
    }
}

pub open spec fn part_text(part: Part) -> Seq<char> {
    match part {
        Part::TargetWindow => "target window"@,
        Part::PromptContainer => "prompt container"@,
        Part::PromptRoot => "prompt root"@,
        Part::PasswordField => "password field"@,
        Part::SubmitButton => "submit button"@,
        Part::PromptText => "prompt text"@,
    }
}

pub open spec fn action_text(action: Action) -> Seq<char> {
    match action {
        Action::Automation => "automation"@,
        Action::PasswordInsertion => "password insertion"@,
        Action::PasswordFieldFocus => "password field focus"@,
        Action::ClearShortcut => "password field clear shortcut"@,
        Action::Clear => "password field clear"@,
        Action::KeyboardInsertion => "keyboard password insertion"@,
        Action::PostInsertion => "post-keyboard password insertion"@,
        Action::FastSubmit => "fast submit"@,
        Action::ReturnSubmit => "Return submit"@,
        Action::AxPressSubmit => "AXPress fallback submit"@,
    }
}

pub open spec fn moment_text(moment: Moment) -> Seq<char> {
    match moment {
        Moment::PasswordInsertion => {
            "credential prompt process identity changed before password insertion"@
        },
        Moment::FastSubmit => "credential prompt process identity changed before fast submit"@,
        Moment::SubmitSideEffect => {
            "credential prompt process identity changed before submit side effect"@
        },
        Moment::KeyboardSideEffect => {
            "credential prompt process identity changed before keyboard side effect"@
        },
        Moment::KeyboardInput => {
            "credential prompt process identity changed before keyboard input"@
        },
        Moment::PasswordCleanup => {
            "credential prompt process identity changed before password cleanup"@
        },
    }
}

pub open spec fn fault_text(f: Fault) -> Seq<char> {
    match f {
        Fault::Disappeared => "credential prompt disappeared before automation"@,
        Fault::ProcessChanged => "credential prompt process changed before automation"@,
        Fault::TitleChanged => "credential prompt title changed before automation"@,
        Fault::EmailChanged => "credential prompt email changed before automation"@,
        Fault::OriginChanged => "credential prompt origin changed before automation"@,
        Fault::TargetChanged => {
            "prepared credential prompt no longer matches expected automation target"@
        },
        Fault::TargetContentChanged => {
            "prepared credential prompt content no longer matches expected automation target"@
        },
        Fault::WindowTitleChanged => {
            "credential prompt window title changed before automation side effect"@
        },
        Fault::Foreign(part) => part_text(part) + " no longer belongs to the trusted process"@,
        Fault::Outside(part) => part_text(part)
            + " is no longer inside the verified credential prompt"@,
        Fault::NotFrontmost(action) => "credential prompt is not frontmost before "@ + action_text(
            action,
        ),
        Fault::ContentChanged(action) => "credential prompt content changed before "@ + action_text(
            action,
        ),
        Fault::HiddenBeforeInsertion => "credential prompt hidden before password insertion"@,
        Fault::HiddenBeforeSubmit => "credential prompt hidden before fast submit"@,
        Fault::FieldNotSecure => "credential prompt password field is not a secure text field"@,
        Fault::FieldNotUsable => {
            "credential prompt password field is not a visible enabled secure text field"@
        },
        Fault::ButtonGoneBeforeInsertion => {
            "credential prompt submit button disappeared before password insertion"@
        },
        Fault::ButtonGoneBeforeSubmit => {
            "credential prompt submit button disappeared before fast submit"@
        },
        Fault::NoLongerTrusted => "credential prompt process is no longer trusted"@,
        Fault::IdentityChanged(moment) => moment_text(moment),
        Fault::TitleMissing => "credential prompt title missing before fast submit"@,
        Fault::EmailChangedBeforeSubmit => "credential prompt email changed before fast submit"@,
        Fault::ButtonNotReady => {
            "verified submit button did not become enabled before fast submit"@
        },
        Fault::ButtonDisabled => "verified submit button is no longer enabled"@,
        Fault::ButtonNotUsable(action) => {
            "verified submit button is not visible and enabled before "@ + action_text(action)
        },
        Fault::FocusChanged(action) => "password field focus changed before "@ + action_text(
            action,
        ),
        Fault::FocusUnverified => {
            "password field focus is not verified immediately before PID-targeted keyboard input"@
        },
        Fault::FieldLost => {
            "original filled password field is no longer the visible secure field"@
        },
        Fault::ClearFailed => "failed to clear the original filled password field"@,
        Fault::FilledPromptChanged => {
            "filled credential prompt identity is unavailable or changed before submit"@
        },
    }
}

pub open spec fn prompt_error_text(e: PromptErrorView) -> Seq<char> {
    match e {
        PromptErrorView::Fault(f) => fault_text(f),
        PromptErrorView::TrustUnknown(why) => why,
        PromptErrorView::Detect(e) => crate::inspection::detect_error_text(e),
    }
}

impl Part {
    /// `part_text`, computed.
    pub fn as_str(self) -> (out: &'static str)
        ensures
            out@ == part_text(self),
    {
        match self {
            Part::TargetWindow => "target window",
            Part::PromptContainer => "prompt container",
            Part::PromptRoot => "prompt root",
            Part::PasswordField => "password field",
            Part::SubmitButton => "submit button",
            Part::PromptText => "prompt text",
        }
    }
}

impl Action {
    /// `action_text`, computed.
    pub fn as_str(self) -> (out: &'static str)
        ensures
            out@ == action_text(self),
    {
        match self {
            Action::Automation => "automation",
            Action::PasswordInsertion => "password insertion",
            Action::PasswordFieldFocus => "password field focus",
            Action::ClearShortcut => "password field clear shortcut",
            Action::Clear => "password field clear",
            Action::KeyboardInsertion => "keyboard password insertion",
            Action::PostInsertion => "post-keyboard password insertion",
            Action::FastSubmit => "fast submit",
            Action::ReturnSubmit => "Return submit",
            Action::AxPressSubmit => "AXPress fallback submit",
        }
    }
}

impl Moment {
    /// `moment_text`, computed.
    pub fn as_str(self) -> (out: &'static str)
        ensures
            out@ == moment_text(self),
    {
        match self {
            Moment::PasswordInsertion => {
                "credential prompt process identity changed before password insertion"
            },
            Moment::FastSubmit => "credential prompt process identity changed before fast submit",
            Moment::SubmitSideEffect => {
                "credential prompt process identity changed before submit side effect"
            },
            Moment::KeyboardSideEffect => {
                "credential prompt process identity changed before keyboard side effect"
            },
            Moment::KeyboardInput => {
                "credential prompt process identity changed before keyboard input"
            },
            Moment::PasswordCleanup => {
                "credential prompt process identity changed before password cleanup"
            },
        }
    }
}

fn joined(a: &str, b: &str) -> (out: String)
    ensures
        out@ == a@ + b@,
{
    let mut out: String = a.to_owned();
    out.append(b);
    out
}

impl Fault {
    /// `fault_text`, computed.
    pub fn message(self) -> (out: String)
        ensures
            out@ == fault_text(self),
    {
        match self {
            Fault::Disappeared => "credential prompt disappeared before automation".to_owned(),
            Fault::ProcessChanged => {
                "credential prompt process changed before automation".to_owned()
            },
            Fault::TitleChanged => "credential prompt title changed before automation".to_owned(),
            Fault::EmailChanged => "credential prompt email changed before automation".to_owned(),
            Fault::OriginChanged => "credential prompt origin changed before automation".to_owned(),
            Fault::TargetChanged => {
                "prepared credential prompt no longer matches expected automation target".to_owned()
            },
            Fault::TargetContentChanged => {
                "prepared credential prompt content no longer matches expected automation target".to_owned()
            },
            Fault::WindowTitleChanged => {
                "credential prompt window title changed before automation side effect".to_owned()
            },
            Fault::Foreign(part) => joined(
                part.as_str(),
                " no longer belongs to the trusted process",
            ),
            Fault::Outside(part) => joined(
                part.as_str(),
                " is no longer inside the verified credential prompt",
            ),
            Fault::NotFrontmost(action) => joined(
                "credential prompt is not frontmost before ",
                action.as_str(),
            ),
            Fault::ContentChanged(action) => joined(
                "credential prompt content changed before ",
                action.as_str(),
            ),
            Fault::HiddenBeforeInsertion => {
                "credential prompt hidden before password insertion".to_owned()
            },
            Fault::HiddenBeforeSubmit => "credential prompt hidden before fast submit".to_owned(),
            Fault::FieldNotSecure => {
                "credential prompt password field is not a secure text field".to_owned()
            },
            Fault::FieldNotUsable => {
                "credential prompt password field is not a visible enabled secure text field".to_owned()
            },
            Fault::ButtonGoneBeforeInsertion => {
                "credential prompt submit button disappeared before password insertion".to_owned()
            },
            Fault::ButtonGoneBeforeSubmit => {
                "credential prompt submit button disappeared before fast submit".to_owned()
            },
            Fault::NoLongerTrusted => "credential prompt process is no longer trusted".to_owned(),
            Fault::IdentityChanged(moment) => moment.as_str().to_owned(),
            Fault::TitleMissing => "credential prompt title missing before fast submit".to_owned(),
            Fault::EmailChangedBeforeSubmit => {
                "credential prompt email changed before fast submit".to_owned()
            },
            Fault::ButtonNotReady => {
                "verified submit button did not become enabled before fast submit".to_owned()
            },
            Fault::ButtonDisabled => "verified submit button is no longer enabled".to_owned(),
            Fault::ButtonNotUsable(action) => joined(
                "verified submit button is not visible and enabled before ",
                action.as_str(),
            ),
            Fault::FocusChanged(action) => joined(
                "password field focus changed before ",
                action.as_str(),
            ),
            Fault::FocusUnverified => {
                "password field focus is not verified immediately before PID-targeted keyboard input".to_owned()
            },
            Fault::FieldLost => {
                "original filled password field is no longer the visible secure field".to_owned()
            },
            Fault::ClearFailed => "failed to clear the original filled password field".to_owned(),
            Fault::FilledPromptChanged => {
                "filled credential prompt identity is unavailable or changed before submit".to_owned()
            },
        }
    }
}

impl PromptError {
    /// `prompt_error_text`, computed.
    pub fn message(&self) -> (out: String)
        ensures
            out@ == prompt_error_text(self.deep_view()),
    {
        match self {
            PromptError::Fault(fault) => fault.message(),
            PromptError::TrustUnknown(why) => why.clone(),
            PromptError::Detect(error) => error.message().to_owned(),
        }
    }
}

// ---------------------------------------------------------------------------
// Elements as they are now
// ---------------------------------------------------------------------------

pub open spec fn process_at(nodes: Seq<NodeView>, id: u64) -> Option<i32> {
    match lookup(nodes, id) {
        Some(n) => n.process_id,
        None => None,
    }
}

pub open spec fn enabled_at(nodes: Seq<NodeView>, id: u64) -> bool {
    lookup(nodes, id) is Some && node_enabled(lookup(nodes, id)->0)
}

pub open spec fn secure_at(nodes: Seq<NodeView>, id: u64) -> bool {
    lookup(nodes, id) is Some && node_secure(lookup(nodes, id)->0)
}

pub open spec fn insertable_at(nodes: Seq<NodeView>, id: u64) -> bool {
    lookup(nodes, id) is Some && node_password_field(lookup(nodes, id)->0)
}

pub open spec fn focused_at(nodes: Seq<NodeView>, id: u64) -> bool {
    lookup(nodes, id) is Some && lookup(nodes, id)->0.focused == Some(true)
}

pub fn belongs_to_process(tree: &AxTree, id: u64, process_id: i32) -> (r: bool)
    ensures
        r == (process_at(tree.deep_view(), id) == Some(process_id)),
{
    match tree.find(id) {
        Some(node) => match node.process_id {
            Some(pid) => pid == process_id,
            None => false,
        },
        None => false,
    }
}

pub fn element_enabled(tree: &AxTree, id: u64) -> (r: bool)
    ensures
        r == enabled_at(tree.deep_view(), id),
{
    match tree.find(id) {
        Some(node) => node.is_enabled(),
        None => false,
    }
}

pub fn element_secure(tree: &AxTree, id: u64) -> (r: bool)
    ensures
        r == secure_at(tree.deep_view(), id),
{
    match tree.find(id) {
        Some(node) => node.has_secure_password_field_identity(),
        None => false,
    }
}

pub fn element_insertable(tree: &AxTree, id: u64) -> (r: bool)
    ensures
        r == insertable_at(tree.deep_view(), id),
{
    match tree.find(id) {
        Some(node) => node.is_secure_password_insertion_field(),
        None => false,
    }
}

pub fn element_focused(tree: &AxTree, id: u64) -> (r: bool)
    ensures
        r == focused_at(tree.deep_view(), id),
{
    match tree.find(id) {
        Some(node) => match node.focused {
            Some(focused) => focused,
            None => false,
        },
        None => false,
    }
}

/// The check of one element failed, for the reason given.
pub open spec fn verdict(fault: Option<Fault>) -> Result<(), Fault> {
    match fault {
        Some(f) => Err(f),
        None => Ok(()),
    }
}

pub open spec fn foreign_fault(
    nodes: Seq<NodeView>,
    id: u64,
    process_id: i32,
    part: Part,
) -> Option<Fault> {
    if process_at(nodes, id) == Some(process_id) {
        None
    } else {
        Some(Fault::Foreign(part))
    }
}

pub open spec fn outside_fault(
    nodes: Seq<NodeView>,
    id: u64,
    ancestor: u64,
    part: Part,
) -> Option<Fault> {
    if within(nodes, id, ancestor) {
        None
    } else {
        Some(Fault::Outside(part))
    }
}

pub fn ensure_element_belongs_to_process(
    tree: &AxTree,
    element: u64,
    expected_process_id: i32,
    part: Part,
) -> (out: Result<(), Fault>)
    ensures
        out == verdict(foreign_fault(tree.deep_view(), element, expected_process_id, part)),
{
    if belongs_to_process(tree, element, expected_process_id) {
        Ok(())
    } else {
        Err(Fault::Foreign(part))
    }
}

pub fn ensure_element_within_prompt_root(
    tree: &AxTree,
    element: u64,
    prompt_root: u64,
    part: Part,
) -> (out: Result<(), Fault>)
    ensures
        out == verdict(outside_fault(tree.deep_view(), element, prompt_root, part)),
{
    if tree.element_has_ancestor(element, prompt_root) {
        Ok(())
    } else {
        Err(Fault::Outside(part))
    }
}

// ---------------------------------------------------------------------------
// Titles and texts
// ---------------------------------------------------------------------------

/// The window has a title, and it is the expected one.
pub open spec fn title_stands(nodes: Seq<NodeView>, window: u64, expected: Seq<char>) -> bool {
    let live = trimmed(title_at(nodes, window));
    live.len() > 0 && same_ascii(live, trimmed(expected))
}

pub open spec fn title_fault(nodes: Seq<NodeView>, window: u64, expected: Seq<char>) -> Option<
    Fault,
> {
    if title_stands(nodes, window, expected) {
        None
    } else {
        Some(Fault::WindowTitleChanged)
    }
}

pub fn ensure_live_prompt_window_title(
    tree: &AxTree,
    target_window: u64,
    expected_window_title: &str,
) -> (out: Result<(), Fault>)
    ensures
        out == verdict(title_fault(tree.deep_view(), target_window, expected_window_title@)),
{
    let live: String = element_title(tree, target_window);
    if !is_blank(live.as_str()) && trimmed_eq_ignore_ascii_case(
        live.as_str(),
        expected_window_title,
    ) {
        Ok(())
    } else {
        Err(Fault::WindowTitleChanged)
    }
}

/// The element does not say any more what it said, or is hidden, or may have
/// become a password field.
pub open spec fn snapshot_stale(nodes: Seq<NodeView>, s: SnapshotView) -> bool {
    match lookup(nodes, s.element) {
        Some(n) => node_hidden(n) || node_sensitive(n) || {
            let now = snapshot_of(n);
            now.title != s.title || now.placeholder != s.placeholder || now.value != s.value
        },
        None => s.title is Some || s.placeholder is Some || s.value is Some,
    }
}

pub fn same_optional_text(a: &Option<String>, b: &Option<String>) -> (r: bool)
    ensures
        r == (a.deep_view() == b.deep_view()),
{
    match (a, b) {
        (Some(a), Some(b)) => same_text(a.as_str(), b.as_str()),
        (None, None) => true,
        _ => false,
    }
}

/// `snapshot_stale`, computed.
pub fn prompt_text_snapshot_changed(tree: &AxTree, snapshot: &PromptTextSnapshot) -> (r: bool)
    ensures
        r == snapshot_stale(tree.deep_view(), snapshot.deep_view()),
{
    match tree.find(snapshot.element) {
        Some(node) => {
            if node.is_hidden() || node.has_sensitive_password_field_identity() {
                return true;
            }
            let now: PromptTextSnapshot = take_snapshot(node);
            !same_optional_text(&now.title, &snapshot.title) || !same_optional_text(
                &now.placeholder,
                &snapshot.placeholder,
            ) || !same_optional_text(&now.value, &snapshot.value)
        },
        None => snapshot.title.is_some() || snapshot.placeholder.is_some()
            || snapshot.value.is_some(),
    }
}

/// What is wrong with one text of a prompt.
pub open spec fn snapshot_fault(
    nodes: Seq<NodeView>,
    s: SnapshotView,
    root: u64,
    process_id: i32,
    action: Action,
) -> Option<Fault> {
    if process_at(nodes, s.element) != Some(process_id) {
        Some(Fault::Foreign(Part::PromptText))
    } else if !within(nodes, s.element, root) {
        Some(Fault::Outside(Part::PromptText))
    } else if snapshot_stale(nodes, s) {
        Some(Fault::ContentChanged(action))
    } else {
        None
    }
}

/// What is wrong with the first of the texts, from place `n` on, that is not as
/// it was.
pub open spec fn snapshots_fault(
    nodes: Seq<NodeView>,
    ss: Seq<SnapshotView>,
    n: int,
    root: u64,
    process_id: i32,
    action: Action,
) -> Option<Fault>
    decreases ss.len() - n,
{
    if n < 0 || n >= ss.len() {
        None
    } else {
        match snapshot_fault(nodes, ss[n], root, process_id, action) {
            Some(f) => Some(f),
            None => snapshots_fault(nodes, ss, n + 1, root, process_id, action),
        }
    }
}

/// What is wrong with the texts that identify a prompt.
pub open spec fn text_fault(
    nodes: Seq<NodeView>,
    p: PromptView,
    process_id: i32,
    email: Seq<char>,
    title: Seq<char>,
    action: Action,
) -> Option<Fault> {
    match snapshots_fault(nodes, p.identity_text, 0, p.prompt_root, process_id, action) {
        Some(f) => Some(f),
        None => if snapshots_say(p.identity_text, Expectation { email, title, origin: p.origin }) {
            None
        } else {
            Some(Fault::ContentChanged(action))
        },
    }
}

/// `text_fault`, computed.
pub fn ensure_prompt_identity_text_still_matches(
    tree: &AxTree,
    prompt: &MacosPrompt,
    expected_process_id: i32,
    expected_email: &str,
    expected_window_title: &str,
    action: Action,
) -> (out: Result<(), Fault>)
    ensures
        out == verdict(
            text_fault(
                tree.deep_view(),
                prompt.deep_view(),
                expected_process_id,
                expected_email@,
                expected_window_title@,
                action,
            ),
        ),
{
    let ghost nodes = tree.deep_view();
    let ghost ss = prompt.identity_text.deep_view();
    let mut i: usize = 0;
    while i < prompt.identity_text.len()
        invariant
            i <= prompt.identity_text@.len(),
            nodes == tree.deep_view(),
            ss == prompt.identity_text.deep_view(),
            ss == prompt.deep_view().identity_text,
            snapshots_fault(nodes, ss, 0, prompt.prompt_root, expected_process_id, action)
                == snapshots_fault(
                nodes,
                ss,
                i as int,
                prompt.prompt_root,
                expected_process_id,
                action,
            ),
        decreases prompt.identity_text@.len() - i,
    {
        let snapshot: &PromptTextSnapshot = &prompt.identity_text[i];
        assert(ss[i as int] == snapshot.deep_view());
        if !belongs_to_process(tree, snapshot.element, expected_process_id) {
            return Err(Fault::Foreign(Part::PromptText));
        }
        if !tree.element_has_ancestor(snapshot.element, prompt.prompt_root) {
            return Err(Fault::Outside(Part::PromptText));
        }
        if prompt_text_snapshot_changed(tree, snapshot) {
            return Err(Fault::ContentChanged(action));
        }
        i += 1;
    }
    if prompt_text_snapshots_match(
        &prompt.identity_text,
        expected_email,
        expected_window_title,
        prompt.origin,
    ) {
        Ok(())
    } else {
        Err(Fault::ContentChanged(action))
    }
}

// ---------------------------------------------------------------------------
// In front
// ---------------------------------------------------------------------------

/// The prompt is the one credential sheet on the window.
pub open spec fn sheet_stands_alone(nodes: Seq<NodeView>, p: PromptView, window: u64) -> bool {
    match shown_sheets(nodes, window) {
        Err(_) => false,
        Ok(sheets) => match sole_sheet_prompt(nodes, p.target, window, sheets, p.trusted_process) {
            Ok(Some(found)) => same_candidate(p, found),
            _ => false,
        },
    }
}

/// The window in front.
pub open spec fn window_in_front(live: LiveView) -> Option<u64> {
    match live.windows {
        Some(windows) => match front_window(live.nodes, live.frontmost, windows) {
            Some(k) => Some(shown(live.nodes, windows)[k as int]),
            None => None,
        },
        None => None,
    }
}

/// The prompt is in front.
pub open spec fn in_front_now(live: LiveView, p: PromptView) -> bool {
    &&& live.application == Some(p.target.process_id)
    &&& window_in_front(live) == Some(p.target_window)
    &&& within(live.nodes, p.prompt_root, p.native_container)
    &&& match p.origin {
        PromptOrigin::Window => p.native_container == p.target_window && scannable(
            live.nodes,
            p.target_window,
            p.target.window_title,
        ),
        PromptOrigin::Sheet => sheet_stands_alone(live.nodes, p, p.target_window),
    }
}

/// `sheet_stands_alone`, computed.
pub fn sheet_prompt_is_uniquely_visible_now(
    tree: &AxTree,
    prompt: &MacosPrompt,
    target_window: u64,
) -> (r: bool)
    ensures
        r == sheet_stands_alone(tree.deep_view(), prompt.deep_view(), target_window),
{
    let sheets: Vec<u64> = match visible_direct_sheets(tree, target_window) {
        Ok(sheets) => sheets,
        Err(_) => {
            return false;
        },
    };
    match unique_direct_sheet_prompt(
        tree,
        &prompt.target,
        target_window,
        &sheets,
        &prompt.trusted_process,
    ) {
        Ok(Some(candidate)) => same_prompt_candidate(prompt, &candidate),
        _ => false,
    }
}

fn front_window_now(live: &LiveState) -> (out: Option<u64>)
    ensures
        out == window_in_front(live.deep_view()),
{
    let windows: &Vec<u64> = match &live.windows {
        Some(windows) => windows,
        None => {
            return None;
        },
    };
    let ids: Vec<u64> = live.tree.shown_ids(windows);
    match front_window_index(&live.tree, live.frontmost, &ids) {
        Some(index) => {
            proof {
                crate::inspection::lemma_front_in_range(
                    live.tree.deep_view(),
                    live.frontmost,
                    windows@,
                );
            }
            Some(ids[index])
        },
        None => None,
    }
}

/// `in_front_now`, computed.
pub fn prompt_is_frontmost_now(live: &LiveState, prompt: &MacosPrompt) -> (r: bool)
    ensures
        r == in_front_now(live.deep_view(), prompt.deep_view()),
{
    match live.application {
        Some(pid) => {
            if pid != prompt.target.process_id {
                return false;
            }
        },
        None => {
            return false;
        },
    }
    match front_window_now(live) {
        Some(window) => {
            if window != prompt.target_window {
                return false;
            }
        },
        None => {
            return false;
        },
    }
    if !live.tree.element_has_ancestor(prompt.prompt_root, prompt.native_container) {
        return false;
    }
    match prompt.origin {
        PromptOrigin::Window => prompt.native_container == prompt.target_window
            && window_should_scan_for_prompt(
            &live.tree,
            prompt.target_window,
            prompt.target.window_title.as_str(),
        ),
        PromptOrigin::Sheet => sheet_prompt_is_uniquely_visible_now(
            &live.tree,
            prompt,
            prompt.target_window,
        ),
    }
}

pub open spec fn front_fault(frontmost: bool, action: Action) -> Option<Fault> {
    if frontmost {
        None
    } else {
        Some(Fault::NotFrontmost(action))
    }
}

pub fn ensure_revalidated_frontmost(frontmost: bool, action: Action) -> (out: Result<(), Fault>)
    ensures
        out == verdict(front_fault(frontmost, action)),
{
    if frontmost {
        Ok(())
    } else {
        Err(Fault::NotFrontmost(action))
    }
}

pub fn ensure_prompt_frontmost_for_automation(
    live: &LiveState,
    prompt: &MacosPrompt,
    action: Action,
) -> (out: Result<(), Fault>)
    ensures
        out == verdict(front_fault(in_front_now(live.deep_view(), prompt.deep_view()), action)),
{
    ensure_revalidated_frontmost(prompt_is_frontmost_now(live, prompt), action)
}

// ---------------------------------------------------------------------------
// Trust
// ---------------------------------------------------------------------------

/// What is wrong with the process, held against what it was.
pub open spec fn trust_fault(
    now: Result<Option<TrustedInfoView>, Seq<char>>,
    expected: TrustedInfoView,
    moment: Moment,
) -> Option<PromptErrorView> {
    match now {
        Err(why) => Some(PromptErrorView::TrustUnknown(why)),
        Ok(None) => Some(PromptErrorView::Fault(Fault::NoLongerTrusted)),
        Ok(Some(info)) => if info == expected {
            None
        } else {
            Some(PromptErrorView::Fault(Fault::IdentityChanged(moment)))
        },
    }
}

pub open spec fn error_of(out: Result<(), PromptError>) -> Option<PromptErrorView> {
    match out {
        Ok(_) => None,
        Err(e) => Some(e.deep_view()),
    }
}

/// `Some` error where a fault stands.
pub open spec fn as_error(fault: Option<Fault>) -> Option<PromptErrorView> {
    match fault {
        Some(f) => Some(PromptErrorView::Fault(f)),
        None => None,
    }
}

pub open spec fn identity_fault(
    current: TrustedInfoView,
    expected: TrustedInfoView,
    moment: Moment,
) -> Option<Fault> {
    if current == expected {
        None
    } else {
        Some(Fault::IdentityChanged(moment))
    }
}

pub fn ensure_trusted_process_matches(
    current: &TrustedProcessInfo,
    expected: &TrustedProcessInfo,
    moment: Moment,
) -> (out: Result<(), Fault>)
    ensures
        out == verdict(identity_fault(current.deep_view(), expected.deep_view(), moment)),
{
    if current.same(expected) {
        Ok(())
    } else {
        Err(Fault::IdentityChanged(moment))
    }
}

/// The process as the system identifies it now.
pub fn current_trusted_process_info(live: &LiveState) -> (out: Result<
    TrustedProcessInfo,
    PromptError,
>)
    ensures
        match (out, live.deep_view().trusted) {
            (Ok(info), Ok(Some(now))) => info.deep_view() == now,
            (Err(e), Ok(None)) => e.deep_view() == PromptErrorView::Fault(Fault::NoLongerTrusted),
            (Err(e), Err(why)) => e.deep_view() == PromptErrorView::TrustUnknown(why),
            _ => false,
        },
{
    match &live.trusted {
        Ok(Some(info)) => Ok(info.duplicate()),
        Ok(None) => Err(PromptError::Fault(Fault::NoLongerTrusted)),
        Err(why) => Err(PromptError::TrustUnknown(why.clone())),
    }
}

/// `trust_fault`, computed.
pub fn ensure_still_trusted(
    live: &LiveState,
    expected: &TrustedProcessInfo,
    moment: Moment,
) -> (out: Result<(), PromptError>)
    ensures
        error_of(out) == trust_fault(live.deep_view().trusted, expected.deep_view(), moment),
{
    let current: TrustedProcessInfo = match current_trusted_process_info(live) {
        Ok(info) => info,
        Err(error) => {
            return Err(error);
        },
    };
    match ensure_trusted_process_matches(&current, expected, moment) {
        Ok(_) => Ok(()),
        Err(fault) => Err(PromptError::Fault(fault)),
    }
}

// ---------------------------------------------------------------------------
// Focus
// ---------------------------------------------------------------------------

/// The application is in front, and its focus is in the field.
pub open spec fn focus_in_field(live: LiveView, field: u64, process_id: i32) -> bool {
    &&& live.application == Some(process_id)
    &&& live.frontmost == Some(true)
    &&& live.focused matches Some(focused) && process_at(live.nodes, focused) == Some(process_id)
        && within(live.nodes, focused, field)
}

/// The field says that it has the focus, and the application says so too.
pub open spec fn field_focused(live: LiveView, field: u64, process_id: i32) -> bool {
    focused_at(live.nodes, field) && focus_in_field(live, field, process_id)
}

/// `focus_in_field`, computed.
pub fn application_focus_matches_field(
    live: &LiveState,
    field: u64,
    expected_process_id: i32,
) -> (r: bool)
    ensures
        r == focus_in_field(live.deep_view(), field, expected_process_id),
{
    let application: bool = match live.application {
        Some(pid) => pid == expected_process_id,
        None => false,
    };
    let frontmost: bool = match live.frontmost {
        Some(frontmost) => frontmost,
        None => false,
    };
    if !application || !frontmost {
        return false;
    }
    match live.focused {
        Some(focused) => belongs_to_process(&live.tree, focused, expected_process_id)
            && live.tree.element_has_ancestor(focused, field),
        None => false,
    }
}

/// `field_focused`, computed.
pub fn password_field_has_focus(live: &LiveState, field: u64, expected_process_id: i32) -> (r: bool)
    ensures
        r == field_focused(live.deep_view(), field, expected_process_id),
{
    element_focused(&live.tree, field) && application_focus_matches_field(
        live,
        field,
        expected_process_id,
    )
}

} // verus!
