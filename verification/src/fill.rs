//! Typing a password into a verified prompt, and clearing it again.
//!
//! Each run is a machine: `action` says what is to be done next, and what came
//! of it is handed back.

#[allow(unused_imports)]
use crate::ax_tree::within;
use crate::ax_tree::AxTree;
#[allow(unused_imports)]
use crate::live::{
    as_error, enabled_at, error_of, field_focused, front_fault, in_front_now, process_at,
    title_fault, LiveView, PromptErrorView,
};
use crate::live::{
    belongs_to_process, element_enabled, ensure_live_prompt_window_title,
    ensure_prompt_frontmost_for_automation, password_field_has_focus, Action, Fault, LiveState,
    PromptError,
};
use crate::prompt::MacosPrompt;
#[allow(unused_imports)]
use crate::prompt::PromptView;
use crate::revalidate::{
    ensure_filled_field_may_be_cleared, ensure_verified_prompt_matches_fill_target,
    revalidate_focused_password_field_for_keyboard, revalidate_prepared_prompt_for_fill,
    verified_password_field_in_prompt, MacosFilledPrompt, MacosVerifiedPrompt,
};
#[allow(unused_imports)]
use crate::revalidate::{
    clear_error, fill_target_fault, first, first_error, focus_error, insertion_error, key_error,
    FilledView, VerifiedView,
};
use crate::text::is_blank;
#[allow(unused_imports)]
use crate::text::trimmed;
#[allow(unused_imports)]
use crate::waiting::{after_look, button_step, look_step};
use crate::waiting::{
    wait_for_button_enabled, StableWait, WaitStep, FOCUS_ACQUIRE_TIMEOUT_MS, FOCUS_STABLE_SETTLE_MS,
    KEY_EVENT_SETTLE_MS, PASSWORD_CLEANUP_ATTEMPTS, PASSWORD_CLEANUP_RETRY_MS,
    PASSWORD_FILL_READY_MS, POST_FILL_SETTLE_MS,
};
use vstd::prelude::*;

verus! {

pub const KEYCODE_A: u16 = 0;

pub const KEYCODE_RETURN: u16 = 36;

pub const KEYCODE_DELETE: u16 = 51;

pub const CG_EVENT_FLAG_MASK_COMMAND: u64 = 0x0010_0000;

// ---------------------------------------------------------------------------
// Giving a field the focus
// ---------------------------------------------------------------------------

/// How far a focus attempt is.
#[derive(Debug, Clone, Copy, PartialEq, Eq, Structural)]
pub enum FocusStage {
    Check,
    Press,
    Claim,
    Settle(StableWait),
    Done(bool),
}

/// What a focus attempt does next.
#[derive(Debug, Clone, Copy, PartialEq, Eq, Structural)]
pub enum FocusAction {
    ReadLive,
    PressField,
    SetFocused,
    Finish(bool),
}

/// An attempt to give a password field the focus.
#[derive(Debug, Clone, Copy, PartialEq, Eq, Structural)]
pub struct FocusRun {
    pub field: u64,
    pub process_id: i32,
    pub prompt_root: u64,
    pub stage: FocusStage,
    /// How long to sleep before the next look.
    pub pause: u64,
}

/// What came of an action of a focus attempt.
pub enum FocusEvent {
    Live(LiveView, u64),
    Acted(u64),
}

/// A focus attempt after an event. An event out of turn changes nothing.
pub open spec fn focus_next(r: FocusRun, e: FocusEvent) -> FocusRun {
    match (r.stage, e) {
        (FocusStage::Check, FocusEvent::Live(live, _)) => if process_at(live.nodes, r.field)
            == Some(r.process_id) && within(live.nodes, r.field, r.prompt_root) {
            FocusRun { stage: FocusStage::Press, ..r }
        } else {
            FocusRun { stage: FocusStage::Done(false), ..r }
        },
        (FocusStage::Press, FocusEvent::Acted(_)) => FocusRun { stage: FocusStage::Claim, ..r },
        (FocusStage::Claim, FocusEvent::Acted(now)) => FocusRun {
            stage: FocusStage::Settle(
                StableWait {
                    stable_for: FOCUS_STABLE_SETTLE_MS,
                    timeout: FOCUS_ACQUIRE_TIMEOUT_MS,
                    started: now,
                    stable_since: None,
                },
            ),
            ..r
        },
        (FocusStage::Settle(w), FocusEvent::Live(live, now)) => {
            let focused = field_focused(live, r.field, r.process_id);
            match look_step(w, focused, now) {
                WaitStep::Done(result) => FocusRun { stage: FocusStage::Done(result), ..r },
                WaitStep::Sleep(ms) => FocusRun {
                    stage: FocusStage::Settle(after_look(w, focused, now)),
                    pause: ms,
                    ..r
                },
            }
        },
        _ => r,
    }
}

impl FocusRun {
    pub fn focus_password_field(field: u64, process_id: i32, prompt_root: u64) -> (out: Self)
        ensures
            out == (FocusRun {
                field,
                process_id,
                prompt_root,
                stage: FocusStage::Check,
                pause: 0,
            }),
    {
        FocusRun { field, process_id, prompt_root, stage: FocusStage::Check, pause: 0 }
    }

    pub fn action(&self) -> (out: FocusAction)
        ensures
            out == match self.stage {
                FocusStage::Check => FocusAction::ReadLive,
                FocusStage::Press => FocusAction::PressField,
                FocusStage::Claim => FocusAction::SetFocused,
                FocusStage::Settle(_) => FocusAction::ReadLive,
                FocusStage::Done(result) => FocusAction::Finish(result),
            },
    {
        match self.stage {
            FocusStage::Check => FocusAction::ReadLive,
            FocusStage::Press => FocusAction::PressField,
            FocusStage::Claim => FocusAction::SetFocused,
            FocusStage::Settle(_) => FocusAction::ReadLive,
            FocusStage::Done(result) => FocusAction::Finish(result),
        }
    }

    /// A reading of the application.
    pub fn on_live(&mut self, live: &LiveState, now: u64)
        ensures
            *final(self) == focus_next(*old(self), FocusEvent::Live(live.deep_view(), now)),
    {
        match self.stage {
            FocusStage::Check => {
                if belongs_to_process(&live.tree, self.field, self.process_id)
                    && live.tree.element_has_ancestor(self.field, self.prompt_root) {
                    self.stage = FocusStage::Press;
                } else {
                    self.stage = FocusStage::Done(false);
                }
            },
            FocusStage::Settle(wait) => {
                let mut wait: StableWait = wait;
                let focused: bool = password_field_has_focus(live, self.field, self.process_id);
                match wait.wait_for_stable_condition(focused, now) {
                    WaitStep::Done(result) => {
                        self.stage = FocusStage::Done(result);
                    },
                    WaitStep::Sleep(ms) => {
                        self.stage = FocusStage::Settle(wait);
                        self.pause = ms;
                    },
                }
            },
            _ => {},
        }
    }

    /// The press, or the claim of the focus, was tried; whether it succeeded does
    /// not matter.
    pub fn on_acted(&mut self, now: u64)
        ensures
            *final(self) == focus_next(*old(self), FocusEvent::Acted(now)),
    {
        match self.stage {
            FocusStage::Press => {
                self.stage = FocusStage::Claim;
            },
            FocusStage::Claim => {
                self.stage = FocusStage::Settle(StableWait::for_focus(now));
            },
            _ => {},
        }
    }
}

pub open spec fn focus_run(r: FocusRun, es: Seq<FocusEvent>) -> FocusRun
    decreases es.len(),
{
    if es.len() == 0 {
        r
    } else {
        focus_next(focus_run(r, es.drop_last()), es.last())
    }
}

/// How often the field was pressed.
pub open spec fn presses(r: FocusRun, es: Seq<FocusEvent>) -> nat
    decreases es.len(),
{
    if es.len() == 0 {
        0
    } else {
        presses(r, es.drop_last()) + if focus_run(r, es.drop_last()).stage == FocusStage::Press
            && es.last() is Acted {
            1nat
        } else {
            0nat
        }
    }
}

/// How often the focus was claimed.
pub open spec fn claims(r: FocusRun, es: Seq<FocusEvent>) -> nat
    decreases es.len(),
{
    if es.len() == 0 {
        0
    } else {
        claims(r, es.drop_last()) + if focus_run(r, es.drop_last()).stage == FocusStage::Claim
            && es.last() is Acted {
            1nat
        } else {
            0nat
        }
    }
}

/// A field counts as focused only after it was pressed once and then claimed the
/// focus once, whatever it said before.
pub proof fn law_focus_takes_a_press(r: FocusRun, es: Seq<FocusEvent>)
    requires
        r.stage == FocusStage::Check,
    ensures
        match focus_run(r, es).stage {
            FocusStage::Check | FocusStage::Press => presses(r, es) == 0 && claims(r, es) == 0,
            FocusStage::Claim => presses(r, es) == 1 && claims(r, es) == 0,
            FocusStage::Settle(w) => presses(r, es) == 1 && claims(r, es) == 1 && w.stable_for
                == FOCUS_STABLE_SETTLE_MS && w.timeout == FOCUS_ACQUIRE_TIMEOUT_MS,
            FocusStage::Done(true) => presses(r, es) == 1 && claims(r, es) == 1,
            FocusStage::Done(false) => presses(r, es) <= 1 && claims(r, es) == presses(r, es),
        },
    decreases es.len(),
{
    if es.len() > 0 {
        law_focus_takes_a_press(r, es.drop_last());
    }
}

// ---------------------------------------------------------------------------
// Filling
// ---------------------------------------------------------------------------

/// The keyboard events of a fill, in their order.
#[derive(Debug, Clone, Copy, PartialEq, Eq, Structural)]
pub enum FillKey {
    /// Select what the field holds.
    Select,
    /// Delete it.
    Erase,
    /// Type the password.
    Insert,
}

pub open spec fn key_action(k: FillKey) -> Action {
    match k {
        FillKey::Select => Action::ClearShortcut,
        FillKey::Erase => Action::Clear,
        FillKey::Insert => Action::KeyboardInsertion,
    }
}

impl FillKey {
    pub fn action(self) -> (out: Action)
        ensures
            out == key_action(self),
    {
        match self {
            FillKey::Select => Action::ClearShortcut,
            FillKey::Erase => Action::Clear,
            FillKey::Insert => Action::KeyboardInsertion,
        }
    }
}

/// How far a fill is.
#[derive(Debug, Clone, Copy, PartialEq, Eq, Structural)]
pub enum FillStage {
    Start,
    Prepare,
    Aim,
    Focus,
    Guard(FillKey),
    Check(FillKey),
    LastGuard(FillKey),
    Send(FillKey),
    Settle(FillKey),
    Confirm,
    Button,
    Filled(bool),
    FailedBeforeWrite,
    FailedAfterWrite,
}

/// What a fill does next.
#[derive(Debug, Clone, Copy, PartialEq, Eq, Structural)]
pub enum FillAction {
    CheckGuard,
    ReadLive,
    FocusField,
    SendKey { process_id: i32, keycode: u16, flags: u64 },
    SendText { process_id: i32 },
    Sleep { ms: u64 },
    AwaitButton { timeout_ms: u64 },
    Stop,
}

/// Why a fill failed.
#[derive(Debug, Clone, PartialEq, Eq)]
pub enum FillError {
    Prompt(PromptError),
    Guard(String),
    NotSent(FillKey),
}

pub enum FillErrorView {
    Prompt(PromptErrorView),
    Guard(Seq<char>),
    NotSent(FillKey),
}

impl DeepView for FillError {
    type V = FillErrorView;

    open spec fn deep_view(&self) -> FillErrorView {
        match self {
            FillError::Prompt(e) => FillErrorView::Prompt(e.deep_view()),
            FillError::Guard(why) => FillErrorView::Guard(why@),
            FillError::NotSent(k) => FillErrorView::NotSent(*k),
        }
    }
}

pub open spec fn fill_error_text(e: FillErrorView) -> Seq<char> {
    match e {
        FillErrorView::Prompt(e) => crate::live::prompt_error_text(e),
        FillErrorView::Guard(why) => why,
        FillErrorView::NotSent(FillKey::Select) => {
            "password field clear shortcut event creation failed"@
        },
        FillErrorView::NotSent(FillKey::Erase) => "password field clear event creation failed"@,
        FillErrorView::NotSent(FillKey::Insert) => "password insertion event creation failed"@,
    }
}

impl FillError {
    /// `fill_error_text`, computed.
    pub fn message(&self) -> (out: String)
        ensures
            out@ == fill_error_text(self.deep_view()),
    {
        match self {
            FillError::Prompt(error) => error.message(),
            FillError::Guard(why) => why.clone(),
            FillError::NotSent(FillKey::Select) => {
                "password field clear shortcut event creation failed".to_owned()
            },
            FillError::NotSent(FillKey::Erase) => {
                "password field clear event creation failed".to_owned()
            },
            FillError::NotSent(FillKey::Insert) => {
                "password insertion event creation failed".to_owned()
            },
        }
    }
}

/// A fill of one prompt for one account.
pub struct FillRun {
    pub verified: MacosVerifiedPrompt,
    pub process_id: i32,
    pub window_title: String,
    pub prompt_origin: String,
    pub email: String,
    pub stage: FillStage,
    pub error: Option<FillError>,
}

#[verifier::ext_equal]
pub struct FillView {
    pub verified: VerifiedView,
    pub process_id: i32,
    pub window_title: Seq<char>,
    pub prompt_origin: Seq<char>,
    pub email: Seq<char>,
    pub stage: FillStage,
    pub error: Option<FillErrorView>,
}

impl DeepView for FillRun {
    type V = FillView;

    open spec fn deep_view(&self) -> FillView {
        FillView {
            verified: self.verified.deep_view(),
            process_id: self.process_id,
            window_title: self.window_title@,
            prompt_origin: self.prompt_origin@,
            email: self.email@,
            stage: self.stage,
            error: self.error.deep_view(),
        }
    }
}

/// What came of an action of a fill.
pub enum FillEvent {
    Guard(Result<(), Seq<char>>),
    Live(LiveView, LiveView),
    Focus(bool),
    Sent(bool),
    Elapsed,
    Button(bool),
}

pub open spec fn fill_at(f: FillView, stage: FillStage) -> FillView {
    FillView { stage, ..f }
}

pub open spec fn failed_before(f: FillView, e: FillErrorView) -> FillView {
    FillView { stage: FillStage::FailedBeforeWrite, error: Some(e), ..f }
}

pub open spec fn failed_after(f: FillView, e: FillErrorView) -> FillView {
    FillView { stage: FillStage::FailedAfterWrite, error: Some(e), ..f }
}

/// A fill that goes on to `stage`, unless an error stands against it.
pub open spec fn unless(f: FillView, e: Option<PromptErrorView>, stage: FillStage) -> FillView {
    match e {
        Some(e) => failed_before(f, FillErrorView::Prompt(e)),
        None => fill_at(f, stage),
    }
}

/// What stands against giving the focus to the field that is to be filled.
pub open spec fn aim_error(live: LiveView, p: PromptView, process_id: i32, title: Seq<char>) -> Option<
    PromptErrorView,
> {
    first_error(
        as_error(
            first(
                title_fault(live.nodes, p.target_window, title),
                front_fault(in_front_now(live, p), Action::PasswordInsertion),
            ),
        ),
        focus_error(live, p, process_id),
    )
}

pub open spec fn send_error(f: FillView, live: LiveView, last: LiveView, action: Action) -> Option<
    PromptErrorView,
> {
    key_error(
        live,
        last,
        f.verified.prompt,
        f.process_id,
        f.window_title,
        f.email,
        f.verified.trusted_process,
        action,
    )
}

/// A fill after an event. An event out of turn changes nothing.
pub open spec fn fill_next(f: FillView, e: FillEvent) -> FillView {
    match (f.stage, e) {
        (FillStage::Start, FillEvent::Guard(r)) => match r {
            Err(why) => failed_before(f, FillErrorView::Guard(why)),
            Ok(_) => unless(
                f,
                as_error(
                    fill_target_fault(
                        f.verified,
                        f.process_id,
                        f.window_title,
                        f.prompt_origin,
                        f.email,
                    ),
                ),
                FillStage::Prepare,
            ),
        },
        (FillStage::Prepare, FillEvent::Live(live, last)) => unless(
            f,
            insertion_error(live, last, f.verified, f.process_id, f.window_title, f.email),
            FillStage::Aim,
        ),
        (FillStage::Aim, FillEvent::Live(live, _)) => unless(
            f,
            aim_error(live, f.verified.prompt, f.process_id, f.window_title),
            FillStage::Focus,
        ),
        (FillStage::Focus, FillEvent::Focus(focused)) => if focused {
            fill_at(f, FillStage::Guard(FillKey::Select))
        } else {
            failed_before(
                f,
                FillErrorView::Prompt(PromptErrorView::Fault(Fault::FocusUnverified)),
            )
        },
        (FillStage::Guard(k), FillEvent::Guard(r)) => match r {
            Err(why) => failed_before(f, FillErrorView::Guard(why)),
            Ok(_) => fill_at(f, FillStage::Check(k)),
        },
        (FillStage::Check(k), FillEvent::Live(live, last)) => unless(
            f,
            send_error(f, live, last, key_action(k)),
            FillStage::LastGuard(k),
        ),
        (FillStage::LastGuard(k), FillEvent::Guard(r)) => match r {
            Err(why) => failed_before(f, FillErrorView::Guard(why)),
            Ok(_) => fill_at(f, FillStage::Send(k)),
        },
        (FillStage::Send(k), FillEvent::Sent(sent)) => if sent {
            fill_at(f, FillStage::Settle(k))
        } else {
            failed_before(f, FillErrorView::NotSent(k))
        },
        (FillStage::Settle(k), FillEvent::Elapsed) => match k {
            FillKey::Select => fill_at(f, FillStage::Guard(FillKey::Erase)),
            FillKey::Erase => fill_at(f, FillStage::Guard(FillKey::Insert)),
            FillKey::Insert => fill_at(f, FillStage::Confirm),
        },
        (FillStage::Confirm, FillEvent::Live(live, last)) => match send_error(
            f,
            live,
            last,
            Action::PostInsertion,
        ) {
            Some(e) => failed_after(f, FillErrorView::Prompt(e)),
            None => fill_at(f, FillStage::Button),
        },
        (FillStage::Button, FillEvent::Button(ready)) => fill_at(f, FillStage::Filled(ready)),
        _ => f,
    }
}

/// What a fill does at a stage.
pub open spec fn fill_action(stage: FillStage, process_id: i32) -> FillAction {
    match stage {
        FillStage::Start | FillStage::Guard(_) | FillStage::LastGuard(_) => FillAction::CheckGuard,
        FillStage::Prepare | FillStage::Aim | FillStage::Check(_) | FillStage::Confirm => {
            FillAction::ReadLive
        },
        FillStage::Focus => FillAction::FocusField,
        FillStage::Send(FillKey::Select) => FillAction::SendKey {
            process_id,
            keycode: KEYCODE_A,
            flags: CG_EVENT_FLAG_MASK_COMMAND,
        },
        FillStage::Send(FillKey::Erase) => FillAction::SendKey {
            process_id,
            keycode: KEYCODE_DELETE,
            flags: 0,
        },
        FillStage::Send(FillKey::Insert) => FillAction::SendText { process_id },
        FillStage::Settle(FillKey::Insert) => FillAction::Sleep { ms: POST_FILL_SETTLE_MS },
        FillStage::Settle(_) => FillAction::Sleep { ms: KEY_EVENT_SETTLE_MS },
        FillStage::Button => FillAction::AwaitButton { timeout_ms: PASSWORD_FILL_READY_MS },
        FillStage::Filled(_) | FillStage::FailedBeforeWrite | FillStage::FailedAfterWrite => {
            FillAction::Stop
        },
    }
}

pub open spec fn guard_view(r: Result<(), String>) -> Result<(), Seq<char>> {
    match r {
        Ok(_) => Ok(()),
        Err(why) => Err(why@),
    }
}

/// What a fill that succeeded came to.
pub struct MacosFillResult {
    pub fill_method: &'static str,
    pub fill_status: &'static str,
    pub password_field_focused: bool,
    pub password_field_role: String,
    pub password_field_description_present: bool,
    pub submit_button_ready_after_fill: bool,
    pub filled_prompt: Option<MacosFilledPrompt>,
}

/// Why a fill failed, with the prompt to clean up where the password may have
/// been typed.
pub struct MacosFillFailure {
    pub error: FillError,
    pub cleanup_prompt: Option<MacosFilledPrompt>,
}

impl MacosFillFailure {
    pub fn cleanup_prompt(&self) -> (out: Option<&MacosFilledPrompt>)
        ensures
            out.deep_view() == self.cleanup_prompt.deep_view(),
    {
        match &self.cleanup_prompt {
            Some(prompt) => Some(prompt),
            None => None,
        }
    }
}

/// The prompt after a fill.
pub open spec fn filled_by(f: FillView, ready: bool) -> FilledView {
    FilledView {
        prompt: f.verified.prompt,
        expected_email: f.email,
        trusted_process: f.verified.trusted_process,
        submit_button_ready_after_fill: ready,
    }
}

impl FillRun {
    /// A fill of a verified prompt.
    pub fn fill_verified_password(
        verified: MacosVerifiedPrompt,
        expected_process_id: i32,
        expected_window_title: &str,
        expected_prompt_origin: &str,
        expected_email: &str,
    ) -> (out: Self)
        ensures
            out.deep_view() == (FillView {
                verified: verified.deep_view(),
                process_id: expected_process_id,
                window_title: expected_window_title@,
                prompt_origin: expected_prompt_origin@,
                email: expected_email@,
                stage: FillStage::Start,
                error: None,
            }),
    {
        FillRun {
            verified,
            process_id: expected_process_id,
            window_title: expected_window_title.to_owned(),
            prompt_origin: expected_prompt_origin.to_owned(),
            email: expected_email.to_owned(),
            stage: FillStage::Start,
            error: None,
        }
    }

    /// `fill_action`, computed.
    pub fn action(&self) -> (out: FillAction)
        ensures
            out == fill_action(self.stage, self.process_id),
    {
        let process_id: i32 = self.process_id;
        match self.stage {
            FillStage::Start | FillStage::Guard(_) | FillStage::LastGuard(_) => {
                FillAction::CheckGuard
            },
            FillStage::Prepare | FillStage::Aim | FillStage::Check(_) | FillStage::Confirm => {
                FillAction::ReadLive
            },
            FillStage::Focus => FillAction::FocusField,
            FillStage::Send(FillKey::Select) => FillAction::SendKey {
                process_id,
                keycode: KEYCODE_A,
                flags: CG_EVENT_FLAG_MASK_COMMAND,
            },
            FillStage::Send(FillKey::Erase) => FillAction::SendKey {
                process_id,
                keycode: KEYCODE_DELETE,
                flags: 0,
            },
            FillStage::Send(FillKey::Insert) => FillAction::SendText { process_id },
            FillStage::Settle(FillKey::Insert) => FillAction::Sleep { ms: POST_FILL_SETTLE_MS },
            FillStage::Settle(_) => FillAction::Sleep { ms: KEY_EVENT_SETTLE_MS },
            FillStage::Button => FillAction::AwaitButton { timeout_ms: PASSWORD_FILL_READY_MS },
            FillStage::Filled(_) | FillStage::FailedBeforeWrite | FillStage::FailedAfterWrite => {
                FillAction::Stop
            },
        }
    }

    fn fail_before(&mut self, error: FillError)
        ensures
            final(self).deep_view() == failed_before(old(self).deep_view(), error.deep_view()),
    {
        self.stage = FillStage::FailedBeforeWrite;
        self.error = Some(error);
    }

    fn fail_after(&mut self, error: FillError)
        ensures
            final(self).deep_view() == failed_after(old(self).deep_view(), error.deep_view()),
    {
        self.stage = FillStage::FailedAfterWrite;
        self.error = Some(error);
    }

    /// What the guard said.
    pub fn on_guard(&mut self, guard: Result<(), String>)
        ensures
            final(self).deep_view() == fill_next(
                old(self).deep_view(),
                FillEvent::Guard(guard_view(guard)),
            ),
    {
        match self.stage {
            FillStage::Start => {
                if let Err(why) = guard {
                    self.fail_before(FillError::Guard(why));
                    return;
                }
                match ensure_verified_prompt_matches_fill_target(
                    &self.verified,
                    self.process_id,
                    self.window_title.as_str(),
                    self.prompt_origin.as_str(),
                    self.email.as_str(),
                ) {
                    Ok(_) => {
                        self.stage = FillStage::Prepare;
                    },
                    Err(fault) => {
                        self.fail_before(FillError::Prompt(PromptError::Fault(fault)));
                    },
                }
            },
            FillStage::Guard(key) => match guard {
                Ok(_) => {
                    self.stage = FillStage::Check(key);
                },
                Err(why) => {
                    self.fail_before(FillError::Guard(why));
                },
            },
            FillStage::LastGuard(key) => match guard {
                Ok(_) => {
                    self.stage = FillStage::Send(key);
                },
                Err(why) => {
                    self.fail_before(FillError::Guard(why));
                },
            },
            _ => {},
        }
    }

    fn check_keyboard(&self, live: &LiveState, last: &LiveState, action: Action) -> (out: Result<
        (),
        PromptError,
    >)
        ensures
            error_of(out) == send_error(
                self.deep_view(),
                live.deep_view(),
                last.deep_view(),
                action,
            ),
    {
        revalidate_focused_password_field_for_keyboard(
            live,
            last,
            &self.verified.prompt,
            self.process_id,
            self.window_title.as_str(),
            self.email.as_str(),
            &self.verified.trusted_process,
            action,
        )
    }

    fn check_aim(&self, live: &LiveState) -> (out: Result<(), PromptError>)
        ensures
            error_of(out) == aim_error(
                live.deep_view(),
                self.deep_view().verified.prompt,
                self.process_id,
                self.window_title@,
            ),
    {
        let prompt: &MacosPrompt = &self.verified.prompt;
        if let Err(fault) = ensure_live_prompt_window_title(
            &live.tree,
            prompt.target_window,
            self.window_title.as_str(),
        ) {
            return Err(PromptError::Fault(fault));
        }
        if let Err(fault) = ensure_prompt_frontmost_for_automation(
            live,
            prompt,
            Action::PasswordInsertion,
        ) {
            return Err(PromptError::Fault(fault));
        }
        verified_password_field_in_prompt(live, prompt, self.process_id)
    }

    /// Two readings of the application: before and after its process was
    /// identified.
    pub fn on_live(&mut self, live: &LiveState, last: &LiveState)
        ensures
            final(self).deep_view() == fill_next(
                old(self).deep_view(),
                FillEvent::Live(live.deep_view(), last.deep_view()),
            ),
    {
        match self.stage {
            FillStage::Prepare => match revalidate_prepared_prompt_for_fill(
                live,
                last,
                &self.verified,
                self.process_id,
                self.window_title.as_str(),
                self.email.as_str(),
            ) {
                Ok(_) => {
                    self.stage = FillStage::Aim;
                },
                Err(error) => {
                    self.fail_before(FillError::Prompt(error));
                },
            },
            FillStage::Aim => match self.check_aim(live) {
                Ok(_) => {
                    self.stage = FillStage::Focus;
                },
                Err(error) => {
                    self.fail_before(FillError::Prompt(error));
                },
            },
            FillStage::Check(key) => match self.check_keyboard(live, last, key.action()) {
                Ok(_) => {
                    self.stage = FillStage::LastGuard(key);
                },
                Err(error) => {
                    self.fail_before(FillError::Prompt(error));
                },
            },
            FillStage::Confirm => match self.check_keyboard(live, last, Action::PostInsertion) {
                Ok(_) => {
                    self.stage = FillStage::Button;
                },
                Err(error) => {
                    self.fail_after(FillError::Prompt(error));
                },
            },
            _ => {},
        }
    }

    /// How the focus attempt ended.
    pub fn on_focus(&mut self, focused: bool)
        ensures
            final(self).deep_view() == fill_next(old(self).deep_view(), FillEvent::Focus(focused)),
    {
        if let FillStage::Focus = self.stage {
            if focused {
                self.stage = FillStage::Guard(FillKey::Select);
            } else {
                self.fail_before(
                    FillError::Prompt(PromptError::Fault(Fault::FocusUnverified)),
                );
            }
        }
    }

    /// Whether the keyboard event was sent.
    pub fn on_sent(&mut self, sent: bool)
        ensures
            final(self).deep_view() == fill_next(old(self).deep_view(), FillEvent::Sent(sent)),
    {
        if let FillStage::Send(key) = self.stage {
            if sent {
                self.stage = FillStage::Settle(key);
            } else {
                self.fail_before(FillError::NotSent(key));
            }
        }
    }

    /// The sleep is over.
    pub fn on_elapsed(&mut self)
        ensures
            final(self).deep_view() == fill_next(old(self).deep_view(), FillEvent::Elapsed),
    {
        if let FillStage::Settle(key) = self.stage {
            self.stage = match key {
                FillKey::Select => FillStage::Guard(FillKey::Erase),
                FillKey::Erase => FillStage::Guard(FillKey::Insert),
                FillKey::Insert => FillStage::Confirm,
            };
        }
    }

    /// Whether the submit button became enabled.
    pub fn on_button(&mut self, ready: bool)
        ensures
            final(self).deep_view() == fill_next(old(self).deep_view(), FillEvent::Button(ready)),
    {
        if let FillStage::Button = self.stage {
            self.stage = FillStage::Filled(ready);
        }
    }

    fn filled(&self, ready: bool) -> (out: MacosFilledPrompt)
        ensures
            out.deep_view() == filled_by(self.deep_view(), ready),
    {
        MacosFilledPrompt {
            prompt: self.verified.prompt.duplicate(),
            expected_email: self.email.clone(),
            trusted_process: self.verified.trusted_process.duplicate(),
            submit_button_ready_after_fill: ready,
        }
    }

    /// What the fill came to; `None` while it is not over.
    pub fn finish(self) -> (out: Option<Result<MacosFillResult, MacosFillFailure>>)
        requires
            self.stage == FillStage::FailedBeforeWrite || self.stage == FillStage::FailedAfterWrite
                ==> self.error is Some,
        ensures
            match self.stage {
                FillStage::Filled(ready) => out matches Some(Ok(result)) && {
                    &&& result.fill_method@ == "keyboard"@
                    &&& result.fill_status@ == "ok"@
                    &&& result.password_field_focused
                    &&& result.password_field_role@ == self.verified.prompt.password_field_role@
                    &&& result.password_field_description_present == (trimmed(
                        self.verified.prompt.password_field_description@,
                    ).len() > 0)
                    &&& result.submit_button_ready_after_fill == ready
                    &&& result.filled_prompt.deep_view() == Some(filled_by(self.deep_view(), ready))
                },
                FillStage::FailedBeforeWrite => out matches Some(Err(failure)) && {
                    &&& Some(failure.error.deep_view()) == self.deep_view().error
                    &&& failure.cleanup_prompt is None
                },
                FillStage::FailedAfterWrite => out matches Some(Err(failure)) && {
                    &&& Some(failure.error.deep_view()) == self.deep_view().error
                    &&& failure.cleanup_prompt.deep_view() == Some(
                        filled_by(self.deep_view(), false),
                    )
                },
                _ => out is None,
            },
    {
        match self.stage {
            FillStage::Filled(ready) => {
                let description_present: bool = !is_blank(
                    self.verified.prompt.password_field_description.as_str(),
                );
                let filled: MacosFilledPrompt = self.filled(ready);
                Some(
                    Ok(
                        MacosFillResult {
                            fill_method: "keyboard",
                            fill_status: "ok",
                            password_field_focused: true,
                            password_field_role: self.verified.prompt.password_field_role.clone(),
                            password_field_description_present: description_present,
                            submit_button_ready_after_fill: ready,
                            filled_prompt: Some(filled),
                        },
                    ),
                )
            },
            FillStage::FailedBeforeWrite => match self.error {
                Some(error) => Some(Err(MacosFillFailure { error, cleanup_prompt: None })),
                None => None,
            },
            FillStage::FailedAfterWrite => {
                let cleanup: MacosFilledPrompt = self.filled(false);
                match self.error {
                    Some(error) => Some(
                        Err(MacosFillFailure { error, cleanup_prompt: Some(cleanup) }),
                    ),
                    None => None,
                }
            },
            _ => None,
        }
    }
}

/// A look at the submit button of a filled prompt. A prompt without one is not
/// waited for.
pub fn wait_for_prompt_submit_button_enabled(
    tree: &AxTree,
    prompt: &MacosPrompt,
    started: u64,
    timeout: u64,
    now: u64,
) -> (out: WaitStep)
    ensures
        out == match prompt.submit_button {
            Some(button) => button_step(
                enabled_at(tree.deep_view(), button),
                started,
                timeout,
                now,
            ),
            None => WaitStep::Done(false),
        },
{
    match prompt.submit_button {
        Some(button) => wait_for_button_enabled(
            element_enabled(tree, button),
            started,
            timeout,
            now,
        ),
        None => WaitStep::Done(false),
    }
}

// ---------------------------------------------------------------------------
// What a fill keeps to
// ---------------------------------------------------------------------------

pub open spec fn fill_run(f: FillView, es: Seq<FillEvent>) -> FillView
    decreases es.len(),
{
    if es.len() == 0 {
        f
    } else {
        fill_next(fill_run(f, es.drop_last()), es.last())
    }
}

/// The password was typed.
pub open spec fn typed(f: FillView, es: Seq<FillEvent>) -> bool
    decreases es.len(),
{
    es.len() > 0 && (typed(f, es.drop_last()) || (fill_run(f, es.drop_last()).stage
        == FillStage::Send(FillKey::Insert) && es.last() == FillEvent::Sent(true)))
}

pub open spec fn past_write(stage: FillStage) -> bool {
    stage == FillStage::Settle(FillKey::Insert) || stage is Confirm || stage is Button
        || stage is Filled || stage is FailedAfterWrite
}

/// Once the password is typed, the fill ends as filled or with a prompt to clean
/// up; a fill that fails without one has not typed it. The target never changes.
pub proof fn law_typed_password_is_accounted_for(f: FillView, es: Seq<FillEvent>)
    requires
        f.stage == FillStage::Start,
        f.error is None,
    ensures
        typed(f, es) == past_write(fill_run(f, es).stage),
        fill_run(f, es).stage is FailedBeforeWrite ==> !typed(f, es),
        fill_run(f, es).stage is FailedBeforeWrite || fill_run(f, es).stage is FailedAfterWrite
            ==> fill_run(f, es).error is Some,
        fill_run(f, es).verified == f.verified,
        fill_run(f, es).process_id == f.process_id,
        fill_run(f, es).window_title == f.window_title,
        fill_run(f, es).email == f.email,
    decreases es.len(),
{
    if es.len() > 0 {
        law_typed_password_is_accounted_for(f, es.drop_last());
    }
}

/// A keyboard event is sent only right after the guard agreed, and the guard is
/// asked then only right after a check of the prompt, its process and the focus
/// found nothing wrong. The first key comes only after the field took the focus,
/// and the focus is given only to a prompt that was revalidated.
pub proof fn law_keys_are_guarded(f: FillView, e: FillEvent, k: FillKey)
    requires
        f.stage != fill_next(f, e).stage,
    ensures
        fill_next(f, e).stage == FillStage::Send(k) ==> f.stage == FillStage::LastGuard(k) && (e
            matches FillEvent::Guard(Ok(_))),
        fill_next(f, e).stage == FillStage::LastGuard(k) ==> f.stage == FillStage::Check(k) && (
        e matches FillEvent::Live(live, last) && send_error(f, live, last, key_action(k)) is None),
        fill_next(f, e).stage == FillStage::Check(k) ==> f.stage == FillStage::Guard(k) && (e
            matches FillEvent::Guard(Ok(_))),
        fill_next(f, e).stage == FillStage::Guard(FillKey::Insert) ==> f.stage
            == FillStage::Settle(FillKey::Erase),
        fill_next(f, e).stage == FillStage::Guard(FillKey::Erase) ==> f.stage == FillStage::Settle(
            FillKey::Select,
        ),
        fill_next(f, e).stage == FillStage::Guard(FillKey::Select) ==> f.stage is Focus && e
            == FillEvent::Focus(true),
        fill_next(f, e).stage is Focus ==> f.stage is Aim && (e matches FillEvent::Live(live, _)
            && aim_error(live, f.verified.prompt, f.process_id, f.window_title) is None),
        fill_next(f, e).stage is Aim ==> f.stage is Prepare && (e matches FillEvent::Live(
            live,
            last,
        ) && insertion_error(live, last, f.verified, f.process_id, f.window_title, f.email)
            is None),
        fill_next(f, e).stage is Filled ==> f.stage is Button,
        fill_next(f, e).stage is Button ==> f.stage is Confirm && (e matches FillEvent::Live(
            live,
            last,
        ) && send_error(f, live, last, Action::PostInsertion) is None),
{
}

// ---------------------------------------------------------------------------
// Clearing a filled field
// ---------------------------------------------------------------------------

#[derive(Debug, Clone, Copy, PartialEq, Eq, Structural)]
pub enum ClearStage {
    Check,
    Write,
    Pause,
    Cleared,
    Failed,
}

/// What a clean-up does next.
#[derive(Debug, Clone, Copy, PartialEq, Eq, Structural)]
pub enum ClearAction {
    ReadLive,
    /// Set the value of the field to the empty text.
    EmptyField { field: u64 },
    Sleep { ms: u64 },
    Stop,
}

/// A clean-up of a filled field, tried a few times.
pub struct ClearRun {
    pub filled: MacosFilledPrompt,
    pub attempts: usize,
    pub stage: ClearStage,
    pub error: Option<PromptError>,
}

#[verifier::ext_equal]
pub struct ClearView {
    pub filled: FilledView,
    pub attempts: int,
    pub stage: ClearStage,
    pub error: Option<PromptErrorView>,
}

impl DeepView for ClearRun {
    type V = ClearView;

    open spec fn deep_view(&self) -> ClearView {
        ClearView {
            filled: self.filled.deep_view(),
            attempts: self.attempts as int,
            stage: self.stage,
            error: self.error.deep_view(),
        }
    }
}

/// What came of an action of a clean-up.
pub enum ClearEvent {
    Live(LiveView),
    Written(bool),
    Elapsed,
}

/// A clean-up after a failed attempt.
pub open spec fn attempt_failed(c: ClearView, e: PromptErrorView) -> ClearView {
    ClearView {
        attempts: c.attempts + 1,
        stage: if c.attempts + 1 < PASSWORD_CLEANUP_ATTEMPTS {
            ClearStage::Pause
        } else {
            ClearStage::Failed
        },
        error: Some(e),
        ..c
    }
}

/// A clean-up after an event. An event out of turn changes nothing.
pub open spec fn clear_next(c: ClearView, e: ClearEvent) -> ClearView {
    match (c.stage, e) {
        (ClearStage::Check, ClearEvent::Live(live)) => match clear_error(live, c.filled) {
            Some(e) => attempt_failed(c, e),
            None => ClearView { stage: ClearStage::Write, ..c },
        },
        (ClearStage::Write, ClearEvent::Written(written)) => if written {
            ClearView { stage: ClearStage::Cleared, ..c }
        } else {
            attempt_failed(c, PromptErrorView::Fault(Fault::ClearFailed))
        },
        (ClearStage::Pause, ClearEvent::Elapsed) => ClearView { stage: ClearStage::Check, ..c },
        _ => c,
    }
}

/// A clean-up that is not over has attempts left.
pub open spec fn clear_wf(c: ClearView) -> bool {
    &&& 0 <= c.attempts <= PASSWORD_CLEANUP_ATTEMPTS
    &&& !(c.stage is Failed) ==> c.attempts < PASSWORD_CLEANUP_ATTEMPTS
    &&& c.stage is Failed ==> c.attempts == PASSWORD_CLEANUP_ATTEMPTS && c.error is Some
}

impl ClearRun {
    /// A clean-up of a filled prompt.
    pub fn clear_filled_password(filled: MacosFilledPrompt) -> (out: Self)
        ensures
            out.deep_view() == (ClearView {
                filled: filled.deep_view(),
                attempts: 0,
                stage: ClearStage::Check,
                error: None,
            }),
            clear_wf(out.deep_view()),
    {
        ClearRun { filled, attempts: 0, stage: ClearStage::Check, error: None }
    }

    pub fn action(&self) -> (out: ClearAction)
        ensures
            out == match self.stage {
                ClearStage::Check => ClearAction::ReadLive,
                ClearStage::Write => ClearAction::EmptyField {
                    field: self.filled.prompt.password_field,
                },
                ClearStage::Pause => ClearAction::Sleep { ms: PASSWORD_CLEANUP_RETRY_MS },
                ClearStage::Cleared | ClearStage::Failed => ClearAction::Stop,
            },
            self.stage is Pause ==> out == (ClearAction::Sleep { ms: 50 }),
    {
        match self.stage {
            ClearStage::Check => ClearAction::ReadLive,
            ClearStage::Write => ClearAction::EmptyField {
                field: self.filled.prompt.password_field,
            },
            ClearStage::Pause => ClearAction::Sleep { ms: PASSWORD_CLEANUP_RETRY_MS },
            ClearStage::Cleared | ClearStage::Failed => ClearAction::Stop,
        }
    }

    fn fail(&mut self, error: PromptError)
        requires
            clear_wf(old(self).deep_view()),
            !(old(self).stage is Failed),
        ensures
            final(self).deep_view() == attempt_failed(old(self).deep_view(), error.deep_view()),
    {
        self.attempts = self.attempts + 1;
        self.stage = if self.attempts < PASSWORD_CLEANUP_ATTEMPTS {
            ClearStage::Pause
        } else {
            ClearStage::Failed
        };
        self.error = Some(error);
    }

    /// A reading of the application.
    pub fn on_live(&mut self, live: &LiveState)
        requires
            clear_wf(old(self).deep_view()),
        ensures
            final(self).deep_view() == clear_next(
                old(self).deep_view(),
                ClearEvent::Live(live.deep_view()),
            ),
            clear_wf(final(self).deep_view()),
    {
        if let ClearStage::Check = self.stage {
            match ensure_filled_field_may_be_cleared(live, &self.filled) {
                Ok(_) => {
                    self.stage = ClearStage::Write;
                },
                Err(error) => {
                    self.fail(error);
                },
            }
        }
    }

    /// Whether the empty value was set.
    pub fn on_written(&mut self, written: bool)
        requires
            clear_wf(old(self).deep_view()),
        ensures
            final(self).deep_view() == clear_next(
                old(self).deep_view(),
                ClearEvent::Written(written),
            ),
            clear_wf(final(self).deep_view()),
    {
        if let ClearStage::Write = self.stage {
            if written {
                self.stage = ClearStage::Cleared;
            } else {
                self.fail(PromptError::Fault(Fault::ClearFailed));
            }
        }
    }

    /// The sleep is over.
    pub fn on_elapsed(&mut self)
        requires
            clear_wf(old(self).deep_view()),
        ensures
            final(self).deep_view() == clear_next(old(self).deep_view(), ClearEvent::Elapsed),
            clear_wf(final(self).deep_view()),
    {
        if let ClearStage::Pause = self.stage {
            self.stage = ClearStage::Check;
        }
    }

    /// How the clean-up ended; `None` while it is not over.
    pub fn finish(self) -> (out: Option<Result<(), PromptError>>)
        requires
            clear_wf(self.deep_view()),
        ensures
            match self.stage {
                ClearStage::Cleared => out == Some(Ok::<(), PromptError>(())),
                ClearStage::Failed => out matches Some(Err(e)) && Some(e.deep_view())
                    == self.deep_view().error,
                _ => out is None,
            },
    {
        match self.stage {
            ClearStage::Cleared => Some(Ok(())),
            ClearStage::Failed => match self.error {
                Some(error) => Some(Err(error)),
                None => None,
            },
            _ => None,
        }
    }
}

/// The field is emptied only after a reading that found nothing wrong with it, and
/// a clean-up counts as done only once it was emptied.
pub proof fn law_only_a_checked_field_is_emptied(c: ClearView, e: ClearEvent)
    requires
        c.stage != clear_next(c, e).stage,
    ensures
        clear_next(c, e).stage is Write ==> c.stage is Check && (e matches ClearEvent::Live(live)
            && clear_error(live, c.filled) is None),
        clear_next(c, e).stage is Cleared ==> c.stage is Write && e == ClearEvent::Written(true),
        clear_next(c, e).filled == c.filled,
{
}

// ---------------------------------------------------------------------------
// What these runs come to
// ---------------------------------------------------------------------------

/// A fill in which nothing goes wrong asks the guard, reads the prompt twice and gives the
/// field the focus; then it comes to the first key.
pub proof fn law_a_fill_comes_to_its_field(
    f: FillView,
    prepare: LiveView,
    last: LiveView,
    aim: LiveView,
)
    requires
        f.stage is Start,
        fill_target_fault(f.verified, f.process_id, f.window_title, f.prompt_origin, f.email)
            is None,
        insertion_error(prepare, last, f.verified, f.process_id, f.window_title, f.email) is None,
        aim_error(aim, f.verified.prompt, f.process_id, f.window_title) is None,
    ensures
        ({
            let f1 = fill_next(f, FillEvent::Guard(Ok(())));
            let f2 = fill_next(f1, FillEvent::Live(prepare, last));
            let f3 = fill_next(f2, FillEvent::Live(aim, aim));
            let f4 = fill_next(f3, FillEvent::Focus(true));
            &&& fill_action(f.stage, f.process_id) == FillAction::CheckGuard
            &&& fill_action(f1.stage, f.process_id) == FillAction::ReadLive
            &&& fill_action(f2.stage, f.process_id) == FillAction::ReadLive
            &&& fill_action(f3.stage, f.process_id) == FillAction::FocusField
            &&& fill_action(f4.stage, f.process_id) == FillAction::CheckGuard
            &&& f4 == (FillView { stage: FillStage::Guard(FillKey::Select), ..f })
        }),
{
    let f1 = fill_next(f, FillEvent::Guard(Ok(())));
    assert(f1 == fill_at(f, FillStage::Prepare));
    let f2 = fill_next(f1, FillEvent::Live(prepare, last));
    assert(f2 == fill_at(f, FillStage::Aim));
    let f3 = fill_next(f2, FillEvent::Live(aim, aim));
    assert(f3 == fill_at(f, FillStage::Focus));
}

/// What is sent for a key, to the process of the prompt: the command key with A selects
/// what the field holds, the delete key takes it away, and then comes the password. The
/// first two have thirty milliseconds to work, and the password has forty.
pub open spec fn sent_for(k: FillKey, process_id: i32) -> (FillAction, FillAction) {
    match k {
        FillKey::Select => (
            FillAction::SendKey { process_id, keycode: 0, flags: 0x10_0000 },
            FillAction::Sleep { ms: 30 },
        ),
        FillKey::Erase => (
            FillAction::SendKey { process_id, keycode: 51, flags: 0 },
            FillAction::Sleep { ms: 30 },
        ),
        FillKey::Insert => (FillAction::SendText { process_id }, FillAction::Sleep { ms: 40 }),
    }
}

/// Each key goes out where nothing goes wrong: the guard agrees, the prompt is read and
/// found right, the guard agrees again, and the key is sent. After the selection comes the
/// deletion, and after that the password.
pub proof fn law_each_key_goes_out(f: FillView, k: FillKey, live: LiveView, last: LiveView)
    requires
        f.stage == FillStage::Guard(k),
        send_error(
            f,
            live,
            last,
            match k {
                FillKey::Select => Action::ClearShortcut,
                FillKey::Erase => Action::Clear,
                FillKey::Insert => Action::KeyboardInsertion,
            },
        ) is None,
    ensures
        ({
            let f1 = fill_next(f, FillEvent::Guard(Ok(())));
            let f2 = fill_next(f1, FillEvent::Live(live, last));
            let f3 = fill_next(f2, FillEvent::Guard(Ok(())));
            let f4 = fill_next(f3, FillEvent::Sent(true));
            let f5 = fill_next(f4, FillEvent::Elapsed);
            &&& fill_action(f.stage, f.process_id) == FillAction::CheckGuard
            &&& fill_action(f1.stage, f.process_id) == FillAction::ReadLive
            &&& fill_action(f2.stage, f.process_id) == FillAction::CheckGuard
            &&& fill_action(f3.stage, f.process_id) == sent_for(k, f.process_id).0
            &&& fill_action(f4.stage, f.process_id) == sent_for(k, f.process_id).1
            &&& f5 == (FillView {
                stage: match k {
                    FillKey::Select => FillStage::Guard(FillKey::Erase),
                    FillKey::Erase => FillStage::Guard(FillKey::Insert),
                    FillKey::Insert => FillStage::Confirm,
                },
                ..f
            })
        }),
{
    let f1 = fill_next(f, FillEvent::Guard(Ok(())));
    assert(f1 == fill_at(f, FillStage::Check(k)));
    assert(send_error(f1, live, last, key_action(k)) == send_error(f, live, last, key_action(k)));
    assert(fill_next(f1, FillEvent::Live(live, last)) == fill_at(f, FillStage::LastGuard(k)));
}

/// After the password the prompt is read once more, the button has forty milliseconds, and
/// the prompt is filled.
pub proof fn law_a_typed_password_fills_the_prompt(
    f: FillView,
    live: LiveView,
    last: LiveView,
    ready: bool,
)
    requires
        f.stage is Confirm,
        send_error(f, live, last, Action::PostInsertion) is None,
    ensures
        ({
            let f1 = fill_next(f, FillEvent::Live(live, last));
            let f2 = fill_next(f1, FillEvent::Button(ready));
            &&& fill_action(f.stage, f.process_id) == FillAction::ReadLive
            &&& fill_action(f1.stage, f.process_id) == (FillAction::AwaitButton { timeout_ms: 40 })
            &&& fill_action(f2.stage, f.process_id) == FillAction::Stop
            &&& f2 == (FillView { stage: FillStage::Filled(ready), ..f })
        }),
{
}

/// Whatever refuses ends a fill before the password is typed, with its own reason: the
/// guard, what was read, a field that did not get the focus, a key that could not be sent.
pub proof fn law_a_refusal_ends_a_fill(f: FillView, why: Seq<char>)
    ensures
        fill_action(f.stage, f.process_id) == FillAction::CheckGuard ==> {
            let t = fill_next(f, FillEvent::Guard(Err(why)));
            t.stage is FailedBeforeWrite && t.error == Some(FillErrorView::Guard(why))
        },
        fill_action(f.stage, f.process_id) == FillAction::FocusField ==> {
            let t = fill_next(f, FillEvent::Focus(false));
            t.stage is FailedBeforeWrite && t.error == Some(
                FillErrorView::Prompt(PromptErrorView::Fault(Fault::FocusUnverified)),
            )
        },
        forall|k: FillKey|
            f.stage == FillStage::Send(k) ==> {
                let t = #[trigger] fill_next(f, FillEvent::Sent(false));
                t.stage is FailedBeforeWrite && t.error == Some(FillErrorView::NotSent(k))
            },
        f.stage is FailedBeforeWrite || f.stage is FailedAfterWrite || f.stage is Filled
            ==> fill_action(f.stage, f.process_id) == FillAction::Stop,
{
}

/// A reading that finds something wrong ends a fill with what was found; once the password
/// is typed, the field is to be emptied.
pub proof fn law_a_wrong_reading_ends_a_fill(f: FillView, live: LiveView, last: LiveView)
    ensures
        ({
            let t = fill_next(f, FillEvent::Live(live, last));
            &&& f.stage is Prepare ==> (insertion_error(
                live,
                last,
                f.verified,
                f.process_id,
                f.window_title,
                f.email,
            ) matches Some(e) ==> t.stage is FailedBeforeWrite && t.error == Some(
                FillErrorView::Prompt(e),
            ))
            &&& f.stage is Aim ==> (aim_error(
                live,
                f.verified.prompt,
                f.process_id,
                f.window_title,
            ) matches Some(e) ==> t.stage is FailedBeforeWrite && t.error == Some(
                FillErrorView::Prompt(e),
            ))
            &&& f.stage == FillStage::Check(FillKey::Insert) ==> (send_error(
                f,
                live,
                last,
                Action::KeyboardInsertion,
            ) matches Some(e) ==> t.stage is FailedBeforeWrite && t.error == Some(
                FillErrorView::Prompt(e),
            ))
            &&& f.stage is Confirm ==> (send_error(
                f,
                live,
                last,
                Action::PostInsertion,
            ) matches Some(e) ==> t.stage is FailedAfterWrite && t.error == Some(
                FillErrorView::Prompt(e),
            ))
        }),
{
}

/// The looks of an attempt to get the focus.
pub open spec fn focus_looks(r: FocusRun, looks: Seq<(LiveView, u64)>) -> FocusRun
    decreases looks.len(),
{
    if looks.len() == 0 {
        r
    } else {
        focus_next(
            focus_looks(r, looks.drop_last()),
            FocusEvent::Live(looks.last().0, looks.last().1),
        )
    }
}

/// A field of the process, in the prompt, is pressed and told to take the focus, whatever
/// comes of either. It has the focus once every look of a hundred and fifty milliseconds
/// found so; until then it is looked at again, for half a second.
pub proof fn law_a_field_gets_the_focus(
    r: FocusRun,
    live: LiveView,
    pressed_at: u64,
    started: u64,
    looks: Seq<(LiveView, u64)>,
)
    requires
        r.stage == FocusStage::Check,
        process_at(live.nodes, r.field) == Some(r.process_id),
        within(live.nodes, r.field, r.prompt_root),
        looks.len() > 0,
        forall|i: int|
            0 <= i < looks.len() ==> field_focused((#[trigger] looks[i]).0, r.field, r.process_id),
        forall|i: int|
            0 <= i < looks.len() - 1 ==> looks[0].1 <= (#[trigger] looks[i]).1 < looks[0].1 + 150,
        forall|i: int|
            0 <= i < looks.len() - 1 ==> started <= (#[trigger] looks[i]).1 < started + 500,
    ensures
        ({
            let r1 = focus_next(r, FocusEvent::Live(live, pressed_at));
            let r2 = focus_next(r1, FocusEvent::Acted(pressed_at));
            let r3 = focus_next(r2, FocusEvent::Acted(started));
            let t = focus_looks(r3, looks);
            &&& r1.stage == FocusStage::Press
            &&& r2.stage == FocusStage::Claim
            &&& r3.stage is Settle
            &&& looks.last().1 >= looks[0].1 + 150 ==> t.stage == FocusStage::Done(true)
            &&& looks[0].1 <= looks.last().1 < looks[0].1 + 150 && looks.last().1 >= started
                + 500 ==> t.stage == FocusStage::Done(false)
            &&& looks[0].1 <= looks.last().1 < looks[0].1 + 150 && started <= looks.last().1
                < started + 500 ==> t.stage is Settle && t.pause == if looks.last().1 + 10
                <= started + 500 {
                10
            } else {
                started + 500 - looks.last().1
            }
        }),
{
    let r1 = focus_next(r, FocusEvent::Live(live, pressed_at));
    let r2 = focus_next(r1, FocusEvent::Acted(pressed_at));
    let r3 = focus_next(r2, FocusEvent::Acted(started));
    lemma_focus_settles(r3, started, looks);
}

proof fn lemma_focus_settles(r: FocusRun, started: u64, looks: Seq<(LiveView, u64)>)
    requires
        r.stage == FocusStage::Settle(
            StableWait { stable_for: 150, timeout: 500, started, stable_since: None },
        ),
        looks.len() > 0,
        forall|i: int|
            0 <= i < looks.len() ==> field_focused((#[trigger] looks[i]).0, r.field, r.process_id),
        forall|i: int|
            0 <= i < looks.len() - 1 ==> looks[0].1 <= (#[trigger] looks[i]).1 < looks[0].1 + 150,
        forall|i: int|
            0 <= i < looks.len() - 1 ==> started <= (#[trigger] looks[i]).1 < started + 500,
    ensures
        ({
            let t = focus_looks(r, looks);
            let now = looks.last().1;
            &&& t.field == r.field
            &&& t.process_id == r.process_id
            &&& now >= looks[0].1 + 150 ==> t.stage == FocusStage::Done(true)
            &&& looks[0].1 <= now < looks[0].1 + 150 && now >= started + 500 ==> t.stage
                == FocusStage::Done(false)
            &&& looks[0].1 <= now < looks[0].1 + 150 && started <= now < started + 500 ==> {
                &&& t.stage == FocusStage::Settle(
                    StableWait {
                        stable_for: 150,
                        timeout: 500,
                        started,
                        stable_since: Some(looks[0].1),
                    },
                )
                &&& t.pause == if now + 10 <= started + 500 {
                    10
                } else {
                    started + 500 - now
                }
            }
        }),
    decreases looks.len(),
{
    let front = looks.drop_last();
    assert(field_focused(looks[looks.len() - 1].0, r.field, r.process_id));
    if front.len() == 0 {
        assert(focus_looks(r, front) == r);
    } else {
        assert forall|i: int| 0 <= i < front.len() implies field_focused(
            (#[trigger] front[i]).0,
            r.field,
            r.process_id,
        ) by {
            assert(field_focused(looks[i].0, r.field, r.process_id));
        }
        assert forall|i: int| 0 <= i < front.len() - 1 implies front[0].1 <= (
        #[trigger] front[i]).1 < front[0].1 + 150 by {
            assert(looks[0].1 <= looks[i].1 < looks[0].1 + 150);
        }
        assert forall|i: int| 0 <= i < front.len() - 1 implies started <= (#[trigger] front[i]).1
            < started + 500 by {
            assert(started <= looks[i].1 < started + 500);
        }
        assert(looks[0].1 <= looks[front.len() - 1].1 < looks[0].1 + 150);
        assert(started <= looks[front.len() - 1].1 < started + 500);
        lemma_focus_settles(r, started, front);
    }
}

/// A field that is not of the process, or not in the prompt, is not pressed at all.
pub proof fn law_a_strange_field_is_not_pressed(r: FocusRun, live: LiveView, now: u64)
    requires
        r.stage == FocusStage::Check,
        process_at(live.nodes, r.field) != Some(r.process_id) || !within(
            live.nodes,
            r.field,
            r.prompt_root,
        ),
    ensures
        focus_next(r, FocusEvent::Live(live, now)).stage == FocusStage::Done(false),
{
}

/// A field that may be emptied is emptied; an attempt that fails is followed by another, up
/// to the third.
pub proof fn law_a_clean_up_is_tried_three_times(c: ClearView, live: LiveView)
    requires
        clear_wf(c),
        c.stage is Check,
    ensures
        clear_error(live, c.filled) is None ==> {
            let t = clear_next(c, ClearEvent::Live(live));
            &&& t.stage is Write
            &&& clear_next(t, ClearEvent::Written(true)).stage is Cleared
            &&& tried_again(
                c,
                clear_next(t, ClearEvent::Written(false)),
                PromptErrorView::Fault(Fault::ClearFailed),
            )
        },
        clear_error(live, c.filled) matches Some(e) ==> tried_again(
            c,
            clear_next(c, ClearEvent::Live(live)),
            e,
        ),
{
}

/// An attempt that failed is noted, and there is another after a pause, or there is not.
pub open spec fn tried_again(c: ClearView, t: ClearView, e: PromptErrorView) -> bool {
    &&& t.attempts == c.attempts + 1
    &&& t.error == Some(e)
    &&& t.filled == c.filled
    &&& if c.attempts >= 2 {
        t.stage is Failed
    } else {
        t.stage is Pause && clear_next(t, ClearEvent::Elapsed).stage is Check
    }
}

/// What is remembered of a prompt that was filled is the prompt, the account and the
/// process that it was filled for, and whether its button was ready.
pub proof fn law_what_is_remembered_of_a_fill(f: FillView, ready: bool)
    ensures
        filled_by(f, ready).prompt == f.verified.prompt,
        filled_by(f, ready).expected_email == f.email,
        filled_by(f, ready).trusted_process == f.verified.trusted_process,
        filled_by(f, ready).submit_button_ready_after_fill == ready,
{
}

/// What was not asked for changes nothing: an answer counts only where it was waited for.
pub proof fn law_a_fill_takes_what_it_asked_for(f: FillView, e: FillEvent)
    requires
        match fill_action(f.stage, f.process_id) {
            FillAction::CheckGuard => !(e is Guard),
            FillAction::ReadLive => !(e is Live),
            FillAction::FocusField => !(e is Focus),
            FillAction::SendKey { .. } => !(e is Sent),
            FillAction::SendText { .. } => !(e is Sent),
            FillAction::Sleep { .. } => !(e is Elapsed),
            FillAction::AwaitButton { .. } => !(e is Button),
            FillAction::Stop => true,
        },
    ensures
        fill_next(f, e) == f,
{
}

} // verus!
