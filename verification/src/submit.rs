//! Submitting a filled prompt: by the Return key, and where that cannot be sent,
//! by pressing its button.

use crate::fill::KEYCODE_RETURN;
#[allow(unused_imports)]
use crate::fill::guard_view;
#[allow(unused_imports)]
use crate::live::{as_error, LiveView, PromptErrorView};
use crate::live::{Action, Fault, LiveState, PromptError};
use crate::prompt_text::PromptOrigin;
#[allow(unused_imports)]
use crate::revalidate::{
    filled_fault, filled_for, focus_error, key_error, ready_error, submit_error, FilledView,
};
use crate::revalidate::{
    ensure_filled_prompt_ready, ensure_filled_prompt_stands, ensure_submit_side_effect_target_ready,
    revalidate_focused_password_field_for_keyboard, verified_password_field_in_prompt,
    MacosFilledPrompt,
};
use crate::waiting::FAST_SUBMIT_READY_TIMEOUT_MS;
use vstd::prelude::*;

verus! {

/// The prompt that was submitted.
#[derive(Clone)]
pub struct MacosSubmittedPrompt {
    pub process_id: i32,
    pub window_title: String,
    pub email: String,
    pub origin: PromptOrigin,
    pub target_window: u64,
    pub prompt_container: u64,
}

#[verifier::ext_equal]
pub struct SubmittedView {
    pub process_id: i32,
    pub window_title: Seq<char>,
    pub email: Seq<char>,
    pub origin: PromptOrigin,
    pub target_window: u64,
    pub prompt_container: u64,
}

impl DeepView for MacosSubmittedPrompt {
    type V = SubmittedView;

    open spec fn deep_view(&self) -> SubmittedView {
        SubmittedView {
            process_id: self.process_id,
            window_title: self.window_title@,
            email: self.email@,
            origin: self.origin,
            target_window: self.target_window,
            prompt_container: self.prompt_container,
        }
    }
}

/// How a prompt was submitted.
#[derive(Clone)]
pub struct MacosSubmitResult {
    pub submit_method: &'static str,
    pub submit_status: &'static str,
    pub axpress_attempted: bool,
    pub axpress_result: &'static str,
    pub enter_fallback_attempted: bool,
    pub enter_fallback_result: &'static str,
    pub submitted_prompt: Option<MacosSubmittedPrompt>,
}

/// How far a submit is. The flag says whether the Return key was tried.
#[derive(Debug, Clone, Copy, PartialEq, Eq, Structural)]
pub enum SubmitStage {
    Start,
    Stand,
    AwaitButton,
    Ready(bool),
    Fast,
    FocusCheck,
    Focus,
    ReturnGuard,
    ReturnCheck,
    ReturnLastGuard,
    SendReturn,
    Fallback(bool),
    FallbackGuard(bool),
    Press(bool),
    Entered,
    Pressed { enter_tried: bool, success: bool },
    Failed,
}

/// What a submit does next.
#[derive(Debug, Clone, Copy, PartialEq, Eq, Structural)]
pub enum SubmitAction {
    CheckGuard,
    ReadLive,
    AwaitButton { timeout_ms: u64 },
    FocusField,
    SendKey { process_id: i32, keycode: u16, flags: u64 },
    PressButton { button: u64 },
    Stop,
}

/// Why a submit failed.
#[derive(Debug, Clone, PartialEq, Eq)]
pub enum SubmitError {
    Prompt(PromptError),
    Guard(String),
}

pub enum SubmitErrorView {
    Prompt(PromptErrorView),
    Guard(Seq<char>),
}

impl DeepView for SubmitError {
    type V = SubmitErrorView;

    open spec fn deep_view(&self) -> SubmitErrorView {
        match self {
            SubmitError::Prompt(e) => SubmitErrorView::Prompt(e.deep_view()),
            SubmitError::Guard(why) => SubmitErrorView::Guard(why@),
        }
    }
}

impl SubmitError {
    pub fn message(&self) -> (out: String)
        ensures
            out@ == match self.deep_view() {
                SubmitErrorView::Prompt(e) => crate::live::prompt_error_text(e),
                SubmitErrorView::Guard(why) => why,
            },
    {
        match self {
            SubmitError::Prompt(error) => error.message(),
            SubmitError::Guard(why) => why.clone(),
        }
    }
}

/// A submit of one filled prompt.
pub struct SubmitRun {
    pub filled: MacosFilledPrompt,
    pub button: u64,
    pub stage: SubmitStage,
    pub error: Option<SubmitError>,
}

#[verifier::ext_equal]
pub struct SubmitView {
    pub filled: FilledView,
    pub button: u64,
    pub stage: SubmitStage,
    pub error: Option<SubmitErrorView>,
}

impl DeepView for SubmitRun {
    type V = SubmitView;

    open spec fn deep_view(&self) -> SubmitView {
        SubmitView {
            filled: self.filled.deep_view(),
            button: self.button,
            stage: self.stage,
            error: self.error.deep_view(),
        }
    }
}

/// What came of an action of a submit.
pub enum SubmitEvent {
    Guard(Result<(), Seq<char>>),
    Live(LiveView, LiveView),
    Button(bool),
    Focus(bool),
    Sent(bool),
    Pressed(bool),
}

pub open spec fn submit_at(s: SubmitView, stage: SubmitStage) -> SubmitView {
    SubmitView { stage, ..s }
}

pub open spec fn submit_failed(s: SubmitView, e: SubmitErrorView) -> SubmitView {
    SubmitView { stage: SubmitStage::Failed, error: Some(e), ..s }
}

pub open spec fn submit_unless(
    s: SubmitView,
    e: Option<PromptErrorView>,
    stage: SubmitStage,
) -> SubmitView {
    match e {
        Some(e) => submit_failed(s, SubmitErrorView::Prompt(e)),
        None => submit_at(s, stage),
    }
}

/// A submit that goes on to `stage` where the guard agrees.
pub open spec fn guarded(
    s: SubmitView,
    guard: Result<(), Seq<char>>,
    stage: SubmitStage,
) -> SubmitView {
    match guard {
        Err(why) => submit_failed(s, SubmitErrorView::Guard(why)),
        Ok(_) => submit_at(s, stage),
    }
}

/// What stands against submitting right now.
pub open spec fn side_effect_error(
    s: SubmitView,
    live: LiveView,
    last: LiveView,
    action: Action,
) -> Option<PromptErrorView> {
    submit_error(
        live,
        last,
        s.filled.prompt,
        s.button,
        s.filled.trusted_process,
        s.filled.expected_email,
        s.filled.prompt.target.window_title,
        action,
    )
}

/// What stands against sending the Return key.
pub open spec fn return_error(s: SubmitView, live: LiveView, last: LiveView) -> Option<
    PromptErrorView,
> {
    key_error(
        live,
        last,
        s.filled.prompt,
        s.filled.prompt.target.process_id,
        s.filled.prompt.target.window_title,
        s.filled.expected_email,
        s.filled.trusted_process,
        Action::ReturnSubmit,
    )
}

/// A submit after an event. An event out of turn changes nothing.
pub open spec fn submit_next(s: SubmitView, e: SubmitEvent) -> SubmitView {
    match (s.stage, e) {
        (SubmitStage::Start, SubmitEvent::Guard(r)) => guarded(s, r, SubmitStage::Stand),
        (SubmitStage::Stand, SubmitEvent::Live(live, _)) => submit_unless(
            s,
            as_error(filled_fault(live, s.filled)),
            if s.filled.submit_button_ready_after_fill {
                SubmitStage::Ready(true)
            } else {
                SubmitStage::AwaitButton
            },
        ),
        (SubmitStage::AwaitButton, SubmitEvent::Button(ready)) => submit_at(
            s,
            SubmitStage::Ready(ready),
        ),
        (SubmitStage::Ready(ready), SubmitEvent::Live(live, _)) => match ready_error(
            ready,
            live,
            s.filled,
        ) {
            Some(e) => submit_failed(s, SubmitErrorView::Prompt(e)),
            None => SubmitView {
                stage: SubmitStage::Fast,
                button: s.filled.prompt.submit_button->0,
                ..s
            },
        },
        (SubmitStage::Fast, SubmitEvent::Live(live, last)) => submit_unless(
            s,
            side_effect_error(s, live, last, Action::FastSubmit),
            SubmitStage::FocusCheck,
        ),
        (SubmitStage::FocusCheck, SubmitEvent::Live(live, _)) => submit_at(
            s,
            if focus_error(live, s.filled.prompt, s.filled.prompt.target.process_id) is None {
                SubmitStage::Focus
            } else {
                SubmitStage::Fallback(false)
            },
        ),
        (SubmitStage::Focus, SubmitEvent::Focus(focused)) => submit_at(
            s,
            if focused {
                SubmitStage::ReturnGuard
            } else {
                SubmitStage::Fallback(false)
            },
        ),
        (SubmitStage::ReturnGuard, SubmitEvent::Guard(r)) => guarded(
            s,
            r,
            SubmitStage::ReturnCheck,
        ),
        (SubmitStage::ReturnCheck, SubmitEvent::Live(live, last)) => submit_at(
            s,
            if return_error(s, live, last) is None {
                SubmitStage::ReturnLastGuard
            } else {
                SubmitStage::Fallback(false)
            },
        ),
        (SubmitStage::ReturnLastGuard, SubmitEvent::Guard(r)) => submit_at(
            s,
            if r is Ok {
                SubmitStage::SendReturn
            } else {
                SubmitStage::Fallback(false)
            },
        ),
        (SubmitStage::SendReturn, SubmitEvent::Sent(sent)) => submit_at(
            s,
            if sent {
                SubmitStage::Entered
            } else {
                SubmitStage::Fallback(true)
            },
        ),
        (SubmitStage::Fallback(tried), SubmitEvent::Live(live, last)) => submit_unless(
            s,
            side_effect_error(s, live, last, Action::AxPressSubmit),
            SubmitStage::FallbackGuard(tried),
        ),
        (SubmitStage::FallbackGuard(tried), SubmitEvent::Guard(r)) => guarded(
            s,
            r,
            SubmitStage::Press(tried),
        ),
        (SubmitStage::Press(tried), SubmitEvent::Pressed(success)) => submit_at(
            s,
            SubmitStage::Pressed { enter_tried: tried, success },
        ),
        _ => s,
    }
}

/// What a submit does next.
pub open spec fn submit_action(s: SubmitView) -> SubmitAction {
    match s.stage {
        SubmitStage::Start | SubmitStage::ReturnGuard | SubmitStage::ReturnLastGuard
        | SubmitStage::FallbackGuard(_) => SubmitAction::CheckGuard,
        SubmitStage::Stand | SubmitStage::Ready(_) | SubmitStage::Fast | SubmitStage::FocusCheck
        | SubmitStage::ReturnCheck | SubmitStage::Fallback(_) => SubmitAction::ReadLive,
        SubmitStage::AwaitButton => SubmitAction::AwaitButton {
            timeout_ms: FAST_SUBMIT_READY_TIMEOUT_MS,
        },
        SubmitStage::Focus => SubmitAction::FocusField,
        SubmitStage::SendReturn => SubmitAction::SendKey {
            process_id: s.filled.prompt.target.process_id,
            keycode: KEYCODE_RETURN,
            flags: 0,
        },
        SubmitStage::Press(_) => SubmitAction::PressButton { button: s.button },
        SubmitStage::Entered | SubmitStage::Pressed { .. } | SubmitStage::Failed => {
            SubmitAction::Stop
        },
    }
}

/// What is remembered of the prompt that was submitted.
pub open spec fn submitted_from(f: FilledView) -> SubmittedView {
    SubmittedView {
        process_id: f.prompt.target.process_id,
        window_title: f.prompt.target.window_title,
        email: f.expected_email,
        origin: f.prompt.origin,
        target_window: f.prompt.target_window,
        prompt_container: f.prompt.native_container,
    }
}

impl SubmitRun {
    /// A submit of a filled prompt.
    pub fn submit_filled_prompt(filled: MacosFilledPrompt) -> (out: Self)
        ensures
            out.deep_view() == (SubmitView {
                filled: filled.deep_view(),
                button: 0,
                stage: SubmitStage::Start,
                error: None,
            }),
    {
        SubmitRun { filled, button: 0, stage: SubmitStage::Start, error: None }
    }

    /// A submit of the prompt that was filled, where it is the expected one.
    pub fn submit_prompt_after_fill(
        filled: Option<&MacosFilledPrompt>,
        expected_process_id: i32,
        expected_window_title: &str,
        expected_prompt_origin: &str,
        expected_email: &str,
    ) -> (out: Result<Self, Fault>)
        ensures
            match filled {
                Some(f) => if filled_for(
                    f.deep_view(),
                    expected_process_id,
                    expected_window_title@,
                    expected_prompt_origin@,
                    expected_email@,
                ) {
                    out matches Ok(run) && run.deep_view() == (SubmitView {
                        filled: f.deep_view(),
                        button: 0,
                        stage: SubmitStage::Start,
                        error: None,
                    })
                } else {
                    out matches Err(f) && f == Fault::FilledPromptChanged
                },
                None => out matches Err(f) && f == Fault::FilledPromptChanged,
            },
    {
        match filled {
            Some(filled) => {
                if filled.matches_expected(
                    expected_process_id,
                    expected_window_title,
                    expected_prompt_origin,
                    expected_email,
                ) {
                    Ok(SubmitRun::submit_filled_prompt(filled.duplicate()))
                } else {
                    Err(Fault::FilledPromptChanged)
                }
            },
            None => Err(Fault::FilledPromptChanged),
        }
    }

    /// `submit_action`, computed.
    pub fn action(&self) -> (out: SubmitAction)
        ensures
            out == submit_action(self.deep_view()),
    {
        match self.stage {
            SubmitStage::Start | SubmitStage::ReturnGuard | SubmitStage::ReturnLastGuard
            | SubmitStage::FallbackGuard(_) => SubmitAction::CheckGuard,
            SubmitStage::Stand | SubmitStage::Ready(_) | SubmitStage::Fast
            | SubmitStage::FocusCheck | SubmitStage::ReturnCheck | SubmitStage::Fallback(_) => {
                SubmitAction::ReadLive
            },
            SubmitStage::AwaitButton => SubmitAction::AwaitButton {
                timeout_ms: FAST_SUBMIT_READY_TIMEOUT_MS,
            },
            SubmitStage::Focus => SubmitAction::FocusField,
            SubmitStage::SendReturn => SubmitAction::SendKey {
                process_id: self.filled.prompt.target.process_id,
                keycode: KEYCODE_RETURN,
                flags: 0,
            },
            SubmitStage::Press(_) => SubmitAction::PressButton { button: self.button },
            SubmitStage::Entered | SubmitStage::Pressed { .. } | SubmitStage::Failed => {
                SubmitAction::Stop
            },
        }
    }

    fn fail(&mut self, error: SubmitError)
        ensures
            final(self).deep_view() == submit_failed(old(self).deep_view(), error.deep_view()),
    {
        self.stage = SubmitStage::Failed;
        self.error = Some(error);
    }

    fn go_on(&mut self, guard: Result<(), String>, stage: SubmitStage)
        ensures
            final(self).deep_view() == guarded(old(self).deep_view(), guard_view(guard), stage),
    {
        match guard {
            Ok(_) => {
                self.stage = stage;
            },
            Err(why) => {
                self.fail(SubmitError::Guard(why));
            },
        }
    }

    /// What the guard said.
    pub fn on_guard(&mut self, guard: Result<(), String>)
        ensures
            final(self).deep_view() == submit_next(
                old(self).deep_view(),
                SubmitEvent::Guard(guard_view(guard)),
            ),
    {
        match self.stage {
            SubmitStage::Start => {
                self.go_on(guard, SubmitStage::Stand);
            },
            SubmitStage::ReturnGuard => {
                self.go_on(guard, SubmitStage::ReturnCheck);
            },
            SubmitStage::ReturnLastGuard => {
                self.stage = if guard.is_ok() {
                    SubmitStage::SendReturn
                } else {
                    SubmitStage::Fallback(false)
                };
            },
            SubmitStage::FallbackGuard(tried) => {
                self.go_on(guard, SubmitStage::Press(tried));
            },
            _ => {},
        }
    }

    fn check_side_effect(&self, live: &LiveState, last: &LiveState, action: Action) -> (out: Result<
        (),
        PromptError,
    >)
        ensures
            crate::live::error_of(out) == side_effect_error(
                self.deep_view(),
                live.deep_view(),
                last.deep_view(),
                action,
            ),
    {
        ensure_submit_side_effect_target_ready(
            live,
            last,
            &self.filled.prompt,
            self.button,
            &self.filled.trusted_process,
            self.filled.expected_email.as_str(),
            self.filled.prompt.target.window_title.as_str(),
            action,
        )
    }

    fn check_return(&self, live: &LiveState, last: &LiveState) -> (out: Result<(), PromptError>)
        ensures
            crate::live::error_of(out) == return_error(
                self.deep_view(),
                live.deep_view(),
                last.deep_view(),
            ),
    {
        revalidate_focused_password_field_for_keyboard(
            live,
            last,
            &self.filled.prompt,
            self.filled.prompt.target.process_id,
            self.filled.prompt.target.window_title.as_str(),
            self.filled.expected_email.as_str(),
            &self.filled.trusted_process,
            Action::ReturnSubmit,
        )
    }

    /// Two readings of the application: before and after its process was
    /// identified.
    pub fn on_live(&mut self, live: &LiveState, last: &LiveState)
        ensures
            final(self).deep_view() == submit_next(
                old(self).deep_view(),
                SubmitEvent::Live(live.deep_view(), last.deep_view()),
            ),
    {
        match self.stage {
            SubmitStage::Stand => match ensure_filled_prompt_stands(live, &self.filled) {
                Ok(_) => {
                    self.stage = if self.filled.submit_button_ready_after_fill {
                        SubmitStage::Ready(true)
                    } else {
                        SubmitStage::AwaitButton
                    };
                },
                Err(fault) => {
                    self.fail(SubmitError::Prompt(PromptError::Fault(fault)));
                },
            },
            SubmitStage::Ready(ready) => match ensure_filled_prompt_ready(
                ready,
                live,
                &self.filled,
            ) {
                Ok(button) => {
                    self.button = button;
                    self.stage = SubmitStage::Fast;
                },
                Err(error) => {
                    self.fail(SubmitError::Prompt(error));
                },
            },
            SubmitStage::Fast => match self.check_side_effect(live, last, Action::FastSubmit) {
                Ok(_) => {
                    self.stage = SubmitStage::FocusCheck;
                },
                Err(error) => {
                    self.fail(SubmitError::Prompt(error));
                },
            },
            SubmitStage::FocusCheck => {
                self.stage = match verified_password_field_in_prompt(
                    live,
                    &self.filled.prompt,
                    self.filled.prompt.target.process_id,
                ) {
                    Ok(_) => SubmitStage::Focus,
                    Err(_) => SubmitStage::Fallback(false),
                };
            },
            SubmitStage::ReturnCheck => {
                self.stage = match self.check_return(live, last) {
                    Ok(_) => SubmitStage::ReturnLastGuard,
                    Err(_) => SubmitStage::Fallback(false),
                };
            },
            SubmitStage::Fallback(tried) => match self.check_side_effect(
                live,
                last,
                Action::AxPressSubmit,
            ) {
                Ok(_) => {
                    self.stage = SubmitStage::FallbackGuard(tried);
                },
                Err(error) => {
                    self.fail(SubmitError::Prompt(error));
                },
            },
            _ => {},
        }
    }

    /// Whether the button became enabled.
    pub fn on_button(&mut self, ready: bool)
        ensures
            final(self).deep_view() == submit_next(
                old(self).deep_view(),
                SubmitEvent::Button(ready),
            ),
    {
        if let SubmitStage::AwaitButton = self.stage {
            self.stage = SubmitStage::Ready(ready);
        }
    }

    /// How the focus attempt ended.
    pub fn on_focus(&mut self, focused: bool)
        ensures
            final(self).deep_view() == submit_next(
                old(self).deep_view(),
                SubmitEvent::Focus(focused),
            ),
    {
        if let SubmitStage::Focus = self.stage {
            self.stage = if focused {
                SubmitStage::ReturnGuard
            } else {
                SubmitStage::Fallback(false)
            };
        }
    }

    /// Whether the Return key was sent.
    pub fn on_sent(&mut self, sent: bool)
        ensures
            final(self).deep_view() == submit_next(old(self).deep_view(), SubmitEvent::Sent(sent)),
    {
        if let SubmitStage::SendReturn = self.stage {
            self.stage = if sent {
                SubmitStage::Entered
            } else {
                SubmitStage::Fallback(true)
            };
        }
    }

    /// What the press of the button returned.
    pub fn on_pressed(&mut self, success: bool)
        ensures
            final(self).deep_view() == submit_next(
                old(self).deep_view(),
                SubmitEvent::Pressed(success),
            ),
    {
        if let SubmitStage::Press(tried) = self.stage {
            self.stage = SubmitStage::Pressed { enter_tried: tried, success };
        }
    }

    fn submitted(&self) -> (out: MacosSubmittedPrompt)
        ensures
            out.deep_view() == submitted_from(self.deep_view().filled),
    {
        MacosSubmittedPrompt {
            process_id: self.filled.prompt.target.process_id,
            window_title: self.filled.prompt.target.window_title.clone(),
            email: self.filled.expected_email.clone(),
            origin: self.filled.prompt.origin,
            target_window: self.filled.prompt.target_window,
            prompt_container: self.filled.prompt.native_container,
        }
    }

    /// What the submit came to; `None` while it is not over. A press that reported
    /// an error may still have been carried out, so its outcome is unknown.
    pub fn finish(self) -> (out: Option<Result<MacosSubmitResult, SubmitError>>)
        requires
            self.stage is Failed ==> self.error is Some,
        ensures
            match self.stage {
                SubmitStage::Entered => out matches Some(Ok(r)) && {
                    &&& r.submit_method@ == "enter"@
                    &&& r.submit_status@ == "ok"@
                    &&& !r.axpress_attempted
                    &&& r.axpress_result@ == "not_needed"@
                    &&& r.enter_fallback_attempted
                    &&& r.enter_fallback_result@ == "sent"@
                    &&& r.submitted_prompt.deep_view() == Some(
                        submitted_from(self.deep_view().filled),
                    )
                },
                SubmitStage::Pressed { enter_tried, success } => out matches Some(Ok(r)) && {
                    &&& r.submit_method@ == "axpress_fallback"@
                    &&& r.submit_status@ == if success {
                        "ok"@
                    } else {
                        "unknown"@
                    }
                    &&& r.axpress_attempted
                    &&& r.axpress_result@ == if success {
                        "success"@
                    } else {
                        "reported_error"@
                    }
                    &&& r.enter_fallback_attempted == enter_tried
                    &&& r.enter_fallback_result@ == if enter_tried {
                        "creation_failed"@
                    } else {
                        "focus_not_verified"@
                    }
                    &&& r.submitted_prompt.deep_view() == Some(
                        submitted_from(self.deep_view().filled),
                    )
                },
                SubmitStage::Failed => out matches Some(Err(e)) && Some(e.deep_view())
                    == self.deep_view().error,
                _ => out is None,
            },
    {
        match self.stage {
            SubmitStage::Entered => {
                let submitted: MacosSubmittedPrompt = self.submitted();
                Some(
                    Ok(
                        MacosSubmitResult {
                            submit_method: "enter",
                            submit_status: "ok",
                            axpress_attempted: false,
                            axpress_result: "not_needed",
                            enter_fallback_attempted: true,
                            enter_fallback_result: "sent",
                            submitted_prompt: Some(submitted),
                        },
                    ),
                )
            },
            SubmitStage::Pressed { enter_tried, success } => {
                let submitted: MacosSubmittedPrompt = self.submitted();
                Some(
                    Ok(
                        MacosSubmitResult {
                            submit_method: "axpress_fallback",
                            submit_status: if success {
                                "ok"
                            } else {
                                "unknown"
                            },
                            axpress_attempted: true,
                            axpress_result: if success {
                                "success"
                            } else {
                                "reported_error"
                            },
                            enter_fallback_attempted: enter_tried,
                            enter_fallback_result: if enter_tried {
                                "creation_failed"
                            } else {
                                "focus_not_verified"
                            },
                            submitted_prompt: Some(submitted),
                        },
                    ),
                )
            },
            SubmitStage::Failed => match self.error {
                Some(error) => Some(Err(error)),
                None => None,
            },
            _ => None,
        }
    }
}

// ---------------------------------------------------------------------------
// What a submit keeps to
// ---------------------------------------------------------------------------

pub open spec fn submit_run(s: SubmitView, es: Seq<SubmitEvent>) -> SubmitView
    decreases es.len(),
{
    if es.len() == 0 {
        s
    } else {
        submit_next(submit_run(s, es.drop_last()), es.last())
    }
}

/// How often the Return key was sent.
pub open spec fn returns_sent(s: SubmitView, es: Seq<SubmitEvent>) -> nat
    decreases es.len(),
{
    if es.len() == 0 {
        0
    } else {
        returns_sent(s, es.drop_last()) + if submit_run(s, es.drop_last()).stage is SendReturn
            && es.last() == SubmitEvent::Sent(true) {
            1nat
        } else {
            0nat
        }
    }
}

/// How often the button was pressed.
pub open spec fn buttons_pressed(s: SubmitView, es: Seq<SubmitEvent>) -> nat
    decreases es.len(),
{
    if es.len() == 0 {
        0
    } else {
        buttons_pressed(s, es.drop_last()) + if submit_run(s, es.drop_last()).stage is Press
            && es.last() is Pressed {
            1nat
        } else {
            0nat
        }
    }
}

/// A prompt is submitted at most once: by one Return key, or by one press of its
/// button and no Return key. A submit that failed has done neither.
pub proof fn law_submits_at_most_once(s: SubmitView, es: Seq<SubmitEvent>)
    requires
        s.stage is Start,
        s.error is None,
    ensures
        returns_sent(s, es) == if submit_run(s, es).stage is Entered {
            1nat
        } else {
            0nat
        },
        buttons_pressed(s, es) == if submit_run(s, es).stage is Pressed {
            1nat
        } else {
            0nat
        },
        submit_run(s, es).filled == s.filled,
        submit_run(s, es).stage is Failed ==> submit_run(s, es).error is Some,
    decreases es.len(),
{
    if es.len() > 0 {
        law_submits_at_most_once(s, es.drop_last());
    }
}

/// The Return key is sent only right after the guard agreed to a check of the
/// focused field, and the button is pressed only right after the guard agreed to a
/// check of the whole prompt; the press comes only where the Return key was not
/// sent.
pub proof fn law_submit_is_guarded(s: SubmitView, e: SubmitEvent)
    requires
        s.stage != submit_next(s, e).stage,
    ensures
        submit_next(s, e).stage is SendReturn ==> s.stage is ReturnLastGuard && (
        e matches SubmitEvent::Guard(Ok(_))),
        submit_next(s, e).stage is ReturnLastGuard ==> s.stage is ReturnCheck && (
        e matches SubmitEvent::Live(live, last) && return_error(s, live, last) is None),
        submit_next(s, e).stage is ReturnCheck ==> s.stage is ReturnGuard && (
        e matches SubmitEvent::Guard(Ok(_))),
        submit_next(s, e).stage is Press ==> s.stage is FallbackGuard && (
        e matches SubmitEvent::Guard(Ok(_))),
        submit_next(s, e).stage is FallbackGuard ==> s.stage is Fallback && (
        e matches SubmitEvent::Live(live, last) && side_effect_error(
            s,
            live,
            last,
            Action::AxPressSubmit,
        ) is None),
        submit_next(s, e).stage is Fallback ==> s.stage is FocusCheck || s.stage is Focus
            || s.stage is ReturnCheck || s.stage is ReturnLastGuard || (s.stage is SendReturn && e
            == SubmitEvent::Sent(false)),
{
}

// ---------------------------------------------------------------------------
// What a submit comes to
// ---------------------------------------------------------------------------

/// A submit in which nothing goes wrong asks the guard and reads the prompt; a button that
/// was not ready after the fill has sixty milliseconds. Then the prompt is read once for
/// the button and once for the submit.
pub proof fn law_a_submit_comes_to_its_button(
    s: SubmitView,
    stand: LiveView,
    ready: bool,
    after: LiveView,
)
    requires
        s.stage is Start,
        filled_fault(stand, s.filled) is None,
        ready_error(s.filled.submit_button_ready_after_fill || ready, after, s.filled) is None,
    ensures
        ({
            let s1 = submit_next(s, SubmitEvent::Guard(Ok(())));
            let s2 = submit_next(s1, SubmitEvent::Live(stand, stand));
            let s3 = if s.filled.submit_button_ready_after_fill {
                s2
            } else {
                submit_next(s2, SubmitEvent::Button(ready))
            };
            let s4 = submit_next(s3, SubmitEvent::Live(after, after));
            &&& submit_action(s) == SubmitAction::CheckGuard
            &&& submit_action(s1) == SubmitAction::ReadLive
            &&& !s.filled.submit_button_ready_after_fill ==> submit_action(s2) == (
            SubmitAction::AwaitButton { timeout_ms: 60 })
            &&& submit_action(s3) == SubmitAction::ReadLive
            &&& submit_action(s4) == SubmitAction::ReadLive
            &&& s4 == (SubmitView {
                stage: SubmitStage::Fast,
                button: s.filled.prompt.submit_button->0,
                ..s
            })
        }),
{
    let s1 = submit_next(s, SubmitEvent::Guard(Ok(())));
    assert(s1 == submit_at(s, SubmitStage::Stand));
    let s2 = submit_next(s1, SubmitEvent::Live(stand, stand));
    if s.filled.submit_button_ready_after_fill {
        assert(s2 == submit_at(s, SubmitStage::Ready(true)));
    } else {
        assert(s2 == submit_at(s, SubmitStage::AwaitButton));
        assert(submit_next(s2, SubmitEvent::Button(ready)) == submit_at(
            s,
            SubmitStage::Ready(ready),
        ));
    }
}

/// A prompt that may be submitted has its field given the focus, and where the field gets
/// it, the Return key comes next; where it does not, or where it cannot be given the
/// focus, the button does.
pub proof fn law_a_submit_tries_the_return_key_first(
    s: SubmitView,
    live: LiveView,
    last: LiveView,
    look: LiveView,
)
    requires
        s.stage is Fast,
        side_effect_error(s, live, last, Action::FastSubmit) is None,
    ensures
        ({
            let s1 = submit_next(s, SubmitEvent::Live(live, last));
            let s2 = submit_next(s1, SubmitEvent::Live(look, look));
            let may = focus_error(look, s.filled.prompt, s.filled.prompt.target.process_id)
                is None;
            &&& submit_action(s1) == SubmitAction::ReadLive
            &&& may ==> submit_action(s2) == SubmitAction::FocusField
            &&& may ==> submit_next(s2, SubmitEvent::Focus(true)) == (SubmitView {
                stage: SubmitStage::ReturnGuard,
                ..s
            })
            &&& may ==> submit_next(s2, SubmitEvent::Focus(false)) == (SubmitView {
                stage: SubmitStage::Fallback(false),
                ..s
            })
            &&& !may ==> s2 == (SubmitView { stage: SubmitStage::Fallback(false), ..s })
        }),
{
    let s1 = submit_next(s, SubmitEvent::Live(live, last));
    assert(s1 == submit_at(s, SubmitStage::FocusCheck));
}

/// The Return key goes out to the process of the prompt where the guard agrees, the prompt
/// is found right and the guard agrees again; with that the prompt is entered. What goes
/// wrong on the way, but for the first guard, leads to the button, and so does a key that
/// could not be sent.
pub proof fn law_the_return_key_goes_out(
    s: SubmitView,
    live: LiveView,
    last: LiveView,
    why: Seq<char>,
)
    requires
        s.stage is ReturnGuard,
    ensures
        ({
            let s1 = submit_next(s, SubmitEvent::Guard(Ok(())));
            let s2 = submit_next(s1, SubmitEvent::Live(live, last));
            let s3 = submit_next(s2, SubmitEvent::Guard(Ok(())));
            let right = return_error(s, live, last) is None;
            &&& submit_action(s) == SubmitAction::CheckGuard
            &&& submit_action(s1) == SubmitAction::ReadLive
            &&& right ==> submit_action(s2) == SubmitAction::CheckGuard
            &&& right ==> submit_action(s3) == (SubmitAction::SendKey {
                process_id: s.filled.prompt.target.process_id,
                keycode: 36,
                flags: 0,
            })
            &&& right ==> submit_next(s3, SubmitEvent::Sent(true)) == (SubmitView {
                stage: SubmitStage::Entered,
                ..s
            })
            &&& right ==> submit_next(s3, SubmitEvent::Sent(false)) == (SubmitView {
                stage: SubmitStage::Fallback(true),
                ..s
            })
            &&& right ==> submit_next(s2, SubmitEvent::Guard(Err(why))) == (SubmitView {
                stage: SubmitStage::Fallback(false),
                ..s
            })
            &&& !right ==> s2 == (SubmitView { stage: SubmitStage::Fallback(false), ..s })
        }),
{
    let s1 = submit_next(s, SubmitEvent::Guard(Ok(())));
    assert(s1 == submit_at(s, SubmitStage::ReturnCheck));
    assert(return_error(s1, live, last) == return_error(s, live, last));
}

/// Where the Return key is no way, the button of the prompt is pressed, once the prompt is
/// found right and the guard agrees; how the press ended is reported, and whether the key
/// was tried.
pub proof fn law_the_button_is_pressed_instead(
    s: SubmitView,
    tried: bool,
    live: LiveView,
    last: LiveView,
    success: bool,
)
    requires
        s.stage == SubmitStage::Fallback(tried),
        side_effect_error(s, live, last, Action::AxPressSubmit) is None,
    ensures
        ({
            let s1 = submit_next(s, SubmitEvent::Live(live, last));
            let s2 = submit_next(s1, SubmitEvent::Guard(Ok(())));
            let s3 = submit_next(s2, SubmitEvent::Pressed(success));
            &&& submit_action(s) == SubmitAction::ReadLive
            &&& submit_action(s1) == SubmitAction::CheckGuard
            &&& submit_action(s2) == (SubmitAction::PressButton { button: s.button })
            &&& submit_action(s3) == SubmitAction::Stop
            &&& s3 == (SubmitView {
                stage: SubmitStage::Pressed { enter_tried: tried, success },
                ..s
            })
        }),
{
    let s1 = submit_next(s, SubmitEvent::Live(live, last));
    assert(s1 == submit_at(s, SubmitStage::FallbackGuard(tried)));
}

/// A guard that refuses before the Return key is due, or before the button, ends a submit
/// with its reason; so does a reading that finds something wrong there.
pub proof fn law_a_refusal_ends_a_submit(
    s: SubmitView,
    why: Seq<char>,
    live: LiveView,
    last: LiveView,
)
    ensures
        s.stage is Start || s.stage is ReturnGuard || s.stage is FallbackGuard ==> submit_next(
            s,
            SubmitEvent::Guard(Err(why)),
        ) == (SubmitView {
            stage: SubmitStage::Failed,
            error: Some(SubmitErrorView::Guard(why)),
            ..s
        }),
        ({
            let t = submit_next(s, SubmitEvent::Live(live, last));
            let wrong = match s.stage {
                SubmitStage::Stand => as_error(filled_fault(live, s.filled)),
                SubmitStage::Ready(ready) => ready_error(ready, live, s.filled),
                SubmitStage::Fast => side_effect_error(s, live, last, Action::FastSubmit),
                SubmitStage::Fallback(_) => side_effect_error(
                    s,
                    live,
                    last,
                    Action::AxPressSubmit,
                ),
                _ => None,
            };
            wrong matches Some(e) ==> t == (SubmitView {
                stage: SubmitStage::Failed,
                error: Some(SubmitErrorView::Prompt(e)),
                ..s
            })
        }),
        submit_action(submit_failed(s, SubmitErrorView::Guard(why))) == SubmitAction::Stop,
{
}

/// What is remembered of a prompt that was submitted is what it was filled as.
pub proof fn law_the_submitted_prompt_is_the_filled_one(f: FilledView)
    ensures
        ({
            let s = submitted_from(f);
            &&& s.process_id == f.prompt.target.process_id
            &&& s.window_title == f.prompt.target.window_title
            &&& s.email == f.expected_email
            &&& s.origin == f.prompt.origin
            &&& s.target_window == f.prompt.target_window
            &&& s.prompt_container == f.prompt.native_container
        }),
{
}

/// What was not asked for changes nothing: an answer counts only where it was waited for.
pub proof fn law_a_submit_takes_what_it_asked_for(s: SubmitView, e: SubmitEvent)
    requires
        match submit_action(s) {
            SubmitAction::CheckGuard => !(e is Guard),
            SubmitAction::ReadLive => !(e is Live),
            SubmitAction::AwaitButton { .. } => !(e is Button),
            SubmitAction::FocusField => !(e is Focus),
            SubmitAction::SendKey { .. } => !(e is Sent),
            SubmitAction::PressButton { .. } => !(e is Pressed),
            SubmitAction::Stop => true,
        },
    ensures
        submit_next(s, e) == s,
{
}

} // verus!
