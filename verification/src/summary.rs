//! What may be said of a prompt in a log: which window and which application it
//! belongs to, and of the account only whether there is one.

#[allow(unused_imports)]
use crate::inspection::WindowTitleView;
use crate::inspection::MacosWindowTitle;
#[allow(unused_imports)]
use crate::prompt::{PromptView, TargetView};
use crate::prompt::{duplicate_text, MacosPrompt, MacosTarget};
use crate::prompt_text::PromptOrigin;
#[allow(unused_imports)]
use crate::revalidate::{FilledView, VerifiedView};
use crate::revalidate::{MacosFilledPrompt, MacosVerifiedPrompt};
#[allow(unused_imports)]
use crate::submit::SubmittedView;
use crate::submit::MacosSubmittedPrompt;
use crate::text::is_blank;
#[allow(unused_imports)]
use crate::text::trimmed;
use vstd::prelude::*;

verus! {

/// A window in a log.
#[derive(Debug, Clone)]
pub struct WindowTitleSummary {
    pub process_id: i32,
    pub title: String,
    /// Whether the window itself is known.
    pub window: bool,
}

#[verifier::ext_equal]
pub struct WindowTitleSummaryView {
    pub process_id: i32,
    pub title: Seq<char>,
    pub window: bool,
}

impl DeepView for WindowTitleSummary {
    type V = WindowTitleSummaryView;

    open spec fn deep_view(&self) -> WindowTitleSummaryView {
        WindowTitleSummaryView {
            process_id: self.process_id,
            title: self.title@,
            window: self.window,
        }
    }
}

pub open spec fn window_title_summary(w: WindowTitleView) -> WindowTitleSummaryView {
    WindowTitleSummaryView { process_id: w.process_id, title: w.title, window: w.window is Some }
}

impl MacosWindowTitle {
    /// `window_title_summary`, computed.
    pub fn summary(&self) -> (out: WindowTitleSummary)
        ensures
            out.deep_view() == window_title_summary(self.deep_view()),
    {
        WindowTitleSummary {
            process_id: self.process_id,
            title: self.title.clone(),
            window: self.window.is_some(),
        }
    }
}

/// A prompt that was found, in a log: without its texts and its elements.
#[derive(Debug, Clone)]
pub struct PromptSummary {
    pub target: MacosTarget,
    pub email: Option<String>,
    pub password_field_description: String,
    pub password_field_role: String,
    pub origin: PromptOrigin,
    pub bundle_id: String,
    pub team_id: &'static str,
    /// Whether there is a submit button.
    pub submit_button: bool,
}

#[verifier::ext_equal]
pub struct PromptSummaryView {
    pub target: TargetView,
    pub email: Option<Seq<char>>,
    pub password_field_description: Seq<char>,
    pub password_field_role: Seq<char>,
    pub origin: PromptOrigin,
    pub bundle_id: Seq<char>,
    pub team_id: Seq<char>,
    pub submit_button: bool,
}

impl DeepView for PromptSummary {
    type V = PromptSummaryView;

    open spec fn deep_view(&self) -> PromptSummaryView {
        PromptSummaryView {
            target: self.target.deep_view(),
            email: self.email.deep_view(),
            password_field_description: self.password_field_description@,
            password_field_role: self.password_field_role@,
            origin: self.origin,
            bundle_id: self.bundle_id@,
            team_id: self.team_id@,
            submit_button: self.submit_button,
        }
    }
}

pub open spec fn prompt_summary(p: PromptView) -> PromptSummaryView {
    PromptSummaryView {
        target: p.target,
        email: p.email,
        password_field_description: p.password_field_description,
        password_field_role: p.password_field_role,
        origin: p.origin,
        bundle_id: p.trusted_process.bundle_id,
        team_id: p.trusted_process.team_id,
        submit_button: p.submit_button is Some,
    }
}

impl MacosPrompt {
    /// `prompt_summary`, computed.
    pub fn summary(&self) -> (out: PromptSummary)
        ensures
            out.deep_view() == prompt_summary(self.deep_view()),
    {
        PromptSummary {
            target: self.target.duplicate(),
            email: duplicate_text(&self.email),
            password_field_description: self.password_field_description.clone(),
            password_field_role: self.password_field_role.clone(),
            origin: self.origin,
            bundle_id: self.trusted_process.bundle_id.clone(),
            team_id: self.trusted_process.team_id,
            submit_button: self.submit_button.is_some(),
        }
    }
}

/// A prompt on its way through a login, in a log: without the account.
#[derive(Debug, Clone)]
pub struct LoginSummary {
    pub process_id: i32,
    pub window_title: String,
    pub origin: PromptOrigin,
    pub bundle_id: String,
    pub team_id: &'static str,
}

#[verifier::ext_equal]
pub struct LoginSummaryView {
    pub process_id: i32,
    pub window_title: Seq<char>,
    pub origin: PromptOrigin,
    pub bundle_id: Seq<char>,
    pub team_id: Seq<char>,
}

impl DeepView for LoginSummary {
    type V = LoginSummaryView;

    open spec fn deep_view(&self) -> LoginSummaryView {
        LoginSummaryView {
            process_id: self.process_id,
            window_title: self.window_title@,
            origin: self.origin,
            bundle_id: self.bundle_id@,
            team_id: self.team_id@,
        }
    }
}

pub open spec fn verified_summary(v: VerifiedView) -> LoginSummaryView {
    LoginSummaryView {
        process_id: v.prompt.target.process_id,
        window_title: v.prompt.target.window_title,
        origin: v.prompt.origin,
        bundle_id: v.trusted_process.bundle_id,
        team_id: v.trusted_process.team_id,
    }
}

impl MacosVerifiedPrompt {
    /// `verified_summary`, computed.
    pub fn summary(&self) -> (out: LoginSummary)
        ensures
            out.deep_view() == verified_summary(self.deep_view()),
    {
        LoginSummary {
            process_id: self.prompt.target.process_id,
            window_title: self.prompt.target.window_title.clone(),
            origin: self.prompt.origin,
            bundle_id: self.trusted_process.bundle_id.clone(),
            team_id: self.trusted_process.team_id,
        }
    }
}

/// A filled prompt in a log.
#[derive(Debug, Clone)]
pub struct FilledSummary {
    pub login: LoginSummary,
    pub expected_email_present: bool,
    pub submit_button_ready_after_fill: bool,
}

#[verifier::ext_equal]
pub struct FilledSummaryView {
    pub login: LoginSummaryView,
    pub expected_email_present: bool,
    pub submit_button_ready_after_fill: bool,
}

impl DeepView for FilledSummary {
    type V = FilledSummaryView;

    open spec fn deep_view(&self) -> FilledSummaryView {
        FilledSummaryView {
            login: self.login.deep_view(),
            expected_email_present: self.expected_email_present,
            submit_button_ready_after_fill: self.submit_button_ready_after_fill,
        }
    }
}

pub open spec fn filled_summary(f: FilledView) -> FilledSummaryView {
    FilledSummaryView {
        login: LoginSummaryView {
            process_id: f.prompt.target.process_id,
            window_title: f.prompt.target.window_title,
            origin: f.prompt.origin,
            bundle_id: f.trusted_process.bundle_id,
            team_id: f.trusted_process.team_id,
        },
        expected_email_present: trimmed(f.expected_email).len() > 0,
        submit_button_ready_after_fill: f.submit_button_ready_after_fill,
    }
}

impl MacosFilledPrompt {
    /// `filled_summary`, computed.
    pub fn summary(&self) -> (out: FilledSummary)
        ensures
            out.deep_view() == filled_summary(self.deep_view()),
    {
        FilledSummary {
            login: LoginSummary {
                process_id: self.prompt.target.process_id,
                window_title: self.prompt.target.window_title.clone(),
                origin: self.prompt.origin,
                bundle_id: self.trusted_process.bundle_id.clone(),
                team_id: self.trusted_process.team_id,
            },
            expected_email_present: !is_blank(self.expected_email.as_str()),
            submit_button_ready_after_fill: self.submit_button_ready_after_fill,
        }
    }
}

/// A submitted prompt in a log.
#[derive(Debug, Clone)]
pub struct SubmittedSummary {
    pub process_id: i32,
    pub window_title: String,
    pub email_present: bool,
    pub origin: PromptOrigin,
}

#[verifier::ext_equal]
pub struct SubmittedSummaryView {
    pub process_id: i32,
    pub window_title: Seq<char>,
    pub email_present: bool,
    pub origin: PromptOrigin,
}

impl DeepView for SubmittedSummary {
    type V = SubmittedSummaryView;

    open spec fn deep_view(&self) -> SubmittedSummaryView {
        SubmittedSummaryView {
            process_id: self.process_id,
            window_title: self.window_title@,
            email_present: self.email_present,
            origin: self.origin,
        }
    }
}

pub open spec fn submitted_summary(s: SubmittedView) -> SubmittedSummaryView {
    SubmittedSummaryView {
        process_id: s.process_id,
        window_title: s.window_title,
        email_present: trimmed(s.email).len() > 0,
        origin: s.origin,
    }
}

impl MacosSubmittedPrompt {
    /// `submitted_summary`, computed.
    pub fn summary(&self) -> (out: SubmittedSummary)
        ensures
            out.deep_view() == submitted_summary(self.deep_view()),
    {
        SubmittedSummary {
            process_id: self.process_id,
            window_title: self.window_title.clone(),
            email_present: !is_blank(self.email.as_str()),
            origin: self.origin,
        }
    }
}

/// Once a prompt is filled or submitted, a log does not tell one account from
/// another, nor what the prompt said.
pub proof fn law_login_logs_name_no_account(
    filled: FilledView,
    submitted: SubmittedView,
    email: Seq<char>,
    prompt: PromptView,
)
    requires
        trimmed(email).len() > 0,
        trimmed(filled.expected_email).len() > 0,
        trimmed(submitted.email).len() > 0,
        prompt.target == filled.prompt.target,
        prompt.origin == filled.prompt.origin,
    ensures
        filled_summary((FilledView { expected_email: email, prompt, ..filled })) == filled_summary(
            filled,
        ),
        submitted_summary((SubmittedView { email, ..submitted })) == submitted_summary(submitted),
        verified_summary(
            (VerifiedView { prompt, trusted_process: filled.trusted_process }),
        ) == filled_summary(filled).login,
{
}

/// A summary keeps what tells one prompt from another, and of the rest whether it is there.
pub proof fn law_what_summaries_keep(
    w: WindowTitleView,
    p: PromptView,
    v: VerifiedView,
    f: FilledView,
    s: SubmittedView,
)
    ensures
        window_title_summary(w).process_id == w.process_id,
        window_title_summary(w).title == w.title,
        window_title_summary(w).window == (w.window is Some),
        prompt_summary(p).target == p.target,
        prompt_summary(p).email == p.email,
        prompt_summary(p).origin == p.origin,
        prompt_summary(p).bundle_id == p.trusted_process.bundle_id,
        prompt_summary(p).team_id == p.trusted_process.team_id,
        prompt_summary(p).password_field_description == p.password_field_description,
        prompt_summary(p).password_field_role == p.password_field_role,
        prompt_summary(p).submit_button == (p.submit_button is Some),
        verified_summary(v).process_id == v.prompt.target.process_id,
        verified_summary(v).window_title == v.prompt.target.window_title,
        verified_summary(v).origin == v.prompt.origin,
        verified_summary(v).bundle_id == v.trusted_process.bundle_id,
        verified_summary(v).team_id == v.trusted_process.team_id,
        filled_summary(f).login.process_id == f.prompt.target.process_id,
        filled_summary(f).login.window_title == f.prompt.target.window_title,
        filled_summary(f).login.origin == f.prompt.origin,
        filled_summary(f).login.bundle_id == f.trusted_process.bundle_id,
        filled_summary(f).login.team_id == f.trusted_process.team_id,
        filled_summary(f).expected_email_present == (trimmed(f.expected_email).len() > 0),
        filled_summary(f).submit_button_ready_after_fill == f.submit_button_ready_after_fill,
        submitted_summary(s).process_id == s.process_id,
        submitted_summary(s).window_title == s.window_title,
        submitted_summary(s).email_present == (trimmed(s.email).len() > 0),
        submitted_summary(s).origin == s.origin,
{
}

} // verus!
