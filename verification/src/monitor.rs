//! What state the monitored application is in.

#[allow(unused_imports)]
use crate::inspection::InspectionView;
use crate::inspection::MacosInspection;
use crate::prompt::duplicate_text;
use crate::prompt_text::is_probable_session_window_title;
#[allow(unused_imports)]
use crate::prompt_text::{origin_text, session_title};
use vstd::prelude::*;

verus! {

pub const TARGET_APP_NAME: &'static str = "Windows App";

/// What the monitor is set up with.
#[derive(Debug, Clone)]
pub struct Config {
    pub macos_app_name: String,
}

/// The state of the application.
#[derive(Debug, Clone, PartialEq)]
pub enum MonitorStatus {
    Connected,
    ProcessNotFound,
    LoginWindowDetected {
        process_id: i32,
        window_handle: isize,
        window_title: String,
        prompt_email: Option<String>,
        prompt_origin: String,
    },
    Unknown,
}

pub enum StatusView {
    Connected,
    ProcessNotFound,
    LoginWindowDetected {
        process_id: i32,
        window_handle: isize,
        window_title: Seq<char>,
        prompt_email: Option<Seq<char>>,
        prompt_origin: Seq<char>,
    },
    Unknown,
}

impl DeepView for MonitorStatus {
    type V = StatusView;

    open spec fn deep_view(&self) -> StatusView {
        match self {
            MonitorStatus::Connected => StatusView::Connected,
            MonitorStatus::ProcessNotFound => StatusView::ProcessNotFound,
            MonitorStatus::LoginWindowDetected {
                process_id,
                window_handle,
                window_title,
                prompt_email,
                prompt_origin,
            } => StatusView::LoginWindowDetected {
                process_id: *process_id,
                window_handle: *window_handle,
                window_title: window_title@,
                prompt_email: prompt_email.deep_view(),
                prompt_origin: prompt_origin@,
            },
            MonitorStatus::Unknown => StatusView::Unknown,
        }
    }
}

/// The state, and whether it is certain that no prompt is shown.
#[derive(Debug, Clone, PartialEq)]
pub struct MonitorObservation {
    pub status: MonitorStatus,
    pub definitive_no_prompt: bool,
}

impl MonitorObservation {
    /// A state that says nothing for certain of a prompt.
    pub fn indeterminate(status: MonitorStatus) -> (out: Self)
        ensures
            out.status == status,
            !out.definitive_no_prompt,
    {
        MonitorObservation { status, definitive_no_prompt: false }
    }
}

/// The windows of the application.
#[derive(Debug)]
pub struct WindowInspection {
    /// Whether the process runs; `None` where that is not known.
    pub process_found: Option<bool>,
    pub titles: Vec<WindowTitle>,
    pub forms: Vec<FormInspection>,
}

#[derive(Debug, Clone)]
pub struct WindowTitle {
    pub title: String,
}

/// A login form.
#[derive(Debug, Clone)]
pub struct FormInspection {
    pub process_id: i32,
    pub title: String,
    pub prompt_email: Option<String>,
    pub prompt_origin: &'static str,
}

#[verifier::ext_equal]
pub struct FormView {
    pub process_id: i32,
    pub title: Seq<char>,
    pub prompt_email: Option<Seq<char>>,
    pub prompt_origin: Seq<char>,
}

#[verifier::ext_equal]
pub struct WindowsView {
    pub process_found: Option<bool>,
    pub titles: Seq<Seq<char>>,
    pub forms: Seq<FormView>,
}

impl DeepView for WindowTitle {
    type V = Seq<char>;

    open spec fn deep_view(&self) -> Seq<char> {
        self.title@
    }
}

impl DeepView for FormInspection {
    type V = FormView;

    open spec fn deep_view(&self) -> FormView {
        FormView {
            process_id: self.process_id,
            title: self.title@,
            prompt_email: self.prompt_email.deep_view(),
            prompt_origin: self.prompt_origin@,
        }
    }
}

impl DeepView for WindowInspection {
    type V = WindowsView;

    open spec fn deep_view(&self) -> WindowsView {
        WindowsView {
            process_found: self.process_found,
            titles: self.titles.deep_view(),
            forms: self.forms.deep_view(),
        }
    }
}

impl Default for WindowInspection {
    /// Nothing known.
    fn default() -> (out: Self)
        ensures
            out.deep_view() == (WindowsView {
                process_found: None,
                titles: Seq::empty(),
                forms: Seq::empty(),
            }),
    {
        let out: WindowInspection = WindowInspection {
            process_found: None,
            titles: Vec::new(),
            forms: Vec::new(),
        };
        assert(out.deep_view().titles =~= Seq::empty());
        assert(out.deep_view().forms =~= Seq::empty());
        out
    }
}

pub open spec fn any_session(titles: Seq<Seq<char>>) -> bool {
    exists|i: int| 0 <= i < titles.len() && session_title(#[trigger] titles[i])
}

/// The state that the windows show: a login where exactly one form is shown, else a
/// session where some title is that of one.
pub open spec fn status_of(w: WindowsView) -> StatusView {
    match w.process_found {
        Some(false) => StatusView::ProcessNotFound,
        None => StatusView::Unknown,
        Some(true) => if w.forms.len() == 1 {
            StatusView::LoginWindowDetected {
                process_id: w.forms[0].process_id,
                window_handle: 0,
                window_title: w.forms[0].title,
                prompt_email: w.forms[0].prompt_email,
                prompt_origin: w.forms[0].prompt_origin,
            }
        } else if w.forms.len() > 1 {
            StatusView::Unknown
        } else if any_session(w.titles) {
            StatusView::Connected
        } else {
            StatusView::Unknown
        },
    }
}

/// `status_of`, computed.
pub fn status_from_macos_inspection(inspection: &WindowInspection) -> (out: MonitorStatus)
    ensures
        out.deep_view() == status_of(inspection.deep_view()),
{
    match inspection.process_found {
        Some(false) => {
            return MonitorStatus::ProcessNotFound;
        },
        None => {
            return MonitorStatus::Unknown;
        },
        Some(true) => {},
    }
    let ghost forms = inspection.deep_view().forms;
    if inspection.forms.len() == 1 {
        let form: &FormInspection = &inspection.forms[0];
        assert(forms[0] == form.deep_view());
        return MonitorStatus::LoginWindowDetected {
            process_id: form.process_id,
            window_handle: 0,
            window_title: form.title.clone(),
            prompt_email: duplicate_text(&form.prompt_email),
            prompt_origin: form.prompt_origin.to_owned(),
        };
    }
    if inspection.forms.len() > 1 {
        return MonitorStatus::Unknown;
    }
    let ghost titles = inspection.deep_view().titles;
    let mut i: usize = 0;
    while i < inspection.titles.len()
        invariant
            i <= inspection.titles@.len(),
            titles == inspection.deep_view().titles,
            inspection.process_found == Some(true),
            inspection.forms@.len() == 0,
            forall|j: int| 0 <= j < i ==> !session_title(#[trigger] titles[j]),
        decreases inspection.titles@.len() - i,
    {
        assert(titles[i as int] == inspection.titles@[i as int].title@);
        if is_probable_session_window_title(inspection.titles[i].title.as_str()) {
            assert(session_title(titles[i as int]));
            return MonitorStatus::Connected;
        }
        i += 1;
    }
    MonitorStatus::Unknown
}

/// Certain that no prompt is shown: the process is known not to run.
pub open spec fn surely_no_prompt(w: WindowsView) -> bool {
    w.process_found == Some(false)
}

/// The state by an inspection of the windows, and whether no prompt is certain.
pub fn check_status_macos_with_inspector<F: FnOnce(&str, bool) -> WindowInspection>(
    config: &Config,
    inspect: F,
) -> (out: MonitorObservation)
    requires
        forall|name: &str|
            name@ == config.macos_app_name@ ==> #[trigger] call_requires(inspect, (name, true)),
    ensures
        exists|name: &str, w: WindowInspection|
            {
                &&& name@ == config.macos_app_name@
                &&& #[trigger] call_ensures(inspect, (name, true), w)
                &&& out.status.deep_view() == status_of(w.deep_view())
                &&& out.definitive_no_prompt == surely_no_prompt(w.deep_view())
            },
{
    let name: &str = config.macos_app_name.as_str();
    let inspection: WindowInspection = inspect(name, true);
    let status: MonitorStatus = status_from_macos_inspection(&inspection);
    let absent: bool = match inspection.process_found {
        Some(found) => !found,
        None => false,
    };
    MonitorObservation { status, definitive_no_prompt: absent }
}

/// The windows by a look at the application; where the look failed, nothing is
/// known. Only the one prompt in front counts as a form.
pub open spec fn windows_of(i: Option<InspectionView>) -> WindowsView {
    match i {
        None => WindowsView { process_found: None, titles: Seq::empty(), forms: Seq::empty() },
        Some(i) => WindowsView {
            process_found: Some(i.process_found),
            titles: i.window_titles.map_values(
                |t: crate::inspection::WindowTitleView| t.title,
            ),
            forms: match i.prompt {
                Some(p) => seq![
                    FormView {
                        process_id: p.target.process_id,
                        title: p.target.window_title,
                        prompt_email: p.email,
                        prompt_origin: origin_text(p.origin),
                    },
                ],
                None => Seq::empty(),
            },
        },
    }
}

/// `windows_of`, computed.
pub fn inspect_windows_app_macos_native(inspection: Option<&MacosInspection>) -> (out:
    WindowInspection)
    ensures
        out.deep_view() == windows_of(inspection.deep_view()),
{
    let inspection: &MacosInspection = match inspection {
        Some(inspection) => inspection,
        None => {
            return WindowInspection::default();
        },
    };
    let ghost i = inspection.deep_view();
    let mut forms: Vec<FormInspection> = Vec::new();
    if let Some(prompt) = &inspection.prompt {
        forms.push(
            FormInspection {
                process_id: prompt.target.process_id,
                title: prompt.target.window_title.clone(),
                prompt_email: duplicate_text(&prompt.email),
                prompt_origin: prompt.origin.as_str(),
            },
        );
    }
    let mut titles: Vec<WindowTitle> = Vec::new();
    let mut n: usize = 0;
    while n < inspection.window_titles.len()
        invariant
            n <= inspection.window_titles@.len(),
            titles@.len() == n,
            forall|j: int|
                0 <= j < n ==> (#[trigger] titles@[j]).title@
                    == inspection.window_titles@[j].title@,
        decreases inspection.window_titles@.len() - n,
    {
        titles.push(WindowTitle { title: inspection.window_titles[n].title.clone() });
        n += 1;
    }
    let out: WindowInspection = WindowInspection {
        process_found: Some(inspection.process_found),
        titles,
        forms,
    };
    assert(out.deep_view().titles =~= windows_of(Some(i)).titles);
    assert(out.deep_view().forms =~= windows_of(Some(i)).forms);
    out
}

/// A login is reported only for a process that runs and shows exactly one form, and
/// a look that failed is never reported as the end of the process.
pub proof fn law_status_fails_closed(i: Option<InspectionView>)
    ensures
        status_of(windows_of(i)) is LoginWindowDetected <==> i is Some && i->0.process_found
            && i->0.prompt is Some,
        status_of(windows_of(i)) is ProcessNotFound <==> i is Some && !i->0.process_found,
        surely_no_prompt(windows_of(i)) <==> i is Some && !i->0.process_found,
        i is None ==> status_of(windows_of(i)) is Unknown,
{
}

/// An application that runs and shows no form is connected exactly where one of its
/// windows, whichever, has the title of a session.
pub proof fn law_any_session_window_connects(w: WindowsView)
    requires
        w.process_found == Some(true),
        w.forms.len() == 0,
    ensures
        status_of(w) == StatusView::Connected <==> exists|i: int|
            0 <= i < w.titles.len() && session_title(#[trigger] w.titles[i]),
        status_of(w) != StatusView::Connected ==> status_of(w) == StatusView::Unknown,
{
}

/// The order of the windows makes no difference, and another window never ends a
/// connection.
pub proof fn law_more_windows_stay_connected(w: WindowsView, titles: Seq<Seq<char>>)
    requires
        w.process_found == Some(true),
        w.forms.len() == 0,
        forall|i: int| 0 <= i < w.titles.len() ==> titles.contains(#[trigger] w.titles[i]),
        status_of(w) == StatusView::Connected,
    ensures
        status_of(WindowsView { titles, ..w }) == StatusView::Connected,
{
    let i = choose|i: int| 0 <= i < w.titles.len() && session_title(#[trigger] w.titles[i]);
    assert(titles.contains(w.titles[i]));
    let j = choose|j: int| 0 <= j < titles.len() && titles[j] == w.titles[i];
    assert(session_title(titles[j]));
}

/// A form is reported as it is, whatever else is open; two forms are not told apart.
pub proof fn law_a_form_is_reported_as_it_is(w: WindowsView)
    requires
        w.process_found == Some(true),
    ensures
        w.forms.len() == 1 ==> {
            &&& status_of(w) is LoginWindowDetected
            &&& status_of(w)->process_id == w.forms[0].process_id
            &&& status_of(w)->window_title == w.forms[0].title
            &&& status_of(w)->prompt_email == w.forms[0].prompt_email
            &&& status_of(w)->prompt_origin == w.forms[0].prompt_origin
        },
        w.forms.len() > 1 ==> status_of(w) == StatusView::Unknown,
{
}

/// A look that succeeded is reported whole: every title in order, and the prompt in front
/// with its process, title, account and place.
pub proof fn law_a_look_is_reported_whole(i: InspectionView)
    ensures
        windows_of(Some(i)).process_found == Some(i.process_found),
        windows_of(Some(i)).titles.len() == i.window_titles.len(),
        forall|j: int|
            0 <= j < i.window_titles.len() ==> #[trigger] windows_of(Some(i)).titles[j]
                == i.window_titles[j].title,
        i.prompt is None ==> windows_of(Some(i)).forms.len() == 0,
        i.prompt matches Some(p) ==> {
            let forms = windows_of(Some(i)).forms;
            &&& forms.len() == 1
            &&& forms[0].process_id == p.target.process_id
            &&& forms[0].title == p.target.window_title
            &&& forms[0].prompt_email == p.email
        },
{
}

} // verus!
