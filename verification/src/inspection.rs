//! One look at the windows of the trusted application: which window it is in,
//! which prompts are shown and which sessions are open.
//!
//! Of a window in the background only the title is looked at. What lies in a
//! window is looked at where `window_to_read` names it.

#[allow(unused_imports)]
use crate::ax_tree::{below, hidden_at, lookup, shown, CompletenessView, NodeView};
use crate::ax_tree::AxTree;
#[allow(unused_imports)]
use crate::identity::TrustedInfoView;
use crate::identity::TrustedProcessInfo;
use crate::prompt::{MacosPrompt, MacosTarget};
#[allow(unused_imports)]
use crate::prompt::{snapshots_say, Expectation, PromptView, TargetView};
use crate::prompt_scan::{
    element_title, prompt_from_elements, unique_direct_sheet_prompt, visible_direct_sheets,
    window_should_scan_for_prompt, ScanError,
};
#[allow(unused_imports)]
use crate::prompt_scan::{
    law_found_prompt_is_sound, law_sheet_prompt_is_sound, prompt_in, scannable, shown_sheets,
    sole_sheet_prompt, title_at, ScanErrorView, ScanPlace,
};
use crate::prompt_text::{
    is_probable_session_window_title, prompt_window_title_matches, usernames_match, PromptOrigin,
};
#[allow(unused_imports)]
use crate::prompt_text::{same_username, session_title, title_matches};
#[allow(unused_imports)]
use crate::selection::{foreground_index, sole_true};
use crate::selection::{select_unique_foreground_index, unique_frontmost_index, AxForegroundState};
#[allow(unused_imports)]
use crate::text::{lowercase, same_ascii, trimmed};
use crate::text::{is_blank, same_text, to_chars, to_lowercase, to_text, trim};
use crate::text::trimmed_eq_ignore_ascii_case;
use vstd::prelude::*;

verus! {

/// The title of a window, and the window itself where it is known.
#[derive(Clone)]
pub struct MacosWindowTitle {
    pub process_id: i32,
    pub title: String,
    pub window: Option<u64>,
}

#[verifier::ext_equal]
pub struct WindowTitleView {
    pub process_id: i32,
    pub title: Seq<char>,
    pub window: Option<u64>,
}

impl DeepView for MacosWindowTitle {
    type V = WindowTitleView;

    open spec fn deep_view(&self) -> WindowTitleView {
        WindowTitleView {
            process_id: self.process_id,
            title: self.title@,
            window: self.window,
        }
    }
}

/// What one look found.
#[derive(Clone)]
pub struct MacosInspection {
    pub process_found: bool,
    pub target: Option<MacosTarget>,
    pub prompt: Option<MacosPrompt>,
    pub prompts: Vec<MacosPrompt>,
    pub has_session: bool,
    pub session_windows: Vec<MacosWindowTitle>,
    pub window_titles: Vec<MacosWindowTitle>,
}

#[verifier::ext_equal]
pub struct InspectionView {
    pub process_found: bool,
    pub target: Option<TargetView>,
    pub prompt: Option<PromptView>,
    pub prompts: Seq<PromptView>,
    pub has_session: bool,
    pub session_windows: Seq<WindowTitleView>,
    pub window_titles: Seq<WindowTitleView>,
}

impl DeepView for MacosInspection {
    type V = InspectionView;

    open spec fn deep_view(&self) -> InspectionView {
        InspectionView {
            process_found: self.process_found,
            target: self.target.deep_view(),
            prompt: self.prompt.deep_view(),
            prompts: self.prompts.deep_view(),
            has_session: self.has_session,
            session_windows: self.session_windows.deep_view(),
            window_titles: self.window_titles.deep_view(),
        }
    }
}

/// Nothing found.
pub open spec fn nothing_found() -> InspectionView {
    InspectionView {
        process_found: false,
        target: None,
        prompt: None,
        prompts: Seq::empty(),
        has_session: false,
        session_windows: Seq::empty(),
        window_titles: Seq::empty(),
    }
}

impl MacosInspection {
    /// Nothing found.
    pub fn empty() -> (out: Self)
        ensures
            out.deep_view() == nothing_found(),
    {
        let out: MacosInspection = MacosInspection {
            process_found: false,
            target: None,
            prompt: None,
            prompts: Vec::new(),
            has_session: false,
            session_windows: Vec::new(),
            window_titles: Vec::new(),
        };
        assert(out.deep_view() =~= nothing_found());
        out
    }
}

/// What was read of one trusted process.
#[derive(Clone)]
pub struct AppSnapshot {
    pub process: TrustedProcessInfo,
    /// The process that the application element names; `None` where there is no
    /// such element.
    pub application: Option<i32>,
    pub frontmost: Option<bool>,
    /// The windows; `None` where the query failed.
    pub windows: Option<Vec<u64>>,
    pub tree: AxTree,
}

#[verifier::ext_equal]
pub struct AppView {
    pub process: TrustedInfoView,
    pub application: Option<i32>,
    pub frontmost: Option<bool>,
    pub windows: Option<Seq<u64>>,
    pub nodes: Seq<NodeView>,
}

impl DeepView for AppSnapshot {
    type V = AppView;

    open spec fn deep_view(&self) -> AppView {
        AppView {
            process: self.process.deep_view(),
            application: self.application,
            frontmost: self.frontmost,
            windows: match self.windows {
                Some(ids) => Some(ids@),
                None => None,
            },
            nodes: self.tree.deep_view(),
        }
    }
}

// ---------------------------------------------------------------------------
// The foreground window
// ---------------------------------------------------------------------------

pub open spec fn foreground_state(nodes: Seq<NodeView>, id: u64) -> AxForegroundState {
    match lookup(nodes, id) {
        Some(n) => AxForegroundState { focused: n.focused, main: n.main },
        None => AxForegroundState { focused: None, main: None },
    }
}

pub open spec fn foreground_states(nodes: Seq<NodeView>, ids: Seq<u64>) -> Seq<AxForegroundState> {
    ids.map_values(|id: u64| foreground_state(nodes, id))
}

/// The place, among the shown windows, of the one in front.
pub open spec fn front_window(
    nodes: Seq<NodeView>,
    frontmost: Option<bool>,
    windows: Seq<u64>,
) -> Option<usize> {
    foreground_index(
        frontmost == Some(true),
        foreground_states(nodes, shown(nodes, windows)),
    )
}

fn element_foreground_state(tree: &AxTree, id: u64) -> (out: AxForegroundState)
    ensures
        out == foreground_state(tree.deep_view(), id),
{
    match tree.find(id) {
        Some(node) => AxForegroundState { focused: node.focused, main: node.main },
        None => AxForegroundState { focused: None, main: None },
    }
}

/// The place, among the shown windows `ids`, of the one in front.
pub fn front_window_index(tree: &AxTree, frontmost: Option<bool>, ids: &Vec<u64>) -> (out: Option<
    usize,
>)
    ensures
        out == foreground_index(
            frontmost == Some(true),
            foreground_states(tree.deep_view(), ids@),
        ),
{
    let mut states: Vec<AxForegroundState> = Vec::new();
    let ghost want = foreground_states(tree.deep_view(), ids@);
    let mut i: usize = 0;
    while i < ids.len()
        invariant
            i <= ids@.len(),
            want == foreground_states(tree.deep_view(), ids@),
            states@.len() == i,
            forall|j: int| 0 <= j < i ==> #[trigger] states@[j] == want[j],
        decreases ids@.len() - i,
    {
        states.push(element_foreground_state(tree, ids[i]));
        i += 1;
    }
    assert(states@ =~= want);
    let in_front: bool = match frontmost {
        Some(frontmost) => frontmost,
        None => false,
    };
    select_unique_foreground_index(in_front, &states)
}

// ---------------------------------------------------------------------------
// Prompt candidates
// ---------------------------------------------------------------------------

pub open spec fn email_key(email: Option<Seq<char>>) -> Option<Seq<char>> {
    match email {
        Some(email) => Some(lowercase(trimmed(email))),
        None => None,
    }
}

/// The same prompt, found twice.
pub open spec fn same_candidate(a: PromptView, b: PromptView) -> bool {
    &&& a.target.process_id == b.target.process_id
    &&& same_ascii(trimmed(a.target.window_title), trimmed(b.target.window_title))
    &&& email_key(a.email) == email_key(b.email)
    &&& a.target_window == b.target_window
    &&& a.native_container == b.native_container
    &&& a.prompt_root == b.prompt_root
    &&& a.password_field == b.password_field
    &&& a.submit_button == b.submit_button
}

/// An address without the white space around it, in lower case.
pub fn normalized_prompt_email(email: &str) -> (out: String)
    ensures
        out@ == lowercase(trimmed(email@)),
{
    let chars: Vec<char> = to_chars(email);
    let inner: String = to_text(trim(&chars));
    to_lowercase(inner.as_str())
}

fn same_email_key(a: &Option<String>, b: &Option<String>) -> (r: bool)
    ensures
        r == (email_key(a.deep_view()) == email_key(b.deep_view())),
{
    match (a, b) {
        (Some(a), Some(b)) => same_text(
            normalized_prompt_email(a.as_str()).as_str(),
            normalized_prompt_email(b.as_str()).as_str(),
        ),
        (None, None) => true,
        _ => false,
    }
}

pub fn same_optional_element(left: Option<u64>, right: Option<u64>) -> (r: bool)
    ensures
        r == (left == right),
{
    match (left, right) {
        (Some(left), Some(right)) => left == right,
        (None, None) => true,
        _ => false,
    }
}

/// `same_candidate`, computed.
pub fn same_prompt_candidate(left: &MacosPrompt, right: &MacosPrompt) -> (r: bool)
    ensures
        r == same_candidate(left.deep_view(), right.deep_view()),
{
    left.target.process_id == right.target.process_id && trimmed_eq_ignore_ascii_case(
        left.target.window_title.as_str(),
        right.target.window_title.as_str(),
    ) && same_email_key(&left.email, &right.email) && left.target_window == right.target_window
        && left.native_container == right.native_container && left.prompt_root
        == right.prompt_root && left.password_field == right.password_field
        && same_optional_element(left.submit_button, right.submit_button)
}

/// Where `p` was found before.
pub open spec fn candidate_place(prompts: Seq<PromptView>, p: PromptView, from: int) -> Option<int>
    decreases prompts.len() - from,
{
    if from < 0 || from >= prompts.len() {
        None
    } else if same_candidate(prompts[from], p) {
        Some(from)
    } else {
        candidate_place(prompts, p, from + 1)
    }
}

/// The prompts with one more. A prompt that was found before is kept once; as a
/// sheet it takes the place of itself as a window.
pub open spec fn recorded(prompts: Seq<PromptView>, p: PromptView) -> Seq<PromptView> {
    match candidate_place(prompts, p, 0) {
        Some(i) => if prompts[i].origin == PromptOrigin::Window && p.origin
            == PromptOrigin::Sheet {
            prompts.update(i, p)
        } else {
            prompts
        },
        None => prompts.push(p),
    }
}

/// `recorded`, computed.
pub fn record_prompt_candidate(prompts: &mut Vec<MacosPrompt>, prompt: MacosPrompt)
    ensures
        final(prompts).deep_view() == recorded(old(prompts).deep_view(), prompt.deep_view()),
{
    let ghost all = prompts.deep_view();
    let ghost p = prompt.deep_view();
    let mut i: usize = 0;
    while i < prompts.len()
        invariant
            i <= prompts@.len(),
            prompts.deep_view() == all,
            all == old(prompts).deep_view(),
            prompts@ == old(prompts)@,
            p == prompt.deep_view(),
            candidate_place(all, p, 0) == candidate_place(all, p, i as int),
        decreases prompts@.len() - i,
    {
        assert(all[i as int] == prompts@[i as int].deep_view());
        if same_prompt_candidate(&prompts[i], &prompt) {
            if prompts[i].origin == PromptOrigin::Window && prompt.origin == PromptOrigin::Sheet {
                prompts.set(i, prompt);
                assert(prompts.deep_view() =~= all.update(i as int, p));
            }
            return;
        }
        i += 1;
    }
    prompts.push(prompt);
    assert(prompts.deep_view() =~= all.push(p));
}

pub open spec fn frontmost_states(prompts: Seq<PromptView>) -> Seq<bool> {
    prompts.map_values(|p: PromptView| p.target.frontmost)
}

/// The prompt that alone is in front.
pub open spec fn preferred(prompts: Seq<PromptView>) -> Option<PromptView> {
    match sole_true(frontmost_states(prompts)) {
        Some(i) => Some(prompts[i as int]),
        None => None,
    }
}

/// `preferred`, computed.
pub fn preferred_unique_prompt(prompts: &Vec<MacosPrompt>) -> (out: Option<&MacosPrompt>)
    ensures
        out.deep_view() == preferred(prompts.deep_view()),
{
    let ghost all = prompts.deep_view();
    let mut states: Vec<bool> = Vec::new();
    let mut i: usize = 0;
    while i < prompts.len()
        invariant
            i <= prompts@.len(),
            all == prompts.deep_view(),
            states@.len() == i,
            forall|j: int| 0 <= j < i ==> #[trigger] states@[j] == all[j].target.frontmost,
        decreases prompts@.len() - i,
    {
        states.push(prompts[i].target.frontmost);
        i += 1;
    }
    assert(states@ =~= frontmost_states(all));
    match unique_frontmost_index(&states) {
        Some(index) => {
            proof {
                crate::selection::law_unique_true(states@, index);
            }
            Some(&prompts[index])
        },
        None => None,
    }
}

// ---------------------------------------------------------------------------
// Looking at one window
// ---------------------------------------------------------------------------

pub open spec fn with_candidate(i: InspectionView, p: Option<PromptView>) -> InspectionView {
    match p {
        Some(p) => InspectionView { prompts: recorded(i.prompts, p), ..i },
        None => i,
    }
}

pub open spec fn titled(app: AppView, window: u64) -> WindowTitleView {
    WindowTitleView {
        process_id: app.process.pid,
        title: title_at(app.nodes, window),
        window: Some(window),
    }
}

pub open spec fn target_of(app: AppView, window: u64, frontmost: bool) -> TargetView {
    TargetView {
        process_id: app.process.pid,
        window_title: title_at(app.nodes, window),
        frontmost,
    }
}

/// The look so far with the title of one more window, and with that window as
/// the target where it is a better one.
pub open spec fn with_window(
    i: InspectionView,
    app: AppView,
    window: u64,
    frontmost: bool,
) -> InspectionView {
    let target = target_of(app, window, frontmost);
    let aimed = i.target is Some && (i.target->0.window_title.len() == 0 || (
    !i.target->0.frontmost && frontmost));
    InspectionView {
        target: if aimed {
            Some(target)
        } else {
            i.target
        },
        ..i
    }
}

pub open spec fn with_session(i: InspectionView, app: AppView, window: u64) -> InspectionView {
    if session_title(title_at(app.nodes, window)) {
        InspectionView {
            has_session: true,
            session_windows: i.session_windows.push(titled(app, window)),
            ..i
        }
    } else {
        i
    }
}

/// The sheets that are looked at: those of the window in front.
pub open spec fn sheets_to_scan(app: AppView, window: u64, frontmost: bool) -> Result<
    Seq<u64>,
    ScanErrorView,
> {
    if frontmost {
        shown_sheets(app.nodes, window)
    } else {
        Ok(Seq::empty())
    }
}

/// The prompt that the window itself is.
pub open spec fn window_prompt(app: AppView, window: u64, has_sheet: bool, frontmost: bool) -> Result<
    Option<PromptView>,
    ScanErrorView,
> {
    if has_sheet || !frontmost || !scannable(app.nodes, window, title_at(app.nodes, window)) {
        Ok(None)
    } else {
        let all = below(app.nodes, window);
        if all.completeness != CompletenessView::Complete {
            Err(ScanErrorView::WindowIncomplete(all.completeness))
        } else {
            let p = ScanPlace {
                target: target_of(app, window, frontmost),
                target_window: window,
                root: window,
                origin: PromptOrigin::Window,
                trusted_process: app.process,
            };
            prompt_in(app.nodes, p, all.elements)
        }
    }
}

/// The look after one more window.
pub open spec fn after_window(
    i: InspectionView,
    app: AppView,
    window: u64,
    frontmost: bool,
    expected_title: Option<Seq<char>>,
) -> Result<InspectionView, ScanErrorView> {
    let seen = InspectionView { window_titles: i.window_titles.push(titled(app, window)), ..i };
    if !title_matches(title_at(app.nodes, window), expected_title) {
        Ok(seen)
    } else {
        let aimed = with_window(seen, app, window, frontmost);
        match sheets_to_scan(app, window, frontmost) {
            Err(e) => Err(e),
            Ok(sheets) => {
                let target = target_of(app, window, frontmost);
                match sole_sheet_prompt(app.nodes, target, window, sheets, app.process) {
                    Err(e) => Err(e),
                    Ok(on_sheet) => {
                        let with_sheet = with_session(with_candidate(aimed, on_sheet), app, window);
                        match window_prompt(app, window, sheets.len() > 0, frontmost) {
                            Err(e) => Err(e),
                            Ok(in_window) => Ok(with_candidate(with_sheet, in_window)),
                        }
                    },
                }
            },
        }
    }
}

/// The look after the windows of `ids` from place `n` on, of which the one at
/// place `selected` is in front.
pub open spec fn after_windows(
    i: InspectionView,
    app: AppView,
    ids: Seq<u64>,
    n: int,
    selected: Option<usize>,
    expected_title: Option<Seq<char>>,
) -> Result<InspectionView, ScanErrorView>
    decreases ids.len() - n,
{
    if n >= ids.len() || n < 0 {
        Ok(i)
    } else {
        let frontmost = selected is Some && selected->0 == n;
        match after_window(i, app, ids[n], frontmost, expected_title) {
            Err(e) => Err(e),
            Ok(next) => after_windows(next, app, ids, n + 1, selected, expected_title),
        }
    }
}

/// The look so far, aimed at the process where it is not aimed yet.
pub open spec fn with_process(i: InspectionView, app: AppView) -> InspectionView {
    if i.target is None {
        InspectionView {
            target: Some(
                TargetView {
                    process_id: app.process.pid,
                    window_title: Seq::empty(),
                    frontmost: app.frontmost == Some(true),
                },
            ),
            ..i
        }
    } else {
        i
    }
}

/// The look after one more process.
pub open spec fn after_app(
    i: InspectionView,
    app: AppView,
    expected_title: Option<Seq<char>>,
) -> Result<InspectionView, ScanErrorView> {
    if app.application != Some(app.process.pid) {
        Ok(i)
    } else {
        match app.windows {
            None => Err(ScanErrorView::WindowsUnavailable),
            Some(windows) => after_windows(
                with_process(i, app),
                app,
                shown(app.nodes, windows),
                0,
                front_window(app.nodes, app.frontmost, windows),
                expected_title,
            ),
        }
    }
}

/// The look after the processes from place `n` on that are the expected one.
pub open spec fn after_apps(
    i: InspectionView,
    apps: Seq<AppView>,
    n: int,
    expected_process_id: Option<i32>,
    expected_title: Option<Seq<char>>,
) -> Result<InspectionView, ScanErrorView>
    decreases apps.len() - n,
{
    if n >= apps.len() || n < 0 {
        Ok(i)
    } else if expected_process_id is Some && apps[n].process.pid != expected_process_id->0 {
        after_apps(i, apps, n + 1, expected_process_id, expected_title)
    } else {
        match after_app(i, apps[n], expected_title) {
            Err(e) => Err(e),
            Ok(next) => after_apps(next, apps, n + 1, expected_process_id, expected_title),
        }
    }
}

/// What a look at the trusted processes finds.
pub open spec fn inspected(
    apps: Seq<AppView>,
    expected_process_id: Option<i32>,
    expected_title: Option<Seq<char>>,
) -> Result<InspectionView, ScanErrorView> {
    if apps.len() == 0 {
        Ok(nothing_found())
    } else {
        match after_apps(
            InspectionView { process_found: true, ..nothing_found() },
            apps,
            0,
            expected_process_id,
            expected_title,
        ) {
            Err(e) => Err(e),
            Ok(i) => Ok(InspectionView { prompt: preferred(i.prompts), ..i }),
        }
    }
}

pub open spec fn look_view(out: Result<MacosInspection, ScanError>) -> Result<
    InspectionView,
    ScanErrorView,
> {
    match out {
        Ok(i) => Ok(i.deep_view()),
        Err(e) => Err(e.deep_view()),
    }
}

pub open spec fn step_view(i: MacosInspection, out: Result<(), ScanError>) -> Result<
    InspectionView,
    ScanErrorView,
> {
    match out {
        Ok(_) => Ok(i.deep_view()),
        Err(e) => Err(e.deep_view()),
    }
}

fn titled_window(app: &AppSnapshot, window: u64, title: &String) -> (out: MacosWindowTitle)
    requires
        title@ == title_at(app.deep_view().nodes, window),
    ensures
        out.deep_view() == titled(app.deep_view(), window),
{
    MacosWindowTitle { process_id: app.process.pid, title: title.clone(), window: Some(window) }
}

fn add_candidate(inspection: &mut MacosInspection, prompt: Option<MacosPrompt>)
    ensures
        final(inspection).deep_view() == with_candidate(
            old(inspection).deep_view(),
            prompt.deep_view(),
        ),
{
    if let Some(prompt) = prompt {
        record_prompt_candidate(&mut inspection.prompts, prompt);
        assert(inspection.deep_view() =~= with_candidate(
            old(inspection).deep_view(),
            Some(prompt.deep_view()),
        ));
    }
}

/// `after_window`, computed.
fn look_at_window(
    inspection: &mut MacosInspection,
    app: &AppSnapshot,
    window: u64,
    frontmost: bool,
    expected_window_title: Option<&str>,
) -> (out: Result<(), ScanError>)
    ensures
        step_view(*final(inspection), out) == after_window(
            old(inspection).deep_view(),
            app.deep_view(),
            window,
            frontmost,
            expected_window_title.deep_view(),
        ),
{
    let ghost start = inspection.deep_view();
    let ghost a = app.deep_view();
    let window_title: String = element_title(&app.tree, window);
    inspection.window_titles.push(titled_window(app, window, &window_title));
    let ghost seen = InspectionView {
        window_titles: start.window_titles.push(titled(a, window)),
        ..start
    };
    assert(inspection.deep_view() =~= seen);
    if !prompt_window_title_matches(window_title.as_str(), expected_window_title) {
        return Ok(());
    }
    let target: MacosTarget = MacosTarget {
        process_id: app.process.pid,
        window_title: window_title.clone(),
        frontmost,
    };
    assert(target.deep_view() =~= target_of(a, window, frontmost));
    let aim: bool = match &inspection.target {
        Some(target) => target.window_title.as_str().is_empty() || (!target.frontmost
            && frontmost),
        None => false,
    };
    if aim {
        inspection.target = Some(target.duplicate());
    }
    assert(inspection.deep_view() =~= with_window(seen, a, window, frontmost));
    let sheets: Vec<u64> = if frontmost {
        match visible_direct_sheets(&app.tree, window) {
            Ok(sheets) => sheets,
            Err(error) => {
                return Err(error);
            },
        }
    } else {
        Vec::new()
    };
    match unique_direct_sheet_prompt(&app.tree, &target, window, &sheets, &app.process) {
        Ok(prompt) => {
            add_candidate(inspection, prompt);
        },
        Err(error) => {
            return Err(error);
        },
    }
    let ghost before_session = inspection.deep_view();
    if is_probable_session_window_title(window_title.as_str()) {
        inspection.has_session = true;
        inspection.session_windows.push(titled_window(app, window, &window_title));
    }
    assert(inspection.deep_view() =~= with_session(before_session, a, window));
    if sheets.len() > 0 || !frontmost || !window_should_scan_for_prompt(
        &app.tree,
        window,
        window_title.as_str(),
    ) {
        return Ok(());
    }
    let elements: Vec<u64> = match app.tree.collect_elements(window).into_complete_elements() {
        Ok(elements) => elements,
        Err(incomplete) => {
            return Err(ScanError::WindowIncomplete(incomplete));
        },
    };
    match prompt_from_elements(
        &app.tree,
        &target,
        window,
        window,
        &elements,
        PromptOrigin::Window,
        &app.process,
    ) {
        Ok(prompt) => {
            add_candidate(inspection, prompt);
            Ok(())
        },
        Err(error) => Err(error),
    }
}

/// `after_app`, computed.
fn look_at_app(
    inspection: &mut MacosInspection,
    app: &AppSnapshot,
    expected_window_title: Option<&str>,
) -> (out: Result<(), ScanError>)
    ensures
        step_view(*final(inspection), out) == after_app(
            old(inspection).deep_view(),
            app.deep_view(),
            expected_window_title.deep_view(),
        ),
{
    let ghost start = inspection.deep_view();
    let ghost a = app.deep_view();
    match app.application {
        Some(pid) => {
            if pid != app.process.pid {
                return Ok(());
            }
        },
        None => {
            return Ok(());
        },
    }
    let windows: &Vec<u64> = match &app.windows {
        Some(windows) => windows,
        None => {
            return Err(ScanError::WindowsUnavailable);
        },
    };
    let ids: Vec<u64> = app.tree.shown_ids(windows);
    let selected: Option<usize> = front_window_index(&app.tree, app.frontmost, &ids);
    if inspection.target.is_none() {
        let in_front: bool = match app.frontmost {
            Some(frontmost) => frontmost,
            None => false,
        };
        let target: MacosTarget = MacosTarget {
            process_id: app.process.pid,
            window_title: String::new(),
            frontmost: in_front,
        };
        assert(target.deep_view().window_title =~= Seq::<char>::empty());
        inspection.target = Some(target);
    }
    assert(inspection.deep_view() =~= with_process(start, a));
    let ghost aimed = inspection.deep_view();
    let ghost title = expected_window_title.deep_view();
    let mut n: usize = 0;
    while n < ids.len()
        invariant
            n <= ids@.len(),
            a == app.deep_view(),
            title == expected_window_title.deep_view(),
            after_windows(aimed, a, ids@, 0, selected, title) == after_windows(
                inspection.deep_view(),
                a,
                ids@,
                n as int,
                selected,
                title,
            ),
            after_app(start, a, title) == after_windows(aimed, a, ids@, 0, selected, title),
            start == old(inspection).deep_view(),
        decreases ids@.len() - n,
    {
        let in_front: bool = match selected {
            Some(index) => index == n,
            None => false,
        };
        match look_at_window(inspection, app, ids[n], in_front, expected_window_title) {
            Ok(_) => {},
            Err(error) => {
                return Err(error);
            },
        }
        n += 1;
    }
    Ok(())
}

/// `inspected`, computed.
pub fn inspect_process(
    apps: &Vec<AppSnapshot>,
    expected_process_id: Option<i32>,
    expected_window_title: Option<&str>,
) -> (out: Result<MacosInspection, ScanError>)
    ensures
        look_view(out) == inspected(
            apps.deep_view(),
            expected_process_id,
            expected_window_title.deep_view(),
        ),
{
    if apps.len() == 0 {
        return Ok(MacosInspection::empty());
    }
    let ghost all = apps.deep_view();
    let ghost title = expected_window_title.deep_view();
    let mut inspection: MacosInspection = MacosInspection::empty();
    inspection.process_found = true;
    let ghost start = InspectionView { process_found: true, ..nothing_found() };
    assert(inspection.deep_view() =~= start);
    let mut n: usize = 0;
    while n < apps.len()
        invariant
            n <= apps@.len(),
            all == apps.deep_view(),
            title == expected_window_title.deep_view(),
            after_apps(start, all, 0, expected_process_id, title) == after_apps(
                inspection.deep_view(),
                all,
                n as int,
                expected_process_id,
                title,
            ),
            start == (InspectionView { process_found: true, ..nothing_found() }),
            all.len() > 0,
        decreases apps@.len() - n,
    {
        assert(all[n as int] == apps@[n as int].deep_view());
        let wanted: bool = match expected_process_id {
            Some(pid) => apps[n].process.pid == pid,
            None => true,
        };
        if wanted {
            match look_at_app(&mut inspection, &apps[n], expected_window_title) {
                Ok(_) => {},
                Err(error) => {
                    return Err(error);
                },
            }
        }
        n += 1;
    }
    let ghost looked = inspection.deep_view();
    inspection.prompt = match preferred_unique_prompt(&inspection.prompts) {
        Some(prompt) => Some(prompt.duplicate()),
        None => None,
    };
    assert(inspection.deep_view() =~= InspectionView {
        prompt: preferred(looked.prompts),
        ..looked
    });
    Ok(inspection)
}

/// The window whose content is looked at, of a process of which only the windows
/// were read: the one in front, where its title is the expected one.
pub open spec fn readable_window(app: AppView, expected_title: Option<Seq<char>>) -> Option<u64> {
    match app.windows {
        Some(windows) => match front_window(app.nodes, app.frontmost, windows) {
            Some(i) => {
                let window = shown(app.nodes, windows)[i as int];
                if title_matches(title_at(app.nodes, window), expected_title) {
                    Some(window)
                } else {
                    None
                }
            },
            None => None,
        },
        None => None,
    }
}

/// `readable_window`, computed.
pub fn window_to_read(app: &AppSnapshot, expected_window_title: Option<&str>) -> (out: Option<u64>)
    ensures
        out == readable_window(app.deep_view(), expected_window_title.deep_view()),
{
    let windows: &Vec<u64> = match &app.windows {
        Some(windows) => windows,
        None => {
            return None;
        },
    };
    let ids: Vec<u64> = app.tree.shown_ids(windows);
    let ghost states = foreground_states(app.tree.deep_view(), ids@);
    match front_window_index(&app.tree, app.frontmost, &ids) {
        Some(index) => {
            proof {
                crate::selection::law_unique_true(
                    states.map_values(
                        |s: AxForegroundState| crate::selection::foreground_claimed(s),
                    ),
                    index,
                );
            }
            let title: String = element_title(&app.tree, ids[index]);
            if prompt_window_title_matches(title.as_str(), expected_window_title) {
                Some(ids[index])
            } else {
                None
            }
        },
        None => None,
    }
}

// ---------------------------------------------------------------------------
// What a look does not touch, and what it finds
// ---------------------------------------------------------------------------

/// Two readings of a window agree on its title, on whether it is hidden and on
/// whether it says that it is in front.
pub open spec fn same_face(a: Seq<NodeView>, b: Seq<NodeView>, id: u64) -> bool {
    &&& hidden_at(a, id) == hidden_at(b, id)
    &&& foreground_state(a, id) == foreground_state(b, id)
    &&& title_at(a, id) == title_at(b, id)
}

proof fn lemma_shown_by_face(a: Seq<NodeView>, b: Seq<NodeView>, ids: Seq<u64>)
    requires
        forall|j: int| 0 <= j < ids.len() ==> same_face(a, b, #[trigger] ids[j]),
    ensures
        shown(a, ids) == shown(b, ids),
        forall|j: int|
            0 <= j < shown(a, ids).len() ==> same_face(a, b, #[trigger] shown(a, ids)[j]),
    decreases ids.len(),
{
    if ids.len() > 0 {
        assert forall|j: int| 0 <= j < ids.drop_last().len() implies same_face(
            a,
            b,
            #[trigger] ids.drop_last()[j],
        ) by {
            assert(ids.drop_last()[j] == ids[j]);
        }
        lemma_shown_by_face(a, b, ids.drop_last());
        assert(same_face(a, b, ids[ids.len() - 1]));
    }
}

proof fn lemma_no_sheets(app: AppView, window: u64)
    ensures
        sole_sheet_prompt(
            app.nodes,
            target_of(app, window, false),
            window,
            Seq::empty(),
            app.process,
        ) == Ok::<Option<PromptView>, ScanErrorView>(None),
{
    let none = crate::prompt_scan::some_states(Seq::<Option<PromptView>>::empty());
    assert(none.len() == 0);
}

proof fn lemma_background_windows(
    i: InspectionView,
    a: AppView,
    b: AppView,
    ids: Seq<u64>,
    n: int,
    selected: Option<usize>,
    expected_title: Option<Seq<char>>,
)
    requires
        0 <= n <= ids.len(),
        a.process == b.process,
        forall|j: int| 0 <= j < ids.len() ==> same_face(a.nodes, b.nodes, #[trigger] ids[j]),
        selected matches Some(k) ==> k < ids.len() && !title_matches(
            title_at(a.nodes, ids[k as int]),
            expected_title,
        ),
    ensures
        after_windows(i, a, ids, n, selected, expected_title) == after_windows(
            i,
            b,
            ids,
            n,
            selected,
            expected_title,
        ),
    decreases ids.len() - n,
{
    if n < ids.len() {
        let frontmost = selected is Some && selected->0 == n;
        assert(same_face(a.nodes, b.nodes, ids[n]));
        lemma_no_sheets(a, ids[n]);
        lemma_no_sheets(b, ids[n]);
        let one = after_window(i, a, ids[n], frontmost, expected_title);
        assert(titled(a, ids[n]) == titled(b, ids[n]));
        assert(one == after_window(i, b, ids[n], frontmost, expected_title));
        if let Ok(next) = one {
            lemma_background_windows(next, a, b, ids, n + 1, selected, expected_title);
        }
    }
}

/// Where no window may be read, a look goes by the face of each window alone:
/// whatever else was read of the windows, the outcome is the same.
pub proof fn law_background_windows_are_title_only(
    i: InspectionView,
    a: AppView,
    b: AppView,
    expected_title: Option<Seq<char>>,
)
    requires
        a.process == b.process,
        a.application == b.application,
        a.frontmost == b.frontmost,
        a.windows == b.windows,
        a.windows matches Some(ids) ==> forall|j: int|
            0 <= j < ids.len() ==> same_face(a.nodes, b.nodes, #[trigger] ids[j]),
        readable_window(a, expected_title) is None,
    ensures
        after_app(i, a, expected_title) == after_app(i, b, expected_title),
{
    if let Some(windows) = a.windows {
        lemma_shown_by_face(a.nodes, b.nodes, windows);
        let ids = shown(a.nodes, windows);
        let states = foreground_states(a.nodes, ids);
        assert(states =~= foreground_states(b.nodes, ids)) by {
            assert forall|j: int| 0 <= j < ids.len() implies states[j] == foreground_states(
                b.nodes,
                ids,
            )[j] by {
                assert(same_face(a.nodes, b.nodes, ids[j]));
            }
        }
        let selected = front_window(a.nodes, a.frontmost, windows);
        if let Some(k) = selected {
            lemma_front_in_range(a.nodes, a.frontmost, windows);
        }
        lemma_background_windows(with_process(i, a), a, b, ids, 0, selected, expected_title);
    }
}

pub proof fn lemma_front_in_range(nodes: Seq<NodeView>, frontmost: Option<bool>, windows: Seq<u64>)
    ensures
        front_window(nodes, frontmost, windows) matches Some(k) ==> k < shown(nodes, windows).len(),
{
    let states = foreground_states(nodes, shown(nodes, windows));
    let claims = states.map_values(|s: AxForegroundState| crate::selection::foreground_claimed(s));
    lemma_sole_in_range(claims);
}

proof fn lemma_sole_in_range(states: Seq<bool>)
    ensures
        sole_true(states) matches Some(k) ==> k < states.len(),
    decreases states.len(),
{
    if states.len() > 0 {
        lemma_sole_in_range(states.drop_last());
    }
}

/// The prompts are all in front, and each has an account, a submit button and
/// texts that identify it.
pub open spec fn all_sound(prompts: Seq<PromptView>) -> bool {
    forall|j: int| 0 <= j < prompts.len() ==> is_in_front(#[trigger] prompts[j])
}

pub open spec fn is_in_front(p: PromptView) -> bool {
    &&& p.target.frontmost
    &&& p.email is Some
    &&& p.submit_button is Some
    &&& snapshots_say(
        p.identity_text,
        Expectation { email: p.email->0, title: p.target.window_title, origin: p.origin },
    )
}

proof fn lemma_candidate_place(prompts: Seq<PromptView>, p: PromptView, from: int)
    ensures
        candidate_place(prompts, p, from) matches Some(k) ==> 0 <= k < prompts.len(),
    decreases prompts.len() - from,
{
    if 0 <= from < prompts.len() && !same_candidate(prompts[from], p) {
        lemma_candidate_place(prompts, p, from + 1);
    }
}

proof fn lemma_recorded_keeps_sound(prompts: Seq<PromptView>, p: PromptView)
    requires
        all_sound(prompts),
        is_in_front(p),
    ensures
        all_sound(recorded(prompts, p)),
{
    lemma_candidate_place(prompts, p, 0);
    let next = recorded(prompts, p);
    assert forall|j: int| 0 <= j < next.len() implies is_in_front(#[trigger] next[j]) by {
        if j < prompts.len() {
            assert(is_in_front(prompts[j]));
        }
    }
}

proof fn lemma_window_keeps_sound(
    i: InspectionView,
    app: AppView,
    window: u64,
    frontmost: bool,
    expected_title: Option<Seq<char>>,
)
    requires
        all_sound(i.prompts),
    ensures
        after_window(i, app, window, frontmost, expected_title) matches Ok(next) ==> all_sound(
            next.prompts,
        ),
{
    let target = target_of(app, window, frontmost);
    if let Ok(sheets) = sheets_to_scan(app, window, frontmost) {
        law_sheet_prompt_is_sound(app.nodes, target, window, sheets, app.process);
        if let Ok(Some(on_sheet)) = sole_sheet_prompt(
            app.nodes,
            target,
            window,
            sheets,
            app.process,
        ) {
            lemma_recorded_keeps_sound(i.prompts, on_sheet);
        }
        let p = ScanPlace {
            target,
            target_window: window,
            root: window,
            origin: PromptOrigin::Window,
            trusted_process: app.process,
        };
        law_found_prompt_is_sound(app.nodes, p, below(app.nodes, window).elements);
        if let Ok(Some(in_window)) = window_prompt(app, window, sheets.len() > 0, frontmost) {
            lemma_recorded_keeps_sound(i.prompts, in_window);
            if let Ok(Some(on_sheet)) = sole_sheet_prompt(
                app.nodes,
                target,
                window,
                sheets,
                app.process,
            ) {
                lemma_recorded_keeps_sound(recorded(i.prompts, on_sheet), in_window);
            }
        }
    }
}

proof fn lemma_windows_keep_sound(
    i: InspectionView,
    app: AppView,
    ids: Seq<u64>,
    n: int,
    selected: Option<usize>,
    expected_title: Option<Seq<char>>,
)
    requires
        all_sound(i.prompts),
    ensures
        after_windows(i, app, ids, n, selected, expected_title) matches Ok(next) ==> all_sound(
            next.prompts,
        ),
    decreases ids.len() - n,
{
    if 0 <= n < ids.len() {
        let frontmost = selected is Some && selected->0 == n;
        lemma_window_keeps_sound(i, app, ids[n], frontmost, expected_title);
        if let Ok(next) = after_window(i, app, ids[n], frontmost, expected_title) {
            lemma_windows_keep_sound(next, app, ids, n + 1, selected, expected_title);
        }
    }
}

proof fn lemma_apps_keep_sound(
    i: InspectionView,
    apps: Seq<AppView>,
    n: int,
    expected_process_id: Option<i32>,
    expected_title: Option<Seq<char>>,
)
    requires
        all_sound(i.prompts),
    ensures
        after_apps(i, apps, n, expected_process_id, expected_title) matches Ok(next) ==> all_sound(
            next.prompts,
        ),
    decreases apps.len() - n,
{
    if 0 <= n < apps.len() {
        if expected_process_id is Some && apps[n].process.pid != expected_process_id->0 {
            lemma_apps_keep_sound(i, apps, n + 1, expected_process_id, expected_title);
        } else {
            let app = apps[n];
            if let Some(windows) = app.windows {
                lemma_windows_keep_sound(
                    with_process(i, app),
                    app,
                    shown(app.nodes, windows),
                    0,
                    front_window(app.nodes, app.frontmost, windows),
                    expected_title,
                );
            }
            if let Ok(next) = after_app(i, app, expected_title) {
                lemma_apps_keep_sound(next, apps, n + 1, expected_process_id, expected_title);
            }
        }
    }
}

/// Every prompt that a look finds is in front and is identified by its texts.
pub proof fn law_inspected_prompts_are_in_front(
    apps: Seq<AppView>,
    expected_process_id: Option<i32>,
    expected_title: Option<Seq<char>>,
)
    ensures
        inspected(apps, expected_process_id, expected_title) matches Ok(i) ==> all_sound(i.prompts),
{
    lemma_apps_keep_sound(
        InspectionView { process_found: true, ..nothing_found() },
        apps,
        0,
        expected_process_id,
        expected_title,
    );
}

// ---------------------------------------------------------------------------
// The expected prompt
// ---------------------------------------------------------------------------

/// The prompt is of the expected process, window and account.
pub open spec fn is_expected(
    p: PromptView,
    expected_process_id: Option<i32>,
    expected_title: Option<Seq<char>>,
    expected_email: Option<Seq<char>>,
) -> bool {
    &&& expected_process_id matches Some(pid) ==> p.target.process_id == pid
    &&& title_matches(p.target.window_title, expected_title)
    &&& expected_email matches Some(email) ==> p.email is Some && same_username(p.email->0, email)
}

/// `is_expected`, computed.
pub fn prompt_matches_expected(
    prompt: &MacosPrompt,
    expected_process_id: Option<i32>,
    expected_window_title: Option<&str>,
    expected_email: Option<&str>,
) -> (r: bool)
    ensures
        r == is_expected(
            prompt.deep_view(),
            expected_process_id,
            expected_window_title.deep_view(),
            expected_email.deep_view(),
        ),
{
    if let Some(pid) = expected_process_id {
        if prompt.target.process_id != pid {
            return false;
        }
    }
    if !prompt_window_title_matches(prompt.target.window_title.as_str(), expected_window_title) {
        return false;
    }
    match expected_email {
        Some(expected) => match &prompt.email {
            Some(email) => usernames_match(email.as_str(), expected),
            None => false,
        },
        None => true,
    }
}

/// The expected ones among the prompts.
pub open spec fn expected_prompts(
    prompts: Seq<PromptView>,
    expected_process_id: Option<i32>,
    expected_title: Option<Seq<char>>,
    expected_email: Option<Seq<char>>,
) -> Seq<PromptView>
    decreases prompts.len(),
{
    if prompts.len() == 0 {
        Seq::empty()
    } else {
        let found = expected_prompts(
            prompts.drop_last(),
            expected_process_id,
            expected_title,
            expected_email,
        );
        if is_expected(prompts.last(), expected_process_id, expected_title, expected_email) {
            found.push(prompts.last())
        } else {
            found
        }
    }
}

/// `expected_prompts`, computed.
pub fn matching_prompt_candidates(
    prompts: &Vec<MacosPrompt>,
    expected_process_id: Option<i32>,
    expected_window_title: Option<&str>,
    expected_email: Option<&str>,
) -> (out: Vec<MacosPrompt>)
    ensures
        out.deep_view() == expected_prompts(
            prompts.deep_view(),
            expected_process_id,
            expected_window_title.deep_view(),
            expected_email.deep_view(),
        ),
{
    let ghost all = prompts.deep_view();
    let ghost title = expected_window_title.deep_view();
    let ghost email = expected_email.deep_view();
    let mut out: Vec<MacosPrompt> = Vec::new();
    let mut i: usize = 0;
    assert(all.take(0) =~= Seq::<PromptView>::empty());
    assert(out.deep_view() =~= Seq::<PromptView>::empty());
    while i < prompts.len()
        invariant
            i <= prompts@.len(),
            all == prompts.deep_view(),
            title == expected_window_title.deep_view(),
            email == expected_email.deep_view(),
            out.deep_view() == expected_prompts(
                all.take(i as int),
                expected_process_id,
                title,
                email,
            ),
        decreases prompts@.len() - i,
    {
        assert(all.take(i + 1).drop_last() =~= all.take(i as int));
        assert(all.take(i + 1).last() == prompts@[i as int].deep_view());
        if prompt_matches_expected(
            &prompts[i],
            expected_process_id,
            expected_window_title,
            expected_email,
        ) {
            let ghost before = out.deep_view();
            let copy: MacosPrompt = prompts[i].duplicate();
            let ghost added = copy.deep_view();
            out.push(copy);
            assert(out.deep_view() =~= before.push(added));
        }
        i += 1;
    }
    assert(all.take(all.len() as int) =~= all);
    out
}

// ---------------------------------------------------------------------------
// Titles that name one window
// ---------------------------------------------------------------------------

/// A window of the process with this title.
pub open spec fn bears_title(w: WindowTitleView, process_id: i32, title: Seq<char>) -> bool {
    w.process_id == process_id && same_ascii(trimmed(w.title), trimmed(title))
}

/// The same window, seen twice. Windows that are not known are not the same.
pub open spec fn same_window(a: WindowTitleView, b: WindowTitleView) -> bool {
    &&& a.process_id == b.process_id
    &&& same_ascii(trimmed(a.title), trimmed(b.title))
    &&& a.window is Some
    &&& a.window == b.window
}

/// The title is not blank, and of the windows seen it names one.
pub open spec fn names_one_window(
    windows: Seq<WindowTitleView>,
    process_id: i32,
    title: Seq<char>,
) -> bool {
    trimmed(title).len() > 0 && exists|i: int|
        0 <= i < windows.len() && #[trigger] bears_title(windows[i], process_id, title) && (forall|
            j: int,
        |
            0 <= j < windows.len() && j != i && #[trigger] bears_title(
                windows[j],
                process_id,
                title,
            ) ==> same_window(windows[i], windows[j]))
}

/// `same_window`, computed.
pub fn same_window_title_identity(left: &MacosWindowTitle, right: &MacosWindowTitle) -> (r: bool)
    ensures
        r == same_window(left.deep_view(), right.deep_view()),
{
    if left.process_id != right.process_id || !trimmed_eq_ignore_ascii_case(
        left.title.as_str(),
        right.title.as_str(),
    ) {
        return false;
    }
    match (left.window, right.window) {
        (Some(left_window), Some(right_window)) => left_window == right_window,
        _ => false,
    }
}

/// `names_one_window`, computed.
pub fn window_title_binding_is_unique(
    window_titles: &Vec<MacosWindowTitle>,
    expected_process_id: i32,
    expected_title: &str,
) -> (r: bool)
    ensures
        r == names_one_window(window_titles.deep_view(), expected_process_id, expected_title@),
{
    if is_blank(expected_title) {
        return false;
    }
    let ghost all = window_titles.deep_view();
    let mut found: Option<usize> = None;
    let mut i: usize = 0;
    while i < window_titles.len()
        invariant
            i <= window_titles@.len(),
            all == window_titles.deep_view(),
            found matches Some(k) ==> k < i && bears_title(
                all[k as int],
                expected_process_id,
                expected_title@,
            ),
            found is None ==> forall|j: int|
                0 <= j < i ==> !#[trigger] bears_title(
                    all[j],
                    expected_process_id,
                    expected_title@,
                ),
            found matches Some(k) ==> forall|j: int|
                0 <= j < i && j != k && #[trigger] bears_title(
                    all[j],
                    expected_process_id,
                    expected_title@,
                ) ==> same_window(all[k as int], all[j]),
        decreases window_titles@.len() - i,
    {
        assert(all[i as int] == window_titles@[i as int].deep_view());
        if window_titles[i].process_id == expected_process_id && trimmed_eq_ignore_ascii_case(
            window_titles[i].title.as_str(),
            expected_title,
        ) {
            match found {
                Some(k) => {
                    if !same_window_title_identity(&window_titles[k], &window_titles[i]) {
                        proof {
                            lemma_two_windows(
                                all,
                                expected_process_id,
                                expected_title@,
                                k as int,
                                i as int,
                            );
                        }
                        return false;
                    }
                },
                None => {
                    found = Some(i);
                },
            }
        }
        i += 1;
    }
    if let Some(k) = found {
        assert(bears_title(all[k as int], expected_process_id, expected_title@));
    }
    found.is_some()
}

proof fn lemma_two_windows(
    windows: Seq<WindowTitleView>,
    process_id: i32,
    title: Seq<char>,
    a: int,
    b: int,
)
    requires
        0 <= a < windows.len(),
        0 <= b < windows.len(),
        a != b,
        bears_title(windows[a], process_id, title),
        bears_title(windows[b], process_id, title),
        !same_window(windows[a], windows[b]),
    ensures
        !names_one_window(windows, process_id, title),
{
    assert forall|i: int|
        0 <= i < windows.len() && #[trigger] bears_title(windows[i], process_id, title) && (forall|
            j: int,
        |
            0 <= j < windows.len() && j != i && #[trigger] bears_title(
                windows[j],
                process_id,
                title,
            ) ==> same_window(windows[i], windows[j])) implies false by {
        if i != a {
            assert(same_window(windows[i], windows[a]));
        }
        if i != b {
            assert(same_window(windows[i], windows[b]));
        }
    }
}

// ---------------------------------------------------------------------------
// The one visible prompt
// ---------------------------------------------------------------------------

/// Why there is no saying which prompt is visible.
#[derive(Debug, Clone, PartialEq, Eq)]
pub enum DetectError {
    Scan(ScanError),
    MultiplePrompts,
    MultipleWindows,
}

pub enum DetectErrorView {
    Scan(ScanErrorView),
    MultiplePrompts,
    MultipleWindows,
}

impl DeepView for DetectError {
    type V = DetectErrorView;

    open spec fn deep_view(&self) -> DetectErrorView {
        match self {
            DetectError::Scan(e) => DetectErrorView::Scan(e.deep_view()),
            DetectError::MultiplePrompts => DetectErrorView::MultiplePrompts,
            DetectError::MultipleWindows => DetectErrorView::MultipleWindows,
        }
    }
}

pub open spec fn detect_error_text(e: DetectErrorView) -> Seq<char> {
    match e {
        DetectErrorView::Scan(e) => crate::prompt_scan::scan_error_text(e),
        DetectErrorView::MultiplePrompts => "Multiple matching credential prompts are visible"@,
        DetectErrorView::MultipleWindows => {
            "Multiple trusted target windows match the credential prompt title"@
        },
    }
}

impl DetectError {
    /// `detect_error_text`, computed.
    pub fn message(&self) -> (out: &'static str)
        ensures
            out@ == detect_error_text(self.deep_view()),
    {
        match self {
            DetectError::Scan(error) => error.message(),
            DetectError::MultiplePrompts => "Multiple matching credential prompts are visible",
            DetectError::MultipleWindows => {
                "Multiple trusted target windows match the credential prompt title"
            },
        }
    }
}

/// Of the prompts, those in front with the expected title.
pub open spec fn in_front_titled(
    prompts: Seq<PromptView>,
    expected_title: Option<Seq<char>>,
) -> Seq<PromptView>
    decreases prompts.len(),
{
    if prompts.len() == 0 {
        Seq::empty()
    } else {
        let found = in_front_titled(prompts.drop_last(), expected_title);
        if prompts.last().target.frontmost && title_matches(
            prompts.last().target.window_title,
            expected_title,
        ) {
            found.push(prompts.last())
        } else {
            found
        }
    }
}

/// The one expected prompt in front. Where no account is expected, its title
/// must name one window.
pub open spec fn visible_prompt(
    i: InspectionView,
    expected_process_id: Option<i32>,
    expected_title: Option<Seq<char>>,
    expected_email: Option<Seq<char>>,
) -> Result<Option<PromptView>, DetectErrorView> {
    let found = in_front_titled(
        expected_prompts(i.prompts, expected_process_id, None, expected_email),
        expected_title,
    );
    if found.len() == 0 {
        Ok(None)
    } else if found.len() > 1 {
        Err(DetectErrorView::MultiplePrompts)
    } else if expected_email is None && !names_one_window(
        i.window_titles,
        found[0].target.process_id,
        found[0].target.window_title,
    ) {
        Err(DetectErrorView::MultipleWindows)
    } else {
        Ok(Some(found[0]))
    }
}

pub open spec fn detect_view(out: Result<Option<MacosPrompt>, DetectError>) -> Result<
    Option<PromptView>,
    DetectErrorView,
> {
    match out {
        Ok(Some(p)) => Ok(Some(p.deep_view())),
        Ok(None) => Ok(None),
        Err(e) => Err(e.deep_view()),
    }
}

fn keep_in_front(prompts: &Vec<MacosPrompt>, expected_window_title: Option<&str>) -> (out: Vec<
    MacosPrompt,
>)
    ensures
        out.deep_view() == in_front_titled(prompts.deep_view(), expected_window_title.deep_view()),
{
    let ghost all = prompts.deep_view();
    let ghost title = expected_window_title.deep_view();
    let mut out: Vec<MacosPrompt> = Vec::new();
    let mut i: usize = 0;
    assert(all.take(0) =~= Seq::<PromptView>::empty());
    assert(out.deep_view() =~= Seq::<PromptView>::empty());
    while i < prompts.len()
        invariant
            i <= prompts@.len(),
            all == prompts.deep_view(),
            title == expected_window_title.deep_view(),
            out.deep_view() == in_front_titled(all.take(i as int), title),
        decreases prompts@.len() - i,
    {
        assert(all.take(i + 1).drop_last() =~= all.take(i as int));
        assert(all.take(i + 1).last() == prompts@[i as int].deep_view());
        if prompts[i].target.frontmost && prompt_window_title_matches(
            prompts[i].target.window_title.as_str(),
            expected_window_title,
        ) {
            let ghost before = out.deep_view();
            let copy: MacosPrompt = prompts[i].duplicate();
            let ghost added = copy.deep_view();
            out.push(copy);
            assert(out.deep_view() =~= before.push(added));
        }
        i += 1;
    }
    assert(all.take(all.len() as int) =~= all);
    out
}

/// `visible_prompt`, computed.
pub fn visible_prompt_of(
    inspection: &MacosInspection,
    expected_process_id: Option<i32>,
    expected_window_title: Option<&str>,
    expected_email: Option<&str>,
) -> (out: Result<Option<MacosPrompt>, DetectError>)
    ensures
        detect_view(out) == visible_prompt(
            inspection.deep_view(),
            expected_process_id,
            expected_window_title.deep_view(),
            expected_email.deep_view(),
        ),
{
    let matching: Vec<MacosPrompt> = matching_prompt_candidates(
        &inspection.prompts,
        expected_process_id,
        None,
        expected_email,
    );
    let found: Vec<MacosPrompt> = keep_in_front(&matching, expected_window_title);
    let ghost all = found.deep_view();
    if found.len() == 0 {
        return Ok(None);
    }
    if found.len() > 1 {
        return Err(DetectError::MultiplePrompts);
    }
    assert(all[0] == found@[0].deep_view());
    if expected_email.is_none() && !window_title_binding_is_unique(
        &inspection.window_titles,
        found[0].target.process_id,
        found[0].target.window_title.as_str(),
    ) {
        return Err(DetectError::MultipleWindows);
    }
    Ok(Some(found[0].duplicate()))
}

/// The one visible prompt that a look at the processes finds.
pub open spec fn detected(
    apps: Seq<AppView>,
    expected_process_id: Option<i32>,
    expected_title: Option<Seq<char>>,
    expected_email: Option<Seq<char>>,
) -> Result<Option<PromptView>, DetectErrorView> {
    match inspected(apps, expected_process_id, expected_title) {
        Err(e) => Err(DetectErrorView::Scan(e)),
        Ok(i) => visible_prompt(i, expected_process_id, expected_title, expected_email),
    }
}

/// `detected`, computed.
pub fn detect_visible_prompt(
    apps: &Vec<AppSnapshot>,
    expected_process_id: Option<i32>,
    expected_window_title: Option<&str>,
    expected_email: Option<&str>,
) -> (out: Result<Option<MacosPrompt>, DetectError>)
    ensures
        detect_view(out) == detected(
            apps.deep_view(),
            expected_process_id,
            expected_window_title.deep_view(),
            expected_email.deep_view(),
        ),
{
    match inspect_process(apps, expected_process_id, expected_window_title) {
        Ok(inspection) => visible_prompt_of(
            &inspection,
            expected_process_id,
            expected_window_title,
            expected_email,
        ),
        Err(error) => Err(DetectError::Scan(error)),
    }
}

/// A title names one window where some window of the process bears it, and every other
/// that does is the same; a blank title names none, nor does one that two windows bear.
pub proof fn law_a_title_that_names_one_window(
    windows: Seq<WindowTitleView>,
    process_id: i32,
    title: Seq<char>,
    i: int,
    j: int,
)
    requires
        0 <= i < windows.len(),
        0 <= j < windows.len(),
        windows[i].process_id == process_id,
        same_ascii(trimmed(windows[i].title), trimmed(title)),
    ensures
        trimmed(title).len() == 0 ==> !names_one_window(windows, process_id, title),
        trimmed(title).len() > 0 && (forall|k: int|
            0 <= k < windows.len() && k != i ==> (#[trigger] windows[k]).process_id != process_id
                || !same_ascii(trimmed(windows[k].title), trimmed(title))) ==> names_one_window(
            windows,
            process_id,
            title,
        ),
        i != j && windows[j].process_id == process_id && same_ascii(
            trimmed(windows[j].title),
            trimmed(title),
        ) && (windows[i].window is None || windows[j].window is None || windows[i].window
            != windows[j].window) ==> !names_one_window(windows, process_id, title),
{
    assert(bears_title(windows[i], process_id, title));
    if trimmed(title).len() > 0 && (forall|k: int|
        0 <= k < windows.len() && k != i ==> (#[trigger] windows[k]).process_id != process_id
            || !same_ascii(trimmed(windows[k].title), trimmed(title))) {
        assert forall|k: int|
            0 <= k < windows.len() && k != i && #[trigger] bears_title(
                windows[k],
                process_id,
                title,
            ) implies same_window(windows[i], windows[k]) by {
            assert(windows[k].process_id != process_id || !same_ascii(
                trimmed(windows[k].title),
                trimmed(title),
            ));
        }
    }
    if i != j && bears_title(windows[j], process_id, title) && names_one_window(
        windows,
        process_id,
        title,
    ) {
        let k = choose|k: int|
            0 <= k < windows.len() && #[trigger] bears_title(windows[k], process_id, title) && (
            forall|m: int|
                0 <= m < windows.len() && m != k && #[trigger] bears_title(
                    windows[m],
                    process_id,
                    title,
                ) ==> same_window(windows[k], windows[m]));
        if k != i {
            assert(same_window(windows[k], windows[i]));
        }
        if k != j {
            assert(same_window(windows[k], windows[j]));
        }
    }
}

} // verus!
