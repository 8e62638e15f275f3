//! Whether a sheet whose prompt was put off is still shown on its window.

#[allow(unused_imports)]
use crate::ax_tree::{attr_text, lookup, node_hidden, NodeView};
use crate::ax_tree::{text_attr, AxTree, MAX_DIRECT_SHEET_COUNT};
use crate::inspection::AppSnapshot;
#[allow(unused_imports)]
use crate::inspection::AppView;
use crate::prompt_scan::{contains_id, visible_direct_sheets, ScanError};
#[allow(unused_imports)]
use crate::prompt_scan::{scan_error_text, shown_sheets, ScanErrorView};
#[allow(unused_imports)]
use crate::text::{same_ascii, trimmed};
use crate::text::{is_blank, trimmed_eq_ignore_ascii_case};
use vstd::prelude::*;

verus! {

/// Why there is no saying whether the sheet is shown.
#[derive(Debug, Clone, PartialEq, Eq)]
pub enum SheetEpisodeError {
    EmptyTitle,
    NoApplication,
    ProcessChanged,
    WindowsUnavailable,
    AmbiguousParent,
    Scan(ScanError),
    AmbiguousSheets,
}

pub enum SheetEpisodeErrorView {
    EmptyTitle,
    NoApplication,
    ProcessChanged,
    WindowsUnavailable,
    AmbiguousParent,
    Scan(ScanErrorView),
    AmbiguousSheets,
}

impl DeepView for SheetEpisodeError {
    type V = SheetEpisodeErrorView;

    open spec fn deep_view(&self) -> SheetEpisodeErrorView {
        match self {
            SheetEpisodeError::EmptyTitle => SheetEpisodeErrorView::EmptyTitle,
            SheetEpisodeError::NoApplication => SheetEpisodeErrorView::NoApplication,
            SheetEpisodeError::ProcessChanged => SheetEpisodeErrorView::ProcessChanged,
            SheetEpisodeError::WindowsUnavailable => SheetEpisodeErrorView::WindowsUnavailable,
            SheetEpisodeError::AmbiguousParent => SheetEpisodeErrorView::AmbiguousParent,
            SheetEpisodeError::Scan(e) => SheetEpisodeErrorView::Scan(e.deep_view()),
            SheetEpisodeError::AmbiguousSheets => SheetEpisodeErrorView::AmbiguousSheets,
        }
    }
}

pub open spec fn episode_error_text(e: SheetEpisodeErrorView) -> Seq<char> {
    match e {
        SheetEpisodeErrorView::EmptyTitle => "suppressed sheet parent window title is empty"@,
        SheetEpisodeErrorView::NoApplication => {
            "suppressed sheet process has no Accessibility application"@
        },
        SheetEpisodeErrorView::ProcessChanged => {
            "suppressed sheet Accessibility application PID changed"@
        },
        SheetEpisodeErrorView::WindowsUnavailable => {
            "unable to enumerate suppressed sheet parent windows"@
        },
        SheetEpisodeErrorView::AmbiguousParent => {
            "suppressed sheet parent window binding is ambiguous"@
        },
        SheetEpisodeErrorView::Scan(e) => scan_error_text(e),
        SheetEpisodeErrorView::AmbiguousSheets => {
            "suppressed sheet relationship observation is ambiguous"@
        },
    }
}

impl SheetEpisodeError {
    /// `episode_error_text`, computed.
    pub fn message(&self) -> (out: &'static str)
        ensures
            out@ == episode_error_text(self.deep_view()),
    {
        match self {
            SheetEpisodeError::EmptyTitle => "suppressed sheet parent window title is empty",
            SheetEpisodeError::NoApplication => {
                "suppressed sheet process has no Accessibility application"
            },
            SheetEpisodeError::ProcessChanged => {
                "suppressed sheet Accessibility application PID changed"
            },
            SheetEpisodeError::WindowsUnavailable => {
                "unable to enumerate suppressed sheet parent windows"
            },
            SheetEpisodeError::AmbiguousParent => {
                "suppressed sheet parent window binding is ambiguous"
            },
            SheetEpisodeError::Scan(error) => error.message(),
            SheetEpisodeError::AmbiguousSheets => {
                "suppressed sheet relationship observation is ambiguous"
            },
        }
    }
}

/// Whether a sheet is shown, by the number of windows with the title and the
/// number of sheets on them; `None` where the numbers do not say.
pub open spec fn episode_presence(parents: int, sheets: int) -> Option<bool> {
    if parents == 0 {
        Some(false)
    } else if parents == 1 && sheets <= MAX_DIRECT_SHEET_COUNT {
        Some(sheets > 0)
    } else {
        None
    }
}

/// `episode_presence`, computed.
pub fn classify_suppressed_sheet_episode_presence(
    exact_parent_count: usize,
    visible_direct_sheet_count: usize,
) -> (out: Option<bool>)
    ensures
        out == episode_presence(exact_parent_count as int, visible_direct_sheet_count as int),
{
    if exact_parent_count == 0 {
        Some(false)
    } else if exact_parent_count == 1 && visible_direct_sheet_count <= MAX_DIRECT_SHEET_COUNT {
        Some(visible_direct_sheet_count > 0)
    } else {
        None
    }
}

/// A shown window of the process with the title.
pub open spec fn is_parent(n: NodeView, process_id: i32, title: Seq<char>) -> bool {
    &&& n.process_id == Some(process_id)
    &&& !node_hidden(n)
    &&& attr_text(n.title) is Some
    &&& same_ascii(trimmed(n.title->0), trimmed(title))
}

/// The windows that the sheet may hang on, each once.
pub open spec fn parents(
    nodes: Seq<NodeView>,
    process_id: i32,
    windows: Seq<u64>,
    title: Seq<char>,
) -> Seq<u64>
    decreases windows.len(),
{
    if windows.len() == 0 {
        Seq::empty()
    } else {
        let found = parents(nodes, process_id, windows.drop_last(), title);
        match lookup(nodes, windows.last()) {
            Some(n) => if is_parent(n, process_id, title) && !found.contains(windows.last()) {
                found.push(windows.last())
            } else {
                found
            },
            None => found,
        }
    }
}

/// `parents`, computed.
pub fn suppressed_sheet_parents(
    tree: &AxTree,
    process_id: i32,
    windows: &Vec<u64>,
    title: &str,
) -> (out: Vec<u64>)
    ensures
        out@ == parents(tree.deep_view(), process_id, windows@, title@),
{
    let mut out: Vec<u64> = Vec::new();
    let mut i: usize = 0;
    assert(windows@.take(0) =~= Seq::<u64>::empty());
    while i < windows.len()
        invariant
            i <= windows@.len(),
            out@ == parents(tree.deep_view(), process_id, windows@.take(i as int), title@),
        decreases windows@.len() - i,
    {
        assert(windows@.take(i + 1).drop_last() =~= windows@.take(i as int));
        if let Some(node) = tree.find(windows[i]) {
            let of_process: bool = match node.process_id {
                Some(pid) => pid == process_id,
                None => false,
            };
            let titled: bool = match text_attr(&node.title) {
                Some(found) => trimmed_eq_ignore_ascii_case(found.as_str(), title),
                None => false,
            };
            if of_process && !node.is_hidden() && titled && !contains_id(&out, windows[i]) {
                out.push(windows[i]);
            }
        }
        i += 1;
    }
    assert(windows@.take(windows@.len() as int) =~= windows@);
    out
}

/// Whether the sheet is shown.
pub open spec fn sheet_shown(app: AppView, title: Seq<char>) -> Result<
    bool,
    SheetEpisodeErrorView,
> {
    if trimmed(title).len() == 0 {
        Err(SheetEpisodeErrorView::EmptyTitle)
    } else if app.application is None {
        Err(SheetEpisodeErrorView::NoApplication)
    } else if app.application != Some(app.process.pid) {
        Err(SheetEpisodeErrorView::ProcessChanged)
    } else {
        match app.windows {
            None => Err(SheetEpisodeErrorView::WindowsUnavailable),
            Some(windows) => {
                let found = parents(app.nodes, app.process.pid, windows, title);
                if found.len() == 0 {
                    Ok(false)
                } else if found.len() > 1 {
                    Err(SheetEpisodeErrorView::AmbiguousParent)
                } else {
                    match shown_sheets(app.nodes, found[0]) {
                        Err(e) => Err(SheetEpisodeErrorView::Scan(e)),
                        Ok(sheets) => match episode_presence(1, sheets.len() as int) {
                            Some(shown) => Ok(shown),
                            None => Err(SheetEpisodeErrorView::AmbiguousSheets),
                        },
                    }
                }
            },
        }
    }
}

pub open spec fn episode_view(out: Result<bool, SheetEpisodeError>) -> Result<
    bool,
    SheetEpisodeErrorView,
> {
    match out {
        Ok(shown) => Ok(shown),
        Err(e) => Err(e.deep_view()),
    }
}

/// `sheet_shown`, computed.
pub fn suppressed_sheet_episode_has_visible_direct_sheet(
    app: &AppSnapshot,
    expected_parent_window_title: &str,
) -> (out: Result<bool, SheetEpisodeError>)
    ensures
        episode_view(out) == sheet_shown(app.deep_view(), expected_parent_window_title@),
{
    if is_blank(expected_parent_window_title) {
        return Err(SheetEpisodeError::EmptyTitle);
    }
    match app.application {
        Some(pid) => {
            if pid != app.process.pid {
                return Err(SheetEpisodeError::ProcessChanged);
            }
        },
        None => {
            return Err(SheetEpisodeError::NoApplication);
        },
    }
    let windows: &Vec<u64> = match &app.windows {
        Some(windows) => windows,
        None => {
            return Err(SheetEpisodeError::WindowsUnavailable);
        },
    };
    let found: Vec<u64> = suppressed_sheet_parents(
        &app.tree,
        app.process.pid,
        windows,
        expected_parent_window_title,
    );
    if found.len() == 0 {
        return Ok(false);
    }
    if found.len() > 1 {
        return Err(SheetEpisodeError::AmbiguousParent);
    }
    let sheets: Vec<u64> = match visible_direct_sheets(&app.tree, found[0]) {
        Ok(sheets) => sheets,
        Err(error) => {
            return Err(SheetEpisodeError::Scan(error));
        },
    };
    match classify_suppressed_sheet_episode_presence(found.len(), sheets.len()) {
        Some(shown) => Ok(shown),
        None => Err(SheetEpisodeError::AmbiguousSheets),
    }
}

} // verus!
