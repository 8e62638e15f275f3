//! The report as JSON, within the byte cap: how much of a report goes into one
//! rendering, and how the share shrinks until the rendering fits.

use crate::diagnose::{
    DiagnosticReport, ProcessInfo, UiElement, WindowInfo, DIAGNOSTIC_OUTPUT_TRUNCATED_TEXT,
    MAX_DIAGNOSTIC_COLLECTION_ELEMENTS, MAX_DIAGNOSTIC_COLLECTION_PROCESSES,
    MAX_DIAGNOSTIC_COLLECTION_WINDOWS, MAX_DIAGNOSTIC_OUTPUT_BYTES,
    MAX_DIAGNOSTIC_PROTOCOL_VALUE_CHARS,
};
#[allow(unused_imports)]
use crate::diagnose::{
    element_count, window_count, window_element_count, ElementView, ProcessView, ReportView,
    WindowView,
};
#[allow(unused_imports)]
use crate::text::{lemma_utf8_len_ascii, lemma_utf8_len_concat, utf8_len};
use crate::text::{to_chars, to_text, width_of};
use vstd::prelude::*;
use vstd::slice::slice_subrange;
#[allow(unused_imports)]
use vstd::string::StringExecFns;

verus! {

/// The JSON text of a report that is left out whole.
pub const DIAGNOSTIC_JSON_OMITTED_TEXT: &'static str =
    "{\n  \"truncated\": \"diagnostic output truncated\"\n}";

/// What one JSON rendering of a report holds.
#[derive(Debug, Clone)]
pub struct DiagnosticJsonOutput {
    pub timestamp: String,
    pub target_processes: Vec<ProcessInfo>,
    pub system_dialogs: Vec<ProcessInfo>,
    pub truncation_reasons: Vec<String>,
    pub truncated: Option<String>,
}

/// How many processes, windows and elements may still go into a rendering.
#[derive(Debug, Clone, Copy)]
pub struct DiagnosticJsonBudget {
    pub processes: usize,
    pub windows: usize,
    pub elements: usize,
}

/// What a `DiagnosticJsonOutput` says.
#[verifier::ext_equal]
pub struct JsonOutputView {
    pub timestamp: Seq<char>,
    pub target_processes: Seq<ProcessView>,
    pub system_dialogs: Seq<ProcessView>,
    pub truncation_reasons: Seq<Seq<char>>,
    pub truncated: Option<Seq<char>>,
}

impl DeepView for DiagnosticJsonOutput {
    type V = JsonOutputView;

    open spec fn deep_view(&self) -> JsonOutputView {
        JsonOutputView {
            timestamp: self.timestamp@,
            target_processes: self.target_processes.deep_view(),
            system_dialogs: self.system_dialogs.deep_view(),
            truncation_reasons: self.truncation_reasons.deep_view(),
            truncated: self.truncated.deep_view(),
        }
    }
}

// ---------------------------------------------------------------------------
// Scalars
// ---------------------------------------------------------------------------

/// Whether a scalar is too long to be written whole.
pub open spec fn scalar_cut(s: Seq<char>) -> bool {
    s.len() > MAX_DIAGNOSTIC_PROTOCOL_VALUE_CHARS
}

/// A scalar, shortened where it is too long.
pub open spec fn bounded_scalar(s: Seq<char>) -> Seq<char> {
    if scalar_cut(s) {
        s.take(MAX_DIAGNOSTIC_PROTOCOL_VALUE_CHARS as int) + "[truncated]"@
    } else {
        s
    }
}

fn bounded_diagnostic_json_scalar(value: &str, truncated: &mut bool) -> (out: String)
    ensures
        out@ == bounded_scalar(value@),
        *final(truncated) == (*old(truncated) || scalar_cut(value@)),
{
    let chars: Vec<char> = to_chars(value);
    if chars.len() <= MAX_DIAGNOSTIC_PROTOCOL_VALUE_CHARS {
        return to_text(&chars);
    }
    *truncated = true;
    let prefix: &[char] = slice_subrange(chars.as_slice(), 0, MAX_DIAGNOSTIC_PROTOCOL_VALUE_CHARS);
    let mut out: String = to_text(prefix);
    out.append("[truncated]");
    out
}

// ---------------------------------------------------------------------------
// Elements, windows, processes
// ---------------------------------------------------------------------------

pub open spec fn element_cut(e: ElementView) -> bool {
    ||| scalar_cut(e.element_type)
    ||| scalar_cut(e.name)
    ||| match e.value {
        Some(value) => scalar_cut(value),
        None => false,
    }
}

pub open spec fn bounded_element(e: ElementView) -> ElementView {
    ElementView {
        element_type: bounded_scalar(e.element_type),
        name: bounded_scalar(e.name),
        value: match e.value {
            Some(value) => Some(bounded_scalar(value)),
            None => None,
        },
        enabled: e.enabled,
    }
}

/// What became of a list of elements under a budget.
#[verifier::ext_equal]
pub struct BoundedElements {
    pub kept: Seq<ElementView>,
    pub elements: int,
    /// The budget ran out before the list did.
    pub exhausted: bool,
    pub truncated: bool,
}

pub open spec fn bound_elements(es: Seq<ElementView>, elements: int) -> BoundedElements
    decreases es.len(),
{
    if es.len() == 0 {
        BoundedElements { kept: Seq::empty(), elements, exhausted: false, truncated: false }
    } else if elements <= 0 {
        BoundedElements { kept: Seq::empty(), elements, exhausted: true, truncated: true }
    } else {
        let rest = bound_elements(es.drop_first(), elements - 1);
        BoundedElements {
            kept: seq![bounded_element(es.first())] + rest.kept,
            elements: rest.elements,
            exhausted: rest.exhausted,
            truncated: element_cut(es.first()) || rest.truncated,
        }
    }
}

/// The budget is never overdrawn, what is kept is a prefix of the list, and a
/// list that was not cut is kept as it is.
pub proof fn lemma_bound_elements(es: Seq<ElementView>, elements: int)
    requires
        0 <= elements,
    ensures
        ({
            let b = bound_elements(es, elements);
            &&& b.exhausted ==> b.truncated
            &&& b.kept.len() + b.elements == elements
            &&& 0 <= b.elements
            &&& b.kept.len() <= es.len()
            &&& !b.truncated ==> b.kept == es
        }),
    decreases es.len(),
{
    if es.len() > 0 && elements > 0 {
        lemma_bound_elements(es.drop_first(), elements - 1);
        let b = bound_elements(es, elements);
        if !b.truncated {
            assert(bounded_element(es.first()) == es.first());
            assert(b.kept =~= es);
        }
    }
}

/// What became of a list of windows under a budget.
#[verifier::ext_equal]
pub struct BoundedWindows {
    pub kept: Seq<WindowView>,
    pub windows: int,
    pub elements: int,
    pub truncated: bool,
}

/// The windows of one process. Once a window has run out of element budget, the
/// windows after it are left out.
pub open spec fn bound_windows(ws: Seq<WindowView>, windows: int, elements: int) -> BoundedWindows
    decreases ws.len(),
{
    if ws.len() == 0 {
        BoundedWindows { kept: Seq::empty(), windows, elements, truncated: false }
    } else if windows <= 0 {
        BoundedWindows { kept: Seq::empty(), windows, elements, truncated: true }
    } else {
        let es = bound_elements(ws.first().elements, elements);
        let w = WindowView { title: bounded_scalar(ws.first().title), elements: es.kept };
        if es.exhausted {
            BoundedWindows {
                kept: seq![w],
                windows: windows - 1,
                elements: es.elements,
                truncated: true,
            }
        } else {
            let rest = bound_windows(ws.drop_first(), windows - 1, es.elements);
            BoundedWindows {
                kept: seq![w] + rest.kept,
                windows: rest.windows,
                elements: rest.elements,
                truncated: scalar_cut(ws.first().title) || es.truncated || rest.truncated,
            }
        }
    }
}

/// What became of a list of processes under a budget.
#[verifier::ext_equal]
pub struct BoundedProcesses {
    pub kept: Seq<ProcessView>,
    pub processes: int,
    pub windows: int,
    pub elements: int,
    pub truncated: bool,
}

pub open spec fn bound_processes(
    ps: Seq<ProcessView>,
    processes: int,
    windows: int,
    elements: int,
) -> BoundedProcesses
    decreases ps.len(),
{
    if ps.len() == 0 {
        BoundedProcesses { kept: Seq::empty(), processes, windows, elements, truncated: false }
    } else if processes <= 0 {
        BoundedProcesses { kept: Seq::empty(), processes, windows, elements, truncated: true }
    } else {
        let ws = bound_windows(ps.first().windows, windows, elements);
        let p = ProcessView {
            name: bounded_scalar(ps.first().name),
            pid: ps.first().pid,
            windows: ws.kept,
        };
        let rest = bound_processes(ps.drop_first(), processes - 1, ws.windows, ws.elements);
        BoundedProcesses {
            kept: seq![p] + rest.kept,
            processes: rest.processes,
            windows: rest.windows,
            elements: rest.elements,
            truncated: scalar_cut(ps.first().name) || ws.truncated || rest.truncated,
        }
    }
}

fn clone_bounded_element(element: &UiElement, truncated: &mut bool) -> (out: UiElement)
    ensures
        out.deep_view() == bounded_element(element.deep_view()),
        *final(truncated) == (*old(truncated) || element_cut(element.deep_view())),
{
    let element_type: String = bounded_diagnostic_json_scalar(
        element.element_type.as_str(),
        truncated,
    );
    let name: String = bounded_diagnostic_json_scalar(element.name.as_str(), truncated);
    let value: Option<String> = match &element.value {
        Some(value) => Some(bounded_diagnostic_json_scalar(value.as_str(), truncated)),
        None => None,
    };
    UiElement { element_type, name, value, enabled: element.enabled }
}

fn clone_bounded_elements(
    elements: &Vec<UiElement>,
    budget: &mut DiagnosticJsonBudget,
    truncated: &mut bool,
) -> (out: (Vec<UiElement>, bool))
    ensures
        ({
            let b = bound_elements(elements.deep_view(), old(budget).elements as int);
            &&& out.0.deep_view() == b.kept
            &&& out.1 == b.exhausted
            &&& *final(truncated) == (*old(truncated) || b.truncated)
            &&& final(budget).elements == b.elements
            &&& final(budget).processes == old(budget).processes
            &&& final(budget).windows == old(budget).windows
        }),
{
    let ghost all = elements.deep_view();
    let ghost start = budget.elements as int;
    let mut kept: Vec<UiElement> = Vec::new();
    let mut i: usize = 0;
    assert(all.skip(0) =~= all);
    assert(kept.deep_view() + bound_elements(all, start).kept =~= bound_elements(all, start).kept);
    while i < elements.len()
        invariant
            i <= elements@.len(),
            all == elements.deep_view(),
            start == old(budget).elements,
            budget.processes == old(budget).processes,
            budget.windows == old(budget).windows,
            ({
                let rest = bound_elements(all.skip(i as int), budget.elements as int);
                let b = bound_elements(all, start);
                &&& b.kept == kept.deep_view() + rest.kept
                &&& b.elements == rest.elements
                &&& b.exhausted == rest.exhausted
                &&& (*old(truncated) || b.truncated) == (*truncated || rest.truncated)
            }),
        decreases elements@.len() - i,
    {
        let ghost left = all.skip(i as int);
        assert(left.first() == elements@[i as int].deep_view());
        if budget.elements == 0 {
            *truncated = true;
            assert(kept.deep_view() + bound_elements(left, 0).kept =~= kept.deep_view());
            return (kept, true);
        }
        budget.elements = budget.elements - 1;
        let ghost before = kept.deep_view();
        let element: UiElement = clone_bounded_element(&elements[i], truncated);
        kept.push(element);
        proof {
            assert(left.drop_first() =~= all.skip(i + 1));
            let rest = bound_elements(left.drop_first(), budget.elements as int);
            assert(kept.deep_view() =~= before.push(element.deep_view()));
            assert(before + (seq![bounded_element(left.first())] + rest.kept) =~= kept.deep_view()
                + rest.kept);
        }
        i += 1;
    }
    assert(kept.deep_view() + bound_elements(all.skip(i as int), budget.elements as int).kept
        =~= kept.deep_view());
    (kept, false)
}

fn clone_bounded_windows(
    windows: &Vec<WindowInfo>,
    budget: &mut DiagnosticJsonBudget,
    truncated: &mut bool,
) -> (out: Vec<WindowInfo>)
    ensures
        ({
            let b = bound_windows(
                windows.deep_view(),
                old(budget).windows as int,
                old(budget).elements as int,
            );
            &&& out.deep_view() == b.kept
            &&& *final(truncated) == (*old(truncated) || b.truncated)
            &&& final(budget).windows == b.windows
            &&& final(budget).elements == b.elements
            &&& final(budget).processes == old(budget).processes
        }),
{
    let ghost all = windows.deep_view();
    let ghost w0 = budget.windows as int;
    let ghost e0 = budget.elements as int;
    let mut kept: Vec<WindowInfo> = Vec::new();
    let mut i: usize = 0;
    assert(all.skip(0) =~= all);
    assert(kept.deep_view() + bound_windows(all, w0, e0).kept =~= bound_windows(all, w0, e0).kept);
    while i < windows.len()
        invariant
            i <= windows@.len(),
            all == windows.deep_view(),
            w0 == old(budget).windows,
            e0 == old(budget).elements,
            budget.processes == old(budget).processes,
            ({
                let rest = bound_windows(
                    all.skip(i as int),
                    budget.windows as int,
                    budget.elements as int,
                );
                let b = bound_windows(all, w0, e0);
                &&& b.kept == kept.deep_view() + rest.kept
                &&& b.windows == rest.windows
                &&& b.elements == rest.elements
                &&& (*old(truncated) || b.truncated) == (*truncated || rest.truncated)
            }),
        decreases windows@.len() - i,
    {
        let ghost left = all.skip(i as int);
        let window: &WindowInfo = &windows[i];
        assert(left.first() == window.deep_view());
        if budget.windows == 0 {
            *truncated = true;
            assert(kept.deep_view() + Seq::<WindowView>::empty() =~= kept.deep_view());
            return kept;
        }
        budget.windows = budget.windows - 1;
        let title: String = bounded_diagnostic_json_scalar(window.title.as_str(), truncated);
        let ghost budget_elements = budget.elements as int;
        let (elements, exhausted): (Vec<UiElement>, bool) = clone_bounded_elements(
            &window.elements,
            budget,
            truncated,
        );
        let ghost before = kept.deep_view();
        let copy: WindowInfo = WindowInfo { title, elements };
        let ghost copied = copy.deep_view();
        kept.push(copy);
        assert(kept.deep_view() =~= before.push(copied));
        if exhausted {
            proof {
                lemma_bound_elements(left.first().elements, budget_elements);
                assert(before + seq![copied] =~= kept.deep_view());
            }
            return kept;
        }
        proof {
            assert(left.drop_first() =~= all.skip(i + 1));
            let rest = bound_windows(
                left.drop_first(),
                budget.windows as int,
                budget.elements as int,
            );
            assert(before + (seq![copied] + rest.kept) =~= kept.deep_view() + rest.kept);
        }
        i += 1;
    }
    assert(kept.deep_view() + Seq::<WindowView>::empty() =~= kept.deep_view());
    kept
}

/// As much of `processes` as the budget allows, and whether anything was cut.
pub fn clone_bounded_processes(
    processes: &Vec<ProcessInfo>,
    budget: &mut DiagnosticJsonBudget,
) -> (out: (Vec<ProcessInfo>, bool))
    ensures
        ({
            let b = bound_processes(
                processes.deep_view(),
                old(budget).processes as int,
                old(budget).windows as int,
                old(budget).elements as int,
            );
            &&& out.0.deep_view() == b.kept
            &&& out.1 == b.truncated
            &&& final(budget).processes == b.processes
            &&& final(budget).windows == b.windows
            &&& final(budget).elements == b.elements
        }),
{
    let ghost all = processes.deep_view();
    let ghost p0 = budget.processes as int;
    let ghost w0 = budget.windows as int;
    let ghost e0 = budget.elements as int;
    let mut kept: Vec<ProcessInfo> = Vec::new();
    let mut truncated: bool = false;
    let mut i: usize = 0;
    assert(all.skip(0) =~= all);
    assert(kept.deep_view() + bound_processes(all, p0, w0, e0).kept =~= bound_processes(
        all,
        p0,
        w0,
        e0,
    ).kept);
    while i < processes.len()
        invariant
            i <= processes@.len(),
            all == processes.deep_view(),
            p0 == old(budget).processes,
            w0 == old(budget).windows,
            e0 == old(budget).elements,
            ({
                let rest = bound_processes(
                    all.skip(i as int),
                    budget.processes as int,
                    budget.windows as int,
                    budget.elements as int,
                );
                let b = bound_processes(all, p0, w0, e0);
                &&& b.kept == kept.deep_view() + rest.kept
                &&& b.processes == rest.processes
                &&& b.windows == rest.windows
                &&& b.elements == rest.elements
                &&& b.truncated == (truncated || rest.truncated)
            }),
        decreases processes@.len() - i,
    {
        let ghost left = all.skip(i as int);
        let process: &ProcessInfo = &processes[i];
        assert(left.first() == process.deep_view());
        if budget.processes == 0 {
            assert(kept.deep_view() + Seq::<ProcessView>::empty() =~= kept.deep_view());
            return (kept, true);
        }
        budget.processes = budget.processes - 1;
        let name: String = bounded_diagnostic_json_scalar(process.name.as_str(), &mut truncated);
        let windows: Vec<WindowInfo> = clone_bounded_windows(
            &process.windows,
            budget,
            &mut truncated,
        );
        let ghost before = kept.deep_view();
        let copy: ProcessInfo = ProcessInfo { name, pid: process.pid, windows };
        let ghost copied = copy.deep_view();
        kept.push(copy);
        proof {
            assert(kept.deep_view() =~= before.push(copied));
            assert(left.drop_first() =~= all.skip(i + 1));
            let rest = bound_processes(
                left.drop_first(),
                budget.processes as int,
                budget.windows as int,
                budget.elements as int,
            );
            assert(before + (seq![copied] + rest.kept) =~= kept.deep_view() + rest.kept);
        }
        i += 1;
    }
    assert(kept.deep_view() + Seq::<ProcessView>::empty() =~= kept.deep_view());
    (kept, truncated)
}

// ---------------------------------------------------------------------------
// One rendering
// ---------------------------------------------------------------------------

/// What a rendering of `r` holds under the given limits; `forced` marks it as
/// truncated whatever was cut.
pub open spec fn json_output(
    r: ReportView,
    forced: bool,
    processes: int,
    windows: int,
    elements: int,
) -> JsonOutputView {
    let targets = bound_processes(r.target_processes, processes, windows, elements);
    let dialogs = bound_processes(
        r.system_dialogs,
        targets.processes,
        targets.windows,
        targets.elements,
    );
    JsonOutputView {
        timestamp: bounded_scalar(r.timestamp),
        target_processes: targets.kept,
        system_dialogs: dialogs.kept,
        truncation_reasons: r.truncation_reasons,
        truncated: if forced || targets.truncated || dialogs.truncated || scalar_cut(r.timestamp) {
            Some(DIAGNOSTIC_OUTPUT_TRUNCATED_TEXT@)
        } else {
            None
        },
    }
}

impl DiagnosticJsonOutput {
    pub fn from_report_with_limits(
        report: &DiagnosticReport,
        forced: bool,
        process_budget: usize,
        window_budget: usize,
        element_budget: usize,
    ) -> (out: Self)
        ensures
            out.deep_view() == json_output(
                report.deep_view(),
                forced,
                process_budget as int,
                window_budget as int,
                element_budget as int,
            ),
    {
        let mut truncated: bool = forced;
        let mut budget: DiagnosticJsonBudget = DiagnosticJsonBudget {
            processes: process_budget,
            windows: window_budget,
            elements: element_budget,
        };
        let (target_processes, target_truncated): (Vec<ProcessInfo>, bool) =
            clone_bounded_processes(&report.target_processes, &mut budget);
        let (system_dialogs, system_truncated): (Vec<ProcessInfo>, bool) = clone_bounded_processes(
            &report.system_dialogs,
            &mut budget,
        );
        let timestamp: String = bounded_diagnostic_json_scalar(
            report.timestamp.as_str(),
            &mut truncated,
        );
        let marked: Option<String> = if truncated || target_truncated || system_truncated {
            Some(DIAGNOSTIC_OUTPUT_TRUNCATED_TEXT.to_owned())
        } else {
            None
        };
        let truncation_reasons: Vec<String> = report.truncation_reasons.clone();
        assert(truncation_reasons.deep_view() =~= report.truncation_reasons.deep_view());
        DiagnosticJsonOutput {
            timestamp,
            target_processes,
            system_dialogs,
            truncation_reasons,
            truncated: marked,
        }
    }
}

proof fn lemma_bound_windows(ws: Seq<WindowView>, windows: int, elements: int)
    requires
        0 <= windows,
        0 <= elements,
    ensures
        ({
            let b = bound_windows(ws, windows, elements);
            &&& 0 <= b.windows
            &&& 0 <= b.elements
            &&& b.kept.len() + b.windows == windows
            &&& window_element_count(b.kept) + b.elements == elements
            &&& !b.truncated ==> b.kept == ws
        }),
    decreases ws.len(),
{
    if ws.len() > 0 && windows > 0 {
        let es = bound_elements(ws.first().elements, elements);
        lemma_bound_elements(ws.first().elements, elements);
        let b = bound_windows(ws, windows, elements);
        if es.exhausted {
            assert(b.kept.drop_first() =~= Seq::<WindowView>::empty());
            assert(window_element_count(b.kept) == es.kept.len() + window_element_count(
                Seq::<WindowView>::empty(),
            ));
        } else {
            lemma_bound_windows(ws.drop_first(), windows - 1, es.elements);
            let rest = bound_windows(ws.drop_first(), windows - 1, es.elements);
            assert(b.kept.drop_first() =~= rest.kept);
            if !b.truncated {
                assert(b.kept =~= ws);
            }
        }
    }
}

proof fn lemma_bound_processes(ps: Seq<ProcessView>, processes: int, windows: int, elements: int)
    requires
        0 <= processes,
        0 <= windows,
        0 <= elements,
    ensures
        ({
            let b = bound_processes(ps, processes, windows, elements);
            &&& 0 <= b.processes
            &&& 0 <= b.windows
            &&& 0 <= b.elements
            &&& b.kept.len() + b.processes == processes
            &&& window_count(b.kept) + b.windows == windows
            &&& element_count(b.kept) + b.elements == elements
            &&& !b.truncated ==> b.kept == ps
        }),
    decreases ps.len(),
{
    if ps.len() > 0 && processes > 0 {
        let ws = bound_windows(ps.first().windows, windows, elements);
        lemma_bound_windows(ps.first().windows, windows, elements);
        lemma_bound_processes(ps.drop_first(), processes - 1, ws.windows, ws.elements);
        let rest = bound_processes(ps.drop_first(), processes - 1, ws.windows, ws.elements);
        let b = bound_processes(ps, processes, windows, elements);
        assert(b.kept.drop_first() =~= rest.kept);
        if !b.truncated {
            assert(b.kept =~= ps);
        }
    }
}

/// A rendering holds no more processes, windows and elements than its limits
/// allow, and one that is not marked as truncated says what the report says.
pub proof fn law_json_output_within_limits(
    r: ReportView,
    forced: bool,
    processes: int,
    windows: int,
    elements: int,
)
    requires
        0 <= processes,
        0 <= windows,
        0 <= elements,
    ensures
        ({
            let out = json_output(r, forced, processes, windows, elements);
            &&& out.target_processes.len() + out.system_dialogs.len() <= processes
            &&& window_count(out.target_processes) + window_count(out.system_dialogs) <= windows
            &&& element_count(out.target_processes) + element_count(out.system_dialogs) <= elements
            &&& out.truncated is None ==> {
                &&& out.timestamp == r.timestamp
                &&& out.target_processes == r.target_processes
                &&& out.system_dialogs == r.system_dialogs
            }
        }),
{
    let targets = bound_processes(r.target_processes, processes, windows, elements);
    lemma_bound_processes(r.target_processes, processes, windows, elements);
    lemma_bound_processes(
        r.system_dialogs,
        targets.processes,
        targets.windows,
        targets.elements,
    );
}

// ---------------------------------------------------------------------------
// Shrinking until it fits
// ---------------------------------------------------------------------------

/// Half of a budget, rounded up, and nothing after one.
pub open spec fn halved(budget: int) -> int {
    if budget <= 1 {
        0
    } else {
        budget - budget / 2
    }
}

/// The limits of one attempt at a rendering.
#[derive(Clone, Copy, Debug, PartialEq, Eq, Structural)]
pub struct JsonLimits {
    pub forced: bool,
    pub processes: usize,
    pub windows: usize,
    pub elements: usize,
}

/// The limits of the first attempt.
pub open spec fn first_limits() -> JsonLimits {
    JsonLimits {
        forced: false,
        processes: MAX_DIAGNOSTIC_COLLECTION_PROCESSES,
        windows: MAX_DIAGNOSTIC_COLLECTION_WINDOWS,
        elements: MAX_DIAGNOSTIC_COLLECTION_ELEMENTS,
    }
}

/// The limits of the attempt after one that was too long: the elements shrink
/// first, then the windows, then the processes.
pub open spec fn next_limits(l: JsonLimits) -> Option<JsonLimits> {
    if l.elements > 0 {
        Some(JsonLimits { forced: true, elements: halved(l.elements as int) as usize, ..l })
    } else if l.windows > 0 {
        Some(JsonLimits { forced: true, windows: halved(l.windows as int) as usize, ..l })
    } else if l.processes > 0 {
        Some(JsonLimits { forced: true, processes: halved(l.processes as int) as usize, ..l })
    } else {
        None
    }
}

fn half_of(budget: usize) -> (r: usize)
    ensures
        r == halved(budget as int),
{
    let divisor: usize = if budget < 2 {
        2
    } else {
        budget
    };
    let step: usize = divisor / 2;
    if budget < step {
        0
    } else {
        budget - step
    }
}

/// `next_limits`, computed.
pub fn shrink_limits(l: JsonLimits) -> (r: Option<JsonLimits>)
    ensures
        r == next_limits(l),
{
    if l.elements > 0 {
        Some(JsonLimits { forced: true, elements: half_of(l.elements), ..l })
    } else if l.windows > 0 {
        Some(JsonLimits { forced: true, windows: half_of(l.windows), ..l })
    } else if l.processes > 0 {
        Some(JsonLimits { forced: true, processes: half_of(l.processes), ..l })
    } else {
        None
    }
}

/// The limits of attempt `k`, counted from zero; the last ones are repeated.
pub open spec fn limits_at(k: int) -> JsonLimits
    decreases k,
{
    if k <= 0 {
        first_limits()
    } else {
        match next_limits(limits_at(k - 1)) {
            Some(l) => l,
            None => limits_at(k - 1),
        }
    }
}

pub open spec fn output_with(r: ReportView, l: JsonLimits) -> JsonOutputView {
    json_output(r, l.forced, l.processes as int, l.windows as int, l.elements as int)
}

/// How many bytes printing `json` and a line feed takes.
pub open spec fn stdout_len(json: Seq<char>) -> int {
    utf8_len(json) + 1
}

/// `stdout_len`, or the largest number there is where that is too large.
pub fn diagnostic_stdout_len(json: &str) -> (n: usize)
    ensures
        n == if stdout_len(json@) <= usize::MAX {
            stdout_len(json@)
        } else {
            usize::MAX as int
        },
{
    let chars: Vec<char> = to_chars(json);
    let mut n: usize = 1;
    let mut i: usize = 0;
    assert(chars@.take(0) =~= Seq::<char>::empty());
    while i < chars.len()
        invariant
            chars@ == json@,
            i <= chars@.len(),
            n == if stdout_len(chars@.take(i as int)) <= usize::MAX {
                stdout_len(chars@.take(i as int))
            } else {
                usize::MAX as int
            },
        decreases chars@.len() - i,
    {
        let w: usize = width_of(chars[i]);
        proof {
            let c = chars@[i as int];
            assert(chars@.take(i + 1) =~= chars@.take(i as int) + seq![c]);
            lemma_utf8_len_concat(chars@.take(i as int), seq![c]);
            assert(seq![c].drop_first() =~= Seq::<char>::empty());
            reveal_with_fuel(utf8_len, 2);
            assert(utf8_len(seq![c]) == w);
        }
        n = if n > usize::MAX - w {
            usize::MAX
        } else {
            n + w
        };
        i += 1;
    }
    assert(chars@.take(chars@.len() as int) =~= chars@);
    n
}

/// Attempt `k` was rendered, and the rendering was too long.
pub open spec fn attempt_too_long<E, F: Fn(&DiagnosticJsonOutput) -> Result<String, E>>(
    r: ReportView,
    to_string_pretty: F,
    k: int,
) -> bool {
    exists|out: DiagnosticJsonOutput, json: String|
        {
            &&& out.deep_view() == output_with(r, limits_at(k))
            &&& #[trigger] call_ensures(to_string_pretty, (&out,), Ok(json))
            &&& stdout_len(json@) > MAX_DIAGNOSTIC_OUTPUT_BYTES
        }
}

/// Attempt `k` was rendered, with `result`.
pub open spec fn attempt_rendered<E, F: Fn(&DiagnosticJsonOutput) -> Result<String, E>>(
    r: ReportView,
    to_string_pretty: F,
    k: int,
    result: Result<String, E>,
) -> bool {
    exists|out: DiagnosticJsonOutput|
        {
            &&& out.deep_view() == output_with(r, limits_at(k))
            &&& #[trigger] call_ensures(to_string_pretty, (&out,), result)
        }
}

/// The attempts before `k` were all rendered too long.
pub open spec fn all_too_long<E, F: Fn(&DiagnosticJsonOutput) -> Result<String, E>>(
    r: ReportView,
    to_string_pretty: F,
    k: int,
) -> bool {
    forall|j: int| 0 <= j < k ==> #[trigger] attempt_too_long(r, to_string_pretty, j)
}

/// Every attempt there is was rendered too long.
pub open spec fn nothing_fits<E, F: Fn(&DiagnosticJsonOutput) -> Result<String, E>>(
    r: ReportView,
    to_string_pretty: F,
) -> bool {
    exists|k: int|
        {
            &&& 0 <= k
            &&& next_limits(#[trigger] limits_at(k)) is None
            &&& all_too_long(r, to_string_pretty, k + 1)
        }
}

/// The smallest output: no processes, and not even the reasons why something is
/// missing.
pub open spec fn bare_output(r: ReportView) -> JsonOutputView {
    JsonOutputView {
        timestamp: bounded_scalar(r.timestamp),
        target_processes: Seq::empty(),
        system_dialogs: Seq::empty(),
        truncation_reasons: Seq::empty(),
        truncated: Some(DIAGNOSTIC_OUTPUT_TRUNCATED_TEXT@),
    }
}

/// When an output may be rendered: it is that of an attempt whose forerunners were
/// all too long, or the smallest one where every attempt was.
pub open spec fn rendering_asked<E, F: Fn(&DiagnosticJsonOutput) -> Result<String, E>>(
    r: ReportView,
    to_string_pretty: F,
    out: JsonOutputView,
) -> bool {
    ||| exists|k: int|
        {
            &&& 0 <= k
            &&& out == output_with(r, #[trigger] limits_at(k))
            &&& all_too_long(r, to_string_pretty, k)
        }
    ||| out == bare_output(r) && nothing_fits(r, to_string_pretty)
}

/// Whether a text and its line feed are within the cap.
pub open spec fn fits_cap(json: Seq<char>) -> bool {
    stdout_len(json) <= MAX_DIAGNOSTIC_OUTPUT_BYTES
}

/// Attempt `k` decides: it is the first that fits, or that could not be rendered.
pub open spec fn attempt_decides<E, F: Fn(&DiagnosticJsonOutput) -> Result<String, E>>(
    r: ReportView,
    to_string_pretty: F,
    k: int,
    result: Result<String, E>,
) -> bool {
    &&& 0 <= k
    &&& attempt_rendered(r, to_string_pretty, k, result)
    &&& all_too_long(r, to_string_pretty, k)
    &&& result is Ok ==> fits_cap(result->Ok_0@)
}

/// What is returned where no attempt fits: the rendering of the smallest output, or
/// its error; or, where that one is too long as well, a text that says so.
pub open spec fn bare_decides<E, F: Fn(&DiagnosticJsonOutput) -> Result<String, E>>(
    r: ReportView,
    to_string_pretty: F,
    result: Result<String, E>,
) -> bool {
    &&& nothing_fits(r, to_string_pretty)
    &&& exists|out: DiagnosticJsonOutput, rendered: Result<String, E>|
        {
            &&& out.deep_view() == bare_output(r)
            &&& #[trigger] call_ensures(to_string_pretty, (&out,), rendered)
            &&& match rendered {
                Ok(json) if !fits_cap(json@) => result is Ok && result->Ok_0@
                    == DIAGNOSTIC_JSON_OMITTED_TEXT@,
                _ => result == rendered,
            }
        }
}

/// The report as JSON that fits the cap together with a line feed. The renderer
/// is tried with ever tighter limits until what it writes is short enough; where
/// not even a report without processes is, the reasons in it are left out too, and
/// at last the whole report.
pub fn diagnostic_report_to_capped_pretty_json<
    E,
    F: Fn(&DiagnosticJsonOutput) -> Result<String, E>,
>(report: &DiagnosticReport, to_string_pretty: F) -> (result: Result<String, E>)
    requires
        forall|out: &DiagnosticJsonOutput|
            rendering_asked(report.deep_view(), to_string_pretty, out.deep_view())
                ==> #[trigger] call_requires(to_string_pretty, (out,)),
    ensures
        result is Ok ==> fits_cap(result->Ok_0@),
        bare_decides(report.deep_view(), to_string_pretty, result) || exists|k: int|
            attempt_decides(report.deep_view(), to_string_pretty, k, result),
{
    let ghost r = report.deep_view();
    let mut limits: JsonLimits = JsonLimits {
        forced: false,
        processes: MAX_DIAGNOSTIC_COLLECTION_PROCESSES,
        windows: MAX_DIAGNOSTIC_COLLECTION_WINDOWS,
        elements: MAX_DIAGNOSTIC_COLLECTION_ELEMENTS,
    };
    let ghost mut k: int = 0;
    loop
        invariant_except_break
            limits == limits_at(k),
        invariant
            forall|out: &DiagnosticJsonOutput|
                rendering_asked(r, to_string_pretty, out.deep_view()) ==> #[trigger] call_requires(
                    to_string_pretty,
                    (out,),
                ),
            r == report.deep_view(),
            0 <= k,
            all_too_long(r, to_string_pretty, k),
        ensures
            nothing_fits(r, to_string_pretty),
        decreases limits.elements + limits.windows + limits.processes,
    {
        let output: DiagnosticJsonOutput = DiagnosticJsonOutput::from_report_with_limits(
            report,
            limits.forced,
            limits.processes,
            limits.windows,
            limits.elements,
        );
        assert(rendering_asked(r, to_string_pretty, output.deep_view()));
        let rendered: Result<String, E> = to_string_pretty(&output);
        assert(attempt_rendered(r, to_string_pretty, k, rendered));
        let json: String = match rendered {
            Ok(json) => json,
            Err(e) => {
                assert(attempt_decides::<E, F>(r, to_string_pretty, k, Err(e)));
                return Err(e);
            },
        };
        if diagnostic_stdout_len(json.as_str()) <= MAX_DIAGNOSTIC_OUTPUT_BYTES {
            assert(attempt_decides::<E, F>(r, to_string_pretty, k, Ok(json)));
            return Ok(json);
        }
        assert(attempt_too_long(r, to_string_pretty, k));
        match shrink_limits(limits) {
            Some(next) => {
                limits = next;
                proof {
                    k = k + 1;
                }
            },
            None => {
                assert(all_too_long(r, to_string_pretty, k + 1));
                assert(nothing_fits(r, to_string_pretty));
                break;
            },
        }
    }
    let mut ignored: bool = false;
    let output: DiagnosticJsonOutput = DiagnosticJsonOutput {
        timestamp: bounded_diagnostic_json_scalar(report.timestamp.as_str(), &mut ignored),
        target_processes: Vec::new(),
        system_dialogs: Vec::new(),
        truncation_reasons: Vec::new(),
        truncated: Some(DIAGNOSTIC_OUTPUT_TRUNCATED_TEXT.to_owned()),
    };
    assert(output.deep_view() =~= bare_output(r));
    let rendered: Result<String, E> = to_string_pretty(&output);
    let json: String = match rendered {
        Ok(json) => json,
        Err(e) => {
            return Err(e);
        },
    };
    if diagnostic_stdout_len(json.as_str()) <= MAX_DIAGNOSTIC_OUTPUT_BYTES {
        return Ok(json);
    }
    proof {
        reveal_strlit("{\n  \"truncated\": \"diagnostic output truncated\"\n}");
        lemma_utf8_len_ascii(DIAGNOSTIC_JSON_OMITTED_TEXT@);
    }
    Ok(DIAGNOSTIC_JSON_OMITTED_TEXT.to_owned())
}

} // verus!
