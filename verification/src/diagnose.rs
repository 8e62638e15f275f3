//! The UI diagnostic report: what it holds, how it is written out, and how its
//! size is bounded.

use crate::collector::{run_macos, CollectorOutput};
#[allow(unused_imports)]
use crate::collector::{collected, script_may_run};
use crate::control::Platform;
use crate::text::{decimal_of, fitting_of, to_chars, to_text};
#[allow(unused_imports)]
use crate::text::{
    decimal, fitting, lemma_fitting, lemma_utf8_len_ascii, lemma_utf8_len_concat,
    lemma_utf8_len_is_encoded_len, utf8_len,
};
use vstd::prelude::*;
use vstd::slice::slice_subrange;
#[allow(unused_imports)]
use vstd::string::StringExecFns;

verus! {

pub const MAX_DIAGNOSTIC_COLLECTION_PROCESSES: usize = 8;

pub const MAX_DIAGNOSTIC_COLLECTION_WINDOWS: usize = 32;

pub const MAX_DIAGNOSTIC_COLLECTION_ELEMENTS: usize = 256;

pub const MAX_DIAGNOSTIC_PROTOCOL_VALUE_CHARS: usize = 160;

pub const MAX_DIAGNOSTIC_OUTPUT_BYTES: usize = 65536;

pub const DIAGNOSTIC_OUTPUT_TRUNCATED_TEXT: &'static str = "diagnostic output truncated";

pub const DIAGNOSTIC_OUTPUT_TRUNCATED_MARKER: &'static str =
    "\n\n[diagnostic output truncated]\n";

/// The marker's length in bytes.
pub const DIAGNOSTIC_OUTPUT_TRUNCATED_MARKER_BYTES: usize = 32;

// ---------------------------------------------------------------------------
// The report and its model
// ---------------------------------------------------------------------------

#[derive(Debug, Clone)]
pub struct UiElement {
    pub element_type: String,
    pub name: String,
    pub value: Option<String>,
    pub enabled: Option<bool>,
}

#[derive(Debug, Clone)]
pub struct WindowInfo {
    pub title: String,
    pub elements: Vec<UiElement>,
}

#[derive(Debug, Clone)]
pub struct ProcessInfo {
    pub name: String,
    pub pid: Option<i32>,
    pub windows: Vec<WindowInfo>,
}

#[derive(Debug, Clone)]
pub struct DiagnosticReport {
    pub timestamp: String,
    pub target_processes: Vec<ProcessInfo>,
    pub system_dialogs: Vec<ProcessInfo>,
    pub truncation_reasons: Vec<String>,
}

/// What a `UiElement` says.
#[verifier::ext_equal]
pub struct ElementView {
    pub element_type: Seq<char>,
    pub name: Seq<char>,
    pub value: Option<Seq<char>>,
    pub enabled: Option<bool>,
}

/// What a `WindowInfo` says.
#[verifier::ext_equal]
pub struct WindowView {
    pub title: Seq<char>,
    pub elements: Seq<ElementView>,
}

/// What a `ProcessInfo` says.
#[verifier::ext_equal]
pub struct ProcessView {
    pub name: Seq<char>,
    pub pid: Option<i32>,
    pub windows: Seq<WindowView>,
}

/// What a `DiagnosticReport` says.
#[verifier::ext_equal]
pub struct ReportView {
    pub timestamp: Seq<char>,
    pub target_processes: Seq<ProcessView>,
    pub system_dialogs: Seq<ProcessView>,
    pub truncation_reasons: Seq<Seq<char>>,
}

impl DeepView for UiElement {
    type V = ElementView;

    open spec fn deep_view(&self) -> ElementView {
        ElementView {
            element_type: self.element_type@,
            name: self.name@,
            value: self.value.deep_view(),
            enabled: self.enabled,
        }
    }
}

impl DeepView for WindowInfo {
    type V = WindowView;

    open spec fn deep_view(&self) -> WindowView {
        WindowView { title: self.title@, elements: self.elements.deep_view() }
    }
}

impl DeepView for ProcessInfo {
    type V = ProcessView;

    open spec fn deep_view(&self) -> ProcessView {
        ProcessView { name: self.name@, pid: self.pid, windows: self.windows.deep_view() }
    }
}

impl DeepView for DiagnosticReport {
    type V = ReportView;

    open spec fn deep_view(&self) -> ReportView {
        ReportView {
            timestamp: self.timestamp@,
            target_processes: self.target_processes.deep_view(),
            system_dialogs: self.system_dialogs.deep_view(),
            truncation_reasons: self.truncation_reasons.deep_view(),
        }
    }
}

/// How many windows stand in a list of processes.
pub open spec fn window_count(ps: Seq<ProcessView>) -> int
    decreases ps.len(),
{
    if ps.len() == 0 {
        0
    } else {
        ps.first().windows.len() + window_count(ps.drop_first())
    }
}

/// How many elements stand in a list of windows.
pub open spec fn window_element_count(ws: Seq<WindowView>) -> int
    decreases ws.len(),
{
    if ws.len() == 0 {
        0
    } else {
        ws.first().elements.len() + window_element_count(ws.drop_first())
    }
}

/// How many elements stand in a list of processes.
pub open spec fn element_count(ps: Seq<ProcessView>) -> int
    decreases ps.len(),
{
    if ps.len() == 0 {
        0
    } else {
        window_element_count(ps.first().windows) + element_count(ps.drop_first())
    }
}

pub proof fn lemma_window_count_push(ps: Seq<ProcessView>, p: ProcessView)
    ensures
        window_count(ps.push(p)) == window_count(ps) + p.windows.len(),
    decreases ps.len(),
{
    if ps.len() == 0 {
        assert(ps.push(p).drop_first() =~= ps);
    } else {
        lemma_window_count_push(ps.drop_first(), p);
        assert(ps.push(p).drop_first() =~= ps.drop_first().push(p));
    }
}

pub proof fn lemma_window_element_count_push(ws: Seq<WindowView>, w: WindowView)
    ensures
        window_element_count(ws.push(w)) == window_element_count(ws) + w.elements.len(),
    decreases ws.len(),
{
    if ws.len() == 0 {
        assert(ws.push(w).drop_first() =~= ws);
    } else {
        lemma_window_element_count_push(ws.drop_first(), w);
        assert(ws.push(w).drop_first() =~= ws.drop_first().push(w));
    }
}

pub proof fn lemma_element_count_push(ps: Seq<ProcessView>, p: ProcessView)
    ensures
        element_count(ps.push(p)) == element_count(ps) + window_element_count(p.windows),
    decreases ps.len(),
{
    if ps.len() == 0 {
        assert(ps.push(p).drop_first() =~= ps);
    } else {
        lemma_element_count_push(ps.drop_first(), p);
        assert(ps.push(p).drop_first() =~= ps.drop_first().push(p));
    }
}

// ---------------------------------------------------------------------------
// Plain text
// ---------------------------------------------------------------------------

/// The truth value as it is written in a report.
pub open spec fn truth_text(b: bool) -> Seq<char> {
    if b {
        "true"@
    } else {
        "false"@
    }
}

/// One element of a target window, on a line of its own.
pub open spec fn element_line(e: ElementView) -> Seq<char> {
    let head = "      ▸ "@ + e.element_type + " | name=\""@ + e.name + "\""@;
    match e.enabled {
        Some(b) => head + " | enabled="@ + truth_text(b) + "\n"@,
        None => head + "\n"@,
    }
}

pub open spec fn element_lines(es: Seq<ElementView>) -> Seq<char>
    decreases es.len(),
{
    if es.len() == 0 {
        Seq::empty()
    } else {
        element_lines(es.drop_last()) + element_line(es.last())
    }
}

pub open spec fn window_line(w: WindowView) -> Seq<char> {
    "   🪟 WINDOW: \""@ + w.title + "\"\n"@
}

/// A target window: its title, then its elements.
pub open spec fn window_block(w: WindowView) -> Seq<char> {
    if w.elements.len() == 0 {
        window_line(w) + "      (no accessible UI elements)\n"@
    } else {
        window_line(w) + element_lines(w.elements)
    }
}

pub open spec fn window_blocks(ws: Seq<WindowView>) -> Seq<char>
    decreases ws.len(),
{
    if ws.len() == 0 {
        Seq::empty()
    } else {
        window_blocks(ws.drop_last()) + window_block(ws.last())
    }
}

pub open spec fn process_line(p: ProcessView) -> Seq<char> {
    let pid = match p.pid {
        Some(pid) => pid as int,
        None => -1,
    };
    "📌 PROCESS: "@ + p.name + " (pid="@ + decimal(pid) + ")\n"@
}

/// A target process: its name and pid, its windows, and a blank line.
pub open spec fn process_block(p: ProcessView) -> Seq<char> {
    if p.windows.len() == 0 {
        process_line(p) + "   (no windows)\n"@ + "\n"@
    } else {
        process_line(p) + window_blocks(p.windows) + "\n"@
    }
}

pub open spec fn process_blocks(ps: Seq<ProcessView>) -> Seq<char>
    decreases ps.len(),
{
    if ps.len() == 0 {
        Seq::empty()
    } else {
        process_blocks(ps.drop_last()) + process_block(ps.last())
    }
}

/// One element of a system dialog, on a line of its own.
pub open spec fn dialog_element_line(e: ElementView) -> Seq<char> {
    "      ▸ "@ + e.element_type + " | name=\""@ + e.name + "\"\n"@
}

pub open spec fn dialog_element_lines(es: Seq<ElementView>) -> Seq<char>
    decreases es.len(),
{
    if es.len() == 0 {
        Seq::empty()
    } else {
        dialog_element_lines(es.drop_last()) + dialog_element_line(es.last())
    }
}

pub open spec fn dialog_windows(ws: Seq<WindowView>) -> Seq<char>
    decreases ws.len(),
{
    if ws.len() == 0 {
        Seq::empty()
    } else {
        dialog_windows(ws.drop_last()) + window_line(ws.last()) + dialog_element_lines(
            ws.last().elements,
        )
    }
}

/// A system process that shows dialogs: its name, its windows, and a blank line.
pub open spec fn dialog_block(p: ProcessView) -> Seq<char> {
    "🔒 SYSTEM PROCESS: "@ + p.name + "\n"@ + dialog_windows(p.windows) + "\n"@
}

pub open spec fn dialog_blocks(ps: Seq<ProcessView>) -> Seq<char>
    decreases ps.len(),
{
    if ps.len() == 0 {
        Seq::empty()
    } else {
        dialog_blocks(ps.drop_last()) + dialog_block(ps.last())
    }
}

pub open spec fn reason_lines(rs: Seq<Seq<char>>) -> Seq<char>
    decreases rs.len(),
{
    if rs.len() == 0 {
        Seq::empty()
    } else {
        reason_lines(rs.drop_last()) + "   - "@ + rs.last() + "\n"@
    }
}

pub open spec fn heading(timestamp: Seq<char>) -> Seq<char> {
    "========================================\n"@ + "  macOS UI Diagnostic Report\n"@
        + "  Generated: "@ + timestamp + "\n"@ + "========================================\n\n"@
}

pub open spec fn reasons_section(rs: Seq<Seq<char>>) -> Seq<char> {
    if rs.len() == 0 {
        Seq::empty()
    } else {
        "⚠️  Diagnostic collection was truncated.\n"@ + reason_lines(rs) + "\n"@
    }
}

pub open spec fn targets_section(ps: Seq<ProcessView>) -> Seq<char> {
    if ps.len() == 0 {
        "⚠️  No target processes found.\n"@
            + "   Make sure Windows App is running.\n\n"@
    } else {
        process_blocks(ps)
    }
}

pub open spec fn dialogs_section(ps: Seq<ProcessView>) -> Seq<char> {
    if ps.len() == 0 {
        Seq::empty()
    } else {
        "----------------------------------------\n"@
            + "  System Dialogs (Security / Login)\n"@
            + "----------------------------------------\n"@ + dialog_blocks(ps)
    }
}

pub open spec fn closing() -> Seq<char> {
    "----------------------------------------\n"@
        + "  Raw AppleScript output is omitted to avoid copying field values.\n"@
}

/// A whole report in plain text.
pub open spec fn plaintext(r: ReportView) -> Seq<char> {
    heading(r.timestamp) + reasons_section(r.truncation_reasons) + targets_section(
        r.target_processes,
    ) + dialogs_section(r.system_dialogs) + closing()
}

fn push_element_line(out: &mut String, e: &UiElement)
    ensures
        final(out)@ == old(out)@ + element_line(e.deep_view()),
{
    out.append("      ▸ ");
    out.append(e.element_type.as_str());
    out.append(" | name=\"");
    out.append(e.name.as_str());
    out.append("\"");
    if let Some(b) = e.enabled {
        out.append(" | enabled=");
        if b {
            out.append("true");
        } else {
            out.append("false");
        }
    }
    out.append("\n");
    assert(out@ =~= old(out)@ + element_line(e.deep_view()));
}

fn push_window_block(out: &mut String, w: &WindowInfo)
    ensures
        final(out)@ == old(out)@ + window_block(w.deep_view()),
{
    out.append("   🪟 WINDOW: \"");
    out.append(w.title.as_str());
    out.append("\"\n");
    assert(out@ =~= old(out)@ + window_line(w.deep_view()));
    if w.elements.len() == 0 {
        out.append("      (no accessible UI elements)\n");
        assert(out@ =~= old(out)@ + window_block(w.deep_view()));
        return;
    }
    let ghost es = w.elements.deep_view();
    let ghost base = out@;
    let mut i: usize = 0;
    assert(out@ =~= base + element_lines(es.take(0)));
    while i < w.elements.len()
        invariant
            i <= w.elements@.len(),
            es == w.elements.deep_view(),
            out@ == base + element_lines(es.take(i as int)),
        decreases w.elements@.len() - i,
    {
        push_element_line(out, &w.elements[i]);
        assert(es.take(i + 1).drop_last() =~= es.take(i as int));
        assert(out@ =~= base + element_lines(es.take(i + 1)));
        i += 1;
    }
    assert(es.take(es.len() as int) =~= es);
    assert(out@ =~= old(out)@ + window_block(w.deep_view()));
}

fn push_process_block(out: &mut String, p: &ProcessInfo)
    ensures
        final(out)@ == old(out)@ + process_block(p.deep_view()),
{
    let pid: i64 = match p.pid {
        Some(pid) => pid as i64,
        None => -1,
    };
    let number: String = decimal_of(pid);
    out.append("📌 PROCESS: ");
    out.append(p.name.as_str());
    out.append(" (pid=");
    out.append(number.as_str());
    out.append(")\n");
    assert(out@ =~= old(out)@ + process_line(p.deep_view()));
    if p.windows.len() == 0 {
        out.append("   (no windows)\n");
        out.append("\n");
        assert(out@ =~= old(out)@ + process_block(p.deep_view()));
        return;
    }
    let ghost ws = p.windows.deep_view();
    let ghost base = out@;
    let mut i: usize = 0;
    assert(out@ =~= base + window_blocks(ws.take(0)));
    while i < p.windows.len()
        invariant
            i <= p.windows@.len(),
            ws == p.windows.deep_view(),
            out@ == base + window_blocks(ws.take(i as int)),
        decreases p.windows@.len() - i,
    {
        push_window_block(out, &p.windows[i]);
        assert(ws.take(i + 1).drop_last() =~= ws.take(i as int));
        assert(out@ =~= base + window_blocks(ws.take(i + 1)));
        i += 1;
    }
    assert(ws.take(ws.len() as int) =~= ws);
    out.append("\n");
    assert(out@ =~= old(out)@ + process_block(p.deep_view()));
}

fn push_dialog_window(out: &mut String, w: &WindowInfo)
    ensures
        final(out)@ == old(out)@ + window_line(w.deep_view()) + dialog_element_lines(
            w.deep_view().elements,
        ),
{
    out.append("   🪟 WINDOW: \"");
    out.append(w.title.as_str());
    out.append("\"\n");
    assert(out@ =~= old(out)@ + window_line(w.deep_view()));
    let ghost es = w.elements.deep_view();
    let ghost base = out@;
    let mut i: usize = 0;
    assert(out@ =~= base + dialog_element_lines(es.take(0)));
    while i < w.elements.len()
        invariant
            i <= w.elements@.len(),
            es == w.elements.deep_view(),
            out@ == base + dialog_element_lines(es.take(i as int)),
        decreases w.elements@.len() - i,
    {
        let e: &UiElement = &w.elements[i];
        out.append("      ▸ ");
        out.append(e.element_type.as_str());
        out.append(" | name=\"");
        out.append(e.name.as_str());
        out.append("\"\n");
        assert(es.take(i + 1).drop_last() =~= es.take(i as int));
        assert(es.take(i + 1).last() == e.deep_view());
        assert(out@ =~= base + dialog_element_lines(es.take(i + 1)));
        i += 1;
    }
    assert(es.take(es.len() as int) =~= es);
}

fn push_dialog_block(out: &mut String, p: &ProcessInfo)
    ensures
        final(out)@ == old(out)@ + dialog_block(p.deep_view()),
{
    out.append("🔒 SYSTEM PROCESS: ");
    out.append(p.name.as_str());
    out.append("\n");
    let ghost ws = p.windows.deep_view();
    let ghost base = out@;
    let mut i: usize = 0;
    assert(out@ =~= base + dialog_windows(ws.take(0)));
    while i < p.windows.len()
        invariant
            i <= p.windows@.len(),
            ws == p.windows.deep_view(),
            out@ == base + dialog_windows(ws.take(i as int)),
        decreases p.windows@.len() - i,
    {
        push_dialog_window(out, &p.windows[i]);
        assert(ws.take(i + 1).drop_last() =~= ws.take(i as int));
        assert(out@ =~= base + dialog_windows(ws.take(i + 1)));
        i += 1;
    }
    assert(ws.take(ws.len() as int) =~= ws);
    out.append("\n");
    assert(out@ =~= old(out)@ + dialog_block(p.deep_view()));
}

fn push_reasons(out: &mut String, reasons: &Vec<String>)
    ensures
        final(out)@ == old(out)@ + reasons_section(reasons.deep_view()),
{
    if reasons.len() == 0 {
        assert(out@ =~= old(out)@ + reasons_section(reasons.deep_view()));
        return;
    }
    out.append("⚠️  Diagnostic collection was truncated.\n");
    let ghost rs = reasons.deep_view();
    let ghost base = out@;
    let mut i: usize = 0;
    assert(out@ =~= base + reason_lines(rs.take(0)));
    while i < reasons.len()
        invariant
            i <= reasons@.len(),
            rs == reasons.deep_view(),
            out@ == base + reason_lines(rs.take(i as int)),
        decreases reasons@.len() - i,
    {
        out.append("   - ");
        out.append(reasons[i].as_str());
        out.append("\n");
        assert(rs.take(i + 1).drop_last() =~= rs.take(i as int));
        assert(out@ =~= base + reason_lines(rs.take(i + 1)));
        i += 1;
    }
    assert(rs.take(rs.len() as int) =~= rs);
    out.append("\n");
    assert(out@ =~= old(out)@ + reasons_section(reasons.deep_view()));
}

fn push_targets(out: &mut String, processes: &Vec<ProcessInfo>)
    ensures
        final(out)@ == old(out)@ + targets_section(processes.deep_view()),
{
    if processes.len() == 0 {
        out.append("⚠️  No target processes found.\n");
        out.append("   Make sure Windows App is running.\n\n");
        assert(out@ =~= old(out)@ + targets_section(processes.deep_view()));
        return;
    }
    let ghost ps = processes.deep_view();
    let ghost base = out@;
    let mut i: usize = 0;
    assert(out@ =~= base + process_blocks(ps.take(0)));
    while i < processes.len()
        invariant
            i <= processes@.len(),
            ps == processes.deep_view(),
            out@ == base + process_blocks(ps.take(i as int)),
        decreases processes@.len() - i,
    {
        push_process_block(out, &processes[i]);
        assert(ps.take(i + 1).drop_last() =~= ps.take(i as int));
        assert(out@ =~= base + process_blocks(ps.take(i + 1)));
        i += 1;
    }
    assert(ps.take(ps.len() as int) =~= ps);
}

fn push_dialogs(out: &mut String, processes: &Vec<ProcessInfo>)
    ensures
        final(out)@ == old(out)@ + dialogs_section(processes.deep_view()),
{
    if processes.len() == 0 {
        assert(out@ =~= old(out)@ + dialogs_section(processes.deep_view()));
        return;
    }
    out.append("----------------------------------------\n");
    out.append("  System Dialogs (Security / Login)\n");
    out.append("----------------------------------------\n");
    let ghost ps = processes.deep_view();
    let ghost base = out@;
    let mut i: usize = 0;
    assert(out@ =~= base + dialog_blocks(ps.take(0)));
    while i < processes.len()
        invariant
            i <= processes@.len(),
            ps == processes.deep_view(),
            out@ == base + dialog_blocks(ps.take(i as int)),
        decreases processes@.len() - i,
    {
        push_dialog_block(out, &processes[i]);
        assert(ps.take(i + 1).drop_last() =~= ps.take(i as int));
        assert(out@ =~= base + dialog_blocks(ps.take(i + 1)));
        i += 1;
    }
    assert(ps.take(ps.len() as int) =~= ps);
    assert(out@ =~= old(out)@ + dialogs_section(processes.deep_view()));
}

impl DiagnosticReport {
    /// The report in plain text. Field values are never part of it.
    pub fn to_plaintext(&self) -> (out: String)
        ensures
            out@ == plaintext(self.deep_view()),
    {
        let mut out: String = String::new();
        out.append("========================================\n");
        out.append("  macOS UI Diagnostic Report\n");
        out.append("  Generated: ");
        out.append(self.timestamp.as_str());
        out.append("\n");
        out.append("========================================\n\n");
        assert(out@ =~= heading(self.timestamp@));
        push_reasons(&mut out, &self.truncation_reasons);
        push_targets(&mut out, &self.target_processes);
        push_dialogs(&mut out, &self.system_dialogs);
        let ghost before = out@;
        out.append("----------------------------------------\n");
        out.append("  Raw AppleScript output is omitted to avoid copying field values.\n");
        assert(out@ =~= before + closing());
        out
    }
}

/// The plain text of a report does not depend on the values of its elements.
pub proof fn law_plaintext_ignores_values(a: ReportView, b: ReportView)
    requires
        without_values(a) == without_values(b),
    ensures
        plaintext(a) == plaintext(b),
{
    lemma_plaintext_without_values(a);
    lemma_plaintext_without_values(b);
}

/// The element with its value left out.
pub open spec fn element_without_value(e: ElementView) -> ElementView {
    ElementView { value: None, ..e }
}

pub open spec fn window_without_values(w: WindowView) -> WindowView {
    WindowView {
        elements: w.elements.map_values(|e: ElementView| element_without_value(e)),
        ..w
    }
}

pub open spec fn process_without_values(p: ProcessView) -> ProcessView {
    ProcessView { windows: p.windows.map_values(|w: WindowView| window_without_values(w)), ..p }
}

/// The report with every element's value left out.
pub open spec fn without_values(r: ReportView) -> ReportView {
    ReportView {
        target_processes: r.target_processes.map_values(
            |p: ProcessView| process_without_values(p),
        ),
        system_dialogs: r.system_dialogs.map_values(|p: ProcessView| process_without_values(p)),
        ..r
    }
}

proof fn lemma_elements_without_values(es: Seq<ElementView>)
    ensures
        element_lines(es.map_values(|e: ElementView| element_without_value(e))) == element_lines(
            es,
        ),
        dialog_element_lines(es.map_values(|e: ElementView| element_without_value(e)))
            == dialog_element_lines(es),
    decreases es.len(),
{
    if es.len() > 0 {
        let f = |e: ElementView| element_without_value(e);
        lemma_elements_without_values(es.drop_last());
        assert(es.map_values(f).drop_last() =~= es.drop_last().map_values(f));
    }
}

proof fn lemma_windows_without_values(ws: Seq<WindowView>)
    ensures
        window_blocks(ws.map_values(|w: WindowView| window_without_values(w))) == window_blocks(ws),
        dialog_windows(ws.map_values(|w: WindowView| window_without_values(w))) == dialog_windows(
            ws,
        ),
    decreases ws.len(),
{
    if ws.len() > 0 {
        let f = |w: WindowView| window_without_values(w);
        lemma_windows_without_values(ws.drop_last());
        lemma_elements_without_values(ws.last().elements);
        assert(ws.map_values(f).drop_last() =~= ws.drop_last().map_values(f));
    }
}

proof fn lemma_processes_without_values(ps: Seq<ProcessView>)
    ensures
        process_blocks(ps.map_values(|p: ProcessView| process_without_values(p)))
            == process_blocks(ps),
        dialog_blocks(ps.map_values(|p: ProcessView| process_without_values(p))) == dialog_blocks(
            ps,
        ),
    decreases ps.len(),
{
    if ps.len() > 0 {
        let f = |p: ProcessView| process_without_values(p);
        lemma_processes_without_values(ps.drop_last());
        lemma_windows_without_values(ps.last().windows);
        assert(ps.map_values(f).drop_last() =~= ps.drop_last().map_values(f));
    }
}

proof fn lemma_plaintext_without_values(r: ReportView)
    ensures
        plaintext(without_values(r)) == plaintext(r),
{
    lemma_processes_without_values(r.target_processes);
    lemma_processes_without_values(r.system_dialogs);
}

// ---------------------------------------------------------------------------
// The cap on plain text
// ---------------------------------------------------------------------------

/// `output` within the cap: as it is where it fits, else its longest prefix
/// that leaves room for the marker, then the marker.
pub open spec fn capped_output(output: Seq<char>) -> Seq<char> {
    if utf8_len(output) <= MAX_DIAGNOSTIC_OUTPUT_BYTES {
        output
    } else {
        output.take(
            fitting(
                output,
                MAX_DIAGNOSTIC_OUTPUT_BYTES - DIAGNOSTIC_OUTPUT_TRUNCATED_MARKER_BYTES,
            ),
        ) + DIAGNOSTIC_OUTPUT_TRUNCATED_MARKER@
    }
}

pub fn cap_diagnostic_output(output: String) -> (capped: String)
    ensures
        capped@ == capped_output(output@),
{
    let chars: Vec<char> = to_chars(output.as_str());
    proof {
        lemma_fitting(output@, MAX_DIAGNOSTIC_OUTPUT_BYTES as int);
        lemma_fitting(
            output@,
            MAX_DIAGNOSTIC_OUTPUT_BYTES - DIAGNOSTIC_OUTPUT_TRUNCATED_MARKER_BYTES,
        );
    }
    if fitting_of(&chars, MAX_DIAGNOSTIC_OUTPUT_BYTES) == chars.len() {
        return output;
    }
    let keep: usize = fitting_of(
        &chars,
        MAX_DIAGNOSTIC_OUTPUT_BYTES - DIAGNOSTIC_OUTPUT_TRUNCATED_MARKER_BYTES,
    );
    let prefix: &[char] = slice_subrange(chars.as_slice(), 0, keep);
    let mut capped: String = to_text(prefix);
    capped.append(DIAGNOSTIC_OUTPUT_TRUNCATED_MARKER);
    capped
}

/// The marker takes the number of bytes that is reserved for it.
pub proof fn lemma_marker_bytes()
    ensures
        utf8_len(DIAGNOSTIC_OUTPUT_TRUNCATED_MARKER@) == DIAGNOSTIC_OUTPUT_TRUNCATED_MARKER_BYTES,
{
    reveal_strlit("\n\n[diagnostic output truncated]\n");
    lemma_utf8_len_ascii(DIAGNOSTIC_OUTPUT_TRUNCATED_MARKER@);
}

/// Capped output never takes more bytes than the cap; output that fits is
/// unchanged, and output that does not fit ends with the marker.
pub proof fn law_capped_output_fits(output: Seq<char>)
    ensures
        utf8_len(capped_output(output)) <= MAX_DIAGNOSTIC_OUTPUT_BYTES,
        vstd::utf8::encode_utf8(capped_output(output)).len() <= MAX_DIAGNOSTIC_OUTPUT_BYTES,
        utf8_len(output) <= MAX_DIAGNOSTIC_OUTPUT_BYTES ==> capped_output(output) == output,
        utf8_len(output) > MAX_DIAGNOSTIC_OUTPUT_BYTES
            ==> DIAGNOSTIC_OUTPUT_TRUNCATED_MARKER@.is_suffix_of(capped_output(output)),
        capped_output(capped_output(output)) == capped_output(output),
{
    let room = MAX_DIAGNOSTIC_OUTPUT_BYTES - DIAGNOSTIC_OUTPUT_TRUNCATED_MARKER_BYTES;
    lemma_marker_bytes();
    lemma_fitting(output, room);
    lemma_utf8_len_concat(
        output.take(fitting(output, room)),
        DIAGNOSTIC_OUTPUT_TRUNCATED_MARKER@,
    );
    lemma_utf8_len_is_encoded_len(capped_output(output));
    if utf8_len(output) > MAX_DIAGNOSTIC_OUTPUT_BYTES {
        let capped = capped_output(output);
        let marker = DIAGNOSTIC_OUTPUT_TRUNCATED_MARKER@;
        assert(capped.subrange(capped.len() - marker.len(), capped.len() as int) =~= marker);
    }
}

// ---------------------------------------------------------------------------
// Running a diagnosis
// ---------------------------------------------------------------------------

/// The number that two digits at `i` write, or -1 where they are not both digits.
pub open spec fn two_digits(s: Seq<char>, i: int) -> int {
    if '0' <= s[i] <= '9' && '0' <= s[i + 1] <= '9' {
        10 * (s[i] as int - '0' as int) + (s[i + 1] as int - '0' as int)
    } else {
        -1
    }
}

pub open spec fn all_digits(s: Seq<char>) -> bool {
    forall|i: int| 0 <= i < s.len() ==> '0' <= #[trigger] s[i] <= '9'
}

/// Four digits, or a plus sign and more than four.
pub open spec fn is_year(s: Seq<char>) -> bool {
    ||| s.len() == 4 && all_digits(s)
    ||| s.len() > 5 && s[0] == '+' && all_digits(s.skip(1))
}

/// A year, a month and a day, with hyphens between.
pub open spec fn is_date(s: Seq<char>) -> bool {
    let n = s.len() as int;
    &&& n >= 10
    &&& is_year(s.take(n - 6))
    &&& s[n - 6] == '-'
    &&& 1 <= two_digits(s, n - 5) <= 12
    &&& s[n - 3] == '-'
    &&& 1 <= two_digits(s, n - 2) <= 31
}

/// Hours, minutes and seconds, with colons between.
pub open spec fn is_time_of_day(s: Seq<char>) -> bool {
    &&& s.len() == 8
    &&& 0 <= two_digits(s, 0) < 24
    &&& s[2] == ':'
    &&& 0 <= two_digits(s, 3) < 60
    &&& s[5] == ':'
    &&& 0 <= two_digits(s, 6) < 60
}

/// Nothing, or a period and the milli-, micro- or nanoseconds.
pub open spec fn is_fraction(s: Seq<char>) -> bool {
    ||| s.len() == 0
    ||| {
        &&& s.len() == 4 || s.len() == 7 || s.len() == 10
        &&& s[0] == '.'
        &&& all_digits(s.skip(1))
    }
}

/// A sign, hours and minutes, of a day at most.
pub open spec fn is_offset(s: Seq<char>) -> bool {
    &&& s.len() == 6
    &&& s[0] == '+' || s[0] == '-'
    &&& 0 <= two_digits(s, 1)
    &&& s[3] == ':'
    &&& 0 <= two_digits(s, 4) < 60
    &&& 60 * two_digits(s, 1) + two_digits(s, 4) <= 24 * 60
}

/// A date and time as RFC 3339 writes it, the offset in digits.
pub open spec fn is_timestamp(s: Seq<char>) -> bool {
    exists|t: int|
        {
            &&& 10 <= t <= s.len() - 15
            &&& is_date(s.take(t))
            &&& #[trigger] s[t] == 'T'
            &&& is_time_of_day(s.subrange(t + 1, t + 9))
            &&& is_fraction(s.subrange(t + 9, s.len() - 6))
            &&& is_offset(s.skip(s.len() - 6))
        }
}

/// The local time, by `chrono::Local::now` and `DateTime::to_rfc3339`: a date and
/// time in the form of RFC 3339. Which one it is depends on the clock and the time
/// zone, and is not stated. `chrono` panics where the clock stands before 1970.
#[verifier::external_body]
pub(crate) fn local_timestamp() -> (out: String)
    ensures
        is_timestamp(out@),
{
    chrono::Local::now().to_rfc3339()
}

/// Why an operating system call failed.
#[derive(Debug, Clone, Copy, PartialEq, Eq, Structural)]
pub enum IoFailure {
    NotFound,
    PermissionDenied,
    TimedOut,
    Other,
}

/// Why there is no report.
#[derive(Debug, Clone, Copy, PartialEq, Eq, Structural)]
pub enum DiagnoseError {
    /// The target's identity could not be verified.
    IdentityUnverified,
    /// The collector took too long.
    TimedOut,
    /// The collector could not be run.
    NotRun(IoFailure),
    /// The collector failed, with or without a message.
    Failed { stderr_present: bool },
}

/// The application that is diagnosed unless another is named.
pub const DEFAULT_TARGET_APP: &'static str = "Windows App";

/// A report of nothing, at some time.
pub open spec fn reports_nothing(result: Result<DiagnosticReport, DiagnoseError>) -> bool {
    &&& result is Ok
    &&& result->Ok_0.deep_view().target_processes == Seq::<ProcessView>::empty()
    &&& result->Ok_0.deep_view().system_dialogs == Seq::<ProcessView>::empty()
    &&& result->Ok_0.deep_view().truncation_reasons == Seq::<Seq<char>>::empty()
    &&& is_timestamp(result->Ok_0.timestamp@)
}

/// A diagnosis of the default application.
pub fn run<R: FnOnce(&str) -> Result<CollectorOutput, IoFailure>>(
    platform: Platform,
    trusted_target_pids: Option<Vec<i32>>,
    run_osascript: R,
) -> (result: Result<DiagnosticReport, DiagnoseError>)
    requires
        platform == Platform::Macos ==> script_may_run(
            DEFAULT_TARGET_APP@,
            trusted_target_pids,
            run_osascript,
        ),
    ensures
        if platform == Platform::Macos {
            collected(DEFAULT_TARGET_APP@, trusted_target_pids, run_osascript, result)
        } else {
            reports_nothing(result)
        },
{
    run_for_app(DEFAULT_TARGET_APP, platform, trusted_target_pids, run_osascript)
}

/// A diagnosis of the verified processes of `app_name`. Where no collector is at
/// hand nothing is run, and the report is one of nothing at the current time.
pub fn run_for_app<R: FnOnce(&str) -> Result<CollectorOutput, IoFailure>>(
    app_name: &str,
    platform: Platform,
    trusted_target_pids: Option<Vec<i32>>,
    run_osascript: R,
) -> (result: Result<DiagnosticReport, DiagnoseError>)
    requires
        platform == Platform::Macos ==> script_may_run(
            app_name@,
            trusted_target_pids,
            run_osascript,
        ),
    ensures
        if platform == Platform::Macos {
            collected(app_name@, trusted_target_pids, run_osascript, result)
        } else {
            reports_nothing(result)
        },
{
    if platform == Platform::Macos {
        return run_macos(app_name, trusted_target_pids, run_osascript);
    }
    let report: DiagnosticReport = DiagnosticReport {
        timestamp: local_timestamp(),
        target_processes: Vec::new(),
        system_dialogs: Vec::new(),
        truncation_reasons: Vec::new(),
    };
    assert(report.deep_view().target_processes =~= Seq::<ProcessView>::empty());
    assert(report.deep_view().system_dialogs =~= Seq::<ProcessView>::empty());
    assert(report.deep_view().truncation_reasons =~= Seq::<Seq<char>>::empty());
    Ok(report)
}

} // verus!
