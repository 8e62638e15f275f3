//! Running the diagnostic collector: its script, the bounded capture of what it
//! prints, and the report that is made of it.

use crate::applescript::{
    build_applescript, MAX_SECURE_FIELDS, MAX_SECURE_FIELD_TRAVERSAL_DEPTH,
    MAX_SECURE_FIELD_TRAVERSAL_ELEMENTS,
};
#[allow(unused_imports)]
use crate::applescript::diagnostic_script;
use crate::diagnose::{local_timestamp, DiagnoseError, DiagnosticReport, IoFailure, ProcessInfo};
#[allow(unused_imports)]
use crate::diagnose::is_timestamp;
use crate::protocol::{
    add_truncation_reason, parse_output_with_truncation, DIAGNOSTIC_RAW_OUTPUT_TRUNCATED_TEXT,
};
#[allow(unused_imports)]
use crate::protocol::{parsed, with_reason};
use crate::text::{decimal_of, fitting_of, is_blank, to_chars, to_text};
#[allow(unused_imports)]
use crate::text::{
    decimal, fitting, lemma_fitting, lemma_utf8_len_ascii, lemma_utf8_len_concat, trimmed, utf8_len,
};
use vstd::prelude::*;
use vstd::slice::slice_subrange;
#[allow(unused_imports)]
use vstd::string::StringExecFns;

verus! {

pub const DIAGNOSE_OSASCRIPT_TIMEOUT_SECS: u64 = 5;

pub const MAX_DIAGNOSTIC_RAW_OUTPUT_BYTES: usize = 131072;

pub const DIAGNOSTIC_STDERR_TRUNCATED_TEXT: &'static str = "diagnostic subprocess stderr truncated";

/// The record that ends a protocol text that was cut.
pub const RAW_OUTPUT_MARKER: &'static str = "\nTRUNCATED:raw-output\n";

/// The marker's length in bytes.
pub const RAW_OUTPUT_MARKER_BYTES: usize = 22;

// ---------------------------------------------------------------------------
// Capturing a pipe
// ---------------------------------------------------------------------------

/// What has been kept of a pipe of which at most so many bytes are kept.
#[derive(Debug, Clone)]
pub struct PipeCapture {
    pub bytes: Vec<u8>,
    pub truncated: bool,
}

/// What is kept of everything that came through the pipe.
pub open spec fn captured(all: Seq<u8>, limit: int) -> Seq<u8> {
    if all.len() <= limit {
        all
    } else {
        all.take(limit)
    }
}

impl PipeCapture {
    /// The capture of `all`.
    pub open spec fn holds(&self, all: Seq<u8>, limit: int) -> bool {
        self.bytes@ == captured(all, limit) && self.truncated == (all.len() > limit)
    }

    pub fn new() -> (capture: Self)
        ensures
            forall|limit: int| 0 <= limit ==> capture.holds(Seq::empty(), limit),
    {
        PipeCapture { bytes: Vec::new(), truncated: false }
    }

    /// Takes in the next bytes of the pipe; those past the limit are dropped.
    pub fn take_chunk(&mut self, chunk: &[u8], byte_limit: usize)
        requires
            old(self).bytes@.len() <= byte_limit,
        ensures
            forall|all: Seq<u8>|
                #[trigger] old(self).holds(all, byte_limit as int) ==> final(self).holds(
                    all + chunk@,
                    byte_limit as int,
                ),
            final(self).bytes@.len() <= byte_limit,
    {
        let remaining: usize = byte_limit - self.bytes.len();
        let keep: usize = if remaining < chunk.len() {
            remaining
        } else {
            chunk.len()
        };
        if keep < chunk.len() {
            self.truncated = true;
        }
        let mut i: usize = 0;
        while i < keep
            invariant
                i <= keep <= chunk@.len(),
                self.bytes@ == old(self).bytes@ + chunk@.take(i as int),
                self.truncated == (old(self).truncated || keep < chunk@.len()),
            decreases keep - i,
        {
            self.bytes.push(chunk[i]);
            assert(chunk@.take(i + 1) =~= chunk@.take(i as int).push(chunk@[i as int]));
            i += 1;
        }
        proof {
            let limit = byte_limit as int;
            assert forall|all: Seq<u8>| #[trigger] old(self).holds(all, limit) implies self.holds(
                all + chunk@,
                limit,
            ) by {
                assert(self.bytes@ =~= captured(all + chunk@, limit));
            }
        }
    }
}

/// `String::from_utf8_lossy`: the text of bytes that may not be UTF-8.
pub uninterp spec fn utf8_lossy(bytes: Seq<u8>) -> Seq<char>;

/// The text of `bytes`, by `String::from_utf8_lossy`. Valid UTF-8 is decoded;
/// what the replacement of other bytes looks like is left to the name.
#[verifier::external_body]
pub(crate) fn lossy_text(bytes: &[u8]) -> (out: String)
    ensures
        out@ == utf8_lossy(bytes@),
        vstd::utf8::valid_utf8(bytes@) ==> out@ == vstd::utf8::decode_utf8(bytes@),
{
    String::from_utf8_lossy(bytes).into_owned()
}

/// A protocol text within the limit: as it is where it fits and nothing was cut
/// before, else its longest prefix that leaves room for the marker record.
pub open spec fn capped_raw(output: Seq<char>, already_truncated: bool) -> Seq<char> {
    if utf8_len(output) <= MAX_DIAGNOSTIC_RAW_OUTPUT_BYTES && !already_truncated {
        output
    } else {
        output.take(
            fitting(output, MAX_DIAGNOSTIC_RAW_OUTPUT_BYTES - RAW_OUTPUT_MARKER_BYTES),
        ) + RAW_OUTPUT_MARKER@
    }
}

/// `capped_raw`, computed.
pub fn cap_raw_diagnostic_protocol_output(output: &str, already_truncated: bool) -> (out: String)
    ensures
        out@ == capped_raw(output@, already_truncated),
{
    let chars: Vec<char> = to_chars(output);
    let room: usize = MAX_DIAGNOSTIC_RAW_OUTPUT_BYTES - RAW_OUTPUT_MARKER_BYTES;
    proof {
        lemma_fitting(output@, MAX_DIAGNOSTIC_RAW_OUTPUT_BYTES as int);
        lemma_fitting(output@, room as int);
    }
    if fitting_of(&chars, MAX_DIAGNOSTIC_RAW_OUTPUT_BYTES) == chars.len() && !already_truncated {
        return to_text(&chars);
    }
    let keep: usize = fitting_of(&chars, room);
    let prefix: &[char] = slice_subrange(chars.as_slice(), 0, keep);
    let mut out: String = to_text(prefix);
    out.append(RAW_OUTPUT_MARKER);
    out
}

/// The protocol text that is parsed never takes more bytes than the limit.
pub proof fn law_capped_raw_fits(output: Seq<char>, already_truncated: bool)
    ensures
        utf8_len(capped_raw(output, already_truncated)) <= MAX_DIAGNOSTIC_RAW_OUTPUT_BYTES,
{
    let room = MAX_DIAGNOSTIC_RAW_OUTPUT_BYTES - RAW_OUTPUT_MARKER_BYTES;
    reveal_strlit("\nTRUNCATED:raw-output\n");
    lemma_utf8_len_ascii(RAW_OUTPUT_MARKER@);
    lemma_fitting(output, room);
    lemma_utf8_len_concat(output.take(fitting(output, room)), RAW_OUTPUT_MARKER@);
}

// ---------------------------------------------------------------------------
// The run
// ---------------------------------------------------------------------------

/// How the collector ended.
#[derive(Debug, Clone)]
pub struct CollectorOutput {
    pub success: bool,
    pub stdout: PipeCapture,
    pub stderr: PipeCapture,
}

/// What has to be run, and the pids that it was made for.
#[derive(Debug, Clone)]
pub struct CollectorPlan {
    pub trusted_target_pids: Vec<i32>,
    pub script: String,
}

/// The script for the verified processes of `app_name`; `None` stands for a
/// verification that failed.
pub fn plan_diagnosis(
    app_name: &str,
    trusted_target_pids: Option<Vec<i32>>,
) -> (plan: Result<CollectorPlan, DiagnoseError>)
    ensures
        match trusted_target_pids {
            None => plan == Err::<CollectorPlan, DiagnoseError>(DiagnoseError::IdentityUnverified),
            Some(pids) => {
                &&& plan is Ok
                &&& plan->Ok_0.trusted_target_pids@ == pids@
                &&& plan->Ok_0.script@ == diagnostic_script(app_name@, pids@)
            },
        },
{
    match trusted_target_pids {
        None => Err(DiagnoseError::IdentityUnverified),
        Some(pids) => {
            let script: String = build_applescript(app_name, pids.as_slice());
            Ok(CollectorPlan { trusted_target_pids: pids, script })
        },
    }
}

/// The reasons that a report gives: first what was cut while the collector ran,
/// then what its output says.
pub open spec fn all_reasons(
    stdout_truncated: bool,
    stderr_truncated: bool,
    parsed_reasons: Seq<Seq<char>>,
) -> Seq<Seq<char>> {
    let first = if stdout_truncated {
        seq![DIAGNOSTIC_RAW_OUTPUT_TRUNCATED_TEXT@]
    } else {
        Seq::empty()
    };
    let second = if stderr_truncated {
        with_reason(first, DIAGNOSTIC_STDERR_TRUNCATED_TEXT@)
    } else {
        first
    };
    with_reasons(second, parsed_reasons)
}

pub open spec fn with_reasons(reasons: Seq<Seq<char>>, more: Seq<Seq<char>>) -> Seq<Seq<char>>
    decreases more.len(),
{
    if more.len() == 0 {
        reasons
    } else {
        with_reason(with_reasons(reasons, more.drop_last()), more.last())
    }
}

/// What the collector's output comes to: a report, or why there is none. What the time
/// of the report is depends on the clock, so only its form is said.
pub open spec fn diagnosed(
    app_name: Seq<char>,
    trusted_target_pids: Seq<i32>,
    outcome: Result<CollectorOutput, IoFailure>,
    result: Result<DiagnosticReport, DiagnoseError>,
) -> bool {
    match outcome {
        Err(IoFailure::TimedOut) => result == Err::<DiagnosticReport, DiagnoseError>(
            DiagnoseError::TimedOut,
        ),
        Err(failure) => result == Err::<DiagnosticReport, DiagnoseError>(
            DiagnoseError::NotRun(failure),
        ),
        Ok(output) => if !output.success {
            result == Err::<DiagnosticReport, DiagnoseError>(
                DiagnoseError::Failed {
                    stderr_present: trimmed(utf8_lossy(output.stderr.bytes@)).len() > 0,
                },
            )
        } else {
            let want = parsed(
                capped_raw(utf8_lossy(output.stdout.bytes@), output.stdout.truncated),
                app_name,
                Some(trusted_target_pids),
            );
            &&& result is Ok
            &&& result->Ok_0.deep_view().target_processes == want.targets
            &&& result->Ok_0.deep_view().system_dialogs == want.dialogs
            &&& result->Ok_0.deep_view().truncation_reasons == all_reasons(
                output.stdout.truncated,
                output.stderr.truncated,
                want.reasons,
            )
            &&& is_timestamp(result->Ok_0.timestamp@)
        },
    }
}

/// The report that the collector's output makes, or why there is none.
pub fn finish_diagnosis(
    app_name: &str,
    plan: &CollectorPlan,
    outcome: Result<CollectorOutput, IoFailure>,
) -> (result: Result<DiagnosticReport, DiagnoseError>)
    ensures
        diagnosed(app_name@, plan.trusted_target_pids@, outcome, result),
{
    let output: CollectorOutput = match outcome {
        Ok(output) => output,
        Err(failure) => {
            return match failure {
                IoFailure::TimedOut => Err(DiagnoseError::TimedOut),
                _ => Err(DiagnoseError::NotRun(failure)),
            };
        },
    };
    let stdout: String = lossy_text(output.stdout.bytes.as_slice());
    let stderr: String = lossy_text(output.stderr.bytes.as_slice());
    let mut reasons: Vec<String> = Vec::new();
    assert(reasons.deep_view() =~= Seq::<Seq<char>>::empty());
    if output.stdout.truncated {
        add_truncation_reason(&mut reasons, DIAGNOSTIC_RAW_OUTPUT_TRUNCATED_TEXT);
        assert(reasons.deep_view() =~= seq![DIAGNOSTIC_RAW_OUTPUT_TRUNCATED_TEXT@]);
    }
    if output.stderr.truncated {
        add_truncation_reason(&mut reasons, DIAGNOSTIC_STDERR_TRUNCATED_TEXT);
    }
    if !output.success {
        return Err(DiagnoseError::Failed { stderr_present: !is_blank(stderr.as_str()) });
    }
    let text: String = cap_raw_diagnostic_protocol_output(
        stdout.as_str(),
        output.stdout.truncated,
    );
    let (target_processes, system_dialogs, more): (
        Vec<ProcessInfo>,
        Vec<ProcessInfo>,
        Vec<String>,
    ) = parse_output_with_truncation(
        text.as_str(),
        app_name,
        Some(plan.trusted_target_pids.as_slice()),
    );
    let ghost base = reasons.deep_view();
    let ghost added = more.deep_view();
    let mut i: usize = 0;
    assert(added.take(0) =~= Seq::<Seq<char>>::empty());
    while i < more.len()
        invariant
            i <= more@.len(),
            added == more.deep_view(),
            reasons.deep_view() == with_reasons(base, added.take(i as int)),
        decreases more@.len() - i,
    {
        add_truncation_reason(&mut reasons, more[i].as_str());
        assert(added.take(i + 1).drop_last() =~= added.take(i as int));
        i += 1;
    }
    assert(added.take(added.len() as int) =~= added);
    Ok(
        DiagnosticReport {
            timestamp: local_timestamp(),
            target_processes,
            system_dialogs,
            truncation_reasons: reasons,
        },
    )
}

/// The collector may be run where the processes were verified, and with the script
/// that was made for them alone.
pub open spec fn script_may_run<R: FnOnce(&str) -> Result<CollectorOutput, IoFailure>>(
    app_name: Seq<char>,
    trusted_target_pids: Option<Vec<i32>>,
    run_osascript: R,
) -> bool {
    trusted_target_pids is Some ==> forall|script: &str|
        script@ == diagnostic_script(app_name, trusted_target_pids->0@) ==> #[trigger]
        call_requires(run_osascript, (script,))
}

/// What a diagnosis of the verified processes comes to: where the verification failed,
/// that error; else what some outcome of running the script that was made for them does.
pub open spec fn collected<R: FnOnce(&str) -> Result<CollectorOutput, IoFailure>>(
    app_name: Seq<char>,
    trusted_target_pids: Option<Vec<i32>>,
    run_osascript: R,
    result: Result<DiagnosticReport, DiagnoseError>,
) -> bool {
    match trusted_target_pids {
        None => result == Err::<DiagnosticReport, DiagnoseError>(
            DiagnoseError::IdentityUnverified,
        ),
        Some(pids) => exists|script: &str, outcome: Result<CollectorOutput, IoFailure>|
            {
                &&& script@ == diagnostic_script(app_name, pids@)
                &&& #[trigger] call_ensures(run_osascript, (script,), outcome)
                &&& diagnosed(app_name, pids@, outcome, result)
            },
    }
}

/// A diagnosis of the verified processes of `app_name`: the script that was made for
/// them is run once, and its output becomes the report. Where the verification failed
/// nothing is run.
pub fn run_macos<R: FnOnce(&str) -> Result<CollectorOutput, IoFailure>>(
    app_name: &str,
    trusted_target_pids: Option<Vec<i32>>,
    run_osascript: R,
) -> (result: Result<DiagnosticReport, DiagnoseError>)
    requires
        script_may_run(app_name@, trusted_target_pids, run_osascript),
    ensures
        collected(app_name@, trusted_target_pids, run_osascript, result),
{
    let plan: CollectorPlan = match plan_diagnosis(app_name, trusted_target_pids) {
        Ok(plan) => plan,
        Err(error) => {
            return Err(error);
        },
    };
    let outcome: Result<CollectorOutput, IoFailure> = run_osascript(plan.script.as_str());
    finish_diagnosis(app_name, &plan, outcome)
}

// ---------------------------------------------------------------------------
// Messages
// ---------------------------------------------------------------------------

/// What is said of a collector's message: never the message itself.
pub open spec fn stderr_text(present: bool) -> Seq<char> {
    if present {
        "redacted stderr"@
    } else {
        "no stderr"@
    }
}

/// `stderr_text`, computed.
pub fn redacted_stderr(present: bool) -> (out: &'static str)
    ensures
        out@ == stderr_text(present),
{
    if present {
        "redacted stderr"
    } else {
        "no stderr"
    }
}

/// What is said of an operating system error.
pub open spec fn io_failure_text(failure: IoFailure) -> Seq<char> {
    match failure {
        IoFailure::NotFound => "osascript command was not found"@,
        IoFailure::PermissionDenied => "permission denied while starting osascript"@,
        IoFailure::TimedOut => "osascript timed out"@,
        IoFailure::Other => "redacted I/O error"@,
    }
}

/// `io_failure_text`, computed.
pub fn redacted_io_error(failure: IoFailure) -> (out: &'static str)
    ensures
        out@ == io_failure_text(failure),
{
    match failure {
        IoFailure::NotFound => "osascript command was not found",
        IoFailure::PermissionDenied => "permission denied while starting osascript",
        IoFailure::TimedOut => "osascript timed out",
        IoFailure::Other => "redacted I/O error",
    }
}

/// What is said of an error.
pub open spec fn error_text(error: DiagnoseError) -> Seq<char> {
    match error {
        DiagnoseError::IdentityUnverified => "failed to verify diagnostic target identity"@,
        DiagnoseError::TimedOut => "diagnostic timed out after "@ + decimal(
            DIAGNOSE_OSASCRIPT_TIMEOUT_SECS as int,
        )
            + "s while querying macOS Accessibility; secure-field traversal is capped at depth "@
            + decimal(MAX_SECURE_FIELD_TRAVERSAL_DEPTH as int) + ", "@ + decimal(
            MAX_SECURE_FIELD_TRAVERSAL_ELEMENTS as int,
        ) + " elements, "@ + decimal(MAX_SECURE_FIELDS as int)
            + " fields; output was discarded and no field values were copied"@,
        DiagnoseError::NotRun(failure) => "failed to run diagnostic AppleScript: "@
            + io_failure_text(failure),
        DiagnoseError::Failed { stderr_present } => "osascript failed: "@ + stderr_text(
            stderr_present,
        ),
    }
}

impl DiagnoseError {
    /// The message for the user.
    pub fn message(&self) -> (out: String)
        ensures
            out@ == error_text(*self),
    {
        match self {
            DiagnoseError::IdentityUnverified => {
                "failed to verify diagnostic target identity".to_owned()
            },
            DiagnoseError::TimedOut => {
                let secs: String = decimal_of(DIAGNOSE_OSASCRIPT_TIMEOUT_SECS as i64);
                let depth: String = decimal_of(MAX_SECURE_FIELD_TRAVERSAL_DEPTH as i64);
                let elements: String = decimal_of(MAX_SECURE_FIELD_TRAVERSAL_ELEMENTS as i64);
                let fields: String = decimal_of(MAX_SECURE_FIELDS as i64);
                let mut out: String = "diagnostic timed out after ".to_owned();
                out.append(secs.as_str());
                out.append(
                    "s while querying macOS Accessibility; secure-field traversal is capped at depth ",
                );
                out.append(depth.as_str());
                out.append(", ");
                out.append(elements.as_str());
                out.append(" elements, ");
                out.append(fields.as_str());
                out.append(" fields; output was discarded and no field values were copied");
                out
            },
            DiagnoseError::NotRun(failure) => {
                let mut out: String = "failed to run diagnostic AppleScript: ".to_owned();
                out.append(redacted_io_error(*failure));
                out
            },
            DiagnoseError::Failed { stderr_present } => {
                let mut out: String = "osascript failed: ".to_owned();
                out.append(redacted_stderr(*stderr_present));
                out
            },
        }
    }
}

} // verus!
