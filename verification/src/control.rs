//! How the supervisor, its settings window and their peers talk to each other.

use crate::models::{Tab, WorkerStatus};
use crate::native_path::same_bytes;
use crate::text::{same_text, to_chars, to_text};
#[allow(unused_imports)]
use crate::text::{lemma_utf8_len_ascii, lemma_utf8_len_is_encoded_len};
use vstd::prelude::*;
use vstd::slice::slice_subrange;
use vstd::string::*;

verus! {

pub const FULL_UI_CONTROL_MAX_LINE_BYTES: usize = 32;

pub const SETTINGS_SESSION_TOKEN_ENV: &'static str = "WAAL_SETTINGS_SESSION_TOKEN";

pub const LEGACY_IPC_TOKEN_ENV: &'static str = "WAAL_IPC_TOKEN";

pub const LEGACY_MONITOR_CONTROL_TOKEN_ENV: &'static str = "WAAL_MONITOR_CONTROL_TOKEN";

pub const DIAGNOSTICS_TAB_UNAVAILABLE: &'static str =
    "the diagnostics tab is not available through full UI control";

pub const FILL_RESULT_LABEL_CHARS: usize = 48;

// ---------------------------------------------------------------------------
// The state of the monitor
// ---------------------------------------------------------------------------

/// What the monitor does and what it is meant to do.
#[derive(Debug, Clone, Copy, PartialEq, Eq, Structural)]
pub enum MonitorControlState {
    Running,
    PausedWithStartIntent,
    Stopped,
}

pub open spec fn control_state(status: WorkerStatus, intent: bool) -> MonitorControlState {
    if !intent {
        MonitorControlState::Stopped
    } else if status == WorkerStatus::Running {
        MonitorControlState::Running
    } else {
        MonitorControlState::PausedWithStartIntent
    }
}

impl MonitorControlState {
    /// `control_state`, computed.
    pub fn from_worker_and_intent(status: WorkerStatus, desired_running: bool) -> (out: Self)
        ensures
            out == control_state(status, desired_running),
    {
        if !desired_running {
            MonitorControlState::Stopped
        } else {
            match status {
                WorkerStatus::Running => MonitorControlState::Running,
                WorkerStatus::Idle => MonitorControlState::PausedWithStartIntent,
            }
        }
    }

    /// Whether a toggle stops the monitor: it does unless the monitor is stopped.
    pub fn toggle_requests_stop(self) -> (r: bool)
        ensures
            r == (self != MonitorControlState::Stopped),
    {
        match self {
            MonitorControlState::Stopped => false,
            _ => true,
        }
    }

    /// What the menu calls the toggle.
    pub fn toggle_label(self) -> (out: &'static str)
        ensures
            out@ == if self == MonitorControlState::Stopped {
                "Start Monitor"@
            } else {
                "Stop Monitor"@
            },
    {
        match self {
            MonitorControlState::Stopped => "Start Monitor",
            _ => "Stop Monitor",
        }
    }
}

// ---------------------------------------------------------------------------
// Commands of peers
// ---------------------------------------------------------------------------

#[derive(Debug, Clone, Copy, PartialEq, Eq, Structural)]
pub enum MonitorControlCommand {
    Start,
    Stop,
    StorageRecoveryBlocked,
    ReloadConfig,
}

#[derive(Debug, Clone, Copy, PartialEq, Eq, Structural)]
pub enum LocalIpcCommand {
    Activate,
    SettingsBootstrap,
    SettingsMutationBegin,
    SettingsMutationCancel,
    ReloadConfig,
    Monitor(MonitorControlCommand),
}

/// Anybody may ask for the window. Only the settings child may announce itself, and
/// only once it has may it ask for anything else.
pub open spec fn authorized(
    command: LocalIpcCommand,
    peer_pid: u32,
    child_pid: Option<u32>,
    bootstrapped: bool,
) -> bool {
    match command {
        LocalIpcCommand::Activate => true,
        LocalIpcCommand::SettingsBootstrap => child_pid == Some(peer_pid),
        _ => bootstrapped && child_pid == Some(peer_pid),
    }
}

/// `authorized`, computed.
pub fn local_ipc_command_authorized(
    command: LocalIpcCommand,
    peer_pid: u32,
    settings_child_pid: Option<u32>,
    settings_child_bootstrapped: bool,
) -> (r: bool)
    ensures
        r == authorized(command, peer_pid, settings_child_pid, settings_child_bootstrapped),
{
    let is_child: bool = match settings_child_pid {
        Some(pid) => pid == peer_pid,
        None => false,
    };
    match command {
        LocalIpcCommand::Activate => true,
        LocalIpcCommand::SettingsBootstrap => is_child,
        _ => settings_child_bootstrapped && is_child,
    }
}

/// A peer that is not the settings child can do nothing but ask for the window.
pub proof fn law_strangers_may_only_activate(
    command: LocalIpcCommand,
    peer_pid: u32,
    child_pid: Option<u32>,
    bootstrapped: bool,
)
    requires
        child_pid != Some(peer_pid),
    ensures
        authorized(command, peer_pid, child_pid, bootstrapped) <==> command
            == LocalIpcCommand::Activate,
{
}

// ---------------------------------------------------------------------------
// The lines that go to and from the settings window
// ---------------------------------------------------------------------------

/// A line that was read.
#[derive(Debug, Clone, Copy, PartialEq, Eq, Structural)]
pub enum FullUiControlRead {
    EndOfStream,
    Invalid,
    Exit,
    Show(Tab),
}

/// The line that asks for a page, or that says that it is shown; the diagnostics
/// page has none.
pub fn full_ui_control_message(initial_tab: Tab) -> (out: Result<&'static [u8], &'static str>)
    ensures
        match initial_tab {
            Tab::Accounts => out matches Ok(line) && line@ == "show:accounts\n".spec_bytes(),
            Tab::Settings => out matches Ok(line) && line@ == "show:settings\n".spec_bytes(),
            Tab::Diagnose => out matches Err(error) && error@ == DIAGNOSTICS_TAB_UNAVAILABLE@,
        },
{
    match initial_tab {
        Tab::Accounts => Ok("show:accounts\n".as_bytes()),
        Tab::Settings => Ok("show:settings\n".as_bytes()),
        Tab::Diagnose => Err(DIAGNOSTICS_TAB_UNAVAILABLE),
    }
}

/// The line that asks the settings window to close.
pub fn full_ui_exit_message() -> (out: &'static [u8])
    ensures
        out@ == "exit\n".spec_bytes(),
{
    "exit\n".as_bytes()
}

/// A line without the carriage return at its end.
pub open spec fn without_return(line: Seq<u8>) -> Seq<u8> {
    if line.len() > 0 && line.last() == 13 {
        line.drop_last()
    } else {
        line
    }
}

/// What a line says.
pub open spec fn line_says(line: Seq<u8>) -> FullUiControlRead {
    if line.len() > FULL_UI_CONTROL_MAX_LINE_BYTES {
        FullUiControlRead::Invalid
    } else if without_return(line) == "exit".spec_bytes() {
        FullUiControlRead::Exit
    } else if without_return(line) == "show:accounts".spec_bytes() {
        FullUiControlRead::Show(Tab::Accounts)
    } else if without_return(line) == "show:settings".spec_bytes() {
        FullUiControlRead::Show(Tab::Settings)
    } else {
        FullUiControlRead::Invalid
    }
}

/// `line_says`, computed.
pub fn parse_full_ui_control_line(line: &[u8]) -> (out: FullUiControlRead)
    ensures
        out == line_says(line@),
{
    if line.len() > FULL_UI_CONTROL_MAX_LINE_BYTES {
        return FullUiControlRead::Invalid;
    }
    let n: usize = line.len();
    let inner: &[u8] = if n > 0 && line[n - 1] == 13 {
        slice_subrange(line, 0, n - 1)
    } else {
        line
    };
    assert(inner@ =~= without_return(line@));
    if same_bytes(inner, "exit".as_bytes()) {
        FullUiControlRead::Exit
    } else if same_bytes(inner, "show:accounts".as_bytes()) {
        FullUiControlRead::Show(Tab::Accounts)
    } else if same_bytes(inner, "show:settings".as_bytes()) {
        FullUiControlRead::Show(Tab::Settings)
    } else {
        FullUiControlRead::Invalid
    }
}

/// A reader of lines that comes by its bytes in pieces and keeps no more of a line
/// than a valid one can have.
#[derive(Debug)]
pub struct ControlLineReader {
    pub line: Vec<u8>,
    pub overlong: bool,
}

/// What came of a piece.
#[derive(Debug, Clone, Copy, PartialEq, Eq, Structural)]
pub struct ControlStep {
    /// How many bytes of the piece belong to the line.
    pub consumed: usize,
    /// The line, where it is complete.
    pub read: Option<FullUiControlRead>,
}

/// How far the line goes in a piece: to the line feed, or to the end.
pub open spec fn line_end(piece: Seq<u8>) -> int
    decreases piece.len(),
{
    if piece.len() == 0 || piece.first() == 10 {
        0
    } else {
        1 + line_end(piece.drop_first())
    }
}

impl ControlLineReader {
    /// The reader has read `seen` of a line.
    pub open spec fn holds(&self, seen: Seq<u8>) -> bool {
        &&& self.overlong == (seen.len() > FULL_UI_CONTROL_MAX_LINE_BYTES)
        &&& self.line@ == if seen.len() > FULL_UI_CONTROL_MAX_LINE_BYTES {
            seen.take(FULL_UI_CONTROL_MAX_LINE_BYTES as int)
        } else {
            seen
        }
    }

    pub fn new() -> (out: Self)
        ensures
            out.holds(Seq::empty()),
    {
        ControlLineReader { line: Vec::new(), overlong: false }
    }

    fn finish(&mut self) -> (out: FullUiControlRead)
        ensures
            forall|seen: Seq<u8>| #[trigger] old(self).holds(seen) ==> out == line_says(seen),
            final(self).holds(Seq::empty()),
    {
        let out: FullUiControlRead = if self.overlong {
            FullUiControlRead::Invalid
        } else {
            parse_full_ui_control_line(&self.line)
        };
        self.line = Vec::new();
        self.overlong = false;
        out
    }

    /// Takes the bytes of a piece up to the end of the line; an empty piece is the end
    /// of the stream. Only the bytes matter, not how they are cut into pieces.
    pub fn read_full_ui_control_command(&mut self, piece: &[u8]) -> (out: ControlStep)
        ensures
            out.consumed == if line_end(piece@) < piece@.len() {
                line_end(piece@) + 1
            } else {
                piece@.len() as int
            },
            forall|seen: Seq<u8>| #[trigger]
                old(self).holds(seen) ==> {
                    let all = seen + piece@.take(line_end(piece@));
                    if piece@.len() == 0 {
                        &&& out.read == Some(
                            if seen.len() == 0 {
                                FullUiControlRead::EndOfStream
                            } else {
                                line_says(seen)
                            },
                        )
                        &&& final(self).holds(Seq::empty())
                    } else if line_end(piece@) < piece@.len() {
                        &&& out.read == Some(line_says(all))
                        &&& final(self).holds(Seq::empty())
                    } else {
                        &&& out.read is None
                        &&& final(self).holds(all)
                    }
                },
    {
        if piece.len() == 0 {
            if self.line.len() == 0 {
                proof {
                    assert forall|seen: Seq<u8>| #[trigger] old(self).holds(seen) implies seen.len()
                        == 0 && self.holds(Seq::empty()) by {
                        assert(seen.take(0) =~= Seq::<u8>::empty());
                        assert(self.line@ =~= Seq::<u8>::empty());
                    }
                }
                return ControlStep { consumed: 0, read: Some(FullUiControlRead::EndOfStream) };
            }
            let read: FullUiControlRead = self.finish();
            return ControlStep { consumed: 0, read: Some(read) };
        }
        let mut i: usize = 0;
        assert(piece@.skip(0) =~= piece@);
        assert(piece@.take(0) =~= Seq::<u8>::empty());
        proof {
            assert forall|seen: Seq<u8>| #[trigger] old(self).holds(seen) implies self.holds(
                seen + piece@.take(0),
            ) by {
                assert(seen + piece@.take(0) =~= seen);
            }
        }
        while i < piece.len() && piece[i] != 10
            invariant
                i <= piece@.len(),
                line_end(piece@) == i + line_end(piece@.skip(i as int)),
                forall|seen: Seq<u8>| #[trigger]
                    old(self).holds(seen) ==> self.holds(seen + piece@.take(i as int)),
            decreases piece@.len() - i,
        {
            let ghost before = *self;
            let byte: u8 = piece[i];
            assert(piece@.skip(i as int).first() == byte);
            assert(piece@.skip(i as int).drop_first() =~= piece@.skip(i + 1));
            if !self.overlong {
                if self.line.len() < FULL_UI_CONTROL_MAX_LINE_BYTES {
                    self.line.push(byte);
                } else {
                    self.overlong = true;
                }
            }
            proof {
                assert forall|seen: Seq<u8>| #[trigger] old(self).holds(seen) implies self.holds(
                    seen + piece@.take(i + 1),
                ) by {
                    let so_far = seen + piece@.take(i as int);
                    assert(before.holds(so_far));
                    assert(seen + piece@.take(i + 1) =~= so_far.push(byte));
                    assert(so_far.push(byte).take(FULL_UI_CONTROL_MAX_LINE_BYTES as int)
                        =~= if so_far.len() >= FULL_UI_CONTROL_MAX_LINE_BYTES {
                        so_far.take(FULL_UI_CONTROL_MAX_LINE_BYTES as int)
                    } else {
                        so_far.push(byte).take(FULL_UI_CONTROL_MAX_LINE_BYTES as int)
                    });
                    if so_far.len() == FULL_UI_CONTROL_MAX_LINE_BYTES {
                        assert(so_far.take(FULL_UI_CONTROL_MAX_LINE_BYTES as int) =~= so_far);
                    }
                }
            }
            i += 1;
        }
        if i < piece.len() {
            assert(piece@.skip(i as int).first() == 10);
            assert(line_end(piece@) == i);
            let read: FullUiControlRead = self.finish();
            ControlStep { consumed: i + 1, read: Some(read) }
        } else {
            assert(piece@.skip(i as int).len() == 0);
            assert(line_end(piece@) == i);
            ControlStep { consumed: i, read: None }
        }
    }
}

// ---------------------------------------------------------------------------
// The command line of the settings window
// ---------------------------------------------------------------------------

/// The pages that a helper may be started with. The diagnostics page is one only in a
/// program that has it.
pub open spec fn tab_arg(arg: Seq<char>, diagnostics_ui: bool) -> bool {
    ||| arg == "--initial-tab=accounts"@
    ||| arg == "--initial-tab=settings"@
    ||| diagnostics_ui && arg == "--initial-tab=diagnose"@
}

/// `tab_arg`, computed.
pub fn windows_full_ui_initial_tab_arg_is_valid(arg: &str, diagnostics_ui: bool) -> (r: bool)
    ensures
        r == tab_arg(arg@, diagnostics_ui),
{
    same_text(arg, "--initial-tab=accounts") || same_text(arg, "--initial-tab=settings")
        || diagnostics_ui && same_text(arg, "--initial-tab=diagnose")
}

/// Whether a command line is exactly the one that the supervisor starts its helper
/// with.
pub fn windows_full_ui_args_are_valid(args: &[String], diagnostics_ui: bool) -> (r: bool)
    ensures
        r == (args@.len() == 2 && args@[0]@ == "--full-ui"@ && tab_arg(
            args@[1]@,
            diagnostics_ui,
        )),
{
    args.len() == 2 && same_text(args[0].as_str(), "--full-ui")
        && windows_full_ui_initial_tab_arg_is_valid(args[1].as_str(), diagnostics_ui)
}

/// The page that an argument names. The diagnostics page has a name only in a program
/// that has the page.
pub open spec fn arg_tab(arg: Seq<char>, diagnostics_ui: bool) -> Option<Tab> {
    if arg == "--initial-tab=accounts"@ || arg == "--accounts"@ {
        Some(Tab::Accounts)
    } else if arg == "--initial-tab=settings"@ || arg == "--settings"@ {
        Some(Tab::Settings)
    } else if diagnostics_ui && (arg == "--initial-tab=diagnose"@ || arg == "--diagnose"@) {
        Some(Tab::Diagnose)
    } else {
        None
    }
}

fn tab_of_arg(arg: &str, diagnostics_ui: bool) -> (out: Option<Tab>)
    ensures
        out == arg_tab(arg@, diagnostics_ui),
{
    if same_text(arg, "--initial-tab=accounts") || same_text(arg, "--accounts") {
        Some(Tab::Accounts)
    } else if same_text(arg, "--initial-tab=settings") || same_text(arg, "--settings") {
        Some(Tab::Settings)
    } else if diagnostics_ui && (same_text(arg, "--initial-tab=diagnose") || same_text(
        arg,
        "--diagnose",
    )) {
        Some(Tab::Diagnose)
    } else {
        None
    }
}

/// The page that the first argument to name one names; else the settings page.
pub open spec fn first_tab(args: Seq<String>, diagnostics_ui: bool) -> Tab
    decreases args.len(),
{
    if args.len() == 0 {
        Tab::Settings
    } else {
        match arg_tab(args.first()@, diagnostics_ui) {
            Some(tab) => tab,
            None => first_tab(args.drop_first(), diagnostics_ui),
        }
    }
}

/// `first_tab`, computed.
pub fn initial_full_ui_tab(args: &[String], diagnostics_ui: bool) -> (out: Tab)
    ensures
        out == first_tab(args@, diagnostics_ui),
{
    let mut i: usize = 0;
    assert(args@.skip(0) =~= args@);
    while i < args.len()
        invariant
            i <= args@.len(),
            first_tab(args@, diagnostics_ui) == first_tab(args@.skip(i as int), diagnostics_ui),
        decreases args@.len() - i,
    {
        assert(args@.skip(i as int).first() == args@[i as int]);
        assert(args@.skip(i as int).drop_first() =~= args@.skip(i + 1));
        if let Some(tab) = tab_of_arg(args[i].as_str(), diagnostics_ui) {
            return tab;
        }
        i += 1;
    }
    Tab::Settings
}

pub open spec fn tab_arg_text(tab: Tab) -> Seq<char> {
    match tab {
        Tab::Accounts => "--initial-tab=accounts"@,
        Tab::Settings => "--initial-tab=settings"@,
        Tab::Diagnose => "--initial-tab=diagnose"@,
    }
}

/// `tab_arg_text`, computed.
pub fn initial_tab_arg(initial_tab: Tab) -> (out: &'static str)
    ensures
        out@ == tab_arg_text(initial_tab),
{
    match initial_tab {
        Tab::Accounts => "--initial-tab=accounts",
        Tab::Settings => "--initial-tab=settings",
        Tab::Diagnose => "--initial-tab=diagnose",
    }
}

#[derive(Debug, Clone, Copy, PartialEq, Eq, Structural)]
pub enum Platform {
    Macos,
    Windows,
    Other,
}

/// How the settings window is started.
#[derive(Debug)]
pub struct FullUiCommand {
    pub args: Vec<String>,
    /// The value of the token variable; without one the variable is removed.
    pub session_token: Option<String>,
    /// The variable of an older protocol that is removed.
    pub removed_variable: Option<&'static str>,
}

/// The command that starts the settings window on a page.
pub fn full_ui_command(
    platform: Platform,
    initial_tab: Tab,
    settings_session_token: Option<&str>,
) -> (out: FullUiCommand)
    ensures
        out.args@.len() == 2,
        out.args@[0]@ == "--full-ui"@,
        out.args@[1]@ == tab_arg_text(initial_tab),
        out.session_token.deep_view() == settings_session_token.deep_view(),
        out.removed_variable.deep_view() == match platform {
            Platform::Macos => Some(LEGACY_IPC_TOKEN_ENV@),
            Platform::Windows => Some(LEGACY_MONITOR_CONTROL_TOKEN_ENV@),
            Platform::Other => None,
        },
{
    let mut args: Vec<String> = Vec::new();
    args.push("--full-ui".to_owned());
    args.push(initial_tab_arg(initial_tab).to_owned());
    let session_token: Option<String> = match settings_session_token {
        Some(token) => Some(token.to_owned()),
        None => None,
    };
    let removed_variable: Option<&'static str> = match platform {
        Platform::Macos => Some(LEGACY_IPC_TOKEN_ENV),
        Platform::Windows => Some(LEGACY_MONITOR_CONTROL_TOKEN_ENV),
        Platform::Other => None,
    };
    FullUiCommand { args, session_token, removed_variable }
}

/// A page that is asked for, and that the program has, opens on that page again. A
/// diagnostics page that it does not have is named by nothing.
pub proof fn law_tab_arg_reads_back(tab: Tab, diagnostics_ui: bool)
    ensures
        arg_tab(tab_arg_text(tab), diagnostics_ui) == if tab != Tab::Diagnose || diagnostics_ui {
            Some(tab)
        } else {
            None
        },
        tab_arg(tab_arg_text(tab), diagnostics_ui) == (tab != Tab::Diagnose || diagnostics_ui),
{
    reveal_strlit("--initial-tab=accounts");
    reveal_strlit("--initial-tab=settings");
    reveal_strlit("--initial-tab=diagnose");
    reveal_strlit("--accounts");
    reveal_strlit("--settings");
    reveal_strlit("--diagnose");
    assert("--initial-tab=accounts"@[14] == 'a');
    assert("--initial-tab=settings"@[14] == 's');
    assert("--initial-tab=diagnose"@[14] == 'd');
    assert("--initial-tab=accounts"@.len() == 22);
    assert("--initial-tab=settings"@.len() == 22);
    assert("--initial-tab=diagnose"@.len() == 22);
    assert("--accounts"@.len() == 10);
    assert("--settings"@.len() == 10);
    assert("--diagnose"@.len() == 10);
}

// ---------------------------------------------------------------------------
// The last result, for the menu
// ---------------------------------------------------------------------------

/// What a fill attempt reported.
#[derive(Debug, Clone)]
pub struct FillAttemptReport {
    pub fields: Vec<(String, String)>,
    pub success: bool,
    pub failure_reason: Option<String>,
}

/// The value of the first field with a name.
pub open spec fn field_value(fields: Seq<(String, String)>, key: Seq<char>) -> Option<Seq<char>>
    decreases fields.len(),
{
    if fields.len() == 0 {
        None
    } else if fields.first().0@ == key {
        Some(fields.first().1@)
    } else {
        field_value(fields.drop_first(), key)
    }
}

impl FillAttemptReport {
    /// `field_value`, computed.
    pub fn field(&self, key: &str) -> (out: Option<&str>)
        ensures
            out.deep_view() == field_value(self.fields@, key@),
    {
        let mut i: usize = 0;
        assert(self.fields@.skip(0) =~= self.fields@);
        while i < self.fields.len()
            invariant
                i <= self.fields@.len(),
                field_value(self.fields@, key@) == field_value(self.fields@.skip(i as int), key@),
            decreases self.fields@.len() - i,
        {
            assert(self.fields@.skip(i as int).first() == self.fields@[i as int]);
            assert(self.fields@.skip(i as int).drop_first() =~= self.fields@.skip(i + 1));
            if same_text(self.fields[i].0.as_str(), key) {
                return Some(self.fields[i].1.as_str());
            }
            i += 1;
        }
        None
    }
}

pub open spec fn failure_label(reason: Option<Seq<char>>) -> Seq<char> {
    match reason {
        Some(reason) => if reason.len() == 0 {
            "failed"@
        } else if reason.len() <= FILL_RESULT_LABEL_CHARS {
            reason
        } else {
            reason.take(FILL_RESULT_LABEL_CHARS as int)
        },
        None => "failed"@,
    }
}

/// What the menu says of a fill attempt.
pub open spec fn result_label(
    state: Option<Seq<char>>,
    success: bool,
    reason: Option<Seq<char>>,
) -> Seq<char> {
    if state == Some("authenticated"@) {
        "authenticated"@
    } else if state == Some("still_prompt"@) {
        "still prompt"@
    } else if state == Some("prompt_mismatch"@) {
        "prompt mismatch"@
    } else if state == Some("prompt_gone_unknown"@) {
        "prompt gone"@
    } else if success {
        "submitted"@
    } else {
        failure_label(reason)
    }
}

fn failure_label_of(reason: &Option<String>) -> (out: String)
    ensures
        out@ == failure_label(reason.deep_view()),
{
    match reason {
        Some(reason) => {
            if reason.as_str().is_empty() {
                return "failed".to_owned();
            }
            let chars: Vec<char> = to_chars(reason.as_str());
            if chars.len() <= FILL_RESULT_LABEL_CHARS {
                return reason.clone();
            }
            to_text(slice_subrange(chars.as_slice(), 0, FILL_RESULT_LABEL_CHARS))
        },
        None => "failed".to_owned(),
    }
}

/// `result_label`, computed.
pub fn fill_result_label(report: &FillAttemptReport) -> (out: String)
    ensures
        out@ == result_label(
            field_value(report.fields@, "post_check_state"@),
            report.success,
            report.failure_reason.deep_view(),
        ),
{
    if let Some(state) = report.field("post_check_state") {
        if same_text(state, "authenticated") {
            return "authenticated".to_owned();
        }
        if same_text(state, "still_prompt") {
            return "still prompt".to_owned();
        }
        if same_text(state, "prompt_mismatch") {
            return "prompt mismatch".to_owned();
        }
        if same_text(state, "prompt_gone_unknown") {
            return "prompt gone".to_owned();
        }
    }
    if report.success {
        return "submitted".to_owned();
    }
    failure_label_of(&report.failure_reason)
}

/// What the menu says never grows beyond its limit.
pub proof fn law_result_label_is_short(
    state: Option<Seq<char>>,
    success: bool,
    reason: Option<Seq<char>>,
)
    ensures
        result_label(state, success, reason).len() <= FILL_RESULT_LABEL_CHARS,
{
    reveal_strlit("authenticated");
    reveal_strlit("still prompt");
    reveal_strlit("prompt mismatch");
    reveal_strlit("prompt gone");
    reveal_strlit("submitted");
    reveal_strlit("failed");
}

// ---------------------------------------------------------------------------
// What lines, arguments and results come to
// ---------------------------------------------------------------------------

/// A line asks to close, or for one of two pages, exactly where it is that word, with or
/// without a carriage return; every other line is invalid.
pub proof fn law_a_line_is_one_of_three_words(line: Seq<u8>)
    ensures
        line_says(line) == FullUiControlRead::Exit <==> line == "exit".spec_bytes() || line
            == "exit".spec_bytes().push(13),
        line_says(line) == FullUiControlRead::Show(Tab::Accounts) <==> line
            == "show:accounts".spec_bytes() || line == "show:accounts".spec_bytes().push(13),
        line_says(line) == FullUiControlRead::Show(Tab::Settings) <==> line
            == "show:settings".spec_bytes() || line == "show:settings".spec_bytes().push(13),
        line_says(line) is EndOfStream || line_says(line) == FullUiControlRead::Show(Tab::Diagnose)
            ==> false,
{
    reveal_strlit("exit");
    reveal_strlit("show:accounts");
    reveal_strlit("show:settings");
    let words = seq!["exit"@, "show:accounts"@, "show:settings"@];
    assert forall|k: int| 0 <= k < 3 implies {
        &&& vstd::utf8::encode_utf8(#[trigger] words[k]).len() == words[k].len()
        &&& words[k].len() > 0
        &&& vstd::utf8::encode_utf8(words[k]).last() != 13
    } by {
        lemma_utf8_len_is_encoded_len(words[k]);
        lemma_utf8_len_ascii(words[k]);
        lemma_last_byte(words[k]);
    }
    assert(words[0] == "exit"@ && words[1] == "show:accounts"@ && words[2] == "show:settings"@);
    lemma_apart(words[0], words[1]);
    lemma_apart(words[0], words[2]);
    assert(words[1][5] == 'a' && words[2][5] == 's');
    lemma_apart(words[1], words[2]);
    assert forall|w: Seq<u8>| w.len() > 0 && w.last() != 13 implies (#[trigger] without_return(line)
        == w <==> line == w || line == w.push(13)) by {
        if line.len() > 0 && line.last() == 13 {
            assert(line =~= line.drop_last().push(13));
            assert(w.push(13).drop_last() =~= w);
        }
    }
}

/// An ASCII character is encoded as one byte, its number.
proof fn lemma_ascii_byte(c: char)
    requires
        c <= '\u{7f}',
    ensures
        vstd::utf8::encode_scalar(c as u32) == seq![c as u8],
{
    let n = c as u32;
    assert(c <= '\u{7f}' <==> n <= 0x7f);
    assert((n & 0x7f) as u8 == n as u8) by (bit_vector)
        requires
            n <= 0x7f,
    ;
    assert(n as u8 == c as u8);
    assert(vstd::utf8::encode_scalar(n) =~= seq![c as u8]);
}

/// The last byte of an ASCII text is its last character.
proof fn lemma_last_byte(s: Seq<char>)
    requires
        s.len() > 0,
        forall|i: int| 0 <= i < s.len() ==> s[i] <= '\u{7f}',
    ensures
        vstd::utf8::encode_utf8(s).len() > 0,
        vstd::utf8::encode_utf8(s).last() == s.last() as u8,
    decreases s.len(),
{
    let rest = s.drop_first();
    lemma_ascii_byte(s[0]);
    if rest.len() > 0 {
        assert(rest.last() == s.last());
        lemma_last_byte(rest);
    } else {
        assert(vstd::utf8::encode_utf8(rest) =~= Seq::<u8>::empty());
    }
}

/// Texts that differ are encoded differently.
proof fn lemma_apart(a: Seq<char>, b: Seq<char>)
    requires
        a != b,
    ensures
        vstd::utf8::encode_utf8(a) != vstd::utf8::encode_utf8(b),
{
    if vstd::utf8::encode_utf8(a) == vstd::utf8::encode_utf8(b) {
        vstd::utf8::encode_utf8_decode_utf8(a);
        vstd::utf8::encode_utf8_decode_utf8(b);
    }
}

/// A line ends at its first line feed; without one it goes on.
pub proof fn law_a_line_ends_at_its_line_feed(line: Seq<u8>, rest: Seq<u8>)
    requires
        !line.contains(10),
    ensures
        line_end(line + seq![10u8] + rest) == line.len(),
        line_end(line) == line.len(),
    decreases line.len(),
{
    let all = line + seq![10u8] + rest;
    if line.len() == 0 {
        assert(all.first() == 10);
    } else {
        assert(line.contains(line[0]));
        assert(all.first() == line[0]);
        assert(all.drop_first() =~= line.drop_first() + seq![10u8] + rest);
        assert forall|b: u8| line.drop_first().contains(b) implies line.contains(b) by {
            let i = choose|i: int| 0 <= i < line.drop_first().len() && line.drop_first()[i] == b;
            assert(line[i + 1] == b);
        }
        law_a_line_ends_at_its_line_feed(line.drop_first(), rest);
    }
}

/// An argument names a page, the diagnostics page only in a program that has it.
pub open spec fn names_page(arg: Seq<char>, tab: Tab, diagnostics_ui: bool) -> bool {
    match tab {
        Tab::Accounts => arg == "--initial-tab=accounts"@ || arg == "--accounts"@,
        Tab::Settings => arg == "--initial-tab=settings"@ || arg == "--settings"@,
        Tab::Diagnose => diagnostics_ui && (arg == "--initial-tab=diagnose"@ || arg
            == "--diagnose"@),
    }
}

/// The first argument that names a page decides on it; without one it is the settings.
pub proof fn law_the_first_page_that_is_named_opens(
    args: Seq<String>,
    k: int,
    tab: Tab,
    diagnostics_ui: bool,
)
    requires
        0 <= k <= args.len(),
        forall|i: int, other: Tab|
            0 <= i < k ==> !(#[trigger] names_page(args[i]@, other, diagnostics_ui)),
        k < args.len() ==> names_page(args[k]@, tab, diagnostics_ui),
    ensures
        first_tab(args, diagnostics_ui) == if k < args.len() {
            tab
        } else {
            Tab::Settings
        },
    decreases k,
{
    if k > 0 {
        assert(!names_page(args[0]@, Tab::Accounts, diagnostics_ui));
        assert(!names_page(args[0]@, Tab::Settings, diagnostics_ui));
        assert(!names_page(args[0]@, Tab::Diagnose, diagnostics_ui));
        let rest = args.drop_first();
        assert forall|i: int, other: Tab| 0 <= i < k - 1 implies !(#[trigger] names_page(
            rest[i]@,
            other,
            diagnostics_ui,
        )) by {
            assert(!names_page(args[i + 1]@, other, diagnostics_ui));
        }
        law_the_first_page_that_is_named_opens(rest, k - 1, tab, diagnostics_ui);
    } else if args.len() > 0 {
        reveal_strlit("--initial-tab=accounts");
        reveal_strlit("--initial-tab=settings");
        reveal_strlit("--initial-tab=diagnose");
        reveal_strlit("--accounts");
        reveal_strlit("--settings");
        reveal_strlit("--diagnose");
        assert("--initial-tab=accounts"@[14] == 'a' && "--accounts"@[2] == 'a');
        assert("--initial-tab=settings"@[14] == 's' && "--settings"@[2] == 's');
        assert("--initial-tab=diagnose"@[14] == 'd' && "--diagnose"@[2] == 'd');
        assert("--initial-tab=accounts"@.len() == 22 && "--accounts"@.len() == 10);
        assert("--initial-tab=settings"@.len() == 22 && "--settings"@.len() == 10);
        assert("--initial-tab=diagnose"@.len() == 22 && "--diagnose"@.len() == 10);
    }
}

/// Of several fields with one name the first counts.
pub proof fn law_the_first_field_of_a_name_counts(
    fields: Seq<(String, String)>,
    k: int,
    key: Seq<char>,
)
    requires
        0 <= k <= fields.len(),
        forall|i: int| 0 <= i < k ==> (#[trigger] fields[i]).0@ != key,
        k < fields.len() ==> fields[k].0@ == key,
    ensures
        field_value(fields, key) == if k < fields.len() {
            Some(fields[k].1@)
        } else {
            None
        },
    decreases k,
{
    if k > 0 {
        assert(fields[0].0@ != key);
        let rest = fields.drop_first();
        assert forall|i: int| 0 <= i < k - 1 implies (#[trigger] rest[i]).0@ != key by {
            assert(fields[i + 1].0@ != key);
        }
        law_the_first_field_of_a_name_counts(rest, k - 1, key);
    }
}

/// What the menu says of an attempt: the outcome of its check, where there was one;
/// otherwise that it was submitted, or why it failed, as far as that fits.
pub proof fn law_what_the_menu_says(state: Seq<char>, reason: Seq<char>, success: bool)
    ensures
        result_label(Some("authenticated"@), success, Some(reason)) == "authenticated"@,
        result_label(Some("still_prompt"@), success, Some(reason)) == "still prompt"@,
        result_label(Some("prompt_mismatch"@), success, Some(reason)) == "prompt mismatch"@,
        result_label(Some("prompt_gone_unknown"@), success, Some(reason)) == "prompt gone"@,
        result_label(None, true, Some(reason)) == "submitted"@,
        result_label(None, false, None) == "failed"@,
        result_label(None, false, Some(Seq::<char>::empty())) == "failed"@,
        0 < reason.len() <= 48 ==> result_label(None, false, Some(reason)) == reason,
        reason.len() > 48 ==> result_label(None, false, Some(reason)) == reason.take(48),
        state != "authenticated"@ && state != "still_prompt"@ && state != "prompt_mismatch"@
            && state != "prompt_gone_unknown"@ ==> result_label(Some(state), success, Some(reason))
            == result_label(None, success, Some(reason)),
{
    reveal_strlit("authenticated");
    reveal_strlit("still_prompt");
    reveal_strlit("prompt_mismatch");
    reveal_strlit("prompt_gone_unknown");
    assert("authenticated"@.len() == 13);
    assert("still_prompt"@.len() == 12);
    assert("prompt_mismatch"@.len() == 15);
    assert("prompt_gone_unknown"@.len() == 19);
}

/// What the monitor is shown as: stopped exactly where it is not meant to run, and running
/// exactly where it is and does.
pub proof fn law_what_the_monitor_is_shown_as(status: WorkerStatus, intent: bool)
    ensures
        control_state(status, intent) == MonitorControlState::Stopped <==> !intent,
        control_state(status, intent) == MonitorControlState::Running <==> intent && status
            == WorkerStatus::Running,
{
}

} // verus!
