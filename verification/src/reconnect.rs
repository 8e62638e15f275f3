//! Restarting the application, step by step and with a guard between the steps.

#[allow(unused_imports)]
use crate::collector::{stderr_text, utf8_lossy};
use crate::collector::{lossy_text, redacted_stderr};
#[allow(unused_imports)]
use crate::fill::guard_view;
#[allow(unused_imports)]
use crate::text::{has_part, trimmed};
use crate::text::{contains_part, is_blank, to_chars};
#[allow(unused_imports)]
use crate::waiting::elapsed;
use crate::waiting::elapsed_since;
#[allow(unused_imports)]
use crate::text::{lemma_trimmed_empty, whitespace};
use vstd::prelude::*;
#[allow(unused_imports)]
use vstd::string::StringExecFns;

verus! {

pub const RECONNECT_POLL_MS: u64 = 100;

pub const COMMAND_POLL_MS: u64 = 25;

pub const SCRIPT_TIMEOUT_MS: u64 = 5_000;

pub const OPEN_TIMEOUT_MS: u64 = 5_000;

pub const KILL_TIMEOUT_MS: u64 = 2_000;

// ---------------------------------------------------------------------------
// Outside commands
// ---------------------------------------------------------------------------

/// What to do about a command that was started.
#[derive(Debug, Clone, Copy, PartialEq, Eq, Structural)]
pub enum CommandStep {
    Collect,
    Kill,
    Sleep(u64),
}

/// What to do about a command: take its output once it is over, kill it once its
/// time is up.
pub fn run_command_with_timeout(exited: bool, started: u64, timeout: u64, now: u64) -> (out:
    CommandStep)
    ensures
        out == if exited {
            CommandStep::Collect
        } else if elapsed(started, now) >= timeout {
            CommandStep::Kill
        } else {
            CommandStep::Sleep(COMMAND_POLL_MS)
        },
{
    if exited {
        CommandStep::Collect
    } else if elapsed_since(started, now) >= timeout {
        CommandStep::Kill
    } else {
        CommandStep::Sleep(COMMAND_POLL_MS)
    }
}

/// What a command left behind.
#[derive(Debug, Clone)]
pub struct CommandOutput {
    pub success: bool,
    pub stdout: Vec<u8>,
    pub stderr: Vec<u8>,
}

/// The processes that a script is made for. Without a trusted one there is no script.
pub fn script_targets(pids: Vec<i32>) -> (out: Result<Vec<i32>, String>)
    ensures
        match out {
            Ok(kept) => pids@.len() > 0 && kept@ == pids@,
            Err(why) => pids@.len() == 0 && why@
                == "No trusted Microsoft Windows App process is running"@,
        },
{
    if pids.len() == 0 {
        Err("No trusted Microsoft Windows App process is running".to_owned())
    } else {
        Ok(pids)
    }
}

/// The script clicked a button: it succeeded and said which.
pub open spec fn clicked(success: bool, stdout: Seq<char>) -> bool {
    success && trimmed(stdout).len() > 0
}

/// Whether the script that clicks a button clicked one, by what it printed.
pub fn click_succeeded(success: bool, stdout: &str) -> (r: bool)
    ensures
        r == clicked(success, stdout@),
{
    success && !is_blank(stdout)
}

/// Whether the reconnect button was clicked, or why not.
pub fn click_reconnect_result(app_name: &str, output: &CommandOutput) -> (out: Result<(), String>)
    ensures
        match out {
            Ok(_) => clicked(output.success, utf8_lossy(output.stdout@)),
            Err(why) => !clicked(output.success, utf8_lossy(output.stdout@)) && why@
                == "Reconnect button not found in "@ + app_name@ + ": "@ + stderr_text(output.stderr@.len() > 0),
        },
{
    let stdout: String = lossy_text(&output.stdout);
    if click_succeeded(output.success, stdout.as_str()) {
        return Ok(());
    }
    let mut why: String = "Reconnect button not found in ".to_owned();
    why.append(app_name);
    why.append(": ");
    why.append(redacted_stderr(output.stderr.len() > 0));
    Err(why)
}

/// Whether the script that closes a dialog closed one, by what it printed.
pub fn close_clicked(stdout: &str) -> (r: bool)
    ensures
        r == has_part(stdout@, "clicked"@),
{
    let chars: Vec<char> = to_chars(stdout);
    let part: Vec<char> = to_chars("clicked");
    contains_part(&chars, &part)
}

/// Whether a dialog was closed, or why the script failed.
pub fn close_dialogs_result(output: &CommandOutput) -> (out: Result<bool, String>)
    ensures
        match out {
            Ok(closed) => output.success && closed == has_part(
                utf8_lossy(output.stdout@),
                "clicked"@,
            ),
            Err(why) => !output.success && why@ == "Disconnect dialog close failed: "@
                + stderr_text(output.stderr@.len() > 0),
        },
{
    if !output.success {
        let mut why: String = "Disconnect dialog close failed: ".to_owned();
        why.append(redacted_stderr(output.stderr.len() > 0));
        return Err(why);
    }
    let stdout: String = lossy_text(&output.stdout);
    Ok(close_clicked(stdout.as_str()))
}

/// Whether the application was opened, or why not.
pub fn open_result(app_name: &str, output: &CommandOutput) -> (out: Result<(), String>)
    ensures
        match out {
            Ok(_) => output.success,
            Err(why) => !output.success && why@ == "Failed to open "@ + app_name@ + ": "@
                + stderr_text(output.stderr@.len() > 0),
        },
{
    if output.success {
        return Ok(());
    }
    let mut why: String = "Failed to open ".to_owned();
    why.append(app_name);
    why.append(": ");
    why.append(redacted_stderr(output.stderr.len() > 0));
    Err(why)
}

// ---------------------------------------------------------------------------
// The sequence
// ---------------------------------------------------------------------------

/// How far the sequence is.
#[derive(Debug, Clone, Copy, PartialEq, Eq, Structural)]
pub enum ReconnectStage {
    Start,
    CloseDialogs,
    CloseGuard,
    List,
    /// Look again whether the process at this place of the list is still trusted.
    Recheck(usize),
    Kill(usize),
    KillGuard,
    StartWait,
    WaitGuard { started: u64 },
    Pause { started: u64 },
    LastGuard,
    Open,
    Done,
    Failed,
}

/// What the sequence does next.
#[derive(Debug, Clone, Copy, PartialEq, Eq, Structural)]
pub enum ReconnectAction {
    CheckGuard,
    CloseDialogs,
    ListTargets,
    Kill { pid: i32 },
    ReadClock,
    Sleep { ms: u64 },
    OpenApp,
    Stop,
}

/// A restart of the application.
#[derive(Debug)]
pub struct ReconnectRun {
    /// Whether dialogs are closed first.
    pub close_dialogs: bool,
    /// Whether dialogs and processes can be handled on this system.
    pub handles_processes: bool,
    pub delay_ms: u64,
    pub pids: Vec<i32>,
    pub stage: ReconnectStage,
    pub error: Option<String>,
}

#[verifier::ext_equal]
pub struct ReconnectView {
    pub close_dialogs: bool,
    pub handles_processes: bool,
    pub delay_ms: u64,
    pub pids: Seq<i32>,
    pub stage: ReconnectStage,
    pub error: Option<Seq<char>>,
}

impl DeepView for ReconnectRun {
    type V = ReconnectView;

    open spec fn deep_view(&self) -> ReconnectView {
        ReconnectView {
            close_dialogs: self.close_dialogs,
            handles_processes: self.handles_processes,
            delay_ms: self.delay_ms,
            pids: self.pids@,
            stage: self.stage,
            error: self.error.deep_view(),
        }
    }
}

/// What came of an action of the sequence.
pub enum ReconnectEvent {
    Guard(Result<(), Seq<char>>),
    DialogsTried,
    Listed(Result<Seq<i32>, Seq<char>>),
    Killed(Result<(), Seq<char>>),
    Clock(u64),
    Opened(Result<(), Seq<char>>),
}

pub open spec fn reconnect_at(r: ReconnectView, stage: ReconnectStage) -> ReconnectView {
    ReconnectView { stage, ..r }
}

pub open spec fn reconnect_failed(r: ReconnectView, why: Seq<char>) -> ReconnectView {
    ReconnectView { stage: ReconnectStage::Failed, error: Some(why), ..r }
}

/// The sequence goes on to `stage` where the step before went well.
pub open spec fn reconnect_if(
    r: ReconnectView,
    result: Result<(), Seq<char>>,
    stage: ReconnectStage,
) -> ReconnectView {
    match result {
        Err(why) => reconnect_failed(r, why),
        Ok(_) => reconnect_at(r, stage),
    }
}

/// Where the sequence goes after its first guard.
pub open spec fn after_start(r: ReconnectView) -> ReconnectStage {
    if !r.handles_processes {
        ReconnectStage::KillGuard
    } else if r.close_dialogs {
        ReconnectStage::CloseDialogs
    } else {
        ReconnectStage::List
    }
}

/// Where the sequence goes for the process at place `i`.
pub open spec fn next_target(pids: Seq<i32>, i: int) -> ReconnectStage {
    if i < pids.len() {
        ReconnectStage::Recheck(i as usize)
    } else {
        ReconnectStage::KillGuard
    }
}

/// Where the sequence goes while it waits.
pub open spec fn wait_stage(r: ReconnectView, started: u64, now: u64) -> ReconnectStage {
    if elapsed(started, now) < r.delay_ms {
        ReconnectStage::WaitGuard { started }
    } else {
        ReconnectStage::LastGuard
    }
}

/// The sequence after an event. An event out of turn changes nothing.
pub open spec fn reconnect_next(r: ReconnectView, e: ReconnectEvent) -> ReconnectView {
    match (r.stage, e) {
        (ReconnectStage::Start, ReconnectEvent::Guard(g)) => reconnect_if(r, g, after_start(r)),
        (ReconnectStage::CloseDialogs, ReconnectEvent::DialogsTried) => reconnect_at(
            r,
            ReconnectStage::CloseGuard,
        ),
        (ReconnectStage::CloseGuard, ReconnectEvent::Guard(g)) => reconnect_if(
            r,
            g,
            ReconnectStage::List,
        ),
        (ReconnectStage::List, ReconnectEvent::Listed(listed)) => match listed {
            Err(why) => reconnect_failed(r, why),
            Ok(pids) => ReconnectView { pids, stage: next_target(pids, 0), ..r },
        },
        (ReconnectStage::Recheck(i), ReconnectEvent::Listed(listed)) => match listed {
            Err(why) => reconnect_failed(r, why),
            Ok(pids) => if i < r.pids.len() && pids.contains(r.pids[i as int]) {
                reconnect_at(r, ReconnectStage::Kill(i))
            } else {
                reconnect_at(r, next_target(r.pids, i + 1))
            },
        },
        (ReconnectStage::Kill(i), ReconnectEvent::Killed(k)) => reconnect_if(
            r,
            k,
            next_target(r.pids, i + 1),
        ),
        (ReconnectStage::KillGuard, ReconnectEvent::Guard(g)) => reconnect_if(
            r,
            g,
            ReconnectStage::StartWait,
        ),
        (ReconnectStage::StartWait, ReconnectEvent::Clock(now)) => reconnect_at(
            r,
            wait_stage(r, now, now),
        ),
        (ReconnectStage::WaitGuard { started }, ReconnectEvent::Guard(g)) => reconnect_if(
            r,
            g,
            ReconnectStage::Pause { started },
        ),
        (ReconnectStage::Pause { started }, ReconnectEvent::Clock(now)) => reconnect_at(
            r,
            wait_stage(r, started, now),
        ),
        (ReconnectStage::LastGuard, ReconnectEvent::Guard(g)) => reconnect_if(
            r,
            g,
            ReconnectStage::Open,
        ),
        (ReconnectStage::Open, ReconnectEvent::Opened(o)) => reconnect_if(
            r,
            o,
            ReconnectStage::Done,
        ),
        _ => r,
    }
}

/// What the sequence does next.
pub open spec fn reconnect_action(r: ReconnectView) -> ReconnectAction {
    match r.stage {
        ReconnectStage::Start | ReconnectStage::CloseGuard | ReconnectStage::KillGuard
        | ReconnectStage::WaitGuard { .. } | ReconnectStage::LastGuard => {
            ReconnectAction::CheckGuard
        },
        ReconnectStage::CloseDialogs => ReconnectAction::CloseDialogs,
        ReconnectStage::List | ReconnectStage::Recheck(_) => ReconnectAction::ListTargets,
        ReconnectStage::Kill(i) => ReconnectAction::Kill { pid: r.pids[i as int] },
        ReconnectStage::StartWait => ReconnectAction::ReadClock,
        ReconnectStage::Pause { .. } => ReconnectAction::Sleep { ms: RECONNECT_POLL_MS },
        ReconnectStage::Open => ReconnectAction::OpenApp,
        ReconnectStage::Done | ReconnectStage::Failed => ReconnectAction::Stop,
    }
}

/// The place that the sequence is at is one of the list.
pub open spec fn reconnect_wf(r: ReconnectView) -> bool {
    &&& r.pids.len() <= usize::MAX
    &&& r.stage matches ReconnectStage::Recheck(i) ==> i < r.pids.len()
    &&& r.stage matches ReconnectStage::Kill(i) ==> i < r.pids.len()
    &&& r.stage is Failed ==> r.error is Some
}

fn contains_pid(pids: &Vec<i32>, pid: i32) -> (r: bool)
    ensures
        r == pids@.contains(pid),
{
    let mut i: usize = 0;
    while i < pids.len()
        invariant
            i <= pids@.len(),
            forall|j: int| 0 <= j < i ==> #[trigger] pids@[j] != pid,
        decreases pids@.len() - i,
    {
        if pids[i] == pid {
            return true;
        }
        i += 1;
    }
    false
}

pub open spec fn listed_view(r: Result<Vec<i32>, String>) -> Result<Seq<i32>, Seq<char>> {
    match r {
        Ok(pids) => Ok(pids@),
        Err(why) => Err(why@),
    }
}

impl ReconnectRun {
    fn sequence(close_dialogs: bool, handles_processes: bool, delay_ms: u64) -> (out: Self)
        ensures
            out.deep_view() == (ReconnectView {
                close_dialogs,
                handles_processes,
                delay_ms,
                pids: Seq::empty(),
                stage: ReconnectStage::Start,
                error: None,
            }),
            reconnect_wf(out.deep_view()),
    {
        let out: ReconnectRun = ReconnectRun {
            close_dialogs,
            handles_processes,
            delay_ms,
            pids: Vec::new(),
            stage: ReconnectStage::Start,
            error: None,
        };
        assert(out.deep_view().pids =~= Seq::empty());
        out
    }

    /// A restart that closes the dialogs of a lost connection first.
    pub fn reconnect_guarded(handles_processes: bool, delay_ms: u64) -> (out: Self)
        ensures
            out.deep_view() == (ReconnectView {
                close_dialogs: true,
                handles_processes,
                delay_ms,
                pids: Seq::empty(),
                stage: ReconnectStage::Start,
                error: None,
            }),
            reconnect_wf(out.deep_view()),
    {
        ReconnectRun::sequence(true, handles_processes, delay_ms)
    }

    /// A restart that leaves dialogs alone.
    pub fn restart_guarded(handles_processes: bool, delay_ms: u64) -> (out: Self)
        ensures
            out.deep_view() == (ReconnectView {
                close_dialogs: false,
                handles_processes,
                delay_ms,
                pids: Seq::empty(),
                stage: ReconnectStage::Start,
                error: None,
            }),
            reconnect_wf(out.deep_view()),
    {
        ReconnectRun::sequence(false, handles_processes, delay_ms)
    }

    pub fn action(&self) -> (out: ReconnectAction)
        requires
            reconnect_wf(self.deep_view()),
        ensures
            out == reconnect_action(self.deep_view()),
            out == match self.stage {
                ReconnectStage::Start | ReconnectStage::CloseGuard | ReconnectStage::KillGuard
                | ReconnectStage::WaitGuard { .. } | ReconnectStage::LastGuard => {
                    ReconnectAction::CheckGuard
                },
                ReconnectStage::CloseDialogs => ReconnectAction::CloseDialogs,
                ReconnectStage::List | ReconnectStage::Recheck(_) => ReconnectAction::ListTargets,
                ReconnectStage::Kill(i) => ReconnectAction::Kill { pid: self.pids@[i as int] },
                ReconnectStage::StartWait => ReconnectAction::ReadClock,
                ReconnectStage::Pause { .. } => ReconnectAction::Sleep { ms: RECONNECT_POLL_MS },
                ReconnectStage::Open => ReconnectAction::OpenApp,
                ReconnectStage::Done | ReconnectStage::Failed => ReconnectAction::Stop,
            },
    {
        match self.stage {
            ReconnectStage::Start | ReconnectStage::CloseGuard | ReconnectStage::KillGuard
            | ReconnectStage::WaitGuard { .. } | ReconnectStage::LastGuard => {
                ReconnectAction::CheckGuard
            },
            ReconnectStage::CloseDialogs => ReconnectAction::CloseDialogs,
            ReconnectStage::List | ReconnectStage::Recheck(_) => ReconnectAction::ListTargets,
            ReconnectStage::Kill(i) => ReconnectAction::Kill { pid: self.pids[i] },
            ReconnectStage::StartWait => ReconnectAction::ReadClock,
            ReconnectStage::Pause { .. } => ReconnectAction::Sleep { ms: RECONNECT_POLL_MS },
            ReconnectStage::Open => ReconnectAction::OpenApp,
            ReconnectStage::Done | ReconnectStage::Failed => ReconnectAction::Stop,
        }
    }

    fn go_on(&mut self, result: Result<(), String>, stage: ReconnectStage)
        ensures
            final(self).deep_view() == reconnect_if(
                old(self).deep_view(),
                guard_view(result),
                stage,
            ),
    {
        match result {
            Ok(_) => {
                self.stage = stage;
            },
            Err(why) => {
                self.stage = ReconnectStage::Failed;
                self.error = Some(why);
            },
        }
    }

    /// What the guard said.
    pub fn on_guard(&mut self, guard: Result<(), String>)
        requires
            reconnect_wf(old(self).deep_view()),
        ensures
            final(self).deep_view() == reconnect_next(
                old(self).deep_view(),
                ReconnectEvent::Guard(guard_view(guard)),
            ),
            reconnect_wf(final(self).deep_view()),
    {
        match self.stage {
            ReconnectStage::Start => {
                let stage: ReconnectStage = if !self.handles_processes {
                    ReconnectStage::KillGuard
                } else if self.close_dialogs {
                    ReconnectStage::CloseDialogs
                } else {
                    ReconnectStage::List
                };
                self.go_on(guard, stage);
            },
            ReconnectStage::CloseGuard => {
                self.go_on(guard, ReconnectStage::List);
            },
            ReconnectStage::KillGuard => {
                self.go_on(guard, ReconnectStage::StartWait);
            },
            ReconnectStage::WaitGuard { started } => {
                self.go_on(guard, ReconnectStage::Pause { started });
            },
            ReconnectStage::LastGuard => {
                self.go_on(guard, ReconnectStage::Open);
            },
            _ => {},
        }
    }

    /// The dialogs were looked for; a failure to close them does not matter.
    pub fn on_dialogs_tried(&mut self)
        requires
            reconnect_wf(old(self).deep_view()),
        ensures
            final(self).deep_view() == reconnect_next(
                old(self).deep_view(),
                ReconnectEvent::DialogsTried,
            ),
            reconnect_wf(final(self).deep_view()),
    {
        if let ReconnectStage::CloseDialogs = self.stage {
            self.stage = ReconnectStage::CloseGuard;
        }
    }

    /// The trusted processes that run.
    pub fn on_listed(&mut self, listed: Result<Vec<i32>, String>)
        requires
            reconnect_wf(old(self).deep_view()),
        ensures
            final(self).deep_view() == reconnect_next(
                old(self).deep_view(),
                ReconnectEvent::Listed(listed_view(listed)),
            ),
            reconnect_wf(final(self).deep_view()),
    {
        match self.stage {
            ReconnectStage::List => match listed {
                Ok(pids) => {
                    self.stage = if pids.len() > 0 {
                        ReconnectStage::Recheck(0)
                    } else {
                        ReconnectStage::KillGuard
                    };
                    self.pids = pids;
                },
                Err(why) => {
                    self.stage = ReconnectStage::Failed;
                    self.error = Some(why);
                },
            },
            ReconnectStage::Recheck(i) => match listed {
                Ok(pids) => {
                    if contains_pid(&pids, self.pids[i]) {
                        self.stage = ReconnectStage::Kill(i);
                    } else {
                        self.stage = if i + 1 < self.pids.len() {
                            ReconnectStage::Recheck(i + 1)
                        } else {
                            ReconnectStage::KillGuard
                        };
                    }
                },
                Err(why) => {
                    self.stage = ReconnectStage::Failed;
                    self.error = Some(why);
                },
            },
            _ => {},
        }
    }

    /// How the attempt to end a process went; that it ended nothing does not matter.
    pub fn on_killed(&mut self, killed: Result<(), String>)
        requires
            reconnect_wf(old(self).deep_view()),
        ensures
            final(self).deep_view() == reconnect_next(
                old(self).deep_view(),
                ReconnectEvent::Killed(guard_view(killed)),
            ),
            reconnect_wf(final(self).deep_view()),
    {
        if let ReconnectStage::Kill(i) = self.stage {
            let stage: ReconnectStage = if i + 1 < self.pids.len() {
                ReconnectStage::Recheck(i + 1)
            } else {
                ReconnectStage::KillGuard
            };
            self.go_on(killed, stage);
        }
    }

    /// The time, at the start of the wait or after a pause of it.
    pub fn on_clock(&mut self, now: u64)
        requires
            reconnect_wf(old(self).deep_view()),
        ensures
            final(self).deep_view() == reconnect_next(
                old(self).deep_view(),
                ReconnectEvent::Clock(now),
            ),
            reconnect_wf(final(self).deep_view()),
    {
        let started: u64 = match self.stage {
            ReconnectStage::StartWait => now,
            ReconnectStage::Pause { started } => started,
            _ => {
                return;
            },
        };
        self.stage = if elapsed_since(started, now) < self.delay_ms {
            ReconnectStage::WaitGuard { started }
        } else {
            ReconnectStage::LastGuard
        };
    }

    /// Whether the application was opened.
    pub fn on_opened(&mut self, opened: Result<(), String>)
        requires
            reconnect_wf(old(self).deep_view()),
        ensures
            final(self).deep_view() == reconnect_next(
                old(self).deep_view(),
                ReconnectEvent::Opened(guard_view(opened)),
            ),
            reconnect_wf(final(self).deep_view()),
    {
        if let ReconnectStage::Open = self.stage {
            self.go_on(opened, ReconnectStage::Done);
        }
    }

    /// How the sequence ended; `None` while it is not over.
    pub fn finish(self) -> (out: Option<Result<(), String>>)
        requires
            reconnect_wf(self.deep_view()),
        ensures
            match self.stage {
                ReconnectStage::Done => out matches Some(Ok(_)),
                ReconnectStage::Failed => out matches Some(Err(why)) && Some(why@)
                    == self.deep_view().error,
                _ => out is None,
            },
    {
        match self.stage {
            ReconnectStage::Done => Some(Ok(())),
            ReconnectStage::Failed => match self.error {
                Some(why) => Some(Err(why)),
                None => None,
            },
            _ => None,
        }
    }
}

/// A process is ended only right after it was found among the trusted ones again,
/// and the application is opened only right after the guard agreed.
pub proof fn law_restart_is_guarded(r: ReconnectView, e: ReconnectEvent)
    requires
        reconnect_wf(r),
        r.stage != reconnect_next(r, e).stage,
    ensures
        reconnect_next(r, e).stage matches ReconnectStage::Kill(i) ==> {
            &&& r.stage == ReconnectStage::Recheck(i)
            &&& e matches ReconnectEvent::Listed(Ok(pids)) && pids.contains(r.pids[i as int])
        },
        reconnect_next(r, e).stage is Open ==> r.stage is LastGuard && (
        e matches ReconnectEvent::Guard(Ok(_))),
        reconnect_next(r, e).stage is CloseDialogs ==> r.stage is Start && r.close_dialogs && (
        e matches ReconnectEvent::Guard(Ok(_))),
        reconnect_next(r, e).stage is Pause ==> r.stage is WaitGuard && (
        e matches ReconnectEvent::Guard(Ok(_))),
        r.stage is CloseDialogs ==> reconnect_next(r, e).stage is CloseGuard,
        reconnect_next(r, e).stage is Done ==> r.stage is Open,
{
}

// ---------------------------------------------------------------------------
// What a restart comes to
// ---------------------------------------------------------------------------

pub open spec fn reconnect_run(r: ReconnectView, es: Seq<ReconnectEvent>) -> ReconnectView
    decreases es.len(),
{
    if es.len() == 0 {
        r
    } else {
        reconnect_next(reconnect_run(r, es.drop_last()), es.last())
    }
}

/// A restart that has not begun.
pub open spec fn reconnect_fresh(r: ReconnectView) -> bool {
    r.stage is Start && r.error is None && r.pids.len() == 0
}

pub open spec fn clock_at(es: Seq<ReconnectEvent>, i: int) -> Option<u64> {
    match es[i] {
        ReconnectEvent::Clock(now) => Some(now),
        _ => None,
    }
}

/// Where the clock was read first, and last so far.
proof fn lemma_wait(r: ReconnectView, es: Seq<ReconnectEvent>) -> (out: (int, int))
    requires
        reconnect_fresh(r),
    ensures
        ({
            let after = reconnect_run(r, es);
            let (first, last) = out;
            &&& after.delay_ms == r.delay_ms
            &&& after.stage is WaitGuard || after.stage is Pause ==> r.delay_ms > 0
            &&& after.stage is WaitGuard || after.stage is Pause || after.stage is LastGuard
                || after.stage is Open || after.stage is Done ==> {
                &&& 0 <= first <= last < es.len()
                &&& reconnect_action(reconnect_run(r, es.take(first)))
                    == ReconnectAction::ReadClock
                &&& clock_at(es, first) is Some
                &&& clock_at(es, last) is Some
                &&& after.stage matches ReconnectStage::WaitGuard { started } ==> started
                    == clock_at(es, first)->0
                &&& after.stage matches ReconnectStage::Pause { started } ==> started
                    == clock_at(es, first)->0
                &&& after.stage is LastGuard || after.stage is Open || after.stage is Done
                    ==> clock_at(es, last)->0 - clock_at(es, first)->0 >= r.delay_ms
            }
        }),
    decreases es.len(),
{
    if es.len() == 0 {
        (0, 0)
    } else {
        let before = es.drop_last();
        let n = es.len() - 1;
        let (first, last) = lemma_wait(r, before);
        let was = reconnect_run(r, before);
        let e = es.last();
        assert(es.take(n) =~= before);
        if 0 <= first < before.len() {
            assert(es.take(first) =~= before.take(first));
            assert(es[first] == before[first]);
        }
        if 0 <= last < before.len() {
            assert(es[last] == before[last]);
        }
        match (was.stage, e) {
            (ReconnectStage::StartWait, ReconnectEvent::Clock(now)) => (n, n),
            (ReconnectStage::Pause { started }, ReconnectEvent::Clock(now)) => (first, n),
            _ => (first, last),
        }
    }
}

/// The application is opened only after the delay: some later reading of the clock is at
/// least the delay after the first one.
pub proof fn law_opens_only_after_the_delay(r: ReconnectView, es: Seq<ReconnectEvent>) -> (out: (
    int,
    int,
))
    requires
        reconnect_fresh(r),
        reconnect_action(reconnect_run(r, es)) == ReconnectAction::OpenApp,
    ensures
        ({
            let (first, last) = out;
            &&& 0 <= first <= last < es.len()
            &&& reconnect_action(reconnect_run(r, es.take(first))) == ReconnectAction::ReadClock
            &&& es[first] is Clock
            &&& es[last] is Clock
            &&& es[last]->Clock_0 - es[first]->Clock_0 >= r.delay_ms
        }),
{
    lemma_wait(r, es)
}

/// The sequence that has read the clock at `started`, and after that, each time with the
/// guard's consent, at `times`.
pub open spec fn waited(r: ReconnectView, started: u64, times: Seq<u64>) -> ReconnectView
    decreases times.len(),
{
    if times.len() == 0 {
        reconnect_next(r, ReconnectEvent::Clock(started))
    } else {
        reconnect_next(
            reconnect_next(
                waited(r, started, times.drop_last()),
                ReconnectEvent::Guard(Ok(())),
            ),
            ReconnectEvent::Clock(times.last()),
        )
    }
}

/// The last reading of the clock.
pub open spec fn last_read(started: u64, times: Seq<u64>) -> u64 {
    if times.len() == 0 {
        started
    } else {
        times.last()
    }
}

proof fn lemma_waited(r: ReconnectView, started: u64, times: Seq<u64>)
    requires
        reconnect_action(r) == ReconnectAction::ReadClock,
        forall|i: int| 0 <= i < times.len() - 1 ==> #[trigger] times[i] - started < r.delay_ms,
        times.len() > 0 ==> 0 < r.delay_ms,
    ensures
        waited(r, started, times) == (ReconnectView {
            stage: if last_read(started, times) - started < r.delay_ms && r.delay_ms > 0 {
                ReconnectStage::WaitGuard { started }
            } else {
                ReconnectStage::LastGuard
            },
            ..r
        }),
    decreases times.len(),
{
    if times.len() > 0 {
        let before = times.drop_last();
        assert(forall|i: int| 0 <= i < before.len() ==> before[i] == times[i]);
        lemma_waited(r, started, before);
        if before.len() > 0 {
            assert(times[times.len() - 2] - started < r.delay_ms);
        }
    }
}

/// While less than the delay has gone by, the guard is asked and then a tenth of a second
/// is slept; once the delay has gone by, the guard is asked and then the application is
/// opened.
pub proof fn law_waits_for_the_delay(r: ReconnectView, started: u64, times: Seq<u64>)
    requires
        reconnect_action(r) == ReconnectAction::ReadClock,
        forall|i: int| 0 <= i < times.len() - 1 ==> #[trigger] times[i] - started < r.delay_ms,
        times.len() > 0 ==> 0 < r.delay_ms,
    ensures
        ({
            let w = waited(r, started, times);
            let gone = last_read(started, times) - started >= r.delay_ms || r.delay_ms == 0;
            &&& reconnect_action(w) == ReconnectAction::CheckGuard
            &&& reconnect_action(reconnect_next(w, ReconnectEvent::Guard(Ok(())))) == if gone {
                ReconnectAction::OpenApp
            } else {
                ReconnectAction::Sleep { ms: 100 }
            }
        }),
{
    lemma_waited(r, started, times);
}

/// The processes that a restart ends, with the guard's consent and where each is trusted
/// still: after the list, each of them in order, and then the wait.
pub open spec fn killed_first(r: ReconnectView, pids: Seq<i32>, n: int) -> ReconnectView
    decreases n,
{
    if n <= 0 {
        reconnect_next(r, ReconnectEvent::Listed(Ok(pids)))
    } else {
        reconnect_next(
            reconnect_next(killed_first(r, pids, n - 1), ReconnectEvent::Listed(Ok(pids))),
            ReconnectEvent::Killed(Ok(())),
        )
    }
}

proof fn lemma_killed_first(r: ReconnectView, pids: Seq<i32>, n: int)
    requires
        r.stage is List,
        0 <= n <= pids.len() <= usize::MAX,
    ensures
        killed_first(r, pids, n) == (ReconnectView { pids, stage: next_target(pids, n), ..r }),
    decreases n,
{
    if n > 0 {
        lemma_killed_first(r, pids, n - 1);
        assert(pids.contains(pids[n - 1]));
    }
}

/// Every trusted process that stays trusted is ended, in the order of the list; after the
/// last, and with the guard's consent, the clock is read.
pub proof fn law_every_trusted_process_is_ended(r: ReconnectView, pids: Seq<i32>, n: int)
    requires
        r.stage is List,
        0 <= n <= pids.len() <= usize::MAX,
    ensures
        n < pids.len() ==> {
            let k = killed_first(r, pids, n);
            &&& reconnect_action(k) == ReconnectAction::ListTargets
            &&& reconnect_action(reconnect_next(k, ReconnectEvent::Listed(Ok(pids))))
                == (ReconnectAction::Kill { pid: pids[n] })
        },
        n == pids.len() ==> {
            let k = killed_first(r, pids, n);
            &&& reconnect_action(k) == ReconnectAction::CheckGuard
            &&& reconnect_action(reconnect_next(k, ReconnectEvent::Guard(Ok(()))))
                == ReconnectAction::ReadClock
        },
{
    lemma_killed_first(r, pids, n);
    if n < pids.len() {
        assert(pids.contains(pids[n]));
    }
}

/// A process that is no longer among the trusted ones is passed over.
pub proof fn law_stale_process_is_passed_over(r: ReconnectView, pids: Seq<i32>)
    requires
        reconnect_wf(r),
        r.stage is Recheck,
        !pids.contains(r.pids[r.stage->Recheck_0 as int]),
    ensures
        !(reconnect_action(reconnect_next(r, ReconnectEvent::Listed(Ok(pids)))) is Kill),
        reconnect_next(r, ReconnectEvent::Listed(Ok(pids))).error == r.error,
        reconnect_action(reconnect_next(r, ReconnectEvent::Listed(Ok(pids))))
            != ReconnectAction::Stop,
{
}

/// A restart begins with the guard. Then come the dialogs, where they are to be closed, and
/// another guard; then the list of processes. On a system where processes cannot be
/// handled, nothing but the wait and the opening is left.
pub proof fn law_restart_begins_in_order(r: ReconnectView)
    requires
        reconnect_fresh(r),
    ensures
        reconnect_action(r) == ReconnectAction::CheckGuard,
        ({
            let ok = ReconnectEvent::Guard(Ok(()));
            let g = reconnect_next(r, ok);
            &&& !r.handles_processes ==> reconnect_action(reconnect_next(g, ok))
                == ReconnectAction::ReadClock
            &&& r.handles_processes && !r.close_dialogs ==> reconnect_action(g)
                == ReconnectAction::ListTargets && g.stage is List
            &&& r.handles_processes && r.close_dialogs ==> {
                let d = reconnect_next(g, ReconnectEvent::DialogsTried);
                &&& reconnect_action(g) == ReconnectAction::CloseDialogs
                &&& reconnect_action(d) == ReconnectAction::CheckGuard
                &&& reconnect_action(reconnect_next(d, ok)) == ReconnectAction::ListTargets
                &&& reconnect_next(d, ok).stage is List
            }
        }),
{
}

/// Whatever refuses or fails ends the sequence with its own reason; an application that
/// was opened ends it well.
pub proof fn law_first_failure_ends_a_restart(r: ReconnectView, why: Seq<char>)
    requires
        reconnect_wf(r),
    ensures
        reconnect_action(r) == ReconnectAction::CheckGuard ==> {
            let f = reconnect_next(r, ReconnectEvent::Guard(Err(why)));
            reconnect_action(f) == ReconnectAction::Stop && f.stage is Failed && f.error == Some(
                why,
            )
        },
        reconnect_action(r) == ReconnectAction::ListTargets ==> {
            let f = reconnect_next(r, ReconnectEvent::Listed(Err(why)));
            reconnect_action(f) == ReconnectAction::Stop && f.stage is Failed && f.error == Some(
                why,
            )
        },
        reconnect_action(r) is Kill ==> {
            let f = reconnect_next(r, ReconnectEvent::Killed(Err(why)));
            reconnect_action(f) == ReconnectAction::Stop && f.stage is Failed && f.error == Some(
                why,
            )
        },
        reconnect_action(r) == ReconnectAction::OpenApp ==> {
            let f = reconnect_next(r, ReconnectEvent::Opened(Err(why)));
            let o = reconnect_next(r, ReconnectEvent::Opened(Ok(())));
            &&& f.stage is Failed && f.error == Some(why)
            &&& o.stage is Done && reconnect_action(o) == ReconnectAction::Stop
        },
{
}

/// A button was clicked where the script succeeded and said something.
pub proof fn law_when_a_button_was_clicked(stdout: Seq<char>)
    ensures
        !clicked(false, stdout),
        clicked(true, stdout) <==> exists|i: int|
            0 <= i < stdout.len() && !whitespace(#[trigger] stdout[i]),
{
    lemma_trimmed_empty(stdout);
}

/// What was not asked for changes nothing: an answer counts only where it was waited for.
pub proof fn law_a_restart_takes_what_it_asked_for(r: ReconnectView, e: ReconnectEvent)
    requires
        match reconnect_action(r) {
            ReconnectAction::CheckGuard => !(e is Guard),
            ReconnectAction::CloseDialogs => !(e is DialogsTried),
            ReconnectAction::ListTargets => !(e is Listed),
            ReconnectAction::Kill { .. } => !(e is Killed),
            ReconnectAction::ReadClock => !(e is Clock),
            ReconnectAction::Sleep { .. } => !(e is Clock),
            ReconnectAction::OpenApp => !(e is Opened),
            ReconnectAction::Stop => true,
        },
    ensures
        reconnect_next(r, e) == r,
{
}

} // verus!
