//! The supervisor of the monitor and of the settings window.
//!
//! The supervisor owns no process, no lock and no clock. What it decides on is handed
//! to it, and what it wants done stands in its state and in what its methods return.

use crate::control::{
    local_ipc_command_authorized, FullUiControlRead, LocalIpcCommand, MonitorControlState,
};
#[allow(unused_imports)]
use crate::control::{authorized, control_state};
use crate::models::{duplicate_accounts, Account, AppConfig, AppSettings, Tab, WorkerStatus};
#[allow(unused_imports)]
use crate::models::{AccountView, ConfigView};
use crate::startup::StartupConfig;
#[allow(unused_imports)]
use crate::startup::StartupView;
#[allow(unused_imports)]
use crate::waiting::elapsed;
use crate::waiting::elapsed_since;
use vstd::prelude::*;

verus! {

pub const SUPERVISOR_TICK_MS: u64 = 250;

pub const ACCESSIBILITY_CHECK_INTERVAL_MS: u64 = 1_000;

pub const STORAGE_RECOVERY_RETRY_INTERVAL_MS: u64 = 1_000;

pub const SETTINGS_QUIESCENCE_TIMEOUT_MS: u64 = 15_000;

pub const FULL_UI_EXIT_CONFIRMATION_GRACE_MS: u64 = 5_000;

pub const FULL_UI_GRACEFUL_EXIT_TIMEOUT_MS: u64 = 30_000;

// ---------------------------------------------------------------------------
// The worker
// ---------------------------------------------------------------------------

/// What the worker is told.
#[derive(Debug, Clone)]
pub enum WorkerCommand {
    Start,
    Stop,
    /// Say so when everything that was told before is done.
    Quiesce { request_id: u64 },
    /// Take over a configuration, and end the pause if it is still the one that was in
    /// force when this was sent.
    ApplyConfigAndReleasePause {
        settings: AppSettings,
        accounts: Vec<Account>,
        refresh_passwords: bool,
        start_monitor: bool,
        pause_epoch: u64,
    },
}

#[verifier::ext_equal]
pub enum CommandView {
    Start,
    Stop,
    Quiesce { request_id: u64 },
    ApplyConfigAndReleasePause {
        settings: AppSettings,
        accounts: Seq<AccountView>,
        refresh_passwords: bool,
        start_monitor: bool,
        pause_epoch: u64,
    },
}

impl DeepView for WorkerCommand {
    type V = CommandView;

    open spec fn deep_view(&self) -> CommandView {
        match *self {
            WorkerCommand::Start => CommandView::Start,
            WorkerCommand::Stop => CommandView::Stop,
            WorkerCommand::Quiesce { request_id } => CommandView::Quiesce { request_id },
            WorkerCommand::ApplyConfigAndReleasePause {
                settings,
                accounts,
                refresh_passwords,
                start_monitor,
                pause_epoch,
            } => CommandView::ApplyConfigAndReleasePause {
                settings,
                accounts: accounts.deep_view(),
                refresh_passwords,
                start_monitor,
                pause_epoch,
            },
        }
    }
}

/// The pause that keeps the worker from acting. Every pause has its own number.
#[derive(Debug, Clone, Copy, PartialEq, Eq, Structural)]
pub struct WorkerPauseLatch {
    pub paused: bool,
    pub epoch: u64,
}

pub open spec fn next_number(n: u64) -> u64 {
    if n == u64::MAX {
        0
    } else {
        (n + 1) as u64
    }
}

fn number_after(n: u64) -> (out: u64)
    ensures
        out == next_number(n),
{
    if n == u64::MAX {
        0
    } else {
        n + 1
    }
}

/// A new pause.
pub open spec fn latch_paused(latch: WorkerPauseLatch) -> WorkerPauseLatch {
    WorkerPauseLatch { paused: true, epoch: next_number(latch.epoch) }
}

/// The end of a pause, if it is still in force.
pub open spec fn latch_released(latch: WorkerPauseLatch, epoch: u64) -> WorkerPauseLatch {
    if epoch == latch.epoch {
        WorkerPauseLatch { paused: false, ..latch }
    } else {
        latch
    }
}

impl WorkerPauseLatch {
    pub fn new() -> (out: Self)
        ensures
            out == (WorkerPauseLatch { paused: false, epoch: 0 }),
    {
        WorkerPauseLatch { paused: false, epoch: 0 }
    }

    /// `latch_paused`, and the number of the new pause.
    pub fn pause_with_epoch(&mut self) -> (epoch: u64)
        ensures
            *final(self) == latch_paused(*old(self)),
            epoch == final(self).epoch,
    {
        self.paused = true;
        self.epoch = number_after(self.epoch);
        self.epoch
    }

    /// `latch_released`, computed.
    pub fn release(&mut self, epoch: u64)
        ensures
            *final(self) == latch_released(*old(self), epoch),
    {
        if epoch == self.epoch {
            self.paused = false;
        }
    }
}

/// A command that was sent under one pause does not end a later one.
pub proof fn law_a_newer_pause_wins(latch: WorkerPauseLatch)
    ensures
        latch_released(latch_paused(latch), latch.epoch) == latch_paused(latch),
        latch_released(latch_paused(latch), latch_paused(latch).epoch).paused == false,
{
}

// ---------------------------------------------------------------------------
// The state
// ---------------------------------------------------------------------------

/// A settings window that is to be opened once the worker is quiet.
#[derive(Debug, Clone, Copy, PartialEq, Eq, Structural)]
pub struct PendingSettingsLaunch {
    pub request_id: u64,
    pub initial_tab: Tab,
    pub pause_monitor: bool,
    pub deadline: u64,
}

/// A page that the open settings window was asked to show.
#[derive(Debug, Clone, Copy, PartialEq, Eq, Structural)]
pub struct PendingSettingsPresentation {
    pub in_flight_tab: Tab,
    pub requested_tab: Tab,
    pub phase: SettingsPresentationPhase,
}

#[derive(Debug, Clone, Copy, PartialEq, Eq, Structural)]
pub enum SettingsPresentationPhase {
    /// The line that asks for it is still to be written.
    ToSend,
    AwaitingAcknowledgement,
    /// The window cannot be reached; if it closes before the deadline, a new one opens.
    AwaitingConfirmedExit { deadline: u64 },
}

/// What decides whether the monitor may act.
#[derive(Debug, Clone, Copy)]
pub struct MonitorGate {
    pub latch: WorkerPauseLatch,
    /// Work of the worker that is older than this is void.
    pub generation: u64,
    pub storage_recovery_ready: bool,
    pub storage_recovery_sticky_blocked: bool,
    /// The block is to be written to the disk.
    pub block_to_persist: bool,
    pub worker_status: WorkerStatus,
    pub desired_monitor_running: bool,
    pub accessibility_trusted: bool,
    pub resume_monitor_after_settings: bool,
    /// The state that the menu and the status file show.
    pub published: Option<MonitorControlState>,
}

/// What is known of the settings window.
#[derive(Debug, Clone, Copy)]
pub struct SettingsWindow {
    /// Its process.
    pub settings_child: Option<u32>,
    /// What it acknowledges is being read.
    pub settings_child_acknowledgements: bool,
    pub settings_child_control_broken: bool,
    pub pending_settings_presentation: Option<PendingSettingsPresentation>,
    pub settings_child_bootstrapped: bool,
    pub settings_mutation_active: bool,
    pub pending_settings_launch: Option<PendingSettingsLaunch>,
    pub next_settings_launch_request_id: u64,
    /// The lease of its session is held.
    pub settings_session_lease: bool,
}

/// How the supervisor starts, waits and ends.
#[derive(Debug, Clone, Copy)]
pub struct Lifecycle {
    pub startup_window_preference_pending: bool,
    pub last_accessibility_check: u64,
    pub last_storage_recovery_attempt: u64,
    pub exit_requested: bool,
    pub settings_child_exit_deadline: Option<u64>,
    pub exit_shutdown_finalized: bool,
}

/// The supervisor.
#[derive(Debug)]
pub struct LightweightSupervisor {
    /// What was sent to the worker and not yet taken by it.
    pub commands: Vec<WorkerCommand>,
    /// How many commands may wait.
    pub capacity: usize,
    pub config: AppConfig,
    pub settings_session_token: String,
    pub gate: MonitorGate,
    pub window: SettingsWindow,
    pub life: Lifecycle,
}

/// What a supervisor holds.
pub struct SupervisorView {
    pub commands: Seq<CommandView>,
    pub capacity: usize,
    pub config: ConfigView,
    pub settings_session_token: Seq<char>,
    pub gate: MonitorGate,
    pub window: SettingsWindow,
    pub life: Lifecycle,
}

impl DeepView for LightweightSupervisor {
    type V = SupervisorView;

    open spec fn deep_view(&self) -> SupervisorView {
        SupervisorView {
            commands: self.commands.deep_view(),
            capacity: self.capacity,
            config: self.config.deep_view(),
            settings_session_token: self.settings_session_token@,
            gate: self.gate,
            window: self.window,
            life: self.life,
        }
    }
}

// ---------------------------------------------------------------------------
// What was found outside
// ---------------------------------------------------------------------------

/// What came of a reload of the configuration under the lock on the storage.
#[derive(Debug)]
pub enum RecoveryReload {
    /// The lock could not be had.
    NoLease,
    /// Nothing was loaded; the token is the new one, if the session was given one.
    Blocked { token: Option<String> },
    /// The configuration was loaded with recovery.
    Loaded { startup: StartupConfig, token: Option<String> },
}

pub enum ReloadView {
    NoLease,
    Blocked { token: Option<Seq<char>> },
    Loaded { startup: StartupView, token: Option<Seq<char>> },
}

impl DeepView for RecoveryReload {
    type V = ReloadView;

    open spec fn deep_view(&self) -> ReloadView {
        match *self {
            RecoveryReload::NoLease => ReloadView::NoLease,
            RecoveryReload::Blocked { token } => ReloadView::Blocked { token: token.deep_view() },
            RecoveryReload::Loaded { startup, token } => ReloadView::Loaded {
                startup: startup.deep_view(),
                token: token.deep_view(),
            },
        }
    }
}

/// What came of authorizing a settings session.
#[derive(Debug)]
pub enum SettingsSession {
    /// Another session is alive, or the storage could not be locked.
    Unavailable,
    /// The session got a token but no lease; the token was replaced, if it could be.
    LeaseRefused { token: String, revoked: Option<String> },
    Ready { token: String },
}

pub enum SessionView {
    Unavailable,
    LeaseRefused { token: Seq<char>, revoked: Option<Seq<char>> },
    Ready { token: Seq<char> },
}

impl DeepView for SettingsSession {
    type V = SessionView;

    open spec fn deep_view(&self) -> SessionView {
        match *self {
            SettingsSession::Unavailable => SessionView::Unavailable,
            SettingsSession::LeaseRefused { token, revoked } => SessionView::LeaseRefused {
                token: token@,
                revoked: revoked.deep_view(),
            },
            SettingsSession::Ready { token } => SessionView::Ready { token: token@ },
        }
    }
}

/// What the worker said to a request to become quiet.
#[derive(Debug, Clone, Copy, PartialEq, Eq, Structural)]
pub enum QuiescenceReply {
    Waiting,
    Acknowledged { request_id: u64 },
    Disconnected,
}

/// What is known of the process of the settings window.
#[derive(Debug, Clone, Copy, PartialEq, Eq, Structural)]
pub enum ChildStatus {
    Running,
    Exited,
    Unknown,
}

/// What was read from the settings window.
#[derive(Debug, Clone, Copy, PartialEq, Eq, Structural)]
pub enum PresentationAnswer {
    Line(FullUiControlRead),
    Failed,
}

// ---------------------------------------------------------------------------
// What the supervisor wants
// ---------------------------------------------------------------------------

/// How far the exit has come.
#[derive(Debug, Clone, Copy, PartialEq, Eq, Structural)]
pub enum ExitStep {
    NotRequested,
    /// The settings window is to be asked to close.
    AskChild,
    WaitForChild,
    /// The application may end; the monitor is to be shown as stopped first.
    PublishStopped,
    Finished,
}

/// What is to be done for a settings window that waits to be opened.
#[derive(Debug, Clone, Copy, PartialEq, Eq, Structural)]
pub enum LaunchStep {
    Nothing,
    Refused,
    /// A session is to be authorized, and the window opened on this page.
    Authorize { initial_tab: Tab },
}

/// What came of a command of the settings window.
#[derive(Debug, Clone, Copy, PartialEq, Eq, Structural)]
pub enum IpcOutcome {
    Committed,
    Refused,
    /// The worker is to become quiet first.
    AwaitQuiescence { request_id: u64 },
}

/// What the menu asks for.
#[derive(Debug, Clone, Copy, PartialEq, Eq, Structural)]
pub enum TrayCommand {
    OpenAccounts,
    OpenSettings,
    PresentAccounts,
    PresentSettings,
    ToggleMonitor,
    RequestAccessibilityAccess,
    OpenAccessibilitySettings,
    Exit,
}

#[derive(Debug, Clone, Copy, PartialEq, Eq, Structural)]
pub enum TrayStep {
    Nothing,
    AskForAccessibility,
    OpenAccessibilitySettings,
    Exit(ExitStep),
}

// ---------------------------------------------------------------------------
// Small steps
// ---------------------------------------------------------------------------

/// A deadline; `now` where it would be beyond what can be counted.
pub open spec fn later(now: u64, ms: u64) -> u64 {
    if now + ms <= u64::MAX {
        (now + ms) as u64
    } else {
        now
    }
}

pub(crate) fn deadline_after(now: u64, ms: u64) -> (out: u64)
    ensures
        out == later(now, ms),
{
    if now <= u64::MAX - ms {
        now + ms
    } else {
        now
    }
}

pub open spec fn with_pause(s: SupervisorView) -> SupervisorView {
    SupervisorView { gate: MonitorGate { latch: latch_paused(s.gate.latch), ..s.gate }, ..s }
}

/// What the worker is doing is void.
pub open spec fn with_invalidation(s: SupervisorView) -> SupervisorView {
    SupervisorView {
        gate: MonitorGate { generation: next_number(s.gate.generation), ..s.gate },
        ..s
    }
}

pub open spec fn with_resume(s: SupervisorView, resume: bool) -> SupervisorView {
    SupervisorView { gate: MonitorGate { resume_monitor_after_settings: resume, ..s.gate }, ..s }
}

/// What the supervisor shows is what it is.
#[verifier::opaque]
pub open spec fn with_status_shown(s: SupervisorView) -> SupervisorView {
    SupervisorView {
        gate: MonitorGate {
            published: Some(control_state(s.gate.worker_status, s.gate.desired_monitor_running)),
            ..s.gate
        },
        ..s
    }
}

pub open spec fn has_room(s: SupervisorView) -> bool {
    s.commands.len() < s.capacity
}

/// A command is sent where there is room for it.
pub open spec fn with_sent(s: SupervisorView, command: CommandView) -> SupervisorView {
    if has_room(s) {
        SupervisorView { commands: s.commands.push(command), ..s }
    } else {
        s
    }
}

pub open spec fn transition_active(s: SupervisorView) -> bool {
    s.window.settings_child is Some || s.window.pending_settings_launch is Some
}

pub open spec fn pause_transition_active(s: SupervisorView) -> bool {
    s.window.pending_settings_launch is Some || s.window.settings_child is Some && (
    !s.window.settings_child_bootstrapped || s.window.settings_mutation_active)
}

/// Accessibility is trusted, by what is known or by a fresh look.
#[verifier::opaque]
pub open spec fn with_fresh_trust(s: SupervisorView, trusted_now: bool) -> SupervisorView {
    if !s.gate.accessibility_trusted && trusted_now {
        with_status_shown(
            SupervisorView { gate: MonitorGate { accessibility_trusted: true, ..s.gate }, ..s },
        )
    } else {
        s
    }
}

/// The command that hands a configuration over and ends the pause in force.
pub open spec fn apply_command(
    s: SupervisorView,
    config: ConfigView,
    start_monitor: bool,
) -> CommandView {
    CommandView::ApplyConfigAndReleasePause {
        settings: config.settings,
        accounts: config.accounts,
        refresh_passwords: true,
        start_monitor,
        pause_epoch: s.gate.latch.epoch,
    }
}

/// The worker is handed the configuration and started, under a pause of its own; where
/// that cannot be, the pause stays. The second part says whether it could.
#[verifier::opaque]
pub open spec fn fresh_start(s: SupervisorView) -> (SupervisorView, bool) {
    if !s.gate.desired_monitor_running || s.gate.storage_recovery_sticky_blocked {
        (with_pause(s), false)
    } else {
        let p = with_pause(s);
        if has_room(p) {
            (with_sent(p, apply_command(p, p.config, true)), true)
        } else {
            (with_pause(p), false)
        }
    }
}

/// The worker is started; where it cannot be told, it is paused.
#[verifier::opaque]
pub open spec fn start_or_pause(s: SupervisorView) -> SupervisorView {
    if has_room(s) {
        with_sent(s, CommandView::Start)
    } else {
        with_pause(s)
    }
}

fn first_taken(commands: &mut Vec<WorkerCommand>) -> (first: WorkerCommand)
    requires
        old(commands)@.len() > 0,
    ensures
        first.deep_view() == old(commands).deep_view()[0],
        final(commands).deep_view() == old(commands).deep_view().drop_first(),
{
    let ghost before = commands.deep_view();
    let first: WorkerCommand = commands.remove(0);
    assert(commands.deep_view() =~= before.drop_first());
    first
}

impl LightweightSupervisor {
    pub(crate) fn pause(&mut self)
        ensures
            final(self).deep_view() == with_pause(old(self).deep_view()),
    {
        let mut latch: WorkerPauseLatch = self.gate.latch;
        let _epoch: u64 = latch.pause_with_epoch();
        self.gate.latch = latch;
    }

    pub(crate) fn invalidate(&mut self)
        ensures
            final(self).deep_view() == with_invalidation(old(self).deep_view()),
    {
        self.gate.generation = number_after(self.gate.generation);
    }

    /// The worker applied a configuration that was sent under a pause.
    pub fn release_pause(&mut self, epoch: u64)
        ensures
            final(self).deep_view() == (SupervisorView {
                gate: MonitorGate {
                    latch: latch_released(old(self).gate.latch, epoch),
                    ..old(self).deep_view().gate
                },
                ..old(self).deep_view()
            }),
    {
        let mut latch: WorkerPauseLatch = self.gate.latch;
        latch.release(epoch);
        self.gate.latch = latch;
    }

    /// The worker takes the command that was sent first.
    pub fn take_command(&mut self) -> (out: Option<WorkerCommand>)
        ensures
            match out {
                Some(command) => {
                    let before = old(self).deep_view();
                    &&& before.commands.len() > 0
                    &&& command.deep_view() == before.commands[0]
                    &&& final(self).deep_view() == (SupervisorView {
                        commands: before.commands.drop_first(),
                        ..before
                    })
                },
                None => {
                    &&& old(self).commands@.len() == 0
                    &&& *final(self) == *old(self)
                },
            },
    {
        if self.commands.len() == 0 {
            return None;
        }
        let first: WorkerCommand = first_taken(&mut self.commands);
        Some(first)
    }

    pub(crate) fn try_send(&mut self, command: WorkerCommand) -> (sent: bool)
        ensures
            sent == has_room(old(self).deep_view()),
            final(self).deep_view() == with_sent(old(self).deep_view(), command.deep_view()),
    {
        if self.commands.len() < self.capacity {
            let ghost before = self.commands.deep_view();
            self.commands.push(command);
            assert(self.commands.deep_view() =~= before.push(command.deep_view()));
            true
        } else {
            false
        }
    }

    /// What the monitor does and is meant to do.
    pub fn monitor_control_state(&self) -> (out: MonitorControlState)
        ensures
            out == control_state(self.gate.worker_status, self.gate.desired_monitor_running),
    {
        MonitorControlState::from_worker_and_intent(
            self.gate.worker_status,
            self.gate.desired_monitor_running,
        )
    }

    /// Shows the state of the monitor.
    pub fn update_tray_status(&mut self)
        ensures
            final(self).deep_view() == with_status_shown(old(self).deep_view()),
    {
        proof {
            reveal(with_status_shown);
        }
        let state: MonitorControlState = self.monitor_control_state();
        self.gate.published = Some(state);
    }

    /// `transition_active`, computed.
    pub fn settings_transition_active(&self) -> (r: bool)
        ensures
            r == transition_active(self.deep_view()),
    {
        self.window.settings_child.is_some() || self.window.pending_settings_launch.is_some()
    }

    /// `pause_transition_active`, computed.
    pub fn monitor_pause_transition_active(&self) -> (r: bool)
        ensures
            r == pause_transition_active(self.deep_view()),
    {
        self.window.pending_settings_launch.is_some() || self.window.settings_child.is_some() && (
        !self.window.settings_child_bootstrapped || self.window.settings_mutation_active)
    }

    pub(crate) fn accessibility_ready_for_start(&mut self, trusted_now: bool) -> (r: bool)
        ensures
            final(self).deep_view() == with_fresh_trust(old(self).deep_view(), trusted_now),
            r == final(self).gate.accessibility_trusted,
    {
        proof {
            reveal(with_fresh_trust);
        }
        if !self.gate.accessibility_trusted && trusted_now {
            self.gate.accessibility_trusted = true;
            self.update_tray_status();
        }
        self.gate.accessibility_trusted
    }

    fn idle(&self) -> (r: bool)
        ensures
            r == (self.gate.worker_status == WorkerStatus::Idle),
    {
        match self.gate.worker_status {
            WorkerStatus::Idle => true,
            WorkerStatus::Running => false,
        }
    }

    fn apply_config_command(
        &self,
        config: &AppConfig,
        start_monitor: bool,
        pause_epoch: u64,
    ) -> (out: WorkerCommand)
        ensures
            out.deep_view() == (CommandView::ApplyConfigAndReleasePause {
                settings: config.settings,
                accounts: config.accounts.deep_view(),
                refresh_passwords: true,
                start_monitor,
                pause_epoch,
            }),
    {
        WorkerCommand::ApplyConfigAndReleasePause {
            settings: config.settings,
            accounts: duplicate_accounts(&config.accounts),
            refresh_passwords: true,
            start_monitor,
            pause_epoch,
        }
    }

    /// `fresh_start`, computed.
    pub fn queue_fresh_config_and_start(&mut self) -> (r: bool)
        ensures
            (final(self).deep_view(), r) == fresh_start(old(self).deep_view()),
    {
        proof {
            reveal(fresh_start);
        }
        if !self.gate.desired_monitor_running || self.gate.storage_recovery_sticky_blocked {
            self.pause();
            return false;
        }
        self.pause();
        let command: WorkerCommand = self.apply_config_command(
            &self.config,
            true,
            self.gate.latch.epoch,
        );
        if !self.try_send(command) {
            self.pause();
            return false;
        }
        true
    }

    /// `start_or_pause`, computed.
    pub fn queue_worker_start_fail_closed(&mut self)
        ensures
            final(self).deep_view() == start_or_pause(old(self).deep_view()),
    {
        proof {
            reveal(start_or_pause);
        }
        if !self.try_send(WorkerCommand::Start) {
            self.pause();
        }
    }
}

// ---------------------------------------------------------------------------
// Starting and stopping
// ---------------------------------------------------------------------------

/// The worker is told to start or is handed its configuration, if it is idle or
/// paused and nothing holds it back.
#[verifier::opaque]
pub open spec fn started_if_free(s: SupervisorView) -> SupervisorView {
    if s.gate.latch.paused {
        fresh_start(s).0
    } else if s.gate.worker_status != WorkerStatus::Idle {
        s
    } else {
        start_or_pause(s)
    }
}

/// A start that was asked for at the menu.
#[verifier::opaque]
pub open spec fn monitor_started(s: SupervisorView, trusted_now: bool) -> SupervisorView {
    if s.gate.storage_recovery_sticky_blocked {
        s
    } else {
        let wanted = with_start_wanted(s);
        if !wanted.gate.storage_recovery_ready {
            with_resume(wanted, true)
        } else {
            let fresh = with_fresh_trust(wanted, trusted_now);
            if !fresh.gate.accessibility_trusted {
                fresh
            } else if pause_transition_active(fresh) {
                with_resume(fresh, true)
            } else {
                started_if_free(fresh)
            }
        }
    }
}

/// A start after accessibility was granted.
#[verifier::opaque]
pub open spec fn started_after_grant(s: SupervisorView) -> SupervisorView {
    if !s.gate.desired_monitor_running || s.gate.storage_recovery_sticky_blocked {
        s
    } else if !s.gate.storage_recovery_ready || pause_transition_active(s) {
        with_resume(s, true)
    } else {
        started_if_free(s)
    }
}

/// The monitor is meant to run from now on.
#[verifier::opaque]
pub open spec fn with_start_wanted(s: SupervisorView) -> SupervisorView {
    with_status_shown(
        SupervisorView { gate: MonitorGate { desired_monitor_running: true, ..s.gate }, ..s },
    )
}

/// A start that nothing but the settings window can hold back.
#[verifier::opaque]
pub open spec fn started_beside_window(s: SupervisorView) -> SupervisorView {
    if pause_transition_active(s) {
        with_resume(s, true)
    } else {
        started_if_free(with_resume(s, false))
    }
}

/// A start that the settings window asked for; the second part says whether it is
/// accepted.
#[verifier::opaque]
pub open spec fn control_started(s: SupervisorView, trusted_now: bool) -> (SupervisorView, bool) {
    if s.gate.storage_recovery_sticky_blocked {
        (s, false)
    } else {
        let wanted = with_start_wanted(s);
        if !wanted.gate.storage_recovery_ready && !transition_active(wanted) {
            (with_resume(wanted, true), true)
        } else {
            let fresh = with_fresh_trust(wanted, trusted_now);
            if !fresh.gate.accessibility_trusted {
                (fresh, true)
            } else {
                (started_beside_window(fresh), true)
            }
        }
    }
}

/// An explicit stop.
#[verifier::opaque]
pub open spec fn monitor_stopped(s: SupervisorView) -> SupervisorView {
    with_status_shown(
        with_sent(
            with_pause(
                with_resume(
                    SupervisorView {
                        gate: MonitorGate { desired_monitor_running: false, ..s.gate },
                        ..s
                    },
                    false,
                ),
            ),
            CommandView::Stop,
        ),
    )
}

/// A pause that keeps what the monitor is meant to do.
#[verifier::opaque]
pub open spec fn monitor_paused(s: SupervisorView) -> SupervisorView {
    with_sent(with_pause(with_resume(s, false)), CommandView::Stop)
}

/// The storage cannot be trusted any more, until a restart.
#[verifier::opaque]
pub open spec fn storage_blocked(s: SupervisorView) -> SupervisorView {
    with_status_shown(
        with_sent(
            with_invalidation(
                with_pause(
                    SupervisorView {
                        gate: MonitorGate {
                            storage_recovery_ready: false,
                            storage_recovery_sticky_blocked: true,
                            desired_monitor_running: false,
                            resume_monitor_after_settings: false,
                            block_to_persist: true,
                            ..s.gate
                        },
                        window: SettingsWindow {
                            settings_mutation_active: false,
                            pending_settings_launch: None,
                            ..s.window
                        },
                        ..s
                    },
                ),
            ),
            CommandView::Stop,
        ),
    )
}

/// Accessibility is trusted from now on, or no longer; where it is granted, the monitor
/// may start with it.
#[verifier::opaque]
pub open spec fn trust_applied(
    s: SupervisorView,
    trusted: bool,
    start_on_grant: bool,
) -> SupervisorView {
    if trusted == s.gate.accessibility_trusted {
        with_status_shown(s)
    } else {
        let changed = SupervisorView {
            gate: MonitorGate { accessibility_trusted: trusted, ..s.gate },
            ..s
        };
        with_status_shown(
            if !trusted {
                monitor_paused(changed)
            } else if start_on_grant {
                started_after_grant(changed)
            } else {
                changed
            },
        )
    }
}

/// A look at whether accessibility is trusted, once in a while.
#[verifier::opaque]
pub open spec fn accessibility_polled(
    s: SupervisorView,
    now: u64,
    trusted: bool,
) -> SupervisorView {
    if elapsed(s.life.last_accessibility_check, now) < ACCESSIBILITY_CHECK_INTERVAL_MS {
        s
    } else {
        let looked = SupervisorView {
            life: Lifecycle { last_accessibility_check: now, ..s.life },
            ..s
        };
        if trusted != looked.gate.accessibility_trusted {
            trust_applied(looked, trusted, true)
        } else {
            looked
        }
    }
}

/// The toggle in the menu.
#[verifier::opaque]
pub open spec fn monitor_toggled(s: SupervisorView, trusted_now: bool) -> SupervisorView {
    if control_state(s.gate.worker_status, s.gate.desired_monitor_running)
        != MonitorControlState::Stopped {
        monitor_stopped(s)
    } else {
        monitor_started(s, trusted_now)
    }
}

impl LightweightSupervisor {
    fn start_if_free(&mut self)
        ensures
            final(self).deep_view() == started_if_free(old(self).deep_view()),
    {
        proof {
            reveal(started_if_free);
        }
        if self.gate.latch.paused {
            let _started: bool = self.queue_fresh_config_and_start();
        } else if self.idle() {
            self.queue_worker_start_fail_closed();
        }
    }

    fn want_start(&mut self)
        ensures
            final(self).deep_view() == with_start_wanted(old(self).deep_view()),
    {
        proof {
            reveal(with_start_wanted);
        }
        self.gate.desired_monitor_running = true;
        self.update_tray_status();
    }

    fn start_beside_window(&mut self)
        ensures
            final(self).deep_view() == started_beside_window(old(self).deep_view()),
    {
        proof {
            reveal(started_beside_window);
        }
        if self.monitor_pause_transition_active() {
            self.gate.resume_monitor_after_settings = true;
        } else {
            self.gate.resume_monitor_after_settings = false;
            self.start_if_free();
        }
    }

    /// `monitor_started`, computed.
    pub fn start_monitor_if_ready(&mut self, trusted_now: bool)
        ensures
            final(self).deep_view() == monitor_started(old(self).deep_view(), trusted_now),
    {
        proof {
            reveal(monitor_started);
        }
        if self.gate.storage_recovery_sticky_blocked {
            return;
        }
        self.want_start();
        if !self.gate.storage_recovery_ready {
            self.gate.resume_monitor_after_settings = true;
            return;
        }
        if !self.accessibility_ready_for_start(trusted_now) {
            return;
        }
        if self.monitor_pause_transition_active() {
            self.gate.resume_monitor_after_settings = true;
            return;
        }
        self.start_if_free();
    }

    /// `started_after_grant`, computed.
    pub fn start_monitor_after_accessibility_grant(&mut self)
        ensures
            final(self).deep_view() == started_after_grant(old(self).deep_view()),
    {
        proof {
            reveal(started_after_grant);
        }
        if !self.gate.desired_monitor_running || self.gate.storage_recovery_sticky_blocked {
            return;
        }
        if !self.gate.storage_recovery_ready || self.monitor_pause_transition_active() {
            self.gate.resume_monitor_after_settings = true;
            return;
        }
        self.start_if_free();
    }

    /// `control_started`, computed.
    pub fn start_monitor_from_control_command(&mut self, trusted_now: bool) -> (r: bool)
        ensures
            (final(self).deep_view(), r) == control_started(old(self).deep_view(), trusted_now),
    {
        proof {
            reveal(control_started);
        }
        if self.gate.storage_recovery_sticky_blocked {
            return false;
        }
        self.want_start();
        if !self.gate.storage_recovery_ready && !self.settings_transition_active() {
            self.gate.resume_monitor_after_settings = true;
            return true;
        }
        if self.accessibility_ready_for_start(trusted_now) {
            self.start_beside_window();
        }
        true
    }

    /// `monitor_stopped`, computed.
    pub fn stop_monitor(&mut self)
        ensures
            final(self).deep_view() == monitor_stopped(old(self).deep_view()),
    {
        proof {
            reveal(monitor_stopped);
        }
        self.gate.desired_monitor_running = false;
        self.gate.resume_monitor_after_settings = false;
        self.pause();
        let _sent: bool = self.try_send(WorkerCommand::Stop);
        self.update_tray_status();
    }

    /// `monitor_paused`, computed.
    pub fn pause_monitor_preserving_intent(&mut self)
        ensures
            final(self).deep_view() == monitor_paused(old(self).deep_view()),
    {
        proof {
            reveal(monitor_paused);
        }
        self.gate.resume_monitor_after_settings = false;
        self.pause();
        let _sent: bool = self.try_send(WorkerCommand::Stop);
    }

    /// `storage_blocked`, computed.
    pub fn block_storage_recovery_until_restart(&mut self)
        ensures
            final(self).deep_view() == storage_blocked(old(self).deep_view()),
    {
        proof {
            reveal(storage_blocked);
        }
        self.gate.storage_recovery_ready = false;
        self.gate.storage_recovery_sticky_blocked = true;
        self.window.settings_mutation_active = false;
        self.window.pending_settings_launch = None;
        self.gate.desired_monitor_running = false;
        self.gate.resume_monitor_after_settings = false;
        self.gate.block_to_persist = true;
        self.pause();
        self.invalidate();
        let _sent: bool = self.try_send(WorkerCommand::Stop);
        self.update_tray_status();
    }

    /// `trust_applied`, computed.
    pub fn apply_accessibility_trust_state_with_grant_start(
        &mut self,
        trusted: bool,
        start_monitor_on_grant: bool,
    )
        ensures
            final(self).deep_view() == trust_applied(
                old(self).deep_view(),
                trusted,
                start_monitor_on_grant,
            ),
    {
        proof {
            reveal(trust_applied);
        }
        if trusted == self.gate.accessibility_trusted {
            self.update_tray_status();
            return;
        }
        self.gate.accessibility_trusted = trusted;
        if !trusted {
            self.pause_monitor_preserving_intent();
        } else if start_monitor_on_grant {
            self.start_monitor_after_accessibility_grant();
        }
        self.update_tray_status();
    }

    /// The user was asked for accessibility, or it was found granted or taken away.
    pub fn apply_accessibility_trust_state(&mut self, trusted: bool)
        ensures
            final(self).deep_view() == trust_applied(old(self).deep_view(), trusted, true),
    {
        self.apply_accessibility_trust_state_with_grant_start(trusted, true);
    }

    /// `accessibility_polled`, computed.
    pub fn poll_accessibility(&mut self, now: u64, trusted: bool)
        ensures
            final(self).deep_view() == accessibility_polled(old(self).deep_view(), now, trusted),
    {
        proof {
            reveal(accessibility_polled);
        }
        if elapsed_since(self.life.last_accessibility_check, now)
            < ACCESSIBILITY_CHECK_INTERVAL_MS {
            return;
        }
        self.life.last_accessibility_check = now;
        if trusted != self.gate.accessibility_trusted {
            self.apply_accessibility_trust_state(trusted);
        }
    }

    /// `monitor_toggled`, computed.
    pub fn toggle_monitor(&mut self, trusted_now: bool)
        ensures
            final(self).deep_view() == monitor_toggled(old(self).deep_view(), trusted_now),
    {
        proof {
            reveal(monitor_toggled);
        }
        if self.monitor_control_state().toggle_requests_stop() {
            self.stop_monitor();
        } else {
            self.start_monitor_if_ready(trusted_now);
        }
    }

    /// The worker says what it does.
    pub fn on_worker_status(&mut self, status: WorkerStatus)
        ensures
            final(self).deep_view() == with_status_shown(
                (SupervisorView {
                    gate: MonitorGate { worker_status: status, ..old(self).deep_view().gate },
                    ..old(self).deep_view()
                }),
            ),
    {
        proof {
            reveal(with_status_shown);
        }
        self.gate.worker_status = status;
        self.update_tray_status();
    }
}

// ---------------------------------------------------------------------------
// Opening the settings window
// ---------------------------------------------------------------------------

/// The control channel to the settings window is gone.
#[verifier::opaque]
pub open spec fn control_broken(s: SupervisorView, now: u64) -> SupervisorView {
    SupervisorView {
        window: SettingsWindow {
            settings_child_control_broken: true,
            settings_child_acknowledgements: false,
            pending_settings_presentation: match s.window.pending_settings_presentation {
                Some(pending) => Some(
                    PendingSettingsPresentation {
                        phase: SettingsPresentationPhase::AwaitingConfirmedExit {
                            deadline: later(now, FULL_UI_EXIT_CONFIRMATION_GRACE_MS),
                        },
                        ..pending
                    },
                ),
                None => None,
            },
            ..s.window
        },
        ..s
    }
}

/// The open settings window is to show a page. A request that is under way is let
/// finish first, and only the latest page counts. The second part says whether the
/// request is kept.
#[verifier::opaque]
pub open spec fn presentation_queued(s: SupervisorView, tab: Tab) -> (SupervisorView, bool) {
    match s.window.pending_settings_presentation {
        Some(pending) => (
            SupervisorView { window: SettingsWindow { pending_settings_presentation: Some(
                    PendingSettingsPresentation { requested_tab: tab, ..pending },
                ), ..s.window }, ..s },
            true,
        ),
        None => if s.window.settings_child_control_broken || s.window.settings_child is None {
            (s, false)
        } else {
            (
                SupervisorView { window: SettingsWindow { pending_settings_presentation: Some(
                        PendingSettingsPresentation {
                            in_flight_tab: tab,
                            requested_tab: tab,
                            phase: SettingsPresentationPhase::ToSend,
                        },
                    ), ..s.window }, ..s },
                true,
            )
        },
    }
}

/// The line that asks for a page was written, or not, and the answers can be read, or
/// not.
#[verifier::opaque]
pub open spec fn presentation_sent(
    s: SupervisorView,
    now: u64,
    reader_ready: bool,
    sent: bool,
) -> SupervisorView {
    match s.window.pending_settings_presentation {
        Some(pending) => if pending.phase != SettingsPresentationPhase::ToSend {
            s
        } else {
            let waiting = SupervisorView {
                window: SettingsWindow {
                    settings_child_acknowledgements: reader_ready,
                    pending_settings_presentation: Some(
                        PendingSettingsPresentation {
                            phase: SettingsPresentationPhase::AwaitingAcknowledgement,
                            ..pending
                        },
                    ),
                    ..s.window
                },
                ..s
            };
            if !reader_ready || !sent {
                control_broken(waiting, now)
            } else {
                waiting
            }
        },
        None => s,
    }
}

/// The settings window answered.
#[verifier::opaque]
pub open spec fn presentation_answered(
    s: SupervisorView,
    now: u64,
    answer: PresentationAnswer,
) -> SupervisorView {
    if !s.window.settings_child_acknowledgements {
        s
    } else {
        match (answer, s.window.pending_settings_presentation) {
            (PresentationAnswer::Line(FullUiControlRead::Show(tab)), Some(pending)) => if tab
                != pending.in_flight_tab {
                control_broken(s, now)
            } else {
                let shown = SupervisorView {
                    window: SettingsWindow { pending_settings_presentation: None, ..s.window },
                    ..s
                };
                if pending.requested_tab != tab {
                    presentation_queued(shown, pending.requested_tab).0
                } else {
                    shown
                }
            },
            _ => control_broken(s, now),
        }
    }
}

/// A request that the window can neither hear nor answer is given up.
#[verifier::opaque]
pub open spec fn presentation_expired(s: SupervisorView, now: u64) -> SupervisorView {
    match s.window.pending_settings_presentation {
        Some(pending) => match pending.phase {
            SettingsPresentationPhase::AwaitingConfirmedExit { deadline } => if now >= deadline {
                SupervisorView {
                    window: SettingsWindow { pending_settings_presentation: None, ..s.window },
                    ..s
                }
            } else {
                s
            },
            _ => s,
        },
        None => s,
    }
}

/// The worker is stopped and asked to become quiet, under the request after the last
/// one; the second part is that request, if it could be sent.
#[verifier::opaque]
pub open spec fn quiescence_requested(s: SupervisorView) -> (SupervisorView, Option<u64>) {
    let quiet = with_invalidation(with_pause(s));
    if !has_room(quiet) {
        (quiet, None)
    } else {
        let stopped = with_sent(quiet, CommandView::Stop);
        if stopped.window.next_settings_launch_request_id == u64::MAX {
            (stopped, None)
        } else {
            let id = (stopped.window.next_settings_launch_request_id + 1) as u64;
            let numbered = SupervisorView {
                window: SettingsWindow { next_settings_launch_request_id: id, ..stopped.window },
                ..stopped
            };
            if has_room(numbered) {
                (with_sent(numbered, CommandView::Quiesce { request_id: id }), Some(id))
            } else {
                (numbered, None)
            }
        }
    }
}

/// A settings window is to be opened on a page. The second part says whether that is
/// under way.
#[verifier::opaque]
pub open spec fn window_opened(
    s: SupervisorView,
    now: u64,
    tab: Tab,
    pause_monitor: bool,
) -> (SupervisorView, bool) {
    match s.window.pending_settings_launch {
        Some(pending) => (
            SupervisorView { window: SettingsWindow { pending_settings_launch: Some(
                    PendingSettingsLaunch { initial_tab: tab, ..pending },
                ), ..s.window }, ..s },
            true,
        ),
        None => if s.window.pending_settings_presentation is Some
            || s.window.settings_child is Some {
            presentation_queued(s, tab)
        } else {
            let (asked, request) = quiescence_requested(with_resume(s, false));
            match request {
                Some(id) => if now + SETTINGS_QUIESCENCE_TIMEOUT_MS <= u64::MAX {
                    (
                        SupervisorView { window: SettingsWindow { pending_settings_launch: Some(
                                PendingSettingsLaunch {
                                    request_id: id,
                                    initial_tab: tab,
                                    pause_monitor,
                                    deadline: (now + SETTINGS_QUIESCENCE_TIMEOUT_MS) as u64,
                                },
                            ), ..asked.window }, ..asked },
                        true,
                    )
                } else {
                    (with_pause(asked), false)
                },
                None => (with_pause(asked), false),
            }
        },
    }
}

fn same_tab(a: Tab, b: Tab) -> (r: bool)
    ensures
        r == (a == b),
{
    match (a, b) {
        (Tab::Accounts, Tab::Accounts) => true,
        (Tab::Settings, Tab::Settings) => true,
        (Tab::Diagnose, Tab::Diagnose) => true,
        _ => false,
    }
}

impl LightweightSupervisor {
    /// `control_broken`, computed.
    pub fn mark_settings_child_control_broken(&mut self, now: u64)
        ensures
            final(self).deep_view() == control_broken(old(self).deep_view(), now),
    {
        proof {
            reveal(control_broken);
        }
        self.window.settings_child_control_broken = true;
        self.window.settings_child_acknowledgements = false;
        let deadline: u64 = deadline_after(now, FULL_UI_EXIT_CONFIRMATION_GRACE_MS);
        if let Some(pending) = self.window.pending_settings_presentation {
            self.window.pending_settings_presentation = Some(
                PendingSettingsPresentation {
                    in_flight_tab: pending.in_flight_tab,
                    requested_tab: pending.requested_tab,
                    phase: SettingsPresentationPhase::AwaitingConfirmedExit { deadline },
                },
            );
        }
    }

    /// `presentation_queued`, computed.
    pub fn queue_settings_child_presentation(&mut self, tab: Tab) -> (r: bool)
        ensures
            (final(self).deep_view(), r) == presentation_queued(old(self).deep_view(), tab),
    {
        proof {
            reveal(presentation_queued);
        }
        if let Some(pending) = self.window.pending_settings_presentation {
            self.window.pending_settings_presentation = Some(
                PendingSettingsPresentation {
                    in_flight_tab: pending.in_flight_tab,
                    requested_tab: tab,
                    phase: pending.phase,
                },
            );
            return true;
        }
        if self.window.settings_child_control_broken || self.window.settings_child.is_none() {
            return false;
        }
        self.window.pending_settings_presentation = Some(
            PendingSettingsPresentation {
                in_flight_tab: tab,
                requested_tab: tab,
                phase: SettingsPresentationPhase::ToSend,
            },
        );
        true
    }

    /// `presentation_sent`, computed.
    pub fn on_presentation_sent(&mut self, now: u64, reader_ready: bool, sent: bool)
        ensures
            final(self).deep_view() == presentation_sent(
                old(self).deep_view(),
                now,
                reader_ready,
                sent,
            ),
    {
        proof {
            reveal(presentation_sent);
        }
        if let Some(pending) = self.window.pending_settings_presentation {
            match pending.phase {
                SettingsPresentationPhase::ToSend => {
                    self.window.settings_child_acknowledgements = reader_ready;
                    self.window.pending_settings_presentation = Some(
                        PendingSettingsPresentation {
                            in_flight_tab: pending.in_flight_tab,
                            requested_tab: pending.requested_tab,
                            phase: SettingsPresentationPhase::AwaitingAcknowledgement,
                        },
                    );
                    if !reader_ready || !sent {
                        self.mark_settings_child_control_broken(now);
                    }
                },
                _ => {},
            }
        }
    }

    /// `presentation_answered`, computed.
    pub fn poll_settings_presentation_acknowledgement(
        &mut self,
        now: u64,
        answer: PresentationAnswer,
    )
        ensures
            final(self).deep_view() == presentation_answered(old(self).deep_view(), now, answer),
    {
        proof {
            reveal(presentation_answered);
        }
        if !self.window.settings_child_acknowledgements {
            return;
        }
        match (answer, self.window.pending_settings_presentation) {
            (PresentationAnswer::Line(FullUiControlRead::Show(tab)), Some(pending)) => {
                if !same_tab(tab, pending.in_flight_tab) {
                    self.mark_settings_child_control_broken(now);
                    return;
                }
                self.window.pending_settings_presentation = None;
                if !same_tab(pending.requested_tab, tab) {
                    let _queued: bool = self.queue_settings_child_presentation(
                        pending.requested_tab,
                    );
                }
            },
            _ => {
                self.mark_settings_child_control_broken(now);
            },
        }
    }

    /// `presentation_expired`, computed.
    pub fn expire_unconfirmed_settings_presentation(&mut self, now: u64)
        ensures
            final(self).deep_view() == presentation_expired(old(self).deep_view(), now),
    {
        proof {
            reveal(presentation_expired);
        }
        if let Some(pending) = self.window.pending_settings_presentation {
            if let SettingsPresentationPhase::AwaitingConfirmedExit { deadline } = pending.phase {
                if now >= deadline {
                    self.window.pending_settings_presentation = None;
                }
            }
        }
    }

    fn request_quiescence(&mut self) -> (out: Option<u64>)
        ensures
            (final(self).deep_view(), out) == quiescence_requested(old(self).deep_view()),
    {
        proof {
            reveal(quiescence_requested);
        }
        self.pause();
        self.invalidate();
        if !self.try_send(WorkerCommand::Stop) {
            return None;
        }
        if self.window.next_settings_launch_request_id == u64::MAX {
            return None;
        }
        let request_id: u64 = self.window.next_settings_launch_request_id + 1;
        self.window.next_settings_launch_request_id = request_id;
        if !self.try_send(WorkerCommand::Quiesce { request_id }) {
            return None;
        }
        Some(request_id)
    }

    /// `window_opened`, computed. What the open settings window answered, and whether it
    /// is still there, is to be looked at before.
    pub fn open_full_ui_window_with_monitor_policy(
        &mut self,
        now: u64,
        initial_tab: Tab,
        pause_monitor: bool,
    ) -> (r: bool)
        ensures
            (final(self).deep_view(), r) == window_opened(
                old(self).deep_view(),
                now,
                initial_tab,
                pause_monitor,
            ),
    {
        proof {
            reveal(window_opened);
        }
        if let Some(pending) = self.window.pending_settings_launch {
            self.window.pending_settings_launch = Some(
                PendingSettingsLaunch {
                    request_id: pending.request_id,
                    initial_tab,
                    pause_monitor: pending.pause_monitor,
                    deadline: pending.deadline,
                },
            );
            return true;
        }
        if self.window.pending_settings_presentation.is_some()
            || self.window.settings_child.is_some() {
            return self.queue_settings_child_presentation(initial_tab);
        }
        self.gate.resume_monitor_after_settings = false;
        match self.request_quiescence() {
            Some(request_id) => {
                if now > u64::MAX - SETTINGS_QUIESCENCE_TIMEOUT_MS {
                    self.pause();
                    return false;
                }
                self.window.pending_settings_launch = Some(
                    PendingSettingsLaunch {
                        request_id,
                        initial_tab,
                        pause_monitor,
                        deadline: now + SETTINGS_QUIESCENCE_TIMEOUT_MS,
                    },
                );
                true
            },
            None => {
                self.pause();
                false
            },
        }
    }
}

// ---------------------------------------------------------------------------
// Taking over a configuration
// ---------------------------------------------------------------------------

/// Nothing is known of the storage; the monitor stays paused until it is.
#[verifier::opaque]
pub open spec fn recovery_failed(s: SupervisorView) -> SupervisorView {
    with_pause(
        SupervisorView { gate: MonitorGate { storage_recovery_ready: false, ..s.gate }, ..s },
    )
}

pub open spec fn with_token(s: SupervisorView, token: Option<Seq<char>>) -> SupervisorView {
    match token {
        Some(token) => SupervisorView { settings_session_token: token, ..s },
        None => s,
    }
}

/// The token of the session was replaced, or could not be.
#[verifier::opaque]
pub open spec fn authorization_revoked(
    s: SupervisorView,
    token: Option<Seq<char>>,
) -> SupervisorView {
    if token is Some {
        with_token(s, token)
    } else {
        recovery_failed(s)
    }
}

/// The command that hands a reloaded configuration over, if that is sound.
#[verifier::opaque]
pub open spec fn reload_prepared(
    s: SupervisorView,
    startup: StartupView,
    start_monitor: bool,
) -> (SupervisorView, Option<CommandView>) {
    let quiet = with_invalidation(with_pause(s));
    if !startup.storage_recovery_ready {
        (storage_blocked(quiet), None)
    } else if quiet.gate.storage_recovery_sticky_blocked {
        (with_pause(quiet), None)
    } else {
        (
            quiet,
            Some(
                apply_command(
                    quiet,
                    startup.config,
                    start_monitor && quiet.gate.desired_monitor_running,
                ),
            ),
        )
    }
}

/// A reloaded configuration could not be handed over.
#[verifier::opaque]
pub open spec fn delivery_failed(s: SupervisorView) -> SupervisorView {
    let failed = with_pause(
        SupervisorView {
            gate: MonitorGate {
                storage_recovery_ready: false,
                resume_monitor_after_settings: false,
                ..s.gate
            },
            ..s
        },
    );
    if failed.gate.worker_status == WorkerStatus::Running {
        with_sent(failed, CommandView::Stop)
    } else {
        failed
    }
}

/// A reloaded configuration was handed over.
#[verifier::opaque]
pub open spec fn reload_finished(s: SupervisorView, config: ConfigView) -> SupervisorView {
    with_status_shown(
        SupervisorView {
            config,
            gate: MonitorGate { storage_recovery_ready: true, ..s.gate },
            ..s
        },
    )
}

/// A reloaded configuration is taken over; the second part says whether it was handed
/// to the worker.
#[verifier::opaque]
pub open spec fn reload_applied(
    s: SupervisorView,
    startup: StartupView,
    start_monitor: bool,
) -> (SupervisorView, bool) {
    let (ready, command) = reload_prepared(s, startup, start_monitor);
    match command {
        None => (ready, false),
        Some(command) => if has_room(ready) {
            (reload_finished(with_sent(ready, command), startup.config), true)
        } else {
            (delivery_failed(ready), false)
        },
    }
}

/// What came of a reload under the lock is taken over. A supervisor that is blocked
/// until a restart takes over the new token and nothing else.
#[verifier::opaque]
pub open spec fn reloaded(
    s: SupervisorView,
    reload: ReloadView,
    start_monitor: bool,
) -> (SupervisorView, bool) {
    match reload {
        ReloadView::NoLease => (recovery_failed(s), false),
        ReloadView::Blocked { token } => if s.gate.storage_recovery_sticky_blocked {
            (with_pause(with_token(s, token)), false)
        } else {
            (recovery_failed(with_token(s, token)), false)
        },
        ReloadView::Loaded { startup, token } => if s.gate.storage_recovery_sticky_blocked {
            (with_pause(with_token(s, token)), false)
        } else if token is None {
            (recovery_failed(s), false)
        } else {
            reload_applied(with_token(s, token), startup, start_monitor)
        },
    }
}

pub open spec fn reload_token(reload: ReloadView) -> Option<Seq<char>> {
    match reload {
        ReloadView::NoLease => None,
        ReloadView::Blocked { token } => token,
        ReloadView::Loaded { startup, token } => token,
    }
}

/// A request to reload; it waits while a settings window is open.
#[verifier::opaque]
pub open spec fn reload_requested(
    s: SupervisorView,
    reload: ReloadView,
) -> (SupervisorView, bool) {
    if transition_active(s) {
        (s, false)
    } else {
        reloaded(s, reload, false)
    }
}

impl LightweightSupervisor {
    fn fail_recovery(&mut self)
        ensures
            final(self).deep_view() == recovery_failed(old(self).deep_view()),
    {
        proof {
            reveal(recovery_failed);
        }
        self.gate.storage_recovery_ready = false;
        self.pause();
    }

    fn take_token(&mut self, token: Option<String>)
        ensures
            final(self).deep_view() == with_token(old(self).deep_view(), token.deep_view()),
    {
        if let Some(token) = token {
            self.settings_session_token = token;
        }
    }

    /// `authorization_revoked`, computed.
    pub fn revoke_settings_session_authorization_fail_closed(&mut self, token: Option<String>)
        ensures
            final(self).deep_view() == authorization_revoked(
                old(self).deep_view(),
                token.deep_view(),
            ),
    {
        proof {
            reveal(authorization_revoked);
        }
        if token.is_some() {
            self.take_token(token);
        } else {
            self.fail_recovery();
        }
    }

    /// `reload_prepared`, computed.
    fn prepare_reloaded_config(
        &mut self,
        startup: &StartupConfig,
        start_monitor: bool,
    ) -> (out: Option<WorkerCommand>)
        ensures
            final(self).deep_view() == reload_prepared(
                old(self).deep_view(),
                startup.deep_view(),
                start_monitor,
            ).0,
            out.deep_view() == reload_prepared(
                old(self).deep_view(),
                startup.deep_view(),
                start_monitor,
            ).1,
    {
        proof {
            reveal(reload_prepared);
        }
        self.pause();
        self.invalidate();
        if !startup.storage_recovery_ready {
            self.block_storage_recovery_until_restart();
            return None;
        }
        if self.gate.storage_recovery_sticky_blocked {
            self.pause();
            return None;
        }
        let start: bool = start_monitor && self.gate.desired_monitor_running;
        let command: WorkerCommand = self.apply_config_command(
            &startup.config,
            start,
            self.gate.latch.epoch,
        );
        Some(command)
    }

    /// `delivery_failed`, computed.
    fn fail_reloaded_config_delivery(&mut self)
        ensures
            final(self).deep_view() == delivery_failed(old(self).deep_view()),
    {
        proof {
            reveal(delivery_failed);
        }
        self.gate.storage_recovery_ready = false;
        self.gate.resume_monitor_after_settings = false;
        self.pause();
        if !self.idle() {
            let _sent: bool = self.try_send(WorkerCommand::Stop);
        }
    }

    /// `reload_finished`, computed.
    fn finish_reloaded_config(&mut self, config: AppConfig)
        ensures
            final(self).deep_view() == reload_finished(old(self).deep_view(), config.deep_view()),
    {
        proof {
            reveal(reload_finished);
        }
        self.config = config;
        self.gate.storage_recovery_ready = true;
        self.update_tray_status();
    }

    /// `reload_applied`, computed.
    pub fn apply_reloaded_config(&mut self, startup: StartupConfig, start_monitor: bool) -> (r:
        bool)
        ensures
            (final(self).deep_view(), r) == reload_applied(
                old(self).deep_view(),
                startup.deep_view(),
                start_monitor,
            ),
    {
        proof {
            reveal(reload_applied);
        }
        match self.prepare_reloaded_config(&startup, start_monitor) {
            Some(command) => {
                if !self.try_send(command) {
                    self.fail_reloaded_config_delivery();
                    return false;
                }
                self.finish_reloaded_config(startup.config);
                true
            },
            None => false,
        }
    }

    /// `reloaded`, computed.
    pub fn reload_config_after_settings_with_lease(
        &mut self,
        reload: RecoveryReload,
        start_monitor: bool,
    ) -> (r: bool)
        ensures
            (final(self).deep_view(), r) == reloaded(
                old(self).deep_view(),
                reload.deep_view(),
                start_monitor,
            ),
    {
        proof {
            reveal(reloaded);
        }
        match reload {
            RecoveryReload::NoLease => {
                self.fail_recovery();
                false
            },
            RecoveryReload::Blocked { token } => {
                self.take_token(token);
                if self.gate.storage_recovery_sticky_blocked {
                    self.pause();
                } else {
                    self.fail_recovery();
                }
                false
            },
            RecoveryReload::Loaded { startup, token } => {
                if self.gate.storage_recovery_sticky_blocked {
                    self.take_token(token);
                    self.pause();
                    return false;
                }
                if token.is_none() {
                    self.fail_recovery();
                    return false;
                }
                self.take_token(token);
                self.apply_reloaded_config(startup, start_monitor)
            },
        }
    }

    /// `reload_requested`, computed.
    pub fn reload_config_after_settings(&mut self, reload: RecoveryReload) -> (r: bool)
        ensures
            (final(self).deep_view(), r) == reload_requested(
                old(self).deep_view(),
                reload.deep_view(),
            ),
    {
        proof {
            reveal(reload_requested);
        }
        if self.settings_transition_active() {
            return false;
        }
        self.reload_config_after_settings_with_lease(reload, false)
    }
}

pub(crate) fn token_of(reload: RecoveryReload) -> (out: Option<String>)
    ensures
        out.deep_view() == reload_token(reload.deep_view()),
{
    match reload {
        RecoveryReload::NoLease => None,
        RecoveryReload::Blocked { token } => token,
        RecoveryReload::Loaded { startup: _, token } => token,
    }
}

// ---------------------------------------------------------------------------
// The settings session
// ---------------------------------------------------------------------------

/// What a request that a settings window waits for comes to. The window may be opened
/// only where the worker answered this very request, and nothing changed meanwhile.
pub open spec fn launch_step(s: SupervisorView, now: u64, reply: QuiescenceReply) -> LaunchStep {
    match s.window.pending_settings_launch {
        None => LaunchStep::Nothing,
        Some(pending) => match reply {
            QuiescenceReply::Waiting => if now >= pending.deadline {
                LaunchStep::Refused
            } else {
                LaunchStep::Nothing
            },
            QuiescenceReply::Disconnected => LaunchStep::Refused,
            QuiescenceReply::Acknowledged { request_id } => if request_id != pending.request_id
                || s.life.exit_requested || s.window.settings_child is Some
                || !s.gate.latch.paused {
                LaunchStep::Refused
            } else {
                LaunchStep::Authorize { initial_tab: pending.initial_tab }
            },
        },
    }
}

/// The state after a look at that request.
#[verifier::opaque]
pub open spec fn launch_polled(
    s: SupervisorView,
    now: u64,
    reply: QuiescenceReply,
) -> SupervisorView {
    let taken = SupervisorView {
        window: SettingsWindow { pending_settings_launch: None, ..s.window },
        ..s
    };
    match launch_step(s, now, reply) {
        LaunchStep::Nothing => s,
        LaunchStep::Refused => with_pause(with_resume(taken, false)),
        LaunchStep::Authorize { initial_tab } => with_resume(
            taken,
            s.window.pending_settings_launch->0.pause_monitor && s.gate.desired_monitor_running,
        ),
    }
}

/// What came of authorizing a session; the second part says whether the window may be
/// opened.
#[verifier::opaque]
pub open spec fn session_prepared(
    s: SupervisorView,
    session: SessionView,
) -> (SupervisorView, bool) {
    match session {
        SessionView::Unavailable => (with_resume(s, false), false),
        SessionView::LeaseRefused { token, revoked } => (
            with_resume(authorization_revoked(with_token(s, Some(token)), revoked), false),
            false,
        ),
        SessionView::Ready { token } => (with_token(s, Some(token)), true),
    }
}

/// The settings window was opened.
#[verifier::opaque]
pub open spec fn window_spawned(s: SupervisorView, pid: u32) -> SupervisorView {
    SupervisorView {
        window: SettingsWindow {
            settings_child_acknowledgements: false,
            settings_child_control_broken: false,
            pending_settings_presentation: None,
            settings_child_bootstrapped: false,
            settings_mutation_active: false,
            settings_child: Some(pid),
            settings_session_lease: true,
            ..s.window
        },
        ..s
    }
}

/// The settings window could not be opened. The token that was meant for it is
/// replaced, and the monitor goes on where it is meant to.
#[verifier::opaque]
pub open spec fn spawn_failed(s: SupervisorView, reload: ReloadView) -> SupervisorView {
    let ended = SupervisorView {
        window: SettingsWindow {
            settings_session_lease: false,
            settings_child_bootstrapped: false,
            settings_mutation_active: false,
            ..s.window
        },
        gate: MonitorGate { resume_monitor_after_settings: false, ..s.gate },
        ..s
    };
    if s.gate.resume_monitor_after_settings {
        reloaded(ended, reload, true).0
    } else {
        authorization_revoked(ended, reload_token(reload))
    }
}

/// The monitor goes on while an idle settings window is open.
#[verifier::opaque]
pub open spec fn resumed_after_bootstrap(s: SupervisorView, trusted_now: bool) -> SupervisorView {
    if !s.gate.desired_monitor_running || s.gate.storage_recovery_sticky_blocked {
        with_status_shown(with_resume(s, false))
    } else if !s.gate.storage_recovery_ready {
        with_status_shown(with_resume(s, true))
    } else {
        let fresh = with_fresh_trust(s, trusted_now);
        if !fresh.gate.accessibility_trusted {
            with_status_shown(with_resume(fresh, false))
        } else {
            let started = fresh_start(fresh).0;
            with_status_shown(with_resume(started, started.gate.desired_monitor_running))
        }
    }
}

/// The settings window announced itself and was told so.
#[verifier::opaque]
pub open spec fn bootstrapped(s: SupervisorView, trusted_now: bool) -> SupervisorView {
    resumed_after_bootstrap(
        SupervisorView {
            window: SettingsWindow { settings_child_bootstrapped: true, ..s.window },
            ..s
        },
        trusted_now,
    )
}

/// The settings window wants to change something. The worker is to become quiet first;
/// the second part is the request, if it could be made.
#[verifier::opaque]
pub open spec fn mutation_begun(s: SupervisorView) -> (SupervisorView, Option<u64>) {
    if !s.window.settings_child_bootstrapped || s.gate.storage_recovery_sticky_blocked
        || !s.gate.storage_recovery_ready || s.window.settings_mutation_active {
        (s, None)
    } else {
        quiescence_requested(
            SupervisorView {
                window: SettingsWindow { settings_mutation_active: true, ..s.window },
                gate: MonitorGate {
                    resume_monitor_after_settings: s.gate.desired_monitor_running,
                    ..s.gate
                },
                ..s
            },
        )
    }
}

/// The change that asked for quiet with `request_id` is still wanted and allowed:
/// nothing that came in meanwhile ended it.
pub open spec fn mutation_waits(s: SupervisorView, request_id: u64) -> bool {
    &&& s.window.settings_mutation_active
    &&& s.window.settings_child_bootstrapped
    &&& s.window.next_settings_launch_request_id == request_id
    &&& s.gate.storage_recovery_ready
    &&& !s.gate.storage_recovery_sticky_blocked
}

/// What the worker said to that; the second part says whether the change may begin.
#[verifier::opaque]
pub open spec fn mutation_quiet(
    s: SupervisorView,
    request_id: u64,
    reply: QuiescenceReply,
) -> (SupervisorView, bool) {
    if mutation_waits(s, request_id) && reply == (QuiescenceReply::Acknowledged { request_id }) {
        (with_status_shown(
            SupervisorView {
                gate: MonitorGate { worker_status: WorkerStatus::Idle, ..s.gate },
                ..s
            },
        ), true)
    } else {
        (s, false)
    }
}

/// The settings window changed nothing after all.
#[verifier::opaque]
pub open spec fn mutation_cancelled(
    s: SupervisorView,
    trusted_now: bool,
) -> (SupervisorView, bool) {
    if !s.window.settings_mutation_active {
        (s, true)
    } else {
        let ended = SupervisorView {
            window: SettingsWindow { settings_mutation_active: false, ..s.window },
            ..s
        };
        let wanted = ended.gate.resume_monitor_after_settings && ended.gate.desired_monitor_running
            && ended.gate.storage_recovery_ready && !ended.gate.storage_recovery_sticky_blocked;
        let fresh = if wanted {
            with_fresh_trust(ended, trusted_now)
        } else {
            ended
        };
        let (after, resumed) = if wanted && fresh.gate.accessibility_trusted {
            fresh_start(fresh)
        } else {
            (fresh, true)
        };
        (with_status_shown(with_resume(after, after.gate.desired_monitor_running)), resumed)
    }
}

/// What the settings window saved is made ready to be handed over; the second part is
/// the command, if the change may be acknowledged.
#[verifier::opaque]
pub open spec fn commit_prepared(
    s: SupervisorView,
    startup: StartupView,
    trusted_now: bool,
) -> (SupervisorView, Option<CommandView>) {
    if !s.window.settings_mutation_active {
        (s, None)
    } else if !startup.storage_recovery_ready {
        (storage_blocked(s), None)
    } else if s.gate.storage_recovery_sticky_blocked {
        (with_pause(s), None)
    } else {
        let fresh = if s.gate.desired_monitor_running {
            with_fresh_trust(s, trusted_now)
        } else {
            s
        };
        let (ready, command) = reload_prepared(
            fresh,
            startup,
            s.gate.desired_monitor_running && fresh.gate.accessibility_trusted,
        );
        match command {
            None => (ready, None),
            Some(command) => if has_room(ready) {
                (ready, Some(command))
            } else {
                (delivery_failed(ready), None)
            },
        }
    }
}

/// The settings window knows that what it saved was accepted.
#[verifier::opaque]
pub open spec fn commit_finished(
    s: SupervisorView,
    command: CommandView,
    config: ConfigView,
) -> SupervisorView {
    let finished = reload_finished(with_sent(s, command), config);
    with_status_shown(
        SupervisorView {
            window: SettingsWindow { settings_mutation_active: false, ..finished.window },
            gate: MonitorGate {
                resume_monitor_after_settings: finished.gate.desired_monitor_running,
                ..finished.gate
            },
            ..finished
        },
    )
}

/// The process of the settings window, as far as it is known to be alive.
pub open spec fn live_child(s: SupervisorView, child_alive: bool) -> Option<u32> {
    if child_alive {
        s.window.settings_child
    } else {
        None
    }
}

fn same_request(reply: QuiescenceReply, id: u64) -> (r: bool)
    ensures
        r == (reply == QuiescenceReply::Acknowledged { request_id: id }),
{
    match reply {
        QuiescenceReply::Acknowledged { request_id } => request_id == id,
        _ => false,
    }
}

impl LightweightSupervisor {
    fn launch_decision(&self, now: u64, reply: QuiescenceReply) -> (out: LaunchStep)
        ensures
            out == launch_step(self.deep_view(), now, reply),
    {
        match self.window.pending_settings_launch {
            None => LaunchStep::Nothing,
            Some(pending) => match reply {
                QuiescenceReply::Waiting => if now >= pending.deadline {
                    LaunchStep::Refused
                } else {
                    LaunchStep::Nothing
                },
                QuiescenceReply::Disconnected => LaunchStep::Refused,
                QuiescenceReply::Acknowledged { request_id } => if request_id
                    != pending.request_id || self.life.exit_requested
                    || self.window.settings_child.is_some() || !self.gate.latch.paused {
                    LaunchStep::Refused
                } else {
                    LaunchStep::Authorize { initial_tab: pending.initial_tab }
                },
            },
        }
    }

    /// `launch_step` and `launch_polled`, computed.
    pub fn poll_pending_settings_launch(
        &mut self,
        now: u64,
        reply: QuiescenceReply,
    ) -> (out: LaunchStep)
        ensures
            out == launch_step(old(self).deep_view(), now, reply),
            final(self).deep_view() == launch_polled(old(self).deep_view(), now, reply),
    {
        proof {
            reveal(launch_polled);
        }
        let step: LaunchStep = self.launch_decision(now, reply);
        let pause_monitor: bool = match self.window.pending_settings_launch {
            Some(pending) => pending.pause_monitor,
            None => false,
        };
        match step {
            LaunchStep::Nothing => {},
            LaunchStep::Refused => {
                self.window.pending_settings_launch = None;
                self.gate.resume_monitor_after_settings = false;
                self.pause();
            },
            LaunchStep::Authorize { initial_tab: _ } => {
                self.window.pending_settings_launch = None;
                self.gate.resume_monitor_after_settings =
                pause_monitor && self.gate.desired_monitor_running;
            },
        }
        step
    }

    /// `session_prepared`, computed.
    pub fn prepare_settings_session_for_spawn(&mut self, session: SettingsSession) -> (r: bool)
        ensures
            (final(self).deep_view(), r) == session_prepared(
                old(self).deep_view(),
                session.deep_view(),
            ),
    {
        proof {
            reveal(session_prepared);
        }
        match session {
            SettingsSession::Unavailable => {
                self.gate.resume_monitor_after_settings = false;
                false
            },
            SettingsSession::LeaseRefused { token, revoked } => {
                self.take_token(Some(token));
                self.revoke_settings_session_authorization_fail_closed(revoked);
                self.gate.resume_monitor_after_settings = false;
                false
            },
            SettingsSession::Ready { token } => {
                self.take_token(Some(token));
                true
            },
        }
    }

    /// `window_spawned`, computed.
    pub fn finish_settings_spawn(&mut self, pid: u32)
        ensures
            final(self).deep_view() == window_spawned(old(self).deep_view(), pid),
    {
        proof {
            reveal(window_spawned);
        }
        self.window.settings_child_acknowledgements = false;
        self.window.settings_child_control_broken = false;
        self.window.pending_settings_presentation = None;
        self.window.settings_child_bootstrapped = false;
        self.window.settings_mutation_active = false;
        self.window.settings_child = Some(pid);
        self.window.settings_session_lease = true;
    }

    /// `spawn_failed`, computed.
    pub fn finish_failed_settings_spawn(&mut self, reload: RecoveryReload)
        ensures
            final(self).deep_view() == spawn_failed(old(self).deep_view(), reload.deep_view()),
    {
        proof {
            reveal(spawn_failed);
        }
        let should_resume: bool = self.gate.resume_monitor_after_settings;
        self.window.settings_session_lease = false;
        self.window.settings_child_bootstrapped = false;
        self.window.settings_mutation_active = false;
        self.gate.resume_monitor_after_settings = false;
        if should_resume {
            let _reloaded: bool = self.reload_config_after_settings_with_lease(reload, true);
        } else {
            self.revoke_settings_session_authorization_fail_closed(token_of(reload));
        }
    }

    /// `resumed_after_bootstrap`, computed.
    pub fn resume_monitor_after_settings_bootstrap(&mut self, trusted_now: bool)
        ensures
            final(self).deep_view() == resumed_after_bootstrap(
                old(self).deep_view(),
                trusted_now,
            ),
    {
        proof {
            reveal(resumed_after_bootstrap);
        }
        if !self.gate.desired_monitor_running || self.gate.storage_recovery_sticky_blocked {
            self.gate.resume_monitor_after_settings = false;
            self.update_tray_status();
            return;
        }
        if !self.gate.storage_recovery_ready {
            self.gate.resume_monitor_after_settings = true;
            self.update_tray_status();
            return;
        }
        if !self.accessibility_ready_for_start(trusted_now) {
            self.gate.resume_monitor_after_settings = false;
            self.update_tray_status();
            return;
        }
        let _started: bool = self.queue_fresh_config_and_start();
        self.gate.resume_monitor_after_settings = self.gate.desired_monitor_running;
        self.update_tray_status();
    }

    /// Acknowledges that a settings window announced itself, where it is the one that was
    /// opened and is alive. A failed acknowledgement changes nothing.
    pub fn acknowledge_settings_bootstrap_with<A: FnOnce() -> Result<(), String>>(
        &mut self,
        peer_pid: u32,
        child_alive: bool,
        trusted_now: bool,
        acknowledge: A,
    ) -> (r: bool)
        requires
            live_child(old(self).deep_view(), child_alive) == Some(peer_pid) ==> call_requires(
                acknowledge,
                (),
            ),
        ensures
            if live_child(old(self).deep_view(), child_alive) != Some(peer_pid) {
                !r && final(self).deep_view() == old(self).deep_view()
            } else {
                exists|answer: Result<(), String>| #[trigger]
                    call_ensures(acknowledge, (), answer) && r == (answer is Ok)
                        && final(self).deep_view() == if answer is Ok {
                        bootstrapped(old(self).deep_view(), trusted_now)
                    } else {
                        old(self).deep_view()
                    }
            },
    {
        proof {
            reveal(bootstrapped);
        }
        let is_child: bool = match self.window.settings_child {
            Some(pid) => child_alive && pid == peer_pid,
            None => false,
        };
        if !is_child {
            return false;
        }
        if let Err(_error) = acknowledge() {
            return false;
        }
        self.window.settings_child_bootstrapped = true;
        self.resume_monitor_after_settings_bootstrap(trusted_now);
        true
    }

    /// Whether a peer may ask for this.
    pub fn authorize_local_ipc_command(
        &self,
        command: LocalIpcCommand,
        peer_pid: u32,
        child_alive: bool,
    ) -> (r: bool)
        ensures
            r == authorized(
                command,
                peer_pid,
                live_child(self.deep_view(), child_alive),
                self.window.settings_child_bootstrapped,
            ),
    {
        let live: Option<u32> = if child_alive {
            self.window.settings_child
        } else {
            None
        };
        local_ipc_command_authorized(
            command,
            peer_pid,
            live,
            self.window.settings_child_bootstrapped,
        )
    }

    /// `mutation_begun`, computed.
    pub fn begin_settings_mutation(&mut self) -> (out: Option<u64>)
        ensures
            (final(self).deep_view(), out) == mutation_begun(old(self).deep_view()),
    {
        proof {
            reveal(mutation_begun);
        }
        if !self.window.settings_child_bootstrapped || self.gate.storage_recovery_sticky_blocked
            || !self.gate.storage_recovery_ready || self.window.settings_mutation_active {
            return None;
        }
        self.window.settings_mutation_active = true;
        self.gate.resume_monitor_after_settings = self.gate.desired_monitor_running;
        self.request_quiescence()
    }

    /// `mutation_waits`, computed.
    pub fn settings_mutation_waits(&self, request_id: u64) -> (r: bool)
        ensures
            r == mutation_waits(self.deep_view(), request_id),
    {
        self.window.settings_mutation_active && self.window.settings_child_bootstrapped
            && self.window.next_settings_launch_request_id == request_id
            && self.gate.storage_recovery_ready && !self.gate.storage_recovery_sticky_blocked
    }

    /// `mutation_quiet`, computed.
    pub fn finish_settings_mutation_begin(
        &mut self,
        request_id: u64,
        reply: QuiescenceReply,
    ) -> (r: bool)
        ensures
            (final(self).deep_view(), r) == mutation_quiet(
                old(self).deep_view(),
                request_id,
                reply,
            ),
    {
        proof {
            reveal(mutation_quiet);
        }
        if !self.settings_mutation_waits(request_id) {
            return false;
        }
        if !same_request(reply, request_id) {
            return false;
        }
        self.gate.worker_status = WorkerStatus::Idle;
        self.update_tray_status();
        true
    }

    /// `mutation_cancelled`, computed.
    pub fn cancel_settings_mutation(&mut self, trusted_now: bool) -> (r: bool)
        ensures
            (final(self).deep_view(), r) == mutation_cancelled(old(self).deep_view(), trusted_now),
    {
        proof {
            reveal(mutation_cancelled);
        }
        if !self.window.settings_mutation_active {
            return true;
        }
        self.window.settings_mutation_active = false;
        let should_resume: bool = self.gate.resume_monitor_after_settings
            && self.gate.desired_monitor_running && self.gate.storage_recovery_ready
            && !self.gate.storage_recovery_sticky_blocked && self.accessibility_ready_for_start(
            trusted_now,
        );
        let resumed: bool = !should_resume || self.queue_fresh_config_and_start();
        self.gate.resume_monitor_after_settings = self.gate.desired_monitor_running;
        self.update_tray_status();
        resumed
    }

    fn prepare_live_settings_commit(
        &mut self,
        startup: &StartupConfig,
        trusted_now: bool,
    ) -> (out: Option<WorkerCommand>)
        ensures
            final(self).deep_view() == commit_prepared(
                old(self).deep_view(),
                startup.deep_view(),
                trusted_now,
            ).0,
            out.deep_view() == commit_prepared(
                old(self).deep_view(),
                startup.deep_view(),
                trusted_now,
            ).1,
    {
        proof {
            reveal(commit_prepared);
        }
        if !self.window.settings_mutation_active {
            return None;
        }
        if !startup.storage_recovery_ready {
            self.block_storage_recovery_until_restart();
            return None;
        }
        if self.gate.storage_recovery_sticky_blocked {
            self.pause();
            return None;
        }
        let should_resume: bool = self.gate.desired_monitor_running
            && self.accessibility_ready_for_start(trusted_now);
        match self.prepare_reloaded_config(startup, should_resume) {
            None => None,
            Some(command) => {
                if self.commands.len() < self.capacity {
                    Some(command)
                } else {
                    self.fail_reloaded_config_delivery();
                    None
                }
            },
        }
    }

    fn finish_live_settings_commit(&mut self, command: WorkerCommand, config: AppConfig)
        ensures
            final(self).deep_view() == commit_finished(
                old(self).deep_view(),
                command.deep_view(),
                config.deep_view(),
            ),
    {
        proof {
            reveal(commit_finished);
        }
        let _sent: bool = self.try_send(command);
        self.finish_reloaded_config(config);
        self.window.settings_mutation_active = false;
        self.gate.resume_monitor_after_settings = self.gate.desired_monitor_running;
        self.update_tray_status();
    }

    /// Takes over what the settings window saved. The window is told so before the
    /// worker is, and the worker is told only where the window could be.
    pub fn acknowledge_live_settings_commit_with<A: FnOnce() -> Result<(), String>>(
        &mut self,
        startup: StartupConfig,
        trusted_now: bool,
        acknowledge: A,
    ) -> (r: bool)
        requires
            commit_prepared(old(self).deep_view(), startup.deep_view(), trusted_now).1 is Some
                ==> call_requires(acknowledge, ()),
        ensures
            ({
                let (ready, command) = commit_prepared(
                    old(self).deep_view(),
                    startup.deep_view(),
                    trusted_now,
                );
                match command {
                    None => !r && final(self).deep_view() == ready,
                    Some(command) => exists|answer: Result<(), String>| #[trigger]
                        call_ensures(acknowledge, (), answer) && r == (answer is Ok)
                            && final(self).deep_view() == if answer is Ok {
                            commit_finished(ready, command, startup.config.deep_view())
                        } else {
                            ready
                        },
                }
            }),
    {
        match self.prepare_live_settings_commit(&startup, trusted_now) {
            None => false,
            Some(command) => {
                if let Err(_error) = acknowledge() {
                    return false;
                }
                self.finish_live_settings_commit(command, startup.config);
                true
            },
        }
    }
}

} // verus!
