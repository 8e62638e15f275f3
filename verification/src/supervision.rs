//! How the supervisor starts, ends and answers what happens.

use crate::control::{LocalIpcCommand, MonitorControlCommand, MonitorControlState};
#[allow(unused_imports)]
use crate::control::{authorized, control_state};
#[allow(unused_imports)]
use crate::models::ConfigView;
use crate::models::{AppConfig, Tab, WorkerStatus};
use crate::startup::SessionStartup;
#[allow(unused_imports)]
use crate::startup::StartupView;
use crate::supervisor::{
    deadline_after, ChildStatus, ExitStep, IpcOutcome, Lifecycle, LightweightSupervisor,
    MonitorGate, RecoveryReload, SettingsWindow, TrayCommand, TrayStep, WorkerCommand,
    WorkerPauseLatch, FULL_UI_EXIT_CONFIRMATION_GRACE_MS, FULL_UI_GRACEFUL_EXIT_TIMEOUT_MS,
    STORAGE_RECOVERY_RETRY_INTERVAL_MS,
};
#[allow(unused_imports)]
use crate::supervisor::{
    authorization_revoked, control_started, later, live_child, monitor_stopped, monitor_toggled,
    mutation_begun, mutation_cancelled, reload_requested, reloaded, start_or_pause, storage_blocked,
    transition_active, window_opened, with_fresh_trust, with_invalidation, with_pause, with_resume,
    with_sent, CommandView, ReloadView, SupervisorView,
};
#[allow(unused_imports)]
use crate::waiting::elapsed;
use crate::waiting::elapsed_since;
use vstd::prelude::*;

verus! {

// ---------------------------------------------------------------------------
// The start
// ---------------------------------------------------------------------------

/// A supervisor at its start.
pub open spec fn fresh_supervisor(
    config: ConfigView,
    token: Seq<char>,
    capacity: usize,
    trusted: bool,
    now: u64,
) -> SupervisorView {
    SupervisorView {
        commands: Seq::empty(),
        capacity,
        config,
        settings_session_token: token,
        gate: MonitorGate {
            latch: WorkerPauseLatch { paused: false, epoch: 0 },
            generation: 0,
            storage_recovery_ready: true,
            storage_recovery_sticky_blocked: false,
            block_to_persist: false,
            worker_status: WorkerStatus::Idle,
            desired_monitor_running: true,
            accessibility_trusted: trusted,
            resume_monitor_after_settings: false,
            published: None,
        },
        window: SettingsWindow {
            settings_child: None,
            settings_child_acknowledgements: false,
            settings_child_control_broken: false,
            pending_settings_presentation: None,
            settings_child_bootstrapped: false,
            settings_mutation_active: false,
            pending_settings_launch: None,
            next_settings_launch_request_id: 0,
            settings_session_lease: false,
        },
        life: Lifecycle {
            startup_window_preference_pending: false,
            last_accessibility_check: now,
            last_storage_recovery_attempt: if now >= STORAGE_RECOVERY_RETRY_INTERVAL_MS {
                (now - STORAGE_RECOVERY_RETRY_INTERVAL_MS) as u64
            } else {
                now
            },
            exit_requested: false,
            settings_child_exit_deadline: None,
            exit_shutdown_finalized: false,
        },
    }
}

/// What was found of the storage at the start.
#[verifier::opaque]
pub open spec fn with_recovery_state(s: SupervisorView, ready: bool) -> SupervisorView {
    let known = SupervisorView {
        gate: MonitorGate { storage_recovery_ready: ready, ..s.gate },
        ..s
    };
    if ready {
        known
    } else {
        with_pause(known)
    }
}

/// Whether only a restart may clear the block.
#[verifier::opaque]
pub open spec fn with_sticky_block(s: SupervisorView, blocked: bool) -> SupervisorView {
    let known = SupervisorView {
        gate: MonitorGate {
            storage_recovery_sticky_blocked: blocked,
            storage_recovery_ready: s.gate.storage_recovery_ready && !blocked,
            ..s.gate
        },
        ..s
    };
    if blocked {
        with_pause(known)
    } else {
        known
    }
}

/// The window opens at the start unless it was chosen not to.
#[verifier::opaque]
pub open spec fn window_preference_applied(s: SupervisorView, now: u64) -> SupervisorView {
    let known = SupervisorView {
        life: Lifecycle { startup_window_preference_pending: false, ..s.life },
        ..s
    };
    if s.config.settings.start_minimized {
        known
    } else {
        window_opened(known, now, Tab::Accounts, true).0
    }
}

/// The worker is started where it may act.
#[verifier::opaque]
pub open spec fn start_queued(s: SupervisorView) -> SupervisorView {
    if s.gate.accessibility_trusted && s.gate.storage_recovery_ready {
        with_sent(s, CommandView::Start)
    } else {
        s
    }
}

/// The preferences at the start. Where the window opens, the monitor starts only after
/// it; where the preferences are not known yet, they wait.
#[verifier::opaque]
pub open spec fn startup_applied(
    s: SupervisorView,
    now: u64,
    preference_known: bool,
) -> SupervisorView {
    let shown = if preference_known {
        window_preference_applied(s, now)
    } else {
        SupervisorView {
            life: Lifecycle { startup_window_preference_pending: true, ..s.life },
            ..s
        }
    };
    if shown.window.pending_settings_launch is None {
        start_queued(shown)
    } else {
        shown
    }
}

/// The preferences that had to wait.
#[verifier::opaque]
pub open spec fn deferred_startup_applied(
    s: SupervisorView,
    now: u64,
    start_monitor: bool,
) -> SupervisorView {
    if !s.life.startup_window_preference_pending {
        s
    } else {
        let shown = window_preference_applied(s, now);
        if shown.window.pending_settings_launch is None && start_monitor {
            start_or_pause(shown)
        } else {
            shown
        }
    }
}

/// A supervisor that starts with what was loaded. Where the storage could only not be
/// looked at yet, the monitor is to run once it could.
#[verifier::opaque]
pub open spec fn session_started(
    startup: StartupView,
    sticky_blocked: bool,
    preference_known: bool,
    token: Seq<char>,
    capacity: usize,
    trusted: bool,
    now: u64,
) -> SupervisorView {
    let ready = startup.storage_recovery_ready;
    let s = with_sticky_block(
        with_recovery_state(fresh_supervisor(startup.config, token, capacity, trusted, now), ready),
        sticky_blocked,
    );
    let resuming = SupervisorView {
        gate: MonitorGate {
            resume_monitor_after_settings: s.gate.resume_monitor_after_settings || (!ready
                && !sticky_blocked && s.gate.accessibility_trusted),
            ..s.gate
        },
        ..s
    };
    startup_applied(resuming, now, preference_known)
}

/// Where a command of a peer goes.
#[derive(Debug, Clone, Copy, PartialEq, Eq, Structural)]
pub enum IpcRoute {
    /// The announcement of a settings window, which checks its own sender.
    Bootstrap,
    /// The sender may not ask for this.
    Unauthorized,
    /// A settings window saved something.
    Commit,
    Monitor(MonitorControlCommand),
    /// Any other command.
    Handle,
}

/// Every command but an announcement is checked for its sender first.
pub open spec fn ipc_route(
    s: SupervisorView,
    command: LocalIpcCommand,
    peer_pid: u32,
    child_alive: bool,
) -> IpcRoute {
    if command is SettingsBootstrap {
        IpcRoute::Bootstrap
    } else if !authorized(
        command,
        peer_pid,
        live_child(s, child_alive),
        s.window.settings_child_bootstrapped,
    ) {
        IpcRoute::Unauthorized
    } else {
        match command {
            LocalIpcCommand::ReloadConfig => IpcRoute::Commit,
            LocalIpcCommand::Monitor(command) => IpcRoute::Monitor(command),
            _ => IpcRoute::Handle,
        }
    }
}

impl LightweightSupervisor {
    pub fn new(
        config: AppConfig,
        settings_session_token: String,
        capacity: usize,
        accessibility_trusted: bool,
        now: u64,
    ) -> (out: Self)
        ensures
            out.deep_view() == fresh_supervisor(
                config.deep_view(),
                settings_session_token@,
                capacity,
                accessibility_trusted,
                now,
            ),
    {
        let commands: Vec<WorkerCommand> = Vec::new();
        assert(commands.deep_view() =~= Seq::<CommandView>::empty());
        LightweightSupervisor {
            commands,
            capacity,
            config,
            settings_session_token,
            gate: MonitorGate {
                latch: WorkerPauseLatch::new(),
                generation: 0,
                storage_recovery_ready: true,
                storage_recovery_sticky_blocked: false,
                block_to_persist: false,
                worker_status: WorkerStatus::Idle,
                desired_monitor_running: true,
                accessibility_trusted,
                resume_monitor_after_settings: false,
                published: None,
            },
            window: SettingsWindow {
                settings_child: None,
                settings_child_acknowledgements: false,
                settings_child_control_broken: false,
                pending_settings_presentation: None,
                settings_child_bootstrapped: false,
                settings_mutation_active: false,
                pending_settings_launch: None,
                next_settings_launch_request_id: 0,
                settings_session_lease: false,
            },
            life: Lifecycle {
                startup_window_preference_pending: false,
                last_accessibility_check: now,
                last_storage_recovery_attempt: if now >= STORAGE_RECOVERY_RETRY_INTERVAL_MS {
                    now - STORAGE_RECOVERY_RETRY_INTERVAL_MS
                } else {
                    now
                },
                exit_requested: false,
                settings_child_exit_deadline: None,
                exit_shutdown_finalized: false,
            },
        }
    }

    /// `session_started`, computed.
    pub fn for_session(
        session: SessionStartup,
        settings_session_token: String,
        capacity: usize,
        accessibility_trusted: bool,
        now: u64,
    ) -> (out: Self)
        ensures
            out.deep_view() == session_started(
                session.startup.deep_view(),
                session.sticky_blocked,
                session.window_preference_known,
                settings_session_token@,
                capacity,
                accessibility_trusted,
                now,
            ),
    {
        proof {
            reveal(session_started);
        }
        let ready: bool = session.startup.storage_recovery_ready;
        let mut out: LightweightSupervisor = LightweightSupervisor::new(
            session.startup.config,
            settings_session_token,
            capacity,
            accessibility_trusted,
            now,
        ).with_storage_recovery_state(ready).with_storage_recovery_sticky_blocked(
            session.sticky_blocked,
        );
        if !ready && !session.sticky_blocked && out.gate.accessibility_trusted {
            out.gate.resume_monitor_after_settings = true;
        }
        out.apply_startup_runtime_preferences(now, session.window_preference_known);
        out
    }

    /// `with_recovery_state`, computed.
    pub fn with_storage_recovery_state(self, storage_recovery_ready: bool) -> (out: Self)
        ensures
            out.deep_view() == with_recovery_state(self.deep_view(), storage_recovery_ready),
    {
        proof {
            reveal(with_recovery_state);
        }
        let mut out: LightweightSupervisor = self;
        out.gate.storage_recovery_ready = storage_recovery_ready;
        if !storage_recovery_ready {
            out.pause();
        }
        out
    }

    /// `with_sticky_block`, computed.
    pub fn with_storage_recovery_sticky_blocked(self, blocked: bool) -> (out: Self)
        ensures
            out.deep_view() == with_sticky_block(self.deep_view(), blocked),
    {
        proof {
            reveal(with_sticky_block);
        }
        let mut out: LightweightSupervisor = self;
        out.gate.storage_recovery_sticky_blocked = blocked;
        if blocked {
            out.gate.storage_recovery_ready = false;
            out.pause();
        }
        out
    }

    /// `window_preference_applied`, computed.
    pub fn apply_known_startup_window_preference(&mut self, now: u64)
        ensures
            final(self).deep_view() == window_preference_applied(old(self).deep_view(), now),
    {
        proof {
            reveal(window_preference_applied);
        }
        self.life.startup_window_preference_pending = false;
        if !self.config.settings.start_minimized {
            let _opened: bool = self.open_full_ui_window_with_monitor_policy(
                now,
                Tab::Accounts,
                true,
            );
        }
    }

    /// `start_queued`, computed.
    pub fn queue_monitor_start_if_accessibility_trusted(&mut self)
        ensures
            final(self).deep_view() == start_queued(old(self).deep_view()),
    {
        proof {
            reveal(start_queued);
        }
        if self.gate.accessibility_trusted && self.gate.storage_recovery_ready {
            let _sent: bool = self.try_send(WorkerCommand::Start);
        }
    }

    /// `startup_applied`, computed.
    pub fn apply_startup_runtime_preferences(&mut self, now: u64, window_preference_known: bool)
        ensures
            final(self).deep_view() == startup_applied(
                old(self).deep_view(),
                now,
                window_preference_known,
            ),
    {
        proof {
            reveal(startup_applied);
        }
        if window_preference_known {
            self.apply_known_startup_window_preference(now);
        } else {
            self.life.startup_window_preference_pending = true;
        }
        if self.window.pending_settings_launch.is_none() {
            self.queue_monitor_start_if_accessibility_trusted();
        }
    }

    /// `deferred_startup_applied`, computed.
    pub fn apply_deferred_startup_runtime_preferences(&mut self, now: u64, start_monitor: bool)
        ensures
            final(self).deep_view() == deferred_startup_applied(
                old(self).deep_view(),
                now,
                start_monitor,
            ),
    {
        proof {
            reveal(deferred_startup_applied);
        }
        if !self.life.startup_window_preference_pending {
            return;
        }
        self.apply_known_startup_window_preference(now);
        if self.window.pending_settings_launch.is_none() && start_monitor {
            self.queue_worker_start_fail_closed();
        }
    }
}

// ---------------------------------------------------------------------------
// Recovery that had to wait
// ---------------------------------------------------------------------------

/// A reload, and then the preferences that had to wait for it. The second part says
/// whether the reload went well.
#[verifier::opaque]
pub open spec fn recovery_completed(
    s: SupervisorView,
    now: u64,
    should_resume: bool,
    reload: ReloadView,
) -> (SupervisorView, bool) {
    let deferred = s.life.startup_window_preference_pending;
    let (after, ok) = reloaded(s, reload, should_resume && !deferred);
    if !ok {
        (after, false)
    } else if deferred {
        (deferred_startup_applied(with_resume(after, false), now, should_resume), true)
    } else {
        (with_resume(after, false), true)
    }
}

/// Recovery is to be tried again.
pub open spec fn retry_due(s: SupervisorView, now: u64) -> bool {
    &&& !s.gate.storage_recovery_ready
    &&& !s.gate.storage_recovery_sticky_blocked
    &&& !transition_active(s)
    &&& elapsed(s.life.last_storage_recovery_attempt, now) >= STORAGE_RECOVERY_RETRY_INTERVAL_MS
}

#[verifier::opaque]
pub open spec fn recovery_retried(
    s: SupervisorView,
    now: u64,
    trusted_now: bool,
    reload: ReloadView,
) -> (SupervisorView, bool) {
    if !retry_due(s, now) {
        (s, false)
    } else {
        let tried = SupervisorView {
            life: Lifecycle { last_storage_recovery_attempt: now, ..s.life },
            ..s
        };
        let wanted = tried.gate.resume_monitor_after_settings
            && tried.gate.desired_monitor_running;
        let fresh = if wanted {
            with_fresh_trust(tried, trusted_now)
        } else {
            tried
        };
        recovery_completed(fresh, now, wanted && fresh.gate.accessibility_trusted, reload)
    }
}

impl LightweightSupervisor {
    /// `recovery_completed`, computed.
    pub fn complete_blocked_storage_recovery_with(
        &mut self,
        now: u64,
        should_resume: bool,
        reload: RecoveryReload,
    ) -> (r: bool)
        ensures
            (final(self).deep_view(), r) == recovery_completed(
                old(self).deep_view(),
                now,
                should_resume,
                reload.deep_view(),
            ),
    {
        proof {
            reveal(recovery_completed);
        }
        let deferred: bool = self.life.startup_window_preference_pending;
        if !self.reload_config_after_settings_with_lease(reload, should_resume && !deferred) {
            return false;
        }
        self.gate.resume_monitor_after_settings = false;
        if deferred {
            self.apply_deferred_startup_runtime_preferences(now, should_resume);
        }
        true
    }

    /// `retry_due`, computed. The storage is to be loaded only where it is.
    pub fn storage_recovery_retry_due(&self, now: u64) -> (r: bool)
        ensures
            r == retry_due(self.deep_view(), now),
    {
        !self.gate.storage_recovery_ready && !self.gate.storage_recovery_sticky_blocked
            && !self.settings_transition_active() && elapsed_since(
            self.life.last_storage_recovery_attempt,
            now,
        ) >= STORAGE_RECOVERY_RETRY_INTERVAL_MS
    }

    /// `recovery_retried`, computed.
    pub fn retry_blocked_storage_recovery(
        &mut self,
        now: u64,
        trusted_now: bool,
        reload: RecoveryReload,
    ) -> (r: bool)
        ensures
            (final(self).deep_view(), r) == recovery_retried(
                old(self).deep_view(),
                now,
                trusted_now,
                reload.deep_view(),
            ),
    {
        proof {
            reveal(recovery_retried);
        }
        if !self.storage_recovery_retry_due(now) {
            return false;
        }
        self.life.last_storage_recovery_attempt = now;
        let should_resume: bool = self.gate.resume_monitor_after_settings
            && self.gate.desired_monitor_running && self.accessibility_ready_for_start(
            trusted_now,
        );
        self.complete_blocked_storage_recovery_with(now, should_resume, reload)
    }
}

// ---------------------------------------------------------------------------
// The end of the settings window
// ---------------------------------------------------------------------------

/// A settings window ended in the middle of a change; only a restart may tell what
/// became of it.
#[verifier::opaque]
pub open spec fn exit_left_storage_open(s: SupervisorView) -> SupervisorView {
    with_invalidation(
        with_pause(
            SupervisorView {
                gate: MonitorGate {
                    storage_recovery_ready: false,
                    storage_recovery_sticky_blocked: true,
                    desired_monitor_running: false,
                    resume_monitor_after_settings: false,
                    block_to_persist: true,
                    ..s.gate
                },
                ..s
            },
        ),
    )
}

/// The settings window is gone.
pub open spec fn without_window(s: SupervisorView) -> SupervisorView {
    SupervisorView {
        window: SettingsWindow {
            settings_child: None,
            settings_child_acknowledgements: false,
            settings_child_control_broken: false,
            settings_child_bootstrapped: false,
            settings_mutation_active: false,
            settings_session_lease: false,
            ..s.window
        },
        ..s
    }
}

#[verifier::opaque]
pub open spec fn window_ended(s: SupervisorView) -> SupervisorView {
    if s.window.settings_mutation_active {
        exit_left_storage_open(without_window(s))
    } else {
        without_window(s)
    }
}

pub open spec fn without_presentation(s: SupervisorView) -> SupervisorView {
    SupervisorView {
        window: SettingsWindow { pending_settings_presentation: None, ..s.window },
        ..s
    }
}

/// A settings window closed. What it left is reloaded under the lock, the monitor goes
/// on where it is meant to, and a page that was still asked for opens in a new window.
#[verifier::opaque]
pub open spec fn window_closed(
    s: SupervisorView,
    now: u64,
    trusted_now: bool,
    reload: ReloadView,
) -> SupervisorView {
    let ended = without_presentation(window_ended(s));
    let wanted = s.window.pending_settings_presentation is None
        && ended.gate.desired_monitor_running && !ended.gate.storage_recovery_sticky_blocked;
    let fresh = if wanted {
        with_fresh_trust(ended, trusted_now)
    } else {
        ended
    };
    let after = reloaded(
        with_resume(fresh, false),
        reload,
        wanted && fresh.gate.accessibility_trusted,
    ).0;
    match s.window.pending_settings_presentation {
        Some(pending) => window_opened(after, now, pending.requested_tab, true).0,
        None => after,
    }
}

/// A look at the process of the settings window. Without a confirmed end nothing of it
/// is given up.
#[verifier::opaque]
pub open spec fn window_polled(
    s: SupervisorView,
    now: u64,
    status: ChildStatus,
    trusted_now: bool,
    reload: ReloadView,
) -> SupervisorView {
    if s.window.settings_child is Some && status == ChildStatus::Exited {
        window_closed(s, now, trusted_now, reload)
    } else {
        s
    }
}

/// The settings window was to be ended by force.
#[verifier::opaque]
pub open spec fn window_forced(
    s: SupervisorView,
    now: u64,
    exited: bool,
    token: Option<Seq<char>>,
) -> SupervisorView {
    if s.window.settings_child is None {
        SupervisorView {
            life: Lifecycle { settings_child_exit_deadline: None, ..s.life },
            ..s
        }
    } else if exited {
        let ended = window_ended(s);
        authorization_revoked(
            SupervisorView {
                life: Lifecycle { settings_child_exit_deadline: None, ..ended.life },
                ..ended
            },
            token,
        )
    } else {
        let again = SupervisorView {
            life: Lifecycle {
                settings_child_exit_deadline: Some(
                    later(now, FULL_UI_EXIT_CONFIRMATION_GRACE_MS),
                ),
                ..s.life
            },
            ..s
        };
        if s.window.settings_mutation_active {
            exit_left_storage_open(again)
        } else {
            again
        }
    }
}

impl LightweightSupervisor {
    fn mark_settings_exit_storage_recovery_required(&mut self)
        ensures
            final(self).deep_view() == exit_left_storage_open(old(self).deep_view()),
    {
        proof {
            reveal(exit_left_storage_open);
        }
        self.gate.storage_recovery_ready = false;
        self.gate.storage_recovery_sticky_blocked = true;
        self.gate.desired_monitor_running = false;
        self.gate.resume_monitor_after_settings = false;
        self.gate.block_to_persist = true;
        self.pause();
        self.invalidate();
    }

    fn end_window(&mut self)
        ensures
            final(self).deep_view() == window_ended(old(self).deep_view()),
    {
        proof {
            reveal(window_ended);
        }
        let mutation_was_active: bool = self.window.settings_mutation_active;
        self.window.settings_child = None;
        self.window.settings_child_acknowledgements = false;
        self.window.settings_child_control_broken = false;
        self.window.settings_child_bootstrapped = false;
        self.window.settings_mutation_active = false;
        self.window.settings_session_lease = false;
        if mutation_was_active {
            self.mark_settings_exit_storage_recovery_required();
        }
    }

    fn close_window(&mut self, now: u64, trusted_now: bool, reload: RecoveryReload)
        ensures
            final(self).deep_view() == window_closed(
                old(self).deep_view(),
                now,
                trusted_now,
                reload.deep_view(),
            ),
    {
        proof {
            reveal(window_closed);
        }
        let replacement: Option<Tab> = match self.window.pending_settings_presentation {
            Some(pending) => Some(pending.requested_tab),
            None => None,
        };
        self.end_window();
        self.window.pending_settings_presentation = None;
        let should_resume: bool = replacement.is_none() && self.gate.desired_monitor_running
            && !self.gate.storage_recovery_sticky_blocked && self.accessibility_ready_for_start(
            trusted_now,
        );
        self.gate.resume_monitor_after_settings = false;
        let _reloaded: bool = self.reload_config_after_settings_with_lease(reload, should_resume);
        if let Some(tab) = replacement {
            let _opened: bool = self.open_full_ui_window_with_monitor_policy(now, tab, true);
        }
    }

    /// `window_polled`, computed.
    pub fn poll_settings_window(
        &mut self,
        now: u64,
        status: ChildStatus,
        trusted_now: bool,
        reload: RecoveryReload,
    )
        ensures
            final(self).deep_view() == window_polled(
                old(self).deep_view(),
                now,
                status,
                trusted_now,
                reload.deep_view(),
            ),
    {
        proof {
            reveal(window_polled);
        }
        if self.window.settings_child.is_some() {
            match status {
                ChildStatus::Exited => {
                    self.close_window(now, trusted_now, reload);
                },
                _ => {},
            }
        }
    }

    /// `window_forced`, computed.
    pub fn force_settings_child_exit_after_timeout(
        &mut self,
        now: u64,
        exited: bool,
        token: Option<String>,
    )
        ensures
            final(self).deep_view() == window_forced(
                old(self).deep_view(),
                now,
                exited,
                token.deep_view(),
            ),
    {
        proof {
            reveal(window_forced);
        }
        if self.window.settings_child.is_none() {
            self.life.settings_child_exit_deadline = None;
            return;
        }
        if exited {
            self.end_window();
            self.life.settings_child_exit_deadline = None;
            self.revoke_settings_session_authorization_fail_closed(token);
            return;
        }
        self.life.settings_child_exit_deadline = Some(
            deadline_after(now, FULL_UI_EXIT_CONFIRMATION_GRACE_MS),
        );
        if self.window.settings_mutation_active {
            self.mark_settings_exit_storage_recovery_required();
        }
    }
}

// ---------------------------------------------------------------------------
// The exit
// ---------------------------------------------------------------------------

/// The first request to exit: nothing starts any more.
#[verifier::opaque]
pub open spec fn exit_begun(s: SupervisorView, now: u64) -> SupervisorView {
    let quiet = with_invalidation(with_pause(s));
    SupervisorView {
        gate: MonitorGate {
            desired_monitor_running: false,
            resume_monitor_after_settings: false,
            ..quiet.gate
        },
        window: SettingsWindow {
            pending_settings_launch: None,
            pending_settings_presentation: None,
            ..quiet.window
        },
        life: Lifecycle {
            exit_requested: true,
            settings_child_exit_deadline: if s.window.settings_child is Some {
                Some(later(now, FULL_UI_GRACEFUL_EXIT_TIMEOUT_MS))
            } else {
                s.life.settings_child_exit_deadline
            },
            ..quiet.life
        },
        ..quiet
    }
}

/// The end of the exit.
#[verifier::opaque]
pub open spec fn exit_finalized(s: SupervisorView) -> SupervisorView {
    let quiet = with_invalidation(with_pause(s));
    with_sent(
        SupervisorView {
            gate: MonitorGate { worker_status: WorkerStatus::Idle, ..quiet.gate },
            window: SettingsWindow { settings_mutation_active: false, ..quiet.window },
            life: Lifecycle {
                exit_shutdown_finalized: true,
                settings_child_exit_deadline: None,
                ..quiet.life
            },
            ..quiet
        },
        CommandView::Stop,
    )
}

/// A request to exit. An open settings window is asked to close, and waited for.
#[verifier::opaque]
pub open spec fn exit_handled(s: SupervisorView, now: u64) -> (SupervisorView, ExitStep) {
    let begun = if s.life.exit_requested {
        s
    } else {
        exit_begun(s, now)
    };
    if begun.window.settings_child is Some {
        (
            begun,
            if s.life.exit_requested {
                ExitStep::WaitForChild
            } else {
                ExitStep::AskChild
            },
        )
    } else if begun.life.exit_shutdown_finalized {
        (begun, ExitStep::Finished)
    } else {
        (exit_finalized(begun), ExitStep::PublishStopped)
    }
}

/// The settings window had its time to close.
pub open spec fn force_due(s: SupervisorView, now: u64) -> bool {
    &&& s.life.exit_requested
    &&& s.window.settings_child is Some
    &&& s.life.settings_child_exit_deadline matches Some(deadline) && now >= deadline
}

/// A look at an exit under way, with what came of ending the window by force where that
/// was due.
#[verifier::opaque]
pub open spec fn exit_polled(
    s: SupervisorView,
    now: u64,
    exited: bool,
    token: Option<Seq<char>>,
) -> (SupervisorView, ExitStep) {
    if !s.life.exit_requested {
        (s, ExitStep::NotRequested)
    } else if force_due(s, now) {
        exit_handled(window_forced(s, now, exited, token), now)
    } else {
        exit_handled(s, now)
    }
}

impl LightweightSupervisor {
    fn begin_exit(&mut self, now: u64)
        ensures
            final(self).deep_view() == exit_begun(old(self).deep_view(), now),
    {
        proof {
            reveal(exit_begun);
        }
        self.life.exit_requested = true;
        self.pause();
        self.invalidate();
        self.gate.desired_monitor_running = false;
        self.gate.resume_monitor_after_settings = false;
        self.window.pending_settings_launch = None;
        self.window.pending_settings_presentation = None;
        if self.window.settings_child.is_some() {
            self.life.settings_child_exit_deadline = Some(
                deadline_after(now, FULL_UI_GRACEFUL_EXIT_TIMEOUT_MS),
            );
        }
    }

    fn finalize_exit(&mut self)
        ensures
            final(self).deep_view() == exit_finalized(old(self).deep_view()),
    {
        proof {
            reveal(exit_finalized);
        }
        self.life.exit_shutdown_finalized = true;
        self.life.settings_child_exit_deadline = None;
        self.pause();
        self.invalidate();
        self.gate.worker_status = WorkerStatus::Idle;
        self.window.settings_mutation_active = false;
        let _sent: bool = self.try_send(WorkerCommand::Stop);
    }

    /// `exit_handled`, computed.
    pub fn handle_exit_request(&mut self, now: u64) -> (out: ExitStep)
        ensures
            (final(self).deep_view(), out) == exit_handled(old(self).deep_view(), now),
    {
        proof {
            reveal(exit_handled);
        }
        let first: bool = !self.life.exit_requested;
        if first {
            self.begin_exit(now);
        }
        if self.window.settings_child.is_some() {
            return if first {
                ExitStep::AskChild
            } else {
                ExitStep::WaitForChild
            };
        }
        if self.life.exit_shutdown_finalized {
            return ExitStep::Finished;
        }
        self.finalize_exit();
        ExitStep::PublishStopped
    }

    /// `force_due`, computed. The window is to be ended by force only where it is.
    pub fn forced_settings_exit_due(&self, now: u64) -> (r: bool)
        ensures
            r == force_due(self.deep_view(), now),
    {
        match self.life.settings_child_exit_deadline {
            Some(deadline) => self.life.exit_requested && self.window.settings_child.is_some()
                && now >= deadline,
            None => false,
        }
    }

    /// `exit_polled`, computed.
    pub fn poll_exit_request(&mut self, now: u64, exited: bool, token: Option<String>) -> (out:
        ExitStep)
        ensures
            (final(self).deep_view(), out) == exit_polled(
                old(self).deep_view(),
                now,
                exited,
                token.deep_view(),
            ),
    {
        proof {
            reveal(exit_polled);
        }
        if !self.life.exit_requested {
            return ExitStep::NotRequested;
        }
        if self.forced_settings_exit_due(now) {
            self.force_settings_child_exit_after_timeout(now, exited, token);
        }
        self.handle_exit_request(now)
    }
}

// ---------------------------------------------------------------------------
// Commands
// ---------------------------------------------------------------------------

/// A command at the menu. Once the exit is under way only the exit counts.
#[verifier::opaque]
pub open spec fn tray_handled(
    s: SupervisorView,
    now: u64,
    command: TrayCommand,
    trusted_now: bool,
) -> (SupervisorView, TrayStep) {
    if s.life.exit_requested && command != TrayCommand::Exit {
        (s, TrayStep::Nothing)
    } else {
        match command {
            TrayCommand::OpenAccounts => (
                window_opened(s, now, Tab::Accounts, true).0,
                TrayStep::Nothing,
            ),
            TrayCommand::OpenSettings => (
                window_opened(s, now, Tab::Settings, true).0,
                TrayStep::Nothing,
            ),
            TrayCommand::PresentAccounts => (s, TrayStep::Nothing),
            TrayCommand::PresentSettings => (s, TrayStep::Nothing),
            TrayCommand::ToggleMonitor => (monitor_toggled(s, trusted_now), TrayStep::Nothing),
            TrayCommand::RequestAccessibilityAccess => (s, TrayStep::AskForAccessibility),
            TrayCommand::OpenAccessibilitySettings => (s, TrayStep::OpenAccessibilitySettings),
            TrayCommand::Exit => {
                let (after, step) = exit_handled(s, now);
                (after, TrayStep::Exit(step))
            },
        }
    }
}

/// A command for the monitor; the second part says whether it was carried out. Once the
/// exit is under way the monitor is neither started nor stopped.
#[verifier::opaque]
pub open spec fn monitor_commanded(
    s: SupervisorView,
    command: MonitorControlCommand,
    trusted_now: bool,
    reload: ReloadView,
) -> (SupervisorView, bool) {
    match command {
        MonitorControlCommand::Start => if s.life.exit_requested {
            (s, false)
        } else {
            control_started(s, trusted_now)
        },
        MonitorControlCommand::Stop => if s.life.exit_requested {
            (s, false)
        } else {
            (monitor_stopped(s), true)
        },
        MonitorControlCommand::StorageRecoveryBlocked => (storage_blocked(s), true),
        MonitorControlCommand::ReloadConfig => (reload_requested(s, reload).0, true),
    }
}

pub open spec fn committed(ok: bool) -> IpcOutcome {
    if ok {
        IpcOutcome::Committed
    } else {
        IpcOutcome::Refused
    }
}

/// A command of an authorized peer. The announcement of a settings window and what it
/// saved have ways of their own.
#[verifier::opaque]
pub open spec fn ipc_handled(
    s: SupervisorView,
    now: u64,
    command: LocalIpcCommand,
    trusted_now: bool,
    reload: ReloadView,
) -> (SupervisorView, IpcOutcome) {
    match command {
        LocalIpcCommand::Activate => if s.life.exit_requested {
            (s, IpcOutcome::Refused)
        } else {
            let (after, ok) = window_opened(s, now, Tab::Accounts, true);
            (after, committed(ok))
        },
        LocalIpcCommand::SettingsBootstrap => (s, IpcOutcome::Refused),
        LocalIpcCommand::SettingsMutationBegin => {
            let (after, request) = mutation_begun(s);
            (
                after,
                match request {
                    Some(request_id) => IpcOutcome::AwaitQuiescence { request_id },
                    None => IpcOutcome::Refused,
                },
            )
        },
        LocalIpcCommand::SettingsMutationCancel => {
            let (after, ok) = mutation_cancelled(s, trusted_now);
            (after, committed(ok))
        },
        LocalIpcCommand::ReloadConfig => (s, IpcOutcome::Refused),
        LocalIpcCommand::Monitor(command) => {
            let (after, ok) = monitor_commanded(s, command, trusted_now, reload);
            (after, committed(ok))
        },
    }
}

/// What is shown of the monitor after a command.
pub open spec fn shown_after(
    s: SupervisorView,
    command: MonitorControlCommand,
) -> MonitorControlState {
    match command {
        MonitorControlCommand::Stop => MonitorControlState::Stopped,
        MonitorControlCommand::StorageRecoveryBlocked => MonitorControlState::Stopped,
        _ => control_state(s.gate.worker_status, s.gate.desired_monitor_running),
    }
}

fn commit_outcome(ok: bool) -> (out: IpcOutcome)
    ensures
        out == committed(ok),
{
    if ok {
        IpcOutcome::Committed
    } else {
        IpcOutcome::Refused
    }
}

impl LightweightSupervisor {
    /// `tray_handled`, computed.
    pub fn process_tray_command(
        &mut self,
        now: u64,
        command: TrayCommand,
        trusted_now: bool,
    ) -> (out: TrayStep)
        ensures
            (final(self).deep_view(), out) == tray_handled(
                old(self).deep_view(),
                now,
                command,
                trusted_now,
            ),
    {
        proof {
            reveal(tray_handled);
        }
        match command {
            TrayCommand::Exit => {
                let step: ExitStep = self.handle_exit_request(now);
                return TrayStep::Exit(step);
            },
            _ => {},
        }
        if self.life.exit_requested {
            return TrayStep::Nothing;
        }
        match command {
            TrayCommand::OpenAccounts => {
                let _opened: bool = self.open_full_ui_window_with_monitor_policy(
                    now,
                    Tab::Accounts,
                    true,
                );
                TrayStep::Nothing
            },
            TrayCommand::OpenSettings => {
                let _opened: bool = self.open_full_ui_window_with_monitor_policy(
                    now,
                    Tab::Settings,
                    true,
                );
                TrayStep::Nothing
            },
            TrayCommand::ToggleMonitor => {
                self.toggle_monitor(trusted_now);
                TrayStep::Nothing
            },
            TrayCommand::RequestAccessibilityAccess => TrayStep::AskForAccessibility,
            TrayCommand::OpenAccessibilitySettings => TrayStep::OpenAccessibilitySettings,
            _ => TrayStep::Nothing,
        }
    }

    /// `monitor_commanded`, computed.
    pub fn process_monitor_command(
        &mut self,
        command: MonitorControlCommand,
        trusted_now: bool,
        reload: RecoveryReload,
    ) -> (r: bool)
        ensures
            (final(self).deep_view(), r) == monitor_commanded(
                old(self).deep_view(),
                command,
                trusted_now,
                reload.deep_view(),
            ),
    {
        proof {
            reveal(monitor_commanded);
        }
        match command {
            MonitorControlCommand::Start => {
                if self.life.exit_requested {
                    return false;
                }
                self.start_monitor_from_control_command(trusted_now)
            },
            MonitorControlCommand::Stop => {
                if self.life.exit_requested {
                    return false;
                }
                self.stop_monitor();
                true
            },
            MonitorControlCommand::StorageRecoveryBlocked => {
                self.block_storage_recovery_until_restart();
                true
            },
            MonitorControlCommand::ReloadConfig => {
                let _reloaded: bool = self.reload_config_after_settings(reload);
                true
            },
        }
    }

    /// `ipc_route`, computed.
    pub fn route_local_ipc_command(
        &self,
        command: LocalIpcCommand,
        peer_pid: u32,
        child_alive: bool,
    ) -> (out: IpcRoute)
        ensures
            out == ipc_route(self.deep_view(), command, peer_pid, child_alive),
    {
        if let LocalIpcCommand::SettingsBootstrap = command {
            return IpcRoute::Bootstrap;
        }
        if !self.authorize_local_ipc_command(command, peer_pid, child_alive) {
            return IpcRoute::Unauthorized;
        }
        match command {
            LocalIpcCommand::ReloadConfig => IpcRoute::Commit,
            LocalIpcCommand::Monitor(command) => IpcRoute::Monitor(command),
            _ => IpcRoute::Handle,
        }
    }

    /// `ipc_handled`, computed.
    pub fn handle_authorized_local_ipc_command(
        &mut self,
        now: u64,
        command: LocalIpcCommand,
        trusted_now: bool,
        reload: RecoveryReload,
    ) -> (out: IpcOutcome)
        ensures
            (final(self).deep_view(), out) == ipc_handled(
                old(self).deep_view(),
                now,
                command,
                trusted_now,
                reload.deep_view(),
            ),
    {
        proof {
            reveal(ipc_handled);
        }
        match command {
            LocalIpcCommand::Activate => {
                if self.life.exit_requested {
                    return IpcOutcome::Refused;
                }
                let ok: bool = self.open_full_ui_window_with_monitor_policy(
                    now,
                    Tab::Accounts,
                    true,
                );
                commit_outcome(ok)
            },
            LocalIpcCommand::SettingsBootstrap => IpcOutcome::Refused,
            LocalIpcCommand::SettingsMutationBegin => match self.begin_settings_mutation() {
                Some(request_id) => IpcOutcome::AwaitQuiescence { request_id },
                None => IpcOutcome::Refused,
            },
            LocalIpcCommand::SettingsMutationCancel => {
                let ok: bool = self.cancel_settings_mutation(trusted_now);
                commit_outcome(ok)
            },
            LocalIpcCommand::ReloadConfig => IpcOutcome::Refused,
            LocalIpcCommand::Monitor(command) => {
                let ok: bool = self.process_monitor_command(command, trusted_now, reload);
                commit_outcome(ok)
            },
        }
    }

    /// Shows what became of a command for the monitor that was carried out, and
    /// acknowledges it. Nothing is acknowledged that could not be shown.
    pub fn acknowledge_committed_monitor_command_with<
        P: FnOnce(MonitorControlState) -> Result<(), String>,
        A: FnOnce() -> Result<(), String>,
    >(&self, command: MonitorControlCommand, publish_control_state: P, acknowledge: A) -> (r: bool)
        requires
            call_requires(publish_control_state, (shown_after(self.deep_view(), command),)),
            forall|shown: Result<(), String>| #[trigger]
                call_ensures(
                    publish_control_state,
                    (shown_after(self.deep_view(), command),),
                    shown,
                ) && shown is Ok ==> call_requires(acknowledge, ()),
        ensures
            exists|published: Result<(), String>| #[trigger]
                call_ensures(
                    publish_control_state,
                    (shown_after(self.deep_view(), command),),
                    published,
                ) && if published is Err {
                    !r
                } else {
                    exists|answer: Result<(), String>| #[trigger]
                        call_ensures(acknowledge, (), answer) && r == (answer is Ok)
                },
    {
        let state: MonitorControlState = match command {
            MonitorControlCommand::Stop => MonitorControlState::Stopped,
            MonitorControlCommand::StorageRecoveryBlocked => MonitorControlState::Stopped,
            _ => self.monitor_control_state(),
        };
        if let Err(_error) = publish_control_state(state) {
            return false;
        }
        if let Err(_error) = acknowledge() {
            return false;
        }
        true
    }

    /// Carries out a command for the monitor, shows what became of it, and acknowledges
    /// it. Nothing is acknowledged that could not be shown.
    pub fn acknowledge_monitor_control_command_with<
        P: FnOnce(MonitorControlState) -> Result<(), String>,
        A: FnOnce() -> Result<(), String>,
    >(
        &mut self,
        command: MonitorControlCommand,
        trusted_now: bool,
        reload: RecoveryReload,
        publish_control_state: P,
        acknowledge: A,
    ) -> (r: bool)
        requires
            ({
                let (after, ok) = monitor_commanded(
                    old(self).deep_view(),
                    command,
                    trusted_now,
                    reload.deep_view(),
                );
                ok ==> {
                    &&& call_requires(publish_control_state, (shown_after(after, command),))
                    &&& forall|shown: Result<(), String>| #[trigger]
                        call_ensures(
                            publish_control_state,
                            (shown_after(after, command),),
                            shown,
                        ) && shown is Ok ==> call_requires(acknowledge, ())
                }
            }),
        ensures
            ({
                let (after, ok) = monitor_commanded(
                    old(self).deep_view(),
                    command,
                    trusted_now,
                    reload.deep_view(),
                );
                &&& final(self).deep_view() == after
                &&& if !ok {
                    !r
                } else {
                    exists|published: Result<(), String>| #[trigger]
                        call_ensures(
                            publish_control_state,
                            (shown_after(after, command),),
                            published,
                        ) && if published is Err {
                            !r
                        } else {
                            exists|answer: Result<(), String>| #[trigger]
                                call_ensures(acknowledge, (), answer) && r == (answer is Ok)
                        }
                }
            }),
    {
        if !self.process_monitor_command(command, trusted_now, reload) {
            return false;
        }
        self.acknowledge_committed_monitor_command_with(
            command,
            publish_control_state,
            acknowledge,
        )
    }
}

} // verus!
