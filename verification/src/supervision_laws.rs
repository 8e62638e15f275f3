//! What holds of the supervisor whatever happens to it.

use crate::control::{LocalIpcCommand, MonitorControlCommand};
#[allow(unused_imports)]
use crate::models::ConfigView;
use crate::models::{Tab, WorkerStatus};
#[allow(unused_imports)]
use crate::startup::StartupView;
#[allow(unused_imports)]
use crate::supervision::{
    deferred_startup_applied, exit_begun, exit_finalized, exit_handled, exit_left_storage_open,
    exit_polled, fresh_supervisor, ipc_handled, monitor_commanded, recovery_completed,
    recovery_retried, retry_due, session_started, start_queued, startup_applied, tray_handled,
    window_closed, window_ended, window_forced, window_polled, window_preference_applied,
    with_recovery_state, with_sticky_block, without_presentation,
};
use crate::supervisor::{
    ChildStatus, Lifecycle, MonitorGate, PresentationAnswer, QuiescenceReply, SettingsWindow,
    TrayCommand, FULL_UI_EXIT_CONFIRMATION_GRACE_MS,
};
#[allow(unused_imports)]
use crate::supervisor::{
    accessibility_polled, authorization_revoked, bootstrapped, commit_finished, commit_prepared,
    control_broken, control_started, delivery_failed, fresh_start, has_room, later, launch_polled,
    launch_step, live_child, monitor_paused, monitor_started, monitor_stopped, monitor_toggled,
    mutation_begun, mutation_cancelled, mutation_quiet, pause_transition_active,
    presentation_answered, presentation_expired, presentation_queued, presentation_sent,
    quiescence_requested, recovery_failed, reload_applied, reload_finished, reload_prepared,
    reload_requested, reload_token, reloaded, resumed_after_bootstrap, session_prepared,
    spawn_failed, start_or_pause, started_after_grant, started_beside_window, started_if_free,
    storage_blocked, transition_active, trust_applied, window_opened, window_spawned,
    with_fresh_trust, with_invalidation, with_pause, with_resume, with_sent, with_start_wanted,
    with_status_shown, with_token, CommandView, ReloadView, SessionView, SupervisorView,
};
use vstd::prelude::*;

verus! {

/// What can happen to a supervisor.
pub enum SupervisorEvent {
    Tray { now: u64, command: TrayCommand, trusted_now: bool },
    Ipc { now: u64, command: LocalIpcCommand, trusted_now: bool, reload: ReloadView },
    MonitorCommand { command: MonitorControlCommand, trusted_now: bool, reload: ReloadView },
    Bootstrap { peer_pid: u32, child_alive: bool, acknowledged: bool, trusted_now: bool },
    MutationReply { request_id: u64, reply: QuiescenceReply },
    Commit { startup: StartupView, trusted_now: bool, acknowledged: bool },
    Worker { status: WorkerStatus },
    Trust { trusted: bool },
    TrustPolled { now: u64, trusted: bool },
    PresentationSent { now: u64, reader_ready: bool, sent: bool },
    PresentationAnswered { now: u64, answer: PresentationAnswer },
    PresentationExpired { now: u64 },
    LaunchPolled { now: u64, reply: QuiescenceReply },
    Session { session: SessionView },
    Spawned { pid: u32 },
    SpawnFailed { reload: ReloadView },
    WindowPolled { now: u64, status: ChildStatus, trusted_now: bool, reload: ReloadView },
    Forced { now: u64, exited: bool, token: Option<Seq<char>> },
    ExitPolled { now: u64, exited: bool, token: Option<Seq<char>> },
    Retried { now: u64, trusted_now: bool, reload: ReloadView },
}

/// The state after an announcement of a settings window.
pub open spec fn after_bootstrap(
    s: SupervisorView,
    peer_pid: u32,
    child_alive: bool,
    acknowledged: bool,
    trusted_now: bool,
) -> SupervisorView {
    if live_child(s, child_alive) == Some(peer_pid) && acknowledged {
        bootstrapped(s, trusted_now)
    } else {
        s
    }
}

/// The state after a settings window saved something.
pub open spec fn after_commit(
    s: SupervisorView,
    startup: StartupView,
    trusted_now: bool,
    acknowledged: bool,
) -> SupervisorView {
    let (ready, command) = commit_prepared(s, startup, trusted_now);
    match command {
        Some(command) => if acknowledged {
            commit_finished(ready, command, startup.config)
        } else {
            ready
        },
        None => ready,
    }
}

/// The state after an event. A window is opened only where there is none.
pub open spec fn supervisor_next(s: SupervisorView, e: SupervisorEvent) -> SupervisorView {
    match e {
        SupervisorEvent::Tray { now, command, trusted_now } => tray_handled(
            s,
            now,
            command,
            trusted_now,
        ).0,
        SupervisorEvent::Ipc { now, command, trusted_now, reload } => ipc_handled(
            s,
            now,
            command,
            trusted_now,
            reload,
        ).0,
        SupervisorEvent::MonitorCommand { command, trusted_now, reload } => monitor_commanded(
            s,
            command,
            trusted_now,
            reload,
        ).0,
        SupervisorEvent::Bootstrap { peer_pid, child_alive, acknowledged, trusted_now } => {
            after_bootstrap(s, peer_pid, child_alive, acknowledged, trusted_now)
        },
        SupervisorEvent::MutationReply { request_id, reply } => mutation_quiet(
            s,
            request_id,
            reply,
        ).0,
        SupervisorEvent::Commit { startup, trusted_now, acknowledged } => after_commit(
            s,
            startup,
            trusted_now,
            acknowledged,
        ),
        SupervisorEvent::Worker { status } => with_status_shown(
            SupervisorView {
                gate: MonitorGate { worker_status: status, ..s.gate },
                ..s
            },
        ),
        SupervisorEvent::Trust { trusted } => trust_applied(s, trusted, true),
        SupervisorEvent::TrustPolled { now, trusted } => accessibility_polled(s, now, trusted),
        SupervisorEvent::PresentationSent { now, reader_ready, sent } => presentation_sent(
            s,
            now,
            reader_ready,
            sent,
        ),
        SupervisorEvent::PresentationAnswered { now, answer } => presentation_answered(
            s,
            now,
            answer,
        ),
        SupervisorEvent::PresentationExpired { now } => presentation_expired(s, now),
        SupervisorEvent::LaunchPolled { now, reply } => launch_polled(s, now, reply),
        SupervisorEvent::Session { session } => session_prepared(s, session).0,
        SupervisorEvent::Spawned { pid } => if s.window.settings_child is None {
            window_spawned(s, pid)
        } else {
            s
        },
        SupervisorEvent::SpawnFailed { reload } => if s.window.settings_child is None {
            spawn_failed(s, reload)
        } else {
            s
        },
        SupervisorEvent::WindowPolled { now, status, trusted_now, reload } => window_polled(
            s,
            now,
            status,
            trusted_now,
            reload,
        ),
        SupervisorEvent::Forced { now, exited, token } => window_forced(s, now, exited, token),
        SupervisorEvent::ExitPolled { now, exited, token } => exit_polled(
            s,
            now,
            exited,
            token,
        ).0,
        SupervisorEvent::Retried { now, trusted_now, reload } => recovery_retried(
            s,
            now,
            trusted_now,
            reload,
        ).0,
    }
}

/// A command after which the worker acts.
pub open spec fn starts(command: CommandView) -> bool {
    match command {
        CommandView::Start => true,
        CommandView::ApplyConfigAndReleasePause { start_monitor, .. } => start_monitor,
        _ => false,
    }
}

/// What was sent before is still there, and nothing that starts the worker was sent
/// since.
#[verifier::opaque]
pub open spec fn adds_no_start(before: Seq<CommandView>, after: Seq<CommandView>) -> bool {
    &&& before.len() <= after.len()
    &&& forall|i: int| 0 <= i < before.len() ==> #[trigger] after[i] == before[i]
    &&& forall|i: int| before.len() <= i < after.len() ==> !starts(#[trigger] after[i])
}

proof fn lemma_adds_nothing(a: Seq<CommandView>)
    ensures
        adds_no_start(a, a),
{
    reveal(adds_no_start);
}

proof fn lemma_adds_one(a: Seq<CommandView>, c: CommandView)
    requires
        !starts(c),
    ensures
        adds_no_start(a, a.push(c)),
{
    reveal(adds_no_start);
}

proof fn lemma_adds_more(a: Seq<CommandView>, b: Seq<CommandView>, c: Seq<CommandView>)
    requires
        adds_no_start(a, b),
        adds_no_start(b, c),
    ensures
        adds_no_start(a, c),
{
    reveal(adds_no_start);
    assert forall|i: int| a.len() <= i < c.len() implies !starts(#[trigger] c[i]) by {
        if i < b.len() {
            assert(c[i] == b[i]);
        }
    }
    assert forall|i: int| 0 <= i < a.len() implies #[trigger] c[i] == a[i] by {
        assert(c[i] == b[i]);
    }
}

/// The storage is blocked until a restart, and the worker is paused.
pub open spec fn blocked(s: SupervisorView) -> bool {
    &&& s.gate.storage_recovery_sticky_blocked
    &&& !s.gate.storage_recovery_ready
    &&& s.gate.latch.paused
}

/// The lease is held while there is a window; only a window that is there has announced
/// itself, and only one that has changes anything.
pub open spec fn session_sound(s: SupervisorView) -> bool {
    &&& s.window.settings_child is Some ==> s.window.settings_session_lease
    &&& s.window.settings_child_bootstrapped ==> s.window.settings_child is Some
    &&& s.window.settings_mutation_active ==> s.window.settings_child_bootstrapped
}

/// A settings window changes something.
pub open spec fn in_change(s: SupervisorView) -> bool {
    session_sound(s) && s.window.settings_mutation_active
}

spec fn guarded(a: SupervisorView, b: SupervisorView) -> bool {
    &&& blocked(a) ==> blocked(b) && adds_no_start(a.commands, b.commands)
    &&& a.gate.latch.paused ==> b.gate.latch.paused
    &&& a.life.exit_requested ==> b.life.exit_requested
    &&& session_sound(a) ==> session_sound(b)
}

spec fn still(a: SupervisorView, b: SupervisorView) -> bool {
    !a.gate.desired_monitor_running ==> !b.gate.desired_monitor_running && adds_no_start(
        a.commands,
        b.commands,
    )
}

spec fn calm(a: SupervisorView, b: SupervisorView) -> bool {
    session_sound(a) ==> {
        &&& a.window.settings_mutation_active && b.window.settings_mutation_active
            ==> adds_no_start(a.commands, b.commands)
        &&& !a.window.settings_mutation_active ==> !b.window.settings_mutation_active
    }
}

spec fn kept(a: SupervisorView, b: SupervisorView) -> bool {
    guarded(a, b) && still(a, b) && calm(a, b)
}

proof fn lemma_chain(a: SupervisorView, b: SupervisorView, c: SupervisorView)
    requires
        guarded(a, b),
        guarded(b, c),
    ensures
        guarded(a, c),
        still(a, b) && still(b, c) ==> still(a, c),
        calm(a, b) && calm(b, c) ==> calm(a, c),
{
    if adds_no_start(a.commands, b.commands) && adds_no_start(b.commands, c.commands) {
        lemma_adds_more(a.commands, b.commands, c.commands);
    }
}

/// A step that starts nothing.
proof fn lemma_quiet(a: SupervisorView, b: SupervisorView, c: CommandView)
    requires
        !starts(c),
        b.commands == a.commands || b.commands == a.commands.push(c),
        blocked(a) ==> blocked(b),
        a.gate.latch.paused ==> b.gate.latch.paused,
        a.life.exit_requested ==> b.life.exit_requested,
        !a.gate.desired_monitor_running ==> !b.gate.desired_monitor_running,
        session_sound(a) ==> session_sound(b),
        !a.window.settings_mutation_active ==> !b.window.settings_mutation_active,
    ensures
        kept(a, b),
{
    lemma_adds_nothing(a.commands);
    lemma_adds_one(a.commands, c);
}

/// A step that starts the worker, where it may be started.
proof fn lemma_start(a: SupervisorView, b: SupervisorView)
    requires
        !blocked(a),
        a.gate.latch.paused ==> b.gate.latch.paused,
        a.life.exit_requested ==> b.life.exit_requested,
        a.window == b.window,
        a.gate.desired_monitor_running,
    ensures
        guarded(a, b),
        still(a, b),
        !in_change(a) ==> calm(a, b),
{
}

proof fn lemma_same_gate(s: SupervisorView)
    ensures
        with_status_shown(s).gate == (MonitorGate {
            published: with_status_shown(s).gate.published,
            ..s.gate
        }),
        with_status_shown(s) == (SupervisorView { gate: with_status_shown(s).gate, ..s }),
        kept(s, with_status_shown(s)),
{
    reveal(with_status_shown);
    lemma_quiet(s, with_status_shown(s), CommandView::Stop);
}

proof fn lemma_trust(s: SupervisorView, t: bool)
    ensures
        ({
            let b = with_fresh_trust(s, t);
            &&& kept(s, b)
            &&& b.window == s.window
            &&& b.life == s.life
            &&& b.commands == s.commands
            &&& b.gate.desired_monitor_running == s.gate.desired_monitor_running
            &&& b.gate.storage_recovery_sticky_blocked == s.gate.storage_recovery_sticky_blocked
            &&& b.gate.storage_recovery_ready == s.gate.storage_recovery_ready
            &&& b.gate.latch == s.gate.latch
        }),
{
    reveal(with_fresh_trust);
    reveal(with_status_shown);
    lemma_quiet(s, with_fresh_trust(s, t), CommandView::Stop);
}

proof fn lemma_fresh_start(s: SupervisorView)
    ensures
        guarded(s, fresh_start(s).0),
        still(s, fresh_start(s).0),
        !in_change(s) ==> calm(s, fresh_start(s).0),
        fresh_start(s).0.window == s.window,
        fresh_start(s).0.gate.desired_monitor_running == s.gate.desired_monitor_running,
{
    reveal(fresh_start);
    if !s.gate.desired_monitor_running || s.gate.storage_recovery_sticky_blocked {
        lemma_quiet(s, fresh_start(s).0, CommandView::Stop);
    } else {
        lemma_start(s, fresh_start(s).0);
    }
}

proof fn lemma_start_or_pause(s: SupervisorView)
    requires
        !blocked(s),
        s.gate.desired_monitor_running,
    ensures
        guarded(s, start_or_pause(s)),
        still(s, start_or_pause(s)),
        !in_change(s) ==> calm(s, start_or_pause(s)),
        start_or_pause(s).window == s.window,
{
    reveal(start_or_pause);
    lemma_start(s, start_or_pause(s));
}

proof fn lemma_started_if_free(s: SupervisorView)
    requires
        !blocked(s),
        s.gate.desired_monitor_running,
        !in_change(s),
    ensures
        kept(s, started_if_free(s)),
{
    reveal(started_if_free);
    lemma_fresh_start(s);
    if !s.gate.latch.paused && s.gate.worker_status == WorkerStatus::Idle {
        lemma_start_or_pause(s);
    }
    lemma_quiet(s, s, CommandView::Stop);
}

proof fn lemma_resume(s: SupervisorView, r: bool)
    ensures
        kept(s, with_resume(s, r)),
{
    lemma_quiet(s, with_resume(s, r), CommandView::Stop);
}

/// Starts that somebody asked for.
proof fn lemma_asked_starts(s: SupervisorView, t: bool)
    ensures
        guarded(s, monitor_started(s, t)),
        calm(s, monitor_started(s, t)),
        guarded(s, control_started(s, t).0),
        calm(s, control_started(s, t).0),
{
    reveal(monitor_started);
    reveal(control_started);
    reveal(started_beside_window);
    lemma_quiet(s, s, CommandView::Stop);
    if !s.gate.storage_recovery_sticky_blocked {
        let wanted = with_start_wanted(s);
        assert(wanted.window == s.window && wanted.commands == s.commands && wanted.life == s.life
            && wanted.gate.latch == s.gate.latch && wanted.gate.desired_monitor_running
            && !wanted.gate.storage_recovery_sticky_blocked) by {
            reveal(with_start_wanted);
            reveal(with_status_shown);
        }
        lemma_adds_nothing(s.commands);
        assert(guarded(s, wanted) && calm(s, wanted));
        lemma_resume(wanted, true);
        lemma_chain(s, wanted, with_resume(wanted, true));
        let fresh = with_fresh_trust(wanted, t);
        lemma_trust(wanted, t);
        lemma_chain(s, wanted, fresh);
        lemma_resume(fresh, true);
        lemma_chain(s, fresh, with_resume(fresh, true));
        let free = with_resume(fresh, false);
        lemma_resume(fresh, false);
        lemma_chain(s, fresh, free);
        if !pause_transition_active(fresh) {
            lemma_started_if_free(fresh);
            lemma_chain(s, fresh, started_if_free(fresh));
            lemma_started_if_free(free);
            lemma_chain(s, free, started_if_free(free));
        }
    }
}

proof fn lemma_grant(s: SupervisorView)
    ensures
        kept(s, started_after_grant(s)),
{
    reveal(started_after_grant);
    lemma_quiet(s, s, CommandView::Stop);
    lemma_resume(s, true);
    if s.gate.desired_monitor_running && !s.gate.storage_recovery_sticky_blocked
        && !pause_transition_active(s) {
        lemma_started_if_free(s);
    }
}

proof fn lemma_stops(s: SupervisorView)
    ensures
        kept(s, monitor_stopped(s)),
        kept(s, monitor_paused(s)),
        kept(s, storage_blocked(s)),
        blocked(storage_blocked(s)),
        storage_blocked(s).settings_session_token == s.settings_session_token,
{
    reveal(monitor_stopped);
    reveal(monitor_paused);
    reveal(storage_blocked);
    reveal(with_status_shown);
    lemma_quiet(s, monitor_stopped(s), CommandView::Stop);
    lemma_quiet(s, monitor_paused(s), CommandView::Stop);
    lemma_quiet(s, storage_blocked(s), CommandView::Stop);
}

proof fn lemma_trust_applied(s: SupervisorView, trusted: bool)
    ensures
        kept(s, trust_applied(s, trusted, true)),
{
    reveal(trust_applied);
    lemma_same_gate(s);
    if trusted != s.gate.accessibility_trusted {
        let changed = SupervisorView {
            gate: MonitorGate { accessibility_trusted: trusted, ..s.gate },
            ..s
        };
        lemma_quiet(s, changed, CommandView::Stop);
        let after = if trusted {
            started_after_grant(changed)
        } else {
            monitor_paused(changed)
        };
        lemma_grant(changed);
        lemma_stops(changed);
        lemma_chain(s, changed, after);
        lemma_same_gate(after);
        lemma_chain(s, after, with_status_shown(after));
    }
}

proof fn lemma_trust_polled(s: SupervisorView, now: u64, trusted: bool)
    ensures
        kept(s, accessibility_polled(s, now, trusted)),
{
    reveal(accessibility_polled);
    lemma_quiet(s, s, CommandView::Stop);
    let looked = SupervisorView {
        life: Lifecycle { last_accessibility_check: now, ..s.life },
        ..s
    };
    lemma_quiet(s, looked, CommandView::Stop);
    lemma_trust_applied(looked, trusted);
    lemma_chain(s, looked, trust_applied(looked, trusted, true));
}

proof fn lemma_presentations(
    s: SupervisorView,
    now: u64,
    tab: Tab,
    answer: PresentationAnswer,
    r: bool,
    sent: bool,
)
    ensures
        kept(s, presentation_queued(s, tab).0),
        presentation_queued(s, tab).0.gate == s.gate,
        presentation_queued(s, tab).0.settings_session_token == s.settings_session_token,
        kept(s, presentation_sent(s, now, r, sent)),
        kept(s, presentation_answered(s, now, answer)),
        kept(s, presentation_expired(s, now)),
{
    reveal(presentation_queued);
    reveal(presentation_sent);
    reveal(presentation_answered);
    reveal(presentation_expired);
    reveal(control_broken);
    lemma_quiet(s, presentation_queued(s, tab).0, CommandView::Stop);
    lemma_quiet(s, presentation_sent(s, now, r, sent), CommandView::Stop);
    lemma_quiet(s, presentation_answered(s, now, answer), CommandView::Stop);
    lemma_quiet(s, presentation_expired(s, now), CommandView::Stop);
}

proof fn lemma_quiescence(s: SupervisorView)
    ensures
        ({
            let b = quiescence_requested(s).0;
            &&& kept(s, b)
            &&& b.window == (SettingsWindow {
                next_settings_launch_request_id: b.window.next_settings_launch_request_id,
                ..s.window
            })
            &&& b.life == s.life
            &&& b.settings_session_token == s.settings_session_token
            &&& b.gate.desired_monitor_running == s.gate.desired_monitor_running
            &&& b.gate.storage_recovery_sticky_blocked == s.gate.storage_recovery_sticky_blocked
            &&& b.gate.latch.paused
        }),
{
    reveal(quiescence_requested);
    let quiet = with_invalidation(with_pause(s));
    lemma_quiet(s, quiet, CommandView::Stop);
    let stopped = with_sent(quiet, CommandView::Stop);
    lemma_quiet(quiet, stopped, CommandView::Stop);
    lemma_chain(s, quiet, stopped);
    if stopped.window.next_settings_launch_request_id < u64::MAX {
        let id = (stopped.window.next_settings_launch_request_id + 1) as u64;
        let numbered = SupervisorView {
            window: SettingsWindow { next_settings_launch_request_id: id, ..stopped.window },
            ..stopped
        };
        let asked = with_sent(numbered, CommandView::Quiesce { request_id: id });
        lemma_quiet(stopped, numbered, CommandView::Stop);
        lemma_chain(s, stopped, numbered);
        lemma_quiet(numbered, asked, CommandView::Quiesce { request_id: id });
        lemma_chain(s, numbered, asked);
    }
}

proof fn lemma_window_opened(s: SupervisorView, now: u64, tab: Tab, pause: bool)
    ensures
        ({
            let b = window_opened(s, now, tab, pause).0;
            &&& kept(s, b)
            &&& b.settings_session_token == s.settings_session_token
            &&& b.gate.desired_monitor_running == s.gate.desired_monitor_running
            &&& b.gate.storage_recovery_sticky_blocked == s.gate.storage_recovery_sticky_blocked
            &&& b.window.settings_mutation_active == s.window.settings_mutation_active
        }),
{
    reveal(window_opened);
    lemma_presentations(s, now, tab, PresentationAnswer::Failed, true, true);
    assert(presentation_queued(s, tab).0.window.settings_mutation_active
        == s.window.settings_mutation_active) by {
        reveal(presentation_queued);
    }
    let free = with_resume(s, false);
    let asked = quiescence_requested(free).0;
    let b = window_opened(s, now, tab, pause).0;
    lemma_resume(s, false);
    lemma_quiescence(free);
    lemma_chain(s, free, asked);
    if s.window.pending_settings_launch is Some {
        lemma_quiet(s, b, CommandView::Stop);
    } else if s.window.pending_settings_presentation is None && s.window.settings_child is None {
        lemma_quiet(asked, b, CommandView::Stop);
        lemma_chain(s, asked, b);
    }
}

proof fn lemma_recovery_failed(s: SupervisorView, token: Option<Seq<char>>)
    ensures
        kept(s, recovery_failed(s)),
        kept(s, with_token(s, token)),
        kept(s, authorization_revoked(s, token)),
        authorization_revoked(s, token).window == s.window,
        recovery_failed(s).settings_session_token == s.settings_session_token,
        recovery_failed(s).window == s.window,
{
    reveal(recovery_failed);
    reveal(authorization_revoked);
    lemma_quiet(s, recovery_failed(s), CommandView::Stop);
    lemma_quiet(s, with_token(s, token), CommandView::Stop);
    lemma_quiet(s, authorization_revoked(s, token), CommandView::Stop);
}

proof fn lemma_prepared(s: SupervisorView, startup: StartupView, start: bool)
    ensures
        ({
            let (b, command) = reload_prepared(s, startup, start);
            &&& kept(s, b)
            &&& b.settings_session_token == s.settings_session_token
            &&& command is Some ==> {
                &&& !b.gate.storage_recovery_sticky_blocked
                &&& b.commands == s.commands
                &&& b.window == s.window
                &&& b.life == s.life
                &&& b.gate.desired_monitor_running == s.gate.desired_monitor_running
                &&& starts(command->0) ==> b.gate.desired_monitor_running
            }
        }),
{
    reveal(reload_prepared);
    let quiet = with_invalidation(with_pause(s));
    lemma_quiet(s, quiet, CommandView::Stop);
    lemma_stops(quiet);
    lemma_chain(s, quiet, storage_blocked(quiet));
    lemma_quiet(s, with_pause(quiet), CommandView::Stop);
}

proof fn lemma_delivery_failed(s: SupervisorView)
    ensures
        kept(s, delivery_failed(s)),
        delivery_failed(s).settings_session_token == s.settings_session_token,
        delivery_failed(s).window == s.window,
{
    reveal(delivery_failed);
    lemma_quiet(s, delivery_failed(s), CommandView::Stop);
}

proof fn lemma_reload_applied(s: SupervisorView, startup: StartupView, start: bool)
    requires
        !in_change(s),
    ensures
        ({
            let (b, ok) = reload_applied(s, startup, start);
            &&& kept(s, b)
            &&& b.settings_session_token == s.settings_session_token
            &&& ok ==> !b.gate.storage_recovery_sticky_blocked && b.gate.desired_monitor_running
                == s.gate.desired_monitor_running
            &&& ok ==> b.life == s.life
        }),
{
    reveal(reload_applied);
    reveal(reload_finished);
    reveal(with_status_shown);
    let (ready, command) = reload_prepared(s, startup, start);
    lemma_prepared(s, startup, start);
    lemma_delivery_failed(ready);
    lemma_chain(s, ready, delivery_failed(ready));
    if command is Some && has_room(ready) {
        let b = reload_applied(s, startup, start).0;
        if starts(command->0) {
            lemma_start(ready, b);
        } else {
            lemma_quiet(ready, b, command->0);
        }
        lemma_chain(s, ready, b);
    }
}

proof fn lemma_reloaded(s: SupervisorView, reload: ReloadView, start: bool)
    requires
        !in_change(s),
    ensures
        ({
            let (b, ok) = reloaded(s, reload, start);
            &&& kept(s, b)
            &&& reload_token(reload) is Some ==> Some(b.settings_session_token) == reload_token(
                reload,
            )
            &&& ok ==> !b.gate.storage_recovery_sticky_blocked && b.gate.desired_monitor_running
                == s.gate.desired_monitor_running
            &&& ok ==> b.life == s.life
        }),
{
    reveal(reloaded);
    let token = reload_token(reload);
    let renewed = with_token(s, token);
    lemma_recovery_failed(s, token);
    lemma_recovery_failed(renewed, token);
    lemma_chain(s, renewed, recovery_failed(renewed));
    lemma_quiet(s, with_pause(renewed), CommandView::Stop);
    if let ReloadView::Loaded { startup, token: t } = reload {
        lemma_reload_applied(renewed, startup, start);
        lemma_chain(s, renewed, reload_applied(renewed, startup, start).0);
    }
}

proof fn lemma_reload_requested(s: SupervisorView, reload: ReloadView)
    ensures
        kept(s, reload_requested(s, reload).0),
{
    reveal(reload_requested);
    lemma_quiet(s, s, CommandView::Stop);
    if !transition_active(s) {
        lemma_reloaded(s, reload, false);
    }
}

proof fn lemma_launches(
    s: SupervisorView,
    now: u64,
    reply: QuiescenceReply,
    session: SessionView,
    pid: u32,
)
    ensures
        kept(s, launch_polled(s, now, reply)),
        kept(s, session_prepared(s, session).0),
        kept(s, window_spawned(s, pid)),
{
    reveal(launch_polled);
    reveal(session_prepared);
    reveal(window_spawned);
    reveal(authorization_revoked);
    reveal(recovery_failed);
    lemma_quiet(s, launch_polled(s, now, reply), CommandView::Stop);
    lemma_quiet(s, session_prepared(s, session).0, CommandView::Stop);
    lemma_quiet(s, window_spawned(s, pid), CommandView::Stop);
}

proof fn lemma_spawn_failed(s: SupervisorView, reload: ReloadView)
    requires
        s.window.settings_child is None,
    ensures
        kept(s, spawn_failed(s, reload)),
{
    reveal(spawn_failed);
    let ended = SupervisorView {
        gate: MonitorGate { resume_monitor_after_settings: false, ..s.gate },
        window: SettingsWindow {
            settings_session_lease: false,
            settings_child_bootstrapped: false,
            settings_mutation_active: false,
            ..s.window
        },
        ..s
    };
    lemma_quiet(s, ended, CommandView::Stop);
    lemma_reloaded(ended, reload, true);
    lemma_chain(s, ended, reloaded(ended, reload, true).0);
    lemma_recovery_failed(ended, reload_token(reload));
    lemma_chain(s, ended, authorization_revoked(ended, reload_token(reload)));
}

proof fn lemma_bootstrapped(s: SupervisorView, t: bool)
    requires
        s.window.settings_child is Some,
    ensures
        guarded(s, bootstrapped(s, t)),
        still(s, bootstrapped(s, t)),
{
    reveal(bootstrapped);
    reveal(resumed_after_bootstrap);
    let b = SupervisorView {
        window: SettingsWindow { settings_child_bootstrapped: true, ..s.window },
        ..s
    };
    lemma_quiet(s, b, CommandView::Stop);
    lemma_resume(b, false);
    lemma_resume(b, true);
    lemma_same_gate(with_resume(b, false));
    lemma_same_gate(with_resume(b, true));
    lemma_chain(b, with_resume(b, false), with_status_shown(with_resume(b, false)));
    lemma_chain(b, with_resume(b, true), with_status_shown(with_resume(b, true)));
    let fresh = with_fresh_trust(b, t);
    lemma_trust(b, t);
    lemma_resume(fresh, false);
    lemma_chain(b, fresh, with_resume(fresh, false));
    lemma_same_gate(with_resume(fresh, false));
    lemma_chain(b, with_resume(fresh, false), with_status_shown(with_resume(fresh, false)));
    let started = fresh_start(fresh).0;
    lemma_fresh_start(fresh);
    lemma_chain(b, fresh, started);
    let done = with_resume(started, started.gate.desired_monitor_running);
    lemma_resume(started, started.gate.desired_monitor_running);
    lemma_chain(b, started, done);
    lemma_same_gate(done);
    lemma_chain(b, done, with_status_shown(done));
    lemma_chain(s, b, resumed_after_bootstrap(b, t));
}

proof fn lemma_mutations(
    s: SupervisorView,
    request_id: u64,
    reply: QuiescenceReply,
    t: bool,
)
    ensures
        guarded(s, mutation_begun(s).0),
        still(s, mutation_begun(s).0),
        in_change(s) ==> mutation_begun(s).0 == s,
        kept(s, mutation_quiet(s, request_id, reply).0),
        kept(s, mutation_cancelled(s, t).0),
{
    reveal(mutation_begun);
    reveal(mutation_quiet);
    lemma_quiet(s, s, CommandView::Stop);
    if s.window.settings_child_bootstrapped {
        let begun = SupervisorView {
            gate: MonitorGate {
                resume_monitor_after_settings: s.gate.desired_monitor_running,
                ..s.gate
            },
            window: SettingsWindow { settings_mutation_active: true, ..s.window },
            ..s
        };
        lemma_adds_nothing(s.commands);
        lemma_quiescence(begun);
        lemma_chain(s, begun, quiescence_requested(begun).0);
    }
    let idle = SupervisorView {
        gate: MonitorGate { worker_status: WorkerStatus::Idle, ..s.gate },
        ..s
    };
    lemma_quiet(s, idle, CommandView::Stop);
    lemma_same_gate(idle);
    lemma_chain(s, idle, with_status_shown(idle));
    lemma_cancelled(s, t);
}

proof fn lemma_cancelled(s: SupervisorView, t: bool)
    ensures
        kept(s, mutation_cancelled(s, t).0),
{
    reveal(mutation_cancelled);
    lemma_quiet(s, s, CommandView::Stop);
    let ended = SupervisorView {
        window: SettingsWindow { settings_mutation_active: false, ..s.window },
        ..s
    };
    lemma_quiet(s, ended, CommandView::Stop);
    lemma_trust(ended, t);
    let fresh = with_fresh_trust(ended, t);
    lemma_chain(s, ended, fresh);
    lemma_fresh_start(fresh);
    lemma_chain(s, fresh, fresh_start(fresh).0);
    assert forall|after: SupervisorView| kept(s, after) implies kept(
        s,
        with_status_shown(with_resume(after, after.gate.desired_monitor_running)),
    ) by {
        let done = with_resume(after, after.gate.desired_monitor_running);
        lemma_resume(after, after.gate.desired_monitor_running);
        lemma_chain(s, after, done);
        lemma_same_gate(done);
        lemma_chain(s, done, with_status_shown(done));
    }
}

proof fn lemma_commit(s: SupervisorView, startup: StartupView, t: bool, acknowledged: bool)
    ensures
        kept(s, after_commit(s, startup, t, acknowledged)),
{
    reveal(commit_prepared);
    lemma_quiet(s, s, CommandView::Stop);
    lemma_stops(s);
    lemma_quiet(s, with_pause(s), CommandView::Stop);
    let fresh = if s.gate.desired_monitor_running {
        with_fresh_trust(s, t)
    } else {
        s
    };
    lemma_trust(s, t);
    let resume = s.gate.desired_monitor_running && fresh.gate.accessibility_trusted;
    let (ready, command) = reload_prepared(fresh, startup, resume);
    lemma_prepared(fresh, startup, resume);
    lemma_chain(s, fresh, ready);
    lemma_delivery_failed(ready);
    lemma_chain(s, ready, delivery_failed(ready));
    if command is Some {
        let done = commit_finished(ready, command->0, startup.config);
        reveal(commit_finished);
        reveal(reload_finished);
        reveal(with_status_shown);
        assert(!done.window.settings_mutation_active);
        if starts(command->0) {
            assert(guarded(ready, done) && still(ready, done));
            assert(calm(ready, done));
        } else {
            lemma_quiet(ready, done, command->0);
        }
        lemma_chain(s, ready, done);
    }
}

proof fn lemma_window_ended(s: SupervisorView)
    ensures
        kept(s, window_ended(s)),
        kept(s, exit_left_storage_open(s)),
        blocked(exit_left_storage_open(s)),
        !window_ended(s).window.settings_mutation_active,
        window_ended(s).window.settings_child is None,
        s.window.settings_mutation_active ==> blocked(window_ended(s)),
        window_ended(s).life == s.life,
        window_ended(s).window.pending_settings_presentation
            == s.window.pending_settings_presentation,
{
    reveal(window_ended);
    reveal(exit_left_storage_open);
    lemma_quiet(s, window_ended(s), CommandView::Stop);
    lemma_quiet(s, exit_left_storage_open(s), CommandView::Stop);
}

proof fn lemma_window_closed(s: SupervisorView, now: u64, t: bool, reload: ReloadView)
    ensures
        ({
            let b = window_closed(s, now, t, reload);
            &&& kept(s, b)
            &&& s.window.settings_mutation_active ==> blocked(b)
            &&& reload_token(reload) is Some ==> Some(b.settings_session_token) == reload_token(
                reload,
            )
        }),
{
    reveal(window_closed);
    let gone = window_ended(s);
    let ended = without_presentation(gone);
    lemma_window_ended(s);
    lemma_quiet(gone, ended, CommandView::Stop);
    lemma_chain(s, gone, ended);
    let wanted = s.window.pending_settings_presentation is None
        && ended.gate.desired_monitor_running && !ended.gate.storage_recovery_sticky_blocked;
    let fresh = if wanted {
        with_fresh_trust(ended, t)
    } else {
        ended
    };
    lemma_trust(ended, t);
    lemma_chain(s, ended, with_fresh_trust(ended, t));
    let free = with_resume(fresh, false);
    lemma_resume(fresh, false);
    lemma_chain(s, fresh, free);
    let start = wanted && fresh.gate.accessibility_trusted;
    let after = reloaded(free, reload, start).0;
    lemma_reloaded(free, reload, start);
    lemma_chain(s, free, after);
    if let Some(pending) = s.window.pending_settings_presentation {
        lemma_window_opened(after, now, pending.requested_tab, true);
        lemma_chain(s, after, window_opened(after, now, pending.requested_tab, true).0);
    }
    lemma_chain(gone, ended, with_fresh_trust(ended, t));
    lemma_chain(gone, fresh, free);
    lemma_chain(gone, free, after);
    if let Some(pending) = s.window.pending_settings_presentation {
        lemma_chain(gone, after, window_opened(after, now, pending.requested_tab, true).0);
    }
}

proof fn lemma_forced(s: SupervisorView, now: u64, exited: bool, token: Option<Seq<char>>)
    ensures
        kept(s, window_forced(s, now, exited, token)),
{
    reveal(window_forced);
    let ended = window_ended(s);
    lemma_window_ended(s);
    let timed = SupervisorView {
        life: Lifecycle { settings_child_exit_deadline: None, ..ended.life },
        ..ended
    };
    lemma_quiet(ended, timed, CommandView::Stop);
    lemma_chain(s, ended, timed);
    lemma_recovery_failed(timed, token);
    lemma_chain(s, timed, authorization_revoked(timed, token));
    let again = SupervisorView {
        life: Lifecycle {
            settings_child_exit_deadline: Some(
                later(now, FULL_UI_EXIT_CONFIRMATION_GRACE_MS),
            ),
            ..s.life
        },
        ..s
    };
    lemma_quiet(s, again, CommandView::Stop);
    lemma_window_ended(again);
    lemma_chain(s, again, exit_left_storage_open(again));
    lemma_quiet(
        s,
        SupervisorView {
            life: Lifecycle { settings_child_exit_deadline: None, ..s.life },
            ..s
        },
        CommandView::Stop,
    );
}

proof fn lemma_exit(s: SupervisorView, now: u64)
    ensures
        kept(s, exit_handled(s, now).0),
        exit_handled(s, now).0.life.exit_requested,
{
    reveal(exit_handled);
    reveal(exit_begun);
    reveal(exit_finalized);
    lemma_quiet(s, s, CommandView::Stop);
    let begun = if s.life.exit_requested {
        s
    } else {
        exit_begun(s, now)
    };
    lemma_quiet(s, begun, CommandView::Stop);
    lemma_quiet(begun, exit_finalized(begun), CommandView::Stop);
    lemma_chain(s, begun, exit_finalized(begun));
}

proof fn lemma_exit_polled(s: SupervisorView, now: u64, exited: bool, token: Option<Seq<char>>)
    ensures
        kept(s, exit_polled(s, now, exited, token).0),
{
    reveal(exit_polled);
    lemma_quiet(s, s, CommandView::Stop);
    lemma_exit(s, now);
    let forced = window_forced(s, now, exited, token);
    lemma_forced(s, now, exited, token);
    lemma_exit(forced, now);
    lemma_chain(s, forced, exit_handled(forced, now).0);
}

proof fn lemma_preference(s: SupervisorView, now: u64)
    ensures
        ({
            let b = window_preference_applied(s, now);
            &&& kept(s, b)
            &&& b.gate.desired_monitor_running == s.gate.desired_monitor_running
            &&& b.gate.storage_recovery_sticky_blocked == s.gate.storage_recovery_sticky_blocked
            &&& b.window.settings_mutation_active == s.window.settings_mutation_active
        }),
{
    reveal(window_preference_applied);
    let known = SupervisorView {
        life: Lifecycle { startup_window_preference_pending: false, ..s.life },
        ..s
    };
    lemma_quiet(s, known, CommandView::Stop);
    lemma_window_opened(known, now, Tab::Accounts, true);
    lemma_chain(s, known, window_opened(known, now, Tab::Accounts, true).0);
}

proof fn lemma_retried(s: SupervisorView, now: u64, t: bool, reload: ReloadView)
    ensures
        kept(s, recovery_retried(s, now, t, reload).0),
{
    reveal(recovery_retried);
    reveal(recovery_completed);
    reveal(deferred_startup_applied);
    lemma_quiet(s, s, CommandView::Stop);
    if retry_due(s, now) {
        let tried = SupervisorView {
            life: Lifecycle { last_storage_recovery_attempt: now, ..s.life },
            ..s
        };
        lemma_quiet(s, tried, CommandView::Stop);
        let wanted = tried.gate.resume_monitor_after_settings
            && tried.gate.desired_monitor_running;
        let fresh = if wanted {
            with_fresh_trust(tried, t)
        } else {
            tried
        };
        lemma_trust(tried, t);
        lemma_chain(s, tried, with_fresh_trust(tried, t));
        let resume = wanted && fresh.gate.accessibility_trusted;
        let deferred = fresh.life.startup_window_preference_pending;
        let (after, ok) = reloaded(fresh, reload, resume && !deferred);
        lemma_reloaded(fresh, reload, resume && !deferred);
        lemma_chain(s, fresh, after);
        let free = with_resume(after, false);
        lemma_resume(after, false);
        lemma_chain(s, after, free);
        let shown = window_preference_applied(free, now);
        lemma_preference(free, now);
        lemma_chain(s, free, shown);
        if ok && resume {
            lemma_start_or_pause(shown);
            lemma_chain(fresh, after, free);
            lemma_chain(fresh, free, shown);
            lemma_chain(s, shown, start_or_pause(shown));
        }
    }
}

proof fn lemma_toggle(s: SupervisorView, t: bool)
    ensures
        guarded(s, monitor_toggled(s, t)),
        calm(s, monitor_toggled(s, t)),
{
    reveal(monitor_toggled);
    lemma_stops(s);
    lemma_asked_starts(s, t);
}

proof fn lemma_monitor_command(
    s: SupervisorView,
    command: MonitorControlCommand,
    t: bool,
    reload: ReloadView,
)
    ensures
        ({
            let b = monitor_commanded(s, command, t, reload).0;
            &&& guarded(s, b)
            &&& calm(s, b)
            &&& command != MonitorControlCommand::Start || s.life.exit_requested ==> still(s, b)
        }),
{
    reveal(monitor_commanded);
    lemma_quiet(s, s, CommandView::Stop);
    lemma_asked_starts(s, t);
    lemma_stops(s);
    lemma_reload_requested(s, reload);
}

spec fn harmless(s: SupervisorView, e: SupervisorEvent) -> bool {
    let b = supervisor_next(s, e);
    &&& guarded(s, b)
    &&& !asks_for_start(e) || s.life.exit_requested ==> still(s, b)
    &&& in_change(s) && b.window.settings_mutation_active && !(e is Bootstrap) ==> adds_no_start(
        s.commands,
        b.commands,
    )
}

proof fn lemma_tray(s: SupervisorView, now: u64, command: TrayCommand, t: bool)
    ensures
        harmless(s, SupervisorEvent::Tray { now, command, trusted_now: t }),
{
    reveal(tray_handled);
    lemma_quiet(s, s, CommandView::Stop);
    lemma_window_opened(s, now, Tab::Accounts, true);
    lemma_window_opened(s, now, Tab::Settings, true);
    lemma_toggle(s, t);
    lemma_exit(s, now);
}

proof fn lemma_ipc(
    s: SupervisorView,
    now: u64,
    command: LocalIpcCommand,
    t: bool,
    reload: ReloadView,
)
    ensures
        harmless(s, SupervisorEvent::Ipc { now, command, trusted_now: t, reload }),
{
    reveal(ipc_handled);
    lemma_quiet(s, s, CommandView::Stop);
    lemma_window_opened(s, now, Tab::Accounts, true);
    lemma_mutations(s, 0, QuiescenceReply::Waiting, t);
    if let LocalIpcCommand::Monitor(command) = command {
        lemma_monitor_command(s, command, t, reload);
    }
}

proof fn lemma_event(s: SupervisorView, e: SupervisorEvent)
    ensures
        harmless(s, e),
{
    lemma_quiet(s, s, CommandView::Stop);
    match e {
        SupervisorEvent::Tray { now, command, trusted_now } => {
            lemma_tray(s, now, command, trusted_now);
        },
        SupervisorEvent::Ipc { now, command, trusted_now, reload } => {
            lemma_ipc(s, now, command, trusted_now, reload);
        },
        SupervisorEvent::MonitorCommand { command, trusted_now, reload } => {
            lemma_monitor_command(s, command, trusted_now, reload);
        },
        SupervisorEvent::Bootstrap { peer_pid, child_alive, acknowledged, trusted_now } => {
            if s.window.settings_child is Some {
                lemma_bootstrapped(s, trusted_now);
            }
        },
        SupervisorEvent::MutationReply { request_id, reply } => {
            lemma_mutations(s, request_id, reply, true);
        },
        SupervisorEvent::Commit { startup, trusted_now, acknowledged } => {
            lemma_commit(s, startup, trusted_now, acknowledged);
        },
        SupervisorEvent::Worker { status } => {
            let told = SupervisorView {
                gate: MonitorGate { worker_status: status, ..s.gate },
                ..s
            };
            lemma_quiet(s, told, CommandView::Stop);
            lemma_same_gate(told);
            lemma_chain(s, told, with_status_shown(told));
        },
        SupervisorEvent::Trust { trusted } => {
            lemma_trust_applied(s, trusted);
        },
        SupervisorEvent::TrustPolled { now, trusted } => {
            lemma_trust_polled(s, now, trusted);
        },
        SupervisorEvent::PresentationSent { now, reader_ready, sent } => {
            lemma_presentations(
                s,
                now,
                Tab::Accounts,
                PresentationAnswer::Failed,
                reader_ready,
                sent,
            );
        },
        SupervisorEvent::PresentationAnswered { now, answer } => {
            lemma_presentations(s, now, Tab::Accounts, answer, true, true);
        },
        SupervisorEvent::PresentationExpired { now } => {
            lemma_presentations(s, now, Tab::Accounts, PresentationAnswer::Failed, true, true);
        },
        SupervisorEvent::LaunchPolled { now, reply } => {
            lemma_launches(s, now, reply, SessionView::Unavailable, 0);
        },
        SupervisorEvent::Session { session } => {
            lemma_launches(s, 0, QuiescenceReply::Waiting, session, 0);
        },
        SupervisorEvent::Spawned { pid } => {
            lemma_launches(s, 0, QuiescenceReply::Waiting, SessionView::Unavailable, pid);
        },
        SupervisorEvent::SpawnFailed { reload } => {
            if s.window.settings_child is None {
                lemma_spawn_failed(s, reload);
            }
        },
        SupervisorEvent::WindowPolled { now, status, trusted_now, reload } => {
            reveal(window_polled);
            lemma_window_closed(s, now, trusted_now, reload);
        },
        SupervisorEvent::Forced { now, exited, token } => {
            lemma_forced(s, now, exited, token);
        },
        SupervisorEvent::ExitPolled { now, exited, token } => {
            lemma_exit_polled(s, now, exited, token);
        },
        SupervisorEvent::Retried { now, trusted_now, reload } => {
            lemma_retried(s, now, trusted_now, reload);
        },
    }
}

// ---------------------------------------------------------------------------
// The block until a restart
// ---------------------------------------------------------------------------

/// Once the storage is blocked until a restart it stays so, the worker stays paused, and
/// it is never told to start, whatever happens.
pub proof fn law_block_lasts_until_restart(s: SupervisorView, e: SupervisorEvent)
    requires
        blocked(s),
    ensures
        blocked(supervisor_next(s, e)),
        adds_no_start(s.commands, supervisor_next(s, e).commands),
{
    lemma_event(s, e);
}

/// A storage that was found unsound at the start, or is reported so later, is blocked.
pub proof fn law_ambiguous_storage_is_blocked(s: SupervisorView)
    ensures
        blocked(storage_blocked(s)),
        blocked(exit_left_storage_open(s)),
        blocked(with_sticky_block(s, true)),
{
    lemma_stops(s);
    lemma_window_ended(s);
    reveal(with_sticky_block);
}

// ---------------------------------------------------------------------------
// The stop
// ---------------------------------------------------------------------------

/// Somebody asks for the monitor.
pub open spec fn asks_for_start(e: SupervisorEvent) -> bool {
    match e {
        SupervisorEvent::Tray { command, .. } => command == TrayCommand::ToggleMonitor,
        SupervisorEvent::Ipc { command, .. } => command == LocalIpcCommand::Monitor(
            MonitorControlCommand::Start,
        ),
        SupervisorEvent::MonitorCommand { command, .. } => command == MonitorControlCommand::Start,
        _ => false,
    }
}

/// A monitor that is not meant to run is not started by anything but a request for it:
/// neither by a settings window that opens, saves or closes, nor by a grant, nor by a
/// recovery.
pub proof fn law_stop_is_a_barrier(s: SupervisorView, e: SupervisorEvent)
    requires
        !s.gate.desired_monitor_running,
        !asks_for_start(e),
    ensures
        !supervisor_next(s, e).gate.desired_monitor_running,
        adds_no_start(s.commands, supervisor_next(s, e).commands),
{
    lemma_event(s, e);
}

/// Once the exit is under way nothing starts the monitor any more, not even a request.
pub proof fn law_nothing_starts_during_the_exit(s: SupervisorView, e: SupervisorEvent)
    requires
        s.life.exit_requested,
        !s.gate.desired_monitor_running,
    ensures
        supervisor_next(s, e).life.exit_requested,
        !supervisor_next(s, e).gate.desired_monitor_running,
        adds_no_start(s.commands, supervisor_next(s, e).commands),
{
    lemma_event(s, e);
}

/// The state after a run of events.
pub open spec fn supervisor_run(s: SupervisorView, es: Seq<SupervisorEvent>) -> SupervisorView
    decreases es.len(),
{
    if es.len() == 0 {
        s
    } else {
        supervisor_next(supervisor_run(s, es.drop_last()), es.last())
    }
}

/// Once a request to exit was handled the exit stays under way, and nothing that happens
/// from then on starts the monitor.
pub proof fn law_exit_is_final(s: SupervisorView, now: u64, es: Seq<SupervisorEvent>)
    requires
        !s.life.exit_requested,
    ensures
        ({
            let begun = exit_handled(s, now).0;
            let after = supervisor_run(begun, es);
            &&& after.life.exit_requested
            &&& !after.gate.desired_monitor_running
            &&& after.gate.latch.paused
            &&& adds_no_start(s.commands, after.commands)
        }),
    decreases es.len(),
{
    let begun = exit_handled(s, now).0;
    if es.len() == 0 {
        reveal(exit_handled);
        reveal(exit_begun);
        reveal(exit_finalized);
        lemma_adds_nothing(s.commands);
        lemma_adds_one(s.commands, CommandView::Stop);
    } else {
        let before = supervisor_run(begun, es.drop_last());
        law_exit_is_final(s, now, es.drop_last());
        law_nothing_starts_during_the_exit(before, es.last());
        law_supervisor_ends_no_pause(before, es.last());
        lemma_adds_more(
            s.commands,
            before.commands,
            supervisor_next(before, es.last()).commands,
        );
    }
}

/// A pause ends only where the worker applies what was sent under it.
pub proof fn law_supervisor_ends_no_pause(s: SupervisorView, e: SupervisorEvent)
    requires
        s.gate.latch.paused,
    ensures
        supervisor_next(s, e).gate.latch.paused,
{
    lemma_event(s, e);
}

// ---------------------------------------------------------------------------
// The settings window
// ---------------------------------------------------------------------------

/// A supervisor starts sound, and stays so.
pub proof fn law_session_stays_sound(s: SupervisorView, e: SupervisorEvent)
    requires
        session_sound(s),
    ensures
        session_sound(supervisor_next(s, e)),
{
    lemma_event(s, e);
}

/// A new supervisor is sound.
pub proof fn law_session_starts_sound(
    config: ConfigView,
    token: Seq<char>,
    capacity: usize,
    trusted: bool,
    now: u64,
)
    ensures
        session_sound(fresh_supervisor(config, token, capacity, trusted, now)),
{
}

/// A supervisor that finds the storage blocked, or cannot look at it yet, starts paused
/// and starts no worker.
pub proof fn law_blocked_session_starts_nothing(
    config: ConfigView,
    sticky_blocked: bool,
    preference_known: bool,
    token: Seq<char>,
    capacity: usize,
    trusted: bool,
    now: u64,
)
    requires
        sticky_blocked || !preference_known,
    ensures
        ({
            let s = session_started(
                StartupView { config, storage_recovery_ready: false },
                sticky_blocked,
                preference_known,
                token,
                capacity,
                trusted,
                now,
            );
            &&& s.gate.latch.paused
            &&& !s.gate.storage_recovery_ready
            &&& adds_no_start(Seq::empty(), s.commands)
            &&& session_sound(s)
            &&& sticky_blocked ==> blocked(s)
        }),
{
    reveal(session_started);
    reveal(with_recovery_state);
    reveal(with_sticky_block);
    reveal(startup_applied);
    reveal(start_queued);
    let fresh = fresh_supervisor(config, token, capacity, trusted, now);
    let s = with_sticky_block(with_recovery_state(fresh, false), sticky_blocked);
    let resuming = SupervisorView {
        gate: MonitorGate {
            resume_monitor_after_settings: s.gate.resume_monitor_after_settings || (
            !sticky_blocked && s.gate.accessibility_trusted),
            ..s.gate
        },
        ..s
    };
    lemma_adds_nothing(Seq::empty());
    if preference_known {
        lemma_preference(resuming, now);
    }
}

/// The settings window that is open announces itself, and nothing stands against a start.
pub open spec fn announced_anew(s: SupervisorView, e: SupervisorEvent) -> bool {
    e matches SupervisorEvent::Bootstrap { peer_pid, child_alive, acknowledged, trusted_now } && {
        &&& live_child(s, child_alive) == Some(peer_pid)
        &&& acknowledged
        &&& s.gate.desired_monitor_running
        &&& s.gate.storage_recovery_ready
        &&& !s.gate.storage_recovery_sticky_blocked
        &&& s.gate.accessibility_trusted || trusted_now
        &&& has_room(s)
    }
}

proof fn lemma_announced(s: SupervisorView, t: bool)
    requires
        !(s.gate.desired_monitor_running && s.gate.storage_recovery_ready
            && !s.gate.storage_recovery_sticky_blocked && (s.gate.accessibility_trusted || t)
            && has_room(s)),
    ensures
        bootstrapped(s, t).commands == s.commands,
{
    reveal(bootstrapped);
    reveal(resumed_after_bootstrap);
    reveal(with_fresh_trust);
    reveal(with_status_shown);
    reveal(with_resume);
    reveal(fresh_start);
}

/// While a settings window changes something the worker is not told to start, unless
/// that window announces itself anew where nothing stands against a start.
pub proof fn law_no_start_during_a_change(s: SupervisorView, e: SupervisorEvent)
    requires
        session_sound(s),
        s.window.settings_mutation_active,
        supervisor_next(s, e).window.settings_mutation_active,
        !announced_anew(s, e),
    ensures
        adds_no_start(s.commands, supervisor_next(s, e).commands),
{
    lemma_event(s, e);
    if let SupervisorEvent::Bootstrap { peer_pid, child_alive, acknowledged, trusted_now } = e {
        lemma_adds_nothing(s.commands);
        if live_child(s, child_alive) == Some(peer_pid) && acknowledged {
            lemma_announced(s, trusted_now);
        }
    }
}

/// A settings window is opened only after the worker answered the very request that was
/// made for it, while the worker is paused, and never beside another window or during
/// the exit.
pub proof fn law_window_opens_only_when_quiet(
    s: SupervisorView,
    now: u64,
    reply: QuiescenceReply,
)
    requires
        launch_step(s, now, reply) is Authorize,
    ensures
        s.window.pending_settings_launch matches Some(pending) && reply
            == (QuiescenceReply::Acknowledged { request_id: pending.request_id }),
        s.gate.latch.paused,
        launch_polled(s, now, reply).gate.latch.paused,
        s.window.settings_child is None,
        !s.life.exit_requested,
        adds_no_start(s.commands, launch_polled(s, now, reply).commands),
{
    reveal(launch_polled);
    lemma_adds_nothing(s.commands);
}

/// When a settings window closes, the token it was opened with is replaced by the new
/// one that the session was given.
pub proof fn law_closed_window_loses_its_token(
    s: SupervisorView,
    now: u64,
    trusted_now: bool,
    reload: ReloadView,
)
    requires
        s.window.settings_child is Some,
        reload_token(reload) is Some,
    ensures
        Some(
            window_polled(
                s,
                now,
                ChildStatus::Exited,
                trusted_now,
                reload,
            ).settings_session_token,
        ) == reload_token(reload),
{
    reveal(window_polled);
    lemma_window_closed(s, now, trusted_now, reload);
}

/// A settings window that closes in the middle of a change leaves the storage blocked.
pub proof fn law_interrupted_change_blocks(
    s: SupervisorView,
    now: u64,
    trusted_now: bool,
    reload: ReloadView,
)
    requires
        s.window.settings_child is Some,
        s.window.settings_mutation_active,
    ensures
        blocked(window_polled(s, now, ChildStatus::Exited, trusted_now, reload)),
{
    reveal(window_polled);
    lemma_window_closed(s, now, trusted_now, reload);
}

} // verus!
