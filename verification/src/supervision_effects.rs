//! What each thing that is asked of the supervisor brings about.

#[allow(unused_imports)]
use crate::control::{
    authorized, FullUiControlRead, LocalIpcCommand, MonitorControlCommand, MonitorControlState,
};
#[allow(unused_imports)]
use crate::models::{ConfigView, Tab, WorkerStatus};
#[allow(unused_imports)]
use crate::startup::{recovered, StartupView};
#[allow(unused_imports)]
use crate::supervision::{
    deferred_startup_applied, exit_begun, exit_finalized, exit_handled, exit_left_storage_open,
    exit_polled, fresh_supervisor, ipc_handled, ipc_route, monitor_commanded, recovery_completed,
    recovery_retried, retry_due, session_started, shown_after, start_queued, startup_applied,
    tray_handled, window_closed, window_ended, window_forced, window_polled,
    window_preference_applied, with_recovery_state, with_sticky_block, without_presentation,
    IpcRoute,
};
#[allow(unused_imports)]
use crate::supervisor::{
    accessibility_polled, authorization_revoked, bootstrapped, commit_finished, commit_prepared,
    control_broken, control_started, delivery_failed, fresh_start, launch_polled, launch_step,
    monitor_paused, monitor_started, monitor_stopped, monitor_toggled, mutation_begun,
    mutation_cancelled, mutation_quiet, presentation_answered, presentation_expired,
    presentation_queued, presentation_sent, quiescence_requested, recovery_failed, reload_applied,
    reload_finished, reload_prepared, reload_requested, reloaded, resumed_after_bootstrap,
    session_prepared, spawn_failed, start_or_pause, started_after_grant, started_beside_window,
    started_if_free, storage_blocked, trust_applied, window_opened, window_spawned,
    with_fresh_trust, with_resume, with_start_wanted, with_status_shown, ChildStatus, CommandView,
    ExitStep, IpcOutcome, LaunchStep, Lifecycle, MonitorGate, PendingSettingsLaunch,
    PendingSettingsPresentation, PresentationAnswer, QuiescenceReply, ReloadView, SessionView,
    SettingsPresentationPhase, SettingsWindow, SupervisorView, TrayCommand, TrayStep,
};
use vstd::prelude::*;

verus! {

/// The worker was told one thing, if there was room for it.
pub open spec fn told(s: SupervisorView, t: SupervisorView, command: CommandView) -> bool {
    if s.commands.len() < s.capacity {
        t.commands == s.commands.push(command)
    } else {
        t.commands == s.commands
    }
}

/// The worker is under a pause that no earlier command can end.
pub open spec fn paused_anew(s: SupervisorView, t: SupervisorView) -> bool {
    t.gate.latch.paused && t.gate.latch.epoch != s.gate.latch.epoch
}

/// The order to take a configuration over, to read its passwords again and to leave
/// the pause that is in force.
pub open spec fn take_over(t: SupervisorView, config: ConfigView, start: bool) -> CommandView {
    CommandView::ApplyConfigAndReleasePause {
        settings: config.settings,
        accounts: config.accounts,
        refresh_passwords: true,
        start_monitor: start,
        pause_epoch: t.gate.latch.epoch,
    }
}

/// Only what decides on the monitor and what was sent to the worker may differ.
pub open spec fn same_but_gate(s: SupervisorView, t: SupervisorView) -> bool {
    &&& t.capacity == s.capacity
    &&& t.config == s.config
    &&& t.settings_session_token == s.settings_session_token
    &&& t.window == s.window
    &&& t.life == s.life
}

/// The monitor is meant to rest, is shown to rest and was told to rest.
pub open spec fn put_to_rest(s: SupervisorView, t: SupervisorView) -> bool {
    &&& !t.gate.desired_monitor_running
    &&& !t.gate.resume_monitor_after_settings
    &&& t.gate.published == Some(MonitorControlState::Stopped)
    &&& paused_anew(s, t)
    &&& told(s, t, CommandView::Stop)
    &&& same_but_gate(s, t)
    &&& t.gate.generation == s.gate.generation
    &&& t.gate.storage_recovery_ready == s.gate.storage_recovery_ready
    &&& t.gate.storage_recovery_sticky_blocked == s.gate.storage_recovery_sticky_blocked
    &&& t.gate.worker_status == s.gate.worker_status
    &&& t.gate.accessibility_trusted == s.gate.accessibility_trusted
}

/// The settings window holds the worker: it is about to open, has not announced itself
/// yet, or is changing something.
pub open spec fn held_by_window(s: SupervisorView) -> bool {
    s.window.pending_settings_launch is Some || (s.window.settings_child is Some && (
    !s.window.settings_child_bootstrapped || s.window.settings_mutation_active))
}

/// The monitor is meant to run, and is shown so.
pub open spec fn meant_to_run(s: SupervisorView, t: SupervisorView) -> bool {
    &&& t.gate.desired_monitor_running
    &&& t.gate.published == Some(
        if s.gate.worker_status == WorkerStatus::Running {
            MonitorControlState::Running
        } else {
            MonitorControlState::PausedWithStartIntent
        },
    )
    &&& t.gate.worker_status == s.gate.worker_status
    &&& t.gate.generation == s.gate.generation
    &&& t.gate.storage_recovery_ready == s.gate.storage_recovery_ready
    &&& !t.gate.storage_recovery_sticky_blocked
    &&& same_but_gate(s, t)
}

/// The worker got what it needs in order to run: its configuration where it was paused,
/// the word to start where it rested, nothing where it ran already. Where there was no
/// room for that, it is paused.
pub open spec fn set_going(s: SupervisorView, t: SupervisorView) -> bool {
    if s.gate.latch.paused {
        &&& paused_anew(s, t)
        &&& told(s, t, take_over(t, s.config, true))
    } else if s.gate.worker_status == WorkerStatus::Running {
        &&& t.commands == s.commands
        &&& t.gate.latch == s.gate.latch
    } else if s.commands.len() < s.capacity {
        &&& t.commands == s.commands.push(CommandView::Start)
        &&& t.gate.latch == s.gate.latch
    } else {
        &&& t.commands == s.commands
        &&& paused_anew(s, t)
    }
}

/// The worker was told nothing and is paused as it was.
pub open spec fn left_alone(s: SupervisorView, t: SupervisorView) -> bool {
    &&& t.commands == s.commands
    &&& t.gate.latch == s.gate.latch
}

/// What a start comes to where the storage is fine: the monitor is set going, unless
/// accessibility is missing or the settings window holds the worker, and then it is set
/// going when the window lets it go.
pub open spec fn start_carried_out(
    s: SupervisorView,
    t: SupervisorView,
    trusted_now: bool,
) -> bool {
    &&& t.gate.accessibility_trusted == (s.gate.accessibility_trusted || trusted_now)
    &&& if !s.gate.accessibility_trusted && !trusted_now {
        &&& left_alone(s, t)
        &&& t.gate.resume_monitor_after_settings == s.gate.resume_monitor_after_settings
    } else if held_by_window(s) {
        &&& left_alone(s, t)
        &&& t.gate.resume_monitor_after_settings
    } else {
        set_going(s, t)
    }
}

/// A start at the menu makes the monitor one that is meant to run, and carries the start
/// out as far as it can: at once, after the storage is recovered, or after the settings
/// window lets the worker go.
pub proof fn law_a_start_is_carried_out(s: SupervisorView, trusted_now: bool)
    requires
        !s.gate.storage_recovery_sticky_blocked,
    ensures
        meant_to_run(s, monitor_started(s, trusted_now)),
        s.gate.storage_recovery_ready ==> start_carried_out(
            s,
            monitor_started(s, trusted_now),
            trusted_now,
        ),
        !s.gate.storage_recovery_ready ==> {
            &&& left_alone(s, monitor_started(s, trusted_now))
            &&& monitor_started(s, trusted_now).gate.resume_monitor_after_settings
        },
{
    reveal(monitor_started);
    reveal(with_start_wanted);
    reveal(with_status_shown);
    reveal(with_fresh_trust);
    reveal(started_if_free);
    reveal(fresh_start);
    reveal(start_or_pause);
}

/// A start that the settings window asks for is accepted, and carried out as one at the
/// menu; what waits for the window does not wait for the storage.
pub proof fn law_a_start_from_the_window_is_carried_out(
    s: SupervisorView,
    trusted_now: bool,
    reload: ReloadView,
)
    requires
        !s.gate.storage_recovery_sticky_blocked,
        !s.life.exit_requested,
    ensures
        ({
            let (t, accepted) = monitor_commanded(
                s,
                MonitorControlCommand::Start,
                trusted_now,
                reload,
            );
            let waits = !s.gate.storage_recovery_ready && s.window.settings_child is None
                && s.window.pending_settings_launch is None;
            &&& accepted
            &&& meant_to_run(s, t)
            &&& waits ==> left_alone(s, t) && t.gate.resume_monitor_after_settings
            &&& !waits ==> start_carried_out(s, t, trusted_now)
        }),
{
    reveal(monitor_commanded);
    reveal(control_started);
    reveal(with_start_wanted);
    reveal(with_status_shown);
    reveal(with_fresh_trust);
    reveal(started_beside_window);
    reveal(started_if_free);
    reveal(fresh_start);
    reveal(start_or_pause);
}

/// A stop puts the monitor to rest, wherever it comes from.
pub proof fn law_a_stop_puts_the_monitor_to_rest(
    s: SupervisorView,
    trusted_now: bool,
    reload: ReloadView,
)
    ensures
        put_to_rest(s, monitor_stopped(s)),
        !s.life.exit_requested ==> {
            let (t, accepted) = monitor_commanded(
                s,
                MonitorControlCommand::Stop,
                trusted_now,
                reload,
            );
            accepted && put_to_rest(s, t)
        },
{
    reveal(monitor_commanded);
    reveal(monitor_stopped);
    reveal(with_status_shown);
}

/// A toggle turns round what the monitor is meant to do. One that is meant to run,
/// whether it is shown as running or as paused, is put to rest; one that rests is meant
/// to run from then on, and started, unless the storage is blocked until a restart.
pub proof fn law_a_toggle_turns_the_monitor_round(
    s: SupervisorView,
    now: u64,
    trusted_now: bool,
)
    requires
        !s.life.exit_requested,
    ensures
        ({
            let t = tray_handled(s, now, TrayCommand::ToggleMonitor, trusted_now).0;
            &&& t == monitor_toggled(s, trusted_now)
            &&& s.gate.desired_monitor_running ==> put_to_rest(s, t)
            &&& !s.gate.desired_monitor_running && !s.gate.storage_recovery_sticky_blocked ==> {
                &&& meant_to_run(s, t)
                &&& s.gate.storage_recovery_ready ==> start_carried_out(s, t, trusted_now)
                &&& !s.gate.storage_recovery_ready ==> left_alone(s, t)
                    && t.gate.resume_monitor_after_settings
            }
            &&& !s.gate.desired_monitor_running && s.gate.storage_recovery_sticky_blocked ==> t
                == s
        }),
{
    reveal(tray_handled);
    reveal(monitor_toggled);
    if s.gate.desired_monitor_running {
        law_a_stop_puts_the_monitor_to_rest(s, trusted_now, ReloadView::NoLease);
    } else if !s.gate.storage_recovery_sticky_blocked {
        law_a_start_is_carried_out(s, trusted_now);
    } else {
        reveal(monitor_started);
    }
}

/// Two toggles in a row bring a monitor that was meant to run back to that.
pub proof fn law_two_toggles_mean_the_same(
    s: SupervisorView,
    now: u64,
    later_on: u64,
    trusted_now: bool,
)
    requires
        !s.life.exit_requested,
        !s.gate.storage_recovery_sticky_blocked,
    ensures
        ({
            let once = tray_handled(s, now, TrayCommand::ToggleMonitor, trusted_now).0;
            let twice = tray_handled(
                once,
                later_on,
                TrayCommand::ToggleMonitor,
                trusted_now,
            ).0;
            &&& once.gate.desired_monitor_running != s.gate.desired_monitor_running
            &&& twice.gate.desired_monitor_running == s.gate.desired_monitor_running
            &&& twice.gate.published == Some(
                if !s.gate.desired_monitor_running {
                    MonitorControlState::Stopped
                } else if s.gate.worker_status == WorkerStatus::Running {
                    MonitorControlState::Running
                } else {
                    MonitorControlState::PausedWithStartIntent
                },
            )
        }),
{
    let once = tray_handled(s, now, TrayCommand::ToggleMonitor, trusted_now).0;
    law_a_toggle_turns_the_monitor_round(s, now, trusted_now);
    law_a_toggle_turns_the_monitor_round(once, later_on, trusted_now);
}

// ---------------------------------------------------------------------------
// What holds the monitor back
// ---------------------------------------------------------------------------

/// Storage that cannot be trusted puts the monitor to rest until a restart: the mark is
/// to be written to the disk, what the worker does is void, and neither a change of the
/// settings nor a window that was about to open goes on.
pub proof fn law_a_block_puts_everything_to_rest(
    s: SupervisorView,
    trusted_now: bool,
    reload: ReloadView,
)
    ensures
        ({
            let (t, accepted) = monitor_commanded(
                s,
                MonitorControlCommand::StorageRecoveryBlocked,
                trusted_now,
                reload,
            );
            &&& accepted
            &&& t == storage_blocked(s)
            &&& t.gate.storage_recovery_sticky_blocked
            &&& t.gate.block_to_persist
            &&& !t.gate.storage_recovery_ready
            &&& !t.gate.desired_monitor_running
            &&& !t.gate.resume_monitor_after_settings
            &&& t.gate.published == Some(MonitorControlState::Stopped)
            &&& paused_anew(s, t)
            &&& t.gate.generation != s.gate.generation
            &&& told(s, t, CommandView::Stop)
            &&& !t.window.settings_mutation_active
            &&& t.window.pending_settings_launch is None
            &&& t.window.settings_child == s.window.settings_child
            &&& t.window.settings_session_lease == s.window.settings_session_lease
            &&& t.config == s.config
            &&& t.settings_session_token == s.settings_session_token
            &&& t.life == s.life
        }),
{
    reveal(monitor_commanded);
    reveal(storage_blocked);
    reveal(with_status_shown);
}

/// Accessibility that is lost pauses the monitor and keeps what it is meant to do;
/// accessibility that is granted sets it going, if it is meant to run.
pub proof fn law_trust_decides_whether_the_monitor_runs(s: SupervisorView, now: u64, trusted: bool)
    ensures
        ({
            let t = accessibility_polled(s, now, trusted);
            let due = now >= s.life.last_accessibility_check + 1_000;
            &&& t.gate.desired_monitor_running == s.gate.desired_monitor_running
            &&& !due ==> t == s
            &&& due ==> t.life.last_accessibility_check == now
            &&& due ==> t.gate.accessibility_trusted == trusted
            &&& due && trusted == s.gate.accessibility_trusted ==> left_alone(s, t)
            &&& due && s.gate.accessibility_trusted && !trusted ==> {
                &&& paused_anew(s, t)
                &&& told(s, t, CommandView::Stop)
                &&& !t.gate.resume_monitor_after_settings
            }
            &&& due && !s.gate.accessibility_trusted && trusted ==> {
                if !s.gate.desired_monitor_running || s.gate.storage_recovery_sticky_blocked {
                    left_alone(s, t)
                } else if !s.gate.storage_recovery_ready || held_by_window(s) {
                    left_alone(s, t) && t.gate.resume_monitor_after_settings
                } else {
                    set_going(s, t)
                }
            }
        }),
{
    reveal(accessibility_polled);
    reveal(trust_applied);
    reveal(monitor_paused);
    reveal(started_after_grant);
    reveal(started_if_free);
    reveal(fresh_start);
    reveal(start_or_pause);
    reveal(with_status_shown);
}

// ---------------------------------------------------------------------------
// Opening the settings window
// ---------------------------------------------------------------------------

/// The page that a command of the menu opens.
pub open spec fn asks_for_page(command: TrayCommand, tab: Tab) -> bool {
    ||| command == TrayCommand::OpenAccounts && tab == Tab::Accounts
    ||| command == TrayCommand::OpenSettings && tab == Tab::Settings
}

/// Where no window is open, the menu pauses the monitor, tells the worker to stop and to
/// say when it is quiet, and has the page wait for that, for fifteen seconds.
pub proof fn law_the_menu_opens_a_window(
    s: SupervisorView,
    now: u64,
    command: TrayCommand,
    tab: Tab,
    trusted_now: bool,
)
    requires
        asks_for_page(command, tab),
        !s.life.exit_requested,
        s.window.pending_settings_launch is None,
        s.window.pending_settings_presentation is None,
        s.window.settings_child is None,
        s.commands.len() + 2 <= s.capacity,
        s.window.next_settings_launch_request_id < u64::MAX,
        now + 15_000 <= u64::MAX,
    ensures
        ({
            let t = tray_handled(s, now, command, trusted_now).0;
            let id = (s.window.next_settings_launch_request_id + 1) as u64;
            &&& t.window.pending_settings_launch == Some(
                PendingSettingsLaunch {
                    request_id: id,
                    initial_tab: tab,
                    pause_monitor: true,
                    deadline: (now + 15_000) as u64,
                },
            )
            &&& t.window.next_settings_launch_request_id == id
            &&& t.commands == s.commands.push(CommandView::Stop).push(
                CommandView::Quiesce { request_id: id },
            )
            &&& paused_anew(s, t)
            &&& t.gate.generation != s.gate.generation
            &&& !t.gate.resume_monitor_after_settings
            &&& t.gate.desired_monitor_running == s.gate.desired_monitor_running
            &&& t.gate.published == s.gate.published
        }),
{
    reveal(tray_handled);
    reveal(window_opened);
    reveal(quiescence_requested);
}

/// Where the worker cannot be asked to become quiet, no window is promised, and the
/// monitor is paused.
pub proof fn law_no_window_without_a_quiet_worker(
    s: SupervisorView,
    now: u64,
    tab: Tab,
    pause_monitor: bool,
)
    requires
        s.window.pending_settings_launch is None,
        s.window.pending_settings_presentation is None,
        s.window.settings_child is None,
        s.commands.len() + 2 > s.capacity || s.window.next_settings_launch_request_id == u64::MAX
            || now + 15_000 > u64::MAX,
    ensures
        ({
            let (t, ok) = window_opened(s, now, tab, pause_monitor);
            &&& !ok
            &&& t.window.pending_settings_launch is None
            &&& paused_anew(s, t)
            &&& !t.gate.resume_monitor_after_settings
        }),
{
    reveal(window_opened);
    reveal(quiescence_requested);
}

/// A window that is open is shown another page, and one that is about to open opens with
/// it; of several pages the last one counts.
pub proof fn law_an_open_window_shows_the_page(
    s: SupervisorView,
    now: u64,
    tab: Tab,
    pause_monitor: bool,
)
    requires
        s.window.pending_settings_launch is Some || s.window.pending_settings_presentation is Some
            || s.window.settings_child is Some,
    ensures
        ({
            let (t, ok) = window_opened(s, now, tab, pause_monitor);
            &&& left_alone(s, t)
            &&& t.gate == s.gate
            &&& t.life == s.life
            &&& s.window.pending_settings_launch matches Some(pending) ==> {
                &&& ok
                &&& t.window == (SettingsWindow {
                    pending_settings_launch: Some(
                        PendingSettingsLaunch { initial_tab: tab, ..pending },
                    ),
                    ..s.window
                })
            }
            &&& s.window.pending_settings_launch is None ==> {
                match s.window.pending_settings_presentation {
                    Some(pending) => {
                        &&& ok
                        &&& t.window == (SettingsWindow {
                            pending_settings_presentation: Some(
                                PendingSettingsPresentation { requested_tab: tab, ..pending },
                            ),
                            ..s.window
                        })
                    },
                    None => if s.window.settings_child_control_broken {
                        !ok && t == s
                    } else {
                        &&& ok
                        &&& t.window == (SettingsWindow {
                            pending_settings_presentation: Some(
                                PendingSettingsPresentation {
                                    in_flight_tab: tab,
                                    requested_tab: tab,
                                    phase: SettingsPresentationPhase::ToSend,
                                },
                            ),
                            ..s.window
                        })
                    },
                }
            }
        }),
{
    reveal(window_opened);
    reveal(presentation_queued);
}

/// A page goes its way: the line is written, the window says that it shows the page, and
/// nothing waits any more; a page that was asked for meanwhile is then sent.
pub proof fn law_a_page_is_sent_and_acknowledged(
    s: SupervisorView,
    now: u64,
    answered_at: u64,
    tab: Tab,
    next: Tab,
    pause_monitor: bool,
)
    requires
        s.window.settings_child is Some,
        s.window.pending_settings_launch is None,
        s.window.pending_settings_presentation is None,
        !s.window.settings_child_control_broken,
    ensures
        ({
            let asked = window_opened(s, now, tab, pause_monitor).0;
            let sent = presentation_sent(asked, now, true, true);
            let shown = presentation_answered(
                sent,
                answered_at,
                PresentationAnswer::Line(FullUiControlRead::Show(tab)),
            );
            let asked_again = window_opened(sent, now, next, pause_monitor).0;
            let sent_again = presentation_answered(
                asked_again,
                answered_at,
                PresentationAnswer::Line(FullUiControlRead::Show(tab)),
            );
            &&& sent.window.pending_settings_presentation == Some(
                PendingSettingsPresentation {
                    in_flight_tab: tab,
                    requested_tab: tab,
                    phase: SettingsPresentationPhase::AwaitingAcknowledgement,
                },
            )
            &&& sent.window.settings_child_acknowledgements
            &&& !sent.window.settings_child_control_broken
            &&& shown.window.pending_settings_presentation is None
            &&& !shown.window.settings_child_control_broken
            &&& next != tab ==> sent_again.window.pending_settings_presentation == Some(
                PendingSettingsPresentation {
                    in_flight_tab: next,
                    requested_tab: next,
                    phase: SettingsPresentationPhase::ToSend,
                },
            )
        }),
{
    reveal(window_opened);
    reveal(presentation_queued);
    reveal(presentation_sent);
    reveal(presentation_answered);
}

/// A window that cannot be written to, or that answers anything but the page it was asked
/// for, is given up: nothing more is read from it, and a page that waits waits for five
/// more seconds, for the window to close.
pub proof fn law_a_window_out_of_step_is_given_up(
    s: SupervisorView,
    now: u64,
    answer: PresentationAnswer,
    reader_ready: bool,
    sent: bool,
)
    ensures
        s.window.pending_settings_presentation matches Some(pending) ==> {
            &&& pending.phase == SettingsPresentationPhase::ToSend && !(reader_ready && sent)
                ==> given_up(s, presentation_sent(s, now, reader_ready, sent), now)
            &&& s.window.settings_child_acknowledgements && answer != PresentationAnswer::Line(
                FullUiControlRead::Show(pending.in_flight_tab),
            ) ==> given_up(s, presentation_answered(s, now, answer), now)
        },
        s.window.pending_settings_presentation is None
            && s.window.settings_child_acknowledgements ==> {
            let t = presentation_answered(s, now, answer);
            &&& t.window.settings_child_control_broken
            &&& !t.window.settings_child_acknowledgements
            &&& t.window.pending_settings_presentation is None
        },
        !s.window.settings_child_acknowledgements ==> presentation_answered(s, now, answer) == s,
{
    reveal(presentation_sent);
    reveal(presentation_answered);
    reveal(presentation_queued);
    reveal(control_broken);
}

/// The window is given up at one moment, and the page waits for it to close.
pub open spec fn given_up(s: SupervisorView, t: SupervisorView, now: u64) -> bool {
    &&& s.window.pending_settings_presentation is Some
    &&& t.window.settings_child_control_broken
    &&& !t.window.settings_child_acknowledgements
    &&& t.window.settings_child == s.window.settings_child
    &&& t.window.pending_settings_presentation matches Some(pending) && {
        &&& pending.requested_tab == s.window.pending_settings_presentation->0.requested_tab
        &&& pending.phase == (SettingsPresentationPhase::AwaitingConfirmedExit {
            deadline: if now + 5_000 <= u64::MAX {
                (now + 5_000) as u64
            } else {
                now
            },
        })
    }
}

/// A page waits for the window to close until its deadline, and no longer.
pub proof fn law_a_page_waits_until_its_deadline(s: SupervisorView, now: u64, deadline: u64)
    requires
        s.window.pending_settings_presentation is Some,
        s.window.pending_settings_presentation->0.phase == (
        SettingsPresentationPhase::AwaitingConfirmedExit { deadline }),
    ensures
        now < deadline ==> presentation_expired(s, now) == s,
        now >= deadline ==> presentation_expired(s, now).window == (SettingsWindow {
            pending_settings_presentation: None,
            ..s.window
        }),
        presentation_expired(s, now).gate == s.gate,
{
    reveal(presentation_expired);
}

/// The window opens when the worker says that it is quiet, and the monitor goes on after
/// it if it was meant to; before that nothing happens, and after the deadline, or where
/// the worker is gone or quiet for another reason, the window does not open.
pub proof fn law_a_quiet_worker_lets_the_window_open(
    s: SupervisorView,
    now: u64,
    reply: QuiescenceReply,
)
    requires
        s.window.pending_settings_launch is Some,
    ensures
        ({
            let pending = s.window.pending_settings_launch->0;
            let step = launch_step(s, now, reply);
            let t = launch_polled(s, now, reply);
            let answered = reply == (QuiescenceReply::Acknowledged {
                request_id: pending.request_id,
            });
            &&& answered && !s.life.exit_requested && s.window.settings_child is None
                && s.gate.latch.paused ==> {
                &&& step == (LaunchStep::Authorize { initial_tab: pending.initial_tab })
                &&& t.window.pending_settings_launch is None
                &&& t.gate.resume_monitor_after_settings == (pending.pause_monitor
                    && s.gate.desired_monitor_running)
                &&& left_alone(s, t)
            }
            &&& reply is Waiting && now < pending.deadline ==> step == LaunchStep::Nothing && t
                == s
            &&& (reply is Waiting && now >= pending.deadline) || reply is Disconnected || (
            reply is Acknowledged && !answered) ==> {
                &&& step == LaunchStep::Refused
                &&& t.window.pending_settings_launch is None
                &&& !t.gate.resume_monitor_after_settings
                &&& paused_anew(s, t)
                &&& t.commands == s.commands
            }
        }),
{
    reveal(launch_step);
    reveal(launch_polled);
}

/// A session that is ready gives the supervisor its token; the window that is then
/// started has its process known, its lease held, and nothing of an earlier window.
pub proof fn law_a_started_window_is_known(s: SupervisorView, token: Seq<char>, pid: u32)
    ensures
        ({
            let (ready, ok) = session_prepared(s, SessionView::Ready { token });
            let t = window_spawned(ready, pid);
            &&& ok
            &&& t.settings_session_token == token
            &&& t.window.settings_child == Some(pid)
            &&& t.window.settings_session_lease
            &&& !t.window.settings_child_bootstrapped
            &&& !t.window.settings_mutation_active
            &&& !t.window.settings_child_control_broken
            &&& !t.window.settings_child_acknowledgements
            &&& t.window.pending_settings_presentation is None
            &&& t.window.pending_settings_launch == s.window.pending_settings_launch
            &&& t.gate == s.gate
            &&& t.commands == s.commands
            &&& t.config == s.config
            &&& t.life == s.life
        }),
{
    reveal(session_prepared);
    reveal(window_spawned);
}

/// A session that was refused leaves no token that somebody else may know: it is replaced,
/// or else the storage counts as not recovered and the monitor is paused. In neither case
/// does the monitor go on by itself.
pub proof fn law_a_refused_session_leaves_no_token(
    s: SupervisorView,
    token: Seq<char>,
    revoked: Option<Seq<char>>,
)
    ensures
        ({
            let (t, ok) = session_prepared(s, SessionView::LeaseRefused { token, revoked });
            &&& !ok
            &&& !t.gate.resume_monitor_after_settings
            &&& revoked matches Some(fresh) ==> t.settings_session_token == fresh && left_alone(
                s,
                t,
            ) && t.gate.storage_recovery_ready == s.gate.storage_recovery_ready
            &&& revoked is None ==> t.settings_session_token == token && paused_anew(s, t)
                && !t.gate.storage_recovery_ready
        }),
        ({
            let (t, ok) = session_prepared(s, SessionView::Unavailable);
            &&& !ok
            &&& !t.gate.resume_monitor_after_settings
            &&& left_alone(s, t)
            &&& t.settings_session_token == s.settings_session_token
        }),
{
    reveal(session_prepared);
    reveal(authorization_revoked);
    reveal(recovery_failed);
}

// ---------------------------------------------------------------------------
// The settings window at work
// ---------------------------------------------------------------------------

/// A window that announces itself is believed, and a monitor that is meant to run goes on
/// beside it: it is handed the configuration, or waits for the storage.
pub proof fn law_the_monitor_goes_on_beside_the_window(s: SupervisorView, trusted_now: bool)
    ensures
        ({
            let t = bootstrapped(s, trusted_now);
            let meant = s.gate.desired_monitor_running && !s.gate.storage_recovery_sticky_blocked;
            &&& t.window == (SettingsWindow { settings_child_bootstrapped: true, ..s.window })
            &&& t.gate.desired_monitor_running == s.gate.desired_monitor_running
            &&& t.life == s.life
            &&& !meant ==> left_alone(s, t) && !t.gate.resume_monitor_after_settings
            &&& meant && !s.gate.storage_recovery_ready ==> left_alone(s, t)
                && t.gate.resume_monitor_after_settings
            &&& meant && s.gate.storage_recovery_ready && !(s.gate.accessibility_trusted
                || trusted_now) ==> left_alone(s, t) && !t.gate.resume_monitor_after_settings
            &&& meant && s.gate.storage_recovery_ready && (s.gate.accessibility_trusted
                || trusted_now) ==> {
                &&& t.gate.accessibility_trusted
                &&& paused_anew(s, t)
                &&& told(s, t, take_over(t, s.config, true))
                &&& t.gate.resume_monitor_after_settings
            }
        }),
{
    reveal(bootstrapped);
    reveal(resumed_after_bootstrap);
    reveal(with_fresh_trust);
    reveal(fresh_start);
    reveal(with_status_shown);
}

/// A window that is known may begin a change where the storage is fine and no other
/// change is under way: the worker is paused, told to stop and asked to become quiet.
pub proof fn law_a_change_waits_for_a_quiet_worker(
    s: SupervisorView,
    now: u64,
    trusted_now: bool,
    reload: ReloadView,
)
    requires
        s.window.settings_child_bootstrapped,
        s.gate.storage_recovery_ready,
        !s.gate.storage_recovery_sticky_blocked,
        !s.window.settings_mutation_active,
        s.commands.len() + 2 <= s.capacity,
        s.window.next_settings_launch_request_id < u64::MAX,
    ensures
        ({
            let (t, outcome) = ipc_handled(
                s,
                now,
                LocalIpcCommand::SettingsMutationBegin,
                trusted_now,
                reload,
            );
            let id = (s.window.next_settings_launch_request_id + 1) as u64;
            let (quiet, granted) = mutation_quiet(
                t,
                id,
                QuiescenceReply::Acknowledged { request_id: id },
            );
            &&& outcome == (IpcOutcome::AwaitQuiescence { request_id: id })
            &&& t.window.settings_mutation_active
            &&& paused_anew(s, t)
            &&& t.gate.generation != s.gate.generation
            &&& t.commands == s.commands.push(CommandView::Stop).push(
                CommandView::Quiesce { request_id: id },
            )
            &&& t.gate.resume_monitor_after_settings == s.gate.desired_monitor_running
            &&& t.gate.desired_monitor_running == s.gate.desired_monitor_running
            &&& granted
            &&& quiet.gate.worker_status == WorkerStatus::Idle
            &&& quiet.gate.published == Some(
                if s.gate.desired_monitor_running {
                    MonitorControlState::PausedWithStartIntent
                } else {
                    MonitorControlState::Stopped
                },
            )
            &&& quiet.window.settings_mutation_active
            &&& left_alone(t, quiet)
        }),
{
    reveal(ipc_handled);
    reveal(mutation_begun);
    reveal(quiescence_requested);
    reveal(mutation_quiet);
    reveal(with_status_shown);
}

/// A change is granted for the answer to its own question only.
pub proof fn law_another_answer_grants_no_change(
    s: SupervisorView,
    request_id: u64,
    reply: QuiescenceReply,
)
    requires
        reply != (QuiescenceReply::Acknowledged { request_id }),
    ensures
        mutation_quiet(s, request_id, reply) == (s, false),
{
    reveal(mutation_quiet);
}

/// A change that is given up is over, and the monitor goes on with the configuration it
/// had, if it is meant to and may.
pub proof fn law_a_change_given_up_lets_the_monitor_go_on(
    s: SupervisorView,
    now: u64,
    trusted_now: bool,
    reload: ReloadView,
)
    ensures
        ({
            let (t, outcome) = ipc_handled(
                s,
                now,
                LocalIpcCommand::SettingsMutationCancel,
                trusted_now,
                reload,
            );
            let goes_on = s.gate.resume_monitor_after_settings && s.gate.desired_monitor_running
                && s.gate.storage_recovery_ready && !s.gate.storage_recovery_sticky_blocked && (
            s.gate.accessibility_trusted || trusted_now);
            &&& !s.window.settings_mutation_active ==> t == s && outcome == IpcOutcome::Committed
            &&& s.window.settings_mutation_active ==> {
                &&& t.window == (SettingsWindow { settings_mutation_active: false, ..s.window })
                &&& t.config == s.config
                &&& t.gate.desired_monitor_running == s.gate.desired_monitor_running
                &&& t.gate.resume_monitor_after_settings == s.gate.desired_monitor_running
                &&& !goes_on ==> left_alone(s, t) && outcome == IpcOutcome::Committed
                &&& goes_on ==> {
                    &&& paused_anew(s, t)
                    &&& told(s, t, take_over(t, s.config, true))
                    &&& outcome == (if s.commands.len() < s.capacity {
                        IpcOutcome::Committed
                    } else {
                        IpcOutcome::Refused
                    })
                }
            }
        }),
{
    reveal(ipc_handled);
    reveal(mutation_cancelled);
    reveal(with_fresh_trust);
    reveal(fresh_start);
    reveal(with_status_shown);
}

/// A change that was saved is handed to the worker, which starts if it is meant to and
/// may; once the worker has it, the change is over and the configuration is the new one.
pub proof fn law_a_saved_change_is_taken_over(
    s: SupervisorView,
    startup: StartupView,
    trusted_now: bool,
)
    requires
        s.window.settings_mutation_active,
        startup.storage_recovery_ready,
        !s.gate.storage_recovery_sticky_blocked,
    ensures
        ({
            let (ready, command) = commit_prepared(s, startup, trusted_now);
            let starts = s.gate.desired_monitor_running && (s.gate.accessibility_trusted
                || trusted_now);
            &&& paused_anew(s, ready)
            &&& ready.gate.generation != s.gate.generation
            &&& ready.config == s.config
            &&& s.commands.len() < s.capacity ==> {
                &&& command == Some(take_over(ready, startup.config, starts))
                &&& ready.commands == s.commands
                &&& ready.window == s.window
                &&& ({
                    let t = commit_finished(ready, command->0, startup.config);
                    &&& t.commands == s.commands.push(command->0)
                    &&& t.config == startup.config
                    &&& !t.window.settings_mutation_active
                    &&& t.gate.storage_recovery_ready
                    &&& t.gate.latch == ready.gate.latch
                    &&& t.gate.desired_monitor_running == s.gate.desired_monitor_running
                    &&& t.gate.resume_monitor_after_settings == s.gate.desired_monitor_running
                    &&& t.settings_session_token == s.settings_session_token
                })
            }
            &&& s.commands.len() >= s.capacity ==> {
                &&& command is None
                &&& !ready.gate.storage_recovery_ready
                &&& !ready.gate.resume_monitor_after_settings
            }
        }),
{
    reveal(commit_prepared);
    reveal(commit_finished);
    reveal(reload_prepared);
    reveal(reload_finished);
    reveal(delivery_failed);
    reveal(with_fresh_trust);
    reveal(with_status_shown);
}

/// A change that left the storage in doubt blocks it, and one that was never begun is
/// not taken over.
pub proof fn law_a_doubtful_change_is_not_taken_over(
    s: SupervisorView,
    startup: StartupView,
    trusted_now: bool,
)
    ensures
        !s.window.settings_mutation_active ==> commit_prepared(s, startup, trusted_now) == (
            s,
            None::<CommandView>,
        ),
        s.window.settings_mutation_active && !startup.storage_recovery_ready ==> {
            let (t, command) = commit_prepared(s, startup, trusted_now);
            &&& command is None
            &&& t.gate.storage_recovery_sticky_blocked
            &&& t.gate.block_to_persist
            &&& !t.gate.desired_monitor_running
            &&& t.config == s.config
            &&& told(s, t, CommandView::Stop)
        },
{
    reveal(commit_prepared);
    reveal(storage_blocked);
    reveal(with_status_shown);
}

// ---------------------------------------------------------------------------
// Loading the configuration again
// ---------------------------------------------------------------------------

/// A configuration that was loaded under the lock, with a new token, is the supervisor's
/// from then on and is handed to the worker; without room for that the old one stays and
/// the storage counts as not recovered.
pub proof fn law_a_loaded_configuration_is_taken_over(
    s: SupervisorView,
    startup: StartupView,
    token: Seq<char>,
    start: bool,
)
    requires
        !s.gate.storage_recovery_sticky_blocked,
        startup.storage_recovery_ready,
    ensures
        ({
            let (t, ok) = reloaded(s, ReloadView::Loaded { startup, token: Some(token) }, start);
            &&& ok == (s.commands.len() < s.capacity)
            &&& t.capacity == s.capacity
            &&& t.settings_session_token == token
            &&& t.window == s.window
            &&& t.life == s.life
            &&& paused_anew(s, t)
            &&& t.gate.generation != s.gate.generation
            &&& t.gate.desired_monitor_running == s.gate.desired_monitor_running
            &&& t.gate.storage_recovery_ready == ok
            &&& ok ==> {
                &&& t.config == startup.config
                &&& t.commands == s.commands.push(
                    take_over(t, startup.config, start && s.gate.desired_monitor_running),
                )
                &&& t.gate.resume_monitor_after_settings == s.gate.resume_monitor_after_settings
            }
            &&& !ok ==> {
                &&& t.config == s.config
                &&& t.commands == s.commands
                &&& !t.gate.resume_monitor_after_settings
            }
        }),
{
    reveal(reloaded);
    reveal(reload_applied);
    reveal(reload_prepared);
    reveal(reload_finished);
    reveal(delivery_failed);
    reveal(with_status_shown);
}

/// Without the lock, or without a new token, nothing is loaded: the configuration stays,
/// the storage counts as not recovered, and the monitor is paused.
pub proof fn law_nothing_is_loaded_without_lock_and_token(
    s: SupervisorView,
    startup: StartupView,
    start: bool,
)
    requires
        !s.gate.storage_recovery_sticky_blocked,
    ensures
        ({
            let (t, ok) = reloaded(s, ReloadView::NoLease, start);
            let (u, taken) = reloaded(s, ReloadView::Loaded { startup, token: None }, start);
            let (v, given) = reloaded(s, ReloadView::Blocked { token: None }, start);
            &&& !ok && !taken && !given
            &&& t == u && t == v
            &&& t.config == s.config
            &&& t.settings_session_token == s.settings_session_token
            &&& t.commands == s.commands
            &&& !t.gate.storage_recovery_ready
            &&& paused_anew(s, t)
            &&& t.gate.desired_monitor_running == s.gate.desired_monitor_running
        }),
{
    reveal(reloaded);
    reveal(recovery_failed);
}

/// The monitor's own command loads the configuration again where no window is open or
/// about to open, without starting anything.
pub proof fn law_a_reload_takes_the_configuration_over(
    s: SupervisorView,
    startup: StartupView,
    token: Seq<char>,
    trusted_now: bool,
)
    requires
        !s.gate.storage_recovery_sticky_blocked,
        startup.storage_recovery_ready,
        s.commands.len() < s.capacity,
    ensures
        ({
            let (t, accepted) = monitor_commanded(
                s,
                MonitorControlCommand::ReloadConfig,
                trusted_now,
                ReloadView::Loaded { startup, token: Some(token) },
            );
            &&& accepted
            &&& s.window.settings_child is Some || s.window.pending_settings_launch is Some ==> t
                == s
            &&& s.window.settings_child is None && s.window.pending_settings_launch is None ==> {
                &&& t.config == startup.config
                &&& t.settings_session_token == token
                &&& t.commands == s.commands.push(take_over(t, startup.config, false))
                &&& t.gate.storage_recovery_ready
            }
        }),
{
    reveal(monitor_commanded);
    reveal(reload_requested);
    law_a_loaded_configuration_is_taken_over(s, startup, token, false);
}

/// A storage that is not recovered is tried again once a second, while no window is open
/// or about to open; what comes of it is taken over, and a monitor that waited for it
/// starts, if it is meant to and may.
pub proof fn law_recovery_is_tried_again(
    s: SupervisorView,
    now: u64,
    startup: StartupView,
    token: Seq<char>,
    trusted_now: bool,
)
    requires
        !s.gate.storage_recovery_sticky_blocked,
        startup.storage_recovery_ready,
        s.commands.len() < s.capacity,
        !s.life.startup_window_preference_pending,
    ensures
        ({
            let (t, ok) = recovery_retried(
                s,
                now,
                trusted_now,
                ReloadView::Loaded { startup, token: Some(token) },
            );
            let due = !s.gate.storage_recovery_ready && s.window.settings_child is None
                && s.window.pending_settings_launch is None && now
                >= s.life.last_storage_recovery_attempt + 1_000;
            &&& ok == due
            &&& !due ==> t == s
            &&& due ==> {
                &&& t.life == (Lifecycle { last_storage_recovery_attempt: now, ..s.life })
                &&& t.config == startup.config
                &&& t.settings_session_token == token
                &&& t.gate.storage_recovery_ready
                &&& !t.gate.resume_monitor_after_settings
                &&& t.commands == s.commands.push(
                    take_over(
                        t,
                        startup.config,
                        s.gate.resume_monitor_after_settings && s.gate.desired_monitor_running
                            && (s.gate.accessibility_trusted || trusted_now),
                    ),
                )
            }
        }),
{
    reveal(recovery_retried);
    reveal(recovery_completed);
    reveal(with_fresh_trust);
    reveal(with_status_shown);
    let tried = SupervisorView {
        life: Lifecycle { last_storage_recovery_attempt: now, ..s.life },
        ..s
    };
    let wanted = tried.gate.resume_monitor_after_settings && tried.gate.desired_monitor_running;
    let fresh = if wanted {
        with_fresh_trust(tried, trusted_now)
    } else {
        tried
    };
    law_a_loaded_configuration_is_taken_over(
        fresh,
        startup,
        token,
        wanted && fresh.gate.accessibility_trusted,
    );
}

// ---------------------------------------------------------------------------
// Closing the settings window
// ---------------------------------------------------------------------------

/// Nothing of a window is left.
pub open spec fn window_gone(t: SupervisorView) -> bool {
    &&& t.window.settings_child is None
    &&& !t.window.settings_session_lease
    &&& !t.window.settings_child_bootstrapped
    &&& !t.window.settings_mutation_active
    &&& !t.window.settings_child_control_broken
    &&& !t.window.settings_child_acknowledgements
}

/// Where the window has closed and changed nothing half-way, the configuration is loaded
/// again and handed to the worker, which goes on if it is meant to and may.
pub proof fn law_a_closed_window_lets_the_monitor_go_on(
    s: SupervisorView,
    now: u64,
    startup: StartupView,
    token: Seq<char>,
    trusted_now: bool,
)
    requires
        s.window.settings_child is Some,
        !s.window.settings_mutation_active,
        s.window.pending_settings_presentation is None,
        !s.gate.storage_recovery_sticky_blocked,
        startup.storage_recovery_ready,
        s.commands.len() < s.capacity,
    ensures
        ({
            let t = window_polled(
                s,
                now,
                ChildStatus::Exited,
                trusted_now,
                ReloadView::Loaded { startup, token: Some(token) },
            );
            &&& window_gone(t)
            &&& t.window.pending_settings_presentation is None
            &&& t.window.pending_settings_launch == s.window.pending_settings_launch
            &&& t.config == startup.config
            &&& t.settings_session_token == token
            &&& t.gate.storage_recovery_ready
            &&& !t.gate.resume_monitor_after_settings
            &&& t.gate.desired_monitor_running == s.gate.desired_monitor_running
            &&& paused_anew(s, t)
            &&& t.commands == s.commands.push(
                take_over(
                    t,
                    startup.config,
                    s.gate.desired_monitor_running && (s.gate.accessibility_trusted
                        || trusted_now),
                ),
            )
        }),
{
    reveal(window_polled);
    reveal(window_closed);
    reveal(window_ended);
    reveal(with_fresh_trust);
    reveal(with_status_shown);
    let ended = without_presentation(window_ended(s));
    let fresh = if s.gate.desired_monitor_running {
        with_fresh_trust(ended, trusted_now)
    } else {
        ended
    };
    law_a_loaded_configuration_is_taken_over(
        with_resume(fresh, false),
        startup,
        token,
        s.gate.desired_monitor_running && fresh.gate.accessibility_trusted,
    );
}

/// A page that the closed window did not show opens a window of its own.
pub proof fn law_a_page_that_was_missed_opens_a_window(
    s: SupervisorView,
    now: u64,
    startup: StartupView,
    token: Seq<char>,
    trusted_now: bool,
)
    requires
        s.window.settings_child is Some,
        !s.window.settings_mutation_active,
        s.window.pending_settings_presentation is Some,
        s.window.pending_settings_launch is None,
        !s.gate.storage_recovery_sticky_blocked,
        startup.storage_recovery_ready,
        s.commands.len() + 3 <= s.capacity,
        s.window.next_settings_launch_request_id < u64::MAX,
        now + 15_000 <= u64::MAX,
    ensures
        ({
            let t = window_polled(
                s,
                now,
                ChildStatus::Exited,
                trusted_now,
                ReloadView::Loaded { startup, token: Some(token) },
            );
            &&& window_gone(t)
            &&& t.window.pending_settings_presentation is None
            &&& t.config == startup.config
            &&& t.window.pending_settings_launch matches Some(pending) && {
                &&& pending.initial_tab == s.window.pending_settings_presentation->0.requested_tab
                &&& pending.deadline == now + 15_000
                &&& pending.pause_monitor
                &&& t.commands.len() == s.commands.len() + 3
                &&& t.commands.last() == (CommandView::Quiesce { request_id: pending.request_id })
            }
        }),
{
    reveal(window_polled);
    reveal(window_closed);
    reveal(window_ended);
    reveal(window_opened);
    reveal(quiescence_requested);
    let ended = without_presentation(window_ended(s));
    law_a_loaded_configuration_is_taken_over(with_resume(ended, false), startup, token, false);
}

/// A window whose process is alive, or of which nothing is known, is not closed.
pub proof fn law_a_living_window_stays(
    s: SupervisorView,
    now: u64,
    status: ChildStatus,
    trusted_now: bool,
    reload: ReloadView,
)
    requires
        status != ChildStatus::Exited || s.window.settings_child is None,
    ensures
        window_polled(s, now, status, trusted_now, reload) == s,
{
    reveal(window_polled);
}

/// A window that could not be started leaves nothing behind: no lease, and a new token.
/// The monitor that was to go on after it goes on.
pub proof fn law_a_window_that_did_not_start_leaves_nothing(
    s: SupervisorView,
    startup: StartupView,
    token: Seq<char>,
)
    requires
        !s.gate.storage_recovery_sticky_blocked,
        startup.storage_recovery_ready,
        s.commands.len() < s.capacity,
    ensures
        ({
            let t = spawn_failed(s, ReloadView::Loaded { startup, token: Some(token) });
            &&& !t.window.settings_session_lease
            &&& !t.window.settings_child_bootstrapped
            &&& !t.window.settings_mutation_active
            &&& !t.gate.resume_monitor_after_settings
            &&& t.settings_session_token == token
            &&& s.gate.resume_monitor_after_settings ==> t.config == startup.config && t.commands
                == s.commands.push(
                take_over(t, startup.config, s.gate.desired_monitor_running),
            )
            &&& !s.gate.resume_monitor_after_settings ==> left_alone(s, t) && t.config == s.config
        }),
{
    reveal(spawn_failed);
    reveal(authorization_revoked);
    let ended = SupervisorView {
        window: SettingsWindow {
            settings_session_lease: false,
            settings_child_bootstrapped: false,
            settings_mutation_active: false,
            ..s.window
        },
        gate: MonitorGate { resume_monitor_after_settings: false, ..s.gate },
        ..s
    };
    law_a_loaded_configuration_is_taken_over(ended, startup, token, true);
}

// ---------------------------------------------------------------------------
// The exit
// ---------------------------------------------------------------------------

/// An exit pauses the monitor for good. An open window is asked to close and has thirty
/// seconds for it; without one the worker is told to stop, and the application may end.
pub proof fn law_an_exit_begins(s: SupervisorView, now: u64, trusted_now: bool)
    requires
        !s.life.exit_requested,
        !s.life.exit_shutdown_finalized,
    ensures
        ({
            let (t, step) = tray_handled(s, now, TrayCommand::Exit, trusted_now);
            &&& t.life.exit_requested
            &&& !t.gate.desired_monitor_running
            &&& !t.gate.resume_monitor_after_settings
            &&& t.window.pending_settings_launch is None
            &&& t.window.pending_settings_presentation is None
            &&& t.gate.latch.paused
            &&& t.window.settings_child == s.window.settings_child
            &&& s.window.settings_child is Some ==> {
                &&& step == TrayStep::Exit(ExitStep::AskChild)
                &&& t.commands == s.commands
                &&& !t.life.exit_shutdown_finalized
                &&& t.window.settings_mutation_active == s.window.settings_mutation_active
                &&& t.life.settings_child_exit_deadline == Some(
                    if now + 30_000 <= u64::MAX {
                        (now + 30_000) as u64
                    } else {
                        now
                    },
                )
            }
            &&& s.window.settings_child is None ==> {
                &&& step == TrayStep::Exit(ExitStep::PublishStopped)
                &&& told(s, t, CommandView::Stop)
                &&& t.life.exit_shutdown_finalized
                &&& t.life.settings_child_exit_deadline is None
                &&& t.gate.worker_status == WorkerStatus::Idle
                &&& !t.window.settings_mutation_active
            }
        }),
{
    reveal(tray_handled);
    reveal(exit_handled);
    reveal(exit_begun);
    reveal(exit_finalized);
}

/// Once an exit has begun it waits for the window; without one the worker is told to stop,
/// once, and the application may end.
pub proof fn law_an_exit_goes_on(
    s: SupervisorView,
    now: u64,
    exited: bool,
    token: Option<Seq<char>>,
)
    ensures
        ({
            let (t, step) = exit_polled(s, now, exited, token);
            let late = s.life.settings_child_exit_deadline matches Some(deadline) && now
                >= deadline;
            &&& !s.life.exit_requested ==> t == s && step == ExitStep::NotRequested
            &&& s.life.exit_requested && s.window.settings_child is Some && !late ==> t == s
                && step == ExitStep::WaitForChild
            &&& s.life.exit_requested && s.window.settings_child is None ==> {
                if s.life.exit_shutdown_finalized {
                    t == s && step == ExitStep::Finished
                } else {
                    &&& step == ExitStep::PublishStopped
                    &&& told(s, t, CommandView::Stop)
                    &&& t.life.exit_shutdown_finalized
                    &&& t.gate.latch.paused
                    &&& t.gate.worker_status == WorkerStatus::Idle
                }
            }
        }),
{
    reveal(exit_polled);
    reveal(exit_handled);
    reveal(exit_finalized);
}

/// A window that does not close in time has five more seconds at a time, and the exit
/// waits for it; a change that it had begun leaves the storage in doubt.
pub proof fn law_a_window_that_does_not_close_is_waited_for(
    s: SupervisorView,
    now: u64,
    deadline: u64,
    token: Option<Seq<char>>,
)
    requires
        s.life.exit_requested,
        s.window.settings_child is Some,
        s.life.settings_child_exit_deadline == Some(deadline),
        now >= deadline,
    ensures
        ({
            let (t, step) = exit_polled(s, now, false, token);
            &&& step == ExitStep::WaitForChild
            &&& t.window.settings_child == s.window.settings_child
            &&& t.commands == s.commands
            &&& t.life.settings_child_exit_deadline == Some(
                if now + 5_000 <= u64::MAX {
                    (now + 5_000) as u64
                } else {
                    now
                },
            )
            &&& t.gate.storage_recovery_sticky_blocked == (s.gate.storage_recovery_sticky_blocked
                || s.window.settings_mutation_active)
        }),
{
    reveal(exit_polled);
    reveal(exit_handled);
    reveal(window_forced);
    reveal(exit_left_storage_open);
}

/// A window that was ended by force leaves nothing behind, and its token is replaced; the
/// worker is told to stop, and the application may end.
pub proof fn law_a_window_ended_by_force_leaves_nothing(
    s: SupervisorView,
    now: u64,
    deadline: u64,
    token: Option<Seq<char>>,
)
    requires
        s.life.exit_requested,
        !s.life.exit_shutdown_finalized,
        s.window.settings_child is Some,
        s.life.settings_child_exit_deadline == Some(deadline),
        now >= deadline,
    ensures
        ({
            let (t, step) = exit_polled(s, now, true, token);
            &&& step == ExitStep::PublishStopped
            &&& window_gone(t)
            &&& told(s, t, CommandView::Stop)
            &&& t.life.exit_shutdown_finalized
            &&& t.life.settings_child_exit_deadline is None
            &&& t.gate.latch.paused
            &&& t.gate.storage_recovery_sticky_blocked == (s.gate.storage_recovery_sticky_blocked
                || s.window.settings_mutation_active)
            &&& token matches Some(fresh) ==> t.settings_session_token == fresh
            &&& token is None ==> !t.gate.storage_recovery_ready
        }),
{
    reveal(exit_polled);
    reveal(exit_handled);
    lemma_window_forced(s, now, token);
    lemma_finalized(window_forced(s, now, true, token));
}

proof fn lemma_window_forced(s: SupervisorView, now: u64, token: Option<Seq<char>>)
    requires
        s.window.settings_child is Some,
    ensures
        ({
            let t = window_forced(s, now, true, token);
            &&& window_gone(t)
            &&& t.commands == s.commands
            &&& t.capacity == s.capacity
            &&& t.life.exit_requested == s.life.exit_requested
            &&& t.life.exit_shutdown_finalized == s.life.exit_shutdown_finalized
            &&& t.gate.storage_recovery_sticky_blocked == (s.gate.storage_recovery_sticky_blocked
                || s.window.settings_mutation_active)
            &&& token matches Some(fresh) ==> t.settings_session_token == fresh
            &&& token is None ==> !t.gate.storage_recovery_ready
        }),
{
    reveal(window_forced);
    reveal(window_ended);
    reveal(exit_left_storage_open);
    reveal(authorization_revoked);
    reveal(recovery_failed);
}

proof fn lemma_finalized(s: SupervisorView)
    ensures
        ({
            let t = exit_finalized(s);
            &&& told(s, t, CommandView::Stop)
            &&& t.life.exit_shutdown_finalized
            &&& t.life.settings_child_exit_deadline is None
            &&& t.gate.latch.paused
            &&& t.window == (SettingsWindow { settings_mutation_active: false, ..s.window })
            &&& t.gate.storage_recovery_sticky_blocked == s.gate.storage_recovery_sticky_blocked
            &&& t.gate.storage_recovery_ready == s.gate.storage_recovery_ready
            &&& t.settings_session_token == s.settings_session_token
        }),
{
    reveal(exit_finalized);
}

/// During an exit the menu does nothing but go on with the exit; otherwise the two
/// commands on accessibility are passed on and change nothing.
pub proof fn law_the_menu_otherwise(s: SupervisorView, now: u64, trusted_now: bool)
    ensures
        forall|command: TrayCommand|
            s.life.exit_requested && command != TrayCommand::Exit ==> #[trigger] tray_handled(
                s,
                now,
                command,
                trusted_now,
            ) == (s, TrayStep::Nothing),
        !s.life.exit_requested ==> tray_handled(
            s,
            now,
            TrayCommand::RequestAccessibilityAccess,
            trusted_now,
        ) == (s, TrayStep::AskForAccessibility),
        !s.life.exit_requested ==> tray_handled(
            s,
            now,
            TrayCommand::OpenAccessibilitySettings,
            trusted_now,
        ) == (s, TrayStep::OpenAccessibilitySettings),
{
    reveal(tray_handled);
}

// ---------------------------------------------------------------------------
// Who may ask for what
// ---------------------------------------------------------------------------

/// Anybody may bring the window up. The window may announce itself, and afterwards its
/// own process, while it lives, has every other command passed on; everybody else is
/// turned away.
pub proof fn law_commands_are_passed_on(
    s: SupervisorView,
    command: LocalIpcCommand,
    peer_pid: u32,
    child_alive: bool,
)
    ensures
        ({
            let route = ipc_route(s, command, peer_pid, child_alive);
            let own = child_alive && s.window.settings_child == Some(peer_pid)
                && s.window.settings_child_bootstrapped;
            match command {
                LocalIpcCommand::Activate => route == IpcRoute::Handle,
                LocalIpcCommand::SettingsBootstrap => route == IpcRoute::Bootstrap,
                LocalIpcCommand::ReloadConfig => route == (if own {
                    IpcRoute::Commit
                } else {
                    IpcRoute::Unauthorized
                }),
                LocalIpcCommand::Monitor(inner) => route == (if own {
                    IpcRoute::Monitor(inner)
                } else {
                    IpcRoute::Unauthorized
                }),
                LocalIpcCommand::SettingsMutationBegin => route == (if own {
                    IpcRoute::Handle
                } else {
                    IpcRoute::Unauthorized
                }),
                LocalIpcCommand::SettingsMutationCancel => route == (if own {
                    IpcRoute::Handle
                } else {
                    IpcRoute::Unauthorized
                }),
            }
        }),
{
    reveal(ipc_route);
}

/// To bring the application up opens the accounts, unless it is about to end.
pub proof fn law_activation_opens_the_accounts(
    s: SupervisorView,
    now: u64,
    trusted_now: bool,
    reload: ReloadView,
)
    ensures
        ({
            let (t, outcome) = ipc_handled(
                s,
                now,
                LocalIpcCommand::Activate,
                trusted_now,
                reload,
            );
            &&& s.life.exit_requested ==> t == s && outcome == IpcOutcome::Refused
            &&& !s.life.exit_requested ==> {
                &&& t == tray_handled(s, now, TrayCommand::OpenAccounts, trusted_now).0
                &&& (outcome == IpcOutcome::Committed) == (t.window.pending_settings_launch is Some
                    || t.window.pending_settings_presentation is Some)
                &&& outcome == IpcOutcome::Committed || outcome == IpcOutcome::Refused
            }
        }),
{
    reveal(ipc_handled);
    reveal(tray_handled);
    reveal(window_opened);
    reveal(presentation_queued);
    reveal(quiescence_requested);
}

// ---------------------------------------------------------------------------
// The start of a session
// ---------------------------------------------------------------------------

/// A session with a sound storage starts the monitor, where accessibility is trusted and
/// no window is to be shown.
pub proof fn law_a_session_starts_the_monitor(
    startup: StartupView,
    token: Seq<char>,
    capacity: usize,
    trusted: bool,
    now: u64,
)
    requires
        startup.storage_recovery_ready,
        startup.config.settings.start_minimized,
        capacity > 0,
    ensures
        ({
            let t = session_started(startup, false, true, token, capacity, trusted, now);
            &&& t.config == startup.config
            &&& t.settings_session_token == token
            &&& t.capacity == capacity
            &&& t.gate.desired_monitor_running
            &&& t.gate.storage_recovery_ready
            &&& !t.gate.storage_recovery_sticky_blocked
            &&& !t.gate.latch.paused
            &&& t.gate.accessibility_trusted == trusted
            &&& t.commands == (if trusted {
                seq![CommandView::Start]
            } else {
                seq![]
            })
            &&& t.window.pending_settings_launch is None
            &&& t.window.settings_child is None
            &&& !t.life.exit_requested
            &&& !t.life.startup_window_preference_pending
        }),
{
    reveal(session_started);
    reveal(startup_applied);
    reveal(window_preference_applied);
    reveal(start_queued);
    reveal(with_recovery_state);
    reveal(with_sticky_block);
    reveal(fresh_supervisor);
    let t = session_started(startup, false, true, token, capacity, trusted, now);
    assert(t.commands =~= (if trusted {
        seq![CommandView::Start]
    } else {
        seq![]
    }));
}

/// A session that is not to start minimized opens the accounts first; the monitor starts
/// after them.
pub proof fn law_a_session_opens_the_accounts(
    startup: StartupView,
    token: Seq<char>,
    capacity: usize,
    trusted: bool,
    now: u64,
)
    requires
        startup.storage_recovery_ready,
        !startup.config.settings.start_minimized,
        capacity >= 2,
        now + 15_000 <= u64::MAX,
    ensures
        ({
            let t = session_started(startup, false, true, token, capacity, trusted, now);
            &&& t.window.pending_settings_launch == Some(
                PendingSettingsLaunch {
                    request_id: 1,
                    initial_tab: Tab::Accounts,
                    pause_monitor: true,
                    deadline: (now + 15_000) as u64,
                },
            )
            &&& t.commands == seq![CommandView::Stop, CommandView::Quiesce { request_id: 1 }]
            &&& t.gate.latch.paused
            &&& t.gate.desired_monitor_running
            &&& t.gate.storage_recovery_ready
        }),
{
    reveal(session_started);
    reveal(startup_applied);
    reveal(window_preference_applied);
    reveal(window_opened);
    reveal(quiescence_requested);
    reveal(start_queued);
    reveal(with_recovery_state);
    reveal(with_sticky_block);
    reveal(fresh_supervisor);
    let t = session_started(startup, false, true, token, capacity, trusted, now);
    assert(t.commands =~= seq![CommandView::Stop, CommandView::Quiesce { request_id: 1 }]);
}

/// A session whose storage is not recovered is paused and starts nothing; the monitor
/// starts after the recovery, unless the storage is blocked.
pub proof fn law_a_session_waits_for_its_storage(
    startup: StartupView,
    sticky_blocked: bool,
    token: Seq<char>,
    capacity: usize,
    trusted: bool,
    now: u64,
)
    requires
        !startup.storage_recovery_ready || sticky_blocked,
    ensures
        ({
            let t = session_started(
                startup,
                sticky_blocked,
                false,
                token,
                capacity,
                trusted,
                now,
            );
            &&& t.commands == Seq::<CommandView>::empty()
            &&& t.gate.latch.paused
            &&& !t.gate.storage_recovery_ready
            &&& t.gate.storage_recovery_sticky_blocked == sticky_blocked
            &&& t.gate.resume_monitor_after_settings == (!sticky_blocked && trusted)
            &&& t.life.startup_window_preference_pending
            &&& now >= 1_000 && !sticky_blocked ==> retry_due(t, now)
        }),
{
    reveal(session_started);
    reveal(startup_applied);
    reveal(start_queued);
    reveal(with_recovery_state);
    reveal(with_sticky_block);
    reveal(fresh_supervisor);
    reveal(retry_due);
}

/// A window that was to be shown once the settings are known is shown then; without one
/// the monitor is told to start, if it is to.
pub proof fn law_a_deferred_window_is_shown(s: SupervisorView, now: u64, start: bool)
    requires
        s.window.pending_settings_launch is None,
        s.window.pending_settings_presentation is None,
        s.window.settings_child is None,
        s.commands.len() + 2 <= s.capacity,
        s.window.next_settings_launch_request_id < u64::MAX,
        now + 15_000 <= u64::MAX,
    ensures
        ({
            let t = deferred_startup_applied(s, now, start);
            &&& !t.life.startup_window_preference_pending
            &&& t.config == s.config
            &&& t.settings_session_token == s.settings_session_token
            &&& t.gate.storage_recovery_ready == s.gate.storage_recovery_ready
            &&& !s.life.startup_window_preference_pending ==> t == s
            &&& s.life.startup_window_preference_pending
                && !s.config.settings.start_minimized ==> {
                &&& t.window.pending_settings_launch matches Some(pending) && pending.initial_tab
                    == Tab::Accounts && pending.pause_monitor
                &&& t.gate.latch.paused
            }
            &&& s.life.startup_window_preference_pending && s.config.settings.start_minimized ==> {
                &&& t.window == s.window
                &&& t.gate == s.gate
                &&& start ==> t.commands == s.commands.push(CommandView::Start)
                &&& !start ==> t.commands == s.commands
            }
        }),
{
    reveal(deferred_startup_applied);
    reveal(window_preference_applied);
    reveal(window_opened);
    reveal(quiescence_requested);
    reveal(start_or_pause);
}

/// What the caller of a command on the monitor is shown afterwards.
pub proof fn law_what_is_shown_after_a_command(s: SupervisorView, command: MonitorControlCommand)
    ensures
        command is Stop || command is StorageRecoveryBlocked ==> shown_after(s, command)
            == MonitorControlState::Stopped,
        command is Start || command is ReloadConfig ==> shown_after(s, command) == (
        if !s.gate.desired_monitor_running {
            MonitorControlState::Stopped
        } else if s.gate.worker_status == WorkerStatus::Running {
            MonitorControlState::Running
        } else {
            MonitorControlState::PausedWithStartIntent
        }),
{
}

/// Trust that is told rather than found out works as it does when it is found out, but that
/// nothing starts where nothing is to start with it.
pub proof fn law_trust_that_is_told(s: SupervisorView, trusted: bool)
    ensures
        ({
            let t = trust_applied(s, trusted, false);
            &&& t.gate.accessibility_trusted == trusted
            &&& t.gate.desired_monitor_running == s.gate.desired_monitor_running
            &&& t.gate.published == Some(
                if !s.gate.desired_monitor_running {
                    MonitorControlState::Stopped
                } else if s.gate.worker_status == WorkerStatus::Running {
                    MonitorControlState::Running
                } else {
                    MonitorControlState::PausedWithStartIntent
                },
            )
            &&& trusted || !s.gate.accessibility_trusted ==> left_alone(s, t)
            &&& !trusted && s.gate.accessibility_trusted ==> paused_anew(s, t) && told(
                s,
                t,
                CommandView::Stop,
            )
        }),
{
    reveal(trust_applied);
    reveal(monitor_paused);
    reveal(with_status_shown);
}

/// A recovery that was waited for shows the window that was put off, or tells the monitor to
/// start where there is none to show.
pub proof fn law_a_recovery_shows_what_was_put_off(
    s: SupervisorView,
    now: u64,
    startup: StartupView,
    token: Seq<char>,
    start: bool,
)
    requires
        s.life.startup_window_preference_pending,
        !s.gate.storage_recovery_sticky_blocked,
        startup.storage_recovery_ready,
        s.window.pending_settings_launch is None,
        s.window.pending_settings_presentation is None,
        s.window.settings_child is None,
        s.commands.len() + 3 <= s.capacity,
        s.window.next_settings_launch_request_id < u64::MAX,
        now + 15_000 <= u64::MAX,
    ensures
        ({
            let (t, ok) = recovery_completed(
                s,
                now,
                start,
                ReloadView::Loaded { startup, token: Some(token) },
            );
            &&& ok
            &&& t.config == startup.config
            &&& t.settings_session_token == token
            &&& t.gate.storage_recovery_ready
            &&& !t.life.startup_window_preference_pending
            &&& !startup.config.settings.start_minimized ==> (t.window.pending_settings_launch
                matches Some(pending) && pending.initial_tab == Tab::Accounts
                && pending.pause_monitor)
            &&& startup.config.settings.start_minimized && start ==> t.commands.last()
                == CommandView::Start && t.commands.len() == s.commands.len() + 2
            &&& startup.config.settings.start_minimized && !start ==> t.commands.len()
                == s.commands.len() + 1
        }),
{
    reveal(recovery_completed);
    law_a_loaded_configuration_is_taken_over(s, startup, token, false);
    let after = reloaded(s, ReloadView::Loaded { startup, token: Some(token) }, false).0;
    law_a_deferred_window_is_shown(with_resume(after, false), now, start);
}

/// The window's own process may announce itself, and once it has, may ask for everything;
/// anybody may ask for the window.
pub proof fn law_who_may_ask(command: LocalIpcCommand, pid: u32, bootstrapped: bool)
    ensures
        authorized(LocalIpcCommand::Activate, pid, None, bootstrapped),
        authorized(LocalIpcCommand::SettingsBootstrap, pid, Some(pid), bootstrapped),
        authorized(command, pid, Some(pid), true),
        command != LocalIpcCommand::Activate && command != LocalIpcCommand::SettingsBootstrap
            ==> !authorized(command, pid, Some(pid), false),
        command != LocalIpcCommand::Activate ==> !authorized(command, pid, None, bootstrapped),
{
}

// ---------------------------------------------------------------------------
// What is refused
// ---------------------------------------------------------------------------

/// A configuration whose storage is in doubt is not taken over: the storage is blocked until
/// a restart. Where it is blocked already, only the token is replaced.
pub proof fn law_a_doubtful_configuration_blocks(
    s: SupervisorView,
    startup: StartupView,
    token: Seq<char>,
    start: bool,
)
    ensures
        ({
            let (t, ok) = reloaded(s, ReloadView::Loaded { startup, token: Some(token) }, start);
            &&& t.settings_session_token == token
            &&& s.gate.storage_recovery_sticky_blocked || !startup.storage_recovery_ready ==> {
                &&& !ok
                &&& t.config == s.config
                &&& t.gate.storage_recovery_sticky_blocked
                &&& paused_anew(s, t)
            }
            &&& !s.gate.storage_recovery_sticky_blocked && !startup.storage_recovery_ready ==> {
                &&& t.gate.block_to_persist
                &&& !t.gate.desired_monitor_running
                &&& told(s, t, CommandView::Stop)
            }
            &&& s.gate.storage_recovery_sticky_blocked ==> t.commands == s.commands
        }),
        ({
            let (t, ok) = reloaded(s, ReloadView::Blocked { token: Some(token) }, start);
            &&& !ok
            &&& t.settings_session_token == token
            &&& t.config == s.config
            &&& t.commands == s.commands
            &&& paused_anew(s, t)
            &&& !s.gate.storage_recovery_sticky_blocked ==> !t.gate.storage_recovery_ready
        }),
{
    reveal(reloaded);
    reveal(reload_applied);
    reveal(reload_prepared);
    reveal(reload_finished);
    reveal(delivery_failed);
    reveal(storage_blocked);
    reveal(recovery_failed);
    reveal(with_status_shown);
}

/// Nothing is sent, and nothing expires, out of turn.
pub proof fn law_pages_keep_their_turn(
    s: SupervisorView,
    now: u64,
    reader_ready: bool,
    sent: bool,
)
    ensures
        !(s.window.pending_settings_presentation is Some
            && s.window.pending_settings_presentation->0.phase
            == SettingsPresentationPhase::ToSend) ==> presentation_sent(s, now, reader_ready, sent)
            == s,
        !(s.window.pending_settings_presentation is Some
            && s.window.pending_settings_presentation->0.phase is AwaitingConfirmedExit)
            ==> presentation_expired(s, now) == s,
        s.window.pending_settings_launch is None ==> launch_polled(
            s,
            now,
            QuiescenceReply::Waiting,
        ) == s,
{
    reveal(presentation_sent);
    reveal(presentation_expired);
    reveal(launch_polled);
    reveal(launch_step);
}

/// A change is refused to a window that has not announced itself, on storage that is not
/// recovered or blocked, and while another change is under way; nothing happens then. One
/// that cannot be told to the worker is refused too, and the worker is paused.
pub proof fn law_when_a_change_is_refused(
    s: SupervisorView,
    now: u64,
    trusted_now: bool,
    reload: ReloadView,
)
    ensures
        ({
            let (t, outcome) = ipc_handled(
                s,
                now,
                LocalIpcCommand::SettingsMutationBegin,
                trusted_now,
                reload,
            );
            let may = s.window.settings_child_bootstrapped && s.gate.storage_recovery_ready
                && !s.gate.storage_recovery_sticky_blocked && !s.window.settings_mutation_active;
            &&& !may ==> t == s && outcome == IpcOutcome::Refused
            &&& may && (s.commands.len() + 2 > s.capacity
                || s.window.next_settings_launch_request_id == u64::MAX) ==> outcome
                == IpcOutcome::Refused && paused_anew(s, t) && t.window.settings_mutation_active
        }),
        ipc_handled(s, now, LocalIpcCommand::ReloadConfig, trusted_now, reload) == (
            s,
            IpcOutcome::Refused,
        ),
        ipc_handled(s, now, LocalIpcCommand::SettingsBootstrap, trusted_now, reload) == (
            s,
            IpcOutcome::Refused,
        ),
{
    reveal(ipc_handled);
    reveal(mutation_begun);
    reveal(quiescence_requested);
}

/// During an exit the monitor takes no command to start or to stop, and on blocked storage
/// none to start; a command from the window is answered as it was accepted.
pub proof fn law_when_a_command_is_refused(
    s: SupervisorView,
    now: u64,
    command: MonitorControlCommand,
    trusted_now: bool,
    reload: ReloadView,
)
    ensures
        s.life.exit_requested && (command is Start || command is Stop) ==> monitor_commanded(
            s,
            command,
            trusted_now,
            reload,
        ) == (s, false),
        s.gate.storage_recovery_sticky_blocked && command is Start ==> monitor_commanded(
            s,
            command,
            trusted_now,
            reload,
        ) == (s, false),
        ipc_handled(s, now, LocalIpcCommand::Monitor(command), trusted_now, reload) == ({
            let (t, accepted) = monitor_commanded(s, command, trusted_now, reload);
            (
                t,
                if accepted {
                    IpcOutcome::Committed
                } else {
                    IpcOutcome::Refused
                },
            )
        }),
{
    reveal(monitor_commanded);
    reveal(control_started);
    reveal(ipc_handled);
}

/// A session that does not know yet whether to show a window waits with that, and starts
/// the monitor where it may.
pub proof fn law_a_session_without_a_preference(
    startup: StartupView,
    token: Seq<char>,
    capacity: usize,
    trusted: bool,
    now: u64,
)
    requires
        startup.storage_recovery_ready,
        capacity > 0,
    ensures
        ({
            let t = session_started(startup, false, false, token, capacity, trusted, now);
            &&& t.life.startup_window_preference_pending
            &&& t.window.pending_settings_launch is None
            &&& !t.gate.latch.paused
            &&& t.commands == (if trusted {
                seq![CommandView::Start]
            } else {
                seq![]
            })
        }),
{
    reveal(session_started);
    reveal(startup_applied);
    reveal(start_queued);
    reveal(with_recovery_state);
    reveal(with_sticky_block);
    reveal(fresh_supervisor);
    let t = session_started(startup, false, false, token, capacity, trusted, now);
    assert(t.commands =~= (if trusted {
        seq![CommandView::Start]
    } else {
        seq![]
    }));
}



} // verus!
