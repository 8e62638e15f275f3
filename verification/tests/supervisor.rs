use std::cell::Cell;
use windows_app_autologin::child_exit::{ChildExitAction, ChildExitRun};
use windows_app_autologin::control::{
    FullUiControlRead, LocalIpcCommand, MonitorControlCommand, MonitorControlState,
};
use windows_app_autologin::models::{Account, AppConfig, Tab, WorkerStatus};
use windows_app_autologin::reloading::{MutationStep, ReloadNeed};
use windows_app_autologin::startup::{
    blocked_startup_config, session_startup, StartupConfig, StartupConfigLoad,
};
use windows_app_autologin::supervision::IpcRoute;
use windows_app_autologin::supervisor::{
    ChildStatus, ExitStep, IpcOutcome, LaunchStep, LightweightSupervisor, PresentationAnswer,
    QuiescenceReply, RecoveryReload, SettingsPresentationPhase, SettingsSession, TrayCommand,
    TrayStep, WorkerCommand, WorkerPauseLatch, FULL_UI_GRACEFUL_EXIT_TIMEOUT_MS,
    SETTINGS_QUIESCENCE_TIMEOUT_MS,
};

const CHILD: u32 = 4242;
const NOW: u64 = 100_000;

fn supervisor_with(config: AppConfig, capacity: usize) -> LightweightSupervisor {
    LightweightSupervisor::new(config, "token-0".to_string(), capacity, false, NOW)
}

fn new_supervisor() -> LightweightSupervisor {
    supervisor_with(AppConfig::default(), 8)
}

fn with_child() -> LightweightSupervisor {
    let mut supervisor = new_supervisor();
    supervisor.finish_settings_spawn(CHILD);
    supervisor
}

fn clean(config: AppConfig) -> StartupConfig {
    StartupConfig {
        config,
        storage_recovery_ready: true,
    }
}

fn loaded(config: AppConfig, token: &str) -> RecoveryReload {
    RecoveryReload::Loaded {
        startup: clean(config),
        token: Some(token.to_string()),
    }
}

fn unclean(token: &str) -> RecoveryReload {
    RecoveryReload::Loaded {
        startup: blocked_startup_config(),
        token: Some(token.to_string()),
    }
}

fn not_loaded(token: &str) -> RecoveryReload {
    RecoveryReload::Blocked {
        token: Some(token.to_string()),
    }
}

/// A loader that may only change the token.
fn token_only(need: ReloadNeed, token: &str, why: &str) -> RecoveryReload {
    assert_eq!(need, ReloadNeed::Token, "{why}");
    not_loaded(token)
}

fn expect_stop(supervisor: &mut LightweightSupervisor) {
    assert!(matches!(
        supervisor.take_command(),
        Some(WorkerCommand::Stop)
    ));
}

fn expect_start(supervisor: &mut LightweightSupervisor) {
    assert!(matches!(
        supervisor.take_command(),
        Some(WorkerCommand::Start)
    ));
}

fn expect_nothing(supervisor: &mut LightweightSupervisor) {
    assert!(supervisor.take_command().is_none());
}

fn take_quiescence_request(supervisor: &mut LightweightSupervisor) -> u64 {
    match supervisor.take_command().unwrap() {
        WorkerCommand::Quiesce { request_id } => request_id,
        other => panic!("expected Quiesce, got {other:?}"),
    }
}

fn expect_apply(supervisor: &mut LightweightSupervisor, expected_start: bool) -> u64 {
    match supervisor.take_command().unwrap() {
        WorkerCommand::ApplyConfigAndReleasePause {
            start_monitor,
            pause_epoch,
            refresh_passwords,
            ..
        } => {
            assert_eq!(start_monitor, expected_start);
            assert!(refresh_passwords);
            pause_epoch
        }
        other => panic!("expected ApplyConfigAndReleasePause, got {other:?}"),
    }
}

fn complete_pending_settings_launch(supervisor: &mut LightweightSupervisor, expected_tab: Tab) {
    let request_id = take_quiescence_request(supervisor);
    assert_eq!(
        supervisor.poll_pending_settings_launch(NOW, QuiescenceReply::Acknowledged { request_id }),
        LaunchStep::Authorize {
            initial_tab: expected_tab
        }
    );
    assert!(
        supervisor.prepare_settings_session_for_spawn(SettingsSession::Ready {
            token: "launch-token".to_string()
        })
    );
    supervisor.finish_settings_spawn(CHILD);
}

fn open(supervisor: &mut LightweightSupervisor, tab: Tab) -> bool {
    supervisor.open_full_ui_window_with_monitor_policy(NOW, tab, true)
}

fn close_window(supervisor: &mut LightweightSupervisor, reload: RecoveryReload) {
    supervisor.poll_settings_window(NOW, ChildStatus::Exited, false, reload);
}

fn request_exit(supervisor: &mut LightweightSupervisor) -> ExitStep {
    supervisor.handle_exit_request(NOW)
}

// ---------------------------------------------------------------------------
// What a settings window saves
// ---------------------------------------------------------------------------

#[test]
fn live_settings_commit_acknowledges_only_after_worker_capacity_is_reserved() {
    let mut supervisor = new_supervisor();
    supervisor.window.settings_mutation_active = true;
    let mut next_config = AppConfig::default();
    next_config.settings.start_minimized = true;
    let expected = next_config.clone();
    let acknowledged = Cell::new(false);

    assert!(
        supervisor.acknowledge_live_settings_commit_with(clean(next_config), false, || {
            acknowledged.set(true);
            Ok(())
        })
    );

    assert!(acknowledged.get());
    assert_eq!(supervisor.config, expected);
    assert!(!supervisor.window.settings_mutation_active);
    expect_apply(&mut supervisor, false);
}

#[test]
fn live_settings_commit_does_not_ack_when_worker_capacity_is_unavailable() {
    let mut supervisor = supervisor_with(AppConfig::default(), 1);
    supervisor.commands.push(WorkerCommand::Start);
    supervisor.window.settings_mutation_active = true;
    let acknowledged = Cell::new(false);

    assert!(!supervisor.acknowledge_live_settings_commit_with(
        clean(AppConfig::default()),
        false,
        || {
            acknowledged.set(true);
            Ok(())
        }
    ));

    assert!(!acknowledged.get());
    assert!(supervisor.window.settings_mutation_active);
    assert_eq!(supervisor.config, AppConfig::default());
    expect_start(&mut supervisor);
}

#[test]
fn live_settings_commit_ack_failure_never_publishes_release_command() {
    let mut supervisor = supervisor_with(AppConfig::default(), 1);
    supervisor.window.settings_mutation_active = true;

    assert!(!supervisor.acknowledge_live_settings_commit_with(
        clean(AppConfig::default()),
        false,
        || Err("test acknowledgement failure".to_string())
    ));

    assert!(supervisor.window.settings_mutation_active);
    assert!(supervisor.gate.latch.paused);
    expect_nothing(&mut supervisor);
}

#[test]
fn an_unclean_commit_blocks_until_restart() {
    let mut supervisor = new_supervisor();
    supervisor.window.settings_mutation_active = true;
    assert!(!supervisor.acknowledge_live_settings_commit_with(
        blocked_startup_config(),
        true,
        || panic!("an unclean commit is not acknowledged")
    ));
    assert!(supervisor.gate.storage_recovery_sticky_blocked);
    assert!(supervisor.gate.block_to_persist);

    let mut idle = new_supervisor();
    assert!(!idle.acknowledge_live_settings_commit_with(
        clean(AppConfig::default()),
        true,
        || panic!("nothing was announced")
    ));
}

#[test]
fn a_change_waits_for_a_quiet_worker() {
    let mut supervisor = with_child();
    assert_eq!(supervisor.begin_settings_mutation(), None);
    supervisor.gate.accessibility_trusted = true;
    assert!(supervisor.acknowledge_settings_bootstrap_with(CHILD, true, true, || Ok(())));
    expect_apply(&mut supervisor, true);
    supervisor.gate.worker_status = WorkerStatus::Running;

    let outcome = supervisor.handle_authorized_local_ipc_command(
        NOW,
        LocalIpcCommand::SettingsMutationBegin,
        true,
        RecoveryReload::NoLease,
    );
    let request_id = match outcome {
        IpcOutcome::AwaitQuiescence { request_id } => request_id,
        other => panic!("expected a request, got {other:?}"),
    };
    expect_stop(&mut supervisor);
    assert_eq!(take_quiescence_request(&mut supervisor), request_id);
    assert!(supervisor.window.settings_mutation_active);
    assert!(supervisor.gate.latch.paused);
    assert!(!supervisor.finish_settings_mutation_begin(request_id, QuiescenceReply::Waiting));
    assert!(!supervisor.finish_settings_mutation_begin(
        request_id,
        QuiescenceReply::Acknowledged {
            request_id: request_id + 1
        }
    ));
    assert!(supervisor.finish_settings_mutation_begin(
        request_id,
        QuiescenceReply::Acknowledged { request_id }
    ));
    assert_eq!(supervisor.gate.worker_status, WorkerStatus::Idle);
    assert_eq!(supervisor.begin_settings_mutation(), None);

    supervisor.toggle_monitor(true);
    supervisor.take_command();
    supervisor.toggle_monitor(true);
    expect_nothing(&mut supervisor);
    assert!(supervisor.gate.resume_monitor_after_settings);

    assert!(supervisor.cancel_settings_mutation(true));
    assert!(!supervisor.window.settings_mutation_active);
    expect_apply(&mut supervisor, true);
}

// ---------------------------------------------------------------------------
// The start
// ---------------------------------------------------------------------------

#[test]
fn launch_requests_accounts_when_main_window_is_not_hidden() {
    let mut config = AppConfig::default();
    config.settings.start_minimized = false;
    let mut supervisor = supervisor_with(config, 8);
    supervisor.gate.accessibility_trusted = true;

    supervisor.apply_startup_runtime_preferences(NOW, true);

    expect_stop(&mut supervisor);
    assert_eq!(
        supervisor
            .window
            .pending_settings_launch
            .map(|pending| pending.initial_tab),
        Some(Tab::Accounts)
    );
    assert!(supervisor.window.settings_child.is_none());

    complete_pending_settings_launch(&mut supervisor, Tab::Accounts);

    assert!(supervisor.window.pending_settings_launch.is_none());
    assert!(supervisor.window.settings_child.is_some());
    expect_nothing(&mut supervisor);
}

#[test]
fn launch_stays_tray_only_when_main_window_is_hidden() {
    let mut config = AppConfig::default();
    config.settings.start_minimized = true;
    let mut supervisor = supervisor_with(config, 8);
    supervisor.gate.accessibility_trusted = true;

    supervisor.apply_startup_runtime_preferences(NOW, true);

    expect_start(&mut supervisor);
    expect_nothing(&mut supervisor);
    assert!(supervisor.window.pending_settings_launch.is_none());
    assert!(supervisor.window.settings_child.is_none());
    assert!(!supervisor.gate.latch.paused);
}

#[test]
fn launch_does_not_guess_window_preference_from_blocked_defaults() {
    let mut supervisor =
        supervisor_with(blocked_startup_config().config, 8).with_storage_recovery_state(false);
    supervisor.gate.resume_monitor_after_settings = true;

    supervisor.apply_startup_runtime_preferences(NOW, false);

    expect_nothing(&mut supervisor);
    assert!(supervisor.window.pending_settings_launch.is_none());
    assert!(supervisor.window.settings_child.is_none());
    assert!(supervisor.gate.latch.paused);
    assert!(supervisor.gate.resume_monitor_after_settings);
    assert!(supervisor.life.startup_window_preference_pending);
}

#[test]
fn deferred_startup_window_preference_uses_recovered_value_exactly_once() {
    for start_minimized in [false, true] {
        let mut supervisor =
            supervisor_with(blocked_startup_config().config, 8).with_storage_recovery_state(false);

        supervisor.apply_startup_runtime_preferences(NOW, false);
        assert!(supervisor.life.startup_window_preference_pending);
        expect_nothing(&mut supervisor);

        let mut recovered = AppConfig::default();
        recovered.settings.start_minimized = start_minimized;
        assert!(supervisor.complete_blocked_storage_recovery_with(
            NOW,
            true,
            loaded(recovered, "token-1")
        ));

        assert!(!supervisor.life.startup_window_preference_pending);
        match supervisor.take_command().unwrap() {
            WorkerCommand::ApplyConfigAndReleasePause {
                settings,
                start_monitor,
                ..
            } => {
                assert_eq!(settings.start_minimized, start_minimized);
                assert!(!start_monitor);
            }
            other => panic!("expected recovered config apply, got {other:?}"),
        }
        if start_minimized {
            assert!(supervisor.window.pending_settings_launch.is_none());
            expect_start(&mut supervisor);
            expect_nothing(&mut supervisor);
        } else {
            expect_stop(&mut supervisor);
            take_quiescence_request(&mut supervisor);
            assert_eq!(
                supervisor
                    .window
                    .pending_settings_launch
                    .map(|pending| pending.initial_tab),
                Some(Tab::Accounts)
            );
            expect_nothing(&mut supervisor);
        }

        supervisor.apply_deferred_startup_runtime_preferences(NOW, true);
        expect_nothing(&mut supervisor);
    }
}

#[test]
fn launch_init_queues_monitor_start_when_accessibility_is_trusted() {
    let mut supervisor = new_supervisor();
    supervisor.gate.accessibility_trusted = true;
    supervisor.queue_monitor_start_if_accessibility_trusted();
    expect_start(&mut supervisor);
}

#[test]
fn launch_init_leaves_monitor_idle_without_accessibility() {
    let mut supervisor = new_supervisor();
    supervisor.queue_monitor_start_if_accessibility_trusted();
    expect_nothing(&mut supervisor);
}

#[test]
fn launch_init_leaves_monitor_idle_while_storage_recovery_is_blocked() {
    let mut supervisor = new_supervisor().with_storage_recovery_state(false);
    supervisor.gate.accessibility_trusted = true;
    supervisor.queue_monitor_start_if_accessibility_trusted();
    expect_nothing(&mut supervisor);
}

// ---------------------------------------------------------------------------
// Pages of an open window
// ---------------------------------------------------------------------------

#[test]
fn the_exit_asks_the_window_first() {
    let mut supervisor = with_child();
    assert_eq!(
        supervisor.process_tray_command(NOW, TrayCommand::Exit, false),
        TrayStep::Exit(ExitStep::AskChild)
    );
    assert_eq!(
        supervisor.process_tray_command(NOW, TrayCommand::Exit, false),
        TrayStep::Exit(ExitStep::WaitForChild)
    );
    assert_eq!(
        supervisor.process_tray_command(NOW, TrayCommand::ToggleMonitor, true),
        TrayStep::Nothing
    );
    assert!(!supervisor.gate.desired_monitor_running);
}

#[test]
fn busy_live_ui_is_not_terminated_for_a_delayed_presentation_acknowledgement() {
    let mut supervisor = with_child();

    assert!(open(&mut supervisor, Tab::Accounts));
    supervisor.on_presentation_sent(NOW, true, true);
    supervisor.expire_unconfirmed_settings_presentation(NOW + 1_000_000);
    supervisor.poll_settings_window(
        NOW + 1_000_000,
        ChildStatus::Running,
        false,
        RecoveryReload::NoLease,
    );

    assert_eq!(supervisor.window.settings_child, Some(CHILD));
    assert_eq!(
        supervisor
            .window
            .pending_settings_presentation
            .map(|pending| pending.requested_tab),
        Some(Tab::Accounts)
    );
    expect_nothing(&mut supervisor);
}

#[test]
fn broken_presentation_protocol_does_not_kill_child_or_retain_stale_reopen_intent() {
    let mut supervisor = with_child();

    assert!(open(&mut supervisor, Tab::Accounts));
    supervisor.on_presentation_sent(NOW, true, true);
    supervisor.poll_settings_presentation_acknowledgement(
        NOW,
        PresentationAnswer::Line(FullUiControlRead::Invalid),
    );
    assert!(supervisor.window.settings_child_control_broken);
    let deadline = match supervisor
        .window
        .pending_settings_presentation
        .map(|pending| pending.phase)
    {
        Some(SettingsPresentationPhase::AwaitingConfirmedExit { deadline }) => deadline,
        other => panic!("expected exit-confirmation phase, got {other:?}"),
    };
    assert_eq!(deadline, NOW + 5_000);

    supervisor.expire_unconfirmed_settings_presentation(deadline - 1);
    assert!(supervisor.window.pending_settings_presentation.is_some());
    supervisor.expire_unconfirmed_settings_presentation(deadline);

    assert!(supervisor.window.pending_settings_presentation.is_none());
    assert!(!open(&mut supervisor, Tab::Settings));
    assert_eq!(supervisor.window.settings_child, Some(CHILD));
    assert!(supervisor.window.pending_settings_presentation.is_none());
    expect_nothing(&mut supervisor);
}

#[test]
fn a_page_that_cannot_be_asked_for_breaks_the_channel() {
    for (reader_ready, sent) in [(false, true), (true, false)] {
        let mut supervisor = with_child();
        assert!(open(&mut supervisor, Tab::Accounts));
        supervisor.on_presentation_sent(NOW, reader_ready, sent);
        assert!(supervisor.window.settings_child_control_broken);
    }
    let mut unsolicited = with_child();
    unsolicited.window.settings_child_acknowledgements = true;
    unsolicited.poll_settings_presentation_acknowledgement(
        NOW,
        PresentationAnswer::Line(FullUiControlRead::Show(Tab::Accounts)),
    );
    assert!(unsolicited.window.settings_child_control_broken);
}

#[test]
fn repeated_full_ui_requests_present_the_live_child_without_requiescing() {
    let mut supervisor = with_child();
    supervisor.gate.resume_monitor_after_settings = true;
    let latch = supervisor.gate.latch;

    assert!(open(&mut supervisor, Tab::Accounts));
    supervisor.on_presentation_sent(NOW, true, true);
    assert!(open(&mut supervisor, Tab::Settings));
    supervisor.poll_settings_presentation_acknowledgement(
        NOW,
        PresentationAnswer::Line(FullUiControlRead::Show(Tab::Accounts)),
    );
    assert_eq!(
        supervisor
            .window
            .pending_settings_presentation
            .map(|pending| (pending.in_flight_tab, pending.phase)),
        Some((Tab::Settings, SettingsPresentationPhase::ToSend))
    );
    supervisor.on_presentation_sent(NOW, true, true);
    supervisor.poll_settings_presentation_acknowledgement(
        NOW,
        PresentationAnswer::Line(FullUiControlRead::Show(Tab::Settings)),
    );

    assert_eq!(supervisor.window.settings_child, Some(CHILD));
    assert!(supervisor.window.pending_settings_presentation.is_none());
    assert!(supervisor.window.pending_settings_launch.is_none());
    assert_eq!(supervisor.settings_session_token, "token-0");
    assert!(supervisor.gate.resume_monitor_after_settings);
    assert_eq!(supervisor.gate.latch, latch);
    expect_nothing(&mut supervisor);
}

#[test]
fn presentation_racing_child_exit_reopens_the_latest_tab_only_after_confirmed_exit() {
    let mut supervisor = with_child();
    supervisor.gate.resume_monitor_after_settings = true;

    assert!(open(&mut supervisor, Tab::Accounts));
    assert!(open(&mut supervisor, Tab::Settings));
    assert!(supervisor.window.pending_settings_launch.is_none());
    assert_eq!(
        supervisor
            .window
            .pending_settings_presentation
            .map(|pending| pending.requested_tab),
        Some(Tab::Settings)
    );

    close_window(&mut supervisor, loaded(AppConfig::default(), "token-1"));

    assert!(supervisor.window.settings_child.is_none());
    assert!(supervisor.window.pending_settings_presentation.is_none());
    assert_eq!(
        supervisor
            .window
            .pending_settings_launch
            .map(|pending| pending.initial_tab),
        Some(Tab::Settings)
    );
    expect_apply(&mut supervisor, false);
    expect_stop(&mut supervisor);
    take_quiescence_request(&mut supervisor);
    expect_nothing(&mut supervisor);
}

// ---------------------------------------------------------------------------
// Tokens
// ---------------------------------------------------------------------------

#[test]
fn consecutive_settings_spawns_use_distinct_authorization_tokens() {
    let mut supervisor = new_supervisor();
    assert!(
        supervisor.prepare_settings_session_for_spawn(SettingsSession::Ready {
            token: "token-1".to_string()
        })
    );
    assert_eq!(supervisor.settings_session_token, "token-1");
    assert!(
        supervisor.prepare_settings_session_for_spawn(SettingsSession::Ready {
            token: "token-2".to_string()
        })
    );
    assert_eq!(supervisor.settings_session_token, "token-2");
    assert!(!supervisor.prepare_settings_session_for_spawn(SettingsSession::Unavailable));
    assert_eq!(supervisor.settings_session_token, "token-2");
    assert!(
        !supervisor.prepare_settings_session_for_spawn(SettingsSession::LeaseRefused {
            token: "token-3".to_string(),
            revoked: Some("token-4".to_string()),
        })
    );
    assert_eq!(supervisor.settings_session_token, "token-4");
    assert!(supervisor.gate.storage_recovery_ready);
    assert!(
        !supervisor.prepare_settings_session_for_spawn(SettingsSession::LeaseRefused {
            token: "token-5".to_string(),
            revoked: None,
        })
    );
    assert!(!supervisor.gate.storage_recovery_ready);
    assert!(supervisor.gate.latch.paused);
}

#[test]
fn failed_spawn_revokes_token_and_stale_child_cannot_reacquire() {
    let mut supervisor = new_supervisor();
    assert!(
        supervisor.prepare_settings_session_for_spawn(SettingsSession::Ready {
            token: "failed-spawn".to_string()
        })
    );

    supervisor.finish_failed_settings_spawn(not_loaded("token-1"));

    assert_eq!(supervisor.settings_session_token, "token-1");
    assert!(supervisor.gate.storage_recovery_ready);
    supervisor.finish_failed_settings_spawn(RecoveryReload::NoLease);
    assert!(!supervisor.gate.storage_recovery_ready);

    let mut resuming = new_supervisor();
    resuming.gate.resume_monitor_after_settings = true;
    resuming.finish_failed_settings_spawn(loaded(AppConfig::default(), "token-2"));
    assert_eq!(resuming.settings_session_token, "token-2");
    expect_apply(&mut resuming, true);
}

#[test]
fn confirmed_exit_rotates_token_even_when_recovery_is_blocked() {
    let mut supervisor = with_child();

    close_window(&mut supervisor, unclean("token-1"));

    assert!(supervisor.window.settings_child.is_none());
    assert!(supervisor.gate.storage_recovery_sticky_blocked);
    assert_eq!(supervisor.settings_session_token, "token-1");

    assert!(
        !supervisor.reload_config_after_settings_with_loader(|need| token_only(
            need,
            "token-2",
            "sticky recovery must not invoke the loader",
        ))
    );
    assert_eq!(supervisor.settings_session_token, "token-2");
}

// ---------------------------------------------------------------------------
// Reloads
// ---------------------------------------------------------------------------

fn account_config() -> AppConfig {
    let mut config = AppConfig::default();
    config.settings.use_keyring = false;
    let mut account = Account::new("user@example.com".to_string());
    account.id = "account-1".to_string();
    account.has_saved_password = true;
    config.accounts.push(account);
    config
}

#[test]
fn reload_config_after_settings_uses_recovered_config_before_worker_refresh() {
    let mut supervisor = new_supervisor();
    let mut recovered = account_config();
    recovered.settings.start_minimized = true;
    let expected = recovered.clone();

    assert!(supervisor.reload_config_after_settings(loaded(recovered, "token-1")));

    assert_eq!(supervisor.config, expected);
    match supervisor.take_command().unwrap() {
        WorkerCommand::ApplyConfigAndReleasePause {
            settings,
            accounts,
            refresh_passwords,
            start_monitor,
            pause_epoch: _,
        } => {
            assert_eq!(settings, expected.settings);
            assert_eq!(accounts, expected.accounts);
            assert!(refresh_passwords);
            assert!(!start_monitor);
        }
        other => panic!("expected ApplyConfigAndReleasePause, got {other:?}"),
    }
    expect_nothing(&mut supervisor);
}

#[test]
fn reload_config_after_settings_fails_closed_when_worker_sync_cannot_be_queued() {
    let mut supervisor = supervisor_with(AppConfig::default(), 1);
    supervisor.commands.push(WorkerCommand::Start);
    supervisor.gate.worker_status = WorkerStatus::Running;
    supervisor.gate.resume_monitor_after_settings = true;

    let mut recovered = AppConfig::default();
    recovered.settings.use_keyring = false;

    assert!(!supervisor.reload_config_after_settings(loaded(recovered, "token-1")));
    assert_eq!(supervisor.config, AppConfig::default());
    assert!(!supervisor.gate.resume_monitor_after_settings);
    assert_eq!(supervisor.commands.len(), 1);
}

#[test]
fn reload_config_stops_monitor_and_withholds_credentials_when_recovery_is_blocked() {
    let mut supervisor = new_supervisor();
    supervisor.gate.worker_status = WorkerStatus::Running;
    supervisor.gate.resume_monitor_after_settings = true;

    let mut unverified = AppConfig::default();
    unverified.settings.use_keyring = false;
    assert!(
        !supervisor.reload_config_after_settings(RecoveryReload::Loaded {
            startup: StartupConfig {
                config: unverified,
                storage_recovery_ready: false,
            },
            token: Some("token-1".to_string()),
        })
    );

    assert_eq!(supervisor.config, AppConfig::default());
    assert!(!supervisor.gate.storage_recovery_ready);
    assert!(!supervisor.gate.resume_monitor_after_settings);
    expect_stop(&mut supervisor);
    expect_nothing(&mut supervisor);
}

#[test]
fn blocked_recovery_orders_stop_after_a_queued_start_while_status_is_idle() {
    let mut supervisor = new_supervisor();
    supervisor.commands.push(WorkerCommand::Start);

    assert!(!supervisor.reload_config_after_settings(unclean("token-1")));

    assert!(!supervisor.gate.storage_recovery_ready);
    expect_start(&mut supervisor);
    expect_stop(&mut supervisor);
    expect_nothing(&mut supervisor);
}

#[test]
fn a_reload_without_lock_or_token_fails_closed() {
    for reload in [
        RecoveryReload::NoLease,
        RecoveryReload::Blocked { token: None },
        RecoveryReload::Loaded {
            startup: clean(AppConfig::default()),
            token: None,
        },
    ] {
        let mut supervisor = new_supervisor();
        assert!(!supervisor.reload_config_after_settings(reload));
        assert!(!supervisor.gate.storage_recovery_ready);
        assert!(!supervisor.gate.storage_recovery_sticky_blocked);
        assert!(supervisor.gate.latch.paused);
        expect_nothing(&mut supervisor);
        assert!(supervisor.storage_recovery_retry_due(NOW));
        assert!(supervisor.retry_blocked_storage_recovery(
            NOW,
            false,
            loaded(AppConfig::default(), "token-1")
        ));
        assert!(supervisor.gate.storage_recovery_ready);
        expect_apply(&mut supervisor, false);
        assert!(!supervisor.storage_recovery_retry_due(NOW + 5_000));
    }
}

#[test]
fn reload_ipc_from_settings_child_never_consumes_a_live_transaction_journal() {
    let mut supervisor = with_child();
    assert!(!supervisor.reload_config_after_settings_with_loader(|_| {
        panic!("live settings transactions must not be loaded or recovered")
    }));
    assert!(!supervisor.reload_config_after_settings(loaded(account_config(), "token-1")));
    assert_eq!(supervisor.config, AppConfig::default());
    assert_eq!(supervisor.settings_session_token, "token-0");
    expect_nothing(&mut supervisor);
    assert!(supervisor.window.settings_child.is_some());
}

#[test]
fn a_window_that_ended_in_the_middle_of_a_change_is_not_recovered() {
    let mut supervisor = with_child();
    supervisor.window.settings_mutation_active = true;
    assert_eq!(
        supervisor.settings_exit_need(ChildStatus::Exited),
        ReloadNeed::Token
    );
    supervisor.poll_settings_window_with_loader(NOW, ChildStatus::Exited, true, |need| {
        token_only(need, "token-1", "an interrupted change must not be recovered")
    });
    assert!(supervisor.window.settings_child.is_none());
    assert_eq!(supervisor.settings_session_token, "token-1");
    assert!(supervisor.gate.storage_recovery_sticky_blocked);
    assert!(!supervisor.gate.desired_monitor_running);
}

#[test]
fn nothing_is_loaded_before_the_window_ended() {
    for status in [ChildStatus::Running, ChildStatus::Unknown] {
        let mut supervisor = with_child();
        assert_eq!(supervisor.settings_exit_need(status), ReloadNeed::Nothing);
        supervisor.poll_settings_window_with_loader(NOW, status, true, |_| {
            panic!("nothing is loaded")
        });
        assert_eq!(supervisor.window.settings_child, Some(CHILD));
    }
    let mut supervisor = new_supervisor();
    supervisor.poll_settings_window_with_loader(NOW, ChildStatus::Exited, true, |_| {
        panic!("nothing is loaded")
    });
    assert_eq!(supervisor.settings_session_token, "token-0");
}

#[test]
fn a_window_that_ended_well_is_recovered() {
    let mut supervisor = with_child();
    let needs = Cell::new(Vec::new());
    supervisor.poll_settings_window_with_loader(NOW, ChildStatus::Exited, true, |need| {
        needs.set(vec![need]);
        loaded(account_config(), "token-1")
    });
    assert_eq!(needs.take(), vec![ReloadNeed::Recovery]);
    assert_eq!(supervisor.config.accounts.len(), 1);
    assert_eq!(supervisor.settings_session_token, "token-1");
}

#[test]
fn only_a_request_to_reload_needs_the_storage() {
    let supervisor = new_supervisor();
    for command in [
        MonitorControlCommand::Start,
        MonitorControlCommand::Stop,
        MonitorControlCommand::StorageRecoveryBlocked,
    ] {
        assert_eq!(
            supervisor.monitor_command_need(command),
            ReloadNeed::Nothing
        );
    }
    let reload = MonitorControlCommand::ReloadConfig;
    assert_eq!(
        supervisor.monitor_command_need(reload),
        ReloadNeed::Recovery
    );
    assert_eq!(
        with_child().monitor_command_need(reload),
        ReloadNeed::Nothing
    );
    let mut blocked = new_supervisor();
    blocked.block_storage_recovery_until_restart();
    assert_eq!(blocked.monitor_command_need(reload), ReloadNeed::Token);
}

#[test]
fn a_failed_start_of_the_window_recovers_only_to_go_on() {
    let mut supervisor = new_supervisor();
    supervisor.gate.resume_monitor_after_settings = true;
    assert_eq!(
        supervisor.failed_settings_spawn_need(),
        ReloadNeed::Recovery
    );
    supervisor.gate.storage_recovery_sticky_blocked = true;
    assert_eq!(supervisor.failed_settings_spawn_need(), ReloadNeed::Token);
    supervisor.gate.storage_recovery_sticky_blocked = false;
    supervisor.gate.resume_monitor_after_settings = false;
    assert_eq!(supervisor.failed_settings_spawn_need(), ReloadNeed::Token);
}

#[test]
fn a_commit_without_a_change_loads_nothing() {
    let mut supervisor = with_child();
    assert!(!supervisor.acknowledge_live_settings_commit_with_loader(
        true,
        || panic!("nothing is acknowledged"),
        || panic!("nothing is loaded"),
    ));
    supervisor.window.settings_mutation_active = true;
    let acknowledged = Cell::new(false);
    assert!(supervisor.acknowledge_live_settings_commit_with_loader(
        true,
        || {
            acknowledged.set(true);
            Ok(())
        },
        || clean(account_config()),
    ));
    assert!(acknowledged.get());
    assert_eq!(supervisor.config.accounts.len(), 1);
    assert!(!supervisor.window.settings_mutation_active);
}

#[test]
fn a_commit_that_was_not_loaded_cleanly_is_not_acknowledged() {
    let mut supervisor = with_child();
    supervisor.window.settings_mutation_active = true;
    assert!(!supervisor.acknowledge_live_settings_commit_with_loader(
        true,
        || panic!("nothing is acknowledged"),
        blocked_startup_config,
    ));
    assert!(supervisor.gate.storage_recovery_sticky_blocked);
}

/// A settings window that asked to change something, and the request for quiet.
fn with_waiting_change() -> (LightweightSupervisor, u64) {
    let mut supervisor = with_child();
    supervisor.window.settings_child_bootstrapped = true;
    supervisor.gate.worker_status = WorkerStatus::Running;
    let request_id = supervisor.begin_settings_mutation().unwrap();
    (supervisor, request_id)
}

#[test]
fn a_change_waits_for_a_quiet_worker_until_its_time_is_over() {
    let late = NOW + SETTINGS_QUIESCENCE_TIMEOUT_MS;
    let (mut supervisor, request_id) = with_waiting_change();
    let quiet = QuiescenceReply::Acknowledged { request_id };
    let mut poll =
        |now, reply| supervisor.poll_settings_mutation_begin(NOW, now, request_id, reply);
    assert_eq!(poll(NOW, QuiescenceReply::Waiting), MutationStep::Wait);
    assert_eq!(poll(late - 1, QuiescenceReply::Waiting), MutationStep::Wait);
    assert_eq!(poll(late, QuiescenceReply::Waiting), MutationStep::Refuse);
    assert_eq!(poll(late, quiet), MutationStep::Refuse);
    assert_eq!(
        poll(
            NOW,
            QuiescenceReply::Acknowledged {
                request_id: request_id + 1
            }
        ),
        MutationStep::Refuse
    );
    assert_eq!(
        poll(NOW, QuiescenceReply::Disconnected),
        MutationStep::Refuse
    );
    assert_eq!(poll(late - 1, quiet), MutationStep::Grant);
    assert_eq!(supervisor.gate.worker_status, WorkerStatus::Idle);
}

#[test]
fn a_change_that_was_ended_meanwhile_is_not_granted() {
    for end in [
        |supervisor: &mut LightweightSupervisor| {
            supervisor.block_storage_recovery_until_restart();
        },
        |supervisor: &mut LightweightSupervisor| {
            supervisor.cancel_settings_mutation(false);
        },
        |supervisor: &mut LightweightSupervisor| {
            close_window(supervisor, not_loaded("token-1"));
        },
        |supervisor: &mut LightweightSupervisor| {
            supervisor.cancel_settings_mutation(false);
            while supervisor.take_command().is_some() {}
            supervisor.begin_settings_mutation().unwrap();
        },
    ] {
        let (mut supervisor, request_id) = with_waiting_change();
        end(&mut supervisor);
        let status = supervisor.gate.worker_status;
        for reply in [
            QuiescenceReply::Waiting,
            QuiescenceReply::Acknowledged { request_id },
        ] {
            assert_eq!(
                supervisor.poll_settings_mutation_begin(NOW, NOW, request_id, reply),
                MutationStep::Refuse
            );
            assert!(!supervisor.finish_settings_mutation_begin(request_id, reply));
        }
        assert_eq!(supervisor.gate.worker_status, status);
    }
}

#[test]
fn a_committed_command_is_shown_and_then_acknowledged() {
    let mut supervisor = new_supervisor();
    assert!(supervisor.process_monitor_command(
        MonitorControlCommand::Stop,
        true,
        RecoveryReload::NoLease
    ));
    let shown = Cell::new(None);
    let acknowledged = Cell::new(false);
    assert!(supervisor.acknowledge_committed_monitor_command_with(
        MonitorControlCommand::Stop,
        |state| {
            assert!(!acknowledged.get());
            shown.set(Some(state));
            Ok(())
        },
        || {
            acknowledged.set(true);
            Ok(())
        },
    ));
    assert_eq!(shown.get(), Some(MonitorControlState::Stopped));
    assert!(acknowledged.get());
    assert!(!supervisor.acknowledge_committed_monitor_command_with(
        MonitorControlCommand::Stop,
        |_| Err("not shown".to_string()),
        || panic!("nothing is acknowledged"),
    ));
    assert!(!supervisor.acknowledge_committed_monitor_command_with(
        MonitorControlCommand::Stop,
        |_| Ok(()),
        || Err("not heard".to_string()),
    ));
}

#[test]
fn deferred_toggle_reloads_config_before_starting_after_settings_exit() {
    let mut supervisor = with_child();
    supervisor.gate.accessibility_trusted = true;
    supervisor.gate.desired_monitor_running = false;

    supervisor.toggle_monitor(true);
    assert!(supervisor.gate.resume_monitor_after_settings);
    expect_nothing(&mut supervisor);

    let expected = account_config();
    close_window(&mut supervisor, loaded(expected.clone(), "token-1"));

    assert_eq!(supervisor.config, expected);
    match supervisor.take_command().unwrap() {
        WorkerCommand::ApplyConfigAndReleasePause {
            settings,
            accounts,
            refresh_passwords,
            start_monitor,
            pause_epoch: _,
        } => {
            assert_eq!(settings, expected.settings);
            assert_eq!(accounts, expected.accounts);
            assert!(refresh_passwords);
            assert!(start_monitor);
        }
        other => panic!("expected ApplyConfigAndReleasePause, got {other:?}"),
    }
    expect_nothing(&mut supervisor);
    assert!(!supervisor.gate.resume_monitor_after_settings);
}

#[test]
fn newer_pause_keeps_queued_reload_from_releasing_or_starting_worker() {
    let mut supervisor = new_supervisor();
    assert!(supervisor
        .reload_config_after_settings_with_lease(loaded(AppConfig::default(), "token-1"), true));
    let pause_epoch = expect_apply(&mut supervisor, true);
    supervisor.pause_monitor_preserving_intent();

    assert_ne!(pause_epoch, supervisor.gate.latch.epoch);
    supervisor.release_pause(pause_epoch);
    assert!(supervisor.gate.latch.paused);
    let current = supervisor.gate.latch.epoch;
    supervisor.release_pause(current);
    assert!(!supervisor.gate.latch.paused);

    let mut latch = WorkerPauseLatch::new();
    let first = latch.pause_with_epoch();
    let second = latch.pause_with_epoch();
    latch.release(first);
    assert!(latch.paused);
    latch.release(second);
    assert!(!latch.paused);
}

// ---------------------------------------------------------------------------
// The announcement of a window
// ---------------------------------------------------------------------------

#[test]
fn settings_bootstrap_accepts_only_the_exact_live_spawned_child_pid() {
    let mut supervisor = with_child();

    assert!(!supervisor.acknowledge_settings_bootstrap_with(CHILD + 1, true, false, || Ok(())));
    assert!(!supervisor.window.settings_child_bootstrapped);
    assert!(!supervisor.acknowledge_settings_bootstrap_with(CHILD, true, false, || {
        Err("client disconnected before ACK".to_string())
    }));
    assert!(!supervisor.window.settings_child_bootstrapped);
    assert!(supervisor.acknowledge_settings_bootstrap_with(CHILD, true, false, || Ok(())));
    assert!(supervisor.window.settings_child_bootstrapped);
    assert!(supervisor.authorize_local_ipc_command(LocalIpcCommand::ReloadConfig, CHILD, true));
}

#[test]
fn arbitrary_activation_peer_never_bootstraps_settings() {
    let mut supervisor = new_supervisor();

    assert!(supervisor.authorize_local_ipc_command(LocalIpcCommand::Activate, CHILD, false));
    assert!(!supervisor.window.settings_child_bootstrapped);
    assert!(!supervisor.acknowledge_settings_bootstrap_with(CHILD, true, false, || Ok(())));
}

#[test]
fn exited_settings_child_handle_rejects_bootstrap_even_if_its_pid_is_reused() {
    let mut supervisor = with_child();

    assert!(!supervisor.acknowledge_settings_bootstrap_with(CHILD, false, true, || Ok(())));
    assert!(supervisor.window.settings_child.is_some());
    assert!(!supervisor.window.settings_child_bootstrapped);
    supervisor.window.settings_child_bootstrapped = true;
    assert!(!supervisor.authorize_local_ipc_command(LocalIpcCommand::ReloadConfig, CHILD, false));
}

// ---------------------------------------------------------------------------
// Opening the window
// ---------------------------------------------------------------------------

#[test]
fn repeated_request_retargets_pending_launch_without_duplicate_worker_commands() {
    let mut supervisor = new_supervisor();

    assert!(open(&mut supervisor, Tab::Settings));
    expect_stop(&mut supervisor);
    let request_id = take_quiescence_request(&mut supervisor);

    assert_eq!(
        supervisor.handle_authorized_local_ipc_command(
            NOW,
            LocalIpcCommand::Activate,
            false,
            RecoveryReload::NoLease
        ),
        IpcOutcome::Committed
    );

    let pending = supervisor.window.pending_settings_launch.unwrap();
    assert_eq!(pending.request_id, request_id);
    assert_eq!(pending.initial_tab, Tab::Accounts);
    assert_eq!(supervisor.settings_session_token, "token-0");
    assert!(supervisor.window.settings_child.is_none());
    expect_nothing(&mut supervisor);
}

#[test]
fn activate_ipc_pauses_running_monitor_before_opening_accounts() {
    let mut supervisor = new_supervisor();
    supervisor.gate.worker_status = WorkerStatus::Running;
    supervisor.gate.accessibility_trusted = true;

    assert_eq!(
        supervisor.handle_authorized_local_ipc_command(
            NOW,
            LocalIpcCommand::Activate,
            true,
            RecoveryReload::NoLease
        ),
        IpcOutcome::Committed
    );

    expect_stop(&mut supervisor);
    assert_eq!(supervisor.gate.worker_status, WorkerStatus::Running);
    assert!(supervisor.window.pending_settings_launch.is_some());
    assert!(supervisor.window.settings_child.is_none());
    complete_pending_settings_launch(&mut supervisor, Tab::Accounts);
    assert!(supervisor.gate.resume_monitor_after_settings);
    assert!(supervisor.window.settings_child.is_some());
}

#[test]
fn opening_settings_window_pauses_running_monitor_until_safe_reload() {
    let mut supervisor = new_supervisor();
    supervisor.gate.worker_status = WorkerStatus::Running;
    supervisor.gate.accessibility_trusted = true;

    assert!(open(&mut supervisor, Tab::Settings));

    expect_stop(&mut supervisor);
    assert_eq!(supervisor.gate.worker_status, WorkerStatus::Running);
    assert!(supervisor.gate.latch.paused);
    assert!(!supervisor.gate.resume_monitor_after_settings);
    assert!(supervisor.window.pending_settings_launch.is_some());
    assert!(supervisor.window.settings_child.is_none());
    assert_eq!(supervisor.settings_session_token, "token-0");
    assert_eq!(
        supervisor.poll_pending_settings_launch(NOW, QuiescenceReply::Waiting),
        LaunchStep::Nothing
    );
    assert!(supervisor.window.pending_settings_launch.is_some());
    assert_eq!(supervisor.settings_session_token, "token-0");

    complete_pending_settings_launch(&mut supervisor, Tab::Settings);
    assert_ne!(supervisor.settings_session_token, "token-0");
    assert!(supervisor.gate.resume_monitor_after_settings);
    assert!(supervisor.window.settings_child.is_some());
}

#[test]
fn opening_settings_preserves_queued_start_intent_even_when_status_is_idle() {
    let mut supervisor = new_supervisor();
    supervisor.commands.push(WorkerCommand::Start);
    supervisor.gate.accessibility_trusted = true;

    assert!(open(&mut supervisor, Tab::Settings));

    expect_start(&mut supervisor);
    expect_stop(&mut supervisor);
    complete_pending_settings_launch(&mut supervisor, Tab::Settings);
    assert!(supervisor.gate.resume_monitor_after_settings);
    assert!(supervisor.window.settings_child.is_some());
}

#[test]
fn quiescence_queue_full_keeps_settings_unauthorized_and_worker_paused() {
    let mut supervisor = supervisor_with(AppConfig::default(), 1);

    assert_eq!(
        supervisor.handle_authorized_local_ipc_command(
            NOW,
            LocalIpcCommand::Activate,
            false,
            RecoveryReload::NoLease
        ),
        IpcOutcome::Refused
    );

    expect_stop(&mut supervisor);
    assert!(supervisor.gate.latch.paused);
    assert!(supervisor.window.pending_settings_launch.is_none());
    assert!(supervisor.window.settings_child.is_none());
    assert_eq!(supervisor.settings_session_token, "token-0");
    assert_eq!(
        supervisor
            .poll_pending_settings_launch(NOW, QuiescenceReply::Acknowledged { request_id: 1 }),
        LaunchStep::Nothing
    );
}

#[test]
fn disconnected_quiescence_ack_keeps_settings_unauthorized_and_worker_paused() {
    let mut supervisor = new_supervisor();

    assert!(open(&mut supervisor, Tab::Settings));
    expect_stop(&mut supervisor);
    take_quiescence_request(&mut supervisor);
    assert_eq!(
        supervisor.poll_pending_settings_launch(NOW, QuiescenceReply::Disconnected),
        LaunchStep::Refused
    );

    assert!(supervisor.gate.latch.paused);
    assert!(supervisor.window.pending_settings_launch.is_none());
    assert!(supervisor.window.settings_child.is_none());
    assert_eq!(supervisor.settings_session_token, "token-0");
}

#[test]
fn mismatched_quiescence_ack_keeps_settings_unauthorized_and_worker_paused() {
    let mut supervisor = new_supervisor();

    assert!(open(&mut supervisor, Tab::Settings));
    expect_stop(&mut supervisor);
    let request_id = take_quiescence_request(&mut supervisor);
    assert_eq!(
        supervisor.poll_pending_settings_launch(
            NOW,
            QuiescenceReply::Acknowledged {
                request_id: request_id + 1
            }
        ),
        LaunchStep::Refused
    );

    assert!(supervisor.gate.latch.paused);
    assert!(supervisor.window.pending_settings_launch.is_none());
    assert!(supervisor.window.settings_child.is_none());
    assert_eq!(supervisor.settings_session_token, "token-0");
}

#[test]
fn timed_out_quiescence_ignores_late_ack_and_uses_a_fresh_request() {
    let mut supervisor = new_supervisor();

    assert!(open(&mut supervisor, Tab::Settings));
    expect_stop(&mut supervisor);
    let old_request_id = take_quiescence_request(&mut supervisor);
    let deadline = supervisor.window.pending_settings_launch.unwrap().deadline;
    assert_eq!(deadline, NOW + SETTINGS_QUIESCENCE_TIMEOUT_MS);
    assert_eq!(
        supervisor.poll_pending_settings_launch(deadline, QuiescenceReply::Waiting),
        LaunchStep::Refused
    );

    assert!(supervisor.gate.latch.paused);
    assert!(supervisor.window.pending_settings_launch.is_none());
    assert!(supervisor.window.settings_child.is_none());
    assert_eq!(supervisor.settings_session_token, "token-0");

    assert!(open(&mut supervisor, Tab::Settings));
    expect_stop(&mut supervisor);
    let new_request_id = take_quiescence_request(&mut supervisor);
    assert_ne!(new_request_id, old_request_id);
    assert_eq!(
        supervisor.poll_pending_settings_launch(NOW, QuiescenceReply::Waiting),
        LaunchStep::Nothing
    );
    assert!(supervisor.window.pending_settings_launch.is_some());

    assert_eq!(
        supervisor.poll_pending_settings_launch(
            NOW,
            QuiescenceReply::Acknowledged {
                request_id: new_request_id
            }
        ),
        LaunchStep::Authorize {
            initial_tab: Tab::Settings
        }
    );
    supervisor.finish_settings_spawn(CHILD);
    assert!(supervisor.window.settings_child.is_some());
}

// ---------------------------------------------------------------------------
// The stop
// ---------------------------------------------------------------------------

#[test]
fn explicit_stop_is_a_barrier_across_stale_status_and_settings_exit() {
    let mut supervisor = new_supervisor();
    supervisor.gate.accessibility_trusted = true;
    supervisor.gate.worker_status = WorkerStatus::Running;

    assert!(open(&mut supervisor, Tab::Settings));
    expect_stop(&mut supervisor);
    let request_id = take_quiescence_request(&mut supervisor);

    supervisor.stop_monitor();
    supervisor.on_worker_status(WorkerStatus::Running);

    assert!(!supervisor.gate.desired_monitor_running);
    assert!(!supervisor.gate.resume_monitor_after_settings);
    assert!(supervisor.window.pending_settings_launch.is_some());
    assert!(supervisor.window.settings_child.is_none());
    expect_stop(&mut supervisor);

    assert_eq!(
        supervisor.poll_pending_settings_launch(NOW, QuiescenceReply::Acknowledged { request_id }),
        LaunchStep::Authorize {
            initial_tab: Tab::Settings
        }
    );
    supervisor.finish_settings_spawn(CHILD);
    assert!(!supervisor.gate.resume_monitor_after_settings);
    close_window(&mut supervisor, loaded(AppConfig::default(), "token-1"));

    expect_apply(&mut supervisor, false);
    expect_nothing(&mut supervisor);
    assert!(!supervisor.gate.desired_monitor_running);
}

#[test]
fn stop_ipc_is_committed_before_immediately_exited_settings_child_is_reaped() {
    let mut supervisor = with_child();
    supervisor.gate.accessibility_trusted = true;
    supervisor.gate.worker_status = WorkerStatus::Running;
    supervisor.gate.resume_monitor_after_settings = true;

    assert_eq!(
        supervisor.handle_authorized_local_ipc_command(
            NOW,
            LocalIpcCommand::Monitor(MonitorControlCommand::Stop),
            true,
            RecoveryReload::NoLease
        ),
        IpcOutcome::Committed
    );

    assert!(!supervisor.gate.desired_monitor_running);
    assert!(!supervisor.gate.resume_monitor_after_settings);
    assert!(supervisor.gate.latch.paused);
    expect_stop(&mut supervisor);

    close_window(&mut supervisor, loaded(AppConfig::default(), "token-1"));

    assert!(supervisor.window.settings_child.is_none());
    assert!(!supervisor.gate.desired_monitor_running);
    assert!(!supervisor.gate.resume_monitor_after_settings);
    expect_apply(&mut supervisor, false);
    expect_nothing(&mut supervisor);
}

#[test]
fn monitor_ipc_is_not_acknowledged_when_control_state_publish_fails() {
    let mut supervisor = new_supervisor();
    supervisor.gate.worker_status = WorkerStatus::Running;
    let published_state = Cell::new(None);
    let acknowledged = Cell::new(false);

    let committed_and_acknowledged = supervisor.acknowledge_monitor_control_command_with(
        MonitorControlCommand::Stop,
        false,
        RecoveryReload::NoLease,
        |state| {
            published_state.set(Some(state));
            Err("synthetic monitor status publication failure".to_string())
        },
        || {
            acknowledged.set(true);
            Ok(())
        },
    );

    assert!(!committed_and_acknowledged);
    assert_eq!(published_state.get(), Some(MonitorControlState::Stopped));
    assert!(!acknowledged.get());
    assert!(!supervisor.gate.desired_monitor_running);
    expect_stop(&mut supervisor);
}

#[test]
fn monitor_start_ipc_blocked_by_recovery_is_neither_published_nor_acknowledged() {
    let mut supervisor = new_supervisor();
    supervisor.gate.storage_recovery_sticky_blocked = true;
    supervisor.gate.desired_monitor_running = false;
    let publish_count = Cell::new(0);
    let acknowledge_count = Cell::new(0);

    assert!(!supervisor.acknowledge_monitor_control_command_with(
        MonitorControlCommand::Start,
        true,
        RecoveryReload::NoLease,
        |_| {
            publish_count.set(publish_count.get() + 1);
            Ok(())
        },
        || {
            acknowledge_count.set(acknowledge_count.get() + 1);
            Ok(())
        },
    ));
    assert_eq!(publish_count.get(), 0);
    assert_eq!(acknowledge_count.get(), 0);
    assert!(!supervisor.gate.desired_monitor_running);
}

#[test]
fn storage_block_ipc_is_sticky_after_immediately_exited_settings_child_is_reaped() {
    let mut supervisor = with_child();
    supervisor.gate.accessibility_trusted = true;
    supervisor.gate.worker_status = WorkerStatus::Running;
    supervisor.gate.resume_monitor_after_settings = true;

    assert_eq!(
        supervisor.handle_authorized_local_ipc_command(
            NOW,
            LocalIpcCommand::Monitor(MonitorControlCommand::StorageRecoveryBlocked),
            true,
            RecoveryReload::NoLease
        ),
        IpcOutcome::Committed
    );

    assert!(!supervisor.gate.storage_recovery_ready);
    assert!(supervisor.gate.storage_recovery_sticky_blocked);
    assert!(!supervisor.gate.desired_monitor_running);
    assert!(!supervisor.gate.resume_monitor_after_settings);
    assert!(supervisor.gate.latch.paused);
    expect_stop(&mut supervisor);

    supervisor.poll_settings_window_with_loader(NOW, ChildStatus::Exited, false, |need| {
        token_only(
            need,
            "token-1",
            "a process-sticky storage block must not run recovery after child exit",
        )
    });

    assert!(supervisor.window.settings_child.is_none());
    assert_eq!(supervisor.config, AppConfig::default());
    assert_eq!(supervisor.settings_session_token, "token-1");
    assert!(!supervisor.gate.storage_recovery_ready);
    assert!(supervisor.gate.storage_recovery_sticky_blocked);
    assert!(!supervisor.gate.desired_monitor_running);
    assert!(!supervisor.gate.resume_monitor_after_settings);
    assert!(supervisor.gate.latch.paused);
    expect_nothing(&mut supervisor);
}

#[test]
fn sticky_storage_recovery_block_rejects_retry_and_every_start() {
    let mut supervisor = new_supervisor();
    supervisor.gate.accessibility_trusted = true;
    supervisor.gate.worker_status = WorkerStatus::Running;

    supervisor.block_storage_recovery_until_restart();

    assert!(supervisor.gate.storage_recovery_sticky_blocked);
    assert!(!supervisor.gate.storage_recovery_ready);
    assert!(!supervisor.gate.desired_monitor_running);
    assert!(supervisor.gate.latch.paused);
    expect_stop(&mut supervisor);

    supervisor.start_monitor_if_ready(true);
    assert!(
        !supervisor.reload_config_after_settings_with_loader(|need| token_only(
            need,
            "token-1",
            "sticky recovery must not be retried in the same supervisor",
        ))
    );
    assert!(!supervisor.storage_recovery_retry_due(NOW + 10_000));
    assert!(!supervisor.retry_blocked_storage_recovery(
        NOW + 10_000,
        true,
        loaded(AppConfig::default(), "token-2")
    ));

    expect_nothing(&mut supervisor);
    assert!(supervisor.gate.latch.paused);
    assert!(!supervisor.gate.desired_monitor_running);
    let started_blocked = new_supervisor().with_storage_recovery_sticky_blocked(true);
    assert!(started_blocked.gate.latch.paused);
    assert!(!started_blocked.gate.storage_recovery_ready);
}

// ---------------------------------------------------------------------------
// Accessibility
// ---------------------------------------------------------------------------

#[test]
fn accessibility_grant_starts_idle_monitor_or_defers_until_settings_close() {
    for settings_child_open in [false, true] {
        let mut supervisor = new_supervisor();
        if settings_child_open {
            supervisor.finish_settings_spawn(CHILD);
        }

        supervisor.apply_accessibility_trust_state(true);

        assert!(supervisor.gate.accessibility_trusted);
        if settings_child_open {
            assert!(supervisor.gate.resume_monitor_after_settings);
            expect_nothing(&mut supervisor);
        } else {
            assert!(!supervisor.gate.resume_monitor_after_settings);
            expect_start(&mut supervisor);
        }
    }
}

#[test]
fn accessibility_start_check_updates_trust_without_implicit_start() {
    let mut supervisor = new_supervisor();

    supervisor.apply_accessibility_trust_state_with_grant_start(true, false);

    assert!(supervisor.gate.accessibility_trusted);
    expect_nothing(&mut supervisor);
}

#[test]
fn accessibility_loss_stops_running_monitor() {
    let mut supervisor = new_supervisor();
    supervisor.gate.accessibility_trusted = true;
    supervisor.gate.worker_status = WorkerStatus::Running;

    supervisor.poll_accessibility(NOW + 999, false);
    assert!(supervisor.gate.accessibility_trusted);
    supervisor.poll_accessibility(NOW + 1_000, false);

    assert!(!supervisor.gate.accessibility_trusted);
    assert!(supervisor.gate.desired_monitor_running);
    expect_stop(&mut supervisor);
}

// ---------------------------------------------------------------------------
// The exit
// ---------------------------------------------------------------------------

#[test]
fn exit_request_marks_active_mutation_recovery_before_shutdown() {
    let mut supervisor = with_child();
    supervisor.gate.worker_status = WorkerStatus::Running;
    supervisor.gate.resume_monitor_after_settings = true;
    supervisor.window.settings_mutation_active = true;

    assert_eq!(request_exit(&mut supervisor), ExitStep::AskChild);

    assert!(supervisor.life.exit_requested);
    assert!(supervisor.window.settings_child.is_some());
    assert!(supervisor.window.settings_mutation_active);
    assert!(!supervisor.gate.resume_monitor_after_settings);
    expect_nothing(&mut supervisor);

    close_window(&mut supervisor, loaded(AppConfig::default(), "token-1"));
    assert!(supervisor.window.settings_child.is_none());
    assert!(supervisor.gate.storage_recovery_sticky_blocked);
    assert!(!supervisor.gate.storage_recovery_ready);

    assert_eq!(request_exit(&mut supervisor), ExitStep::PublishStopped);
    assert_eq!(request_exit(&mut supervisor), ExitStep::Finished);
    expect_stop(&mut supervisor);
    expect_nothing(&mut supervisor);
}

#[test]
fn settings_exit_timeout_forces_fail_closed_shutdown_for_active_mutation() {
    let mut supervisor = with_child();
    supervisor.window.settings_mutation_active = true;

    assert_eq!(request_exit(&mut supervisor), ExitStep::AskChild);
    expect_nothing(&mut supervisor);
    let deadline = supervisor.life.settings_child_exit_deadline.unwrap();
    assert_eq!(deadline, NOW + FULL_UI_GRACEFUL_EXIT_TIMEOUT_MS);
    assert!(!supervisor.forced_settings_exit_due(deadline - 1));
    assert!(supervisor.forced_settings_exit_due(deadline));

    assert_eq!(
        supervisor.poll_exit_request(deadline, true, Some("token-1".to_string())),
        ExitStep::PublishStopped
    );

    assert!(supervisor.window.settings_child.is_none());
    assert!(supervisor.gate.storage_recovery_sticky_blocked);
    assert!(!supervisor.window.settings_mutation_active);
    assert_eq!(supervisor.settings_session_token, "token-1");
    expect_stop(&mut supervisor);
    expect_nothing(&mut supervisor);
}

#[test]
fn a_window_that_does_not_end_keeps_its_lease() {
    let mut supervisor = with_child();
    supervisor.window.settings_mutation_active = true;
    assert_eq!(
        supervisor.poll_exit_request(NOW, false, None),
        ExitStep::NotRequested
    );
    request_exit(&mut supervisor);
    let deadline = supervisor.life.settings_child_exit_deadline.unwrap();
    assert_eq!(
        supervisor.poll_exit_request(deadline, false, None),
        ExitStep::WaitForChild
    );
    assert!(supervisor.window.settings_session_lease);
    assert_eq!(supervisor.window.settings_child, Some(CHILD));
    assert!(supervisor.gate.storage_recovery_sticky_blocked);
    assert_eq!(
        supervisor.life.settings_child_exit_deadline,
        Some(deadline + 5_000)
    );
}

#[test]
fn exit_request_publishes_idle_status_before_worker_ack() {
    let mut supervisor = new_supervisor();
    supervisor.gate.worker_status = WorkerStatus::Running;

    assert_eq!(request_exit(&mut supervisor), ExitStep::PublishStopped);

    assert_eq!(supervisor.gate.worker_status, WorkerStatus::Idle);
    expect_stop(&mut supervisor);
}

// ---------------------------------------------------------------------------
// The toggle
// ---------------------------------------------------------------------------

#[test]
fn explicit_toggle_starts_when_accessibility_is_trusted() {
    let mut supervisor = new_supervisor();
    supervisor.gate.accessibility_trusted = true;
    supervisor.gate.desired_monitor_running = false;

    supervisor.toggle_monitor(true);
    expect_start(&mut supervisor);
}

#[test]
fn stopping_an_idle_deferred_monitor_updates_control_state_without_worker_event() {
    let mut supervisor = new_supervisor();
    supervisor.gate.resume_monitor_after_settings = true;
    assert_eq!(
        supervisor.monitor_control_state(),
        MonitorControlState::PausedWithStartIntent
    );

    supervisor.stop_monitor();

    assert_eq!(
        supervisor.monitor_control_state(),
        MonitorControlState::Stopped
    );
    assert_eq!(
        supervisor.gate.published,
        Some(MonitorControlState::Stopped)
    );
    assert!(!supervisor.gate.resume_monitor_after_settings);
    expect_stop(&mut supervisor);
    expect_nothing(&mut supervisor);
}

#[test]
fn monitor_start_ipc_from_settings_child_defers_reload_and_start_until_close() {
    let mut supervisor = with_child();
    supervisor.gate.accessibility_trusted = true;
    supervisor.gate.resume_monitor_after_settings = true;

    assert!(supervisor.start_monitor_from_control_command(true));

    assert_eq!(supervisor.config, AppConfig::default());
    expect_nothing(&mut supervisor);
    assert!(supervisor.gate.resume_monitor_after_settings);
    assert_eq!(
        supervisor.monitor_control_state(),
        MonitorControlState::PausedWithStartIntent
    );
    assert!(supervisor.window.settings_child.is_some());
}

#[test]
fn monitor_commands_are_ignored_during_the_exit() {
    let mut supervisor = with_child();
    request_exit(&mut supervisor);
    assert!(!supervisor.process_monitor_command(
        MonitorControlCommand::Start,
        true,
        RecoveryReload::NoLease
    ));
    assert!(!supervisor.process_monitor_command(
        MonitorControlCommand::Stop,
        true,
        RecoveryReload::NoLease
    ));
    assert_eq!(
        supervisor.handle_authorized_local_ipc_command(
            NOW,
            LocalIpcCommand::Activate,
            true,
            RecoveryReload::NoLease
        ),
        IpcOutcome::Refused
    );
    assert!(supervisor.process_monitor_command(
        MonitorControlCommand::ReloadConfig,
        true,
        RecoveryReload::NoLease
    ));
    assert!(!supervisor.gate.desired_monitor_running);
    expect_nothing(&mut supervisor);
}

// ---------------------------------------------------------------------------
// Routes
// ---------------------------------------------------------------------------

#[test]
fn commands_are_routed_by_their_sender() {
    let mut supervisor = with_child();
    let monitor = LocalIpcCommand::Monitor(MonitorControlCommand::Stop);
    assert_eq!(
        supervisor.route_local_ipc_command(LocalIpcCommand::SettingsBootstrap, 7, false),
        IpcRoute::Bootstrap
    );
    assert_eq!(
        supervisor.route_local_ipc_command(LocalIpcCommand::Activate, 7, false),
        IpcRoute::Handle
    );
    assert_eq!(
        supervisor.route_local_ipc_command(monitor, CHILD, true),
        IpcRoute::Unauthorized
    );
    supervisor.window.settings_child_bootstrapped = true;
    assert_eq!(
        supervisor.route_local_ipc_command(monitor, CHILD, true),
        IpcRoute::Monitor(MonitorControlCommand::Stop)
    );
    assert_eq!(
        supervisor.route_local_ipc_command(LocalIpcCommand::ReloadConfig, CHILD, true),
        IpcRoute::Commit
    );
    assert_eq!(
        supervisor.route_local_ipc_command(LocalIpcCommand::ReloadConfig, CHILD, false),
        IpcRoute::Unauthorized
    );
    assert_eq!(
        supervisor.route_local_ipc_command(LocalIpcCommand::SettingsMutationBegin, CHILD, true),
        IpcRoute::Handle
    );
}

#[test]
fn a_session_that_cannot_look_at_the_storage_waits() {
    let waiting = LightweightSupervisor::for_session(
        session_startup(None),
        "token-0".to_string(),
        8,
        true,
        NOW,
    );
    assert!(waiting.gate.latch.paused);
    assert!(waiting.gate.resume_monitor_after_settings);
    assert!(!waiting.gate.storage_recovery_sticky_blocked);
    assert!(waiting.life.startup_window_preference_pending);
    assert!(waiting.commands.is_empty());

    let blocked = LightweightSupervisor::for_session(
        session_startup(Some(StartupConfigLoad {
            startup: blocked_startup_config(),
            window_preference_known: true,
        })),
        "token-0".to_string(),
        8,
        true,
        NOW,
    );
    assert!(blocked.gate.storage_recovery_sticky_blocked);
    assert!(!blocked.gate.resume_monitor_after_settings);

    let mut config = AppConfig::default();
    config.settings.start_minimized = true;
    let mut ready = LightweightSupervisor::for_session(
        session_startup(Some(StartupConfigLoad {
            startup: clean(config),
            window_preference_known: true,
        })),
        "token-0".to_string(),
        8,
        true,
        NOW,
    );
    assert!(!ready.gate.latch.paused);
    expect_start(&mut ready);
}

#[test]
fn a_child_is_asked_before_it_is_killed() {
    let mut run = ChildExitRun::terminate_child_process();
    assert_eq!(run.action(), ChildExitAction::RequestTermination);
    run.on_requested(0);
    assert_eq!(run.action(), ChildExitAction::CheckChild);
    run.on_checked(false, 499);
    assert_eq!(run.action(), ChildExitAction::Sleep { ms: 25 });
    run.on_elapsed();
    run.on_checked(false, 500);
    assert_eq!(run.action(), ChildExitAction::Kill);
    let mut refused = run;
    refused.on_killed(false, 500);
    assert_eq!(refused.action(), ChildExitAction::Finish(false));
    run.on_killed(true, 500);
    run.on_checked(false, 900);
    run.on_elapsed();
    let mut stuck = run;
    stuck.on_checked(false, 1_000);
    assert_eq!(stuck.action(), ChildExitAction::Finish(false));
    run.on_checked(true, 925);
    assert_eq!(run.action(), ChildExitAction::Finish(true));
}
