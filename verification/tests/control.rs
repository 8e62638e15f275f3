use std::cell::{Cell, RefCell};
use windows_app_autologin::control::{
    fill_result_label, full_ui_command, full_ui_control_message, full_ui_exit_message,
    initial_full_ui_tab, initial_tab_arg, local_ipc_command_authorized,
    parse_full_ui_control_line, windows_full_ui_args_are_valid,
    windows_full_ui_initial_tab_arg_is_valid, ControlLineReader, FillAttemptReport,
    FullUiControlRead, LocalIpcCommand, MonitorControlCommand, MonitorControlState, Platform,
    DIAGNOSTICS_TAB_UNAVAILABLE, FULL_UI_CONTROL_MAX_LINE_BYTES, LEGACY_IPC_TOKEN_ENV,
    LEGACY_MONITOR_CONTROL_TOKEN_ENV,
};
use windows_app_autologin::models::{Account, AppConfig, Tab, WorkerStatus};
use windows_app_autologin::startup::{
    acquire_authorized_settings_session_with, blocked_startup_config, load_full_ui_config,
    publish_initial_monitor_status, session_startup, sync_startup_auto_start_with, RecoveryAction,
    RecoveryRun, StartupConfig, StartupConfigLoad,
};

fn report(success: bool, fields: &[(&str, &str)], failure: Option<&str>) -> FillAttemptReport {
    FillAttemptReport {
        fields: fields
            .iter()
            .map(|(key, value)| ((*key).to_string(), (*value).to_string()))
            .collect(),
        success,
        failure_reason: failure.map(str::to_string),
    }
}

#[test]
fn fill_result_label_maps_report_state_for_menu_display() {
    for (success, fields, failure, expected) in [
        (
            true,
            &[("post_check_state", "authenticated")][..],
            None,
            "authenticated",
        ),
        (
            false,
            &[("post_check_state", "prompt_mismatch")][..],
            None,
            "prompt mismatch",
        ),
        (
            false,
            &[("post_check_state", "still_prompt")][..],
            None,
            "still prompt",
        ),
        (
            true,
            &[("post_check_state", "prompt_gone_unknown")][..],
            None,
            "prompt gone",
        ),
        (true, &[][..], Some("ignored"), "submitted"),
        (false, &[][..], Some(""), "failed"),
        (false, &[][..], None, "failed"),
        (false, &[][..], Some("no prompt"), "no prompt"),
    ] {
        assert_eq!(
            fill_result_label(&report(success, fields, failure)),
            expected
        );
    }

    let long_failure = report(
        false,
        &[("post_check_state", "unknown")],
        Some("very_long_failure_reason_that_should_not_expand_the_status_menu_forever"),
    );
    assert!(fill_result_label(&long_failure).len() <= 48);
    assert_eq!(
        fill_result_label(&long_failure),
        "very_long_failure_reason_that_should_not_expand_"
    );
}

#[test]
fn blocked_startup_does_not_autosave_in_memory_defaults() {
    let mut startup = blocked_startup_config();

    let save = sync_startup_auto_start_with(&mut startup, true);

    assert!(!save);
    assert!(!startup.config.settings.auto_start);
    assert!(!startup.storage_recovery_ready);
}

#[test]
fn config_load_failure_keeps_startup_window_preference_unknown() {
    let mut run = RecoveryRun::load_config_with_storage_recovery(false);
    assert_eq!(run.action(), RecoveryAction::LoadConfig);
    run.on_loaded(None);
    assert_eq!(run.action(), RecoveryAction::Finished);
    let startup_load = run.finish();

    assert!(!startup_load.window_preference_known);
    assert!(!startup_load.startup.storage_recovery_ready);
    assert!(!startup_load.startup.config.settings.start_minimized);
}

#[test]
fn verified_startup_reconciles_and_persists_auto_start() {
    let mut startup = StartupConfig {
        config: AppConfig::default(),
        storage_recovery_ready: true,
    };

    assert!(sync_startup_auto_start_with(&mut startup, true));
    assert!(startup.config.settings.auto_start);
    assert!(!sync_startup_auto_start_with(&mut startup, true));
}

fn recovered(clear_startup_block: bool) -> RecoveryRun {
    let mut config = AppConfig::default();
    config.settings.start_minimized = true;
    let mut run = RecoveryRun::load_config_with_storage_recovery(clear_startup_block);
    run.on_loaded(Some(AppConfig::default()));
    assert_eq!(run.action(), RecoveryAction::ReconcilePending);
    run.on_reconciled(config, true);
    assert_eq!(run.action(), RecoveryAction::ReadJournals);
    run.on_journals(Some(true));
    assert_eq!(run.action(), RecoveryAction::ReconcileStaged);
    run
}

#[test]
fn startup_staged_recovery_failure_preserves_the_durable_block() {
    let mut run = recovered(true);
    run.on_staged(false);
    assert_eq!(run.action(), RecoveryAction::Finished);
    let load = run.finish();
    assert!(!load.startup.storage_recovery_ready);
    assert!(load.window_preference_known);
    assert!(load.startup.config.settings.start_minimized);
}

#[test]
fn the_block_is_cleared_last_and_checked_again() {
    let mut run = recovered(true);
    run.on_staged(true);
    assert_eq!(run.action(), RecoveryAction::ClearBlock);
    run.on_cleared(true);
    assert_eq!(run.action(), RecoveryAction::ReadBlock);
    run.on_block(Some(true));
    assert!(run.finish().startup.storage_recovery_ready);

    let mut still_there = recovered(true);
    still_there.on_staged(true);
    still_there.on_cleared(true);
    still_there.on_block(Some(false));
    assert!(!still_there.finish().startup.storage_recovery_ready);

    let mut later = recovered(false);
    later.on_staged(true);
    assert_eq!(later.action(), RecoveryAction::ReadBlock);
    later.on_block(Some(true));
    assert_eq!(later.action(), RecoveryAction::ReadBlock);
    later.on_block(Some(true));
    assert!(later.finish().startup.storage_recovery_ready);

    let mut journals = RecoveryRun::load_config_with_storage_recovery(true);
    journals.on_loaded(Some(AppConfig::default()));
    journals.on_reconciled(AppConfig::default(), true);
    journals.on_journals(None);
    assert_eq!(journals.action(), RecoveryAction::Finished);
    assert!(!journals.finish().startup.storage_recovery_ready);

    let mut pending = RecoveryRun::load_config_with_storage_recovery(true);
    pending.on_loaded(Some(AppConfig::default()));
    pending.on_reconciled(AppConfig::default(), false);
    assert_eq!(pending.action(), RecoveryAction::Finished);
    assert!(!pending.finish().startup.storage_recovery_ready);
}

#[test]
fn full_ui_config_is_ready_only_when_everything_is_clear() {
    let ready = load_full_ui_config(Some(AppConfig::default()), true, Some(true), Some(true));
    assert!(ready.storage_recovery_ready);
    assert!(ready.config.settings.auto_start);
    for (journals, block) in [
        (Some(true), Some(false)),
        (Some(false), Some(true)),
        (None, Some(true)),
        (Some(true), None),
    ] {
        let startup = load_full_ui_config(Some(AppConfig::default()), false, journals, block);
        assert!(!startup.storage_recovery_ready);
    }
    let blocked = load_full_ui_config(None, true, Some(true), Some(true));
    assert!(!blocked.storage_recovery_ready);
    assert!(!blocked.config.settings.auto_start);
}

#[test]
fn a_failed_recovery_blocks_until_restart_but_a_busy_one_does_not() {
    let failed = session_startup(Some(StartupConfigLoad {
        startup: blocked_startup_config(),
        window_preference_known: true,
    }));
    assert!(failed.sticky_blocked);
    assert!(failed.window_preference_known);
    let busy = session_startup(None);
    assert!(!busy.sticky_blocked);
    assert!(!busy.window_preference_known);
    assert!(!busy.startup.storage_recovery_ready);
}

#[test]
fn full_ui_command_includes_full_ui_args() {
    let command = full_ui_command(Platform::Other, Tab::Accounts, None);

    assert_eq!(
        command.args,
        vec![
            "--full-ui".to_string(),
            initial_tab_arg(Tab::Accounts).to_string()
        ]
    );
    assert_eq!(command.session_token, None);
    assert_eq!(command.removed_variable, None);
    let macos = full_ui_command(Platform::Macos, Tab::Settings, Some("token"));
    assert_eq!(macos.session_token.as_deref(), Some("token"));
    assert_eq!(macos.removed_variable, Some(LEGACY_IPC_TOKEN_ENV));
}

#[test]
fn full_ui_command_removes_legacy_monitor_control_token_env() {
    let command = full_ui_command(Platform::Windows, Tab::Settings, None);
    assert_eq!(
        command.removed_variable,
        Some(LEGACY_MONITOR_CONTROL_TOKEN_ENV)
    );
}

#[test]
fn windows_full_ui_helper_accepts_only_the_bounded_supervisor_arguments() {
    for diagnostics_ui in [false, true] {
        assert!(windows_full_ui_initial_tab_arg_is_valid(
            "--initial-tab=accounts",
            diagnostics_ui
        ));
        assert!(windows_full_ui_initial_tab_arg_is_valid(
            "--initial-tab=settings",
            diagnostics_ui
        ));
        assert_eq!(
            windows_full_ui_initial_tab_arg_is_valid("--initial-tab=diagnose", diagnostics_ui),
            diagnostics_ui
        );
        for rejected in [
            "--accounts",
            "--settings",
            "--full-ui",
            "--debug-fill-once",
            "--initial-tab=unknown",
            "--initial-tab=settings --extra",
        ] {
            assert!(
                !windows_full_ui_initial_tab_arg_is_valid(rejected, diagnostics_ui),
                "{rejected}"
            );
        }
    }
}

#[test]
fn windows_helper_split_is_feature_gated_and_fails_closed_off_windows() {
    let args = |list: &[&str]| list.iter().map(|arg| arg.to_string()).collect::<Vec<_>>();
    for diagnostics_ui in [false, true] {
        for tab in [Tab::Accounts, Tab::Settings, Tab::Diagnose] {
            assert_eq!(
                windows_full_ui_args_are_valid(
                    &full_ui_command(Platform::Windows, tab, None).args,
                    diagnostics_ui
                ),
                tab != Tab::Diagnose || diagnostics_ui
            );
        }
        for rejected in [
            &[][..],
            &["--full-ui"],
            &["--initial-tab=settings", "--full-ui"],
            &["--full-ui", "--settings"],
            &["--full-ui", "--initial-tab=settings", "--extra"],
        ] {
            assert!(!windows_full_ui_args_are_valid(
                &args(rejected),
                diagnostics_ui
            ));
        }
    }
}

#[test]
fn the_first_named_tab_opens() {
    let args = |list: &[&str]| list.iter().map(|arg| arg.to_string()).collect::<Vec<_>>();
    for diagnostics_ui in [false, true] {
        assert_eq!(
            initial_full_ui_tab(&args(&["--full-ui"]), diagnostics_ui),
            Tab::Settings
        );
        assert_eq!(
            initial_full_ui_tab(&args(&["x", "--accounts", "--settings"]), diagnostics_ui),
            Tab::Accounts
        );
    }
    for tab in [Tab::Accounts, Tab::Settings, Tab::Diagnose] {
        assert_eq!(
            initial_full_ui_tab(&full_ui_command(Platform::Other, tab, None).args, true),
            tab
        );
    }
}

#[test]
fn a_program_without_the_diagnostics_page_passes_over_its_name() {
    let args = |list: &[&str]| list.iter().map(|arg| arg.to_string()).collect::<Vec<_>>();
    for named in ["--diagnose", "--initial-tab=diagnose"] {
        assert_eq!(
            initial_full_ui_tab(&args(&[named, "--accounts"]), false),
            Tab::Accounts
        );
        assert_eq!(
            initial_full_ui_tab(&args(&[named, "--accounts"]), true),
            Tab::Diagnose
        );
        assert_eq!(initial_full_ui_tab(&args(&[named]), false), Tab::Settings);
    }
}

fn read_next(reader: &mut ControlLineReader, input: &mut &[u8], size: usize) -> FullUiControlRead {
    loop {
        let piece = &input[..input.len().min(size)];
        let step = reader.read_full_ui_control_command(piece);
        *input = &input[step.consumed..];
        if let Some(read) = step.read {
            return read;
        }
    }
}

#[test]
fn full_ui_control_protocol_is_bounded_and_cross_platform() {
    assert_eq!(
        full_ui_control_message(Tab::Accounts).unwrap(),
        b"show:accounts\n"
    );
    assert_eq!(
        full_ui_control_message(Tab::Settings).unwrap(),
        b"show:settings\n"
    );
    assert_eq!(
        full_ui_control_message(Tab::Diagnose).unwrap_err(),
        DIAGNOSTICS_TAB_UNAVAILABLE
    );

    let mut input: &[u8] = b"show:accounts\nshow:settings\r\nexit\nunknown\n";
    let mut reader = ControlLineReader::new();
    assert_eq!(
        read_next(&mut reader, &mut input, 3),
        FullUiControlRead::Show(Tab::Accounts)
    );
    assert_eq!(
        read_next(&mut reader, &mut input, 3),
        FullUiControlRead::Show(Tab::Settings)
    );
    assert_eq!(read_next(&mut reader, &mut input, 3), FullUiControlRead::Exit);
    assert_eq!(
        read_next(&mut reader, &mut input, 3),
        FullUiControlRead::Invalid
    );
    assert_eq!(
        read_next(&mut reader, &mut input, 3),
        FullUiControlRead::EndOfStream
    );

    let overlong = format!(
        "{}\nshow:accounts\n",
        "x".repeat(FULL_UI_CONTROL_MAX_LINE_BYTES + 1)
    );
    let mut input = overlong.as_bytes();
    let mut reader = ControlLineReader::new();
    assert_eq!(
        read_next(&mut reader, &mut input, 5),
        FullUiControlRead::Invalid
    );
    assert_eq!(
        read_next(&mut reader, &mut input, 5),
        FullUiControlRead::Show(Tab::Accounts)
    );

    let mut unfinished: &[u8] = b"exit";
    let mut reader = ControlLineReader::new();
    assert_eq!(
        read_next(&mut reader, &mut unfinished, 2),
        FullUiControlRead::Exit
    );
    assert_eq!(full_ui_exit_message(), b"exit\n");
    assert_eq!(
        parse_full_ui_control_line(b"exit\r"),
        FullUiControlRead::Exit
    );
    assert_eq!(
        parse_full_ui_control_line(b"exit\r\r"),
        FullUiControlRead::Invalid
    );
}

#[test]
fn copied_settings_token_cannot_reach_lease_or_ui_without_bootstrap_ack() {
    let events = RefCell::new(Vec::new());
    let result = acquire_authorized_settings_session_with(
        || {
            events.borrow_mut().push("token");
            Ok("copied-bearer-token")
        },
        || {
            events.borrow_mut().push("bootstrap-denied");
            Err("supervisor did not acknowledge this PID".to_string())
        },
        |_| {
            events.borrow_mut().push("lease");
            Ok(())
        },
    );

    assert!(result.is_err());
    assert_eq!(events.into_inner(), vec!["bootstrap-denied"]);
}

#[test]
fn full_ui_bootstrap_precedes_settings_lease_and_all_ui_initialization() {
    let events = RefCell::new(Vec::new());
    acquire_authorized_settings_session_with(
        || {
            events.borrow_mut().push("token");
            Ok("session-token")
        },
        || {
            events.borrow_mut().push("bootstrap-ack");
            Ok(())
        },
        |_| {
            events.borrow_mut().push("lease");
            Ok(())
        },
    )
    .unwrap();
    events.borrow_mut().push("ui");
    assert_eq!(
        events.into_inner(),
        vec!["bootstrap-ack", "token", "lease", "ui"]
    );
}

#[test]
fn launch_init_publishes_idle_status_before_worker_ack() {
    let mut published_statuses = Vec::new();

    let _ = publish_initial_monitor_status(|running| {
        published_statuses.push(running);
        Ok(())
    });

    assert_eq!(published_statuses, vec![false]);
}

#[test]
fn local_ipc_authorization_requires_bootstrapped_settings_child_for_privileged_commands() {
    assert!(local_ipc_command_authorized(
        LocalIpcCommand::Activate,
        42,
        None,
        false,
    ));
    assert!(!local_ipc_command_authorized(
        LocalIpcCommand::ReloadConfig,
        42,
        None,
        true,
    ));
    assert!(!local_ipc_command_authorized(
        LocalIpcCommand::Monitor(MonitorControlCommand::Start),
        42,
        Some(7),
        true,
    ));
    assert!(!local_ipc_command_authorized(
        LocalIpcCommand::Monitor(MonitorControlCommand::Stop),
        42,
        Some(42),
        false,
    ));
    assert!(local_ipc_command_authorized(
        LocalIpcCommand::Monitor(MonitorControlCommand::Stop),
        42,
        Some(42),
        true,
    ));
    assert!(local_ipc_command_authorized(
        LocalIpcCommand::Monitor(MonitorControlCommand::StorageRecoveryBlocked),
        42,
        Some(42),
        true,
    ));
    assert!(!local_ipc_command_authorized(
        LocalIpcCommand::Monitor(MonitorControlCommand::StorageRecoveryBlocked),
        7,
        Some(42),
        true,
    ));
}

#[test]
fn tray_label_and_toggle_share_one_monitor_control_state() {
    assert_eq!(
        MonitorControlState::from_worker_and_intent(WorkerStatus::Running, false),
        MonitorControlState::Stopped
    );
    assert!(MonitorControlState::Running.toggle_requests_stop());
    assert_eq!(MonitorControlState::Running.toggle_label(), "Stop Monitor");

    assert_eq!(
        MonitorControlState::from_worker_and_intent(WorkerStatus::Idle, true),
        MonitorControlState::PausedWithStartIntent
    );
    assert!(MonitorControlState::PausedWithStartIntent.toggle_requests_stop());
    assert_eq!(
        MonitorControlState::PausedWithStartIntent.toggle_label(),
        "Stop Monitor"
    );

    assert_eq!(
        MonitorControlState::from_worker_and_intent(WorkerStatus::Idle, false),
        MonitorControlState::Stopped
    );
    assert!(!MonitorControlState::Stopped.toggle_requests_stop());
    assert_eq!(MonitorControlState::Stopped.toggle_label(), "Start Monitor");
}

#[test]
fn accounts_have_names_and_ids_of_their_own() {
    let first = Account::new("  user@example.com ".to_string());
    let second = Account::new("   ".to_string());
    assert_eq!(first.display_name(), "user@example.com");
    assert_eq!(second.display_name(), "Untitled account");
    assert_ne!(first.id, second.id);
    assert_eq!(first.id.len(), 36);
    assert_eq!(&first.id[14..15], "4");
    assert!(first.enabled);
    assert!(!first.has_saved_password);
    let seen = Cell::new(0);
    seen.set(AppConfig::default().settings.poll_interval_secs);
    assert_eq!(seen.get(), 1);
}
