use windows_app_autologin::private_permissions::{
    path_has_macos_acl, reject_windows_reparse_attributes, terminated_path,
    validate_windows_private_path, windows_private_owner_sid_is_current_user,
    windows_private_sddl, AclQuery, PrivatePathError, WindowsPrivatePathKind,
};
use windows_app_autologin::reconnect::{
    click_reconnect_result, close_dialogs_result, open_result, run_command_with_timeout,
    script_targets, CommandOutput, CommandStep, ReconnectAction, ReconnectRun,
};

fn output(success: bool, stdout: &[u8], stderr: &[u8]) -> CommandOutput {
    CommandOutput {
        success,
        stdout: stdout.to_vec(),
        stderr: stderr.to_vec(),
    }
}

#[test]
fn windows_private_owner_sid_must_be_current_user() {
    let current = [1, 5, 0, 0, 0, 0, 0, 5, 21, 0, 0, 0];
    assert!(windows_private_owner_sid_is_current_user(&current, &current));

    let world = [1, 1, 0, 0, 0, 0, 0, 1, 0, 0, 0, 0];
    assert!(!windows_private_owner_sid_is_current_user(&world, &current));
    assert!(!windows_private_owner_sid_is_current_user(&[], &[]));
}

#[test]
fn a_command_is_killed_at_its_deadline() {
    assert_eq!(
        run_command_with_timeout(true, 0, 1_000, 5_000),
        CommandStep::Collect
    );
    assert_eq!(
        run_command_with_timeout(false, 0, 1_000, 1_000),
        CommandStep::Kill
    );
    assert!(matches!(
        run_command_with_timeout(false, 0, 1_000, 999),
        CommandStep::Sleep(_)
    ));
}

#[test]
fn private_paths_are_checked() {
    const REPARSE: u32 = 0x400;
    const DIRECTORY: u32 = 0x10;
    let me = [1, 2, 3];
    let kind = WindowsPrivatePathKind::Directory;
    assert!(validate_windows_private_path(kind, DIRECTORY, &me, &me).is_ok());
    assert_eq!(
        validate_windows_private_path(kind, DIRECTORY | REPARSE, &me, &me).unwrap_err(),
        PrivatePathError::ReparsePoint
    );
    assert_eq!(
        validate_windows_private_path(kind, 0, &me, &me).unwrap_err(),
        PrivatePathError::NotADirectory
    );
    assert_eq!(
        validate_windows_private_path(WindowsPrivatePathKind::File, DIRECTORY, &me, &me)
            .unwrap_err(),
        PrivatePathError::NotAFile
    );
    assert_eq!(
        validate_windows_private_path(kind, DIRECTORY, &[9], &me).unwrap_err(),
        PrivatePathError::ForeignOwner
    );
    assert!(reject_windows_reparse_attributes(DIRECTORY).is_ok());
    assert_eq!(terminated_path(&[65, 66]).unwrap(), vec![65, 66, 0]);
    assert_eq!(
        terminated_path(&[65, 0, 66]).unwrap_err(),
        PrivatePathError::InteriorNul
    );
    assert!(!PrivatePathError::InteriorNul.message().is_empty());
    assert!(windows_private_sddl(kind, "S-1-5-21").contains("S-1-5-21"));
    assert!(windows_private_sddl(kind, "S-1-5-21").starts_with("D:P(A;OICI;"));
}

#[test]
fn access_lists_are_told_from_failures() {
    assert_eq!(
        path_has_macos_acl(AclQuery::Listed { has_entries: true }),
        Ok(true)
    );
    assert_eq!(path_has_macos_acl(AclQuery::Failed { error: 2 }), Ok(false));
    assert_eq!(
        path_has_macos_acl(AclQuery::Failed { error: 13 }),
        Err(PrivatePathError::AclUnknown)
    );
}

#[test]
fn scripts_say_what_they_did() {
    assert!(click_reconnect_result("Windows App", &output(true, b"clicked Reconnect", b"")).is_ok());
    let missing = click_reconnect_result("Windows App", &output(true, b" \n", b"boom")).unwrap_err();
    assert!(missing.starts_with("Reconnect button not found in Windows App: "));
    assert!(!missing.contains("boom"));
    assert_eq!(
        close_dialogs_result(&output(true, b"clicked", b"")),
        Ok(true)
    );
    assert_eq!(close_dialogs_result(&output(true, b"none", b"")), Ok(false));
    assert!(close_dialogs_result(&output(false, b"clicked", b"")).is_err());
    assert!(open_result("Windows App", &output(true, b"", b"")).is_ok());
    assert!(open_result("Windows App", &output(false, b"", b""))
        .unwrap_err()
        .starts_with("Failed to open Windows App: "));
}

#[test]
fn a_restart_kills_and_opens_under_its_guard() {
    let mut run = ReconnectRun::reconnect_guarded(true, 100);
    let mut actions = vec![];
    let mut now = 0;
    for _ in 0..200 {
        let action = run.action();
        actions.push(action);
        match action {
            ReconnectAction::CheckGuard => run.on_guard(Ok(())),
            ReconnectAction::CloseDialogs => run.on_dialogs_tried(),
            ReconnectAction::ListTargets => run.on_listed(Ok(vec![42])),
            ReconnectAction::Kill { pid } => {
                assert_eq!(pid, 42);
                run.on_killed(Ok(()));
            }
            ReconnectAction::ReadClock => {
                now += 30;
                run.on_clock(now);
            }
            ReconnectAction::Sleep { ms } => {
                now += ms;
                run.on_clock(now);
            }
            ReconnectAction::OpenApp => run.on_opened(Ok(())),
            ReconnectAction::Stop => break,
        }
    }
    assert_eq!(actions[0], ReconnectAction::CheckGuard);
    let opened = actions
        .iter()
        .position(|action| *action == ReconnectAction::OpenApp)
        .unwrap();
    assert_eq!(actions[opened - 1], ReconnectAction::CheckGuard);
    assert!(actions.contains(&ReconnectAction::Kill { pid: 42 }));
    assert!(run.finish().unwrap().is_ok());

    let mut stopped = ReconnectRun::restart_guarded(true, 100);
    stopped.on_guard(Err("superseded".to_string()));
    assert_eq!(stopped.finish().unwrap().unwrap_err(), "superseded");
}

#[test]
fn no_script_is_made_without_a_trusted_process() {
    assert_eq!(script_targets(vec![7, 9]), Ok(vec![7, 9]));
    assert_eq!(
        script_targets(vec![]),
        Err("No trusted Microsoft Windows App process is running".to_string())
    );
}
