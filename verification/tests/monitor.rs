use windows_app_autologin::inspection::{MacosInspection, MacosWindowTitle};
use windows_app_autologin::models::Account;
use windows_app_autologin::monitor::{
    check_status_macos_with_inspector, inspect_windows_app_macos_native,
    status_from_macos_inspection, Config, FormInspection, MonitorObservation, MonitorStatus,
    WindowInspection, WindowTitle, TARGET_APP_NAME,
};
use windows_app_autologin::prompt_text::{contains_keyword, is_probable_session_window_title};
use windows_app_autologin::selection::select_account;

#[test]
fn contains_keyword_handles_non_ascii_boundaries() {
    assert!(contains_keyword("Введите Пароль для продолжения", "Пароль"));
    assert!(!contains_keyword("ПредПароль", "Пароль"));
}

#[test]
fn session_title_filter_rejects_shell_windows_but_allows_desktops() {
    assert!(!is_probable_session_window_title("Windows App"));
    assert!(!is_probable_session_window_title("About Windows App"));
    assert!(!is_probable_session_window_title("Connection Center"));
    assert!(!is_probable_session_window_title("Workspaces"));
    assert!(!is_probable_session_window_title("Accounts"));
    assert!(!is_probable_session_window_title("Add PC"));
    assert!(!is_probable_session_window_title("Disconnected from VM"));
    assert!(!is_probable_session_window_title(
        "Unable to connect to host"
    ));
    assert!(is_probable_session_window_title("Finance Desktop 01"));
    assert!(is_probable_session_window_title("corp-vm-7"));
}

#[test]
fn check_status_macos_detects_login_window_from_inspection() {
    let config = Config {
        macos_app_name: TARGET_APP_NAME.to_string(),
    };

    let observation = check_status_macos_with_inspector(&config, |_app_name, _include_form_text| {
        inspection(
            vec![title(42, "Sign in")],
            vec![form(42, "Sign in", Some("user@example.com"))],
        )
    });

    assert_eq!(
        observation.status,
        login_status(42, "Sign in", Some("user@example.com"))
    );
    assert!(!observation.definitive_no_prompt);
}

#[test]
fn macos_only_verified_native_process_absence_is_definitive() {
    let config = Config {
        macos_app_name: TARGET_APP_NAME.to_string(),
    };

    let running_but_ax_unavailable =
        check_status_macos_with_inspector(&config, |_, _| WindowInspection {
            process_found: Some(true),
            ..Default::default()
        });
    assert_eq!(running_but_ax_unavailable.status, MonitorStatus::Unknown);
    assert!(!running_but_ax_unavailable.definitive_no_prompt);

    let connected = check_status_macos_with_inspector(&config, |_, _| {
        inspection(vec![title(42, "Finance Desktop 01")], vec![])
    });
    assert_eq!(connected.status, MonitorStatus::Connected);
    assert!(!connected.definitive_no_prompt);

    let native_enumeration_failed =
        check_status_macos_with_inspector(&config, |_, _| WindowInspection::default());
    assert_eq!(native_enumeration_failed.status, MonitorStatus::Unknown);
    assert!(!native_enumeration_failed.definitive_no_prompt);

    let verified_absence = check_status_macos_with_inspector(&config, |_, _| WindowInspection {
        process_found: Some(false),
        ..Default::default()
    });
    assert_eq!(verified_absence.status, MonitorStatus::ProcessNotFound);
    assert!(verified_absence.definitive_no_prompt);
}

#[test]
fn login_like_background_title_without_foreground_form_is_not_automated() {
    let status = status_from_macos_inspection(&inspection(vec![title(42, "Sign in")], vec![]));

    assert_eq!(status, MonitorStatus::Unknown);
}

#[test]
fn sole_foreground_prompt_is_authoritative_and_multiple_forms_fail_closed() {
    let foreground = inspection(
        vec![title(42, "Unrelated background window")],
        vec![form(77, "Sign in", Some("person@example.com"))],
    );
    assert_eq!(
        status_from_macos_inspection(&foreground),
        login_status(77, "Sign in", Some("person@example.com"))
    );

    let ambiguous = inspection(
        vec![title(42, "Sign in"), title(43, "Sign in")],
        vec![
            form(42, "Sign in", Some("person@example.com")),
            form(43, "Sign in", Some("other@example.com")),
        ],
    );
    assert_eq!(
        status_from_macos_inspection(&ambiguous),
        MonitorStatus::Unknown
    );
}

fn login_status(
    process_id: i32,
    window_title: &str,
    prompt_email: Option<&str>,
) -> MonitorStatus {
    MonitorStatus::LoginWindowDetected {
        process_id,
        window_handle: 0,
        window_title: window_title.to_string(),
        prompt_email: prompt_email.map(str::to_string),
        prompt_origin: "window".to_string(),
    }
}

fn inspection(titles: Vec<WindowTitle>, forms: Vec<FormInspection>) -> WindowInspection {
    WindowInspection {
        process_found: Some(true),
        titles,
        forms,
    }
}

fn title(_process_id: i32, title: &str) -> WindowTitle {
    WindowTitle {
        title: title.to_string(),
    }
}

fn form(process_id: i32, title: &str, prompt_email: Option<&str>) -> FormInspection {
    FormInspection {
        process_id,
        title: title.to_string(),
        prompt_email: prompt_email.map(str::to_string),
        prompt_origin: "window",
    }
}

#[test]
fn native_inspection_is_taken_over() {
    assert_eq!(inspect_windows_app_macos_native(None).process_found, None);
    let empty = MacosInspection::empty();
    assert_eq!(
        inspect_windows_app_macos_native(Some(&empty)).process_found,
        Some(false)
    );
    let mut seen = MacosInspection::empty();
    seen.process_found = true;
    seen.window_titles.push(MacosWindowTitle {
        process_id: 42,
        title: "Finance Desktop 01".to_string(),
        window: Some(7),
    });
    let windows = inspect_windows_app_macos_native(Some(&seen));
    assert_eq!(windows.process_found, Some(true));
    assert_eq!(windows.titles[0].title, "Finance Desktop 01");
    assert!(!MonitorObservation::indeterminate(MonitorStatus::ProcessNotFound).definitive_no_prompt);
}

fn account(username: &str, enabled: bool) -> Account {
    let mut account = Account::new(username.to_string());
    account.enabled = enabled;
    account
}

#[test]
fn only_a_sole_enabled_account_is_chosen() {
    let accounts = vec![
        account("first@example.com", true),
        account("second@example.com", false),
        account("third@example.com", true),
        account(" THIRD@example.com", false),
    ];
    assert_eq!(select_account(&accounts, "first@example.com"), Some(0));
    assert_eq!(select_account(&accounts, " First@Example.com "), Some(0));
    assert_eq!(select_account(&accounts, "second@example.com"), None);
    assert_eq!(select_account(&accounts, "third@example.com"), Some(2));
    assert_eq!(select_account(&accounts, "fourth@example.com"), None);
    assert_eq!(select_account(&[], "first@example.com"), None);

    let mut doubled = accounts;
    doubled[3].enabled = true;
    assert_eq!(select_account(&doubled, "third@example.com"), None);
}
