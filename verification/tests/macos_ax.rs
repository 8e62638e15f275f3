use windows_app_autologin::ax_tree::{
    ax_relationship_attr_is_absent, collect_descendants_bounded,
    prompt_text_element_should_contribute, AxNode, AxTraversalCompleteness, AxTree,
    AX_ERROR_ATTRIBUTE_UNSUPPORTED, AX_ERROR_NO_VALUE, AX_ERROR_SUCCESS, MAX_DIRECT_SHEET_COUNT,
};
use windows_app_autologin::fill::{
    wait_for_prompt_submit_button_enabled, ClearAction, ClearRun, FillAction, FillError, FillRun, FocusAction, FocusRun,
    MacosFillFailure, MacosFillResult, CG_EVENT_FLAG_MASK_COMMAND, KEYCODE_A, KEYCODE_DELETE,
    KEYCODE_RETURN,
};
use windows_app_autologin::identity::TrustedProcessInfo;
use windows_app_autologin::inspection::{
    detect_visible_prompt, inspect_process, window_title_binding_is_unique, window_to_read,
    AppSnapshot, DetectError, MacosInspection, MacosWindowTitle,
};
use windows_app_autologin::live::{
    ensure_revalidated_frontmost, Action, Fault, LiveState, Moment, PromptError,
};
use windows_app_autologin::native_path::NativePath;
use windows_app_autologin::post_submit::{
    classify_post_submit_inspection, classify_post_submit_prompt_identities,
    classify_post_submit_state, next_prompt_absence_since,
    post_submit_prompt_state_is_terminal_during_poll, prompt_absence_dwell_confirmed,
    submitted_parent_target_identity_is_unique_foreground, submitted_prompt_presence,
    submitted_sheet_presence, submitted_sheet_session_identity_matches, PostCheck, PostStep,
};
use windows_app_autologin::prompt::{
    collect_prompt_text, prompt_text_snapshots, select_submit_button_candidate, take_snapshot,
    MacosPrompt, MacosTarget,
};
use windows_app_autologin::prompt_scan::{password_field_candidates, ScanError};
use windows_app_autologin::prompt_text::{
    credential_prompt_text_like, extract_email_like, native_credential_window_identity,
    normalized_submit_label, prompt_identity_verified, prompt_window_title_matches,
    submit_label_rank, text_contains_password_cue, usernames_match, PromptOrigin,
};
use windows_app_autologin::revalidate::{
    preflight_password_load_prompt, revalidate_filled_prompt,
    revalidate_focused_password_field_for_keyboard, revalidate_prepared_prompt_for_fill,
    revalidate_prompt, MacosFilledPrompt, MacosVerifiedPrompt,
};
use windows_app_autologin::secret_text::zeroizing_utf16_buffer;
use windows_app_autologin::selection::{
    select_unique_best_rank, select_unique_foreground_index, unique_frontmost_index,
    unique_true_index, AxForegroundState, UniqueTrueIndex,
};
use windows_app_autologin::sheet_episode::{
    classify_suppressed_sheet_episode_presence, suppressed_sheet_episode_has_visible_direct_sheet,
    SheetEpisodeError,
};
use windows_app_autologin::submit::{
    MacosSubmitResult, MacosSubmittedPrompt, SubmitAction, SubmitError, SubmitRun,
};
use windows_app_autologin::waiting::{
    wait_for_button_enabled, StableWait, WaitStep, FOCUS_ACQUIRE_TIMEOUT_MS,
    FOCUS_POLL_INTERVAL_MS, FOCUS_STABLE_SETTLE_MS, PASSWORD_FILL_READY_MS,
    POST_SUBMIT_REQUIRED_ABSENCE_DWELL_MS,
};

// ---------------------------------------------------------------------------
// A desktop with one login window
// ---------------------------------------------------------------------------

const PID: i32 = 42;
const WINDOW: u64 = 1;
const TEXT: u64 = 2;
const FIELD: u64 = 3;
const BUTTON: u64 = 4;
const EMAIL: &str = "user@example.com";

fn node(id: u64, parent: u64, role: &str) -> AxNode {
    AxNode {
        id,
        process_id: Some(PID),
        parent: Some(parent),
        children: Some(vec![]),
        sheets: Some(vec![]),
        role: Some(role.to_string()),
        subrole: None,
        role_description: None,
        title: None,
        description: None,
        help: None,
        placeholder: None,
        value: None,
        hidden: None,
        enabled: Some(true),
        focused: Some(false),
        main: Some(false),
    }
}

fn text(value: &str) -> Option<String> {
    Some(value.to_string())
}

fn prompt_nodes(first: u64, parent: u64) -> Vec<AxNode> {
    let mut label = node(first, parent, "AXStaticText");
    label.value = text("Enter password for user@example.com");
    let mut field = node(first + 1, parent, "AXTextField");
    field.subrole = text("AXSecureTextField");
    field.title = text("Password");
    let mut button = node(first + 2, parent, "AXButton");
    button.title = text("Continue");
    vec![label, field, button]
}

fn window_node(id: u64, title: &str) -> AxNode {
    let mut window = node(id, 0, "AXWindow");
    window.parent = None;
    window.subrole = text("AXDialog");
    window.title = text(title);
    window.focused = Some(true);
    window.main = Some(true);
    window
}

fn login_tree() -> AxTree {
    let mut window = window_node(WINDOW, "Sign in");
    window.children = Some(vec![TEXT, FIELD, BUTTON]);
    let mut nodes = vec![window];
    nodes.extend(prompt_nodes(TEXT, WINDOW));
    AxTree { nodes }
}

fn change(tree: &mut AxTree, id: u64, f: impl Fn(&mut AxNode)) {
    for node in tree.nodes.iter_mut() {
        if node.id == id {
            f(node);
        }
    }
}

fn trusted() -> TrustedProcessInfo {
    TrustedProcessInfo {
        pid: PID,
        bundle_id: "com.microsoft.rdc.macos".to_string(),
        bundle_path: NativePath::parse(b"/Applications/Windows App.app"),
        team_id: "UBF8T346G9",
    }
}

fn app(tree: AxTree, windows: Vec<u64>) -> AppSnapshot {
    AppSnapshot {
        process: trusted(),
        application: Some(PID),
        frontmost: Some(true),
        windows: Some(windows),
        tree,
    }
}

fn live_of(tree: AxTree, windows: Vec<u64>, focused: Option<u64>) -> LiveState {
    LiveState {
        application: Some(PID),
        frontmost: Some(true),
        windows: Some(windows),
        focused,
        tree,
        trusted: Ok(Some(trusted())),
    }
}

fn live() -> LiveState {
    let mut tree = login_tree();
    change(&mut tree, FIELD, |field| field.focused = Some(true));
    live_of(tree, vec![WINDOW], Some(FIELD))
}

fn live_with(f: impl Fn(&mut AxTree)) -> LiveState {
    let mut state = live();
    f(&mut state.tree);
    state
}

fn prompt() -> MacosPrompt {
    detect_visible_prompt(
        &vec![app(login_tree(), vec![WINDOW])],
        Some(PID),
        Some("Sign in"),
        Some(EMAIL),
    )
    .unwrap()
    .unwrap()
}

fn verified() -> MacosVerifiedPrompt {
    MacosVerifiedPrompt::from_detected_prompt(prompt())
}

fn filled() -> MacosFilledPrompt {
    MacosFilledPrompt {
        prompt: prompt(),
        expected_email: EMAIL.to_string(),
        trusted_process: trusted(),
        submit_button_ready_after_fill: true,
    }
}

fn new_fill() -> FillRun {
    FillRun::fill_verified_password(verified(), PID, "Sign in", "window", EMAIL)
}

fn run_fill(run: FillRun) -> (Vec<FillAction>, Result<MacosFillResult, MacosFillFailure>) {
    let mut run = run;
    let mut actions = vec![];
    let state = live();
    for _ in 0..100 {
        let action = run.action();
        actions.push(action);
        match action {
            FillAction::CheckGuard => run.on_guard(Ok(())),
            FillAction::ReadLive => run.on_live(&state, &state),
            FillAction::FocusField => run.on_focus(true),
            FillAction::SendKey { .. } | FillAction::SendText { .. } => run.on_sent(true),
            FillAction::Sleep { .. } => run.on_elapsed(),
            FillAction::AwaitButton { .. } => run.on_button(true),
            FillAction::Stop => return (actions, run.finish().unwrap()),
        }
    }
    panic!("the fill does not end");
}

fn run_submit(
    sent: bool,
    pressed: bool,
) -> (Vec<SubmitAction>, Result<MacosSubmitResult, SubmitError>) {
    let mut run = SubmitRun::submit_filled_prompt(filled());
    let mut actions = vec![];
    let state = live();
    for _ in 0..100 {
        let action = run.action();
        actions.push(action);
        match action {
            SubmitAction::CheckGuard => run.on_guard(Ok(())),
            SubmitAction::ReadLive => run.on_live(&state, &state),
            SubmitAction::AwaitButton { .. } => run.on_button(true),
            SubmitAction::FocusField => run.on_focus(true),
            SubmitAction::SendKey { .. } => run.on_sent(sent),
            SubmitAction::PressButton { .. } => run.on_pressed(pressed),
            SubmitAction::Stop => return (actions, run.finish().unwrap()),
        }
    }
    panic!("the submission does not end");
}

// ---------------------------------------------------------------------------
// Text
// ---------------------------------------------------------------------------

#[test]
fn extracts_email_like_text() {
    assert_eq!(
        extract_email_like("Signed in as user.name+rdp@example.com"),
        Some("user.name+rdp@example.com".to_string())
    );
    assert_eq!(extract_email_like("No email here"), None);
}

#[test]
fn email_extraction_rejects_multiple_distinct_visible_emails() {
    assert_eq!(
        extract_email_like("user@example.com recovery other@example.com"),
        None
    );
    assert_eq!(
        extract_email_like("user@example.com signed in as USER@example.com"),
        Some("user@example.com".to_string())
    );
}

#[test]
fn submit_labels_are_normalized_and_ranked() {
    for (label, normalized, rank) in [
        ("Continue", "Continue", Some(0)),
        ("_Continue button", "Continue", Some(0)),
        ("Continue button", "Continue", Some(0)),
        ("Продолжить", "Продолжить", Some(0)),
        ("OK", "OK", Some(1)),
        ("OK button", "OK", Some(1)),
        ("Cancel", "Cancel", None),
    ] {
        assert_eq!(normalized_submit_label(label), normalized);
        assert_eq!(submit_label_rank(label), rank);
    }
}

#[test]
fn password_cues_cover_existing_locales() {
    assert!(text_contains_password_cue("Введите пароль"));
    assert!(text_contains_password_cue("Mot de passe"));
    assert!(!text_contains_password_cue("Account"));
}

#[test]
fn sheet_prompt_context_requires_login_like_text() {
    assert!(credential_prompt_text_like("Sign in with user@example.com"));
    assert!(credential_prompt_text_like(
        "Enter password for user@example.com"
    ));
    assert!(!credential_prompt_text_like("user@example.com"));
    assert!(!credential_prompt_text_like("Password user@example.com"));
}

#[test]
fn user_names_match_without_regard_to_case() {
    assert!(usernames_match(" USER@example.com ", "user@example.com"));
    assert!(!usernames_match("user@example.com", "other@example.com"));
}

// ---------------------------------------------------------------------------
// Traversal
// ---------------------------------------------------------------------------

#[test]
fn checked_ax_traversal_collects_a_complete_tree() {
    let traversal = collect_descendants_bounded(0, 4, 8, &|node| {
        Ok(match node {
            0 => vec![1, 2],
            1 => vec![3],
            _ => Vec::new(),
        })
    });

    assert_eq!(traversal.completeness, AxTraversalCompleteness::Complete);
    assert_eq!(traversal.into_complete_elements().unwrap(), vec![1, 3, 2]);
}

#[test]
fn checked_ax_traversal_fails_closed_on_child_query_error() {
    let traversal = collect_descendants_bounded(0, 4, 8, &|node| {
        if node == 1 {
            return Err("provider denied AXChildren".to_string());
        }
        Ok(if node == 0 { vec![1, 2] } else { Vec::new() })
    });

    assert!(matches!(
        &traversal.completeness,
        AxTraversalCompleteness::ChildQueryFailed(error)
            if error.contains("provider denied AXChildren")
    ));
    assert!(traversal.into_complete_elements().is_err());
}

#[test]
fn checked_ax_traversal_fails_closed_when_depth_limit_hides_descendants() {
    let traversal = collect_descendants_bounded(0, 2, 8, &|node| {
        Ok(if node < 3 { vec![node + 1] } else { Vec::new() })
    });

    assert_eq!(
        traversal.completeness,
        AxTraversalCompleteness::DepthLimitReached { max_depth: 2 }
    );
    assert!(traversal.into_complete_elements().is_err());
}

#[test]
fn checked_ax_traversal_fails_closed_when_element_limit_hides_siblings() {
    let traversal = collect_descendants_bounded(0, 4, 2, &|node| {
        Ok(if node == 0 { vec![1, 2, 3] } else { Vec::new() })
    });

    assert_eq!(
        traversal.completeness,
        AxTraversalCompleteness::ElementLimitReached { max_elements: 2 }
    );
    assert!(traversal.into_complete_elements().is_err());
}

#[test]
fn checked_ax_traversal_accepts_exact_complete_limits() {
    let depth_boundary = collect_descendants_bounded(0, 2, 8, &|node| {
        Ok(if node < 2 { vec![node + 1] } else { Vec::new() })
    });
    assert_eq!(
        depth_boundary.completeness,
        AxTraversalCompleteness::Complete
    );

    let element_boundary = collect_descendants_bounded(0, 4, 2, &|node| {
        Ok(if node == 0 { vec![1, 2] } else { Vec::new() })
    });
    assert_eq!(
        element_boundary.completeness,
        AxTraversalCompleteness::Complete
    );
}

#[test]
fn prompt_discovery_consumes_only_complete_checked_ax_traversals() {
    let mut tree = login_tree();
    change(&mut tree, TEXT, |label| label.children = None);
    let error = inspect_process(&vec![app(tree, vec![WINDOW])], None, None).err().unwrap();
    assert!(matches!(error, ScanError::WindowIncomplete(_)));

    let mut tree = sheet_tree(1);
    change(&mut tree, 11, |label| label.children = None);
    let error = inspect_process(&vec![app(tree, vec![WINDOW])], None, None).err().unwrap();
    assert!(matches!(error, ScanError::SheetIncomplete(_)));
}

#[test]
fn optional_ax_relationship_absence_is_not_a_traversal_failure() {
    assert!(ax_relationship_attr_is_absent(
        AX_ERROR_ATTRIBUTE_UNSUPPORTED
    ));
    assert!(ax_relationship_attr_is_absent(AX_ERROR_NO_VALUE));
    assert!(!ax_relationship_attr_is_absent(-25204));
    assert!(!ax_relationship_attr_is_absent(AX_ERROR_SUCCESS));

    let mut tree = login_tree();
    change(&mut tree, WINDOW, |window| window.sheets = None);
    assert_eq!(
        inspect_process(&vec![app(tree, vec![WINDOW])], None, None).err().unwrap(),
        ScanError::SheetsUnavailable
    );
}

// ---------------------------------------------------------------------------
// Filling
// ---------------------------------------------------------------------------

#[test]
fn password_insertion_implementation_has_no_global_clipboard_api() {
    let (actions, result) = run_fill(new_fill());
    assert!(result.is_ok());
    for action in actions {
        if let FillAction::SendKey { keycode, flags, .. } = action {
            assert!(
                (keycode == KEYCODE_A && flags == CG_EVENT_FLAG_MASK_COMMAND)
                    || (keycode == KEYCODE_DELETE && flags == 0)
            );
        }
    }
}

#[test]
fn password_insertion_uses_verified_pid_targeted_keyboard_events() {
    let (actions, result) = run_fill(new_fill());
    let sent: Vec<FillAction> = actions
        .into_iter()
        .filter(|action| {
            matches!(
                action,
                FillAction::SendKey { .. } | FillAction::SendText { .. }
            )
        })
        .collect();
    assert_eq!(
        sent,
        vec![
            FillAction::SendKey {
                process_id: PID,
                keycode: KEYCODE_A,
                flags: CG_EVENT_FLAG_MASK_COMMAND
            },
            FillAction::SendKey {
                process_id: PID,
                keycode: KEYCODE_DELETE,
                flags: 0
            },
            FillAction::SendText { process_id: PID },
        ]
    );
    assert!(result.ok().unwrap().filled_prompt.is_some());
}

#[test]
fn password_load_preflight_does_not_receive_or_write_password() {
    let apps = vec![app(login_tree(), vec![WINDOW])];
    let held = verified();
    let state = live();
    let again = preflight_password_load_prompt(
        Some(&held),
        &apps,
        &state,
        &state,
        PID,
        "Sign in",
        "window",
        EMAIL,
    )
    .unwrap();
    assert_eq!(again.prompt.password_field, FIELD);
    let fresh = preflight_password_load_prompt(
        None, &apps, &state, &state, PID, "Sign in", "window", EMAIL,
    )
    .unwrap();
    assert_eq!(fresh.prompt.password_field, FIELD);
    let moved = live_with(|tree| change(tree, WINDOW, |window| window.title = text("Other")));
    assert!(preflight_password_load_prompt(
        Some(&held),
        &apps,
        &moved,
        &moved,
        PID,
        "Sign in",
        "window",
        EMAIL,
    )
    .is_err());
}

#[test]
fn final_password_fill_revalidates_focus_and_identity_before_pid_targeted_keyboard_input() {
    let (actions, _) = run_fill(new_fill());
    let write = actions
        .iter()
        .position(|action| *action == FillAction::SendText { process_id: PID })
        .unwrap();
    let revalidation = actions
        .iter()
        .position(|action| *action == FillAction::ReadLive)
        .unwrap();
    let focus = actions
        .iter()
        .position(|action| *action == FillAction::FocusField)
        .unwrap();
    let final_revalidation = actions[..write]
        .iter()
        .rposition(|action| *action == FillAction::ReadLive)
        .unwrap();
    let final_guard = actions[..write]
        .iter()
        .rposition(|action| *action == FillAction::CheckGuard)
        .unwrap();

    assert!(revalidation < write);
    assert!(revalidation < focus);
    assert!(focus < final_revalidation);
    assert!(final_revalidation < final_guard);
    assert!(final_guard < write);

    let mut behind = live();
    behind.frontmost = Some(false);
    assert_eq!(
        revalidate_prepared_prompt_for_fill(&behind, &behind, &verified(), PID, "Sign in", EMAIL)
            .err().unwrap(),
        PromptError::Fault(Fault::NotFrontmost(Action::PasswordInsertion))
    );
}

#[test]
fn every_fill_keyboard_event_rechecks_guard_after_focus_revalidation() {
    let (actions, _) = run_fill(new_fill());
    let mut posts = 0;
    for (at, action) in actions.iter().enumerate() {
        if matches!(
            action,
            FillAction::SendKey { .. } | FillAction::SendText { .. }
        ) {
            posts += 1;
            assert_eq!(actions[at - 1], FillAction::CheckGuard);
            assert_eq!(actions[at - 2], FillAction::ReadLive);
        }
    }
    assert_eq!(posts, 3);
}

#[test]
fn password_axvalue_uses_wiped_no_copy_cfstring_backing() {
    let mut buffer = zeroizing_utf16_buffer("secret");
    assert_eq!(buffer.units().len(), 6);
    buffer.zeroize();
    assert!(buffer.units().is_empty());
}

#[test]
fn password_utf16_buffer_is_preallocated_before_plaintext_encoding() {
    let value = "ASCII-paßword-🔐";
    let encoded = zeroizing_utf16_buffer(value);
    assert!(encoded.units().iter().copied().eq(value.encode_utf16()));
    assert!(encoded.units().len() <= value.len());
}

#[test]
fn live_window_title_is_rechecked_at_fill_and_submit_boundaries() {
    let moved = live_with(|tree| change(tree, WINDOW, |window| window.title = text("Other")));
    assert_eq!(
        revalidate_prepared_prompt_for_fill(&moved, &moved, &verified(), PID, "Sign in", EMAIL)
            .err().unwrap(),
        PromptError::Fault(Fault::WindowTitleChanged)
    );
    assert_eq!(
        revalidate_filled_prompt(&moved, true, &moved, &filled()).err().unwrap(),
        PromptError::Fault(Fault::WindowTitleChanged)
    );
    let state = live();
    assert!(revalidate_prepared_prompt_for_fill(
        &state,
        &state,
        &verified(),
        PID,
        "Sign in",
        EMAIL
    )
    .is_ok());
    assert_eq!(
        revalidate_filled_prompt(&state, true, &state, &filled()).unwrap(),
        BUTTON
    );
}

#[test]
fn sole_background_prompt_is_never_selected() {
    assert_eq!(unique_frontmost_index(&[false]), None);
    assert_eq!(unique_frontmost_index(&[false, true]), Some(1));
    assert_eq!(unique_frontmost_index(&[true, true]), None);

    let mut behind = app(login_tree(), vec![WINDOW]);
    behind.frontmost = Some(false);
    assert!(detect_visible_prompt(&vec![behind], None, None, None)
        .unwrap()
        .is_none());
}

#[test]
fn foreground_loss_fails_closed_without_raising_or_retrying_submit() {
    assert!(ensure_revalidated_frontmost(false, Action::PasswordInsertion).is_err());
    assert!(ensure_revalidated_frontmost(true, Action::PasswordInsertion).is_ok());

    let (actions, result) = run_submit(true, true);
    let enter = SubmitAction::SendKey {
        process_id: PID,
        keycode: KEYCODE_RETURN,
        flags: 0,
    };
    let at = actions.iter().position(|action| *action == enter).unwrap();
    assert_eq!(actions[at - 1], SubmitAction::CheckGuard);
    assert_eq!(actions[at - 2], SubmitAction::ReadLive);
    assert!(!actions.contains(&SubmitAction::PressButton { button: BUTTON }));
    assert!(result.unwrap().submitted_prompt.is_some());

    let (actions, result) = run_submit(false, true);
    let at = actions.iter().position(|action| *action == enter).unwrap();
    let press = SubmitAction::PressButton { button: BUTTON };
    let pressed = actions.iter().position(|action| *action == press).unwrap();
    assert!(at < pressed);
    assert_eq!(actions.iter().filter(|action| **action == press).count(), 1);
    assert!(result.unwrap().axpress_attempted);

    let (actions, result) = run_submit(false, false);
    assert_eq!(actions.iter().filter(|action| **action == press).count(), 1);
    let result = result.unwrap();
    assert_eq!(result.axpress_result, "reported_error");
    assert!(result.submitted_prompt.is_some());

    let mut run = SubmitRun::submit_filled_prompt(filled());
    let mut behind = live();
    behind.frontmost = Some(false);
    for _ in 0..100 {
        match run.action() {
            SubmitAction::CheckGuard => run.on_guard(Ok(())),
            SubmitAction::ReadLive => run.on_live(&behind, &behind),
            SubmitAction::AwaitButton { .. } => run.on_button(true),
            SubmitAction::FocusField => run.on_focus(true),
            SubmitAction::Stop => break,
            other => panic!("nothing may be submitted: {other:?}"),
        }
    }
    assert!(run.finish().unwrap().is_err());
}

#[test]
fn password_field_candidates_do_not_fall_back_to_plain_text_fields() {
    let mut tree = login_tree();
    assert_eq!(
        password_field_candidates(&tree, &vec![TEXT, FIELD, BUTTON]),
        vec![FIELD]
    );
    change(&mut tree, FIELD, |field| field.subrole = None);
    assert!(password_field_candidates(&tree, &vec![TEXT, FIELD, BUTTON]).is_empty());
}

#[test]
fn native_password_field_detection_requires_secure_role() {
    let mut field = node(9, 1, "AXTextField");
    field.role_description = text("secure text field");
    field.title = text("Password");
    assert!(!field.is_secure_password_insertion_field());
    field.subrole = text("AXSecureTextField");
    assert!(field.is_secure_password_insertion_field());
    field.enabled = Some(false);
    assert!(!field.is_secure_password_insertion_field());
    let mut by_name = node(9, 1, "secure text field");
    assert!(by_name.is_secure_password_insertion_field());
    by_name.hidden = Some(true);
    assert!(!by_name.is_secure_password_insertion_field());
}

#[test]
fn prompt_text_never_reads_axvalue_from_password_sensitive_identity() {
    let mut tree = login_tree();
    change(&mut tree, FIELD, |field| field.value = text("super-secret"));
    let mut plain = node(5, WINDOW, "AXTextField");
    plain.title = text("Password");
    plain.value = text("other-secret");
    plain.hidden = Some(true);
    plain.enabled = Some(false);
    tree.nodes.push(plain);
    let ids = vec![TEXT, FIELD, BUTTON, 5];
    let body = collect_prompt_text(&tree, &ids);
    assert!(body.contains("Enter password for user@example.com"));
    assert!(!body.contains("super-secret"));
    assert!(!body.contains("other-secret"));
    for snapshot in prompt_text_snapshots(&tree, &ids, EMAIL, "Sign in", PromptOrigin::Window) {
        assert_ne!(snapshot.value.as_deref(), Some("super-secret"));
        assert_ne!(snapshot.value.as_deref(), Some("other-secret"));
    }
    for id in [FIELD, 5] {
        let sensitive = tree.find(id).unwrap();
        assert!(sensitive.has_sensitive_password_field_identity());
        assert!(!sensitive.value_may_be_read());
        assert_eq!(take_snapshot(sensitive).value, None);
    }
}

#[test]
fn automation_timing_constants_stay_bounded() {
    let fill_ready_ms = std::hint::black_box(PASSWORD_FILL_READY_MS);
    let focus_poll_interval_ms = std::hint::black_box(FOCUS_POLL_INTERVAL_MS);
    let focus_stable_settle_ms = std::hint::black_box(FOCUS_STABLE_SETTLE_MS);
    let focus_acquire_timeout_ms = std::hint::black_box(FOCUS_ACQUIRE_TIMEOUT_MS);
    let post_submit_absence_dwell_ms = std::hint::black_box(POST_SUBMIT_REQUIRED_ABSENCE_DWELL_MS);

    assert!(fill_ready_ms >= focus_poll_interval_ms);
    assert!(fill_ready_ms < 450);
    assert!(focus_stable_settle_ms >= 80);
    assert!(focus_acquire_timeout_ms >= focus_stable_settle_ms);
    assert!(focus_stable_settle_ms >= focus_poll_interval_ms);
    assert!(post_submit_absence_dwell_ms >= 1_500);
}

#[test]
fn password_focus_requires_active_press_before_stable_settle() {
    let mut run = FocusRun::focus_password_field(FIELD, PID, WINDOW);
    let state = live();
    let mut actions = vec![];
    let mut now = 0;
    let mut waited = 0;
    for _ in 0..1000 {
        let action = run.action();
        if actions.last() != Some(&action) {
            actions.push(action);
        }
        match action {
            FocusAction::ReadLive => {
                run.on_live(&state, now);
                now += FOCUS_POLL_INTERVAL_MS;
                waited += 1;
            }
            FocusAction::PressField | FocusAction::SetFocused => run.on_acted(now),
            FocusAction::Finish(_) => break,
        }
    }
    assert_eq!(
        actions,
        vec![
            FocusAction::ReadLive,
            FocusAction::PressField,
            FocusAction::SetFocused,
            FocusAction::ReadLive,
            FocusAction::Finish(true)
        ]
    );
    assert!(waited > FOCUS_STABLE_SETTLE_MS / FOCUS_POLL_INTERVAL_MS);

    let mut unfocused = live();
    unfocused.focused = None;
    let mut run = FocusRun::focus_password_field(FIELD, PID, WINDOW);
    let mut now = 0;
    let outcome = loop {
        match run.action() {
            FocusAction::ReadLive => {
                run.on_live(&unfocused, now);
                now += FOCUS_POLL_INTERVAL_MS;
            }
            FocusAction::PressField | FocusAction::SetFocused => run.on_acted(now),
            FocusAction::Finish(focused) => break focused,
        }
        assert!(now < 10 * FOCUS_ACQUIRE_TIMEOUT_MS);
    };
    assert!(!outcome);
}

#[test]
fn keyboard_side_effect_revalidation_reuses_one_live_trust_lookup() {
    let state = live();
    let mut last = live();
    last.trusted = Err("looked up twice".to_string());
    let check = |state: &LiveState, last: &LiveState| {
        revalidate_focused_password_field_for_keyboard(
            state,
            last,
            &prompt(),
            PID,
            "Sign in",
            EMAIL,
            &trusted(),
            Action::KeyboardInsertion,
        )
    };
    assert!(check(&state, &last).is_ok());

    let mut unknown = live();
    unknown.trusted = Err("no lookup".to_string());
    assert_eq!(
        check(&unknown, &state).err().unwrap(),
        PromptError::TrustUnknown("no lookup".to_string())
    );
    let mut gone = live();
    gone.trusted = Ok(None);
    assert_eq!(
        check(&gone, &state).err().unwrap(),
        PromptError::Fault(Fault::NoLongerTrusted)
    );
    let mut other = live();
    let mut moved = trusted();
    moved.bundle_path = NativePath::parse(b"/tmp/Windows App.app");
    other.trusted = Ok(Some(moved));
    assert_eq!(
        check(&other, &state).err().unwrap(),
        PromptError::Fault(Fault::IdentityChanged(Moment::KeyboardSideEffect))
    );
    let mut elsewhere = live();
    elsewhere.focused = Some(BUTTON);
    assert_eq!(
        check(&state, &elsewhere).err().unwrap(),
        PromptError::Fault(Fault::FocusChanged(Action::KeyboardInsertion))
    );
}

#[test]
fn a_failed_fill_says_whether_something_was_typed() {
    let mut run = new_fill();
    run.on_guard(Err("superseded".to_string()));
    let failure = run.finish().unwrap().err().unwrap();
    assert_eq!(failure.error, FillError::Guard("superseded".to_string()));
    assert!(failure.cleanup_prompt().is_none());

    let mut run = new_fill();
    let state = live();
    for _ in 0..100 {
        match run.action() {
            FillAction::CheckGuard => run.on_guard(Ok(())),
            FillAction::ReadLive => run.on_live(&state, &state),
            FillAction::FocusField => run.on_focus(true),
            FillAction::SendKey { .. } => run.on_sent(true),
            FillAction::SendText { .. } => run.on_sent(false),
            FillAction::Sleep { .. } => run.on_elapsed(),
            FillAction::AwaitButton { .. } => run.on_button(true),
            FillAction::Stop => break,
        }
    }
    let failure = run.finish().unwrap().err().unwrap();
    assert!(matches!(failure.error, FillError::NotSent(_)));
    assert!(!failure.error.message().is_empty());
    assert!(failure.cleanup_prompt().is_none());

    let mut run = new_fill();
    let mut stranger = live();
    stranger.trusted = Ok(None);
    let mut typed = false;
    for _ in 0..100 {
        match run.action() {
            FillAction::CheckGuard => run.on_guard(Ok(())),
            FillAction::ReadLive if typed => run.on_live(&stranger, &stranger),
            FillAction::ReadLive => run.on_live(&state, &state),
            FillAction::FocusField => run.on_focus(true),
            FillAction::SendKey { .. } => run.on_sent(true),
            FillAction::SendText { .. } => {
                typed = true;
                run.on_sent(true);
            }
            FillAction::Sleep { .. } => run.on_elapsed(),
            FillAction::AwaitButton { .. } => run.on_button(true),
            FillAction::Stop => break,
        }
    }
    let failure = run.finish().unwrap().err().unwrap();
    assert!(failure.cleanup_prompt().is_some());
}

#[test]
fn only_a_checked_field_is_emptied() {
    let mut run = ClearRun::clear_filled_password(filled());
    let state = live();
    assert_eq!(run.action(), ClearAction::ReadLive);
    run.on_live(&state);
    assert_eq!(run.action(), ClearAction::EmptyField { field: FIELD });
    run.on_written(true);
    assert!(run.finish().unwrap().is_ok());

    let mut run = ClearRun::clear_filled_password(filled());
    let mut stranger = live();
    stranger.trusted = Ok(None);
    for _ in 0..100 {
        match run.action() {
            ClearAction::ReadLive => run.on_live(&stranger),
            ClearAction::Sleep { .. } => run.on_elapsed(),
            ClearAction::EmptyField { .. } => panic!("an unchecked field may not be emptied"),
            ClearAction::Stop => break,
        }
    }
    assert!(run.finish().unwrap().is_err());
}

#[test]
fn a_prompt_is_revalidated_as_a_whole() {
    let apps = vec![app(login_tree(), vec![WINDOW])];
    let state = live();
    assert!(revalidate_prompt(&apps, &state, PID, "Sign in", "window", EMAIL).is_ok());
    assert!(revalidate_prompt(&vec![], &state, PID, "Sign in", "window", EMAIL).is_err());
    assert!(revalidate_prompt(&apps, &state, PID, "Sign in", "sheet", EMAIL).is_err());
    let held = verified();
    assert!(held.matches_expected(PID, "sign in", "window", "USER@example.com"));
    assert!(!held.matches_expected(PID + 1, "Sign in", "window", EMAIL));
    assert!(held.identity_text_matches(EMAIL, "Sign in"));
    assert!(!held.identity_text_matches("other@example.com", "Sign in"));
    assert!(filled().matches_expected(PID, "Sign in", "window", EMAIL));
}

#[test]
fn submission_needs_the_filled_prompt() {
    assert!(SubmitRun::submit_prompt_after_fill(None, PID, "Sign in", "window", EMAIL).is_err());
    let held = filled();
    assert!(
        SubmitRun::submit_prompt_after_fill(Some(&held), PID, "Sign in", "window", EMAIL).is_ok()
    );
    assert!(SubmitRun::submit_prompt_after_fill(
        Some(&held),
        PID,
        "Sign in",
        "window",
        "other@example.com"
    )
    .is_err());
}

// ---------------------------------------------------------------------------
// Selection
// ---------------------------------------------------------------------------

#[test]
fn hidden_elements_do_not_contribute_prompt_text() {
    assert!(!prompt_text_element_should_contribute(
        true, false, false, false
    ));
    assert!(!prompt_text_element_should_contribute(
        false, true, false, false
    ));
    assert!(!prompt_text_element_should_contribute(
        false, true, false, true
    ));
    assert!(!prompt_text_element_should_contribute(
        false, false, true, false
    ));
    assert!(!prompt_text_element_should_contribute(
        false, false, false, true
    ));
    assert!(prompt_text_element_should_contribute(
        false, false, false, false
    ));
}

fn select_submit_label_for_test(labels: &[(&str, bool)]) -> Option<String> {
    let nodes: Vec<AxNode> = labels
        .iter()
        .enumerate()
        .map(|(index, (label, enabled))| {
            let mut button = node(index as u64 + 1, 100, "AXButton");
            button.title = text(label);
            button.enabled = Some(*enabled);
            button
        })
        .collect();
    let ids = (1..=labels.len() as u64).collect();
    let tree = AxTree { nodes };
    select_submit_button_candidate(&tree, &ids, true)
        .map(|id| labels[id as usize - 1].0.to_string())
}

#[test]
fn submit_selection_requires_one_enabled_candidate() {
    assert_eq!(
        select_submit_label_for_test(&[("Cancel", true), ("Continue", true)]),
        Some("Continue".to_string())
    );
    assert_eq!(
        select_submit_label_for_test(&[("Continue", true), ("OK", true)]),
        Some("Continue".to_string())
    );
    assert_eq!(
        select_submit_label_for_test(&[("OK", true), ("Continue button", true)]),
        Some("Continue button".to_string())
    );
    assert_eq!(
        select_submit_label_for_test(&[("Continue", false), ("OK", true)]),
        Some("OK".to_string())
    );
    assert_eq!(
        select_submit_label_for_test(&[("Continue", true), ("_Continue button", true)]),
        None
    );
    assert_eq!(
        select_submit_label_for_test(&[("OK", true), ("Connect", true)]),
        None
    );
    assert_eq!(select_submit_label_for_test(&[("Continue", false)]), None);
    assert_eq!(
        select_unique_best_rank(&[None, Some(1), Some(0), Some(1)]),
        Some(2)
    );
    assert_eq!(select_unique_best_rank(&[Some(0), Some(0)]), None);
}

#[test]
fn missing_axhidden_is_not_treated_as_hidden_but_enabled_stays_fail_closed() {
    let mut element = node(1, 2, "AXButton");
    element.hidden = None;
    element.enabled = None;
    assert!(!element.is_hidden());
    assert!(!element.is_enabled());
    element.hidden = Some(true);
    element.enabled = Some(true);
    assert!(element.is_hidden());
    assert!(element.is_enabled());
}

#[test]
fn target_window_title_binding_is_scoped_to_expected_pid() {
    let windows = vec![
        window_title(42, "Corp Desktop"),
        window_title(77, "Corp Desktop"),
        window_title(42, "Other Desktop"),
    ];

    assert!(window_title_binding_is_unique(&windows, 42, "Corp Desktop"));
    assert!(window_title_binding_is_unique(&windows, 77, "Corp Desktop"));
    assert!(!window_title_binding_is_unique(
        &windows,
        42,
        "Missing Desktop"
    ));
    assert!(!window_title_binding_is_unique(&windows, 42, " "));

    let unique_windows = vec![
        window_title(42, "Corp Desktop"),
        window_title(42, "Other Desktop"),
    ];
    assert!(window_title_binding_is_unique(
        &unique_windows,
        42,
        "Corp Desktop"
    ));
}

#[test]
fn target_window_title_binding_rejects_duplicate_titles_within_same_pid() {
    let windows = vec![
        window_title(42, " Corp Desktop "),
        window_title(42, "corp desktop"),
        window_title(77, "Corp Desktop"),
    ];

    assert!(!window_title_binding_is_unique(
        &windows,
        42,
        "Corp Desktop"
    ));
    assert!(window_title_binding_is_unique(&windows, 77, "Corp Desktop"));
}

fn state(focused: Option<bool>, main: Option<bool>) -> AxForegroundState {
    AxForegroundState { focused, main }
}

#[test]
fn foreground_window_selection_requires_one_affirmative_candidate() {
    let states = [
        state(Some(false), Some(false)),
        state(Some(true), Some(true)),
    ];
    assert_eq!(select_unique_foreground_index(true, &states), Some(1));
    assert_eq!(select_unique_foreground_index(false, &states), None);

    let unique_main = [
        state(Some(false), Some(false)),
        state(Some(false), Some(true)),
    ];
    assert_eq!(select_unique_foreground_index(true, &unique_main), Some(1));
}

#[test]
fn foreground_window_selection_fails_closed_on_ambiguous_or_unknown_state() {
    let two_focused = [
        state(Some(true), Some(false)),
        state(Some(true), Some(true)),
    ];
    let two_main = [
        state(Some(false), Some(true)),
        state(Some(false), Some(true)),
    ];
    let conflicting_focus_and_main = [
        state(Some(false), Some(true)),
        state(Some(true), Some(false)),
    ];
    let unknown_focus = [state(None, Some(false)), state(Some(false), Some(true))];
    let unknown_main = [state(Some(false), None)];

    assert_eq!(select_unique_foreground_index(true, &two_focused), None);
    assert_eq!(select_unique_foreground_index(true, &two_main), None);
    assert_eq!(
        select_unique_foreground_index(true, &conflicting_focus_and_main),
        None
    );
    assert_eq!(select_unique_foreground_index(true, &unknown_focus), None);
    assert_eq!(select_unique_foreground_index(true, &unknown_main), None);
}

#[test]
fn foreground_window_selection_rejects_a_single_known_background_window() {
    let one = [state(Some(false), Some(false))];
    let two = [one[0], one[0]];
    assert_eq!(select_unique_foreground_index(true, &one), None);
    assert_eq!(select_unique_foreground_index(true, &two), None);
    assert_eq!(select_unique_foreground_index(true, &[]), None);
}

#[test]
fn credential_sheet_identity_selection_is_unique_not_focus_based() {
    assert_eq!(unique_true_index(&[false, true]), UniqueTrueIndex::One(1));
    assert_eq!(unique_true_index(&[true, false]), UniqueTrueIndex::One(0));
    assert_eq!(unique_true_index(&[true, true]), UniqueTrueIndex::Multiple);
    assert_eq!(unique_true_index(&[false, false]), UniqueTrueIndex::Nowhere);
}

/// A session window with some credential sheets; the sheets are 10, 20 and so on.
fn sheet_tree(count: u64) -> AxTree {
    let mut window = window_node(WINDOW, "Contoso Desktop");
    window.subrole = text("AXStandardWindow");
    window.children = Some((1..=count).map(|index| index * 10).collect());
    let mut nodes = vec![window];
    for index in 1..=count {
        let id = index * 10;
        let mut sheet = node(id, WINDOW, "AXSheet");
        sheet.children = Some(vec![id + 1, id + 2, id + 3]);
        nodes.push(sheet);
        nodes.extend(prompt_nodes(id + 1, id));
    }
    AxTree { nodes }
}

#[test]
fn inspection_selects_one_bounded_credential_sheet_by_complete_identity() {
    let found = detect_visible_prompt(&vec![app(sheet_tree(1), vec![WINDOW])], None, None, None)
        .unwrap()
        .unwrap();
    assert_eq!(found.origin, PromptOrigin::Sheet);
    assert_eq!(found.native_container, 10);
    assert_eq!(found.password_field, 12);

    let mut one_of_two = sheet_tree(2);
    change(&mut one_of_two, 21, |label| label.value = text("About"));
    let found = detect_visible_prompt(&vec![app(one_of_two, vec![WINDOW])], None, None, None)
        .unwrap()
        .unwrap();
    assert_eq!(found.native_container, 10);

    assert_eq!(
        inspect_process(&vec![app(sheet_tree(2), vec![WINDOW])], None, None).err().unwrap(),
        ScanError::MultipleSheets
    );
    let many = MAX_DIRECT_SHEET_COUNT as u64 + 1;
    assert_eq!(
        inspect_process(&vec![app(sheet_tree(many), vec![WINDOW])], None, None).err().unwrap(),
        ScanError::TooManySheets
    );
}

#[test]
fn suppressed_sheet_exit_requires_one_exact_parent_and_no_direct_sheet() {
    assert_eq!(
        classify_suppressed_sheet_episode_presence(1, 0),
        Some(false)
    );
    assert_eq!(classify_suppressed_sheet_episode_presence(1, 1), Some(true));
    assert_eq!(
        classify_suppressed_sheet_episode_presence(1, MAX_DIRECT_SHEET_COUNT),
        Some(true)
    );
    assert_eq!(
        classify_suppressed_sheet_episode_presence(0, 0),
        Some(false)
    );
    assert_eq!(classify_suppressed_sheet_episode_presence(2, 0), None);
    assert_eq!(
        classify_suppressed_sheet_episode_presence(1, MAX_DIRECT_SHEET_COUNT + 1),
        None
    );

    let shown = app(sheet_tree(1), vec![WINDOW]);
    assert_eq!(
        suppressed_sheet_episode_has_visible_direct_sheet(&shown, "Contoso Desktop"),
        Ok(true)
    );
    let gone = app(sheet_tree(0), vec![WINDOW]);
    assert_eq!(
        suppressed_sheet_episode_has_visible_direct_sheet(&gone, "Contoso Desktop"),
        Ok(false)
    );
    assert_eq!(
        suppressed_sheet_episode_has_visible_direct_sheet(&gone, " "),
        Err(SheetEpisodeError::EmptyTitle)
    );
    let mut blind = app(sheet_tree(0), vec![WINDOW]);
    blind.windows = None;
    assert_eq!(
        suppressed_sheet_episode_has_visible_direct_sheet(&blind, "Contoso Desktop"),
        Err(SheetEpisodeError::WindowsUnavailable)
    );
    let mut unreadable = app(sheet_tree(1), vec![WINDOW]);
    change(&mut unreadable.tree, 11, |label| label.children = None);
    assert_eq!(
        suppressed_sheet_episode_has_visible_direct_sheet(&unreadable, "Contoso Desktop"),
        Ok(true)
    );
}

#[test]
fn generic_session_window_is_not_scanned_as_a_credential_dialog() {
    let body = "Enter Your Credentials These credentials will be used to connect to \
                rdgateway.example.com Username: user@example.com Password:";

    assert!(!native_credential_window_identity(
        Some("AXWindow"),
        Some("AXStandardWindow"),
        "Contoso Desktop"
    ));
    assert!(!native_credential_window_identity(
        Some("AXWindow"),
        Some("AXStandardWindow"),
        "Sign in"
    ));
    assert!(!prompt_identity_verified(
        "Contoso Desktop",
        body,
        PromptOrigin::Window
    ));
    assert!(prompt_identity_verified(
        "Contoso Desktop",
        body,
        PromptOrigin::Sheet
    ));
    assert!(native_credential_window_identity(
        Some("AXWindow"),
        Some("AXDialog"),
        "Sign in"
    ));
    assert!(native_credential_window_identity(
        Some("AXWindow"),
        Some("AXSystemDialog"),
        "Authentication"
    ));

    let mut tree = login_tree();
    change(&mut tree, WINDOW, |window| {
        window.subrole = text("AXStandardWindow");
        window.children = None;
    });
    let mut second = window_node(9, "Contoso Desktop");
    second.focused = Some(false);
    second.main = Some(false);
    second.sheets = None;
    second.children = None;
    change(&mut tree, WINDOW, |window| window.children = Some(vec![]));
    tree.nodes.push(second);
    let found = inspect_process(&vec![app(tree, vec![WINDOW, 9])], None, None).unwrap();
    assert!(found.prompts.is_empty());
    assert_eq!(found.window_titles.len(), 2);
}

#[test]
fn prompt_identity_requires_credential_body_for_login_windows_and_sheets() {
    for (title, body, origin, expected) in [
        ("Password", "user@example.com", PromptOrigin::Window, false),
        (
            "Sign in",
            "Enter password for user@example.com",
            PromptOrigin::Window,
            true,
        ),
        (
            "Connection Center",
            "Sign in with user@example.com",
            PromptOrigin::Sheet,
            false,
        ),
        (
            "Contoso Desktop",
            "Sign in with user@example.com",
            PromptOrigin::Sheet,
            false,
        ),
        (
            "Contoso Desktop",
            "Enter password for user@example.com",
            PromptOrigin::Sheet,
            true,
        ),
        (
            "Contoso Desktop",
            "Enter password for Contoso Desktop user@example.com",
            PromptOrigin::Sheet,
            true,
        ),
        (
            "Contoso Desktop",
            "Enter Your User Account used to connect to user@example.com",
            PromptOrigin::Sheet,
            true,
        ),
        (
            "Contoso Desktop",
            "Enter Your User Account used to connect to Other Desktop user@example.com",
            PromptOrigin::Sheet,
            true,
        ),
        (
            "Azure DevDesktop - Windows 11",
            "Enter Your Credentials These credentials will be used to connect to rdgateway.example.com Username: user@example.com Password:",
            PromptOrigin::Sheet,
            true,
        ),
        (
            "Azure DevDesktop - Windows 11",
            "Enter Your Credentials These credentials will be used to connect to rdgateway.example.com Username: user@example.com Password:",
            PromptOrigin::Window,
            false,
        ),
        (
            "Connection Center",
            "Sign in with user@example.com",
            PromptOrigin::Window,
            false,
        ),
    ] {
        assert_eq!(prompt_identity_verified(title, body, origin), expected);
    }

    for title in [
        "Windows App",
        "Connection Center",
        "Workspaces",
        "Accounts",
        "Add PC",
        "Settings",
    ] {
        assert!(prompt_identity_verified(
            title,
            "Enter password for user@example.com",
            PromptOrigin::Sheet
        ));
    }
}

#[test]
fn prompt_title_revalidation_requires_exact_expected_title() {
    assert!(prompt_window_title_matches("Sign in", None));
    assert!(prompt_window_title_matches("Sign in", Some("sign in")));
    assert!(!prompt_window_title_matches(
        "Connection Center",
        Some("Sign in")
    ));
}

fn window_title(process_id: i32, title: &str) -> MacosWindowTitle {
    MacosWindowTitle {
        process_id,
        title: title.to_string(),
        window: None,
    }
}

#[test]
fn two_prompts_are_never_told_apart_by_guessing() {
    let first = app(login_tree(), vec![WINDOW]);
    let mut second = app(login_tree(), vec![WINDOW]);
    second.process.pid = 43;
    second.application = Some(43);
    for node in second.tree.nodes.iter_mut() {
        node.process_id = Some(43);
    }
    let apps = vec![first, second];
    assert_eq!(
        detect_visible_prompt(&apps, None, None, None).err().unwrap(),
        DetectError::MultiplePrompts
    );
    assert_eq!(
        detect_visible_prompt(&apps, Some(43), None, None)
            .unwrap()
            .unwrap()
            .target
            .process_id,
        43
    );
    let mut blind = app(login_tree(), vec![WINDOW]);
    blind.windows = None;
    assert_eq!(
        detect_visible_prompt(&vec![blind], None, None, None).err().unwrap(),
        DetectError::Scan(ScanError::WindowsUnavailable)
    );
    assert_eq!(
        window_to_read(&app(login_tree(), vec![WINDOW]), None),
        Some(WINDOW)
    );
}

// ---------------------------------------------------------------------------
// After the submission
// ---------------------------------------------------------------------------

#[test]
fn post_submit_state_classification_handles_prompt_session_and_failure() {
    for (prompt_email, target_running, has_session, expected) in [
        (
            Some("other@example.com"),
            true,
            false,
            Some("prompt_mismatch"),
        ),
        (Some("USER@example.com"), true, false, Some("still_prompt")),
        (None, true, false, None),
        (None, true, true, Some("authenticated")),
        (None, false, false, Some("failed")),
    ] {
        assert_eq!(
            classify_post_submit_state(
                prompt_email,
                target_running,
                has_session,
                "user@example.com"
            ),
            expected
        );
    }
}

#[test]
fn submitted_prompt_can_remain_visible_transiently_during_bounded_post_check() {
    assert!(!post_submit_prompt_state_is_terminal_during_poll(
        "still_prompt",
        true
    ));
    assert!(post_submit_prompt_state_is_terminal_during_poll(
        "still_prompt",
        false
    ));
    assert!(post_submit_prompt_state_is_terminal_during_poll(
        "prompt_mismatch",
        true
    ));
    assert!(post_submit_prompt_state_is_terminal_during_poll(
        "prompt_ambiguous",
        true
    ));
}

fn inspection_of(target: &str, titles: Vec<MacosWindowTitle>, sessions: Vec<MacosWindowTitle>) -> MacosInspection {
    let mut inspection = MacosInspection::empty();
    inspection.process_found = true;
    inspection.target = Some(MacosTarget {
        process_id: 101,
        window_title: target.to_string(),
        frontmost: true,
    });
    inspection.window_titles = titles;
    inspection.session_windows = sessions;
    inspection
}

#[test]
fn post_submit_ignores_session_window_from_other_process() {
    let inspection = inspection_of(
        "Sign in",
        vec![window_title(101, "Sign in")],
        vec![window_title(202, "Contoso Desktop")],
    );

    assert_eq!(
        classify_post_submit_inspection(
            &inspection,
            101,
            "Sign in",
            "user@example.com",
            None,
            false,
        ),
        None
    );
}

#[test]
fn post_submit_same_pid_session_without_submitted_window_stays_unknown() {
    let inspection = inspection_of(
        "Contoso Desktop",
        vec![window_title(101, "Contoso Desktop")],
        vec![window_title(101, "Contoso Desktop")],
    );

    assert_eq!(
        classify_post_submit_inspection(
            &inspection,
            101,
            "Contoso Desktop",
            "user@example.com",
            None,
            false,
        ),
        None
    );
}

#[test]
fn post_submit_ax_unavailable_with_native_process_running_stays_unknown() {
    let mut ax_unavailable = MacosInspection::empty();
    ax_unavailable.process_found = true;
    let verified_exit = MacosInspection::empty();

    assert_eq!(
        classify_post_submit_inspection(
            &ax_unavailable,
            101,
            "Sign in",
            "user@example.com",
            None,
            false,
        ),
        None
    );
    assert_eq!(
        classify_post_submit_inspection(
            &verified_exit,
            101,
            "Sign in",
            "user@example.com",
            None,
            false,
        ),
        Some("failed")
    );
}

#[test]
fn post_submit_inspection_errors_are_not_reported_as_process_exit() {
    let mut check = PostCheck::post_check_state(101, "Sign in", EMAIL, None, 1_000, 0);
    assert!(matches!(check.on_look(None, None, 0), PostStep::Sleep(_)));
    match check.on_look(None, None, 1_000) {
        PostStep::Done(outcome) => assert_eq!(outcome, "prompt_gone_unknown"),
        PostStep::Sleep(_) => panic!("the time is up"),
    }
}

#[test]
fn post_submit_session_success_accepts_the_reused_parent_after_the_sheet_disappears() {
    assert!(submitted_sheet_session_identity_matches(
        PromptOrigin::Sheet,
        101,
        101,
        "Contoso Desktop",
        "contoso desktop",
        true,
        true,
    ));
    assert!(!submitted_sheet_session_identity_matches(
        PromptOrigin::Window,
        101,
        101,
        "Contoso Desktop",
        "Contoso Desktop",
        true,
        true,
    ));
    assert!(!submitted_sheet_session_identity_matches(
        PromptOrigin::Sheet,
        101,
        202,
        "Contoso Desktop",
        "Contoso Desktop",
        true,
        true,
    ));
    assert!(!submitted_sheet_session_identity_matches(
        PromptOrigin::Sheet,
        101,
        101,
        "Contoso Desktop",
        "Other Desktop",
        true,
        true,
    ));
    assert!(!submitted_sheet_session_identity_matches(
        PromptOrigin::Sheet,
        101,
        101,
        "Contoso Desktop",
        "Contoso Desktop",
        false,
        true,
    ));
}

#[test]
fn post_submit_requires_a_continuous_time_based_prompt_absence_dwell() {
    assert_eq!(submitted_sheet_presence(true, 1), Some(true));
    assert_eq!(submitted_sheet_presence(false, 0), Some(false));
    assert_eq!(submitted_sheet_presence(false, 1), None);

    let required = POST_SUBMIT_REQUIRED_ABSENCE_DWELL_MS;
    let started = 10_000;
    let mut absent_since = next_prompt_absence_since(None, Some(false), started);
    assert!(!prompt_absence_dwell_confirmed(
        absent_since,
        started + required - 1,
        required,
    ));

    absent_since = next_prompt_absence_since(absent_since, None, started + 500);
    assert!(absent_since.is_none());

    let restarted = started + 750;
    absent_since = next_prompt_absence_since(absent_since, Some(false), restarted);
    absent_since = next_prompt_absence_since(absent_since, Some(true), restarted + 500);
    assert!(absent_since.is_none());

    let final_start = started + 2_000;
    absent_since = next_prompt_absence_since(absent_since, Some(false), final_start);
    assert!(prompt_absence_dwell_confirmed(
        absent_since,
        final_start + required,
        required,
    ));
}

#[test]
fn post_submit_authentication_requires_the_submitted_parent_as_unique_foreground_target() {
    assert!(submitted_parent_target_identity_is_unique_foreground(
        101,
        "Contoso Desktop",
        true,
        101,
        "contoso desktop",
        true,
    ));
    assert!(!submitted_parent_target_identity_is_unique_foreground(
        101,
        "Contoso Desktop",
        false,
        101,
        "Contoso Desktop",
        true,
    ));
    assert!(!submitted_parent_target_identity_is_unique_foreground(
        101,
        "Contoso Desktop",
        true,
        101,
        "Contoso Desktop",
        false,
    ));
    assert!(!submitted_sheet_session_identity_matches(
        PromptOrigin::Sheet,
        101,
        101,
        "Contoso Desktop",
        "Contoso Desktop",
        true,
        false,
    ));
}

#[test]
fn post_submit_different_title_prompt_in_same_pid_blocks_authenticated() {
    assert_eq!(
        classify_post_submit_prompt_identities(
            &[(101, "Other Desktop", Some("user@example.com"))],
            101,
            "Contoso Desktop",
            "user@example.com",
            true,
        ),
        Some("prompt_mismatch")
    );
    assert_eq!(
        classify_post_submit_prompt_identities(
            &[
                (101, "Contoso Desktop", Some("user@example.com")),
                (101, "Other Desktop", Some("user@example.com")),
            ],
            101,
            "Contoso Desktop",
            "user@example.com",
            true,
        ),
        Some("prompt_ambiguous")
    );
}

fn submitted_sheet() -> MacosSubmittedPrompt {
    MacosSubmittedPrompt {
        process_id: PID,
        window_title: "Contoso Desktop".to_string(),
        email: EMAIL.to_string(),
        origin: PromptOrigin::Sheet,
        target_window: WINDOW,
        prompt_container: 10,
    }
}

#[test]
fn submitted_prompt_identity_is_checked_independently_of_content_scan() {
    let mut unreadable = sheet_tree(1);
    change(&mut unreadable, 11, |label| label.children = None);
    let submitted = submitted_sheet();
    assert_eq!(
        submitted_prompt_presence(&live_of(unreadable, vec![WINDOW], None), &submitted),
        Some(true)
    );
    let mut closed = sheet_tree(1);
    change(&mut closed, WINDOW, |window| window.children = Some(vec![]));
    assert_eq!(
        submitted_prompt_presence(&live_of(closed, vec![WINDOW], None), &submitted),
        Some(false)
    );
    assert_eq!(
        submitted_prompt_presence(&live_of(sheet_tree(1), vec![], None), &submitted),
        Some(false)
    );
    assert_eq!(
        submitted_prompt_presence(&live_of(sheet_tree(0), vec![WINDOW], None), &submitted),
        None
    );
    let mut replaced = sheet_tree(2);
    change(&mut replaced, WINDOW, |window| window.children = Some(vec![20]));
    assert_eq!(
        submitted_prompt_presence(&live_of(replaced, vec![WINDOW], None), &submitted),
        None
    );
    let mut blind = live_of(sheet_tree(1), vec![WINDOW], None);
    blind.windows = None;
    assert_eq!(submitted_prompt_presence(&blind, &submitted), None);
}

#[test]
fn authentication_is_reported_only_after_the_dwell() {
    let mut inspection = MacosInspection::empty();
    inspection.process_found = true;
    inspection.has_session = true;
    inspection.target = Some(MacosTarget {
        process_id: PID,
        window_title: "Contoso Desktop".to_string(),
        frontmost: true,
    });
    let session = MacosWindowTitle {
        process_id: PID,
        title: "Contoso Desktop".to_string(),
        window: Some(WINDOW),
    };
    inspection.window_titles = vec![session.clone()];
    inspection.session_windows = vec![session];
    let mut check = PostCheck::post_check_state(
        PID,
        "Contoso Desktop",
        EMAIL,
        Some(submitted_sheet()),
        10_000,
        0,
    );
    assert!(matches!(
        check.on_look(Some(&inspection), Some(false), 0),
        PostStep::Sleep(_)
    ));
    assert!(matches!(
        check.on_look(Some(&inspection), Some(false), 1_499),
        PostStep::Sleep(_)
    ));
    match check.on_look(Some(&inspection), Some(false), 1_500) {
        PostStep::Done(outcome) => assert_eq!(outcome, "authenticated"),
        PostStep::Sleep(_) => panic!("the dwell is over"),
    }
}

#[test]
fn waits_end_in_time() {
    let mut wait = StableWait::new(100, 300, 0);
    assert!(matches!(
        wait.wait_for_stable_condition(true, 0),
        WaitStep::Sleep(_)
    ));
    assert!(matches!(
        wait.wait_for_stable_condition(false, 50),
        WaitStep::Sleep(_)
    ));
    assert!(matches!(
        wait.wait_for_stable_condition(true, 60),
        WaitStep::Sleep(_)
    ));
    assert_eq!(
        wait.wait_for_stable_condition(true, 160),
        WaitStep::Done(true)
    );
    let mut late = StableWait::new(100, 300, 0);
    assert_eq!(
        late.wait_for_stable_condition(false, 300),
        WaitStep::Done(false)
    );
    assert_eq!(wait_for_button_enabled(true, 0, 60, 0), WaitStep::Done(true));
    assert_eq!(
        wait_for_button_enabled(false, 0, 60, 60),
        WaitStep::Done(false)
    );
}

#[test]
fn a_log_names_no_account_once_a_prompt_is_filled() {
    let logged = format!("{:?}", filled().summary());
    assert!(!logged.contains(EMAIL));
    assert!(logged.contains("expected_email_present: true"));
    assert!(logged.contains("window_title: \"Sign in\""));
    let mut nobody = filled();
    nobody.expected_email = "  ".to_string();
    assert!(!nobody.summary().expected_email_present);

    let logged = format!("{:?}", submitted_sheet().summary());
    assert!(!logged.contains(EMAIL));
    assert!(logged.contains("email_present: true"));
    assert!(!format!("{:?}", verified().summary()).contains(EMAIL));

    let found = prompt().summary();
    assert_eq!(found.email.as_deref(), Some(EMAIL));
    assert_eq!(found.team_id, "UBF8T346G9");
    assert!(found.submit_button);
    let title = MacosWindowTitle {
        process_id: PID,
        title: "Contoso Desktop".to_string(),
        window: None,
    };
    assert!(!title.summary().window);
}

#[test]
fn a_prompt_without_a_button_is_not_waited_for() {
    let state = live();
    assert_eq!(
        wait_for_prompt_submit_button_enabled(&state.tree, &prompt(), 0, 100, 0),
        WaitStep::Done(true)
    );
    let mut bare = prompt();
    bare.submit_button = None;
    assert_eq!(
        wait_for_prompt_submit_button_enabled(&state.tree, &bare, 0, 100, 0),
        WaitStep::Done(false)
    );
    let dim = live_with(|tree| change(tree, BUTTON, |button| button.enabled = Some(false)));
    assert!(matches!(
        wait_for_prompt_submit_button_enabled(&dim.tree, &prompt(), 0, 100, 50),
        WaitStep::Sleep(_)
    ));
    assert_eq!(
        wait_for_prompt_submit_button_enabled(&dim.tree, &prompt(), 0, 100, 100),
        WaitStep::Done(false)
    );
}

fn keys_sent(mut run: FillRun, looks: &[LiveState]) -> usize {
    let mut keys = 0;
    let mut at = 0;
    for _ in 0..100 {
        match run.action() {
            FillAction::CheckGuard => run.on_guard(Ok(())),
            FillAction::ReadLive => {
                let look = &looks[at.min(looks.len() - 1)];
                at += 1;
                run.on_live(look, look);
            }
            FillAction::FocusField => run.on_focus(true),
            FillAction::SendKey { .. } | FillAction::SendText { .. } => {
                keys += 1;
                run.on_sent(true);
            }
            FillAction::Sleep { .. } => run.on_elapsed(),
            FillAction::AwaitButton { .. } => run.on_button(true),
            FillAction::Stop => return keys,
        }
    }
    keys
}

#[test]
fn keys_go_only_to_the_prompt_of_the_account() {
    assert_eq!(keys_sent(new_fill(), &[live()]), 3);

    let other = "other@example.com";
    let run = FillRun::fill_verified_password(verified(), PID, "Sign in", "window", other);
    assert_eq!(keys_sent(run, &[live()]), 0);

    let renamed = live_with(|tree| change(tree, TEXT, |label| label.value = text(other)));
    assert_eq!(keys_sent(new_fill(), &[live(), live(), renamed]), 0);

    let mut behind = live();
    behind.frontmost = Some(false);
    assert_eq!(keys_sent(new_fill(), &[live(), live(), live(), behind]), 1);

    let unsecured = live_with(|tree| {
        change(tree, FIELD, |field| {
            field.role = text("AXTextField");
            field.subrole = None;
        })
    });
    assert_eq!(
        keys_sent(new_fill(), &[live(), live(), live(), live(), unsecured]),
        2
    );
}

#[test]
fn a_walk_asks_only_for_what_it_met() {
    let asked = std::cell::RefCell::new(Vec::new());
    let traversal = collect_descendants_bounded(10, 2, 8, &|node| {
        asked.borrow_mut().push(node);
        match node {
            10 => Ok(vec![20, 30]),
            20 => Ok(vec![40]),
            30 | 40 => Ok(vec![]),
            _ => panic!("{node} was never met"),
        }
    });
    assert_eq!(asked.into_inner(), vec![10, 20, 40, 30]);
    assert_eq!(traversal.elements, vec![20, 40, 30]);
}
