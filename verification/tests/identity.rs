use std::cell::Cell;
use windows_app_autologin::identity::{
    code_sign_requirement_source, missing_code_is_exit, native_process_ids_with_reader, path_has_symlink_component,
    path_has_symlink_component_checked, process_identities_from_pids, trusted_bundle_candidate_is_usable,
    trusted_bundle_candidates, trusted_identity, trusted_process_infos_from_identities,
    valid_team_id, verify_trusted_live_process, IdentityError, LiveCode, PathFact,
    ProcessIdentity, ProcessListError, ProcessListRead, RequirementError, TrustedIdentity,
    PROC_LIST_GROWTH_ATTEMPTS,
};
use windows_app_autologin::native_path::{
    containing_app_bundle, containing_app_bundle_for_direct_main_executable,
    proc_pidpath_buffer_to_path, NativePath,
};

fn path(text: &str) -> NativePath {
    NativePath::parse(text.as_bytes())
}

fn identity() -> TrustedIdentity {
    TrustedIdentity {
        bundle_id: "com.microsoft.rdc.macos",
        team_id: "UBF8T346G9",
    }
}

fn process(pid: i32, bundle_path: &str) -> ProcessIdentity {
    ProcessIdentity {
        pid,
        bundle_id: "com.microsoft.rdc.macos".to_string(),
        bundle_path: path(bundle_path),
    }
}

#[test]
fn untrusted_bundle_location_is_rejected_before_signature_check() {
    let processes = vec![process(4242, "/tmp/Windows App.app")];
    let verifier_called = Cell::new(false);

    let trusted = trusted_process_infos_from_identities(
        "Windows App",
        &processes,
        |_path| Ok(true),
        |_pid, _path, _identity| {
            verifier_called.set(true);
            Ok(true)
        },
    )
    .unwrap();

    assert!(trusted.is_empty());
    assert!(!verifier_called.get());
}

#[test]
fn unsupported_app_identities_are_rejected() {
    for app_name in ["Lookalike App", "Microsoft Remote Desktop"] {
        let error = trusted_process_infos_from_identities(
            app_name,
            &vec![],
            |_path| Ok(true),
            |_pid, _path, _identity| Ok(true),
        )
        .unwrap_err();

        assert_eq!(
            error.message(app_name),
            format!("unsupported app identity for secure automation: {app_name}")
        );
        assert!(trusted_identity(app_name).is_none());
        assert!(trusted_bundle_candidates(app_name).is_empty());
    }
}

#[test]
fn codesign_verifier_failure_rejects_process() {
    let processes = vec![process(4242, "/Applications/Windows App.app")];

    let trusted = trusted_process_infos_from_identities(
        "Windows App",
        &processes,
        |_path| Ok(true),
        |pid, bundle_path, identity| {
            assert_eq!(pid, 4242);
            assert!(bundle_path.same(&path("/Applications/Windows App.app")));
            assert_eq!(identity.bundle_id, "com.microsoft.rdc.macos");
            assert_eq!(identity.team_id, "UBF8T346G9");
            Ok(false)
        },
    )
    .unwrap();

    assert!(trusted.is_empty());
}

#[test]
fn trusted_process_info_carries_verified_team_id() {
    let processes = vec![process(4242, "/Applications/Windows App.app")];

    let trusted = trusted_process_infos_from_identities(
        "Windows App",
        &processes,
        |_path| Ok(true),
        |pid, _path, identity| {
            assert_eq!(pid, 4242);
            assert_eq!(identity.bundle_id, "com.microsoft.rdc.macos");
            assert_eq!(identity.team_id, "UBF8T346G9");
            Ok(true)
        },
    )
    .unwrap();

    assert_eq!(trusted.len(), 1);
    assert_eq!(trusted[0].pid, 4242);
    assert_eq!(trusted[0].bundle_id, "com.microsoft.rdc.macos");
    assert!(trusted[0]
        .bundle_path
        .same(&path("/Applications/Windows App.app")));
    assert_eq!(trusted[0].team_id, "UBF8T346G9");
    assert!(trusted[0].same(&trusted[0].duplicate()));
}

#[test]
fn process_verifier_can_reject_only_one_pid_for_same_bundle() {
    let processes = vec![
        process(1111, "/Applications/Windows App.app"),
        process(2222, "/Applications/Windows App.app"),
    ];

    let trusted = trusted_process_infos_from_identities(
        "Windows App",
        &processes,
        |_path| Ok(true),
        |pid, _path, _identity| Ok(pid == 2222),
    )
    .unwrap();
    let trusted = trusted
        .into_iter()
        .map(|process| process.pid)
        .collect::<Vec<_>>();

    assert_eq!(trusted, vec![2222]);
}

#[test]
fn process_verifier_error_is_propagated() {
    let processes = vec![process(4242, "/Applications/Windows App.app")];

    let error = trusted_process_infos_from_identities(
        "Windows App",
        &processes,
        |_path| Ok(true),
        |_pid, _path, _identity| Err("verifier unavailable".to_string()),
    )
    .unwrap_err();

    assert_eq!(error.message("Windows App"), "verifier unavailable");
}

#[test]
fn process_path_lookup_failure_makes_presence_indeterminate() {
    let error = process_identities_from_pids(
        &vec![4242],
        &vec![path("/Applications/Windows App.app")],
        identity(),
        |_pid| Err("proc_pidpath unavailable".to_string()),
    )
    .unwrap_err();

    assert_eq!(
        error.message("Windows App"),
        "unable to resolve executable path for PID 4242"
    );
    assert_eq!(
        error,
        IdentityError::PathLookup {
            pid: 4242,
            cause: "proc_pidpath unavailable".to_string()
        }
    );
}

#[test]
fn process_that_exits_during_snapshot_is_definitively_omitted() {
    let processes = process_identities_from_pids(
        &vec![4242],
        &vec![path("/Applications/Windows App.app")],
        identity(),
        |_pid| Ok(None),
    )
    .unwrap();

    assert!(processes.is_empty());
}

#[test]
fn direct_main_executable_is_discovered_as_the_trusted_app_identity() {
    let processes = process_identities_from_pids(
        &vec![49_806],
        &vec![path("/Applications/Windows App.app")],
        identity(),
        |pid| {
            assert_eq!(pid, 49_806);
            Ok(Some(path(
                "/Applications/Windows App.app/Contents/MacOS/Windows App",
            )))
        },
    )
    .unwrap();

    assert_eq!(processes.len(), 1);
    assert_eq!(processes[0].pid, 49_806);
    assert_eq!(processes[0].bundle_id, "com.microsoft.rdc.macos");
    assert!(processes[0]
        .bundle_path
        .same(&path("/Applications/Windows App.app")));
}

#[test]
fn nested_pasteboard_xpc_executable_is_not_discovered_as_the_main_app() {
    let processes = process_identities_from_pids(
        &vec![68_662],
        &vec![path("/Applications/Windows App.app")],
        identity(),
        |pid| {
            assert_eq!(pid, 68_662);
            Ok(Some(path(
                "/Applications/Windows App.app/Contents/Frameworks/ClientShared.framework/Versions/A/XPCServices/pasteboard.xpc.xpc/Contents/MacOS/pasteboard.xpc",
            )))
        },
    )
    .unwrap();

    assert!(processes.is_empty());
}

#[test]
fn full_native_process_buffer_is_grown_and_retried() {
    let reads = Cell::new(0);
    let pids = native_process_ids_with_reader(2, |capacity| {
        reads.set(reads.get() + 1);
        match reads.get() {
            1 => {
                assert_eq!(capacity, 2);
                Ok(ProcessListRead {
                    pids: vec![11, 22],
                    bytes: 8,
                })
            }
            2 => {
                assert_eq!(capacity, 4);
                Ok(ProcessListRead {
                    pids: vec![11, 22, 33, 0],
                    bytes: 12,
                })
            }
            _ => panic!("unexpected process-list retry"),
        }
    })
    .unwrap();

    assert_eq!(reads.get(), 2);
    assert_eq!(pids, vec![11, 22, 33]);
}

#[test]
fn perpetually_full_native_process_buffer_is_indeterminate() {
    let reads = Cell::new(0);
    let error = native_process_ids_with_reader(1, |capacity| {
        reads.set(reads.get() + 1);
        Ok(ProcessListRead {
            pids: vec![42; capacity],
            bytes: capacity * 4,
        })
    })
    .unwrap_err();

    assert_eq!(reads.get(), PROC_LIST_GROWTH_ATTEMPTS);
    assert!(matches!(error, ProcessListError::RemainedFull));
    assert_eq!(
        error.message(),
        "native process list remained full after repeated growth"
    );
}

#[test]
fn live_signature_api_failures_are_not_collapsed_to_absence() {
    let bundle = path("/Applications/Windows App.app");
    let live = |code_path: Option<&str>, over_symlink, valid| {
        verify_trusted_live_process(
            Some(LiveCode {
                path: code_path.map(path),
                over_symlink,
                valid,
            }),
            &bundle,
        )
    };

    assert_eq!(live(None, Some(false), true), None);
    assert_eq!(live(Some("/Applications/Windows App.app"), None, true), None);
    assert_eq!(
        live(Some("/Applications/Windows App.app"), Some(false), false),
        None
    );
    assert_eq!(
        live(Some("/Applications/Windows App.app"), Some(false), true),
        Some(true)
    );
    assert_eq!(
        live(Some("/Applications/Windows App.app"), Some(true), true),
        Some(false)
    );
    assert_eq!(live(Some("/tmp/Other.app"), Some(false), true), Some(false));
    assert_eq!(live(Some("/tmp"), Some(false), true), Some(false));
    assert_eq!(verify_trusted_live_process(None, &bundle), Some(false));
}

#[test]
fn requirement_source_is_bare_expression_for_security_framework() {
    let requirement =
        code_sign_requirement_source("com.microsoft.rdc.macos", "UBF8T346G9").unwrap();

    assert!(!requirement.starts_with('='));
    assert!(!requirement.contains("designated =>"));
    assert!(requirement.starts_with("anchor apple generic and identifier"));
    assert!(requirement.contains("identifier \"com.microsoft.rdc.macos\""));
    assert!(requirement.contains("certificate leaf[field.1.2.840.113635.100.6.1.9] exists"));
    assert!(requirement
        .contains("entitlement[\"com.apple.developer.team-identifier\"] = \"UBF8T346G9\""));
    assert!(requirement.contains(
        "entitlement[\"com.apple.application-identifier\"] = \"UBF8T346G9.com.microsoft.rdc.macos\""
    ));
    assert!(requirement.contains("certificate 1[field.1.2.840.113635.100.6.2.6] exists"));
    assert!(requirement.contains("certificate leaf[field.1.2.840.113635.100.6.1.13] exists"));
    assert!(requirement.contains("certificate leaf[subject.OU] = \"UBF8T346G9\""));
    assert!(!requirement.contains("certificate leaf[field.1.2.840.113635.100.6.1.9] exists or"));
    assert_eq!(
        requirement
            .matches("certificate leaf[subject.OU] = \"UBF8T346G9\"")
            .count(),
        1
    );
}

#[test]
fn team_id_validation_rejects_requirement_injection() {
    assert!(valid_team_id("UBF8T346G9"));
    assert!(!valid_team_id(""));
    assert!(!valid_team_id("UBF8T346G9 or true"));
    assert!(!valid_team_id("ubf8t346g9"));
    assert!(!valid_team_id("UBF8T346"));
    assert!(
        code_sign_requirement_source("com.microsoft.rdc.macos", "UBF8T346G9 or true").is_err()
    );
}

#[test]
fn bundle_identifier_validation_rejects_requirement_injection() {
    for bundle_id in [
        "",
        "com.microsoft.rdc.macos\" or true",
        "com.microsoft.rdc.macos or true",
        "com.microsoft.rdc.macos\\",
        "com.microsoft.rdc.macos)",
    ] {
        assert!(code_sign_requirement_source(bundle_id, "UBF8T346G9").is_err());
    }
}

#[test]
fn symlink_component_detection_rejects_aliases() {
    assert!(path_has_symlink_component(&[
        PathFact::Directory,
        PathFact::Symlink,
        PathFact::Directory
    ]));
    assert!(!path_has_symlink_component(&[
        PathFact::Directory,
        PathFact::Directory,
        PathFact::Directory
    ]));
}

#[test]
fn proc_pidpath_buffer_preserves_path_bytes_without_trimming() {
    let leading = proc_pidpath_buffer_to_path(b" /Applications/Windows App.app").unwrap();
    let trailing = proc_pidpath_buffer_to_path(b"/Applications/Windows App.app ").unwrap();
    let nul_terminated =
        proc_pidpath_buffer_to_path(b"/Applications/Windows App.app\0/spoof").unwrap();

    assert_eq!(leading, b" /Applications/Windows App.app");
    assert_eq!(trailing, b"/Applications/Windows App.app ");
    assert_eq!(nul_terminated, b"/Applications/Windows App.app");
    assert!(proc_pidpath_buffer_to_path(b"\0spoof").is_none());
}

#[test]
fn requirement_errors_name_the_part() {
    assert_eq!(
        code_sign_requirement_source("com.microsoft.rdc.macos", "short").unwrap_err(),
        RequirementError::TeamId
    );
    assert_eq!(
        code_sign_requirement_source("a b", "UBF8T346G9").unwrap_err(),
        RequirementError::BundleId
    );
    assert_eq!(
        code_sign_requirement_source(&"a".repeat(250), "UBF8T346G9").unwrap_err(),
        RequirementError::ApplicationId
    );
}

#[test]
fn process_list_errors_are_told_apart() {
    let failed = native_process_ids_with_reader(4, |_| Err("denied".to_string())).unwrap_err();
    assert!(matches!(failed, ProcessListError::Read(ref cause) if cause == "denied"));
    let odd = native_process_ids_with_reader(4, |_| {
        Ok(ProcessListRead {
            pids: vec![1, 2],
            bytes: 7,
        })
    })
    .unwrap_err();
    assert!(matches!(odd, ProcessListError::InvalidByteCount));
    let huge = native_process_ids_with_reader(usize::MAX, |_| panic!("never read")).unwrap_err();
    assert!(matches!(huge, ProcessListError::CapacityOverflow));
}

#[test]
fn unreadable_bundle_locations_are_indeterminate() {
    assert_eq!(
        path_has_symlink_component_checked(&[PathFact::Directory, PathFact::Unreadable]),
        None
    );
    let whole = [PathFact::Directory, PathFact::Directory];
    assert_eq!(
        trusted_bundle_candidate_is_usable(PathFact::Directory, &whole),
        Some(true)
    );
    assert_eq!(
        trusted_bundle_candidate_is_usable(PathFact::Missing, &whole),
        Some(false)
    );
    assert_eq!(
        trusted_bundle_candidate_is_usable(PathFact::Unreadable, &whole),
        None
    );
    assert_eq!(
        trusted_bundle_candidate_is_usable(PathFact::Symlink, &whole),
        Some(false)
    );
}

#[test]
fn bundles_are_found_by_their_names() {
    let main = path("/Applications/Windows App.app/Contents/MacOS/Windows App");
    assert!(containing_app_bundle(&main)
        .unwrap()
        .same(&path("/Applications/Windows App.app")));
    assert!(containing_app_bundle_for_direct_main_executable(&main)
        .unwrap()
        .same(&path("/Applications/Windows App.app")));
    assert!(containing_app_bundle(&path("/usr/bin/true")).is_none());
    assert!(path("/a//./b/").same(&path("/a/b")));
    assert!(!path("a/b").same(&path("/a/b")));
}

#[test]
fn missing_code_of_a_live_process_is_no_exit() {
    assert_eq!(missing_code_is_exit(Some(false)), Some(true));
    assert_eq!(missing_code_is_exit(Some(true)), None);
    assert_eq!(missing_code_is_exit(None), None);
}

#[test]
fn the_verifier_is_asked_for_the_trusted_identity_alone() {
    let mut processes = vec![
        process(1, "/Applications/Windows App.app"),
        process(2, "/tmp/Windows App.app"),
        process(3, "/Applications/Windows App.app"),
        process(4, "/Applications/Windows App.app"),
    ];
    processes[2].bundle_id = "com.example.other".to_string();
    let asked = std::cell::RefCell::new(Vec::new());
    let trusted = trusted_process_infos_from_identities(
        "Windows App",
        &processes,
        |_path| Ok(true),
        |pid, at, identity| {
            assert_eq!(*at, path("/Applications/Windows App.app"));
            assert_eq!(identity.bundle_id, "com.microsoft.rdc.macos");
            assert_eq!(identity.team_id, "UBF8T346G9");
            asked.borrow_mut().push(pid);
            Ok(pid == 4)
        },
    )
    .unwrap();
    assert_eq!(asked.into_inner(), vec![1, 4]);
    assert_eq!(trusted.len(), 1);
    assert_eq!(trusted[0].pid, 4);
}

#[test]
fn the_first_failed_check_ends_the_verification() {
    let processes = vec![
        process(1, "/Applications/Windows App.app"),
        process(2, "/Applications/Windows App.app"),
        process(3, "/Applications/Windows App.app"),
    ];
    let asked = std::cell::RefCell::new(Vec::new());
    let error = trusted_process_infos_from_identities(
        "Windows App",
        &processes,
        |_path| Ok(true),
        |pid, _path, _identity| {
            asked.borrow_mut().push(pid);
            if pid == 2 {
                Err("no answer".to_string())
            } else {
                Ok(true)
            }
        },
    )
    .unwrap_err();
    assert_eq!(error.message("Windows App"), "no answer");
    assert_eq!(asked.into_inner(), vec![1, 2]);
}

#[test]
fn the_first_failed_lookup_ends_the_search() {
    let asked = std::cell::RefCell::new(Vec::new());
    let error = process_identities_from_pids(
        &vec![5, 6, 7],
        &trusted_bundle_candidates("Windows App"),
        trusted_identity("Windows App").unwrap(),
        |pid| {
            asked.borrow_mut().push(pid);
            if pid == 6 {
                Err("no path".to_string())
            } else {
                Ok(None)
            }
        },
    )
    .unwrap_err();
    assert_eq!(
        error.message("Windows App"),
        "unable to resolve executable path for PID 6"
    );
    assert_eq!(asked.into_inner(), vec![5, 6]);
}
