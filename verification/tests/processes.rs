use std::cell::Cell;
use windows_app_autologin::identity::{
    IdentityError, ProcessListError, ProcessListRead, RequirementError,
};
use windows_app_autologin::native_path::NativePath;
use windows_app_autologin::processes::{
    designated_requirement, enumerate_processes, native_process_ids, process_executable_path,
    process_list_buffer_bytes, trusted_process_info_for_pid, trusted_process_infos,
    ExecutablePathError,
};

const APP: &str = "Windows App";
const MAIN: &str = "/Applications/Windows App.app/Contents/MacOS/Windows App";

fn path(text: &str) -> NativePath {
    NativePath::parse(text.as_bytes())
}

#[test]
fn only_a_gone_process_has_no_executable() {
    assert_eq!(process_executable_path(0, 3, b""), Ok(None));
    assert_eq!(process_executable_path(-1, 2, b""), Ok(None));
    assert_eq!(
        process_executable_path(0, 1, b""),
        Err(ExecutablePathError::Failed)
    );
    assert_eq!(
        process_executable_path(2, 0, b"\0\0/bin"),
        Err(ExecutablePathError::Empty)
    );
    assert_eq!(
        process_executable_path(6, 0, b"/bin/x\0garbage"),
        Ok(Some(path("/bin/x")))
    );
    assert_eq!(
        process_executable_path(9, 0, b"/bin/x\0garbage"),
        Ok(Some(path("/bin/x")))
    );
    assert_eq!(
        ExecutablePathError::Failed.message(42),
        "proc_pidpath failed for PID 42"
    );
    assert_eq!(
        ExecutablePathError::Empty.message(7),
        "proc_pidpath returned an empty path for PID 7"
    );
}

#[test]
fn the_first_process_buffer_has_slack() {
    let asked = Cell::new(0);
    let pids = native_process_ids(9, |capacity| {
        asked.set(capacity);
        Ok(ProcessListRead {
            pids: vec![7; capacity],
            bytes: 8,
        })
    });
    assert_eq!(pids, Ok(vec![7, 7]));
    assert_eq!(asked.get(), 3 + 64);
    let unsized_list = native_process_ids(0, |_| panic!("no list is read"));
    assert_eq!(
        unsized_list,
        Err(ProcessListError::Read(
            "unable to size the native process list".to_string()
        ))
    );
    assert_eq!(process_list_buffer_bytes(16), Some(64));
    assert_eq!(process_list_buffer_bytes(0x2000_0000), None);
    assert_eq!(process_list_buffer_bytes(0x1fff_ffff), Some(0x7fff_fffc));
}

#[test]
fn processes_are_listed_only_where_the_bundle_stands() {
    let lookup = |pid: i32| {
        Ok(match pid {
            1 => Some(path(MAIN)),
            2 => Some(path("/usr/bin/login")),
            _ => None,
        })
    };
    let found = enumerate_processes(APP, &|_: &NativePath| Ok(true), || Ok(vec![1, 2, 3]), lookup)
        .unwrap();
    assert_eq!(found.len(), 1);
    assert_eq!(found[0].pid, 1);
    assert_eq!(
        found[0].bundle_path,
        path("/Applications/Windows App.app")
    );
    let absent = enumerate_processes(
        APP,
        &|_: &NativePath| Ok(false),
        || panic!("nothing is listed"),
        lookup,
    );
    assert!(absent.unwrap().is_empty());
    let blind = enumerate_processes(
        APP,
        &|_: &NativePath| Err("no access".to_string()),
        || panic!("nothing is listed"),
        lookup,
    );
    assert_eq!(
        blind.unwrap_err(),
        IdentityError::Check("no access".to_string())
    );
    let unlisted = enumerate_processes(
        APP,
        &|_: &NativePath| Ok(true),
        || Err("no list".to_string()),
        lookup,
    );
    assert_eq!(
        unlisted.unwrap_err(),
        IdentityError::Check("no list".to_string())
    );
    let other = enumerate_processes(
        "Other App",
        &|_: &NativePath| panic!("nothing is looked at"),
        || panic!("nothing is listed"),
        lookup,
    );
    assert_eq!(other.unwrap_err(), IdentityError::Unsupported);

    let trusted = trusted_process_infos(
        APP,
        |_: &NativePath| Ok(true),
        || Ok(vec![1, 2, 3]),
        lookup,
        |pid, _: &NativePath, _| Ok(pid == 1),
    )
    .unwrap();
    assert_eq!(trusted.len(), 1);
    assert_eq!(trusted[0].team_id, "UBF8T346G9");
    assert!(trusted_process_infos(
        APP,
        |_: &NativePath| Ok(true),
        || Ok(vec![1]),
        lookup,
        |_, _: &NativePath, _| Err("no code".to_string()),
    )
    .is_err());
}

#[test]
fn one_process_is_trusted_by_its_bundle_and_its_code() {
    let ask = |executable, usable: Result<bool, String>, verified: Result<bool, String>| {
        trusted_process_info_for_pid(
            APP,
            42,
            executable,
            |_: &NativePath| usable.clone(),
            |_, _: &NativePath, _| verified.clone(),
        )
    };
    let info = ask(Ok(Some(path(MAIN))), Ok(true), Ok(true))
        .unwrap()
        .unwrap();
    assert_eq!(info.pid, 42);
    assert_eq!(info.bundle_id, "com.microsoft.rdc.macos");
    assert!(ask(Ok(None), Ok(true), Ok(true)).unwrap().is_none());
    assert!(ask(Ok(Some(path("/usr/bin/login"))), Ok(true), Ok(true))
        .unwrap()
        .is_none());
    let elsewhere = "/tmp/Windows App.app/Contents/MacOS/Windows App";
    assert!(ask(Ok(Some(path(elsewhere))), Ok(true), Ok(true))
        .unwrap()
        .is_none());
    assert!(ask(Ok(Some(path(MAIN))), Ok(false), Ok(true))
        .unwrap()
        .is_none());
    assert!(ask(Ok(Some(path(MAIN))), Ok(true), Ok(false))
        .unwrap()
        .is_none());
    let failed = ask(Err("gone".to_string()), Ok(true), Ok(true)).unwrap_err();
    assert_eq!(
        failed.message(APP),
        "unable to resolve executable path for PID 42"
    );
    assert_eq!(
        ask(Ok(Some(path(MAIN))), Ok(true), Err("no code".to_string())).unwrap_err(),
        IdentityError::Check("no code".to_string())
    );
}

#[test]
fn the_signing_tool_is_given_a_marked_source() {
    let text = designated_requirement("com.microsoft.rdc.macos", "UBF8T346G9").unwrap();
    assert!(text.starts_with("=anchor apple generic and identifier"));
    assert_eq!(
        designated_requirement("com.microsoft.rdc.macos", "team").unwrap_err(),
        RequirementError::TeamId
    );
}
