//! The way from the process list to the trusted processes: where the executable
//! of a process stands, which running processes come from a trusted bundle, and
//! which of those are vouched for.

#[allow(unused_imports)]
use crate::identity::{
    all_judged, capacity_asked, identities, identities_view, info_at_trusted_location, infos_view,
    judged_outcome, list_outcome, location_answers, location_asked, lookup_answers, lookup_asked,
    lookup_outcome, may_judge, none_failed, paths_view, process_verdict, requirement_source,
    supported_app, trusted_info, trusted_infos, trusted_location, verifier_answers, verifier_asked,
    vouched, PathCheck, PathLookup, ProcessCheck, ProcessIdentityView, TrustedInfoView,
};
use crate::identity::{
    code_sign_requirement_source, native_process_ids_with_reader, process_identities_from_pids,
    trusted_bundle_candidates, trusted_identity, trusted_process_infos_from_identities,
    IdentityError, ProcessIdentity, ProcessListError, ProcessListRead, RequirementError,
    TrustedIdentity, TrustedProcessInfo, MICROSOFT_REMOTE_DESKTOP_BUNDLE_ID, PID_SIZE,
};
#[allow(unused_imports)]
use crate::native_path::{bundle_of_main, path_of, until_zero, PathView};
use crate::native_path::{
    containing_app_bundle_for_direct_main_executable, proc_pidpath_buffer_to_path, NativePath,
};
#[allow(unused_imports)]
use crate::text::decimal;
use crate::text::decimal_of;
use vstd::prelude::*;
use vstd::slice::slice_subrange;
#[allow(unused_imports)]
use vstd::string::StringExecFns;

verus! {

/// The spare entries of the first process-list buffer.
pub const PROC_LIST_INITIAL_SLACK: usize = 64;

/// The longest process-list buffer that can be asked for, in bytes.
pub const PROC_LIST_MAX_BYTES: usize = 0x7fff_ffff;

/// The system error for a file that does not exist.
pub const NO_SUCH_FILE: i32 = 2;

/// The system error for a process that does not exist.
pub const NO_SUCH_PROCESS: i32 = 3;

// ---------------------------------------------------------------------------
// Where an executable stands
// ---------------------------------------------------------------------------

/// Why the executable of a process is not known.
#[derive(Debug, Clone, Copy, PartialEq, Eq, Structural)]
pub enum ExecutablePathError {
    /// The system did not answer.
    Failed,
    /// The system answered with an empty path.
    Empty,
}

pub open spec fn executable_path_error_text(error: ExecutablePathError, pid: i32) -> Seq<char> {
    match error {
        ExecutablePathError::Failed => "proc_pidpath failed for PID "@ + decimal(pid as int),
        ExecutablePathError::Empty => "proc_pidpath returned an empty path for PID "@ + decimal(
            pid as int,
        ),
    }
}

impl ExecutablePathError {
    /// `executable_path_error_text`, computed.
    pub fn message(self, pid: i32) -> (out: String)
        ensures
            out@ == executable_path_error_text(self, pid),
    {
        let number: String = decimal_of(pid as i64);
        let mut out: String = match self {
            ExecutablePathError::Failed => "proc_pidpath failed for PID ".to_owned(),
            ExecutablePathError::Empty => "proc_pidpath returned an empty path for PID ".to_owned(),
        };
        out.append(number.as_str());
        out
    }
}

/// The path in what the system wrote. A process that is gone has none; any other
/// failure leaves the path unknown.
pub open spec fn executable_path(
    written: int,
    error: i32,
    buffer: Seq<u8>,
) -> Result<Option<PathView>, ExecutablePathError> {
    if written <= 0 {
        if error == NO_SUCH_PROCESS || error == NO_SUCH_FILE {
            Ok(None)
        } else {
            Err(ExecutablePathError::Failed)
        }
    } else if until_zero(buffer.take(written)).len() == 0 {
        Err(ExecutablePathError::Empty)
    } else {
        Ok(Some(path_of(until_zero(buffer.take(written)))))
    }
}

pub open spec fn executable_view(
    r: Result<Option<NativePath>, ExecutablePathError>,
) -> Result<Option<PathView>, ExecutablePathError> {
    match r {
        Ok(Some(path)) => Ok(Some(path@)),
        Ok(None) => Ok(None),
        Err(e) => Err(e),
    }
}

/// `executable_path`, computed: `written` is what the system returned, and
/// `error` the system error after the call.
pub fn process_executable_path(written: i32, error: i32, buffer: &[u8]) -> (out: Result<
    Option<NativePath>,
    ExecutablePathError,
>)
    requires
        written <= buffer@.len(),
    ensures
        executable_view(out) == executable_path(written as int, error, buffer@),
{
    if written <= 0 {
        return if error == NO_SUCH_PROCESS || error == NO_SUCH_FILE {
            Ok(None)
        } else {
            Err(ExecutablePathError::Failed)
        };
    }
    let filled: &[u8] = slice_subrange(buffer, 0, written as usize);
    assert(filled@ =~= buffer@.take(written as int));
    match proc_pidpath_buffer_to_path(filled) {
        Some(bytes) => Ok(Some(NativePath::parse(bytes.as_slice()))),
        None => Err(ExecutablePathError::Empty),
    }
}

// ---------------------------------------------------------------------------
// The process list
// ---------------------------------------------------------------------------

/// The entries of the first buffer for a list of `bytes` bytes.
pub open spec fn first_list_capacity(bytes: i32) -> usize {
    ((bytes + PID_SIZE - 1) / (PID_SIZE as int) + PROC_LIST_INITIAL_SLACK) as usize
}

/// The bytes that a buffer of `capacity` entries can be offered as, if the
/// system can be told of so many.
pub fn process_list_buffer_bytes(capacity: usize) -> (out: Option<usize>)
    ensures
        out == if capacity * PID_SIZE <= PROC_LIST_MAX_BYTES {
            Some((capacity * PID_SIZE) as usize)
        } else {
            None
        },
{
    if capacity <= PROC_LIST_MAX_BYTES / PID_SIZE {
        Some(capacity * PID_SIZE)
    } else {
        None
    }
}

/// Reads the process list, given how many bytes the system says it has.
pub fn native_process_ids<F: Fn(usize) -> Result<ProcessListRead, String>>(
    bytes: i32,
    read: F,
) -> (out: Result<Vec<i32>, ProcessListError>)
    requires
        bytes > 0 ==> forall|capacity: usize|
            capacity_asked(read, first_list_capacity(bytes), capacity) ==> #[trigger] call_requires(
                read,
                (capacity,),
            ),
    ensures
        bytes <= 0 ==> (out matches Err(ProcessListError::Read(e)) && e@
            == "unable to size the native process list"@),
        bytes > 0 ==> exists|k: int|
            #[trigger] list_outcome(read, first_list_capacity(bytes), k, out),
{
    if bytes <= 0 {
        return Err(ProcessListError::Read("unable to size the native process list".to_owned()));
    }
    let capacity: usize = (bytes as usize - 1) / PID_SIZE + 1 + PROC_LIST_INITIAL_SLACK;
    assert(capacity == first_list_capacity(bytes));
    native_process_ids_with_reader(capacity, read)
}

// ---------------------------------------------------------------------------
// The processes of the trusted bundles
// ---------------------------------------------------------------------------

/// The trusted bundle may have been found where it belongs.
pub open spec fn location_found<L: Fn(&NativePath) -> Result<bool, String>>(
    location_usable: L,
) -> bool {
    exists|at: NativePath|
        at@ == trusted_location() && #[trigger] call_ensures(
            location_usable,
            (&at,),
            Ok::<bool, String>(true),
        )
}

/// What a list of the running processes of the application may come to. The
/// processes are listed only where a trusted bundle stands.
pub open spec fn enumerated<
    L: Fn(&NativePath) -> Result<bool, String>,
    N: FnOnce() -> Result<Vec<i32>, String>,
    F: Fn(i32) -> Result<Option<NativePath>, String>,
>(
    app_name: Seq<char>,
    location_usable: L,
    list: N,
    executable_path: F,
    out: Result<Vec<ProcessIdentity>, IdentityError>,
) -> bool {
    if !supported_app(app_name) {
        out == Err::<Vec<ProcessIdentity>, IdentityError>(IdentityError::Unsupported)
    } else {
        exists|at: NativePath, usable: Result<bool, String>|
            {
                &&& at@ == trusted_location()
                &&& #[trigger] call_ensures(location_usable, (&at,), usable)
                &&& match usable {
                    Err(e) => out == Err::<Vec<ProcessIdentity>, IdentityError>(
                        IdentityError::Check(e),
                    ),
                    Ok(false) => out matches Ok(found) && found@.len() == 0,
                    Ok(true) => exists|listed: Result<Vec<i32>, String>|
                        {
                            &&& #[trigger] call_ensures(list, (), listed)
                            &&& match listed {
                                Err(e) => out == Err::<Vec<ProcessIdentity>, IdentityError>(
                                    IdentityError::Check(e),
                                ),
                                Ok(pids) => {
                                    &&& lookup_outcome(
                                        pids@,
                                        seq![trusted_location()],
                                        MICROSOFT_REMOTE_DESKTOP_BUNDLE_ID@,
                                        executable_path,
                                        out,
                                    )
                                    &&& forall|lookup: PathLookup| #[trigger]
                                        lookup_answers(executable_path, lookup) ==> identities_view(
                                            out,
                                        ) == identities(
                                            pids@,
                                            seq![trusted_location()],
                                            MICROSOFT_REMOTE_DESKTOP_BUNDLE_ID@,
                                            lookup,
                                        )
                                },
                            }
                        },
                }
            }
    }
}

/// The running processes whose executable is the main one of a trusted bundle.
pub fn enumerate_processes<
    L: Fn(&NativePath) -> Result<bool, String>,
    N: FnOnce() -> Result<Vec<i32>, String>,
    F: Fn(i32) -> Result<Option<NativePath>, String>,
>(app_name: &str, location_usable: &L, list: N, executable_path: F) -> (out: Result<
    Vec<ProcessIdentity>,
    IdentityError,
>)
    requires
        supported_app(app_name@) ==> forall|path: &NativePath|
            path@ == trusted_location() ==> #[trigger] call_requires(*location_usable, (path,)),
        supported_app(app_name@) && location_found(*location_usable) ==> call_requires(list, ()),
        supported_app(app_name@) && location_found(*location_usable) ==> forall|
            pids: Vec<i32>,
            pid: i32,
        |
            #[trigger] call_ensures(list, (), Ok::<Vec<i32>, String>(pids)) && lookup_asked(
                pids@,
                executable_path,
                pid,
            ) ==> #[trigger] call_requires(executable_path, (pid,)),
    ensures
        enumerated(app_name@, *location_usable, list, executable_path, out),
{
    let identity: TrustedIdentity = match trusted_identity(app_name) {
        Some(identity) => identity,
        None => {
            return Err(IdentityError::Unsupported);
        },
    };
    let candidates: Vec<NativePath> = trusted_bundle_candidates(app_name);
    assert(paths_view(candidates@) =~= seq![trusted_location()]);
    assert(paths_view(candidates@)[0] == candidates@[0]@);
    let usable: Result<bool, String> = location_usable(&candidates[0]);
    assert(call_ensures(*location_usable, (&candidates@[0],), usable));
    match usable {
        Err(e) => {
            return Err(IdentityError::Check(e));
        },
        Ok(false) => {
            return Ok(Vec::new());
        },
        Ok(true) => {},
    }
    match list() {
        Err(e) => Err(IdentityError::Check(e)),
        Ok(pids) => process_identities_from_pids(&pids, &candidates, identity, executable_path),
    }
}

/// What the processes of the application may come to: the trusted ones among
/// those that `enumerated` allows.
pub open spec fn all_trusted<
    L: Fn(&NativePath) -> Result<bool, String>,
    N: FnOnce() -> Result<Vec<i32>, String>,
    F: Fn(i32) -> Result<Option<NativePath>, String>,
    V: Fn(i32, &NativePath, TrustedIdentity) -> Result<bool, String>,
>(
    app_name: Seq<char>,
    location_usable: L,
    list: N,
    executable_path: F,
    verify_process: V,
    out: Result<Vec<TrustedProcessInfo>, IdentityError>,
) -> bool {
    exists|found: Result<Vec<ProcessIdentity>, IdentityError>|
        {
            &&& #[trigger] enumerated(app_name, location_usable, list, executable_path, found)
            &&& match found {
                Err(e) => out == Err::<Vec<TrustedProcessInfo>, IdentityError>(e),
                Ok(processes) => {
                    &&& judged_outcome(processes.deep_view(), location_usable, verify_process, out)
                    &&& forall|usable: PathCheck, verified: ProcessCheck|
                        #[trigger] location_answers(location_usable, usable)
                            && #[trigger] verifier_answers(verify_process, verified) ==> infos_view(
                            out,
                        ) == trusted_infos(processes.deep_view(), usable, verified)
                },
            }
        }
}

/// The trusted processes of the application.
pub fn trusted_process_infos<
    L: Fn(&NativePath) -> Result<bool, String>,
    N: FnOnce() -> Result<Vec<i32>, String>,
    F: Fn(i32) -> Result<Option<NativePath>, String>,
    V: Fn(i32, &NativePath, TrustedIdentity) -> Result<bool, String>,
>(
    app_name: &str,
    location_usable: L,
    list: N,
    executable_path: F,
    verify_process: V,
) -> (out: Result<Vec<TrustedProcessInfo>, IdentityError>)
    requires
        supported_app(app_name@) ==> forall|path: &NativePath|
            path@ == trusted_location() ==> #[trigger] call_requires(location_usable, (path,)),
        supported_app(app_name@) && location_found(location_usable) ==> call_requires(list, ()),
        supported_app(app_name@) && location_found(location_usable) ==> forall|
            pids: Vec<i32>,
            pid: i32,
        |
            #[trigger] call_ensures(list, (), Ok::<Vec<i32>, String>(pids)) && lookup_asked(
                pids@,
                executable_path,
                pid,
            ) ==> #[trigger] call_requires(executable_path, (pid,)),
        supported_app(app_name@) ==> forall|
            found: Vec<ProcessIdentity>,
            pid: i32,
            path: &NativePath,
            identity: TrustedIdentity,
        |
            #[trigger] enumerated(
                app_name@,
                location_usable,
                list,
                executable_path,
                Ok::<Vec<ProcessIdentity>, IdentityError>(found),
            ) && verifier_asked(
                found.deep_view(),
                location_usable,
                verify_process,
                pid,
                path,
                identity,
            ) ==> #[trigger] call_requires(verify_process, (pid, path, identity)),
    ensures
        all_trusted(app_name@, location_usable, list, executable_path, verify_process, out),
        out is Ok ==> forall|i: int|
            0 <= i < out->Ok_0.deep_view().len() ==> info_at_trusted_location(
                #[trigger] out->Ok_0.deep_view()[i],
            ),
{
    let found: Result<Vec<ProcessIdentity>, IdentityError> = enumerate_processes(
        app_name,
        &location_usable,
        list,
        executable_path,
    );
    let ghost listed = found;
    assert(enumerated(app_name@, location_usable, list, executable_path, listed));
    match found {
        Err(e) => Err(e),
        Ok(processes) => {
            assert(supported_app(app_name@));
            trusted_process_infos_from_identities(
                app_name,
                &processes,
                location_usable,
                verify_process,
            )
        },
    }
}

// ---------------------------------------------------------------------------
// One process
// ---------------------------------------------------------------------------

pub open spec fn info_view(
    r: Result<Option<TrustedProcessInfo>, IdentityError>,
) -> Result<Option<TrustedInfoView>, Seq<char>> {
    match r {
        Ok(Some(info)) => Ok(Some(info.deep_view())),
        Ok(None) => Ok(None),
        Err(IdentityError::Check(e)) => Err(e@),
        Err(_) => Err(Seq::empty()),
    }
}

/// What one process of a trusted bundle comes to.
pub open spec fn one_trusted(
    p: ProcessIdentityView,
    usable: PathCheck,
    verified: ProcessCheck,
) -> Result<Option<TrustedInfoView>, Seq<char>> {
    match process_verdict(p, usable, verified) {
        Err(e) => Err(e),
        Ok(true) => Ok(Some(trusted_info(p))),
        Ok(false) => Ok(None),
    }
}

/// The process with the id `pid`, where its executable is the main one of a bundle.
pub open spec fn process_at(
    app_name: Seq<char>,
    pid: i32,
    executable: Result<Option<NativePath>, String>,
) -> Seq<ProcessIdentityView> {
    match executable {
        Ok(Some(path)) => match bundle_of_main(path@) {
            Some(bundle_path) if supported_app(app_name) => seq![
                ProcessIdentityView {
                    pid,
                    bundle_id: MICROSOFT_REMOTE_DESKTOP_BUNDLE_ID@,
                    bundle_path,
                },
            ],
            _ => Seq::empty(),
        },
        _ => Seq::empty(),
    }
}

/// The trusted process with the id `pid`, given where its executable stands. A
/// process that is gone, or that is no main executable of a bundle, is none.
pub fn trusted_process_info_for_pid<
    L: Fn(&NativePath) -> Result<bool, String>,
    V: Fn(i32, &NativePath, TrustedIdentity) -> Result<bool, String>,
>(
    app_name: &str,
    pid: i32,
    executable: Result<Option<NativePath>, String>,
    location_usable: L,
    verify_process: V,
) -> (out: Result<Option<TrustedProcessInfo>, IdentityError>)
    requires
        forall|path: &NativePath|
            location_asked(
                process_at(app_name@, pid, executable),
                location_usable,
                verify_process,
                path@,
            ) ==> #[trigger] call_requires(location_usable, (path,)),
        forall|id: i32, path: &NativePath, identity: TrustedIdentity|
            verifier_asked(
                process_at(app_name@, pid, executable),
                location_usable,
                verify_process,
                id,
                path,
                identity,
            ) ==> #[trigger] call_requires(verify_process, (id, path, identity)),
    ensures
        match executable {
            Err(cause) => out == Err::<Option<TrustedProcessInfo>, IdentityError>(
                IdentityError::PathLookup { pid, cause },
            ),
            Ok(None) => out == Ok::<Option<TrustedProcessInfo>, IdentityError>(None),
            Ok(Some(path)) => match bundle_of_main(path@) {
                None => out == Ok::<Option<TrustedProcessInfo>, IdentityError>(None),
                Some(bundle) => if !supported_app(app_name@) {
                    out == Err::<Option<TrustedProcessInfo>, IdentityError>(
                        IdentityError::Unsupported,
                    )
                } else {
                    &&& exists|verdict: Result<bool, String>|
                        {
                            &&& #[trigger] may_judge(
                                process_at(app_name@, pid, executable)[0],
                                location_usable,
                                verify_process,
                                verdict,
                            )
                            &&& match verdict {
                                Err(e) => out == Err::<Option<TrustedProcessInfo>, IdentityError>(
                                    IdentityError::Check(e),
                                ),
                                Ok(true) => out matches Ok(Some(info)) && info.deep_view()
                                    == trusted_info(process_at(app_name@, pid, executable)[0]),
                                Ok(false) => out == Ok::<Option<TrustedProcessInfo>, IdentityError>(
                                    None,
                                ),
                            }
                        }
                    &&& out matches Ok(Some(info)) ==> info_at_trusted_location(info.deep_view())
                    &&& forall|usable: PathCheck, verified: ProcessCheck|
                        #[trigger] location_answers(location_usable, usable)
                            && #[trigger] verifier_answers(verify_process, verified) ==> info_view(
                            out,
                        ) == one_trusted(
                            (ProcessIdentityView {
                                pid,
                                bundle_id: MICROSOFT_REMOTE_DESKTOP_BUNDLE_ID@,
                                bundle_path: bundle,
                            }),
                            usable,
                            verified,
                        )
                },
            },
        },
{
    let path: NativePath = match executable {
        Err(cause) => {
            return Err(IdentityError::PathLookup { pid, cause });
        },
        Ok(None) => {
            return Ok(None);
        },
        Ok(Some(path)) => path,
    };
    let bundle_path: NativePath = match containing_app_bundle_for_direct_main_executable(&path) {
        Some(bundle) => bundle,
        None => {
            return Ok(None);
        },
    };
    let identity: TrustedIdentity = match trusted_identity(app_name) {
        Some(identity) => identity,
        None => {
            return Err(IdentityError::Unsupported);
        },
    };
    let mut processes: Vec<ProcessIdentity> = Vec::new();
    processes.push(ProcessIdentity { pid, bundle_id: identity.bundle_id.to_owned(), bundle_path });
    let ghost p = processes@[0].deep_view();
    assert(processes.deep_view() =~= process_at(app_name@, pid, executable));
    let found: Result<Vec<TrustedProcessInfo>, IdentityError> =
        trusted_process_infos_from_identities(
        app_name,
        &processes,
        location_usable,
        verify_process,
    );
    proof {
        assert(processes.deep_view() =~= seq![p]);
        assert(seq![p].drop_last() =~= Seq::<ProcessIdentityView>::empty());
        assert forall|usable: PathCheck, verified: ProcessCheck|
            #[trigger] location_answers(location_usable, usable) && #[trigger] verifier_answers(
                verify_process,
                verified,
            ) implies infos_view(found) == (match one_trusted(p, usable, verified) {
            Err(e) => Err(e),
            Ok(Some(info)) => Ok(seq![info]),
            Ok(None) => Ok(Seq::empty()),
        }) by {
            reveal_with_fuel(trusted_infos, 2);
            assert(Seq::<TrustedInfoView>::empty().push(trusted_info(p)) =~= seq![trusted_info(p)]);
        }
    }
    let ghost answer = infos_view(found);
    let ghost verdicts = choose|verdicts: Seq<Result<bool, String>>|
        {
            &&& #[trigger] all_judged(seq![p], location_usable, verify_process, verdicts)
            &&& match found {
                Ok(infos) => {
                    &&& verdicts.len() == 1
                    &&& none_failed(verdicts)
                    &&& infos.deep_view() == vouched(seq![p], verdicts)
                },
                Err(IdentityError::Check(e)) => {
                    &&& verdicts.len() > 0
                    &&& none_failed(verdicts.drop_last())
                    &&& verdicts.last() == Err::<bool, String>(e)
                },
                Err(_) => false,
            }
        };
    proof {
        reveal_with_fuel(vouched, 2);
        assert(may_judge(seq![p][0], location_usable, verify_process, verdicts[0]));
    }
    let out: Result<Option<TrustedProcessInfo>, IdentityError> = match found {
        Err(e) => Err(e),
        Ok(infos) => {
            let mut infos: Vec<TrustedProcessInfo> = infos;
            let ghost all = infos.deep_view();
            assert(answer == Ok::<Seq<TrustedInfoView>, Seq<char>>(all));
            if infos.len() == 0 {
                Ok(None)
            } else {
                let info: TrustedProcessInfo = infos.remove(0);
                assert(all[0] == info.deep_view());
                Ok(Some(info))
            }
        },
    };
    proof {
        assert forall|usable: PathCheck, verified: ProcessCheck|
            #[trigger] location_answers(location_usable, usable) && #[trigger] verifier_answers(
                verify_process,
                verified,
            ) implies info_view(out) == one_trusted(p, usable, verified) by {
            assert(seq![trusted_info(p)][0] == trusted_info(p));
        }
    }
    out
}

// ---------------------------------------------------------------------------
// The requirement of a bundle
// ---------------------------------------------------------------------------

/// The requirement in the form that the signing tool takes: its source, marked as
/// source.
pub fn designated_requirement(bundle_id: &str, team_id: &str) -> (out: Result<
    String,
    RequirementError,
>)
    ensures
        match requirement_source(bundle_id@, team_id@) {
            Ok(source) => out matches Ok(text) && text@ == "="@ + source,
            Err(e) => out == Err::<String, RequirementError>(e),
        },
{
    match code_sign_requirement_source(bundle_id, team_id) {
        Ok(source) => {
            let mut out: String = "=".to_owned();
            out.append(source.as_str());
            Ok(out)
        },
        Err(e) => Err(e),
    }
}

} // verus!
