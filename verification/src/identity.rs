//! Which running processes are the trusted application: where its bundle stands,
//! which executable is its main one, and the code-signing requirement that the
//! live process has to meet.

#[allow(unused_imports)]
use crate::native_path::{bundle_of_main, containing_bundle, PathView};
use crate::native_path::{
    containing_app_bundle, containing_app_bundle_for_direct_main_executable, NativePath,
};
#[allow(unused_imports)]
use crate::text::{ascii_alphanumeric, decimal, trimmed};
use crate::text::{decimal_of, equals, is_ascii_alphanumeric, same_text, to_chars, to_text, trim};
use vstd::prelude::*;
#[allow(unused_imports)]
use vstd::string::StringExecFns;

verus! {

pub const MICROSOFT_REMOTE_DESKTOP_BUNDLE_ID: &'static str = "com.microsoft.rdc.macos";

pub const MICROSOFT_TEAM_ID: &'static str = "UBF8T346G9";

pub const PROC_LIST_GROWTH_ATTEMPTS: usize = 8;

/// The size of a process id in a process list, in bytes.
pub const PID_SIZE: usize = 4;

/// The identity that a trusted application signs with.
#[derive(Debug, Clone, Copy)]
pub struct TrustedIdentity {
    pub bundle_id: &'static str,
    pub team_id: &'static str,
}

/// A process and the bundle that it runs from.
#[derive(Debug, Clone)]
pub struct ProcessIdentity {
    pub pid: i32,
    pub bundle_id: String,
    pub bundle_path: NativePath,
}

/// A process that has proved to be the trusted application.
#[derive(Debug, Clone)]
pub struct TrustedProcessInfo {
    pub pid: i32,
    pub bundle_id: String,
    pub bundle_path: NativePath,
    pub team_id: &'static str,
}

#[verifier::ext_equal]
pub struct ProcessIdentityView {
    pub pid: i32,
    pub bundle_id: Seq<char>,
    pub bundle_path: PathView,
}

#[verifier::ext_equal]
pub struct TrustedInfoView {
    pub pid: i32,
    pub bundle_id: Seq<char>,
    pub bundle_path: PathView,
    pub team_id: Seq<char>,
}

impl DeepView for ProcessIdentity {
    type V = ProcessIdentityView;

    open spec fn deep_view(&self) -> ProcessIdentityView {
        ProcessIdentityView {
            pid: self.pid,
            bundle_id: self.bundle_id@,
            bundle_path: self.bundle_path@,
        }
    }
}

impl DeepView for TrustedProcessInfo {
    type V = TrustedInfoView;

    open spec fn deep_view(&self) -> TrustedInfoView {
        TrustedInfoView {
            pid: self.pid,
            bundle_id: self.bundle_id@,
            bundle_path: self.bundle_path@,
            team_id: self.team_id@,
        }
    }
}

impl TrustedProcessInfo {
    /// A copy.
    pub fn duplicate(&self) -> (out: Self)
        ensures
            out.deep_view() == self.deep_view(),
    {
        TrustedProcessInfo {
            pid: self.pid,
            bundle_id: self.bundle_id.clone(),
            bundle_path: self.bundle_path.duplicate(),
            team_id: self.team_id,
        }
    }

    /// Whether this is the same process from the same signed bundle.
    pub fn same(&self, other: &TrustedProcessInfo) -> (r: bool)
        ensures
            r == (self.deep_view() == other.deep_view()),
    {
        self.pid == other.pid && same_text(self.bundle_id.as_str(), other.bundle_id.as_str())
            && self.bundle_path.same(&other.bundle_path) && same_text(self.team_id, other.team_id)
    }
}

/// Why the trusted processes are not known.
#[derive(Debug, Clone, PartialEq, Eq)]
pub enum IdentityError {
    /// The application has no trusted identity.
    Unsupported,
    /// A check failed, for the reason given.
    Check(String),
    /// The executable of a process could not be looked up.
    PathLookup { pid: i32, cause: String },
}

/// The application that there is a trusted identity for.
pub open spec fn supported_app(app_name: Seq<char>) -> bool {
    trimmed(app_name) == "Windows App"@
}

fn is_supported_app(app_name: &str) -> (r: bool)
    ensures
        r == supported_app(app_name@),
{
    let chars: Vec<char> = to_chars(app_name);
    equals(trim(&chars), "Windows App")
}

/// The trusted identity of an application.
pub fn trusted_identity(app_name: &str) -> (out: Option<TrustedIdentity>)
    ensures
        out is Some <==> supported_app(app_name@),
        out is Some ==> out->0.bundle_id@ == MICROSOFT_REMOTE_DESKTOP_BUNDLE_ID@
            && out->0.team_id@ == MICROSOFT_TEAM_ID@,
{
    if is_supported_app(app_name) {
        Some(
            TrustedIdentity {
                bundle_id: MICROSOFT_REMOTE_DESKTOP_BUNDLE_ID,
                team_id: MICROSOFT_TEAM_ID,
            },
        )
    } else {
        None
    }
}

/// `/Applications/Windows App.app`
pub open spec fn trusted_location() -> PathView {
    PathView {
        absolute: true,
        parts: seq![
            seq![65u8, 112, 112, 108, 105, 99, 97, 116, 105, 111, 110, 115],
            seq![87u8, 105, 110, 100, 111, 119, 115, 32, 65, 112, 112, 46, 97, 112, 112],
        ],
    }
}

/// The places where the trusted bundle may stand.
pub open spec fn bundle_candidates(app_name: Seq<char>) -> Seq<PathView> {
    if supported_app(app_name) {
        seq![trusted_location()]
    } else {
        Seq::empty()
    }
}

pub open spec fn paths_view(paths: Seq<NativePath>) -> Seq<PathView> {
    Seq::new(paths.len(), |i: int| paths[i]@)
}

fn trusted_location_path() -> (out: NativePath)
    ensures
        out@ == trusted_location(),
{
    let applications: Vec<u8> = vec![65, 112, 112, 108, 105, 99, 97, 116, 105, 111, 110, 115];
    let bundle: Vec<u8> = vec![87, 105, 110, 100, 111, 119, 115, 32, 65, 112, 112, 46, 97, 112, 112];
    assert(applications@ =~= trusted_location().parts[0]);
    assert(bundle@ =~= trusted_location().parts[1]);
    let parts: Vec<Vec<u8>> = vec![applications, bundle];
    let out: NativePath = NativePath { absolute: true, parts };
    assert(out@.parts =~= trusted_location().parts);
    out
}

/// `bundle_candidates`, computed.
pub fn trusted_bundle_candidates(app_name: &str) -> (out: Vec<NativePath>)
    ensures
        paths_view(out@) == bundle_candidates(app_name@),
{
    let mut out: Vec<NativePath> = Vec::new();
    if is_supported_app(app_name) {
        out.push(trusted_location_path());
    }
    assert(paths_view(out@) =~= bundle_candidates(app_name@));
    out
}

// ---------------------------------------------------------------------------
// What a path leads over
// ---------------------------------------------------------------------------

/// What the file system says of one path.
#[derive(Debug, Clone, Copy, PartialEq, Eq, Structural)]
pub enum PathFact {
    Missing,
    Unreadable,
    Symlink,
    Directory,
    Other,
}

/// Whether a path leads over a symbolic link, of whose components `facts` speak
/// in order; `None` where one that has to be looked at cannot be.
pub open spec fn leads_over_symlink(facts: Seq<PathFact>) -> Option<bool>
    decreases facts.len(),
{
    if facts.len() == 0 {
        Some(false)
    } else {
        match facts.first() {
            PathFact::Missing | PathFact::Unreadable => None,
            PathFact::Symlink => Some(true),
            _ => leads_over_symlink(facts.drop_first()),
        }
    }
}

/// `leads_over_symlink`, computed.
pub fn path_has_symlink_component_checked(facts: &[PathFact]) -> (out: Option<bool>)
    ensures
        out == leads_over_symlink(facts@),
{
    let mut i: usize = 0;
    assert(facts@.skip(0) =~= facts@);
    while i < facts.len()
        invariant
            i <= facts@.len(),
            leads_over_symlink(facts@) == leads_over_symlink(facts@.skip(i as int)),
        decreases facts@.len() - i,
    {
        assert(facts@.skip(i as int).drop_first() =~= facts@.skip(i + 1));
        match facts[i] {
            PathFact::Missing => {
                return None;
            },
            PathFact::Unreadable => {
                return None;
            },
            PathFact::Symlink => {
                return Some(true);
            },
            _ => {},
        }
        i += 1;
    }
    Some(false)
}

/// Whether a path is to be treated as leading over a symbolic link: one that
/// cannot be looked at is.
pub fn path_has_symlink_component(facts: &[PathFact]) -> (r: bool)
    ensures
        r == (leads_over_symlink(facts@) != Some(false)),
{
    match path_has_symlink_component_checked(facts) {
        Some(r) => r,
        None => true,
    }
}

/// Whether a bundle may be used that stands where `own` says, by way of
/// `components`: it has to be a directory that no symbolic link leads to. A
/// bundle that is not there may not; of one that cannot be looked at nothing is
/// known.
pub open spec fn bundle_usable(own: PathFact, components: Seq<PathFact>) -> Option<bool> {
    match own {
        PathFact::Missing => Some(false),
        PathFact::Unreadable => None,
        PathFact::Directory => match leads_over_symlink(components) {
            Some(over) => Some(!over),
            None => None,
        },
        _ => Some(false),
    }
}

/// `bundle_usable`, computed.
pub fn trusted_bundle_candidate_is_usable(own: PathFact, components: &[PathFact]) -> (out: Option<
    bool,
>)
    ensures
        out == bundle_usable(own, components@),
{
    match own {
        PathFact::Missing => Some(false),
        PathFact::Unreadable => None,
        PathFact::Directory => match path_has_symlink_component_checked(components) {
            Some(over) => Some(!over),
            None => None,
        },
        _ => Some(false),
    }
}

// ---------------------------------------------------------------------------
// Trusted processes
// ---------------------------------------------------------------------------

/// What a check says of a bundle path.
pub type PathCheck = spec_fn(PathView) -> Result<bool, Seq<char>>;

/// What a check says of a process and its bundle path.
pub type ProcessCheck = spec_fn(i32, PathView) -> Result<bool, Seq<char>>;

pub open spec fn check_view(r: Result<bool, String>) -> Result<bool, Seq<char>> {
    match r {
        Ok(b) => Ok(b),
        Err(e) => Err(e@),
    }
}

/// The location check always answers as `check` says.
pub open spec fn location_answers<L: Fn(&NativePath) -> Result<bool, String>>(
    location_usable: L,
    check: PathCheck,
) -> bool {
    forall|path: NativePath, r: Result<bool, String>| #[trigger]
        call_ensures(location_usable, (&path,), r) ==> check_view(r) == check(path@)
}

/// The identity that the trusted bundle is signed under.
pub open spec fn microsoft_identity(identity: TrustedIdentity) -> bool {
    &&& identity.bundle_id@ == MICROSOFT_REMOTE_DESKTOP_BUNDLE_ID@
    &&& identity.team_id@ == MICROSOFT_TEAM_ID@
}

/// The verifier always answers as `check` says where it is asked for the trusted
/// identity.
pub open spec fn verifier_answers<
    V: Fn(i32, &NativePath, TrustedIdentity) -> Result<bool, String>,
>(verify_process: V, check: ProcessCheck) -> bool {
    forall|pid: i32, path: NativePath, identity: TrustedIdentity, r: Result<bool, String>|
        #[trigger]
        call_ensures(verify_process, (pid, &path, identity), r) && microsoft_identity(identity)
            ==> check_view(r) == check(pid, path@)
}

/// A process that is looked at: it has the trusted bundle id and location.
pub open spec fn candidate_process(p: ProcessIdentityView) -> bool {
    p.bundle_id == MICROSOFT_REMOTE_DESKTOP_BUNDLE_ID@ && p.bundle_path == trusted_location()
}

/// `verdict` is what the checks may say of one process. The location is looked at
/// first, and the verifier is asked for the trusted identity.
pub open spec fn may_judge<
    L: Fn(&NativePath) -> Result<bool, String>,
    V: Fn(i32, &NativePath, TrustedIdentity) -> Result<bool, String>,
>(
    p: ProcessIdentityView,
    location_usable: L,
    verify_process: V,
    verdict: Result<bool, String>,
) -> bool {
    if !candidate_process(p) {
        verdict == Ok::<bool, String>(false)
    } else {
        exists|path: NativePath, usable: Result<bool, String>|
            {
                &&& path@ == trusted_location()
                &&& #[trigger] call_ensures(location_usable, (&path,), usable)
                &&& match usable {
                    Ok(true) => exists|identity: TrustedIdentity|
                        microsoft_identity(identity) && #[trigger] call_ensures(
                            verify_process,
                            (p.pid, &path, identity),
                            verdict,
                        ),
                    _ => verdict == usable,
                }
            }
    }
}

/// The checks may say `verdicts` of the first processes, one after another.
pub open spec fn all_judged<
    L: Fn(&NativePath) -> Result<bool, String>,
    V: Fn(i32, &NativePath, TrustedIdentity) -> Result<bool, String>,
>(
    ps: Seq<ProcessIdentityView>,
    location_usable: L,
    verify_process: V,
    verdicts: Seq<Result<bool, String>>,
) -> bool {
    &&& verdicts.len() <= ps.len()
    &&& forall|j: int|
        0 <= j < verdicts.len() ==> may_judge(
            ps[j],
            location_usable,
            verify_process,
            #[trigger] verdicts[j],
        )
}

pub open spec fn none_failed<T>(answers: Seq<Result<T, String>>) -> bool {
    forall|j: int| 0 <= j < answers.len() ==> #[trigger] answers[j] is Ok
}

/// The checks may have got as far as process `i`, which is one to be looked at.
pub open spec fn judging<
    L: Fn(&NativePath) -> Result<bool, String>,
    V: Fn(i32, &NativePath, TrustedIdentity) -> Result<bool, String>,
>(ps: Seq<ProcessIdentityView>, location_usable: L, verify_process: V, i: int) -> bool {
    &&& 0 <= i < ps.len()
    &&& candidate_process(ps[i])
    &&& exists|verdicts: Seq<Result<bool, String>>|
        {
            &&& verdicts.len() == i
            &&& none_failed(verdicts)
            &&& #[trigger] all_judged(ps, location_usable, verify_process, verdicts)
        }
}

/// When a path may be looked at: it is the trusted location, and it is the turn of
/// a process there.
pub open spec fn location_asked<
    L: Fn(&NativePath) -> Result<bool, String>,
    V: Fn(i32, &NativePath, TrustedIdentity) -> Result<bool, String>,
>(ps: Seq<ProcessIdentityView>, location_usable: L, verify_process: V, path: PathView) -> bool {
    path == trusted_location() && exists|i: int| #[trigger]
        judging(ps, location_usable, verify_process, i)
}

/// When a process may be verified: it is its turn, its location was found usable,
/// and it is asked about under the trusted identity.
pub open spec fn verifier_asked<
    L: Fn(&NativePath) -> Result<bool, String>,
    V: Fn(i32, &NativePath, TrustedIdentity) -> Result<bool, String>,
>(
    ps: Seq<ProcessIdentityView>,
    location_usable: L,
    verify_process: V,
    pid: i32,
    path: &NativePath,
    identity: TrustedIdentity,
) -> bool {
    &&& path@ == trusted_location()
    &&& microsoft_identity(identity)
    &&& call_ensures(location_usable, (path,), Ok::<bool, String>(true))
    &&& exists|i: int| #[trigger]
        judging(ps, location_usable, verify_process, i) && ps[i].pid == pid
}

/// The processes that were vouched for, in order.
pub open spec fn vouched(
    ps: Seq<ProcessIdentityView>,
    verdicts: Seq<Result<bool, String>>,
) -> Seq<TrustedInfoView>
    decreases verdicts.len(),
{
    if verdicts.len() == 0 {
        Seq::empty()
    } else {
        let before = vouched(ps, verdicts.drop_last());
        if verdicts.last() == Ok::<bool, String>(true) {
            before.push(trusted_info(ps[verdicts.len() - 1]))
        } else {
            before
        }
    }
}

/// What the checks may make of `ps`, whatever they answer: the processes that were
/// vouched for, or the first error.
pub open spec fn judged_outcome<
    L: Fn(&NativePath) -> Result<bool, String>,
    V: Fn(i32, &NativePath, TrustedIdentity) -> Result<bool, String>,
>(
    ps: Seq<ProcessIdentityView>,
    location_usable: L,
    verify_process: V,
    out: Result<Vec<TrustedProcessInfo>, IdentityError>,
) -> bool {
    exists|verdicts: Seq<Result<bool, String>>|
        {
            &&& #[trigger] all_judged(ps, location_usable, verify_process, verdicts)
            &&& match out {
                Ok(infos) => {
                    &&& verdicts.len() == ps.len()
                    &&& none_failed(verdicts)
                    &&& infos.deep_view() == vouched(ps, verdicts)
                },
                Err(IdentityError::Check(e)) => {
                    &&& verdicts.len() > 0
                    &&& none_failed(verdicts.drop_last())
                    &&& verdicts.last() == Err::<bool, String>(e)
                },
                Err(_) => false,
            }
        }
}

/// What comes of one process: whether it is trusted, or the error of the check
/// that could not be made. A process outside the trusted location is not even
/// verified.
pub open spec fn process_verdict(
    p: ProcessIdentityView,
    usable: PathCheck,
    verified: ProcessCheck,
) -> Result<bool, Seq<char>> {
    if p.bundle_id != MICROSOFT_REMOTE_DESKTOP_BUNDLE_ID@ || p.bundle_path != trusted_location() {
        Ok(false)
    } else {
        match usable(p.bundle_path) {
            Err(e) => Err(e),
            Ok(false) => Ok(false),
            Ok(true) => verified(p.pid, p.bundle_path),
        }
    }
}

pub open spec fn trusted_info(p: ProcessIdentityView) -> TrustedInfoView {
    TrustedInfoView {
        pid: p.pid,
        bundle_id: p.bundle_id,
        bundle_path: p.bundle_path,
        team_id: MICROSOFT_TEAM_ID@,
    }
}

/// The trusted ones among `ps`, in order, or the error of the first check that
/// could not be made.
pub open spec fn trusted_infos(
    ps: Seq<ProcessIdentityView>,
    usable: PathCheck,
    verified: ProcessCheck,
) -> Result<Seq<TrustedInfoView>, Seq<char>>
    decreases ps.len(),
{
    if ps.len() == 0 {
        Ok(Seq::empty())
    } else {
        match trusted_infos(ps.drop_last(), usable, verified) {
            Err(e) => Err(e),
            Ok(infos) => match process_verdict(ps.last(), usable, verified) {
                Err(e) => Err(e),
                Ok(true) => Ok(infos.push(trusted_info(ps.last()))),
                Ok(false) => Ok(infos),
            },
        }
    }
}

pub open spec fn infos_view(
    r: Result<Vec<TrustedProcessInfo>, IdentityError>,
) -> Result<Seq<TrustedInfoView>, Seq<char>> {
    match r {
        Ok(infos) => Ok(infos.deep_view()),
        Err(IdentityError::Check(e)) => Err(e@),
        Err(_) => Err(Seq::empty()),
    }
}

/// A process that is reported as trusted stands at the trusted location under
/// the trusted identity.
pub open spec fn info_at_trusted_location(info: TrustedInfoView) -> bool {
    &&& info.bundle_id == MICROSOFT_REMOTE_DESKTOP_BUNDLE_ID@
    &&& info.bundle_path == trusted_location()
    &&& info.team_id == MICROSOFT_TEAM_ID@
}

/// The trusted ones among `processes`: each stands at the trusted location,
/// which `location_usable` looks at, and `verify_process` vouches for it.
pub fn trusted_process_infos_from_identities<
    L: Fn(&NativePath) -> Result<bool, String>,
    V: Fn(i32, &NativePath, TrustedIdentity) -> Result<bool, String>,
>(
    app_name: &str,
    processes: &Vec<ProcessIdentity>,
    location_usable: L,
    verify_process: V,
) -> (out: Result<Vec<TrustedProcessInfo>, IdentityError>)
    requires
        supported_app(app_name@) ==> forall|path: &NativePath|
            location_asked(processes.deep_view(), location_usable, verify_process, path@)
                ==> #[trigger] call_requires(location_usable, (path,)),
        supported_app(app_name@) ==> forall|
            pid: i32,
            path: &NativePath,
            identity: TrustedIdentity,
        |
            verifier_asked(
                processes.deep_view(),
                location_usable,
                verify_process,
                pid,
                path,
                identity,
            ) ==> #[trigger] call_requires(verify_process, (pid, path, identity)),
    ensures
        out == Err::<Vec<TrustedProcessInfo>, IdentityError>(IdentityError::Unsupported) <==>
            !supported_app(app_name@),
        supported_app(app_name@) ==> judged_outcome(
            processes.deep_view(),
            location_usable,
            verify_process,
            out,
        ),
        out is Ok ==> forall|i: int|
            0 <= i < out->Ok_0.deep_view().len() ==> info_at_trusted_location(
                #[trigger] out->Ok_0.deep_view()[i],
            ),
        supported_app(app_name@) ==> forall|usable: PathCheck, verified: ProcessCheck|
            #[trigger] location_answers(location_usable, usable) && #[trigger] verifier_answers(
                verify_process,
                verified,
            ) ==> infos_view(out) == trusted_infos(processes.deep_view(), usable, verified),
{
    let identity: TrustedIdentity = match trusted_identity(app_name) {
        Some(identity) => identity,
        None => {
            return Err(IdentityError::Unsupported);
        },
    };
    let candidate: NativePath = trusted_location_path();
    let ghost all = processes.deep_view();
    let ghost mut verdicts: Seq<Result<bool, String>> = Seq::empty();
    let mut trusted: Vec<TrustedProcessInfo> = Vec::new();
    let mut i: usize = 0;
    assert(all.take(0) =~= Seq::<ProcessIdentityView>::empty());
    assert(trusted.deep_view() =~= Seq::<TrustedInfoView>::empty());
    while i < processes.len()
        invariant
            i <= processes@.len(),
            supported_app(app_name@),
            all == processes.deep_view(),
            candidate@ == trusted_location(),
            microsoft_identity(identity),
            forall|path: &NativePath|
                location_asked(all, location_usable, verify_process, path@)
                    ==> #[trigger] call_requires(location_usable, (path,)),
            forall|pid: i32, path: &NativePath, identity: TrustedIdentity|
                verifier_asked(all, location_usable, verify_process, pid, path, identity)
                    ==> #[trigger] call_requires(verify_process, (pid, path, identity)),
            verdicts.len() == i,
            none_failed(verdicts),
            all_judged(all, location_usable, verify_process, verdicts),
            trusted.deep_view() == vouched(all, verdicts),
            forall|j: int|
                0 <= j < trusted.deep_view().len() ==> info_at_trusted_location(
                    #[trigger] trusted.deep_view()[j],
                ),
            forall|usable: PathCheck, verified: ProcessCheck|
                #[trigger] location_answers(location_usable, usable) && #[trigger] verifier_answers(
                    verify_process,
                    verified,
                ) ==> trusted_infos(all.take(i as int), usable, verified) == Ok::<
                    Seq<TrustedInfoView>,
                    Seq<char>,
                >(trusted.deep_view()),
        decreases processes@.len() - i,
    {
        let process: &ProcessIdentity = &processes[i];
        let ghost before = trusted.deep_view();
        let ghost mut verdict: Result<bool, String> = Ok(false);
        proof {
            assert(all.take(i + 1).drop_last() =~= all.take(i as int));
            assert(all.take(i + 1).last() == process.deep_view());
            lemma_trusted_infos_error_stays(all, i + 1);
        }
        if same_text(process.bundle_id.as_str(), identity.bundle_id) && process.bundle_path.same(
            &candidate,
        ) {
            assert(judging(all, location_usable, verify_process, i as int));
            let usable: Result<bool, String> = location_usable(&process.bundle_path);
            proof {
                verdict = usable;
            }
            match usable {
                Err(e) => {
                    proof {
                        assert(may_judge(all[i as int], location_usable, verify_process, verdict));
                        let said = verdicts.push(verdict);
                        assert(said.drop_last() =~= verdicts);
                        assert(all_judged(all, location_usable, verify_process, said));
                        assert forall|usable: PathCheck, verified: ProcessCheck|
                            #[trigger] location_answers(location_usable, usable)
                                && #[trigger] verifier_answers(
                                verify_process,
                                verified,
                            ) implies trusted_infos(all.take(i + 1), usable, verified) == Err::<
                            Seq<TrustedInfoView>,
                            Seq<char>,
                        >(e@) by {}
                    }
                    return Err(IdentityError::Check(e));
                },
                Ok(false) => {},
                Ok(true) => match verify_process(process.pid, &process.bundle_path, identity) {
                    Err(e) => {
                        proof {
                            verdict = Err(e);
                            assert(may_judge(
                                all[i as int],
                                location_usable,
                                verify_process,
                                verdict,
                            ));
                            let said = verdicts.push(verdict);
                            assert(said.drop_last() =~= verdicts);
                            assert(all_judged(all, location_usable, verify_process, said));
                            assert forall|usable: PathCheck, verified: ProcessCheck|
                                #[trigger] location_answers(location_usable, usable)
                                    && #[trigger] verifier_answers(
                                    verify_process,
                                    verified,
                                ) implies trusted_infos(all.take(i + 1), usable, verified) == Err::<
                                Seq<TrustedInfoView>,
                                Seq<char>,
                            >(e@) by {}
                        }
                        return Err(IdentityError::Check(e));
                    },
                    Ok(false) => {
                        proof {
                            verdict = Ok(false);
                        }
                    },
                    Ok(true) => {
                        let info: TrustedProcessInfo = TrustedProcessInfo {
                            pid: process.pid,
                            bundle_id: process.bundle_id.clone(),
                            bundle_path: process.bundle_path.duplicate(),
                            team_id: identity.team_id,
                        };
                        assert(info.deep_view() == trusted_info(process.deep_view()));
                        trusted.push(info);
                        assert(trusted.deep_view() =~= before.push(info.deep_view()));
                    },
                },
            }
        }
        proof {
            assert(may_judge(all[i as int], location_usable, verify_process, verdict));
            let said = verdicts.push(verdict);
            assert(said.drop_last() =~= verdicts);
            verdicts = said;
        }
        i += 1;
    }
    assert(all.take(all.len() as int) =~= all);
    Ok(trusted)
}

/// An error among the first processes is the error of all.
proof fn lemma_trusted_infos_error_stays(ps: Seq<ProcessIdentityView>, n: int)
    requires
        0 <= n <= ps.len(),
    ensures
        forall|usable: PathCheck, verified: ProcessCheck|
            (#[trigger] trusted_infos(ps.take(n), usable, verified)) is Err ==> trusted_infos(
                ps,
                usable,
                verified,
            ) == trusted_infos(ps.take(n), usable, verified),
    decreases ps.len(),
{
    if n == ps.len() {
        assert(ps.take(n) =~= ps);
    } else {
        lemma_trusted_infos_error_stays(ps.drop_last(), n);
        assert(ps.drop_last().take(n) =~= ps.take(n));
    }
}

/// A process that is reported as trusted was one of those that were looked at, and
/// the verifier vouched for it under the trusted identity at the trusted location.
pub proof fn law_trusted_processes_were_verified<
    L: Fn(&NativePath) -> Result<bool, String>,
    V: Fn(i32, &NativePath, TrustedIdentity) -> Result<bool, String>,
>(
    ps: Seq<ProcessIdentityView>,
    location_usable: L,
    verify_process: V,
    out: Result<Vec<TrustedProcessInfo>, IdentityError>,
)
    requires
        judged_outcome(ps, location_usable, verify_process, out),
        out is Ok,
    ensures
        forall|i: int|
            0 <= i < out->Ok_0.deep_view().len() ==> verified_process(
                ps,
                location_usable,
                verify_process,
                #[trigger] out->Ok_0.deep_view()[i],
            ),
{
    let verdicts = choose|verdicts: Seq<Result<bool, String>>|
        {
            &&& #[trigger] all_judged(ps, location_usable, verify_process, verdicts)
            &&& verdicts.len() == ps.len()
            &&& out->Ok_0.deep_view() == vouched(ps, verdicts)
        };
    lemma_vouched_were_verified(ps, location_usable, verify_process, verdicts);
}

/// The process stands among `ps`, its location was found usable, and the verifier
/// vouched for it there under the trusted identity.
pub open spec fn verified_process<
    L: Fn(&NativePath) -> Result<bool, String>,
    V: Fn(i32, &NativePath, TrustedIdentity) -> Result<bool, String>,
>(
    ps: Seq<ProcessIdentityView>,
    location_usable: L,
    verify_process: V,
    info: TrustedInfoView,
) -> bool {
    &&& exists|j: int|
        0 <= j < ps.len() && candidate_process(#[trigger] ps[j]) && info == trusted_info(ps[j])
    &&& exists|path: NativePath, identity: TrustedIdentity|
        {
            &&& path@ == trusted_location()
            &&& microsoft_identity(identity)
            &&& call_ensures(location_usable, (&path,), Ok::<bool, String>(true))
            &&& #[trigger] call_ensures(
                verify_process,
                (info.pid, &path, identity),
                Ok::<bool, String>(true),
            )
        }
}

proof fn lemma_vouched_were_verified<
    L: Fn(&NativePath) -> Result<bool, String>,
    V: Fn(i32, &NativePath, TrustedIdentity) -> Result<bool, String>,
>(
    ps: Seq<ProcessIdentityView>,
    location_usable: L,
    verify_process: V,
    verdicts: Seq<Result<bool, String>>,
)
    requires
        all_judged(ps, location_usable, verify_process, verdicts),
    ensures
        forall|i: int|
            0 <= i < vouched(ps, verdicts).len() ==> verified_process(
                ps,
                location_usable,
                verify_process,
                #[trigger] vouched(ps, verdicts)[i],
            ),
    decreases verdicts.len(),
{
    if verdicts.len() > 0 {
        let n = verdicts.len() - 1;
        let before = verdicts.drop_last();
        assert forall|j: int| 0 <= j < before.len() implies may_judge(
            ps[j],
            location_usable,
            verify_process,
            #[trigger] before[j],
        ) by {
            assert(verdicts[j] == before[j]);
        }
        lemma_vouched_were_verified(ps, location_usable, verify_process, before);
        assert(forall|i: int|
            0 <= i < vouched(ps, before).len() ==> #[trigger] vouched(ps, verdicts)[i] == vouched(
                ps,
                before,
            )[i]);
        assert(may_judge(ps[n], location_usable, verify_process, verdicts[n]));
        if verdicts.last() == Ok::<bool, String>(true) {
            let (path, usable) = choose|path: NativePath, usable: Result<bool, String>|
                {
                    &&& path@ == trusted_location()
                    &&& #[trigger] call_ensures(location_usable, (&path,), usable)
                    &&& match usable {
                        Ok(true) => exists|identity: TrustedIdentity|
                            microsoft_identity(identity) && #[trigger] call_ensures(
                                verify_process,
                                (ps[n].pid, &path, identity),
                                verdicts[n],
                            ),
                        _ => verdicts[n] == usable,
                    }
                };
            assert(usable == Ok::<bool, String>(true));
            let identity = choose|identity: TrustedIdentity|
                microsoft_identity(identity) && #[trigger] call_ensures(
                    verify_process,
                    (ps[n].pid, &path, identity),
                    verdicts[n],
                );
            assert(call_ensures(
                verify_process,
                (trusted_info(ps[n]).pid, &path, identity),
                Ok::<bool, String>(true),
            ));
            assert(verified_process(ps, location_usable, verify_process, trusted_info(ps[n])));
        }
    }
}

// ---------------------------------------------------------------------------
// Processes by their executables
// ---------------------------------------------------------------------------

/// Where the executable of each process stands; `None` where the process is gone.
pub type PathLookup = spec_fn(i32) -> Result<Option<PathView>, Seq<char>>;

pub open spec fn lookup_view(
    r: Result<Option<NativePath>, String>,
) -> Result<Option<PathView>, Seq<char>> {
    match r {
        Ok(Some(path)) => Ok(Some(path@)),
        Ok(None) => Ok(None),
        Err(e) => Err(e@),
    }
}

pub open spec fn lookup_answers<F: Fn(i32) -> Result<Option<NativePath>, String>>(
    executable_path: F,
    lookup: PathLookup,
) -> bool {
    forall|pid: i32, r: Result<Option<NativePath>, String>| #[trigger]
        call_ensures(executable_path, (pid,), r) ==> lookup_view(r) == lookup(pid)
}

/// The processes whose executable is the main one of a candidate bundle, in
/// order, or the first process whose executable could not be looked up.
pub open spec fn identities(
    pids: Seq<i32>,
    candidates: Seq<PathView>,
    bundle_id: Seq<char>,
    lookup: PathLookup,
) -> Result<Seq<ProcessIdentityView>, (i32, Seq<char>)>
    decreases pids.len(),
{
    if pids.len() == 0 {
        Ok(Seq::empty())
    } else {
        match identities(pids.drop_last(), candidates, bundle_id, lookup) {
            Err(e) => Err(e),
            Ok(found) => match lookup(pids.last()) {
                Err(e) => Err((pids.last(), e)),
                Ok(None) => Ok(found),
                Ok(Some(path)) => match bundle_of_main(path) {
                    Some(bundle) => if candidates.contains(bundle) {
                        Ok(
                            found.push(
                                ProcessIdentityView {
                                    pid: pids.last(),
                                    bundle_id,
                                    bundle_path: bundle,
                                },
                            ),
                        )
                    } else {
                        Ok(found)
                    },
                    None => Ok(found),
                },
            },
        }
    }
}

proof fn lemma_identities_error_stays(
    pids: Seq<i32>,
    n: int,
    candidates: Seq<PathView>,
    bundle_id: Seq<char>,
)
    requires
        0 <= n <= pids.len(),
    ensures
        forall|lookup: PathLookup|
            (#[trigger] identities(pids.take(n), candidates, bundle_id, lookup)) is Err
                ==> identities(pids, candidates, bundle_id, lookup) == identities(
                pids.take(n),
                candidates,
                bundle_id,
                lookup,
            ),
    decreases pids.len(),
{
    if n == pids.len() {
        assert(pids.take(n) =~= pids);
    } else {
        lemma_identities_error_stays(pids.drop_last(), n, candidates, bundle_id);
        assert(pids.drop_last().take(n) =~= pids.take(n));
    }
}

fn has_path(paths: &Vec<NativePath>, path: &NativePath) -> (r: bool)
    ensures
        r == paths_view(paths@).contains(path@),
{
    let mut i: usize = 0;
    while i < paths.len()
        invariant
            i <= paths@.len(),
            forall|j: int| 0 <= j < i ==> paths@[j]@ != path@,
        decreases paths@.len() - i,
    {
        if paths[i].same(path) {
            assert(paths_view(paths@)[i as int] == path@);
            return true;
        }
        i += 1;
    }
    proof {
        if paths_view(paths@).contains(path@) {
            let j = choose|j: int|
                0 <= j < paths_view(paths@).len() && paths_view(paths@)[j] == path@;
            assert(paths@[j]@ == path@);
        }
    }
    false
}

pub open spec fn identities_view(
    r: Result<Vec<ProcessIdentity>, IdentityError>,
) -> Result<Seq<ProcessIdentityView>, (i32, Seq<char>)> {
    match r {
        Ok(found) => Ok(found.deep_view()),
        Err(IdentityError::PathLookup { pid, cause }) => Err((pid, cause@)),
        Err(_) => Err((0, Seq::empty())),
    }
}

/// What a lookup says of one process: the entry that it makes, if any.
pub open spec fn found_process(
    pid: i32,
    candidates: Seq<PathView>,
    bundle_id: Seq<char>,
    at: Option<NativePath>,
) -> Option<ProcessIdentityView> {
    match at {
        None => None,
        Some(path) => match bundle_of_main(path@) {
            Some(bundle) => if candidates.contains(bundle) {
                Some(ProcessIdentityView { pid, bundle_id, bundle_path: bundle })
            } else {
                None
            },
            None => None,
        },
    }
}

/// The entries that the lookups of the first processes make, in order.
pub open spec fn found_processes(
    pids: Seq<i32>,
    candidates: Seq<PathView>,
    bundle_id: Seq<char>,
    lookups: Seq<Result<Option<NativePath>, String>>,
) -> Seq<ProcessIdentityView>
    decreases lookups.len(),
{
    if lookups.len() == 0 {
        Seq::empty()
    } else {
        let before = found_processes(pids, candidates, bundle_id, lookups.drop_last());
        match lookups.last() {
            Ok(at) => match found_process(pids[lookups.len() - 1], candidates, bundle_id, at) {
                Some(p) => before.push(p),
                None => before,
            },
            Err(_) => before,
        }
    }
}

/// The lookup may say `lookups` of the first processes, one after another.
pub open spec fn all_looked_up<F: Fn(i32) -> Result<Option<NativePath>, String>>(
    pids: Seq<i32>,
    executable_path: F,
    lookups: Seq<Result<Option<NativePath>, String>>,
) -> bool {
    &&& lookups.len() <= pids.len()
    &&& forall|j: int|
        0 <= j < lookups.len() ==> call_ensures(
            executable_path,
            (pids[j],),
            #[trigger] lookups[j],
        )
}

/// The lookups may have got as far as process `i`.
pub open spec fn looking_up<F: Fn(i32) -> Result<Option<NativePath>, String>>(
    pids: Seq<i32>,
    executable_path: F,
    i: int,
) -> bool {
    &&& 0 <= i < pids.len()
    &&& exists|lookups: Seq<Result<Option<NativePath>, String>>|
        {
            &&& lookups.len() == i
            &&& none_failed(lookups)
            &&& #[trigger] all_looked_up(pids, executable_path, lookups)
        }
}

/// When a process may be looked up: it is its turn.
pub open spec fn lookup_asked<F: Fn(i32) -> Result<Option<NativePath>, String>>(
    pids: Seq<i32>,
    executable_path: F,
    pid: i32,
) -> bool {
    exists|i: int| #[trigger] looking_up(pids, executable_path, i) && pids[i] == pid
}

/// What the lookup may make of `pids`, whatever it answers: the processes that were
/// found, or the first one whose lookup failed.
pub open spec fn lookup_outcome<F: Fn(i32) -> Result<Option<NativePath>, String>>(
    pids: Seq<i32>,
    candidates: Seq<PathView>,
    bundle_id: Seq<char>,
    executable_path: F,
    out: Result<Vec<ProcessIdentity>, IdentityError>,
) -> bool {
    exists|lookups: Seq<Result<Option<NativePath>, String>>|
        {
            &&& #[trigger] all_looked_up(pids, executable_path, lookups)
            &&& match out {
                Ok(found) => {
                    &&& lookups.len() == pids.len()
                    &&& none_failed(lookups)
                    &&& found.deep_view() == found_processes(pids, candidates, bundle_id, lookups)
                },
                Err(IdentityError::PathLookup { pid, cause }) => {
                    &&& lookups.len() > 0
                    &&& none_failed(lookups.drop_last())
                    &&& lookups.last() == Err::<Option<NativePath>, String>(cause)
                    &&& pid == pids[lookups.len() - 1]
                },
                Err(_) => false,
            }
        }
}

/// The process is one of `pids`, and the lookup led to the main executable of its bundle,
/// which is one of the candidates.
pub open spec fn process_found<F: Fn(i32) -> Result<Option<NativePath>, String>>(
    pids: Seq<i32>,
    candidates: Seq<PathView>,
    bundle_id: Seq<char>,
    executable_path: F,
    p: ProcessIdentityView,
) -> bool {
    &&& pids.contains(p.pid)
    &&& candidates.contains(p.bundle_path)
    &&& p.bundle_id == bundle_id
    &&& exists|path: NativePath|
        {
            &&& #[trigger] call_ensures(
                executable_path,
                (p.pid,),
                Ok::<Option<NativePath>, String>(Some(path)),
            )
            &&& bundle_of_main(path@) == Some(p.bundle_path)
        }
}

proof fn lemma_found_processes<F: Fn(i32) -> Result<Option<NativePath>, String>>(
    pids: Seq<i32>,
    candidates: Seq<PathView>,
    bundle_id: Seq<char>,
    executable_path: F,
    lookups: Seq<Result<Option<NativePath>, String>>,
)
    requires
        all_looked_up(pids, executable_path, lookups),
    ensures
        forall|i: int|
            0 <= i < found_processes(pids, candidates, bundle_id, lookups).len() ==> process_found(
                pids,
                candidates,
                bundle_id,
                executable_path,
                #[trigger] found_processes(pids, candidates, bundle_id, lookups)[i],
            ),
    decreases lookups.len(),
{
    if lookups.len() > 0 {
        let n = lookups.len() - 1;
        let rest = lookups.drop_last();
        assert forall|j: int| 0 <= j < rest.len() implies call_ensures(
            executable_path,
            (pids[j],),
            #[trigger] rest[j],
        ) by {
            assert(lookups[j] == rest[j]);
        }
        lemma_found_processes(pids, candidates, bundle_id, executable_path, rest);
        let before = found_processes(pids, candidates, bundle_id, rest);
        let all = found_processes(pids, candidates, bundle_id, lookups);
        assert(forall|i: int| 0 <= i < before.len() ==> #[trigger] all[i] == before[i]);
        assert(pids.contains(pids[n]));
        assert(call_ensures(executable_path, (pids[n],), lookups[n]));
    }
}

/// Each process that was found is one of those that were asked about: the lookup led to
/// its executable, and that is the main one of a candidate bundle.
pub proof fn law_found_processes_stand_in_a_candidate<
    F: Fn(i32) -> Result<Option<NativePath>, String>,
>(
    pids: Seq<i32>,
    candidates: Seq<PathView>,
    bundle_id: Seq<char>,
    executable_path: F,
    out: Result<Vec<ProcessIdentity>, IdentityError>,
)
    requires
        lookup_outcome(pids, candidates, bundle_id, executable_path, out),
        out is Ok,
    ensures
        forall|i: int|
            0 <= i < out->Ok_0.deep_view().len() ==> process_found(
                pids,
                candidates,
                bundle_id,
                executable_path,
                #[trigger] out->Ok_0.deep_view()[i],
            ),
{
    let lookups = choose|lookups: Seq<Result<Option<NativePath>, String>>|
        {
            &&& #[trigger] all_looked_up(pids, executable_path, lookups)
            &&& out->Ok_0.deep_view() == found_processes(pids, candidates, bundle_id, lookups)
        };
    lemma_found_processes(pids, candidates, bundle_id, executable_path, lookups);
}

/// `identities`, computed with a live lookup. A process that is gone is left
/// out; a lookup that fails makes the whole answer unknown.
pub fn process_identities_from_pids<F: Fn(i32) -> Result<Option<NativePath>, String>>(
    pids: &Vec<i32>,
    trusted_candidates: &Vec<NativePath>,
    identity: TrustedIdentity,
    executable_path: F,
) -> (out: Result<Vec<ProcessIdentity>, IdentityError>)
    requires
        forall|pid: i32|
            lookup_asked(pids@, executable_path, pid) ==> #[trigger] call_requires(
                executable_path,
                (pid,),
            ),
    ensures
        lookup_outcome(
            pids@,
            paths_view(trusted_candidates@),
            identity.bundle_id@,
            executable_path,
            out,
        ),
        forall|lookup: PathLookup| #[trigger]
            lookup_answers(executable_path, lookup) ==> identities_view(out) == identities(
                pids@,
                paths_view(trusted_candidates@),
                identity.bundle_id@,
                lookup,
            ),
{
    let ghost candidates = paths_view(trusted_candidates@);
    let ghost mut lookups: Seq<Result<Option<NativePath>, String>> = Seq::empty();
    let mut found: Vec<ProcessIdentity> = Vec::new();
    let mut i: usize = 0;
    assert(pids@.take(0) =~= Seq::<i32>::empty());
    assert(found.deep_view() =~= Seq::<ProcessIdentityView>::empty());
    while i < pids.len()
        invariant
            i <= pids@.len(),
            candidates == paths_view(trusted_candidates@),
            forall|pid: i32|
                lookup_asked(pids@, executable_path, pid) ==> #[trigger] call_requires(
                    executable_path,
                    (pid,),
                ),
            lookups.len() == i,
            none_failed(lookups),
            all_looked_up(pids@, executable_path, lookups),
            found.deep_view() == found_processes(
                pids@,
                candidates,
                identity.bundle_id@,
                lookups,
            ),
            forall|lookup: PathLookup| #[trigger]
                lookup_answers(executable_path, lookup) ==> identities(
                    pids@.take(i as int),
                    candidates,
                    identity.bundle_id@,
                    lookup,
                ) == Ok::<Seq<ProcessIdentityView>, (i32, Seq<char>)>(found.deep_view()),
        decreases pids@.len() - i,
    {
        let pid: i32 = pids[i];
        let ghost before = found.deep_view();
        proof {
            assert(pids@.take(i + 1).drop_last() =~= pids@.take(i as int));
            lemma_identities_error_stays(pids@, i + 1, candidates, identity.bundle_id@);
        }
        assert(looking_up(pids@, executable_path, i as int));
        let looked_up: Result<Option<NativePath>, String> = executable_path(pid);
        proof {
            let said = lookups.push(looked_up);
            assert(said.drop_last() =~= lookups);
            assert(all_looked_up(pids@, executable_path, said));
            lookups = said;
        }
        match looked_up {
            Err(cause) => {
                proof {
                    assert forall|lookup: PathLookup| #[trigger]
                        lookup_answers(executable_path, lookup) implies identities(
                        pids@.take(i + 1),
                        candidates,
                        identity.bundle_id@,
                        lookup,
                    ) == Err::<Seq<ProcessIdentityView>, (i32, Seq<char>)>((pid, cause@)) by {}
                }
                return Err(IdentityError::PathLookup { pid, cause });
            },
            Ok(None) => {},
            Ok(Some(path)) => {
                if let Some(bundle) = containing_app_bundle_for_direct_main_executable(&path) {
                    if has_path(trusted_candidates, &bundle) {
                        let entry: ProcessIdentity = ProcessIdentity {
                            pid,
                            bundle_id: identity.bundle_id.to_owned(),
                            bundle_path: bundle,
                        };
                        let ghost added = entry.deep_view();
                        found.push(entry);
                        assert(found.deep_view() =~= before.push(added));
                    }
                }
            },
        }
        i += 1;
    }
    assert(pids@.take(pids@.len() as int) =~= pids@);
    Ok(found)
}

// ---------------------------------------------------------------------------
// The process list
// ---------------------------------------------------------------------------

/// Why there is no process list.
#[derive(Debug, Clone, PartialEq, Eq)]
pub enum ProcessListError {
    /// The list is too long for this machine.
    CapacityOverflow,
    /// The list could not be read.
    Read(String),
    /// The number of bytes that were read makes no sense.
    InvalidByteCount,
    /// The list filled every buffer that was offered.
    RemainedFull,
}

/// What is said where there is no process list.
pub open spec fn process_list_error_text(error: ProcessListError) -> Seq<char> {
    match error {
        ProcessListError::CapacityOverflow => "native process-list capacity overflow"@,
        ProcessListError::Read(cause) => cause@,
        ProcessListError::InvalidByteCount => {
            "native process list returned an invalid byte count"@
        },
        ProcessListError::RemainedFull => {
            "native process list remained full after repeated growth"@
        },
    }
}

impl ProcessListError {
    /// `process_list_error_text`, computed.
    pub fn message(&self) -> (out: String)
        ensures
            out@ == process_list_error_text(*self),
    {
        match self {
            ProcessListError::CapacityOverflow => {
                "native process-list capacity overflow".to_owned()
            },
            ProcessListError::Read(cause) => cause.clone(),
            ProcessListError::InvalidByteCount => {
                "native process list returned an invalid byte count".to_owned()
            },
            ProcessListError::RemainedFull => {
                "native process list remained full after repeated growth".to_owned()
            },
        }
    }
}

/// What one read of the process list gives: the buffer, and how many of its
/// bytes were filled.
#[derive(Debug, Clone)]
pub struct ProcessListRead {
    pub pids: Vec<i32>,
    pub bytes: usize,
}

/// The pids among the first `n` entries of a buffer.
pub open spec fn listed_pids(buffer: Seq<i32>, n: int) -> Seq<i32>
    decreases n,
{
    if n <= 0 {
        Seq::empty()
    } else if buffer[n - 1] > 0 {
        listed_pids(buffer, n - 1).push(buffer[n - 1])
    } else {
        listed_pids(buffer, n - 1)
    }
}

/// The capacity of the buffer of attempt `k`, counted from zero.
pub open spec fn list_capacity(initial: int, k: int) -> int
    decreases k,
{
    if k <= 0 {
        if initial < 1 {
            1
        } else {
            initial
        }
    } else {
        2 * list_capacity(initial, k - 1)
    }
}

/// Attempt `k` read `got`.
pub open spec fn list_read<F: Fn(usize) -> Result<ProcessListRead, String>>(
    read: F,
    initial: usize,
    k: int,
    got: Result<ProcessListRead, String>,
) -> bool {
    &&& list_capacity(initial as int, k) * PID_SIZE <= usize::MAX
    &&& call_ensures(read, (list_capacity(initial as int, k) as usize,), got)
}

/// Attempt `k` filled its whole buffer.
pub open spec fn list_full<F: Fn(usize) -> Result<ProcessListRead, String>>(
    read: F,
    initial: usize,
    k: int,
) -> bool {
    exists|got: ProcessListRead| #[trigger]
        list_read(read, initial, k, Ok(got)) && got.bytes == list_capacity(initial as int, k)
            * PID_SIZE
}

/// When a buffer of `capacity` entries may be asked for: it is that of an attempt
/// whose forerunners all filled theirs.
pub open spec fn capacity_asked<F: Fn(usize) -> Result<ProcessListRead, String>>(
    read: F,
    initial: usize,
    capacity: usize,
) -> bool {
    &&& capacity * PID_SIZE <= usize::MAX
    &&& exists|k: int|
        {
            &&& 0 <= k < PROC_LIST_GROWTH_ATTEMPTS
            &&& capacity == #[trigger] list_capacity(initial as int, k)
            &&& forall|j: int| 0 <= j < k ==> list_full(read, initial, j)
        }
}

/// What reading the list may come to at attempt `k`, when the attempts before it
/// filled their buffers.
pub open spec fn list_outcome<F: Fn(usize) -> Result<ProcessListRead, String>>(
    read: F,
    initial: usize,
    k: int,
    out: Result<Vec<i32>, ProcessListError>,
) -> bool {
    let capacity = list_capacity(initial as int, k);
    &&& 0 <= k <= PROC_LIST_GROWTH_ATTEMPTS
    &&& forall|j: int| 0 <= j < k ==> list_full(read, initial, j)
    &&& match out {
        Ok(pids) => k < PROC_LIST_GROWTH_ATTEMPTS && exists|got: ProcessListRead|
            {
                &&& #[trigger] list_read(read, initial, k, Ok(got))
                &&& got.bytes < capacity * PID_SIZE
                &&& got.bytes % PID_SIZE == 0
                &&& got.bytes / PID_SIZE <= got.pids@.len()
                &&& pids@ == listed_pids(got.pids@, (got.bytes / PID_SIZE) as int)
            },
        Err(ProcessListError::Read(e)) => k < PROC_LIST_GROWTH_ATTEMPTS && list_read(
            read,
            initial,
            k,
            Err(e),
        ),
        Err(ProcessListError::InvalidByteCount) => k < PROC_LIST_GROWTH_ATTEMPTS && exists|
            got: ProcessListRead,
        |
            {
                &&& #[trigger] list_read(read, initial, k, Ok(got))
                &&& got.bytes > capacity * PID_SIZE || got.bytes % PID_SIZE != 0 || got.bytes
                    / PID_SIZE > got.pids@.len()
            },
        Err(ProcessListError::CapacityOverflow) => capacity * PID_SIZE > usize::MAX,
        Err(ProcessListError::RemainedFull) => k == PROC_LIST_GROWTH_ATTEMPTS,
    }
}

fn keep_pids(buffer: &Vec<i32>, n: usize) -> (out: Vec<i32>)
    requires
        n <= buffer@.len(),
    ensures
        out@ == listed_pids(buffer@, n as int),
{
    let mut out: Vec<i32> = Vec::new();
    let mut i: usize = 0;
    while i < n
        invariant
            i <= n <= buffer@.len(),
            out@ == listed_pids(buffer@, i as int),
        decreases n - i,
    {
        if buffer[i] > 0 {
            out.push(buffer[i]);
        }
        i += 1;
    }
    out
}

/// Reads the process list into ever larger buffers until one is not filled.
pub fn native_process_ids_with_reader<F: Fn(usize) -> Result<ProcessListRead, String>>(
    initial_capacity: usize,
    read: F,
) -> (out: Result<Vec<i32>, ProcessListError>)
    requires
        forall|capacity: usize|
            capacity_asked(read, initial_capacity, capacity) ==> #[trigger] call_requires(
                read,
                (capacity,),
            ),
    ensures
        exists|k: int| list_outcome(read, initial_capacity, k, out),
{
    let mut capacity: usize = if initial_capacity < 1 {
        1
    } else {
        initial_capacity
    };
    let mut attempt: usize = 0;
    while attempt < PROC_LIST_GROWTH_ATTEMPTS
        invariant
            attempt <= PROC_LIST_GROWTH_ATTEMPTS,
            forall|capacity: usize|
                capacity_asked(read, initial_capacity, capacity) ==> #[trigger] call_requires(
                    read,
                    (capacity,),
                ),
            capacity == list_capacity(initial_capacity as int, attempt as int),
            forall|j: int| 0 <= j < attempt ==> list_full(read, initial_capacity, j),
        decreases PROC_LIST_GROWTH_ATTEMPTS - attempt,
    {
        let ghost k = attempt as int;
        if capacity > usize::MAX / PID_SIZE {
            let out: Result<Vec<i32>, ProcessListError> = Err(ProcessListError::CapacityOverflow);
            assert(list_outcome(read, initial_capacity, k, out));
            return out;
        }
        let capacity_bytes: usize = capacity * PID_SIZE;
        let answer: Result<ProcessListRead, String> = read(capacity);
        assert(list_read(read, initial_capacity, k, answer));
        let got: ProcessListRead = match answer {
            Ok(got) => got,
            Err(e) => {
                let out: Result<Vec<i32>, ProcessListError> = Err(ProcessListError::Read(e));
                assert(list_outcome(read, initial_capacity, k, out));
                return out;
            },
        };
        if got.bytes > capacity_bytes || got.bytes % PID_SIZE != 0 || got.bytes / PID_SIZE
            > got.pids.len() {
            let out: Result<Vec<i32>, ProcessListError> = Err(ProcessListError::InvalidByteCount);
            assert(list_outcome(read, initial_capacity, k, out));
            return out;
        }
        if got.bytes < capacity_bytes {
            let pids: Vec<i32> = keep_pids(&got.pids, got.bytes / PID_SIZE);
            let out: Result<Vec<i32>, ProcessListError> = Ok(pids);
            assert(list_outcome(read, initial_capacity, k, out));
            return out;
        }
        assert(list_full(read, initial_capacity, k));
        if capacity > usize::MAX / 2 {
            let out: Result<Vec<i32>, ProcessListError> = Err(ProcessListError::CapacityOverflow);
            assert(list_outcome(read, initial_capacity, k + 1, out));
            return out;
        }
        capacity = 2 * capacity;
        attempt += 1;
    }
    let out: Result<Vec<i32>, ProcessListError> = Err(ProcessListError::RemainedFull);
    assert(list_outcome(read, initial_capacity, attempt as int, out));
    out
}

// ---------------------------------------------------------------------------
// The live process
// ---------------------------------------------------------------------------

/// What the system says of the code of a running process.
#[derive(Debug, Clone)]
pub struct LiveCode {
    /// The bundle path that the code runs from; `None` where it could not be read.
    pub path: Option<NativePath>,
    /// Whether that bundle path leads over a symbolic link; `None` where that
    /// could not be found out.
    pub over_symlink: Option<bool>,
    /// Whether the signature passed the check against the requirement.
    pub valid: bool,
}

/// Whether a lookup that found no code of a process is the end of the process: a
/// process whose executable is still there only could not be examined.
pub fn missing_code_is_exit(executable_present: Option<bool>) -> (out: Option<bool>)
    ensures
        out == if executable_present == Some(false) {
            Some(true)
        } else {
            None
        },
{
    match executable_present {
        Some(false) => Some(true),
        _ => None,
    }
}

/// Whether the live code is that of the trusted bundle; `None` where that cannot
/// be told. A failed check is never taken for an answer.
pub open spec fn live_verdict(code: Option<LiveCode>, bundle_path: PathView) -> Option<bool> {
    match code {
        None => Some(false),
        Some(code) => match code.path {
            None => None,
            Some(path) => match containing_bundle(path@) {
                None => Some(false),
                Some(bundle) => if bundle != bundle_path {
                    Some(false)
                } else {
                    match code.over_symlink {
                        None => None,
                        Some(true) => Some(false),
                        Some(false) => if code.valid {
                            Some(true)
                        } else {
                            None
                        },
                    }
                },
            },
        },
    }
}

/// `live_verdict`, computed. `code` is `None` where the process has ended.
pub fn verify_trusted_live_process(code: Option<LiveCode>, bundle_path: &NativePath) -> (out:
    Option<bool>)
    ensures
        out == live_verdict(code, bundle_path@),
{
    match code {
        None => Some(false),
        Some(code) => match code.path {
            None => None,
            Some(path) => match containing_app_bundle(&path) {
                None => Some(false),
                Some(bundle) => {
                    if !bundle.same(bundle_path) {
                        return Some(false);
                    }
                    match code.over_symlink {
                        None => None,
                        Some(true) => Some(false),
                        Some(false) => if code.valid {
                            Some(true)
                        } else {
                            None
                        },
                    }
                },
            },
        },
    }
}

// ---------------------------------------------------------------------------
// The code-signing requirement
// ---------------------------------------------------------------------------

/// A character of a team identifier.
pub open spec fn team_id_char(c: char) -> bool {
    'A' <= c <= 'Z' || '0' <= c <= '9'
}

/// Ten upper-case letters and digits.
pub open spec fn team_id_ok(s: Seq<char>) -> bool {
    s.len() == 10 && forall|i: int| 0 <= i < s.len() ==> team_id_char(#[trigger] s[i])
}

/// A character of a literal in a requirement.
pub open spec fn requirement_char(c: char) -> bool {
    ascii_alphanumeric(c) || c == '.' || c == '-'
}

pub open spec fn requirement_literal_ok(s: Seq<char>) -> bool {
    0 < s.len() <= 255 && forall|i: int| 0 <= i < s.len() ==> requirement_char(#[trigger] s[i])
}

fn all_team_id_chars(s: &[char]) -> (r: bool)
    ensures
        r == forall|i: int| 0 <= i < s@.len() ==> team_id_char(#[trigger] s@[i]),
{
    let mut i: usize = 0;
    while i < s.len()
        invariant
            i <= s@.len(),
            forall|j: int| 0 <= j < i ==> team_id_char(#[trigger] s@[j]),
        decreases s@.len() - i,
    {
        let c: char = s[i];
        if !(('A' <= c && c <= 'Z') || ('0' <= c && c <= '9')) {
            assert(!team_id_char(s@[i as int]));
            return false;
        }
        i += 1;
    }
    true
}

fn all_requirement_chars(s: &[char]) -> (r: bool)
    ensures
        r == forall|i: int| 0 <= i < s@.len() ==> requirement_char(#[trigger] s@[i]),
{
    let mut i: usize = 0;
    while i < s.len()
        invariant
            i <= s@.len(),
            forall|j: int| 0 <= j < i ==> requirement_char(#[trigger] s@[j]),
        decreases s@.len() - i,
    {
        let c: char = s[i];
        if !(is_ascii_alphanumeric(c) || c == '.' || c == '-') {
            assert(!requirement_char(s@[i as int]));
            return false;
        }
        i += 1;
    }
    true
}

/// Whether a team identifier, but for the white space around it, is one.
pub fn valid_team_id(team_id: &str) -> (r: bool)
    ensures
        r == team_id_ok(trimmed(team_id@)),
{
    let chars: Vec<char> = to_chars(team_id);
    let inner: &[char] = trim(&chars);
    inner.len() == 10 && all_team_id_chars(inner)
}

/// Which part of a requirement cannot be written.
#[derive(Debug, Clone, Copy, PartialEq, Eq, Structural)]
pub enum RequirementError {
    TeamId,
    BundleId,
    ApplicationId,
}

impl RequirementError {
    pub fn message(self) -> (out: &'static str)
        ensures
            out@ == match self {
                RequirementError::TeamId => "invalid macOS Team ID for codesign requirement"@,
                RequirementError::BundleId => {
                    "invalid bundle identifier for codesign requirement"@
                },
                RequirementError::ApplicationId => {
                    "invalid application identifier for codesign requirement"@
                },
            },
    {
        match self {
            RequirementError::TeamId => "invalid macOS Team ID for codesign requirement",
            RequirementError::BundleId => "invalid bundle identifier for codesign requirement",
            RequirementError::ApplicationId => {
                "invalid application identifier for codesign requirement"
            },
        }
    }
}

/// The requirement that code of the bundle signed by the team meets.
pub open spec fn requirement_text(bundle_id: Seq<char>, team_id: Seq<char>) -> Seq<char> {
    "anchor apple generic and identifier \""@ + bundle_id
        + "\" and ((certificate leaf[field.1.2.840.113635.100.6.1.9] exists and entitlement[\"com.apple.developer.team-identifier\"] = \""@
        + team_id + "\" and entitlement[\"com.apple.application-identifier\"] = \""@ + team_id
        + "."@ + bundle_id
        + "\") or (certificate 1[field.1.2.840.113635.100.6.2.6] exists and certificate leaf[field.1.2.840.113635.100.6.1.13] exists and certificate leaf[subject.OU] = \""@
        + team_id + "\"))"@
}

/// `requirement_text` of the two identifiers without the white space around
/// them, where they are well formed. The application identifier, which is both
/// of them with a period between, must be well formed too.
pub open spec fn requirement_source(bundle_id: Seq<char>, team_id: Seq<char>) -> Result<
    Seq<char>,
    RequirementError,
> {
    if !team_id_ok(trimmed(team_id)) {
        Err(RequirementError::TeamId)
    } else if !requirement_literal_ok(trimmed(bundle_id)) {
        Err(RequirementError::BundleId)
    } else if trimmed(bundle_id).len() + 11 > 255 {
        Err(RequirementError::ApplicationId)
    } else {
        Ok(requirement_text(trimmed(bundle_id), trimmed(team_id)))
    }
}

/// `requirement_source`, computed.
pub fn code_sign_requirement_source(bundle_id: &str, team_id: &str) -> (out: Result<
    String,
    RequirementError,
>)
    ensures
        match requirement_source(bundle_id@, team_id@) {
            Ok(text) => out matches Ok(source) && source@ == text,
            Err(e) => out == Err::<String, RequirementError>(e),
        },
{
    let team_chars: Vec<char> = to_chars(team_id);
    let team: &[char] = trim(&team_chars);
    if team.len() != 10 || !all_team_id_chars(team) {
        return Err(RequirementError::TeamId);
    }
    let bundle_chars: Vec<char> = to_chars(bundle_id);
    let bundle: &[char] = trim(&bundle_chars);
    if bundle.len() == 0 || bundle.len() > 255 || !all_requirement_chars(bundle) {
        return Err(RequirementError::BundleId);
    }
    if bundle.len() + 11 > 255 {
        return Err(RequirementError::ApplicationId);
    }
    let team: String = to_text(team);
    let bundle: String = to_text(bundle);
    let mut out: String = "anchor apple generic and identifier \"".to_owned();
    out.append(bundle.as_str());
    out.append(
        "\" and ((certificate leaf[field.1.2.840.113635.100.6.1.9] exists and entitlement[\"com.apple.developer.team-identifier\"] = \"",
    );
    out.append(team.as_str());
    out.append("\" and entitlement[\"com.apple.application-identifier\"] = \"");
    out.append(team.as_str());
    out.append(".");
    out.append(bundle.as_str());
    out.append(
        "\") or (certificate 1[field.1.2.840.113635.100.6.2.6] exists and certificate leaf[field.1.2.840.113635.100.6.1.13] exists and certificate leaf[subject.OU] = \"",
    );
    out.append(team.as_str());
    out.append("\"))");
    Ok(out)
}

/// What is said of an error.
pub open spec fn identity_error_text(error: IdentityError, app_name: Seq<char>) -> Seq<char> {
    match error {
        IdentityError::Unsupported => "unsupported app identity for secure automation: "@
            + app_name,
        IdentityError::Check(cause) => cause@,
        IdentityError::PathLookup { pid, cause } => "unable to resolve executable path for PID "@
            + decimal(pid as int),
    }
}

impl IdentityError {
    /// The message for the user.
    pub fn message(&self, app_name: &str) -> (out: String)
        ensures
            out@ == identity_error_text(*self, app_name@),
    {
        match self {
            IdentityError::Unsupported => {
                let mut out: String = "unsupported app identity for secure automation: ".to_owned();
                out.append(app_name);
                out
            },
            IdentityError::Check(cause) => cause.clone(),
            IdentityError::PathLookup { pid, cause: _ } => {
                let number: String = decimal_of(*pid as i64);
                let mut out: String = "unable to resolve executable path for PID ".to_owned();
                out.append(number.as_str());
                out
            },
        }
    }
}

} // verus!
