//! Which processes are trusted, and how they are found.

#[allow(unused_imports)]
use crate::identity::{
    bundle_candidates, bundle_usable, identities, leads_over_symlink, list_capacity, listed_pids,
    live_verdict, process_verdict, requirement_char, requirement_literal_ok, requirement_source,
    requirement_text, supported_app, team_id_ok, trusted_info, trusted_infos, trusted_location,
    vouched, PathCheck, PathFact, PathLookup, ProcessCheck, ProcessIdentityView, RequirementError,
    TrustedInfoView,
};
#[allow(unused_imports)]
use crate::identity::LiveCode;
#[allow(unused_imports)]
use crate::native_path::{
    bundle_of_main, containing_bundle, law_a_path_ends_before_the_zero, path_of, PathView,
};
#[allow(unused_imports)]
use crate::processes::{executable_path, first_list_capacity, ExecutablePathError};
#[allow(unused_imports)]
use crate::text::has_part;
#[allow(unused_imports)]
use crate::text_laws::{all_blank, law_a_part_is_found, law_trimming_takes_the_white_space_away};
use vstd::prelude::*;

verus! {

// ---------------------------------------------------------------------------
// The application
// ---------------------------------------------------------------------------

/// The only application is the Windows App, with or without white space round its name,
/// and it is trusted in one place.
pub proof fn law_one_application_in_one_place(
    before: Seq<char>,
    name: Seq<char>,
    after: Seq<char>,
)
    requires
        all_blank(before),
        all_blank(after),
        crate::text_laws::bare(name),
    ensures
        supported_app(before + name + after) <==> name == "Windows App"@,
        bundle_candidates(before + name + after) == if name == "Windows App"@ {
            seq![trusted_location()]
        } else {
            Seq::empty()
        },
{
    law_trimming_takes_the_white_space_away(before, name, after);
}

/// The bytes of a name are its characters.
pub open spec fn spells(bytes: Seq<u8>, name: Seq<char>) -> bool {
    &&& bytes.len() == name.len()
    &&& forall|i: int| 0 <= i < bytes.len() ==> (#[trigger] bytes[i]) as int == name[i] as int
}

/// That place is `/Applications/Windows App.app`.
pub proof fn law_the_trusted_place()
    ensures
        trusted_location().absolute,
        trusted_location().parts.len() == 2,
        spells(trusted_location().parts[0], "Applications"@),
        spells(trusted_location().parts[1], "Windows App.app"@),
{
    reveal_strlit("Applications");
    reveal_strlit("Windows App.app");
}

// ---------------------------------------------------------------------------
// Which processes are trusted
// ---------------------------------------------------------------------------

/// A process is trusted exactly where it goes by the identifier of the application, stands
/// in the trusted place, that place is usable, and the verifier vouches for it there.
pub proof fn law_which_process_is_trusted(
    p: ProcessIdentityView,
    usable: PathCheck,
    verified: ProcessCheck,
)
    ensures
        process_verdict(p, usable, verified) == Ok::<bool, Seq<char>>(true) <==> {
            &&& p.bundle_id == "com.microsoft.rdc.macos"@
            &&& p.bundle_path == trusted_location()
            &&& usable(p.bundle_path) == Ok::<bool, Seq<char>>(true)
            &&& verified(p.pid, p.bundle_path) == Ok::<bool, Seq<char>>(true)
        },
        p.bundle_id != "com.microsoft.rdc.macos"@ || p.bundle_path != trusted_location()
            ==> process_verdict(p, usable, verified) == Ok::<bool, Seq<char>>(false),
        trusted_info(p) == (TrustedInfoView {
            pid: p.pid,
            bundle_id: p.bundle_id,
            bundle_path: p.bundle_path,
            team_id: "UBF8T346G9"@,
        }),
{
}

/// Every process that is trusted is reported, and no other; a check that fails is reported
/// instead of all.
pub proof fn law_every_trusted_process_is_reported(
    ps: Seq<ProcessIdentityView>,
    usable: PathCheck,
    verified: ProcessCheck,
    k: int,
)
    requires
        0 <= k < ps.len(),
    ensures
        trusted_infos(ps, usable, verified) matches Ok(infos) ==> {
            &&& process_verdict(ps[k], usable, verified) is Ok
            &&& process_verdict(ps[k], usable, verified) == Ok::<bool, Seq<char>>(true)
                ==> infos.contains(trusted_info(ps[k]))
            &&& forall|info: TrustedInfoView| #[trigger]
                infos.contains(info) ==> exists|j: int|
                    0 <= j < ps.len() && info == trusted_info(#[trigger] ps[j])
                        && process_verdict(ps[j], usable, verified) == Ok::<bool, Seq<char>>(true)
        },
        (forall|j: int| 0 <= j < ps.len() ==> process_verdict(#[trigger] ps[j], usable, verified)
            is Ok) ==> trusted_infos(ps, usable, verified) is Ok,
{
    lemma_reported(ps, usable, verified);
}

proof fn lemma_reported(ps: Seq<ProcessIdentityView>, usable: PathCheck, verified: ProcessCheck)
    ensures
        trusted_infos(ps, usable, verified) matches Ok(infos) ==> {
            &&& forall|k: int|
                0 <= k < ps.len() ==> process_verdict(#[trigger] ps[k], usable, verified) is Ok
            &&& forall|k: int|
                0 <= k < ps.len() && process_verdict(#[trigger] ps[k], usable, verified) == Ok::<
                    bool,
                    Seq<char>,
                >(true) ==> infos.contains(trusted_info(ps[k]))
            &&& forall|info: TrustedInfoView| #[trigger]
                infos.contains(info) ==> exists|j: int|
                    0 <= j < ps.len() && info == trusted_info(#[trigger] ps[j])
                        && process_verdict(ps[j], usable, verified) == Ok::<bool, Seq<char>>(true)
        },
        (forall|j: int| 0 <= j < ps.len() ==> process_verdict(#[trigger] ps[j], usable, verified)
            is Ok) ==> trusted_infos(ps, usable, verified) is Ok,
    decreases ps.len(),
{
    if ps.len() > 0 {
        let front = ps.drop_last();
        let last = ps[ps.len() - 1];
        lemma_reported(front, usable, verified);
        if forall|j: int|
            0 <= j < ps.len() ==> process_verdict(#[trigger] ps[j], usable, verified) is Ok {
            assert forall|j: int| 0 <= j < front.len() implies process_verdict(
                #[trigger] front[j],
                usable,
                verified,
            ) is Ok by {
                assert(front[j] == ps[j]);
            }
            assert(process_verdict(last, usable, verified) is Ok);
        }
        if let Ok(infos) = trusted_infos(ps, usable, verified) {
            let before = trusted_infos(front, usable, verified)->Ok_0;
            let more = before.push(trusted_info(last));
            assert forall|info: TrustedInfoView| before.contains(info) implies #[trigger]
            more.contains(info) by {
                let i = choose|i: int| 0 <= i < before.len() && before[i] == info;
                assert(more[i] == info);
            }
            assert(more[before.len() as int] == trusted_info(last));
            assert forall|k: int| 0 <= k < ps.len() implies process_verdict(
                #[trigger] ps[k],
                usable,
                verified,
            ) is Ok by {
                if k < front.len() {
                    assert(front[k] == ps[k]);
                }
            }
            assert forall|k: int|
                0 <= k < ps.len() && process_verdict(#[trigger] ps[k], usable, verified) == Ok::<
                    bool,
                    Seq<char>,
                >(true) implies infos.contains(trusted_info(ps[k])) by {
                if k < front.len() {
                    assert(front[k] == ps[k]);
                    assert(before.contains(trusted_info(ps[k])));
                    assert(more.contains(trusted_info(ps[k])));
                } else {
                    assert(more.contains(trusted_info(last)));
                }
            }
            assert forall|info: TrustedInfoView| #[trigger] infos.contains(info) implies exists|
                j: int,
            |
                0 <= j < ps.len() && info == trusted_info(#[trigger] ps[j]) && process_verdict(
                    ps[j],
                    usable,
                    verified,
                ) == Ok::<bool, Seq<char>>(true) by {
                if before.contains(info) {
                    let j = choose|j: int|
                        0 <= j < front.len() && info == trusted_info(#[trigger] front[j])
                            && process_verdict(front[j], usable, verified) == Ok::<
                            bool,
                            Seq<char>,
                        >(true);
                    assert(ps[j] == front[j]);
                } else {
                    let i = choose|i: int| 0 <= i < infos.len() && infos[i] == info;
                    assert(infos == more);
                    if i < before.len() {
                        assert(before[i] == info);
                    }
                    assert(info == trusted_info(ps[ps.len() - 1]));
                }
            }
        }
    }
}

/// Of the processes whose verdicts are known, each that was vouched for is kept, in order.
pub proof fn law_vouched_processes_are_kept(
    ps: Seq<ProcessIdentityView>,
    verdicts: Seq<Result<bool, String>>,
    verdict: Result<bool, String>,
)
    requires
        verdicts.len() < ps.len(),
    ensures
        vouched(ps, Seq::empty()) == Seq::<TrustedInfoView>::empty(),
        vouched(ps, verdicts.push(verdict)) == if verdict == Ok::<bool, String>(true) {
            vouched(ps, verdicts).push(trusted_info(ps[verdicts.len() as int]))
        } else {
            vouched(ps, verdicts)
        },
{
    assert(verdicts.push(verdict).drop_last() =~= verdicts);
}

/// Each process is looked up in turn; one whose executable is the main one of a candidate
/// is found, with the bundle that it stands in; one that is gone, or that runs anything
/// else, is passed over; and a lookup that fails is reported, with its process.
pub proof fn law_which_processes_are_found(
    pids: Seq<i32>,
    pid: i32,
    candidates: Seq<PathView>,
    bundle_id: Seq<char>,
    lookup: PathLookup,
    before: Seq<ProcessIdentityView>,
)
    requires
        identities(pids, candidates, bundle_id, lookup) == Ok::<
            Seq<ProcessIdentityView>,
            (i32, Seq<char>),
        >(before),
    ensures
        ({
            let out = identities(pids.push(pid), candidates, bundle_id, lookup);
            match lookup(pid) {
                Err(e) => out == Err::<Seq<ProcessIdentityView>, (i32, Seq<char>)>((pid, e)),
                Ok(None) => out == Ok::<Seq<ProcessIdentityView>, (i32, Seq<char>)>(before),
                Ok(Some(path)) => {
                    let main = bundle_of_main(path);
                    out == Ok::<Seq<ProcessIdentityView>, (i32, Seq<char>)>(
                        if main is Some && candidates.contains(main->0) {
                            before.push(
                                ProcessIdentityView { pid, bundle_id, bundle_path: main->0 },
                            )
                        } else {
                            before
                        },
                    )
                },
            }
        }),
{
    assert(pids.push(pid).drop_last() =~= pids);
}

// ---------------------------------------------------------------------------
// Paths
// ---------------------------------------------------------------------------

/// A path leads over a link where one of its parts is one and all before it are there; a
/// part that is missing or cannot be read before that leaves it open.
pub proof fn law_whether_a_path_leads_over_a_link(
    before: Seq<PathFact>,
    fact: PathFact,
    after: Seq<PathFact>,
)
    requires
        forall|i: int|
            0 <= i < before.len() ==> !((#[trigger] before[i]) is Missing) && !(before[i]
                is Unreadable) && !(before[i] is Symlink),
    ensures
        leads_over_symlink(before) == Some(false),
        fact is Symlink ==> leads_over_symlink(before + seq![fact] + after) == Some(true),
        fact is Missing || fact is Unreadable ==> leads_over_symlink(before + seq![fact] + after)
            is None,
    decreases before.len(),
{
    let all = before + seq![fact] + after;
    if before.len() > 0 {
        let rest = before.drop_first();
        assert forall|i: int| 0 <= i < rest.len() implies !((#[trigger] rest[i]) is Missing) && !(
        rest[i] is Unreadable) && !(rest[i] is Symlink) by {
            assert(!(before[i + 1] is Missing));
        }
        law_whether_a_path_leads_over_a_link(rest, fact, after);
        assert(all.first() == before[0]);
        assert(!(before[0] is Missing));
        assert(all.drop_first() =~= rest + seq![fact] + after);
    } else {
        assert(all.first() == fact);
    }
}

/// A bundle may be used where it is a directory and no part of its path is a link; one
/// that is missing, or is anything else, may not.
pub proof fn law_which_bundle_may_be_used(own: PathFact, components: Seq<PathFact>)
    ensures
        bundle_usable(own, components) == Some(true) <==> own is Directory && leads_over_symlink(
            components,
        ) == Some(false),
        own is Directory && leads_over_symlink(components) == Some(true) ==> bundle_usable(
            own,
            components,
        ) == Some(false),
        own is Missing ==> bundle_usable(own, components) == Some(false),
        own is Unreadable || (own is Directory && leads_over_symlink(components) is None)
            ==> bundle_usable(own, components) is None,
        !(own is Directory) && !(own is Unreadable) ==> bundle_usable(own, components) == Some(
            false,
        ),
{
}

/// A process that runs is the expected one exactly where its code stands in the expected
/// bundle, not over a link, and is valid; without code it is not, and code that cannot be
/// placed, or that is not valid there, leaves it open.
pub proof fn law_which_code_is_the_expected_one(code: LiveCode, bundle: PathView)
    ensures
        live_verdict(None, bundle) == Some(false),
        live_verdict(Some(code), bundle) == Some(true) <==> {
            &&& code.path matches Some(path) && containing_bundle(path@) == Some(bundle)
            &&& code.over_symlink == Some(false)
            &&& code.valid
        },
        code.path is None ==> live_verdict(Some(code), bundle) is None,
        (code.path matches Some(path) && containing_bundle(path@) != Some(bundle))
            ==> live_verdict(Some(code), bundle) == Some(false),
        (code.path matches Some(path) && containing_bundle(path@) == Some(bundle))
            && code.over_symlink == Some(true) ==> live_verdict(Some(code), bundle) == Some(false),
{
}

/// The path of an executable is what stands before the zero in the buffer that was
/// written. A process that is gone has none; any other failure is one, and so is an empty
/// path.
pub proof fn law_the_path_of_an_executable(path: Seq<u8>, rest: Seq<u8>, beyond: Seq<u8>, error: i32)
    requires
        !path.contains(0),
    ensures
        ({
            let buffer = path + seq![0u8] + rest;
            let written = buffer.len() as int;
            &&& path.len() > 0 ==> executable_path(written, error, buffer + beyond) == Ok::<
                Option<PathView>,
                ExecutablePathError,
            >(Some(path_of(path)))
            &&& path.len() == 0 ==> executable_path(written, error, buffer + beyond) == Err::<
                Option<PathView>,
                ExecutablePathError,
            >(ExecutablePathError::Empty)
        }),
        executable_path(0, error, beyond) == if error == 3 || error == 2 {
            Ok::<Option<PathView>, ExecutablePathError>(None)
        } else {
            Err::<Option<PathView>, ExecutablePathError>(ExecutablePathError::Failed)
        },
{
    let buffer = path + seq![0u8] + rest;
    assert((buffer + beyond).take(buffer.len() as int) =~= buffer);
    law_a_path_ends_before_the_zero(path, rest);
}

// ---------------------------------------------------------------------------
// The list of processes
// ---------------------------------------------------------------------------

/// A list of processes holds the numbers above zero that were written, in order.
pub proof fn law_which_numbers_are_listed(buffer: Seq<i32>, n: int)
    requires
        0 <= n < buffer.len(),
    ensures
        listed_pids(buffer, 0) == Seq::<i32>::empty(),
        listed_pids(buffer, n + 1) == if buffer[n] > 0 {
            listed_pids(buffer, n).push(buffer[n])
        } else {
            listed_pids(buffer, n)
        },
{
}

/// The room for a list is at least one, and doubles with each attempt; the first attempt
/// has room for the bytes that were announced, at four for a process, and for sixty-four
/// processes more.
pub proof fn law_the_room_for_a_list(initial: int, k: int, bytes: i32)
    requires
        0 <= k,
        0 <= bytes <= i32::MAX - 3,
    ensures
        initial >= 1 ==> list_capacity(initial, 0) == initial,
        initial < 1 ==> list_capacity(initial, 0) == 1,
        list_capacity(initial, k + 1) == list_capacity(initial, k) + list_capacity(initial, k),
        first_list_capacity(bytes) * 4 >= bytes + 256,
        first_list_capacity(bytes) * 4 < bytes + 260,
{
    let n = (bytes + 3) / 4 + 64;
    assert(0 <= n <= 0x2000_0040);
    assert(first_list_capacity(bytes) == n as usize);
    assert(n as usize as int == n);
}

// ---------------------------------------------------------------------------
// The signature that is asked for
// ---------------------------------------------------------------------------

/// A signature is asked for where the team is ten capital letters or digits and the bundle
/// is named by letters, digits, periods and hyphens, few enough that the two together
/// stay within two hundred and fifty-five characters.
pub proof fn law_which_signatures_are_asked_for(
    bundle_id: Seq<char>,
    team_id: Seq<char>,
    before: Seq<char>,
    after: Seq<char>,
)
    requires
        all_blank(before),
        all_blank(after),
        crate::text_laws::bare(bundle_id),
        crate::text_laws::bare(team_id),
    ensures
        ({
            let out = requirement_source(before + bundle_id + after, before + team_id + after);
            let team = team_id.len() == 10 && (forall|i: int|
                0 <= i < team_id.len() ==> 'A' <= (#[trigger] team_id[i]) <= 'Z' || '0'
                    <= team_id[i] <= '9');
            let bundle = 0 < bundle_id.len() <= 255 && (forall|i: int|
                0 <= i < bundle_id.len() ==> names_a_bundle(#[trigger] bundle_id[i]));
            &&& team && bundle && bundle_id.len() <= 244 ==> out == Ok::<
                Seq<char>,
                RequirementError,
            >(requirement_text(bundle_id, team_id))
            &&& !team ==> out == Err::<Seq<char>, RequirementError>(RequirementError::TeamId)
            &&& team && !bundle ==> out == Err::<Seq<char>, RequirementError>(
                RequirementError::BundleId,
            )
            &&& team && bundle && bundle_id.len() > 244 ==> out == Err::<
                Seq<char>,
                RequirementError,
            >(RequirementError::ApplicationId)
        }),
{
    law_trimming_takes_the_white_space_away(before, bundle_id, after);
    law_trimming_takes_the_white_space_away(before, team_id, after);
    assert(team_id_ok(team_id) <==> team_id.len() == 10 && (forall|i: int|
        0 <= i < team_id.len() ==> 'A' <= (#[trigger] team_id[i]) <= 'Z' || '0' <= team_id[i]
            <= '9'));
    assert(requirement_literal_ok(bundle_id) <==> 0 < bundle_id.len() <= 255 && (forall|i: int|
        0 <= i < bundle_id.len() ==> names_a_bundle(#[trigger] bundle_id[i]))) by {
        assert(forall|c: char| requirement_char(c) == #[trigger] names_a_bundle(c));
    }
}

pub open spec fn names_a_bundle(c: char) -> bool {
    'a' <= c <= 'z' || 'A' <= c <= 'Z' || '0' <= c <= '9' || c == '.' || c == '-'
}

/// The signature that is asked for is anchored with the maker of the system, names the
/// bundle, and binds it to the team: by both entitlements where it came from the store,
/// and otherwise by the certificate of a developer.
pub proof fn law_what_a_signature_has_to_show(bundle_id: Seq<char>, team_id: Seq<char>)
    ensures
        ({
            let text = requirement_text(bundle_id, team_id);
            &&& has_part(text, "anchor apple generic and identifier \""@ + bundle_id)
            &&& has_part(
                text,
                "\" and ((certificate leaf[field.1.2.840.113635.100.6.1.9] exists and entitlement[\"com.apple.developer.team-identifier\"] = \""@
                    + team_id,
            )
            &&& has_part(
                text,
                "\" and entitlement[\"com.apple.application-identifier\"] = \""@ + team_id + "."@
                    + bundle_id,
            )
            &&& has_part(
                text,
                "\") or (certificate 1[field.1.2.840.113635.100.6.2.6] exists and certificate leaf[field.1.2.840.113635.100.6.1.13] exists and certificate leaf[subject.OU] = \""@
                    + team_id + "\"))"@,
            )
        }),
{
    let a = "anchor apple generic and identifier \""@ + bundle_id;
    let b =
        "\" and ((certificate leaf[field.1.2.840.113635.100.6.1.9] exists and entitlement[\"com.apple.developer.team-identifier\"] = \""@
        + team_id;
    let c = "\" and entitlement[\"com.apple.application-identifier\"] = \""@ + team_id + "."@
        + bundle_id;
    let d =
        "\") or (certificate 1[field.1.2.840.113635.100.6.2.6] exists and certificate leaf[field.1.2.840.113635.100.6.1.13] exists and certificate leaf[subject.OU] = \""@
        + team_id + "\"))"@;
    let text = requirement_text(bundle_id, team_id);
    let e = Seq::<char>::empty();
    law_a_part_is_found(e, a, b + c + d);
    assert(e + a + (b + c + d) =~= text);
    law_a_part_is_found(a, b, c + d);
    assert(a + b + (c + d) =~= text);
    law_a_part_is_found(a + b, c, d);
    assert(a + b + c + d =~= text);
    law_a_part_is_found(a + b + c, d, e);
    assert(a + b + c + d + e =~= text);
}

} // verus!
