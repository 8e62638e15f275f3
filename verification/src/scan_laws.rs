//! What a look at the windows of an application finds.

#[allow(unused_imports)]
use crate::ax_tree::{
    below, hidden_at, lookup, node_password_field, parent_at, shown, CompletenessView, NodeView,
};
#[allow(unused_imports)]
use crate::identity::TrustedInfoView;
#[allow(unused_imports)]
use crate::inspection::{
    after_apps, after_window, after_windows, candidate_place, expected_prompts, in_front_titled,
    inspected, names_one_window, preferred, recorded, same_candidate, target_of, titled,
    visible_prompt, AppView, DetectErrorView, InspectionView, WindowTitleView,
};
#[allow(unused_imports)]
use crate::prompt::{body_text, says, submit_button, Expectation, PromptView, TargetView};
#[allow(unused_imports)]
use crate::prompt_scan::{
    direct_sheets, first_prompt, is_sheet, password_fields, prompt_at, prompt_in, scannable,
    scope_from, scope_of, sheet_prompts, shown_sheets, sole_sheet_prompt, some_states, title_at,
    with_child_sheets, ScanErrorView, ScanPlace,
};
#[allow(unused_imports)]
use crate::prompt_text::{
    identity_verified, named_email, same_username, session_title, title_matches, PromptOrigin,
};
#[allow(unused_imports)]
use crate::selection::{law_unique_true, unique_true, UniqueTrueIndex};
#[allow(unused_imports)]
use crate::sheet_episode::{parents, sheet_shown, SheetEpisodeErrorView};
#[allow(unused_imports)]
use crate::text::{same_ascii, trimmed};
#[allow(unused_imports)]
use crate::ax_tree::{node_label, node_role_text};
#[allow(unused_imports)]
use crate::inspection::readable_window;
#[allow(unused_imports)]
use crate::inspection::front_window;
#[allow(unused_imports)]
use crate::inspection::with_process;
#[allow(unused_imports)]
use crate::prompt::identity_selection;
#[allow(unused_imports)]
use crate::prompt::snapshots;
#[allow(unused_imports)]
use crate::sheet_episode::episode_presence;
use vstd::prelude::*;

verus! {

// ---------------------------------------------------------------------------
// The prompt round a password field
// ---------------------------------------------------------------------------

/// The password fields among some elements are those that are password fields, each once.
pub proof fn law_which_password_fields_are_found(nodes: Seq<NodeView>, ids: Seq<u64>, id: u64)
    ensures
        password_fields(nodes, ids).contains(id) <==> ids.contains(id) && (lookup(nodes, id)
            matches Some(n) && node_password_field(n)),
        password_fields(nodes, ids).no_duplicates(),
    decreases ids.len(),
{
    if ids.len() > 0 {
        let front = ids.drop_last();
        let found = password_fields(nodes, front);
        law_which_password_fields_are_found(nodes, front, id);
        law_which_password_fields_are_found(nodes, front, ids.last());
        assert(ids.contains(id) <==> front.contains(id) || id == ids.last()) by {
            if ids.contains(id) {
                let i = choose|i: int| 0 <= i < ids.len() && ids[i] == id;
                if i < front.len() {
                    assert(front[i] == id);
                }
            }
            if front.contains(id) {
                let i = choose|i: int| 0 <= i < front.len() && front[i] == id;
                assert(ids[i] == id);
            }
            assert(ids[ids.len() - 1] == ids.last());
        }
        let more = found.push(ids.last());
        assert(more.contains(id) <==> found.contains(id) || id == ids.last()) by {
            assert(more[found.len() as int] == ids.last());
            if found.contains(id) {
                let i = choose|i: int| 0 <= i < found.len() && found[i] == id;
                assert(more[i] == id);
            }
            if more.contains(id) {
                let i = choose|i: int| 0 <= i < more.len() && more[i] == id;
                if i < found.len() {
                    assert(found[i] == id);
                }
            }
        }
    }
}

/// The elements below one are all read, say that it is the prompt that is expected, and
/// hold a button that submits.
pub open spec fn makes_a_prompt(nodes: Seq<NodeView>, id: u64, x: Expectation) -> bool {
    let ids = below(nodes, id).elements;
    &&& below(nodes, id).completeness == CompletenessView::Complete
    &&& named_email(body_text(nodes, ids)) matches Some(email) && same_username(email, x.email)
    &&& identity_verified(x.title, body_text(nodes, ids), x.origin)
    &&& submit_button(nodes, ids, false) is Some
}

/// The scope of a password field is the nearest element above it, up to twelve levels and
/// not beyond the root, that makes a prompt.
pub proof fn law_the_nearest_scope_counts(
    nodes: Seq<NodeView>,
    root: u64,
    field: u64,
    way: Seq<u64>,
    x: Expectation,
)
    requires
        1 <= way.len() <= 12,
        parent_at(nodes, field) == Some(way[0]),
        forall|i: int|
            0 <= i < way.len() - 1 ==> parent_at(nodes, #[trigger] way[i]) == Some(way[i + 1]),
        forall|i: int|
            0 <= i < way.len() - 1 ==> (#[trigger] way[i]) != root && below(
                nodes,
                way[i],
            ).completeness == CompletenessView::Complete && !makes_a_prompt(nodes, way[i], x),
        below(nodes, way.last()).completeness == CompletenessView::Complete,
    ensures
        makes_a_prompt(nodes, way.last(), x) ==> scope_of(nodes, root, field, x) == Ok::<
            Option<u64>,
            CompletenessView,
        >(Some(way.last())),
        !makes_a_prompt(nodes, way.last(), x) && way.last() == root ==> scope_of(
            nodes,
            root,
            field,
            x,
        ) == Ok::<Option<u64>, CompletenessView>(None),
{
    lemma_scope(nodes, root, way, x, 12);
}

proof fn lemma_scope(nodes: Seq<NodeView>, root: u64, way: Seq<u64>, x: Expectation, steps: int)
    requires
        1 <= way.len() <= steps,
        forall|i: int|
            0 <= i < way.len() - 1 ==> parent_at(nodes, #[trigger] way[i]) == Some(way[i + 1]),
        forall|i: int|
            0 <= i < way.len() - 1 ==> (#[trigger] way[i]) != root && below(
                nodes,
                way[i],
            ).completeness == CompletenessView::Complete && !makes_a_prompt(nodes, way[i], x),
        below(nodes, way.last()).completeness == CompletenessView::Complete,
    ensures
        makes_a_prompt(nodes, way.last(), x) ==> scope_from(nodes, root, Some(way[0]), x, steps)
            == Ok::<Option<u64>, CompletenessView>(Some(way.last())),
        !makes_a_prompt(nodes, way.last(), x) && way.last() == root ==> scope_from(
            nodes,
            root,
            Some(way[0]),
            x,
            steps,
        ) == Ok::<Option<u64>, CompletenessView>(None),
    decreases way.len(),
{
    if way.len() > 1 {
        let rest = way.drop_first();
        assert(parent_at(nodes, way[0]) == Some(way[1]));
        assert(!makes_a_prompt(nodes, way[0], x));
        assert forall|i: int| 0 <= i < rest.len() - 1 implies parent_at(nodes, #[trigger] rest[i])
            == Some(rest[i + 1]) by {
            assert(parent_at(nodes, way[i + 1]) == Some(way[i + 2]));
        }
        assert forall|i: int| 0 <= i < rest.len() - 1 implies (#[trigger] rest[i]) != root && below(
            nodes,
            rest[i],
        ).completeness == CompletenessView::Complete && !makes_a_prompt(nodes, rest[i], x) by {
            assert(way[i + 1] != root);
        }
        lemma_scope(nodes, root, rest, x, steps - 1);
    } else {
        assert(way[0] == way.last());
    }
}

/// Elements that name an account and are known for a prompt hold the prompt of the first
/// of their password fields that has a scope; everything in it is what was read.
pub proof fn law_a_prompt_is_found(
    nodes: Seq<NodeView>,
    p: ScanPlace,
    ids: Seq<u64>,
    email: Seq<char>,
    k: int,
    scope: u64,
)
    requires
        named_email(body_text(nodes, ids)) == Some(email),
        identity_verified(p.target.window_title, body_text(nodes, ids), p.origin),
        0 <= k < password_fields(nodes, ids).len(),
        forall|i: int|
            0 <= i < k ==> scope_of(
                nodes,
                p.root,
                #[trigger] password_fields(nodes, ids)[i],
                Expectation { email, title: p.target.window_title, origin: p.origin },
            ) == Ok::<Option<u64>, CompletenessView>(None),
        scope_of(
            nodes,
            p.root,
            password_fields(nodes, ids)[k],
            Expectation { email, title: p.target.window_title, origin: p.origin },
        ) == Ok::<Option<u64>, CompletenessView>(Some(scope)),
    ensures
        prompt_in(nodes, p, ids) matches Ok(Some(found)) && {
            &&& found.target == p.target
            &&& found.email == Some(email)
            &&& found.origin == p.origin
            &&& found.trusted_process == p.trusted_process
            &&& found.target_window == p.target_window
            &&& found.native_container == p.root
            &&& found.prompt_root == scope
            &&& found.password_field == password_fields(nodes, ids)[k]
            &&& found.submit_button == submit_button(nodes, below(nodes, scope).elements, false)
        },
{
    lemma_first_prompt(nodes, p, email, password_fields(nodes, ids), k, scope);
}

proof fn lemma_first_prompt(
    nodes: Seq<NodeView>,
    p: ScanPlace,
    email: Seq<char>,
    fields: Seq<u64>,
    k: int,
    scope: u64,
)
    requires
        0 <= k < fields.len(),
        forall|i: int|
            0 <= i < k ==> scope_of(
                nodes,
                p.root,
                #[trigger] fields[i],
                Expectation { email, title: p.target.window_title, origin: p.origin },
            ) == Ok::<Option<u64>, CompletenessView>(None),
        scope_of(
            nodes,
            p.root,
            fields[k],
            Expectation { email, title: p.target.window_title, origin: p.origin },
        ) == Ok::<Option<u64>, CompletenessView>(Some(scope)),
    ensures
        first_prompt(nodes, p, email, fields) == Ok::<Option<PromptView>, ScanErrorView>(
            Some(prompt_at(nodes, p, email, fields[k], scope)),
        ),
    decreases k,
{
    if k > 0 {
        let rest = fields.drop_first();
        assert(scope_of(
            nodes,
            p.root,
            fields[0],
            Expectation { email, title: p.target.window_title, origin: p.origin },
        ) == Ok::<Option<u64>, CompletenessView>(None));
        assert forall|i: int| 0 <= i < k - 1 implies scope_of(
            nodes,
            p.root,
            #[trigger] rest[i],
            Expectation { email, title: p.target.window_title, origin: p.origin },
        ) == Ok::<Option<u64>, CompletenessView>(None) by {
            assert(rest[i] == fields[i + 1]);
        }
        lemma_first_prompt(nodes, p, email, rest, k - 1, scope);
    }
}

/// Elements that name no account, or that are not known for a prompt, hold none.
pub proof fn law_no_prompt_without_account_and_words(
    nodes: Seq<NodeView>,
    p: ScanPlace,
    ids: Seq<u64>,
)
    requires
        named_email(body_text(nodes, ids)) is None || !identity_verified(
            p.target.window_title,
            body_text(nodes, ids),
            p.origin,
        ),
    ensures
        prompt_in(nodes, p, ids) == Ok::<Option<PromptView>, ScanErrorView>(None),
{
}

// ---------------------------------------------------------------------------
// Sheets
// ---------------------------------------------------------------------------

/// The sheets of a window are those it says it has and those of its children that are
/// sheets; of these, the ones that are shown and whose parent is the window.
pub proof fn law_which_sheets_are_shown(nodes: Seq<NodeView>, window: u64, n: NodeView, id: u64)
    requires
        lookup(nodes, window) == Some(n),
        n.sheets is Some,
        n.children is Some,
    ensures
        shown_sheets(nodes, window) matches Ok(sheets) && (sheets.contains(id) <==> {
            &&& n.sheets->0.contains(id) || (n.children->0.contains(id) && (lookup(nodes, id)
                matches Some(m) && (m.role matches Some(role) && same_ascii(role, "AXSheet"@))))
            &&& !(lookup(nodes, id) matches Some(m) && m.hidden == Some(true))
            &&& parent_at(nodes, id) == Some(window)
        }),
{
    lemma_child_sheets(nodes, n.sheets->0, n.children->0, id);
    lemma_direct_sheets(nodes, window, with_child_sheets(nodes, n.sheets->0, n.children->0), id);
}

/// Where the sheets or the children of a window could not be read, nothing is said of its
/// sheets.
pub proof fn law_unreadable_sheets_are_reported(nodes: Seq<NodeView>, window: u64)
    ensures
        lookup(nodes, window) is None ==> shown_sheets(nodes, window) == Err::<
            Seq<u64>,
            ScanErrorView,
        >(ScanErrorView::SheetsUnavailable),
        lookup(nodes, window) matches Some(n) ==> {
            &&& n.sheets is None ==> shown_sheets(nodes, window) == Err::<
                Seq<u64>,
                ScanErrorView,
            >(ScanErrorView::SheetsUnavailable)
            &&& n.sheets is Some && n.children is None ==> shown_sheets(nodes, window) == Err::<
                Seq<u64>,
                ScanErrorView,
            >(ScanErrorView::ChildrenUnavailable)
        },
{
}

proof fn lemma_push_contains(s: Seq<u64>, last: u64, id: u64)
    ensures
        s.push(last).contains(id) <==> s.contains(id) || id == last,
{
    let more = s.push(last);
    assert(more[s.len() as int] == last);
    if s.contains(id) {
        let i = choose|i: int| 0 <= i < s.len() && s[i] == id;
        assert(more[i] == id);
    }
    if more.contains(id) {
        let i = choose|i: int| 0 <= i < more.len() && more[i] == id;
        if i < s.len() {
            assert(s[i] == id);
        }
    }
}

proof fn lemma_split_last(s: Seq<u64>, id: u64)
    requires
        s.len() > 0,
    ensures
        s.contains(id) <==> s.drop_last().contains(id) || id == s.last(),
{
    assert(s.drop_last().push(s.last()) =~= s);
    lemma_push_contains(s.drop_last(), s.last(), id);
}

proof fn lemma_child_sheets(nodes: Seq<NodeView>, sheets: Seq<u64>, children: Seq<u64>, id: u64)
    ensures
        with_child_sheets(nodes, sheets, children).contains(id) <==> sheets.contains(id) || (
        children.contains(id) && is_sheet(nodes, id)),
    decreases children.len(),
{
    if children.len() > 0 {
        let found = with_child_sheets(nodes, sheets, children.drop_last());
        lemma_child_sheets(nodes, sheets, children.drop_last(), id);
        lemma_split_last(children, id);
        lemma_push_contains(found, children.last(), id);
    }
}

proof fn lemma_direct_sheets(nodes: Seq<NodeView>, window: u64, sheets: Seq<u64>, id: u64)
    ensures
        direct_sheets(nodes, window, sheets).contains(id) <==> sheets.contains(id) && !hidden_at(
            nodes,
            id,
        ) && parent_at(nodes, id) == Some(window),
    decreases sheets.len(),
{
    if sheets.len() > 0 {
        let found = direct_sheets(nodes, window, sheets.drop_last());
        lemma_direct_sheets(nodes, window, sheets.drop_last(), id);
        lemma_split_last(sheets, id);
        lemma_push_contains(found, sheets.last(), id);
    }
}

/// What was found on one sheet, which was read whole.
pub open spec fn found_on_sheet(
    nodes: Seq<NodeView>,
    target: TargetView,
    window: u64,
    sheet: u64,
    trusted_process: TrustedInfoView,
    found: Option<PromptView>,
) -> bool {
    &&& below(nodes, sheet).completeness == CompletenessView::Complete
    &&& prompt_in(
        nodes,
        ScanPlace {
            target: TargetView { frontmost: true, ..target },
            target_window: window,
            root: sheet,
            origin: PromptOrigin::Sheet,
            trusted_process,
        },
        below(nodes, sheet).elements,
    ) == Ok::<Option<PromptView>, ScanErrorView>(found)
}

/// Of at most eight sheets, all read, the one that alone holds a prompt gives it; where
/// none does there is none, and where two do it is not clear.
pub proof fn law_the_only_prompt_on_the_sheets(
    nodes: Seq<NodeView>,
    target: TargetView,
    window: u64,
    sheets: Seq<u64>,
    trusted_process: TrustedInfoView,
    found: Seq<Option<PromptView>>,
    i: int,
    j: int,
)
    requires
        sheets.len() <= 8,
        found.len() == sheets.len(),
        forall|k: int|
            0 <= k < sheets.len() ==> found_on_sheet(
                nodes,
                target,
                window,
                #[trigger] sheets[k],
                trusted_process,
                found[k],
            ),
        0 <= i < found.len(),
        0 <= j < found.len(),
    ensures
        ({
            let out = sole_sheet_prompt(nodes, target, window, sheets, trusted_process);
            &&& (forall|k: int| 0 <= k < found.len() ==> (#[trigger] found[k]) is None) ==> out
                == Ok::<Option<PromptView>, ScanErrorView>(None)
            &&& found[i] is Some && (forall|k: int|
                0 <= k < found.len() && k != i ==> (#[trigger] found[k]) is None) ==> out == Ok::<
                Option<PromptView>,
                ScanErrorView,
            >(found[i])
            &&& i != j && found[i] is Some && found[j] is Some ==> out == Err::<
                Option<PromptView>,
                ScanErrorView,
            >(ScanErrorView::MultipleSheets)
        }),
{
    lemma_sheet_prompts(nodes, target, window, sheets, trusted_process, found);
    let states = some_states(found);
    assert(forall|k: int| 0 <= k < found.len() ==> states[k] == ((#[trigger] found[k]) is Some));
    law_unique_true(states, i as usize);
    law_unique_true(states, j as usize);
    lemma_no_true(states);
    if i != j && found[i] is Some && found[j] is Some {
        assert(states[i] && states[j]);
        match unique_true(states) {
            UniqueTrueIndex::One(index) => {
                law_unique_true(states, index);
            },
            _ => {},
        }
    }
}

/// More than eight sheets are too many to read.
pub proof fn law_too_many_sheets(
    nodes: Seq<NodeView>,
    target: TargetView,
    window: u64,
    sheets: Seq<u64>,
    trusted_process: TrustedInfoView,
)
    requires
        sheets.len() > 8,
    ensures
        sole_sheet_prompt(nodes, target, window, sheets, trusted_process) == Err::<
            Option<PromptView>,
            ScanErrorView,
        >(ScanErrorView::TooManySheets),
{
}

proof fn lemma_no_true(states: Seq<bool>)
    ensures
        unique_true(states) is Nowhere <==> forall|k: int|
            0 <= k < states.len() ==> !(#[trigger] states[k]),
    decreases states.len(),
{
    if states.len() > 0 {
        let front = states.drop_last();
        lemma_no_true(front);
        if forall|k: int| 0 <= k < front.len() ==> !(#[trigger] front[k]) {
            if !states.last() {
                assert forall|k: int| 0 <= k < states.len() implies !(#[trigger] states[k]) by {
                    if k < front.len() {
                        assert(!front[k]);
                    }
                }
            } else {
                assert(states[states.len() - 1]);
            }
        } else {
            let k = choose|k: int| 0 <= k < front.len() && front[k];
            assert(states[k]);
        }
    }
}

proof fn lemma_sheet_prompts(
    nodes: Seq<NodeView>,
    target: TargetView,
    window: u64,
    sheets: Seq<u64>,
    trusted_process: TrustedInfoView,
    found: Seq<Option<PromptView>>,
)
    requires
        found.len() == sheets.len(),
        forall|k: int|
            0 <= k < sheets.len() ==> found_on_sheet(
                nodes,
                target,
                window,
                #[trigger] sheets[k],
                trusted_process,
                found[k],
            ),
    ensures
        sheet_prompts(nodes, target, window, sheets, trusted_process) == Ok::<
            Seq<Option<PromptView>>,
            ScanErrorView,
        >(found),
    decreases sheets.len(),
{
    if sheets.len() > 0 {
        let front = sheets.drop_last();
        assert forall|k: int| 0 <= k < front.len() implies found_on_sheet(
            nodes,
            target,
            window,
            #[trigger] front[k],
            trusted_process,
            found.drop_last()[k],
        ) by {
            assert(front[k] == sheets[k]);
        }
        lemma_sheet_prompts(
            nodes,
            target,
            window,
            front,
            trusted_process,
            found.drop_last(),
        );
        let last = sheets[sheets.len() - 1];
        assert(found_on_sheet(nodes, target, window, last, trusted_process, found.last()));
        assert(found.drop_last().push(found.last()) =~= found);
    } else {
        assert(found =~= Seq::<Option<PromptView>>::empty());
    }
}

// ---------------------------------------------------------------------------
// Whether a sheet is still shown
// ---------------------------------------------------------------------------

/// A window of the process that is shown and has the title, but for case and white space.
pub open spec fn has_the_title(
    nodes: Seq<NodeView>,
    window: u64,
    process_id: i32,
    title: Seq<char>,
) -> bool {
    lookup(nodes, window) matches Some(n) && {
        &&& n.process_id == Some(process_id)
        &&& n.hidden != Some(true)
        &&& n.title matches Some(own) && trimmed(own).len() > 0 && same_ascii(
            trimmed(own),
            trimmed(title),
        )
    }
}

proof fn lemma_parents(
    nodes: Seq<NodeView>,
    process_id: i32,
    windows: Seq<u64>,
    title: Seq<char>,
    id: u64,
)
    ensures
        parents(nodes, process_id, windows, title).contains(id) <==> windows.contains(id)
            && has_the_title(nodes, id, process_id, title),
        parents(nodes, process_id, windows, title).no_duplicates(),
    decreases windows.len(),
{
    if windows.len() > 0 {
        let found = parents(nodes, process_id, windows.drop_last(), title);
        lemma_parents(nodes, process_id, windows.drop_last(), title, id);
        lemma_parents(nodes, process_id, windows.drop_last(), title, windows.last());
        lemma_split_last(windows, id);
        lemma_push_contains(found, windows.last(), id);
    }
}

/// A sheet that was put off is looked for on the one window that has its title. Without
/// such a window none is shown; on two it is not clear. On the one, sheets are shown where
/// there are any, up to eight.
pub proof fn law_a_sheet_is_looked_for_on_its_window(
    app: AppView,
    title: Seq<char>,
    windows: Seq<u64>,
    a: u64,
    b: u64,
)
    requires
        trimmed(title).len() > 0,
        app.application == Some(app.process.pid),
        app.windows == Some(windows),
    ensures
        ({
            let pid = app.process.pid;
            let out = sheet_shown(app, title);
            &&& (forall|w: u64|
                windows.contains(w) ==> !(#[trigger] has_the_title(app.nodes, w, pid, title)))
                ==> out == Ok::<bool, SheetEpisodeErrorView>(false)
            &&& windows.contains(a) && has_the_title(app.nodes, a, pid, title) && (forall|w: u64|
                windows.contains(w) && #[trigger] has_the_title(app.nodes, w, pid, title) ==> w
                    == a) ==> out == (match shown_sheets(app.nodes, a) {
                Err(e) => Err::<bool, SheetEpisodeErrorView>(SheetEpisodeErrorView::Scan(e)),
                Ok(sheets) => if sheets.len() <= 8 {
                    Ok::<bool, SheetEpisodeErrorView>(sheets.len() > 0)
                } else {
                    Err::<bool, SheetEpisodeErrorView>(SheetEpisodeErrorView::AmbiguousSheets)
                },
            })
            &&& a != b && windows.contains(a) && windows.contains(b) && has_the_title(
                app.nodes,
                a,
                pid,
                title,
            ) && has_the_title(app.nodes, b, pid, title) ==> out == Err::<
                bool,
                SheetEpisodeErrorView,
            >(SheetEpisodeErrorView::AmbiguousParent)
        }),
{
    let pid = app.process.pid;
    let found = parents(app.nodes, pid, windows, title);
    assert forall|w: u64| #[trigger] found.contains(w) <==> windows.contains(w) && has_the_title(
        app.nodes,
        w,
        pid,
        title,
    ) by {
        lemma_parents(app.nodes, pid, windows, title, w);
    }
    lemma_parents(app.nodes, pid, windows, title, a);
    if found.len() > 0 {
        assert(found.contains(found[0]));
    }
    if found.len() > 1 {
        assert(found.contains(found[1]));
        assert(found[0] != found[1]);
    }
    if found.contains(a) {
        let i = choose|i: int| 0 <= i < found.len() && found[i] == a;
        if a != b && found.contains(b) {
            let j = choose|j: int| 0 <= j < found.len() && found[j] == b;
            assert(found.len() > 1);
        }
    }
}

// ---------------------------------------------------------------------------
// A look at the windows
// ---------------------------------------------------------------------------

/// A look lists every window that is shown, in order, with its process and its title,
/// whether it is expected or not; and it finds a session exactly where the title of one
/// that is expected is one of a session.
pub proof fn law_every_window_is_listed(
    i: InspectionView,
    app: AppView,
    ids: Seq<u64>,
    n: int,
    selected: Option<usize>,
    expected_title: Option<Seq<char>>,
)
    requires
        0 <= n <= ids.len(),
        after_windows(i, app, ids, n, selected, expected_title) is Ok,
    ensures
        ({
            let out = after_windows(i, app, ids, n, selected, expected_title)->Ok_0;
            &&& out.window_titles.len() == i.window_titles.len() + ids.len() - n
            &&& forall|k: int|
                0 <= k < i.window_titles.len() ==> (#[trigger] out.window_titles[k])
                    == i.window_titles[k]
            &&& forall|k: int|
                n <= k < ids.len() ==> out.window_titles[i.window_titles.len() + k - n] == (
                WindowTitleView {
                    process_id: app.process.pid,
                    title: title_at(app.nodes, #[trigger] ids[k]),
                    window: Some(ids[k]),
                })
            &&& out.has_session <==> i.has_session || exists|k: int|
                n <= k < ids.len() && session_title(title_at(app.nodes, #[trigger] ids[k]))
                    && title_matches(title_at(app.nodes, ids[k]), expected_title)
        }),
    decreases ids.len() - n,
{
    if n < ids.len() {
        let frontmost = selected is Some && selected->0 == n;
        let next = after_window(i, app, ids[n], frontmost, expected_title)->Ok_0;
        lemma_one_window(i, app, ids[n], frontmost, expected_title);
        law_every_window_is_listed(next, app, ids, n + 1, selected, expected_title);
        let out = after_windows(i, app, ids, n, selected, expected_title)->Ok_0;
        assert forall|k: int| n <= k < ids.len() implies out.window_titles[i.window_titles.len() + k
            - n] == (WindowTitleView {
            process_id: app.process.pid,
            title: title_at(app.nodes, #[trigger] ids[k]),
            window: Some(ids[k]),
        }) by {
            if k == n {
                let at = i.window_titles.len() as int;
                assert(out.window_titles[at] == next.window_titles[at]);
            } else {
                assert(out.window_titles[next.window_titles.len() + k - (n + 1)] == (
                WindowTitleView {
                    process_id: app.process.pid,
                    title: title_at(app.nodes, ids[k]),
                    window: Some(ids[k]),
                }));
            }
        }
        assert forall|k: int| 0 <= k < i.window_titles.len() implies (
        #[trigger] out.window_titles[k]) == i.window_titles[k] by {
            assert(out.window_titles[k] == next.window_titles[k]);
        }
    }
}

proof fn lemma_one_window(
    i: InspectionView,
    app: AppView,
    window: u64,
    frontmost: bool,
    expected_title: Option<Seq<char>>,
)
    requires
        after_window(i, app, window, frontmost, expected_title) is Ok,
    ensures
        ({
            let out = after_window(i, app, window, frontmost, expected_title)->Ok_0;
            &&& out.window_titles == i.window_titles.push(titled(app, window))
            &&& out.has_session == (i.has_session || (session_title(title_at(app.nodes, window))
                && title_matches(title_at(app.nodes, window), expected_title)))
        }),
{
}

/// The prompt on the sheet of the window in front, where it is expected, is one of those
/// that a look finds; and so is the prompt in the window itself, where it has no sheet and
/// is a dialog of a login.
pub proof fn law_the_prompt_in_front_is_found(
    i: InspectionView,
    app: AppView,
    window: u64,
    expected_title: Option<Seq<char>>,
    sheets: Seq<u64>,
    p: PromptView,
)
    requires
        title_matches(title_at(app.nodes, window), expected_title),
        shown_sheets(app.nodes, window) == Ok::<Seq<u64>, ScanErrorView>(sheets),
    ensures
        sheets.len() > 0 && sole_sheet_prompt(
            app.nodes,
            TargetView {
                process_id: app.process.pid,
                window_title: title_at(app.nodes, window),
                frontmost: true,
            },
            window,
            sheets,
            app.process,
        ) == Ok::<Option<PromptView>, ScanErrorView>(Some(p)) ==> (after_window(
            i,
            app,
            window,
            true,
            expected_title,
        ) matches Ok(out) && out.prompts == recorded(i.prompts, p)),
        sheets.len() == 0 && scannable(app.nodes, window, title_at(app.nodes, window)) && below(
            app.nodes,
            window,
        ).completeness == CompletenessView::Complete && prompt_in(
            app.nodes,
            ScanPlace {
                target: TargetView {
                    process_id: app.process.pid,
                    window_title: title_at(app.nodes, window),
                    frontmost: true,
                },
                target_window: window,
                root: window,
                origin: PromptOrigin::Window,
                trusted_process: app.process,
            },
            below(app.nodes, window).elements,
        ) == Ok::<Option<PromptView>, ScanErrorView>(Some(p)) ==> (after_window(
            i,
            app,
            window,
            true,
            expected_title,
        ) matches Ok(out) && out.prompts == recorded(i.prompts, p)),
{
    if sheets.len() == 0 {
        let target = target_of(app, window, true);
        assert(sheet_prompts(app.nodes, target, window, sheets, app.process) == Ok::<
            Seq<Option<PromptView>>,
            ScanErrorView,
        >(Seq::empty()));
        assert(some_states(Seq::<Option<PromptView>>::empty()).len() == 0);
    }
}

/// A prompt that is new is added to those that were found; one that was found before is
/// not, but where it was found in a window and now on a sheet, the sheet counts.
pub proof fn law_a_prompt_is_recorded_once(prompts: Seq<PromptView>, p: PromptView, k: int)
    requires
        0 <= k <= prompts.len(),
        forall|i: int| 0 <= i < k ==> !same_candidate(#[trigger] prompts[i], p),
        k < prompts.len() ==> same_candidate(prompts[k], p),
    ensures
        k == prompts.len() ==> recorded(prompts, p) == prompts.push(p),
        k < prompts.len() && prompts[k].origin == PromptOrigin::Window && p.origin
            == PromptOrigin::Sheet ==> recorded(prompts, p) == prompts.update(k, p),
        k < prompts.len() && !(prompts[k].origin == PromptOrigin::Window && p.origin
            == PromptOrigin::Sheet) ==> recorded(prompts, p) == prompts,
{
    lemma_candidate_place(prompts, p, 0, k);
}

proof fn lemma_candidate_place(prompts: Seq<PromptView>, p: PromptView, from: int, k: int)
    requires
        0 <= from <= k <= prompts.len(),
        forall|i: int| from <= i < k ==> !same_candidate(#[trigger] prompts[i], p),
        k < prompts.len() ==> same_candidate(prompts[k], p),
    ensures
        candidate_place(prompts, p, from) == if k < prompts.len() {
            Some(k)
        } else {
            None
        },
    decreases k - from,
{
    if from < k {
        assert(!same_candidate(prompts[from], p));
        lemma_candidate_place(prompts, p, from + 1, k);
    }
}

/// The prompt that is preferred is the one that alone is in front.
pub proof fn law_the_prompt_that_alone_is_in_front(prompts: Seq<PromptView>, k: usize)
    requires
        prompts.len() <= usize::MAX,
        k < prompts.len(),
        prompts[k as int].target.frontmost,
    ensures
        (forall|i: int|
            0 <= i < prompts.len() && i != k ==> !(#[trigger] prompts[i]).target.frontmost)
            ==> preferred(prompts) == Some(prompts[k as int]),
        (exists|i: int|
            0 <= i < prompts.len() && i != k && (#[trigger] prompts[i]).target.frontmost)
            ==> preferred(prompts) is None,
{
    let states = crate::inspection::frontmost_states(prompts);
    assert(forall|i: int|
        0 <= i < prompts.len() ==> states[i] == (#[trigger] prompts[i]).target.frontmost);
    law_unique_true(states, k);
    if exists|i: int|
        0 <= i < prompts.len() && i != k && (#[trigger] prompts[i]).target.frontmost {
        let i = choose|i: int|
            0 <= i < prompts.len() && i != k && (#[trigger] prompts[i]).target.frontmost;
        assert(states[i] && states[k as int]);
        match unique_true(states) {
            UniqueTrueIndex::One(index) => {
                law_unique_true(states, index);
            },
            _ => {},
        }
    }
}

/// An application whose windows could not be read makes the look fail; one that is not the
/// process that it was found as is passed over, and so is one that is not expected.
pub proof fn law_which_applications_are_looked_at(
    i: InspectionView,
    apps: Seq<AppView>,
    n: int,
    expected_process_id: Option<i32>,
    expected_title: Option<Seq<char>>,
)
    requires
        0 <= n < apps.len(),
    ensures
        expected_process_id matches Some(pid) && apps[n].process.pid != pid || apps[n].application
            != Some(apps[n].process.pid) ==> after_apps(
            i,
            apps,
            n,
            expected_process_id,
            expected_title,
        ) == after_apps(i, apps, n + 1, expected_process_id, expected_title),
        (expected_process_id is None || expected_process_id == Some(apps[n].process.pid))
            && apps[n].application == Some(apps[n].process.pid) && apps[n].windows is None
            ==> after_apps(i, apps, n, expected_process_id, expected_title) == Err::<
            InspectionView,
            ScanErrorView,
        >(ScanErrorView::WindowsUnavailable),
        inspected(Seq::empty(), expected_process_id, expected_title) matches Ok(none)
            && !none.process_found,
        inspected(apps, expected_process_id, expected_title) matches Ok(out) ==> {
            &&& out.prompt == preferred(out.prompts)
        },
{
}

// ---------------------------------------------------------------------------
// The prompt that is expected
// ---------------------------------------------------------------------------

/// A prompt that is in front and fits what is expected of its process, its title and its
/// account, as far as anything is.
pub open spec fn fits(
    p: PromptView,
    expected_process_id: Option<i32>,
    expected_title: Option<Seq<char>>,
    expected_email: Option<Seq<char>>,
) -> bool {
    &&& p.target.frontmost
    &&& expected_process_id is Some ==> p.target.process_id == expected_process_id->0
    &&& title_matches(p.target.window_title, expected_title)
    &&& expected_email is Some ==> p.email is Some && same_username(p.email->0, expected_email->0)
}

proof fn lemma_fitting_prompts(
    prompts: Seq<PromptView>,
    pid: Option<i32>,
    title: Option<Seq<char>>,
    email: Option<Seq<char>>,
)
    ensures
        in_front_titled(expected_prompts(prompts, pid, None, email), title) == prompts.filter(
            |p: PromptView| fits(p, pid, title, email),
        ),
    decreases prompts.len(),
{
    reveal(Seq::filter);
    if prompts.len() > 0 {
        lemma_fitting_prompts(prompts.drop_last(), pid, title, email);
        let found = expected_prompts(prompts.drop_last(), pid, None, email);
        assert(found.push(prompts.last()).drop_last() =~= found);
    }
}

/// A filter that exactly one place passes keeps what stands there.
proof fn lemma_filter_one(
    prompts: Seq<PromptView>,
    f: spec_fn(PromptView) -> bool,
    k: int,
)
    requires
        0 <= k < prompts.len(),
        f(prompts[k]),
        forall|i: int| 0 <= i < prompts.len() && i != k ==> !f(#[trigger] prompts[i]),
    ensures
        prompts.filter(f) == seq![prompts[k]],
    decreases prompts.len(),
{
    reveal(Seq::filter);
    let front = prompts.drop_last();
    if k == prompts.len() - 1 {
        lemma_filter_none(front, f);
        assert(Seq::<PromptView>::empty().push(prompts[k]) =~= seq![prompts[k]]);
    } else {
        assert(!f(prompts[prompts.len() - 1]));
        assert(front[k] == prompts[k]);
        lemma_filter_one(front, f, k);
    }
}

proof fn lemma_filter_none(prompts: Seq<PromptView>, f: spec_fn(PromptView) -> bool)
    requires
        forall|i: int| 0 <= i < prompts.len() ==> !f(#[trigger] prompts[i]),
    ensures
        prompts.filter(f) == Seq::<PromptView>::empty(),
    decreases prompts.len(),
{
    reveal(Seq::filter);
    if prompts.len() > 0 {
        lemma_filter_none(prompts.drop_last(), f);
        assert(!f(prompts[prompts.len() - 1]));
    }
}

proof fn lemma_filter_two(
    prompts: Seq<PromptView>,
    f: spec_fn(PromptView) -> bool,
    j: int,
    k: int,
)
    requires
        0 <= j < k < prompts.len(),
        f(prompts[j]),
        f(prompts[k]),
    ensures
        prompts.filter(f).len() > 1,
    decreases prompts.len(),
{
    reveal(Seq::filter);
    let front = prompts.drop_last();
    if k < prompts.len() - 1 {
        assert(front[j] == prompts[j] && front[k] == prompts[k]);
        lemma_filter_two(front, f, j, k);
    } else {
        assert(front[j] == prompts[j]);
        lemma_filter_some(front, f, j);
    }
}

proof fn lemma_filter_some(prompts: Seq<PromptView>, f: spec_fn(PromptView) -> bool, j: int)
    requires
        0 <= j < prompts.len(),
        f(prompts[j]),
    ensures
        prompts.filter(f).len() > 0,
    decreases prompts.len(),
{
    reveal(Seq::filter);
    if j < prompts.len() - 1 {
        assert(prompts.drop_last()[j] == prompts[j]);
        lemma_filter_some(prompts.drop_last(), f, j);
    }
}

/// The prompt that alone fits is the one that is visible, where its account was expected or
/// its title tells its window; without one there is none, and two are not told apart.
pub proof fn law_the_only_prompt_that_fits_is_visible(
    i: InspectionView,
    pid: Option<i32>,
    title: Option<Seq<char>>,
    email: Option<Seq<char>>,
    j: int,
    k: int,
)
    ensures
        ({
            let out = visible_prompt(i, pid, title, email);
            &&& (forall|n: int|
                0 <= n < i.prompts.len() ==> !fits(#[trigger] i.prompts[n], pid, title, email))
                ==> out == Ok::<Option<PromptView>, DetectErrorView>(None)
            &&& 0 <= k < i.prompts.len() && fits(i.prompts[k], pid, title, email) && (forall|n: int|
                0 <= n < i.prompts.len() && n != k ==> !fits(
                    #[trigger] i.prompts[n],
                    pid,
                    title,
                    email,
                )) ==> out == (if email is Some || names_one_window(
                i.window_titles,
                i.prompts[k].target.process_id,
                i.prompts[k].target.window_title,
            ) {
                Ok::<Option<PromptView>, DetectErrorView>(Some(i.prompts[k]))
            } else {
                Err::<Option<PromptView>, DetectErrorView>(DetectErrorView::MultipleWindows)
            })
            &&& 0 <= j < k < i.prompts.len() && fits(i.prompts[j], pid, title, email) && fits(
                i.prompts[k],
                pid,
                title,
                email,
            ) ==> out == Err::<Option<PromptView>, DetectErrorView>(
                DetectErrorView::MultiplePrompts,
            )
        }),
{
    let f = |p: PromptView| fits(p, pid, title, email);
    lemma_fitting_prompts(i.prompts, pid, title, email);
    if forall|n: int| 0 <= n < i.prompts.len() ==> !f(#[trigger] i.prompts[n]) {
        lemma_filter_none(i.prompts, f);
    }
    if 0 <= k < i.prompts.len() && fits(i.prompts[k], pid, title, email) {
        if forall|n: int| 0 <= n < i.prompts.len() && n != k ==> !f(#[trigger] i.prompts[n]) {
            lemma_filter_one(i.prompts, f, k);
        }
        if 0 <= j < k && fits(i.prompts[j], pid, title, email) {
            lemma_filter_two(i.prompts, f, j, k);
        }
    }
}

/// The prompts that are expected are those that fit the process, the title and the account,
/// as far as these are given, in order.
pub proof fn law_which_prompts_are_expected(
    prompts: Seq<PromptView>,
    pid: Option<i32>,
    title: Option<Seq<char>>,
    email: Option<Seq<char>>,
)
    ensures
        expected_prompts(prompts, pid, title, email) == prompts.filter(
            |p: PromptView|
                (pid is Some ==> p.target.process_id == pid->0) && title_matches(
                    p.target.window_title,
                    title,
                ) && (email is Some ==> p.email is Some && same_username(p.email->0, email->0)),
        ),
    decreases prompts.len(),
{
    reveal(Seq::filter);
    if prompts.len() > 0 {
        law_which_prompts_are_expected(prompts.drop_last(), pid, title, email);
    }
}

/// The prompt that was found is described by its field, and its texts are those below its
/// scope, as far as they are kept.
pub proof fn law_how_a_found_prompt_is_described(
    nodes: Seq<NodeView>,
    p: ScanPlace,
    email: Seq<char>,
    field: u64,
    scope: u64,
)
    ensures
        ({
            let found = prompt_at(nodes, p, email, field, scope);
            &&& lookup(nodes, field) matches Some(n) ==> found.password_field_description
                == node_label(n) && found.password_field_role == node_role_text(n)
            &&& found.identity_text == identity_selection(
                snapshots(nodes, below(nodes, scope).elements),
                Expectation { email, title: p.target.window_title, origin: p.origin },
            )
        }),
{
}

/// A look aims at the first window that is expected, and at the one in front as soon as
/// there is one.
pub proof fn law_what_a_look_aims_at(
    i: InspectionView,
    app: AppView,
    window: u64,
    frontmost: bool,
    expected_title: Option<Seq<char>>,
)
    requires
        after_window(i, app, window, frontmost, expected_title) is Ok,
    ensures
        ({
            let out = after_window(i, app, window, frontmost, expected_title)->Ok_0;
            let expected = title_matches(title_at(app.nodes, window), expected_title);
            &&& i.target is Some && expected && (i.target->0.window_title.len() == 0 || (
            !i.target->0.frontmost && frontmost)) ==> out.target == Some(
                TargetView {
                    process_id: app.process.pid,
                    window_title: title_at(app.nodes, window),
                    frontmost,
                },
            )
            &&& i.target is None || !expected || (i.target->0.window_title.len() > 0 && (
            i.target->0.frontmost || !frontmost)) ==> out.target == i.target
            &&& expected && session_title(title_at(app.nodes, window)) ==> out.session_windows
                == i.session_windows.push(
                WindowTitleView {
                    process_id: app.process.pid,
                    title: title_at(app.nodes, window),
                    window: Some(window),
                },
            )
            &&& !(expected && session_title(title_at(app.nodes, window))) ==> out.session_windows
                == i.session_windows
            &&& !expected ==> out.prompts == i.prompts
        }),
{
}

/// Without a target yet, a look aims at the process, in front or not as that is.
pub proof fn law_a_look_aims_at_the_first_process(i: InspectionView, app: AppView)
    ensures
        i.target is None ==> with_process(i, app).target == Some(
            TargetView {
                process_id: app.process.pid,
                window_title: Seq::empty(),
                frontmost: app.frontmost == Some(true),
            },
        ),
        i.target is Some ==> with_process(i, app) == i,
{
}

/// The window that may be read is the one in front, where its title is the expected one.
pub proof fn law_which_window_may_be_read(
    app: AppView,
    windows: Seq<u64>,
    k: usize,
    expected_title: Option<Seq<char>>,
)
    requires
        app.windows == Some(windows),
        front_window(app.nodes, app.frontmost, windows) == Some(k),
    ensures
        readable_window(app, expected_title) == if title_matches(
            title_at(app.nodes, shown(app.nodes, windows)[k as int]),
            expected_title,
        ) {
            Some(shown(app.nodes, windows)[k as int])
        } else {
            None
        },
{
}

/// Why a sheet could not be looked for: without a title, without an application, with
/// another process than it was, or without its windows.
pub proof fn law_why_a_sheet_could_not_be_looked_for(app: AppView, title: Seq<char>)
    ensures
        trimmed(title).len() == 0 ==> sheet_shown(app, title) == Err::<
            bool,
            SheetEpisodeErrorView,
        >(SheetEpisodeErrorView::EmptyTitle),
        trimmed(title).len() > 0 && app.application is None ==> sheet_shown(app, title) == Err::<
            bool,
            SheetEpisodeErrorView,
        >(SheetEpisodeErrorView::NoApplication),
        trimmed(title).len() > 0 && (app.application matches Some(pid) && pid != app.process.pid)
            ==> sheet_shown(app, title) == Err::<bool, SheetEpisodeErrorView>(
            SheetEpisodeErrorView::ProcessChanged,
        ),
        trimmed(title).len() > 0 && app.application == Some(app.process.pid) && app.windows is None
            ==> sheet_shown(app, title) == Err::<bool, SheetEpisodeErrorView>(
            SheetEpisodeErrorView::WindowsUnavailable,
        ),
{
}

/// Whether an episode is still shown, by the windows and sheets that were counted.
pub proof fn law_whether_an_episode_is_shown(windows: int, sheets: int)
    requires
        0 <= windows,
        0 <= sheets,
    ensures
        windows == 0 ==> episode_presence(windows, sheets) == Some(false),
        windows == 1 && sheets == 0 ==> episode_presence(windows, sheets) == Some(false),
        windows == 1 && 1 <= sheets <= 8 ==> episode_presence(windows, sheets) == Some(true),
        windows > 1 || (windows == 1 && sheets > 8) ==> episode_presence(windows, sheets) is None,
{
}

} // verus!
