//! What is read of the elements of a window, and what it comes to.

#[allow(unused_imports)]
use crate::ax_tree::{
    attr_text, below, descendants, empty_traversal, has_ancestor, hidden_at, lookup,
    node_button_text, node_contributes, node_label, node_password_field, node_sensitive,
    node_value_readable, parent_at, shown, tree_children, walk, walk_all, within, Children,
    CompletenessView, NodeView, TraversalView,
};
#[allow(unused_imports)]
use crate::prompt::{
    body_text, button_ranks, identity_selection, snapshot_of, snapshots, snapshots_say,
    snapshots_text, submit_button, Expectation, SnapshotView,
};
#[allow(unused_imports)]
use crate::prompt_text::{has_password_cue, identifier, label_rank, submit_label};
#[allow(unused_imports)]
use crate::selection::{best_index, law_the_best_rank_is_the_lowest};
#[allow(unused_imports)]
use crate::text::{same_ascii, trimmed, with_part};
#[allow(unused_imports)]
use crate::ax_tree::{contributes, node_role_text};
#[allow(unused_imports)]
use crate::prompt::{candidate_places, first_single, identity_rank, places_ranked, ranked_places};
use vstd::prelude::*;

verus! {

// ---------------------------------------------------------------------------
// Finding elements
// ---------------------------------------------------------------------------

/// An element is found by its number; of two with one number it is the first.
pub proof fn law_an_element_is_found_by_its_number(nodes: Seq<NodeView>, k: int, id: u64)
    requires
        0 <= k <= nodes.len(),
        forall|i: int| 0 <= i < k ==> (#[trigger] nodes[i]).id != id,
        k < nodes.len() ==> nodes[k].id == id,
    ensures
        lookup(nodes, id) == if k < nodes.len() {
            Some(nodes[k])
        } else {
            None
        },
    decreases k,
{
    if k > 0 {
        assert(nodes[0].id != id);
        let rest = nodes.drop_first();
        assert forall|i: int| 0 <= i < k - 1 implies (#[trigger] rest[i]).id != id by {
            assert(nodes[i + 1].id != id);
        }
        law_an_element_is_found_by_its_number(rest, k - 1, id);
    }
}

/// A way up: each element on it is the parent of the one before.
pub open spec fn leads_up(nodes: Seq<NodeView>, way: Seq<u64>) -> bool {
    forall|i: int| 0 <= i < way.len() - 1 ==> parent_at(nodes, #[trigger] way[i]) == Some(way[i + 1])
}

/// An element stands within another where the way up from it comes by the other, in at
/// most twelve steps.
pub proof fn law_an_element_stands_within_its_ancestors(nodes: Seq<NodeView>, way: Seq<u64>)
    requires
        1 <= way.len() <= 13,
        leads_up(nodes, way),
    ensures
        within(nodes, way.first(), way.last()),
{
    lemma_way_up(nodes, way, 13);
}

proof fn lemma_way_up(nodes: Seq<NodeView>, way: Seq<u64>, steps: int)
    requires
        1 <= way.len() <= steps,
        leads_up(nodes, way),
    ensures
        has_ancestor(nodes, Some(way.first()), way.last(), steps),
    decreases way.len(),
{
    if way.len() > 1 {
        let rest = way.drop_first();
        assert(parent_at(nodes, way[0]) == Some(way[1]));
        assert forall|i: int| 0 <= i < rest.len() - 1 implies parent_at(nodes, #[trigger] rest[i])
            == Some(rest[i + 1]) by {
            assert(parent_at(nodes, way[i + 1]) == Some(way[i + 2]));
        }
        lemma_way_up(nodes, rest, steps - 1);
    }
}

/// Where an element stands within another there is such a way.
pub proof fn law_a_way_leads_up(nodes: Seq<NodeView>, id: u64, ancestor: u64) -> (way: Seq<u64>)
    requires
        within(nodes, id, ancestor),
    ensures
        1 <= way.len() <= 13,
        leads_up(nodes, way),
        way.first() == id,
        way.last() == ancestor,
{
    lemma_find_way(nodes, id, ancestor, 13)
}

proof fn lemma_find_way(nodes: Seq<NodeView>, id: u64, ancestor: u64, steps: int) -> (way: Seq<
    u64,
>)
    requires
        has_ancestor(nodes, Some(id), ancestor, steps),
    ensures
        1 <= way.len() <= steps,
        leads_up(nodes, way),
        way.first() == id,
        way.last() == ancestor,
    decreases steps,
{
    if id == ancestor {
        seq![id]
    } else {
        reveal_with_fuel(has_ancestor, 2);
        let up = parent_at(nodes, id)->0;
        let rest = lemma_find_way(nodes, up, ancestor, steps - 1);
        let way = seq![id] + rest;
        assert forall|i: int| 0 <= i < way.len() - 1 implies parent_at(nodes, #[trigger] way[i])
            == Some(way[i + 1]) by {
            if i > 0 {
                assert(way[i] == rest[i - 1]);
                assert(parent_at(nodes, rest[i - 1]) == Some(rest[i]));
            }
        }
        assert(way.last() == rest.last());
        way
    }
}

/// Hidden elements are left out, and the others stay in their order.
pub proof fn law_hidden_elements_are_left_out(
    nodes: Seq<NodeView>,
    a: Seq<u64>,
    id: u64,
    b: Seq<u64>,
)
    ensures
        shown(nodes, a + b) == shown(nodes, a) + shown(nodes, b),
        shown(nodes, seq![id]) == if lookup(nodes, id) is Some && lookup(nodes, id)->0.hidden
            == Some(true) {
            Seq::<u64>::empty()
        } else {
            seq![id]
        },
    decreases b.len(),
{
    let one = seq![id];
    assert(one.drop_last() =~= Seq::<u64>::empty());
    assert(shown(nodes, one.drop_last()) =~= Seq::<u64>::empty());
    assert(Seq::<u64>::empty().push(id) =~= one);
    if b.len() == 0 {
        assert(a + b =~= a);
        assert(shown(nodes, a) + Seq::<u64>::empty() =~= shown(nodes, a));
    } else {
        assert((a + b).drop_last() =~= a + b.drop_last());
        law_hidden_elements_are_left_out(nodes, a, id, b.drop_last());
        if !hidden_at(nodes, b.last()) {
            assert((shown(nodes, a) + shown(nodes, b.drop_last())).push(b.last()) =~= shown(
                nodes,
                a,
            ) + shown(nodes, b.drop_last()).push(b.last()));
        }
    }
}

/// Below an element that is not hidden, all that is shown is walked, twelve levels deep
/// and for nine hundred elements; below a hidden one there is nothing.
pub proof fn law_what_is_walked(nodes: Seq<NodeView>, root: u64)
    ensures
        lookup(nodes, root) is Some && lookup(nodes, root)->0.hidden == Some(true) ==> below(
            nodes,
            root,
        ).elements.len() == 0 && below(nodes, root).completeness == CompletenessView::Complete,
        !(lookup(nodes, root) is Some && lookup(nodes, root)->0.hidden == Some(true)) ==> below(
            nodes,
            root,
        ) == descendants(tree_children(nodes), root, 12, 900),
{
}

/// A walk stops short only for a reason: a query that failed, with its error; as many
/// elements as it may meet; or a branch as deep as it may go, which alone has that many
/// elements.
pub proof fn law_a_walk_stops_for_a_reason(
    children: Children,
    root: u64,
    max_depth: int,
    max_elements: int,
)
    requires
        0 <= max_depth,
    ensures
        stopped_for_a_reason(
            children,
            root,
            max_depth,
            max_elements,
            descendants(children, root, max_depth, max_elements),
        ),
{
    lemma_walk_stops(
        children,
        root,
        root,
        0,
        max_depth,
        max_elements,
        empty_traversal(),
    );
}

pub open spec fn stopped_for_a_reason(
    children: Children,
    root: u64,
    max_depth: int,
    max_elements: int,
    t: TraversalView,
) -> bool {
    match t.completeness {
        CompletenessView::Complete => true,
        CompletenessView::ChildQueryFailed(error) => exists|id: u64|
            (id == root || t.elements.contains(id)) && #[trigger] children(id)
                == Err::<Seq<u64>, Seq<char>>(error),
        CompletenessView::DepthLimitReached(depth) => depth == max_depth && t.elements.len()
            >= max_depth,
        CompletenessView::ElementLimitReached(limit) => limit == max_elements && t.elements.len()
            >= max_elements,
    }
}

proof fn lemma_walk_stops(
    children: Children,
    top: u64,
    root: u64,
    depth: int,
    max_depth: int,
    max_elements: int,
    t: TraversalView,
)
    requires
        0 <= depth <= max_depth,
        t.completeness == CompletenessView::Complete,
        t.elements.len() >= depth,
        root == top || t.elements.contains(root),
    ensures
        ({
            let out = walk(children, root, depth, max_depth, max_elements, t);
            &&& stopped_for_a_reason(children, top, max_depth, max_elements, out)
            &&& t.elements.is_prefix_of(out.elements)
        }),
    decreases max_depth - depth, 1int, 0int,
{
    match children(root) {
        Err(error) => {
            let out = walk(children, root, depth, max_depth, max_elements, t);
            assert(out.elements == t.elements);
            assert(children(root) == Err::<Seq<u64>, Seq<char>>(error));
        },
        Ok(down) => {
            if down.len() > 0 && depth < max_depth {
                lemma_walk_all_stops(
                    children,
                    top,
                    down,
                    depth,
                    max_depth,
                    max_elements,
                    t,
                );
            }
        },
    }
}

proof fn lemma_walk_all_stops(
    children: Children,
    top: u64,
    down: Seq<u64>,
    depth: int,
    max_depth: int,
    max_elements: int,
    t: TraversalView,
)
    requires
        0 <= depth <= max_depth,
        t.completeness == CompletenessView::Complete,
        t.elements.len() >= depth,
    ensures
        ({
            let out = walk_all(children, down, depth, max_depth, max_elements, t);
            &&& stopped_for_a_reason(children, top, max_depth, max_elements, out)
            &&& t.elements.is_prefix_of(out.elements)
        }),
    decreases max_depth - depth, 0int, down.len(),
{
    if down.len() > 0 && depth < max_depth && t.elements.len() < max_elements {
        let met = TraversalView { elements: t.elements.push(down.first()), ..t };
        assert(met.elements[t.elements.len() as int] == down.first());
        assert(met.elements.contains(down.first()));
        assert(t.elements.is_prefix_of(met.elements));
        lemma_walk_stops(
            children,
            top,
            down.first(),
            depth + 1,
            max_depth,
            max_elements,
            met,
        );
        let next = walk(children, down.first(), depth + 1, max_depth, max_elements, met);
        assert(t.elements.is_prefix_of(next.elements)) by {
            assert(met.elements =~= next.elements.take(met.elements.len() as int));
            assert(t.elements =~= next.elements.take(t.elements.len() as int));
        }
        if next.completeness == CompletenessView::Complete {
            lemma_walk_all_stops(
                children,
                top,
                down.drop_first(),
                depth,
                max_depth,
                max_elements,
                next,
            );
            let out = walk_all(
                children,
                down.drop_first(),
                depth,
                max_depth,
                max_elements,
                next,
            );
            assert(t.elements =~= out.elements.take(t.elements.len() as int));
        }
    }
}

// ---------------------------------------------------------------------------
// What elements are
// ---------------------------------------------------------------------------

/// The role of a secure text field, as the system writes it or as its letters alone say.
pub open spec fn says_secure(role: Option<Seq<char>>) -> bool {
    role matches Some(role) && (same_ascii(role, "AXSecureTextField"@) || identifier(role)
        == "securetextfield"@)
}

/// A password goes into a field that is secure, by its role or its subrole, that says that
/// it is enabled, and that does not say that it is hidden.
pub proof fn law_what_a_password_field_is(n: NodeView)
    ensures
        node_password_field(n) <==> n.hidden != Some(true) && n.enabled == Some(true) && (
        says_secure(n.role) || says_secure(n.subrole)),
        node_sensitive(n) <==> says_secure(n.role) || says_secure(n.subrole) || (n.role
            matches Some(role) && same_ascii(role, "AXTextField"@) && has_password_cue(
            node_label(n),
        )),
        node_contributes(n) <==> n.hidden != Some(true) && !node_sensitive(n),
{
}

/// The value of an element is read where it is a text that may hold no password, or a
/// button.
pub proof fn law_whose_value_is_read(n: NodeView)
    ensures
        node_value_readable(n) <==> (n.role matches Some(role) && {
            ||| same_ascii(role, "AXButton"@)
            ||| (same_ascii(role, "AXTextField"@) || same_ascii(role, "AXStaticText"@))
                && !node_sensitive(n)
        }),
{
}

/// What a part adds to a text: a space and the part without the white space round it, or
/// nothing where it is missing or blank.
pub open spec fn spoken(part: Option<Seq<char>>) -> Seq<char> {
    match part {
        Some(part) => if trimmed(part).len() == 0 {
            Seq::empty()
        } else {
            seq![' '] + trimmed(part)
        },
        None => Seq::empty(),
    }
}

proof fn lemma_part(text: Seq<char>, part: Option<Seq<char>>)
    ensures
        with_part(text, part) == text + spoken(part),
{
    assert(text + Seq::<char>::empty() =~= text);
    if part is Some {
        assert(text.push(' ') + trimmed(part->0) =~= text + (seq![' '] + trimmed(part->0)));
    }
}

/// An element is labelled by its title, its description, its help, its placeholder and the
/// description of its role, in this order; a button is read by its title, its value, its
/// description and its help.
pub proof fn law_what_labels_an_element(n: NodeView)
    ensures
        node_label(n) == spoken(n.title) + spoken(n.description) + spoken(n.help) + spoken(
            n.placeholder,
        ) + spoken(n.role_description),
        node_button_text(n) == spoken(n.title) + spoken(n.value) + spoken(n.description) + spoken(
            n.help,
        ),
{
    let e = Seq::<char>::empty();
    lemma_part(e, n.title);
    assert(e + spoken(n.title) =~= spoken(n.title));
    let t = spoken(n.title);
    lemma_part(t, n.description);
    lemma_part(t + spoken(n.description), n.help);
    lemma_part(t + spoken(n.description) + spoken(n.help), n.placeholder);
    lemma_part(
        t + spoken(n.description) + spoken(n.help) + spoken(n.placeholder),
        n.role_description,
    );
    lemma_part(t, n.value);
    lemma_part(t + spoken(n.value), n.description);
    lemma_part(t + spoken(n.value) + spoken(n.description), n.help);
}

/// What an element says in a prompt: its title and its placeholder, and its value where it
/// is a text. One that is hidden, or that may hold a password, says nothing.
pub open spec fn said_by(n: NodeView) -> Seq<char> {
    if n.hidden == Some(true) || node_sensitive(n) {
        Seq::empty()
    } else if n.role matches Some(role) && (same_ascii(role, "AXTextField"@) || same_ascii(
        role,
        "AXStaticText"@,
    )) {
        spoken(n.title) + spoken(n.placeholder) + spoken(n.value)
    } else {
        spoken(n.title) + spoken(n.placeholder)
    }
}

/// A prompt says what its elements say, in their order.
pub proof fn law_what_a_prompt_says(nodes: Seq<NodeView>, ids: Seq<u64>, id: u64)
    ensures
        body_text(nodes, Seq::empty()) == Seq::<char>::empty(),
        body_text(nodes, ids.push(id)) == body_text(nodes, ids) + match lookup(nodes, id) {
            Some(n) => said_by(n),
            None => Seq::empty(),
        },
{
    assert(ids.push(id).drop_last() =~= ids);
    let text = body_text(nodes, ids);
    assert(text + Seq::<char>::empty() =~= text);
    if let Some(n) = lookup(nodes, id) {
        lemma_part(text, n.title);
        lemma_part(text + spoken(n.title), n.placeholder);
        lemma_part(text + spoken(n.title) + spoken(n.placeholder), n.value);
        assert(text + spoken(n.title) + spoken(n.placeholder) =~= text + (spoken(n.title) + spoken(
            n.placeholder,
        )));
        assert(text + spoken(n.title) + spoken(n.placeholder) + spoken(n.value) =~= text + (spoken(
            n.title,
        ) + spoken(n.placeholder) + spoken(n.value)));
    }
}

/// What is kept of the texts of a prompt says the same as the prompt.
pub proof fn law_kept_texts_say_the_same(nodes: Seq<NodeView>, ids: Seq<u64>)
    ensures
        snapshots_text(snapshots(nodes, ids)) == body_text(nodes, ids),
    decreases ids.len(),
{
    if ids.len() > 0 {
        law_kept_texts_say_the_same(nodes, ids.drop_last());
        if let Some(n) = lookup(nodes, ids.last()) {
            if node_contributes(n) {
                let taken = snapshots(nodes, ids.drop_last());
                assert(taken.push(snapshot_of(n)).drop_last() =~= taken);
                let text = snapshots_text(taken);
                lemma_attr(text, n.title);
                lemma_attr(with_part(text, n.title), n.placeholder);
                lemma_attr(with_part(with_part(text, n.title), n.placeholder), n.value);
            }
        }
    }
}

/// A text that is kept adds what the attribute adds.
proof fn lemma_attr(text: Seq<char>, value: Option<Seq<char>>)
    ensures
        with_part(text, attr_text(value)) == with_part(text, value),
{
}

/// An attribute as it is kept: as it is, unless it is blank.
pub open spec fn kept(value: Option<Seq<char>>) -> Option<Seq<char>> {
    if value is Some && trimmed(value->0).len() > 0 {
        value
    } else {
        None
    }
}

/// Each text that is kept is of one element, and holds its title, its placeholder, and its
/// value where that may be read.
pub proof fn law_what_is_kept_of_an_element(n: NodeView)
    ensures
        snapshot_of(n).element == n.id,
        snapshot_of(n).title == kept(n.title),
        snapshot_of(n).placeholder == kept(n.placeholder),
        node_sensitive(n) ==> snapshot_of(n).value is None,
        (n.role matches Some(role) && (same_ascii(role, "AXTextField"@) || same_ascii(
            role,
            "AXStaticText"@,
        ))) && !node_sensitive(n) ==> snapshot_of(n).value == kept(n.value),
{
}

// ---------------------------------------------------------------------------
// The button that submits
// ---------------------------------------------------------------------------

/// A button that may submit: it is shown, it is enabled where that is asked, and its text
/// has the rank of a label that submits.
pub open spec fn submits_with(
    nodes: Seq<NodeView>,
    id: u64,
    require_enabled: bool,
    rank: u8,
) -> bool {
    &&& lookup(nodes, id) matches Some(n) && {
        &&& n.role matches Some(role) && same_ascii(role, "AXButton"@)
        &&& n.hidden != Some(true)
        &&& require_enabled ==> n.enabled == Some(true)
        &&& label_rank(submit_label(node_button_text(n))) == Some(rank)
    }
}

/// The button that submits is the one whose rank is below that of every other that may.
pub proof fn law_the_button_that_submits(
    nodes: Seq<NodeView>,
    ids: Seq<u64>,
    require_enabled: bool,
    i: int,
    rank: u8,
)
    requires
        0 <= i < ids.len(),
        submits_with(nodes, ids[i], require_enabled, rank),
        forall|j: int, other: u8|
            0 <= j < ids.len() && j != i && #[trigger] submits_with(
                nodes,
                ids[j],
                require_enabled,
                other,
            ) ==> rank < other,
    ensures
        submit_button(nodes, ids, require_enabled) == Some(ids[i]),
{
    let ranks = button_ranks(nodes, ids, require_enabled);
    assert(ranks[i] == Some(rank));
    assert forall|j: int| 0 <= j < ranks.len() && j != i implies ((#[trigger] ranks[j])
        matches Some(other) ==> rank < other) by {
        if let Some(other) = ranks[j] {
            assert(submits_with(nodes, ids[j], require_enabled, other));
        }
    }
    law_the_best_rank_is_the_lowest(ranks, i);
}

/// Where two buttons share the lowest rank, or no button may submit, there is none.
pub proof fn law_no_button_where_it_is_not_clear(
    nodes: Seq<NodeView>,
    ids: Seq<u64>,
    require_enabled: bool,
    i: int,
    k: int,
    rank: u8,
)
    requires
        0 <= i < ids.len(),
        0 <= k < ids.len(),
        i != k,
        submits_with(nodes, ids[i], require_enabled, rank),
        submits_with(nodes, ids[k], require_enabled, rank),
        forall|j: int, other: u8|
            0 <= j < ids.len() && #[trigger] submits_with(
                nodes,
                ids[j],
                require_enabled,
                other,
            ) ==> rank <= other,
    ensures
        submit_button(nodes, ids, require_enabled) is None,
{
    let ranks = button_ranks(nodes, ids, require_enabled);
    assert(ranks[i] == Some(rank));
    assert(ranks[k] == Some(rank));
    if best_index(ranks) is Some {
        let b = best_index(ranks)->0;
        law_the_best_rank_is_the_lowest(ranks, b);
        let best = ranks[b]->0;
        assert(submits_with(nodes, ids[b], require_enabled, best));
        if b != i {
            assert(ranks[i] matches Some(other) ==> best < other);
        } else {
            assert(ranks[k] matches Some(other) ==> best < other);
        }
    }
}

/// Few texts are kept as they are, and so are texts that do not say what is expected.
pub proof fn law_few_texts_are_all_kept(ss: Seq<SnapshotView>, x: Expectation)
    ensures
        ss.len() <= 3 ==> identity_selection(ss, x) == ss,
        !snapshots_say(ss, x) ==> identity_selection(ss, x) == ss,
{
}

/// The roles of an element are read as they are, its role, its subrole and the description
/// of its role, with single spaces between those that are not blank.
pub proof fn law_what_the_roles_of_an_element_say(n: NodeView)
    ensures
        node_role_text(n) == joined_by_spaces(
            joined_by_spaces(
                if kept(n.role) is Some {
                    n.role->0
                } else {
                    Seq::empty()
                },
                kept(n.subrole),
            ),
            kept(n.role_description),
        ),
{
    if kept(n.role) is Some {
        assert(n.role->0.len() > 0) by {
            if n.role->0.len() == 0 {
                assert(trimmed(n.role->0) == n.role->0);
            }
        }
    }
}

pub open spec fn joined_by_spaces(text: Seq<char>, part: Option<Seq<char>>) -> Seq<char> {
    match part {
        Some(part) => if text.len() == 0 {
            part
        } else {
            text + seq![' '] + part
        },
        None => text,
    }
}

/// An element counts in a prompt unless it is hidden, stands below a hidden one, or may
/// hold a password.
pub proof fn law_which_elements_count(
    hidden: bool,
    hidden_ancestor: bool,
    native_password_field: bool,
    password_like_text_field: bool,
)
    ensures
        contributes(hidden, hidden_ancestor, native_password_field, password_like_text_field)
            <==> !(hidden || hidden_ancestor || native_password_field || password_like_text_field),
{
}

/// Where one text, of those that speak of the account, says everything alone, and none
/// before it does, it is the one that is kept.
pub proof fn law_one_text_that_says_all_is_kept(ss: Seq<SnapshotView>, x: Expectation, k: int)
    requires
        ss.len() > 3,
        snapshots_say(ss, x),
        0 <= k < candidate_places(ss, x).len(),
        snapshots_say(seq![ss[candidate_places(ss, x)[k]]], x),
        forall|i: int|
            0 <= i < k ==> !snapshots_say(
                seq![ss[#[trigger] candidate_places(ss, x)[i]]],
                x,
            ),
    ensures
        identity_selection(ss, x) == seq![ss[candidate_places(ss, x)[k]]],
{
    lemma_first_single(ss, candidate_places(ss, x), x, 0, k);
}

proof fn lemma_first_single(
    ss: Seq<SnapshotView>,
    c: Seq<int>,
    x: Expectation,
    from: int,
    k: int,
)
    requires
        0 <= from <= k < c.len(),
        snapshots_say(seq![ss[c[k]]], x),
        forall|i: int| from <= i < k ==> !snapshots_say(seq![ss[#[trigger] c[i]]], x),
    ensures
        first_single(ss, c, x, from) == Some(seq![ss[c[k]]]),
    decreases k - from,
{
    if from < k {
        assert(!snapshots_say(seq![ss[c[from]]], x));
        lemma_first_single(ss, c, x, from + 1, k);
    }
}

/// A text that alone names the account and speaks of credentials is a candidate before any
/// other, where there are no more than twenty-four.
pub proof fn law_which_text_is_tried_first(ss: Seq<SnapshotView>, x: Expectation, k: int)
    requires
        0 <= k < ss.len(),
        identity_rank(ss[k], x) == Some(0u8),
        forall|i: int| 0 <= i < k ==> identity_rank(#[trigger] ss[i], x) != Some(0u8),
    ensures
        candidate_places(ss, x).len() > 0,
        candidate_places(ss, x)[0] == k,
        candidate_places(ss, x).len() <= 24,
{
    lemma_first_place(ss, x, ss.len() as int, k);
    let zero = places_ranked(ss, x, 0, ss.len() as int);
    let all = ranked_places(ss, x);
    assert(all[0] == zero[0]);
}

proof fn lemma_first_place(ss: Seq<SnapshotView>, x: Expectation, n: int, k: int)
    requires
        0 <= k < ss.len(),
        0 <= n <= ss.len(),
        identity_rank(ss[k], x) == Some(0u8),
        forall|i: int| 0 <= i < k ==> identity_rank(#[trigger] ss[i], x) != Some(0u8),
    ensures
        n <= k ==> places_ranked(ss, x, 0, n).len() == 0,
        n > k ==> places_ranked(ss, x, 0, n).len() > 0 && places_ranked(ss, x, 0, n)[0] == k,
    decreases n,
{
    if n > 0 {
        lemma_first_place(ss, x, n - 1, k);
    }
}

} // verus!
