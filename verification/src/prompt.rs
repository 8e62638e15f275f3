//! Finding a credential prompt among accessibility elements: its text, the part
//! of the tree that it takes, its submit button, and the few texts that keep
//! identifying it.

use crate::ax_tree::{AxNode, AxTree};
#[allow(unused_imports)]
use crate::ax_tree::{
    attr_text, lookup, node_button_text, node_contributes, node_enabled, node_hidden, node_is_text,
    node_role_is, node_sensitive, NodeView,
};
use crate::ax_tree::text_attr;
#[allow(unused_imports)]
use crate::identity::TrustedInfoView;
use crate::identity::TrustedProcessInfo;
use crate::prompt_text::{
    extract_email_like, prompt_identity_verified, submit_label_rank, text_contains_password_cue,
    usernames_match, PromptOrigin,
};
#[allow(unused_imports)]
use crate::prompt_text::{
    has_password_cue, identity_verified, label_rank, named_email, same_username, submit_label,
};
use crate::selection::select_unique_best_rank;
#[allow(unused_imports)]
use crate::selection::best_index;
use crate::text::push_text;
#[allow(unused_imports)]
use crate::text::with_part;
use vstd::prelude::*;

verus! {

/// How many of the candidates for identifying texts are tried.
pub const IDENTITY_CANDIDATES: usize = 24;

/// How many of them are tried three at a time.
pub const IDENTITY_TRIPLE_CANDIDATES: usize = 16;

/// The window that a prompt is aimed at.
#[derive(Debug, Clone)]
pub struct MacosTarget {
    pub process_id: i32,
    pub window_title: String,
    pub frontmost: bool,
}

#[verifier::ext_equal]
pub struct TargetView {
    pub process_id: i32,
    pub window_title: Seq<char>,
    pub frontmost: bool,
}

impl DeepView for MacosTarget {
    type V = TargetView;

    open spec fn deep_view(&self) -> TargetView {
        TargetView {
            process_id: self.process_id,
            window_title: self.window_title@,
            frontmost: self.frontmost,
        }
    }
}

impl MacosTarget {
    pub fn duplicate(&self) -> (out: Self)
        ensures
            out.deep_view() == self.deep_view(),
    {
        MacosTarget {
            process_id: self.process_id,
            window_title: self.window_title.clone(),
            frontmost: self.frontmost,
        }
    }
}

/// The texts of one element of a prompt.
#[derive(Clone)]
pub struct PromptTextSnapshot {
    pub element: u64,
    pub title: Option<String>,
    pub placeholder: Option<String>,
    pub value: Option<String>,
}

#[verifier::ext_equal]
pub struct SnapshotView {
    pub element: u64,
    pub title: Option<Seq<char>>,
    pub placeholder: Option<Seq<char>>,
    pub value: Option<Seq<char>>,
}

impl DeepView for PromptTextSnapshot {
    type V = SnapshotView;

    open spec fn deep_view(&self) -> SnapshotView {
        SnapshotView {
            element: self.element,
            title: self.title.deep_view(),
            placeholder: self.placeholder.deep_view(),
            value: self.value.deep_view(),
        }
    }
}

pub fn duplicate_text(value: &Option<String>) -> (out: Option<String>)
    ensures
        out.deep_view() == value.deep_view(),
{
    match value {
        Some(text) => Some(text.clone()),
        None => None,
    }
}

impl PromptTextSnapshot {
    pub fn duplicate(&self) -> (out: Self)
        ensures
            out.deep_view() == self.deep_view(),
    {
        PromptTextSnapshot {
            element: self.element,
            title: duplicate_text(&self.title),
            placeholder: duplicate_text(&self.placeholder),
            value: duplicate_text(&self.value),
        }
    }
}

/// A credential prompt.
#[derive(Clone)]
pub struct MacosPrompt {
    pub target: MacosTarget,
    pub email: Option<String>,
    pub password_field_description: String,
    pub password_field_role: String,
    pub origin: PromptOrigin,
    pub trusted_process: TrustedProcessInfo,
    pub target_window: u64,
    pub native_container: u64,
    pub prompt_root: u64,
    pub password_field: u64,
    pub submit_button: Option<u64>,
    pub identity_text: Vec<PromptTextSnapshot>,
}

#[verifier::ext_equal]
pub struct PromptView {
    pub target: TargetView,
    pub email: Option<Seq<char>>,
    pub password_field_description: Seq<char>,
    pub password_field_role: Seq<char>,
    pub origin: PromptOrigin,
    pub trusted_process: TrustedInfoView,
    pub target_window: u64,
    pub native_container: u64,
    pub prompt_root: u64,
    pub password_field: u64,
    pub submit_button: Option<u64>,
    pub identity_text: Seq<SnapshotView>,
}

impl DeepView for MacosPrompt {
    type V = PromptView;

    open spec fn deep_view(&self) -> PromptView {
        PromptView {
            target: self.target.deep_view(),
            email: self.email.deep_view(),
            password_field_description: self.password_field_description@,
            password_field_role: self.password_field_role@,
            origin: self.origin,
            trusted_process: self.trusted_process.deep_view(),
            target_window: self.target_window,
            native_container: self.native_container,
            prompt_root: self.prompt_root,
            password_field: self.password_field,
            submit_button: self.submit_button,
            identity_text: self.identity_text.deep_view(),
        }
    }
}

impl MacosPrompt {
    pub fn duplicate(&self) -> (out: Self)
        ensures
            out.deep_view() == self.deep_view(),
    {
        MacosPrompt {
            target: self.target.duplicate(),
            email: duplicate_text(&self.email),
            password_field_description: self.password_field_description.clone(),
            password_field_role: self.password_field_role.clone(),
            origin: self.origin,
            trusted_process: self.trusted_process.duplicate(),
            target_window: self.target_window,
            native_container: self.native_container,
            prompt_root: self.prompt_root,
            password_field: self.password_field,
            submit_button: self.submit_button,
            identity_text: duplicate_snapshots(&self.identity_text),
        }
    }
}

fn duplicate_snapshots(snapshots: &Vec<PromptTextSnapshot>) -> (out: Vec<PromptTextSnapshot>)
    ensures
        out.deep_view() == snapshots.deep_view(),
{
    let mut out: Vec<PromptTextSnapshot> = Vec::new();
    let mut i: usize = 0;
    while i < snapshots.len()
        invariant
            i <= snapshots@.len(),
            out@.len() == i,
            forall|j: int|
                0 <= j < i ==> (#[trigger] out@[j]).deep_view() == snapshots@[j].deep_view(),
        decreases snapshots@.len() - i,
    {
        out.push(snapshots[i].duplicate());
        i += 1;
    }
    assert(out.deep_view() =~= snapshots.deep_view());
    out
}

// ---------------------------------------------------------------------------
// What a prompt says
// ---------------------------------------------------------------------------

/// `text` with what an element adds to it. The value of an element that may be a
/// password field is not part of it.
pub open spec fn with_node_text(text: Seq<char>, n: NodeView) -> Seq<char> {
    if !node_contributes(n) {
        text
    } else {
        let named = with_part(with_part(text, n.title), n.placeholder);
        if node_is_text(n) && !node_sensitive(n) {
            with_part(named, n.value)
        } else {
            named
        }
    }
}

/// What the elements of a tree say, in order.
pub open spec fn body_text(nodes: Seq<NodeView>, ids: Seq<u64>) -> Seq<char>
    decreases ids.len(),
{
    if ids.len() == 0 {
        Seq::empty()
    } else {
        let text = body_text(nodes, ids.drop_last());
        match lookup(nodes, ids.last()) {
            Some(n) => with_node_text(text, n),
            None => text,
        }
    }
}

fn push_node_text(text: &mut String, node: &AxNode)
    ensures
        final(text)@ == with_node_text(old(text)@, node.deep_view()),
{
    if !node.contributes_text() {
        return;
    }
    push_text(text, &node.title);
    push_text(text, &node.placeholder);
    if node.is_text_or_static_text() && !node.has_sensitive_password_field_identity() {
        push_text(text, &node.value);
    }
}

/// `body_text`, computed.
pub fn collect_prompt_text(tree: &AxTree, ids: &Vec<u64>) -> (out: String)
    ensures
        out@ == body_text(tree.deep_view(), ids@),
{
    let mut text: String = String::new();
    let mut i: usize = 0;
    assert(ids@.take(0) =~= Seq::<u64>::empty());
    while i < ids.len()
        invariant
            i <= ids@.len(),
            text@ == body_text(tree.deep_view(), ids@.take(i as int)),
        decreases ids@.len() - i,
    {
        assert(ids@.take(i + 1).drop_last() =~= ids@.take(i as int));
        if let Some(node) = tree.find(ids[i]) {
            push_node_text(&mut text, node);
        }
        i += 1;
    }
    assert(ids@.take(ids@.len() as int) =~= ids@);
    text
}

/// The tree with the value of each element that may be a password field taken out.
pub open spec fn without_secrets(nodes: Seq<NodeView>) -> Seq<NodeView> {
    nodes.map_values(
        |n: NodeView|
            if node_sensitive(n) {
                NodeView { value: None, ..n }
            } else {
                n
            },
    )
}

proof fn lemma_lookup_without_secrets(nodes: Seq<NodeView>, id: u64)
    ensures
        lookup(without_secrets(nodes), id) == match lookup(nodes, id) {
            Some(n) => Some(
                if node_sensitive(n) {
                    NodeView { value: None, ..n }
                } else {
                    n
                },
            ),
            None => None,
        },
    decreases nodes.len(),
{
    if nodes.len() > 0 {
        lemma_lookup_without_secrets(nodes.drop_first(), id);
        assert(without_secrets(nodes).drop_first() =~= without_secrets(nodes.drop_first()));
    }
}

/// What a prompt says does not depend on the value of any element that may be a
/// password field.
pub proof fn law_prompt_text_ignores_secrets(nodes: Seq<NodeView>, ids: Seq<u64>)
    ensures
        body_text(without_secrets(nodes), ids) == body_text(nodes, ids),
        snapshots(without_secrets(nodes), ids) == snapshots(nodes, ids),
    decreases ids.len(),
{
    if ids.len() > 0 {
        law_prompt_text_ignores_secrets(nodes, ids.drop_last());
        lemma_lookup_without_secrets(nodes, ids.last());
    }
}

/// What a prompt is expected to say.
pub struct Expectation {
    pub email: Seq<char>,
    pub title: Seq<char>,
    pub origin: PromptOrigin,
}

/// The text names the expected account and is that of a credential prompt.
pub open spec fn says(text: Seq<char>, x: Expectation) -> bool {
    &&& named_email(text) is Some
    &&& same_username(named_email(text)->0, x.email)
    &&& identity_verified(x.title, text, x.origin)
}

/// `says`, computed.
pub fn scoped_prompt_matches(
    body_text: &str,
    prompt_email: &str,
    window_title: &str,
    origin: PromptOrigin,
) -> (r: bool)
    ensures
        r == says(
            body_text@,
            (Expectation { email: prompt_email@, title: window_title@, origin }),
        ),
{
    let named: bool = match extract_email_like(body_text) {
        Some(email) => usernames_match(email.as_str(), prompt_email),
        None => false,
    };
    named && prompt_identity_verified(window_title, body_text, origin)
}

// ---------------------------------------------------------------------------
// The submit button
// ---------------------------------------------------------------------------

/// How well an element serves as the submit button.
pub open spec fn button_rank(n: NodeView, require_enabled: bool) -> Option<u8> {
    if node_role_is(n, "AXButton"@) && !node_hidden(n) && (!require_enabled || node_enabled(n)) {
        label_rank(submit_label(node_button_text(n)))
    } else {
        None
    }
}

pub open spec fn button_ranks(
    nodes: Seq<NodeView>,
    ids: Seq<u64>,
    require_enabled: bool,
) -> Seq<Option<u8>> {
    ids.map_values(
        |id: u64|
            match lookup(nodes, id) {
                Some(n) => button_rank(n, require_enabled),
                None => None,
            },
    )
}

/// The button that alone serves best.
pub open spec fn submit_button(
    nodes: Seq<NodeView>,
    ids: Seq<u64>,
    require_enabled: bool,
) -> Option<u64> {
    match best_index(button_ranks(nodes, ids, require_enabled)) {
        Some(i) => Some(ids[i]),
        None => None,
    }
}

/// `submit_button`, computed.
pub fn select_submit_button_candidate(
    tree: &AxTree,
    ids: &Vec<u64>,
    require_enabled: bool,
) -> (out: Option<u64>)
    ensures
        out == submit_button(tree.deep_view(), ids@, require_enabled),
{
    let mut ranks: Vec<Option<u8>> = Vec::new();
    let ghost want = button_ranks(tree.deep_view(), ids@, require_enabled);
    let mut i: usize = 0;
    while i < ids.len()
        invariant
            i <= ids@.len(),
            want == button_ranks(tree.deep_view(), ids@, require_enabled),
            ranks@.len() == i,
            forall|j: int| 0 <= j < i ==> #[trigger] ranks@[j] == want[j],
        decreases ids@.len() - i,
    {
        let rank: Option<u8> = match tree.find(ids[i]) {
            Some(node) => {
                if node.role_matches("AXButton") && !node.is_hidden() && (!require_enabled
                    || node.is_enabled()) {
                    submit_label_rank(node.button_text().as_str())
                } else {
                    None
                }
            },
            None => None,
        };
        ranks.push(rank);
        i += 1;
    }
    assert(ranks@ =~= want);
    match select_unique_best_rank(&ranks) {
        Some(index) => Some(ids[index]),
        None => None,
    }
}

// ---------------------------------------------------------------------------
// Snapshots
// ---------------------------------------------------------------------------

pub open spec fn snapshot_of(n: NodeView) -> SnapshotView {
    SnapshotView {
        element: n.id,
        title: attr_text(n.title),
        placeholder: attr_text(n.placeholder),
        value: if node_is_text(n) && !node_sensitive(n) {
            attr_text(n.value)
        } else {
            None
        },
    }
}

/// The texts of the elements that say anything.
pub open spec fn snapshots(nodes: Seq<NodeView>, ids: Seq<u64>) -> Seq<SnapshotView>
    decreases ids.len(),
{
    if ids.len() == 0 {
        Seq::empty()
    } else {
        let taken = snapshots(nodes, ids.drop_last());
        match lookup(nodes, ids.last()) {
            Some(n) => if node_contributes(n) {
                taken.push(snapshot_of(n))
            } else {
                taken
            },
            None => taken,
        }
    }
}

pub fn take_snapshot(node: &AxNode) -> (out: PromptTextSnapshot)
    ensures
        out.deep_view() == snapshot_of(node.deep_view()),
{
    let value: Option<String> = if node.is_text_or_static_text()
        && !node.has_sensitive_password_field_identity() {
        text_attr(&node.value)
    } else {
        None
    };
    PromptTextSnapshot {
        element: node.id,
        title: text_attr(&node.title),
        placeholder: text_attr(&node.placeholder),
        value,
    }
}

fn take_snapshots(tree: &AxTree, ids: &Vec<u64>) -> (out: Vec<PromptTextSnapshot>)
    ensures
        out.deep_view() == snapshots(tree.deep_view(), ids@),
{
    let mut out: Vec<PromptTextSnapshot> = Vec::new();
    let mut i: usize = 0;
    assert(ids@.take(0) =~= Seq::<u64>::empty());
    assert(out.deep_view() =~= Seq::<SnapshotView>::empty());
    while i < ids.len()
        invariant
            i <= ids@.len(),
            out.deep_view() == snapshots(tree.deep_view(), ids@.take(i as int)),
        decreases ids@.len() - i,
    {
        assert(ids@.take(i + 1).drop_last() =~= ids@.take(i as int));
        if let Some(node) = tree.find(ids[i]) {
            if node.contributes_text() {
                let ghost before = out.deep_view();
                let taken: PromptTextSnapshot = take_snapshot(node);
                let ghost added = taken.deep_view();
                out.push(taken);
                assert(out.deep_view() =~= before.push(added));
            }
        }
        i += 1;
    }
    assert(ids@.take(ids@.len() as int) =~= ids@);
    out
}

pub open spec fn with_snapshot(text: Seq<char>, s: SnapshotView) -> Seq<char> {
    with_part(with_part(with_part(text, s.title), s.placeholder), s.value)
}

/// What the snapshots say together.
pub open spec fn snapshots_text(ss: Seq<SnapshotView>) -> Seq<char>
    decreases ss.len(),
{
    if ss.len() == 0 {
        Seq::empty()
    } else {
        with_snapshot(snapshots_text(ss.drop_last()), ss.last())
    }
}

pub open spec fn snapshots_say(ss: Seq<SnapshotView>, x: Expectation) -> bool {
    says(snapshots_text(ss), x)
}

fn push_snapshot(text: &mut String, snapshot: &PromptTextSnapshot)
    ensures
        final(text)@ == with_snapshot(old(text)@, snapshot.deep_view()),
{
    push_text(text, &snapshot.title);
    push_text(text, &snapshot.placeholder);
    push_text(text, &snapshot.value);
}

/// `snapshots_say`, computed.
pub fn prompt_text_snapshots_match(
    snapshots: &Vec<PromptTextSnapshot>,
    expected_email: &str,
    expected_window_title: &str,
    expected_origin: PromptOrigin,
) -> (r: bool)
    ensures
        r == snapshots_say(
            snapshots.deep_view(),
            (Expectation {
                email: expected_email@,
                title: expected_window_title@,
                origin: expected_origin,
            }),
        ),
{
    let ghost all = snapshots.deep_view();
    let mut text: String = String::new();
    let mut i: usize = 0;
    assert(all.take(0) =~= Seq::<SnapshotView>::empty());
    while i < snapshots.len()
        invariant
            i <= snapshots@.len(),
            all == snapshots.deep_view(),
            text@ == snapshots_text(all.take(i as int)),
        decreases snapshots@.len() - i,
    {
        assert(all.take(i + 1).drop_last() =~= all.take(i as int));
        assert(all.take(i + 1).last() == snapshots@[i as int].deep_view());
        push_snapshot(&mut text, &snapshots[i]);
        i += 1;
    }
    assert(all.take(all.len() as int) =~= all);
    scoped_prompt_matches(
        text.as_str(),
        expected_email,
        expected_window_title,
        expected_origin,
    )
}

// ---------------------------------------------------------------------------
// The texts that identify a prompt
// ---------------------------------------------------------------------------

/// How well one snapshot identifies the prompt: it names the account and speaks
/// of credentials, only names the account, or only speaks of credentials.
pub open spec fn identity_rank(s: SnapshotView, x: Expectation) -> Option<u8> {
    let text = with_snapshot(Seq::empty(), s);
    let names = named_email(text) is Some && same_username(named_email(text)->0, x.email);
    let speaks = identity_verified(x.title, text, x.origin) || has_password_cue(text);
    if names && speaks {
        Some(0u8)
    } else if names {
        Some(1u8)
    } else if speaks {
        Some(2u8)
    } else {
        None
    }
}

/// The places among the first `n` snapshots whose rank is `rank`.
pub open spec fn places_ranked(
    ss: Seq<SnapshotView>,
    x: Expectation,
    rank: u8,
    n: int,
) -> Seq<int>
    decreases n,
{
    if n <= 0 {
        Seq::empty()
    } else if identity_rank(ss[n - 1], x) == Some(rank) {
        places_ranked(ss, x, rank, n - 1).push(n - 1)
    } else {
        places_ranked(ss, x, rank, n - 1)
    }
}

pub open spec fn ranked_places(ss: Seq<SnapshotView>, x: Expectation) -> Seq<int> {
    let n = ss.len() as int;
    places_ranked(ss, x, 0, n) + places_ranked(ss, x, 1, n) + places_ranked(ss, x, 2, n)
}

/// The places that are tried, the best first.
pub open spec fn candidate_places(ss: Seq<SnapshotView>, x: Expectation) -> Seq<int> {
    let all = ranked_places(ss, x);
    if all.len() <= IDENTITY_CANDIDATES {
        all
    } else {
        all.take(IDENTITY_CANDIDATES as int)
    }
}

/// The first candidate from `i` on that identifies the prompt by itself.
pub open spec fn first_single(
    ss: Seq<SnapshotView>,
    c: Seq<int>,
    x: Expectation,
    i: int,
) -> Option<Seq<SnapshotView>>
    decreases c.len() - i,
{
    if i >= c.len() {
        None
    } else if snapshots_say(seq![ss[c[i]]], x) {
        Some(seq![ss[c[i]]])
    } else {
        first_single(ss, c, x, i + 1)
    }
}

/// The first pair of candidates from `(i, j)` on that identifies the prompt.
pub open spec fn first_pair(
    ss: Seq<SnapshotView>,
    c: Seq<int>,
    x: Expectation,
    i: int,
    j: int,
) -> Option<Seq<SnapshotView>>
    decreases c.len() - i, c.len() - j,
{
    if i >= c.len() {
        None
    } else if j >= c.len() {
        first_pair(ss, c, x, i + 1, i + 2)
    } else if snapshots_say(seq![ss[c[i]], ss[c[j]]], x) {
        Some(seq![ss[c[i]], ss[c[j]]])
    } else {
        first_pair(ss, c, x, i, j + 1)
    }
}

/// The first three candidates from `(i, j, k)` on, of the first `n`, that
/// identify the prompt.
pub open spec fn first_triple(
    ss: Seq<SnapshotView>,
    c: Seq<int>,
    x: Expectation,
    n: int,
    i: int,
    j: int,
    k: int,
) -> Option<Seq<SnapshotView>>
    decreases n - i, n - j, n - k,
{
    if i >= n {
        None
    } else if j >= n {
        first_triple(ss, c, x, n, i + 1, i + 2, i + 3)
    } else if k >= n {
        first_triple(ss, c, x, n, i, j + 1, j + 2)
    } else if snapshots_say(seq![ss[c[i]], ss[c[j]], ss[c[k]]], x) {
        Some(seq![ss[c[i]], ss[c[j]], ss[c[k]]])
    } else {
        first_triple(ss, c, x, n, i, j, k + 1)
    }
}

pub open spec fn triple_limit(c: Seq<int>) -> int {
    if c.len() <= IDENTITY_TRIPLE_CANDIDATES {
        c.len() as int
    } else {
        IDENTITY_TRIPLE_CANDIDATES as int
    }
}

/// The snapshots that are kept: as few as identify the prompt, up to three, else
/// all.
pub open spec fn identity_selection(ss: Seq<SnapshotView>, x: Expectation) -> Seq<SnapshotView> {
    if ss.len() <= 3 || !snapshots_say(ss, x) {
        ss
    } else {
        let c = candidate_places(ss, x);
        match first_single(ss, c, x, 0) {
            Some(selected) => selected,
            None => match first_pair(ss, c, x, 0, 1) {
                Some(selected) => selected,
                None => match first_triple(ss, c, x, triple_limit(c), 0, 1, 2) {
                    Some(selected) => selected,
                    None => ss,
                },
            },
        }
    }
}

fn snapshot_rank(
    snapshot: &PromptTextSnapshot,
    prompt_email: &str,
    window_title: &str,
    origin: PromptOrigin,
) -> (out: Option<u8>)
    ensures
        out == identity_rank(
            snapshot.deep_view(),
            (Expectation { email: prompt_email@, title: window_title@, origin }),
        ),
{
    let mut text: String = String::new();
    push_snapshot(&mut text, snapshot);
    let names: bool = match extract_email_like(text.as_str()) {
        Some(email) => usernames_match(email.as_str(), prompt_email),
        None => false,
    };
    let speaks: bool = prompt_identity_verified(window_title, text.as_str(), origin)
        || text_contains_password_cue(text.as_str());
    if names && speaks {
        Some(0)
    } else if names {
        Some(1)
    } else if speaks {
        Some(2)
    } else {
        None
    }
}

/// A list of places in a sequence.
spec fn places(v: Seq<usize>) -> Seq<int> {
    v.map_values(|i: usize| i as int)
}

fn push_places(
    out: &mut Vec<usize>,
    ranks: &Vec<Option<u8>>,
    rank: u8,
    Ghost(ss): Ghost<Seq<SnapshotView>>,
    Ghost(x): Ghost<Expectation>,
)
    requires
        ranks@.len() == ss.len(),
        forall|j: int| 0 <= j < ss.len() ==> #[trigger] ranks@[j] == identity_rank(ss[j], x),
        forall|j: int| 0 <= j < old(out)@.len() ==> #[trigger] old(out)@[j] < ss.len(),
    ensures
        places(final(out)@) == places(old(out)@) + places_ranked(ss, x, rank, ss.len() as int),
        forall|j: int| 0 <= j < final(out)@.len() ==> #[trigger] final(out)@[j] < ss.len(),
{
    let ghost base = places(out@);
    let mut i: usize = 0;
    assert(places(out@) =~= base + places_ranked(ss, x, rank, 0));
    while i < ranks.len()
        invariant
            i <= ranks@.len() == ss.len(),
            forall|j: int| 0 <= j < ss.len() ==> #[trigger] ranks@[j] == identity_rank(ss[j], x),
            forall|j: int| 0 <= j < out@.len() ==> #[trigger] out@[j] < ss.len(),
            places(out@) == base + places_ranked(ss, x, rank, i as int),
        decreases ranks@.len() - i,
    {
        assert(ranks@[i as int] == identity_rank(ss[i as int], x));
        let here: bool = match ranks[i] {
            Some(r) => r == rank,
            None => false,
        };
        if here {
            let ghost before = out@;
            out.push(i);
            assert(places(out@) =~= places(before).push(i as int));
        }
        assert(places(out@) =~= base + places_ranked(ss, x, rank, i + 1));
        i += 1;
    }
}

/// `identity_selection`, computed.
#[verifier::rlimit(40)]
pub fn select_identity_snapshots(
    snapshots: Vec<PromptTextSnapshot>,
    prompt_email: &str,
    window_title: &str,
    origin: PromptOrigin,
) -> (out: Vec<PromptTextSnapshot>)
    ensures
        out.deep_view() == identity_selection(
            snapshots.deep_view(),
            (Expectation { email: prompt_email@, title: window_title@, origin }),
        ),
{
    let ghost x = Expectation { email: prompt_email@, title: window_title@, origin };
    let ghost ss = snapshots.deep_view();
    if snapshots.len() <= 3 || !prompt_text_snapshots_match(
        &snapshots,
        prompt_email,
        window_title,
        origin,
    ) {
        return snapshots;
    }
    let mut ranks: Vec<Option<u8>> = Vec::new();
    let mut n: usize = 0;
    while n < snapshots.len()
        invariant
            n <= snapshots@.len(),
            ss == snapshots.deep_view(),
            x == (Expectation { email: prompt_email@, title: window_title@, origin }),
            ranks@.len() == n,
            forall|j: int| 0 <= j < n ==> #[trigger] ranks@[j] == identity_rank(ss[j], x),
        decreases snapshots@.len() - n,
    {
        ranks.push(snapshot_rank(&snapshots[n], prompt_email, window_title, origin));
        n += 1;
    }
    let mut candidates: Vec<usize> = Vec::new();
    push_places(&mut candidates, &ranks, 0, Ghost(ss), Ghost(x));
    push_places(&mut candidates, &ranks, 1, Ghost(ss), Ghost(x));
    push_places(&mut candidates, &ranks, 2, Ghost(ss), Ghost(x));
    assert(places(candidates@) =~= ranked_places(ss, x));
    if candidates.len() > IDENTITY_CANDIDATES {
        let ghost before = candidates@;
        candidates.truncate(IDENTITY_CANDIDATES);
        assert(places(candidates@) =~= places(before).take(IDENTITY_CANDIDATES as int));
    }
    let ghost c = candidate_places(ss, x);
    assert(places(candidates@) == c);
    assert(forall|j: int| 0 <= j < candidates@.len() ==> #[trigger] candidates@[j] == c[j]) by {
        assert forall|j: int| 0 <= j < candidates@.len() implies #[trigger] candidates@[j] == c[j] by {
            assert(places(candidates@)[j] == candidates@[j] as int);
        }
    }
    let total: usize = candidates.len();

    let mut i: usize = 0;
    while i < total
        invariant
            i <= total == candidates@.len() == c.len(),
            ss == snapshots.deep_view(),
            x == (Expectation { email: prompt_email@, title: window_title@, origin }),
            forall|j: int| 0 <= j < candidates@.len() ==> #[trigger] candidates@[j] < ss.len(),
            forall|j: int| 0 <= j < candidates@.len() ==> #[trigger] candidates@[j] == c[j],
            first_single(ss, c, x, 0) == first_single(ss, c, x, i as int),
            c == candidate_places(ss, x),
            ss.len() > 3,
            snapshots_say(ss, x),
        decreases total - i,
    {
        let mut selected: Vec<PromptTextSnapshot> = Vec::new();
        selected.push(snapshots[candidates[i]].duplicate());
        assert(selected.deep_view() =~= seq![ss[c[i as int]]]);
        if prompt_text_snapshots_match(&selected, prompt_email, window_title, origin) {
            return selected;
        }
        i += 1;
    }

    let mut a: usize = 0;
    while a < total
        invariant
            a <= total == candidates@.len() == c.len(),
            total <= IDENTITY_CANDIDATES,
            ss == snapshots.deep_view(),
            x == (Expectation { email: prompt_email@, title: window_title@, origin }),
            forall|j: int| 0 <= j < candidates@.len() ==> #[trigger] candidates@[j] < ss.len(),
            forall|j: int| 0 <= j < candidates@.len() ==> #[trigger] candidates@[j] == c[j],
            first_single(ss, c, x, 0) is None,
            first_pair(ss, c, x, 0, 1) == first_pair(ss, c, x, a as int, a + 1),
            c == candidate_places(ss, x),
            ss.len() > 3,
            snapshots_say(ss, x),
        decreases total - a,
    {
        let mut b: usize = a + 1;
        while b < total
            invariant
                a < b <= total == candidates@.len() == c.len(),
                ss == snapshots.deep_view(),
                x == (Expectation { email: prompt_email@, title: window_title@, origin }),
                forall|j: int| 0 <= j < candidates@.len() ==> #[trigger] candidates@[j] < ss.len(),
                forall|j: int| 0 <= j < candidates@.len() ==> #[trigger] candidates@[j] == c[j],
                first_single(ss, c, x, 0) is None,
                first_pair(ss, c, x, 0, 1) == first_pair(ss, c, x, a as int, b as int),
                c == candidate_places(ss, x),
                ss.len() > 3,
                snapshots_say(ss, x),
            decreases total - b,
        {
            let mut selected: Vec<PromptTextSnapshot> = Vec::new();
            selected.push(snapshots[candidates[a]].duplicate());
            selected.push(snapshots[candidates[b]].duplicate());
            assert(selected.deep_view() =~= seq![ss[c[a as int]], ss[c[b as int]]]);
            if prompt_text_snapshots_match(&selected, prompt_email, window_title, origin) {
                return selected;
            }
            b += 1;
        }
        a += 1;
    }

    let limit: usize = if total <= IDENTITY_TRIPLE_CANDIDATES {
        total
    } else {
        IDENTITY_TRIPLE_CANDIDATES
    };
    let mut a: usize = 0;
    while a < limit
        invariant
            a <= limit <= total == candidates@.len() == c.len(),
            limit <= IDENTITY_TRIPLE_CANDIDATES,
            limit == triple_limit(c),
            ss == snapshots.deep_view(),
            x == (Expectation { email: prompt_email@, title: window_title@, origin }),
            forall|j: int| 0 <= j < candidates@.len() ==> #[trigger] candidates@[j] < ss.len(),
            forall|j: int| 0 <= j < candidates@.len() ==> #[trigger] candidates@[j] == c[j],
            first_single(ss, c, x, 0) is None,
            first_pair(ss, c, x, 0, 1) is None,
            first_triple(ss, c, x, limit as int, 0, 1, 2) == first_triple(
                ss,
                c,
                x,
                limit as int,
                a as int,
                a + 1,
                a + 2,
            ),
            c == candidate_places(ss, x),
            ss.len() > 3,
            snapshots_say(ss, x),
        decreases limit - a,
    {
        let mut b: usize = a + 1;
        while b < limit
            invariant
                a < b <= limit <= total == candidates@.len() == c.len(),
                limit <= IDENTITY_TRIPLE_CANDIDATES,
                limit == triple_limit(c),
                ss == snapshots.deep_view(),
                x == (Expectation { email: prompt_email@, title: window_title@, origin }),
                forall|j: int| 0 <= j < candidates@.len() ==> #[trigger] candidates@[j] < ss.len(),
                forall|j: int| 0 <= j < candidates@.len() ==> #[trigger] candidates@[j] == c[j],
                first_single(ss, c, x, 0) is None,
                first_pair(ss, c, x, 0, 1) is None,
                first_triple(ss, c, x, limit as int, 0, 1, 2) == first_triple(
                    ss,
                    c,
                    x,
                    limit as int,
                    a as int,
                    b as int,
                    b + 1,
                ),
                c == candidate_places(ss, x),
                ss.len() > 3,
                snapshots_say(ss, x),
            decreases limit - b,
        {
            let mut k: usize = b + 1;
            while k < limit
                invariant
                    a < b < k <= limit <= total == candidates@.len() == c.len(),
                    limit == triple_limit(c),
                    ss == snapshots.deep_view(),
                    x == (Expectation { email: prompt_email@, title: window_title@, origin }),
                    forall|j: int|
                        0 <= j < candidates@.len() ==> #[trigger] candidates@[j] < ss.len(),
                    forall|j: int| 0 <= j < candidates@.len() ==> #[trigger] candidates@[j] == c[j],
                    first_single(ss, c, x, 0) is None,
                    first_pair(ss, c, x, 0, 1) is None,
                    first_triple(ss, c, x, limit as int, 0, 1, 2) == first_triple(
                        ss,
                        c,
                        x,
                        limit as int,
                        a as int,
                        b as int,
                        k as int,
                    ),
                    c == candidate_places(ss, x),
                    ss.len() > 3,
                    snapshots_say(ss, x),
                decreases limit - k,
            {
                let mut selected: Vec<PromptTextSnapshot> = Vec::new();
                selected.push(snapshots[candidates[a]].duplicate());
                selected.push(snapshots[candidates[b]].duplicate());
                selected.push(snapshots[candidates[k]].duplicate());
                assert(selected.deep_view() =~= seq![
                    ss[c[a as int]],
                    ss[c[b as int]],
                    ss[c[k as int]],
                ]);
                if prompt_text_snapshots_match(&selected, prompt_email, window_title, origin) {
                    return selected;
                }
                k += 1;
            }
            b += 1;
        }
        a += 1;
    }
    snapshots
}

/// The identifying snapshots of some elements.
pub fn prompt_text_snapshots(
    tree: &AxTree,
    ids: &Vec<u64>,
    prompt_email: &str,
    window_title: &str,
    origin: PromptOrigin,
) -> (out: Vec<PromptTextSnapshot>)
    ensures
        out.deep_view() == identity_selection(
            snapshots(tree.deep_view(), ids@),
            (Expectation { email: prompt_email@, title: window_title@, origin }),
        ),
{
    let taken: Vec<PromptTextSnapshot> = take_snapshots(tree, ids);
    select_identity_snapshots(taken, prompt_email, window_title, origin)
}

proof fn lemma_single_says(ss: Seq<SnapshotView>, c: Seq<int>, x: Expectation, i: int)
    ensures
        first_single(ss, c, x, i) is Some ==> snapshots_say(first_single(ss, c, x, i)->0, x),
    decreases c.len() - i,
{
    if i < c.len() && !snapshots_say(seq![ss[c[i]]], x) {
        lemma_single_says(ss, c, x, i + 1);
    }
}

proof fn lemma_pair_says(ss: Seq<SnapshotView>, c: Seq<int>, x: Expectation, i: int, j: int)
    ensures
        first_pair(ss, c, x, i, j) is Some ==> snapshots_say(first_pair(ss, c, x, i, j)->0, x),
    decreases c.len() - i, c.len() - j,
{
    if i < c.len() {
        if j >= c.len() {
            lemma_pair_says(ss, c, x, i + 1, i + 2);
        } else if !snapshots_say(seq![ss[c[i]], ss[c[j]]], x) {
            lemma_pair_says(ss, c, x, i, j + 1);
        }
    }
}

proof fn lemma_triple_says(
    ss: Seq<SnapshotView>,
    c: Seq<int>,
    x: Expectation,
    n: int,
    i: int,
    j: int,
    k: int,
)
    ensures
        first_triple(ss, c, x, n, i, j, k) is Some ==> snapshots_say(
            first_triple(ss, c, x, n, i, j, k)->0,
            x,
        ),
    decreases n - i, n - j, n - k,
{
    if i < n {
        if j >= n {
            lemma_triple_says(ss, c, x, n, i + 1, i + 2, i + 3);
        } else if k >= n {
            lemma_triple_says(ss, c, x, n, i, j + 1, j + 2);
        } else if !snapshots_say(seq![ss[c[i]], ss[c[j]], ss[c[k]]], x) {
            lemma_triple_says(ss, c, x, n, i, j, k + 1);
        }
    }
}

/// Texts that identify a prompt still do when all but a few are dropped.
pub proof fn law_identity_selection_identifies(ss: Seq<SnapshotView>, x: Expectation)
    ensures
        snapshots_say(ss, x) ==> snapshots_say(identity_selection(ss, x), x),
        !snapshots_say(ss, x) ==> identity_selection(ss, x) == ss,
{
    let c = candidate_places(ss, x);
    lemma_single_says(ss, c, x, 0);
    lemma_pair_says(ss, c, x, 0, 1);
    lemma_triple_says(ss, c, x, triple_limit(c), 0, 1, 2);
}

} // verus!
