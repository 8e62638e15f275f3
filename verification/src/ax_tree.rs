//! Accessibility elements as plain data: what is read of an element, which
//! elements matter to a credential prompt, and the bounded walk over a tree.

use crate::prompt_text::{normalized_identifier, text_contains_password_cue};
#[allow(unused_imports)]
use crate::prompt_text::{has_password_cue, identifier};
#[allow(unused_imports)]
use crate::text::{same_ascii, trimmed, with_part};
use crate::text::{equals, is_blank, push_text, texts_eq_ignore_ascii_case, to_chars};
use vstd::prelude::*;
#[allow(unused_imports)]
use vstd::string::StringExecFns;

verus! {

pub const MAX_ELEMENT_COUNT: usize = 900;

pub const AX_SEARCH_DEPTH: usize = 12;

pub const MAX_DIRECT_SHEET_COUNT: usize = 8;

pub const AX_ERROR_SUCCESS: i32 = 0;

pub const AX_ERROR_ATTRIBUTE_UNSUPPORTED: i32 = -25205;

pub const AX_ERROR_NO_VALUE: i32 = -25212;

/// Whether a failed query of a relationship only says that there is none.
pub fn ax_relationship_attr_is_absent(error: i32) -> (r: bool)
    ensures
        r == (error == AX_ERROR_ATTRIBUTE_UNSUPPORTED || error == AX_ERROR_NO_VALUE),
{
    error == AX_ERROR_ATTRIBUTE_UNSUPPORTED || error == AX_ERROR_NO_VALUE
}

// ---------------------------------------------------------------------------
// Elements
// ---------------------------------------------------------------------------

/// What was read of one element. The identity of an element is its number.
#[derive(Clone)]
pub struct AxNode {
    pub id: u64,
    pub process_id: Option<i32>,
    pub parent: Option<u64>,
    /// The children; `None` where the query failed.
    pub children: Option<Vec<u64>>,
    /// The attached sheets; `None` where the query failed.
    pub sheets: Option<Vec<u64>>,
    pub role: Option<String>,
    pub subrole: Option<String>,
    pub role_description: Option<String>,
    pub title: Option<String>,
    pub description: Option<String>,
    pub help: Option<String>,
    pub placeholder: Option<String>,
    pub value: Option<String>,
    pub hidden: Option<bool>,
    pub enabled: Option<bool>,
    pub focused: Option<bool>,
    pub main: Option<bool>,
}

/// What an `AxNode` says.
#[verifier::ext_equal]
pub struct NodeView {
    pub id: u64,
    pub process_id: Option<i32>,
    pub parent: Option<u64>,
    pub children: Option<Seq<u64>>,
    pub sheets: Option<Seq<u64>>,
    pub role: Option<Seq<char>>,
    pub subrole: Option<Seq<char>>,
    pub role_description: Option<Seq<char>>,
    pub title: Option<Seq<char>>,
    pub description: Option<Seq<char>>,
    pub help: Option<Seq<char>>,
    pub placeholder: Option<Seq<char>>,
    pub value: Option<Seq<char>>,
    pub hidden: Option<bool>,
    pub enabled: Option<bool>,
    pub focused: Option<bool>,
    pub main: Option<bool>,
}

pub open spec fn ids_view(ids: Option<Vec<u64>>) -> Option<Seq<u64>> {
    match ids {
        Some(ids) => Some(ids@),
        None => None,
    }
}

impl DeepView for AxNode {
    type V = NodeView;

    open spec fn deep_view(&self) -> NodeView {
        NodeView {
            id: self.id,
            process_id: self.process_id,
            parent: self.parent,
            children: ids_view(self.children),
            sheets: ids_view(self.sheets),
            role: self.role.deep_view(),
            subrole: self.subrole.deep_view(),
            role_description: self.role_description.deep_view(),
            title: self.title.deep_view(),
            description: self.description.deep_view(),
            help: self.help.deep_view(),
            placeholder: self.placeholder.deep_view(),
            value: self.value.deep_view(),
            hidden: self.hidden,
            enabled: self.enabled,
            focused: self.focused,
            main: self.main,
        }
    }
}

/// A text attribute; one that holds nothing but white space counts as absent.
pub open spec fn attr_text(value: Option<Seq<char>>) -> Option<Seq<char>> {
    match value {
        Some(text) => if trimmed(text).len() == 0 {
            None
        } else {
            Some(text)
        },
        None => None,
    }
}

/// `attr_text`, computed.
pub fn text_attr(value: &Option<String>) -> (out: Option<String>)
    ensures
        out.deep_view() == attr_text(value.deep_view()),
{
    match value {
        Some(text) => {
            if is_blank(text.as_str()) {
                None
            } else {
                Some(text.clone())
            }
        },
        None => None,
    }
}

/// Hidden, as far as it says so: an element without the attribute is not.
pub open spec fn node_hidden(n: NodeView) -> bool {
    n.hidden == Some(true)
}

/// Enabled, as far as it says so: an element without the attribute is not.
pub open spec fn node_enabled(n: NodeView) -> bool {
    n.enabled == Some(true)
}

pub open spec fn node_role_is(n: NodeView, role: Seq<char>) -> bool {
    n.role is Some && same_ascii(n.role->0, role)
}

pub open spec fn secure_role(value: Option<Seq<char>>) -> bool {
    value is Some && (same_ascii(value->0, "AXSecureTextField"@) || identifier(value->0)
        == "securetextfield"@)
}

/// A secure text field, by its role or subrole.
pub open spec fn node_secure(n: NodeView) -> bool {
    secure_role(n.role) || secure_role(n.subrole)
}

/// What labels an element.
pub open spec fn node_label(n: NodeView) -> Seq<char> {
    with_part(
        with_part(
            with_part(with_part(with_part(Seq::empty(), n.title), n.description), n.help),
            n.placeholder,
        ),
        n.role_description,
    )
}

/// A plain text field whose label speaks of a password.
pub open spec fn node_password_like(n: NodeView) -> bool {
    node_role_is(n, "AXTextField"@) && has_password_cue(node_label(n))
}

/// An element whose value may be a password.
pub open spec fn node_sensitive(n: NodeView) -> bool {
    node_secure(n) || node_password_like(n)
}

pub open spec fn node_is_text(n: NodeView) -> bool {
    node_role_is(n, "AXTextField"@) || node_role_is(n, "AXStaticText"@)
}

/// A field that a password may be typed into.
pub open spec fn node_password_field(n: NodeView) -> bool {
    !node_hidden(n) && node_enabled(n) && node_secure(n)
}

/// What labels a button.
pub open spec fn node_button_text(n: NodeView) -> Seq<char> {
    with_part(
        with_part(with_part(with_part(Seq::empty(), n.title), n.value), n.description),
        n.help,
    )
}

/// Whether the value of an element may be read at all: of a text that is not
/// sensitive, or of a button.
pub open spec fn node_value_readable(n: NodeView) -> bool {
    (node_is_text(n) && !node_sensitive(n)) || node_role_is(n, "AXButton"@)
}

/// Whether an element's text is part of what a prompt says.
pub open spec fn contributes(
    hidden: bool,
    hidden_ancestor: bool,
    native_password_field: bool,
    password_like_text_field: bool,
) -> bool {
    !hidden && !hidden_ancestor && !native_password_field && !password_like_text_field
}

/// `contributes`, computed.
pub fn prompt_text_element_should_contribute(
    hidden: bool,
    hidden_ancestor: bool,
    native_password_field: bool,
    password_like_text_field: bool,
) -> (r: bool)
    ensures
        r == contributes(
            hidden,
            hidden_ancestor,
            native_password_field,
            password_like_text_field,
        ),
{
    !hidden && !hidden_ancestor && !native_password_field && !password_like_text_field
}

pub open spec fn node_contributes(n: NodeView) -> bool {
    contributes(node_hidden(n), false, node_secure(n), node_password_like(n))
}

fn is_secure_role(value: &Option<String>) -> (r: bool)
    ensures
        r == secure_role(value.deep_view()),
{
    match value {
        Some(value) => {
            if texts_eq_ignore_ascii_case(value.as_str(), "AXSecureTextField") {
                return true;
            }
            let chars: Vec<char> = to_chars(value.as_str());
            let name: Vec<char> = normalized_identifier(&chars);
            equals(&name, "securetextfield")
        },
        None => false,
    }
}

impl AxNode {
    pub fn is_hidden(&self) -> (r: bool)
        ensures
            r == node_hidden(self.deep_view()),
    {
        match self.hidden {
            Some(hidden) => hidden,
            None => false,
        }
    }

    pub fn is_enabled(&self) -> (r: bool)
        ensures
            r == node_enabled(self.deep_view()),
    {
        match self.enabled {
            Some(enabled) => enabled,
            None => false,
        }
    }

    pub fn role_matches(&self, expected: &str) -> (r: bool)
        ensures
            r == node_role_is(self.deep_view(), expected@),
    {
        match &self.role {
            Some(role) => texts_eq_ignore_ascii_case(role.as_str(), expected),
            None => false,
        }
    }

    pub fn has_secure_password_field_identity(&self) -> (r: bool)
        ensures
            r == node_secure(self.deep_view()),
    {
        is_secure_role(&self.role) || is_secure_role(&self.subrole)
    }

    pub fn element_label_text(&self) -> (out: String)
        ensures
            out@ == node_label(self.deep_view()),
    {
        let mut text: String = String::new();
        push_text(&mut text, &self.title);
        push_text(&mut text, &self.description);
        push_text(&mut text, &self.help);
        push_text(&mut text, &self.placeholder);
        push_text(&mut text, &self.role_description);
        text
    }

    pub fn has_password_like_text_field_identity(&self) -> (r: bool)
        ensures
            r == node_password_like(self.deep_view()),
    {
        self.role_matches("AXTextField") && text_contains_password_cue(
            self.element_label_text().as_str(),
        )
    }

    pub fn has_sensitive_password_field_identity(&self) -> (r: bool)
        ensures
            r == node_sensitive(self.deep_view()),
    {
        self.has_secure_password_field_identity() || self.has_password_like_text_field_identity()
    }

    pub fn is_text_or_static_text(&self) -> (r: bool)
        ensures
            r == node_is_text(self.deep_view()),
    {
        self.role_matches("AXTextField") || self.role_matches("AXStaticText")
    }

    pub fn is_secure_password_insertion_field(&self) -> (r: bool)
        ensures
            r == node_password_field(self.deep_view()),
    {
        !self.is_hidden() && self.is_enabled() && self.has_secure_password_field_identity()
    }

    /// Whether the value may be read, as the other attributes say.
    pub fn value_may_be_read(&self) -> (r: bool)
        ensures
            r == node_value_readable(self.deep_view()),
    {
        (self.is_text_or_static_text() && !self.has_sensitive_password_field_identity())
            || self.role_matches("AXButton")
    }

    pub fn button_text(&self) -> (out: String)
        ensures
            out@ == node_button_text(self.deep_view()),
    {
        let mut text: String = String::new();
        push_text(&mut text, &self.title);
        push_text(&mut text, &self.value);
        push_text(&mut text, &self.description);
        push_text(&mut text, &self.help);
        text
    }

    /// Whether the element's text is part of what a prompt says.
    pub fn contributes_text(&self) -> (r: bool)
        ensures
            r == node_contributes(self.deep_view()),
    {
        prompt_text_element_should_contribute(
            self.is_hidden(),
            false,
            self.has_secure_password_field_identity(),
            self.has_password_like_text_field_identity(),
        )
    }

    /// Role, subrole and role description, one space apart.
    pub fn element_role_text(&self) -> (out: String)
        ensures
            out@ == node_role_text(self.deep_view()),
    {
        let mut out: String = String::new();
        push_role_part(&mut out, &self.role);
        push_role_part(&mut out, &self.subrole);
        push_role_part(&mut out, &self.role_description);
        out
    }
}

/// `text` with `part` behind it, one space between them where both say anything.
pub open spec fn with_role_part(text: Seq<char>, part: Option<Seq<char>>) -> Seq<char> {
    match attr_text(part) {
        Some(part) => if text.len() == 0 {
            part
        } else {
            text.push(' ') + part
        },
        None => text,
    }
}

pub open spec fn node_role_text(n: NodeView) -> Seq<char> {
    with_role_part(
        with_role_part(with_role_part(Seq::empty(), n.role), n.subrole),
        n.role_description,
    )
}

fn push_role_part(text: &mut String, part: &Option<String>)
    ensures
        final(text)@ == with_role_part(old(text)@, part.deep_view()),
{
    if let Some(part) = text_attr(part) {
        if !text.as_str().is_empty() {
            text.push(' ');
        }
        text.append(part.as_str());
        assert(old(text)@.len() == 0 ==> text@ =~= part@);
    }
}

// ---------------------------------------------------------------------------
// The bounded walk
// ---------------------------------------------------------------------------

/// How far a walk got.
#[derive(Debug, Clone, PartialEq, Eq)]
pub enum AxTraversalCompleteness {
    Complete,
    ChildQueryFailed(String),
    DepthLimitReached { max_depth: usize },
    ElementLimitReached { max_elements: usize },
}

/// What an `AxTraversalCompleteness` says.
pub enum CompletenessView {
    Complete,
    ChildQueryFailed(Seq<char>),
    DepthLimitReached(int),
    ElementLimitReached(int),
}

/// The elements below a root, in the order in which they were met, and how far
/// the walk got.
#[derive(Debug, Clone)]
pub struct AxTraversal {
    pub elements: Vec<u64>,
    pub completeness: AxTraversalCompleteness,
}

#[verifier::ext_equal]
pub struct TraversalView {
    pub elements: Seq<u64>,
    pub completeness: CompletenessView,
}

impl DeepView for AxTraversalCompleteness {
    type V = CompletenessView;

    open spec fn deep_view(&self) -> CompletenessView {
        match self {
            AxTraversalCompleteness::Complete => CompletenessView::Complete,
            AxTraversalCompleteness::ChildQueryFailed(e) => CompletenessView::ChildQueryFailed(e@),
            AxTraversalCompleteness::DepthLimitReached { max_depth } => {
                CompletenessView::DepthLimitReached(*max_depth as int)
            },
            AxTraversalCompleteness::ElementLimitReached { max_elements } => {
                CompletenessView::ElementLimitReached(*max_elements as int)
            },
        }
    }
}

impl DeepView for AxTraversal {
    type V = TraversalView;

    open spec fn deep_view(&self) -> TraversalView {
        TraversalView {
            elements: self.elements@,
            completeness: self.completeness.deep_view(),
        }
    }
}

/// The children of each element, or the error of the query for them.
pub type Children = spec_fn(u64) -> Result<Seq<u64>, Seq<char>>;

pub open spec fn stopped(t: TraversalView, why: CompletenessView) -> TraversalView {
    TraversalView { completeness: why, ..t }
}

/// A walk from `root`, which stands at `depth`, that has met `t` so far.
pub open spec fn walk(
    children: Children,
    root: u64,
    depth: int,
    max_depth: int,
    max_elements: int,
    t: TraversalView,
) -> TraversalView
    decreases max_depth - depth, 1int, 0int,
{
    if t.completeness != CompletenessView::Complete {
        t
    } else {
        match children(root) {
            Err(error) => stopped(t, CompletenessView::ChildQueryFailed(error)),
            Ok(below) => if below.len() == 0 {
                t
            } else if depth >= max_depth {
                stopped(t, CompletenessView::DepthLimitReached(max_depth))
            } else {
                walk_all(children, below, depth, max_depth, max_elements, t)
            },
        }
    }
}

/// The walk over the elements `below` one at `depth`.
pub open spec fn walk_all(
    children: Children,
    below: Seq<u64>,
    depth: int,
    max_depth: int,
    max_elements: int,
    t: TraversalView,
) -> TraversalView
    decreases max_depth - depth, 0int, below.len(),
{
    if below.len() == 0 || depth >= max_depth {
        t
    } else if t.elements.len() >= max_elements {
        stopped(t, CompletenessView::ElementLimitReached(max_elements))
    } else {
        let met = TraversalView { elements: t.elements.push(below.first()), ..t };
        let next = walk(children, below.first(), depth + 1, max_depth, max_elements, met);
        if next.completeness != CompletenessView::Complete {
            next
        } else {
            walk_all(children, below.drop_first(), depth, max_depth, max_elements, next)
        }
    }
}

pub open spec fn empty_traversal() -> TraversalView {
    TraversalView { elements: Seq::empty(), completeness: CompletenessView::Complete }
}

/// The whole walk below `root`.
pub open spec fn descendants(
    children: Children,
    root: u64,
    max_depth: int,
    max_elements: int,
) -> TraversalView {
    walk(children, root, 0, max_depth, max_elements, empty_traversal())
}

pub open spec fn answer(r: Result<Vec<u64>, String>) -> Result<Seq<u64>, Seq<char>> {
    match r {
        Ok(ids) => Ok(ids@),
        Err(error) => Err(error@),
    }
}

/// The query always answers as `children` says.
pub open spec fn answers<F: Fn(u64) -> Result<Vec<u64>, String>>(
    query_children: F,
    children: Children,
) -> bool {
    forall|id: u64, r: Result<Vec<u64>, String>| #[trigger]
        call_ensures(query_children, (id,), r) ==> answer(r) == children(id)
}

pub open spec fn got_everywhere(t: TraversalView) -> bool {
    t.completeness == CompletenessView::Complete
}

/// A walk as in `walk`, whatever the query answers each time: from `t` it may come to
/// `out`.
pub open spec fn may_walk<F: Fn(u64) -> Result<Vec<u64>, String>>(
    query_children: F,
    root: u64,
    depth: int,
    max_depth: int,
    max_elements: int,
    t: TraversalView,
    out: TraversalView,
) -> bool
    decreases max_depth - depth, 1int, 0int,
{
    if t.completeness != CompletenessView::Complete {
        out == t
    } else {
        exists|r: Result<Vec<u64>, String>| #[trigger]
            call_ensures(query_children, (root,), r) && match r {
                Err(error) => out == stopped(t, CompletenessView::ChildQueryFailed(error@)),
                Ok(below) => if below@.len() == 0 {
                    out == t
                } else if depth >= max_depth {
                    out == stopped(t, CompletenessView::DepthLimitReached(max_depth))
                } else {
                    may_walk_all(
                        query_children,
                        below@,
                        depth,
                        max_depth,
                        max_elements,
                        t,
                        out,
                    )
                },
            }
    }
}

/// The walk over the elements `below` one at `depth`, whatever the query answers.
pub open spec fn may_walk_all<F: Fn(u64) -> Result<Vec<u64>, String>>(
    query_children: F,
    below: Seq<u64>,
    depth: int,
    max_depth: int,
    max_elements: int,
    t: TraversalView,
    out: TraversalView,
) -> bool
    decreases max_depth - depth, 0int, below.len(),
{
    if below.len() == 0 || depth >= max_depth {
        out == t
    } else if t.elements.len() >= max_elements {
        out == stopped(t, CompletenessView::ElementLimitReached(max_elements))
    } else {
        let met = TraversalView { elements: t.elements.push(below.first()), ..t };
        exists|next: TraversalView|
            {
                &&& may_walk(
                    query_children,
                    below.first(),
                    depth + 1,
                    max_depth,
                    max_elements,
                    met,
                    next,
                )
                &&& if #[trigger] got_everywhere(next) {
                    may_walk_all(
                        query_children,
                        below.drop_first(),
                        depth,
                        max_depth,
                        max_elements,
                        next,
                        out,
                    )
                } else {
                    out == next
                }
            }
    }
}

proof fn lemma_may_walk_on<F: Fn(u64) -> Result<Vec<u64>, String>>(
    query_children: F,
    below: Seq<u64>,
    depth: int,
    max_depth: int,
    max_elements: int,
    t: TraversalView,
    next: TraversalView,
    out: TraversalView,
)
    requires
        below.len() > 0,
        depth < max_depth,
        t.elements.len() < max_elements,
        may_walk(
            query_children,
            below.first(),
            depth + 1,
            max_depth,
            max_elements,
            (TraversalView { elements: t.elements.push(below.first()), ..t }),
            next,
        ),
        if got_everywhere(next) {
            may_walk_all(
                query_children,
                below.drop_first(),
                depth,
                max_depth,
                max_elements,
                next,
                out,
            )
        } else {
            out == next
        },
    ensures
        may_walk_all(query_children, below, depth, max_depth, max_elements, t, out),
{
}

/// The query may have led from `root` down to `id` in `depth` steps.
pub open spec fn reached<F: Fn(u64) -> Result<Vec<u64>, String>>(
    query_children: F,
    root: u64,
    id: u64,
    depth: int,
) -> bool
    decreases depth,
{
    if depth <= 0 {
        depth == 0 && id == root
    } else {
        exists|parent: u64, below: Vec<u64>|
            {
                &&& reached(query_children, root, parent, depth - 1)
                &&& #[trigger] call_ensures(
                    query_children,
                    (parent,),
                    Ok::<Vec<u64>, String>(below),
                )
                &&& below@.contains(id)
            }
    }
}

/// An element that a walk down to `max_depth` below `root` may meet.
pub open spec fn within_reach<F: Fn(u64) -> Result<Vec<u64>, String>>(
    query_children: F,
    root: u64,
    id: u64,
    max_depth: int,
) -> bool {
    exists|depth: int|
        0 <= depth <= max_depth && #[trigger] reached(query_children, root, id, depth)
}

fn collect_descendants_recursive<F: Fn(u64) -> Result<Vec<u64>, String>>(
    root: u64,
    depth: usize,
    max_depth: usize,
    max_elements: usize,
    query_children: &F,
    traversal: &mut AxTraversal,
    Ghost(top): Ghost<u64>,
)
    requires
        forall|id: u64|
            within_reach(*query_children, top, id, max_depth as int) ==> #[trigger] call_requires(
                *query_children,
                (id,),
            ),
        reached(*query_children, top, root, depth as int),
        forall|i: int|
            0 <= i < old(traversal).elements@.len() ==> within_reach(
                *query_children,
                top,
                #[trigger] old(traversal).elements@[i],
                max_depth as int,
            ),
        depth <= max_depth,
        old(traversal).elements@.len() <= max_elements,
    ensures
        final(traversal).elements@.len() <= max_elements,
        may_walk(
            *query_children,
            root,
            depth as int,
            max_depth as int,
            max_elements as int,
            old(traversal).deep_view(),
            final(traversal).deep_view(),
        ),
        forall|i: int|
            0 <= i < final(traversal).elements@.len() ==> within_reach(
                *query_children,
                top,
                #[trigger] final(traversal).elements@[i],
                max_depth as int,
            ),
        forall|children: Children| #[trigger]
            answers(*query_children, children) ==> final(traversal).deep_view() == walk(
                children,
                root,
                depth as int,
                max_depth as int,
                max_elements as int,
                old(traversal).deep_view(),
            ),
    decreases max_depth - depth,
{
    if !is_complete(&traversal.completeness) {
        return;
    }
    let below: Vec<u64> = match query_children(root) {
        Ok(below) => below,
        Err(error) => {
            traversal.completeness = AxTraversalCompleteness::ChildQueryFailed(error);
            return;
        },
    };
    if below.len() == 0 {
        return;
    }
    if depth >= max_depth {
        traversal.completeness = AxTraversalCompleteness::DepthLimitReached { max_depth };
        return;
    }
    let ghost start = old(traversal).deep_view();
    let mut i: usize = 0;
    assert(below@.skip(0) =~= below@);
    while i < below.len()
        invariant
            i <= below@.len(),
            depth < max_depth,
            forall|id: u64|
                within_reach(*query_children, top, id, max_depth as int) ==> #[trigger]
                call_requires(*query_children, (id,)),
            reached(*query_children, top, root, depth as int),
            call_ensures(*query_children, (root,), Ok::<Vec<u64>, String>(below)),
            forall|j: int|
                0 <= j < traversal.elements@.len() ==> within_reach(
                    *query_children,
                    top,
                    #[trigger] traversal.elements@[j],
                    max_depth as int,
                ),
            traversal.elements@.len() <= max_elements,
            traversal.deep_view().completeness == CompletenessView::Complete,
            forall|out: TraversalView| #[trigger]
                may_walk_all(
                    *query_children,
                    below@.skip(i as int),
                    depth as int,
                    max_depth as int,
                    max_elements as int,
                    traversal.deep_view(),
                    out,
                ) ==> may_walk_all(
                    *query_children,
                    below@,
                    depth as int,
                    max_depth as int,
                    max_elements as int,
                    start,
                    out,
                ),
            forall|children: Children| #[trigger]
                answers(*query_children, children) ==> walk_all(
                    children,
                    below@,
                    depth as int,
                    max_depth as int,
                    max_elements as int,
                    start,
                ) == walk_all(
                    children,
                    below@.skip(i as int),
                    depth as int,
                    max_depth as int,
                    max_elements as int,
                    traversal.deep_view(),
                ),
            start == old(traversal).deep_view(),
            start.completeness == CompletenessView::Complete,
            below@.len() > 0,
            forall|children: Children| #[trigger]
                answers(*query_children, children) ==> children(root) == Ok::<
                    Seq<u64>,
                    Seq<char>,
                >(below@),
        decreases below@.len() - i,
    {
        let child: u64 = below[i];
        assert(below@.skip(i as int).first() == child);
        assert(below@.skip(i as int).drop_first() =~= below@.skip(i + 1));
        if traversal.elements.len() >= max_elements {
            let ghost met = traversal.deep_view();
            traversal.completeness = AxTraversalCompleteness::ElementLimitReached { max_elements };
            assert(may_walk_all(
                *query_children,
                below@.skip(i as int),
                depth as int,
                max_depth as int,
                max_elements as int,
                met,
                traversal.deep_view(),
            ));
            return;
        }
        assert(below@.contains(child));
        assert(reached(*query_children, top, child, depth + 1));
        let ghost so_far = traversal.deep_view();
        traversal.elements.push(child);
        let ghost met = traversal.deep_view();
        assert(met == (TraversalView {
            elements: so_far.elements.push(child),
            ..so_far
        }));
        collect_descendants_recursive(
            child,
            depth + 1,
            max_depth,
            max_elements,
            query_children,
            traversal,
            Ghost(top),
        );
        let ghost next = traversal.deep_view();
        assert(may_walk(
            *query_children,
            child,
            depth + 1,
            max_depth as int,
            max_elements as int,
            met,
            next,
        ));
        if !is_complete(&traversal.completeness) {
            proof {
                lemma_may_walk_on(
                    *query_children,
                    below@.skip(i as int),
                    depth as int,
                    max_depth as int,
                    max_elements as int,
                    so_far,
                    next,
                    next,
                );
            }
            return;
        }
        proof {
            assert forall|out: TraversalView| #[trigger]
                may_walk_all(
                    *query_children,
                    below@.skip(i + 1),
                    depth as int,
                    max_depth as int,
                    max_elements as int,
                    next,
                    out,
                ) implies may_walk_all(
                *query_children,
                below@,
                depth as int,
                max_depth as int,
                max_elements as int,
                start,
                out,
            ) by {
                lemma_may_walk_on(
                    *query_children,
                    below@.skip(i as int),
                    depth as int,
                    max_depth as int,
                    max_elements as int,
                    so_far,
                    next,
                    out,
                );
            }
        }
        i += 1;
    }
    assert(may_walk_all(
        *query_children,
        below@.skip(i as int),
        depth as int,
        max_depth as int,
        max_elements as int,
        traversal.deep_view(),
        traversal.deep_view(),
    ));
}

fn is_complete(completeness: &AxTraversalCompleteness) -> (r: bool)
    ensures
        r == (completeness.deep_view() == CompletenessView::Complete),
{
    match completeness {
        AxTraversalCompleteness::Complete => true,
        _ => false,
    }
}

/// Walks over what is below `root`, first the children of an element and what is
/// below them, then its siblings. The walk stops where a query fails, where
/// something lies deeper than `max_depth`, and where there is more than
/// `max_elements` to meet.
pub fn collect_descendants_bounded<F: Fn(u64) -> Result<Vec<u64>, String>>(
    root: u64,
    max_depth: usize,
    max_elements: usize,
    query_children: &F,
) -> (out: AxTraversal)
    requires
        forall|id: u64|
            within_reach(*query_children, root, id, max_depth as int) ==> #[trigger] call_requires(
                *query_children,
                (id,),
            ),
    ensures
        out.elements@.len() <= max_elements,
        may_walk(
            *query_children,
            root,
            0,
            max_depth as int,
            max_elements as int,
            empty_traversal(),
            out.deep_view(),
        ),
        forall|i: int|
            0 <= i < out.elements@.len() ==> within_reach(
                *query_children,
                root,
                #[trigger] out.elements@[i],
                max_depth as int,
            ),
        forall|children: Children| #[trigger]
            answers(*query_children, children) ==> out.deep_view() == descendants(
                children,
                root,
                max_depth as int,
                max_elements as int,
            ),
{
    let mut traversal: AxTraversal = AxTraversal {
        elements: Vec::new(),
        completeness: AxTraversalCompleteness::Complete,
    };
    assert(traversal.deep_view() =~= empty_traversal());
    collect_descendants_recursive(
        root,
        0,
        max_depth,
        max_elements,
        query_children,
        &mut traversal,
        Ghost(root),
    );
    traversal
}

impl AxTraversal {
    /// The elements of a walk that got everywhere.
    pub fn into_complete_elements(self) -> (out: Result<Vec<u64>, AxTraversalCompleteness>)
        ensures
            match out {
                Ok(elements) => self.deep_view().completeness == CompletenessView::Complete
                    && elements@ == self.elements@,
                Err(why) => self.deep_view().completeness != CompletenessView::Complete && why
                    == self.completeness,
            },
    {
        if is_complete(&self.completeness) {
            Ok(self.elements)
        } else {
            Err(self.completeness)
        }
    }
}

/// A node whose children are all among `elements`.
pub open spec fn node_closed(children: Children, id: u64, elements: Seq<u64>) -> bool {
    &&& children(id) is Ok
    &&& forall|j: int|
        0 <= j < children(id)->Ok_0.len() ==> elements.contains(#[trigger] children(id)->Ok_0[j])
}

/// A walk that got everywhere missed nothing: every child of the root and of
/// each element that it met is among the elements.
pub proof fn law_complete_walk_misses_nothing(
    children: Children,
    root: u64,
    max_depth: int,
    max_elements: int,
)
    ensures
        ({
            let t = descendants(children, root, max_depth, max_elements);
            t.completeness == CompletenessView::Complete ==> {
                &&& node_closed(children, root, t.elements)
                &&& forall|i: int|
                    0 <= i < t.elements.len() ==> node_closed(
                        children,
                        #[trigger] t.elements[i],
                        t.elements,
                    )
            }
        }),
{
    if max_depth >= 0 {
        lemma_walk_closed(children, root, 0, max_depth, max_elements, empty_traversal());
    }
}

/// A walk, complete or not, never meets more elements than it may.
pub proof fn law_walk_is_bounded(
    children: Children,
    root: u64,
    max_depth: int,
    max_elements: int,
)
    requires
        0 <= max_elements,
    ensures
        descendants(children, root, max_depth, max_elements).elements.len() <= max_elements,
{
    lemma_walk_bounded(children, root, 0, max_depth, max_elements, empty_traversal());
}

proof fn lemma_walk_bounded(
    children: Children,
    root: u64,
    depth: int,
    max_depth: int,
    max_elements: int,
    t: TraversalView,
)
    requires
        t.elements.len() <= max_elements,
    ensures
        walk(children, root, depth, max_depth, max_elements, t).elements.len() <= max_elements,
    decreases max_depth - depth, 1int, 0int,
{
    if t.completeness == CompletenessView::Complete && children(root) is Ok && depth < max_depth {
        lemma_walk_all_bounded(
            children,
            children(root)->Ok_0,
            depth,
            max_depth,
            max_elements,
            t,
        );
    }
}

proof fn lemma_walk_all_bounded(
    children: Children,
    below: Seq<u64>,
    depth: int,
    max_depth: int,
    max_elements: int,
    t: TraversalView,
)
    requires
        t.elements.len() <= max_elements,
    ensures
        walk_all(children, below, depth, max_depth, max_elements, t).elements.len()
            <= max_elements,
    decreases max_depth - depth, 0int, below.len(),
{
    if below.len() > 0 && depth < max_depth && t.elements.len() < max_elements {
        let met = TraversalView { elements: t.elements.push(below.first()), ..t };
        lemma_walk_bounded(children, below.first(), depth + 1, max_depth, max_elements, met);
        let next = walk(children, below.first(), depth + 1, max_depth, max_elements, met);
        lemma_walk_all_bounded(
            children,
            below.drop_first(),
            depth,
            max_depth,
            max_elements,
            next,
        );
    }
}

proof fn lemma_closed_grows(children: Children, id: u64, small: Seq<u64>, large: Seq<u64>)
    requires
        node_closed(children, id, small),
        small.is_prefix_of(large),
    ensures
        node_closed(children, id, large),
{
    assert forall|j: int| 0 <= j < children(id)->Ok_0.len() implies large.contains(
        #[trigger] children(id)->Ok_0[j],
    ) by {
        let c = children(id)->Ok_0[j];
        let k = choose|k: int| 0 <= k < small.len() && small[k] == c;
        assert(large[k] == c);
    }
}

proof fn lemma_walk_closed(
    children: Children,
    root: u64,
    depth: int,
    max_depth: int,
    max_elements: int,
    t: TraversalView,
)
    requires
        t.completeness == CompletenessView::Complete,
        depth <= max_depth,
    ensures
        ({
            let r = walk(children, root, depth, max_depth, max_elements, t);
            r.completeness == CompletenessView::Complete ==> {
                &&& t.elements.is_prefix_of(r.elements)
                &&& node_closed(children, root, r.elements)
                &&& forall|i: int|
                    t.elements.len() <= i < r.elements.len() ==> node_closed(
                        children,
                        #[trigger] r.elements[i],
                        r.elements,
                    )
            }
        }),
    decreases max_depth - depth, 1int, 0int,
{
    if children(root) is Ok && children(root)->Ok_0.len() > 0 && depth < max_depth {
        lemma_walk_all_closed(
            children,
            children(root)->Ok_0,
            depth,
            max_depth,
            max_elements,
            t,
        );
    }
}

proof fn lemma_walk_all_closed(
    children: Children,
    below: Seq<u64>,
    depth: int,
    max_depth: int,
    max_elements: int,
    t: TraversalView,
)
    requires
        t.completeness == CompletenessView::Complete,
        depth < max_depth,
    ensures
        ({
            let r = walk_all(children, below, depth, max_depth, max_elements, t);
            r.completeness == CompletenessView::Complete ==> {
                &&& t.elements.is_prefix_of(r.elements)
                &&& forall|j: int|
                    0 <= j < below.len() ==> r.elements.contains(#[trigger] below[j])
                &&& forall|i: int|
                    t.elements.len() <= i < r.elements.len() ==> node_closed(
                        children,
                        #[trigger] r.elements[i],
                        r.elements,
                    )
            }
        }),
    decreases max_depth - depth, 0int, below.len(),
{
    if below.len() > 0 && t.elements.len() < max_elements {
        let first = below.first();
        let met = TraversalView { elements: t.elements.push(first), ..t };
        lemma_walk_closed(children, first, depth + 1, max_depth, max_elements, met);
        let next = walk(children, first, depth + 1, max_depth, max_elements, met);
        if next.completeness == CompletenessView::Complete {
            lemma_walk_all_closed(
                children,
                below.drop_first(),
                depth,
                max_depth,
                max_elements,
                next,
            );
            let r = walk_all(children, below, depth, max_depth, max_elements, t);
            if r.completeness == CompletenessView::Complete {
                assert(met.elements[t.elements.len() as int] == first);
                assert(next.elements[t.elements.len() as int] == first);
                assert(r.elements[t.elements.len() as int] == first);
                assert forall|i: int| 0 <= i < met.elements.len() implies #[trigger] r.elements[i]
                    == met.elements[i] by {
                    assert(met.elements == next.elements.subrange(0, met.elements.len() as int));
                    assert(next.elements == r.elements.subrange(0, next.elements.len() as int));
                    assert(next.elements[i] == met.elements[i]);
                    assert(r.elements.subrange(0, next.elements.len() as int)[i] == r.elements[i]);
                }
                assert(t.elements =~= r.elements.subrange(0, t.elements.len() as int)) by {
                    assert forall|i: int| 0 <= i < t.elements.len() implies t.elements[i]
                        == r.elements[i] by {
                        assert(r.elements[i] == met.elements[i]);
                    }
                }
                assert forall|j: int| 0 <= j < below.len() implies r.elements.contains(
                    #[trigger] below[j],
                ) by {
                    if j > 0 {
                        assert(below.drop_first()[j - 1] == below[j]);
                    }
                }
                assert forall|i: int| t.elements.len() <= i < r.elements.len() implies node_closed(
                    children,
                    #[trigger] r.elements[i],
                    r.elements,
                ) by {
                    if i < next.elements.len() {
                        assert(r.elements[i] == next.elements[i]);
                        lemma_closed_grows(children, next.elements[i], next.elements, r.elements);
                    }
                }
            }
        }
    }
}

// ---------------------------------------------------------------------------
// Trees
// ---------------------------------------------------------------------------

/// The elements that were read, each under its number.
#[derive(Clone)]
pub struct AxTree {
    pub nodes: Vec<AxNode>,
}

impl DeepView for AxTree {
    type V = Seq<NodeView>;

    open spec fn deep_view(&self) -> Seq<NodeView> {
        self.nodes.deep_view()
    }
}

/// The element with the number `id`.
pub open spec fn lookup(nodes: Seq<NodeView>, id: u64) -> Option<NodeView>
    decreases nodes.len(),
{
    if nodes.len() == 0 {
        None
    } else if nodes.first().id == id {
        Some(nodes.first())
    } else {
        lookup(nodes.drop_first(), id)
    }
}

pub open spec fn hidden_at(nodes: Seq<NodeView>, id: u64) -> bool {
    lookup(nodes, id) is Some && node_hidden(lookup(nodes, id)->0)
}

pub open spec fn parent_at(nodes: Seq<NodeView>, id: u64) -> Option<u64> {
    match lookup(nodes, id) {
        Some(n) => n.parent,
        None => None,
    }
}

/// The ids that are not of hidden elements.
pub open spec fn shown(nodes: Seq<NodeView>, ids: Seq<u64>) -> Seq<u64>
    decreases ids.len(),
{
    if ids.len() == 0 {
        Seq::empty()
    } else if hidden_at(nodes, ids.last()) {
        shown(nodes, ids.drop_last())
    } else {
        shown(nodes, ids.drop_last()).push(ids.last())
    }
}

/// The shown children of an element of the tree.
pub open spec fn tree_children(nodes: Seq<NodeView>) -> Children {
    |id: u64|
        match lookup(nodes, id) {
            Some(n) => match n.children {
                Some(ids) => Ok(shown(nodes, ids)),
                None => Err("child query failed"@),
            },
            None => Err("child query failed"@),
        }
}

/// What lies below `root` in the tree; nothing does where `root` is hidden.
pub open spec fn below(nodes: Seq<NodeView>, root: u64) -> TraversalView {
    if hidden_at(nodes, root) {
        empty_traversal()
    } else {
        descendants(
            tree_children(nodes),
            root,
            AX_SEARCH_DEPTH as int,
            MAX_ELEMENT_COUNT as int,
        )
    }
}

/// Whether one element is another, or lies under it within so many steps.
pub open spec fn has_ancestor(
    nodes: Seq<NodeView>,
    id: Option<u64>,
    ancestor: u64,
    steps: int,
) -> bool
    decreases steps,
{
    if steps <= 0 {
        false
    } else {
        match id {
            Some(id) => id == ancestor || has_ancestor(
                nodes,
                parent_at(nodes, id),
                ancestor,
                steps - 1,
            ),
            None => false,
        }
    }
}

/// Whether an element is another one, or lies under it.
pub open spec fn within(nodes: Seq<NodeView>, id: u64, ancestor: u64) -> bool {
    has_ancestor(nodes, Some(id), ancestor, AX_SEARCH_DEPTH + 1)
}

impl AxTree {
    /// `lookup`, computed.
    pub fn find(&self, id: u64) -> (out: Option<&AxNode>)
        ensures
            out.deep_view() == lookup(self.deep_view(), id),
    {
        let ghost all = self.deep_view();
        let mut i: usize = 0;
        assert(all.skip(0) =~= all);
        while i < self.nodes.len()
            invariant
                i <= self.nodes@.len(),
                all == self.deep_view(),
                lookup(all, id) == lookup(all.skip(i as int), id),
            decreases self.nodes@.len() - i,
        {
            assert(all.skip(i as int).first() == self.nodes@[i as int].deep_view());
            assert(all.skip(i as int).drop_first() =~= all.skip(i + 1));
            if self.nodes[i].id == id {
                return Some(&self.nodes[i]);
            }
            i += 1;
        }
        None
    }

    pub fn is_hidden(&self, id: u64) -> (r: bool)
        ensures
            r == hidden_at(self.deep_view(), id),
    {
        match self.find(id) {
            Some(node) => node.is_hidden(),
            None => false,
        }
    }

    pub fn parent(&self, id: u64) -> (r: Option<u64>)
        ensures
            r == parent_at(self.deep_view(), id),
    {
        match self.find(id) {
            Some(node) => node.parent,
            None => None,
        }
    }

    /// `shown`, computed.
    pub fn shown_ids(&self, ids: &Vec<u64>) -> (out: Vec<u64>)
        ensures
            out@ == shown(self.deep_view(), ids@),
    {
        let mut out: Vec<u64> = Vec::new();
        let mut i: usize = 0;
        assert(ids@.take(0) =~= Seq::<u64>::empty());
        while i < ids.len()
            invariant
                i <= ids@.len(),
                out@ == shown(self.deep_view(), ids@.take(i as int)),
            decreases ids@.len() - i,
        {
            assert(ids@.take(i + 1).drop_last() =~= ids@.take(i as int));
            if !self.is_hidden(ids[i]) {
                out.push(ids[i]);
            }
            i += 1;
        }
        assert(ids@.take(ids@.len() as int) =~= ids@);
        out
    }

    fn query_children(&self, id: u64) -> (out: Result<Vec<u64>, String>)
        ensures
            answer(out) == tree_children(self.deep_view())(id),
    {
        match self.find(id) {
            Some(node) => match &node.children {
                Some(ids) => Ok(self.shown_ids(ids)),
                None => Err("child query failed".to_owned()),
            },
            None => Err("child query failed".to_owned()),
        }
    }

    /// `below`, computed.
    pub fn collect_elements(&self, root: u64) -> (out: AxTraversal)
        ensures
            out.deep_view() == below(self.deep_view(), root),
            out.elements@.len() <= MAX_ELEMENT_COUNT,
    {
        if self.is_hidden(root) {
            let out: AxTraversal = AxTraversal {
                elements: Vec::new(),
                completeness: AxTraversalCompleteness::Complete,
            };
            assert(out.deep_view() =~= empty_traversal());
            return out;
        }
        let query = |id: u64| -> (r: Result<Vec<u64>, String>)
            ensures
                answer(r) == tree_children(self.deep_view())(id),
            { self.query_children(id) };
        let out: AxTraversal = collect_descendants_bounded(
            root,
            AX_SEARCH_DEPTH,
            MAX_ELEMENT_COUNT,
            &query,
        );
        assert(answers(query, tree_children(self.deep_view())));
        out
    }

    /// `within`, computed.
    pub fn element_has_ancestor(&self, id: u64, ancestor: u64) -> (r: bool)
        ensures
            r == within(self.deep_view(), id, ancestor),
    {
        let mut current: Option<u64> = Some(id);
        let mut steps: usize = AX_SEARCH_DEPTH + 1;
        while steps > 0
            invariant
                within(self.deep_view(), id, ancestor) == has_ancestor(
                    self.deep_view(),
                    current,
                    ancestor,
                    steps as int,
                ),
            decreases steps,
        {
            match current {
                Some(here) => {
                    if here == ancestor {
                        return true;
                    }
                    current = self.parent(here);
                },
                None => {
                    return false;
                },
            }
            steps -= 1;
        }
        false
    }
}

} // verus!
