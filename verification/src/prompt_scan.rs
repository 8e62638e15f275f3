//! Scanning a tree for a credential prompt: the password fields in it, the part
//! of the tree that belongs to one, and the sheets of a window.

#[allow(unused_imports)]
use crate::ax_tree::{
    attr_text, below, hidden_at, lookup, node_contributes, node_label, node_password_field,
    node_role_is, node_role_text, parent_at, CompletenessView, NodeView,
};
use crate::ax_tree::{
    AxNode, AxTraversal, AxTraversalCompleteness, AxTree, AX_SEARCH_DEPTH, MAX_DIRECT_SHEET_COUNT,
};
#[allow(unused_imports)]
use crate::identity::TrustedInfoView;
use crate::identity::TrustedProcessInfo;
#[allow(unused_imports)]
use crate::prompt::{
    body_text, identity_selection, law_identity_selection_identifies, says, snapshot_of, snapshots,
    snapshots_say, snapshots_text, submit_button, Expectation, PromptView, TargetView,
};
use crate::prompt::{
    collect_prompt_text, prompt_text_snapshots, scoped_prompt_matches,
    select_submit_button_candidate, MacosPrompt, MacosTarget,
};
use crate::prompt_text::{
    extract_email_like, native_credential_window_identity, prompt_identity_verified, PromptOrigin,
};
#[allow(unused_imports)]
use crate::prompt_text::{credential_window, identity_verified, named_email};
#[allow(unused_imports)]
use crate::selection::unique_true;
use crate::selection::{unique_true_index, UniqueTrueIndex};
use vstd::prelude::*;

verus! {

/// Why a scan has no answer.
#[derive(Debug, Clone, PartialEq, Eq)]
pub enum ScanError {
    WindowsUnavailable,
    SheetsUnavailable,
    ChildrenUnavailable,
    SheetIncomplete(AxTraversalCompleteness),
    WindowIncomplete(AxTraversalCompleteness),
    ScopeIncomplete(AxTraversalCompleteness),
    TooManySheets,
    MultipleSheets,
}

/// What a `ScanError` says.
pub enum ScanErrorView {
    WindowsUnavailable,
    SheetsUnavailable,
    ChildrenUnavailable,
    SheetIncomplete(CompletenessView),
    WindowIncomplete(CompletenessView),
    ScopeIncomplete(CompletenessView),
    TooManySheets,
    MultipleSheets,
}

impl DeepView for ScanError {
    type V = ScanErrorView;

    open spec fn deep_view(&self) -> ScanErrorView {
        match self {
            ScanError::WindowsUnavailable => ScanErrorView::WindowsUnavailable,
            ScanError::SheetsUnavailable => ScanErrorView::SheetsUnavailable,
            ScanError::ChildrenUnavailable => ScanErrorView::ChildrenUnavailable,
            ScanError::SheetIncomplete(c) => ScanErrorView::SheetIncomplete(c.deep_view()),
            ScanError::WindowIncomplete(c) => ScanErrorView::WindowIncomplete(c.deep_view()),
            ScanError::ScopeIncomplete(c) => ScanErrorView::ScopeIncomplete(c.deep_view()),
            ScanError::TooManySheets => ScanErrorView::TooManySheets,
            ScanError::MultipleSheets => ScanErrorView::MultipleSheets,
        }
    }
}

pub open spec fn scan_error_text(e: ScanErrorView) -> Seq<char> {
    match e {
        ScanErrorView::WindowsUnavailable => "unable to enumerate trusted application windows"@,
        ScanErrorView::SheetsUnavailable => "unable to enumerate credential sheets"@,
        ScanErrorView::ChildrenUnavailable => "unable to enumerate credential window children"@,
        ScanErrorView::SheetIncomplete(_) => {
            "credential sheet AX tree traversal was incomplete"@
        },
        ScanErrorView::WindowIncomplete(_) => {
            "credential window AX tree traversal was incomplete"@
        },
        ScanErrorView::ScopeIncomplete(_) => {
            "credential prompt scope AX tree traversal was incomplete"@
        },
        ScanErrorView::TooManySheets => "too many direct credential sheet candidates are visible"@,
        ScanErrorView::MultipleSheets => "multiple credential sheet candidates are visible"@,
    }
}

impl ScanError {
    /// `scan_error_text`, computed.
    pub fn message(&self) -> (out: &'static str)
        ensures
            out@ == scan_error_text(self.deep_view()),
    {
        match self {
            ScanError::WindowsUnavailable => "unable to enumerate trusted application windows",
            ScanError::SheetsUnavailable => "unable to enumerate credential sheets",
            ScanError::ChildrenUnavailable => "unable to enumerate credential window children",
            ScanError::SheetIncomplete(_) => "credential sheet AX tree traversal was incomplete",
            ScanError::WindowIncomplete(_) => "credential window AX tree traversal was incomplete",
            ScanError::ScopeIncomplete(_) => {
                "credential prompt scope AX tree traversal was incomplete"
            },
            ScanError::TooManySheets => "too many direct credential sheet candidates are visible",
            ScanError::MultipleSheets => "multiple credential sheet candidates are visible",
        }
    }
}

pub fn contains_id(ids: &Vec<u64>, id: u64) -> (r: bool)
    ensures
        r == ids@.contains(id),
{
    let mut i: usize = 0;
    while i < ids.len()
        invariant
            i <= ids@.len(),
            forall|j: int| 0 <= j < i ==> #[trigger] ids@[j] != id,
        decreases ids@.len() - i,
    {
        if ids[i] == id {
            return true;
        }
        i += 1;
    }
    false
}

// ---------------------------------------------------------------------------
// Password fields
// ---------------------------------------------------------------------------

/// The password fields among the elements, each once.
pub open spec fn password_fields(nodes: Seq<NodeView>, ids: Seq<u64>) -> Seq<u64>
    decreases ids.len(),
{
    if ids.len() == 0 {
        Seq::empty()
    } else {
        let found = password_fields(nodes, ids.drop_last());
        match lookup(nodes, ids.last()) {
            Some(n) => if node_password_field(n) && !found.contains(ids.last()) {
                found.push(ids.last())
            } else {
                found
            },
            None => found,
        }
    }
}

/// `password_fields`, computed.
pub fn password_field_candidates(tree: &AxTree, ids: &Vec<u64>) -> (out: Vec<u64>)
    ensures
        out@ == password_fields(tree.deep_view(), ids@),
{
    let mut out: Vec<u64> = Vec::new();
    let mut i: usize = 0;
    assert(ids@.take(0) =~= Seq::<u64>::empty());
    while i < ids.len()
        invariant
            i <= ids@.len(),
            out@ == password_fields(tree.deep_view(), ids@.take(i as int)),
        decreases ids@.len() - i,
    {
        assert(ids@.take(i + 1).drop_last() =~= ids@.take(i as int));
        if let Some(node) = tree.find(ids[i]) {
            if node.is_secure_password_insertion_field() && !contains_id(&out, ids[i]) {
                out.push(ids[i]);
            }
        }
        i += 1;
    }
    assert(ids@.take(ids@.len() as int) =~= ids@);
    out
}

// ---------------------------------------------------------------------------
// The part of the tree that a prompt takes
// ---------------------------------------------------------------------------

/// The elements say what is expected, and one of them is the submit button.
pub open spec fn is_scope(nodes: Seq<NodeView>, ids: Seq<u64>, x: Expectation) -> bool {
    says(body_text(nodes, ids), x) && submit_button(nodes, ids, false) is Some
}

/// The first of `ancestor` and the elements above it, up to `root` and within so
/// many steps, that a credential prompt takes.
pub open spec fn scope_from(
    nodes: Seq<NodeView>,
    root: u64,
    ancestor: Option<u64>,
    x: Expectation,
    steps: int,
) -> Result<Option<u64>, CompletenessView>
    decreases steps,
{
    if steps <= 0 {
        Ok(None)
    } else {
        match ancestor {
            None => Ok(None),
            Some(current) => {
                let all = below(nodes, current);
                if all.completeness != CompletenessView::Complete {
                    Err(all.completeness)
                } else if is_scope(nodes, all.elements, x) {
                    Ok(Some(current))
                } else if current == root {
                    Ok(None)
                } else {
                    scope_from(nodes, root, parent_at(nodes, current), x, steps - 1)
                }
            },
        }
    }
}

pub open spec fn scope_of(
    nodes: Seq<NodeView>,
    root: u64,
    password_field: u64,
    x: Expectation,
) -> Result<Option<u64>, CompletenessView> {
    scope_from(nodes, root, parent_at(nodes, password_field), x, AX_SEARCH_DEPTH as int)
}

/// A scope with all that lies below it.
pub open spec fn scope_view(
    out: Result<Option<(u64, Vec<u64>)>, AxTraversalCompleteness>,
) -> Result<Option<u64>, CompletenessView> {
    match out {
        Ok(Some(found)) => Ok(Some(found.0)),
        Ok(None) => Ok(None),
        Err(c) => Err(c.deep_view()),
    }
}

/// `scope_of`, computed, with the elements below the scope.
pub fn select_credential_prompt_scope(
    tree: &AxTree,
    root: u64,
    password_field: u64,
    prompt_email: &str,
    window_title: &str,
    origin: PromptOrigin,
) -> (out: Result<Option<(u64, Vec<u64>)>, AxTraversalCompleteness>)
    ensures
        scope_view(out) == scope_of(
            tree.deep_view(),
            root,
            password_field,
            (Expectation { email: prompt_email@, title: window_title@, origin }),
        ),
        out matches Ok(Some(found)) ==> below(tree.deep_view(), found.0).elements == found.1@,
{
    let ghost x = Expectation { email: prompt_email@, title: window_title@, origin };
    let ghost nodes = tree.deep_view();
    let mut ancestor: Option<u64> = tree.parent(password_field);
    let mut steps: usize = AX_SEARCH_DEPTH;
    while steps > 0
        invariant
            nodes == tree.deep_view(),
            x == (Expectation { email: prompt_email@, title: window_title@, origin }),
            scope_of(nodes, root, password_field, x) == scope_from(
                nodes,
                root,
                ancestor,
                x,
                steps as int,
            ),
        decreases steps,
    {
        let current: u64 = match ancestor {
            Some(current) => current,
            None => {
                return Ok(None);
            },
        };
        let walked: AxTraversal = tree.collect_elements(current);
        let ids: Vec<u64> = match walked.into_complete_elements() {
            Ok(ids) => ids,
            Err(incomplete) => {
                return Err(incomplete);
            },
        };
        let text: String = collect_prompt_text(tree, &ids);
        if scoped_prompt_matches(text.as_str(), prompt_email, window_title, origin)
            && select_submit_button_candidate(tree, &ids, false).is_some() {
            return Ok(Some((current, ids)));
        }
        if current == root {
            return Ok(None);
        }
        ancestor = tree.parent(current);
        steps -= 1;
    }
    Ok(None)
}

/// Where a prompt is looked for.
pub struct ScanPlace {
    pub target: TargetView,
    pub target_window: u64,
    pub root: u64,
    pub origin: PromptOrigin,
    pub trusted_process: TrustedInfoView,
}

/// The prompt around a password field.
pub open spec fn prompt_at(
    nodes: Seq<NodeView>,
    p: ScanPlace,
    email: Seq<char>,
    field: u64,
    scope: u64,
) -> PromptView {
    let ids = below(nodes, scope).elements;
    let x = Expectation { email, title: p.target.window_title, origin: p.origin };
    PromptView {
        target: p.target,
        email: Some(email),
        password_field_description: label_of(nodes, field),
        password_field_role: role_text_of(nodes, field),
        origin: p.origin,
        trusted_process: p.trusted_process,
        target_window: p.target_window,
        native_container: p.root,
        prompt_root: scope,
        password_field: field,
        submit_button: submit_button(nodes, ids, false),
        identity_text: identity_selection(snapshots(nodes, ids), x),
    }
}

pub open spec fn label_of(nodes: Seq<NodeView>, id: u64) -> Seq<char> {
    match lookup(nodes, id) {
        Some(n) => node_label(n),
        None => Seq::empty(),
    }
}

pub open spec fn role_text_of(nodes: Seq<NodeView>, id: u64) -> Seq<char> {
    match lookup(nodes, id) {
        Some(n) => node_role_text(n),
        None => Seq::empty(),
    }
}

/// The prompt around the first of the fields that has one.
pub open spec fn first_prompt(
    nodes: Seq<NodeView>,
    p: ScanPlace,
    email: Seq<char>,
    fields: Seq<u64>,
) -> Result<Option<PromptView>, ScanErrorView>
    decreases fields.len(),
{
    if fields.len() == 0 {
        Ok(None)
    } else {
        let x = Expectation { email, title: p.target.window_title, origin: p.origin };
        match scope_of(nodes, p.root, fields.first(), x) {
            Err(c) => Err(ScanErrorView::ScopeIncomplete(c)),
            Ok(Some(scope)) => Ok(Some(prompt_at(nodes, p, email, fields.first(), scope))),
            Ok(None) => first_prompt(nodes, p, email, fields.drop_first()),
        }
    }
}

/// The credential prompt that some elements make up.
pub open spec fn prompt_in(
    nodes: Seq<NodeView>,
    p: ScanPlace,
    ids: Seq<u64>,
) -> Result<Option<PromptView>, ScanErrorView> {
    let text = body_text(nodes, ids);
    match named_email(text) {
        None => Ok(None),
        Some(email) => if !identity_verified(p.target.window_title, text, p.origin) {
            Ok(None)
        } else {
            first_prompt(nodes, p, email, password_fields(nodes, ids))
        },
    }
}

pub open spec fn scan_view(out: Result<Option<MacosPrompt>, ScanError>) -> Result<
    Option<PromptView>,
    ScanErrorView,
> {
    match out {
        Ok(Some(prompt)) => Ok(Some(prompt.deep_view())),
        Ok(None) => Ok(None),
        Err(e) => Err(e.deep_view()),
    }
}

fn label_text(tree: &AxTree, id: u64) -> (out: String)
    ensures
        out@ == label_of(tree.deep_view(), id),
{
    match tree.find(id) {
        Some(node) => node.element_label_text(),
        None => String::new(),
    }
}

fn role_text(tree: &AxTree, id: u64) -> (out: String)
    ensures
        out@ == role_text_of(tree.deep_view(), id),
{
    match tree.find(id) {
        Some(node) => node.element_role_text(),
        None => String::new(),
    }
}

/// `prompt_in`, computed.
pub fn prompt_from_elements(
    tree: &AxTree,
    target: &MacosTarget,
    target_window: u64,
    root: u64,
    elements: &Vec<u64>,
    origin: PromptOrigin,
    trusted_process: &TrustedProcessInfo,
) -> (out: Result<Option<MacosPrompt>, ScanError>)
    ensures
        scan_view(out) == prompt_in(
            tree.deep_view(),
            (ScanPlace {
                target: target.deep_view(),
                target_window,
                root,
                origin,
                trusted_process: trusted_process.deep_view(),
            }),
            elements@,
        ),
{
    let ghost nodes = tree.deep_view();
    let ghost p = ScanPlace {
        target: target.deep_view(),
        target_window,
        root,
        origin,
        trusted_process: trusted_process.deep_view(),
    };
    let text: String = collect_prompt_text(tree, elements);
    let email: String = match extract_email_like(text.as_str()) {
        Some(email) => email,
        None => {
            return Ok(None);
        },
    };
    if !prompt_identity_verified(target.window_title.as_str(), text.as_str(), origin) {
        return Ok(None);
    }
    let fields: Vec<u64> = password_field_candidates(tree, elements);
    let mut i: usize = 0;
    assert(fields@.skip(0) =~= fields@);
    while i < fields.len()
        invariant
            i <= fields@.len(),
            nodes == tree.deep_view(),
            p == (ScanPlace {
                target: target.deep_view(),
                target_window,
                root,
                origin,
                trusted_process: trusted_process.deep_view(),
            }),
            prompt_in(nodes, p, elements@) == first_prompt(nodes, p, email@, fields@.skip(i as int)),
        decreases fields@.len() - i,
    {
        let field: u64 = fields[i];
        assert(fields@.skip(i as int).first() == field);
        assert(fields@.skip(i as int).drop_first() =~= fields@.skip(i + 1));
        match select_credential_prompt_scope(
            tree,
            root,
            field,
            email.as_str(),
            target.window_title.as_str(),
            origin,
        ) {
            Err(incomplete) => {
                return Err(ScanError::ScopeIncomplete(incomplete));
            },
            Ok(Some((prompt_root, scoped))) => {
                let submit: Option<u64> = select_submit_button_candidate(tree, &scoped, false);
                let prompt: MacosPrompt = MacosPrompt {
                    target: target.duplicate(),
                    email: Some(email.clone()),
                    password_field_description: label_text(tree, field),
                    password_field_role: role_text(tree, field),
                    origin,
                    trusted_process: trusted_process.duplicate(),
                    target_window,
                    native_container: root,
                    prompt_root,
                    password_field: field,
                    submit_button: submit,
                    identity_text: prompt_text_snapshots(
                        tree,
                        &scoped,
                        email.as_str(),
                        target.window_title.as_str(),
                        origin,
                    ),
                };
                assert(prompt.deep_view() =~= prompt_at(nodes, p, email@, field, prompt_root));
                return Ok(Some(prompt));
            },
            Ok(None) => {},
        }
        i += 1;
    }
    Ok(None)
}

// ---------------------------------------------------------------------------
// What a prompt that was found is
// ---------------------------------------------------------------------------

proof fn lemma_snapshots_text(nodes: Seq<NodeView>, ids: Seq<u64>)
    ensures
        snapshots_text(snapshots(nodes, ids)) == body_text(nodes, ids),
    decreases ids.len(),
{
    if ids.len() > 0 {
        lemma_snapshots_text(nodes, ids.drop_last());
        if let Some(n) = lookup(nodes, ids.last()) {
            if node_contributes(n) {
                let taken = snapshots(nodes, ids.drop_last());
                assert(taken.push(snapshot_of(n)).drop_last() =~= taken);
            }
        }
    }
}

proof fn lemma_scope_matches(
    nodes: Seq<NodeView>,
    root: u64,
    ancestor: Option<u64>,
    x: Expectation,
    steps: int,
)
    ensures
        scope_from(nodes, root, ancestor, x, steps) matches Ok(Some(scope)) ==> is_scope(
            nodes,
            below(nodes, scope).elements,
            x,
        ),
    decreases steps,
{
    if steps > 0 {
        if let Some(current) = ancestor {
            let all = below(nodes, current);
            if all.completeness == CompletenessView::Complete && !is_scope(nodes, all.elements, x)
                && current != root {
                lemma_scope_matches(nodes, root, parent_at(nodes, current), x, steps - 1);
            }
        }
    }
}

proof fn lemma_password_fields(nodes: Seq<NodeView>, ids: Seq<u64>)
    ensures
        forall|j: int|
            0 <= j < password_fields(nodes, ids).len() ==> is_password_field(
                nodes,
                #[trigger] password_fields(nodes, ids)[j],
            ),
    decreases ids.len(),
{
    if ids.len() > 0 {
        lemma_password_fields(nodes, ids.drop_last());
        let found = password_fields(nodes, ids.drop_last());
        let all = password_fields(nodes, ids);
        assert forall|j: int| 0 <= j < all.len() implies is_password_field(
            nodes,
            #[trigger] all[j],
        ) by {
            if j < found.len() {
                assert(all[j] == found[j]);
            }
        }
    }
}

pub open spec fn is_password_field(nodes: Seq<NodeView>, id: u64) -> bool {
    lookup(nodes, id) is Some && node_password_field(lookup(nodes, id)->0)
}

/// What holds of a prompt found at a place.
pub open spec fn is_sound(nodes: Seq<NodeView>, p: ScanPlace, found: PromptView) -> bool {
    &&& found.target == p.target
    &&& found.origin == p.origin
    &&& found.trusted_process == p.trusted_process
    &&& found.target_window == p.target_window
    &&& found.native_container == p.root
    &&& found.email is Some
    &&& is_password_field(nodes, found.password_field)
    &&& found.submit_button is Some
    &&& snapshots_say(
        found.identity_text,
        Expectation { email: found.email->0, title: p.target.window_title, origin: p.origin },
    )
}

proof fn lemma_first_prompt_sound(
    nodes: Seq<NodeView>,
    p: ScanPlace,
    email: Seq<char>,
    fields: Seq<u64>,
)
    requires
        forall|j: int| 0 <= j < fields.len() ==> is_password_field(nodes, #[trigger] fields[j]),
    ensures
        first_prompt(nodes, p, email, fields) matches Ok(Some(found)) ==> is_sound(
            nodes,
            p,
            found,
        ),
    decreases fields.len(),
{
    if fields.len() > 0 {
        let x = Expectation { email, title: p.target.window_title, origin: p.origin };
        lemma_scope_matches(
            nodes,
            p.root,
            parent_at(nodes, fields.first()),
            x,
            AX_SEARCH_DEPTH as int,
        );
        match scope_of(nodes, p.root, fields.first(), x) {
            Ok(Some(scope)) => {
                let ids = below(nodes, scope).elements;
                lemma_snapshots_text(nodes, ids);
                law_identity_selection_identifies(snapshots(nodes, ids), x);
                assert(is_password_field(nodes, fields[0]));
            },
            Ok(None) => {
                assert forall|j: int| 0 <= j < fields.drop_first().len() implies is_password_field(
                    nodes,
                    #[trigger] fields.drop_first()[j],
                ) by {
                    assert(fields.drop_first()[j] == fields[j + 1]);
                }
                lemma_first_prompt_sound(nodes, p, email, fields.drop_first());
            },
            Err(_) => {},
        }
    }
}

/// A prompt that is found has a secure, enabled and visible password field, a
/// submit button, and texts that name its account and speak of credentials.
pub proof fn law_found_prompt_is_sound(nodes: Seq<NodeView>, p: ScanPlace, ids: Seq<u64>)
    ensures
        prompt_in(nodes, p, ids) matches Ok(Some(found)) ==> is_sound(nodes, p, found),
{
    let text = body_text(nodes, ids);
    if let Some(email) = named_email(text) {
        lemma_password_fields(nodes, ids);
        lemma_first_prompt_sound(nodes, p, email, password_fields(nodes, ids));
    }
}

// ---------------------------------------------------------------------------
// Sheets
// ---------------------------------------------------------------------------

pub open spec fn is_sheet(nodes: Seq<NodeView>, id: u64) -> bool {
    lookup(nodes, id) is Some && node_role_is(lookup(nodes, id)->0, "AXSheet"@)
}

/// `sheets` with each child that is a sheet and not among them yet.
pub open spec fn with_child_sheets(
    nodes: Seq<NodeView>,
    sheets: Seq<u64>,
    children: Seq<u64>,
) -> Seq<u64>
    decreases children.len(),
{
    if children.len() == 0 {
        sheets
    } else {
        let found = with_child_sheets(nodes, sheets, children.drop_last());
        if is_sheet(nodes, children.last()) && !found.contains(children.last()) {
            found.push(children.last())
        } else {
            found
        }
    }
}

/// The sheets of a window: those that it names, then its children that are sheets.
pub open spec fn sheets_of(nodes: Seq<NodeView>, window: u64) -> Result<Seq<u64>, ScanErrorView> {
    match lookup(nodes, window) {
        None => Err(ScanErrorView::SheetsUnavailable),
        Some(n) => match n.sheets {
            None => Err(ScanErrorView::SheetsUnavailable),
            Some(sheets) => match n.children {
                None => Err(ScanErrorView::ChildrenUnavailable),
                Some(children) => Ok(with_child_sheets(nodes, sheets, children)),
            },
        },
    }
}

pub open spec fn ids_result(out: Result<Vec<u64>, ScanError>) -> Result<Seq<u64>, ScanErrorView> {
    match out {
        Ok(ids) => Ok(ids@),
        Err(e) => Err(e.deep_view()),
    }
}

fn node_is_sheet(tree: &AxTree, id: u64) -> (r: bool)
    ensures
        r == is_sheet(tree.deep_view(), id),
{
    match tree.find(id) {
        Some(node) => node.role_matches("AXSheet"),
        None => false,
    }
}

/// `sheets_of`, computed.
pub fn sheet_candidates_for_window(tree: &AxTree, window: u64) -> (out: Result<
    Vec<u64>,
    ScanError,
>)
    ensures
        ids_result(out) == sheets_of(tree.deep_view(), window),
{
    let node: &AxNode = match tree.find(window) {
        Some(node) => node,
        None => {
            return Err(ScanError::SheetsUnavailable);
        },
    };
    let named: &Vec<u64> = match &node.sheets {
        Some(ids) => ids,
        None => {
            return Err(ScanError::SheetsUnavailable);
        },
    };
    let children: &Vec<u64> = match &node.children {
        Some(ids) => ids,
        None => {
            return Err(ScanError::ChildrenUnavailable);
        },
    };
    let mut sheets: Vec<u64> = Vec::new();
    let mut i: usize = 0;
    while i < named.len()
        invariant
            i <= named@.len(),
            sheets@ == named@.take(i as int),
        decreases named@.len() - i,
    {
        sheets.push(named[i]);
        assert(named@.take(i + 1) =~= named@.take(i as int).push(named@[i as int]));
        i += 1;
    }
    assert(named@.take(named@.len() as int) =~= named@);
    let mut i: usize = 0;
    assert(children@.take(0) =~= Seq::<u64>::empty());
    while i < children.len()
        invariant
            i <= children@.len(),
            sheets@ == with_child_sheets(tree.deep_view(), named@, children@.take(i as int)),
        decreases children@.len() - i,
    {
        assert(children@.take(i + 1).drop_last() =~= children@.take(i as int));
        if node_is_sheet(tree, children[i]) && !contains_id(&sheets, children[i]) {
            sheets.push(children[i]);
        }
        i += 1;
    }
    assert(children@.take(children@.len() as int) =~= children@);
    Ok(sheets)
}

/// Whether an element hangs directly under another.
pub fn element_is_direct_child_of(tree: &AxTree, element: u64, expected_parent: u64) -> (r: bool)
    ensures
        r == (parent_at(tree.deep_view(), element) == Some(expected_parent)),
{
    match tree.parent(element) {
        Some(parent) => parent == expected_parent,
        None => false,
    }
}

/// The sheets that are shown and hang directly under the window.
pub open spec fn direct_sheets(nodes: Seq<NodeView>, window: u64, sheets: Seq<u64>) -> Seq<u64>
    decreases sheets.len(),
{
    if sheets.len() == 0 {
        Seq::empty()
    } else {
        let found = direct_sheets(nodes, window, sheets.drop_last());
        if !hidden_at(nodes, sheets.last()) && parent_at(nodes, sheets.last()) == Some(window) {
            found.push(sheets.last())
        } else {
            found
        }
    }
}

pub open spec fn shown_sheets(nodes: Seq<NodeView>, window: u64) -> Result<
    Seq<u64>,
    ScanErrorView,
> {
    match sheets_of(nodes, window) {
        Ok(sheets) => Ok(direct_sheets(nodes, window, sheets)),
        Err(e) => Err(e),
    }
}

/// `shown_sheets`, computed.
pub fn visible_direct_sheets(tree: &AxTree, window: u64) -> (out: Result<Vec<u64>, ScanError>)
    ensures
        ids_result(out) == shown_sheets(tree.deep_view(), window),
{
    let sheets: Vec<u64> = match sheet_candidates_for_window(tree, window) {
        Ok(sheets) => sheets,
        Err(error) => {
            return Err(error);
        },
    };
    let mut out: Vec<u64> = Vec::new();
    let mut i: usize = 0;
    assert(sheets@.take(0) =~= Seq::<u64>::empty());
    while i < sheets.len()
        invariant
            i <= sheets@.len(),
            out@ == direct_sheets(tree.deep_view(), window, sheets@.take(i as int)),
        decreases sheets@.len() - i,
    {
        assert(sheets@.take(i + 1).drop_last() =~= sheets@.take(i as int));
        if !tree.is_hidden(sheets[i]) && element_is_direct_child_of(tree, sheets[i], window) {
            out.push(sheets[i]);
        }
        i += 1;
    }
    assert(sheets@.take(sheets@.len() as int) =~= sheets@);
    Ok(out)
}

/// What each sheet holds.
pub open spec fn sheet_prompts(
    nodes: Seq<NodeView>,
    target: TargetView,
    window: u64,
    sheets: Seq<u64>,
    trusted_process: TrustedInfoView,
) -> Result<Seq<Option<PromptView>>, ScanErrorView>
    decreases sheets.len(),
{
    if sheets.len() == 0 {
        Ok(Seq::empty())
    } else {
        match sheet_prompts(nodes, target, window, sheets.drop_last(), trusted_process) {
            Err(e) => Err(e),
            Ok(found) => {
                let all = below(nodes, sheets.last());
                if all.completeness != CompletenessView::Complete {
                    Err(ScanErrorView::SheetIncomplete(all.completeness))
                } else {
                    let p = ScanPlace {
                        target: TargetView { frontmost: true, ..target },
                        target_window: window,
                        root: sheets.last(),
                        origin: PromptOrigin::Sheet,
                        trusted_process,
                    };
                    match prompt_in(nodes, p, all.elements) {
                        Err(e) => Err(e),
                        Ok(prompt) => Ok(found.push(prompt)),
                    }
                }
            },
        }
    }
}

pub open spec fn some_states(found: Seq<Option<PromptView>>) -> Seq<bool> {
    found.map_values(|p: Option<PromptView>| p is Some)
}

/// The prompt of the one sheet that holds one.
pub open spec fn sole_sheet_prompt(
    nodes: Seq<NodeView>,
    target: TargetView,
    window: u64,
    sheets: Seq<u64>,
    trusted_process: TrustedInfoView,
) -> Result<Option<PromptView>, ScanErrorView> {
    if sheets.len() > MAX_DIRECT_SHEET_COUNT {
        Err(ScanErrorView::TooManySheets)
    } else {
        match sheet_prompts(nodes, target, window, sheets, trusted_process) {
            Err(e) => Err(e),
            Ok(found) => match unique_true(some_states(found)) {
                UniqueTrueIndex::Nowhere => Ok(None),
                UniqueTrueIndex::One(index) => Ok(found[index as int]),
                UniqueTrueIndex::Multiple => Err(ScanErrorView::MultipleSheets),
            },
        }
    }
}

proof fn lemma_sheet_error_stays(
    nodes: Seq<NodeView>,
    target: TargetView,
    window: u64,
    sheets: Seq<u64>,
    trusted_process: TrustedInfoView,
    n: int,
)
    requires
        0 <= n <= sheets.len(),
        sheet_prompts(nodes, target, window, sheets.take(n), trusted_process) is Err,
    ensures
        sheet_prompts(nodes, target, window, sheets, trusted_process) == sheet_prompts(
            nodes,
            target,
            window,
            sheets.take(n),
            trusted_process,
        ),
    decreases sheets.len(),
{
    if n == sheets.len() {
        assert(sheets.take(n) =~= sheets);
    } else {
        assert(sheets.drop_last().take(n) =~= sheets.take(n));
        lemma_sheet_error_stays(nodes, target, window, sheets.drop_last(), trusted_process, n);
    }
}

/// A prompt on a sheet is aimed at the window in front of which the sheet stands.
pub proof fn law_sheet_prompt_is_sound(
    nodes: Seq<NodeView>,
    target: TargetView,
    window: u64,
    sheets: Seq<u64>,
    trusted_process: TrustedInfoView,
)
    ensures
        sole_sheet_prompt(nodes, target, window, sheets, trusted_process) matches Ok(
            Some(found),
        ) ==> sheets.contains(found.native_container) && is_sound(
            nodes,
            (ScanPlace {
                target: TargetView { frontmost: true, ..target },
                target_window: window,
                root: found.native_container,
                origin: PromptOrigin::Sheet,
                trusted_process,
            }),
            found,
        ),
{
    lemma_sheet_prompts(nodes, target, window, sheets, trusted_process);
    if let Ok(found) = sheet_prompts(nodes, target, window, sheets, trusted_process) {
        if sheets.len() <= MAX_DIRECT_SHEET_COUNT {
            if let UniqueTrueIndex::One(index) = unique_true(some_states(found)) {
                crate::selection::law_unique_true(some_states(found), index);
                if let Some(prompt) = found[index as int] {
                    let p = ScanPlace {
                        target: TargetView { frontmost: true, ..target },
                        target_window: window,
                        root: sheets[index as int],
                        origin: PromptOrigin::Sheet,
                        trusted_process,
                    };
                    law_found_prompt_is_sound(
                        nodes,
                        p,
                        below(nodes, sheets[index as int]).elements,
                    );
                }
            }
        }
    }
}

proof fn lemma_sheet_prompts(
    nodes: Seq<NodeView>,
    target: TargetView,
    window: u64,
    sheets: Seq<u64>,
    trusted_process: TrustedInfoView,
)
    ensures
        sheet_prompts(nodes, target, window, sheets, trusted_process) matches Ok(found) ==> {
            &&& found.len() == sheets.len()
            &&& forall|j: int|
                0 <= j < found.len() ==> Ok::<Option<PromptView>, ScanErrorView>(
                    #[trigger] found[j],
                ) == prompt_in(
                    nodes,
                    (ScanPlace {
                        target: TargetView { frontmost: true, ..target },
                        target_window: window,
                        root: sheets[j],
                        origin: PromptOrigin::Sheet,
                        trusted_process,
                    }),
                    below(nodes, sheets[j]).elements,
                )
        },
    decreases sheets.len(),
{
    if sheets.len() > 0 {
        lemma_sheet_prompts(nodes, target, window, sheets.drop_last(), trusted_process);
    }
}

pub open spec fn prompts_of(found: Seq<Option<MacosPrompt>>) -> Seq<Option<PromptView>> {
    found.map_values(|p: Option<MacosPrompt>| p.deep_view())
}

/// `sole_sheet_prompt`, computed.
pub fn unique_direct_sheet_prompt(
    tree: &AxTree,
    target: &MacosTarget,
    target_window: u64,
    sheets: &Vec<u64>,
    trusted_process: &TrustedProcessInfo,
) -> (out: Result<Option<MacosPrompt>, ScanError>)
    ensures
        scan_view(out) == sole_sheet_prompt(
            tree.deep_view(),
            target.deep_view(),
            target_window,
            sheets@,
            trusted_process.deep_view(),
        ),
{
    if sheets.len() > MAX_DIRECT_SHEET_COUNT {
        return Err(ScanError::TooManySheets);
    }
    let ghost nodes = tree.deep_view();
    let ghost t = target.deep_view();
    let ghost trusted = trusted_process.deep_view();
    let mut found: Vec<Option<MacosPrompt>> = Vec::new();
    let mut states: Vec<bool> = Vec::new();
    let mut i: usize = 0;
    assert(sheets@.take(0) =~= Seq::<u64>::empty());
    assert(prompts_of(found@) =~= Seq::<Option<PromptView>>::empty());
    assert(some_states(prompts_of(found@)) =~= states@);
    while i < sheets.len()
        invariant
            i <= sheets@.len(),
            sheets@.len() <= MAX_DIRECT_SHEET_COUNT,
            nodes == tree.deep_view(),
            t == target.deep_view(),
            trusted == trusted_process.deep_view(),
            found@.len() == i,
            sheet_prompts(nodes, t, target_window, sheets@.take(i as int), trusted) == Ok::<
                Seq<Option<PromptView>>,
                ScanErrorView,
            >(prompts_of(found@)),
            states@ == some_states(prompts_of(found@)),
        decreases sheets@.len() - i,
    {
        let sheet: u64 = sheets[i];
        assert(sheets@.take(i + 1).drop_last() =~= sheets@.take(i as int));
        assert(sheets@.take(i + 1).last() == sheet);
        let ids: Vec<u64> = match tree.collect_elements(sheet).into_complete_elements() {
            Ok(ids) => ids,
            Err(incomplete) => {
                proof {
                    lemma_sheet_error_stays(nodes, t, target_window, sheets@, trusted, i + 1);
                }
                return Err(ScanError::SheetIncomplete(incomplete));
            },
        };
        let sheet_target: MacosTarget = MacosTarget {
            process_id: target.process_id,
            window_title: target.window_title.clone(),
            frontmost: true,
        };
        assert(sheet_target.deep_view() =~= TargetView { frontmost: true, ..t });
        match prompt_from_elements(
            tree,
            &sheet_target,
            target_window,
            sheet,
            &ids,
            PromptOrigin::Sheet,
            trusted_process,
        ) {
            Ok(prompt) => {
                let ghost before = found@;
                let ghost added = prompt;
                states.push(prompt.is_some());
                found.push(prompt);
                assert(prompts_of(found@) =~= prompts_of(before).push(added.deep_view()));
                assert(states@ =~= some_states(prompts_of(found@)));
            },
            Err(error) => {
                proof {
                    lemma_sheet_error_stays(nodes, t, target_window, sheets@, trusted, i + 1);
                }
                return Err(error);
            },
        }
        i += 1;
    }
    assert(sheets@.take(sheets@.len() as int) =~= sheets@);
    match unique_true_index(&states) {
        UniqueTrueIndex::Nowhere => Ok(None),
        UniqueTrueIndex::One(index) => {
            proof {
                crate::selection::law_unique_true(states@, index);
            }
            assert(prompts_of(found@)[index as int] == found@[index as int].deep_view());
            let prompt: Option<MacosPrompt> = match &found[index] {
                Some(prompt) => Some(prompt.duplicate()),
                None => None,
            };
            Ok(prompt)
        },
        UniqueTrueIndex::Multiple => Err(ScanError::MultipleSheets),
    }
}

// ---------------------------------------------------------------------------
// Windows
// ---------------------------------------------------------------------------

/// The title of an element; an element without one has an empty title.
pub open spec fn title_of(n: NodeView) -> Seq<char> {
    match attr_text(n.title) {
        Some(title) => title,
        None => Seq::empty(),
    }
}

pub open spec fn title_at(nodes: Seq<NodeView>, id: u64) -> Seq<char> {
    match lookup(nodes, id) {
        Some(n) => title_of(n),
        None => Seq::empty(),
    }
}

/// `title_at`, computed.
pub fn element_title(tree: &AxTree, id: u64) -> (out: String)
    ensures
        out@ == title_at(tree.deep_view(), id),
{
    match tree.find(id) {
        Some(node) => match crate::ax_tree::text_attr(&node.title) {
            Some(title) => title,
            None => String::new(),
        },
        None => String::new(),
    }
}

/// An optional text, borrowed.
pub fn text_ref(value: &Option<String>) -> (out: Option<&str>)
    ensures
        out.deep_view() == value.deep_view(),
{
    match value {
        Some(text) => Some(text.as_str()),
        None => None,
    }
}

/// Whether a window itself may be a credential prompt.
pub open spec fn scannable(nodes: Seq<NodeView>, window: u64, title: Seq<char>) -> bool {
    match lookup(nodes, window) {
        Some(n) => credential_window(n.role, n.subrole, title),
        None => false,
    }
}

/// `scannable`, computed.
pub fn window_should_scan_for_prompt(tree: &AxTree, window: u64, window_title: &str) -> (r: bool)
    ensures
        r == scannable(tree.deep_view(), window, window_title@),
{
    match tree.find(window) {
        Some(node) => native_credential_window_identity(
            text_ref(&node.role),
            text_ref(&node.subrole),
            window_title,
        ),
        None => false,
    }
}

} // verus!
