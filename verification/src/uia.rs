//! The Windows UI Automation adapter without its native calls.
//!
//! Window handles, process ids and automation elements stay outside. What
//! they said comes in as plain values; callers see redacted observations, and
//! only candidates that were made from the latest of them can be acted on.
use vstd::prelude::*;
use vstd::string::*;

use crate::ids;
use crate::ids::fresh_simple;
use crate::locate;
use crate::locate::{
    replay, select, target_query, Profiled, ProfileModel, Query, QueryModel, Replay, Want,
    WantModel,
};
use crate::model;
use crate::model::{copy_all, copy_opt, same_all, same_opt, Plain};
use crate::semantics;
use crate::semantics::{
    descending, expected_effects, kind_of, predicate, redact, risk_of, tokens_of,
};
use crate::text;
use crate::text::{
    contains_text, chars_of, hex, join, lowercase, owned, same_text, span, strip_prefix,
};
use crate::types::{
    ActionCandidate, ActionReceipt, AppIdentity, AppModel, AutomationError, CandidateKind,
    CandidateModel, ContextModel, ErrorKind, KindModel, LocatorModel, NativeAction, NodeModel,
    Observation, ObservationModel, ObservationScope, PlatformCapabilities, PlatformCapability,
    ReceiptModel, RiskClass, ScopeModel, SemanticContext, SemanticLocator, UiNode, UiRole,
    WindowIdentity, WindowModel,
};

verus! {

/// How many controls one observation holds at most.
pub const DEFAULT_MAX_ELEMENTS: usize = 200;

/// A control with everything that is known of it locally.
#[derive(Debug, Clone, PartialEq, Eq)]
pub struct NodeMetadata {
    pub opaque_id: String,
    pub role: UiRole,
    pub name: Option<String>,
    pub automation_id: Option<String>,
    pub enabled: bool,
    pub visible: bool,
    pub focused: bool,
    pub secure: bool,
    pub value_fingerprint: Option<u64>,
    pub toggled: Option<bool>,
    pub selected: Option<bool>,
    pub expanded: Option<bool>,
    pub ancestor_chain: Vec<SemanticContext>,
    pub supported_actions: Vec<NativeAction>,
}

/// The content of a [`NodeMetadata`].
#[verifier::ext_equal]
pub struct MetadataModel {
    pub opaque_id: Seq<char>,
    pub role: UiRole,
    pub name: Option<Seq<char>>,
    pub automation_id: Option<Seq<char>>,
    pub enabled: bool,
    pub visible: bool,
    pub focused: bool,
    pub secure: bool,
    pub value_fingerprint: Option<u64>,
    pub toggled: Option<bool>,
    pub selected: Option<bool>,
    pub expanded: Option<bool>,
    pub ancestor_chain: Seq<ContextModel>,
    pub supported_actions: Seq<NativeAction>,
}

impl View for NodeMetadata {
    type V = MetadataModel;

    open spec fn view(&self) -> MetadataModel {
        MetadataModel {
            opaque_id: self.opaque_id@,
            role: self.role,
            name: model::opt_view(self.name),
            automation_id: model::opt_view(self.automation_id),
            enabled: self.enabled,
            visible: self.visible,
            focused: self.focused,
            secure: self.secure,
            value_fingerprint: self.value_fingerprint,
            toggled: self.toggled,
            selected: self.selected,
            expanded: self.expanded,
            ancestor_chain: model::seq_view(self.ancestor_chain@),
            supported_actions: model::seq_view(self.supported_actions@),
        }
    }
}

impl Plain for NodeMetadata {
    fn copied(&self) -> (r: Self) {
        NodeMetadata {
            opaque_id: self.opaque_id.clone(),
            role: self.role,
            name: copy_opt(&self.name),
            automation_id: copy_opt(&self.automation_id),
            enabled: self.enabled,
            visible: self.visible,
            focused: self.focused,
            secure: self.secure,
            value_fingerprint: self.value_fingerprint,
            toggled: self.toggled,
            selected: self.selected,
            expanded: self.expanded,
            ancestor_chain: copy_all(&self.ancestor_chain),
            supported_actions: copy_all(&self.supported_actions),
        }
    }

    fn same(&self, other: &Self) -> (r: bool) {
        same_text(self.opaque_id.as_str(), other.opaque_id.as_str())
            && self.role == other.role
            && same_opt(&self.name, &other.name)
            && same_opt(&self.automation_id, &other.automation_id)
            && self.enabled == other.enabled
            && self.visible == other.visible
            && self.focused == other.focused
            && self.secure == other.secure
            && self.value_fingerprint == other.value_fingerprint
            && self.toggled == other.toggled
            && self.selected == other.selected
            && self.expanded == other.expanded
            && same_all(&self.ancestor_chain, &other.ancestor_chain)
            && same_all(&self.supported_actions, &other.supported_actions)
    }
}

/// What a candidate is bound to.
#[derive(Debug, Clone, PartialEq, Eq)]
pub struct InternalLocator {
    pub app_id: String,
    pub window_id: String,
    pub window_title: String,
    pub target_opaque_id: String,
    pub role: UiRole,
    pub automation_id: Option<String>,
    pub accessible_name: Option<String>,
    pub action: NativeAction,
    pub risk: RiskClass,
    pub ancestor_chain: Vec<SemanticContext>,
    pub scope: ObservationScope,
    pub scope_root: Option<NodeMetadata>,
}

/// The content of an [`InternalLocator`].
#[verifier::ext_equal]
pub struct BoundModel {
    pub app_id: Seq<char>,
    pub window_id: Seq<char>,
    pub window_title: Seq<char>,
    pub target_opaque_id: Seq<char>,
    pub role: UiRole,
    pub automation_id: Option<Seq<char>>,
    pub accessible_name: Option<Seq<char>>,
    pub action: NativeAction,
    pub risk: RiskClass,
    pub ancestor_chain: Seq<ContextModel>,
    pub scope: ScopeModel,
    pub scope_root: Option<MetadataModel>,
}

impl View for InternalLocator {
    type V = BoundModel;

    open spec fn view(&self) -> BoundModel {
        BoundModel {
            app_id: self.app_id@,
            window_id: self.window_id@,
            window_title: self.window_title@,
            target_opaque_id: self.target_opaque_id@,
            role: self.role,
            automation_id: model::opt_view(self.automation_id),
            accessible_name: model::opt_view(self.accessible_name),
            action: self.action,
            risk: self.risk,
            ancestor_chain: model::seq_view(self.ancestor_chain@),
            scope: self.scope@,
            scope_root: model::opt_view(self.scope_root),
        }
    }
}

impl Plain for InternalLocator {
    fn copied(&self) -> (r: Self) {
        InternalLocator {
            app_id: self.app_id.clone(),
            window_id: self.window_id.clone(),
            window_title: self.window_title.clone(),
            target_opaque_id: self.target_opaque_id.clone(),
            role: self.role,
            automation_id: copy_opt(&self.automation_id),
            accessible_name: copy_opt(&self.accessible_name),
            action: self.action,
            risk: self.risk,
            ancestor_chain: copy_all(&self.ancestor_chain),
            scope: self.scope.copied(),
            scope_root: copy_opt(&self.scope_root),
        }
    }

    fn same(&self, other: &Self) -> (r: bool) {
        same_text(self.app_id.as_str(), other.app_id.as_str())
            && same_text(self.window_id.as_str(), other.window_id.as_str())
            && same_text(self.window_title.as_str(), other.window_title.as_str())
            && same_text(self.target_opaque_id.as_str(), other.target_opaque_id.as_str())
            && self.role == other.role
            && same_opt(&self.automation_id, &other.automation_id)
            && same_opt(&self.accessible_name, &other.accessible_name)
            && self.action == other.action
            && self.risk == other.risk
            && same_all(&self.ancestor_chain, &other.ancestor_chain)
            && self.scope.same(&other.scope)
            && same_opt(&self.scope_root, &other.scope_root)
    }
}

/// A candidate id and what it is bound to.
#[derive(Debug, Clone, PartialEq, Eq)]
pub struct Binding {
    pub id: String,
    pub locator: InternalLocator,
}

/// The content of a [`Binding`].
#[verifier::ext_equal]
pub struct BindingModel {
    pub id: Seq<char>,
    pub locator: BoundModel,
}

impl View for Binding {
    type V = BindingModel;

    open spec fn view(&self) -> BindingModel {
        BindingModel {
            id: self.id@,
            locator: self.locator@,
        }
    }
}

impl Plain for Binding {
    fn copied(&self) -> (r: Self) {
        Binding {
            id: self.id.clone(),
            locator: self.locator.copied(),
        }
    }

    fn same(&self, other: &Self) -> (r: bool) {
        same_text(self.id.as_str(), other.id.as_str())
            && self.locator.same(&other.locator)
    }
}

/// A native reading of the desktop as plain values.
#[derive(Debug, Clone, PartialEq, Eq)]
pub struct Snapshot {
    pub app: AppIdentity,
    pub window: WindowIdentity,
    pub nodes: Vec<NodeMetadata>,
    pub fingerprint: String,
    pub truncated: bool,
    pub stable_window_id: String,
    pub scope: ObservationScope,
    pub scope_root: Option<NodeMetadata>,
}

/// The content of a [`Snapshot`].
#[verifier::ext_equal]
pub struct SnapshotModel {
    pub app: AppModel,
    pub window: WindowModel,
    pub nodes: Seq<MetadataModel>,
    pub fingerprint: Seq<char>,
    pub truncated: bool,
    pub stable_window_id: Seq<char>,
    pub scope: ScopeModel,
    pub scope_root: Option<MetadataModel>,
}

impl View for Snapshot {
    type V = SnapshotModel;

    open spec fn view(&self) -> SnapshotModel {
        SnapshotModel {
            app: self.app@,
            window: self.window@,
            nodes: model::seq_view(self.nodes@),
            fingerprint: self.fingerprint@,
            truncated: self.truncated,
            stable_window_id: self.stable_window_id@,
            scope: self.scope@,
            scope_root: model::opt_view(self.scope_root),
        }
    }
}

/// What the adapter remembers of the latest observation.
#[derive(Debug, Clone, PartialEq, Eq)]
pub struct AdapterState {
    pub last_fingerprint: Option<String>,
    pub revision: u64,
    pub metadata: Vec<NodeMetadata>,
    pub locators: Vec<Binding>,
    pub stable_window_id: Option<String>,
    pub scope: ObservationScope,
    pub scope_root: Option<NodeMetadata>,
}

/// The content of an [`AdapterState`].
#[verifier::ext_equal]
pub struct StateModel {
    pub last_fingerprint: Option<Seq<char>>,
    pub revision: u64,
    pub metadata: Seq<MetadataModel>,
    pub locators: Seq<BindingModel>,
    pub stable_window_id: Option<Seq<char>>,
    pub scope: ScopeModel,
    pub scope_root: Option<MetadataModel>,
}

impl View for AdapterState {
    type V = StateModel;

    open spec fn view(&self) -> StateModel {
        StateModel {
            last_fingerprint: model::opt_view(self.last_fingerprint),
            revision: self.revision,
            metadata: model::seq_view(self.metadata@),
            locators: model::seq_view(self.locators@),
            stable_window_id: model::opt_view(self.stable_window_id),
            scope: self.scope@,
            scope_root: model::opt_view(self.scope_root),
        }
    }
}

impl Profiled for NodeMetadata {
    open spec fn profile(&self) -> ProfileModel {
        profile_of(self@)
    }

    fn role(&self) -> (r: UiRole) {
        self.role
    }

    fn identifier(&self) -> (r: &Option<String>) {
        &self.automation_id
    }

    fn name(&self) -> (r: &Option<String>) {
        &self.name
    }

    fn ancestors(&self) -> (r: &Vec<SemanticContext>) {
        &self.ancestor_chain
    }

    fn actions(&self) -> (r: &Vec<NativeAction>) {
        assert(model::seq_view(self.supported_actions@) =~= self.supported_actions@);
        &self.supported_actions
    }
}

/// What a control is known by.
pub open spec fn profile_of(m: MetadataModel) -> ProfileModel {
    ProfileModel {
        role: m.role,
        identifier: m.automation_id,
        name: m.name,
        ancestors: m.ancestor_chain,
        actions: m.supported_actions,
    }
}

/// What each control of a list is known by.
pub open spec fn profiles_of(s: Seq<MetadataModel>) -> Seq<ProfileModel> {
    Seq::new(s.len(), |i: int| profile_of(s[i]))
}

/// What stands before the last occurrence of a character.
pub open spec fn before_last(s: Seq<char>, c: char) -> Option<Seq<char>>
    decreases s.len(),
{
    if s.len() == 0 {
        None
    } else if s.last() == c {
        Some(s.drop_last())
    } else {
        before_last(s.drop_last(), c)
    }
}

/// The key that a control keeps when its list is reordered: its runtime id
/// without the position.
pub open spec fn semantic_key(id: Seq<char>) -> Option<Seq<char>> {
    if text::begins(id, "uie:"@) {
        match before_last(id.skip("uie:"@.len() as int), ':') {
            Some(key) => Some("uia:"@ + key),
            None => None,
        }
    } else {
        None
    }
}

/// A control as it is shown: no value, and no name where it is secure.
pub open spec fn public_model(m: MetadataModel) -> NodeModel {
    NodeModel {
        opaque_id: m.opaque_id,
        semantic_key: semantic_key(m.opaque_id),
        role: m.role,
        name: if m.secure {
            None
        } else {
            m.name
        },
        short_value: None,
        enabled: m.enabled,
        visible: m.visible,
        focused: m.focused,
        secure: m.secure,
        toggled: m.toggled,
        selected: m.selected,
        expanded: m.expanded,
        value_fingerprint: match m.value_fingerprint {
            Some(v) => Some("value:"@ + text::hex_text(v as nat, 16)),
            None => None,
        },
        supported_actions: m.supported_actions,
    }
}

/// Finds what stands before the last occurrence of a character.
fn head_before_last(s: &str, c: char) -> (r: Option<String>)
    ensures
        model::opt_view(r) == before_last(s@, c),
{
    let x = chars_of(s);
    let mut n: usize = x.len();
    assert(s@.take(s@.len() as int) == s@);
    while n > 0
        invariant
            x@ == s@,
            n <= x@.len(),
            before_last(s@, c) == before_last(s@.take(n as int), c),
        decreases n,
    {
        assert(s@.take(n as int).drop_last() == s@.take(n - 1));
        assert(s@.take(n as int).last() == x@[n - 1]);
        if x[n - 1] == c {
            let r = span(&x, 0, n - 1);
            assert(r@ == s@.take(n - 1));
            return Some(r);
        }
        n = n - 1;
    }
    None
}

impl NodeMetadata {
    /// The control as it is shown.
    pub fn public_node(&self) -> (r: UiNode)
        ensures
            r@ == public_model(self@),
    {
        let semantic_key = match strip_prefix(self.opaque_id.as_str(), "uie:") {
            Some(rest) => match head_before_last(rest.as_str(), ':') {
                Some(key) => {
                    let mut s = owned("uia:");
                    s.append(key.as_str());
                    Some(s)
                },
                None => None,
            },
            None => None,
        };
        let value_fingerprint = match self.value_fingerprint {
            Some(v) => {
                let mut s = owned("value:");
                s.append(hex(v, 16).as_str());
                Some(s)
            },
            None => None,
        };
        UiNode {
            opaque_id: self.opaque_id.clone(),
            semantic_key,
            role: self.role,
            name: if self.secure {
                None
            } else {
                copy_opt(&self.name)
            },
            short_value: None,
            enabled: self.enabled,
            visible: self.visible,
            focused: self.focused,
            secure: self.secure,
            toggled: self.toggled,
            selected: self.selected,
            expanded: self.expanded,
            value_fingerprint,
            supported_actions: copy_all(&self.supported_actions),
        }
    }
}

/// A secure control shows neither its name nor a value.
pub proof fn secure_control_shows_no_text(m: MetadataModel)
    requires
        m.secure,
    ensures
        public_model(m).name is None,
        public_model(m).short_value is None,
{
}

/// The position of the control with an id.
pub open spec fn place_of(s: Seq<MetadataModel>, id: Seq<char>) -> Option<int>
    decreases s.len(),
{
    if s.len() == 0 {
        None
    } else if s.last().opaque_id == id {
        Some(s.len() - 1)
    } else {
        place_of(s.drop_last(), id)
    }
}

/// The control with an id.
pub open spec fn node_of(s: Seq<MetadataModel>, id: Seq<char>) -> Option<MetadataModel> {
    match place_of(s, id) {
        Some(i) => Some(s[i]),
        None => None,
    }
}

/// A list of controls with one more; one with the same id makes room for it.
pub open spec fn put(s: Seq<MetadataModel>, m: MetadataModel) -> Seq<MetadataModel> {
    match place_of(s, m.opaque_id) {
        Some(i) => s.update(i, m),
        None => s.push(m),
    }
}

/// The controls of a reading, each id once, the latest with an id kept.
pub open spec fn indexed(nodes: Seq<MetadataModel>) -> Seq<MetadataModel>
    decreases nodes.len(),
{
    if nodes.len() == 0 {
        Seq::empty()
    } else {
        put(indexed(nodes.drop_last()), nodes.last())
    }
}

/// A place is in range and holds the id; without a place no control has it.
pub proof fn place_is_right(s: Seq<MetadataModel>, id: Seq<char>)
    ensures
        match place_of(s, id) {
            Some(i) => 0 <= i < s.len() && s[i].opaque_id == id,
            None => forall|k: int| 0 <= k < s.len() ==> (#[trigger] s[k]).opaque_id != id,
        },
    decreases s.len(),
{
    if s.len() > 0 {
        place_is_right(s.drop_last(), id);
        if place_of(s, id) is None {
            assert forall|k: int| 0 <= k < s.len() implies (#[trigger] s[k]).opaque_id != id by {
                if k < s.len() - 1 {
                    assert(s.drop_last()[k] == s[k]);
                }
            }
        }
    }
}

/// No two controls of an index share an id.
pub proof fn index_has_no_duplicate(nodes: Seq<MetadataModel>)
    ensures
        forall|i: int, j: int|
            0 <= i < j < indexed(nodes).len() ==> (#[trigger] indexed(nodes)[i]).opaque_id != (
            #[trigger] indexed(nodes)[j]).opaque_id,
    decreases nodes.len(),
{
    if nodes.len() > 0 {
        index_has_no_duplicate(nodes.drop_last());
        place_is_right(indexed(nodes.drop_last()), nodes.last().opaque_id);
    }
}

/// Finds the position of the control with an id.
fn find_node(nodes: &Vec<NodeMetadata>, id: &str) -> (r: Option<usize>)
    ensures
        match r {
            Some(i) => i < nodes@.len() && place_of(model::seq_view(nodes@), id@) == Some(i as int),
            None => place_of(model::seq_view(nodes@), id@) is None,
        },
{
    let ghost s = model::seq_view(nodes@);
    let mut n: usize = nodes.len();
    assert(s.take(s.len() as int) == s);
    while n > 0
        invariant
            s == model::seq_view(nodes@),
            n <= nodes@.len(),
            place_of(s, id@) == place_of(s.take(n as int), id@),
        decreases n,
    {
        assert(s.take(n as int).drop_last() == s.take(n - 1));
        assert(s.take(n as int).last() == nodes@[n - 1]@);
        if same_text(nodes[n - 1].opaque_id.as_str(), id) {
            return Some(n - 1);
        }
        n = n - 1;
    }
    None
}

/// Adds a control to an index.
fn put_node(nodes: &mut Vec<NodeMetadata>, node: NodeMetadata)
    ensures
        model::seq_view(final(nodes)@) == put(model::seq_view(old(nodes)@), node@),
{
    let ghost before = nodes@;
    match find_node(nodes, node.opaque_id.as_str()) {
        Some(i) => {
            nodes.set(i, node);
            assert(model::seq_view(nodes@) == model::seq_view(before).update(i as int, node@));
        },
        None => {
            nodes.push(node);
            assert(model::seq_view(nodes@) == model::seq_view(before).push(node@));
        },
    }
}

/// The controls of a reading, each id once.
fn index_nodes(nodes: &Vec<NodeMetadata>) -> (r: Vec<NodeMetadata>)
    ensures
        model::seq_view(r@) == indexed(model::seq_view(nodes@)),
{
    let ghost s = model::seq_view(nodes@);
    let mut out: Vec<NodeMetadata> = Vec::new();
    assert(model::seq_view(out@) == indexed(s.take(0)));
    let mut i: usize = 0;
    while i < nodes.len()
        invariant
            i <= nodes@.len(),
            s == model::seq_view(nodes@),
            model::seq_view(out@) == indexed(s.take(i as int)),
        decreases nodes@.len() - i,
    {
        proof {
            assert(s.take(i + 1).drop_last() == s.take(i as int));
            assert(s.take(i + 1).last() == nodes@[i as int]@);
        }
        put_node(&mut out, nodes[i].copied());
        i = i + 1;
    }
    assert(s.take(s.len() as int) == s);
    out
}

/// The region that a scope asks for: none for the whole window or the menu,
/// otherwise a control of the latest observation or its own root.
pub open spec fn subtree_model(st: StateModel, scope: ScopeModel) -> Result<
    Option<MetadataModel>,
    (ErrorKind, Seq<char>),
> {
    match scope.subtree_id {
        None => Ok(None),
        Some(id) => if id == "@window"@ || id == "@menu"@ {
            Ok(None)
        } else {
            match node_of(st.metadata, id) {
                Some(m) => Ok(Some(m)),
                None => match st.scope_root {
                    Some(root) if root.opaque_id == id => Ok(Some(root)),
                    _ => Err(
                        (ErrorKind::Observation, "Unknown subtree_id; use an observed node id"@),
                    ),
                },
            }
        },
    }
}

/// Why a reading lies outside the scope that was asked for, if it does.
pub open spec fn scope_fault(scope: ScopeModel, s: SnapshotModel) -> Option<
    (ErrorKind, Seq<char>),
> {
    if scope.app_id is Some && scope.app_id != Some(s.app.id) {
        Some(
            (ErrorKind::Observation, "foreground application is outside the requested scope"@),
        )
    } else if scope.window_id is Some && scope.window_id != Some(s.window.id) && scope.window_id
        != Some(s.stable_window_id) {
        Some((ErrorKind::Observation, "foreground window is outside the requested scope"@))
    } else {
        None
    }
}

/// What a reading is numbered: one more than the last where the desktop
/// changed, never nought.
pub open spec fn next_revision(st: StateModel, fingerprint: Seq<char>) -> u64 {
    if st.last_fingerprint == Some(fingerprint) {
        st.revision
    } else if st.revision == u64::MAX {
        u64::MAX
    } else {
        (st.revision + 1) as u64
    }
}

/// The state after a reading was taken in.
pub open spec fn accepted_state(st: StateModel, s: SnapshotModel) -> StateModel {
    StateModel {
        last_fingerprint: Some(s.fingerprint),
        revision: next_revision(st, s.fingerprint),
        metadata: indexed(s.nodes),
        locators: st.locators,
        stable_window_id: Some(s.stable_window_id),
        scope: s.scope,
        scope_root: s.scope_root,
    }
}

/// The observation that a reading is shown as.
pub open spec fn shown_observation(
    st: StateModel,
    s: SnapshotModel,
    now_ms: u64,
) -> ObservationModel {
    ObservationModel {
        revision: next_revision(st, s.fingerprint),
        fingerprint: s.fingerprint,
        app: s.app,
        window: s.window,
        nodes: Seq::new(s.nodes.len(), |i: int| public_model(s.nodes[i])),
        captured_at_ms: now_ms,
        truncated: s.truncated,
    }
}

/// The adapter: a bound on observations and what it remembers.
pub struct WindowsUiaAdapter {
    pub max_elements: usize,
    pub state: AdapterState,
}

/// The state of an adapter that has observed nothing yet.
pub open spec fn blank_state() -> StateModel {
    StateModel {
        last_fingerprint: None,
        revision: 0,
        metadata: Seq::empty(),
        locators: Seq::empty(),
        stable_window_id: None,
        scope: ScopeModel { app_id: None, window_id: None, subtree_id: None },
        scope_root: None,
    }
}

impl Default for WindowsUiaAdapter {
    /// An adapter with the largest bound.
    fn default() -> (r: Self)
        ensures
            r.max_elements == DEFAULT_MAX_ELEMENTS,
            r.state@ == blank_state(),
    {
        WindowsUiaAdapter::new(DEFAULT_MAX_ELEMENTS)
    }
}

impl WindowsUiaAdapter {
    /// An adapter whose bound is brought into the range from one to the
    /// largest.
    pub fn new(max_elements: usize) -> (r: Self)
        ensures
            r.max_elements == if max_elements < 1 {
                1
            } else if max_elements > DEFAULT_MAX_ELEMENTS {
                DEFAULT_MAX_ELEMENTS
            } else {
                max_elements
            },
            r.state@ == blank_state(),
    {
        let state = AdapterState {
            last_fingerprint: None,
            revision: 0,
            metadata: Vec::new(),
            locators: Vec::new(),
            stable_window_id: None,
            scope: ObservationScope { app_id: None, window_id: None, subtree_id: None },
            scope_root: None,
        };
        proof {
            assert(model::seq_view(state.metadata@) =~= Seq::<MetadataModel>::empty());
            assert(model::seq_view(state.locators@) =~= Seq::<BindingModel>::empty());
        }
        WindowsUiaAdapter {
            max_elements: if max_elements < 1 {
                1
            } else if max_elements > DEFAULT_MAX_ELEMENTS {
                DEFAULT_MAX_ELEMENTS
            } else {
                max_elements
            },
            state,
        }
    }

    /// What the adapter can do.
    pub fn capabilities(&self) -> (r: PlatformCapabilities)
        ensures
            r.supported@ == seq![
                PlatformCapability::ReadSemanticTree,
                PlatformCapability::NativeAction,
                PlatformCapability::WriteValue,
            ],
            r.accessibility_permission,
    {
        PlatformCapabilities {
            supported: vec![
                PlatformCapability::ReadSemanticTree,
                PlatformCapability::NativeAction,
                PlatformCapability::WriteValue,
            ],
            accessibility_permission: true,
        }
    }

    /// The region that a scope asks for.
    pub fn subtree_root(&self, scope: &ObservationScope) -> (r: Result<
        Option<NodeMetadata>,
        AutomationError,
    >)
        ensures
            match r {
                Ok(o) => subtree_model(self.state@, scope@) == Ok::<
                    Option<MetadataModel>,
                    (ErrorKind, Seq<char>),
                >(model::opt_view(o)),
                Err(e) => subtree_model(self.state@, scope@) == Err::<
                    Option<MetadataModel>,
                    (ErrorKind, Seq<char>),
                >(e@),
            },
    {
        match &scope.subtree_id {
            None => Ok(None),
            Some(id) => {
                if same_text(id.as_str(), "@window") || same_text(id.as_str(), "@menu") {
                    return Ok(None);
                }
                match find_node(&self.state.metadata, id.as_str()) {
                    Some(i) => Ok(Some(self.state.metadata[i].copied())),
                    None => {
                        match &self.state.scope_root {
                            Some(root) => {
                                if same_text(root.opaque_id.as_str(), id.as_str()) {
                                    return Ok(Some(root.copied()));
                                }
                            },
                            None => {},
                        }
                        Err(
                            AutomationError::observation(
                                "Unknown subtree_id; use an observed node id",
                            ),
                        )
                    },
                }
            },
        }
    }

    /// Takes a reading in: it is refused where it lies outside the scope,
    /// otherwise remembered, numbered and shown.
    pub fn capture_observation(
        &mut self,
        scope: &ObservationScope,
        snapshot: Snapshot,
        now_ms: u64,
    ) -> (r: Result<Observation, AutomationError>)
        ensures
            final(self).max_elements == old(self).max_elements,
            match r {
                Ok(o) => {
                    &&& scope_fault(scope@, snapshot@) is None
                    &&& o@ == shown_observation(old(self).state@, snapshot@, now_ms)
                    &&& final(self).state@ == accepted_state(old(self).state@, snapshot@)
                },
                Err(e) => {
                    &&& scope_fault(scope@, snapshot@) == Some(e@)
                    &&& final(self).state@ == old(self).state@
                },
            },
    {
        match validate_scope(scope, &snapshot) {
            Err(e) => Err(e),
            Ok(_) => Ok(self.observation_from_snapshot(snapshot, now_ms)),
        }
    }

    /// Remembers a reading and shows it.
    fn observation_from_snapshot(&mut self, snapshot: Snapshot, now_ms: u64) -> (r: Observation)
        ensures
            final(self).max_elements == old(self).max_elements,
            r@ == shown_observation(old(self).state@, snapshot@, now_ms),
            final(self).state@ == accepted_state(old(self).state@, snapshot@),
    {
        let same = match &self.state.last_fingerprint {
            Some(f) => same_text(f.as_str(), snapshot.fingerprint.as_str()),
            None => false,
        };
        if !same {
            if self.state.revision < u64::MAX {
                self.state.revision = self.state.revision + 1;
            }
            self.state.last_fingerprint = Some(snapshot.fingerprint.clone());
        }
        self.state.stable_window_id = Some(snapshot.stable_window_id);
        self.state.scope = snapshot.scope;
        self.state.scope_root = snapshot.scope_root;
        self.state.metadata = index_nodes(&snapshot.nodes);
        let nodes = public_nodes(&snapshot.nodes);
        Observation {
            revision: self.state.revision,
            fingerprint: snapshot.fingerprint,
            app: snapshot.app,
            window: snapshot.window,
            nodes,
            captured_at_ms: now_ms,
            truncated: snapshot.truncated,
        }
    }
}

/// The controls as they are shown.
pub fn public_nodes(nodes: &Vec<NodeMetadata>) -> (r: Vec<UiNode>)
    ensures
        model::seq_view(r@) == Seq::new(nodes@.len(), |i: int| public_model(nodes@[i]@)),
{
    let mut out: Vec<UiNode> = Vec::new();
    let mut i: usize = 0;
    while i < nodes.len()
        invariant
            i <= nodes@.len(),
            out@.len() == i,
            forall|k: int| 0 <= k < i ==> (#[trigger] out@[k])@ == public_model(nodes@[k]@),
        decreases nodes@.len() - i,
    {
        out.push(nodes[i].public_node());
        i = i + 1;
    }
    assert(model::seq_view(out@) =~= Seq::new(
        nodes@.len(),
        |i: int| public_model(nodes@[i]@),
    ));
    out
}

/// Checks that a reading lies in the scope that was asked for.
pub fn validate_scope(scope: &ObservationScope, snapshot: &Snapshot) -> (r: Result<
    (),
    AutomationError,
>)
    ensures
        match r {
            Ok(_) => scope_fault(scope@, snapshot@) is None,
            Err(e) => scope_fault(scope@, snapshot@) == Some(e@),
        },
{
    match &scope.app_id {
        Some(id) => {
            if !same_text(id.as_str(), snapshot.app.id.as_str()) {
                return Err(
                    AutomationError::observation(
                        "foreground application is outside the requested scope",
                    ),
                );
            }
        },
        None => {},
    }
    match &scope.window_id {
        Some(id) => {
            if !same_text(id.as_str(), snapshot.window.id.as_str()) && !same_text(
                id.as_str(),
                snapshot.stable_window_id.as_str(),
            ) {
                return Err(
                    AutomationError::observation("foreground window is outside the requested scope"),
                );
            }
        },
        None => {},
    }
    Ok(())
}

/// A reading with an unchanged fingerprint keeps its number; a changed one
/// gets a higher one while there is one.
pub proof fn revision_follows_fingerprint(st: StateModel, fingerprint: Seq<char>)
    ensures
        st.last_fingerprint == Some(fingerprint) ==> next_revision(st, fingerprint) == st.revision,
        st.last_fingerprint != Some(fingerprint) && st.revision < u64::MAX ==> next_revision(
            st,
            fingerprint,
        ) == st.revision + 1,
        next_revision(st, fingerprint) >= st.revision,
{
}

/// Words of actions that cannot be undone or that reach money, accounts or
/// permissions.
pub open spec fn critical_words() -> Seq<Seq<char>> {
    seq![
        "permanently delete"@,
        "永久删除"@,
        "delete account"@,
        "remove account"@,
        "close account"@,
        "注销账户"@,
        "注销账号"@,
        "删除账户"@,
        "删除账号"@,
        "delete all data"@,
        "erase all data"@,
        "wipe all data"@,
        "清除所有数据"@,
        "删除所有数据"@,
        "factory reset"@,
        "restore factory settings"@,
        "恢复出厂设置"@,
        "format drive"@,
        "format disk"@,
        "格式化磁盘"@,
        "格式化驱动器"@,
        "purchase"@,
        "confirm purchase"@,
        "place order"@,
        "confirm order"@,
        "支付"@,
        "确认支付"@,
        "立即付款"@,
        "提交订单"@,
        "buy now"@,
        "transfer funds"@,
        "wire transfer"@,
        "confirm transfer"@,
        "转账"@,
        "确认转账"@,
        "grant permission"@,
        "allow access"@,
        "授予权限"@,
        "允许访问"@,
        "security settings"@,
        "安全设置"@,
    ]
}

/// The critical words as literals.
fn critical_literals() -> (r: Vec<&'static str>)
    ensures
        semantics::literals(r@) == critical_words(),
{
    let words: Vec<&'static str> = vec![
        "permanently delete",
        "永久删除",
        "delete account",
        "remove account",
        "close account",
        "注销账户",
        "注销账号",
        "删除账户",
        "删除账号",
        "delete all data",
        "erase all data",
        "wipe all data",
        "清除所有数据",
        "删除所有数据",
        "factory reset",
        "restore factory settings",
        "恢复出厂设置",
        "format drive",
        "format disk",
        "格式化磁盘",
        "格式化驱动器",
        "purchase",
        "confirm purchase",
        "place order",
        "confirm order",
        "支付",
        "确认支付",
        "立即付款",
        "提交订单",
        "buy now",
        "transfer funds",
        "wire transfer",
        "confirm transfer",
        "转账",
        "确认转账",
        "grant permission",
        "allow access",
        "授予权限",
        "允许访问",
        "security settings",
        "安全设置",
    ];
    assert(semantics::literals(words@) =~= critical_words());
    words
}

/// How far an action on a control reaches.
pub fn classify_risk(action: NativeAction, name: &Option<String>) -> (r: RiskClass)
    ensures
        r == semantics::risk_model(action, model::opt_view(*name), critical_words()),
{
    let words = critical_literals();
    risk_of(action, name, &words)
}

/// An action and its control as they are shown.
pub open spec fn action_text(action: NativeAction, n: NodeModel) -> Seq<char> {
    action.label() + " "@ + n.role.label() + " '"@ + (match n.name {
        Some(s) => semantics::redacted(s),
        None => "unnamed control"@,
    }) + "'"@
}

/// The words that an ancestor is shown by: its name, else its identifier.
pub open spec fn context_word(c: ContextModel) -> Option<Seq<char>> {
    match c.accessible_name {
        Some(s) => Some(semantics::redacted(s)),
        None => match c.automation_id {
            Some(s) => Some(semantics::redacted(s)),
            None => None,
        },
    }
}

/// The words of ancestors that have any, in their order.
pub open spec fn context_words(chain: Seq<ContextModel>) -> Seq<Seq<char>>
    decreases chain.len(),
{
    if chain.len() == 0 {
        Seq::empty()
    } else {
        let before = context_words(chain.drop_last());
        match context_word(chain.last()) {
            Some(s) => before.push(s),
            None => before,
        }
    }
}

/// The last three of a list.
pub open spec fn last_three(chain: Seq<ContextModel>) -> Seq<ContextModel> {
    if chain.len() > 3 {
        chain.skip(chain.len() - 3)
    } else {
        chain
    }
}

/// An action, its control and where the control stands, as they are shown.
pub open spec fn action_in_context(
    action: NativeAction,
    n: NodeModel,
    chain: Seq<ContextModel>,
) -> Seq<char> {
    let words = context_words(last_three(chain));
    if words.len() == 0 {
        action_text(action, n)
    } else {
        action_text(action, n) + " in "@ + text::joined(words, " > "@)
    }
}

/// An action and its control as they are shown.
pub fn describe_action(action: NativeAction, node: &UiNode) -> (r: String)
    ensures
        r@ == action_text(action, node@),
{
    let name = match &node.name {
        Some(s) => redact(s.as_str()),
        None => owned("unnamed control"),
    };
    let mut s = owned(action.name());
    s.append(" ");
    s.append(node.role.name());
    s.append(" '");
    s.append(name.as_str());
    s.append("'");
    s
}

/// An action, its control and where the control stands, as they are shown.
pub fn describe_action_with_context(
    action: NativeAction,
    node: &UiNode,
    ancestors: &Vec<SemanticContext>,
) -> (r: String)
    ensures
        r@ == action_in_context(action, node@, model::seq_view(ancestors@)),
{
    let ghost chain = model::seq_view(ancestors@);
    let n: usize = ancestors.len();
    let first: usize = if n > 3 {
        n - 3
    } else {
        0
    };
    let ghost shown = last_three(chain);
    let mut words: Vec<String> = Vec::new();
    let mut i: usize = first;
    assert(model::seq_view(words@) =~= context_words(shown.take(0)));
    while i < n
        invariant
            first <= i <= n,
            n == ancestors@.len(),
            chain == model::seq_view(ancestors@),
            shown == last_three(chain),
            first == chain.len() - shown.len(),
            model::seq_view(words@) == context_words(shown.take(i - first)),
        decreases n - i,
    {
        proof {
            let now = shown.take(i - first + 1);
            assert(now.drop_last() == shown.take(i - first));
            assert(now.last() == ancestors@[i as int]@);
        }
        let c = &ancestors[i];
        let word = match &c.accessible_name {
            Some(s) => Some(redact(s.as_str())),
            None => match &c.automation_id {
                Some(s) => Some(redact(s.as_str())),
                None => None,
            },
        };
        match word {
            Some(w) => {
                let ghost before = words@;
                words.push(w);
                assert(model::seq_view(words@) == model::seq_view(before).push(w@));
            },
            None => {},
        }
        i = i + 1;
    }
    assert(shown.take(shown.len() as int) == shown);
    assert(model::seq_view(words@).len() == words@.len());
    let mut s = describe_action(action, node);
    if words.len() > 0 {
        s.append(" in ");
        s.append(join(&words, " > ").as_str());
    }
    s
}

/// How many of some tokens stand in a name.
pub open spec fn token_hits(tokens: Seq<Seq<char>>, name: Seq<char>) -> nat
    decreases tokens.len(),
{
    if tokens.len() == 0 {
        0
    } else {
        token_hits(tokens.drop_last(), name) + if text::has_part(name, tokens.last()) {
            1nat
        } else {
            0nat
        }
    }
}

/// How much an action counts by itself.
pub open spec fn action_weight(action: NativeAction) -> int {
    match action {
        NativeAction::Invoke | NativeAction::SetValue => 18,
        NativeAction::Toggle | NativeAction::Select => 14,
        NativeAction::Expand | NativeAction::Collapse => 10,
        NativeAction::Focus => 2,
        NativeAction::Scroll => 0,
    }
}

/// How well an action on a control fits a goal: the control has a name, the
/// goal holds it whole, tokens of the goal stand in it, it has the focus, and
/// the action's own weight.
pub open spec fn relevance(goal: Seq<char>, n: NodeModel, action: NativeAction) -> int {
    let lower = text::lowercased(goal);
    let name = text::lowercased(
        match n.name {
            Some(s) => s,
            None => Seq::empty(),
        },
    );
    (if name.len() == 0 {
        0
    } else {
        20 + (if text::has_part(lower, name) {
            120int
        } else {
            0
        }) + 35 * token_hits(semantics::tokens(lower), name)
    }) + (if n.focused {
        30int
    } else {
        0
    }) + action_weight(action)
}

/// A score within the range of its type.
pub open spec fn capped(n: int) -> i32 {
    if n > i32::MAX {
        i32::MAX
    } else {
        n as i32
    }
}

/// Counts the tokens that stand in a name.
pub(crate) fn count_tokens(tokens: &Vec<String>, name: &str) -> (r: u64)
    ensures
        r == token_hits(model::seq_view(tokens@), name@),
{
    let ghost s = model::seq_view(tokens@);
    let mut count: u64 = 0;
    let mut i: usize = 0;
    while i < tokens.len()
        invariant
            i <= tokens@.len(),
            s == model::seq_view(tokens@),
            count == token_hits(s.take(i as int), name@),
            count <= i,
        decreases tokens@.len() - i,
    {
        proof {
            assert(s.take(i + 1).drop_last() == s.take(i as int));
            assert(s.take(i + 1).last() == tokens@[i as int]@);
        }
        if contains_text(name, tokens[i].as_str()) {
            count = count + 1;
        }
        i = i + 1;
    }
    assert(s.take(s.len() as int) == s);
    count
}

/// How well an action on a control fits a goal.
pub fn candidate_relevance(goal: &str, node: &UiNode, action: NativeAction) -> (r: i32)
    ensures
        r == capped(relevance(goal@, node@, action)),
{
    let lower = lowercase(goal);
    let name = match &node.name {
        Some(s) => lowercase(s.as_str()),
        None => lowercase(String::new().as_str()),
    };
    let mut score: u128 = 0;
    if !name.as_str().is_empty() {
        score = 20;
        if contains_text(lower.as_str(), name.as_str()) {
            score = score + 120;
        }
        let tokens = tokens_of(lower.as_str());
        let count: u64 = count_tokens(&tokens, name.as_str());
        score = score + 35 * (count as u128);
    }
    if node.focused {
        score = score + 30;
    }
    let weight: u128 = match action {
        NativeAction::Invoke | NativeAction::SetValue => 18,
        NativeAction::Toggle | NativeAction::Select => 14,
        NativeAction::Expand | NativeAction::Collapse => 10,
        NativeAction::Focus => 2,
        NativeAction::Scroll => 0,
    };
    score = score + weight;
    if score > 2147483647 {
        i32::MAX
    } else {
        score as i32
    }
}

/// The question that a bound control is found again by.
pub open spec fn bound_query(b: BoundModel) -> QueryModel {
    QueryModel {
        role: Some(b.role),
        identifier: WantModel::Exactly(b.automation_id),
        name: WantModel::Exactly(b.accessible_name),
        ancestors: Some(b.ancestor_chain),
        action: Some(b.action),
    }
}

/// The question that a bound control is found again by.
fn query_of(locator: &InternalLocator) -> (r: Query)
    ensures
        r@ == bound_query(locator@),
{
    Query {
        role: Some(locator.role),
        identifier: Want::Exactly(copy_opt(&locator.automation_id)),
        name: Want::Exactly(copy_opt(&locator.accessible_name)),
        ancestors: Some(copy_all(&locator.ancestor_chain)),
        action: Some(locator.action),
    }
}

/// What an action on an observed control is bound to.
pub open spec fn bound_model(
    st: StateModel,
    o: ObservationModel,
    id: Seq<char>,
    m: MetadataModel,
    action: NativeAction,
) -> BoundModel {
    BoundModel {
        app_id: o.app.id,
        window_id: o.window.id,
        window_title: o.window.title,
        target_opaque_id: id,
        role: m.role,
        automation_id: m.automation_id,
        accessible_name: m.name,
        action,
        risk: semantics::risk_model(action, m.name, critical_words()),
        ancestor_chain: m.ancestor_chain,
        scope: st.scope,
        scope_root: st.scope_root,
    }
}

/// What an action on a shown control can be bound to: nothing where it could
/// not be found again uniquely.
pub open spec fn locator_model(
    st: StateModel,
    o: ObservationModel,
    id: Seq<char>,
    action: NativeAction,
) -> Result<Option<BoundModel>, (ErrorKind, Seq<char>)> {
    match node_of(st.metadata, id) {
        None => Err(
            (ErrorKind::Candidates, "observation metadata is no longer available"@),
        ),
        Some(m) => {
            let b = bound_model(st, o, id, m, action);
            if locate::hits(profiles_of(st.metadata), bound_query(b)).len() == 1 {
                Ok(Some(b))
            } else {
                Ok(None)
            }
        },
    }
}

/// The shown form of an action under an id.
pub open spec fn candidate_model(
    o: ObservationModel,
    n: NodeModel,
    action: NativeAction,
    chain: Seq<ContextModel>,
    risk: RiskClass,
    id: Seq<char>,
) -> CandidateModel {
    CandidateModel {
        id,
        observation_revision: o.revision,
        target: Some(n.opaque_id),
        kind: semantics::kind_model(action)->Some_0,
        public_description: action_in_context(action, n, chain),
        local_risk: risk,
        preconditions: seq![
            semantics::target_predicate("semantic_element_exists"@, n.opaque_id),
        ],
        expected_effects: semantics::effects_model(action, n.opaque_id),
    }
}

/// Makes the shown form of an action.
fn make_candidate(
    observation: &Observation,
    node: &UiNode,
    action: NativeAction,
    ancestors: &Vec<SemanticContext>,
    risk: RiskClass,
    id: String,
) -> (r: ActionCandidate)
    requires
        action != NativeAction::Scroll,
    ensures
        r@ == candidate_model(
            observation@,
            node@,
            action,
            model::seq_view(ancestors@),
            risk,
            id@,
        ),
{
    let exists = predicate("semantic_element_exists", node.opaque_id.as_str());
    let preconditions = vec![exists];
    assert(model::seq_view(preconditions@) =~= seq![exists@]);
    let kind = match kind_of(action) {
        Some(k) => k,
        None => CandidateKind::CannotProceed,
    };
    ActionCandidate {
        id,
        observation_revision: observation.revision,
        target: Some(node.opaque_id.clone()),
        kind,
        public_description: describe_action_with_context(action, node, ancestors),
        local_risk: risk,
        preconditions,
        expected_effects: expected_effects(action, node.opaque_id.as_str()),
    }
}

/// The actions of the controls that can be acted on, in their order.
pub open spec fn action_pairs(nodes: Seq<NodeModel>) -> Seq<(NodeModel, NativeAction)>
    decreases nodes.len(),
{
    if nodes.len() == 0 {
        Seq::empty()
    } else {
        let n = nodes.last();
        let before = action_pairs(nodes.drop_last());
        if n.enabled && n.visible {
            before + Seq::new(n.supported_actions.len(), |i: int| (n, n.supported_actions[i]))
        } else {
            before
        }
    }
}

/// An action that is offered: how well it fits, on which control, and what it
/// is bound to.
pub struct Offer {
    pub score: i32,
    pub node: UiNode,
    pub locator: InternalLocator,
}

/// The content of an [`Offer`].
#[verifier::ext_equal]
pub struct OfferModel {
    pub score: i32,
    pub node: NodeModel,
    pub locator: BoundModel,
}

impl View for Offer {
    type V = OfferModel;

    open spec fn view(&self) -> OfferModel {
        OfferModel { score: self.score, node: self.node@, locator: self.locator@ }
    }
}

/// The offers for some actions, in their order.
pub open spec fn offers_model(
    st: StateModel,
    o: ObservationModel,
    goal: Seq<char>,
    pairs: Seq<(NodeModel, NativeAction)>,
) -> Result<Seq<OfferModel>, (ErrorKind, Seq<char>)>
    decreases pairs.len(),
{
    if pairs.len() == 0 {
        Ok(Seq::empty())
    } else {
        match offers_model(st, o, goal, pairs.drop_last()) {
            Err(e) => Err(e),
            Ok(before) => {
                let (n, action) = pairs.last();
                match locator_model(st, o, n.opaque_id, action) {
                    Err(e) => Err(e),
                    Ok(None) => Ok(before),
                    Ok(Some(b)) => Ok(
                        before.push(
                            OfferModel {
                                score: capped(relevance(goal, n, action)),
                                node: n,
                                locator: b,
                            },
                        ),
                    ),
                }
            },
        }
    }
}

/// An error among the first actions is the error of all.
proof fn error_persists(
    st: StateModel,
    o: ObservationModel,
    goal: Seq<char>,
    pairs: Seq<(NodeModel, NativeAction)>,
    n: int,
)
    requires
        0 <= n <= pairs.len(),
        offers_model(st, o, goal, pairs.take(n)) is Err,
    ensures
        offers_model(st, o, goal, pairs) == offers_model(st, o, goal, pairs.take(n)),
    decreases pairs.len(),
{
    if n == pairs.len() {
        assert(pairs.take(n) == pairs);
    } else {
        assert(pairs.drop_last().take(n) == pairs.take(n));
        error_persists(st, o, goal, pairs.drop_last(), n);
    }
}

/// The actions of more controls begin with those of fewer.
proof fn pairs_extend(nodes: Seq<NodeModel>, n: int)
    requires
        0 <= n <= nodes.len(),
    ensures
        action_pairs(nodes.take(n)).is_prefix_of(action_pairs(nodes)),
    decreases nodes.len(),
{
    if n == nodes.len() {
        assert(nodes.take(n) == nodes);
    } else {
        assert(nodes.drop_last().take(n) == nodes.take(n));
        pairs_extend(nodes.drop_last(), n);
    }
}

/// Whether the shown controls offer nothing but actions that can be chosen.
pub open spec fn choosable(o: ObservationModel) -> bool {
    forall|i: int|
        0 <= i < o.nodes.len() ==> !(#[trigger] o.nodes[i]).supported_actions.contains(
            NativeAction::Scroll,
        )
}

/// The candidate of an offer.
pub open spec fn offered_candidate(o: ObservationModel, f: OfferModel, part: Seq<char>) -> CandidateModel {
    candidate_model(
        o,
        f.node,
        f.locator.action,
        f.locator.ancestor_chain,
        semantics::risk_model(f.locator.action, f.node.name, critical_words()),
        "uia:"@ + part,
    )
}

/// A candidate that steers the run.
pub open spec fn control_candidate(
    o: ObservationModel,
    id: Seq<char>,
    kind: KindModel,
    description: Seq<char>,
) -> CandidateModel {
    CandidateModel {
        id,
        observation_revision: o.revision,
        target: None,
        kind,
        public_description: description,
        local_risk: RiskClass::ReadOnly,
        preconditions: Seq::empty(),
        expected_effects: Seq::empty(),
    }
}

/// The candidates of an observation: the offers from the best fit down, then
/// completion, a question to the user, and giving up.
pub open spec fn issued(
    o: ObservationModel,
    offers: Seq<OfferModel>,
    order: Seq<usize>,
    parts: Seq<Seq<char>>,
) -> Seq<CandidateModel> {
    let n = offers.len() as int;
    Seq::new(
        offers.len(),
        |i: int| offered_candidate(o, offers[order[i] as int], parts[i]),
    ).push(
        control_candidate(
            o,
            "uia:done:"@ + parts[n],
            KindModel::Done,
            "The bounded goal is complete"@,
        ),
    ).push(
        control_candidate(
            o,
            "uia:ask-user:"@ + parts[n + 1],
            KindModel::AskUser,
            "Ask the user for information needed to continue"@,
        ),
    ).push(
        control_candidate(
            o,
            "uia:cannot-proceed:"@ + parts[n + 2],
            KindModel::CannotProceed,
            "No offered semantic action can advance the goal"@,
        ),
    )
}

/// The scores of offers.
pub open spec fn scores_of(offers: Seq<OfferModel>) -> Seq<i32> {
    Seq::new(offers.len(), |i: int| offers[i].score)
}

/// The position of the binding of a candidate id.
pub open spec fn binding_place(s: Seq<BindingModel>, id: Seq<char>) -> Option<int>
    decreases s.len(),
{
    if s.len() == 0 {
        None
    } else if s.last().id == id {
        Some(s.len() - 1)
    } else {
        binding_place(s.drop_last(), id)
    }
}

/// What a candidate id is bound to.
pub open spec fn bound_to(s: Seq<BindingModel>, id: Seq<char>) -> Option<BoundModel> {
    match binding_place(s, id) {
        Some(i) => Some(s[i].locator),
        None => None,
    }
}

/// The bindings with one more; one of the same id makes room for it.
pub open spec fn bind(s: Seq<BindingModel>, id: Seq<char>, b: BoundModel) -> Seq<BindingModel> {
    match binding_place(s, id) {
        Some(i) => s.update(i, BindingModel { id, locator: b }),
        None => s.push(BindingModel { id, locator: b }),
    }
}

/// The bindings of the first `n` issued offers.
pub open spec fn issued_bindings(
    offers: Seq<OfferModel>,
    order: Seq<usize>,
    parts: Seq<Seq<char>>,
    n: int,
) -> Seq<BindingModel>
    decreases n,
{
    if n <= 0 {
        Seq::empty()
    } else {
        bind(
            issued_bindings(offers, order, parts, n - 1),
            "uia:"@ + parts[n - 1],
            offers[order[n - 1] as int].locator,
        )
    }
}

/// Finds the binding of a candidate id.
fn find_binding(bindings: &Vec<Binding>, id: &str) -> (r: Option<usize>)
    ensures
        match r {
            Some(i) => i < bindings@.len() && binding_place(model::seq_view(bindings@), id@)
                == Some(i as int),
            None => binding_place(model::seq_view(bindings@), id@) is None,
        },
{
    let ghost s = model::seq_view(bindings@);
    let mut n: usize = bindings.len();
    assert(s.take(s.len() as int) == s);
    while n > 0
        invariant
            s == model::seq_view(bindings@),
            n <= bindings@.len(),
            binding_place(s, id@) == binding_place(s.take(n as int), id@),
        decreases n,
    {
        assert(s.take(n as int).drop_last() == s.take(n - 1));
        assert(s.take(n as int).last() == bindings@[n - 1]@);
        if same_text(bindings[n - 1].id.as_str(), id) {
            return Some(n - 1);
        }
        n = n - 1;
    }
    None
}

/// Adds a binding.
fn add_binding(bindings: &mut Vec<Binding>, id: String, locator: InternalLocator)
    ensures
        model::seq_view(final(bindings)@) == bind(
            model::seq_view(old(bindings)@),
            id@,
            locator@,
        ),
{
    let ghost before = bindings@;
    let place = find_binding(bindings, id.as_str());
    let entry = Binding { id, locator };
    match place {
        Some(i) => {
            bindings.set(i, entry);
            assert(model::seq_view(bindings@) == model::seq_view(before).update(i as int, entry@));
        },
        None => {
            bindings.push(entry);
            assert(model::seq_view(bindings@) == model::seq_view(before).push(entry@));
        },
    }
}

/// Makes a candidate that steers the run.
pub(crate) fn make_control(
    observation: &Observation,
    prefix: &str,
    part: &str,
    kind: CandidateKind,
    description: &str,
) -> (r: ActionCandidate)
    ensures
        r@ == control_candidate(observation@, prefix@ + part@, kind@, description@),
{
    let mut id = owned(prefix);
    id.append(part);
    let r = ActionCandidate {
        id,
        observation_revision: observation.revision,
        target: None,
        kind,
        public_description: owned(description),
        local_risk: RiskClass::ReadOnly,
        preconditions: Vec::new(),
        expected_effects: Vec::new(),
    };
    assert(r@.preconditions =~= Seq::empty());
    assert(r@.expected_effects =~= Seq::empty());
    r
}

impl WindowsUiaAdapter {
    /// What an action on a shown control can be bound to.
    pub fn locator_for(
        &self,
        observation: &Observation,
        node: &UiNode,
        action: NativeAction,
    ) -> (r: Result<Option<InternalLocator>, AutomationError>)
        ensures
            match r {
                Ok(o) => locator_model(self.state@, observation@, node@.opaque_id, action) == Ok::<
                    Option<BoundModel>,
                    (ErrorKind, Seq<char>),
                >(model::opt_view(o)),
                Err(e) => locator_model(self.state@, observation@, node@.opaque_id, action) == Err::<
                    Option<BoundModel>,
                    (ErrorKind, Seq<char>),
                >(e@),
            },
    {
        match find_node(&self.state.metadata, node.opaque_id.as_str()) {
            None => Err(
                AutomationError::candidates("observation metadata is no longer available"),
            ),
            Some(i) => {
                let locator = self.bound_locator(observation, node.opaque_id.as_str(), i, action);
                let q = query_of(&locator);
                let found = select(&self.state.metadata, &q);
                assert(locate::profiles(self.state.metadata@) =~= profiles_of(
                    self.state@.metadata,
                ));
                if found.len() == 1 {
                    Ok(Some(locator))
                } else {
                    Ok(None)
                }
            },
        }
    }

    /// Binds an action to a remembered control.
    fn bound_locator(
        &self,
        observation: &Observation,
        id: &str,
        place: usize,
        action: NativeAction,
    ) -> (r: InternalLocator)
        requires
            place < self.state.metadata@.len(),
        ensures
            r@ == bound_model(
                self.state@,
                observation@,
                id@,
                self.state@.metadata[place as int],
                action,
            ),
    {
        let m = &self.state.metadata[place];
        InternalLocator {
            app_id: observation.app.id.clone(),
            window_id: observation.window.id.clone(),
            window_title: observation.window.title.clone(),
            target_opaque_id: owned(id),
            role: m.role,
            automation_id: copy_opt(&m.automation_id),
            accessible_name: copy_opt(&m.name),
            action,
            risk: classify_risk(action, &m.name),
            ancestor_chain: copy_all(&m.ancestor_chain),
            scope: self.state.scope.copied(),
            scope_root: copy_opt(&self.state.scope_root),
        }
    }

    /// The actions that can be offered for an observation, in their order.
    pub fn offers(&self, goal: &str, observation: &Observation) -> (r: Result<
        Vec<Offer>,
        AutomationError,
    >)
        ensures
            match r {
                Ok(v) => offers_model(
                    self.state@,
                    observation@,
                    goal@,
                    action_pairs(observation@.nodes),
                ) == Ok::<Seq<OfferModel>, (ErrorKind, Seq<char>)>(model::seq_view(v@)),
                Err(e) => offers_model(
                    self.state@,
                    observation@,
                    goal@,
                    action_pairs(observation@.nodes),
                ) == Err::<Seq<OfferModel>, (ErrorKind, Seq<char>)>(e@),
            },
    {
        let ghost st = self.state@;
        let ghost o = observation@;
        let ghost nodes = o.nodes;
        let mut out: Vec<Offer> = Vec::new();
        let mut i: usize = 0;
        proof {
            assert(action_pairs(nodes.take(0)) =~= Seq::empty());
            assert(model::seq_view(out@) =~= Seq::<OfferModel>::empty());
        }
        while i < observation.nodes.len()
            invariant
                i <= observation.nodes@.len(),
                st == self.state@,
                o == observation@,
                nodes == o.nodes,
                offers_model(st, o, goal@, action_pairs(nodes.take(i as int))) == Ok::<
                    Seq<OfferModel>,
                    (ErrorKind, Seq<char>),
                >(model::seq_view(out@)),
            decreases observation.nodes@.len() - i,
        {
            let node = &observation.nodes[i];
            let ghost before = action_pairs(nodes.take(i as int));
            let ghost now = action_pairs(nodes.take(i + 1));
            proof {
                assert(nodes.take(i + 1).drop_last() == nodes.take(i as int));
                assert(nodes.take(i + 1).last() == node@);
                pairs_extend(nodes, i + 1);
            }
            if node.enabled && node.visible {
                let ghost actions = node@.supported_actions;
                assert(actions =~= node.supported_actions@);
                let mut k: usize = 0;
                assert(now.take(before.len() as int) =~= before);
                while k < node.supported_actions.len()
                    invariant
                        k <= node.supported_actions@.len(),
                        actions == node.supported_actions@,
                        st == self.state@,
                        o == observation@,
                        now == before + Seq::new(
                            actions.len(),
                            |j: int| (node@, actions[j]),
                        ),
                        now.is_prefix_of(action_pairs(o.nodes)),
                        offers_model(st, o, goal@, now.take(before.len() + k)) == Ok::<
                            Seq<OfferModel>,
                            (ErrorKind, Seq<char>),
                        >(model::seq_view(out@)),
                    decreases node.supported_actions@.len() - k,
                {
                    let action = node.supported_actions[k];
                    let ghost part = now.take(before.len() + k + 1);
                    proof {
                        assert(part.drop_last() == now.take(before.len() + k));
                        assert(part.last() == (node@, action));
                    }
                    match self.locator_for(observation, node, action) {
                        Err(e) => {
                            proof {
                                let all = action_pairs(o.nodes);
                                assert(all.take(part.len() as int) =~= part);
                                error_persists(st, o, goal@, all, part.len() as int);
                            }
                            return Err(e);
                        },
                        Ok(None) => {},
                        Ok(Some(locator)) => {
                            let offer = Offer {
                                score: candidate_relevance(goal, node, action),
                                node: node.copied(),
                                locator,
                            };
                            let ghost earlier = out@;
                            out.push(offer);
                            assert(model::seq_view(out@) == model::seq_view(earlier).push(offer@));
                        },
                    }
                    k = k + 1;
                }
                assert(now.take((before.len() + actions.len()) as int) =~= now);
            }
            i = i + 1;
        }
        assert(nodes.take(nodes.len() as int) == nodes);
        Ok(out)
    }

    /// Issues offers as candidates under ids made of the given parts and
    /// remembers what each is bound to.
    #[verifier::rlimit(40)]
    pub fn issue(
        &mut self,
        observation: &Observation,
        offers: &Vec<Offer>,
        parts: &Vec<String>,
    ) -> (r: Vec<ActionCandidate>)
        requires
            parts@.len() == offers@.len() + 3,
            forall|i: int|
                0 <= i < offers@.len() ==> (#[trigger] offers@[i]).locator.action
                    != NativeAction::Scroll,
        ensures
            final(self).max_elements == old(self).max_elements,
            exists|order: Seq<usize>|
                {
                    &&& #[trigger] semantics::is_ranking(
                        scores_of(model::seq_view(offers@)),
                        order,
                    )
                    &&& model::seq_view(r@) == issued(
                        observation@,
                        model::seq_view(offers@),
                        order,
                        model::seq_view(parts@),
                    )
                    &&& final(self).state@ == (StateModel {
                        locators: issued_bindings(
                            model::seq_view(offers@),
                            order,
                            model::seq_view(parts@),
                            offers@.len() as int,
                        ),
                        ..old(self).state@
                    })
                },
    {
        let ghost fs = model::seq_view(offers@);
        let ghost ps = model::seq_view(parts@);
        let ghost o = observation@;
        let n: usize = offers.len();
        let total: usize = parts.len();
        let mut scores: Vec<i32> = Vec::new();
        let mut i: usize = 0;
        while i < n
            invariant
                i <= n == offers@.len(),
                fs == model::seq_view(offers@),
                scores@.len() == i,
                forall|k: int| 0 <= k < i ==> #[trigger] scores@[k] == fs[k].score,
            decreases n - i,
        {
            scores.push(offers[i].score);
            i = i + 1;
        }
        assert(scores@ =~= scores_of(fs));
        let order = descending(&scores);
        let mut out: Vec<ActionCandidate> = Vec::new();
        let mut bindings: Vec<Binding> = Vec::new();
        let ghost full = issued(o, fs, order@, ps);
        assert(model::seq_view(bindings@) =~= issued_bindings(fs, order@, ps, 0));
        let mut k: usize = 0;
        while k < n
            invariant
                k <= n == offers@.len(),
                fs == model::seq_view(offers@),
                ps == model::seq_view(parts@),
                o == observation@,
                ps.len() == n + 3,
                semantics::is_ranking(scores_of(fs), order@),
                full == issued(o, fs, order@, ps),
                forall|j: int|
                    0 <= j < offers@.len() ==> (#[trigger] offers@[j]).locator.action
                        != NativeAction::Scroll,
                out@.len() == k,
                forall|j: int| 0 <= j < k ==> (#[trigger] out@[j])@ == full[j],
                model::seq_view(bindings@) == issued_bindings(fs, order@, ps, k as int),
            decreases n - k,
        {
            let at: usize = order[k];
            assert(at < offers@.len());
            let offer = &offers[at];
            assert(fs[at as int] == offer@);
            let mut id = owned("uia:");
            id.append(parts[k].as_str());
            assert(id@ == "uia:"@ + ps[k as int]);
            let risk = classify_risk(offer.locator.action, &offer.node.name);
            let candidate = make_candidate(
                observation,
                &offer.node,
                offer.locator.action,
                &offer.locator.ancestor_chain,
                risk,
                id.clone(),
            );
            assert(candidate@ == full[k as int]);
            add_binding(&mut bindings, id, offer.locator.copied());
            out.push(candidate);
            k = k + 1;
        }
        let done = make_control(
            observation,
            "uia:done:",
            parts[total - 3].as_str(),
            CandidateKind::Done,
            "The bounded goal is complete",
        );
        let ask = make_control(
            observation,
            "uia:ask-user:",
            parts[total - 2].as_str(),
            CandidateKind::AskUser,
            "Ask the user for information needed to continue",
        );
        let give_up = make_control(
            observation,
            "uia:cannot-proceed:",
            parts[total - 1].as_str(),
            CandidateKind::CannotProceed,
            "No offered semantic action can advance the goal",
        );
        out.push(done);
        out.push(ask);
        out.push(give_up);
        assert(model::seq_view(out@) =~= full);
        self.state.locators = bindings;
        assert(semantics::is_ranking(scores_of(fs), order@));
        out
    }

    /// The candidates of an observation, under fresh ids.
    pub fn build(&mut self, goal: &str, observation: &Observation) -> (r: Result<
        Vec<ActionCandidate>,
        AutomationError,
    >)
        requires
            choosable(observation@),
        ensures
            final(self).max_elements == old(self).max_elements,
            match offers_model(
                old(self).state@,
                observation@,
                goal@,
                action_pairs(observation@.nodes),
            ) {
                Err(e) => r matches Err(x) && x@ == e && final(self).state@ == old(self).state@,
                Ok(offers) => r matches Ok(v) && exists|order: Seq<usize>, parts: Seq<Seq<char>>|
                    {
                        &&& #[trigger] semantics::is_ranking(scores_of(offers), order)
                        &&& #[trigger] fresh_parts(parts)
                        &&& parts.len() == offers.len() + 3
                        &&& model::seq_view(v@) == issued(observation@, offers, order, parts)
                        &&& final(self).state@ == (StateModel {
                            locators: issued_bindings(offers, order, parts, offers.len() as int),
                            ..old(self).state@
                        })
                    },
            },
    {
        match self.offers(goal, observation) {
            Err(e) => Err(e),
            Ok(offers) => {
                proof {
                    let o = observation@;
                    pairs_are_choosable(o, o.nodes.len() as int);
                    assert(o.nodes.take(o.nodes.len() as int) == o.nodes);
                    offers_do_not_scroll(self.state@, o, goal@, action_pairs(o.nodes));
                    let s = model::seq_view(offers@);
                    assert forall|i: int| 0 <= i < offers@.len() implies (
                    #[trigger] offers@[i]).locator.action != NativeAction::Scroll by {
                        assert(s[i].locator.action == offers@[i].locator.action);
                    }
                }
                let total: usize = offers.len();
                let mut parts: Vec<String> = Vec::new();
                let mut i: usize = 0;
                while i < total
                    invariant
                        i <= total,
                        parts@.len() == i,
                        fresh_parts(model::seq_view(parts@)),
                    decreases total - i,
                {
                    push_fresh(&mut parts);
                    i = i + 1;
                }
                push_fresh(&mut parts);
                push_fresh(&mut parts);
                push_fresh(&mut parts);
                let r = self.issue(observation, &offers, &parts);
                assert(fresh_parts(model::seq_view(parts@)));
                Ok(r)
            },
        }
    }
}

/// Whether each text is a fresh id without its hyphens.
pub open spec fn fresh_parts(parts: Seq<Seq<char>>) -> bool {
    forall|i: int| 0 <= i < parts.len() ==> fresh_part(#[trigger] parts[i])
}

/// Whether a text is an id without its hyphens.
pub open spec fn fresh_part(s: Seq<char>) -> bool {
    exists|u: Seq<char>| #[trigger] ids::hyphenated(u) && s == ids::unhyphenated(u)
}

/// Adds a fresh id without hyphens.
pub(crate) fn push_fresh(parts: &mut Vec<String>)
    requires
        fresh_parts(model::seq_view(old(parts)@)),
    ensures
        fresh_parts(model::seq_view(final(parts)@)),
        final(parts)@.len() == old(parts)@.len() + 1,
{
    let ghost before = parts@;
    let part = fresh_simple();
    parts.push(part);
    proof {
        let now = model::seq_view(parts@);
        assert forall|i: int| 0 <= i < now.len() implies fresh_part(#[trigger] now[i]) by {
            if i < before.len() {
                assert(now[i] == model::seq_view(before)[i]);
            } else {
                assert(now[i] == part@);
            }
        }
    }
}

/// The actions of controls that offer only choosable actions are choosable.
proof fn pairs_are_choosable(o: ObservationModel, n: int)
    requires
        choosable(o),
        0 <= n <= o.nodes.len(),
    ensures
        forall|i: int|
            0 <= i < action_pairs(o.nodes.take(n)).len() ==> (#[trigger] action_pairs(
                o.nodes.take(n),
            )[i]).1 != NativeAction::Scroll,
    decreases n,
{
    if n > 0 {
        pairs_are_choosable(o, n - 1);
        let now = o.nodes.take(n);
        assert(now.drop_last() == o.nodes.take(n - 1));
        let last = now.last();
        assert(last == o.nodes[n - 1]);
        let before = action_pairs(o.nodes.take(n - 1));
        assert forall|i: int| 0 <= i < action_pairs(now).len() implies (#[trigger] action_pairs(
            now,
        )[i]).1 != NativeAction::Scroll by {
            if i >= before.len() {
                let k = i - before.len();
                assert(last.supported_actions[k] != NativeAction::Scroll) by {
                    assert(last.supported_actions.contains(last.supported_actions[k]));
                }
            } else {
                assert(action_pairs(now)[i] == before[i]);
            }
        }
    }
}

/// What is offered scrolls nothing where no action does.
proof fn offers_do_not_scroll(
    st: StateModel,
    o: ObservationModel,
    goal: Seq<char>,
    pairs: Seq<(NodeModel, NativeAction)>,
)
    requires
        forall|k: int| 0 <= k < pairs.len() ==> (#[trigger] pairs[k]).1 != NativeAction::Scroll,
    ensures
        offers_model(st, o, goal, pairs) matches Ok(s) ==> forall|i: int|
            0 <= i < s.len() ==> (#[trigger] s[i]).locator.action != NativeAction::Scroll,
    decreases pairs.len(),
{
    if pairs.len() > 0 {
        let rest = pairs.drop_last();
        assert forall|k: int| 0 <= k < rest.len() implies (#[trigger] rest[k]).1
            != NativeAction::Scroll by {
            assert(rest[k] == pairs[k]);
        }
        offers_do_not_scroll(st, o, goal, rest);
        match offers_model(st, o, goal, pairs) {
            Err(_) => {},
            Ok(s) => {
                let before = offers_model(st, o, goal, rest)->Ok_0;
                assert(pairs[pairs.len() - 1].1 != NativeAction::Scroll);
                assert forall|i: int| 0 <= i < s.len() implies (#[trigger] s[i]).locator.action
                    != NativeAction::Scroll by {
                    if i < before.len() {
                        assert(s[i] == before[i]);
                    }
                }
            },
        }
    }
}

/// The saved form of what a candidate is bound to: the window by its stable
/// id where one is known, no position.
pub open spec fn saved_model(st: StateModel, b: BoundModel) -> LocatorModel {
    LocatorModel {
        app_id: b.app_id,
        window_id: match st.stable_window_id {
            Some(id) => Some(id),
            None => Some(b.window_id),
        },
        window_title: Some(b.window_title),
        role: Some(b.role),
        automation_id: b.automation_id,
        accessible_name: b.accessible_name,
        ancestor_chain: b.ancestor_chain,
        supported_action: Some(b.action),
        ordinal_hint: None,
    }
}

/// Whether the window in front is not the one of a saved control.
pub open spec fn wrong_window(st: StateModel, l: LocatorModel, o: ObservationModel) -> bool {
    match l.window_id {
        Some(id) => id != o.window.id && st.stable_window_id != Some(id),
        None => l.window_title is Some && l.window_title != Some(o.window.title),
    }
}

/// The positions of shown controls that answer a question, by what is known
/// of them locally.
pub open spec fn node_hits(st: StateModel, nodes: Seq<NodeModel>, q: QueryModel) -> Seq<int>
    decreases nodes.len(),
{
    if nodes.len() == 0 {
        Seq::empty()
    } else {
        let before = node_hits(st, nodes.drop_last(), q);
        match node_of(st.metadata, nodes.last().opaque_id) {
            Some(m) if q.answered(profile_of(m)) => before.push(nodes.len() - 1),
            _ => before,
        }
    }
}

/// Why a saved action cannot be rebuilt, or the position of the one control
/// that it is rebuilt on.
pub open spec fn rebuild_place(
    st: StateModel,
    l: LocatorModel,
    action: NativeAction,
    o: ObservationModel,
) -> Result<int, (ErrorKind, Seq<char>)> {
    let found = node_hits(st, o.nodes, QueryModel::actionable(l, action));
    if l.app_id != o.app.id {
        Err(
            (
                ErrorKind::Candidates,
                "foreground application does not match the saved semantic locator"@,
            ),
        )
    } else if wrong_window(st, l, o) {
        Err(
            (
                ErrorKind::Candidates,
                "foreground window does not match the saved semantic locator"@,
            ),
        )
    } else if l.supported_action is Some && l.supported_action != Some(action) {
        Err(
            (
                ErrorKind::Candidates,
                "saved semantic action does not match the locator capability"@,
            ),
        )
    } else if action == NativeAction::Scroll {
        Err(
            (
                ErrorKind::Candidates,
                "Windows UIA persistent action "@ + action.label() + " is unsupported"@,
            ),
        )
    } else if found.len() == 0 {
        Err(
            (
                ErrorKind::Candidates,
                "saved semantic locator did not resolve to an actionable UIA element"@,
            ),
        )
    } else if found.len() > 1 {
        Err(
            (
                ErrorKind::Candidates,
                "saved semantic locator is ambiguous; add a stable automation id or ancestor/row context"@,
            ),
        )
    } else {
        Ok(found[0])
    }
}

/// What a rebuilt action is bound to.
pub open spec fn rebuilt_bound(
    st: StateModel,
    o: ObservationModel,
    place: int,
    action: NativeAction,
) -> BoundModel {
    let n = o.nodes[place];
    bound_model(st, o, n.opaque_id, node_of(st.metadata, n.opaque_id)->Some_0, action)
}

/// The rebuilt candidate.
pub open spec fn rebuilt_candidate(
    st: StateModel,
    o: ObservationModel,
    place: int,
    action: NativeAction,
    part: Seq<char>,
) -> CandidateModel {
    let b = rebuilt_bound(st, o, place, action);
    candidate_model(
        o,
        o.nodes[place],
        action,
        b.ancestor_chain,
        b.risk,
        "uia:persisted:"@ + part,
    )
}

/// Each listed position is that of a control whose local knowledge answers.
proof fn node_hits_are_right(st: StateModel, nodes: Seq<NodeModel>, q: QueryModel)
    ensures
        forall|k: int|
            0 <= k < node_hits(st, nodes, q).len() ==> {
                let i = #[trigger] node_hits(st, nodes, q)[k];
                0 <= i < nodes.len() && node_of(st.metadata, nodes[i].opaque_id) is Some
                    && q.answered(profile_of(node_of(st.metadata, nodes[i].opaque_id)->Some_0))
            },
    decreases nodes.len(),
{
    if nodes.len() > 0 {
        let rest = nodes.drop_last();
        node_hits_are_right(st, rest, q);
        assert forall|k: int| 0 <= k < node_hits(st, nodes, q).len() implies {
            let i = #[trigger] node_hits(st, nodes, q)[k];
            0 <= i < nodes.len() && node_of(st.metadata, nodes[i].opaque_id) is Some
                && q.answered(profile_of(node_of(st.metadata, nodes[i].opaque_id)->Some_0))
        } by {
            if k < node_hits(st, rest, q).len() {
                let i = node_hits(st, rest, q)[k];
                assert(node_hits(st, nodes, q)[k] == i);
                assert(nodes[i] == rest[i]);
            }
        }
    }
}

/// A saved action is rebuilt only on a control that offers it and that fits
/// the saved role, texts and ancestors; where several do, on none of them.
pub proof fn rebuild_is_unambiguous(
    st: StateModel,
    l: LocatorModel,
    action: NativeAction,
    o: ObservationModel,
)
    ensures
        rebuild_place(st, l, action, o) matches Ok(i) ==> {
            &&& 0 <= i < o.nodes.len()
            &&& node_hits(st, o.nodes, QueryModel::actionable(l, action)) == seq![i]
            &&& node_of(st.metadata, o.nodes[i].opaque_id) is Some
            &&& QueryModel::actionable(l, action).answered(
                profile_of(node_of(st.metadata, o.nodes[i].opaque_id)->Some_0),
            )
        },
{
    let q = QueryModel::actionable(l, action);
    node_hits_are_right(st, o.nodes, q);
    if rebuild_place(st, l, action, o) is Ok {
        let found = node_hits(st, o.nodes, q);
        assert(found =~= seq![found[0]]);
    }
}

/// A saved position never decides on which control an action is rebuilt.
pub proof fn rebuild_ignores_ordinal(
    st: StateModel,
    l: LocatorModel,
    hint: Option<u16>,
    action: NativeAction,
    o: ObservationModel,
)
    ensures
        rebuild_place(st, LocatorModel { ordinal_hint: hint, ..l }, action, o) == rebuild_place(
            st,
            l,
            action,
            o,
        ),
{
}

/// Why a candidate may not be acted on, if it may not.
pub open spec fn authority_fault(st: StateModel, c: CandidateModel) -> Option<
    (ErrorKind, Seq<char>),
> {
    match bound_to(st.locators, c.id) {
        None => Some(
            (ErrorKind::Execution, "candidate was not created by this UIA adapter"@),
        ),
        Some(b) => if c.target != Some(b.target_opaque_id) || semantics::kind_model(b.action)
            != Some(c.kind) || c.local_risk != b.risk {
            Some(
                (
                    ErrorKind::Execution,
                    "candidate fields do not match the locally constructed UIA action"@,
                ),
            )
        } else {
            None
        },
    }
}

/// Why a fresh reading does not allow a dispatch, or the position of the one
/// control to dispatch to.
pub open spec fn dispatch_place(b: BoundModel, s: SnapshotModel, live_window: Seq<char>) -> Result<
    int,
    (ErrorKind, Seq<char>),
> {
    let found = locate::hits(profiles_of(s.nodes), bound_query(b));
    if s.app.id != b.app_id || s.window.id != b.window_id {
        Err((ErrorKind::Execution, "foreground UI changed before native dispatch"@))
    } else if found.len() == 0 {
        Err(
            (
                ErrorKind::Execution,
                "semantic UIA target is missing after fresh re-observation"@,
            ),
        )
    } else if found.len() > 1 {
        Err(
            (
                ErrorKind::Execution,
                "semantic UIA target is ambiguous after fresh re-observation; refusing ordinal fallback"@,
            ),
        )
    } else if live_window != s.window.id {
        Err(
            (
                ErrorKind::Execution,
                "foreground window changed immediately before UIA dispatch"@,
            ),
        )
    } else {
        Ok(found[0])
    }
}

impl WindowsUiaAdapter {
    /// The saved form of what a candidate is bound to.
    pub fn semantic_locator(&self, candidate: &ActionCandidate) -> (r: Option<SemanticLocator>)
        ensures
            model::opt_view(r) == match bound_to(self.state@.locators, candidate@.id) {
                Some(b) => Some(saved_model(self.state@, b)),
                None => None,
            },
    {
        match find_binding(&self.state.locators, candidate.id.as_str()) {
            None => None,
            Some(i) => {
                let b = &self.state.locators[i].locator;
                let window_id = match &self.state.stable_window_id {
                    Some(id) => id.clone(),
                    None => b.window_id.clone(),
                };
                Some(
                    SemanticLocator {
                        app_id: b.app_id.clone(),
                        window_id: Some(window_id),
                        window_title: Some(b.window_title.clone()),
                        role: Some(b.role),
                        automation_id: copy_opt(&b.automation_id),
                        accessible_name: copy_opt(&b.accessible_name),
                        ancestor_chain: copy_all(&b.ancestor_chain),
                        supported_action: Some(b.action),
                        ordinal_hint: None,
                    },
                )
            },
        }
    }

    /// The position of the one control that a saved action is rebuilt on.
    fn find_rebuild(
        &self,
        locator: &SemanticLocator,
        action: NativeAction,
        observation: &Observation,
    ) -> (r: Result<usize, AutomationError>)
        ensures
            match r {
                Ok(i) => rebuild_place(self.state@, locator@, action, observation@) == Ok::<
                    int,
                    (ErrorKind, Seq<char>),
                >(i as int),
                Err(e) => rebuild_place(self.state@, locator@, action, observation@) == Err::<
                    int,
                    (ErrorKind, Seq<char>),
                >(e@),
            },
    {
        if !same_text(locator.app_id.as_str(), observation.app.id.as_str()) {
            return Err(
                AutomationError::candidates(
                    "foreground application does not match the saved semantic locator",
                ),
            );
        }
        let wrong = match &locator.window_id {
            Some(id) => {
                let stable = match &self.state.stable_window_id {
                    Some(s) => same_text(s.as_str(), id.as_str()),
                    None => false,
                };
                !same_text(id.as_str(), observation.window.id.as_str()) && !stable
            },
            None => match &locator.window_title {
                Some(title) => !same_text(title.as_str(), observation.window.title.as_str()),
                None => false,
            },
        };
        assert(wrong == wrong_window(self.state@, locator@, observation@));
        if wrong {
            return Err(
                AutomationError::candidates(
                    "foreground window does not match the saved semantic locator",
                ),
            );
        }
        match locator.supported_action {
            Some(saved) => {
                if saved != action {
                    return Err(
                        AutomationError::candidates(
                            "saved semantic action does not match the locator capability",
                        ),
                    );
                }
            },
            None => {},
        }
        if action == NativeAction::Scroll {
            let mut s = owned("Windows UIA persistent action ");
            s.append(action.name());
            s.append(" is unsupported");
            return Err(AutomationError::Candidates(s));
        }
        let q = target_query(locator, Some(action));
        let found = self.matching_nodes(observation, &q);
        assert(q@ == QueryModel::actionable(locator@, action));
        if found.len() == 0 {
            Err(
                AutomationError::candidates(
                    "saved semantic locator did not resolve to an actionable UIA element",
                ),
            )
        } else if found.len() > 1 {
            Err(
                AutomationError::candidates(
                    "saved semantic locator is ambiguous; add a stable automation id or ancestor/row context",
                ),
            )
        } else {
            Ok(found[0])
        }
    }

    /// The positions of shown controls that answer a question.
    fn matching_nodes(&self, observation: &Observation, q: &Query) -> (r: Vec<usize>)
        ensures
            r@.len() == node_hits(self.state@, observation@.nodes, q@).len(),
            forall|i: int|
                0 <= i < r@.len() ==> #[trigger] r@[i] == node_hits(
                    self.state@,
                    observation@.nodes,
                    q@,
                )[i],
    {
        let ghost st = self.state@;
        let ghost nodes = observation@.nodes;
        let mut out: Vec<usize> = Vec::new();
        let mut i: usize = 0;
        assert(node_hits(st, nodes.take(0), q@).len() == 0);
        while i < observation.nodes.len()
            invariant
                i <= observation.nodes@.len(),
                st == self.state@,
                nodes == observation@.nodes,
                out@.len() == node_hits(st, nodes.take(i as int), q@).len(),
                forall|k: int|
                    0 <= k < out@.len() ==> #[trigger] out@[k] == node_hits(
                        st,
                        nodes.take(i as int),
                        q@,
                    )[k],
            decreases observation.nodes@.len() - i,
        {
            proof {
                assert(nodes.take(i + 1).drop_last() == nodes.take(i as int));
                assert(nodes.take(i + 1).last() == observation.nodes@[i as int]@);
            }
            match find_node(&self.state.metadata, observation.nodes[i].opaque_id.as_str()) {
                Some(m) => {
                    if locate::answers(&self.state.metadata[m], q) {
                        out.push(i);
                    }
                },
                None => {},
            }
            i = i + 1;
        }
        assert(nodes.take(nodes.len() as int) == nodes);
        out
    }

    /// Rebuilds a saved action under an id made of the given part.
    pub fn rebuild_with(
        &mut self,
        locator: &SemanticLocator,
        action: NativeAction,
        observation: &Observation,
        part: &str,
    ) -> (r: Result<ActionCandidate, AutomationError>)
        ensures
            final(self).max_elements == old(self).max_elements,
            match rebuild_place(old(self).state@, locator@, action, observation@) {
                Err(e) => r matches Err(x) && x@ == e && final(self).state@ == old(self).state@,
                Ok(i) => {
                    &&& r matches Ok(c)
                    &&& c@ == rebuilt_candidate(old(self).state@, observation@, i, action, part@)
                    &&& final(self).state@ == (StateModel {
                        locators: bind(
                            old(self).state@.locators,
                            "uia:persisted:"@ + part@,
                            rebuilt_bound(old(self).state@, observation@, i, action),
                        ),
                        ..old(self).state@
                    })
                },
            },
    {
        let i: usize = match self.find_rebuild(locator, action, observation) {
            Ok(i) => i,
            Err(e) => {
                return Err(e);
            },
        };
        proof {
            rebuild_is_unambiguous(self.state@, locator@, action, observation@);
            assert(observation@.nodes[i as int] == observation.nodes@[i as int]@);
        }
        let node = &observation.nodes[i];
        let place: usize = match find_node(&self.state.metadata, node.opaque_id.as_str()) {
            Some(p) => p,
            None => 0,
        };
        let internal = self.bound_locator(observation, node.opaque_id.as_str(), place, action);
        assert(internal@ == rebuilt_bound(self.state@, observation@, i as int, action));
        let mut id = owned("uia:persisted:");
        id.append(part);
        let candidate = make_candidate(
            observation,
            node,
            action,
            &internal.ancestor_chain,
            internal.risk,
            id.clone(),
        );
        add_binding(&mut self.state.locators, id, internal);
        Ok(candidate)
    }

    /// Rebuilds a saved action under a fresh id.
    pub fn rebuild_semantic_candidate(
        &mut self,
        locator: &SemanticLocator,
        action: NativeAction,
        observation: &Observation,
    ) -> (r: Result<ActionCandidate, AutomationError>)
        ensures
            final(self).max_elements == old(self).max_elements,
            match rebuild_place(old(self).state@, locator@, action, observation@) {
                Err(e) => r matches Err(x) && x@ == e && final(self).state@ == old(self).state@,
                Ok(i) => r matches Ok(c) && exists|part: Seq<char>|
                    {
                        &&& #[trigger] fresh_part(part)
                        &&& c@ == rebuilt_candidate(
                            old(self).state@,
                            observation@,
                            i,
                            action,
                            part,
                        )
                        &&& final(self).state@ == (StateModel {
                            locators: bind(
                                old(self).state@.locators,
                                "uia:persisted:"@ + part,
                                rebuilt_bound(old(self).state@, observation@, i, action),
                            ),
                            ..old(self).state@
                        })
                    },
            },
    {
        let part = fresh_simple();
        assert(fresh_part(part@));
        self.rebuild_with(locator, action, observation, part.as_str())
    }

    /// What a candidate is bound to, where it is one of this adapter's and was
    /// not changed.
    pub fn authorize(&self, action: &ActionCandidate) -> (r: Result<
        InternalLocator,
        AutomationError,
    >)
        ensures
            match r {
                Ok(l) => authority_fault(self.state@, action@) is None && bound_to(
                    self.state@.locators,
                    action@.id,
                ) == Some(l@),
                Err(e) => authority_fault(self.state@, action@) == Some(e@),
            },
    {
        match find_binding(&self.state.locators, action.id.as_str()) {
            None => Err(
                AutomationError::execution("candidate was not created by this UIA adapter"),
            ),
            Some(i) => {
                let b = &self.state.locators[i].locator;
                let target_fits = match &action.target {
                    Some(id) => same_text(id.as_str(), b.target_opaque_id.as_str()),
                    None => false,
                };
                let kind_fits = match kind_of(b.action) {
                    Some(k) => k.same(&action.kind),
                    None => false,
                };
                if !target_fits || !kind_fits || action.local_risk != b.risk {
                    return Err(
                        AutomationError::execution(
                            "candidate fields do not match the locally constructed UIA action",
                        ),
                    );
                }
                Ok(b.copied())
            },
        }
    }
}

/// The position of the one control in a fresh reading to dispatch to.
pub fn confirm_dispatch(locator: &InternalLocator, snapshot: &Snapshot, live_window: &str) -> (r:
    Result<usize, AutomationError>)
    ensures
        match r {
            Ok(i) => dispatch_place(locator@, snapshot@, live_window@) == Ok::<
                int,
                (ErrorKind, Seq<char>),
            >(i as int) && i < snapshot.nodes@.len(),
            Err(e) => dispatch_place(locator@, snapshot@, live_window@) == Err::<
                int,
                (ErrorKind, Seq<char>),
            >(e@),
        },
{
    if !same_text(snapshot.app.id.as_str(), locator.app_id.as_str()) || !same_text(
        snapshot.window.id.as_str(),
        locator.window_id.as_str(),
    ) {
        return Err(AutomationError::execution("foreground UI changed before native dispatch"));
    }
    let place: usize = match resolve_unique(&snapshot.nodes, locator) {
        Ok(i) => i,
        Err(e) => {
            return Err(e);
        },
    };
    if !same_text(live_window, snapshot.window.id.as_str()) {
        return Err(
            AutomationError::execution("foreground window changed immediately before UIA dispatch"),
        );
    }
    Ok(place)
}

/// The position of the one control that a binding is found at.
pub fn resolve_unique(nodes: &Vec<NodeMetadata>, locator: &InternalLocator) -> (r: Result<
    usize,
    AutomationError,
>)
    ensures
        match r {
            Ok(i) => locate::hits(
                profiles_of(model::seq_view(nodes@)),
                bound_query(locator@),
            ) == seq![i as int] && i < nodes@.len(),
            Err(e) => {
                let found = locate::hits(
                    profiles_of(model::seq_view(nodes@)),
                    bound_query(locator@),
                );
                e@ == (ErrorKind::Execution, if found.len() == 0 {
                    "semantic UIA target is missing after fresh re-observation"@
                } else {
                    "semantic UIA target is ambiguous after fresh re-observation; refusing ordinal fallback"@
                }) && found.len() != 1
            },
        },
{
    let q = query_of(locator);
    let found = select(nodes, &q);
    assert(locate::profiles(nodes@) =~= profiles_of(model::seq_view(nodes@)));
    if found.len() == 1 {
        let ghost all = locate::hits(profiles_of(model::seq_view(nodes@)), bound_query(locator@));
        assert(found@[0] == all[0]);
        assert(all =~= seq![found@[0] as int]);
        Ok(found[0])
    } else if found.len() == 0 {
        Err(
            AutomationError::execution("semantic UIA target is missing after fresh re-observation"),
        )
    } else {
        Err(
            AutomationError::execution(
                "semantic UIA target is ambiguous after fresh re-observation; refusing ordinal fallback",
            ),
        )
    }
}

/// The receipt of a dispatched action.
pub fn dispatch_receipt(candidate_id: &str, action: NativeAction) -> (r: ActionReceipt)
    ensures
        r@ == (ReceiptModel {
            candidate_id: candidate_id@,
            dispatched: true,
            detail: Some("Windows UIA "@ + action.label() + " dispatched"@),
        }),
{
    let mut detail = owned("Windows UIA ");
    detail.append(action.name());
    detail.append(" dispatched");
    ActionReceipt { candidate_id: owned(candidate_id), dispatched: true, detail: Some(detail) }
}

/// The error for an action that the system refused.
pub fn dispatch_failure(error: &str) -> (r: AutomationError)
    ensures
        r@ == (ErrorKind::Execution, "UIA dispatch failed: "@ + error@),
{
    let mut words = owned("UIA dispatch failed: ");
    words.append(error);
    AutomationError::Execution(words)
}

/// The text to hand over with an action: the caller's for text entry, none for
/// other actions.
pub fn dispatch_value(action: NativeAction, value: &Option<String>) -> (r: Result<
    Option<String>,
    AutomationError,
>)
    ensures
        match (action, model::opt_view(*value)) {
            (NativeAction::SetValue, Some(v)) => r matches Ok(Some(s)) && s@ == v,
            (NativeAction::SetValue, None) => r matches Err(e) && e@ == (
                ErrorKind::Execution,
                "SetValue requires caller-provided text at dispatch time"@,
            ),
            (NativeAction::Scroll, _) => r matches Err(e) && e@ == (
                ErrorKind::Execution,
                "native UIA action "@ + action.label() + " is not supported by this slice"@,
            ),
            _ => r matches Ok(None),
        },
{
    match action {
        NativeAction::SetValue => match value {
            Some(v) => Ok(Some(v.clone())),
            None => Err(
                AutomationError::execution(
                    "SetValue requires caller-provided text at dispatch time",
                ),
            ),
        },
        NativeAction::Scroll => {
            let mut s = owned("native UIA action ");
            s.append(action.name());
            s.append(" is not supported by this slice");
            Err(AutomationError::Execution(s))
        },
        _ => Ok(None),
    }
}

/// Where to look next for a saved control: nowhere where it is observed, else
/// in the deepest of its ancestors that is.
pub open spec fn region_model(ms: Seq<MetadataModel>, l: LocatorModel) -> Result<
    Option<Seq<char>>,
    (ErrorKind, Seq<char>),
> {
    match locate::replayed(profiles_of(ms), l, false) {
        Replay::Target => Ok(None),
        Replay::Region(i) => Ok(Some(ms[i as int].opaque_id)),
        Replay::AmbiguousTarget => Err(
            (ErrorKind::Observation, "Saved UIA target is ambiguous"@),
        ),
        Replay::AmbiguousRegion => Err(
            (ErrorKind::Observation, "Saved UIA ancestor region is ambiguous"@),
        ),
        Replay::Missing => Err(
            (
                ErrorKind::Observation,
                "Saved UIA target and its ancestor region are unavailable in the bounded observation"@,
            ),
        ),
    }
}

/// Where to look next for a saved control.
pub fn replay_region(nodes: &Vec<NodeMetadata>, locator: &SemanticLocator) -> (r: Result<
    Option<String>,
    AutomationError,
>)
    ensures
        match r {
            Ok(o) => region_model(model::seq_view(nodes@), locator@) == Ok::<
                Option<Seq<char>>,
                (ErrorKind, Seq<char>),
            >(model::opt_view(o)),
            Err(e) => region_model(model::seq_view(nodes@), locator@) == Err::<
                Option<Seq<char>>,
                (ErrorKind, Seq<char>),
            >(e@),
        },
{
    assert(locate::profiles(nodes@) =~= profiles_of(model::seq_view(nodes@)));
    match replay(nodes, locator, false) {
        Replay::Target => Ok(None),
        Replay::Region(i) => Ok(Some(nodes[i].opaque_id.clone())),
        Replay::AmbiguousTarget => Err(
            AutomationError::observation("Saved UIA target is ambiguous"),
        ),
        Replay::AmbiguousRegion => Err(
            AutomationError::observation("Saved UIA ancestor region is ambiguous"),
        ),
        Replay::Missing => Err(
            AutomationError::observation(
                "Saved UIA target and its ancestor region are unavailable in the bounded observation",
            ),
        ),
    }
}

/// Whether a control is what another is looked for by: the same role, automation
/// id, name and ancestors, offering the action.
pub open spec fn passes_for(k: MetadataModel, m: MetadataModel, action: NativeAction) -> bool {
    &&& k.role == m.role
    &&& k.automation_id == m.automation_id
    &&& k.name == m.name
    &&& k.ancestor_chain == m.ancestor_chain
    &&& k.supported_actions.contains(action)
}

/// Whether exactly one of the controls passes for a given one.
pub open spec fn told_apart(
    ms: Seq<MetadataModel>,
    m: MetadataModel,
    action: NativeAction,
) -> bool {
    exists|i: int|
        0 <= i < ms.len() && passes_for(#[trigger] ms[i], m, action) && forall|j: int|
            0 <= j < ms.len() && passes_for(#[trigger] ms[j], m, action) ==> j == i
}

/// A query bound to a control has one hit where the control is told apart.
proof fn one_hit_is_told_apart(ms: Seq<MetadataModel>, b: BoundModel, m: MetadataModel)
    requires
        b.role == m.role,
        b.automation_id == m.automation_id,
        b.accessible_name == m.name,
        b.ancestor_chain == m.ancestor_chain,
    ensures
        locate::hits(profiles_of(ms), bound_query(b)).len() == 1 <==> told_apart(ms, m, b.action),
        locate::hits(profiles_of(ms), bound_query(b)).len() == 1 ==> {
            let i = locate::hits(profiles_of(ms), bound_query(b))[0];
            0 <= i < ms.len() && passes_for(ms[i], m, b.action)
        },
        locate::hits(profiles_of(ms), bound_query(b)).len() == 0 <==> forall|j: int|
            0 <= j < ms.len() ==> !passes_for(#[trigger] ms[j], m, b.action),
{
    let ps = profiles_of(ms);
    let q = bound_query(b);
    let found = locate::hits(ps, q);
    locate::hits_are_the_answers(ps, q);
    assert forall|j: int| 0 <= j < ms.len() implies (q.answered(ps[j]) <==> passes_for(
        #[trigger] ms[j],
        m,
        b.action,
    )) by {
        assert(ps[j] == profile_of(ms[j]));
    }
    if found.len() == 1 {
        locate::single_hit_is_the_only_answer(ps, q);
        let i = found[0];
        assert(passes_for(ms[i], m, b.action));
        assert forall|j: int| 0 <= j < ms.len() && passes_for(
            #[trigger] ms[j],
            m,
            b.action,
        ) implies j == i by {
            assert(q.answered(ps[j]));
        }
    }
    if told_apart(ms, m, b.action) {
        let i = choose|i: int|
            0 <= i < ms.len() && passes_for(#[trigger] ms[i], m, b.action) && forall|j: int|
                0 <= j < ms.len() && passes_for(#[trigger] ms[j], m, b.action) ==> j == i;
        assert(q.answered(ps[i]));
        assert(found.contains(i));
        if found.len() > 1 {
            assert(q.answered(ps[found[0]]) && q.answered(ps[found[1]]));
            assert(passes_for(ms[found[0]], m, b.action) && passes_for(ms[found[1]], m, b.action));
            assert(found[0] == i && found[1] == i);
        }
    }
    if found.len() == 0 {
        assert forall|j: int| 0 <= j < ms.len() implies !passes_for(
            #[trigger] ms[j],
            m,
            b.action,
        ) by {
            if passes_for(ms[j], m, b.action) {
                assert(q.answered(ps[j]));
                assert(found.contains(j));
            }
        }
    } else {
        assert(q.answered(ps[found[0]]));
        assert(passes_for(ms[found[0]], m, b.action));
    }
}

/// An action is bound to the control that it is for only where that control can
/// be told apart from all others; what is kept of the control is what it is, in
/// the window and application that were observed.
pub proof fn actions_are_bound_to_their_control(
    st: StateModel,
    o: ObservationModel,
    id: Seq<char>,
    action: NativeAction,
)
    ensures
        node_of(st.metadata, id) is None <==> locator_model(st, o, id, action) is Err,
        node_of(st.metadata, id) is Some && !told_apart(
            st.metadata,
            node_of(st.metadata, id)->Some_0,
            action,
        ) ==> locator_model(st, o, id, action) == Ok::<
            Option<BoundModel>,
            (ErrorKind, Seq<char>),
        >(None),
        node_of(st.metadata, id) is Some && told_apart(
            st.metadata,
            node_of(st.metadata, id)->Some_0,
            action,
        ) ==> {
            let m = node_of(st.metadata, id)->Some_0;
            &&& locator_model(st, o, id, action) is Ok
            &&& locator_model(st, o, id, action)->Ok_0 is Some
            &&& locator_model(st, o, id, action)->Ok_0->Some_0 == BoundModel {
                app_id: o.app.id,
                window_id: o.window.id,
                window_title: o.window.title,
                target_opaque_id: id,
                role: m.role,
                automation_id: m.automation_id,
                accessible_name: m.name,
                action,
                risk: semantics::risk_model(action, m.name, critical_words()),
                ancestor_chain: m.ancestor_chain,
                scope: st.scope,
                scope_root: st.scope_root,
            }
        },
{
    if node_of(st.metadata, id) is Some {
        let m = node_of(st.metadata, id)->Some_0;
        one_hit_is_told_apart(st.metadata, bound_model(st, o, id, m, action), m);
    }
}

/// Whether an action of a control could be carried out: the control is enabled
/// and visible and lists the action.
pub open spec fn can_act(n: NodeModel, action: NativeAction) -> bool {
    n.enabled && n.visible && n.supported_actions.contains(action)
}

/// The pairs of a list of controls are exactly their possible actions.
proof fn pairs_are_possible_actions(nodes: Seq<NodeModel>)
    ensures
        forall|k: int|
            0 <= k < action_pairs(nodes).len() ==> nodes.contains(
                (#[trigger] action_pairs(nodes)[k]).0,
            ) && can_act(action_pairs(nodes)[k].0, action_pairs(nodes)[k].1),
        forall|i: int, action: NativeAction|
            0 <= i < nodes.len() && #[trigger] can_act(nodes[i], action) ==> action_pairs(
                nodes,
            ).contains((nodes[i], action)),
    decreases nodes.len(),
{
    if nodes.len() > 0 {
        let short = nodes.drop_last();
        let n = nodes.last();
        pairs_are_possible_actions(short);
        let all = action_pairs(nodes);
        let before = action_pairs(short);
        assert forall|k: int| 0 <= k < all.len() implies nodes.contains((#[trigger] all[k]).0)
            && can_act(all[k].0, all[k].1) by {
            if k < before.len() {
                assert(all[k] == before[k]);
                let i = choose|i: int| 0 <= i < short.len() && short[i] == before[k].0;
                assert(nodes[i] == before[k].0);
            } else {
                assert(nodes[nodes.len() - 1] == n);
                assert(n.supported_actions[k - before.len()] == all[k].1);
            }
        }
        assert forall|i: int, action: NativeAction| 0 <= i < nodes.len() && #[trigger] can_act(
            nodes[i],
            action,
        ) implies all.contains((nodes[i], action)) by {
            if i < short.len() {
                assert(can_act(short[i], action));
                let k = choose|k: int| 0 <= k < before.len() && before[k] == (short[i], action);
                assert(all[k] == before[k]);
            } else {
                let a = choose|a: int|
                    0 <= a < n.supported_actions.len() && n.supported_actions[a] == action;
                assert(all[before.len() + a] == (n, action));
            }
        }
    }
}

/// Whether the controls differ in their ids and none lists an action twice.
pub open spec fn listed_once(nodes: Seq<NodeModel>) -> bool {
    &&& forall|i: int, j: int|
        0 <= i < j < nodes.len() ==> (#[trigger] nodes[i]).opaque_id != (
        #[trigger] nodes[j]).opaque_id
    &&& forall|i: int|
        0 <= i < nodes.len() ==> (#[trigger] nodes[i]).supported_actions.no_duplicates()
}

/// No pair stands twice in the pairs of controls that are listed once.
proof fn pairs_are_listed_once(nodes: Seq<NodeModel>)
    requires
        listed_once(nodes),
    ensures
        forall|i: int, j: int|
            0 <= i < j < action_pairs(nodes).len() ==> (#[trigger] action_pairs(
                nodes,
            )[i]).0.opaque_id != (#[trigger] action_pairs(nodes)[j]).0.opaque_id || action_pairs(
                nodes,
            )[i].1 != action_pairs(nodes)[j].1,
    decreases nodes.len(),
{
    if nodes.len() > 0 {
        let short = nodes.drop_last();
        let n = nodes.last();
        assert(forall|i: int| 0 <= i < short.len() ==> #[trigger] short[i] == nodes[i]);
        assert(nodes[nodes.len() - 1] == n);
        pairs_are_listed_once(short);
        pairs_are_possible_actions(short);
        let all = action_pairs(nodes);
        let before = action_pairs(short);
        assert forall|i: int, j: int| 0 <= i < j < all.len() implies (
        #[trigger] all[i]).0.opaque_id != (#[trigger] all[j]).0.opaque_id || all[i].1
            != all[j].1 by {
            if j < before.len() {
                assert(all[i] == before[i] && all[j] == before[j]);
            } else if i < before.len() {
                assert(all[i] == before[i]);
                let p = choose|p: int| 0 <= p < short.len() && short[p] == before[i].0;
                assert(nodes[p].opaque_id != n.opaque_id);
                assert(all[j].0 == n);
            } else {
                assert(n.supported_actions[i - before.len()] == all[i].1);
                assert(n.supported_actions[j - before.len()] == all[j].1);
            }
        }
    }
}

/// The offers are those of the pairs whose control is known and told apart.
#[verifier::rlimit(60)]
#[verifier::spinoff_prover]
proof fn offers_follow_the_pairs(
    st: StateModel,
    o: ObservationModel,
    goal: Seq<char>,
    pairs: Seq<(NodeModel, NativeAction)>,
)
    ensures
        offers_model(st, o, goal, pairs) matches Ok(offers) ==> {
            &&& forall|k: int|
                0 <= k < offers.len() ==> pairs.contains(
                    ((#[trigger] offers[k]).node, offers[k].locator.action),
                ) && locator_model(st, o, offers[k].node.opaque_id, offers[k].locator.action)
                    == Ok::<Option<BoundModel>, (ErrorKind, Seq<char>)>(Some(offers[k].locator))
                    && offers[k].score == capped(
                    relevance(goal, offers[k].node, offers[k].locator.action),
                )
            &&& forall|i: int|
                0 <= i < pairs.len() && locator_model(
                    st,
                    o,
                    (#[trigger] pairs[i]).0.opaque_id,
                    pairs[i].1,
                )->Ok_0 is Some ==> offer_for(offers, pairs[i].0, pairs[i].1)
            &&& forall|i: int|
                0 <= i < pairs.len() ==> locator_model(
                    st,
                    o,
                    (#[trigger] pairs[i]).0.opaque_id,
                    pairs[i].1,
                ) is Ok
            &&& (forall|i: int, j: int|
                0 <= i < j < pairs.len() ==> (#[trigger] pairs[i]).0.opaque_id != (
                #[trigger] pairs[j]).0.opaque_id || pairs[i].1 != pairs[j].1) ==> forall|
                i: int,
                j: int,
            |
                0 <= i < j < offers.len() ==> (#[trigger] offers[i]).node.opaque_id != (
                #[trigger] offers[j]).node.opaque_id || offers[i].locator.action
                    != offers[j].locator.action
        },
    decreases pairs.len(),
{
    if pairs.len() > 0 && offers_model(st, o, goal, pairs) is Ok {
        let short = pairs.drop_last();
        let (n, action) = pairs.last();
        offers_follow_the_pairs(st, o, goal, short);
        let before = offers_model(st, o, goal, short)->Ok_0;
        let offers = offers_model(st, o, goal, pairs)->Ok_0;
        assert forall|k: int| 0 <= k < offers.len() implies pairs.contains(
            ((#[trigger] offers[k]).node, offers[k].locator.action),
        ) && locator_model(st, o, offers[k].node.opaque_id, offers[k].locator.action) == Ok::<
            Option<BoundModel>,
            (ErrorKind, Seq<char>),
        >(Some(offers[k].locator)) && offers[k].score == capped(
            relevance(goal, offers[k].node, offers[k].locator.action),
        ) by {
            if k < before.len() {
                assert(offers[k] == before[k]);
                let i = choose|i: int|
                    0 <= i < short.len() && short[i] == (before[k].node, before[k].locator.action);
                assert(pairs[i] == short[i]);
            } else {
                assert(pairs[pairs.len() - 1] == (n, action));
            }
        }
        assert forall|i: int| 0 <= i < pairs.len() implies locator_model(
            st,
            o,
            (#[trigger] pairs[i]).0.opaque_id,
            pairs[i].1,
        ) is Ok && (locator_model(st, o, pairs[i].0.opaque_id, pairs[i].1)->Ok_0 is Some
            ==> offer_for(offers, pairs[i].0, pairs[i].1)) by {
            if i < short.len() {
                assert(short[i] == pairs[i]);
                if locator_model(st, o, pairs[i].0.opaque_id, pairs[i].1)->Ok_0 is Some {
                    let k = choose|k: int|
                        0 <= k < before.len() && (#[trigger] before[k]).node == pairs[i].0
                            && before[k].locator.action == pairs[i].1;
                    assert(offers[k] == before[k]);
                }
            } else if locator_model(st, o, n.opaque_id, action)->Ok_0 is Some {
                assert(offers[offers.len() - 1].node == n);
            }
        }
        if (forall|i: int, j: int|
            0 <= i < j < pairs.len() ==> (#[trigger] pairs[i]).0.opaque_id != (
            #[trigger] pairs[j]).0.opaque_id || pairs[i].1 != pairs[j].1) {
            assert forall|i: int, j: int| 0 <= i < j < short.len() implies (
            #[trigger] short[i]).0.opaque_id != (#[trigger] short[j]).0.opaque_id || short[i].1
                != short[j].1 by {
                assert(short[i] == pairs[i] && short[j] == pairs[j]);
            }
            assert forall|i: int, j: int| 0 <= i < j < offers.len() implies (
            #[trigger] offers[i]).node.opaque_id != (#[trigger] offers[j]).node.opaque_id
                || offers[i].locator.action != offers[j].locator.action by {
                if j < before.len() {
                    assert(offers[i] == before[i] && offers[j] == before[j]);
                } else {
                    assert(offers[i] == before[i]);
                    let p = choose|p: int|
                        0 <= p < short.len() && short[p] == (
                            before[i].node,
                            before[i].locator.action,
                        );
                    assert(pairs[p] == short[p]);
                    assert(pairs[pairs.len() - 1] == (n, action));
                }
            }
        }
    }
}

/// Whether an action of a control is among the offers.
pub open spec fn offer_for(offers: Seq<OfferModel>, n: NodeModel, action: NativeAction) -> bool {
    exists|k: int|
        0 <= k < offers.len() && (#[trigger] offers[k]).node == n && offers[k].locator.action
            == action
}

/// Whether a candidate is for an action of a control.
pub open spec fn is_for(c: CandidateModel, n: NodeModel, action: NativeAction) -> bool {
    c.target == Some(n.opaque_id) && semantics::kind_model(action) == Some(c.kind)
}

/// Whether a candidate is for an action that some observed control can take.
pub open spec fn is_for_some(c: CandidateModel, o: ObservationModel) -> bool {
    exists|i: int, action: NativeAction|
        0 <= i < o.nodes.len() && #[trigger] can_act(o.nodes[i], action) && is_for(
            c,
            o.nodes[i],
            action,
        )
}

/// Every candidate with a target is for an action that an observed control
/// lists, and that control is enabled and visible. Every action of an enabled
/// and visible control that can be told apart has a candidate, and just one
/// where each control is observed once. Three candidates without a target end
/// the list: that the goal is complete, that the user be asked, and that there
/// is no way on.
pub proof fn candidates_are_the_possible_actions(
    st: StateModel,
    o: ObservationModel,
    goal: Seq<char>,
    order: Seq<usize>,
    parts: Seq<Seq<char>>,
)
    requires
        choosable(o),
        offers_model(st, o, goal, action_pairs(o.nodes)) is Ok,
        semantics::is_ranking(
            scores_of(offers_model(st, o, goal, action_pairs(o.nodes))->Ok_0),
            order,
        ),
        parts.len() == offers_model(st, o, goal, action_pairs(o.nodes))->Ok_0.len() + 3,
    ensures
        ({
            let offers = offers_model(st, o, goal, action_pairs(o.nodes))->Ok_0;
            let cs = issued(o, offers, order, parts);
            let n = cs.len() - 3;
            &&& cs.len() >= 3
            &&& forall|k: int| 0 <= k < n ==> is_for_some(#[trigger] cs[k], o)
            &&& forall|k: int|
                n <= k < cs.len() ==> (#[trigger] cs[k]).target is None && cs[k].local_risk
                    == RiskClass::ReadOnly && cs[k].preconditions.len() == 0
                    && cs[k].expected_effects.len() == 0
            &&& cs[n].kind == KindModel::Done
            &&& cs[n + 1].kind == KindModel::AskUser
            &&& cs[n + 2].kind == KindModel::CannotProceed
            &&& forall|i: int, action: NativeAction|
                0 <= i < o.nodes.len() && #[trigger] can_act(o.nodes[i], action) ==> node_of(
                    st.metadata,
                    o.nodes[i].opaque_id,
                ) is Some && (told_apart(
                    st.metadata,
                    node_of(st.metadata, o.nodes[i].opaque_id)->Some_0,
                    action,
                ) ==> candidate_for(cs, o.nodes[i], action))
            &&& listed_once(o.nodes) ==> forall|a: int, b: int|
                0 <= a < b < n ==> (#[trigger] cs[a]).target != (#[trigger] cs[b]).target
                    || cs[a].kind != cs[b].kind
            &&& forall|k: int| 0 <= k < cs.len() ==> (#[trigger] cs[k]).observation_revision == o.revision
        }),
{
    let pairs = action_pairs(o.nodes);
    let offers = offers_model(st, o, goal, pairs)->Ok_0;
    let cs = issued(o, offers, order, parts);
    let n = offers.len() as int;
    assert(cs.len() == n + 3);
    pairs_are_possible_actions(o.nodes);
    offers_follow_the_pairs(st, o, goal, pairs);
    semantics::ranking_covers(scores_of(offers), order);
    assert forall|k: int| 0 <= k < n implies is_for_some(#[trigger] cs[k], o) by {
        let f = offers[order[k] as int];
        let p = choose|p: int| 0 <= p < pairs.len() && pairs[p] == (f.node, f.locator.action);
        assert(can_act(pairs[p].0, pairs[p].1));
        let i = choose|i: int| 0 <= i < o.nodes.len() && o.nodes[i] == pairs[p].0;
        assert(can_act(o.nodes[i], f.locator.action));
        assert(f.locator.action != NativeAction::Scroll);
        assert(is_for(cs[k], o.nodes[i], f.locator.action));
    }
    assert forall|i: int, action: NativeAction| 0 <= i < o.nodes.len() && #[trigger] can_act(
        o.nodes[i],
        action,
    ) implies node_of(st.metadata, o.nodes[i].opaque_id) is Some && (told_apart(
        st.metadata,
        node_of(st.metadata, o.nodes[i].opaque_id)->Some_0,
        action,
    ) ==> candidate_for(cs, o.nodes[i], action)) by {
        actions_are_bound_to_their_control(st, o, o.nodes[i].opaque_id, action);
        let p = choose|p: int| 0 <= p < pairs.len() && pairs[p] == (o.nodes[i], action);
        assert(locator_model(st, o, pairs[p].0.opaque_id, pairs[p].1) is Ok);
        if told_apart(
            st.metadata,
            node_of(st.metadata, o.nodes[i].opaque_id)->Some_0,
            action,
        ) {
            assert(offer_for(offers, o.nodes[i], action));
            let f = choose|f: int|
                0 <= f < offers.len() && (#[trigger] offers[f]).node == o.nodes[i]
                    && offers[f].locator.action == action;
            assert(semantics::ranked_at(order, f));
            let k = choose|k: int| 0 <= k < order.len() && #[trigger] order[k] == f;
            assert(action != NativeAction::Scroll);
            assert(is_for(cs[k], o.nodes[i], action));
        }
    }
    if listed_once(o.nodes) {
        pairs_are_listed_once(o.nodes);
        assert forall|a: int, b: int| 0 <= a < b < n implies (#[trigger] cs[a]).target != (
        #[trigger] cs[b]).target || cs[a].kind != cs[b].kind by {
            let x = order[a] as int;
            let y = order[b] as int;
            assert(x != y);
            let f = offers[x];
            let g = offers[y];
            assert(f.node.opaque_id != g.node.opaque_id || f.locator.action != g.locator.action);
            let p = choose|p: int| 0 <= p < pairs.len() && pairs[p] == (f.node, f.locator.action);
            assert(can_act(pairs[p].0, pairs[p].1));
            let q = choose|q: int| 0 <= q < pairs.len() && pairs[q] == (g.node, g.locator.action);
            assert(can_act(pairs[q].0, pairs[q].1));
            let i = choose|i: int| 0 <= i < o.nodes.len() && o.nodes[i] == pairs[p].0;
            let j = choose|j: int| 0 <= j < o.nodes.len() && o.nodes[j] == pairs[q].0;
            assert(!o.nodes[i].supported_actions.contains(NativeAction::Scroll));
            assert(!o.nodes[j].supported_actions.contains(NativeAction::Scroll));
            assert(cs[a].target == Some(f.node.opaque_id));
            assert(cs[b].target == Some(g.node.opaque_id));
        }
    }
}

/// Whether a candidate for an action of a control is in the list.
pub open spec fn candidate_for(
    cs: Seq<CandidateModel>,
    n: NodeModel,
    action: NativeAction,
) -> bool {
    exists|k: int| 0 <= k < cs.len() && is_for(#[trigger] cs[k], n, action)
}

/// The candidates stand by how well their action fits the goal, the best first.
pub proof fn fitting_actions_come_first(
    st: StateModel,
    o: ObservationModel,
    goal: Seq<char>,
    order: Seq<usize>,
    parts: Seq<Seq<char>>,
    i: int,
    j: int,
)
    requires
        offers_model(st, o, goal, action_pairs(o.nodes)) is Ok,
        semantics::is_ranking(
            scores_of(offers_model(st, o, goal, action_pairs(o.nodes))->Ok_0),
            order,
        ),
        0 <= i < j < order.len(),
    ensures
        ({
            let offers = offers_model(st, o, goal, action_pairs(o.nodes))->Ok_0;
            let cs = issued(o, offers, order, parts);
            let f = offers[order[i] as int];
            let g = offers[order[j] as int];
            &&& cs[i].target == Some(f.node.opaque_id)
            &&& cs[j].target == Some(g.node.opaque_id)
            &&& capped(relevance(goal, f.node, f.locator.action)) >= capped(
                relevance(goal, g.node, g.locator.action),
            )
        }),
{
    let offers = offers_model(st, o, goal, action_pairs(o.nodes))->Ok_0;
    semantics::best_comes_first(scores_of(offers), order, i, j);
    offers_follow_the_pairs(st, o, goal, action_pairs(o.nodes));
    let a = offers[order[i] as int];
    let b = offers[order[j] as int];
    assert(scores_of(offers)[order[i] as int] == a.score);
    assert(scores_of(offers)[order[j] as int] == b.score);
}

/// What is shown of a control is what the control is; of one that holds a secret,
/// all but its name. A value is never shown, only its fingerprint.
pub proof fn control_is_shown_as_it_is(m: MetadataModel)
    ensures
        public_model(m).opaque_id == m.opaque_id,
        public_model(m).role == m.role,
        !m.secure ==> public_model(m).name == m.name,
        m.secure ==> public_model(m).name is None,
        public_model(m).short_value is None,
        public_model(m).enabled == m.enabled,
        public_model(m).visible == m.visible,
        public_model(m).focused == m.focused,
        public_model(m).secure == m.secure,
        public_model(m).toggled == m.toggled,
        public_model(m).selected == m.selected,
        public_model(m).expanded == m.expanded,
        public_model(m).supported_actions == m.supported_actions,
        m.value_fingerprint is None <==> public_model(m).value_fingerprint is None,
        m.value_fingerprint matches Some(v) ==> public_model(m).value_fingerprint == Some(
            "value:"@ + text::hex_text(v as nat, 16),
        ),
{
}

/// What stands before the last occurrence of a character.
proof fn before_last_is_right(a: Seq<char>, c: char, b: Seq<char>)
    requires
        !b.contains(c),
    ensures
        before_last(a.push(c) + b, c) == Some(a),
    decreases b.len(),
{
    let all = a.push(c) + b;
    if b.len() == 0 {
        assert(all.last() == c);
        assert(all.drop_last() =~= a);
    } else {
        assert(b.contains(b[b.len() - 1]));
        assert(all.last() == b.last());
        assert(all.drop_last() =~= a.push(c) + b.drop_last());
        assert(!b.drop_last().contains(c)) by {
            if b.drop_last().contains(c) {
                let i = choose|i: int| 0 <= i < b.drop_last().len() && b.drop_last()[i] == c;
                assert(b[i] == c);
            }
        }
        before_last_is_right(a, c, b.drop_last());
    }
}

/// The key of a control is its id without the counter at its end: two controls
/// whose ids differ in that alone have the same key.
pub proof fn key_leaves_the_counter_out(key: Seq<char>, counter: Seq<char>, id: Seq<char>)
    requires
        !counter.contains(':'),
    ensures
        semantic_key("uie:"@ + key.push(':') + counter) == Some("uia:"@ + key),
        !text::begins(id, "uie:"@) ==> semantic_key(id) is None,
{
    let whole = "uie:"@ + key.push(':') + counter;
    assert(whole.skip("uie:"@.len() as int) =~= key.push(':') + counter);
    assert(whole.take("uie:"@.len() as int) =~= "uie:"@);
    before_last_is_right(key, ':', counter);
}

/// What an id stands for after another control is put in.
proof fn put_is_found(s: Seq<MetadataModel>, m: MetadataModel, id: Seq<char>)
    ensures
        node_of(put(s, m), m.opaque_id) == Some(m),
        id != m.opaque_id ==> node_of(put(s, m), id) == node_of(s, id),
    decreases s.len(),
{
    place_is_right(s, m.opaque_id);
    match place_of(s, m.opaque_id) {
        None => {
            assert(s.push(m).drop_last() =~= s);
            place_is_right(s, id);
        },
        Some(i) => {
            let t = s.update(i, m);
            if i == s.len() - 1 {
                assert(t.drop_last() =~= s.drop_last());
                place_is_right(s.drop_last(), id);
            } else {
                let short = s.drop_last();
                assert(t.drop_last() =~= short.update(i, m));
                put_is_found(short, m, id);
                place_is_right(t.drop_last(), m.opaque_id);
                place_is_right(t.drop_last(), id);
                place_is_right(short, id);
                if place_of(t.drop_last(), id) is Some && t.last().opaque_id != id {
                    assert(t[place_of(t, id)->Some_0] == t.drop_last()[place_of(
                        t.drop_last(),
                        id,
                    )->Some_0]);
                }
                if place_of(short, id) is Some && s.last().opaque_id != id {
                    assert(s[place_of(s, id)->Some_0] == short[place_of(short, id)->Some_0]);
                }
            }
        },
    }
}

/// An id stands for the last control that was observed under it, and for none
/// where there was none.
pub proof fn id_stands_for_the_last_control(nodes: Seq<MetadataModel>, m: MetadataModel, id: Seq<char>)
    ensures
        node_of(indexed(nodes.push(m)), m.opaque_id) == Some(m),
        id != m.opaque_id ==> node_of(indexed(nodes.push(m)), id) == node_of(indexed(nodes), id),
        node_of(indexed(Seq::empty()), id) is None,
{
    assert(nodes.push(m).drop_last() =~= nodes);
    put_is_found(indexed(nodes), m, id);
    assert(indexed(Seq::<MetadataModel>::empty()) =~= Seq::<MetadataModel>::empty());
}

/// A part of a window to look at is a control that is known by its id, be it
/// observed or the root of the last observation; an unknown id is refused. The
/// whole window and the menu are no part.
pub proof fn known_parts_are_looked_at(st: StateModel, scope: ScopeModel)
    ensures
        scope.subtree_id is None || scope.subtree_id == Some("@window"@) || scope.subtree_id
            == Some("@menu"@) ==> subtree_model(st, scope) == Ok::<
            Option<MetadataModel>,
            (ErrorKind, Seq<char>),
        >(None),
        scope.subtree_id is Some && scope.subtree_id != Some("@window"@) && scope.subtree_id
            != Some("@menu"@) ==> match subtree_model(st, scope) {
            Ok(found) => found is Some && found->Some_0.opaque_id == scope.subtree_id->Some_0 && (
            st.metadata.contains(found->Some_0) || st.scope_root == found),
            Err(e) => e.0 == ErrorKind::Observation && node_of(
                st.metadata,
                scope.subtree_id->Some_0,
            ) is None && (st.scope_root is Some ==> st.scope_root->Some_0.opaque_id
                != scope.subtree_id->Some_0),
        },
        scope.subtree_id is Some && scope.subtree_id != Some("@window"@) && scope.subtree_id
            != Some("@menu"@) && node_of(st.metadata, scope.subtree_id->Some_0) is Some
            ==> subtree_model(st, scope) == Ok::<Option<MetadataModel>, (ErrorKind, Seq<char>)>(
            node_of(st.metadata, scope.subtree_id->Some_0),
        ),
{
    if scope.subtree_id is Some {
        place_is_right(st.metadata, scope.subtree_id->Some_0);
    }
}

/// An observation is refused where it shows another application than was asked
/// for, or another window: a window is known by its own id and by its stable one.
pub proof fn other_windows_are_refused(scope: ScopeModel, s: SnapshotModel)
    ensures
        scope_fault(scope, s) is None <==> (scope.app_id is None || scope.app_id->Some_0
            == s.app.id) && (scope.window_id is None || scope.window_id->Some_0 == s.window.id
            || scope.window_id->Some_0 == s.stable_window_id),
        scope_fault(scope, s) is Some ==> scope_fault(scope, s)->Some_0.0
            == ErrorKind::Observation,
        scope.app_id is Some && scope.app_id->Some_0 != s.app.id ==> scope_fault(scope, s)
            == Some(
            (ErrorKind::Observation, "foreground application is outside the requested scope"@),
        ),
{
}

/// An observation shows what was captured, in order, and the adapter remembers
/// the same; what it has bound stays.
pub proof fn observation_is_what_was_captured(st: StateModel, s: SnapshotModel, now_ms: u64, i: int)
    requires
        0 <= i < s.nodes.len(),
    ensures
        shown_observation(st, s, now_ms).nodes.len() == s.nodes.len(),
        shown_observation(st, s, now_ms).nodes[i] == public_model(s.nodes[i]),
        shown_observation(st, s, now_ms).fingerprint == s.fingerprint,
        shown_observation(st, s, now_ms).app == s.app,
        shown_observation(st, s, now_ms).window == s.window,
        shown_observation(st, s, now_ms).captured_at_ms == now_ms,
        shown_observation(st, s, now_ms).truncated == s.truncated,
        shown_observation(st, s, now_ms).revision == accepted_state(st, s).revision,
        accepted_state(st, s).last_fingerprint == Some(s.fingerprint),
        accepted_state(st, s).locators == st.locators,
        accepted_state(st, s).stable_window_id == Some(s.stable_window_id),
        accepted_state(st, s).scope == s.scope,
        accepted_state(st, s).scope_root == s.scope_root,
        accepted_state(st, s).metadata == indexed(s.nodes),
        shown_observation(accepted_state(st, s), s, now_ms).revision == shown_observation(
            st,
            s,
            now_ms,
        ).revision,
{
}

/// The words of two chains together are the words of the one and then those of
/// the other; a control gives its name, or else its id.
pub proof fn context_is_told_from_the_outside(
    a: Seq<ContextModel>,
    b: Seq<ContextModel>,
    c: ContextModel,
)
    ensures
        context_words(a + b) == context_words(a) + context_words(b),
        c.accessible_name matches Some(s) ==> context_words(seq![c]) == seq![
            semantics::redacted(s),
        ],
        c.accessible_name is None && c.automation_id is Some ==> context_words(seq![c]) == seq![
            semantics::redacted(c.automation_id->Some_0),
        ],
        c.accessible_name is None && c.automation_id is None ==> context_words(seq![c])
            == Seq::<Seq<char>>::empty(),
        a.len() <= 3 ==> last_three(a) == a,
        b.len() == 3 ==> last_three(a + b) == b,
    decreases b.len(),
{
    assert(seq![c].drop_last() =~= Seq::<ContextModel>::empty());
    assert(context_words(seq![c].drop_last()) =~= Seq::<Seq<char>>::empty());
    if b.len() == 0 {
        assert(a + b =~= a);
        assert(context_words(a) + context_words(b) =~= context_words(a));
    } else {
        assert((a + b).last() == b.last());
        assert((a + b).drop_last() =~= a + b.drop_last());
        context_is_told_from_the_outside(a, b.drop_last(), c);
        match context_word(b.last()) {
            Some(s) => {
                assert((context_words(a) + context_words(b.drop_last())).push(s)
                    =~= context_words(a) + context_words(b.drop_last()).push(s));
            },
            None => {},
        }
    }
    if b.len() == 3 {
        if a.len() > 0 {
            assert((a + b).skip((a + b).len() - 3) =~= b);
        } else {
            assert(a + b =~= b);
        }
    }
}

/// A candidate tells its action, the role and the name of its control, and where
/// the control stands.
pub proof fn action_is_told(action: NativeAction, n: NodeModel, chain: Seq<ContextModel>)
    ensures
        context_words(last_three(chain)).len() == 0 ==> action_in_context(action, n, chain)
            == action_text(action, n),
        context_words(last_three(chain)).len() > 0 ==> action_in_context(action, n, chain)
            == action_text(action, n) + " in "@ + text::joined(
            context_words(last_three(chain)),
            " > "@,
        ),
        n.name is None ==> action_text(action, n) == action.label() + " "@ + n.role.label()
            + " '"@ + "unnamed control"@ + "'"@,
        n.name matches Some(s) ==> action_text(action, n) == action.label() + " "@
            + n.role.label() + " '"@ + semantics::redacted(s) + "'"@,
{
}

/// How many words of a goal a name holds: of two lists, the sum; of a word, one
/// where the name holds it.
pub proof fn hits_are_counted(a: Seq<Seq<char>>, b: Seq<Seq<char>>, word: Seq<char>, name: Seq<char>)
    ensures
        token_hits(a + b, name) == token_hits(a, name) + token_hits(b, name),
        token_hits(seq![word], name) == if text::has_part(name, word) {
            1nat
        } else {
            0nat
        },
    decreases b.len(),
{
    assert(seq![word].drop_last() =~= Seq::<Seq<char>>::empty());
    assert(token_hits(seq![word].drop_last(), name) == 0);
    if b.len() == 0 {
        assert(a + b =~= a);
    } else {
        assert((a + b).last() == b.last());
        assert((a + b).drop_last() =~= a + b.drop_last());
        hits_are_counted(a, b.drop_last(), word, name);
    }
}

/// What makes an action fit a goal: that its control has the focus is worth
/// thirty; that it has a name, twenty; that the goal holds the name, a hundred
/// and twenty more; each word of the goal in the name, thirty-five; and actions
/// weigh by how much they do.
pub proof fn fit_is_weighed(goal: Seq<char>, n: NodeModel, name: Seq<char>, action: NativeAction)
    requires
        text::lowercased(name).len() > 0,
        text::lowercased(Seq::empty()).len() == 0,
    ensures
        relevance(goal, NodeModel { focused: true, ..n }, action) == relevance(
            goal,
            NodeModel { focused: false, ..n },
            action,
        ) + 30,
        relevance(goal, NodeModel { name: Some(name), ..n }, action) - relevance(
            goal,
            NodeModel { name: None, ..n },
            action,
        ) == 20 + (if text::has_part(text::lowercased(goal), text::lowercased(name)) {
            120int
        } else {
            0
        }) + 35 * token_hits(semantics::tokens(text::lowercased(goal)), text::lowercased(name)),
        relevance(goal, n, NativeAction::SetValue) == relevance(goal, n, NativeAction::Invoke),
        relevance(goal, n, NativeAction::Invoke) == relevance(goal, n, NativeAction::Toggle) + 4,
        relevance(goal, n, NativeAction::Toggle) == relevance(goal, n, NativeAction::Select),
        relevance(goal, n, NativeAction::Select) == relevance(goal, n, NativeAction::Expand) + 4,
        relevance(goal, n, NativeAction::Expand) == relevance(goal, n, NativeAction::Collapse),
        relevance(goal, n, NativeAction::Collapse) == relevance(goal, n, NativeAction::Focus) + 8,
        relevance(goal, n, NativeAction::Focus) == relevance(goal, n, NativeAction::Scroll) + 2,
        relevance(
            goal,
            NodeModel { name: None, focused: false, ..n },
            NativeAction::Scroll,
        ) == 0,
{
}

/// A score that a number can hold is kept as it is.
pub proof fn scores_keep_their_order(a: int, b: int)
    requires
        0 <= a <= b,
    ensures
        capped(a) <= capped(b),
        b <= i32::MAX ==> capped(b) == b,
{
}

/// A saved locator holds what the action was bound to; its window is the stable
/// one where that is known.
pub proof fn saved_locator_holds_the_binding(st: StateModel, b: BoundModel)
    ensures
        saved_model(st, b).app_id == b.app_id,
        saved_model(st, b).window_title == Some(b.window_title),
        saved_model(st, b).role == Some(b.role),
        saved_model(st, b).automation_id == b.automation_id,
        saved_model(st, b).accessible_name == b.accessible_name,
        saved_model(st, b).ancestor_chain == b.ancestor_chain,
        saved_model(st, b).supported_action == Some(b.action),
        saved_model(st, b).ordinal_hint is None,
        st.stable_window_id is Some ==> saved_model(st, b).window_id == st.stable_window_id,
        st.stable_window_id is None ==> saved_model(st, b).window_id == Some(b.window_id),
{
}

/// A saved locator is for the window that it was saved in: one with a window's id
/// by that id or the stable one, one without by its title.
pub proof fn saved_window_is_kept_to(st: StateModel, l: LocatorModel, o: ObservationModel, b: BoundModel)
    ensures
        l.window_id is Some ==> (!wrong_window(st, l, o) <==> l.window_id->Some_0 == o.window.id
            || l.window_id == st.stable_window_id),
        l.window_id is None && l.window_title is Some ==> (!wrong_window(st, l, o)
            <==> l.window_title->Some_0 == o.window.title),
        l.window_id is None && l.window_title is None ==> !wrong_window(st, l, o),
        b.window_id == o.window.id ==> !wrong_window(st, saved_model(st, b), o),
{
}

/// The controls that a query finds among the observed ones.
proof fn node_hits_fit(st: StateModel, nodes: Seq<NodeModel>, q: QueryModel)
    ensures
        forall|k: int|
            0 <= k < node_hits(st, nodes, q).len() ==> 0 <= (#[trigger] node_hits(st, nodes, q)[k])
                < nodes.len() && node_fits(st, nodes[node_hits(st, nodes, q)[k]], q),
        forall|i: int|
            0 <= i < nodes.len() && node_fits(st, #[trigger] nodes[i], q) ==> node_hits(
                st,
                nodes,
                q,
            ).contains(i),
        node_hits(st, nodes, q).no_duplicates(),
    decreases nodes.len(),
{
    if nodes.len() > 0 {
        let short = nodes.drop_last();
        node_hits_fit(st, short, q);
        let before = node_hits(st, short, q);
        let all = node_hits(st, nodes, q);
        assert forall|i: int| 0 <= i < nodes.len() && node_fits(
            st,
            #[trigger] nodes[i],
            q,
        ) implies all.contains(i) by {
            if i < short.len() {
                assert(short[i] == nodes[i]);
                let k = choose|k: int| 0 <= k < before.len() && before[k] == i;
                assert(all[k] == i);
            } else {
                assert(all[all.len() - 1] == i);
            }
        }
        assert forall|k: int| 0 <= k < all.len() implies 0 <= (#[trigger] all[k]) < nodes.len()
            && node_fits(st, nodes[all[k]], q) by {
            if k < before.len() {
                assert(all[k] == before[k]);
                assert(short[before[k]] == nodes[before[k]]);
            }
        }
    }
}

/// Whether an observed control answers a query by what is known of it.
pub open spec fn node_fits(st: StateModel, n: NodeModel, q: QueryModel) -> bool {
    node_of(st.metadata, n.opaque_id) is Some && q.answered(
        profile_of(node_of(st.metadata, n.opaque_id)->Some_0),
    )
}

/// A saved action is found again where the application and the window are those
/// it was saved for and just one observed control fits it; it is that control.
pub proof fn saved_action_is_found_again(
    st: StateModel,
    l: LocatorModel,
    action: NativeAction,
    o: ObservationModel,
    i: int,
)
    requires
        0 <= i < o.nodes.len(),
        l.app_id == o.app.id,
        !wrong_window(st, l, o),
        l.supported_action is None || l.supported_action == Some(action),
        action != NativeAction::Scroll,
        node_fits(st, o.nodes[i], QueryModel::actionable(l, action)),
    ensures
        (forall|j: int|
            0 <= j < o.nodes.len() && node_fits(
                st,
                #[trigger] o.nodes[j],
                QueryModel::actionable(l, action),
            ) ==> j == i) ==> rebuild_place(st, l, action, o) == Ok::<
            int,
            (ErrorKind, Seq<char>),
        >(i),
        (exists|j: int|
            0 <= j < o.nodes.len() && j != i && node_fits(
                st,
                #[trigger] o.nodes[j],
                QueryModel::actionable(l, action),
            )) ==> rebuild_place(st, l, action, o) is Err,
{
    let q = QueryModel::actionable(l, action);
    let found = node_hits(st, o.nodes, q);
    node_hits_fit(st, o.nodes, q);
    assert(found.contains(i));
    if (forall|j: int| 0 <= j < o.nodes.len() && node_fits(st, #[trigger] o.nodes[j], q) ==> j == i) {
        assert(found[0] == i);
        if found.len() > 1 {
            assert(found[1] == i);
        }
    }
    if (exists|j: int|
        0 <= j < o.nodes.len() && j != i && node_fits(st, #[trigger] o.nodes[j], q)) {
        let j = choose|j: int|
            0 <= j < o.nodes.len() && j != i && node_fits(st, #[trigger] o.nodes[j], q);
        assert(found.contains(j));
        let a = choose|a: int| 0 <= a < found.len() && found[a] == i;
        let b = choose|b: int| 0 <= b < found.len() && found[b] == j;
        assert(a != b);
        assert(found.len() > 1);
    }
}

/// A saved action is refused in another application or window, for another action
/// than it was saved for, for scrolling, and where no observed control fits it.
pub proof fn saved_action_is_refused_elsewhere(
    st: StateModel,
    l: LocatorModel,
    action: NativeAction,
    o: ObservationModel,
)
    ensures
        l.app_id != o.app.id ==> rebuild_place(st, l, action, o) is Err,
        wrong_window(st, l, o) ==> rebuild_place(st, l, action, o) is Err,
        l.supported_action is Some && l.supported_action != Some(action) ==> rebuild_place(
            st,
            l,
            action,
            o,
        ) is Err,
        rebuild_place(st, l, NativeAction::Scroll, o) is Err,
        (forall|j: int|
            0 <= j < o.nodes.len() ==> !node_fits(
                st,
                #[trigger] o.nodes[j],
                QueryModel::actionable(l, action),
            )) ==> rebuild_place(st, l, action, o) is Err,
        rebuild_place(st, l, action, o) matches Err(e) ==> e.0 == ErrorKind::Candidates,
{
    let q = QueryModel::actionable(l, action);
    let found = node_hits(st, o.nodes, q);
    node_hits_fit(st, o.nodes, q);
    if found.len() > 0 {
        assert(node_fits(st, o.nodes[found[0]], q));
    }
}

/// A rebuilt candidate is for the control that was found and for the saved
/// action, with the risk that the control's name tells.
pub proof fn rebuilt_candidate_is_for_the_control(
    st: StateModel,
    o: ObservationModel,
    place: int,
    action: NativeAction,
    part: Seq<char>,
)
    requires
        0 <= place < o.nodes.len(),
        node_of(st.metadata, o.nodes[place].opaque_id) is Some,
        action != NativeAction::Scroll,
    ensures
        is_for(rebuilt_candidate(st, o, place, action, part), o.nodes[place], action),
        rebuilt_candidate(st, o, place, action, part).observation_revision == o.revision,
        rebuilt_candidate(st, o, place, action, part).local_risk == semantics::risk_model(
            action,
            node_of(st.metadata, o.nodes[place].opaque_id)->Some_0.name,
            critical_words(),
        ),
        authority_fault(
            StateModel {
                locators: bind(
                    st.locators,
                    rebuilt_candidate(st, o, place, action, part).id,
                    rebuilt_bound(st, o, place, action),
                ),
                ..st
            },
            rebuilt_candidate(st, o, place, action, part),
        ) is None,
{
    let c = rebuilt_candidate(st, o, place, action, part);
    let b = rebuilt_bound(st, o, place, action);
    bound_is_found(st.locators, c.id, b, c.id);
}

/// Where an id is bound.
proof fn binding_place_is_right(s: Seq<BindingModel>, id: Seq<char>)
    ensures
        match binding_place(s, id) {
            Some(i) => 0 <= i < s.len() && s[i].id == id,
            None => forall|k: int| 0 <= k < s.len() ==> (#[trigger] s[k]).id != id,
        },
    decreases s.len(),
{
    if s.len() > 0 && s.last().id != id {
        let short = s.drop_last();
        binding_place_is_right(short, id);
        match binding_place(short, id) {
            Some(i) => {
                assert(short[i] == s[i]);
            },
            None => {
                assert forall|k: int| 0 <= k < s.len() implies (#[trigger] s[k]).id != id by {
                    if k < short.len() {
                        assert(short[k] == s[k]);
                    }
                }
            },
        }
    }
}

/// What an id is bound to is what it was bound to last; other ids keep theirs.
pub proof fn bound_is_found(s: Seq<BindingModel>, id: Seq<char>, b: BoundModel, other: Seq<char>)
    ensures
        bound_to(bind(s, id, b), id) == Some(b),
        other != id ==> bound_to(bind(s, id, b), other) == bound_to(s, other),
        bound_to(Seq::empty(), id) is None,
    decreases s.len(),
{
    binding_place_is_right(s, id);
    let new = BindingModel { id, locator: b };
    match binding_place(s, id) {
        None => {
            assert(s.push(new).drop_last() =~= s);
            binding_place_is_right(s, other);
        },
        Some(i) => {
            let t = s.update(i, new);
            let short = s.drop_last();
            binding_place_is_right(short, other);
            if i == s.len() - 1 {
                assert(t.drop_last() =~= short);
            } else {
                assert(t.drop_last() =~= short.update(i, new));
                bound_is_found(short, id, b, other);
                binding_place_is_right(t.drop_last(), id);
                binding_place_is_right(t.drop_last(), other);
            }
        },
    }
}

/// What an issued id is bound to.
proof fn issued_bindings_are_right(
    offers: Seq<OfferModel>,
    order: Seq<usize>,
    parts: Seq<Seq<char>>,
    n: int,
    k: int,
)
    requires
        0 <= k < n,
        forall|i: int, j: int|
            0 <= i < j < n ==> #[trigger] parts[i] != #[trigger] parts[j],
    ensures
        bound_to(issued_bindings(offers, order, parts, n), "uia:"@ + parts[k]) == Some(
            offers[order[k] as int].locator,
        ),
    decreases n,
{
    let before = issued_bindings(offers, order, parts, n - 1);
    let id = "uia:"@ + parts[n - 1];
    bound_is_found(before, id, offers[order[n - 1] as int].locator, "uia:"@ + parts[k]);
    if k < n - 1 {
        issued_bindings_are_right(offers, order, parts, n - 1, k);
        let l = "uia:"@.len() as int;
        assert(id.skip(l) =~= parts[n - 1]);
        assert(("uia:"@ + parts[k]).skip(l) =~= parts[k]);
        assert(parts[k] != parts[n - 1]);
    }
}

/// A candidate that was issued for an offer is accepted for it, and the action
/// that is then carried out is the one offered, on the control offered.
pub proof fn issued_candidates_are_accepted(
    st: StateModel,
    o: ObservationModel,
    goal: Seq<char>,
    order: Seq<usize>,
    parts: Seq<Seq<char>>,
    k: int,
)
    requires
        choosable(o),
        offers_model(st, o, goal, action_pairs(o.nodes)) is Ok,
        semantics::is_ranking(
            scores_of(offers_model(st, o, goal, action_pairs(o.nodes))->Ok_0),
            order,
        ),
        parts.len() == order.len() + 3,
        0 <= k < order.len(),
        forall|i: int, j: int|
            0 <= i < j < parts.len() ==> #[trigger] parts[i] != #[trigger] parts[j],
    ensures
        ({
            let offers = offers_model(st, o, goal, action_pairs(o.nodes))->Ok_0;
            let c = issued(o, offers, order, parts)[k];
            let n = order.len() as int;
            let now = StateModel { locators: issued_bindings(offers, order, parts, n), ..st };
            &&& bound_to(now.locators, c.id) is Some
            &&& is_for(c, offers[order[k] as int].node, bound_to(now.locators, c.id)->Some_0.action)
            &&& c.target == Some(bound_to(now.locators, c.id)->Some_0.target_opaque_id)
            &&& authority_fault(now, c) is None <==> c.local_risk == bound_to(
                now.locators,
                c.id,
            )->Some_0.risk
        }),
{
    let pairs = action_pairs(o.nodes);
    let offers = offers_model(st, o, goal, pairs)->Ok_0;
    let c = issued(o, offers, order, parts)[k];
    let f = offers[order[k] as int];
    issued_bindings_are_right(offers, order, parts, order.len() as int, k);
    offers_follow_the_pairs(st, o, goal, pairs);
    pairs_are_possible_actions(o.nodes);
    assert(c.id == "uia:"@ + parts[k]);
    let p = choose|p: int| 0 <= p < pairs.len() && pairs[p] == (f.node, f.locator.action);
    assert(can_act(pairs[p].0, pairs[p].1));
    let i = choose|i: int| 0 <= i < o.nodes.len() && o.nodes[i] == pairs[p].0;
    assert(!o.nodes[i].supported_actions.contains(NativeAction::Scroll));
    actions_are_bound_to_their_control(st, o, f.node.opaque_id, f.locator.action);
}

/// A candidate that was not issued, or whose target, kind or risk was changed, is
/// refused; any other is accepted.
pub proof fn changed_candidates_are_refused(st: StateModel, c: CandidateModel)
    ensures
        bound_to(st.locators, c.id) is None ==> authority_fault(st, c) is Some,
        bound_to(st.locators, c.id) matches Some(b) ==> (authority_fault(st, c) is None <==> (
        c.target == Some(b.target_opaque_id) && semantics::kind_model(b.action) == Some(c.kind)
            && c.local_risk == b.risk)),
        authority_fault(st, c) matches Some(e) ==> e.0 == ErrorKind::Execution,
{
}

/// An action is carried out on the one control of the fresh observation that
/// passes for the bound one, and only in the same application and the same
/// window, which must still be in front.
pub proof fn action_goes_to_its_control(b: BoundModel, s: SnapshotModel, live_window: Seq<char>, m: MetadataModel)
    requires
        b.role == m.role,
        b.automation_id == m.automation_id,
        b.accessible_name == m.name,
        b.ancestor_chain == m.ancestor_chain,
    ensures
        dispatch_place(b, s, live_window) is Ok <==> (s.app.id == b.app_id && s.window.id
            == b.window_id && live_window == b.window_id && told_apart(s.nodes, m, b.action)),
        dispatch_place(b, s, live_window) matches Ok(i) ==> 0 <= i < s.nodes.len() && passes_for(
            s.nodes[i],
            m,
            b.action,
        ),
        dispatch_place(b, s, live_window) matches Err(e) ==> e.0 == ErrorKind::Execution,
{
    one_hit_is_told_apart(s.nodes, b, m);
}

/// A target that is there needs no region; else the region to look in is the
/// ancestor's.
pub proof fn region_is_the_ancestors(ms: Seq<MetadataModel>, l: LocatorModel)
    ensures
        locate::replayed(profiles_of(ms), l, false) is Target ==> region_model(ms, l) == Ok::<
            Option<Seq<char>>,
            (ErrorKind, Seq<char>),
        >(None),
        locate::replayed(profiles_of(ms), l, false) matches Replay::Region(i) ==> region_model(
            ms,
            l,
        ) == Ok::<Option<Seq<char>>, (ErrorKind, Seq<char>)>(Some(ms[i as int].opaque_id)),
        locate::replayed(profiles_of(ms), l, false) is AmbiguousTarget || locate::replayed(
            profiles_of(ms),
            l,
            false,
        ) is AmbiguousRegion || locate::replayed(profiles_of(ms), l, false) is Missing
            ==> region_model(ms, l) is Err && region_model(ms, l)->Err_0.0
            == ErrorKind::Observation,
{
}

/// A fresh adapter knows nothing and starts at the first revision.
pub proof fn fresh_adapter_knows_nothing(id: Seq<char>)
    ensures
        node_of(blank_state().metadata, id) is None,
        bound_to(blank_state().locators, id) is None,
        blank_state().revision == 0,
        blank_state().last_fingerprint is None,
        blank_state().stable_window_id is None,
        blank_state().scope_root is None,
        blank_state().scope.app_id is None && blank_state().scope.window_id is None
            && blank_state().scope.subtree_id is None,
{
}

/// Pressing a control whose name holds one of these words is of the gravest kind.
pub proof fn grave_words_are_known(name: Seq<char>, word: Seq<char>)
    requires
        word == "permanently delete"@ || word == "永久删除"@ || word == "delete account"@ || word == "remove account"@ || word == "close account"@ || word == "注销账户"@ || word == "注销账号"@ || word == "删除账户"@ || word == "删除账号"@ || word == "delete all data"@ || word == "erase all data"@ || word == "wipe all data"@ || word == "清除所有数据"@ || word == "删除所有数据"@ || word == "factory reset"@ || word == "restore factory settings"@ || word == "恢复出厂设置"@ || word == "format drive"@ || word == "format disk"@ || word == "格式化磁盘"@ || word == "格式化驱动器"@ || word == "purchase"@ || word == "confirm purchase"@ || word == "place order"@ || word == "confirm order"@ || word == "支付"@ || word == "确认支付"@ || word == "立即付款"@ || word == "提交订单"@ || word == "buy now"@ || word == "transfer funds"@ || word == "wire transfer"@ || word == "confirm transfer"@ || word == "转账"@ || word == "确认转账"@ || word == "grant permission"@ || word == "allow access"@ || word == "授予权限"@ || word == "允许访问"@ || word == "security settings"@ || word == "安全设置"@,
        text::has_part(text::lowercased(name), word),
    ensures
        semantics::risk_model(NativeAction::Invoke, Some(name), critical_words())
            == RiskClass::DestructiveCritical,
{
    let ws = critical_words();
    assert(ws[0] == "permanently delete"@);
    assert(ws[1] == "永久删除"@);
    assert(ws[2] == "delete account"@);
    assert(ws[3] == "remove account"@);
    assert(ws[4] == "close account"@);
    assert(ws[5] == "注销账户"@);
    assert(ws[6] == "注销账号"@);
    assert(ws[7] == "删除账户"@);
    assert(ws[8] == "删除账号"@);
    assert(ws[9] == "delete all data"@);
    assert(ws[10] == "erase all data"@);
    assert(ws[11] == "wipe all data"@);
    assert(ws[12] == "清除所有数据"@);
    assert(ws[13] == "删除所有数据"@);
    assert(ws[14] == "factory reset"@);
    assert(ws[15] == "restore factory settings"@);
    assert(ws[16] == "恢复出厂设置"@);
    assert(ws[17] == "format drive"@);
    assert(ws[18] == "format disk"@);
    assert(ws[19] == "格式化磁盘"@);
    assert(ws[20] == "格式化驱动器"@);
    assert(ws[21] == "purchase"@);
    assert(ws[22] == "confirm purchase"@);
    assert(ws[23] == "place order"@);
    assert(ws[24] == "confirm order"@);
    assert(ws[25] == "支付"@);
    assert(ws[26] == "确认支付"@);
    assert(ws[27] == "立即付款"@);
    assert(ws[28] == "提交订单"@);
    assert(ws[29] == "buy now"@);
    assert(ws[30] == "transfer funds"@);
    assert(ws[31] == "wire transfer"@);
    assert(ws[32] == "confirm transfer"@);
    assert(ws[33] == "转账"@);
    assert(ws[34] == "确认转账"@);
    assert(ws[35] == "grant permission"@);
    assert(ws[36] == "allow access"@);
    assert(ws[37] == "授予权限"@);
    assert(ws[38] == "允许访问"@);
    assert(ws[39] == "security settings"@);
    assert(ws[40] == "安全设置"@);
    let k = choose|k: int| 0 <= k < ws.len() && #[trigger] ws[k] == word;
    assert(text::has_part(text::lowercased(name), ws[k]));
}

/// Pressing a control whose name holds none of the known words is not.
pub proof fn other_names_are_not_grave(name: Seq<char>)
    requires
        forall|word: Seq<char>| (word == "permanently delete"@ || word == "永久删除"@ || word == "delete account"@ || word == "remove account"@ || word == "close account"@ || word == "注销账户"@ || word == "注销账号"@ || word == "删除账户"@ || word == "删除账号"@ || word == "delete all data"@ || word == "erase all data"@ || word == "wipe all data"@ || word == "清除所有数据"@ || word == "删除所有数据"@ || word == "factory reset"@ || word == "restore factory settings"@ || word == "恢复出厂设置"@ || word == "format drive"@ || word == "format disk"@ || word == "格式化磁盘"@ || word == "格式化驱动器"@ || word == "purchase"@ || word == "confirm purchase"@ || word == "place order"@ || word == "confirm order"@ || word == "支付"@ || word == "确认支付"@ || word == "立即付款"@ || word == "提交订单"@ || word == "buy now"@ || word == "transfer funds"@ || word == "wire transfer"@ || word == "confirm transfer"@ || word == "转账"@ || word == "确认转账"@ || word == "grant permission"@ || word == "allow access"@ || word == "授予权限"@ || word == "允许访问"@ || word == "security settings"@ || word == "安全设置"@)
            ==> !#[trigger] text::has_part(text::lowercased(name), word),
    ensures
        semantics::risk_model(NativeAction::Invoke, Some(name), critical_words())
            != RiskClass::DestructiveCritical,
{
    let ws = critical_words();
    assert(ws[0] == "permanently delete"@);
    assert(ws[1] == "永久删除"@);
    assert(ws[2] == "delete account"@);
    assert(ws[3] == "remove account"@);
    assert(ws[4] == "close account"@);
    assert(ws[5] == "注销账户"@);
    assert(ws[6] == "注销账号"@);
    assert(ws[7] == "删除账户"@);
    assert(ws[8] == "删除账号"@);
    assert(ws[9] == "delete all data"@);
    assert(ws[10] == "erase all data"@);
    assert(ws[11] == "wipe all data"@);
    assert(ws[12] == "清除所有数据"@);
    assert(ws[13] == "删除所有数据"@);
    assert(ws[14] == "factory reset"@);
    assert(ws[15] == "restore factory settings"@);
    assert(ws[16] == "恢复出厂设置"@);
    assert(ws[17] == "format drive"@);
    assert(ws[18] == "format disk"@);
    assert(ws[19] == "格式化磁盘"@);
    assert(ws[20] == "格式化驱动器"@);
    assert(ws[21] == "purchase"@);
    assert(ws[22] == "confirm purchase"@);
    assert(ws[23] == "place order"@);
    assert(ws[24] == "confirm order"@);
    assert(ws[25] == "支付"@);
    assert(ws[26] == "确认支付"@);
    assert(ws[27] == "立即付款"@);
    assert(ws[28] == "提交订单"@);
    assert(ws[29] == "buy now"@);
    assert(ws[30] == "transfer funds"@);
    assert(ws[31] == "wire transfer"@);
    assert(ws[32] == "confirm transfer"@);
    assert(ws[33] == "转账"@);
    assert(ws[34] == "确认转账"@);
    assert(ws[35] == "grant permission"@);
    assert(ws[36] == "allow access"@);
    assert(ws[37] == "授予权限"@);
    assert(ws[38] == "允许访问"@);
    assert(ws[39] == "security settings"@);
    assert(ws[40] == "安全设置"@);
    let low = text::lowercased(name);
    if semantics::mentions(low, ws) {
        let k = choose|k: int| 0 <= k < ws.len() && text::has_part(low, #[trigger] ws[k]);
        assert(text::has_part(low, ws[k]));
    }
}

} // verus!
