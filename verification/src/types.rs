//! The vocabulary of desktop automation: what is observed, which actions are
//! offered, and what a run reports.
use vstd::prelude::*;

use crate::model;
use crate::model::{copy_all, copy_opt, same_all, same_opt, Plain};
use crate::text::{owned, same_text};

verus! {

/// The role of a control.
#[derive(Debug, Clone, Copy, PartialEq, Eq, Structural)]
pub enum UiRole {
    Window,
    Button,
    TextField,
    CheckBox,
    RadioButton,
    List,
    ListItem,
    Menu,
    MenuItem,
    Tab,
    Document,
    Other,
}

impl View for UiRole {
    type V = UiRole;

    open spec fn view(&self) -> UiRole {
        *self
    }
}

impl Plain for UiRole {
    fn copied(&self) -> (r: Self) {
        *self
    }

    fn same(&self, other: &Self) -> (r: bool) {
        *self == *other
    }
}

/// An action that a control can offer.
#[derive(Debug, Clone, Copy, PartialEq, Eq, Structural)]
pub enum NativeAction {
    Invoke,
    Toggle,
    Select,
    Expand,
    Collapse,
    Focus,
    SetValue,
    Scroll,
}

impl View for NativeAction {
    type V = NativeAction;

    open spec fn view(&self) -> NativeAction {
        *self
    }
}

impl Plain for NativeAction {
    fn copied(&self) -> (r: Self) {
        *self
    }

    fn same(&self, other: &Self) -> (r: bool) {
        *self == *other
    }
}

/// How far the effect of an action reaches.
#[derive(Debug, Clone, Copy, PartialEq, Eq, Structural)]
pub enum RiskClass {
    ReadOnly,
    Reversible,
    BoundedWrite,
    ExternalCommit,
    DestructiveCritical,
}

impl View for RiskClass {
    type V = RiskClass;

    open spec fn view(&self) -> RiskClass {
        *self
    }
}

impl Plain for RiskClass {
    fn copied(&self) -> (r: Self) {
        *self
    }

    fn same(&self, other: &Self) -> (r: bool) {
        *self == *other
    }
}

/// What a check after an action found.
#[derive(Debug, Clone, Copy, PartialEq, Eq, Structural)]
pub enum Verification {
    Achieved,
    Progress,
    NoChange,
    Unexpected,
    Unknown,
}

impl View for Verification {
    type V = Verification;

    open spec fn view(&self) -> Verification {
        *self
    }
}

impl Plain for Verification {
    fn copied(&self) -> (r: Self) {
        *self
    }

    fn same(&self, other: &Self) -> (r: bool) {
        *self == *other
    }
}

/// How a run ended.
#[derive(Debug, Clone, Copy, PartialEq, Eq, Structural)]
pub enum RunStatus {
    Completed,
    NeedsAttention,
    WaitingForUser,
    FailedSafely,
    BudgetExceeded,
}

impl View for RunStatus {
    type V = RunStatus;

    open spec fn view(&self) -> RunStatus {
        *self
    }
}

impl Plain for RunStatus {
    fn copied(&self) -> (r: Self) {
        *self
    }

    fn same(&self, other: &Self) -> (r: bool) {
        *self == *other
    }
}

/// What a trace entry records.
#[derive(Debug, Clone, Copy, PartialEq, Eq, Structural)]
pub enum TraceEventKind {
    SoftBudgetReached,
    Observed,
    CandidatesBuilt,
    DecisionMade,
    PolicyAllowed,
    StaleObservation,
    Executed,
    Reconciled,
    Verified,
    Stopped,
}

impl View for TraceEventKind {
    type V = TraceEventKind;

    open spec fn view(&self) -> TraceEventKind {
        *self
    }
}

impl Plain for TraceEventKind {
    fn copied(&self) -> (r: Self) {
        *self
    }

    fn same(&self, other: &Self) -> (r: bool) {
        *self == *other
    }
}

/// Whether an action reaches the desktop or only steers the run.
#[derive(Debug, Clone, Copy, PartialEq, Eq, Structural)]
pub enum ActionClass {
    NativeAction,
    Control,
}

impl View for ActionClass {
    type V = ActionClass;

    open spec fn view(&self) -> ActionClass {
        *self
    }
}

impl Plain for ActionClass {
    fn copied(&self) -> (r: Self) {
        *self
    }

    fn same(&self, other: &Self) -> (r: bool) {
        *self == *other
    }
}

/// The stage at which automation failed.
#[derive(Debug, Clone, Copy, PartialEq, Eq, Structural)]
pub enum ErrorKind {
    Observation,
    Candidates,
    Execution,
    EnhancedUnavailable,
    UnknownCandidate,
    Decision,
    Protocol,
}

impl View for ErrorKind {
    type V = ErrorKind;

    open spec fn view(&self) -> ErrorKind {
        *self
    }
}

impl Plain for ErrorKind {
    fn copied(&self) -> (r: Self) {
        *self
    }

    fn same(&self, other: &Self) -> (r: bool) {
        *self == *other
    }
}

/// What a platform adapter can do.
#[derive(Debug, Clone, Copy, PartialEq, Eq, Structural)]
pub enum PlatformCapability {
    ReadSemanticTree,
    NativeAction,
    WriteValue,
}

impl View for PlatformCapability {
    type V = PlatformCapability;

    open spec fn view(&self) -> PlatformCapability {
        *self
    }
}

impl Plain for PlatformCapability {
    fn copied(&self) -> (r: Self) {
        *self
    }

    fn same(&self, other: &Self) -> (r: bool) {
        *self == *other
    }
}

/// A stable description of one ancestor of a control.
#[derive(Debug, Clone, PartialEq, Eq)]
pub struct SemanticContext {
    pub role: Option<UiRole>,
    pub automation_id: Option<String>,
    pub accessible_name: Option<String>,
}

/// The content of a [`SemanticContext`].
#[verifier::ext_equal]
pub struct ContextModel {
    pub role: Option<UiRole>,
    pub automation_id: Option<Seq<char>>,
    pub accessible_name: Option<Seq<char>>,
}

impl View for SemanticContext {
    type V = ContextModel;

    open spec fn view(&self) -> ContextModel {
        ContextModel {
            role: model::opt_view(self.role),
            automation_id: model::opt_view(self.automation_id),
            accessible_name: model::opt_view(self.accessible_name),
        }
    }
}

impl Plain for SemanticContext {
    fn copied(&self) -> (r: Self) {
        SemanticContext {
            role: copy_opt(&self.role),
            automation_id: copy_opt(&self.automation_id),
            accessible_name: copy_opt(&self.accessible_name),
        }
    }

    fn same(&self, other: &Self) -> (r: bool) {
        same_opt(&self.role, &other.role)
            && same_opt(&self.automation_id, &other.automation_id)
            && same_opt(&self.accessible_name, &other.accessible_name)
    }
}

/// A control as it is shown to decision providers.
#[derive(Debug, Clone, PartialEq, Eq)]
pub struct UiNode {
    pub opaque_id: String,
    pub semantic_key: Option<String>,
    pub role: UiRole,
    pub name: Option<String>,
    pub short_value: Option<String>,
    pub enabled: bool,
    pub visible: bool,
    pub focused: bool,
    pub secure: bool,
    pub toggled: Option<bool>,
    pub selected: Option<bool>,
    pub expanded: Option<bool>,
    pub value_fingerprint: Option<String>,
    pub supported_actions: Vec<NativeAction>,
}

/// The content of a [`UiNode`].
#[verifier::ext_equal]
pub struct NodeModel {
    pub opaque_id: Seq<char>,
    pub semantic_key: Option<Seq<char>>,
    pub role: UiRole,
    pub name: Option<Seq<char>>,
    pub short_value: Option<Seq<char>>,
    pub enabled: bool,
    pub visible: bool,
    pub focused: bool,
    pub secure: bool,
    pub toggled: Option<bool>,
    pub selected: Option<bool>,
    pub expanded: Option<bool>,
    pub value_fingerprint: Option<Seq<char>>,
    pub supported_actions: Seq<NativeAction>,
}

impl View for UiNode {
    type V = NodeModel;

    open spec fn view(&self) -> NodeModel {
        NodeModel {
            opaque_id: self.opaque_id@,
            semantic_key: model::opt_view(self.semantic_key),
            role: self.role,
            name: model::opt_view(self.name),
            short_value: model::opt_view(self.short_value),
            enabled: self.enabled,
            visible: self.visible,
            focused: self.focused,
            secure: self.secure,
            toggled: self.toggled,
            selected: self.selected,
            expanded: self.expanded,
            value_fingerprint: model::opt_view(self.value_fingerprint),
            supported_actions: model::seq_view(self.supported_actions@),
        }
    }
}

impl Plain for UiNode {
    fn copied(&self) -> (r: Self) {
        UiNode {
            opaque_id: self.opaque_id.clone(),
            semantic_key: copy_opt(&self.semantic_key),
            role: self.role,
            name: copy_opt(&self.name),
            short_value: copy_opt(&self.short_value),
            enabled: self.enabled,
            visible: self.visible,
            focused: self.focused,
            secure: self.secure,
            toggled: self.toggled,
            selected: self.selected,
            expanded: self.expanded,
            value_fingerprint: copy_opt(&self.value_fingerprint),
            supported_actions: copy_all(&self.supported_actions),
        }
    }

    fn same(&self, other: &Self) -> (r: bool) {
        same_text(self.opaque_id.as_str(), other.opaque_id.as_str())
            && same_opt(&self.semantic_key, &other.semantic_key)
            && self.role == other.role
            && same_opt(&self.name, &other.name)
            && same_opt(&self.short_value, &other.short_value)
            && self.enabled == other.enabled
            && self.visible == other.visible
            && self.focused == other.focused
            && self.secure == other.secure
            && self.toggled == other.toggled
            && self.selected == other.selected
            && self.expanded == other.expanded
            && same_opt(&self.value_fingerprint, &other.value_fingerprint)
            && same_all(&self.supported_actions, &other.supported_actions)
    }
}

/// Which application is in front.
#[derive(Debug, Clone, PartialEq, Eq)]
pub struct AppIdentity {
    pub id: String,
    pub display_name: String,
}

/// The content of an [`AppIdentity`].
#[verifier::ext_equal]
pub struct AppModel {
    pub id: Seq<char>,
    pub display_name: Seq<char>,
}

impl View for AppIdentity {
    type V = AppModel;

    open spec fn view(&self) -> AppModel {
        AppModel {
            id: self.id@,
            display_name: self.display_name@,
        }
    }
}

impl Plain for AppIdentity {
    fn copied(&self) -> (r: Self) {
        AppIdentity {
            id: self.id.clone(),
            display_name: self.display_name.clone(),
        }
    }

    fn same(&self, other: &Self) -> (r: bool) {
        same_text(self.id.as_str(), other.id.as_str())
            && same_text(self.display_name.as_str(), other.display_name.as_str())
    }
}

/// Which window is in front.
#[derive(Debug, Clone, PartialEq, Eq)]
pub struct WindowIdentity {
    pub id: String,
    pub title: String,
}

/// The content of a [`WindowIdentity`].
#[verifier::ext_equal]
pub struct WindowModel {
    pub id: Seq<char>,
    pub title: Seq<char>,
}

impl View for WindowIdentity {
    type V = WindowModel;

    open spec fn view(&self) -> WindowModel {
        WindowModel {
            id: self.id@,
            title: self.title@,
        }
    }
}

impl Plain for WindowIdentity {
    fn copied(&self) -> (r: Self) {
        WindowIdentity {
            id: self.id.clone(),
            title: self.title.clone(),
        }
    }

    fn same(&self, other: &Self) -> (r: bool) {
        same_text(self.id.as_str(), other.id.as_str())
            && same_text(self.title.as_str(), other.title.as_str())
    }
}

/// One bounded reading of the desktop.
#[derive(Debug, Clone, PartialEq, Eq)]
pub struct Observation {
    pub revision: u64,
    pub fingerprint: String,
    pub app: AppIdentity,
    pub window: WindowIdentity,
    pub nodes: Vec<UiNode>,
    pub captured_at_ms: u64,
    pub truncated: bool,
}

/// The content of an [`Observation`].
#[verifier::ext_equal]
pub struct ObservationModel {
    pub revision: u64,
    pub fingerprint: Seq<char>,
    pub app: AppModel,
    pub window: WindowModel,
    pub nodes: Seq<NodeModel>,
    pub captured_at_ms: u64,
    pub truncated: bool,
}

impl View for Observation {
    type V = ObservationModel;

    open spec fn view(&self) -> ObservationModel {
        ObservationModel {
            revision: self.revision,
            fingerprint: self.fingerprint@,
            app: self.app@,
            window: self.window@,
            nodes: model::seq_view(self.nodes@),
            captured_at_ms: self.captured_at_ms,
            truncated: self.truncated,
        }
    }
}

impl Plain for Observation {
    fn copied(&self) -> (r: Self) {
        Observation {
            revision: self.revision,
            fingerprint: self.fingerprint.clone(),
            app: self.app.copied(),
            window: self.window.copied(),
            nodes: copy_all(&self.nodes),
            captured_at_ms: self.captured_at_ms,
            truncated: self.truncated,
        }
    }

    fn same(&self, other: &Self) -> (r: bool) {
        self.revision == other.revision
            && same_text(self.fingerprint.as_str(), other.fingerprint.as_str())
            && self.app.same(&other.app)
            && self.window.same(&other.window)
            && same_all(&self.nodes, &other.nodes)
            && self.captured_at_ms == other.captured_at_ms
            && self.truncated == other.truncated
    }
}

/// What part of the desktop to read.
#[derive(Debug, Clone, PartialEq, Eq)]
pub struct ObservationScope {
    pub app_id: Option<String>,
    pub window_id: Option<String>,
    pub subtree_id: Option<String>,
}

/// The content of an [`ObservationScope`].
#[verifier::ext_equal]
pub struct ScopeModel {
    pub app_id: Option<Seq<char>>,
    pub window_id: Option<Seq<char>>,
    pub subtree_id: Option<Seq<char>>,
}

impl View for ObservationScope {
    type V = ScopeModel;

    open spec fn view(&self) -> ScopeModel {
        ScopeModel {
            app_id: model::opt_view(self.app_id),
            window_id: model::opt_view(self.window_id),
            subtree_id: model::opt_view(self.subtree_id),
        }
    }
}

impl Plain for ObservationScope {
    fn copied(&self) -> (r: Self) {
        ObservationScope {
            app_id: copy_opt(&self.app_id),
            window_id: copy_opt(&self.window_id),
            subtree_id: copy_opt(&self.subtree_id),
        }
    }

    fn same(&self, other: &Self) -> (r: bool) {
        same_opt(&self.app_id, &other.app_id)
            && same_opt(&self.window_id, &other.window_id)
            && same_opt(&self.subtree_id, &other.subtree_id)
    }
}

/// A control as it is saved: stable semantics only, no runtime id.
#[derive(Debug, Clone, PartialEq, Eq)]
pub struct SemanticLocator {
    pub app_id: String,
    pub window_id: Option<String>,
    pub window_title: Option<String>,
    pub role: Option<UiRole>,
    pub automation_id: Option<String>,
    pub accessible_name: Option<String>,
    pub ancestor_chain: Vec<SemanticContext>,
    pub supported_action: Option<NativeAction>,
    pub ordinal_hint: Option<u16>,
}

/// The content of a [`SemanticLocator`].
#[verifier::ext_equal]
pub struct LocatorModel {
    pub app_id: Seq<char>,
    pub window_id: Option<Seq<char>>,
    pub window_title: Option<Seq<char>>,
    pub role: Option<UiRole>,
    pub automation_id: Option<Seq<char>>,
    pub accessible_name: Option<Seq<char>>,
    pub ancestor_chain: Seq<ContextModel>,
    pub supported_action: Option<NativeAction>,
    pub ordinal_hint: Option<u16>,
}

impl View for SemanticLocator {
    type V = LocatorModel;

    open spec fn view(&self) -> LocatorModel {
        LocatorModel {
            app_id: self.app_id@,
            window_id: model::opt_view(self.window_id),
            window_title: model::opt_view(self.window_title),
            role: model::opt_view(self.role),
            automation_id: model::opt_view(self.automation_id),
            accessible_name: model::opt_view(self.accessible_name),
            ancestor_chain: model::seq_view(self.ancestor_chain@),
            supported_action: model::opt_view(self.supported_action),
            ordinal_hint: self.ordinal_hint,
        }
    }
}

impl Plain for SemanticLocator {
    fn copied(&self) -> (r: Self) {
        SemanticLocator {
            app_id: self.app_id.clone(),
            window_id: copy_opt(&self.window_id),
            window_title: copy_opt(&self.window_title),
            role: copy_opt(&self.role),
            automation_id: copy_opt(&self.automation_id),
            accessible_name: copy_opt(&self.accessible_name),
            ancestor_chain: copy_all(&self.ancestor_chain),
            supported_action: copy_opt(&self.supported_action),
            ordinal_hint: self.ordinal_hint,
        }
    }

    fn same(&self, other: &Self) -> (r: bool) {
        same_text(self.app_id.as_str(), other.app_id.as_str())
            && same_opt(&self.window_id, &other.window_id)
            && same_opt(&self.window_title, &other.window_title)
            && same_opt(&self.role, &other.role)
            && same_opt(&self.automation_id, &other.automation_id)
            && same_opt(&self.accessible_name, &other.accessible_name)
            && same_all(&self.ancestor_chain, &other.ancestor_chain)
            && same_opt(&self.supported_action, &other.supported_action)
            && self.ordinal_hint == other.ordinal_hint
    }
}

/// One named argument of a predicate.
#[derive(Debug, Clone, PartialEq, Eq)]
pub struct Argument {
    pub key: String,
    pub value: String,
}

/// The content of an [`Argument`].
#[verifier::ext_equal]
pub struct ArgumentModel {
    pub key: Seq<char>,
    pub value: Seq<char>,
}

impl View for Argument {
    type V = ArgumentModel;

    open spec fn view(&self) -> ArgumentModel {
        ArgumentModel {
            key: self.key@,
            value: self.value@,
        }
    }
}

impl Plain for Argument {
    fn copied(&self) -> (r: Self) {
        Argument {
            key: self.key.clone(),
            value: self.value.clone(),
        }
    }

    fn same(&self, other: &Self) -> (r: bool) {
        same_text(self.key.as_str(), other.key.as_str())
            && same_text(self.value.as_str(), other.value.as_str())
    }
}

/// A named condition on the desktop.
#[derive(Debug, Clone, PartialEq, Eq)]
pub struct Predicate {
    pub name: String,
    pub arguments: Vec<Argument>,
}

/// The content of a [`Predicate`].
#[verifier::ext_equal]
pub struct PredicateModel {
    pub name: Seq<char>,
    pub arguments: Seq<ArgumentModel>,
}

impl View for Predicate {
    type V = PredicateModel;

    open spec fn view(&self) -> PredicateModel {
        PredicateModel {
            name: self.name@,
            arguments: model::seq_view(self.arguments@),
        }
    }
}

impl Plain for Predicate {
    fn copied(&self) -> (r: Self) {
        Predicate {
            name: self.name.clone(),
            arguments: copy_all(&self.arguments),
        }
    }

    fn same(&self, other: &Self) -> (r: bool) {
        same_text(self.name.as_str(), other.name.as_str())
            && same_all(&self.arguments, &other.arguments)
    }
}

/// What choosing a candidate means.
#[derive(Debug, Clone, PartialEq, Eq)]
pub enum CandidateKind {
    Invoke,
    Toggle,
    Select,
    Expand,
    Collapse,
    Focus,
    SetValue { slot_id: String },
    Done,
    AskUser,
    CannotProceed,
}

/// The content of a [`CandidateKind`].
#[verifier::ext_equal]
pub enum KindModel {
    Invoke,
    Toggle,
    Select,
    Expand,
    Collapse,
    Focus,
    SetValue(Seq<char>),
    Done,
    AskUser,
    CannotProceed,
}

impl View for CandidateKind {
    type V = KindModel;

    open spec fn view(&self) -> KindModel {
        match self {
            CandidateKind::Invoke => KindModel::Invoke,
            CandidateKind::Toggle => KindModel::Toggle,
            CandidateKind::Select => KindModel::Select,
            CandidateKind::Expand => KindModel::Expand,
            CandidateKind::Collapse => KindModel::Collapse,
            CandidateKind::Focus => KindModel::Focus,
            CandidateKind::SetValue { slot_id } => KindModel::SetValue(slot_id@),
            CandidateKind::Done => KindModel::Done,
            CandidateKind::AskUser => KindModel::AskUser,
            CandidateKind::CannotProceed => KindModel::CannotProceed,
        }
    }
}

impl Plain for CandidateKind {
    fn copied(&self) -> (r: Self) {
        match self {
            CandidateKind::Invoke => CandidateKind::Invoke,
            CandidateKind::Toggle => CandidateKind::Toggle,
            CandidateKind::Select => CandidateKind::Select,
            CandidateKind::Expand => CandidateKind::Expand,
            CandidateKind::Collapse => CandidateKind::Collapse,
            CandidateKind::Focus => CandidateKind::Focus,
            CandidateKind::SetValue { slot_id } => CandidateKind::SetValue { slot_id: slot_id.clone() },
            CandidateKind::Done => CandidateKind::Done,
            CandidateKind::AskUser => CandidateKind::AskUser,
            CandidateKind::CannotProceed => CandidateKind::CannotProceed,
        }
    }

    fn same(&self, other: &Self) -> (r: bool) {
        match (self, other) {
            (CandidateKind::Invoke, CandidateKind::Invoke) => true,
            (CandidateKind::Toggle, CandidateKind::Toggle) => true,
            (CandidateKind::Select, CandidateKind::Select) => true,
            (CandidateKind::Expand, CandidateKind::Expand) => true,
            (CandidateKind::Collapse, CandidateKind::Collapse) => true,
            (CandidateKind::Focus, CandidateKind::Focus) => true,
            (CandidateKind::SetValue { slot_id: a }, CandidateKind::SetValue { slot_id: b }) => {
                same_text(a.as_str(), b.as_str())
            },
            (CandidateKind::Done, CandidateKind::Done) => true,
            (CandidateKind::AskUser, CandidateKind::AskUser) => true,
            (CandidateKind::CannotProceed, CandidateKind::CannotProceed) => true,
            _ => false,
        }
    }
}

/// An action offered for one observation.
#[derive(Debug, Clone, PartialEq, Eq)]
pub struct ActionCandidate {
    pub id: String,
    pub observation_revision: u64,
    pub target: Option<String>,
    pub kind: CandidateKind,
    pub public_description: String,
    pub local_risk: RiskClass,
    pub preconditions: Vec<Predicate>,
    pub expected_effects: Vec<Predicate>,
}

/// The content of an [`ActionCandidate`].
#[verifier::ext_equal]
pub struct CandidateModel {
    pub id: Seq<char>,
    pub observation_revision: u64,
    pub target: Option<Seq<char>>,
    pub kind: KindModel,
    pub public_description: Seq<char>,
    pub local_risk: RiskClass,
    pub preconditions: Seq<PredicateModel>,
    pub expected_effects: Seq<PredicateModel>,
}

impl View for ActionCandidate {
    type V = CandidateModel;

    open spec fn view(&self) -> CandidateModel {
        CandidateModel {
            id: self.id@,
            observation_revision: self.observation_revision,
            target: model::opt_view(self.target),
            kind: self.kind@,
            public_description: self.public_description@,
            local_risk: self.local_risk,
            preconditions: model::seq_view(self.preconditions@),
            expected_effects: model::seq_view(self.expected_effects@),
        }
    }
}

impl Plain for ActionCandidate {
    fn copied(&self) -> (r: Self) {
        ActionCandidate {
            id: self.id.clone(),
            observation_revision: self.observation_revision,
            target: copy_opt(&self.target),
            kind: self.kind.copied(),
            public_description: self.public_description.clone(),
            local_risk: self.local_risk,
            preconditions: copy_all(&self.preconditions),
            expected_effects: copy_all(&self.expected_effects),
        }
    }

    fn same(&self, other: &Self) -> (r: bool) {
        same_text(self.id.as_str(), other.id.as_str())
            && self.observation_revision == other.observation_revision
            && same_opt(&self.target, &other.target)
            && self.kind.same(&other.kind)
            && same_text(self.public_description.as_str(), other.public_description.as_str())
            && self.local_risk == other.local_risk
            && same_all(&self.preconditions, &other.preconditions)
            && same_all(&self.expected_effects, &other.expected_effects)
    }
}

/// What an executor reports of a dispatched action.
#[derive(Debug, Clone, PartialEq, Eq)]
pub struct ActionReceipt {
    pub candidate_id: String,
    pub dispatched: bool,
    pub detail: Option<String>,
}

/// The content of an [`ActionReceipt`].
#[verifier::ext_equal]
pub struct ReceiptModel {
    pub candidate_id: Seq<char>,
    pub dispatched: bool,
    pub detail: Option<Seq<char>>,
}

impl View for ActionReceipt {
    type V = ReceiptModel;

    open spec fn view(&self) -> ReceiptModel {
        ReceiptModel {
            candidate_id: self.candidate_id@,
            dispatched: self.dispatched,
            detail: model::opt_view(self.detail),
        }
    }
}

impl Plain for ActionReceipt {
    fn copied(&self) -> (r: Self) {
        ActionReceipt {
            candidate_id: self.candidate_id.clone(),
            dispatched: self.dispatched,
            detail: copy_opt(&self.detail),
        }
    }

    fn same(&self, other: &Self) -> (r: bool) {
        same_text(self.candidate_id.as_str(), other.candidate_id.as_str())
            && self.dispatched == other.dispatched
            && same_opt(&self.detail, &other.detail)
    }
}

/// One entry of a run's trace.
#[derive(Debug, Clone, PartialEq, Eq)]
pub struct TraceEvent {
    pub kind: TraceEventKind,
    pub observation_revision: Option<u64>,
    pub candidate_id: Option<String>,
    pub detail: String,
}

/// The content of a [`TraceEvent`].
#[verifier::ext_equal]
pub struct TraceModel {
    pub kind: TraceEventKind,
    pub observation_revision: Option<u64>,
    pub candidate_id: Option<Seq<char>>,
    pub detail: Seq<char>,
}

impl View for TraceEvent {
    type V = TraceModel;

    open spec fn view(&self) -> TraceModel {
        TraceModel {
            kind: self.kind,
            observation_revision: self.observation_revision,
            candidate_id: model::opt_view(self.candidate_id),
            detail: self.detail@,
        }
    }
}

impl Plain for TraceEvent {
    fn copied(&self) -> (r: Self) {
        TraceEvent {
            kind: self.kind,
            observation_revision: self.observation_revision,
            candidate_id: copy_opt(&self.candidate_id),
            detail: self.detail.clone(),
        }
    }

    fn same(&self, other: &Self) -> (r: bool) {
        self.kind == other.kind
            && self.observation_revision == other.observation_revision
            && same_opt(&self.candidate_id, &other.candidate_id)
            && same_text(self.detail.as_str(), other.detail.as_str())
    }
}

/// A short record of an action that was taken.
#[derive(Debug, Clone, PartialEq, Eq)]
pub struct RecentAction {
    pub action_class: ActionClass,
    pub target_summary: String,
    pub verification: Verification,
}

/// The content of a [`RecentAction`].
#[verifier::ext_equal]
pub struct RecentModel {
    pub action_class: ActionClass,
    pub target_summary: Seq<char>,
    pub verification: Verification,
}

impl View for RecentAction {
    type V = RecentModel;

    open spec fn view(&self) -> RecentModel {
        RecentModel {
            action_class: self.action_class,
            target_summary: self.target_summary@,
            verification: self.verification,
        }
    }
}

impl Plain for RecentAction {
    fn copied(&self) -> (r: Self) {
        RecentAction {
            action_class: self.action_class,
            target_summary: self.target_summary.clone(),
            verification: self.verification,
        }
    }

    fn same(&self, other: &Self) -> (r: bool) {
        self.action_class == other.action_class
            && same_text(self.target_summary.as_str(), other.target_summary.as_str())
            && self.verification == other.verification
    }
}

/// Why automation failed.
#[derive(Debug, Clone, PartialEq, Eq)]
pub enum AutomationError {
    Observation(String),
    Candidates(String),
    Execution(String),
    EnhancedUnavailable(String),
    UnknownCandidate(String),
    Decision(String),
    Protocol(String),
}

impl View for AutomationError {
    type V = (ErrorKind, Seq<char>);

    open spec fn view(&self) -> (ErrorKind, Seq<char>) {
        match self {
            AutomationError::Observation(s) => (ErrorKind::Observation, s@),
            AutomationError::Candidates(s) => (ErrorKind::Candidates, s@),
            AutomationError::Execution(s) => (ErrorKind::Execution, s@),
            AutomationError::EnhancedUnavailable(s) => (ErrorKind::EnhancedUnavailable, s@),
            AutomationError::UnknownCandidate(s) => (ErrorKind::UnknownCandidate, s@),
            AutomationError::Decision(s) => (ErrorKind::Decision, s@),
            AutomationError::Protocol(s) => (ErrorKind::Protocol, s@),
        }
    }
}

impl AutomationError {
    /// The words that say what went wrong.
    pub fn detail(&self) -> (r: &str)
        ensures
            r@ == self@.1,
    {
        match self {
            AutomationError::Observation(s) => s.as_str(),
            AutomationError::Candidates(s) => s.as_str(),
            AutomationError::Execution(s) => s.as_str(),
            AutomationError::EnhancedUnavailable(s) => s.as_str(),
            AutomationError::UnknownCandidate(s) => s.as_str(),
            AutomationError::Decision(s) => s.as_str(),
            AutomationError::Protocol(s) => s.as_str(),
        }
    }

    /// An error of the observing stage.
    pub fn observation(detail: &str) -> (r: Self)
        ensures
            r@ == (ErrorKind::Observation, detail@),
    {
        AutomationError::Observation(owned(detail))
    }

    /// An error of the stage that builds candidates.
    pub fn candidates(detail: &str) -> (r: Self)
        ensures
            r@ == (ErrorKind::Candidates, detail@),
    {
        AutomationError::Candidates(owned(detail))
    }

    /// An error of the executing stage.
    pub fn execution(detail: &str) -> (r: Self)
        ensures
            r@ == (ErrorKind::Execution, detail@),
    {
        AutomationError::Execution(owned(detail))
    }
}

impl NativeAction {
    /// The action's name as it is shown.
    pub open spec fn label(self) -> Seq<char> {
        match self {
            NativeAction::Invoke => "Invoke"@,
            NativeAction::Toggle => "Toggle"@,
            NativeAction::Select => "Select"@,
            NativeAction::Expand => "Expand"@,
            NativeAction::Collapse => "Collapse"@,
            NativeAction::Focus => "Focus"@,
            NativeAction::SetValue => "SetValue"@,
            NativeAction::Scroll => "Scroll"@,
        }
    }

    /// The action's name as it is shown.
    pub fn name(&self) -> (r: &'static str)
        ensures
            r@ == self.label(),
    {
        match self {
            NativeAction::Invoke => "Invoke",
            NativeAction::Toggle => "Toggle",
            NativeAction::Select => "Select",
            NativeAction::Expand => "Expand",
            NativeAction::Collapse => "Collapse",
            NativeAction::Focus => "Focus",
            NativeAction::SetValue => "SetValue",
            NativeAction::Scroll => "Scroll",
        }
    }
}

impl UiRole {
    /// The role's name as it is shown.
    pub open spec fn label(self) -> Seq<char> {
        match self {
            UiRole::Window => "Window"@,
            UiRole::Button => "Button"@,
            UiRole::TextField => "TextField"@,
            UiRole::CheckBox => "CheckBox"@,
            UiRole::RadioButton => "RadioButton"@,
            UiRole::List => "List"@,
            UiRole::ListItem => "ListItem"@,
            UiRole::Menu => "Menu"@,
            UiRole::MenuItem => "MenuItem"@,
            UiRole::Tab => "Tab"@,
            UiRole::Document => "Document"@,
            UiRole::Other => "Other"@,
        }
    }

    /// The role's name as it is shown.
    pub fn name(&self) -> (r: &'static str)
        ensures
            r@ == self.label(),
    {
        match self {
            UiRole::Window => "Window",
            UiRole::Button => "Button",
            UiRole::TextField => "TextField",
            UiRole::CheckBox => "CheckBox",
            UiRole::RadioButton => "RadioButton",
            UiRole::List => "List",
            UiRole::ListItem => "ListItem",
            UiRole::Menu => "Menu",
            UiRole::MenuItem => "MenuItem",
            UiRole::Tab => "Tab",
            UiRole::Document => "Document",
            UiRole::Other => "Other",
        }
    }
}

impl Verification {
    /// The finding's name as it is shown.
    pub open spec fn label(self) -> Seq<char> {
        match self {
            Verification::Achieved => "Achieved"@,
            Verification::Progress => "Progress"@,
            Verification::NoChange => "NoChange"@,
            Verification::Unexpected => "Unexpected"@,
            Verification::Unknown => "Unknown"@,
        }
    }

    /// The finding's name as it is shown.
    pub fn name(&self) -> (r: &'static str)
        ensures
            r@ == self.label(),
    {
        match self {
            Verification::Achieved => "Achieved",
            Verification::Progress => "Progress",
            Verification::NoChange => "NoChange",
            Verification::Unexpected => "Unexpected",
            Verification::Unknown => "Unknown",
        }
    }
}

impl ActionCandidate {
    /// Whether a candidate acts on the desktop or only steers the run.
    pub open spec fn class_of(kind: KindModel) -> ActionClass {
        match kind {
            KindModel::Done | KindModel::AskUser | KindModel::CannotProceed => ActionClass::Control,
            _ => ActionClass::NativeAction,
        }
    }

    /// Whether the candidate acts on the desktop or only steers the run.
    pub fn action_class(&self) -> (r: ActionClass)
        ensures
            r == Self::class_of(self@.kind),
    {
        match &self.kind {
            CandidateKind::Done | CandidateKind::AskUser | CandidateKind::CannotProceed => {
                ActionClass::Control
            },
            _ => ActionClass::NativeAction,
        }
    }
}

/// What a policy says of a chosen action.
#[derive(Debug, Clone, PartialEq, Eq)]
pub enum PolicyDecision {
    Allow,
    NeedsIncrementalGrant(String),
    NeedsConfirmation(String),
    Deny(String),
}

/// Tokens that a decision took.
#[derive(Debug, Clone, Copy, PartialEq, Eq, Structural)]
pub struct DecisionUsage {
    pub input_tokens: u64,
    pub output_tokens: u64,
}

/// What a decision provider chose.
#[derive(Debug, Clone, PartialEq, Eq)]
pub struct Decision {
    pub candidate_id: String,
    pub actual_model: Option<String>,
    pub usage: Option<DecisionUsage>,
}

/// Bounds of a run.
#[derive(Debug, Clone, Copy, PartialEq, Eq, Structural)]
pub struct RunLimits {
    pub soft_max_steps: u32,
    pub hard_max_steps: u32,
    pub soft_max_elapsed_ms: u64,
    pub hard_max_elapsed_ms: u64,
    pub max_stall_count: u32,
}

/// How a run ended, after how many actions, and what it went through.
#[derive(Debug, Clone, PartialEq, Eq)]
pub struct RunOutcome {
    pub status: RunStatus,
    pub executed_steps: u32,
    pub trace: Vec<TraceEvent>,
}

/// What a platform adapter offers.
#[derive(Debug, Clone, PartialEq, Eq)]
pub struct PlatformCapabilities {
    pub supported: Vec<PlatformCapability>,
    pub accessibility_permission: bool,
}

/// Text that a caller provides at dispatch time.
#[derive(Debug, Clone, PartialEq, Eq)]
pub struct ExecutionInput {
    pub value: Option<String>,
}

impl Default for ExecutionInput {
    /// No text.
    fn default() -> (r: Self)
        ensures
            r.value is None,
    {
        ExecutionInput { value: None }
    }
}

/// Only the three candidates that end or hold a run steer it; all others act on
/// the desktop.
pub proof fn control_candidates_do_not_act(kind: KindModel)
    ensures
        ActionCandidate::class_of(kind) == ActionClass::Control <==> (kind == KindModel::Done
            || kind == KindModel::AskUser || kind == KindModel::CannotProceed),
{
}

/// Actions, roles and findings are shown under names of their own.
pub proof fn names_are_told_apart(a: NativeAction, b: NativeAction, p: UiRole, q: UiRole, v: Verification, w: Verification)
    ensures
        a.label() == b.label() ==> a == b,
        p.label() == q.label() ==> p == q,
        v.label() == w.label() ==> v == w,
{
    reveal_strlit("Invoke");
    reveal_strlit("Toggle");
    reveal_strlit("Select");
    reveal_strlit("Expand");
    reveal_strlit("Collapse");
    reveal_strlit("Focus");
    reveal_strlit("SetValue");
    reveal_strlit("Scroll");
    assert("Invoke"@[0] == 'I' && "Toggle"@[0] == 'T' && "Select"@[1] == 'e' && "Scroll"@[1] == 'c'
        && "Expand"@[0] == 'E');
    assert("Invoke"@.len() == 6 && "Toggle"@.len() == 6 && "Select"@.len() == 6 && "Expand"@.len()
        == 6 && "Scroll"@.len() == 6 && "Collapse"@.len() == 8 && "SetValue"@.len() == 8
        && "Focus"@.len() == 5);
    assert("Collapse"@[0] == 'C' && "SetValue"@[0] == 'S' && "Select"@[0] == 'S' && "Scroll"@[0]
        == 'S');
    reveal_strlit("Window");
    reveal_strlit("Button");
    reveal_strlit("TextField");
    reveal_strlit("CheckBox");
    reveal_strlit("RadioButton");
    reveal_strlit("List");
    reveal_strlit("ListItem");
    reveal_strlit("Menu");
    reveal_strlit("MenuItem");
    reveal_strlit("Tab");
    reveal_strlit("Document");
    reveal_strlit("Other");
    assert("Window"@[0] == 'W' && "Button"@[0] == 'B' && "TextField"@[0] == 'T' && "CheckBox"@[0]
        == 'C' && "RadioButton"@[0] == 'R' && "List"@[0] == 'L' && "ListItem"@[0] == 'L'
        && "Menu"@[0] == 'M' && "MenuItem"@[0] == 'M' && "Tab"@[0] == 'T' && "Document"@[0] == 'D'
        && "Other"@[0] == 'O');
    assert("List"@.len() == 4 && "ListItem"@.len() == 8 && "Menu"@.len() == 4 && "MenuItem"@.len()
        == 8 && "Tab"@.len() == 3 && "TextField"@.len() == 9);
    reveal_strlit("Achieved");
    reveal_strlit("Progress");
    reveal_strlit("NoChange");
    reveal_strlit("Unexpected");
    reveal_strlit("Unknown");
    assert("Achieved"@[0] == 'A' && "Progress"@[0] == 'P' && "NoChange"@[0] == 'N'
        && "Unexpected"@[0] == 'U' && "Unknown"@[0] == 'U');
    assert("Unexpected"@.len() == 10 && "Unknown"@.len() == 7);
}

} // verus!
