//! The macOS Accessibility adapter without its native calls.
//!
//! Native references never leave the worker that owns them. Only what a
//! control advertises becomes a candidate, and saved controls are found by
//! bundle identifier and semantic ancestry.
use vstd::prelude::*;
use vstd::string::*;

use crate::hashing;
use crate::hashing::tagged_digest;
use crate::locate;
use crate::locate::{offers, replay, target_query, ProfileModel, Profiled, QueryModel, Replay};
use crate::model;
use crate::model::{copy_all, copy_opt, same_all, same_opt, Plain};
use crate::runner::MENU_SCOPE_ID;
use crate::semantics;
use crate::semantics::{descending, expected_effects, kind_of, predicate, risk_of, tokens_of};
use crate::text;
use crate::text::{contains_text, join, lowercase, owned, same_text, take_chars};
use crate::types::{
    ActionCandidate, ActionReceipt, AppIdentity, AppModel, AutomationError, CandidateKind,
    CandidateModel, ContextModel, ErrorKind, KindModel, LocatorModel, NativeAction, NodeModel,
    Observation, ObservationModel, ObservationScope, PlatformCapabilities, PlatformCapability,
    Predicate, ReceiptModel, RiskClass, ScopeModel, SemanticContext, SemanticLocator, UiNode,
    UiRole, WindowIdentity, WindowModel,
};
use crate::uia;
use crate::uia::{count_tokens, make_control, push_fresh};

verus! {

/// A control with everything that is known of it locally.
#[derive(Debug, Clone, PartialEq, Eq)]
pub struct Metadata {
    pub node: UiNode,
    pub identifier: Option<String>,
    pub raw_name: Option<String>,
    pub ancestors: Vec<SemanticContext>,
    pub origin: String,
}

/// The content of a [`Metadata`].
#[verifier::ext_equal]
pub struct AxModel {
    pub node: NodeModel,
    pub identifier: Option<Seq<char>>,
    pub raw_name: Option<Seq<char>>,
    pub ancestors: Seq<ContextModel>,
    pub origin: Seq<char>,
}

impl View for Metadata {
    type V = AxModel;

    open spec fn view(&self) -> AxModel {
        AxModel {
            node: self.node@,
            identifier: model::opt_view(self.identifier),
            raw_name: model::opt_view(self.raw_name),
            ancestors: model::seq_view(self.ancestors@),
            origin: self.origin@,
        }
    }
}

impl Plain for Metadata {
    fn copied(&self) -> (r: Self) {
        Metadata {
            node: self.node.copied(),
            identifier: copy_opt(&self.identifier),
            raw_name: copy_opt(&self.raw_name),
            ancestors: copy_all(&self.ancestors),
            origin: self.origin.clone(),
        }
    }

    fn same(&self, other: &Self) -> (r: bool) {
        self.node.same(&other.node)
            && same_opt(&self.identifier, &other.identifier)
            && same_opt(&self.raw_name, &other.raw_name)
            && same_all(&self.ancestors, &other.ancestors)
            && same_text(self.origin.as_str(), other.origin.as_str())
    }
}

/// A candidate and what it is bound to.
#[derive(Debug, Clone, PartialEq, Eq)]
pub struct AxBound {
    pub candidate: ActionCandidate,
    pub locator: SemanticLocator,
    pub action: NativeAction,
    pub window_token: u64,
    pub require_unique_window: bool,
    pub scope: ObservationScope,
}

/// The content of an [`AxBound`].
#[verifier::ext_equal]
pub struct AxBoundModel {
    pub candidate: CandidateModel,
    pub locator: LocatorModel,
    pub action: NativeAction,
    pub window_token: u64,
    pub require_unique_window: bool,
    pub scope: ScopeModel,
}

impl View for AxBound {
    type V = AxBoundModel;

    open spec fn view(&self) -> AxBoundModel {
        AxBoundModel {
            candidate: self.candidate@,
            locator: self.locator@,
            action: self.action,
            window_token: self.window_token,
            require_unique_window: self.require_unique_window,
            scope: self.scope@,
        }
    }
}

impl Plain for AxBound {
    fn copied(&self) -> (r: Self) {
        AxBound {
            candidate: self.candidate.copied(),
            locator: self.locator.copied(),
            action: self.action,
            window_token: self.window_token,
            require_unique_window: self.require_unique_window,
            scope: self.scope.copied(),
        }
    }

    fn same(&self, other: &Self) -> (r: bool) {
        self.candidate.same(&other.candidate)
            && self.locator.same(&other.locator)
            && self.action == other.action
            && self.window_token == other.window_token
            && self.require_unique_window == other.require_unique_window
            && self.scope.same(&other.scope)
    }
}

/// A native reading of the desktop as plain values.
#[derive(Debug, Clone, PartialEq, Eq)]
pub struct AxSnapshot {
    pub fingerprint: String,
    pub app: AppIdentity,
    pub window: WindowIdentity,
    pub metadata: Vec<Metadata>,
    pub truncated: bool,
    pub window_token: u64,
    pub window_unique: bool,
}

/// The content of an [`AxSnapshot`].
#[verifier::ext_equal]
pub struct AxSnapshotModel {
    pub fingerprint: Seq<char>,
    pub app: AppModel,
    pub window: WindowModel,
    pub metadata: Seq<AxModel>,
    pub truncated: bool,
    pub window_token: u64,
    pub window_unique: bool,
}

impl View for AxSnapshot {
    type V = AxSnapshotModel;

    open spec fn view(&self) -> AxSnapshotModel {
        AxSnapshotModel {
            fingerprint: self.fingerprint@,
            app: self.app@,
            window: self.window@,
            metadata: model::seq_view(self.metadata@),
            truncated: self.truncated,
            window_token: self.window_token,
            window_unique: self.window_unique,
        }
    }
}

/// What the adapter remembers of the latest observation.
#[derive(Debug, Clone, PartialEq, Eq)]
pub struct AxState {
    pub revision: u64,
    pub fingerprint: String,
    pub observation: Option<Observation>,
    pub metadata: Vec<Metadata>,
    pub actions: Vec<AxBound>,
    pub window_token: u64,
    pub window_unique: bool,
    pub scope: ObservationScope,
}

/// The content of an [`AxState`].
#[verifier::ext_equal]
pub struct AxStateModel {
    pub revision: u64,
    pub fingerprint: Seq<char>,
    pub observation: Option<ObservationModel>,
    pub metadata: Seq<AxModel>,
    pub actions: Seq<AxBoundModel>,
    pub window_token: u64,
    pub window_unique: bool,
    pub scope: ScopeModel,
}

impl View for AxState {
    type V = AxStateModel;

    open spec fn view(&self) -> AxStateModel {
        AxStateModel {
            revision: self.revision,
            fingerprint: self.fingerprint@,
            observation: model::opt_view(self.observation),
            metadata: model::seq_view(self.metadata@),
            actions: model::seq_view(self.actions@),
            window_token: self.window_token,
            window_unique: self.window_unique,
            scope: self.scope@,
        }
    }
}

impl Profiled for Metadata {
    open spec fn profile(&self) -> ProfileModel {
        profile_of(self@)
    }

    fn role(&self) -> (r: UiRole) {
        self.node.role
    }

    fn identifier(&self) -> (r: &Option<String>) {
        &self.identifier
    }

    fn name(&self) -> (r: &Option<String>) {
        &self.raw_name
    }

    fn ancestors(&self) -> (r: &Vec<SemanticContext>) {
        &self.ancestors
    }

    fn actions(&self) -> (r: &Vec<NativeAction>) {
        assert(model::seq_view(self.node.supported_actions@) =~= self.node.supported_actions@);
        &self.node.supported_actions
    }
}

/// What a control is known by.
pub open spec fn profile_of(m: AxModel) -> ProfileModel {
    ProfileModel {
        role: m.node.role,
        identifier: m.identifier,
        name: m.raw_name,
        ancestors: m.ancestors,
        actions: m.node.supported_actions,
    }
}

/// What each control of a list is known by.
pub open spec fn profiles_of(s: Seq<AxModel>) -> Seq<ProfileModel> {
    Seq::new(s.len(), |i: int| profile_of(s[i]))
}

/// Whether a chain of ancestors leads through the menu bar.
pub open spec fn menu_chain(chain: Seq<ContextModel>) -> bool {
    exists|i: int|
        0 <= i < chain.len() && (#[trigger] chain[i]).automation_id == Some(MENU_SCOPE_ID@)
}

/// Whether a chain of ancestors leads through the menu bar.
pub fn scope_is_menu(ancestors: &Vec<SemanticContext>) -> (r: bool)
    ensures
        r == menu_chain(model::seq_view(ancestors@)),
{
    let ghost chain = model::seq_view(ancestors@);
    let mut i: usize = 0;
    while i < ancestors.len()
        invariant
            i <= ancestors@.len(),
            chain == model::seq_view(ancestors@),
            forall|k: int|
                0 <= k < i ==> (#[trigger] chain[k]).automation_id != Some(MENU_SCOPE_ID@),
        decreases ancestors@.len() - i,
    {
        match &ancestors[i].automation_id {
            Some(id) => {
                if same_text(id.as_str(), MENU_SCOPE_ID) {
                    assert(chain[i as int].automation_id == Some(MENU_SCOPE_ID@));
                    return true;
                }
            },
            None => {},
        }
        i = i + 1;
    }
    false
}

/// Where a saved control is to be looked for.
#[derive(Debug, Clone, PartialEq, Eq)]
pub enum ReplayResolution {
    /// It is observed.
    Target,
    /// Below the control with this id.
    Region(String),
}

/// The content of a [`ReplayResolution`].
#[verifier::ext_equal]
pub enum ResolutionModel {
    Target,
    Region(Seq<char>),
}

impl View for ReplayResolution {
    type V = ResolutionModel;

    open spec fn view(&self) -> ResolutionModel {
        match self {
            ReplayResolution::Target => ResolutionModel::Target,
            ReplayResolution::Region(s) => ResolutionModel::Region(s@),
        }
    }
}

/// Where a saved control is to be looked for, or why it cannot be.
pub open spec fn resolution_model(ms: Seq<AxModel>, l: LocatorModel) -> Result<
    ResolutionModel,
    (ErrorKind, Seq<char>),
> {
    match locate::replayed(profiles_of(ms), l, true) {
        Replay::Target => Ok(ResolutionModel::Target),
        Replay::Region(i) => Ok(ResolutionModel::Region(ms[i as int].node.opaque_id)),
        Replay::AmbiguousTarget => Err(
            (
                ErrorKind::Observation,
                "saved AX target is ambiguous; refine its stable ancestor context"@,
            ),
        ),
        Replay::AmbiguousRegion => Err(
            (
                ErrorKind::Observation,
                "saved AX ancestor region is ambiguous; refine the workflow locator"@,
            ),
        ),
        Replay::Missing => Err(
            (
                ErrorKind::Observation,
                "saved AX target or its stable ancestor region is missing; refresh the workflow locator"@,
            ),
        ),
    }
}

/// Where a saved control is to be looked for: it is observed, or below the
/// deepest ancestor that is.
pub fn replay_resolution(metadata: &Vec<Metadata>, locator: &SemanticLocator) -> (r: Result<
    ReplayResolution,
    AutomationError,
>)
    ensures
        model::result_view(r) == resolution_model(model::seq_view(metadata@), locator@),
{
    assert(locate::profiles(metadata@) =~= profiles_of(model::seq_view(metadata@)));
    match replay(metadata, locator, true) {
        Replay::Target => Ok(ReplayResolution::Target),
        Replay::Region(i) => Ok(ReplayResolution::Region(metadata[i].node.opaque_id.clone())),
        Replay::AmbiguousTarget => Err(
            AutomationError::observation(
                "saved AX target is ambiguous; refine its stable ancestor context",
            ),
        ),
        Replay::AmbiguousRegion => Err(
            AutomationError::observation(
                "saved AX ancestor region is ambiguous; refine the workflow locator",
            ),
        ),
        Replay::Missing => Err(
            AutomationError::observation(
                "saved AX target or its stable ancestor region is missing; refresh the workflow locator",
            ),
        ),
    }
}

/// The names of the ancestors that have one.
pub open spec fn named(chain: Seq<ContextModel>) -> Seq<Seq<char>>
    decreases chain.len(),
{
    if chain.len() == 0 {
        Seq::empty()
    } else {
        match chain.last().accessible_name {
            Some(s) => named(chain.drop_last()).push(s),
            None => named(chain.drop_last()),
        }
    }
}

/// The last three names, each redacted and cut short.
pub open spec fn shown_names(names: Seq<Seq<char>>) -> Seq<Seq<char>> {
    let kept = if names.len() <= 3 {
        names
    } else {
        names.skip(names.len() - 3)
    };
    Seq::new(kept.len(), |i: int| text::clipped(semantics::redacted(kept[i]), 32))
}

/// A control's action in words.
pub open spec fn description(m: AxModel, action: NativeAction) -> Seq<char> {
    m.origin + " / "@ + text::joined(shown_names(named(m.ancestors)), " > "@) + ": "@
        + action.label() + " "@ + m.node.role.label() + " '"@ + (match m.node.name {
        Some(s) => s,
        None => "unnamed control"@,
    }) + "'"@
}

/// Collects the names of the ancestors that have one.
fn names_of(ancestors: &Vec<SemanticContext>) -> (r: Vec<String>)
    ensures
        model::seq_view(r@) == named(model::seq_view(ancestors@)),
{
    let ghost chain = model::seq_view(ancestors@);
    let mut out: Vec<String> = Vec::new();
    assert(model::seq_view(out@) =~= named(chain.take(0)));
    let mut i: usize = 0;
    while i < ancestors.len()
        invariant
            i <= ancestors@.len(),
            chain == model::seq_view(ancestors@),
            model::seq_view(out@) == named(chain.take(i as int)),
        decreases ancestors@.len() - i,
    {
        let ghost before = out@;
        proof {
            assert(chain.take(i + 1).drop_last() == chain.take(i as int));
            assert(chain.take(i + 1).last() == ancestors@[i as int]@);
        }
        match &ancestors[i].accessible_name {
            Some(s) => {
                out.push(s.clone());
                assert(model::seq_view(out@) =~= model::seq_view(before).push(s@));
            },
            None => {},
        }
        i = i + 1;
    }
    assert(chain.take(chain.len() as int) == chain);
    out
}

/// Says what an action on a control does, with its origin and its nearest
/// named ancestors.
pub fn describe(meta: &Metadata, action: NativeAction) -> (r: String)
    ensures
        r@ == description(meta@, action),
{
    let names = names_of(&meta.ancestors);
    let ghost ns = model::seq_view(names@);
    let mut shown: Vec<String> = Vec::new();
    let start: usize = if names.len() <= 3 {
        0
    } else {
        names.len() - 3
    };
    let mut i: usize = start;
    while i < names.len()
        invariant
            start <= i <= names@.len(),
            ns == model::seq_view(names@),
            ns == named(meta@.ancestors),
            start == if ns.len() <= 3 {
                0
            } else {
                ns.len() - 3
            },
            shown@.len() == i - start,
            forall|k: int|
                0 <= k < shown@.len() ==> (#[trigger] shown@[k])@ == shown_names(ns)[k],
        decreases names@.len() - i,
    {
        let red = semantics::redact(names[i].as_str());
        let word = take_chars(red.as_str(), 32);
        shown.push(word);
        i = i + 1;
    }
    assert(model::seq_view(shown@) =~= shown_names(ns));
    let mut out = meta.origin.clone();
    out.append(" / ");
    out.append(join(&shown, " > ").as_str());
    out.append(": ");
    out.append(action.name());
    out.append(" ");
    out.append(meta.node.role.name());
    out.append(" '");
    match &meta.node.name {
        Some(s) => out.append(s.as_str()),
        None => out.append("unnamed control"),
    }
    out.append("'");
    out
}

/// Whether the walk goes below a control: a menu item that is closed stays
/// closed unless it is the root that was asked for.
pub fn descend_menu(
    raw_role: &str,
    explicit_root: bool,
    expanded: Option<bool>,
    selected: Option<bool>,
    focused: bool,
) -> (r: bool)
    ensures
        r == (explicit_root || !(raw_role@ == "AXMenuBarItem"@ || raw_role@ == "AXMenuItem"@)
            || expanded == Some(true) || selected == Some(true) || focused),
{
    let open = match expanded {
        Some(b) => b,
        None => false,
    };
    let chosen = match selected {
        Some(b) => b,
        None => false,
    };
    explicit_root || !(same_text(raw_role, "AXMenuBarItem") || same_text(raw_role, "AXMenuItem"))
        || open || chosen || focused
}

/// Whether a control can be acted on.
pub open spec fn shown(m: AxModel) -> bool {
    m.node.enabled && m.node.visible
}

/// Whether two controls cannot be told apart by what is stable of them.
pub open spec fn alike(a: AxModel, b: AxModel) -> bool {
    &&& a.node.role == b.node.role
    &&& a.identifier == b.identifier
    &&& a.raw_name == b.raw_name
    &&& a.ancestors == b.ancestors
    &&& a.origin == b.origin
}

/// How many usable controls look like one and offer an action.
pub open spec fn twins(ms: Seq<AxModel>, m: AxModel, action: NativeAction) -> nat
    decreases ms.len(),
{
    if ms.len() == 0 {
        0
    } else {
        let o = ms.last();
        twins(ms.drop_last(), m, action) + if shown(o) && alike(o, m)
            && o.node.supported_actions.contains(action) {
            1nat
        } else {
            0nat
        }
    }
}

/// How well an action on a control fits a goal: the goal holds the name whole,
/// tokens of the goal stand in the name or in the names around it, the control
/// has the focus, and the action enters text or presses.
pub open spec fn fit(goal: Seq<char>, m: AxModel, action: NativeAction) -> int {
    let lower = text::lowercased(goal);
    let name = text::lowercased(
        match m.node.name {
            Some(s) => s,
            None => Seq::empty(),
        },
    );
    let context = text::lowercased(text::joined(named(m.ancestors), " "@));
    let tokens = semantics::tokens(lower);
    (if name.len() > 0 && text::has_part(lower, name) {
        120int
    } else {
        0
    }) + 40 * uia::token_hits(tokens, name) + 15 * uia::token_hits(tokens, context) + (if m.node.focused {
        30int
    } else {
        0
    }) + (if action == NativeAction::SetValue || action == NativeAction::Invoke {
        18int
    } else {
        0
    })
}

/// An action that is offered: how well it fits, and on which control.
pub struct AxOffer {
    pub score: i32,
    pub meta: Metadata,
    pub action: NativeAction,
}

/// The content of an [`AxOffer`].
#[verifier::ext_equal]
pub struct AxOfferModel {
    pub score: i32,
    pub meta: AxModel,
    pub action: NativeAction,
}

impl View for AxOffer {
    type V = AxOfferModel;

    open spec fn view(&self) -> AxOfferModel {
        AxOfferModel { score: self.score, meta: self.meta@, action: self.action }
    }
}

/// The actions of one control that no other usable control offers alike.
pub open spec fn offers_of(
    goal: Seq<char>,
    ms: Seq<AxModel>,
    m: AxModel,
    actions: Seq<NativeAction>,
) -> Seq<AxOfferModel>
    decreases actions.len(),
{
    if actions.len() == 0 {
        Seq::empty()
    } else {
        let before = offers_of(goal, ms, m, actions.drop_last());
        let action = actions.last();
        if twins(ms, m, action) == 1 {
            before.push(AxOfferModel { score: uia::capped(fit(goal, m, action)), meta: m, action })
        } else {
            before
        }
    }
}

/// The actions that the first `n` controls offer.
pub open spec fn offered(goal: Seq<char>, ms: Seq<AxModel>, n: int) -> Seq<AxOfferModel>
    decreases n,
{
    if n <= 0 {
        Seq::empty()
    } else {
        let m = ms[n - 1];
        offered(goal, ms, n - 1) + if shown(m) {
            offers_of(goal, ms, m, m.node.supported_actions)
        } else {
            Seq::empty()
        }
    }
}

/// The scores of offers.
pub open spec fn scores_of(s: Seq<AxOfferModel>) -> Seq<i32> {
    Seq::new(s.len(), |i: int| s[i].score)
}

/// Offers in an order.
pub open spec fn arranged(s: Seq<AxOfferModel>, order: Seq<usize>) -> Seq<AxOfferModel> {
    Seq::new(s.len(), |i: int| s[order[i] as int])
}

/// Counts the usable controls that look like one and offer an action.
fn count_twins(metadata: &Vec<Metadata>, meta: &Metadata, action: NativeAction) -> (r: usize)
    ensures
        r == twins(model::seq_view(metadata@), meta@, action),
{
    let ghost ms = model::seq_view(metadata@);
    let mut count: usize = 0;
    let mut i: usize = 0;
    while i < metadata.len()
        invariant
            i <= metadata@.len(),
            ms == model::seq_view(metadata@),
            count == twins(ms.take(i as int), meta@, action),
            count <= i,
        decreases metadata@.len() - i,
    {
        let other = &metadata[i];
        proof {
            assert(ms.take(i + 1).drop_last() == ms.take(i as int));
            assert(ms.take(i + 1).last() == other@);
            assert(model::seq_view(other.node.supported_actions@)
                =~= other.node.supported_actions@);
        }
        if other.node.enabled && other.node.visible && other.node.role == meta.node.role
            && same_opt(&other.identifier, &meta.identifier) && same_opt(
            &other.raw_name,
            &meta.raw_name,
        ) && same_all(&other.ancestors, &meta.ancestors) && same_text(
            other.origin.as_str(),
            meta.origin.as_str(),
        ) && offers(&other.node.supported_actions, action) {
            count = count + 1;
        }
        i = i + 1;
    }
    assert(ms.take(ms.len() as int) == ms);
    count
}

/// How well an action on a control fits a goal.
fn fit_of(goal: &str, meta: &Metadata, action: NativeAction) -> (r: i32)
    ensures
        r == uia::capped(fit(goal@, meta@, action)),
{
    let lower = lowercase(goal);
    let name = match &meta.node.name {
        Some(s) => lowercase(s.as_str()),
        None => lowercase(String::new().as_str()),
    };
    let context = lowercase(join(&names_of(&meta.ancestors), " ").as_str());
    let tokens = tokens_of(lower.as_str());
    let in_name: u64 = count_tokens(&tokens, name.as_str());
    let in_context: u64 = count_tokens(&tokens, context.as_str());
    let mut score: u128 = 40 * (in_name as u128) + 15 * (in_context as u128);
    if !name.as_str().is_empty() && contains_text(lower.as_str(), name.as_str()) {
        score = score + 120;
    }
    if meta.node.focused {
        score = score + 30;
    }
    if action == NativeAction::SetValue || action == NativeAction::Invoke {
        score = score + 18;
    }
    if score > 2147483647 {
        i32::MAX
    } else {
        score as i32
    }
}

/// Collects the actions that the controls offer, as they stand.
fn collect_offers(goal: &str, metadata: &Vec<Metadata>) -> (r: Vec<AxOffer>)
    ensures
        model::seq_view(r@) == offered(
            goal@,
            model::seq_view(metadata@),
            metadata@.len() as int,
        ),
{
    let ghost ms = model::seq_view(metadata@);
    let mut out: Vec<AxOffer> = Vec::new();
    assert(model::seq_view(out@) =~= offered(goal@, ms, 0));
    let mut i: usize = 0;
    while i < metadata.len()
        invariant
            i <= metadata@.len(),
            ms == model::seq_view(metadata@),
            model::seq_view(out@) == offered(goal@, ms, i as int),
        decreases metadata@.len() - i,
    {
        let meta = &metadata[i];
        let ghost head = offered(goal@, ms, i as int);
        let ghost actions = meta@.node.supported_actions;
        assert(model::seq_view(meta.node.supported_actions@) =~= meta.node.supported_actions@);
        assert(ms[i as int] == meta@);
        if meta.node.enabled && meta.node.visible {
            let mut k: usize = 0;
            assert(model::seq_view(out@) =~= head + offers_of(goal@, ms, meta@, actions.take(0)));
            while k < meta.node.supported_actions.len()
                invariant
                    k <= meta.node.supported_actions@.len(),
                    ms == model::seq_view(metadata@),
                    actions == meta.node.supported_actions@,
                    model::seq_view(out@) == head + offers_of(
                        goal@,
                        ms,
                        meta@,
                        actions.take(k as int),
                    ),
                decreases meta.node.supported_actions@.len() - k,
            {
                let action = meta.node.supported_actions[k];
                let ghost before = out@;
                proof {
                    assert(actions.take(k + 1).drop_last() == actions.take(k as int));
                    assert(actions.take(k + 1).last() == action);
                }
                if count_twins(metadata, meta, action) == 1 {
                    let offer = AxOffer {
                        score: fit_of(goal, meta, action),
                        meta: meta.copied(),
                        action,
                    };
                    out.push(offer);
                    assert(model::seq_view(out@) =~= model::seq_view(before).push(offer@));
                }
                k = k + 1;
                assert(model::seq_view(out@) =~= head + offers_of(
                    goal@,
                    ms,
                    meta@,
                    actions.take(k as int),
                ));
            }
            assert(actions.take(actions.len() as int) == actions);
        }
        i = i + 1;
        assert(model::seq_view(out@) =~= offered(goal@, ms, i as int));
    }
    out
}

/// The actions that the controls offer, from the best fit down; equal ones as
/// they stand.
pub fn ranked_actions(goal: &str, metadata: &Vec<Metadata>) -> (r: Vec<AxOffer>)
    ensures
        ({
            let all = offered(goal@, model::seq_view(metadata@), metadata@.len() as int);
            exists|order: Seq<usize>|
                #[trigger] semantics::is_ranking(scores_of(all), order) && model::seq_view(r@)
                    == arranged(all, order)
        }),
{
    let offers = collect_offers(goal, metadata);
    let ghost all = model::seq_view(offers@);
    let mut scores: Vec<i32> = Vec::new();
    let mut i: usize = 0;
    while i < offers.len()
        invariant
            i <= offers@.len(),
            all == model::seq_view(offers@),
            scores@.len() == i,
            forall|k: int| 0 <= k < i ==> #[trigger] scores@[k] == all[k].score,
        decreases offers@.len() - i,
    {
        scores.push(offers[i].score);
        i = i + 1;
    }
    assert(scores@ =~= scores_of(all));
    let order = descending(&scores);
    let mut out: Vec<AxOffer> = Vec::new();
    let mut k: usize = 0;
    while k < order.len()
        invariant
            k <= order@.len(),
            order@.len() == offers@.len(),
            all == model::seq_view(offers@),
            semantics::is_ranking(scores_of(all), order@),
            out@.len() == k,
            forall|j: int| 0 <= j < k ==> (#[trigger] out@[j])@ == arranged(all, order@)[j],
        decreases order@.len() - k,
    {
        let at: usize = order[k];
        assert(at < offers@.len());
        let offer = &offers[at];
        assert(all[at as int] == offer@);
        out.push(AxOffer { score: offer.score, meta: offer.meta.copied(), action: offer.action });
        k = k + 1;
    }
    assert(model::seq_view(out@) =~= arranged(all, order@));
    assert(semantics::is_ranking(scores_of(all), order@));
    out
}

/// Whether some offer is an action on a control.
pub open spec fn offer_of(s: Seq<AxOfferModel>, m: AxModel, action: NativeAction) -> bool {
    exists|k: int|
        0 <= k < s.len() && (#[trigger] s[k]).meta == m && s[k].action == action
}

/// Every action of a usable control is offered unless another usable control
/// offers it alike; nothing else is.
pub proof fn every_unique_action_is_offered(
    goal: Seq<char>,
    ms: Seq<AxModel>,
    i: int,
    action: NativeAction,
)
    requires
        0 <= i < ms.len(),
    ensures
        shown(ms[i]) && ms[i].node.supported_actions.contains(action) && twins(ms, ms[i], action)
            == 1 ==> offer_of(offered(goal, ms, ms.len() as int), ms[i], action),
        forall|k: int|
            0 <= k < offered(goal, ms, ms.len() as int).len() ==> {
                let f = #[trigger] offered(goal, ms, ms.len() as int)[k];
                &&& ms.contains(f.meta)
                &&& shown(f.meta)
                &&& f.meta.node.supported_actions.contains(f.action)
                &&& twins(ms, f.meta, f.action) == 1
            },
{
    offered_is_right(goal, ms, ms.len() as int);
    if shown(ms[i]) && ms[i].node.supported_actions.contains(action) && twins(ms, ms[i], action)
        == 1 {
        offers_hold(goal, ms, ms[i], ms[i].node.supported_actions, action);
        offered_holds(goal, ms, i, ms.len() as int, action);
    }
}

/// What one control offers alone is among its offers.
proof fn offers_hold(
    goal: Seq<char>,
    ms: Seq<AxModel>,
    m: AxModel,
    actions: Seq<NativeAction>,
    action: NativeAction,
)
    requires
        actions.contains(action),
        twins(ms, m, action) == 1,
    ensures
        offer_of(offers_of(goal, ms, m, actions), m, action),
    decreases actions.len(),
{
    let all = offers_of(goal, ms, m, actions);
    let before = offers_of(goal, ms, m, actions.drop_last());
    if actions.last() == action {
        assert(all[all.len() - 1].action == action);
    } else {
        let k = actions.index_of(action);
        assert(actions.drop_last()[k] == action);
        offers_hold(goal, ms, m, actions.drop_last(), action);
        let j = choose|j: int|
            0 <= j < before.len() && (#[trigger] before[j]).meta == m && before[j].action == action;
        assert(all[j] == before[j]);
    }
}

/// What one control offers stays among the offers.
proof fn offered_holds(goal: Seq<char>, ms: Seq<AxModel>, i: int, n: int, action: NativeAction)
    requires
        0 <= i < n <= ms.len(),
        shown(ms[i]),
        offer_of(offers_of(goal, ms, ms[i], ms[i].node.supported_actions), ms[i], action),
    ensures
        offer_of(offered(goal, ms, n), ms[i], action),
    decreases n,
{
    let before = offered(goal, ms, n - 1);
    let all = offered(goal, ms, n);
    if i == n - 1 {
        let own = offers_of(goal, ms, ms[i], ms[i].node.supported_actions);
        let j = choose|j: int|
            0 <= j < own.len() && (#[trigger] own[j]).meta == ms[i] && own[j].action == action;
        assert(all[before.len() + j] == own[j]);
    } else {
        offered_holds(goal, ms, i, n - 1, action);
        let j = choose|j: int|
            0 <= j < before.len() && (#[trigger] before[j]).meta == ms[i] && before[j].action
                == action;
        assert(all[j] == before[j]);
    }
}

/// Each offer of one control is an action of it that no other offers alike.
proof fn offers_are_right(
    goal: Seq<char>,
    ms: Seq<AxModel>,
    m: AxModel,
    actions: Seq<NativeAction>,
)
    ensures
        forall|k: int|
            0 <= k < offers_of(goal, ms, m, actions).len() ==> {
                let f = #[trigger] offers_of(goal, ms, m, actions)[k];
                f.meta == m && actions.contains(f.action) && twins(ms, m, f.action) == 1
            },
    decreases actions.len(),
{
    if actions.len() > 0 {
        let rest = actions.drop_last();
        offers_are_right(goal, ms, m, rest);
        let before = offers_of(goal, ms, m, rest);
        let all = offers_of(goal, ms, m, actions);
        assert forall|k: int| 0 <= k < all.len() implies {
            let f = #[trigger] all[k];
            f.meta == m && actions.contains(f.action) && twins(ms, m, f.action) == 1
        } by {
            if k < before.len() {
                assert(all[k] == before[k]);
                let j = rest.index_of(before[k].action);
                assert(actions[j] == rest[j]);
            } else {
                assert(actions[actions.len() - 1] == all[k].action);
            }
        }
    }
}

/// Each offer is an action of a usable control that no other offers alike.
proof fn offered_is_right(goal: Seq<char>, ms: Seq<AxModel>, n: int)
    requires
        0 <= n <= ms.len(),
    ensures
        forall|k: int|
            0 <= k < offered(goal, ms, n).len() ==> {
                let f = #[trigger] offered(goal, ms, n)[k];
                &&& ms.contains(f.meta)
                &&& shown(f.meta)
                &&& f.meta.node.supported_actions.contains(f.action)
                &&& twins(ms, f.meta, f.action) == 1
            },
    decreases n,
{
    if n > 0 {
        offered_is_right(goal, ms, n - 1);
        let m = ms[n - 1];
        offers_are_right(goal, ms, m, m.node.supported_actions);
        let before = offered(goal, ms, n - 1);
        let all = offered(goal, ms, n);
        assert forall|k: int| 0 <= k < all.len() implies {
            let f = #[trigger] all[k];
            &&& ms.contains(f.meta)
            &&& shown(f.meta)
            &&& f.meta.node.supported_actions.contains(f.action)
            &&& twins(ms, f.meta, f.action) == 1
        } by {
            if k < before.len() {
                assert(all[k] == before[k]);
            } else {
                let own = offers_of(goal, ms, m, m.node.supported_actions);
                assert(all[k] == own[k - before.len()]);
            }
        }
    }
}

/// A digest of a text.
pub fn hash(value: &str) -> (r: String)
    ensures
        r@ == hashing::tagged(Seq::empty(), value@),
{
    let nothing = String::new();
    let r = tagged_digest(nothing.as_str(), value);
    assert(nothing@ =~= Seq::<char>::empty());
    r
}

/// Checks that the window in front is the one that a candidate was made for.
pub fn check_window_binding(expected: u64, current: u64) -> (r: Result<(), AutomationError>)
    ensures
        match r {
            Ok(_) => expected == current && expected != 0,
            Err(e) => (expected != current || expected == 0) && e@ == (
                ErrorKind::Execution,
                "foreground AX window changed since the candidate was created"@,
            ),
        },
{
    if expected == current && expected != 0 {
        Ok(())
    } else {
        Err(
            AutomationError::execution(
                "foreground AX window changed since the candidate was created",
            ),
        )
    }
}

/// Whether a window is known to be the only one of its identity.
pub fn window_is_unique(
    enumeration_complete: bool,
    focused_enumerated: bool,
    matches: usize,
) -> (r: bool)
    ensures
        r == (enumeration_complete && focused_enumerated && matches == 1),
{
    enumeration_complete && focused_enumerated && matches == 1
}

/// Checks that an observation is still within its time.
pub fn check_deadline(now_ms: u64, deadline_ms: u64) -> (r: Result<(), AutomationError>)
    ensures
        match r {
            Ok(_) => now_ms < deadline_ms,
            Err(e) => now_ms >= deadline_ms && e@ == (
                ErrorKind::Observation,
                "Accessibility observation timed out; partial tree discarded"@,
            ),
        },
{
    if now_ms >= deadline_ms {
        Err(
            AutomationError::observation(
                "Accessibility observation timed out; partial tree discarded",
            ),
        )
    } else {
        Ok(())
    }
}

/// How many children of a control still find room.
pub open spec fn room_left(limit: int, visited: int, queued: int, depth: int) -> int {
    let left = limit - (visited + queued + 1);
    if depth >= 24 || left <= 0 {
        0
    } else if left > 200 {
        200
    } else {
        left
    }
}

/// How many children of a control still find room.
pub fn child_capacity(limit: usize, visited: usize, queued: usize, depth: usize) -> (r: usize)
    ensures
        r == room_left(limit as int, visited as int, queued as int, depth as int),
{
    if depth >= 24 {
        return 0;
    }
    let taken: u128 = visited as u128 + queued as u128 + 1;
    if limit as u128 <= taken {
        return 0;
    }
    let left: u128 = limit as u128 - taken;
    if left > 200 {
        200
    } else {
        left as usize
    }
}

/// A walk that takes in no more children than find room never holds more
/// controls than its bound, and never goes below its depth.
pub proof fn walk_keeps_its_bound(limit: int, visited: int, queued: int, depth: int)
    requires
        0 <= visited,
        0 <= queued,
        visited + 1 + queued <= limit,
    ensures
        visited + 1 + queued + room_left(limit, visited, queued, depth) <= limit,
        depth >= 24 ==> room_left(limit, visited, queued, depth) == 0,
{
}

/// A name as it is shown.
pub fn redact(value: &str) -> (r: String)
    ensures
        r@ == semantics::redacted(value@),
{
    semantics::redact(value)
}

/// The role that a native role stands for.
pub open spec fn role_model(s: Seq<char>) -> UiRole {
    if s == "AXWindow"@ || s == "AXSheet"@ {
        UiRole::Window
    } else if s == "AXButton"@ || s == "AXPopUpButton"@ || s == "AXLink"@ {
        UiRole::Button
    } else if s == "AXTextField"@ || s == "AXTextArea"@ || s == "AXComboBox"@ {
        UiRole::TextField
    } else if s == "AXCheckBox"@ || s == "AXSwitch"@ {
        UiRole::CheckBox
    } else if s == "AXRadioButton"@ {
        UiRole::RadioButton
    } else if s == "AXList"@ || s == "AXOutline"@ || s == "AXTable"@ {
        UiRole::List
    } else if s == "AXRow"@ || s == "AXCell"@ {
        UiRole::ListItem
    } else if s == "AXMenu"@ || s == "AXMenuBar"@ {
        UiRole::Menu
    } else if s == "AXMenuItem"@ || s == "AXMenuBarItem"@ {
        UiRole::MenuItem
    } else if s == "AXTabGroup"@ {
        UiRole::Tab
    } else if s == "AXDocument"@ || s == "AXWebArea"@ {
        UiRole::Document
    } else {
        UiRole::Other
    }
}

/// The role that a native role stands for.
pub fn role(value: &str) -> (r: UiRole)
    ensures
        r == role_model(value@),
{
    if same_text(value, "AXWindow") || same_text(value, "AXSheet") {
        UiRole::Window
    } else if same_text(value, "AXButton") || same_text(value, "AXPopUpButton") || same_text(
        value,
        "AXLink",
    ) {
        UiRole::Button
    } else if same_text(value, "AXTextField") || same_text(value, "AXTextArea") || same_text(
        value,
        "AXComboBox",
    ) {
        UiRole::TextField
    } else if same_text(value, "AXCheckBox") || same_text(value, "AXSwitch") {
        UiRole::CheckBox
    } else if same_text(value, "AXRadioButton") {
        UiRole::RadioButton
    } else if same_text(value, "AXList") || same_text(value, "AXOutline") || same_text(
        value,
        "AXTable",
    ) {
        UiRole::List
    } else if same_text(value, "AXRow") || same_text(value, "AXCell") {
        UiRole::ListItem
    } else if same_text(value, "AXMenu") || same_text(value, "AXMenuBar") {
        UiRole::Menu
    } else if same_text(value, "AXMenuItem") || same_text(value, "AXMenuBarItem") {
        UiRole::MenuItem
    } else if same_text(value, "AXTabGroup") {
        UiRole::Tab
    } else if same_text(value, "AXDocument") || same_text(value, "AXWebArea") {
        UiRole::Document
    } else {
        UiRole::Other
    }
}

/// A list with an action, or without.
pub open spec fn only_if(yes: bool, action: NativeAction) -> Seq<NativeAction> {
    if yes {
        seq![action]
    } else {
        Seq::empty()
    }
}

/// What pressing a control of a role means.
pub open spec fn press_action(role: UiRole) -> NativeAction {
    match role {
        UiRole::CheckBox => NativeAction::Toggle,
        UiRole::RadioButton => NativeAction::Select,
        _ => NativeAction::Invoke,
    }
}

/// The actions that a control offers: a press where one is advertised, and
/// whatever can be set. A secure field offers no text entry.
pub open spec fn actions_model(
    role: UiRole,
    secure: bool,
    pressable: bool,
    focused_settable: bool,
    value_settable: bool,
    selected_settable: bool,
    expanded_settable: bool,
    expanded: Option<bool>,
) -> Seq<NativeAction> {
    only_if(pressable, press_action(role)) + only_if(
        selected_settable && !(pressable && role == UiRole::RadioButton),
        NativeAction::Select,
    ) + only_if(expanded_settable && expanded == Some(true), NativeAction::Collapse) + only_if(
        expanded_settable && expanded == Some(false),
        NativeAction::Expand,
    ) + only_if(focused_settable, NativeAction::Focus) + only_if(
        value_settable && !secure && role == UiRole::TextField,
        NativeAction::SetValue,
    )
}

/// Adds an action where a condition holds.
fn push_if(out: &mut Vec<NativeAction>, yes: bool, action: NativeAction)
    ensures
        final(out)@ == old(out)@ + only_if(yes, action),
{
    if yes {
        out.push(action);
    }
    assert(out@ =~= old(out)@ + only_if(yes, action));
}

/// Whether a list holds a text.
pub open spec fn lists(names: Seq<Seq<char>>, name: Seq<char>) -> bool {
    names.contains(name)
}

/// Whether a list holds a text.
fn listed(names: &Vec<String>, name: &str) -> (r: bool)
    ensures
        r == lists(model::seq_view(names@), name@),
{
    let ghost ns = model::seq_view(names@);
    let mut i: usize = 0;
    while i < names.len()
        invariant
            i <= names@.len(),
            ns == model::seq_view(names@),
            forall|k: int| 0 <= k < i ==> ns[k] != name@,
        decreases names@.len() - i,
    {
        if same_text(names[i].as_str(), name) {
            assert(ns[i as int] == name@);
            return true;
        }
        i = i + 1;
    }
    false
}

/// The actions that a control offers.
pub fn actions(
    role: UiRole,
    secure: bool,
    names: &Vec<String>,
    focused_settable: bool,
    value_settable: bool,
    selected_settable: bool,
    expanded_settable: bool,
    expanded: Option<bool>,
) -> (r: Vec<NativeAction>)
    ensures
        r@ == actions_model(
            role,
            secure,
            lists(model::seq_view(names@), "AXPress"@),
            focused_settable,
            value_settable,
            selected_settable,
            expanded_settable,
            expanded,
        ),
{
    let pressable = listed(names, "AXPress");
    let press = match role {
        UiRole::CheckBox => NativeAction::Toggle,
        UiRole::RadioButton => NativeAction::Select,
        _ => NativeAction::Invoke,
    };
    let (open, closed) = match expanded {
        Some(b) => (b, !b),
        None => (false, false),
    };
    let mut out: Vec<NativeAction> = Vec::new();
    push_if(&mut out, pressable, press);
    assert(out@ =~= only_if(pressable, press_action(role)));
    push_if(
        &mut out,
        selected_settable && !(pressable && role == UiRole::RadioButton),
        NativeAction::Select,
    );
    push_if(&mut out, expanded_settable && open, NativeAction::Collapse);
    push_if(&mut out, expanded_settable && closed, NativeAction::Expand);
    push_if(&mut out, focused_settable, NativeAction::Focus);
    push_if(
        &mut out,
        value_settable && !secure && role == UiRole::TextField,
        NativeAction::SetValue,
    );
    out
}

/// Whether an action stands in a row of optional ones.
proof fn in_row(a: Seq<NativeAction>, yes: bool, action: NativeAction, x: NativeAction)
    ensures
        (a + only_if(yes, action)).contains(x) <==> a.contains(x) || (yes && action == x),
{
    let all = a + only_if(yes, action);
    if a.contains(x) {
        let k = a.index_of(x);
        assert(all[k] == x);
    }
    if yes && action == x {
        assert(all[a.len() as int] == x);
    }
    if all.contains(x) {
        let k = all.index_of(x);
        if k < a.len() {
            assert(a[k] == x);
        }
    }
}

/// Text entry is offered by a text field whose value can be set and that is
/// not secure, and by nothing else.
pub proof fn text_entry_is_never_offered_by_secure_fields(
    role: UiRole,
    secure: bool,
    pressable: bool,
    focused_settable: bool,
    value_settable: bool,
    selected_settable: bool,
    expanded_settable: bool,
    expanded: Option<bool>,
)
    ensures
        actions_model(
            role,
            secure,
            pressable,
            focused_settable,
            value_settable,
            selected_settable,
            expanded_settable,
            expanded,
        ).contains(NativeAction::SetValue) <==> (value_settable && !secure && role
            == UiRole::TextField),
        !actions_model(
            role,
            secure,
            pressable,
            focused_settable,
            value_settable,
            selected_settable,
            expanded_settable,
            expanded,
        ).contains(NativeAction::Scroll),
{
    let a1 = only_if(pressable, press_action(role));
    let yes2 = selected_settable && !(pressable && role == UiRole::RadioButton);
    let a2 = a1 + only_if(yes2, NativeAction::Select);
    let yes3 = expanded_settable && expanded == Some(true);
    let a3 = a2 + only_if(yes3, NativeAction::Collapse);
    let yes4 = expanded_settable && expanded == Some(false);
    let a4 = a3 + only_if(yes4, NativeAction::Expand);
    let a5 = a4 + only_if(focused_settable, NativeAction::Focus);
    let yes6 = value_settable && !secure && role == UiRole::TextField;
    row_of_two(a1, yes2, NativeAction::Select);
    row_of_two(a2, yes3, NativeAction::Collapse);
    row_of_two(a3, yes4, NativeAction::Expand);
    row_of_two(a4, focused_settable, NativeAction::Focus);
    row_of_two(a5, yes6, NativeAction::SetValue);
    assert(!a1.contains(NativeAction::SetValue));
    assert(!a1.contains(NativeAction::Scroll));
}

/// The same for the two actions that the law speaks of.
proof fn row_of_two(a: Seq<NativeAction>, yes: bool, action: NativeAction)
    ensures
        (a + only_if(yes, action)).contains(NativeAction::SetValue) <==> a.contains(
            NativeAction::SetValue,
        ) || (yes && action == NativeAction::SetValue),
        (a + only_if(yes, action)).contains(NativeAction::Scroll) <==> a.contains(
            NativeAction::Scroll,
        ) || (yes && action == NativeAction::Scroll),
{
    in_row(a, yes, action, NativeAction::SetValue);
    in_row(a, yes, action, NativeAction::Scroll);
}

/// What choosing an action means, or why it cannot be chosen.
pub fn kind(action: NativeAction) -> (r: Result<CandidateKind, AutomationError>)
    ensures
        match r {
            Ok(k) => semantics::kind_model(action) == Some(k@),
            Err(e) => semantics::kind_model(action) is None && e@ == (
                ErrorKind::Candidates,
                "unsupported AX action"@,
            ),
        },
{
    match kind_of(action) {
        Some(k) => Ok(k),
        None => Err(AutomationError::candidates("unsupported AX action")),
    }
}

/// Words of actions that cannot be undone or that reach money, accounts or
/// permissions.
pub open spec fn critical_words() -> Seq<Seq<char>> {
    seq![
        "permanently delete"@,
        "永久删除"@,
        "delete account"@,
        "删除账号"@,
        "删除账户"@,
        "注销账号"@,
        "注销账户"@,
        "delete all data"@,
        "erase all data"@,
        "wipe all data"@,
        "删除所有数据"@,
        "清除所有数据"@,
        "factory reset"@,
        "恢复出厂设置"@,
        "format drive"@,
        "format disk"@,
        "格式化磁盘"@,
        "purchase"@,
        "place order"@,
        "buy now"@,
        "支付"@,
        "付款"@,
        "提交订单"@,
        "transfer funds"@,
        "wire transfer"@,
        "转账"@,
        "grant permission"@,
        "allow access"@,
        "授予权限"@,
        "允许访问"@,
        "security settings"@,
        "安全设置"@,
    ]
}

/// How far an action on a control reaches.
pub fn risk(action: NativeAction, name: &Option<String>) -> (r: RiskClass)
    ensures
        r == semantics::risk_model(action, model::opt_view(*name), critical_words()),
{
    let words: Vec<&'static str> = vec![
        "permanently delete",
        "永久删除",
        "delete account",
        "删除账号",
        "删除账户",
        "注销账号",
        "注销账户",
        "delete all data",
        "erase all data",
        "wipe all data",
        "删除所有数据",
        "清除所有数据",
        "factory reset",
        "恢复出厂设置",
        "format drive",
        "format disk",
        "格式化磁盘",
        "purchase",
        "place order",
        "buy now",
        "支付",
        "付款",
        "提交订单",
        "transfer funds",
        "wire transfer",
        "转账",
        "grant permission",
        "allow access",
        "授予权限",
        "允许访问",
        "security settings",
        "安全设置",
    ];
    assert(semantics::literals(words@) =~= critical_words());
    risk_of(action, name, &words)
}

/// Whether a usable control is the saved one and offers the action.
pub open spec fn matched(m: AxModel, l: LocatorModel, action: NativeAction) -> bool {
    shown(m) && QueryModel::actionable(l, action).answered(profile_of(m))
}

/// Whether a usable control is the saved one and offers the action.
pub fn matches_locator(meta: &Metadata, locator: &SemanticLocator, action: NativeAction) -> (r:
    bool)
    ensures
        r == matched(meta@, locator@, action),
{
    let query = target_query(locator, Some(action));
    meta.node.enabled && meta.node.visible && locate::answers(meta, &query)
}

/// The effects that an action is expected to have on its target.
pub fn effects(action: NativeAction, target: &str) -> (r: Vec<Predicate>)
    ensures
        model::seq_view(r@) == semantics::effects_model(action, target@),
{
    expected_effects(action, target)
}

/// The saved form of a control.
pub open spec fn locator_model(o: ObservationModel, m: AxModel, action: NativeAction) -> LocatorModel {
    LocatorModel {
        app_id: o.app.id,
        window_id: Some(o.window.id),
        window_title: Some(o.window.title),
        role: Some(m.node.role),
        automation_id: m.identifier,
        accessible_name: m.raw_name,
        ancestor_chain: m.ancestors,
        supported_action: Some(action),
        ordinal_hint: None,
    }
}

/// The candidate of an action.
pub open spec fn candidate_model(
    o: ObservationModel,
    m: AxModel,
    action: NativeAction,
    kind: KindModel,
    part: Seq<char>,
) -> CandidateModel {
    CandidateModel {
        id: "ax:"@ + part,
        observation_revision: o.revision,
        target: Some(m.node.opaque_id),
        kind,
        public_description: description(m, action),
        local_risk: semantics::risk_model(action, m.raw_name, critical_words()),
        preconditions: seq![
            semantics::target_predicate("semantic_element_exists"@, m.node.opaque_id),
        ],
        expected_effects: semantics::effects_model(action, m.node.opaque_id),
    }
}

/// What a candidate is bound to, where its action can be chosen.
pub open spec fn bound_model(
    st: AxStateModel,
    o: ObservationModel,
    m: AxModel,
    action: NativeAction,
    unique: bool,
    part: Seq<char>,
) -> Option<AxBoundModel> {
    match semantics::kind_model(action) {
        Some(kind) => Some(
            AxBoundModel {
                candidate: candidate_model(o, m, action, kind, part),
                locator: locator_model(o, m, action),
                action,
                window_token: st.window_token,
                require_unique_window: unique,
                scope: st.scope,
            },
        ),
        None => None,
    }
}

/// Where the binding of an id stands.
pub open spec fn bound_place(s: Seq<AxBoundModel>, id: Seq<char>) -> Option<int>
    decreases s.len(),
{
    if s.len() == 0 {
        None
    } else if s.last().candidate.id == id {
        Some(s.len() - 1)
    } else {
        bound_place(s.drop_last(), id)
    }
}

/// The bindings after one was added in place of an older one with its id.
pub open spec fn bound_with(s: Seq<AxBoundModel>, b: AxBoundModel) -> Seq<AxBoundModel> {
    match bound_place(s, b.candidate.id) {
        Some(i) => s.update(i, b),
        None => s.push(b),
    }
}

/// A place that was found is a place of the id.
proof fn bound_place_fits(s: Seq<AxBoundModel>, id: Seq<char>)
    ensures
        bound_place(s, id) matches Some(i) ==> 0 <= i < s.len() && s[i].candidate.id == id,
        bound_place(s, id) is None ==> forall|k: int|
            0 <= k < s.len() ==> (#[trigger] s[k]).candidate.id != id,
    decreases s.len(),
{
    if s.len() > 0 && s.last().candidate.id != id {
        bound_place_fits(s.drop_last(), id);
        if bound_place(s, id) is None {
            assert forall|k: int| 0 <= k < s.len() implies (#[trigger] s[k]).candidate.id != id by {
                if k < s.len() - 1 {
                    assert(s[k] == s.drop_last()[k]);
                }
            }
        }
    }
}

/// Finds the binding of an id.
fn find_bound(bounds: &Vec<AxBound>, id: &str) -> (r: Option<usize>)
    ensures
        match r {
            Some(i) => bound_place(model::seq_view(bounds@), id@) == Some(i as int) && i
                < bounds@.len() && bounds@[i as int].candidate.id@ == id@,
            None => bound_place(model::seq_view(bounds@), id@) is None,
        },
{
    let ghost s = model::seq_view(bounds@);
    let mut n: usize = bounds.len();
    assert(s.take(s.len() as int) == s);
    while n > 0
        invariant
            n <= bounds@.len(),
            s == model::seq_view(bounds@),
            bound_place(s, id@) == bound_place(s.take(n as int), id@),
        decreases n,
    {
        proof {
            assert(s.take(n as int).drop_last() == s.take(n - 1));
            assert(s.take(n as int).last() == bounds@[n - 1]@);
        }
        if same_text(bounds[n - 1].candidate.id.as_str(), id) {
            return Some(n - 1);
        }
        n = n - 1;
    }
    None
}

/// Adds a binding in place of an older one with its id.
fn add_bound(bounds: &mut Vec<AxBound>, b: AxBound)
    ensures
        model::seq_view(final(bounds)@) == bound_with(model::seq_view(old(bounds)@), b@),
{
    let ghost before = model::seq_view(bounds@);
    match find_bound(bounds, b.candidate.id.as_str()) {
        Some(i) => {
            bounds.set(i, b);
            assert(model::seq_view(bounds@) =~= before.update(i as int, b@));
        },
        None => {
            bounds.push(b);
            assert(model::seq_view(bounds@) =~= before.push(b@));
        },
    }
}

/// The bindings of the first `n` offers.
pub open spec fn issued_bounds(
    st: AxStateModel,
    o: ObservationModel,
    offers: Seq<AxOfferModel>,
    parts: Seq<Seq<char>>,
    n: int,
) -> Seq<AxBoundModel>
    decreases n,
{
    if n <= 0 {
        Seq::empty()
    } else {
        let f = offers[n - 1];
        let before = issued_bounds(st, o, offers, parts, n - 1);
        match bound_model(st, o, f.meta, f.action, false, parts[n - 1]) {
            Some(b) => bound_with(before, b),
            None => before,
        }
    }
}

/// Whether each of the first `n` offers can be chosen.
pub open spec fn choosable(offers: Seq<AxOfferModel>, n: int) -> bool {
    forall|i: int|
        0 <= i < n ==> semantics::kind_model((#[trigger] offers[i]).action) is Some
}

/// The candidates of an observation: the offers, then completion, a question
/// to the user, and giving up.
pub open spec fn issued(
    st: AxStateModel,
    o: ObservationModel,
    offers: Seq<AxOfferModel>,
    parts: Seq<Seq<char>>,
) -> Seq<CandidateModel> {
    let n = offers.len() as int;
    Seq::new(
        offers.len(),
        |i: int|
            bound_model(st, o, offers[i].meta, offers[i].action, false, parts[i])->Some_0.candidate,
    ).push(
        uia::control_candidate(
            o,
            "ax:"@ + parts[n],
            KindModel::Done,
            "The bounded goal is complete"@,
        ),
    ).push(
        uia::control_candidate(
            o,
            "ax:"@ + parts[n + 1],
            KindModel::AskUser,
            "Ask the user for information needed to continue"@,
        ),
    ).push(
        uia::control_candidate(
            o,
            "ax:"@ + parts[n + 2],
            KindModel::CannotProceed,
            "No offered semantic action can advance the goal"@,
        ),
    )
}

/// Why an observation cannot be used: it is not the latest.
pub open spec fn stale(st: AxStateModel, o: ObservationModel) -> bool {
    st.observation != Some(o)
}

/// The words for an observation that is not the latest.
pub open spec fn stale_error() -> (ErrorKind, Seq<char>) {
    (
        ErrorKind::Candidates,
        "AX observation is stale or was not created by this adapter"@,
    )
}

/// The revision of an observation: one more where the fingerprint is new.
pub open spec fn next_revision(st: AxStateModel, fingerprint: Seq<char>) -> u64 {
    if st.fingerprint == fingerprint {
        st.revision
    } else if st.revision == u64::MAX {
        u64::MAX
    } else {
        (st.revision + 1) as u64
    }
}

/// What is shown of a reading.
pub open spec fn shown_observation(
    st: AxStateModel,
    s: AxSnapshotModel,
    captured_at_ms: u64,
) -> ObservationModel {
    ObservationModel {
        revision: next_revision(st, s.fingerprint),
        fingerprint: s.fingerprint,
        app: s.app,
        window: s.window,
        nodes: Seq::new(s.metadata.len(), |i: int| s.metadata[i].node),
        truncated: s.truncated,
        captured_at_ms,
    }
}

/// The state after a reading was accepted.
pub open spec fn accepted_state(
    st: AxStateModel,
    s: AxSnapshotModel,
    scope: ScopeModel,
    captured_at_ms: u64,
) -> AxStateModel {
    AxStateModel {
        revision: next_revision(st, s.fingerprint),
        fingerprint: s.fingerprint,
        observation: Some(shown_observation(st, s, captured_at_ms)),
        metadata: s.metadata,
        window_token: s.window_token,
        window_unique: s.window_unique,
        scope,
        ..st
    }
}

/// Like readings keep the revision; a changed one gets a higher one while
/// there is one.
pub proof fn revision_follows_fingerprint(st: AxStateModel, fingerprint: Seq<char>)
    ensures
        st.fingerprint == fingerprint ==> next_revision(st, fingerprint) == st.revision,
        st.fingerprint != fingerprint && st.revision < u64::MAX ==> next_revision(st, fingerprint)
            == st.revision + 1,
{
}

/// The positions of the controls that are the saved one.
pub open spec fn matches_of(ms: Seq<AxModel>, l: LocatorModel, action: NativeAction) -> Seq<int>
    decreases ms.len(),
{
    if ms.len() == 0 {
        Seq::empty()
    } else {
        let before = matches_of(ms.drop_last(), l, action);
        if matched(ms.last(), l, action) {
            before.push(ms.len() - 1)
        } else {
            before
        }
    }
}

/// The control that a saved one is, or why none is; `window_check` is what
/// the comparison of the windows said.
pub open spec fn rebuild_place(
    st: AxStateModel,
    l: LocatorModel,
    action: NativeAction,
    o: ObservationModel,
    window_check: Result<(), (ErrorKind, Seq<char>)>,
) -> Result<int, (ErrorKind, Seq<char>)> {
    let found = matches_of(st.metadata, l, action);
    if semantics::kind_model(action) is None {
        Err((ErrorKind::Candidates, "unsupported AX action"@))
    } else if window_check is Err {
        Err(window_check->Err_0)
    } else if l.supported_action is Some && l.supported_action != Some(action) {
        Err(
            (ErrorKind::Candidates, "saved action does not match AX locator capability"@),
        )
    } else if stale(st, o) {
        Err(stale_error())
    } else if menu_chain(l.ancestor_chain) && !(exists|i: int|
        0 <= i < st.metadata.len() && (#[trigger] st.metadata[i]).origin == "menu"@) {
        Err(
            (
                ErrorKind::Candidates,
                "saved menu action requires an @menu observation or a menu region; refresh that scope before replay"@,
            ),
        )
    } else if !st.window_unique {
        Err(
            (
                ErrorKind::Candidates,
                "saved AX window identity is ambiguous; give the windows distinct titles or close the duplicate before replay"@,
            ),
        )
    } else if found.len() != 1 {
        Err(
            (
                ErrorKind::Candidates,
                "AX locator is missing or ambiguous; refresh the observation or specify ancestor context"@,
            ),
        )
    } else {
        Ok(found[0])
    }
}

/// The positions that were found are those of the controls that match.
proof fn matches_are_right(ms: Seq<AxModel>, l: LocatorModel, action: NativeAction)
    ensures
        forall|k: int|
            0 <= k < matches_of(ms, l, action).len() ==> 0 <= (#[trigger] matches_of(
                ms,
                l,
                action,
            )[k]) < ms.len() && matched(ms[matches_of(ms, l, action)[k]], l, action),
        forall|i: int|
            0 <= i < ms.len() && matched(#[trigger] ms[i], l, action) ==> matches_of(
                ms,
                l,
                action,
            ).contains(i),
    decreases ms.len(),
{
    if ms.len() > 0 {
        let rest = ms.drop_last();
        matches_are_right(rest, l, action);
        let before = matches_of(rest, l, action);
        let all = matches_of(ms, l, action);
        assert forall|k: int| 0 <= k < all.len() implies 0 <= (#[trigger] all[k]) < ms.len()
            && matched(ms[all[k]], l, action) by {
            if k < before.len() {
                assert(all[k] == before[k]);
                assert(ms[before[k]] == rest[before[k]]);
            }
        }
        assert forall|i: int| 0 <= i < ms.len() && matched(#[trigger] ms[i], l, action) implies all.contains(i) by {
            if i < rest.len() {
                assert(rest[i] == ms[i]);
                let k = before.index_of(i);
                assert(all[k] == i);
            } else {
                assert(all[all.len() - 1] == i);
            }
        }
    }
}

/// A saved control is rebuilt only where it is the one usable control that
/// matches, in a window that is unique.
pub proof fn rebuild_is_unambiguous(
    st: AxStateModel,
    l: LocatorModel,
    action: NativeAction,
    o: ObservationModel,
    window_check: Result<(), (ErrorKind, Seq<char>)>,
)
    ensures
        rebuild_place(st, l, action, o, window_check) matches Ok(i) ==> {
            &&& st.window_unique
            &&& st.observation == Some(o)
            &&& 0 <= i < st.metadata.len()
            &&& matched(st.metadata[i], l, action)
            &&& forall|k: int|
                0 <= k < st.metadata.len() && matched(#[trigger] st.metadata[k], l, action) ==> k
                    == i
        },
{
    matches_are_right(st.metadata, l, action);
    match rebuild_place(st, l, action, o, window_check) {
        Ok(i) => {
            let found = matches_of(st.metadata, l, action);
            assert forall|k: int|
                0 <= k < st.metadata.len() && matched(
                    #[trigger] st.metadata[k],
                    l,
                    action,
                ) implies k == i by {
                let j = found.index_of(k);
                assert(found[j] == k);
            }
        },
        Err(_) => {},
    }
}

/// What a candidate may do: nothing unless it is exactly the one that was
/// made, for the observation and the window that are current.
pub open spec fn authority(st: AxStateModel, o: ObservationModel, c: CandidateModel) -> Result<
    AxBoundModel,
    (ErrorKind, Seq<char>),
> {
    if stale(st, o) {
        Err(stale_error())
    } else {
        match bound_place(st.actions, c.id) {
            Some(i) => {
                let b = st.actions[i];
                if b.candidate != c {
                    Err(
                        (
                            ErrorKind::Execution,
                            "candidate was not created by this AX adapter or was modified"@,
                        ),
                    )
                } else if b.window_token != st.window_token || b.window_token == 0 {
                    Err(
                        (
                            ErrorKind::Execution,
                            "foreground AX window changed since the candidate was created"@,
                        ),
                    )
                } else {
                    Ok(b)
                }
            },
            None => Err(
                (
                    ErrorKind::Execution,
                    "candidate was not created by this AX adapter or was modified"@,
                ),
            ),
        }
    }
}

/// Only a candidate that was made and not changed can be acted on, and only
/// while its window is in front.
pub proof fn authority_is_bound_to_candidate_and_window(
    st: AxStateModel,
    o: ObservationModel,
    c: CandidateModel,
)
    ensures
        authority(st, o, c) matches Ok(b) ==> {
            &&& st.actions.contains(b)
            &&& b.candidate == c
            &&& b.window_token == st.window_token
            &&& b.window_token != 0
            &&& st.observation == Some(o)
        },
{
    bound_place_fits(st.actions, c.id);
    match authority(st, o, c) {
        Ok(b) => {
            let i = bound_place(st.actions, c.id)->Some_0;
            assert(st.actions[i] == b);
        },
        Err(_) => {},
    }
}

/// The adapter: a bound on the controls it reads, and what it remembers.
pub struct MacosAccessibilityAdapter {
    pub max_elements: usize,
    pub state: AxState,
}

/// The state before anything was observed.
pub open spec fn blank_state() -> AxStateModel {
    AxStateModel {
        revision: 0,
        fingerprint: Seq::empty(),
        observation: None,
        metadata: Seq::empty(),
        actions: Seq::empty(),
        window_token: 0,
        window_unique: false,
        scope: ScopeModel { app_id: None, window_id: None, subtree_id: None },
    }
}

impl Default for MacosAccessibilityAdapter {
    fn default() -> (r: Self)
        ensures
            r.max_elements == 200,
            r.state@ == blank_state(),
    {
        MacosAccessibilityAdapter::new(200)
    }
}

impl MacosAccessibilityAdapter {
    /// An adapter that reads at most so many controls, one at least and two
    /// hundred at most.
    pub fn new(max_elements: usize) -> (r: Self)
        ensures
            r.max_elements == if max_elements < 1 {
                1
            } else if max_elements > 200 {
                200
            } else {
                max_elements as int
            },
            r.state@ == blank_state(),
    {
        let max_elements: usize = if max_elements < 1 {
            1
        } else if max_elements > 200 {
            200
        } else {
            max_elements
        };
        let r = MacosAccessibilityAdapter {
            max_elements,
            state: AxState {
                revision: 0,
                fingerprint: String::new(),
                observation: None,
                metadata: Vec::new(),
                actions: Vec::new(),
                window_token: 0,
                window_unique: false,
                scope: ObservationScope { app_id: None, window_id: None, subtree_id: None },
            },
        };
        assert(r.state@ =~= blank_state());
        r
    }

    /// What the adapter can do; `trusted` says whether the system lets it.
    pub fn capabilities(&self, trusted: bool) -> (r: PlatformCapabilities)
        ensures
            r.supported@ == seq![
                PlatformCapability::ReadSemanticTree,
                PlatformCapability::NativeAction,
                PlatformCapability::WriteValue,
            ],
            r.accessibility_permission == trusted,
    {
        let r = PlatformCapabilities {
            supported: vec![
                PlatformCapability::ReadSemanticTree,
                PlatformCapability::NativeAction,
                PlatformCapability::WriteValue,
            ],
            accessibility_permission: trusted,
        };
        assert(r.supported@ =~= seq![
            PlatformCapability::ReadSemanticTree,
            PlatformCapability::NativeAction,
            PlatformCapability::WriteValue,
        ]);
        r
    }

    /// Accepts a reading and shows it.
    pub fn accept(
        &mut self,
        snapshot: AxSnapshot,
        scope: &ObservationScope,
        captured_at_ms: u64,
    ) -> (r: Observation)
        ensures
            final(self).max_elements == old(self).max_elements,
            r@ == shown_observation(old(self).state@, snapshot@, captured_at_ms),
            final(self).state@ == accepted_state(
                old(self).state@,
                snapshot@,
                scope@,
                captured_at_ms,
            ),
    {
        if !same_text(self.state.fingerprint.as_str(), snapshot.fingerprint.as_str()) {
            if self.state.revision < u64::MAX {
                self.state.revision = self.state.revision + 1;
            }
            self.state.fingerprint = snapshot.fingerprint.clone();
        }
        let mut nodes: Vec<UiNode> = Vec::new();
        let mut i: usize = 0;
        while i < snapshot.metadata.len()
            invariant
                i <= snapshot.metadata@.len(),
                nodes@.len() == i,
                forall|k: int|
                    0 <= k < i ==> (#[trigger] nodes@[k])@ == snapshot@.metadata[k].node,
            decreases snapshot.metadata@.len() - i,
        {
            nodes.push(snapshot.metadata[i].node.copied());
            i = i + 1;
        }
        let observation = Observation {
            revision: self.state.revision,
            fingerprint: snapshot.fingerprint.clone(),
            app: snapshot.app.copied(),
            window: snapshot.window.copied(),
            nodes,
            truncated: snapshot.truncated,
            captured_at_ms,
        };
        assert(observation@.nodes =~= shown_observation(
            old(self).state@,
            snapshot@,
            captured_at_ms,
        ).nodes);
        self.state.metadata = snapshot.metadata;
        self.state.window_token = snapshot.window_token;
        self.state.window_unique = snapshot.window_unique;
        self.state.scope = scope.copied();
        self.state.observation = Some(observation.copied());
        observation
    }

    /// Checks that an observation is the latest.
    pub fn current(&self, observation: &Observation) -> (r: Result<(), AutomationError>)
        ensures
            match r {
                Ok(_) => !stale(self.state@, observation@),
                Err(e) => stale(self.state@, observation@) && e@ == stale_error(),
            },
    {
        let fresh = match &self.state.observation {
            Some(o) => o.same(observation),
            None => false,
        };
        if fresh {
            Ok(())
        } else {
            Err(
                AutomationError::candidates(
                    "AX observation is stale or was not created by this adapter",
                ),
            )
        }
    }

    /// Where a saved control is to be looked for, given the latest observation.
    /// A window that is not known to be the only one of its identity is not
    /// searched.
    pub fn resolve_saved(&self, observation: &Observation, locator: &SemanticLocator) -> (r: Result<
        ReplayResolution,
        AutomationError,
    >)
        ensures
            model::result_view(r) == if stale(self.state@, observation@) {
                Err(stale_error())
            } else if !self.state@.window_unique {
                Err(
                    (
                        ErrorKind::Observation,
                        "saved AX window identity is ambiguous; select a unique window before replay"@,
                    ),
                )
            } else {
                resolution_model(self.state@.metadata, locator@)
            },
    {
        match self.current(observation) {
            Ok(_) => {},
            Err(e) => {
                return Err(e);
            },
        }
        if !self.state.window_unique {
            return Err(
                AutomationError::observation(
                    "saved AX window identity is ambiguous; select a unique window before replay",
                ),
            );
        }
        replay_resolution(&self.state.metadata, locator)
    }

    /// Makes a candidate under an id of the given part, and its binding.
    fn bind(
        &self,
        observation: &Observation,
        meta: &Metadata,
        action: NativeAction,
        unique: bool,
        part: &str,
    ) -> (r: Option<AxBound>)
        ensures
            model::opt_view(r) == bound_model(
                self.state@,
                observation@,
                meta@,
                action,
                unique,
                part@,
            ),
    {
        let kind = match kind_of(action) {
            Some(k) => k,
            None => {
                return None;
            },
        };
        let locator = SemanticLocator {
            app_id: observation.app.id.clone(),
            window_id: Some(observation.window.id.clone()),
            window_title: Some(observation.window.title.clone()),
            role: Some(meta.node.role),
            automation_id: copy_opt(&meta.identifier),
            accessible_name: copy_opt(&meta.raw_name),
            ancestor_chain: copy_all(&meta.ancestors),
            supported_action: Some(action),
            ordinal_hint: None,
        };
        let mut id = text::owned("ax:");
        id.append(part);
        let target = meta.node.opaque_id.as_str();
        let candidate = ActionCandidate {
            id,
            observation_revision: observation.revision,
            target: Some(meta.node.opaque_id.clone()),
            kind,
            public_description: describe(meta, action),
            local_risk: risk(action, &meta.raw_name),
            preconditions: vec![predicate("semantic_element_exists", target)],
            expected_effects: effects(action, target),
        };
        assert(candidate@.preconditions =~= seq![
            semantics::target_predicate("semantic_element_exists"@, meta@.node.opaque_id),
        ]);
        Some(
            AxBound {
                candidate,
                locator,
                action,
                window_token: self.state.window_token,
                require_unique_window: unique,
                scope: self.state.scope.copied(),
            },
        )
    }

    /// Issues offers as candidates under ids made of the given parts. Where an
    /// action cannot be chosen, none is issued, and what was bound before it
    /// stays bound.
    #[verifier::rlimit(40)]
    pub fn issue(
        &mut self,
        observation: &Observation,
        offers: &Vec<AxOffer>,
        parts: &Vec<String>,
    ) -> (r: Result<Vec<ActionCandidate>, AutomationError>)
        requires
            parts@.len() == offers@.len() + 3,
        ensures
            final(self).max_elements == old(self).max_elements,
            ({
                let fs = model::seq_view(offers@);
                let ps = model::seq_view(parts@);
                let st = old(self).state@;
                match r {
                    Ok(v) => {
                        &&& choosable(fs, fs.len() as int)
                        &&& model::seq_view(v@) == issued(st, observation@, fs, ps)
                        &&& final(self).state@ == (AxStateModel {
                            actions: issued_bounds(st, observation@, fs, ps, fs.len() as int),
                            ..st
                        })
                    },
                    Err(e) => e@ == (ErrorKind::Candidates, "unsupported AX action"@)
                        && exists|n: int|
                        {
                            &&& 0 <= n < fs.len()
                            &&& #[trigger] choosable(fs, n)
                            &&& semantics::kind_model(fs[n].action) is None
                            &&& final(self).state@ == (AxStateModel {
                                actions: issued_bounds(st, observation@, fs, ps, n),
                                ..st
                            })
                        },
                }
            }),
    {
        let ghost fs = model::seq_view(offers@);
        let ghost ps = model::seq_view(parts@);
        let ghost o = observation@;
        let ghost st = self.state@;
        let n: usize = offers.len();
        let total: usize = parts.len();
        let mut out: Vec<ActionCandidate> = Vec::new();
        let mut bounds: Vec<AxBound> = Vec::new();
        let ghost full = issued(st, o, fs, ps);
        assert(model::seq_view(bounds@) =~= issued_bounds(st, o, fs, ps, 0));
        let mut k: usize = 0;
        while k < n
            invariant
                k <= n == offers@.len(),
                fs == model::seq_view(offers@),
                ps == model::seq_view(parts@),
                o == observation@,
                st == self.state@,
                st == old(self).state@,
                self.max_elements == old(self).max_elements,
                ps.len() == n + 3,
                full == issued(st, o, fs, ps),
                choosable(fs, k as int),
                out@.len() == k,
                forall|j: int| 0 <= j < k ==> (#[trigger] out@[j])@ == full[j],
                model::seq_view(bounds@) == issued_bounds(st, o, fs, ps, k as int),
            decreases n - k,
        {
            let offer = &offers[k];
            assert(fs[k as int] == offer@);
            match self.bind(observation, &offer.meta, offer.action, false, parts[k].as_str()) {
                None => {
                    self.state.actions = bounds;
                    assert(choosable(fs, k as int));
                    return Err(AutomationError::candidates("unsupported AX action"));
                },
                Some(bound) => {
                    let candidate = bound.candidate.copied();
                    assert(candidate@ == full[k as int]);
                    add_bound(&mut bounds, bound);
                    out.push(candidate);
                },
            }
            k = k + 1;
        }
        out.push(
            make_control(
                observation,
                "ax:",
                parts[total - 3].as_str(),
                CandidateKind::Done,
                "The bounded goal is complete",
            ),
        );
        out.push(
            make_control(
                observation,
                "ax:",
                parts[total - 2].as_str(),
                CandidateKind::AskUser,
                "Ask the user for information needed to continue",
            ),
        );
        out.push(
            make_control(
                observation,
                "ax:",
                parts[total - 1].as_str(),
                CandidateKind::CannotProceed,
                "No offered semantic action can advance the goal",
            ),
        );
        assert(model::seq_view(out@) =~= full);
        self.state.actions = bounds;
        Ok(out)
    }

    /// The candidates of an observation, under fresh ids.
    pub fn build(&mut self, goal: &str, observation: &Observation) -> (r: Result<
        Vec<ActionCandidate>,
        AutomationError,
    >)
        ensures
            final(self).max_elements == old(self).max_elements,
            ({
                let st = old(self).state@;
                let o = observation@;
                let all = offered(goal@, st.metadata, st.metadata.len() as int);
                if stale(st, o) {
                    r matches Err(e) && e@ == stale_error() && final(self).state@ == st
                } else {
                    exists|order: Seq<usize>, parts: Seq<Seq<char>>|
                        {
                            let fs = arranged(all, order);
                            &&& #[trigger] semantics::is_ranking(scores_of(all), order)
                            &&& #[trigger] uia::fresh_parts(parts)
                            &&& parts.len() == all.len() + 3
                            &&& match r {
                                Ok(v) => choosable(fs, fs.len() as int) && model::seq_view(v@)
                                    == issued(st, o, fs, parts) && final(self).state@ == (
                                AxStateModel {
                                    actions: issued_bounds(st, o, fs, parts, fs.len() as int),
                                    ..st
                                }),
                                Err(e) => e@ == (
                                    ErrorKind::Candidates,
                                    "unsupported AX action"@,
                                ) && exists|n: int|
                                    {
                                        &&& 0 <= n < fs.len()
                                        &&& #[trigger] choosable(fs, n)
                                        &&& semantics::kind_model(fs[n].action) is None
                                        &&& final(self).state@ == (AxStateModel {
                                            actions: issued_bounds(st, o, fs, parts, n),
                                            ..st
                                        })
                                    },
                            }
                        }
                }
            }),
    {
        match self.current(observation) {
            Err(e) => {
                return Err(e);
            },
            Ok(_) => {},
        }
        let ranked = ranked_actions(goal, &self.state.metadata);
        let total: usize = ranked.len();
        let mut parts: Vec<String> = Vec::new();
        let mut i: usize = 0;
        while i < total
            invariant
                i <= total,
                parts@.len() == i,
                uia::fresh_parts(model::seq_view(parts@)),
            decreases total - i,
        {
            push_fresh(&mut parts);
            i = i + 1;
        }
        push_fresh(&mut parts);
        push_fresh(&mut parts);
        push_fresh(&mut parts);
        let ghost all = offered(goal@, self.state@.metadata, self.state@.metadata.len() as int);
        let ghost order = choose|order: Seq<usize>|
            #[trigger] semantics::is_ranking(scores_of(all), order) && model::seq_view(ranked@)
                == arranged(all, order);
        let r = self.issue(observation, &ranked, &parts);
        assert(semantics::is_ranking(scores_of(all), order));
        assert(uia::fresh_parts(model::seq_view(parts@)));
        r
    }

    /// The saved form of a candidate, where it is one that was made.
    pub fn semantic_locator(&self, candidate: &ActionCandidate) -> (r: Option<SemanticLocator>)
        ensures
            model::opt_view(r) == match bound_place(self.state@.actions, candidate@.id) {
                Some(i) => if self.state@.actions[i].candidate == candidate@ {
                    Some(self.state@.actions[i].locator)
                } else {
                    None
                },
                None => None,
            },
    {
        match find_bound(&self.state.actions, candidate.id.as_str()) {
            Some(i) => {
                let bound = &self.state.actions[i];
                if bound.candidate.same(candidate) {
                    Some(bound.locator.copied())
                } else {
                    None
                }
            },
            None => None,
        }
    }

    /// Whether a control of a menu was observed.
    fn sees_menu(&self) -> (r: bool)
        ensures
            r == exists|i: int|
                0 <= i < self.state@.metadata.len() && (#[trigger] self.state@.metadata[i]).origin
                    == "menu"@,
    {
        let ghost ms = self.state@.metadata;
        let mut i: usize = 0;
        while i < self.state.metadata.len()
            invariant
                i <= self.state.metadata@.len(),
                ms == model::seq_view(self.state.metadata@),
                forall|k: int| 0 <= k < i ==> (#[trigger] ms[k]).origin != "menu"@,
            decreases self.state.metadata@.len() - i,
        {
            if same_text(self.state.metadata[i].origin.as_str(), "menu") {
                assert(ms[i as int].origin == "menu"@);
                return true;
            }
            i = i + 1;
        }
        false
    }

    /// The control that a saved one is.
    fn place(
        &self,
        locator: &SemanticLocator,
        action: NativeAction,
        observation: &Observation,
        window_check: Result<(), AutomationError>,
    ) -> (r: Result<usize, AutomationError>)
        ensures
            match r {
                Ok(i) => rebuild_place(
                    self.state@,
                    locator@,
                    action,
                    observation@,
                    check_view(window_check),
                ) == Ok::<int, (ErrorKind, Seq<char>)>(i as int) && i
                    < self.state.metadata@.len() && semantics::kind_model(action) is Some,
                Err(e) => rebuild_place(
                    self.state@,
                    locator@,
                    action,
                    observation@,
                    check_view(window_check),
                ) == Err::<int, (ErrorKind, Seq<char>)>(e@),
            },
    {
        match kind(action) {
            Err(e) => {
                return Err(e);
            },
            Ok(_) => {},
        }
        match window_check {
            Err(e) => {
                return Err(e);
            },
            Ok(_) => {},
        }
        let other = match locator.supported_action {
            Some(a) => a != action,
            None => false,
        };
        if other {
            return Err(
                AutomationError::candidates("saved action does not match AX locator capability"),
            );
        }
        match self.current(observation) {
            Err(e) => {
                return Err(e);
            },
            Ok(_) => {},
        }
        if scope_is_menu(&locator.ancestor_chain) && !self.sees_menu() {
            return Err(
                AutomationError::candidates(
                    "saved menu action requires an @menu observation or a menu region; refresh that scope before replay",
                ),
            );
        }
        if !self.state.window_unique {
            return Err(
                AutomationError::candidates(
                    "saved AX window identity is ambiguous; give the windows distinct titles or close the duplicate before replay",
                ),
            );
        }
        let ghost ms = self.state@.metadata;
        let mut found: Vec<usize> = Vec::new();
        let mut i: usize = 0;
        while i < self.state.metadata.len()
            invariant
                i <= self.state.metadata@.len(),
                ms == model::seq_view(self.state.metadata@),
                found@.len() == matches_of(ms.take(i as int), locator@, action).len(),
                forall|k: int|
                    0 <= k < found@.len() ==> #[trigger] found@[k] == matches_of(
                        ms.take(i as int),
                        locator@,
                        action,
                    )[k],
                forall|k: int| 0 <= k < found@.len() ==> #[trigger] found@[k] < i,
            decreases self.state.metadata@.len() - i,
        {
            proof {
                assert(ms.take(i + 1).drop_last() == ms.take(i as int));
                assert(ms.take(i + 1).last() == self.state.metadata@[i as int]@);
            }
            if matches_locator(&self.state.metadata[i], locator, action) {
                found.push(i);
            }
            i = i + 1;
        }
        assert(ms.take(ms.len() as int) == ms);
        if found.len() != 1 {
            return Err(
                AutomationError::candidates(
                    "AX locator is missing or ambiguous; refresh the observation or specify ancestor context",
                ),
            );
        }
        Ok(found[0])
    }

    /// The candidate of a saved control under an id of the given part.
    /// `window_check` is what the comparison of the saved window with the
    /// observed one said.
    pub fn rebuild_with(
        &mut self,
        locator: &SemanticLocator,
        action: NativeAction,
        observation: &Observation,
        window_check: Result<(), AutomationError>,
        part: &str,
    ) -> (r: Result<ActionCandidate, AutomationError>)
        ensures
            final(self).max_elements == old(self).max_elements,
            ({
                let st = old(self).state@;
                match rebuild_place(
                    st,
                    locator@,
                    action,
                    observation@,
                    check_view(window_check),
                ) {
                    Err(e) => r matches Err(x) && x@ == e && final(self).state@ == st,
                    Ok(i) => {
                        let b = bound_model(
                            st,
                            observation@,
                            st.metadata[i],
                            action,
                            true,
                            part@,
                        )->Some_0;
                        r matches Ok(c) && c@ == b.candidate && final(self).state@ == (
                        AxStateModel { actions: bound_with(st.actions, b), ..st })
                    },
                }
            }),
    {
        let at: usize = match self.place(locator, action, observation, window_check) {
            Ok(i) => i,
            Err(e) => {
                return Err(e);
            },
        };
        let bound = match self.bind(observation, &self.state.metadata[at], action, true, part) {
            Some(b) => b,
            None => {
                return Err(AutomationError::candidates("unsupported AX action"));
            },
        };
        let candidate = bound.candidate.copied();
        add_bound(&mut self.state.actions, bound);
        Ok(candidate)
    }

    /// The candidate of a saved control, under a fresh id.
    pub fn rebuild_semantic_candidate(
        &mut self,
        locator: &SemanticLocator,
        action: NativeAction,
        observation: &Observation,
        window_check: Result<(), AutomationError>,
    ) -> (r: Result<ActionCandidate, AutomationError>)
        ensures
            final(self).max_elements == old(self).max_elements,
            ({
                let st = old(self).state@;
                match rebuild_place(
                    st,
                    locator@,
                    action,
                    observation@,
                    check_view(window_check),
                ) {
                    Err(e) => r matches Err(x) && x@ == e && final(self).state@ == st,
                    Ok(i) => exists|part: Seq<char>|
                        {
                            let b = bound_model(
                                st,
                                observation@,
                                st.metadata[i],
                                action,
                                true,
                                part,
                            )->Some_0;
                            &&& #[trigger] uia::fresh_part(part)
                            &&& r matches Ok(c) && c@ == b.candidate
                            &&& final(self).state@ == (AxStateModel {
                                actions: bound_with(st.actions, b),
                                ..st
                            })
                        },
                }
            }),
    {
        let part = crate::ids::fresh_simple();
        assert(uia::fresh_part(part@));
        self.rebuild_with(locator, action, observation, window_check, part.as_str())
    }

    /// What a candidate is bound to, where it may be acted on.
    pub fn authorize(&self, fresh: &Observation, action: &ActionCandidate) -> (r: Result<
        AxBound,
        AutomationError,
    >)
        ensures
            model::result_view(r) == authority(self.state@, fresh@, action@),
    {
        match self.current(fresh) {
            Err(e) => {
                return Err(e);
            },
            Ok(_) => {},
        }
        match find_bound(&self.state.actions, action.id.as_str()) {
            Some(i) => {
                let bound = &self.state.actions[i];
                if !bound.candidate.same(action) {
                    return Err(
                        AutomationError::execution(
                            "candidate was not created by this AX adapter or was modified",
                        ),
                    );
                }
                match check_window_binding(bound.window_token, self.state.window_token) {
                    Err(e) => Err(e),
                    Ok(_) => Ok(bound.copied()),
                }
            },
            None => Err(
                AutomationError::execution(
                    "candidate was not created by this AX adapter or was modified",
                ),
            ),
        }
    }
}

/// The outcome of a check.
pub open spec fn check_view(r: Result<(), AutomationError>) -> Result<(), (ErrorKind, Seq<char>)> {
    match r {
        Ok(_) => Ok(()),
        Err(e) => Err(e@),
    }
}

/// Why the worker that talks to the desktop gave no answer.
#[derive(Debug, Clone, Copy, PartialEq, Eq, Structural)]
pub enum WorkerFailure {
    Busy,
    TimedOut,
    Stopped,
}

/// The error for an observation without an answer.
pub fn observation_failure(failure: WorkerFailure) -> (r: AutomationError)
    ensures
        r@ == (
            ErrorKind::Observation,
            match failure {
                WorkerFailure::Busy => "AX worker is busy or unavailable"@,
                WorkerFailure::TimedOut => "AX observation timed out"@,
                WorkerFailure::Stopped => "AX worker stopped"@,
            },
        ),
{
    match failure {
        WorkerFailure::Busy => AutomationError::observation("AX worker is busy or unavailable"),
        WorkerFailure::TimedOut => AutomationError::observation("AX observation timed out"),
        WorkerFailure::Stopped => AutomationError::observation("AX worker stopped"),
    }
}

/// The error for an action without an answer. Whether it was carried out is not
/// known.
pub fn execution_failure(failure: WorkerFailure) -> (r: AutomationError)
    ensures
        r@ == (
            ErrorKind::Execution,
            match failure {
                WorkerFailure::Busy => "AX worker is busy or unavailable"@,
                WorkerFailure::TimedOut => "AX action timed out; reobserve before retrying"@,
                WorkerFailure::Stopped => "AX worker stopped"@,
            },
        ),
{
    match failure {
        WorkerFailure::Busy => AutomationError::execution("AX worker is busy or unavailable"),
        WorkerFailure::TimedOut => AutomationError::execution(
            "AX action timed out; reobserve before retrying",
        ),
        WorkerFailure::Stopped => AutomationError::execution("AX worker stopped"),
    }
}

/// The receipt of a dispatched action.
pub fn dispatch_receipt(candidate_id: &str) -> (r: ActionReceipt)
    ensures
        r@ == (ReceiptModel {
            candidate_id: candidate_id@,
            dispatched: true,
            detail: Some("macOS Accessibility action dispatched"@),
        }),
{
    ActionReceipt {
        candidate_id: owned(candidate_id),
        dispatched: true,
        detail: Some(owned("macOS Accessibility action dispatched")),
    }
}

/// Whether an action of a control could be carried out: the control is enabled
/// and visible and lists the action.
pub open spec fn can_act(m: AxModel, action: NativeAction) -> bool {
    m.node.enabled && m.node.visible && m.node.supported_actions.contains(action)
}

/// Whether one control could be taken for another: the same role, identifier,
/// name, ancestors and origin, and the action can be carried out on it.
pub open spec fn passes_for(k: AxModel, m: AxModel, action: NativeAction) -> bool {
    &&& can_act(k, action)
    &&& k.node.role == m.node.role
    &&& k.identifier == m.identifier
    &&& k.raw_name == m.raw_name
    &&& k.ancestors == m.ancestors
    &&& k.origin == m.origin
}

/// How many controls could be taken for one: of two lists, the sum; of a single
/// control, one where it could.
pub proof fn look_alikes_are_counted(
    a: Seq<AxModel>,
    b: Seq<AxModel>,
    k: AxModel,
    m: AxModel,
    action: NativeAction,
)
    ensures
        twins(a + b, m, action) == twins(a, m, action) + twins(b, m, action),
        twins(seq![k], m, action) == if passes_for(k, m, action) {
            1nat
        } else {
            0nat
        },
    decreases b.len(),
{
    assert(seq![k].drop_last() =~= Seq::<AxModel>::empty());
    assert(twins(seq![k].drop_last(), m, action) == 0);
    if b.len() == 0 {
        assert(a + b =~= a);
    } else {
        assert((a + b).last() == b.last());
        assert((a + b).drop_last() =~= a + b.drop_last());
        look_alikes_are_counted(a, b.drop_last(), k, m, action);
    }
}

/// The offers of one control.
proof fn offers_of_one_are_right(
    goal: Seq<char>,
    ms: Seq<AxModel>,
    m: AxModel,
    actions: Seq<NativeAction>,
)
    ensures
        ({
            let fs = offers_of(goal, ms, m, actions);
            &&& forall|k: int|
                0 <= k < fs.len() ==> (#[trigger] fs[k]).meta == m && actions.contains(fs[k].action)
                    && fs[k].score == uia::capped(fit(goal, m, fs[k].action)) && twins(
                    ms,
                    m,
                    fs[k].action,
                ) == 1
            &&& actions.no_duplicates() ==> forall|i: int, j: int|
                0 <= i < j < fs.len() ==> (#[trigger] fs[i]).action != (#[trigger] fs[j]).action
        }),
    decreases actions.len(),
{
    if actions.len() > 0 {
        let short = actions.drop_last();
        offers_of_one_are_right(goal, ms, m, short);
        let before = offers_of(goal, ms, m, short);
        let fs = offers_of(goal, ms, m, actions);
        assert forall|k: int| 0 <= k < fs.len() implies (#[trigger] fs[k]).meta == m
            && actions.contains(fs[k].action) && fs[k].score == uia::capped(
            fit(goal, m, fs[k].action),
        ) && twins(ms, m, fs[k].action) == 1 by {
            if k < before.len() {
                assert(fs[k] == before[k]);
                let i = choose|i: int| 0 <= i < short.len() && short[i] == before[k].action;
                assert(actions[i] == before[k].action);
            } else {
                assert(actions[actions.len() - 1] == fs[k].action);
            }
        }
        if actions.no_duplicates() {
            assert(short.no_duplicates());
            assert forall|i: int, j: int| 0 <= i < j < fs.len() implies (
            #[trigger] fs[i]).action != (#[trigger] fs[j]).action by {
                assert(fs[i] == before[i]);
                if j < before.len() {
                    assert(fs[j] == before[j]);
                } else {
                    let p = choose|p: int| 0 <= p < short.len() && short[p] == before[i].action;
                    assert(actions[p] == before[i].action);
                    assert(actions[actions.len() - 1] == fs[j].action);
                }
            }
        }
    }
}

/// Whether the controls differ in their ids and none lists an action twice.
pub open spec fn listed_once(ms: Seq<AxModel>) -> bool {
    &&& forall|i: int, j: int|
        0 <= i < j < ms.len() ==> (#[trigger] ms[i]).node.opaque_id != (
        #[trigger] ms[j]).node.opaque_id
    &&& forall|i: int|
        0 <= i < ms.len() ==> (#[trigger] ms[i]).node.supported_actions.no_duplicates()
}

/// The offers of the first controls.
proof fn offers_fit_their_controls(goal: Seq<char>, ms: Seq<AxModel>, n: int)
    requires
        0 <= n <= ms.len(),
    ensures
        ({
            let fs = offered(goal, ms, n);
            &&& forall|k: int|
                0 <= k < fs.len() ==> (exists|i: int| 0 <= i < n && ms[i] == (#[trigger] fs[k]).meta)
                    && can_act(fs[k].meta, fs[k].action) && fs[k].score == uia::capped(
                    fit(goal, fs[k].meta, fs[k].action),
                )
            &&& listed_once(ms) ==> forall|i: int, j: int|
                0 <= i < j < fs.len() ==> (#[trigger] fs[i]).meta.node.opaque_id != (
                #[trigger] fs[j]).meta.node.opaque_id || fs[i].action != fs[j].action
        }),
    decreases n,
{
    if n > 0 {
        let m = ms[n - 1];
        offers_fit_their_controls(goal, ms, n - 1);
        offers_of_one_are_right(goal, ms, m, m.node.supported_actions);
        let before = offered(goal, ms, n - 1);
        let fs = offered(goal, ms, n);
        let own = offers_of(goal, ms, m, m.node.supported_actions);
        assert forall|k: int| 0 <= k < fs.len() implies (exists|i: int|
            0 <= i < n && ms[i] == (#[trigger] fs[k]).meta) && can_act(fs[k].meta, fs[k].action)
            && fs[k].score == uia::capped(fit(goal, fs[k].meta, fs[k].action)) by {
            if k < before.len() {
                assert(fs[k] == before[k]);
                let i = choose|i: int| 0 <= i < n - 1 && ms[i] == before[k].meta;
                assert(0 <= i < n && ms[i] == fs[k].meta);
            } else {
                assert(fs[k] == own[k - before.len()]);
                assert(ms[n - 1] == fs[k].meta);
            }
        }
        if listed_once(ms) {
            assert forall|i: int, j: int| 0 <= i < j < fs.len() implies (
            #[trigger] fs[i]).meta.node.opaque_id != (#[trigger] fs[j]).meta.node.opaque_id
                || fs[i].action != fs[j].action by {
                if j < before.len() {
                    assert(fs[i] == before[i] && fs[j] == before[j]);
                } else if i < before.len() {
                    assert(fs[i] == before[i]);
                    assert(fs[j] == own[j - before.len()]);
                    let p = choose|p: int| 0 <= p < n - 1 && ms[p] == before[i].meta;
                    assert(ms[p].node.opaque_id != ms[n - 1].node.opaque_id);
                } else {
                    assert(fs[i] == own[i - before.len()]);
                    assert(fs[j] == own[j - before.len()]);
                    assert(ms[n - 1].node.supported_actions.no_duplicates());
                }
            }
        }
    }
}

/// Whether a candidate is for an action of a control.
pub open spec fn is_for(c: CandidateModel, m: AxModel, action: NativeAction) -> bool {
    c.target == Some(m.node.opaque_id) && semantics::kind_model(action) == Some(c.kind)
}

/// Whether a candidate is for an action that some observed control can take.
pub open spec fn is_for_some(c: CandidateModel, ms: Seq<AxModel>) -> bool {
    exists|i: int, action: NativeAction|
        0 <= i < ms.len() && #[trigger] can_act(ms[i], action) && is_for(c, ms[i], action)
}

/// Whether a candidate for an action of a control is in the list.
pub open spec fn candidate_for(cs: Seq<CandidateModel>, m: AxModel, action: NativeAction) -> bool {
    exists|k: int| 0 <= k < cs.len() && is_for(#[trigger] cs[k], m, action)
}

/// Every candidate with a target is for an action that an observed control
/// lists, and that control is enabled and visible. Every action of an enabled
/// and visible control that no other could be taken for has a candidate, and
/// just one where each control is observed once. Three candidates without a
/// target end the list: that the goal is complete, that the user be asked, and
/// that there is no way on.
pub proof fn candidates_are_the_possible_actions(
    st: AxStateModel,
    o: ObservationModel,
    goal: Seq<char>,
    order: Seq<usize>,
    parts: Seq<Seq<char>>,
)
    requires
        semantics::is_ranking(
            scores_of(offered(goal, st.metadata, st.metadata.len() as int)),
            order,
        ),
        choosable(
            arranged(offered(goal, st.metadata, st.metadata.len() as int), order),
            order.len() as int,
        ),
        parts.len() == order.len() + 3,
    ensures
        ({
            let ms = st.metadata;
            let fs = arranged(offered(goal, ms, ms.len() as int), order);
            let cs = issued(st, o, fs, parts);
            let n = order.len() as int;
            &&& cs.len() == n + 3
            &&& forall|k: int|
                0 <= k < n ==> is_for_some(#[trigger] cs[k], ms) && cs[k].observation_revision
                    == o.revision
            &&& forall|k: int|
                n <= k < cs.len() ==> (#[trigger] cs[k]).target is None && cs[k].local_risk
                    == RiskClass::ReadOnly
            &&& cs[n].kind == KindModel::Done
            &&& cs[n + 1].kind == KindModel::AskUser
            &&& cs[n + 2].kind == KindModel::CannotProceed
            &&& forall|i: int, action: NativeAction|
                0 <= i < ms.len() && #[trigger] can_act(ms[i], action) && twins(ms, ms[i], action)
                    == 1 ==> candidate_for(cs, ms[i], action)
            &&& listed_once(ms) ==> forall|a: int, b: int|
                0 <= a < b < n ==> (#[trigger] cs[a]).target != (#[trigger] cs[b]).target
                    || cs[a].kind != cs[b].kind
            &&& forall|a: int, b: int|
                0 <= a < b < n ==> uia::capped(
                    fit(goal, (#[trigger] fs[a]).meta, fs[a].action),
                ) >= uia::capped(fit(goal, (#[trigger] fs[b]).meta, fs[b].action))
        }),
{
    let ms = st.metadata;
    let all = offered(goal, ms, ms.len() as int);
    let fs = arranged(all, order);
    let cs = issued(st, o, fs, parts);
    let n = order.len() as int;
    offers_fit_their_controls(goal, ms, ms.len() as int);
    semantics::ranking_covers(scores_of(all), order);
    assert forall|k: int| 0 <= k < n implies is_for_some(#[trigger] cs[k], ms)
        && cs[k].observation_revision == o.revision by {
        let f = fs[k];
        assert(f == all[order[k] as int]);
        let i = choose|i: int| 0 <= i < ms.len() && ms[i] == f.meta;
        assert(can_act(ms[i], f.action));
        assert(is_for(cs[k], ms[i], f.action));
    }
    assert forall|i: int, action: NativeAction| 0 <= i < ms.len() && #[trigger] can_act(
        ms[i],
        action,
    ) && twins(ms, ms[i], action) == 1 implies candidate_for(cs, ms[i], action) by {
        every_unique_action_is_offered(goal, ms, i, action);
        let f = choose|f: int|
            0 <= f < all.len() && (#[trigger] all[f]).meta == ms[i] && all[f].action == action;
        assert(semantics::ranked_at(order, f));
        let k = choose|k: int| 0 <= k < order.len() && #[trigger] order[k] == f;
        assert(fs[k] == all[f]);
        assert(is_for(cs[k], ms[i], action));
    }
    if listed_once(ms) {
        assert forall|a: int, b: int| 0 <= a < b < n implies (#[trigger] cs[a]).target != (
        #[trigger] cs[b]).target || cs[a].kind != cs[b].kind by {
            let x = order[a] as int;
            let y = order[b] as int;
            assert(x != y);
            assert(fs[a] == all[x] && fs[b] == all[y]);
            assert(all[x].meta.node.opaque_id != all[y].meta.node.opaque_id || all[x].action
                != all[y].action);
        }
    }
    assert forall|a: int, b: int| 0 <= a < b < n implies uia::capped(
        fit(goal, (#[trigger] fs[a]).meta, fs[a].action),
    ) >= uia::capped(fit(goal, (#[trigger] fs[b]).meta, fs[b].action)) by {
        semantics::best_comes_first(scores_of(all), order, a, b);
        assert(fs[a] == all[order[a] as int] && fs[b] == all[order[b] as int]);
        assert(scores_of(all)[order[a] as int] == fs[a].score);
        assert(scores_of(all)[order[b] as int] == fs[b].score);
    }
}

/// A candidate is made for its control: its description, its risk by the
/// control's own name, that the control must be there, and what it brings about.
pub proof fn candidate_tells_its_action(
    o: ObservationModel,
    m: AxModel,
    action: NativeAction,
    kind: KindModel,
    part: Seq<char>,
)
    ensures
        candidate_model(o, m, action, kind, part).id == "ax:"@ + part,
        candidate_model(o, m, action, kind, part).target == Some(m.node.opaque_id),
        candidate_model(o, m, action, kind, part).kind == kind,
        candidate_model(o, m, action, kind, part).public_description == description(m, action),
        candidate_model(o, m, action, kind, part).local_risk == semantics::risk_model(
            action,
            m.raw_name,
            critical_words(),
        ),
        candidate_model(o, m, action, kind, part).preconditions.len() == 1,
        candidate_model(o, m, action, kind, part).preconditions[0].name
            == "semantic_element_exists"@,
        candidate_model(o, m, action, kind, part).preconditions[0].arguments.len() == 1,
        candidate_model(o, m, action, kind, part).preconditions[0].arguments[0].key == "target"@,
        candidate_model(o, m, action, kind, part).preconditions[0].arguments[0].value
            == m.node.opaque_id,
        candidate_model(o, m, action, kind, part).expected_effects == semantics::effects_model(
            action,
            m.node.opaque_id,
        ),
{
}

/// What makes an action fit a goal: that the goal holds the control's name is
/// worth a hundred and twenty, each word of the goal in the name forty, each word
/// in the names around it fifteen, the focus thirty, and pressing or text entry
/// eighteen.
pub proof fn fit_is_weighed(goal: Seq<char>, m: AxModel, action: NativeAction)
    requires
        m.node.name is Some,
        text::lowercased(m.node.name->Some_0).len() > 0,
        action != NativeAction::SetValue,
        action != NativeAction::Invoke,
    ensures
        fit(goal, AxModel { node: NodeModel { focused: true, ..m.node }, ..m }, action) == fit(
            goal,
            AxModel { node: NodeModel { focused: false, ..m.node }, ..m },
            action,
        ) + 30,
        fit(goal, m, NativeAction::Invoke) == fit(goal, m, action) + 18,
        fit(goal, m, NativeAction::SetValue) == fit(goal, m, action) + 18,
        ({
            let words = semantics::tokens(text::lowercased(goal));
            let name = text::lowercased(m.node.name->Some_0);
            let around = text::lowercased(text::joined(named(m.ancestors), " "@));
            &&& !m.node.focused && text::has_part(text::lowercased(goal), name) ==> fit(
                goal,
                m,
                action,
            ) == 120 + 40 * uia::token_hits(words, name) + 15 * uia::token_hits(words, around)
            &&& !m.node.focused && !text::has_part(text::lowercased(goal), name) ==> fit(
                goal,
                m,
                action,
            ) == 40 * uia::token_hits(words, name) + 15 * uia::token_hits(words, around)
        }),
{
}

/// The names along two chains together are those of the one and then those of
/// the other; a control without a name gives none.
pub proof fn names_stand_from_the_outside(
    a: Seq<ContextModel>,
    b: Seq<ContextModel>,
    c: ContextModel,
)
    ensures
        named(a + b) == named(a) + named(b),
        c.accessible_name matches Some(s) ==> named(seq![c]) == seq![s],
        c.accessible_name is None ==> named(seq![c]) == Seq::<Seq<char>>::empty(),
    decreases b.len(),
{
    assert(seq![c].drop_last() =~= Seq::<ContextModel>::empty());
    assert(named(seq![c].drop_last()) =~= Seq::<Seq<char>>::empty());
    if b.len() == 0 {
        assert(a + b =~= a);
        assert(named(a) + named(b) =~= named(a));
    } else {
        assert((a + b).last() == b.last());
        assert((a + b).drop_last() =~= a + b.drop_last());
        names_stand_from_the_outside(a, b.drop_last(), c);
        match b.last().accessible_name {
            Some(s) => {
                assert((named(a) + named(b.drop_last())).push(s) =~= named(a) + named(
                    b.drop_last(),
                ).push(s));
            },
            None => {},
        }
    }
}

/// Of the names around a control the nearest three are shown, each shortened and
/// without what may be secret.
pub proof fn nearest_names_are_shown(a: Seq<Seq<char>>, x: Seq<char>, y: Seq<char>, z: Seq<char>)
    ensures
        shown_names(a + seq![x, y, z]) == seq![
            text::clipped(semantics::redacted(x), 32),
            text::clipped(semantics::redacted(y), 32),
            text::clipped(semantics::redacted(z), 32),
        ],
        shown_names(seq![x, y]) == seq![
            text::clipped(semantics::redacted(x), 32),
            text::clipped(semantics::redacted(y), 32),
        ],
        shown_names(seq![x]) == seq![text::clipped(semantics::redacted(x), 32)],
        shown_names(Seq::empty()) == Seq::<Seq<char>>::empty(),
{
    let all = a + seq![x, y, z];
    if a.len() > 0 {
        assert(all.skip(all.len() - 3) =~= seq![x, y, z]);
    } else {
        assert(all =~= seq![x, y, z]);
    }
    assert(shown_names(all) =~= seq![
        text::clipped(semantics::redacted(x), 32),
        text::clipped(semantics::redacted(y), 32),
        text::clipped(semantics::redacted(z), 32),
    ]);
    assert(shown_names(seq![x, y]) =~= seq![
        text::clipped(semantics::redacted(x), 32),
        text::clipped(semantics::redacted(y), 32),
    ]);
    assert(shown_names(seq![x]) =~= seq![text::clipped(semantics::redacted(x), 32)]);
    assert(shown_names(Seq::empty()) =~= Seq::<Seq<char>>::empty());
}

/// An observation shows what was captured, in order, and the adapter remembers
/// the same; what it has bound stays.
pub proof fn observation_is_what_was_captured(
    st: AxStateModel,
    s: AxSnapshotModel,
    scope: ScopeModel,
    now_ms: u64,
    i: int,
)
    requires
        0 <= i < s.metadata.len(),
    ensures
        shown_observation(st, s, now_ms).nodes.len() == s.metadata.len(),
        shown_observation(st, s, now_ms).nodes[i] == s.metadata[i].node,
        shown_observation(st, s, now_ms).fingerprint == s.fingerprint,
        shown_observation(st, s, now_ms).app == s.app,
        shown_observation(st, s, now_ms).window == s.window,
        shown_observation(st, s, now_ms).captured_at_ms == now_ms,
        shown_observation(st, s, now_ms).truncated == s.truncated,
        accepted_state(st, s, scope, now_ms).revision == shown_observation(
            st,
            s,
            now_ms,
        ).revision,
        accepted_state(st, s, scope, now_ms).fingerprint == s.fingerprint,
        accepted_state(st, s, scope, now_ms).observation == Some(
            shown_observation(st, s, now_ms),
        ),
        accepted_state(st, s, scope, now_ms).metadata == s.metadata,
        accepted_state(st, s, scope, now_ms).actions == st.actions,
        accepted_state(st, s, scope, now_ms).window_token == s.window_token,
        accepted_state(st, s, scope, now_ms).window_unique == s.window_unique,
        accepted_state(st, s, scope, now_ms).scope == scope,
        !stale(accepted_state(st, s, scope, now_ms), shown_observation(st, s, now_ms)),
{
}

/// A saved target is looked for as its locator says: where it is there, nothing
/// more is needed; else the ancestor to look in is the one that was found; and
/// what is ambiguous or missing is an error of observing.
pub proof fn saved_target_is_looked_for(ms: Seq<AxModel>, l: LocatorModel)
    ensures
        locate::replayed(profiles_of(ms), l, true) is Target ==> resolution_model(ms, l) == Ok::<
            ResolutionModel,
            (ErrorKind, Seq<char>),
        >(ResolutionModel::Target),
        locate::replayed(profiles_of(ms), l, true) matches Replay::Region(i) ==> resolution_model(
            ms,
            l,
        ) == Ok::<ResolutionModel, (ErrorKind, Seq<char>)>(
            ResolutionModel::Region(ms[i as int].node.opaque_id),
        ),
        locate::replayed(profiles_of(ms), l, true) is AmbiguousTarget || locate::replayed(
            profiles_of(ms),
            l,
            true,
        ) is AmbiguousRegion || locate::replayed(profiles_of(ms), l, true) is Missing
            ==> resolution_model(ms, l) is Err && resolution_model(ms, l)->Err_0.0
            == ErrorKind::Observation,
{
}

/// A chain leads through a menu where it names the menu's mark.
pub proof fn menu_is_known_by_its_mark(chain: Seq<ContextModel>, i: int)
    ensures
        0 <= i < chain.len() && chain[i].automation_id == Some("nuphus:scope:menu"@) ==> menu_chain(
            chain,
        ),
        menu_chain(chain) ==> exists|k: int|
            0 <= k < chain.len() && (#[trigger] chain[k]).automation_id == Some(
                "nuphus:scope:menu"@,
            ),
{
}

/// What a control can be made to do follows from its role and from what can be
/// set on it.
pub proof fn actions_follow_from_the_control(
    role: UiRole,
    secure: bool,
    pressable: bool,
    focused_settable: bool,
    value_settable: bool,
    selected_settable: bool,
    expanded_settable: bool,
    expanded: Option<bool>,
)
    ensures
        ({
            let all = actions_model(
                role,
                secure,
                pressable,
                focused_settable,
                value_settable,
                selected_settable,
                expanded_settable,
                expanded,
            );
            &&& all.contains(NativeAction::Invoke) <==> (pressable && role != UiRole::CheckBox
                && role != UiRole::RadioButton)
            &&& all.contains(NativeAction::Toggle) <==> (pressable && role == UiRole::CheckBox)
            &&& all.contains(NativeAction::Select) <==> (selected_settable || (pressable && role
                == UiRole::RadioButton))
            &&& all.contains(NativeAction::Expand) <==> (expanded_settable && expanded
                == Some(false))
            &&& all.contains(NativeAction::Collapse) <==> (expanded_settable && expanded
                == Some(true))
            &&& all.contains(NativeAction::Focus) <==> focused_settable
            &&& all.no_duplicates()
        }),
{
    let p = only_if(pressable, press_action(role));
    let s = only_if(
        selected_settable && !(pressable && role == UiRole::RadioButton),
        NativeAction::Select,
    );
    let c = only_if(expanded_settable && expanded == Some(true), NativeAction::Collapse);
    let e = only_if(expanded_settable && expanded == Some(false), NativeAction::Expand);
    let f = only_if(focused_settable, NativeAction::Focus);
    let v = only_if(
        value_settable && !secure && role == UiRole::TextField,
        NativeAction::SetValue,
    );
    let all = p + s + c + e + f + v;
    let a = p.len() as int;
    let b = a + s.len();
    let d = b + c.len();
    let g = d + e.len();
    let h = g + f.len();
    assert(p.len() == 1 ==> all[0] == press_action(role));
    assert(s.len() == 1 ==> all[a] == NativeAction::Select);
    assert(c.len() == 1 ==> all[b] == NativeAction::Collapse);
    assert(e.len() == 1 ==> all[d] == NativeAction::Expand);
    assert(f.len() == 1 ==> all[g] == NativeAction::Focus);
    assert(v.len() == 1 ==> all[h] == NativeAction::SetValue);
    assert(all.len() == h + v.len());
    assert forall|k: int| 0 <= k < all.len() implies ({
        ||| p.len() == 1 && k == 0 && #[trigger] all[k] == press_action(role)
        ||| s.len() == 1 && k == a && all[k] == NativeAction::Select
        ||| c.len() == 1 && k == b && all[k] == NativeAction::Collapse
        ||| e.len() == 1 && k == d && all[k] == NativeAction::Expand
        ||| f.len() == 1 && k == g && all[k] == NativeAction::Focus
        ||| v.len() == 1 && k == h && all[k] == NativeAction::SetValue
    }) by {}
}

/// Windows, buttons and fields are known by the system's names for them, and
/// nothing else is taken for one.
pub proof fn role_names_are_known(s: Seq<char>)
    ensures
        role_model(s) == UiRole::Window <==> s == "AXWindow"@ || s == "AXSheet"@,
        role_model(s) == UiRole::Button ==> s == "AXButton"@ || s == "AXPopUpButton"@ || s
            == "AXLink"@,
        role_model(s) == UiRole::TextField ==> s == "AXTextField"@ || s == "AXTextArea"@ || s
            == "AXComboBox"@,
        role_model(s) == UiRole::CheckBox ==> s == "AXCheckBox"@ || s == "AXSwitch"@,
        role_model(s) == UiRole::RadioButton ==> s == "AXRadioButton"@,
        role_model(s) == UiRole::List ==> s == "AXList"@ || s == "AXOutline"@ || s == "AXTable"@,
        role_model(s) == UiRole::ListItem ==> s == "AXRow"@ || s == "AXCell"@,
        role_model(s) == UiRole::Menu ==> s == "AXMenu"@ || s == "AXMenuBar"@,
        role_model(s) == UiRole::MenuItem ==> s == "AXMenuItem"@ || s == "AXMenuBarItem"@,
        role_model(s) == UiRole::Tab ==> s == "AXTabGroup"@,
        role_model(s) == UiRole::Document ==> s == "AXDocument"@ || s == "AXWebArea"@,
        role_model(s) == UiRole::Other ==> s != "AXButton"@ && s != "AXPopUpButton"@ && s
            != "AXLink"@ && s != "AXTextField"@ && s != "AXTextArea"@ && s != "AXComboBox"@ && s
            != "AXCheckBox"@ && s != "AXSwitch"@ && s != "AXRadioButton"@ && s != "AXList"@ && s
            != "AXOutline"@ && s != "AXTable"@ && s != "AXRow"@ && s != "AXCell"@ && s
            != "AXMenu"@ && s != "AXMenuBar"@ && s != "AXMenuItem"@ && s != "AXMenuBarItem"@ && s
            != "AXTabGroup"@ && s != "AXDocument"@ && s != "AXWebArea"@,
{
}

/// A saved locator holds what the control is and where it was observed.
pub proof fn saved_locator_holds_the_control(o: ObservationModel, m: AxModel, action: NativeAction)
    ensures
        locator_model(o, m, action).app_id == o.app.id,
        locator_model(o, m, action).window_id == Some(o.window.id),
        locator_model(o, m, action).window_title == Some(o.window.title),
        locator_model(o, m, action).role == Some(m.node.role),
        locator_model(o, m, action).automation_id == m.identifier,
        locator_model(o, m, action).accessible_name == m.raw_name,
        locator_model(o, m, action).ancestor_chain == m.ancestors,
        locator_model(o, m, action).supported_action == Some(action),
        locator_model(o, m, action).ordinal_hint is None,
        can_act(m, action) ==> matched(m, locator_model(o, m, action), action),
{
}

/// What an action is bound to: its candidate, the saved form, and the window that
/// was in front. An action that cannot be chosen is bound to nothing.
pub proof fn action_is_bound_to_its_window(
    st: AxStateModel,
    o: ObservationModel,
    m: AxModel,
    action: NativeAction,
    unique: bool,
    part: Seq<char>,
)
    ensures
        bound_model(st, o, m, action, unique, part) is None <==> action == NativeAction::Scroll,
        bound_model(st, o, m, action, unique, part) matches Some(b) ==> {
            &&& is_for(b.candidate, m, action)
            &&& b.candidate.id == "ax:"@ + part
            &&& b.locator == locator_model(o, m, action)
            &&& b.action == action
            &&& b.window_token == st.window_token
            &&& b.require_unique_window == unique
            &&& b.scope == st.scope
        },
{
}

/// Where an id is bound.
proof fn bound_place_is_at(s: Seq<AxBoundModel>, id: Seq<char>)
    ensures
        match bound_place(s, id) {
            Some(i) => 0 <= i < s.len() && s[i].candidate.id == id,
            None => forall|k: int| 0 <= k < s.len() ==> (#[trigger] s[k]).candidate.id != id,
        },
    decreases s.len(),
{
    if s.len() > 0 && s.last().candidate.id != id {
        let short = s.drop_last();
        bound_place_is_at(short, id);
        match bound_place(short, id) {
            Some(i) => {
                assert(short[i] == s[i]);
            },
            None => {
                assert forall|k: int| 0 <= k < s.len() implies (
                #[trigger] s[k]).candidate.id != id by {
                    if k < short.len() {
                        assert(short[k] == s[k]);
                    }
                }
            },
        }
    }
}

/// What is bound under an id.
pub open spec fn bound_under(s: Seq<AxBoundModel>, id: Seq<char>) -> Option<AxBoundModel> {
    match bound_place(s, id) {
        Some(i) => Some(s[i]),
        None => None,
    }
}

/// What is bound under an id is what was bound under it last; other ids keep
/// theirs.
pub proof fn bound_is_found(s: Seq<AxBoundModel>, b: AxBoundModel, other: Seq<char>)
    ensures
        bound_under(bound_with(s, b), b.candidate.id) == Some(b),
        other != b.candidate.id ==> bound_under(bound_with(s, b), other) == bound_under(s, other),
        bound_under(Seq::empty(), other) is None,
    decreases s.len(),
{
    let id = b.candidate.id;
    bound_place_is_at(s, id);
    match bound_place(s, id) {
        None => {
            assert(s.push(b).drop_last() =~= s);
            bound_place_is_at(s, other);
        },
        Some(i) => {
            let t = s.update(i, b);
            let short = s.drop_last();
            bound_place_is_at(short, other);
            if i == s.len() - 1 {
                assert(t.drop_last() =~= short);
            } else {
                assert(t.drop_last() =~= short.update(i, b));
                bound_is_found(short, b, other);
                bound_place_is_at(t.drop_last(), id);
                bound_place_is_at(t.drop_last(), other);
            }
        },
    }
}

/// What is bound under an issued id.
proof fn issued_bounds_are_right(
    st: AxStateModel,
    o: ObservationModel,
    offers: Seq<AxOfferModel>,
    parts: Seq<Seq<char>>,
    n: int,
    k: int,
)
    requires
        0 <= k < n,
        choosable(offers, n),
        forall|i: int, j: int| 0 <= i < j < n ==> #[trigger] parts[i] != #[trigger] parts[j],
    ensures
        bound_under(issued_bounds(st, o, offers, parts, n), "ax:"@ + parts[k]) == bound_model(
            st,
            o,
            offers[k].meta,
            offers[k].action,
            false,
            parts[k],
        ),
    decreases n,
{
    let f = offers[n - 1];
    let before = issued_bounds(st, o, offers, parts, n - 1);
    let b = bound_model(st, o, f.meta, f.action, false, parts[n - 1])->Some_0;
    bound_is_found(before, b, "ax:"@ + parts[k]);
    if k < n - 1 {
        issued_bounds_are_right(st, o, offers, parts, n - 1, k);
        let l = "ax:"@.len() as int;
        assert(("ax:"@ + parts[n - 1]).skip(l) =~= parts[n - 1]);
        assert(("ax:"@ + parts[k]).skip(l) =~= parts[k]);
        assert(parts[k] != parts[n - 1]);
    }
}

/// A candidate that was issued is accepted as long as the observation is the
/// latest and a window is in front; what is then carried out is the action
/// offered, on the control offered.
pub proof fn issued_candidates_are_accepted(
    st: AxStateModel,
    o: ObservationModel,
    offers: Seq<AxOfferModel>,
    parts: Seq<Seq<char>>,
    k: int,
)
    requires
        0 <= k < offers.len(),
        choosable(offers, offers.len() as int),
        parts.len() == offers.len() + 3,
        forall|i: int, j: int|
            0 <= i < j < parts.len() ==> #[trigger] parts[i] != #[trigger] parts[j],
        st.observation == Some(o),
        st.window_token != 0,
    ensures
        ({
            let c = issued(st, o, offers, parts)[k];
            let n = offers.len() as int;
            let now = AxStateModel { actions: issued_bounds(st, o, offers, parts, n), ..st };
            &&& authority(now, o, c) is Ok
            &&& authority(now, o, c)->Ok_0.candidate == c
            &&& authority(now, o, c)->Ok_0.action == offers[k].action
            &&& authority(now, o, c)->Ok_0.locator == locator_model(
                o,
                offers[k].meta,
                offers[k].action,
            )
        }),
{
    issued_bounds_are_right(st, o, offers, parts, offers.len() as int, k);
    assert(semantics::kind_model(offers[k].action) is Some);
    let c = issued(st, o, offers, parts)[k];
    assert(c.id == "ax:"@ + parts[k]);
}

/// A candidate is refused where the observation is not the latest, where it was
/// not issued or was changed, and where another window is in front; else it is
/// accepted.
pub proof fn changed_candidates_are_refused(st: AxStateModel, o: ObservationModel, c: CandidateModel)
    ensures
        authority(st, o, c) is Ok <==> (st.observation == Some(o) && bound_under(
            st.actions,
            c.id,
        ) is Some && bound_under(st.actions, c.id)->Some_0.candidate == c && bound_under(
            st.actions,
            c.id,
        )->Some_0.window_token == st.window_token && st.window_token != 0),
        st.observation == Some(o) && authority(st, o, c) is Err ==> authority(st, o, c)->Err_0.0
            == ErrorKind::Execution,
        st.observation != Some(o) ==> authority(st, o, c) is Err && authority(st, o, c)->Err_0.0
            == ErrorKind::Candidates,
{
}

/// No place is listed twice among the controls that match.
proof fn matches_are_listed_once(ms: Seq<AxModel>, l: LocatorModel, action: NativeAction)
    ensures
        matches_of(ms, l, action).no_duplicates(),
    decreases ms.len(),
{
    if ms.len() > 0 {
        matches_are_listed_once(ms.drop_last(), l, action);
        matches_are_right(ms.drop_last(), l, action);
    }
}

/// A saved action is found again where its window was confirmed and is the only
/// one of its identity, the observation is the latest, and just one enabled and
/// visible control fits it. A menu's action needs an observation of the menu.
pub proof fn saved_action_is_found_again(
    st: AxStateModel,
    l: LocatorModel,
    action: NativeAction,
    o: ObservationModel,
    i: int,
)
    requires
        0 <= i < st.metadata.len(),
        matched(st.metadata[i], l, action),
        forall|j: int|
            0 <= j < st.metadata.len() && matched(#[trigger] st.metadata[j], l, action) ==> j == i,
        st.observation == Some(o),
        st.window_unique,
        l.supported_action is None || l.supported_action == Some(action),
        action != NativeAction::Scroll,
        st.metadata[i].origin == "menu"@ || !menu_chain(l.ancestor_chain),
    ensures
        rebuild_place(st, l, action, o, Ok(())) == Ok::<int, (ErrorKind, Seq<char>)>(i),
{
    matches_are_right(st.metadata, l, action);
    matches_are_listed_once(st.metadata, l, action);
    let found = matches_of(st.metadata, l, action);
    assert(found.contains(i));
    assert(found[0] == i);
    if found.len() > 1 {
        assert(found[1] == i);
    }
}

/// A saved action is refused where its window was not confirmed or is not the
/// only one, for another action, for scrolling, and where no control or more
/// than one fits it.
pub proof fn saved_action_is_refused_elsewhere(
    st: AxStateModel,
    l: LocatorModel,
    action: NativeAction,
    o: ObservationModel,
    e: (ErrorKind, Seq<char>),
    i: int,
    j: int,
)
    ensures
        rebuild_place(st, l, action, o, Err(e)) is Err,
        action != NativeAction::Scroll ==> rebuild_place(st, l, action, o, Err(e)) == Err::<
            int,
            (ErrorKind, Seq<char>),
        >(e),
        rebuild_place(st, l, NativeAction::Scroll, o, Ok(())) is Err,
        !st.window_unique ==> rebuild_place(st, l, action, o, Ok(())) is Err,
        st.observation != Some(o) ==> rebuild_place(st, l, action, o, Ok(())) is Err,
        l.supported_action is Some && l.supported_action != Some(action) ==> rebuild_place(
            st,
            l,
            action,
            o,
            Ok(()),
        ) is Err,
        menu_chain(l.ancestor_chain) && (forall|k: int|
            0 <= k < st.metadata.len() ==> (#[trigger] st.metadata[k]).origin != "menu"@)
            ==> rebuild_place(st, l, action, o, Ok(())) is Err,
        0 <= i < j < st.metadata.len() && matched(st.metadata[i], l, action) && matched(
            st.metadata[j],
            l,
            action,
        ) ==> rebuild_place(st, l, action, o, Ok(())) is Err,
        (forall|k: int|
            0 <= k < st.metadata.len() ==> !matched(#[trigger] st.metadata[k], l, action))
            ==> rebuild_place(st, l, action, o, Ok(())) is Err,
        matched(st.metadata[i], l, action) ==> can_act(st.metadata[i], action),
{
    matches_are_right(st.metadata, l, action);
    let found = matches_of(st.metadata, l, action);
    if 0 <= i < j < st.metadata.len() && matched(st.metadata[i], l, action) && matched(
        st.metadata[j],
        l,
        action,
    ) {
        assert(found.contains(i) && found.contains(j));
        let a = choose|a: int| 0 <= a < found.len() && found[a] == i;
        let b = choose|b: int| 0 <= b < found.len() && found[b] == j;
        assert(a != b);
    }
    if found.len() > 0 {
        assert(matched(st.metadata[found[0]], l, action));
    }
}

/// A walk takes as many children as there is room for, two hundred of one control
/// at most, and none below the deepest level.
pub proof fn children_find_room(limit: int, visited: int, queued: int, depth: int)
    ensures
        ({
            let left = limit - visited - queued - 1;
            &&& depth < 24 && 0 <= left <= 200 ==> room_left(limit, visited, queued, depth) == left
            &&& depth < 24 && left > 200 ==> room_left(limit, visited, queued, depth) == 200
            &&& depth >= 24 || left < 0 ==> room_left(limit, visited, queued, depth) == 0
        }),
{
}

/// A fresh adapter knows nothing and starts at the first revision.
pub proof fn fresh_adapter_knows_nothing(o: ObservationModel, id: Seq<char>)
    ensures
        stale(blank_state(), o),
        blank_state().metadata.len() == 0,
        bound_under(blank_state().actions, id) is None,
        blank_state().revision == 0,
        blank_state().window_token == 0,
        !blank_state().window_unique,
        blank_state().scope.app_id is None && blank_state().scope.window_id is None
            && blank_state().scope.subtree_id is None,
{
}

/// Pressing a control whose name holds one of these words is of the gravest kind.
pub proof fn grave_words_are_known(name: Seq<char>, word: Seq<char>)
    requires
        word == "permanently delete"@ || word == "永久删除"@ || word == "delete account"@ || word == "删除账号"@ || word == "删除账户"@ || word == "注销账号"@ || word == "注销账户"@ || word == "delete all data"@ || word == "erase all data"@ || word == "wipe all data"@ || word == "删除所有数据"@ || word == "清除所有数据"@ || word == "factory reset"@ || word == "恢复出厂设置"@ || word == "format drive"@ || word == "format disk"@ || word == "格式化磁盘"@ || word == "purchase"@ || word == "place order"@ || word == "buy now"@ || word == "支付"@ || word == "付款"@ || word == "提交订单"@ || word == "transfer funds"@ || word == "wire transfer"@ || word == "转账"@ || word == "grant permission"@ || word == "allow access"@ || word == "授予权限"@ || word == "允许访问"@ || word == "security settings"@ || word == "安全设置"@,
        text::has_part(text::lowercased(name), word),
    ensures
        semantics::risk_model(NativeAction::Invoke, Some(name), critical_words())
            == RiskClass::DestructiveCritical,
{
    let ws = critical_words();
    assert(ws[0] == "permanently delete"@);
    assert(ws[1] == "永久删除"@);
    assert(ws[2] == "delete account"@);
    assert(ws[3] == "删除账号"@);
    assert(ws[4] == "删除账户"@);
    assert(ws[5] == "注销账号"@);
    assert(ws[6] == "注销账户"@);
    assert(ws[7] == "delete all data"@);
    assert(ws[8] == "erase all data"@);
    assert(ws[9] == "wipe all data"@);
    assert(ws[10] == "删除所有数据"@);
    assert(ws[11] == "清除所有数据"@);
    assert(ws[12] == "factory reset"@);
    assert(ws[13] == "恢复出厂设置"@);
    assert(ws[14] == "format drive"@);
    assert(ws[15] == "format disk"@);
    assert(ws[16] == "格式化磁盘"@);
    assert(ws[17] == "purchase"@);
    assert(ws[18] == "place order"@);
    assert(ws[19] == "buy now"@);
    assert(ws[20] == "支付"@);
    assert(ws[21] == "付款"@);
    assert(ws[22] == "提交订单"@);
    assert(ws[23] == "transfer funds"@);
    assert(ws[24] == "wire transfer"@);
    assert(ws[25] == "转账"@);
    assert(ws[26] == "grant permission"@);
    assert(ws[27] == "allow access"@);
    assert(ws[28] == "授予权限"@);
    assert(ws[29] == "允许访问"@);
    assert(ws[30] == "security settings"@);
    assert(ws[31] == "安全设置"@);
    let k = choose|k: int| 0 <= k < ws.len() && #[trigger] ws[k] == word;
    assert(text::has_part(text::lowercased(name), ws[k]));
}

/// Pressing a control whose name holds none of the known words is not.
pub proof fn other_names_are_not_grave(name: Seq<char>)
    requires
        forall|word: Seq<char>| (word == "permanently delete"@ || word == "永久删除"@ || word == "delete account"@ || word == "删除账号"@ || word == "删除账户"@ || word == "注销账号"@ || word == "注销账户"@ || word == "delete all data"@ || word == "erase all data"@ || word == "wipe all data"@ || word == "删除所有数据"@ || word == "清除所有数据"@ || word == "factory reset"@ || word == "恢复出厂设置"@ || word == "format drive"@ || word == "format disk"@ || word == "格式化磁盘"@ || word == "purchase"@ || word == "place order"@ || word == "buy now"@ || word == "支付"@ || word == "付款"@ || word == "提交订单"@ || word == "transfer funds"@ || word == "wire transfer"@ || word == "转账"@ || word == "grant permission"@ || word == "allow access"@ || word == "授予权限"@ || word == "允许访问"@ || word == "security settings"@ || word == "安全设置"@)
            ==> !#[trigger] text::has_part(text::lowercased(name), word),
    ensures
        semantics::risk_model(NativeAction::Invoke, Some(name), critical_words())
            != RiskClass::DestructiveCritical,
{
    let ws = critical_words();
    assert(ws[0] == "permanently delete"@);
    assert(ws[1] == "永久删除"@);
    assert(ws[2] == "delete account"@);
    assert(ws[3] == "删除账号"@);
    assert(ws[4] == "删除账户"@);
    assert(ws[5] == "注销账号"@);
    assert(ws[6] == "注销账户"@);
    assert(ws[7] == "delete all data"@);
    assert(ws[8] == "erase all data"@);
    assert(ws[9] == "wipe all data"@);
    assert(ws[10] == "删除所有数据"@);
    assert(ws[11] == "清除所有数据"@);
    assert(ws[12] == "factory reset"@);
    assert(ws[13] == "恢复出厂设置"@);
    assert(ws[14] == "format drive"@);
    assert(ws[15] == "format disk"@);
    assert(ws[16] == "格式化磁盘"@);
    assert(ws[17] == "purchase"@);
    assert(ws[18] == "place order"@);
    assert(ws[19] == "buy now"@);
    assert(ws[20] == "支付"@);
    assert(ws[21] == "付款"@);
    assert(ws[22] == "提交订单"@);
    assert(ws[23] == "transfer funds"@);
    assert(ws[24] == "wire transfer"@);
    assert(ws[25] == "转账"@);
    assert(ws[26] == "grant permission"@);
    assert(ws[27] == "allow access"@);
    assert(ws[28] == "授予权限"@);
    assert(ws[29] == "允许访问"@);
    assert(ws[30] == "security settings"@);
    assert(ws[31] == "安全设置"@);
    let low = text::lowercased(name);
    if semantics::mentions(low, ws) {
        let k = choose|k: int| 0 <= k < ws.len() && text::has_part(low, #[trigger] ws[k]);
        assert(text::has_part(low, ws[k]));
    }
}

} // verus!
