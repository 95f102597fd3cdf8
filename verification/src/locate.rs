//! Finding controls again by stable semantics.
//!
//! A saved control is found by its role, its identifier, its name and its
//! chain of ancestors. It counts as found only where exactly one control
//! answers; a position in a list never decides.
use vstd::prelude::*;

use crate::model;
use crate::model::{copy_all, same_all, same_opt, Plain};
use crate::runner::MENU_SCOPE_ID;
use crate::text::same_text;
use crate::types::{
    ContextModel, LocatorModel, NativeAction, SemanticContext, SemanticLocator, UiRole,
};

verus! {

/// What a control is known by.
#[verifier::ext_equal]
pub struct ProfileModel {
    pub role: UiRole,
    pub identifier: Option<Seq<char>>,
    pub name: Option<Seq<char>>,
    pub ancestors: Seq<ContextModel>,
    pub actions: Seq<NativeAction>,
}

/// What a text of a control must be.
pub enum Want {
    /// Anything.
    Any,
    /// This, or its absence.
    Exactly(Option<String>),
}

/// The content of a [`Want`].
#[verifier::ext_equal]
pub enum WantModel {
    Any,
    Exactly(Option<Seq<char>>),
}

impl View for Want {
    type V = WantModel;

    open spec fn view(&self) -> WantModel {
        match self {
            Want::Any => WantModel::Any,
            Want::Exactly(o) => WantModel::Exactly(model::opt_view(*o)),
        }
    }
}

impl WantModel {
    /// Whether a text is what is wanted.
    pub open spec fn met(self, found: Option<Seq<char>>) -> bool {
        match self {
            WantModel::Any => true,
            WantModel::Exactly(o) => o == found,
        }
    }

    /// What a saved text asks for: itself where it was saved, anything where
    /// it was not.
    pub open spec fn saved(o: Option<Seq<char>>) -> WantModel {
        match o {
            Some(s) => WantModel::Exactly(Some(s)),
            None => WantModel::Any,
        }
    }
}

impl Want {
    /// Whether a text is what is wanted.
    fn is_met(&self, found: &Option<String>) -> (r: bool)
        ensures
            r == self@.met(model::opt_view(*found)),
    {
        match self {
            Want::Any => true,
            Want::Exactly(o) => same_opt(o, found),
        }
    }

    /// What a saved text asks for.
    pub fn saved(o: &Option<String>) -> (r: Want)
        ensures
            r@ == WantModel::saved(model::opt_view(*o)),
    {
        match o {
            Some(s) => Want::Exactly(Some(s.clone())),
            None => Want::Any,
        }
    }
}

/// A question to the controls of an observation.
pub struct Query {
    pub role: Option<UiRole>,
    pub identifier: Want,
    pub name: Want,
    pub ancestors: Option<Vec<SemanticContext>>,
    pub action: Option<NativeAction>,
}

/// The content of a [`Query`].
#[verifier::ext_equal]
pub struct QueryModel {
    pub role: Option<UiRole>,
    pub identifier: WantModel,
    pub name: WantModel,
    pub ancestors: Option<Seq<ContextModel>>,
    pub action: Option<NativeAction>,
}

impl View for Query {
    type V = QueryModel;

    open spec fn view(&self) -> QueryModel {
        QueryModel {
            role: self.role,
            identifier: self.identifier@,
            name: self.name@,
            ancestors: match self.ancestors {
                Some(v) => Some(model::seq_view(v@)),
                None => None,
            },
            action: self.action,
        }
    }
}

impl QueryModel {
    /// Whether a control answers the question.
    pub open spec fn answered(self, p: ProfileModel) -> bool {
        &&& self.role matches Some(role) ==> role == p.role
        &&& self.identifier.met(p.identifier)
        &&& self.name.met(p.name)
        &&& self.ancestors matches Some(chain) ==> chain == p.ancestors
        &&& self.action matches Some(action) ==> p.actions.contains(action)
    }

    /// The question for a saved control.
    pub open spec fn target(l: LocatorModel) -> QueryModel {
        QueryModel {
            role: l.role,
            identifier: WantModel::saved(l.automation_id),
            name: WantModel::saved(l.accessible_name),
            ancestors: if l.ancestor_chain.len() == 0 {
                None
            } else {
                Some(l.ancestor_chain)
            },
            action: None,
        }
    }

    /// The question for a saved control that offers an action.
    pub open spec fn actionable(l: LocatorModel, action: NativeAction) -> QueryModel {
        QueryModel { action: Some(action), ..QueryModel::target(l) }
    }

    /// The question for an ancestor below a chain of its own.
    pub open spec fn region(c: ContextModel, above: Seq<ContextModel>) -> QueryModel {
        QueryModel {
            role: c.role,
            identifier: WantModel::saved(c.automation_id),
            name: WantModel::saved(c.accessible_name),
            ancestors: Some(above),
            action: None,
        }
    }
}

/// A control that can be found.
pub trait Profiled {
    /// What the control is known by.
    spec fn profile(&self) -> ProfileModel;

    /// The control's role.
    fn role(&self) -> (r: UiRole)
        ensures
            r == self.profile().role,
    ;

    /// The control's identifier.
    fn identifier(&self) -> (r: &Option<String>)
        ensures
            model::opt_view(*r) == self.profile().identifier,
    ;

    /// The control's name.
    fn name(&self) -> (r: &Option<String>)
        ensures
            model::opt_view(*r) == self.profile().name,
    ;

    /// The control's ancestors.
    fn ancestors(&self) -> (r: &Vec<SemanticContext>)
        ensures
            model::seq_view(r@) == self.profile().ancestors,
    ;

    /// The actions that the control offers.
    fn actions(&self) -> (r: &Vec<NativeAction>)
        ensures
            r@ == self.profile().actions,
    ;
}

/// Whether a list holds an action.
pub fn offers(actions: &Vec<NativeAction>, action: NativeAction) -> (r: bool)
    ensures
        r == actions@.contains(action),
{
    let mut i: usize = 0;
    while i < actions.len()
        invariant
            i <= actions@.len(),
            forall|k: int| 0 <= k < i ==> actions@[k] != action,
        decreases actions@.len() - i,
    {
        if actions[i] == action {
            return true;
        }
        i = i + 1;
    }
    false
}

/// Whether a control answers a question.
pub fn answers<T: Profiled>(item: &T, q: &Query) -> (r: bool)
    ensures
        r == q@.answered(item.profile()),
{
    let role_met = match q.role {
        Some(role) => role == item.role(),
        None => true,
    };
    let chain_met = match &q.ancestors {
        Some(chain) => same_all(chain, item.ancestors()),
        None => true,
    };
    let action_met = match q.action {
        Some(action) => offers(item.actions(), action),
        None => true,
    };
    role_met && q.identifier.is_met(item.identifier()) && q.name.is_met(item.name()) && chain_met
        && action_met
}

/// What each control of a list is known by.
pub open spec fn profiles<T: Profiled>(items: Seq<T>) -> Seq<ProfileModel> {
    Seq::new(items.len(), |i: int| items[i].profile())
}

/// The positions of the controls that answer a question, in their order.
pub open spec fn hits(ps: Seq<ProfileModel>, q: QueryModel) -> Seq<int>
    decreases ps.len(),
{
    if ps.len() == 0 {
        Seq::empty()
    } else if q.answered(ps.last()) {
        hits(ps.drop_last(), q).push(ps.len() - 1)
    } else {
        hits(ps.drop_last(), q)
    }
}

/// The positions of the controls that answer a question, in their order.
pub fn select<T: Profiled>(items: &Vec<T>, q: &Query) -> (r: Vec<usize>)
    ensures
        r@.len() == hits(profiles(items@), q@).len(),
        forall|i: int| 0 <= i < r@.len() ==> #[trigger] r@[i] == hits(profiles(items@), q@)[i],
        forall|i: int| 0 <= i < r@.len() ==> #[trigger] r@[i] < items@.len(),
{
    let ghost ps = profiles(items@);
    let mut out: Vec<usize> = Vec::new();
    let mut i: usize = 0;
    assert(hits(ps.take(0), q@).len() == 0);
    while i < items.len()
        invariant
            i <= items@.len(),
            ps == profiles(items@),
            out@.len() == hits(ps.take(i as int), q@).len(),
            forall|k: int|
                0 <= k < out@.len() ==> #[trigger] out@[k] == hits(ps.take(i as int), q@)[k],
            forall|k: int| 0 <= k < out@.len() ==> #[trigger] out@[k] < items@.len(),
        decreases items@.len() - i,
    {
        proof {
            let now = ps.take(i + 1);
            assert(now.drop_last() == ps.take(i as int));
            assert(now.last() == items@[i as int].profile());
        }
        if answers(&items[i], q) {
            out.push(i);
        }
        i = i + 1;
    }
    assert(ps.take(ps.len() as int) == ps);
    out
}

/// Each listed position answers, and each that answers is listed, once.
pub proof fn hits_are_the_answers(ps: Seq<ProfileModel>, q: QueryModel)
    ensures
        forall|k: int|
            0 <= k < hits(ps, q).len() ==> 0 <= (#[trigger] hits(ps, q)[k]) < ps.len()
                && q.answered(ps[hits(ps, q)[k]]),
        forall|i: int|
            0 <= i < ps.len() && q.answered(#[trigger] ps[i]) ==> hits(ps, q).contains(i),
        hits(ps, q).no_duplicates(),
    decreases ps.len(),
{
    if ps.len() > 0 {
        let rest = ps.drop_last();
        hits_are_the_answers(rest, q);
        assert forall|i: int| 0 <= i < ps.len() && q.answered(#[trigger] ps[i]) implies hits(
            ps,
            q,
        ).contains(i) by {
            if i < rest.len() {
                assert(q.answered(rest[i]));
                let k = choose|k: int| 0 <= k < hits(rest, q).len() && hits(rest, q)[k] == i;
                assert(hits(ps, q)[k] == i);
            } else {
                let last = hits(ps, q).len() - 1;
                assert(hits(ps, q)[last] == i);
            }
        }
        assert forall|k: int| 0 <= k < hits(ps, q).len() implies 0 <= (#[trigger] hits(ps, q)[k])
            < ps.len() && q.answered(ps[hits(ps, q)[k]]) by {
            if k < hits(rest, q).len() {
                assert(hits(ps, q)[k] == hits(rest, q)[k]);
                assert(rest[hits(rest, q)[k]] == ps[hits(rest, q)[k]]);
            }
        }
    }
}

/// Where exactly one position is listed, that control answers and no other.
pub proof fn single_hit_is_the_only_answer(ps: Seq<ProfileModel>, q: QueryModel)
    requires
        hits(ps, q).len() == 1,
    ensures
        0 <= hits(ps, q)[0] < ps.len(),
        q.answered(ps[hits(ps, q)[0]]),
        forall|i: int| 0 <= i < ps.len() && q.answered(#[trigger] ps[i]) ==> i == hits(ps, q)[0],
{
    hits_are_the_answers(ps, q);
    assert forall|i: int| 0 <= i < ps.len() && q.answered(#[trigger] ps[i]) implies i == hits(
        ps,
        q,
    )[0] by {
        let k = choose|k: int| 0 <= k < hits(ps, q).len() && hits(ps, q)[k] == i;
    }
}

/// What became of the search for a saved control.
#[derive(Debug, Clone, Copy, PartialEq, Eq, Structural)]
pub enum Replay {
    /// The control itself is observed.
    Target,
    /// The deepest ancestor that is observed stands at this position.
    Region(usize),
    /// Several controls answer.
    AmbiguousTarget,
    /// Several ancestors answer.
    AmbiguousRegion,
    /// Neither the control nor an ancestor is observed.
    Missing,
}

/// Whether an ancestor says nothing that a region could be found by.
pub open spec fn unusable(c: ContextModel, skip_menu: bool) -> bool {
    ||| skip_menu && c.automation_id == Some(MENU_SCOPE_ID@)
    ||| c.automation_id is None && c.accessible_name is None
}

/// The deepest of the first `n` ancestors of a saved control that is observed.
pub open spec fn region_within(
    ps: Seq<ProfileModel>,
    l: LocatorModel,
    skip_menu: bool,
    n: int,
) -> Replay
    decreases n,
{
    if n <= 0 {
        Replay::Missing
    } else {
        let c = l.ancestor_chain[n - 1];
        let found = hits(ps, QueryModel::region(c, l.ancestor_chain.take(n - 1)));
        if unusable(c, skip_menu) || found.len() == 0 {
            region_within(ps, l, skip_menu, n - 1)
        } else if found.len() == 1 {
            Replay::Region(found[0] as usize)
        } else {
            Replay::AmbiguousRegion
        }
    }
}

/// What becomes of the search for a saved control.
pub open spec fn replayed(ps: Seq<ProfileModel>, l: LocatorModel, skip_menu: bool) -> Replay {
    let found = hits(ps, QueryModel::target(l));
    if found.len() == 1 {
        Replay::Target
    } else if found.len() > 1 {
        Replay::AmbiguousTarget
    } else {
        region_within(ps, l, skip_menu, l.ancestor_chain.len() as int)
    }
}

/// The question for a saved control.
pub fn target_query(l: &SemanticLocator, action: Option<NativeAction>) -> (r: Query)
    ensures
        r@ == (QueryModel { action, ..QueryModel::target(l@) }),
{
    Query {
        role: l.role,
        identifier: Want::saved(&l.automation_id),
        name: Want::saved(&l.accessible_name),
        ancestors: if l.ancestor_chain.len() == 0 {
            None
        } else {
            Some(copy_all(&l.ancestor_chain))
        },
        action,
    }
}

/// The question for one ancestor of a saved control.
fn region_query(l: &SemanticLocator, n: usize) -> (r: Query)
    requires
        n < l.ancestor_chain@.len(),
    ensures
        r@ == QueryModel::region(l@.ancestor_chain[n as int], l@.ancestor_chain.take(n as int)),
{
    let ghost chain = l@.ancestor_chain;
    let mut above: Vec<SemanticContext> = Vec::new();
    let mut i: usize = 0;
    assert(model::seq_view(above@) =~= chain.take(0));
    while i < n
        invariant
            i <= n < l.ancestor_chain@.len(),
            chain == l@.ancestor_chain,
            model::seq_view(above@) == chain.take(i as int),
        decreases n - i,
    {
        let ghost before = above@;
        let c = l.ancestor_chain[i].copied();
        above.push(c);
        i = i + 1;
        proof {
            assert(model::seq_view(above@) == model::seq_view(before).push(c@));
            assert(chain.take(i as int) == chain.take(i - 1).push(chain[i - 1]));
        }
    }
    let c = &l.ancestor_chain[n];
    assert(c@ == chain[n as int]);
    Query {
        role: c.role,
        identifier: Want::saved(&c.automation_id),
        name: Want::saved(&c.accessible_name),
        ancestors: Some(above),
        action: None,
    }
}

/// Looks for a saved control, or for the deepest of its ancestors that is
/// observed.
pub fn replay<T: Profiled>(items: &Vec<T>, locator: &SemanticLocator, skip_menu: bool) -> (r:
    Replay)
    ensures
        r == replayed(profiles(items@), locator@, skip_menu),
        r matches Replay::Region(i) ==> i < items@.len(),
{
    let ghost ps = profiles(items@);
    let q = target_query(locator, None);
    let found = select(items, &q);
    assert(q@ == QueryModel::target(locator@));
    if found.len() == 1 {
        return Replay::Target;
    }
    if found.len() > 1 {
        return Replay::AmbiguousTarget;
    }
    let mut n: usize = locator.ancestor_chain.len();
    while n > 0
        invariant
            n <= locator.ancestor_chain@.len(),
            ps == profiles(items@),
            replayed(ps, locator@, skip_menu) == region_within(ps, locator@, skip_menu, n as int),
        decreases n,
    {
        let c = &locator.ancestor_chain[n - 1];
        assert(c@ == locator@.ancestor_chain[n - 1]);
        let marks_menu = match &c.automation_id {
            Some(id) => same_text(id.as_str(), MENU_SCOPE_ID),
            None => false,
        };
        let skipped = (skip_menu && marks_menu) || (c.automation_id.is_none()
            && c.accessible_name.is_none());
        assert(skipped == unusable(c@, skip_menu));
        let q = region_query(locator, n - 1);
        let found = select(items, &q);
        if !skipped {
            if found.len() == 1 {
                return Replay::Region(found[0]);
            }
            if found.len() > 1 {
                return Replay::AmbiguousRegion;
            }
        }
        n = n - 1;
    }
    Replay::Missing
}

/// A saved position never decides: locators that differ in their ordinal hint
/// alone are found alike.
pub proof fn ordinal_never_decides(
    ps: Seq<ProfileModel>,
    l: LocatorModel,
    hint: Option<u16>,
    skip_menu: bool,
)
    ensures
        replayed(ps, LocatorModel { ordinal_hint: hint, ..l }, skip_menu) == replayed(
            ps,
            l,
            skip_menu,
        ),
{
    ordinal_never_decides_within(ps, l, hint, skip_menu, l.ancestor_chain.len() as int);
}

/// The same for the search among ancestors.
proof fn ordinal_never_decides_within(
    ps: Seq<ProfileModel>,
    l: LocatorModel,
    hint: Option<u16>,
    skip_menu: bool,
    n: int,
)
    ensures
        region_within(ps, LocatorModel { ordinal_hint: hint, ..l }, skip_menu, n) == region_within(
            ps,
            l,
            skip_menu,
            n,
        ),
    decreases n,
{
    if n > 0 {
        ordinal_never_decides_within(ps, l, hint, skip_menu, n - 1);
    }
}

/// A control counts as found only where it alone answers; a region only where
/// it alone stands for one of the saved ancestors.
pub proof fn replay_is_unambiguous(ps: Seq<ProfileModel>, l: LocatorModel, skip_menu: bool)
    requires
        ps.len() <= usize::MAX,
    ensures
        replayed(ps, l, skip_menu) is Target ==> hits(ps, QueryModel::target(l)).len() == 1,
        replayed(ps, l, skip_menu) matches Replay::Region(i) ==> hits(
            ps,
            QueryModel::target(l),
        ).len() == 0 && exists|n: int|
            0 < n <= l.ancestor_chain.len() && #[trigger] hits(
                ps,
                QueryModel::region(l.ancestor_chain[n - 1], l.ancestor_chain.take(n - 1)),
            ) == seq![i as int],
{
    region_is_unambiguous(ps, l, skip_menu, l.ancestor_chain.len() as int);
}

/// The same for the search among ancestors.
proof fn region_is_unambiguous(ps: Seq<ProfileModel>, l: LocatorModel, skip_menu: bool, m: int)
    requires
        ps.len() <= usize::MAX,
        m <= l.ancestor_chain.len(),
    ensures
        region_within(ps, l, skip_menu, m) !is Target,
        region_within(ps, l, skip_menu, m) matches Replay::Region(i) ==> exists|n: int|
            0 < n <= m && #[trigger] hits(
                ps,
                QueryModel::region(l.ancestor_chain[n - 1], l.ancestor_chain.take(n - 1)),
            ) == seq![i as int],
    decreases m,
{
    if m > 0 {
        region_is_unambiguous(ps, l, skip_menu, m - 1);
        let q = QueryModel::region(l.ancestor_chain[m - 1], l.ancestor_chain.take(m - 1));
        hits_are_the_answers(ps, q);
        if hits(ps, q).len() == 1 {
            let i = hits(ps, q)[0];
            assert(hits(ps, q) =~= seq![i]);
        }
    }
}

/// A saved locator fits a control where everything that it names is so: its
/// role, its identifier, its name, all its ancestors where it names any, and
/// the action where one is asked for. What it leaves out does not matter.
pub proof fn locator_fits_what_it_names(l: LocatorModel, p: ProfileModel, action: NativeAction)
    ensures
        QueryModel::target(l).answered(p) <==> {
            &&& l.role is None || l.role == Some(p.role)
            &&& l.automation_id is None || l.automation_id == p.identifier
            &&& l.accessible_name is None || l.accessible_name == p.name
            &&& l.ancestor_chain.len() == 0 || l.ancestor_chain == p.ancestors
        },
        QueryModel::actionable(l, action).answered(p) <==> QueryModel::target(l).answered(p)
            && p.actions.contains(action),
{
}

/// A saved ancestor fits a control with its role, identifier and name, as far as
/// it has them, under exactly the ancestors above it.
pub proof fn ancestor_fits_in_its_place(c: ContextModel, above: Seq<ContextModel>, p: ProfileModel)
    ensures
        QueryModel::region(c, above).answered(p) <==> {
            &&& c.role is None || c.role == Some(p.role)
            &&& c.automation_id is None || c.automation_id == p.identifier
            &&& c.accessible_name is None || c.accessible_name == p.name
            &&& p.ancestors == above
        },
{
}

/// The walk over the ancestors, from the deepest up.
proof fn walk_goes_up(ps: Seq<ProfileModel>, l: LocatorModel, skip_menu: bool, top: int, n: int)
    requires
        0 < n <= top <= l.ancestor_chain.len(),
        forall|k: int|
            n < k <= top ==> ({
                ||| unusable(#[trigger] l.ancestor_chain[k - 1], skip_menu)
                ||| hits(
                    ps,
                    QueryModel::region(l.ancestor_chain[k - 1], l.ancestor_chain.take(k - 1)),
                ).len() == 0
            }),
    ensures
        region_within(ps, l, skip_menu, top) == region_within(ps, l, skip_menu, n),
    decreases top - n,
{
    if n < top {
        assert(unusable(l.ancestor_chain[top - 1], skip_menu) || hits(
            ps,
            QueryModel::region(l.ancestor_chain[top - 1], l.ancestor_chain.take(top - 1)),
        ).len() == 0);
        walk_goes_up(ps, l, skip_menu, top - 1, n);
    }
}

/// A saved target that is there once is the target; one that is there more than
/// once is ambiguous; and where it is not there, the deepest of its ancestors
/// that can be told apart and is there decides: once, it is the region to look
/// in; more than once, that is ambiguous.
pub proof fn deepest_ancestor_decides(
    ps: Seq<ProfileModel>,
    l: LocatorModel,
    skip_menu: bool,
    n: int,
)
    requires
        0 < n <= l.ancestor_chain.len(),
        !(skip_menu && l.ancestor_chain[n - 1].automation_id == Some("nuphus:scope:menu"@)),
        l.ancestor_chain[n - 1].automation_id is Some || l.ancestor_chain[n
            - 1].accessible_name is Some,
        forall|k: int|
            n < k <= l.ancestor_chain.len() ==> ({
                ||| skip_menu && (#[trigger] l.ancestor_chain[k - 1]).automation_id == Some(
                    "nuphus:scope:menu"@,
                )
                ||| l.ancestor_chain[k - 1].automation_id is None && l.ancestor_chain[k
                    - 1].accessible_name is None
                ||| hits(
                    ps,
                    QueryModel::region(l.ancestor_chain[k - 1], l.ancestor_chain.take(k - 1)),
                ).len() == 0
            }),
    ensures
        ({
            let whole = hits(ps, QueryModel::target(l));
            let region = hits(
                ps,
                QueryModel::region(l.ancestor_chain[n - 1], l.ancestor_chain.take(n - 1)),
            );
            &&& whole.len() == 1 ==> replayed(ps, l, skip_menu) == Replay::Target
            &&& whole.len() > 1 ==> replayed(ps, l, skip_menu) == Replay::AmbiguousTarget
            &&& whole.len() == 0 && region.len() == 1 ==> replayed(ps, l, skip_menu)
                == Replay::Region(region[0] as usize)
            &&& whole.len() == 0 && region.len() > 1 ==> replayed(ps, l, skip_menu)
                == Replay::AmbiguousRegion
        }),
{
    assert forall|k: int| n < k <= l.ancestor_chain.len() implies ({
        ||| unusable(#[trigger] l.ancestor_chain[k - 1], skip_menu)
        ||| hits(
            ps,
            QueryModel::region(l.ancestor_chain[k - 1], l.ancestor_chain.take(k - 1)),
        ).len() == 0
    }) by {
        let c = l.ancestor_chain[k - 1];
    }
    walk_goes_up(ps, l, skip_menu, l.ancestor_chain.len() as int, n);
}

/// No ancestor that could be looked in is there.
proof fn walk_finds_nothing(ps: Seq<ProfileModel>, l: LocatorModel, skip_menu: bool, n: int)
    requires
        n <= l.ancestor_chain.len(),
        forall|k: int|
            0 < k <= n ==> ({
                ||| unusable(#[trigger] l.ancestor_chain[k - 1], skip_menu)
                ||| hits(
                    ps,
                    QueryModel::region(l.ancestor_chain[k - 1], l.ancestor_chain.take(k - 1)),
                ).len() == 0
            }),
    ensures
        region_within(ps, l, skip_menu, n) == Replay::Missing,
    decreases n,
{
    if n > 0 {
        assert(unusable(l.ancestor_chain[n - 1], skip_menu) || hits(
            ps,
            QueryModel::region(l.ancestor_chain[n - 1], l.ancestor_chain.take(n - 1)),
        ).len() == 0);
        walk_finds_nothing(ps, l, skip_menu, n - 1);
    }
}

/// A target is missing where neither it nor any of its ancestors is there.
pub proof fn target_without_trace_is_missing(
    ps: Seq<ProfileModel>,
    l: LocatorModel,
    skip_menu: bool,
)
    requires
        hits(ps, QueryModel::target(l)).len() == 0,
        forall|k: int|
            0 < k <= l.ancestor_chain.len() ==> hits(
                ps,
                QueryModel::region(#[trigger] l.ancestor_chain[k - 1], l.ancestor_chain.take(k - 1)),
            ).len() == 0,
    ensures
        replayed(ps, l, skip_menu) == Replay::Missing,
{
    assert forall|k: int| 0 < k <= l.ancestor_chain.len() implies ({
        ||| unusable(#[trigger] l.ancestor_chain[k - 1], skip_menu)
        ||| hits(
            ps,
            QueryModel::region(l.ancestor_chain[k - 1], l.ancestor_chain.take(k - 1)),
        ).len() == 0
    }) by {
        let c = l.ancestor_chain[k - 1];
    }
    walk_finds_nothing(ps, l, skip_menu, l.ancestor_chain.len() as int);
}

} // verus!
