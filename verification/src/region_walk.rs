//! The walk to a saved control, one region at a time.
use vstd::prelude::*;
use vstd::string::*;

use crate::ax;
use crate::ax::scope_is_menu;
use crate::model;
use crate::model::copy_opt;
use crate::text::{owned, same_text};
use crate::types::{
    AutomationError, ErrorKind, LocatorModel, ObservationScope, ScopeModel, SemanticLocator,
};

verus! {

/// Whose controls are walked.
#[derive(Debug, Clone, Copy, PartialEq, Eq, Structural)]
pub enum Platform {
    Windows,
    Macos,
}

impl Platform {
    /// The words for a target that is not in its region.
    pub open spec fn lost_text(self) -> Seq<char> {
        match self {
            Platform::Windows =>
                "Saved UIA target is missing from its ancestor region; refresh the locator"@,
            Platform::Macos =>
                "saved AX target was not found in its ancestor region; refresh the workflow locator"@,
        }
    }

    /// The words for a walk that went too deep.
    pub open spec fn depth_text(self) -> Seq<char> {
        match self {
            Platform::Windows => "Saved UIA region exceeds bounded ancestor depth"@,
            Platform::Macos => "saved AX ancestor resolution exceeded its bounded depth"@,
        }
    }

    /// The words for a walk that took too long.
    pub open spec fn late_text(self) -> Seq<char> {
        match self {
            Platform::Windows => "Saved UIA region resolution timed out"@,
            Platform::Macos => "saved AX region resolution timed out"@,
        }
    }

    /// The error for a target that is not in its region.
    fn lost(self) -> (r: AutomationError)
        ensures
            r@ == (ErrorKind::Observation, self.lost_text()),
    {
        match self {
            Platform::Windows => AutomationError::observation(
                "Saved UIA target is missing from its ancestor region; refresh the locator",
            ),
            Platform::Macos => AutomationError::observation(
                "saved AX target was not found in its ancestor region; refresh the workflow locator",
            ),
        }
    }

    /// The error for a walk that went too deep.
    fn too_deep(self) -> (r: AutomationError)
        ensures
            r@ == (ErrorKind::Observation, self.depth_text()),
    {
        match self {
            Platform::Windows => AutomationError::observation(
                "Saved UIA region exceeds bounded ancestor depth",
            ),
            Platform::Macos => AutomationError::observation(
                "saved AX ancestor resolution exceeded its bounded depth",
            ),
        }
    }
}

/// How many observations a walk makes at most.
pub const MAX_ROUNDS: usize = 12;

/// A walk: what is observed next, the regions that were entered, and how many
/// observations are left.
pub struct RegionWalk {
    pub platform: Platform,
    pub scope: ObservationScope,
    pub visited: Vec<String>,
    pub rounds: usize,
}

/// The content of a [`RegionWalk`].
#[verifier::ext_equal]
pub struct WalkModel {
    pub platform: Platform,
    pub scope: ScopeModel,
    pub visited: Seq<Seq<char>>,
    pub rounds: int,
}

impl View for RegionWalk {
    type V = WalkModel;

    open spec fn view(&self) -> WalkModel {
        WalkModel {
            platform: self.platform,
            scope: self.scope@,
            visited: model::seq_view(self.visited@),
            rounds: self.rounds as int,
        }
    }
}

/// What a walk does next.
#[verifier::ext_equal]
pub enum WalkStep {
    /// The target is observed.
    Arrived,
    /// The scope is to be observed.
    Observe,
    /// The walk failed.
    Failed((ErrorKind, Seq<char>)),
}

impl WalkModel {
    /// A walk to a saved control. It starts at the window, or at the open menu
    /// where the control stands below the menu bar.
    pub open spec fn begin(platform: Platform, l: LocatorModel) -> WalkModel {
        let menu = platform == Platform::Macos && ax::menu_chain(l.ancestor_chain);
        WalkModel {
            platform,
            scope: ScopeModel {
                app_id: Some(l.app_id),
                window_id: l.window_id,
                subtree_id: if menu {
                    Some("@menu"@)
                } else {
                    None
                },
            },
            visited: if menu {
                seq!["@menu"@]
            } else {
                Seq::empty()
            },
            rounds: if l.ancestor_chain.len() >= MAX_ROUNDS - 2 {
                MAX_ROUNDS as int
            } else {
                (l.ancestor_chain.len() + 2) as int
            },
        }
    }

    /// The walk after an observation, and what it does next. `region` is the
    /// region that the target is to be looked for in, none where the target is
    /// observed.
    pub open spec fn stepped(self, region: Option<Seq<char>>) -> (WalkModel, WalkStep) {
        let spent = WalkModel { rounds: self.rounds - 1, ..self };
        match region {
            None => (spent, WalkStep::Arrived),
            Some(id) => if self.visited.contains(id) {
                (spent, WalkStep::Failed((ErrorKind::Observation, self.platform.lost_text())))
            } else {
                let deeper = WalkModel {
                    scope: ScopeModel { subtree_id: Some(id), ..self.scope },
                    visited: self.visited.push(id),
                    ..spent
                };
                if deeper.rounds == 0 {
                    (
                        deeper,
                        WalkStep::Failed((ErrorKind::Observation, self.platform.depth_text())),
                    )
                } else {
                    (deeper, WalkStep::Observe)
                }
            },
        }
    }
}

/// Whether a list holds a text.
fn holds(list: &Vec<String>, id: &str) -> (r: bool)
    ensures
        r == model::seq_view(list@).contains(id@),
{
    let ghost s = model::seq_view(list@);
    let mut i: usize = 0;
    while i < list.len()
        invariant
            i <= list@.len(),
            s == model::seq_view(list@),
            forall|k: int| 0 <= k < i ==> s[k] != id@,
        decreases list@.len() - i,
    {
        if same_text(list[i].as_str(), id) {
            assert(s[i as int] == id@);
            return true;
        }
        i = i + 1;
    }
    false
}

impl RegionWalk {
    /// A walk to a saved control.
    pub fn begin(platform: Platform, locator: &SemanticLocator) -> (r: RegionWalk)
        ensures
            r@ == WalkModel::begin(platform, locator@),
    {
        let menu = platform == Platform::Macos && scope_is_menu(&locator.ancestor_chain);
        let rounds: usize = if locator.ancestor_chain.len() >= MAX_ROUNDS - 2 {
            MAX_ROUNDS
        } else {
            locator.ancestor_chain.len() + 2
        };
        let mut visited: Vec<String> = Vec::new();
        let mut subtree_id: Option<String> = None;
        if menu {
            visited.push(owned("@menu"));
            subtree_id = Some(owned("@menu"));
        }
        let r = RegionWalk {
            platform,
            scope: ObservationScope {
                app_id: Some(locator.app_id.clone()),
                window_id: copy_opt(&locator.window_id),
                subtree_id,
            },
            visited,
            rounds,
        };
        assert(r@.visited =~= WalkModel::begin(platform, locator@).visited);
        r
    }

    /// Whether the walk may observe once more: `expired` says that its time is
    /// over.
    pub fn in_time(&self, expired: bool) -> (r: Result<(), AutomationError>)
        ensures
            match r {
                Ok(_) => !expired,
                Err(e) => expired && e@ == (ErrorKind::Observation, self.platform.late_text()),
            },
    {
        if !expired {
            return Ok(());
        }
        match self.platform {
            Platform::Windows => Err(
                AutomationError::observation("Saved UIA region resolution timed out"),
            ),
            Platform::Macos => Err(
                AutomationError::observation("saved AX region resolution timed out"),
            ),
        }
    }

    /// Takes in what an observation said of the target: `Ok(true)` where it is
    /// observed, `Ok(false)` where the scope is to be observed again.
    pub fn advance(&mut self, region: Option<String>) -> (r: Result<bool, AutomationError>)
        requires
            old(self).rounds > 0,
        ensures
            ({
                let (next, step) = old(self)@.stepped(model::opt_view(region));
                &&& final(self)@ == next
                &&& match step {
                    WalkStep::Arrived => r matches Ok(b) && b,
                    WalkStep::Observe => r matches Ok(b) && !b,
                    WalkStep::Failed(e) => r matches Err(x) && x@ == e,
                }
            }),
    {
        self.rounds = self.rounds - 1;
        match region {
            None => Ok(true),
            Some(id) => {
                if holds(&self.visited, id.as_str()) {
                    return Err(self.platform.lost());
                }
                let ghost before = self.visited@;
                self.scope.subtree_id = Some(id.clone());
                self.visited.push(id);
                assert(model::seq_view(self.visited@) =~= model::seq_view(before).push(id@));
                if self.rounds == 0 {
                    Err(self.platform.too_deep())
                } else {
                    Ok(false)
                }
            },
        }
    }
}

/// A walk makes a bounded number of observations, each of them of another
/// region, and only of the saved application and window.
pub proof fn walk_is_bounded(w: WalkModel, l: LocatorModel, region: Option<Seq<char>>)
    requires
        w.rounds > 0,
        w.visited.no_duplicates(),
        w.scope.app_id == Some(l.app_id),
        w.scope.window_id == l.window_id,
    ensures
        0 < WalkModel::begin(w.platform, l).rounds <= MAX_ROUNDS,
        WalkModel::begin(w.platform, l).visited.no_duplicates(),
        w.stepped(region).0.rounds == w.rounds - 1,
        w.stepped(region).0.visited.no_duplicates(),
        w.stepped(region).0.scope.app_id == Some(l.app_id),
        w.stepped(region).0.scope.window_id == l.window_id,
        w.stepped(region).1 is Observe ==> w.stepped(region).0.rounds > 0,
{
}

/// A walk begins in the saved window, in its menu where the saved control is one
/// of a menu on the Mac, and has two rounds more than there are ancestors, but
/// never more than twelve.
pub proof fn walk_begins_in_the_saved_window(platform: Platform, l: LocatorModel)
    ensures
        ({
            let w = WalkModel::begin(platform, l);
            let menu = platform == Platform::Macos && ax::menu_chain(l.ancestor_chain);
            &&& w.platform == platform
            &&& w.scope.app_id == Some(l.app_id)
            &&& w.scope.window_id == l.window_id
            &&& menu ==> w.scope.subtree_id == Some("@menu"@) && w.visited == seq!["@menu"@]
            &&& !menu ==> w.scope.subtree_id is None && w.visited.len() == 0
            &&& l.ancestor_chain.len() <= 10 ==> w.rounds == l.ancestor_chain.len() + 2
            &&& l.ancestor_chain.len() > 10 ==> w.rounds == 12
        }),
{
}

/// A walk ends where the control is there, goes on into a region that it has not
/// been in, and fails where it is sent back to one or has no round left.
pub proof fn walk_goes_deeper(w: WalkModel, id: Seq<char>)
    ensures
        w.stepped(None).1 == WalkStep::Arrived,
        w.stepped(None).0.scope == w.scope,
        w.visited.contains(id) ==> w.stepped(Some(id)).1 is Failed && w.stepped(Some(id)).0.scope
            == w.scope,
        !w.visited.contains(id) ==> w.stepped(Some(id)).0.scope.subtree_id == Some(id)
            && w.stepped(Some(id)).0.visited == w.visited.push(id),
        !w.visited.contains(id) && w.rounds > 1 ==> w.stepped(Some(id)).1 == WalkStep::Observe,
        !w.visited.contains(id) && w.rounds == 1 ==> w.stepped(Some(id)).1 is Failed,
        w.stepped(Some(id)).0.platform == w.platform,
{
}

} // verus!
