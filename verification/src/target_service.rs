//! The service that binds desktop targets: its registries, and the decisions
//! between one look at the desktop and the next.
use vstd::hash_map::StringHashMap;
use vstd::prelude::*;
use vstd::string::*;

use crate::ids;
use crate::ids::{fresh_simple, fresh_uuid};
use crate::model;
use crate::model::{copy_all, copy_opt, Plain};
use crate::order;
use crate::order::sort;
use crate::table;
use crate::table::Table;
use crate::targets;
use crate::targets::{
    app_reference, app_windows, catalog_page, catalog_snapshot, choose_saved_window,
    choose_window, same_window, window_reference, window_selection_page, Application,
    ApplicationModel, Binding, BindingModel, CatalogKey, CatalogKeyModel, CatalogPage,
    CatalogSnapshot, Choice, DescriptorModel, DesktopTargetDescriptor, LiveModel, PageModel,
    SavedKey, SavedKeyModel, SelectionPage, SnapshotModel, Window, WindowEntry, WindowEntryModel,
    LAUNCH_POLLS, MAX_BINDINGS, MAX_CATALOGS,
};
use crate::text;
use crate::text::{lowercase, owned, same_text, trim};
use crate::types::{LocatorModel, SemanticLocator};
use crate::uia;

verus! {

/// The registries of the service.
pub struct TargetState {
    /// The applications of the latest catalog, by reference.
    pub apps: Table<String, Application>,
    /// The windows that were listed, by reference.
    pub windows: Table<String, Window>,
    /// What the tokens stand for.
    pub bindings: StringHashMap<Binding>,
    /// The windows that saved targets were found to be.
    pub saved_windows: Table<SavedKey, Window>,
    /// The catalogs that can be paged through.
    pub catalogs: Table<CatalogKey, CatalogSnapshot>,
}

/// The contents of what tokens stand for.
pub open spec fn binding_contents(m: Map<Seq<char>, Binding>) -> Map<Seq<char>, BindingModel> {
    Map::new(|token: Seq<char>| m.contains_key(token), |token: Seq<char>| m[token]@)
}

/// The content of a [`TargetState`].
#[verifier::ext_equal]
pub struct TargetStateModel {
    pub apps: Seq<(Seq<char>, ApplicationModel)>,
    pub windows: Seq<(Seq<char>, LiveModel)>,
    pub bindings: Map<Seq<char>, BindingModel>,
    pub saved_windows: Seq<(SavedKeyModel, LiveModel)>,
    pub catalogs: Seq<(CatalogKeyModel, SnapshotModel)>,
}

impl View for TargetState {
    type V = TargetStateModel;

    open spec fn view(&self) -> TargetStateModel {
        TargetStateModel {
            apps: self.apps@,
            windows: self.windows@,
            bindings: binding_contents(self.bindings@),
            saved_windows: self.saved_windows@,
            catalogs: self.catalogs@,
        }
    }
}

/// The service. It belongs to one registry of tools and shares no token.
pub struct DesktopTargetService {
    pub state: TargetState,
    /// Who acts where no execution does.
    pub interactive_owner: String,
}

/// A query as it is compared.
pub open spec fn asked(query: Option<Seq<char>>) -> Seq<char> {
    text::lowercased(
        text::trimmed(
            match query {
                Some(q) => q,
                None => Seq::empty(),
            },
        ),
    )
}

/// The applications of a list by their ids, the first of each id.
pub open spec fn firsts(list: Seq<ApplicationModel>) -> Seq<(Seq<char>, ApplicationModel)>
    decreases list.len(),
{
    if list.len() == 0 {
        Seq::empty()
    } else {
        let before = firsts(list.drop_last());
        let app = list.last();
        if table::get(before, app.app_id) is None {
            table::put(before, app.app_id, app)
        } else {
            before
        }
    }
}

/// Applications by their references.
pub open spec fn by_reference(list: Seq<(Seq<char>, ApplicationModel)>) -> Seq<
    (Seq<char>, ApplicationModel),
>
    decreases list.len(),
{
    if list.len() == 0 {
        Seq::empty()
    } else {
        table::put(
            by_reference(list.drop_last()),
            targets::app_ref(list.last().0),
            list.last().1,
        )
    }
}

/// Windows by their references.
pub open spec fn windows_by_reference(
    known: Seq<(Seq<char>, LiveModel)>,
    list: Seq<LiveModel>,
) -> Seq<(Seq<char>, LiveModel)>
    decreases list.len(),
{
    if list.len() == 0 {
        known
    } else {
        table::put(
            windows_by_reference(known, list.drop_last()),
            targets::window_ref(list.last()),
            list.last(),
        )
    }
}

/// The applications of running windows.
pub open spec fn running_apps(running: Seq<(ApplicationModel, LiveModel)>) -> Seq<ApplicationModel> {
    Seq::new(running.len(), |i: int| running[i].0)
}

/// The windows that run.
pub open spec fn running_windows(running: Seq<(ApplicationModel, LiveModel)>) -> Seq<LiveModel> {
    Seq::new(running.len(), |i: int| running[i].1)
}

/// The applications that are installed or run, by reference.
pub open spec fn known_apps(
    installed: Seq<ApplicationModel>,
    running: Seq<(ApplicationModel, LiveModel)>,
) -> Seq<(Seq<char>, ApplicationModel)> {
    by_reference(
        order::sorted::<(String, Application)>(firsts(installed + running_apps(running))),
    )
}

/// The state after a fresh catalog was made, and its first page.
pub open spec fn listed(
    st: TargetStateModel,
    owner: Seq<char>,
    query: Seq<char>,
    installed: Seq<ApplicationModel>,
    running: Seq<(ApplicationModel, LiveModel)>,
    own_pid: u32,
) -> (TargetStateModel, Result<PageModel, Seq<char>>) {
    let found = TargetStateModel {
        apps: known_apps(installed, running),
        windows: windows_by_reference(Seq::empty(), running_windows(running)),
        ..st
    };
    let snapshot = targets::snapshot_model(found.apps, found.windows, query, own_pid);
    let key = CatalogKeyModel { owner, query };
    match targets::page_model(snapshot, 0) {
        Err(e) => (found, Err(e)),
        Ok(page) => {
            let kept = if st.catalogs.len() >= MAX_CATALOGS && table::get(st.catalogs, key) is None {
                Seq::empty()
            } else {
                st.catalogs
            };
            (
                TargetStateModel { catalogs: table::put(kept, key, snapshot), ..found },
                Ok(page),
            )
        },
    }
}

/// Collects the first application of each id.
fn collect_firsts(list: &Vec<Application>) -> (r: Table<String, Application>)
    ensures
        r@ == firsts(model::seq_view(list@)),
{
    let ghost s = model::seq_view(list@);
    let mut out: Table<String, Application> = Table::new();
    let mut i: usize = 0;
    assert(s.take(0) =~= Seq::<ApplicationModel>::empty());
    while i < list.len()
        invariant
            i <= list@.len(),
            s == model::seq_view(list@),
            out@ == firsts(s.take(i as int)),
        decreases list@.len() - i,
    {
        proof {
            assert(s.take(i + 1).drop_last() == s.take(i as int));
            assert(s.take(i + 1).last() == list@[i as int]@);
        }
        let id = list[i].app_id.clone();
        if out.get(&id).is_none() {
            out.put(id, list[i].copied());
        }
        i = i + 1;
    }
    assert(s.take(s.len() as int) == s);
    out
}

/// Collects applications by their references.
fn collect_references(list: &Vec<(String, Application)>) -> (r: Table<String, Application>)
    ensures
        r@ == by_reference(model::seq_view(list@)),
{
    let ghost s = model::seq_view(list@);
    let mut out: Table<String, Application> = Table::new();
    let mut i: usize = 0;
    assert(s.take(0) =~= Seq::<(Seq<char>, ApplicationModel)>::empty());
    while i < list.len()
        invariant
            i <= list@.len(),
            s == model::seq_view(list@),
            out@ == by_reference(s.take(i as int)),
        decreases list@.len() - i,
    {
        proof {
            assert(s.take(i + 1).drop_last() == s.take(i as int));
            assert(s.take(i + 1).last() == list@[i as int]@);
        }
        let reference = app_reference(list[i].0.as_str());
        out.put(reference, list[i].1.copied());
        i = i + 1;
    }
    assert(s.take(s.len() as int) == s);
    out
}

/// Adds windows by their references.
fn add_windows(known: &mut Table<String, Window>, list: &Vec<Window>)
    ensures
        final(known)@ == windows_by_reference(old(known)@, model::seq_view(list@)),
{
    let ghost s = model::seq_view(list@);
    let ghost before = known@;
    let mut i: usize = 0;
    assert(s.take(0) =~= Seq::<LiveModel>::empty());
    while i < list.len()
        invariant
            i <= list@.len(),
            s == model::seq_view(list@),
            known@ == windows_by_reference(before, s.take(i as int)),
        decreases list@.len() - i,
    {
        proof {
            assert(s.take(i + 1).drop_last() == s.take(i as int));
            assert(s.take(i + 1).last() == list@[i as int]@);
        }
        let reference = window_reference(&list[i]);
        known.put(reference, list[i].copied());
        i = i + 1;
    }
    assert(s.take(s.len() as int) == s);
}

/// Why a binding cannot begin, or what it begins with.
pub open spec fn bind_begun(st: TargetStateModel, app_ref: Seq<char>, window_ref: Option<Seq<char>>) -> Result<
    BindModel,
    Seq<char>,
> {
    match table::get(st.apps, app_ref) {
        None => Err("Unknown app_ref; list desktop targets first"@),
        Some(app) => match window_ref {
            None => Ok(
                BindModel { app_ref, app, selected: None, launched: false, polls: 0 },
            ),
            Some(reference) => match table::get(st.windows, reference) {
                None => Err("Unknown window_ref; list desktop targets again"@),
                Some(w) => if w.app_id != app.app_id {
                    Err("window_ref does not belong to app_ref"@)
                } else {
                    Ok(
                        BindModel {
                            app_ref,
                            app,
                            selected: Some(w),
                            launched: false,
                            polls: 0,
                        },
                    )
                },
            },
        },
    }
}

/// A binding under way.
#[derive(Debug, Clone, PartialEq, Eq)]
pub struct BindRun {
    pub app_ref: String,
    pub app: Application,
    pub selected: Option<Window>,
    pub launched: bool,
    /// How often the windows were looked for since the launch.
    pub polls: usize,
}

/// The content of a [`BindRun`].
#[verifier::ext_equal]
pub struct BindModel {
    pub app_ref: Seq<char>,
    pub app: ApplicationModel,
    pub selected: Option<LiveModel>,
    pub launched: bool,
    pub polls: usize,
}

impl View for BindRun {
    type V = BindModel;

    open spec fn view(&self) -> BindModel {
        BindModel {
            app_ref: self.app_ref@,
            app: self.app@,
            selected: model::opt_view(self.selected),
            launched: self.launched,
            polls: self.polls,
        }
    }
}

/// What is done next about a binding.
#[derive(Debug, Clone, PartialEq, Eq)]
pub enum BindStep {
    /// Launch what stands at this path, and look again.
    Launch(String),
    /// Wait, and look again.
    Poll,
    /// Bring this window to the front.
    Activate(Window),
    /// Let one of these windows be selected.
    Select(Vec<Window>),
    /// Give up.
    Fail(String),
}

/// The content of a [`BindStep`].
#[verifier::ext_equal]
pub enum BindStepModel {
    Launch(Seq<char>),
    Poll,
    Activate(LiveModel),
    Select(Seq<LiveModel>),
    Fail(Seq<char>),
}

impl View for BindStep {
    type V = BindStepModel;

    open spec fn view(&self) -> BindStepModel {
        match self {
            BindStep::Launch(s) => BindStepModel::Launch(s@),
            BindStep::Poll => BindStepModel::Poll,
            BindStep::Activate(w) => BindStepModel::Activate(w@),
            BindStep::Select(v) => BindStepModel::Select(model::seq_view(v@)),
            BindStep::Fail(s) => BindStepModel::Fail(s@),
        }
    }
}

impl BindModel {
    /// What is done about the windows that are there.
    pub open spec fn decided(self, available: Seq<LiveModel>) -> BindStepModel {
        match targets::chosen(available, self.selected, None) {
            Ok(Choice::One(i)) => BindStepModel::Activate(available[i as int]),
            Ok(Choice::Several) => BindStepModel::Select(available),
            Err(e) => BindStepModel::Fail(e),
        }
    }

    /// The binding after a look at the windows, and what is done next: an
    /// application without a window is launched once, and looked for a bounded
    /// number of times.
    pub open spec fn stepped(self, running: Seq<LiveModel>) -> (BindModel, BindStepModel) {
        let available = targets::windows_of(running, self.app.app_id);
        if available.len() == 0 && self.selected is None && !self.launched {
            match self.app.launch_path {
                None => (
                    self,
                    BindStepModel::Fail(
                        "The application is no longer running and has no catalog launch entry"@,
                    ),
                ),
                Some(path) => (
                    BindModel { launched: true, ..self },
                    BindStepModel::Launch(path),
                ),
            }
        } else if available.len() == 0 && self.launched && self.polls + 1 < LAUNCH_POLLS {
            (BindModel { polls: (self.polls + 1) as usize, ..self }, BindStepModel::Poll)
        } else {
            (self, self.decided(available))
        }
    }
}

impl BindRun {
    /// Takes in a look at the windows, and says what is done next.
    pub fn advance(&mut self, running: &Vec<Window>) -> (r: BindStep)
        ensures
            (final(self)@, r@) == old(self)@.stepped(model::seq_view(running@)),
    {
        let available = app_windows(running, self.app.app_id.as_str());
        if available.len() == 0 && self.selected.is_none() && !self.launched {
            return match &self.app.launch_path {
                None => BindStep::Fail(
                    owned("The application is no longer running and has no catalog launch entry"),
                ),
                Some(path) => {
                    let path = path.clone();
                    self.launched = true;
                    BindStep::Launch(path)
                },
            };
        }
        if available.len() == 0 && self.launched && self.polls < LAUNCH_POLLS - 1 {
            self.polls = self.polls + 1;
            return BindStep::Poll;
        }
        let choice = match &self.selected {
            Some(w) => choose_window(&available, Some(w), None),
            None => choose_window(&available, None, None),
        };
        match choice {
            Ok(Choice::One(i)) => BindStep::Activate(available[i].copied()),
            Ok(Choice::Several) => BindStep::Select(available),
            Err(e) => BindStep::Fail(e),
        }
    }
}

/// A binding launches only what the catalog says, only once, and waits for it
/// a bounded number of times.
pub proof fn launch_is_bounded(b: BindModel, running: Seq<LiveModel>)
    requires
        b.polls < LAUNCH_POLLS,
    ensures
        b.stepped(running).1 matches BindStepModel::Launch(path) ==> b.app.launch_path == Some(
            path,
        ) && !b.launched && b.stepped(running).0.launched,
        b.stepped(running).1 is Poll ==> b.launched && b.stepped(running).0.polls == b.polls + 1,
        b.stepped(running).0.polls < LAUNCH_POLLS,
        b.launched ==> b.stepped(running).1 !is Launch,
{
}

/// What a window that was brought to the front is remembered as.
pub open spec fn descriptor_of(b: BindModel, w: LiveModel) -> DescriptorModel {
    DescriptorModel {
        app_id: b.app.app_id,
        window_title: Some(w.title),
        launch_ref: if b.app.launch_path is Some {
            Some(b.app_ref)
        } else {
            None
        },
    }
}

/// The tokens after one was given out; where there are too many, the old ones
/// expire.
pub open spec fn bound_with(
    bindings: Map<Seq<char>, BindingModel>,
    token: Seq<char>,
    b: BindingModel,
) -> Map<Seq<char>, BindingModel> {
    let kept = if bindings.len() >= MAX_BINDINGS {
        Map::empty()
    } else {
        bindings
    };
    kept.insert(token, b)
}

/// The saved windows after one was found.
pub open spec fn saved_with(
    saved: Seq<(SavedKeyModel, LiveModel)>,
    key: SavedKeyModel,
    w: LiveModel,
) -> Seq<(SavedKeyModel, LiveModel)> {
    let kept = if saved.len() >= MAX_BINDINGS {
        Seq::empty()
    } else {
        saved
    };
    table::put(kept, key, w)
}

/// The registries stay bounded.
pub proof fn registries_are_bounded(
    bindings: Map<Seq<char>, BindingModel>,
    token: Seq<char>,
    b: BindingModel,
    saved: Seq<(SavedKeyModel, LiveModel)>,
    key: SavedKeyModel,
    w: LiveModel,
)
    requires
        bindings.dom().finite(),
        bindings.len() <= MAX_BINDINGS,
        saved.len() <= MAX_BINDINGS,
    ensures
        bound_with(bindings, token, b).dom().finite(),
        bound_with(bindings, token, b).len() <= MAX_BINDINGS,
        saved_with(saved, key, w).len() <= MAX_BINDINGS,
{
    table::place_is_right(saved, key);
}

/// A token that was given out stands for its binding, and the others for theirs
/// until the tokens expire.
pub proof fn token_stands_for_its_binding(
    bindings: Map<Seq<char>, BindingModel>,
    token: Seq<char>,
    b: BindingModel,
    other: Seq<char>,
)
    ensures
        bound_with(bindings, token, b).contains_key(token),
        bound_with(bindings, token, b)[token] == b,
        bindings.len() < MAX_BINDINGS && other != token && bindings.contains_key(other)
            ==> bound_with(bindings, token, b).contains_key(other) && bound_with(
            bindings,
            token,
            b,
        )[other] == bindings[other],
{
}

/// What a token may be used for: nothing unless it was given out, and to this
/// owner.
pub open spec fn ensured(st: TargetStateModel, owner: Seq<char>, token: Seq<char>) -> Result<
    BindingModel,
    Seq<char>,
> {
    if !st.bindings.contains_key(token) {
        Err("Unknown or expired target_token; bind a desktop target first"@)
    } else if st.bindings[token].owner != owner {
        Err("target_token belongs to another execution owner"@)
    } else {
        Ok(st.bindings[token])
    }
}

/// A token that was not given out, or was given to someone else, is refused.
pub proof fn tokens_cannot_cross_owners(st: TargetStateModel, owner: Seq<char>, token: Seq<char>)
    ensures
        !st.bindings.contains_key(token) ==> ensured(st, owner, token) is Err,
        st.bindings.contains_key(token) && st.bindings[token].owner != owner ==> ensured(
            st,
            owner,
            token,
        ) is Err,
{
}

/// What is done next about a saved target.
#[derive(Debug, Clone, PartialEq, Eq)]
pub enum SavedStep {
    /// Bring the window that the target was found to be to the front.
    Reactivate(Window),
    /// Find out what is installed, and launch the application.
    Discover,
    /// Wait, and look again.
    Poll,
    /// Bring this window to the front, and remember it.
    Activate(Window),
    /// Give up.
    Fail(String),
}

/// The content of a [`SavedStep`].
#[verifier::ext_equal]
pub enum SavedStepModel {
    Reactivate(LiveModel),
    Discover,
    Poll,
    Activate(LiveModel),
    Fail(Seq<char>),
}

impl View for SavedStep {
    type V = SavedStepModel;

    open spec fn view(&self) -> SavedStepModel {
        match self {
            SavedStep::Reactivate(w) => SavedStepModel::Reactivate(w@),
            SavedStep::Discover => SavedStepModel::Discover,
            SavedStep::Poll => SavedStepModel::Poll,
            SavedStep::Activate(w) => SavedStepModel::Activate(w@),
            SavedStep::Fail(s) => SavedStepModel::Fail(s@),
        }
    }
}

/// The key of a saved target.
pub open spec fn saved_key(owner: Seq<char>, l: LocatorModel) -> SavedKeyModel {
    SavedKeyModel {
        owner,
        app_id: l.app_id,
        window_id: l.window_id,
        window_title: l.window_title,
    }
}

/// What is done about the windows of a saved target's application.
pub open spec fn saved_decided(windows: Seq<LiveModel>, l: LocatorModel) -> SavedStepModel {
    match targets::saved_choice(windows, l) {
        Ok(Choice::One(i)) => SavedStepModel::Activate(windows[i as int]),
        Ok(Choice::Several) => SavedStepModel::Fail(
            "Saved target matches multiple windows; select a window before replay"@,
        ),
        Err(e) => SavedStepModel::Fail(e),
    }
}

/// The state after a saved target was looked for, and what is done next: the
/// window that it was found to be, as long as it is open whatever its title;
/// else the application's window, which is launched where it has none.
pub open spec fn saved_begun(
    st: TargetStateModel,
    owner: Seq<char>,
    l: LocatorModel,
    launch_ref: Option<Seq<char>>,
    running: Seq<LiveModel>,
) -> (TargetStateModel, SavedStepModel) {
    let windows = targets::windows_of(running, l.app_id);
    let key = saved_key(owner, l);
    let known = table::get(st.saved_windows, key);
    if known is Some && targets::same_place(windows, known->Some_0) is Some {
        (
            st,
            SavedStepModel::Reactivate(
                windows[targets::same_place(windows, known->Some_0)->Some_0],
            ),
        )
    } else {
        let next = TargetStateModel {
            saved_windows: table::without(st.saved_windows, key),
            ..st
        };
        if windows.len() == 0 {
            match launch_ref {
                None => (
                    next,
                    SavedStepModel::Fail(
                        "Saved target application is not running; a catalog launch_ref is required"@,
                    ),
                ),
                Some(_) => (next, SavedStepModel::Discover),
            }
        } else {
            (next, saved_decided(windows, l))
        }
    }
}

/// What is done after a look for a saved target that was launched.
pub open spec fn saved_polled(l: LocatorModel, running: Seq<LiveModel>, polls: int) -> SavedStepModel {
    let windows = targets::windows_of(running, l.app_id);
    if windows.len() == 0 && polls < LAUNCH_POLLS {
        SavedStepModel::Poll
    } else {
        saved_decided(windows, l)
    }
}

/// The first installed application of a reference and an id.
pub open spec fn launch_place(
    installed: Seq<ApplicationModel>,
    reference: Seq<char>,
    app_id: Seq<char>,
) -> Option<int>
    decreases installed.len(),
{
    if installed.len() == 0 {
        None
    } else {
        match launch_place(installed.drop_last(), reference, app_id) {
            Some(i) => Some(i),
            None => if targets::app_ref(installed.last().app_id) == reference
                && installed.last().app_id == app_id {
                Some(installed.len() - 1)
            } else {
                None
            },
        }
    }
}

/// What is launched for a saved target: only what is installed under its
/// reference, never a path that was saved.
pub open spec fn launch_entry(
    installed: Seq<ApplicationModel>,
    reference: Seq<char>,
    app_id: Seq<char>,
) -> Result<Seq<char>, Seq<char>> {
    match launch_place(installed, reference, app_id) {
        None => Err("Saved launch_ref is no longer present in the local application catalog"@),
        Some(i) => match installed[i].launch_path {
            None => Err("Application has no native launch entry"@),
            Some(path) => Ok(path),
        },
    }
}

/// Finds what is launched for a saved target.
pub fn find_launch_entry(installed: &Vec<Application>, reference: &str, app_id: &str) -> (r: Result<
    String,
    String,
>)
    ensures
        model::result_view(r) == launch_entry(model::seq_view(installed@), reference@, app_id@),
{
    let ghost s = model::seq_view(installed@);
    let mut i: usize = 0;
    while i < installed.len()
        invariant
            i <= installed@.len(),
            s == model::seq_view(installed@),
            launch_place(s.take(i as int), reference@, app_id@) is None,
        decreases installed@.len() - i,
    {
        proof {
            assert(s.take(i + 1).drop_last() == s.take(i as int));
            assert(s.take(i + 1).last() == installed@[i as int]@);
        }
        let own = app_reference(installed[i].app_id.as_str());
        if same_text(own.as_str(), reference) && same_text(installed[i].app_id.as_str(), app_id) {
            proof {
                launch_place_persists(s, reference@, app_id@, i + 1);
            }
            return match &installed[i].launch_path {
                Some(path) => Ok(path.clone()),
                None => Err(owned("Application has no native launch entry")),
            };
        }
        i = i + 1;
    }
    assert(s.take(s.len() as int) == s);
    Err(owned("Saved launch_ref is no longer present in the local application catalog"))
}

/// A place that was found stays the first.
proof fn launch_place_persists(
    s: Seq<ApplicationModel>,
    reference: Seq<char>,
    app_id: Seq<char>,
    n: int,
)
    requires
        0 <= n <= s.len(),
        launch_place(s.take(n), reference, app_id) is Some,
    ensures
        launch_place(s, reference, app_id) == launch_place(s.take(n), reference, app_id),
    decreases s.len() - n,
{
    if n < s.len() {
        assert(s.take(n + 1).drop_last() == s.take(n));
        launch_place_persists(s, reference, app_id, n + 1);
    } else {
        assert(s.take(n) == s);
    }
}

/// What is done about the windows of a saved target's application.
fn decide_saved(windows: &Vec<Window>, locator: &SemanticLocator) -> (r: SavedStep)
    ensures
        r@ == saved_decided(model::seq_view(windows@), locator@),
{
    match choose_saved_window(windows, locator) {
        Ok(Choice::One(i)) => SavedStep::Activate(windows[i].copied()),
        Ok(Choice::Several) => SavedStep::Fail(
            owned("Saved target matches multiple windows; select a window before replay"),
        ),
        Err(e) => SavedStep::Fail(e),
    }
}

/// What is done after the `polls`-th look for a saved target that was
/// launched.
pub fn poll_saved(locator: &SemanticLocator, running: &Vec<Window>, polls: usize) -> (r: SavedStep)
    ensures
        r@ == saved_polled(locator@, model::seq_view(running@), polls as int),
{
    let windows = app_windows(running, locator.app_id.as_str());
    if windows.len() == 0 && polls < LAUNCH_POLLS {
        return SavedStep::Poll;
    }
    decide_saved(&windows, locator)
}

/// Checks that a bound window is still open.
pub fn check_open(running: &Vec<Window>, window: &Window) -> (r: Result<(), String>)
    ensures
        match r {
            Ok(_) => exists|i: int|
                0 <= i < running@.len() && targets::one_window((#[trigger] running@[i])@, window@),
            Err(e) => (forall|i: int|
                0 <= i < running@.len() ==> !targets::one_window(
                    (#[trigger] running@[i])@,
                    window@,
                )) && e@ == "Bound target window is no longer available; bind again"@,
        },
{
    let mut i: usize = 0;
    while i < running.len()
        invariant
            i <= running@.len(),
            forall|k: int|
                0 <= k < i ==> !targets::one_window((#[trigger] running@[k])@, window@),
        decreases running@.len() - i,
    {
        if same_window(&running[i], window) {
            return Ok(());
        }
        i = i + 1;
    }
    Err(owned("Bound target window is no longer available; bind again"))
}

/// Checks that a window was brought to the front.
pub fn check_activated(success: Option<bool>, foreground: Option<bool>) -> (r: Result<(), String>)
    ensures
        match r {
            Ok(_) => success == Some(true) && foreground == Some(true),
            Err(e) => (success != Some(true) || foreground != Some(true)) && e@
                == "Could not bring the bound target window to the foreground"@,
        },
{
    let done = match success {
        Some(b) => b,
        None => false,
    };
    let front = match foreground {
        Some(b) => b,
        None => false,
    };
    if done && front {
        Ok(())
    } else {
        Err(owned("Could not bring the bound target window to the foreground"))
    }
}

/// Checks the answer to a request for the windows.
pub fn check_enumeration(success: Option<bool>, error: Option<&str>, has_rows: bool) -> (r: Result<
    (),
    String,
>)
    ensures
        match r {
            Ok(_) => success == Some(true) && has_rows,
            Err(e) => if success != Some(true) {
                e@ == match text::opt_str(error) {
                    Some(s) => s,
                    None => "Window enumeration failed"@,
                }
            } else {
                !has_rows && e@ == "Window enumeration returned an invalid response"@
            },
        },
{
    let done = match success {
        Some(b) => b,
        None => false,
    };
    if !done {
        return match error {
            Some(s) => Err(owned(s)),
            None => Err(owned("Window enumeration failed")),
        };
    }
    if has_rows {
        Ok(())
    } else {
        Err(owned("Window enumeration returned an invalid response"))
    }
}

/// A window of an enumeration as it was reported.
pub struct WindowRow {
    pub hwnd: Option<i64>,
    pub process_id: Option<u64>,
    pub title: Option<String>,
    /// Whether the system hides the window.
    pub cloaked: Option<bool>,
    /// The application of the window's process.
    pub app: Option<Application>,
}

/// The window of a row, where the row can be used.
pub open spec fn live_row(row: WindowRow) -> Option<(ApplicationModel, LiveModel)> {
    if row.cloaked == Some(true) {
        None
    } else {
        match (row.hwnd, row.process_id, row.title, row.app) {
            (Some(hwnd), Some(pid), Some(title), Some(app)) => if i32::MIN <= hwnd <= i32::MAX
                && pid <= u32::MAX {
                Some(
                    (
                        app@,
                        LiveModel {
                            hwnd: hwnd as i32,
                            pid: pid as u32,
                            app_id: app@.app_id,
                            title: title@,
                        },
                    ),
                )
            } else {
                None
            },
            _ => None,
        }
    }
}

/// The window of a row, where the row can be used.
pub fn running_window(row: &WindowRow) -> (r: Option<(Application, Window)>)
    ensures
        model::opt_view(r) == live_row(*row),
{
    match row.cloaked {
        Some(true) => {
            return None;
        },
        _ => {},
    }
    let hwnd: i64 = match row.hwnd {
        Some(n) => n,
        None => {
            return None;
        },
    };
    let pid: u64 = match row.process_id {
        Some(n) => n,
        None => {
            return None;
        },
    };
    if hwnd < -2147483648 || hwnd > 2147483647 || pid > 4294967295 {
        return None;
    }
    match (&row.title, &row.app) {
        (Some(title), Some(app)) => Some(
            (
                app.copied(),
                Window {
                    hwnd: hwnd as i32,
                    pid: pid as u32,
                    app_id: app.app_id.clone(),
                    title: title.clone(),
                },
            ),
        ),
        _ => None,
    }
}

impl DesktopTargetService {
    /// A service without targets.
    pub fn new() -> (r: Self)
        ensures
            r.state@ == (TargetStateModel {
                apps: Seq::empty(),
                windows: Seq::empty(),
                bindings: Map::empty(),
                saved_windows: Seq::empty(),
                catalogs: Seq::empty(),
            }),
            ids::hyphenated(r.interactive_owner@),
    {
        let r = DesktopTargetService {
            state: TargetState {
                apps: Table::new(),
                windows: Table::new(),
                bindings: StringHashMap::new(),
                saved_windows: Table::new(),
                catalogs: Table::new(),
            },
            interactive_owner: fresh_uuid(),
        };
        assert(r.state@.bindings =~= Map::empty());
        r
    }

    /// Who acts: the execution that is under way, else the user.
    pub fn owner(&self, execution: Option<&str>) -> (r: String)
        ensures
            r@ == match text::opt_str(execution) {
                Some(s) => s,
                None => self.interactive_owner@,
            },
    {
        match execution {
            Some(s) => owned(s),
            None => self.interactive_owner.clone(),
        }
    }

    /// A further page of the catalog of an owner and a query. It comes from
    /// the catalog that the first page came from.
    pub fn list_from(&self, owner: &str, query: Option<&str>, cursor: usize) -> (r: Result<
        CatalogPage,
        String,
    >)
        ensures
            model::result_view(r) == match table::get(
                self.state@.catalogs,
                CatalogKeyModel { owner: owner@, query: asked(text::opt_str(query)) },
            ) {
                None => Err(
                    "invalid_cursor: 目录快照已过期或 query/执行会话改变，请从 cursor=0 重新查询"@,
                ),
                Some(s) => targets::page_model(s, cursor as int),
            },
    {
        let key = CatalogKey { owner: owned(owner), query: normalize_query(query) };
        match self.state.catalogs.find(&key) {
            None => Err(
                owned(
                    "invalid_cursor: 目录快照已过期或 query/执行会话改变，请从 cursor=0 重新查询",
                ),
            ),
            Some(i) => catalog_page(&self.state.catalogs.slots[i].1, cursor),
        }
    }

    /// The first page of a fresh catalog of what is installed and what runs.
    pub fn list(
        &mut self,
        owner: &str,
        query: Option<&str>,
        installed: &Vec<Application>,
        running: &Vec<(Application, Window)>,
        own_pid: u32,
    ) -> (r: Result<CatalogPage, String>)
        ensures
            final(self).interactive_owner@ == old(self).interactive_owner@,
            (final(self).state@, model::result_view(r)) == listed(
                old(self).state@,
                owner@,
                asked(text::opt_str(query)),
                model::seq_view(installed@),
                model::seq_view(running@),
                own_pid,
            ),
    {
        let ghost st = self.state@;
        let ghost rs = model::seq_view(running@);
        let query = normalize_query(query);
        let key = CatalogKey { owner: owned(owner), query: query.clone() };
        let mut all = copy_all(installed);
        let mut open: Vec<Window> = Vec::new();
        let ghost first = model::seq_view(installed@);
        let mut i: usize = 0;
        assert(model::seq_view(all@) =~= first + running_apps(rs).take(0));
        while i < running.len()
            invariant
                i <= running@.len(),
                rs == model::seq_view(running@),
                model::seq_view(all@) == first + running_apps(rs).take(i as int),
                open@.len() == i,
                forall|k: int| 0 <= k < i ==> (#[trigger] open@[k])@ == running_windows(rs)[k],
            decreases running@.len() - i,
        {
            let ghost before = all@;
            let app = running[i].0.copied();
            all.push(app);
            assert(rs[i as int] == running@[i as int]@);
            open.push(running[i].1.copied());
            i = i + 1;
            proof {
                assert(model::seq_view(all@) =~= model::seq_view(before).push(app@));
                assert(running_apps(rs).take(i as int) =~= running_apps(rs).take(i - 1).push(app@));
                assert(model::seq_view(all@) =~= first + running_apps(rs).take(i as int));
            }
        }
        proof {
            assert(running_apps(rs).take(rs.len() as int) =~= running_apps(rs));
            assert(model::seq_view(open@) =~= running_windows(rs));
        }
        let firsts = collect_firsts(&all);
        let ordered = sort(&firsts.slots);
        self.state.apps = collect_references(&ordered);
        let mut windows: Table<String, Window> = Table::new();
        add_windows(&mut windows, &open);
        self.state.windows = windows;
        let snapshot = catalog_snapshot(
            &self.state.apps.slots,
            &self.state.windows.slots,
            query.as_str(),
            own_pid,
        );
        match catalog_page(&snapshot, 0) {
            Err(e) => Err(e),
            Ok(page) => {
                if self.state.catalogs.len() >= MAX_CATALOGS && self.state.catalogs.find(
                    &key,
                ).is_none() {
                    self.state.catalogs.clear();
                }
                self.state.catalogs.put(key, snapshot);
                Ok(page)
            },
        }
    }

    /// Begins a binding. Only references that were listed are known.
    pub fn bind(&self, app_ref: &str, window_ref: Option<&str>) -> (r: Result<BindRun, String>)
        ensures
            model::result_view(r) == bind_begun(self.state@, app_ref@, text::opt_str(window_ref)),
    {
        let reference = owned(app_ref);
        let app = match self.state.apps.get(&reference) {
            Some(a) => a,
            None => {
                return Err(owned("Unknown app_ref; list desktop targets first"));
            },
        };
        let selected = match window_ref {
            None => None,
            Some(w) => match self.state.windows.get(&owned(w)) {
                None => {
                    return Err(owned("Unknown window_ref; list desktop targets again"));
                },
                Some(window) => {
                    if !same_text(window.app_id.as_str(), app.app_id.as_str()) {
                        return Err(owned("window_ref does not belong to app_ref"));
                    }
                    Some(window)
                },
            },
        };
        Ok(BindRun { app_ref: reference, app, selected, launched: false, polls: 0 })
    }

    /// Remembers windows among which one has to be chosen, and shows them.
    pub fn offer(&mut self, app_ref: &str, windows: &Vec<Window>) -> (r: SelectionPage)
        ensures
            final(self).interactive_owner@ == old(self).interactive_owner@,
            final(self).state@ == (TargetStateModel {
                windows: windows_by_reference(old(self).state@.windows, model::seq_view(windows@)),
                ..old(self).state@
            }),
            r@ == targets::selection_model(
                app_ref@,
                Seq::new(
                    windows@.len(),
                    |i: int|
                        WindowEntryModel {
                            window_ref: targets::window_ref(windows@[i]@),
                            title: windows@[i]@.title,
                        },
                ),
            ),
    {
        let ghost full = Seq::new(
            windows@.len(),
            |i: int|
                WindowEntryModel {
                    window_ref: targets::window_ref(windows@[i]@),
                    title: windows@[i]@.title,
                },
        );
        add_windows(&mut self.state.windows, windows);
        let mut entries: Vec<WindowEntry> = Vec::new();
        let mut i: usize = 0;
        while i < windows.len()
            invariant
                i <= windows@.len(),
                full.len() == windows@.len(),
                forall|k: int|
                    0 <= k < full.len() ==> #[trigger] full[k] == (WindowEntryModel {
                        window_ref: targets::window_ref(windows@[k]@),
                        title: windows@[k]@.title,
                    }),
                entries@.len() == i,
                forall|k: int| 0 <= k < i ==> (#[trigger] entries@[k])@ == full[k],
            decreases windows@.len() - i,
        {
            let entry = WindowEntry {
                window_ref: window_reference(&windows[i]),
                title: windows[i].title.clone(),
            };
            assert(entry@ == full[i as int]);
            entries.push(entry);
            i = i + 1;
        }
        assert(model::seq_view(entries@) =~= full);
        window_selection_page(app_ref, &entries)
    }

    /// Gives out the token `target:` with the given part for a window that was
    /// brought to the front.
    pub fn finish_bind_with(&mut self, owner: &str, run: &BindRun, window: &Window, part: &str) -> (r:
        (String, DesktopTargetDescriptor))
        ensures
            final(self).interactive_owner@ == old(self).interactive_owner@,
            r.0@ == "target:"@ + part@,
            r.1@ == descriptor_of(run@, window@),
            final(self).state@ == (TargetStateModel {
                bindings: bound_with(
                    old(self).state@.bindings,
                    "target:"@ + part@,
                    BindingModel {
                        owner: owner@,
                        window: window@,
                        descriptor: descriptor_of(run@, window@),
                    },
                ),
                ..old(self).state@
            }),
    {
        let mut token = owned("target:");
        token.append(part);
        let launch_ref = if run.app.launch_path.is_some() {
            Some(run.app_ref.clone())
        } else {
            None
        };
        let descriptor = DesktopTargetDescriptor {
            app_id: run.app.app_id.clone(),
            window_title: Some(window.title.clone()),
            launch_ref,
        };
        let ghost before = self.state.bindings@;
        assert(binding_contents(before).dom() =~= before.dom());
        if self.state.bindings.len() >= MAX_BINDINGS {
            self.state.bindings.clear();
        }
        let ghost kept = self.state.bindings@;
        let binding = Binding {
            owner: owned(owner),
            window: window.copied(),
            descriptor: descriptor.copied(),
        };
        self.state.bindings.insert(token.clone(), binding);
        assert(binding_contents(self.state.bindings@) =~= binding_contents(kept).insert(
            token@,
            binding@,
        ));
        assert(binding_contents(kept) =~= if before.len() >= MAX_BINDINGS {
            Map::empty()
        } else {
            binding_contents(before)
        });
        (token, descriptor)
    }

    /// Gives out a fresh token for a window that was brought to the front.
    pub fn finish_bind(&mut self, owner: &str, run: &BindRun, window: &Window) -> (r: (
        String,
        DesktopTargetDescriptor,
    ))
        ensures
            final(self).interactive_owner@ == old(self).interactive_owner@,
            r.1@ == descriptor_of(run@, window@),
            exists|part: Seq<char>| #[trigger]
                uia::fresh_part(part) && r.0@ == "target:"@ + part && final(self).state@ == (
                TargetStateModel {
                    bindings: bound_with(
                        old(self).state@.bindings,
                        "target:"@ + part,
                        BindingModel {
                            owner: owner@,
                            window: window@,
                            descriptor: descriptor_of(run@, window@),
                        },
                    ),
                    ..old(self).state@
                }),
    {
        let part = fresh_simple();
        assert(uia::fresh_part(part@));
        self.finish_bind_with(owner, run, window, part.as_str())
    }

    /// What a token stands for, where this owner may use it.
    pub fn ensure(&self, owner: &str, token: &str) -> (r: Result<Binding, String>)
        ensures
            model::result_view(r) == ensured(self.state@, owner@, token@),
    {
        match self.state.bindings.get(token) {
            None => Err(owned("Unknown or expired target_token; bind a desktop target first")),
            Some(b) => if same_text(b.owner.as_str(), owner) {
                Ok(b.copied())
            } else {
                Err(owned("target_token belongs to another execution owner"))
            },
        }
    }

    /// Looks for a saved target, and says what is done next.
    pub fn ensure_saved(
        &mut self,
        owner: &str,
        locator: &SemanticLocator,
        launch_ref: Option<&str>,
        running: &Vec<Window>,
    ) -> (r: SavedStep)
        ensures
            final(self).interactive_owner@ == old(self).interactive_owner@,
            (final(self).state@, r@) == saved_begun(
                old(self).state@,
                owner@,
                locator@,
                text::opt_str(launch_ref),
                model::seq_view(running@),
            ),
    {
        let windows = app_windows(running, locator.app_id.as_str());
        let key = make_saved_key(owner, locator);
        match self.state.saved_windows.get(&key) {
            Some(bound) => {
                match targets::find_same(&windows, &bound) {
                    Some(i) => {
                        return SavedStep::Reactivate(windows[i].copied());
                    },
                    None => {},
                }
                self.state.saved_windows.remove(&key);
            },
            None => {
                proof {
                    assert(table::place(self.state.saved_windows@, key@) is None);
                }
            },
        }
        if windows.len() == 0 {
            return match launch_ref {
                None => SavedStep::Fail(
                    owned(
                        "Saved target application is not running; a catalog launch_ref is required",
                    ),
                ),
                Some(_) => SavedStep::Discover,
            };
        }
        decide_saved(&windows, locator)
    }

    /// Remembers the window that a saved target was found to be.
    pub fn remember_saved(&mut self, owner: &str, locator: &SemanticLocator, window: &Window)
        ensures
            final(self).interactive_owner@ == old(self).interactive_owner@,
            final(self).state@ == (TargetStateModel {
                saved_windows: saved_with(
                    old(self).state@.saved_windows,
                    saved_key(owner@, locator@),
                    window@,
                ),
                ..old(self).state@
            }),
    {
        let key = make_saved_key(owner, locator);
        if self.state.saved_windows.len() >= MAX_BINDINGS {
            self.state.saved_windows.clear();
        }
        self.state.saved_windows.put(key, window.copied());
    }
}

/// A window that a saved target was found to be stays its window while it is
/// open, whatever its title, for the same owner.
pub proof fn saved_window_survives_its_title(
    st: TargetStateModel,
    owner: Seq<char>,
    l: LocatorModel,
    w: LiveModel,
    launch_ref: Option<Seq<char>>,
    running: Seq<LiveModel>,
)
    requires
        table::get(st.saved_windows, saved_key(owner, l)) == Some(w),
        targets::same_place(targets::windows_of(running, l.app_id), w) is Some,
    ensures
        saved_begun(st, owner, l, launch_ref, running).0 == st,
        saved_begun(st, owner, l, launch_ref, running).1 matches SavedStepModel::Reactivate(_),
{
}

/// A query as it is compared.
fn normalize_query(query: Option<&str>) -> (r: String)
    ensures
        r@ == asked(text::opt_str(query)),
{
    match query {
        Some(q) => lowercase(trim(q).as_str()),
        None => {
            let nothing = String::new();
            assert(nothing@ =~= Seq::<char>::empty());
            lowercase(trim(nothing.as_str()).as_str())
        },
    }
}

/// The key of a saved target.
fn make_saved_key(owner: &str, locator: &SemanticLocator) -> (r: SavedKey)
    ensures
        r@ == saved_key(owner@, locator@),
{
    SavedKey {
        owner: owned(owner),
        app_id: locator.app_id.clone(),
        window_id: copy_opt(&locator.window_id),
        window_title: copy_opt(&locator.window_title),
    }
}

/// A query is taken without the blanks around it and in small letters.
pub proof fn queries_are_taken_plainly(q: Seq<char>)
    ensures
        asked(Some(q)) == text::lowercased(text::trimmed(q)),
        asked(None) == text::lowercased(text::trimmed(Seq::empty())),
{
}

/// Applications with one id count once: the first is kept.
proof fn firsts_are_distinct(list: Seq<ApplicationModel>)
    ensures
        table::distinct(firsts(list)),
    decreases list.len(),
{
    if list.len() > 0 {
        let before = firsts(list.drop_last());
        firsts_are_distinct(list.drop_last());
        table::put_is_found(before, list.last().app_id, list.last(), list.last().app_id);
    }
}

/// Of the applications with one id the first that was listed is known, and an
/// application that is listed is known.
pub proof fn first_application_of_an_id_is_known(
    list: Seq<ApplicationModel>,
    app: ApplicationModel,
    id: Seq<char>,
)
    ensures
        table::get(firsts(list), app.app_id) is None ==> table::get(
            firsts(list.push(app)),
            app.app_id,
        ) == Some(app),
        table::get(firsts(list), app.app_id) is Some ==> firsts(list.push(app)) == firsts(list),
        id != app.app_id ==> table::get(firsts(list.push(app)), id) == table::get(firsts(list), id),
        table::get(firsts(Seq::empty()), id) is None,
{
    assert(list.push(app).drop_last() =~= list);
    firsts_are_distinct(list);
    table::put_is_found(firsts(list), app.app_id, app, id);
}

/// What is known by reference is distinct.
proof fn references_are_distinct(list: Seq<(Seq<char>, ApplicationModel)>)
    ensures
        table::distinct(by_reference(list)),
    decreases list.len(),
{
    if list.len() > 0 {
        references_are_distinct(list.drop_last());
        let k = targets::app_ref(list.last().0);
        table::put_is_found(by_reference(list.drop_last()), k, list.last().1, k);
    }
}

/// What is known by reference is distinct.
proof fn window_references_are_distinct(list: Seq<LiveModel>)
    ensures
        table::distinct(windows_by_reference(Seq::empty(), list)),
    decreases list.len(),
{
    if list.len() > 0 {
        window_references_are_distinct(list.drop_last());
        let k = targets::window_ref(list.last());
        table::put_is_found(
            windows_by_reference(Seq::empty(), list.drop_last()),
            k,
            list.last(),
            k,
        );
    }
}

/// An application is found under the reference of its id, and a window under its
/// own; nothing is found under a reference that nothing has.
pub proof fn references_lead_to_their_targets(
    list: Seq<(Seq<char>, ApplicationModel)>,
    slot: (Seq<char>, ApplicationModel),
    windows: Seq<LiveModel>,
    w: LiveModel,
    other: Seq<char>,
)
    ensures
        table::get(by_reference(list.push(slot)), targets::app_ref(slot.0)) == Some(slot.1),
        other != targets::app_ref(slot.0) ==> table::get(by_reference(list.push(slot)), other)
            == table::get(by_reference(list), other),
        table::get(by_reference(Seq::empty()), other) is None,
        table::get(
            windows_by_reference(Seq::empty(), windows.push(w)),
            targets::window_ref(w),
        ) == Some(w),
        other != targets::window_ref(w) ==> table::get(
            windows_by_reference(Seq::empty(), windows.push(w)),
            other,
        ) == table::get(windows_by_reference(Seq::empty(), windows), other),
        table::get(windows_by_reference(Seq::empty(), Seq::empty()), other) is None,
{
    assert(list.push(slot).drop_last() =~= list);
    assert(windows.push(w).drop_last() =~= windows);
    references_are_distinct(list);
    window_references_are_distinct(windows);
    table::put_is_found(by_reference(list), targets::app_ref(slot.0), slot.1, other);
    table::put_is_found(
        windows_by_reference(Seq::empty(), windows),
        targets::window_ref(w),
        w,
        other,
    );
}

/// A listing replaces what is known of applications and windows, leaves what is
/// bound, and keeps its catalog for the pages to come; where thirty-two are kept
/// already the others are let go. One without a first page keeps none.
pub proof fn listing_renews_what_is_known(
    st: TargetStateModel,
    owner: Seq<char>,
    query: Seq<char>,
    installed: Seq<ApplicationModel>,
    running: Seq<(ApplicationModel, LiveModel)>,
    own_pid: u32,
)
    requires
        table::distinct(st.catalogs),
    ensures
        ({
            let after = listed(st, owner, query, installed, running, own_pid);
            let key = CatalogKeyModel { owner, query };
            let snapshot = targets::snapshot_model(after.0.apps, after.0.windows, query, own_pid);
            &&& after.0.bindings == st.bindings
            &&& after.0.saved_windows == st.saved_windows
            &&& after.0.apps == by_reference(
                order::sorted::<(String, Application)>(
                    firsts(installed + Seq::new(running.len(), |i: int| running[i].0)),
                ),
            )
            &&& after.0.windows == windows_by_reference(
                Seq::empty(),
                Seq::new(running.len(), |i: int| running[i].1),
            )
            &&& after.1 == targets::page_model(snapshot, 0)
            &&& after.1 is Err ==> after.0.catalogs == st.catalogs
            &&& after.1 is Ok ==> table::get(after.0.catalogs, key) == Some(snapshot)
            &&& after.1 is Ok && st.catalogs.len() >= 32 && table::get(st.catalogs, key) is None
                ==> after.0.catalogs.len() == 1
            &&& after.1 is Ok && (st.catalogs.len() < 32 || table::get(st.catalogs, key) is Some)
                ==> forall|k: CatalogKeyModel|
                k != key ==> #[trigger] table::get(after.0.catalogs, k) == table::get(
                    st.catalogs,
                    k,
                )
        }),
{
    let key = CatalogKeyModel { owner, query };
    let after = listed(st, owner, query, installed, running, own_pid);
    let snapshot = targets::snapshot_model(after.0.apps, after.0.windows, query, own_pid);
    assert(running_apps(running) =~= Seq::new(running.len(), |i: int| running[i].0));
    assert(running_windows(running) =~= Seq::new(running.len(), |i: int| running[i].1));
    let none = Seq::<(CatalogKeyModel, SnapshotModel)>::empty();
    table::put_is_found(st.catalogs, key, snapshot, key);
    table::put_is_found(none, key, snapshot, key);
    assert(table::place(none, key) is None);
    assert(none.push((key, snapshot)).len() == 1);
    if after.1 is Ok && (st.catalogs.len() < 32 || table::get(st.catalogs, key) is Some) {
        assert forall|k: CatalogKeyModel| k != key implies #[trigger] table::get(
            after.0.catalogs,
            k,
        ) == table::get(st.catalogs, k) by {
            table::put_is_found(st.catalogs, key, snapshot, k);
        }
    }
}

/// A binding begins with an application that was listed and, where one is named,
/// a window of it that was listed.
pub proof fn binding_begins_with_what_was_listed(
    st: TargetStateModel,
    app_ref: Seq<char>,
    window_ref: Option<Seq<char>>,
)
    ensures
        ({
            let app = table::get(st.apps, app_ref);
            let r = bind_begun(st, app_ref, window_ref);
            &&& app is None ==> r is Err
            &&& app is Some && window_ref is None ==> r is Ok && r->Ok_0.selected is None
            &&& app is Some && window_ref is Some ==> {
                let w = table::get(st.windows, window_ref->Some_0);
                &&& r is Ok <==> w is Some && w->Some_0.app_id == app->Some_0.app_id
                &&& r is Ok ==> r->Ok_0.selected == w
            }
            &&& r matches Ok(b) ==> b.app_ref == app_ref && app == Some(b.app) && !b.launched
                && b.polls == 0
        }),
{
}

/// A binding goes on by what runs: an application without a window is started
/// once, where it can be, and then waited for, thirty times at most; a window
/// that is there is brought to the front, or one of several is to be selected.
pub proof fn binding_goes_on_by_what_runs(b: BindModel, running: Seq<LiveModel>)
    ensures
        ({
            let open = targets::windows_of(running, b.app.app_id);
            let next = b.stepped(running);
            &&& open.len() == 0 && b.selected is None && !b.launched && b.app.launch_path is Some
                ==> next.1 == BindStepModel::Launch(b.app.launch_path->Some_0) && next.0.launched
                && next.0.polls == b.polls
            &&& open.len() == 0 && b.selected is None && !b.launched && b.app.launch_path is None
                ==> next.1 is Fail && next.0 == b
            &&& open.len() == 0 && b.launched && b.polls < 29 ==> next.1 is Poll && next.0.polls
                == b.polls + 1
            &&& open.len() == 0 && b.launched && b.polls >= 29 ==> next.1 == b.decided(open)
                && next.0 == b
            &&& open.len() == 0 && b.selected is Some && !b.launched ==> next.1 == b.decided(open)
                && next.0 == b
            &&& open.len() > 0 ==> next.1 == b.decided(open) && next.0 == b
            &&& next.0.app == b.app && next.0.app_ref == b.app_ref && next.0.selected == b.selected
        }),
{
}

/// What is decided about the open windows is what was chosen of them.
pub proof fn binding_takes_the_chosen_window(b: BindModel, open: Seq<LiveModel>)
    ensures
        targets::chosen(open, b.selected, None) matches Ok(Choice::One(i)) ==> b.decided(open)
            == BindStepModel::Activate(open[i as int]),
        targets::chosen(open, b.selected, None) matches Ok(Choice::Several) ==> b.decided(open)
            == BindStepModel::Select(open),
        targets::chosen(open, b.selected, None) matches Err(e) ==> b.decided(open)
            == BindStepModel::Fail(e),
{
}

/// What is told of a bound target: its application, the window's title, and a
/// reference to start it by where it can be started.
pub proof fn bound_target_is_told(b: BindModel, w: LiveModel)
    ensures
        descriptor_of(b, w).app_id == b.app.app_id,
        descriptor_of(b, w).window_title == Some(w.title),
        b.app.launch_path is Some ==> descriptor_of(b, w).launch_ref == Some(b.app_ref),
        b.app.launch_path is None ==> descriptor_of(b, w).launch_ref is None,
{
}

/// Two hundred and fifty-six bindings are kept; one more lets the others go. The
/// same holds of saved windows.
pub proof fn full_registries_start_over(
    bindings: Map<Seq<char>, BindingModel>,
    token: Seq<char>,
    b: BindingModel,
    saved: Seq<(SavedKeyModel, LiveModel)>,
    key: SavedKeyModel,
    w: LiveModel,
)
    requires
        table::distinct(saved),
    ensures
        bindings.len() < 256 ==> bound_with(bindings, token, b) == bindings.insert(token, b),
        bindings.len() >= 256 ==> bound_with(bindings, token, b) == Map::<
            Seq<char>,
            BindingModel,
        >::empty().insert(token, b),
        table::get(saved_with(saved, key, w), key) == Some(w),
        saved.len() >= 256 ==> saved_with(saved, key, w).len() == 1,
        saved.len() < 256 ==> forall|k: SavedKeyModel|
            k != key ==> #[trigger] table::get(saved_with(saved, key, w), k) == table::get(
                saved,
                k,
            ),
{
    let none = Seq::<(SavedKeyModel, LiveModel)>::empty();
    table::put_is_found(saved, key, w, key);
    table::put_is_found(none, key, w, key);
    assert(table::place(none, key) is None);
    if saved.len() < 256 {
        assert forall|k: SavedKeyModel| k != key implies #[trigger] table::get(
            saved_with(saved, key, w),
            k,
        ) == table::get(saved, k) by {
            table::put_is_found(saved, key, w, k);
        }
    }
}

/// A token opens what it stands for to its owner, and to no one else.
pub proof fn tokens_open_to_their_owner(st: TargetStateModel, owner: Seq<char>, token: Seq<char>)
    ensures
        ensured(st, owner, token) is Ok <==> st.bindings.contains_key(token)
            && st.bindings[token].owner == owner,
        ensured(st, owner, token) matches Ok(b) ==> b == st.bindings[token],
{
}

/// A saved target is remembered for its owner, application and window.
pub proof fn saved_targets_are_kept_apart(owner: Seq<char>, l: LocatorModel, other: Seq<char>, m: LocatorModel)
    ensures
        saved_key(owner, l) == saved_key(other, m) <==> owner == other && l.app_id == m.app_id
            && l.window_id == m.window_id && l.window_title == m.window_title,
{
}

/// A saved target goes back to the window that it was last found in, while that
/// is open. Else that window is forgotten, and the open ones are chosen from; an
/// application that does not run is started where a reference is saved for it.
pub proof fn saved_target_goes_back_to_its_window(
    st: TargetStateModel,
    owner: Seq<char>,
    l: LocatorModel,
    launch_ref: Option<Seq<char>>,
    running: Seq<LiveModel>,
)
    requires
        table::distinct(st.saved_windows),
    ensures
        ({
            let open = targets::windows_of(running, l.app_id);
            let known = table::get(st.saved_windows, saved_key(owner, l));
            let next = saved_begun(st, owner, l, launch_ref, running);
            let there = known is Some && targets::same_place(open, known->Some_0) is Some;
            &&& there ==> next.0 == st && next.1 == SavedStepModel::Reactivate(
                open[targets::same_place(open, known->Some_0)->Some_0],
            )
            &&& !there ==> table::get(next.0.saved_windows, saved_key(owner, l)) is None
                && next.0.bindings == st.bindings && next.0.apps == st.apps && next.0.windows
                == st.windows && next.0.catalogs == st.catalogs
            &&& !there && open.len() == 0 && launch_ref is Some ==> next.1 == SavedStepModel::Discover
            &&& !there && open.len() == 0 && launch_ref is None ==> next.1 is Fail
            &&& !there && open.len() > 0 ==> next.1 == saved_decided(open, l)
        }),
{
    let key = saved_key(owner, l);
    table::without_is_gone(st.saved_windows, key, key);
}

/// A saved target is the window chosen for it; where several could be meant,
/// none is taken. After a start it is waited for, thirty times at most.
pub proof fn saved_target_is_never_guessed(l: LocatorModel, running: Seq<LiveModel>, polls: int)
    ensures
        ({
            let open = targets::windows_of(running, l.app_id);
            &&& targets::saved_choice(open, l) matches Ok(Choice::One(i)) ==> saved_decided(open, l)
                == SavedStepModel::Activate(open[i as int])
            &&& targets::saved_choice(open, l) == Ok::<Choice, Seq<char>>(Choice::Several)
                ==> saved_decided(open, l) is Fail
            &&& targets::saved_choice(open, l) matches Err(e) ==> saved_decided(open, l)
                == SavedStepModel::Fail(e)
            &&& open.len() == 0 && polls < 30 ==> saved_polled(l, running, polls) is Poll
            &&& open.len() > 0 || polls >= 30 ==> saved_polled(l, running, polls) == saved_decided(
                open,
                l,
            )
        }),
{
}

/// The first installed application of a reference and an id.
proof fn launch_place_is_right(installed: Seq<ApplicationModel>, reference: Seq<char>, app_id: Seq<char>)
    ensures
        match launch_place(installed, reference, app_id) {
            Some(i) => 0 <= i < installed.len() && installed[i].app_id == app_id,
            None => targets::app_ref(app_id) == reference ==> forall|k: int|
                0 <= k < installed.len() ==> (#[trigger] installed[k]).app_id != app_id,
        },
        launch_place(installed, reference, app_id) is Some ==> targets::app_ref(app_id)
            == reference,
    decreases installed.len(),
{
    if installed.len() > 0 {
        let short = installed.drop_last();
        launch_place_is_right(short, reference, app_id);
        match launch_place(short, reference, app_id) {
            Some(i) => {
                assert(short[i] == installed[i]);
            },
            None => {
                if launch_place(installed, reference, app_id) is None && targets::app_ref(app_id)
                    == reference {
                    assert forall|k: int| 0 <= k < installed.len() implies (
                    #[trigger] installed[k]).app_id != app_id by {
                        if k < short.len() {
                            assert(short[k] == installed[k]);
                        }
                    }
                }
            },
        }
    }
}

/// A saved target is started by the entry of its own application, and only where
/// the reference is that application's.
pub proof fn saved_target_is_started_by_its_entry(
    installed: Seq<ApplicationModel>,
    reference: Seq<char>,
    app_id: Seq<char>,
)
    ensures
        targets::app_ref(app_id) != reference ==> launch_entry(installed, reference, app_id) is Err,
        (forall|k: int| 0 <= k < installed.len() ==> (#[trigger] installed[k]).app_id != app_id)
            ==> launch_entry(installed, reference, app_id) is Err,
        launch_entry(installed, reference, app_id) matches Ok(path) ==> exists|k: int|
            0 <= k < installed.len() && (#[trigger] installed[k]).app_id == app_id
                && installed[k].launch_path == Some(path),
        targets::app_ref(app_id) == reference && installed.len() > 0 && (forall|k: int|
            0 <= k < installed.len() ==> (#[trigger] installed[k]).app_id == app_id
                && installed[k].launch_path is Some) ==> launch_entry(
            installed,
            reference,
            app_id,
        ) is Ok,
{
    launch_place_is_right(installed, reference, app_id);
}

/// A reported window counts where it is not hidden by the system and its handle,
/// process, title and application are known and fit; it is then what was reported.
pub proof fn reported_windows_count(row: WindowRow)
    ensures
        live_row(row) is Some <==> row.cloaked != Some(true) && row.hwnd is Some
            && row.process_id is Some && row.title is Some && row.app is Some && i32::MIN
            <= row.hwnd->Some_0 <= i32::MAX && row.process_id->Some_0 <= u32::MAX,
        live_row(row) matches Some(r) ==> r.0 == row.app->Some_0@ && r.1.hwnd == row.hwnd->Some_0
            && r.1.pid == row.process_id->Some_0 && r.1.app_id == r.0.app_id && r.1.title
            == row.title->Some_0@,
{
}

} // verus!
