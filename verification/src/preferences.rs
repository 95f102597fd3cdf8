//! What the person has set: language, folders, how conversations are listed,
//! and which browser is used.
use vstd::prelude::*;
use vstd::string::*;

use crate::model;
use crate::model::{copy_all, copy_opt, same_all, same_opt, Plain};
use crate::profile;
use crate::profile::{config_dir, Place};
use crate::text;
use crate::text::{eq_ignore_ascii_case, owned, same_text, trim};

verus! {

/// How many conversations of a group are shown where nothing was set.
pub const DEFAULT_SESSION_GROUP_COLLAPSED_LIMIT: u32 = 6;

/// Groups stand in the order of the bookmarks.
pub const SESSION_GROUP_ORDER_BOOKMARK: &'static str = "bookmark";

/// Groups stand by their latest conversation.
pub const SESSION_GROUP_ORDER_RECENT: &'static str = "recent";

/// Conversations stand by when they were last changed.
pub const SESSION_SORT_KEY_UPDATED: &'static str = "updated";

/// Conversations stand by when they were begun.
pub const SESSION_SORT_KEY_CREATED: &'static str = "created";

/// The browser that was picked, by which it is found again.
#[derive(Debug, Clone, PartialEq, Eq)]
pub struct BrowserIdentity {
    pub name: String,
    /// The program, by which its process is found.
    pub exe_path: String,
    pub user_data_dir: Option<String>,
}

/// The content of a [`BrowserIdentity`].
#[verifier::ext_equal]
pub struct IdentityModel {
    pub name: Seq<char>,
    pub exe_path: Seq<char>,
    pub user_data_dir: Option<Seq<char>>,
}

impl View for BrowserIdentity {
    type V = IdentityModel;

    open spec fn view(&self) -> IdentityModel {
        IdentityModel {
            name: self.name@,
            exe_path: self.exe_path@,
            user_data_dir: model::opt_view(self.user_data_dir),
        }
    }
}

impl Plain for BrowserIdentity {
    fn copied(&self) -> (r: Self) {
        BrowserIdentity {
            name: self.name.clone(),
            exe_path: self.exe_path.clone(),
            user_data_dir: copy_opt(&self.user_data_dir),
        }
    }

    fn same(&self, other: &Self) -> (r: bool) {
        same_text(self.name.as_str(), other.name.as_str())
            && same_text(self.exe_path.as_str(), other.exe_path.as_str())
            && same_opt(&self.user_data_dir, &other.user_data_dir)
    }
}

/// A folder that was marked.
#[derive(Debug, Clone, PartialEq, Eq)]
pub struct ProjectBookmark {
    pub name: String,
    pub path: String,
    /// Whether its conversations are hidden.
    pub archived: bool,
}

/// The content of a [`ProjectBookmark`].
#[verifier::ext_equal]
pub struct BookmarkModel {
    pub name: Seq<char>,
    pub path: Seq<char>,
    pub archived: bool,
}

impl View for ProjectBookmark {
    type V = BookmarkModel;

    open spec fn view(&self) -> BookmarkModel {
        BookmarkModel {
            name: self.name@,
            path: self.path@,
            archived: self.archived,
        }
    }
}

impl Plain for ProjectBookmark {
    fn copied(&self) -> (r: Self) {
        ProjectBookmark {
            name: self.name.clone(),
            path: self.path.clone(),
            archived: self.archived,
        }
    }

    fn same(&self, other: &Self) -> (r: bool) {
        same_text(self.name.as_str(), other.name.as_str())
            && same_text(self.path.as_str(), other.path.as_str())
            && self.archived == other.archived
    }
}

/// What the person has set.
#[derive(Debug, Clone, PartialEq, Eq)]
pub struct UserPreferences {
    pub language: String,
    pub project_dir: String,
    pub project_bookmarks: Vec<ProjectBookmark>,
    pub session_group_order: String,
    pub session_sort_key: String,
    pub session_group_collapsed_limit: u32,
    /// Nothing where none was ever set, empty where the own browser is used again.
    pub browser_cdp_url: Option<String>,
    pub browser_identity: Option<BrowserIdentity>,
}

/// The content of [`UserPreferences`].
#[verifier::ext_equal]
pub struct PreferencesModel {
    pub language: Seq<char>,
    pub project_dir: Seq<char>,
    pub project_bookmarks: Seq<BookmarkModel>,
    pub session_group_order: Seq<char>,
    pub session_sort_key: Seq<char>,
    pub session_group_collapsed_limit: u32,
    pub browser_cdp_url: Option<Seq<char>>,
    pub browser_identity: Option<IdentityModel>,
}

impl View for UserPreferences {
    type V = PreferencesModel;

    open spec fn view(&self) -> PreferencesModel {
        PreferencesModel {
            language: self.language@,
            project_dir: self.project_dir@,
            project_bookmarks: model::seq_view(self.project_bookmarks@),
            session_group_order: self.session_group_order@,
            session_sort_key: self.session_sort_key@,
            session_group_collapsed_limit: self.session_group_collapsed_limit,
            browser_cdp_url: model::opt_view(self.browser_cdp_url),
            browser_identity: model::opt_view(self.browser_identity),
        }
    }
}

impl Plain for UserPreferences {
    fn copied(&self) -> (r: Self) {
        UserPreferences {
            language: self.language.clone(),
            project_dir: self.project_dir.clone(),
            project_bookmarks: copy_all(&self.project_bookmarks),
            session_group_order: self.session_group_order.clone(),
            session_sort_key: self.session_sort_key.clone(),
            session_group_collapsed_limit: self.session_group_collapsed_limit,
            browser_cdp_url: copy_opt(&self.browser_cdp_url),
            browser_identity: copy_opt(&self.browser_identity),
        }
    }

    fn same(&self, other: &Self) -> (r: bool) {
        same_text(self.language.as_str(), other.language.as_str())
            && same_text(self.project_dir.as_str(), other.project_dir.as_str())
            && same_all(&self.project_bookmarks, &other.project_bookmarks)
            && same_text(self.session_group_order.as_str(), other.session_group_order.as_str())
            && same_text(self.session_sort_key.as_str(), other.session_sort_key.as_str())
            && self.session_group_collapsed_limit == other.session_group_collapsed_limit
            && same_opt(&self.browser_cdp_url, &other.browser_cdp_url)
            && same_opt(&self.browser_identity, &other.browser_identity)
    }
}

/// A bookmark as it is stored; older files do not say whether it is hidden.
#[derive(Debug, Clone, PartialEq, Eq)]
pub struct StoredBookmark {
    pub name: String,
    pub path: String,
    pub archived: Option<bool>,
}

/// The content of a [`StoredBookmark`].
#[verifier::ext_equal]
pub struct StoredBookmarkModel {
    pub name: Seq<char>,
    pub path: Seq<char>,
    pub archived: Option<bool>,
}

impl View for StoredBookmark {
    type V = StoredBookmarkModel;

    open spec fn view(&self) -> StoredBookmarkModel {
        StoredBookmarkModel {
            name: self.name@,
            path: self.path@,
            archived: self.archived,
        }
    }
}

impl Plain for StoredBookmark {
    fn copied(&self) -> (r: Self) {
        StoredBookmark {
            name: self.name.clone(),
            path: self.path.clone(),
            archived: self.archived,
        }
    }

    fn same(&self, other: &Self) -> (r: bool) {
        same_text(self.name.as_str(), other.name.as_str())
            && same_text(self.path.as_str(), other.path.as_str())
            && self.archived == other.archived
    }
}

/// What was stored; older files lack what came later.
#[derive(Debug, Clone, PartialEq, Eq)]
pub struct StoredPreferences {
    pub language: String,
    pub project_dir: Option<String>,
    pub project_bookmarks: Vec<StoredBookmark>,
    pub session_group_order: Option<String>,
    pub session_sort_key: Option<String>,
    pub session_group_collapsed_limit: Option<u32>,
    pub browser_cdp_url: Option<String>,
    pub browser_identity: Option<BrowserIdentity>,
}

/// The content of [`StoredPreferences`].
#[verifier::ext_equal]
pub struct StoredModel {
    pub language: Seq<char>,
    pub project_dir: Option<Seq<char>>,
    pub project_bookmarks: Seq<StoredBookmarkModel>,
    pub session_group_order: Option<Seq<char>>,
    pub session_sort_key: Option<Seq<char>>,
    pub session_group_collapsed_limit: Option<u32>,
    pub browser_cdp_url: Option<Seq<char>>,
    pub browser_identity: Option<IdentityModel>,
}

impl View for StoredPreferences {
    type V = StoredModel;

    open spec fn view(&self) -> StoredModel {
        StoredModel {
            language: self.language@,
            project_dir: model::opt_view(self.project_dir),
            project_bookmarks: model::seq_view(self.project_bookmarks@),
            session_group_order: model::opt_view(self.session_group_order),
            session_sort_key: model::opt_view(self.session_sort_key),
            session_group_collapsed_limit: self.session_group_collapsed_limit,
            browser_cdp_url: model::opt_view(self.browser_cdp_url),
            browser_identity: model::opt_view(self.browser_identity),
        }
    }
}

impl Plain for StoredPreferences {
    fn copied(&self) -> (r: Self) {
        StoredPreferences {
            language: self.language.clone(),
            project_dir: copy_opt(&self.project_dir),
            project_bookmarks: copy_all(&self.project_bookmarks),
            session_group_order: copy_opt(&self.session_group_order),
            session_sort_key: copy_opt(&self.session_sort_key),
            session_group_collapsed_limit: self.session_group_collapsed_limit,
            browser_cdp_url: copy_opt(&self.browser_cdp_url),
            browser_identity: copy_opt(&self.browser_identity),
        }
    }

    fn same(&self, other: &Self) -> (r: bool) {
        same_text(self.language.as_str(), other.language.as_str())
            && same_opt(&self.project_dir, &other.project_dir)
            && same_all(&self.project_bookmarks, &other.project_bookmarks)
            && same_opt(&self.session_group_order, &other.session_group_order)
            && same_opt(&self.session_sort_key, &other.session_sort_key)
            && self.session_group_collapsed_limit == other.session_group_collapsed_limit
            && same_opt(&self.browser_cdp_url, &other.browser_cdp_url)
            && same_opt(&self.browser_identity, &other.browser_identity)
    }
}

/// The order of groups that a word stands for.
pub open spec fn group_order(raw: Seq<char>) -> Seq<char> {
    if text::same_ascii(text::trimmed(raw), SESSION_GROUP_ORDER_RECENT@) {
        SESSION_GROUP_ORDER_RECENT@
    } else {
        SESSION_GROUP_ORDER_BOOKMARK@
    }
}

/// The order of groups that a word stands for: by their latest conversation
/// where it says so, else that of the bookmarks.
pub fn normalize_session_group_order(raw: &str) -> (r: &'static str)
    ensures
        r@ == group_order(raw@),
{
    let word = trim(raw);
    if eq_ignore_ascii_case(word.as_str(), SESSION_GROUP_ORDER_RECENT) {
        SESSION_GROUP_ORDER_RECENT
    } else {
        SESSION_GROUP_ORDER_BOOKMARK
    }
}

/// The order of conversations that a word stands for.
pub open spec fn sort_key(raw: Seq<char>) -> Seq<char> {
    if text::same_ascii(text::trimmed(raw), SESSION_SORT_KEY_CREATED@) {
        SESSION_SORT_KEY_CREATED@
    } else {
        SESSION_SORT_KEY_UPDATED@
    }
}

/// The order of conversations that a word stands for: by when they were begun
/// where it says so, else by when they were last changed.
pub fn normalize_session_sort_key(raw: &str) -> (r: &'static str)
    ensures
        r@ == sort_key(raw@),
{
    let word = trim(raw);
    if eq_ignore_ascii_case(word.as_str(), SESSION_SORT_KEY_CREATED) {
        SESSION_SORT_KEY_CREATED
    } else {
        SESSION_SORT_KEY_UPDATED
    }
}

/// What holds where nothing was set.
pub open spec fn defaults() -> PreferencesModel {
    PreferencesModel {
        language: "zh-CN"@,
        project_dir: Seq::empty(),
        project_bookmarks: Seq::empty(),
        session_group_order: SESSION_GROUP_ORDER_BOOKMARK@,
        session_sort_key: SESSION_SORT_KEY_UPDATED@,
        session_group_collapsed_limit: DEFAULT_SESSION_GROUP_COLLAPSED_LIMIT,
        browser_cdp_url: None,
        browser_identity: None,
    }
}

impl Default for UserPreferences {
    fn default() -> (r: Self)
        ensures
            r@ == defaults(),
    {
        let r = UserPreferences {
            language: owned("zh-CN"),
            project_dir: String::new(),
            project_bookmarks: Vec::new(),
            session_group_order: owned(SESSION_GROUP_ORDER_BOOKMARK),
            session_sort_key: owned(SESSION_SORT_KEY_UPDATED),
            session_group_collapsed_limit: DEFAULT_SESSION_GROUP_COLLAPSED_LIMIT,
            browser_cdp_url: None,
            browser_identity: None,
        };
        assert(model::seq_view(r.project_bookmarks@) =~= Seq::<BookmarkModel>::empty());
        r
    }
}

/// A value, or what stands in its place.
pub open spec fn or_else(o: Option<Seq<char>>, other: Seq<char>) -> Seq<char> {
    match o {
        Some(s) => s,
        None => other,
    }
}

/// A bookmark of an older file is not hidden.
pub open spec fn completed_bookmark(b: StoredBookmarkModel) -> BookmarkModel {
    BookmarkModel {
        name: b.name,
        path: b.path,
        archived: match b.archived {
            Some(a) => a,
            None => false,
        },
    }
}

/// What was stored, with what holds where nothing was set in place of what
/// lacks.
pub open spec fn completed(s: StoredModel) -> PreferencesModel {
    PreferencesModel {
        language: s.language,
        project_dir: or_else(s.project_dir, defaults().project_dir),
        project_bookmarks: Seq::new(
            s.project_bookmarks.len(),
            |i: int| completed_bookmark(s.project_bookmarks[i]),
        ),
        session_group_order: or_else(s.session_group_order, defaults().session_group_order),
        session_sort_key: or_else(s.session_sort_key, defaults().session_sort_key),
        session_group_collapsed_limit: match s.session_group_collapsed_limit {
            Some(n) => n,
            None => DEFAULT_SESSION_GROUP_COLLAPSED_LIMIT,
        },
        browser_cdp_url: s.browser_cdp_url,
        browser_identity: s.browser_identity,
    }
}

/// What was stored, as it is stored again.
pub open spec fn stored(p: PreferencesModel) -> StoredModel {
    StoredModel {
        language: p.language,
        project_dir: Some(p.project_dir),
        project_bookmarks: Seq::new(
            p.project_bookmarks.len(),
            |i: int|
                StoredBookmarkModel {
                    name: p.project_bookmarks[i].name,
                    path: p.project_bookmarks[i].path,
                    archived: Some(p.project_bookmarks[i].archived),
                },
        ),
        session_group_order: Some(p.session_group_order),
        session_sort_key: Some(p.session_sort_key),
        session_group_collapsed_limit: Some(p.session_group_collapsed_limit),
        browser_cdp_url: p.browser_cdp_url,
        browser_identity: p.browser_identity,
    }
}

/// A text, or what stands in its place.
fn text_or(o: Option<String>, other: &str) -> (r: String)
    ensures
        r@ == or_else(model::opt_view(o), other@),
{
    match o {
        Some(s) => s,
        None => owned(other),
    }
}

/// The bookmarks that were stored.
fn complete_bookmarks(list: &Vec<StoredBookmark>) -> (r: Vec<ProjectBookmark>)
    ensures
        model::seq_view(r@) == Seq::new(
            list@.len(),
            |i: int| completed_bookmark(model::seq_view(list@)[i]),
        ),
{
    let mut out: Vec<ProjectBookmark> = Vec::new();
    let mut i: usize = 0;
    while i < list.len()
        invariant
            i <= list@.len(),
            out@.len() == i,
            forall|k: int| 0 <= k < i ==> (#[trigger] out@[k])@ == completed_bookmark(list@[k]@),
        decreases list@.len() - i,
    {
        out.push(
            ProjectBookmark {
                name: list[i].name.clone(),
                path: list[i].path.clone(),
                archived: match list[i].archived {
                    Some(a) => a,
                    None => false,
                },
            },
        );
        i = i + 1;
    }
    assert(model::seq_view(out@) =~= Seq::new(
        list@.len(),
        |i: int| completed_bookmark(model::seq_view(list@)[i]),
    ));
    out
}

/// The bookmarks as they are stored.
fn stored_bookmarks(list: &Vec<ProjectBookmark>) -> (r: Vec<StoredBookmark>)
    ensures
        model::seq_view(r@) == Seq::new(
            list@.len(),
            |i: int|
                StoredBookmarkModel {
                    name: model::seq_view(list@)[i].name,
                    path: model::seq_view(list@)[i].path,
                    archived: Some(model::seq_view(list@)[i].archived),
                },
        ),
{
    let mut out: Vec<StoredBookmark> = Vec::new();
    let mut i: usize = 0;
    while i < list.len()
        invariant
            i <= list@.len(),
            out@.len() == i,
            forall|k: int|
                0 <= k < i ==> (#[trigger] out@[k])@ == (StoredBookmarkModel {
                    name: list@[k]@.name,
                    path: list@[k]@.path,
                    archived: Some(list@[k]@.archived),
                }),
        decreases list@.len() - i,
    {
        out.push(
            StoredBookmark {
                name: list[i].name.clone(),
                path: list[i].path.clone(),
                archived: Some(list[i].archived),
            },
        );
        i = i + 1;
    }
    assert(model::seq_view(out@) =~= Seq::new(
        list@.len(),
        |i: int|
            StoredBookmarkModel {
                name: model::seq_view(list@)[i].name,
                path: model::seq_view(list@)[i].path,
                archived: Some(model::seq_view(list@)[i].archived),
            },
    ));
    out
}

impl UserPreferences {
    /// How many conversations of a group are shown: nought counts as not set,
    /// or no group would show any.
    pub fn session_group_limit(&self) -> (r: u32)
        ensures
            r == if self@.session_group_collapsed_limit == 0 {
                DEFAULT_SESSION_GROUP_COLLAPSED_LIMIT
            } else {
                self@.session_group_collapsed_limit
            },
            r > 0,
    {
        if self.session_group_collapsed_limit == 0 {
            DEFAULT_SESSION_GROUP_COLLAPSED_LIMIT
        } else {
            self.session_group_collapsed_limit
        }
    }

    /// The order of groups.
    pub fn session_group_order(&self) -> (r: &'static str)
        ensures
            r@ == group_order(self@.session_group_order),
    {
        normalize_session_group_order(self.session_group_order.as_str())
    }

    /// The order of conversations.
    pub fn session_sort_key(&self) -> (r: &'static str)
        ensures
            r@ == sort_key(self@.session_sort_key),
    {
        normalize_session_sort_key(self.session_sort_key.as_str())
    }

    /// What was stored, completed.
    pub fn from_stored(s: StoredPreferences) -> (r: Self)
        ensures
            r@ == completed(s@),
    {
        let r = UserPreferences {
            language: s.language,
            project_dir: match s.project_dir {
                Some(d) => d,
                None => String::new(),
            },
            project_bookmarks: complete_bookmarks(&s.project_bookmarks),
            session_group_order: text_or(s.session_group_order, SESSION_GROUP_ORDER_BOOKMARK),
            session_sort_key: text_or(s.session_sort_key, SESSION_SORT_KEY_UPDATED),
            session_group_collapsed_limit: match s.session_group_collapsed_limit {
                Some(n) => n,
                None => DEFAULT_SESSION_GROUP_COLLAPSED_LIMIT,
            },
            browser_cdp_url: s.browser_cdp_url,
            browser_identity: s.browser_identity,
        };
        assert(model::seq_view(r.project_bookmarks@) =~= completed(s@).project_bookmarks);
        r
    }

    /// What is stored.
    pub fn to_stored(&self) -> (r: StoredPreferences)
        ensures
            r@ == stored(self@),
    {
        let r = StoredPreferences {
            language: self.language.clone(),
            project_dir: Some(self.project_dir.clone()),
            project_bookmarks: stored_bookmarks(&self.project_bookmarks),
            session_group_order: Some(self.session_group_order.clone()),
            session_sort_key: Some(self.session_sort_key.clone()),
            session_group_collapsed_limit: Some(self.session_group_collapsed_limit),
            browser_cdp_url: copy_opt(&self.browser_cdp_url),
            browser_identity: copy_opt(&self.browser_identity),
        };
        assert(model::seq_view(r.project_bookmarks@) =~= stored(self@).project_bookmarks);
        r
    }

    /// What holds when the program starts, and whether it is to be written:
    /// what was stored where it can be read, else what holds where nothing was
    /// set; only where there is no file yet one is written.
    pub fn load(exists: bool, read: Option<StoredPreferences>) -> (r: (Self, bool))
        ensures
            r.0@ == match model::opt_view(read) {
                Some(s) => if exists {
                    completed(s)
                } else {
                    defaults()
                },
                None => defaults(),
            },
            r.1 == !exists,
    {
        if !exists {
            return (UserPreferences::default(), true);
        }
        match read {
            Some(s) => (UserPreferences::from_stored(s), false),
            None => (UserPreferences::default(), false),
        }
    }

    /// What is said where the preferences could not be saved: the folder, the
    /// text or the file, in this order.
    pub fn save(
        folder: Result<(), String>,
        text: Result<(), String>,
        file: Result<(), String>,
    ) -> (r: Result<(), String>)
        ensures
            model::result_view(r) == saved(
                model::result_view(folder),
                model::result_view(text),
                model::result_view(file),
            ),
    {
        if let Err(e) = folder {
            let mut out = owned("create prefs dir failed: ");
            out.append(e.as_str());
            return Err(out);
        }
        if let Err(e) = text {
            let mut out = owned("serialize prefs failed: ");
            out.append(e.as_str());
            return Err(out);
        }
        if let Err(e) = file {
            let mut out = owned("write prefs failed: ");
            out.append(e.as_str());
            return Err(out);
        }
        Ok(())
    }

    /// Where the preferences are stored.
    pub fn path(
        workbench: bool,
        system: Option<String>,
        home: Option<String>,
        user_profile: Option<String>,
    ) -> (r: Place)
        ensures
            r@ == if workbench {
                profile::below(
                    profile::config_place(true, model::opt_view(system)),
                    "preferences.json"@,
                )
            } else {
                profile::below(
                    profile::whole(
                        profile::first_path(
                            seq![model::opt_view(home), model::opt_view(user_profile)],
                        ),
                    ),
                    ".nuphus/preferences.json"@,
                )
            },
    {
        if workbench {
            return config_dir(true, system).join("preferences.json");
        }
        proof {
            reveal_with_fuel(profile::first_path, 3);
            let all = seq![model::opt_view(home), model::opt_view(user_profile)];
            assert(all.drop_first() =~= seq![model::opt_view(user_profile)]);
        }
        let base = match home {
            Some(p) => p,
            None => match user_profile {
                Some(p) => p,
                None => owned("."),
            },
        };
        Place::whole(base).join(".nuphus/preferences.json")
    }
}

/// What is said where the preferences could not be saved.
pub open spec fn saved(
    folder: Result<(), Seq<char>>,
    text: Result<(), Seq<char>>,
    file: Result<(), Seq<char>>,
) -> Result<(), Seq<char>> {
    match (folder, text, file) {
        (Err(e), _, _) => Err("create prefs dir failed: "@ + e),
        (_, Err(e), _) => Err("serialize prefs failed: "@ + e),
        (_, _, Err(e)) => Err("write prefs failed: "@ + e),
        _ => Ok(()),
    }
}

/// What is stored is read back as it was.
pub proof fn stored_preferences_are_read_back(p: PreferencesModel)
    ensures
        completed(stored(p)) == p,
{
    assert(completed(stored(p)).project_bookmarks =~= p.project_bookmarks);
}

/// A word for an order stands for one of the two there are, and each stands for
/// itself.
pub proof fn orders_are_known(raw: Seq<char>)
    ensures
        group_order(raw) == SESSION_GROUP_ORDER_RECENT@ || group_order(raw)
            == SESSION_GROUP_ORDER_BOOKMARK@,
        sort_key(raw) == SESSION_SORT_KEY_CREATED@ || sort_key(raw) == SESSION_SORT_KEY_UPDATED@,
        group_order(group_order(raw)) == group_order(raw),
        sort_key(sort_key(raw)) == sort_key(raw),
{
    reveal_strlit("recent");
    reveal_strlit("bookmark");
    reveal_strlit("created");
    reveal_strlit("updated");
    reveal_with_fuel(text::trimmed_start, 2);
    reveal_with_fuel(text::trimmed_end, 2);
}

/// What groups and sessions are ordered by: only the other word, in whatever
/// letters and with blanks around it, chooses the other order.
pub proof fn other_orders_are_asked_for(raw: Seq<char>)
    ensures
        text::same_ascii(text::trimmed(raw), "recent"@) ==> group_order(raw) == "recent"@,
        !text::same_ascii(text::trimmed(raw), "recent"@) ==> group_order(raw) == "bookmark"@,
        text::same_ascii(text::trimmed(raw), "created"@) ==> sort_key(raw) == "created"@,
        !text::same_ascii(text::trimmed(raw), "created"@) ==> sort_key(raw) == "updated"@,
{
}

/// Preferences that were never set.
pub proof fn unset_preferences_are_plain()
    ensures
        defaults().language == "zh-CN"@,
        defaults().project_dir.len() == 0,
        defaults().project_bookmarks.len() == 0,
        defaults().session_group_order == "bookmark"@,
        defaults().session_sort_key == "updated"@,
        defaults().session_group_collapsed_limit == 6,
        defaults().browser_cdp_url is None,
        defaults().browser_identity is None,
{
}

/// What a file leaves out is filled in, and what it holds is taken as it is.
pub proof fn missing_preferences_are_filled_in(s: StoredModel, i: int)
    ensures
        completed(s).language == s.language,
        s.project_dir matches Some(d) ==> completed(s).project_dir == d,
        s.project_dir is None ==> completed(s).project_dir.len() == 0,
        s.session_group_order matches Some(o) ==> completed(s).session_group_order == o,
        s.session_group_order is None ==> completed(s).session_group_order == "bookmark"@,
        s.session_sort_key matches Some(k) ==> completed(s).session_sort_key == k,
        s.session_sort_key is None ==> completed(s).session_sort_key == "updated"@,
        s.session_group_collapsed_limit matches Some(n) ==> completed(
            s,
        ).session_group_collapsed_limit == n,
        s.session_group_collapsed_limit is None ==> completed(s).session_group_collapsed_limit == 6,
        completed(s).browser_cdp_url == s.browser_cdp_url,
        completed(s).browser_identity == s.browser_identity,
        completed(s).project_bookmarks.len() == s.project_bookmarks.len(),
        0 <= i < s.project_bookmarks.len() ==> completed(s).project_bookmarks[i].name
            == s.project_bookmarks[i].name && completed(s).project_bookmarks[i].path
            == s.project_bookmarks[i].path && (completed(s).project_bookmarks[i].archived
            <==> s.project_bookmarks[i].archived == Some(true)),
{
}

/// Preferences are saved where the folder, the text and the file could be made;
/// else the first fault is told.
pub proof fn first_fault_of_saving_is_told(
    folder: Result<(), Seq<char>>,
    text: Result<(), Seq<char>>,
    file: Result<(), Seq<char>>,
)
    ensures
        saved(folder, text, file) is Ok <==> folder is Ok && text is Ok && file is Ok,
        folder matches Err(e) ==> saved(folder, text, file) == Err::<(), Seq<char>>(
            "create prefs dir failed: "@ + e,
        ),
        folder is Ok && text is Err ==> saved(folder, text, file) == Err::<(), Seq<char>>(
            "serialize prefs failed: "@ + text->Err_0,
        ),
        folder is Ok && text is Ok && file is Err ==> saved(folder, text, file) == Err::<
            (),
            Seq<char>,
        >("write prefs failed: "@ + file->Err_0),
{
}

} // verus!
