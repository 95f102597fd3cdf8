//! Results of reading tools, kept until they are too old or what they were
//! read from has changed.
use std::collections::HashMap;

use vstd::prelude::*;
use vstd::string::*;

use crate::hashing;
use crate::hashing::digest_of_pair;
use crate::jev;
use crate::json;
use crate::json::read_text_member;
use crate::model;
use crate::model::{copy_opt, same_opt, Plain};
use crate::profile;
use crate::profile::{Place, PlaceModel};
use crate::text;
use crate::text::{chars_of, ends_with, lowercase, owned, replace_all, same_text, span, starts_with};
use crate::tool::{ResultModel, ToolResult};
use crate::uia_tree;

verus! {

broadcast use vstd::std_specs::hash::group_hash_axioms;

/// How many results are kept.
pub const MAX_ENTRIES: usize = 500;

/// For how many seconds what was read from a file counts, though the file did
/// not change.
pub const FILE_CACHE_TTL_SECS: u64 = 300;

/// For how many seconds what was read from the network counts.
pub const WEB_CACHE_TTL_SECS: u64 = 60;

/// The project that calls are made in: its folder, and what the system writes
/// between the parts of a path.
pub struct Project {
    pub root: String,
    pub separator: char,
}

/// The content of a [`Project`].
#[verifier::ext_equal]
pub struct ProjectModel {
    pub root: Seq<char>,
    pub separator: char,
}

impl View for Project {
    type V = ProjectModel;

    open spec fn view(&self) -> ProjectModel {
        ProjectModel { root: self.root@, separator: self.separator }
    }
}

impl ProjectModel {
    /// The path of a file of the project: its folder and the path in it, with a
    /// separator between them where the folder does not end with one.
    pub open spec fn path_of(self, path: Seq<char>) -> Seq<char> {
        if self.root.len() == 0 || self.root.last() == self.separator || self.root.last() == '/' {
            self.root + path
        } else {
            self.root.push(self.separator) + path
        }
    }
}

/// The file that a path means: one in the project where calls are made in one
/// and the path is relative, else the path as it is.
pub open spec fn meant_path(
    project: Option<ProjectModel>,
    relative: bool,
    path: Seq<char>,
) -> Seq<char> {
    match project {
        Some(p) => if relative {
            p.path_of(path)
        } else {
            path
        },
        None => path,
    }
}

/// The file that a path means.
pub fn cache_file_path(project: Option<&Project>, relative: bool, path: &str) -> (r: String)
    ensures
        r@ == meant_path(model::opt_ref_view(project), relative, path@),
{
    match project {
        Some(p) if relative => {
            let x = chars_of(p.root.as_str());
            let n: usize = x.len();
            let mut out = p.root.clone();
            if n > 0 && x[n - 1] != p.separator && x[n - 1] != '/' {
                out.push(p.separator);
            }
            out.append(path);
            out
        },
        _ => owned(path),
    }
}

/// The key of a call: by its tool and parameters, within the project where it
/// is made in one.
pub open spec fn key_of(
    project: Option<ProjectModel>,
    tool: Seq<char>,
    params: Seq<char>,
) -> u64 {
    match project {
        Some(p) => hashing::digest_pair(uia_tree::framed(p.root) + tool, params),
        None => hashing::digest_pair(tool, params),
    }
}

/// Where the cache is kept: with the data of the workbench edition, else in the
/// current folder.
pub fn default_store_path(bench: Option<Place>, current: Option<String>) -> (r: Place)
    ensures
        r@ == match (model::opt_view(bench), model::opt_view(current)) {
            (Some(data), _) => profile::below(
                profile::below(data, "cache"@),
                "tool_cache.json"@,
            ),
            (None, Some(p)) => project_cache(p),
            (None, None) => project_cache("."@),
        },
{
    match bench {
        Some(data) => data.join("cache").join("tool_cache.json"),
        None => {
            let base = match current {
                Some(p) => p,
                None => owned("."),
            };
            Place::whole(base).join(".nuphus").join("cache").join("tool_cache.json")
        },
    }
}

/// The cache of a project.
pub open spec fn project_cache(base: Seq<char>) -> PlaceModel {
    profile::below(
        profile::below(profile::below(profile::whole(base), ".nuphus"@), "cache"@),
        "tool_cache.json"@,
    )
}

/// The file that the parameters of a call name.
pub open spec fn named_file(
    project: Option<ProjectModel>,
    relative: bool,
    params: Seq<char>,
) -> Option<Seq<char>> {
    match json::text_member(params, "path"@) {
        Some(path) => Some(meant_path(project, relative, path)),
        None => None,
    }
}

/// The path among the parameters of a call, as it is written there.
pub fn written_path(params_json: &str) -> (r: Option<String>)
    ensures
        model::opt_view(r) == json::text_member(params_json@, "path"@),
{
    read_text_member(params_json, "path")
}

/// The file that the parameters of a call name; `relative` says whether the
/// path there is a relative one.
pub fn extract_path(project: Option<&Project>, relative: bool, params_json: &str) -> (r: Option<
    String,
>)
    ensures
        model::opt_view(r) == named_file(model::opt_ref_view(project), relative, params_json@),
{
    match written_path(params_json) {
        Some(path) => Some(cache_file_path(project, relative, path.as_str())),
        None => None,
    }
}

/// The key of a call.
pub fn cache_key(project: Option<&Project>, tool: &str, params_json: &str) -> (r: u64)
    ensures
        r == key_of(model::opt_ref_view(project), tool@, params_json@),
{
    match project {
        Some(p) => {
            let mut scoped = uia_tree::framed_text(p.root.as_str());
            scoped.append(tool);
            digest_of_pair(scoped.as_str(), params_json)
        },
        None => digest_of_pair(tool, params_json),
    }
}

/// Whether a tool reads or changes files.
pub open spec fn file_tool(tool: Seq<char>) -> bool {
    ||| tool == "Read"@
    ||| tool == "Write"@
    ||| tool == "Edit"@
    ||| tool == "Delete"@
    ||| tool == "Copy"@
    ||| tool == "Rename"@
    ||| tool == "Append"@
    ||| tool == "Diff"@
    ||| text::begins(tool, "file_"@)
    ||| text::begins(tool, "search_"@)
}

/// Whether a tool reads or changes files.
pub fn is_file_tool(tool: &str) -> (r: bool)
    ensures
        r == file_tool(tool@),
{
    same_text(tool, "Read") || same_text(tool, "Write") || same_text(tool, "Edit") || same_text(
        tool,
        "Delete",
    ) || same_text(tool, "Copy") || same_text(tool, "Rename") || same_text(tool, "Append")
        || same_text(tool, "Diff") || starts_with(tool, "file_") || starts_with(tool, "search_")
}

/// Whether a tool reads from the network.
pub open spec fn web_tool(tool: Seq<char>) -> bool {
    text::begins(tool, "web_"@)
}

/// Whether a tool reads from the network.
pub fn is_web_tool(tool: &str) -> (r: bool)
    ensures
        r == web_tool(tool@),
{
    starts_with(tool, "web_")
}

/// A path as it is compared: with slashes, without those at its end, and in
/// lower case.
pub open spec fn normalized(path: Seq<char>) -> Seq<char> {
    text::lowercased(jev::without_end(text::replaced(path, seq!['\\'], seq!['/']), '/'))
}

/// A path as it is compared.
pub fn normalize_path(path: &str) -> (r: String)
    ensures
        r@ == normalized(path@),
{
    proof {
        reveal_strlit("\\");
        reveal_strlit("/");
        assert("\\"@ =~= seq!['\\']);
        assert("/"@ =~= seq!['/']);
    }
    let whole = replace_all(path, "\\", "/");
    let x = chars_of(whole.as_str());
    let mut n: usize = x.len();
    assert(whole@.take(whole@.len() as int) == whole@);
    while n > 0 && x[n - 1] == '/'
        invariant
            n <= x@.len(),
            x@ == whole@,
            jev::without_end(whole@, '/') == jev::without_end(whole@.take(n as int), '/'),
        decreases n,
    {
        assert(whole@.take(n as int).drop_last() == whole@.take(n - 1));
        n = n - 1;
    }
    let kept = span(&x, 0, n);
    assert(kept@ == whole@.take(n as int));
    lowercase(kept.as_str())
}

/// Whether a path is another or lies below it.
pub open spec fn matched(cached: Seq<char>, changed: Seq<char>) -> bool {
    let c = normalized(cached);
    let i = normalized(changed);
    ||| c == i
    ||| if text::finishes(i, "/"@) || text::finishes(i, "\\"@) {
        text::begins(c, i)
    } else {
        text::begins(c, i + "/"@)
    }
}

/// Whether a path is another or lies below it.
pub fn path_matches(cached: &str, invalidate: &str) -> (r: bool)
    ensures
        r == matched(cached@, invalidate@),
{
    let c = normalize_path(cached);
    let i = normalize_path(invalidate);
    if same_text(c.as_str(), i.as_str()) {
        return true;
    }
    if ends_with(i.as_str(), "/") || ends_with(i.as_str(), "\\") {
        starts_with(c.as_str(), i.as_str())
    } else {
        let mut below = i;
        below.append("/");
        starts_with(c.as_str(), below.as_str())
    }
}

/// A result that is kept.
#[derive(Debug, Clone, PartialEq, Eq)]
pub struct Entry {
    pub result: ToolResult,
    pub tool: String,
    pub params: String,
    /// The file that it was read from.
    pub file_path: Option<String>,
    pub file_mtime: Option<u64>,
    pub file_size: Option<u64>,
    /// When it was read, in seconds since 1970.
    pub created_at: u64,
    /// For how long it counts; for ever where nothing is said.
    pub ttl_secs: Option<u64>,
}

/// The content of an [`Entry`].
#[verifier::ext_equal]
pub struct EntryModel {
    pub result: ResultModel,
    pub tool: Seq<char>,
    pub params: Seq<char>,
    pub file_path: Option<Seq<char>>,
    pub file_mtime: Option<u64>,
    pub file_size: Option<u64>,
    pub created_at: u64,
    pub ttl_secs: Option<u64>,
}

impl View for Entry {
    type V = EntryModel;

    open spec fn view(&self) -> EntryModel {
        EntryModel {
            result: self.result@,
            tool: self.tool@,
            params: self.params@,
            file_path: model::opt_view(self.file_path),
            file_mtime: self.file_mtime,
            file_size: self.file_size,
            created_at: self.created_at,
            ttl_secs: self.ttl_secs,
        }
    }
}

impl Plain for Entry {
    fn copied(&self) -> (r: Self) {
        Entry {
            result: self.result.copied(),
            tool: self.tool.clone(),
            params: self.params.clone(),
            file_path: copy_opt(&self.file_path),
            file_mtime: self.file_mtime,
            file_size: self.file_size,
            created_at: self.created_at,
            ttl_secs: self.ttl_secs,
        }
    }

    fn same(&self, other: &Self) -> (r: bool) {
        self.result.same(&other.result)
            && same_text(self.tool.as_str(), other.tool.as_str())
            && same_text(self.params.as_str(), other.params.as_str())
            && same_opt(&self.file_path, &other.file_path)
            && self.file_mtime == other.file_mtime
            && self.file_size == other.file_size
            && self.created_at == other.created_at
            && self.ttl_secs == other.ttl_secs
    }
}

/// The results that are kept: by their keys, and the keys from the latest to
/// the oldest use.
pub struct ToolCache {
    pub entries: HashMap<u64, Entry>,
    pub order: Vec<u64>,
    pub max: usize,
}

/// The contents of the results in a map.
pub open spec fn contents(m: Map<u64, Entry>) -> Map<u64, EntryModel> {
    Map::new(|k: u64| m.contains_key(k), |k: u64| m[k]@)
}

/// The content of a [`ToolCache`].
#[verifier::ext_equal]
pub struct CacheModel {
    pub entries: Map<u64, EntryModel>,
    pub order: Seq<u64>,
    pub max: int,
}

impl View for ToolCache {
    type V = CacheModel;

    open spec fn view(&self) -> CacheModel {
        CacheModel {
            entries: contents(self.entries@),
            order: self.order@,
            max: self.max as int,
        }
    }
}

/// Keys without some.
pub open spec fn dropped(order: Seq<u64>, gone: Set<u64>) -> Seq<u64>
    decreases order.len(),
{
    if order.len() == 0 {
        Seq::empty()
    } else if gone.contains(order.last()) {
        dropped(order.drop_last(), gone)
    } else {
        dropped(order.drop_last(), gone).push(order.last())
    }
}

/// Keys with one moved to the front.
pub open spec fn fronted(order: Seq<u64>, key: u64) -> Seq<u64> {
    if order.contains(key) {
        seq![key] + order.remove(order.index_of_first(key)->Some_0)
    } else {
        order
    }
}

/// Whether a result is too old.
pub open spec fn too_old(e: EntryModel, now: u64) -> bool {
    e.ttl_secs matches Some(ttl) && now > e.created_at + ttl
}

/// Whether a result still counts: it is not too old, and the file that it was
/// read from is there and unchanged.
pub open spec fn counts(e: EntryModel, now: u64, stat: Option<(u64, u64)>) -> bool {
    &&& !too_old(e, now)
    &&& e.file_path is Some ==> stat is Some && e.file_mtime == Some(stat->Some_0.0)
        && e.file_size == Some(stat->Some_0.1)
}

impl CacheModel {
    /// What holds of a cache: each result has its key in the order of use, once.
    pub open spec fn wf(self) -> bool {
        &&& self.entries.dom().finite()
        &&& self.order.no_duplicates()
        &&& forall|k: u64| #[trigger] self.order.contains(k) <==> self.entries.contains_key(k)
    }

    /// The cache without some keys.
    pub open spec fn without(self, gone: Set<u64>) -> CacheModel {
        CacheModel {
            entries: self.entries.remove_keys(gone),
            order: dropped(self.order, gone),
            ..self
        }
    }

    /// The cache without a key.
    pub open spec fn removed(self, key: u64) -> CacheModel {
        self.without(set![key])
    }

    /// The cache after a result was asked for, and the result where it counts.
    pub open spec fn asked(self, key: u64, now: u64, stat: Option<(u64, u64)>) -> (
        CacheModel,
        Option<ResultModel>,
    ) {
        if !self.entries.contains_key(key) {
            (self, None)
        } else if counts(self.entries[key], now, stat) {
            (
                CacheModel { order: fronted(self.order, key), ..self },
                Some(self.entries[key].result),
            )
        } else {
            (self.removed(key), None)
        }
    }

    /// The cache after room was made for a key: where there is none, the result
    /// that was not used for longest gives way.
    pub open spec fn with_room(self, key: u64) -> CacheModel {
        if !self.entries.contains_key(key) && self.entries.len() >= self.max && self.order.len()
            > 0 {
            CacheModel {
                entries: self.entries.remove(self.order.last()),
                order: self.order.drop_last(),
                ..self
            }
        } else {
            self
        }
    }

    /// The cache with a result. A new one counts as used last; one that takes
    /// the place of an older keeps that one's place.
    pub open spec fn stored(self, key: u64, e: EntryModel) -> CacheModel {
        let c = self.with_room(key);
        CacheModel {
            entries: c.entries.insert(key, e),
            order: if c.entries.contains_key(key) {
                c.order
            } else {
                seq![key] + c.order
            },
            ..c
        }
    }
}

/// What is kept of a result.
pub open spec fn entry_of(
    tool: Seq<char>,
    params: Seq<char>,
    path: Option<Seq<char>>,
    stat: Option<(u64, u64)>,
    now: u64,
    result: ResultModel,
) -> EntryModel {
    let file_path = if file_tool(tool) {
        path
    } else {
        None
    };
    EntryModel {
        result,
        tool,
        params,
        file_path,
        file_mtime: if file_path is Some && stat is Some {
            Some(stat->Some_0.0)
        } else {
            None
        },
        file_size: if file_path is Some && stat is Some {
            Some(stat->Some_0.1)
        } else {
            None
        },
        created_at: now,
        ttl_secs: if web_tool(tool) {
            Some(WEB_CACHE_TTL_SECS)
        } else if file_path is Some {
            Some(FILE_CACHE_TTL_SECS)
        } else {
            None
        },
    }
}

/// Whether a result was read from a path or below it.
pub open spec fn read_from(e: EntryModel, path: Seq<char>) -> bool {
    e.file_path matches Some(p) && (normalized(p) == normalized(path) || matched(
        p,
        normalized(path),
    ))
}

/// The keys of what was read from a path or below it.
pub open spec fn keys_read_from(c: CacheModel, path: Seq<char>) -> Set<u64> {
    Set::new(|k: u64| c.entries.contains_key(k) && read_from(c.entries[k], path))
}

/// The keys of what a tool gave.
pub open spec fn keys_given_by(c: CacheModel, tool: Seq<char>) -> Set<u64> {
    Set::new(|k: u64| c.entries.contains_key(k) && c.entries[k].tool == tool)
}

/// Whether a list holds the results of a cache, each once, in whatever order.
pub open spec fn lists(saved: Seq<(u64, EntryModel)>, entries: Map<u64, EntryModel>) -> bool {
    &&& forall|i: int|
        0 <= i < saved.len() ==> entries.contains_key((#[trigger] saved[i]).0)
            && entries[saved[i].0] == saved[i].1
    &&& forall|i: int, j: int|
        0 <= i < j < saved.len() ==> (#[trigger] saved[i]).0 != (#[trigger] saved[j]).0
    &&& forall|k: u64| #[trigger]
        entries.contains_key(k) ==> exists|i: int|
            0 <= i < saved.len() && (#[trigger] saved[i]).0 == k
}

/// The cache after results were loaded: those that are not too old, as long as
/// there is room.
pub open spec fn loaded(c: CacheModel, saved: Seq<(u64, EntryModel)>, now: u64) -> CacheModel
    decreases saved.len(),
{
    if saved.len() == 0 {
        c
    } else {
        let before = loaded(c, saved.drop_last(), now);
        let (key, e) = saved.last();
        if too_old(e, now) || before.entries.len() >= before.max {
            before
        } else {
            CacheModel {
                entries: before.entries.insert(key, e),
                order: before.order.push(key),
                ..before
            }
        }
    }
}

/// Whether a result is too old.
pub fn is_expired(entry: &Entry, now: u64) -> (r: bool)
    ensures
        r == too_old(entry@, now),
{
    match entry.ttl_secs {
        Some(ttl) => (now as u128) > entry.created_at as u128 + ttl as u128,
        None => false,
    }
}

/// Whether a result still counts.
fn validate(entry: &Entry, now: u64, stat: Option<(u64, u64)>) -> (r: bool)
    ensures
        r == counts(entry@, now, stat),
{
    if is_expired(entry, now) {
        return false;
    }
    if entry.file_path.is_some() {
        match stat {
            Some((mtime, size)) => {
                let same_time = match entry.file_mtime {
                    Some(m) => m == mtime,
                    None => false,
                };
                let same_size = match entry.file_size {
                    Some(s) => s == size,
                    None => false,
                };
                return same_time && same_size;
            },
            None => {
                return false;
            },
        }
    }
    true
}

/// Keys without one.
fn drop_key(order: &Vec<u64>, key: u64) -> (r: Vec<u64>)
    ensures
        r@ == dropped(order@, set![key]),
{
    let mut out: Vec<u64> = Vec::new();
    let mut i: usize = 0;
    assert(out@ =~= dropped(order@.take(0), set![key]));
    while i < order.len()
        invariant
            i <= order@.len(),
            out@ == dropped(order@.take(i as int), set![key]),
        decreases order@.len() - i,
    {
        assert(order@.take(i + 1).drop_last() == order@.take(i as int));
        if order[i] != key {
            out.push(order[i]);
        }
        i = i + 1;
    }
    assert(order@.take(order@.len() as int) == order@);
    out
}

/// Keys that go one set after the other go together.
proof fn dropped_twice(order: Seq<u64>, a: Set<u64>, b: Set<u64>)
    ensures
        dropped(dropped(order, a), b) == dropped(order, a.union(b)),
    decreases order.len(),
{
    if order.len() > 0 {
        dropped_twice(order.drop_last(), a, b);
        let rest = dropped(order.drop_last(), a);
        if !a.contains(order.last()) {
            assert(rest.push(order.last()).drop_last() == rest);
        }
    }
}

/// No key goes where none is named.
proof fn dropped_none(order: Seq<u64>)
    ensures
        dropped(order, Set::empty()) == order,
    decreases order.len(),
{
    if order.len() > 0 {
        dropped_none(order.drop_last());
        assert(order.drop_last().push(order.last()) == order);
    }
}

/// One more key goes.
proof fn one_more_goes(c: CacheModel, gone: Set<u64>, key: u64)
    ensures
        c.without(gone).removed(key) == c.without(gone.insert(key)),
{
    dropped_twice(c.order, gone, set![key]);
    assert(gone.union(set![key]) == gone.insert(key));
    assert(c.entries.remove_keys(gone).remove_keys(set![key]) =~= c.entries.remove_keys(
        gone.insert(key),
    ));
}

impl ToolCache {
    /// A cache that keeps nothing yet.
    pub fn new() -> (r: Self)
        ensures
            r@ == (CacheModel {
                entries: Map::empty(),
                order: Seq::empty(),
                max: MAX_ENTRIES as int,
            }),
            r@.wf(),
    {
        let r = ToolCache { entries: HashMap::new(), order: Vec::new(), max: MAX_ENTRIES };
        assert(r@.entries =~= Map::empty());
        r
    }

    /// The file that the result of a call was read from, where one is kept.
    pub fn file_of(&self, project: Option<&Project>, tool: &str, params_json: &str) -> (r: Option<
        String,
    >)
        ensures
            model::opt_view(r) == ({
                let key = key_of(model::opt_ref_view(project), tool@, params_json@);
                if self@.entries.contains_key(key) {
                    self@.entries[key].file_path
                } else {
                    None
                }
            }),
    {
        let key: u64 = cache_key(project, tool, params_json);
        match self.entries.get(&key) {
            Some(e) => copy_opt(&e.file_path),
            None => None,
        }
    }

    /// Takes a key out.
    fn remove(&mut self, key: u64)
        ensures
            final(self)@ == old(self)@.removed(key),
    {
        let ghost before = self.entries@;
        let _gone = self.entries.remove(&key);
        self.order = drop_key(&self.order, key);
        assert(contents(self.entries@) =~= contents(before).remove_keys(set![key]));
    }

    /// The result of a call, where it is kept and still counts; one that does
    /// not is taken out. `stat` says when the file that it was read from was
    /// changed, and how large it is, where it is there.
    pub fn get(
        &mut self,
        project: Option<&Project>,
        tool: &str,
        params_json: &str,
        now: u64,
        stat: Option<(u64, u64)>,
    ) -> (r: Option<ToolResult>)
        ensures
            (final(self)@, model::opt_view(r)) == old(self)@.asked(
                key_of(model::opt_ref_view(project), tool@, params_json@),
                now,
                stat,
            ),
    {
        let key: u64 = cache_key(project, tool, params_json);
        let found: Option<ToolResult> = match self.entries.get(&key) {
            Some(e) => {
                assert(self@.entries[key] == e@);
                if validate(e, now, stat) {
                    Some(e.result.copied())
                } else {
                    None
                }
            },
            None => {
                return None;
            },
        };
        match found {
            Some(result) => {
                self.move_to_front(key);
                Some(result)
            },
            None => {
                self.remove(key);
                None
            },
        }
    }

    /// Moves a key to the front.
    fn move_to_front(&mut self, key: u64)
        ensures
            final(self)@ == (CacheModel { order: fronted(old(self)@.order, key), ..old(self)@ }),
    {
        let ghost before = self.order@;
        let mut i: usize = 0;
        while i < self.order.len()
            invariant
                i <= self.order@.len(),
                self.order@ == before,
                self@ == old(self)@,
                forall|k: int| 0 <= k < i ==> before[k] != key,
            decreases self.order@.len() - i,
        {
            if self.order[i] == key {
                proof {
                    first_place(before, key, i as int);
                }
                let _moved = self.order.remove(i);
                assert(self.order@ =~= before.remove(i as int));
                self.order.insert(0, key);
                assert(self.order@ =~= seq![key] + before.remove(i as int));
                return ;
            }
            i = i + 1;
        }
        assert(!before.contains(key));
    }

    /// Keeps the result of a call. `relative` says whether the path among the
    /// parameters is a relative one, and `stat` gives the time and size of the
    /// file that they name, where it is there.
    pub fn set(
        &mut self,
        project: Option<&Project>,
        relative: bool,
        tool: &str,
        params_json: &str,
        stat: Option<(u64, u64)>,
        now: u64,
        result: ToolResult,
    )
        ensures
            final(self)@ == old(self)@.stored(
                key_of(model::opt_ref_view(project), tool@, params_json@),
                entry_of(
                    tool@,
                    params_json@,
                    named_file(model::opt_ref_view(project), relative, params_json@),
                    stat,
                    now,
                    result@,
                ),
            ),
    {
        let path = extract_path(project, relative, params_json);
        self.set_read_from(project, tool, params_json, path, stat, now, result);
    }

    /// Keeps the result of a call that was read from a file, where it was from
    /// one.
    pub fn set_read_from(
        &mut self,
        project: Option<&Project>,
        tool: &str,
        params_json: &str,
        path: Option<String>,
        stat: Option<(u64, u64)>,
        now: u64,
        result: ToolResult,
    )
        ensures
            final(self)@ == old(self)@.stored(
                key_of(model::opt_ref_view(project), tool@, params_json@),
                entry_of(tool@, params_json@, model::opt_view(path), stat, now, result@),
            ),
    {
        let key: u64 = cache_key(project, tool, params_json);
        let file_path = if is_file_tool(tool) {
            path
        } else {
            None
        };
        let (file_mtime, file_size): (Option<u64>, Option<u64>) = match (&file_path, stat) {
            (Some(_), Some((m, s))) => (Some(m), Some(s)),
            _ => (None, None),
        };
        let ttl_secs: Option<u64> = if is_web_tool(tool) {
            Some(WEB_CACHE_TTL_SECS)
        } else if file_path.is_some() {
            Some(FILE_CACHE_TTL_SECS)
        } else {
            None
        };
        let entry = Entry {
            result,
            tool: owned(tool),
            params: owned(params_json),
            file_path,
            file_mtime,
            file_size,
            created_at: now,
            ttl_secs,
        };
        assert(entry@ == entry_of(
            tool@,
            params_json@,
            model::opt_view(path),
            stat,
            now,
            result@,
        ));
        self.make_room(key);
        let ghost before = self.entries@;
        if !self.entries.contains_key(&key) {
            let ghost keys = self.order@;
            self.order.insert(0, key);
            assert(self.order@ =~= seq![key] + keys);
        }
        let _older = self.entries.insert(key, entry);
        assert(contents(self.entries@) =~= contents(before).insert(key, entry@));
    }

    /// Makes room for a key.
    fn make_room(&mut self, key: u64)
        ensures
            final(self)@ == old(self)@.with_room(key),
    {
        proof {
            contents_len(self.entries@);
        }
        if !self.entries.contains_key(&key) && self.entries.len() >= self.max {
            let ghost before = self.order@;
            let ghost held = self.entries@;
            match self.order.pop() {
                Some(oldest) => {
                    assert(self.order@ =~= before.drop_last());
                    let _gone = self.entries.remove(&oldest);
                    assert(contents(self.entries@) =~= contents(held).remove(oldest));
                },
                None => {
                    assert(self.order@ =~= before);
                },
            }
        }
    }

    /// Takes keys out.
    fn prune(&mut self, keys: &Vec<u64>)
        ensures
            final(self)@ == old(self)@.without(keys@.to_set()),
    {
        let ghost c = self@;
        let mut i: usize = 0;
        proof {
            assert(keys@.take(0).to_set() =~= Set::empty());
            dropped_none(c.order);
            assert(c.entries.remove_keys(Set::empty()) =~= c.entries);
        }
        while i < keys.len()
            invariant
                i <= keys@.len(),
                self@ == c.without(keys@.take(i as int).to_set()),
            decreases keys@.len() - i,
        {
            self.remove(keys[i]);
            proof {
                one_more_goes(c, keys@.take(i as int).to_set(), keys@[i as int]);
                let more = keys@.take(i + 1);
                assert(more =~= keys@.take(i as int).push(keys@[i as int]));
                assert(more.to_set() =~= keys@.take(i as int).to_set().insert(keys@[i as int])) by {
                    assert forall|k: u64|
                        keys@.take(i as int).to_set().insert(keys@[i as int]).contains(
                            k,
                        ) implies more.to_set().contains(k) by {
                        if k == keys@[i as int] {
                            assert(more[i as int] == k);
                        } else {
                            let j = keys@.take(i as int).index_of(k);
                            assert(more[j] == k);
                        }
                    }
                }
            }
            i = i + 1;
        }
        assert(keys@.take(keys@.len() as int) == keys@);
    }

    /// The keys of the results, in whatever order.
    fn keys(&self) -> (r: Vec<u64>)
        ensures
            r@.no_duplicates(),
            r@.to_set() == self@.entries.dom(),
    {
        let mut out: Vec<u64> = Vec::new();
        for key in it: self.entries.keys()
            invariant
                out@.len() == it.index(),
                out@ == it.seq().unref().take(it.index() as int),
                it.index() == it.seq().len() ==> out@ == it.seq().unref(),
                it.seq().unref().to_set() == self.entries@.dom(),
                it.seq().no_duplicates(),
        {
            out.push(*key);
        }
        proof {
            assert(self@.entries.dom() =~= self.entries@.dom());
            assert(out@.to_set() =~= self.entries@.dom());
        }
        out
    }

    /// Takes out what was read from a path or below it, as after a change.
    /// `relative` says whether the path is a relative one.
    pub fn invalidate(&mut self, project: Option<&Project>, relative: bool, path: &str)
        ensures
            final(self)@ == old(self)@.without(
                keys_read_from(
                    old(self)@,
                    meant_path(model::opt_ref_view(project), relative, path@),
                ),
            ),
    {
        let meant = cache_file_path(project, relative, path);
        let changed = normalize_path(meant.as_str());
        let ghost gone = keys_read_from(self@, meant@);
        let keys = self.keys();
        let mut doomed: Vec<u64> = Vec::new();
        let mut i: usize = 0;
        while i < keys.len()
            invariant
                i <= keys@.len(),
                changed@ == normalized(meant@),
                gone == keys_read_from(self@, meant@),
                self@ == old(self)@,
                keys@.to_set() == self@.entries.dom(),
                forall|k: u64| #[trigger]
                    doomed@.contains(k) <==> gone.contains(k) && keys@.take(i as int).contains(k),
            decreases keys@.len() - i,
        {
            let key: u64 = keys[i];
            assert(keys@.to_set().contains(key));
            let hit = match self.entries.get(&key) {
                Some(e) => match &e.file_path {
                    Some(p) => same_text(normalize_path(p.as_str()).as_str(), changed.as_str())
                        || path_matches(p.as_str(), changed.as_str()),
                    None => false,
                },
                None => false,
            };
            let ghost before = doomed@;
            if hit {
                doomed.push(key);
            }
            proof {
                one_more_collected(before, doomed@, keys@, i as int, gone, hit);
            }
            i = i + 1;
        }
        assert(keys@.take(keys@.len() as int) == keys@);
        assert(doomed@.to_set() =~= gone) by {
            assert forall|k: u64| gone.contains(k) implies doomed@.contains(k) by {
                assert(keys@.to_set().contains(k));
            }
        }
        self.prune(&doomed);
    }

    /// Takes out what a tool gave.
    pub fn invalidate_tool(&mut self, tool: &str)
        ensures
            final(self)@ == old(self)@.without(keys_given_by(old(self)@, tool@)),
    {
        let ghost gone = keys_given_by(self@, tool@);
        let keys = self.keys();
        let mut doomed: Vec<u64> = Vec::new();
        let mut i: usize = 0;
        while i < keys.len()
            invariant
                i <= keys@.len(),
                gone == keys_given_by(self@, tool@),
                self@ == old(self)@,
                keys@.to_set() == self@.entries.dom(),
                forall|k: u64| #[trigger]
                    doomed@.contains(k) <==> gone.contains(k) && keys@.take(i as int).contains(k),
            decreases keys@.len() - i,
        {
            let key: u64 = keys[i];
            assert(keys@.to_set().contains(key));
            let hit = match self.entries.get(&key) {
                Some(e) => same_text(e.tool.as_str(), tool),
                None => false,
            };
            let ghost before = doomed@;
            if hit {
                doomed.push(key);
            }
            proof {
                one_more_collected(before, doomed@, keys@, i as int, gone, hit);
            }
            i = i + 1;
        }
        assert(keys@.take(keys@.len() as int) == keys@);
        assert(doomed@.to_set() =~= gone) by {
            assert forall|k: u64| gone.contains(k) implies doomed@.contains(k) by {
                assert(keys@.to_set().contains(k));
            }
        }
        self.prune(&doomed);
    }

    /// Takes everything out.
    pub fn clear(&mut self)
        ensures
            final(self)@ == (CacheModel {
                entries: Map::empty(),
                order: Seq::empty(),
                max: old(self)@.max,
            }),
    {
        self.entries.clear();
        self.order = Vec::new();
        assert(self@.entries =~= Map::empty());
        assert(self.order@ =~= Seq::<u64>::empty());
    }

    /// How many results are kept.
    pub fn len(&self) -> (r: usize)
        ensures
            r == self@.entries.len(),
    {
        proof {
            contents_len(self.entries@);
        }
        self.entries.len()
    }

    /// Takes in results that were saved.
    pub fn load(&mut self, saved: &Vec<(u64, Entry)>, now: u64)
        ensures
            final(self)@ == loaded(old(self)@, model::seq_view(saved@), now),
    {
        let ghost c = self@;
        let ghost s = model::seq_view(saved@);
        let mut i: usize = 0;
        assert(s.take(0) =~= Seq::<(u64, EntryModel)>::empty());
        while i < saved.len()
            invariant
                i <= saved@.len(),
                s == model::seq_view(saved@),
                self@ == loaded(c, s.take(i as int), now),
            decreases saved@.len() - i,
        {
            proof {
                assert(s.take(i + 1).drop_last() == s.take(i as int));
                assert(s.take(i + 1).last() == saved@[i as int]@);
                contents_len(self.entries@);
            }
            if !is_expired(&saved[i].1, now) && self.entries.len() < self.max {
                let key: u64 = saved[i].0;
                let entry = saved[i].1.copied();
                let ghost before = self.entries@;
                let _older = self.entries.insert(key, entry);
                self.order.push(key);
                assert(contents(self.entries@) =~= contents(before).insert(key, entry@));
            }
            i = i + 1;
        }
        assert(s.take(s.len() as int) == s);
    }

    /// The results as they are saved, in whatever order.
    pub fn persist(&self) -> (r: Vec<(u64, Entry)>)
        ensures
            lists(model::seq_view(r@), self@.entries),
    {
        let keys = self.keys();
        let mut out: Vec<(u64, Entry)> = Vec::new();
        let mut i: usize = 0;
        while i < keys.len()
            invariant
                i <= keys@.len(),
                keys@.to_set() == self@.entries.dom(),
                out@.len() == i,
                forall|k: int|
                    0 <= k < i ==> (#[trigger] out@[k]).0 == keys@[k] && self@.entries.contains_key(
                        keys@[k],
                    ) && out@[k].1@ == self@.entries[keys@[k]],
            decreases keys@.len() - i,
        {
            let key: u64 = keys[i];
            assert(keys@.to_set().contains(key));
            match self.entries.get(&key) {
                Some(e) => {
                    out.push((key, e.copied()));
                },
                None => {
                    assert(false);
                },
            }
            i = i + 1;
        }
        let ghost s = model::seq_view(out@);
        assert(lists(s, self@.entries)) by {
            assert forall|k: u64| #[trigger] self@.entries.contains_key(k) implies exists|i: int|
                0 <= i < s.len() && (#[trigger] s[i]).0 == k by {
                assert(keys@.to_set().contains(k));
                let i = keys@.index_of(k);
                assert(s[i] == out@[i]@);
            }
            assert forall|i: int| 0 <= i < s.len() implies self@.entries.contains_key(
                (#[trigger] s[i]).0,
            ) && self@.entries[s[i].0] == s[i].1 by {
                assert(s[i] == out@[i]@);
            }
            assert forall|i: int, j: int| 0 <= i < j < s.len() implies (#[trigger] s[i]).0 != (
            #[trigger] s[j]).0 by {
                assert(s[i] == out@[i]@ && s[j] == out@[j]@);
            }
        }
        out
    }
}

/// As many results as contents.
proof fn contents_len(m: Map<u64, Entry>)
    ensures
        contents(m).len() == m.len(),
        contents(m).dom() == m.dom(),
{
    assert(contents(m).dom() =~= m.dom());
}

/// One more key was looked at, and collected where it goes.
proof fn one_more_collected(
    before: Seq<u64>,
    after: Seq<u64>,
    keys: Seq<u64>,
    n: int,
    gone: Set<u64>,
    hit: bool,
)
    requires
        0 <= n < keys.len(),
        hit == gone.contains(keys[n]),
        after == if hit {
            before.push(keys[n])
        } else {
            before
        },
        forall|k: u64| #[trigger]
            before.contains(k) <==> gone.contains(k) && keys.take(n).contains(k),
    ensures
        forall|k: u64| #[trigger]
            after.contains(k) <==> gone.contains(k) && keys.take(n + 1).contains(k),
{
    let old_keys = keys.take(n);
    let new_keys = keys.take(n + 1);
    assert forall|k: u64| #[trigger] after.contains(k) <==> gone.contains(k)
        && new_keys.contains(k) by {
        if after.contains(k) {
            let i = after.index_of(k);
            if i < before.len() {
                assert(before[i] == k);
                assert(before.contains(k));
                let j = old_keys.index_of(k);
                assert(new_keys[j] == k);
            } else {
                assert(new_keys[n] == k);
            }
        }
        if gone.contains(k) && new_keys.contains(k) {
            let j = new_keys.index_of(k);
            if j < n {
                assert(old_keys[j] == k);
                assert(old_keys.contains(k));
                assert(before.contains(k));
                let i = before.index_of(k);
                assert(after[i] == k);
            } else {
                assert(after[after.len() - 1] == k);
            }
        }
    }
}

/// The first place of a key.
proof fn first_place(order: Seq<u64>, key: u64, i: int)
    requires
        0 <= i < order.len(),
        order[i] == key,
        forall|k: int| 0 <= k < i ==> order[k] != key,
    ensures
        order.contains(key),
        order.index_of_first(key) == Some(i),
{
    order.index_of_first_ensures(key);
}

/// What is left of keys without some.
proof fn dropped_is_right(order: Seq<u64>, gone: Set<u64>)
    ensures
        forall|k: u64| #[trigger]
            dropped(order, gone).contains(k) <==> order.contains(k) && !gone.contains(k),
        order.no_duplicates() ==> dropped(order, gone).no_duplicates(),
    decreases order.len(),
{
    if order.len() > 0 {
        let rest = order.drop_last();
        let last = order.last();
        dropped_is_right(rest, gone);
        let before = dropped(rest, gone);
        let all = dropped(order, gone);
        assert forall|k: u64| #[trigger] all.contains(k) <==> order.contains(k) && !gone.contains(
            k,
        ) by {
            if order.contains(k) && !gone.contains(k) {
                let i = order.index_of(k);
                if i < rest.len() {
                    assert(rest[i] == k);
                    assert(before.contains(k));
                    let j = before.index_of(k);
                    assert(all[j] == k);
                } else {
                    assert(all[all.len() - 1] == k);
                }
            }
            if all.contains(k) {
                let j = all.index_of(k);
                if j < before.len() {
                    assert(before[j] == k);
                    assert(before.contains(k));
                    let i = rest.index_of(k);
                    assert(order[i] == k);
                } else {
                    assert(order[order.len() - 1] == k);
                }
            }
        }
        if order.no_duplicates() {
            assert(rest.no_duplicates());
            assert(!rest.contains(last)) by {
                if rest.contains(last) {
                    let i = rest.index_of(last);
                    assert(order[i] == order[order.len() - 1]);
                }
            }
            if !gone.contains(last) {
                assert(!before.contains(last));
                assert forall|a: int, b: int|
                    0 <= a < all.len() && 0 <= b < all.len() && a != b implies all[a]
                    != all[b] by {
                    if a == all.len() - 1 {
                        assert(before[b] == all[b]);
                        assert(before.contains(before[b]));
                    } else if b == all.len() - 1 {
                        assert(before[a] == all[a]);
                        assert(before.contains(before[a]));
                    } else {
                        assert(before[a] != before[b]);
                    }
                }
            }
        }
    }
}

/// A cache has as many keys as results.
proof fn keys_match_results(c: CacheModel)
    requires
        c.wf(),
    ensures
        c.order.len() == c.entries.len(),
{
    assert(c.order.to_set() =~= c.entries.dom());
    c.order.unique_seq_to_set();
}

/// Taking keys out keeps the cache as it should be, takes out each that was
/// named and leaves the others as they are.
pub proof fn pruning_takes_out_what_is_named(c: CacheModel, gone: Set<u64>)
    requires
        c.wf(),
    ensures
        c.without(gone).wf(),
        forall|k: u64| #[trigger]
            c.without(gone).entries.contains_key(k) <==> c.entries.contains_key(k)
                && !gone.contains(k),
        forall|k: u64| #[trigger]
            c.without(gone).entries.contains_key(k) ==> c.without(gone).entries[k] == c.entries[k],
        c.without(gone).entries.len() <= c.entries.len(),
{
    let n = c.without(gone);
    dropped_is_right(c.order, gone);
    assert(n.entries.dom() =~= c.entries.dom().difference(gone));
    vstd::set_lib::lemma_len_difference(c.entries.dom(), gone);
    assert forall|k: u64| #[trigger] n.order.contains(k) <==> n.entries.contains_key(k) by {
        assert(c.order.contains(k) <==> c.entries.contains_key(k));
    }
}

/// Moving a key to the front keeps the keys.
proof fn fronted_is_right(order: Seq<u64>, key: u64)
    requires
        order.no_duplicates(),
    ensures
        forall|k: u64| #[trigger] fronted(order, key).contains(k) <==> order.contains(k),
        fronted(order, key).no_duplicates(),
        order.contains(key) ==> fronted(order, key)[0] == key,
{
    if order.contains(key) {
        let i = order.index_of(key);
        order.index_of_first_ensures(key);
        let p = order.index_of_first(key)->Some_0;
        assert(order[p] == key);
        let rest = order.remove(p);
        let all = fronted(order, key);
        assert forall|k: u64| #[trigger] all.contains(k) <==> order.contains(k) by {
            if order.contains(k) {
                let j = order.index_of(k);
                if j == p {
                    assert(all[0] == k);
                } else if j < p {
                    assert(all[j + 1] == k);
                } else {
                    assert(all[j] == k);
                }
            }
            if all.contains(k) {
                let j = all.index_of(k);
                if j == 0 {
                    assert(order[p] == k);
                } else if j - 1 < p {
                    assert(order[j - 1] == k);
                } else {
                    assert(order[j] == k);
                }
            }
        }
        assert forall|a: int, b: int|
            0 <= a < all.len() && 0 <= b < all.len() && a != b implies all[a] != all[b] by {
            let x = if a == 0 {
                p
            } else if a - 1 < p {
                a - 1
            } else {
                a
            };
            let y = if b == 0 {
                p
            } else if b - 1 < p {
                b - 1
            } else {
                b
            };
            assert(all[a] == order[x]);
            assert(all[b] == order[y]);
            assert(x != y);
        }
    }
}

/// Asking keeps the cache as it should be; what comes back still counts and is
/// now the one used last, and what does not count is gone.
pub proof fn asking_keeps_wf(c: CacheModel, key: u64, now: u64, stat: Option<(u64, u64)>)
    requires
        c.wf(),
    ensures
        c.asked(key, now, stat).0.wf(),
        c.asked(key, now, stat).1 matches Some(r) ==> c.entries.contains_key(key) && counts(
            c.entries[key],
            now,
            stat,
        ) && r == c.entries[key].result && c.asked(key, now, stat).0.order[0] == key,
        c.asked(key, now, stat).1 is None ==> !c.asked(key, now, stat).0.entries.contains_key(key),
{
    if c.entries.contains_key(key) {
        if counts(c.entries[key], now, stat) {
            fronted_is_right(c.order, key);
            assert(c.order.contains(key));
            let n = c.asked(key, now, stat).0;
            assert forall|k: u64| #[trigger] n.order.contains(k) <==> n.entries.contains_key(k) by {
                assert(c.order.contains(k) <==> c.entries.contains_key(k));
            }
        } else {
            pruning_takes_out_what_is_named(c, set![key]);
        }
    }
}

/// Making room takes out the result that was not used for longest.
proof fn room_keeps_wf(c: CacheModel, key: u64)
    requires
        c.wf(),
    ensures
        c.with_room(key).wf(),
        c.with_room(key).entries.contains_key(key) <==> c.entries.contains_key(key),
        c.with_room(key).entries.len() <= c.entries.len(),
        !c.entries.contains_key(key) && c.max > 0 && c.entries.len() <= c.max ==> c.with_room(
            key,
        ).entries.len() < c.max,
{
    keys_match_results(c);
    let n = c.with_room(key);
    if !c.entries.contains_key(key) && c.entries.len() >= c.max && c.order.len() > 0 {
        let last = c.order.last();
        let rest = c.order.drop_last();
        assert(c.order[c.order.len() - 1] == last);
        assert(c.order.contains(last));
        assert(c.entries.contains_key(last));
        assert forall|k: u64| #[trigger] n.order.contains(k) <==> n.entries.contains_key(k) by {
            assert(c.order.contains(k) <==> c.entries.contains_key(k));
            if rest.contains(k) {
                let i = rest.index_of(k);
                assert(c.order[i] == k);
                assert(k != last);
            }
            if n.entries.contains_key(k) {
                let i = c.order.index_of(k);
                assert(c.order[i] == k);
                assert(rest[i] == k);
            }
        }
    }
}

/// What is stored is found while it counts; the cache stays as it should be,
/// and never holds more than it may.
pub proof fn stored_result_is_found(
    c: CacheModel,
    key: u64,
    e: EntryModel,
    now: u64,
    stat: Option<(u64, u64)>,
)
    requires
        c.wf(),
    ensures
        c.stored(key, e).wf(),
        counts(e, now, stat) ==> c.stored(key, e).asked(key, now, stat).1 == Some(e.result),
        c.max > 0 && c.entries.len() <= c.max ==> c.stored(key, e).entries.len() <= c.max,
{
    room_keeps_wf(c, key);
    let m = c.with_room(key);
    let n = c.stored(key, e);
    assert(m.order.contains(key) <==> m.entries.contains_key(key));
    assert forall|k: u64| #[trigger] n.order.contains(k) <==> n.entries.contains_key(k) by {
        assert(m.order.contains(k) <==> m.entries.contains_key(k));
        if !m.entries.contains_key(key) {
            if k == key {
                assert(n.order[0] == key);
            } else {
                if m.order.contains(k) {
                    let i = m.order.index_of(k);
                    assert(n.order[i + 1] == k);
                }
                if n.order.contains(k) {
                    let i = n.order.index_of(k);
                    assert(i > 0);
                    assert(m.order[i - 1] == k);
                }
            }
        }
    }
    if !m.entries.contains_key(key) {
        assert forall|a: int, b: int|
            0 <= a < n.order.len() && 0 <= b < n.order.len() && a != b implies n.order[a]
            != n.order[b] by {
            if a == 0 {
                assert(n.order[b] == m.order[b - 1]);
                assert(m.order.contains(m.order[b - 1]));
            } else if b == 0 {
                assert(n.order[a] == m.order[a - 1]);
                assert(m.order.contains(m.order[a - 1]));
            } else {
                assert(n.order[a] == m.order[a - 1]);
                assert(n.order[b] == m.order[b - 1]);
            }
        }
    } else {
        assert(n.entries.dom() =~= m.entries.dom());
    }
}

/// After a change of a file, nothing that was read from it or below it comes
/// back.
pub proof fn changed_files_do_not_come_back(
    c: CacheModel,
    path: Seq<char>,
    key: u64,
    now: u64,
    stat: Option<(u64, u64)>,
)
    requires
        c.wf(),
        c.entries.contains_key(key),
        read_from(c.entries[key], path),
    ensures
        c.without(keys_read_from(c, path)).asked(key, now, stat).1 is None,
{
    pruning_takes_out_what_is_named(c, keys_read_from(c, path));
}

/// A result that was read from the network does not come back after its time,
/// and one from a file does not come back after the file was changed.
pub proof fn stale_results_do_not_come_back(
    c: CacheModel,
    key: u64,
    now: u64,
    stat: Option<(u64, u64)>,
)
    requires
        c.entries.contains_key(key),
    ensures
        c.entries[key].ttl_secs matches Some(ttl) ==> now > c.entries[key].created_at + ttl
            ==> c.asked(key, now, stat).1 is None,
        c.entries[key].file_path is Some && stat is None ==> c.asked(key, now, stat).1 is None,
        c.entries[key].file_path is Some && stat is Some && (c.entries[key].file_mtime != Some(
            stat->Some_0.0,
        ) || c.entries[key].file_size != Some(stat->Some_0.1)) ==> c.asked(key, now, stat).1 is None,
{
}

/// What was saved comes back: a cache that keeps nothing and takes in all
/// results of another, in whatever order, keeps the same results, where none of
/// them is too old and there is room for them.
pub proof fn saved_results_come_back(
    entries: Map<u64, EntryModel>,
    saved: Seq<(u64, EntryModel)>,
    max: int,
    now: u64,
)
    requires
        lists(saved, entries),
        saved.len() <= max,
        forall|k: u64| #[trigger] entries.contains_key(k) ==> !too_old(entries[k], now),
    ensures
        loaded(
            CacheModel { entries: Map::empty(), order: Seq::empty(), max },
            saved,
            now,
        ).entries == entries,
{
    let c = CacheModel { entries: Map::empty(), order: Seq::empty(), max };
    first_come_back(entries, saved, max, now, saved.len() as int);
    assert(saved.take(saved.len() as int) == saved);
    assert(loaded(c, saved, now).entries =~= entries);
}

/// The same of the first results.
proof fn first_come_back(
    entries: Map<u64, EntryModel>,
    saved: Seq<(u64, EntryModel)>,
    max: int,
    now: u64,
    n: int,
)
    requires
        lists(saved, entries),
        saved.len() <= max,
        forall|k: u64| #[trigger] entries.contains_key(k) ==> !too_old(entries[k], now),
        0 <= n <= saved.len(),
    ensures
        ({
            let c = CacheModel { entries: Map::empty(), order: Seq::empty(), max };
            let got = loaded(c, saved.take(n), now);
            &&& got.max == max
            &&& got.entries.dom().finite()
            &&& got.entries.len() == n
            &&& forall|k: u64| #[trigger]
                got.entries.contains_key(k) <==> exists|i: int|
                    0 <= i < n && (#[trigger] saved[i]).0 == k
            &&& forall|k: u64| #[trigger]
                got.entries.contains_key(k) ==> entries.contains_key(k) && got.entries[k]
                    == entries[k]
        }),
    decreases n,
{
    let c = CacheModel { entries: Map::empty(), order: Seq::empty(), max };
    if n > 0 {
        first_come_back(entries, saved, max, now, n - 1);
        assert(saved.take(n).drop_last() == saved.take(n - 1));
        assert(saved.take(n).last() == saved[n - 1]);
        let before = loaded(c, saved.take(n - 1), now);
        let got = loaded(c, saved.take(n), now);
        let key = saved[n - 1].0;
        assert(entries.contains_key(key));
        assert(!before.entries.contains_key(key));
        assert forall|k: u64| #[trigger] got.entries.contains_key(k) <==> exists|i: int|
            0 <= i < n && (#[trigger] saved[i]).0 == k by {
            if got.entries.contains_key(k) {
                if k == key {
                    assert(saved[n - 1].0 == k);
                } else {
                    assert(before.entries.contains_key(k));
                }
            }
            if exists|i: int| 0 <= i < n && (#[trigger] saved[i]).0 == k {
                let i = choose|i: int| 0 <= i < n && (#[trigger] saved[i]).0 == k;
                if i < n - 1 {
                    assert(before.entries.contains_key(k));
                }
            }
        }
    } else {
        assert(saved.take(0) =~= Seq::empty());
    }
}

/// A path that is not whole is meant below the project: behind its root, with one
/// separator between. A whole path, or one without a project, is meant as it is.
pub proof fn paths_are_meant_below_the_project(p: ProjectModel, path: Seq<char>)
    ensures
        meant_path(None, true, path) == path,
        meant_path(Some(p), false, path) == path,
        p.root.len() > 0 && p.root.last() != p.separator && p.root.last() != '/' ==> meant_path(
            Some(p),
            true,
            path,
        ) == p.root + seq![p.separator] + path,
        p.root.len() > 0 && (p.root.last() == p.separator || p.root.last() == '/') ==> meant_path(
            Some(p),
            true,
            path,
        ) == p.root + path,
        p.root.len() == 0 ==> meant_path(Some(p), true, path) == path,
{
    if p.root.len() > 0 && p.root.last() != p.separator && p.root.last() != '/' {
        assert(p.root.push(p.separator) + path =~= p.root + seq![p.separator] + path);
    }
    if p.root.len() == 0 {
        assert(p.root + path =~= path);
    }
}

/// A result is kept under its tool and parameters, apart for each project: what
/// is digested tells the project's root and the tool.
pub proof fn results_are_kept_apart(
    p: ProjectModel,
    tool: Seq<char>,
    q: ProjectModel,
    other: Seq<char>,
    params: Seq<char>,
)
    ensures
        key_of(None, tool, params) == hashing::digest_pair(tool, params),
        key_of(Some(p), tool, params) == hashing::digest_pair(
            uia_tree::framed(p.root) + tool,
            params,
        ),
        uia_tree::framed(p.root) + tool == uia_tree::framed(q.root) + other ==> p.root == q.root
            && tool == other,
{
    if uia_tree::framed(p.root) + tool == uia_tree::framed(q.root) + other {
        uia_tree::framed_texts_are_told_apart(p.root, tool, q.root, other);
    }
}

/// The file that a tool is about is the one its parameters name.
pub proof fn parameters_name_the_file(
    project: Option<ProjectModel>,
    relative: bool,
    params: Seq<char>,
)
    ensures
        json::text_member(params, "path"@) is None ==> named_file(project, relative, params) is None,
        json::text_member(params, "path"@) matches Some(path) ==> named_file(
            project,
            relative,
            params,
        ) == Some(meant_path(project, relative, path)),
{
}

/// The tools that read or write files, and those that ask the web.
pub proof fn tools_are_known_by_name(tool: Seq<char>)
    ensures
        tool == "Read"@ || tool == "Write"@ || tool == "Edit"@ || tool == "Delete"@ || tool
            == "Copy"@ || tool == "Rename"@ || tool == "Append"@ || tool == "Diff"@ ==> file_tool(
            tool,
        ),
        text::begins(tool, "file_"@) || text::begins(tool, "search_"@) ==> file_tool(tool),
        file_tool(tool) ==> tool == "Read"@ || tool == "Write"@ || tool == "Edit"@ || tool
            == "Delete"@ || tool == "Copy"@ || tool == "Rename"@ || tool == "Append"@ || tool
            == "Diff"@ || text::begins(tool, "file_"@) || text::begins(tool, "search_"@),
        web_tool(tool) <==> text::begins(tool, "web_"@),
{
}

/// A change of a folder reaches what lies in it: a path is reached where, with
/// strokes and letters made alike, it is the changed one or begins with it and a
/// stroke.
pub proof fn changes_reach_what_lies_below(cached: Seq<char>, changed: Seq<char>)
    ensures
        matched(changed, changed),
        normalized(cached) == normalized(changed) ==> matched(cached, changed),
        !text::finishes(normalized(changed), "/"@) && !text::finishes(
            normalized(changed),
            "\\"@,
        ) ==> (matched(cached, changed) <==> normalized(cached) == normalized(changed)
            || text::begins(normalized(cached), normalized(changed) + "/"@)),
        text::finishes(normalized(changed), "/"@) || text::finishes(normalized(changed), "\\"@)
            ==> (matched(cached, changed) <==> text::begins(
            normalized(cached),
            normalized(changed),
        ) || normalized(cached) == normalized(changed)),
        normalized(cached) == text::lowercased(
            jev::without_end(text::replaced(cached, seq!['\\'], seq!['/']), '/'),
        ),
{
}

/// Taking keys out leaves the others, in their order.
pub proof fn other_keys_are_kept(a: Seq<u64>, b: Seq<u64>, key: u64, gone: Set<u64>)
    ensures
        dropped(a + b, gone) == dropped(a, gone) + dropped(b, gone),
        gone.contains(key) ==> dropped(seq![key], gone) == Seq::<u64>::empty(),
        !gone.contains(key) ==> dropped(seq![key], gone) == seq![key],
    decreases b.len(),
{
    assert(seq![key].drop_last() =~= Seq::<u64>::empty());
    assert(dropped(seq![key].drop_last(), gone) =~= Seq::<u64>::empty());
    if b.len() == 0 {
        assert(a + b =~= a);
        assert(dropped(a, gone) + dropped(b, gone) =~= dropped(a, gone));
    } else {
        assert((a + b).last() == b.last());
        assert((a + b).drop_last() =~= a + b.drop_last());
        other_keys_are_kept(a, b.drop_last(), key, gone);
        assert((dropped(a, gone) + dropped(b.drop_last(), gone)).push(b.last()) =~= dropped(a, gone)
            + dropped(b.drop_last(), gone).push(b.last()));
    }
}

/// What was asked for comes first, and the others keep their order.
pub proof fn asked_key_comes_first(before: Seq<u64>, key: u64, after: Seq<u64>)
    requires
        !before.contains(key),
    ensures
        fronted(before.push(key) + after, key) == seq![key] + before + after,
{
    let all = before.push(key) + after;
    assert(all[before.len() as int] == key);
    let i = all.index_of_first(key)->Some_0;
    all.index_of_first_ensures(key);
    assert(i == before.len()) by {
        if i < before.len() {
            assert(all[i] == before[i]);
            assert(before.contains(key));
        }
    }
    assert(all.remove(i) =~= before + after);
    assert(seq![key] + (before + after) =~= seq![key] + before + after);
}

/// A result counts until its time is over, and one of a file as long as the file
/// has the same time and size.
pub proof fn results_count_while_they_are_true(e: EntryModel, now: u64, stat: Option<(u64, u64)>)
    ensures
        e.ttl_secs is None ==> !too_old(e, now),
        e.ttl_secs matches Some(ttl) ==> (too_old(e, now) <==> now > e.created_at + ttl),
        e.file_path is None ==> (counts(e, now, stat) <==> !too_old(e, now)),
        e.file_path is Some ==> (counts(e, now, stat) <==> !too_old(e, now) && stat is Some
            && e.file_mtime == Some(stat->Some_0.0) && e.file_size == Some(stat->Some_0.1)),
{
}

/// Asking changes no other result: one that counts moves to the front, one that
/// does not is let go.
pub proof fn asking_changes_no_other_result(
    c: CacheModel,
    key: u64,
    now: u64,
    stat: Option<(u64, u64)>,
)
    ensures
        !c.entries.contains_key(key) ==> c.asked(key, now, stat) == (c, None::<ResultModel>),
        c.entries.contains_key(key) && counts(c.entries[key], now, stat) ==> c.asked(
            key,
            now,
            stat,
        ).0.entries == c.entries && c.asked(key, now, stat).0.order == fronted(c.order, key)
            && c.asked(key, now, stat).1 == Some(c.entries[key].result),
        c.entries.contains_key(key) && !counts(c.entries[key], now, stat) ==> c.asked(
            key,
            now,
            stat,
        ).0.entries == c.entries.remove(key),
        c.asked(key, now, stat).0.max == c.max,
{
    assert(c.entries.remove_keys(set![key]) =~= c.entries.remove(key));
}

/// A new result takes the front, and where all places are taken the one that was
/// not asked for the longest leaves; a known one is replaced in its place.
pub proof fn least_asked_result_leaves(c: CacheModel, key: u64, e: EntryModel)
    requires
        c.wf(),
    ensures
        c.entries.contains_key(key) ==> c.stored(key, e).entries == c.entries.insert(key, e)
            && c.stored(key, e).order == c.order,
        !c.entries.contains_key(key) && c.entries.len() < c.max ==> c.stored(key, e).entries
            == c.entries.insert(key, e) && c.stored(key, e).order == seq![key] + c.order,
        !c.entries.contains_key(key) && c.entries.len() >= c.max && c.order.len() > 0 ==> c.stored(
            key,
            e,
        ).entries == c.entries.remove(c.order.last()).insert(key, e) && c.stored(key, e).order
            == seq![key] + c.order.drop_last(),
        c.stored(key, e).max == c.max,
{
}

/// What is kept of a result: what it was given for and when; of a file tool the
/// file, with its time and size. The web's answers are kept for a minute, those
/// about a file for five, others until they are let go.
pub proof fn results_are_kept_with_their_file(
    tool: Seq<char>,
    params: Seq<char>,
    path: Option<Seq<char>>,
    stat: Option<(u64, u64)>,
    now: u64,
    result: ResultModel,
)
    ensures
        ({
            let e = entry_of(tool, params, path, stat, now, result);
            &&& e.result == result
            &&& e.tool == tool
            &&& e.params == params
            &&& e.created_at == now
            &&& file_tool(tool) ==> e.file_path == path
            &&& !file_tool(tool) ==> e.file_path is None
            &&& e.file_path is Some && stat is Some ==> e.file_mtime == Some(stat->Some_0.0)
                && e.file_size == Some(stat->Some_0.1)
            &&& e.file_path is None || stat is None ==> e.file_mtime is None && e.file_size is None
            &&& web_tool(tool) ==> e.ttl_secs == Some(60u64)
            &&& !web_tool(tool) && e.file_path is Some ==> e.ttl_secs == Some(300u64)
            &&& !web_tool(tool) && e.file_path is None ==> e.ttl_secs is None
        }),
{
}

/// A result is read from a file where the file is the changed one or lies below
/// it; the keys that are let go are exactly those of such results, or of a tool.
pub proof fn changed_files_are_let_go(c: CacheModel, path: Seq<char>, tool: Seq<char>, k: u64, e: EntryModel)
    ensures
        e.file_path is None ==> !read_from(e, path),
        e.file_path matches Some(p) ==> (read_from(e, path) <==> normalized(p) == normalized(path)
            || matched(p, normalized(path))),
        keys_read_from(c, path).contains(k) <==> c.entries.contains_key(k) && read_from(
            c.entries[k],
            path,
        ),
        keys_given_by(c, tool).contains(k) <==> c.entries.contains_key(k) && c.entries[k].tool
            == tool,
{
}

/// Of saved results those that still count are taken in, in their order, as long
/// as there is room.
pub proof fn saved_results_are_taken_in(
    c: CacheModel,
    saved: Seq<(u64, EntryModel)>,
    key: u64,
    e: EntryModel,
    now: u64,
)
    ensures
        loaded(c, Seq::empty(), now) == c,
        ({
            let before = loaded(c, saved, now);
            let after = loaded(c, saved.push((key, e)), now);
            &&& too_old(e, now) || before.entries.len() >= before.max ==> after == before
            &&& !too_old(e, now) && before.entries.len() < before.max ==> after.entries
                == before.entries.insert(key, e) && after.order == before.order.push(key)
                && after.max == before.max
        }),
{
    assert(saved.push((key, e)).drop_last() =~= saved);
}

/// The results of a project are kept in its own folder.
pub proof fn results_are_kept_in_the_project(base: Seq<char>)
    ensures
        project_cache(base).base == base,
        project_cache(base).parts == seq![".nuphus"@, "cache"@, "tool_cache.json"@],
{
    assert(project_cache(base).parts =~= seq![".nuphus"@, "cache"@, "tool_cache.json"@]);
}

} // verus!
