//! Notes on what words of the person stand for, kept by their keywords.
use vstd::prelude::*;
use vstd::string::*;

use crate::clock::now_rfc3339;
use crate::model;
use crate::model::{copy_all, copy_opt, same_all, same_opt, Plain};
use crate::order;
use crate::order::{sort, Ordered};
use crate::profile;
use crate::profile::{home_name, Place};
use crate::text;
use crate::text::{contains_text, lowercase, owned, same_text};

verus! {

/// How many notes are offered on what was said.
pub const MAX_MATCHES: usize = 8;

/// A note.
#[derive(Debug, Clone, PartialEq, Eq)]
pub struct Annotation {
    pub keyword: String,
    pub description: String,
    /// Other words that it is found by.
    pub keywords: Vec<String>,
    pub paths: Vec<String>,
    pub tags: Vec<String>,
    pub group: String,
    /// Whether it came with the program.
    pub builtin: bool,
    pub priority: i32,
    pub memory_entry_id: Option<String>,
    pub updated_at: String,
}

/// The content of an [`Annotation`].
#[verifier::ext_equal]
pub struct AnnotationModel {
    pub keyword: Seq<char>,
    pub description: Seq<char>,
    pub keywords: Seq<Seq<char>>,
    pub paths: Seq<Seq<char>>,
    pub tags: Seq<Seq<char>>,
    pub group: Seq<char>,
    pub builtin: bool,
    pub priority: i32,
    pub memory_entry_id: Option<Seq<char>>,
    pub updated_at: Seq<char>,
}

impl View for Annotation {
    type V = AnnotationModel;

    open spec fn view(&self) -> AnnotationModel {
        AnnotationModel {
            keyword: self.keyword@,
            description: self.description@,
            keywords: model::seq_view(self.keywords@),
            paths: model::seq_view(self.paths@),
            tags: model::seq_view(self.tags@),
            group: self.group@,
            builtin: self.builtin,
            priority: self.priority,
            memory_entry_id: model::opt_view(self.memory_entry_id),
            updated_at: self.updated_at@,
        }
    }
}

impl Plain for Annotation {
    fn copied(&self) -> (r: Self) {
        Annotation {
            keyword: self.keyword.clone(),
            description: self.description.clone(),
            keywords: copy_all(&self.keywords),
            paths: copy_all(&self.paths),
            tags: copy_all(&self.tags),
            group: self.group.clone(),
            builtin: self.builtin,
            priority: self.priority,
            memory_entry_id: copy_opt(&self.memory_entry_id),
            updated_at: self.updated_at.clone(),
        }
    }

    fn same(&self, other: &Self) -> (r: bool) {
        same_text(self.keyword.as_str(), other.keyword.as_str())
            && same_text(self.description.as_str(), other.description.as_str())
            && same_all(&self.keywords, &other.keywords)
            && same_all(&self.paths, &other.paths)
            && same_all(&self.tags, &other.tags)
            && same_text(self.group.as_str(), other.group.as_str())
            && self.builtin == other.builtin
            && self.priority == other.priority
            && same_opt(&self.memory_entry_id, &other.memory_entry_id)
            && same_text(self.updated_at.as_str(), other.updated_at.as_str())
    }
}

/// The place of the first note on a keyword.
pub open spec fn first_on(all: Seq<AnnotationModel>, keyword: Seq<char>) -> Option<int>
    decreases all.len(),
{
    if all.len() == 0 {
        None
    } else {
        match first_on(all.drop_last(), keyword) {
            Some(i) => Some(i),
            None => if all.last().keyword == keyword {
                Some(all.len() - 1)
            } else {
                None
            },
        }
    }
}

/// Whether no keyword has two notes.
pub open spec fn distinct(all: Seq<AnnotationModel>) -> bool {
    forall|i: int, j: int|
        0 <= i < j < all.len() ==> (#[trigger] all[i]).keyword != (#[trigger] all[j]).keyword
}

/// A value where one is given, else what was.
pub open spec fn given<T>(o: Option<T>, was: T) -> T {
    match o {
        Some(x) => x,
        None => was,
    }
}

/// The note that an addition asks for: a new one, or an older one of that
/// keyword brought up to date.
pub open spec fn noted(
    was: Option<AnnotationModel>,
    keyword: Seq<char>,
    description: Seq<char>,
    keywords: Seq<Seq<char>>,
    paths: Seq<Seq<char>>,
    tags: Seq<Seq<char>>,
    group: Option<Seq<char>>,
    priority: Option<i32>,
    memory_entry_id: Option<Seq<char>>,
    now: Seq<char>,
) -> AnnotationModel {
    match was {
        Some(a) => AnnotationModel {
            description,
            keywords,
            paths,
            tags,
            group: given(group, a.group),
            priority: given(priority, a.priority),
            memory_entry_id: match memory_entry_id {
                Some(id) => Some(id),
                None => a.memory_entry_id,
            },
            updated_at: now,
            ..a
        },
        None => AnnotationModel {
            keyword,
            description,
            keywords,
            paths,
            tags,
            group: given(group, "custom"@),
            builtin: false,
            priority: given(priority, 0i32),
            memory_entry_id,
            updated_at: now,
        },
    }
}

/// The notes with one added.
pub open spec fn with_note(all: Seq<AnnotationModel>, a: AnnotationModel) -> Seq<AnnotationModel> {
    match first_on(all, a.keyword) {
        Some(i) => all.update(i, a),
        None => all.push(a),
    }
}

/// The note on a keyword, if any.
pub open spec fn on(all: Seq<AnnotationModel>, keyword: Seq<char>) -> Option<AnnotationModel> {
    match first_on(all, keyword) {
        Some(i) => Some(all[i]),
        None => None,
    }
}

/// The notes without those on a keyword that did not come with the program.
pub open spec fn without(all: Seq<AnnotationModel>, keyword: Seq<char>) -> Seq<AnnotationModel> {
    all.filter(|a: AnnotationModel| a.keyword != keyword || a.builtin)
}

/// The notes of the person.
pub open spec fn own(all: Seq<AnnotationModel>) -> Seq<AnnotationModel> {
    all.filter(|a: AnnotationModel| !a.builtin)
}

/// The notes of a group.
pub open spec fn grouped(all: Seq<AnnotationModel>, group: Seq<char>) -> Seq<AnnotationModel> {
    all.filter(|a: AnnotationModel| a.group == group)
}

/// Whether one of two words holds the other, whatever their case; the second is
/// in lower case.
pub open spec fn alike(word: Seq<char>, lower: Seq<char>) -> bool {
    text::has_part(text::lowercased(word), lower) || text::has_part(lower, text::lowercased(word))
}

/// Whether a note is found by a word in lower case.
pub open spec fn found_by(a: AnnotationModel, lower: Seq<char>) -> bool {
    alike(a.keyword, lower) || exists|i: int|
        0 <= i < a.keywords.len() && alike(#[trigger] a.keywords[i], lower)
}

/// The notes that a word finds.
pub open spec fn found(all: Seq<AnnotationModel>, keyword: Seq<char>) -> Seq<AnnotationModel> {
    all.filter(|a: AnnotationModel| found_by(a, text::lowercased(keyword)))
}

/// A note, and how well it fits.
pub struct Scored {
    pub note: Annotation,
    pub score: i32,
}

/// The content of a [`Scored`].
#[verifier::ext_equal]
pub struct ScoredModel {
    pub note: AnnotationModel,
    pub score: i32,
}

impl View for Scored {
    type V = ScoredModel;

    open spec fn view(&self) -> ScoredModel {
        ScoredModel { note: self.note@, score: self.score }
    }
}

impl Plain for Scored {
    fn copied(&self) -> (r: Self) {
        Scored { note: self.note.copied(), score: self.score }
    }

    fn same(&self, other: &Self) -> (r: bool) {
        self.note.same(&other.note) && self.score == other.score
    }
}

impl Ordered for Scored {
    open spec fn before(a: ScoredModel, b: ScoredModel) -> bool {
        a.score > b.score
    }

    proof fn before_is_an_order(a: ScoredModel, b: ScoredModel, c: ScoredModel) {
    }

    fn is_before(&self, other: &Self) -> (r: bool) {
        self.score > other.score
    }
}

/// How well a note fits: by how its words match, then by its priority.
pub open spec fn score(level: i32, priority: i32) -> int {
    level * 100 + priority
}

/// The notes that match, each with how well; `levels` says of each note how its
/// words match, and nothing where they do not.
pub open spec fn scored(all: Seq<AnnotationModel>, levels: Seq<Option<i32>>) -> Seq<ScoredModel>
    decreases all.len(),
{
    if all.len() == 0 {
        Seq::empty()
    } else {
        let rest = scored(all.drop_last(), levels);
        match levels[all.len() - 1] {
            Some(l) => rest.push(
                ScoredModel { note: all.last(), score: score(l, all.last().priority) as i32 },
            ),
            None => rest,
        }
    }
}

/// At most the first few.
pub open spec fn few(s: Seq<ScoredModel>) -> Seq<ScoredModel> {
    s.take(if s.len() < MAX_MATCHES {
        s.len() as int
    } else {
        MAX_MATCHES as int
    })
}

/// What a set of matches offers: the best first, among equals the earlier.
pub open spec fn offered(all: Seq<AnnotationModel>, levels: Seq<Option<i32>>) -> Seq<
    AnnotationModel,
> {
    let best = few(order::sorted::<Scored>(scored(all, levels)));
    Seq::new(best.len(), |i: int| best[i].note)
}

/// What came of reading the stored notes.
pub enum Stored {
    /// There is no file yet.
    Missing,
    /// The file could not be read.
    Unreadable,
    /// The file does not hold notes.
    Broken,
    /// The notes.
    Notes(Vec<Annotation>),
}

/// The notes of the person and of the program.
pub struct AnnotationStore {
    pub annotations: Vec<Annotation>,
}

impl View for AnnotationStore {
    type V = Seq<AnnotationModel>;

    open spec fn view(&self) -> Seq<AnnotationModel> {
        model::seq_view(self.annotations@)
    }
}

/// Where the notes are stored: in the system's folder for data, or else below
/// the home.
pub fn store_path(
    workbench: bool,
    data_dir: Option<String>,
    home: Option<String>,
    user_profile: Option<String>,
) -> (r: Place)
    ensures
        r@ == profile::below(
            profile::below(
                profile::below(
                    profile::whole(
                        profile::first_path(
                            seq![
                                model::opt_view(data_dir),
                                model::opt_view(home),
                                model::opt_view(user_profile),
                            ],
                        ),
                    ),
                    if workbench {
                        ".nuphus-workbench"@
                    } else {
                        ".nuphus"@
                    },
                ),
                "annotations"@,
            ),
            "annotations.json"@,
        ),
{
    proof {
        reveal_with_fuel(profile::first_path, 4);
        let all = seq![
            model::opt_view(data_dir),
            model::opt_view(home),
            model::opt_view(user_profile),
        ];
        assert(all.drop_first() =~= seq![model::opt_view(home), model::opt_view(user_profile)]);
        assert(all.drop_first().drop_first() =~= seq![model::opt_view(user_profile)]);
    }
    let base = match data_dir {
        Some(p) => p,
        None => match home {
            Some(p) => p,
            None => match user_profile {
                Some(p) => p,
                None => owned("."),
            },
        },
    };
    Place::whole(base).join(home_name(workbench)).join("annotations").join("annotations.json")
}

/// Names the file of the notes when the program starts; what was named first
/// stays.
pub fn init_store_path(named: &mut Option<String>, path: String)
    ensures
        model::opt_view(*final(named)) == match model::opt_view(*old(named)) {
            Some(p) => Some(p),
            None => Some(path@),
        },
{
    if named.is_none() {
        *named = Some(path);
    }
}

/// What is said of a keyword that has no note.
pub open spec fn not_found(keyword: Seq<char>) -> Seq<char> {
    "Annotation '"@ + keyword + "' not found"@
}

/// What is said of a keyword without a note that could be removed.
pub open spec fn not_removable(keyword: Seq<char>) -> Seq<char> {
    "Annotation '"@ + keyword + "' not found or is built-in"@
}

/// What is said of a keyword.
fn said_of(keyword: &str, rest: &str) -> (r: String)
    ensures
        r@ == "Annotation '"@ + keyword@ + rest@,
{
    let mut out = owned("Annotation '");
    out.append(keyword);
    out.append(rest);
    out
}

/// The notes that a mark keeps.
pub open spec fn kept(all: Seq<AnnotationModel>, marks: Seq<bool>) -> Seq<AnnotationModel>
    decreases all.len(),
{
    if all.len() == 0 {
        Seq::empty()
    } else if marks[all.len() - 1] {
        kept(all.drop_last(), marks).push(all.last())
    } else {
        kept(all.drop_last(), marks)
    }
}

/// Marks that follow a condition keep what the condition does.
proof fn kept_is_filtered(
    all: Seq<AnnotationModel>,
    marks: Seq<bool>,
    p: spec_fn(AnnotationModel) -> bool,
)
    requires
        marks.len() >= all.len(),
        forall|i: int| 0 <= i < all.len() ==> #[trigger] marks[i] == p(all[i]),
    ensures
        kept(all, marks) == all.filter(p),
    decreases all.len(),
{
    reveal(Seq::filter);
    if all.len() > 0 {
        let rest = all.drop_last();
        assert forall|i: int| 0 <= i < rest.len() implies #[trigger] marks[i] == p(rest[i]) by {
            assert(rest[i] == all[i]);
        }
        kept_is_filtered(rest, marks, p);
    } else {
        assert(all.filter(p) =~= Seq::empty());
    }
}

/// Whether a word in lower case finds a note.
fn is_found_by(a: &Annotation, lower: &str) -> (r: bool)
    ensures
        r == found_by(a@, lower@),
{
    let kw = lowercase(a.keyword.as_str());
    if contains_text(kw.as_str(), lower) || contains_text(lower, kw.as_str()) {
        return true;
    }
    let mut i: usize = 0;
    while i < a.keywords.len()
        invariant
            i <= a.keywords@.len(),
            !alike(a@.keyword, lower@),
            forall|k: int| 0 <= k < i ==> !alike(#[trigger] a@.keywords[k], lower@),
        decreases a.keywords@.len() - i,
    {
        assert(a@.keywords[i as int] == a.keywords@[i as int]@);
        let kl = lowercase(a.keywords[i].as_str());
        if contains_text(kl.as_str(), lower) || contains_text(lower, kl.as_str()) {
            assert(alike(a@.keywords[i as int], lower@));
            return true;
        }
        i = i + 1;
    }
    false
}

impl AnnotationStore {
    /// The notes at the start, and whether they are to be written: those that
    /// came with the program where there is no file yet or it holds no notes;
    /// none where it cannot be read. Only where there is no file yet one is
    /// written.
    pub fn load(stored: Stored, builtins: Vec<Annotation>) -> (r: (Self, bool))
        ensures
            r.0@ == match stored {
                Stored::Missing => model::seq_view(builtins@),
                Stored::Broken => model::seq_view(builtins@),
                Stored::Unreadable => Seq::empty(),
                Stored::Notes(all) => model::seq_view(all@),
            },
            r.1 == (stored is Missing),
    {
        match stored {
            Stored::Missing => (AnnotationStore { annotations: builtins }, true),
            Stored::Broken => (AnnotationStore { annotations: builtins }, false),
            Stored::Unreadable => {
                let r = AnnotationStore { annotations: Vec::new() };
                assert(r@ =~= Seq::<AnnotationModel>::empty());
                (r, false)
            },
            Stored::Notes(all) => (AnnotationStore { annotations: all }, false),
        }
    }

    /// The place of the first note on a keyword.
    fn find(&self, keyword: &str) -> (r: Option<usize>)
        ensures
            match r {
                Some(i) => first_on(self@, keyword@) == Some(i as int) && i
                    < self.annotations@.len(),
                None => first_on(self@, keyword@) is None,
            },
    {
        let ghost all = self@;
        let mut at: Option<usize> = None;
        let mut i: usize = 0;
        while i < self.annotations.len()
            invariant
                i <= self.annotations@.len(),
                all == self@,
                match at {
                    Some(k) => first_on(all.take(i as int), keyword@) == Some(k as int) && k < i,
                    None => first_on(all.take(i as int), keyword@) is None,
                },
            decreases self.annotations@.len() - i,
        {
            assert(all.take(i + 1).drop_last() == all.take(i as int));
            assert(all.take(i + 1).last() == self.annotations@[i as int]@);
            if at.is_none() && same_text(self.annotations[i].keyword.as_str(), keyword) {
                at = Some(i);
            }
            i = i + 1;
        }
        assert(all.take(all.len() as int) == all);
        at
    }

    /// Adds a note at a time; one on a keyword that has a note brings that up
    /// to date.
    pub fn add_at(
        &mut self,
        keyword: &str,
        description: &str,
        keywords: Vec<String>,
        paths: Vec<String>,
        tags: Vec<String>,
        group: Option<String>,
        priority: Option<i32>,
        memory_entry_id: Option<String>,
        now: String,
    ) -> (r: Result<Annotation, String>)
        ensures
            keyword@.len() == 0 || description@.len() == 0 ==> final(self)@ == old(self)@
                && model::result_view(r) == Err::<AnnotationModel, Seq<char>>(
                "keyword and description are required"@,
            ),
            keyword@.len() > 0 && description@.len() > 0 ==> ({
                let note = noted(
                    on(old(self)@, keyword@),
                    keyword@,
                    description@,
                    model::seq_view(keywords@),
                    model::seq_view(paths@),
                    model::seq_view(tags@),
                    model::opt_view(group),
                    priority,
                    model::opt_view(memory_entry_id),
                    now@,
                );
                final(self)@ == with_note(old(self)@, note) && model::result_view(r) == Ok::<
                    AnnotationModel,
                    Seq<char>,
                >(note)
            }),
    {
        if keyword.is_empty() || description.is_empty() {
            return Err(owned("keyword and description are required"));
        }
        let ghost before = self@;
        proof {
            first_is_right(before, keyword@);
        }
        match self.find(keyword) {
            Some(i) => {
                let was = self.annotations[i].copied();
                let note = Annotation {
                    keyword: was.keyword,
                    description: owned(description),
                    keywords,
                    paths,
                    tags,
                    group: match group {
                        Some(g) => g,
                        None => was.group,
                    },
                    builtin: was.builtin,
                    priority: match priority {
                        Some(p) => p,
                        None => was.priority,
                    },
                    memory_entry_id: match memory_entry_id {
                        Some(id) => Some(id),
                        None => was.memory_entry_id,
                    },
                    updated_at: now,
                };
                let shown = note.copied();
                self.annotations.set(i, note);
                assert(self@ =~= before.update(i as int, shown@));
                Ok(shown)
            },
            None => {
                let note = Annotation {
                    keyword: owned(keyword),
                    description: owned(description),
                    keywords,
                    paths,
                    tags,
                    group: match group {
                        Some(g) => g,
                        None => owned("custom"),
                    },
                    builtin: false,
                    priority: match priority {
                        Some(p) => p,
                        None => 0,
                    },
                    memory_entry_id,
                    updated_at: now,
                };
                let shown = note.copied();
                self.annotations.push(note);
                assert(self@ =~= before.push(shown@));
                Ok(shown)
            },
        }
    }

    /// Adds a note now.
    pub fn add(
        &mut self,
        keyword: &str,
        description: &str,
        keywords: Vec<String>,
        paths: Vec<String>,
        tags: Vec<String>,
        group: Option<String>,
        priority: Option<i32>,
        memory_entry_id: Option<String>,
    ) -> (r: Result<Annotation, String>)
        ensures
            keyword@.len() == 0 || description@.len() == 0 ==> final(self)@ == old(self)@
                && model::result_view(r) == Err::<AnnotationModel, Seq<char>>(
                "keyword and description are required"@,
            ),
            keyword@.len() > 0 && description@.len() > 0 ==> r is Ok && r->Ok_0@ == noted(
                on(old(self)@, keyword@),
                keyword@,
                description@,
                model::seq_view(keywords@),
                model::seq_view(paths@),
                model::seq_view(tags@),
                model::opt_view(group),
                priority,
                model::opt_view(memory_entry_id),
                r->Ok_0@.updated_at,
            ) && final(self)@ == with_note(old(self)@, r->Ok_0@),
    {
        let now = now_rfc3339();
        self.add_at(
            keyword,
            description,
            keywords,
            paths,
            tags,
            group,
            priority,
            memory_entry_id,
            now,
        )
    }

    /// Changes what is given of a note at a time.
    pub fn update_at(
        &mut self,
        keyword: &str,
        description: Option<&str>,
        paths: Option<Vec<String>>,
        tags: Option<Vec<String>>,
        group: Option<String>,
        priority: Option<i32>,
        now: String,
    ) -> (r: Result<Annotation, String>)
        ensures
            match on(old(self)@, keyword@) {
                Some(a) => {
                    let note = changed(
                        a,
                        text::opt_str(description),
                        opt_list(paths),
                        opt_list(tags),
                        model::opt_view(group),
                        priority,
                        now@,
                    );
                    final(self)@ == old(self)@.update(first_on(old(self)@, keyword@)->Some_0, note)
                        && model::result_view(r) == Ok::<AnnotationModel, Seq<char>>(note)
                },
                None => final(self)@ == old(self)@ && model::result_view(r) == Err::<
                    AnnotationModel,
                    Seq<char>,
                >(not_found(keyword@)),
            },
    {
        let ghost before = self@;
        match self.find(keyword) {
            Some(i) => {
                let was = self.annotations[i].copied();
                let note = Annotation {
                    keyword: was.keyword,
                    description: match description {
                        Some(d) => owned(d),
                        None => was.description,
                    },
                    keywords: was.keywords,
                    paths: match paths {
                        Some(p) => p,
                        None => was.paths,
                    },
                    tags: match tags {
                        Some(t) => t,
                        None => was.tags,
                    },
                    group: match group {
                        Some(g) => g,
                        None => was.group,
                    },
                    builtin: was.builtin,
                    priority: match priority {
                        Some(p) => p,
                        None => was.priority,
                    },
                    memory_entry_id: was.memory_entry_id,
                    updated_at: now,
                };
                let shown = note.copied();
                self.annotations.set(i, note);
                assert(self@ =~= before.update(i as int, shown@));
                Ok(shown)
            },
            None => Err(said_of(keyword, "' not found")),
        }
    }

    /// Changes what is given of a note now.
    pub fn update(
        &mut self,
        keyword: &str,
        description: Option<&str>,
        paths: Option<Vec<String>>,
        tags: Option<Vec<String>>,
        group: Option<String>,
        priority: Option<i32>,
    ) -> (r: Result<Annotation, String>)
        ensures
            match on(old(self)@, keyword@) {
                Some(a) => r is Ok && r->Ok_0@ == changed(
                    a,
                    text::opt_str(description),
                    opt_list(paths),
                    opt_list(tags),
                    model::opt_view(group),
                    priority,
                    r->Ok_0@.updated_at,
                ) && final(self)@ == old(self)@.update(
                    first_on(old(self)@, keyword@)->Some_0,
                    r->Ok_0@,
                ),
                None => final(self)@ == old(self)@ && model::result_view(r) == Err::<
                    AnnotationModel,
                    Seq<char>,
                >(not_found(keyword@)),
            },
    {
        let now = now_rfc3339();
        self.update_at(keyword, description, paths, tags, group, priority, now)
    }

    /// The notes that marks keep.
    fn keep(&self, marks: &Vec<bool>) -> (r: Vec<Annotation>)
        requires
            marks@.len() == self@.len(),
        ensures
            model::seq_view(r@) == kept(self@, marks@),
    {
        let ghost all = self@;
        let mut out: Vec<Annotation> = Vec::new();
        let mut i: usize = 0;
        assert(model::seq_view(out@) =~= kept(all.take(0), marks@));
        while i < self.annotations.len()
            invariant
                i <= self.annotations@.len(),
                all == self@,
                marks@.len() == all.len(),
                model::seq_view(out@) == kept(all.take(i as int), marks@),
            decreases self.annotations@.len() - i,
        {
            let ghost before = out@;
            assert(all.take(i + 1).drop_last() == all.take(i as int));
            assert(all.take(i + 1).last() == self.annotations@[i as int]@);
            if marks[i] {
                out.push(self.annotations[i].copied());
                assert(model::seq_view(out@) =~= model::seq_view(before).push(all[i as int]));
            }
            i = i + 1;
        }
        assert(all.take(all.len() as int) == all);
        out
    }

    /// Removes the notes on a keyword, but not what came with the program.
    pub fn remove(&mut self, keyword: &str) -> (r: Result<(), String>)
        ensures
            final(self)@ == without(old(self)@, keyword@),
            model::result_view(r) == if without(old(self)@, keyword@).len() == old(self)@.len() {
                Err::<(), Seq<char>>(not_removable(keyword@))
            } else {
                Ok::<(), Seq<char>>(())
            },
    {
        let ghost all = self@;
        let ghost p = |a: AnnotationModel| a.keyword != keyword@ || a.builtin;
        let before: usize = self.annotations.len();
        let mut marks: Vec<bool> = Vec::new();
        let mut i: usize = 0;
        while i < self.annotations.len()
            invariant
                i <= self.annotations@.len(),
                all == self@,
                p == (|a: AnnotationModel| a.keyword != keyword@ || a.builtin),
                marks@.len() == i,
                forall|k: int| 0 <= k < i ==> #[trigger] marks@[k] == p(all[k]),
            decreases self.annotations@.len() - i,
        {
            assert(all[i as int] == self.annotations@[i as int]@);
            let a = &self.annotations[i];
            marks.push(!same_text(a.keyword.as_str(), keyword) || a.builtin);
            i = i + 1;
        }
        let left = self.keep(&marks);
        proof {
            kept_is_filtered(all, marks@, p);
            all.filter_lemma(p);
        }
        if left.len() == before {
            proof {
                filter_of_all(all, p);
            }
            return Err(said_of(keyword, "' not found or is built-in"));
        }
        self.annotations = left;
        Ok(())
    }

    /// All notes.
    pub fn list(&self) -> (r: Vec<Annotation>)
        ensures
            model::seq_view(r@) == self@,
    {
        copy_all(&self.annotations)
    }

    /// The notes that a word finds, whatever its case: those of whose words one
    /// holds it or is held by it.
    pub fn search(&self, keyword: &str) -> (r: Vec<Annotation>)
        ensures
            model::seq_view(r@) == found(self@, keyword@),
    {
        let ghost all = self@;
        let lower = lowercase(keyword);
        let ghost p = |a: AnnotationModel| found_by(a, text::lowercased(keyword@));
        let mut marks: Vec<bool> = Vec::new();
        let mut i: usize = 0;
        while i < self.annotations.len()
            invariant
                i <= self.annotations@.len(),
                all == self@,
                lower@ == text::lowercased(keyword@),
                p == (|a: AnnotationModel| found_by(a, text::lowercased(keyword@))),
                marks@.len() == i,
                forall|k: int| 0 <= k < i ==> #[trigger] marks@[k] == p(all[k]),
            decreases self.annotations@.len() - i,
        {
            assert(all[i as int] == self.annotations@[i as int]@);
            marks.push(is_found_by(&self.annotations[i], lower.as_str()));
            i = i + 1;
        }
        proof {
            kept_is_filtered(all, marks@, p);
        }
        self.keep(&marks)
    }

    /// The notes of a group.
    pub fn list_by_group(&self, group: &str) -> (r: Vec<Annotation>)
        ensures
            model::seq_view(r@) == grouped(self@, group@),
    {
        let ghost all = self@;
        let ghost p = |a: AnnotationModel| a.group == group@;
        let mut marks: Vec<bool> = Vec::new();
        let mut i: usize = 0;
        while i < self.annotations.len()
            invariant
                i <= self.annotations@.len(),
                all == self@,
                p == (|a: AnnotationModel| a.group == group@),
                marks@.len() == i,
                forall|k: int| 0 <= k < i ==> #[trigger] marks@[k] == p(all[k]),
            decreases self.annotations@.len() - i,
        {
            assert(all[i as int] == self.annotations@[i as int]@);
            marks.push(same_text(self.annotations[i].group.as_str(), group));
            i = i + 1;
        }
        proof {
            kept_is_filtered(all, marks@, p);
        }
        self.keep(&marks)
    }

    /// The notes that match what was said, the best first, and at most a few;
    /// `levels` says of each note how its words match, and nothing where they
    /// do not.
    pub fn find_by_keyword(&self, levels: &Vec<Option<i32>>) -> (r: Vec<Annotation>)
        requires
            levels@.len() == self@.len(),
            forall|i: int|
                0 <= i < self@.len() && (#[trigger] levels@[i]) is Some ==> i32::MIN <= score(
                    levels@[i]->Some_0,
                    self@[i].priority,
                ) <= i32::MAX && i32::MIN <= levels@[i]->Some_0 * 100 <= i32::MAX,
        ensures
            model::seq_view(r@) == offered(self@, levels@),
    {
        let ghost all = self@;
        let mut matched: Vec<Scored> = Vec::new();
        let mut i: usize = 0;
        assert(model::seq_view(matched@) =~= scored(all.take(0), levels@));
        while i < self.annotations.len()
            invariant
                i <= self.annotations@.len(),
                all == self@,
                levels@.len() == all.len(),
                forall|k: int|
                    0 <= k < all.len() && (#[trigger] levels@[k]) is Some ==> i32::MIN <= score(
                        levels@[k]->Some_0,
                        all[k].priority,
                    ) <= i32::MAX && i32::MIN <= levels@[k]->Some_0 * 100 <= i32::MAX,
                model::seq_view(matched@) == scored(all.take(i as int), levels@),
            decreases self.annotations@.len() - i,
        {
            let ghost before = matched@;
            assert(all.take(i + 1).drop_last() == all.take(i as int));
            assert(all.take(i + 1).last() == self.annotations@[i as int]@);
            if let Some(level) = levels[i] {
                let note = self.annotations[i].copied();
                let points: i32 = level * 100 + note.priority;
                let one = Scored { note, score: points };
                let ghost v = one@;
                matched.push(one);
                assert(model::seq_view(matched@) =~= model::seq_view(before).push(v));
            }
            i = i + 1;
        }
        assert(all.take(all.len() as int) == all);
        let best = sort(&matched);
        let ghost s = order::sorted::<Scored>(scored(all, levels@));
        assert(model::seq_view(best@) == s);
        let n: usize = if best.len() < MAX_MATCHES {
            best.len()
        } else {
            MAX_MATCHES
        };
        let mut out: Vec<Annotation> = Vec::new();
        let mut k: usize = 0;
        while k < n
            invariant
                k <= n,
                n <= best@.len(),
                out@.len() == k,
                forall|j: int| 0 <= j < k ==> (#[trigger] out@[j])@ == best@[j]@.note,
            decreases n - k,
        {
            out.push(best[k].note.copied());
            k = k + 1;
        }
        proof {
            let want = offered(all, levels@);
            let have = model::seq_view(out@);
            assert forall|j: int| 0 <= j < have.len() implies have[j] == want[j] by {
                assert(out@[j]@ == best@[j]@.note);
                assert(s[j] == best@[j]@);
            }
            assert(have =~= want);
        }
        out
    }

    /// The keywords of all notes.
    pub fn keyword_list(&self) -> (r: Vec<String>)
        ensures
            model::seq_view(r@) == Seq::new(self@.len(), |i: int| self@[i].keyword),
    {
        let mut out: Vec<String> = Vec::new();
        let mut i: usize = 0;
        while i < self.annotations.len()
            invariant
                i <= self.annotations@.len(),
                out@.len() == i,
                forall|k: int| 0 <= k < i ==> (#[trigger] out@[k])@ == self@[k].keyword,
            decreases self.annotations@.len() - i,
        {
            assert(self@[i as int] == self.annotations@[i as int]@);
            out.push(self.annotations[i].keyword.clone());
            i = i + 1;
        }
        assert(model::seq_view(out@) =~= Seq::new(self@.len(), |i: int| self@[i].keyword));
        out
    }

    /// Puts what came with the program back as it was, behind the notes of the
    /// person, and says how many those are.
    pub fn reset_builtins(&mut self, builtins: Vec<Annotation>) -> (r: usize)
        ensures
            final(self)@ == own(old(self)@) + model::seq_view(builtins@),
            r == builtins@.len(),
    {
        let ghost all = self@;
        let ghost p = |a: AnnotationModel| !a.builtin;
        let mut marks: Vec<bool> = Vec::new();
        let mut i: usize = 0;
        while i < self.annotations.len()
            invariant
                i <= self.annotations@.len(),
                all == self@,
                p == (|a: AnnotationModel| !a.builtin),
                marks@.len() == i,
                forall|k: int| 0 <= k < i ==> #[trigger] marks@[k] == p(all[k]),
            decreases self.annotations@.len() - i,
        {
            assert(all[i as int] == self.annotations@[i as int]@);
            marks.push(!self.annotations[i].builtin);
            i = i + 1;
        }
        proof {
            kept_is_filtered(all, marks@, p);
        }
        let mut left = self.keep(&marks);
        let ghost mine = model::seq_view(left@);
        let count: usize = builtins.len();
        let mut k: usize = 0;
        assert(model::seq_view(left@) =~= mine + model::seq_view(builtins@).take(0));
        while k < count
            invariant
                k <= count,
                count == builtins@.len(),
                model::seq_view(left@) == mine + model::seq_view(builtins@).take(k as int),
            decreases count - k,
        {
            let ghost before = left@;
            left.push(builtins[k].copied());
            proof {
                let one = builtins@[k as int]@;
                assert(model::seq_view(left@) =~= model::seq_view(before).push(one));
                assert(model::seq_view(builtins@).take(k + 1) =~= model::seq_view(builtins@).take(
                    k as int,
                ).push(one));
                assert(mine + model::seq_view(builtins@).take(k + 1) =~= (mine + model::seq_view(
                    builtins@,
                ).take(k as int)).push(one));
            }
            k = k + 1;
        }
        assert(model::seq_view(builtins@).take(count as int) =~= model::seq_view(builtins@));
        self.annotations = left;
        count
    }

    /// How many notes there are.
    pub fn count(&self) -> (r: usize)
        ensures
            r == self@.len(),
    {
        self.annotations.len()
    }
}

/// Texts that may be given.
pub open spec fn opt_list(o: Option<Vec<String>>) -> Option<Seq<Seq<char>>> {
    match o {
        Some(v) => Some(model::seq_view(v@)),
        None => None,
    }
}

/// A note with what is given changed.
pub open spec fn changed(
    a: AnnotationModel,
    description: Option<Seq<char>>,
    paths: Option<Seq<Seq<char>>>,
    tags: Option<Seq<Seq<char>>>,
    group: Option<Seq<char>>,
    priority: Option<i32>,
    now: Seq<char>,
) -> AnnotationModel {
    AnnotationModel {
        description: given(description, a.description),
        paths: given(paths, a.paths),
        tags: given(tags, a.tags),
        group: given(group, a.group),
        priority: given(priority, a.priority),
        updated_at: now,
        ..a
    }
}

/// Where a filter leaves as many as there were, it leaves all.
proof fn filter_of_all(s: Seq<AnnotationModel>, p: spec_fn(AnnotationModel) -> bool)
    requires
        s.filter(p).len() == s.len(),
    ensures
        s.filter(p) == s,
    decreases s.len(),
{
    reveal(Seq::filter);
    if s.len() > 0 {
        s.drop_last().filter_lemma(p);
        shorter_after_filter(s.drop_last(), p);
        if p(s.last()) {
            filter_of_all(s.drop_last(), p);
            assert(s.drop_last().push(s.last()) =~= s);
        }
    } else {
        assert(s.filter(p) =~= s);
    }
}

/// A filter adds nothing.
proof fn shorter_after_filter(s: Seq<AnnotationModel>, p: spec_fn(AnnotationModel) -> bool)
    ensures
        s.filter(p).len() <= s.len(),
    decreases s.len(),
{
    reveal(Seq::filter);
    if s.len() > 0 {
        shorter_after_filter(s.drop_last(), p);
    }
}

/// The place of the first note on a keyword is the first one.
proof fn first_is_right(all: Seq<AnnotationModel>, keyword: Seq<char>)
    ensures
        first_on(all, keyword) matches Some(i) ==> 0 <= i < all.len() && all[i].keyword == keyword,
        first_on(all, keyword) is None ==> forall|k: int|
            0 <= k < all.len() ==> (#[trigger] all[k]).keyword != keyword,
    decreases all.len(),
{
    if all.len() > 0 {
        let rest = all.drop_last();
        first_is_right(rest, keyword);
        match first_on(rest, keyword) {
            Some(i) => {
                assert(all[i] == rest[i]);
            },
            None => {
                if all.last().keyword != keyword {
                    assert forall|k: int| 0 <= k < all.len() implies (#[trigger] all[k]).keyword
                        != keyword by {
                        if k < rest.len() {
                            assert(all[k] == rest[k]);
                        }
                    }
                }
            },
        }
    }
}

/// Where keywords have one note each, the first note on a keyword is where it
/// stands.
proof fn only_one(all: Seq<AnnotationModel>, i: int)
    requires
        distinct(all),
        0 <= i < all.len(),
    ensures
        first_on(all, all[i].keyword) == Some(i),
{
    first_is_right(all, all[i].keyword);
    match first_on(all, all[i].keyword) {
        Some(k) => {
            if k < i {
                assert(all[k].keyword != all[i].keyword);
            } else if i < k {
                assert(all[i].keyword != all[k].keyword);
            }
        },
        None => {
            assert(all[i].keyword != all[i].keyword);
        },
    }
}

/// What was noted on a keyword is found under it, notes on other keywords stay
/// as they were, and no keyword gets a second note.
pub proof fn note_is_kept(all: Seq<AnnotationModel>, a: AnnotationModel, other: Seq<char>)
    requires
        distinct(all),
    ensures
        distinct(with_note(all, a)),
        on(with_note(all, a), a.keyword) == Some(a),
        other != a.keyword ==> on(with_note(all, a), other) == on(all, other),
{
    first_is_right(all, a.keyword);
    let n = with_note(all, a);
    let at = match first_on(all, a.keyword) {
        Some(i) => i,
        None => all.len() as int,
    };
    assert(n[at] == a);
    assert forall|i: int, j: int| 0 <= i < j < n.len() implies (#[trigger] n[i]).keyword != (
    #[trigger] n[j]).keyword by {
        if i != at && j != at {
            assert(n[i] == all[i] && n[j] == all[j]);
        } else if i == at {
            assert(n[j] == all[j]);
            match first_on(all, a.keyword) {
                Some(k) => {
                    assert(all[k].keyword != all[j].keyword);
                },
                None => {},
            }
        } else {
            assert(n[i] == all[i]);
            match first_on(all, a.keyword) {
                Some(k) => {
                    assert(all[i].keyword != all[k].keyword);
                },
                None => {
                    assert(all[i].keyword != a.keyword);
                },
            }
        }
    }
    only_one(n, at);
    if other != a.keyword {
        first_is_right(all, other);
        first_is_right(n, other);
        match first_on(all, other) {
            Some(k) => {
                assert(k != at);
                assert(n[k] == all[k]);
                only_one(n, k);
            },
            None => {
                match first_on(n, other) {
                    Some(k) => {
                        assert(k != at);
                        assert(n[k] == all[k]);
                        assert(all[k].keyword != other);
                    },
                    None => {},
                }
            },
        }
    }
}

/// What came with the program cannot be removed, and nothing on another keyword
/// is; what is left on the keyword came with the program.
pub proof fn builtin_notes_stay(all: Seq<AnnotationModel>, keyword: Seq<char>, a: AnnotationModel)
    requires
        all.contains(a),
    ensures
        a.builtin ==> without(all, keyword).contains(a),
        a.keyword != keyword ==> without(all, keyword).contains(a),
        a.keyword == keyword && !a.builtin ==> !without(all, keyword).contains(a),
{
    let p = |a: AnnotationModel| a.keyword != keyword || a.builtin;
    if p(a) {
        all.lemma_filter_contains(p, all.index_of(a));
    }
    let n = without(all, keyword);
    if n.contains(a) {
        let i = n.index_of(a);
        all.lemma_filter_pred(p, i);
    }
}

/// A note is found by its own keyword, and by each of its other words.
pub proof fn note_is_found_by_its_words(a: AnnotationModel, i: int)
    ensures
        found_by(a, text::lowercased(a.keyword)),
        0 <= i < a.keywords.len() ==> found_by(a, text::lowercased(a.keywords[i])),
{
    let l = text::lowercased(a.keyword);
    assert(text::stands_at(l, l, 0)) by {
        assert(l.subrange(0, l.len() as int) =~= l);
    }
    if 0 <= i < a.keywords.len() {
        let m = text::lowercased(a.keywords[i]);
        assert(text::stands_at(m, m, 0)) by {
            assert(m.subrange(0, m.len() as int) =~= m);
        }
        assert(alike(a.keywords[i], m));
    }
}

/// What is offered is little, and the best comes first.
pub proof fn best_notes_come_first(all: Seq<AnnotationModel>, levels: Seq<Option<i32>>)
    ensures
        offered(all, levels).len() <= MAX_MATCHES,
        forall|i: int, j: int|
            0 <= i < j < offered(all, levels).len() ==> (#[trigger] order::sorted::<Scored>(
                scored(all, levels),
            )[i]).score >= (#[trigger] order::sorted::<Scored>(scored(all, levels))[j]).score,
{
    let s = scored(all, levels);
    let t = order::sorted::<Scored>(s);
    order::sorted_is_in_order::<Scored>(s);
    assert forall|i: int, j: int| 0 <= i < j < offered(all, levels).len() implies (#[trigger] t[
        i]).score >= (#[trigger] t[j]).score by {
        assert(!Scored::before(t[j], t[i]));
    }
}

/// Putting back what came with the program keeps each note of the person.
pub proof fn own_notes_survive_reset(
    all: Seq<AnnotationModel>,
    builtins: Seq<AnnotationModel>,
    a: AnnotationModel,
)
    requires
        all.contains(a),
        !a.builtin,
    ensures
        (own(all) + builtins).contains(a),
{
    let p = |a: AnnotationModel| !a.builtin;
    all.lemma_filter_contains(p, all.index_of(a));
    let s = own(all);
    assert(s.contains(a));
    let i = choose|i: int| 0 <= i < s.len() && s[i] == a;
    assert((own(all) + builtins)[i] == a);
}

/// A note is found under its keyword exactly where it stands among the notes.
pub proof fn note_stands_under_its_keyword(all: Seq<AnnotationModel>, a: AnnotationModel)
    requires
        distinct(all),
    ensures
        on(all, a.keyword) == Some(a) <==> all.contains(a),
        on(all, a.keyword) is None <==> forall|i: int|
            0 <= i < all.len() ==> (#[trigger] all[i]).keyword != a.keyword,
{
    first_is_right(all, a.keyword);
    if all.contains(a) {
        only_one(all, all.index_of(a));
    }
    if on(all, a.keyword) is None {
        assert forall|i: int| 0 <= i < all.len() implies (#[trigger] all[i]).keyword != a.keyword by {
            if all[i].keyword == a.keyword {
                only_one(all, i);
            }
        }
    }
}

/// What is noted on a keyword is what was given: its description, its words, its
/// paths and its marks, whether or not the keyword had a note before. What is
/// left out is kept of an older note, or has its usual value in a new one; every
/// other note stays, and there is one more exactly where there was none.
pub proof fn noted_is_what_was_given(
    all: Seq<AnnotationModel>,
    keyword: Seq<char>,
    description: Seq<char>,
    keywords: Seq<Seq<char>>,
    paths: Seq<Seq<char>>,
    tags: Seq<Seq<char>>,
    group: Option<Seq<char>>,
    priority: Option<i32>,
    memory_entry_id: Option<Seq<char>>,
    now: Seq<char>,
    other: Seq<char>,
)
    requires
        distinct(all),
    ensures
        ({
            let was = on(all, keyword);
            let a = noted(
                was,
                keyword,
                description,
                keywords,
                paths,
                tags,
                group,
                priority,
                memory_entry_id,
                now,
            );
            let after = with_note(all, a);
            &&& on(after, keyword) == Some(a)
            &&& a.keyword == keyword
            &&& a.description == description
            &&& a.keywords == keywords
            &&& a.paths == paths
            &&& a.tags == tags
            &&& a.updated_at == now
            &&& group matches Some(g) ==> a.group == g
            &&& priority matches Some(p) ==> a.priority == p
            &&& memory_entry_id is Some ==> a.memory_entry_id == memory_entry_id
            &&& was is None ==> {
                &&& !a.builtin
                &&& group is None ==> a.group == "custom"@
                &&& priority is None ==> a.priority == 0
                &&& memory_entry_id is None ==> a.memory_entry_id is None
                &&& after.len() == all.len() + 1
            }
            &&& was matches Some(w) ==> {
                &&& a.builtin == w.builtin
                &&& group is None ==> a.group == w.group
                &&& priority is None ==> a.priority == w.priority
                &&& memory_entry_id is None ==> a.memory_entry_id == w.memory_entry_id
                &&& after.len() == all.len()
            }
            &&& other != keyword ==> on(after, other) == on(all, other)
            &&& distinct(after)
        }),
{
    first_is_right(all, keyword);
    let a = noted(
        on(all, keyword),
        keyword,
        description,
        keywords,
        paths,
        tags,
        group,
        priority,
        memory_entry_id,
        now,
    );
    note_is_kept(all, a, other);
}

/// A note that is changed takes what is given and keeps what is not; its
/// keyword, its words and where it came from stay.
pub proof fn changed_is_what_was_given(
    a: AnnotationModel,
    description: Option<Seq<char>>,
    paths: Option<Seq<Seq<char>>>,
    tags: Option<Seq<Seq<char>>>,
    group: Option<Seq<char>>,
    priority: Option<i32>,
    now: Seq<char>,
)
    ensures
        ({
            let c = changed(a, description, paths, tags, group, priority, now);
            &&& description matches Some(x) ==> c.description == x
            &&& description is None ==> c.description == a.description
            &&& paths matches Some(x) ==> c.paths == x
            &&& paths is None ==> c.paths == a.paths
            &&& tags matches Some(x) ==> c.tags == x
            &&& tags is None ==> c.tags == a.tags
            &&& group matches Some(x) ==> c.group == x
            &&& group is None ==> c.group == a.group
            &&& priority matches Some(x) ==> c.priority == x
            &&& priority is None ==> c.priority == a.priority
            &&& c.updated_at == now
            &&& c.keyword == a.keyword
            &&& c.keywords == a.keywords
            &&& c.builtin == a.builtin
            &&& c.memory_entry_id == a.memory_entry_id
        }),
{
}

/// A group holds the notes of its name, and no others.
pub proof fn group_holds_its_notes(all: Seq<AnnotationModel>, group: Seq<char>, a: AnnotationModel)
    ensures
        grouped(all, group).contains(a) <==> all.contains(a) && a.group == group,
        own(all).contains(a) <==> all.contains(a) && !a.builtin,
{
    let p = |a: AnnotationModel| a.group == group;
    let q = |a: AnnotationModel| !a.builtin;
    if all.contains(a) && p(a) {
        all.lemma_filter_contains(p, all.index_of(a));
    }
    if grouped(all, group).contains(a) {
        all.lemma_filter_pred(p, grouped(all, group).index_of(a));
        all.lemma_filter_contains_rev(p, a);
    }
    if all.contains(a) && q(a) {
        all.lemma_filter_contains(q, all.index_of(a));
    }
    if own(all).contains(a) {
        all.lemma_filter_pred(q, own(all).index_of(a));
        all.lemma_filter_contains_rev(q, a);
    }
}

/// A search finds the notes one of whose words holds what is searched for, or is
/// held by it, whatever the case, and no others.
pub proof fn search_finds_words_alike(all: Seq<AnnotationModel>, asked: Seq<char>, a: AnnotationModel)
    requires
        all.contains(a),
    ensures
        ({
            let low = text::lowercased(asked);
            found(all, asked).contains(a) <==> {
                ||| text::has_part(text::lowercased(a.keyword), low)
                ||| text::has_part(low, text::lowercased(a.keyword))
                ||| exists|i: int|
                    0 <= i < a.keywords.len() && (text::has_part(
                        text::lowercased(#[trigger] a.keywords[i]),
                        low,
                    ) || text::has_part(low, text::lowercased(a.keywords[i])))
            }
        }),
        forall|b: AnnotationModel| #[trigger] found(all, asked).contains(b) ==> all.contains(b),
{
    let low = text::lowercased(asked);
    let p = |a: AnnotationModel| found_by(a, low);
    if found_by(a, low) {
        all.lemma_filter_contains(p, all.index_of(a));
    }
    if found(all, asked).contains(a) {
        all.lemma_filter_pred(p, found(all, asked).index_of(a));
    }
    assert forall|b: AnnotationModel| #[trigger] found(all, asked).contains(b) implies all.contains(
        b,
    ) by {
        all.lemma_filter_contains_rev(p, b);
    }
}

/// Every note that matches has its score among the scores, and no other has.
proof fn matching_notes_are_scored(all: Seq<AnnotationModel>, levels: Seq<Option<i32>>)
    requires
        all.len() <= levels.len(),
    ensures
        forall|i: int|
            0 <= i < all.len() && (#[trigger] levels[i]) is Some ==> scored(all, levels).contains(
                ScoredModel { note: all[i], score: score(levels[i]->Some_0, all[i].priority) as i32 },
            ),
        forall|k: int|
            0 <= k < scored(all, levels).len() ==> exists|i: int|
                #![trigger levels[i]]
                0 <= i < all.len() && levels[i] is Some && #[trigger] scored(all, levels)[k] == (
                ScoredModel { note: all[i], score: score(levels[i]->Some_0, all[i].priority) as i32 }),
    decreases all.len(),
{
    if all.len() > 0 {
        let short = all.drop_last();
        matching_notes_are_scored(short, levels);
        let rest = scored(short, levels);
        let s = scored(all, levels);
        let n = all.len() - 1;
        assert forall|i: int| 0 <= i < all.len() && (#[trigger] levels[i]) is Some implies s.contains(
            ScoredModel { note: all[i], score: score(levels[i]->Some_0, all[i].priority) as i32 },
        ) by {
            let one = ScoredModel {
                note: all[i],
                score: score(levels[i]->Some_0, all[i].priority) as i32,
            };
            if i < n {
                assert(short[i] == all[i]);
                assert(rest.contains(one));
                let k = rest.index_of(one);
                assert(s[k] == rest[k]);
            } else {
                assert(s[s.len() - 1] == one);
            }
        }
        assert forall|k: int| 0 <= k < s.len() implies exists|i: int|
            #![trigger levels[i]]
            0 <= i < all.len() && levels[i] is Some && #[trigger] s[k] == (ScoredModel {
                note: all[i],
                score: score(levels[i]->Some_0, all[i].priority) as i32,
            }) by {
            if k < rest.len() {
                assert(s[k] == rest[k]);
                let i = choose|i: int|
                    #![trigger levels[i]]
                    0 <= i < short.len() && levels[i] is Some && rest[k] == (ScoredModel {
                        note: short[i],
                        score: score(levels[i]->Some_0, short[i].priority) as i32,
                    });
                assert(short[i] == all[i]);
                assert(levels[i] is Some);
            } else {
                assert(levels[n] is Some);
            }
        }
    }
}

/// Of the notes that match, the best is offered first: none that matches counts
/// for more, by a hundred times how well its words match and then its priority.
/// Where any matches, at least one is offered, and never more than eight.
pub proof fn best_match_is_offered_first(
    all: Seq<AnnotationModel>,
    levels: Seq<Option<i32>>,
    i: int,
)
    requires
        all.len() == levels.len(),
        0 <= i < all.len(),
        levels[i] is Some,
        forall|k: int|
            0 <= k < all.len() && (#[trigger] levels[k]) is Some ==> i32::MIN <= levels[k]->Some_0
                * 100 + all[k].priority <= i32::MAX,
    ensures
        0 < offered(all, levels).len() <= 8,
        exists|b: int|
            0 <= b < all.len() && (#[trigger] levels[b]) is Some && offered(all, levels)[0] == all[b]
                && levels[b]->Some_0 * 100 + all[b].priority >= levels[i]->Some_0 * 100
                + all[i].priority,
{
    let s = scored(all, levels);
    let t = order::sorted::<Scored>(s);
    matching_notes_are_scored(all, levels);
    order::sorted_is_in_order::<Scored>(s);
    let own = ScoredModel { note: all[i], score: score(levels[i]->Some_0, all[i].priority) as i32 };
    order::sorting_holds_the_same::<Scored>(s, own);
    let at = t.index_of(own);
    if at > 0 {
        assert(!Scored::before(t[at], t[0]));
    }
    assert(t[0].score >= own.score);
    order::sorting_holds_the_same::<Scored>(s, t[0]);
    assert(t.contains(t[0]));
    let k = s.index_of(t[0]);
    let b = choose|b: int|
        #![trigger levels[b]]
        0 <= b < all.len() && levels[b] is Some && s[k] == (ScoredModel {
            note: all[b],
            score: score(levels[b]->Some_0, all[b].priority) as i32,
        });
    assert(levels[b] is Some);
    assert(offered(all, levels)[0] == all[b]);
}

} // verus!
