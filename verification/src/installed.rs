//! What is installed: the bounded walks over start menus and application
//! folders, and what their entries say.
use vstd::prelude::*;
use vstd::string::*;

use crate::hashing;
use crate::hashing::tagged_digest;
use crate::model;
use crate::targets::{Application, ApplicationModel};
use crate::text;
use crate::text::{chars_of, ends_with, eq_ignore_ascii_case, lowercase, owned, same_text, signed_decimal, span};
use crate::uia_tree;

verus! {

/// The part of some words before the first zero; all of them where there is
/// none.
pub open spec fn until_zero<T>(s: Seq<T>, zero: T) -> Seq<T>
    decreases s.len(),
{
    if s.len() == 0 {
        s
    } else {
        let before = until_zero(s.drop_last(), zero);
        if before.len() < s.len() - 1 || s.last() == zero {
            before
        } else {
            s
        }
    }
}

/// Whether a UTF-16 word is the first of a pair.
pub open spec fn leads(word: u16) -> bool {
    0xD800 <= word < 0xDC00
}

/// Whether a UTF-16 word is the second of a pair.
pub open spec fn trails(word: u16) -> bool {
    0xDC00 <= word < 0xE000
}

/// The text of UTF-16 words: a word by itself is its character, a pair stands
/// for one beyond the first plane, and a word of a pair without the other is
/// replaced by a mark.
pub open spec fn utf16_text(words: Seq<u16>) -> Seq<char>
    decreases words.len(),
{
    if words.len() == 0 {
        Seq::empty()
    } else if !leads(words[0]) && !trails(words[0]) {
        seq![words[0] as char] + utf16_text(words.skip(1))
    } else if leads(words[0]) && words.len() > 1 && trails(words[1]) {
        seq![(0x10000 + (words[0] - 0xD800) * 0x400 + (words[1] - 0xDC00)) as char] + utf16_text(
            words.skip(2),
        )
    } else {
        seq!['\u{FFFD}'] + utf16_text(words.skip(1))
    }
}

/// `String::from_utf16_lossy`: the text that the words encode, with the
/// replacement character in place of each unpaired surrogate.
#[verifier::external_body]
fn from_utf16(words: &Vec<u16>) -> (r: String)
    ensures
        r@ == utf16_text(words@),
{
    String::from_utf16_lossy(words)
}

/// The text of UTF-16 words up to the first zero.
pub fn string(value: &Vec<u16>) -> (r: String)
    ensures
        r@ == utf16_text(until_zero(value@, 0)),
{
    let mut kept: Vec<u16> = Vec::new();
    let mut i: usize = 0;
    assert(kept@ =~= until_zero(value@.take(0), 0));
    while i < value.len()
        invariant
            i <= value@.len(),
            kept@ == value@.take(i as int),
            kept@ == until_zero(value@.take(i as int), 0),
        decreases value@.len() - i,
    {
        proof {
            assert(value@.take(i + 1).drop_last() == value@.take(i as int));
        }
        if value[i] == 0 {
            proof {
                zero_ends_it(value@, 0, i + 1);
            }
            return from_utf16(&kept);
        }
        kept.push(value[i]);
        i = i + 1;
        assert(kept@ =~= value@.take(i as int));
    }
    assert(value@.take(value@.len() as int) == value@);
    from_utf16(&kept)
}

/// Nothing counts behind the first zero.
proof fn zero_ends_it<T>(s: Seq<T>, zero: T, n: int)
    requires
        0 <= n <= s.len(),
        until_zero(s.take(n), zero).len() < n,
    ensures
        until_zero(s, zero) == until_zero(s.take(n), zero),
    decreases s.len() - n,
{
    if n < s.len() {
        assert(s.take(n + 1).drop_last() == s.take(n));
        zero_ends_it(s, zero, n + 1);
    } else {
        assert(s.take(n) == s);
    }
}

/// `String::from_utf8`: the text that bytes encode, where they do.
#[verifier::external_body]
fn from_utf8(bytes: Vec<u8>) -> (r: Option<String>)
    ensures
        match r {
            Some(s) => vstd::utf8::valid_utf8(bytes@) && s@ == vstd::utf8::decode_utf8(bytes@),
            None => !vstd::utf8::valid_utf8(bytes@),
        },
{
    String::from_utf8(bytes).ok()
}

/// The text of bytes that end with a zero; none where they do not, where they
/// encode nothing, and where the text is empty.
pub fn zero_ended_text(bytes: &Vec<u8>) -> (r: Option<String>)
    ensures
        ({
            let kept = until_zero(bytes@, 0);
            if kept.len() == bytes@.len() || !vstd::utf8::valid_utf8(kept)
                || vstd::utf8::decode_utf8(kept).len() == 0 {
                r is None
            } else {
                r matches Some(s) && s@ == vstd::utf8::decode_utf8(kept)
            }
        }),
{
    let mut kept: Vec<u8> = Vec::new();
    let mut i: usize = 0;
    assert(kept@ =~= until_zero(bytes@.take(0), 0));
    while i < bytes.len()
        invariant
            i <= bytes@.len(),
            kept@ == bytes@.take(i as int),
            kept@ == until_zero(bytes@.take(i as int), 0),
        decreases bytes@.len() - i,
    {
        proof {
            assert(bytes@.take(i + 1).drop_last() == bytes@.take(i as int));
        }
        if bytes[i] == 0 {
            proof {
                zero_ends_it(bytes@, 0, i + 1);
            }
            return match from_utf8(kept) {
                Some(s) => if s.as_str().is_empty() {
                    None
                } else {
                    Some(s)
                },
                None => None,
            };
        }
        kept.push(bytes[i]);
        i = i + 1;
        assert(kept@ =~= bytes@.take(i as int));
    }
    assert(bytes@.take(bytes@.len() as int) == bytes@);
    None
}

/// The application of an executable, by its path and the path's extension.
pub open spec fn executable(
    path: Seq<char>,
    extension: Option<Seq<char>>,
    name: Seq<char>,
    launch_path: Option<Seq<char>>,
) -> Option<ApplicationModel> {
    if extension is Some && text::same_ascii(extension->Some_0, "exe"@) {
        Some(
            ApplicationModel {
                app_id: hashing::tagged(
                    "windows-app:"@,
                    "process|"@ + text::lowercased(path),
                ),
                name,
                launch_path,
            },
        )
    } else {
        None
    }
}

/// The application of an executable; none where the path is another kind of
/// file.
pub fn app(path: &str, extension: Option<&str>, name: String, launch_path: Option<String>) -> (r:
    Option<Application>)
    ensures
        model::opt_view(r) == executable(
            path@,
            text::opt_str(extension),
            name@,
            model::opt_view(launch_path),
        ),
{
    let fits = match extension {
        Some(e) => eq_ignore_ascii_case(e, "exe"),
        None => false,
    };
    if !fits {
        return None;
    }
    let mut seed = owned("process|");
    seed.append(lowercase(path).as_str());
    Some(Application { app_id: tagged_digest("windows-app:", seed.as_str()), name, launch_path })
}

/// An executable has the same id in the catalog and in the automation of its
/// windows, whatever their framework and class.
pub proof fn catalog_and_automation_agree(
    path: Seq<char>,
    name: Seq<char>,
    framework: Option<Seq<char>>,
    window_class: Seq<char>,
)
    requires
        text::lowercased(path).len() > 0,
    ensures
        executable(path, Some("exe"@), name, None) matches Some(app) && app.app_id
            == hashing::tagged(
            "windows-app:"@,
            uia_tree::identity_seed(framework, window_class, text::lowercased(path)),
        ),
{
    reveal_strlit("exe");
}

/// A text without a character at its ends.
pub open spec fn without_ends(s: Seq<char>, c: char) -> Seq<char>
    decreases s.len(),
{
    if s.len() == 0 {
        s
    } else if s[0] == c {
        without_ends(s.drop_first(), c)
    } else if s.last() == c {
        without_ends(s.drop_last(), c)
    } else {
        s
    }
}

/// A path without the quotation marks around it.
pub fn unquoted(s: &str) -> (r: String)
    ensures
        r@ == without_ends(s@, '"'),
{
    let x = chars_of(s);
    let mut from: usize = 0;
    let mut to: usize = x.len();
    assert(s@.subrange(0, s@.len() as int) == s@);
    while from < to && x[from] == '"'
        invariant
            from <= to == x@.len(),
            x@ == s@,
            without_ends(s@, '"') == without_ends(s@.subrange(from as int, to as int), '"'),
        decreases to - from,
    {
        assert(s@.subrange(from as int, to as int).drop_first() == s@.subrange(
            from + 1,
            to as int,
        ));
        from = from + 1;
    }
    while from < to && x[to - 1] == '"'
        invariant
            from <= to <= x@.len(),
            x@ == s@,
            from < to ==> s@[from as int] != '"',
            without_ends(s@, '"') == without_ends(s@.subrange(from as int, to as int), '"'),
        decreases to - from,
    {
        assert(s@.subrange(from as int, to as int).drop_last() == s@.subrange(
            from as int,
            to - 1,
        ));
        to = to - 1;
    }
    span(&x, from, to)
}

/// A name without its endings of a kind.
pub open spec fn without_endings(s: Seq<char>, ending: Seq<char>) -> Seq<char>
    decreases s.len(),
{
    if ending.len() > 0 && text::finishes(s, ending) {
        without_endings(s.take(s.len() - ending.len()), ending)
    } else {
        s
    }
}

/// The name of a registered program without its ending.
pub fn program_name(name: &str) -> (r: String)
    ensures
        r@ == without_endings(name@, ".exe"@),
{
    let mut rest = owned(name);
    proof {
        reveal_strlit(".exe");
    }
    while ends_with(rest.as_str(), ".exe")
        invariant
            ".exe"@.len() == 4,
            without_endings(name@, ".exe"@) == without_endings(rest@, ".exe"@),
        decreases rest@.len(),
    {
        let x = chars_of(rest.as_str());
        let n: usize = x.len() - 4;
        let shorter = span(&x, 0, n);
        assert(shorter@ =~= rest@.take(rest@.len() - 4));
        rest = shorter;
    }
    rest
}

/// The name of a bundle: the one that is shown, else its own, else that of its
/// file.
pub fn bundle_name(display: Option<String>, name: Option<String>, stem: String) -> (r: String)
    ensures
        r@ == match model::opt_view(display) {
            Some(s) => s,
            None => match model::opt_view(name) {
                Some(s) => s,
                None => stem@,
            },
        },
{
    match display {
        Some(s) => s,
        None => match name {
            Some(s) => s,
            None => stem,
        },
    }
}

/// What the system's answer to a launch means.
pub fn launch_outcome(code: i64) -> (r: Result<(), String>)
    ensures
        match r {
            Ok(_) => code > 32,
            Err(e) => code <= 32 && e@ == "Native application launch failed ("@
                + text::signed_text(code as int) + ")"@,
        },
{
    if code <= 32 {
        let mut out = owned("Native application launch failed (");
        out.append(signed_decimal(code).as_str());
        out.append(")");
        Err(out)
    } else {
        Ok(())
    }
}

/// Whose folders are walked.
#[derive(Debug, Clone, Copy, PartialEq, Eq, Structural)]
pub enum CatalogHost {
    /// Start menus: links are taken.
    Windows,
    /// Application folders: bundles are taken.
    Macos,
}

impl CatalogHost {
    /// How many entries are looked at.
    pub open spec fn entry_limit(self) -> usize {
        match self {
            CatalogHost::Windows => 4096,
            CatalogHost::Macos => 2048,
        }
    }

    /// How deep the walk goes.
    pub open spec fn depth_limit(self) -> usize {
        match self {
            CatalogHost::Windows => 6,
            CatalogHost::Macos => 3,
        }
    }

    /// How many entries are looked at.
    fn entries(self) -> (r: usize)
        ensures
            r == self.entry_limit(),
    {
        match self {
            CatalogHost::Windows => 4096,
            CatalogHost::Macos => 2048,
        }
    }

    /// How deep the walk goes.
    fn depth(self) -> (r: usize)
        ensures
            r == self.depth_limit(),
    {
        match self {
            CatalogHost::Windows => 6,
            CatalogHost::Macos => 3,
        }
    }
}

/// A folder that is to be read.
#[derive(Debug, Clone, Copy, PartialEq, Eq, Structural)]
pub struct Folder {
    pub id: u64,
    pub depth: usize,
}

/// What an entry of a folder is.
#[derive(Debug, Clone, Copy, PartialEq, Eq, Structural)]
pub enum EntryKind {
    Folder,
    File,
    Other,
    /// The system does not say.
    Unreadable,
}

/// What is done about an entry.
#[derive(Debug, Clone, Copy, PartialEq, Eq, Structural)]
pub enum EntryStep {
    /// Stop reading the folder.
    Stop,
    /// Nothing.
    Skip,
    /// Take it into the catalog.
    Take,
    /// Read it later.
    Enter,
}

/// A walk over folders.
pub struct CatalogWalk {
    pub host: CatalogHost,
    pub pending: Vec<Folder>,
    pub visited: usize,
}

/// Whether the ending of a name is the one that is looked for: that of a
/// shortcut, in any case, or that of an application bundle.
pub open spec fn wanted_ending(host: CatalogHost, ending: Option<Seq<char>>) -> bool {
    match (host, ending) {
        (CatalogHost::Windows, Some(e)) => text::same_ascii(e, "lnk"@),
        (CatalogHost::Macos, Some(e)) => e == "app"@,
        _ => false,
    }
}

/// Whether the ending of a name is the one that is looked for.
pub fn is_wanted(host: CatalogHost, ending: Option<&str>) -> (r: bool)
    ensures
        r == wanted_ending(host, text::opt_str(ending)),
{
    match ending {
        Some(e) => match host {
            CatalogHost::Windows => eq_ignore_ascii_case(e, "lnk"),
            CatalogHost::Macos => same_text(e, "app"),
        },
        None => false,
    }
}

/// Why an entry of the catalog can no longer be launched, where it cannot: a
/// program has to be a file, and an application bundle a folder with its ending.
pub open spec fn launch_barrier(
    host: CatalogHost,
    kind: EntryKind,
    ending: Option<Seq<char>>,
) -> Option<Seq<char>> {
    match host {
        CatalogHost::Windows => if kind == EntryKind::File {
            None
        } else {
            Some("Catalog launch entry no longer exists"@)
        },
        CatalogHost::Macos => if kind == EntryKind::Folder && wanted_ending(host, ending) {
            None
        } else {
            Some("Catalog application bundle is no longer available"@)
        },
    }
}

/// Why an entry of the catalog can no longer be launched, where it cannot.
pub fn launch_refusal(host: CatalogHost, kind: EntryKind, ending: Option<&str>) -> (r: Option<
    String,
>)
    ensures
        model::opt_view(r) == launch_barrier(host, kind, text::opt_str(ending)),
{
    match host {
        CatalogHost::Windows => match kind {
            EntryKind::File => None,
            _ => Some(owned("Catalog launch entry no longer exists")),
        },
        CatalogHost::Macos => match kind {
            EntryKind::Folder if is_wanted(host, ending) => None,
            _ => Some(owned("Catalog application bundle is no longer available")),
        },
    }
}

/// What is done about an entry below a depth.
pub open spec fn entry_step(
    host: CatalogHost,
    depth: usize,
    kind: EntryKind,
    ending: Option<Seq<char>>,
) -> EntryStep {
    let taken = wanted_ending(host, ending);
    match host {
        CatalogHost::Windows => if kind == EntryKind::Folder && depth < host.depth_limit() {
            EntryStep::Enter
        } else if kind == EntryKind::File && taken {
            EntryStep::Take
        } else {
            EntryStep::Skip
        },
        CatalogHost::Macos => if kind != EntryKind::Folder {
            EntryStep::Skip
        } else if taken {
            EntryStep::Take
        } else if depth < host.depth_limit() {
            EntryStep::Enter
        } else {
            EntryStep::Skip
        },
    }
}

impl CatalogWalk {
    /// What holds of every walk: a bounded number of entries was looked at, and
    /// no folder that waits lies too deep.
    pub open spec fn wf(self) -> bool {
        &&& self.visited <= self.host.entry_limit() + 1
        &&& forall|i: int|
            0 <= i < self.pending@.len() ==> (#[trigger] self.pending@[i]).depth
                <= self.host.depth_limit()
    }

    /// A walk from some folders.
    pub fn begin(host: CatalogHost, roots: &Vec<u64>) -> (r: CatalogWalk)
        ensures
            r.wf(),
            r.host == host,
            r.visited == 0,
            r.pending@ == Seq::new(roots@.len(), |i: int| Folder { id: roots@[i], depth: 0 }),
    {
        let mut pending: Vec<Folder> = Vec::new();
        let mut i: usize = 0;
        while i < roots.len()
            invariant
                i <= roots@.len(),
                pending@.len() == i,
                forall|k: int|
                    0 <= k < i ==> #[trigger] pending@[k] == (Folder { id: roots@[k], depth: 0 }),
            decreases roots@.len() - i,
        {
            pending.push(Folder { id: roots[i], depth: 0 });
            i = i + 1;
        }
        assert(pending@ =~= Seq::new(roots@.len(), |i: int| Folder { id: roots@[i], depth: 0 }));
        CatalogWalk { host, pending, visited: 0 }
    }

    /// The next folder to read: the latest that waits, unless enough entries
    /// were looked at.
    pub fn next(&mut self) -> (r: Option<Folder>)
        requires
            old(self).wf(),
        ensures
            final(self).wf(),
            final(self).host == old(self).host,
            final(self).visited == old(self).visited,
            if old(self).pending@.len() == 0 {
                r is None && final(self).pending@ == old(self).pending@
            } else {
                &&& final(self).pending@ == old(self).pending@.drop_last()
                &&& r == if old(self).visited >= old(self).host.entry_limit() {
                    None
                } else {
                    Some(old(self).pending@.last())
                }
            },
            r matches Some(f) ==> f.depth <= old(self).host.depth_limit() && final(self).visited
                < final(self).host.entry_limit(),
    {
        let ghost before = self.pending@;
        match self.pending.pop() {
            None => None,
            Some(f) => {
                assert(self.pending@ =~= before.drop_last());
                assert(f == before[before.len() - 1]);
                if self.visited >= self.host.entries() {
                    None
                } else {
                    Some(f)
                }
            },
        }
    }

    /// Takes in an entry of a folder, and says what is done about it.
    pub fn entry(&mut self, folder: Folder, kind: EntryKind, ending: Option<&str>, id: u64) -> (r:
        EntryStep)
        requires
            old(self).wf(),
            old(self).visited <= old(self).host.entry_limit(),
        ensures
            final(self).wf(),
            final(self).host == old(self).host,
            final(self).visited == old(self).visited + 1,
            if final(self).visited > old(self).host.entry_limit() {
                r == EntryStep::Stop && final(self).pending@ == old(self).pending@
            } else {
                &&& r == entry_step(
                    old(self).host,
                    folder.depth,
                    kind,
                    text::opt_str(ending),
                )
                &&& final(self).pending@ == if r == EntryStep::Enter {
                    old(self).pending@.push(
                        Folder { id, depth: (folder.depth + 1) as usize },
                    )
                } else {
                    old(self).pending@
                }
            },
    {
        self.visited = self.visited + 1;
        if self.visited > self.host.entries() {
            return EntryStep::Stop;
        }
        let taken = is_wanted(self.host, ending);
        let is_folder = match kind {
            EntryKind::Folder => true,
            _ => false,
        };
        let is_file = match kind {
            EntryKind::File => true,
            _ => false,
        };
        let step = match self.host {
            CatalogHost::Windows => if is_folder && folder.depth < self.host.depth() {
                EntryStep::Enter
            } else if is_file && taken {
                EntryStep::Take
            } else {
                EntryStep::Skip
            },
            CatalogHost::Macos => if !is_folder {
                EntryStep::Skip
            } else if taken {
                EntryStep::Take
            } else if folder.depth < self.host.depth() {
                EntryStep::Enter
            } else {
                EntryStep::Skip
            },
        };
        match step {
            EntryStep::Enter => {
                let ghost before = self.pending@;
                self.pending.push(Folder { id, depth: folder.depth + 1 });
                assert forall|i: int| 0 <= i < self.pending@.len() implies (
                #[trigger] self.pending@[i]).depth <= self.host.depth_limit() by {
                    if i < before.len() {
                        assert(self.pending@[i] == before[i]);
                    }
                }
            },
            _ => {},
        }
        step
    }
}

/// How many keys of one place of the registry are looked at.
pub const REGISTRY_KEYS: u32 = 2048;

/// A place of the registry where applications are named.
#[derive(Debug, Clone, Copy, PartialEq, Eq, Structural)]
pub struct RegistryPlace {
    /// Of the machine rather than of the user.
    pub machine: bool,
    /// As 32-bit rather than 64-bit programs see it.
    pub narrow: bool,
}

/// The next piece of work of a walk over the registry.
#[derive(Debug, Clone, Copy, PartialEq, Eq, Structural)]
pub enum RegistryStep {
    /// Open a place.
    Open(RegistryPlace),
    /// Read the key of a place at an index.
    Key(RegistryPlace, u32),
    /// Nothing.
    Over,
}

/// The place behind another: the user's before the machine's, and of each what
/// 64-bit programs see first.
pub open spec fn place_after(p: RegistryPlace) -> RegistryStep {
    if !p.narrow {
        RegistryStep::Open(RegistryPlace { machine: p.machine, narrow: true })
    } else if !p.machine {
        RegistryStep::Open(RegistryPlace { machine: true, narrow: false })
    } else {
        RegistryStep::Over
    }
}

/// The step after another that succeeded or failed: a place that opens is read
/// from its first key on, up to the first that cannot be read and to a bound.
pub open spec fn registry_step(s: RegistryStep, succeeded: bool) -> RegistryStep {
    match s {
        RegistryStep::Open(p) => if succeeded {
            RegistryStep::Key(p, 0)
        } else {
            place_after(p)
        },
        RegistryStep::Key(p, i) => if succeeded && i + 1 < REGISTRY_KEYS {
            RegistryStep::Key(p, (i + 1) as u32)
        } else {
            place_after(p)
        },
        RegistryStep::Over => RegistryStep::Over,
    }
}

impl RegistryStep {
    /// What holds of every step of a walk.
    pub open spec fn wf(self) -> bool {
        self matches RegistryStep::Key(_, i) ==> i < REGISTRY_KEYS
    }

    /// How many places are not yet done with.
    pub open spec fn places_left(self) -> int {
        match self {
            RegistryStep::Open(p) | RegistryStep::Key(p, _) => (if p.machine {
                0int
            } else {
                2
            }) + (if p.narrow {
                0int
            } else {
                1
            }) + 1,
            RegistryStep::Over => 0,
        }
    }

    /// How many steps a walk may still take.
    pub open spec fn steps_left(self) -> int {
        self.places_left() * (REGISTRY_KEYS + 1) - match self {
            RegistryStep::Key(_, i) => i + 1,
            _ => 0,
        }
    }

    /// The first step of a walk.
    pub fn first() -> (r: RegistryStep)
        ensures
            r == RegistryStep::Open(RegistryPlace { machine: false, narrow: false }),
            r.wf(),
    {
        RegistryStep::Open(RegistryPlace { machine: false, narrow: false })
    }

    /// The step after this one.
    pub fn after(self, succeeded: bool) -> (r: RegistryStep)
        requires
            self.wf(),
        ensures
            r == registry_step(self, succeeded),
            r.wf(),
    {
        let place = match self {
            RegistryStep::Open(p) => {
                if succeeded {
                    return RegistryStep::Key(p, 0);
                }
                p
            },
            RegistryStep::Key(p, i) => {
                if succeeded && i + 1 < REGISTRY_KEYS {
                    return RegistryStep::Key(p, i + 1);
                }
                p
            },
            RegistryStep::Over => {
                return RegistryStep::Over;
            },
        };
        if !place.narrow {
            RegistryStep::Open(RegistryPlace { machine: place.machine, narrow: true })
        } else if !place.machine {
            RegistryStep::Open(RegistryPlace { machine: true, narrow: false })
        } else {
            RegistryStep::Over
        }
    }
}

/// A walk over the registry ends: each step leaves fewer to take, and no place
/// has more keys looked at than the bound.
pub proof fn registry_walk_ends(s: RegistryStep, succeeded: bool)
    requires
        s.wf(),
        s != RegistryStep::Over,
    ensures
        0 <= registry_step(s, succeeded).steps_left() < s.steps_left(),
        registry_step(s, succeeded).wf(),
{
}

/// What stands before the first zero is taken, and everything where there is none.
pub proof fn text_ends_at_the_first_zero<T>(a: Seq<T>, zero: T, b: Seq<T>)
    requires
        !a.contains(zero),
    ensures
        until_zero(a, zero) == a,
        until_zero(a.push(zero) + b, zero) == a,
    decreases a.len() + b.len(),
{
    if a.len() > 0 {
        let short = a.drop_last();
        assert(!short.contains(zero)) by {
            if short.contains(zero) {
                let i = choose|i: int| 0 <= i < short.len() && short[i] == zero;
                assert(a[i] == zero);
            }
        }
        text_ends_at_the_first_zero(short, zero, Seq::empty());
        assert(a.contains(a[a.len() - 1]));
    }
    let all = a.push(zero) + b;
    if b.len() == 0 {
        assert(all =~= a.push(zero));
        assert(all.drop_last() =~= a);
        assert(all.last() == zero);
    } else {
        text_ends_at_the_first_zero(a, zero, b.drop_last());
        assert(all.drop_last() =~= a.push(zero) + b.drop_last());
        assert(all.last() == b.last());
    }
}

/// A character of the first plane is its own word; any other is read from the two
/// words that it is written in; and half of such a pair is read as the mark for
/// what cannot be read.
pub proof fn words_are_read_as_characters(w: u16, c: u32, rest: Seq<u16>)
    requires
        0x10000 <= c <= 0x10FFFF,
    ensures
        w < 0xD800 || w >= 0xE000 ==> utf16_text(seq![w] + rest) == seq![w as char] + utf16_text(
            rest,
        ),
        utf16_text(
            seq![
                (0xD800 + (c - 0x10000) / 0x400) as u16,
                (0xDC00 + (c - 0x10000) % 0x400) as u16,
            ] + rest,
        ) == seq![c as char] + utf16_text(rest),
        0xDC00 <= w < 0xE000 ==> utf16_text(seq![w] + rest) == seq!['\u{FFFD}'] + utf16_text(rest),
        0xD800 <= w < 0xDC00 && (rest.len() == 0 || rest[0] < 0xDC00 || rest[0] >= 0xE000)
            ==> utf16_text(seq![w] + rest) == seq!['\u{FFFD}'] + utf16_text(rest),
        utf16_text(Seq::empty()) == Seq::<char>::empty(),
{
    let one = seq![w] + rest;
    assert(one.skip(1) =~= rest);
    assert(one[0] == w);
    if rest.len() > 0 {
        assert(one[1] == rest[0]);
    }
    let n = c - 0x10000;
    let h = (0xD800 + n / 0x400) as u16;
    let l = (0xDC00 + n % 0x400) as u16;
    assert(0 <= n / 0x400 < 0x400);
    let pair = seq![h, l] + rest;
    assert(pair.skip(2) =~= rest);
    assert(pair[0] == h && pair[1] == l);
    assert(leads(h) && trails(l));
    assert(0x10000 + (h - 0xD800) * 0x400 + (l - 0xDC00) == c);
}

/// A program is one by its ending, in whatever letters; it is known by its path,
/// and keeps its name and where it is started from.
pub proof fn programs_are_known_by_their_ending(
    path: Seq<char>,
    extension: Option<Seq<char>>,
    name: Seq<char>,
    launch_path: Option<Seq<char>>,
)
    ensures
        executable(path, extension, name, launch_path) is Some <==> extension is Some
            && text::same_ascii(extension->Some_0, "exe"@),
        executable(path, extension, name, launch_path) matches Some(a) ==> a.name == name
            && a.launch_path == launch_path && a.app_id == hashing::tagged(
            "windows-app:"@,
            "process|"@ + text::lowercased(path),
        ),
{
}

/// Taking a character off both ends takes nothing else: what is left stands in
/// the text, has the character at neither end, and all that was taken is it.
pub proof fn only_the_ends_are_taken_off(s: Seq<char>, c: char) -> (r: (int, int))
    ensures
        0 <= r.0 <= r.1 <= s.len(),
        without_ends(s, c) == s.subrange(r.0, r.1),
        forall|i: int| 0 <= i < r.0 || r.1 <= i < s.len() ==> #[trigger] s[i] == c,
        without_ends(s, c).len() > 0 ==> without_ends(s, c)[0] != c && without_ends(s, c).last()
            != c,
    decreases s.len(),
{
    if s.len() == 0 {
        assert(s.subrange(0, 0) =~= s);
        (0, 0)
    } else if s[0] == c {
        let t = s.drop_first();
        let p = only_the_ends_are_taken_off(t, c);
        assert(t.subrange(p.0, p.1) =~= s.subrange(p.0 + 1, p.1 + 1));
        assert forall|i: int| 0 <= i < p.0 + 1 || p.1 + 1 <= i < s.len() implies #[trigger] s[i]
            == c by {
            if i > 0 {
                assert(t[i - 1] == s[i]);
            }
        }
        (p.0 + 1, p.1 + 1)
    } else if s.last() == c {
        let t = s.drop_last();
        let p = only_the_ends_are_taken_off(t, c);
        assert(t.subrange(p.0, p.1) =~= s.subrange(p.0, p.1));
        assert forall|i: int| 0 <= i < p.0 || p.1 <= i < s.len() implies #[trigger] s[i] == c by {
            if i < t.len() {
                assert(t[i] == s[i]);
            }
        }
        p
    } else {
        assert(s.subrange(0, s.len() as int) =~= s);
        (0, s.len() as int)
    }
}

/// An ending is taken off as often as it stands there, and nothing else is.
pub proof fn endings_are_taken_off(s: Seq<char>, ending: Seq<char>)
    requires
        ending.len() > 0,
    ensures
        without_endings(s + ending, ending) == without_endings(s, ending),
        !text::finishes(s, ending) ==> without_endings(s, ending) == s,
        !text::finishes(without_endings(s, ending), ending),
        without_endings(s, ending).is_prefix_of(s),
    decreases s.len(),
{
    let all = s + ending;
    assert(all.take(all.len() - ending.len()) =~= s);
    assert(all.skip(all.len() - ending.len()) =~= ending);
    assert(text::finishes(all, ending));
    if text::finishes(s, ending) {
        let t = s.take(s.len() - ending.len());
        endings_are_taken_off(t, ending);
    }
}

/// What a catalog takes in: shortcuts on Windows, six folders deep; application
/// bundles on the Mac, three deep, and nothing within them.
pub proof fn catalogs_take_what_starts_a_program(
    depth: usize,
    kind: EntryKind,
    ending: Option<Seq<char>>,
    e: Seq<char>,
)
    ensures
        CatalogHost::Windows.entry_limit() == 4096 && CatalogHost::Windows.depth_limit() == 6,
        CatalogHost::Macos.entry_limit() == 2048 && CatalogHost::Macos.depth_limit() == 3,
        wanted_ending(CatalogHost::Windows, Some(e)) <==> text::same_ascii(e, "lnk"@),
        wanted_ending(CatalogHost::Macos, Some(e)) <==> e == "app"@,
        !wanted_ending(CatalogHost::Windows, None) && !wanted_ending(CatalogHost::Macos, None),
        entry_step(CatalogHost::Windows, depth, kind, ending) == EntryStep::Take <==> kind
            == EntryKind::File && wanted_ending(CatalogHost::Windows, ending),
        entry_step(CatalogHost::Windows, depth, kind, ending) == EntryStep::Enter <==> kind
            == EntryKind::Folder && depth < 6,
        entry_step(CatalogHost::Macos, depth, kind, ending) == EntryStep::Take <==> kind
            == EntryKind::Folder && wanted_ending(CatalogHost::Macos, ending),
        entry_step(CatalogHost::Macos, depth, kind, ending) == EntryStep::Enter <==> kind
            == EntryKind::Folder && !wanted_ending(CatalogHost::Macos, ending) && depth < 3,
        entry_step(CatalogHost::Windows, depth, kind, ending) != EntryStep::Stop,
        entry_step(CatalogHost::Macos, depth, kind, ending) != EntryStep::Stop,
{
}

/// What a catalog holds is started while it is still there: a file on Windows, an
/// application bundle on the Mac.
pub proof fn only_what_is_there_is_started(kind: EntryKind, ending: Option<Seq<char>>)
    ensures
        launch_barrier(CatalogHost::Windows, kind, ending) is None <==> kind == EntryKind::File,
        launch_barrier(CatalogHost::Macos, kind, ending) is None <==> kind == EntryKind::Folder
            && ending == Some("app"@),
{
}

/// The registry is read for the user and then for the machine, each time in both
/// widths; a place that cannot be opened is passed over, and its keys are read
/// one after the other, up to their limit.
pub proof fn registry_is_read_in_order(p: RegistryPlace, i: u32)
    ensures
        place_after(RegistryPlace { machine: false, narrow: false }) == RegistryStep::Open(
            RegistryPlace { machine: false, narrow: true },
        ),
        place_after(RegistryPlace { machine: false, narrow: true }) == RegistryStep::Open(
            RegistryPlace { machine: true, narrow: false },
        ),
        place_after(RegistryPlace { machine: true, narrow: false }) == RegistryStep::Open(
            RegistryPlace { machine: true, narrow: true },
        ),
        place_after(RegistryPlace { machine: true, narrow: true }) == RegistryStep::Over,
        registry_step(RegistryStep::Open(p), true) == RegistryStep::Key(p, 0),
        registry_step(RegistryStep::Open(p), false) == place_after(p),
        i < 2047 ==> registry_step(RegistryStep::Key(p, i), true) == RegistryStep::Key(
            p,
            (i + 1) as u32,
        ),
        i >= 2047 ==> registry_step(RegistryStep::Key(p, i), true) == place_after(p),
        registry_step(RegistryStep::Key(p, i), false) == place_after(p),
        registry_step(RegistryStep::Over, true) == RegistryStep::Over,
{
}

} // verus!
