//! Desktop targets: applications and windows are chosen by references from a
//! catalog, never by paths, and acted on through tokens that belong to one
//! owner.
use vstd::prelude::*;
use vstd::string::*;

use crate::hashing;
use crate::hashing::tagged_digest;
use crate::json;
use crate::json::{exceeds, put_bool, put_number, put_opt_number, put_opt_string, put_string};
use crate::model;
use crate::model::{copy_all, copy_opt, same_all, same_opt, Plain};
use crate::order;
use crate::order::{sort, stands_before, Ordered};
use crate::table;
use crate::text;
use crate::text::{
    contains_text, decimal, lowercase, owned, same_text, signed_decimal, starts_with, take_chars,
};
use crate::types::{LocatorModel, SemanticLocator};

verus! {

/// How many bytes a page takes at most.
pub const PAGE_BUDGET: usize = 6500;

/// How many rows a page has at most.
pub const PAGE_ROWS: usize = 20;

/// How many catalogs are kept.
pub const MAX_CATALOGS: usize = 32;

/// How many tokens, and how many saved windows, are kept.
pub const MAX_BINDINGS: usize = 256;

/// How often the windows are looked for after a launch.
pub const LAUNCH_POLLS: usize = 30;

/// An application, and how it is launched where it can be.
#[derive(Debug, Clone, PartialEq, Eq)]
pub struct Application {
    pub app_id: String,
    pub name: String,
    pub launch_path: Option<String>,
}

/// The content of an [`Application`].
#[verifier::ext_equal]
pub struct ApplicationModel {
    pub app_id: Seq<char>,
    pub name: Seq<char>,
    pub launch_path: Option<Seq<char>>,
}

impl View for Application {
    type V = ApplicationModel;

    open spec fn view(&self) -> ApplicationModel {
        ApplicationModel {
            app_id: self.app_id@,
            name: self.name@,
            launch_path: model::opt_view(self.launch_path),
        }
    }
}

impl Plain for Application {
    fn copied(&self) -> (r: Self) {
        Application {
            app_id: self.app_id.clone(),
            name: self.name.clone(),
            launch_path: copy_opt(&self.launch_path),
        }
    }

    fn same(&self, other: &Self) -> (r: bool) {
        same_text(self.app_id.as_str(), other.app_id.as_str())
            && same_text(self.name.as_str(), other.name.as_str())
            && same_opt(&self.launch_path, &other.launch_path)
    }
}

/// A window that is open.
#[derive(Debug, Clone, PartialEq, Eq)]
pub struct Window {
    pub hwnd: i32,
    pub pid: u32,
    pub app_id: String,
    pub title: String,
}

/// The content of a [`Window`].
#[verifier::ext_equal]
pub struct LiveModel {
    pub hwnd: i32,
    pub pid: u32,
    pub app_id: Seq<char>,
    pub title: Seq<char>,
}

impl View for Window {
    type V = LiveModel;

    open spec fn view(&self) -> LiveModel {
        LiveModel {
            hwnd: self.hwnd,
            pid: self.pid,
            app_id: self.app_id@,
            title: self.title@,
        }
    }
}

impl Plain for Window {
    fn copied(&self) -> (r: Self) {
        Window {
            hwnd: self.hwnd,
            pid: self.pid,
            app_id: self.app_id.clone(),
            title: self.title.clone(),
        }
    }

    fn same(&self, other: &Self) -> (r: bool) {
        self.hwnd == other.hwnd
            && self.pid == other.pid
            && same_text(self.app_id.as_str(), other.app_id.as_str())
            && same_text(self.title.as_str(), other.title.as_str())
    }
}

/// What of a target can be saved: neither its token nor its handle.
#[derive(Debug, Clone, PartialEq, Eq)]
pub struct DesktopTargetDescriptor {
    pub app_id: String,
    pub window_title: Option<String>,
    pub launch_ref: Option<String>,
}

/// The content of a [`DesktopTargetDescriptor`].
#[verifier::ext_equal]
pub struct DescriptorModel {
    pub app_id: Seq<char>,
    pub window_title: Option<Seq<char>>,
    pub launch_ref: Option<Seq<char>>,
}

impl View for DesktopTargetDescriptor {
    type V = DescriptorModel;

    open spec fn view(&self) -> DescriptorModel {
        DescriptorModel {
            app_id: self.app_id@,
            window_title: model::opt_view(self.window_title),
            launch_ref: model::opt_view(self.launch_ref),
        }
    }
}

impl Plain for DesktopTargetDescriptor {
    fn copied(&self) -> (r: Self) {
        DesktopTargetDescriptor {
            app_id: self.app_id.clone(),
            window_title: copy_opt(&self.window_title),
            launch_ref: copy_opt(&self.launch_ref),
        }
    }

    fn same(&self, other: &Self) -> (r: bool) {
        same_text(self.app_id.as_str(), other.app_id.as_str())
            && same_opt(&self.window_title, &other.window_title)
            && same_opt(&self.launch_ref, &other.launch_ref)
    }
}

/// What a token stands for.
#[derive(Debug, Clone, PartialEq, Eq)]
pub struct Binding {
    pub owner: String,
    pub window: Window,
    pub descriptor: DesktopTargetDescriptor,
}

/// The content of a [`Binding`].
#[verifier::ext_equal]
pub struct BindingModel {
    pub owner: Seq<char>,
    pub window: LiveModel,
    pub descriptor: DescriptorModel,
}

impl View for Binding {
    type V = BindingModel;

    open spec fn view(&self) -> BindingModel {
        BindingModel {
            owner: self.owner@,
            window: self.window@,
            descriptor: self.descriptor@,
        }
    }
}

impl Plain for Binding {
    fn copied(&self) -> (r: Self) {
        Binding {
            owner: self.owner.clone(),
            window: self.window.copied(),
            descriptor: self.descriptor.copied(),
        }
    }

    fn same(&self, other: &Self) -> (r: bool) {
        same_text(self.owner.as_str(), other.owner.as_str())
            && self.window.same(&other.window)
            && self.descriptor.same(&other.descriptor)
    }
}

/// What a saved target is known by, for one owner.
#[derive(Debug, Clone, PartialEq, Eq)]
pub struct SavedKey {
    pub owner: String,
    pub app_id: String,
    pub window_id: Option<String>,
    pub window_title: Option<String>,
}

/// The content of a [`SavedKey`].
#[verifier::ext_equal]
pub struct SavedKeyModel {
    pub owner: Seq<char>,
    pub app_id: Seq<char>,
    pub window_id: Option<Seq<char>>,
    pub window_title: Option<Seq<char>>,
}

impl View for SavedKey {
    type V = SavedKeyModel;

    open spec fn view(&self) -> SavedKeyModel {
        SavedKeyModel {
            owner: self.owner@,
            app_id: self.app_id@,
            window_id: model::opt_view(self.window_id),
            window_title: model::opt_view(self.window_title),
        }
    }
}

impl Plain for SavedKey {
    fn copied(&self) -> (r: Self) {
        SavedKey {
            owner: self.owner.clone(),
            app_id: self.app_id.clone(),
            window_id: copy_opt(&self.window_id),
            window_title: copy_opt(&self.window_title),
        }
    }

    fn same(&self, other: &Self) -> (r: bool) {
        same_text(self.owner.as_str(), other.owner.as_str())
            && same_text(self.app_id.as_str(), other.app_id.as_str())
            && same_opt(&self.window_id, &other.window_id)
            && same_opt(&self.window_title, &other.window_title)
    }
}

/// Whose catalog it is, and for which query.
#[derive(Debug, Clone, PartialEq, Eq)]
pub struct CatalogKey {
    pub owner: String,
    pub query: String,
}

/// The content of a [`CatalogKey`].
#[verifier::ext_equal]
pub struct CatalogKeyModel {
    pub owner: Seq<char>,
    pub query: Seq<char>,
}

impl View for CatalogKey {
    type V = CatalogKeyModel;

    open spec fn view(&self) -> CatalogKeyModel {
        CatalogKeyModel {
            owner: self.owner@,
            query: self.query@,
        }
    }
}

impl Plain for CatalogKey {
    fn copied(&self) -> (r: Self) {
        CatalogKey {
            owner: self.owner.clone(),
            query: self.query.clone(),
        }
    }

    fn same(&self, other: &Self) -> (r: bool) {
        same_text(self.owner.as_str(), other.owner.as_str())
            && same_text(self.query.as_str(), other.query.as_str())
    }
}

/// One row of a catalog: an application, and one of its windows where it has any.
#[derive(Debug, Clone, PartialEq, Eq)]
pub struct CatalogRow {
    pub reference: String,
    pub app: Application,
    pub window: Option<(String, Window)>,
    pub window_count: usize,
    pub is_self: bool,
}

/// The content of a [`CatalogRow`].
#[verifier::ext_equal]
pub struct RowModel {
    pub reference: Seq<char>,
    pub app: ApplicationModel,
    pub window: Option<(Seq<char>, LiveModel)>,
    pub window_count: usize,
    pub is_self: bool,
}

impl View for CatalogRow {
    type V = RowModel;

    open spec fn view(&self) -> RowModel {
        RowModel {
            reference: self.reference@,
            app: self.app@,
            window: model::opt_view(self.window),
            window_count: self.window_count,
            is_self: self.is_self,
        }
    }
}

impl Plain for CatalogRow {
    fn copied(&self) -> (r: Self) {
        CatalogRow {
            reference: self.reference.clone(),
            app: self.app.copied(),
            window: copy_opt(&self.window),
            window_count: self.window_count,
            is_self: self.is_self,
        }
    }

    fn same(&self, other: &Self) -> (r: bool) {
        same_text(self.reference.as_str(), other.reference.as_str())
            && self.app.same(&other.app)
            && same_opt(&self.window, &other.window)
            && self.window_count == other.window_count
            && self.is_self == other.is_self
    }
}

/// A catalog as it stood when it was asked for.
#[derive(Debug, Clone, PartialEq, Eq)]
pub struct CatalogSnapshot {
    pub rows: Vec<CatalogRow>,
    pub application_count: usize,
}

/// The content of a [`CatalogSnapshot`].
#[verifier::ext_equal]
pub struct SnapshotModel {
    pub rows: Seq<RowModel>,
    pub application_count: usize,
}

impl View for CatalogSnapshot {
    type V = SnapshotModel;

    open spec fn view(&self) -> SnapshotModel {
        SnapshotModel {
            rows: model::seq_view(self.rows@),
            application_count: self.application_count,
        }
    }
}

impl Plain for CatalogSnapshot {
    fn copied(&self) -> (r: Self) {
        CatalogSnapshot {
            rows: copy_all(&self.rows),
            application_count: self.application_count,
        }
    }

    fn same(&self, other: &Self) -> (r: bool) {
        same_all(&self.rows, &other.rows)
            && self.application_count == other.application_count
    }
}

/// A window on a page.
#[derive(Debug, Clone, PartialEq, Eq)]
pub struct WindowEntry {
    pub window_ref: String,
    pub title: String,
}

/// The content of a [`WindowEntry`].
#[verifier::ext_equal]
pub struct WindowEntryModel {
    pub window_ref: Seq<char>,
    pub title: Seq<char>,
}

impl View for WindowEntry {
    type V = WindowEntryModel;

    open spec fn view(&self) -> WindowEntryModel {
        WindowEntryModel {
            window_ref: self.window_ref@,
            title: self.title@,
        }
    }
}

impl Plain for WindowEntry {
    fn copied(&self) -> (r: Self) {
        WindowEntry {
            window_ref: self.window_ref.clone(),
            title: self.title.clone(),
        }
    }

    fn same(&self, other: &Self) -> (r: bool) {
        same_text(self.window_ref.as_str(), other.window_ref.as_str())
            && same_text(self.title.as_str(), other.title.as_str())
    }
}

/// An application on a page.
#[derive(Debug, Clone, PartialEq, Eq)]
pub struct AppEntry {
    pub app_ref: String,
    pub app_id: Option<String>,
    pub name: String,
    pub is_self: bool,
    pub launch_ref: Option<String>,
    pub running: bool,
    pub window_count: usize,
    pub windows: Vec<WindowEntry>,
}

/// The content of an [`AppEntry`].
#[verifier::ext_equal]
pub struct AppEntryModel {
    pub app_ref: Seq<char>,
    pub app_id: Option<Seq<char>>,
    pub name: Seq<char>,
    pub is_self: bool,
    pub launch_ref: Option<Seq<char>>,
    pub running: bool,
    pub window_count: usize,
    pub windows: Seq<WindowEntryModel>,
}

impl View for AppEntry {
    type V = AppEntryModel;

    open spec fn view(&self) -> AppEntryModel {
        AppEntryModel {
            app_ref: self.app_ref@,
            app_id: model::opt_view(self.app_id),
            name: self.name@,
            is_self: self.is_self,
            launch_ref: model::opt_view(self.launch_ref),
            running: self.running,
            window_count: self.window_count,
            windows: model::seq_view(self.windows@),
        }
    }
}

impl Plain for AppEntry {
    fn copied(&self) -> (r: Self) {
        AppEntry {
            app_ref: self.app_ref.clone(),
            app_id: copy_opt(&self.app_id),
            name: self.name.clone(),
            is_self: self.is_self,
            launch_ref: copy_opt(&self.launch_ref),
            running: self.running,
            window_count: self.window_count,
            windows: copy_all(&self.windows),
        }
    }

    fn same(&self, other: &Self) -> (r: bool) {
        same_text(self.app_ref.as_str(), other.app_ref.as_str())
            && same_opt(&self.app_id, &other.app_id)
            && same_text(self.name.as_str(), other.name.as_str())
            && self.is_self == other.is_self
            && same_opt(&self.launch_ref, &other.launch_ref)
            && self.running == other.running
            && self.window_count == other.window_count
            && same_all(&self.windows, &other.windows)
    }
}

/// A page of a catalog.
#[derive(Debug, Clone, PartialEq, Eq)]
pub struct CatalogPage {
    pub applications: Vec<AppEntry>,
    pub application_count: usize,
    pub target_count: usize,
    pub cursor: usize,
    pub next_cursor: Option<usize>,
}

/// The content of a [`CatalogPage`].
#[verifier::ext_equal]
pub struct PageModel {
    pub applications: Seq<AppEntryModel>,
    pub application_count: usize,
    pub target_count: usize,
    pub cursor: usize,
    pub next_cursor: Option<usize>,
}

impl View for CatalogPage {
    type V = PageModel;

    open spec fn view(&self) -> PageModel {
        PageModel {
            applications: model::seq_view(self.applications@),
            application_count: self.application_count,
            target_count: self.target_count,
            cursor: self.cursor,
            next_cursor: self.next_cursor,
        }
    }
}

impl Plain for CatalogPage {
    fn copied(&self) -> (r: Self) {
        CatalogPage {
            applications: copy_all(&self.applications),
            application_count: self.application_count,
            target_count: self.target_count,
            cursor: self.cursor,
            next_cursor: self.next_cursor,
        }
    }

    fn same(&self, other: &Self) -> (r: bool) {
        same_all(&self.applications, &other.applications)
            && self.application_count == other.application_count
            && self.target_count == other.target_count
            && self.cursor == other.cursor
            && self.next_cursor == other.next_cursor
    }
}

/// The windows among which one has to be chosen.
#[derive(Debug, Clone, PartialEq, Eq)]
pub struct SelectionPage {
    pub app_ref: String,
    pub windows: Vec<WindowEntry>,
    pub window_count: usize,
}

/// The content of a [`SelectionPage`].
#[verifier::ext_equal]
pub struct SelectionModel {
    pub app_ref: Seq<char>,
    pub windows: Seq<WindowEntryModel>,
    pub window_count: usize,
}

impl View for SelectionPage {
    type V = SelectionModel;

    open spec fn view(&self) -> SelectionModel {
        SelectionModel {
            app_ref: self.app_ref@,
            windows: model::seq_view(self.windows@),
            window_count: self.window_count,
        }
    }
}

impl Plain for SelectionPage {
    fn copied(&self) -> (r: Self) {
        SelectionPage {
            app_ref: self.app_ref.clone(),
            windows: copy_all(&self.windows),
            window_count: self.window_count,
        }
    }

    fn same(&self, other: &Self) -> (r: bool) {
        same_text(self.app_ref.as_str(), other.app_ref.as_str())
            && same_all(&self.windows, &other.windows)
            && self.window_count == other.window_count
    }
}

impl Ordered for (String, Application) {
    open spec fn before(a: (Seq<char>, ApplicationModel), b: (Seq<char>, ApplicationModel)) -> bool {
        order::precedes(a.0, b.0)
    }

    proof fn before_is_an_order(
        a: (Seq<char>, ApplicationModel),
        b: (Seq<char>, ApplicationModel),
        c: (Seq<char>, ApplicationModel),
    ) {
        order::text_order_is_total(a.0, b.0);
        order::text_order_is_total(b.0, c.0);
        order::text_order_is_total(a.0, c.0);
        if order::precedes(a.0, b.0) && order::precedes(b.0, c.0) {
            order::text_order_is_transitive(a.0, b.0, c.0);
        }
        if order::precedes(a.0, c.0) && order::precedes(b.0, a.0) {
            order::text_order_is_transitive(b.0, a.0, c.0);
        }
    }

    fn is_before(&self, other: &Self) -> (r: bool) {
        stands_before(self.0.as_str(), other.0.as_str())
    }
}

/// Whether a title and a reference stand before others: by the title in lower
/// case, then by the title, then by the reference.
pub open spec fn listed_before(
    title_a: Seq<char>,
    ref_a: Seq<char>,
    title_b: Seq<char>,
    ref_b: Seq<char>,
) -> bool {
    let low_a = text::lowercased(title_a);
    let low_b = text::lowercased(title_b);
    ||| order::precedes(low_a, low_b)
    ||| low_a == low_b && order::precedes(title_a, title_b)
    ||| low_a == low_b && title_a == title_b && order::precedes(ref_a, ref_b)
}

/// The order of titles and references is one.
proof fn listing_is_an_order(
    title_a: Seq<char>,
    ref_a: Seq<char>,
    title_b: Seq<char>,
    ref_b: Seq<char>,
    title_c: Seq<char>,
    ref_c: Seq<char>,
)
    ensures
        !(listed_before(title_a, ref_a, title_b, ref_b) && listed_before(
            title_b,
            ref_b,
            title_a,
            ref_a,
        )),
        listed_before(title_a, ref_a, title_b, ref_b) && listed_before(
            title_b,
            ref_b,
            title_c,
            ref_c,
        ) ==> listed_before(title_a, ref_a, title_c, ref_c),
        listed_before(title_a, ref_a, title_c, ref_c) ==> listed_before(
            title_a,
            ref_a,
            title_b,
            ref_b,
        ) || listed_before(title_b, ref_b, title_c, ref_c),
{
    let la = text::lowercased(title_a);
    let lb = text::lowercased(title_b);
    let lc = text::lowercased(title_c);
    three_way(la, lb, lc);
    three_way(title_a, title_b, title_c);
    three_way(ref_a, ref_b, ref_c);
}

/// How three texts can stand to each other.
proof fn three_way(a: Seq<char>, b: Seq<char>, c: Seq<char>)
    ensures
        a == b ==> !order::precedes(a, b),
        a != b ==> order::precedes(a, b) != order::precedes(b, a),
        b == c ==> !order::precedes(b, c),
        b != c ==> order::precedes(b, c) != order::precedes(c, b),
        a == c ==> !order::precedes(a, c),
        a != c ==> order::precedes(a, c) != order::precedes(c, a),
        order::precedes(a, b) && order::precedes(b, c) ==> order::precedes(a, c),
        order::precedes(b, a) && order::precedes(a, c) ==> order::precedes(b, c),
        order::precedes(a, c) && order::precedes(c, b) ==> order::precedes(a, b),
{
    order::text_order_is_total(a, b);
    order::text_order_is_total(b, c);
    order::text_order_is_total(a, c);
    if order::precedes(a, b) && order::precedes(b, c) {
        order::text_order_is_transitive(a, b, c);
    }
    if order::precedes(b, a) && order::precedes(a, c) {
        order::text_order_is_transitive(b, a, c);
    }
    if order::precedes(a, c) && order::precedes(c, b) {
        order::text_order_is_transitive(a, c, b);
    }
}

/// Whether a title and a reference stand before others.
fn lists_before(title_a: &str, ref_a: &str, title_b: &str, ref_b: &str) -> (r: bool)
    ensures
        r == listed_before(title_a@, ref_a@, title_b@, ref_b@),
{
    let low_a = lowercase(title_a);
    let low_b = lowercase(title_b);
    if stands_before(low_a.as_str(), low_b.as_str()) {
        return true;
    }
    if !same_text(low_a.as_str(), low_b.as_str()) {
        return false;
    }
    if stands_before(title_a, title_b) {
        return true;
    }
    same_text(title_a, title_b) && stands_before(ref_a, ref_b)
}

impl Ordered for (String, Window) {
    open spec fn before(a: (Seq<char>, LiveModel), b: (Seq<char>, LiveModel)) -> bool {
        listed_before(a.1.title, a.0, b.1.title, b.0)
    }

    proof fn before_is_an_order(
        a: (Seq<char>, LiveModel),
        b: (Seq<char>, LiveModel),
        c: (Seq<char>, LiveModel),
    ) {
        listing_is_an_order(a.1.title, a.0, b.1.title, b.0, c.1.title, c.0);
    }

    fn is_before(&self, other: &Self) -> (r: bool) {
        lists_before(
            self.1.title.as_str(),
            self.0.as_str(),
            other.1.title.as_str(),
            other.0.as_str(),
        )
    }
}

impl Ordered for WindowEntry {
    open spec fn before(a: WindowEntryModel, b: WindowEntryModel) -> bool {
        listed_before(a.title, a.window_ref, b.title, b.window_ref)
    }

    proof fn before_is_an_order(a: WindowEntryModel, b: WindowEntryModel, c: WindowEntryModel) {
        listing_is_an_order(a.title, a.window_ref, b.title, b.window_ref, c.title, c.window_ref);
    }

    fn is_before(&self, other: &Self) -> (r: bool) {
        lists_before(
            self.title.as_str(),
            self.window_ref.as_str(),
            other.title.as_str(),
            other.window_ref.as_str(),
        )
    }
}

/// Whether two windows are the same one: its title may have changed.
pub open spec fn one_window(a: LiveModel, b: LiveModel) -> bool {
    a.hwnd == b.hwnd && a.pid == b.pid && a.app_id == b.app_id
}

/// Whether two windows are the same one.
pub fn same_window(a: &Window, b: &Window) -> (r: bool)
    ensures
        r == one_window(a@, b@),
{
    a.hwnd == b.hwnd && a.pid == b.pid && same_text(a.app_id.as_str(), b.app_id.as_str())
}

/// The reference of an application.
pub open spec fn app_ref(id: Seq<char>) -> Seq<char> {
    hashing::tagged("app:"@, id)
}

/// The reference of an application.
pub fn app_reference(id: &str) -> (r: String)
    ensures
        r@ == app_ref(id@),
{
    tagged_digest("app:", id)
}

/// The reference of a window.
pub open spec fn window_ref(w: LiveModel) -> Seq<char> {
    hashing::tagged(
        "window:"@,
        w.app_id + "|"@ + text::decimal_text(w.pid as nat) + "|"@ + text::signed_text(
            w.hwnd as int,
        ),
    )
}

/// The reference of a window.
pub fn window_reference(w: &Window) -> (r: String)
    ensures
        r@ == window_ref(w@),
{
    let mut seed = w.app_id.clone();
    seed.append("|");
    seed.append(decimal(w.pid as u64).as_str());
    seed.append("|");
    seed.append(signed_decimal(w.hwnd as i64).as_str());
    tagged_digest("window:", seed.as_str())
}

/// A reference does not depend on the window's title.
pub proof fn reference_survives_title(w: LiveModel, title: Seq<char>)
    ensures
        window_ref(LiveModel { title, ..w }) == window_ref(w),
        one_window(LiveModel { title, ..w }, w),
{
}

/// Which window is meant.
#[derive(Debug, Clone, Copy, PartialEq, Eq, Structural)]
pub enum Choice {
    /// The one at this position.
    One(usize),
    /// Several could be.
    Several,
}

/// The first window that is the same as one.
pub open spec fn same_place(windows: Seq<LiveModel>, w: LiveModel) -> Option<int>
    decreases windows.len(),
{
    if windows.len() == 0 {
        None
    } else {
        match same_place(windows.drop_last(), w) {
            Some(i) => Some(i),
            None => if one_window(windows.last(), w) {
                Some(windows.len() - 1)
            } else {
                None
            },
        }
    }
}

/// Whether a window has a title; any has where none is asked for.
pub open spec fn has_title(w: LiveModel, title: Option<Seq<char>>) -> bool {
    title matches Some(t) ==> w.title == t
}

/// The positions of the windows with a title; of all where none is asked for.
pub open spec fn titled(windows: Seq<LiveModel>, title: Option<Seq<char>>) -> Seq<int>
    decreases windows.len(),
{
    if windows.len() == 0 {
        Seq::empty()
    } else {
        let before = titled(windows.drop_last(), title);
        if has_title(windows.last(), title) {
            before.push(windows.len() - 1)
        } else {
            before
        }
    }
}

/// Which window is meant: the selected one, else the only one with the title.
pub open spec fn chosen(
    windows: Seq<LiveModel>,
    selected: Option<LiveModel>,
    title: Option<Seq<char>>,
) -> Result<Choice, Seq<char>> {
    match selected {
        Some(w) => match same_place(windows, w) {
            Some(i) => Ok(Choice::One(i as usize)),
            None => Err("Selected window disappeared; list targets again"@),
        },
        None => {
            let found = titled(windows, title);
            if found.len() == 1 {
                Ok(Choice::One(found[0] as usize))
            } else if found.len() == 0 {
                Err("No window matches the selected application and saved title"@)
            } else {
                Ok(Choice::Several)
            }
        },
    }
}

/// The view of a choice.
pub open spec fn choice_view(r: Result<Choice, String>) -> Result<Choice, Seq<char>> {
    match r {
        Ok(c) => Ok(c),
        Err(e) => Err(e@),
    }
}

/// Finds the first window that is the same as one.
pub fn find_same(windows: &Vec<Window>, w: &Window) -> (r: Option<usize>)
    ensures
        match r {
            Some(i) => same_place(model::seq_view(windows@), w@) == Some(i as int) && i
                < windows@.len() && one_window(windows@[i as int]@, w@),
            None => same_place(model::seq_view(windows@), w@) is None,
        },
{
    let ghost s = model::seq_view(windows@);
    let mut i: usize = 0;
    while i < windows.len()
        invariant
            i <= windows@.len(),
            s == model::seq_view(windows@),
            same_place(s.take(i as int), w@) is None,
        decreases windows@.len() - i,
    {
        proof {
            assert(s.take(i + 1).drop_last() == s.take(i as int));
            assert(s.take(i + 1).last() == windows@[i as int]@);
        }
        if same_window(&windows[i], w) {
            proof {
                same_place_persists(s, w@, i + 1);
            }
            return Some(i);
        }
        i = i + 1;
    }
    assert(s.take(s.len() as int) == s);
    None
}

/// A place that was found stays the first.
proof fn same_place_persists(s: Seq<LiveModel>, w: LiveModel, n: int)
    requires
        0 <= n <= s.len(),
        same_place(s.take(n), w) is Some,
    ensures
        same_place(s, w) == same_place(s.take(n), w),
    decreases s.len() - n,
{
    if n < s.len() {
        assert(s.take(n + 1).drop_last() == s.take(n));
        same_place_persists(s, w, n + 1);
    } else {
        assert(s.take(n) == s);
    }
}

/// A place that was found is one of the same window; where none was, no window
/// is the same.
proof fn same_place_is_right(s: Seq<LiveModel>, w: LiveModel)
    ensures
        same_place(s, w) matches Some(i) ==> 0 <= i < s.len() && one_window(s[i], w),
        same_place(s, w) is None ==> forall|k: int|
            0 <= k < s.len() ==> !one_window(#[trigger] s[k], w),
    decreases s.len(),
{
    if s.len() > 0 {
        let rest = s.drop_last();
        same_place_is_right(rest, w);
        assert(forall|k: int| 0 <= k < rest.len() ==> rest[k] == #[trigger] s[k]);
    }
}

/// The positions of the windows with a title are just those.
proof fn titled_is_right(s: Seq<LiveModel>, title: Option<Seq<char>>)
    ensures
        forall|k: int|
            0 <= k < titled(s, title).len() ==> 0 <= (#[trigger] titled(s, title)[k]) < s.len()
                && has_title(s[titled(s, title)[k]], title),
        forall|i: int|
            0 <= i < s.len() && has_title(#[trigger] s[i], title) ==> titled(s, title).contains(i),
    decreases s.len(),
{
    if s.len() > 0 {
        let rest = s.drop_last();
        titled_is_right(rest, title);
        let before = titled(rest, title);
        let all = titled(s, title);
        assert forall|k: int| 0 <= k < all.len() implies 0 <= (#[trigger] all[k]) < s.len()
            && has_title(s[all[k]], title) by {
            if k < before.len() {
                assert(all[k] == before[k]);
                assert(s[before[k]] == rest[before[k]]);
            }
        }
        assert forall|i: int| 0 <= i < s.len() && has_title(#[trigger] s[i], title) implies all.contains(i) by {
            if i < rest.len() {
                assert(rest[i] == s[i]);
                let k = before.index_of(i);
                assert(all[k] == i);
            } else {
                assert(all[all.len() - 1] == i);
            }
        }
    }
}

/// A window is chosen by itself only where it is the selected one, or where no
/// other has the title that is asked for.
pub proof fn choice_is_never_a_guess(
    windows: Seq<LiveModel>,
    selected: Option<LiveModel>,
    title: Option<Seq<char>>,
    i: usize,
)
    requires
        windows.len() <= usize::MAX,
        chosen(windows, selected, title) == Ok::<Choice, Seq<char>>(Choice::One(i)),
    ensures
        i < windows.len(),
        selected matches Some(w) ==> one_window(windows[i as int], w),
        selected is None ==> has_title(windows[i as int], title) && forall|k: int|
            0 <= k < windows.len() && has_title(#[trigger] windows[k], title) ==> k == i,
{
    match selected {
        Some(w) => {
            same_place_is_right(windows, w);
        },
        None => {
            titled_is_right(windows, title);
            let found = titled(windows, title);
            assert(found.len() == 1);
            assert forall|k: int|
                0 <= k < windows.len() && has_title(#[trigger] windows[k], title) implies k == i by {
                let j = found.index_of(k);
                assert(found[j] == k);
            }
        },
    }
}

/// Which window is meant.
pub fn choose_window(windows: &Vec<Window>, selected: Option<&Window>, title: Option<&str>) -> (r:
    Result<Choice, String>)
    ensures
        choice_view(r) == chosen(
            model::seq_view(windows@),
            model::opt_ref_view(selected),
            text::opt_str(title),
        ),
        r matches Ok(Choice::One(i)) ==> i < windows@.len(),
{
    match selected {
        Some(w) => {
            return match find_same(windows, w) {
                Some(i) => Ok(Choice::One(i)),
                None => Err(owned("Selected window disappeared; list targets again")),
            };
        },
        None => {},
    }
    let ghost s = model::seq_view(windows@);
    let ghost wanted = text::opt_str(title);
    let mut found: Vec<usize> = Vec::new();
    let mut i: usize = 0;
    while i < windows.len()
        invariant
            i <= windows@.len(),
            s == model::seq_view(windows@),
            wanted == text::opt_str(title),
            found@.len() == titled(s.take(i as int), wanted).len(),
            forall|k: int|
                0 <= k < found@.len() ==> #[trigger] found@[k] == titled(
                    s.take(i as int),
                    wanted,
                )[k],
            forall|k: int| 0 <= k < found@.len() ==> #[trigger] found@[k] < i,
        decreases windows@.len() - i,
    {
        proof {
            assert(s.take(i + 1).drop_last() == s.take(i as int));
            assert(s.take(i + 1).last() == windows@[i as int]@);
        }
        let fits = match title {
            Some(t) => same_text(windows[i].title.as_str(), t),
            None => true,
        };
        if fits {
            found.push(i);
        }
        i = i + 1;
    }
    assert(s.take(s.len() as int) == s);
    if found.len() == 1 {
        Ok(Choice::One(found[0]))
    } else if found.len() == 0 {
        Err(owned("No window matches the selected application and saved title"))
    } else {
        Ok(Choice::Several)
    }
}

/// Which window a saved target is. A redacted title is not compared where a
/// stable identity is known and there is only one window: that identity is
/// checked before anything is done.
pub open spec fn saved_choice(windows: Seq<LiveModel>, l: LocatorModel) -> Result<
    Choice,
    Seq<char>,
> {
    if l.window_id is Some && text::begins(l.window_id->Some_0, "axw:"@) && windows.len() == 1 {
        Ok(Choice::One(0))
    } else {
        chosen(windows, None, l.window_title)
    }
}

/// Which window a saved target is.
pub fn choose_saved_window(windows: &Vec<Window>, locator: &SemanticLocator) -> (r: Result<
    Choice,
    String,
>)
    ensures
        choice_view(r) == saved_choice(model::seq_view(windows@), locator@),
        r matches Ok(Choice::One(i)) ==> i < windows@.len(),
{
    let stable = match &locator.window_id {
        Some(id) => starts_with(id.as_str(), "axw:"),
        None => false,
    };
    if stable && windows.len() == 1 {
        return Ok(Choice::One(0));
    }
    match &locator.window_title {
        Some(t) => choose_window(windows, None, Some(t.as_str())),
        None => choose_window(windows, None, None),
    }
}

/// The windows of an application.
pub open spec fn windows_of(windows: Seq<LiveModel>, app_id: Seq<char>) -> Seq<LiveModel>
    decreases windows.len(),
{
    if windows.len() == 0 {
        Seq::empty()
    } else if windows.last().app_id == app_id {
        windows_of(windows.drop_last(), app_id).push(windows.last())
    } else {
        windows_of(windows.drop_last(), app_id)
    }
}

/// The windows of an application.
pub fn app_windows(windows: &Vec<Window>, app_id: &str) -> (r: Vec<Window>)
    ensures
        model::seq_view(r@) == windows_of(model::seq_view(windows@), app_id@),
{
    let ghost s = model::seq_view(windows@);
    let mut out: Vec<Window> = Vec::new();
    assert(model::seq_view(out@) =~= windows_of(s.take(0), app_id@));
    let mut i: usize = 0;
    while i < windows.len()
        invariant
            i <= windows@.len(),
            s == model::seq_view(windows@),
            model::seq_view(out@) == windows_of(s.take(i as int), app_id@),
        decreases windows@.len() - i,
    {
        let ghost before = out@;
        proof {
            assert(s.take(i + 1).drop_last() == s.take(i as int));
            assert(s.take(i + 1).last() == windows@[i as int]@);
        }
        if same_text(windows[i].app_id.as_str(), app_id) {
            let item = windows[i].copied();
            out.push(item);
            assert(model::seq_view(out@) =~= model::seq_view(before).push(item@));
        }
        i = i + 1;
    }
    assert(s.take(s.len() as int) == s);
    out
}

/// The windows of an application under their references.
pub open spec fn slots_of(windows: Seq<(Seq<char>, LiveModel)>, app_id: Seq<char>) -> Seq<
    (Seq<char>, LiveModel),
>
    decreases windows.len(),
{
    if windows.len() == 0 {
        Seq::empty()
    } else if windows.last().1.app_id == app_id {
        slots_of(windows.drop_last(), app_id).push(windows.last())
    } else {
        slots_of(windows.drop_last(), app_id)
    }
}

/// The windows whose full title holds a query; all where the application
/// itself is asked for.
pub open spec fn matching_slots(
    windows: Seq<(Seq<char>, LiveModel)>,
    query: Seq<char>,
    app_matches: bool,
) -> Seq<(Seq<char>, LiveModel)>
    decreases windows.len(),
{
    if windows.len() == 0 {
        Seq::empty()
    } else {
        let before = matching_slots(windows.drop_last(), query, app_matches);
        if app_matches || text::has_part(text::lowercased(windows.last().1.title), query) {
            before.push(windows.last())
        } else {
            before
        }
    }
}

/// Whether an application is what is asked for.
pub open spec fn app_asked_for(
    reference: Seq<char>,
    app: ApplicationModel,
    query: Seq<char>,
) -> bool {
    ||| query.len() == 0
    ||| reference == query
    ||| text::has_part(text::lowercased(app.name), query)
    ||| text::has_part(text::lowercased(app.app_id), query)
}

/// Whether one of some windows belongs to a process.
pub open spec fn of_process(windows: Seq<(Seq<char>, LiveModel)>, pid: u32) -> bool {
    exists|i: int| 0 <= i < windows.len() && (#[trigger] windows[i]).1.pid == pid
}

/// The rows of an application: one for each window that is asked for, or one
/// without where the application has none. None where it is not listed.
pub open spec fn app_rows(
    slot: (Seq<char>, ApplicationModel),
    windows: Seq<(Seq<char>, LiveModel)>,
    query: Seq<char>,
    own_pid: u32,
) -> Option<Seq<RowModel>> {
    let own = order::sorted::<(String, Window)>(slots_of(windows, slot.1.app_id));
    let asked = app_asked_for(slot.0, slot.1, query);
    let matching = matching_slots(own, query, asked);
    let base = RowModel {
        reference: slot.0,
        app: slot.1,
        window: None,
        window_count: own.len() as usize,
        is_self: of_process(own, own_pid),
    };
    if matching.len() == 0 && !(asked && own.len() == 0) {
        None
    } else if matching.len() == 0 {
        Some(seq![base])
    } else {
        Some(
            Seq::new(
                matching.len(),
                |i: int| RowModel { window: Some(matching[i]), ..base },
            ),
        )
    }
}

/// The rows of the first `n` applications.
pub open spec fn rows_upto(
    apps: Seq<(Seq<char>, ApplicationModel)>,
    windows: Seq<(Seq<char>, LiveModel)>,
    query: Seq<char>,
    own_pid: u32,
    n: int,
) -> (Seq<RowModel>, int)
    decreases n,
{
    if n <= 0 {
        (Seq::empty(), 0)
    } else {
        let before = rows_upto(apps, windows, query, own_pid, n - 1);
        match app_rows(apps[n - 1], windows, query, own_pid) {
            Some(rows) => (before.0 + rows, before.1 + 1),
            None => before,
        }
    }
}

/// The catalog of applications and windows for a query, by the references of
/// the applications.
pub open spec fn snapshot_model(
    apps: Seq<(Seq<char>, ApplicationModel)>,
    windows: Seq<(Seq<char>, LiveModel)>,
    query: Seq<char>,
    own_pid: u32,
) -> SnapshotModel {
    let list = order::sorted::<(String, Application)>(apps);
    let all = rows_upto(list, windows, query, own_pid, list.len() as int);
    SnapshotModel { rows: all.0, application_count: all.1 as usize }
}

/// Collects the windows of an application.
fn collect_slots(windows: &Vec<(String, Window)>, app_id: &str) -> (r: Vec<(String, Window)>)
    ensures
        model::seq_view(r@) == slots_of(model::seq_view(windows@), app_id@),
{
    let ghost s = model::seq_view(windows@);
    let mut out: Vec<(String, Window)> = Vec::new();
    assert(model::seq_view(out@) =~= slots_of(s.take(0), app_id@));
    let mut i: usize = 0;
    while i < windows.len()
        invariant
            i <= windows@.len(),
            s == model::seq_view(windows@),
            model::seq_view(out@) == slots_of(s.take(i as int), app_id@),
        decreases windows@.len() - i,
    {
        let ghost before = out@;
        proof {
            assert(s.take(i + 1).drop_last() == s.take(i as int));
            assert(s.take(i + 1).last() == windows@[i as int]@);
        }
        if same_text(windows[i].1.app_id.as_str(), app_id) {
            let item = windows[i].copied();
            out.push(item);
            assert(model::seq_view(out@) =~= model::seq_view(before).push(item@));
        }
        i = i + 1;
    }
    assert(s.take(s.len() as int) == s);
    out
}

/// Collects the windows that are asked for.
fn collect_matching(windows: &Vec<(String, Window)>, query: &str, app_matches: bool) -> (r: Vec<
    (String, Window),
>)
    ensures
        model::seq_view(r@) == matching_slots(model::seq_view(windows@), query@, app_matches),
{
    let ghost s = model::seq_view(windows@);
    let mut out: Vec<(String, Window)> = Vec::new();
    assert(model::seq_view(out@) =~= matching_slots(s.take(0), query@, app_matches));
    let mut i: usize = 0;
    while i < windows.len()
        invariant
            i <= windows@.len(),
            s == model::seq_view(windows@),
            model::seq_view(out@) == matching_slots(s.take(i as int), query@, app_matches),
        decreases windows@.len() - i,
    {
        let ghost before = out@;
        proof {
            assert(s.take(i + 1).drop_last() == s.take(i as int));
            assert(s.take(i + 1).last() == windows@[i as int]@);
        }
        if app_matches || contains_text(lowercase(windows[i].1.title.as_str()).as_str(), query) {
            let item = windows[i].copied();
            out.push(item);
            assert(model::seq_view(out@) =~= model::seq_view(before).push(item@));
        }
        i = i + 1;
    }
    assert(s.take(s.len() as int) == s);
    out
}

/// Whether one of some windows belongs to a process.
fn owned_by(windows: &Vec<(String, Window)>, pid: u32) -> (r: bool)
    ensures
        r == of_process(model::seq_view(windows@), pid),
{
    let ghost s = model::seq_view(windows@);
    let mut i: usize = 0;
    while i < windows.len()
        invariant
            i <= windows@.len(),
            s == model::seq_view(windows@),
            forall|k: int| 0 <= k < i ==> (#[trigger] s[k]).1.pid != pid,
        decreases windows@.len() - i,
    {
        if windows[i].1.pid == pid {
            assert(s[i as int].1.pid == pid);
            return true;
        }
        i = i + 1;
    }
    false
}

/// Makes the rows of an application.
fn make_rows(slot: &(String, Application), windows: &Vec<(String, Window)>, query: &str, own_pid: u32) -> (r:
    Option<Vec<CatalogRow>>)
    ensures
        match r {
            Some(v) => app_rows(slot@, model::seq_view(windows@), query@, own_pid) == Some(
                model::seq_view(v@),
            ),
            None => app_rows(slot@, model::seq_view(windows@), query@, own_pid) is None,
        },
{
    let found = collect_slots(windows, slot.1.app_id.as_str());
    let own = sort(&found);
    let asked = query.is_empty() || same_text(slot.0.as_str(), query) || contains_text(
        lowercase(slot.1.name.as_str()).as_str(),
        query,
    ) || contains_text(lowercase(slot.1.app_id.as_str()).as_str(), query);
    let matching = collect_matching(&own, query, asked);
    let window_count: usize = own.len();
    let is_self = owned_by(&own, own_pid);
    let ghost ms = model::seq_view(matching@);
    let ghost full = app_rows(slot@, model::seq_view(windows@), query@, own_pid);
    if matching.len() == 0 && !(asked && window_count == 0) {
        return None;
    }
    let mut out: Vec<CatalogRow> = Vec::new();
    if matching.len() == 0 {
        out.push(
            CatalogRow {
                reference: slot.0.clone(),
                app: slot.1.copied(),
                window: None,
                window_count,
                is_self,
            },
        );
        assert(model::seq_view(out@) =~= full->Some_0);
        return Some(out);
    }
    let mut i: usize = 0;
    while i < matching.len()
        invariant
            i <= matching@.len(),
            ms == model::seq_view(matching@),
            ms.len() > 0,
            full == app_rows(slot@, model::seq_view(windows@), query@, own_pid),
            full is Some,
            full->Some_0.len() == ms.len(),
            forall|k: int|
                0 <= k < ms.len() ==> #[trigger] full->Some_0[k] == (RowModel {
                    reference: slot@.0,
                    app: slot@.1,
                    window: Some(ms[k]),
                    window_count,
                    is_self,
                }),
            out@.len() == i,
            forall|k: int| 0 <= k < i ==> (#[trigger] out@[k])@ == full->Some_0[k],
        decreases matching@.len() - i,
    {
        let row = CatalogRow {
            reference: slot.0.clone(),
            app: slot.1.copied(),
            window: Some(matching[i].copied()),
            window_count,
            is_self,
        };
        assert(ms[i as int] == matching@[i as int]@);
        assert(row@ == full->Some_0[i as int]);
        out.push(row);
        i = i + 1;
    }
    assert(model::seq_view(out@) =~= full->Some_0);
    Some(out)
}

/// The catalog of applications and windows for a query in lower case.
pub fn catalog_snapshot(
    apps: &Vec<(String, Application)>,
    windows: &Vec<(String, Window)>,
    query: &str,
    own_pid: u32,
) -> (r: CatalogSnapshot)
    ensures
        r@ == snapshot_model(
            model::seq_view(apps@),
            model::seq_view(windows@),
            query@,
            own_pid,
        ),
{
    let list = sort(apps);
    let ghost ls = model::seq_view(list@);
    let ghost ws = model::seq_view(windows@);
    let mut rows: Vec<CatalogRow> = Vec::new();
    let mut application_count: usize = 0;
    let mut i: usize = 0;
    assert(model::seq_view(rows@) =~= rows_upto(ls, ws, query@, own_pid, 0).0);
    while i < list.len()
        invariant
            i <= list@.len(),
            ls == model::seq_view(list@),
            ws == model::seq_view(windows@),
            model::seq_view(rows@) == rows_upto(ls, ws, query@, own_pid, i as int).0,
            application_count == rows_upto(ls, ws, query@, own_pid, i as int).1,
            application_count <= i,
        decreases list@.len() - i,
    {
        assert(ls[i as int] == list@[i as int]@);
        match make_rows(&list[i], windows, query, own_pid) {
            Some(more) => {
                let ghost before = rows@;
                let ghost head = model::seq_view(before);
                let ghost own = model::seq_view(more@);
                let mut k: usize = 0;
                assert(model::seq_view(rows@) =~= head + own.take(0));
                while k < more.len()
                    invariant
                        k <= more@.len(),
                        own == model::seq_view(more@),
                        model::seq_view(rows@) == head + own.take(k as int),
                    decreases more@.len() - k,
                {
                    let ghost now = rows@;
                    let row = more[k].copied();
                    rows.push(row);
                    k = k + 1;
                    proof {
                        assert(model::seq_view(rows@) =~= model::seq_view(now).push(row@));
                        assert(own.take(k as int) =~= own.take(k - 1).push(row@));
                        assert(model::seq_view(rows@) =~= head + own.take(k as int));
                    }
                }
                assert(own.take(own.len() as int) =~= own);
                application_count = application_count + 1;
            },
            None => {},
        }
        i = i + 1;
    }
    CatalogSnapshot { rows, application_count }
}

/// In a catalog the order of the applications and windows is that of their
/// names and references, not the one in which they were found.
pub proof fn catalog_forgets_the_order(
    windows_a: Seq<(Seq<char>, LiveModel)>,
    windows_b: Seq<(Seq<char>, LiveModel)>,
    slot: (Seq<char>, ApplicationModel),
    query: Seq<char>,
    own_pid: u32,
)
    requires
        table::distinct(windows_a),
        windows_a.to_multiset() == windows_b.to_multiset(),
    ensures
        app_rows(slot, windows_a, query, own_pid) == app_rows(slot, windows_b, query, own_pid),
{
    let a = slots_of(windows_a, slot.1.app_id);
    let b = slots_of(windows_b, slot.1.app_id);
    slots_multiset(windows_a, slot.1.app_id);
    slots_multiset(windows_b, slot.1.app_id);
    slots_are_distinct(windows_a, slot.1.app_id);
    assert(a.to_multiset() =~= b.to_multiset());
    order::sorted_keeps_all::<(String, Window)>(a);
    distinct_slots_are_apart(a);
    order::sorting_forgets_the_order::<(String, Window)>(a, b);
}

/// How often a slot is among those of an application.
proof fn slots_multiset(windows: Seq<(Seq<char>, LiveModel)>, app_id: Seq<char>)
    ensures
        forall|x: (Seq<char>, LiveModel)| #[trigger]
            slots_of(windows, app_id).to_multiset().count(x) == if x.1.app_id == app_id {
                windows.to_multiset().count(x)
            } else {
                0
            },
    decreases windows.len(),
{
    broadcast use vstd::seq_lib::group_to_multiset_ensures;

    let own = slots_of(windows, app_id);
    if windows.len() == 0 {
        assert(own =~= Seq::empty());
        assert forall|x: (Seq<char>, LiveModel)| #[trigger]
            own.to_multiset().count(x) == if x.1.app_id == app_id {
                windows.to_multiset().count(x)
            } else {
                0
            } by {
            assert(!own.contains(x));
            assert(!windows.contains(x));
        }
    } else {
        let rest = windows.drop_last();
        let last = windows.last();
        slots_multiset(rest, app_id);
        assert(windows =~= rest.push(last));
        let before = slots_of(rest, app_id);
        assert forall|x: (Seq<char>, LiveModel)| #[trigger]
            own.to_multiset().count(x) == if x.1.app_id == app_id {
                windows.to_multiset().count(x)
            } else {
                0
            } by {
            assert(before.to_multiset().count(x) == if x.1.app_id == app_id {
                rest.to_multiset().count(x)
            } else {
                0
            });
        }
    }
}

/// The slots of an application have each key once.
proof fn slots_are_distinct(windows: Seq<(Seq<char>, LiveModel)>, app_id: Seq<char>)
    requires
        table::distinct(windows),
    ensures
        table::distinct(slots_of(windows, app_id)),
        forall|i: int|
            0 <= i < slots_of(windows, app_id).len() ==> windows.contains(
                #[trigger] slots_of(windows, app_id)[i],
            ),
    decreases windows.len(),
{
    if windows.len() > 0 {
        let rest = windows.drop_last();
        assert forall|i: int, j: int| 0 <= i < j < rest.len() implies (#[trigger] rest[i]).0 != (
        #[trigger] rest[j]).0 by {
            assert(windows[i].0 != windows[j].0);
        }
        slots_are_distinct(rest, app_id);
        let before = slots_of(rest, app_id);
        let own = slots_of(windows, app_id);
        assert forall|i: int| 0 <= i < own.len() implies windows.contains(#[trigger] own[i]) by {
            if i < before.len() {
                assert(own[i] == before[i]);
                let k = rest.index_of(before[i]);
                assert(windows[k] == rest[k]);
            } else {
                assert(windows[windows.len() - 1] == own[i]);
            }
        }
        assert forall|i: int, j: int| 0 <= i < j < own.len() implies (#[trigger] own[i]).0 != (
        #[trigger] own[j]).0 by {
            assert(own[i] == before[i]);
            if j < before.len() {
                assert(own[j] == before[j]);
            } else {
                let k = rest.index_of(before[i]);
                assert(windows[k] == rest[k]);
                assert(windows[k].0 != windows[windows.len() - 1].0);
            }
        }
    }
}

/// Of slots with different references one stands before the other.
proof fn distinct_slots_are_apart(s: Seq<(Seq<char>, LiveModel)>)
    requires
        table::distinct(s),
    ensures
        order::all_apart::<(String, Window)>(order::sorted::<(String, Window)>(s)),
{
    broadcast use vstd::seq_lib::group_to_multiset_ensures;

    let t = order::sorted::<(String, Window)>(s);
    order::sorted_keeps_all::<(String, Window)>(s);
    order::sorted_is_in_order::<(String, Window)>(s);
    assert(s.no_duplicates()) by {
        assert forall|i: int, j: int|
            0 <= i < s.len() && 0 <= j < s.len() && i != j implies s[i] != s[j] by {
            if i < j {
                assert(s[i].0 != s[j].0);
            } else {
                assert(s[j].0 != s[i].0);
            }
        }
    }
    s.lemma_multiset_has_no_duplicates();
    t.lemma_multiset_has_no_duplicates_conv();
    assert forall|i: int, j: int|
        0 <= i < t.len() && 0 <= j < t.len() && i != j implies <(
        String,
        Window,
    ) as Ordered>::before(#[trigger] t[i], #[trigger] t[j]) || <(
        String,
        Window,
    ) as Ordered>::before(t[j], t[i]) by {
        assert(t[i] != t[j]);
        assert(t.to_multiset().count(t[i]) > 0);
        assert(t.to_multiset().count(t[j]) > 0);
        assert(s.contains(t[i]) && s.contains(t[j]));
        let p = s.index_of(t[i]);
        let q = s.index_of(t[j]);
        assert(s[p] == t[i] && s[q] == t[j]);
        assert(p != q);
        assert(t[i].0 != t[j].0) by {
            if p < q {
                assert(s[p].0 != s[q].0);
            } else {
                assert(s[q].0 != s[p].0);
            }
        }
        three_way(text::lowercased(t[i].1.title), text::lowercased(t[j].1.title), t[i].0);
        three_way(t[i].1.title, t[j].1.title, t[i].0);
        three_way(t[i].0, t[j].0, t[i].0);
    }
}

/// A window of a page.
pub open spec fn window_entry(w: (Seq<char>, LiveModel)) -> WindowEntryModel {
    WindowEntryModel { window_ref: w.0, title: text::clipped(w.1.title, 120) }
}

/// An application of a page, without its windows.
pub open spec fn app_entry(row: RowModel) -> AppEntryModel {
    AppEntryModel {
        app_ref: row.reference,
        app_id: if row.app.app_id.len() <= 256 {
            Some(row.app.app_id)
        } else {
            None
        },
        name: text::clipped(row.app.name, 96),
        is_self: row.is_self,
        launch_ref: if row.app.launch_path is Some {
            Some(row.reference)
        } else {
            None
        },
        running: row.window_count > 0,
        window_count: row.window_count,
        windows: Seq::empty(),
    }
}

/// The applications of a page after a row was added.
pub open spec fn with_row(apps: Seq<AppEntryModel>, row: RowModel) -> Seq<AppEntryModel> {
    let known = apps.len() > 0 && apps.last().app_ref == row.reference;
    let grown = if known {
        apps
    } else {
        apps.push(app_entry(row))
    };
    match row.window {
        Some(w) => grown.update(
            grown.len() - 1,
            AppEntryModel {
                windows: grown.last().windows.push(window_entry(w)),
                ..grown.last()
            },
        ),
        None => grown,
    }
}

/// A page with so many rows.
pub open spec fn page_of(
    s: SnapshotModel,
    cursor: int,
    apps: Seq<AppEntryModel>,
    count: int,
) -> PageModel {
    PageModel {
        applications: apps,
        application_count: s.application_count,
        target_count: s.rows.len() as usize,
        cursor: cursor as usize,
        next_cursor: if cursor + count < s.rows.len() {
            Some((cursor + count) as usize)
        } else {
            None
        },
    }
}

/// Windows in JSON.
pub open spec fn windows_text(ws: Seq<WindowEntryModel>) -> Seq<char>
    decreases ws.len(),
{
    if ws.len() == 0 {
        Seq::empty()
    } else {
        windows_text(ws.drop_last()) + (if ws.len() > 1 {
            ","@
        } else {
            Seq::empty()
        }) + "{\"title\":"@ + json::string_text(ws.last().title) + ",\"window_ref\":"@
            + json::string_text(ws.last().window_ref) + "}"@
    }
}

/// An application in JSON.
pub open spec fn app_text(a: AppEntryModel) -> Seq<char> {
    "{\"app_id\":"@ + json::opt_text(a.app_id) + ",\"app_ref\":"@ + json::string_text(a.app_ref)
        + ",\"is_self\":"@ + json::bool_text(a.is_self) + ",\"launch_ref\":"@ + json::opt_text(
        a.launch_ref,
    ) + ",\"name\":"@ + json::string_text(a.name) + ",\"running\":"@ + json::bool_text(a.running)
        + ",\"window_count\":"@ + text::decimal_text(a.window_count as nat) + ",\"windows\":["@
        + windows_text(a.windows) + "]}"@
}

/// Applications in JSON.
pub open spec fn apps_text(apps: Seq<AppEntryModel>) -> Seq<char>
    decreases apps.len(),
{
    if apps.len() == 0 {
        Seq::empty()
    } else {
        apps_text(apps.drop_last()) + (if apps.len() > 1 {
            ","@
        } else {
            Seq::empty()
        }) + app_text(apps.last())
    }
}

/// A page in JSON.
#[verifier::opaque]
pub open spec fn page_text(p: PageModel) -> Seq<char> {
    "{\"application_count\":"@ + text::decimal_text(p.application_count as nat)
        + ",\"applications\":["@ + apps_text(p.applications) + "],\"cursor\":"@
        + text::decimal_text(p.cursor as nat) + ",\"next_cursor\":"@ + json::opt_number(
        p.next_cursor,
    ) + ",\"target_count\":"@ + text::decimal_text(p.target_count as nat) + "}"@
}

/// A page that is being filled: its applications, how many rows they hold, and
/// whether another would not fit. None where not even one row fits.
pub open spec fn filled_page(s: SnapshotModel, cursor: int, n: int) -> Option<
    (Seq<AppEntryModel>, int, bool),
>
    decreases n,
{
    if n <= 0 {
        Some((Seq::empty(), 0, false))
    } else {
        match filled_page(s, cursor, n - 1) {
            None => None,
            Some((apps, count, full)) => if full {
                Some((apps, count, true))
            } else {
                let proposed = with_row(apps, s.rows[cursor + n - 1]);
                if json::byte_len(page_text(page_of(s, cursor, proposed, count + 1)))
                    > PAGE_BUDGET {
                    if count == 0 {
                        None
                    } else {
                        Some((apps, count, true))
                    }
                } else {
                    Some((proposed, count + 1, false))
                }
            },
        }
    }
}

/// How many rows a page may have from a position on.
pub open spec fn page_span(s: SnapshotModel, cursor: int) -> int {
    if s.rows.len() - cursor > PAGE_ROWS {
        PAGE_ROWS as int
    } else {
        s.rows.len() - cursor
    }
}

/// The page of a catalog from a position on.
pub open spec fn page_model(s: SnapshotModel, cursor: int) -> Result<PageModel, Seq<char>> {
    if cursor > s.rows.len() {
        Err("invalid_cursor: 目标分页位置无效"@)
    } else {
        match filled_page(s, cursor, page_span(s, cursor)) {
            Some((apps, count, _)) => Ok(page_of(s, cursor, apps, count)),
            None => Err("Target catalog entry exceeds the presentation budget"@),
        }
    }
}

/// How many rows a page holds.
proof fn filled_page_counts(s: SnapshotModel, cursor: int, n: int)
    requires
        0 <= n,
    ensures
        filled_page(s, cursor, n) matches Some((apps, count, full)) ==> {
            &&& 0 <= count <= n
            &&& !full ==> count == n
            &&& n > 0 ==> count > 0
            &&& count > 0 ==> json::byte_len(page_text(page_of(s, cursor, apps, count)))
                <= PAGE_BUDGET
        },
    decreases n,
{
    if n > 0 {
        filled_page_counts(s, cursor, n - 1);
    }
}

/// The rows that stand on a page: each window under its application, and each
/// application without windows.
pub open spec fn shown_rows(apps: Seq<AppEntryModel>) -> Seq<(Seq<char>, Option<WindowEntryModel>)>
    decreases apps.len(),
{
    if apps.len() == 0 {
        Seq::empty()
    } else {
        let a = apps.last();
        shown_rows(apps.drop_last()) + if a.windows.len() == 0 {
            seq![(a.app_ref, None)]
        } else {
            Seq::new(a.windows.len(), |i: int| (a.app_ref, Some(a.windows[i])))
        }
    }
}

/// A row as a page shows it.
pub open spec fn shown_row(row: RowModel) -> (Seq<char>, Option<WindowEntryModel>) {
    (
        row.reference,
        match row.window {
            Some(w) => Some(window_entry(w)),
            None => None,
        },
    )
}

/// Rows as a page shows them.
pub open spec fn as_shown(rows: Seq<RowModel>) -> Seq<(Seq<char>, Option<WindowEntryModel>)> {
    Seq::new(rows.len(), |i: int| shown_row(rows[i]))
}

/// Whether a row without a window stands for its application alone: the rows
/// next to it are of other applications.
pub open spec fn lone_rows(rows: Seq<RowModel>) -> bool {
    forall|i: int, j: int|
        0 <= i < rows.len() && j == i + 1 && j < rows.len() && (#[trigger] rows[i]).reference == (
        #[trigger] rows[j]).reference ==> rows[i].window is Some && rows[j].window is Some
}

/// Whether each row fits on a page of its own.
pub open spec fn rows_fit(s: SnapshotModel) -> bool {
    forall|i: int|
        0 <= i < s.rows.len() ==> json::byte_len(
            page_text(page_of(s, i, with_row(Seq::empty(), #[trigger] s.rows[i]), 1)),
        ) <= PAGE_BUDGET
}

/// Whether the references of a row are short, as digests behind a prefix are.
pub open spec fn short_references(row: RowModel) -> bool {
    row.reference.len() <= 64 && (row.window matches Some(w) ==> w.0.len() <= 64)
}

/// The references of applications and windows are short.
pub proof fn references_are_short(app_id: Seq<char>, w: LiveModel)
    ensures
        app_ref(app_id).len() <= 64,
        window_ref(w).len() <= 64,
{
    reveal_strlit("app:");
    reveal_strlit("window:");
    text::hex_text_len(hashing::digest(app_id) as nat, 16);
    let seed = w.app_id + "|"@ + text::decimal_text(w.pid as nat) + "|"@ + text::signed_text(
        w.hwnd as int,
    );
    text::hex_text_len(hashing::digest(seed) as nat, 16);
}

/// The windows of a page with one row.
proof fn single_window_is_bounded(row: RowModel)
    requires
        short_references(row),
    ensures
        json::byte_len(windows_text(with_row(Seq::empty(), row)[0].windows)) <= 1300,
{
    let ws = with_row(Seq::empty(), row)[0].windows;
    match row.window {
        Some(w) => {
            let e = window_entry(w);
            assert(ws =~= seq![e]);
            assert(ws.drop_last() =~= Seq::empty());
            assert(windows_text(ws.drop_last()) =~= Seq::empty());
            reveal_strlit("{\"title\":");
            reveal_strlit(",\"window_ref\":");
            reveal_strlit("}");
            let a = "{\"title\":"@ + json::string_text(e.title);
            let b = ",\"window_ref\":"@ + json::string_text(e.window_ref);
            json::byte_len_is_bounded("{\"title\":"@);
            json::byte_len_is_bounded(",\"window_ref\":"@);
            json::byte_len_is_bounded("}"@);
            json::string_text_is_bounded(e.title);
            json::string_text_is_bounded(e.window_ref);
            json::byte_len_adds("{\"title\":"@, json::string_text(e.title));
            json::byte_len_adds(",\"window_ref\":"@, json::string_text(e.window_ref));
            json::byte_len_adds(a, b);
            json::byte_len_adds(a + b, "}"@);
            assert(windows_text(ws) =~= a + b + "}"@);
        },
        None => {
            assert(ws =~= Seq::empty());
        },
    }
}

/// A member in JSON takes as many bytes as its name and its value.
proof fn member_is_bounded(before: Seq<char>, name: Seq<char>, value: Seq<char>)
    ensures
        json::byte_len(before + name + value) <= json::byte_len(before) + 4 * name.len()
            + json::byte_len(value),
{
    json::byte_len_adds(before, name);
    json::byte_len_adds(before + name, value);
    json::byte_len_is_bounded(name);
}

/// A number takes at most four bytes for each of twenty digits.
proof fn number_is_bounded(n: usize)
    ensures
        json::byte_len(text::decimal_text(n as nat)) <= 80,
{
    text::decimal_is_bounded(n as u64);
    json::byte_len_is_bounded(text::decimal_text(n as nat));
}

/// The application of a page with one row.
proof fn single_application_is_bounded(row: RowModel)
    requires
        short_references(row),
    ensures
        json::byte_len(app_text(with_row(Seq::empty(), row)[0])) <= 5300,
{
    let a = with_row(Seq::empty(), row)[0];
    single_window_is_bounded(row);
    json::opt_text_is_bounded(a.app_id, 256);
    json::string_text_is_bounded(a.app_ref);
    json::bool_text_is_bounded(a.is_self);
    json::opt_text_is_bounded(a.launch_ref, 64);
    json::string_text_is_bounded(a.name);
    json::bool_text_is_bounded(a.running);
    number_is_bounded(a.window_count);
    reveal_strlit("{\"app_id\":");
    reveal_strlit(",\"app_ref\":");
    reveal_strlit(",\"is_self\":");
    reveal_strlit(",\"launch_ref\":");
    reveal_strlit(",\"name\":");
    reveal_strlit(",\"running\":");
    reveal_strlit(",\"window_count\":");
    reveal_strlit(",\"windows\":[");
    reveal_strlit("]}");
    let x0 = Seq::<char>::empty();
    let x1 = x0 + "{\"app_id\":"@ + json::opt_text(a.app_id);
    member_is_bounded(x0, "{\"app_id\":"@, json::opt_text(a.app_id));
    let x2 = x1 + ",\"app_ref\":"@ + json::string_text(a.app_ref);
    member_is_bounded(x1, ",\"app_ref\":"@, json::string_text(a.app_ref));
    let x3 = x2 + ",\"is_self\":"@ + json::bool_text(a.is_self);
    member_is_bounded(x2, ",\"is_self\":"@, json::bool_text(a.is_self));
    let x4 = x3 + ",\"launch_ref\":"@ + json::opt_text(a.launch_ref);
    member_is_bounded(x3, ",\"launch_ref\":"@, json::opt_text(a.launch_ref));
    let x5 = x4 + ",\"name\":"@ + json::string_text(a.name);
    member_is_bounded(x4, ",\"name\":"@, json::string_text(a.name));
    let x6 = x5 + ",\"running\":"@ + json::bool_text(a.running);
    member_is_bounded(x5, ",\"running\":"@, json::bool_text(a.running));
    let x7 = x6 + ",\"window_count\":"@ + text::decimal_text(a.window_count as nat);
    member_is_bounded(x6, ",\"window_count\":"@, text::decimal_text(a.window_count as nat));
    let x8 = x7 + ",\"windows\":["@ + windows_text(a.windows);
    member_is_bounded(x7, ",\"windows\":["@, windows_text(a.windows));
    member_is_bounded(x8, "]}"@, x0);
    assert(x0 + "{\"app_id\":"@ =~= "{\"app_id\":"@);
    assert(x8 + "]}"@ + x0 =~= app_text(a));
}

/// A row with short references fits on a page of its own, whatever its other
/// texts hold: they are cut, and every character takes a bounded number of
/// bytes.
pub proof fn short_rows_fit(s: SnapshotModel)
    requires
        forall|i: int| 0 <= i < s.rows.len() ==> short_references(#[trigger] s.rows[i]),
    ensures
        rows_fit(s),
{
    assert forall|i: int| 0 <= i < s.rows.len() implies json::byte_len(
        page_text(page_of(s, i, with_row(Seq::empty(), #[trigger] s.rows[i]), 1)),
    ) <= PAGE_BUDGET by {
        single_row_fits(s, i);
    }
}

/// The same of one row.
proof fn single_row_fits(s: SnapshotModel, i: int)
    requires
        0 <= i < s.rows.len(),
        short_references(s.rows[i]),
    ensures
        json::byte_len(page_text(page_of(s, i, with_row(Seq::empty(), s.rows[i]), 1)))
            <= PAGE_BUDGET,
{
    let apps = with_row(Seq::empty(), s.rows[i]);
    single_application_is_bounded(s.rows[i]);
    assert(apps =~= seq![apps[0]]);
    assert(apps.drop_last() =~= Seq::empty());
    assert(apps_text(apps.drop_last()) =~= Seq::empty());
    assert(apps_text(apps) =~= app_text(apps[0]));
    page_is_bounded(page_of(s, i, apps, 1));
}

/// What a page takes beside its applications.
proof fn page_is_bounded(p: PageModel)
    ensures
        json::byte_len(page_text(p)) <= json::byte_len(apps_text(p.applications)) + 700,
{
    let apps = p.applications;
    reveal_strlit("{\"application_count\":");
    reveal_strlit(",\"applications\":[");
    reveal_strlit("],\"cursor\":");
    reveal_strlit(",\"next_cursor\":");
    reveal_strlit(",\"target_count\":");
    reveal_strlit("}");
    number_is_bounded(p.application_count);
    number_is_bounded(p.cursor);
    number_is_bounded(p.target_count);
    match p.next_cursor {
        Some(next) => {
            number_is_bounded(next);
        },
        None => {
            json::opt_text_is_bounded(None, 0);
        },
    }
    let x0 = Seq::<char>::empty();
    let count = text::decimal_text(p.application_count as nat);
    let x1 = x0 + "{\"application_count\":"@ + count;
    member_is_bounded(x0, "{\"application_count\":"@, count);
    let x2 = x1 + ",\"applications\":["@ + apps_text(apps);
    member_is_bounded(x1, ",\"applications\":["@, apps_text(apps));
    let cursor = text::decimal_text(p.cursor as nat);
    let x3 = x2 + "],\"cursor\":"@ + cursor;
    member_is_bounded(x2, "],\"cursor\":"@, cursor);
    let next = json::opt_number(p.next_cursor);
    let x4 = x3 + ",\"next_cursor\":"@ + next;
    member_is_bounded(x3, ",\"next_cursor\":"@, next);
    let total = text::decimal_text(p.target_count as nat);
    let x5 = x4 + ",\"target_count\":"@ + total;
    member_is_bounded(x4, ",\"target_count\":"@, total);
    member_is_bounded(x5, "}"@, x0);
    reveal(page_text);
    assert(x0 + "{\"application_count\":"@ =~= "{\"application_count\":"@);
    assert(x5 + "}"@ + x0 =~= page_text(p));
}

/// A row that is added stands on the page, behind the others.
proof fn row_is_added(apps: Seq<AppEntryModel>, row: RowModel)
    requires
        apps.len() > 0 && apps.last().app_ref == row.reference ==> apps.last().windows.len() > 0
            && row.window is Some,
    ensures
        shown_rows(with_row(apps, row)) == shown_rows(apps).push(shown_row(row)),
        with_row(apps, row).len() > 0,
        with_row(apps, row).last().app_ref == row.reference,
        with_row(apps, row).last().windows.len() > 0 <==> row.window is Some,
{
    let known = apps.len() > 0 && apps.last().app_ref == row.reference;
    let grown = if known {
        apps
    } else {
        apps.push(app_entry(row))
    };
    if !known {
        assert(grown.drop_last() =~= apps);
    }
    match row.window {
        Some(w) => {
            let last = grown.last();
            let more = AppEntryModel { windows: last.windows.push(window_entry(w)), ..last };
            let all = grown.update(grown.len() - 1, more);
            assert(all.drop_last() =~= grown.drop_last());
            let own = Seq::new(last.windows.len(), |i: int| (last.app_ref, Some(last.windows[i])));
            let grown_own = Seq::new(
                more.windows.len(),
                |i: int| (more.app_ref, Some(more.windows[i])),
            );
            assert(grown_own =~= own.push(shown_row(row)));
            assert(shown_rows(all) =~= shown_rows(grown.drop_last()) + grown_own);
            if known {
                assert(shown_rows(apps) =~= shown_rows(apps.drop_last()) + own);
            } else {
                assert(own =~= Seq::empty());
            }
            assert(shown_rows(all) =~= shown_rows(apps).push(shown_row(row)));
        },
        None => {
            assert(shown_rows(grown) =~= shown_rows(apps).push(shown_row(row)));
        },
    }
}

/// The rows of a page are those from its position on.
proof fn filled_page_shows_its_rows(s: SnapshotModel, cursor: int, n: int)
    requires
        0 <= cursor,
        0 <= n,
        cursor + n <= s.rows.len(),
        lone_rows(s.rows),
    ensures
        filled_page(s, cursor, n) matches Some((apps, count, full)) ==> {
            &&& shown_rows(apps) == as_shown(s.rows.subrange(cursor, cursor + count))
            &&& count == 0 <==> apps.len() == 0
            &&& count > 0 ==> apps.last().app_ref == s.rows[cursor + count - 1].reference
            &&& count > 0 ==> (apps.last().windows.len() > 0 <==> s.rows[cursor + count
                - 1].window is Some)
        },
    decreases n,
{
    if n > 0 {
        filled_page_shows_its_rows(s, cursor, n - 1);
        filled_page_counts(s, cursor, n - 1);
        match filled_page(s, cursor, n - 1) {
            Some((apps, count, full)) => {
                if !full {
                    let row = s.rows[cursor + n - 1];
                    if count > 0 {
                        assert(s.rows[cursor + count - 1].reference == row.reference
                            ==> s.rows[cursor + count - 1].window is Some && row.window is Some);
                    }
                    row_is_added(apps, row);
                    assert(as_shown(s.rows.subrange(cursor, cursor + count + 1)) =~= as_shown(
                        s.rows.subrange(cursor, cursor + count),
                    ).push(shown_row(row)));
                }
            },
            None => {},
        }
    } else {
        assert(as_shown(s.rows.subrange(cursor, cursor)) =~= Seq::empty());
    }
}

/// A page on which the first row fits can be filled.
proof fn filled_page_exists(s: SnapshotModel, cursor: int, n: int)
    requires
        0 <= cursor,
        cursor + n <= s.rows.len(),
        rows_fit(s),
    ensures
        filled_page(s, cursor, n) is Some,
    decreases n,
{
    if n > 0 {
        filled_page_exists(s, cursor, n - 1);
        filled_page_counts(s, cursor, n - 1);
        reveal_with_fuel(filled_page, 2);
        assert(s.rows[cursor] == s.rows[cursor + 0]);
    }
}

/// The applications of rows: each row added to those before it.
pub open spec fn grouped(rows: Seq<RowModel>) -> Seq<AppEntryModel>
    decreases rows.len(),
{
    if rows.len() == 0 {
        Seq::empty()
    } else {
        with_row(grouped(rows.drop_last()), rows.last())
    }
}

/// A page holds its rows.
proof fn filled_page_is_grouped(s: SnapshotModel, cursor: int, n: int)
    requires
        0 <= cursor,
        0 <= n,
        cursor + n <= s.rows.len(),
    ensures
        filled_page(s, cursor, n) matches Some((apps, count, full)) ==> apps == grouped(
            s.rows.subrange(cursor, cursor + count),
        ),
    decreases n,
{
    if n > 0 {
        filled_page_is_grouped(s, cursor, n - 1);
        filled_page_counts(s, cursor, n - 1);
        match filled_page(s, cursor, n - 1) {
            Some((apps, count, full)) => {
                if !full {
                    let rows = s.rows.subrange(cursor, cursor + count + 1);
                    assert(rows.drop_last() =~= s.rows.subrange(cursor, cursor + count));
                    assert(rows.last() == s.rows[cursor + n - 1]);
                }
            },
            None => {},
        }
    } else {
        assert(s.rows.subrange(cursor, cursor) =~= Seq::empty());
    }
}

/// The position behind the last row of a page.
pub open spec fn page_end(s: SnapshotModel, p: PageModel) -> int {
    match p.next_cursor {
        Some(next) => next as int,
        None => s.rows.len() as int,
    }
}

/// What a page gives: where each row fits on a page of its own, there is one
/// for every position up to the end and for no other. It counts all rows and
/// holds those from its position up to the one that it gives, which lies
/// further on; it gives none where it holds all that are left. It has no more
/// rows and takes no more bytes than a page may.
pub proof fn page_holds_its_rows(s: SnapshotModel, cursor: int)
    requires
        0 <= cursor,
        s.rows.len() <= usize::MAX,
        rows_fit(s),
    ensures
        page_model(s, cursor) is Ok <==> cursor <= s.rows.len(),
        page_model(s, cursor) matches Ok(p) ==> {
            let end = page_end(s, p);
            &&& p.cursor == cursor
            &&& p.target_count == s.rows.len()
            &&& cursor <= end <= s.rows.len()
            &&& cursor < s.rows.len() ==> cursor < end
            &&& end - cursor <= PAGE_ROWS
            &&& p.applications == grouped(s.rows.subrange(cursor, end))
            &&& json::byte_len(page_text(p)) <= PAGE_BUDGET
        },
{
    if cursor <= s.rows.len() {
        let n = page_span(s, cursor);
        filled_page_counts(s, cursor, n);
        filled_page_exists(s, cursor, n);
        filled_page_is_grouped(s, cursor, n);
        if cursor == s.rows.len() {
            let p = page_model(s, cursor)->Ok_0;
            page_is_bounded(p);
            assert(s.rows.subrange(cursor, cursor) =~= Seq::empty());
            assert(apps_text(p.applications) =~= Seq::empty());
        }
    }
}

/// On a page each row can be told from the others: it shows them in their
/// order and each once, applications without windows among them.
pub proof fn page_shows_its_rows(s: SnapshotModel, cursor: int)
    requires
        0 <= cursor <= s.rows.len(),
        s.rows.len() <= usize::MAX,
        rows_fit(s),
        lone_rows(s.rows),
    ensures
        page_model(s, cursor) matches Ok(p) && shown_rows(p.applications) == as_shown(
            s.rows.subrange(cursor, page_end(s, p)),
        ),
{
    let n = page_span(s, cursor);
    filled_page_counts(s, cursor, n);
    filled_page_exists(s, cursor, n);
    filled_page_shows_its_rows(s, cursor, n);
}

/// The rows that are held from a position on where each page is followed by
/// the one at the position that it gives.
pub open spec fn held_from(s: SnapshotModel, cursor: int) -> Seq<RowModel>
    decreases s.rows.len() - cursor,
{
    match page_model(s, cursor) {
        Ok(p) => s.rows.subrange(cursor, page_end(s, p)) + match p.next_cursor {
            Some(next) => if cursor < next <= s.rows.len() {
                held_from(s, next as int)
            } else {
                Seq::empty()
            },
            None => Seq::empty(),
        },
        Err(_) => Seq::empty(),
    }
}

/// All that is seen from a position on where each page is followed by the one
/// at the position that it gives.
pub open spec fn seen_from(s: SnapshotModel, cursor: int) -> Seq<
    (Seq<char>, Option<WindowEntryModel>),
>
    decreases s.rows.len() - cursor,
{
    match page_model(s, cursor) {
        Ok(p) => shown_rows(p.applications) + match p.next_cursor {
            Some(next) => if cursor < next <= s.rows.len() {
                seen_from(s, next as int)
            } else {
                Seq::empty()
            },
            None => Seq::empty(),
        },
        Err(_) => Seq::empty(),
    }
}

/// Following the positions that pages give, from the first page on, goes
/// through every row exactly once and in order; and where each application
/// without windows has a row of its own, every row is shown so.
pub proof fn catalog_is_fully_pageable(s: SnapshotModel)
    requires
        s.rows.len() <= usize::MAX,
        rows_fit(s),
    ensures
        held_from(s, 0) == s.rows,
        lone_rows(s.rows) ==> seen_from(s, 0) == as_shown(s.rows),
{
    rest_is_fully_pageable(s, 0);
    assert(s.rows.subrange(0, s.rows.len() as int) =~= s.rows);
}

/// The same from any position on.
pub proof fn rest_is_fully_pageable(s: SnapshotModel, cursor: int)
    requires
        0 <= cursor <= s.rows.len(),
        s.rows.len() <= usize::MAX,
        rows_fit(s),
    ensures
        held_from(s, cursor) == s.rows.subrange(cursor, s.rows.len() as int),
        lone_rows(s.rows) ==> seen_from(s, cursor) == as_shown(
            s.rows.subrange(cursor, s.rows.len() as int),
        ),
    decreases s.rows.len() - cursor,
{
    page_holds_its_rows(s, cursor);
    if lone_rows(s.rows) {
        page_shows_its_rows(s, cursor);
    }
    match page_model(s, cursor) {
        Ok(p) => {
            let rest = s.rows.subrange(cursor, s.rows.len() as int);
            if let Some(next) = p.next_cursor {
                filled_page_counts(s, cursor, page_span(s, cursor));
                rest_is_fully_pageable(s, next as int);
                let head = s.rows.subrange(cursor, next as int);
                let tail = s.rows.subrange(next as int, s.rows.len() as int);
                assert(rest =~= head + tail);
                assert(as_shown(rest) =~= as_shown(head) + as_shown(tail));
            } else {
                assert(held_from(s, cursor) =~= rest);
            }
        },
        Err(_) => {},
    }
}

/// The first applications have rows of their own, and no two of them share one.
proof fn rows_upto_are_lone(
    apps: Seq<(Seq<char>, ApplicationModel)>,
    windows: Seq<(Seq<char>, LiveModel)>,
    query: Seq<char>,
    own_pid: u32,
    n: int,
)
    requires
        table::distinct(apps),
        0 <= n <= apps.len(),
    ensures
        lone_rows(rows_upto(apps, windows, query, own_pid, n).0),
        forall|i: int|
            0 <= i < rows_upto(apps, windows, query, own_pid, n).0.len() ==> exists|k: int|
                0 <= k < n && #[trigger] apps[k].0 == (#[trigger] rows_upto(
                    apps,
                    windows,
                    query,
                    own_pid,
                    n,
                ).0[i]).reference,
    decreases n,
{
    if n > 0 {
        rows_upto_are_lone(apps, windows, query, own_pid, n - 1);
        let before = rows_upto(apps, windows, query, own_pid, n - 1).0;
        let all = rows_upto(apps, windows, query, own_pid, n).0;
        match app_rows(apps[n - 1], windows, query, own_pid) {
            Some(rows) => {
                assert forall|i: int| 0 <= i < all.len() implies exists|k: int|
                    0 <= k < n && #[trigger] apps[k].0 == (#[trigger] all[i]).reference by {
                    if i < before.len() {
                        assert(all[i] == before[i]);
                        let k = choose|k: int|
                            0 <= k < n - 1 && #[trigger] apps[k].0 == before[i].reference;
                        assert(apps[k].0 == all[i].reference);
                    } else {
                        assert(all[i] == rows[i - before.len()]);
                        assert(apps[n - 1].0 == all[i].reference);
                    }
                }
                assert forall|i: int, j: int|
                    0 <= i < all.len() && j == i + 1 && j < all.len() && (
                    #[trigger] all[i]).reference == (#[trigger] all[j]).reference implies
                    all[i].window is Some && all[j].window is Some by {
                    if j < before.len() {
                        assert(all[i] == before[i] && all[j] == before[j]);
                    } else if i < before.len() {
                        assert(all[i] == before[i]);
                        assert(all[j] == rows[j - before.len()]);
                        let k = choose|k: int|
                            0 <= k < n - 1 && #[trigger] apps[k].0 == before[i].reference;
                        assert(apps[k].0 != apps[n - 1].0);
                    } else {
                        assert(all[i] == rows[i - before.len()]);
                        assert(all[j] == rows[j - before.len()]);
                    }
                }
            },
            None => {},
        }
    }
}

/// In a catalog of applications with different references, an application
/// without windows has a single row.
pub proof fn catalog_rows_are_lone(
    apps: Seq<(Seq<char>, ApplicationModel)>,
    windows: Seq<(Seq<char>, LiveModel)>,
    query: Seq<char>,
    own_pid: u32,
)
    requires
        table::distinct(apps),
    ensures
        lone_rows(snapshot_model(apps, windows, query, own_pid).rows),
{
    broadcast use vstd::seq_lib::group_to_multiset_ensures;

    let list = order::sorted::<(String, Application)>(apps);
    order::sorted_keeps_all::<(String, Application)>(apps);
    assert(apps.no_duplicates()) by {
        assert forall|i: int, j: int|
            0 <= i < apps.len() && 0 <= j < apps.len() && i != j implies apps[i] != apps[j] by {
            if i < j {
                assert(apps[i].0 != apps[j].0);
            } else {
                assert(apps[j].0 != apps[i].0);
            }
        }
    }
    apps.lemma_multiset_has_no_duplicates();
    list.lemma_multiset_has_no_duplicates_conv();
    assert forall|i: int, j: int| 0 <= i < j < list.len() implies (#[trigger] list[i]).0 != (
    #[trigger] list[j]).0 by {
        assert(list[i] != list[j]);
        assert(list.to_multiset().count(list[i]) > 0);
        assert(list.to_multiset().count(list[j]) > 0);
        assert(apps.contains(list[i]) && apps.contains(list[j]));
        let p = apps.index_of(list[i]);
        let q = apps.index_of(list[j]);
        assert(apps[p] == list[i] && apps[q] == list[j]);
        if p < q {
            assert(apps[p].0 != apps[q].0);
        } else {
            assert(apps[q].0 != apps[p].0);
        }
    }
    rows_upto_are_lone(list, windows, query, own_pid, list.len() as int);
}

/// Adds windows in JSON.
fn put_windows(out: &mut String, ws: &Vec<WindowEntry>)
    ensures
        final(out)@ == old(out)@ + windows_text(model::seq_view(ws@)),
{
    let ghost s = model::seq_view(ws@);
    let ghost before = out@;
    let mut i: usize = 0;
    assert(out@ =~= before + windows_text(s.take(0)));
    while i < ws.len()
        invariant
            i <= ws@.len(),
            s == model::seq_view(ws@),
            out@ == before + windows_text(s.take(i as int)),
        decreases ws@.len() - i,
    {
        proof {
            assert(s.take(i + 1).drop_last() == s.take(i as int));
            assert(s.take(i + 1).last() == ws@[i as int]@);
        }
        if i > 0 {
            out.append(",");
        }
        out.append("{\"title\":");
        put_string(out, ws[i].title.as_str());
        out.append(",\"window_ref\":");
        put_string(out, ws[i].window_ref.as_str());
        out.append("}");
        i = i + 1;
        assert(out@ =~= before + windows_text(s.take(i as int)));
    }
    assert(s.take(s.len() as int) == s);
}

/// An application in JSON.
fn app_json(a: &AppEntry) -> (r: String)
    ensures
        r@ == app_text(a@),
{
    let mut out = owned("{\"app_id\":");
    put_opt_string(&mut out, &a.app_id);
    out.append(",\"app_ref\":");
    put_string(&mut out, a.app_ref.as_str());
    out.append(",\"is_self\":");
    put_bool(&mut out, a.is_self);
    out.append(",\"launch_ref\":");
    put_opt_string(&mut out, &a.launch_ref);
    out.append(",\"name\":");
    put_string(&mut out, a.name.as_str());
    out.append(",\"running\":");
    put_bool(&mut out, a.running);
    out.append(",\"window_count\":");
    put_number(&mut out, a.window_count);
    out.append(",\"windows\":[");
    put_windows(&mut out, &a.windows);
    out.append("]}");
    out
}

impl CatalogPage {
    /// The page in JSON.
    pub fn to_json(&self) -> (r: String)
        ensures
            r@ == page_text(self@),
    {
        let mut out = owned("{\"application_count\":");
        put_number(&mut out, self.application_count);
        out.append(",\"applications\":[");
        let ghost head = out@;
        let ghost s = model::seq_view(self.applications@);
        let mut i: usize = 0;
        assert(out@ =~= head + apps_text(s.take(0)));
        while i < self.applications.len()
            invariant
                i <= self.applications@.len(),
                s == model::seq_view(self.applications@),
                out@ == head + apps_text(s.take(i as int)),
            decreases self.applications@.len() - i,
        {
            proof {
                assert(s.take(i + 1).drop_last() == s.take(i as int));
                assert(s.take(i + 1).last() == self.applications@[i as int]@);
            }
            if i > 0 {
                out.append(",");
            }
            out.append(app_json(&self.applications[i]).as_str());
            i = i + 1;
            assert(out@ =~= head + apps_text(s.take(i as int)));
        }
        assert(s.take(s.len() as int) == s);
        out.append("],\"cursor\":");
        put_number(&mut out, self.cursor);
        out.append(",\"next_cursor\":");
        put_opt_number(&mut out, self.next_cursor);
        out.append(",\"target_count\":");
        put_number(&mut out, self.target_count);
        out.append("}");
        proof {
            reveal(page_text);
        }
        out
    }
}

/// The applications of a page with a row.
fn add_row(apps: &Vec<AppEntry>, row: &CatalogRow) -> (r: Vec<AppEntry>)
    ensures
        model::seq_view(r@) == with_row(model::seq_view(apps@), row@),
{
    let mut out = copy_all(apps);
    let ghost before = model::seq_view(out@);
    let n: usize = out.len();
    let known = n > 0 && same_text(out[n - 1].app_ref.as_str(), row.reference.as_str());
    if !known {
        let app_id: Option<String> = if text::chars_of(row.app.app_id.as_str()).len() <= 256 {
            Some(row.app.app_id.clone())
        } else {
            None
        };
        let launch_ref: Option<String> = if row.app.launch_path.is_some() {
            Some(row.reference.clone())
        } else {
            None
        };
        let entry = AppEntry {
            app_ref: row.reference.clone(),
            app_id,
            name: take_chars(row.app.name.as_str(), 96),
            is_self: row.is_self,
            launch_ref,
            running: row.window_count > 0,
            window_count: row.window_count,
            windows: Vec::new(),
        };
        assert(entry@.windows =~= Seq::<WindowEntryModel>::empty());
        assert(entry@ == app_entry(row@));
        out.push(entry);
        assert(model::seq_view(out@) =~= before.push(entry@));
    }
    let ghost grown = model::seq_view(out@);
    match &row.window {
        Some(w) => {
            let last: usize = out.len() - 1;
            let mut entry = out[last].copied();
            let ghost ws = model::seq_view(entry.windows@);
            let item = WindowEntry {
                window_ref: w.0.clone(),
                title: take_chars(w.1.title.as_str(), 120),
            };
            assert(item@ == window_entry(w@));
            entry.windows.push(item);
            assert(model::seq_view(entry.windows@) =~= ws.push(item@));
            out.set(last, entry);
            assert(model::seq_view(out@) =~= grown.update(grown.len() - 1, entry@));
        },
        None => {},
    }
    out
}

/// Makes a page.
fn make_page(snapshot: &CatalogSnapshot, cursor: usize, applications: Vec<AppEntry>, count: usize) -> (r:
    CatalogPage)
    requires
        cursor + count <= snapshot.rows@.len(),
    ensures
        r@ == page_of(snapshot@, cursor as int, model::seq_view(applications@), count as int),
{
    let total: usize = snapshot.rows.len();
    let next_cursor: Option<usize> = if cursor + count < total {
        Some(cursor + count)
    } else {
        None
    };
    CatalogPage {
        applications,
        application_count: snapshot.application_count,
        target_count: total,
        cursor,
        next_cursor,
    }
}

/// Whether a page takes no more bytes than its budget.
fn page_fits(page: &CatalogPage) -> (r: bool)
    ensures
        r == (json::byte_len(page_text(page@)) <= PAGE_BUDGET),
{
    let words = page.to_json();
    !exceeds(words.as_str(), PAGE_BUDGET)
}

/// Whether a page of choices takes no more bytes than its budget.
fn selection_fits(page: &SelectionPage) -> (r: bool)
    ensures
        r == (json::byte_len(selection_text(page@)) <= PAGE_BUDGET),
{
    let words = page.to_json();
    !exceeds(words.as_str(), PAGE_BUDGET)
}

/// The page of a catalog from a position on: as many rows as fit.
pub fn catalog_page(snapshot: &CatalogSnapshot, cursor: usize) -> (r: Result<CatalogPage, String>)
    ensures
        model::result_view(r) == page_model(snapshot@, cursor as int),
{
    let total: usize = snapshot.rows.len();
    if cursor > total {
        return Err(owned("invalid_cursor: 目标分页位置无效"));
    }
    let span: usize = if total - cursor > PAGE_ROWS {
        PAGE_ROWS
    } else {
        total - cursor
    };
    let ghost s = snapshot@;
    let mut applications: Vec<AppEntry> = Vec::new();
    let mut count: usize = 0;
    let mut n: usize = 0;
    assert(model::seq_view(applications@) =~= Seq::<AppEntryModel>::empty());
    let mut full = false;
    while n < span && !full
        invariant
            n <= span,
            span == page_span(s, cursor as int),
            s == snapshot@,
            total == snapshot.rows@.len(),
            cursor + span <= total,
            count <= n,
            !full ==> count == n,
            full ==> filled_page(s, cursor as int, span as int) == Some(
                (model::seq_view(applications@), count as int, true),
            ),
            !full ==> filled_page(s, cursor as int, n as int) == Some(
                (model::seq_view(applications@), count as int, false),
            ),
        decreases span - n, (if full { 0int } else { 1int }),
    {
        let row = &snapshot.rows[cursor + n];
        assert(s.rows[cursor + n] == row@);
        let proposed = add_row(&applications, row);
        let candidate = make_page(snapshot, cursor, copy_all(&proposed), count + 1);
        if !page_fits(&candidate) {
            if count == 0 {
                proof {
                    refusal_persists(s, cursor as int, n + 1, span as int);
                }
                return Err(owned("Target catalog entry exceeds the presentation budget"));
            }
            proof {
                fullness_persists(s, cursor as int, n + 1, span as int);
            }
            full = true;
        } else {
            applications = proposed;
            count = count + 1;
            n = n + 1;
        }
    }
    Ok(make_page(snapshot, cursor, applications, count))
}

/// A page that could not be begun stays so.
proof fn refusal_persists(s: SnapshotModel, cursor: int, n: int, m: int)
    requires
        0 <= n <= m,
        filled_page(s, cursor, n) is None,
    ensures
        filled_page(s, cursor, m) is None,
    decreases m - n,
{
    if n < m {
        refusal_persists(s, cursor, n, m - 1);
    }
}

/// A page that is full stays so.
proof fn fullness_persists(s: SnapshotModel, cursor: int, n: int, m: int)
    requires
        0 <= n <= m,
        filled_page(s, cursor, n) is Some,
        filled_page(s, cursor, n)->Some_0.2,
    ensures
        filled_page(s, cursor, m) == filled_page(s, cursor, n),
    decreases m - n,
{
    if n < m {
        fullness_persists(s, cursor, n, m - 1);
    }
}

/// The windows among which one has to be chosen, in JSON.
#[verifier::opaque]
pub open spec fn selection_text(p: SelectionModel) -> Seq<char> {
    "{\"app_ref\":"@ + json::string_text(p.app_ref) + ",\"has_more_windows\":"@ + json::bool_text(
        p.window_count > p.windows.len(),
    ) + ",\"hint\":\"使用 desktop_targets_list 的 query=list_query、cursor=0 查询全部窗口；后续沿 next_cursor 翻页\",\"list_query\":"@
        + json::string_text(p.app_ref)
        + ",\"status\":\"needs_window_selection\",\"window_count\":"@ + text::decimal_text(
        p.window_count as nat,
    ) + ",\"windows\":["@ + windows_text(p.windows) + "]}"@
}

/// The first `n` of some windows as they are shown.
pub open spec fn selection_of(app_ref: Seq<char>, all: Seq<WindowEntryModel>, n: int) -> SelectionModel {
    SelectionModel {
        app_ref,
        windows: Seq::new(
            n as nat,
            |i: int|
                WindowEntryModel {
                    window_ref: all[i].window_ref,
                    title: text::clipped(all[i].title, 120),
                },
        ),
        window_count: all.len() as usize,
    }
}

/// How many windows are shown: as many as fit, up to `n`.
pub open spec fn selection_size(app_ref: Seq<char>, all: Seq<WindowEntryModel>, n: int) -> (int, bool)
    decreases n,
{
    if n <= 0 {
        (0, false)
    } else {
        let before = selection_size(app_ref, all, n - 1);
        if before.1 {
            before
        } else if json::byte_len(selection_text(selection_of(app_ref, all, n))) > PAGE_BUDGET {
            (n - 1, true)
        } else {
            (n, false)
        }
    }
}

/// The page of windows among which one has to be chosen.
pub open spec fn selection_model(app_ref: Seq<char>, windows: Seq<WindowEntryModel>) -> SelectionModel {
    let all = order::sorted::<WindowEntry>(windows);
    let span = if all.len() > PAGE_ROWS {
        PAGE_ROWS as int
    } else {
        all.len() as int
    };
    selection_of(app_ref, all, selection_size(app_ref, all, span).0)
}

impl SelectionPage {
    /// The page in JSON.
    pub fn to_json(&self) -> (r: String)
        ensures
            r@ == selection_text(self@),
    {
        let mut out = owned("{\"app_ref\":");
        put_string(&mut out, self.app_ref.as_str());
        out.append(",\"has_more_windows\":");
        put_bool(&mut out, self.window_count > self.windows.len());
        out.append(
            ",\"hint\":\"使用 desktop_targets_list 的 query=list_query、cursor=0 查询全部窗口；后续沿 next_cursor 翻页\",\"list_query\":",
        );
        put_string(&mut out, self.app_ref.as_str());
        out.append(",\"status\":\"needs_window_selection\",\"window_count\":");
        put_number(&mut out, self.window_count);
        out.append(",\"windows\":[");
        put_windows(&mut out, &self.windows);
        out.append("]}");
        proof {
            reveal(selection_text);
        }
        out
    }
}

/// A page of choices that is full stays so.
proof fn selection_persists(app_ref: Seq<char>, all: Seq<WindowEntryModel>, n: int, m: int)
    requires
        0 <= n <= m,
        selection_size(app_ref, all, n).1,
    ensures
        selection_size(app_ref, all, m) == selection_size(app_ref, all, n),
    decreases m - n,
{
    if n < m {
        selection_persists(app_ref, all, n, m - 1);
    }
}

/// Makes a page of the first `n` windows.
fn make_selection(app_ref: &str, all: &Vec<WindowEntry>, n: usize) -> (r: SelectionPage)
    requires
        n <= all@.len(),
    ensures
        r@ == selection_of(app_ref@, model::seq_view(all@), n as int),
{
    let ghost s = model::seq_view(all@);
    let ghost full = selection_of(app_ref@, s, n as int);
    let mut windows: Vec<WindowEntry> = Vec::new();
    let mut i: usize = 0;
    while i < n
        invariant
            i <= n <= all@.len(),
            s == model::seq_view(all@),
            full == selection_of(app_ref@, s, n as int),
            windows@.len() == i,
            forall|k: int| 0 <= k < i ==> (#[trigger] windows@[k])@ == full.windows[k],
        decreases n - i,
    {
        let item = WindowEntry {
            window_ref: all[i].window_ref.clone(),
            title: take_chars(all[i].title.as_str(), 120),
        };
        assert(s[i as int] == all@[i as int]@);
        windows.push(item);
        i = i + 1;
    }
    let r = SelectionPage { app_ref: owned(app_ref), windows, window_count: all.len() };
    assert(r@.windows =~= full.windows);
    r
}

/// The page of windows among which one has to be chosen: in order, and as
/// many as fit.
pub fn window_selection_page(app_ref: &str, windows: &Vec<WindowEntry>) -> (r: SelectionPage)
    ensures
        r@ == selection_model(app_ref@, model::seq_view(windows@)),
{
    let all = sort(windows);
    let ghost s = model::seq_view(all@);
    let span: usize = if all.len() > PAGE_ROWS {
        PAGE_ROWS
    } else {
        all.len()
    };
    let mut n: usize = 0;
    let mut full = false;
    while n < span && !full
        invariant
            n <= span <= all@.len(),
            s == model::seq_view(all@),
            full ==> selection_size(app_ref@, s, span as int) == (n as int, true),
            !full ==> selection_size(app_ref@, s, n as int) == (n as int, false),
        decreases span - n, (if full { 0int } else { 1int }),
    {
        let page = make_selection(app_ref, &all, n + 1);
        if !selection_fits(&page) {
            proof {
                selection_persists(app_ref@, s, n + 1, span as int);
            }
            full = true;
        } else {
            n = n + 1;
        }
    }
    make_selection(app_ref, &all, n)
}

/// How many windows are shown at most, and that they fit.
proof fn selection_counts(app_ref: Seq<char>, all: Seq<WindowEntryModel>, n: int)
    requires
        0 <= n,
    ensures
        0 <= selection_size(app_ref, all, n).0 <= n,
        !selection_size(app_ref, all, n).1 ==> selection_size(app_ref, all, n).0 == n,
        selection_size(app_ref, all, n).0 > 0 ==> json::byte_len(
            selection_text(selection_of(app_ref, all, selection_size(app_ref, all, n).0)),
        ) <= PAGE_BUDGET,
    decreases n,
{
    if n > 0 {
        selection_counts(app_ref, all, n - 1);
    }
}

/// A page of choices that shows windows takes no more bytes than its budget,
/// and says how many windows there are in all.
pub proof fn choices_fit_their_budget(app_ref: Seq<char>, windows: Seq<WindowEntryModel>)
    requires
        windows.len() <= usize::MAX,
    ensures
        selection_model(app_ref, windows).windows.len() > 0 ==> json::byte_len(
            selection_text(selection_model(app_ref, windows)),
        ) <= PAGE_BUDGET,
        selection_model(app_ref, windows).window_count == windows.len(),
        selection_model(app_ref, windows).windows.len() <= windows.len(),
{
    let all = order::sorted::<WindowEntry>(windows);
    order::sorted_is_in_order::<WindowEntry>(windows);
    let span = if all.len() > PAGE_ROWS {
        PAGE_ROWS as int
    } else {
        all.len() as int
    };
    selection_counts(app_ref, all, span);
}

/// Windows are listed by their titles, small and capital letters alike; those of
/// the same letters by the titles as they stand, and those of the same title by
/// their references.
pub proof fn windows_are_listed_by_title(
    title_a: Seq<char>,
    ref_a: Seq<char>,
    title_b: Seq<char>,
    ref_b: Seq<char>,
)
    ensures
        text::lowercased(title_a) != text::lowercased(title_b) ==> (listed_before(
            title_a,
            ref_a,
            title_b,
            ref_b,
        ) <==> order::precedes(text::lowercased(title_a), text::lowercased(title_b))),
        text::lowercased(title_a) == text::lowercased(title_b) && title_a != title_b ==> (
        listed_before(title_a, ref_a, title_b, ref_b) <==> order::precedes(
            text::lowercased(title_a),
            text::lowercased(title_b),
        ) || order::precedes(title_a, title_b)),
        listed_before(title_a, ref_a, title_a, ref_b) <==> order::precedes(
            text::lowercased(title_a),
            text::lowercased(title_a),
        ) || order::precedes(title_a, title_a) || order::precedes(ref_a, ref_b),
{
}

/// A window is the same where its handle, its process and its application are; a
/// reference is made of these three.
pub proof fn windows_are_told_apart(a: LiveModel, b: LiveModel)
    ensures
        one_window(a, b) <==> a.hwnd == b.hwnd && a.pid == b.pid && a.app_id == b.app_id,
        one_window(a, b) ==> window_ref(a) == window_ref(b),
        window_ref(a) == hashing::tagged(
            "window:"@,
            a.app_id + "|"@ + text::decimal_text(a.pid as nat) + "|"@ + text::signed_text(
                a.hwnd as int,
            ),
        ),
        app_ref(a.app_id) == hashing::tagged("app:"@, a.app_id),
{
}

/// The first window that is the same one.
proof fn first_same_is_found(windows: Seq<LiveModel>, w: LiveModel)
    ensures
        match same_place(windows, w) {
            Some(i) => 0 <= i < windows.len() && one_window(windows[i], w) && forall|k: int|
                0 <= k < i ==> !one_window(#[trigger] windows[k], w),
            None => forall|k: int|
                0 <= k < windows.len() ==> !one_window(#[trigger] windows[k], w),
        },
    decreases windows.len(),
{
    if windows.len() > 0 {
        let short = windows.drop_last();
        first_same_is_found(short, w);
        match same_place(short, w) {
            Some(i) => {
                assert(short[i] == windows[i]);
                assert forall|k: int| 0 <= k < i implies !one_window(#[trigger] windows[k], w) by {
                    assert(short[k] == windows[k]);
                }
            },
            None => {
                assert forall|k: int| 0 <= k < short.len() implies !one_window(
                    #[trigger] windows[k],
                    w,
                ) by {
                    assert(short[k] == windows[k]);
                }
            },
        }
    }
}

/// The windows of a title, by their places.
proof fn titled_are_the_titled(windows: Seq<LiveModel>, title: Option<Seq<char>>)
    ensures
        forall|k: int|
            0 <= k < titled(windows, title).len() ==> 0 <= (#[trigger] titled(windows, title)[k])
                < windows.len() && has_title(windows[titled(windows, title)[k]], title),
        forall|i: int|
            0 <= i < windows.len() && has_title(#[trigger] windows[i], title) ==> titled(
                windows,
                title,
            ).contains(i),
        titled(windows, title).no_duplicates(),
    decreases windows.len(),
{
    if windows.len() > 0 {
        let short = windows.drop_last();
        titled_are_the_titled(short, title);
        let before = titled(short, title);
        let all = titled(windows, title);
        assert forall|i: int| 0 <= i < windows.len() && has_title(
            #[trigger] windows[i],
            title,
        ) implies all.contains(i) by {
            if i < short.len() {
                assert(short[i] == windows[i]);
                let k = choose|k: int| 0 <= k < before.len() && before[k] == i;
                assert(all[k] == i);
            } else {
                assert(all[all.len() - 1] == i);
            }
        }
        assert forall|k: int| 0 <= k < all.len() implies 0 <= (#[trigger] all[k]) < windows.len()
            && has_title(windows[all[k]], title) by {
            if k < before.len() {
                assert(all[k] == before[k]);
                assert(short[before[k]] == windows[before[k]]);
            }
        }
    }
}

/// A window that was selected is chosen where it is still there, and nothing else
/// is chosen for it. Without a selection the one window of the title is; where
/// none has it, that is an error; where several do, one must be selected.
pub proof fn selected_window_is_chosen(
    windows: Seq<LiveModel>,
    w: LiveModel,
    title: Option<Seq<char>>,
    i: int,
    j: int,
)
    requires
        windows.len() <= usize::MAX,
    ensures
        (forall|k: int| 0 <= k < windows.len() ==> !one_window(#[trigger] windows[k], w))
            ==> chosen(windows, Some(w), title) is Err,
        0 <= i < windows.len() && one_window(windows[i], w) ==> chosen(
            windows,
            Some(w),
            title,
        ) is Ok && chosen(windows, Some(w), title)->Ok_0 is One && one_window(
            windows[chosen(windows, Some(w), title)->Ok_0->One_0 as int],
            w,
        ),
        (forall|k: int| 0 <= k < windows.len() ==> !has_title(#[trigger] windows[k], title))
            ==> chosen(windows, None, title) is Err,
        0 <= i < j < windows.len() && has_title(windows[i], title) && has_title(windows[j], title)
            ==> chosen(windows, None, title) == Ok::<Choice, Seq<char>>(Choice::Several),
        0 <= i < windows.len() && has_title(windows[i], title) && (forall|k: int|
            0 <= k < windows.len() && has_title(#[trigger] windows[k], title) ==> k == i)
            ==> chosen(windows, None, title) == Ok::<Choice, Seq<char>>(Choice::One(i as usize)),
        has_title(w, title) <==> title is None || title->Some_0 == w.title,
{
    first_same_is_found(windows, w);
    titled_are_the_titled(windows, title);
    let found = titled(windows, title);
    if found.len() > 0 {
        assert(has_title(windows[found[0]], title));
    }
    if 0 <= i < windows.len() && has_title(windows[i], title) {
        assert(found.contains(i));
        let a = choose|a: int| 0 <= a < found.len() && found[a] == i;
        if 0 <= i < j < windows.len() && has_title(windows[j], title) {
            assert(found.contains(j));
            let b = choose|b: int| 0 <= b < found.len() && found[b] == j;
            assert(a != b);
        }
        if (forall|k: int|
            0 <= k < windows.len() && has_title(#[trigger] windows[k], title) ==> k == i) {
            assert(found[0] == i);
            if found.len() > 1 {
                assert(has_title(windows[found[1]], title));
                assert(found[1] == i);
            }
        }
    }
}

/// A saved window is chosen by its title; where it is known by the Mac's stable
/// id, the one window that is open will do.
pub proof fn saved_window_is_chosen(windows: Seq<LiveModel>, l: LocatorModel)
    ensures
        l.window_id is None ==> saved_choice(windows, l) == chosen(windows, None, l.window_title),
        l.window_id is Some && !text::begins(l.window_id->Some_0, "axw:"@) ==> saved_choice(
            windows,
            l,
        ) == chosen(windows, None, l.window_title),
        windows.len() != 1 ==> saved_choice(windows, l) == chosen(windows, None, l.window_title),
        l.window_id is Some && text::begins(l.window_id->Some_0, "axw:"@) && windows.len() == 1
            ==> saved_choice(windows, l) == Ok::<Choice, Seq<char>>(Choice::One(0)),
{
}

/// The windows of an application are those with its id, in their order.
pub proof fn windows_are_parted_by_application(
    a: Seq<LiveModel>,
    b: Seq<LiveModel>,
    w: LiveModel,
    app_id: Seq<char>,
)
    ensures
        windows_of(a + b, app_id) == windows_of(a, app_id) + windows_of(b, app_id),
        w.app_id == app_id ==> windows_of(seq![w], app_id) == seq![w],
        w.app_id != app_id ==> windows_of(seq![w], app_id) == Seq::<LiveModel>::empty(),
    decreases b.len(),
{
    assert(seq![w].drop_last() =~= Seq::<LiveModel>::empty());
    assert(windows_of(seq![w].drop_last(), app_id) =~= Seq::<LiveModel>::empty());
    if b.len() == 0 {
        assert(a + b =~= a);
        assert(windows_of(a, app_id) + windows_of(b, app_id) =~= windows_of(a, app_id));
    } else {
        assert((a + b).last() == b.last());
        assert((a + b).drop_last() =~= a + b.drop_last());
        windows_are_parted_by_application(a, b.drop_last(), w, app_id);
        assert((windows_of(a, app_id) + windows_of(b.drop_last(), app_id)).push(b.last())
            =~= windows_of(a, app_id) + windows_of(b.drop_last(), app_id).push(b.last()));
    }
}

/// The listed windows of an application are those with its id, and those that a
/// query finds are the ones whose title holds it, or all where the application
/// itself is asked for; the order stays.
pub proof fn listed_windows_are_parted(
    a: Seq<(Seq<char>, LiveModel)>,
    b: Seq<(Seq<char>, LiveModel)>,
    w: (Seq<char>, LiveModel),
    app_id: Seq<char>,
    query: Seq<char>,
    app_matches: bool,
)
    ensures
        slots_of(a + b, app_id) == slots_of(a, app_id) + slots_of(b, app_id),
        w.1.app_id == app_id ==> slots_of(seq![w], app_id) == seq![w],
        w.1.app_id != app_id ==> slots_of(seq![w], app_id) == Seq::<
            (Seq<char>, LiveModel),
        >::empty(),
        matching_slots(a + b, query, app_matches) == matching_slots(a, query, app_matches)
            + matching_slots(b, query, app_matches),
        app_matches || text::has_part(text::lowercased(w.1.title), query) ==> matching_slots(
            seq![w],
            query,
            app_matches,
        ) == seq![w],
        !app_matches && !text::has_part(text::lowercased(w.1.title), query) ==> matching_slots(
            seq![w],
            query,
            app_matches,
        ) == Seq::<(Seq<char>, LiveModel)>::empty(),
    decreases b.len(),
{
    assert(seq![w].drop_last() =~= Seq::<(Seq<char>, LiveModel)>::empty());
    assert(slots_of(seq![w].drop_last(), app_id) =~= Seq::<(Seq<char>, LiveModel)>::empty());
    assert(matching_slots(seq![w].drop_last(), query, app_matches) =~= Seq::<
        (Seq<char>, LiveModel),
    >::empty());
    if b.len() == 0 {
        assert(a + b =~= a);
        assert(slots_of(a, app_id) + slots_of(b, app_id) =~= slots_of(a, app_id));
        assert(matching_slots(a, query, app_matches) + matching_slots(b, query, app_matches)
            =~= matching_slots(a, query, app_matches));
    } else {
        let short = b.drop_last();
        assert((a + b).last() == b.last());
        assert((a + b).drop_last() =~= a + short);
        listed_windows_are_parted(a, short, w, app_id, query, app_matches);
        assert((slots_of(a, app_id) + slots_of(short, app_id)).push(b.last()) =~= slots_of(
            a,
            app_id,
        ) + slots_of(short, app_id).push(b.last()));
        assert((matching_slots(a, query, app_matches) + matching_slots(
            short,
            query,
            app_matches,
        )).push(b.last()) =~= matching_slots(a, query, app_matches) + matching_slots(
            short,
            query,
            app_matches,
        ).push(b.last()));
    }
}

/// An application is asked for by nothing at all, by its reference, or by a part
/// of its name or its id.
pub proof fn applications_are_asked_for(reference: Seq<char>, app: ApplicationModel, query: Seq<char>)
    ensures
        app_asked_for(reference, app, Seq::empty()),
        app_asked_for(reference, app, reference),
        text::has_part(text::lowercased(app.name), query) ==> app_asked_for(reference, app, query),
        text::has_part(text::lowercased(app.app_id), query) ==> app_asked_for(
            reference,
            app,
            query,
        ),
        query.len() > 0 && reference != query && !text::has_part(text::lowercased(app.name), query)
            && !text::has_part(text::lowercased(app.app_id), query) ==> !app_asked_for(
            reference,
            app,
            query,
        ),
{
}

/// An application's rows are one for each of its windows that the query finds,
/// each with the count of all its windows; one without a window where it is asked
/// for and has none; and none at all else.
pub proof fn application_has_a_row_for_each_window(
    slot: (Seq<char>, ApplicationModel),
    windows: Seq<(Seq<char>, LiveModel)>,
    query: Seq<char>,
    own_pid: u32,
    i: int,
)
    ensures
        ({
            let own = order::sorted::<(String, Window)>(slots_of(windows, slot.1.app_id));
            let found = matching_slots(own, query, app_asked_for(slot.0, slot.1, query));
            let rows = app_rows(slot, windows, query, own_pid);
            &&& found.len() > 0 ==> rows is Some && rows->Some_0.len() == found.len()
            &&& found.len() > 0 && 0 <= i < found.len() ==> rows->Some_0[i].window == Some(found[i])
            &&& found.len() == 0 && own.len() == 0 && app_asked_for(slot.0, slot.1, query)
                ==> rows is Some && rows->Some_0.len() == 1 && rows->Some_0[0].window is None
            &&& found.len() == 0 && (own.len() > 0 || !app_asked_for(slot.0, slot.1, query))
                ==> rows is None
            &&& rows is Some && 0 <= i < rows->Some_0.len() ==> rows->Some_0[i].reference == slot.0
                && rows->Some_0[i].app == slot.1 && (own.len() <= usize::MAX
                ==> rows->Some_0[i].window_count == own.len()) && (rows->Some_0[i].is_self
                <==> exists|k: int|
                0 <= k < own.len() && (#[trigger] own[k]).1.pid == own_pid)
        }),
{
}

/// The rows of a catalog are those of its applications, one after the other in
/// the order of their references; an application counts where it has rows.
pub proof fn catalog_goes_through_its_applications(
    apps: Seq<(Seq<char>, ApplicationModel)>,
    windows: Seq<(Seq<char>, LiveModel)>,
    query: Seq<char>,
    own_pid: u32,
    n: int,
)
    requires
        0 <= n < apps.len(),
    ensures
        rows_upto(apps, windows, query, own_pid, 0) == (Seq::<RowModel>::empty(), 0int),
        app_rows(apps[n], windows, query, own_pid) is None ==> rows_upto(
            apps,
            windows,
            query,
            own_pid,
            n + 1,
        ) == rows_upto(apps, windows, query, own_pid, n),
        app_rows(apps[n], windows, query, own_pid) matches Some(rows) ==> rows_upto(
            apps,
            windows,
            query,
            own_pid,
            n + 1,
        ).0 == rows_upto(apps, windows, query, own_pid, n).0 + rows && rows_upto(
            apps,
            windows,
            query,
            own_pid,
            n + 1,
        ).1 == rows_upto(apps, windows, query, own_pid, n).1 + 1,
        snapshot_model(apps, windows, query, own_pid).rows == rows_upto(
            order::sorted::<(String, Application)>(apps),
            windows,
            query,
            own_pid,
            order::sorted::<(String, Application)>(apps).len() as int,
        ).0,
{
}

/// An entry tells the application: its id unless that is very long, its name,
/// whether it is this program itself, whether it runs and can be started.
pub proof fn entries_tell_their_application(row: RowModel, w: (Seq<char>, LiveModel))
    ensures
        app_entry(row).app_ref == row.reference,
        row.app.app_id.len() <= 256 ==> app_entry(row).app_id == Some(row.app.app_id),
        row.app.app_id.len() > 256 ==> app_entry(row).app_id is None,
        app_entry(row).name.is_prefix_of(row.app.name),
        row.app.name.len() <= 96 ==> app_entry(row).name == row.app.name,
        app_entry(row).is_self == row.is_self,
        row.app.launch_path is Some ==> app_entry(row).launch_ref == Some(row.reference),
        row.app.launch_path is None ==> app_entry(row).launch_ref is None,
        app_entry(row).running <==> row.window_count > 0,
        app_entry(row).window_count == row.window_count,
        app_entry(row).windows.len() == 0,
        window_entry(w).window_ref == w.0,
        window_entry(w).title.is_prefix_of(w.1.title),
        w.1.title.len() <= 120 ==> window_entry(w).title == w.1.title,
{
    text::cutting_keeps_the_start(row.app.name, 96);
    text::cutting_keeps_the_start(w.1.title, 120);
}

/// A row is added to the entry of its application where that is the last one, and
/// to a new one else; a row with a window adds the window.
pub proof fn rows_are_grouped_by_application(apps: Seq<AppEntryModel>, row: RowModel)
    ensures
        ({
            let after = with_row(apps, row);
            let known = apps.len() > 0 && apps.last().app_ref == row.reference;
            &&& known ==> after.len() == apps.len()
            &&& !known ==> after.len() == apps.len() + 1
            &&& after.last().app_ref == row.reference
            &&& known && row.window is Some ==> after.last().windows
                == apps.last().windows.push(window_entry(row.window->Some_0))
            &&& known && row.window is None ==> after == apps
            &&& !known && row.window is Some ==> after.last().windows == seq![
                window_entry(row.window->Some_0),
            ]
            &&& !known && row.window is None ==> after.last() == app_entry(row)
            &&& forall|i: int|
                0 <= i < apps.len() - 1 || (!known && 0 <= i < apps.len()) ==> #[trigger] after[i]
                    == apps[i]
        }),
{
    let known = apps.len() > 0 && apps.last().app_ref == row.reference;
    if !known && row.window is Some {
        let after = with_row(apps, row);
        assert(after.last().windows =~= seq![window_entry(row.window->Some_0)]);
    }
}

/// The windows that one may be selected from are the first of all, in their
/// order, as many as fit and twenty at most; all are counted.
pub proof fn selection_shows_the_first_windows(
    app_ref: Seq<char>,
    windows: Seq<WindowEntryModel>,
    i: int,
)
    requires
        windows.len() <= usize::MAX,
    ensures
        ({
            let all = order::sorted::<WindowEntry>(windows);
            let shown = selection_model(app_ref, windows);
            &&& shown.app_ref == app_ref
            &&& shown.windows.len() <= 20
            &&& 0 <= i < shown.windows.len() ==> shown.windows[i].window_ref == all[i].window_ref
                && shown.windows[i].title == text::clipped(all[i].title, 120)
        }),
{
    let all = order::sorted::<WindowEntry>(windows);
    let span = if all.len() > 20 {
        20int
    } else {
        all.len() as int
    };
    selection_stays_within(app_ref, all, span);
}

/// A selection has no more windows than were tried.
proof fn selection_stays_within(app_ref: Seq<char>, all: Seq<WindowEntryModel>, n: int)
    requires
        0 <= n,
    ensures
        0 <= selection_size(app_ref, all, n).0 <= n,
        !selection_size(app_ref, all, n).1 ==> selection_size(app_ref, all, n).0 == n,
        selection_size(app_ref, all, n).1 ==> json::byte_len(
            selection_text(
                selection_of(app_ref, all, selection_size(app_ref, all, n).0 + 1),
            ),
        ) > 6500,
    decreases n,
{
    if n > 0 {
        selection_stays_within(app_ref, all, n - 1);
    }
}

/// A page says where it stands: at its cursor, with the count of all targets, and
/// where the next one begins while there are more.
pub proof fn pages_say_where_they_stand(
    s: SnapshotModel,
    cursor: int,
    apps: Seq<AppEntryModel>,
    count: int,
)
    requires
        0 <= cursor,
        0 <= count,
        cursor + count <= s.rows.len() <= usize::MAX,
    ensures
        page_of(s, cursor, apps, count).applications == apps,
        page_of(s, cursor, apps, count).application_count == s.application_count,
        page_of(s, cursor, apps, count).target_count == s.rows.len(),
        page_of(s, cursor, apps, count).cursor == cursor,
        cursor + count < s.rows.len() ==> page_of(s, cursor, apps, count).next_cursor == Some(
            (cursor + count) as usize,
        ),
        cursor + count == s.rows.len() ==> page_of(s, cursor, apps, count).next_cursor is None,
        cursor > s.rows.len() ==> page_model(s, cursor) is Err,
{
}

/// The entries of a list stand one after the other with a comma between them, and
/// each holds its own words.
pub proof fn entries_are_written_in_order(
    ws: Seq<WindowEntryModel>,
    w: WindowEntryModel,
    apps: Seq<AppEntryModel>,
    a: AppEntryModel,
)
    ensures
        windows_text(Seq::empty()).len() == 0,
        ws.len() > 0 ==> windows_text(ws.push(w)) == windows_text(ws) + ","@ + "{\"title\":"@
            + json::string_text(w.title) + ",\"window_ref\":"@ + json::string_text(w.window_ref)
            + "}"@,
        windows_text(seq![w]) == "{\"title\":"@ + json::string_text(w.title)
            + ",\"window_ref\":"@ + json::string_text(w.window_ref) + "}"@,
        ws.len() > 0 && apps.len() > 0 ==> apps_text(apps.push(a)) == apps_text(apps) + ","@
            + app_text(a),
        apps_text(seq![a]) == app_text(a),
        text::has_part(app_text(a), windows_text(a.windows)),
        text::has_part(app_text(a), json::string_text(a.app_ref)),
        text::has_part(app_text(a), json::string_text(a.name)),
{
    assert(ws.push(w).drop_last() =~= ws);
    assert(apps.push(a).drop_last() =~= apps);
    let e = Seq::<char>::empty();
    assert(seq![w].drop_last() =~= Seq::<WindowEntryModel>::empty());
    assert(windows_text(seq![w].drop_last()) =~= e);
    let t = "{\"title\":"@;
    let x = json::string_text(w.title);
    let r = ",\"window_ref\":"@;
    let y = json::string_text(w.window_ref);
    assert(e + e + t + x + r + y + "}"@ =~= t + x + r + y + "}"@);
    assert(seq![a].drop_last() =~= Seq::<AppEntryModel>::empty());
    assert(apps_text(seq![a].drop_last()) =~= e);
    assert(e + e + app_text(a) =~= app_text(a));
    let p1 = "{\"app_id\":"@ + json::opt_text(a.app_id) + ",\"app_ref\":"@;
    let q1 = json::string_text(a.app_ref);
    let p2 = p1 + q1 + ",\"is_self\":"@ + json::bool_text(a.is_self) + ",\"launch_ref\":"@
        + json::opt_text(a.launch_ref) + ",\"name\":"@;
    let q2 = json::string_text(a.name);
    let p3 = p2 + q2 + ",\"running\":"@ + json::bool_text(a.running) + ",\"window_count\":"@
        + text::decimal_text(a.window_count as nat) + ",\"windows\":["@;
    let q3 = windows_text(a.windows);
    let all = app_text(a);
    assert(all == p3 + q3 + "]}"@);
    assert(all.subrange(p1.len() as int, (p1.len() + q1.len()) as int) =~= q1);
    assert(text::stands_at(all, q1, p1.len() as int));
    assert(all.subrange(p2.len() as int, (p2.len() + q2.len()) as int) =~= q2);
    assert(text::stands_at(all, q2, p2.len() as int));
    assert(all.subrange(p3.len() as int, (p3.len() + q3.len()) as int) =~= q3);
    assert(text::stands_at(all, q3, p3.len() as int));
}

} // verus!
