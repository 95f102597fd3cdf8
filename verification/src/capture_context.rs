//! Where a screenshot came from, and how a point of its image becomes a point
//! of the desktop.
//!
//! A capture can be acted on once, while its window stands where it stood and
//! its file is unchanged.
use std::collections::{HashMap, VecDeque};

use vstd::prelude::*;
use vstd::string::*;

use crate::clock::now_rfc3339;
use crate::hashing::digest_of_bytes;
use crate::hashing;
use crate::ids;
use crate::ids::fresh_uuid;
use crate::model;
use crate::model::{copy_opt, Plain};
use crate::text::{owned, same_text};

verus! {

broadcast use vstd::std_specs::hash::group_hash_axioms;

/// How many captures are remembered.
pub const MAX_CAPTURES: usize = 64;

/// The units of the native pointer: points on macOS, pixels elsewhere. They
/// are not those of the image.
pub fn screen_coordinate_units(macos: bool) -> (r: &'static str)
    ensures
        r@ == units_text(macos),
{
    if macos {
        "logical_points"
    } else {
        "physical_pixels"
    }
}

/// The units of the native pointer.
pub open spec fn units_text(macos: bool) -> Seq<char> {
    if macos {
        "logical_points"@
    } else {
        "physical_pixels"@
    }
}

/// A rectangle of the desktop.
#[derive(Debug, Clone, Copy, PartialEq, Eq, Structural)]
pub struct Bounds {
    pub x: i32,
    pub y: i32,
    pub width: u32,
    pub height: u32,
}

impl View for Bounds {
    type V = Bounds;

    open spec fn view(&self) -> Bounds {
        *self
    }
}

impl Plain for Bounds {
    fn copied(&self) -> (r: Self) {
        *self
    }

    fn same(&self, other: &Self) -> (r: bool) {
        *self == *other
    }
}

impl Bounds {
    /// Whether a point lies within; the right and the lower edge do not.
    pub open spec fn holds(self, x: int, y: int) -> bool {
        self.x <= x < self.x + self.width && self.y <= y < self.y + self.height
    }

    /// Whether a point lies within.
    pub fn contains(&self, x: i32, y: i32) -> (r: bool)
        ensures
            r == self.holds(x as int, y as int),
    {
        x >= self.x && y >= self.y && (x as i64) < self.x as i64 + self.width as i64 && (y as i64)
            < self.y as i64 + self.height as i64
    }
}

/// A window at one moment.
#[derive(Debug, Clone, PartialEq, Eq)]
pub struct WindowSnapshot {
    pub hwnd: i32,
    pub process_id: u64,
    pub title: String,
    pub bounds: Bounds,
}

/// The content of a [`WindowSnapshot`].
#[verifier::ext_equal]
pub struct WindowSnapshotModel {
    pub hwnd: i32,
    pub process_id: u64,
    pub title: Seq<char>,
    pub bounds: Bounds,
}

impl View for WindowSnapshot {
    type V = WindowSnapshotModel;

    open spec fn view(&self) -> WindowSnapshotModel {
        WindowSnapshotModel {
            hwnd: self.hwnd,
            process_id: self.process_id,
            title: self.title@,
            bounds: self.bounds,
        }
    }
}

impl Plain for WindowSnapshot {
    fn copied(&self) -> (r: Self) {
        WindowSnapshot {
            hwnd: self.hwnd,
            process_id: self.process_id,
            title: self.title.clone(),
            bounds: self.bounds,
        }
    }

    fn same(&self, other: &Self) -> (r: bool) {
        self.hwnd == other.hwnd
            && self.process_id == other.process_id
            && same_text(self.title.as_str(), other.title.as_str())
            && self.bounds == other.bounds
    }
}

/// What the system said of a window.
pub struct WindowReport {
    pub minimized: Option<bool>,
    pub visible: Option<bool>,
    pub bounds: Option<Bounds>,
    pub process_id: Option<u64>,
    pub title: Option<String>,
}

/// A window as it was reported, or why the report cannot be used.
pub open spec fn reported(hwnd: i32, w: WindowReport) -> Result<WindowSnapshotModel, Seq<char>> {
    if w.minimized == Some(true) || w.visible == Some(false) {
        Err("目标窗口当前不可见，请刷新观察"@)
    } else {
        match w.bounds {
            None => Err("窗口几何信息无效"@),
            Some(bounds) => if bounds.width == 0 || bounds.height == 0 {
                Err("窗口大小无效"@)
            } else {
                match w.process_id {
                    None => Err("窗口进程信息缺失"@),
                    Some(process_id) => Ok(
                        WindowSnapshotModel {
                            hwnd,
                            process_id,
                            title: match w.title {
                                Some(s) => s@,
                                None => Seq::empty(),
                            },
                            bounds,
                        },
                    ),
                }
            },
        }
    }
}

impl WindowSnapshot {
    /// A window as it was reported.
    pub fn from_info(hwnd: i32, report: &WindowReport) -> (r: Result<Self, String>)
        ensures
            model::result_view(r) == reported(hwnd, *report),
    {
        let hidden = match report.minimized {
            Some(b) => b,
            None => false,
        };
        let gone = match report.visible {
            Some(b) => !b,
            None => false,
        };
        if hidden || gone {
            return Err(owned("目标窗口当前不可见，请刷新观察"));
        }
        let bounds = match report.bounds {
            Some(b) => b,
            None => {
                return Err(owned("窗口几何信息无效"));
            },
        };
        if bounds.width == 0 || bounds.height == 0 {
            return Err(owned("窗口大小无效"));
        }
        let process_id: u64 = match report.process_id {
            Some(p) => p,
            None => {
                return Err(owned("窗口进程信息缺失"));
            },
        };
        let title = match &report.title {
            Some(s) => s.clone(),
            None => String::new(),
        };
        Ok(WindowSnapshot { hwnd, process_id, title, bounds })
    }
}

/// A point of the desktop under the number of an element.
#[derive(Debug, Clone, Copy, PartialEq, Eq, Structural)]
pub struct Placed {
    pub id: u32,
    pub x: i32,
    pub y: i32,
}

/// A capture: its image, its place on the desktop and what was seen on it.
#[derive(Debug, Clone, PartialEq, Eq)]
pub struct CaptureContext {
    pub capture_id: String,
    pub coordinate_space: &'static str,
    pub coordinate_units: &'static str,
    pub scope: &'static str,
    pub screen_bounds: Bounds,
    pub image_width: u32,
    pub image_height: u32,
    pub target: Option<WindowSnapshot>,
    pub captured_at: String,
    /// The file of the image.
    pub path: String,
    /// The digest of the file.
    pub fingerprint: u64,
    /// The points of the elements that were seen, under their numbers.
    pub elements: HashMap<u32, (i32, i32)>,
    /// Whether the capture was acted on or retired.
    pub consumed: bool,
}

/// The content of a [`CaptureContext`].
#[verifier::ext_equal]
pub struct CaptureModel {
    pub capture_id: Seq<char>,
    pub coordinate_space: Seq<char>,
    pub coordinate_units: Seq<char>,
    pub scope: Seq<char>,
    pub screen_bounds: Bounds,
    pub image_width: u32,
    pub image_height: u32,
    pub target: Option<WindowSnapshotModel>,
    pub captured_at: Seq<char>,
    pub path: Seq<char>,
    pub fingerprint: u64,
    pub elements: Map<u32, (i32, i32)>,
    pub consumed: bool,
}

impl View for CaptureContext {
    type V = CaptureModel;

    open spec fn view(&self) -> CaptureModel {
        CaptureModel {
            capture_id: self.capture_id@,
            coordinate_space: self.coordinate_space@,
            coordinate_units: self.coordinate_units@,
            scope: self.scope@,
            screen_bounds: self.screen_bounds,
            image_width: self.image_width,
            image_height: self.image_height,
            target: model::opt_view(self.target),
            captured_at: self.captured_at@,
            path: self.path@,
            fingerprint: self.fingerprint,
            elements: self.elements@,
            consumed: self.consumed,
        }
    }
}

impl CaptureContext {
    /// A copy.
    pub fn copied(&self) -> (r: Self)
        ensures
            r@ == self@,
    {
        CaptureContext {
            capture_id: self.capture_id.clone(),
            coordinate_space: self.coordinate_space,
            coordinate_units: self.coordinate_units,
            scope: self.scope,
            screen_bounds: self.screen_bounds,
            image_width: self.image_width,
            image_height: self.image_height,
            target: copy_opt(&self.target),
            captured_at: self.captured_at.clone(),
            path: self.path.clone(),
            fingerprint: self.fingerprint,
            elements: self.elements.clone(),
            consumed: self.consumed,
        }
    }
}

/// The words for a capture that was acted on or retired.
pub open spec fn used_text() -> Seq<char> {
    "捕获已过期或已执行，请重新截图并感知"@
}

/// The words for a file that changed.
pub open spec fn changed_text() -> Seq<char> {
    "截图文件已变更，请重新截图并感知"@
}

/// What keeps a file's path from being used.
pub open spec fn path_text(reason: Seq<char>) -> Seq<char> {
    "无法读取截图路径: "@ + reason
}

/// What keeps a file from being read.
pub open spec fn file_text(reason: Seq<char>) -> Seq<char> {
    "无法读取截图: "@ + reason
}

/// A coordinate of the desktop: the image's share of the rectangle, from the
/// rectangle's edge.
pub open spec fn scaled(edge: int, extent: int, at: int, size: int) -> int {
    edge + at * extent / size
}

/// Whether a number is a coordinate.
pub open spec fn is_i32(n: int) -> bool {
    i32::MIN <= n <= i32::MAX
}

impl CaptureModel {
    /// Whether a point lies on the image.
    pub open spec fn on_image(self, x: int, y: int) -> bool {
        0 <= x < self.image_width && 0 <= y < self.image_height
    }

    /// The point of the desktop that a point of the image shows.
    pub open spec fn desktop_point(self, x: int, y: int) -> (int, int) {
        (
            scaled(
                self.screen_bounds.x as int,
                self.screen_bounds.width as int,
                x,
                self.image_width as int,
            ),
            scaled(
                self.screen_bounds.y as int,
                self.screen_bounds.height as int,
                y,
                self.image_height as int,
            ),
        )
    }

    /// The point of the desktop that a point of the image shows, or why there
    /// is none.
    pub open spec fn point(self, x: int, y: int) -> Result<(int, int), Seq<char>> {
        let p = self.desktop_point(x, y);
        if !self.on_image(x, y) {
            Err("元素中心不在捕获图片内"@)
        } else if !is_i32(p.0) || !is_i32(p.1) {
            Err("屏幕坐标溢出"@)
        } else {
            Ok(p)
        }
    }

    /// Whether two captures show the same window of the same process.
    pub open spec fn window_key(self) -> Option<(i32, u64)> {
        match self.target {
            Some(w) => Some((w.hwnd, w.process_id)),
            None => None,
        }
    }
}

/// The point of the desktop lies within the rectangle that was captured.
pub proof fn point_stays_within_capture(c: CaptureModel, x: int, y: int)
    ensures
        c.point(x, y) matches Ok(p) ==> c.screen_bounds.width > 0 && c.screen_bounds.height > 0
            ==> c.screen_bounds.holds(p.0, p.1),
{
    if c.on_image(x, y) {
        share_is_within(x, c.screen_bounds.width as int, c.image_width as int);
        share_is_within(y, c.screen_bounds.height as int, c.image_height as int);
    }
}

/// A share of an extent lies within it.
proof fn share_is_within(at: int, extent: int, size: int)
    requires
        0 <= at < size,
        0 <= extent,
    ensures
        0 <= at * extent / size,
        extent > 0 ==> at * extent / size < extent,
        at * extent / size <= extent,
{
    assert(0 <= at * extent <= size * extent) by (nonlinear_arith)
        requires
            0 <= at < size,
            0 <= extent,
    ;
    assert(extent > 0 ==> at * extent < size * extent) by (nonlinear_arith)
        requires
            0 <= at < size,
            0 <= extent,
    ;
    let product = at * extent;
    let whole = size * extent;
    assert(0 <= product / size) by (nonlinear_arith)
        requires
            0 <= product,
            size > 0,
    ;
    assert(product < whole ==> product / size < extent) by (nonlinear_arith)
        requires
            0 <= product,
            size > 0,
            whole == size * extent,
    ;
    assert(product <= whole ==> product / size <= extent) by (nonlinear_arith)
        requires
            0 <= product,
            size > 0,
            whole == size * extent,
    ;
}

/// Computes a coordinate of the desktop.
fn scale(edge: i32, extent: u32, at: i32, size: u32) -> (r: i64)
    requires
        0 <= at < size,
    ensures
        r == scaled(edge as int, extent as int, at as int, size as int),
{
    proof {
        share_is_within(at as int, extent as int, size as int);
        assert(0 <= at * extent <= 2147483647 * 4294967295) by (nonlinear_arith)
            requires
                0 <= at <= 2147483647,
                0 <= extent <= 4294967295,
        ;
    }
    let product: u64 = at as u64 * extent as u64;
    let share: u64 = product / size as u64;
    edge as i64 + share as i64
}

/// A new capture, or why there is none: `path` is the file's canonical path
/// and `file` its content, each with the system's words where it could not be
/// had.
pub open spec fn captured(
    id: Seq<char>,
    at: Seq<char>,
    path: Result<Seq<char>, Seq<char>>,
    file: Result<Seq<u8>, Seq<char>>,
    bounds: Bounds,
    dimensions: (u32, u32),
    scope: Seq<char>,
    target: Option<WindowSnapshotModel>,
    macos: bool,
) -> Result<CaptureModel, Seq<char>> {
    if bounds.width == 0 || bounds.height == 0 || dimensions.0 == 0 || dimensions.1 == 0 {
        Err("截图或屏幕区域大小无效"@)
    } else {
        match path {
            Err(e) => Err(path_text(e)),
            Ok(path) => match file {
                Err(e) => Err(file_text(e)),
                Ok(bytes) => Ok(
                    CaptureModel {
                        capture_id: id,
                        coordinate_space: "screen"@,
                        coordinate_units: units_text(macos),
                        scope,
                        screen_bounds: bounds,
                        image_width: dimensions.0,
                        image_height: dimensions.1,
                        target,
                        captured_at: at,
                        path,
                        fingerprint: hashing::digest(hashing::characters(bytes)),
                        elements: Map::empty(),
                        consumed: false,
                    },
                ),
            },
        }
    }
}

/// The view of a file's content.
pub open spec fn bytes_view(r: Result<Vec<u8>, String>) -> Result<Seq<u8>, Seq<char>> {
    match r {
        Ok(v) => Ok(v@),
        Err(e) => Err(e@),
    }
}

/// Puts words before a reason.
fn because(words: &str, reason: &str) -> (r: String)
    ensures
        r@ == words@ + reason@,
{
    let mut out = owned(words);
    out.append(reason);
    out
}

impl CaptureContext {
    /// A capture under an id and a time.
    pub fn assemble(
        capture_id: String,
        captured_at: String,
        path: Result<String, String>,
        file: Result<Vec<u8>, String>,
        bounds: Bounds,
        dimensions: (u32, u32),
        scope: &'static str,
        target: Option<WindowSnapshot>,
        macos: bool,
    ) -> (r: Result<Self, String>)
        ensures
            model::result_view(r) == captured(
                capture_id@,
                captured_at@,
                model::result_view(path),
                bytes_view(file),
                bounds,
                dimensions,
                scope@,
                model::opt_view(target),
                macos,
            ),
    {
        if bounds.width == 0 || bounds.height == 0 || dimensions.0 == 0 || dimensions.1 == 0 {
            return Err(owned("截图或屏幕区域大小无效"));
        }
        let path = match path {
            Ok(p) => p,
            Err(e) => {
                return Err(because("无法读取截图路径: ", e.as_str()));
            },
        };
        let fingerprint: u64 = match file {
            Ok(bytes) => digest_of_bytes(&bytes),
            Err(e) => {
                return Err(because("无法读取截图: ", e.as_str()));
            },
        };
        let r = CaptureContext {
            capture_id,
            coordinate_space: "screen",
            coordinate_units: screen_coordinate_units(macos),
            scope,
            screen_bounds: bounds,
            image_width: dimensions.0,
            image_height: dimensions.1,
            target,
            captured_at,
            path,
            fingerprint,
            elements: HashMap::new(),
            consumed: false,
        };
        Ok(r)
    }

    /// A capture under a fresh id, at the time of the call.
    pub fn new(
        path: Result<String, String>,
        file: Result<Vec<u8>, String>,
        bounds: Bounds,
        dimensions: (u32, u32),
        scope: &'static str,
        target: Option<WindowSnapshot>,
        macos: bool,
    ) -> (r: Result<Self, String>)
        ensures
            exists|id: Seq<char>, at: Seq<char>| #[trigger]
                ids::hyphenated(id) && model::result_view(r) == #[trigger] captured(
                    id,
                    at,
                    model::result_view(path),
                    bytes_view(file),
                    bounds,
                    dimensions,
                    scope@,
                    model::opt_view(target),
                    macos,
                ),
    {
        let id = fresh_uuid();
        let at = now_rfc3339();
        assert(ids::hyphenated(id@));
        CaptureContext::assemble(id, at, path, file, bounds, dimensions, scope, target, macos)
    }

    /// The point of the desktop that a point of the image shows.
    pub fn screen_point(&self, x: i32, y: i32) -> (r: Result<(i32, i32), String>)
        ensures
            match r {
                Ok(p) => self@.point(x as int, y as int) == Ok::<(int, int), Seq<char>>(
                    (p.0 as int, p.1 as int),
                ),
                Err(e) => self@.point(x as int, y as int) == Err::<(int, int), Seq<char>>(e@),
            },
    {
        if x < 0 || y < 0 || x as u32 >= self.image_width || y as u32 >= self.image_height {
            return Err(owned("元素中心不在捕获图片内"));
        }
        let sx: i64 = scale(self.screen_bounds.x, self.screen_bounds.width, x, self.image_width);
        let sy: i64 = scale(self.screen_bounds.y, self.screen_bounds.height, y, self.image_height);
        if sx < -2147483648 || sx > 2147483647 || sy < -2147483648 || sy > 2147483647 {
            return Err(owned("屏幕坐标溢出"));
        }
        Ok((sx as i32, sy as i32))
    }

    /// Checks that a capture was not acted on or retired.
    fn usable(&self) -> (r: Result<(), String>)
        ensures
            match r {
                Ok(_) => !self.consumed,
                Err(e) => self.consumed && e@ == used_text(),
            },
    {
        if self.consumed {
            Err(owned("捕获已过期或已执行，请重新截图并感知"))
        } else {
            Ok(())
        }
    }

    /// Checks that a capture can be acted on and that its window is what and
    /// where it was.
    pub fn validate_window(&self, current: Option<&WindowSnapshot>) -> (r: Result<(), String>)
        ensures
            match r {
                Ok(_) => !self.consumed && self@.target == model::opt_ref_view(current),
                Err(e) => if self.consumed {
                    e@ == used_text()
                } else {
                    self@.target != model::opt_ref_view(current) && e@
                        == "目标窗口身份或位置已变化，请重新截图并感知；未发送点击"@
                },
            },
    {
        match self.usable() {
            Err(e) => {
                return Err(e);
            },
            Ok(_) => {},
        }
        let same = match (&self.target, current) {
            (Some(a), Some(b)) => a.same(b),
            (None, None) => true,
            _ => false,
        };
        if same {
            Ok(())
        } else {
            Err(owned("目标窗口身份或位置已变化，请重新截图并感知；未发送点击"))
        }
    }
}

/// The captures that are remembered, the oldest first.
pub struct CaptureCache {
    pub records: VecDeque<CaptureContext>,
}

impl View for CaptureCache {
    type V = Seq<CaptureModel>;

    open spec fn view(&self) -> Seq<CaptureModel> {
        model::seq_view(self.records@)
    }
}

impl Default for CaptureCache {
    fn default() -> (r: Self)
        ensures
            r@ == Seq::<CaptureModel>::empty(),
    {
        let r = CaptureCache { records: VecDeque::new() };
        assert(r@ =~= Seq::<CaptureModel>::empty());
        r
    }
}

/// Where the first capture of an id stands.
pub open spec fn place_of(s: Seq<CaptureModel>, id: Seq<char>) -> Option<int>
    decreases s.len(),
{
    if s.len() == 0 {
        None
    } else {
        match place_of(s.drop_last(), id) {
            Some(i) => Some(i),
            None => if s.last().capture_id == id {
                Some(s.len() - 1)
            } else {
                None
            },
        }
    }
}

/// Where the first capture of a file stands.
pub open spec fn file_place(s: Seq<CaptureModel>, path: Seq<char>) -> Option<int>
    decreases s.len(),
{
    if s.len() == 0 {
        None
    } else {
        match file_place(s.drop_last(), path) {
            Some(i) => Some(i),
            None => if s.last().path == path {
                Some(s.len() - 1)
            } else {
                None
            },
        }
    }
}

/// The captures of other files.
pub open spec fn without_file(s: Seq<CaptureModel>, path: Seq<char>) -> Seq<CaptureModel>
    decreases s.len(),
{
    if s.len() == 0 {
        Seq::empty()
    } else if s.last().path == path {
        without_file(s.drop_last(), path)
    } else {
        without_file(s.drop_last(), path).push(s.last())
    }
}

/// The captures after one was added: no other of its file, and only the
/// latest.
pub open spec fn inserted(s: Seq<CaptureModel>, c: CaptureModel) -> Seq<CaptureModel> {
    let all = without_file(s, c.path).push(c);
    if all.len() > MAX_CAPTURES {
        all.skip(all.len() - MAX_CAPTURES)
    } else {
        all
    }
}

/// A capture after it was acted on or retired.
pub open spec fn spent(c: CaptureModel) -> CaptureModel {
    CaptureModel { consumed: true, ..c }
}

/// All captures, retired.
pub open spec fn all_spent(s: Seq<CaptureModel>) -> Seq<CaptureModel> {
    Seq::new(s.len(), |i: int| spent(s[i]))
}

/// The captures after one was acted on: those of its window are retired, or
/// all where it showed none.
pub open spec fn acted_on(s: Seq<CaptureModel>, i: int) -> Seq<CaptureModel> {
    Seq::new(
        s.len(),
        |k: int|
            if s[i].target is None || s[k].window_key() == s[i].window_key() {
                spent(s[k])
            } else {
                s[k]
            },
    )
}

/// The points of elements on the desktop, or the error of the first that has
/// none. Of elements with one number the last counts.
pub open spec fn placed(c: CaptureModel, elements: Seq<Placed>) -> Result<
    Map<u32, (i32, i32)>,
    Seq<char>,
>
    decreases elements.len(),
{
    if elements.len() == 0 {
        Ok(Map::empty())
    } else {
        let e = elements.last();
        match placed(c, elements.drop_last()) {
            Err(x) => Err(x),
            Ok(before) => match c.point(e.x as int, e.y as int) {
                Err(x) => Err(x),
                Ok(p) => Ok(before.insert(e.id, (p.0 as i32, p.1 as i32))),
            },
        }
    }
}

/// The outcome of checking a capture: `file` is the digest of its file now.
pub open spec fn checked(
    s: Seq<CaptureModel>,
    id: Seq<char>,
    file: Result<u64, Seq<char>>,
) -> Result<(), Seq<char>> {
    match place_of(s, id) {
        None => Err("捕获缓存已过期，请重新截图并感知"@),
        Some(i) => if s[i].consumed {
            Err(used_text())
        } else {
            match file {
                Err(e) => Err(file_text(e)),
                Ok(now) => if now != s[i].fingerprint {
                    Err(changed_text())
                } else {
                    Ok(())
                },
            }
        },
    }
}

/// The capture of a file, where there is one that can be used.
pub open spec fn by_file(
    s: Seq<CaptureModel>,
    path: Result<Seq<char>, Seq<char>>,
    file: Result<u64, Seq<char>>,
) -> Result<Option<CaptureModel>, Seq<char>> {
    match path {
        Err(e) => Err(path_text(e)),
        Ok(path) => match file_place(s, path) {
            None => Ok(None),
            Some(i) => if s[i].consumed {
                Err(used_text())
            } else {
                match file {
                    Err(e) => Err(file_text(e)),
                    Ok(now) => if now != s[i].fingerprint {
                        Err(changed_text())
                    } else {
                        Ok(Some(s[i]))
                    },
                }
            },
        },
    }
}

/// The capture and the point of one of its elements.
pub open spec fn resolved(s: Seq<CaptureModel>, id: Seq<char>, element: u32) -> Result<
    (CaptureModel, (i32, i32)),
    Seq<char>,
> {
    match place_of(s, id) {
        None => Err("未知捕获，请重新截图并感知"@),
        Some(i) => if s[i].consumed {
            Err(used_text())
        } else if s[i].elements.contains_key(element) {
            Ok((s[i], s[i].elements[element]))
        } else {
            Err("元素不属于该捕获，请使用本次感知返回的 element_id"@)
        },
    }
}

/// The view of a digest that was asked for.
pub open spec fn digest_view(r: Result<u64, String>) -> Result<u64, Seq<char>> {
    match r {
        Ok(n) => Ok(n),
        Err(e) => Err(e@),
    }
}

/// A place that was found is the first of the id.
pub proof fn place_fits(s: Seq<CaptureModel>, id: Seq<char>)
    ensures
        place_of(s, id) matches Some(i) ==> 0 <= i < s.len() && s[i].capture_id == id && (forall|
            k: int,
        |
            0 <= k < i ==> (#[trigger] s[k]).capture_id != id),
        place_of(s, id) is None ==> forall|k: int|
            0 <= k < s.len() ==> (#[trigger] s[k]).capture_id != id,
    decreases s.len(),
{
    if s.len() > 0 {
        let rest = s.drop_last();
        place_fits(rest, id);
        assert(forall|k: int| 0 <= k < rest.len() ==> rest[k] == s[k]);
        match place_of(rest, id) {
            Some(i) => {
                assert(rest[i] == s[i]);
                assert forall|k: int| 0 <= k < i implies (#[trigger] s[k]).capture_id != id by {
                    assert(rest[k] == s[k]);
                }
            },
            None => {
                assert forall|k: int| 0 <= k < rest.len() implies (#[trigger] s[k]).capture_id
                    != id by {
                    assert(rest[k] == s[k]);
                }
            },
        }
    }
}

/// The places of an id depend on the ids alone.
proof fn same_ids_same_place(a: Seq<CaptureModel>, b: Seq<CaptureModel>, id: Seq<char>)
    requires
        a.len() == b.len(),
        forall|k: int| 0 <= k < a.len() ==> (#[trigger] a[k]).capture_id == b[k].capture_id,
    ensures
        place_of(a, id) == place_of(b, id),
    decreases a.len(),
{
    if a.len() > 0 {
        assert(a[a.len() - 1].capture_id == b[a.len() - 1].capture_id);
        assert forall|k: int| 0 <= k < a.drop_last().len() implies (
        #[trigger] a.drop_last()[k]).capture_id == b.drop_last()[k].capture_id by {
            assert(a[k].capture_id == b[k].capture_id);
        }
        same_ids_same_place(a.drop_last(), b.drop_last(), id);
    }
}

/// A capture that was acted on can be neither resolved nor acted on again.
pub proof fn click_cannot_be_replayed(s: Seq<CaptureModel>, id: Seq<char>, element: u32)
    requires
        place_of(s, id) is Some,
    ensures
        resolved(acted_on(s, place_of(s, id)->Some_0), id, element) is Err,
        place_of(acted_on(s, place_of(s, id)->Some_0), id) == place_of(s, id),
        acted_on(s, place_of(s, id)->Some_0)[place_of(s, id)->Some_0].consumed,
{
    place_fits(s, id);
    let i = place_of(s, id)->Some_0;
    same_ids_same_place(acted_on(s, i), s, id);
}

/// After captures were retired, no element of any of them can be resolved.
pub proof fn retired_elements_cannot_be_resolved(
    s: Seq<CaptureModel>,
    id: Seq<char>,
    element: u32,
)
    ensures
        resolved(all_spent(s), id, element) is Err,
{
    place_fits(all_spent(s), id);
}

/// What stays of captures of other files.
proof fn without_file_is_right(s: Seq<CaptureModel>, path: Seq<char>)
    ensures
        without_file(s, path).len() <= s.len(),
        forall|k: int|
            0 <= k < without_file(s, path).len() ==> (#[trigger] without_file(s, path)[k]).path
                != path && s.contains(without_file(s, path)[k]),
    decreases s.len(),
{
    if s.len() > 0 {
        let rest = s.drop_last();
        without_file_is_right(rest, path);
        let before = without_file(rest, path);
        let all = without_file(s, path);
        assert forall|k: int| 0 <= k < all.len() implies (#[trigger] all[k]).path != path
            && s.contains(all[k]) by {
            if k < before.len() {
                assert(all[k] == before[k]);
                let j = rest.index_of(before[k]);
                assert(s[j] == rest[j]);
            } else {
                assert(s[s.len() - 1] == all[k]);
            }
        }
    }
}

/// The latest capture of a file retires the others of it, the number of
/// captures is bounded, and the new one is the last.
pub proof fn newer_capture_replaces_older(s: Seq<CaptureModel>, c: CaptureModel)
    ensures
        inserted(s, c).len() <= MAX_CAPTURES,
        inserted(s, c).len() > 0,
        inserted(s, c).last() == c,
        forall|k: int|
            0 <= k < inserted(s, c).len() - 1 ==> (#[trigger] inserted(s, c)[k]).path != c.path
                && s.contains(inserted(s, c)[k]),
{
    without_file_is_right(s, c.path);
    let kept = without_file(s, c.path);
    let all = kept.push(c);
    let now = inserted(s, c);
    assert forall|k: int| 0 <= k < now.len() - 1 implies (#[trigger] now[k]).path != c.path
        && s.contains(now[k]) by {
        let j = all.len() - now.len() + k;
        assert(now[k] == all[j]);
        assert(all[j] == kept[j]);
    }
}

impl CaptureCache {
    /// Finds the first capture of an id.
    fn find(&self, id: &str) -> (r: Option<usize>)
        ensures
            match r {
                Some(i) => place_of(self@, id@) == Some(i as int) && i < self.records@.len(),
                None => place_of(self@, id@) is None,
            },
    {
        let ghost s = self@;
        let mut i: usize = 0;
        while i < self.records.len()
            invariant
                i <= self.records@.len(),
                s == self@,
                place_of(s.take(i as int), id@) is None,
            decreases self.records@.len() - i,
        {
            proof {
                assert(s.take(i + 1).drop_last() == s.take(i as int));
                assert(s.take(i + 1).last() == self.records@[i as int]@);
            }
            if same_text(self.records[i].capture_id.as_str(), id) {
                proof {
                    place_persists(s, id@, i + 1);
                }
                return Some(i);
            }
            i = i + 1;
        }
        assert(s.take(s.len() as int) == s);
        None
    }

    /// Finds the first capture of a file.
    fn find_file(&self, path: &str) -> (r: Option<usize>)
        ensures
            match r {
                Some(i) => file_place(self@, path@) == Some(i as int) && i < self.records@.len(),
                None => file_place(self@, path@) is None,
            },
    {
        let ghost s = self@;
        let mut i: usize = 0;
        while i < self.records.len()
            invariant
                i <= self.records@.len(),
                s == self@,
                file_place(s.take(i as int), path@) is None,
            decreases self.records@.len() - i,
        {
            proof {
                assert(s.take(i + 1).drop_last() == s.take(i as int));
                assert(s.take(i + 1).last() == self.records@[i as int]@);
            }
            if same_text(self.records[i].path.as_str(), path) {
                proof {
                    file_place_persists(s, path@, i + 1);
                }
                return Some(i);
            }
            i = i + 1;
        }
        assert(s.take(s.len() as int) == s);
        None
    }

    /// The file of a capture.
    pub fn file_of(&self, id: &str) -> (r: Option<String>)
        ensures
            model::opt_view(r) == match place_of(self@, id@) {
                Some(i) => Some(self@[i].path),
                None => None,
            },
    {
        match self.find(id) {
            Some(i) => Some(self.records[i].path.clone()),
            None => None,
        }
    }

    /// Checks that a capture can still be acted on; `file` is the digest of
    /// its file now, or the system's words where it cannot be read.
    pub fn validate(&self, id: &str, file: Result<u64, String>) -> (r: Result<(), String>)
        ensures
            match r {
                Ok(_) => checked(self@, id@, digest_view(file)) == Ok::<(), Seq<char>>(()),
                Err(e) => checked(self@, id@, digest_view(file)) == Err::<(), Seq<char>>(e@),
            },
    {
        let i: usize = match self.find(id) {
            Some(i) => i,
            None => {
                return Err(owned("捕获缓存已过期，请重新截图并感知"));
            },
        };
        match self.records[i].usable() {
            Err(e) => {
                return Err(e);
            },
            Ok(_) => {},
        }
        match file {
            Err(e) => Err(because("无法读取截图: ", e.as_str())),
            Ok(now) => if now != self.records[i].fingerprint {
                Err(owned("截图文件已变更，请重新截图并感知"))
            } else {
                Ok(())
            },
        }
    }

    /// Retires all captures.
    pub fn invalidate(&mut self)
        ensures
            final(self)@ == all_spent(old(self)@),
    {
        let ghost before = self@;
        let mut i: usize = 0;
        while i < self.records.len()
            invariant
                i <= self.records@.len(),
                self@.len() == before.len(),
                forall|k: int| 0 <= k < i ==> #[trigger] self@[k] == spent(before[k]),
                forall|k: int| i <= k < before.len() ==> #[trigger] self@[k] == before[k],
            decreases self.records@.len() - i,
        {
            self.spend(i);
            i = i + 1;
        }
        assert(self@ =~= all_spent(before));
    }

    /// Retires one capture.
    fn spend(&mut self, i: usize)
        requires
            i < old(self).records@.len(),
        ensures
            final(self)@ == old(self)@.update(i as int, spent(old(self)@[i as int])),
            final(self).records@.len() == old(self).records@.len(),
    {
        let mut item = self.records[i].copied();
        item.consumed = true;
        self.replace(i, item);
    }

    /// Puts a capture in the place of another.
    fn replace(&mut self, i: usize, item: CaptureContext)
        requires
            i < old(self).records@.len(),
        ensures
            final(self)@ == old(self)@.update(i as int, item@),
            final(self).records@.len() == old(self).records@.len(),
    {
        let ghost before = self@;
        let _older = self.records.remove(i);
        self.records.insert(i, item);
        assert(self@ =~= before.update(i as int, item@));
    }

    /// Remembers a capture, in place of others of its file; the oldest gives
    /// way.
    pub fn insert(&mut self, context: CaptureContext)
        ensures
            final(self)@ == inserted(old(self)@, context@),
    {
        let ghost s = self@;
        let mut kept: VecDeque<CaptureContext> = VecDeque::new();
        assert(model::seq_view(kept@) =~= without_file(s.take(0), context@.path));
        let mut i: usize = 0;
        while i < self.records.len()
            invariant
                i <= self.records@.len(),
                s == self@,
                model::seq_view(kept@) == without_file(s.take(i as int), context@.path),
                kept@.len() <= i,
            decreases self.records@.len() - i,
        {
            let ghost before = kept@;
            proof {
                assert(s.take(i + 1).drop_last() == s.take(i as int));
                assert(s.take(i + 1).last() == self.records@[i as int]@);
            }
            if !same_text(self.records[i].path.as_str(), context.path.as_str()) {
                let item = self.records[i].copied();
                kept.push_back(item);
                assert(model::seq_view(kept@) =~= model::seq_view(before).push(item@));
            }
            i = i + 1;
        }
        assert(s.take(s.len() as int) == s);
        let ghost before = kept@;
        kept.push_back(context);
        assert(model::seq_view(kept@) =~= model::seq_view(before).push(context@));
        let ghost all = model::seq_view(kept@);
        while kept.len() > MAX_CAPTURES
            invariant
                kept@.len() <= all.len(),
                kept@.len() >= MAX_CAPTURES || kept@.len() == all.len(),
                model::seq_view(kept@) == all.skip(all.len() - kept@.len()),
            decreases kept@.len(),
        {
            let ghost now = kept@;
            let _oldest = kept.pop_front();
            assert(model::seq_view(kept@) =~= model::seq_view(now).drop_first());
            assert(model::seq_view(kept@) =~= all.skip(all.len() - kept@.len()));
        }
        self.records = kept;
        assert(all.skip(0) =~= all);
    }

    /// The capture of a file. `path` is its canonical path and `file` its
    /// digest now, each with the system's words where it could not be had.
    pub fn for_path(&self, path: Result<String, String>, file: Result<u64, String>) -> (r: Result<
        Option<CaptureContext>,
        String,
    >)
        ensures
            match r {
                Ok(o) => by_file(self@, model::result_view(path), digest_view(file)) == Ok::<
                    Option<CaptureModel>,
                    Seq<char>,
                >(model::opt_view(o)),
                Err(e) => by_file(self@, model::result_view(path), digest_view(file)) == Err::<
                    Option<CaptureModel>,
                    Seq<char>,
                >(e@),
            },
    {
        let path = match path {
            Ok(p) => p,
            Err(e) => {
                return Err(because("无法读取截图路径: ", e.as_str()));
            },
        };
        let i: usize = match self.find_file(path.as_str()) {
            Some(i) => i,
            None => {
                return Ok(None);
            },
        };
        match self.records[i].usable() {
            Err(e) => {
                return Err(e);
            },
            Ok(_) => {},
        }
        match file {
            Err(e) => Err(because("无法读取截图: ", e.as_str())),
            Ok(now) => if now != self.records[i].fingerprint {
                Err(owned("截图文件已变更，请重新截图并感知"))
            } else {
                Ok(Some(self.records[i].copied()))
            },
        }
    }

    /// Remembers where the elements of a capture stand; they come with points
    /// of the image. Nothing changes where one has no point on the desktop.
    pub fn set_elements(&mut self, id: &str, elements: &Vec<Placed>) -> (r: Result<(), String>)
        ensures
            match place_of(old(self)@, id@) {
                None => r matches Err(e) && e@ == "捕获缓存已过期"@ && final(self)@ == old(self)@,
                Some(i) => if old(self)@[i].consumed {
                    r matches Err(e) && e@ == used_text() && final(self)@ == old(self)@
                } else {
                    match placed(old(self)@[i], elements@) {
                        Err(x) => r matches Err(e) && e@ == x && final(self)@ == old(self)@,
                        Ok(points) => r is Ok && final(self)@ == old(self)@.update(
                            i,
                            CaptureModel { elements: points, ..old(self)@[i] },
                        ),
                    }
                },
            },
    {
        let ghost s = self@;
        let at: usize = match self.find(id) {
            Some(i) => i,
            None => {
                return Err(owned("捕获缓存已过期"));
            },
        };
        match self.records[at].usable() {
            Err(e) => {
                return Err(e);
            },
            Ok(_) => {},
        }
        let mut item = self.records[at].copied();
        let ghost c = item@;
        let mut points: HashMap<u32, (i32, i32)> = HashMap::new();
        assert(elements@.take(0) =~= Seq::<Placed>::empty());
        let mut i: usize = 0;
        while i < elements.len()
            invariant
                i <= elements@.len(),
                s == self@,
                s == old(self)@,
                place_of(s, id@) == Some(at as int),
                at < s.len(),
                !s[at as int].consumed,
                item@ == c,
                c == s[at as int],
                placed(c, elements@.take(i as int)) == Ok::<Map<u32, (i32, i32)>, Seq<char>>(
                    points@,
                ),
            decreases elements@.len() - i,
        {
            let e = elements[i];
            proof {
                assert(elements@.take(i + 1).drop_last() == elements@.take(i as int));
                assert(elements@.take(i + 1).last() == e);
            }
            match item.screen_point(e.x, e.y) {
                Err(x) => {
                    proof {
                        error_persists(c, elements@, i + 1);
                    }
                    return Err(x);
                },
                Ok(p) => {
                    let _older = points.insert(e.id, p);
                },
            }
            i = i + 1;
        }
        assert(elements@.take(elements@.len() as int) == elements@);
        item.elements = points;
        self.replace(at, item);
        Ok(())
    }

    /// The capture and the point of one of its elements.
    pub fn resolve(&self, id: &str, element: u32) -> (r: Result<
        (CaptureContext, (i32, i32)),
        String,
    >)
        ensures
            match r {
                Ok(x) => resolved(self@, id@, element) == Ok::<
                    (CaptureModel, (i32, i32)),
                    Seq<char>,
                >((x.0@, x.1)),
                Err(e) => resolved(self@, id@, element) == Err::<
                    (CaptureModel, (i32, i32)),
                    Seq<char>,
                >(e@),
            },
    {
        let at: usize = match self.find(id) {
            Some(i) => i,
            None => {
                return Err(owned("未知捕获，请重新截图并感知"));
            },
        };
        let context = &self.records[at];
        match context.usable() {
            Err(e) => {
                return Err(e);
            },
            Ok(_) => {},
        }
        match context.elements.get(&element) {
            Some(point) => Ok((context.copied(), *point)),
            None => Err(owned("元素不属于该捕获，请使用本次感知返回的 element_id")),
        }
    }

    /// Marks a capture as acted on, and with it those of its window, or all
    /// where it showed none.
    pub fn consume(&mut self, id: &str) -> (r: Result<(), String>)
        ensures
            match place_of(old(self)@, id@) {
                None => r matches Err(e) && e@ == "未知捕获"@ && final(self)@ == old(self)@,
                Some(i) => if old(self)@[i].consumed {
                    r matches Err(e) && e@ == used_text() && final(self)@ == old(self)@
                } else {
                    r is Ok && final(self)@ == acted_on(old(self)@, i)
                },
            },
    {
        let ghost s = self@;
        let at: usize = match self.find(id) {
            Some(i) => i,
            None => {
                return Err(owned("未知捕获"));
            },
        };
        match self.records[at].usable() {
            Err(e) => {
                return Err(e);
            },
            Ok(_) => {},
        }
        let target: Option<(i32, u64)> = match &self.records[at].target {
            Some(w) => Some((w.hwnd, w.process_id)),
            None => None,
        };
        let mut i: usize = 0;
        while i < self.records.len()
            invariant
                i <= self.records@.len(),
                at < s.len(),
                self@.len() == s.len(),
                target == s[at as int].window_key(),
                forall|k: int| 0 <= k < i ==> #[trigger] self@[k] == acted_on(s, at as int)[k],
                forall|k: int| i <= k < s.len() ==> #[trigger] self@[k] == s[k],
            decreases self.records@.len() - i,
        {
            let same = match (target, &self.records[i].target) {
                (None, _) => true,
                (Some(t), Some(w)) => t.0 == w.hwnd && t.1 == w.process_id,
                (Some(_), None) => false,
            };
            assert(self@[i as int] == s[i as int]);
            if same {
                self.spend(i);
            }
            i = i + 1;
        }
        assert(self@ =~= acted_on(s, at as int));
        Ok(())
    }
}

/// A place that was found stays the first.
proof fn place_persists(s: Seq<CaptureModel>, id: Seq<char>, n: int)
    requires
        0 <= n <= s.len(),
        place_of(s.take(n), id) is Some,
    ensures
        place_of(s, id) == place_of(s.take(n), id),
    decreases s.len() - n,
{
    if n < s.len() {
        assert(s.take(n + 1).drop_last() == s.take(n));
        place_persists(s, id, n + 1);
    } else {
        assert(s.take(n) == s);
    }
}

/// A place that was found stays the first.
proof fn file_place_persists(s: Seq<CaptureModel>, path: Seq<char>, n: int)
    requires
        0 <= n <= s.len(),
        file_place(s.take(n), path) is Some,
    ensures
        file_place(s, path) == file_place(s.take(n), path),
    decreases s.len() - n,
{
    if n < s.len() {
        assert(s.take(n + 1).drop_last() == s.take(n));
        file_place_persists(s, path, n + 1);
    } else {
        assert(s.take(n) == s);
    }
}

/// The first error stays.
proof fn error_persists(c: CaptureModel, elements: Seq<Placed>, n: int)
    requires
        0 <= n <= elements.len(),
        placed(c, elements.take(n)) is Err,
    ensures
        placed(c, elements) == placed(c, elements.take(n)),
    decreases elements.len() - n,
{
    if n < elements.len() {
        assert(elements.take(n + 1).drop_last() == elements.take(n));
        error_persists(c, elements, n + 1);
    } else {
        assert(elements.take(n) == elements);
    }
}

/// A point lies on a rectangle where it is not left of it, not above it, and
/// before its right and lower edge.
pub proof fn rectangle_ends_before_its_edge(b: Bounds, x: int, y: int)
    ensures
        b.holds(b.x as int, b.y as int) <==> b.width > 0 && b.height > 0,
        !b.holds(b.x + b.width, y),
        !b.holds(x, b.y + b.height),
        b.holds(x, y) ==> !b.holds(b.x - 1, y) && !b.holds(x, b.y - 1),
        b.holds(b.x + b.width - 1, b.y + b.height - 1) <==> b.width > 0 && b.height > 0,
{
}

/// A window can be captured where it is to be seen, has an extent, and its
/// process is known; what is kept of it is what was reported.
pub proof fn visible_windows_are_captured(hwnd: i32, w: WindowReport)
    ensures
        reported(hwnd, w) is Ok <==> w.minimized != Some(true) && w.visible != Some(false)
            && w.bounds is Some && w.bounds->Some_0.width > 0 && w.bounds->Some_0.height > 0
            && w.process_id is Some,
        reported(hwnd, w) matches Ok(s) ==> s.hwnd == hwnd && w.process_id == Some(s.process_id)
            && w.bounds == Some(s.bounds) && (w.title matches Some(t) ==> s.title == t@) && (
        w.title is None ==> s.title.len() == 0),
{
}

/// A point of the image and the point of the desktop are at the same part of the
/// way across, rounded down; the corner is the corner.
pub proof fn points_keep_their_share(c: CaptureModel, x: int, y: int)
    requires
        c.image_width > 0,
        c.image_height > 0,
        c.on_image(x, y),
    ensures
        ({
            let p = c.desktop_point(x, y);
            let b = c.screen_bounds;
            &&& (p.0 - b.x) * c.image_width <= x * b.width < (p.0 - b.x + 1) * c.image_width
            &&& (p.1 - b.y) * c.image_height <= y * b.height < (p.1 - b.y + 1) * c.image_height
            &&& c.point(x, y) is Ok <==> i32::MIN <= p.0 <= i32::MAX && i32::MIN <= p.1 <= i32::MAX
            &&& c.point(x, y) is Ok ==> c.point(x, y)->Ok_0 == p
        }),
        !c.on_image(-1, y) && !c.on_image(x, -1),
        !c.on_image(c.image_width as int, y) && !c.on_image(x, c.image_height as int),
        c.point(c.image_width as int, y) is Err,
        c.point(x, c.image_height as int) is Err,
{
    let w = c.image_width as int;
    let h = c.image_height as int;
    let a = x * c.screen_bounds.width;
    let b = y * c.screen_bounds.height;
    vstd::arithmetic::div_mod::lemma_fundamental_div_mod(a, w);
    vstd::arithmetic::div_mod::lemma_fundamental_div_mod(b, h);
    vstd::arithmetic::div_mod::lemma_mod_bound(a, w);
    vstd::arithmetic::div_mod::lemma_mod_bound(b, h);
    let p = a / w;
    let q = b / h;
    assert(p * w <= a < (p + 1) * w) by (nonlinear_arith)
        requires
            a == w * p + a % w,
            0 <= a % w < w,
    ;
    assert(q * h <= b < (q + 1) * h) by (nonlinear_arith)
        requires
            b == h * q + b % h,
            0 <= b % h < h,
    ;
}

/// A capture is made where the region and the image have an extent and the file
/// can be read; it is fresh, of that file, with no elements yet.
pub proof fn captures_start_fresh(
    id: Seq<char>,
    at: Seq<char>,
    path: Result<Seq<char>, Seq<char>>,
    file: Result<Seq<u8>, Seq<char>>,
    bounds: Bounds,
    dimensions: (u32, u32),
    scope: Seq<char>,
    target: Option<WindowSnapshotModel>,
    macos: bool,
)
    ensures
        ({
            let r = captured(id, at, path, file, bounds, dimensions, scope, target, macos);
            &&& r is Ok <==> bounds.width > 0 && bounds.height > 0 && dimensions.0 > 0
                && dimensions.1 > 0 && path is Ok && file is Ok
            &&& r matches Ok(c) ==> {
                &&& c.capture_id == id
                &&& c.captured_at == at
                &&& path == Ok::<Seq<char>, Seq<char>>(c.path)
                &&& c.fingerprint == hashing::digest(hashing::characters(file->Ok_0))
                &&& c.screen_bounds == bounds
                &&& c.image_width == dimensions.0
                &&& c.image_height == dimensions.1
                &&& c.scope == scope
                &&& c.target == target
                &&& c.coordinate_space == "screen"@
                &&& macos ==> c.coordinate_units == "logical_points"@
                &&& !macos ==> c.coordinate_units == "physical_pixels"@
                &&& c.elements == Map::<u32, (i32, i32)>::empty()
                &&& !c.consumed
            }
        }),
{
}

/// Taking a file's captures out leaves the others, in their order.
pub proof fn other_files_are_kept(
    a: Seq<CaptureModel>,
    b: Seq<CaptureModel>,
    c: CaptureModel,
    path: Seq<char>,
)
    ensures
        without_file(a + b, path) == without_file(a, path) + without_file(b, path),
        c.path == path ==> without_file(seq![c], path) == Seq::<CaptureModel>::empty(),
        c.path != path ==> without_file(seq![c], path) == seq![c],
    decreases b.len(),
{
    assert(seq![c].drop_last() =~= Seq::<CaptureModel>::empty());
    assert(without_file(seq![c].drop_last(), path) =~= Seq::<CaptureModel>::empty());
    if b.len() == 0 {
        assert(a + b =~= a);
        assert(without_file(a, path) + without_file(b, path) =~= without_file(a, path));
    } else {
        assert((a + b).last() == b.last());
        assert((a + b).drop_last() =~= a + b.drop_last());
        other_files_are_kept(a, b.drop_last(), c, path);
        assert((without_file(a, path) + without_file(b.drop_last(), path)).push(b.last())
            =~= without_file(a, path) + without_file(b.drop_last(), path).push(b.last()));
    }
}

/// A capture that is put in replaces those of its file and keeps all others while
/// there are at most sixty-four; beyond that the oldest leave.
pub proof fn oldest_captures_leave(s: Seq<CaptureModel>, c: CaptureModel)
    ensures
        without_file(s, c.path).len() < 64 ==> inserted(s, c) == without_file(s, c.path).push(c),
        without_file(s, c.path).len() >= 64 ==> inserted(s, c).len() == 64 && inserted(s, c)
            == without_file(s, c.path).skip(without_file(s, c.path).len() - 63).push(c),
{
    let all = without_file(s, c.path).push(c);
    if without_file(s, c.path).len() >= 64 {
        assert(all.skip(all.len() - 64) =~= without_file(s, c.path).skip(
            without_file(s, c.path).len() - 63,
        ).push(c));
    }
}

/// Acting on a capture uses up those of its window, which may have changed, and
/// leaves those of other windows; where it showed no window, all are used up.
/// Nothing else of a capture changes.
pub proof fn acting_uses_up_what_may_have_changed(s: Seq<CaptureModel>, i: int, k: int)
    requires
        0 <= i < s.len(),
        0 <= k < s.len(),
    ensures
        acted_on(s, i).len() == s.len(),
        s[i].target is None ==> acted_on(s, i)[k].consumed,
        s[i].target is Some && s[k].target is Some && s[k].target->Some_0.hwnd
            == s[i].target->Some_0.hwnd && s[k].target->Some_0.process_id
            == s[i].target->Some_0.process_id ==> acted_on(s, i)[k].consumed,
        s[i].target is Some && (s[k].target is None || s[k].target->Some_0.hwnd
            != s[i].target->Some_0.hwnd || s[k].target->Some_0.process_id
            != s[i].target->Some_0.process_id) ==> acted_on(s, i)[k] == s[k],
        acted_on(s, i)[k].capture_id == s[k].capture_id,
        acted_on(s, i)[k].path == s[k].path,
        acted_on(s, i)[k].elements == s[k].elements,
        acted_on(s, i)[k].target == s[k].target,
        all_spent(s).len() == s.len() && all_spent(s)[k].consumed && all_spent(s)[k].capture_id
            == s[k].capture_id,
{
}

/// The elements of a capture stand at the desktop points of their image points,
/// a later one over an earlier one of the same number; one that is not on the
/// image spoils them all.
pub proof fn elements_stand_at_their_points(c: CaptureModel, before: Seq<Placed>, e: Placed)
    ensures
        placed(c, Seq::empty()) == Ok::<Map<u32, (i32, i32)>, Seq<char>>(Map::empty()),
        placed(c, before.push(e)) is Ok <==> placed(c, before) is Ok && c.point(
            e.x as int,
            e.y as int,
        ) is Ok,
        placed(c, before.push(e)) is Ok ==> placed(c, before.push(e))->Ok_0 == placed(
            c,
            before,
        )->Ok_0.insert(
            e.id,
            (
                c.desktop_point(e.x as int, e.y as int).0 as i32,
                c.desktop_point(e.x as int, e.y as int).1 as i32,
            ),
        ),
        placed(c, before) is Err ==> placed(c, before.push(e)) == placed(c, before),
{
    assert(before.push(e).drop_last() =~= before);
}

/// Where a file's capture stands.
proof fn file_place_fits(s: Seq<CaptureModel>, path: Seq<char>)
    ensures
        file_place(s, path) matches Some(i) ==> 0 <= i < s.len() && s[i].path == path,
        file_place(s, path) is None ==> forall|k: int|
            0 <= k < s.len() ==> (#[trigger] s[k]).path != path,
    decreases s.len(),
{
    if s.len() > 0 {
        let short = s.drop_last();
        file_place_fits(short, path);
        match file_place(short, path) {
            Some(i) => {
                assert(short[i] == s[i]);
            },
            None => {
                assert forall|k: int| 0 <= k < s.len() && file_place(s, path) is None implies (
                #[trigger] s[k]).path != path by {
                    if k < short.len() {
                        assert(short[k] == s[k]);
                    }
                }
            },
        }
    }
}

/// A capture can be acted on where it is known, not used up, and its file is what
/// it was; the same holds where it is asked for by its file, where an unknown
/// file has none.
pub proof fn changed_captures_are_refused(
    s: Seq<CaptureModel>,
    id: Seq<char>,
    path: Seq<char>,
    now: u64,
    e: Seq<char>,
)
    ensures
        checked(s, id, Ok(now)) is Ok <==> place_of(s, id) is Some && !s[place_of(
            s,
            id,
        )->Some_0].consumed && s[place_of(s, id)->Some_0].fingerprint == now,
        checked(s, id, Err(e)) is Err,
        by_file(s, Err(e), Ok(now)) is Err,
        (forall|k: int| 0 <= k < s.len() ==> (#[trigger] s[k]).path != path) ==> by_file(
            s,
            Ok(path),
            Ok(now),
        ) == Ok::<Option<CaptureModel>, Seq<char>>(None),
        by_file(s, Ok(path), Ok(now)) matches Ok(Some(c)) ==> s.contains(c) && c.path == path
            && !c.consumed && c.fingerprint == now,
        by_file(s, Ok(path), Ok(now)) matches Ok(None) ==> forall|k: int|
            0 <= k < s.len() ==> (#[trigger] s[k]).path != path,
        file_place(s, path) matches Some(i) ==> (s[i].consumed || s[i].fingerprint != now
            ==> by_file(s, Ok(path), Ok(now)) is Err) && (!s[i].consumed && s[i].fingerprint == now
            ==> by_file(s, Ok(path), Ok(now)) == Ok::<Option<CaptureModel>, Seq<char>>(
            Some(s[i]),
        )),
{
    file_place_fits(s, path);
}

/// An element is found where its capture is known, not used up, and holds it; it
/// is where it was placed.
pub proof fn elements_are_found_in_their_capture(s: Seq<CaptureModel>, id: Seq<char>, element: u32)
    ensures
        resolved(s, id, element) is Ok <==> place_of(s, id) is Some && !s[place_of(
            s,
            id,
        )->Some_0].consumed && s[place_of(s, id)->Some_0].elements.contains_key(element),
        resolved(s, id, element) matches Ok(r) ==> r.0 == s[place_of(s, id)->Some_0]
            && r.0.capture_id == id && r.1 == r.0.elements[element],
{
    place_fits(s, id);
}

} // verus!
