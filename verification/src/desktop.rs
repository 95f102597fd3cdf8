//! The desktop client without its native calls: which requests are refused,
//! which captures they retire, and what is said of what was seen.
use vstd::prelude::*;
use vstd::string::*;

use crate::capture_context;
use crate::capture_context::{
    Bounds, CaptureCache, CaptureContext, CaptureModel, Placed, WindowSnapshot,
    WindowSnapshotModel,
};
use crate::error::NuphusError;
use crate::find;
use crate::find::{
    line_of, search_line, search_words, templates_to_search, Hit, HitModel, ImageSearch, TextReport,
};
use crate::ids;
use crate::model;
use crate::model::Plain;
use crate::profile;
use crate::profile::{Place, PlaceModel};
use crate::text;
use crate::text::{
    chars_of, contains_text, eq_ignore_ascii_case, join, lowercase, owned, same_text,
    signed_decimal, span, starts_with, take_chars,
};

verus! {

/// The client: the captures that can be acted on.
pub struct DesktopClient {
    pub captures: CaptureCache,
}

impl Default for DesktopClient {
    fn default() -> (r: Self)
        ensures
            r.captures@ == Seq::<CaptureModel>::empty(),
    {
        DesktopClient::new()
    }
}

/// A mouse button.
#[derive(Debug, Clone, Copy, PartialEq, Eq, Structural)]
pub enum MouseButton {
    Left,
    Right,
    Middle,
}

/// What is done about a click.
#[derive(Debug, Clone, Copy, PartialEq, Eq)]
pub enum ClickPlan {
    /// Nothing, and why.
    Refused(&'static str),
    /// So many presses, with a pause after each where there are several.
    Press { button: MouseButton, presses: i32, pause: bool },
}

/// The button of a name.
pub open spec fn button_model(name: Seq<char>) -> Option<MouseButton> {
    if name == "left"@ {
        Some(MouseButton::Left)
    } else if name == "right"@ {
        Some(MouseButton::Right)
    } else if name == "middle"@ {
        Some(MouseButton::Middle)
    } else {
        None
    }
}

/// The button of a name.
fn button_of(name: &str) -> (r: Option<MouseButton>)
    ensures
        r == button_model(name@),
{
    if same_text(name, "left") {
        Some(MouseButton::Left)
    } else if same_text(name, "right") {
        Some(MouseButton::Right)
    } else if same_text(name, "middle") {
        Some(MouseButton::Middle)
    } else {
        None
    }
}

/// The words of an error of a tool.
pub open spec fn is_tool(e: NuphusError, words: Seq<char>) -> bool {
    e matches NuphusError::Tool(s) && s@ == words
}

/// What a second look at a capture says: the window's report first, then the
/// file, then the window itself.
pub open spec fn revalidated(
    s: Seq<CaptureModel>,
    c: CaptureModel,
    current: Option<WindowSnapshotModel>,
    file: std::result::Result<u64, Seq<char>>,
) -> std::result::Result<(), Seq<char>> {
    match capture_context::checked(s, c.capture_id, file) {
        Err(e) => Err(e),
        Ok(_) => if c.consumed {
            Err(capture_context::used_text())
        } else if c.target != current {
            Err("目标窗口身份或位置已变化，请重新截图并感知；未发送点击"@)
        } else {
            Ok(())
        },
    }
}

/// An element that was seen: its number, and its middle on the image.
pub type Seen = Placed;

/// The elements whose middle has a point on the desktop.
pub open spec fn placeable(c: CaptureModel, seen: Seq<Seen>) -> Seq<Seen>
    decreases seen.len(),
{
    if seen.len() == 0 {
        Seq::empty()
    } else if c.point(seen.last().x as int, seen.last().y as int) is Ok {
        placeable(c, seen.drop_last()).push(seen.last())
    } else {
        placeable(c, seen.drop_last())
    }
}

/// What became of the elements that were seen.
#[derive(Debug, Clone, Copy, PartialEq, Eq, Structural)]
pub enum Perception {
    /// They are remembered with their capture.
    Recorded,
    /// Another capture took the file's place meanwhile.
    Replaced,
    /// The image is of no capture: they are reported alone.
    Unknown,
}

impl Perception {
    /// Why elements that should have been remembered were not.
    pub fn refusal(&self) -> (r: Option<&'static str>)
        ensures
            text::opt_str(r) == match *self {
                Perception::Recorded | Perception::Unknown => None,
                Perception::Replaced => Some("截图在感知期间被替换，请重新感知"@),
            },
    {
        match self {
            Perception::Recorded | Perception::Unknown => None,
            Perception::Replaced => Some("截图在感知期间被替换，请重新感知"),
        }
    }
}

/// What is read of an image: its canonical path and its digest.
pub struct Image {
    pub path: std::result::Result<String, String>,
    pub file: std::result::Result<u64, String>,
}

/// A look at a capture: its window as it is reported now, where it was taken
/// with one, and the digest of its file.
pub struct Look {
    pub window: Option<std::result::Result<WindowSnapshot, NuphusError>>,
    pub file: std::result::Result<u64, String>,
}

/// The window that a look shows.
pub open spec fn shown(look: Look) -> Option<WindowSnapshotModel> {
    match look.window {
        Some(Ok(w)) => Some(w@),
        _ => None,
    }
}

/// Whether a look at a capture finds nothing changed.
pub open spec fn passes(s: Seq<CaptureModel>, c: CaptureModel, look: Look) -> bool {
    !(look.window matches Some(Err(_))) && revalidated(
        s,
        c,
        shown(look),
        capture_context::digest_view(look.file),
    ) is Ok
}

/// Whether an error is what a look at a capture is answered with.
pub open spec fn refuses(s: Seq<CaptureModel>, c: CaptureModel, look: Look, e: NuphusError) -> bool {
    match look.window {
        Some(Err(x)) => e == x,
        _ => match revalidated(s, c, shown(look), capture_context::digest_view(look.file)) {
            Ok(_) => false,
            Err(words) => is_tool(e, words),
        },
    }
}

/// What becomes of elements that were seen on a capture: what is said of them,
/// and the captures then.
pub open spec fn kept(
    s: Seq<CaptureModel>,
    c: CaptureModel,
    path: std::result::Result<Seq<char>, Seq<char>>,
    file: std::result::Result<u64, Seq<char>>,
    seen: Seq<Seen>,
) -> (std::result::Result<Perception, Seq<char>>, Seq<CaptureModel>) {
    match capture_context::by_file(s, path, file) {
        Err(words) => (Err(words), s),
        Ok(now) => if now is None || now->Some_0.capture_id != c.capture_id {
            (Ok(Perception::Replaced), s)
        } else {
            match capture_context::place_of(s, c.capture_id) {
                None => (Err("捕获缓存已过期"@), s),
                Some(i) => if s[i].consumed {
                    (Err(capture_context::used_text()), s)
                } else {
                    match capture_context::placed(s[i], placeable(c, seen)) {
                        Err(words) => (Err(words), s),
                        Ok(points) => (
                            Ok(Perception::Recorded),
                            s.update(i, CaptureModel { elements: points, ..s[i] }),
                        ),
                    }
                },
            }
        },
    }
}

/// Elements that have a point each have a place.
proof fn placeable_are_placed(c: CaptureModel, seen: Seq<Seen>)
    ensures
        capture_context::placed(c, placeable(c, seen)) is Ok,
    decreases seen.len(),
{
    if seen.len() > 0 {
        placeable_are_placed(c, seen.drop_last());
        let before = placeable(c, seen.drop_last());
        assert(before.push(seen.last()).drop_last() =~= before);
    }
}

impl DesktopClient {
    /// A client that has captured nothing.
    pub fn new() -> (r: Self)
        ensures
            r.captures@ == Seq::<CaptureModel>::empty(),
    {
        DesktopClient { captures: CaptureCache::default() }
    }

    /// The capture and the point of one of its elements.
    pub fn resolve_capture_element(&self, capture_id: &str, element_id: u32) -> (r:
        std::result::Result<(CaptureContext, (i32, i32)), NuphusError>)
        ensures
            match r {
                Ok(x) => capture_context::resolved(self.captures@, capture_id@, element_id)
                    == Ok::<(CaptureModel, (i32, i32)), Seq<char>>((x.0@, x.1)),
                Err(e) => capture_context::resolved(self.captures@, capture_id@, element_id) matches Err(
                    w,
                ) && is_tool(e, w),
            },
    {
        match self.captures.resolve(capture_id, element_id) {
            Ok(x) => Ok(x),
            Err(e) => Err(NuphusError::Tool(e)),
        }
    }

    /// Checks that a capture can be acted on now. `current` is its window as it
    /// is reported now, where it shows one; `file` is the digest of its file.
    pub fn validate_capture_context(
        &self,
        context: &CaptureContext,
        current: Option<std::result::Result<WindowSnapshot, NuphusError>>,
        file: std::result::Result<u64, String>,
    ) -> (r: std::result::Result<(), NuphusError>)
        ensures
            match current {
                Some(Err(e)) => r == Err::<(), NuphusError>(e),
                Some(Ok(w)) => match revalidated(
                    self.captures@,
                    context@,
                    Some(w@),
                    capture_context::digest_view(file),
                ) {
                    Ok(_) => r is Ok,
                    Err(words) => r matches Err(e) && is_tool(e, words),
                },
                None => match revalidated(
                    self.captures@,
                    context@,
                    None,
                    capture_context::digest_view(file),
                ) {
                    Ok(_) => r is Ok,
                    Err(words) => r matches Err(e) && is_tool(e, words),
                },
            },
    {
        let window = match current {
            Some(Ok(w)) => Some(w),
            Some(Err(e)) => {
                return Err(e);
            },
            None => None,
        };
        match self.captures.validate(context.capture_id.as_str(), file) {
            Err(e) => {
                return Err(NuphusError::Tool(e));
            },
            Ok(_) => {},
        }
        let checked = match &window {
            Some(w) => context.validate_window(Some(w)),
            None => context.validate_window(None),
        };
        match checked {
            Err(e) => Err(NuphusError::Tool(e)),
            Ok(_) => Ok(()),
        }
    }

    /// Marks a capture as acted on.
    pub fn consume_capture(&mut self, capture_id: &str) -> (r: std::result::Result<
        (),
        NuphusError,
    >)
        ensures
            match capture_context::place_of(old(self).captures@, capture_id@) {
                None => r matches Err(e) && is_tool(e, "未知捕获"@) && final(self).captures@
                    == old(self).captures@,
                Some(i) => if old(self).captures@[i].consumed {
                    r matches Err(e) && is_tool(e, capture_context::used_text())
                        && final(self).captures@ == old(self).captures@
                } else {
                    r is Ok && final(self).captures@ == capture_context::acted_on(
                        old(self).captures@,
                        i,
                    )
                },
            },
    {
        match self.captures.consume(capture_id) {
            Err(e) => Err(NuphusError::Tool(e)),
            Ok(_) => Ok(()),
        }
    }

    /// Retires all captures, as everything does that changes the desktop.
    pub fn invalidate_captures(&mut self)
        ensures
            final(self).captures@ == capture_context::all_spent(old(self).captures@),
    {
        self.captures.invalidate();
    }

    /// Remembers a capture under a fresh id.
    pub fn remember_capture(
        &mut self,
        path: std::result::Result<String, String>,
        file: std::result::Result<Vec<u8>, String>,
        bounds: Bounds,
        dimensions: (u32, u32),
        scope: &'static str,
        target: Option<WindowSnapshot>,
        macos: bool,
    ) -> (r: std::result::Result<CaptureContext, NuphusError>)
        ensures
            exists|id: Seq<char>, at: Seq<char>| #[trigger]
                ids::hyphenated(id) && match #[trigger] capture_context::captured(
                    id,
                    at,
                    model::result_view(path),
                    capture_context::bytes_view(file),
                    bounds,
                    dimensions,
                    scope@,
                    model::opt_view(target),
                    macos,
                ) {
                    Ok(c) => r matches Ok(x) && x@ == c && final(self).captures@
                        == capture_context::inserted(old(self).captures@, c),
                    Err(words) => r matches Err(e) && is_tool(e, words) && final(self).captures@
                        == old(self).captures@,
                },
    {
        match CaptureContext::new(path, file, bounds, dimensions, scope, target, macos) {
            Err(e) => Err(NuphusError::Tool(e)),
            Ok(context) => {
                self.captures.insert(context.copied());
                Ok(context)
            },
        }
    }

    /// Decides about a click. One that is carried out retires all captures;
    /// one that is refused retires none.
    pub fn mouse_click(&mut self, button: &str, clicks: i32) -> (r: ClickPlan)
        ensures
            if !(1 <= clicks <= 2) {
                &&& r matches ClickPlan::Refused(words) && words@ == "clicks must be 1 or 2"@
                &&& final(self).captures@ == old(self).captures@
            } else {
                match button_model(button@) {
                    None => {
                        &&& r matches ClickPlan::Refused(words) && words@
                            == "unsupported mouse button"@
                        &&& final(self).captures@ == old(self).captures@
                    },
                    Some(b) => {
                        &&& r == (ClickPlan::Press {
                            button: b,
                            presses: clicks,
                            pause: clicks > 1,
                        })
                        &&& final(self).captures@ == capture_context::all_spent(
                            old(self).captures@,
                        )
                    },
                }
            },
    {
        if !(1 <= clicks && clicks <= 2) {
            return ClickPlan::Refused("clicks must be 1 or 2");
        }
        match button_of(button) {
            None => ClickPlan::Refused("unsupported mouse button"),
            Some(b) => {
                self.captures.invalidate();
                ClickPlan::Press { button: b, presses: clicks, pause: clicks > 1 }
            },
        }
    }

    /// Remembers the elements that were seen on a capture, unless another
    /// capture took its file's place meanwhile. `path` and `file` are the
    /// image's canonical path and digest now.
    pub fn keep_elements(
        &mut self,
        context: &CaptureContext,
        path: std::result::Result<String, String>,
        file: std::result::Result<u64, String>,
        seen: &Vec<Seen>,
    ) -> (r: std::result::Result<Perception, NuphusError>)
        ensures
            ({
                let kept = kept(
                    old(self).captures@,
                    context@,
                    model::result_view(path),
                    capture_context::digest_view(file),
                    seen@,
                );
                &&& final(self).captures@ == kept.1
                &&& match kept.0 {
                    Ok(p) => r == Ok::<Perception, NuphusError>(p),
                    Err(words) => r matches Err(e) && is_tool(e, words),
                }
            }),
    {
        let now = match self.captures.for_path(path, file) {
            Err(e) => {
                return Err(NuphusError::Tool(e));
            },
            Ok(o) => o,
        };
        let same = match &now {
            Some(x) => same_text(x.capture_id.as_str(), context.capture_id.as_str()),
            None => false,
        };
        if !same {
            return Ok(Perception::Replaced);
        }
        let mut kept: Vec<Seen> = Vec::new();
        assert(kept@ =~= placeable(context@, seen@.take(0)));
        let mut i: usize = 0;
        while i < seen.len()
            invariant
                i <= seen@.len(),
                kept@ == placeable(context@, seen@.take(i as int)),
            decreases seen@.len() - i,
        {
            proof {
                assert(seen@.take(i + 1).drop_last() == seen@.take(i as int));
                assert(seen@.take(i + 1).last() == seen@[i as int]);
            }
            match context.screen_point(seen[i].x, seen[i].y) {
                Ok(_) => {
                    kept.push(seen[i]);
                },
                Err(_) => {},
            }
            i = i + 1;
        }
        assert(seen@.take(seen@.len() as int) == seen@);
        match self.captures.set_elements(context.capture_id.as_str(), &kept) {
            Err(e) => Err(NuphusError::Tool(e)),
            Ok(_) => Ok(Perception::Recorded),
        }
    }

    /// The capture that an image is of, where it is of one. `path` and `file`
    /// are the image's canonical path and digest.
    pub fn capture_of(
        &self,
        path: std::result::Result<String, String>,
        file: std::result::Result<u64, String>,
    ) -> (r: std::result::Result<Option<CaptureContext>, NuphusError>)
        ensures
            match capture_context::by_file(
                self.captures@,
                model::result_view(path),
                capture_context::digest_view(file),
            ) {
                Ok(found) => r matches Ok(o) && model::opt_view(o) == found,
                Err(words) => r matches Err(e) && is_tool(e, words),
            },
    {
        match self.captures.for_path(path, file) {
            Ok(o) => Ok(o),
            Err(e) => Err(NuphusError::Tool(e)),
        }
    }

    /// What becomes of elements that were seen on an image, once they are seen.
    /// Those of a capture are remembered where a second look at it passes. Those
    /// of another image are not.
    pub fn finish_perception(
        &mut self,
        capture: &Option<CaptureContext>,
        again: Look,
        path: std::result::Result<String, String>,
        file: std::result::Result<u64, String>,
        seen: &Vec<Seen>,
    ) -> (r: std::result::Result<Perception, NuphusError>)
        ensures
            ({
                let s = old(self).captures@;
                match model::opt_view(*capture) {
                    None => r == Ok::<Perception, NuphusError>(Perception::Unknown)
                        && final(self).captures@ == s,
                    Some(c) => if !passes(s, c, again) {
                        r matches Err(e) && refuses(s, c, again, e) && final(self).captures@ == s
                    } else {
                        let kept = kept(
                            s,
                            c,
                            model::result_view(path),
                            capture_context::digest_view(file),
                            seen@,
                        );
                        &&& final(self).captures@ == kept.1
                        &&& match kept.0 {
                            Ok(p) => r == Ok::<Perception, NuphusError>(p),
                            Err(words) => r matches Err(e) && is_tool(e, words),
                        }
                    },
                }
            }),
    {
        match capture {
            None => Ok(Perception::Unknown),
            Some(context) => {
                match self.validate_capture_context(context, again.window, again.file) {
                    Err(e) => {
                        return Err(e);
                    },
                    Ok(_) => {},
                }
                self.keep_elements(context, path, file, seen)
            },
        }
    }

    /// What becomes of elements that are seen on an image, from the image's path
    /// on. A capture is looked at before the elements are detected and again
    /// after; they are remembered with it only where both looks pass and it is
    /// still the image's. An image that is of no capture is reported alone.
    pub fn perceive(
        &mut self,
        image: Image,
        first: Look,
        again: Look,
        image_again: Image,
        seen: &Vec<Seen>,
    ) -> (r: std::result::Result<(Option<CaptureContext>, Perception), NuphusError>)
        ensures
            ({
                let s = old(self).captures@;
                match capture_context::by_file(
                    s,
                    model::result_view(image.path),
                    capture_context::digest_view(image.file),
                ) {
                    Err(words) => r matches Err(e) && is_tool(e, words) && final(self).captures@
                        == s,
                    Ok(None) => r matches Ok(x) && x.0 is None && x.1 == Perception::Unknown
                        && final(self).captures@ == s,
                    Ok(Some(c)) => if !passes(s, c, first) {
                        r matches Err(e) && refuses(s, c, first, e) && final(self).captures@ == s
                    } else if !passes(s, c, again) {
                        r matches Err(e) && refuses(s, c, again, e) && final(self).captures@ == s
                    } else {
                        let kept = kept(
                            s,
                            c,
                            model::result_view(image_again.path),
                            capture_context::digest_view(image_again.file),
                            seen@,
                        );
                        &&& final(self).captures@ == kept.1
                        &&& match kept.0 {
                            Ok(p) => r matches Ok(x) && model::opt_view(x.0) == Some(c) && x.1 == p,
                            Err(words) => r matches Err(e) && is_tool(e, words),
                        }
                    },
                }
            }),
    {
        let capture = match self.capture_of(image.path, image.file) {
            Err(e) => {
                return Err(e);
            },
            Ok(o) => o,
        };
        match &capture {
            None => {},
            Some(context) => {
                match self.validate_capture_context(context, first.window, first.file) {
                    Err(e) => {
                        return Err(e);
                    },
                    Ok(_) => {},
                }
            },
        }
        match self.finish_perception(&capture, again, image_again.path, image_again.file, seen) {
            Err(e) => Err(e),
            Ok(p) => Ok((capture, p)),
        }
    }
}

/// A look that passes shows the window that the capture was taken of, where it
/// was taken with one, where it stood then; and the capture is remembered, was
/// not acted on, and its file holds what it held.
pub proof fn passed_look_shows_what_was_captured(s: Seq<CaptureModel>, c: CaptureModel, look: Look)
    requires
        passes(s, c, look),
    ensures
        match look.window {
            None => c.target is None,
            Some(Ok(w)) => c.target == Some(w@),
            Some(Err(_)) => false,
        },
        !c.consumed,
        capture_context::place_of(s, c.capture_id) matches Some(i) && !s[i].consumed
            && capture_context::digest_view(look.file) == Ok::<u64, Seq<char>>(s[i].fingerprint),
{
}

/// Elements that are remembered are those of the image's own capture, and no
/// other capture changes with them.
pub proof fn perception_changes_one_capture(
    s: Seq<CaptureModel>,
    c: CaptureModel,
    path: std::result::Result<Seq<char>, Seq<char>>,
    file: std::result::Result<u64, Seq<char>>,
    seen: Seq<Seen>,
)
    ensures
        ({
            let after = kept(s, c, path, file, seen);
            &&& after.1.len() == s.len()
            &&& after.0 != Ok::<Perception, Seq<char>>(Perception::Recorded) ==> after.1 == s
            &&& forall|i: int|
                0 <= i < s.len() && s[i].capture_id != c.capture_id ==> #[trigger] after.1[i]
                    == s[i]
        }),
{
    capture_context::place_fits(s, c.capture_id);
}

/// Elements that were seen on the capture that is remembered under its id are
/// all recorded but those off the image: no other reason refuses them.
pub proof fn perception_of_current_capture_succeeds(c: CaptureModel, seen: Seq<Seen>)
    ensures
        capture_context::placed(c, placeable(c, seen)) is Ok,
{
    placeable_are_placed(c, seen);
}

/// The points of the desktop under the middles of elements, where a capture is
/// known and the middle lies on it.
pub open spec fn centers(capture: Option<CaptureModel>, seen: Seq<Seen>) -> Seq<
    Option<(int, int)>,
> {
    Seq::new(
        seen.len(),
        |i: int|
            match capture {
                None => None,
                Some(c) => match c.point(seen[i].x as int, seen[i].y as int) {
                    Ok(p) => Some(p),
                    Err(_) => None,
                },
            },
    )
}

impl DesktopClient {
    /// The templates to search for, in turn, and a search that has not begun.
    pub fn find_image(&self, template_path: &str, region_x: i32, region_y: i32) -> (r: (
        Vec<String>,
        ImageSearch,
    ))
        ensures
            model::seq_view(r.0@) == find::words_model(template_path@),
            r.1.wf(),
            r.1.region_x == region_x,
            r.1.region_y == region_y,
            r.1.attempts@.len() == 0,
    {
        (search_words(template_path), ImageSearch::begin(region_x, region_y))
    }

    /// Brings a window to the front. Captures are kept: no input is sent.
    pub fn window_activate(&self) -> (r: Activation)
        ensures
            r == Activation::Look,
    {
        Activation::Look
    }

    /// How text is sent to a window. What was captured is spent. On Windows the
    /// text is typed even where it is empty, and the enter key follows sooner.
    pub fn input_send(&mut self, words: &str, press_enter: bool, windows: bool) -> (r: InputPlan)
        ensures
            final(self).captures@ == capture_context::all_spent(old(self).captures@),
            r == (InputPlan {
                types: windows || words@.len() > 0,
                enter_after_ms: if !press_enter {
                    None
                } else if windows {
                    Some(20u64)
                } else {
                    Some(50u64)
                },
            }),
    {
        self.captures.invalidate();
        let pause: u64 = if windows {
            20
        } else {
            50
        };
        InputPlan {
            types: windows || !words.is_empty(),
            enter_after_ms: if press_enter {
                Some(pause)
            } else {
                None
            },
        }
    }

    /// Searches for words, given the characters and the widths of the templates
    /// in the dictionary and the places at which those that were searched for
    /// were seen. Where no template can be searched for, nothing is found and
    /// nothing is said of it.
    pub fn find_text(
        &self,
        words: &str,
        chars: &Vec<String>,
        widths: &Vec<u32>,
        hits: &Vec<Hit>,
        region_x: i32,
        region_y: i32,
    ) -> (r: TextReport)
        ensures
            ({
                let ws = find::words_model(words@);
                if find::wanted_places(model::seq_view(chars@), ws).len() == 0 {
                    &&& !r.found
                    &&& r.text@ == Seq::<char>::empty()
                    &&& r.matches@.len() == 0
                    &&& r.fallback_hint is None
                } else {
                    exists|line: Seq<HitModel>| #[trigger]
                        find::is_line(model::seq_view(hits@), line) && find::reports(
                            r,
                            line,
                            ws,
                            widths@,
                            region_x,
                            region_y,
                        )
                }
            }),
    {
        let list = search_words(words);
        let searched = templates_to_search(chars, &list);
        if searched.len() == 0 {
            return TextReport {
                found: false,
                text: String::new(),
                matches: Vec::new(),
                fallback_hint: None,
            };
        }
        let line = line_of(hits);
        search_line(&line, &list, widths, region_x, region_y)
    }
}

/// The points of the desktop under the middles of elements.
pub fn screen_centers(capture: &Option<CaptureContext>, seen: &Vec<Seen>) -> (r: Vec<
    Option<(i32, i32)>,
>)
    ensures
        r@.len() == seen@.len(),
        forall|i: int|
            0 <= i < r@.len() ==> match #[trigger] r@[i] {
                Some(p) => centers(model::opt_view(*capture), seen@)[i] == Some(
                    (p.0 as int, p.1 as int),
                ),
                None => centers(model::opt_view(*capture), seen@)[i] is None,
            },
{
    let mut out: Vec<Option<(i32, i32)>> = Vec::new();
    let mut i: usize = 0;
    while i < seen.len()
        invariant
            i <= seen@.len(),
            out@.len() == i,
            forall|k: int|
                0 <= k < i ==> match #[trigger] out@[k] {
                    Some(p) => centers(model::opt_view(*capture), seen@)[k] == Some(
                        (p.0 as int, p.1 as int),
                    ),
                    None => centers(model::opt_view(*capture), seen@)[k] is None,
                },
        decreases seen@.len() - i,
    {
        let point: Option<(i32, i32)> = match capture {
            None => None,
            Some(c) => match c.screen_point(seen[i].x, seen[i].y) {
                Ok(p) => Some(p),
                Err(_) => None,
            },
        };
        out.push(point);
        i = i + 1;
    }
    out
}

/// A part of the screen.
#[derive(Debug, Clone, Copy, PartialEq, Eq, Structural)]
pub struct Region {
    pub x: i32,
    pub y: i32,
    pub width: u32,
    pub height: u32,
}

/// A part of the screen as it was asked for, with a size for what was left
/// out. Numbers that do not fit lose their upper bits.
pub fn region_of(
    x: Option<i64>,
    y: Option<i64>,
    width: Option<u64>,
    height: Option<u64>,
    default_width: u64,
    default_height: u64,
) -> (r: Region)
    ensures
        r.x == x.unwrap_or(0) as i32,
        r.y == y.unwrap_or(0) as i32,
        r.width == width.unwrap_or(default_width) as u32,
        r.height == height.unwrap_or(default_height) as u32,
{
    let x: i64 = match x {
        Some(n) => n,
        None => 0,
    };
    let y: i64 = match y {
        Some(n) => n,
        None => 0,
    };
    let width: u64 = match width {
        Some(n) => n,
        None => default_width,
    };
    let height: u64 = match height {
        Some(n) => n,
        None => default_height,
    };
    Region {
        x: #[verifier::truncate] (x as i32),
        y: #[verifier::truncate] (y as i32),
        width: #[verifier::truncate] (width as u32),
        height: #[verifier::truncate] (height as u32),
    }
}

/// A part of the screen as it is asked for.
#[derive(Debug, Clone, Copy, PartialEq, Eq, Structural)]
pub struct AskedRegion {
    pub x: Option<i64>,
    pub y: Option<i64>,
    pub width: Option<u64>,
    pub height: Option<u64>,
}

/// The part of the screen that is searched: zero for what was left out, and
/// for all of it where no part was asked for.
pub open spec fn searched_region(asked: Option<AskedRegion>) -> Region {
    match asked {
        Some(a) => Region {
            x: a.x.unwrap_or(0) as i32,
            y: a.y.unwrap_or(0) as i32,
            width: a.width.unwrap_or(0) as u32,
            height: a.height.unwrap_or(0) as u32,
        },
        None => Region { x: 0, y: 0, width: 0, height: 0 },
    }
}

/// The part of the screen that is searched.
pub fn search_region(asked: Option<AskedRegion>) -> (r: Region)
    ensures
        r == searched_region(asked),
{
    match asked {
        Some(a) => region_of(a.x, a.y, a.width, a.height, 0, 0),
        None => Region { x: 0, y: 0, width: 0, height: 0 },
    }
}

/// How a capture is searched for a color.
#[derive(Debug, Clone, PartialEq, Eq)]
pub struct ColorSearch {
    pub region: Region,
    /// From which corner the search goes.
    pub direction: String,
}

/// The corner from which a search goes: the upper left one, unless another is
/// asked for.
pub open spec fn search_corner(direction: Option<Seq<char>>) -> Seq<char> {
    match direction {
        Some(d) => d,
        None => "left_top"@,
    }
}

impl DesktopClient {
    /// How a capture of the screen is searched for a color.
    pub fn find_color(&self, asked: Option<AskedRegion>, direction: Option<&str>) -> (r: ColorSearch)
        ensures
            r.region == searched_region(asked),
            r.direction@ == search_corner(text::opt_str(direction)),
    {
        ColorSearch {
            region: search_region(asked),
            direction: match direction {
                Some(d) => owned(d),
                None => owned("left_top"),
            },
        }
    }

    /// How a capture of the screen is searched for a pattern of colors.
    pub fn find_multi_color(&self, asked: Option<AskedRegion>, direction: Option<&str>) -> (r:
        ColorSearch)
        ensures
            r.region == searched_region(asked),
            r.direction@ == search_corner(text::opt_str(direction)),
    {
        self.find_color(asked, direction)
    }
}

/// A window of a list.
#[derive(Debug, Clone, PartialEq, Eq)]
pub struct ListedWindow {
    pub title: Option<String>,
    pub hwnd: Option<i64>,
}

/// How a title is looked up.
pub enum TitleLookup<'a> {
    /// By the system: the handle, or none where what was found is no window.
    Native(Option<i64>),
    /// In a list of windows.
    Listed(&'a Vec<ListedWindow>),
    /// Not at all.
    Unsupported,
}

/// Which window is captured.
#[derive(Debug, Clone, Copy, PartialEq, Eq)]
pub enum WindowChoice {
    Handle(i64),
    /// None, and why.
    Refused(&'static str),
    /// None: the list holds no handle.
    Invalid,
}

/// The positions of the windows with a title.
pub open spec fn titled(windows: Seq<ListedWindow>, title: Seq<char>) -> Seq<int>
    decreases windows.len(),
{
    if windows.len() == 0 {
        Seq::empty()
    } else {
        let before = titled(windows.drop_last(), title);
        if model::opt_view(windows.last().title) == Some(title) {
            before.push(windows.len() - 1)
        } else {
            before
        }
    }
}

/// Which window is captured.
#[verifier::ext_equal]
pub enum ChoiceModel {
    Handle(i64),
    Refused(Seq<char>),
    Invalid,
}

impl View for WindowChoice {
    type V = ChoiceModel;

    open spec fn view(&self) -> ChoiceModel {
        match self {
            WindowChoice::Handle(h) => ChoiceModel::Handle(*h),
            WindowChoice::Refused(s) => ChoiceModel::Refused(s@),
            WindowChoice::Invalid => ChoiceModel::Invalid,
        }
    }
}

/// Which window is captured: the one of the handle, else the only one with the
/// title.
pub open spec fn choice(
    hwnd: Option<i32>,
    title: Option<Seq<char>>,
    lookup: TitleLookup<'_>,
) -> ChoiceModel {
    match (hwnd, title) {
        (Some(h), _) => ChoiceModel::Handle(h as i64),
        (None, None) => ChoiceModel::Refused("hwnd or title required"@),
        (None, Some(t)) => match lookup {
            TitleLookup::Native(Some(h)) => ChoiceModel::Handle(h),
            TitleLookup::Native(None) => ChoiceModel::Refused("target is not a window"@),
            TitleLookup::Unsupported => ChoiceModel::Refused(
                "按标题查找窗口仅支持 Windows，请传入 hwnd"@,
            ),
            TitleLookup::Listed(windows) => {
                let found = titled(windows@, t);
                if found.len() != 1 {
                    ChoiceModel::Refused("窗口标题不唯一或不存在，请刷新列表并使用 hwnd"@)
                } else {
                    match windows@[found[0]].hwnd {
                        Some(h) => ChoiceModel::Handle(h),
                        None => ChoiceModel::Invalid,
                    }
                }
            },
        },
    }
}

/// The position of the only window with a title.
fn only_titled(windows: &Vec<ListedWindow>, title: &str) -> (r: Option<usize>)
    ensures
        match r {
            Some(i) => titled(windows@, title@) == seq![i as int] && i < windows@.len(),
            None => titled(windows@, title@).len() != 1,
        },
{
    let mut found: Vec<usize> = Vec::new();
    let mut i: usize = 0;
    while i < windows.len()
        invariant
            i <= windows@.len(),
            found@.len() == titled(windows@.take(i as int), title@).len(),
            forall|k: int|
                0 <= k < found@.len() ==> #[trigger] found@[k] == titled(
                    windows@.take(i as int),
                    title@,
                )[k],
            forall|k: int| 0 <= k < found@.len() ==> #[trigger] found@[k] < i,
        decreases windows@.len() - i,
    {
        proof {
            assert(windows@.take(i + 1).drop_last() == windows@.take(i as int));
            assert(windows@.take(i + 1).last() == windows@[i as int]);
        }
        let fits = match &windows[i].title {
            Some(t) => same_text(t.as_str(), title),
            None => false,
        };
        if fits {
            found.push(i);
        }
        i = i + 1;
    }
    assert(windows@.take(windows@.len() as int) == windows@);
    if found.len() == 1 {
        assert(titled(windows@, title@) =~= seq![found@[0] as int]);
        Some(found[0])
    } else {
        None
    }
}

/// Chooses the window that is captured.
pub fn choose_window_handle(hwnd: Option<i32>, title: Option<&str>, lookup: TitleLookup<'_>) -> (r:
    WindowChoice)
    ensures
        r@ == choice(hwnd, text::opt_str(title), lookup),
{
    match hwnd {
        Some(h) => {
            return WindowChoice::Handle(h as i64);
        },
        None => {},
    }
    let title = match title {
        Some(t) => t,
        None => {
            return WindowChoice::Refused("hwnd or title required");
        },
    };
    match lookup {
        TitleLookup::Native(Some(h)) => WindowChoice::Handle(h),
        TitleLookup::Native(None) => WindowChoice::Refused("target is not a window"),
        TitleLookup::Unsupported => WindowChoice::Refused(
            "按标题查找窗口仅支持 Windows，请传入 hwnd",
        ),
        TitleLookup::Listed(windows) => match only_titled(windows, title) {
            None => WindowChoice::Refused("窗口标题不唯一或不存在，请刷新列表并使用 hwnd"),
            Some(i) => match windows[i].hwnd {
                Some(h) => WindowChoice::Handle(h),
                None => WindowChoice::Invalid,
            },
        },
    }
}

/// What a capture shows: a part of the screen, or the main screen.
pub fn capture_scope(region: bool) -> (r: &'static str)
    ensures
        r@ == if region {
            "region"@
        } else {
            "primary_display"@
        },
{
    if region {
        "region"
    } else {
        "primary_display"
    }
}

/// How text is sent to a window.
#[derive(Debug, Clone, Copy, PartialEq, Eq, Structural)]
pub struct InputPlan {
    /// Whether the text is typed.
    pub types: bool,
    /// After how many milliseconds the enter key is pressed.
    pub enter_after_ms: Option<u64>,
}

/// The window in front, and a note where it is not known.
pub fn foreground_hwnd(found: Option<i64>) -> (r: (i64, Option<&'static str>))
    ensures
        match found {
            Some(h) => r.0 == h && r.1 is None,
            None => r.0 == 0 && text::opt_str(r.1) == Some(
                "Linux 前台窗口查询未成功，已返回 0 降级。如使用 Wayland 桌面环境，窗口管理功能不可用，请切换到 X11 会话。"@,
            ),
        },
{
    match found {
        Some(h) => (h, None),
        None => (
            0,
            Some(
                "Linux 前台窗口查询未成功，已返回 0 降级。如使用 Wayland 桌面环境，窗口管理功能不可用，请切换到 X11 会话。",
            ),
        ),
    }
}

/// The next piece of work to bring a window to the front.
#[derive(Debug, Clone, Copy, PartialEq, Eq, Structural)]
pub enum Activation {
    /// See whether the window is minimized.
    Look,
    /// Restore it.
    Restore,
    /// Ask for it to come to the front, a second time where `again`.
    Front { again: bool },
    /// See whether it is in front.
    Check,
    /// Put it above the others.
    Raise,
    /// See whether it stayed in front.
    Settle,
    /// Whether it is in front.
    Over(bool),
}

/// What came of it.
#[derive(Debug, Clone, Copy, PartialEq, Eq, Structural)]
pub enum ActivationEvent {
    Minimized(bool),
    Done,
    Foreground(bool),
}

/// The next piece of work after an event. An event that the work does not give
/// changes nothing.
pub open spec fn activated(a: Activation, e: ActivationEvent) -> Activation {
    match (a, e) {
        (Activation::Look, ActivationEvent::Minimized(yes)) => if yes {
            Activation::Restore
        } else {
            Activation::Front { again: false }
        },
        (Activation::Restore, ActivationEvent::Done) => Activation::Front { again: false },
        (Activation::Front { again }, ActivationEvent::Done) => if again {
            Activation::Settle
        } else {
            Activation::Check
        },
        (Activation::Check, ActivationEvent::Foreground(yes)) => if yes {
            Activation::Settle
        } else {
            Activation::Raise
        },
        (Activation::Raise, ActivationEvent::Done) => Activation::Front { again: true },
        (Activation::Settle, ActivationEvent::Foreground(yes)) => Activation::Over(yes),
        _ => a,
    }
}

impl Activation {
    /// Goes on after something happened.
    pub fn advance(self, event: ActivationEvent) -> (r: Self)
        ensures
            r == activated(self, event),
    {
        match (self, event) {
            (Activation::Look, ActivationEvent::Minimized(yes)) => if yes {
                Activation::Restore
            } else {
                Activation::Front { again: false }
            },
            (Activation::Restore, ActivationEvent::Done) => Activation::Front { again: false },
            (Activation::Front { again }, ActivationEvent::Done) => if again {
                Activation::Settle
            } else {
                Activation::Check
            },
            (Activation::Check, ActivationEvent::Foreground(yes)) => if yes {
                Activation::Settle
            } else {
                Activation::Raise
            },
            (Activation::Raise, ActivationEvent::Done) => Activation::Front { again: true },
            (Activation::Settle, ActivationEvent::Foreground(yes)) => Activation::Over(yes),
            _ => self,
        }
    }

    /// How many milliseconds pass with the work: after a window is restored,
    /// and before the last look.
    pub fn pause_ms(self) -> (r: u64)
        ensures
            r == match self {
                Activation::Restore => 400u64,
                Activation::Settle => 200u64,
                _ => 0u64,
            },
    {
        match self {
            Activation::Restore => 400,
            Activation::Settle => 200,
            _ => 0,
        }
    }
}

/// How much work is left at most.
pub open spec fn activation_left(a: Activation) -> nat {
    match a {
        Activation::Look => 7,
        Activation::Restore => 6,
        Activation::Front { again: false } => 5,
        Activation::Check => 4,
        Activation::Raise => 3,
        Activation::Front { again: true } => 2,
        Activation::Settle => 1,
        Activation::Over(_) => 0,
    }
}

/// Bringing a window to the front ends: an event leaves less work, or it is one
/// that the work does not give.
pub proof fn activation_is_bounded(a: Activation, e: ActivationEvent)
    ensures
        activated(a, e) == a || activation_left(activated(a, e)) < activation_left(a),
{
}

/// A window is said to be in front only where the last look found it there.
pub proof fn activation_is_confirmed(a: Activation, e: ActivationEvent)
    requires
        a !is Over,
        activated(a, e) is Over,
    ensures
        e is Foreground,
        activated(a, e) == Activation::Over(e->Foreground_0),
{
}

/// Checks that a window did not change while it was captured.
pub fn check_unchanged(before: &WindowSnapshot, after: &WindowSnapshot) -> (r: std::result::Result<
    (),
    &'static str,
>)
    ensures
        match r {
            Ok(_) => before@ == after@,
            Err(words) => before@ != after@ && words@ == "窗口在截图期间发生变化，请重新截图"@,
        },
{
    if before.same(after) {
        Ok(())
    } else {
        Err("窗口在截图期间发生变化，请重新截图")
    }
}

/// What a capture is taken for.
#[derive(Debug, Clone, Copy, PartialEq, Eq, Structural)]
pub enum CapturePurpose {
    Screen,
    Window(i64),
    Color,
    MultiColor,
    Text,
}

impl CapturePurpose {
    /// What the name of the file begins with.
    pub open spec fn prefix(self) -> Seq<char> {
        match self {
            CapturePurpose::Screen => "screen_"@,
            CapturePurpose::Window(h) => "window_"@ + text::signed_text(h as int) + "_"@,
            CapturePurpose::Color => "find_color_"@,
            CapturePurpose::MultiColor => "find_multi_color_"@,
            CapturePurpose::Text => "find_text_"@,
        }
    }
}

/// The name of a capture's file.
pub fn capture_name(purpose: CapturePurpose, timestamp: &str) -> (r: String)
    ensures
        r@ == purpose.prefix() + timestamp@ + ".bmp"@,
{
    let mut out = match purpose {
        CapturePurpose::Screen => owned("screen_"),
        CapturePurpose::Window(h) => {
            let mut name = owned("window_");
            name.append(signed_decimal(h).as_str());
            name.append("_");
            name
        },
        CapturePurpose::Color => owned("find_color_"),
        CapturePurpose::MultiColor => owned("find_multi_color_"),
        CapturePurpose::Text => owned("find_text_"),
    };
    out.append(timestamp);
    out.append(".bmp");
    out
}

/// The last place of a full stop in a text, or a negative number.
pub open spec fn last_stop(s: Seq<char>) -> int
    decreases s.len(),
{
    if s.len() == 0 {
        -1
    } else if s.last() == '.' {
        s.len() - 1
    } else {
        last_stop(s.drop_last())
    }
}

/// A file's name without its extension: up to the last full stop, unless there
/// is none or the name begins with it.
pub open spec fn stem(name: Seq<char>) -> Seq<char> {
    if last_stop(name) <= 0 {
        name
    } else {
        name.take(last_stop(name))
    }
}

/// The name of the file that a capture is saved under. A name that is asked for
/// gets the extension of the format whatever extension it has.
pub fn saved_name(asked: Option<&str>, purpose: CapturePurpose, timestamp: &str) -> (r: String)
    ensures
        r@ == match asked {
            Some(name) => stem(name@) + ".bmp"@,
            None => purpose.prefix() + timestamp@ + ".bmp"@,
        },
{
    match asked {
        None => capture_name(purpose, timestamp),
        Some(name) => {
            let chars = chars_of(name);
            let mut n: usize = chars.len();
            assert(chars@.take(n as int) == chars@);
            while n > 0 && chars[n - 1] != '.'
                invariant
                    n <= chars@.len(),
                    last_stop(chars@) == last_stop(chars@.take(n as int)),
                decreases n,
            {
                proof {
                    assert(chars@.take(n as int).drop_last() == chars@.take(n - 1));
                    assert(chars@.take(n as int).last() == chars@[n - 1]);
                }
                n = n - 1;
            }
            proof {
                if n > 0 {
                    assert(chars@.take(n as int).last() == chars@[n - 1]);
                }
            }
            let mut out = if n <= 1 {
                owned(name)
            } else {
                span(&chars, 0, n - 1)
            };
            assert(n > 1 ==> chars@.subrange(0, n - 1) == chars@.take(n - 1));
            out.append(".bmp");
            out
        },
    }
}

/// The last full stop stands in the text.
proof fn last_stop_fits(s: Seq<char>)
    ensures
        -1 <= last_stop(s) < s.len(),
    decreases s.len(),
{
    if s.len() > 0 {
        last_stop_fits(s.drop_last());
    }
}

/// A name under which a capture was saved, asked for again, is kept as it is.
pub proof fn saved_name_is_kept(name: Seq<char>)
    requires
        name.len() > 0,
    ensures
        stem(stem(name) + ".bmp"@) + ".bmp"@ == stem(name) + ".bmp"@,
{
    reveal_strlit(".bmp");
    last_stop_fits(name);
    let whole = stem(name) + ".bmp"@;
    let n = stem(name).len();
    let ends = whole.drop_last();
    reveal_with_fuel(last_stop, 4);
    assert(whole.last() == 'p' && ends.last() == 'm' && ends.drop_last().last() == 'b'
        && ends.drop_last().drop_last().last() == '.');
    assert(last_stop(whole) == n);
    assert(whole.take(n as int) =~= stem(name));
}

/// The title of a window in a list: its first sixty characters.
pub fn listed_title(title: &str) -> (r: String)
    ensures
        r@ == text::clipped(title@, 60),
{
    take_chars(title, 60)
}

/// The width and the height of a rectangle that is given by its edges.
pub fn extent(left: i32, top: i32, right: i32, bottom: i32) -> (r: (i32, i32))
    requires
        i32::MIN <= right - left <= i32::MAX,
        i32::MIN <= bottom - top <= i32::MAX,
    ensures
        r.0 == right - left,
        r.1 == bottom - top,
{
    (right - left, bottom - top)
}

/// The engines that read text.
#[derive(Debug, Clone, Copy, PartialEq, Eq, Structural)]
pub enum OcrEngine {
    Vision,
    Paddle,
}

/// The engine of a name, and how many seconds it gets: the remote model where
/// it is named, the local engine otherwise.
pub fn ocr_engine(name: &str) -> (r: (OcrEngine, u64))
    ensures
        r == if name@ == "vision"@ {
            (OcrEngine::Vision, 120u64)
        } else {
            (OcrEngine::Paddle, 30u64)
        },
{
    if same_text(name, "vision") {
        (OcrEngine::Vision, 120)
    } else {
        (OcrEngine::Paddle, 30)
    }
}

/// The text of blocks, one a line.
pub fn ocr_text(blocks: &Vec<String>) -> (r: String)
    ensures
        r@ == text::joined(model::seq_view(blocks@), "\n"@),
{
    join(blocks, "\n")
}

/// What is said of an engine that did not answer in its time.
pub fn ocr_timeout(engine: OcrEngine) -> (r: &'static str)
    ensures
        r@ == match engine {
            OcrEngine::Vision => "视觉模型超时（120秒）"@,
            OcrEngine::Paddle => "OCR 超时（30秒）"@,
        },
{
    match engine {
        OcrEngine::Vision => "视觉模型超时（120秒）",
        OcrEngine::Paddle => "OCR 超时（30秒）",
    }
}

/// What an engine's failure is called.
pub fn ocr_failure(engine: OcrEngine, error: &str) -> (r: String)
    ensures
        r@ == match engine {
            OcrEngine::Vision => "视觉模型调用失败: "@ + error@,
            OcrEngine::Paddle => error@,
        },
{
    match engine {
        OcrEngine::Vision => {
            let mut out = owned("视觉模型调用失败: ");
            out.append(error);
            out
        },
        OcrEngine::Paddle => owned(error),
    }
}

/// What a process says of its window; `titled` is whether the window has a
/// title.
pub open spec fn by_process(process: Seq<char>, titled: bool) -> Option<Seq<char>> {
    if process == "explorer.exe"@ {
        if titled {
            Some("folder"@)
        } else {
            Some("desktop"@)
        }
    } else if process == "code.exe"@ || process == "code-oss.exe"@ || process == "devenv.exe"@ || process == "devenv"@ {
        Some("ide"@)
    } else if process == "chrome.exe"@ || process == "msedge.exe"@ || process == "firefox.exe"@ || process == "opera.exe"@ || process == "brave.exe"@ {
        Some("browser"@)
    } else if process == "wechat.exe"@ || process == "wechatdevtools.exe"@ || process == "slack.exe"@ || process == "discord.exe"@ {
        Some("messenger"@)
    } else if process == "outlook.exe"@ || process == "winmail.exe"@ {
        Some("email"@)
    } else if process == "taskmgr.exe"@ {
        Some("system_tool"@)
    } else if process == "wt.exe"@ || process == "windowsterminal.exe"@ || process == "powershell.exe"@ || process == "cmd.exe"@ || process == "pwsh.exe"@ || process == "windows-terminal.exe"@ {
        Some("terminal"@)
    } else {
        None
    }
}

/// What a class says of its window.
pub open spec fn by_class(class: Seq<char>) -> Option<Seq<char>> {
    if class == "ConsoleWindowClass"@ {
        Some("terminal"@)
    } else if class == "#32770"@ {
        Some("dialog"@)
    } else if class == "Chrome_WidgetWin_1"@ || class == "Chrome_WidgetWin_2"@ || class == "CefBrowserWindow"@ {
        Some("browser"@)
    } else if class == "Qt5QWindowIcon"@ || class == "Qt6QWindowIcon"@ {
        Some("native_app"@)
    } else if class == "Windows.UI.Core.CoreWindow"@ {
        Some("modern_app"@)
    } else if class == "CabinetWClass"@ {
        Some("folder"@)
    } else if text::begins(class, "HwndWrapper"@) {
        Some("native_app"@)
    } else {
        None
    }
}

/// What a title in lower case says of its window.
pub open spec fn by_title(title: Seq<char>) -> Seq<char> {
    if text::has_part(title, " - visual studio code"@)
        || text::has_part(title, " — visual studio code"@)
        || text::has_part(title, " - vs code"@)
    {
        "ide"@
    } else if text::has_part(title, " - powershell"@) || text::has_part(title, "命令提示符"@) {
        "terminal"@
    } else {
        "generic"@
    }
}

/// The kind of a window: by its process, else by its class, else by its title.
pub open spec fn window_kind(process: Seq<char>, class: Seq<char>, title: Seq<char>) -> Seq<char> {
    match by_process(text::lowercased(process), title.len() > 0) {
        Some(kind) => kind,
        None => match by_class(class) {
            Some(kind) => kind,
            None => by_title(text::lowercased(title)),
        },
    }
}

/// The kind of a window.
pub fn classify_window(process_name: &str, class_name: &str, title: &str) -> (r: &'static str)
    ensures
        r@ == window_kind(process_name@, class_name@, title@),
{
    let lowered = lowercase(process_name);
    let process = lowered.as_str();
    if same_text(process, "explorer.exe") {
        if title.is_empty() {
            return "desktop";
        }
        return "folder";
    }
    if same_text(process, "code.exe")
        || same_text(process, "code-oss.exe")
        || same_text(process, "devenv.exe")
        || same_text(process, "devenv")
    {
        return "ide";
    }
    if same_text(process, "chrome.exe")
        || same_text(process, "msedge.exe")
        || same_text(process, "firefox.exe")
        || same_text(process, "opera.exe")
        || same_text(process, "brave.exe")
    {
        return "browser";
    }
    if same_text(process, "wechat.exe")
        || same_text(process, "wechatdevtools.exe")
        || same_text(process, "slack.exe")
        || same_text(process, "discord.exe")
    {
        return "messenger";
    }
    if same_text(process, "outlook.exe") || same_text(process, "winmail.exe") {
        return "email";
    }
    if same_text(process, "taskmgr.exe") {
        return "system_tool";
    }
    if same_text(process, "wt.exe")
        || same_text(process, "windowsterminal.exe")
        || same_text(process, "powershell.exe")
        || same_text(process, "cmd.exe")
        || same_text(process, "pwsh.exe")
        || same_text(process, "windows-terminal.exe")
    {
        return "terminal";
    }
    if same_text(class_name, "ConsoleWindowClass") {
        return "terminal";
    }
    if same_text(class_name, "#32770") {
        return "dialog";
    }
    if same_text(class_name, "Chrome_WidgetWin_1")
        || same_text(class_name, "Chrome_WidgetWin_2")
        || same_text(class_name, "CefBrowserWindow")
    {
        return "browser";
    }
    if same_text(class_name, "Qt5QWindowIcon") || same_text(class_name, "Qt6QWindowIcon") {
        return "native_app";
    }
    if same_text(class_name, "Windows.UI.Core.CoreWindow") {
        return "modern_app";
    }
    if same_text(class_name, "CabinetWClass") {
        return "folder";
    }
    if starts_with(class_name, "HwndWrapper") {
        return "native_app";
    }
    let low_title = lowercase(title);
    if contains_text(low_title.as_str(), " - visual studio code")
        || contains_text(low_title.as_str(), " — visual studio code")
        || contains_text(low_title.as_str(), " - vs code")
    {
        return "ide";
    }
    if contains_text(low_title.as_str(), " - powershell")
        || contains_text(low_title.as_str(), "命令提示符")
    {
        return "terminal";
    }
    "generic"
}

/// The folders from which the places of the models are told.
#[derive(Debug, Clone)]
pub struct ModelSources {
    /// The folder that the environment names.
    pub env: Option<String>,
    /// The folder of the user's data.
    pub data: Option<String>,
    /// The folder of the program, and those above it.
    pub exe: Vec<String>,
    /// The folder above the current one.
    pub cwd_parent: Option<String>,
    /// The current folder.
    pub cwd: Option<String>,
    /// The folder of the sources.
    pub dev: String,
}

/// A place, unless the folder that it is told from is unknown.
pub open spec fn only(o: Option<PlaceModel>) -> Seq<PlaceModel> {
    match o {
        Some(p) => seq![p],
        None => Seq::empty(),
    }
}

/// The models beside a program.
pub open spec fn beside(folder: Seq<char>) -> PlaceModel {
    profile::below(profile::below(profile::whole(folder), "desktop"@), "models"@)
}

/// The models in a checkout in this folder.
pub open spec fn checked_out(folder: Seq<char>) -> PlaceModel {
    profile::below(
        profile::below(profile::below(profile::whole(folder), "src-tauri"@), "desktop"@),
        "models"@,
    )
}

/// The models in a checkout beside this folder.
pub open spec fn checked_out_beside(folder: Seq<char>) -> PlaceModel {
    profile::below(profile::whole(folder), "../src-tauri/desktop/models"@)
}

/// The models in and beside a folder, where it is known.
pub open spec fn near(folder: Option<Seq<char>>) -> Seq<PlaceModel> {
    match folder {
        Some(f) => seq![checked_out(f), checked_out_beside(f)],
        None => Seq::empty(),
    }
}

impl ModelSources {
    /// The places of the models in the order in which they are looked at: where
    /// the environment says; with the user's data; beside the program or at
    /// most two folders above it; in and beside the folder above the current
    /// one and the current one; beside the sources.
    pub open spec fn order(self) -> Seq<PlaceModel> {
        let exe = model::seq_view(self.exe@);
        only(
            match self.env {
                Some(p) => Some(profile::whole(p@)),
                None => None,
            },
        ) + only(
            match self.data {
                Some(p) => Some(
                    profile::below(profile::below(profile::whole(p@), "Nuphus"@), "models"@),
                ),
                None => None,
            },
        ) + Seq::new(
            if exe.len() < 3 {
                exe.len()
            } else {
                3
            },
            |i: int| beside(exe[i]),
        ) + near(
            match self.cwd {
                Some(_) => model::opt_view(self.cwd_parent),
                None => None,
            },
        ) + near(model::opt_view(self.cwd)) + seq![checked_out_beside(self.dev@)]
    }
}

/// Adds a place to a list.
fn add_place(list: &mut Vec<Place>, place: Place)
    ensures
        model::seq_view(final(list)@) == model::seq_view(old(list)@).push(place@),
{
    let ghost before = list@;
    list.push(place);
    assert(model::seq_view(list@) =~= model::seq_view(before).push(place@));
}

/// Adds the models in and beside a folder to a list.
fn add_near(list: &mut Vec<Place>, folder: &str)
    ensures
        model::seq_view(final(list)@) == model::seq_view(old(list)@) + near(Some(folder@)),
{
    let ghost before = model::seq_view(list@);
    add_place(list, Place::whole(owned(folder)).join("src-tauri").join("desktop").join("models"));
    add_place(list, Place::whole(owned(folder)).join("../src-tauri/desktop/models"));
    assert(model::seq_view(list@) =~= before + near(Some(folder@)));
}

/// The places of the models in the order in which they are looked at.
pub fn model_folders(sources: &ModelSources) -> (r: Vec<Place>)
    ensures
        model::seq_view(r@) == sources.order(),
{
    let mut out: Vec<Place> = Vec::new();
    assert(model::seq_view(out@) =~= Seq::<PlaceModel>::empty());
    match &sources.env {
        Some(p) => {
            add_place(&mut out, Place::whole(p.clone()));
        },
        None => {},
    }
    let ghost first = model::seq_view(out@);
    assert(first =~= only(
        match sources.env {
            Some(p) => Some(profile::whole(p@)),
            None => None,
        },
    ));
    match &sources.data {
        Some(p) => {
            add_place(&mut out, Place::whole(p.clone()).join("Nuphus").join("models"));
        },
        None => {},
    }
    let ghost second = model::seq_view(out@);
    assert(second =~= first + only(
        match sources.data {
            Some(p) => Some(profile::below(profile::below(profile::whole(p@), "Nuphus"@), "models"@)),
            None => None,
        },
    ));
    let ghost exe = model::seq_view(sources.exe@);
    let mut i: usize = 0;
    assert(second =~= second + Seq::new(0, |k: int| beside(exe[k])));
    while i < sources.exe.len() && i < 3
        invariant
            exe == model::seq_view(sources.exe@),
            i <= sources.exe@.len(),
            i <= 3,
            model::seq_view(out@) == second + Seq::new(i as nat, |k: int| beside(exe[k])),
        decreases sources.exe@.len() - i,
    {
        add_place(
            &mut out,
            Place::whole(sources.exe[i].clone()).join("desktop").join("models"),
        );
        i = i + 1;
        assert(exe[i - 1] == sources.exe@[i - 1]@);
        assert(model::seq_view(out@) =~= second + Seq::new(i as nat, |k: int| beside(exe[k])));
    }
    let ghost third = model::seq_view(out@);
    match (&sources.cwd, &sources.cwd_parent) {
        (Some(_), Some(p)) => {
            add_near(&mut out, p.as_str());
        },
        _ => {},
    }
    let ghost fourth = model::seq_view(out@);
    assert(fourth =~= third + near(
        match sources.cwd {
            Some(_) => model::opt_view(sources.cwd_parent),
            None => None,
        },
    ));
    match &sources.cwd {
        Some(p) => {
            add_near(&mut out, p.as_str());
        },
        None => {},
    }
    let ghost fifth = model::seq_view(out@);
    assert(fifth =~= fourth + near(model::opt_view(sources.cwd)));
    add_place(&mut out, Place::whole(sources.dev.clone()).join("../src-tauri/desktop/models"));
    assert(model::seq_view(out@) =~= fifth + seq![checked_out_beside(sources.dev@)]);
    out
}

/// The first place that is there, where `there` says which are.
pub open spec fn first_there(places: Seq<PlaceModel>, there: Seq<bool>) -> Option<PlaceModel>
    decreases places.len(),
{
    if places.len() == 0 || there.len() == 0 {
        None
    } else if there[0] {
        Some(places[0])
    } else {
        first_there(places.drop_first(), there.drop_first())
    }
}

/// The folder that models are read from: the first that is there.
pub fn resolve_models_dir(folders: &Vec<Place>, there: &Vec<bool>) -> (r: Option<Place>)
    ensures
        model::opt_view(r) == first_there(model::seq_view(folders@), there@),
{
    let ghost s = model::seq_view(folders@);
    let mut i: usize = 0;
    assert(s.skip(0) =~= s);
    assert(there@.skip(0) =~= there@);
    while i < folders.len() && i < there.len()
        invariant
            s == model::seq_view(folders@),
            i <= folders@.len(),
            i <= there@.len(),
            first_there(s, there@) == first_there(s.skip(i as int), there@.skip(i as int)),
        decreases folders@.len() - i,
    {
        proof {
            assert(s.skip(i as int)[0] == folders@[i as int]@);
            assert(s.skip(i as int).drop_first() =~= s.skip(i + 1));
            assert(there@.skip(i as int).drop_first() =~= there@.skip(i + 1));
        }
        if there[i] {
            return Some(folders[i].copied());
        }
        i = i + 1;
    }
    None
}

/// Where captures are kept: where the environment says, unless that is empty;
/// else below the system's folder for temporary files.
pub fn captures_dir_path(given: Option<String>, temporary: String) -> (r: Place)
    ensures
        r@ == match model::opt_view(given) {
            Some(p) if p.len() > 0 => profile::whole(p),
            _ => profile::below(profile::below(profile::whole(temporary@), "nuphus"@), "captures"@),
        },
{
    match given {
        Some(p) => {
            if !p.as_str().is_empty() {
                return Place::whole(p);
            }
        },
        None => {},
    }
    Place::whole(temporary).join("nuphus").join("captures")
}

/// Where dictionaries are kept: where the environment says, else below the
/// folder that it names for data, else below the system's.
pub fn dict_dir(dicts: Option<String>, data: Option<String>, system: Option<String>) -> (r: Place)
    ensures
        r@ == match (model::opt_view(dicts), model::opt_view(data), model::opt_view(system)) {
            (Some(p), _, _) => profile::whole(p),
            (None, Some(p), _) => profile::below(profile::whole(p), "dicts"@),
            (None, None, Some(p)) => profile::below(
                profile::below(profile::whole(p), "Nuphus"@),
                "dicts"@,
            ),
            (None, None, None) => profile::below(
                profile::below(profile::whole("."@), "Nuphus"@),
                "dicts"@,
            ),
        },
{
    match dicts {
        Some(p) => Place::whole(p),
        None => match data {
            Some(p) => Place::whole(p).join("dicts"),
            None => {
                let base = match system {
                    Some(p) => p,
                    None => owned("."),
                };
                Place::whole(base).join("Nuphus").join("dicts")
            },
        },
    }
}

/// Something that the user did on the desktop.
#[derive(Debug, Clone, PartialEq, Eq)]
pub struct CaptureEvent {
    pub kind: String,
    pub button: Option<String>,
    pub x: i32,
    pub y: i32,
    pub wheel_delta: Option<i32>,
    pub keys: Vec<String>,
    pub window_title: String,
    pub hwnd: i64,
    pub pid: u32,
    pub process_name: Option<String>,
    pub ts_ms: u64,
}

/// What is recorded.
#[derive(Debug, Clone, Copy, PartialEq, Eq, Structural)]
pub enum CaptureKind {
    Click,
    Scroll,
    Hotkey,
    Any,
}

impl CaptureKind {
    /// The name of a kind.
    pub open spec fn label(self) -> Seq<char> {
        match self {
            CaptureKind::Click => "click"@,
            CaptureKind::Scroll => "scroll"@,
            CaptureKind::Hotkey => "hotkey"@,
            CaptureKind::Any => "any"@,
        }
    }

    /// The kind of a name, in whatever case it is written.
    pub open spec fn named(s: Seq<char>) -> Option<CaptureKind> {
        if text::same_ascii(s, "click"@) {
            Some(CaptureKind::Click)
        } else if text::same_ascii(s, "scroll"@) {
            Some(CaptureKind::Scroll)
        } else if text::same_ascii(s, "hotkey"@) {
            Some(CaptureKind::Hotkey)
        } else if text::same_ascii(s, "any"@) {
            Some(CaptureKind::Any)
        } else {
            None
        }
    }

    /// The kind of a name.
    pub fn from_str(s: &str) -> (r: std::result::Result<Self, String>)
        ensures
            match CaptureKind::named(s@) {
                Some(kind) => r == Ok::<CaptureKind, String>(kind),
                None => r matches Err(e) && e@ == "未知捕获类型: "@ + s@,
            },
    {
        if eq_ignore_ascii_case(s, "click") {
            Ok(CaptureKind::Click)
        } else if eq_ignore_ascii_case(s, "scroll") {
            Ok(CaptureKind::Scroll)
        } else if eq_ignore_ascii_case(s, "hotkey") {
            Ok(CaptureKind::Hotkey)
        } else if eq_ignore_ascii_case(s, "any") {
            Ok(CaptureKind::Any)
        } else {
            let mut out = owned("未知捕获类型: ");
            out.append(s);
            Err(out)
        }
    }

    /// The name of a kind.
    pub fn as_str(&self) -> (r: &'static str)
        ensures
            r@ == self.label(),
    {
        match self {
            CaptureKind::Click => "click",
            CaptureKind::Scroll => "scroll",
            CaptureKind::Hotkey => "hotkey",
            CaptureKind::Any => "any",
        }
    }
}

/// The name of a kind stands for the kind.
pub proof fn kind_name_is_read_back(kind: CaptureKind)
    ensures
        CaptureKind::named(kind.label()) == Some(kind),
{
    reveal_strlit("click");
    reveal_strlit("scroll");
    reveal_strlit("hotkey");
    reveal_strlit("any");
    match kind {
        CaptureKind::Click => {},
        CaptureKind::Scroll => {
            assert("scroll"@.len() != "click"@.len());
        },
        CaptureKind::Hotkey => {
            assert("hotkey"@.len() != "click"@.len());
            assert("hotkey"@[0] == 'h' && "scroll"@[0] == 's');
            assert(text::ascii_low('h') == 'h' && text::ascii_low('s') == 's');
        },
        CaptureKind::Any => {
            assert("any"@.len() != "click"@.len());
        },
    }
}

/// Stops a recording. Without a recorder there is nothing to stop.
pub fn rec_cancel_current() {
}

/// Records one thing that the user does. This is refused where there is no
/// recorder.
pub fn capture_once(_kind: CaptureKind, _timeout_secs: u64, _ignore_self_window: bool) -> (r:
    std::result::Result<CaptureEvent, String>)
    ensures
        r matches Err(e) && e@ == "桌面操作录制当前仅支持 Windows 平台"@,
{
    Err(owned("桌面操作录制当前仅支持 Windows 平台"))
}

/// The names of the mouse buttons.
pub proof fn buttons_are_known(name: Seq<char>)
    ensures
        button_model(name) == Some(MouseButton::Left) <==> name == "left"@,
        button_model(name) == Some(MouseButton::Right) ==> name == "right"@,
        button_model(name) == Some(MouseButton::Middle) ==> name == "middle"@,
        button_model(name) is None ==> name != "right"@ && name != "middle"@,
{
}

/// A capture may be acted on where its file and its window are what they were and
/// it is not used up.
pub proof fn click_needs_what_was_captured(
    s: Seq<CaptureModel>,
    c: CaptureModel,
    current: Option<WindowSnapshotModel>,
    file: std::result::Result<u64, Seq<char>>,
)
    ensures
        revalidated(s, c, current, file) is Ok <==> capture_context::checked(
            s,
            c.capture_id,
            file,
        ) is Ok && !c.consumed && c.target == current,
        capture_context::checked(s, c.capture_id, file) matches Err(e) ==> revalidated(
            s,
            c,
            current,
            file,
        ) == Err::<(), Seq<char>>(e),
{
}

/// What was seen counts where it lies on the image; the rest is left out, and the
/// order stays.
pub proof fn seen_on_the_image_counts(c: CaptureModel, a: Seq<Seen>, b: Seq<Seen>, e: Seen)
    ensures
        placeable(c, a + b) == placeable(c, a) + placeable(c, b),
        c.point(e.x as int, e.y as int) is Ok ==> placeable(c, seq![e]) == seq![e],
        c.point(e.x as int, e.y as int) is Err ==> placeable(c, seq![e]) == Seq::<Seen>::empty(),
    decreases b.len(),
{
    assert(seq![e].drop_last() =~= Seq::<Seen>::empty());
    assert(placeable(c, seq![e].drop_last()) =~= Seq::<Seen>::empty());
    if b.len() == 0 {
        assert(a + b =~= a);
        assert(placeable(c, a) + placeable(c, b) =~= placeable(c, a));
    } else {
        assert((a + b).last() == b.last());
        assert((a + b).drop_last() =~= a + b.drop_last());
        seen_on_the_image_counts(c, a, b.drop_last(), e);
        assert((placeable(c, a) + placeable(c, b.drop_last())).push(b.last()) =~= placeable(c, a)
            + placeable(c, b.drop_last()).push(b.last()));
    }
}

/// What was seen is kept with its capture where that is still the capture of its
/// file, and not used up; the capture then holds exactly the points of what was
/// seen on it.
pub proof fn seen_is_kept_with_its_capture(
    s: Seq<CaptureModel>,
    c: CaptureModel,
    path: std::result::Result<Seq<char>, Seq<char>>,
    file: std::result::Result<u64, Seq<char>>,
    seen: Seq<Seen>,
)
    ensures
        ({
            let now = capture_context::by_file(s, path, file);
            let after = kept(s, c, path, file, seen);
            &&& now is Err ==> after.0 is Err
            &&& now is Ok && (now->Ok_0 is None || now->Ok_0->Some_0.capture_id != c.capture_id)
                ==> after.0 == Ok::<Perception, Seq<char>>(Perception::Replaced)
            &&& after.0 == Ok::<Perception, Seq<char>>(Perception::Recorded) ==> {
                let i = capture_context::place_of(s, c.capture_id)->Some_0;
                &&& capture_context::place_of(s, c.capture_id) is Some
                &&& !s[i].consumed
                &&& capture_context::placed(s[i], placeable(c, seen)) is Ok
                &&& after.1 == s.update(
                    i,
                    CaptureModel {
                        elements: capture_context::placed(s[i], placeable(c, seen))->Ok_0,
                        ..s[i]
                    },
                )
            }
            &&& now is Ok && now->Ok_0 is Some && now->Ok_0->Some_0.capture_id == c.capture_id
                && capture_context::place_of(s, c.capture_id) is Some
                && !s[capture_context::place_of(s, c.capture_id)->Some_0].consumed
                && capture_context::placed(
                s[capture_context::place_of(s, c.capture_id)->Some_0],
                placeable(c, seen),
            ) is Ok ==> after.0 == Ok::<Perception, Seq<char>>(Perception::Recorded)
        }),
{
}

/// Each thing that was seen has a point of the desktop where a capture shows
/// where that is; without one it has none.
pub proof fn centers_are_points_of_the_desktop(c: CaptureModel, seen: Seq<Seen>, i: int)
    requires
        0 <= i < seen.len(),
    ensures
        centers(Some(c), seen).len() == seen.len(),
        centers(None, seen).len() == seen.len() && centers(None, seen)[i] is None,
        c.point(seen[i].x as int, seen[i].y as int) matches Ok(p) ==> centers(Some(c), seen)[i]
            == Some(p),
        c.point(seen[i].x as int, seen[i].y as int) is Err ==> centers(Some(c), seen)[i] is None,
{
}

/// The part of the screen that is searched is the one asked for, with nought for
/// what was left out.
pub proof fn asked_region_is_searched(a: AskedRegion)
    ensures
        searched_region(None) == (Region { x: 0, y: 0, width: 0, height: 0 }),
        a.x is None ==> searched_region(Some(a)).x == 0,
        a.y is None ==> searched_region(Some(a)).y == 0,
        a.width is None ==> searched_region(Some(a)).width == 0,
        a.height is None ==> searched_region(Some(a)).height == 0,
        a.x matches Some(n) ==> (i32::MIN <= n <= i32::MAX ==> searched_region(Some(a)).x == n),
        a.y matches Some(n) ==> (i32::MIN <= n <= i32::MAX ==> searched_region(Some(a)).y == n),
        a.width matches Some(n) ==> (n <= u32::MAX ==> searched_region(Some(a)).width == n),
        a.height matches Some(n) ==> (n <= u32::MAX ==> searched_region(Some(a)).height == n),
        search_corner(None) == "left_top"@,
{
}

/// A colour is searched from the corner that was asked for.
pub proof fn asked_corner_is_searched_from(d: Seq<char>)
    ensures
        search_corner(Some(d)) == d,
{
}

/// The windows of a title are exactly those with that title.
proof fn titled_are_right(windows: Seq<ListedWindow>, title: Seq<char>)
    ensures
        forall|k: int|
            0 <= k < titled(windows, title).len() ==> 0 <= (#[trigger] titled(windows, title)[k])
                < windows.len() && model::opt_view(
                windows[titled(windows, title)[k]].title,
            ) == Some(title),
        forall|i: int|
            0 <= i < windows.len() && model::opt_view((#[trigger] windows[i]).title) == Some(title)
                ==> titled(windows, title).contains(i),
        titled(windows, title).no_duplicates(),
    decreases windows.len(),
{
    if windows.len() > 0 {
        let short = windows.drop_last();
        titled_are_right(short, title);
        let before = titled(short, title);
        let all = titled(windows, title);
        assert forall|i: int| 0 <= i < windows.len() && model::opt_view(
            (#[trigger] windows[i]).title,
        ) == Some(title) implies all.contains(i) by {
            if i < short.len() {
                assert(short[i] == windows[i]);
                let k = choose|k: int| 0 <= k < before.len() && before[k] == i;
                assert(all[k] == i);
            } else {
                assert(all[all.len() - 1] == i);
            }
        }
        assert forall|k: int| 0 <= k < all.len() implies 0 <= (#[trigger] all[k]) < windows.len()
            && model::opt_view(windows[all[k]].title) == Some(title) by {
            if k < before.len() {
                assert(all[k] == before[k]);
                assert(short[before[k]] == windows[before[k]]);
            }
        }
    }
}

/// A window is chosen by its handle, whatever else is said; else by its title,
/// where the system finds it or just one listed window has it.
pub proof fn window_is_chosen_by_handle_or_title(
    h: i32,
    title: Seq<char>,
    other: Option<Seq<char>>,
    lookup: TitleLookup<'_>,
    i: int,
    j: int,
)
    ensures
        choice(Some(h), other, lookup) == ChoiceModel::Handle(h as i64),
        choice(None, None, lookup) is Refused,
        lookup matches TitleLookup::Native(Some(n)) ==> choice(None, Some(title), lookup)
            == ChoiceModel::Handle(n),
        lookup matches TitleLookup::Native(None) ==> choice(None, Some(title), lookup) is Refused,
        lookup is Unsupported ==> choice(None, Some(title), lookup) is Refused,
        lookup matches TitleLookup::Listed(windows) ==> {
            &&& (forall|k: int|
                0 <= k < windows@.len() ==> model::opt_view((#[trigger] windows@[k]).title)
                    != Some(title)) ==> choice(None, Some(title), lookup) is Refused
            &&& 0 <= i < j < windows@.len() && model::opt_view(windows@[i].title) == Some(title)
                && model::opt_view(windows@[j].title) == Some(title) ==> choice(
                None,
                Some(title),
                lookup,
            ) is Refused
            &&& 0 <= i < windows@.len() && model::opt_view(windows@[i].title) == Some(title) && (
            forall|k: int|
                0 <= k < windows@.len() && model::opt_view((#[trigger] windows@[k]).title) == Some(
                    title,
                ) ==> k == i) ==> (windows@[i].hwnd is Some ==> choice(None, Some(title), lookup)
                == ChoiceModel::Handle(windows@[i].hwnd->Some_0)) && (windows@[i].hwnd is None
                ==> choice(None, Some(title), lookup) is Invalid)
        },
{
    if lookup is Listed {
        let windows = lookup->Listed_0;
        let found = titled(windows@, title);
        titled_are_right(windows@, title);
        if found.len() > 0 {
            assert(model::opt_view(windows@[found[0]].title) == Some(title));
        }
        if 0 <= i < windows@.len() && model::opt_view(windows@[i].title) == Some(title) {
            assert(found.contains(i));
            let a = choose|a: int| 0 <= a < found.len() && found[a] == i;
            if 0 <= i < j < windows@.len() && model::opt_view(windows@[j].title) == Some(title) {
                assert(found.contains(j));
                let b = choose|b: int| 0 <= b < found.len() && found[b] == j;
                assert(a != b);
            }
            if (forall|k: int|
                0 <= k < windows@.len() && model::opt_view((#[trigger] windows@[k]).title) == Some(
                    title,
                ) ==> k == i) {
                assert(found[0] == i);
                if found.len() > 1 {
                    assert(model::opt_view(windows@[found[1]].title) == Some(title));
                    assert(found[1] == i);
                }
            }
        }
    }
}

/// A window is brought to the front: one that is minimized is restored first; one
/// that is not in front then is put above the others and asked once more; whether
/// it stayed in front is the result. An event out of place changes nothing.
pub proof fn window_is_brought_to_the_front(yes: bool, again: bool, e: ActivationEvent)
    ensures
        activated(Activation::Look, ActivationEvent::Minimized(true)) == Activation::Restore,
        activated(Activation::Look, ActivationEvent::Minimized(false)) == (Activation::Front {
            again: false,
        }),
        activated(Activation::Restore, ActivationEvent::Done) == (Activation::Front {
            again: false,
        }),
        activated(Activation::Front { again: false }, ActivationEvent::Done) == Activation::Check,
        activated(Activation::Front { again: true }, ActivationEvent::Done) == Activation::Settle,
        activated(Activation::Check, ActivationEvent::Foreground(true)) == Activation::Settle,
        activated(Activation::Check, ActivationEvent::Foreground(false)) == Activation::Raise,
        activated(Activation::Raise, ActivationEvent::Done) == (Activation::Front { again: true }),
        activated(Activation::Settle, ActivationEvent::Foreground(yes)) == Activation::Over(yes),
        activated(Activation::Over(yes), e) == Activation::Over(yes),
        e !is Minimized ==> activated(Activation::Look, e) == Activation::Look,
        e !is Done ==> activated(Activation::Restore, e) == Activation::Restore,
        e !is Done ==> activated(Activation::Front { again }, e) == (Activation::Front { again }),
        e !is Foreground ==> activated(Activation::Check, e) == Activation::Check,
        e !is Foreground ==> activated(Activation::Settle, e) == Activation::Settle,
{
}

/// Where the last full stop of a text stands.
proof fn last_stop_is_right(a: Seq<char>, b: Seq<char>)
    requires
        !b.contains('.'),
    ensures
        last_stop(a.push('.') + b) == a.len(),
        last_stop(b) == -1,
    decreases b.len(),
{
    let all = a.push('.') + b;
    if b.len() == 0 {
        assert(all.last() == '.');
    } else {
        assert(b.contains(b[b.len() - 1]));
        assert(all.last() == b.last());
        assert(all.drop_last() =~= a.push('.') + b.drop_last());
        assert(!b.drop_last().contains('.')) by {
            if b.drop_last().contains('.') {
                let i = choose|i: int| 0 <= i < b.drop_last().len() && b.drop_last()[i] == '.';
                assert(b[i] == '.');
            }
        }
        last_stop_is_right(a, b.drop_last());
    }
}

/// A file's name without its ending is what stands before the last full stop; a
/// name without one, or with one at its beginning alone, is kept whole.
pub proof fn ending_is_taken_off(base: Seq<char>, ending: Seq<char>)
    requires
        !ending.contains('.'),
    ensures
        base.len() > 0 ==> stem(base.push('.') + ending) == base,
        base.len() == 0 ==> stem(base.push('.') + ending) == base.push('.') + ending,
        stem(ending) == ending,
{
    last_stop_is_right(base, ending);
    if base.len() > 0 {
        assert((base.push('.') + ending).take(base.len() as int) =~= base);
    }
}

/// A capture's name begins with what it was made for.
pub proof fn captures_are_named_after_their_purpose(h: i64)
    ensures
        CapturePurpose::Screen.prefix() == "screen_"@,
        CapturePurpose::Window(h).prefix() == "window_"@ + text::signed_text(h as int) + "_"@,
        CapturePurpose::Color.prefix() == "find_color_"@,
        CapturePurpose::MultiColor.prefix() == "find_multi_color_"@,
        CapturePurpose::Text.prefix() == "find_text_"@,
{
}

/// What kind a window is: a program that is known decides, whatever the class and
/// the title say; then the class does, then the title.
pub proof fn known_programs_decide_the_kind(
    process: Seq<char>,
    class: Seq<char>,
    title: Seq<char>,
    other_class: Seq<char>,
    other_title: Seq<char>,
)
    requires
        title.len() > 0 <==> other_title.len() > 0,
    ensures
        by_process(text::lowercased(process), title.len() > 0) is Some ==> window_kind(
            process,
            class,
            title,
        ) == window_kind(process, other_class, other_title),
        by_process(text::lowercased(process), title.len() > 0) is None && by_class(class) is Some
            ==> window_kind(process, class, title) == window_kind(process, class, other_title),
        text::lowercased(process) == "explorer.exe"@ ==> window_kind(process, class, title)
            == if title.len() > 0 {
            "folder"@
        } else {
            "desktop"@
        },
        text::lowercased(process) == "chrome.exe"@ || text::lowercased(process) == "msedge.exe"@
            || text::lowercased(process) == "firefox.exe"@ || text::lowercased(process)
            == "opera.exe"@ || text::lowercased(process) == "brave.exe"@ ==> window_kind(
            process,
            class,
            title,
        ) == "browser"@,
{
    distinct_programs();
}

/// The names of the programs that show folders, edit and browse differ.
proof fn distinct_programs()
    ensures
        "chrome.exe"@ != "explorer.exe"@ && "chrome.exe"@ != "code.exe"@ && "chrome.exe"@
            != "code-oss.exe"@ && "chrome.exe"@ != "devenv.exe"@ && "chrome.exe"@ != "devenv"@,
        "msedge.exe"@ != "explorer.exe"@ && "msedge.exe"@ != "code.exe"@ && "msedge.exe"@
            != "code-oss.exe"@ && "msedge.exe"@ != "devenv.exe"@ && "msedge.exe"@ != "devenv"@,
        "firefox.exe"@ != "explorer.exe"@ && "firefox.exe"@ != "code.exe"@ && "firefox.exe"@
            != "code-oss.exe"@ && "firefox.exe"@ != "devenv.exe"@ && "firefox.exe"@ != "devenv"@,
        "opera.exe"@ != "explorer.exe"@ && "opera.exe"@ != "code.exe"@ && "opera.exe"@
            != "code-oss.exe"@ && "opera.exe"@ != "devenv.exe"@ && "opera.exe"@ != "devenv"@,
        "brave.exe"@ != "explorer.exe"@ && "brave.exe"@ != "code.exe"@ && "brave.exe"@
            != "code-oss.exe"@ && "brave.exe"@ != "devenv.exe"@ && "brave.exe"@ != "devenv"@,
{
    reveal_strlit("chrome.exe");
    reveal_strlit("msedge.exe");
    reveal_strlit("firefox.exe");
    reveal_strlit("opera.exe");
    reveal_strlit("brave.exe");
    reveal_strlit("explorer.exe");
    reveal_strlit("code.exe");
    reveal_strlit("code-oss.exe");
    reveal_strlit("devenv.exe");
    reveal_strlit("devenv");
    assert("chrome.exe"@[1] == 'h' && "devenv.exe"@[1] == 'e');
    assert("msedge.exe"@[1] == 's');
    assert("opera.exe"@.len() == 9 && "brave.exe"@.len() == 9);
    assert("firefox.exe"@.len() == 11);
}

/// A program or a class that is known tells the kind; a title that is not known
/// tells nothing.
pub proof fn programs_have_known_kinds(process: Seq<char>, titled: bool, class: Seq<char>, title: Seq<char>)
    ensures
        by_process(process, titled) is None ==> process != "explorer.exe"@ && process
            != "code.exe"@ && process != "chrome.exe"@ && process != "wechat.exe"@ && process
            != "slack.exe"@ && process != "discord.exe"@ && process != "outlook.exe"@ && process
            != "taskmgr.exe"@ && process != "wt.exe"@ && process != "powershell.exe"@ && process
            != "cmd.exe"@ && process != "pwsh.exe"@ && process != "windowsterminal.exe"@ && process
            != "windows-terminal.exe"@ && process != "wechatdevtools.exe"@ && process
            != "winmail.exe"@,
        by_class(class) is None ==> class != "ConsoleWindowClass"@ && class != "#32770"@ && class
            != "Chrome_WidgetWin_1"@ && class != "Chrome_WidgetWin_2"@ && class
            != "CefBrowserWindow"@ && class != "Qt5QWindowIcon"@ && class != "Qt6QWindowIcon"@
            && class != "Windows.UI.Core.CoreWindow"@ && class != "CabinetWClass"@
            && !text::begins(class, "HwndWrapper"@),
        text::has_part(title, " - visual studio code"@) || text::has_part(title, " - vs code"@)
            ==> by_title(title) == "ide"@,
        !text::has_part(title, " - visual studio code"@) && !text::has_part(
            title,
            " — visual studio code"@,
        ) && !text::has_part(title, " - vs code"@) && !text::has_part(title, " - powershell"@)
            && !text::has_part(title, "命令提示符"@) ==> by_title(title) == "generic"@,
{
}

/// The folders that models are looked for in stand in this order: the one that
/// the environment names, the user's, those beside the program, those of a
/// checkout, and the one of the sources last.
pub proof fn models_are_looked_for_in_order(s: ModelSources)
    ensures
        ({
            let all = s.order();
            let env = if s.env is Some { 1int } else { 0int };
            let data = if s.data is Some { 1int } else { 0int };
            let exe = if s.exe@.len() < 3 { s.exe@.len() as int } else { 3int };
            &&& all.len() > 0
            &&& s.env matches Some(p) ==> all[0] == (PlaceModel {
                base: p@,
                parts: Seq::empty(),
            })
            &&& s.data matches Some(p) ==> all[env].base == p@ && all[env].parts == seq![
                "Nuphus"@,
                "models"@,
            ]
            &&& forall|i: int|
                env + data <= i < env + data + exe ==> (#[trigger] all[i]).base == s.exe@[i - env
                    - data]@ && all[i].parts == seq!["desktop"@, "models"@]
            &&& all.last().base == s.dev@
            &&& all.last().parts == seq!["../src-tauri/desktop/models"@]
            &&& s.cwd is None ==> all.len() == env + data + exe + 1
            &&& s.cwd is Some && s.cwd_parent is None ==> all.len() == env + data + exe + 3
                && all[env + data + exe].base == s.cwd->Some_0@ && all[env + data + exe].parts
                == seq!["src-tauri"@, "desktop"@, "models"@] && all[env + data + exe + 1].base
                == s.cwd->Some_0@ && all[env + data + exe + 1].parts == seq![
                "../src-tauri/desktop/models"@,
            ]
            &&& s.cwd is Some && s.cwd_parent is Some ==> all.len() == env + data + exe + 5
                && all[env + data + exe].base == s.cwd_parent->Some_0@ && all[env + data + exe
                + 2].base == s.cwd->Some_0@
        }),
{
    let all = s.order();
    assert forall|f: Seq<char>| (#[trigger] beside(f)).parts == seq!["desktop"@, "models"@] by {
        assert(beside(f).parts =~= seq!["desktop"@, "models"@]);
    }
    assert forall|f: Seq<char>| (#[trigger] checked_out(f)).parts == seq![
        "src-tauri"@,
        "desktop"@,
        "models"@,
    ] by {
        assert(checked_out(f).parts =~= seq!["src-tauri"@, "desktop"@, "models"@]);
    }
    assert forall|f: Seq<char>| (#[trigger] checked_out_beside(f)).parts == seq![
        "../src-tauri/desktop/models"@,
    ] by {
        assert(checked_out_beside(f).parts =~= seq!["../src-tauri/desktop/models"@]);
    }
    let env = if s.env is Some { 1int } else { 0int };
    if s.data is Some {
        assert(all[env].parts =~= seq!["Nuphus"@, "models"@]);
    }
    let exe = model::seq_view(s.exe@);
    let data = if s.data is Some { 1int } else { 0int };
    let n = if s.exe@.len() < 3 { s.exe@.len() as int } else { 3int };
    assert forall|i: int| env + data <= i < env + data + n implies (#[trigger] all[i]).base
        == s.exe@[i - env - data]@ && all[i].parts == seq!["desktop"@, "models"@] by {
        assert(all[i] == beside(exe[i - env - data]));
    }
    assert(all.last() == checked_out_beside(s.dev@));
}

/// The first folder that is there is taken.
pub proof fn first_folder_there_is_taken(places: Seq<PlaceModel>, there: Seq<bool>, i: int)
    requires
        places.len() == there.len(),
        0 <= i < there.len(),
        there[i],
        forall|k: int| 0 <= k < i ==> !#[trigger] there[k],
    ensures
        first_there(places, there) == Some(places[i]),
    decreases i,
{
    if i > 0 {
        assert(!there[0]);
        let rest = there.drop_first();
        assert forall|k: int| 0 <= k < i - 1 implies !#[trigger] rest[k] by {
            assert(rest[k] == there[k + 1]);
        }
        first_folder_there_is_taken(places.drop_first(), rest, i - 1);
    }
}

/// Where no folder is there, none is taken.
pub proof fn no_folder_there_is_none(places: Seq<PlaceModel>, there: Seq<bool>)
    requires
        forall|k: int| 0 <= k < there.len() ==> !#[trigger] there[k],
    ensures
        first_there(places, there) is None,
    decreases there.len(),
{
    if places.len() > 0 && there.len() > 0 {
        assert(!there[0]);
        let rest = there.drop_first();
        assert forall|k: int| 0 <= k < rest.len() implies !#[trigger] rest[k] by {
            assert(rest[k] == there[k + 1]);
        }
        no_folder_there_is_none(places.drop_first(), rest);
    }
}

/// A look that does not pass is refused with the first thing that was wrong: the
/// window that could not be read, or what the capture itself says. One that passes
/// is not refused.
pub proof fn looks_are_refused_for_a_reason(
    s: Seq<CaptureModel>,
    c: CaptureModel,
    look: Look,
    e: NuphusError,
)
    ensures
        look.window matches Some(Err(x)) ==> !passes(s, c, look) && (refuses(s, c, look, e) <==> e
            == x),
        passes(s, c, look) ==> !refuses(s, c, look, e),
        !(look.window matches Some(Err(_))) && refuses(s, c, look, e) ==> revalidated(
            s,
            c,
            shown(look),
            capture_context::digest_view(look.file),
        ) is Err && (e matches NuphusError::Tool(t) && t@ == revalidated(
            s,
            c,
            shown(look),
            capture_context::digest_view(look.file),
        )->Err_0),
        shown(look) is Some <==> look.window is Some && look.window->Some_0 is Ok,
        look.window matches Some(Ok(w)) ==> shown(look) == Some(w@),
{
}

} // verus!
