//! Reading a UI Automation tree: identities, controls, fingerprints and the
//! bounded walk. Elements are known here by numbers that the caller gives out.
use std::collections::VecDeque;

use vstd::prelude::*;
use vstd::string::*;

use crate::hashing;
use crate::hashing::{digest_of, tagged_digest};
use crate::model;
use crate::model::{copy_opt, same_all, same_opt, Plain};
use crate::text;
use crate::text::{
    decimal, hex, join, lowercase, owned, same_text, signed_decimal, take_chars, trim,
};
use crate::types::{
    AppIdentity, AppModel, AutomationError, ContextModel, ErrorKind, NativeAction,
    ObservationScope, ScopeModel, SemanticContext, UiRole, WindowIdentity, WindowModel,
};
use crate::uia::{MetadataModel, NodeMetadata, Snapshot, SnapshotModel};

verus! {

/// How deep the tree is read.
pub const MAX_DEPTH: usize = 24;

/// How many elements the search for a region looks at.
pub const SEARCH_LIMIT: usize = 2000;

/// The role that a UI Automation control type stands for.
pub open spec fn role_model(control_type: i32) -> UiRole {
    if control_type == 50032 {
        UiRole::Window
    } else if control_type == 50000 {
        UiRole::Button
    } else if control_type == 50004 {
        UiRole::TextField
    } else if control_type == 50002 {
        UiRole::CheckBox
    } else if control_type == 50013 {
        UiRole::RadioButton
    } else if control_type == 50008 {
        UiRole::List
    } else if control_type == 50007 {
        UiRole::ListItem
    } else if control_type == 50009 || control_type == 50010 {
        UiRole::Menu
    } else if control_type == 50011 {
        UiRole::MenuItem
    } else if control_type == 50018 || control_type == 50019 {
        UiRole::Tab
    } else if control_type == 50030 {
        UiRole::Document
    } else {
        UiRole::Other
    }
}

/// The role that a UI Automation control type stands for.
pub fn role_for(control_type: i32) -> (r: UiRole)
    ensures
        r == role_model(control_type),
{
    match control_type {
        50032 => UiRole::Window,
        50000 => UiRole::Button,
        50004 => UiRole::TextField,
        50002 => UiRole::CheckBox,
        50013 => UiRole::RadioButton,
        50008 => UiRole::List,
        50007 => UiRole::ListItem,
        50009 => UiRole::Menu,
        50010 => UiRole::Menu,
        50011 => UiRole::MenuItem,
        50018 => UiRole::Tab,
        50019 => UiRole::Tab,
        50030 => UiRole::Document,
        _ => UiRole::Other,
    }
}

/// A text without white space around it, where anything is left.
pub open spec fn nonempty_text(s: Seq<char>) -> Option<Seq<char>> {
    if text::blank(s) {
        None
    } else {
        Some(text::trimmed(s))
    }
}

/// A text without white space around it, where anything is left.
pub fn nonempty(value: &str) -> (r: Option<String>)
    ensures
        model::opt_view(r) == nonempty_text(value@),
{
    let t = trim(value);
    if t.as_str().is_empty() {
        None
    } else {
        Some(t)
    }
}

/// The text of an element: its first characters without white space around
/// them, where anything is left.
pub open spec fn element_text_model(value: Option<Seq<char>>, max_chars: nat) -> Option<Seq<char>> {
    match value {
        Some(s) => nonempty_text(text::clipped(s, max_chars)),
        None => None,
    }
}

/// The text of an element.
pub fn element_text(value: &Option<String>, max_chars: usize) -> (r: Option<String>)
    ensures
        model::opt_view(r) == element_text_model(model::opt_view(*value), max_chars as nat),
{
    match value {
        Some(s) => nonempty(take_chars(s.as_str(), max_chars).as_str()),
        None => None,
    }
}

/// What an application is told apart by: its executable where that is known,
/// its framework and window class otherwise.
pub open spec fn identity_seed(
    framework: Option<Seq<char>>,
    window_class: Seq<char>,
    process: Seq<char>,
) -> Seq<char> {
    if process.len() > 0 {
        "process|"@ + process
    } else {
        "fallback|"@ + (match framework {
            Some(s) => s,
            None => "win32"@,
        }) + "|"@ + text::lowercased(window_class)
    }
}

/// What an application is told apart by.
pub fn app_identity_seed(
    framework: Option<&str>,
    window_class: &str,
    process_identity: &str,
) -> (r: String)
    ensures
        r@ == identity_seed(text::opt_str(framework), window_class@, process_identity@),
{
    if !process_identity.is_empty() {
        let mut s = owned("process|");
        s.append(process_identity);
        s
    } else {
        let mut s = owned("fallback|");
        match framework {
            Some(f) => {
                s.append(f);
            },
            None => {
                s.append("win32");
            },
        }
        s.append("|");
        s.append(lowercase(window_class).as_str());
        s
    }
}

/// Windows of one executable belong to one application, whatever their
/// framework and class.
pub proof fn identity_survives_window_class(
    framework_a: Option<Seq<char>>,
    framework_b: Option<Seq<char>>,
    class_a: Seq<char>,
    class_b: Seq<char>,
    process: Seq<char>,
)
    requires
        process.len() > 0,
    ensures
        identity_seed(framework_a, class_a, process) == identity_seed(
            framework_b,
            class_b,
            process,
        ),
{
}

/// Without an executable, window classes that differ beyond case stay apart.
pub proof fn unknown_classes_stay_apart(
    framework: Option<Seq<char>>,
    class_a: Seq<char>,
    class_b: Seq<char>,
)
    requires
        text::lowercased(class_a) != text::lowercased(class_b),
    ensures
        identity_seed(framework, class_a, Seq::empty()) != identity_seed(
            framework,
            class_b,
            Seq::empty(),
        ),
{
    let head = "fallback|"@ + (match framework {
        Some(s) => s,
        None => "win32"@,
    }) + "|"@;
    let a = head + text::lowercased(class_a);
    let b = head + text::lowercased(class_b);
    if a == b {
        assert(a.skip(head.len() as int) == text::lowercased(class_a));
        assert(b.skip(head.len() as int) == text::lowercased(class_b));
    }
}

/// The text that a live window is told apart by.
pub open spec fn live_seed(stable: Seq<char>, hwnd: int, pid: nat) -> Seq<char> {
    stable + "|"@ + text::signed_text(hwnd) + "|"@ + text::decimal_text(pid)
}

/// The id of a live window: its stable id, its handle and its process.
pub fn window_runtime_key(stable: &str, hwnd: i64, pid: u32) -> (r: String)
    ensures
        r@ == hashing::tagged("windows-live:"@, live_seed(stable@, hwnd as int, pid as nat)),
{
    let mut s = owned(stable);
    s.append("|");
    s.append(signed_decimal(hwnd).as_str());
    s.append("|");
    s.append(decimal(pid as u64).as_str());
    tagged_digest("windows-live:", s.as_str())
}

/// What is read of the window in front.
#[derive(Debug, Clone, PartialEq, Eq)]
pub struct WindowFacts {
    pub title: String,
    pub class: String,
    pub framework: Option<String>,
    pub root_name: Option<String>,
    pub root_automation_id: Option<String>,
    pub process_path: Option<String>,
    pub hwnd: i64,
    pub pid: u32,
}

/// The first of some texts that is there.
pub open spec fn first_of(a: Option<Seq<char>>, b: Option<Seq<char>>) -> Option<Seq<char>> {
    match a {
        Some(s) => Some(s),
        None => b,
    }
}

/// A text, or another where there is none.
pub open spec fn or_text(a: Option<Seq<char>>, b: Seq<char>) -> Seq<char> {
    match a {
        Some(s) => s,
        None => b,
    }
}

/// The framework of a window, as far as it is used.
pub open spec fn framework_model(f: WindowFacts) -> Option<Seq<char>> {
    match f.framework {
        Some(s) => if s@.len() == 0 {
            None
        } else {
            Some(text::clipped(s@, 64))
        },
        None => None,
    }
}

/// As much of a window's class as is read of it.
pub open spec fn class_model(f: WindowFacts) -> Seq<char> {
    text::clipped(f.class@, 128)
}

/// The application in front.
pub open spec fn app_model(f: WindowFacts) -> AppModel {
    AppModel {
        id: hashing::tagged(
            "windows-app:"@,
            identity_seed(
                framework_model(f),
                class_model(f),
                text::lowercased(or_text(model::opt_view(f.process_path), Seq::empty())),
            ),
        ),
        display_name: or_text(
            first_of(
                element_text_model(model::opt_view(f.root_name), 128),
                first_of(nonempty_text(f.title@), nonempty_text(class_model(f))),
            ),
            "Windows application"@,
        ),
    }
}

/// The id of the window in front that survives restarts.
pub open spec fn stable_id_model(f: WindowFacts) -> Seq<char> {
    hashing::tagged(
        "windows-window:"@,
        app_model(f).id + "|"@ + class_model(f) + "|"@ + or_text(
            element_text_model(model::opt_view(f.root_automation_id), 256),
            Seq::empty(),
        ),
    )
}

/// The window in front.
pub open spec fn window_model(f: WindowFacts) -> WindowModel {
    WindowModel {
        id: hashing::tagged(
            "windows-live:"@,
            live_seed(stable_id_model(f), f.hwnd as int, f.pid as nat),
        ),
        title: or_text(
            first_of(
                nonempty_text(f.title@),
                element_text_model(model::opt_view(f.root_name), 128),
            ),
            "Untitled"@,
        ),
    }
}

/// The application in front, its window, and the window's stable id.
pub fn identify(f: &WindowFacts) -> (r: (AppIdentity, WindowIdentity, String))
    ensures
        r.0@ == app_model(*f),
        r.1@ == window_model(*f),
        r.2@ == stable_id_model(*f),
{
    let class = take_chars(f.class.as_str(), 128);
    let root_name = element_text(&f.root_name, 128);
    let display_name = match copy_opt(&root_name) {
        Some(s) => s,
        None => match nonempty(f.title.as_str()) {
            Some(s) => s,
            None => match nonempty(class.as_str()) {
                Some(s) => s,
                None => owned("Windows application"),
            },
        },
    };
    let process = match &f.process_path {
        Some(p) => lowercase(p.as_str()),
        None => lowercase(String::new().as_str()),
    };
    let framework: Option<String> = match &f.framework {
        Some(s) => if s.as_str().is_empty() {
            None
        } else {
            Some(take_chars(s.as_str(), 64))
        },
        None => None,
    };
    let seed = match &framework {
        Some(s) => app_identity_seed(Some(s.as_str()), class.as_str(), process.as_str()),
        None => app_identity_seed(None, class.as_str(), process.as_str()),
    };
    let app = AppIdentity { id: tagged_digest("windows-app:", seed.as_str()), display_name };
    let mut window_seed = app.id.clone();
    window_seed.append("|");
    window_seed.append(class.as_str());
    window_seed.append("|");
    match element_text(&f.root_automation_id, 256) {
        Some(s) => {
            window_seed.append(s.as_str());
        },
        None => {
            window_seed.append(String::new().as_str());
        },
    }
    let stable = tagged_digest("windows-window:", window_seed.as_str());
    let title = match nonempty(f.title.as_str()) {
        Some(s) => s,
        None => match root_name {
            Some(s) => s,
            None => owned("Untitled"),
        },
    };
    let window = WindowIdentity {
        id: window_runtime_key(stable.as_str(), f.hwnd, f.pid),
        title,
    };
    (app, window, stable)
}

/// What is read of an element. A missing inner value is one that could not be
/// read.
#[derive(Debug, Clone, PartialEq, Eq)]
pub struct ElementFacts {
    pub control_type: i32,
    pub name: Option<String>,
    pub automation_id: Option<String>,
    pub enabled: Option<bool>,
    pub offscreen: Option<bool>,
    pub focused: Option<bool>,
    pub password: Option<bool>,
    pub focusable: Option<bool>,
    /// Whether the element can be pressed.
    pub invoke: bool,
    /// Whether the element can be toggled, and whether it is on.
    pub toggle: Option<Option<bool>>,
    /// Whether the element can be selected, and whether it is.
    pub selection: Option<Option<bool>>,
    /// Whether the element can be expanded, and whether it is.
    pub expand: Option<Option<bool>>,
    /// Whether the element has a value, and whether that is read-only.
    pub value_read_only: Option<Option<bool>>,
    pub value: Option<String>,
}

/// A reading of a flag, or what stands for a failed one.
pub open spec fn flag(o: Option<bool>, fallback: bool) -> bool {
    match o {
        Some(b) => b,
        None => fallback,
    }
}

/// A reading of a flag, or what stands for a failed one.
pub fn bool_or(result: Option<bool>, fallback: bool) -> (r: bool)
    ensures
        r == flag(result, fallback),
{
    match result {
        Some(b) => b,
        None => fallback,
    }
}

/// One action where a condition holds.
pub open spec fn only_if(yes: bool, action: NativeAction) -> Seq<NativeAction> {
    if yes {
        seq![action]
    } else {
        Seq::empty()
    }
}

/// The actions that an element offers: those it advertises, a text entry only
/// where the value can be written and is no secret.
pub open spec fn actions_model(f: ElementFacts) -> Seq<NativeAction> {
    only_if(f.invoke, NativeAction::Invoke) + only_if(f.toggle is Some, NativeAction::Toggle)
        + only_if(f.selection is Some, NativeAction::Select) + (match f.expand {
        Some(Some(true)) => seq![NativeAction::Collapse],
        Some(Some(false)) => seq![NativeAction::Expand],
        Some(None) => seq![NativeAction::Expand, NativeAction::Collapse],
        None => Seq::empty(),
    }) + only_if(
        f.value_read_only == Some(Some(false)) && !flag(f.password, false),
        NativeAction::SetValue,
    ) + only_if(flag(f.focusable, false), NativeAction::Focus)
}

/// Adds an action where a condition holds.
fn push_if(out: &mut Vec<NativeAction>, yes: bool, action: NativeAction)
    ensures
        final(out)@ == old(out)@ + only_if(yes, action),
{
    if yes {
        out.push(action);
    }
    assert(out@ =~= old(out)@ + only_if(yes, action));
}

/// The actions that an element offers.
fn actions_of(f: &ElementFacts) -> (r: Vec<NativeAction>)
    ensures
        r@ == actions_model(*f),
{
    let mut out: Vec<NativeAction> = Vec::new();
    push_if(&mut out, f.invoke, NativeAction::Invoke);
    assert(out@ =~= only_if(f.invoke, NativeAction::Invoke));
    push_if(&mut out, f.toggle.is_some(), NativeAction::Toggle);
    push_if(&mut out, f.selection.is_some(), NativeAction::Select);
    let ghost before = out@;
    match f.expand {
        Some(Some(true)) => {
            out.push(NativeAction::Collapse);
            assert(out@ =~= before + seq![NativeAction::Collapse]);
        },
        Some(Some(false)) => {
            out.push(NativeAction::Expand);
            assert(out@ =~= before + seq![NativeAction::Expand]);
        },
        Some(None) => {
            out.push(NativeAction::Expand);
            out.push(NativeAction::Collapse);
            assert(out@ =~= before + seq![NativeAction::Expand, NativeAction::Collapse]);
        },
        None => {
            assert(out@ =~= before + Seq::<NativeAction>::empty());
        },
    }
    let writable = match f.value_read_only {
        Some(Some(read_only)) => !read_only,
        _ => false,
    };
    push_if(&mut out, writable && !bool_or(f.password, false), NativeAction::SetValue);
    push_if(&mut out, bool_or(f.focusable, false), NativeAction::Focus);
    out
}

/// A secure field never offers an ordinary text entry, nor does a field whose
/// value cannot be written.
pub proof fn no_entry_into_secure_or_read_only_field(f: ElementFacts)
    requires
        flag(f.password, false) || f.value_read_only != Some(Some(false)),
    ensures
        !actions_model(f).contains(NativeAction::SetValue),
{
    let s = actions_model(f);
    assert forall|i: int| 0 <= i < s.len() implies s[i] != NativeAction::SetValue by {}
}

/// What is offered can be chosen: an element never offers scrolling.
pub proof fn offered_actions_can_be_chosen(f: ElementFacts)
    ensures
        !actions_model(f).contains(NativeAction::Scroll),
{
    let s = actions_model(f);
    assert forall|i: int| 0 <= i < s.len() implies s[i] != NativeAction::Scroll by {}
}

/// A text in quotation marks with its special characters escaped, as
/// `str`'s `Debug` writes it.
pub uninterp spec fn quoted(s: Seq<char>) -> Seq<char>;

/// `str`'s `Debug`: the text in quotation marks, special characters escaped; a
/// function of the text alone.
#[verifier::external_body]
pub(crate) fn quote(s: &str) -> (r: String)
    ensures
        r@ == quoted(s@),
{
    format!("{:?}", s)
}

/// An optional text as it is written down.
pub open spec fn optional_text(o: Option<Seq<char>>) -> Seq<char> {
    match o {
        Some(s) => "Some("@ + quoted(s) + ")"@,
        None => "None"@,
    }
}

/// An ancestor as it is written down.
pub open spec fn ancestor_text(c: ContextModel) -> Seq<char> {
    "SemanticContext { role: "@ + (match c.role {
        Some(role) => "Some("@ + role.label() + ")"@,
        None => "None"@,
    }) + ", automation_id: "@ + optional_text(c.automation_id) + ", accessible_name: "@
        + optional_text(c.accessible_name) + " }"@
}

/// A chain of ancestors as it is written down.
pub open spec fn chain_text(chain: Seq<ContextModel>) -> Seq<char> {
    "["@ + text::joined(Seq::new(chain.len(), |i: int| ancestor_text(chain[i])), ", "@) + "]"@
}

/// Writes an optional text down.
fn write_optional(o: &Option<String>) -> (r: String)
    ensures
        r@ == optional_text(model::opt_view(*o)),
{
    match o {
        Some(s) => {
            let mut out = owned("Some(");
            out.append(quote(s.as_str()).as_str());
            out.append(")");
            out
        },
        None => owned("None"),
    }
}

/// Writes a chain of ancestors down.
fn write_chain(chain: &Vec<SemanticContext>) -> (r: String)
    ensures
        r@ == chain_text(model::seq_view(chain@)),
{
    let ghost cs = model::seq_view(chain@);
    let mut parts: Vec<String> = Vec::new();
    let mut i: usize = 0;
    while i < chain.len()
        invariant
            i <= chain@.len(),
            cs == model::seq_view(chain@),
            parts@.len() == i,
            forall|k: int| 0 <= k < i ==> (#[trigger] parts@[k])@ == ancestor_text(cs[k]),
        decreases chain@.len() - i,
    {
        let c = &chain[i];
        let mut s = owned("SemanticContext { role: ");
        match c.role {
            Some(role) => {
                let mut inner = owned("Some(");
                inner.append(role.name());
                inner.append(")");
                s.append(inner.as_str());
            },
            None => {
                s.append("None");
            },
        }
        s.append(", automation_id: ");
        s.append(write_optional(&c.automation_id).as_str());
        s.append(", accessible_name: ");
        s.append(write_optional(&c.accessible_name).as_str());
        s.append(" }");
        assert(s@ == ancestor_text(cs[i as int]));
        parts.push(s);
        i = i + 1;
    }
    let mut out = owned("[");
    out.append(join(&parts, ", ").as_str());
    out.append("]");
    assert(model::seq_view(parts@) =~= Seq::new(cs.len(), |i: int| ancestor_text(cs[i])));
    out
}

/// What a control is told apart by when its list is reordered.
pub open spec fn semantic_seed(
    role: UiRole,
    name: Option<Seq<char>>,
    automation_id: Option<Seq<char>>,
    chain: Seq<ContextModel>,
) -> Seq<char> {
    role.label() + "|"@ + or_text(name, Seq::empty()) + "|"@ + or_text(automation_id, Seq::empty())
        + "|"@ + chain_text(chain)
}

/// An element as a control.
pub open spec fn node_model(f: ElementFacts, index: nat, chain: Seq<ContextModel>) -> MetadataModel {
    let role = role_model(f.control_type);
    let name = element_text_model(model::opt_view(f.name), 256);
    let automation_id = element_text_model(model::opt_view(f.automation_id), 256);
    let secure = flag(f.password, false);
    MetadataModel {
        opaque_id: hashing::tagged("uie:"@, semantic_seed(role, name, automation_id, chain)) + ":"@
            + text::decimal_text(index),
        role,
        name,
        automation_id,
        enabled: flag(f.enabled, false),
        visible: !flag(f.offscreen, true),
        focused: flag(f.focused, false),
        secure,
        value_fingerprint: match f.value {
            Some(v) => if secure || f.value_read_only is None {
                None
            } else {
                Some(hashing::digest(v@))
            },
            None => None,
        },
        toggled: match f.toggle {
            Some(state) => state,
            None => None,
        },
        selected: match f.selection {
            Some(state) => state,
            None => None,
        },
        expanded: match f.expand {
            Some(state) => state,
            None => None,
        },
        ancestor_chain: chain,
        supported_actions: actions_model(f),
    }
}

/// An element as a control: its texts cut and trimmed, its actions, and an id
/// made of a digest of its semantics and its position.
pub fn native_node(f: &ElementFacts, index: usize, ancestor_chain: Vec<SemanticContext>) -> (r:
    NodeMetadata)
    ensures
        r@ == node_model(*f, index as nat, model::seq_view(ancestor_chain@)),
{
    let role = role_for(f.control_type);
    let name = element_text(&f.name, 256);
    let automation_id = element_text(&f.automation_id, 256);
    let secure = bool_or(f.password, false);
    let mut seed = owned(role.name());
    seed.append("|");
    match &name {
        Some(s) => {
            seed.append(s.as_str());
        },
        None => {
            seed.append(String::new().as_str());
        },
    }
    seed.append("|");
    match &automation_id {
        Some(s) => {
            seed.append(s.as_str());
        },
        None => {
            seed.append(String::new().as_str());
        },
    }
    seed.append("|");
    seed.append(write_chain(&ancestor_chain).as_str());
    let mut opaque_id = tagged_digest("uie:", seed.as_str());
    opaque_id.append(":");
    opaque_id.append(decimal(index as u64).as_str());
    let value_fingerprint: Option<u64> = match &f.value {
        Some(v) => if secure || f.value_read_only.is_none() {
            None
        } else {
            Some(digest_of(v.as_str()))
        },
        None => None,
    };
    let toggled: Option<bool> = match f.toggle {
        Some(state) => state,
        None => None,
    };
    let selected: Option<bool> = match f.selection {
        Some(state) => state,
        None => None,
    };
    let expanded: Option<bool> = match f.expand {
        Some(state) => state,
        None => None,
    };
    let supported_actions = actions_of(f);
    assert(model::seq_view(supported_actions@) =~= supported_actions@);
    NodeMetadata {
        opaque_id,
        role,
        name,
        automation_id,
        enabled: bool_or(f.enabled, false),
        visible: !bool_or(f.offscreen, true),
        focused: bool_or(f.focused, false),
        secure,
        value_fingerprint,
        toggled,
        selected,
        expanded,
        ancestor_chain,
        supported_actions,
    }
}

/// Nothing of a secure field's value is kept, not even a digest.
pub proof fn secure_value_leaves_no_trace(f: ElementFacts, index: nat, chain: Seq<ContextModel>)
    requires
        flag(f.password, false),
    ensures
        node_model(f, index, chain).value_fingerprint is None,
        node_model(f, index, chain).secure,
{
}

/// Whether a role gives structure even without a text.
pub open spec fn structural(role: Option<UiRole>) -> bool {
    role == Some(UiRole::List) || role == Some(UiRole::ListItem) || role == Some(UiRole::Menu)
        || role == Some(UiRole::MenuItem) || role == Some(UiRole::Tab) || role == Some(
        UiRole::Document,
    )
}

/// An element as an ancestor: kept where it has a text or gives structure.
pub open spec fn context_model(
    control_type: Option<i32>,
    automation_id: Option<Seq<char>>,
    name: Option<Seq<char>>,
) -> Option<ContextModel> {
    let c = ContextModel {
        role: match control_type {
            Some(t) => Some(role_model(t)),
            None => None,
        },
        automation_id: element_text_model(automation_id, 256),
        accessible_name: element_text_model(name, 256),
    };
    if c.automation_id is Some || c.accessible_name is Some || structural(c.role) {
        Some(c)
    } else {
        None
    }
}

/// An element as an ancestor, where it is kept.
pub fn semantic_context(
    control_type: Option<i32>,
    automation_id: &Option<String>,
    name: &Option<String>,
) -> (r: Option<SemanticContext>)
    ensures
        model::opt_view(r) == context_model(
            control_type,
            model::opt_view(*automation_id),
            model::opt_view(*name),
        ),
{
    let role: Option<UiRole> = match control_type {
        Some(t) => Some(role_for(t)),
        None => None,
    };
    let automation_id = element_text(automation_id, 256);
    let accessible_name = element_text(name, 256);
    let is_structural = match role {
        Some(UiRole::List) => true,
        Some(UiRole::ListItem) => true,
        Some(UiRole::Menu) => true,
        Some(UiRole::MenuItem) => true,
        Some(UiRole::Tab) => true,
        Some(UiRole::Document) => true,
        _ => false,
    };
    if automation_id.is_some() || accessible_name.is_some() || is_structural {
        Some(SemanticContext { role, automation_id, accessible_name })
    } else {
        None
    }
}

/// Whether two controls are the same container, found again.
pub open spec fn same_container_model(a: MetadataModel, b: MetadataModel) -> bool {
    a.role == b.role && a.automation_id == b.automation_id && a.name == b.name && a.ancestor_chain
        == b.ancestor_chain
}

/// Whether two controls are the same container, found again.
pub fn same_container(left: &NodeMetadata, right: &NodeMetadata) -> (r: bool)
    ensures
        r == same_container_model(left@, right@),
{
    left.role == right.role && same_opt(&left.automation_id, &right.automation_id) && same_opt(
        &left.name,
        &right.name,
    ) && same_all(&left.ancestor_chain, &right.ancestor_chain)
}

/// A text behind its length, so that texts in a row stay apart.
pub open spec fn framed(s: Seq<char>) -> Seq<char> {
    text::decimal_text(s.len()) + ":"@ + s
}

/// An optional text, framed.
pub open spec fn framed_opt(o: Option<Seq<char>>) -> Seq<char> {
    match o {
        Some(s) => "+"@ + framed(s),
        None => "-"@,
    }
}

/// A flag as a character.
pub open spec fn flag_text(b: bool) -> Seq<char> {
    if b {
        "1"@
    } else {
        "0"@
    }
}

/// An optional flag as a character.
pub open spec fn opt_flag_text(o: Option<bool>) -> Seq<char> {
    match o {
        Some(b) => flag_text(b),
        None => "-"@,
    }
}

/// The names of actions, framed.
pub open spec fn action_names(actions: Seq<NativeAction>) -> Seq<char>
    decreases actions.len(),
{
    if actions.len() == 0 {
        Seq::empty()
    } else {
        action_names(actions.drop_last()) + framed(actions.last().label())
    }
}

/// What of a control makes up the fingerprint.
pub open spec fn node_text(m: MetadataModel) -> Seq<char> {
    framed(m.role.label()) + framed_opt(m.name) + framed_opt(m.automation_id) + flag_text(m.enabled)
        + flag_text(m.visible) + flag_text(m.focused) + flag_text(m.secure) + framed_opt(
        match m.value_fingerprint {
            Some(v) => Some(text::hex_text(v as nat, 16)),
            None => None,
        },
    ) + opt_flag_text(m.toggled) + opt_flag_text(m.selected) + opt_flag_text(m.expanded) + framed(
        action_names(m.supported_actions),
    )
}

/// What of a list of controls makes up the fingerprint.
pub open spec fn nodes_text(nodes: Seq<MetadataModel>) -> Seq<char>
    decreases nodes.len(),
{
    if nodes.len() == 0 {
        Seq::empty()
    } else {
        nodes_text(nodes.drop_last()) + node_text(nodes.last())
    }
}

/// The fingerprint of a reading.
pub open spec fn fingerprint_model(
    app_id: Seq<char>,
    title: Seq<char>,
    nodes: Seq<MetadataModel>,
) -> Seq<char> {
    hashing::tagged("uia:"@, framed(app_id) + framed(title) + nodes_text(nodes))
}

/// Adds a framed text.
fn frame(out: &mut String, s: &str)
    ensures
        final(out)@ == old(out)@ + framed(s@),
{
    let ghost before = out@;
    let n: usize = text::chars_of(s).len();
    out.append(decimal(n as u64).as_str());
    out.append(":");
    out.append(s);
    assert(out@ =~= before + framed(s@));
}

/// A text behind its length.
pub fn framed_text(s: &str) -> (r: String)
    ensures
        r@ == framed(s@),
{
    let mut out = String::new();
    frame(&mut out, s);
    assert(out@ =~= framed(s@));
    out
}

/// Adds an optional text, framed.
fn frame_opt(out: &mut String, o: &Option<String>)
    ensures
        final(out)@ == old(out)@ + framed_opt(model::opt_view(*o)),
{
    let ghost before = out@;
    match o {
        Some(s) => {
            out.append("+");
            frame(out, s.as_str());
        },
        None => {
            out.append("-");
        },
    }
    assert(out@ =~= before + framed_opt(model::opt_view(*o)));
}

/// Adds a flag.
fn put_flag(out: &mut String, b: bool)
    ensures
        final(out)@ == old(out)@ + flag_text(b),
{
    if b {
        out.append("1");
    } else {
        out.append("0");
    }
}

/// Adds an optional flag.
fn put_opt_flag(out: &mut String, o: Option<bool>)
    ensures
        final(out)@ == old(out)@ + opt_flag_text(o),
{
    match o {
        Some(b) => {
            put_flag(out, b);
        },
        None => {
            out.append("-");
        },
    }
}

/// Writes the names of actions, framed.
fn write_actions(actions: &Vec<NativeAction>) -> (r: String)
    ensures
        r@ == action_names(actions@),
{
    let mut out = String::new();
    let mut i: usize = 0;
    while i < actions.len()
        invariant
            i <= actions@.len(),
            out@ == action_names(actions@.take(i as int)),
        decreases actions@.len() - i,
    {
        proof {
            assert(actions@.take(i + 1).drop_last() == actions@.take(i as int));
        }
        frame(&mut out, actions[i].name());
        i = i + 1;
    }
    assert(actions@.take(actions@.len() as int) == actions@);
    out
}

/// Writes what of a control makes up the fingerprint.
fn write_node(m: &NodeMetadata) -> (r: String)
    ensures
        r@ == node_text(m@),
{
    let mut out = String::new();
    frame(&mut out, m.role.name());
    assert(out@ =~= framed(m@.role.label()));
    frame_opt(&mut out, &m.name);
    frame_opt(&mut out, &m.automation_id);
    put_flag(&mut out, m.enabled);
    put_flag(&mut out, m.visible);
    put_flag(&mut out, m.focused);
    put_flag(&mut out, m.secure);
    let value: Option<String> = match m.value_fingerprint {
        Some(v) => Some(hex(v, 16)),
        None => None,
    };
    frame_opt(&mut out, &value);
    put_opt_flag(&mut out, m.toggled);
    put_opt_flag(&mut out, m.selected);
    put_opt_flag(&mut out, m.expanded);
    assert(model::seq_view(m.supported_actions@) =~= m.supported_actions@);
    frame(&mut out, write_actions(&m.supported_actions).as_str());
    out
}

/// The fingerprint of a reading: a digest of the application, the window's
/// title and what can be seen of each control.
pub fn fingerprint(app_id: &str, title: &str, nodes: &Vec<NodeMetadata>) -> (r: String)
    ensures
        r@ == fingerprint_model(app_id@, title@, model::seq_view(nodes@)),
{
    let ghost ns = model::seq_view(nodes@);
    let mut out = String::new();
    frame(&mut out, app_id);
    assert(out@ =~= framed(app_id@));
    frame(&mut out, title);
    let ghost head = out@;
    let mut i: usize = 0;
    assert(head + nodes_text(ns.take(0)) =~= head);
    while i < nodes.len()
        invariant
            i <= nodes@.len(),
            ns == model::seq_view(nodes@),
            out@ == head + nodes_text(ns.take(i as int)),
        decreases nodes@.len() - i,
    {
        proof {
            assert(ns.take(i + 1).drop_last() == ns.take(i as int));
            assert(ns.take(i + 1).last() == nodes@[i as int]@);
        }
        out.append(write_node(&nodes[i]).as_str());
        i = i + 1;
        assert(out@ =~= head + nodes_text(ns.take(i as int)));
    }
    assert(ns.take(ns.len() as int) == ns);
    tagged_digest("uia:", out.as_str())
}

/// Readings that look alike have the same fingerprint.
pub proof fn like_readings_share_a_fingerprint(
    app_id: Seq<char>,
    title: Seq<char>,
    a: Seq<MetadataModel>,
    b: Seq<MetadataModel>,
)
    requires
        a.len() == b.len(),
        forall|i: int| 0 <= i < a.len() ==> node_text(#[trigger] a[i]) == node_text(b[i]),
    ensures
        fingerprint_model(app_id, title, a) == fingerprint_model(app_id, title, b),
{
    like_nodes(a, b);
}

/// The same for the controls.
proof fn like_nodes(a: Seq<MetadataModel>, b: Seq<MetadataModel>)
    requires
        a.len() == b.len(),
        forall|i: int| 0 <= i < a.len() ==> node_text(#[trigger] a[i]) == node_text(b[i]),
    ensures
        nodes_text(a) == nodes_text(b),
    decreases a.len(),
{
    if a.len() > 0 {
        like_nodes(a.drop_last(), b.drop_last());
        assert(node_text(a[a.len() - 1]) == node_text(b[a.len() - 1]));
    }
}

/// An element that waits to be read: its number and its depth.
#[derive(Debug, Clone, Copy, PartialEq, Eq, Structural)]
pub struct Waiting {
    pub element: u64,
    pub depth: usize,
}

/// How many of some children find room behind those that wait.
pub open spec fn room(waiting: nat, children: nat, depth: usize, capacity: nat) -> nat {
    if depth >= MAX_DEPTH || waiting >= capacity {
        0
    } else if children <= capacity - waiting {
        children
    } else {
        (capacity - waiting) as nat
    }
}

/// The queue after as many children as find room were added.
pub open spec fn queued(
    pending: Seq<Waiting>,
    children: Seq<u64>,
    depth: usize,
    capacity: nat,
) -> Seq<Waiting> {
    pending + Seq::new(
        room(pending.len(), children.len(), depth, capacity),
        |i: int| Waiting { element: children[i], depth: (depth + 1) as usize },
    )
}

/// Adds as many children as find room, and says whether some did not.
fn enqueue_children(
    pending: &mut VecDeque<Waiting>,
    children: &Vec<u64>,
    depth: usize,
    capacity: usize,
) -> (r: bool)
    ensures
        final(pending)@ == queued(old(pending)@, children@, depth, capacity as nat),
        r == (room(old(pending)@.len(), children@.len(), depth, capacity as nat)
            < children@.len()),
{
    let ghost before = pending@;
    if depth >= MAX_DEPTH {
        assert(pending@ =~= queued(before, children@, depth, capacity as nat));
        return children.len() > 0;
    }
    let mut i: usize = 0;
    while i < children.len()
        invariant
            i <= children@.len(),
            before == old(pending)@,
            depth < MAX_DEPTH,
            i <= room(before.len(), children@.len(), depth, capacity as nat),
            pending@.len() == before.len() + i,
            pending@ == before + Seq::new(
                i as nat,
                |k: int| Waiting { element: children@[k], depth: (depth + 1) as usize },
            ),
        decreases children@.len() - i,
    {
        if pending.len() >= capacity {
            assert(pending@ =~= queued(before, children@, depth, capacity as nat));
            return true;
        }
        pending.push_back(Waiting { element: children[i], depth: depth + 1 });
        i = i + 1;
        assert(pending@ =~= before + Seq::new(
            i as nat,
            |k: int| Waiting { element: children@[k], depth: (depth + 1) as usize },
        ));
    }
    assert(pending@ =~= queued(before, children@, depth, capacity as nat));
    false
}

/// The walk that collects controls, breadth first and bounded.
pub struct Survey {
    pub limit: usize,
    /// Whether the whole window is read, so that menus stay closed.
    pub whole: bool,
    pub pending: VecDeque<Waiting>,
    pub nodes: Vec<NodeMetadata>,
    pub truncated: bool,
}

/// The content of a [`Survey`].
#[verifier::ext_equal]
pub struct SurveyModel {
    pub limit: int,
    pub whole: bool,
    pub pending: Seq<Waiting>,
    pub nodes: Seq<MetadataModel>,
    pub truncated: bool,
}

impl View for Survey {
    type V = SurveyModel;

    open spec fn view(&self) -> SurveyModel {
        SurveyModel {
            limit: self.limit as int,
            whole: self.whole,
            pending: self.pending@,
            nodes: model::seq_view(self.nodes@),
            truncated: self.truncated,
        }
    }
}

/// Whether a scope asks for the whole window.
pub open spec fn asks_for_window(scope: ScopeModel) -> bool {
    scope.subtree_id is None || scope.subtree_id == Some("@window"@)
}

/// Whether a scope asks for the whole window.
fn wants_window(scope: &ObservationScope) -> (r: bool)
    ensures
        r == asks_for_window(scope@),
{
    match &scope.subtree_id {
        None => true,
        Some(id) => same_text(id.as_str(), "@window"),
    }
}

/// Where the walk of a window begins.
#[derive(Debug, Clone, Copy, PartialEq, Eq, Structural)]
pub enum RootPlan {
    /// At an element that is known.
    At(u64),
    /// At what a search of the window finds.
    Search,
}

/// Where the walk of a window begins: at its root where the whole window is
/// asked for; at the menu that has the focus where menus are asked for and
/// there is one; else at what is searched for.
pub open spec fn root_plan(scope: ScopeModel, root: u64, menu: Option<u64>) -> RootPlan {
    if asks_for_window(scope) {
        RootPlan::At(root)
    } else {
        match menu {
            Some(m) => if scope.subtree_id == Some("@menu"@) {
                RootPlan::At(m)
            } else {
                RootPlan::Search
            },
            None => RootPlan::Search,
        }
    }
}

/// Where the walk of a window begins. `menu` is the root of the menu that has
/// the focus.
pub fn scoped_root(scope: &ObservationScope, root: u64, menu: Option<u64>) -> (r: RootPlan)
    ensures
        r == root_plan(scope@, root, menu),
{
    match &scope.subtree_id {
        None => RootPlan::At(root),
        Some(id) => if same_text(id.as_str(), "@window") {
            RootPlan::At(root)
        } else {
            match menu {
                Some(m) => if same_text(id.as_str(), "@menu") {
                    RootPlan::At(m)
                } else {
                    RootPlan::Search
                },
                None => RootPlan::Search,
            }
        },
    }
}

impl SurveyModel {
    /// The walk after the next element was asked for, and that element.
    pub open spec fn popped(self, timed_out: bool) -> (SurveyModel, Option<Waiting>) {
        if self.pending.len() == 0 {
            (self, None)
        } else if self.nodes.len() >= self.limit || timed_out {
            (SurveyModel { pending: Seq::empty(), truncated: true, ..self }, None)
        } else {
            (
                SurveyModel { pending: self.pending.drop_first(), ..self },
                Some(self.pending[0]),
            )
        }
    }

    /// The walk after an element was read; `cut` says that not all of its
    /// children could be.
    pub open spec fn visited(
        self,
        node: Option<MetadataModel>,
        depth: usize,
        children: Seq<u64>,
        cut: bool,
    ) -> SurveyModel {
        match node {
            None => SurveyModel { truncated: true, ..self },
            Some(m) => {
                let grown = SurveyModel { nodes: self.nodes.push(m), ..self };
                if self.whole && m.role == UiRole::Menu {
                    grown
                } else {
                    let capacity = (self.limit - grown.nodes.len()) as nat;
                    SurveyModel {
                        pending: queued(self.pending, children, depth, capacity),
                        truncated: self.truncated || cut || room(
                            self.pending.len(),
                            children.len(),
                            depth,
                            capacity,
                        ) < children.len(),
                        ..grown
                    }
                }
            },
        }
    }

    /// What holds of every walk: no more controls than the bound, and no more
    /// elements waiting than it leaves room for.
    pub open spec fn wf(self) -> bool {
        &&& 0 < self.limit
        &&& self.nodes.len() <= self.limit
        &&& self.pending.len() <= self.limit
    }
}

impl Survey {
    /// A walk from an element.
    pub fn begin(limit: usize, scope: &ObservationScope, root: u64) -> (r: Survey)
        requires
            limit > 0,
        ensures
            r@ == (SurveyModel {
                limit: limit as int,
                whole: asks_for_window(scope@),
                pending: seq![Waiting { element: root, depth: 0 }],
                nodes: Seq::empty(),
                truncated: false,
            }),
            r@.wf(),
    {
        let mut pending: VecDeque<Waiting> = VecDeque::new();
        pending.push_back(Waiting { element: root, depth: 0 });
        let r = Survey {
            limit,
            whole: wants_window(scope),
            pending,
            nodes: Vec::new(),
            truncated: false,
        };
        assert(r@.pending =~= seq![Waiting { element: root, depth: 0 }]);
        assert(r@.nodes =~= Seq::<MetadataModel>::empty());
        r
    }

    /// The next element to read.
    pub fn pop(&mut self, timed_out: bool) -> (r: Option<Waiting>)
        requires
            old(self)@.wf(),
        ensures
            (final(self)@, r) == old(self)@.popped(timed_out),
            final(self)@.wf(),
            r is Some ==> final(self)@.nodes.len() < final(self)@.limit,
    {
        if self.pending.len() == 0 {
            return None;
        }
        if self.nodes.len() >= self.limit || timed_out {
            self.pending = VecDeque::new();
            self.truncated = true;
            assert(self@.pending =~= Seq::<Waiting>::empty());
            return None;
        }
        let ghost before = self.pending@;
        let next = self.pending.pop_front();
        assert(self.pending@ =~= before.drop_first());
        next
    }

    /// Takes an element in.
    pub fn visit(
        &mut self,
        node: Option<NodeMetadata>,
        depth: usize,
        children: &Vec<u64>,
        cut: bool,
    )
        requires
            old(self)@.wf(),
            old(self)@.nodes.len() < old(self)@.limit,
        ensures
            final(self)@ == old(self)@.visited(model::opt_view(node), depth, children@, cut),
            final(self)@.wf(),
    {
        match node {
            None => {
                self.truncated = true;
            },
            Some(m) => {
                let menu = m.role == UiRole::Menu;
                let ghost before = self.nodes@;
                self.nodes.push(m);
                assert(model::seq_view(self.nodes@) == model::seq_view(before).push(m@));
                if !(self.whole && menu) {
                    let capacity: usize = self.limit - self.nodes.len();
                    let left_out = enqueue_children(&mut self.pending, children, depth, capacity);
                    self.truncated = self.truncated || cut || left_out;
                }
            },
        }
    }

    /// The reading that a walk ends in, with its root where a region was asked
    /// for. A walk that ran out of time, or found nothing, ends in an error.
    pub fn finish(
        self,
        facts: &WindowFacts,
        scope: &ObservationScope,
        timed_out: bool,
    ) -> (r: Result<Snapshot, AutomationError>)
        ensures
            match r {
                Ok(s) => {
                    &&& self@.nodes.len() > 0 && !timed_out
                    &&& s@ == (SnapshotModel {
                        app: app_model(*facts),
                        window: window_model(*facts),
                        nodes: self@.nodes,
                        fingerprint: fingerprint_model(
                            app_model(*facts).id,
                            window_model(*facts).title,
                            self@.nodes,
                        ),
                        truncated: self@.truncated,
                        stable_window_id: stable_id_model(*facts),
                        scope: scope@,
                        scope_root: if asks_for_window(scope@) {
                            None
                        } else {
                            Some(self@.nodes[0])
                        },
                    })
                },
                Err(e) => (self@.nodes.len() == 0 || timed_out) && e@ == (
                    ErrorKind::Observation,
                    "UIA observation exceeded its time budget"@,
                ),
            },
    {
        if self.nodes.len() == 0 || timed_out {
            return Err(
                AutomationError::observation("UIA observation exceeded its time budget"),
            );
        }
        let (app, window, stable_window_id) = identify(facts);
        let fingerprint = fingerprint(app.id.as_str(), window.title.as_str(), &self.nodes);
        let scope_root = if wants_window(scope) {
            None
        } else {
            Some(self.nodes[0].copied())
        };
        Ok(
            Snapshot {
                app,
                window,
                nodes: self.nodes,
                fingerprint,
                truncated: self.truncated,
                stable_window_id,
                scope: scope.copied(),
                scope_root,
            },
        )
    }
}

/// A walk never holds more controls than its bound.
pub proof fn survey_is_bounded(
    s: SurveyModel,
    node: Option<MetadataModel>,
    depth: usize,
    children: Seq<u64>,
    cut: bool,
    timed_out: bool,
)
    requires
        s.wf(),
    ensures
        s.popped(timed_out).0.wf(),
        s.nodes.len() < s.limit ==> s.visited(node, depth, children, cut).wf(),
{
}

/// The search for the root of a region, breadth first and bounded.
pub struct Search {
    /// The region that is looked for; none where any open menu will do.
    pub region: Option<NodeMetadata>,
    pub pending: VecDeque<Waiting>,
    pub inspected: usize,
    pub selected: Option<u64>,
    pub truncated: bool,
    pub ambiguous: bool,
}

/// The content of a [`Search`].
#[verifier::ext_equal]
pub struct SearchModel {
    pub region: Option<MetadataModel>,
    pub pending: Seq<Waiting>,
    pub inspected: int,
    pub selected: Option<u64>,
    pub truncated: bool,
    pub ambiguous: bool,
}

impl View for Search {
    type V = SearchModel;

    open spec fn view(&self) -> SearchModel {
        SearchModel {
            region: model::opt_view(self.region),
            pending: self.pending@,
            inspected: self.inspected as int,
            selected: self.selected,
            truncated: self.truncated,
            ambiguous: self.ambiguous,
        }
    }
}

impl SearchModel {
    /// Whether a control is what is looked for.
    pub open spec fn fits(self, node: Option<MetadataModel>) -> bool {
        match node {
            None => false,
            Some(m) => match self.region {
                Some(region) => same_container_model(m, region),
                None => m.role == UiRole::Menu && m.visible,
            },
        }
    }

    /// The search after the next element was asked for, and that element.
    pub open spec fn popped(self, timed_out: bool) -> (SearchModel, Option<Waiting>) {
        if self.pending.len() == 0 {
            (self, None)
        } else if timed_out || self.inspected >= SEARCH_LIMIT {
            (SearchModel { pending: Seq::empty(), truncated: true, ..self }, None)
        } else {
            (
                SearchModel { pending: self.pending.drop_first(), ..self },
                Some(self.pending[0]),
            )
        }
    }

    /// The search after an element that was not seen before was read. A second
    /// fit makes the region ambiguous; the first open menu ends the search.
    pub open spec fn visited(
        self,
        next: Waiting,
        node: Option<MetadataModel>,
        children: Seq<u64>,
        cut: bool,
    ) -> SearchModel {
        let counted = SearchModel { inspected: self.inspected + 1, ..self };
        let capacity = (SEARCH_LIMIT - counted.inspected) as nat;
        let deeper = SearchModel {
            pending: queued(self.pending, children, next.depth, capacity),
            truncated: self.truncated || cut || room(
                self.pending.len(),
                children.len(),
                next.depth,
                capacity,
            ) < children.len(),
            ..counted
        };
        if !self.fits(node) {
            deeper
        } else if self.selected is Some {
            SearchModel { ambiguous: true, pending: Seq::empty(), ..counted }
        } else if self.region is None {
            SearchModel { selected: Some(next.element), pending: Seq::empty(), ..counted }
        } else {
            SearchModel { selected: Some(next.element), ..deeper }
        }
    }

    /// What the search found.
    pub open spec fn result(self) -> Result<u64, (ErrorKind, Seq<char>)> {
        if self.ambiguous {
            Err(
                (
                    ErrorKind::Observation,
                    "Requested UIA subtree is ambiguous; observe a distinct named container"@,
                ),
            )
        } else if self.region is Some && self.truncated {
            Err(
                (
                    ErrorKind::Observation,
                    "Could not uniquely locate the UIA subtree within the observation budget"@,
                ),
            )
        } else {
            match self.selected {
                Some(element) => Ok(element),
                None => Err(
                    (
                        ErrorKind::Observation,
                        "Requested UIA subtree is unavailable within the bounded tree; observe @window again"@,
                    ),
                ),
            }
        }
    }
}

impl Search {
    /// A search from the window's root and, where there is one, the menu that
    /// has the focus.
    pub fn begin(region: Option<NodeMetadata>, root: u64, menu: Option<u64>) -> (r: Search)
        ensures
            r@ == (SearchModel {
                region: model::opt_view(region),
                pending: match menu {
                    Some(m) => seq![
                        Waiting { element: root, depth: 0 },
                        Waiting { element: m, depth: 0 },
                    ],
                    None => seq![Waiting { element: root, depth: 0 }],
                },
                inspected: 0,
                selected: None,
                truncated: false,
                ambiguous: false,
            }),
    {
        let mut pending: VecDeque<Waiting> = VecDeque::new();
        pending.push_back(Waiting { element: root, depth: 0 });
        match menu {
            Some(m) => {
                pending.push_back(Waiting { element: m, depth: 0 });
                assert(pending@ =~= seq![
                    Waiting { element: root, depth: 0 },
                    Waiting { element: m, depth: 0 },
                ]);
            },
            None => {
                assert(pending@ =~= seq![Waiting { element: root, depth: 0 }]);
            },
        }
        Search {
            region,
            pending,
            inspected: 0,
            selected: None,
            truncated: false,
            ambiguous: false,
        }
    }

    /// The next element to read.
    pub fn pop(&mut self, timed_out: bool) -> (r: Option<Waiting>)
        ensures
            (final(self)@, r) == old(self)@.popped(timed_out),
            r is Some ==> final(self)@.inspected < SEARCH_LIMIT,
    {
        if self.pending.len() == 0 {
            return None;
        }
        if timed_out || self.inspected >= SEARCH_LIMIT {
            self.pending = VecDeque::new();
            self.truncated = true;
            assert(self@.pending =~= Seq::<Waiting>::empty());
            return None;
        }
        let ghost before = self.pending@;
        let next = self.pending.pop_front();
        assert(self.pending@ =~= before.drop_first());
        next
    }

    /// Takes in an element that was not seen before.
    pub fn visit(&mut self, next: Waiting, node: &Option<NodeMetadata>, children: &Vec<u64>, cut: bool)
        requires
            old(self)@.inspected < SEARCH_LIMIT,
        ensures
            final(self)@ == old(self)@.visited(next, model::opt_view(*node), children@, cut),
    {
        let fits = match node {
            None => false,
            Some(m) => match &self.region {
                Some(region) => same_container(m, region),
                None => m.role == UiRole::Menu && m.visible,
            },
        };
        assert(fits == self@.fits(model::opt_view(*node)));
        self.inspected = self.inspected + 1;
        if fits {
            if self.selected.is_some() {
                self.ambiguous = true;
                self.pending = VecDeque::new();
                assert(self@.pending =~= Seq::<Waiting>::empty());
                return ;
            }
            self.selected = Some(next.element);
            if self.region.is_none() {
                self.pending = VecDeque::new();
                assert(self@.pending =~= Seq::<Waiting>::empty());
                return ;
            }
        }
        let left_out = enqueue_children(
            &mut self.pending,
            children,
            next.depth,
            SEARCH_LIMIT - self.inspected,
        );
        self.truncated = self.truncated || cut || left_out;
    }

    /// What the search found.
    pub fn finish(&self) -> (r: Result<u64, AutomationError>)
        ensures
            match r {
                Ok(e) => self@.result() == Ok::<u64, (ErrorKind, Seq<char>)>(e),
                Err(e) => self@.result() == Err::<u64, (ErrorKind, Seq<char>)>(e@),
            },
    {
        if self.ambiguous {
            return Err(
                AutomationError::observation(
                    "Requested UIA subtree is ambiguous; observe a distinct named container",
                ),
            );
        }
        if self.region.is_some() && self.truncated {
            return Err(
                AutomationError::observation(
                    "Could not uniquely locate the UIA subtree within the observation budget",
                ),
            );
        }
        match self.selected {
            Some(element) => Ok(element),
            None => Err(
                AutomationError::observation(
                    "Requested UIA subtree is unavailable within the bounded tree; observe @window again",
                ),
            ),
        }
    }
}

/// How many ancestors are looked at.
pub const MAX_ANCESTORS: usize = 8;

/// The ancestors that say something, from the outermost in; they are given
/// from the nearest out.
pub open spec fn chain_of(nearest: Seq<Option<ContextModel>>) -> Seq<ContextModel>
    decreases nearest.len(),
{
    if nearest.len() == 0 {
        Seq::empty()
    } else {
        match nearest.last() {
            Some(c) => seq![c] + chain_of(nearest.drop_last()),
            None => chain_of(nearest.drop_last()),
        }
    }
}

/// The views of ancestors, those that say nothing among them.
pub open spec fn ancestor_views(s: Seq<Option<SemanticContext>>) -> Seq<Option<ContextModel>> {
    Seq::new(s.len(), |i: int| model::opt_view(s[i]))
}

/// The nearest ancestors that are looked at.
pub open spec fn looked_at(s: Seq<Option<ContextModel>>) -> Seq<Option<ContextModel>> {
    if s.len() > MAX_ANCESTORS {
        s.take(MAX_ANCESTORS as int)
    } else {
        s
    }
}

/// The chain of ancestors of an element, from the outermost in. They are given
/// from the nearest out, up to the root; only the nearest count.
pub fn semantic_ancestor_chain(nearest: &Vec<Option<SemanticContext>>) -> (r: Vec<
    SemanticContext,
>)
    ensures
        model::seq_view(r@) == chain_of(looked_at(ancestor_views(nearest@))),
{
    let ghost s = looked_at(ancestor_views(nearest@));
    let mut n: usize = if nearest.len() > MAX_ANCESTORS {
        MAX_ANCESTORS
    } else {
        nearest.len()
    };
    let mut out: Vec<SemanticContext> = Vec::new();
    assert(s.take(n as int) == s);
    assert(model::seq_view(out@) + chain_of(s) =~= chain_of(s));
    while n > 0
        invariant
            n <= nearest@.len(),
            n <= s.len(),
            s == looked_at(ancestor_views(nearest@)),
            model::seq_view(out@) + chain_of(s.take(n as int)) == chain_of(s),
        decreases n,
    {
        proof {
            assert(s.take(n as int).drop_last() == s.take(n - 1));
            assert(s.take(n as int).last() == model::opt_view(nearest@[n - 1]));
        }
        let ghost before = out@;
        match &nearest[n - 1] {
            Some(c) => {
                let item = c.copied();
                out.push(item);
                proof {
                    assert(model::seq_view(out@) =~= model::seq_view(before).push(item@));
                    assert(model::seq_view(out@) + chain_of(s.take(n - 1))
                        =~= model::seq_view(before) + (seq![c@] + chain_of(s.take(n - 1))));
                }
            },
            None => {},
        }
        n = n - 1;
    }
    assert(s.take(0) =~= Seq::empty());
    assert(model::seq_view(out@) + Seq::<ContextModel>::empty() =~= model::seq_view(out@));
    out
}

/// How many controls above the focused one are looked at.
pub const CLIMB_LIMIT: usize = 24;

/// A control that was reached: its handle, and its process where it is known.
#[derive(Debug, Clone, Copy, PartialEq, Eq, Structural)]
pub struct Reached {
    pub handle: u64,
    pub process: Option<i32>,
}

/// The way from the focused control up to the menu that it stands in.
#[derive(Debug, Clone, Copy, PartialEq, Eq, Structural)]
pub struct MenuClimb {
    /// The process whose controls are looked at.
    pub process: i32,
    /// The control that is looked at.
    pub at: u64,
    /// The outermost menu so far.
    pub menu: Option<u64>,
    /// How many controls may still be looked at.
    pub left: usize,
}

/// Whether a control type is that of a menu or a menu bar.
pub open spec fn is_menu_type(role: Option<i32>) -> bool {
    role == Some(50009i32) || role == Some(50010i32)
}

/// Whether a control belongs to a process.
pub open spec fn belongs(r: Reached, process: i32) -> bool {
    r.process == Some(process)
}

/// The climb after a control was looked at, and whether it goes on. Where the
/// time is over nothing more is looked at.
pub open spec fn climbed(
    c: MenuClimb,
    expired: bool,
    role: Option<i32>,
    parent: Option<Reached>,
) -> (MenuClimb, bool) {
    if expired || c.left == 0 {
        (c, false)
    } else {
        let seen = MenuClimb {
            menu: if is_menu_type(role) {
                Some(c.at)
            } else {
                c.menu
            },
            left: (c.left - 1) as usize,
            ..c
        };
        match parent {
            Some(p) => if belongs(p, c.process) {
                (MenuClimb { at: p.handle, ..seen }, seen.left > 0)
            } else {
                (seen, false)
            },
            None => (seen, false),
        }
    }
}

impl MenuClimb {
    /// A climb from the focused control, where it is one of the process.
    pub fn focused_menu_root(focused: Option<Reached>, process: i32) -> (r: Option<MenuClimb>)
        ensures
            r == match focused {
                Some(f) => if belongs(f, process) {
                    Some(
                        MenuClimb { process, at: f.handle, menu: None, left: CLIMB_LIMIT },
                    )
                } else {
                    None
                },
                None => None,
            },
    {
        match focused {
            Some(f) => match f.process {
                Some(p) => if p == process {
                    Some(MenuClimb { process, at: f.handle, menu: None, left: CLIMB_LIMIT })
                } else {
                    None
                },
                None => None,
            },
            None => None,
        }
    }

    /// Takes in the type of the control that was looked at, and the control
    /// above it. Says whether the climb goes on.
    pub fn advance(&mut self, expired: bool, role: Option<i32>, parent: Option<Reached>) -> (r: bool)
        ensures
            (*final(self), r) == climbed(*old(self), expired, role, parent),
    {
        if expired || self.left == 0 {
            return false;
        }
        let is_menu = match role {
            Some(n) => n == 50009 || n == 50010,
            None => false,
        };
        if is_menu {
            self.menu = Some(self.at);
        }
        self.left = self.left - 1;
        match parent {
            Some(p) => {
                let own = match p.process {
                    Some(n) => n == self.process,
                    None => false,
                };
                if own {
                    self.at = p.handle;
                }
                own && self.left > 0
            },
            None => false,
        }
    }
}

/// A climb ends, and the menu that it found is the last that it looked at: a
/// control that is no menu leaves it as it was.
pub proof fn climb_is_bounded(
    c: MenuClimb,
    expired: bool,
    role: Option<i32>,
    parent: Option<Reached>,
)
    ensures
        climbed(c, expired, role, parent).1 ==> climbed(c, expired, role, parent).0.left < c.left,
        !is_menu_type(role) ==> climbed(c, expired, role, parent).0.menu == c.menu,
        is_menu_type(role) && !expired && c.left > 0 ==> climbed(
            c,
            expired,
            role,
            parent,
        ).0.menu == Some(c.at),
{
}

/// The control types of the platform and the roles that they stand for.
pub proof fn control_types_are_known(t: i32)
    ensures
        role_model(t) == UiRole::Button <==> t == 50000,
        role_model(t) == UiRole::CheckBox <==> t == 50002,
        role_model(t) == UiRole::TextField <==> t == 50004,
        role_model(t) == UiRole::ListItem <==> t == 50007,
        role_model(t) == UiRole::List <==> t == 50008,
        role_model(t) == UiRole::Menu <==> t == 50009 || t == 50010,
        role_model(t) == UiRole::MenuItem <==> t == 50011,
        role_model(t) == UiRole::RadioButton <==> t == 50013,
        role_model(t) == UiRole::Tab <==> t == 50018 || t == 50019,
        role_model(t) == UiRole::Document <==> t == 50030,
        role_model(t) == UiRole::Window <==> t == 50032,
        is_menu_type(Some(t)) <==> role_model(t) == UiRole::Menu,
        !is_menu_type(None),
{
}

/// A text of a control is kept without the blanks around it, up to so many
/// characters, and one of blanks alone is none.
pub proof fn texts_are_kept_without_blanks(s: Seq<char>, n: nat)
    ensures
        element_text_model(None, n) is None,
        text::all_white(text::clipped(s, n)) <==> element_text_model(Some(s), n) is None,
        element_text_model(Some(s), n) matches Some(t) ==> t == text::trimmed(text::clipped(s, n))
            && t.len() > 0 && t.len() <= n,
        s.len() <= n && !text::all_white(s) ==> element_text_model(Some(s), n) == Some(
            text::trimmed(s),
        ),
{
    text::blank_texts_hold_only_blanks(text::clipped(s, n));
    text::cutting_keeps_the_start(s, n);
    let p = text::trimming_takes_only_blanks(text::clipped(s, n));
}

/// An application is known by its program: windows of one program are of one
/// application, whatever their class or title; and the id of a window that is
/// kept does not change with its handle, its process's number or its title.
pub proof fn application_is_its_program(f: WindowFacts, g: WindowFacts)
    requires
        f.process_path is Some,
        g.process_path is Some,
        f.process_path->Some_0@ == g.process_path->Some_0@,
        text::lowercased(f.process_path->Some_0@).len() > 0,
    ensures
        app_model(f).id == app_model(g).id,
        f.class@ == g.class@ && model::opt_view(f.root_automation_id) == model::opt_view(
            g.root_automation_id,
        ) ==> stable_id_model(f) == stable_id_model(g),
        app_model(f).id == hashing::tagged(
            "windows-app:"@,
            "process|"@ + text::lowercased(f.process_path->Some_0@),
        ),
{
}

/// An application without a known program is known by its framework and the class
/// of its window.
pub proof fn unknown_program_is_known_by_its_window(framework: Option<Seq<char>>, class: Seq<char>)
    ensures
        framework matches Some(s) ==> identity_seed(framework, class, Seq::empty())
            == "fallback|"@ + s + "|"@ + text::lowercased(class),
        framework is None ==> identity_seed(framework, class, Seq::empty()) == "fallback|"@
            + "win32"@ + "|"@ + text::lowercased(class),
{
}

/// A window is titled by its title, else by the name of its root; its application
/// is named by the root, else by the title, else by the class.
pub proof fn windows_have_names(f: WindowFacts)
    ensures
        ({
            let root = element_text_model(model::opt_view(f.root_name), 128);
            let title = nonempty_text(f.title@);
            let class = nonempty_text(text::clipped(f.class@, 128));
            &&& title matches Some(t) ==> window_model(f).title == t
            &&& title is None && root is Some ==> window_model(f).title == root->Some_0
            &&& title is None && root is None ==> window_model(f).title == "Untitled"@
            &&& root matches Some(t) ==> app_model(f).display_name == t
            &&& root is None && title is Some ==> app_model(f).display_name == title->Some_0
            &&& root is None && title is None && class is Some ==> app_model(f).display_name
                == class->Some_0
            &&& root is None && title is None && class is None ==> app_model(f).display_name
                == "Windows application"@
            &&& window_model(f).id == hashing::tagged(
                "windows-live:"@,
                stable_id_model(f) + "|"@ + text::signed_text(f.hwnd as int) + "|"@
                    + text::decimal_text(f.pid as nat),
            )
            &&& stable_id_model(f) == hashing::tagged(
                "windows-window:"@,
                app_model(f).id + "|"@ + text::clipped(f.class@, 128) + "|"@ + or_text(
                    element_text_model(model::opt_view(f.root_automation_id), 256),
                    Seq::empty(),
                ),
            )
        }),
{
}

/// What a control can be made to do follows from what the platform says of it.
pub proof fn actions_follow_from_the_control(f: ElementFacts)
    ensures
        actions_model(f).contains(NativeAction::Invoke) <==> f.invoke,
        actions_model(f).contains(NativeAction::Toggle) <==> f.toggle is Some,
        actions_model(f).contains(NativeAction::Select) <==> f.selection is Some,
        actions_model(f).contains(NativeAction::Collapse) <==> f.expand == Some(Some(true))
            || f.expand == Some(None::<bool>),
        actions_model(f).contains(NativeAction::Expand) <==> f.expand == Some(Some(false))
            || f.expand == Some(None::<bool>),
        actions_model(f).contains(NativeAction::SetValue) <==> f.value_read_only == Some(
            Some(false),
        ) && f.password != Some(true),
        actions_model(f).contains(NativeAction::Focus) <==> f.focusable == Some(true),
{
    let p = only_if(f.invoke, NativeAction::Invoke);
    let t = only_if(f.toggle is Some, NativeAction::Toggle);
    let s = only_if(f.selection is Some, NativeAction::Select);
    let e: Seq<NativeAction> = match f.expand {
        Some(Some(true)) => seq![NativeAction::Collapse],
        Some(Some(false)) => seq![NativeAction::Expand],
        Some(None) => seq![NativeAction::Expand, NativeAction::Collapse],
        None => Seq::empty(),
    };
    let v = only_if(
        f.value_read_only == Some(Some(false)) && !flag(f.password, false),
        NativeAction::SetValue,
    );
    let c = only_if(flag(f.focusable, false), NativeAction::Focus);
    assert(actions_model(f) == p + t + s + e + v + c);
    held_by_one_of(p, t, s, e, v, c);
    held_where_it_is(f.invoke, NativeAction::Invoke);
    held_where_it_is(f.toggle is Some, NativeAction::Toggle);
    held_where_it_is(f.selection is Some, NativeAction::Select);
    held_where_it_is(
        f.value_read_only == Some(Some(false)) && !flag(f.password, false),
        NativeAction::SetValue,
    );
    held_where_it_is(flag(f.focusable, false), NativeAction::Focus);
    match f.expand {
        Some(Some(true)) => {
            assert(e[0] == NativeAction::Collapse);
        },
        Some(Some(false)) => {
            assert(e[0] == NativeAction::Expand);
        },
        Some(None) => {
            assert(e[0] == NativeAction::Expand && e[1] == NativeAction::Collapse);
        },
        None => {},
    }
    assert(forall|a: NativeAction| #[trigger]
        e.contains(a) ==> a == NativeAction::Expand || a == NativeAction::Collapse);
}

/// Two lists together hold what either holds.
proof fn held_by_either(a: Seq<NativeAction>, b: Seq<NativeAction>)
    ensures
        forall|x: NativeAction| #[trigger] (a + b).contains(x) <==> a.contains(x) || b.contains(x),
{
    assert forall|x: NativeAction| #[trigger] (a + b).contains(x) <==> a.contains(x) || b.contains(
        x,
    ) by {
        if a.contains(x) {
            let i = choose|i: int| 0 <= i < a.len() && a[i] == x;
            assert((a + b)[i] == x);
        }
        if b.contains(x) {
            let i = choose|i: int| 0 <= i < b.len() && b[i] == x;
            assert((a + b)[a.len() + i] == x);
        }
    }
}

/// Six lists together hold what one of them holds.
proof fn held_by_one_of(
    p: Seq<NativeAction>,
    t: Seq<NativeAction>,
    s: Seq<NativeAction>,
    e: Seq<NativeAction>,
    v: Seq<NativeAction>,
    c: Seq<NativeAction>,
)
    ensures
        forall|x: NativeAction| #[trigger]
            (p + t + s + e + v + c).contains(x) <==> p.contains(x) || t.contains(x) || s.contains(x)
                || e.contains(x) || v.contains(x) || c.contains(x),
{
    let l1 = p + t;
    held_by_either(p, t);
    let l2 = l1 + s;
    held_by_either(l1, s);
    let l3 = l2 + e;
    held_by_either(l2, e);
    let l4 = l3 + v;
    held_by_either(l3, v);
    held_by_either(l4, c);
}

/// What is listed only if something holds.
proof fn held_where_it_is(yes: bool, action: NativeAction)
    ensures
        forall|x: NativeAction| #[trigger] only_if(yes, action).contains(x) <==> yes && x == action,
{
    if yes {
        assert(only_if(yes, action)[0] == action);
    }
}

/// A control is read as the platform tells it: what was not told counts as
/// disabled, unseen, without the focus and open; a value leaves its digest only,
/// and only where it is not secret.
pub proof fn control_is_read_as_it_is(f: ElementFacts, index: nat, chain: Seq<ContextModel>)
    ensures
        ({
            let m = node_model(f, index, chain);
            &&& m.role == role_model(f.control_type)
            &&& m.name == element_text_model(model::opt_view(f.name), 256)
            &&& m.automation_id == element_text_model(model::opt_view(f.automation_id), 256)
            &&& m.enabled <==> f.enabled == Some(true)
            &&& m.visible <==> f.offscreen == Some(false)
            &&& m.focused <==> f.focused == Some(true)
            &&& m.secure <==> f.password == Some(true)
            &&& m.toggled == (if f.toggle is Some { f.toggle->Some_0 } else { None })
            &&& m.selected == (if f.selection is Some { f.selection->Some_0 } else { None })
            &&& m.expanded == (if f.expand is Some { f.expand->Some_0 } else { None })
            &&& m.ancestor_chain == chain
            &&& m.supported_actions == actions_model(f)
            &&& m.value_fingerprint is Some <==> f.value is Some && f.value_read_only is Some
                && f.password != Some(true)
            &&& m.value_fingerprint is Some ==> m.value_fingerprint == Some(
                hashing::digest(f.value->Some_0@),
            )
            &&& m.opaque_id == hashing::tagged(
                "uie:"@,
                m.role.label() + "|"@ + or_text(m.name, Seq::empty()) + "|"@ + or_text(
                    m.automation_id,
                    Seq::empty(),
                ) + "|"@ + chain_text(chain),
            ) + ":"@ + text::decimal_text(index)
        }),
{
}

/// A control stands in the context of others where it has a name or an id, or is
/// of a role that gives structure.
pub proof fn context_is_what_can_be_told(t: Option<i32>, id: Option<Seq<char>>, name: Option<Seq<char>>)
    ensures
        ({
            let c = context_model(t, id, name);
            &&& c is Some <==> element_text_model(id, 256) is Some || element_text_model(
                name,
                256,
            ) is Some || (t is Some && (role_model(t->Some_0) == UiRole::List || role_model(
                t->Some_0,
            ) == UiRole::ListItem || role_model(t->Some_0) == UiRole::Menu || role_model(
                t->Some_0,
            ) == UiRole::MenuItem || role_model(t->Some_0) == UiRole::Tab || role_model(t->Some_0)
                == UiRole::Document))
            &&& c is Some ==> c->Some_0.automation_id == element_text_model(id, 256)
            &&& c is Some ==> c->Some_0.accessible_name == element_text_model(name, 256)
            &&& c is Some && t is Some ==> c->Some_0.role == Some(role_model(t->Some_0))
            &&& c is Some && t is None ==> c->Some_0.role is None
        }),
{
}

/// A framed text can be told from what follows it.
pub proof fn framed_texts_are_told_apart(a: Seq<char>, x: Seq<char>, b: Seq<char>, y: Seq<char>)
    requires
        framed(a) + x == framed(b) + y,
    ensures
        a == b,
        x == y,
{
    reveal_strlit(":");
    let da = text::decimal_text(a.len());
    let db = text::decimal_text(b.len());
    text::number_in_digits_is_read_back(a.len());
    text::number_in_digits_is_read_back(b.len());
    let w = framed(a) + x;
    let v = framed(b) + y;
    assert(w[da.len() as int] == ':');
    assert(v[db.len() as int] == ':');
    if da.len() < db.len() {
        assert(v[da.len() as int] == db[da.len() as int]);
        assert(false);
    }
    if db.len() < da.len() {
        assert(w[db.len() as int] == da[db.len() as int]);
        assert(false);
    }
    assert(w.take(da.len() as int) =~= da);
    assert(v.take(db.len() as int) =~= db);
    let n = da.len() + 1;
    assert(w.subrange(n as int, (n + a.len()) as int) =~= a);
    assert(v.subrange(n as int, (n + b.len()) as int) =~= b);
    assert(w.skip((n + a.len()) as int) =~= x);
    assert(v.skip((n + b.len()) as int) =~= y);
}

/// A framed text that may be missing can be told from what follows it.
proof fn framed_options_are_told_apart(
    a: Option<Seq<char>>,
    x: Seq<char>,
    b: Option<Seq<char>>,
    y: Seq<char>,
)
    requires
        framed_opt(a) + x == framed_opt(b) + y,
    ensures
        a == b,
        x == y,
{
    reveal_strlit("+");
    reveal_strlit("-");
    let w = framed_opt(a) + x;
    let v = framed_opt(b) + y;
    assert(w[0] == v[0]);
    match (a, b) {
        (Some(s), Some(t)) => {
            assert(w.skip(1) =~= framed(s) + x);
            assert(v.skip(1) =~= framed(t) + y);
            framed_texts_are_told_apart(s, x, t, y);
        },
        (None, None) => {
            assert(w.skip(1) =~= x);
            assert(v.skip(1) =~= y);
        },
        (Some(s), None) => {
            assert(w[0] == '+');
            assert(v[0] == '-');
        },
        (None, Some(t)) => {
            assert(w[0] == '-');
            assert(v[0] == '+');
        },
    }
}

/// A flag can be told from what follows it.
proof fn flags_are_told_apart(a: Option<bool>, x: Seq<char>, b: Option<bool>, y: Seq<char>)
    requires
        opt_flag_text(a) + x == opt_flag_text(b) + y,
    ensures
        a == b,
        x == y,
{
    reveal_strlit("1");
    reveal_strlit("0");
    reveal_strlit("-");
    let w = opt_flag_text(a) + x;
    let v = opt_flag_text(b) + y;
    assert(w[0] == opt_flag_text(a)[0]);
    assert(v[0] == opt_flag_text(b)[0]);
    assert(w.skip(1) =~= x);
    assert(v.skip(1) =~= y);
}

/// Three texts joined from either end.
proof fn added_alike(a: Seq<char>, b: Seq<char>, c: Seq<char>)
    ensures
        a + b + c == a + (b + c),
{
    assert(a + b + c =~= a + (b + c));
}

/// The text of a control with what follows it, from its beginning.
proof fn text_opens(m: MetadataModel, x: Seq<char>)
    ensures
        ({
            let v: Option<Seq<char>> = match m.value_fingerprint {
                Some(v) => Some(text::hex_text(v as nat, 16)),
                None => None,
            };
            node_text(m) + x == framed(m.role.label()) + (framed_opt(m.name) + (framed_opt(m.automation_id) + (flag_text(m.enabled) + (flag_text(m.visible) + (flag_text(m.focused) + (flag_text(m.secure) + (framed_opt(v) + (opt_flag_text(m.toggled) + (opt_flag_text(m.selected) + (opt_flag_text(m.expanded) + (framed(action_names(m.supported_actions)) + x)))))))))))
        }),
{
    let v: Option<Seq<char>> = match m.value_fingerprint {
        Some(v) => Some(text::hex_text(v as nat, 16)),
        None => None,
    };
    let t0 = framed(m.role.label());
    let t1 = framed_opt(m.name);
    let t2 = framed_opt(m.automation_id);
    let t3 = flag_text(m.enabled);
    let t4 = flag_text(m.visible);
    let t5 = flag_text(m.focused);
    let t6 = flag_text(m.secure);
    let t7 = framed_opt(v);
    let t8 = opt_flag_text(m.toggled);
    let t9 = opt_flag_text(m.selected);
    let t10 = opt_flag_text(m.expanded);
    let t11 = framed(action_names(m.supported_actions));
    let r11 = t11 + x;
    let r10 = t10 + r11;
    let r9 = t9 + r10;
    let r8 = t8 + r9;
    let r7 = t7 + r8;
    let r6 = t6 + r7;
    let r5 = t5 + r6;
    let r4 = t4 + r5;
    let r3 = t3 + r4;
    let r2 = t2 + r3;
    let r1 = t1 + r2;
    let r0 = t0 + r1;
    let l0 = t0;
    let l1 = l0 + t1;
    let l2 = l1 + t2;
    let l3 = l2 + t3;
    let l4 = l3 + t4;
    let l5 = l4 + t5;
    let l6 = l5 + t6;
    let l7 = l6 + t7;
    let l8 = l7 + t8;
    let l9 = l8 + t9;
    let l10 = l9 + t10;
    let l11 = l10 + t11;
    added_alike(l10, t11, x);
    added_alike(l9, t10, r11);
    added_alike(l8, t9, r10);
    added_alike(l7, t8, r9);
    added_alike(l6, t7, r8);
    added_alike(l5, t6, r7);
    added_alike(l4, t5, r6);
    added_alike(l3, t4, r5);
    added_alike(l2, t3, r4);
    added_alike(l1, t2, r3);
    added_alike(l0, t1, r2);
    assert(node_text(m) == l11);
}

/// The fingerprint's text of a control tells everything that can change in it:
/// two controls with the same text have the same role name, name, id, flags,
/// digest, states and actions.
pub proof fn readings_are_told_apart(a: MetadataModel, x: Seq<char>, b: MetadataModel, y: Seq<char>)
    requires
        node_text(a) + x == node_text(b) + y,
    ensures
        a.role.label() == b.role.label(),
        a.name == b.name,
        a.automation_id == b.automation_id,
        a.enabled == b.enabled,
        a.visible == b.visible,
        a.focused == b.focused,
        a.secure == b.secure,
        a.value_fingerprint is Some <==> b.value_fingerprint is Some,
        a.value_fingerprint is Some && b.value_fingerprint is Some ==> text::hex_text(
            a.value_fingerprint->Some_0 as nat,
            16,
        ) == text::hex_text(b.value_fingerprint->Some_0 as nat, 16),
        a.toggled == b.toggled,
        a.selected == b.selected,
        a.expanded == b.expanded,
        action_names(a.supported_actions) == action_names(b.supported_actions),
        x == y,
{
    let (a11, b11) = (
        framed(action_names(a.supported_actions)) + x,
        framed(action_names(b.supported_actions)) + y,
    );
    let (a10, b10) = (opt_flag_text(a.expanded) + a11, opt_flag_text(b.expanded) + b11);
    let (a9, b9) = (opt_flag_text(a.selected) + a10, opt_flag_text(b.selected) + b10);
    let (a8, b8) = (opt_flag_text(a.toggled) + a9, opt_flag_text(b.toggled) + b9);
    let va: Option<Seq<char>> = match a.value_fingerprint {
        Some(v) => Some(text::hex_text(v as nat, 16)),
        None => None,
    };
    let vb: Option<Seq<char>> = match b.value_fingerprint {
        Some(v) => Some(text::hex_text(v as nat, 16)),
        None => None,
    };
    let (a7, b7) = (framed_opt(va) + a8, framed_opt(vb) + b8);
    let (a6, b6) = (flag_text(a.secure) + a7, flag_text(b.secure) + b7);
    let (a5, b5) = (flag_text(a.focused) + a6, flag_text(b.focused) + b6);
    let (a4, b4) = (flag_text(a.visible) + a5, flag_text(b.visible) + b5);
    let (a3, b3) = (flag_text(a.enabled) + a4, flag_text(b.enabled) + b4);
    let (a2, b2) = (framed_opt(a.automation_id) + a3, framed_opt(b.automation_id) + b3);
    let (a1, b1) = (framed_opt(a.name) + a2, framed_opt(b.name) + b2);
    text_opens(a, x);
    text_opens(b, y);
    assert(node_text(a) + x == framed(a.role.label()) + a1);
    assert(node_text(b) + y == framed(b.role.label()) + b1);
    framed_texts_are_told_apart(a.role.label(), a1, b.role.label(), b1);
    framed_options_are_told_apart(a.name, a2, b.name, b2);
    framed_options_are_told_apart(a.automation_id, a3, b.automation_id, b3);
    flags_are_told_apart(Some(a.enabled), a4, Some(b.enabled), b4);
    flags_are_told_apart(Some(a.visible), a5, Some(b.visible), b5);
    flags_are_told_apart(Some(a.focused), a6, Some(b.focused), b6);
    flags_are_told_apart(Some(a.secure), a7, Some(b.secure), b7);
    framed_options_are_told_apart(va, a8, vb, b8);
    flags_are_told_apart(a.toggled, a9, b.toggled, b9);
    flags_are_told_apart(a.selected, a10, b.selected, b10);
    flags_are_told_apart(a.expanded, a11, b.expanded, b11);
    framed_texts_are_told_apart(
        action_names(a.supported_actions),
        x,
        action_names(b.supported_actions),
        y,
    );
}

/// The texts of two lists of controls, or of actions, stand one after the other,
/// and nothing is left out.
pub proof fn texts_of_lists_are_joined(
    a: Seq<MetadataModel>,
    b: Seq<MetadataModel>,
    m: MetadataModel,
    p: Seq<NativeAction>,
    q: Seq<NativeAction>,
    action: NativeAction,
)
    ensures
        nodes_text(a + b) == nodes_text(a) + nodes_text(b),
        nodes_text(seq![m]) == node_text(m),
        action_names(p + q) == action_names(p) + action_names(q),
        action_names(seq![action]) == framed(action.label()),
    decreases b.len() + q.len(),
{
    assert(seq![m].drop_last() =~= Seq::<MetadataModel>::empty());
    assert(nodes_text(seq![m].drop_last()) =~= Seq::<char>::empty());
    assert(nodes_text(seq![m]) =~= node_text(m));
    assert(seq![action].drop_last() =~= Seq::<NativeAction>::empty());
    assert(action_names(seq![action].drop_last()) =~= Seq::<char>::empty());
    assert(action_names(seq![action]) =~= framed(action.label()));
    if b.len() == 0 {
        assert(a + b =~= a);
        assert(nodes_text(a) + nodes_text(b) =~= nodes_text(a));
    } else {
        texts_of_lists_are_joined(a, b.drop_last(), m, p, q, action);
        assert((a + b).last() == b.last());
        assert((a + b).drop_last() =~= a + b.drop_last());
        assert(nodes_text(a + b) =~= nodes_text(a) + nodes_text(b));
    }
    if q.len() == 0 {
        assert(p + q =~= p);
        assert(action_names(p) + action_names(q) =~= action_names(p));
    } else {
        texts_of_lists_are_joined(a, b, m, p, q.drop_last(), action);
        assert((p + q).last() == q.last());
        assert((p + q).drop_last() =~= p + q.drop_last());
        assert(action_names(p + q) =~= action_names(p) + action_names(q));
    }
}

/// A fingerprint is of the application, the title and all the controls.
pub proof fn fingerprint_is_of_the_whole_reading(
    app_id: Seq<char>,
    title: Seq<char>,
    nodes: Seq<MetadataModel>,
)
    ensures
        fingerprint_model(app_id, title, nodes) == hashing::tagged(
            "uia:"@,
            framed(app_id) + framed(title) + nodes_text(nodes),
        ),
{
}

/// The children of a control wait behind those that wait already, in their
/// order, one level deeper, as many as there is room for; below the deepest
/// level none does.
pub proof fn children_wait_in_order(
    pending: Seq<Waiting>,
    children: Seq<u64>,
    depth: usize,
    capacity: nat,
    i: int,
)
    requires
        pending.len() <= capacity,
        depth < usize::MAX,
    ensures
        ({
            let all = queued(pending, children, depth, capacity);
            let n = all.len() - pending.len();
            &&& pending.is_prefix_of(all)
            &&& 0 <= i < n ==> all[pending.len() + i].element == children[i] && all[pending.len()
                + i].depth == depth + 1
            &&& depth >= 24 ==> n == 0
            &&& depth < 24 && pending.len() + children.len() <= capacity ==> n == children.len()
            &&& depth < 24 && pending.len() + children.len() > capacity ==> all.len() == capacity
        }),
{
}

/// Where a walk begins: at the window's root where the whole window is asked for,
/// at the open menu where the menu is, and else where a search finds the part.
pub proof fn walk_begins_where_asked(scope: ScopeModel, root: u64, menu: Option<u64>)
    ensures
        scope.subtree_id is None || scope.subtree_id == Some("@window"@) ==> root_plan(
            scope,
            root,
            menu,
        ) == RootPlan::At(root),
        scope.subtree_id == Some("@menu"@) && menu is Some ==> root_plan(scope, root, menu)
            == RootPlan::At(menu->Some_0),
        scope.subtree_id == Some("@menu"@) && menu is None ==> root_plan(scope, root, menu)
            == RootPlan::Search,
        scope.subtree_id is Some && scope.subtree_id != Some("@window"@) && scope.subtree_id
            != Some("@menu"@) ==> root_plan(scope, root, menu) == RootPlan::Search,
{
    reveal_strlit("@menu");
    reveal_strlit("@window");
    assert("@menu"@.len() != "@window"@.len());
}

/// A survey takes the controls in the order in which they wait; it stops, and
/// says that it did, where it holds as many as it may or its time is up.
pub proof fn survey_goes_in_order(s: SurveyModel, timed_out: bool)
    ensures
        s.pending.len() == 0 ==> s.popped(timed_out).1 is None && s.popped(timed_out).0 == s,
        s.pending.len() > 0 && (timed_out || s.nodes.len() >= s.limit) ==> s.popped(
            timed_out,
        ).1 is None && s.popped(timed_out).0.truncated && s.popped(timed_out).0.pending.len() == 0
            && s.popped(timed_out).0.nodes == s.nodes,
        s.pending.len() > 0 && !timed_out && s.nodes.len() < s.limit ==> s.popped(timed_out).1
            == Some(s.pending[0]) && s.popped(timed_out).0.pending == s.pending.drop_first()
            && s.popped(timed_out).0.nodes == s.nodes && s.popped(timed_out).0.truncated
            == s.truncated,
{
}

/// A survey keeps every control that it could read and goes on below it, but not
/// below a menu where the whole window is read; it says that something is
/// missing where a control could not be read or children were left out.
pub proof fn survey_keeps_what_it_reads(
    s: SurveyModel,
    m: MetadataModel,
    depth: usize,
    children: Seq<u64>,
    cut: bool,
)
    requires
        s.nodes.len() < s.limit,
    ensures
        s.visited(None, depth, children, cut).nodes == s.nodes,
        s.visited(None, depth, children, cut).pending == s.pending,
        s.visited(None, depth, children, cut).truncated,
        s.visited(Some(m), depth, children, cut).nodes == s.nodes.push(m),
        s.whole && m.role == UiRole::Menu ==> s.visited(Some(m), depth, children, cut).pending
            == s.pending && s.visited(Some(m), depth, children, cut).truncated == s.truncated,
        !(s.whole && m.role == UiRole::Menu) ==> s.visited(Some(m), depth, children, cut).pending
            == queued(s.pending, children, depth, (s.limit - s.nodes.len() - 1) as nat),
        !(s.whole && m.role == UiRole::Menu) ==> (s.visited(
            Some(m),
            depth,
            children,
            cut,
        ).truncated <==> s.truncated || cut || queued(
            s.pending,
            children,
            depth,
            (s.limit - s.nodes.len() - 1) as nat,
        ).len() < s.pending.len() + children.len()),
{
}

/// A search is for the one control that is what the region was, or for any menu
/// that can be seen.
pub proof fn search_knows_what_it_is_for(s: SearchModel, m: MetadataModel)
    ensures
        !s.fits(None),
        s.region matches Some(r) ==> (s.fits(Some(m)) <==> m.role == r.role && m.automation_id
            == r.automation_id && m.name == r.name && m.ancestor_chain == r.ancestor_chain),
        s.region is None ==> (s.fits(Some(m)) <==> m.role == UiRole::Menu && m.visible),
{
}

/// A search ends at the first menu; a region it goes on looking for, to see
/// whether there is another, and a second one makes it ambiguous.
pub proof fn search_ends_where_it_should(
    s: SearchModel,
    next: Waiting,
    node: Option<MetadataModel>,
    children: Seq<u64>,
    cut: bool,
)
    ensures
        s.visited(next, node, children, cut).inspected == s.inspected + 1,
        s.visited(next, node, children, cut).region == s.region,
        !s.fits(node) ==> s.visited(next, node, children, cut).selected == s.selected && s.visited(
            next,
            node,
            children,
            cut,
        ).ambiguous == s.ambiguous,
        s.fits(node) && s.selected is Some ==> s.visited(next, node, children, cut).ambiguous
            && s.visited(next, node, children, cut).pending.len() == 0 && s.visited(
            next,
            node,
            children,
            cut,
        ).selected == s.selected,
        s.fits(node) && s.selected is None ==> s.visited(next, node, children, cut).selected
            == Some(next.element) && s.visited(next, node, children, cut).ambiguous == s.ambiguous,
        s.fits(node) && s.selected is None && s.region is None ==> s.visited(
            next,
            node,
            children,
            cut,
        ).pending.len() == 0 && s.visited(next, node, children, cut).truncated == s.truncated,
        !s.fits(node) || (s.selected is None && s.region is Some) ==> s.visited(
            next,
            node,
            children,
            cut,
        ).pending == queued(s.pending, children, next.depth, (1999 - s.inspected) as nat)
            && (s.visited(next, node, children, cut).truncated <==> s.truncated || cut || queued(
            s.pending,
            children,
            next.depth,
            (1999 - s.inspected) as nat,
        ).len() < s.pending.len() + children.len()),
{
}

/// A search takes the controls in the order in which they wait, up to two
/// thousand, while it has time.
pub proof fn search_goes_in_order(s: SearchModel, timed_out: bool)
    ensures
        s.pending.len() == 0 ==> s.popped(timed_out).1 is None && s.popped(timed_out).0 == s,
        s.pending.len() > 0 && (timed_out || s.inspected >= 2000) ==> s.popped(timed_out).1 is None
            && s.popped(timed_out).0.truncated && s.popped(timed_out).0.pending.len() == 0
            && s.popped(timed_out).0.selected == s.selected,
        s.pending.len() > 0 && !timed_out && s.inspected < 2000 ==> s.popped(timed_out).1 == Some(
            s.pending[0],
        ) && s.popped(timed_out).0.pending == s.pending.drop_first() && s.popped(
            timed_out,
        ).0.truncated == s.truncated && s.popped(timed_out).0.selected == s.selected,
{
}

/// What a search found is its result, unless it is ambiguous or, of a region,
/// not everything was looked at.
pub proof fn search_result_is_sure(s: SearchModel)
    ensures
        s.result() is Ok <==> !s.ambiguous && s.selected is Some && (s.region is None
            || !s.truncated),
        s.result() matches Ok(e) ==> s.selected == Some(e),
        s.result() matches Err(e) ==> e.0 == ErrorKind::Observation,
{
}

/// The chain of ancestors stands from the outermost in: what is nearer comes
/// later, and what tells nothing is left out. Eight are looked at.
pub proof fn ancestors_stand_from_the_outside(
    near: Seq<Option<ContextModel>>,
    far: Seq<Option<ContextModel>>,
    c: ContextModel,
)
    ensures
        chain_of(near + far) == chain_of(far) + chain_of(near),
        chain_of(seq![Some(c)]) == seq![c],
        chain_of(seq![None::<ContextModel>]) == Seq::<ContextModel>::empty(),
        near.len() <= 8 ==> looked_at(near) == near,
        near.len() == 8 ==> looked_at(near + far) == near,
    decreases far.len(),
{
    let one = seq![Some(c)];
    assert(one.drop_last() =~= Seq::<Option<ContextModel>>::empty());
    assert(chain_of(one.drop_last()) =~= Seq::<ContextModel>::empty());
    assert(chain_of(one) =~= seq![c]);
    let none = seq![None::<ContextModel>];
    assert(none.drop_last() =~= Seq::<Option<ContextModel>>::empty());
    assert(chain_of(none) =~= Seq::<ContextModel>::empty());
    if near.len() == 8 {
        if far.len() > 0 {
            assert((near + far).take(8) =~= near);
        } else {
            assert(near + far =~= near);
        }
    }
    if far.len() == 0 {
        assert(near + far =~= near);
        assert(chain_of(far) + chain_of(near) =~= chain_of(near));
    } else {
        let short = far.drop_last();
        ancestors_stand_from_the_outside(near, short, c);
        assert((near + far).last() == far.last());
        assert((near + far).drop_last() =~= near + short);
        match far.last() {
            Some(d) => {
                assert(seq![d] + (chain_of(short) + chain_of(near)) =~= (seq![d] + chain_of(short))
                    + chain_of(near));
            },
            None => {},
        }
    }
}

/// A climb goes from control to control of the same process, for as long as it
/// has time and steps, and remembers the outermost menu on its way.
pub proof fn climb_stays_in_its_process(
    c: MenuClimb,
    role: Option<i32>,
    p: Reached,
    expired: bool,
)
    ensures
        expired || c.left == 0 ==> climbed(c, expired, role, Some(p)) == (c, false),
        !expired && c.left > 0 && p.process == Some(c.process) ==> climbed(
            c,
            expired,
            role,
            Some(p),
        ).0.at == p.handle && (climbed(c, expired, role, Some(p)).1 <==> c.left > 1),
        p.process != Some(c.process) ==> !climbed(c, expired, role, Some(p)).1 && climbed(
            c,
            expired,
            role,
            Some(p),
        ).0.at == c.at,
        !climbed(c, expired, role, None).1,
        !expired && c.left > 0 ==> climbed(c, expired, role, Some(p)).0.left == c.left - 1,
        climbed(c, expired, role, Some(p)).0.process == c.process,
        climbed(c, expired, role, Some(p)).0.menu == if !expired && c.left > 0 && (role == Some(
            50009i32,
        ) || role == Some(50010i32)) {
            Some(c.at)
        } else {
            c.menu
        },
{
}

/// The ancestors of a control are written in their order, each with its role, id
/// and name; what is missing is written as missing.
pub proof fn ancestors_are_written_out(chain: Seq<ContextModel>, c: ContextModel)
    ensures
        chain_text(chain) == "["@ + text::joined(
            Seq::new(chain.len(), |i: int| ancestor_text(chain[i])),
            ", "@,
        ) + "]"@,
        c.role matches Some(role) ==> ancestor_text(c) == "SemanticContext { role: "@ + ("Some("@
            + role.label() + ")"@) + ", automation_id: "@ + optional_text(c.automation_id)
            + ", accessible_name: "@ + optional_text(c.accessible_name) + " }"@,
        c.role is None ==> ancestor_text(c) == "SemanticContext { role: "@ + "None"@
            + ", automation_id: "@ + optional_text(c.automation_id) + ", accessible_name: "@
            + optional_text(c.accessible_name) + " }"@,
        c.automation_id matches Some(s) ==> optional_text(c.automation_id) == "Some("@ + quoted(s)
            + ")"@,
        c.automation_id is None ==> optional_text(c.automation_id) == "None"@,
{
}

/// The parts of what identifies a window are taken up to their limits.
pub proof fn window_facts_are_cut(f: WindowFacts)
    ensures
        class_model(f).is_prefix_of(f.class@),
        class_model(f).len() <= 128,
        f.class@.len() <= 128 ==> class_model(f) == f.class@,
        f.framework matches Some(s) ==> {
            &&& s@.len() == 0 ==> framework_model(f) is None
            &&& s@.len() > 0 ==> framework_model(f) == Some(text::clipped(s@, 64))
        },
        f.framework is None ==> framework_model(f) is None,
        app_model(f).id == hashing::tagged(
            "windows-app:"@,
            identity_seed(
                framework_model(f),
                class_model(f),
                text::lowercased(
                    if f.process_path is Some {
                        f.process_path->Some_0@
                    } else {
                        Seq::empty()
                    },
                ),
            ),
        ),
{
    text::cutting_keeps_the_start(f.class@, 128);
}

} // verus!
