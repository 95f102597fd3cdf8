//! The acceptance run on a real desktop: what it is asked to do, what it asks
//! of the agent, and by what evidence it is accepted.
use vstd::prelude::*;
use vstd::string::*;

use crate::json;
use crate::json::read_text_member;
use crate::mcp;
use crate::mcp::read_member;
use crate::model;
use crate::profile;
use crate::profile::{Place, PlaceModel};
use crate::text;
use crate::text::{
    chars_of, ends_with, is_blank, owned, parse_number, same_text, span, starts_with, trim,
};

verus! {

/// A JSON value, as far as the evidence is read from it. The members of an
/// object stand in a list.
#[derive(Debug)]
pub enum Json {
    /// A number, a truth value or nothing.
    Other,
    Text(String),
    List(Vec<Json>),
    Object(Vec<(String, Json)>),
}

/// The place of a member, the first of its name.
pub open spec fn member_at(members: Seq<(String, Json)>, name: Seq<char>, i: int) -> bool {
    &&& 0 <= i < members.len()
    &&& members[i].0@ == name
    &&& forall|k: int| 0 <= k < i ==> (#[trigger] members[k]).0@ != name
}

/// A member of a value, nothing where there is none.
pub open spec fn member(j: Json, name: Seq<char>) -> Json {
    match j {
        Json::Object(o) => if exists|i: int| member_at(o@, name, i) {
            o@[choose|i: int| member_at(o@, name, i)].1
        } else {
            Json::Other
        },
        _ => Json::Other,
    }
}

/// The text that a value is.
pub open spec fn text_of(j: Json) -> Option<Seq<char>> {
    match j {
        Json::Text(s) => Some(s@),
        _ => None,
    }
}

/// A member of a value, nothing where there is none.
fn member_of<'a>(j: &'a Json, name: &str) -> (r: Option<&'a Json>)
    ensures
        match r {
            Some(x) => *x == member(*j, name@),
            None => member(*j, name@) == Json::Other,
        },
{
    match j {
        Json::Object(o) => {
            let mut i: usize = 0;
            while i < o.len()
                invariant
                    *j == Json::Object(*o),
                    i <= o@.len(),
                    forall|k: int| 0 <= k < i ==> (#[trigger] o@[k]).0@ != name@,
                decreases o@.len() - i,
            {
                if same_text(o[i].0.as_str(), name) {
                    proof {
                        assert(member_at(o@, name@, i as int));
                        let c = choose|c: int| member_at(o@, name@, c);
                        assert(c == i) by {
                            if c < i {
                                assert(o@[c].0@ != name@);
                            } else if i < c {
                                assert(o@[i as int].0@ != name@);
                            }
                        }
                    }
                    return Some(&o[i].1);
                }
                i += 1;
            }
            None
        },
        _ => None,
    }
}

/// The tools that act on the desktop.
pub open spec fn acts_on_desktop(tool: Seq<char>) -> bool {
    ||| tool == "desktop_semantic_action"@
    ||| tool == "desktop_semantic_execute"@
    ||| tool == "desktop_input"@
    ||| tool == "desktop_mouse"@
    ||| tool == "desktop_agent_step"@
}

/// The tools that get by without the desktop.
pub open spec fn bypasses_desktop(tool: Seq<char>) -> bool {
    ||| tool == "Bash"@
    ||| tool == "Shell"@
    ||| tool == "Write"@
    ||| tool == "Edit"@
    ||| tool == "system_shell"@
    ||| text::begins(tool, "browser_"@)
}

/// The tool that a step names, no text where it names none.
pub open spec fn tool_named(j: Json) -> Seq<char> {
    match text_of(member(j, "tool"@)) {
        Some(s) => s,
        None => Seq::empty(),
    }
}

/// Whether an object has a member of this name.
pub open spec fn has_member(members: Seq<(String, Json)>, name: Seq<char>) -> bool {
    exists|i: int| 0 <= i < members.len() && (#[trigger] members[i]).0@ == name
}

/// Whether a step acts on the desktop, itself or in a step inside it.
pub open spec fn holds_action(j: Json) -> bool
    decreases j,
{
    match j {
        Json::Object(o) => {
            ||| acts_on_desktop(tool_named(j))
            ||| exists|i: int| 0 <= i < o@.len() && holds_action((#[trigger] o@[i]).1)
        },
        Json::List(l) => exists|i: int| 0 <= i < l@.len() && holds_action(#[trigger] l@[i]),
        _ => false,
    }
}

/// Whether a step gets by without the desktop, itself or in a step inside it.
pub open spec fn holds_bypass(j: Json) -> bool
    decreases j,
{
    match j {
        Json::Object(o) => {
            ||| has_member(o@, "script"@)
            ||| bypasses_desktop(tool_named(j))
            ||| exists|i: int| 0 <= i < o@.len() && holds_bypass((#[trigger] o@[i]).1)
        },
        Json::List(l) => exists|i: int| 0 <= i < l@.len() && holds_bypass(#[trigger] l@[i]),
        _ => false,
    }
}

/// Whether a value holds a window handle that is not filled in when the
/// workflow runs.
pub open spec fn holds_handle(j: Json) -> bool
    decreases j,
{
    match j {
        Json::Object(o) => exists|i: int|
            0 <= i < o@.len() && {
                ||| (#[trigger] o@[i]).0@ == "hwnd"@ && !filled_in(o@[i].1)
                ||| holds_handle(o@[i].1)
            },
        Json::List(l) => exists|i: int| 0 <= i < l@.len() && holds_handle(#[trigger] l@[i]),
        _ => false,
    }
}

/// Whether a value is filled in when the workflow runs.
pub open spec fn filled_in(j: Json) -> bool {
    text_of(j) matches Some(s) && text::begins(s, "{{"@)
}

/// Whether a step acts on the desktop, and whether it gets by without it,
/// itself or in a step inside it.
pub fn workflow_evidence(value: &Json) -> (r: (bool, bool))
    ensures
        r.0 == holds_action(*value),
        r.1 == holds_bypass(*value),
    decreases value,
{
    match value {
        Json::Object(o) => {
            let tool = match member_of(value, "tool") {
                Some(Json::Text(s)) => s.as_str(),
                _ => "",
            };
            proof {
                reveal_strlit("");
                assert(""@ =~= Seq::<char>::empty());
            }
            assert(tool@ == tool_named(*value));
            let mut action = same_text(tool, "desktop_semantic_action") || same_text(
                tool,
                "desktop_semantic_execute",
            ) || same_text(tool, "desktop_input") || same_text(tool, "desktop_mouse") || same_text(
                tool,
                "desktop_agent_step",
            );
            let mut bypass = same_text(tool, "Bash") || same_text(tool, "Shell") || same_text(
                tool,
                "Write",
            ) || same_text(tool, "Edit") || same_text(tool, "system_shell") || starts_with(
                tool,
                "browser_",
            );
            let mut i: usize = 0;
            while i < o.len()
                invariant
                    value is Object,
                    value->Object_0 == *o,
                    i <= o@.len(),
                    action == (acts_on_desktop(tool_named(*value)) || exists|k: int|
                        0 <= k < i && holds_action((#[trigger] o@[k]).1)),
                    bypass == (bypasses_desktop(tool_named(*value)) || exists|k: int|
                        0 <= k < i && ((#[trigger] o@[k]).0@ == "script"@ || holds_bypass(o@[k].1))),
                decreases o@.len() - i,
            {
                let (a, b) = workflow_evidence(&o[i].1);
                let script = same_text(o[i].0.as_str(), "script");
                action = action || a;
                bypass = bypass || b || script;
                i += 1;
            }
            (action, bypass)
        },
        Json::List(l) => {
            let mut action = false;
            let mut bypass = false;
            let mut i: usize = 0;
            while i < l.len()
                invariant
                    value is List,
                    value->List_0 == *l,
                    i <= l@.len(),
                    action == exists|k: int| 0 <= k < i && holds_action(#[trigger] l@[k]),
                    bypass == exists|k: int| 0 <= k < i && holds_bypass(#[trigger] l@[k]),
                decreases l@.len() - i,
            {
                let (a, b) = workflow_evidence(&l[i]);
                action = action || a;
                bypass = bypass || b;
                i += 1;
            }
            (action, bypass)
        },
        _ => (false, false),
    }
}

/// Whether a value holds a window handle that is not filled in when the
/// workflow runs.
pub fn static_window_handle(value: &Json) -> (r: bool)
    ensures
        r == holds_handle(*value),
    decreases value,
{
    match value {
        Json::Object(o) => {
            let mut i: usize = 0;
            while i < o.len()
                invariant
                    value is Object,
                    value->Object_0 == *o,
                    i <= o@.len(),
                    forall|k: int|
                        0 <= k < i ==> !((#[trigger] o@[k]).0@ == "hwnd"@ && !filled_in(o@[k].1))
                            && !holds_handle(o@[k].1),
                decreases o@.len() - i,
            {
                let fixed = same_text(o[i].0.as_str(), "hwnd") && match &o[i].1 {
                    Json::Text(s) => !starts_with(s.as_str(), "{{"),
                    _ => true,
                };
                if fixed || static_window_handle(&o[i].1) {
                    assert(holds_handle(*value));
                    return true;
                }
                i += 1;
            }
            false
        },
        Json::List(l) => {
            let mut i: usize = 0;
            while i < l.len()
                invariant
                    value is List,
                    value->List_0 == *l,
                    i <= l@.len(),
                    forall|k: int| 0 <= k < i ==> !holds_handle(#[trigger] l@[k]),
                decreases l@.len() - i,
            {
                if static_window_handle(&l[i]) {
                    assert(holds_handle(*value));
                    return true;
                }
                i += 1;
            }
            false
        },
        _ => false,
    }
}

/// A piece of the session, as far as the evidence is read from it.
#[derive(Debug)]
pub enum Piece {
    Use { id: String, name: String, input: Json },
    Result { use_id: String, content: String, failed: bool },
    Other,
}

/// Whether a piece asks for a decision under this identifier.
pub open spec fn asks_decision(p: Piece, id: Seq<char>) -> bool {
    p matches Piece::Use { id: own, name, .. } && name@ == "desktop_agent_step"@ && own@ == id
}

/// Whether one of these pieces asks for a decision under this identifier.
pub open spec fn decision_asked(pieces: Seq<Piece>, id: Seq<char>) -> bool {
    exists|k: int| 0 <= k < pieces.len() && asks_decision(#[trigger] pieces[k], id)
}

/// What a piece answers to a decision that was asked for before it.
pub open spec fn decision_reply(pieces: Seq<Piece>, i: int) -> Option<Seq<char>> {
    match pieces[i] {
        Piece::Result { use_id, content, failed } => if !failed && decision_asked(
            pieces.take(i),
            use_id@,
        ) {
            Some(content@)
        } else {
            None
        },
        _ => None,
    }
}

/// The provider that an answer names, where it is JSON with a decision.
pub open spec fn named_provider(content: Seq<char>) -> Option<Seq<char>> {
    match mcp::json_member(content, "decision"@) {
        Ok(Some(Some(decision))) => json::text_member(decision, "provider"@),
        _ => None,
    }
}

/// Whether a provider is the enhanced one.
pub open spec fn is_enhanced(provider: Option<Seq<char>>) -> bool {
    provider == Some("jev"@)
}

/// Whether a status says that the primary model has to decide.
pub open spec fn is_handoff(status: Option<Seq<char>>) -> bool {
    status == Some("needs_primary_decision"@)
}

/// Whether the enhanced provider decided.
pub open spec fn from_enhanced(content: Seq<char>) -> bool {
    is_enhanced(named_provider(content))
}

/// Whether the primary model has to decide.
pub open spec fn handed_over(content: Seq<char>) -> bool {
    is_handoff(json::text_member(content, "status"@))
}

/// What an answer with this provider and this status tells: whether the
/// enhanced provider decided, and whether the primary model has to.
pub fn reply_tells(provider: Option<&str>, status: Option<&str>) -> (r: (bool, bool))
    ensures
        r.0 == is_enhanced(text::opt_str(provider)),
        r.1 == is_handoff(text::opt_str(status)),
{
    let decided = match provider {
        Some(p) => same_text(p, "jev"),
        None => false,
    };
    let handed = match status {
        Some(s) => same_text(s, "needs_primary_decision"),
        None => false,
    };
    (decided, handed)
}

/// What the text of an answer tells.
fn read_reply(content: &str) -> (r: (bool, bool))
    ensures
        r.0 == from_enhanced(content@),
        r.1 == handed_over(content@),
{
    let provider: Option<String> = match read_member(content, "decision") {
        Ok(Some(Some(decision))) => read_text_member(decision.as_str(), "provider"),
        _ => None,
    };
    let status = read_text_member(content, "status");
    let named = match &provider {
        Some(p) => Some(p.as_str()),
        None => None,
    };
    match &status {
        Some(s) => reply_tells(named, Some(s.as_str())),
        None => reply_tells(named, None),
    }
}

/// How many of the first `n` pieces are answers of the enhanced provider.
pub open spec fn responses(pieces: Seq<Piece>, n: nat) -> nat
    decreases n,
{
    if n == 0 {
        0
    } else {
        responses(pieces, (n - 1) as nat) + if decision_reply(pieces, n - 1) matches Some(c)
            && from_enhanced(c) {
            1nat
        } else {
            0nat
        }
    }
}

/// How many of the first `n` pieces hand over to the primary model.
pub open spec fn handoffs(pieces: Seq<Piece>, n: nat) -> nat
    decreases n,
{
    if n == 0 {
        0
    } else {
        handoffs(pieces, (n - 1) as nat) + if decision_reply(pieces, n - 1) matches Some(c)
            && handed_over(c) {
            1nat
        } else {
            0nat
        }
    }
}

/// Whether one of the first `n` pieces asks for a decision.
fn was_asked(pieces: &Vec<Piece>, n: usize, id: &str) -> (r: bool)
    requires
        n <= pieces@.len(),
    ensures
        r == decision_asked(pieces@.take(n as int), id@),
{
    let ghost front = pieces@.take(n as int);
    let mut k: usize = 0;
    while k < n
        invariant
            k <= n <= pieces@.len(),
            front == pieces@.take(n as int),
            forall|m: int| 0 <= m < k ==> !asks_decision(#[trigger] front[m], id@),
        decreases n - k,
    {
        assert(front[k as int] == pieces@[k as int]);
        match &pieces[k] {
            Piece::Use { id: own, name, .. } => {
                if same_text(name.as_str(), "desktop_agent_step") && same_text(own.as_str(), id) {
                    return true;
                }
            },
            _ => {},
        }
        k += 1;
    }
    false
}

/// How many decisions the enhanced provider made in a session, and how many it
/// handed over to the primary model.
pub fn decision_evidence(pieces: &Vec<Piece>) -> (r: (usize, usize))
    ensures
        r.0 == responses(pieces@, pieces@.len()),
        r.1 == handoffs(pieces@, pieces@.len()),
{
    let mut made: usize = 0;
    let mut handed: usize = 0;
    let mut i: usize = 0;
    while i < pieces.len()
        invariant
            i <= pieces@.len(),
            made <= i,
            handed <= i,
            made == responses(pieces@, i as nat),
            handed == handoffs(pieces@, i as nat),
        decreases pieces@.len() - i,
    {
        match &pieces[i] {
            Piece::Result { use_id, content, failed } => {
                if !*failed && was_asked(pieces, i, use_id.as_str()) {
                    let (decided, handed_on) = read_reply(content.as_str());
                    if decided {
                        made += 1;
                    }
                    if handed_on {
                        handed += 1;
                    }
                }
            },
            _ => {},
        }
        i += 1;
    }
    (made, handed)
}

/// Whether a piece runs a shell, or writes this file without the desktop.
pub open spec fn writes_directly(p: Piece, filename: Seq<char>) -> bool {
    match p {
        Piece::Use { name, input, .. } => {
            ||| name@ == "Bash"@
            ||| name@ == "Shell"@
            ||| name@ == "system_shell"@
            ||| (name@ == "Write"@ || name@ == "Edit"@) && {
                ||| names_file(input, "path"@, filename)
                ||| names_file(input, "file_path"@, filename)
                ||| names_file(input, "filename"@, filename)
            }
        },
        _ => false,
    }
}

/// Whether a member of a value is the path of this file.
pub open spec fn names_file(input: Json, key: Seq<char>, filename: Seq<char>) -> bool {
    text_of(member(input, key)) matches Some(s) && text::finishes(s, filename)
}

/// Whether a member of a value is the path of this file.
fn file_named(input: &Json, key: &str, filename: &str) -> (r: bool)
    ensures
        r == names_file(*input, key@, filename@),
{
    match member_of(input, key) {
        Some(Json::Text(s)) => ends_with(s.as_str(), filename),
        _ => false,
    }
}

/// Whether the agent ran a shell, or wrote this file without the desktop.
pub fn direct_document_write(pieces: &Vec<Piece>, filename: &str) -> (r: bool)
    ensures
        r == exists|i: int|
            0 <= i < pieces@.len() && writes_directly(#[trigger] pieces@[i], filename@),
{
    let mut i: usize = 0;
    while i < pieces.len()
        invariant
            i <= pieces@.len(),
            forall|k: int| 0 <= k < i ==> !writes_directly(#[trigger] pieces@[k], filename@),
        decreases pieces@.len() - i,
    {
        let direct = match &pieces[i] {
            Piece::Use { name, input, .. } => {
                let name = name.as_str();
                same_text(name, "Bash") || same_text(name, "Shell") || same_text(
                    name,
                    "system_shell",
                ) || (same_text(name, "Write") || same_text(name, "Edit")) && (file_named(
                    input,
                    "path",
                    filename,
                ) || file_named(input, "file_path", filename) || file_named(
                    input,
                    "filename",
                    filename,
                ))
            },
            _ => false,
        };
        assert(direct == writes_directly(pieces@[i as int], filename@));
        if direct {
            return true;
        }
        i += 1;
    }
    false
}

/// A text without the byte order marks at its start.
pub open spec fn unmarked(s: Seq<char>) -> Seq<char>
    decreases s.len(),
{
    if s.len() > 0 && s[0] == '\u{feff}' {
        unmarked(s.drop_first())
    } else {
        s
    }
}

/// Whether a document holds the expected line and nothing else but blanks.
pub fn document_matches(document: &str, expected: &str) -> (r: bool)
    ensures
        r == (text::trimmed(unmarked(document@)) == expected@),
{
    let v = chars_of(document);
    let mut i: usize = 0;
    assert(v@.skip(0) =~= v@);
    while i < v.len() && v[i] == '\u{feff}'
        invariant
            v@ == document@,
            i <= v@.len(),
            unmarked(document@) == unmarked(v@.skip(i as int)),
        decreases v@.len() - i,
    {
        assert(v@.skip(i as int).drop_first() =~= v@.skip(i + 1));
        i += 1;
    }
    assert(v@.skip(i as int) =~= v@.subrange(i as int, v@.len() as int));
    let rest = span(&v, i, v.len());
    same_text(trim(rest.as_str()).as_str(), expected)
}

/// What the run is asked to do.
#[derive(Debug)]
pub struct Options {
    pub config: Place,
    pub output_root: Place,
    pub enhanced: bool,
    pub keyboard: bool,
    pub timeout_secs: u64,
}

/// The content of [`Options`].
#[verifier::ext_equal]
pub struct OptionsModel {
    pub config: PlaceModel,
    pub output_root: PlaceModel,
    pub enhanced: bool,
    pub keyboard: bool,
    pub timeout_secs: u64,
}

impl View for Options {
    type V = OptionsModel;

    open spec fn view(&self) -> OptionsModel {
        OptionsModel {
            config: self.config@,
            output_root: self.output_root@,
            enhanced: self.enhanced,
            keyboard: self.keyboard,
            timeout_secs: self.timeout_secs,
        }
    }
}

/// What the arguments ask for.
#[derive(Debug)]
pub enum Asked {
    /// To say how the run is used.
    Help,
    /// Nothing: a run is asked for by name.
    Idle,
    Run(Options),
}

/// The content of [`Asked`].
#[verifier::ext_equal]
pub enum AskedModel {
    Help,
    Idle,
    Run(OptionsModel),
}

impl View for Asked {
    type V = AskedModel;

    open spec fn view(&self) -> AskedModel {
        match self {
            Asked::Help => AskedModel::Help,
            Asked::Idle => AskedModel::Idle,
            Asked::Run(o) => AskedModel::Run(o@),
        }
    }
}

/// What the run says of its use.
pub const USAGE: &'static str =
    "--run --mode enhanced|normal [--keyboard] [--config providers.toml] [--output-root DIR] [--timeout-secs 600]";

/// What the run says where it was not asked for.
pub const IDLE_NOTE: &'static str =
    "默认不执行。请先停止其他自动化、关闭无关编辑器文档，再加 --run 显式启动真实桌面测试。测试可能在正常会话数据库追加合成记录。";

/// What is asked for where the arguments say nothing.
pub open spec fn default_options(config_dir: Seq<char>, output_root: Seq<char>) -> OptionsModel {
    OptionsModel {
        config: profile::below(profile::whole(config_dir), "nuphus/providers.toml"@),
        output_root: profile::whole(output_root),
        enhanced: true,
        keyboard: false,
        timeout_secs: 600,
    }
}

/// What the arguments make of what was asked for before them.
pub open spec fn asked(args: Seq<Seq<char>>, run: bool, o: OptionsModel, supported: bool) -> Result<
    AskedModel,
    Seq<char>,
>
    decreases args.len(),
{
    if args.len() == 0 {
        if !run {
            Ok(AskedModel::Idle)
        } else if !supported {
            Err("此验收 example 暂只支持 Windows / macOS"@)
        } else {
            Ok(AskedModel::Run(o))
        }
    } else {
        let rest = args.drop_first();
        if args[0] == "--run"@ {
            asked(rest, true, o, supported)
        } else if args[0] == "--keyboard"@ {
            asked(rest, run, OptionsModel { keyboard: true, ..o }, supported)
        } else if args[0] == "--mode"@ {
            if rest.len() > 0 && (rest[0] == "enhanced"@ || rest[0] == "normal"@) {
                asked(
                    rest.drop_first(),
                    run,
                    OptionsModel { enhanced: rest[0] == "enhanced"@, ..o },
                    supported,
                )
            } else {
                Err("--mode 只能为 normal 或 enhanced"@)
            }
        } else if args[0] == "--config"@ {
            if rest.len() > 0 {
                asked(
                    rest.drop_first(),
                    run,
                    OptionsModel { config: profile::whole(rest[0]), ..o },
                    supported,
                )
            } else {
                Err("--config 缺少路径"@)
            }
        } else if args[0] == "--output-root"@ {
            if rest.len() > 0 {
                asked(
                    rest.drop_first(),
                    run,
                    OptionsModel { output_root: profile::whole(rest[0]), ..o },
                    supported,
                )
            } else {
                Err("--output-root 缺少路径"@)
            }
        } else if args[0] == "--timeout-secs"@ {
            if rest.len() == 0 {
                Err("--timeout-secs 缺少数值"@)
            } else {
                match text::number(rest[0]) {
                    None => Err("超时必须为整数秒"@),
                    Some(n) => if 30 <= n <= 1800 {
                        asked(
                            rest.drop_first(),
                            run,
                            OptionsModel { timeout_secs: n, ..o },
                            supported,
                        )
                    } else {
                        Err("超时范围为 30–1800 秒"@)
                    },
                }
            }
        } else if args[0] == "--help"@ || args[0] == "-h"@ {
            Ok(AskedModel::Help)
        } else {
            Err("未知参数；使用 --help 查看用法"@)
        }
    }
}

/// What the outcome of reading the arguments holds.
pub open spec fn asked_view(r: Result<Asked, String>) -> Result<AskedModel, Seq<char>> {
    match r {
        Ok(a) => Ok(a@),
        Err(s) => Err(s@),
    }
}

/// Reads the arguments, one after the other.
#[verifier::rlimit(40)]
fn read_args(args: &Vec<String>, first: Options, supported: bool) -> (r: Result<Asked, String>)
    ensures
        asked_view(r) == asked(model::seq_view(args@), false, first@, supported),
{
    let ghost all = model::seq_view(args@);
    let mut run = false;
    let mut o = first;
    let mut i: usize = 0;
    assert(all.skip(0) =~= all);
    while i < args.len()
        invariant
            all == model::seq_view(args@),
            i <= args@.len(),
            asked(all, false, first@, supported) == asked(
                all.skip(i as int),
                run,
                o@,
                supported,
            ),
        decreases args@.len() - i,
    {
        let ghost left = all.skip(i as int);
        let ghost rest = left.drop_first();
        let ghost before = o@;
        assert(left[0] == args@[i as int]@);
        assert(rest =~= all.skip(i + 1));
        assert(rest.len() > 0 ==> rest[0] == args@[i + 1]@);
        assert(rest.len() > 0 ==> rest.drop_first() =~= all.skip(i + 2));
        let arg = args[i].as_str();
        i += 1;
        if same_text(arg, "--run") {
            run = true;
        } else if same_text(arg, "--keyboard") {
            o.keyboard = true;
            assert(o@ == OptionsModel { keyboard: true, ..before });
        } else if same_text(arg, "--mode") {
            if i < args.len() && same_text(args[i].as_str(), "enhanced") {
                o.enhanced = true;
                assert(o@ == OptionsModel { enhanced: true, ..before });
            } else if i < args.len() && same_text(args[i].as_str(), "normal") {
                o.enhanced = false;
                proof {
                    reveal_strlit("enhanced");
                    reveal_strlit("normal");
                }
                assert("enhanced"@.len() != "normal"@.len());
                assert(o@ == OptionsModel { enhanced: false, ..before });
            } else {
                return Err(owned("--mode 只能为 normal 或 enhanced"));
            }
            i += 1;
        } else if same_text(arg, "--config") {
            if i >= args.len() {
                return Err(owned("--config 缺少路径"));
            }
            o.config = Place::whole(args[i].clone());
            assert(o@ == OptionsModel { config: profile::whole(args@[i as int]@), ..before });
            i += 1;
        } else if same_text(arg, "--output-root") {
            if i >= args.len() {
                return Err(owned("--output-root 缺少路径"));
            }
            o.output_root = Place::whole(args[i].clone());
            assert(o@ == OptionsModel { output_root: profile::whole(args@[i as int]@), ..before });
            i += 1;
        } else if same_text(arg, "--timeout-secs") {
            if i >= args.len() {
                return Err(owned("--timeout-secs 缺少数值"));
            }
            match parse_number(args[i].as_str()) {
                None => {
                    return Err(owned("超时必须为整数秒"));
                },
                Some(n) => {
                    if n < 30 || n > 1800 {
                        return Err(owned("超时范围为 30–1800 秒"));
                    }
                    o.timeout_secs = n;
                    assert(o@ == OptionsModel { timeout_secs: n, ..before });
                },
            }
            i += 1;
        } else if same_text(arg, "--help") || same_text(arg, "-h") {
            return Ok(Asked::Help);
        } else {
            return Err(owned("未知参数；使用 --help 查看用法"));
        }
    }
    if !run {
        return Ok(Asked::Idle);
    }
    if !supported {
        return Err(owned("此验收 example 暂只支持 Windows / macOS"));
    }
    Ok(Asked::Run(o))
}

/// Reads the arguments. The user's configuration is looked for first.
pub fn options(
    args: &Vec<String>,
    config_dir: Option<String>,
    output_root: String,
    supported: bool,
) -> (r: Result<Asked, String>)
    ensures
        asked_view(r) == match model::opt_view(config_dir) {
            None => Err("找不到用户配置目录，请传 --config"@),
            Some(dir) => asked(
                model::seq_view(args@),
                false,
                default_options(dir, output_root@),
                supported,
            ),
        },
{
    match config_dir {
        None => Err(owned("找不到用户配置目录，请传 --config")),
        Some(dir) => {
            let first = Options {
                config: Place::whole(dir).join("nuphus/providers.toml"),
                output_root: Place::whole(output_root),
                enhanced: true,
                keyboard: false,
                timeout_secs: 600,
            };
            read_args(args, first, supported)
        },
    }
}

/// How the task begins.
pub const TASK_OPENING: &'static str =
    "进行一次真实桌面工作流验收。只操作刚打开的临时文本文档 ";

/// What leads to the title of the window.
pub const TASK_WINDOW: &'static str =
    "（窗口标题包含 ";

/// What the model is asked for.
pub const TASK_MODEL: &'static str =
    "），不能编辑或关闭其他文档、不能操作其他应用。\n请用当前已配置的主模型完成工作流开发，不要只口头给方案。";

/// What the document is to hold.
pub const TASK_GOAL: &'static str =
    "\n目标：通过本地编辑器的真实桌面动作，把这个文档的全部内容替换为下面的一行测试文本并保存：\n";

/// How the goal may be reached.
pub const TASK_RULES: &'static str =
    "\n从应用/窗口发现与绑定开始，优先使用语义候选，必要时沿用产品现有鼠标/键盘能力。不要启动浏览器、不要发送消息、不要执行脚本/命令行；禁止使用 Write/Edit 等文件工具直接修改该 txt 来冒充桌面操作。文件写入仅用于本次工作流定义和参数、说明文档。\n已有本地工作流开发资料位于 plugin/skills/builtin/workflow-design/SKILL.md 与 src/workflow/step_schema.json。\n保存一个真实可重放工作流到 ";

/// Where the workflow is kept, and when the task is done.
pub const TASK_CLOSING: &'static str =
    "/desktop-smoke/workflow.json，id 使用 desktop-smoke。固化本次成功返回的 workflow_step，幂等替换文本而非反复追加；键盘保存步骤使用 target_locator，不保存临时 hwnd。设置 timeout_secs 为 120，不创建定时任务。必须调用 workflow_validate，随后调用 workflow_run 实际执行一次；检查保存后的文档结果后立即结束，不清理文件、不关闭窗口、不额外检索项目源码。若阻塞，请报告真实原因，不要猜测成功。";

/// What is said of the mode.
pub const ENHANCED_RULE: &'static str =
    "增强模式已经开启：开发过程中必须实际使用 desktop_agent_step；若返回需要主模型接手或提供文本，再沿正常产品链路继续。";

/// What is said of the mode.
pub const NORMAL_RULE: &'static str =
    "本轮为普通模式：由主模型使用 desktop_semantic_observe 与 desktop_semantic_execute，不能调用增强判断入口。";

/// What is said of the input.
pub const KEYBOARD_RULE: &'static str =
    "本轮回归测试键盘输入路径：语义定位编辑区并聚焦后，用 desktop_input 全选、输入和保存，不用 SetValue。所有键盘步骤复用同一份成功 locator，不手工添加已修改/未修改标题变体；本地应保留同次执行窗口绑定。";

/// What is said of the input.
pub const INPUT_RULE: &'static str = "输入方式沿用本地可用能力。";

/// What is said of the mode.
pub open spec fn mode_text(enhanced: bool) -> Seq<char> {
    if enhanced {
        ENHANCED_RULE@
    } else {
        NORMAL_RULE@
    }
}

/// What is said of the input.
pub open spec fn input_text(keyboard: bool) -> Seq<char> {
    if keyboard {
        KEYBOARD_RULE@
    } else {
        INPUT_RULE@
    }
}

/// The task that the agent is given.
pub fn task_text(
    document: &str,
    filename: &str,
    store: &str,
    expected: &str,
    enhanced: bool,
    keyboard: bool,
) -> (r: String)
    ensures
        r@ == TASK_OPENING@ + document@ + TASK_WINDOW@ + filename@ + TASK_MODEL@ + mode_text(enhanced) + "\n"@ + input_text(keyboard) + TASK_GOAL@ + expected@ + TASK_RULES@ + store@ + TASK_CLOSING@,
{
    let mode = if enhanced {
        ENHANCED_RULE
    } else {
        NORMAL_RULE
    };
    let input = if keyboard {
        KEYBOARD_RULE
    } else {
        INPUT_RULE
    };
    let mut out = owned(TASK_OPENING);
    out.append(document);
    out.append(TASK_WINDOW);
    out.append(filename);
    out.append(TASK_MODEL);
    out.append(mode);
    out.append("\n");
    out.append(input);
    out.append(TASK_GOAL);
    out.append(expected);
    out.append(TASK_RULES);
    out.append(store);
    out.append(TASK_CLOSING);
    out
}

/// A text, unless it is empty.
pub open spec fn filled(o: Option<Seq<char>>) -> Option<Seq<char>> {
    match o {
        Some(s) => if s.len() > 0 {
            Some(s)
        } else {
            None
        },
        None => None,
    }
}

/// The model that the configuration names for workflows, and its provider:
/// the one that is named beside it, else the one that was last used with it.
/// The model of the registry where it names none.
pub fn selected_model(
    workflow: Option<String>,
    workflow_provider: Option<String>,
    last_used: Option<String>,
    registry_model: String,
    registry_hint: Option<String>,
) -> (r: (String, Option<String>))
    ensures
        match filled(model::opt_view(workflow)) {
            None => r.0@ == registry_model@ && model::opt_view(r.1) == model::opt_view(
                registry_hint,
            ),
            Some(m) => r.0@ == m && model::opt_view(r.1) == match filled(
                model::opt_view(workflow_provider),
            ) {
                Some(p) => Some(p),
                None => model::opt_view(last_used),
            },
        },
{
    match workflow {
        Some(m) => {
            if !m.as_str().is_empty() {
                let named = match workflow_provider {
                    Some(p) => if p.as_str().is_empty() {
                        last_used
                    } else {
                        Some(p)
                    },
                    None => last_used,
                };
                return (m, named);
            }
        },
        None => {},
    }
    (registry_model, registry_hint)
}

/// The provider of the model: the one that was found, else the only one that
/// offers the model.
pub fn only_provider(found: Option<String>, offering: &Vec<String>) -> (r: Result<String, String>)
    ensures
        match model::opt_view(found) {
            Some(p) => r matches Ok(s) && s@ == p,
            None => if offering@.len() == 1 {
                r matches Ok(s) && s@ == offering@[0]@
            } else {
                r matches Err(s) && s@ == "工作流模型提供商不唯一或未配置，请先在应用内选择模型"@
            },
        },
{
    match found {
        Some(p) => Ok(p),
        None => if offering.len() == 1 {
            Ok(offering[0].clone())
        } else {
            Err(owned("工作流模型提供商不唯一或未配置，请先在应用内选择模型"))
        },
    }
}

/// Why a run cannot begin: the enhanced provider needs a key.
pub fn missing_key(enhanced: bool, key: &str) -> (r: Option<&'static str>)
    ensures
        text::opt_str(r) == if enhanced && text::blank(key@) {
            Some("增强判断模型没有可用密钥；请在应用内配置后再进行增强验收"@)
        } else {
            None
        },
{
    if enhanced && is_blank(key) {
        Some("增强判断模型没有可用密钥；请在应用内配置后再进行增强验收")
    } else {
        None
    }
}

/// What was found after a run.
#[derive(Debug, Clone, Copy)]
pub struct Evidence {
    pub agent_success: bool,
    pub workflow_run_success: bool,
    pub document_matches: bool,
    pub replays_desktop_action: bool,
    pub workflow_contains_bypass: bool,
    pub direct_document_write_or_shell: bool,
    pub contains_static_window_handle: bool,
    pub enhanced_decision_responses: usize,
}

/// Whether a run is accepted: the agent and the workflow succeeded, the
/// document holds the expected line, the workflow acts on the desktop, nothing
/// got by without it, no handle was saved, and in the enhanced mode the
/// enhanced provider decided.
pub open spec fn acceptable(e: Evidence, enhanced: bool) -> bool {
    &&& e.agent_success
    &&& e.workflow_run_success
    &&& e.document_matches
    &&& e.replays_desktop_action
    &&& !e.workflow_contains_bypass
    &&& !e.direct_document_write_or_shell
    &&& !e.contains_static_window_handle
    &&& enhanced ==> e.enhanced_decision_responses > 0
}

/// Whether a run is accepted.
pub fn accepted(e: &Evidence, enhanced: bool) -> (r: bool)
    ensures
        r == acceptable(*e, enhanced),
{
    e.agent_success && e.workflow_run_success && e.document_matches && e.replays_desktop_action
        && !e.workflow_contains_bypass && !e.direct_document_write_or_shell
        && !e.contains_static_window_handle && (!enhanced || e.enhanced_decision_responses > 0)
}

/// Whether a value stands directly inside another.
pub open spec fn stands_in(inner: Json, outer: Json) -> bool {
    match outer {
        Json::Object(o) => exists|i: int| 0 <= i < o@.len() && (#[trigger] o@[i]).1 == inner,
        Json::List(l) => exists|i: int| 0 <= i < l@.len() && #[trigger] l@[i] == inner,
        _ => false,
    }
}

/// No nesting hides a way round the desktop, a desktop action or a saved
/// handle: what a value inside another shows, the other shows too.
pub proof fn nesting_hides_nothing(inner: Json, outer: Json)
    requires
        stands_in(inner, outer),
    ensures
        holds_action(inner) ==> holds_action(outer),
        holds_bypass(inner) ==> holds_bypass(outer),
        holds_handle(inner) ==> holds_handle(outer),
{
    match outer {
        Json::Object(o) => {
            let i = choose|i: int| 0 <= i < o@.len() && (#[trigger] o@[i]).1 == inner;
            assert(o@[i].1 == inner);
        },
        Json::List(l) => {
            let i = choose|i: int| 0 <= i < l@.len() && #[trigger] l@[i] == inner;
            assert(l@[i] == inner);
        },
        _ => {},
    }
}

/// An answer counts only after the decision that it answers was asked for: a
/// session that never asks for a decision has none made or handed over.
pub proof fn unasked_decisions_do_not_count(pieces: Seq<Piece>, n: nat)
    requires
        n <= pieces.len(),
        forall|k: int, id: Seq<char>|
            0 <= k < pieces.len() ==> !#[trigger] asks_decision(pieces[k], id),
    ensures
        responses(pieces, n) == 0,
        handoffs(pieces, n) == 0,
    decreases n,
{
    if n > 0 {
        unasked_decisions_do_not_count(pieces, (n - 1) as nat);
        let i = n - 1;
        if pieces[i] is Result {
            let id = pieces[i]->use_id@;
            assert(!decision_asked(pieces.take(i), id)) by {
                if decision_asked(pieces.take(i), id) {
                    let k = choose|k: int|
                        0 <= k < i && asks_decision(#[trigger] pieces.take(i)[k], id);
                    assert(pieces.take(i)[k] == pieces[k]);
                }
            }
        }
    }
}

/// The tools that act on the desktop, and those that could get by without it.
pub proof fn tools_are_told_apart(tool: Seq<char>)
    ensures
        acts_on_desktop(tool) <==> tool == "desktop_semantic_action"@ || tool
            == "desktop_semantic_execute"@ || tool == "desktop_input"@ || tool == "desktop_mouse"@
            || tool == "desktop_agent_step"@,
        bypasses_desktop(tool) <==> tool == "Bash"@ || tool == "Shell"@ || tool == "Write"@ || tool
            == "Edit"@ || tool == "system_shell"@ || text::begins(tool, "browser_"@),
{
}

/// A workflow holds an action, a way around the desktop or a handle only where it
/// says so itself or something in it does: a plain value holds none.
pub proof fn nothing_is_read_into_a_workflow(j: Json)
    ensures
        j is Other || j is Text ==> !holds_action(j) && !holds_bypass(j) && !holds_handle(j),
        holds_action(j) ==> (j is Object && acts_on_desktop(tool_named(j))) || exists|inner: Json|
            #[trigger] stands_in(inner, j) && holds_action(inner),
        holds_bypass(j) ==> (j matches Json::Object(o) && (has_member(o@, "script"@)
            || bypasses_desktop(tool_named(j)))) || exists|inner: Json| #[trigger]
            stands_in(inner, j) && holds_bypass(inner),
        holds_handle(j) ==> (j matches Json::Object(o) && exists|i: int|
            0 <= i < o@.len() && (#[trigger] o@[i]).0@ == "hwnd"@ && !filled_in(o@[i].1)) || exists|
            inner: Json,
        | #[trigger] stands_in(inner, j) && holds_handle(inner),
        j matches Json::Object(o) ==> (acts_on_desktop(tool_named(j)) ==> holds_action(j)) && (
        has_member(o@, "script"@) || bypasses_desktop(tool_named(j)) ==> holds_bypass(j)),
{
    match j {
        Json::Object(o) => {
            if holds_action(j) && !acts_on_desktop(tool_named(j)) {
                let i = choose|i: int| 0 <= i < o@.len() && holds_action((#[trigger] o@[i]).1);
                assert(stands_in(o@[i].1, j));
            }
            if holds_bypass(j) && !has_member(o@, "script"@) && !bypasses_desktop(tool_named(j)) {
                let i = choose|i: int| 0 <= i < o@.len() && holds_bypass((#[trigger] o@[i]).1);
                assert(stands_in(o@[i].1, j));
            }
            if holds_handle(j) {
                let i = choose|i: int|
                    0 <= i < o@.len() && {
                        ||| (#[trigger] o@[i]).0@ == "hwnd"@ && !filled_in(o@[i].1)
                        ||| holds_handle(o@[i].1)
                    };
                assert(stands_in(o@[i].1, j));
            }
        },
        Json::List(l) => {
            if holds_action(j) {
                let i = choose|i: int| 0 <= i < l@.len() && holds_action(#[trigger] l@[i]);
                assert(stands_in(l@[i], j));
            }
            if holds_bypass(j) {
                let i = choose|i: int| 0 <= i < l@.len() && holds_bypass(#[trigger] l@[i]);
                assert(stands_in(l@[i], j));
            }
            if holds_handle(j) {
                let i = choose|i: int| 0 <= i < l@.len() && holds_handle(#[trigger] l@[i]);
                assert(stands_in(l@[i], j));
            }
        },
        _ => {},
    }
}

/// A saved handle counts unless it is a placeholder that is filled in at the run.
pub proof fn placeholders_are_no_handles(j: Json, i: int)
    ensures
        filled_in(j) <==> j is Text && text::begins(j->Text_0@, "{{"@),
        j matches Json::Object(o) ==> (0 <= i < o@.len() && o@[i].0@ == "hwnd"@ && !filled_in(
            o@[i].1,
        ) ==> holds_handle(j)),
{
}

/// A decision counts where it answers, without a failure, a call of the decision
/// tool that was made before it.
pub proof fn decisions_answer_their_call(pieces: Seq<Piece>, i: int)
    requires
        0 <= i < pieces.len(),
    ensures
        decision_reply(pieces, i) is Some ==> pieces[i] is Result && !pieces[i]->failed
            && decision_reply(pieces, i) == Some(pieces[i]->content@) && exists|k: int|
            0 <= k < i && asks_decision(#[trigger] pieces[k], pieces[i]->use_id@),
        pieces[i] is Result && !pieces[i]->failed && (exists|k: int|
            0 <= k < i && asks_decision(#[trigger] pieces[k], pieces[i]->use_id@))
            ==> decision_reply(pieces, i) == Some(pieces[i]->content@),
        pieces[i] is Result && pieces[i]->failed ==> decision_reply(pieces, i) is None,
        !(pieces[i] is Result) ==> decision_reply(pieces, i) is None,
{
    if pieces[i] is Result {
        let id = pieces[i]->use_id@;
        let before = pieces.take(i);
        if decision_asked(before, id) {
            let k = choose|k: int| 0 <= k < before.len() && asks_decision(#[trigger] before[k], id);
            assert(asks_decision(pieces[k], id));
        }
        if (exists|k: int| 0 <= k < i && asks_decision(#[trigger] pieces[k], id)) {
            let k = choose|k: int| 0 <= k < i && asks_decision(#[trigger] pieces[k], id);
            assert(before[k] == pieces[k]);
        }
    }
}

/// A call asks for a decision where it is of the decision tool, under its id.
pub proof fn decisions_are_asked_by_their_tool(id: String, name: String, input: Json, other: Seq<char>)
    ensures
        asks_decision(Piece::Use { id, name, input }, other) <==> name@ == "desktop_agent_step"@
            && id@ == other,
        !asks_decision(Piece::Other, other),
        is_enhanced(Some(other)) <==> other == "jev"@,
        !is_enhanced(None),
        is_handoff(Some(other)) <==> other == "needs_primary_decision"@,
        !is_handoff(None),
{
}

/// Decisions of the enhanced provider, and those handed over, are counted one by
/// one.
pub proof fn decisions_are_counted(pieces: Seq<Piece>, n: nat)
    requires
        n < pieces.len(),
    ensures
        responses(pieces, 0) == 0 && handoffs(pieces, 0) == 0,
        decision_reply(pieces, n as int) is None ==> responses(pieces, n + 1) == responses(
            pieces,
            n,
        ) && handoffs(pieces, n + 1) == handoffs(pieces, n),
        decision_reply(pieces, n as int) matches Some(c) ==> {
            &&& from_enhanced(c) ==> responses(pieces, n + 1) == responses(pieces, n) + 1
            &&& !from_enhanced(c) ==> responses(pieces, n + 1) == responses(pieces, n)
            &&& handed_over(c) ==> handoffs(pieces, n + 1) == handoffs(pieces, n) + 1
            &&& !handed_over(c) ==> handoffs(pieces, n + 1) == handoffs(pieces, n)
        },
{
}

/// A document is written past the desktop by any shell, and by a file tool where
/// it names the document.
pub proof fn direct_writes_are_seen(id: String, name: String, input: Json, filename: Seq<char>)
    ensures
        ({
            let p = Piece::Use { id, name, input };
            &&& name@ == "Bash"@ || name@ == "Shell"@ || name@ == "system_shell"@ ==> writes_directly(
                p,
                filename,
            )
            &&& (name@ == "Write"@ || name@ == "Edit"@) && (names_file(input, "path"@, filename)
                || names_file(input, "file_path"@, filename) || names_file(
                input,
                "filename"@,
                filename,
            )) ==> writes_directly(p, filename)
            &&& writes_directly(p, filename) ==> name@ == "Bash"@ || name@ == "Shell"@ || name@
                == "system_shell"@ || name@ == "Write"@ || name@ == "Edit"@
            &&& (name@ == "Write"@ || name@ == "Edit"@) && writes_directly(p, filename)
                && name@ != "Bash"@ && name@ != "Shell"@ && name@ != "system_shell"@ ==> names_file(
                input,
                "path"@,
                filename,
            ) || names_file(input, "file_path"@, filename) || names_file(
                input,
                "filename"@,
                filename,
            )
        }),
        !writes_directly(Piece::Other, filename),
{
}

/// The mark at the beginning of a file is not part of its text.
pub proof fn marks_are_no_text(s: Seq<char>)
    ensures
        unmarked(seq!['\u{feff}'] + s) == unmarked(s),
        s.len() > 0 && s[0] != '\u{feff}' ==> unmarked(s) == s,
        unmarked(Seq::empty()) == Seq::<char>::empty(),
{
    let t = seq!['\u{feff}'] + s;
    assert(t.drop_first() =~= s);
    assert(t[0] == '\u{feff}');
}

/// What is asked for on the command line is taken word by word: each option
/// changes what it names and nothing else, and what is not known is refused.
pub proof fn options_change_what_they_name(
    rest: Seq<Seq<char>>,
    word: Seq<char>,
    n: u64,
    run: bool,
    o: OptionsModel,
    supported: bool,
)
    requires
        text::number(word) == Some(n),
    ensures
        asked(Seq::empty(), false, o, supported) == Ok::<AskedModel, Seq<char>>(AskedModel::Idle),
        asked(Seq::empty(), true, o, true) == Ok::<AskedModel, Seq<char>>(AskedModel::Run(o)),
        asked(Seq::empty(), true, o, false) is Err,
        asked(seq!["--run"@] + rest, run, o, supported) == asked(rest, true, o, supported),
        asked(seq!["--keyboard"@] + rest, run, o, supported) == asked(
            rest,
            run,
            OptionsModel { keyboard: true, ..o },
            supported,
        ),
        asked(seq!["--mode"@, "enhanced"@] + rest, run, o, supported) == asked(
            rest,
            run,
            OptionsModel { enhanced: true, ..o },
            supported,
        ),
        asked(seq!["--mode"@, "normal"@] + rest, run, o, supported) == asked(
            rest,
            run,
            OptionsModel { enhanced: false, ..o },
            supported,
        ),
        asked(seq!["--config"@, word] + rest, run, o, supported) == asked(
            rest,
            run,
            OptionsModel { config: profile::whole(word), ..o },
            supported,
        ),
        asked(seq!["--output-root"@, word] + rest, run, o, supported) == asked(
            rest,
            run,
            OptionsModel { output_root: profile::whole(word), ..o },
            supported,
        ),
        30 <= n <= 1800 ==> asked(seq!["--timeout-secs"@, word] + rest, run, o, supported) == asked(
            rest,
            run,
            OptionsModel { timeout_secs: n, ..o },
            supported,
        ),
        n < 30 || n > 1800 ==> asked(
            seq!["--timeout-secs"@, word] + rest,
            run,
            o,
            supported,
        ) is Err,
        asked(seq!["--help"@] + rest, run, o, supported) == Ok::<AskedModel, Seq<char>>(
            AskedModel::Help,
        ),
        asked(seq!["-h"@] + rest, run, o, supported) == Ok::<AskedModel, Seq<char>>(
            AskedModel::Help,
        ),
{
    reveal_strlit("--run");
    reveal_strlit("--keyboard");
    reveal_strlit("--mode");
    reveal_strlit("enhanced");
    reveal_strlit("normal");
    reveal_strlit("--config");
    reveal_strlit("--output-root");
    reveal_strlit("--timeout-secs");
    reveal_strlit("--help");
    reveal_strlit("-h");
    assert("--mode"@[2] == 'm');
    assert("--help"@[2] == 'h');
    assert("--run"@.len() == 5 && "--keyboard"@.len() == 10 && "--mode"@.len() == 6);
    assert("--config"@.len() == 8 && "--output-root"@.len() == 13 && "--timeout-secs"@.len() == 14);
    assert("--help"@.len() == 6 && "-h"@.len() == 2);
    assert("enhanced"@.len() == 8 && "normal"@.len() == 6);
    assert((seq!["--run"@] + rest).drop_first() =~= rest);
    assert((seq!["--keyboard"@] + rest).drop_first() =~= rest);
    let e = seq!["--mode"@, "enhanced"@] + rest;
    assert(e.drop_first().drop_first() =~= rest);
    let m = seq!["--mode"@, "normal"@] + rest;
    assert(m.drop_first().drop_first() =~= rest);
    let c = seq!["--config"@, word] + rest;
    assert(c.drop_first().drop_first() =~= rest);
    let r = seq!["--output-root"@, word] + rest;
    assert(r.drop_first().drop_first() =~= rest);
    let t = seq!["--timeout-secs"@, word] + rest;
    assert(t.drop_first().drop_first() =~= rest);
}

/// What is not asked for: the enhanced mode without the keyboard, for ten minutes,
/// with the configuration of the user.
pub proof fn unasked_options_are_plain(config_dir: Seq<char>, output_root: Seq<char>)
    ensures
        default_options(config_dir, output_root).enhanced,
        !default_options(config_dir, output_root).keyboard,
        default_options(config_dir, output_root).timeout_secs == 600,
        default_options(config_dir, output_root).config.base == config_dir,
        default_options(config_dir, output_root).config.parts == seq!["nuphus/providers.toml"@],
        default_options(config_dir, output_root).output_root == profile::whole(output_root),
        mode_text(true) == ENHANCED_RULE@,
        mode_text(false) == NORMAL_RULE@,
        input_text(true) == KEYBOARD_RULE@,
        input_text(false) == INPUT_RULE@,
{
    assert(default_options(config_dir, output_root).config.parts =~= seq![
        "nuphus/providers.toml"@,
    ]);
}

/// A run is accepted only where everything was found that should be and nothing
/// that should not: each finding alone can refuse it.
pub proof fn every_finding_can_refuse(e: Evidence, enhanced: bool)
    ensures
        acceptable(e, enhanced) ==> e.agent_success && e.workflow_run_success && e.document_matches
            && e.replays_desktop_action && !e.workflow_contains_bypass
            && !e.direct_document_write_or_shell && !e.contains_static_window_handle,
        acceptable(e, true) ==> e.enhanced_decision_responses > 0,
        e.agent_success && e.workflow_run_success && e.document_matches && e.replays_desktop_action
            && !e.workflow_contains_bypass && !e.direct_document_write_or_shell
            && !e.contains_static_window_handle ==> acceptable(e, false) && (
        e.enhanced_decision_responses > 0 ==> acceptable(e, true)),
        filled(None) is None,
{
}

/// An empty name counts as none.
pub proof fn empty_names_are_none(s: Seq<char>)
    ensures
        s.len() == 0 ==> filled(Some(s)) is None,
        s.len() > 0 ==> filled(Some(s)) == Some(s),
{
}

/// A member of an object is the first of its name; what has no such member, or is
/// no object, has none.
pub proof fn members_are_found_by_name(j: Json, name: Seq<char>, i: int)
    ensures
        j matches Json::Object(o) ==> {
            &&& 0 <= i < o@.len() && o@[i].0@ == name && (forall|k: int|
                0 <= k < i ==> (#[trigger] o@[k]).0@ != name) ==> member(j, name) == o@[i].1
            &&& (forall|k: int| 0 <= k < o@.len() ==> (#[trigger] o@[k]).0@ != name) ==> member(
                j,
                name,
            ) is Other
        },
        !(j is Object) ==> member(j, name) is Other,
        text_of(j) is Some <==> j is Text,
        j is Text ==> text_of(j) == Some(j->Text_0@),
        text_of(member(j, "tool"@)) matches Some(t) ==> tool_named(j) == t,
        text_of(member(j, "tool"@)) is None ==> tool_named(j).len() == 0,
{
    if j is Object {
        let o = j->Object_0;
        if 0 <= i < o@.len() && o@[i].0@ == name && (forall|k: int|
            0 <= k < i ==> (#[trigger] o@[k]).0@ != name) {
            assert(member_at(o@, name, i));
            let c = choose|c: int| member_at(o@, name, c);
            assert(member_at(o@, name, c));
            assert(c == i) by {
                if c < i {
                    assert(o@[c].0@ != name);
                }
                if i < c {
                    assert(o@[i].0@ != name);
                }
            }
        }
    }
}

/// The provider that a decision names.
pub proof fn providers_are_named_in_the_decision(content: Seq<char>, decision: Seq<char>)
    ensures
        mcp::json_member(content, "decision"@) == Ok::<
            Option<Option<Seq<char>>>,
            Seq<char>,
        >(Some(Some(decision))) ==> named_provider(content) == json::text_member(
            decision,
            "provider"@,
        ),
        mcp::json_member(content, "decision"@) is Err ==> named_provider(content) is None,
        mcp::json_member(content, "decision"@) == Ok::<Option<Option<Seq<char>>>, Seq<char>>(None)
            ==> named_provider(content) is None,
        from_enhanced(content) <==> named_provider(content) == Some("jev"@),
        handed_over(content) <==> json::text_member(content, "status"@) == Some(
            "needs_primary_decision"@,
        ),
{
}

} // verus!
