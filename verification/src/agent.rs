//! The agent that designs workflows, between its turns: what it is called, what
//! it was told, and what is remembered of a turn.
use vstd::prelude::*;
use vstd::string::*;

use crate::clock::now_rfc3339;
use crate::config;
use crate::config::{
    resolve_supports_vision, resolve_vision_strategy, ModelRegistry, RegistryModel, VisionModel,
    VisionStrategy,
};
use crate::model;
use crate::model::{copy_all, Plain};
use crate::prompt;
use crate::prompt::{
    build_workagent_prompt, EnvAudience, EnvFacts, EnvModel, ModelWindow, SkillInfo, SkillModel,
    WindowRow,
};
use crate::text;
use crate::text::{decimal, is_blank, join, owned, same_text, trim};
use crate::workflow::{StepModel, StepRecord};

verus! {

/// How many steps of a turn are remembered.
pub const REMEMBERED_STEPS: usize = 20;

/// The agent that designs workflows.
#[derive(Debug, Clone, PartialEq, Eq)]
pub struct WorkflowAgent {
    pub model_label: String,
    /// Whether its model sees images.
    pub supports_vision: bool,
    pub user_label: String,
    pub assistant_name: String,
    /// Where the message came from.
    pub source: String,
    /// Whether the message is of the program and not shown.
    pub internal_input: bool,
    pub refine_count: u32,
    /// Whether another model helps to decide.
    pub enhanced: bool,
    /// What it was told.
    pub cached_prompt: Option<String>,
    /// Whether its tools were listed.
    pub tools_cached: bool,
}

/// The content of a [`WorkflowAgent`].
#[verifier::ext_equal]
pub struct AgentModel {
    pub model_label: Seq<char>,
    pub supports_vision: bool,
    pub user_label: Seq<char>,
    pub assistant_name: Seq<char>,
    pub source: Seq<char>,
    pub internal_input: bool,
    pub refine_count: u32,
    pub enhanced: bool,
    pub cached_prompt: Option<Seq<char>>,
    pub tools_cached: bool,
}

impl View for WorkflowAgent {
    type V = AgentModel;

    open spec fn view(&self) -> AgentModel {
        AgentModel {
            model_label: self.model_label@,
            supports_vision: self.supports_vision,
            user_label: self.user_label@,
            assistant_name: self.assistant_name@,
            source: self.source@,
            internal_input: self.internal_input,
            refine_count: self.refine_count,
            enhanced: self.enhanced,
            cached_prompt: model::opt_view(self.cached_prompt),
            tools_cached: self.tools_cached,
        }
    }
}

/// Whether a model sees images, as far as is known.
pub open spec fn sees_images(registry: Option<RegistryModel>, label: Seq<char>) -> bool {
    match registry {
        Some(r) => config::sees(r, r.provider_hint, label),
        None => false,
    }
}

/// What is known of the models, if anything.
pub open spec fn known(registry: Option<&ModelRegistry>) -> Option<RegistryModel> {
    match registry {
        Some(r) => Some(r@),
        None => None,
    }
}

/// The model that looks at images: the one that was set, or the agent's own.
pub open spec fn vision_model(registry: Option<RegistryModel>, label: Seq<char>) -> Option<
    Seq<char>,
> {
    match registry {
        Some(r) => match config::vision_with(r) {
            VisionModel::Capability(name) => Some(name),
            VisionModel::Main => Some(label),
            VisionModel::Unavailable => None,
        },
        None => None,
    }
}

/// What an agent would be told anew.
pub open spec fn fresh_prompt(
    a: AgentModel,
    registry: Option<RegistryModel>,
    rows: Seq<WindowRow>,
    facts: EnvModel,
    provider: Seq<char>,
    tool_schemas: Seq<char>,
    tool_names: Seq<Seq<char>>,
    skills: Seq<SkillModel>,
    tenets: Seq<char>,
    servers: Option<Seq<Seq<char>>>,
) -> Seq<char> {
    prompt::work_prompt(
        prompt::env_section(
            rows,
            facts,
            a.model_label,
            Some(provider),
            None,
            sees_images(registry, a.model_label),
            vision_model(registry, a.model_label),
            EnvAudience::SubAgent,
        ),
        tool_schemas,
        tool_names,
        a.user_label,
        a.assistant_name,
        skills,
        tenets,
        servers,
    )
}

impl WorkflowAgent {
    /// An agent that was told nothing yet.
    pub fn new(
        model_label: String,
        user_label: String,
        assistant_name: String,
        enhanced: bool,
        registry: Option<&ModelRegistry>,
    ) -> (r: Self)
        ensures
            r@ == (AgentModel {
                model_label: model_label@,
                supports_vision: sees_images(known(registry), model_label@),
                user_label: user_label@,
                assistant_name: assistant_name@,
                source: "desktop"@,
                internal_input: false,
                refine_count: 0,
                enhanced,
                cached_prompt: None,
                tools_cached: false,
            }),
    {
        let supports_vision = resolve_supports_vision(registry, model_label.as_str());
        WorkflowAgent {
            model_label,
            supports_vision,
            user_label,
            assistant_name,
            source: owned("desktop"),
            internal_input: false,
            refine_count: 0,
            enhanced,
            cached_prompt: None,
            tools_cached: false,
        }
    }

    /// Says where the next message comes from.
    pub fn set_source(&mut self, source: &str)
        ensures
            final(self)@ == (AgentModel { source: source@, ..old(self)@ }),
    {
        self.source = owned(source);
    }

    /// Says whether the next message is of the program.
    pub fn set_internal_input(&mut self, internal: bool)
        ensures
            final(self)@ == (AgentModel { internal_input: internal, ..old(self)@ }),
    {
        self.internal_input = internal;
    }

    /// Changes what its model is called.
    pub fn set_model_label(&mut self, label: String, registry: Option<&ModelRegistry>)
        ensures
            final(self)@ == (AgentModel {
                supports_vision: sees_images(known(registry), label@),
                model_label: label@,
                ..old(self)@
            }),
    {
        self.supports_vision = resolve_supports_vision(registry, label.as_str());
        self.model_label = label;
    }

    /// What its model is called.
    pub fn model_label(&self) -> (r: &str)
        ensures
            r@ == self@.model_label,
    {
        self.model_label.as_str()
    }

    /// Gives it another model; what it was told and its tools are drawn up
    /// anew.
    pub fn set_llm(&mut self, model_label: String, registry: Option<&ModelRegistry>)
        ensures
            final(self)@ == (AgentModel {
                supports_vision: sees_images(known(registry), model_label@),
                model_label: model_label@,
                cached_prompt: None,
                tools_cached: false,
                ..old(self)@
            }),
    {
        self.set_model_label(model_label, registry);
        self.cached_prompt = None;
        self.tools_cached = false;
    }

    /// Has another model help to decide, or not; where that changes, what it
    /// was told and its tools are drawn up anew.
    pub fn set_enhanced_mode(&mut self, enabled: bool)
        ensures
            final(self)@ == if old(self)@.enhanced == enabled {
                old(self)@
            } else {
                AgentModel {
                    enhanced: enabled,
                    cached_prompt: None,
                    tools_cached: false,
                    ..old(self)@
                }
            },
    {
        if self.enhanced != enabled {
            self.enhanced = enabled;
            self.cached_prompt = None;
            self.tools_cached = false;
        }
    }

    /// Whether another model helps to decide.
    pub fn enhanced_mode(&self) -> (r: bool)
        ensures
            r == self@.enhanced,
    {
        self.enhanced
    }

    /// Changes how the person is addressed and what the agent is called; where
    /// either changes, what it was told is drawn up anew.
    pub fn set_names(&mut self, user_label: String, assistant_name: String)
        ensures
            final(self)@ == (AgentModel {
                cached_prompt: if old(self)@.user_label == user_label@
                    && old(self)@.assistant_name == assistant_name@ {
                    old(self)@.cached_prompt
                } else {
                    None
                },
                user_label: user_label@,
                assistant_name: assistant_name@,
                ..old(self)@
            }),
    {
        if !same_text(self.user_label.as_str(), user_label.as_str()) || !same_text(
            self.assistant_name.as_str(),
            assistant_name.as_str(),
        ) {
            self.cached_prompt = None;
        }
        self.user_label = user_label;
        self.assistant_name = assistant_name;
    }

    /// Brings the names up to date before a turn.
    pub fn sync_before_run(&mut self, user_label: &str, assistant_name: &str)
        ensures
            final(self)@ == (AgentModel {
                cached_prompt: if old(self)@.user_label == user_label@
                    && old(self)@.assistant_name == assistant_name@ {
                    old(self)@.cached_prompt
                } else {
                    None
                },
                user_label: user_label@,
                assistant_name: assistant_name@,
                ..old(self)@
            }),
    {
        self.set_names(owned(user_label), owned(assistant_name));
    }

    /// How often the conversation was condensed.
    pub fn refine_count(&self) -> (r: u32)
        ensures
            r == self@.refine_count,
    {
        self.refine_count
    }

    /// Counts that the conversation was condensed.
    pub fn inc_refine_count(&mut self)
        requires
            old(self)@.refine_count < u32::MAX,
        ensures
            final(self)@ == (AgentModel {
                refine_count: (old(self)@.refine_count + 1) as u32,
                ..old(self)@
            }),
    {
        self.refine_count = self.refine_count + 1;
    }

    /// What it is told: what it was told before, or else what is drawn up anew
    /// and kept.
    pub fn build_system_prompt(
        &mut self,
        registry: Option<&ModelRegistry>,
        windows: &Vec<ModelWindow>,
        facts: &EnvFacts,
        provider: &str,
        tool_schemas: &str,
        tool_names: &Vec<String>,
        skills: &Vec<SkillInfo>,
        tenets: &str,
        servers: Option<&Vec<String>>,
    ) -> (r: String)
        ensures
            r@ == match old(self)@.cached_prompt {
                Some(p) => p,
                None => fresh_prompt(
                    old(self)@,
                    known(registry),
                    model::seq_view(windows@),
                    facts@,
                    provider@,
                    tool_schemas@,
                    model::seq_view(tool_names@),
                    model::seq_view(skills@),
                    tenets@,
                    match servers {
                        Some(names) => Some(model::seq_view(names@)),
                        None => None,
                    },
                ),
            },
            final(self)@ == (AgentModel { cached_prompt: Some(r@), ..old(self)@ }),
    {
        if let Some(p) = &self.cached_prompt {
            return p.clone();
        }
        let looking: Option<String> = match resolve_vision_strategy(registry) {
            VisionStrategy::Capability(name) => Some(name),
            VisionStrategy::Main => Some(self.model_label.clone()),
            VisionStrategy::Unavailable => None,
        };
        let looking_at: Option<&str> = match &looking {
            Some(s) => Some(s.as_str()),
            None => None,
        };
        let sees = resolve_supports_vision(registry, self.model_label.as_str());
        let told = build_workagent_prompt(
            windows,
            facts,
            self.model_label.as_str(),
            Some(provider),
            sees,
            tool_schemas,
            tool_names,
            self.user_label.as_str(),
            self.assistant_name.as_str(),
            looking_at,
            skills,
            tenets,
            servers,
        );
        self.cached_prompt = Some(told.clone());
        told
    }
}

/// What an agent is told of what was remembered: in a conversation that is only
/// begun, and where anything was.
pub open spec fn snapshot_text(
    session_empty: bool,
    tail: Option<Seq<char>>,
    session_id: Seq<char>,
    path: Seq<char>,
) -> Option<Seq<char>> {
    match tail {
        Some(t) => if session_empty && !text::blank(t) {
            Some(
                "=== 历史工作流记忆（来自 workflow-memory.md，追加式日志，最新即所读）===\n"@
                    + text::trimmed(t) + "\n\n当前 session id："@ + session_id
                    + "\n记忆快照文件：read "@ + path
                    + "（追加式日志，tail 即最新）\n> 更新用 workflow_memory_update；跨会话检索用 memory_search / memory_recent"@,
            )
        } else {
            None
        },
        None => None,
    }
}

/// What an agent is told of what was remembered; `tail` is the end of the
/// journal, where it could be read.
pub fn inject_memory_snapshot(
    session_empty: bool,
    tail: Option<&str>,
    session_id: &str,
    path: &str,
) -> (r: Option<String>)
    ensures
        model::opt_view(r) == snapshot_text(
            session_empty,
            text::opt_str(tail),
            session_id@,
            path@,
        ),
{
    match tail {
        Some(t) => {
            if !session_empty || is_blank(t) {
                return None;
            }
            let kept = trim(t);
            let mut out = owned(
                "=== 历史工作流记忆（来自 workflow-memory.md，追加式日志，最新即所读）===\n",
            );
            out.append(kept.as_str());
            out.append("\n\n当前 session id：");
            out.append(session_id);
            out.append("\n记忆快照文件：read ");
            out.append(path);
            out.append(
                "（追加式日志，tail 即最新）\n> 更新用 workflow_memory_update；跨会话检索用 memory_search / memory_recent",
            );
            Some(out)
        },
        None => None,
    }
}

/// A text that is cut to a length, where one is set.
#[derive(Debug, Clone, PartialEq, Eq)]
pub struct Cut {
    pub text: String,
    pub limit: Option<usize>,
}

/// The content of a [`Cut`].
#[verifier::ext_equal]
pub struct CutModel {
    pub text: Seq<char>,
    pub limit: Option<usize>,
}

impl View for Cut {
    type V = CutModel;

    open spec fn view(&self) -> CutModel {
        CutModel {
            text: self.text@,
            limit: self.limit,
        }
    }
}

impl Plain for Cut {
    fn copied(&self) -> (r: Self) {
        Cut {
            text: self.text.clone(),
            limit: self.limit,
        }
    }

    fn same(&self, other: &Self) -> (r: bool) {
        same_text(self.text.as_str(), other.text.as_str())
            && self.limit == other.limit
    }
}

/// What is remembered of a turn.
#[derive(Debug, Clone, PartialEq, Eq)]
pub struct TurnEntry {
    pub session_id: String,
    pub turn_id: String,
    pub intent: Cut,
    pub summary: Cut,
    pub user_message: Cut,
    pub assistant_message: Cut,
    pub tools_used: Vec<String>,
    pub success: bool,
    pub execution_steps: Vec<StepRecord>,
    pub goal_type: String,
    pub tags: Vec<String>,
}

/// The content of a [`TurnEntry`].
#[verifier::ext_equal]
pub struct TurnEntryModel {
    pub session_id: Seq<char>,
    pub turn_id: Seq<char>,
    pub intent: CutModel,
    pub summary: CutModel,
    pub user_message: CutModel,
    pub assistant_message: CutModel,
    pub tools_used: Seq<Seq<char>>,
    pub success: bool,
    pub execution_steps: Seq<StepModel>,
    pub goal_type: Seq<char>,
    pub tags: Seq<Seq<char>>,
}

impl View for TurnEntry {
    type V = TurnEntryModel;

    open spec fn view(&self) -> TurnEntryModel {
        TurnEntryModel {
            session_id: self.session_id@,
            turn_id: self.turn_id@,
            intent: self.intent@,
            summary: self.summary@,
            user_message: self.user_message@,
            assistant_message: self.assistant_message@,
            tools_used: model::seq_view(self.tools_used@),
            success: self.success,
            execution_steps: model::seq_view(self.execution_steps@),
            goal_type: self.goal_type@,
            tags: model::seq_view(self.tags@),
        }
    }
}

/// A conversation as it is listed.
#[derive(Debug, Clone, PartialEq, Eq)]
pub struct SessionRow {
    pub id: String,
    pub parent_id: Option<String>,
    pub depth: i64,
    pub created_at: String,
    pub updated_at: String,
    pub message_count: i64,
    pub token_count: i64,
    pub summary: Cut,
}

/// The content of a [`SessionRow`].
#[verifier::ext_equal]
pub struct SessionRowModel {
    pub id: Seq<char>,
    pub parent_id: Option<Seq<char>>,
    pub depth: i64,
    pub created_at: Seq<char>,
    pub updated_at: Seq<char>,
    pub message_count: i64,
    pub token_count: i64,
    pub summary: CutModel,
}

impl View for SessionRow {
    type V = SessionRowModel;

    open spec fn view(&self) -> SessionRowModel {
        SessionRowModel {
            id: self.id@,
            parent_id: model::opt_view(self.parent_id),
            depth: self.depth,
            created_at: self.created_at@,
            updated_at: self.updated_at@,
            message_count: self.message_count,
            token_count: self.token_count,
            summary: self.summary@,
        }
    }
}

/// A text that is cut.
pub open spec fn cut(t: Seq<char>, limit: usize) -> CutModel {
    CutModel { text: t, limit: Some(limit) }
}

/// A text that is cut.
fn cut_to(t: &str, limit: usize) -> (r: Cut)
    ensures
        r@ == cut(t@, limit),
{
    Cut { text: owned(t), limit: Some(limit) }
}

/// What a turn came to in short: its result, or else the tools it called.
pub open spec fn turn_summary(result: Seq<char>, tools: Seq<Seq<char>>) -> CutModel {
    if result.len() > 0 {
        cut(result, 300)
    } else if tools.len() > 0 {
        cut(
            "Called "@ + text::decimal_text(tools.len()) + " tool(s): "@ + text::joined(
                tools,
                ", "@,
            ),
            300,
        )
    } else {
        CutModel { text: "no tools executed"@, limit: None }
    }
}

/// The last steps of a turn.
pub open spec fn last_steps(steps: Seq<StepModel>) -> Seq<StepModel> {
    if steps.len() > REMEMBERED_STEPS {
        steps.skip(steps.len() - REMEMBERED_STEPS)
    } else {
        steps
    }
}

/// What is remembered of a turn; nothing where nothing was said or done.
pub open spec fn turn_memory(
    session_id: Seq<char>,
    turn_count: u64,
    input: Seq<char>,
    result: Seq<char>,
    success: bool,
    tools: Seq<Seq<char>>,
    steps: Seq<StepModel>,
    categories: Seq<Seq<char>>,
) -> Option<TurnEntryModel> {
    if input.len() == 0 && tools.len() == 0 {
        None
    } else {
        Some(
            TurnEntryModel {
                session_id,
                turn_id: text::decimal_text(turn_count as nat),
                intent: cut(input, 200),
                summary: turn_summary(result, tools),
                user_message: cut(input, 2000),
                assistant_message: cut(result, 2000),
                tools_used: tools,
                success,
                execution_steps: last_steps(steps),
                goal_type: "workflow_turn"@,
                tags: seq![
                    "workflow_turn"@,
                    if success {
                        "success"@
                    } else {
                        "failure"@
                    },
                ] + categories,
            },
        )
    }
}

/// The last steps of a turn.
fn copy_last(steps: &Vec<StepRecord>) -> (r: Vec<StepRecord>)
    ensures
        model::seq_view(r@) == last_steps(model::seq_view(steps@)),
{
    let ghost all = model::seq_view(steps@);
    let from: usize = if steps.len() > REMEMBERED_STEPS {
        steps.len() - REMEMBERED_STEPS
    } else {
        0
    };
    let mut out: Vec<StepRecord> = Vec::new();
    let mut i: usize = from;
    assert(model::seq_view(out@) =~= all.subrange(from as int, from as int));
    while i < steps.len()
        invariant
            from <= i <= steps@.len(),
            all == model::seq_view(steps@),
            model::seq_view(out@) == all.subrange(from as int, i as int),
        decreases steps@.len() - i,
    {
        let ghost before = out@;
        out.push(steps[i].copied());
        proof {
            assert(model::seq_view(out@) =~= model::seq_view(before).push(all[i as int]));
            assert(all.subrange(from as int, i + 1) =~= all.subrange(from as int, i as int).push(
                all[i as int],
            ));
        }
        i = i + 1;
    }
    assert(all.subrange(from as int, all.len() as int) =~= last_steps(all));
    out
}

/// What a turn came to in short.
fn summarize(result: &str, tools: &Vec<String>) -> (r: Cut)
    ensures
        r@ == turn_summary(result@, model::seq_view(tools@)),
{
    if !result.is_empty() {
        return cut_to(result, 300);
    }
    if tools.len() == 0 {
        return Cut { text: owned("no tools executed"), limit: None };
    }
    let count = decimal(tools.len() as u64);
    let names = join(tools, ", ");
    let mut out = owned("Called ");
    out.append(count.as_str());
    out.append(" tool(s): ");
    out.append(names.as_str());
    Cut { text: out, limit: Some(300) }
}

/// The marks of a turn.
fn turn_tags(success: bool, categories: &Vec<String>) -> (r: Vec<String>)
    ensures
        model::seq_view(r@) == seq![
            "workflow_turn"@,
            if success {
                "success"@
            } else {
                "failure"@
            },
        ] + model::seq_view(categories@),
{
    let ghost all = model::seq_view(categories@);
    let mut out: Vec<String> = Vec::new();
    out.push(owned("workflow_turn"));
    if success {
        out.push(owned("success"));
    } else {
        out.push(owned("failure"));
    }
    let ghost first = seq![
        "workflow_turn"@,
        if success {
            "success"@
        } else {
            "failure"@
        },
    ];
    let mut i: usize = 0;
    assert(model::seq_view(out@) =~= first + all.take(0));
    while i < categories.len()
        invariant
            i <= categories@.len(),
            all == model::seq_view(categories@),
            model::seq_view(out@) == first + all.take(i as int),
        decreases categories@.len() - i,
    {
        let ghost before = out@;
        out.push(categories[i].clone());
        proof {
            let one = all[i as int];
            assert(model::seq_view(out@) =~= model::seq_view(before).push(one));
            assert(first + all.take(i + 1) =~= (first + all.take(i as int)).push(one));
        }
        i = i + 1;
    }
    assert(all.take(all.len() as int) =~= all);
    out
}

/// What is remembered of a turn: what was asked and answered, the tools, the
/// last steps, and whether it succeeded. `categories` are the marks of the
/// tools.
pub fn store_turn_memory(
    session_id: &str,
    turn_count: u64,
    input: &str,
    result_msg: &str,
    success: bool,
    tools_used: &Vec<String>,
    steps: &Vec<StepRecord>,
    categories: &Vec<String>,
) -> (r: Option<TurnEntry>)
    ensures
        model::opt_view(r) == turn_memory(
            session_id@,
            turn_count,
            input@,
            result_msg@,
            success,
            model::seq_view(tools_used@),
            model::seq_view(steps@),
            model::seq_view(categories@),
        ),
{
    if input.is_empty() && tools_used.len() == 0 {
        return None;
    }
    let turn_id = decimal(turn_count);
    let intent = cut_to(input, 200);
    let summary = summarize(result_msg, tools_used);
    let user_message = cut_to(input, 2000);
    let assistant_message = cut_to(result_msg, 2000);
    let tools = copy_all(tools_used);
    let last = copy_last(steps);
    let tags = turn_tags(success, categories);
    let entry = TurnEntry {
        session_id: owned(session_id),
        turn_id,
        intent,
        summary,
        user_message,
        assistant_message,
        tools_used: tools,
        success,
        execution_steps: last,
        goal_type: owned("workflow_turn"),
        tags,
    };
    Some(entry)
}

/// How a conversation is listed after a turn at a time.
pub open spec fn session_listed(
    existing: Option<SessionRowModel>,
    id: Seq<char>,
    now: Seq<char>,
    input: Seq<char>,
    result: Seq<char>,
) -> SessionRowModel {
    SessionRowModel {
        id,
        parent_id: match existing {
            Some(r) => r.parent_id,
            None => None,
        },
        depth: match existing {
            Some(r) => r.depth,
            None => 0,
        },
        created_at: match existing {
            Some(r) => r.created_at,
            None => now,
        },
        updated_at: now,
        message_count: match existing {
            Some(r) => (r.message_count + 1) as i64,
            None => 1,
        },
        token_count: 0,
        summary: if result.len() > 0 {
            cut(result, 200)
        } else {
            cut(input, 200)
        },
    }
}

/// How a conversation is listed after a turn at a time: where it came from and
/// when it was begun stay as they were.
pub fn session_row_at(
    existing: Option<SessionRow>,
    id: &str,
    now: String,
    input: &str,
    result_msg: &str,
) -> (r: SessionRow)
    requires
        existing matches Some(e) ==> e.message_count < i64::MAX,
    ensures
        r@ == session_listed(model::opt_view(existing), id@, now@, input@, result_msg@),
{
    let summary = if !result_msg.is_empty() {
        cut_to(result_msg, 200)
    } else {
        cut_to(input, 200)
    };
    match existing {
        Some(e) => SessionRow {
            id: owned(id),
            parent_id: e.parent_id,
            depth: e.depth,
            created_at: e.created_at,
            updated_at: now,
            message_count: e.message_count + 1,
            token_count: 0,
            summary,
        },
        None => SessionRow {
            id: owned(id),
            parent_id: None,
            depth: 0,
            created_at: now.clone(),
            updated_at: now,
            message_count: 1,
            token_count: 0,
            summary,
        },
    }
}

/// How a conversation is listed after a turn now.
pub fn session_row(existing: Option<SessionRow>, id: &str, input: &str, result_msg: &str) -> (r:
    SessionRow)
    requires
        existing matches Some(e) ==> e.message_count < i64::MAX,
    ensures
        r@ == session_listed(
            model::opt_view(existing),
            id@,
            r@.updated_at,
            input@,
            result_msg@,
        ),
{
    let now = now_rfc3339();
    session_row_at(existing, id, now, input, result_msg)
}

/// How many tokens were used, as it is told.
#[derive(Debug, Clone, PartialEq, Eq)]
pub struct TokenUsage {
    pub input_tokens: u32,
    pub output_tokens: u32,
    pub cache_hit_tokens: Option<u32>,
    pub source: &'static str,
}

/// The content of a [`TokenUsage`].
#[verifier::ext_equal]
pub struct UsageModel {
    pub input_tokens: u32,
    pub output_tokens: u32,
    pub cache_hit_tokens: Option<u32>,
    pub source: Seq<char>,
}

impl View for TokenUsage {
    type V = UsageModel;

    open spec fn view(&self) -> UsageModel {
        UsageModel {
            input_tokens: self.input_tokens,
            output_tokens: self.output_tokens,
            cache_hit_tokens: self.cache_hit_tokens,
            source: self.source@,
        }
    }
}

/// What is told of the tokens of an answer: those of the call, and those of the
/// whole conversation.
pub fn usage_events(usage: Option<(u32, u32)>, cache_hit_tokens: Option<u32>, session_tokens: u64) -> (r:
    Vec<TokenUsage>)
    ensures
        model::seq_view(r@) == match usage {
            Some(u) => seq![
                UsageModel {
                    input_tokens: u.0,
                    output_tokens: u.1,
                    cache_hit_tokens,
                    source: "workflow"@,
                },
                UsageModel {
                    input_tokens: session_tokens as u32,
                    output_tokens: 0,
                    cache_hit_tokens,
                    source: "main"@,
                },
            ],
            None => Seq::empty(),
        },
{
    let mut out: Vec<TokenUsage> = Vec::new();
    if let Some((input, output)) = usage {
        out.push(
            TokenUsage {
                input_tokens: input,
                output_tokens: output,
                cache_hit_tokens,
                source: "workflow",
            },
        );
        #[verifier::truncate]
        let total: u32 = session_tokens as u32;
        out.push(
            TokenUsage {
                input_tokens: total,
                output_tokens: 0,
                cache_hit_tokens,
                source: "main",
            },
        );
        assert(model::seq_view(out@) =~= seq![
            UsageModel {
                input_tokens: input,
                output_tokens: output,
                cache_hit_tokens,
                source: "workflow"@,
            },
            UsageModel {
                input_tokens: session_tokens as u32,
                output_tokens: 0,
                cache_hit_tokens,
                source: "main"@,
            },
        ]);
    } else {
        assert(model::seq_view(out@) =~= Seq::<UsageModel>::empty());
    }
    out
}

/// Every turn in which something was said or done is remembered, with the last
/// of its steps and no more than a few.
pub proof fn turns_are_remembered(
    session_id: Seq<char>,
    turn_count: u64,
    input: Seq<char>,
    result: Seq<char>,
    success: bool,
    tools: Seq<Seq<char>>,
    steps: Seq<StepModel>,
    categories: Seq<Seq<char>>,
)
    ensures
        ({
            let m = turn_memory(
                session_id,
                turn_count,
                input,
                result,
                success,
                tools,
                steps,
                categories,
            );
            &&& (m is None) == (input.len() == 0 && tools.len() == 0)
            &&& m matches Some(e) ==> e.execution_steps.len() <= REMEMBERED_STEPS && (
            steps.len() > 0 ==> e.execution_steps.last() == steps.last())
        }),
{
}

/// An agent sees images where the registry says so of its model, and images go to
/// the model that is set for them, or to its own.
pub proof fn agent_sees_what_its_model_sees(r: RegistryModel, label: Seq<char>)
    ensures
        !sees_images(None, label),
        sees_images(Some(r), label) <==> config::sees(r, r.provider_hint, label),
        vision_model(None, label) is None,
        r.vision.len() > 0 ==> vision_model(Some(r), label) == Some(r.vision),
        r.vision.len() == 0 && config::sees(r, r.provider_hint, r.model) ==> vision_model(
            Some(r),
            label,
        ) == Some(label),
        r.vision.len() == 0 && !config::sees(r, r.provider_hint, r.model) ==> vision_model(
            Some(r),
            label,
        ) is None,
{
}

/// The memory of earlier work is told at the beginning of a session, where there
/// is any.
pub proof fn memory_is_told_at_the_beginning(
    session_empty: bool,
    tail: Option<Seq<char>>,
    session_id: Seq<char>,
    path: Seq<char>,
)
    ensures
        snapshot_text(session_empty, tail, session_id, path) is Some <==> session_empty
            && tail is Some && !text::blank(tail->Some_0),
        snapshot_text(session_empty, tail, session_id, path) matches Some(t) ==> text::has_part(
            t,
            text::trimmed(tail->Some_0),
        ) && text::has_part(t, session_id) && text::has_part(t, path),
{
    if session_empty && tail is Some && !text::blank(tail->Some_0) {
        let a = "=== 历史工作流记忆（来自 workflow-memory.md，追加式日志，最新即所读）===\n"@;
        let b = text::trimmed(tail->Some_0);
        let c = "\n\n当前 session id："@;
        let d = "\n记忆快照文件：read "@;
        let e = "（追加式日志，tail 即最新）\n> 更新用 workflow_memory_update；跨会话检索用 memory_search / memory_recent"@;
        let t = snapshot_text(session_empty, tail, session_id, path)->Some_0;
        assert(t == a + b + c + session_id + d + path + e);
        let i = a.len() as int;
        assert(t.subrange(i, i + b.len()) =~= b);
        assert(text::stands_at(t, b, i));
        let j = i + b.len() + c.len();
        assert(t.subrange(j, j + session_id.len()) =~= session_id);
        assert(text::stands_at(t, session_id, j));
        let k = j + session_id.len() + d.len();
        assert(t.subrange(k, k + path.len()) =~= path);
        assert(text::stands_at(t, path, k));
    }
}

/// A turn is summed up by its result; without one by the tools that it called;
/// and else as one that called none.
pub proof fn turns_are_summed_up(result: Seq<char>, tools: Seq<Seq<char>>)
    ensures
        result.len() > 0 ==> turn_summary(result, tools).text == result && turn_summary(
            result,
            tools,
        ).limit == Some(300usize),
        result.len() == 0 && tools.len() > 0 ==> turn_summary(result, tools).text == "Called "@
            + text::decimal_text(tools.len()) + " tool(s): "@ + text::joined(tools, ", "@)
            && turn_summary(result, tools).limit == Some(300usize),
        result.len() == 0 && tools.len() == 0 ==> turn_summary(result, tools).text
            == "no tools executed"@ && turn_summary(result, tools).limit is None,
{
}

/// Of the steps of a turn the last twenty are remembered, in their order.
pub proof fn last_steps_are_remembered(a: Seq<StepModel>, b: Seq<StepModel>)
    ensures
        a.len() <= 20 ==> last_steps(a) == a,
        b.len() == 20 ==> last_steps(a + b) == b,
{
    if b.len() == 20 {
        if a.len() > 0 {
            assert((a + b).skip((a + b).len() - 20) =~= b);
        } else {
            assert(a + b =~= b);
        }
    }
}

/// A turn is remembered as it was: what was asked and answered, whether it
/// succeeded, its tools and its steps.
pub proof fn turns_are_remembered_as_they_were(
    session_id: Seq<char>,
    turn_count: u64,
    input: Seq<char>,
    result: Seq<char>,
    success: bool,
    tools: Seq<Seq<char>>,
    steps: Seq<StepModel>,
    categories: Seq<Seq<char>>,
)
    ensures
        turn_memory(
            session_id,
            turn_count,
            input,
            result,
            success,
            tools,
            steps,
            categories,
        ) matches Some(e) ==> {
            &&& e.session_id == session_id
            &&& e.turn_id == text::decimal_text(turn_count as nat)
            &&& e.intent.text == input && e.intent.limit == Some(200usize)
            &&& e.user_message.text == input && e.user_message.limit == Some(2000usize)
            &&& e.assistant_message.text == result && e.assistant_message.limit == Some(2000usize)
            &&& e.summary == turn_summary(result, tools)
            &&& e.tools_used == tools
            &&& e.success == success
            &&& e.execution_steps == last_steps(steps)
            &&& e.goal_type == "workflow_turn"@
            &&& e.tags.len() == categories.len() + 2
            &&& e.tags[0] == "workflow_turn"@
            &&& success ==> e.tags[1] == "success"@
            &&& !success ==> e.tags[1] == "failure"@
            &&& e.tags.skip(2) == categories
        },
{
    if !(input.len() == 0 && tools.len() == 0) {
        let word = if success {
            "success"@
        } else {
            "failure"@
        };
        assert((seq!["workflow_turn"@, word] + categories).skip(2) =~= categories);
    }
}

/// A session keeps where it belongs and when it began, counts one message more,
/// and is listed with its latest result.
pub proof fn sessions_keep_their_beginning(
    existing: Option<SessionRowModel>,
    id: Seq<char>,
    now: Seq<char>,
    input: Seq<char>,
    result: Seq<char>,
)
    ensures
        ({
            let r = session_listed(existing, id, now, input, result);
            &&& r.id == id
            &&& r.updated_at == now
            &&& r.token_count == 0
            &&& existing matches Some(e) ==> r.parent_id == e.parent_id && r.depth == e.depth
                && r.created_at == e.created_at && (e.message_count < i64::MAX ==> r.message_count
                == e.message_count + 1)
            &&& existing is None ==> r.parent_id is None && r.depth == 0 && r.created_at == now
                && r.message_count == 1
            &&& result.len() > 0 ==> r.summary.text == result
            &&& result.len() == 0 ==> r.summary.text == input
            &&& r.summary.limit == Some(200usize)
        }),
{
}

/// The prompt of an agent is the work agent's, for its own names and its own
/// model: the model is told under its label with its provider, and to a sub agent.
pub proof fn prompt_is_for_the_agent(
    a: AgentModel,
    registry: Option<RegistryModel>,
    rows: Seq<WindowRow>,
    facts: EnvModel,
    provider: Seq<char>,
    tool_schemas: Seq<char>,
    tool_names: Seq<Seq<char>>,
    skills: Seq<SkillModel>,
    tenets: Seq<char>,
    servers: Option<Seq<Seq<char>>>,
)
    ensures
        fresh_prompt(
            a,
            registry,
            rows,
            facts,
            provider,
            tool_schemas,
            tool_names,
            skills,
            tenets,
            servers,
        ) == prompt::work_prompt(
            prompt::env_head(facts) + a.model_label + prompt::model_tail(
                prompt::window_of(rows, a.model_label, Some(provider)),
                sees_images(registry, a.model_label),
                vision_model(registry, a.model_label),
            ) + prompt::place_tail(facts, EnvAudience::SubAgent),
            tool_schemas,
            tool_names,
            a.user_label,
            a.assistant_name,
            skills,
            tenets,
            servers,
        ),
{
}

} // verus!
