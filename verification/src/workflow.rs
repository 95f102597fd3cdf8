//! One turn of the workflow agent as a state machine.
//!
//! Talking to the model, running tools and waiting for the user happen
//! outside. Each finding comes in as an event; what the session, the reminder
//! queue and the front end are to be told is written, in order, into a list of
//! effects.
use vstd::prelude::*;
use vstd::string::*;

use crate::agent;
use crate::agent::{inject_memory_snapshot, AgentModel, WorkflowAgent};
use crate::json;
use crate::json::{json_of, put_bool, put_member, read_text_member};
use crate::model;
use crate::model::{copy_all, copy_opt, Plain};
use crate::text;
use crate::text::{
    chars_of, contains_text, decimal, join, owned, same_text, starts_with, take_chars, trim,
};
use crate::tool::{AgentOutput, CallModel, ResultModel, ToolCall, ToolResult};

verus! {

/// How often a model call is tried again after a network error.
pub const MAX_RETRIES: u32 = 2;

/// How many characters of a tool's output are shown while it runs.
pub const PREVIEW_LIMIT: usize = 2000;

/// Bounds of a turn.
pub struct WorkflowAgentConfig {
    pub max_iterations: usize,
}

impl Default for WorkflowAgentConfig {
    /// Enough rounds for complex desktop flows, and a hard bound on wandering.
    fn default() -> (r: Self)
        ensures
            r.max_iterations == 180,
    {
        WorkflowAgentConfig { max_iterations: 180 }
    }
}

/// How pressing the call to deliver is after so many tool calls.
pub open spec fn delivery_level(tool_calls: int) -> int {
    if tool_calls < 24 {
        0
    } else if tool_calls < 48 {
        1
    } else if tool_calls < 96 {
        2
    } else {
        3
    }
}

/// How pressing the call to deliver is after so many tool calls.
pub fn delivery_warning_level(tool_calls: usize) -> (r: usize)
    ensures
        r == delivery_level(tool_calls as int),
{
    if tool_calls < 24 {
        0
    } else if tool_calls < 48 {
        1
    } else if tool_calls < 96 {
        2
    } else {
        3
    }
}

/// The urgency of a reminder.
#[derive(Debug, Clone, Copy, PartialEq, Eq, Structural)]
pub enum Priority {
    Normal,
    High,
    Critical,
}

/// A piece of a message.
#[derive(Debug, Clone, PartialEq, Eq)]
pub enum Block {
    Text { text: String },
    Image { url: String },
    ToolUse { id: String, name: String, input: String },
}

/// The content of a [`Block`].
#[verifier::ext_equal]
pub enum BlockModel {
    Text(Seq<char>),
    Image(Seq<char>),
    ToolUse(Seq<char>, Seq<char>, Seq<char>),
}

impl View for Block {
    type V = BlockModel;

    open spec fn view(&self) -> BlockModel {
        match self {
            Block::Text { text } => BlockModel::Text(text@),
            Block::Image { url } => BlockModel::Image(url@),
            Block::ToolUse { id, name, input } => BlockModel::ToolUse(id@, name@, input@),
        }
    }
}

impl Block {
    /// A copy of the block.
    fn copied(&self) -> (r: Self)
        ensures
            r@ == self@,
    {
        match self {
            Block::Text { text } => Block::Text { text: text.clone() },
            Block::Image { url } => Block::Image { url: url.clone() },
            Block::ToolUse { id, name, input } => Block::ToolUse {
                id: id.clone(),
                name: name.clone(),
                input: input.clone(),
            },
        }
    }
}

/// Something to be done outside, in order.
#[derive(Debug, Clone, PartialEq, Eq)]
pub enum Effect {
    /// Add a user message to the session.
    PushUser(String),
    /// Add a user message that is not shown.
    PushInternal(String),
    /// Add a user message made of blocks.
    PushUserBlocks(Vec<Block>),
    /// Add a reply of the model.
    PushAssistant(Vec<Block>),
    /// Add the result of a tool call.
    PushToolResult { call_id: String, text: String, failed: bool },
    /// Remove tool calls without a result from the session.
    StripIncomplete,
    /// Drop every pending reminder.
    ClearReminders,
    /// Remind the model for a number of rounds.
    Remind { text: String, rounds: u32, priority: Priority },
    /// Let appended instructions be taken in while the turn runs.
    SetRunning,
    /// Forget instructions that were appended to an earlier turn.
    ClearAppends,
    /// Count one more turn of the session.
    AdvanceTurn,
    /// Tell the front end of the user's message.
    ShowUser { content: String, source: String, images: Vec<String> },
    /// Tell the front end that the turn began.
    ShowStarted { goal: String, tools: Vec<String>, source: String, mode: &'static str },
    /// Tell the front end that the user broke the turn off.
    ShowCancelled { message: String },
    /// Tell the front end that appended instructions were taken in.
    ShowAppendsTaken,
    /// Tell the front end how far the turn is.
    ShowProgress { iteration: usize, max_iterations: usize, tool_calls: usize },
    /// Tell the front end that the turn is complete.
    ShowCompleted { message: String, tool_calls: usize },
    /// Tell the front end that a tool call begins.
    ShowToolStart { call_id: String, tool: String, params: String, iteration: usize },
    /// Tell the front end how a tool call ended.
    ShowToolEnd {
        call_id: String,
        tool: String,
        success: bool,
        duration_ms: u64,
        preview: String,
        full_size: usize,
        truncated: bool,
        error: Option<String>,
    },
    /// Tell the front end that the model call is tried again.
    ShowRetry { message: String, attempt: u32, max_attempts: u32 },
    /// Tell the front end that the turn failed.
    ShowFailed { error: String },
    /// Show a line in the heads-up display.
    ShowHud { line: String },
    /// Wait for a number of seconds.
    Sleep(u64),
    /// Condense the session if it is too long.
    Distill,
    /// Store the turn in memory: what the user asked for, what was reported, and
    /// whether the turn succeeded.
    StoreMemory { input: String, message: String, success: bool },
    /// Forget the errors that were counted in a row.
    ResetErrors,
}

/// The content of an [`Effect`].
#[verifier::ext_equal]
pub enum EffectModel {
    PushUser(Seq<char>),
    PushInternal(Seq<char>),
    PushUserBlocks(Seq<BlockModel>),
    PushAssistant(Seq<BlockModel>),
    PushToolResult(Seq<char>, Seq<char>, bool),
    StripIncomplete,
    ClearReminders,
    Remind(Seq<char>, u32, Priority),
    SetRunning,
    ClearAppends,
    AdvanceTurn,
    ShowUser(Seq<char>, Seq<char>, Seq<Seq<char>>),
    ShowStarted(Seq<char>, Seq<Seq<char>>, Seq<char>, Seq<char>),
    ShowCancelled(Seq<char>),
    ShowAppendsTaken,
    ShowProgress(int, int, int),
    ShowCompleted(Seq<char>, int),
    ShowToolStart(Seq<char>, Seq<char>, Seq<char>, int),
    ShowToolEnd(ToolEndModel),
    ShowRetry(Seq<char>, u32, u32),
    ShowFailed(Seq<char>),
    ShowHud(Seq<char>),
    Sleep(u64),
    Distill,
    StoreMemory(Seq<char>, Seq<char>, bool),
    ResetErrors,
}

/// What is shown of a tool call that ended.
#[verifier::ext_equal]
pub struct ToolEndModel {
    pub call_id: Seq<char>,
    pub tool: Seq<char>,
    pub success: bool,
    pub duration_ms: u64,
    pub preview: Seq<char>,
    pub full_size: usize,
    pub truncated: bool,
    pub error: Option<Seq<char>>,
}

impl View for Effect {
    type V = EffectModel;

    open spec fn view(&self) -> EffectModel {
        match self {
            Effect::PushUser(s) => EffectModel::PushUser(s@),
            Effect::PushInternal(s) => EffectModel::PushInternal(s@),
            Effect::PushUserBlocks(b) => EffectModel::PushUserBlocks(model::seq_view(b@)),
            Effect::PushAssistant(b) => EffectModel::PushAssistant(model::seq_view(b@)),
            Effect::PushToolResult { call_id, text, failed } => EffectModel::PushToolResult(
                call_id@,
                text@,
                *failed,
            ),
            Effect::StripIncomplete => EffectModel::StripIncomplete,
            Effect::ClearReminders => EffectModel::ClearReminders,
            Effect::Remind { text, rounds, priority } => EffectModel::Remind(
                text@,
                *rounds,
                *priority,
            ),
            Effect::SetRunning => EffectModel::SetRunning,
            Effect::ClearAppends => EffectModel::ClearAppends,
            Effect::AdvanceTurn => EffectModel::AdvanceTurn,
            Effect::ShowUser { content, source, images } => EffectModel::ShowUser(
                content@,
                source@,
                model::seq_view(images@),
            ),
            Effect::ShowStarted { goal, tools, source, mode } => EffectModel::ShowStarted(
                goal@,
                model::seq_view(tools@),
                source@,
                mode@,
            ),
            Effect::ShowCancelled { message } => EffectModel::ShowCancelled(message@),
            Effect::ShowAppendsTaken => EffectModel::ShowAppendsTaken,
            Effect::ShowProgress { iteration, max_iterations, tool_calls } => {
                EffectModel::ShowProgress(
                    *iteration as int,
                    *max_iterations as int,
                    *tool_calls as int,
                )
            },
            Effect::ShowCompleted { message, tool_calls } => EffectModel::ShowCompleted(
                message@,
                *tool_calls as int,
            ),
            Effect::ShowToolStart { call_id, tool, params, iteration } => EffectModel::ShowToolStart(
                call_id@,
                tool@,
                params@,
                *iteration as int,
            ),
            Effect::ShowToolEnd {
                call_id,
                tool,
                success,
                duration_ms,
                preview,
                full_size,
                truncated,
                error,
            } => EffectModel::ShowToolEnd(
                ToolEndModel {
                    call_id: call_id@,
                    tool: tool@,
                    success: *success,
                    duration_ms: *duration_ms,
                    preview: preview@,
                    full_size: *full_size,
                    truncated: *truncated,
                    error: model::opt_view(*error),
                },
            ),
            Effect::ShowRetry { message, attempt, max_attempts } => EffectModel::ShowRetry(
                message@,
                *attempt,
                *max_attempts,
            ),
            Effect::ShowFailed { error } => EffectModel::ShowFailed(error@),
            Effect::ShowHud { line } => EffectModel::ShowHud(line@),
            Effect::Sleep(secs) => EffectModel::Sleep(*secs),
            Effect::Distill => EffectModel::Distill,
            Effect::StoreMemory { input, message, success } => EffectModel::StoreMemory(
                input@,
                message@,
                *success,
            ),
            Effect::ResetErrors => EffectModel::ResetErrors,
        }
    }
}

/// What the user said when the turn was paused.
#[derive(Debug, Clone, PartialEq, Eq)]
pub enum PauseDecision {
    Continue,
    Append(String),
    Terminate,
}

/// Appended instructions, as they are put into the session and as a reminder.
#[derive(Debug, Clone, PartialEq, Eq)]
pub struct Append {
    pub section: String,
    pub priority: String,
}

/// How full the model's context is: the level from nought to four, the
/// percentage, the tokens used and the tokens there are.
#[derive(Debug, Clone, Copy, PartialEq, Eq, Structural)]
pub struct ContextReading {
    pub level: usize,
    pub percent: u32,
    pub usage: u64,
    pub window: u64,
}

/// What repeated refusals lead to.
#[derive(Debug, Clone, PartialEq, Eq)]
pub enum Breaker {
    /// Nothing.
    Calm,
    /// Words for the session, where there are any.
    Advise(Option<String>),
    /// The end of the turn.
    Halt,
}

/// What the checks before a tool call found.
#[derive(Debug, Clone, PartialEq, Eq)]
pub struct GuardReport {
    /// A warning about the call.
    pub alert: Option<String>,
    /// A refusal: the inner value is the error, where one was given.
    pub refusal: Option<Option<String>>,
    /// Refusals in a row, this one counted.
    pub safety_failures: u32,
    /// Warnings to be passed on at the end of the round.
    pub warnings: Vec<String>,
    /// What the refusals lead to.
    pub breaker: Breaker,
    /// A warning after the refusal.
    pub after_alert: Option<String>,
}

/// A step as it is remembered.
#[derive(Debug, Clone, PartialEq, Eq)]
pub struct StepRecord {
    pub tool: String,
    pub params: String,
    pub text: String,
    pub success: bool,
    pub duration_ms: u64,
}

/// The content of a [`StepRecord`].
#[verifier::ext_equal]
pub struct StepModel {
    pub tool: Seq<char>,
    pub params: Seq<char>,
    pub text: Seq<char>,
    pub success: bool,
    pub duration_ms: u64,
}

impl View for StepRecord {
    type V = StepModel;

    open spec fn view(&self) -> StepModel {
        StepModel {
            tool: self.tool@,
            params: self.params@,
            text: self.text@,
            success: self.success,
            duration_ms: self.duration_ms,
        }
    }
}

impl Plain for StepRecord {
    fn copied(&self) -> (r: Self) {
        StepRecord {
            tool: self.tool.clone(),
            params: self.params.clone(),
            text: self.text.clone(),
            success: self.success,
            duration_ms: self.duration_ms,
        }
    }

    fn same(&self, other: &Self) -> (r: bool) {
        same_text(self.tool.as_str(), other.tool.as_str()) && same_text(
            self.params.as_str(),
            other.params.as_str(),
        ) && same_text(self.text.as_str(), other.text.as_str()) && self.success == other.success
            && self.duration_ms == other.duration_ms
    }
}

/// What the check of a workflow found; the findings are lists in JSON.
#[derive(Debug, Clone, PartialEq, Eq)]
pub struct ValidationReport {
    pub passed: bool,
    pub errors: String,
    pub warnings: String,
}

/// The content of a [`ValidationReport`].
#[verifier::ext_equal]
pub struct ReportModel {
    pub passed: bool,
    pub errors: Seq<char>,
    pub warnings: Seq<char>,
}

impl View for ValidationReport {
    type V = ReportModel;

    open spec fn view(&self) -> ReportModel {
        ReportModel { passed: self.passed, errors: self.errors@, warnings: self.warnings@ }
    }
}

/// What outside work found.
pub enum TurnEvent {
    /// Whether the user broke the turn off.
    Cancelled(bool),
    /// Instructions that were appended meanwhile.
    Appended(Option<Append>),
    /// The user's decision, where the turn was paused.
    Paused(Option<PauseDecision>),
    /// How full the context is.
    Measured(ContextReading),
    /// Reminders and notices that are due.
    Prepared { reminder: Option<String>, notices: Vec<String> },
    /// The model's reply and the tool calls in it.
    Replied { blocks: Vec<Block>, calls: Vec<ToolCall> },
    /// The model call failed.
    CallFailed { network: bool, message: String },
    /// The checks before a tool call.
    Guarded(GuardReport),
    /// The workflows there are, for a call that names one.
    Listed { ids: Vec<String> },
    /// The check of the workflow that a call names: its report where there is
    /// such a workflow, else why it could not be loaded, where that is known.
    Validated { report: Option<ValidationReport>, load_error: Option<String>, duration_ms: u64 },
    /// A call needs the workflow engine, and there is none.
    NoEngine { duration_ms: u64 },
    /// A tool ended; where it asked the user, the question's id.
    Ran { result: ToolResult, action: Option<String>, duration_ms: u64 },
    /// A workflow ended.
    RunEnded { outcome: Result<String, String>, user_cancelled: bool, duration_ms: u64 },
    /// The user's answer, if there was one.
    Answered { value: Option<String>, duration_ms: u64 },
    /// The tool's text after filtering, and what was seen after the call.
    Shown { text: String, alert: Option<String>, cancelled: bool },
}

/// The next piece of outside work.
#[derive(Debug, Clone, PartialEq, Eq)]
pub enum TurnPhase {
    /// See whether the user broke the turn off.
    Boundary,
    /// Take appended instructions.
    Draining,
    /// See whether the turn is paused; if so, wait for the user.
    Pausing,
    /// Take appended instructions once more.
    Redraining,
    /// Measure the context.
    Measuring,
    /// Collect reminders and notices for a try of the model call.
    Preparing { attempt: u32 },
    /// Call the model.
    Calling { attempt: u32 },
    /// Check a tool call.
    Guarding { calls: Vec<ToolCall>, index: usize },
    /// Run the tool; for a workflow, list the workflows there are.
    Executing { calls: Vec<ToolCall>, index: usize },
    /// Run the workflow.
    Running { calls: Vec<ToolCall>, index: usize, workflow_id: String },
    /// Wait for the user's answer.
    Asking { calls: Vec<ToolCall>, index: usize, action: String },
    /// Filter the tool's text.
    Filtering { calls: Vec<ToolCall>, index: usize, output: String, success: bool },
    /// The turn is over.
    Done { success: bool, message: String },
    /// The turn broke off because the model could not be reached.
    Broken { message: String },
}

/// The content of a [`TurnPhase`].
#[verifier::ext_equal]
pub enum TurnPhaseModel {
    Boundary,
    Draining,
    Pausing,
    Redraining,
    Measuring,
    Preparing(u32),
    Calling(u32),
    Guarding(Seq<CallModel>, int),
    Executing(Seq<CallModel>, int),
    Running(Seq<CallModel>, int, Seq<char>),
    Asking(Seq<CallModel>, int, Seq<char>),
    Filtering(Seq<CallModel>, int, Seq<char>, bool),
    Done(bool, Seq<char>),
    Broken(Seq<char>),
}

impl View for TurnPhase {
    type V = TurnPhaseModel;

    open spec fn view(&self) -> TurnPhaseModel {
        match self {
            TurnPhase::Boundary => TurnPhaseModel::Boundary,
            TurnPhase::Draining => TurnPhaseModel::Draining,
            TurnPhase::Pausing => TurnPhaseModel::Pausing,
            TurnPhase::Redraining => TurnPhaseModel::Redraining,
            TurnPhase::Measuring => TurnPhaseModel::Measuring,
            TurnPhase::Preparing { attempt } => TurnPhaseModel::Preparing(*attempt),
            TurnPhase::Calling { attempt } => TurnPhaseModel::Calling(*attempt),
            TurnPhase::Guarding { calls, index } => TurnPhaseModel::Guarding(
                model::seq_view(calls@),
                *index as int,
            ),
            TurnPhase::Executing { calls, index } => TurnPhaseModel::Executing(
                model::seq_view(calls@),
                *index as int,
            ),
            TurnPhase::Running { calls, index, workflow_id } => TurnPhaseModel::Running(
                model::seq_view(calls@),
                *index as int,
                workflow_id@,
            ),
            TurnPhase::Asking { calls, index, action } => TurnPhaseModel::Asking(
                model::seq_view(calls@),
                *index as int,
                action@,
            ),
            TurnPhase::Filtering { calls, index, output, success } => TurnPhaseModel::Filtering(
                model::seq_view(calls@),
                *index as int,
                output@,
                *success,
            ),
            TurnPhase::Done { success, message } => TurnPhaseModel::Done(*success, message@),
            TurnPhase::Broken { message } => TurnPhaseModel::Broken(message@),
        }
    }
}

/// A turn of the agent.
pub struct Turn {
    /// What the user asked for.
    pub input: String,
    /// The session that the turn belongs to.
    pub session_id: String,
    pub max_iterations: usize,
    pub iteration: usize,
    pub tool_call_count: usize,
    pub user_requested_stop: bool,
    pub max_warning_injected: usize,
    pub delivery_warning_injected: usize,
    pub safety_failures: u32,
    pub tools_used: Vec<String>,
    pub steps: Vec<StepRecord>,
    pub pending_warnings: Vec<String>,
    pub protection_warnings: Vec<String>,
    pub effects: Vec<Effect>,
    pub phase: TurnPhase,
}

/// The content of a [`Turn`].
#[verifier::ext_equal]
pub struct TurnModel {
    pub input: Seq<char>,
    pub session_id: Seq<char>,
    pub max_iterations: int,
    pub iteration: int,
    pub tool_calls: int,
    pub user_stop: bool,
    pub warned: int,
    pub urged: int,
    pub safety_failures: u32,
    pub tools_used: Seq<Seq<char>>,
    pub steps: Seq<StepModel>,
    pub pending: Seq<Seq<char>>,
    pub alerts: Seq<Seq<char>>,
    pub effects: Seq<EffectModel>,
    pub phase: TurnPhaseModel,
}

impl View for Turn {
    type V = TurnModel;

    open spec fn view(&self) -> TurnModel {
        TurnModel {
            input: self.input@,
            session_id: self.session_id@,
            max_iterations: self.max_iterations as int,
            iteration: self.iteration as int,
            tool_calls: self.tool_call_count as int,
            user_stop: self.user_requested_stop,
            warned: self.max_warning_injected as int,
            urged: self.delivery_warning_injected as int,
            safety_failures: self.safety_failures,
            tools_used: model::seq_view(self.tools_used@),
            steps: model::seq_view(self.steps@),
            pending: model::seq_view(self.pending_warnings@),
            alerts: model::seq_view(self.protection_warnings@),
            effects: model::seq_view(self.effects@),
            phase: self.phase@,
        }
    }
}

impl TurnModel {
    /// The turn with one more effect.
    pub open spec fn with(self, e: EffectModel) -> TurnModel {
        TurnModel { effects: self.effects.push(e), ..self }
    }

    /// The turn in another phase.
    pub open spec fn enters(self, phase: TurnPhaseModel) -> TurnModel {
        TurnModel { phase, ..self }
    }

    /// The turn with one more effect: it is stored in memory.
    pub open spec fn remembered(self, message: Seq<char>, success: bool) -> TurnModel {
        self.with(EffectModel::StoreMemory(self.input, message, success))
    }

    /// Whether the turn is over.
    pub open spec fn over(self) -> bool {
        self.phase is Done || self.phase is Broken
    }

    /// What holds of every turn: the round is within the bound while the turn
    /// goes on, tries are within theirs, and a tool call that is worked on is
    /// one of those that the model asked for.
    pub open spec fn wf(self) -> bool {
        &&& self.over() || 0 <= self.iteration < self.max_iterations
        &&& self.phase matches TurnPhaseModel::Preparing(n) ==> n <= MAX_RETRIES
        &&& self.phase matches TurnPhaseModel::Calling(n) ==> n <= MAX_RETRIES
        &&& self.phase matches TurnPhaseModel::Guarding(c, i) ==> 0 <= i < c.len()
        &&& self.phase matches TurnPhaseModel::Executing(c, i) ==> 0 <= i < c.len()
        &&& self.phase matches TurnPhaseModel::Running(c, i, _) ==> 0 <= i < c.len()
        &&& self.phase matches TurnPhaseModel::Asking(c, i, _) ==> 0 <= i < c.len()
        &&& self.phase matches TurnPhaseModel::Filtering(c, i, _, _) ==> 0 <= i < c.len()
    }
}

/// The turn after its last round.
pub open spec fn exhausted(m: TurnModel) -> TurnModel {
    let message = "达到最大迭代次数（已执行 "@ + text::decimal_text(m.tool_calls as nat)
        + " 次工具调用）"@;
    m.with(EffectModel::ShowFailed("达到最大迭代次数"@)).with(EffectModel::Distill).remembered(
        message,
        false,
    ).enters(TurnPhaseModel::Done(false, message))
}

/// The turn at its next round, or over where there is none.
pub open spec fn next_round(m: TurnModel) -> TurnModel {
    if m.iteration + 1 < m.max_iterations {
        TurnModel { iteration: m.iteration + 1, ..m }.enters(TurnPhaseModel::Boundary)
    } else {
        exhausted(m)
    }
}

/// The reminders that warnings turn into at the end of a round.
pub open spec fn reminders(warnings: Seq<Seq<char>>) -> Seq<EffectModel> {
    Seq::new(warnings.len(), |i: int| EffectModel::Remind(warnings[i], 3, Priority::High))
}

/// The turn with its warnings handed over to the reminder queue.
pub open spec fn flushed(m: TurnModel) -> TurnModel {
    TurnModel {
        effects: m.effects + reminders(m.alerts) + reminders(m.pending),
        alerts: Seq::empty(),
        pending: Seq::empty(),
        ..m
    }
}

/// The turn at the start of a tool call.
pub open spec fn call_begun(m: TurnModel, calls: Seq<CallModel>, index: int) -> TurnModel {
    TurnModel { tool_calls: m.tool_calls + 1, ..m }.with(
        EffectModel::ShowToolStart(
            calls[index].id,
            calls[index].tool,
            calls[index].params,
            m.iteration,
        ),
    ).enters(TurnPhaseModel::Guarding(calls, index))
}

/// The turn after a tool call is done with.
pub open spec fn next_call(m: TurnModel, calls: Seq<CallModel>, index: int) -> TurnModel {
    if index + 1 < calls.len() {
        call_begun(m, calls, index + 1)
    } else {
        next_round(flushed(m))
    }
}

/// The turn after appended instructions were taken in.
pub open spec fn appended(m: TurnModel, section: Seq<char>, priority: Seq<char>) -> TurnModel {
    m.with(EffectModel::PushInternal(section)).with(EffectModel::ClearReminders).with(
        EffectModel::Remind(priority, 2, Priority::Critical),
    )
}

/// The words that call for delivery.
pub open spec fn delivery_text(level: int, n: int) -> Seq<char> {
    let count = "已执行 "@ + text::decimal_text(n as nat);
    if level == 1 {
        count
            + " 次工具调用。若核心路径已成功且已有稳定 workflow_step，请停止比较性、研究性或旁支测试，立即固化并验证工作流；只有阻止确定性运行的缺失信息才值得继续探索。"@
    } else if level == 2 {
        count
            + " 次工具调用，必须进入交付收敛：只补齐阻止保存、workflow_validate 或 workflow_run 的唯一缺口，随后立即写入并运行工作流。不要再研究跨进程、替换语义或额外异常等非必要旁支。"@
    } else {
        count
            + " 次工具调用，停止所有新探索。现在必须用已有证据保存、校验并运行工作流；若确有唯一阻塞，明确报告该阻塞后结束，不得继续扩展测试范围。"@
    }
}

/// The turn after the call for delivery, where one is due.
pub open spec fn urged(m: TurnModel) -> TurnModel {
    let level = delivery_level(m.tool_calls);
    if level <= m.urged {
        m
    } else {
        TurnModel { urged: level, ..m }.with(
            EffectModel::Remind(
                delivery_text(level, m.tool_calls),
                (level + 1) as u32,
                if level == 1 {
                    Priority::Normal
                } else if level == 2 {
                    Priority::High
                } else {
                    Priority::Critical
                },
            ),
        )
    }
}

/// The words that warn of a full context.
pub open spec fn context_text(c: ContextReading) -> Seq<char> {
    let share = "（"@ + text::decimal_text(c.usage as nat) + "/"@ + text::decimal_text(
        c.window as nat,
    );
    let reached = "上下文使用量已达 "@ + text::decimal_text(c.percent as nat) + "%"@ + share;
    if c.level == 1 {
        reached
            + "）。Workflow 模式无自动压缩，需主动控制上下文用量。如已收集足够信息请停止探索输出结果。"@
    } else if c.level == 2 {
        reached + "）。请尽快输出结果，避免后续截断。"@
    } else if c.level == 3 {
        reached + "），即将达到上限。必须立即输出最终结果。"@
    } else {
        "上下文已达上限"@ + share + "），工具调用将被关闭，立即产出回复。"@
    }
}

/// The turn after the context was measured: a level is warned of once, and a
/// round that begins at the highest level with its warning already given ends
/// the turn.
pub open spec fn measured(m: TurnModel, c: ContextReading) -> TurnModel {
    if c.level <= m.warned {
        if m.warned >= 4 {
            exhausted(m)
        } else {
            m.enters(TurnPhaseModel::Preparing(0))
        }
    } else {
        let said = if c.level <= 4 {
            m.with(
                EffectModel::Remind(
                    context_text(c),
                    2,
                    if c.level == 1 {
                        Priority::Normal
                    } else if c.level == 2 {
                        Priority::High
                    } else {
                        Priority::Critical
                    },
                ),
            )
        } else {
            m
        };
        TurnModel { warned: c.level as int, ..said }.enters(TurnPhaseModel::Preparing(0))
    }
}

/// The effects of notices: each that is not empty is put into the session.
pub open spec fn notice_effects(notices: Seq<Seq<char>>) -> Seq<EffectModel>
    decreases notices.len(),
{
    if notices.len() == 0 {
        Seq::empty()
    } else {
        let before = notice_effects(notices.drop_last());
        if notices.last().len() == 0 {
            before
        } else {
            before.push(EffectModel::PushInternal(notices.last()))
        }
    }
}

/// The turn after reminders and notices were collected.
pub open spec fn prepared(
    m: TurnModel,
    reminder: Option<Seq<char>>,
    notices: Seq<Seq<char>>,
    attempt: u32,
) -> TurnModel {
    let reminded = match reminder {
        Some(s) => if s.len() > 0 {
            m.with(EffectModel::PushUser(s))
        } else {
            m
        },
        None => m,
    };
    TurnModel { effects: reminded.effects + notice_effects(notices), ..reminded }.enters(
        TurnPhaseModel::Calling(attempt),
    )
}

/// The turn after a model call failed: tried again after a pause where the
/// network was at fault and tries are left.
pub open spec fn call_failed(m: TurnModel, attempt: u32, network: bool, message: Seq<char>) -> TurnModel {
    if attempt >= MAX_RETRIES || !network {
        m.remembered(message, false).enters(TurnPhaseModel::Broken(message))
    } else {
        m.with(
            EffectModel::ShowRetry(
                "Network connection timeout, retrying ("@ + text::decimal_text(
                    (attempt + 1) as nat,
                ) + "/"@ + text::decimal_text((MAX_RETRIES + 1) as nat) + ")"@,
                (attempt + 1) as u32,
                (MAX_RETRIES + 1) as u32,
            ),
        ).with(
            EffectModel::Sleep(
                if attempt == 0 {
                    1
                } else {
                    2
                },
            ),
        ).enters(TurnPhaseModel::Preparing((attempt + 1) as u32))
    }
}

/// Whether a call with an id is among the calls.
pub open spec fn called(calls: Seq<CallModel>, id: Seq<char>) -> bool {
    exists|i: int| 0 <= i < calls.len() && (#[trigger] calls[i]).id == id
}

/// The blocks of a reply without tool uses that are no valid calls.
pub open spec fn kept_blocks(blocks: Seq<BlockModel>, calls: Seq<CallModel>) -> Seq<BlockModel>
    decreases blocks.len(),
{
    if blocks.len() == 0 {
        Seq::empty()
    } else {
        let before = kept_blocks(blocks.drop_last(), calls);
        match blocks.last() {
            BlockModel::ToolUse(id, _, _) => if called(calls, id) {
                before.push(blocks.last())
            } else {
                before
            },
            _ => before.push(blocks.last()),
        }
    }
}

/// The text of a reply.
pub open spec fn said(blocks: Seq<BlockModel>) -> Seq<char>
    decreases blocks.len(),
{
    if blocks.len() == 0 {
        Seq::empty()
    } else {
        let before = said(blocks.drop_last());
        match blocks.last() {
            BlockModel::Text(t) => before + t,
            _ => before,
        }
    }
}

/// What a turn that ends by itself reports.
pub open spec fn final_message(blocks: Seq<BlockModel>, tool_calls: int) -> Seq<char> {
    let words = text::trimmed(said(blocks));
    if words.len() == 0 && tool_calls > 0 {
        "任务完成，共执行 "@ + text::decimal_text(tool_calls as nat) + " 次工具调用"@
    } else {
        words
    }
}

/// What a turn that the user stopped reports.
pub open spec fn stopped_message(blocks: Seq<BlockModel>) -> Seq<char> {
    let words = text::trimmed(said(blocks));
    if words.len() == 0 {
        "操作已停止"@
    } else {
        words
    }
}

/// The turn after the model replied.
pub open spec fn replied(m: TurnModel, blocks: Seq<BlockModel>, calls: Seq<CallModel>) -> TurnModel {
    let seen = m.with(EffectModel::ShowProgress(m.iteration + 1, m.max_iterations, m.tool_calls));
    if blocks.len() == 0 {
        next_round(seen)
    } else if calls.len() == 0 {
        let message = final_message(blocks, m.tool_calls);
        seen.with(EffectModel::PushAssistant(kept_blocks(blocks, calls))).with(
            EffectModel::ShowCompleted(message, m.tool_calls),
        ).remembered(message, true).enters(TurnPhaseModel::Done(true, message))
    } else if m.user_stop {
        let message = stopped_message(blocks);
        seen.with(EffectModel::PushAssistant(kept_blocks(blocks, calls))).with(
            EffectModel::ShowCompleted(message, m.tool_calls),
        ).with(EffectModel::Distill).remembered(message, true).enters(
            TurnPhaseModel::Done(true, message),
        )
    } else {
        call_begun(seen.with(EffectModel::PushAssistant(blocks)), calls, 0)
    }
}

/// A list with one more value, where there is one.
pub open spec fn grown(s: Seq<Seq<char>>, o: Option<Seq<char>>) -> Seq<Seq<char>> {
    match o {
        Some(x) => s.push(x),
        None => s,
    }
}

/// The end of the turn after too many refusals.
pub open spec fn halted(m: TurnModel) -> TurnModel {
    let message = "执行中止: 连续 "@ + text::decimal_text(m.safety_failures as nat)
        + " 次安全检查未通过"@;
    m.with(EffectModel::StripIncomplete).remembered(message, false).enters(
        TurnPhaseModel::Done(false, message),
    )
}

/// The turn after the checks before a tool call.
pub open spec fn guarded(m: TurnModel, calls: Seq<CallModel>, index: int, g: GuardReport) -> TurnModel {
    let heard = TurnModel {
        alerts: grown(m.alerts, model::opt_view(g.alert)),
        pending: m.pending + model::seq_view(g.warnings@),
        safety_failures: g.safety_failures,
        ..m
    };
    match g.refusal {
        None => heard.enters(TurnPhaseModel::Executing(calls, index)),
        Some(error) => {
            let shown = heard.with(
                EffectModel::ShowToolEnd(
                    ToolEndModel {
                        call_id: calls[index].id,
                        tool: calls[index].tool,
                        success: false,
                        duration_ms: 0,
                        preview: Seq::empty(),
                        full_size: 0,
                        truncated: false,
                        error: model::opt_view(error),
                    },
                ),
            );
            match g.breaker {
                Breaker::Halt => halted(shown),
                _ => {
                    let advised = match g.breaker {
                        Breaker::Advise(Some(words)) => shown.with(EffectModel::PushUser(words@)),
                        _ => shown,
                    };
                    let refused = TurnModel {
                        alerts: grown(advised.alerts, model::opt_view(g.after_alert)),
                        ..advised
                    }.with(
                        EffectModel::PushToolResult(
                            calls[index].id,
                            match error {
                                Some(s) => s@,
                                None => Seq::empty(),
                            },
                            true,
                        ),
                    );
                    next_call(refused, calls, index)
                },
            }
        },
    }
}

/// Whether a text is among others.
pub open spec fn among(s: Seq<Seq<char>>, x: Seq<char>) -> bool {
    exists|i: int| 0 <= i < s.len() && #[trigger] s[i] == x
}

/// The turn after a tool's result is known: the tool and the step are
/// remembered, the end of the call is shown, and the text goes to the filter.
pub open spec fn recorded(
    m: TurnModel,
    calls: Seq<CallModel>,
    index: int,
    r: ResultModel,
    duration_ms: u64,
) -> TurnModel {
    let call = calls[index];
    let output = r.shown();
    TurnModel {
        tools_used: if among(m.tools_used, call.tool) {
            m.tools_used
        } else {
            m.tools_used.push(call.tool)
        },
        steps: m.steps.push(
            StepModel {
                tool: call.tool,
                params: call.params,
                text: if r.success {
                    output
                } else {
                    match r.error {
                        Some(e) => e,
                        None => output,
                    }
                },
                success: r.success,
                duration_ms,
            },
        ),
        ..m
    }.with(
        EffectModel::ShowToolEnd(
            ToolEndModel {
                call_id: call.id,
                tool: call.tool,
                success: r.success,
                duration_ms,
                preview: text::clipped(output, PREVIEW_LIMIT as nat),
                full_size: vstd::utf8::encode_utf8(output).len() as usize,
                truncated: output.len() > PREVIEW_LIMIT,
                error: r.error,
            },
        ),
    ).enters(TurnPhaseModel::Filtering(calls, index, output, r.success))
}

/// Whether a tool is carried out by the workflow engine.
pub open spec fn of_engine(tool: Seq<char>) -> bool {
    tool == "workflow_run"@ || tool == "workflow_validate"@
}

/// The parameters that a tool is run with: a note for the workflow memory also
/// names the session, whatever it named before.
pub open spec fn run_params(tool: Seq<char>, params: Seq<char>, session: Seq<char>) -> Seq<char> {
    if tool == "workflow_memory_update"@ {
        match json::with_member(params, "session_id"@, session) {
            Some(p) => p,
            None => params,
        }
    } else {
        params
    }
}

/// The report of a check in JSON.
pub open spec fn report_text(r: ReportModel) -> Seq<char> {
    "{\"errors\":"@ + r.errors + ",\"passed\":"@ + json::bool_text(r.passed) + ",\"warnings\":"@
        + r.warnings + "}"@
}

/// The result of the check of a workflow: the report, whether it passed or not;
/// a failure where there is no such workflow.
pub open spec fn validation_result(
    raw: Seq<char>,
    report: Option<ReportModel>,
    load_error: Option<Seq<char>>,
) -> ResultModel {
    match (report, load_error) {
        (Some(r), _) => ResultModel::succeeded(report_text(r)),
        (None, Some(e)) => ResultModel::failed(e),
        (None, None) => ResultModel::failed("Workflow '"@ + raw + "' not found"@),
    }
}

/// The turn after the check of a workflow.
pub open spec fn validated(
    m: TurnModel,
    calls: Seq<CallModel>,
    index: int,
    report: Option<ReportModel>,
    load_error: Option<Seq<char>>,
    duration_ms: u64,
) -> TurnModel {
    if calls[index].tool == "workflow_validate"@ {
        recorded(
            m,
            calls,
            index,
            validation_result(wanted_workflow(calls[index].params), report, load_error),
            duration_ms,
        )
    } else {
        m
    }
}

/// What a call that needs the workflow engine fails with where there is none.
pub open spec fn engine_error(tool: Seq<char>) -> Seq<char> {
    if tool == "workflow_run"@ {
        "workflow_engine not injected to WorkflowAgent"@
    } else {
        "workflow_engine not injected"@
    }
}

/// The turn after the workflow engine was missed.
pub open spec fn unserved(
    m: TurnModel,
    calls: Seq<CallModel>,
    index: int,
    duration_ms: u64,
) -> TurnModel {
    if of_engine(calls[index].tool) {
        recorded(m, calls, index, ResultModel::failed(engine_error(calls[index].tool)), duration_ms)
    } else {
        m
    }
}

/// The turn after a tool ended. A tool of the workflow engine does not end
/// this way.
pub open spec fn ran(
    m: TurnModel,
    calls: Seq<CallModel>,
    index: int,
    r: ResultModel,
    action: Option<Seq<char>>,
    duration_ms: u64,
) -> TurnModel {
    if of_engine(calls[index].tool) {
        m
    } else if calls[index].tool == "request_user_input"@ && r.success && r.output is Some
        && action is Some {
        m.enters(TurnPhaseModel::Asking(calls, index, action->Some_0))
    } else {
        recorded(m, calls, index, r, duration_ms)
    }
}

/// The ids that contain a text, in their order.
pub open spec fn ids_with(ids: Seq<Seq<char>>, part: Seq<char>) -> Seq<Seq<char>>
    decreases ids.len(),
{
    if ids.len() == 0 {
        Seq::empty()
    } else {
        let before = ids_with(ids.drop_last(), part);
        if text::has_part(ids.last(), part) {
            before.push(ids.last())
        } else {
            before
        }
    }
}

/// The workflow that a text names: the one with that id, else the only one
/// whose id contains it, else the text itself where none does. Several are an
/// error.
pub open spec fn workflow_named(raw: Seq<char>, ids: Seq<Seq<char>>) -> Result<Seq<char>, Seq<char>> {
    let hits = ids_with(ids, raw);
    if among(ids, raw) {
        Ok(raw)
    } else if hits.len() == 1 {
        Ok(hits[0])
    } else if hits.len() > 1 {
        Err(
            "workflow_run: ambiguous id '"@ + raw + "' matches "@ + text::decimal_text(hits.len())
                + " workflows: "@ + text::joined(hits, ", "@),
        )
    } else {
        Ok(raw)
    }
}

/// The workflow that the parameters of a call ask for, no text where they name
/// none.
pub open spec fn wanted_workflow(params: Seq<char>) -> Seq<char> {
    match json::text_member(params, "id"@) {
        Some(s) => s,
        None => Seq::empty(),
    }
}

/// The turn after the workflows were listed.
pub open spec fn listed(
    m: TurnModel,
    calls: Seq<CallModel>,
    index: int,
    raw: Seq<char>,
    ids: Seq<Seq<char>>,
) -> TurnModel {
    if calls[index].tool != "workflow_run"@ {
        m
    } else {
        match workflow_named(raw, ids) {
            Ok(id) => m.enters(TurnPhaseModel::Running(calls, index, id)),
            Err(message) => m.remembered(message, false).enters(
                TurnPhaseModel::Done(false, message),
            ),
        }
    }
}

/// The result of a workflow, with a note where the user ended it.
pub open spec fn workflow_result(
    outcome: Result<Seq<char>, Seq<char>>,
    user_cancelled: bool,
) -> ResultModel {
    let note = "\n\n[用户已终止此工作流的执行]"@;
    ResultModel {
        success: outcome is Ok,
        output: match outcome {
            Ok(s) => Some(
                if user_cancelled {
                    s + note
                } else {
                    s
                },
            ),
            Err(_) => if user_cancelled {
                Some(note)
            } else {
                None
            },
        },
        error: match outcome {
            Ok(_) => None,
            Err(e) => Some(e),
        },
        exit_code: None,
    }
}

/// The turn after a workflow ended.
pub open spec fn run_ended(
    m: TurnModel,
    calls: Seq<CallModel>,
    index: int,
    outcome: Result<Seq<char>, Seq<char>>,
    user_cancelled: bool,
    duration_ms: u64,
) -> TurnModel {
    let warned = if user_cancelled {
        TurnModel {
            pending: m.pending.push(
                "用户已终止工作流的执行。请直接向用户报告结果并结束当前任务，不要重新调用 workflow_run。"@,
            ),
            ..m
        }.with(EffectModel::ShowHud("工作流已由用户终止"@))
    } else {
        m
    };
    recorded(warned, calls, index, workflow_result(outcome, user_cancelled), duration_ms)
}

/// The result of a question to the user.
pub open spec fn answer_result(value: Option<Seq<char>>) -> ResultModel {
    match value {
        Some(v) => ResultModel::succeeded(json::value_text(v, json::compact(v))),
        None => ResultModel::failed("用户未提供输入或操作已取消"@),
    }
}

/// The turn after the tool's text was filtered.
pub open spec fn shown_to_model(
    m: TurnModel,
    calls: Seq<CallModel>,
    index: int,
    success: bool,
    words: Seq<char>,
    alert: Option<Seq<char>>,
    cancelled: bool,
) -> TurnModel {
    let pushed = m.with(EffectModel::PushToolResult(calls[index].id, words, !success));
    let settled = if success {
        TurnModel { safety_failures: 0, ..pushed }.with(EffectModel::ResetErrors)
    } else {
        TurnModel { alerts: grown(pushed.alerts, alert), ..pushed }
    };
    if cancelled {
        next_round(flushed(settled))
    } else {
        next_call(settled, calls, index)
    }
}

/// The turn after the user's decision at a pause.
pub open spec fn paused(m: TurnModel, decision: Option<PauseDecision>) -> TurnModel {
    let heard = match decision {
        Some(PauseDecision::Append(words)) => m.with(EffectModel::PushUser(words@)),
        Some(PauseDecision::Terminate) => TurnModel { user_stop: true, ..m }.with(
            EffectModel::PushUser(
                "⚠ 用户要求立即停止当前操作。请立即整理已有成果，输出你已完成的内容和当前状态。不要继续执行任何工具调用。"@,
            ),
        ),
        _ => m,
    };
    heard.with(EffectModel::StripIncomplete).enters(TurnPhaseModel::Redraining)
}

/// The turn broken off by the user.
pub open spec fn cancelled_turn(m: TurnModel) -> TurnModel {
    m.with(EffectModel::ShowCancelled("任务已被用户中断"@)).remembered(
        "任务已被用户中断"@,
        false,
    ).enters(TurnPhaseModel::Done(false, "任务已被用户中断"@))
}

/// The turn after an event. An event that the phase does not wait for changes
/// nothing.
pub open spec fn turned(m: TurnModel, e: TurnEvent) -> TurnModel {
    match (m.phase, e) {
        (TurnPhaseModel::Boundary, TurnEvent::Cancelled(yes)) => if yes {
            cancelled_turn(m)
        } else {
            m.enters(TurnPhaseModel::Draining)
        },
        (TurnPhaseModel::Draining, TurnEvent::Appended(a)) => match a {
            Some(a) => appended(m, a.section@, a.priority@).with(
                EffectModel::ShowAppendsTaken,
            ).enters(TurnPhaseModel::Pausing),
            None => m.enters(TurnPhaseModel::Pausing),
        },
        (TurnPhaseModel::Pausing, TurnEvent::Paused(decision)) => paused(m, decision),
        (TurnPhaseModel::Redraining, TurnEvent::Appended(a)) => urged(
            match a {
                Some(a) => appended(m, a.section@, a.priority@),
                None => m,
            },
        ).enters(TurnPhaseModel::Measuring),
        (TurnPhaseModel::Measuring, TurnEvent::Measured(c)) => measured(m, c),
        (
            TurnPhaseModel::Preparing(attempt),
            TurnEvent::Prepared { reminder, notices },
        ) => prepared(m, model::opt_view(reminder), model::seq_view(notices@), attempt),
        (TurnPhaseModel::Calling(_), TurnEvent::Replied { blocks, calls }) => replied(
            m,
            model::seq_view(blocks@),
            model::seq_view(calls@),
        ),
        (
            TurnPhaseModel::Calling(attempt),
            TurnEvent::CallFailed { network, message },
        ) => call_failed(m, attempt, network, message@),
        (TurnPhaseModel::Guarding(calls, index), TurnEvent::Guarded(g)) => guarded(
            m,
            calls,
            index,
            g,
        ),
        (TurnPhaseModel::Executing(calls, index), TurnEvent::Listed { ids }) => listed(
            m,
            calls,
            index,
            wanted_workflow(calls[index].params),
            model::seq_view(ids@),
        ),
        (
            TurnPhaseModel::Executing(calls, index),
            TurnEvent::Validated { report, load_error, duration_ms },
        ) => validated(
            m,
            calls,
            index,
            model::opt_view(report),
            model::opt_view(load_error),
            duration_ms,
        ),
        (
            TurnPhaseModel::Executing(calls, index),
            TurnEvent::NoEngine { duration_ms },
        ) => unserved(m, calls, index, duration_ms),
        (
            TurnPhaseModel::Executing(calls, index),
            TurnEvent::Ran { result, action, duration_ms },
        ) => ran(m, calls, index, result@, model::opt_view(action), duration_ms),
        (
            TurnPhaseModel::Running(calls, index, _),
            TurnEvent::RunEnded { outcome, user_cancelled, duration_ms },
        ) => run_ended(
            m,
            calls,
            index,
            model::result_view(outcome),
            user_cancelled,
            duration_ms,
        ),
        (
            TurnPhaseModel::Asking(calls, index, _),
            TurnEvent::Answered { value, duration_ms },
        ) => recorded(m, calls, index, answer_result(model::opt_view(value)), duration_ms),
        (
            TurnPhaseModel::Filtering(calls, index, _, success),
            TurnEvent::Shown { text: words, alert, cancelled },
        ) => shown_to_model(
            m,
            calls,
            index,
            success,
            words@,
            model::opt_view(alert),
            cancelled,
        ),
        _ => m,
    }
}

/// The blocks of a reply without tool uses that are no valid calls.
fn filter_blocks(blocks: &Vec<Block>, calls: &Vec<ToolCall>) -> (r: Vec<Block>)
    ensures
        model::seq_view(r@) == kept_blocks(model::seq_view(blocks@), model::seq_view(calls@)),
{
    let ghost bs = model::seq_view(blocks@);
    let ghost cs = model::seq_view(calls@);
    let mut out: Vec<Block> = Vec::new();
    let mut i: usize = 0;
    while i < blocks.len()
        invariant
            i <= blocks@.len(),
            bs == model::seq_view(blocks@),
            cs == model::seq_view(calls@),
            model::seq_view(out@) == kept_blocks(bs.take(i as int), cs),
        decreases blocks@.len() - i,
    {
        proof {
            let now = bs.take(i + 1);
            assert(now.drop_last() == bs.take(i as int));
            assert(now.last() == blocks@[i as int]@);
        }
        let keep = match &blocks[i] {
            Block::ToolUse { id, .. } => is_called(calls, id.as_str()),
            _ => true,
        };
        if keep {
            let ghost before = out@;
            let block = blocks[i].copied();
            out.push(block);
            assert(model::seq_view(out@) == model::seq_view(before).push(block@));
        }
        i = i + 1;
    }
    assert(bs.take(bs.len() as int) == bs);
    out
}

/// Whether a call with an id is among the calls.
fn is_called(calls: &Vec<ToolCall>, id: &str) -> (r: bool)
    ensures
        r == called(model::seq_view(calls@), id@),
{
    let ghost cs = model::seq_view(calls@);
    let mut i: usize = 0;
    while i < calls.len()
        invariant
            i <= calls@.len(),
            cs == model::seq_view(calls@),
            forall|k: int| 0 <= k < i ==> (#[trigger] cs[k]).id != id@,
        decreases calls@.len() - i,
    {
        assert(cs[i as int] == calls@[i as int]@);
        if same_text(calls[i].id.as_str(), id) {
            return true;
        }
        i = i + 1;
    }
    false
}

/// The text of a reply.
fn text_of(blocks: &Vec<Block>) -> (r: String)
    ensures
        r@ == said(model::seq_view(blocks@)),
{
    let ghost bs = model::seq_view(blocks@);
    let mut out = String::new();
    let mut i: usize = 0;
    while i < blocks.len()
        invariant
            i <= blocks@.len(),
            bs == model::seq_view(blocks@),
            out@ == said(bs.take(i as int)),
        decreases blocks@.len() - i,
    {
        proof {
            let now = bs.take(i + 1);
            assert(now.drop_last() == bs.take(i as int));
            assert(now.last() == blocks@[i as int]@);
        }
        match &blocks[i] {
            Block::Text { text } => {
                out.append(text.as_str());
            },
            _ => {},
        }
        i = i + 1;
    }
    assert(bs.take(bs.len() as int) == bs);
    out
}

/// Whether a text is among others.
fn is_among(list: &Vec<String>, x: &str) -> (r: bool)
    ensures
        r == among(model::seq_view(list@), x@),
{
    let ghost s = model::seq_view(list@);
    let mut i: usize = 0;
    while i < list.len()
        invariant
            i <= list@.len(),
            s == model::seq_view(list@),
            forall|k: int| 0 <= k < i ==> #[trigger] s[k] != x@,
        decreases list@.len() - i,
    {
        assert(s[i as int] == list@[i as int]@);
        if same_text(list[i].as_str(), x) {
            return true;
        }
        i = i + 1;
    }
    false
}

/// The workflow that the parameters of a call ask for, no text where they name
/// none.
pub fn workflow_of(params: &str) -> (r: String)
    ensures
        r@ == wanted_workflow(params@),
{
    match read_text_member(params, "id") {
        Some(s) => s,
        None => String::new(),
    }
}

/// The parameters that a tool is run with. A note for the workflow memory names
/// the session that it is made in, and keeps what else it says.
pub fn exec_params(tool: &str, params: &str, session_id: &str) -> (r: String)
    ensures
        r@ == run_params(tool@, params@, session_id@),
        tool@ == "workflow_memory_update"@ && json::with_member(
            params@,
            "session_id"@,
            session_id@,
        ) is Some ==> json::text_member(r@, "session_id"@) == Some(session_id@) && forall|
            other: Seq<char>,
        |
            other != "session_id"@ ==> #[trigger] json::text_member(r@, other)
                == json::text_member(params@, other),
{
    if same_text(tool, "workflow_memory_update") {
        match put_member(params, "session_id", session_id) {
            Some(p) => p,
            None => owned(params),
        }
    } else {
        owned(params)
    }
}

/// The result of the check of a workflow that a call names.
pub fn workflow_validate_result(
    raw_id: &str,
    report: &Option<ValidationReport>,
    load_error: Option<String>,
) -> (r: ToolResult)
    ensures
        r@ == validation_result(raw_id@, model::opt_view(*report), model::opt_view(load_error)),
{
    match report {
        Some(found) => {
            let mut out = owned("{\"errors\":");
            out.append(found.errors.as_str());
            out.append(",\"passed\":");
            put_bool(&mut out, found.passed);
            out.append(",\"warnings\":");
            out.append(found.warnings.as_str());
            out.append("}");
            ToolResult::success(out)
        },
        None => match load_error {
            Some(e) => ToolResult::failure(e),
            None => {
                let mut out = owned("Workflow '");
                out.append(raw_id);
                out.append("' not found");
                ToolResult::failure(out)
            },
        },
    }
}

/// The workflow that a text names, or why it names none.
pub fn resolve_workflow_id(raw_id: &str, ids: &Vec<String>) -> (r: Result<String, String>)
    ensures
        model::result_view(r) == workflow_named(raw_id@, model::seq_view(ids@)),
{
    if is_among(ids, raw_id) {
        return Ok(owned(raw_id));
    }
    let ghost s = model::seq_view(ids@);
    let mut hits: Vec<String> = Vec::new();
    let mut i: usize = 0;
    while i < ids.len()
        invariant
            i <= ids@.len(),
            s == model::seq_view(ids@),
            model::seq_view(hits@) == ids_with(s.take(i as int), raw_id@),
        decreases ids@.len() - i,
    {
        proof {
            let now = s.take(i + 1);
            assert(now.drop_last() == s.take(i as int));
            assert(now.last() == ids@[i as int]@);
        }
        if contains_text(ids[i].as_str(), raw_id) {
            let ghost before = hits@;
            let id = ids[i].clone();
            hits.push(id);
            assert(model::seq_view(hits@) == model::seq_view(before).push(id@));
        }
        i = i + 1;
    }
    assert(s.take(s.len() as int) == s);
    assert(model::seq_view(hits@).len() == hits@.len());
    if hits.len() == 1 {
        assert(model::seq_view(hits@)[0] == hits@[0]@);
        Ok(hits[0].clone())
    } else if hits.len() > 1 {
        let mut message = owned("workflow_run: ambiguous id '");
        message.append(raw_id);
        message.append("' matches ");
        message.append(decimal(hits.len() as u64).as_str());
        message.append(" workflows: ");
        message.append(join(&hits, ", ").as_str());
        Err(message)
    } else {
        Ok(owned(raw_id))
    }
}

/// The result of a workflow, with a note where the user ended it.
pub fn workflow_run_result(outcome: Result<String, String>, user_cancelled: bool) -> (r: ToolResult)
    ensures
        r@ == workflow_result(model::result_view(outcome), user_cancelled),
{
    let note = "\n\n[用户已终止此工作流的执行]";
    match outcome {
        Ok(s) => {
            let mut output = s;
            if user_cancelled {
                output.append(note);
            }
            ToolResult { success: true, output: Some(output), error: None, exit_code: None }
        },
        Err(e) => ToolResult {
            success: false,
            output: if user_cancelled {
                Some(owned(note))
            } else {
                None
            },
            error: Some(e),
            exit_code: None,
        },
    }
}

/// The result of a question to the user: the answer in compact JSON, or a
/// failure where there was none.
pub fn user_input_result(value: Option<String>) -> (r: ToolResult)
    ensures
        r@ == answer_result(model::opt_view(value)),
{
    match value {
        Some(v) => ToolResult::success(json_of(v.as_str())),
        None => ToolResult::failure(owned("用户未提供输入或操作已取消")),
    }
}

/// The words that call for delivery.
fn delivery_words(level: usize, n: usize) -> (r: String)
    ensures
        r@ == delivery_text(level as int, n as int),
{
    let mut s = owned("已执行 ");
    s.append(decimal(n as u64).as_str());
    if level == 1 {
        s.append(
            " 次工具调用。若核心路径已成功且已有稳定 workflow_step，请停止比较性、研究性或旁支测试，立即固化并验证工作流；只有阻止确定性运行的缺失信息才值得继续探索。",
        );
    } else if level == 2 {
        s.append(
            " 次工具调用，必须进入交付收敛：只补齐阻止保存、workflow_validate 或 workflow_run 的唯一缺口，随后立即写入并运行工作流。不要再研究跨进程、替换语义或额外异常等非必要旁支。",
        );
    } else {
        s.append(
            " 次工具调用，停止所有新探索。现在必须用已有证据保存、校验并运行工作流；若确有唯一阻塞，明确报告该阻塞后结束，不得继续扩展测试范围。",
        );
    }
    s
}

/// The words that warn of a full context.
fn context_words(c: ContextReading) -> (r: String)
    ensures
        r@ == context_text(c),
{
    let mut share = owned("（");
    share.append(decimal(c.usage).as_str());
    share.append("/");
    share.append(decimal(c.window).as_str());
    let mut reached = owned("上下文使用量已达 ");
    reached.append(decimal(c.percent as u64).as_str());
    reached.append("%");
    reached.append(share.as_str());
    if c.level == 1 {
        reached.append(
            "）。Workflow 模式无自动压缩，需主动控制上下文用量。如已收集足够信息请停止探索输出结果。",
        );
        reached
    } else if c.level == 2 {
        reached.append("）。请尽快输出结果，避免后续截断。");
        reached
    } else if c.level == 3 {
        reached.append("），即将达到上限。必须立即输出最终结果。");
        reached
    } else {
        let mut s = owned("上下文已达上限");
        s.append(share.as_str());
        s.append("），工具调用将被关闭，立即产出回复。");
        s
    }
}

impl Turn {
    /// Adds an effect.
    fn tell(&mut self, effect: Effect)
        ensures
            final(self)@ == old(self)@.with(effect@),
            final(self).phase == old(self).phase,
    {
        let ghost before = self.effects@;
        self.effects.push(effect);
        assert(model::seq_view(self.effects@) == model::seq_view(before).push(effect@));
    }

    /// Stores the turn in memory.
    fn remember(&mut self, message: &String, success: bool)
        ensures
            final(self)@ == old(self)@.remembered(message@, success),
            final(self).phase == old(self).phase,
    {
        let input = self.input.clone();
        self.tell(Effect::StoreMemory { input, message: message.clone(), success });
    }

    /// Adds a warning about a tool call, where there is one.
    fn heed(&mut self, alert: Option<String>)
        ensures
            final(self)@ == (TurnModel {
                alerts: grown(old(self)@.alerts, model::opt_view(alert)),
                ..old(self)@
            }),
            final(self).phase == old(self).phase,
    {
        match alert {
            Some(words) => {
                let ghost before = self.protection_warnings@;
                self.protection_warnings.push(words);
                assert(model::seq_view(self.protection_warnings@) == model::seq_view(before).push(
                    words@,
                ));
            },
            None => {},
        }
    }

    /// Ends the turn after its last round.
    fn exhaust(&mut self)
        ensures
            final(self)@ == exhausted(old(self)@),
    {
        let mut message = owned("达到最大迭代次数（已执行 ");
        message.append(decimal(self.tool_call_count as u64).as_str());
        message.append(" 次工具调用）");
        self.tell(Effect::ShowFailed { error: owned("达到最大迭代次数") });
        self.tell(Effect::Distill);
        self.remember(&message, false);
        self.phase = TurnPhase::Done { success: false, message };
    }

    /// Goes on to the next round.
    fn go_round(&mut self)
        requires
            old(self).iteration < old(self).max_iterations,
        ensures
            final(self)@ == next_round(old(self)@),
    {
        if self.iteration + 1 < self.max_iterations {
            self.iteration = self.iteration + 1;
            self.phase = TurnPhase::Boundary;
        } else {
            self.exhaust();
        }
    }

    /// Hands warnings over to the reminder queue.
    fn flush(&mut self)
        ensures
            final(self)@ == flushed(old(self)@),
    {
        let ghost m = self@;
        let mut alerts: Vec<String> = Vec::new();
        core::mem::swap(&mut alerts, &mut self.protection_warnings);
        let mut pending: Vec<String> = Vec::new();
        core::mem::swap(&mut pending, &mut self.pending_warnings);
        let ghost bare = TurnModel { alerts: Seq::empty(), pending: Seq::empty(), ..m };
        assert(model::seq_view(Seq::<String>::empty()) == Seq::<Seq<char>>::empty());
        assert(self@ == bare);
        self.remind_all(alerts);
        self.remind_all(pending);
    }

    /// Turns warnings into reminders.
    fn remind_all(&mut self, warnings: Vec<String>)
        ensures
            final(self)@ == (TurnModel {
                effects: old(self)@.effects + reminders(model::seq_view(warnings@)),
                ..old(self)@
            }),
    {
        let ghost m = self@;
        let ghost w = model::seq_view(warnings@);
        assert(reminders(w.take(0)) == Seq::<EffectModel>::empty());
        let mut i: usize = 0;
        while i < warnings.len()
            invariant
                i <= warnings@.len(),
                w == model::seq_view(warnings@),
                self@ == (TurnModel {
                    effects: m.effects + reminders(w.take(i as int)),
                    ..m
                }),
            decreases warnings@.len() - i,
        {
            let words = warnings[i].clone();
            proof {
                assert(reminders(w.take(i + 1)) == reminders(w.take(i as int)).push(
                    EffectModel::Remind(words@, 3, Priority::High),
                ));
            }
            self.tell(Effect::Remind { text: words, rounds: 3, priority: Priority::High });
            i = i + 1;
        }
        assert(w.take(w.len() as int) == w);
    }

    /// Begins a tool call.
    fn begin_call(&mut self, calls: Vec<ToolCall>, index: usize)
        requires
            index < calls@.len(),
            old(self).tool_call_count < usize::MAX,
        ensures
            final(self)@ == call_begun(old(self)@, model::seq_view(calls@), index as int),
    {
        self.tool_call_count = self.tool_call_count + 1;
        let call_id = calls[index].id.clone();
        let tool = calls[index].tool.clone();
        let iteration: usize = self.iteration;
        let params = calls[index].params.clone();
        assert(model::seq_view(calls@)[index as int] == calls@[index as int]@);
        self.tell(Effect::ShowToolStart { call_id, tool, params, iteration });
        self.phase = TurnPhase::Guarding { calls, index };
    }

    /// Goes on to the next tool call, or to the next round behind the last.
    fn go_call(&mut self, calls: Vec<ToolCall>, index: usize)
        requires
            index < calls@.len(),
            old(self).tool_call_count < usize::MAX,
            old(self).iteration < old(self).max_iterations,
        ensures
            final(self)@ == next_call(old(self)@, model::seq_view(calls@), index as int),
    {
        let last: usize = calls.len() - 1;
        if index < last {
            self.begin_call(calls, index + 1);
        } else {
            self.flush();
            self.go_round();
        }
    }

    /// Takes appended instructions in.
    fn append(&mut self, a: Append)
        ensures
            final(self)@ == appended(old(self)@, a.section@, a.priority@),
            final(self).phase == old(self).phase,
    {
        self.tell(Effect::PushInternal(a.section));
        self.tell(Effect::ClearReminders);
        self.tell(Effect::Remind { text: a.priority, rounds: 2, priority: Priority::Critical });
    }

    /// Calls for delivery, where that is due.
    fn inject_delivery_warning(&mut self)
        ensures
            final(self)@ == urged(old(self)@),
            final(self).phase == old(self).phase,
    {
        let level: usize = delivery_warning_level(self.tool_call_count);
        if level <= self.delivery_warning_injected {
            return ;
        }
        self.delivery_warning_injected = level;
        let words = delivery_words(level, self.tool_call_count);
        let rounds: u32 = if level == 1 {
            2
        } else if level == 2 {
            3
        } else {
            4
        };
        let priority = if level == 1 {
            Priority::Normal
        } else if level == 2 {
            Priority::High
        } else {
            Priority::Critical
        };
        self.tell(Effect::Remind { text: words, rounds, priority });
    }

    /// Takes in how full the context is.
    fn measure(&mut self, c: ContextReading)
        ensures
            final(self)@ == measured(old(self)@, c),
    {
        if c.level <= self.max_warning_injected {
            if self.max_warning_injected >= 4 {
                self.exhaust();
            } else {
                self.phase = TurnPhase::Preparing { attempt: 0 };
            }
        } else {
            self.max_warning_injected = c.level;
            if c.level <= 4 {
                let words = context_words(c);
                let priority = if c.level == 1 {
                    Priority::Normal
                } else if c.level == 2 {
                    Priority::High
                } else {
                    Priority::Critical
                };
                self.tell(Effect::Remind { text: words, rounds: 2, priority });
            }
            self.phase = TurnPhase::Preparing { attempt: 0 };
        }
    }

    /// Takes reminders and notices in.
    fn prepare(&mut self, reminder: Option<String>, notices: Vec<String>, attempt: u32)
        ensures
            final(self)@ == prepared(
                old(self)@,
                model::opt_view(reminder),
                model::seq_view(notices@),
                attempt,
            ),
    {
        match reminder {
            Some(s) => {
                if !s.as_str().is_empty() {
                    self.tell(Effect::PushUser(s));
                }
            },
            None => {},
        }
        let ghost m = self@;
        let ghost n = model::seq_view(notices@);
        assert(m.effects + notice_effects(n.take(0)) == m.effects);
        let mut i: usize = 0;
        while i < notices.len()
            invariant
                i <= notices@.len(),
                n == model::seq_view(notices@),
                self@ == (TurnModel { effects: m.effects + notice_effects(n.take(i as int)), ..m }),
            decreases notices@.len() - i,
        {
            let words = notices[i].clone();
            proof {
                let now = n.take(i + 1);
                assert(now.drop_last() == n.take(i as int));
                assert(now.last() == words@);
            }
            if !words.as_str().is_empty() {
                let ghost before = self@.effects;
                self.tell(Effect::PushInternal(words));
                assert(m.effects + notice_effects(n.take(i + 1)) == before.push(
                    EffectModel::PushInternal(words@),
                ));
            }
            i = i + 1;
        }
        assert(n.take(n.len() as int) == n);
        self.phase = TurnPhase::Calling { attempt };
    }

    /// Takes in that a model call failed.
    fn fail_call(&mut self, attempt: u32, network: bool, message: String)
        requires
            attempt <= MAX_RETRIES,
        ensures
            final(self)@ == call_failed(old(self)@, attempt, network, message@),
    {
        if attempt >= MAX_RETRIES || !network {
            self.remember(&message, false);
            self.phase = TurnPhase::Broken { message };
        } else {
            let mut words = owned("Network connection timeout, retrying (");
            words.append(decimal((attempt + 1) as u64).as_str());
            words.append("/");
            words.append(decimal((MAX_RETRIES + 1) as u64).as_str());
            words.append(")");
            self.tell(
                Effect::ShowRetry {
                    message: words,
                    attempt: attempt + 1,
                    max_attempts: MAX_RETRIES + 1,
                },
            );
            let secs: u64 = if attempt == 0 {
                1
            } else {
                2
            };
            self.tell(Effect::Sleep(secs));
            self.phase = TurnPhase::Preparing { attempt: attempt + 1 };
        }
    }

    /// Takes the model's reply in.
    #[verifier::rlimit(30)]
    fn reply(&mut self, blocks: Vec<Block>, calls: Vec<ToolCall>)
        requires
            old(self).iteration < old(self).max_iterations,
            old(self).tool_call_count < usize::MAX,
        ensures
            final(self)@ == replied(
                old(self)@,
                model::seq_view(blocks@),
                model::seq_view(calls@),
            ),
    {
        let iteration: usize = self.iteration + 1;
        let max_iterations: usize = self.max_iterations;
        let tool_calls: usize = self.tool_call_count;
        self.tell(Effect::ShowProgress { iteration, max_iterations, tool_calls });
        assert(model::seq_view(blocks@).len() == blocks@.len());
        assert(model::seq_view(calls@).len() == calls@.len());
        if blocks.len() == 0 {
            self.go_round();
        } else if calls.len() == 0 {
            let kept = filter_blocks(&blocks, &calls);
            let words = trim(text_of(&blocks).as_str());
            let message = if words.as_str().is_empty() && self.tool_call_count > 0 {
                let mut s = owned("任务完成，共执行 ");
                s.append(decimal(self.tool_call_count as u64).as_str());
                s.append(" 次工具调用");
                s
            } else {
                words
            };
            self.tell(Effect::PushAssistant(kept));
            self.tell(Effect::ShowCompleted { message: message.clone(), tool_calls });
            self.remember(&message, true);
            self.phase = TurnPhase::Done { success: true, message };
        } else if self.user_requested_stop {
            let kept = filter_blocks(&blocks, &calls);
            let words = trim(text_of(&blocks).as_str());
            let message = if words.as_str().is_empty() {
                owned("操作已停止")
            } else {
                words
            };
            self.tell(Effect::PushAssistant(kept));
            self.tell(Effect::ShowCompleted { message: message.clone(), tool_calls });
            self.tell(Effect::Distill);
            self.remember(&message, true);
            self.phase = TurnPhase::Done { success: true, message };
        } else {
            self.tell(Effect::PushAssistant(blocks));
            self.begin_call(calls, 0);
        }
    }

    /// Takes in what the checks before a tool call found.
    #[verifier::rlimit(30)]
    fn guard(&mut self, calls: Vec<ToolCall>, index: usize, g: GuardReport)
        requires
            index < calls@.len(),
            old(self).iteration < old(self).max_iterations,
            old(self).tool_call_count < usize::MAX,
        ensures
            final(self)@ == guarded(old(self)@, model::seq_view(calls@), index as int, g),
    {
        let ghost cs = model::seq_view(calls@);
        assert(cs[index as int] == calls@[index as int]@);
        self.heed(g.alert);
        let mut warnings = g.warnings;
        let ghost extra = warnings@;
        let ghost before = self.pending_warnings@;
        self.pending_warnings.append(&mut warnings);
        assert(model::seq_view(self.pending_warnings@) == model::seq_view(before)
            + model::seq_view(extra));
        self.safety_failures = g.safety_failures;
        match g.refusal {
            None => {
                self.phase = TurnPhase::Executing { calls, index };
            },
            Some(error) => {
                let call_id = calls[index].id.clone();
                let tool = calls[index].tool.clone();
                self.tell(
                    Effect::ShowToolEnd {
                        call_id,
                        tool,
                        success: false,
                        duration_ms: 0,
                        preview: String::new(),
                        full_size: 0,
                        truncated: false,
                        error: copy_opt(&error),
                    },
                );
                match g.breaker {
                    Breaker::Halt => {
                        self.tell(Effect::StripIncomplete);
                        let mut message = owned("执行中止: 连续 ");
                        message.append(decimal(self.safety_failures as u64).as_str());
                        message.append(" 次安全检查未通过");
                        self.remember(&message, false);
                        self.phase = TurnPhase::Done { success: false, message };
                        return ;
                    },
                    Breaker::Advise(Some(words)) => {
                        self.tell(Effect::PushUser(words));
                    },
                    Breaker::Advise(None) => {},
                    Breaker::Calm => {},
                }
                self.heed(g.after_alert);
                let words = match error {
                    Some(s) => s,
                    None => String::new(),
                };
                let call_id = calls[index].id.clone();
                self.tell(Effect::PushToolResult { call_id, text: words, failed: true });
                self.go_call(calls, index);
            },
        }
    }

    /// Remembers a tool call that ended and shows it.
    fn record(&mut self, calls: Vec<ToolCall>, index: usize, result: ToolResult, duration_ms: u64)
        requires
            index < calls@.len(),
        ensures
            final(self)@ == recorded(
                old(self)@,
                model::seq_view(calls@),
                index as int,
                result@,
                duration_ms,
            ),
    {
        let ghost cs = model::seq_view(calls@);
        assert(cs[index as int] == calls@[index as int]@);
        let output = result.shown();
        if !is_among(&self.tools_used, calls[index].tool.as_str()) {
            let ghost before = self.tools_used@;
            let tool = calls[index].tool.clone();
            self.tools_used.push(tool);
            assert(model::seq_view(self.tools_used@) == model::seq_view(before).push(tool@));
        }
        let remembered = if result.success {
            output.clone()
        } else {
            match &result.error {
                Some(e) => e.clone(),
                None => output.clone(),
            }
        };
        let step = StepRecord {
            tool: calls[index].tool.clone(),
            params: calls[index].params.clone(),
            text: remembered,
            success: result.success,
            duration_ms,
        };
        let ghost before = self.steps@;
        self.steps.push(step);
        assert(model::seq_view(self.steps@) == model::seq_view(before).push(step@));
        let x = chars_of(output.as_str());
        let call_id = calls[index].id.clone();
        let tool = calls[index].tool.clone();
        let full_size: usize = output.as_str().len();
        self.tell(
            Effect::ShowToolEnd {
                call_id,
                tool,
                success: result.success,
                duration_ms,
                preview: take_chars(output.as_str(), PREVIEW_LIMIT),
                full_size,
                truncated: x.len() > PREVIEW_LIMIT,
                error: copy_opt(&result.error),
            },
        );
        self.phase = TurnPhase::Filtering { calls, index, output, success: result.success };
    }

    /// Takes in the tool's text after filtering.
    fn show(
        &mut self,
        calls: Vec<ToolCall>,
        index: usize,
        success: bool,
        words: String,
        alert: Option<String>,
        cancelled: bool,
    )
        requires
            index < calls@.len(),
            old(self).iteration < old(self).max_iterations,
            old(self).tool_call_count < usize::MAX,
        ensures
            final(self)@ == shown_to_model(
                old(self)@,
                model::seq_view(calls@),
                index as int,
                success,
                words@,
                model::opt_view(alert),
                cancelled,
            ),
    {
        let ghost cs = model::seq_view(calls@);
        assert(cs[index as int] == calls@[index as int]@);
        let call_id = calls[index].id.clone();
        self.tell(Effect::PushToolResult { call_id, text: words, failed: !success });
        if success {
            self.safety_failures = 0;
            self.tell(Effect::ResetErrors);
        } else {
            self.heed(alert);
        }
        if cancelled {
            self.flush();
            self.go_round();
        } else {
            self.go_call(calls, index);
        }
    }

    /// Takes in the user's decision at a pause.
    fn pause(&mut self, decision: Option<PauseDecision>)
        ensures
            final(self)@ == paused(old(self)@, decision),
    {
        match decision {
            Some(PauseDecision::Append(words)) => {
                self.tell(Effect::PushUser(words));
            },
            Some(PauseDecision::Terminate) => {
                self.user_requested_stop = true;
                self.tell(
                    Effect::PushUser(
                        owned(
                            "⚠ 用户要求立即停止当前操作。请立即整理已有成果，输出你已完成的内容和当前状态。不要继续执行任何工具调用。",
                        ),
                    ),
                );
            },
            _ => {},
        }
        self.tell(Effect::StripIncomplete);
        self.phase = TurnPhase::Redraining;
    }
}

/// An image of a message.
#[derive(Debug, Clone, PartialEq, Eq)]
pub struct Picture {
    pub url: String,
    /// The same picture as PNG, where it is a BMP that could be converted.
    pub png: Option<String>,
}

/// The content of a [`Picture`].
#[verifier::ext_equal]
pub struct PictureModel {
    pub url: Seq<char>,
    pub png: Option<Seq<char>>,
}

impl View for Picture {
    type V = PictureModel;

    open spec fn view(&self) -> PictureModel {
        PictureModel { url: self.url@, png: model::opt_view(self.png) }
    }
}

/// Whether an address holds a BMP, which models do not read.
pub open spec fn is_bmp(url: Seq<char>) -> bool {
    text::begins(url, "data:image/bmp"@)
}

impl PictureModel {
    /// What the model is shown: a BMP as PNG where it could be converted, else
    /// the image as it is.
    pub open spec fn shown(self) -> Seq<char> {
        match self.png {
            Some(png) => if is_bmp(self.url) {
                png
            } else {
                self.url
            },
            None => self.url,
        }
    }
}

/// Whether an image is to be converted to PNG before it is shown to the model.
pub fn needs_png(url: &str) -> (r: bool)
    ensures
        r == is_bmp(url@),
{
    starts_with(url, "data:image/bmp")
}

impl Picture {
    /// What the model is shown.
    pub fn shown(&self) -> (r: String)
        ensures
            r@ == self@.shown(),
    {
        match &self.png {
            Some(png) if needs_png(self.url.as_str()) => png.clone(),
            _ => self.url.clone(),
        }
    }
}

/// What a turn begins with.
pub struct Opening {
    pub input: String,
    pub images: Option<Vec<Picture>>,
    /// Whether the input already is in the session and is not for the user.
    pub internal: bool,
    /// Where the input came from.
    pub source: String,
    /// The tools that there are.
    pub tools: Vec<String>,
    pub session_id: String,
    pub session_empty: bool,
    /// The end of the workflow journal, where it could be read.
    pub memory_tail: Option<String>,
    /// Where the workflow journal is.
    pub memory_path: String,
}

/// The content of an [`Opening`].
#[verifier::ext_equal]
pub struct OpeningModel {
    pub input: Seq<char>,
    pub images: Option<Seq<PictureModel>>,
    pub internal: bool,
    pub source: Seq<char>,
    pub tools: Seq<Seq<char>>,
    pub session_id: Seq<char>,
    pub session_empty: bool,
    pub memory_tail: Option<Seq<char>>,
    pub memory_path: Seq<char>,
}

impl View for Opening {
    type V = OpeningModel;

    open spec fn view(&self) -> OpeningModel {
        OpeningModel {
            input: self.input@,
            images: match self.images {
                Some(list) => Some(model::seq_view(list@)),
                None => None,
            },
            internal: self.internal,
            source: self.source@,
            tools: model::seq_view(self.tools@),
            session_id: self.session_id@,
            session_empty: self.session_empty,
            memory_tail: model::opt_view(self.memory_tail),
            memory_path: self.memory_path@,
        }
    }
}

/// The blocks of a message with images: its text, where there is any, and the
/// images in their order.
pub open spec fn opening_blocks(input: Seq<char>, images: Seq<PictureModel>) -> Seq<BlockModel> {
    (if input.len() > 0 {
        seq![BlockModel::Text(input)]
    } else {
        Seq::empty()
    }) + Seq::new(images.len(), |i: int| BlockModel::Image(images[i].shown()))
}

/// The user's message in the session.
pub open spec fn message_pushed(o: OpeningModel) -> EffectModel {
    match o.images {
        Some(list) => if list.len() > 0 {
            EffectModel::PushUserBlocks(opening_blocks(o.input, list))
        } else {
            EffectModel::PushUser(o.input)
        },
        None => EffectModel::PushUser(o.input),
    }
}

/// The images as the user sent them.
pub open spec fn sent_images(o: OpeningModel) -> Seq<Seq<char>> {
    match o.images {
        Some(list) => Seq::new(list.len(), |i: int| list[i].url),
        None => Seq::empty(),
    }
}

/// What is done at the start of a turn: appended instructions are let in and
/// those of an earlier turn forgotten, an empty session is given the end of the
/// workflow journal, the turn is counted, the user's message goes into the
/// session and to the front end, unless it is an internal one, and the front
/// end is told of the start.
pub open spec fn opening(o: OpeningModel) -> Seq<EffectModel> {
    let begun = seq![EffectModel::SetRunning, EffectModel::ClearAppends];
    let told = match agent::snapshot_text(
        o.session_empty,
        o.memory_tail,
        o.session_id,
        o.memory_path,
    ) {
        Some(words) => begun.push(EffectModel::PushUser(words)),
        None => begun,
    }.push(EffectModel::AdvanceTurn);
    let heard = if o.internal {
        told
    } else {
        told.push(message_pushed(o)).push(
            EffectModel::ShowUser(o.input, o.source, sent_images(o)),
        )
    };
    heard.push(
        EffectModel::ShowStarted(text::clipped(o.input, 120), o.tools, o.source, "workflow"@),
    )
}

/// A turn at its start.
pub open spec fn fresh_turn(
    config: WorkflowAgentConfig,
    safety_failures: u32,
    o: OpeningModel,
) -> TurnModel {
    let m = TurnModel {
        input: o.input,
        session_id: o.session_id,
        max_iterations: config.max_iterations as int,
        iteration: 0,
        tool_calls: 0,
        user_stop: false,
        warned: 0,
        urged: 0,
        safety_failures,
        tools_used: Seq::empty(),
        steps: Seq::empty(),
        pending: Seq::empty(),
        alerts: Seq::empty(),
        effects: opening(o),
        phase: TurnPhaseModel::Boundary,
    };
    if config.max_iterations == 0 {
        exhausted(m)
    } else {
        m
    }
}

/// Every event keeps the bounds of a turn.
#[verifier::rlimit(40)]
pub proof fn turn_keeps_wf(m: TurnModel, e: TurnEvent)
    requires
        m.wf(),
    ensures
        turned(m, e).wf(),
{
}

impl Turn {
    /// Begins a turn: what is done before the model is first called is among
    /// the effects.
    pub fn begin(config: &WorkflowAgentConfig, safety_failures: u32, o: &Opening) -> (r: Turn)
        ensures
            r@ == fresh_turn(*config, safety_failures, o@),
            r@.wf(),
    {
        let mut turn = Turn {
            input: o.input.clone(),
            session_id: o.session_id.clone(),
            max_iterations: config.max_iterations,
            iteration: 0,
            tool_call_count: 0,
            user_requested_stop: false,
            max_warning_injected: 0,
            delivery_warning_injected: 0,
            safety_failures,
            tools_used: Vec::new(),
            steps: Vec::new(),
            pending_warnings: Vec::new(),
            protection_warnings: Vec::new(),
            effects: Vec::new(),
            phase: TurnPhase::Boundary,
        };
        proof {
            assert(model::seq_view(Seq::<String>::empty()) == Seq::<Seq<char>>::empty());
            assert(model::seq_view(Seq::<StepRecord>::empty()) == Seq::<StepModel>::empty());
            assert(model::seq_view(Seq::<Effect>::empty()) == Seq::<EffectModel>::empty());
        }
        turn.tell(Effect::SetRunning);
        turn.tell(Effect::ClearAppends);
        let tail = match &o.memory_tail {
            Some(words) => Some(words.as_str()),
            None => None,
        };
        let snapshot = inject_memory_snapshot(
            o.session_empty,
            tail,
            o.session_id.as_str(),
            o.memory_path.as_str(),
        );
        match snapshot {
            Some(words) => {
                turn.tell(Effect::PushUser(words));
            },
            None => {},
        }
        turn.tell(Effect::AdvanceTurn);
        if !o.internal {
            turn.push_input(o);
        }
        turn.tell(
            Effect::ShowStarted {
                goal: take_chars(o.input.as_str(), 120),
                tools: copy_all(&o.tools),
                source: o.source.clone(),
                mode: "workflow",
            },
        );
        assert(turn@.effects == opening(o@));
        if turn.max_iterations == 0 {
            turn.exhaust();
        }
        turn
    }

    /// Puts the user's message into the session and shows it.
    fn push_input(&mut self, o: &Opening)
        ensures
            final(self)@ == old(self)@.with(message_pushed(o@)).with(
                EffectModel::ShowUser(o@.input, o@.source, sent_images(o@)),
            ),
            final(self).phase == old(self).phase,
    {
        let input = o.input.as_str();
        let mut sent: Vec<String> = Vec::new();
        match &o.images {
            Some(list) if list.len() > 0 => {
                let ghost all = model::seq_view(list@);
                let mut blocks: Vec<Block> = Vec::new();
                assert(model::seq_view(blocks@) == Seq::<BlockModel>::empty());
                if !input.is_empty() {
                    let block = Block::Text { text: owned(input) };
                    blocks.push(block);
                    assert(model::seq_view(blocks@) == seq![block@]);
                }
                let mut i: usize = 0;
                assert(opening_blocks(input@, all.take(0)) == model::seq_view(blocks@));
                while i < list.len()
                    invariant
                        i <= list@.len(),
                        all == model::seq_view(list@),
                        model::seq_view(blocks@) == opening_blocks(input@, all.take(i as int)),
                        model::seq_view(sent@) == Seq::new(i as nat, |k: int| all[k].url),
                    decreases list@.len() - i,
                {
                    let ghost before = blocks@;
                    let ghost sent_before = sent@;
                    let block = Block::Image { url: list[i].shown() };
                    let url = list[i].url.clone();
                    assert(all[i as int] == list@[i as int]@);
                    blocks.push(block);
                    sent.push(url);
                    i = i + 1;
                    proof {
                        assert(model::seq_view(blocks@) == model::seq_view(before).push(block@));
                        assert(model::seq_view(sent@) == model::seq_view(sent_before).push(url@));
                        assert(opening_blocks(input@, all.take(i as int)) == opening_blocks(
                            input@,
                            all.take(i - 1),
                        ).push(block@));
                    }
                }
                assert(all.take(all.len() as int) == all);
                self.tell(Effect::PushUserBlocks(blocks));
            },
            _ => {
                self.tell(Effect::PushUser(owned(input)));
            },
        }
        assert(model::seq_view(sent@) == sent_images(o@));
        self.tell(
            Effect::ShowUser { content: owned(input), source: o.source.clone(), images: sent },
        );
    }

    /// The parameters for the tool that is to run, where one is.
    pub fn tool_params(&self) -> (r: Option<String>)
        requires
            self@.wf(),
        ensures
            model::opt_view(r) == match self@.phase {
                TurnPhaseModel::Executing(calls, index) => Some(
                    run_params(calls[index].tool, calls[index].params, self@.session_id),
                ),
                _ => None,
            },
    {
        match &self.phase {
            TurnPhase::Executing { calls, index } => {
                let call = &calls[*index];
                assert(model::seq_view(calls@)[*index as int] == calls@[*index as int]@);
                Some(
                    exec_params(
                        call.tool.as_str(),
                        call.params.as_str(),
                        self.session_id.as_str(),
                    ),
                )
            },
            _ => None,
        }
    }

    /// Takes in what outside work found.
    #[verifier::rlimit(40)]
    pub fn advance(&mut self, event: TurnEvent)
        requires
            old(self)@.wf(),
            old(self).tool_call_count < usize::MAX,
        ensures
            final(self)@ == turned(old(self)@, event),
            final(self)@.wf(),
    {
        proof {
            turn_keeps_wf(self@, event);
        }
        let mut phase = TurnPhase::Boundary;
        core::mem::swap(&mut phase, &mut self.phase);
        match phase {
            TurnPhase::Boundary => {
                match event {
                    TurnEvent::Cancelled(yes) => {
                        if yes {
                            self.tell(
                                Effect::ShowCancelled { message: owned("任务已被用户中断") },
                            );
                            let message = owned("任务已被用户中断");
                            self.remember(&message, false);
                            self.phase = TurnPhase::Done { success: false, message };
                        } else {
                            self.phase = TurnPhase::Draining;
                        }
                    },
                    _ => {},
                }
            },
            TurnPhase::Draining => {
                self.phase = TurnPhase::Draining;
                match event {
                    TurnEvent::Appended(a) => {
                        match a {
                            Some(a) => {
                                self.append(a);
                                self.tell(Effect::ShowAppendsTaken);
                            },
                            None => {},
                        }
                        self.phase = TurnPhase::Pausing;
                    },
                    _ => {},
                }
            },
            TurnPhase::Pausing => {
                self.phase = TurnPhase::Pausing;
                match event {
                    TurnEvent::Paused(decision) => {
                        self.pause(decision);
                    },
                    _ => {},
                }
            },
            TurnPhase::Redraining => {
                self.phase = TurnPhase::Redraining;
                match event {
                    TurnEvent::Appended(a) => {
                        match a {
                            Some(a) => {
                                self.append(a);
                            },
                            None => {},
                        }
                        self.inject_delivery_warning();
                        self.phase = TurnPhase::Measuring;
                    },
                    _ => {},
                }
            },
            TurnPhase::Measuring => {
                self.phase = TurnPhase::Measuring;
                match event {
                    TurnEvent::Measured(c) => {
                        self.measure(c);
                    },
                    _ => {},
                }
            },
            other => {
                self.converse(other, event);
            },
        }
    }

    /// Takes in what was found from the model call on.
    #[verifier::rlimit(40)]
    fn converse(&mut self, phase: TurnPhase, event: TurnEvent)
        requires
            old(self)@.enters(phase@).wf(),
            old(self).tool_call_count < usize::MAX,
            !(phase is Boundary) && !(phase is Draining) && !(phase is Pausing) && !(
            phase is Redraining) && !(phase is Measuring),
        ensures
            final(self)@ == turned(old(self)@.enters(phase@), event),
    {
        match phase {
            TurnPhase::Preparing { attempt } => {
                self.phase = TurnPhase::Preparing { attempt };
                match event {
                    TurnEvent::Prepared { reminder, notices } => {
                        self.prepare(reminder, notices, attempt);
                    },
                    _ => {},
                }
            },
            TurnPhase::Calling { attempt } => {
                self.phase = TurnPhase::Calling { attempt };
                match event {
                    TurnEvent::Replied { blocks, calls } => {
                        self.reply(blocks, calls);
                    },
                    TurnEvent::CallFailed { network, message } => {
                        self.fail_call(attempt, network, message);
                    },
                    _ => {},
                }
            },
            TurnPhase::Guarding { calls, index } => match event {
                TurnEvent::Guarded(g) => {
                    self.guard(calls, index, g);
                },
                _ => {
                    self.phase = TurnPhase::Guarding { calls, index };
                },
            },
            TurnPhase::Executing { calls, index } => {
                self.execute(calls, index, event);
            },
            TurnPhase::Running { calls, index, workflow_id } => match event {
                TurnEvent::RunEnded { outcome, user_cancelled, duration_ms } => {
                    if user_cancelled {
                        let ghost before = self.pending_warnings@;
                        let words = owned(
                            "用户已终止工作流的执行。请直接向用户报告结果并结束当前任务，不要重新调用 workflow_run。",
                        );
                        self.pending_warnings.push(words);
                        assert(model::seq_view(self.pending_warnings@) == model::seq_view(
                            before,
                        ).push(words@));
                        self.tell(Effect::ShowHud { line: owned("工作流已由用户终止") });
                    }
                    let result = workflow_run_result(outcome, user_cancelled);
                    self.record(calls, index, result, duration_ms);
                },
                _ => {
                    self.phase = TurnPhase::Running { calls, index, workflow_id };
                },
            },
            TurnPhase::Asking { calls, index, action } => match event {
                TurnEvent::Answered { value, duration_ms } => {
                    let result = user_input_result(value);
                    self.record(calls, index, result, duration_ms);
                },
                _ => {
                    self.phase = TurnPhase::Asking { calls, index, action };
                },
            },
            TurnPhase::Filtering { calls, index, output, success } => match event {
                TurnEvent::Shown { text: words, alert, cancelled } => {
                    self.show(calls, index, success, words, alert, cancelled);
                },
                _ => {
                    self.phase = TurnPhase::Filtering { calls, index, output, success };
                },
            },
            other => {
                self.phase = other;
            },
        }
    }

    /// Takes in what was found while a tool ran.
    fn execute(&mut self, calls: Vec<ToolCall>, index: usize, event: TurnEvent)
        requires
            index < calls@.len(),
        ensures
            final(self)@ == turned(
                old(self)@.enters(TurnPhaseModel::Executing(model::seq_view(calls@), index as int)),
                event,
            ),
    {
        let ghost cs = model::seq_view(calls@);
        let ghost before = self@.enters(TurnPhaseModel::Executing(cs, index as int));
        assert(cs[index as int] == calls@[index as int]@);
        match event {
            TurnEvent::Listed { ids } => {
                if !same_text(calls[index].tool.as_str(), "workflow_run") {
                    self.phase = TurnPhase::Executing { calls, index };
                    assert(self@ == before);
                } else {
                    let raw_id = workflow_of(calls[index].params.as_str());
                    match resolve_workflow_id(raw_id.as_str(), &ids) {
                        Ok(workflow_id) => {
                            self.phase = TurnPhase::Running { calls, index, workflow_id };
                        },
                        Err(message) => {
                            self.remember(&message, false);
                            self.phase = TurnPhase::Done { success: false, message };
                        },
                    }
                }
            },
            TurnEvent::Validated { report, load_error, duration_ms } => {
                if same_text(calls[index].tool.as_str(), "workflow_validate") {
                    let raw_id = workflow_of(calls[index].params.as_str());
                    let result = workflow_validate_result(raw_id.as_str(), &report, load_error);
                    self.record(calls, index, result, duration_ms);
                } else {
                    self.phase = TurnPhase::Executing { calls, index };
                    assert(self@ == before);
                }
            },
            TurnEvent::NoEngine { duration_ms } => {
                if same_text(calls[index].tool.as_str(), "workflow_run") {
                    let error = owned("workflow_engine not injected to WorkflowAgent");
                    self.record(calls, index, ToolResult::failure(error), duration_ms);
                } else if same_text(calls[index].tool.as_str(), "workflow_validate") {
                    let error = owned("workflow_engine not injected");
                    self.record(calls, index, ToolResult::failure(error), duration_ms);
                } else {
                    self.phase = TurnPhase::Executing { calls, index };
                    assert(self@ == before);
                }
            },
            TurnEvent::Ran { .. } if same_text(calls[index].tool.as_str(), "workflow_run")
                || same_text(calls[index].tool.as_str(), "workflow_validate") => {
                self.phase = TurnPhase::Executing { calls, index };
                assert(self@ == before);
            },
            TurnEvent::Ran { result, action, duration_ms } => {
                let asks = same_text(calls[index].tool.as_str(), "request_user_input")
                    && result.success && result.output.is_some();
                match action {
                    Some(action) if asks => {
                        self.phase = TurnPhase::Asking { calls, index, action };
                    },
                    _ => {
                        self.record(calls, index, result, duration_ms);
                    },
                }
            },
            _ => {
                self.phase = TurnPhase::Executing { calls, index };
            },
        }
    }

    /// Hands out the effects that are to be performed.
    pub fn take_effects(&mut self) -> (r: Vec<Effect>)
        ensures
            model::seq_view(r@) == old(self)@.effects,
            final(self)@ == (TurnModel { effects: Seq::empty(), ..old(self)@ }),
    {
        let mut out: Vec<Effect> = Vec::new();
        core::mem::swap(&mut out, &mut self.effects);
        assert(model::seq_view(self.effects@) == Seq::<EffectModel>::empty());
        out
    }

    /// What the turn reports once it is over.
    pub fn outcome(&self) -> (r: Option<Result<AgentOutput, String>>)
        ensures
            match r {
                None => !self@.over(),
                Some(Ok(o)) => self@.phase == TurnPhaseModel::Done(o.success, o.message@)
                    && o.steps@.len() == 0 && o.retry_session is None,
                Some(Err(e)) => self@.phase == TurnPhaseModel::Broken(e@),
            },
    {
        match &self.phase {
            TurnPhase::Done { success, message } => Some(
                Ok(
                    AgentOutput {
                        message: message.clone(),
                        success: *success,
                        steps: Vec::new(),
                        retry_session: None,
                    },
                ),
            ),
            TurnPhase::Broken { message } => Some(Err(message.clone())),
            _ => None,
        }
    }
}

/// The turn after a series of events.
pub open spec fn turn_through(m: TurnModel, events: Seq<TurnEvent>) -> TurnModel
    decreases events.len(),
{
    if events.len() == 0 {
        m
    } else {
        turned(turn_through(m, events.drop_last()), events.last())
    }
}

/// Whatever happens outside, a turn stays within its rounds and each model
/// call within its tries.
pub proof fn turn_is_bounded(m: TurnModel, events: Seq<TurnEvent>)
    requires
        m.wf(),
    ensures
        turn_through(m, events).wf(),
        turn_through(m, events).max_iterations == m.max_iterations,
        turn_through(m, events).over() || turn_through(m, events).iteration < m.max_iterations,
    decreases events.len(),
{
    if events.len() > 0 {
        turn_is_bounded(m, events.drop_last());
        turn_keeps_wf(turn_through(m, events.drop_last()), events.last());
    }
}

/// What is stored in memory of a turn that is over.
pub open spec fn last_memory(m: TurnModel) -> EffectModel {
    match m.phase {
        TurnPhaseModel::Done(success, message) => EffectModel::StoreMemory(
            m.input,
            message,
            success,
        ),
        TurnPhaseModel::Broken(message) => EffectModel::StoreMemory(m.input, message, false),
        _ => arbitrary(),
    }
}

/// A turn that is over stays as it is.
pub proof fn turn_over_is_final(m: TurnModel, events: Seq<TurnEvent>)
    requires
        m.over(),
    ensures
        turn_through(m, events) == m,
    decreases events.len(),
{
    if events.len() > 0 {
        turn_over_is_final(m, events.drop_last());
    }
}

/// A turn that ends is stored in memory as its last effect, however it ends:
/// with the input, with the message that it reports, and as a success only
/// where it reports one.
pub proof fn ending_is_remembered(m: TurnModel, e: TurnEvent)
    requires
        m.wf(),
        !m.over(),
        turned(m, e).over(),
    ensures
        turned(m, e).effects.len() > 0,
        turned(m, e).effects.last() == last_memory(turned(m, e)),
{
}

/// Whether nothing is stored in memory.
pub open spec fn unstored(effects: Seq<EffectModel>) -> bool {
    forall|i: int| 0 <= i < effects.len() ==> !(#[trigger] effects[i] is StoreMemory)
}

/// Whether a turn is stored in memory exactly once where it is over, as its
/// last effect, and not at all before.
pub open spec fn stored_once(m: TurnModel) -> bool {
    if m.over() {
        m.effects.len() > 0 && m.effects.last() == last_memory(m) && unstored(
            m.effects.drop_last(),
        )
    } else {
        unstored(m.effects)
    }
}

/// Notices store nothing in memory.
proof fn notices_store_nothing(notices: Seq<Seq<char>>)
    ensures
        unstored(notice_effects(notices)),
    decreases notices.len(),
{
    if notices.len() > 0 {
        notices_store_nothing(notices.drop_last());
    }
}

/// The end of the rounds stores the turn.
proof fn round_keeps_stored_once(m: TurnModel)
    requires
        unstored(m.effects),
        !m.over(),
    ensures
        stored_once(exhausted(m)),
        stored_once(next_round(m)),
{
    let message = "达到最大迭代次数（已执行 "@ + text::decimal_text(m.tool_calls as nat)
        + " 次工具调用）"@;
    let before = m.with(EffectModel::ShowFailed("达到最大迭代次数"@)).with(EffectModel::Distill);
    assert(exhausted(m).effects.drop_last() == before.effects);
    assert(exhausted(m).effects.last() == EffectModel::StoreMemory(m.input, message, false));
}

/// So does the end of the calls of a round, where it is the last.
proof fn call_keeps_stored_once(m: TurnModel, calls: Seq<CallModel>, index: int)
    requires
        unstored(m.effects),
        !m.over(),
    ensures
        stored_once(call_begun(m, calls, index)),
        stored_once(next_call(m, calls, index)),
        stored_once(next_round(flushed(m))),
{
    assert(unstored(flushed(m).effects));
    round_keeps_stored_once(flushed(m));
}

/// So do the checks before a tool call, where they halt the turn.
proof fn guard_keeps_stored_once(m: TurnModel, calls: Seq<CallModel>, index: int, g: GuardReport)
    requires
        unstored(m.effects),
        !m.over(),
    ensures
        stored_once(guarded(m, calls, index, g)),
{
    let heard = TurnModel {
        alerts: grown(m.alerts, model::opt_view(g.alert)),
        pending: m.pending + model::seq_view(g.warnings@),
        safety_failures: g.safety_failures,
        ..m
    };
    if let Some(error) = g.refusal {
        let shown = heard.with(
            EffectModel::ShowToolEnd(
                ToolEndModel {
                    call_id: calls[index].id,
                    tool: calls[index].tool,
                    success: false,
                    duration_ms: 0,
                    preview: Seq::empty(),
                    full_size: 0,
                    truncated: false,
                    error: model::opt_view(error),
                },
            ),
        );
        assert(unstored(shown.effects));
        if g.breaker is Halt {
            assert(halted(shown).effects.drop_last() == shown.with(
                EffectModel::StripIncomplete,
            ).effects);
            assert(unstored(halted(shown).effects.drop_last()));
        } else {
            let advised = match g.breaker {
                Breaker::Advise(Some(words)) => shown.with(EffectModel::PushUser(words@)),
                _ => shown,
            };
            let refused = TurnModel {
                alerts: grown(advised.alerts, model::opt_view(g.after_alert)),
                ..advised
            }.with(
                EffectModel::PushToolResult(
                    calls[index].id,
                    match error {
                        Some(s) => s@,
                        None => Seq::empty(),
                    },
                    true,
                ),
            );
            assert(unstored(refused.effects));
            call_keeps_stored_once(refused, calls, index);
        }
    }
}

/// So does a reply that ends the turn.
proof fn reply_keeps_stored_once(m: TurnModel, blocks: Seq<BlockModel>, calls: Seq<CallModel>)
    requires
        unstored(m.effects),
        !m.over(),
    ensures
        stored_once(replied(m, blocks, calls)),
{
    let after = replied(m, blocks, calls);
    let seen = m.with(EffectModel::ShowProgress(m.iteration + 1, m.max_iterations, m.tool_calls));
    assert(unstored(seen.effects));
    if blocks.len() == 0 {
        round_keeps_stored_once(seen);
    } else if calls.len() == 0 || m.user_stop {
        assert(unstored(after.effects.drop_last()));
    } else {
        let pushed = seen.with(EffectModel::PushAssistant(blocks));
        assert(unstored(pushed.effects));
        call_keeps_stored_once(pushed, calls, 0);
    }
}

/// So does the end of a tool's work.
proof fn shown_keeps_stored_once(
    m: TurnModel,
    calls: Seq<CallModel>,
    index: int,
    success: bool,
    words: Seq<char>,
    alert: Option<Seq<char>>,
    cancelled: bool,
)
    requires
        unstored(m.effects),
        !m.over(),
    ensures
        stored_once(shown_to_model(m, calls, index, success, words, alert, cancelled)),
{
    let pushed = m.with(EffectModel::PushToolResult(calls[index].id, words, !success));
    let settled = if success {
        TurnModel { safety_failures: 0, ..pushed }.with(EffectModel::ResetErrors)
    } else {
        TurnModel { alerts: grown(pushed.alerts, alert), ..pushed }
    };
    assert(unstored(settled.effects));
    call_keeps_stored_once(settled, calls, index);
}

/// An event keeps what is stored of a turn as it should be.
#[verifier::rlimit(40)]
proof fn event_keeps_stored_once(m: TurnModel, e: TurnEvent)
    requires
        m.wf(),
        stored_once(m),
    ensures
        stored_once(turned(m, e)),
        turned(m, e).input == m.input,
        turned(m, e).session_id == m.session_id,
{
    let after = turned(m, e);
    match (m.phase, e) {
        (TurnPhaseModel::Preparing(_), TurnEvent::Prepared { reminder, notices }) => {
            notices_store_nothing(model::seq_view(notices@));
        },
        (TurnPhaseModel::Measuring, TurnEvent::Measured(c)) => {
            round_keeps_stored_once(m);
        },
        (TurnPhaseModel::Calling(_), TurnEvent::Replied { blocks, calls }) => {
            reply_keeps_stored_once(m, model::seq_view(blocks@), model::seq_view(calls@));
        },
        (TurnPhaseModel::Guarding(calls, index), TurnEvent::Guarded(g)) => {
            guard_keeps_stored_once(m, calls, index, g);
        },
        (
            TurnPhaseModel::Filtering(calls, index, _, success),
            TurnEvent::Shown { text: words, alert, cancelled },
        ) => {
            shown_keeps_stored_once(
                m,
                calls,
                index,
                success,
                words@,
                model::opt_view(alert),
                cancelled,
            );
        },
        _ => {
            if after.over() && !m.over() {
                assert(unstored(after.effects.drop_last()));
            }
        },
    }
}

/// Whatever happens outside, one memory of a turn is stored: when the turn
/// ends, with its input, with the message that it reports, and as a success
/// only where it reports one.
pub proof fn turn_is_remembered_once(
    config: WorkflowAgentConfig,
    safety_failures: u32,
    o: OpeningModel,
    events: Seq<TurnEvent>,
)
    ensures
        stored_once(turn_through(fresh_turn(config, safety_failures, o), events)),
        turn_through(fresh_turn(config, safety_failures, o), events).input == o.input,
        turn_through(fresh_turn(config, safety_failures, o), events).session_id == o.session_id,
        turn_through(fresh_turn(config, safety_failures, o), events).wf(),
    decreases events.len(),
{
    if events.len() > 0 {
        turn_is_remembered_once(config, safety_failures, o, events.drop_last());
        let m = turn_through(fresh_turn(config, safety_failures, o), events.drop_last());
        turn_keeps_wf(m, events.last());
        event_keeps_stored_once(m, events.last());
    }
}

/// However a turn with an input ends, the memory that is stored of it has an
/// entry: under its session, with the input as what the user said, and as a
/// success exactly where the turn reports one.
pub proof fn memory_says_what_was_asked(
    config: WorkflowAgentConfig,
    safety_failures: u32,
    o: OpeningModel,
    events: Seq<TurnEvent>,
    turn_count: u64,
    categories: Seq<Seq<char>>,
)
    requires
        o.input.len() > 0,
        turn_through(fresh_turn(config, safety_failures, o), events).over(),
    ensures
        ({
            let m = turn_through(fresh_turn(config, safety_failures, o), events);
            &&& m.effects.len() > 0
            &&& m.effects.last() matches EffectModel::StoreMemory(input, message, success)
            &&& agent::turn_memory(
                m.session_id,
                turn_count,
                input,
                message,
                success,
                m.tools_used,
                m.steps,
                categories,
            ) matches Some(entry)
            &&& entry.session_id == o.session_id
            &&& entry.user_message == agent::cut(o.input, 2000)
            &&& entry.success == (m.phase is Done && m.phase->Done_0)
        }),
{
    turn_is_remembered_once(config, safety_failures, o, events);
}

/// What an agent finds when it is run: its tools, its session and its journal.
pub struct Surroundings {
    pub tools: Vec<String>,
    pub session_id: String,
    pub session_empty: bool,
    /// The end of the workflow journal, where it could be read.
    pub memory_tail: Option<String>,
    /// Where the workflow journal is.
    pub memory_path: String,
}

/// What a turn of an agent begins with.
pub open spec fn opening_of(
    a: AgentModel,
    input: Seq<char>,
    images: Option<Seq<PictureModel>>,
    around: Surroundings,
) -> OpeningModel {
    OpeningModel {
        input,
        images,
        internal: a.internal_input,
        source: a.source,
        tools: model::seq_view(around.tools@),
        session_id: around.session_id@,
        session_empty: around.session_empty,
        memory_tail: model::opt_view(around.memory_tail),
        memory_path: around.memory_path@,
    }
}

/// Whether the memory that is stored of a turn that is over is that of its input:
/// it is stored once, as the last that is told, and has an entry under the
/// session, with the input as what the user said, and as a success exactly where
/// the turn reports one.
pub open spec fn is_remembered(o: OpeningModel, m: TurnModel) -> bool {
    &&& m.effects.len() > 0
    &&& unstored(m.effects.drop_last())
    &&& m.effects.last() matches EffectModel::StoreMemory(input, message, success)
    &&& forall|turn_count: u64, categories: Seq<Seq<char>>|
        (#[trigger] agent::turn_memory(
            m.session_id,
            turn_count,
            input,
            message,
            success,
            m.tools_used,
            m.steps,
            categories,
        )) matches Some(entry) && entry.session_id == o.session_id && entry.user_message
            == agent::cut(o.input, 2000) && entry.success == (m.phase is Done && m.phase->Done_0)
}

/// The memory of a turn is that of its input, whatever the turn's number and the
/// marks of its tools.
proof fn end_is_remembered(
    config: WorkflowAgentConfig,
    safety_failures: u32,
    o: OpeningModel,
    events: Seq<TurnEvent>,
)
    requires
        o.input.len() > 0,
        turn_through(fresh_turn(config, safety_failures, o), events).over(),
    ensures
        is_remembered(o, turn_through(fresh_turn(config, safety_failures, o), events)),
{
    let m = turn_through(fresh_turn(config, safety_failures, o), events);
    memory_says_what_was_asked(config, safety_failures, o, events, 0, Seq::empty());
    turn_is_remembered_once(config, safety_failures, o, events);
    if let EffectModel::StoreMemory(input, message, success) = m.effects.last() {
        assert forall|turn_count: u64, categories: Seq<Seq<char>>|
            #![trigger agent::turn_memory(
                m.session_id,
                turn_count,
                input,
                message,
                success,
                m.tools_used,
                m.steps,
                categories,
            )]
            agent::turn_memory(
                m.session_id,
                turn_count,
                input,
                message,
                success,
                m.tools_used,
                m.steps,
                categories,
            ) matches Some(entry) && entry.session_id == o.session_id && entry.user_message
                == agent::cut(o.input, 2000) && entry.success == (m.phase is Done
                && m.phase->Done_0) by {
            memory_says_what_was_asked(
                config,
                safety_failures,
                o,
                events,
                turn_count,
                categories,
            );
        }
    }
}

impl WorkflowAgent {
    /// Runs the agent on an input: its turn at the start, from where it came and
    /// for whom it is as the agent was told before. However the turn ends, what
    /// was asked is remembered.
    pub fn run(
        &self,
        config: &WorkflowAgentConfig,
        safety_failures: u32,
        input: &str,
        images: Option<Vec<Picture>>,
        around: Surroundings,
    ) -> (r: Turn)
        ensures
            ({
                let o = opening_of(
                    self@,
                    input@,
                    match images {
                        Some(list) => Some(model::seq_view(list@)),
                        None => None,
                    },
                    around,
                );
                &&& r@ == fresh_turn(*config, safety_failures, o)
                &&& r@.wf()
                &&& input@.len() > 0 ==> forall|events: Seq<TurnEvent>|
                    (#[trigger] turn_through(r@, events)).over() ==> is_remembered(
                        o,
                        turn_through(r@, events),
                    )
            }),
    {
        let opening = Opening {
            input: owned(input),
            images,
            internal: self.internal_input,
            source: self.source.clone(),
            tools: around.tools,
            session_id: around.session_id,
            session_empty: around.session_empty,
            memory_tail: around.memory_tail,
            memory_path: around.memory_path,
        };
        let turn = Turn::begin(config, safety_failures, &opening);
        proof {
            if input@.len() > 0 {
                assert forall|events: Seq<TurnEvent>|
                    (#[trigger] turn_through(turn@, events)).over() implies is_remembered(
                    opening@,
                    turn_through(turn@, events),
                ) by {
                    end_is_remembered(*config, safety_failures, opening@, events);
                }
            }
        }
        turn
    }
}

impl TurnModel {
    /// The turn with effects before its own.
    pub open spec fn after(self, effects: Seq<EffectModel>) -> TurnModel {
        TurnModel { effects: effects + self.effects, ..self }
    }
}

/// An effect comes behind those that were told earlier.
proof fn effect_comes_after(m: TurnModel, earlier: Seq<EffectModel>, x: EffectModel)
    ensures
        m.after(earlier).with(x) == m.with(x).after(earlier),
{
    assert((earlier + m.effects).push(x) == earlier + m.effects.push(x));
}

/// So does what ends a round.
proof fn round_comes_after(m: TurnModel, earlier: Seq<EffectModel>)
    ensures
        exhausted(m.after(earlier)) == exhausted(m).after(earlier),
        next_round(m.after(earlier)) == next_round(m).after(earlier),
{
    assert(exhausted(m.after(earlier)).effects == exhausted(m).after(earlier).effects);
}

/// So does what follows a tool call.
proof fn call_comes_after(
    m: TurnModel,
    earlier: Seq<EffectModel>,
    calls: Seq<CallModel>,
    index: int,
)
    ensures
        call_begun(m.after(earlier), calls, index) == call_begun(m, calls, index).after(earlier),
        next_call(m.after(earlier), calls, index) == next_call(m, calls, index).after(earlier),
        next_round(flushed(m.after(earlier))) == next_round(flushed(m)).after(earlier),
{
    assert(call_begun(m.after(earlier), calls, index).effects == call_begun(
        m,
        calls,
        index,
    ).after(earlier).effects);
    assert(call_begun(m.after(earlier), calls, index + 1).effects == call_begun(
        m,
        calls,
        index + 1,
    ).after(earlier).effects);
    assert(flushed(m.after(earlier)).effects == flushed(m).after(earlier).effects);
    round_comes_after(flushed(m), earlier);
}

/// So does what the checks before a tool call lead to.
proof fn guard_comes_after(
    m: TurnModel,
    earlier: Seq<EffectModel>,
    calls: Seq<CallModel>,
    index: int,
    g: GuardReport,
)
    ensures
        guarded(m.after(earlier), calls, index, g) == guarded(m, calls, index, g).after(earlier),
{
    let heard = TurnModel {
        alerts: grown(m.alerts, model::opt_view(g.alert)),
        pending: m.pending + model::seq_view(g.warnings@),
        safety_failures: g.safety_failures,
        ..m
    };
    if let Some(error) = g.refusal {
        let end = EffectModel::ShowToolEnd(
            ToolEndModel {
                call_id: calls[index].id,
                tool: calls[index].tool,
                success: false,
                duration_ms: 0,
                preview: Seq::empty(),
                full_size: 0,
                truncated: false,
                error: model::opt_view(error),
            },
        );
        effect_comes_after(heard, earlier, end);
        let shown = heard.with(end);
        if g.breaker is Halt {
            assert(halted(shown.after(earlier)).effects == halted(shown).after(earlier).effects);
        } else {
            let advised = match g.breaker {
                Breaker::Advise(Some(words)) => {
                    effect_comes_after(shown, earlier, EffectModel::PushUser(words@));
                    shown.with(EffectModel::PushUser(words@))
                },
                _ => shown,
            };
            let settled = TurnModel {
                alerts: grown(advised.alerts, model::opt_view(g.after_alert)),
                ..advised
            };
            let result = EffectModel::PushToolResult(
                calls[index].id,
                match error {
                    Some(s) => s@,
                    None => Seq::empty(),
                },
                true,
            );
            effect_comes_after(settled, earlier, result);
            call_comes_after(settled.with(result), earlier, calls, index);
        }
    }
}

/// So does what a reply leads to.
proof fn reply_comes_after(
    m: TurnModel,
    earlier: Seq<EffectModel>,
    blocks: Seq<BlockModel>,
    calls: Seq<CallModel>,
)
    ensures
        replied(m.after(earlier), blocks, calls) == replied(m, blocks, calls).after(earlier),
{
    let progress = EffectModel::ShowProgress(m.iteration + 1, m.max_iterations, m.tool_calls);
    let seen = m.with(progress);
    effect_comes_after(m, earlier, progress);
    if blocks.len() == 0 {
        round_comes_after(seen, earlier);
    } else if calls.len() == 0 || m.user_stop {
        assert(replied(m.after(earlier), blocks, calls).effects == replied(
            m,
            blocks,
            calls,
        ).after(earlier).effects);
    } else {
        effect_comes_after(seen, earlier, EffectModel::PushAssistant(blocks));
        call_comes_after(seen.with(EffectModel::PushAssistant(blocks)), earlier, calls, 0);
    }
}

/// So does what follows the filtering of a tool's text.
proof fn shown_comes_after(
    m: TurnModel,
    earlier: Seq<EffectModel>,
    calls: Seq<CallModel>,
    index: int,
    success: bool,
    words: Seq<char>,
    alert: Option<Seq<char>>,
    cancelled: bool,
)
    ensures
        shown_to_model(m.after(earlier), calls, index, success, words, alert, cancelled)
            == shown_to_model(m, calls, index, success, words, alert, cancelled).after(earlier),
{
    let result = EffectModel::PushToolResult(calls[index].id, words, !success);
    let pushed = m.with(result);
    effect_comes_after(m, earlier, result);
    let calm = TurnModel { safety_failures: 0, ..pushed };
    effect_comes_after(calm, earlier, EffectModel::ResetErrors);
    let settled = if success {
        calm.with(EffectModel::ResetErrors)
    } else {
        TurnModel { alerts: grown(pushed.alerts, alert), ..pushed }
    };
    call_comes_after(settled, earlier, calls, index);
}

/// What a turn does next does not depend on effects that were already told: it
/// makes no difference whether they are taken out between two events.
#[verifier::rlimit(60)]
pub proof fn effects_may_be_taken_meanwhile(
    m: TurnModel,
    earlier: Seq<EffectModel>,
    e: TurnEvent,
)
    ensures
        turned(m.after(earlier), e) == turned(m, e).after(earlier),
{
    match (m.phase, e) {
        (TurnPhaseModel::Measuring, TurnEvent::Measured(c)) => {
            round_comes_after(m, earlier);
            assert(measured(m.after(earlier), c).effects == measured(m, c).after(earlier).effects);
        },
        (TurnPhaseModel::Calling(_), TurnEvent::Replied { blocks, calls }) => {
            reply_comes_after(m, earlier, model::seq_view(blocks@), model::seq_view(calls@));
        },
        (TurnPhaseModel::Guarding(calls, index), TurnEvent::Guarded(g)) => {
            guard_comes_after(m, earlier, calls, index, g);
        },
        (
            TurnPhaseModel::Filtering(calls, index, _, success),
            TurnEvent::Shown { text: words, alert, cancelled },
        ) => {
            shown_comes_after(
                m,
                earlier,
                calls,
                index,
                success,
                words@,
                model::opt_view(alert),
                cancelled,
            );
        },
        _ => {
            assert(turned(m.after(earlier), e).effects == turned(m, e).after(earlier).effects);
        },
    }
}

/// Once the user asked to stop, no tool runs any more: a reply that is not
/// empty ends the turn.
pub proof fn stopped_turn_runs_no_tool(
    m: TurnModel,
    blocks: Seq<BlockModel>,
    calls: Seq<CallModel>,
)
    requires
        m.user_stop,
        blocks.len() > 0,
    ensures
        replied(m, blocks, calls).phase is Done,
        replied(m, blocks, calls).tool_calls == m.tool_calls,
{
}

/// The call for delivery grows with the tool calls and never weakens.
pub proof fn delivery_level_grows(a: int, b: int)
    requires
        a <= b,
    ensures
        delivery_level(a) <= delivery_level(b),
{
}

/// The call for delivery is made once for each level.
pub proof fn delivery_is_urged_once(m: TurnModel)
    ensures
        urged(urged(m)) == urged(m),
{
}

/// A level of context warning is given once, and the level never falls.
pub proof fn context_warning_is_given_once(m: TurnModel, c: ContextReading)
    requires
        c.level <= 4,
    ensures
        measured(m, c).warned >= m.warned,
        c.level <= m.warned && m.warned < 4 ==> measured(m, c).effects == m.effects,
        c.level > m.warned ==> measured(m, c).effects == m.effects.push(
            measured(m, c).effects.last(),
        ) && measured(m, c).warned == c.level,
{
}

/// A workflow is run only where the text names one: exactly, or as part of a
/// single id; a part of several ids is refused, and the turn ends.
pub proof fn ambiguous_workflow_is_not_run(
    m: TurnModel,
    calls: Seq<CallModel>,
    index: int,
    raw: Seq<char>,
    ids: Seq<Seq<char>>,
)
    requires
        calls[index].tool == "workflow_run"@,
        !among(ids, raw),
        ids_with(ids, raw).len() > 1,
    ensures
        listed(m, calls, index, raw, ids).phase is Done,
        !listed(m, calls, index, raw, ids).phase->Done_0,
{
}

/// Whether the effects of a turn are those that it had, and then some.
pub open spec fn tells_more(before: TurnModel, after: TurnModel) -> bool {
    before.effects.is_prefix_of(after.effects)
}

/// How many effects of a turn hand a tool's result to the model.
pub open spec fn results_in(effects: Seq<EffectModel>) -> nat
    decreases effects.len(),
{
    if effects.len() == 0 {
        0
    } else {
        results_in(effects.drop_last()) + if effects.last() is PushToolResult {
            1nat
        } else {
            0nat
        }
    }
}

/// Effects that hand no result to the model add none.
proof fn no_result_among(before: Seq<EffectModel>, after: Seq<EffectModel>)
    requires
        before.is_prefix_of(after),
        forall|i: int| before.len() <= i < after.len() ==> !(#[trigger] after[i] is PushToolResult),
    ensures
        results_in(after) == results_in(before),
    decreases after.len() - before.len(),
{
    if after.len() == before.len() {
        assert(after =~= before);
    } else {
        let fewer = after.drop_last();
        assert(before.is_prefix_of(fewer)) by {
            assert(fewer.subrange(0, before.len() as int) =~= after.subrange(
                0,
                before.len() as int,
            ));
        }
        assert forall|i: int| before.len() <= i < fewer.len() implies !(
        #[trigger] fewer[i] is PushToolResult) by {
            assert(fewer[i] == after[i]);
        }
        no_result_among(before, fewer);
        assert(!(after[after.len() - 1] is PushToolResult));
    }
}

/// What follows a tool call hands no result to the model, and takes no effect
/// back.
proof fn what_follows_hands_over_no_result(m: TurnModel, calls: Seq<CallModel>, index: int)
    ensures
        tells_more(m, next_call(m, calls, index)),
        tells_more(m, next_round(flushed(m))),
        forall|i: int|
            m.effects.len() <= i < next_call(m, calls, index).effects.len() ==> !(
            #[trigger] next_call(m, calls, index).effects[i] is PushToolResult),
        forall|i: int|
            m.effects.len() <= i < next_round(flushed(m)).effects.len() ==> !(
            #[trigger] next_round(flushed(m)).effects[i] is PushToolResult),
{
    let f = flushed(m);
    assert(m.effects.is_prefix_of(f.effects));
    assert(f.effects.is_prefix_of(next_round(f).effects));
    assert(m.effects.is_prefix_of(next_round(f).effects)) by {
        assert(m.effects =~= next_round(f).effects.subrange(0, m.effects.len() as int));
    }
}

/// Where a turn goes on after a tool call: to the next call of the reply, or,
/// after the last, to the next round; where the rounds are used up, the turn
/// ends without success.
pub open spec fn goes_on_behind(
    m: TurnModel,
    calls: Seq<CallModel>,
    index: int,
    after: TurnModel,
) -> bool {
    if index + 1 < calls.len() {
        after.phase == TurnPhaseModel::Guarding(calls, index + 1) && after.iteration == m.iteration
            && after.tool_calls == m.tool_calls + 1
    } else {
        goes_on_to_next_round(m, after)
    }
}

/// Whether a turn goes on with the next round, or ends without success where the
/// rounds are used up.
pub open spec fn goes_on_to_next_round(m: TurnModel, after: TurnModel) -> bool {
    &&& after.tool_calls == m.tool_calls
    &&& m.iteration + 1 < m.max_iterations ==> after.phase is Boundary && after.iteration
        == m.iteration + 1
    &&& m.iteration + 1 >= m.max_iterations ==> after.phase is Done && !after.phase->Done_0
}

/// What a tool returned is handed to the model once: under the id of its call,
/// with the text that was let through, and as a failure exactly where the tool
/// failed. Then the turn goes on with the next call or the next round; where the
/// user broke off, with the next round.
pub proof fn tool_result_reaches_the_model(
    m: TurnModel,
    calls: Seq<CallModel>,
    index: int,
    output: Seq<char>,
    success: bool,
    words: String,
    alert: Option<String>,
    cancelled: bool,
)
    requires
        m.phase == TurnPhaseModel::Filtering(calls, index, output, success),
        0 <= index < calls.len(),
    ensures
        ({
            let after = turned(m, TurnEvent::Shown { text: words, alert, cancelled });
            let n = m.effects.len() as int;
            &&& tells_more(m, after)
            &&& after.effects.len() > n
            &&& after.effects[n] matches EffectModel::PushToolResult(id, said, failed)
            &&& id == calls[index].id
            &&& said == words@
            &&& failed != success
            &&& results_in(after.effects) == results_in(m.effects) + 1
            &&& !cancelled ==> goes_on_behind(m, calls, index, after)
            &&& cancelled ==> goes_on_to_next_round(m, after)
            &&& after.steps == m.steps
            &&& after.tools_used == m.tools_used
            &&& success ==> after.safety_failures == 0
            &&& !success ==> after.safety_failures == m.safety_failures
        }),
{
    let n = m.effects.len() as int;
    let after = turned(m, TurnEvent::Shown { text: words, alert, cancelled });
    let result = EffectModel::PushToolResult(calls[index].id, words@, !success);
    let pushed = m.with(result);
    let settled = if success {
        TurnModel { safety_failures: 0, ..pushed }.with(EffectModel::ResetErrors)
    } else {
        TurnModel { alerts: grown(pushed.alerts, model::opt_view(alert)), ..pushed }
    };
    what_follows_hands_over_no_result(settled, calls, index);
    assert(tells_more(settled, after));
    assert(pushed.effects.is_prefix_of(after.effects)) by {
        assert(pushed.effects =~= after.effects.subrange(0, pushed.effects.len() as int));
    }
    assert forall|i: int| pushed.effects.len() <= i < after.effects.len() implies !(
    #[trigger] after.effects[i] is PushToolResult) by {
        if i < settled.effects.len() {
            assert(after.effects[i] == settled.effects[i]);
        }
    }
    no_result_among(pushed.effects, after.effects);
    assert(pushed.effects.drop_last() =~= m.effects);
    assert(m.effects =~= after.effects.subrange(0, n));
    assert(after.effects[n] == pushed.effects[n]);
}

/// Whether a tool's end was taken in: its text waits to be let through, with
/// whether it succeeded; the step is written down with the call that it was, and
/// the tool is among those that were used.
pub open spec fn takes_result_in(
    m: TurnModel,
    calls: Seq<CallModel>,
    index: int,
    output: Seq<char>,
    success: bool,
    after: TurnModel,
) -> bool {
    let call = calls[index];
    &&& after.phase == TurnPhaseModel::Filtering(calls, index, output, success)
    &&& after.steps.len() == m.steps.len() + 1
    &&& after.steps.drop_last() == m.steps
    &&& after.steps.last().tool == call.tool
    &&& after.steps.last().params == call.params
    &&& after.steps.last().success == success
    &&& after.tools_used.contains(call.tool)
    &&& m.tools_used.is_prefix_of(after.tools_used)
    &&& m.tools_used.no_duplicates() ==> after.tools_used.no_duplicates()
    &&& tells_more(m, after)
    &&& results_in(after.effects) == results_in(m.effects)
    &&& after.effects.last() matches EffectModel::ShowToolEnd(end)
    &&& end.call_id == call.id
    &&& end.tool == call.tool
    &&& end.success == success
    &&& end.preview.is_prefix_of(output)
    &&& end.preview.len() <= 2000
    &&& end.truncated == (output.len() > 2000)
    &&& !end.truncated ==> end.preview == output
    &&& after.tool_calls == m.tool_calls
    &&& after.iteration == m.iteration
}

/// Recording takes a result in.
proof fn recording_takes_result_in(
    m: TurnModel,
    earlier: TurnModel,
    calls: Seq<CallModel>,
    index: int,
    r: ResultModel,
    duration_ms: u64,
)
    requires
        tells_more(earlier, m),
        results_in(m.effects) == results_in(earlier.effects),
        m.steps == earlier.steps,
        m.tools_used == earlier.tools_used,
        m.tool_calls == earlier.tool_calls,
        m.iteration == earlier.iteration,
    ensures
        takes_result_in(
            earlier,
            calls,
            index,
            r.shown(),
            r.success,
            recorded(m, calls, index, r, duration_ms),
        ),
{
    let after = recorded(m, calls, index, r, duration_ms);
    let call = calls[index];
    assert(after.steps.drop_last() =~= m.steps);
    assert(after.effects.drop_last() =~= m.effects);
    assert(earlier.effects =~= after.effects.subrange(0, earlier.effects.len() as int));
    if among(m.tools_used, call.tool) {
        let i = choose|i: int| 0 <= i < m.tools_used.len() && #[trigger] m.tools_used[i] == call.tool;
        assert(after.tools_used[i] == call.tool);
    } else {
        assert(after.tools_used.last() == call.tool);
        assert forall|i: int, j: int|
            m.tools_used.no_duplicates() && 0 <= i < after.tools_used.len() && 0 <= j
                < after.tools_used.len() && i != j implies after.tools_used[i]
            != after.tools_used[j] by {
            if i < m.tools_used.len() {
                assert(m.tools_used[i] == after.tools_used[i]);
            }
            if j < m.tools_used.len() {
                assert(m.tools_used[j] == after.tools_used[j]);
            }
        }
    }
    text::cutting_keeps_the_start(r.shown(), 2000);
}

/// A tool that ended is taken in as it ended, with its output, or with its error
/// where it has no output. Only one that asks the user is waited for; workflows
/// are run by their engine.
pub proof fn tool_end_is_taken_in(
    m: TurnModel,
    calls: Seq<CallModel>,
    index: int,
    result: ToolResult,
    action: Option<String>,
    duration_ms: u64,
)
    requires
        m.phase == TurnPhaseModel::Executing(calls, index),
        0 <= index < calls.len(),
        calls[index].tool != "workflow_run"@,
        calls[index].tool != "workflow_validate"@,
    ensures
        ({
            let after = turned(m, TurnEvent::Ran { result, action, duration_ms });
            let asks = calls[index].tool == "request_user_input"@ && result.success
                && result.output is Some && action is Some;
            &&& asks ==> after.phase == TurnPhaseModel::Asking(calls, index, action->Some_0@)
                && after.effects == m.effects && after.steps == m.steps
            &&& !asks ==> exists|output: Seq<char>|
                #[trigger] takes_result_in(m, calls, index, output, result.success, after) && {
                    &&& result@.output matches Some(o) ==> output == o
                    &&& result@.output is None && result@.error is Some ==> output
                        == result@.error->Some_0
                    &&& result@.output is None && result@.error is None ==> output.len() == 0
                }
        }),
{
    recording_takes_result_in(m, m, calls, index, result@, duration_ms);
    let after = turned(m, TurnEvent::Ran { result, action, duration_ms });
    let asks = calls[index].tool == "request_user_input"@ && result.success && result.output is Some
        && action is Some;
    if !asks {
        assert(takes_result_in(m, calls, index, result@.shown(), result.success, after));
    }
}

/// A workflow that ended is taken in as a success exactly where it succeeded,
/// with what it reported; that the user broke it off is said to the model, and
/// it is told not to run it again.
pub proof fn workflow_end_is_taken_in(
    m: TurnModel,
    calls: Seq<CallModel>,
    index: int,
    id: Seq<char>,
    outcome: Result<String, String>,
    user_cancelled: bool,
    duration_ms: u64,
)
    requires
        m.phase == TurnPhaseModel::Running(calls, index, id),
        0 <= index < calls.len(),
    ensures
        ({
            let after = turned(m, TurnEvent::RunEnded { outcome, user_cancelled, duration_ms });
            &&& exists|output: Seq<char>|
                #[trigger] takes_result_in(m, calls, index, output, outcome is Ok, after) && {
                    &&& !user_cancelled && outcome is Ok ==> output == outcome->Ok_0@
                    &&& !user_cancelled && outcome is Err ==> output == outcome->Err_0@
                    &&& user_cancelled && outcome is Ok ==> text::begins(output, outcome->Ok_0@)
                        && output.len() > outcome->Ok_0@.len()
                }
            &&& user_cancelled ==> after.pending.len() == m.pending.len() + 1
            &&& !user_cancelled ==> after.pending == m.pending
        }),
{
    let r = workflow_result(model::result_view(outcome), user_cancelled);
    let warned = if user_cancelled {
        TurnModel {
            pending: m.pending.push(
                "用户已终止工作流的执行。请直接向用户报告结果并结束当前任务，不要重新调用 workflow_run。"@,
            ),
            ..m
        }.with(EffectModel::ShowHud("工作流已由用户终止"@))
    } else {
        m
    };
    assert(warned.effects.drop_last() =~= m.effects || !user_cancelled);
    recording_takes_result_in(warned, m, calls, index, r, duration_ms);
    let after = turned(m, TurnEvent::RunEnded { outcome, user_cancelled, duration_ms });
    assert(takes_result_in(m, calls, index, r.shown(), outcome is Ok, after));
    if user_cancelled && outcome is Ok {
        reveal_strlit("\n\n[用户已终止此工作流的执行]");
        let own = outcome->Ok_0@;
        assert(r.shown().take(own.len() as int) =~= own);
    }
}

/// An answer of the user is taken in as a success, a missing one as a failure.
pub proof fn answer_is_taken_in(
    m: TurnModel,
    calls: Seq<CallModel>,
    index: int,
    action: Seq<char>,
    value: Option<String>,
    duration_ms: u64,
)
    requires
        m.phase == TurnPhaseModel::Asking(calls, index, action),
        0 <= index < calls.len(),
    ensures
        ({
            let after = turned(m, TurnEvent::Answered { value, duration_ms });
            exists|output: Seq<char>|
                #[trigger] takes_result_in(m, calls, index, output, value is Some, after) && (
                value matches Some(v) ==> output == json::value_text(v@, json::compact(v@)))
        }),
{
    let r = answer_result(model::opt_view(value));
    recording_takes_result_in(m, m, calls, index, r, duration_ms);
    let after = turned(m, TurnEvent::Answered { value, duration_ms });
    assert(takes_result_in(m, calls, index, r.shown(), value is Some, after));
}

/// The check of a workflow is taken in as a success exactly where there is a
/// report; without an engine a workflow can neither be checked nor run.
pub proof fn check_is_taken_in(
    m: TurnModel,
    calls: Seq<CallModel>,
    index: int,
    report: Option<ValidationReport>,
    load_error: Option<String>,
    duration_ms: u64,
)
    requires
        m.phase == TurnPhaseModel::Executing(calls, index),
        0 <= index < calls.len(),
    ensures
        calls[index].tool == "workflow_validate"@ ==> exists|output: Seq<char>|
            #[trigger] takes_result_in(
                m,
                calls,
                index,
                output,
                report is Some,
                turned(m, TurnEvent::Validated { report, load_error, duration_ms }),
            ) && (report is None && load_error is Some ==> output == load_error->Some_0@),
        calls[index].tool == "workflow_validate"@ || calls[index].tool == "workflow_run"@
            ==> exists|output: Seq<char>|
            #[trigger] takes_result_in(
                m,
                calls,
                index,
                output,
                false,
                turned(m, TurnEvent::NoEngine { duration_ms }),
            ),
{
    if calls[index].tool == "workflow_validate"@ {
        let r = validation_result(
            wanted_workflow(calls[index].params),
            model::opt_view(report),
            model::opt_view(load_error),
        );
        recording_takes_result_in(m, m, calls, index, r, duration_ms);
        assert(takes_result_in(
            m,
            calls,
            index,
            r.shown(),
            report is Some,
            turned(m, TurnEvent::Validated { report, load_error, duration_ms }),
        ));
    }
    if of_engine(calls[index].tool) {
        let r = ResultModel::failed(engine_error(calls[index].tool));
        recording_takes_result_in(m, m, calls, index, r, duration_ms);
        assert(takes_result_in(
            m,
            calls,
            index,
            r.shown(),
            false,
            turned(m, TurnEvent::NoEngine { duration_ms }),
        ));
    }
}

/// From the end of a tool to the model: what is handed over is one result, under
/// the call's id, with the text that was let through, and as a failure exactly
/// where the tool did not succeed.
pub proof fn model_learns_how_a_tool_ended(
    m: TurnModel,
    calls: Seq<CallModel>,
    index: int,
    result: ToolResult,
    duration_ms: u64,
    words: String,
    alert: Option<String>,
    cancelled: bool,
)
    requires
        m.phase == TurnPhaseModel::Executing(calls, index),
        0 <= index < calls.len(),
        calls[index].tool != "workflow_run"@,
        calls[index].tool != "workflow_validate"@,
    ensures
        ({
            let ended = turned(m, TurnEvent::Ran { result, action: None, duration_ms });
            let after = turned(ended, TurnEvent::Shown { text: words, alert, cancelled });
            &&& results_in(after.effects) == results_in(m.effects) + 1
            &&& exists|i: int|
                m.effects.len() <= i < after.effects.len() && #[trigger] after.effects[i]
                    == EffectModel::PushToolResult(calls[index].id, words@, !result.success)
        }),
{
    tool_end_is_taken_in(m, calls, index, result, None, duration_ms);
    let ended = turned(m, TurnEvent::Ran { result, action: None, duration_ms });
    let output = choose|output: Seq<char>|
        #[trigger] takes_result_in(m, calls, index, output, result.success, ended);
    tool_result_reaches_the_model(
        ended,
        calls,
        index,
        output,
        result.success,
        words,
        alert,
        cancelled,
    );
    let after = turned(ended, TurnEvent::Shown { text: words, alert, cancelled });
    assert(after.effects[ended.effects.len() as int] == EffectModel::PushToolResult(
        calls[index].id,
        words@,
        !result.success,
    ));
}

/// A call that the checks let through is run; one that they refuse is not: the
/// model is handed the refusal as a failure of that call, and the turn goes on
/// with the next one. Where the refusals are too many, the turn ends without
/// success.
pub proof fn refused_call_is_not_run(
    m: TurnModel,
    calls: Seq<CallModel>,
    index: int,
    g: GuardReport,
)
    requires
        m.phase == TurnPhaseModel::Guarding(calls, index),
        0 <= index < calls.len(),
    ensures
        ({
            let after = turned(m, TurnEvent::Guarded(g));
            &&& g.refusal is None ==> {
                &&& after.phase == TurnPhaseModel::Executing(calls, index)
                &&& after.effects == m.effects
            }
            &&& g.refusal is Some && g.breaker is Halt ==> {
                &&& after.phase is Done && !after.phase->Done_0
                &&& results_in(after.effects) == results_in(m.effects)
            }
            &&& g.refusal is Some && !(g.breaker is Halt) ==> {
                &&& goes_on_behind(m, calls, index, after)
                &&& results_in(after.effects) == results_in(m.effects) + 1
                &&& exists|i: int|
                    m.effects.len() <= i < after.effects.len() && (#[trigger] after.effects[i]
                        matches EffectModel::PushToolResult(id, said, failed) && id
                        == calls[index].id && failed && (g.refusal->Some_0 matches Some(e) ==> said
                        == e@))
            }
            &&& after.steps == m.steps
            &&& after.safety_failures == g.safety_failures
        }),
{
    let after = turned(m, TurnEvent::Guarded(g));
    if let Some(error) = g.refusal {
        let heard = TurnModel {
            alerts: grown(m.alerts, model::opt_view(g.alert)),
            pending: m.pending + model::seq_view(g.warnings@),
            safety_failures: g.safety_failures,
            ..m
        };
        let end = EffectModel::ShowToolEnd(
            ToolEndModel {
                call_id: calls[index].id,
                tool: calls[index].tool,
                success: false,
                duration_ms: 0,
                preview: Seq::empty(),
                full_size: 0,
                truncated: false,
                error: model::opt_view(error),
            },
        );
        let shown = heard.with(end);
        if g.breaker is Halt {
            assert(m.effects =~= after.effects.subrange(0, m.effects.len() as int));
            no_result_among(m.effects, after.effects);
        } else {
            let advised = match g.breaker {
                Breaker::Advise(Some(words)) => shown.with(EffectModel::PushUser(words@)),
                _ => shown,
            };
            let said = match error {
                Some(s) => s@,
                None => Seq::empty(),
            };
            let result = EffectModel::PushToolResult(calls[index].id, said, true);
            let settled = TurnModel {
                alerts: grown(advised.alerts, model::opt_view(g.after_alert)),
                ..advised
            };
            let refused = settled.with(result);
            assert(m.effects =~= advised.effects.subrange(0, m.effects.len() as int));
            no_result_among(m.effects, advised.effects);
            assert(refused.effects.drop_last() =~= advised.effects);
            what_follows_hands_over_no_result(refused, calls, index);
            no_result_among(refused.effects, after.effects);
            let at = advised.effects.len() as int;
            assert(after.effects[at] == refused.effects[at]);
        }
    }
}

/// What the model says is put into the session. Without a tool call it is the
/// answer, and the turn succeeds with it; the calls of a reply are begun with
/// the first, unless the user asked to stop. A reply without anything in it ends
/// no turn but with its last round.
pub proof fn reply_is_followed(m: TurnModel, attempt: u32, blocks: Vec<Block>, calls: Vec<ToolCall>)
    requires
        m.phase == TurnPhaseModel::Calling(attempt),
    ensures
        ({
            let bs = model::seq_view(blocks@);
            let cs = model::seq_view(calls@);
            let after = turned(m, TurnEvent::Replied { blocks, calls });
            let n = m.effects.len() as int;
            &&& after.effects.len() > n
            &&& after.effects[n] == EffectModel::ShowProgress(
                m.iteration + 1,
                m.max_iterations,
                m.tool_calls,
            )
            &&& bs.len() == 0 ==> goes_on_to_next_round(m, after)
            &&& bs.len() > 0 && cs.len() > 0 && !m.user_stop ==> {
                &&& after.phase == TurnPhaseModel::Guarding(cs, 0)
                &&& after.effects[n + 1] == EffectModel::PushAssistant(bs)
                &&& after.effects.last() == EffectModel::ShowToolStart(
                    cs[0].id,
                    cs[0].tool,
                    cs[0].params,
                    m.iteration,
                )
                &&& after.tool_calls == m.tool_calls + 1
            }
            &&& bs.len() > 0 && (cs.len() == 0 || m.user_stop) ==> {
                &&& after.phase matches TurnPhaseModel::Done(success, message)
                &&& success
                &&& after.effects[n + 1] == EffectModel::PushAssistant(kept_blocks(bs, cs))
                &&& after.effects[n + 2] == EffectModel::ShowCompleted(message, m.tool_calls)
                &&& text::trimmed(said(bs)).len() > 0 ==> message == text::trimmed(said(bs))
                &&& after.tool_calls == m.tool_calls
            }
        }),
{
}

/// What is said in a reply is the text in it, in its order: what is said in two
/// replies is what is said in the one and then in the other.
pub proof fn all_text_is_said(a: Seq<BlockModel>, b: Seq<BlockModel>, t: Seq<char>)
    ensures
        said(a + b) == said(a) + said(b),
        said(seq![BlockModel::Text(t)]) == t,
        said(seq![BlockModel::Image(t)]).len() == 0,
        forall|id: Seq<char>, name: Seq<char>, params: Seq<char>|
            (#[trigger] said(seq![BlockModel::ToolUse(id, name, params)])).len() == 0,
    decreases b.len(),
{
    assert(seq![BlockModel::Text(t)].drop_last() =~= Seq::<BlockModel>::empty());
    assert(seq![BlockModel::Image(t)].drop_last() =~= Seq::<BlockModel>::empty());
    assert(said(Seq::<BlockModel>::empty()) + t =~= t);
    assert forall|id: Seq<char>, name: Seq<char>, params: Seq<char>|
        (#[trigger] said(seq![BlockModel::ToolUse(id, name, params)])).len() == 0 by {
        assert(seq![BlockModel::ToolUse(id, name, params)].drop_last() =~= Seq::<
            BlockModel,
        >::empty());
    }
    if b.len() == 0 {
        assert(a + b =~= a);
        assert(said(a) + said(b) =~= said(a));
    } else {
        all_text_is_said(a, b.drop_last(), t);
        assert((a + b).drop_last() =~= a + b.drop_last());
        assert((a + b).last() == b.last());
        if let BlockModel::Text(w) = b.last() {
            assert((said(a) + said(b.drop_last())) + w =~= said(a) + (said(b.drop_last()) + w));
        }
    }
}

/// Of a reply that ends a turn, everything is kept but tool calls that nobody
/// will answer.
pub proof fn unanswered_calls_are_not_kept(
    a: Seq<BlockModel>,
    b: Seq<BlockModel>,
    calls: Seq<CallModel>,
    x: BlockModel,
)
    ensures
        kept_blocks(a + b, calls) == kept_blocks(a, calls) + kept_blocks(b, calls),
        !(x is ToolUse) ==> kept_blocks(seq![x], calls) == seq![x],
        (x matches BlockModel::ToolUse(id, _, _) && forall|i: int|
            0 <= i < calls.len() ==> (#[trigger] calls[i]).id != id) ==> kept_blocks(
            seq![x],
            calls,
        ).len() == 0,
        (x matches BlockModel::ToolUse(id, _, _) && exists|i: int|
            0 <= i < calls.len() && (#[trigger] calls[i]).id == id) ==> kept_blocks(seq![x], calls)
            == seq![x],
    decreases b.len(),
{
    assert(seq![x].drop_last() =~= Seq::<BlockModel>::empty());
    assert(kept_blocks(seq![x].drop_last(), calls) =~= Seq::<BlockModel>::empty());
    assert(Seq::<BlockModel>::empty().push(x) =~= seq![x]);
    if b.len() == 0 {
        assert(a + b =~= a);
        assert(kept_blocks(a, calls) + kept_blocks(b, calls) =~= kept_blocks(a, calls));
    } else {
        unanswered_calls_are_not_kept(a, b.drop_last(), calls, x);
        assert((a + b).drop_last() =~= a + b.drop_last());
        assert((a + b).last() == b.last());
        let one = kept_blocks(a, calls);
        let two = kept_blocks(b.drop_last(), calls);
        assert((one + two).push(b.last()) =~= one + two.push(b.last()));
    }
}

/// A call of the model that the network broke is tried again, a bounded number
/// of times and after a pause; another failure, or the last, breaks the turn off
/// with its message.
pub proof fn broken_call_is_tried_again(
    m: TurnModel,
    attempt: u32,
    network: bool,
    message: String,
)
    requires
        m.phase == TurnPhaseModel::Calling(attempt),
    ensures
        ({
            let after = turned(m, TurnEvent::CallFailed { network, message });
            &&& network && attempt < 2 ==> {
                &&& after.phase == TurnPhaseModel::Preparing((attempt + 1) as u32)
                &&& after.effects.last() matches EffectModel::Sleep(secs)
                &&& secs == if attempt == 0 {
                    1u64
                } else {
                    2u64
                }
            }
            &&& !network || attempt >= 2 ==> after.phase == TurnPhaseModel::Broken(message@)
                && after.effects.last() == EffectModel::StoreMemory(m.input, message@, false)
        }),
{
}

/// A round begins with the user: one who broke off ends the turn without
/// success; what was appended is put before the model, and stands above what it
/// was reminded of.
pub proof fn user_is_heard_first(m: TurnModel, a: Append)
    ensures
        m.phase is Boundary ==> {
            &&& turned(m, TurnEvent::Cancelled(false)).phase is Draining
            &&& turned(m, TurnEvent::Cancelled(false)).effects == m.effects
            &&& turned(m, TurnEvent::Cancelled(true)).phase is Done
            &&& !turned(m, TurnEvent::Cancelled(true)).phase->Done_0
        },
        m.phase is Draining ==> {
            &&& turned(m, TurnEvent::Appended(None)).phase is Pausing
            &&& turned(m, TurnEvent::Appended(None)).effects == m.effects
            &&& turned(m, TurnEvent::Appended(Some(a))).phase is Pausing
        },
        m.phase is Draining || m.phase is Redraining ==> {
            let told = turned(m, TurnEvent::Appended(Some(a))).effects;
            let n = m.effects.len() as int;
            &&& told.len() >= n + 3
            &&& told[n] == EffectModel::PushInternal(a.section@)
            &&& told[n + 1] is ClearReminders
            &&& told[n + 2] == EffectModel::Remind(a.priority@, 2, Priority::Critical)
        },
        m.phase is Redraining ==> {
            &&& turned(m, TurnEvent::Appended(None)).phase is Measuring
            &&& turned(m, TurnEvent::Appended(Some(a))).phase is Measuring
        },
{
}

/// What the user says in a pause is put before the model; only one who ends it
/// so has the turn stop at its next reply.
pub proof fn pause_is_heard(m: TurnModel, words: String)
    requires
        m.phase is Pausing,
    ensures
        ({
            let n = m.effects.len() as int;
            let more = turned(m, TurnEvent::Paused(Some(PauseDecision::Append(words))));
            let stop = turned(m, TurnEvent::Paused(Some(PauseDecision::Terminate)));
            let on = turned(m, TurnEvent::Paused(None));
            &&& more.phase is Redraining && stop.phase is Redraining && on.phase is Redraining
            &&& more.effects[n] == EffectModel::PushUser(words@)
            &&& more.user_stop == m.user_stop
            &&& stop.user_stop
            &&& stop.effects[n] is PushUser
            &&& on.user_stop == m.user_stop
            &&& on.effects == m.effects.push(EffectModel::StripIncomplete)
        }),
{
}

/// A turn that calls many tools is urged to deliver: after twenty-four of them,
/// after forty-eight and after ninety-six, each once, and each time more
/// pressingly.
pub proof fn delivery_is_urged(m: TurnModel)
    requires
        m.phase is Redraining,
        0 <= m.urged <= 3,
    ensures
        ({
            let after = turned(m, TurnEvent::Appended(None));
            let due = if m.tool_calls >= 96 {
                3int
            } else if m.tool_calls >= 48 {
                2
            } else if m.tool_calls >= 24 {
                1
            } else {
                0
            };
            &&& due > m.urged ==> {
                &&& after.urged == due
                &&& after.effects.len() == m.effects.len() + 1
                &&& after.effects.last() matches EffectModel::Remind(_, rounds, priority)
                &&& rounds == due + 1
                &&& priority == if due == 3 {
                    Priority::Critical
                } else if due == 2 {
                    Priority::High
                } else {
                    Priority::Normal
                }
            }
            &&& due <= m.urged ==> after.urged == m.urged && after.effects == m.effects
        }),
{
}

/// Before the model is called it is told what it is reminded of and what is to
/// be noticed, in that order; nothing empty is said.
pub proof fn model_is_told_what_is_due(
    m: TurnModel,
    attempt: u32,
    reminder: Option<String>,
    notices: Vec<String>,
)
    requires
        m.phase == TurnPhaseModel::Preparing(attempt),
    ensures
        ({
            let after = turned(m, TurnEvent::Prepared { reminder, notices });
            let n = m.effects.len() as int;
            &&& after.phase == TurnPhaseModel::Calling(attempt)
            &&& reminder is Some && reminder->Some_0@.len() > 0 ==> after.effects[n]
                == EffectModel::PushUser(reminder->Some_0@) && after.effects.skip(n + 1)
                == notice_effects(model::seq_view(notices@))
            &&& reminder is None || reminder->Some_0@.len() == 0 ==> after.effects.skip(n)
                == notice_effects(model::seq_view(notices@))
        }),
{
    let after = turned(m, TurnEvent::Prepared { reminder, notices });
    let n = m.effects.len() as int;
    let all = notice_effects(model::seq_view(notices@));
    if reminder is Some && reminder->Some_0@.len() > 0 {
        assert(after.effects.skip(n + 1) =~= all);
    } else {
        assert(after.effects.skip(n) =~= all);
    }
}

/// Each notice is said once and in its order, unless it is empty.
pub proof fn notices_are_said(a: Seq<Seq<char>>, b: Seq<Seq<char>>, x: Seq<char>)
    ensures
        notice_effects(a + b) == notice_effects(a) + notice_effects(b),
        x.len() > 0 ==> notice_effects(seq![x]) == seq![EffectModel::PushInternal(x)],
        x.len() == 0 ==> notice_effects(seq![x]).len() == 0,
    decreases b.len(),
{
    assert(seq![x].drop_last() =~= Seq::<Seq<char>>::empty());
    assert(notice_effects(seq![x].drop_last()) =~= Seq::<EffectModel>::empty());
    assert(Seq::<EffectModel>::empty().push(EffectModel::PushInternal(x)) =~= seq![
        EffectModel::PushInternal(x),
    ]);
    if b.len() == 0 {
        assert(a + b =~= a);
        assert(notice_effects(a) + notice_effects(b) =~= notice_effects(a));
    } else {
        notices_are_said(a, b.drop_last(), x);
        assert((a + b).drop_last() =~= a + b.drop_last());
        assert((a + b).last() == b.last());
        let e = EffectModel::PushInternal(b.last());
        assert((notice_effects(a) + notice_effects(b.drop_last())).push(e) =~= notice_effects(a)
            + notice_effects(b.drop_last()).push(e));
    }
}

/// How full the context is decides whether the model is warned: once for each
/// level that is reached, and where the last was told and no room is left, the
/// turn ends without success.
pub proof fn full_context_ends_the_turn(m: TurnModel, c: ContextReading)
    requires
        m.phase is Measuring,
        c.level <= 4,
    ensures
        ({
            let after = turned(m, TurnEvent::Measured(c));
            &&& c.level > m.warned ==> {
                &&& after.phase == TurnPhaseModel::Preparing(0)
                &&& after.effects.last() matches EffectModel::Remind(_, rounds, priority)
                &&& rounds == 2
                &&& priority == if c.level == 1 {
                    Priority::Normal
                } else if c.level == 2 {
                    Priority::High
                } else {
                    Priority::Critical
                }
            }
            &&& c.level <= m.warned && m.warned < 4 ==> after.phase == TurnPhaseModel::Preparing(0)
            &&& c.level <= m.warned && m.warned >= 4 ==> after.phase is Done
                && !after.phase->Done_0
        }),
{
}

/// The workflow that a call names is the one that is run: that of the very name,
/// else the only one whose name holds it. Where several do, none is run; where
/// none does, the name is tried as it is.
pub proof fn named_workflow_is_run(raw: Seq<char>, ids: Seq<Seq<char>>, i: int, j: int)
    requires
        0 <= i < ids.len(),
        0 <= j < ids.len(),
    ensures
        ids[i] == raw ==> workflow_named(raw, ids) == Ok::<Seq<char>, Seq<char>>(raw),
        (forall|k: int| 0 <= k < ids.len() ==> #[trigger] ids[k] != raw) && text::has_part(
            ids[i],
            raw,
        ) && (forall|k: int| 0 <= k < ids.len() && k != i ==> !text::has_part(#[trigger] ids[k], raw))
            ==> workflow_named(raw, ids) == Ok::<Seq<char>, Seq<char>>(ids[i]),
        (forall|k: int| 0 <= k < ids.len() ==> #[trigger] ids[k] != raw) && i != j
            && text::has_part(ids[i], raw) && text::has_part(ids[j], raw) ==> workflow_named(
            raw,
            ids,
        ) is Err,
        (forall|k: int| 0 <= k < ids.len() ==> !text::has_part(#[trigger] ids[k], raw))
            ==> workflow_named(raw, ids) == Ok::<Seq<char>, Seq<char>>(raw),
{
    if (forall|k: int| 0 <= k < ids.len() && k != i ==> !text::has_part(#[trigger] ids[k], raw))
        && text::has_part(ids[i], raw) {
        one_hit(ids, raw, i);
    }
    if i != j && text::has_part(ids[i], raw) && text::has_part(ids[j], raw) {
        if i < j {
            two_hits(ids, raw, i, j);
        } else {
            two_hits(ids, raw, j, i);
        }
    }
    if forall|k: int| 0 <= k < ids.len() ==> !text::has_part(#[trigger] ids[k], raw) {
        no_hit(ids, raw);
    }
}

/// Where one alone holds the name, it is what is found.
proof fn one_hit(ids: Seq<Seq<char>>, part: Seq<char>, i: int)
    requires
        0 <= i < ids.len(),
        text::has_part(ids[i], part),
        forall|k: int| 0 <= k < ids.len() && k != i ==> !text::has_part(#[trigger] ids[k], part),
    ensures
        ids_with(ids, part) == seq![ids[i]],
    decreases ids.len(),
{
    let short = ids.drop_last();
    assert forall|k: int| 0 <= k < short.len() && k != i implies !text::has_part(
        #[trigger] short[k],
        part,
    ) by {
        assert(short[k] == ids[k]);
    }
    if i == ids.len() - 1 {
        no_hit(short, part);
        assert(ids_with(short, part).push(ids[i]) =~= seq![ids[i]]);
    } else {
        assert(short[i] == ids[i]);
        assert(!text::has_part(ids[ids.len() - 1], part));
        one_hit(short, part, i);
    }
}

/// Where none holds the name, nothing is found.
proof fn no_hit(ids: Seq<Seq<char>>, part: Seq<char>)
    requires
        forall|k: int| 0 <= k < ids.len() ==> !text::has_part(#[trigger] ids[k], part),
    ensures
        ids_with(ids, part).len() == 0,
    decreases ids.len(),
{
    if ids.len() > 0 {
        let short = ids.drop_last();
        assert forall|k: int| 0 <= k < short.len() implies !text::has_part(
            #[trigger] short[k],
            part,
        ) by {
            assert(short[k] == ids[k]);
        }
        assert(!text::has_part(ids[ids.len() - 1], part));
        no_hit(short, part);
    }
}

/// Where two hold the name, at least two are found.
proof fn two_hits(ids: Seq<Seq<char>>, part: Seq<char>, i: int, j: int)
    requires
        0 <= i < j < ids.len(),
        text::has_part(ids[i], part),
        text::has_part(ids[j], part),
    ensures
        ids_with(ids, part).len() >= 2,
    decreases ids.len(),
{
    let short = ids.drop_last();
    assert(short[i] == ids[i]);
    if j == ids.len() - 1 {
        some_hit(short, part, i);
    } else {
        assert(short[j] == ids[j]);
        two_hits(short, part, i, j);
    }
}

/// Where one holds the name, something is found.
proof fn some_hit(ids: Seq<Seq<char>>, part: Seq<char>, i: int)
    requires
        0 <= i < ids.len(),
        text::has_part(ids[i], part),
    ensures
        ids_with(ids, part).len() >= 1,
    decreases ids.len(),
{
    let short = ids.drop_last();
    if i < ids.len() - 1 {
        assert(short[i] == ids[i]);
        some_hit(short, part, i);
    }
}

/// A call that runs a workflow goes to the workflow that its parameters name.
pub proof fn call_runs_its_workflow(
    m: TurnModel,
    calls: Seq<CallModel>,
    index: int,
    ids: Vec<String>,
)
    requires
        m.phase == TurnPhaseModel::Executing(calls, index),
        0 <= index < calls.len(),
        calls[index].tool == "workflow_run"@,
    ensures
        ({
            let after = turned(m, TurnEvent::Listed { ids });
            match json::text_member(calls[index].params, "id"@) {
                Some(raw) => match workflow_named(raw, model::seq_view(ids@)) {
                    Ok(id) => after.phase == TurnPhaseModel::Running(calls, index, id)
                        && after.effects == m.effects,
                    Err(words) => after.phase == TurnPhaseModel::Done(false, words),
                },
                None => true,
            }
        }),
{
}

/// Tools are run on the parameters that the model gave; only the journal's tool
/// learns which session it writes for.
pub proof fn parameters_are_the_models(tool: Seq<char>, params: Seq<char>, session: Seq<char>)
    ensures
        tool != "workflow_memory_update"@ ==> run_params(tool, params, session) == params,
        tool == "workflow_memory_update"@ ==> {
            match json::with_member(params, "session_id"@, session) {
                Some(p) => run_params(tool, params, session) == p,
                None => run_params(tool, params, session) == params,
            }
        },
{
}

/// A turn begins with what the user said: it is put into the session and shown,
/// with its images, unless it is the program's own; before it stands what was
/// remembered, where anything was.
pub proof fn turn_begins_with_the_message(
    config: WorkflowAgentConfig,
    safety_failures: u32,
    o: OpeningModel,
)
    requires
        config.max_iterations > 0,
    ensures
        ({
            let m = fresh_turn(config, safety_failures, o);
            let n = m.effects.len() as int;
            let pictured = o.images is Some && o.images->Some_0.len() > 0;
            &&& m.phase is Boundary
            &&& m.input == o.input && m.session_id == o.session_id
            &&& m.iteration == 0 && m.tool_calls == 0 && m.steps.len() == 0
            &&& m.tools_used.len() == 0 && !m.user_stop
            &&& m.max_iterations == config.max_iterations
            &&& m.effects[0] is SetRunning && m.effects[1] is ClearAppends
            &&& m.effects[n - 1] matches EffectModel::ShowStarted(goal, tools, source, mode)
            &&& goal == text::clipped(o.input, 120)
            &&& tools == o.tools
            &&& source == o.source
            &&& mode == "workflow"@
            &&& !o.internal ==> {
                &&& m.effects[n - 2] matches EffectModel::ShowUser(words, from, urls)
                &&& words == o.input
                &&& from == o.source
                &&& !pictured ==> m.effects[n - 3] == EffectModel::PushUser(o.input)
                    && urls.len() == 0
                &&& pictured ==> {
                    &&& urls.len() == o.images->Some_0.len()
                    &&& forall|i: int|
                        0 <= i < urls.len() ==> #[trigger] urls[i] == o.images->Some_0[i].url
                    &&& m.effects[n - 3] matches EffectModel::PushUserBlocks(blocks)
                    &&& o.input.len() > 0 ==> blocks.len() == urls.len() + 1 && blocks[0]
                        == BlockModel::Text(o.input)
                    &&& o.input.len() == 0 ==> blocks.len() == urls.len()
                }
                &&& m.effects[n - 4] is AdvanceTurn
            }
            &&& o.internal ==> m.effects[n - 2] is AdvanceTurn
        }),
{
}

/// An image goes to the model as it is; only a bitmap that could be converted
/// goes converted.
pub proof fn images_go_as_they_are(p: PictureModel)
    ensures
        !text::begins(p.url, "data:image/bmp"@) ==> p.shown() == p.url,
        p.png is None ==> p.shown() == p.url,
        text::begins(p.url, "data:image/bmp"@) && p.png is Some ==> p.shown() == p.png->Some_0,
{
}

/// What a tool shows is its output, and its error where it has none.
pub proof fn tool_shows_its_output(r: ResultModel)
    ensures
        r.output matches Some(s) ==> r.shown() == s,
        r.output is None && r.error is Some ==> r.shown() == r.error->Some_0,
        r.output is None && r.error is None ==> r.shown().len() == 0,
{
}

} // verus!
