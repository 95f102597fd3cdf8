//! Calls of tools that servers outside offer: what is sent to a server, what
//! its answer means, and when a call is tried again.
use vstd::hash_map::StringHashMap;
use vstd::prelude::*;
use vstd::string::*;

use crate::json;
use crate::json::put_string;
use crate::model;
use crate::text;
use crate::text::{is_blank, join, owned, signed_decimal, take_chars};
use crate::uia_tree;
use crate::uia_tree::quote;

verus! {

/// How much of an answer that is no JSON is shown.
pub const RAW_LIMIT: usize = 300;

/// What a server is told first.
pub const INITIALIZE: &'static str = "{\"id\":0,\"jsonrpc\":\"2.0\",\"method\":\"initialize\",\"params\":{\"capabilities\":{},\"clientInfo\":{\"name\":\"nuphus\",\"version\":\"0.1.0\"},\"protocolVersion\":\"2024-11-05\"}}";

/// What a server is told once it has answered; no answer is expected.
pub const INITIALIZED: &'static str = "{\"jsonrpc\":\"2.0\",\"method\":\"notifications/initialized\"}";

/// A request; its parameters are JSON.
pub open spec fn request_text(id: int, method: Seq<char>, params: Seq<char>) -> Seq<char> {
    "{\"id\":"@ + text::signed_text(id) + ",\"jsonrpc\":\"2.0\",\"method\":"@ + json::string_text(
        method,
    ) + ",\"params\":"@ + params + "}"@
}

/// The parameters of a call of a tool; its arguments are JSON.
pub open spec fn tool_params(tool: Seq<char>, arguments: Seq<char>) -> Seq<char> {
    "{\"arguments\":"@ + arguments + ",\"name\":"@ + json::string_text(tool) + "}"@
}

/// The parameters of a call of a tool.
pub fn tool_call_params(tool_name: &str, arguments: &str) -> (r: String)
    ensures
        r@ == tool_params(tool_name@, arguments@),
{
    let mut out = owned("{\"arguments\":");
    out.append(arguments);
    out.append(",\"name\":");
    put_string(&mut out, tool_name);
    out.append("}");
    out
}

/// A server that is spoken to: its name, and the number of the next request.
#[derive(Debug, Clone, PartialEq, Eq)]
pub struct McpClient {
    pub server_name: String,
    pub next_id: i64,
}

/// What came of a step of starting a server.
pub enum Started {
    /// The program could not be run.
    NotSpawned(String),
    /// Nothing can be written to it.
    NoStdin,
    /// Nothing can be read from it.
    NoStdout,
    /// It runs.
    Running,
}

/// The content of a [`Started`].
#[verifier::ext_equal]
pub enum StartedModel {
    NotSpawned(Seq<char>),
    NoStdin,
    NoStdout,
    Running,
}

impl View for Started {
    type V = StartedModel;

    open spec fn view(&self) -> StartedModel {
        match self {
            Started::NotSpawned(e) => StartedModel::NotSpawned(e@),
            Started::NoStdin => StartedModel::NoStdin,
            Started::NoStdout => StartedModel::NoStdout,
            Started::Running => StartedModel::Running,
        }
    }
}

/// What is said where a server could not be started.
pub open spec fn start_failure(server: Seq<char>, command: Seq<char>, s: StartedModel) -> Option<
    Seq<char>,
> {
    match s {
        StartedModel::NotSpawned(e) => Some(
            "MCP server '"@ + server + "' failed to start ("@ + command + "): "@ + e,
        ),
        StartedModel::NoStdin => Some("MCP server '"@ + server + "': stdin not available"@),
        StartedModel::NoStdout => Some("MCP server '"@ + server + "': stdout not available"@),
        StartedModel::Running => None,
    }
}

impl McpClient {
    /// A server that was started, or what is said where it could not be. Its
    /// first request is the second: the greeting goes before.
    pub fn start(server_name: &str, command: &str, started: Started) -> (r: Result<Self, String>)
        ensures
            match start_failure(server_name@, command@, started@) {
                Some(e) => r is Err && r->Err_0@ == e,
                None => r is Ok && r->Ok_0.server_name@ == server_name@ && r->Ok_0.next_id == 1,
            },
    {
        match started {
            Started::NotSpawned(e) => {
                let mut out = owned("MCP server '");
                out.append(server_name);
                out.append("' failed to start (");
                out.append(command);
                out.append("): ");
                out.append(e.as_str());
                Err(out)
            },
            Started::NoStdin => {
                let mut out = owned("MCP server '");
                out.append(server_name);
                out.append("': stdin not available");
                Err(out)
            },
            Started::NoStdout => {
                let mut out = owned("MCP server '");
                out.append(server_name);
                out.append("': stdout not available");
                Err(out)
            },
            Started::Running => Ok(McpClient { server_name: owned(server_name), next_id: 1 }),
        }
    }

    /// The line of the next request. No number is given twice, and none is that
    /// of the greeting.
    pub fn call(&mut self, method: &str, params: &str) -> (r: String)
        requires
            1 <= old(self).next_id < i64::MAX,
        ensures
            r@ == request_text(old(self).next_id as int, method@, params@),
            final(self).next_id == old(self).next_id + 1,
            final(self).server_name@ == old(self).server_name@,
    {
        let id: i64 = self.next_id;
        self.next_id = id + 1;
        let number = signed_decimal(id);
        let mut out = owned("{\"id\":");
        out.append(number.as_str());
        out.append(",\"jsonrpc\":\"2.0\",\"method\":");
        put_string(&mut out, method);
        out.append(",\"params\":");
        out.append(params);
        out.append("}");
        out
    }
}

/// What came of an exchange with a server.
pub enum Exchange {
    NoStdin,
    WriteFailed(String),
    FlushFailed(String),
    NoStdout,
    ReadFailed(String),
    /// The line that was read.
    Line(String),
}

/// The content of an [`Exchange`].
#[verifier::ext_equal]
pub enum ExchangeModel {
    NoStdin,
    WriteFailed(Seq<char>),
    FlushFailed(Seq<char>),
    NoStdout,
    ReadFailed(Seq<char>),
    Line(Seq<char>),
}

impl View for Exchange {
    type V = ExchangeModel;

    open spec fn view(&self) -> ExchangeModel {
        match self {
            Exchange::NoStdin => ExchangeModel::NoStdin,
            Exchange::WriteFailed(e) => ExchangeModel::WriteFailed(e@),
            Exchange::FlushFailed(e) => ExchangeModel::FlushFailed(e@),
            Exchange::NoStdout => ExchangeModel::NoStdout,
            Exchange::ReadFailed(e) => ExchangeModel::ReadFailed(e@),
            Exchange::Line(s) => ExchangeModel::Line(s@),
        }
    }
}

/// What a text is as JSON, looked at for one member: why it is none; or that
/// there is no such member; or the member, written with indentation, where it
/// can be.
pub uninterp spec fn json_member(line: Seq<char>, name: Seq<char>) -> Result<
    Option<Option<Seq<char>>>,
    Seq<char>,
>;

/// What was read of a member, by its content.
pub open spec fn member_view(r: Result<Option<Option<String>>, String>) -> Result<
    Option<Option<Seq<char>>>,
    Seq<char>,
> {
    match r {
        Ok(Some(m)) => Ok(Some(model::opt_view(m))),
        Ok(None) => Ok(None),
        Err(e) => Err(e@),
    }
}

/// `serde_json::from_str`, then `Value::get` of a name, then
/// `serde_json::to_string_pretty` of what that gives: a function of the text
/// and the name alone.
#[verifier::external_body]
pub(crate) fn read_member(line: &str, name: &str) -> (r: Result<Option<Option<String>>, String>)
    ensures
        member_view(r) == json_member(line@, name@),
{
    match serde_json::from_str::<serde_json::Value>(line) {
        Ok(v) => match v.get(name) {
            Some(m) => Ok(Some(serde_json::to_string_pretty(m).ok())),
            None => Ok(None),
        },
        Err(e) => Err(e.to_string()),
    }
}

/// What a line of an answer means, with what it is as JSON.
pub open spec fn line_meaning(
    line: Seq<char>,
    error: Result<Option<Option<Seq<char>>>, Seq<char>>,
) -> Result<Seq<char>, Seq<char>> {
    if text::blank(line) {
        Err("MCP server returned empty response"@)
    } else {
        match error {
            Err(e) => Err(
                "MCP JSON parse error: "@ + e + " (raw: "@ + text::clipped(line, RAW_LIMIT as nat)
                    + ")"@,
            ),
            Ok(Some(Some(m))) => Err("MCP error: "@ + m),
            Ok(Some(None)) => Err("MCP error: unknown"@),
            Ok(None) => Ok(line),
        }
    }
}

/// What an exchange means.
pub open spec fn exchange_meaning(
    x: ExchangeModel,
    error: Result<Option<Option<Seq<char>>>, Seq<char>>,
) -> Result<Seq<char>, Seq<char>> {
    match x {
        ExchangeModel::NoStdin => Err("MCP client: stdin not connected"@),
        ExchangeModel::WriteFailed(e) => Err("MCP write error: "@ + e),
        ExchangeModel::FlushFailed(e) => Err("MCP flush error: "@ + e),
        ExchangeModel::NoStdout => Err("MCP client: stdout not connected"@),
        ExchangeModel::ReadFailed(e) => Err("MCP read error: "@ + e),
        ExchangeModel::Line(line) => line_meaning(line, error),
    }
}

/// A text behind another.
fn said(head: &str, tail: &str) -> (r: String)
    ensures
        r@ == head@ + tail@,
{
    let mut out = owned(head);
    out.append(tail);
    out
}

/// What a line of an answer means: nothing, no JSON, an error, or an answer.
pub fn judge_line(line: String, error: Result<Option<Option<String>>, String>) -> (r: Result<
    String,
    String,
>)
    ensures
        model::result_view(r) == line_meaning(line@, member_view(error)),
{
    if is_blank(line.as_str()) {
        return Err(owned("MCP server returned empty response"));
    }
    match error {
        Err(e) => {
            let raw = take_chars(line.as_str(), RAW_LIMIT);
            let mut out = owned("MCP JSON parse error: ");
            out.append(e.as_str());
            out.append(" (raw: ");
            out.append(raw.as_str());
            out.append(")");
            Err(out)
        },
        Ok(Some(Some(m))) => Err(said("MCP error: ", m.as_str())),
        Ok(Some(None)) => Err(owned("MCP error: unknown")),
        Ok(None) => Ok(line),
    }
}

/// What an exchange means: the line of the answer, or what is said where it
/// failed.
pub fn send_raw(x: Exchange) -> (r: Result<String, String>)
    ensures
        model::result_view(r) == exchange_meaning(
            x@,
            match x@ {
                ExchangeModel::Line(line) => json_member(line, "error"@),
                _ => Ok(None),
            },
        ),
{
    match x {
        Exchange::NoStdin => Err(owned("MCP client: stdin not connected")),
        Exchange::WriteFailed(e) => Err(said("MCP write error: ", e.as_str())),
        Exchange::FlushFailed(e) => Err(said("MCP flush error: ", e.as_str())),
        Exchange::NoStdout => Err(owned("MCP client: stdout not connected")),
        Exchange::ReadFailed(e) => Err(said("MCP read error: ", e.as_str())),
        Exchange::Line(line) => {
            let error = read_member(line.as_str(), "error");
            judge_line(line, error)
        },
    }
}

/// The command that is tried where a program was not found: on Windows the
/// shell, which also finds scripts.
pub open spec fn fallback(
    windows: bool,
    not_found: bool,
    command: Seq<char>,
    args: Seq<Seq<char>>,
) -> Option<(Seq<char>, Seq<Seq<char>>)> {
    if windows && not_found {
        Some(("cmd"@, seq!["/c"@, command] + args))
    } else {
        None
    }
}

/// The command that is tried where a program could not be run.
pub fn spawn_with_cmd_fallback(
    windows: bool,
    not_found: bool,
    command: &str,
    args: &Vec<String>,
) -> (r: Option<(String, Vec<String>)>)
    ensures
        match fallback(windows, not_found, command@, model::seq_view(args@)) {
            Some(f) => r is Some && r->Some_0.0@ == f.0 && model::seq_view(r->Some_0.1@) == f.1,
            None => r is None,
        },
{
    if !(windows && not_found) {
        return None;
    }
    let mut all: Vec<String> = Vec::new();
    all.push(owned("/c"));
    all.push(owned(command));
    let ghost first = seq!["/c"@, command@];
    let mut i: usize = 0;
    assert(model::seq_view(all@) =~= first + model::seq_view(args@).take(0));
    while i < args.len()
        invariant
            i <= args@.len(),
            model::seq_view(all@) == first + model::seq_view(args@).take(i as int),
        decreases args@.len() - i,
    {
        let ghost before = all@;
        all.push(args[i].clone());
        proof {
            let one = args@[i as int]@;
            assert(model::seq_view(all@) =~= model::seq_view(before).push(one));
            assert(first + model::seq_view(args@).take(i + 1) =~= (first + model::seq_view(
                args@,
            ).take(i as int)).push(one));
        }
        i = i + 1;
    }
    assert(model::seq_view(args@).take(args@.len() as int) =~= model::seq_view(args@));
    Some((owned("cmd"), all))
}

/// The servers that run, each with the number by which it is reached.
pub struct McpPool {
    pub servers: StringHashMap<u64>,
}

impl View for McpPool {
    type V = Map<Seq<char>, u64>;

    open spec fn view(&self) -> Map<Seq<char>, u64> {
        self.servers@
    }
}

/// No server runs yet.
pub fn get_pool() -> (r: McpPool)
    ensures
        r@ == Map::<Seq<char>, u64>::empty(),
{
    McpPool { servers: StringHashMap::new() }
}

impl McpPool {
    /// A server that runs.
    pub fn get(&self, server_name: &str) -> (r: Option<u64>)
        ensures
            r == if self@.contains_key(server_name@) {
                Some(self@[server_name@])
            } else {
                None
            },
    {
        match self.servers.get(server_name) {
            Some(n) => Some(*n),
            None => None,
        }
    }
}

/// The server of a name: the one that runs, or else one that was started,
/// which runs from then on; where starting it failed, what is said of that.
pub fn get_or_create_with_config(
    pool: &mut McpPool,
    server_name: &str,
    started: Result<u64, String>,
) -> (r: Result<u64, String>)
    ensures
        if old(pool)@.contains_key(server_name@) {
            r == Ok::<u64, String>(old(pool)@[server_name@]) && final(pool)@ == old(pool)@
        } else {
            match started {
                Ok(h) => r == Ok::<u64, String>(h) && final(pool)@ == old(pool)@.insert(
                    server_name@,
                    h,
                ),
                Err(e) => r is Err && r->Err_0@ == e@ && final(pool)@ == old(pool)@,
            }
        },
{
    match pool.get(server_name) {
        Some(h) => Ok(h),
        None => match started {
            Ok(h) => {
                pool.servers.insert(owned(server_name), h);
                Ok(h)
            },
            Err(e) => Err(e),
        },
    }
}

/// Lets a server go, and says whether there was one.
pub fn drop_server(pool: &mut McpPool, server_name: &str) -> (r: bool)
    ensures
        final(pool)@ == old(pool)@.remove(server_name@),
        r == old(pool)@.contains_key(server_name@),
{
    let there = pool.servers.contains_key(server_name);
    pool.servers.remove(server_name);
    there
}

/// What is said of a server that is not configured.
pub open spec fn unknown_server(server: Seq<char>, names: Seq<Seq<char>>) -> Seq<char> {
    "MCP server '"@ + server + "' not found in servers.yaml. Available: ["@ + text::joined(
        Seq::new(names.len(), |i: int| uia_tree::quoted(names[i])),
        ", "@,
    ) + "]"@
}

/// Whether a server is configured; else what is said of that, with those that
/// are.
pub fn get_or_create(server_name: &str, names: &Vec<String>) -> (r: Result<(), String>)
    ensures
        model::result_view(r) == if model::seq_view(names@).contains(server_name@) {
            Ok::<(), Seq<char>>(())
        } else {
            Err::<(), Seq<char>>(unknown_server(server_name@, model::seq_view(names@)))
        },
{
    let ghost all = model::seq_view(names@);
    let mut shown: Vec<String> = Vec::new();
    let mut i: usize = 0;
    while i < names.len()
        invariant
            i <= names@.len(),
            all == model::seq_view(names@),
            shown@.len() == i,
            forall|k: int| 0 <= k < i ==> all[k] != server_name@,
            forall|k: int| 0 <= k < i ==> (#[trigger] shown@[k])@ == uia_tree::quoted(all[k]),
        decreases names@.len() - i,
    {
        assert(all[i as int] == names@[i as int]@);
        if text::same_text(names[i].as_str(), server_name) {
            return Ok(());
        }
        shown.push(quote(names[i].as_str()));
        i = i + 1;
    }
    assert(model::seq_view(shown@) =~= Seq::new(
        all.len(),
        |i: int| uia_tree::quoted(all[i]),
    ));
    let list = join(&shown, ", ");
    let mut out = owned("MCP server '");
    out.append(server_name);
    out.append("' not found in servers.yaml. Available: [");
    out.append(list.as_str());
    out.append("]");
    Err(out)
}

/// Where a call of a tool stands.
#[derive(Debug, PartialEq, Eq)]
pub enum CallPhase {
    /// The server is reached for, the second time with `again`.
    Reach { again: bool },
    /// The tool is called, the second time with `again`.
    Call { again: bool },
    /// The server is let go, to be started anew.
    LetGo,
    /// The answer, or what is said where there is none.
    Over(Result<String, String>),
}

/// The content of a [`CallPhase`].
#[verifier::ext_equal]
pub enum CallPhaseModel {
    Reach { again: bool },
    Call { again: bool },
    LetGo,
    Over(Result<Seq<char>, Seq<char>>),
}

impl View for CallPhase {
    type V = CallPhaseModel;

    open spec fn view(&self) -> CallPhaseModel {
        match self {
            CallPhase::Reach { again } => CallPhaseModel::Reach { again: *again },
            CallPhase::Call { again } => CallPhaseModel::Call { again: *again },
            CallPhase::LetGo => CallPhaseModel::LetGo,
            CallPhase::Over(r) => CallPhaseModel::Over(model::result_view(*r)),
        }
    }
}

/// What happened to a call of a tool.
pub enum CallEvent {
    /// The server was reached, or what is said where it was not.
    Reached(Result<(), String>),
    /// The server answered, or what is said where it did not.
    Answered(Result<String, String>),
    /// The time for the answer is over.
    TimedOut,
    /// The server was let go.
    Gone,
}

/// The content of a [`CallEvent`].
#[verifier::ext_equal]
pub enum CallEventModel {
    Reached(Result<(), Seq<char>>),
    Answered(Result<Seq<char>, Seq<char>>),
    TimedOut,
    Gone,
}

impl View for CallEvent {
    type V = CallEventModel;

    open spec fn view(&self) -> CallEventModel {
        match self {
            CallEvent::Reached(r) => CallEventModel::Reached(model::result_view(*r)),
            CallEvent::Answered(r) => CallEventModel::Answered(model::result_view(*r)),
            CallEvent::TimedOut => CallEventModel::TimedOut,
            CallEvent::Gone => CallEventModel::Gone,
        }
    }
}

/// Where a call stands after something happened. The first failure of a call
/// has the server started anew and the call made once more; only the first call
/// has a time limit.
pub open spec fn call_after(p: CallPhaseModel, e: CallEventModel) -> CallPhaseModel {
    match (p, e) {
        (CallPhaseModel::Reach { again }, CallEventModel::Reached(Ok(_))) => CallPhaseModel::Call {
            again,
        },
        (
            CallPhaseModel::Reach { again },
            CallEventModel::Reached(Err(m)),
        ) => CallPhaseModel::Over(Err(m)),
        (CallPhaseModel::Call { again: true }, CallEventModel::Answered(r)) => CallPhaseModel::Over(
            r,
        ),
        (
            CallPhaseModel::Call { again: false },
            CallEventModel::Answered(Ok(v)),
        ) => CallPhaseModel::Over(Ok(v)),
        (
            CallPhaseModel::Call { again: false },
            CallEventModel::Answered(Err(_)),
        ) => CallPhaseModel::LetGo,
        (CallPhaseModel::Call { again: false }, CallEventModel::TimedOut) => CallPhaseModel::LetGo,
        (CallPhaseModel::LetGo, CallEventModel::Gone) => CallPhaseModel::Reach { again: true },
        _ => p,
    }
}

/// A call of a tool.
pub struct CallRun {
    pub phase: CallPhase,
}

/// A call that is about to be made.
pub fn call_tool() -> (r: CallRun)
    ensures
        r.phase@ == (CallPhaseModel::Reach { again: false }),
{
    CallRun { phase: CallPhase::Reach { again: false } }
}

impl CallRun {
    /// Goes on after something happened.
    pub fn advance(&mut self, event: CallEvent)
        ensures
            final(self).phase@ == call_after(old(self).phase@, event@),
    {
        let next: Option<CallPhase> = match (&self.phase, event) {
            (CallPhase::Reach { again }, CallEvent::Reached(r)) => match r {
                Ok(_) => Some(CallPhase::Call { again: *again }),
                Err(m) => Some(CallPhase::Over(Err(m))),
            },
            (CallPhase::Call { again }, CallEvent::Answered(r)) => if *again {
                Some(CallPhase::Over(r))
            } else {
                match r {
                    Ok(v) => Some(CallPhase::Over(Ok(v))),
                    Err(_) => Some(CallPhase::LetGo),
                }
            },
            (CallPhase::Call { again }, CallEvent::TimedOut) => if *again {
                None
            } else {
                Some(CallPhase::LetGo)
            },
            (CallPhase::LetGo, CallEvent::Gone) => Some(CallPhase::Reach { again: true }),
            _ => None,
        };
        if let Some(p) = next {
            self.phase = p;
        }
    }
}

/// The time that is given to a call: none is set where the limit is nought, nor
/// for the second call.
pub fn time_limit(phase: &CallPhase, timeout_ms: u64) -> (r: Option<u64>)
    ensures
        r == match phase@ {
            CallPhaseModel::Call { again } => if !again && timeout_ms > 0 {
                Some(timeout_ms)
            } else {
                None
            },
            _ => None,
        },
{
    match phase {
        CallPhase::Call { again } => if !*again && timeout_ms > 0 {
            Some(timeout_ms)
        } else {
            None
        },
        _ => None,
    }
}

/// How many calls a run can still make.
pub open spec fn calls_left(p: CallPhaseModel) -> int {
    match p {
        CallPhaseModel::Reach { again } => if again {
            1
        } else {
            2
        },
        CallPhaseModel::Call { again } => if again {
            0
        } else {
            1
        },
        CallPhaseModel::LetGo => 1,
        CallPhaseModel::Over(_) => 0,
    }
}

/// A call that runs through events.
pub open spec fn call_through(p: CallPhaseModel, events: Seq<CallEventModel>) -> CallPhaseModel
    decreases events.len(),
{
    if events.len() == 0 {
        p
    } else {
        call_after(call_through(p, events.drop_last()), events.last())
    }
}

/// How often a tool was called.
pub open spec fn calls_made(p: CallPhaseModel, events: Seq<CallEventModel>) -> int
    decreases events.len(),
{
    if events.len() == 0 {
        0
    } else {
        let before = call_through(p, events.drop_last());
        let after = call_through(p, events);
        calls_made(p, events.drop_last()) + if before is Reach && after is Call {
            1int
        } else {
            0int
        }
    }
}

/// A tool is called at most twice, whatever happens.
pub proof fn tool_is_called_at_most_twice(events: Seq<CallEventModel>)
    ensures
        calls_made(CallPhaseModel::Reach { again: false }, events) + calls_left(
            call_through(CallPhaseModel::Reach { again: false }, events),
        ) <= 2,
        calls_made(CallPhaseModel::Reach { again: false }, events) <= 2,
    decreases events.len(),
{
    if events.len() > 0 {
        tool_is_called_at_most_twice(events.drop_last());
    }
}

/// An answer to the first call is the answer; so is whatever the second call
/// gives. What is over stays as it is.
pub proof fn answer_is_final(r: Result<Seq<char>, Seq<char>>, v: Seq<char>, e: CallEventModel)
    ensures
        call_after(CallPhaseModel::Call { again: false }, CallEventModel::Answered(Ok(v)))
            == CallPhaseModel::Over(Ok(v)),
        call_after(CallPhaseModel::Call { again: true }, CallEventModel::Answered(r))
            == CallPhaseModel::Over(r),
        call_after(CallPhaseModel::Over(r), e) == CallPhaseModel::Over(r),
{
}

/// A server that runs with both its ends is a client; any other start is told as
/// a fault.
pub proof fn only_running_servers_are_used(server: Seq<char>, command: Seq<char>, s: StartedModel)
    ensures
        start_failure(server, command, s) is None <==> s is Running,
{
}

/// A line is the answer where it is an object without an error; a blank line, one
/// that cannot be read and one with an error are faults, and the error's own
/// words are told.
pub proof fn lines_are_answers_or_faults(
    line: Seq<char>,
    error: Result<Option<Option<Seq<char>>>, Seq<char>>,
)
    ensures
        line_meaning(line, error) is Ok <==> !text::blank(line) && error
            == Ok::<Option<Option<Seq<char>>>, Seq<char>>(None),
        line_meaning(line, error) matches Ok(answer) ==> answer == line,
        !text::blank(line) ==> (error matches Ok(Some(Some(m))) ==> line_meaning(line, error)
            == Err::<Seq<char>, Seq<char>>("MCP error: "@ + m)),
        !text::blank(line) && error is Err ==> line_meaning(line, error) == Err::<
            Seq<char>,
            Seq<char>,
        >(
            "MCP JSON parse error: "@ + error->Err_0 + " (raw: "@ + text::clipped(line, 300)
                + ")"@,
        ),
{
}

/// An exchange is answered by the line that was read; whatever went wrong before
/// is a fault.
pub proof fn exchanges_are_answered_by_their_line(
    x: ExchangeModel,
    error: Result<Option<Option<Seq<char>>>, Seq<char>>,
)
    ensures
        x matches ExchangeModel::Line(line) ==> exchange_meaning(x, error) == line_meaning(
            line,
            error,
        ),
        x !is Line ==> exchange_meaning(x, error) is Err,
{
}

/// A command that was not found is tried once more through the shell, on Windows
/// alone, with the same arguments.
pub proof fn missing_commands_go_through_the_shell(
    windows: bool,
    not_found: bool,
    command: Seq<char>,
    args: Seq<Seq<char>>,
)
    ensures
        fallback(windows, not_found, command, args) is Some <==> windows && not_found,
        fallback(windows, not_found, command, args) matches Some(f) ==> f.0 == "cmd"@ && f.1.len()
            == args.len() + 2 && f.1[0] == "/c"@ && f.1[1] == command && f.1.skip(2) == args,
{
    if windows && not_found {
        assert((seq!["/c"@, command] + args).skip(2) =~= args);
    }
}

/// A call that failed or took too long is made once more over a fresh connection;
/// a server that cannot be reached is an error at once; and what a phase does not
/// wait for changes nothing.
pub proof fn failed_calls_are_made_again(again: bool, m: Seq<char>, v: Seq<char>, e: CallEventModel)
    ensures
        call_after(CallPhaseModel::Call { again: false }, CallEventModel::Answered(Err(m)))
            == CallPhaseModel::LetGo,
        call_after(CallPhaseModel::Call { again: false }, CallEventModel::TimedOut)
            == CallPhaseModel::LetGo,
        call_after(CallPhaseModel::LetGo, CallEventModel::Gone) == (CallPhaseModel::Reach {
            again: true,
        }),
        call_after(CallPhaseModel::Reach { again }, CallEventModel::Reached(Ok(())))
            == (CallPhaseModel::Call { again }),
        call_after(CallPhaseModel::Reach { again }, CallEventModel::Reached(Err(m)))
            == CallPhaseModel::Over(Err(m)),
        e !is Gone ==> call_after(CallPhaseModel::LetGo, e) == CallPhaseModel::LetGo,
        e !is Reached ==> call_after(CallPhaseModel::Reach { again }, e)
            == (CallPhaseModel::Reach { again }),
        call_after(CallPhaseModel::Call { again: true }, CallEventModel::TimedOut)
            == (CallPhaseModel::Call { again: true }),
        call_after(CallPhaseModel::Call { again }, CallEventModel::Gone) == (CallPhaseModel::Call {
            again,
        }),
{
}

/// A request holds its number, its method and its parameters; a tool's parameters
/// hold its name and its arguments.
pub proof fn requests_hold_what_is_asked(
    id: int,
    method: Seq<char>,
    params: Seq<char>,
    tool: Seq<char>,
    arguments: Seq<char>,
)
    ensures
        text::has_part(request_text(id, method, params), text::signed_text(id)),
        text::has_part(request_text(id, method, params), json::string_text(method)),
        text::has_part(request_text(id, method, params), params),
        text::has_part(tool_params(tool, arguments), arguments),
        text::has_part(tool_params(tool, arguments), json::string_text(tool)),
{
    let a = "{\"id\":"@;
    let n = text::signed_text(id);
    let b = ",\"jsonrpc\":\"2.0\",\"method\":"@;
    let m = json::string_text(method);
    let c = ",\"params\":"@;
    let t = request_text(id, method, params);
    let i = a.len() as int;
    assert(t.subrange(i, i + n.len()) =~= n);
    assert(text::stands_at(t, n, i));
    let j = i + n.len() + b.len();
    assert(t.subrange(j, j + m.len()) =~= m);
    assert(text::stands_at(t, m, j));
    let k = j + m.len() + c.len();
    assert(t.subrange(k, k + params.len()) =~= params);
    assert(text::stands_at(t, params, k));
    let p = tool_params(tool, arguments);
    let d = "{\"arguments\":"@;
    let e = ",\"name\":"@;
    let q = json::string_text(tool);
    let x = d.len() as int;
    assert(p.subrange(x, x + arguments.len()) =~= arguments);
    assert(text::stands_at(p, arguments, x));
    let y = x + arguments.len() + e.len();
    assert(p.subrange(y, y + q.len()) =~= q);
    assert(text::stands_at(p, q, y));
}

/// A server that is not known is named, with those that are.
pub proof fn unknown_servers_are_named(server: Seq<char>, names: Seq<Seq<char>>)
    ensures
        text::has_part(unknown_server(server, names), server),
        text::has_part(
            unknown_server(server, names),
            text::joined(Seq::new(names.len(), |i: int| uia_tree::quoted(names[i])), ", "@),
        ),
{
    let a = "MCP server '"@;
    let b = "' not found in servers.yaml. Available: ["@;
    let l = text::joined(Seq::new(names.len(), |i: int| uia_tree::quoted(names[i])), ", "@);
    let t = unknown_server(server, names);
    let i = a.len() as int;
    assert(t.subrange(i, i + server.len()) =~= server);
    assert(text::stands_at(t, server, i));
    let j = i + server.len() + b.len();
    assert(t.subrange(j, j + l.len()) =~= l);
    assert(text::stands_at(t, l, j));
}

} // verus!
