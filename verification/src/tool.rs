//! Tool calls and their results.
use vstd::prelude::*;
use vstd::string::*;

use crate::ids;
use crate::ids::fresh_uuid;
use crate::model;
use crate::model::{copy_opt, same_opt, Plain};
use crate::text;
use crate::text::{owned, signed_decimal};

verus! {

/// A call of a tool, its parameters as JSON text.
#[derive(Debug, Clone, PartialEq, Eq)]
pub struct ToolCall {
    pub id: String,
    pub tool: String,
    pub params: String,
}

/// The content of a [`ToolCall`].
#[verifier::ext_equal]
pub struct CallModel {
    pub id: Seq<char>,
    pub tool: Seq<char>,
    pub params: Seq<char>,
}

impl View for ToolCall {
    type V = CallModel;

    open spec fn view(&self) -> CallModel {
        CallModel { id: self.id@, tool: self.tool@, params: self.params@ }
    }
}

impl ToolCall {
    /// A call under a fresh identifier.
    pub fn new(tool: String, params: String) -> (r: Self)
        ensures
            ids::hyphenated(r.id@),
            r.tool@ == tool@,
            r.params@ == params@,
    {
        ToolCall { id: fresh_uuid(), tool, params }
    }
}

/// What a tool gave back.
#[derive(Debug, Clone, PartialEq, Eq)]
pub struct ToolResult {
    pub success: bool,
    pub output: Option<String>,
    pub error: Option<String>,
    /// The exit code of a process, where the tool ran one.
    pub exit_code: Option<i32>,
}

/// The content of a [`ToolResult`].
#[verifier::ext_equal]
pub struct ResultModel {
    pub success: bool,
    pub output: Option<Seq<char>>,
    pub error: Option<Seq<char>>,
    pub exit_code: Option<i32>,
}

impl View for ToolResult {
    type V = ResultModel;

    open spec fn view(&self) -> ResultModel {
        ResultModel {
            success: self.success,
            output: model::opt_view(self.output),
            error: model::opt_view(self.error),
            exit_code: self.exit_code,
        }
    }
}

impl Plain for ToolResult {
    fn copied(&self) -> (r: Self) {
        ToolResult {
            success: self.success,
            output: copy_opt(&self.output),
            error: copy_opt(&self.error),
            exit_code: self.exit_code,
        }
    }

    fn same(&self, other: &Self) -> (r: bool) {
        let codes = match (self.exit_code, other.exit_code) {
            (Some(a), Some(b)) => a == b,
            (None, None) => true,
            _ => false,
        };
        self.success == other.success && same_opt(&self.output, &other.output) && same_opt(
            &self.error,
            &other.error,
        ) && codes
    }
}

impl ResultModel {
    /// A success with an output.
    pub open spec fn succeeded(output: Seq<char>) -> ResultModel {
        ResultModel { success: true, output: Some(output), error: None, exit_code: Some(0) }
    }

    /// A failure with an error.
    pub open spec fn failed(error: Seq<char>) -> ResultModel {
        ResultModel { success: false, output: None, error: Some(error), exit_code: None }
    }

    /// What a callback sees: the output, or the error behind its exit code.
    pub open spec fn handed_on(self) -> Result<Seq<char>, Seq<char>> {
        if self.success {
            Ok(
                match self.output {
                    Some(s) => s,
                    None => Seq::empty(),
                },
            )
        } else {
            let said = match self.error {
                Some(s) => s,
                None => "Unknown error"@,
            };
            Err(
                match self.exit_code {
                    Some(code) => "__EXIT_CODE:"@ + text::signed_text(code as int) + "__ "@ + said,
                    None => said,
                },
            )
        }
    }

    /// The text to show: the output, else the error, else nothing.
    pub open spec fn shown(self) -> Seq<char> {
        match (self.output, self.error) {
            (Some(s), _) => s,
            (None, Some(e)) => e,
            (None, None) => Seq::empty(),
        }
    }
}

impl ToolResult {
    /// A success: the output, no error, exit code zero.
    pub fn success(output: String) -> (r: Self)
        ensures
            r@ == ResultModel::succeeded(output@),
    {
        ToolResult { success: true, output: Some(output), error: None, exit_code: Some(0) }
    }

    /// A failure: the error, no output, no exit code.
    pub fn failure(error: String) -> (r: Self)
        ensures
            r@ == ResultModel::failed(error@),
    {
        ToolResult { success: false, output: None, error: Some(error), exit_code: None }
    }

    /// The output of a success, or the error of a failure with its exit code
    /// written in front.
    pub fn into_exec_result(self) -> (r: Result<String, String>)
        ensures
            model::result_view(r) == self@.handed_on(),
    {
        if self.success {
            match self.output {
                Some(s) => Ok(s),
                None => Ok(String::new()),
            }
        } else {
            let said = match self.error {
                Some(s) => s,
                None => owned("Unknown error"),
            };
            match self.exit_code {
                Some(code) => {
                    let mut s = owned("__EXIT_CODE:");
                    s.append(signed_decimal(code as i64).as_str());
                    s.append("__ ");
                    s.append(said.as_str());
                    Err(s)
                },
                None => Err(said),
            }
        }
    }

    /// The text to show: the output, else the error, else nothing.
    pub fn shown(&self) -> (r: String)
        ensures
            r@ == self@.shown(),
    {
        match (&self.output, &self.error) {
            (Some(s), _) => s.clone(),
            (None, Some(e)) => e.clone(),
            (None, None) => String::new(),
        }
    }
}

/// Where a step of an execution stands.
#[derive(Debug, Clone, Copy, PartialEq, Eq, Structural)]
pub enum StepStatus {
    Pending,
    Running,
    Success,
    Error,
    Retry,
}

/// What an agent reports at the end of a turn.
#[derive(Debug, Clone, PartialEq, Eq)]
pub struct AgentOutput {
    pub message: String,
    pub success: bool,
    pub steps: Vec<ExecutionStep>,
    /// The conversation from which the turn can be tried again, as JSON.
    pub retry_session: Option<String>,
}

/// A step of an execution; its parameters are JSON.
#[derive(Debug, Clone, PartialEq, Eq)]
pub struct ExecutionStep {
    pub tool: String,
    pub params: String,
    pub result: Option<ToolResult>,
    pub status: StepStatus,
    pub timestamp: String,
    pub goal_type: Option<String>,
    /// What was thought before.
    pub reasoning: Option<String>,
}

/// A result that succeeded is handed on as its output, one that failed as its
/// error, behind its exit code where it has one; nothing else decides.
pub proof fn results_are_handed_on(r: ResultModel, s: Seq<char>)
    ensures
        r.handed_on() is Ok <==> r.success,
        r.success && r.output is Some ==> r.handed_on() == Ok::<Seq<char>, Seq<char>>(
            r.output->Some_0,
        ),
        r.success && r.output is None ==> r.handed_on() == Ok::<Seq<char>, Seq<char>>(Seq::empty()),
        !r.success && r.error is Some && r.exit_code is None ==> r.handed_on() == Err::<
            Seq<char>,
            Seq<char>,
        >(r.error->Some_0),
        !r.success && r.error is None && r.exit_code is None ==> r.handed_on() == Err::<
            Seq<char>,
            Seq<char>,
        >("Unknown error"@),
        !r.success && r.error is Some && r.exit_code is Some ==> r.handed_on() == Err::<
            Seq<char>,
            Seq<char>,
        >(
            "__EXIT_CODE:"@ + text::signed_text(r.exit_code->Some_0 as int) + "__ "@
                + r.error->Some_0,
        ),
        ResultModel::succeeded(s).handed_on() == Ok::<Seq<char>, Seq<char>>(s),
        ResultModel::failed(s).handed_on() == Err::<Seq<char>, Seq<char>>(s),
        r.output is Some ==> r.shown() == r.output->Some_0,
        r.output is None && r.error is Some ==> r.shown() == r.error->Some_0,
        r.output is None && r.error is None ==> r.shown().len() == 0,
        ResultModel::succeeded(s).shown() == s,
        ResultModel::failed(s).shown() == s,
{
}

} // verus!
