//! Errors, and how each is put into words.
use vstd::prelude::*;
use vstd::string::*;

use crate::text;
use crate::text::{decimal, owned};

verus! {

/// Errors of an agent, told apart by what can be done about them.
#[derive(Debug, Clone, PartialEq, Eq)]
pub enum AgentError {
    /// Something does not exist.
    NotFound { what: String, id: String },
    /// Something that is needed is missing.
    MissingDependency { dep: String },
    /// A workflow is not valid.
    ValidationFailed { errors: String },
    /// A workflow failed.
    WorkflowFailed { name: String, error: String },
    /// Too many failures in a row.
    SafetyHalt { consecutive_failures: u32 },
    /// An id stands for several items.
    AmbiguousId { id: String, count: usize },
    /// The user cancelled.
    Cancelled,
    /// The model could not be changed.
    ModelSwitchFailed { error: String },
    /// Two runs are in each other's way.
    SchedulingConflict { reason: String },
    /// Anything else.
    Other(String),
}

impl AgentError {
    /// The error in words.
    pub open spec fn text(self) -> Seq<char> {
        match self {
            AgentError::NotFound { what, id } => "Not found: "@ + what@ + " '"@ + id@ + "'"@,
            AgentError::MissingDependency { dep } => "Missing dependency: "@ + dep@,
            AgentError::ValidationFailed { errors } => "Workflow validation failed: "@ + errors@,
            AgentError::WorkflowFailed { name, error } => "Workflow '"@ + name@ + "' failed: "@ + error@,
            AgentError::SafetyHalt { consecutive_failures } => "Safety halt after "@ + text::decimal_text(consecutive_failures as nat) + " consecutive failures"@,
            AgentError::AmbiguousId { id, count } => "Ambiguous id '"@ + id@ + "' matches "@ + text::decimal_text(count as nat) + " items"@,
            AgentError::Cancelled => "Cancelled"@,
            AgentError::ModelSwitchFailed { error } => "Model switch failed: "@ + error@,
            AgentError::SchedulingConflict { reason } => "Scheduling conflict: "@ + reason@,
            AgentError::Other(s) => s@,
        }
    }

    /// The error in words.
    pub fn message(&self) -> (r: String)
        ensures
            r@ == self.text(),
    {
        match self {
            AgentError::NotFound { what, id } => {
                let mut out = owned("Not found: ");
                out.append(what.as_str());
                out.append(" '");
                out.append(id.as_str());
                out.append("'");
                out
            },
            AgentError::MissingDependency { dep } => {
                let mut out = owned("Missing dependency: ");
                out.append(dep.as_str());
                out
            },
            AgentError::ValidationFailed { errors } => {
                let mut out = owned("Workflow validation failed: ");
                out.append(errors.as_str());
                out
            },
            AgentError::WorkflowFailed { name, error } => {
                let mut out = owned("Workflow '");
                out.append(name.as_str());
                out.append("' failed: ");
                out.append(error.as_str());
                out
            },
            AgentError::SafetyHalt { consecutive_failures } => {
                let mut out = owned("Safety halt after ");
                out.append(decimal(*consecutive_failures as u64).as_str());
                out.append(" consecutive failures");
                out
            },
            AgentError::AmbiguousId { id, count } => {
                let mut out = owned("Ambiguous id '");
                out.append(id.as_str());
                out.append("' matches ");
                out.append(decimal(*count as u64).as_str());
                out.append(" items");
                out
            },
            AgentError::Cancelled => {
                owned("Cancelled")
            },
            AgentError::ModelSwitchFailed { error } => {
                let mut out = owned("Model switch failed: ");
                out.append(error.as_str());
                out
            },
            AgentError::SchedulingConflict { reason } => {
                let mut out = owned("Scheduling conflict: ");
                out.append(reason.as_str());
                out
            },
            AgentError::Other(s) => {
                s.clone()
            },
        }
    }
}

impl From<String> for AgentError {
    fn from(s: String) -> (r: Self) {
        AgentError::Other(s)
    }
}

impl vstd::std_specs::convert::FromSpecImpl<String> for AgentError {
    open spec fn obeys_from_spec() -> bool {
        true
    }

    open spec fn from_spec(s: String) -> Self {
        AgentError::Other(s)
    }
}

/// Errors on the way to a model.
#[derive(Debug, Clone, PartialEq, Eq)]
pub enum LLMError {
    /// The user cancelled.
    Cancelled,
    /// The service answered with an error.
    ApiError { status: u16, body: String },
    /// The request failed.
    RequestFailed { error: String },
    /// The model is not known.
    ModelNotFound { model_id: String },
    /// Every try failed.
    RetryLoopExhausted { last_error: String },
    /// The stream broke.
    StreamError { error: String },
    /// There is no client.
    HttpBuildFailed { error: String },
    /// The answer could not be read.
    ReadResponseFailed { error: String },
    /// Anything else.
    Other(String),
}

impl LLMError {
    /// The error in words.
    pub open spec fn text(self) -> Seq<char> {
        match self {
            LLMError::Cancelled => "Request cancelled by user"@,
            LLMError::ApiError { status, body } => "API error "@ + text::decimal_text(status as nat) + ": "@ + body@,
            LLMError::RequestFailed { error } => "Request failed: "@ + error@,
            LLMError::ModelNotFound { model_id } => "Model not found: '"@ + model_id@ + "'"@,
            LLMError::RetryLoopExhausted { last_error } => "Retry loop exhausted: "@ + last_error@,
            LLMError::StreamError { error } => "Stream error: "@ + error@,
            LLMError::HttpBuildFailed { error } => "Failed to build HTTP client: "@ + error@,
            LLMError::ReadResponseFailed { error } => "Failed to read response body: "@ + error@,
            LLMError::Other(s) => s@,
        }
    }

    /// The error in words.
    pub fn message(&self) -> (r: String)
        ensures
            r@ == self.text(),
    {
        match self {
            LLMError::Cancelled => {
                owned("Request cancelled by user")
            },
            LLMError::ApiError { status, body } => {
                let mut out = owned("API error ");
                out.append(decimal(*status as u64).as_str());
                out.append(": ");
                out.append(body.as_str());
                out
            },
            LLMError::RequestFailed { error } => {
                let mut out = owned("Request failed: ");
                out.append(error.as_str());
                out
            },
            LLMError::ModelNotFound { model_id } => {
                let mut out = owned("Model not found: '");
                out.append(model_id.as_str());
                out.append("'");
                out
            },
            LLMError::RetryLoopExhausted { last_error } => {
                let mut out = owned("Retry loop exhausted: ");
                out.append(last_error.as_str());
                out
            },
            LLMError::StreamError { error } => {
                let mut out = owned("Stream error: ");
                out.append(error.as_str());
                out
            },
            LLMError::HttpBuildFailed { error } => {
                let mut out = owned("Failed to build HTTP client: ");
                out.append(error.as_str());
                out
            },
            LLMError::ReadResponseFailed { error } => {
                let mut out = owned("Failed to read response body: ");
                out.append(error.as_str());
                out
            },
            LLMError::Other(s) => {
                s.clone()
            },
        }
    }
}

impl From<String> for LLMError {
    fn from(s: String) -> (r: Self) {
        LLMError::Other(s)
    }
}

impl vstd::std_specs::convert::FromSpecImpl<String> for LLMError {
    open spec fn obeys_from_spec() -> bool {
        true
    }

    open spec fn from_spec(s: String) -> Self {
        LLMError::Other(s)
    }
}

/// Errors of the database.
#[derive(Debug, Clone, PartialEq, Eq)]
pub enum StoreError {
    /// There is no connection.
    ConnectionFailed(String),
    /// A query failed.
    QueryFailed(String),
    /// The tables could not be brought up to date.
    MigrationFailed(String),
    /// A value could not be written.
    SerializationError(String),
    /// Anything else.
    Other(String),
}

/// The content of a [`StoreError`].
#[verifier::ext_equal]
pub enum StoreErrorModel {
    ConnectionFailed(Seq<char>),
    QueryFailed(Seq<char>),
    MigrationFailed(Seq<char>),
    SerializationError(Seq<char>),
    Other(Seq<char>),
}

impl View for StoreError {
    type V = StoreErrorModel;

    open spec fn view(&self) -> StoreErrorModel {
        match self {
            StoreError::ConnectionFailed(s) => StoreErrorModel::ConnectionFailed(s@),
            StoreError::QueryFailed(s) => StoreErrorModel::QueryFailed(s@),
            StoreError::MigrationFailed(s) => StoreErrorModel::MigrationFailed(s@),
            StoreError::SerializationError(s) => StoreErrorModel::SerializationError(s@),
            StoreError::Other(s) => StoreErrorModel::Other(s@),
        }
    }
}

impl StoreError {
    /// The error in words.
    pub open spec fn text(self) -> Seq<char> {
        match self {
            StoreError::ConnectionFailed(s) => "Database connection failed: "@ + s@,
            StoreError::QueryFailed(s) => "Query failed: "@ + s@,
            StoreError::MigrationFailed(s) => "Migration failed: "@ + s@,
            StoreError::SerializationError(s) => "Serialization error: "@ + s@,
            StoreError::Other(s) => s@,
        }
    }

    /// The error in words.
    pub fn message(&self) -> (r: String)
        ensures
            r@ == self.text(),
    {
        match self {
            StoreError::ConnectionFailed(s) => {
                let mut out = owned("Database connection failed: ");
                out.append(s.as_str());
                out
            },
            StoreError::QueryFailed(s) => {
                let mut out = owned("Query failed: ");
                out.append(s.as_str());
                out
            },
            StoreError::MigrationFailed(s) => {
                let mut out = owned("Migration failed: ");
                out.append(s.as_str());
                out
            },
            StoreError::SerializationError(s) => {
                let mut out = owned("Serialization error: ");
                out.append(s.as_str());
                out
            },
            StoreError::Other(s) => {
                s.clone()
            },
        }
    }
}

impl From<String> for StoreError {
    fn from(s: String) -> (r: Self) {
        StoreError::Other(s)
    }
}

impl vstd::std_specs::convert::FromSpecImpl<String> for StoreError {
    open spec fn obeys_from_spec() -> bool {
        true
    }

    open spec fn from_spec(s: String) -> Self {
        StoreError::Other(s)
    }
}

/// Any error. Those of the system, of JSON and of the desktop come with their words.
#[derive(Debug, Clone, PartialEq, Eq)]
pub enum NuphusError {
    /// The desktop refused.
    Desktop(String),
    /// An agent failed.
    Agent(AgentError),
    /// A model could not be reached.
    LLM(LLMError),
    /// The memory failed.
    Memory(String),
    /// A tool failed.
    Tool(String),
    /// The configuration is not usable.
    Config(String),
    /// The system refused.
    Io(String),
    /// JSON could not be read or written.
    Json(String),
    /// The database failed.
    Store(StoreError),
}

impl NuphusError {
    /// The error in words.
    pub open spec fn text(self) -> Seq<char> {
        match self {
            NuphusError::Desktop(s) => "Desktop error: "@ + s@,
            NuphusError::Agent(e) => "Agent error: "@ + e.text(),
            NuphusError::LLM(e) => "LLM error: "@ + e.text(),
            NuphusError::Memory(s) => "Memory error: "@ + s@,
            NuphusError::Tool(s) => "Tool error: "@ + s@,
            NuphusError::Config(s) => "Config error: "@ + s@,
            NuphusError::Io(s) => "IO error: "@ + s@,
            NuphusError::Json(s) => "JSON error: "@ + s@,
            NuphusError::Store(e) => "Store error: "@ + e.text(),
        }
    }

    /// The error in words.
    pub fn message(&self) -> (r: String)
        ensures
            r@ == self.text(),
    {
        match self {
            NuphusError::Desktop(s) => {
                let mut out = owned("Desktop error: ");
                out.append(s.as_str());
                out
            },
            NuphusError::Agent(e) => {
                let mut out = owned("Agent error: ");
                out.append(e.message().as_str());
                out
            },
            NuphusError::LLM(e) => {
                let mut out = owned("LLM error: ");
                out.append(e.message().as_str());
                out
            },
            NuphusError::Memory(s) => {
                let mut out = owned("Memory error: ");
                out.append(s.as_str());
                out
            },
            NuphusError::Tool(s) => {
                let mut out = owned("Tool error: ");
                out.append(s.as_str());
                out
            },
            NuphusError::Config(s) => {
                let mut out = owned("Config error: ");
                out.append(s.as_str());
                out
            },
            NuphusError::Io(s) => {
                let mut out = owned("IO error: ");
                out.append(s.as_str());
                out
            },
            NuphusError::Json(s) => {
                let mut out = owned("JSON error: ");
                out.append(s.as_str());
                out
            },
            NuphusError::Store(e) => {
                let mut out = owned("Store error: ");
                out.append(e.message().as_str());
                out
            },
        }
    }
}

impl From<String> for NuphusError {
    fn from(s: String) -> (r: Self) {
        NuphusError::Tool(s)
    }
}

impl vstd::std_specs::convert::FromSpecImpl<String> for NuphusError {
    open spec fn obeys_from_spec() -> bool {
        true
    }

    open spec fn from_spec(s: String) -> Self {
        NuphusError::Tool(s)
    }
}

impl NuphusError {
    /// An error of an agent that has words alone.
    pub fn agent(s: String) -> (r: Self)
        ensures
            r == NuphusError::Agent(AgentError::Other(s)),
    {
        NuphusError::Agent(AgentError::Other(s))
    }

    /// An error of a model that has words alone.
    pub fn llm(s: String) -> (r: Self)
        ensures
            r == NuphusError::LLM(LLMError::Other(s)),
    {
        NuphusError::LLM(LLMError::Other(s))
    }

    /// An error of the database that has words alone.
    pub fn store(s: String) -> (r: Self)
        ensures
            r == NuphusError::Store(StoreError::Other(s)),
    {
        NuphusError::Store(StoreError::Other(s))
    }
}

/// The outcome of what may fail.
pub type Result<T> = std::result::Result<T, NuphusError>;

} // verus!
