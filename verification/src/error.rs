//! What can go wrong, and how each error reads.

use vstd::prelude::*;
use crate::text::{decimal, decimal_text, join2, join3, texts};

verus! {

/// Errors of expression evaluation.
#[derive(Debug, Clone)]
pub enum ExpressionError {
    /// A reference to a name that holds nothing.
    UnknownVariable(String),
    /// An expression of a shape that the grammar does not have.
    InvalidSyntax(String),
    /// A reference to the run's identity where it is not known.
    MissingContext(String),
}

/// What an [`ExpressionError`] holds.
pub enum ExpressionFault {
    UnknownVariable(Seq<char>),
    InvalidSyntax(Seq<char>),
    MissingContext(Seq<char>),
}

impl View for ExpressionError {
    type V = ExpressionFault;

    open spec fn view(&self) -> ExpressionFault {
        match self {
            ExpressionError::UnknownVariable(s) => ExpressionFault::UnknownVariable(s@),
            ExpressionError::InvalidSyntax(s) => ExpressionFault::InvalidSyntax(s@),
            ExpressionError::MissingContext(s) => ExpressionFault::MissingContext(s@),
        }
    }
}

impl ExpressionError {
    /// How the error reads.
    pub open spec fn text(&self) -> Seq<char> {
        match self {
            ExpressionError::UnknownVariable(s) => "Unknown variable: "@ + s@,
            ExpressionError::InvalidSyntax(s) => "Invalid expression syntax: "@ + s@,
            ExpressionError::MissingContext(s) => "Missing context: "@ + s@,
        }
    }

    /// How the error reads.
    pub fn message(&self) -> (s: String)
        ensures
            s@ == self.text(),
    {
        match self {
            ExpressionError::UnknownVariable(s) => join2("Unknown variable: ", s.as_str()),
            ExpressionError::InvalidSyntax(s) => join2("Invalid expression syntax: ", s.as_str()),
            ExpressionError::MissingContext(s) => join2("Missing context: ", s.as_str()),
        }
    }
}

/// Errors of a bridge to a platform.
#[derive(Debug, Clone)]
pub enum BridgeError {
    StartupFailed(String),
    Disconnected,
    Timeout,
    ServerError(String),
    SerializationError(String),
    IoError(String),
    UnsupportedAction(String),
    HttpError { status: u16, message: String },
    DatabaseError(String),
    AssertionFailed(String),
    ConfigError(String),
}

impl BridgeError {
    /// How the error reads.
    pub open spec fn text(&self) -> Seq<char> {
        match self {
            BridgeError::StartupFailed(s) => "Failed to start server: "@ + s@,
            BridgeError::Disconnected => "Server disconnected"@,
            BridgeError::Timeout => "Request timed out"@,
            BridgeError::ServerError(s) => "Server error: "@ + s@,
            BridgeError::SerializationError(s) => "Serialization error: "@ + s@,
            BridgeError::IoError(s) => "IO error: "@ + s@,
            BridgeError::UnsupportedAction(s) => "Unsupported action: "@ + s@,
            BridgeError::HttpError { status, message } => "HTTP error: "@ + decimal_text(
                *status as nat,
            ) + " - "@ + message@,
            BridgeError::DatabaseError(s) => "Database error: "@ + s@,
            BridgeError::AssertionFailed(s) => "Assertion failed: "@ + s@,
            BridgeError::ConfigError(s) => "Configuration error: "@ + s@,
        }
    }

    /// How the error reads.
    pub fn message(&self) -> (s: String)
        ensures
            s@ == self.text(),
    {
        match self {
            BridgeError::StartupFailed(s) => join2("Failed to start server: ", s.as_str()),
            BridgeError::Disconnected => "Server disconnected".to_string(),
            BridgeError::Timeout => "Request timed out".to_string(),
            BridgeError::ServerError(s) => join2("Server error: ", s.as_str()),
            BridgeError::SerializationError(s) => join2("Serialization error: ", s.as_str()),
            BridgeError::IoError(s) => join2("IO error: ", s.as_str()),
            BridgeError::UnsupportedAction(s) => join2("Unsupported action: ", s.as_str()),
            BridgeError::HttpError { status, message } => {
                let code = decimal(*status as u64);
                let head = join3("HTTP error: ", code.as_str(), " - ");
                join2(head.as_str(), message.as_str())
            },
            BridgeError::DatabaseError(s) => join2("Database error: ", s.as_str()),
            BridgeError::AssertionFailed(s) => join2("Assertion failed: ", s.as_str()),
            BridgeError::ConfigError(s) => join2("Configuration error: ", s.as_str()),
        }
    }
}

/// How a list of strings reads when it is printed for debugging.
pub uninterp spec fn debug_list_text(names: Seq<Seq<char>>) -> Seq<char>;

/// The standard library's debug formatting of a list of strings: the
/// result depends on the strings alone.
#[verifier::external_body]
fn debug_list(names: &Vec<String>) -> (s: String)
    ensures
        s@ == debug_list_text(texts(names@)),
{
    format!("{:?}", names)
}

/// Errors of a workflow run.
#[derive(Debug, Clone)]
pub enum ExecutorError {
    /// A workflow text that is no workflow; holds what the reader said.
    ParseError(String),
    ExpressionError(ExpressionError),
    BridgeError(BridgeError),
    /// A job needs a job that the workflow does not have.
    JobNotFound(String),
    /// The needs of the jobs run in a circle; holds the way round.
    CircularDependency(Vec<String>),
    UnknownAction(String),
    MissingParameter(String),
    InvalidParameter(String),
    StepFailed(String),
    JobFailed(String),
    AssertionFailed(String),
    PlatformMismatch(String),
    ConfigError(String),
}

impl ExecutorError {
    /// How the error reads.
    pub open spec fn text(&self) -> Seq<char> {
        match self {
            ExecutorError::ParseError(s) => "Parse error: "@ + s@,
            ExecutorError::ExpressionError(e) => "Expression error: "@ + e.text(),
            ExecutorError::BridgeError(e) => "Bridge error: "@ + e.text(),
            ExecutorError::JobNotFound(s) => "Job not found: "@ + s@,
            ExecutorError::CircularDependency(path) => "Circular dependency detected: "@
                + debug_list_text(texts(path@)),
            ExecutorError::UnknownAction(s) => "Unknown action: "@ + s@,
            ExecutorError::MissingParameter(s) => "Missing required parameter: "@ + s@,
            ExecutorError::InvalidParameter(s) => "Invalid parameter: "@ + s@,
            ExecutorError::StepFailed(s) => "Step failed: "@ + s@,
            ExecutorError::JobFailed(s) => "Job failed: "@ + s@,
            ExecutorError::AssertionFailed(s) => "Assertion failed: "@ + s@,
            ExecutorError::PlatformMismatch(s) => "Platform mismatch: "@ + s@,
            ExecutorError::ConfigError(s) => "Configuration error: "@ + s@,
        }
    }

    /// How the error reads.
    pub fn message(&self) -> (s: String)
        ensures
            s@ == self.text(),
    {
        match self {
            ExecutorError::ParseError(s) => join2("Parse error: ", s.as_str()),
            ExecutorError::ExpressionError(e) => {
                let inner = e.message();
                join2("Expression error: ", inner.as_str())
            },
            ExecutorError::BridgeError(e) => {
                let inner = e.message();
                join2("Bridge error: ", inner.as_str())
            },
            ExecutorError::JobNotFound(s) => join2("Job not found: ", s.as_str()),
            ExecutorError::CircularDependency(path) => {
                let way = debug_list(path);
                join2("Circular dependency detected: ", way.as_str())
            },
            ExecutorError::UnknownAction(s) => join2("Unknown action: ", s.as_str()),
            ExecutorError::MissingParameter(s) => join2("Missing required parameter: ", s.as_str()),
            ExecutorError::InvalidParameter(s) => join2("Invalid parameter: ", s.as_str()),
            ExecutorError::StepFailed(s) => join2("Step failed: ", s.as_str()),
            ExecutorError::JobFailed(s) => join2("Job failed: ", s.as_str()),
            ExecutorError::AssertionFailed(s) => join2("Assertion failed: ", s.as_str()),
            ExecutorError::PlatformMismatch(s) => join2("Platform mismatch: ", s.as_str()),
            ExecutorError::ConfigError(s) => join2("Configuration error: ", s.as_str()),
        }
    }
}

} // verus!
