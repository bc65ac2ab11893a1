//! What the engine and its tools say to the server that keeps the runs:
//! the texts of the requests, and the shapes of the answers.

use vstd::prelude::*;

pub mod graphql;

verus! {

/// A run as the server shows it.
#[derive(Debug, Clone)]
pub struct Run {
    pub id: String,
    pub status: String,
    pub workflows_dir: String,
    pub started_at: String,
    pub completed_at: Option<String>,
    pub event_count: i32,
    pub is_paused: bool,
    pub paused_at: Option<String>,
    pub current_workflow: Option<String>,
    pub current_job: Option<String>,
    pub current_step: Option<i32>,
}

/// An event of a run as the server shows it.
#[derive(Debug, Clone)]
pub struct RunEventResponse {
    pub event_type: String,
    pub run_id: String,
    pub timestamp: String,
    pub workflow_name: Option<String>,
    pub job_name: Option<String>,
    pub step_index: Option<i32>,
    pub step_name: Option<String>,
    pub success: Option<bool>,
    pub error: Option<String>,
    pub reason: Option<String>,
}

/// An error in an answer of the server.
#[derive(Debug)]
pub struct GraphQLError {
    pub message: String,
}

/// An answer of the server: the data, or the errors.
#[derive(Debug)]
pub struct GraphQLResponse<T> {
    pub data: Option<T>,
    pub errors: Option<Vec<GraphQLError>>,
}

} // verus!
