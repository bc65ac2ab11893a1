//! Outcomes of steps, jobs and workflows.

use vstd::prelude::*;
use crate::json::JsonValue;
use crate::namemap::NameMap;

verus! {

/// Response of an HTTP request.
#[derive(Debug, Clone)]
pub struct ApiResponse {
    pub status: u16,
    pub headers: NameMap<String>,
    pub body: JsonValue,
}

/// Outcome of one step.
#[derive(Debug, Clone)]
pub struct StepResult {
    pub success: bool,
    pub outputs: NameMap<String>,
    pub error: Option<String>,
    pub response: Option<ApiResponse>,
}

impl Default for StepResult {
    fn default() -> (r: Self)
        ensures
            r.success,
            r.outputs@ == Map::<Seq<char>, String>::empty(),
            r.error is None,
            r.response is None,
    {
        StepResult { success: true, outputs: NameMap::new(), error: None, response: None }
    }
}

/// Outcome of one job.
#[derive(Debug, Clone)]
pub struct JobResult {
    pub success: bool,
    pub outputs: NameMap<String>,
    pub steps: Vec<StepResult>,
}

/// Outcome of one workflow run.
#[derive(Debug, Clone)]
pub struct WorkflowResult {
    pub success: bool,
    pub jobs: NameMap<JobResult>,
    pub run_id: String,
}

} // verus!
