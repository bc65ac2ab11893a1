//! What the server is told to do.

use vstd::prelude::*;
use crate::text::join3;

verus! {

/// Makes a run known to the server.
pub fn register_run(
    run_id: &str,
    workflows_dir: &str,
    started_at: &str,
    agent_token: &str,
) -> (text: String)
    ensures
        text@ == "mutation {\n                registerRun(input: {\n                    runId: \""@ + run_id@ + "\"\n                    workflowsDir: \""@ + workflows_dir@ + "\"\n                    startedAt: \""@ + started_at@ + "\"\n                    agentToken: \""@ + agent_token@ + "\"\n                }) {\n                    id\n                    status\n                }\n            }"@,
{
    let text = join3("mutation {\n                registerRun(input: {\n                    runId: \"", run_id, "\"\n                    workflowsDir: \"");
    let text = join3(text.as_str(), workflows_dir, "\"\n                    startedAt: \"");
    let text = join3(text.as_str(), started_at, "\"\n                    agentToken: \"");
    join3(text.as_str(), agent_token, "\"\n                }) {\n                    id\n                    status\n                }\n            }")
}

/// How a truth value is written.
pub open spec fn truth_text(b: bool) -> Seq<char> {
    if b {
        "true"@
    } else {
        "false"@
    }
}

/// Tells the server that a run has ended, and how.
pub fn complete_run(run_id: &str, success: bool, completed_at: &str) -> (text: String)
    ensures
        text@ == "mutation {\n                completeRun(input: {\n                    runId: \""@ + run_id@ + "\"\n                    success: "@ + truth_text(success) + "\n                    completedAt: \""@ + completed_at@ + "\"\n                })\n            }"@,
{
    let text = join3("mutation {\n                completeRun(input: {\n                    runId: \"", run_id, "\"\n                    success: ");
    let word = if success {
        "true"
    } else {
        "false"
    };
    let text = join3(text.as_str(), word, "\n                    completedAt: \"");
    join3(text.as_str(), completed_at, "\"\n                })\n            }")
}

/// Hands events, written as JSON, to the server.
pub fn report_events(events_json: &str) -> (text: String)
    ensures
        text@ == "mutation {\n                reportEvents(events: "@ + events_json@ + ")\n            }"@,
{
    join3("mutation {\n                reportEvents(events: ", events_json, ")\n            }")
}

/// Tells the server to stop the run `run_id`.
pub fn stop_run(run_id: &str) -> (text: String)
    ensures
        text@ == "mutation { stopRun(runId: \""@ + run_id@ + "\") }"@,
{
    join3("mutation { stopRun(runId: \"", run_id, "\") }")
}

/// Tells the server to hold the run `run_id`.
pub fn pause_run(run_id: &str) -> (text: String)
    ensures
        text@ == "mutation { pauseRun(runId: \""@ + run_id@ + "\") }"@,
{
    join3("mutation { pauseRun(runId: \"", run_id, "\") }")
}

/// Tells the server to let the run `run_id` go on.
pub fn resume_run(run_id: &str) -> (text: String)
    ensures
        text@ == "mutation { resumeRun(runId: \""@ + run_id@ + "\") }"@,
{
    join3("mutation { resumeRun(runId: \"", run_id, "\") }")
}

/// Tells the server to give the run `run_id` up.
pub fn cancel_run(run_id: &str) -> (text: String)
    ensures
        text@ == "mutation { cancelRun(runId: \""@ + run_id@ + "\") }"@,
{
    join3("mutation { cancelRun(runId: \"", run_id, "\") }")
}

} // verus!
