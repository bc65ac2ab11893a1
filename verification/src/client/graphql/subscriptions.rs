//! What the server is asked to send as it happens.

use vstd::prelude::*;
use crate::client::graphql::{fields_of_event, run_event_fields};
use crate::text::join3;

verus! {

/// Asks for the events of the run `run_id` as they come.
pub fn events_for_run(run_id: &str) -> (text: String)
    ensures
        text@ == "subscription { eventsForRun(runId: \""@ + run_id@ + "\") { "@ + run_event_fields() + " } }"@,
{
    let text = join3("subscription { eventsForRun(runId: \"", run_id, "\") { ");
    join3(text.as_str(), fields_of_event(), " } }")
}

/// Asks for the commands to the run `run_id` as they come.
pub fn commands_for_run(run_id: &str) -> (text: String)
    ensures
        text@ == "subscription { commandsForRun(runId: \""@ + run_id@ + "\") { commandType runId timestamp agentToken } }"@,
{
    join3("subscription { commandsForRun(runId: \"", run_id, "\") { commandType runId timestamp agentToken } }")
}

} // verus!
