//! What is asked of the server about the runs.

use vstd::prelude::*;
use crate::client::graphql::{fields_of_event, fields_of_run, run_event_fields, run_fields};
use crate::text::{join3, signed_decimal, signed_text};

verus! {

/// The question whether the server is well.
pub fn health() -> (text: String)
    ensures
        text@ == "query { health }"@,
{
    "query { health }".to_string()
}

/// The question for the last `limit` runs.
pub fn runs(limit: i32) -> (text: String)
    ensures
        text@ == "query { runs(limit: "@ + signed_text(limit as int) + ") { "@ + run_fields() + " } }"@,
{
    let text = join3("query { runs(limit: ", signed_decimal(limit as i64).as_str(), ") { ");
    join3(text.as_str(), fields_of_run(), " } }")
}

/// The question for the run `id`.
pub fn run(id: &str) -> (text: String)
    ensures
        text@ == "query { run(id: \""@ + id@ + "\") { "@ + run_fields() + " } }"@,
{
    let text = join3("query { run(id: \"", id, "\") { ");
    join3(text.as_str(), fields_of_run(), " } }")
}

/// The question for the events of the run `run_id`.
pub fn run_events(run_id: &str) -> (text: String)
    ensures
        text@ == "query { runEvents(runId: \""@ + run_id@ + "\") { "@ + run_event_fields() + " } }"@,
{
    let text = join3("query { runEvents(runId: \"", run_id, "\") { ");
    join3(text.as_str(), fields_of_event(), " } }")
}

} // verus!
