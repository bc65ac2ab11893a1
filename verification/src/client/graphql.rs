//! The addresses of the server, and the texts of what is asked of it.

use vstd::prelude::*;
use crate::text::{is_word, join2, replace_all, replaced, to_chars, upper_case, upper_text};

pub mod mutations;
pub mod queries;
pub mod subscriptions;

verus! {

/// The fields of a run that are asked for.
pub open spec fn run_fields() -> Seq<char> {
    "id\n    status\n    workflowsDir\n    startedAt\n    completedAt\n    eventCount\n    isPaused\n    pausedAt\n    currentWorkflow\n    currentJob\n    currentStep"@
}

/// The fields of an event that are asked for.
pub open spec fn run_event_fields() -> Seq<char> {
    "eventType\n    runId\n    timestamp\n    workflowName\n    jobName\n    stepIndex\n    stepName\n    success\n    error\n    reason"@
}

/// The fields of a run that are asked for.
pub fn fields_of_run() -> (s: &'static str)
    ensures
        s@ == run_fields(),
{
    "id\n    status\n    workflowsDir\n    startedAt\n    completedAt\n    eventCount\n    isPaused\n    pausedAt\n    currentWorkflow\n    currentJob\n    currentStep"
}

/// The fields of an event that are asked for.
pub fn fields_of_event() -> (s: &'static str)
    ensures
        s@ == run_event_fields(),
{
    "eventType\n    runId\n    timestamp\n    workflowName\n    jobName\n    stepIndex\n    stepName\n    success\n    error\n    reason"
}

/// The address of the server for requests.
pub fn graphql_url(server_url: &str) -> (url: String)
    ensures
        url@ == server_url@ + "/graphql"@,
{
    join2(server_url, "/graphql")
}

/// The address of the server for subscriptions, as text.
pub open spec fn ws_url_text(server_url: Seq<char>) -> Seq<char> {
    replaced(replaced(server_url, "http://"@, "ws://"@, 0), "https://"@, "wss://"@, 0)
        + "/graphql/ws"@
}

/// The address of the server for subscriptions: that of the server with
/// `ws` in place of `http` and `wss` in place of `https`, and the path
/// of the subscriptions behind it.
pub fn ws_url(server_url: &str) -> (url: String)
    ensures
        url@ == ws_url_text(server_url@),
{
    let plain = replace_all(server_url, "http://", "ws://");
    let secure = replace_all(plain.as_str(), "https://", "wss://");
    join2(secure.as_str(), "/graphql/ws")
}

/// The sign of the status whose name reads `upper` in upper case.
pub open spec fn icon_given(upper: Seq<char>) -> Seq<char> {
    if upper == "SUCCESS"@ {
        "\u{2713}"@
    } else if upper == "FAILED"@ {
        "\u{2717}"@
    } else if upper == "RUNNING"@ {
        "\u{25cf}"@
    } else if upper == "PAUSED"@ {
        "\u{23f8}"@
    } else if upper == "PENDING"@ {
        "\u{25cb}"@
    } else if upper == "CANCELLED"@ {
        "\u{2298}"@
    } else if upper == "SKIPPED"@ {
        "\u{2296}"@
    } else {
        "?"@
    }
}

/// The sign of a status whose name reads `upper` in upper case.
pub fn icon_from(upper: &str) -> (icon: &'static str)
    ensures
        icon@ == icon_given(upper@),
{
    let upper = to_chars(upper);
    if is_word(&upper, "SUCCESS") {
        "\u{2713}"
    } else if is_word(&upper, "FAILED") {
        "\u{2717}"
    } else if is_word(&upper, "RUNNING") {
        "\u{25cf}"
    } else if is_word(&upper, "PAUSED") {
        "\u{23f8}"
    } else if is_word(&upper, "PENDING") {
        "\u{25cb}"
    } else if is_word(&upper, "CANCELLED") {
        "\u{2298}"
    } else if is_word(&upper, "SKIPPED") {
        "\u{2296}"
    } else {
        "?"
    }
}

/// The sign of the status `status`, in any mix of upper and lower case;
/// a question mark for a status that is not known.
pub fn status_icon(status: &str) -> (icon: &'static str)
    ensures
        icon@ == icon_given(upper_text(status@)),
{
    let upper = upper_case(status);
    icon_from(upper.as_str())
}

} // verus!
