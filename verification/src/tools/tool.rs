//! How a tool run is turned into a status and a text. The caller runs the
//! tool and its hooks under their time limits; these functions decide what the
//! outcomes mean.

use crate::agent::event::ToolCallStatus;
use crate::tools::output::{TOOL_EXECUTE_FAILURE, TOOL_EXECUTE_TIMEOUT};
use vstd::prelude::*;

verus! {

/// Text of the result when a tool's before hook does not finish in time.
pub const BEFORE_CALLBACK_TIMEOUT: &'static str = "tool before_callback execute timeout";

pub open spec fn outcome_view(o: Option<(ToolCallStatus, String)>) -> Option<(ToolCallStatus, Seq<char>)> {
    match o {
        Some((status, text)) => Some((status, text@)),
        None => None,
    }
}

/// The outcome of a tool's before hook. `hook` is `None` when the hook did not
/// finish in time, which stops the call as a failure; otherwise the hook's own
/// answer: `Some` stops the call with that result, `None` lets it run.
pub fn before_execute(hook: Option<Option<(ToolCallStatus, String)>>) -> (r: Option<(ToolCallStatus, String)>)
    ensures
        match hook {
            None => outcome_view(r) == Some((ToolCallStatus::Failure, BEFORE_CALLBACK_TIMEOUT@)),
            Some(answer) => outcome_view(r) == outcome_view(answer),
        },
{
    match hook {
        None => Some((ToolCallStatus::Failure, String::from_str(BEFORE_CALLBACK_TIMEOUT))),
        Some(answer) => answer,
    }
}

/// The text kept after a tool's after hook: the hook's text, or the tool's own
/// result when the hook did not finish in time (`hook` is `None`).
pub fn after_execute(result: String, hook: Option<String>) -> (r: String)
    ensures
        r@ == match hook {
            Some(text) => text@,
            None => result@,
        },
{
    match hook {
        Some(text) => text,
        None => result,
    }
}

/// How far a tool call got before its time ran out.
pub enum ToolRun {
    /// The before hook stopped the call with this result.
    Stopped(ToolCallStatus, String),
    /// The tool failed with this error text.
    Failed(String),
    /// The tool succeeded; this is its result after the after hook.
    Succeeded(String),
}

/// The status and text recorded for a tool call; `run` is `None` when the whole
/// call did not finish in time.
pub open spec fn tool_outcome_spec(run: Option<ToolRun>) -> (ToolCallStatus, Seq<char>) {
    match run {
        None => (ToolCallStatus::Failure, TOOL_EXECUTE_TIMEOUT@),
        Some(ToolRun::Stopped(status, text)) => (status, text@),
        Some(ToolRun::Failed(error)) => (ToolCallStatus::Failure, TOOL_EXECUTE_FAILURE@ + ": "@ + error@),
        Some(ToolRun::Succeeded(text)) => (ToolCallStatus::Success, text@),
    }
}

/// The status and text recorded for a tool call (see [`tool_outcome_spec`]).
pub fn tool_outcome(run: Option<ToolRun>) -> (r: (ToolCallStatus, String))
    ensures
        (r.0, r.1@) == tool_outcome_spec(run),
{
    match run {
        None => (ToolCallStatus::Failure, String::from_str(TOOL_EXECUTE_TIMEOUT)),
        Some(ToolRun::Stopped(status, text)) => (status, text),
        Some(ToolRun::Failed(error)) => {
            let mut text = String::from_str(TOOL_EXECUTE_FAILURE);
            text.append(": ");
            text.append(error.as_str());
            (ToolCallStatus::Failure, text)
        },
        Some(ToolRun::Succeeded(text)) => (ToolCallStatus::Success, text),
    }
}

} // verus!
