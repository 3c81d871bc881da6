use vstd::prelude::*;

verus! {

/// Error text when the model answers with neither text nor tool calls.
pub const NOT_OUTPUT: &'static str = "model returned no output";

/// Error text when a model call does not finish in time.
pub const TIMEOUT: &'static str = "model call timeout";

/// Output of a run that used up its steps.
pub const OUT_MAX_STEPS: &'static str = "agent stopped: max steps reached";

/// Prefix of the result of a call to a tool that is not bound.
pub const TOOL_NOT_FOUND: &'static str = "tool not found";

} // verus!
