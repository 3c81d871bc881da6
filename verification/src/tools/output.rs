use vstd::prelude::*;

verus! {

/// Prefix of the text reported when a tool returns an error.
pub const TOOL_EXECUTE_FAILURE: &'static str = "tool execute failure";

/// Text reported when a tool does not finish in time.
pub const TOOL_EXECUTE_TIMEOUT: &'static str = "tool execute timeout";

} // verus!
