use crate::modals::permission_input::PermissionMode;
use vstd::prelude::*;

verus! {

/// Limits and timeouts that govern an agent run (timeouts in seconds).
#[derive(Clone, Copy, Debug, PartialEq, Eq, Structural)]
pub struct AgentConfig {
    pub agent_max_steps: usize,
    pub agent_execute_timeout: u64,
    pub agent_execute_retry_count: usize,
    pub tool_execute_timeout: u64,
    pub tool_callback_execute_timeout: u64,
    pub permission_timeout: u64,
    pub permission_mode: PermissionMode,
}

/// Default number of model rounds an agent may take.
pub fn agent_max_steps() -> (n: usize)
    ensures
        n == 10,
{
    10
}

/// Default time allowed for one model call.
pub fn agent_execute_timeout() -> (n: u64)
    ensures
        n == 30,
{
    30
}

/// Default time allowed for one tool run.
pub fn tool_execute_timeout() -> (n: u64)
    ensures
        n == 15,
{
    15
}

/// Default time allowed for a tool's before/after hook.
pub fn tool_callback_execute_timeout() -> (n: u64)
    ensures
        n == 5,
{
    5
}

/// Default number of retries of a failed model call.
pub fn agent_execute_retry_count() -> (n: usize)
    ensures
        n == 3,
{
    3
}

/// Default time allowed for a permission answer.
pub fn permission_timeout() -> (n: u64)
    ensures
        n == 5,
{
    5
}

/// Default permission mode.
pub fn permission_mode() -> (m: PermissionMode)
    ensures
        m == PermissionMode::Interactive,
{
    PermissionMode::default()
}

/// The configuration used when none is given.
pub open spec fn default_config() -> AgentConfig {
    AgentConfig {
        agent_max_steps: 10,
        agent_execute_timeout: 30,
        agent_execute_retry_count: 3,
        tool_execute_timeout: 15,
        tool_callback_execute_timeout: 5,
        permission_timeout: 5,
        permission_mode: PermissionMode::Interactive,
    }
}

impl Default for AgentConfig {
    fn default() -> (c: Self)
        ensures
            c == default_config(),
    {
        AgentConfig {
            agent_max_steps: agent_max_steps(),
            agent_execute_timeout: agent_execute_timeout(),
            agent_execute_retry_count: agent_execute_retry_count(),
            tool_execute_timeout: tool_execute_timeout(),
            tool_callback_execute_timeout: tool_callback_execute_timeout(),
            permission_timeout: permission_timeout(),
            permission_mode: permission_mode(),
        }
    }
}

} // verus!
