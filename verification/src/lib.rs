//! Verified core of a small LLM agent: permission bookkeeping for tool calls,
//! conversation building, tool-result shaping and the calculator tool.

pub mod agent;
pub mod llm;
pub mod modals;
pub mod permission;
pub mod tools;
pub mod text;
