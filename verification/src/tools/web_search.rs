//! The decisions of the web search tool; the search itself is an outside call.

use crate::agent::event::ToolCallStatus;
use crate::modals::permission_input::PermissionResult;
use crate::modals::web_search::Topic;
use crate::text::{join, seq_join, str_eq};
use crate::tools::tool::outcome_view;
use vstd::prelude::*;

verus! {

/// Results at least this many characters long are cut down by vector search.
pub const COMPRESS_THRESHOLD: usize = 500;

/// Size of the chunks a long result is cut into.
pub const CHUNK_SIZE: usize = 100;

/// Overlap of neighbouring chunks.
pub const CHUNK_OVERLAP: usize = 50;

/// Number of chunks kept.
pub const TOP_K: usize = 3;

/// The web search tool.
pub struct WebSearch;

impl WebSearch {
    pub fn name(&self) -> (s: &'static str)
        ensures
            s@ == "web_search"@,
    {
        "web_search"
    }

    pub fn description(&self) -> (s: &'static str)
        ensures
            s@ == "网络搜索大模型未知的信息"@,
    {
        "网络搜索大模型未知的信息"
    }
}

/// The topic as the search service names it.
pub fn topic_name(topic: Topic) -> (s: &'static str)
    ensures
        s@ == match topic {
            Topic::General => "general"@,
            Topic::News => "news"@,
            Topic::Finance => "finance"@,
        },
{
    match topic {
        Topic::General => "general",
        Topic::News => "news",
        Topic::Finance => "finance",
    }
}

/// Whether the search's before hook asks for permission: only for calls of
/// the web search tool itself.
pub fn asks_permission(tool_name: &str) -> (b: bool)
    ensures
        b == (tool_name@ == "web_search"@),
{
    str_eq(tool_name, "web_search")
}

/// What the permission answer means for a search: a grant lets it run
/// (`None`); a denial, a timeout or unreadable input stops it with a failure
/// and a message for the model.
pub fn permission_outcome(result: PermissionResult) -> (r: Option<(ToolCallStatus, String)>)
    ensures
        outcome_view(r) == match result {
            PermissionResult::GrantedOnce | PermissionResult::GrantedAlways => None,
            PermissionResult::Denied => Some((ToolCallStatus::Failure, "用户拒绝"@)),
            PermissionResult::Timeout => Some((ToolCallStatus::Failure, "等待用户授权超时"@)),
            PermissionResult::NoInput => Some((ToolCallStatus::Failure, "用户输入无法识别，视为未授权"@)),
        },
{
    match result {
        PermissionResult::GrantedOnce | PermissionResult::GrantedAlways => None,
        PermissionResult::Denied => Some((ToolCallStatus::Failure, String::from_str("用户拒绝"))),
        PermissionResult::Timeout => Some((ToolCallStatus::Failure, String::from_str("等待用户授权超时"))),
        PermissionResult::NoInput => Some(
            (ToolCallStatus::Failure, String::from_str("用户输入无法识别，视为未授权")),
        ),
    }
}

/// Whether a search result is long enough (in characters) to be cut down.
pub fn needs_compression(result: &str) -> (b: bool)
    ensures
        b == (result@.len() >= COMPRESS_THRESHOLD),
{
    result.unicode_len() >= COMPRESS_THRESHOLD
}

/// What a long search result is handed on as: the chunks that the vector
/// search found, joined by a blank line, or the result unchanged when there
/// is nothing found (`None`: the request could not be read, or the search
/// failed).
pub fn compressed_text(result: String, found: Option<Vec<String>>) -> (r: String)
    ensures
        r@ == match found {
            Some(chunks) => seq_join(chunks@.map_values(|c: String| c@), "\n\n"@),
            None => result@,
        },
{
    match found {
        Some(chunks) => join(&chunks, "\n\n"),
        None => result,
    }
}

} // verus!
