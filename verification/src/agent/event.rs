//! What happens during a run, as a list of events.

use vstd::prelude::*;

verus! {

/// Whether a tool call succeeded.
#[derive(Clone, Copy, Debug, PartialEq, Eq, Structural)]
pub enum ToolCallStatus {
    Success,
    Failure,
}

/// What serde_json writes for the JSON value it reads from `text`
/// (compact form), or `None` when `text` is not JSON.
pub uninterp spec fn json_compact(text: Seq<char>) -> Option<Seq<char>>;

/// A lower-case hexadecimal digit.
pub open spec fn hex_digit(d: u32) -> char {
    if d < 10 {
        (('0' as u32) + d) as char
    } else {
        (('a' as u32) + d - 10) as char
    }
}

/// How one character is written inside a JSON string: a quote and a backslash
/// behind a backslash, the five control characters that JSON names by a letter
/// by that letter, the other control characters below U+0020 as `\u00XX`, and
/// every other character as it is.
pub open spec fn json_escape_char(c: char) -> Seq<char> {
    let n = c as u32;
    if c == '"' {
        seq!['\\', '"']
    } else if c == '\\' {
        seq!['\\', '\\']
    } else if n == 0x08 {
        seq!['\\', 'b']
    } else if n == 0x09 {
        seq!['\\', 't']
    } else if n == 0x0a {
        seq!['\\', 'n']
    } else if n == 0x0c {
        seq!['\\', 'f']
    } else if n == 0x0d {
        seq!['\\', 'r']
    } else if n < 0x20 {
        seq!['\\', 'u', '0', '0', hex_digit(n / 16), hex_digit(n % 16)]
    } else {
        seq![c]
    }
}

/// The characters of `s`, each written as inside a JSON string.
pub open spec fn json_escape(s: Seq<char>) -> Seq<char>
    decreases s.len(),
{
    if s.len() == 0 {
        Seq::empty()
    } else {
        json_escape(s.drop_last()) + json_escape_char(s.last())
    }
}

/// A JSON string holding `s`: a quote, `s` escaped, a quote.
pub open spec fn json_string_literal(s: Seq<char>) -> Seq<char> {
    seq!['"'] + json_escape(s) + seq!['"']
}

/// Reads `text` as a JSON value with `serde_json::from_str::<serde_json::Value>`
/// and writes that value back with its `Display`; `None` when reading fails.
#[verifier::external_body]
fn compact_json(text: &str) -> (r: Option<String>)
    ensures
        match r {
            Some(s) => json_compact(text@) == Some(s@),
            None => json_compact(text@) is None,
        },
{
    match serde_json::from_str::<serde_json::Value>(text) {
        Ok(value) => Some(value.to_string()),
        Err(_) => None,
    }
}

/// Writes `s` as a JSON string: the `Display` of `serde_json::Value::String`,
/// which serde_json's compact formatter writes as a quote, each character
/// escaped by its escape table, and a quote.
#[verifier::external_body]
fn quote_json(s: &str) -> (r: String)
    ensures
        r@ == json_string_literal(s@),
{
    serde_json::Value::String(s.to_string()).to_string()
}

/// The arguments of a tool call as the model sent them.
#[derive(Clone, Debug)]
pub enum ToolArguments {
    /// A JSON value, kept in serde_json's compact form.
    Json(String),
    /// Text that is not JSON; it stands for a JSON string.
    Text(String),
}

/// The mathematical value of [`ToolArguments`].
pub enum ArgumentsModel {
    Json(Seq<char>),
    Text(Seq<char>),
}

impl View for ToolArguments {
    type V = ArgumentsModel;

    open spec fn view(&self) -> ArgumentsModel {
        match self {
            ToolArguments::Json(s) => ArgumentsModel::Json(s@),
            ToolArguments::Text(s) => ArgumentsModel::Text(s@),
        }
    }
}

/// How arguments are read from the text the model sent.
pub open spec fn parse_arguments_spec(text: Seq<char>) -> ArgumentsModel {
    match json_compact(text) {
        Some(compact) => ArgumentsModel::Json(compact),
        None => ArgumentsModel::Text(text),
    }
}

/// The JSON text of arguments.
pub open spec fn arguments_text(a: ArgumentsModel) -> Seq<char> {
    match a {
        ArgumentsModel::Json(s) => s,
        ArgumentsModel::Text(s) => json_string_literal(s),
    }
}

impl ToolArguments {
    /// Reads the arguments the model sent: as JSON when they are JSON, as
    /// plain text otherwise.
    pub fn parse(text: &str) -> (r: ToolArguments)
        ensures
            r@ == parse_arguments_spec(text@),
    {
        match compact_json(text) {
            Some(compact) => ToolArguments::Json(compact),
            None => ToolArguments::Text(String::from_str(text)),
        }
    }

    /// The arguments as JSON text.
    pub fn to_json_text(&self) -> (r: String)
        ensures
            r@ == arguments_text(self@),
    {
        match self {
            ToolArguments::Json(s) => s.clone(),
            ToolArguments::Text(s) => quote_json(s.as_str()),
        }
    }
}

/// One piece of an event.
#[derive(Clone, Debug)]
pub enum ContentItem {
    Message { role: String, content: String },
    ToolCall { tool_call_id: String, name: String, arguments: ToolArguments },
    ToolCallResult { tool_call_id: String, name: String, status: ToolCallStatus, content: String },
}

/// The mathematical value of a [`ContentItem`].
pub enum ContentModel {
    Message { role: Seq<char>, content: Seq<char> },
    ToolCall { tool_call_id: Seq<char>, name: Seq<char>, arguments: ArgumentsModel },
    ToolCallResult {
        tool_call_id: Seq<char>,
        name: Seq<char>,
        status: ToolCallStatus,
        content: Seq<char>,
    },
}

impl View for ContentItem {
    type V = ContentModel;

    open spec fn view(&self) -> ContentModel {
        match self {
            ContentItem::Message { role, content } => ContentModel::Message {
                role: role@,
                content: content@,
            },
            ContentItem::ToolCall { tool_call_id, name, arguments } => ContentModel::ToolCall {
                tool_call_id: tool_call_id@,
                name: name@,
                arguments: arguments@,
            },
            ContentItem::ToolCallResult { tool_call_id, name, status, content } =>
                ContentModel::ToolCallResult {
                tool_call_id: tool_call_id@,
                name: name@,
                status: *status,
                content: content@,
            },
        }
    }
}

/// Something that happened during a run, with who caused it.
#[derive(Clone, Debug)]
pub struct Event {
    pub id: String,
    /// The id of the run this event belongs to.
    pub execution_id: String,
    pub content: Vec<ContentItem>,
    pub timestamp: i64,
    pub author: String,
}

/// The mathematical value of an [`Event`].
pub struct EventModel {
    pub id: Seq<char>,
    pub execution_id: Seq<char>,
    pub content: Seq<ContentModel>,
    pub timestamp: i64,
    pub author: Seq<char>,
}

impl View for Event {
    type V = EventModel;

    open spec fn view(&self) -> EventModel {
        EventModel {
            id: self.id@,
            execution_id: self.execution_id@,
            content: self.content@.map_values(|c: ContentItem| c@),
            timestamp: self.timestamp,
            author: self.author@,
        }
    }
}

/// A fresh random id: `uuid::Uuid::new_v4` written in its hyphenated form,
/// which is 36 characters long.
#[verifier::external_body]
pub(crate) fn fresh_id() -> (s: String)
    ensures
        s@.len() == 36,
{
    uuid::Uuid::new_v4().to_string()
}

/// The current time in seconds since the Unix epoch: `chrono::Utc::now().timestamp()`.
/// Nothing is stated of the value, which depends on the clock.
#[verifier::external_body]
fn current_timestamp() -> i64 {
    chrono::Utc::now().timestamp()
}

impl Event {
    /// A new event with a fresh id, stamped with the current time.
    pub fn new(execution_id: String, author: String, content: Vec<ContentItem>) -> (e: Event)
        ensures
            e.execution_id == execution_id,
            e.author == author,
            e.content == content,
            e.id@.len() == 36,
    {
        Event {
            id: fresh_id(),
            execution_id,
            content,
            timestamp: current_timestamp(),
            author,
        }
    }
}

} // verus!
