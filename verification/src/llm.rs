//! The computing part of one-off model calls: the opening conversation, and
//! the text returned to the model for a tool call.

use crate::agent::runtime::{
    messages_view, ChatMessage, FunctionCall, MessageModel, ResponseMessage, ResponseToolCall,
    ToolCallKind, ToolCallMessage, ToolCallMessageModel,
};
use vstd::prelude::*;

verus! {

/// The opening conversation: the system instruction, if any, then the prompt.
pub open spec fn opening_spec(system: Option<Seq<char>>, prompt: Seq<char>) -> Seq<MessageModel> {
    match system {
        Some(s) => seq![MessageModel::System(s), MessageModel::User(prompt)],
        None => seq![MessageModel::User(prompt)],
    }
}

/// The opening conversation ends with the user's prompt, sent as it is in a
/// user message; before it stands the system instruction when there is one,
/// and nothing else.
pub proof fn lemma_opening_ends_with_prompt(system: Option<Seq<char>>, prompt: Seq<char>)
    ensures
        opening_spec(system, prompt).len() >= 1,
        opening_spec(system, prompt).last() == MessageModel::User(prompt),
        system is None ==> opening_spec(system, prompt).len() == 1,
        system matches Some(s) ==> opening_spec(system, prompt).len() == 2
            && opening_spec(system, prompt)[0] == MessageModel::System(s),
{
}

/// Builds the opening conversation of a model call.
pub fn opening_messages(system: Option<&str>, prompt: &str) -> (r: Vec<ChatMessage>)
    ensures
        r@.len() >= 1,
        messages_view(r@).last() == MessageModel::User(prompt@),
        system is None ==> messages_view(r@) == seq![MessageModel::User(prompt@)],
        system matches Some(s) ==> messages_view(r@) == seq![MessageModel::System(s@), MessageModel::User(prompt@)],
        messages_view(r@) == opening_spec(
            match system {
                Some(s) => Some(s@),
                None => None,
            },
            prompt@,
        ),
{
    let mut messages: Vec<ChatMessage> = Vec::new();
    if let Some(s) = system {
        messages.push(ChatMessage::System { content: String::from_str(s) });
    }
    messages.push(ChatMessage::User { content: String::from_str(prompt) });
    assert(messages_view(messages@) =~= opening_spec(
        match system {
            Some(s) => Some(s@),
            None => None,
        },
        prompt@,
    ));
    messages
}

pub open spec fn outcome_text_view(outcome: Option<Result<String, String>>) -> Option<Result<Seq<char>, Seq<char>>> {
    match outcome {
        None => None,
        Some(Ok(text)) => Some(Ok(text@)),
        Some(Err(error)) => Some(Err(error@)),
    }
}

/// The text sent back to the model for a tool call: the tool's result, a
/// failure notice with the error, or a notice that no tool has that name
/// (`outcome` is `None`).
pub open spec fn tool_reply_spec(name: Seq<char>, outcome: Option<Result<Seq<char>, Seq<char>>>) -> Seq<char> {
    match outcome {
        None => "没有找到指定工具"@ + name,
        Some(Ok(text)) => text,
        Some(Err(error)) => "执行工具调用失败："@ + error,
    }
}

/// The text sent back to the model for a tool call (see [`tool_reply_spec`]).
pub fn tool_reply(name: &str, outcome: Option<Result<String, String>>) -> (r: String)
    ensures
        r@ == tool_reply_spec(name@, outcome_text_view(outcome)),
{
    match outcome {
        None => {
            let mut r = String::from_str("没有找到指定工具");
            r.append(name);
            r
        },
        Some(Ok(text)) => text,
        Some(Err(error)) => {
            let mut r = String::from_str("执行工具调用失败：");
            r.append(error.as_str());
            r
        },
    }
}

/// The text of the model's answer in a structured chat: the content of the
/// first choice (`reply`), or the error "No response choices" when there is no
/// choice or the choice has no content.
pub fn first_content(reply: Option<ResponseMessage>) -> (r: Result<String, String>)
    ensures
        match reply {
            Some(m) => match m.content {
                Some(text) => (r matches Ok(out) && out@ == text@),
                None => (r matches Err(e) && e@ == "No response choices"@),
            },
            None => (r matches Err(e) && e@ == "No response choices"@),
        },
{
    match reply {
        Some(m) => match m.content {
            Some(text) => Ok(text),
            None => Err(String::from_str("No response choices")),
        },
        None => Err(String::from_str("No response choices")),
    }
}

/// How a tool call of the model's answer is written back into the conversation.
pub open spec fn echo_call(c: ResponseToolCall) -> ToolCallMessageModel {
    match c {
        ResponseToolCall::Function(f) => ToolCallMessageModel {
            id: f.id@,
            name: f.name@,
            arguments: f.arguments@,
            kind: ToolCallKind::Function,
        },
        ResponseToolCall::Custom(f) => ToolCallMessageModel {
            id: f.id@,
            name: f.name@,
            arguments: f.arguments@,
            kind: ToolCallKind::Custom,
        },
    }
}

/// What a round of the calculator chat calls for.
pub enum CalculatorStep {
    /// Run the answer's function calls and add a reply for each with
    /// [`push_tool_reply`].
    RunTools,
    /// The chat is over with this text.
    Finish(String),
    /// The chat fails with this error text.
    Failed(String),
}

/// Takes the model's answer in the calculator chat (`None`: no choice). Tool
/// calls are written back as one assistant message holding all of them, as
/// sent; otherwise the answer's text ends the chat, and an answer without
/// text, or no answer at all, is an error.
pub fn calculator_step(messages: &mut Vec<ChatMessage>, reply: Option<ResponseMessage>) -> (s: CalculatorStep)
    ensures
        match reply {
            None => messages_view(final(messages)@) == messages_view(old(messages)@)
                && (s matches CalculatorStep::Failed(e) && e@ == "no message choices"@),
            Some(m) => match m.tool_calls {
                Some(calls) => {
                    &&& s is RunTools
                    &&& messages_view(final(messages)@) == messages_view(old(messages)@).push(
                        MessageModel::Assistant(None, Some(calls@.map_values(|c: ResponseToolCall| echo_call(c)))),
                    )
                },
                None => messages_view(final(messages)@) == messages_view(old(messages)@) && match m.content {
                    Some(text) => (s matches CalculatorStep::Finish(out) && out@ == text@),
                    None => (s matches CalculatorStep::Failed(e) && e@ == "no content"@),
                },
            },
        },
{
    match reply {
        None => CalculatorStep::Failed(String::from_str("no message choices")),
        Some(m) => match m.tool_calls {
            Some(calls) => {
                let ghost views = calls@.map_values(|c: ResponseToolCall| echo_call(c));
                let mut echoed: Vec<ToolCallMessage> = Vec::new();
                let n = calls.len();
                let mut i: usize = 0;
                while i < n
                    invariant
                        n == calls@.len(),
                        views == calls@.map_values(|c: ResponseToolCall| echo_call(c)),
                        i <= n,
                        echoed@.map_values(|c: ToolCallMessage| c@) == views.take(i as int),
                    decreases n - i,
                {
                    let call = match &calls[i] {
                        ResponseToolCall::Function(f) => ToolCallMessage {
                            id: f.id.clone(),
                            name: f.name.clone(),
                            arguments: f.arguments.clone(),
                            kind: ToolCallKind::Function,
                        },
                        ResponseToolCall::Custom(f) => ToolCallMessage {
                            id: f.id.clone(),
                            name: f.name.clone(),
                            arguments: f.arguments.clone(),
                            kind: ToolCallKind::Custom,
                        },
                    };
                    let ghost before = echoed@.map_values(|c: ToolCallMessage| c@);
                    echoed.push(call);
                    assert(echoed@.map_values(|c: ToolCallMessage| c@) =~= before.push(views[i as int]));
                    assert(views.take(i + 1) =~= views.take(i as int).push(views[i as int]));
                    i = i + 1;
                }
                assert(views.take(n as int) =~= views);
                let ghost before = messages_view(messages@);
                messages.push(ChatMessage::Assistant { content: None, tool_calls: Some(echoed) });
                assert(messages_view(messages@) =~= before.push(
                    MessageModel::Assistant(None, Some(views)),
                ));
                CalculatorStep::RunTools
            },
            None => match m.content {
                Some(text) => CalculatorStep::Finish(text),
                None => CalculatorStep::Failed(String::from_str("no content")),
            },
        },
    }
}

/// Adds the reply to one function call of the calculator chat: a tool
/// message for the call's id whose text is [`tool_reply_spec`] of the outcome.
pub fn push_tool_reply(messages: &mut Vec<ChatMessage>, call: &FunctionCall, outcome: Option<Result<String, String>>)
    ensures
        messages_view(final(messages)@) == messages_view(old(messages)@).push(
            MessageModel::Tool(tool_reply_spec(call.name@, outcome_text_view(outcome)), call.id@),
        ),
{
    let text = tool_reply(call.name.as_str(), outcome);
    let ghost before = messages_view(messages@);
    messages.push(ChatMessage::Tool { content: text, tool_call_id: call.id.clone() });
    assert(messages_view(messages@) =~= before.push(
        MessageModel::Tool(tool_reply_spec(call.name@, outcome_text_view(outcome)), call.id@),
    ));
}

} // verus!
