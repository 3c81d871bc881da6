use ai_agent::tools::search::{needs_ranking, select_top};
use ai_agent::agent::event::{Event, ToolArguments};
use ai_agent::agent::runtime::{ChatMessage, FunctionCall, ResponseMessage, ResponseToolCall, ToolCallKind};
use ai_agent::llm::{calculator_step, first_content, opening_messages, push_tool_reply, tool_reply, CalculatorStep};
use ai_agent::text::{join, str_eq};
use ai_agent::tools::chunk::chunk_handle;
use ai_agent::tools::mcp::result_text;

#[test]
fn chunk_handle_test() {
    assert_eq!(chunk_handle("abcdefghij", 4, 2), vec!["abcd", "cdef", "efgh", "ghij"]);
    assert_eq!(chunk_handle("abcdefghi", 4, 2), vec!["abcd", "cdef", "efgh", "ghi"]);
    assert_eq!(chunk_handle("abc", 4, 1), vec!["abc"]);
    assert!(chunk_handle("", 4, 1).is_empty());
    assert_eq!(chunk_handle("世界你好", 2, 0), vec!["世界", "你好"]);
}

#[test]
fn join_test() {
    let parts = vec!["a".to_string(), "b".to_string(), "c".to_string()];
    assert_eq!(join(&parts, "\n\n"), "a\n\nb\n\nc");
    assert_eq!(join(&Vec::new(), ","), "");
    assert_eq!(join(&vec!["only".to_string()], ","), "only");
    assert!(str_eq("abc", "abc"));
    assert!(!str_eq("abc", "abd"));
    assert!(!str_eq("abc", "ab"));
}

#[test]
fn result_text_test() {
    let blocks = vec![Some("one".to_string()), None, Some("two".to_string())];
    assert_eq!(result_text(&blocks), "one\ntwo");
    assert_eq!(result_text(&vec![None]), "");
}

#[test]
fn opening_messages_test() {
    let with_system = opening_messages(Some("sys"), "hi");
    assert_eq!(with_system.len(), 2);
    assert!(matches!(&with_system[0], ChatMessage::System { content } if content == "sys"));
    assert!(matches!(&with_system[1], ChatMessage::User { content } if content == "hi"));
    let without = opening_messages(None, "hi");
    assert_eq!(without.len(), 1);
}

#[test]
fn tool_reply_test() {
    assert_eq!(tool_reply("calc", None), "没有找到指定工具calc");
    assert_eq!(tool_reply("calc", Some(Ok("3".to_string()))), "3");
    assert_eq!(tool_reply("calc", Some(Err("bad".to_string()))), "执行工具调用失败：bad");
}

#[test]
fn tool_arguments_test() {
    match ToolArguments::parse("[1, 2 ,3]") {
        ToolArguments::Json(text) => assert_eq!(text, "[1,2,3]"),
        ToolArguments::Text(_) => panic!("expected JSON"),
    }
    let raw = ToolArguments::parse("say \"hi\"");
    assert!(matches!(&raw, ToolArguments::Text(t) if t == "say \"hi\""));
    assert_eq!(raw.to_json_text(), "\"say \\\"hi\\\"\"");
}

#[test]
fn event_new_test() {
    let event = Event::new("run".to_string(), "user".to_string(), Vec::new());
    assert_eq!(event.execution_id, "run");
    assert_eq!(event.author, "user");
    assert_eq!(event.id.len(), 36);
    assert!(event.timestamp > 1_600_000_000);
    let other = Event::new("run".to_string(), "user".to_string(), Vec::new());
    assert_ne!(event.id, other.id);
}

#[test]
fn select_top_test() {
    assert_eq!(select_top(&vec![5, 9, 1, 7], 3), vec![1, 3, 0]);
    assert_eq!(select_top(&vec![5, 9], 3), vec![1, 0]);
    assert!(select_top(&vec![5, 9], 0).is_empty());
    assert!(select_top(&Vec::new(), 2).is_empty());
    let picked = select_top(&vec![4, 4, 4], 2);
    assert_eq!(picked.len(), 2);
    assert_ne!(picked[0], picked[1]);
    assert!(needs_ranking("q", 1, 1));
    assert!(!needs_ranking("", 1, 1));
    assert!(!needs_ranking("q", 0, 1));
    assert!(!needs_ranking("q", 1, 0));
}

fn call(id: &str, name: &str, arguments: &str) -> FunctionCall {
    FunctionCall { id: id.to_string(), name: name.to_string(), arguments: arguments.to_string() }
}

#[test]
fn calculator_step_echoes_calls_test() {
    let mut messages = opening_messages(Some("sys"), "1+1");
    let reply = ResponseMessage {
        content: None,
        tool_calls: Some(vec![
            ResponseToolCall::Function(call("c1", "calculator", "{\"a\":1}")),
            ResponseToolCall::Custom(call("c2", "free_text", "one plus one")),
        ]),
    };
    assert!(matches!(calculator_step(&mut messages, Some(reply)), CalculatorStep::RunTools));
    assert_eq!(messages.len(), 3);
    match &messages[2] {
        ChatMessage::Assistant { content: None, tool_calls: Some(calls) } => {
            assert_eq!(calls.len(), 2);
            assert_eq!(calls[0].id, "c1");
            assert_eq!(calls[0].name, "calculator");
            assert_eq!(calls[0].arguments, "{\"a\":1}");
            assert_eq!(calls[0].kind, ToolCallKind::Function);
            assert_eq!(calls[1].id, "c2");
            assert_eq!(calls[1].arguments, "one plus one");
            assert_eq!(calls[1].kind, ToolCallKind::Custom);
        }
        _ => panic!("expected one assistant message with the calls"),
    }

    push_tool_reply(&mut messages, &call("c1", "calculator", "{}"), Some(Ok("2".to_string())));
    push_tool_reply(&mut messages, &call("c2", "free_text", ""), None);
    assert_eq!(messages.len(), 5);
    match (&messages[3], &messages[4]) {
        (
            ChatMessage::Tool { content: first, tool_call_id: first_id },
            ChatMessage::Tool { content: second, tool_call_id: second_id },
        ) => {
            assert_eq!(first, "2");
            assert_eq!(first_id, "c1");
            assert_eq!(second, "没有找到指定工具free_text");
            assert_eq!(second_id, "c2");
        }
        _ => panic!("expected two tool messages"),
    }
}

#[test]
fn calculator_step_finish_and_failures_test() {
    let mut messages = opening_messages(None, "1+1");
    let text = ResponseMessage { content: Some("2".to_string()), tool_calls: None };
    match calculator_step(&mut messages, Some(text)) {
        CalculatorStep::Finish(out) => assert_eq!(out, "2"),
        _ => panic!("expected the chat to finish"),
    }
    let empty = ResponseMessage { content: None, tool_calls: None };
    match calculator_step(&mut messages, Some(empty)) {
        CalculatorStep::Failed(error) => assert_eq!(error, "no content"),
        _ => panic!("expected a failure"),
    }
    match calculator_step(&mut messages, None) {
        CalculatorStep::Failed(error) => assert_eq!(error, "no message choices"),
        _ => panic!("expected a failure"),
    }
    assert_eq!(messages.len(), 1);
}

#[test]
fn push_tool_reply_failure_text_test() {
    let mut messages = Vec::new();
    push_tool_reply(&mut messages, &call("c9", "calculator", "{}"), Some(Err("division by zero".to_string())));
    match &messages[0] {
        ChatMessage::Tool { content, tool_call_id } => {
            assert_eq!(content, "执行工具调用失败：division by zero");
            assert_eq!(tool_call_id, "c9");
        }
        _ => panic!("expected a tool message"),
    }
}

#[test]
fn text_arguments_escape_test() {
    let raw = ToolArguments::Text("a\u{1}\n\t\\\"\u{1f}é".to_string());
    assert_eq!(raw.to_json_text(), "\"a\\u0001\\n\\t\\\\\\\"\\u001fé\"");
}

#[test]
fn first_content_test() {
    let answer = ResponseMessage { content: Some("{\"x\":5}".to_string()), tool_calls: None };
    assert_eq!(first_content(Some(answer)), Ok("{\"x\":5}".to_string()));
    let empty = ResponseMessage { content: None, tool_calls: None };
    assert_eq!(first_content(Some(empty)), Err("No response choices".to_string()));
    assert_eq!(first_content(None), Err("No response choices".to_string()));
}
