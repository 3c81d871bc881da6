use ai_agent::agent::event::ToolCallStatus;
use ai_agent::agent::output::{OUT_MAX_STEPS, TOOL_NOT_FOUND};
use ai_agent::agent::runtime::{
    Agent, ChatMessage, FunctionCall, ResponseAction, ResponseMessage, ResponseToolCall, RunAction,
};
use ai_agent::modals::calculator::CalculatorArg;
use ai_agent::tools::expense::{expense_reply, request_failed, select_url, unreadable_body};
use ai_agent::modals::config::AgentConfig;
use ai_agent::tools::calculator::{calculate, error_message, CalculatorError, CalculatorTool};
use ai_agent::tools::output::{TOOL_EXECUTE_FAILURE, TOOL_EXECUTE_TIMEOUT};
use ai_agent::tools::tool::{after_execute, before_execute, tool_outcome, ToolRun, BEFORE_CALLBACK_TIMEOUT};

fn search_call(name: &str, arguments: &str) -> ResponseMessage {
    ResponseMessage {
        content: None,
        tool_calls: Some(vec![ResponseToolCall::Function(FunctionCall {
            id: "123".to_string(),
            name: name.to_string(),
            arguments: arguments.to_string(),
        })]),
    }
}

fn function_calls(message: &ResponseMessage) -> Vec<FunctionCall> {
    message
        .tool_calls
        .iter()
        .flatten()
        .filter_map(|c| match c {
            ResponseToolCall::Function(f) => Some(f.clone()),
            ResponseToolCall::Custom(_) => None,
        })
        .collect()
}

/// The text of the last tool message of a conversation, as the mock model echoes it.
fn last_tool_text(messages: &[ChatMessage]) -> String {
    match messages.last().unwrap() {
        ChatMessage::Tool { content, .. } => content.clone(),
        other => panic!("expected a tool message, got {:?}", other),
    }
}

/// One tool round with the mock tool `search`: returns the agent's final output.
fn run_with_tool(tool_name: &str, outcome: impl Fn() -> Option<(ToolCallStatus, String)>) -> String {
    let mut agent = Agent::new("test-model".to_string(), Some("".to_string()), AgentConfig::default());
    agent.start_run("");
    loop {
        let messages = match agent.next_action() {
            RunAction::Finish(out) => return out,
            RunAction::Request(messages) => messages,
        };
        let answer = match messages.last().unwrap() {
            ChatMessage::User { content } => search_call(tool_name, content),
            ChatMessage::Tool { .. } => ResponseMessage { content: Some(last_tool_text(&messages)), tool_calls: None },
            other => panic!("unexpected last message {:?}", other),
        };
        let calls = function_calls(&answer);
        match agent.on_response(Some(answer)).unwrap() {
            ResponseAction::Finish(out) => return out,
            ResponseAction::RunTools => {
                for call in &calls {
                    let tool_view = agent.tool_view_for(call);
                    let found = if tool_view.name == "search" { outcome() } else { None };
                    agent.record_tool_result(call, found);
                }
                agent.end_round();
            }
        }
    }
}

#[test]
fn tool_not_found_test() {
    let output = run_with_tool("web_search", || Some((ToolCallStatus::Success, "unused".to_string())));
    assert!(output.contains(TOOL_NOT_FOUND));
    assert_eq!(output, format!("{}: web_search", TOOL_NOT_FOUND));
}

#[test]
fn tool_execute_success_test() {
    let output = run_with_tool("search", || Some(tool_outcome(Some(ToolRun::Succeeded("search content".to_string())))));
    assert_eq!(output, "search content");
}

#[test]
fn out_max_steps_test() {
    let mut agent = Agent::new("test-model".to_string(), Some("".to_string()), AgentConfig::default());
    agent.start_run("");
    let mut rounds = 0;
    let output = loop {
        match agent.next_action() {
            RunAction::Finish(out) => break out,
            RunAction::Request(_) => {}
        }
        let answer = search_call("search", "");
        let calls = function_calls(&answer);
        assert!(matches!(agent.on_response(Some(answer)), Ok(ResponseAction::RunTools)));
        for call in &calls {
            agent.record_tool_result(call, Some((ToolCallStatus::Success, "search content".to_string())));
        }
        agent.end_round();
        rounds += 1;
    };
    assert!(output.contains(OUT_MAX_STEPS));
    assert_eq!(rounds, 10);
    assert_eq!(agent.context().current_step, 10);
}

#[test]
fn tool_execute_timeout_test() {
    let output = run_with_tool("search", || Some(tool_outcome(None)));
    assert!(output.contains(TOOL_EXECUTE_TIMEOUT));
}

#[test]
fn tool_execute_failure_test() {
    let output = run_with_tool("search", || {
        Some(tool_outcome(Some(ToolRun::Failed(TOOL_EXECUTE_FAILURE.to_string()))))
    });
    assert!(output.contains(TOOL_EXECUTE_FAILURE));
    assert_eq!(output, format!("{}: {}", TOOL_EXECUTE_FAILURE, TOOL_EXECUTE_FAILURE));
}

#[test]
fn tool_outcome_shapes_test() {
    let (status, text) = tool_outcome(Some(ToolRun::Stopped(ToolCallStatus::Failure, "stop".to_string())));
    assert_eq!(status, ToolCallStatus::Failure);
    assert_eq!(text, "stop");
    let (status, text) = tool_outcome(Some(ToolRun::Succeeded("ok".to_string())));
    assert_eq!(status, ToolCallStatus::Success);
    assert_eq!(text, "ok");
    let (status, text) = tool_outcome(Some(ToolRun::Failed("boom".to_string())));
    assert_eq!(status, ToolCallStatus::Failure);
    assert_eq!(text, format!("{}: boom", TOOL_EXECUTE_FAILURE));
}

#[test]
fn hooks_test() {
    let stopped = before_execute(None).unwrap();
    assert_eq!(stopped.0, ToolCallStatus::Failure);
    assert_eq!(stopped.1, BEFORE_CALLBACK_TIMEOUT);
    assert!(before_execute(Some(None)).is_none());
    let kept = before_execute(Some(Some((ToolCallStatus::Success, "x".to_string())))).unwrap();
    assert_eq!(kept, (ToolCallStatus::Success, "x".to_string()));
    assert_eq!(after_execute("raw".to_string(), None), "raw");
    assert_eq!(after_execute("raw".to_string(), Some("cooked".to_string())), "cooked");
}

fn calc(a: i32, b: i32, op: &str) -> Result<String, CalculatorError> {
    CalculatorTool
        .execute(&CalculatorArg { first_number: a, second_number: b, operator: op.to_string() })
        .expect("no overflow")
}

#[test]
fn calculator_test() {
    assert_eq!(calc(1, 10, "+").unwrap(), "1 + 10 = 11");
    assert_eq!(calc(3, 10, "-").unwrap(), "3 - 10 = -7");
    assert_eq!(calc(1234, 4321, "*").unwrap(), "1234 * 4321 = 5332114");
    assert_eq!(calc(-7, 2, "/").unwrap(), "-7 / 2 = -3");
    assert_eq!(calc(7, -2, "/").unwrap(), "7 / -2 = -3");
    assert_eq!(calc(i32::MIN, 1, "/").unwrap(), "-2147483648 / 1 = -2147483648");
    assert_eq!(calc(0, 0, "+").unwrap(), "0 + 0 = 0");
}

#[test]
fn calculator_errors_test() {
    match calc(1, 0, "/") {
        Err(e) => assert_eq!(error_message(&e), "second number cannot be 0"),
        Ok(s) => panic!("unexpected {}", s),
    }
    match calc(1, 2, "Mod") {
        Err(e) => assert_eq!(error_message(&e), "operator mod is not supported"),
        Ok(s) => panic!("unexpected {}", s),
    }
    assert!(matches!(calculate(1, 2, "%"), Err(CalculatorError::UnsupportedOperator(_))));
}

#[test]
fn calculator_overflow_test() {
    let arg = |a: i32, b: i32, op: &str| CalculatorArg { first_number: a, second_number: b, operator: op.to_string() };
    assert!(CalculatorTool.execute(&arg(i32::MAX, 1, "+")).is_none());
    assert!(CalculatorTool.execute(&arg(i32::MIN, 1, "-")).is_none());
    assert!(CalculatorTool.execute(&arg(65536, 65536, "*")).is_none());
    assert!(CalculatorTool.execute(&arg(i32::MIN, -1, "/")).is_none());
    assert!(CalculatorTool.execute(&arg(i32::MAX, 1, "^")).is_some());
    assert_eq!(CalculatorTool.name(), "calculator");
}

#[test]
fn expense_select_url_test() {
    assert_eq!(
        select_url("http://localhost:3000", "food"),
        "http://localhost:3000/select/food"
    );
}

#[test]
fn expense_reply_test() {
    assert_eq!(expense_reply(true, "200 OK", "[]".to_string()), Ok("[]".to_string()));
    assert_eq!(
        expense_reply(false, "404 Not Found", "no such category".to_string()),
        Err("404 Not Found: no such category".to_string())
    );
    assert_eq!(unreadable_body("eof"), "read response content fail: eof");
    assert_eq!(request_failed("refused"), "request failed: refused");
}
