use ai_agent::agent::context::Context;
use ai_agent::agent::event::{ContentItem, Event, ToolArguments, ToolCallStatus};
use ai_agent::agent::output::NOT_OUTPUT;
use ai_agent::agent::runtime::{
    build_messages, get_permission_input, Agent, AgentError, ChatMessage, FunctionCall,
    ResponseAction, ResponseMessage, ResponseToolCall, RunAction,
};
use ai_agent::modals::config::{agent_max_steps, AgentConfig};
use ai_agent::modals::permission_input::{PermissionMode, PermissionResult};
use ai_agent::modals::tool::ToolView;
use ai_agent::modals::web_search::{max_result_default, topic_default, Topic};
use ai_agent::permission::{Permission, QueryStart};
use ai_agent::text::i32_to_string;
use ai_agent::tools::web_search::{compressed_text, needs_compression, permission_outcome, topic_name, WebSearch};

fn agent() -> Agent {
    Agent::new("test-model".to_string(), Some("".to_string()), AgentConfig::default())
}

#[test]
fn llm_output_content_test() {
    let mut agent = agent();
    agent.start_run("hello");
    assert!(matches!(agent.next_action(), RunAction::Request(_)));
    let result = agent.on_response(Some(ResponseMessage {
        content: Some("hello rust agent".to_string()),
        tool_calls: None,
    }));
    match result {
        Ok(ResponseAction::Finish(out)) => assert_eq!(out, "hello rust agent"),
        _ => panic!("expected an output"),
    }
}

#[test]
fn llm_no_output_test() {
    let mut agent = agent();
    agent.start_run("hello");
    let result = agent.on_response(Some(ResponseMessage { content: None, tool_calls: None }));
    assert!(result.is_err());
    if let Err(err) = result {
        assert!(err.message().contains(NOT_OUTPUT));
    }
}

#[test]
fn llm_choice_empty_test() {
    let mut agent = agent();
    agent.start_run("hello");
    let result = agent.on_response(None);
    assert!(result.is_err());
    if let Err(err) = result {
        assert_eq!(err, AgentError::NotOutput);
        assert!(err.message().contains(NOT_OUTPUT));
    }
}

#[test]
fn auto_approve_by_client_test() {
    let mut config = AgentConfig::default();
    config.permission_mode = PermissionMode::AutoApprove;
    let mut permission = Permission::new(get_permission_input(&config.permission_mode).mode());
    let tv = ToolView { name: "search".to_string(), ..ToolView::default() };
    assert!(matches!(permission.query_begin(&tv), QueryStart::Decided(PermissionResult::GrantedAlways)));
}

#[test]
fn auto_deny_by_client_test() {
    let mut config = AgentConfig::default();
    config.permission_mode = PermissionMode::AutoDeny;
    let mut permission = Permission::new(get_permission_input(&config.permission_mode).mode());
    let tv = ToolView { name: "search".to_string(), ..ToolView::default() };
    assert!(matches!(permission.query_begin(&tv), QueryStart::Decided(PermissionResult::Denied)));
}

#[test]
fn start_run_records_prompt_test() {
    let mut agent = agent();
    agent.start_run("what is 1 + 1");
    let context = agent.context();
    assert_eq!(context.current_step, 0);
    assert_eq!(context.event.len(), 1);
    assert_eq!(context.event[0].author, "user");
    assert_eq!(context.event[0].execution_id, context.execution_id);
    assert_eq!(context.execution_id.len(), 36);
    match &context.event[0].content[0] {
        ContentItem::Message { role, content } => {
            assert_eq!(role, "user");
            assert_eq!(content, "what is 1 + 1");
        }
        other => panic!("unexpected {:?}", other),
    }
}

#[test]
fn build_message_test() {
    let mut agent = Agent::new("m".to_string(), Some("be brief".to_string()), AgentConfig::default());
    agent.start_run("hi");
    let answer = ResponseMessage {
        content: None,
        tool_calls: Some(vec![
            ResponseToolCall::Function(FunctionCall { id: "1".into(), name: "calculator".into(), arguments: "{ \"a\" : 1 }".into() }),
            ResponseToolCall::Custom(FunctionCall { id: "c".into(), name: "grammar".into(), arguments: "x".into() }),
            ResponseToolCall::Function(FunctionCall { id: "2".into(), name: "search".into(), arguments: "not json".into() }),
        ]),
    };
    assert!(matches!(agent.on_response(Some(answer)), Ok(ResponseAction::RunTools)));
    let call = FunctionCall { id: "1".into(), name: "calculator".into(), arguments: "{}".into() };
    agent.record_tool_result(&call, Some((ToolCallStatus::Success, "2".to_string())));
    let messages = agent.build_message();
    assert_eq!(messages.len(), 4);
    assert!(matches!(&messages[0], ChatMessage::System { content } if content == "be brief"));
    assert!(matches!(&messages[1], ChatMessage::User { content } if content == "hi"));
    match &messages[2] {
        ChatMessage::Assistant { content: None, tool_calls: Some(calls) } => {
            assert_eq!(calls.len(), 2);
            assert_eq!(calls[0].id, "1");
            assert_eq!(calls[0].arguments, "{\"a\":1}");
            assert_eq!(calls[1].name, "search");
            assert_eq!(calls[1].arguments, "\"not json\"");
        }
        other => panic!("unexpected {:?}", other),
    }
    assert!(matches!(&messages[3], ChatMessage::Tool { content, tool_call_id } if content == "2" && tool_call_id == "1"));
}

#[test]
fn tool_calls_join_assistant_message_test() {
    let mut context = Context::new();
    context.add_event(Event::new(
        context.execution_id.clone(),
        "assistant".to_string(),
        vec![
            ContentItem::Message { role: "assistant".into(), content: "let me look".into() },
            ContentItem::ToolCall { tool_call_id: "9".into(), name: "search".into(), arguments: ToolArguments::Json("{}".into()) },
        ],
    ));
    let messages = build_messages(&None, &context.event);
    assert_eq!(messages.len(), 1);
    match &messages[0] {
        ChatMessage::Assistant { content: Some(text), tool_calls: Some(calls) } => {
            assert_eq!(text, "let me look");
            assert_eq!(calls.len(), 1);
            assert_eq!(calls[0].arguments, "{}");
        }
        other => panic!("unexpected {:?}", other),
    }
}

#[test]
fn config_defaults_test() {
    let config = AgentConfig::default();
    assert_eq!(config.agent_max_steps, 10);
    assert_eq!(config.agent_execute_timeout, 30);
    assert_eq!(config.agent_execute_retry_count, 3);
    assert_eq!(config.tool_execute_timeout, 15);
    assert_eq!(config.tool_callback_execute_timeout, 5);
    assert_eq!(config.permission_timeout, 5);
    assert_eq!(config.permission_mode, PermissionMode::Interactive);
    assert_eq!(agent_max_steps(), 10);
}

#[test]
fn bind_config_sets_steps_test() {
    let mut agent = agent();
    let mut config = AgentConfig::default();
    config.agent_max_steps = 0;
    agent.bind_config(config);
    assert_eq!(agent.max_steps(), 0);
    agent.start_run("x");
    match agent.next_action() {
        RunAction::Finish(out) => assert_eq!(out, ai_agent::agent::output::OUT_MAX_STEPS),
        RunAction::Request(_) => panic!("no step allowed"),
    }
    agent.set_max_steps(2);
    assert!(matches!(agent.next_action(), RunAction::Request(_)));
}

#[test]
fn web_search_test() {
    assert_eq!(topic_default(), Topic::News);
    assert_eq!(max_result_default(), 10);
    assert_eq!(topic_name(Topic::General), "general");
    assert_eq!(topic_name(Topic::Finance), "finance");
    assert_eq!(WebSearch.name(), "web_search");
    assert!(permission_outcome(PermissionResult::GrantedOnce).is_none());
    assert_eq!(
        permission_outcome(PermissionResult::Denied),
        Some((ToolCallStatus::Failure, "用户拒绝".to_string()))
    );
    assert!(!needs_compression(&"字".repeat(499)));
    assert!(needs_compression(&"字".repeat(500)));
}

#[test]
fn decimal_test() {
    assert_eq!(i32_to_string(0), "0");
    assert_eq!(i32_to_string(-45), "-45");
    assert_eq!(i32_to_string(i32::MAX), "2147483647");
    assert_eq!(i32_to_string(i32::MIN), "-2147483648");
}

#[test]
fn compressed_text_test() {
    let result = "long result".to_string();
    assert_eq!(compressed_text(result.clone(), None), "long result");
    let found = vec!["first".to_string(), "second".to_string(), "third".to_string()];
    assert_eq!(compressed_text(result.clone(), Some(found)), "first\n\nsecond\n\nthird");
    assert_eq!(compressed_text(result, Some(Vec::new())), "");
}
