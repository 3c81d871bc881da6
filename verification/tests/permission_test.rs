use ai_agent::modals::config::AgentConfig;
use ai_agent::modals::permission_input::{
    input_match, DeniedPermissionInput, GrantedAlwaysPermissionInput, PermissionEntry,
    PermissionInput, PermissionMode, PermissionResult,
};
use ai_agent::modals::tool::ToolView;
use ai_agent::permission::{permission_key, ExecuteStep, Permission, QueryStart};
use std::collections::VecDeque;

struct ScriptPermissionInput {
    result: VecDeque<PermissionResult>,
    logs: Vec<String>,
    mode: PermissionMode,
}

impl ScriptPermissionInput {
    fn new(result: Vec<PermissionResult>) -> Self {
        ScriptPermissionInput { result: result.into(), logs: Vec::new(), mode: PermissionMode::Interactive }
    }
}

impl PermissionInput for ScriptPermissionInput {
    fn ask(&mut self, permission_entry: &PermissionEntry) -> PermissionResult {
        self.logs.push(permission_entry.tool_view.name.clone());
        self.result.pop_front().unwrap_or(PermissionResult::NoInput)
    }

    fn mode(&self) -> PermissionMode {
        self.mode
    }
}

fn tool_view(id: &str, name: &str, args: &str) -> ToolView {
    ToolView {
        tool_call_id: id.to_string(),
        name: name.to_string(),
        arguments: args.to_string(),
        model: "".to_string(),
        config: AgentConfig::default(),
    }
}

#[test]
fn auto_approve_by_permission_input_test() {
    let mut permission_input = ScriptPermissionInput::new(vec![PermissionResult::GrantedAlways]);
    permission_input.mode = PermissionMode::AutoApprove;
    let tool_view = tool_view("1", "search", "1");
    let mut permission = Permission::new(permission_input.mode());

    assert_eq!(permission.query(&tool_view, &mut permission_input), PermissionResult::GrantedAlways);
    assert_eq!(permission_input.logs.len(), 0);
}

#[test]
fn auto_deny_by_permission_input_test() {
    let mut permission_input = ScriptPermissionInput::new(vec![PermissionResult::Denied]);
    permission_input.mode = PermissionMode::AutoDeny;
    let tool_view = tool_view("1", "search", "1");
    let mut permission = Permission::new(permission_input.mode());

    assert_eq!(permission.query(&tool_view, &mut permission_input), PermissionResult::Denied);
    assert_eq!(permission_input.logs.len(), 0);
}

#[test]
fn granted_always_test() {
    let mut input = ScriptPermissionInput::new(vec![PermissionResult::GrantedAlways]);
    let mut permission = Permission::new(input.mode());
    let tool_view = tool_view("1", "search", "a");

    assert_eq!(permission.query(&tool_view, &mut input), PermissionResult::GrantedAlways);
    assert_eq!(permission.query(&tool_view, &mut input), PermissionResult::GrantedAlways);
    assert_eq!(input.logs.len(), 1);
    assert_eq!(input.logs.first().unwrap(), "search");
}

#[test]
fn granted_once_test() {
    let mut input =
        ScriptPermissionInput::new(vec![PermissionResult::GrantedOnce, PermissionResult::GrantedOnce]);
    let mut permission = Permission::new(input.mode());
    let tool_view = tool_view("1", "search", "a");

    assert_eq!(permission.query(&tool_view, &mut input), PermissionResult::GrantedOnce);
    assert_eq!(permission.query(&tool_view, &mut input), PermissionResult::GrantedOnce);
    assert_eq!(input.logs.len(), 2);
    assert_eq!(input.logs.first().unwrap(), "search");
    assert_eq!(input.logs.last().unwrap(), "search");
}

#[test]
fn deny_test() {
    let mut input = ScriptPermissionInput::new(vec![PermissionResult::Denied]);
    let mut permission = Permission::new(input.mode());
    let tool_view = tool_view("1", "search", "a");

    assert_eq!(permission.query(&tool_view, &mut input), PermissionResult::Denied);
    assert_eq!(permission.query(&tool_view, &mut input), PermissionResult::Denied);
    assert_eq!(input.logs.len(), 1);
    assert_eq!(input.logs.first().unwrap(), "search");
}

#[test]
fn tool_always_granted_test() {
    let mut input = ScriptPermissionInput::new(vec![PermissionResult::GrantedAlways]);
    let mut permission = Permission::new(input.mode());
    let tool_view_search_a = tool_view("1", "search", "a");
    let tool_view_search_b = tool_view("1", "search", "b");

    assert_eq!(permission.query(&tool_view_search_a, &mut input), PermissionResult::GrantedAlways);
    assert_eq!(permission.query(&tool_view_search_b, &mut input), PermissionResult::GrantedAlways);
    assert_eq!(input.logs.len(), 1);
    assert_eq!(input.logs.first().unwrap(), "search");
}

#[test]
fn timeout_test() {
    // The answer never comes in time: the request is recorded as timed out.
    let mut permission = Permission::new(PermissionMode::Interactive);
    let mut tool_view_search = tool_view("1", "search", "a");
    tool_view_search.config.permission_timeout = 1;

    let key = match permission.query_begin(&tool_view_search) {
        QueryStart::Pending(key) => key,
        QueryStart::Decided(_) => panic!("expected a pending query"),
    };
    let entry = match permission.next_step() {
        ExecuteStep::Ask(entry) => entry,
        _ => panic!("expected a request to ask"),
    };
    assert_eq!(entry.tool_view.config.permission_timeout, 1);
    let sent = permission.record_answer(&entry, None);
    assert_eq!(sent, PermissionResult::Timeout);
    assert_eq!(permission.query_finish(&key, Some(sent)), PermissionResult::Timeout);
}

#[test]
fn input_match_test() {
    assert_eq!(input_match("y"), PermissionResult::GrantedOnce);
    assert_eq!(input_match("Y"), PermissionResult::GrantedOnce);
    assert_eq!(input_match("a"), PermissionResult::GrantedAlways);
    assert_eq!(input_match("n"), PermissionResult::Denied);
    assert_eq!(input_match("x"), PermissionResult::NoInput);
}

#[test]
fn input_match_ignores_surrounding_space_and_case() {
    assert_eq!(input_match("  A \n"), PermissionResult::GrantedAlways);
    assert_eq!(input_match("\tN"), PermissionResult::Denied);
    assert_eq!(input_match("\u{3000}y\u{00a0}"), PermissionResult::GrantedOnce);
    assert_eq!(input_match("yes"), PermissionResult::NoInput);
    assert_eq!(input_match(""), PermissionResult::NoInput);
    assert_eq!(input_match("   "), PermissionResult::NoInput);
    assert_eq!(input_match("y n"), PermissionResult::NoInput);
}

#[test]
fn builtin_inputs_test() {
    let entry = PermissionEntry { key: "k".to_string(), tool_view: tool_view("1", "search", "a") };
    let mut granted = GrantedAlwaysPermissionInput;
    let mut denied = DeniedPermissionInput;
    assert_eq!(granted.ask(&entry), PermissionResult::GrantedAlways);
    assert_eq!(granted.mode(), PermissionMode::AutoApprove);
    assert_eq!(denied.ask(&entry), PermissionResult::Denied);
    assert_eq!(denied.mode(), PermissionMode::AutoDeny);
}

#[test]
fn permission_key_test() {
    let tv = tool_view("call-7", "search", "{\"q\":1}");
    assert_eq!(permission_key(&tv), "id: call-7, tool name: search, arguments: {\"q\":1}");
}

#[test]
fn request_queued_once_test() {
    let mut permission = Permission::new(PermissionMode::Interactive);
    let tv = tool_view("1", "search", "a");
    assert!(matches!(permission.query_begin(&tv), QueryStart::Pending(_)));
    assert!(matches!(permission.query_begin(&tv), QueryStart::Pending(_)));
    assert!(matches!(permission.next_step(), ExecuteStep::Ask(_)));
    assert!(matches!(permission.next_step(), ExecuteStep::Idle));
}

#[test]
fn queued_request_of_granted_tool_is_answered_without_asking() {
    let mut permission = Permission::new(PermissionMode::Interactive);
    let a = tool_view("1", "search", "a");
    let b = tool_view("2", "search", "b");
    assert!(matches!(permission.query_begin(&a), QueryStart::Pending(_)));
    assert!(matches!(permission.query_begin(&b), QueryStart::Pending(_)));
    let entry = match permission.next_step() {
        ExecuteStep::Ask(entry) => entry,
        _ => panic!("expected a request to ask"),
    };
    assert_eq!(entry.tool_view.arguments, "a");
    assert_eq!(permission.record_answer(&entry, Some(PermissionResult::GrantedAlways)), PermissionResult::GrantedAlways);
    match permission.next_step() {
        ExecuteStep::Replied { key, result } => {
            assert_eq!(key, permission_key(&b));
            assert_eq!(result, PermissionResult::GrantedAlways);
        }
        _ => panic!("expected a reply"),
    }
}

#[test]
fn reset_forgets_answers_test() {
    let mut input = ScriptPermissionInput::new(vec![PermissionResult::Denied, PermissionResult::GrantedOnce]);
    let mut permission = Permission::new(input.mode());
    let tv = tool_view("1", "search", "a");
    assert_eq!(permission.query(&tv, &mut input), PermissionResult::Denied);
    permission.reset();
    assert_eq!(permission.query(&tv, &mut input), PermissionResult::GrantedOnce);
    assert_eq!(input.logs.len(), 2);
}

#[test]
fn late_answer_is_timeout_test() {
    let mut permission = Permission::new(PermissionMode::Interactive);
    let tv = tool_view("1", "search", "a");
    let key = match permission.query_begin(&tv) {
        QueryStart::Pending(key) => key,
        QueryStart::Decided(_) => panic!("expected a pending query"),
    };
    // The waiter was dropped (for instance by a reset): no answer arrives.
    assert_eq!(permission.query_finish(&key, None), PermissionResult::Timeout);
}

#[test]
fn denied_request_stays_denied_after_tool_grant_test() {
    let mut input = ScriptPermissionInput::new(vec![PermissionResult::Denied, PermissionResult::GrantedAlways]);
    let mut permission = Permission::new(input.mode());
    let a = tool_view("1", "search", "a");
    let b = tool_view("2", "search", "b");
    assert_eq!(permission.query(&a, &mut input), PermissionResult::Denied);
    assert_eq!(permission.query(&b, &mut input), PermissionResult::GrantedAlways);
    assert_eq!(permission.query(&a, &mut input), PermissionResult::Denied);
    assert_eq!(permission.query(&tool_view("3", "search", "c"), &mut input), PermissionResult::GrantedAlways);
    assert_eq!(input.logs.len(), 2);
}

#[test]
fn query_returns_what_the_input_answered_test() {
    let mut input = ScriptPermissionInput::new(vec![PermissionResult::Timeout, PermissionResult::NoInput]);
    let mut permission = Permission::new(input.mode());
    let tv = tool_view("1", "search", "a");
    assert_eq!(permission.query(&tv, &mut input), PermissionResult::Timeout);
    assert_eq!(permission.query(&tv, &mut input), PermissionResult::NoInput);
    assert_eq!(permission.query(&tv, &mut input), PermissionResult::NoInput);
    assert_eq!(input.logs.len(), 3);
}

#[test]
fn builtin_input_answers_interactive_query_test() {
    let mut permission = Permission::new(PermissionMode::Interactive);
    let tv = tool_view("1", "search", "a");
    assert_eq!(permission.query(&tv, &mut DeniedPermissionInput), PermissionResult::Denied);
    assert_eq!(permission.query(&tv, &mut GrantedAlwaysPermissionInput), PermissionResult::Denied);
    let other = tool_view("2", "fetch", "b");
    assert_eq!(permission.query(&other, &mut GrantedAlwaysPermissionInput), PermissionResult::GrantedAlways);
}

#[test]
fn tool_grant_answers_same_tool_and_asks_other_tool_test() {
    let mut permission = Permission::new(PermissionMode::Interactive);
    let a = tool_view("1", "search", "a");
    let b = tool_view("1", "search", "b");
    let c = tool_view("1", "fetch", "a");
    assert!(matches!(permission.query_begin(&a), QueryStart::Pending(_)));
    assert!(matches!(permission.query_begin(&b), QueryStart::Pending(_)));
    assert!(matches!(permission.query_begin(&c), QueryStart::Pending(_)));
    let entry = match permission.next_step() {
        ExecuteStep::Ask(entry) => entry,
        _ => panic!("expected a request to ask"),
    };
    assert_eq!(permission.record_answer(&entry, Some(PermissionResult::GrantedAlways)), PermissionResult::GrantedAlways);
    match permission.next_step() {
        ExecuteStep::Replied { key, result } => {
            assert_eq!(key, permission_key(&b));
            assert_eq!(result, PermissionResult::GrantedAlways);
        }
        _ => panic!("expected a reply for the same tool"),
    }
    match permission.next_step() {
        ExecuteStep::Ask(entry) => assert_eq!(entry.key, permission_key(&c)),
        _ => panic!("expected the other tool to be asked"),
    }
    assert!(matches!(permission.next_step(), ExecuteStep::Idle));
}
