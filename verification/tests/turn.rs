use mini_agent::llm::minimax::{ChatCompletionOutput, ChatMessage, ToolCall};
use mini_agent::turn::{
    build_loop_exhausted_fallback, should_skip_redundant_tool_call, AgentTurn, TurnAction, TurnEvent, TurnStatus,
    MAX_IDENTICAL_TOOL_CALLS,
};

fn user(content: &str) -> ChatMessage {
    ChatMessage { role: "user".to_string(), content: content.to_string(), content_blocks: None }
}

fn call(name: &str, args: &str) -> ToolCall {
    ToolCall { id: "c1".to_string(), function_name: name.to_string(), function_arguments: args.to_string() }
}

fn started() -> AgentTurn {
    let mut turn = AgentTurn::new(vec![user("hi")]);
    assert!(matches!(turn.start(), TurnAction::RequestCompletion));
    turn
}

#[test]
fn turn_completes_with_chunked_reply() {
    let mut turn = started();
    match turn.handle(TurnEvent::Completion(ChatCompletionOutput::Content("Hello there, friend".to_string()))) {
        TurnAction::Complete { deltas, content } => {
            assert_eq!(content, "Hello there, friend");
            assert_eq!(deltas.concat(), "Hello there, friend");
            assert!(deltas.iter().all(|d| !d.is_empty() && d.chars().count() <= 24));
        }
        _ => panic!("expected the reply"),
    }
    assert_eq!(turn.status, TurnStatus::Completed);
}

#[test]
fn turn_fails_on_empty_reply() {
    let mut turn = started();
    match turn.handle(TurnEvent::Completion(ChatCompletionOutput::Content(String::new()))) {
        TurnAction::Fail(m) => assert_eq!(m, "assistant response content was empty"),
        _ => panic!("expected a failure"),
    }
}

#[test]
fn turn_runs_read_only_tool_and_asks_again() {
    let mut turn = started();
    let action = turn.handle(TurnEvent::Completion(ChatCompletionOutput::ToolCalls(vec![call(
        "web_search",
        "{\"query\":\"rust\"}",
    )])));
    match action {
        TurnAction::ExecuteTool { name, arguments } => {
            assert_eq!(name, "web_search");
            assert_eq!(arguments.get_str("query"), Some("rust"));
        }
        _ => panic!("expected the tool to run"),
    }
    let action = turn.handle(TurnEvent::ToolFinished(Ok("1. Rust - lang (u)".to_string())));
    assert!(matches!(action, TurnAction::RequestCompletion));
    let n = turn.llm_messages.len();
    assert_eq!(turn.llm_messages[n - 2].content, "Called tool web_search({\"query\":\"rust\"})");
    assert_eq!(turn.llm_messages[n - 1].role, "user");
    assert_eq!(turn.llm_messages[n - 1].content, "Tool result from web_search: 1. Rust - lang (u)");
}

#[test]
fn turn_pauses_for_approval_tools() {
    let mut turn = started();
    let action = turn.handle(TurnEvent::Completion(ChatCompletionOutput::ToolCalls(vec![call(
        "create_directory",
        "{\"path\":\"a\"}",
    )])));
    match action {
        TurnAction::PauseForApproval { action_type, payload_json } => {
            assert_eq!(action_type, "create_directory");
            assert_eq!(payload_json, "{\"path\":\"a\"}");
        }
        _ => panic!("expected a pause"),
    }
    assert_eq!(turn.status, TurnStatus::Paused);
    assert_eq!(
        turn.llm_messages.last().map(|m| m.content.clone()),
        Some("Tool call paused for approval: create_directory({\"path\":\"a\"})".to_string())
    );
}

#[test]
fn turn_fails_on_bad_tool_arguments() {
    let mut turn = started();
    match turn.handle(TurnEvent::Completion(ChatCompletionOutput::ToolCalls(vec![call("get_time", "{oops")]))) {
        TurnAction::Fail(m) => assert!(m.starts_with("failed to parse tool call arguments: ")),
        _ => panic!("expected a failure"),
    }
}

#[test]
fn turn_stops_after_max_completions() {
    let mut turn = started();
    let mut requests = 1;
    loop {
        let args = format!("{{\"query\":\"q{}\"}}", requests);
        let action = turn.handle(TurnEvent::Completion(ChatCompletionOutput::ToolCalls(vec![call("web_search", &args)])));
        assert!(matches!(action, TurnAction::ExecuteTool { .. }));
        match turn.handle(TurnEvent::ToolFinished(Ok(format!("result {}", requests)))) {
            TurnAction::RequestCompletion => requests += 1,
            TurnAction::Complete { deltas, content } => {
                assert_eq!(
                    content,
                    "I ran out of tool steps before finishing. The latest tool result was:\nresult 6"
                );
                assert_eq!(deltas.concat(), content);
                break;
            }
            _ => panic!("unexpected action"),
        }
    }
    assert_eq!(requests, 6);
    assert_eq!(turn.status, TurnStatus::Completed);
    assert_eq!(turn.final_content, "I ran out of tool steps before finishing. The latest tool result was:\nresult 6");
}

#[test]
fn turn_skips_third_identical_tool_call() {
    let mut turn = started();
    for round in 0..2 {
        let action = turn.handle(TurnEvent::Completion(ChatCompletionOutput::ToolCalls(vec![call(
            "web_search",
            "{\"query\":\"rust\"}",
        )])));
        assert!(matches!(action, TurnAction::ExecuteTool { .. }), "round {}", round);
        let action = turn.handle(TurnEvent::ToolFinished(Ok("No results found.".to_string())));
        assert!(matches!(action, TurnAction::RequestCompletion));
    }
    let before = turn.llm_messages.len();
    let action = turn.handle(TurnEvent::Completion(ChatCompletionOutput::ToolCalls(vec![call(
        "web_search",
        "{\"query\":\"rust\"}",
    )])));
    assert!(matches!(action, TurnAction::RequestCompletion));
    assert_eq!(turn.llm_messages.len(), before + 1);
    let last = turn.llm_messages.last().unwrap();
    assert_eq!(last.role, "user");
    assert_eq!(
        last.content,
        "Skipped tool call web_search({\"query\":\"rust\"}): the same call already ran twice in this turn. \
         Answer from its earlier results instead of calling it again."
    );
    assert_eq!(turn.executed_calls.len(), 2);
    let action = turn.handle(TurnEvent::Completion(ChatCompletionOutput::ToolCalls(vec![
        call("web_search", "{\"query\":\"rust\"}"),
        call("web_search", "{\"query\":\"rust lang\"}"),
    ])));
    match action {
        TurnAction::ExecuteTool { name, arguments } => {
            assert_eq!(name, "web_search");
            assert_eq!(arguments.get_str("query"), Some("rust lang"));
        }
        _ => panic!("expected the new call to run"),
    }
    assert_eq!(turn.next_call, 1);
}

#[test]
fn should_skip_redundant_tool_call_allows_then_blocks_identical_calls() {
    let mut executed: Vec<(String, String)> = Vec::new();
    assert!(!should_skip_redundant_tool_call(&executed, "web_search", "{\"query\":\"a\"}"));
    executed.push(("web_search".to_string(), "{\"query\":\"a\"}".to_string()));
    assert!(!should_skip_redundant_tool_call(&executed, "web_search", "{\"query\":\"a\"}"));
    executed.push(("web_search".to_string(), "{\"query\":\"a\"}".to_string()));
    assert!(should_skip_redundant_tool_call(&executed, "web_search", "{\"query\":\"a\"}"));
    assert!(!should_skip_redundant_tool_call(&executed, "web_search", "{\"query\":\"b\"}"));
    assert!(!should_skip_redundant_tool_call(&executed, "fetch_url", "{\"query\":\"a\"}"));
    assert_eq!(MAX_IDENTICAL_TOOL_CALLS, 2);
}

#[test]
fn build_loop_exhausted_fallback_uses_latest_tool_result_when_present() {
    let text = build_loop_exhausted_fallback(&Some("1. Rust - lang".to_string()));
    assert_eq!(text, "I ran out of tool steps before finishing. The latest tool result was:\n1. Rust - lang");
}

#[test]
fn build_loop_exhausted_fallback_handles_missing_tool_result() {
    let text = build_loop_exhausted_fallback(&None);
    assert_eq!(text, "I ran out of tool steps before finishing, and no tool returned a result.");
}

#[test]
fn turn_reports_tool_and_completion_errors() {
    let mut turn = started();
    match turn.handle(TurnEvent::CompletionFailed("http request failed: x".to_string())) {
        TurnAction::Fail(m) => assert_eq!(m, "http request failed: x"),
        _ => panic!("expected a failure"),
    }
    let mut turn = started();
    let _ = turn.handle(TurnEvent::Completion(ChatCompletionOutput::ToolCalls(vec![call("fetch_url", "{}")])));
    match turn.handle(TurnEvent::ToolFinished(Err("missing required argument: url".to_string()))) {
        TurnAction::Fail(m) => assert_eq!(m, "missing required argument: url"),
        _ => panic!("expected a failure"),
    }
}
