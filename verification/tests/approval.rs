use mini_agent::approval::{
    check_pending, plan_approve, plan_reject, rejection_message, resolve_target_path, resolved_event, ApprovalAction,
    PendingApprovalRow,
};

fn row(id: &str, action_type: &str, payload_json: &str, status: &str) -> PendingApprovalRow {
    PendingApprovalRow {
        approval_id: id.to_string(),
        conversation_id: "conv-1".to_string(),
        turn_id: "turn-1".to_string(),
        action_type: action_type.to_string(),
        payload_json: payload_json.to_string(),
        status: status.to_string(),
    }
}

#[test]
fn approve_create_directory_executes_action_and_sets_status() {
    let r = row("approval-create-dir", "create_directory", r#"{"path":"sandbox/new-dir"}"#, "pending");
    match plan_approve(&r).expect("approve should execute create_directory") {
        ApprovalAction::CreateDirectory { path } => assert_eq!(path, "sandbox/new-dir"),
        _ => panic!("expected a directory to create"),
    }
    let event = resolved_event(r, "msg-1".to_string(), "approved");
    assert_eq!(event.status, "approved");
    assert_eq!(event.message_id, "msg-1");
    assert_eq!(event.conversation_id, "conv-1");
}

#[test]
fn approve_write_file_plans_write() {
    let r = row("a", "write_file", r#"{"path":" notes/a.txt ","content":"hello"}"#, "pending");
    match plan_approve(&r).expect("write planned") {
        ApprovalAction::WriteFile { path, content } => {
            assert_eq!(path, "notes/a.txt");
            assert_eq!(content, "hello");
        }
        _ => panic!("expected a file to write"),
    }
}

#[test]
fn approve_refuses_bad_requests() {
    let err = plan_approve(&row("a", "create_directory", "{}", "approved")).err();
    assert_eq!(err, Some("approval is not pending (id: a, status: approved)".to_string()));
    let err = plan_approve(&row("a", "delete_all", "{}", "pending")).err();
    assert_eq!(err, Some("unsupported approval action_type: delete_all".to_string()));
    let err = plan_approve(&row("a", "create_directory", "{}", "pending")).err();
    assert_eq!(err, Some("create_directory payload.path is required".to_string()));
    let err = plan_approve(&row("a", "write_file", r#"{"path":"x"}"#, "pending")).err();
    assert_eq!(err, Some("write_file payload.content is required".to_string()));
    let err = plan_approve(&row("a", "create_directory", r#"{"path":"../x"}"#, "pending")).err();
    assert_eq!(err, Some("path traversal is not allowed".to_string()));
    let err = plan_approve(&row("a", "create_directory", "not json", "pending")).err().expect("bad json");
    assert!(err.starts_with("invalid payload_json: "));
    assert_eq!(resolve_target_path("   "), Err("path cannot be empty".to_string()));
    assert_eq!(resolve_target_path("/etc"), Err("absolute paths are not allowed".to_string()));
}

#[test]
fn reject_sets_status_without_fs_side_effects() {
    let r = row("approval-reject", "create_directory", r#"{"path":"sandbox/rejected-dir"}"#, "pending");
    let message = plan_reject(&r).expect("reject should set status to rejected");
    assert!(message.contains("create_directory"));
    assert!(!std::path::Path::new("sandbox/rejected-dir").exists());
    let event = resolved_event(r, "msg-1".to_string(), "rejected");
    assert_eq!(event.status, "rejected");
    assert!(check_pending(&row("b", "x", "{}", "rejected")).is_err());
}

#[test]
fn reject_inserts_rejection_context_message_with_tool_and_path() {
    let r = row("approval-reject-context", "write_file", r#"{"path":"sandbox/note.txt","content":"hello"}"#, "pending");
    let message = plan_reject(&r).expect("reject should insert rejection context");
    assert!(message.contains("write_file"));
    assert!(message.contains("sandbox/note.txt"));
    assert_eq!(message, "User rejected pending tool action: write_file on path sandbox/note.txt.");
}

#[test]
fn rejection_message_without_path() {
    assert_eq!(
        rejection_message(&row("a", "create_directory", "{}", "pending")),
        "User rejected pending tool action: create_directory."
    );
    assert_eq!(
        rejection_message(&row("a", "create_directory", r#"{"path":"  "}"#, "pending")),
        "User rejected pending tool action: create_directory."
    );
    assert_eq!(
        rejection_message(&row("a", "create_directory", "broken", "pending")),
        "User rejected pending tool action: create_directory."
    );
}
