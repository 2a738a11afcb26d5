use noddo::models::{parse_action, same_text, DecisionAction, HookResponse, PermissionDecision, PermissionRequest};

fn decision(action: DecisionAction, reason: Option<&str>) -> PermissionDecision {
    PermissionDecision { id: "req-1".to_string(), action, reason: reason.map(|r| r.to_string()) }
}

#[test]
fn allow_response_fields() {
    let r = HookResponse::allow();
    assert_eq!(r.hook_specific_output.hook_event_name, "PreToolUse");
    assert_eq!(r.hook_specific_output.permission_decision, "allow");
    assert_eq!(r.system_message, None);
}

#[test]
fn block_response_carries_reason() {
    let r = HookResponse::block(Some("use rg instead".to_string()));
    assert_eq!(r.hook_specific_output.hook_event_name, "PreToolUse");
    assert_eq!(r.hook_specific_output.permission_decision, "block");
    assert_eq!(r.system_message, Some("use rg instead".to_string()));
}

#[test]
fn block_response_without_reason() {
    let r = HookResponse::block(None);
    assert_eq!(r.hook_specific_output.permission_decision, "block");
    assert_eq!(r.system_message, None);
}

#[test]
fn letting_decisions_allow_without_message() {
    for action in [DecisionAction::Allow, DecisionAction::AllowAll, DecisionAction::Bypass] {
        let r = HookResponse::for_decision(decision(action, Some("ignored")));
        assert_eq!(r.hook_specific_output.permission_decision, "allow");
        assert_eq!(r.hook_specific_output.hook_event_name, "PreToolUse");
        assert_eq!(r.system_message, None);
    }
}

#[test]
fn stopping_decisions_block_with_reason() {
    for action in [DecisionAction::Deny, DecisionAction::Block] {
        let r = HookResponse::for_decision(decision(action, Some("do it differently")));
        assert_eq!(r.hook_specific_output.permission_decision, "block");
        assert_eq!(r.system_message, Some("do it differently".to_string()));
        let r = HookResponse::for_decision(decision(action, None));
        assert_eq!(r.system_message, None);
    }
}

#[test]
fn action_names_are_read() {
    assert_eq!(parse_action("allow"), Some(DecisionAction::Allow));
    assert_eq!(parse_action("allow_all"), Some(DecisionAction::AllowAll));
    assert_eq!(parse_action("deny"), Some(DecisionAction::Deny));
    assert_eq!(parse_action("block"), Some(DecisionAction::Block));
    assert_eq!(parse_action("bypass"), Some(DecisionAction::Bypass));
}

#[test]
fn unknown_action_names_are_refused() {
    assert_eq!(parse_action(""), None);
    assert_eq!(parse_action("Allow"), None);
    assert_eq!(parse_action("allow "), None);
    assert_eq!(parse_action("explain"), None);
}

#[test]
fn same_text_compares_contents() {
    assert!(same_text("abc", "abc"));
    assert!(!same_text("abc", "abd"));
    assert!(!same_text("abc", "ab"));
    assert!(same_text("", ""));
}

#[test]
fn duplicate_copies_every_field() {
    let q = PermissionRequest {
        id: "a".to_string(),
        tool_name: "Bash".to_string(),
        tool_input: "{\"command\":\"ls\"}".to_string(),
        received_at: "2025-01-01T00:00:00+00:00".to_string(),
    };
    let d = q.duplicate();
    assert_eq!(d.id, q.id);
    assert_eq!(d.tool_name, q.tool_name);
    assert_eq!(d.tool_input, q.tool_input);
    assert_eq!(d.received_at, q.received_at);
}
