use noddo::models::{DecisionAction, PermissionDecision, PermissionRequest};
use noddo::state::AppState;

fn request(id: &str, tool: &str) -> PermissionRequest {
    PermissionRequest {
        id: id.to_string(),
        tool_name: tool.to_string(),
        tool_input: "{}".to_string(),
        received_at: "2025-01-01T00:00:00+00:00".to_string(),
    }
}

fn decide(id: &str, action: DecisionAction) -> PermissionDecision {
    PermissionDecision { id: id.to_string(), action, reason: None }
}

fn ids(state: &AppState) -> Vec<String> {
    let mut v: Vec<String> = state.get_pending_requests().into_iter().map(|q| q.id).collect();
    v.sort();
    v
}

#[test]
fn new_state_is_empty() {
    let s = AppState::new();
    assert!(s.get_pending_requests().is_empty());
    assert!(!s.is_auto_allowed("Bash"));
}

#[test]
fn auto_allow_is_remembered() {
    let mut s = AppState::new();
    s.add_auto_allow("Bash".to_string());
    assert!(s.is_auto_allowed("Bash"));
    assert!(!s.is_auto_allowed("bash"));
    assert!(!s.is_auto_allowed("Write"));
    s.add_auto_allow("Bash".to_string());
    assert!(s.is_auto_allowed("Bash"));
}

#[test]
fn inserted_requests_are_listed_once() {
    let mut s = AppState::new();
    let _a = s.insert_request(request("a", "Bash"));
    let _b = s.insert_request(request("b", "Read"));
    assert_eq!(ids(&s), vec!["a".to_string(), "b".to_string()]);
    let listed = s.get_pending_requests();
    let b = listed.iter().find(|q| q.id == "b").unwrap();
    assert_eq!(b.tool_name, "Read");
}

#[test]
fn same_id_replaces_the_earlier_request() {
    let mut s = AppState::new();
    let first = s.insert_request(request("a", "Bash")).0.into_receiver();
    let _second = s.insert_request(request("a", "Write"));
    let listed = s.get_pending_requests();
    assert_eq!(listed.len(), 1);
    assert_eq!(listed[0].tool_name, "Write");
    assert!(first.blocking_recv().is_err());
}

#[test]
fn resolve_delivers_the_decision() {
    let mut s = AppState::new();
    let rx = s.insert_request(request("a", "Bash")).0.into_receiver();
    let _other = s.insert_request(request("b", "Bash"));
    let mut d = decide("a", DecisionAction::Deny);
    d.reason = Some("not now".to_string());
    assert!(s.resolve(d).is_ok());
    let got = rx.blocking_recv().unwrap();
    assert_eq!(got.id, "a");
    assert_eq!(got.action, DecisionAction::Deny);
    assert_eq!(got.reason, Some("not now".to_string()));
    assert_eq!(ids(&s), vec!["b".to_string()]);
}

#[test]
fn resolve_of_unknown_id_fails() {
    let mut s = AppState::new();
    let _rx = s.insert_request(request("a", "Bash"));
    let r = s.resolve(decide("zzz", DecisionAction::Allow));
    assert_eq!(r.err().map(|e| e.message), Some("No pending request with id: zzz".to_string()));
    assert_eq!(ids(&s), vec!["a".to_string()]);
}

#[test]
fn second_resolve_of_same_id_fails() {
    let mut s = AppState::new();
    let _rx = s.insert_request(request("a", "Bash"));
    assert!(s.resolve(decide("a", DecisionAction::Allow)).is_ok());
    assert_eq!(
        s.resolve(decide("a", DecisionAction::Allow)).err().map(|e| e.message),
        Some("No pending request with id: a".to_string())
    );
}

#[test]
fn resolve_after_hook_went_away_fails_and_removes() {
    let mut s = AppState::new();
    let rx = s.insert_request(request("a", "Bash")).0.into_receiver();
    drop(rx);
    let r = s.resolve(decide("a", DecisionAction::Allow));
    assert_eq!(r.err().map(|e| e.message), Some("Failed to send decision through channel".to_string()));
    assert!(s.get_pending_requests().is_empty());
}

#[test]
fn failed_send_reports_the_attempt() {
    let mut s = AppState::new();
    let rx = s.insert_request(request("a", "Bash"));
    drop(rx);
    let e = s.resolve(decide("a", DecisionAction::Deny)).err().unwrap();
    assert!(e.attempt.is_some());
    let e = s.resolve(decide("a", DecisionAction::Deny)).err().unwrap();
    assert!(e.attempt.is_none());
}

#[test]
fn replacing_a_request_reports_the_dropped_channel() {
    let mut s = AppState::new();
    let (first, none) = s.insert_request(request("a", "Bash"));
    assert!(none.is_none());
    let (_second, replaced) = s.insert_request(request("a", "Write"));
    assert!(replaced.is_some());
    assert!(first.into_receiver().blocking_recv().is_err());
}
