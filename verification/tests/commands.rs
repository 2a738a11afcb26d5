use noddo::commands::{dismiss_request, resolve_permission, PanelAction};
use noddo::models::{DecisionAction, PermissionRequest};
use noddo::server::{hook_reply, STATUS_GONE};
use noddo::state::AppState;

fn request(id: &str, tool: &str) -> PermissionRequest {
    PermissionRequest {
        id: id.to_string(),
        tool_name: tool.to_string(),
        tool_input: "{\"file_path\":\"/tmp/x\"}".to_string(),
        received_at: "2025-01-01T00:00:00+00:00".to_string(),
    }
}

#[test]
fn invalid_action_is_refused_without_effect() {
    let mut s = AppState::new();
    let _rx = s.insert_request(request("a", "Bash"));
    let r = resolve_permission(&mut s, "a".to_string(), "explain".to_string(), None, Some("Bash".to_string())).map(|done| done.panel).map_err(|e| e.message);
    assert_eq!(r, Err("Invalid action: explain".to_string()));
    assert_eq!(s.get_pending_requests().len(), 1);
    assert!(!s.is_auto_allowed("Bash"));
}

#[test]
fn last_request_resolved_hides_panel() {
    let mut s = AppState::new();
    let rx = s.insert_request(request("a", "Bash")).0.into_receiver();
    let r = resolve_permission(&mut s, "a".to_string(), "allow".to_string(), None, None).map(|done| done.panel).map_err(|e| e.message);
    assert_eq!(r, Ok(PanelAction::Hide));
    assert_eq!(rx.blocking_recv().unwrap().action, DecisionAction::Allow);
}

#[test]
fn panel_stays_while_requests_wait() {
    let mut s = AppState::new();
    let rx = s.insert_request(request("a", "Bash")).0.into_receiver();
    let _b = s.insert_request(request("b", "Read"));
    let r = resolve_permission(&mut s, "a".to_string(), "block".to_string(), Some("stop".to_string()), None).map(|done| done.panel).map_err(|e| e.message);
    assert_eq!(r, Ok(PanelAction::KeepOpen));
    let got = rx.blocking_recv().unwrap();
    assert_eq!(got.action, DecisionAction::Block);
    assert_eq!(got.reason, Some("stop".to_string()));
}

#[test]
fn allow_all_auto_allows_the_tool() {
    let mut s = AppState::new();
    let rx = s.insert_request(request("a", "Edit")).0.into_receiver();
    let r = resolve_permission(&mut s, "a".to_string(), "allow_all".to_string(), None, Some("Edit".to_string())).map(|done| done.panel).map_err(|e| e.message);
    assert_eq!(r, Ok(PanelAction::Hide));
    assert!(s.is_auto_allowed("Edit"));
    assert_eq!(rx.blocking_recv().unwrap().action, DecisionAction::AllowAll);
}

#[test]
fn allow_all_without_tool_name_allows_nothing_more() {
    let mut s = AppState::new();
    let _rx = s.insert_request(request("a", "Edit"));
    let r = resolve_permission(&mut s, "a".to_string(), "allow_all".to_string(), None, None).map(|done| done.panel).map_err(|e| e.message);
    assert_eq!(r, Ok(PanelAction::Hide));
    assert!(!s.is_auto_allowed("Edit"));
}

#[test]
fn allow_all_for_unknown_id_still_auto_allows() {
    let mut s = AppState::new();
    let r = resolve_permission(&mut s, "gone".to_string(), "allow_all".to_string(), None, Some("Write".to_string())).map(|done| done.panel).map_err(|e| e.message);
    assert_eq!(r, Err("No pending request with id: gone".to_string()));
    assert!(s.is_auto_allowed("Write"));
}

#[test]
fn other_actions_do_not_auto_allow() {
    for action in ["allow", "deny", "block", "bypass"] {
        let mut s = AppState::new();
        let _rx = s.insert_request(request("a", "Bash"));
        let r = resolve_permission(&mut s, "a".to_string(), action.to_string(), None, Some("Bash".to_string())).map(|done| done.panel).map_err(|e| e.message);
        assert_eq!(r, Ok(PanelAction::Hide));
        assert!(!s.is_auto_allowed("Bash"));
    }
}

#[test]
fn dismiss_drops_without_decision() {
    let mut s = AppState::new();
    let rx = s.insert_request(request("a", "Bash")).0.into_receiver();
    let _b = s.insert_request(request("b", "Bash"));
    assert_eq!(dismiss_request(&mut s, "a".to_string()).0, PanelAction::KeepOpen);
    let outcome = rx.blocking_recv();
    assert!(outcome.is_err());
    assert_eq!(hook_reply(outcome).err(), Some(STATUS_GONE));
    assert_eq!(dismiss_request(&mut s, "b".to_string()).0, PanelAction::Hide);
    assert_eq!(dismiss_request(&mut s, "b".to_string()).0, PanelAction::Hide);
}

#[test]
fn register_then_dismiss_restores_listing() {
    let mut s = AppState::new();
    let _a = s.insert_request(request("a", "Bash"));
    let _b = s.insert_request(request("b", "Write"));
    assert_eq!(dismiss_request(&mut s, "b".to_string()).0, PanelAction::KeepOpen);
    let listed = s.get_pending_requests();
    assert_eq!(listed.len(), 1);
    assert_eq!(listed[0].id, "a");
}

#[test]
fn each_choice_reaches_the_waiting_call() {
    let cases = [
        ("allow", DecisionAction::Allow),
        ("allow_all", DecisionAction::AllowAll),
        ("deny", DecisionAction::Deny),
        ("block", DecisionAction::Block),
        ("bypass", DecisionAction::Bypass),
    ];
    for (name, action) in cases {
        let mut s = AppState::new();
        let rx = s.insert_request(request("a", "Bash")).0.into_receiver();
        let r = resolve_permission(&mut s, "a".to_string(), name.to_string(), Some("why".to_string()), None);
        assert!(r.is_ok());
        let got = rx.blocking_recv().unwrap();
        assert_eq!(got.id, "a");
        assert_eq!(got.action, action);
        assert_eq!(got.reason, Some("why".to_string()));
    }
}

#[test]
fn decision_goes_to_its_own_call() {
    let mut s = AppState::new();
    let rx_a = s.insert_request(request("a", "Bash")).0.into_receiver();
    let mut rx_b = s.insert_request(request("b", "Read")).0.into_receiver();
    let r = resolve_permission(&mut s, "a".to_string(), "deny".to_string(), None, None);
    assert_eq!(r.map(|done| done.panel).map_err(|e| e.message), Ok(PanelAction::KeepOpen));
    assert_eq!(rx_a.blocking_recv().unwrap().action, DecisionAction::Deny);
    assert!(rx_b.try_recv().is_err());
    let r = resolve_permission(&mut s, "b".to_string(), "allow".to_string(), None, None);
    assert_eq!(r.map(|done| done.panel).map_err(|e| e.message), Ok(PanelAction::Hide));
    assert_eq!(rx_b.blocking_recv().unwrap().action, DecisionAction::Allow);
}

#[test]
fn dismiss_reports_the_dropped_channel() {
    let mut s = AppState::new();
    let rx = s.insert_request(request("a", "Bash")).0.into_receiver();
    let (panel, dropped) = dismiss_request(&mut s, "a".to_string());
    assert_eq!(panel, PanelAction::Hide);
    assert!(dropped.is_some());
    assert!(rx.blocking_recv().is_err());
    let (panel, dropped) = dismiss_request(&mut s, "a".to_string());
    assert_eq!(panel, PanelAction::Hide);
    assert!(dropped.is_none());
}
