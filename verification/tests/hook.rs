use noddo::models::{DecisionAction, HookInput, PermissionDecision};
use noddo::server::{hook_reply, prompt_for, prompt_or_fail, screen_request, Intake, STATUS_CLOCK_UNAVAILABLE, STATUS_GONE};
use noddo::stamps::stamp_at;
use noddo::state::AppState;

fn input(tool: &str) -> HookInput {
    HookInput {
        tool_name: tool.to_string(),
        tool_input: "{\"command\":\"ls -la\"}".to_string(),
        hook_event_name: Some("PreToolUse".to_string()),
    }
}

fn is_uuid_v4(s: &str) -> bool {
    let b = s.as_bytes();
    b.len() == 36
        && b.iter().enumerate().all(|(i, c)| match i {
            8 | 13 | 18 | 23 => *c == b'-',
            _ => c.is_ascii_digit() || (b'a'..=b'f').contains(c),
        })
        && b[14] == b'4'
        && matches!(b[19], b'8' | b'9' | b'a' | b'b')
}

fn is_utc_rfc3339(s: &str) -> bool {
    let b = s.as_bytes();
    if b.len() < 4 + 15 + 6 || !s.ends_with("+00:00") {
        return false;
    }
    let digits = |r: &[u8]| r.iter().all(|c| c.is_ascii_digit());
    let year = &b[0..4];
    let clock = &b[4..19];
    let fraction = &b[19..b.len() - 6];
    digits(year)
        && clock[0] == b'-' && clock[3] == b'-' && clock[6] == b'T' && clock[9] == b':' && clock[12] == b':'
        && digits(&clock[1..3]) && digits(&clock[4..6]) && digits(&clock[7..9])
        && digits(&clock[10..12]) && digits(&clock[13..15])
        && (fraction.is_empty()
            || ([4, 7, 10].contains(&fraction.len()) && fraction[0] == b'.' && digits(&fraction[1..])))
}

#[test]
fn auto_allowed_tool_is_answered_at_once() {
    let mut s = AppState::new();
    s.add_auto_allow("Bash".to_string());
    match screen_request(&s, input("Bash")) {
        Intake::Respond(r) => {
            assert_eq!(r.hook_specific_output.permission_decision, "allow");
            assert_eq!(r.hook_specific_output.hook_event_name, "PreToolUse");
            assert_eq!(r.system_message, None);
        }
        Intake::Prompt(_) | Intake::Fail(_) => panic!("expected an immediate answer"),
    }
    assert!(s.get_pending_requests().is_empty());
}

#[test]
fn other_tool_becomes_a_prompt() {
    let mut s = AppState::new();
    s.add_auto_allow("Bash".to_string());
    match screen_request(&s, input("Write")) {
        Intake::Prompt(p) => {
            assert_eq!(p.tool_name, "Write");
            assert_eq!(p.tool_input, "{\"command\":\"ls -la\"}");
            assert!(is_uuid_v4(&p.id), "id {}", p.id);
            assert!(is_utc_rfc3339(&p.received_at), "stamp {}", p.received_at);
        }
        Intake::Respond(_) | Intake::Fail(_) => panic!("expected a prompt"),
    }
}

#[test]
fn prompts_get_fresh_ids() {
    let s = AppState::new();
    let a = match screen_request(&s, input("Read")) {
        Intake::Prompt(p) => p.id,
        Intake::Respond(_) | Intake::Fail(_) => panic!("expected a prompt"),
    };
    let b = match screen_request(&s, input("Read")) {
        Intake::Prompt(p) => p.id,
        Intake::Respond(_) | Intake::Fail(_) => panic!("expected a prompt"),
    };
    assert_ne!(a, b);
}

#[test]
fn prompt_for_keeps_its_arguments() {
    let p = prompt_for(input("Edit"), "id-7".to_string(), "2025-02-03T04:05:06+00:00".to_string());
    assert_eq!(p.id, "id-7");
    assert_eq!(p.tool_name, "Edit");
    assert_eq!(p.tool_input, "{\"command\":\"ls -la\"}");
    assert_eq!(p.received_at, "2025-02-03T04:05:06+00:00");
}

#[test]
fn reply_follows_decision() {
    let allow = PermissionDecision { id: "x".to_string(), action: DecisionAction::Bypass, reason: None };
    let r = hook_reply(Ok(allow)).unwrap();
    assert_eq!(r.hook_specific_output.permission_decision, "allow");
    let deny = PermissionDecision {
        id: "x".to_string(),
        action: DecisionAction::Deny,
        reason: Some("Use the test runner".to_string()),
    };
    let r = hook_reply(Ok(deny)).unwrap();
    assert_eq!(r.hook_specific_output.permission_decision, "block");
    assert_eq!(r.system_message, Some("Use the test runner".to_string()));
}

#[test]
fn reply_after_dropped_sender_is_gone() {
    let (tx, rx) = tokio::sync::oneshot::channel::<PermissionDecision>();
    drop(tx);
    let r = hook_reply(rx.blocking_recv());
    assert_eq!(r.err(), Some(410));
    assert_eq!(STATUS_GONE, 410);
}

#[test]
fn full_round_trip_with_allow_all() {
    let mut s = AppState::new();
    let req = match screen_request(&s, input("Bash")) {
        Intake::Prompt(p) => p,
        Intake::Respond(_) | Intake::Fail(_) => panic!("expected a prompt"),
    };
    let id = req.id.clone();
    let rx = s.insert_request(req).0.into_receiver();
    let r = noddo::commands::resolve_permission(&mut s, id, "allow_all".to_string(), None, Some("Bash".to_string()));
    assert!(r.is_ok());
    let reply = hook_reply(rx.blocking_recv()).unwrap();
    assert_eq!(reply.hook_specific_output.permission_decision, "allow");
    assert!(matches!(screen_request(&s, input("Bash")), Intake::Respond(_)));
}

#[test]
fn stamp_at_epoch_and_later() {
    assert_eq!(stamp_at(0, 0), Some("1970-01-01T00:00:00+00:00".to_string()));
    assert_eq!(stamp_at(1431648000, 0), Some("2015-05-15T00:00:00+00:00".to_string()));
    assert_eq!(stamp_at(1431648000, 123_000_000), Some("2015-05-15T00:00:00.123+00:00".to_string()));
    let s = stamp_at(253_402_300_799, 999_999_999).unwrap();
    assert!(is_utc_rfc3339(&s), "stamp {}", s);
}

#[test]
fn stamp_at_out_of_range_is_none() {
    assert_eq!(stamp_at(u64::MAX, 0), None);
    assert_eq!(stamp_at(9_223_372_036_854_775_807, 0), None);
    assert_eq!(stamp_at(0, 2_000_000_000), None);
}

#[test]
fn missing_stamp_fails_the_call() {
    match prompt_or_fail(input("Bash"), "id-1".to_string(), None) {
        Intake::Fail(code) => assert_eq!(code, STATUS_CLOCK_UNAVAILABLE),
        _ => panic!("expected a failure"),
    }
    match prompt_or_fail(input("Bash"), "id-1".to_string(), Some("2015-05-15T00:00:00+00:00".to_string())) {
        Intake::Prompt(p) => {
            assert_eq!(p.id, "id-1");
            assert_eq!(p.received_at, "2015-05-15T00:00:00+00:00");
            assert_eq!(p.tool_name, "Bash");
        }
        _ => panic!("expected a prompt"),
    }
}
