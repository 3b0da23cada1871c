use yakyak::domain::call_manager::{
    ActiveCall, ActiveCallManager, CallControlAction, CallDirection, CallState,
};

fn register(m: &mut ActiveCallManager, id: &str, dir: CallDirection, a: &str, b: &str) -> u128 {
    m.register_call(id.to_string(), dir, a.to_string(), b.to_string())
}

#[test]
fn test_call_state_active() {
    assert!(CallState::Active.is_active());
    assert!(CallState::OnHold.is_active());
    assert!(!CallState::Terminated.is_active());
}

#[test]
fn test_active_call_creation() {
    let call = ActiveCall::new(
        "call-123".to_string(),
        CallDirection::Inbound,
        "alice@example.com".to_string(),
        "bob@example.com".to_string(),
    );
    assert_eq!(call.call_id, "call-123");
    assert_eq!(call.state, CallState::Initiating);
    assert!(call.answered_at.is_none());
}

#[test]
fn test_active_call_answer() {
    let mut call = ActiveCall::new(
        "call-456".to_string(),
        CallDirection::Outbound,
        "alice@example.com".to_string(),
        "bob@example.com".to_string(),
    );
    call.answer();
    assert_eq!(call.state, CallState::Active);
    assert!(call.answered_at.is_some());
}

#[test]
fn test_active_call_manager_register() {
    let mut manager = ActiveCallManager::new();
    let id = register(&mut manager, "call-789", CallDirection::Internal, "alice@example.com", "bob@example.com");
    assert!(id != 0);
    assert_eq!(manager.count(), 1);
    let call = manager.get_call("call-789");
    assert!(call.is_some());
}

#[test]
fn test_active_call_manager_update_state() {
    let mut manager = ActiveCallManager::new();
    register(&mut manager, "call-abc", CallDirection::Inbound, "alice@example.com", "bob@example.com");
    assert!(manager.update_state("call-abc", CallState::Ringing).is_ok());
    let call = manager.get_call("call-abc").unwrap();
    assert_eq!(call.state, CallState::Ringing);
}

#[test]
fn test_active_call_manager_terminate() {
    let mut manager = ActiveCallManager::new();
    register(&mut manager, "call-xyz", CallDirection::Outbound, "alice@example.com", "bob@example.com");
    assert_eq!(manager.count(), 1);
    let result = manager.terminate_call("call-xyz");
    assert!(result.is_ok());
    assert_eq!(manager.count(), 0);
    let history = manager.get_recent_history(10);
    assert_eq!(history.len(), 1);
}

#[test]
fn test_active_call_manager_statistics() {
    let mut manager = ActiveCallManager::new();
    register(&mut manager, "call-1", CallDirection::Inbound, "alice@example.com", "bob@example.com");
    register(&mut manager, "call-2", CallDirection::Outbound, "bob@example.com", "charlie@example.com");
    let stats = manager.get_statistics();
    assert_eq!(stats.total_active_calls, 2);
    assert_eq!(stats.inbound_calls, 1);
    assert_eq!(stats.outbound_calls, 1);
}

#[test]
fn test_active_call_manager_filter_by_direction() {
    let mut manager = ActiveCallManager::new();
    register(&mut manager, "call-in", CallDirection::Inbound, "alice@example.com", "bob@example.com");
    register(&mut manager, "call-out", CallDirection::Outbound, "bob@example.com", "charlie@example.com");
    let inbound = manager.get_calls_by_direction(CallDirection::Inbound);
    assert_eq!(inbound.len(), 1);
    let outbound = manager.get_calls_by_direction(CallDirection::Outbound);
    assert_eq!(outbound.len(), 1);
}

#[test]
fn test_call_control_actions() {
    let mut manager = ActiveCallManager::new();
    register(&mut manager, "call-ctrl", CallDirection::Inbound, "alice@example.com", "bob@example.com");
    let result = manager.control_call("call-ctrl", CallControlAction::Hold);
    assert!(result.success);
    let call = manager.get_call("call-ctrl").unwrap();
    assert!(call.is_on_hold);
    let result = manager.control_call("call-ctrl", CallControlAction::Resume);
    assert!(result.success);
    let result = manager.control_call(
        "call-ctrl",
        CallControlAction::Hangup { reason: "User request".to_string() },
    );
    assert!(result.success);
    assert_eq!(manager.count(), 0);
}

#[test]
fn call_state_labels() {
    assert_eq!(CallState::OnHold.as_str(), "on_hold");
    assert_eq!(CallState::Initiating.as_str(), "initiating");
    assert!(CallState::Transferring.is_active());
    assert!(!CallState::Ringing.is_active());
}

#[test]
fn control_messages_and_errors() {
    let mut m = ActiveCallManager::new();
    let r = m.control_call("none", CallControlAction::Hold);
    assert!(!r.success);
    assert_eq!(r.message, "Call none not found");
    assert_eq!(r.call_id, "none");
    register(&mut m, "c", CallDirection::Inbound, "a", "b");
    let r = m.control_call("c", CallControlAction::Mute { party: "a".to_string() });
    assert!(!r.success);
    assert_eq!(r.message, "Mute/unmute not yet implemented");
    let r = m.control_call_at("c", CallControlAction::Transfer { target: "x".to_string() }, 5_000);
    assert_eq!(r.message, "Transfer initiated to x");
    assert_eq!(m.get_call("c").unwrap().state, CallState::Transferring);
    let r = m.control_call("c", CallControlAction::StartRecording);
    assert_eq!(r.message, "Recording started");
    assert!(m.get_call("c").unwrap().is_recording);
    let r = m.control_call("c", CallControlAction::Hold);
    assert_eq!(r.message, "Call placed on hold");
    assert_eq!(m.get_call("c").unwrap().state, CallState::OnHold);
    let r = m.control_call("c", CallControlAction::Resume);
    assert_eq!(r.message, "Call resumed");
    assert_eq!(m.get_call("c").unwrap().state, CallState::Active);
    let r = m.control_call("c", CallControlAction::Hangup { reason: "done".to_string() });
    assert_eq!(r.message, "Call terminated: done");
    assert!(m.update_state("c", CallState::Active).is_err());
}

#[test]
fn durations_statistics_and_history() {
    let mut m = ActiveCallManager::new();
    m.register_call_at("a".to_string(), CallDirection::Inbound, "u1".to_string(), "u2".to_string(), 1_000);
    m.register_call_at("b".to_string(), CallDirection::Internal, "u2".to_string(), "u3".to_string(), 2_000);
    assert!(m.update_state_at("a", CallState::Active, 3_000).is_ok());
    assert_eq!(m.get_call("a").unwrap().answered_at, Some(3_000));
    assert!(m.update_quality("a", 420).is_ok());
    assert!(m.set_recording("b", true).is_ok());
    let all = m.get_all_calls_at(13_500);
    assert_eq!(all.len(), 2);
    assert_eq!(m.get_call("a").unwrap().duration_seconds, 10);
    assert_eq!(m.get_call("b").unwrap().duration_seconds, 11);
    let s = m.get_statistics();
    assert_eq!(s.total_duration_seconds, 21);
    assert_eq!(s.longest_call_seconds, 11);
    assert_eq!(s.total_mos_hundredths, 420);
    assert_eq!(s.mos_samples, 1);
    assert_eq!(s.calls_recording, 1);
    assert_eq!(s.internal_calls, 1);
    assert_eq!(m.get_calls_by_user("u2").len(), 2);
    assert_eq!(m.get_calls_by_user("u3").len(), 1);
    assert_eq!(m.get_calls_by_state(CallState::Active).len(), 1);
    let ended = m.terminate_call_at("a", 20_000).unwrap();
    assert_eq!(ended.state, CallState::Terminated);
    assert_eq!(ended.duration_seconds, 17);
    m.terminate_call_at("b", 20_000).unwrap();
    let h = m.get_recent_history(1);
    assert_eq!(h.len(), 1);
    assert_eq!(h[0].call_id, "b");
    assert_eq!(m.get_recent_history(5).len(), 2);
}

#[test]
fn tags_are_kept_once() {
    let mut c = ActiveCall::new("t".to_string(), CallDirection::Inbound, "a".to_string(), "b".to_string());
    c.add_tag("vip".to_string());
    c.add_tag("vip".to_string());
    c.add_tag("sales".to_string());
    assert_eq!(c.tags, vec!["vip".to_string(), "sales".to_string()]);
    assert_eq!(c.codec, "PCMU");
}
