use yakyak::domain::dnd::{wildcard_match, DndException, DndManager, DndMode, DndSchedule, ExceptionType};
use yakyak::domain::shared::calendar::{TimeOfDay, Weekday};

fn hms(h: u32, m: u32, s: u32) -> TimeOfDay {
    TimeOfDay::from_hms(h, m, s).unwrap()
}

#[test]
fn test_dnd_mode_description() {
    assert_eq!(DndMode::RejectBusy.description(), "Reject with busy signal");
    assert_eq!(DndMode::SendToVoicemail.description(), "Send to voicemail");
}

#[test]
fn test_dnd_mode_sip_codes() {
    assert_eq!(DndMode::RejectBusy.sip_response_code(), 486);
    assert_eq!(DndMode::SendToVoicemail.sip_response_code(), 302);
    assert_eq!(DndMode::SilentReject.sip_response_code(), 603);
}

#[test]
fn test_dnd_schedule_is_active() {
    let schedule = DndSchedule::new("Test".to_string(), hms(9, 0, 0), hms(17, 0, 0), DndMode::RejectBusy);
    assert!(schedule.is_active(hms(10, 0, 0), Weekday::Mon));
    assert!(!schedule.is_active(hms(20, 0, 0), Weekday::Mon));
}

#[test]
fn test_dnd_schedule_midnight_crossing() {
    let schedule = DndSchedule::new("Night".to_string(), hms(22, 0, 0), hms(6, 0, 0), DndMode::SendToVoicemail);
    assert!(schedule.is_active(hms(23, 0, 0), Weekday::Mon));
    assert!(schedule.is_active(hms(5, 0, 0), Weekday::Mon));
    assert!(!schedule.is_active(hms(14, 0, 0), Weekday::Mon));
}

#[test]
fn test_dnd_schedule_weekday_filter() {
    let schedule = DndSchedule::business_hours(DndMode::RejectBusy);
    let time = hms(10, 0, 0);
    assert!(schedule.is_active(time, Weekday::Mon));
    assert!(schedule.is_active(time, Weekday::Fri));
    assert!(!schedule.is_active(time, Weekday::Sat));
    assert!(!schedule.is_active(time, Weekday::Sun));
}

#[test]
fn test_exception_exact_match() {
    let exception = DndException::new(ExceptionType::Exact, vec!["1001".to_string(), "1002".to_string()]);
    assert!(exception.matches_caller("1001"));
    assert!(exception.matches_caller("1002"));
    assert!(!exception.matches_caller("1003"));
    assert!(!exception.matches_caller("10011"));
}

#[test]
fn test_exception_prefix_match() {
    let exception = DndException::new(ExceptionType::Prefix, vec!["555".to_string()]);
    assert!(exception.matches_caller("5551234"));
    assert!(exception.matches_caller("5559999"));
    assert!(!exception.matches_caller("4441234"));
}

#[test]
fn test_exception_wildcard_match() {
    let exception = DndException::new(ExceptionType::Wildcard, vec!["*911".to_string(), "555*".to_string()]);
    assert!(exception.matches_caller("911"));
    assert!(exception.matches_caller("555123"));
    assert!(exception.matches_caller("0911"));
    assert!(!exception.matches_caller("9110"));
}

#[test]
fn test_wildcard_matching() {
    assert!(wildcard_match("*911", "911"));
    assert!(wildcard_match("*911", "0911"));
    assert!(!wildcard_match("*911", "9110"));
    assert!(wildcard_match("555*", "5551234"));
    assert!(!wildcard_match("555*", "4551234"));
    assert!(wildcard_match("*emergency*", "this_is_emergency_call"));
    assert!(!wildcard_match("*emergency*", "normal_call"));
}

#[test]
fn test_wildcard_edge_cases() {
    assert!(wildcard_match("", ""));
    assert!(!wildcard_match("", "a"));
    assert!(wildcard_match("abc", "abc"));
    assert!(!wildcard_match("abc", "abcd"));
    assert!(wildcard_match("a*b*c", "a-b-c"));
    assert!(!wildcard_match("a*b*c", "a-c-b"));
    assert!(wildcard_match("*", ""));
    assert!(wildcard_match("**", "x"));
    // the last piece is matched against the end of the whole text
    assert!(wildcard_match("ab*b", "ab"));
}

#[test]
fn test_exception_contains_match() {
    let exception = DndException::new(ExceptionType::Contains, vec!["emergency".to_string()]);
    assert!(exception.matches_caller("city-emergency-line"));
    assert!(!exception.matches_caller("city-line"));
}

#[test]
fn test_enable_disable_dnd() {
    let mut manager = DndManager::new();
    manager.enable_dnd("alice", DndMode::RejectBusy, true);
    assert!(manager.is_enabled("alice"));
    manager.disable_dnd("alice");
    assert!(!manager.is_enabled("alice"));
}

#[test]
fn test_toggle_dnd() {
    let mut manager = DndManager::new();
    assert!(manager.toggle_dnd("alice", DndMode::RejectBusy));
    assert!(manager.is_enabled("alice"));
    assert!(!manager.toggle_dnd("alice", DndMode::RejectBusy));
    assert!(!manager.is_enabled("alice"));
}

#[test]
fn test_should_block_call_basic() {
    let mut manager = DndManager::new();
    manager.enable_dnd("alice", DndMode::RejectBusy, true);
    let (should_block, mode) = manager.should_block_call("alice", "1001");
    assert!(should_block);
    assert_eq!(mode, Some(DndMode::RejectBusy));
}

#[test]
fn test_should_block_call_with_exception() {
    let mut manager = DndManager::new();
    manager.enable_dnd("alice", DndMode::RejectBusy, true);
    let exception = DndException::new(ExceptionType::Exact, vec!["1001".to_string()]);
    manager.add_exception("alice", exception);
    let (should_block_vip, _) = manager.should_block_call("alice", "1001");
    assert!(!should_block_vip);
    let (should_block_other, mode) = manager.should_block_call("alice", "1002");
    assert!(should_block_other);
    assert_eq!(mode, Some(DndMode::RejectBusy));
}

#[test]
fn test_schedule_based_dnd() {
    let mut manager = DndManager::new();
    let schedule = DndSchedule::night_hours(DndMode::SendToVoicemail);
    manager.add_schedule("alice", schedule);
    let status = manager.get_status("alice").unwrap();
    assert_eq!(status.schedules.len(), 1);
    // at night the schedule blocks with its own mode; by day it does not
    assert_eq!(manager.should_block_call_at("alice", "1001", hms(23, 30, 0), Weekday::Wed), (true, Some(DndMode::SendToVoicemail)));
    assert_eq!(manager.should_block_call_at("alice", "1001", hms(12, 0, 0), Weekday::Wed), (false, None));
}

#[test]
fn test_add_remove_schedule() {
    let mut manager = DndManager::new();
    let schedule = DndSchedule::business_hours(DndMode::RejectBusy);
    let schedule_id = manager.add_schedule("alice", schedule);
    let status = manager.get_status("alice").unwrap();
    assert_eq!(status.schedules.len(), 1);
    manager.remove_schedule("alice", schedule_id).unwrap();
    let status_after = manager.get_status("alice").unwrap();
    assert_eq!(status_after.schedules.len(), 0);
    assert_eq!(manager.remove_schedule("alice", schedule_id), Err("Schedule not found".to_string()));
    assert_eq!(manager.remove_schedule("nobody", schedule_id), Err("User not found".to_string()));
}

#[test]
fn test_add_remove_exception() {
    let mut manager = DndManager::new();
    let exception = DndException::new(ExceptionType::Exact, vec!["1001".to_string()]);
    let exception_id = manager.add_exception("alice", exception);
    let status = manager.get_status("alice").unwrap();
    assert_eq!(status.exceptions.len(), 1);
    manager.remove_exception("alice", exception_id).unwrap();
    let status_after = manager.get_status("alice").unwrap();
    assert_eq!(status_after.exceptions.len(), 0);
}

#[test]
fn test_set_alternate_destination() {
    let mut manager = DndManager::new();
    manager.enable_dnd("alice", DndMode::ForwardToAlternate, true);
    manager.set_alternate_destination("alice", "bob".to_string());
    let status = manager.get_status("alice").unwrap();
    assert_eq!(status.alternate_destination, Some("bob".to_string()));
}

#[test]
fn test_dnd_statistics() {
    let mut manager = DndManager::new();
    manager.enable_dnd("alice", DndMode::RejectBusy, true);
    manager.enable_dnd("bob", DndMode::SendToVoicemail, true);
    manager.should_block_call("alice", "1001");
    manager.should_block_call("alice", "1002");
    manager.should_block_call("bob", "1003");
    let stats = manager.get_statistics();
    assert_eq!(stats.users_with_dnd_enabled, 2);
    assert_eq!(stats.total_blocked_calls, 3);
    assert_eq!(stats.blocked_by_mode.get("RejectBusy"), Some(&2));
    assert_eq!(manager.blocked_in_mode(DndMode::SendToVoicemail), 1);
}

#[test]
fn test_list_users_with_dnd() {
    let mut manager = DndManager::new();
    manager.enable_dnd("alice", DndMode::RejectBusy, true);
    manager.enable_dnd("bob", DndMode::SendToVoicemail, true);
    manager.enable_dnd("charlie", DndMode::RejectBusy, true);
    manager.disable_dnd("charlie");
    let users = manager.list_users_with_dnd();
    assert_eq!(users.len(), 2);
    assert!(users.contains(&"alice".to_string()));
    assert!(users.contains(&"bob".to_string()));
    assert!(!users.contains(&"charlie".to_string()));
}

#[test]
fn test_disabled_exception_not_matched() {
    let exception = DndException::new(ExceptionType::Exact, vec!["1001".to_string()]).disabled();
    assert!(!exception.matches_caller("1001"));
}

#[test]
fn test_disabled_schedule_not_active() {
    let schedule = DndSchedule::business_hours(DndMode::RejectBusy).disabled();
    assert!(!schedule.is_active(hms(10, 0, 0), Weekday::Mon));
}

#[test]
fn wildcard_pieces_do_not_overlap() {
    assert!(!wildcard_match("ab*b", "ab"));
    assert!(wildcard_match("ab*b", "abb"));
    assert!(wildcard_match("a*b*c", "abc"));
    assert!(!wildcard_match("a*bc*c", "abc"));
    assert!(wildcard_match("*", ""));
    assert!(!wildcard_match("a*a", "a"));
}
