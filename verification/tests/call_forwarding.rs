use yakyak::domain::call_forwarding::{
    CallForwardingManager, CallerFilter, ForwardingDestination, ForwardingRule, ForwardingType,
    TimeRange,
};
use yakyak::domain::shared::calendar::{TimeOfDay, Weekday};

fn t(h: u32, m: u32) -> TimeOfDay {
    TimeOfDay::from_hms(h, m, 0).unwrap()
}

fn rule(user: &str, ty: ForwardingType, dest: &str) -> ForwardingRule {
    ForwardingRule::new(user.to_string(), ty, ForwardingDestination::new(dest.to_string()))
}

#[test]
fn test_forwarding_type_description() {
    assert_eq!(ForwardingType::Unconditional.description(), "Forward all calls");
    assert_eq!(ForwardingType::Busy.description(), "Forward when busy");
    assert_eq!(ForwardingType::NoAnswer.description(), "Forward on no answer");
}

#[test]
fn test_forwarding_destination() {
    let dest = ForwardingDestination::new("sip:alice@example.com".to_string());
    assert_eq!(dest.uri, "sip:alice@example.com");
    assert!(dest.is_external);
    let dest2 = ForwardingDestination::new("100".to_string());
    assert_eq!(dest2.uri, "100");
    assert!(!dest2.is_external);
    let dest3 = ForwardingDestination::new("sip:100@localhost".to_string());
    assert!(!dest3.is_external);
}

#[test]
fn test_time_range_contains() {
    let range = TimeRange::new(t(9, 0), t(17, 0));
    assert!(range.contains(t(10, 0), Weekday::Mon));
    assert!(!range.contains(t(20, 0), Weekday::Mon));
}

#[test]
fn test_time_range_weekday_filter() {
    let range = TimeRange::new(t(9, 0), t(17, 0)).with_days(vec![Weekday::Mon, Weekday::Tue, Weekday::Wed]);
    assert!(range.contains(t(10, 0), Weekday::Mon));
    assert!(!range.contains(t(10, 0), Weekday::Sat));
}

#[test]
fn test_time_range_crosses_midnight() {
    let range = TimeRange::new(t(22, 0), t(6, 0));
    assert!(range.contains(t(23, 0), Weekday::Mon));
    assert!(range.contains(t(5, 0), Weekday::Mon));
    assert!(!range.contains(t(14, 0), Weekday::Mon));
}

#[test]
fn test_caller_filter_exact_match() {
    let filter = CallerFilter::new().add_caller("1001".to_string()).add_caller("1002".to_string());
    assert!(filter.matches("1001"));
    assert!(filter.matches("1002"));
    assert!(!filter.matches("1003"));
    assert!(!filter.matches("10011"));
}

#[test]
fn test_caller_filter_prefix_match() {
    let filter = CallerFilter::new().add_caller("100".to_string()).with_prefix_matching();
    assert!(filter.matches("1001"));
    assert!(filter.matches("1002"));
    assert!(filter.matches("100"));
    assert!(!filter.matches("200"));
}

#[test]
fn test_forwarding_rule_creation() {
    let dest = ForwardingDestination::new("sip:voicemail@example.com".to_string());
    let rule = ForwardingRule::new("alice".to_string(), ForwardingType::NoAnswer, dest.clone());
    assert_eq!(rule.user_id, "alice");
    assert_eq!(rule.forwarding_type, ForwardingType::NoAnswer);
    assert_eq!(rule.destination.uri, "sip:voicemail@example.com");
    assert!(rule.enabled);
    assert_eq!(rule.timeout_seconds, Some(20));
    assert_eq!(rule.priority, 100);
}

#[test]
fn test_forwarding_rule_should_apply() {
    let r = rule("alice", ForwardingType::TimeBased, "100").with_time_range(TimeRange::business_hours());
    let disabled_rule = r.clone().disabled();
    assert!(!disabled_rule.should_apply("caller", 1_700_000_000_000));
}

#[test]
fn test_add_forwarding_rule() {
    let mut manager = CallForwardingManager::new();
    let rule_id = manager.add_rule(rule("alice", ForwardingType::Unconditional, "100")).unwrap();
    assert!(rule_id != 0);
    let user_rules = manager.get_user_rules("alice");
    assert_eq!(user_rules.len(), 1);
    assert_eq!(user_rules[0].id, rule_id);
}

#[test]
fn test_duplicate_unconditional_forwarding() {
    let mut manager = CallForwardingManager::new();
    manager.add_rule(rule("alice", ForwardingType::Unconditional, "100")).unwrap();
    let result = manager.add_rule(rule("alice", ForwardingType::Unconditional, "200"));
    assert!(result.is_err());
    assert!(result.unwrap_err().contains("already has an active unconditional"));
}

#[test]
fn test_enable_disable_rule() {
    let mut manager = CallForwardingManager::new();
    let rule_id = manager.add_rule(rule("alice", ForwardingType::Busy, "100")).unwrap();
    manager.disable_rule("alice", rule_id).unwrap();
    assert!(!manager.get_rule("alice", rule_id).unwrap().enabled);
    manager.enable_rule("alice", rule_id).unwrap();
    assert!(manager.get_rule("alice", rule_id).unwrap().enabled);
}

#[test]
fn test_remove_rule() {
    let mut manager = CallForwardingManager::new();
    let rule_id = manager.add_rule(rule("alice", ForwardingType::Busy, "100")).unwrap();
    assert_eq!(manager.get_user_rules("alice").len(), 1);
    manager.remove_rule("alice", rule_id).unwrap();
    assert_eq!(manager.get_user_rules("alice").len(), 0);
}

#[test]
fn test_get_forward_destination() {
    let mut manager = CallForwardingManager::new();
    manager.add_rule(rule("alice", ForwardingType::Busy, "100")).unwrap();
    let result = manager.get_forward_destination("alice", ForwardingType::Busy, "caller");
    assert!(result.is_some());
    assert_eq!(result.unwrap().uri, "100");
    let no_answer_result = manager.get_forward_destination("alice", ForwardingType::NoAnswer, "caller");
    assert!(no_answer_result.is_none());
}

#[test]
fn test_rule_priority() {
    let mut manager = CallForwardingManager::new();
    manager.add_rule(rule("alice", ForwardingType::Busy, "100").with_priority(50)).unwrap();
    manager.add_rule(rule("alice", ForwardingType::Busy, "200").with_priority(10)).unwrap();
    let result = manager.get_forward_destination("alice", ForwardingType::Busy, "caller");
    assert_eq!(result.unwrap().uri, "200");
}

#[test]
fn test_forwarding_status() {
    let mut manager = CallForwardingManager::new();
    manager.add_rule(rule("alice", ForwardingType::Unconditional, "100")).unwrap();
    manager.add_rule(rule("alice", ForwardingType::Busy, "200")).unwrap();
    let status = manager.get_status("alice");
    assert!(status.has_active_forwarding);
    assert_eq!(status.active_rules_count, 2);
    assert_eq!(status.unconditional_destination.unwrap(), "100");
    assert_eq!(status.busy_destination.unwrap(), "200");
}

#[test]
fn test_forwarding_statistics() {
    let mut manager = CallForwardingManager::new();
    manager.add_rule(rule("alice", ForwardingType::Unconditional, "100")).unwrap();
    manager.add_rule(rule("bob", ForwardingType::Busy, "200").disabled()).unwrap();
    manager.record_forwarded_call(ForwardingType::Unconditional);
    manager.record_forwarded_call(ForwardingType::Unconditional);
    manager.record_forwarded_call(ForwardingType::Busy);
    let stats = manager.get_statistics();
    assert_eq!(stats.total_rules, 2);
    assert_eq!(stats.active_rules, 1);
    assert_eq!(stats.disabled_rules, 1);
    assert_eq!(stats.total_forwarded_calls, 3);
    assert_eq!(stats.users_with_forwarding, 1);
}

#[test]
fn test_loop_detection() {
    let mut manager = CallForwardingManager::new();
    manager.add_rule(rule("alice", ForwardingType::Unconditional, "bob")).unwrap();
    manager.add_rule(rule("bob", ForwardingType::Unconditional, "charlie")).unwrap();
    let mut visited = Vec::new();
    assert!(manager.would_create_loop("charlie", "alice", &mut visited));
    let mut visited2 = Vec::new();
    assert!(!manager.would_create_loop("charlie", "david", &mut visited2));
}

#[test]
fn test_remove_all_user_rules() {
    let mut manager = CallForwardingManager::new();
    manager.add_rule(rule("alice", ForwardingType::Unconditional, "100")).unwrap();
    manager.add_rule(rule("alice", ForwardingType::Busy, "200")).unwrap();
    let removed = manager.remove_all_user_rules("alice");
    assert_eq!(removed, 2);
    assert_eq!(manager.get_user_rules("alice").len(), 0);
}

#[test]
fn forwarding_errors_update_and_order() {
    let mut m = CallForwardingManager::new();
    assert_eq!(m.remove_rule("x", 1), Err("User has no forwarding rules".to_string()));
    let a = m.add_rule(rule("u", ForwardingType::Busy, "a").with_priority(5)).unwrap();
    let b = m.add_rule(rule("u", ForwardingType::Busy, "b").with_priority(5)).unwrap();
    let c = m.add_rule(rule("u", ForwardingType::Busy, "c").with_priority(1)).unwrap();
    let ids: Vec<u128> = m.get_user_rules("u").iter().map(|r| r.id).collect();
    assert_eq!(ids, vec![c, a, b]);
    assert_eq!(m.remove_rule("u", 99), Err("Forwarding rule not found".to_string()));
    assert_eq!(m.enable_rule("u", 99), Err("Forwarding rule not found".to_string()));
    let mut moved = m.get_rule("u", a).unwrap();
    moved.priority = 9;
    m.update_rule(moved).unwrap();
    let ids: Vec<u128> = m.get_user_rules("u").iter().map(|r| r.id).collect();
    assert_eq!(ids, vec![c, b, a]);
    let mut missing = rule("u", ForwardingType::Busy, "z");
    missing.id = 12345;
    assert_eq!(m.update_rule(missing), Err("Forwarding rule not found".to_string()));
    assert_eq!(m.list_users_with_forwarding(), vec!["u".to_string()]);
    m.disable_rule("u", a).unwrap();
    m.disable_rule("u", b).unwrap();
    m.disable_rule("u", c).unwrap();
    assert!(m.list_users_with_forwarding().is_empty());
    assert!(!m.get_status("u").has_active_forwarding);
}

#[test]
fn forwarding_conditions() {
    let mut m = CallForwardingManager::new();
    let filter = CallerFilter::new().add_caller("555".to_string()).with_prefix_matching();
    m.add_rule(rule("u", ForwardingType::CallerBased, "vip").with_caller_filter(filter).with_priority(1)).unwrap();
    // 1970-01-05 was a Monday; 10:00 UTC that day
    let monday_10 = (4 * 86_400 + 10 * 3_600) * 1_000;
    let range = TimeRange::new(t(9, 0), t(17, 0)).with_days(vec![Weekday::Mon]);
    m.add_rule(rule("u", ForwardingType::TimeBased, "office").with_time_range(range).with_priority(2)).unwrap();
    let r = m.get_any_forward_destination_at("u", "5551234", monday_10).unwrap();
    assert_eq!(r.1.uri, "vip");
    let r = m.get_any_forward_destination_at("u", "999", monday_10).unwrap();
    assert_eq!(r.0, ForwardingType::TimeBased);
    assert!(m.get_any_forward_destination_at("u", "999", monday_10 + 86_400_000).is_none());
    let mut visited = vec!["x".to_string()];
    assert!(m.would_create_loop_at("src", "x", &mut visited, monday_10));
    let mut visited = Vec::new();
    assert!(!m.would_create_loop_at("src", "u", &mut visited, monday_10));
    assert_eq!(visited, vec!["u".to_string(), "office".to_string()]);
}
