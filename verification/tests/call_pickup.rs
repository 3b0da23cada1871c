use yakyak::domain::call_pickup::{
    CallPickupManager, PickupGroup, PickupPermissions, PickupResult, PickupType, RingingCall,
};

fn call(id: &str, ext: &str, caller: &str) -> RingingCall {
    RingingCall::new(id.to_string(), ext.to_string(), caller.to_string())
}

#[test]
fn test_pickup_type_description() {
    assert_eq!(PickupType::Directed.description(), "Directed pickup (specific extension)");
    assert_eq!(PickupType::Group.description(), "Group pickup (within group)");
}

#[test]
fn test_pickup_type_dial_codes() {
    assert_eq!(PickupType::Directed.dial_code(), "*8");
    assert_eq!(PickupType::Group.dial_code(), "*9");
    assert_eq!(PickupType::Any.dial_code(), "*10");
    assert_eq!(PickupType::Blf.dial_code(), "*11");
}

#[test]
fn test_pickup_group_creation() {
    let group = PickupGroup::new("Sales Team".to_string())
        .with_description("Sales department pickup group".to_string())
        .with_members(vec!["alice".to_string(), "bob".to_string()]);
    assert_eq!(group.name, "Sales Team");
    assert_eq!(group.member_count(), 2);
    assert!(group.has_member("alice"));
    assert!(group.has_member("bob"));
    assert!(!group.has_member("charlie"));
}

#[test]
fn test_pickup_group_add_remove_member() {
    let mut group = PickupGroup::new("Test Group".to_string());
    assert!(group.add_member("alice".to_string()));
    assert_eq!(group.member_count(), 1);
    assert!(!group.add_member("alice".to_string()));
    assert!(group.remove_member("alice"));
    assert_eq!(group.member_count(), 0);
    assert!(!group.remove_member("alice"));
}

#[test]
fn test_pickup_permissions() {
    let user_perms = PickupPermissions::user_default();
    assert!(user_perms.directed_pickup);
    assert!(user_perms.group_pickup);
    assert!(!user_perms.any_pickup);
    let admin_perms = PickupPermissions::admin();
    assert!(admin_perms.any_pickup);
    let restricted_perms = PickupPermissions::restricted();
    assert!(!restricted_perms.directed_pickup);
    assert!(!restricted_perms.group_pickup);
}

#[test]
fn test_ringing_call() {
    let c = call("call-123", "alice", "1001").with_caller_name("John Doe".to_string());
    assert_eq!(c.call_id, "call-123");
    assert_eq!(c.target_extension, "alice");
    assert_eq!(c.caller_name, Some("John Doe".to_string()));
    assert!(c.ringing_duration_seconds() >= 0);
}

#[test]
fn test_create_pickup_group() {
    let mut manager = CallPickupManager::new();
    let group = PickupGroup::new("Support".to_string())
        .with_members(vec!["alice".to_string(), "bob".to_string()]);
    let group_id = manager.create_group(group);
    let retrieved = manager.get_group(group_id).unwrap();
    assert_eq!(retrieved.name, "Support");
    assert_eq!(retrieved.member_count(), 2);
}

#[test]
fn test_directed_pickup_success() {
    let mut manager = CallPickupManager::new();
    manager.set_permissions("charlie".to_string(), PickupPermissions::user_default());
    manager.register_ringing_call(call("call-123", "alice", "1001"));
    let result = manager.attempt_directed_pickup("charlie", "alice");
    assert_eq!(result, PickupResult::Success("call-123".to_string()));
}

#[test]
fn test_directed_pickup_no_ringing_call() {
    let mut manager = CallPickupManager::new();
    manager.set_permissions("charlie".to_string(), PickupPermissions::user_default());
    let result = manager.attempt_directed_pickup("charlie", "alice");
    assert_eq!(result, PickupResult::NoRingingCall);
}

#[test]
fn test_directed_pickup_permission_denied() {
    let mut manager = CallPickupManager::new();
    manager.set_permissions("charlie".to_string(), PickupPermissions::restricted());
    manager.register_ringing_call(call("call-123", "alice", "1001"));
    let result = manager.attempt_directed_pickup("charlie", "alice");
    assert_eq!(result, PickupResult::PermissionDenied);
}

#[test]
fn test_group_pickup_success() {
    let mut manager = CallPickupManager::new();
    let group = PickupGroup::new("Support".to_string())
        .with_members(vec!["alice".to_string(), "bob".to_string()]);
    let group_id = manager.create_group(group);
    manager.set_permissions("bob".to_string(), PickupPermissions::user_default());
    manager.register_ringing_call(call("call-123", "alice", "1001").with_pickup_group(group_id));
    let result = manager.attempt_group_pickup("bob");
    assert_eq!(result, PickupResult::Success("call-123".to_string()));
}

#[test]
fn test_group_pickup_not_in_group() {
    let mut manager = CallPickupManager::new();
    manager.set_permissions("charlie".to_string(), PickupPermissions::user_default());
    let result = manager.attempt_group_pickup("charlie");
    assert_eq!(result, PickupResult::NotInGroup);
}

#[test]
fn test_blf_pickup_success() {
    let mut manager = CallPickupManager::new();
    let mut perms = PickupPermissions::user_default();
    perms.add_blf_monitor("alice".to_string());
    manager.set_permissions("bob".to_string(), perms);
    manager.register_ringing_call(call("call-123", "alice", "1001"));
    let result = manager.attempt_blf_pickup("bob", "alice");
    assert_eq!(result, PickupResult::Success("call-123".to_string()));
}

#[test]
fn test_blf_pickup_not_monitored() {
    let mut manager = CallPickupManager::new();
    manager.set_permissions("bob".to_string(), PickupPermissions::user_default());
    manager.register_ringing_call(call("call-123", "alice", "1001"));
    let result = manager.attempt_blf_pickup("bob", "alice");
    assert_eq!(result, PickupResult::NotAllowed);
}

#[test]
fn test_any_pickup_success() {
    let mut manager = CallPickupManager::new();
    manager.set_permissions("admin".to_string(), PickupPermissions::admin());
    manager.register_ringing_call(call("call-123", "alice", "1001"));
    let result = manager.attempt_any_pickup("admin");
    assert_eq!(result, PickupResult::Success("call-123".to_string()));
}

#[test]
fn test_any_pickup_permission_denied() {
    let mut manager = CallPickupManager::new();
    manager.set_permissions("user".to_string(), PickupPermissions::user_default());
    let result = manager.attempt_any_pickup("user");
    assert_eq!(result, PickupResult::PermissionDenied);
}

#[test]
fn test_unregister_ringing_call() {
    let mut manager = CallPickupManager::new();
    manager.register_ringing_call(call("call-123", "alice", "1001"));
    assert_eq!(manager.list_ringing_calls().len(), 1);
    manager.unregister_ringing_call("call-123");
    assert_eq!(manager.list_ringing_calls().len(), 0);
}

#[test]
fn test_list_group_ringing_calls() {
    let mut manager = CallPickupManager::new();
    let group = PickupGroup::new("Support".to_string())
        .with_members(vec!["alice".to_string(), "bob".to_string()]);
    let group_id = manager.create_group(group);
    manager.register_ringing_call(call("call-1", "alice", "1001").with_pickup_group(group_id));
    manager.register_ringing_call(call("call-2", "charlie", "1002"));
    let group_calls = manager.list_group_ringing_calls("bob");
    assert_eq!(group_calls.len(), 1);
    assert_eq!(group_calls[0].call_id, "call-1");
}

#[test]
fn test_pickup_statistics() {
    let mut manager = CallPickupManager::new();
    manager.set_permissions("user".to_string(), PickupPermissions::user_default());
    manager.register_ringing_call(call("call-123", "alice", "1001"));
    manager.attempt_directed_pickup("user", "alice");
    manager.attempt_directed_pickup("user", "bob");
    let stats = manager.get_statistics();
    assert_eq!(stats.total_attempts, 2);
    assert_eq!(stats.successful_pickups, 1);
    assert_eq!(stats.failed_pickups, 1);
    let rate = stats.successful_pickups as f64 / stats.total_attempts as f64 * 100.0;
    assert_eq!(rate, 50.0);
}

#[test]
fn test_add_remove_group_member() {
    let mut manager = CallPickupManager::new();
    let group = PickupGroup::new("Support".to_string()).with_members(vec!["alice".to_string()]);
    let group_id = manager.create_group(group);
    manager.add_member_to_group(group_id, "bob".to_string()).unwrap();
    let updated_group = manager.get_group(group_id).unwrap();
    assert_eq!(updated_group.member_count(), 2);
    manager.remove_member_from_group(group_id, "bob").unwrap();
    let final_group = manager.get_group(group_id).unwrap();
    assert_eq!(final_group.member_count(), 1);
}

#[test]
fn test_get_user_group() {
    let mut manager = CallPickupManager::new();
    let group = PickupGroup::new("Support".to_string()).with_members(vec!["alice".to_string()]);
    let group_id = manager.create_group(group);
    let user_group = manager.get_user_group("alice").unwrap();
    assert_eq!(user_group.id, group_id);
    assert_eq!(user_group.name, "Support");
    let no_group = manager.get_user_group("charlie");
    assert!(no_group.is_none());
}

#[test]
fn pickup_errors_and_groups() {
    let mut manager = CallPickupManager::new();
    assert_eq!(manager.delete_group(7), Err("Group not found".to_string()));
    assert_eq!(manager.add_member_to_group(7, "x".to_string()), Err("Group not found".to_string()));
    let group = PickupGroup::new("G".to_string()).with_members(vec!["a".to_string(), "a".to_string()]);
    assert_eq!(group.member_count(), 1);
    let gid = manager.create_group(group);
    assert_eq!(manager.remove_member_from_group(gid, "zz"), Err("User not in group".to_string()));
    let replacement = PickupGroup { id: gid, ..PickupGroup::new("H".to_string()) }
        .with_members(vec!["b".to_string()]);
    assert!(manager.update_group(replacement).is_ok());
    assert!(manager.get_user_group("a").is_none());
    assert_eq!(manager.get_user_group("b").unwrap().name, "H");
    assert!(manager.delete_group(gid).is_ok());
    assert!(manager.get_user_group("b").is_none());
    assert_eq!(manager.list_groups().len(), 0);
}

#[test]
fn pickup_blf_disabled_and_answered() {
    let mut manager = CallPickupManager::new();
    let mut perms = PickupPermissions::user_default();
    perms.add_blf_monitor("alice".to_string());
    assert!(perms.monitors_extension("alice"));
    manager.set_permissions("bob".to_string(), perms);
    manager.register_ringing_call(call("c1", "alice", "1").without_blf());
    assert_eq!(manager.attempt_blf_pickup("bob", "alice"), PickupResult::NotAllowed);
    assert_eq!(manager.get_ringing_call("alice").unwrap().call_id, "c1");
    manager.clear_ringing_calls();
    assert!(manager.get_ringing_call("alice").is_none());
    assert_eq!(manager.attempt_blf_pickup("bob", "alice"), PickupResult::NoRingingCall);
    let stats = manager.get_statistics();
    assert_eq!(stats.total_attempts, 2);
    assert_eq!(stats.successful_pickups, 0);
    assert_eq!(stats.current_ringing_calls, 0);
    let p = manager.get_permissions("nobody");
    assert!(p.can_pickup(PickupType::Directed));
    assert!(!p.can_pickup(PickupType::Any));
    let mut perms = manager.get_permissions("bob");
    perms.remove_blf_monitor("alice");
    assert!(!perms.monitors_extension("alice"));
}

#[test]
fn pickup_counts_by_type_and_average() {
    let mut manager = CallPickupManager::new();
    manager.set_permissions("admin".to_string(), PickupPermissions::admin());
    let mut c = call("c1", "alice", "1");
    c.ringing_since = 1_000;
    manager.register_ringing_call(c);
    assert_eq!(manager.attempt_any_pickup_at("admin", 6_500), PickupResult::Success("c1".to_string()));
    assert_eq!(manager.attempt_directed_pickup_at("admin", "alice", 3_999), PickupResult::Success("c1".to_string()));
    let stats = manager.get_statistics();
    assert_eq!(stats.by_type.get(PickupType::Any), 1);
    assert_eq!(stats.by_type.get(PickupType::Directed), 1);
    // (5 + 2) / 2 rounded toward zero
    assert_eq!(stats.average_time_to_pickup, 3);
}
