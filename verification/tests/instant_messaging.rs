use yakyak::domain::instant_messaging::{
    InstantMessage, InstantMessagingManager, MessageContentType, MessageGroup, MessageStatus,
};

type Deliver = fn(&InstantMessage) -> Result<(), String>;

fn no_callback() -> Option<&'static Deliver> {
    None
}

fn deliver_ok(_m: &InstantMessage) -> Result<(), String> {
    Ok(())
}

fn deliver_fail(_m: &InstantMessage) -> Result<(), String> {
    Err("link down".to_string())
}

#[test]
fn test_message_content_type() {
    let ct = MessageContentType::from_str("text/plain");
    assert_eq!(ct, MessageContentType::TextPlain);
    assert_eq!(ct.to_string(), "text/plain");
}

#[test]
fn test_content_type_custom_round_trip() {
    let ct = MessageContentType::from_str("image/png");
    assert_eq!(ct, MessageContentType::Custom("image/png".to_string()));
    assert_eq!(ct.to_string(), "image/png");
    assert_eq!(MessageContentType::from_str("application/octet-stream"), MessageContentType::ApplicationOctetStream);
}

#[test]
fn test_instant_message_creation() {
    let msg = InstantMessage::text("alice@example.com".to_string(), "bob@example.com".to_string(), "Hello!".to_string());
    assert_eq!(msg.from, "alice@example.com");
    assert_eq!(msg.to, "bob@example.com");
    assert_eq!(msg.content_as_string().unwrap(), "Hello!");
    assert_eq!(msg.status, MessageStatus::Pending);
}

#[test]
fn test_content_as_string_rejects_invalid_utf8() {
    let msg = InstantMessage::new("a".to_string(), "b".to_string(), vec![0xff, 0xfe], MessageContentType::ApplicationOctetStream);
    let err = msg.content_as_string().unwrap_err();
    assert!(err.starts_with("Failed to decode content as UTF-8: "));
}

#[test]
fn test_message_status_transitions() {
    let mut msg = InstantMessage::text("alice@example.com".to_string(), "bob@example.com".to_string(), "Test".to_string());
    msg.mark_delivered();
    assert_eq!(msg.status, MessageStatus::Delivered);
    assert!(msg.delivered_at.is_some());
    msg.mark_read();
    assert_eq!(msg.status, MessageStatus::Read);
    assert!(msg.read_at.is_some());
}

#[test]
fn test_message_group() {
    let mut group = MessageGroup::new("Team".to_string(), "admin@example.com".to_string())
        .with_description("Team chat".to_string());
    assert_eq!(group.name, "Team");
    assert_eq!(group.member_count(), 0);
    group.add_member("user1@example.com".to_string());
    group.add_member("user2@example.com".to_string());
    assert_eq!(group.member_count(), 2);
    assert!(group.is_member("user1@example.com"));
    assert!(!group.is_member("user3@example.com"));
    group.remove_member("user1@example.com");
    assert_eq!(group.member_count(), 1);
}

#[test]
fn test_send_message() {
    let mut manager = InstantMessagingManager::new();
    manager.user_online("bob@example.com".to_string());
    let msg = InstantMessage::text("alice@example.com".to_string(), "bob@example.com".to_string(), "Hello!".to_string());
    let result = manager.send_message(msg, no_callback());
    assert!(result.is_ok());
}

#[test]
fn test_offline_message_queue() {
    let mut manager = InstantMessagingManager::new();
    let msg = InstantMessage::text("alice@example.com".to_string(), "bob@example.com".to_string(), "Hello!".to_string());
    manager.send_message(msg, no_callback()).unwrap();
    assert_eq!(manager.get_offline_count("bob@example.com"), 1);
    let queued = manager.user_online("bob@example.com".to_string());
    assert_eq!(queued.len(), 1);
    assert_eq!(queued[0].content_as_string().unwrap(), "Hello!");
}

#[test]
fn test_online_offline_status() {
    let mut manager = InstantMessagingManager::new();
    assert!(!manager.is_user_online("alice@example.com"));
    manager.user_online("alice@example.com".to_string());
    assert!(manager.is_user_online("alice@example.com"));
    manager.user_offline("alice@example.com");
    assert!(!manager.is_user_online("alice@example.com"));
}

#[test]
fn test_group_messaging() {
    let mut manager = InstantMessagingManager::new();
    let mut group = MessageGroup::new("Team".to_string(), "admin@example.com".to_string());
    group.add_member("user1@example.com".to_string());
    group.add_member("user2@example.com".to_string());
    let group_id = manager.create_group(group);
    manager.user_online("user1@example.com".to_string());
    manager.user_online("user2@example.com".to_string());
    let msg = InstantMessage::text("admin@example.com".to_string(), "".to_string(), "Hello team!".to_string())
        .for_group(group_id);
    manager.send_message(msg, no_callback()).unwrap();
    let stats = manager.get_statistics();
    assert!(stats.total_messages > 0);
}

#[test]
fn test_conversation_history() {
    let mut manager = InstantMessagingManager::new();
    for i in 0..5 {
        let msg = InstantMessage::text("alice@example.com".to_string(), "bob@example.com".to_string(), format!("Message {}", i));
        manager.send_message(msg, no_callback()).unwrap();
    }
    let history = manager.get_conversation_history("alice@example.com", "bob@example.com", 10);
    assert_eq!(history.len(), 5);
}

#[test]
fn test_group_management() {
    let mut manager = InstantMessagingManager::new();
    let group = MessageGroup::new("Test".to_string(), "admin@example.com".to_string());
    let group_id = manager.create_group(group);
    manager.add_group_member(&group_id, "user1@example.com".to_string()).unwrap();
    manager.add_group_member(&group_id, "user2@example.com".to_string()).unwrap();
    let group = manager.get_group(&group_id).unwrap();
    assert_eq!(group.member_count(), 2);
    let user_groups = manager.list_user_groups("user1@example.com");
    assert_eq!(user_groups.len(), 1);
}

#[test]
fn test_messaging_statistics() {
    let mut manager = InstantMessagingManager::new();
    manager.user_online("user1@example.com".to_string());
    manager.user_online("user2@example.com".to_string());
    let msg = InstantMessage::text("user1@example.com".to_string(), "user2@example.com".to_string(), "Test".to_string());
    manager.send_message(msg, no_callback()).unwrap();
    let stats = manager.get_statistics();
    assert_eq!(stats.online_users, 2);
    assert!(stats.total_messages > 0);
}

#[test]
fn test_offline_queue_and_history_are_bounded() {
    let mut manager = InstantMessagingManager::with_limits(2, 3);
    for i in 0..5 {
        let msg = InstantMessage::text("a".to_string(), "b".to_string(), format!("m{}", i));
        manager.send_message(msg, no_callback()).unwrap();
    }
    assert_eq!(manager.get_offline_count("b"), 2);
    assert_eq!(manager.get_statistics().total_messages, 3);
    let queued = manager.user_online("b".to_string());
    assert_eq!(queued[0].content_as_string().unwrap(), "m3");
    assert_eq!(queued[1].content_as_string().unwrap(), "m4");
    let last_two = manager.get_conversation_history("b", "a", 2);
    assert_eq!(last_two.len(), 2);
    assert_eq!(last_two[1].content_as_string().unwrap(), "m4");
}

#[test]
fn test_delivery_callback_outcomes() {
    let mut manager = InstantMessagingManager::new();
    manager.user_online("bob".to_string());
    let ok: &Deliver = &(deliver_ok as Deliver);
    let msg = InstantMessage::text("alice".to_string(), "bob".to_string(), "hi".to_string());
    assert!(manager.send_message(msg, Some(ok)).is_ok());
    assert_eq!(manager.get_offline_count("bob"), 0);
    let fail: &Deliver = &(deliver_fail as Deliver);
    let msg = InstantMessage::text("alice".to_string(), "bob".to_string(), "hi".to_string());
    assert_eq!(manager.send_message(msg, Some(fail)).unwrap_err(), "Delivery failed: link down");
    assert_eq!(manager.get_statistics().total_messages, 1);
    // an offline recipient is queued even with a callback
    let msg = InstantMessage::text("alice".to_string(), "carol".to_string(), "hi".to_string());
    assert!(manager.send_message(msg, Some(fail)).is_ok());
    assert_eq!(manager.get_offline_count("carol"), 1);
}

#[test]
fn test_group_errors_and_fan_out() {
    let mut manager = InstantMessagingManager::new();
    let msg = InstantMessage::text("a".to_string(), "".to_string(), "x".to_string()).for_group(77);
    assert_eq!(manager.send_message(msg, no_callback()).unwrap_err(), "Group not found");
    let mut group = MessageGroup::new("G".to_string(), "a".to_string());
    group.add_member("a".to_string());
    group.add_member("b".to_string());
    group.add_member("c".to_string());
    let gid = manager.create_group(group);
    let msg = InstantMessage::text("a".to_string(), "".to_string(), "x".to_string()).for_group(gid);
    manager.send_message(msg, no_callback()).unwrap();
    assert_eq!(manager.get_offline_count("a"), 0);
    assert_eq!(manager.get_offline_count("b"), 1);
    assert_eq!(manager.get_offline_count("c"), 1);
    let hist = manager.get_group_history(&gid, 10);
    assert_eq!(hist.len(), 1);
    assert_eq!(hist[0].status, MessageStatus::Delivered);
    assert_eq!(manager.remove_group_member(&gid, "zed").unwrap_err(), "User not in group");
    assert_eq!(manager.remove_group_member(&5, "b").unwrap_err(), "Group not found");
    assert!(manager.remove_group_member(&gid, "b").is_ok());
}
