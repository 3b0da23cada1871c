use yakyak::domain::presence::{Activity, PresenceManager, PresenceState, PresenceSubscription, UserPresence};

#[test]
fn test_presence_state_available() {
    assert!(PresenceState::Online.is_available());
    assert!(!PresenceState::Offline.is_available());
    assert!(!PresenceState::Busy.is_available());
}

#[test]
fn test_presence_state_names() {
    assert_eq!(PresenceState::DoNotDisturb.as_str(), "dnd");
    assert_eq!(PresenceState::OnThePhone.as_str(), "on-the-phone");
    assert_eq!(PresenceState::InMeeting.as_str(), "in-meeting");
}

#[test]
fn test_user_presence_creation() {
    let presence = UserPresence::new("alice@example.com".to_string());
    assert_eq!(presence.username, "alice@example.com");
    assert_eq!(presence.state, PresenceState::Offline);
}

#[test]
fn test_user_presence_state_change() {
    let mut presence = UserPresence::new("bob@example.com".to_string());
    presence.set_online();
    assert_eq!(presence.state, PresenceState::Online);
    presence.set_offline();
    assert_eq!(presence.state, PresenceState::Offline);
}

#[test]
fn test_presence_manager_update() {
    let mut manager = PresenceManager::new();
    manager.set_online("alice@example.com");
    let presence = manager.get_presence("alice@example.com");
    assert!(presence.is_some());
    assert_eq!(presence.unwrap().state, PresenceState::Online);
}

#[test]
fn test_presence_subscription() {
    let mut manager = PresenceManager::new();
    let sub_id = manager.subscribe("alice@example.com", "bob@example.com", 3600);
    assert!(sub_id != 0);
    let subscriptions = manager.get_subscriptions("alice@example.com");
    assert_eq!(subscriptions.len(), 1);
    let subscribers = manager.get_subscribers("bob@example.com");
    assert_eq!(subscribers.len(), 1);
    assert_eq!(subscribers[0], "alice@example.com");
}

#[test]
fn test_presence_unsubscribe() {
    let mut manager = PresenceManager::new();
    manager.subscribe("alice@example.com", "bob@example.com", 3600);
    manager.unsubscribe("alice@example.com", "bob@example.com");
    let subscriptions = manager.get_subscriptions("alice@example.com");
    assert_eq!(subscriptions.len(), 0);
    assert!(manager.get_subscribers("bob@example.com").is_empty());
}

#[test]
fn test_get_online_users() {
    let mut manager = PresenceManager::new();
    manager.set_online("alice@example.com");
    manager.set_online("bob@example.com");
    manager.set_offline("charlie@example.com");
    let online = manager.get_online_users();
    assert_eq!(online.len(), 2);
}

#[test]
fn test_presence_statistics() {
    let mut manager = PresenceManager::new();
    manager.set_online("user1@example.com");
    manager.set_online("user2@example.com");
    manager.set_away("user3@example.com");
    manager.set_busy("user4@example.com");
    let stats = manager.get_statistics();
    assert_eq!(stats.total_users, 4);
    assert_eq!(stats.online_count, 2);
    assert_eq!(stats.away_count, 1);
    assert_eq!(stats.busy_count, 1);
}

#[test]
fn test_subscription_expiry() {
    let sub = PresenceSubscription::new_at(
        1,
        "alice@example.com".to_string(),
        "bob@example.com".to_string(),
        0,
        1_000,
        "d".to_string(),
    );
    assert!(sub.is_expired_at(1_010));
    assert!(!sub.is_expired_at(1_000));
}

#[test]
fn test_cleanup_expired_subscriptions() {
    let mut manager = PresenceManager::new();
    manager.subscribe_at("alice@example.com", "bob@example.com", 0, 1_000, 1, "d".to_string());
    let removed = manager.cleanup_expired_subscriptions_at(1_010);
    assert_eq!(removed, 1);
    // the subscriber stays recorded for the target
    assert_eq!(manager.get_subscribers("bob@example.com").len(), 1);
}

#[test]
fn test_presence_events_only_on_change() {
    let mut manager = PresenceManager::new();
    let ev = manager
        .update_presence_at("a", PresenceState::Busy, Some("call".to_string()), Some(Activity::Working), 5, 9)
        .unwrap();
    assert_eq!(ev.event_id, 9);
    assert_eq!(ev.presence.state, PresenceState::Busy);
    assert_eq!(ev.presence.status_message, Some("call".to_string()));
    assert_eq!(ev.presence.activity, Activity::Working);
    assert!(manager.update_presence_at("a", PresenceState::Busy, None, None, 6, 10).is_none());
    let p = manager.get_presence("a").unwrap();
    assert_eq!(p.last_seen, 6);
    assert_eq!(p.last_state_change, 5);
}

#[test]
fn test_mark_inactive_users_away() {
    let mut manager = PresenceManager::new();
    manager.set_inactive_threshold(10);
    manager.update_presence_at("idle", PresenceState::Online, None, None, 0, 1);
    manager.update_presence_at("fresh", PresenceState::Online, None, None, 15_000, 2);
    manager.update_presence_at("busy", PresenceState::Busy, None, None, 0, 3);
    assert_eq!(manager.mark_inactive_users_away_at(20_000), 1);
    assert_eq!(manager.get_presence("idle").unwrap().state, PresenceState::Away);
    assert_eq!(manager.get_presence("fresh").unwrap().state, PresenceState::Online);
    assert_eq!(manager.get_presence("busy").unwrap().state, PresenceState::Busy);
}
