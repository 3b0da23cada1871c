use yakyak::domain::mwi::{MessageSummary, MwiAccount, MwiManager, MwiSubscription, MwiSubscriptionState};

fn subscribe(manager: &mut MwiManager, subscriber: &str, account: &MwiAccount, expires: u32) -> Result<u128, String> {
    manager.subscribe(
        subscriber.to_string(),
        account.clone(),
        "sip:user@192.168.1.100".to_string(),
        expires,
        "call-123".to_string(),
        "from-tag".to_string(),
        "to-tag".to_string(),
    )
}

#[test]
fn test_mwi_account_creation() {
    let account = MwiAccount::from_mailbox("1001", "example.com");
    assert_eq!(account.uri, "sip:1001@example.com");
}

#[test]
fn test_message_summary_creation() {
    let account = MwiAccount::new("sip:1001@example.com".to_string());
    let summary = MessageSummary::with_counts(account, 3, 5, 1, 0);
    assert_eq!(summary.voice_new, 3);
    assert_eq!(summary.voice_old, 5);
    assert_eq!(summary.voice_urgent_new, 1);
    assert!(summary.has_new_messages());
    assert_eq!(summary.total_new(), 4);
    assert_eq!(summary.total_messages(), 9);
}

#[test]
fn test_message_summary_body() {
    let account = MwiAccount::new("sip:1001@example.com".to_string());
    let summary = MessageSummary::with_counts(account, 2, 3, 0, 0);
    let body = summary.to_message_summary_body();
    assert!(body.contains("Messages-Waiting: yes"));
    assert!(body.contains("Message-Account: sip:1001@example.com"));
    assert!(body.contains("Voice-Message: 2/3 (0/0)"));
}

#[test]
fn test_message_summary_body_exact() {
    let summary = MessageSummary::new(MwiAccount::new("sip:7@x".to_string()));
    assert_eq!(
        summary.to_message_summary_body(),
        "Messages-Waiting: no\r\nMessage-Account: sip:7@x\r\nVoice-Message: 0/0 (0/0)\r\n"
    );
}

#[test]
fn test_mwi_subscription() {
    let mut sub = MwiSubscription::new(
        "sip:user@example.com".to_string(),
        MwiAccount::new("sip:1001@example.com".to_string()),
        "sip:user@192.168.1.100".to_string(),
        3600,
        "call-123".to_string(),
        "from-tag".to_string(),
        "to-tag".to_string(),
    );
    assert!(sub.is_active());
    assert!(!sub.is_expired());
    sub.terminate();
    assert!(!sub.is_active());
}

#[test]
fn test_mwi_manager_subscribe() {
    let mut manager = MwiManager::new();
    let account = MwiAccount::new("sip:1001@example.com".to_string());
    let result = subscribe(&mut manager, "sip:user@example.com", &account, 3600);
    assert!(result.is_ok());
    let sub_id = result.unwrap();
    let subscription = manager.get_subscription(&sub_id);
    assert!(subscription.is_some());
    assert_eq!(subscription.unwrap().subscriber, "sip:user@example.com");
    let sent = manager.take_notifications();
    assert_eq!(sent.len(), 1);
    assert_eq!(sent[0].subscription_id, sub_id);
    assert_eq!(sent[0].summary.voice_new, 0);
}

#[test]
fn test_mwi_manager_update_summary() {
    let mut manager = MwiManager::new();
    let account = MwiAccount::new("sip:1001@example.com".to_string());
    subscribe(&mut manager, "sip:user@example.com", &account, 3600).unwrap();
    let summary = MessageSummary::with_counts(account.clone(), 5, 10, 0, 0);
    manager.update_summary(summary);
    let retrieved = manager.get_summary(&account);
    assert!(retrieved.is_some());
    assert_eq!(retrieved.unwrap().voice_new, 5);
    let sent = manager.take_notifications();
    assert_eq!(sent.len(), 2);
    assert_eq!(sent[1].summary.voice_new, 5);
}

#[test]
fn test_mwi_manager_unsubscribe() {
    let mut manager = MwiManager::new();
    let account = MwiAccount::new("sip:1001@example.com".to_string());
    let sub_id = subscribe(&mut manager, "sip:user@example.com", &account, 3600).unwrap();
    assert!(manager.get_subscription(&sub_id).is_some());
    manager.unsubscribe(&sub_id).unwrap();
    assert!(manager.get_subscription(&sub_id).is_none());
    assert_eq!(manager.unsubscribe(&sub_id).unwrap_err(), "Subscription not found");
}

#[test]
fn test_mwi_statistics() {
    let mut manager = MwiManager::new();
    let account1 = MwiAccount::new("sip:1001@example.com".to_string());
    let account2 = MwiAccount::new("sip:1002@example.com".to_string());
    subscribe(&mut manager, "sip:user1@example.com", &account1, 3600).unwrap();
    subscribe(&mut manager, "sip:user2@example.com", &account2, 3600).unwrap();
    manager.update_summary(MessageSummary::with_counts(account1, 3, 5, 0, 0));
    manager.update_summary(MessageSummary::with_counts(account2, 0, 2, 0, 0));
    let stats = manager.get_statistics();
    assert_eq!(stats.total_subscriptions, 2);
    assert_eq!(stats.active_subscriptions, 2);
    assert_eq!(stats.monitored_accounts, 2);
    assert_eq!(stats.accounts_with_new_messages, 1);
    assert_eq!(stats.total_new_messages, 3);
}

#[test]
fn test_subscription_refresh() {
    let mut manager = MwiManager::new();
    let account = MwiAccount::new("sip:1001@example.com".to_string());
    let sub_id = subscribe(&mut manager, "sip:user@example.com", &account, 60).unwrap();
    assert!(manager.refresh_subscription(&sub_id, 3600).is_ok());
    let subscription = manager.get_subscription(&sub_id).unwrap();
    assert!(subscription.time_until_expiry() > 3500);
}

#[test]
fn test_list_subscriptions() {
    let mut manager = MwiManager::new();
    let account = MwiAccount::new("sip:1001@example.com".to_string());
    for i in 0..3 {
        manager
            .subscribe(
                format!("sip:user{}@example.com", i),
                account.clone(),
                format!("sip:user{}@192.168.1.10{}", i, i),
                3600,
                format!("call-{}", i),
                format!("from-tag-{}", i),
                format!("to-tag-{}", i),
            )
            .unwrap();
    }
    let subs = manager.list_subscriptions(&account);
    assert_eq!(subs.len(), 3);
}

#[test]
fn test_mwi_zero_expiry_and_termination() {
    let mut manager = MwiManager::new();
    let account = MwiAccount::new("sip:1@x".to_string());
    assert_eq!(subscribe(&mut manager, "s", &account, 0).unwrap_err(), "Cannot subscribe with 0 expiry");
    let id = manager
        .subscribe_at("s".to_string(), account.clone(), "c".to_string(), 10, "i".to_string(), "f".to_string(), "t".to_string(), 0, 5)
        .unwrap();
    assert_eq!(id, 5);
    manager.refresh_subscription_at(&5, 0, 1_000).unwrap();
    let sent = manager.take_notifications();
    assert_eq!(sent.len(), 2);
    assert_eq!(sent[1].state, MwiSubscriptionState::Terminated);
    assert!(manager.list_subscriptions_at(&account, 1_000).is_empty());
    assert_eq!(manager.cleanup_expired_at(20_000), 1);
    assert!(manager.get_subscription(&5).is_none());
}
