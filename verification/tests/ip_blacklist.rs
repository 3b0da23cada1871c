use yakyak::domain::ip_blacklist::{
    BlacklistConfig, BlacklistEntry, BlacklistReason, IpAddress, IpBlacklistManager, WhitelistEntry,
};

fn test_ip() -> IpAddress {
    IpAddress::parse_v4("192.168.1.100").unwrap()
}

#[test]
fn test_parse_v4() {
    assert_eq!(IpAddress::parse_v4("192.168.1.100"), Some(IpAddress::v4(192, 168, 1, 100)));
    assert_eq!(IpAddress::parse_v4("0.0.0.0"), Some(IpAddress::V4(0)));
    assert_eq!(IpAddress::parse_v4("255.255.255.255"), Some(IpAddress::V4(u32::MAX)));
    assert_eq!(IpAddress::parse_v4("256.1.1.1"), None);
    assert_eq!(IpAddress::parse_v4("01.1.1.1"), None);
    assert_eq!(IpAddress::parse_v4("1.1.1"), None);
    assert_eq!(IpAddress::parse_v4("1.1.1.1.1"), None);
    assert_eq!(IpAddress::parse_v4("1..1.1"), None);
    assert_eq!(IpAddress::parse_v4("+1.1.1.1"), None);
}

#[test]
fn test_blacklist_entry_creation() {
    let ip = test_ip();
    let entry = BlacklistEntry::new(ip, BlacklistReason::Manual)
        .with_description("Test block".to_string())
        .with_added_by("admin".to_string());
    assert_eq!(entry.ip_address, ip);
    assert_eq!(entry.reason, BlacklistReason::Manual);
    assert!(entry.is_permanent());
    assert!(!entry.is_expired());
}

#[test]
fn test_blacklist_entry_expiry() {
    let ip = test_ip();
    let mut entry = BlacklistEntry::new_at(1, ip, BlacklistReason::RateLimitExceeded, 10_000)
        .with_expiry_at(1_000, 10_000);
    assert!(!entry.is_permanent());
    assert!(!entry.is_expired_at(10_500));
    entry.expires_at = Some(10_000 - 1_000);
    assert!(entry.is_expired_at(10_500));
}

#[test]
fn test_whitelist_entry() {
    let ip = test_ip();
    let entry = WhitelistEntry::new(ip)
        .with_description("Trusted IP".to_string())
        .with_added_by("admin".to_string());
    assert_eq!(entry.ip_address, ip);
    assert_eq!(entry.description, "Trusted IP");
}

#[test]
fn test_ip_blocking() {
    let mut manager = IpBlacklistManager::new(BlacklistConfig::default());
    let ip = test_ip();
    assert!(!manager.is_blocked(&ip));
    let entry = BlacklistEntry::new(ip, BlacklistReason::Manual);
    manager.block_ip(entry);
    assert!(manager.is_blocked(&ip));
    manager.unblock_ip(&ip);
    assert!(!manager.is_blocked(&ip));
}

#[test]
fn test_ip_whitelisting() {
    let mut manager = IpBlacklistManager::new(BlacklistConfig::default());
    let ip = test_ip();
    manager.block_ip(BlacklistEntry::new(ip, BlacklistReason::Manual));
    manager.whitelist_ip(WhitelistEntry::new(ip));
    assert!(!manager.is_blocked(&ip));
    assert!(manager.is_whitelisted(&ip));
}

#[test]
fn ip_blacklist_test_rate_limiting() {
    let mut config = BlacklistConfig::default();
    config.rate_limit_max_requests = 3;
    config.auto_block_enabled = false;
    let mut manager = IpBlacklistManager::new(config);
    let ip = test_ip();
    for _ in 0..3 {
        assert!(manager.check_rate_limit(&ip).is_ok());
    }
    assert!(manager.check_rate_limit(&ip).is_err());
}

#[test]
fn test_auth_failure_tracking() {
    let mut config = BlacklistConfig::default();
    config.max_auth_failures = 3;
    config.auto_block_enabled = true;
    let mut manager = IpBlacklistManager::new(config);
    let ip = test_ip();
    for _ in 0..2 {
        assert!(manager.record_auth_failure(&ip).is_ok());
    }
    assert!(manager.record_auth_failure(&ip).is_err());
    assert!(manager.is_blocked(&ip));
}

#[test]
fn test_auth_success_resets_failures() {
    let mut config = BlacklistConfig::default();
    config.max_auth_failures = 3;
    let mut manager = IpBlacklistManager::new(config);
    let ip = test_ip();
    manager.record_auth_failure(&ip).unwrap();
    manager.record_auth_failure(&ip).unwrap();
    assert_eq!(manager.get_failure_count(&ip), 2);
    manager.record_auth_success(&ip);
    assert_eq!(manager.get_failure_count(&ip), 0);
}

#[test]
fn test_cleanup_expired() {
    let mut manager = IpBlacklistManager::new(BlacklistConfig::default());
    let now = 1_000_000_000;
    let ip1 = IpAddress::parse_v4("192.168.1.100").unwrap();
    let mut entry1 = BlacklistEntry::new_at(1, ip1, BlacklistReason::Manual, now);
    entry1.expires_at = Some(now - 3_600_000);
    manager.block_ip(entry1);
    let ip2 = IpAddress::parse_v4("192.168.1.101").unwrap();
    manager.block_ip(BlacklistEntry::new_at(2, ip2, BlacklistReason::Manual, now));
    let removed = manager.cleanup_expired_at(now);
    assert_eq!(removed, 1);
    assert!(!manager.is_blocked_at(&ip1, now));
    assert!(manager.is_blocked_at(&ip2, now));
}

#[test]
fn test_statistics() {
    let mut manager = IpBlacklistManager::new(BlacklistConfig::default());
    let ip1 = IpAddress::parse_v4("192.168.1.100").unwrap();
    let ip2 = IpAddress::parse_v4("192.168.1.101").unwrap();
    manager.block_ip(BlacklistEntry::new(ip1, BlacklistReason::Manual));
    manager.whitelist_ip(WhitelistEntry::new(ip2));
    let stats = manager.get_statistics();
    assert_eq!(stats.total_blacklisted, 1);
    assert_eq!(stats.whitelisted_ips, 1);
    assert_eq!(stats.permanent_blocks, 1);
}

#[test]
fn test_whitelist_bypasses_rate_limit() {
    let mut config = BlacklistConfig::default();
    config.rate_limit_max_requests = 2;
    let mut manager = IpBlacklistManager::new(config);
    let ip = test_ip();
    manager.whitelist_ip(WhitelistEntry::new(ip));
    for _ in 0..10 {
        assert!(manager.check_rate_limit(&ip).is_ok());
    }
}

#[test]
fn test_reason_display() {
    assert_eq!(BlacklistReason::Manual.to_string(), "Manual block");
    assert_eq!(BlacklistReason::BruteForce.to_string(), "Brute force attack");
    assert_eq!(BlacklistReason::Custom("Test".to_string()).to_string(), "Test");
}

#[test]
fn test_rate_limit_window_and_auto_block() {
    let mut config = BlacklistConfig::default();
    config.rate_limit_max_requests = 2;
    config.rate_limit_window_seconds = 10;
    let mut manager = IpBlacklistManager::new(config);
    let ip = IpAddress::v4(10, 0, 0, 1);
    assert!(manager.check_rate_limit_at(&ip, 0).is_ok());
    assert!(manager.check_rate_limit_at(&ip, 1_000).is_ok());
    // both requests still inside the window: refused and blocked for an hour
    assert_eq!(manager.check_rate_limit_at(&ip, 2_000).unwrap_err(), "Rate limit exceeded");
    let e = manager.get_blacklist_entry(&ip).unwrap();
    assert_eq!(e.reason, BlacklistReason::RateLimitExceeded);
    assert_eq!(e.expires_at, Some(3_602_000));
    assert_eq!(e.description, "Auto-blocked: 2 requests in 10 seconds");
    assert_eq!(manager.check_rate_limit_at(&ip, 3_000).unwrap_err(), "IP is blocked");
    // after the block expires, the old requests have left the window
    assert!(manager.check_rate_limit_at(&ip, 3_602_001).is_ok());
    assert_eq!(manager.get_request_count(&ip), 1);
    let stats = manager.get_statistics_at(3_602_001);
    assert_eq!(stats.active_blocks, 0);
    assert_eq!(stats.temporary_blocks, 0);
    assert_eq!(stats.tracked_ips, 1);
}

#[test]
fn test_auth_failures_leave_the_window() {
    let mut config = BlacklistConfig::default();
    config.max_auth_failures = 2;
    config.auth_failure_window_seconds = 1;
    let mut manager = IpBlacklistManager::new(config);
    let ip = IpAddress::v6(1);
    assert!(manager.record_auth_failure_at(&ip, 0).is_ok());
    assert!(manager.record_auth_failure_at(&ip, 5_000).is_ok());
    assert_eq!(manager.get_failure_count(&ip), 1);
    let err = manager.record_auth_failure_at(&ip, 5_500).unwrap_err();
    assert_eq!(err, "Too many authentication failures - IP blocked");
    let e = manager.get_blacklist_entry(&ip).unwrap();
    assert_eq!(e.description, "Auto-blocked: 2 auth failures in 1 seconds");
    assert_eq!(e.expires_at, Some(5_500 + 86_400_000));
}
