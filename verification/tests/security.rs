use yakyak::domain::security::{
    has_consecutive_chars, has_repeating_chars, is_alert_severity, is_common_password, PasswordPolicy,
    PasswordStrength, PasswordStrengthEvaluator, SecurityAuditEntry, SecurityAuditLogger, SecurityEvent,
    SecuritySeverity,
};

#[test]
fn test_password_strength_levels() {
    assert_eq!(PasswordStrength::from_score(10), PasswordStrength::VeryWeak);
    assert_eq!(PasswordStrength::from_score(30), PasswordStrength::Weak);
    assert_eq!(PasswordStrength::from_score(50), PasswordStrength::Fair);
    assert_eq!(PasswordStrength::from_score(70), PasswordStrength::Strong);
    assert_eq!(PasswordStrength::from_score(90), PasswordStrength::VeryStrong);
}

#[test]
fn test_password_policy_default() {
    let policy = PasswordPolicy::default();
    assert_eq!(policy.min_length, 8);
    assert!(policy.require_uppercase);
    assert!(policy.require_digit);
}

#[test]
fn test_password_policy_validation() {
    let policy = PasswordPolicy::default();
    assert!(policy.validate("Pass1!", None).is_err());
    assert!(policy.validate("password123!", None).is_err());
    assert!(policy.validate("Password!", None).is_err());
    assert!(policy.validate("Password123!", None).is_ok());
}

#[test]
fn test_password_strength_evaluation() {
    let evaluator = PasswordStrengthEvaluator::new(PasswordPolicy::default());
    let weak = evaluator.evaluate("password", None);
    assert!(weak.strength <= PasswordStrength::Weak);
    let strong = evaluator.evaluate("MyS3cur3P@ssw0rd!", None);
    assert!(strong.strength >= PasswordStrength::Strong);
}

#[test]
fn test_common_password_detection() {
    assert!(is_common_password("password"));
    assert!(is_common_password("123456"));
    assert!(!is_common_password("MyUniqueP@ss123"));
}

#[test]
fn test_consecutive_chars() {
    assert!(has_consecutive_chars("abc123"));
    assert!(has_consecutive_chars("xyz789"));
    assert!(!has_consecutive_chars("aDb1c3"));
}

#[test]
fn test_repeating_chars() {
    assert!(has_repeating_chars("aaa"));
    assert!(has_repeating_chars("password111"));
    assert!(!has_repeating_chars("password12"));
}

#[test]
fn strength_labels_and_minimum() {
    assert_eq!(PasswordStrength::VeryWeak.as_str(), "Very Weak");
    assert_eq!(PasswordStrength::VeryStrong.as_str(), "Very Strong");
    assert!(PasswordStrength::Strong.meets_minimum(PasswordStrength::Fair));
    assert!(PasswordStrength::Fair.meets_minimum(PasswordStrength::Fair));
    assert!(!PasswordStrength::Weak.meets_minimum(PasswordStrength::Fair));
    assert_eq!(PasswordStrength::from_score(20), PasswordStrength::VeryWeak);
    assert_eq!(PasswordStrength::from_score(21), PasswordStrength::Weak);
    assert_eq!(PasswordStrength::from_score(81), PasswordStrength::VeryStrong);
}

#[test]
fn validation_messages_in_order() {
    let policy = PasswordPolicy::default();
    let errs = policy.validate("alice", Some("Alice")).unwrap_err();
    assert_eq!(
        errs,
        vec![
            "Password must be at least 8 characters".to_string(),
            "Password must contain at least one uppercase letter".to_string(),
            "Password must contain at least one digit".to_string(),
            "Password must contain at least one special character".to_string(),
            "Password must not contain username".to_string(),
        ]
    );
    let errs = PasswordPolicy::strict().validate("PASSWORD", None).unwrap_err();
    assert_eq!(errs[0], "Password must be at least 12 characters");
    assert!(errs.contains(&"Password is too common and easily guessed".to_string()));
    let long = "a".repeat(129);
    let errs = PasswordPolicy::relaxed().validate(&long, None).unwrap_err();
    assert_eq!(errs, vec!["Password must not exceed 128 characters".to_string()]);
    assert!(PasswordPolicy::relaxed().validate("simple", None).is_ok());
}

#[test]
fn evaluation_scores() {
    let evaluator = PasswordStrengthEvaluator::new(PasswordPolicy::default());
    let r = evaluator.evaluate("MyS3cur3P@ssw0rd!", None);
    assert_eq!(r.score, 100);
    assert!(r.is_acceptable);
    assert!(r.feedback.is_empty());
    let r = evaluator.evaluate("password", None);
    assert_eq!(r.score, 40);
    assert_eq!(r.strength, PasswordStrength::Weak);
    assert!(!r.is_acceptable);
    let r = evaluator.evaluate("Zq9!Zq9!Zq9!", Some("zq9"));
    // 25 + 40 + 10 + 10 + 10 - 20
    assert_eq!(r.score, 75);
    assert!(r.feedback.contains(&"Password should not contain your username".to_string()));
    let r = evaluator.evaluate("Xk9", None);
    assert_eq!(r.score, 60);
    assert_eq!(r.strength, PasswordStrength::Fair);
    assert!(!r.is_acceptable);
    assert_eq!(r.feedback, vec!["Password must meet minimum strength: Fair".to_string()]);
}

#[test]
fn test_security_audit_logger() {
    let mut logger = SecurityAuditLogger::new(100);

    let event = SecurityEvent::LoginAttempt {
        username: "alice".to_string(),
        ip: "192.168.1.1".to_string(),
        success: true,
        method: "password".to_string(),
        reason: None,
    };

    logger.log(event, SecuritySeverity::Info);

    assert_eq!(logger.count(), 1);

    let recent = logger.get_recent(10);
    assert_eq!(recent.len(), 1);
}

#[test]
fn test_audit_logger_filtering() {
    let mut logger = SecurityAuditLogger::new(100);

    logger.log(
        SecurityEvent::LoginAttempt {
            username: "alice".to_string(),
            ip: "192.168.1.1".to_string(),
            success: true,
            method: "password".to_string(),
            reason: None,
        },
        SecuritySeverity::Info,
    );

    logger.log(
        SecurityEvent::PolicyViolation {
            username: None,
            ip: "192.168.1.2".to_string(),
            policy: "rate_limit".to_string(),
            details: "Too many requests".to_string(),
        },
        SecuritySeverity::Medium,
    );

    let by_user = logger.get_by_user("alice");
    assert_eq!(by_user.len(), 1);

    let by_severity = logger.get_by_severity(SecuritySeverity::Medium);
    assert_eq!(by_severity.len(), 1);
}

#[test]
fn audit_log_keeps_the_latest_entries() {
    let mut logger = SecurityAuditLogger::new(2);
    for (i, ip) in ["10.0.0.1", "10.0.0.2", "10.0.0.3"].iter().enumerate() {
        logger.log_at(
            SecurityEvent::AdminAction {
                admin_username: "root".to_string(),
                ip: ip.to_string(),
                action: "a".to_string(),
                target: "t".to_string(),
            },
            SecuritySeverity::High,
            i as u128 + 1,
            i as i64,
        );
    }
    assert_eq!(logger.count(), 2);
    let recent = logger.get_recent(5);
    assert_eq!(recent[0].id, 3);
    assert_eq!(recent[1].id, 2);
    assert_eq!(logger.get_by_ip("10.0.0.1").len(), 0);
    assert_eq!(logger.get_by_ip("10.0.0.3").len(), 1);
    assert_eq!(logger.get_by_user("root").len(), 0);
    assert!(is_alert_severity(SecuritySeverity::Critical));
    assert!(!is_alert_severity(SecuritySeverity::Medium));
    let entry = SecurityAuditEntry::new_at(9, SecurityEvent::PasswordChange { username: "u".to_string(), ip: "i".to_string(), forced: false }, SecuritySeverity::Low, 5)
        .with_metadata("k".to_string(), "v1".to_string())
        .with_metadata("k".to_string(), "v2".to_string());
    assert_eq!(entry.metadata.len(), 1);
    assert_eq!(entry.metadata.at(0).value, "v2");
    logger.clear();
    assert_eq!(logger.count(), 0);
}
