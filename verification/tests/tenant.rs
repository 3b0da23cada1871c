use yakyak::domain::tenant::{SubscriptionPlan, Tenant, TenantQuota, TenantStatus};

fn acme() -> Tenant {
    Tenant::new(
        "Acme Corp".to_string(),
        "acme".to_string(),
        "admin@acme.com".to_string(),
        "John Doe".to_string(),
    )
}

#[test]
fn test_tenant_creation() {
    let tenant = acme();
    assert_eq!(tenant.name, "Acme Corp");
    assert_eq!(tenant.slug, "acme");
    assert_eq!(tenant.status, TenantStatus::Trial);
    assert!(tenant.trial_ends_at.is_some());
    assert_eq!(tenant.realm, "acme.yakyak.local");
}

#[test]
fn test_plan_upgrade() {
    let mut tenant = acme();
    assert_eq!(tenant.plan, SubscriptionPlan::Free);
    assert_eq!(tenant.quota.max_users, 5);
    tenant.upgrade_plan(SubscriptionPlan::Professional);
    assert_eq!(tenant.plan, SubscriptionPlan::Professional);
    assert_eq!(tenant.quota.max_users, 100);
    assert_eq!(tenant.status, TenantStatus::Active);
    assert!(tenant.trial_ends_at.is_none());
}

#[test]
fn test_tenant_suspension() {
    let mut tenant = acme();
    tenant.upgrade_plan(SubscriptionPlan::Starter);
    assert!(tenant.is_active());
    tenant.suspend(Some("Payment failed".to_string()));
    assert_eq!(tenant.status, TenantStatus::Suspended);
    assert!(!tenant.is_active());
    tenant.reactivate();
    assert_eq!(tenant.status, TenantStatus::Active);
    assert!(tenant.is_active());
}

#[test]
fn test_feature_access() {
    let mut tenant = acme();
    assert!(!tenant.has_feature("voicemail"));
    tenant.upgrade_plan(SubscriptionPlan::Professional);
    assert!(tenant.has_feature("voicemail"));
    assert!(tenant.has_feature("ivr"));
    assert!(tenant.has_feature("call_queue"));
}

#[test]
fn test_quota_checks() {
    let tenant = acme();
    assert!(tenant.can_add_user(4));
    assert!(!tenant.can_add_user(5));
    assert!(tenant.can_make_call(1));
    assert!(!tenant.can_make_call(2));
}

#[test]
fn test_trial_expiration() {
    let mut tenant = acme();
    tenant.trial_ends_at = Some(0);
    assert!(tenant.is_trial_expired());
    tenant.upgrade_plan(SubscriptionPlan::Starter);
    assert!(!tenant.is_trial_expired());
}

#[test]
fn quotas_and_suspension_reason() {
    let e = TenantQuota::enterprise();
    assert_eq!(e.max_users, u32::MAX);
    assert!(e.has_feature("webrtc"));
    assert!(!TenantQuota::starter().has_feature("analytics"));
    assert!(!TenantQuota::free_tier().recording_enabled);
    let mut t = Tenant::new_at("A".to_string(), "a".to_string(), "e".to_string(), "n".to_string(), 1_000);
    assert_eq!(t.trial_ends_at, Some(1_000 + 2_592_000_000));
    assert_eq!(t.company, Some("A".to_string()));
    t.suspend_at(Some("late".to_string()), 5);
    assert_eq!(t.metadata.get("suspension_reason").unwrap().value, "late");
    assert!(!t.has_feature("ivr"));
    t.reactivate_at(6);
    assert!(t.metadata.get("suspension_reason").is_none());
    t.upgrade_plan(SubscriptionPlan::Custom("gold".to_string()));
    assert_eq!(t.quota.max_users, 5);
}
