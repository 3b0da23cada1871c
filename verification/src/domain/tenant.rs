//! Multi-tenancy: tenants, their subscription plans and resource quotas.
use vstd::prelude::*;
use crate::domain::shared::system::{clock_reading, is_v4_uuid, new_uuid, now_millis};
use crate::store::{lemma_lookup_absent, KeyOf, Keyed, Store};
use crate::text::{join3, str_eq};

verus! {

/// Tenant status.
#[derive(Debug, Clone, Copy, PartialEq, Eq, Structural)]
pub enum TenantStatus {
    /// Tenant is active and operational
    Active,
    /// Tenant is suspended (billing issues, etc.)
    Suspended,
    /// Tenant is in trial period
    Trial,
    /// Tenant has been deactivated
    Deactivated,
}

/// Tenant subscription plan.
#[derive(Debug, Clone, PartialEq, Eq)]
pub enum SubscriptionPlan {
    /// Free tier with limitations
    Free,
    /// Small business plan
    Starter,
    /// Professional plan
    Professional,
    /// Enterprise plan with full features
    Enterprise,
    /// Custom plan
    Custom(String),
}

/// Resource quotas for a tenant.
#[derive(Debug, Clone)]
pub struct TenantQuota {
    /// Maximum number of users
    pub max_users: u32,
    /// Maximum concurrent calls
    pub max_concurrent_calls: u32,
    /// Maximum call queue size
    pub max_queue_size: u32,
    /// Maximum conference participants
    pub max_conference_participants: u32,
    /// Storage quota in GB
    pub storage_quota_gb: u32,
    /// Monthly call minutes
    pub monthly_call_minutes: u32,
    /// Recording enabled
    pub recording_enabled: bool,
    /// Advanced features enabled
    pub advanced_features: Vec<String>,
}

/// The texts of a sequence of strings.
pub open spec fn texts(v: Seq<String>) -> Seq<Seq<char>> {
    v.map_values(|s: String| s@)
}

fn push_text(v: &mut Vec<String>, s: &str)
    ensures
        texts(final(v)@) == texts(old(v)@).push(s@),
{
    let ghost before = v@;
    v.push(String::from_str(s));
    assert(texts(v@) =~= texts(before).push(s@));
}

impl TenantQuota {
    /// The quota's numbers and the texts of its features.
    pub open spec fn has_limits(
        &self,
        users: u32,
        calls: u32,
        queue: u32,
        conference: u32,
        storage: u32,
        minutes: u32,
        recording: bool,
        features: Seq<Seq<char>>,
    ) -> bool {
        &&& self.max_users == users
        &&& self.max_concurrent_calls == calls
        &&& self.max_queue_size == queue
        &&& self.max_conference_participants == conference
        &&& self.storage_quota_gb == storage
        &&& self.monthly_call_minutes == minutes
        &&& self.recording_enabled == recording
        &&& texts(self.advanced_features@) == features
    }

    /// Whether a feature is listed.
    pub open spec fn spec_has_feature(&self, feature: Seq<char>) -> bool {
        texts(self.advanced_features@).contains(feature)
    }

    /// Free tier quotas.
    pub fn free_tier() -> (r: Self)
        ensures
            r.has_limits(5, 2, 10, 5, 1, 100, false, Seq::empty()),
    {
        let r = TenantQuota {
            max_users: 5,
            max_concurrent_calls: 2,
            max_queue_size: 10,
            max_conference_participants: 5,
            storage_quota_gb: 1,
            monthly_call_minutes: 100,
            recording_enabled: false,
            advanced_features: Vec::new(),
        };
        assert(texts(r.advanced_features@) =~= Seq::<Seq<char>>::empty());
        r
    }

    /// Starter plan quotas.
    pub fn starter() -> (r: Self)
        ensures
            r.has_limits(25, 10, 50, 15, 10, 1000, true, seq!["voicemail"@, "ivr"@]),
    {
        TenantQuota {
            max_users: 25,
            max_concurrent_calls: 10,
            max_queue_size: 50,
            max_conference_participants: 15,
            storage_quota_gb: 10,
            monthly_call_minutes: 1000,
            recording_enabled: true,
            advanced_features: {
                let mut f: Vec<String> = Vec::new();
                push_text(&mut f, "voicemail");
                push_text(&mut f, "ivr");
                assert(texts(f@) =~= seq!["voicemail"@, "ivr"@]);
                f
            },
        }
    }

    /// Professional plan quotas.
    pub fn professional() -> (r: Self)
        ensures
            r.has_limits(100, 50, 200, 50, 50, 5000, true, seq!["voicemail"@, "ivr"@, "call_queue"@, "analytics"@]),
    {
        TenantQuota {
            max_users: 100,
            max_concurrent_calls: 50,
            max_queue_size: 200,
            max_conference_participants: 50,
            storage_quota_gb: 50,
            monthly_call_minutes: 5000,
            recording_enabled: true,
            advanced_features: {
                let mut f: Vec<String> = Vec::new();
                push_text(&mut f, "voicemail");
                push_text(&mut f, "ivr");
                push_text(&mut f, "call_queue");
                push_text(&mut f, "analytics");
                assert(texts(f@) =~= seq!["voicemail"@, "ivr"@, "call_queue"@, "analytics"@]);
                f
            },
        }
    }

    /// Enterprise plan quotas (unlimited users, queue and minutes).
    pub fn enterprise() -> (r: Self)
        ensures
            r.has_limits(
                u32::MAX,
                1000,
                u32::MAX,
                200,
                500,
                u32::MAX,
                true,
                seq![
                    "voicemail"@,
                    "ivr"@,
                    "call_queue"@,
                    "analytics"@,
                    "sip_trunk"@,
                    "webrtc"@,
                    "api_access"@,
                ],
            ),
    {
        TenantQuota {
            max_users: u32::MAX,
            max_concurrent_calls: 1000,
            max_queue_size: u32::MAX,
            max_conference_participants: 200,
            storage_quota_gb: 500,
            monthly_call_minutes: u32::MAX,
            recording_enabled: true,
            advanced_features: {
                let mut f: Vec<String> = Vec::new();
                push_text(&mut f, "voicemail");
                push_text(&mut f, "ivr");
                push_text(&mut f, "call_queue");
                push_text(&mut f, "analytics");
                push_text(&mut f, "sip_trunk");
                push_text(&mut f, "webrtc");
                push_text(&mut f, "api_access");
                assert(texts(f@) =~= seq![
                    "voicemail"@,
                    "ivr"@,
                    "call_queue"@,
                    "analytics"@,
                    "sip_trunk"@,
                    "webrtc"@,
                    "api_access"@,
                ]);
                f
            },
        }
    }

    /// Whether a feature is enabled.
    pub fn has_feature(&self, feature: &str) -> (r: bool)
        ensures
            r == self.spec_has_feature(feature@),
    {
        let mut i: usize = 0;
        while i < self.advanced_features.len()
            invariant
                i <= self.advanced_features@.len(),
                forall|k: int| 0 <= k < i ==> texts(self.advanced_features@)[k] != feature@,
            decreases self.advanced_features@.len() - i,
        {
            if str_eq(self.advanced_features[i].as_str(), feature) {
                assert(texts(self.advanced_features@)[i as int] == feature@);
                return true;
            }
            i = i + 1;
        }
        false
    }

    /// A copy of the quota.
    pub fn duplicate(&self) -> (r: Self)
        ensures
            r.has_limits(
                self.max_users,
                self.max_concurrent_calls,
                self.max_queue_size,
                self.max_conference_participants,
                self.storage_quota_gb,
                self.monthly_call_minutes,
                self.recording_enabled,
                texts(self.advanced_features@),
            ),
    {
        let mut v: Vec<String> = Vec::new();
        let mut i: usize = 0;
        while i < self.advanced_features.len()
            invariant
                i <= self.advanced_features@.len(),
                v@ == self.advanced_features@.take(i as int),
            decreases self.advanced_features@.len() - i,
        {
            v.push(self.advanced_features[i].clone());
            assert(self.advanced_features@.take(i as int).push(self.advanced_features@[i as int])
                =~= self.advanced_features@.take(i + 1));
            i = i + 1;
        }
        assert(self.advanced_features@.take(i as int) =~= self.advanced_features@);
        TenantQuota {
            max_users: self.max_users,
            max_concurrent_calls: self.max_concurrent_calls,
            max_queue_size: self.max_queue_size,
            max_conference_participants: self.max_conference_participants,
            storage_quota_gb: self.storage_quota_gb,
            monthly_call_minutes: self.monthly_call_minutes,
            recording_enabled: self.recording_enabled,
            advanced_features: v,
        }
    }
}

/// A metadata entry of a tenant.
#[derive(Debug, Clone)]
pub struct MetaEntry {
    pub key: String,
    pub value: String,
}

impl Keyed for MetaEntry {
    type Key = str;

    open spec fn key(&self) -> Seq<char> {
        self.key@
    }

    open spec fn inv(&self) -> bool {
        true
    }

    fn key_ref(&self) -> (r: &str) {
        let r = self.key.as_str();
        assert(r.kv() == r@);
        r
    }
}

/// Milliseconds in a thirty-day trial.
pub const TRIAL_MILLIS: i64 = 2_592_000_000;

/// Tenant (customer/organization).
#[derive(Debug)]
pub struct Tenant {
    pub id: u128,
    pub name: String,
    /// URL-safe identifier
    pub slug: String,
    pub status: TenantStatus,
    pub plan: SubscriptionPlan,
    pub quota: TenantQuota,
    pub admin_email: String,
    pub admin_name: String,
    pub phone: Option<String>,
    pub company: Option<String>,
    pub billing_email: Option<String>,
    pub billing_address: Option<String>,
    /// Custom domain for web interface
    pub domain: Option<String>,
    /// SIP realm for this tenant
    pub realm: String,
    pub timezone: String,
    pub language: String,
    pub logo_url: Option<String>,
    pub primary_color: Option<String>,
    pub metadata: Store<MetaEntry>,
    /// Milliseconds since the epoch
    pub created_at: i64,
    /// Milliseconds since the epoch
    pub updated_at: i64,
    /// End of the trial (milliseconds since the epoch)
    pub trial_ends_at: Option<i64>,
}

/// `x` limited to the range of `i64`.
pub open spec fn clamp_i64(x: int) -> i64 {
    if x > i64::MAX {
        i64::MAX
    } else {
        x as i64
    }
}

/// The quota a plan brings, if it brings one of its own: the free, starter,
/// professional and enterprise quotas; none for a custom plan.
pub open spec fn plan_limits(q: TenantQuota, plan: SubscriptionPlan) -> bool {
    match plan {
        SubscriptionPlan::Free => q.has_limits(5, 2, 10, 5, 1, 100, false, Seq::empty()),
        SubscriptionPlan::Starter => q.has_limits(25, 10, 50, 15, 10, 1000, true, seq!["voicemail"@, "ivr"@]),
        SubscriptionPlan::Professional => q.has_limits(
            100,
            50,
            200,
            50,
            50,
            5000,
            true,
            seq!["voicemail"@, "ivr"@, "call_queue"@, "analytics"@],
        ),
        SubscriptionPlan::Enterprise => q.has_limits(
            u32::MAX,
            1000,
            u32::MAX,
            200,
            500,
            u32::MAX,
            true,
            seq!["voicemail"@, "ivr"@, "call_queue"@, "analytics"@, "sip_trunk"@, "webrtc"@, "api_access"@],
        ),
        SubscriptionPlan::Custom(_) => true,
    }
}

impl Tenant {
    /// The metadata is well formed.
    pub open spec fn wf(&self) -> bool {
        self.metadata.wf()
    }

    /// Whether the tenant is active or in trial.
    pub open spec fn spec_is_active(&self) -> bool {
        self.status == TenantStatus::Active || self.status == TenantStatus::Trial
    }

    /// A tenant on the free plan, in a thirty-day trial from `now`
    /// (milliseconds), with realm `<slug>.yakyak.local`, time zone UTC and
    /// language `en`; the company is the tenant's name.
    pub fn new_at(name: String, slug: String, admin_email: String, admin_name: String, now: i64) -> (r: Self)
        ensures
            r.wf(),
            is_v4_uuid(r.id),
            r.name == name,
            r.slug == slug,
            r.status == TenantStatus::Trial,
            r.plan == SubscriptionPlan::Free,
            plan_limits(r.quota, SubscriptionPlan::Free),
            r.admin_email == admin_email,
            r.admin_name == admin_name,
            r.phone is None,
            r.company matches Some(c) && c@ == name@,
            r.billing_email is None,
            r.billing_address is None,
            r.domain is None,
            r.realm@ == slug@ + ".yakyak.local"@,
            r.timezone@ == "UTC"@,
            r.language@ == "en"@,
            r.logo_url is None,
            r.primary_color is None,
            r.metadata.items().len() == 0,
            r.created_at == now,
            r.updated_at == now,
            r.trial_ends_at == Some(clamp_i64(now + TRIAL_MILLIS)),
    {
        let realm = join3(slug.as_str(), ".yakyak.local", "");
        proof {
            reveal_strlit("");
            assert(realm@ == slug@ + ".yakyak.local"@);
        }
        let trial_end: i64 = if now > i64::MAX - TRIAL_MILLIS {
            i64::MAX
        } else {
            now + TRIAL_MILLIS
        };
        let company = name.clone();
        Tenant {
            id: new_uuid(),
            name,
            slug,
            status: TenantStatus::Trial,
            plan: SubscriptionPlan::Free,
            quota: TenantQuota::free_tier(),
            admin_email,
            admin_name,
            phone: None,
            company: Some(company),
            billing_email: None,
            billing_address: None,
            domain: None,
            realm,
            timezone: String::from_str("UTC"),
            language: String::from_str("en"),
            logo_url: None,
            primary_color: None,
            metadata: Store::new(),
            created_at: now,
            updated_at: now,
            trial_ends_at: Some(trial_end),
        }
    }

    /// A tenant created now.
    pub fn new(name: String, slug: String, admin_email: String, admin_name: String) -> (r: Self)
        ensures
            r.wf(),
            r.name == name,
            r.slug == slug,
            r.status == TenantStatus::Trial,
            r.spec_is_active(),
            r.plan == SubscriptionPlan::Free,
            r.trial_ends_at is Some,
            r.realm@ == slug@ + ".yakyak.local"@,
    {
        Self::new_at(name, slug, admin_email, admin_name, now_millis())
    }

    /// Moves the tenant to a plan at `now`: the plan's quota replaces the
    /// current one (a custom plan keeps it), and a tenant in trial becomes
    /// active with its trial end cleared.
    pub fn upgrade_plan_at(&mut self, plan: SubscriptionPlan, now: i64)
        requires
            old(self).wf(),
        ensures
            final(self).wf(),
            final(self).plan == plan,
            match plan {
                SubscriptionPlan::Custom(_) => final(self).quota == old(self).quota,
                _ => plan_limits(final(self).quota, plan),
            },
            old(self).status == TenantStatus::Trial ==> final(self).status == TenantStatus::Active
                && final(self).trial_ends_at is None,
            old(self).status != TenantStatus::Trial ==> final(self).status == old(self).status
                && final(self).trial_ends_at == old(self).trial_ends_at,
            final(self).updated_at == now,
            final(self).name == old(self).name,
            final(self).metadata == old(self).metadata,
    {
        let is_custom = match &plan {
            SubscriptionPlan::Custom(_) => true,
            _ => false,
        };
        if !is_custom {
            let q = match &plan {
                SubscriptionPlan::Free => TenantQuota::free_tier(),
                SubscriptionPlan::Starter => TenantQuota::starter(),
                SubscriptionPlan::Professional => TenantQuota::professional(),
                _ => TenantQuota::enterprise(),
            };
            self.quota = q;
        }
        self.plan = plan;
        if self.status == TenantStatus::Trial {
            self.status = TenantStatus::Active;
            self.trial_ends_at = None;
        }
        self.updated_at = now;
    }

    /// Moves the tenant to a plan now.
    pub fn upgrade_plan(&mut self, plan: SubscriptionPlan)
        requires
            old(self).wf(),
        ensures
            final(self).wf(),
            final(self).plan == plan,
            match plan {
                SubscriptionPlan::Custom(_) => final(self).quota == old(self).quota,
                _ => plan_limits(final(self).quota, plan),
            },
            old(self).status == TenantStatus::Trial ==> final(self).status == TenantStatus::Active
                && final(self).trial_ends_at is None,
            exists|now: i64| #[trigger] clock_reading(now) && {
                &&& (final(self).plan == plan)
                &&& (match plan {
                    SubscriptionPlan::Custom(_) => final(self).quota == old(self).quota,
                    _ => plan_limits(final(self).quota, plan),
                })
                &&& (old(self).status == TenantStatus::Trial ==> final(self).status == TenantStatus::Active
                    && final(self).trial_ends_at is None)
                &&& (old(self).status != TenantStatus::Trial ==> final(self).status == old(self).status
                    && final(self).trial_ends_at == old(self).trial_ends_at)
                &&& (final(self).updated_at == now)
                &&& (final(self).name == old(self).name)
                &&& (final(self).metadata == old(self).metadata)
            },
    {
        let now = now_millis();
        proof {
            assert(clock_reading(now));
        }
        self.upgrade_plan_at(plan, now);
    }

    /// Suspends the tenant at `now`, recording the reason (if given) under
    /// `suspension_reason`.
    pub fn suspend_at(&mut self, reason: Option<String>, now: i64)
        requires
            old(self).wf(),
        ensures
            final(self).wf(),
            final(self).status == TenantStatus::Suspended,
            match reason {
                Some(r) => final(self).metadata.get_spec("suspension_reason"@) matches Some(e) && e.value == r,
                None => final(self).metadata == old(self).metadata,
            },
            forall|k: Seq<char>| k != "suspension_reason"@ ==> final(self).metadata.get_spec(k) == old(self).metadata.get_spec(k),
            final(self).updated_at == now,
    {
        self.status = TenantStatus::Suspended;
        match reason {
            Some(r) => {
                let e = MetaEntry { key: String::from_str("suspension_reason"), value: r };
                self.metadata.insert(e);
            },
            None => {},
        }
        self.updated_at = now;
    }

    /// Suspends the tenant now.
    pub fn suspend(&mut self, reason: Option<String>)
        requires
            old(self).wf(),
        ensures
            final(self).wf(),
            final(self).status == TenantStatus::Suspended,
            exists|now: i64| #[trigger] clock_reading(now) && {
                &&& (final(self).status == TenantStatus::Suspended)
                &&& (match reason {
                    Some(r) => final(self).metadata.get_spec("suspension_reason"@) matches Some(e) && e.value == r,
                    None => final(self).metadata == old(self).metadata,
                })
                &&& (forall|k: Seq<char>| k != "suspension_reason"@ ==> final(self).metadata.get_spec(k) == old(self).metadata.get_spec(k))
                &&& (final(self).updated_at == now)
            },
    {
        let now = now_millis();
        proof {
            assert(clock_reading(now));
        }
        self.suspend_at(reason, now);
    }

    /// Reactivates the tenant at `now`, forgetting the suspension reason.
    pub fn reactivate_at(&mut self, now: i64)
        requires
            old(self).wf(),
        ensures
            final(self).wf(),
            final(self).status == TenantStatus::Active,
            final(self).metadata.get_spec("suspension_reason"@) is None,
            forall|k: Seq<char>| k != "suspension_reason"@ ==> final(self).metadata.get_spec(k) == old(self).metadata.get_spec(k),
            final(self).updated_at == now,
    {
        self.status = TenantStatus::Active;
        self.metadata.remove("suspension_reason");
        self.updated_at = now;
    }

    /// Reactivates the tenant now.
    pub fn reactivate(&mut self)
        requires
            old(self).wf(),
        ensures
            final(self).wf(),
            final(self).status == TenantStatus::Active,
            exists|now: i64| #[trigger] clock_reading(now) && {
                &&& (final(self).status == TenantStatus::Active)
                &&& (final(self).metadata.get_spec("suspension_reason"@) is None)
                &&& (forall|k: Seq<char>| k != "suspension_reason"@ ==> final(self).metadata.get_spec(k) == old(self).metadata.get_spec(k))
                &&& (final(self).updated_at == now)
            },
    {
        let now = now_millis();
        proof {
            assert(clock_reading(now));
        }
        self.reactivate_at(now);
    }

    /// Whether the tenant is active or in trial.
    pub fn is_active(&self) -> (r: bool)
        ensures
            r == self.spec_is_active(),
            self.status == TenantStatus::Trial ==> r,
            self.status == TenantStatus::Active ==> r,
            self.status == TenantStatus::Suspended ==> !r,
            self.status == TenantStatus::Deactivated ==> !r,
    {
        proof {
            law_tenant_activity(*self);
        }
        self.status == TenantStatus::Active || self.status == TenantStatus::Trial
    }

    /// Whether the trial has ended by `now` (milliseconds).
    pub fn is_trial_expired_at(&self, now: i64) -> (r: bool)
        ensures
            r == match self.trial_ends_at {
                Some(t) => now > t,
                None => false,
            },
    {
        match self.trial_ends_at {
            Some(t) => now > t,
            None => false,
        }
    }

    /// Whether the trial has ended, by the clock.
    pub fn is_trial_expired(&self) -> (r: bool)
        ensures
            self.trial_ends_at is None ==> !r,
            exists|now: i64| #[trigger] clock_reading(now) && {
                &&& (r == match self.trial_ends_at {
                    Some(t) => now > t,
                    None => false,
                })
            },
    {
        let now = now_millis();
        proof {
            assert(clock_reading(now));
        }
        self.is_trial_expired_at(now)
    }

    /// Whether a feature is available: the tenant is active and its quota lists it.
    pub fn has_feature(&self, feature: &str) -> (r: bool)
        ensures
            r == (self.spec_is_active() && self.quota.spec_has_feature(feature@)),
            (self.status == TenantStatus::Trial || self.status == TenantStatus::Active) ==> r == self.quota.spec_has_feature(feature@),
            (self.status == TenantStatus::Suspended || self.status == TenantStatus::Deactivated) ==> !r,
    {
        proof {
            law_tenant_activity(*self);
        }
        if !self.is_active() {
            return false;
        }
        self.quota.has_feature(feature)
    }

    /// Whether another user fits in the quota.
    pub fn can_add_user(&self, current_users: u32) -> (r: bool)
        ensures
            r == (current_users < self.quota.max_users),
    {
        current_users < self.quota.max_users
    }

    /// Whether another concurrent call fits in the quota.
    pub fn can_make_call(&self, current_calls: u32) -> (r: bool)
        ensures
            r == (current_calls < self.quota.max_concurrent_calls),
    {
        current_calls < self.quota.max_concurrent_calls
    }
}


/// A tenant in its trial, like an active one, counts as active and may use
/// the features its plan grants; a suspended or deactivated one is not
/// active and may use none. A newly created tenant is in its trial.
pub proof fn law_tenant_activity(t: Tenant)
    ensures
        t.status == TenantStatus::Trial ==> t.spec_is_active(),
        t.status == TenantStatus::Active ==> t.spec_is_active(),
        t.status == TenantStatus::Suspended ==> !t.spec_is_active(),
        t.status == TenantStatus::Deactivated ==> !t.spec_is_active(),
{
}

} // verus!
