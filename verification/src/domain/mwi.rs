//! Message Waiting Indicator (RFC 3842 message summaries): accounts, message
//! summaries and their body text, subscriptions, and the manager that keeps
//! them and queues the notifications to send. Times are milliseconds since
//! the Unix epoch.
use vstd::prelude::*;
use crate::domain::shared::system::{clock_reading, is_v4_uuid, new_uuid, now_millis, seconds_between};
use crate::store::{KeyOf, Keyed, Store};
use crate::text::{decimal, seq_ends_with, seq_starts_with, u64_to_string};

verus! {

/// MWI message account.
#[derive(Debug, Clone, PartialEq, Eq, Hash)]
pub struct MwiAccount {
    /// Account URI (e.g., sip:1001@example.com)
    pub uri: String,
}

impl MwiAccount {
    pub fn new(uri: String) -> (r: Self)
        ensures
            r.uri == uri,
    {
        MwiAccount { uri }
    }

    /// The account `sip:{mailbox}@{domain}`.
    pub fn from_mailbox(mailbox: &str, domain: &str) -> (r: Self)
        ensures
            r.uri@ == "sip:"@ + mailbox@ + "@"@ + domain@,
    {
        let mut uri = String::from_str("sip:");
        uri.append(mailbox);
        uri.append("@");
        uri.append(domain);
        MwiAccount { uri }
    }

    pub fn duplicate(&self) -> (r: Self)
        ensures
            r == *self,
    {
        MwiAccount { uri: self.uri.clone() }
    }
}

/// Individual message detail.
#[derive(Debug, Clone)]
pub struct MessageDetail {
    pub message_id: String,
    pub from: String,
    pub timestamp: i64,
    pub duration_seconds: u32,
    pub urgent: bool,
}

impl MessageDetail {
    pub fn duplicate(&self) -> (r: Self)
        ensures
            r == *self,
    {
        MessageDetail {
            message_id: self.message_id.clone(),
            from: self.from.clone(),
            timestamp: self.timestamp,
            duration_seconds: self.duration_seconds,
            urgent: self.urgent,
        }
    }
}

/// Message summary for MWI.
#[derive(Debug, Clone)]
pub struct MessageSummary {
    pub account: MwiAccount,
    pub voice_new: u32,
    pub voice_old: u32,
    pub voice_urgent_new: u32,
    pub voice_urgent_old: u32,
    pub messages: Vec<MessageDetail>,
}

/// `b` holds what `a` holds, the message details compared by their contents.
pub open spec fn same_summary(a: MessageSummary, b: MessageSummary) -> bool {
    &&& b.account == a.account
    &&& b.voice_new == a.voice_new
    &&& b.voice_old == a.voice_old
    &&& b.voice_urgent_new == a.voice_urgent_new
    &&& b.voice_urgent_old == a.voice_urgent_old
    &&& b.messages@ == a.messages@
}

/// A summary of the account with no messages.
pub open spec fn is_empty_summary(s: MessageSummary, account: MwiAccount) -> bool {
    s.account == account && s.voice_new == 0 && s.voice_old == 0 && s.voice_urgent_new == 0
        && s.voice_urgent_old == 0 && s.messages@.len() == 0
}

/// The RFC 3842 message-summary body of a summary.
pub open spec fn spec_summary_body(s: MessageSummary) -> Seq<char> {
    let waiting = if s.voice_new > 0 || s.voice_urgent_new > 0 { "yes"@ } else { "no"@ };
    "Messages-Waiting: "@ + waiting + "\r\n"@ + "Message-Account: "@ + s.account.uri@ + "\r\n"@
        + "Voice-Message: "@ + decimal(s.voice_new as nat) + "/"@ + decimal(s.voice_old as nat) + " ("@
        + decimal(s.voice_urgent_new as nat) + "/"@ + decimal(s.voice_urgent_old as nat) + ")\r\n"@
}

/// The message-summary body reports the counts field by field: it starts
/// with whether messages are waiting (yes exactly when there are new or
/// urgent new messages) and the account, and ends with the voice-message
/// line: new/old, then urgent new/urgent old in parentheses.
pub proof fn law_summary_body_fields(s: MessageSummary)
    ensures
        seq_starts_with(
            spec_summary_body(s),
            "Messages-Waiting: "@ + (if s.voice_new > 0 || s.voice_urgent_new > 0 { "yes"@ } else { "no"@ }) + "\r\n"@
                + "Message-Account: "@ + s.account.uri@ + "\r\n"@,
        ),
        seq_ends_with(
            spec_summary_body(s),
            "Voice-Message: "@ + decimal(s.voice_new as nat) + "/"@ + decimal(s.voice_old as nat) + " ("@
                + decimal(s.voice_urgent_new as nat) + "/"@ + decimal(s.voice_urgent_old as nat) + ")\r\n"@,
        ),
{
    let head = "Messages-Waiting: "@ + (if s.voice_new > 0 || s.voice_urgent_new > 0 { "yes"@ } else { "no"@ }) + "\r\n"@
        + "Message-Account: "@ + s.account.uri@ + "\r\n"@;
    let line = "Voice-Message: "@ + decimal(s.voice_new as nat) + "/"@ + decimal(s.voice_old as nat) + " ("@
        + decimal(s.voice_urgent_new as nat) + "/"@ + decimal(s.voice_urgent_old as nat) + ")\r\n"@;
    let body = spec_summary_body(s);
    assert(body =~= head + line);
    assert(body.subrange(0, head.len() as int) =~= head);
    assert(body.subrange(body.len() - line.len(), body.len() as int) =~= line);
}

impl MessageSummary {
    /// An empty summary for the account.
    pub fn new(account: MwiAccount) -> (r: Self)
        ensures
            is_empty_summary(r, account),
    {
        MessageSummary {
            account,
            voice_new: 0,
            voice_old: 0,
            voice_urgent_new: 0,
            voice_urgent_old: 0,
            messages: Vec::new(),
        }
    }

    pub fn with_counts(account: MwiAccount, new: u32, old: u32, urgent_new: u32, urgent_old: u32) -> (r: Self)
        ensures
            r.account == account,
            r.voice_new == new,
            r.voice_old == old,
            r.voice_urgent_new == urgent_new,
            r.voice_urgent_old == urgent_old,
            r.messages@.len() == 0,
    {
        MessageSummary {
            account,
            voice_new: new,
            voice_old: old,
            voice_urgent_new: urgent_new,
            voice_urgent_old: urgent_old,
            messages: Vec::new(),
        }
    }

    pub fn has_new_messages(&self) -> (r: bool)
        ensures
            r == (self.voice_new > 0 || self.voice_urgent_new > 0),
    {
        self.voice_new > 0 || self.voice_urgent_new > 0
    }

    pub fn total_new(&self) -> (r: u32)
        requires
            self.voice_new + self.voice_urgent_new <= u32::MAX,
        ensures
            r == self.voice_new + self.voice_urgent_new,
    {
        self.voice_new + self.voice_urgent_new
    }

    pub fn total_old(&self) -> (r: u32)
        requires
            self.voice_old + self.voice_urgent_old <= u32::MAX,
        ensures
            r == self.voice_old + self.voice_urgent_old,
    {
        self.voice_old + self.voice_urgent_old
    }

    pub fn total_messages(&self) -> (r: u32)
        requires
            self.voice_new + self.voice_urgent_new + self.voice_old + self.voice_urgent_old <= u32::MAX,
        ensures
            r == self.voice_new + self.voice_urgent_new + self.voice_old + self.voice_urgent_old,
    {
        self.total_new() + self.total_old()
    }

    /// The RFC 3842 message-summary body.
    pub fn to_message_summary_body(&self) -> (r: String)
        ensures
            r@ == spec_summary_body(*self),
            seq_ends_with(
                r@,
                "Voice-Message: "@ + decimal(self.voice_new as nat) + "/"@ + decimal(self.voice_old as nat) + " ("@
                    + decimal(self.voice_urgent_new as nat) + "/"@ + decimal(self.voice_urgent_old as nat) + ")\r\n"@,
            ),
    {
        proof {
            law_summary_body_fields(*self);
        }
        let mut body = String::from_str("Messages-Waiting: ");
        body.append(if self.has_new_messages() { "yes" } else { "no" });
        body.append("\r\n");
        body.append("Message-Account: ");
        body.append(self.account.uri.as_str());
        body.append("\r\n");
        body.append("Voice-Message: ");
        let a = u64_to_string(self.voice_new as u64);
        body.append(a.as_str());
        body.append("/");
        let b = u64_to_string(self.voice_old as u64);
        body.append(b.as_str());
        body.append(" (");
        let c = u64_to_string(self.voice_urgent_new as u64);
        body.append(c.as_str());
        body.append("/");
        let d = u64_to_string(self.voice_urgent_old as u64);
        body.append(d.as_str());
        body.append(")\r\n");
        body
    }

    /// A copy of the summary.
    pub fn duplicate(&self) -> (r: Self)
        ensures
            same_summary(*self, r),
    {
        let mut messages: Vec<MessageDetail> = Vec::new();
        let mut i: usize = 0;
        while i < self.messages.len()
            invariant
                i <= self.messages@.len(),
                messages@ == self.messages@.take(i as int),
            decreases self.messages.len() - i,
        {
            messages.push(self.messages[i].duplicate());
            assert(self.messages@.take(i as int).push(self.messages@[i as int]) =~= self.messages@.take(i + 1));
            i = i + 1;
        }
        assert(self.messages@.take(self.messages@.len() as int) =~= self.messages@);
        MessageSummary {
            account: self.account.duplicate(),
            voice_new: self.voice_new,
            voice_old: self.voice_old,
            voice_urgent_new: self.voice_urgent_new,
            voice_urgent_old: self.voice_urgent_old,
            messages,
        }
    }
}

impl Keyed for MessageSummary {
    type Key = str;

    open spec fn key(&self) -> Seq<char> {
        self.account.uri@
    }

    open spec fn inv(&self) -> bool {
        true
    }

    fn key_ref(&self) -> (r: &str) {
        let r = self.account.uri.as_str();
        assert(r.kv() == r@);
        r
    }
}

/// MWI subscription state.
#[derive(Debug, Clone, Copy, PartialEq, Eq, Structural)]
pub enum MwiSubscriptionState {
    Active,
    Pending,
    Terminated,
}

/// The time `expires_seconds` after `now`, or the end of the clock's range.
pub open spec fn expiry_time(now: i64, expires_seconds: u32) -> i64 {
    if now + expires_seconds * 1000 <= i64::MAX { (now + expires_seconds * 1000) as i64 } else { i64::MAX }
}

fn expiry_after(now: i64, expires_seconds: u32) -> (r: i64)
    ensures
        r == expiry_time(now, expires_seconds),
{
    match now.checked_add(expires_seconds as i64 * 1000) {
        Some(t) => t,
        None => i64::MAX,
    }
}

/// MWI subscription.
#[derive(Debug, Clone)]
pub struct MwiSubscription {
    pub id: u128,
    /// Subscriber URI (who is subscribing)
    pub subscriber: String,
    /// Account being monitored
    pub account: MwiAccount,
    /// Contact URI for NOTIFY messages
    pub contact: String,
    pub expires_at: i64,
    pub call_id: String,
    pub from_tag: String,
    pub to_tag: String,
    pub state: MwiSubscriptionState,
    pub created_at: i64,
    /// Last NOTIFY sent
    pub last_notify_at: Option<i64>,
}

impl MwiSubscription {
    /// An active subscription made at `now` for `expires_seconds`.
    pub fn new_at(
        id: u128,
        subscriber: String,
        account: MwiAccount,
        contact: String,
        expires_seconds: u32,
        call_id: String,
        from_tag: String,
        to_tag: String,
        now: i64,
    ) -> (r: Self)
        ensures
            r == (MwiSubscription {
                id,
                subscriber,
                account,
                contact,
                expires_at: expiry_time(now, expires_seconds),
                call_id,
                from_tag,
                to_tag,
                state: MwiSubscriptionState::Active,
                created_at: now,
                last_notify_at: None,
            }),
    {
        MwiSubscription {
            id,
            subscriber,
            account,
            contact,
            expires_at: expiry_after(now, expires_seconds),
            call_id,
            from_tag,
            to_tag,
            state: MwiSubscriptionState::Active,
            created_at: now,
            last_notify_at: None,
        }
    }

    /// An active subscription made now with a fresh identifier.
    pub fn new(
        subscriber: String,
        account: MwiAccount,
        contact: String,
        expires_seconds: u32,
        call_id: String,
        from_tag: String,
        to_tag: String,
    ) -> (r: Self)
        ensures
            is_v4_uuid(r.id),
            r.subscriber == subscriber,
            r.account == account,
            r.contact == contact,
            r.expires_at == expiry_time(r.created_at, expires_seconds),
            r.state == MwiSubscriptionState::Active,
            r.last_notify_at is None,
    {
        let id = new_uuid();
        Self::new_at(id, subscriber, account, contact, expires_seconds, call_id, from_tag, to_tag, now_millis())
    }

    pub fn is_expired_at(&self, now: i64) -> (r: bool)
        ensures
            r == (now > self.expires_at),
    {
        now > self.expires_at
    }

    pub fn is_expired(&self) -> (r: bool) {
        self.is_expired_at(now_millis())
    }

    /// Active and not expired at `now`.
    pub fn is_active_at(&self, now: i64) -> (r: bool)
        ensures
            r == (self.state == MwiSubscriptionState::Active && !(now > self.expires_at)),
    {
        self.state == MwiSubscriptionState::Active && !self.is_expired_at(now)
    }

    pub fn is_active(&self) -> (r: bool)
        ensures
            self.state != MwiSubscriptionState::Active ==> !r,
            exists|now: i64| #[trigger] clock_reading(now) && {
                &&& (r == (self.state == MwiSubscriptionState::Active && !(now > self.expires_at)))
            },
    {
        let now = now_millis();
        proof {
            assert(clock_reading(now));
        }
        self.is_active_at(now)
    }

    pub fn refresh_at(&mut self, expires_seconds: u32, now: i64)
        ensures
            *final(self) == (MwiSubscription {
                expires_at: expiry_time(now, expires_seconds),
                state: MwiSubscriptionState::Active,
                ..*old(self)
            }),
    {
        self.expires_at = expiry_after(now, expires_seconds);
        self.state = MwiSubscriptionState::Active;
    }

    pub fn refresh(&mut self, expires_seconds: u32)
        ensures
            final(self).state == MwiSubscriptionState::Active,
            final(self).id == old(self).id,
            exists|now: i64| #[trigger] clock_reading(now) && {
                &&& (*final(self) == (MwiSubscription {
                    expires_at: expiry_time(now, expires_seconds),
                    state: MwiSubscriptionState::Active,
                    ..*old(self)
                }))
            },
    {
        let now = now_millis();
        proof {
            assert(clock_reading(now));
        }
        self.refresh_at(expires_seconds, now);
    }

    pub fn terminate(&mut self)
        ensures
            *final(self) == (MwiSubscription { state: MwiSubscriptionState::Terminated, ..*old(self) }),
    {
        self.state = MwiSubscriptionState::Terminated;
    }

    pub fn mark_notified_at(&mut self, now: i64)
        ensures
            *final(self) == (MwiSubscription { last_notify_at: Some(now), ..*old(self) }),
    {
        self.last_notify_at = Some(now);
    }

    pub fn mark_notified(&mut self)
        ensures
            final(self).last_notify_at is Some,
            final(self).id == old(self).id,
            exists|now: i64| #[trigger] clock_reading(now) && {
                &&& (*final(self) == (MwiSubscription { last_notify_at: Some(now), ..*old(self) }))
            },
    {
        let now = now_millis();
        proof {
            assert(clock_reading(now));
        }
        self.mark_notified_at(now);
    }

    /// Whole seconds from `now` to the expiry, rounded toward zero.
    pub fn time_until_expiry_at(&self, now: i64) -> (r: i64)
        ensures
            r == seconds_between(self.expires_at, now),
    {
        crate::domain::shared::system::elapsed_seconds(self.expires_at, now)
    }

    pub fn time_until_expiry(&self) -> (r: i64) {
        self.time_until_expiry_at(now_millis())
    }

    pub fn duplicate(&self) -> (r: Self)
        ensures
            r == *self,
    {
        MwiSubscription {
            id: self.id,
            subscriber: self.subscriber.clone(),
            account: self.account.duplicate(),
            contact: self.contact.clone(),
            expires_at: self.expires_at,
            call_id: self.call_id.clone(),
            from_tag: self.from_tag.clone(),
            to_tag: self.to_tag.clone(),
            state: self.state,
            created_at: self.created_at,
            last_notify_at: self.last_notify_at,
        }
    }
}

impl Keyed for MwiSubscription {
    type Key = u128;

    open spec fn key(&self) -> u128 {
        self.id
    }

    open spec fn inv(&self) -> bool {
        true
    }

    fn key_ref(&self) -> (r: &u128) {
        let r = &self.id;
        assert(r.kv() == *r);
        r
    }
}

/// MWI notification event.
#[derive(Debug, Clone)]
pub struct MwiNotification {
    pub subscription_id: u128,
    pub summary: MessageSummary,
    pub state: MwiSubscriptionState,
}

/// The subscriptions of one account, in the order they were made.
pub struct AccountIndex {
    uri: String,
    ids: Vec<u128>,
}

impl AccountIndex {
    pub closed spec fn spec_ids(&self) -> Seq<u128> {
        self.ids@
    }
}

impl Keyed for AccountIndex {
    type Key = str;

    closed spec fn key(&self) -> Seq<char> {
        self.uri@
    }

    closed spec fn inv(&self) -> bool {
        true
    }

    fn key_ref(&self) -> (r: &str) {
        let r = self.uri.as_str();
        assert(r.kv() == r@);
        r
    }
}

/// MWI statistics.
#[derive(Debug, Clone)]
pub struct MwiStatistics {
    pub total_subscriptions: usize,
    pub active_subscriptions: usize,
    pub expired_subscriptions: usize,
    pub monitored_accounts: usize,
    pub accounts_with_new_messages: usize,
    pub total_new_messages: u32,
}

/// Subscriptions active at `now`.
pub open spec fn count_active(s: Seq<MwiSubscription>, now: i64) -> int
    decreases s.len(),
{
    if s.len() == 0 {
        0
    } else {
        count_active(s.drop_last(), now) + if s.last().state == MwiSubscriptionState::Active && !(now
            > s.last().expires_at) {
            1int
        } else {
            0int
        }
    }
}

/// Subscriptions expired at `now`.
pub open spec fn count_expired(s: Seq<MwiSubscription>, now: i64) -> int
    decreases s.len(),
{
    if s.len() == 0 {
        0
    } else {
        count_expired(s.drop_last(), now) + if now > s.last().expires_at { 1int } else { 0int }
    }
}

/// Summaries with new messages.
pub open spec fn count_with_new(s: Seq<MessageSummary>) -> int
    decreases s.len(),
{
    if s.len() == 0 {
        0
    } else {
        count_with_new(s.drop_last()) + if s.last().voice_new > 0 || s.last().voice_urgent_new > 0 {
            1int
        } else {
            0int
        }
    }
}

/// The new messages over all summaries.
pub open spec fn sum_new(s: Seq<MessageSummary>) -> int
    decreases s.len(),
{
    if s.len() == 0 {
        0
    } else {
        sum_new(s.drop_last()) + s.last().voice_new + s.last().voice_urgent_new
    }
}

proof fn lemma_counts_bounded(s: Seq<MwiSubscription>, now: i64)
    ensures
        0 <= count_active(s, now) <= s.len(),
        0 <= count_expired(s, now) <= s.len(),
    decreases s.len(),
{
    if s.len() > 0 {
        lemma_counts_bounded(s.drop_last(), now);
    }
}

proof fn lemma_summary_counts(s: Seq<MessageSummary>, k: int)
    requires
        0 <= k <= s.len(),
    ensures
        0 <= count_with_new(s.take(k)) <= k,
        0 <= sum_new(s.take(k)) <= sum_new(s),
    decreases s.len() - k,
{
    if k < s.len() {
        lemma_summary_counts(s, k + 1);
        assert(s.take(k + 1).drop_last() =~= s.take(k));
    } else {
        assert(s.take(k) =~= s);
    }
    if k > 0 {
        assert(s.take(k).drop_last() =~= s.take(k - 1));
        lemma_summary_counts_prefix(s.take(k));
    }
}

proof fn lemma_summary_counts_prefix(s: Seq<MessageSummary>)
    ensures
        0 <= count_with_new(s) <= s.len(),
        sum_new(s) >= 0,
    decreases s.len(),
{
    if s.len() > 0 {
        lemma_summary_counts_prefix(s.drop_last());
    }
}

/// Some entry with identifier `id` has expired at `now`.
pub open spec fn is_expired_id(items: Seq<MwiSubscription>, id: u128, now: i64) -> bool {
    exists|y: int| 0 <= y < items.len() && items[y].id == id && now > items[y].expires_at
}

/// The notification a subscription gets with the given summary.
pub open spec fn is_notification(n: MwiNotification, sub: MwiSubscription, summary: MessageSummary) -> bool {
    n.subscription_id == sub.id && n.state == sub.state && same_summary(summary, n.summary)
}

/// MWI manager: subscriptions by identifier, the subscriptions of each
/// account, the current summary of each account, and the notifications
/// waiting to be sent.
pub struct MwiManager {
    subscriptions: Store<MwiSubscription>,
    account_index: Store<AccountIndex>,
    summaries: Store<MessageSummary>,
    outbox: Vec<MwiNotification>,
}

impl MwiManager {
    pub closed spec fn spec_subscriptions(&self) -> Store<MwiSubscription> {
        self.subscriptions
    }

    pub closed spec fn spec_index(&self) -> Store<AccountIndex> {
        self.account_index
    }

    pub closed spec fn spec_summaries(&self) -> Store<MessageSummary> {
        self.summaries
    }

    /// The notifications waiting to be sent, oldest first.
    pub closed spec fn spec_outbox(&self) -> Seq<MwiNotification> {
        self.outbox@
    }

    /// The subscription identifiers recorded for an account.
    pub open spec fn spec_ids_of(&self, uri: Seq<char>) -> Seq<u128> {
        match self.spec_index().get_spec(uri) {
            Some(ix) => ix.spec_ids(),
            None => Seq::empty(),
        }
    }

    pub open spec fn wf(&self) -> bool {
        &&& self.spec_subscriptions().wf()
        &&& self.spec_index().wf()
        &&& self.spec_summaries().wf()
    }

    pub fn new() -> (r: Self)
        ensures
            r.wf(),
            r.spec_subscriptions().items().len() == 0,
            r.spec_index().items().len() == 0,
            r.spec_summaries().items().len() == 0,
            r.spec_outbox().len() == 0,
    {
        MwiManager {
            subscriptions: Store::new(),
            account_index: Store::new(),
            summaries: Store::new(),
            outbox: Vec::new(),
        }
    }

    /// Takes the notifications waiting to be sent, oldest first.
    pub fn take_notifications(&mut self) -> (r: Vec<MwiNotification>)
        ensures
            r@ == old(self).spec_outbox(),
            final(self).spec_outbox().len() == 0,
            final(self).spec_subscriptions() == old(self).spec_subscriptions(),
            final(self).spec_index() == old(self).spec_index(),
            final(self).spec_summaries() == old(self).spec_summaries(),
    {
        let mut out: Vec<MwiNotification> = Vec::new();
        std::mem::swap(&mut out, &mut self.outbox);
        out
    }

    /// Marks a subscription notified at `now` and queues its notification
    /// with the given summary; nothing happens for an unknown subscription.
    fn send_notification(&mut self, sub_id: u128, summary: MessageSummary, now: i64)
        requires
            old(self).wf(),
        ensures
            final(self).wf(),
            final(self).spec_index() == old(self).spec_index(),
            final(self).spec_summaries() == old(self).spec_summaries(),
            match old(self).spec_subscriptions().get_spec(sub_id) {
                Some(s) => {
                    &&& final(self).spec_subscriptions().get_spec(sub_id) == Some(
                        MwiSubscription { last_notify_at: Some(now), ..s },
                    )
                    &&& final(self).spec_outbox().len() == old(self).spec_outbox().len() + 1
                    &&& final(self).spec_outbox().drop_last() == old(self).spec_outbox()
                    &&& is_notification(final(self).spec_outbox().last(), s, summary)
                    &&& final(self).spec_outbox().last().subscription_id == sub_id
                },
                None => final(self).spec_subscriptions().items() == old(self).spec_subscriptions().items()
                    && final(self).spec_outbox() == old(self).spec_outbox(),
            },
            forall|k: u128| k != sub_id ==> final(self).spec_subscriptions().get_spec(k) == old(self).spec_subscriptions().get_spec(k),
            final(self).spec_subscriptions().items().len() == old(self).spec_subscriptions().items().len(),
    {
        match self.subscriptions.find(&sub_id) {
            Some(i) => {
                let mut s = self.subscriptions.take_at(i);
                s.mark_notified_at(now);
                let n = MwiNotification { subscription_id: sub_id, summary, state: s.state };
                self.subscriptions.put_at(i, s);
                let ghost before = self.outbox@;
                self.outbox.push(n);
                assert(self.outbox@.drop_last() == before);
            },
            None => {},
        }
    }

    /// Subscribes to an account at `now` for `expires_seconds` under the
    /// given identifier, and queues the first notification: the account's
    /// current summary, or an empty one. A zero expiry is refused.
    pub fn subscribe_at(
        &mut self,
        subscriber: String,
        account: MwiAccount,
        contact: String,
        expires_seconds: u32,
        call_id: String,
        from_tag: String,
        to_tag: String,
        now: i64,
        id: u128,
    ) -> (r: Result<u128, String>)
        requires
            old(self).wf(),
        ensures
            final(self).wf(),
            expires_seconds == 0 ==> (r matches Err(m) && m@ == "Cannot subscribe with 0 expiry"@) && final(self).spec_subscriptions()
                == old(self).spec_subscriptions() && final(self).spec_outbox() == old(self).spec_outbox(),
            expires_seconds != 0 ==> {
                &&& r == Ok::<u128, String>(id)
                &&& final(self).spec_subscriptions().get_spec(id) matches Some(s) && s == (MwiSubscription {
                    id,
                    subscriber,
                    account,
                    contact,
                    expires_at: expiry_time(now, expires_seconds),
                    call_id,
                    from_tag,
                    to_tag,
                    state: MwiSubscriptionState::Active,
                    created_at: now,
                    last_notify_at: Some(now),
                })
                &&& final(self).spec_ids_of(account.uri@) == old(self).spec_ids_of(account.uri@).push(id)
                &&& final(self).spec_outbox().len() == old(self).spec_outbox().len() + 1
                &&& final(self).spec_outbox().drop_last() == old(self).spec_outbox()
                &&& final(self).spec_outbox().last().subscription_id == id
                &&& final(self).spec_outbox().last().state == MwiSubscriptionState::Active
                &&& match old(self).spec_summaries().get_spec(account.uri@) {
                    Some(cur) => same_summary(cur, final(self).spec_outbox().last().summary),
                    None => is_empty_summary(final(self).spec_outbox().last().summary, account),
                }
                &&& forall|k: u128| k != id ==> final(self).spec_subscriptions().get_spec(k) == old(self).spec_subscriptions().get_spec(k)
            },
            forall|u: Seq<char>| u != account.uri@ ==> final(self).spec_ids_of(u) == old(self).spec_ids_of(u),
            final(self).spec_summaries() == old(self).spec_summaries(),
    {
        if expires_seconds == 0 {
            return Err(String::from_str("Cannot subscribe with 0 expiry"));
        }
        let acct = account.duplicate();
        let uri = account.uri.clone();
        let s = MwiSubscription::new_at(id, subscriber, account, contact, expires_seconds, call_id, from_tag, to_tag, now);
        self.subscriptions.insert(s);
        let mut ix = match self.account_index.remove(uri.as_str()) {
            Some(ix) => ix,
            None => AccountIndex { uri: uri.clone(), ids: Vec::new() },
        };
        ix.ids.push(id);
        self.account_index.push_new(ix);
        let summary = match self.summaries.get(uri.as_str()) {
            Some(cur) => cur.duplicate(),
            None => MessageSummary::new(acct),
        };
        self.send_notification(id, summary, now);
        Ok(id)
    }

    /// Subscribes to an account now, with a fresh identifier.
    pub fn subscribe(
        &mut self,
        subscriber: String,
        account: MwiAccount,
        contact: String,
        expires_seconds: u32,
        call_id: String,
        from_tag: String,
        to_tag: String,
    ) -> (r: Result<u128, String>)
        requires
            old(self).wf(),
        ensures
            final(self).wf(),
            expires_seconds == 0 <==> r is Err,
            r matches Ok(id) ==> is_v4_uuid(id) && final(self).spec_subscriptions().contains(id),
            exists|now: i64, id: u128| #![trigger clock_reading(now), is_v4_uuid(id)] clock_reading(now) && is_v4_uuid(id) && {
                &&& (expires_seconds == 0 ==> (r matches Err(m) && m@ == "Cannot subscribe with 0 expiry"@) && final(self).spec_subscriptions()
                    == old(self).spec_subscriptions() && final(self).spec_outbox() == old(self).spec_outbox())
                &&& (expires_seconds != 0 ==> {
                    &&& r == Ok::<u128, String>(id)
                    &&& final(self).spec_subscriptions().get_spec(id) matches Some(s) && s == (MwiSubscription {
                        id,
                        subscriber,
                        account,
                        contact,
                        expires_at: expiry_time(now, expires_seconds),
                        call_id,
                        from_tag,
                        to_tag,
                        state: MwiSubscriptionState::Active,
                        created_at: now,
                        last_notify_at: Some(now),
                    })
                    &&& final(self).spec_ids_of(account.uri@) == old(self).spec_ids_of(account.uri@).push(id)
                    &&& final(self).spec_outbox().len() == old(self).spec_outbox().len() + 1
                    &&& final(self).spec_outbox().drop_last() == old(self).spec_outbox()
                    &&& final(self).spec_outbox().last().subscription_id == id
                    &&& final(self).spec_outbox().last().state == MwiSubscriptionState::Active
                    &&& match old(self).spec_summaries().get_spec(account.uri@) {
                        Some(cur) => same_summary(cur, final(self).spec_outbox().last().summary),
                        None => is_empty_summary(final(self).spec_outbox().last().summary, account),
                    }
                    &&& forall|k: u128| k != id ==> final(self).spec_subscriptions().get_spec(k) == old(self).spec_subscriptions().get_spec(k)
                })
                &&& (forall|u: Seq<char>| u != account.uri@ ==> final(self).spec_ids_of(u) == old(self).spec_ids_of(u))
                &&& (final(self).spec_summaries() == old(self).spec_summaries())
            },
    {
        let now = now_millis();
        let id = new_uuid();
        proof {
            assert(clock_reading(now));
        }
        self.subscribe_at(subscriber, account, contact, expires_seconds, call_id, from_tag, to_tag, now, id)
    }

    /// Refreshes a subscription at `now`; a zero expiry terminates it and
    /// queues a notification with an empty summary.
    pub fn refresh_subscription_at(&mut self, sub_id: &u128, expires_seconds: u32, now: i64) -> (r: Result<(), String>)
        requires
            old(self).wf(),
        ensures
            final(self).wf(),
            r is Err <==> !old(self).spec_subscriptions().contains(*sub_id),
            r matches Err(m) ==> m@ == "Subscription not found"@ && final(self).spec_subscriptions().items()
                == old(self).spec_subscriptions().items() && final(self).spec_outbox() == old(self).spec_outbox(),
            r is Ok ==> {
                let s = old(self).spec_subscriptions().get_spec(*sub_id).unwrap();
                if expires_seconds == 0 {
                    let t = MwiSubscription { state: MwiSubscriptionState::Terminated, ..s };
                    &&& final(self).spec_subscriptions().get_spec(*sub_id) == Some(
                        MwiSubscription { last_notify_at: Some(now), ..t },
                    )
                    &&& final(self).spec_outbox().len() == old(self).spec_outbox().len() + 1
                    &&& final(self).spec_outbox().drop_last() == old(self).spec_outbox()
                    &&& final(self).spec_outbox().last().subscription_id == *sub_id
                    &&& final(self).spec_outbox().last().state == MwiSubscriptionState::Terminated
                    &&& is_empty_summary(final(self).spec_outbox().last().summary, s.account)
                } else {
                    &&& final(self).spec_subscriptions().get_spec(*sub_id) == Some(
                        MwiSubscription {
                            expires_at: expiry_time(now, expires_seconds),
                            state: MwiSubscriptionState::Active,
                            ..s
                        },
                    )
                    &&& final(self).spec_outbox() == old(self).spec_outbox()
                }
            },
            forall|k: u128| k != *sub_id ==> final(self).spec_subscriptions().get_spec(k) == old(self).spec_subscriptions().get_spec(k),
            final(self).spec_index() == old(self).spec_index(),
            final(self).spec_summaries() == old(self).spec_summaries(),
    {
        match self.subscriptions.find(sub_id) {
            Some(i) => {
                let mut s = self.subscriptions.take_at(i);
                if expires_seconds == 0 {
                    s.terminate();
                    let empty = MessageSummary::new(s.account.duplicate());
                    self.subscriptions.put_at(i, s);
                    self.send_notification(*sub_id, empty, now);
                } else {
                    s.refresh_at(expires_seconds, now);
                    self.subscriptions.put_at(i, s);
                }
                Ok(())
            },
            None => Err(String::from_str("Subscription not found")),
        }
    }

    pub fn refresh_subscription(&mut self, sub_id: &u128, expires_seconds: u32) -> (r: Result<(), String>)
        requires
            old(self).wf(),
        ensures
            final(self).wf(),
            r is Err <==> !old(self).spec_subscriptions().contains(*sub_id),
            exists|now: i64| #[trigger] clock_reading(now) && {
                &&& (r is Err <==> !old(self).spec_subscriptions().contains(*sub_id))
                &&& (r matches Err(m) ==> m@ == "Subscription not found"@ && final(self).spec_subscriptions().items()
                    == old(self).spec_subscriptions().items() && final(self).spec_outbox() == old(self).spec_outbox())
                &&& (r is Ok ==> {
                    let s = old(self).spec_subscriptions().get_spec(*sub_id).unwrap();
                    if expires_seconds == 0 {
                        let t = MwiSubscription { state: MwiSubscriptionState::Terminated, ..s };
                        &&& final(self).spec_subscriptions().get_spec(*sub_id) == Some(
                            MwiSubscription { last_notify_at: Some(now), ..t },
                        )
                        &&& final(self).spec_outbox().len() == old(self).spec_outbox().len() + 1
                        &&& final(self).spec_outbox().drop_last() == old(self).spec_outbox()
                        &&& final(self).spec_outbox().last().subscription_id == *sub_id
                        &&& final(self).spec_outbox().last().state == MwiSubscriptionState::Terminated
                        &&& is_empty_summary(final(self).spec_outbox().last().summary, s.account)
                    } else {
                        &&& final(self).spec_subscriptions().get_spec(*sub_id) == Some(
                            MwiSubscription {
                                expires_at: expiry_time(now, expires_seconds),
                                state: MwiSubscriptionState::Active,
                                ..s
                            },
                        )
                        &&& final(self).spec_outbox() == old(self).spec_outbox()
                    }
                })
                &&& (forall|k: u128| k != *sub_id ==> final(self).spec_subscriptions().get_spec(k) == old(self).spec_subscriptions().get_spec(k))
                &&& (final(self).spec_index() == old(self).spec_index())
                &&& (final(self).spec_summaries() == old(self).spec_summaries())
            },
    {
        let now = now_millis();
        proof {
            assert(clock_reading(now));
        }
        self.refresh_subscription_at(sub_id, expires_seconds, now)
    }

    /// Removes a subscription and its entry in the account's index.
    pub fn unsubscribe(&mut self, sub_id: &u128) -> (r: Result<(), String>)
        requires
            old(self).wf(),
        ensures
            final(self).wf(),
            r is Err <==> !old(self).spec_subscriptions().contains(*sub_id),
            r matches Err(m) ==> m@ == "Subscription not found"@ && final(self).spec_subscriptions().items()
                == old(self).spec_subscriptions().items() && final(self).spec_index() == old(self).spec_index(),
            r is Ok ==> {
                let uri = old(self).spec_subscriptions().get_spec(*sub_id).unwrap().account.uri@;
                &&& !final(self).spec_subscriptions().contains(*sub_id)
                &&& final(self).spec_ids_of(uri) == old(self).spec_ids_of(uri).filter(|x: u128| x != *sub_id)
                &&& forall|u: Seq<char>| u != uri ==> final(self).spec_ids_of(u) == old(self).spec_ids_of(u)
            },
            forall|k: u128| k != *sub_id ==> final(self).spec_subscriptions().get_spec(k) == old(self).spec_subscriptions().get_spec(k),
            final(self).spec_outbox() == old(self).spec_outbox(),
            final(self).spec_summaries() == old(self).spec_summaries(),
    {
        match self.subscriptions.remove(sub_id) {
            Some(s) => {
                self.remove_from_index(s.account.uri.as_str(), *sub_id);
                Ok(())
            },
            None => Err(String::from_str("Subscription not found")),
        }
    }

    fn remove_from_index(&mut self, uri: &str, sub_id: u128)
        requires
            old(self).wf(),
        ensures
            final(self).wf(),
            final(self).spec_ids_of(uri@) == old(self).spec_ids_of(uri@).filter(|x: u128| x != sub_id),
            forall|u: Seq<char>| u != uri@ ==> final(self).spec_ids_of(u) == old(self).spec_ids_of(u),
            final(self).spec_subscriptions() == old(self).spec_subscriptions(),
            final(self).spec_outbox() == old(self).spec_outbox(),
            final(self).spec_summaries() == old(self).spec_summaries(),
    {
        match self.account_index.find(uri) {
            Some(i) => {
                let mut ix = self.account_index.take_at(i);
                let ghost all = ix.ids@;
                let ghost keep = |x: u128| x != sub_id;
                let mut kept: Vec<u128> = Vec::new();
                let mut j: usize = 0;
                while j < ix.ids.len()
                    invariant
                        j <= all.len(),
                        all == ix.ids@,
                        keep == (|x: u128| x != sub_id),
                        kept@ == all.take(j as int).filter(keep),
                    decreases all.len() - j,
                {
                    proof {
                        reveal(Seq::filter);
                        assert(all.take(j + 1).drop_last() =~= all.take(j as int));
                    }
                    if ix.ids[j] != sub_id {
                        kept.push(ix.ids[j]);
                    }
                    j = j + 1;
                }
                assert(all.take(j as int) =~= all);
                ix.ids = kept;
                self.account_index.put_at(i, ix);
            },
            None => {
                proof {
                    reveal(Seq::filter);
                }
            },
        }
    }

    /// Stores an account's summary (replacing the former one) and queues a
    /// notification of it for each subscription recorded for the account, in
    /// the order they were made, that still exists.
    pub fn update_summary_at(&mut self, summary: MessageSummary, now: i64)
        requires
            old(self).wf(),
        ensures
            final(self).wf(),
            final(self).spec_summaries().get_spec(summary.account.uri@) matches Some(s) && same_summary(summary, s),
            forall|u: Seq<char>| u != summary.account.uri@ ==> final(self).spec_summaries().get_spec(u) == old(self).spec_summaries().get_spec(u),
            final(self).spec_index() == old(self).spec_index(),
            final(self).spec_outbox().len() >= old(self).spec_outbox().len(),
            final(self).spec_outbox().take(old(self).spec_outbox().len() as int) == old(self).spec_outbox(),
            forall|i: int| old(self).spec_outbox().len() <= i < final(self).spec_outbox().len() ==> {
                &&& old(self).spec_ids_of(summary.account.uri@).contains((#[trigger] final(self).spec_outbox()[i]).subscription_id)
                &&& same_summary(summary, final(self).spec_outbox()[i].summary)
            },
            forall|k: u128| #[trigger] final(self).spec_subscriptions().contains(k) == old(self).spec_subscriptions().contains(k),
    {
        let uri = summary.account.uri.clone();
        let copy = summary.duplicate();
        self.summaries.insert(copy);
        let ids: Vec<u128> = match self.account_index.get(uri.as_str()) {
            Some(ix) => {
                let mut v: Vec<u128> = Vec::new();
                let mut j: usize = 0;
                while j < ix.ids.len()
                    invariant
                        j <= ix.ids@.len(),
                        v@ == ix.ids@.take(j as int),
                    decreases ix.ids.len() - j,
                {
                    v.push(ix.ids[j]);
                    assert(ix.ids@.take(j as int).push(ix.ids@[j as int]) =~= ix.ids@.take(j + 1));
                    j = j + 1;
                }
                assert(ix.ids@.take(j as int) =~= ix.ids@);
                v
            },
            None => Vec::new(),
        };
        let ghost start = self.outbox@.len();
        let ghost out0 = self.outbox@;
        let mut k: usize = 0;
        while k < ids.len()
            invariant
                k <= ids@.len(),
                ids@ == old(self).spec_ids_of(uri@),
                uri@ == summary.account.uri@,
                self.wf(),
                self.outbox@.len() >= start,
                start == old(self).outbox@.len(),
                self.outbox@.take(start as int) == old(self).outbox@,
                forall|i: int| start <= i < self.outbox@.len() ==> {
                    &&& ids@.contains((#[trigger] self.outbox@[i]).subscription_id)
                    &&& same_summary(summary, self.outbox@[i].summary)
                },
                self.account_index == old(self).account_index,
                forall|u: Seq<char>| u != summary.account.uri@ ==> self.spec_summaries().get_spec(u) == old(self).spec_summaries().get_spec(u),
                self.spec_summaries().get_spec(summary.account.uri@) matches Some(s) && same_summary(summary, s),
                forall|x: u128| #[trigger] self.spec_subscriptions().contains(x) == old(self).spec_subscriptions().contains(x),
            decreases ids@.len() - k,
        {
            let id = ids[k];
            let s = summary.duplicate();
            let ghost before = self.outbox@;
            let ghost st = *self;
            self.send_notification(id, s, now);
            proof {
                assert(ids@[k as int] == id);
                if self.outbox@.len() > before.len() {
                    assert(self.outbox@.take(start as int) =~= before.take(start as int));
                    assert forall|i: int| start <= i < self.outbox@.len() implies {
                        &&& ids@.contains((#[trigger] self.outbox@[i]).subscription_id)
                        &&& same_summary(summary, self.outbox@[i].summary)
                    } by {
                        if i < before.len() {
                            assert(self.outbox@[i] == before[i]);
                        } else {
                            assert(self.outbox@[i] == self.outbox@.last());
                        }
                    }
                }
                assert forall|x: u128| #[trigger] self.spec_subscriptions().contains(x) == old(self).spec_subscriptions().contains(x) by {
                    assert(st.spec_subscriptions().contains(x) == old(self).spec_subscriptions().contains(x));
                    if x == id {
                        if st.spec_subscriptions().contains(id) {
                        } else {
                            assert(self.spec_subscriptions().items() == st.spec_subscriptions().items());
                        }
                    }
                }
            }
            k = k + 1;
        }
    }

    pub fn update_summary(&mut self, summary: MessageSummary)
        requires
            old(self).wf(),
        ensures
            final(self).wf(),
            final(self).spec_summaries().get_spec(summary.account.uri@) matches Some(s) && same_summary(summary, s),
            exists|now: i64| #[trigger] clock_reading(now) && {
                &&& (final(self).spec_summaries().get_spec(summary.account.uri@) matches Some(s) && same_summary(summary, s))
                &&& (forall|u: Seq<char>| u != summary.account.uri@ ==> final(self).spec_summaries().get_spec(u) == old(self).spec_summaries().get_spec(u))
                &&& (final(self).spec_index() == old(self).spec_index())
                &&& (final(self).spec_outbox().len() >= old(self).spec_outbox().len())
                &&& (final(self).spec_outbox().take(old(self).spec_outbox().len() as int) == old(self).spec_outbox())
                &&& (forall|i: int| old(self).spec_outbox().len() <= i < final(self).spec_outbox().len() ==> {
                    &&& old(self).spec_ids_of(summary.account.uri@).contains((#[trigger] final(self).spec_outbox()[i]).subscription_id)
                    &&& same_summary(summary, final(self).spec_outbox()[i].summary)
                })
                &&& (forall|k: u128| #[trigger] final(self).spec_subscriptions().contains(k) == old(self).spec_subscriptions().contains(k))
            },
    {
        let now = now_millis();
        proof {
            assert(clock_reading(now));
        }
        self.update_summary_at(summary, now)
    }

    /// A copy of an account's summary.
    pub fn get_summary(&self, account: &MwiAccount) -> (r: Option<MessageSummary>)
        requires
            self.wf(),
        ensures
            match self.spec_summaries().get_spec(account.uri@) {
                Some(s) => r matches Some(c) && same_summary(s, c),
                None => r is None,
            },
    {
        match self.summaries.get(account.uri.as_str()) {
            Some(s) => Some(s.duplicate()),
            None => None,
        }
    }

    /// A copy of a subscription.
    pub fn get_subscription(&self, sub_id: &u128) -> (r: Option<MwiSubscription>)
        requires
            self.wf(),
        ensures
            r == self.spec_subscriptions().get_spec(*sub_id),
    {
        match self.subscriptions.get(sub_id) {
            Some(s) => Some(s.duplicate()),
            None => None,
        }
    }

    /// The subscriptions recorded for an account that exist and are active
    /// at `now`, in the order they were made.
    pub fn list_subscriptions_at(&self, account: &MwiAccount, now: i64) -> (r: Vec<MwiSubscription>)
        requires
            self.wf(),
        ensures
            forall|i: int| 0 <= i < r@.len() ==> {
                &&& self.spec_ids_of(account.uri@).contains((#[trigger] r@[i]).id)
                &&& self.spec_subscriptions().get_spec(r@[i].id) == Some(r@[i])
                &&& r@[i].state == MwiSubscriptionState::Active && !(now > r@[i].expires_at)
            },
            forall|j: int| 0 <= j < self.spec_ids_of(account.uri@).len() ==> (self.spec_subscriptions().get_spec(
                #[trigger] self.spec_ids_of(account.uri@)[j],
            ) matches Some(s) && s.state == MwiSubscriptionState::Active && !(now > s.expires_at)) ==> r@.contains(
                self.spec_subscriptions().get_spec(self.spec_ids_of(account.uri@)[j]).unwrap(),
            ),
    {
        let mut out: Vec<MwiSubscription> = Vec::new();
        match self.account_index.get(account.uri.as_str()) {
            Some(ix) => {
                let mut j: usize = 0;
                while j < ix.ids.len()
                    invariant
                        j <= ix.ids@.len(),
                        ix.spec_ids() == self.spec_ids_of(account.uri@),
                        self.wf(),
                        forall|i: int| 0 <= i < out@.len() ==> {
                            &&& ix.ids@.contains((#[trigger] out@[i]).id)
                            &&& self.spec_subscriptions().get_spec(out@[i].id) == Some(out@[i])
                            &&& out@[i].state == MwiSubscriptionState::Active && !(now > out@[i].expires_at)
                        },
                        forall|x: int| 0 <= x < j ==> (self.spec_subscriptions().get_spec(#[trigger] ix.ids@[x]) matches Some(s)
                            && s.state == MwiSubscriptionState::Active && !(now > s.expires_at)) ==> out@.contains(
                            self.spec_subscriptions().get_spec(ix.ids@[x]).unwrap(),
                        ),
                    decreases ix.ids.len() - j,
                {
                    let id = ix.ids[j];
                    match self.subscriptions.get(&id) {
                        Some(s) => {
                            if s.is_active_at(now) {
                                let ghost o = out@;
                                out.push(s.duplicate());
                                proof {
                                    assert(out@.last() == *s);
                                    assert forall|x: int| 0 <= x < j + 1 && (self.spec_subscriptions().get_spec(#[trigger] ix.ids@[x]) matches Some(t)
                                        && t.state == MwiSubscriptionState::Active && !(now > t.expires_at)) implies out@.contains(
                                        self.spec_subscriptions().get_spec(ix.ids@[x]).unwrap(),
                                    ) by {
                                        if x < j {
                                            let w = choose|w: int| 0 <= w < o.len() && o[w] == self.spec_subscriptions().get_spec(ix.ids@[x]).unwrap();
                                            assert(out@[w] == o[w]);
                                        } else {
                                            assert(out@[out@.len() - 1] == *s);
                                        }
                                    }
                                    assert forall|i: int| 0 <= i < out@.len() implies ix.ids@.contains((#[trigger] out@[i]).id) by {
                                        if i == out@.len() - 1 {
                                            assert(ix.ids@[j as int] == id);
                                        } else {
                                            assert(out@[i] == o[i]);
                                        }
                                    }
                                }
                            }
                        },
                        None => {},
                    }
                    j = j + 1;
                }
            },
            None => {},
        }
        out
    }

    pub fn list_subscriptions(&self, account: &MwiAccount) -> (r: Vec<MwiSubscription>)
        requires
            self.wf(),
        ensures
            forall|i: int| 0 <= i < r@.len() ==> self.spec_ids_of(account.uri@).contains((#[trigger] r@[i]).id),
            exists|now: i64| #[trigger] clock_reading(now) && {
                &&& (forall|i: int| 0 <= i < r@.len() ==> {
                    &&& self.spec_ids_of(account.uri@).contains((#[trigger] r@[i]).id)
                    &&& self.spec_subscriptions().get_spec(r@[i].id) == Some(r@[i])
                    &&& r@[i].state == MwiSubscriptionState::Active && !(now > r@[i].expires_at)
                })
                &&& (forall|j: int| 0 <= j < self.spec_ids_of(account.uri@).len() ==> (self.spec_subscriptions().get_spec(
                    #[trigger] self.spec_ids_of(account.uri@)[j],
                ) matches Some(s) && s.state == MwiSubscriptionState::Active && !(now > s.expires_at)) ==> r@.contains(
                    self.spec_subscriptions().get_spec(self.spec_ids_of(account.uri@)[j]).unwrap(),
                ))
            },
    {
        let now = now_millis();
        proof {
            assert(clock_reading(now));
        }
        self.list_subscriptions_at(account, now)
    }

    /// Removes the subscriptions expired at `now`, and their entries in the
    /// account indexes; gives back how many were removed.
    pub fn cleanup_expired_at(&mut self, now: i64) -> (r: usize)
        requires
            old(self).wf(),
        ensures
            final(self).wf(),
            forall|k: u128| #[trigger] final(self).spec_subscriptions().contains(k) <==> (old(self).spec_subscriptions().contains(k)
                && !(now > old(self).spec_subscriptions().get_spec(k).unwrap().expires_at)),
            forall|k: u128| final(self).spec_subscriptions().contains(k) ==> final(self).spec_subscriptions().get_spec(k)
                == old(self).spec_subscriptions().get_spec(k),
            r == old(self).spec_subscriptions().items().len() - final(self).spec_subscriptions().items().len(),
            final(self).spec_outbox() == old(self).spec_outbox(),
            final(self).spec_summaries() == old(self).spec_summaries(),
    {
        let mut expired: Vec<u128> = Vec::new();
        let mut i: usize = 0;
        let ghost items = self.subscriptions.items();
        while i < self.subscriptions.len()
            invariant
                i <= items.len(),
                items == self.subscriptions.items(),
                self.wf(),
                forall|x: int| 0 <= x < expired@.len() ==> is_expired_id(items, #[trigger] expired@[x], now),
                forall|y: int| 0 <= y < i && now > (#[trigger] items[y]).expires_at ==> expired@.contains(items[y].id),
            decreases items.len() - i,
        {
            let s = self.subscriptions.at(i);
            if s.is_expired_at(now) {
                let ghost e0 = expired@;
                expired.push(s.id);
                proof {
                    assert forall|x: int| 0 <= x < expired@.len() implies is_expired_id(items, #[trigger] expired@[x], now) by {
                        if x == expired@.len() - 1 {
                            assert(items[i as int].id == expired@[x]);
                        } else {
                            assert(expired@[x] == e0[x]);
                        }
                    }
                    assert forall|y: int| 0 <= y < i + 1 && now > (#[trigger] items[y]).expires_at implies expired@.contains(items[y].id) by {
                        if y == i {
                            assert(expired@[expired@.len() - 1] == items[y].id);
                        } else {
                            let w = choose|w: int| 0 <= w < e0.len() && e0[w] == items[y].id;
                            assert(expired@[w] == e0[w]);
                        }
                    }
                }
            }
            i = i + 1;
        }
        let mut removed: usize = 0;
        let total = self.subscriptions.len();
        let mut k: usize = 0;
        while k < expired.len()
            invariant
                k <= expired@.len(),
                self.wf(),
                total == items.len(),
                items == old(self).spec_subscriptions().items(),
                removed + self.spec_subscriptions().items().len() == items.len(),
                forall|x: u128| #[trigger] self.spec_subscriptions().contains(x) <==> (old(self).spec_subscriptions().contains(x)
                    && !expired@.take(k as int).contains(x)),
                forall|x: u128| self.spec_subscriptions().contains(x) ==> self.spec_subscriptions().get_spec(x) == old(self).spec_subscriptions().get_spec(x),
                forall|x: int| 0 <= x < expired@.len() ==> is_expired_id(items, #[trigger] expired@[x], now),
                forall|y: int| 0 <= y < items.len() && now > (#[trigger] items[y]).expires_at ==> expired@.contains(items[y].id),
                self.spec_outbox() == old(self).spec_outbox(),
                self.spec_summaries() == old(self).spec_summaries(),
            decreases expired@.len() - k,
        {
            let id = expired[k];
            let ghost st = *self;
            let ghost tk = expired@.take(k as int);
            let ghost tk1 = expired@.take(k + 1);
            proof {
                assert(tk1 =~= tk.push(id));
            }
            match self.subscriptions.remove(&id) {
                Some(s) => {
                    removed = removed + 1;
                    self.remove_from_index(s.account.uri.as_str(), id);
                },
                None => {},
            }
            proof {
                assert forall|x: u128| #[trigger] self.spec_subscriptions().contains(x) <==> (old(self).spec_subscriptions().contains(x)
                    && !expired@.take(k + 1).contains(x)) by {
                    if x == id {
                        assert(tk1[k as int] == id);
                    } else {
                        assert(self.spec_subscriptions().get_spec(x) == st.spec_subscriptions().get_spec(x));
                        if tk1.contains(x) {
                            let w = choose|w: int| 0 <= w < tk1.len() && tk1[w] == x;
                            assert(w < k);
                            assert(tk[w] == x);
                        }
                        if tk.contains(x) {
                            let w = choose|w: int| 0 <= w < tk.len() && tk[w] == x;
                            assert(tk1[w] == x);
                        }
                    }
                }
                assert forall|x: u128| self.spec_subscriptions().contains(x) implies self.spec_subscriptions().get_spec(x)
                    == old(self).spec_subscriptions().get_spec(x) by {
                    if x != id {
                        assert(self.spec_subscriptions().get_spec(x) == st.spec_subscriptions().get_spec(x));
                    }
                }
            }
            k = k + 1;
        }
        proof {
            assert(expired@.take(k as int) =~= expired@);
            assert forall|x: u128| #[trigger] self.spec_subscriptions().contains(x) <==> (old(self).spec_subscriptions().contains(x)
                && !(now > old(self).spec_subscriptions().get_spec(x).unwrap().expires_at)) by {
                if old(self).spec_subscriptions().contains(x) {
                    let y = choose|y: int| 0 <= y < items.len() && (#[trigger] items[y]).key() == x;
                    crate::store::lemma_lookup_at(items, y);
                    if expired@.contains(x) {
                        let w = choose|w: int| 0 <= w < expired@.len() && expired@[w] == x;
                        assert(is_expired_id(items, expired@[w], now));
                        let y2 = choose|y2: int| 0 <= y2 < items.len() && items[y2].id == x && now > items[y2].expires_at;
                        crate::store::lemma_lookup_at(items, y2);
                    }
                }
            }
        }
        removed
    }

    pub fn cleanup_expired(&mut self) -> (r: usize)
        requires
            old(self).wf(),
        ensures
            final(self).wf(),
            r == old(self).spec_subscriptions().items().len() - final(self).spec_subscriptions().items().len(),
            exists|now: i64| #[trigger] clock_reading(now) && {
                &&& (forall|k: u128| #[trigger] final(self).spec_subscriptions().contains(k) <==> (old(self).spec_subscriptions().contains(k)
                    && !(now > old(self).spec_subscriptions().get_spec(k).unwrap().expires_at)))
                &&& (forall|k: u128| final(self).spec_subscriptions().contains(k) ==> final(self).spec_subscriptions().get_spec(k)
                    == old(self).spec_subscriptions().get_spec(k))
                &&& (r == old(self).spec_subscriptions().items().len() - final(self).spec_subscriptions().items().len())
                &&& (final(self).spec_outbox() == old(self).spec_outbox())
                &&& (final(self).spec_summaries() == old(self).spec_summaries())
            },
    {
        let now = now_millis();
        proof {
            assert(clock_reading(now));
        }
        self.cleanup_expired_at(now)
    }

    /// Counts of subscriptions and accounts at `now`, and the new messages
    /// over all summaries.
    pub fn get_statistics_at(&self, now: i64) -> (r: MwiStatistics)
        requires
            sum_new(self.spec_summaries().items()) <= u32::MAX,
        ensures
            r.total_subscriptions == self.spec_subscriptions().items().len(),
            r.active_subscriptions == count_active(self.spec_subscriptions().items(), now),
            r.expired_subscriptions == count_expired(self.spec_subscriptions().items(), now),
            r.monitored_accounts == self.spec_summaries().items().len(),
            r.accounts_with_new_messages == count_with_new(self.spec_summaries().items()),
            r.total_new_messages == sum_new(self.spec_summaries().items()),
    {
        let ghost s = self.subscriptions.items();
        let mut active: usize = 0;
        let mut expired: usize = 0;
        let mut i: usize = 0;
        while i < self.subscriptions.len()
            invariant
                i <= s.len(),
                s == self.subscriptions.items(),
                active == count_active(s.take(i as int), now),
                expired == count_expired(s.take(i as int), now),
            decreases s.len() - i,
        {
            proof {
                assert(s.take(i + 1).drop_last() =~= s.take(i as int));
                lemma_counts_bounded(s.take(i as int), now);
            }
            let x = self.subscriptions.at(i);
            if x.is_active_at(now) {
                active = active + 1;
            }
            if x.is_expired_at(now) {
                expired = expired + 1;
            }
            i = i + 1;
        }
        assert(s.take(i as int) =~= s);
        let ghost m = self.summaries.items();
        let mut with_new: usize = 0;
        let mut total_new: u32 = 0;
        let mut j: usize = 0;
        while j < self.summaries.len()
            invariant
                j <= m.len(),
                m == self.summaries.items(),
                with_new == count_with_new(m.take(j as int)),
                total_new == sum_new(m.take(j as int)),
                sum_new(m) <= u32::MAX,
            decreases m.len() - j,
        {
            proof {
                assert(m.take(j + 1).drop_last() =~= m.take(j as int));
                lemma_summary_counts(m, j as int);
                lemma_summary_counts(m, j + 1);
            }
            let x = self.summaries.at(j);
            if x.has_new_messages() {
                with_new = with_new + 1;
            }
            total_new = total_new + x.voice_new + x.voice_urgent_new;
            j = j + 1;
        }
        assert(m.take(j as int) =~= m);
        MwiStatistics {
            total_subscriptions: self.subscriptions.len(),
            active_subscriptions: active,
            expired_subscriptions: expired,
            monitored_accounts: self.summaries.len(),
            accounts_with_new_messages: with_new,
            total_new_messages: total_new,
        }
    }

    pub fn get_statistics(&self) -> (r: MwiStatistics)
        requires
            sum_new(self.spec_summaries().items()) <= u32::MAX,
        ensures
            r.total_subscriptions == self.spec_subscriptions().items().len(),
            r.monitored_accounts == self.spec_summaries().items().len(),
            r.accounts_with_new_messages == count_with_new(self.spec_summaries().items()),
            r.total_new_messages == sum_new(self.spec_summaries().items()),
            exists|now: i64| #[trigger] clock_reading(now) && {
                &&& (r.total_subscriptions == self.spec_subscriptions().items().len())
                &&& (r.active_subscriptions == count_active(self.spec_subscriptions().items(), now))
                &&& (r.expired_subscriptions == count_expired(self.spec_subscriptions().items(), now))
                &&& (r.monitored_accounts == self.spec_summaries().items().len())
                &&& (r.accounts_with_new_messages == count_with_new(self.spec_summaries().items()))
                &&& (r.total_new_messages == sum_new(self.spec_summaries().items()))
            },
    {
        let now = now_millis();
        proof {
            assert(clock_reading(now));
        }
        self.get_statistics_at(now)
    }
}

impl Default for MwiManager {
    fn default() -> (r: Self)
        ensures
            r.wf(),
            r.spec_subscriptions().items().len() == 0,
            r.spec_summaries().items().len() == 0,
            r.spec_outbox().len() == 0,
    {
        Self::new()
    }
}

} // verus!
