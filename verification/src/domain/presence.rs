//! User presence: states and activities, presence subscriptions, and the
//! manager that keeps them, decides which changes are announced and marks
//! idle users away. Times are milliseconds since the Unix epoch.
use vstd::prelude::*;
use crate::domain::shared::system::{clock_reading, format_uuid, is_v4_uuid, new_uuid, now_millis, seconds_between, uuid_text};
use crate::store::{KeyOf, Keyed, Store};
use crate::text::str_eq;

verus! {

/// User presence state.
#[derive(Debug, Clone, Copy, PartialEq, Eq, Structural)]
pub enum PresenceState {
    /// User is online and available
    Online,
    /// User is offline/unavailable
    Offline,
    /// User is away from device
    Away,
    /// User is busy/in a call
    Busy,
    /// User is in Do Not Disturb mode
    DoNotDisturb,
    /// User is on the phone
    OnThePhone,
    /// User is in a meeting
    InMeeting,
}

impl PresenceState {
    pub open spec fn spec_as_str(&self) -> Seq<char> {
        match self {
            PresenceState::Online => "online"@,
            PresenceState::Offline => "offline"@,
            PresenceState::Away => "away"@,
            PresenceState::Busy => "busy"@,
            PresenceState::DoNotDisturb => "dnd"@,
            PresenceState::OnThePhone => "on-the-phone"@,
            PresenceState::InMeeting => "in-meeting"@,
        }
    }

    pub fn as_str(&self) -> (r: &'static str)
        ensures
            r@ == self.spec_as_str(),
    {
        match self {
            PresenceState::Online => "online",
            PresenceState::Offline => "offline",
            PresenceState::Away => "away",
            PresenceState::Busy => "busy",
            PresenceState::DoNotDisturb => "dnd",
            PresenceState::OnThePhone => "on-the-phone",
            PresenceState::InMeeting => "in-meeting",
        }
    }

    /// Only an online user is available.
    pub fn is_available(&self) -> (r: bool)
        ensures
            r == (*self == PresenceState::Online),
    {
        matches!(self, PresenceState::Online)
    }
}

/// Activity type.
#[derive(Debug, Clone, PartialEq, Eq)]
pub enum Activity {
    /// No specific activity
    NoActivity,
    /// Working
    Working,
    /// In a meeting
    Meeting,
    /// On lunch break
    Lunch,
    /// On vacation
    Vacation,
    /// Traveling
    Traveling,
    /// Custom activity
    Custom(String),
}

impl Activity {
    /// A copy of the activity.
    pub fn duplicate(&self) -> (r: Self)
        ensures
            r == *self,
    {
        match self {
            Activity::NoActivity => Activity::NoActivity,
            Activity::Working => Activity::Working,
            Activity::Meeting => Activity::Meeting,
            Activity::Lunch => Activity::Lunch,
            Activity::Vacation => Activity::Vacation,
            Activity::Traveling => Activity::Traveling,
            Activity::Custom(s) => Activity::Custom(s.clone()),
        }
    }
}

/// User presence information.
#[derive(Debug, Clone)]
pub struct UserPresence {
    pub username: String,
    pub state: PresenceState,
    pub status_message: Option<String>,
    pub activity: Activity,
    pub last_seen: i64,
    pub last_state_change: i64,
    pub device_info: Option<String>,
    pub priority: i32,
}

/// The presence after a state update at `now`: a different state is taken
/// and stamped as the last change; the user is seen either way.
pub open spec fn spec_update_state(p: UserPresence, state: PresenceState, now: i64) -> UserPresence {
    if p.state != state {
        UserPresence { state, last_state_change: now, last_seen: now, ..p }
    } else {
        UserPresence { last_seen: now, ..p }
    }
}

fn clone_opt(s: &Option<String>) -> (r: Option<String>)
    ensures
        r == *s,
{
    match s {
        Some(x) => Some(x.clone()),
        None => None,
    }
}

impl UserPresence {
    /// An offline user, seen at `now`.
    pub fn new_at(username: String, now: i64) -> (r: Self)
        ensures
            r == (UserPresence {
                username,
                state: PresenceState::Offline,
                status_message: None,
                activity: Activity::NoActivity,
                last_seen: now,
                last_state_change: now,
                device_info: None,
                priority: 0,
            }),
    {
        UserPresence {
            username,
            state: PresenceState::Offline,
            status_message: None,
            activity: Activity::NoActivity,
            last_seen: now,
            last_state_change: now,
            device_info: None,
            priority: 0,
        }
    }

    /// An offline user, seen now.
    pub fn new(username: String) -> (r: Self)
        ensures
            r.username == username,
            r.state == PresenceState::Offline,
            r.status_message is None,
            r.activity == Activity::NoActivity,
            r.device_info is None,
            r.priority == 0,
    {
        Self::new_at(username, now_millis())
    }

    pub fn set_online_at(&mut self, now: i64)
        ensures
            *final(self) == (UserPresence {
                state: PresenceState::Online,
                last_seen: now,
                last_state_change: now,
                ..*old(self)
            }),
    {
        self.state = PresenceState::Online;
        self.last_seen = now;
        self.last_state_change = now;
    }

    pub fn set_online(&mut self)
        ensures
            final(self).state == PresenceState::Online,
            final(self).username == old(self).username,
            exists|now: i64| #[trigger] clock_reading(now) && {
                &&& (*final(self) == (UserPresence {
                    state: PresenceState::Online,
                    last_seen: now,
                    last_state_change: now,
                    ..*old(self)
                }))
            },
    {
        let now = now_millis();
        proof {
            assert(clock_reading(now));
        }
        self.set_online_at(now);
    }

    pub fn set_offline_at(&mut self, now: i64)
        ensures
            *final(self) == (UserPresence { state: PresenceState::Offline, last_state_change: now, ..*old(self) }),
    {
        self.state = PresenceState::Offline;
        self.last_state_change = now;
    }

    pub fn set_offline(&mut self)
        ensures
            final(self).state == PresenceState::Offline,
            final(self).username == old(self).username,
            exists|now: i64| #[trigger] clock_reading(now) && {
                &&& (*final(self) == (UserPresence { state: PresenceState::Offline, last_state_change: now, ..*old(self) }))
            },
    {
        let now = now_millis();
        proof {
            assert(clock_reading(now));
        }
        self.set_offline_at(now);
    }

    pub fn update_state_at(&mut self, state: PresenceState, now: i64)
        ensures
            *final(self) == spec_update_state(*old(self), state, now),
    {
        if self.state != state {
            self.state = state;
            self.last_state_change = now;
        }
        self.last_seen = now;
    }

    pub fn update_state(&mut self, state: PresenceState)
        ensures
            final(self).state == state,
            final(self).username == old(self).username,
            exists|now: i64| #[trigger] clock_reading(now) && {
                &&& (*final(self) == spec_update_state(*old(self), state, now))
            },
    {
        let now = now_millis();
        proof {
            assert(clock_reading(now));
        }
        self.update_state_at(state, now);
    }

    pub fn set_status_message_at(&mut self, message: Option<String>, now: i64)
        ensures
            *final(self) == (UserPresence { status_message: message, last_seen: now, ..*old(self) }),
    {
        self.status_message = message;
        self.last_seen = now;
    }

    pub fn set_status_message(&mut self, message: Option<String>)
        ensures
            final(self).status_message == message,
            final(self).state == old(self).state,
            exists|now: i64| #[trigger] clock_reading(now) && {
                &&& (*final(self) == (UserPresence { status_message: message, last_seen: now, ..*old(self) }))
            },
    {
        let now = now_millis();
        proof {
            assert(clock_reading(now));
        }
        self.set_status_message_at(message, now);
    }

    pub fn set_activity_at(&mut self, activity: Activity, now: i64)
        ensures
            *final(self) == (UserPresence { activity, last_seen: now, ..*old(self) }),
    {
        self.activity = activity;
        self.last_seen = now;
    }

    pub fn set_activity(&mut self, activity: Activity)
        ensures
            final(self).activity == activity,
            final(self).state == old(self).state,
            exists|now: i64| #[trigger] clock_reading(now) && {
                &&& (*final(self) == (UserPresence { activity, last_seen: now, ..*old(self) }))
            },
    {
        let now = now_millis();
        proof {
            assert(clock_reading(now));
        }
        self.set_activity_at(activity, now);
    }

    /// Whether the user has been unseen for more than the threshold at `now`.
    pub fn is_stale_at(&self, inactive_threshold_seconds: i64, now: i64) -> (r: bool)
        ensures
            r == (seconds_between(now, self.last_seen) > inactive_threshold_seconds),
    {
        let d: i128 = now as i128 - self.last_seen as i128;
        let s: i128 = if d >= 0 { d / 1000 } else { -((-d) / 1000) };
        s > inactive_threshold_seconds as i128
    }

    /// Whether the user has been unseen for more than the threshold by now.
    pub fn is_stale(&self, inactive_threshold_seconds: i64) -> (r: bool) {
        self.is_stale_at(inactive_threshold_seconds, now_millis())
    }

    /// A copy of the presence.
    pub fn duplicate(&self) -> (r: Self)
        ensures
            r == *self,
    {
        UserPresence {
            username: self.username.clone(),
            state: self.state,
            status_message: clone_opt(&self.status_message),
            activity: self.activity.duplicate(),
            last_seen: self.last_seen,
            last_state_change: self.last_state_change,
            device_info: clone_opt(&self.device_info),
            priority: self.priority,
        }
    }
}

impl Keyed for UserPresence {
    type Key = str;

    open spec fn key(&self) -> Seq<char> {
        self.username@
    }

    open spec fn inv(&self) -> bool {
        true
    }

    fn key_ref(&self) -> (r: &str) {
        let r = self.username.as_str();
        assert(r.kv() == r@);
        r
    }
}

/// The time `expires_seconds` after `now`, or the end of the clock's range.
pub open spec fn expiry_time(now: i64, expires_seconds: u32) -> i64 {
    if now + expires_seconds * 1000 <= i64::MAX { (now + expires_seconds * 1000) as i64 } else { i64::MAX }
}

fn expiry_after(now: i64, expires_seconds: u32) -> (r: i64)
    ensures
        r == expiry_time(now, expires_seconds),
{
    match now.checked_add(expires_seconds as i64 * 1000) {
        Some(t) => t,
        None => i64::MAX,
    }
}

/// Presence subscription.
#[derive(Debug, Clone)]
pub struct PresenceSubscription {
    pub id: u128,
    pub subscriber: String,
    pub target: String,
    pub created_at: i64,
    pub expires_at: i64,
    pub dialog_id: String,
}

impl PresenceSubscription {
    /// A subscription made at `now`, lasting `expires_seconds`.
    pub fn new_at(id: u128, subscriber: String, target: String, expires_seconds: u32, now: i64, dialog_id: String) -> (r: Self)
        ensures
            r == (PresenceSubscription {
                id,
                subscriber,
                target,
                created_at: now,
                expires_at: expiry_time(now, expires_seconds),
                dialog_id,
            }),
    {
        PresenceSubscription {
            id,
            subscriber,
            target,
            created_at: now,
            expires_at: expiry_after(now, expires_seconds),
            dialog_id,
        }
    }

    /// A subscription made now, with fresh identifiers; its dialog is named
    /// by the text of a fresh identifier.
    pub fn new(subscriber: String, target: String, expires_seconds: u32) -> (r: Self)
        ensures
            is_v4_uuid(r.id),
            r.subscriber == subscriber,
            r.target == target,
            r.expires_at == expiry_time(r.created_at, expires_seconds),
            exists|d: u128| is_v4_uuid(d) && r.dialog_id@ == uuid_text(d),
    {
        let id = new_uuid();
        let d = new_uuid();
        let dialog = format_uuid(d);
        Self::new_at(id, subscriber, target, expires_seconds, now_millis(), dialog)
    }

    pub fn is_expired_at(&self, now: i64) -> (r: bool)
        ensures
            r == (now > self.expires_at),
    {
        now > self.expires_at
    }

    pub fn is_expired(&self) -> (r: bool) {
        self.is_expired_at(now_millis())
    }

    pub fn refresh_at(&mut self, expires_seconds: u32, now: i64)
        ensures
            *final(self) == (PresenceSubscription { expires_at: expiry_time(now, expires_seconds), ..*old(self) }),
    {
        self.expires_at = expiry_after(now, expires_seconds);
    }

    pub fn refresh(&mut self, expires_seconds: u32)
        ensures
            final(self).id == old(self).id,
            final(self).subscriber == old(self).subscriber,
            final(self).target == old(self).target,
            exists|now: i64| #[trigger] clock_reading(now) && {
                &&& (*final(self) == (PresenceSubscription { expires_at: expiry_time(now, expires_seconds), ..*old(self) }))
            },
    {
        let now = now_millis();
        proof {
            assert(clock_reading(now));
        }
        self.refresh_at(expires_seconds, now);
    }

    /// A copy of the subscription.
    pub fn duplicate(&self) -> (r: Self)
        ensures
            r == *self,
    {
        PresenceSubscription {
            id: self.id,
            subscriber: self.subscriber.clone(),
            target: self.target.clone(),
            created_at: self.created_at,
            expires_at: self.expires_at,
            dialog_id: self.dialog_id.clone(),
        }
    }
}

/// Presence event notification.
#[derive(Debug, Clone)]
pub struct PresenceEvent {
    pub event_id: u128,
    pub username: String,
    pub presence: UserPresence,
    pub timestamp: i64,
}

/// Presence statistics.
#[derive(Debug, Clone)]
pub struct PresenceStatistics {
    pub total_users: usize,
    pub online_count: usize,
    pub offline_count: usize,
    pub away_count: usize,
    pub busy_count: usize,
    pub dnd_count: usize,
    pub on_phone_count: usize,
    pub in_meeting_count: usize,
    pub total_subscriptions: usize,
}

impl Default for PresenceStatistics {
    fn default() -> (r: Self)
        ensures
            r.total_users == 0 && r.online_count == 0 && r.offline_count == 0 && r.away_count == 0
                && r.busy_count == 0 && r.dnd_count == 0 && r.on_phone_count == 0 && r.in_meeting_count
                == 0 && r.total_subscriptions == 0,
    {
        PresenceStatistics {
            total_users: 0,
            online_count: 0,
            offline_count: 0,
            away_count: 0,
            busy_count: 0,
            dnd_count: 0,
            on_phone_count: 0,
            in_meeting_count: 0,
            total_subscriptions: 0,
        }
    }
}

/// The texts of a list of strings.
pub open spec fn texts(v: Seq<String>) -> Seq<Seq<char>> {
    v.map_values(|s: String| s@)
}

/// The subscribers of one user, each once.
pub struct SubscriberSet {
    target: String,
    subscribers: Vec<String>,
}

impl SubscriberSet {
    pub closed spec fn spec_subscribers(&self) -> Seq<Seq<char>> {
        texts(self.subscribers@)
    }
}

impl Keyed for SubscriberSet {
    type Key = str;

    closed spec fn key(&self) -> Seq<char> {
        self.target@
    }

    closed spec fn inv(&self) -> bool {
        texts(self.subscribers@).no_duplicates()
    }

    fn key_ref(&self) -> (r: &str) {
        let r = self.target.as_str();
        assert(r.kv() == r@);
        r
    }
}

/// The users in state `s`.
pub open spec fn count_state(ps: Seq<UserPresence>, s: PresenceState) -> int
    decreases ps.len(),
{
    if ps.len() == 0 {
        0
    } else {
        count_state(ps.drop_last(), s) + if ps.last().state == s { 1int } else { 0int }
    }
}

proof fn lemma_count_state_bound(ps: Seq<UserPresence>, s: PresenceState)
    ensures
        0 <= count_state(ps, s) <= ps.len(),
    decreases ps.len(),
{
    if ps.len() > 0 {
        lemma_count_state_bound(ps.drop_last(), s);
    }
}

/// A subscription of `subscriber` to `target`.
pub open spec fn is_subscription_of(s: PresenceSubscription, subscriber: Seq<char>, target: Seq<char>) -> bool {
    s.subscriber@ == subscriber && s.target@ == target
}

/// What marking idle users away at `now` does: every online user unseen
/// for longer than the threshold becomes away, the others stay, and `r`
/// counts the users marked.
pub open spec fn away_sweep(before: PresenceManager, after: PresenceManager, now: i64, r: usize) -> bool {
    &&& after.spec_presence().items().len() == before.spec_presence().items().len()
    &&& forall|i: int| 0 <= i < before.spec_presence().items().len() ==> {
        let p = #[trigger] before.spec_presence().items()[i];
        after.spec_presence().items()[i] == if p.state == PresenceState::Online && seconds_between(now, p.last_seen)
            > before.spec_threshold() {
            spec_update_state(p, PresenceState::Away, now)
        } else {
            p
        }
    }
    &&& r == count_stale(before.spec_presence().items(), now, before.spec_threshold())
    &&& after.spec_subscriptions() == before.spec_subscriptions()
    &&& after.spec_subscriber_map() == before.spec_subscriber_map()
    &&& after.spec_threshold() == before.spec_threshold()
}

/// Presence manager: the presence of each user, the subscriptions in the
/// order they were made, the subscribers of each user, and the idle
/// threshold after which online users are marked away.
pub struct PresenceManager {
    presence_data: Store<UserPresence>,
    subscriptions: Vec<PresenceSubscription>,
    subscriber_map: Store<SubscriberSet>,
    inactive_threshold_seconds: i64,
}

impl PresenceManager {
    pub closed spec fn spec_presence(&self) -> Store<UserPresence> {
        self.presence_data
    }

    pub closed spec fn spec_subscriptions(&self) -> Seq<PresenceSubscription> {
        self.subscriptions@
    }

    pub closed spec fn spec_subscriber_map(&self) -> Store<SubscriberSet> {
        self.subscriber_map
    }

    pub closed spec fn spec_threshold(&self) -> i64 {
        self.inactive_threshold_seconds
    }

    /// The subscribers recorded for a user.
    pub open spec fn spec_subscribers_of(&self, target: Seq<char>) -> Seq<Seq<char>> {
        match self.spec_subscriber_map().get_spec(target) {
            Some(s) => s.spec_subscribers(),
            None => Seq::empty(),
        }
    }

    pub open spec fn wf(&self) -> bool {
        &&& self.spec_presence().wf()
        &&& self.spec_subscriber_map().wf()
    }

    /// A manager with no users and a five-minute idle threshold.
    pub fn new() -> (r: Self)
        ensures
            r.wf(),
            r.spec_presence().items().len() == 0,
            r.spec_subscriptions().len() == 0,
            r.spec_subscriber_map().items().len() == 0,
            r.spec_threshold() == 300,
    {
        PresenceManager {
            presence_data: Store::new(),
            subscriptions: Vec::new(),
            subscriber_map: Store::new(),
            inactive_threshold_seconds: 300,
        }
    }

    pub fn set_inactive_threshold(&mut self, seconds: i64)
        ensures
            final(self).spec_threshold() == seconds,
            final(self).spec_presence() == old(self).spec_presence(),
            final(self).spec_subscriptions() == old(self).spec_subscriptions(),
            final(self).spec_subscriber_map() == old(self).spec_subscriber_map(),
    {
        self.inactive_threshold_seconds = seconds;
    }

    /// Updates a user's presence at `now` (adding the user, offline, if
    /// unknown): the state, then the status message and activity when given.
    /// When the state changed, gives back the event to announce, with the
    /// given identifier and the presence after the update.
    pub fn update_presence_at(
        &mut self,
        username: &str,
        state: PresenceState,
        status_message: Option<String>,
        activity: Option<Activity>,
        now: i64,
        event_id: u128,
    ) -> (r: Option<PresenceEvent>)
        requires
            old(self).wf(),
        ensures
            final(self).wf(),
            final(self).spec_subscriptions() == old(self).spec_subscriptions(),
            final(self).spec_subscriber_map() == old(self).spec_subscriber_map(),
            final(self).spec_threshold() == old(self).spec_threshold(),
            forall|k: Seq<char>| k != username@ ==> final(self).spec_presence().get_spec(k) == old(self).spec_presence().get_spec(k),
            ({
                let before = match old(self).spec_presence().get_spec(username@) {
                    Some(p) => p,
                    None => UserPresence {
                        username: final(self).spec_presence().get_spec(username@).unwrap().username,
                        state: PresenceState::Offline,
                        status_message: None,
                        activity: Activity::NoActivity,
                        last_seen: now,
                        last_state_change: now,
                        device_info: None,
                        priority: 0,
                    },
                };
                let p1 = spec_update_state(before, state, now);
                let p2 = match status_message {
                    Some(m) => UserPresence { status_message: Some(m), last_seen: now, ..p1 },
                    None => p1,
                };
                let p3 = match activity {
                    Some(a) => UserPresence { activity: a, last_seen: now, ..p2 },
                    None => p2,
                };
                &&& final(self).spec_presence().get_spec(username@) == Some(p3)
                &&& p3.username@ == username@
                &&& (before.state != state <==> r is Some)
                &&& (r matches Some(ev) ==> ev.event_id == event_id && ev.username@ == username@ && ev.presence == p3
                    && ev.timestamp == now)
            }),
    {
        let mut p = match self.presence_data.remove(username) {
            Some(p) => p,
            None => UserPresence::new_at(username.to_owned(), now),
        };
        let old_state = p.state;
        p.update_state_at(state, now);
        if let Some(msg) = status_message {
            p.set_status_message_at(Some(msg), now);
        }
        if let Some(act) = activity {
            p.set_activity_at(act, now);
        }
        let event = if old_state != state {
            Some(PresenceEvent { event_id, username: username.to_owned(), presence: p.duplicate(), timestamp: now })
        } else {
            None
        };
        self.presence_data.push_new(p);
        event
    }

    /// Updates a user's presence now; gives back the event to announce when
    /// the state changed.
    pub fn update_presence(
        &mut self,
        username: &str,
        state: PresenceState,
        status_message: Option<String>,
        activity: Option<Activity>,
    ) -> (r: Option<PresenceEvent>)
        requires
            old(self).wf(),
        ensures
            final(self).wf(),
            final(self).spec_presence().get_spec(username@) matches Some(p) && p.state == state,
            r matches Some(ev) ==> is_v4_uuid(ev.event_id) && ev.username@ == username@ && ev.presence.state == state,
            forall|k: Seq<char>| k != username@ ==> final(self).spec_presence().get_spec(k) == old(self).spec_presence().get_spec(k),
            exists|now: i64, event_id: u128| #![trigger clock_reading(now), is_v4_uuid(event_id)] clock_reading(now) && is_v4_uuid(event_id) && {
                &&& (final(self).spec_subscriptions() == old(self).spec_subscriptions())
                &&& (final(self).spec_subscriber_map() == old(self).spec_subscriber_map())
                &&& (final(self).spec_threshold() == old(self).spec_threshold())
                &&& (forall|k: Seq<char>| k != username@ ==> final(self).spec_presence().get_spec(k) == old(self).spec_presence().get_spec(k))
                &&& (({
                    let before = match old(self).spec_presence().get_spec(username@) {
                        Some(p) => p,
                        None => UserPresence {
                            username: final(self).spec_presence().get_spec(username@).unwrap().username,
                            state: PresenceState::Offline,
                            status_message: None,
                            activity: Activity::NoActivity,
                            last_seen: now,
                            last_state_change: now,
                            device_info: None,
                            priority: 0,
                        },
                    };
                    let p1 = spec_update_state(before, state, now);
                    let p2 = match status_message {
                        Some(m) => UserPresence { status_message: Some(m), last_seen: now, ..p1 },
                        None => p1,
                    };
                    let p3 = match activity {
                        Some(a) => UserPresence { activity: a, last_seen: now, ..p2 },
                        None => p2,
                    };
                    &&& final(self).spec_presence().get_spec(username@) == Some(p3)
                    &&& p3.username@ == username@
                    &&& (before.state != state <==> r is Some)
                    &&& (r matches Some(ev) ==> ev.event_id == event_id && ev.username@ == username@ && ev.presence == p3
                        && ev.timestamp == now)
                }))
            },
    {
        let now = now_millis();
        let id = new_uuid();
        proof {
            assert(clock_reading(now));
        }
        self.update_presence_at(username, state, status_message, activity, now, id)
    }

    pub fn set_online(&mut self, username: &str) -> (r: Option<PresenceEvent>)
        requires
            old(self).wf(),
        ensures
            final(self).wf(),
            final(self).spec_presence().get_spec(username@) matches Some(p) && p.state == PresenceState::Online,
            forall|k: Seq<char>| k != username@ ==> final(self).spec_presence().get_spec(k) == old(self).spec_presence().get_spec(k),
    {
        self.update_presence(username, PresenceState::Online, None, None)
    }

    pub fn set_offline(&mut self, username: &str) -> (r: Option<PresenceEvent>)
        requires
            old(self).wf(),
        ensures
            final(self).wf(),
            final(self).spec_presence().get_spec(username@) matches Some(p) && p.state == PresenceState::Offline,
            forall|k: Seq<char>| k != username@ ==> final(self).spec_presence().get_spec(k) == old(self).spec_presence().get_spec(k),
    {
        self.update_presence(username, PresenceState::Offline, None, None)
    }

    pub fn set_away(&mut self, username: &str) -> (r: Option<PresenceEvent>)
        requires
            old(self).wf(),
        ensures
            final(self).wf(),
            final(self).spec_presence().get_spec(username@) matches Some(p) && p.state == PresenceState::Away,
            forall|k: Seq<char>| k != username@ ==> final(self).spec_presence().get_spec(k) == old(self).spec_presence().get_spec(k),
    {
        self.update_presence(username, PresenceState::Away, None, None)
    }

    pub fn set_busy(&mut self, username: &str) -> (r: Option<PresenceEvent>)
        requires
            old(self).wf(),
        ensures
            final(self).wf(),
            final(self).spec_presence().get_spec(username@) matches Some(p) && p.state == PresenceState::Busy,
            forall|k: Seq<char>| k != username@ ==> final(self).spec_presence().get_spec(k) == old(self).spec_presence().get_spec(k),
    {
        self.update_presence(username, PresenceState::Busy, None, None)
    }

    /// A copy of a user's presence.
    pub fn get_presence(&self, username: &str) -> (r: Option<UserPresence>)
        requires
            self.wf(),
        ensures
            r == self.spec_presence().get_spec(username@),
    {
        match self.presence_data.get(username) {
            Some(p) => Some(p.duplicate()),
            None => None,
        }
    }

    /// Every user's presence.
    pub fn get_all_presence(&self) -> (r: Vec<UserPresence>)
        ensures
            r@ == self.spec_presence().items(),
    {
        let mut out: Vec<UserPresence> = Vec::new();
        let mut i: usize = 0;
        while i < self.presence_data.len()
            invariant
                i <= self.spec_presence().items().len(),
                out@ == self.spec_presence().items().take(i as int),
            decreases self.spec_presence().items().len() - i,
        {
            out.push(self.presence_data.at(i).duplicate());
            assert(self.spec_presence().items().take(i as int).push(self.spec_presence().items()[i as int])
                =~= self.spec_presence().items().take(i + 1));
            i = i + 1;
        }
        assert(self.spec_presence().items().take(i as int) =~= self.spec_presence().items());
        out
    }

    /// The users online.
    pub fn get_online_users(&self) -> (r: Vec<UserPresence>)
        ensures
            r@ == self.spec_presence().items().filter(|p: UserPresence| p.state == PresenceState::Online),
    {
        let ghost all = self.presence_data.items();
        let ghost f = |p: UserPresence| p.state == PresenceState::Online;
        let mut out: Vec<UserPresence> = Vec::new();
        let mut i: usize = 0;
        while i < self.presence_data.len()
            invariant
                i <= all.len(),
                all == self.presence_data.items(),
                f == (|p: UserPresence| p.state == PresenceState::Online),
                out@ == all.take(i as int).filter(f),
            decreases all.len() - i,
        {
            proof {
                reveal(Seq::filter);
                assert(all.take(i + 1).drop_last() =~= all.take(i as int));
            }
            let p = self.presence_data.at(i);
            if p.state == PresenceState::Online {
                out.push(p.duplicate());
            }
            i = i + 1;
        }
        assert(all.take(i as int) =~= all);
        out
    }

    /// Adds `subscriber` to the subscribers of `target`, once.
    fn add_subscriber(&mut self, target: &str, subscriber: &str)
        requires
            old(self).wf(),
        ensures
            final(self).wf(),
            final(self).spec_presence() == old(self).spec_presence(),
            final(self).spec_subscriptions() == old(self).spec_subscriptions(),
            final(self).spec_threshold() == old(self).spec_threshold(),
            old(self).spec_subscribers_of(target@).contains(subscriber@) ==> final(self).spec_subscribers_of(target@)
                == old(self).spec_subscribers_of(target@),
            !old(self).spec_subscribers_of(target@).contains(subscriber@) ==> final(self).spec_subscribers_of(target@)
                == old(self).spec_subscribers_of(target@).push(subscriber@),
            final(self).spec_subscriber_map().contains(target@),
            forall|k: Seq<char>| k != target@ ==> final(self).spec_subscriber_map().get_spec(k) == old(self).spec_subscriber_map().get_spec(k),
    {
        let mut set = match self.subscriber_map.remove(target) {
            Some(s) => s,
            None => SubscriberSet { target: target.to_owned(), subscribers: Vec::new() },
        };
        let ghost before = texts(set.subscribers@);
        assert(before.no_duplicates());
        let mut i: usize = 0;
        let mut found = false;
        while i < set.subscribers.len()
            invariant
                i <= set.subscribers@.len(),
                before == texts(set.subscribers@),
                found == exists|j: int| 0 <= j < i && before[j] == subscriber@,
            decreases set.subscribers.len() - i,
        {
            if str_eq(set.subscribers[i].as_str(), subscriber) {
                found = true;
            }
            assert(before[i as int] == set.subscribers@[i as int]@);
            i = i + 1;
        }
        if !found {
            set.subscribers.push(subscriber.to_owned());
            assert(texts(set.subscribers@) =~= before.push(subscriber@));
        }
        self.subscriber_map.push_new(set);
    }

    /// Subscribes `subscriber` to `target` at `now` for `expires_seconds`.
    pub fn subscribe_at(&mut self, subscriber: &str, target: &str, expires_seconds: u32, now: i64, id: u128, dialog_id: String) -> (r: u128)
        requires
            old(self).wf(),
        ensures
            final(self).wf(),
            r == id,
            final(self).spec_subscriptions().len() == old(self).spec_subscriptions().len() + 1,
            final(self).spec_subscriptions().drop_last() == old(self).spec_subscriptions(),
            final(self).spec_subscriptions().last().id == id,
            is_subscription_of(final(self).spec_subscriptions().last(), subscriber@, target@),
            final(self).spec_subscriptions().last().expires_at == expiry_time(now, expires_seconds),
            final(self).spec_subscribers_of(target@).contains(subscriber@),
            old(self).spec_subscribers_of(target@).contains(subscriber@) ==> final(self).spec_subscribers_of(target@)
                == old(self).spec_subscribers_of(target@),
            !old(self).spec_subscribers_of(target@).contains(subscriber@) ==> final(self).spec_subscribers_of(target@)
                == old(self).spec_subscribers_of(target@).push(subscriber@),
            forall|k: Seq<char>| k != target@ ==> final(self).spec_subscribers_of(k) == old(self).spec_subscribers_of(k),
            final(self).spec_presence() == old(self).spec_presence(),
    {
        let s = PresenceSubscription::new_at(id, subscriber.to_owned(), target.to_owned(), expires_seconds, now, dialog_id);
        let ghost before = self.subscriptions@;
        self.subscriptions.push(s);
        assert(self.subscriptions@.drop_last() == before);
        self.add_subscriber(target, subscriber);
        proof {
            let s0 = old(self).spec_subscribers_of(target@);
            if !s0.contains(subscriber@) {
                assert(s0.push(subscriber@)[s0.len() as int] == subscriber@);
            }
        }
        id
    }

    /// Subscribes `subscriber` to `target` now for `expires_seconds`.
    pub fn subscribe(&mut self, subscriber: &str, target: &str, expires_seconds: u32) -> (r: u128)
        requires
            old(self).wf(),
        ensures
            final(self).wf(),
            is_v4_uuid(r),
            final(self).spec_subscriptions().len() == old(self).spec_subscriptions().len() + 1,
            final(self).spec_subscriptions().last().id == r,
            final(self).spec_subscribers_of(target@).contains(subscriber@),
    {
        let id = new_uuid();
        let d = new_uuid();
        let dialog = format_uuid(d);
        self.subscribe_at(subscriber, target, expires_seconds, now_millis(), id, dialog)
    }

    /// Drops the subscriptions of `subscriber` to `target`, and `subscriber`
    /// from the subscribers of `target` (forgetting `target` once it has none).
    pub fn unsubscribe(&mut self, subscriber: &str, target: &str)
        requires
            old(self).wf(),
        ensures
            final(self).wf(),
            final(self).spec_subscriptions() == old(self).spec_subscriptions().filter(
                |s: PresenceSubscription| !is_subscription_of(s, subscriber@, target@),
            ),
            final(self).spec_subscribers_of(target@) == old(self).spec_subscribers_of(target@).filter(
                |u: Seq<char>| u != subscriber@,
            ),
            final(self).spec_subscribers_of(target@).len() == 0 ==> !final(self).spec_subscriber_map().contains(target@),
            forall|k: Seq<char>| k != target@ ==> final(self).spec_subscriber_map().get_spec(k) == old(self).spec_subscriber_map().get_spec(k),
            final(self).spec_presence() == old(self).spec_presence(),
    {
        let ghost all = self.subscriptions@;
        let ghost keep = |s: PresenceSubscription| !is_subscription_of(s, subscriber@, target@);
        let mut kept: Vec<PresenceSubscription> = Vec::new();
        let mut i: usize = 0;
        while i < self.subscriptions.len()
            invariant
                i <= all.len(),
                all == self.subscriptions@,
                keep == (|s: PresenceSubscription| !is_subscription_of(s, subscriber@, target@)),
                kept@ == all.take(i as int).filter(keep),
            decreases all.len() - i,
        {
            proof {
                reveal(Seq::filter);
                assert(all.take(i + 1).drop_last() =~= all.take(i as int));
            }
            let s = &self.subscriptions[i];
            let matches = str_eq(s.subscriber.as_str(), subscriber) && str_eq(s.target.as_str(), target);
            if !matches {
                kept.push(s.duplicate());
            }
            i = i + 1;
        }
        assert(all.take(i as int) =~= all);
        self.subscriptions = kept;
        match self.subscriber_map.remove(target) {
            Some(mut set) => {
                let ghost before = texts(set.subscribers@);
                let ghost drop_it = |u: Seq<char>| u != subscriber@;
                let mut rest: Vec<String> = Vec::new();
                let mut j: usize = 0;
                while j < set.subscribers.len()
                    invariant
                        j <= set.subscribers@.len(),
                        before == texts(set.subscribers@),
                        before.no_duplicates(),
                        drop_it == (|u: Seq<char>| u != subscriber@),
                        texts(rest@) == before.take(j as int).filter(drop_it),
                        texts(rest@).no_duplicates(),
                        forall|x: int| 0 <= x < rest@.len() ==> exists|y: int| 0 <= y < j && before[y] == #[trigger] texts(rest@)[x],
                    decreases set.subscribers.len() - j,
                {
                    proof {
                        reveal(Seq::filter);
                        assert(before.take(j + 1).drop_last() =~= before.take(j as int));
                    }
                    if !str_eq(set.subscribers[j].as_str(), subscriber) {
                        let ghost r0 = texts(rest@);
                        rest.push(set.subscribers[j].clone());
                        proof {
                            assert(texts(rest@) =~= r0.push(before[j as int]));
                            assert forall|x: int, y: int| 0 <= x < y < texts(rest@).len() implies texts(rest@)[x] != texts(rest@)[y] by {
                                if y == texts(rest@).len() - 1 {
                                    let w = choose|w: int| 0 <= w < j && before[w] == texts(rest@)[x];
                                    assert(before[w] != before[j as int]);
                                }
                            }
                            assert forall|x: int| 0 <= x < rest@.len() implies exists|y: int| 0 <= y < j + 1 && before[y] == #[trigger] texts(rest@)[x] by {
                                if x == rest@.len() - 1 {
                                    assert(before[j as int] == texts(rest@)[x]);
                                } else {
                                    let w = choose|w: int| 0 <= w < j && before[w] == r0[x];
                                    assert(before[w] == texts(rest@)[x]);
                                }
                            }
                        }
                    }
                    j = j + 1;
                }
                assert(before.take(j as int) =~= before);
                if rest.len() > 0 {
                    set.subscribers = rest;
                    self.subscriber_map.push_new(set);
                }
            },
            None => {
                proof {
                    reveal(Seq::filter);
                }
            },
        }
    }

    /// The subscriptions `subscriber` holds, in the order they were made.
    pub fn get_subscriptions(&self, subscriber: &str) -> (r: Vec<PresenceSubscription>)
        ensures
            r@ == self.spec_subscriptions().filter(|s: PresenceSubscription| s.subscriber@ == subscriber@),
    {
        let ghost all = self.subscriptions@;
        let ghost f = |s: PresenceSubscription| s.subscriber@ == subscriber@;
        let mut out: Vec<PresenceSubscription> = Vec::new();
        let mut i: usize = 0;
        while i < self.subscriptions.len()
            invariant
                i <= all.len(),
                all == self.subscriptions@,
                f == (|s: PresenceSubscription| s.subscriber@ == subscriber@),
                out@ == all.take(i as int).filter(f),
            decreases all.len() - i,
        {
            proof {
                reveal(Seq::filter);
                assert(all.take(i + 1).drop_last() =~= all.take(i as int));
            }
            if str_eq(self.subscriptions[i].subscriber.as_str(), subscriber) {
                out.push(self.subscriptions[i].duplicate());
            }
            i = i + 1;
        }
        assert(all.take(i as int) =~= all);
        out
    }

    /// The subscribers of a user, each once.
    pub fn get_subscribers(&self, target: &str) -> (r: Vec<String>)
        requires
            self.wf(),
        ensures
            texts(r@) == self.spec_subscribers_of(target@),
            texts(r@).no_duplicates(),
    {
        match self.subscriber_map.get(target) {
            Some(set) => {
                let mut out: Vec<String> = Vec::new();
                let mut i: usize = 0;
                while i < set.subscribers.len()
                    invariant
                        i <= set.subscribers@.len(),
                        out@.len() == i,
                        forall|k: int| 0 <= k < i ==> (#[trigger] out@[k])@ == set.subscribers@[k]@,
                    decreases set.subscribers.len() - i,
                {
                    out.push(set.subscribers[i].clone());
                    i = i + 1;
                }
                assert(texts(out@) =~= texts(set.subscribers@));
                out
            },
            None => Vec::new(),
        }
    }

    /// Drops the subscriptions expired at `now`, keeping the others in order,
    /// and makes sure each remaining subscriber is recorded for its target;
    /// gives back how many were dropped.
    pub fn cleanup_expired_subscriptions_at(&mut self, now: i64) -> (r: usize)
        requires
            old(self).wf(),
        ensures
            final(self).wf(),
            final(self).spec_subscriptions() == old(self).spec_subscriptions().filter(
                |s: PresenceSubscription| !(now > s.expires_at),
            ),
            r == old(self).spec_subscriptions().len() - final(self).spec_subscriptions().len(),
            r > 0 ==> forall|i: int| 0 <= i < final(self).spec_subscriptions().len() ==> final(self).spec_subscribers_of(
                (#[trigger] final(self).spec_subscriptions()[i]).target@,
            ).contains(final(self).spec_subscriptions()[i].subscriber@),
            r == 0 ==> final(self).spec_subscriber_map() == old(self).spec_subscriber_map(),
            final(self).spec_presence() == old(self).spec_presence(),
    {
        let ghost all = self.subscriptions@;
        let ghost keep = |s: PresenceSubscription| !(now > s.expires_at);
        let mut kept: Vec<PresenceSubscription> = Vec::new();
        let mut i: usize = 0;
        while i < self.subscriptions.len()
            invariant
                i <= all.len(),
                all == self.subscriptions@,
                keep == (|s: PresenceSubscription| !(now > s.expires_at)),
                kept@ == all.take(i as int).filter(keep),
            decreases all.len() - i,
        {
            proof {
                reveal(Seq::filter);
                assert(all.take(i + 1).drop_last() =~= all.take(i as int));
            }
            if !self.subscriptions[i].is_expired_at(now) {
                kept.push(self.subscriptions[i].duplicate());
            }
            i = i + 1;
        }
        assert(all.take(i as int) =~= all);
        proof {
            all.lemma_filter_len(keep);
        }
        let initial = self.subscriptions.len();
        self.subscriptions = kept;
        let removed = initial - self.subscriptions.len();
        if removed > 0 {
            let mut j: usize = 0;
            while j < self.subscriptions.len()
                invariant
                    j <= self.subscriptions@.len(),
                    self.wf(),
                    self.subscriptions@ == all.filter(keep),
                    self.presence_data == old(self).presence_data,
                    forall|x: int| 0 <= x < j ==> self.spec_subscribers_of((#[trigger] self.subscriptions@[x]).target@).contains(
                        self.subscriptions@[x].subscriber@,
                    ),
                decreases self.subscriptions.len() - j,
            {
                let t = self.subscriptions[j].target.clone();
                let u = self.subscriptions[j].subscriber.clone();
                let ghost before = *self;
                self.add_subscriber(t.as_str(), u.as_str());
                proof {
                    assert forall|x: int| 0 <= x < j + 1 implies self.spec_subscribers_of((#[trigger] self.subscriptions@[x]).target@).contains(
                        self.subscriptions@[x].subscriber@,
                    ) by {
                        let tx = self.subscriptions@[x].target@;
                        let ux = self.subscriptions@[x].subscriber@;
                        if tx == t@ {
                            if x < j {
                                assert(before.spec_subscribers_of(tx).contains(ux));
                                if !before.spec_subscribers_of(tx).contains(u@) {
                                    let k = choose|k: int| 0 <= k < before.spec_subscribers_of(tx).len() && before.spec_subscribers_of(tx)[k] == ux;
                                    assert(self.spec_subscribers_of(tx)[k] == ux);
                                }
                            } else {
                                if !before.spec_subscribers_of(tx).contains(u@) {
                                    assert(self.spec_subscribers_of(tx).last() == ux);
                                }
                            }
                        } else {
                            assert(before.spec_subscribers_of(tx).contains(ux));
                        }
                    }
                }
                j = j + 1;
            }
        }
        removed
    }

    /// Drops the subscriptions expired by now.
    pub fn cleanup_expired_subscriptions(&mut self) -> (r: usize)
        requires
            old(self).wf(),
        ensures
            final(self).wf(),
            r == old(self).spec_subscriptions().len() - final(self).spec_subscriptions().len(),
            exists|now: i64| #[trigger] clock_reading(now) && {
                &&& (final(self).spec_subscriptions() == old(self).spec_subscriptions().filter(
                    |s: PresenceSubscription| !(now > s.expires_at),
                ))
                &&& (r == old(self).spec_subscriptions().len() - final(self).spec_subscriptions().len())
                &&& (r > 0 ==> forall|i: int| 0 <= i < final(self).spec_subscriptions().len() ==> final(self).spec_subscribers_of(
                    (#[trigger] final(self).spec_subscriptions()[i]).target@,
                ).contains(final(self).spec_subscriptions()[i].subscriber@))
                &&& (r == 0 ==> final(self).spec_subscriber_map() == old(self).spec_subscriber_map())
                &&& (final(self).spec_presence() == old(self).spec_presence())
            },
    {
        let now = now_millis();
        proof {
            assert(clock_reading(now));
        }
        self.cleanup_expired_subscriptions_at(now)
    }

    /// Marks away, at `now`, every online user unseen for longer than the
    /// threshold; gives back how many were marked.
    pub fn mark_inactive_users_away_at(&mut self, now: i64) -> (r: usize)
        requires
            old(self).wf(),
        ensures
            final(self).wf(),
            final(self).spec_presence().items().len() == old(self).spec_presence().items().len(),
            forall|i: int| 0 <= i < old(self).spec_presence().items().len() ==> {
                let p = #[trigger] old(self).spec_presence().items()[i];
                final(self).spec_presence().items()[i] == if p.state == PresenceState::Online && seconds_between(now, p.last_seen)
                    > old(self).spec_threshold() {
                    spec_update_state(p, PresenceState::Away, now)
                } else {
                    p
                }
            },
            r == count_stale(old(self).spec_presence().items(), now, old(self).spec_threshold()),
            final(self).spec_subscriptions() == old(self).spec_subscriptions(),
            final(self).spec_subscriber_map() == old(self).spec_subscriber_map(),
            final(self).spec_threshold() == old(self).spec_threshold(),
    {
        let ghost all = self.presence_data.items();
        let threshold = self.inactive_threshold_seconds;
        let mut marked: usize = 0;
        let mut i: usize = 0;
        let n = self.presence_data.len();
        while i < n
            invariant
                n == all.len(),
                i <= n,
                self.presence_data.wf(),
                self.presence_data.items().len() == n,
                threshold == old(self).inactive_threshold_seconds,
                all == old(self).presence_data.items(),
                forall|k: int| i <= k < n ==> self.presence_data.items()[k] == all[k],
                forall|k: int| 0 <= k < i ==> {
                    let p = #[trigger] all[k];
                    self.presence_data.items()[k] == if p.state == PresenceState::Online && seconds_between(now, p.last_seen)
                        > threshold {
                        spec_update_state(p, PresenceState::Away, now)
                    } else {
                        p
                    }
                },
                marked == count_stale(all.take(i as int), now, threshold),
                marked <= i,
                self.subscriptions == old(self).subscriptions,
                self.subscriber_map == old(self).subscriber_map,
                self.inactive_threshold_seconds == old(self).inactive_threshold_seconds,
            decreases n - i,
        {
            proof {
                assert(all.take(i + 1).drop_last() =~= all.take(i as int));
            }
            let stale = {
                let p = self.presence_data.at(i);
                p.state == PresenceState::Online && p.is_stale_at(threshold, now)
            };
            if stale {
                let mut p = self.presence_data.take_at(i);
                p.update_state_at(PresenceState::Away, now);
                self.presence_data.put_at(i, p);
                marked = marked + 1;
            }
            i = i + 1;
        }
        assert(all.take(i as int) =~= all);
        marked
    }

    /// Marks away every online user unseen for longer than the threshold by now.
    pub fn mark_inactive_users_away(&mut self) -> (r: usize)
        requires
            old(self).wf(),
        ensures
            final(self).wf(),
            final(self).spec_presence().items().len() == old(self).spec_presence().items().len(),
            exists|now: i64| #[trigger] away_sweep(*old(self), *final(self), now, r),
    {
        let now = now_millis();
        let r = self.mark_inactive_users_away_at(now);
        assert(away_sweep(*old(self), *self, now, r));
        r
    }

    /// Counts of users by state, and of subscriptions.
    pub fn get_statistics(&self) -> (r: PresenceStatistics)
        ensures
            r.total_users == self.spec_presence().items().len(),
            r.total_subscriptions == self.spec_subscriptions().len(),
            r.online_count == count_state(self.spec_presence().items(), PresenceState::Online),
            r.offline_count == count_state(self.spec_presence().items(), PresenceState::Offline),
            r.away_count == count_state(self.spec_presence().items(), PresenceState::Away),
            r.busy_count == count_state(self.spec_presence().items(), PresenceState::Busy),
            r.dnd_count == count_state(self.spec_presence().items(), PresenceState::DoNotDisturb),
            r.on_phone_count == count_state(self.spec_presence().items(), PresenceState::OnThePhone),
            r.in_meeting_count == count_state(self.spec_presence().items(), PresenceState::InMeeting),
    {
        let ghost s = self.presence_data.items();
        let mut stats = PresenceStatistics::default();
        stats.total_users = self.presence_data.len();
        stats.total_subscriptions = self.subscriptions.len();
        let mut i: usize = 0;
        while i < self.presence_data.len()
            invariant
                i <= s.len(),
                s == self.presence_data.items(),
                stats.total_users == s.len(),
                stats.total_subscriptions == self.subscriptions@.len(),
                stats.online_count == count_state(s.take(i as int), PresenceState::Online),
                stats.offline_count == count_state(s.take(i as int), PresenceState::Offline),
                stats.away_count == count_state(s.take(i as int), PresenceState::Away),
                stats.busy_count == count_state(s.take(i as int), PresenceState::Busy),
                stats.dnd_count == count_state(s.take(i as int), PresenceState::DoNotDisturb),
                stats.on_phone_count == count_state(s.take(i as int), PresenceState::OnThePhone),
                stats.in_meeting_count == count_state(s.take(i as int), PresenceState::InMeeting),
            decreases s.len() - i,
        {
            proof {
                assert(s.take(i + 1).drop_last() =~= s.take(i as int));
                lemma_count_state_bound(s.take(i as int), PresenceState::Online);
                lemma_count_state_bound(s.take(i as int), PresenceState::Offline);
                lemma_count_state_bound(s.take(i as int), PresenceState::Away);
                lemma_count_state_bound(s.take(i as int), PresenceState::Busy);
                lemma_count_state_bound(s.take(i as int), PresenceState::DoNotDisturb);
                lemma_count_state_bound(s.take(i as int), PresenceState::OnThePhone);
                lemma_count_state_bound(s.take(i as int), PresenceState::InMeeting);
            }
            match self.presence_data.at(i).state {
                PresenceState::Online => stats.online_count = stats.online_count + 1,
                PresenceState::Offline => stats.offline_count = stats.offline_count + 1,
                PresenceState::Away => stats.away_count = stats.away_count + 1,
                PresenceState::Busy => stats.busy_count = stats.busy_count + 1,
                PresenceState::DoNotDisturb => stats.dnd_count = stats.dnd_count + 1,
                PresenceState::OnThePhone => stats.on_phone_count = stats.on_phone_count + 1,
                PresenceState::InMeeting => stats.in_meeting_count = stats.in_meeting_count + 1,
            }
            i = i + 1;
        }
        assert(s.take(i as int) =~= s);
        stats
    }
}

/// The online users unseen for longer than the threshold.
pub open spec fn count_stale(ps: Seq<UserPresence>, now: i64, threshold: i64) -> int
    decreases ps.len(),
{
    if ps.len() == 0 {
        0
    } else {
        count_stale(ps.drop_last(), now, threshold) + if ps.last().state == PresenceState::Online && seconds_between(
            now,
            ps.last().last_seen,
        ) > threshold {
            1int
        } else {
            0int
        }
    }
}

impl Default for PresenceManager {
    fn default() -> (r: Self)
        ensures
            r.wf(),
            r.spec_presence().items().len() == 0,
            r.spec_subscriptions().len() == 0,
            r.spec_threshold() == 300,
    {
        Self::new()
    }
}

} // verus!
