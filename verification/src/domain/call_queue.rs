//! Call queues and automatic call distribution: agents, waiting calls, queue
//! configuration, and the runtime state that orders waiting calls and picks
//! the next agent by the queue's strategy. Times are milliseconds since the
//! Unix epoch.
use vstd::prelude::*;
use crate::domain::shared::system::{clock_reading, is_v4_uuid, new_uuid, now_millis, random_index};
use crate::store::{KeyOf, Keyed, Store};

verus! {

/// Queue strategy for distributing calls.
#[derive(Debug, Clone, Copy, PartialEq, Eq, Structural)]
pub enum QueueStrategy {
    /// Ring all available agents simultaneously
    RingAll,
    /// Ring agents in order, one at a time
    Linear,
    /// Ring agent with least recent call
    LeastRecent,
    /// Ring agent with fewest total calls
    FewestCalls,
    /// Ring agent with lowest talk time
    LeastTalkTime,
    /// Random agent selection
    Random,
    /// Round-robin distribution
    RoundRobin,
}

/// Agent status in queue.
#[derive(Debug, Clone, Copy, PartialEq, Eq, Structural)]
pub enum AgentStatus {
    /// Agent is available to take calls
    Available,
    /// Agent is on a call
    Busy,
    /// Agent is in after-call work
    AfterCallWork,
    /// Agent paused themselves
    Paused,
    /// Agent logged out
    LoggedOut,
}

/// Action to take when queue overflows.
#[derive(Debug, Clone, Copy, PartialEq, Eq, Structural)]
pub enum OverflowAction {
    /// Reject new calls with busy signal
    Busy,
    /// Send to voicemail
    Voicemail,
    /// Forward to another queue
    ForwardToQueue,
    /// Forward to specific extension
    ForwardToExtension,
    /// Play message and hangup
    Announcement,
}

/// Queue member (agent); the talk time is in milliseconds.
#[derive(Debug, Clone)]
pub struct QueueMember {
    pub id: u128,
    pub user_id: i32,
    pub username: String,
    pub extension: String,
    pub status: AgentStatus,
    pub penalty: u32,
    pub paused: bool,
    pub paused_reason: Option<String>,
    pub last_call_time: Option<i64>,
    pub total_calls: u64,
    pub answered_calls: u64,
    pub missed_calls: u64,
    pub total_talk_time_ms: u64,
    pub joined_at: i64,
}

/// An agent takes calls when available and not paused.
pub open spec fn member_available(m: QueueMember) -> bool {
    m.status == AgentStatus::Available && !m.paused
}

/// The counters of an agent can take one more answered call of `talk_ms`.
pub open spec fn can_record_answer(m: QueueMember, talk_ms: u64) -> bool {
    m.total_calls < u64::MAX && m.answered_calls < u64::MAX && m.total_talk_time_ms + talk_ms <= u64::MAX
}

fn clone_opt(s: &Option<String>) -> (r: Option<String>)
    ensures
        r == *s,
{
    match s {
        Some(x) => Some(x.clone()),
        None => None,
    }
}

impl QueueMember {
    /// An available agent who joined at `now`, with the given identifier.
    pub fn new_at(id: u128, user_id: i32, username: String, extension: String, now: i64) -> (r: Self)
        ensures
            r == (QueueMember {
                id,
                user_id,
                username,
                extension,
                status: AgentStatus::Available,
                penalty: 0,
                paused: false,
                paused_reason: None,
                last_call_time: None,
                total_calls: 0,
                answered_calls: 0,
                missed_calls: 0,
                total_talk_time_ms: 0,
                joined_at: now,
            }),
    {
        QueueMember {
            id,
            user_id,
            username,
            extension,
            status: AgentStatus::Available,
            penalty: 0,
            paused: false,
            paused_reason: None,
            last_call_time: None,
            total_calls: 0,
            answered_calls: 0,
            missed_calls: 0,
            total_talk_time_ms: 0,
            joined_at: now,
        }
    }

    /// An available agent who joined now, with a fresh identifier.
    pub fn new(user_id: i32, username: String, extension: String) -> (r: Self)
        ensures
            is_v4_uuid(r.id),
            r.user_id == user_id,
            r.username == username,
            r.extension == extension,
            r.status == AgentStatus::Available,
            !r.paused,
            r.total_calls == 0,
            r.total_talk_time_ms == 0,
            r.last_call_time is None,
    {
        let id = new_uuid();
        Self::new_at(id, user_id, username, extension, now_millis())
    }

    pub fn is_available(&self) -> (r: bool)
        ensures
            r == member_available(*self),
    {
        self.status == AgentStatus::Available && !self.paused
    }

    pub fn mark_busy(&mut self)
        ensures
            *final(self) == (QueueMember { status: AgentStatus::Busy, ..*old(self) }),
    {
        self.status = AgentStatus::Busy;
    }

    pub fn mark_available(&mut self)
        ensures
            *final(self) == (QueueMember { status: AgentStatus::Available, ..*old(self) }),
    {
        self.status = AgentStatus::Available;
    }

    pub fn pause(&mut self, reason: Option<String>)
        ensures
            *final(self) == (QueueMember { paused: true, paused_reason: reason, ..*old(self) }),
    {
        self.paused = true;
        self.paused_reason = reason;
    }

    pub fn unpause(&mut self)
        ensures
            *final(self) == (QueueMember { paused: false, paused_reason: None, ..*old(self) }),
    {
        self.paused = false;
        self.paused_reason = None;
    }

    /// Counts an answered call of `talk_time_ms`, ended at `now`.
    pub fn record_answered_at(&mut self, talk_time_ms: u64, now: i64)
        requires
            can_record_answer(*old(self), talk_time_ms),
        ensures
            *final(self) == (QueueMember {
                total_calls: (old(self).total_calls + 1) as u64,
                answered_calls: (old(self).answered_calls + 1) as u64,
                total_talk_time_ms: (old(self).total_talk_time_ms + talk_time_ms) as u64,
                last_call_time: Some(now),
                ..*old(self)
            }),
    {
        self.total_calls = self.total_calls + 1;
        self.answered_calls = self.answered_calls + 1;
        self.total_talk_time_ms = self.total_talk_time_ms + talk_time_ms;
        self.last_call_time = Some(now);
    }

    /// Counts an answered call of `talk_time_ms`, ended now.
    pub fn record_answered(&mut self, talk_time_ms: u64)
        requires
            can_record_answer(*old(self), talk_time_ms),
        ensures
            final(self).total_calls == old(self).total_calls + 1,
            final(self).answered_calls == old(self).answered_calls + 1,
            final(self).total_talk_time_ms == old(self).total_talk_time_ms + talk_time_ms,
            final(self).last_call_time is Some,
            exists|now: i64| #[trigger] clock_reading(now) && {
                &&& (*final(self) == (QueueMember {
                    total_calls: (old(self).total_calls + 1) as u64,
                    answered_calls: (old(self).answered_calls + 1) as u64,
                    total_talk_time_ms: (old(self).total_talk_time_ms + talk_time_ms) as u64,
                    last_call_time: Some(now),
                    ..*old(self)
                }))
            },
    {
        let now = now_millis();
        proof {
            assert(clock_reading(now));
        }
        self.record_answered_at(talk_time_ms, now);
    }

    /// Counts a missed call.
    pub fn record_missed(&mut self)
        requires
            old(self).total_calls < u64::MAX,
            old(self).missed_calls < u64::MAX,
        ensures
            *final(self) == (QueueMember {
                total_calls: (old(self).total_calls + 1) as u64,
                missed_calls: (old(self).missed_calls + 1) as u64,
                ..*old(self)
            }),
    {
        self.total_calls = self.total_calls + 1;
        self.missed_calls = self.missed_calls + 1;
    }

    pub fn duplicate(&self) -> (r: Self)
        ensures
            r == *self,
    {
        QueueMember {
            id: self.id,
            user_id: self.user_id,
            username: self.username.clone(),
            extension: self.extension.clone(),
            status: self.status,
            penalty: self.penalty,
            paused: self.paused,
            paused_reason: clone_opt(&self.paused_reason),
            last_call_time: self.last_call_time,
            total_calls: self.total_calls,
            answered_calls: self.answered_calls,
            missed_calls: self.missed_calls,
            total_talk_time_ms: self.total_talk_time_ms,
            joined_at: self.joined_at,
        }
    }
}

impl Keyed for QueueMember {
    type Key = u128;

    open spec fn key(&self) -> u128 {
        self.id
    }

    open spec fn inv(&self) -> bool {
        true
    }

    fn key_ref(&self) -> (r: &u128) {
        let r = &self.id;
        assert(r.kv() == *r);
        r
    }
}

/// Queued call waiting for an agent; the wait is in milliseconds.
#[derive(Debug, Clone, PartialEq, Eq)]
pub struct QueuedCall {
    pub id: u128,
    pub call_id: String,
    pub caller: String,
    pub caller_name: Option<String>,
    pub queue_id: u128,
    pub enqueued_at: i64,
    pub position: usize,
    pub wait_time_ms: u64,
    pub priority: u32,
}

/// The wait from `enqueued_at` to `now`, not below zero.
pub open spec fn spec_wait(enqueued_at: i64, now: i64) -> u64 {
    if now >= enqueued_at { (now - enqueued_at) as u64 } else { 0 }
}

impl QueuedCall {
    /// A call entering the queue at `now`, with the given identifier.
    pub fn new_at(id: u128, call_id: String, caller: String, queue_id: u128, now: i64) -> (r: Self)
        ensures
            r == (QueuedCall {
                id,
                call_id,
                caller,
                caller_name: None,
                queue_id,
                enqueued_at: now,
                position: 0,
                wait_time_ms: 0,
                priority: 0,
            }),
    {
        QueuedCall {
            id,
            call_id,
            caller,
            caller_name: None,
            queue_id,
            enqueued_at: now,
            position: 0,
            wait_time_ms: 0,
            priority: 0,
        }
    }

    /// A call entering the queue now, with a fresh identifier.
    pub fn new(call_id: String, caller: String, queue_id: u128) -> (r: Self)
        ensures
            is_v4_uuid(r.id),
            r.call_id == call_id,
            r.caller == caller,
            r.caller_name is None,
            r.queue_id == queue_id,
            r.position == 0,
            r.wait_time_ms == 0,
            r.priority == 0,
    {
        let id = new_uuid();
        Self::new_at(id, call_id, caller, queue_id, now_millis())
    }

    /// Sets the wait to the time since the call entered, at `now`.
    pub fn update_wait_time_at(&mut self, now: i64)
        ensures
            *final(self) == (QueuedCall { wait_time_ms: spec_wait(old(self).enqueued_at, now), ..*old(self) }),
    {
        if now >= self.enqueued_at {
            let d: i128 = now as i128 - self.enqueued_at as i128;
            self.wait_time_ms = d as u64;
        } else {
            self.wait_time_ms = 0;
        }
    }

    /// Sets the wait to the time since the call entered.
    pub fn update_wait_time(&mut self)
        ensures
            final(self).call_id == old(self).call_id,
            final(self).position == old(self).position,
            exists|now: i64| #[trigger] clock_reading(now) && {
                &&& (*final(self) == (QueuedCall { wait_time_ms: spec_wait(old(self).enqueued_at, now), ..*old(self) }))
            },
    {
        let now = now_millis();
        proof {
            assert(clock_reading(now));
        }
        self.update_wait_time_at(now);
    }

    pub fn duplicate(&self) -> (r: Self)
        ensures
            r == *self,
    {
        QueuedCall {
            id: self.id,
            call_id: self.call_id.clone(),
            caller: self.caller.clone(),
            caller_name: clone_opt(&self.caller_name),
            queue_id: self.queue_id,
            enqueued_at: self.enqueued_at,
            position: self.position,
            wait_time_ms: self.wait_time_ms,
            priority: self.priority,
        }
    }
}

/// Call queue configuration; durations are in seconds.
#[derive(Debug, Clone)]
pub struct CallQueue {
    pub id: u128,
    pub name: String,
    pub extension: String,
    pub strategy: QueueStrategy,
    pub max_wait_time_secs: u64,
    pub max_queue_size: usize,
    pub ring_timeout_secs: u64,
    pub retry_delay_secs: u64,
    pub max_retries: u32,
    pub wrap_up_time_secs: u64,
    pub announce_position: bool,
    pub announce_wait_time: bool,
    pub music_on_hold: Option<String>,
    pub periodic_announce: Option<String>,
    pub periodic_announce_frequency_secs: u64,
    pub overflow_queue_id: Option<u128>,
    pub overflow_action: OverflowAction,
    pub created_at: i64,
    pub updated_at: i64,
}

impl CallQueue {
    /// A queue with the standard settings, created at `now`.
    pub fn new_at(id: u128, name: String, extension: String, strategy: QueueStrategy, now: i64) -> (r: Self)
        ensures
            r.id == id,
            r.name == name,
            r.extension == extension,
            r.strategy == strategy,
            r.max_wait_time_secs == 300,
            r.max_queue_size == 100,
            r.ring_timeout_secs == 30,
            r.retry_delay_secs == 5,
            r.max_retries == 3,
            r.wrap_up_time_secs == 30,
            r.announce_position,
            r.announce_wait_time,
            r.music_on_hold matches Some(m) && m@ == "default_moh.wav"@,
            r.periodic_announce is None,
            r.periodic_announce_frequency_secs == 60,
            r.overflow_queue_id is None,
            r.overflow_action == OverflowAction::Busy,
            r.created_at == now,
            r.updated_at == now,
    {
        CallQueue {
            id,
            name,
            extension,
            strategy,
            max_wait_time_secs: 300,
            max_queue_size: 100,
            ring_timeout_secs: 30,
            retry_delay_secs: 5,
            max_retries: 3,
            wrap_up_time_secs: 30,
            announce_position: true,
            announce_wait_time: true,
            music_on_hold: Some(String::from_str("default_moh.wav")),
            periodic_announce: None,
            periodic_announce_frequency_secs: 60,
            overflow_queue_id: None,
            overflow_action: OverflowAction::Busy,
            created_at: now,
            updated_at: now,
        }
    }

    /// A queue with the standard settings, created now with a fresh identifier.
    pub fn new(name: String, extension: String, strategy: QueueStrategy) -> (r: Self)
        ensures
            is_v4_uuid(r.id),
            r.name == name,
            r.extension == extension,
            r.strategy == strategy,
            r.max_queue_size == 100,
            r.overflow_action == OverflowAction::Busy,
    {
        let id = new_uuid();
        Self::new_at(id, name, extension, strategy, now_millis())
    }

    pub fn duplicate(&self) -> (r: Self)
        ensures
            r == *self,
    {
        CallQueue {
            id: self.id,
            name: self.name.clone(),
            extension: self.extension.clone(),
            strategy: self.strategy,
            max_wait_time_secs: self.max_wait_time_secs,
            max_queue_size: self.max_queue_size,
            ring_timeout_secs: self.ring_timeout_secs,
            retry_delay_secs: self.retry_delay_secs,
            max_retries: self.max_retries,
            wrap_up_time_secs: self.wrap_up_time_secs,
            announce_position: self.announce_position,
            announce_wait_time: self.announce_wait_time,
            music_on_hold: clone_opt(&self.music_on_hold),
            periodic_announce: clone_opt(&self.periodic_announce),
            periodic_announce_frequency_secs: self.periodic_announce_frequency_secs,
            overflow_queue_id: self.overflow_queue_id,
            overflow_action: self.overflow_action,
            created_at: self.created_at,
            updated_at: self.updated_at,
        }
    }
}

/// The agent a call is connected to.
#[derive(Debug)]
pub struct CallAssignment {
    pub call_id: String,
    pub member_id: u128,
}

impl Keyed for CallAssignment {
    type Key = str;

    open spec fn key(&self) -> Seq<char> {
        self.call_id@
    }

    open spec fn inv(&self) -> bool {
        true
    }

    fn key_ref(&self) -> (r: &str) {
        let r = self.call_id.as_str();
        assert(r.kv() == r@);
        r
    }
}

/// The key an ordering strategy ranks an agent by: the time of the last
/// call (never called ranks first), the calls taken, the talk time, or the
/// time of joining.
pub open spec fn spec_rank_key(m: QueueMember, strategy: QueueStrategy) -> int {
    match strategy {
        QueueStrategy::LeastRecent => match m.last_call_time {
            Some(t) => t as int,
            None => i64::MIN - 1,
        },
        QueueStrategy::FewestCalls => m.total_calls as int,
        QueueStrategy::LeastTalkTime => m.total_talk_time_ms as int,
        _ => m.joined_at as int,
    }
}

pub fn rank_key(m: &QueueMember, strategy: QueueStrategy) -> (r: i128)
    ensures
        r == spec_rank_key(*m, strategy),
{
    match strategy {
        QueueStrategy::LeastRecent => match m.last_call_time {
            Some(t) => t as i128,
            None => i64::MIN as i128 - 1,
        },
        QueueStrategy::FewestCalls => m.total_calls as i128,
        QueueStrategy::LeastTalkTime => m.total_talk_time_ms as i128,
        _ => m.joined_at as i128,
    }
}

/// `i` is the first position holding the least key.
pub open spec fn is_first_min(s: Seq<QueueMember>, strategy: QueueStrategy, i: int) -> bool {
    &&& 0 <= i < s.len()
    &&& forall|j: int| 0 <= j < s.len() ==> spec_rank_key(s[i], strategy) <= spec_rank_key(#[trigger] s[j], strategy)
    &&& forall|j: int| 0 <= j < i ==> spec_rank_key(#[trigger] s[j], strategy) > spec_rank_key(s[i], strategy)
}

/// The first agent with the least key is, by strategy, the one with the
/// least talk time, the fewest calls, the earliest last call (an agent
/// never called comes before any that was), or the earliest to join; every
/// agent before it in the list has strictly more of that measure.
pub proof fn law_ordering_strategies_pick_least(avail: Seq<QueueMember>, strategy: QueueStrategy, i: int)
    requires
        is_first_min(avail, strategy, i),
    ensures
        0 <= i < avail.len(),
        strategy == QueueStrategy::LeastTalkTime ==> {
            &&& forall|j: int| 0 <= j < avail.len() ==> avail[i].total_talk_time_ms <= (#[trigger] avail[j]).total_talk_time_ms
            &&& forall|j: int| 0 <= j < i ==> (#[trigger] avail[j]).total_talk_time_ms > avail[i].total_talk_time_ms
        },
        strategy == QueueStrategy::FewestCalls ==> {
            &&& forall|j: int| 0 <= j < avail.len() ==> avail[i].total_calls <= (#[trigger] avail[j]).total_calls
            &&& forall|j: int| 0 <= j < i ==> (#[trigger] avail[j]).total_calls > avail[i].total_calls
        },
        strategy == QueueStrategy::LeastRecent ==> {
            &&& avail[i].last_call_time matches Some(t) ==> forall|j: int| 0 <= j < avail.len()
                ==> ((#[trigger] avail[j]).last_call_time matches Some(u) && t <= u)
            &&& forall|j: int| 0 <= j < i ==> (#[trigger] avail[j]).last_call_time is Some
        },
        strategy == QueueStrategy::Linear ==> forall|j: int| 0 <= j < avail.len() ==> avail[i].joined_at
            <= (#[trigger] avail[j]).joined_at,
{
    assert forall|j: int| 0 <= j < avail.len() implies spec_rank_key(avail[i], strategy) <= spec_rank_key(#[trigger] avail[j], strategy) by {
    }
    if strategy == QueueStrategy::LeastRecent {
        assert forall|j: int| 0 <= j < i implies (#[trigger] avail[j]).last_call_time is Some by {
            assert(spec_rank_key(avail[j], strategy) > spec_rank_key(avail[i], strategy));
        }
    }
}

/// The position of the first agent with the least key.
pub fn first_min(s: &Vec<QueueMember>, strategy: QueueStrategy) -> (r: usize)
    requires
        s@.len() > 0,
    ensures
        is_first_min(s@, strategy, r as int),
{
    let mut best: usize = 0;
    let mut best_key = rank_key(&s[0], strategy);
    let mut i: usize = 1;
    while i < s.len()
        invariant
            1 <= i <= s@.len(),
            best < i,
            best_key == spec_rank_key(s@[best as int], strategy),
            forall|j: int| 0 <= j < i ==> best_key <= spec_rank_key(#[trigger] s@[j], strategy),
            forall|j: int| 0 <= j < best ==> spec_rank_key(#[trigger] s@[j], strategy) > best_key,
        decreases s.len() - i,
    {
        let k = rank_key(&s[i], strategy);
        if k < best_key {
            best = i;
            best_key = k;
        }
        i = i + 1;
    }
    best
}

/// The available agents, in the order they joined the queue.
pub open spec fn available_members(ms: Seq<QueueMember>) -> Seq<QueueMember> {
    ms.filter(|m: QueueMember| member_available(m))
}

/// The agents a call can go to are exactly the agents that are available
/// and not paused, in the order they joined.
pub proof fn law_available_members(ms: Seq<QueueMember>)
    ensures
        forall|i: int| 0 <= i < available_members(ms).len() ==> {
            let m = #[trigger] available_members(ms)[i];
            m.status == AgentStatus::Available && !m.paused && ms.contains(m)
        },
        forall|j: int| 0 <= j < ms.len() && (#[trigger] ms[j]).status == AgentStatus::Available && !ms[j].paused
            ==> available_members(ms).contains(ms[j]),
{
    let f = |m: QueueMember| member_available(m);
    assert forall|i: int| 0 <= i < available_members(ms).len() implies {
        let m = #[trigger] available_members(ms)[i];
        m.status == AgentStatus::Available && !m.paused && ms.contains(m)
    } by {
        ms.lemma_filter_pred(f, i);
        ms.lemma_filter_contains_rev(f, available_members(ms)[i]);
    }
    assert forall|j: int| 0 <= j < ms.len() && (#[trigger] ms[j]).status == AgentStatus::Available && !ms[j].paused
        implies available_members(ms).contains(ms[j]) by {
        ms.lemma_filter_contains(f, j);
    }
}

/// Copies of the available agents, in order.
pub fn collect_available(store: &Store<QueueMember>) -> (r: Vec<QueueMember>)
    ensures
        r@ == available_members(store.items()),
{
    let ghost all = store.items();
    let ghost f = |m: QueueMember| member_available(m);
    let mut out: Vec<QueueMember> = Vec::new();
    let mut i: usize = 0;
    while i < store.len()
        invariant
            i <= all.len(),
            all == store.items(),
            f == (|m: QueueMember| member_available(m)),
            out@ == all.take(i as int).filter(f),
        decreases all.len() - i,
    {
        proof {
            reveal(Seq::filter);
            assert(all.take(i + 1).drop_last() =~= all.take(i as int));
        }
        let m = store.at(i);
        if m.is_available() {
            out.push(m.duplicate());
        }
        i = i + 1;
    }
    assert(all.take(i as int) =~= all);
    out
}

/// Queue statistics; the wait is in milliseconds.
#[derive(Debug, Clone)]
pub struct QueueStatistics {
    pub queue_id: u128,
    pub total_members: usize,
    pub available_members: usize,
    pub busy_members: usize,
    pub calls_waiting: usize,
    pub longest_wait_ms: u64,
    pub active_calls: usize,
}

/// The longest wait among calls, or zero.
pub open spec fn max_wait(s: Seq<QueuedCall>) -> u64
    decreases s.len(),
{
    if s.len() == 0 {
        0
    } else {
        let m = max_wait(s.drop_last());
        if s.last().wait_time_ms > m { s.last().wait_time_ms } else { m }
    }
}

/// The agents in status `st`.
pub open spec fn count_status(s: Seq<QueueMember>, st: AgentStatus) -> int
    decreases s.len(),
{
    if s.len() == 0 {
        0
    } else {
        count_status(s.drop_last(), st) + if s.last().status == st { 1int } else { 0int }
    }
}

proof fn lemma_count_status_bound(s: Seq<QueueMember>, st: AgentStatus)
    ensures
        0 <= count_status(s, st) <= s.len(),
    decreases s.len(),
{
    if s.len() > 0 {
        lemma_count_status_bound(s.drop_last(), st);
    }
}

/// Every waiting call can move one place back.
pub open spec fn positions_can_grow(calls: Seq<QueuedCall>) -> bool {
    forall|i: int| 0 <= i < calls.len() ==> (#[trigger] calls[i]).position < usize::MAX
}

/// `b` is `a` with the position changed.
pub open spec fn same_but_position(a: QueuedCall, b: QueuedCall) -> bool {
    b == (QueuedCall { position: b.position, ..a })
}

/// Call queue state: agents (in the order they joined), waiting calls (first
/// to be served first), the agent of each connected call, and the
/// round-robin counter.
pub struct CallQueueState {
    pub queue_id: u128,
    pub members: Store<QueueMember>,
    pub waiting_calls: Vec<QueuedCall>,
    pub active_calls: Store<CallAssignment>,
    pub round_robin_index: usize,
}

impl CallQueueState {
    pub open spec fn wf(&self) -> bool {
        self.members.wf() && self.active_calls.wf()
    }

    pub fn new(queue_id: u128) -> (r: Self)
        ensures
            r.wf(),
            r.queue_id == queue_id,
            r.members.items().len() == 0,
            r.waiting_calls@.len() == 0,
            r.active_calls.items().len() == 0,
            r.round_robin_index == 0,
    {
        CallQueueState {
            queue_id,
            members: Store::new(),
            waiting_calls: Vec::new(),
            active_calls: Store::new(),
            round_robin_index: 0,
        }
    }

    /// Adds (or replaces) an agent under its identifier.
    pub fn add_member(&mut self, member: QueueMember)
        requires
            old(self).wf(),
        ensures
            final(self).wf(),
            final(self).members.get_spec(member.id) == Some(member),
            forall|k: u128| k != member.id ==> final(self).members.get_spec(k) == old(self).members.get_spec(k),
            final(self).waiting_calls@ == old(self).waiting_calls@,
            final(self).round_robin_index == old(self).round_robin_index,
            final(self).queue_id == old(self).queue_id,
    {
        self.members.insert(member);
    }

    /// Removes an agent.
    pub fn remove_member(&mut self, member_id: u128) -> (r: Option<QueueMember>)
        requires
            old(self).wf(),
        ensures
            final(self).wf(),
            r == old(self).members.get_spec(member_id),
            !final(self).members.contains(member_id),
            forall|k: u128| k != member_id ==> final(self).members.get_spec(k) == old(self).members.get_spec(k),
            final(self).waiting_calls@ == old(self).waiting_calls@,
            final(self).round_robin_index == old(self).round_robin_index,
    {
        self.members.remove(&member_id)
    }

    /// The available agents, in the order they joined.
    pub fn get_available_members(&self) -> (r: Vec<QueueMember>)
        ensures
            r@ == available_members(self.members.items()),
    {
        collect_available(&self.members)
    }

    /// Adds a call at the end of the queue; every call already waiting moves
    /// one place back.
    pub fn enqueue_call(&mut self, call: QueuedCall) -> (r: Result<(), String>)
        requires
            positions_can_grow(old(self).waiting_calls@),
        ensures
            r is Ok,
            final(self).waiting_calls@.len() == old(self).waiting_calls@.len() + 1,
            final(self).waiting_calls@.last() == call,
            forall|i: int| 0 <= i < old(self).waiting_calls@.len() ==> {
                &&& same_but_position(old(self).waiting_calls@[i], #[trigger] final(self).waiting_calls@[i])
                &&& final(self).waiting_calls@[i].position == old(self).waiting_calls@[i].position + 1
            },
            final(self).members == old(self).members,
            final(self).active_calls == old(self).active_calls,
            final(self).round_robin_index == old(self).round_robin_index,
            final(self).queue_id == old(self).queue_id,
    {
        let ghost before = self.waiting_calls@;
        let mut moved: Vec<QueuedCall> = Vec::new();
        let mut rest: Vec<QueuedCall> = Vec::new();
        std::mem::swap(&mut rest, &mut self.waiting_calls);
        let mut i: usize = 0;
        let n = rest.len();
        while rest.len() > 0
            invariant
                i + rest@.len() == n,
                n == before.len(),
                rest@ == before.skip(i as int),
                positions_can_grow(before),
                moved@.len() == i,
                forall|k: int| 0 <= k < i ==> {
                    &&& same_but_position(before[k], #[trigger] moved@[k])
                    &&& moved@[k].position == before[k].position + 1
                },
            decreases rest@.len(),
        {
            let mut c = rest.remove(0);
            assert(c == before[i as int]);
            c.position = c.position + 1;
            moved.push(c);
            i = i + 1;
            assert(rest@ =~= before.skip(i as int));
        }
        moved.push(call);
        self.waiting_calls = moved;
        Ok(())
    }

    /// Takes the first waiting call; the others are renumbered 1, 2, ….
    pub fn dequeue_call(&mut self) -> (r: Option<QueuedCall>)
        ensures
            old(self).waiting_calls@.len() == 0 ==> r is None && final(self).waiting_calls@.len() == 0,
            old(self).waiting_calls@.len() > 0 ==> {
                &&& r == Some(old(self).waiting_calls@[0])
                &&& final(self).waiting_calls@.len() == old(self).waiting_calls@.len() - 1
                &&& forall|i: int| 0 <= i < final(self).waiting_calls@.len() ==> {
                    &&& same_but_position(old(self).waiting_calls@[i + 1], #[trigger] final(self).waiting_calls@[i])
                    &&& final(self).waiting_calls@[i].position == i + 1
                }
            },
            final(self).members == old(self).members,
            final(self).active_calls == old(self).active_calls,
            final(self).round_robin_index == old(self).round_robin_index,
            final(self).queue_id == old(self).queue_id,
    {
        if self.waiting_calls.len() == 0 {
            return None;
        }
        let first = self.waiting_calls.remove(0);
        renumber(&mut self.waiting_calls);
        Some(first)
    }

    /// The next agent for a call by the strategy, among the available ones
    /// in the order they joined: the first for ring-all and linear, the one
    /// with the least key for the ordering strategies, a random one, or the
    /// next in turn for round-robin (which then advances its counter).
    pub fn get_next_agent(&mut self, strategy: QueueStrategy) -> (r: Option<u128>)
        requires
            old(self).wf(),
            old(self).round_robin_index < usize::MAX,
        ensures
            final(self).members == old(self).members,
            final(self).waiting_calls@ == old(self).waiting_calls@,
            final(self).active_calls == old(self).active_calls,
            ({
                let avail = available_members(old(self).members.items());
                &&& (avail.len() == 0 <==> r is None)
                &&& avail.len() == 0 ==> final(self).round_robin_index == old(self).round_robin_index
                &&& avail.len() > 0 ==> match strategy {
                    QueueStrategy::RoundRobin => r == Some(avail[old(self).round_robin_index as int % avail.len() as int].id)
                        && final(self).round_robin_index == old(self).round_robin_index + 1,
                    QueueStrategy::LeastRecent | QueueStrategy::FewestCalls | QueueStrategy::LeastTalkTime => exists|i: int|
                        is_first_min(avail, strategy, i) && r == Some(avail[i].id) && final(self).round_robin_index
                            == old(self).round_robin_index,
                    QueueStrategy::Random => exists|i: int| 0 <= i < avail.len() && r == Some(avail[i].id) && final(self).round_robin_index
                        == old(self).round_robin_index,
                    _ => r == Some(avail[0].id) && final(self).round_robin_index == old(self).round_robin_index,
                }
                &&& r matches Some(id) ==> exists|m: QueueMember| #[trigger] old(self).members.items().contains(m) && m.id == id
                    && m.status == AgentStatus::Available && !m.paused
                &&& (avail.len() > 0 && strategy == QueueStrategy::LeastTalkTime) ==> exists|i: int| 0 <= i < avail.len()
                    && r == Some(avail[i].id)
                    && forall|j: int| 0 <= j < avail.len() ==> avail[i].total_talk_time_ms <= (#[trigger] avail[j]).total_talk_time_ms
                &&& (avail.len() > 0 && strategy == QueueStrategy::FewestCalls) ==> exists|i: int| 0 <= i < avail.len()
                    && r == Some(avail[i].id)
                    && forall|j: int| 0 <= j < avail.len() ==> avail[i].total_calls <= (#[trigger] avail[j]).total_calls
                &&& (avail.len() > 0 && strategy == QueueStrategy::LeastRecent) ==> exists|i: int| 0 <= i < avail.len()
                    && r == Some(avail[i].id)
                    && (avail[i].last_call_time matches Some(t) ==> forall|j: int| 0 <= j < avail.len()
                        ==> ((#[trigger] avail[j]).last_call_time matches Some(u) && t <= u))
            }),
    {
        let available = collect_available(&self.members);
        proof {
            law_available_members(self.members.items());
        }
        if available.len() == 0 {
            return None;
        }
        match strategy {
            QueueStrategy::RoundRobin => {
                let id = available[self.round_robin_index % available.len()].id;
                self.round_robin_index = self.round_robin_index + 1;
                Some(id)
            },
            QueueStrategy::LeastRecent | QueueStrategy::FewestCalls | QueueStrategy::LeastTalkTime => {
                let i = first_min(&available, strategy);
                proof {
                    law_ordering_strategies_pick_least(available@, strategy, i as int);
                }
                Some(available[i].id)
            },
            QueueStrategy::Random => {
                let i = random_index(available.len());
                Some(available[i].id)
            },
            _ => Some(available[0].id),
        }
    }

    /// Connects a call to an agent, who becomes busy if known.
    pub fn assign_call(&mut self, call_id: String, member_id: u128)
        requires
            old(self).wf(),
        ensures
            final(self).wf(),
            final(self).active_calls.get_spec(call_id@) matches Some(a) && a.member_id == member_id,
            forall|k: Seq<char>| k != call_id@ ==> final(self).active_calls.get_spec(k) == old(self).active_calls.get_spec(k),
            match old(self).members.get_spec(member_id) {
                Some(m) => final(self).members.get_spec(member_id) == Some(QueueMember { status: AgentStatus::Busy, ..m }),
                None => final(self).members.get_spec(member_id) is None,
            },
            forall|k: u128| k != member_id ==> final(self).members.get_spec(k) == old(self).members.get_spec(k),
            final(self).waiting_calls@ == old(self).waiting_calls@,
    {
        self.active_calls.insert(CallAssignment { call_id, member_id });
        match self.members.find(&member_id) {
            Some(i) => {
                let mut m = self.members.take_at(i);
                m.mark_busy();
                self.members.put_at(i, m);
            },
            None => {},
        }
    }

    /// Completes a connected call at `now`: its agent counts an answered call
    /// of `talk_time_ms` and moves to after-call work.
    pub fn complete_call_at(&mut self, call_id: &str, talk_time_ms: u64, now: i64)
        requires
            old(self).wf(),
            forall|i: int| 0 <= i < old(self).members.items().len() ==> can_record_answer(
                #[trigger] old(self).members.items()[i],
                talk_time_ms,
            ),
        ensures
            final(self).wf(),
            !final(self).active_calls.contains(call_id@),
            forall|k: Seq<char>| k != call_id@ ==> final(self).active_calls.get_spec(k) == old(self).active_calls.get_spec(k),
            match old(self).active_calls.get_spec(call_id@) {
                Some(a) => {
                    &&& match old(self).members.get_spec(a.member_id) {
                        Some(m) => final(self).members.get_spec(a.member_id) == Some(
                            QueueMember {
                                total_calls: (m.total_calls + 1) as u64,
                                answered_calls: (m.answered_calls + 1) as u64,
                                total_talk_time_ms: (m.total_talk_time_ms + talk_time_ms) as u64,
                                last_call_time: Some(now),
                                status: AgentStatus::AfterCallWork,
                                ..m
                            },
                        ),
                        None => final(self).members.get_spec(a.member_id) is None,
                    }
                    &&& forall|k: u128| k != a.member_id ==> final(self).members.get_spec(k) == old(self).members.get_spec(k)
                },
                None => final(self).members == old(self).members,
            },
            final(self).waiting_calls@ == old(self).waiting_calls@,
    {
        match self.active_calls.remove(call_id) {
            Some(a) => {
                match self.members.find(&a.member_id) {
                    Some(i) => {
                        let mut m = self.members.take_at(i);
                        m.record_answered_at(talk_time_ms, now);
                        m.status = AgentStatus::AfterCallWork;
                        self.members.put_at(i, m);
                    },
                    None => {},
                }
            },
            None => {},
        }
    }

    /// Completes a connected call now.
    pub fn complete_call(&mut self, call_id: &str, talk_time_ms: u64)
        requires
            old(self).wf(),
            forall|i: int| 0 <= i < old(self).members.items().len() ==> can_record_answer(
                #[trigger] old(self).members.items()[i],
                talk_time_ms,
            ),
        ensures
            final(self).wf(),
            !final(self).active_calls.contains(call_id@),
            exists|now: i64| #[trigger] clock_reading(now) && {
                &&& (!final(self).active_calls.contains(call_id@))
                &&& (forall|k: Seq<char>| k != call_id@ ==> final(self).active_calls.get_spec(k) == old(self).active_calls.get_spec(k))
                &&& (match old(self).active_calls.get_spec(call_id@) {
                    Some(a) => {
                        &&& match old(self).members.get_spec(a.member_id) {
                            Some(m) => final(self).members.get_spec(a.member_id) == Some(
                                QueueMember {
                                    total_calls: (m.total_calls + 1) as u64,
                                    answered_calls: (m.answered_calls + 1) as u64,
                                    total_talk_time_ms: (m.total_talk_time_ms + talk_time_ms) as u64,
                                    last_call_time: Some(now),
                                    status: AgentStatus::AfterCallWork,
                                    ..m
                                },
                            ),
                            None => final(self).members.get_spec(a.member_id) is None,
                        }
                        &&& forall|k: u128| k != a.member_id ==> final(self).members.get_spec(k) == old(self).members.get_spec(k)
                    },
                    None => final(self).members == old(self).members,
                })
                &&& (final(self).waiting_calls@ == old(self).waiting_calls@)
            },
    {
        let now = now_millis();
        proof {
            assert(clock_reading(now));
        }
        self.complete_call_at(call_id, talk_time_ms, now);
    }

    /// Counts of agents and calls, and the longest wait.
    pub fn get_statistics(&self) -> (r: QueueStatistics)
        ensures
            r.queue_id == self.queue_id,
            r.total_members == self.members.items().len(),
            r.available_members == available_members(self.members.items()).len(),
            r.busy_members == count_status(self.members.items(), AgentStatus::Busy),
            r.calls_waiting == self.waiting_calls@.len(),
            r.longest_wait_ms == max_wait(self.waiting_calls@),
            r.active_calls == self.active_calls.items().len(),
    {
        let available = collect_available(&self.members).len();
        let ghost s = self.members.items();
        let mut busy: usize = 0;
        let mut i: usize = 0;
        while i < self.members.len()
            invariant
                i <= s.len(),
                s == self.members.items(),
                busy == count_status(s.take(i as int), AgentStatus::Busy),
            decreases s.len() - i,
        {
            proof {
                assert(s.take(i + 1).drop_last() =~= s.take(i as int));
                lemma_count_status_bound(s.take(i as int), AgentStatus::Busy);
            }
            if self.members.at(i).status == AgentStatus::Busy {
                busy = busy + 1;
            }
            i = i + 1;
        }
        assert(s.take(i as int) =~= s);
        let mut longest: u64 = 0;
        let mut j: usize = 0;
        while j < self.waiting_calls.len()
            invariant
                j <= self.waiting_calls@.len(),
                longest == max_wait(self.waiting_calls@.take(j as int)),
            decreases self.waiting_calls.len() - j,
        {
            assert(self.waiting_calls@.take(j + 1).drop_last() =~= self.waiting_calls@.take(j as int));
            if self.waiting_calls[j].wait_time_ms > longest {
                longest = self.waiting_calls[j].wait_time_ms;
            }
            j = j + 1;
        }
        assert(self.waiting_calls@.take(j as int) =~= self.waiting_calls@);
        QueueStatistics {
            queue_id: self.queue_id,
            total_members: self.members.len(),
            available_members: available,
            busy_members: busy,
            calls_waiting: self.waiting_calls.len(),
            longest_wait_ms: longest,
            active_calls: self.active_calls.len(),
        }
    }
}

/// Numbers the calls 1, 2, … in order.
pub fn renumber(calls: &mut Vec<QueuedCall>)
    ensures
        final(calls)@.len() == old(calls)@.len(),
        forall|i: int| 0 <= i < final(calls)@.len() ==> {
            &&& same_but_position(old(calls)@[i], #[trigger] final(calls)@[i])
            &&& final(calls)@[i].position == i + 1
        },
{
    let ghost before = calls@;
    let mut out: Vec<QueuedCall> = Vec::new();
    let mut rest: Vec<QueuedCall> = Vec::new();
    std::mem::swap(&mut rest, calls);
    let n = rest.len();
    let mut i: usize = 0;
    while rest.len() > 0
        invariant
            i + rest@.len() == n,
            n == before.len(),
            rest@ == before.skip(i as int),
            out@.len() == i,
            forall|k: int| 0 <= k < i ==> {
                &&& same_but_position(before[k], #[trigger] out@[k])
                &&& out@[k].position == k + 1
            },
        decreases rest@.len(),
    {
        let mut c = rest.remove(0);
        assert(c == before[i as int]);
        c.position = i + 1;
        out.push(c);
        i = i + 1;
        assert(rest@ =~= before.skip(i as int));
    }
    *calls = out;
}

} // verus!
