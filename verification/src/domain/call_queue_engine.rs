//! The call queue engine: running queues with their agents and waiting
//! calls, the choice of agent by strategy, and the counters that measure
//! each queue. Times are milliseconds since the Unix epoch.
use vstd::prelude::*;
use crate::domain::call_queue::{
    available_members, can_record_answer, collect_available, first_min, is_first_min, law_ordering_strategies_pick_least,
    member_available, same_but_position, spec_wait, CallAssignment, CallQueue, QueueMember,
    QueueStrategy, QueuedCall,
};
use crate::domain::audio::player::{spec_fresh, spec_load, spec_play, PlaybackOptions, StreamingAudioPlayer};
use crate::domain::audio::wav::WavFile;
use crate::domain::shared::system::{clock_reading, is_v4_uuid, new_uuid, now_millis, random_index};
use std::sync::Arc;
use crate::store::{KeyOf, Keyed, Store};
use crate::text::str_eq;

verus! {

/// Call queue engine error.
#[derive(Debug, Clone, PartialEq, Eq)]
pub enum QueueEngineError {
    /// Queue is full
    QueueFull,
    /// Queue not found
    QueueNotFound,
    /// No available agents
    NoAvailableAgents,
    /// Call not found in queue
    CallNotFound,
    /// Member not found
    MemberNotFound,
    /// Invalid operation
    InvalidOperation(String),
}

/// The text of an engine error.
pub open spec fn spec_error_text(e: QueueEngineError) -> Seq<char> {
    match e {
        QueueEngineError::QueueFull => "Queue is full"@,
        QueueEngineError::QueueNotFound => "Queue not found"@,
        QueueEngineError::NoAvailableAgents => "No available agents"@,
        QueueEngineError::CallNotFound => "Call not found"@,
        QueueEngineError::MemberNotFound => "Member not found"@,
        QueueEngineError::InvalidOperation(m) => "Invalid operation: "@ + m@,
    }
}

impl QueueEngineError {
    /// The error's text.
    pub fn to_string(&self) -> (r: String)
        ensures
            r@ == spec_error_text(*self),
    {
        match self {
            QueueEngineError::QueueFull => String::from_str("Queue is full"),
            QueueEngineError::QueueNotFound => String::from_str("Queue not found"),
            QueueEngineError::NoAvailableAgents => String::from_str("No available agents"),
            QueueEngineError::CallNotFound => String::from_str("Call not found"),
            QueueEngineError::MemberNotFound => String::from_str("Member not found"),
            QueueEngineError::InvalidOperation(m) => {
                let mut s = String::from_str("Invalid operation: ");
                s.append(m.as_str());
                s
            },
        }
    }
}

/// Queue statistics: call counters, the average and longest waits in
/// milliseconds, and the calls answered within the service-level threshold.
#[derive(Debug, Clone, Copy)]
pub struct QueueStatistics {
    pub total_calls: u64,
    pub calls_waiting: usize,
    pub calls_active: usize,
    pub calls_answered: u64,
    pub calls_abandoned: u64,
    pub calls_overflowed: u64,
    pub avg_wait_time_ms: u64,
    pub longest_wait_time_ms: u64,
    pub answered_within_threshold: u64,
    pub service_level_threshold_ms: u64,
}

impl Default for QueueStatistics {
    /// All counters zero, and a twenty-second service-level threshold.
    fn default() -> (r: Self)
        ensures
            r.total_calls == 0 && r.calls_waiting == 0 && r.calls_active == 0 && r.calls_answered == 0
                && r.calls_abandoned == 0 && r.calls_overflowed == 0 && r.avg_wait_time_ms == 0
                && r.longest_wait_time_ms == 0 && r.answered_within_threshold == 0,
            r.service_level_threshold_ms == 20_000,
    {
        QueueStatistics {
            total_calls: 0,
            calls_waiting: 0,
            calls_active: 0,
            calls_answered: 0,
            calls_abandoned: 0,
            calls_overflowed: 0,
            avg_wait_time_ms: 0,
            longest_wait_time_ms: 0,
            answered_within_threshold: 0,
            service_level_threshold_ms: 20_000,
        }
    }
}

/// A counter after one more event, wrapping at the top as release builds do.
pub open spec fn bump(x: u64) -> u64 {
    if x < u64::MAX { (x + 1) as u64 } else { 0 }
}

fn bump_exec(x: u64) -> (r: u64)
    ensures
        r == bump(x),
{
    if x < u64::MAX { x + 1 } else { 0 }
}

/// The average wait after one more answered call: the former average in
/// whole seconds, weighted by the calls answered before, plus the new wait in
/// whole seconds, over the calls answered now; kept in milliseconds.
pub open spec fn next_avg_wait_ms(avg_ms: u64, answered: u64, wait_ms: u64) -> u64 {
    ((((avg_ms / 1000) * (answered - 1) + wait_ms / 1000) / (answered as int)) * 1000) as u64
}

/// The position of the first call with the given call id, or the count.
pub open spec fn call_position(calls: Seq<QueuedCall>, call_id: Seq<char>) -> int
    decreases calls.len(),
{
    if calls.len() == 0 {
        0
    } else if calls[0].call_id@ == call_id {
        0
    } else {
        1 + call_position(calls.drop_first(), call_id)
    }
}

proof fn lemma_call_position(calls: Seq<QueuedCall>, call_id: Seq<char>)
    ensures
        0 <= call_position(calls, call_id) <= calls.len(),
        call_position(calls, call_id) < calls.len() ==> calls[call_position(calls, call_id)].call_id@ == call_id,
        forall|j: int| 0 <= j < call_position(calls, call_id) ==> (#[trigger] calls[j]).call_id@ != call_id,
    decreases calls.len(),
{
    if calls.len() > 0 && calls[0].call_id@ != call_id {
        lemma_call_position(calls.drop_first(), call_id);
        assert forall|j: int| 0 <= j < call_position(calls, call_id) implies (#[trigger] calls[j]).call_id@ != call_id by {
            if j > 0 {
                assert(calls[j] == calls.drop_first()[j - 1]);
            }
        }
    }
}

fn find_call(calls: &Vec<QueuedCall>, call_id: &str) -> (r: usize)
    ensures
        r == call_position(calls@, call_id@),
{
    proof {
        lemma_call_position(calls@, call_id@);
    }
    let mut i: usize = 0;
    while i < calls.len()
        invariant
            i <= calls@.len(),
            i <= call_position(calls@, call_id@),
            0 <= call_position(calls@, call_id@) <= calls@.len(),
            call_position(calls@, call_id@) < calls@.len() ==> calls@[call_position(calls@, call_id@)].call_id@ == call_id@,
            forall|j: int| 0 <= j < call_position(calls@, call_id@) ==> (#[trigger] calls@[j]).call_id@ != call_id@,
        decreases calls.len() - i,
    {
        if str_eq(calls[i].call_id.as_str(), call_id) {
            return i;
        }
        i = i + 1;
    }
    i
}

/// The calls numbered 1, 2, … in order, each with its wait measured at `now`.
pub open spec fn refreshed(before: Seq<QueuedCall>, after: Seq<QueuedCall>, now: i64) -> bool {
    &&& after.len() == before.len()
    &&& forall|i: int| 0 <= i < after.len() ==> #[trigger] after[i] == (QueuedCall {
        position: (i + 1) as usize,
        wait_time_ms: spec_wait(before[i].enqueued_at, now),
        ..before[i]
    })
}

fn refresh_positions(calls: &mut Vec<QueuedCall>, now: i64)
    ensures
        refreshed(old(calls)@, final(calls)@, now),
{
    let ghost before = calls@;
    let mut out: Vec<QueuedCall> = Vec::new();
    let mut rest: Vec<QueuedCall> = Vec::new();
    std::mem::swap(&mut rest, calls);
    let n = rest.len();
    let mut i: usize = 0;
    while rest.len() > 0
        invariant
            i + rest@.len() == n,
            n == before.len(),
            rest@ == before.skip(i as int),
            out@.len() == i,
            forall|k: int| 0 <= k < i ==> #[trigger] out@[k] == (QueuedCall {
                position: (k + 1) as usize,
                wait_time_ms: spec_wait(before[k].enqueued_at, now),
                ..before[k]
            }),
        decreases rest@.len(),
    {
        let mut c = rest.remove(0);
        assert(c == before[i as int]);
        c.position = i + 1;
        c.update_wait_time_at(now);
        out.push(c);
        i = i + 1;
        assert(rest@ =~= before.skip(i as int));
    }
    *calls = out;
}

/// A running queue: its configuration, agents, waiting calls, connected
/// calls, round-robin counter and statistics.
pub struct QueueSession {
    pub queue: CallQueue,
    pub members: Store<QueueMember>,
    pub waiting_calls: Vec<QueuedCall>,
    pub active_calls: Store<CallAssignment>,
    pub round_robin_position: usize,
    pub statistics: QueueStatistics,
}

impl Keyed for QueueSession {
    type Key = u128;

    open spec fn key(&self) -> u128 {
        self.queue.id
    }

    /// The stores are well formed and no more calls wait than the queue takes.
    open spec fn inv(&self) -> bool {
        self.members.wf() && self.active_calls.wf() && self.waiting_calls@.len() <= self.queue.max_queue_size
    }

    fn key_ref(&self) -> (r: &u128) {
        let r = &self.queue.id;
        assert(r.kv() == *r);
        r
    }
}

/// Agents ordered by id.
#[verifier::opaque]
pub open spec fn sorted_by_id(s: Seq<QueueMember>) -> bool {
    forall|i: int, j: int| 0 <= i < j < s.len() ==> (#[trigger] s[i]).id <= (#[trigger] s[j]).id
}

/// `sorted` holds the agents of `s`, as many times each, ordered by id.
pub open spec fn is_id_order(s: Seq<QueueMember>, sorted: Seq<QueueMember>) -> bool {
    &&& sorted_by_id(sorted)
    &&& sorted.to_multiset() == s.to_multiset()
    &&& sorted.len() == s.len()
}

proof fn lemma_insert_sorted_id(before: Seq<QueueMember>, x: QueueMember, pos: int)
    requires
        sorted_by_id(before),
        0 <= pos <= before.len(),
        forall|k: int| 0 <= k < pos ==> (#[trigger] before[k]).id <= x.id,
        pos < before.len() ==> before[pos].id > x.id,
    ensures
        sorted_by_id(before.insert(pos, x)),
{
    reveal(sorted_by_id);
    let out = before.insert(pos, x);
    assert forall|i: int, j: int| 0 <= i < j < out.len() implies (#[trigger] out[i]).id <= (#[trigger] out[j]).id by {
        if i < pos && j < pos {
            assert(out[i] == before[i] && out[j] == before[j]);
        } else if i < pos && j == pos {
            assert(out[i] == before[i]);
        } else if i < pos && j > pos {
            assert(out[i] == before[i] && out[j] == before[j - 1]);
        } else if i == pos {
            assert(out[j] == before[j - 1]);
            assert(before[pos].id <= before[j - 1].id);
        } else {
            assert(out[i] == before[i - 1] && out[j] == before[j - 1]);
        }
    }
}

/// Sorts agents by id (insertion sort, stable).
pub fn sort_by_id(v: Vec<QueueMember>) -> (r: Vec<QueueMember>)
    ensures
        is_id_order(v@, r@),
{
    let ghost src = v@;
    assert(src.len() == v.len());
    let mut rest = v;
    let mut out: Vec<QueueMember> = Vec::new();
    let mut taken: usize = 0;
    proof {
        reveal(sorted_by_id);
        assert(src.take(0) =~= Seq::<QueueMember>::empty());
        assert(out@ =~= Seq::<QueueMember>::empty());
    }
    while rest.len() > 0
        invariant
            taken + rest@.len() == src.len(),
            src.len() <= usize::MAX,
            rest@ == src.subrange(taken as int, src.len() as int),
            sorted_by_id(out@),
            out@.to_multiset() == src.take(taken as int).to_multiset(),
            out@.len() == taken,
        decreases rest.len(),
    {
        let x = rest.remove(0);
        assert(x == src[taken as int]);
        let mut pos: usize = 0;
        while pos < out.len() && out[pos].id <= x.id
            invariant
                pos <= out@.len(),
                forall|k: int| 0 <= k < pos ==> (#[trigger] out@[k]).id <= x.id,
            decreases out@.len() - pos,
        {
            pos = pos + 1;
        }
        let ghost before = out@;
        out.insert(pos, x);
        proof {
            lemma_insert_sorted_id(before, x, pos as int);
            assert(src.take(taken + 1) =~= src.take(taken as int).push(x));
            vstd::seq_lib::to_multiset_insert(before, pos as int, x);
            vstd::seq_lib::to_multiset_build(src.take(taken as int), x);
        }
        taken = taken + 1;
        assert(rest@ =~= src.subrange(taken as int, src.len() as int));
    }
    assert(src.take(taken as int) =~= src);
    out
}

impl QueueSession {
    /// A running queue with no agents or calls.
    pub fn new(queue: CallQueue) -> (r: Self)
        ensures
            r.queue == queue,
            r.members.wf() && r.active_calls.wf(),
            r.members.items().len() == 0,
            r.waiting_calls@.len() == 0,
            r.active_calls.items().len() == 0,
            r.round_robin_position == 0,
            r.statistics.total_calls == 0 && r.statistics.calls_answered == 0 && r.statistics.calls_active == 0,
    {
        QueueSession {
            queue,
            members: Store::new(),
            waiting_calls: Vec::new(),
            active_calls: Store::new(),
            round_robin_position: 0,
            statistics: QueueStatistics::default(),
        }
    }

    /// The agent for the next call by the queue's strategy, among the
    /// available ones in the order they joined: the first for ring-all, the
    /// earliest to join for linear, the least key for the ordering
    /// strategies, a random one, or for round-robin the agent whose id ranks
    /// at the counter (modulo their number) among the available ids, the
    /// counter then advancing.
    pub fn select_agent(&mut self) -> (r: Option<u128>)
        requires
            old(self).round_robin_position < usize::MAX,
        ensures
            final(self).members == old(self).members,
            final(self).waiting_calls@ == old(self).waiting_calls@,
            final(self).active_calls == old(self).active_calls,
            final(self).queue == old(self).queue,
            final(self).statistics == old(self).statistics,
            ({
                let avail = available_members(old(self).members.items());
                &&& (avail.len() == 0 <==> r is None)
                &&& (avail.len() == 0 || old(self).queue.strategy != QueueStrategy::RoundRobin) ==> final(self).round_robin_position
                    == old(self).round_robin_position
                &&& avail.len() > 0 ==> match old(self).queue.strategy {
                    QueueStrategy::RingAll => r == Some(avail[0].id),
                    QueueStrategy::Random => exists|i: int| 0 <= i < avail.len() && r == Some(avail[i].id),
                    QueueStrategy::RoundRobin => final(self).round_robin_position == old(self).round_robin_position + 1
                        && exists|sorted: Seq<QueueMember>| #[trigger] is_id_order(avail, sorted)
                        && r == Some(sorted[old(self).round_robin_position as int % avail.len() as int].id),
                    _ => exists|i: int| is_first_min(avail, old(self).queue.strategy, i) && r == Some(avail[i].id),
                }
                &&& (avail.len() > 0 && old(self).queue.strategy == QueueStrategy::LeastTalkTime) ==> exists|i: int|
                    0 <= i < avail.len() && r == Some(avail[i].id)
                    && forall|j: int| 0 <= j < avail.len() ==> avail[i].total_talk_time_ms <= (#[trigger] avail[j]).total_talk_time_ms
                &&& (avail.len() > 0 && old(self).queue.strategy == QueueStrategy::FewestCalls) ==> exists|i: int|
                    0 <= i < avail.len() && r == Some(avail[i].id)
                    && forall|j: int| 0 <= j < avail.len() ==> avail[i].total_calls <= (#[trigger] avail[j]).total_calls
                &&& (avail.len() > 0 && old(self).queue.strategy == QueueStrategy::LeastRecent) ==> exists|i: int|
                    0 <= i < avail.len() && r == Some(avail[i].id)
                    && (avail[i].last_call_time matches Some(t) ==> forall|j: int| 0 <= j < avail.len()
                        ==> ((#[trigger] avail[j]).last_call_time matches Some(u) && t <= u))
                &&& (avail.len() > 0 && old(self).queue.strategy == QueueStrategy::Linear) ==> exists|i: int|
                    0 <= i < avail.len() && r == Some(avail[i].id)
                    && forall|j: int| 0 <= j < avail.len() ==> avail[i].joined_at <= (#[trigger] avail[j]).joined_at
            }),
    {
        let available = collect_available(&self.members);
        if available.len() == 0 {
            return None;
        }
        match self.queue.strategy {
            QueueStrategy::RingAll => Some(available[0].id),
            QueueStrategy::Random => {
                let i = random_index(available.len());
                Some(available[i].id)
            },
            QueueStrategy::RoundRobin => {
                let sorted = sort_by_id(available);
                let id = sorted[self.round_robin_position % sorted.len()].id;
                self.round_robin_position = self.round_robin_position + 1;
                Some(id)
            },
            _ => {
                let i = first_min(&available, self.queue.strategy);
                proof {
                    law_ordering_strategies_pick_least(available@, self.queue.strategy, i as int);
                }
                Some(available[i].id)
            },
        }
    }
}

/// The waits of calls added up.
pub open spec fn sum_waits(s: Seq<QueuedCall>) -> int
    decreases s.len(),
{
    if s.len() == 0 {
        0
    } else {
        sum_waits(s.drop_last()) + s.last().wait_time_ms
    }
}

proof fn lemma_sum_waits_bound(s: Seq<QueuedCall>)
    ensures
        0 <= sum_waits(s) <= s.len() * (u64::MAX as int),
    decreases s.len(),
{
    if s.len() > 0 {
        lemma_sum_waits_bound(s.drop_last());
    }
}

/// The mean wait of the waiting calls, in milliseconds (zero with none).
pub open spec fn mean_wait(s: Seq<QueuedCall>) -> int {
    if s.len() == 0 { 0 } else { sum_waits(s) / (s.len() as int) }
}

/// A usize counter after one more event, wrapping at the top.
pub open spec fn bump_usize(x: usize) -> usize {
    if x < usize::MAX { (x + 1) as usize } else { 0 }
}

impl QueueSession {
    /// The mean wait of the waiting calls, in milliseconds.
    pub fn calculate_avg_wait_time_ms(&self) -> (r: u64)
        ensures
            r == mean_wait(self.waiting_calls@),
    {
        let n = self.waiting_calls.len();
        if n == 0 {
            return 0;
        }
        let mut total: u128 = 0;
        let mut i: usize = 0;
        while i < n
            invariant
                n == self.waiting_calls@.len(),
                i <= n,
                total == sum_waits(self.waiting_calls@.take(i as int)),
            decreases n - i,
        {
            proof {
                assert(self.waiting_calls@.take(i + 1).drop_last() =~= self.waiting_calls@.take(i as int));
                lemma_sum_waits_bound(self.waiting_calls@.take(i + 1));
                assert(sum_waits(self.waiting_calls@.take(i + 1)) <= (i + 1) * (u64::MAX as int)) ;
                assert((i + 1) * (u64::MAX as int) <= (usize::MAX as int) * (u64::MAX as int)) by (nonlinear_arith)
                    requires
                        i + 1 <= usize::MAX,
                ;
                assert((usize::MAX as int) * (u64::MAX as int) <= (u64::MAX as int) * (u64::MAX as int)) by (nonlinear_arith)
                    requires
                        usize::MAX <= u64::MAX,
                ;
            }
            total = total + self.waiting_calls[i].wait_time_ms as u128;
            i = i + 1;
        }
        assert(self.waiting_calls@.take(i as int) =~= self.waiting_calls@);
        proof {
            lemma_sum_waits_bound(self.waiting_calls@);
            assert(sum_waits(self.waiting_calls@) / (n as int) <= u64::MAX) by (nonlinear_arith)
                requires
                    n >= 1,
                    sum_waits(self.waiting_calls@) <= n * (u64::MAX as int),
                    sum_waits(self.waiting_calls@) >= 0,
            ;
        }
        (total / (n as u128)) as u64
    }
}

/// Call queue engine: the running queues by identifier.
pub struct CallQueueEngine {
    sessions: Store<QueueSession>,
}

/// The message of no-such-queue, in the engine's error type.
pub open spec fn not_found(r: QueueEngineError) -> bool {
    r == QueueEngineError::QueueNotFound
}

impl CallQueueEngine {
    pub closed spec fn spec_sessions(&self) -> Store<QueueSession> {
        self.sessions
    }

    /// The running queue with the given identifier.
    pub open spec fn session(&self, queue_id: u128) -> Option<QueueSession> {
        self.spec_sessions().get_spec(queue_id)
    }

    pub open spec fn wf(&self) -> bool {
        self.spec_sessions().wf()
    }

    pub fn new() -> (r: Self)
        ensures
            r.wf(),
            r.spec_sessions().items().len() == 0,
    {
        CallQueueEngine { sessions: Store::new() }
    }

    /// Starts (or restarts, empty) a queue.
    pub fn start_queue(&mut self, queue: CallQueue)
        requires
            old(self).wf(),
        ensures
            final(self).wf(),
            final(self).session(queue.id) matches Some(s) && s.queue == queue && s.members.items().len() == 0
                && s.waiting_calls@.len() == 0 && s.active_calls.items().len() == 0 && s.statistics.total_calls == 0,
            forall|k: u128| k != queue.id ==> final(self).session(k) == old(self).session(k),
    {
        self.sessions.insert(QueueSession::new(queue));
    }

    /// Stops a queue.
    pub fn stop_queue(&mut self, queue_id: u128)
        requires
            old(self).wf(),
        ensures
            final(self).wf(),
            final(self).session(queue_id) is None,
            forall|k: u128| k != queue_id ==> final(self).session(k) == old(self).session(k),
    {
        let _ = self.sessions.remove(&queue_id);
    }

    /// Adds (or replaces) an agent of a queue.
    pub fn add_member(&mut self, queue_id: u128, member: QueueMember) -> (r: Result<(), QueueEngineError>)
        requires
            old(self).wf(),
        ensures
            final(self).wf(),
            r is Err <==> old(self).session(queue_id) is None,
            r matches Err(e) ==> not_found(e) && final(self).spec_sessions().items() == old(self).spec_sessions().items(),
            r is Ok ==> (final(self).session(queue_id) matches Some(t) && t.members.get_spec(member.id) == Some(member)
                && (forall|k: u128| k != member.id ==> t.members.get_spec(k) == old(self).session(queue_id).unwrap().members.get_spec(k))
                && t.waiting_calls@ == old(self).session(queue_id).unwrap().waiting_calls@),
            forall|k: u128| k != queue_id ==> final(self).session(k) == old(self).session(k),
    {
        match self.sessions.find(&queue_id) {
            Some(i) => {
                let mut s = self.sessions.take_at(i);
                s.members.insert(member);
                self.sessions.put_at(i, s);
                Ok(())
            },
            None => Err(QueueEngineError::QueueNotFound),
        }
    }

    /// Removes an agent of a queue, if there.
    pub fn remove_member(&mut self, queue_id: u128, member_id: u128) -> (r: Result<(), QueueEngineError>)
        requires
            old(self).wf(),
        ensures
            final(self).wf(),
            r is Err <==> old(self).session(queue_id) is None,
            r matches Err(e) ==> not_found(e) && final(self).spec_sessions().items() == old(self).spec_sessions().items(),
            r is Ok ==> (final(self).session(queue_id) matches Some(t) && !t.members.contains(member_id)
                && (forall|k: u128| k != member_id ==> t.members.get_spec(k) == old(self).session(queue_id).unwrap().members.get_spec(k))),
            forall|k: u128| k != queue_id ==> final(self).session(k) == old(self).session(k),
    {
        match self.sessions.find(&queue_id) {
            Some(i) => {
                let mut s = self.sessions.take_at(i);
                let _ = s.members.remove(&member_id);
                self.sessions.put_at(i, s);
                Ok(())
            },
            None => Err(QueueEngineError::QueueNotFound),
        }
    }

    /// Puts a call, under the given identifier, at the end of a queue at
    /// `now`, unless the queue is full (then counted as overflowed). The
    /// calls are renumbered 1, 2, … with their waits measured at `now`; the
    /// call is handed back as it stands in the queue.
    pub fn enqueue_call_at(
        &mut self,
        queue_id: u128,
        call_id: String,
        caller: String,
        caller_name: Option<String>,
        id: u128,
        now: i64,
    ) -> (r: Result<QueuedCall, QueueEngineError>)
        requires
            old(self).wf(),
        ensures
            final(self).wf(),
            old(self).session(queue_id) is None ==> (r matches Err(e) && not_found(e) && final(self).spec_sessions().items()
                == old(self).spec_sessions().items()),
            old(self).session(queue_id) matches Some(s) ==> final(self).session(queue_id) matches Some(t) && {
                &&& t.queue == s.queue
                &&& t.members == s.members
                &&& t.active_calls == s.active_calls
                &&& if s.waiting_calls@.len() >= s.queue.max_queue_size {
                    &&& r == Err::<QueuedCall, QueueEngineError>(QueueEngineError::QueueFull)
                    &&& t.statistics == (QueueStatistics { calls_overflowed: bump(s.statistics.calls_overflowed), ..s.statistics })
                    &&& t.waiting_calls@ == s.waiting_calls@
                } else {
                    let c = QueuedCall {
                        id,
                        call_id,
                        caller,
                        caller_name,
                        queue_id,
                        enqueued_at: now,
                        position: 0,
                        wait_time_ms: 0,
                        priority: 0,
                    };
                    &&& refreshed(s.waiting_calls@.push(c), t.waiting_calls@, now)
                    &&& r == Ok::<QueuedCall, QueueEngineError>(t.waiting_calls@.last())
                    &&& t.statistics == (QueueStatistics { total_calls: bump(s.statistics.total_calls), ..s.statistics })
                }
            },
            forall|k: u128| k != queue_id ==> final(self).session(k) == old(self).session(k),
    {
        match self.sessions.find(&queue_id) {
            Some(i) => {
                let mut s = self.sessions.take_at(i);
                if s.waiting_calls.len() >= s.queue.max_queue_size {
                    s.statistics.calls_overflowed = bump_exec(s.statistics.calls_overflowed);
                    self.sessions.put_at(i, s);
                    return Err(QueueEngineError::QueueFull);
                }
                let mut c = QueuedCall::new_at(id, call_id, caller, queue_id, now);
                c.caller_name = caller_name;
                s.waiting_calls.push(c);
                s.statistics.total_calls = bump_exec(s.statistics.total_calls);
                refresh_positions(&mut s.waiting_calls, now);
                let last = s.waiting_calls.len() - 1;
                let out = s.waiting_calls[last].duplicate();
                self.sessions.put_at(i, s);
                Ok(out)
            },
            None => Err(QueueEngineError::QueueNotFound),
        }
    }

    /// Puts a call at the end of a queue now, with a fresh identifier.
    pub fn enqueue_call(&mut self, queue_id: u128, call_id: String, caller: String, caller_name: Option<String>) -> (r:
        Result<QueuedCall, QueueEngineError>)
        requires
            old(self).wf(),
        ensures
            final(self).wf(),
            old(self).session(queue_id) is None ==> (r matches Err(e) && not_found(e)),
            r matches Ok(c) ==> is_v4_uuid(c.id) && c.caller == caller,
            exists|now: i64, id: u128| #![trigger clock_reading(now), is_v4_uuid(id)] clock_reading(now) && is_v4_uuid(id) && {
                &&& (old(self).session(queue_id) is None ==> (r matches Err(e) && not_found(e) && final(self).spec_sessions().items()
                    == old(self).spec_sessions().items()))
                &&& (old(self).session(queue_id) matches Some(s) ==> final(self).session(queue_id) matches Some(t) && {
                    &&& t.queue == s.queue
                    &&& t.members == s.members
                    &&& t.active_calls == s.active_calls
                    &&& if s.waiting_calls@.len() >= s.queue.max_queue_size {
                        &&& r == Err::<QueuedCall, QueueEngineError>(QueueEngineError::QueueFull)
                        &&& t.statistics == (QueueStatistics { calls_overflowed: bump(s.statistics.calls_overflowed), ..s.statistics })
                        &&& t.waiting_calls@ == s.waiting_calls@
                    } else {
                        let c = QueuedCall {
                            id,
                            call_id,
                            caller,
                            caller_name,
                            queue_id,
                            enqueued_at: now,
                            position: 0,
                            wait_time_ms: 0,
                            priority: 0,
                        };
                        &&& refreshed(s.waiting_calls@.push(c), t.waiting_calls@, now)
                        &&& r == Ok::<QueuedCall, QueueEngineError>(t.waiting_calls@.last())
                        &&& t.statistics == (QueueStatistics { total_calls: bump(s.statistics.total_calls), ..s.statistics })
                    }
                })
                &&& (forall|k: u128| k != queue_id ==> final(self).session(k) == old(self).session(k))
            },
    {
        let now = now_millis();
        let id = new_uuid();
        proof {
            assert(clock_reading(now));
        }
        self.enqueue_call_at(queue_id, call_id, caller, caller_name, id, now)
    }

    /// The next agent of a queue by its strategy (see `select_agent`).
    pub fn get_next_agent(&mut self, queue_id: u128) -> (r: Result<Option<QueueMember>, QueueEngineError>)
        requires
            old(self).wf(),
            forall|k: u128| #[trigger] old(self).session(k) matches Some(s) ==> s.round_robin_position < usize::MAX,
        ensures
            final(self).wf(),
            old(self).session(queue_id) is None ==> (r matches Err(e) && not_found(e)),
            old(self).session(queue_id) matches Some(s) ==> r matches Ok(choice) && match choice {
                Some(m) => s.members.get_spec(m.id) == Some(m) && member_available(m),
                None => available_members(s.members.items()).len() == 0,
            },
            forall|k: u128| k != queue_id ==> final(self).session(k) == old(self).session(k),
    {
        match self.sessions.find(&queue_id) {
            Some(i) => {
                let mut s = self.sessions.take_at(i);
                proof {
                    assert(old(self).session(queue_id) == Some(s));
                }
                let chosen = s.select_agent();
                let out = match chosen {
                    Some(id) => {
                        proof {
                            let avail = available_members(s.members.items());
                            assert forall|x: int| 0 <= x < avail.len() implies s.members.get_spec(#[trigger] avail[x].id) == Some(avail[x]) && member_available(avail[x]) by {
                                lemma_available_in_store(s.members.items(), x);
                                let y = choose|y: int| 0 <= y < s.members.items().len() && s.members.items()[y] == avail[x];
                                crate::store::lemma_lookup_at(s.members.items(), y);
                            }
                            if s.queue.strategy == QueueStrategy::RoundRobin {
                                let sorted = choose|sorted: Seq<QueueMember>| #[trigger] is_id_order(avail, sorted) && chosen == Some(
                                    sorted[old(self).session(queue_id).unwrap().round_robin_position as int % avail.len() as int].id,
                                );
                                let k = old(self).session(queue_id).unwrap().round_robin_position as int % avail.len() as int;
                                sorted.to_multiset_ensures();
                                avail.to_multiset_ensures();
                                assert(sorted.contains(sorted[k]));
                                assert(avail.to_multiset().count(sorted[k]) > 0);
                                assert(avail.contains(sorted[k]));
                            }
                        }
                        match s.members.get(&id) {
                            Some(m) => Some(m.duplicate()),
                            None => None,
                        }
                    },
                    None => None,
                };
                self.sessions.put_at(i, s);
                Ok(out)
            },
            None => Err(QueueEngineError::QueueNotFound),
        }
    }
}

/// Every available agent is an agent of the store.
proof fn lemma_available_in_store(ms: Seq<QueueMember>, x: int)
    requires
        0 <= x < available_members(ms).len(),
    ensures
        exists|y: int| 0 <= y < ms.len() && ms[y] == available_members(ms)[x],
        member_available(available_members(ms)[x]),
{
    let f = |m: QueueMember| member_available(m);
    ms.lemma_filter_pred(f, x);
    assert(ms.filter(f).contains(ms.filter(f)[x]));
    ms.lemma_filter_contains_rev(f, ms.filter(f)[x]);
    assert(ms.contains(ms.filter(f)[x]));
}

/// The statistics after a call that waited `wait_ms` is answered: one more
/// answered and one more active call, one more within the threshold if the
/// wait did not pass it, the running average (while the answered count is
/// not zero) and the longest wait.
pub open spec fn stats_after_answer(st: QueueStatistics, wait_ms: u64) -> QueueStatistics {
    let answered = bump(st.calls_answered);
    QueueStatistics {
        calls_answered: answered,
        calls_active: bump_usize(st.calls_active),
        answered_within_threshold: if wait_ms <= st.service_level_threshold_ms {
            bump(st.answered_within_threshold)
        } else {
            st.answered_within_threshold
        },
        avg_wait_time_ms: if answered > 0 {
            next_avg_wait_ms(st.avg_wait_time_ms, answered, wait_ms)
        } else {
            st.avg_wait_time_ms
        },
        longest_wait_time_ms: if wait_ms > st.longest_wait_time_ms {
            wait_ms
        } else {
            st.longest_wait_time_ms
        },
        ..st
    }
}

proof fn lemma_avg_bound(a: int, w: int, n: int)
    requires
        0 <= a,
        0 <= w,
        n >= 1,
    ensures
        0 <= (a * (n - 1) + w) / n,
        (a * (n - 1) + w) / n <= if a >= w { a } else { w },
{
    let m = if a >= w { a } else { w };
    assert(a * (n - 1) + w <= m * n) by (nonlinear_arith)
        requires
            0 <= a <= m,
            0 <= w <= m,
            n >= 1,
    ;
    assert((a * (n - 1) + w) / n <= m) by (nonlinear_arith)
        requires
            a * (n - 1) + w <= m * n,
            n >= 1,
    ;
    assert(0 <= (a * (n - 1) + w) / n) by (nonlinear_arith)
        requires
            0 <= a,
            0 <= w,
            n >= 1,
    ;
}

fn next_avg_exec(avg_ms: u64, answered: u64, wait_ms: u64) -> (r: u64)
    requires
        answered > 0,
    ensures
        r == next_avg_wait_ms(avg_ms, answered, wait_ms),
{
    let a: u128 = (avg_ms / 1000) as u128;
    let w: u128 = (wait_ms / 1000) as u128;
    let n: u128 = answered as u128;
    proof {
        assert(a * (n - 1) <= (u64::MAX as int) * (u64::MAX as int)) by (nonlinear_arith)
            requires
                a <= u64::MAX,
                n - 1 <= u64::MAX,
                n >= 1,
        ;
        lemma_avg_bound(a as int, w as int, n as int);
    }
    let q: u128 = (a * (n - 1) + w) / n;
    (q * 1000) as u64
}

fn saturating_dec(x: usize) -> (r: usize)
    ensures
        r == if x > 0 { (x - 1) as usize } else { 0 },
{
    if x > 0 { x - 1 } else { 0 }
}

fn bump_usize_exec(x: usize) -> (r: usize)
    ensures
        r == bump_usize(x),
{
    if x < usize::MAX { x + 1 } else { 0 }
}

impl QueueStatistics {
    /// Counts an answered call that waited `wait_ms`.
    pub fn record_answer(&mut self, wait_ms: u64)
        ensures
            *final(self) == stats_after_answer(*old(self), wait_ms),
    {
        self.calls_answered = bump_exec(self.calls_answered);
        self.calls_active = bump_usize_exec(self.calls_active);
        if wait_ms <= self.service_level_threshold_ms {
            self.answered_within_threshold = bump_exec(self.answered_within_threshold);
        }
        if self.calls_answered > 0 {
            self.avg_wait_time_ms = next_avg_exec(self.avg_wait_time_ms, self.calls_answered, wait_ms);
        }
        if wait_ms > self.longest_wait_time_ms {
            self.longest_wait_time_ms = wait_ms;
        }
    }
}

impl CallQueueEngine {
    /// Connects a waiting call to an agent at `now`: the call leaves the
    /// waiting line (the rest renumbered, waits measured at `now`), is
    /// counted as answered, the agent (if known) becomes busy and the
    /// call is recorded against the agent.
    pub fn connect_call_at(&mut self, queue_id: u128, call_id: &str, agent_id: u128, now: i64) -> (r: Result<
        (),
        QueueEngineError,
    >)
        requires
            old(self).wf(),
        ensures
            final(self).wf(),
            forall|k: u128| k != queue_id ==> final(self).session(k) == old(self).session(k),
            match old(self).session(queue_id) {
                None => r == Err::<(), QueueEngineError>(QueueEngineError::QueueNotFound)
                    && final(self).spec_sessions().items() == old(self).spec_sessions().items(),
                Some(s) => {
                    let p = call_position(s.waiting_calls@, call_id@);
                    if p == s.waiting_calls@.len() {
                        &&& r == Err::<(), QueueEngineError>(QueueEngineError::CallNotFound)
                        &&& final(self).spec_sessions().items() == old(self).spec_sessions().items()
                    } else {
                        &&& r is Ok
                        &&& final(self).session(queue_id) matches Some(t) && {
                            &&& t.queue == s.queue
                            &&& t.round_robin_position == s.round_robin_position
                            &&& refreshed(s.waiting_calls@.remove(p), t.waiting_calls@, now)
                            &&& t.statistics == stats_after_answer(s.statistics, s.waiting_calls@[p].wait_time_ms)
                            &&& t.active_calls.get_spec(call_id@) matches Some(a) && a.member_id == agent_id
                            &&& forall|k: Seq<char>| k != call_id@ ==> t.active_calls.get_spec(k) == s.active_calls.get_spec(k)
                            &&& match s.members.get_spec(agent_id) {
                                Some(m) => t.members.get_spec(agent_id) == Some(
                                    QueueMember { status: crate::domain::call_queue::AgentStatus::Busy, ..m },
                                ),
                                None => t.members.get_spec(agent_id) is None,
                            }
                            &&& forall|k: u128| k != agent_id ==> t.members.get_spec(k) == s.members.get_spec(k)
                        }
                    }
                },
            },
    {
        let i = match self.sessions.find(&queue_id) {
            Some(i) => i,
            None => return Err(QueueEngineError::QueueNotFound),
        };
        let mut s = self.sessions.take_at(i);
        let p = find_call(&s.waiting_calls, call_id);
        proof {
            lemma_call_position(s.waiting_calls@, call_id@);
        }
        if p == s.waiting_calls.len() {
            self.sessions.put_at(i, s);
            proof {
                assert(self.sessions.items() =~= old(self).sessions.items());
            }
            return Err(QueueEngineError::CallNotFound);
        }
        let c = s.waiting_calls.remove(p);
        s.statistics.record_answer(c.wait_time_ms);
        match s.members.find(&agent_id) {
            Some(j) => {
                let mut m = s.members.take_at(j);
                m.mark_busy();
                s.members.put_at(j, m);
            },
            None => {},
        }
        s.active_calls.insert(CallAssignment { call_id: call_id.to_string(), member_id: agent_id });
        refresh_positions(&mut s.waiting_calls, now);
        self.sessions.put_at(i, s);
        Ok(())
    }

    /// Connects a waiting call to an agent now.
    pub fn connect_call(&mut self, queue_id: u128, call_id: &str, agent_id: u128) -> (r: Result<(), QueueEngineError>)
        requires
            old(self).wf(),
        ensures
            final(self).wf(),
            forall|k: u128| k != queue_id ==> final(self).session(k) == old(self).session(k),
            old(self).session(queue_id) is None ==> r == Err::<(), QueueEngineError>(QueueEngineError::QueueNotFound),
            old(self).session(queue_id) matches Some(s) ==> (r is Ok <==> call_position(s.waiting_calls@, call_id@)
                < s.waiting_calls@.len()),
            exists|now: i64| #[trigger] clock_reading(now) && {
                &&& (forall|k: u128| k != queue_id ==> final(self).session(k) == old(self).session(k))
                &&& (match old(self).session(queue_id) {
                    None => r == Err::<(), QueueEngineError>(QueueEngineError::QueueNotFound)
                        && final(self).spec_sessions().items() == old(self).spec_sessions().items(),
                    Some(s) => {
                        let p = call_position(s.waiting_calls@, call_id@);
                        if p == s.waiting_calls@.len() {
                            &&& r == Err::<(), QueueEngineError>(QueueEngineError::CallNotFound)
                            &&& final(self).spec_sessions().items() == old(self).spec_sessions().items()
                        } else {
                            &&& r is Ok
                            &&& final(self).session(queue_id) matches Some(t) && {
                                &&& t.queue == s.queue
                                &&& t.round_robin_position == s.round_robin_position
                                &&& refreshed(s.waiting_calls@.remove(p), t.waiting_calls@, now)
                                &&& t.statistics == stats_after_answer(s.statistics, s.waiting_calls@[p].wait_time_ms)
                                &&& t.active_calls.get_spec(call_id@) matches Some(a) && a.member_id == agent_id
                                &&& forall|k: Seq<char>| k != call_id@ ==> t.active_calls.get_spec(k) == s.active_calls.get_spec(k)
                                &&& match s.members.get_spec(agent_id) {
                                    Some(m) => t.members.get_spec(agent_id) == Some(
                                        QueueMember { status: crate::domain::call_queue::AgentStatus::Busy, ..m },
                                    ),
                                    None => t.members.get_spec(agent_id) is None,
                                }
                                &&& forall|k: u128| k != agent_id ==> t.members.get_spec(k) == s.members.get_spec(k)
                            }
                        }
                    },
                })
            },
    {
        let now = now_millis();
        proof {
            if let Some(s) = self.session(queue_id) {
                lemma_call_position(s.waiting_calls@, call_id@);
            }
        }
        proof {
            assert(clock_reading(now));
        }
        self.connect_call_at(queue_id, call_id, agent_id, now)
    }
}

/// An agent can count one more answered call of `talk_ms` wherever a
/// call of the queue is connected to it.
pub open spec fn end_call_fits(s: QueueSession, call_id: Seq<char>, talk_ms: u64) -> bool {
    s.active_calls.get_spec(call_id) matches Some(a) ==> (s.members.get_spec(a.member_id) matches Some(m)
        ==> can_record_answer(m, talk_ms))
}

impl CallQueueEngine {
    /// Ends a connected call at `now` after `talk_time_ms` of talk: the
    /// agent (if known) counts an answered call and becomes available, and
    /// the active count drops (not below zero).
    pub fn end_call_at(&mut self, queue_id: u128, call_id: &str, talk_time_ms: u64, now: i64) -> (r: Result<
        (),
        QueueEngineError,
    >)
        requires
            old(self).wf(),
            old(self).session(queue_id) matches Some(s) ==> end_call_fits(s, call_id@, talk_time_ms),
        ensures
            final(self).wf(),
            forall|k: u128| k != queue_id ==> final(self).session(k) == old(self).session(k),
            match old(self).session(queue_id) {
                None => r == Err::<(), QueueEngineError>(QueueEngineError::QueueNotFound)
                    && final(self).spec_sessions().items() == old(self).spec_sessions().items(),
                Some(s) => match s.active_calls.get_spec(call_id@) {
                    None => r == Err::<(), QueueEngineError>(QueueEngineError::CallNotFound)
                        && final(self).spec_sessions().items() == old(self).spec_sessions().items(),
                    Some(a) => {
                        &&& r is Ok
                        &&& final(self).session(queue_id) matches Some(t) && {
                            &&& t.queue == s.queue
                            &&& t.round_robin_position == s.round_robin_position
                            &&& t.waiting_calls@ == s.waiting_calls@
                            &&& t.statistics == (QueueStatistics {
                                calls_active: if s.statistics.calls_active > 0 {
                                    (s.statistics.calls_active - 1) as usize
                                } else {
                                    0
                                },
                                ..s.statistics
                            })
                            &&& !t.active_calls.contains(call_id@)
                            &&& forall|k: Seq<char>| k != call_id@ ==> t.active_calls.get_spec(k) == s.active_calls.get_spec(k)
                            &&& match s.members.get_spec(a.member_id) {
                                Some(m) => t.members.get_spec(a.member_id) == Some(
                                    QueueMember {
                                        total_calls: (m.total_calls + 1) as u64,
                                        answered_calls: (m.answered_calls + 1) as u64,
                                        total_talk_time_ms: (m.total_talk_time_ms + talk_time_ms) as u64,
                                        last_call_time: Some(now),
                                        status: crate::domain::call_queue::AgentStatus::Available,
                                        ..m
                                    },
                                ),
                                None => t.members.get_spec(a.member_id) is None,
                            }
                            &&& forall|k: u128| k != a.member_id ==> t.members.get_spec(k) == s.members.get_spec(k)
                        }
                    },
                },
            },
    {
        let i = match self.sessions.find(&queue_id) {
            Some(i) => i,
            None => return Err(QueueEngineError::QueueNotFound),
        };
        let mut s = self.sessions.take_at(i);
        if s.active_calls.find(call_id).is_none() {
            self.sessions.put_at(i, s);
            proof {
                assert(self.sessions.items() =~= old(self).sessions.items());
            }
            return Err(QueueEngineError::CallNotFound);
        }
        let a = match s.active_calls.remove(call_id) {
            Some(a) => a,
            None => {
                self.sessions.put_at(i, s);
                return Err(QueueEngineError::CallNotFound);
            },
        };
        match s.members.find(&a.member_id) {
            Some(j) => {
                let mut m = s.members.take_at(j);
                m.record_answered_at(talk_time_ms, now);
                m.mark_available();
                s.members.put_at(j, m);
            },
            None => {},
        }
        s.statistics.calls_active = saturating_dec(s.statistics.calls_active);
        self.sessions.put_at(i, s);
        Ok(())
    }

    /// Ends a connected call now.
    pub fn end_call(&mut self, queue_id: u128, call_id: &str, talk_time_ms: u64) -> (r: Result<(), QueueEngineError>)
        requires
            old(self).wf(),
            old(self).session(queue_id) matches Some(s) ==> end_call_fits(s, call_id@, talk_time_ms),
        ensures
            final(self).wf(),
            forall|k: u128| k != queue_id ==> final(self).session(k) == old(self).session(k),
            old(self).session(queue_id) is None ==> r == Err::<(), QueueEngineError>(QueueEngineError::QueueNotFound),
            old(self).session(queue_id) matches Some(s) ==> (r is Ok <==> s.active_calls.contains(call_id@)),
            exists|now: i64| #[trigger] clock_reading(now) && {
                &&& (forall|k: u128| k != queue_id ==> final(self).session(k) == old(self).session(k))
                &&& (match old(self).session(queue_id) {
                    None => r == Err::<(), QueueEngineError>(QueueEngineError::QueueNotFound)
                        && final(self).spec_sessions().items() == old(self).spec_sessions().items(),
                    Some(s) => match s.active_calls.get_spec(call_id@) {
                        None => r == Err::<(), QueueEngineError>(QueueEngineError::CallNotFound)
                            && final(self).spec_sessions().items() == old(self).spec_sessions().items(),
                        Some(a) => {
                            &&& r is Ok
                            &&& final(self).session(queue_id) matches Some(t) && {
                                &&& t.queue == s.queue
                                &&& t.round_robin_position == s.round_robin_position
                                &&& t.waiting_calls@ == s.waiting_calls@
                                &&& t.statistics == (QueueStatistics {
                                    calls_active: if s.statistics.calls_active > 0 {
                                        (s.statistics.calls_active - 1) as usize
                                    } else {
                                        0
                                    },
                                    ..s.statistics
                                })
                                &&& !t.active_calls.contains(call_id@)
                                &&& forall|k: Seq<char>| k != call_id@ ==> t.active_calls.get_spec(k) == s.active_calls.get_spec(k)
                                &&& match s.members.get_spec(a.member_id) {
                                    Some(m) => t.members.get_spec(a.member_id) == Some(
                                        QueueMember {
                                            total_calls: (m.total_calls + 1) as u64,
                                            answered_calls: (m.answered_calls + 1) as u64,
                                            total_talk_time_ms: (m.total_talk_time_ms + talk_time_ms) as u64,
                                            last_call_time: Some(now),
                                            status: crate::domain::call_queue::AgentStatus::Available,
                                            ..m
                                        },
                                    ),
                                    None => t.members.get_spec(a.member_id) is None,
                                }
                                &&& forall|k: u128| k != a.member_id ==> t.members.get_spec(k) == s.members.get_spec(k)
                            }
                        },
                    },
                })
            },
    {
        let now = now_millis();
        proof {
            assert(clock_reading(now));
        }
        self.end_call_at(queue_id, call_id, talk_time_ms, now)
    }

    /// A caller hangs up while waiting, at `now`: the call leaves the
    /// waiting line (the rest renumbered, waits measured at `now`) and is
    /// counted as abandoned.
    pub fn abandon_call_at(&mut self, queue_id: u128, call_id: &str, now: i64) -> (r: Result<(), QueueEngineError>)
        requires
            old(self).wf(),
        ensures
            final(self).wf(),
            forall|k: u128| k != queue_id ==> final(self).session(k) == old(self).session(k),
            match old(self).session(queue_id) {
                None => r == Err::<(), QueueEngineError>(QueueEngineError::QueueNotFound)
                    && final(self).spec_sessions().items() == old(self).spec_sessions().items(),
                Some(s) => {
                    let p = call_position(s.waiting_calls@, call_id@);
                    if p == s.waiting_calls@.len() {
                        &&& r == Err::<(), QueueEngineError>(QueueEngineError::CallNotFound)
                        &&& final(self).spec_sessions().items() == old(self).spec_sessions().items()
                    } else {
                        &&& r is Ok
                        &&& final(self).session(queue_id) matches Some(t) && {
                            &&& t.queue == s.queue
                            &&& t.members == s.members
                            &&& t.active_calls == s.active_calls
                            &&& t.round_robin_position == s.round_robin_position
                            &&& refreshed(s.waiting_calls@.remove(p), t.waiting_calls@, now)
                            &&& t.statistics == (QueueStatistics {
                                calls_abandoned: bump(s.statistics.calls_abandoned),
                                ..s.statistics
                            })
                        }
                    }
                },
            },
    {
        let i = match self.sessions.find(&queue_id) {
            Some(i) => i,
            None => return Err(QueueEngineError::QueueNotFound),
        };
        let mut s = self.sessions.take_at(i);
        let p = find_call(&s.waiting_calls, call_id);
        proof {
            lemma_call_position(s.waiting_calls@, call_id@);
        }
        if p == s.waiting_calls.len() {
            self.sessions.put_at(i, s);
            proof {
                assert(self.sessions.items() =~= old(self).sessions.items());
            }
            return Err(QueueEngineError::CallNotFound);
        }
        let _ = s.waiting_calls.remove(p);
        s.statistics.calls_abandoned = bump_exec(s.statistics.calls_abandoned);
        refresh_positions(&mut s.waiting_calls, now);
        self.sessions.put_at(i, s);
        Ok(())
    }

    /// A caller hangs up while waiting, now.
    pub fn abandon_call(&mut self, queue_id: u128, call_id: &str) -> (r: Result<(), QueueEngineError>)
        requires
            old(self).wf(),
        ensures
            final(self).wf(),
            forall|k: u128| k != queue_id ==> final(self).session(k) == old(self).session(k),
            old(self).session(queue_id) is None ==> r == Err::<(), QueueEngineError>(QueueEngineError::QueueNotFound),
            old(self).session(queue_id) matches Some(s) ==> (r is Ok <==> call_position(s.waiting_calls@, call_id@)
                < s.waiting_calls@.len()),
            exists|now: i64| #[trigger] clock_reading(now) && {
                &&& (forall|k: u128| k != queue_id ==> final(self).session(k) == old(self).session(k))
                &&& (match old(self).session(queue_id) {
                    None => r == Err::<(), QueueEngineError>(QueueEngineError::QueueNotFound)
                        && final(self).spec_sessions().items() == old(self).spec_sessions().items(),
                    Some(s) => {
                        let p = call_position(s.waiting_calls@, call_id@);
                        if p == s.waiting_calls@.len() {
                            &&& r == Err::<(), QueueEngineError>(QueueEngineError::CallNotFound)
                            &&& final(self).spec_sessions().items() == old(self).spec_sessions().items()
                        } else {
                            &&& r is Ok
                            &&& final(self).session(queue_id) matches Some(t) && {
                                &&& t.queue == s.queue
                                &&& t.members == s.members
                                &&& t.active_calls == s.active_calls
                                &&& t.round_robin_position == s.round_robin_position
                                &&& refreshed(s.waiting_calls@.remove(p), t.waiting_calls@, now)
                                &&& t.statistics == (QueueStatistics {
                                    calls_abandoned: bump(s.statistics.calls_abandoned),
                                    ..s.statistics
                                })
                            }
                        }
                    },
                })
            },
    {
        let now = now_millis();
        proof {
            if let Some(s) = self.session(queue_id) {
                lemma_call_position(s.waiting_calls@, call_id@);
            }
        }
        proof {
            assert(clock_reading(now));
        }
        self.abandon_call_at(queue_id, call_id, now)
    }

    /// A queue's statistics, with the count of waiting calls and their mean
    /// wait.
    pub fn get_statistics(&self, queue_id: u128) -> (r: Result<QueueStatistics, QueueEngineError>)
        requires
            self.wf(),
        ensures
            match self.session(queue_id) {
                None => r == Err::<QueueStatistics, QueueEngineError>(QueueEngineError::QueueNotFound),
                Some(s) => r == Ok::<QueueStatistics, QueueEngineError>(
                    QueueStatistics {
                        calls_waiting: s.waiting_calls@.len() as usize,
                        avg_wait_time_ms: mean_wait(s.waiting_calls@) as u64,
                        ..s.statistics
                    },
                ),
            },
    {
        match self.sessions.get(&queue_id) {
            Some(s) => {
                let mut st = s.statistics;
                st.calls_waiting = s.waiting_calls.len();
                st.avg_wait_time_ms = s.calculate_avg_wait_time_ms();
                Ok(st)
            },
            None => Err(QueueEngineError::QueueNotFound),
        }
    }

    /// The position of a waiting call.
    pub fn get_position(&self, queue_id: u128, call_id: &str) -> (r: Result<usize, QueueEngineError>)
        requires
            self.wf(),
        ensures
            match self.session(queue_id) {
                None => r == Err::<usize, QueueEngineError>(QueueEngineError::QueueNotFound),
                Some(s) => {
                    let p = call_position(s.waiting_calls@, call_id@);
                    if p == s.waiting_calls@.len() {
                        r == Err::<usize, QueueEngineError>(QueueEngineError::CallNotFound)
                    } else {
                        r == Ok::<usize, QueueEngineError>(s.waiting_calls@[p].position)
                    }
                },
            },
    {
        match self.sessions.get(&queue_id) {
            Some(s) => {
                let p = find_call(&s.waiting_calls, call_id);
                proof {
                    lemma_call_position(s.waiting_calls@, call_id@);
                }
                if p == s.waiting_calls.len() {
                    Err(QueueEngineError::CallNotFound)
                } else {
                    Ok(s.waiting_calls[p].position)
                }
            },
            None => Err(QueueEngineError::QueueNotFound),
        }
    }

    /// Copies of a queue's waiting calls, in order.
    pub fn get_waiting_calls(&self, queue_id: u128) -> (r: Result<Vec<QueuedCall>, QueueEngineError>)
        requires
            self.wf(),
        ensures
            match self.session(queue_id) {
                None => r == Err::<Vec<QueuedCall>, QueueEngineError>(QueueEngineError::QueueNotFound),
                Some(s) => r matches Ok(v) && v@ == s.waiting_calls@,
            },
    {
        match self.sessions.get(&queue_id) {
            Some(s) => {
                let mut out: Vec<QueuedCall> = Vec::new();
                let mut i: usize = 0;
                while i < s.waiting_calls.len()
                    invariant
                        i <= s.waiting_calls@.len(),
                        out@ == s.waiting_calls@.take(i as int),
                    decreases s.waiting_calls@.len() - i,
                {
                    out.push(s.waiting_calls[i].duplicate());
                    i = i + 1;
                    assert(out@ =~= s.waiting_calls@.take(i as int));
                }
                assert(s.waiting_calls@.take(i as int) =~= s.waiting_calls@);
                Ok(out)
            },
            None => Err(QueueEngineError::QueueNotFound),
        }
    }

    /// The number of available agents of a queue.
    pub fn get_available_agents(&self, queue_id: u128) -> (r: Result<usize, QueueEngineError>)
        requires
            self.wf(),
        ensures
            match self.session(queue_id) {
                None => r == Err::<usize, QueueEngineError>(QueueEngineError::QueueNotFound),
                Some(s) => r == Ok::<usize, QueueEngineError>(available_members(s.members.items()).len() as usize),
            },
    {
        match self.sessions.get(&queue_id) {
            Some(s) => Ok(collect_available(&s.members).len()),
            None => Err(QueueEngineError::QueueNotFound),
        }
    }

    /// The music-on-hold file name of a queue, if it has one.
    pub fn music_on_hold(&self, queue_id: u128) -> (r: Result<Option<String>, QueueEngineError>)
        requires
            self.wf(),
        ensures
            match self.session(queue_id) {
                None => r == Err::<Option<String>, QueueEngineError>(QueueEngineError::QueueNotFound),
                Some(s) => r == Ok::<Option<String>, QueueEngineError>(s.queue.music_on_hold),
            },
    {
        match self.sessions.get(&queue_id) {
            Some(s) => match &s.queue.music_on_hold {
                Some(name) => Ok(Some(name.clone())),
                None => Ok(None),
            },
            None => Err(QueueEngineError::QueueNotFound),
        }
    }

    /// A music-on-hold player for a queue, given the audio held under the
    /// queue's music-on-hold file name (`None` where there is no such audio):
    /// looping, not interruptible, 20 ms frames, loaded and playing. None
    /// when the queue has no music on hold or no audio was found.
    pub fn create_moh_player(&self, queue_id: u128, moh_audio: Option<Arc<WavFile>>) -> (r: Result<
        Option<StreamingAudioPlayer>,
        QueueEngineError,
    >)
        requires
            self.wf(),
        ensures
            match self.session(queue_id) {
                None => r matches Err(e) && not_found(e),
                Some(s) => match (s.queue.music_on_hold, moh_audio) {
                    (Some(_), Some(audio)) => r matches Ok(Some(p)) && p@ == spec_play(
                        spec_load(
                            spec_fresh(
                                PlaybackOptions { frame_duration_ms: 20, loop_playback: true, allow_interrupt: false },
                            ),
                            *audio,
                        ),
                    ),
                    _ => r matches Ok(None),
                },
            },
    {
        match self.sessions.get(&queue_id) {
            Some(s) => {
                if s.queue.music_on_hold.is_some() {
                    match moh_audio {
                        Some(audio) => {
                            let mut player = StreamingAudioPlayer::with_options(
                                PlaybackOptions { frame_duration_ms: 20, loop_playback: true, allow_interrupt: false },
                            );
                            player.load(audio);
                            player.play();
                            Ok(Some(player))
                        },
                        None => Ok(None),
                    }
                } else {
                    Ok(None)
                }
            },
            None => Err(QueueEngineError::QueueNotFound),
        }
    }
}

impl Default for CallQueueEngine {
    fn default() -> (r: Self)
        ensures
            r.wf(),
            r.spec_sessions().items().len() == 0,
    {
        CallQueueEngine::new()
    }
}

/// A running queue never holds more waiting calls than its maximum size:
/// a full queue refuses calls, and nothing else adds one.
pub proof fn law_queue_never_overfull(engine: CallQueueEngine, queue_id: u128)
    requires
        engine.wf(),
    ensures
        engine.session(queue_id) matches Some(s) ==> s.waiting_calls@.len() <= s.queue.max_queue_size,
{
    if let Some(s) = engine.session(queue_id) {
        let items = engine.spec_sessions().items();
        let i = choose|i: int| 0 <= i < items.len() && (#[trigger] items[i]).key() == queue_id;
        assert(items[i].inv());
    }
}

} // verus!
