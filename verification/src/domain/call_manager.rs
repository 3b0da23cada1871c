//! Active call management and monitoring: real-time call tracking, call
//! control and statistics for operational dashboards.
use vstd::prelude::*;
use crate::domain::shared::system::{clock_reading, elapsed_seconds, is_v4_uuid, new_uuid, now_millis, seconds_between};
use crate::store::{lemma_lookup_absent, lemma_lookup_at, KeyOf, Keyed, Store};
use crate::text::{join3, str_eq};

verus! {

/// Call state enumeration.
#[derive(Debug, Clone, Copy, PartialEq, Eq, Structural)]
pub enum CallState {
    /// Call is being initiated
    Initiating,
    /// Ringing (180 Ringing sent)
    Ringing,
    /// Call is active/connected
    Active,
    /// Call is on hold
    OnHold,
    /// Call is being transferred
    Transferring,
    /// Call is terminating
    Terminating,
    /// Call has ended
    Terminated,
}

impl CallState {
    /// Text of the state.
    pub open spec fn label(self) -> Seq<char> {
        match self {
            CallState::Initiating => "initiating"@,
            CallState::Ringing => "ringing"@,
            CallState::Active => "active"@,
            CallState::OnHold => "on_hold"@,
            CallState::Transferring => "transferring"@,
            CallState::Terminating => "terminating"@,
            CallState::Terminated => "terminated"@,
        }
    }

    /// Whether a call in this state is in progress.
    pub open spec fn spec_is_active(self) -> bool {
        self is Active || self is OnHold || self is Transferring
    }

    /// Text of the state.
    pub fn as_str(&self) -> (r: &'static str)
        ensures
            r@ == self.label(),
    {
        match self {
            CallState::Initiating => "initiating",
            CallState::Ringing => "ringing",
            CallState::Active => "active",
            CallState::OnHold => "on_hold",
            CallState::Transferring => "transferring",
            CallState::Terminating => "terminating",
            CallState::Terminated => "terminated",
        }
    }

    /// Whether the call is active, on hold or being transferred.
    pub fn is_active(&self) -> (r: bool)
        ensures
            r == self.spec_is_active(),
    {
        match self {
            CallState::Active | CallState::OnHold | CallState::Transferring => true,
            _ => false,
        }
    }
}

/// Call direction.
#[derive(Debug, Clone, Copy, PartialEq, Eq, Structural)]
pub enum CallDirection {
    Inbound,
    Outbound,
    Internal,
}

/// Whole seconds from `earlier` to `later` (milliseconds) as an unsigned
/// count: a negative span wraps as the cast of a signed count does.
pub open spec fn unsigned_seconds(later: i64, earlier: i64) -> u64 {
    (seconds_between(later, earlier) as i64) as u64
}

/// The texts of a sequence of strings.
pub open spec fn texts_of(v: Seq<String>) -> Seq<Seq<char>> {
    v.map_values(|t: String| t@)
}

/// Active call information.
#[derive(Debug, Clone)]
pub struct ActiveCall {
    pub id: u128,
    pub call_id: String,
    pub state: CallState,
    pub direction: CallDirection,
    pub caller: String,
    pub caller_name: Option<String>,
    pub callee: String,
    pub callee_name: Option<String>,
    /// When the call started (milliseconds since the epoch)
    pub started_at: i64,
    /// When the call was answered (milliseconds since the epoch)
    pub answered_at: Option<i64>,
    pub duration_seconds: u64,
    pub codec: String,
    pub caller_ip: Option<String>,
    pub callee_ip: Option<String>,
    /// Mean opinion score in hundredths (4.25 is 425)
    pub quality_mos: Option<u32>,
    pub is_recording: bool,
    pub is_on_hold: bool,
    pub queue_id: Option<u128>,
    pub conference_id: Option<u128>,
    pub tags: Vec<String>,
}

impl Keyed for ActiveCall {
    type Key = str;

    open spec fn key(&self) -> Seq<char> {
        self.call_id@
    }

    open spec fn inv(&self) -> bool {
        true
    }

    fn key_ref(&self) -> (r: &str) {
        let r = self.call_id.as_str();
        assert(r.kv() == r@);
        r
    }
}

fn copy_opt(s: &Option<String>) -> (r: Option<String>)
    ensures
        r == *s,
{
    match s {
        Some(v) => Some(v.clone()),
        None => None,
    }
}

fn copy_strings(v: &Vec<String>) -> (r: Vec<String>)
    ensures
        r@ == v@,
{
    let mut out: Vec<String> = Vec::new();
    let mut i: usize = 0;
    while i < v.len()
        invariant
            i <= v@.len(),
            out@ == v@.take(i as int),
        decreases v.len() - i,
    {
        out.push(v[i].clone());
        assert(v@.take(i as int).push(v@[i as int]) =~= v@.take(i + 1));
        i = i + 1;
    }
    assert(v@.take(i as int) =~= v@);
    out
}

impl ActiveCall {
    /// The seconds the call has lasted by `now`: since the answer if it was
    /// answered, else since it started.
    pub open spec fn duration_at(self, now: i64) -> u64 {
        match self.answered_at {
            Some(a) => unsigned_seconds(now, a),
            None => unsigned_seconds(now, self.started_at),
        }
    }

    /// A call in the initiating state, started at `now`.
    pub open spec fn fresh(self, call_id: Seq<char>, direction: CallDirection, caller: Seq<char>, callee: Seq<char>, now: i64) -> bool {
        &&& self.call_id@ == call_id
        &&& self.state == CallState::Initiating
        &&& self.direction == direction
        &&& self.caller@ == caller
        &&& self.caller_name is None
        &&& self.callee@ == callee
        &&& self.callee_name is None
        &&& self.started_at == now
        &&& self.answered_at is None
        &&& self.duration_seconds == 0
        &&& self.codec@ == "PCMU"@
        &&& self.caller_ip is None
        &&& self.callee_ip is None
        &&& self.quality_mos is None
        &&& !self.is_recording
        &&& !self.is_on_hold
        &&& self.queue_id is None
        &&& self.conference_id is None
        &&& self.tags@.len() == 0
        &&& is_v4_uuid(self.id)
    }

    /// A new call in the initiating state, started at `now` (milliseconds).
    pub fn new_at(call_id: String, direction: CallDirection, caller: String, callee: String, now: i64) -> (r: Self)
        ensures
            r.fresh(call_id@, direction, caller@, callee@, now),
    {
        ActiveCall {
            id: new_uuid(),
            call_id,
            state: CallState::Initiating,
            direction,
            caller,
            caller_name: None,
            callee,
            callee_name: None,
            started_at: now,
            answered_at: None,
            duration_seconds: 0,
            codec: String::from_str("PCMU"),
            caller_ip: None,
            callee_ip: None,
            quality_mos: None,
            is_recording: false,
            is_on_hold: false,
            queue_id: None,
            conference_id: None,
            tags: Vec::new(),
        }
    }

    /// A new call in the initiating state, started now.
    pub fn new(call_id: String, direction: CallDirection, caller: String, callee: String) -> (r: Self)
        ensures
            r.fresh(call_id@, direction, caller@, callee@, r.started_at),
    {
        Self::new_at(call_id, direction, caller, callee, now_millis())
    }

    /// Marks the call answered at `now`.
    pub fn answer_at(&mut self, now: i64)
        ensures
            *final(self) == (ActiveCall { state: CallState::Active, answered_at: Some(now), ..*old(self) }),
    {
        self.state = CallState::Active;
        self.answered_at = Some(now);
    }

    /// Marks the call answered now.
    pub fn answer(&mut self)
        ensures
            final(self).state == CallState::Active,
            final(self).answered_at is Some,
            exists|now: i64| #[trigger] clock_reading(now) && {
                &&& (*final(self) == (ActiveCall { state: CallState::Active, answered_at: Some(now), ..*old(self) }))
            },
    {
        let now = now_millis();
        proof {
            assert(clock_reading(now));
        }
        self.answer_at(now);
    }

    /// Sets the duration to the seconds lasted by `now`.
    pub fn update_duration_at(&mut self, now: i64)
        ensures
            *final(self) == (ActiveCall { duration_seconds: old(self).duration_at(now), ..*old(self) }),
    {
        let since = match self.answered_at {
            Some(a) => a,
            None => self.started_at,
        };
        let secs = elapsed_seconds(now, since);
        self.duration_seconds = secs as u64;
    }

    /// Sets the duration to the seconds lasted by the clock.
    pub fn update_duration(&mut self) {
        self.update_duration_at(now_millis());
    }

    /// Seconds since the call started (setup included), not below zero, by `now`.
    pub fn total_duration_at(&self, now: i64) -> (r: u64)
        ensures
            r == if seconds_between(now, self.started_at) > 0 {
                seconds_between(now, self.started_at)
            } else {
                0
            },
    {
        let s = elapsed_seconds(now, self.started_at);
        if s > 0 {
            s as u64
        } else {
            0
        }
    }

    /// Seconds since the call started (setup included), by the clock.
    pub fn get_total_duration(&self) -> u64 {
        self.total_duration_at(now_millis())
    }

    /// Seconds since the answer, not below zero, at `now`; none if unanswered.
    pub open spec fn talk_time_spec(&self, now: i64) -> Option<u64> {
        match self.answered_at {
            Some(a) => Some(
                if seconds_between(now, a) > 0 {
                    seconds_between(now, a) as u64
                } else {
                    0u64
                },
            ),
            None => None,
        }
    }

    /// Seconds since the answer, not below zero, by `now`; none if unanswered.
    pub fn talk_time_at(&self, now: i64) -> (r: Option<u64>)
        ensures
            r == match self.answered_at {
                Some(a) => Some(
                    if seconds_between(now, a) > 0 {
                        seconds_between(now, a) as u64
                    } else {
                        0u64
                    },
                ),
                None => None,
            },
    {
        match self.answered_at {
            Some(a) => {
                let s = elapsed_seconds(now, a);
                Some(
                    if s > 0 {
                        s as u64
                    } else {
                        0
                    },
                )
            },
            None => None,
        }
    }

    /// Seconds since the answer, by the clock; none if unanswered.
    pub fn get_talk_time(&self) -> (r: Option<u64>)
        ensures
            r is Some <==> self.answered_at is Some,
            exists|now: i64| r == #[trigger] self.talk_time_spec(now),
    {
        let now = now_millis();
        let r = self.talk_time_at(now);
        assert(r == self.talk_time_spec(now));
        r
    }

    /// Adds a tag unless it is already there.
    pub fn add_tag(&mut self, tag: String)
        ensures
            texts_of(final(self).tags@) == if texts_of(old(self).tags@).contains(tag@) {
                texts_of(old(self).tags@)
            } else {
                texts_of(old(self).tags@).push(tag@)
            },
            *final(self) == (ActiveCall { tags: final(self).tags, ..*old(self) }),
    {
        let mut i: usize = 0;
        while i < self.tags.len()
            invariant
                i <= self.tags@.len(),
                forall|j: int| 0 <= j < i ==> self.tags@[j]@ != tag@,
            decreases self.tags.len() - i,
        {
            if str_eq(self.tags[i].as_str(), tag.as_str()) {
                assert(texts_of(self.tags@)[i as int] == tag@);
                return;
            }
            i = i + 1;
        }
        assert(!texts_of(self.tags@).contains(tag@)) by {
            if texts_of(self.tags@).contains(tag@) {
                let j = choose|j: int| 0 <= j < texts_of(self.tags@).len() && #[trigger] texts_of(self.tags@)[j] == tag@;
                assert(self.tags@[j]@ == tag@);
            }
        }
        let ghost before = self.tags@;
        let ghost tv = tag@;
        self.tags.push(tag);
        assert(texts_of(self.tags@) =~= texts_of(before).push(tv));
    }

    /// A copy of the call.
    pub fn duplicate(&self) -> (r: Self)
        ensures
            r.id == self.id,
            r.call_id == self.call_id,
            r.state == self.state,
            r.direction == self.direction,
            r.caller == self.caller,
            r.caller_name == self.caller_name,
            r.callee == self.callee,
            r.callee_name == self.callee_name,
            r.started_at == self.started_at,
            r.answered_at == self.answered_at,
            r.duration_seconds == self.duration_seconds,
            r.codec == self.codec,
            r.caller_ip == self.caller_ip,
            r.callee_ip == self.callee_ip,
            r.quality_mos == self.quality_mos,
            r.is_recording == self.is_recording,
            r.is_on_hold == self.is_on_hold,
            r.queue_id == self.queue_id,
            r.conference_id == self.conference_id,
            r.tags@ == self.tags@,
    {
        ActiveCall {
            id: self.id,
            call_id: self.call_id.clone(),
            state: self.state,
            direction: self.direction,
            caller: self.caller.clone(),
            caller_name: copy_opt(&self.caller_name),
            callee: self.callee.clone(),
            callee_name: copy_opt(&self.callee_name),
            started_at: self.started_at,
            answered_at: self.answered_at,
            duration_seconds: self.duration_seconds,
            codec: self.codec.clone(),
            caller_ip: copy_opt(&self.caller_ip),
            callee_ip: copy_opt(&self.callee_ip),
            quality_mos: self.quality_mos,
            is_recording: self.is_recording,
            is_on_hold: self.is_on_hold,
            queue_id: self.queue_id,
            conference_id: self.conference_id,
            tags: copy_strings(&self.tags),
        }
    }
}

/// Two calls agree on every field.
pub open spec fn same_call(a: ActiveCall, b: ActiveCall) -> bool {
    &&& a.id == b.id
    &&& a.call_id == b.call_id
    &&& a.state == b.state
    &&& a.direction == b.direction
    &&& a.caller == b.caller
    &&& a.caller_name == b.caller_name
    &&& a.callee == b.callee
    &&& a.callee_name == b.callee_name
    &&& a.started_at == b.started_at
    &&& a.answered_at == b.answered_at
    &&& a.duration_seconds == b.duration_seconds
    &&& a.codec == b.codec
    &&& a.caller_ip == b.caller_ip
    &&& a.callee_ip == b.callee_ip
    &&& a.quality_mos == b.quality_mos
    &&& a.is_recording == b.is_recording
    &&& a.is_on_hold == b.is_on_hold
    &&& a.queue_id == b.queue_id
    &&& a.conference_id == b.conference_id
    &&& a.tags@ == b.tags@
}

/// Two sequences of calls agree call by call.
pub open spec fn same_calls(a: Seq<ActiveCall>, b: Seq<ActiveCall>) -> bool {
    a.len() == b.len() && forall|i: int| 0 <= i < a.len() ==> same_call(#[trigger] a[i], b[i])
}

/// Call statistics aggregation (whole-number parts; averages are the totals
/// divided by the counts).
#[derive(Debug, Clone, Copy, PartialEq, Eq, Structural)]
pub struct CallStatistics {
    pub total_active_calls: usize,
    pub inbound_calls: usize,
    pub outbound_calls: usize,
    pub internal_calls: usize,
    pub calls_ringing: usize,
    pub calls_on_hold: usize,
    pub calls_recording: usize,
    pub calls_in_queue: usize,
    pub calls_in_conference: usize,
    /// Sum of the calls' durations
    pub total_duration_seconds: u128,
    pub longest_call_seconds: u64,
    /// Sum of the known quality scores, in hundredths
    pub total_mos_hundredths: u128,
    /// Number of calls with a known quality score
    pub mos_samples: usize,
}

/// Call control action.
#[derive(Debug, Clone)]
pub enum CallControlAction {
    /// Hangup the call
    Hangup { reason: String },
    /// Put call on hold
    Hold,
    /// Resume call from hold
    Resume,
    /// Transfer call to another party
    Transfer { target: String },
    /// Start recording
    StartRecording,
    /// Stop recording
    StopRecording,
    /// Mute a party
    Mute { party: String },
    /// Unmute a party
    Unmute { party: String },
}

/// Call control result.
#[derive(Debug, Clone)]
pub struct CallControlResult {
    pub success: bool,
    pub message: String,
    pub call_id: String,
}

/// The message of a missing call.
pub open spec fn not_found(call_id: Seq<char>) -> Seq<char> {
    "Call "@ + call_id + " not found"@
}

fn not_found_msg(call_id: &str) -> (r: String)
    ensures
        r@ == not_found(call_id@),
{
    join3("Call ", call_id, " not found")
}

/// A call after its state is set to `st` at `now`: a first move to Active
/// also records the answer.
pub open spec fn with_state(c: ActiveCall, st: CallState, now: i64) -> ActiveCall {
    if st == CallState::Active && c.answered_at is None {
        ActiveCall { state: CallState::Active, answered_at: Some(now), ..c }
    } else {
        ActiveCall { state: st, ..c }
    }
}

/// A call put on hold (`on`) or taken off hold.
pub open spec fn with_hold(c: ActiveCall, on: bool) -> ActiveCall {
    ActiveCall {
        is_on_hold: on,
        state: if on {
            CallState::OnHold
        } else if c.state == CallState::OnHold {
            CallState::Active
        } else {
            c.state
        },
        ..c
    }
}

/// A call ended at `now`.
pub open spec fn ended(c: ActiveCall, now: i64) -> ActiveCall {
    ActiveCall { state: CallState::Terminated, duration_seconds: c.duration_at(now), ..c }
}

/// The history after `c` is added: the newest `max` calls.
pub open spec fn push_history(h: Seq<ActiveCall>, c: ActiveCall, max: usize) -> Seq<ActiveCall> {
    let s = h.push(c);
    if s.len() > max {
        s.drop_first()
    } else {
        s
    }
}

/// Which calls a listing selects.
pub enum CallSelector {
    State(CallState),
    Direction(CallDirection),
    User(String),
    Queue(u128),
    Conference(u128),
}

/// A selector, with the user name as text.
pub enum SelectorView {
    State(CallState),
    Direction(CallDirection),
    User(Seq<char>),
    Queue(u128),
    Conference(u128),
}

impl View for CallSelector {
    type V = SelectorView;

    open spec fn view(&self) -> SelectorView {
        match self {
            CallSelector::State(s) => SelectorView::State(*s),
            CallSelector::Direction(d) => SelectorView::Direction(*d),
            CallSelector::User(u) => SelectorView::User(u@),
            CallSelector::Queue(q) => SelectorView::Queue(*q),
            CallSelector::Conference(q) => SelectorView::Conference(*q),
        }
    }
}

/// Whether a call is selected.
pub open spec fn selects(sel: SelectorView, c: ActiveCall) -> bool {
    match sel {
        SelectorView::State(s) => c.state == s,
        SelectorView::Direction(d) => c.direction == d,
        SelectorView::User(u) => c.caller@ == u || c.callee@ == u,
        SelectorView::Queue(q) => c.queue_id == Some(q),
        SelectorView::Conference(q) => c.conference_id == Some(q),
    }
}

fn select(sel: &CallSelector, c: &ActiveCall) -> (r: bool)
    ensures
        r == selects(sel@, *c),
{
    match sel {
        CallSelector::State(s) => c.state == *s,
        CallSelector::Direction(d) => c.direction == *d,
        CallSelector::User(u) => str_eq(c.caller.as_str(), u.as_str()) || str_eq(c.callee.as_str(), u.as_str()),
        CallSelector::Queue(q) => c.queue_id == Some(*q),
        CallSelector::Conference(q) => c.conference_id == Some(*q),
    }
}

/// The calls of `s` that the selector picks, in order.
pub open spec fn selected(s: Seq<ActiveCall>, sel: SelectorView) -> Seq<ActiveCall>
    decreases s.len(),
{
    if s.len() == 0 {
        Seq::empty()
    } else {
        let r = selected(s.drop_last(), sel);
        if selects(sel, s.last()) {
            r.push(s.last())
        } else {
            r
        }
    }
}

/// How many calls of `s` satisfy `p`.
pub open spec fn count_calls(s: Seq<ActiveCall>, p: spec_fn(ActiveCall) -> bool) -> nat
    decreases s.len(),
{
    if s.len() == 0 {
        0
    } else {
        count_calls(s.drop_last(), p) + if p(s.last()) { 1nat } else { 0 }
    }
}

/// Sum of the durations of the calls.
pub open spec fn total_duration(s: Seq<ActiveCall>) -> nat
    decreases s.len(),
{
    if s.len() == 0 {
        0
    } else {
        total_duration(s.drop_last()) + s.last().duration_seconds as nat
    }
}

/// The longest duration among the calls (zero for none).
pub open spec fn longest_duration(s: Seq<ActiveCall>) -> u64
    decreases s.len(),
{
    if s.len() == 0 {
        0
    } else {
        let m = longest_duration(s.drop_last());
        if s.last().duration_seconds > m {
            s.last().duration_seconds
        } else {
            m
        }
    }
}

/// Sum of the known quality scores (hundredths).
pub open spec fn total_mos(s: Seq<ActiveCall>) -> nat
    decreases s.len(),
{
    if s.len() == 0 {
        0
    } else {
        total_mos(s.drop_last()) + match s.last().quality_mos {
            Some(m) => m as nat,
            None => 0,
        }
    }
}

/// The properties of a call that the statistics count.
#[derive(Clone, Copy)]
pub enum StatKind {
    Inbound,
    Outbound,
    Internal,
    Ringing,
    OnHold,
    Recording,
    InQueue,
    InConference,
    Scored,
}

/// Whether a call has a counted property.
pub open spec fn kind_holds(k: StatKind, c: ActiveCall) -> bool {
    match k {
        StatKind::Inbound => c.direction == CallDirection::Inbound,
        StatKind::Outbound => c.direction == CallDirection::Outbound,
        StatKind::Internal => c.direction == CallDirection::Internal,
        StatKind::Ringing => c.state == CallState::Ringing,
        StatKind::OnHold => c.is_on_hold,
        StatKind::Recording => c.is_recording,
        StatKind::InQueue => c.queue_id is Some,
        StatKind::InConference => c.conference_id is Some,
        StatKind::Scored => c.quality_mos is Some,
    }
}

fn kind_check(k: StatKind, c: &ActiveCall) -> (r: bool)
    ensures
        r == kind_holds(k, *c),
{
    match k {
        StatKind::Inbound => c.direction == CallDirection::Inbound,
        StatKind::Outbound => c.direction == CallDirection::Outbound,
        StatKind::Internal => c.direction == CallDirection::Internal,
        StatKind::Ringing => c.state == CallState::Ringing,
        StatKind::OnHold => c.is_on_hold,
        StatKind::Recording => c.is_recording,
        StatKind::InQueue => c.queue_id.is_some(),
        StatKind::InConference => c.conference_id.is_some(),
        StatKind::Scored => c.quality_mos.is_some(),
    }
}

/// How many calls of `s` have property `k`.
pub open spec fn count_kind(s: Seq<ActiveCall>, k: StatKind) -> usize {
    count_calls(s, |c: ActiveCall| kind_holds(k, c)) as usize
}

/// The statistics of a set of active calls.
pub open spec fn stats_of(s: Seq<ActiveCall>) -> CallStatistics {
    CallStatistics {
        total_active_calls: s.len() as usize,
        inbound_calls: count_kind(s, StatKind::Inbound),
        outbound_calls: count_kind(s, StatKind::Outbound),
        internal_calls: count_kind(s, StatKind::Internal),
        calls_ringing: count_kind(s, StatKind::Ringing),
        calls_on_hold: count_kind(s, StatKind::OnHold),
        calls_recording: count_kind(s, StatKind::Recording),
        calls_in_queue: count_kind(s, StatKind::InQueue),
        calls_in_conference: count_kind(s, StatKind::InConference),
        total_duration_seconds: total_duration(s) as u128,
        longest_call_seconds: longest_duration(s),
        total_mos_hundredths: total_mos(s) as u128,
        mos_samples: count_kind(s, StatKind::Scored),
    }
}

/// Counting the calls that satisfy `p` counts the calls that filtering by
/// `p` keeps.
pub proof fn lemma_count_calls_filter(s: Seq<ActiveCall>, p: spec_fn(ActiveCall) -> bool)
    ensures
        count_calls(s, p) == s.filter(p).len(),
        count_calls(s, p) <= s.len(),
    decreases s.len(),
{
    reveal(Seq::filter);
    if s.len() > 0 {
        lemma_count_calls_filter(s.drop_last(), p);
    }
}

/// The statistics count each kind of call by the call's own fields: calls
/// by direction, calls whose state is ringing, calls on hold, being
/// recorded, in a queue, in a conference, and calls with a quality score.
pub proof fn law_statistics_count_by_fields(s: Seq<ActiveCall>)
    requires
        s.len() <= usize::MAX,
    ensures
        stats_of(s).total_active_calls == s.len(),
        stats_of(s).inbound_calls == s.filter(|c: ActiveCall| c.direction == CallDirection::Inbound).len(),
        stats_of(s).outbound_calls == s.filter(|c: ActiveCall| c.direction == CallDirection::Outbound).len(),
        stats_of(s).internal_calls == s.filter(|c: ActiveCall| c.direction == CallDirection::Internal).len(),
        stats_of(s).calls_ringing == s.filter(|c: ActiveCall| c.state == CallState::Ringing).len(),
        stats_of(s).calls_on_hold == s.filter(|c: ActiveCall| c.is_on_hold).len(),
        stats_of(s).calls_recording == s.filter(|c: ActiveCall| c.is_recording).len(),
        stats_of(s).calls_in_queue == s.filter(|c: ActiveCall| c.queue_id is Some).len(),
        stats_of(s).calls_in_conference == s.filter(|c: ActiveCall| c.conference_id is Some).len(),
        stats_of(s).mos_samples == s.filter(|c: ActiveCall| c.quality_mos is Some).len(),
{
    lemma_count_calls_filter(s, |c: ActiveCall| kind_holds(StatKind::Inbound, c));
    lemma_count_calls_filter(s, |c: ActiveCall| kind_holds(StatKind::Outbound, c));
    lemma_count_calls_filter(s, |c: ActiveCall| kind_holds(StatKind::Internal, c));
    lemma_count_calls_filter(s, |c: ActiveCall| kind_holds(StatKind::Ringing, c));
    lemma_count_calls_filter(s, |c: ActiveCall| kind_holds(StatKind::OnHold, c));
    lemma_count_calls_filter(s, |c: ActiveCall| kind_holds(StatKind::Recording, c));
    lemma_count_calls_filter(s, |c: ActiveCall| kind_holds(StatKind::InQueue, c));
    lemma_count_calls_filter(s, |c: ActiveCall| kind_holds(StatKind::InConference, c));
    lemma_count_calls_filter(s, |c: ActiveCall| kind_holds(StatKind::Scored, c));
    assert((|c: ActiveCall| kind_holds(StatKind::Inbound, c)) =~= (|c: ActiveCall| c.direction == CallDirection::Inbound));
    assert((|c: ActiveCall| kind_holds(StatKind::Outbound, c)) =~= (|c: ActiveCall| c.direction == CallDirection::Outbound));
    assert((|c: ActiveCall| kind_holds(StatKind::Internal, c)) =~= (|c: ActiveCall| c.direction == CallDirection::Internal));
    assert((|c: ActiveCall| kind_holds(StatKind::Ringing, c)) =~= (|c: ActiveCall| c.state == CallState::Ringing));
    assert((|c: ActiveCall| kind_holds(StatKind::OnHold, c)) =~= (|c: ActiveCall| c.is_on_hold));
    assert((|c: ActiveCall| kind_holds(StatKind::Recording, c)) =~= (|c: ActiveCall| c.is_recording));
    assert((|c: ActiveCall| kind_holds(StatKind::InQueue, c)) =~= (|c: ActiveCall| c.queue_id is Some));
    assert((|c: ActiveCall| kind_holds(StatKind::InConference, c)) =~= (|c: ActiveCall| c.conference_id is Some));
    assert((|c: ActiveCall| kind_holds(StatKind::Scored, c)) =~= (|c: ActiveCall| c.quality_mos is Some));
}

/// The `count` newest entries of a history, newest first.
pub open spec fn recent(h: Seq<ActiveCall>, count: int) -> Seq<ActiveCall> {
    let m = if count < h.len() { count } else { h.len() as int };
    Seq::new(m as nat, |j: int| h[h.len() - 1 - j])
}

/// What a call control action at `now` does: mute and unmute are refused as
/// not implemented; an unknown call is reported and nothing changes; else
/// hang-up ends the call (into the history), hold and resume set the hold
/// flag, recording starts or stops, and transfer moves the call to
/// transferring, each with its message.
pub open spec fn control_outcome(
    before: ActiveCallManager,
    after: ActiveCallManager,
    call_id: Seq<char>,
    action: CallControlAction,
    now: i64,
    r: CallControlResult,
) -> bool {
    &&& r.call_id@ == call_id
    &&& match action {
        CallControlAction::Mute { .. } | CallControlAction::Unmute { .. } => {
            &&& !r.success
            &&& r.message@ == "Mute/unmute not yet implemented"@
            &&& after.unchanged(&before)
        },
        _ => match before.spec_call(call_id) {
            None => !r.success && r.message@ == not_found(call_id) && after.unchanged(&before),
            Some(c) => r.success && match action {
                CallControlAction::Hangup { reason } => r.message@ == "Call terminated: "@ + reason@
                    && after.ended_from(&before, call_id, c, now),
                CallControlAction::Hold => r.message@ == "Call placed on hold"@
                    && after.changed_call(&before, call_id, with_hold(c, true)),
                CallControlAction::Resume => r.message@ == "Call resumed"@
                    && after.changed_call(&before, call_id, with_hold(c, false)),
                CallControlAction::StartRecording => r.message@ == "Recording started"@
                    && after.changed_call(&before, call_id, ActiveCall { is_recording: true, ..c }),
                CallControlAction::StopRecording => r.message@ == "Recording stopped"@
                    && after.changed_call(&before, call_id, ActiveCall { is_recording: false, ..c }),
                CallControlAction::Transfer { target } => r.message@ == "Transfer initiated to "@ + target@
                    && after.changed_call(&before, call_id, with_state(c, CallState::Transferring, now)),
                _ => false,
            },
        },
    }
}

/// Active call manager: the calls in progress, keyed by call identifier, and
/// a bounded history of ended calls.
pub struct ActiveCallManager {
    calls: Store<ActiveCall>,
    call_history: Vec<ActiveCall>,
    max_history: usize,
}

impl ActiveCallManager {
    /// The call in progress with identifier `call_id`.
    pub closed spec fn spec_call(&self, call_id: Seq<char>) -> Option<ActiveCall> {
        self.calls.get_spec(call_id)
    }

    /// The calls in progress, in registration order.
    pub closed spec fn spec_calls(&self) -> Seq<ActiveCall> {
        self.calls.items()
    }

    /// The ended calls, oldest first.
    pub closed spec fn spec_history(&self) -> Seq<ActiveCall> {
        self.call_history@
    }

    /// How many ended calls are kept.
    pub closed spec fn spec_max_history(&self) -> usize {
        self.max_history
    }

    /// One call per identifier, and no more history than kept.
    pub closed spec fn wf(&self) -> bool {
        self.calls.wf() && self.call_history@.len() <= self.max_history
    }

    /// The calls in progress are those of `old` with `call_id` mapped to `c`
    /// (in place) and the history unchanged.
    pub open spec fn changed_call(&self, old: &Self, call_id: Seq<char>, c: ActiveCall) -> bool {
        &&& self.spec_call(call_id) == Some(c)
        &&& forall|k: Seq<char>| k != call_id ==> self.spec_call(k) == old.spec_call(k)
        &&& self.spec_calls().len() == old.spec_calls().len()
        &&& exists|i: int| 0 <= i < old.spec_calls().len() && (#[trigger] old.spec_calls()[i]).call_id@ == call_id
            && self.spec_calls() == old.spec_calls().update(i, c)
        &&& self.spec_history() == old.spec_history()
        &&& self.spec_max_history() == old.spec_max_history()
    }

    /// The calls in progress, in order, are exactly what their identifiers
    /// look up: no identifier occurs twice, each call is found under its
    /// own identifier, and an identifier finds a call only if one listed has it.
    pub proof fn lemma_calls_keyed(&self)
        requires
            self.wf(),
        ensures
            forall|i: int, j: int| 0 <= i < j < self.spec_calls().len() ==> (#[trigger] self.spec_calls()[i]).call_id@
                != (#[trigger] self.spec_calls()[j]).call_id@,
            forall|i: int| 0 <= i < self.spec_calls().len() ==> self.spec_call((#[trigger] self.spec_calls()[i]).call_id@)
                == Some(self.spec_calls()[i]),
            forall|k: Seq<char>| #[trigger] self.spec_call(k) is Some <==> exists|i: int| 0 <= i < self.spec_calls().len()
                && (#[trigger] self.spec_calls()[i]).call_id@ == k,
    {
        let s = self.calls.items();
        assert forall|i: int| 0 <= i < s.len() implies self.spec_call((#[trigger] s[i]).call_id@) == Some(s[i]) by {
            lemma_lookup_at(s, i);
        }
        assert forall|k: Seq<char>| #[trigger] self.spec_call(k) is Some implies exists|i: int| 0 <= i < s.len()
            && (#[trigger] s[i]).call_id@ == k by {
            if forall|j: int| 0 <= j < s.len() ==> (#[trigger] s[j]).key() != k {
                lemma_lookup_absent(s, k);
            }
        }
    }

    /// The calls in progress are those of `old` with `c` put under its
    /// identifier: at the end for a new identifier, in place of the call
    /// with that identifier otherwise.
    pub open spec fn placed_call(&self, old: &Self, c: ActiveCall) -> bool {
        if old.spec_call(c.call_id@) is None {
            self.spec_calls() == old.spec_calls().push(c)
        } else {
            exists|i: int| 0 <= i < old.spec_calls().len() && (#[trigger] old.spec_calls()[i]).call_id@ == c.call_id@
                && self.spec_calls() == old.spec_calls().update(i, c)
        }
    }

    /// Nothing changed.
    pub open spec fn unchanged(&self, old: &Self) -> bool {
        &&& forall|k: Seq<char>| self.spec_call(k) == old.spec_call(k)
        &&& self.spec_calls() == old.spec_calls()
        &&& self.spec_history() == old.spec_history()
        &&& self.spec_max_history() == old.spec_max_history()
    }

    /// An empty manager keeping the last 1000 ended calls.
    pub fn new() -> (r: Self)
        ensures
            r.wf(),
            forall|k: Seq<char>| r.spec_call(k) is None,
            r.spec_calls().len() == 0,
            r.spec_history().len() == 0,
            r.spec_max_history() == 1000,
    {
        let r = ActiveCallManager { calls: Store::new(), call_history: Vec::new(), max_history: 1000 };
        proof {
            assert forall|k: Seq<char>| r.spec_call(k) is None by {
                lemma_lookup_absent(r.calls.items(), k);
            }
        }
        r
    }

    /// Registers a new call started at `now`, replacing one with the same
    /// identifier; gives back its fresh unique identifier.
    pub fn register_call_at(&mut self, call_id: String, direction: CallDirection, caller: String, callee: String, now: i64) -> (r: u128)
        requires
            old(self).wf(),
        ensures
            final(self).wf(),
            is_v4_uuid(r),
            final(self).spec_call(call_id@) matches Some(c) && c.fresh(call_id@, direction, caller@, callee@, now)
                && c.id == r && final(self).placed_call(old(self), c),
            final(self).spec_calls().len() == old(self).spec_calls().len() + (if old(self).spec_call(call_id@) is None { 1int } else { 0int }),
            forall|k: Seq<char>| k != call_id@ ==> final(self).spec_call(k) == old(self).spec_call(k),
            final(self).spec_history() == old(self).spec_history(),
            final(self).spec_max_history() == old(self).spec_max_history(),
    {
        let call = ActiveCall::new_at(call_id, direction, caller, callee, now);
        let id = call.id;
        self.calls.insert(call);
        id
    }

    /// Registers a new call started now.
    pub fn register_call(&mut self, call_id: String, direction: CallDirection, caller: String, callee: String) -> (r: u128)
        requires
            old(self).wf(),
        ensures
            final(self).wf(),
            is_v4_uuid(r),
            final(self).spec_call(call_id@) matches Some(c) && c.call_id@ == call_id@ && c.state == CallState::Initiating
                && c.direction == direction && c.id == r && final(self).placed_call(old(self), c),
            final(self).spec_calls().len() == old(self).spec_calls().len() + (if old(self).spec_call(call_id@) is None { 1int } else { 0int }),
            forall|k: Seq<char>| k != call_id@ ==> final(self).spec_call(k) == old(self).spec_call(k),
            final(self).spec_history() == old(self).spec_history(),
            final(self).spec_max_history() == old(self).spec_max_history(),
            final(self).spec_call(call_id@) matches Some(c) && exists|now: i64|
                #[trigger] c.fresh(call_id@, direction, caller@, callee@, now),
    {
        let ghost (cid, cer, cee) = (call_id@, caller@, callee@);
        let now = now_millis();
        let r = self.register_call_at(call_id, direction, caller, callee, now);
        proof {
            let c = self.spec_call(cid)->0;
            assert(c.fresh(cid, direction, cer, cee, now));
        }
        r
    }

    /// Takes out the call with identifier `call_id`, with its position.
    fn take_call(&mut self, call_id: &str) -> (r: Option<(usize, ActiveCall)>)
        requires
            old(self).wf(),
        ensures
            final(self).wf(),
            match r {
                Some((i, c)) => {
                    &&& old(self).spec_call(call_id@) == Some(c)
                    &&& c.call_id@ == call_id@
                    &&& i <= final(self).calls.items().len()
                    &&& final(self).calls.items().len() + 1 == old(self).calls.items().len()
                    &&& old(self).calls.items()[i as int].call_id@ == call_id@
                    &&& final(self).calls.items() == old(self).calls.items().remove(i as int)
                    &&& !crate::store::has_key(final(self).calls.items(), call_id@)
                    &&& forall|k: Seq<char>| k != call_id@ ==> final(self).spec_call(k) == old(self).spec_call(k)
                },
                None => old(self).spec_call(call_id@) is None && final(self).calls == old(self).calls,
            },
            final(self).call_history == old(self).call_history,
            final(self).max_history == old(self).max_history,
    {
        match self.calls.find(call_id) {
            Some(i) => {
                let c = self.calls.take_at(i);
                Some((i, c))
            },
            None => None,
        }
    }

    /// Sets the state of a call at `now` (a first move to Active records the answer).
    pub fn update_state_at(&mut self, call_id: &str, state: CallState, now: i64) -> (r: Result<(), String>)
        requires
            old(self).wf(),
        ensures
            final(self).wf(),
            match old(self).spec_call(call_id@) {
                Some(c) => r is Ok && final(self).changed_call(old(self), call_id@, with_state(c, state, now)),
                None => r is Err && r->Err_0@ == not_found(call_id@) && final(self).unchanged(old(self)),
            },
    {
        match self.take_call(call_id) {
            Some((i, mut c)) => {
                c.state = state;
                if state == CallState::Active && c.answered_at.is_none() {
                    c.answer_at(now);
                }
                self.calls.put_at(i, c);
                assert(old(self).calls.items().remove(i as int).insert(i as int, c) =~= old(self).calls.items().update(
                    i as int,
                    c,
                ));
                Ok(())
            },
            None => Err(not_found_msg(call_id)),
        }
    }

    /// Sets the state of a call now.
    pub fn update_state(&mut self, call_id: &str, state: CallState) -> (r: Result<(), String>)
        requires
            old(self).wf(),
        ensures
            final(self).wf(),
            r is Ok <==> old(self).spec_call(call_id@) is Some,
            r is Err ==> r->Err_0@ == not_found(call_id@) && final(self).unchanged(old(self)),
            r is Ok ==> (final(self).spec_call(call_id@) matches Some(c) && c.state == state),
            old(self).spec_call(call_id@) matches Some(c) ==> exists|now: i64|
                #[trigger] final(self).changed_call(old(self), call_id@, with_state(c, state, now)),
    {
        let now = now_millis();
        let r = self.update_state_at(call_id, state, now);
        proof {
            if let Some(c) = old(self).spec_call(call_id@) {
                assert(self.changed_call(old(self), call_id@, with_state(c, state, now)));
            }
        }
        r
    }

    /// Ends a call at `now`: it leaves the calls in progress, its duration is
    /// set, and a copy joins the history (the oldest entry goes beyond the limit).
    pub fn terminate_call_at(&mut self, call_id: &str, now: i64) -> (r: Result<ActiveCall, String>)
        requires
            old(self).wf(),
        ensures
            final(self).wf(),
            match old(self).spec_call(call_id@) {
                Some(c) => {
                    &&& r matches Ok(e) && e == ended(c, now)
                    &&& final(self).ended_from(old(self), call_id@, c, now)
                },
                None => r is Err && r->Err_0@ == not_found(call_id@) && final(self).unchanged(old(self)),
            },
    {
        match self.take_call(call_id) {
            Some((_i, mut c)) => {
                c.state = CallState::Terminated;
                c.update_duration_at(now);
                let ghost h0 = self.call_history@;
                let copy = c.duplicate();
                self.call_history.push(copy);
                let ghost h1 = self.call_history@;
                if self.call_history.len() > self.max_history {
                    self.call_history.remove(0);
                    assert(self.call_history@ =~= h1.drop_first());
                }
                proof {
                    let target = push_history(h0, c, self.max_history);
                    assert forall|j: int| 0 <= j < self.call_history@.len() implies same_call(
                        #[trigger] self.call_history@[j],
                        target[j],
                    ) by {
                        if h1.len() > self.max_history {
                            if j + 1 < h0.len() {
                                assert(self.call_history@[j] == h0[j + 1]);
                            }
                        } else if j < h0.len() {
                            assert(self.call_history@[j] == h0[j]);
                        }
                    }
                }
                Ok(c)
            },
            None => Err(not_found_msg(call_id)),
        }
    }

    /// Ends a call now.
    pub fn terminate_call(&mut self, call_id: &str) -> (r: Result<ActiveCall, String>)
        requires
            old(self).wf(),
        ensures
            final(self).wf(),
            r is Ok <==> old(self).spec_call(call_id@) is Some,
            r is Ok ==> final(self).spec_call(call_id@) is None && r->Ok_0.state == CallState::Terminated,
            r is Err ==> r->Err_0@ == not_found(call_id@) && final(self).unchanged(old(self)),
            old(self).spec_call(call_id@) matches Some(c) ==> exists|now: i64|
                #[trigger] final(self).ended_from(old(self), call_id@, c, now) && r == Ok::<ActiveCall, String>(ended(c, now)),
    {
        let now = now_millis();
        let r = self.terminate_call_at(call_id, now);
        proof {
            if let Some(c) = old(self).spec_call(call_id@) {
                assert(self.ended_from(old(self), call_id@, c, now) && r == Ok::<ActiveCall, String>(ended(c, now)));
            }
        }
        r
    }

    /// A copy of the call in progress with identifier `call_id`.
    pub fn get_call(&self, call_id: &str) -> (r: Option<ActiveCall>)
        requires
            self.wf(),
        ensures
            match r {
                Some(c) => exists|d: ActiveCall| self.spec_call(call_id@) == Some(d) && same_call(c, d),
                None => self.spec_call(call_id@) is None,
            },
    {
        match self.calls.get(call_id) {
            Some(c) => {
                let d = c.duplicate();
                assert(same_call(d, *c));
                Some(d)
            },
            None => None,
        }
    }

    /// Copies of the calls in progress that the selector picks, in order.
    pub fn get_calls_selected(&self, sel: &CallSelector) -> (r: Vec<ActiveCall>)
        ensures
            same_calls(r@, selected(self.spec_calls(), sel@)),
    {
        let ghost s = self.calls.items();
        let mut out: Vec<ActiveCall> = Vec::new();
        let mut i: usize = 0;
        while i < self.calls.len()
            invariant
                s == self.calls.items(),
                i <= s.len(),
                same_calls(out@, selected(s.take(i as int), sel@)),
            decreases s.len() - i,
        {
            let c = self.calls.at(i);
            assert(s.take(i + 1).drop_last() =~= s.take(i as int));
            assert(s.take(i + 1).last() == s[i as int]);
            if select(sel, c) {
                out.push(c.duplicate());
            }
            i = i + 1;
        }
        assert(s.take(i as int) =~= s);
        out
    }

    /// Calls in progress in a state.
    pub fn get_calls_by_state(&self, state: CallState) -> (r: Vec<ActiveCall>)
        ensures
            same_calls(r@, selected(self.spec_calls(), SelectorView::State(state))),
    {
        self.get_calls_selected(&CallSelector::State(state))
    }

    /// Calls in progress in a direction.
    pub fn get_calls_by_direction(&self, direction: CallDirection) -> (r: Vec<ActiveCall>)
        ensures
            same_calls(r@, selected(self.spec_calls(), SelectorView::Direction(direction))),
    {
        self.get_calls_selected(&CallSelector::Direction(direction))
    }

    /// Calls in progress with `username` as caller or callee.
    pub fn get_calls_by_user(&self, username: &str) -> (r: Vec<ActiveCall>)
        ensures
            same_calls(r@, selected(self.spec_calls(), SelectorView::User(username@))),
    {
        self.get_calls_selected(&CallSelector::User(String::from_str(username)))
    }

    /// Calls in progress in a queue.
    pub fn get_calls_in_queue(&self, queue_id: u128) -> (r: Vec<ActiveCall>)
        ensures
            same_calls(r@, selected(self.spec_calls(), SelectorView::Queue(queue_id))),
    {
        self.get_calls_selected(&CallSelector::Queue(queue_id))
    }

    /// Calls in progress in a conference.
    pub fn get_calls_in_conference(&self, conference_id: u128) -> (r: Vec<ActiveCall>)
        ensures
            same_calls(r@, selected(self.spec_calls(), SelectorView::Conference(conference_id))),
    {
        self.get_calls_selected(&CallSelector::Conference(conference_id))
    }
    /// The state after the call `c` (keyed `call_id`) ended at `now`.
    pub open spec fn ended_from(&self, old: &Self, call_id: Seq<char>, c: ActiveCall, now: i64) -> bool {
        &&& self.spec_call(call_id) is None
        &&& forall|k: Seq<char>| k != call_id ==> self.spec_call(k) == old.spec_call(k)
        &&& self.spec_calls().len() + 1 == old.spec_calls().len()
        &&& exists|i: int| 0 <= i < old.spec_calls().len() && (#[trigger] old.spec_calls()[i]).call_id@ == call_id
            && self.spec_calls() == old.spec_calls().remove(i)
        &&& same_calls(self.spec_history(), push_history(old.spec_history(), ended(c, now), old.spec_max_history()))
        &&& self.spec_max_history() == old.spec_max_history()
    }

    /// Records a quality score (hundredths) for a call.
    pub fn update_quality(&mut self, call_id: &str, mos_hundredths: u32) -> (r: Result<(), String>)
        requires
            old(self).wf(),
        ensures
            final(self).wf(),
            match old(self).spec_call(call_id@) {
                Some(c) => r is Ok && final(self).changed_call(old(self), call_id@, ActiveCall { quality_mos: Some(mos_hundredths), ..c }),
                None => r is Err && r->Err_0@ == not_found(call_id@) && final(self).unchanged(old(self)),
            },
    {
        match self.take_call(call_id) {
            Some((i, mut c)) => {
                c.quality_mos = Some(mos_hundredths);
                self.calls.put_at(i, c);
                assert(old(self).calls.items().remove(i as int).insert(i as int, c) =~= old(self).calls.items().update(
                    i as int,
                    c,
                ));
                Ok(())
            },
            None => Err(not_found_msg(call_id)),
        }
    }

    /// Sets whether a call is being recorded.
    pub fn set_recording(&mut self, call_id: &str, recording: bool) -> (r: Result<(), String>)
        requires
            old(self).wf(),
        ensures
            final(self).wf(),
            match old(self).spec_call(call_id@) {
                Some(c) => r is Ok && final(self).changed_call(old(self), call_id@, ActiveCall { is_recording: recording, ..c }),
                None => r is Err && r->Err_0@ == not_found(call_id@) && final(self).unchanged(old(self)),
            },
    {
        match self.take_call(call_id) {
            Some((i, mut c)) => {
                c.is_recording = recording;
                self.calls.put_at(i, c);
                assert(old(self).calls.items().remove(i as int).insert(i as int, c) =~= old(self).calls.items().update(
                    i as int,
                    c,
                ));
                Ok(())
            },
            None => Err(not_found_msg(call_id)),
        }
    }

    /// Puts a call on hold or takes it off hold (back to Active if it was on hold).
    pub fn set_hold(&mut self, call_id: &str, on_hold: bool) -> (r: Result<(), String>)
        requires
            old(self).wf(),
        ensures
            final(self).wf(),
            match old(self).spec_call(call_id@) {
                Some(c) => r is Ok && final(self).changed_call(old(self), call_id@, with_hold(c, on_hold)),
                None => r is Err && r->Err_0@ == not_found(call_id@) && final(self).unchanged(old(self)),
            },
    {
        match self.take_call(call_id) {
            Some((i, mut c)) => {
                c.is_on_hold = on_hold;
                if on_hold {
                    c.state = CallState::OnHold;
                } else if c.state == CallState::OnHold {
                    c.state = CallState::Active;
                }
                self.calls.put_at(i, c);
                assert(old(self).calls.items().remove(i as int).insert(i as int, c) =~= old(self).calls.items().update(
                    i as int,
                    c,
                ));
                Ok(())
            },
            None => Err(not_found_msg(call_id)),
        }
    }

    /// Updates every call's duration to `now` and gives back copies of the
    /// calls in progress.
    pub fn get_all_calls_at(&mut self, now: i64) -> (r: Vec<ActiveCall>)
        requires
            old(self).wf(),
        ensures
            final(self).wf(),
            final(self).spec_calls() == old(self).spec_calls().map_values(
                |c: ActiveCall| ActiveCall { duration_seconds: c.duration_at(now), ..c },
            ),
            final(self).spec_history() == old(self).spec_history(),
            final(self).spec_max_history() == old(self).spec_max_history(),
            same_calls(r@, final(self).spec_calls()),
    {
        let ghost s0 = self.calls.items();
        let mut i: usize = 0;
        while i < self.calls.len()
            invariant
                self.calls.wf(),
                i <= s0.len(),
                self.calls.items().len() == s0.len(),
                forall|j: int| 0 <= j < i ==> #[trigger] self.calls.items()[j] == (ActiveCall {
                    duration_seconds: s0[j].duration_at(now),
                    ..s0[j]
                }),
                forall|j: int| i <= j < s0.len() ==> #[trigger] self.calls.items()[j] == s0[j],
                self.call_history@.len() <= self.max_history,
                self.call_history == old(self).call_history,
                self.max_history == old(self).max_history,
            decreases s0.len() - i,
        {
            let mut cur = self.calls.take_at(i);
            cur.update_duration_at(now);
            self.calls.put_at(i, cur);
            i = i + 1;
        }
        assert(self.calls.items() =~= s0.map_values(
            |c: ActiveCall| ActiveCall { duration_seconds: c.duration_at(now), ..c },
        ));
        let mut out: Vec<ActiveCall> = Vec::new();
        let mut k: usize = 0;
        while k < self.calls.len()
            invariant
                k <= self.calls.items().len(),
                out@.len() == k,
                forall|j: int| 0 <= j < k ==> same_call(#[trigger] out@[j], self.calls.items()[j]),
            decreases self.calls.items().len() - k,
        {
            out.push(self.calls.at(k).duplicate());
            k = k + 1;
        }
        out
    }

    /// Updates every call's duration by the clock and gives back copies of the calls.
    pub fn get_all_calls(&mut self) -> (r: Vec<ActiveCall>)
        requires
            old(self).wf(),
        ensures
            final(self).wf(),
            r@.len() == old(self).spec_calls().len(),
            final(self).spec_history() == old(self).spec_history(),
            exists|now: i64| #[trigger] clock_reading(now) && {
                &&& (final(self).spec_calls() == old(self).spec_calls().map_values(
                    |c: ActiveCall| ActiveCall { duration_seconds: c.duration_at(now), ..c },
                ))
                &&& (final(self).spec_history() == old(self).spec_history())
                &&& (final(self).spec_max_history() == old(self).spec_max_history())
                &&& (same_calls(r@, final(self).spec_calls()))
            },
    {
        let now = now_millis();
        proof {
            assert(clock_reading(now));
        }
        self.get_all_calls_at(now)
    }
    /// How many calls in progress have a property.
    fn count_kind(&self, k: StatKind) -> (r: usize)
        ensures
            r == count_calls(self.spec_calls(), |c: ActiveCall| kind_holds(k, c)),
    {
        let ghost s = self.calls.items();
        let ghost p = |c: ActiveCall| kind_holds(k, c);
        let mut n: usize = 0;
        let mut i: usize = 0;
        while i < self.calls.len()
            invariant
                s == self.calls.items(),
                i <= s.len(),
                n == count_calls(s.take(i as int), p),
                n <= i,
                p == (|c: ActiveCall| kind_holds(k, c)),
            decreases s.len() - i,
        {
            assert(s.take(i + 1).drop_last() =~= s.take(i as int));
            assert(s.take(i + 1).last() == s[i as int]);
            if kind_check(k, self.calls.at(i)) {
                n = n + 1;
            }
            i = i + 1;
        }
        assert(s.take(i as int) =~= s);
        n
    }

    /// Call statistics over the calls in progress.
    pub fn get_statistics(&self) -> (r: CallStatistics)
        ensures
            r == stats_of(self.spec_calls()),
            r.total_active_calls == self.spec_calls().len(),
            r.inbound_calls == self.spec_calls().filter(|c: ActiveCall| c.direction == CallDirection::Inbound).len(),
            r.outbound_calls == self.spec_calls().filter(|c: ActiveCall| c.direction == CallDirection::Outbound).len(),
            r.internal_calls == self.spec_calls().filter(|c: ActiveCall| c.direction == CallDirection::Internal).len(),
            r.calls_ringing == self.spec_calls().filter(|c: ActiveCall| c.state == CallState::Ringing).len(),
            r.calls_on_hold == self.spec_calls().filter(|c: ActiveCall| c.is_on_hold).len(),
            r.calls_recording == self.spec_calls().filter(|c: ActiveCall| c.is_recording).len(),
            r.calls_in_queue == self.spec_calls().filter(|c: ActiveCall| c.queue_id is Some).len(),
            r.calls_in_conference == self.spec_calls().filter(|c: ActiveCall| c.conference_id is Some).len(),
            r.mos_samples == self.spec_calls().filter(|c: ActiveCall| c.quality_mos is Some).len(),
    {
        // The number of calls fits a usize, and so does every count below it.
        let _n = self.calls.len();
        proof {
            law_statistics_count_by_fields(self.spec_calls());
        }
        let ghost s = self.calls.items();
        let mut total: u128 = 0;
        let mut longest: u64 = 0;
        let mut mos: u128 = 0;
        let mut i: usize = 0;
        while i < self.calls.len()
            invariant
                s == self.calls.items(),
                i <= s.len(),
                total == total_duration(s.take(i as int)),
                total <= i * 0xffff_ffff_ffff_ffff,
                longest == longest_duration(s.take(i as int)),
                mos == total_mos(s.take(i as int)),
                mos <= i * 0xffff_ffff,
            decreases s.len() - i,
        {
            assert(s.take(i + 1).drop_last() =~= s.take(i as int));
            assert(s.take(i + 1).last() == s[i as int]);
            let c = self.calls.at(i);
            total = total + c.duration_seconds as u128;
            if c.duration_seconds > longest {
                longest = c.duration_seconds;
            }
            match c.quality_mos {
                Some(m) => {
                    mos = mos + m as u128;
                },
                None => {},
            }
            i = i + 1;
        }
        assert(s.take(i as int) =~= s);
        CallStatistics {
            total_active_calls: self.calls.len(),
            inbound_calls: self.count_kind(StatKind::Inbound),
            outbound_calls: self.count_kind(StatKind::Outbound),
            internal_calls: self.count_kind(StatKind::Internal),
            calls_ringing: self.count_kind(StatKind::Ringing),
            calls_on_hold: self.count_kind(StatKind::OnHold),
            calls_recording: self.count_kind(StatKind::Recording),
            calls_in_queue: self.count_kind(StatKind::InQueue),
            calls_in_conference: self.count_kind(StatKind::InConference),
            total_duration_seconds: total,
            longest_call_seconds: longest,
            total_mos_hundredths: mos,
            mos_samples: self.count_kind(StatKind::Scored),
        }
    }

    /// Copies of the `count` most recent ended calls, newest first.
    pub fn get_recent_history(&self, count: usize) -> (r: Vec<ActiveCall>)
        requires
            self.wf(),
        ensures
            same_calls(r@, recent(self.spec_history(), count as int)),
    {
        let n = self.call_history.len();
        let m = if count < n {
            count
        } else {
            n
        };
        let mut out: Vec<ActiveCall> = Vec::new();
        let mut k: usize = 0;
        while k < m
            invariant
                n == self.call_history@.len(),
                m <= n,
                m == (if count < n { count } else { n }),
                k <= m,
                out@.len() == k,
                forall|j: int| 0 <= j < k ==> same_call(#[trigger] out@[j], self.call_history@[n - 1 - j]),
            decreases m - k,
        {
            out.push(self.call_history[n - 1 - k].duplicate());
            k = k + 1;
        }
        out
    }

    /// Removes every call in progress (the history stays).
    pub fn clear(&mut self)
        requires
            old(self).wf(),
        ensures
            final(self).wf(),
            forall|k: Seq<char>| final(self).spec_call(k) is None,
            final(self).spec_calls().len() == 0,
            final(self).spec_history() == old(self).spec_history(),
            final(self).spec_max_history() == old(self).spec_max_history(),
    {
        self.calls.clear();
    }

    /// Number of calls in progress.
    pub fn count(&self) -> (r: usize)
        ensures
            r == self.spec_calls().len(),
    {
        self.calls.len()
    }
    /// Executes a call control action at time `now`.
    pub fn control_call_at(&mut self, call_id: &str, action: CallControlAction, now: i64) -> (r: CallControlResult)
        requires
            old(self).wf(),
        ensures
            final(self).wf(),
            r.call_id@ == call_id@,
            match action {
                CallControlAction::Mute { .. } | CallControlAction::Unmute { .. } => {
                    &&& !r.success
                    &&& r.message@ == "Mute/unmute not yet implemented"@
                    &&& final(self).unchanged(old(self))
                },
                _ => match old(self).spec_call(call_id@) {
                    None => !r.success && r.message@ == not_found(call_id@) && final(self).unchanged(old(self)),
                    Some(c) => r.success && match action {
                        CallControlAction::Hangup { reason } => r.message@ == "Call terminated: "@ + reason@
                            && final(self).ended_from(old(self), call_id@, c, now),
                        CallControlAction::Hold => r.message@ == "Call placed on hold"@
                            && final(self).changed_call(old(self), call_id@, with_hold(c, true)),
                        CallControlAction::Resume => r.message@ == "Call resumed"@
                            && final(self).changed_call(old(self), call_id@, with_hold(c, false)),
                        CallControlAction::StartRecording => r.message@ == "Recording started"@
                            && final(self).changed_call(old(self), call_id@, ActiveCall { is_recording: true, ..c }),
                        CallControlAction::StopRecording => r.message@ == "Recording stopped"@
                            && final(self).changed_call(old(self), call_id@, ActiveCall { is_recording: false, ..c }),
                        CallControlAction::Transfer { target } => r.message@ == "Transfer initiated to "@ + target@
                            && final(self).changed_call(old(self), call_id@, with_state(c, CallState::Transferring, now)),
                        _ => false,
                    },
                },
            },
    {
        let id = String::from_str(call_id);
        match action {
            CallControlAction::Hangup { reason } => {
                match self.terminate_call_at(call_id, now) {
                    Ok(_) => {
                        let m = join3("Call terminated: ", reason.as_str(), "");
                        proof {
                            reveal_strlit("");
                            assert(m@ == "Call terminated: "@ + reason@);
                        }
                        CallControlResult { success: true, message: m, call_id: id }
                    },
                    Err(e) => CallControlResult { success: false, message: e, call_id: id },
                }
            },
            CallControlAction::Hold => match self.set_hold(call_id, true) {
                Ok(_) => CallControlResult {
                    success: true,
                    message: String::from_str("Call placed on hold"),
                    call_id: id,
                },
                Err(e) => CallControlResult { success: false, message: e, call_id: id },
            },
            CallControlAction::Resume => match self.set_hold(call_id, false) {
                Ok(_) => CallControlResult { success: true, message: String::from_str("Call resumed"), call_id: id },
                Err(e) => CallControlResult { success: false, message: e, call_id: id },
            },
            CallControlAction::StartRecording => match self.set_recording(call_id, true) {
                Ok(_) => CallControlResult {
                    success: true,
                    message: String::from_str("Recording started"),
                    call_id: id,
                },
                Err(e) => CallControlResult { success: false, message: e, call_id: id },
            },
            CallControlAction::StopRecording => match self.set_recording(call_id, false) {
                Ok(_) => CallControlResult {
                    success: true,
                    message: String::from_str("Recording stopped"),
                    call_id: id,
                },
                Err(e) => CallControlResult { success: false, message: e, call_id: id },
            },
            CallControlAction::Transfer { target } => {
                match self.update_state_at(call_id, CallState::Transferring, now) {
                    Ok(_) => {
                        let m = join3("Transfer initiated to ", target.as_str(), "");
                        proof {
                            reveal_strlit("");
                            assert(m@ == "Transfer initiated to "@ + target@);
                        }
                        CallControlResult { success: true, message: m, call_id: id }
                    },
                    Err(e) => CallControlResult { success: false, message: e, call_id: id },
                }
            },
            CallControlAction::Mute { .. } | CallControlAction::Unmute { .. } => CallControlResult {
                success: false,
                message: String::from_str("Mute/unmute not yet implemented"),
                call_id: id,
            },
        }
    }

    /// Executes a call control action now.
    pub fn control_call(&mut self, call_id: &str, action: CallControlAction) -> (r: CallControlResult)
        requires
            old(self).wf(),
        ensures
            final(self).wf(),
            r.call_id@ == call_id@,
            r.success <==> (old(self).spec_call(call_id@) is Some && !(action is Mute) && !(action is Unmute)),
            !r.success ==> final(self).unchanged(old(self)),
            exists|now: i64| #[trigger] control_outcome(*old(self), *final(self), call_id@, action, now, r),
    {
        let ghost act = action;
        let now = now_millis();
        let r = self.control_call_at(call_id, action, now);
        assert(control_outcome(*old(self), *self, call_id@, act, now, r));
        r
    }
}

impl Default for ActiveCallManager {
    fn default() -> (r: Self)
        ensures
            r.wf(),
            forall|k: Seq<char>| r.spec_call(k) is None,
            r.spec_calls().len() == 0,
            r.spec_history().len() == 0,
            r.spec_max_history() == 1000,
    {
        Self::new()
    }
}

} // verus!
