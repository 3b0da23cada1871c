//! Call forwarding: unconditional, busy, no-answer and conditional forwarding
//! (by time of day or by caller), with per-user rules kept in priority order.
use vstd::prelude::*;
use crate::domain::shared::calendar::{
    clock_parts, in_time_range, spec_clock_parts, spec_in_time_range, weekday_listed, TimeOfDay, Weekday,
};
use crate::domain::shared::system::{clock_reading, is_v4_uuid, new_uuid, now_millis};
use crate::store::{lemma_lookup_absent, lemma_lookup_at, KeyOf, Keyed, Store};
use crate::text::{
    chars_of, seq_ends_with, seq_starts_with, str_contains, str_eq, vec_ends_with, vec_starts_with,
};

verus! {

/// Call forwarding type.
#[derive(Debug, Clone, Copy, PartialEq, Eq, Structural)]
pub enum ForwardingType {
    /// Forward all calls unconditionally
    Unconditional,
    /// Forward when the line is busy
    Busy,
    /// Forward after no answer timeout
    NoAnswer,
    /// Forward when user is not registered/offline
    Unavailable,
    /// Forward based on time of day
    TimeBased,
    /// Forward based on caller ID
    CallerBased,
    /// Forward to voicemail
    Voicemail,
}

impl ForwardingType {
    /// Description text.
    pub open spec fn spec_description(self) -> Seq<char> {
        match self {
            ForwardingType::Unconditional => "Forward all calls"@,
            ForwardingType::Busy => "Forward when busy"@,
            ForwardingType::NoAnswer => "Forward on no answer"@,
            ForwardingType::Unavailable => "Forward when unavailable"@,
            ForwardingType::TimeBased => "Forward based on time"@,
            ForwardingType::CallerBased => "Forward based on caller"@,
            ForwardingType::Voicemail => "Forward to voicemail"@,
        }
    }

    /// A human-readable description.
    pub fn description(&self) -> (r: &'static str)
        ensures
            r@ == self.spec_description(),
    {
        match self {
            ForwardingType::Unconditional => "Forward all calls",
            ForwardingType::Busy => "Forward when busy",
            ForwardingType::NoAnswer => "Forward on no answer",
            ForwardingType::Unavailable => "Forward when unavailable",
            ForwardingType::TimeBased => "Forward based on time",
            ForwardingType::CallerBased => "Forward based on caller",
            ForwardingType::Voicemail => "Forward to voicemail",
        }
    }
}

/// Whether a URI leaves the local system: it names a host (holds `@`) other
/// than `localhost`.
pub open spec fn spec_is_external(uri: Seq<char>) -> bool {
    uri.contains('@') && !seq_ends_with(uri, "@localhost"@)
}

/// Forwarding destination.
#[derive(Debug, Clone, PartialEq, Eq)]
pub struct ForwardingDestination {
    /// SIP URI or extension
    pub uri: String,
    /// Display name for the destination
    pub display_name: Option<String>,
    /// Whether this is an external destination
    pub is_external: bool,
}

impl ForwardingDestination {
    /// A destination without display name; external when the URI names a
    /// host other than `localhost`.
    pub fn new(uri: String) -> (r: Self)
        ensures
            r.uri == uri,
            r.display_name is None,
            r.is_external == spec_is_external(uri@),
    {
        let chars = chars_of(uri.as_str());
        let suffix = chars_of("@localhost");
        let has_at = crate::text::vec_has_char(&chars, '@');
        let is_external = has_at && !vec_ends_with(&chars, &suffix);
        ForwardingDestination { uri, display_name: None, is_external }
    }

    /// The destination with a display name.
    pub fn with_name(self, name: String) -> (r: Self)
        ensures
            r == (ForwardingDestination { display_name: Some(name), ..self }),
    {
        ForwardingDestination { display_name: Some(name), ..self }
    }

    /// A copy of the destination.
    pub fn duplicate(&self) -> (r: Self)
        ensures
            r == *self,
    {
        ForwardingDestination {
            uri: self.uri.clone(),
            display_name: match &self.display_name {
                Some(n) => Some(n.clone()),
                None => None,
            },
            is_external: self.is_external,
        }
    }
}

/// Time range for time-based forwarding.
#[derive(Debug, Clone, PartialEq, Eq)]
pub struct TimeRange {
    /// Start time
    pub start: TimeOfDay,
    /// End time
    pub end: TimeOfDay,
    /// Days of week (if empty, applies to all days)
    pub days: Vec<Weekday>,
}

impl TimeRange {
    /// Whether the range covers `time` on `weekday`: the day must be listed
    /// (any day when none is), and the time within the range, which runs
    /// across midnight when its start is after its end.
    pub open spec fn spec_contains(&self, time: TimeOfDay, weekday: Weekday) -> bool {
        (self.days@.len() == 0 || self.days@.contains(weekday)) && spec_in_time_range(time, self.start, self.end)
    }

    /// A range on every day.
    pub fn new(start: TimeOfDay, end: TimeOfDay) -> (r: Self)
        ensures
            r.start == start,
            r.end == end,
            r.days@.len() == 0,
    {
        TimeRange { start, end, days: Vec::new() }
    }

    /// The range on the given days only.
    pub fn with_days(self, days: Vec<Weekday>) -> (r: Self)
        ensures
            r == (TimeRange { days, ..self }),
    {
        TimeRange { days, ..self }
    }

    /// Whether the range covers `time` on `weekday`.
    pub fn contains(&self, time: TimeOfDay, weekday: Weekday) -> (r: bool)
        ensures
            r == self.spec_contains(time, weekday),
    {
        if self.days.len() != 0 && !weekday_listed(&self.days, weekday) {
            return false;
        }
        in_time_range(&time, &self.start, &self.end)
    }

    /// Business hours: Monday to Friday, 9:00 to 17:00.
    pub fn business_hours() -> (r: Self)
        ensures
            r.start == (TimeOfDay { secs: 32400u32, nanos: 0 }),
            r.end == (TimeOfDay { secs: 61200u32, nanos: 0 }),
            r.days@ == seq![Weekday::Mon, Weekday::Tue, Weekday::Wed, Weekday::Thu, Weekday::Fri],
    {
        let mut days: Vec<Weekday> = Vec::new();
        days.push(Weekday::Mon);
        days.push(Weekday::Tue);
        days.push(Weekday::Wed);
        days.push(Weekday::Thu);
        days.push(Weekday::Fri);
        TimeRange {
            start: TimeOfDay { secs: 9 * 3600, nanos: 0 },
            end: TimeOfDay { secs: 17 * 3600, nanos: 0 },
            days,
        }
    }

    /// After hours: 17:00 to 9:00 on every day.
    pub fn after_hours() -> (r: Self)
        ensures
            r.start == (TimeOfDay { secs: 61200u32, nanos: 0 }),
            r.end == (TimeOfDay { secs: 32400u32, nanos: 0 }),
            r.days@.len() == 0,
    {
        TimeRange {
            start: TimeOfDay { secs: 17 * 3600, nanos: 0 },
            end: TimeOfDay { secs: 9 * 3600, nanos: 0 },
            days: Vec::new(),
        }
    }

    /// A copy of the range.
    pub fn duplicate(&self) -> (r: Self)
        ensures
            r.start == self.start,
            r.end == self.end,
            r.days@ == self.days@,
    {
        let mut days: Vec<Weekday> = Vec::new();
        let mut i: usize = 0;
        while i < self.days.len()
            invariant
                i <= self.days@.len(),
                days@ == self.days@.take(i as int),
            decreases self.days.len() - i,
        {
            days.push(self.days[i]);
            assert(self.days@.take(i as int).push(self.days@[i as int]) =~= self.days@.take(i + 1));
            i = i + 1;
        }
        assert(self.days@.take(i as int) =~= self.days@);
        TimeRange { start: self.start, end: self.end, days }
    }
}

/// Whether one of `callers` matches `caller`: equal to it when matching
/// exactly, else a prefix of it or having it as a prefix.
pub open spec fn spec_caller_matches(callers: Seq<Seq<char>>, exact: bool, caller: Seq<char>) -> bool {
    exists|i: int|
        0 <= i < callers.len() && #[trigger] caller_entry_matches(callers[i], exact, caller)
}

/// Whether one filter entry matches `caller`.
pub open spec fn caller_entry_matches(c: Seq<char>, exact: bool, caller: Seq<char>) -> bool {
    if exact {
        c == caller
    } else {
        seq_starts_with(caller, c) || seq_starts_with(c, caller)
    }
}

/// The texts of a sequence of strings.
pub open spec fn texts(v: Seq<String>) -> Seq<Seq<char>> {
    v.map_values(|s: String| s@)
}

/// Caller ID filter for caller-based forwarding.
#[derive(Debug, Clone, PartialEq, Eq)]
pub struct CallerFilter {
    /// List of caller numbers/URIs to match
    pub allowed_callers: Vec<String>,
    /// Whether to match exact or use prefix matching
    pub exact_match: bool,
}

impl CallerFilter {
    /// Whether the filter matches `caller`.
    pub open spec fn spec_matches(&self, caller: Seq<char>) -> bool {
        spec_caller_matches(texts(self.allowed_callers@), self.exact_match, caller)
    }

    /// An empty, exact-matching filter.
    pub fn new() -> (r: Self)
        ensures
            r.allowed_callers@.len() == 0,
            r.exact_match,
    {
        CallerFilter { allowed_callers: Vec::new(), exact_match: true }
    }

    /// The filter with one more caller.
    pub fn add_caller(self, caller: String) -> (r: Self)
        ensures
            r.allowed_callers@ == self.allowed_callers@.push(caller),
            r.exact_match == self.exact_match,
    {
        let mut s = self;
        s.allowed_callers.push(caller);
        s
    }

    /// The filter, matching by prefix.
    pub fn with_prefix_matching(self) -> (r: Self)
        ensures
            r == (CallerFilter { exact_match: false, ..self }),
    {
        CallerFilter { exact_match: false, ..self }
    }

    /// Whether the caller matches the filter.
    pub fn matches(&self, caller: &str) -> (r: bool)
        ensures
            r == self.spec_matches(caller@),
    {
        let who = chars_of(caller);
        let mut i: usize = 0;
        while i < self.allowed_callers.len()
            invariant
                i <= self.allowed_callers@.len(),
                who@ == caller@,
                forall|k: int| 0 <= k < i ==> !#[trigger] caller_entry_matches(
                    texts(self.allowed_callers@)[k],
                    self.exact_match,
                    caller@,
                ),
            decreases self.allowed_callers.len() - i,
        {
            let c = chars_of(self.allowed_callers[i].as_str());
            let hit = if self.exact_match {
                crate::text::vec_eq(&c, &who)
            } else {
                vec_starts_with(&who, &c) || vec_starts_with(&c, &who)
            };
            assert(texts(self.allowed_callers@)[i as int] == self.allowed_callers@[i as int]@);
            if hit {
                assert(caller_entry_matches(texts(self.allowed_callers@)[i as int], self.exact_match, caller@));
                return true;
            }
            i = i + 1;
        }
        false
    }

    /// A copy of the filter.
    pub fn duplicate(&self) -> (r: Self)
        ensures
            r.allowed_callers@ == self.allowed_callers@,
            r.exact_match == self.exact_match,
    {
        let mut v: Vec<String> = Vec::new();
        let mut i: usize = 0;
        while i < self.allowed_callers.len()
            invariant
                i <= self.allowed_callers@.len(),
                v@ == self.allowed_callers@.take(i as int),
            decreases self.allowed_callers.len() - i,
        {
            v.push(self.allowed_callers[i].clone());
            assert(self.allowed_callers@.take(i as int).push(self.allowed_callers@[i as int])
                =~= self.allowed_callers@.take(i + 1));
            i = i + 1;
        }
        assert(self.allowed_callers@.take(i as int) =~= self.allowed_callers@);
        CallerFilter { allowed_callers: v, exact_match: self.exact_match }
    }
}

impl Default for CallerFilter {
    fn default() -> (r: Self)
        ensures
            r.allowed_callers@.len() == 0,
            r.exact_match,
    {
        Self::new()
    }
}

/// Call forwarding rule.
#[derive(Debug, Clone)]
pub struct ForwardingRule {
    /// Unique rule identifier
    pub id: u128,
    /// User/extension this rule belongs to
    pub user_id: String,
    /// Type of forwarding
    pub forwarding_type: ForwardingType,
    /// Destination for forwarded calls
    pub destination: ForwardingDestination,
    /// Whether the rule is enabled
    pub enabled: bool,
    /// Priority (lower number = higher priority)
    pub priority: u32,
    /// Timeout in seconds (for NoAnswer type)
    pub timeout_seconds: Option<u32>,
    /// Time range (for TimeBased type)
    pub time_range: Option<TimeRange>,
    /// Caller filter (for CallerBased type)
    pub caller_filter: Option<CallerFilter>,
    /// Maximum forwarding hops (to prevent loops)
    pub max_hops: u32,
    /// Rule description
    pub description: Option<String>,
    /// Created timestamp (milliseconds since the epoch)
    pub created_at: i64,
    /// Last modified timestamp (milliseconds since the epoch)
    pub updated_at: i64,
}

/// Two optional time ranges with the same contents.
pub open spec fn same_range(a: Option<TimeRange>, b: Option<TimeRange>) -> bool {
    match (a, b) {
        (Some(x), Some(y)) => x.start == y.start && x.end == y.end && x.days@ == y.days@,
        (None, None) => true,
        _ => false,
    }
}

/// Two optional caller filters with the same contents.
pub open spec fn same_filter(a: Option<CallerFilter>, b: Option<CallerFilter>) -> bool {
    match (a, b) {
        (Some(x), Some(y)) => x.allowed_callers@ == y.allowed_callers@ && x.exact_match == y.exact_match,
        (None, None) => true,
        _ => false,
    }
}

/// Two rules with the same contents.
pub open spec fn same_rule(a: ForwardingRule, b: ForwardingRule) -> bool {
    &&& a.id == b.id
    &&& a.user_id == b.user_id
    &&& a.forwarding_type == b.forwarding_type
    &&& a.destination == b.destination
    &&& a.enabled == b.enabled
    &&& a.priority == b.priority
    &&& a.timeout_seconds == b.timeout_seconds
    &&& same_range(a.time_range, b.time_range)
    &&& same_filter(a.caller_filter, b.caller_filter)
    &&& a.max_hops == b.max_hops
    &&& a.description == b.description
    &&& a.created_at == b.created_at
    &&& a.updated_at == b.updated_at
}

/// Two sequences of rules with the same contents, rule by rule.
pub open spec fn same_rules(a: Seq<ForwardingRule>, b: Seq<ForwardingRule>) -> bool {
    a.len() == b.len() && forall|i: int| 0 <= i < a.len() ==> same_rule(#[trigger] a[i], b[i])
}

impl ForwardingRule {
    /// Whether the rule applies to a call from `caller` at `now` (milliseconds
    /// since the epoch, read in UTC): it is enabled, its time range (if any)
    /// covers the time and weekday, and its caller filter (if any) matches.
    pub open spec fn spec_applies(&self, caller: Seq<char>, now: i64) -> bool {
        &&& self.enabled
        &&& match self.time_range {
            Some(tr) => tr.spec_contains(spec_clock_parts(now as int).0, spec_clock_parts(now as int).1),
            None => true,
        }
        &&& match self.caller_filter {
            Some(f) => f.spec_matches(caller),
            None => true,
        }
    }

    /// A new enabled rule of priority 100, at most 5 hops, created at `now`;
    /// no-answer rules time out after 20 seconds.
    pub open spec fn spec_fresh(&self, user_id: Seq<char>, t: ForwardingType, destination: ForwardingDestination, now: i64) -> bool {
        &&& is_v4_uuid(self.id)
        &&& self.user_id@ == user_id
        &&& self.forwarding_type == t
        &&& self.destination == destination
        &&& self.enabled
        &&& self.priority == 100
        &&& self.timeout_seconds == if t == ForwardingType::NoAnswer { Some(20u32) } else { None }
        &&& self.time_range is None
        &&& self.caller_filter is None
        &&& self.max_hops == 5
        &&& self.description is None
        &&& self.created_at == now
        &&& self.updated_at == now
    }

    /// A new rule created at `now` (milliseconds).
    pub fn new_at(user_id: String, forwarding_type: ForwardingType, destination: ForwardingDestination, now: i64) -> (r: Self)
        ensures
            r.spec_fresh(user_id@, forwarding_type, destination, now),
    {
        ForwardingRule {
            id: new_uuid(),
            user_id,
            forwarding_type,
            destination,
            enabled: true,
            priority: 100,
            timeout_seconds: if forwarding_type == ForwardingType::NoAnswer {
                Some(20)
            } else {
                None
            },
            time_range: None,
            caller_filter: None,
            max_hops: 5,
            description: None,
            created_at: now,
            updated_at: now,
        }
    }

    /// A new rule created now.
    pub fn new(user_id: String, forwarding_type: ForwardingType, destination: ForwardingDestination) -> (r: Self)
        ensures
            r.spec_fresh(user_id@, forwarding_type, destination, r.created_at),
    {
        Self::new_at(user_id, forwarding_type, destination, now_millis())
    }

    /// The rule with another priority.
    pub fn with_priority(self, priority: u32) -> (r: Self)
        ensures
            r == (ForwardingRule { priority, ..self }),
    {
        ForwardingRule { priority, ..self }
    }

    /// The rule with a no-answer timeout.
    pub fn with_timeout(self, seconds: u32) -> (r: Self)
        ensures
            r == (ForwardingRule { timeout_seconds: Some(seconds), ..self }),
    {
        ForwardingRule { timeout_seconds: Some(seconds), ..self }
    }

    /// The rule with a time range.
    pub fn with_time_range(self, time_range: TimeRange) -> (r: Self)
        ensures
            r == (ForwardingRule { time_range: Some(time_range), ..self }),
    {
        ForwardingRule { time_range: Some(time_range), ..self }
    }

    /// The rule with a caller filter.
    pub fn with_caller_filter(self, caller_filter: CallerFilter) -> (r: Self)
        ensures
            r == (ForwardingRule { caller_filter: Some(caller_filter), ..self }),
    {
        ForwardingRule { caller_filter: Some(caller_filter), ..self }
    }

    /// The rule with a description.
    pub fn with_description(self, description: String) -> (r: Self)
        ensures
            r == (ForwardingRule { description: Some(description), ..self }),
    {
        ForwardingRule { description: Some(description), ..self }
    }

    /// The rule, disabled.
    pub fn disabled(self) -> (r: Self)
        ensures
            r == (ForwardingRule { enabled: false, ..self }),
    {
        ForwardingRule { enabled: false, ..self }
    }

    /// Whether the rule applies to a call from `caller` at `current_time`
    /// (milliseconds since the epoch).
    pub fn should_apply(&self, caller: &str, current_time: i64) -> (r: bool)
        ensures
            r == self.spec_applies(caller@, current_time),
    {
        if !self.enabled {
            return false;
        }
        match &self.time_range {
            Some(tr) => {
                let (time, weekday) = clock_parts(current_time);
                if !tr.contains(time, weekday) {
                    return false;
                }
            },
            None => {},
        }
        match &self.caller_filter {
            Some(f) => {
                if !f.matches(caller) {
                    return false;
                }
            },
            None => {},
        }
        true
    }

    /// A copy of the rule.
    pub fn duplicate(&self) -> (r: Self)
        ensures
            same_rule(r, *self),
    {
        ForwardingRule {
            id: self.id,
            user_id: self.user_id.clone(),
            forwarding_type: self.forwarding_type,
            destination: self.destination.duplicate(),
            enabled: self.enabled,
            priority: self.priority,
            timeout_seconds: self.timeout_seconds,
            time_range: match &self.time_range {
                Some(t) => Some(t.duplicate()),
                None => None,
            },
            caller_filter: match &self.caller_filter {
                Some(f) => Some(f.duplicate()),
                None => None,
            },
            max_hops: self.max_hops,
            description: match &self.description {
                Some(d) => Some(d.clone()),
                None => None,
            },
            created_at: self.created_at,
            updated_at: self.updated_at,
        }
    }
}

/// Call forwarding status for a user.
#[derive(Debug, Clone)]
pub struct ForwardingStatus {
    /// User/extension identifier
    pub user_id: String,
    /// Whether any forwarding is active
    pub has_active_forwarding: bool,
    /// Active unconditional forwarding destination
    pub unconditional_destination: Option<String>,
    /// Active busy forwarding destination
    pub busy_destination: Option<String>,
    /// Active no-answer forwarding destination
    pub no_answer_destination: Option<String>,
    /// Total active rules
    pub active_rules_count: usize,
}

impl ForwardingStatus {
    /// A status without active forwarding.
    pub fn new(user_id: String) -> (r: Self)
        ensures
            r.user_id == user_id,
            !r.has_active_forwarding,
            r.unconditional_destination is None,
            r.busy_destination is None,
            r.no_answer_destination is None,
            r.active_rules_count == 0,
    {
        ForwardingStatus {
            user_id,
            has_active_forwarding: false,
            unconditional_destination: None,
            busy_destination: None,
            no_answer_destination: None,
            active_rules_count: 0,
        }
    }
}

/// Forwarded calls counted by type.
#[derive(Debug, Clone, Copy, PartialEq, Eq, Structural)]
pub struct ForwardingCounts {
    pub unconditional: u64,
    pub busy: u64,
    pub no_answer: u64,
    pub unavailable: u64,
    pub time_based: u64,
    pub caller_based: u64,
    pub voicemail: u64,
}

impl ForwardingCounts {
    /// The count for a type.
    pub open spec fn spec_get(self, t: ForwardingType) -> u64 {
        match t {
            ForwardingType::Unconditional => self.unconditional,
            ForwardingType::Busy => self.busy,
            ForwardingType::NoAnswer => self.no_answer,
            ForwardingType::Unavailable => self.unavailable,
            ForwardingType::TimeBased => self.time_based,
            ForwardingType::CallerBased => self.caller_based,
            ForwardingType::Voicemail => self.voicemail,
        }
    }

    /// All counts zero.
    pub open spec fn zero() -> Self {
        ForwardingCounts {
            unconditional: 0,
            busy: 0,
            no_answer: 0,
            unavailable: 0,
            time_based: 0,
            caller_based: 0,
            voicemail: 0,
        }
    }

    /// Sum of the counts.
    pub open spec fn total(self) -> int {
        self.unconditional + self.busy + self.no_answer + self.unavailable + self.time_based + self.caller_based
            + self.voicemail
    }

    /// The count for a type.
    pub fn get(&self, t: ForwardingType) -> (r: u64)
        ensures
            r == self.spec_get(t),
    {
        match t {
            ForwardingType::Unconditional => self.unconditional,
            ForwardingType::Busy => self.busy,
            ForwardingType::NoAnswer => self.no_answer,
            ForwardingType::Unavailable => self.unavailable,
            ForwardingType::TimeBased => self.time_based,
            ForwardingType::CallerBased => self.caller_based,
            ForwardingType::Voicemail => self.voicemail,
        }
    }
}

/// Call forwarding statistics.
#[derive(Debug, Clone, Copy, PartialEq, Eq, Structural)]
pub struct ForwardingStatistics {
    /// Total forwarding rules in system
    pub total_rules: usize,
    /// Active rules
    pub active_rules: usize,
    /// Disabled rules
    pub disabled_rules: usize,
    /// Total forwarded calls
    pub total_forwarded_calls: u64,
    /// Calls forwarded by type
    pub by_type: ForwardingCounts,
    /// Users with active forwarding
    pub users_with_forwarding: usize,
}

impl ForwardingStatistics {
    /// All counts zero.
    pub fn new() -> (r: Self)
        ensures
            r == (ForwardingStatistics {
                total_rules: 0,
                active_rules: 0,
                disabled_rules: 0,
                total_forwarded_calls: 0,
                by_type: ForwardingCounts::zero(),
                users_with_forwarding: 0,
            }),
    {
        ForwardingStatistics {
            total_rules: 0,
            active_rules: 0,
            disabled_rules: 0,
            total_forwarded_calls: 0,
            by_type: ForwardingCounts {
                unconditional: 0,
                busy: 0,
                no_answer: 0,
                unavailable: 0,
                time_based: 0,
                caller_based: 0,
                voicemail: 0,
            },
            users_with_forwarding: 0,
        }
    }
}

impl Default for ForwardingStatistics {
    fn default() -> (r: Self)
        ensures
            r.total_rules == 0 && r.total_forwarded_calls == 0 && r.users_with_forwarding == 0,
    {
        Self::new()
    }
}

/// Rules sorted by priority, lowest number first.
pub open spec fn sorted_by_priority(s: Seq<ForwardingRule>) -> bool {
    forall|i: int, j: int| 0 <= i < j < s.len() ==> (#[trigger] s[i]).priority <= (#[trigger] s[j]).priority
}

/// `pos` is where a rule of priority `p` goes in `s`: after every rule of
/// priority number up to `p`, before the rules with a larger one.
pub open spec fn is_insert_point(s: Seq<ForwardingRule>, p: u32, pos: int) -> bool {
    &&& 0 <= pos <= s.len()
    &&& forall|k: int| 0 <= k < pos ==> (#[trigger] s[k]).priority <= p
    &&& pos < s.len() ==> s[pos].priority > p
}

/// `pos` is where a rule of priority `p` that stood at position `i` goes in
/// the other rules `t` when the list is sorted stably by priority: after the
/// rules of smaller number and after those of equal number that stood before it.
pub open spec fn is_reinsert_point(t: Seq<ForwardingRule>, p: u32, i: int, pos: int) -> bool {
    &&& 0 <= pos <= t.len()
    &&& forall|k: int| 0 <= k < pos ==> (#[trigger] t[k]).priority < p || (t[k].priority == p && k < i)
    &&& pos < t.len() ==> t[pos].priority > p || (t[pos].priority == p && pos >= i)
}

/// `i` is the first position of a rule with identifier `id`.
pub open spec fn is_first_id(s: Seq<ForwardingRule>, id: u128, i: int) -> bool {
    &&& 0 <= i < s.len()
    &&& s[i].id == id
    &&& forall|k: int| 0 <= k < i ==> (#[trigger] s[k]).id != id
}

/// Whether some rule has identifier `id`.
pub open spec fn has_id(s: Seq<ForwardingRule>, id: u128) -> bool {
    exists|k: int| 0 <= k < s.len() && (#[trigger] s[k]).id == id
}

/// The rules without those with identifier `id`.
pub open spec fn without_id(s: Seq<ForwardingRule>, id: u128) -> Seq<ForwardingRule>
    decreases s.len(),
{
    if s.len() == 0 {
        s
    } else if s.last().id == id {
        without_id(s.drop_last(), id)
    } else {
        without_id(s.drop_last(), id).push(s.last())
    }
}

/// Whether a rule of type `t` (any type when none is given) is enabled and
/// applies to a call from `caller` at `now`.
pub open spec fn rule_fits(r: ForwardingRule, t: Option<ForwardingType>, caller: Seq<char>, now: i64) -> bool {
    &&& r.enabled
    &&& match t {
        Some(ty) => r.forwarding_type == ty,
        None => true,
    }
    &&& r.spec_applies(caller, now)
}

/// Position of the first rule that fits (the length when none does).
pub open spec fn first_fit(s: Seq<ForwardingRule>, t: Option<ForwardingType>, caller: Seq<char>, now: i64) -> int
    decreases s.len(),
{
    if s.len() == 0 {
        0
    } else if rule_fits(s[0], t, caller, now) {
        0
    } else {
        1 + first_fit(s.drop_first(), t, caller, now)
    }
}

/// The destination URI of the last enabled rule of type `t`.
pub open spec fn last_enabled_uri(s: Seq<ForwardingRule>, t: ForwardingType) -> Option<Seq<char>>
    decreases s.len(),
{
    if s.len() == 0 {
        None
    } else if s.last().enabled && s.last().forwarding_type == t {
        Some(s.last().destination.uri@)
    } else {
        last_enabled_uri(s.drop_last(), t)
    }
}

/// How many rules are enabled.
pub open spec fn enabled_count(s: Seq<ForwardingRule>) -> nat
    decreases s.len(),
{
    if s.len() == 0 {
        0
    } else {
        enabled_count(s.drop_last()) + if s.last().enabled { 1nat } else { 0 }
    }
}

/// Whether some rule other than `id` is an enabled unconditional rule.
fn has_other_unconditional(rules: &Vec<ForwardingRule>, id: u128) -> (r: bool)
    ensures
        r == exists|k: int|
            0 <= k < rules@.len() && (#[trigger] rules@[k]).forwarding_type == ForwardingType::Unconditional
                && rules@[k].enabled && rules@[k].id != id,
{
    let mut k: usize = 0;
    while k < rules.len()
        invariant
            k <= rules@.len(),
            forall|j: int| 0 <= j < k ==> !((#[trigger] rules@[j]).forwarding_type == ForwardingType::Unconditional
                && rules@[j].enabled && rules@[j].id != id),
        decreases rules@.len() - k,
    {
        let x = &rules[k];
        if x.forwarding_type == ForwardingType::Unconditional && x.enabled && x.id != id {
            return true;
        }
        k = k + 1;
    }
    false
}

/// Where a rule of priority `p` goes in sorted rules.
fn insert_point(rules: &Vec<ForwardingRule>, p: u32) -> (pos: usize)
    ensures
        is_insert_point(rules@, p, pos as int),
{
    let mut pos: usize = 0;
    while pos < rules.len() && rules[pos].priority <= p
        invariant
            pos <= rules@.len(),
            forall|k: int| 0 <= k < pos ==> (#[trigger] rules@[k]).priority <= p,
        decreases rules@.len() - pos,
    {
        pos = pos + 1;
    }
    pos
}

/// Position of the first rule with identifier `id`.
fn find_id(rules: &Vec<ForwardingRule>, id: u128) -> (r: Option<usize>)
    ensures
        match r {
            Some(i) => is_first_id(rules@, id, i as int),
            None => !has_id(rules@, id),
        },
{
    let mut k: usize = 0;
    while k < rules.len()
        invariant
            k <= rules@.len(),
            forall|j: int| 0 <= j < k ==> (#[trigger] rules@[j]).id != id,
        decreases rules@.len() - k,
    {
        if rules[k].id == id {
            return Some(k);
        }
        k = k + 1;
    }
    None
}

/// Where a rule of priority `p` that stood at position `i` goes back.
fn reinsert_point(t: &Vec<ForwardingRule>, p: u32, i: usize) -> (pos: usize)
    ensures
        is_reinsert_point(t@, p, i as int, pos as int),
{
    let mut pos: usize = 0;
    while pos < t.len() && (t[pos].priority < p || (t[pos].priority == p && pos < i))
        invariant
            pos <= t@.len(),
            forall|k: int| 0 <= k < pos ==> (#[trigger] t@[k]).priority < p || (t@[k].priority == p && k < i),
        decreases t@.len() - pos,
    {
        pos = pos + 1;
    }
    pos
}

/// Removing a rule from sorted rules and putting it back at its stable place
/// keeps them sorted.
proof fn lemma_reinsert_sorted(s: Seq<ForwardingRule>, i: int, x: ForwardingRule, pos: int)
    requires
        sorted_by_priority(s),
        0 <= i < s.len(),
        is_reinsert_point(s.remove(i), x.priority, i, pos),
    ensures
        sorted_by_priority(s.remove(i).insert(pos, x)),
{
    let t = s.remove(i);
    assert forall|a: int, b: int| 0 <= a < b < t.len() implies (#[trigger] t[a]).priority <= (#[trigger] t[b]).priority by {
        let sa = if a < i { a } else { a + 1 };
        let sb = if b < i { b } else { b + 1 };
        assert(t[a] == s[sa] && t[b] == s[sb]);
    }
    let n = t.insert(pos, x);
    assert forall|a: int, b: int| 0 <= a < b < n.len() implies (#[trigger] n[a]).priority <= (#[trigger] n[b]).priority by {
        if a < pos && b < pos {
            assert(n[a] == t[a] && n[b] == t[b]);
        } else if a < pos && b == pos {
            assert(n[a] == t[a]);
        } else if a < pos && b > pos {
            assert(n[a] == t[a] && n[b] == t[b - 1]);
        } else if a == pos {
            assert(n[b] == t[b - 1]);
            assert(t[pos].priority <= t[b - 1].priority);
        } else {
            assert(n[a] == t[a - 1] && n[b] == t[b - 1]);
        }
    }
}

/// The rules without identifier `id`, and whether any had it.
fn retain_other_ids(rules: Vec<ForwardingRule>, id: u128) -> (r: (Vec<ForwardingRule>, bool))
    requires
        sorted_by_priority(rules@),
    ensures
        r.0@ == without_id(rules@, id),
        sorted_by_priority(r.0@),
        r.1 == has_id(rules@, id),
        !r.1 ==> r.0@ == rules@,
{
    let ghost s = rules@;
    assert(s.len() == rules.len());
    let mut rest = rules;
    let mut out: Vec<ForwardingRule> = Vec::new();
    let mut found = false;
    let mut i: usize = 0;
    while rest.len() > 0
        invariant
            sorted_by_priority(s),
            s.len() <= usize::MAX,
            i + rest@.len() == s.len(),
            rest@ == s.subrange(i as int, s.len() as int),
            out@ == without_id(s.take(i as int), id),
            sorted_by_priority(out@),
            forall|t: int, k: int| 0 <= t < out@.len() && i <= k < s.len() ==> (#[trigger] out@[t]).priority <= (#[trigger] s[k]).priority,
            found == exists|j: int| 0 <= j < i && (#[trigger] s[j]).id == id,
            !found ==> out@ == s.take(i as int),
        decreases rest.len(),
    {
        assert(s.take(i + 1).drop_last() =~= s.take(i as int));
        assert(s.take(i + 1).last() == s[i as int]);
        let x = rest.remove(0);
        assert(x == s[i as int]);
        if x.id == id {
            found = true;
        } else {
            let ghost before = out@;
            out.push(x);
            proof {
                assert(s.take(i + 1) =~= s.take(i as int).push(s[i as int]));
            }
        }
        i = i + 1;
        assert(rest@ =~= s.subrange(i as int, s.len() as int));
    }
    assert(s.take(i as int) =~= s);
    (out, found)
}

/// Copies of rules.
fn copy_rules(rules: &Vec<ForwardingRule>) -> (r: Vec<ForwardingRule>)
    ensures
        same_rules(r@, rules@),
{
    let mut out: Vec<ForwardingRule> = Vec::new();
    let mut i: usize = 0;
    while i < rules.len()
        invariant
            i <= rules@.len(),
            out@.len() == i,
            forall|k: int| 0 <= k < i ==> same_rule(#[trigger] out@[k], rules@[k]),
        decreases rules@.len() - i,
    {
        out.push(rules[i].duplicate());
        i = i + 1;
    }
    out
}

/// How many of `users` are not among `visited`.
pub open spec fn count_unvisited(users: Seq<Seq<char>>, visited: Seq<Seq<char>>) -> nat
    decreases users.len(),
{
    if users.len() == 0 {
        0
    } else {
        count_unvisited(users.drop_last(), visited) + if visited.contains(users.last()) { 0nat } else { 1 }
    }
}

/// Seeing one more user, once among the users and not seen before, leaves
/// one fewer unseen.
proof fn lemma_unvisited_push(users: Seq<Seq<char>>, visited: Seq<Seq<char>>, d: Seq<char>)
    requires
        users.no_duplicates(),
        users.contains(d),
        !visited.contains(d),
    ensures
        count_unvisited(users, visited.push(d)) + 1 == count_unvisited(users, visited),
    decreases users.len(),
{
    let v2 = visited.push(d);
    assert forall|x: Seq<char>| x != d implies v2.contains(x) == visited.contains(x) by {
        if v2.contains(x) {
            let k = choose|k: int| 0 <= k < v2.len() && v2[k] == x;
            assert(k < visited.len());
            assert(visited[k] == x);
        }
        if visited.contains(x) {
            let k = choose|k: int| 0 <= k < visited.len() && visited[k] == x;
            assert(v2[k] == x);
        }
    }
    assert(v2.contains(d)) by {
        assert(v2[visited.len() as int] == d);
    }
    let init = users.drop_last();
    if users.last() == d {
        assert(!init.contains(d)) by {
            if init.contains(d) {
                let k = choose|k: int| 0 <= k < init.len() && init[k] == d;
                assert(users[k] == users[users.len() - 1]);
            }
        }
        lemma_unvisited_same(init, visited, v2, d);
    } else {
        assert(init.contains(d)) by {
            let k = choose|k: int| 0 <= k < users.len() && users[k] == d;
            assert(k < users.len() - 1);
            assert(init[k] == d);
        }
        assert(init.no_duplicates()) by {
            assert forall|i: int, j: int| 0 <= i < init.len() && 0 <= j < init.len() && i != j implies init[i] != init[j] by {
                assert(init[i] == users[i] && init[j] == users[j]);
            }
        }
        lemma_unvisited_push(init, visited, d);
    }
}

/// Counts agree when the seen sets agree on every user but one who is not among the users.
proof fn lemma_unvisited_same(users: Seq<Seq<char>>, a: Seq<Seq<char>>, b: Seq<Seq<char>>, d: Seq<char>)
    requires
        !users.contains(d),
        forall|x: Seq<char>| x != d ==> b.contains(x) == a.contains(x),
    ensures
        count_unvisited(users, a) == count_unvisited(users, b),
    decreases users.len(),
{
    if users.len() > 0 {
        let init = users.drop_last();
        assert(!init.contains(d)) by {
            if init.contains(d) {
                let k = choose|k: int| 0 <= k < init.len() && init[k] == d;
                assert(users[k] == d);
            }
        }
        assert(users.last() != d) by {
            assert(users[users.len() - 1] == users.last());
        }
        lemma_unvisited_same(init, a, b, d);
    }
}

/// Whether one of the strings has the text of `s`.
fn contains_text(v: &Vec<String>, s: &str) -> (r: bool)
    ensures
        r == texts(v@).contains(s@),
{
    let mut i: usize = 0;
    while i < v.len()
        invariant
            i <= v@.len(),
            forall|k: int| 0 <= k < i ==> texts(v@)[k] != s@,
        decreases v@.len() - i,
    {
        if str_eq(v[i].as_str(), s) {
            assert(texts(v@)[i as int] == s@);
            return true;
        }
        i = i + 1;
    }
    false
}

fn d_str(s: &String) -> (r: &str)
    ensures
        r@ == s@,
{
    s.as_str()
}

/// The text of an optional string.
pub open spec fn opt_text(o: Option<String>) -> Option<Seq<char>> {
    match o {
        Some(s) => Some(s@),
        None => None,
    }
}

/// How many of the rules are enabled.
fn count_enabled(rules: &Vec<ForwardingRule>) -> (r: usize)
    ensures
        r == enabled_count(rules@),
        r <= rules@.len(),
{
    let ghost s = rules@;
    let mut c: usize = 0;
    let mut i: usize = 0;
    while i < rules.len()
        invariant
            s == rules@,
            i <= s.len(),
            c == enabled_count(s.take(i as int)),
            c <= i,
        decreases s.len() - i,
    {
        assert(s.take(i + 1).drop_last() =~= s.take(i as int));
        assert(s.take(i + 1).last() == s[i as int]);
        if rules[i].enabled {
            c = c + 1;
        }
        i = i + 1;
    }
    assert(s.take(i as int) =~= s);
    c
}

/// A user's rules.
struct UserRules {
    user_id: String,
    rules: Vec<ForwardingRule>,
}

impl Keyed for UserRules {
    type Key = str;

    closed spec fn key(&self) -> Seq<char> {
        self.user_id@
    }

    closed spec fn inv(&self) -> bool {
        sorted_by_priority(self.rules@)
    }

    fn key_ref(&self) -> (r: &str) {
        let r = self.user_id.as_str();
        assert(r.kv() == r@);
        r
    }
}

/// Call forwarding manager: each user's rules, sorted by priority, and the
/// forwarded-call counters.
pub struct CallForwardingManager {
    rules: Store<UserRules>,
    forwarded_calls: u64,
    calls_by_type: ForwardingCounts,
}

impl CallForwardingManager {
    /// The rules of `user`, in priority order (none when the user has no entry).
    pub closed spec fn rules_of(&self, user: Seq<char>) -> Seq<ForwardingRule> {
        match self.rules.get_spec(user) {
            Some(e) => e.rules@,
            None => Seq::empty(),
        }
    }

    /// The users with an entry, in the order they got it.
    pub closed spec fn spec_users(&self) -> Seq<Seq<char>> {
        self.rules.items().map_values(|e: UserRules| e.user_id@)
    }

    /// Calls forwarded so far.
    pub closed spec fn spec_forwarded(&self) -> u64 {
        self.forwarded_calls
    }

    /// Calls forwarded so far, by type.
    pub closed spec fn spec_by_type(&self) -> ForwardingCounts {
        self.calls_by_type
    }

    /// One entry per user, each user's rules sorted by priority, counters by
    /// type adding up to the total.
    pub closed spec fn wf(&self) -> bool {
        &&& self.rules.wf()
        &&& self.calls_by_type.total() == self.forwarded_calls
    }

    /// The rules of every user other than `user` are as in `old`, and so are the counters.
    pub open spec fn others_same(&self, old: &Self, user: Seq<char>) -> bool {
        &&& forall|u: Seq<char>| u != user ==> self.rules_of(u) == old.rules_of(u)
        &&& self.spec_forwarded() == old.spec_forwarded()
        &&& self.spec_by_type() == old.spec_by_type()
    }

    /// Nothing observable changed.
    pub open spec fn same_rules_and_counts(&self, old: &Self) -> bool {
        &&& forall|u: Seq<char>| self.rules_of(u) == old.rules_of(u)
        &&& self.spec_forwarded() == old.spec_forwarded()
        &&& self.spec_by_type() == old.spec_by_type()
    }

    /// A manager without rules or counts.
    pub fn new() -> (r: Self)
        ensures
            r.wf(),
            forall|u: Seq<char>| r.rules_of(u).len() == 0,
            r.spec_users().len() == 0,
            r.spec_forwarded() == 0,
            r.spec_by_type() == ForwardingCounts::zero(),
    {
        let r = CallForwardingManager {
            rules: Store::new(),
            forwarded_calls: 0,
            calls_by_type: ForwardingCounts {
                unconditional: 0,
                busy: 0,
                no_answer: 0,
                unavailable: 0,
                time_based: 0,
                caller_based: 0,
                voicemail: 0,
            },
        };
        proof {
            assert forall|u: Seq<char>| r.rules_of(u).len() == 0 by {
                lemma_lookup_absent(r.rules.items(), u);
            }
        }
        r
    }

    /// Takes out the entry of `user` (an empty one when there is none), with
    /// the position to put it back at.
    fn take_entry(&mut self, user: &str) -> (r: (usize, UserRules))
        requires
            old(self).wf(),
        ensures
            final(self).rules.wf(),
            r.1.user_id@ == user@,
            r.1.rules@ == old(self).rules_of(user@),
            sorted_by_priority(r.1.rules@),
            r.0 <= final(self).rules.items().len(),
            !crate::store::has_key(final(self).rules.items(), user@),
            forall|u: Seq<char>| u != user@ ==> final(self).rules.get_spec(u) == old(self).rules.get_spec(u),
            final(self).forwarded_calls == old(self).forwarded_calls,
            final(self).calls_by_type == old(self).calls_by_type,
    {
        match self.rules.find(user) {
            Some(i) => {
                let e = self.rules.take_at(i);
                (i, e)
            },
            None => (self.rules.len(), UserRules { user_id: String::from_str(user), rules: Vec::new() }),
        }
    }

    /// Puts back an entry taken with `take_entry`.
    fn put_entry(&mut self, pos: usize, e: UserRules)
        requires
            old(self).rules.wf(),
            old(self).calls_by_type.total() == old(self).forwarded_calls,
            pos <= old(self).rules.items().len(),
            !crate::store::has_key(old(self).rules.items(), e.user_id@),
            sorted_by_priority(e.rules@),
        ensures
            final(self).wf(),
            final(self).rules_of(e.user_id@) == e.rules@,
            forall|u: Seq<char>| u != e.user_id@ ==> final(self).rules.get_spec(u) == old(self).rules.get_spec(u),
            final(self).forwarded_calls == old(self).forwarded_calls,
            final(self).calls_by_type == old(self).calls_by_type,
    {
        assert(e.key() == e.user_id@);
        self.rules.put_at(pos, e);
    }

    /// Adds a rule, in priority order (after the rules of the same priority).
    /// Refused when it is an enabled unconditional rule and the user already has
    /// another enabled unconditional rule.
    pub fn add_rule(&mut self, rule: ForwardingRule) -> (r: Result<u128, String>)
        requires
            old(self).wf(),
        ensures
            final(self).wf(),
            ({
                let s = old(self).rules_of(rule.user_id@);
                if rule.forwarding_type == ForwardingType::Unconditional && rule.enabled && exists|k: int|
                    0 <= k < s.len() && (#[trigger] s[k]).forwarding_type == ForwardingType::Unconditional
                        && s[k].enabled && s[k].id != rule.id {
                    &&& r is Err
                    &&& r->Err_0@ == "User already has an active unconditional forwarding rule"@
                    &&& final(self).same_rules_and_counts(old(self))
                } else {
                    &&& r == Ok::<u128, String>(rule.id)
                    &&& exists|pos: int| is_insert_point(s, rule.priority, pos) && final(self).rules_of(rule.user_id@)
                        == s.insert(pos, rule)
                    &&& final(self).others_same(old(self), rule.user_id@)
                }
            }),
    {
        let (at, mut e) = self.take_entry(rule.user_id.as_str());
        let ghost s = e.rules@;
        if rule.forwarding_type == ForwardingType::Unconditional && rule.enabled && has_other_unconditional(
            &e.rules,
            rule.id,
        ) {
            self.put_entry(at, e);
            return Err(String::from_str("User already has an active unconditional forwarding rule"));
        }
        let pos = insert_point(&e.rules, rule.priority);
        let id = rule.id;
        let ghost rv = rule;
        e.rules.insert(pos, rule);
        proof {
            assert(is_insert_point(s, rv.priority, pos as int));
            let n = e.rules@;
            assert forall|i: int, j: int| 0 <= i < j < n.len() implies (#[trigger] n[i]).priority <= (#[trigger] n[j]).priority by {
                if i < pos && j < pos {
                    assert(n[i] == s[i] && n[j] == s[j]);
                } else if i < pos && j == pos {
                    assert(n[i] == s[i]);
                } else if i < pos && j > pos {
                    assert(n[i] == s[i] && n[j] == s[j - 1]);
                } else if i == pos {
                    assert(n[j] == s[j - 1]);
                    assert(s[pos as int].priority <= s[j - 1].priority);
                } else {
                    assert(n[i] == s[i - 1] && n[j] == s[j - 1]);
                }
            }
        }
        self.put_entry(at, e);
        Ok(id)
    }
    /// Whether `user` has an entry (possibly with no rules).
    pub closed spec fn has_entry(&self, user: Seq<char>) -> bool {
        self.rules.get_spec(user) is Some
    }

    /// Replaces the first rule with the rule's identifier and puts it where a
    /// stable sort by priority puts it.
    pub fn update_rule(&mut self, rule: ForwardingRule) -> (r: Result<(), String>)
        requires
            old(self).wf(),
        ensures
            final(self).wf(),
            ({
                let s = old(self).rules_of(rule.user_id@);
                if !old(self).has_entry(rule.user_id@) {
                    r is Err && r->Err_0@ == "User has no forwarding rules"@ && final(self).same_rules_and_counts(old(self))
                } else if !has_id(s, rule.id) {
                    r is Err && r->Err_0@ == "Forwarding rule not found"@ && final(self).same_rules_and_counts(old(self))
                } else {
                    &&& r is Ok
                    &&& exists|i: int, pos: int| {
                        &&& is_first_id(s, rule.id, i)
                        &&& is_reinsert_point(s.remove(i), rule.priority, i, pos)
                        &&& final(self).rules_of(rule.user_id@) == s.remove(i).insert(pos, rule)
                    }
                    &&& final(self).others_same(old(self), rule.user_id@)
                }
            }),
    {
        let at = match self.rules.find(rule.user_id.as_str()) {
            Some(i) => i,
            None => {
                return Err(String::from_str("User has no forwarding rules"));
            },
        };
        proof {
            lemma_lookup_at(self.rules.items(), at as int);
        }
        let i = match find_id(&self.rules.at(at).rules, rule.id) {
            Some(i) => i,
            None => {
                return Err(String::from_str("Forwarding rule not found"));
            },
        };
        let mut e = self.rules.take_at(at);
        let ghost s = e.rules@;
        let _old_rule = e.rules.remove(i);
        let ghost t = e.rules@;
        let pos = reinsert_point(&e.rules, rule.priority, i);
        let ghost rv = rule;
        e.rules.insert(pos, rule);
        proof {
            assert(t == s.remove(i as int));
            lemma_reinsert_sorted(s, i as int, rv, pos as int);
        }
        self.put_entry(at, e);
        Ok(())
    }

    /// Removes every rule of `user` with identifier `rule_id`; refused when
    /// the user has no entry or no such rule.
    pub fn remove_rule(&mut self, user_id: &str, rule_id: u128) -> (r: Result<(), String>)
        requires
            old(self).wf(),
        ensures
            final(self).wf(),
            ({
                let s = old(self).rules_of(user_id@);
                if !old(self).has_entry(user_id@) {
                    r is Err && r->Err_0@ == "User has no forwarding rules"@ && final(self).same_rules_and_counts(old(self))
                } else if !has_id(s, rule_id) {
                    r is Err && r->Err_0@ == "Forwarding rule not found"@ && final(self).same_rules_and_counts(old(self))
                } else {
                    &&& r is Ok
                    &&& final(self).rules_of(user_id@) == without_id(s, rule_id)
                    &&& final(self).others_same(old(self), user_id@)
                }
            }),
    {
        let at = match self.rules.find(user_id) {
            Some(i) => i,
            None => {
                return Err(String::from_str("User has no forwarding rules"));
            },
        };
        let UserRules { user_id: uid, rules } = self.rules.take_at(at);
        let (kept, found) = retain_other_ids(rules, rule_id);
        self.put_entry(at, UserRules { user_id: uid, rules: kept });
        if !found {
            return Err(String::from_str("Forwarding rule not found"));
        }
        Ok(())
    }

    /// Copies of the rules of `user`, in priority order.
    pub fn get_user_rules(&self, user_id: &str) -> (r: Vec<ForwardingRule>)
        requires
            self.wf(),
        ensures
            same_rules(r@, self.rules_of(user_id@)),
    {
        match self.rules.get(user_id) {
            Some(e) => copy_rules(&e.rules),
            None => Vec::new(),
        }
    }

    /// A copy of the first rule of `user` with identifier `rule_id`.
    pub fn get_rule(&self, user_id: &str, rule_id: u128) -> (r: Option<ForwardingRule>)
        requires
            self.wf(),
        ensures
            match r {
                Some(x) => exists|i: int| is_first_id(self.rules_of(user_id@), rule_id, i) && same_rule(
                    x,
                    self.rules_of(user_id@)[i],
                ),
                None => !has_id(self.rules_of(user_id@), rule_id),
            },
    {
        match self.rules.get(user_id) {
            Some(e) => match find_id(&e.rules, rule_id) {
                Some(i) => {
                    let x = e.rules[i].duplicate();
                    assert(is_first_id(self.rules_of(user_id@), rule_id, i as int) && same_rule(
                        x,
                        self.rules_of(user_id@)[i as int],
                    ));
                    Some(x)
                },
                None => None,
            },
            None => None,
        }
    }

    /// Sets whether the first rule with identifier `rule_id` is enabled, at `now`.
    pub fn set_rule_enabled_at(&mut self, user_id: &str, rule_id: u128, enabled: bool, now: i64) -> (r: Result<(), String>)
        requires
            old(self).wf(),
        ensures
            final(self).wf(),
            ({
                let s = old(self).rules_of(user_id@);
                if !old(self).has_entry(user_id@) {
                    r is Err && r->Err_0@ == "User has no forwarding rules"@ && final(self).same_rules_and_counts(old(self))
                } else if !has_id(s, rule_id) {
                    r is Err && r->Err_0@ == "Forwarding rule not found"@ && final(self).same_rules_and_counts(old(self))
                } else {
                    &&& r is Ok
                    &&& exists|i: int| is_first_id(s, rule_id, i) && final(self).rules_of(user_id@) == s.update(
                        i,
                        ForwardingRule { enabled, updated_at: now, ..s[i] },
                    )
                    &&& final(self).others_same(old(self), user_id@)
                }
            }),
    {
        let at = match self.rules.find(user_id) {
            Some(i) => i,
            None => {
                return Err(String::from_str("User has no forwarding rules"));
            },
        };
        proof {
            lemma_lookup_at(self.rules.items(), at as int);
        }
        let i = match find_id(&self.rules.at(at).rules, rule_id) {
            Some(i) => i,
            None => {
                return Err(String::from_str("Forwarding rule not found"));
            },
        };
        let mut e = self.rules.take_at(at);
        let ghost s = e.rules@;
        let mut x = e.rules.remove(i);
        x.enabled = enabled;
        x.updated_at = now;
        e.rules.insert(i, x);
        proof {
            assert(e.rules@ =~= s.update(i as int, ForwardingRule { enabled, updated_at: now, ..s[i as int] }));
            assert forall|a: int, b: int| 0 <= a < b < e.rules@.len() implies (#[trigger] e.rules@[a]).priority
                <= (#[trigger] e.rules@[b]).priority by {
                assert(s[a].priority <= s[b].priority);
            }
        }
        self.put_entry(at, e);
        Ok(())
    }

    /// Enables a rule, by the clock.
    pub fn enable_rule(&mut self, user_id: &str, rule_id: u128) -> (r: Result<(), String>)
        requires
            old(self).wf(),
        ensures
            final(self).wf(),
            r is Ok <==> (old(self).has_entry(user_id@) && has_id(old(self).rules_of(user_id@), rule_id)),
            r is Err ==> final(self).same_rules_and_counts(old(self)),
    {
        let now = now_millis();
        self.set_rule_enabled_at(user_id, rule_id, true, now)
    }

    /// Disables a rule, by the clock.
    pub fn disable_rule(&mut self, user_id: &str, rule_id: u128) -> (r: Result<(), String>)
        requires
            old(self).wf(),
        ensures
            final(self).wf(),
            r is Ok <==> (old(self).has_entry(user_id@) && has_id(old(self).rules_of(user_id@), rule_id)),
            r is Err ==> final(self).same_rules_and_counts(old(self)),
    {
        let now = now_millis();
        self.set_rule_enabled_at(user_id, rule_id, false, now)
    }
    /// Position of the first rule of `user` that fits.
    fn first_fit_index(&self, user_id: &str, t: Option<ForwardingType>, caller: &str, now: i64) -> (r: Option<(usize, usize)>)
        requires
            self.wf(),
        ensures
            match r {
                Some((at, k)) => {
                    &&& at < self.rules.items().len()
                    &&& self.rules.items()[at as int].rules@ == self.rules_of(user_id@)
                    &&& k == first_fit(self.rules_of(user_id@), t, caller@, now)
                    &&& k < self.rules_of(user_id@).len()
                },
                None => first_fit(self.rules_of(user_id@), t, caller@, now) >= self.rules_of(user_id@).len(),
            },
    {
        let at = match self.rules.find(user_id) {
            Some(i) => i,
            None => {
                return None;
            },
        };
        proof {
            lemma_lookup_at(self.rules.items(), at as int);
        }
        let rules = &self.rules.at(at).rules;
        let ghost s = rules@;
        assert(self.rules.items()[at as int].key() == user_id@);
        assert(s == self.rules_of(user_id@));
        let mut k: usize = 0;
        assert(s.subrange(0, s.len() as int) =~= s);
        while k < rules.len()
            invariant
                s == rules@,
                at < self.rules.items().len(),
                self.rules.items()[at as int].rules@ == s,
                s == self.rules_of(user_id@),
                k <= s.len(),
                first_fit(s, t, caller@, now) == k + first_fit(s.subrange(k as int, s.len() as int), t, caller@, now),
            decreases s.len() - k,
        {
            assert(s.subrange(k as int, s.len() as int)[0] == s[k as int]);
            assert(s.subrange(k as int, s.len() as int).drop_first() =~= s.subrange(k + 1, s.len() as int));
            let x = &rules[k];
            let type_ok = match t {
                Some(ty) => x.forwarding_type == ty,
                None => true,
            };
            if x.enabled && type_ok && x.should_apply(caller, now) {
                proof {
                    let sub = s.subrange(k as int, s.len() as int);
                    assert(rule_fits(sub[0], t, caller@, now));
                    assert(first_fit(sub, t, caller@, now) == 0);
                }
                return Some((at, k));
            }
            k = k + 1;
        }
        None
    }

    /// The destination of the first enabled rule of type `forwarding_type`
    /// of `user` that applies to a call from `caller` at `now` (milliseconds);
    /// with the rules in priority order this is the highest-priority one.
    pub fn get_forward_destination_at(&self, user_id: &str, forwarding_type: ForwardingType, caller: &str, now: i64) -> (r: Option<ForwardingDestination>)
        requires
            self.wf(),
        ensures
            ({
                let s = self.rules_of(user_id@);
                let k = first_fit(s, Some(forwarding_type), caller@, now);
                r == if k < s.len() {
                    Some(s[k].destination)
                } else {
                    None
                }
            }),
    {
        match self.first_fit_index(user_id, Some(forwarding_type), caller, now) {
            Some((at, k)) => Some(self.rules.at(at).rules[k].destination.duplicate()),
            None => None,
        }
    }

    /// The forwarding destination of a type for a call now.
    pub fn get_forward_destination(&self, user_id: &str, forwarding_type: ForwardingType, caller: &str) -> (r: Option<ForwardingDestination>)
        requires
            self.wf(),
        ensures
            r is Some ==> self.rules_of(user_id@).len() > 0,
            exists|now: i64| #[trigger] clock_reading(now) && {
                &&& (({
                    let s = self.rules_of(user_id@);
                    let k = first_fit(s, Some(forwarding_type), caller@, now);
                    r == if k < s.len() {
                        Some(s[k].destination)
                    } else {
                        None
                    }
                }))
            },
    {
        let now = now_millis();
        proof {
            assert(clock_reading(now));
        }
        self.get_forward_destination_at(user_id, forwarding_type, caller, now)
    }

    /// The type and destination of the first enabled rule of `user` that
    /// applies to a call from `caller` at `now` (milliseconds).
    pub fn get_any_forward_destination_at(&self, user_id: &str, caller: &str, now: i64) -> (r: Option<(ForwardingType, ForwardingDestination)>)
        requires
            self.wf(),
        ensures
            ({
                let s = self.rules_of(user_id@);
                let k = first_fit(s, None, caller@, now);
                r == if k < s.len() {
                    Some((s[k].forwarding_type, s[k].destination))
                } else {
                    None
                }
            }),
    {
        match self.first_fit_index(user_id, None, caller, now) {
            Some((at, k)) => {
                let x = &self.rules.at(at).rules[k];
                Some((x.forwarding_type, x.destination.duplicate()))
            },
            None => None,
        }
    }

    /// The first applicable forwarding of any type for a call now.
    pub fn get_any_forward_destination(&self, user_id: &str, caller: &str) -> (r: Option<(ForwardingType, ForwardingDestination)>)
        requires
            self.wf(),
        ensures
            r is Some ==> self.rules_of(user_id@).len() > 0,
            exists|now: i64| #[trigger] clock_reading(now) && {
                &&& (({
                    let s = self.rules_of(user_id@);
                    let k = first_fit(s, None, caller@, now);
                    r == if k < s.len() {
                        Some((s[k].forwarding_type, s[k].destination))
                    } else {
                        None
                    }
                }))
            },
    {
        let now = now_millis();
        proof {
            assert(clock_reading(now));
        }
        self.get_any_forward_destination_at(user_id, caller, now)
    }

    /// Where a call from `source` that reached `dest` is forwarded next at `now`.
    pub open spec fn next_hop(&self, dest: Seq<char>, source: Seq<char>, now: i64) -> Option<Seq<char>> {
        let s = self.rules_of(dest);
        let k = first_fit(s, None, source, now);
        if k < s.len() {
            Some(s[k].destination.uri@)
        } else {
            None
        }
    }

    /// Following the forwarding of a call from `source` that reached `dest`,
    /// with `visited` already seen: whether it comes back to the source or to
    /// a destination already seen, and the destinations seen by then. `fuel`
    /// bounds the hops (the bound used is never reached).
    pub open spec fn chain(&self, source: Seq<char>, dest: Seq<char>, visited: Seq<Seq<char>>, fuel: nat, now: i64) -> (bool, Seq<Seq<char>>)
        decreases fuel,
    {
        if dest == source || visited.contains(dest) {
            (true, visited)
        } else if fuel == 0 {
            (false, visited.push(dest))
        } else {
            match self.next_hop(dest, source, now) {
                Some(n) => self.chain(source, n, visited.push(dest), (fuel - 1) as nat, now),
                None => (false, visited.push(dest)),
            }
        }
    }

    /// Whether forwarding from `source` to `dest` at `now` loops, and the
    /// destinations seen once the chain has been followed from `visited`.
    pub open spec fn loop_check(&self, source: Seq<char>, dest: Seq<char>, visited: Seq<Seq<char>>, now: i64) -> (bool, Seq<Seq<char>>) {
        self.chain(source, dest, visited, self.unvisited(visited) + 1, now)
    }

    /// How many users with an entry are not among `visited`.
    pub closed spec fn unvisited(&self, visited: Seq<Seq<char>>) -> nat {
        count_unvisited(self.spec_users(), visited)
    }

    /// Whether forwarding a call from `source` to `destination` at `now`
    /// (milliseconds) would loop: following the forwarding rules from the
    /// destination comes back to the source or to a destination already seen.
    /// Every destination followed is added to `visited`.
    pub fn would_create_loop_at(&self, source: &str, destination: &str, visited: &mut Vec<String>, now: i64) -> (r: bool)
        requires
            self.wf(),
        ensures
            ({
                let v0 = texts(old(visited)@);
                let c = self.chain(source@, destination@, v0, self.unvisited(v0) + 1, now);
                r == c.0 && texts(final(visited)@) == c.1
            }),
    {
        let ghost v0 = texts(visited@);
        let ghost fuel0: nat = self.unvisited(v0) + 1;
        let mut dest = String::from_str(destination);
        let ghost mut fuel: nat = fuel0;
        loop
            invariant
                self.wf(),
                v0 == texts(old(visited)@),
                fuel0 == self.unvisited(v0) + 1,
                fuel >= self.unvisited(texts(visited@)) + 1,
                self.chain(source@, destination@, v0, fuel0, now) == self.chain(source@, dest@, texts(visited@), fuel, now),
            decreases self.unvisited(texts(visited@)),
        {
            if str_eq(dest.as_str(), source) || contains_text(visited, dest.as_str()) {
                assert(self.chain(source@, dest@, texts(visited@), fuel, now) == (true, texts(visited@)));
                return true;
            }
            let ghost before = texts(visited@);
            let ghost d = dest@;
            visited.push(dest.clone());
            assert(texts(visited@) =~= before.push(d));
            match self.get_any_forward_destination_at(d_str(&dest), source, now) {
                Some((_, next)) => {
                    proof {
                        assert(self.next_hop(d, source@, now) == Some(next.uri@));
                        assert(self.chain(source@, d, before, fuel, now) == self.chain(source@, next.uri@, before.push(d), (fuel - 1) as nat, now));
                        self.lemma_hop_has_entry(d, source@, now);
                        lemma_unvisited_push(self.spec_users(), before, d);
                        self.lemma_users_distinct();
                        fuel = (fuel - 1) as nat;
                    }
                    dest = next.uri;
                },
                None => {
                    assert(self.next_hop(d, source@, now) is None);
                    assert(self.chain(source@, d, before, fuel, now) == (false, before.push(d)));
                    return false;
                },
            }
        }
    }

    /// Whether forwarding a call would loop, by the clock.
    pub fn would_create_loop(&self, source: &str, destination: &str, visited: &mut Vec<String>) -> (r: bool)
        requires
            self.wf(),
        ensures
            r == false ==> texts(final(visited)@).contains(destination@),
            exists|now: i64| #[trigger] self.loop_check(source@, destination@, texts(old(visited)@), now)
                == (r, texts(final(visited)@)),
    {
        let now = now_millis();
        let r = self.would_create_loop_at(source, destination, visited, now);
        proof {
            let v0 = texts(old(visited)@);
            self.lemma_chain_visits(source@, destination@, v0, self.unvisited(v0) + 1, now);
            assert(self.loop_check(source@, destination@, v0, now) == (r, texts(visited@)));
        }
        r
    }

    /// A hop from `dest` means `dest` has an entry.
    proof fn lemma_hop_has_entry(&self, dest: Seq<char>, source: Seq<char>, now: i64)
        requires
            self.wf(),
            self.next_hop(dest, source, now) is Some,
        ensures
            self.spec_users().contains(dest),
    {
        let items = self.rules.items();
        assert(self.rules.get_spec(dest) is Some);
        assert(crate::store::has_key(items, dest));
        let j = choose|j: int| 0 <= j < items.len() && (#[trigger] items[j]).key() == dest;
        assert(self.spec_users()[j] == dest);
    }

    /// No user has two entries.
    proof fn lemma_users_distinct(&self)
        requires
            self.wf(),
        ensures
            self.spec_users().no_duplicates(),
    {
        let items = self.rules.items();
        assert forall|i: int, j: int| 0 <= i < self.spec_users().len() && 0 <= j < self.spec_users().len() && i != j
            implies self.spec_users()[i] != self.spec_users()[j] by {
            assert(items[i].key() != items[j].key());
        }
    }

    /// A loop check that finds no loop has seen the destination.
    proof fn lemma_chain_visits(&self, source: Seq<char>, dest: Seq<char>, visited: Seq<Seq<char>>, fuel: nat, now: i64)
        ensures
            !self.chain(source, dest, visited, fuel, now).0 ==> self.chain(source, dest, visited, fuel, now).1.contains(dest),
        decreases fuel,
    {
        if dest == source || visited.contains(dest) {
        } else if fuel == 0 {
            assert(visited.push(dest)[visited.len() as int] == dest);
        } else {
            match self.next_hop(dest, source, now) {
                Some(n) => {
                    self.lemma_chain_visits(source, n, visited.push(dest), (fuel - 1) as nat, now);
                    assert(visited.push(dest)[visited.len() as int] == dest);
                    self.lemma_chain_keeps(source, n, visited.push(dest), (fuel - 1) as nat, now, dest);
                },
                None => {
                    assert(visited.push(dest)[visited.len() as int] == dest);
                },
            }
        }
    }

    /// What has been seen stays seen.
    proof fn lemma_chain_keeps(&self, source: Seq<char>, dest: Seq<char>, visited: Seq<Seq<char>>, fuel: nat, now: i64, x: Seq<char>)
        requires
            visited.contains(x),
        ensures
            self.chain(source, dest, visited, fuel, now).1.contains(x),
        decreases fuel,
    {
        if dest == source || visited.contains(dest) {
        } else {
            let k = choose|k: int| 0 <= k < visited.len() && visited[k] == x;
            assert(visited.push(dest)[k] == x);
            if fuel > 0 {
                match self.next_hop(dest, source, now) {
                    Some(n) => {
                        self.lemma_chain_keeps(source, n, visited.push(dest), (fuel - 1) as nat, now, x);
                    },
                    None => {},
                }
            }
        }
    }

    /// Counts a forwarded call of type `t`.
    pub fn record_forwarded_call(&mut self, forwarding_type: ForwardingType)
        requires
            old(self).wf(),
            old(self).spec_forwarded() < u64::MAX,
        ensures
            final(self).wf(),
            final(self).spec_forwarded() == old(self).spec_forwarded() + 1,
            forall|t: ForwardingType| #[trigger] final(self).spec_by_type().spec_get(t) == old(self).spec_by_type().spec_get(t)
                + if t == forwarding_type { 1int } else { 0 },
            forall|u: Seq<char>| final(self).rules_of(u) == old(self).rules_of(u),
    {
        self.forwarded_calls = self.forwarded_calls + 1;
        match forwarding_type {
            ForwardingType::Unconditional => {
                self.calls_by_type.unconditional = self.calls_by_type.unconditional + 1;
            },
            ForwardingType::Busy => {
                self.calls_by_type.busy = self.calls_by_type.busy + 1;
            },
            ForwardingType::NoAnswer => {
                self.calls_by_type.no_answer = self.calls_by_type.no_answer + 1;
            },
            ForwardingType::Unavailable => {
                self.calls_by_type.unavailable = self.calls_by_type.unavailable + 1;
            },
            ForwardingType::TimeBased => {
                self.calls_by_type.time_based = self.calls_by_type.time_based + 1;
            },
            ForwardingType::CallerBased => {
                self.calls_by_type.caller_based = self.calls_by_type.caller_based + 1;
            },
            ForwardingType::Voicemail => {
                self.calls_by_type.voicemail = self.calls_by_type.voicemail + 1;
            },
        }
    }
    /// The forwarding status of `user`: how many rules are enabled, and the
    /// destination of the last enabled rule of each of the unconditional,
    /// busy and no-answer types.
    pub fn get_status(&self, user_id: &str) -> (r: ForwardingStatus)
        requires
            self.wf(),
        ensures
            ({
                let s = self.rules_of(user_id@);
                &&& r.user_id@ == user_id@
                &&& r.active_rules_count == enabled_count(s)
                &&& r.has_active_forwarding == (enabled_count(s) > 0)
                &&& opt_text(r.unconditional_destination) == last_enabled_uri(s, ForwardingType::Unconditional)
                &&& opt_text(r.busy_destination) == last_enabled_uri(s, ForwardingType::Busy)
                &&& opt_text(r.no_answer_destination) == last_enabled_uri(s, ForwardingType::NoAnswer)
            }),
    {
        let mut status = ForwardingStatus::new(String::from_str(user_id));
        match self.rules.get(user_id) {
            Some(e) => {
                let ghost s = e.rules@;
                let mut count: usize = 0;
                let mut i: usize = 0;
                while i < e.rules.len()
                    invariant
                        s == e.rules@,
                        i <= s.len(),
                        count == enabled_count(s.take(i as int)),
                        count <= i,
                        status.user_id@ == user_id@,
                        opt_text(status.unconditional_destination) == last_enabled_uri(
                            s.take(i as int),
                            ForwardingType::Unconditional,
                        ),
                        opt_text(status.busy_destination) == last_enabled_uri(s.take(i as int), ForwardingType::Busy),
                        opt_text(status.no_answer_destination) == last_enabled_uri(
                            s.take(i as int),
                            ForwardingType::NoAnswer,
                        ),
                    decreases s.len() - i,
                {
                    assert(s.take(i + 1).drop_last() =~= s.take(i as int));
                    assert(s.take(i + 1).last() == s[i as int]);
                    let x = &e.rules[i];
                    if x.enabled {
                        count = count + 1;
                        match x.forwarding_type {
                            ForwardingType::Unconditional => {
                                status.unconditional_destination = Some(x.destination.uri.clone());
                            },
                            ForwardingType::Busy => {
                                status.busy_destination = Some(x.destination.uri.clone());
                            },
                            ForwardingType::NoAnswer => {
                                status.no_answer_destination = Some(x.destination.uri.clone());
                            },
                            _ => {},
                        }
                    }
                    i = i + 1;
                }
                assert(s.take(i as int) =~= s);
                status.active_rules_count = count;
                status.has_active_forwarding = count > 0;
                status
            },
            None => {
                assert(self.rules_of(user_id@) =~= Seq::<ForwardingRule>::empty());
                status
            },
        }
    }

    /// How many rules the users hold in all.
    pub open spec fn total_rules_of(&self, users: Seq<Seq<char>>) -> nat
        decreases users.len(),
    {
        if users.len() == 0 {
            0
        } else {
            self.total_rules_of(users.drop_last()) + self.rules_of(users.last()).len()
        }
    }

    /// How many enabled rules the users hold in all.
    pub open spec fn enabled_rules_of(&self, users: Seq<Seq<char>>) -> nat
        decreases users.len(),
    {
        if users.len() == 0 {
            0
        } else {
            self.enabled_rules_of(users.drop_last()) + enabled_count(self.rules_of(users.last()))
        }
    }

    /// The users with an enabled rule, in order.
    pub open spec fn forwarding_users(&self, users: Seq<Seq<char>>) -> Seq<Seq<char>>
        decreases users.len(),
    {
        if users.len() == 0 {
            Seq::empty()
        } else if enabled_count(self.rules_of(users.last())) > 0 {
            self.forwarding_users(users.drop_last()).push(users.last())
        } else {
            self.forwarding_users(users.drop_last())
        }
    }

    /// Forwarding statistics: rules in all, enabled and disabled, the
    /// forwarded-call counters, and the users with an enabled rule.
    pub fn get_statistics(&self) -> (r: ForwardingStatistics)
        requires
            self.wf(),
            self.total_rules_of(self.spec_users()) <= usize::MAX,
        ensures
            r.total_rules == self.total_rules_of(self.spec_users()),
            r.active_rules == self.enabled_rules_of(self.spec_users()),
            r.disabled_rules == r.total_rules - r.active_rules,
            r.total_forwarded_calls == self.spec_forwarded(),
            r.by_type == self.spec_by_type(),
            r.users_with_forwarding == self.forwarding_users(self.spec_users()).len(),
    {
        let ghost users = self.spec_users();
        let mut total: usize = 0;
        let mut active: usize = 0;
        let mut with: usize = 0;
        let mut i: usize = 0;
        while i < self.rules.len()
            invariant
                self.wf(),
                users == self.spec_users(),
                users.len() == self.rules.items().len(),
                i <= users.len(),
                total == self.total_rules_of(users.take(i as int)),
                active == self.enabled_rules_of(users.take(i as int)),
                active <= total,
                with == self.forwarding_users(users.take(i as int)).len(),
                with <= i,
                self.total_rules_of(users) <= usize::MAX,
            decreases users.len() - i,
        {
            assert(users.take(i + 1).drop_last() =~= users.take(i as int));
            proof {
                lemma_lookup_at(self.rules.items(), i as int);
                assert(users.take(i + 1).last() == users[i as int]);
                assert(users[i as int] == self.rules.items()[i as int].user_id@);
                self.lemma_total_prefix(users, i as int + 1);
            }
            let e = self.rules.at(i);
            let n = e.rules.len();
            let c = count_enabled(&e.rules);
            total = total + n;
            active = active + c;
            if c > 0 {
                with = with + 1;
            }
            i = i + 1;
        }
        assert(users.take(i as int) =~= users);
        let mut stats = ForwardingStatistics::new();
        stats.total_rules = total;
        stats.active_rules = active;
        stats.disabled_rules = total - active;
        stats.total_forwarded_calls = self.forwarded_calls;
        stats.by_type = self.calls_by_type;
        stats.users_with_forwarding = with;
        stats
    }

    /// The total over a prefix of the users is at most the total over all.
    proof fn lemma_total_prefix(&self, users: Seq<Seq<char>>, n: int)
        requires
            0 <= n <= users.len(),
        ensures
            self.total_rules_of(users.take(n)) <= self.total_rules_of(users),
        decreases users.len(),
    {
        if n < users.len() {
            assert(users.drop_last().take(n) =~= users.take(n));
            self.lemma_total_prefix(users.drop_last(), n);
        } else {
            assert(users.take(n) =~= users);
        }
    }

    /// Removes every rule of `user`; gives back how many there were.
    pub fn remove_all_user_rules(&mut self, user_id: &str) -> (r: usize)
        requires
            old(self).wf(),
        ensures
            final(self).wf(),
            r == old(self).rules_of(user_id@).len(),
            final(self).rules_of(user_id@).len() == 0,
            !final(self).has_entry(user_id@),
            final(self).others_same(old(self), user_id@),
    {
        match self.rules.remove(user_id) {
            Some(e) => e.rules.len(),
            None => 0,
        }
    }

    /// The users with an enabled rule, in the order they got an entry.
    pub fn list_users_with_forwarding(&self) -> (r: Vec<String>)
        requires
            self.wf(),
        ensures
            texts(r@) == self.forwarding_users(self.spec_users()),
    {
        let ghost users = self.spec_users();
        let mut out: Vec<String> = Vec::new();
        let mut i: usize = 0;
        while i < self.rules.len()
            invariant
                self.wf(),
                users == self.spec_users(),
                users.len() == self.rules.items().len(),
                i <= users.len(),
                texts(out@) == self.forwarding_users(users.take(i as int)),
            decreases users.len() - i,
        {
            assert(users.take(i + 1).drop_last() =~= users.take(i as int));
            proof {
                lemma_lookup_at(self.rules.items(), i as int);
                assert(users.take(i + 1).last() == users[i as int]);
                assert(users[i as int] == self.rules.items()[i as int].user_id@);
            }
            let e = self.rules.at(i);
            if count_enabled(&e.rules) > 0 {
                let ghost before = out@;
                out.push(e.user_id.clone());
                assert(texts(out@) =~= texts(before).push(e.user_id@));
            }
            i = i + 1;
        }
        assert(users.take(i as int) =~= users);
        out
    }
}

impl Default for CallForwardingManager {
    fn default() -> (r: Self)
        ensures
            r.wf(),
            forall|u: Seq<char>| r.rules_of(u).len() == 0,
            r.spec_forwarded() == 0,
    {
        Self::new()
    }
}

} // verus!
