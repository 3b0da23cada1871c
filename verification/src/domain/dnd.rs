//! Do Not Disturb: rejection modes, schedules, caller exceptions and the
//! per-user decision whether an incoming call is blocked.
use std::collections::HashMap;
use vstd::prelude::*;
use crate::domain::shared::calendar::{
    clock_parts, in_time_range, spec_clock_parts, spec_in_time_range, weekday_listed, TimeOfDay, Weekday,
};
use crate::domain::shared::system::{is_v4_uuid, new_uuid, now_millis};
use crate::store::{has_key, lemma_lookup_absent, KeyOf, Keyed, Store};
use crate::text::{
    chars_of, find_char, lemma_find_char, lemma_find_char_is, matches_at, occurs_at, seq_contains,
    seq_ends_with, seq_starts_with, str_eq, vec_contains, vec_ends_with, vec_eq, vec_starts_with,
};

verus! {

/// DND rejection mode: how blocked calls are handled.
#[derive(Debug, Clone, Copy, PartialEq, Eq, Hash, Structural)]
pub enum DndMode {
    /// Reject calls with busy signal (486 Busy Here)
    RejectBusy,
    /// Send calls to voicemail
    SendToVoicemail,
    /// Send calls to alternate number
    ForwardToAlternate,
    /// Silent reject (no response)
    SilentReject,
    /// Play custom announcement then disconnect
    PlayAnnouncementDisconnect,
}

impl DndMode {
    pub open spec fn spec_description(self) -> Seq<char> {
        match self {
            DndMode::RejectBusy => "Reject with busy signal"@,
            DndMode::SendToVoicemail => "Send to voicemail"@,
            DndMode::ForwardToAlternate => "Forward to alternate number"@,
            DndMode::SilentReject => "Silent reject"@,
            DndMode::PlayAnnouncementDisconnect => "Play announcement then disconnect"@,
        }
    }

    /// The SIP response answered in each mode: 486 Busy Here, 302 Moved
    /// Temporarily (voicemail or alternate), 603 Decline, 480 Temporarily Unavailable.
    pub open spec fn spec_sip_response_code(self) -> u16 {
        match self {
            DndMode::RejectBusy => 486,
            DndMode::SendToVoicemail => 302,
            DndMode::ForwardToAlternate => 302,
            DndMode::SilentReject => 603,
            DndMode::PlayAnnouncementDisconnect => 480,
        }
    }

    pub fn description(&self) -> (r: &str)
        ensures
            r@ == self.spec_description(),
    {
        match self {
            DndMode::RejectBusy => "Reject with busy signal",
            DndMode::SendToVoicemail => "Send to voicemail",
            DndMode::ForwardToAlternate => "Forward to alternate number",
            DndMode::SilentReject => "Silent reject",
            DndMode::PlayAnnouncementDisconnect => "Play announcement then disconnect",
        }
    }

    /// Get the SIP response code for this mode.
    pub fn sip_response_code(&self) -> (r: u16)
        ensures
            r == self.spec_sip_response_code(),
    {
        match self {
            DndMode::RejectBusy => 486,
            DndMode::SendToVoicemail => 302,
            DndMode::ForwardToAlternate => 302,
            DndMode::SilentReject => 603,
            DndMode::PlayAnnouncementDisconnect => 480,
        }
    }
}

/// The pieces of `s` between `*` characters (one more piece than stars).
pub open spec fn split_star(s: Seq<char>) -> Seq<Seq<char>>
    decreases s.len(),
{
    let f = find_char(s, '*');
    if 0 <= f < s.len() {
        seq![s.take(f)] + split_star(s.skip(f + 1))
    } else {
        seq![s]
    }
}

/// The first position at or after `i` where `needle` occurs in `hay`.
pub open spec fn find_from(hay: Seq<char>, needle: Seq<char>, i: int) -> Option<int>
    decreases hay.len() - i,
{
    if i < 0 || i + needle.len() > hay.len() {
        None
    } else if occurs_at(hay, needle, i) {
        Some(i)
    } else if i >= hay.len() {
        None
    } else {
        find_from(hay, needle, i + 1)
    }
}

/// Matching the pieces from the `i`-th on, the text being consumed up to
/// `pos`: inner pieces must occur in order (each at its first occurrence
/// after the previous one), and the last piece must end the text without
/// overlapping what the earlier pieces consumed.
pub open spec fn wildcard_rest(text: Seq<char>, parts: Seq<Seq<char>>, i: int, pos: int) -> bool
    decreases parts.len() - i,
{
    if i < 0 || i >= parts.len() - 1 {
        pos + parts.last().len() <= text.len() && seq_ends_with(text, parts.last())
    } else {
        match find_from(text, parts[i], pos) {
            Some(f) => wildcard_rest(text, parts, i + 1, f + parts[i].len()),
            None => false,
        }
    }
}

/// Wildcard matching with `*` for any run of characters: an empty pattern
/// matches only empty text, a pattern without `*` must equal the text, and
/// otherwise the text must start with the first piece, contain the inner
/// pieces in order after it, and end with the last piece after those, the
/// pieces never overlapping.
pub open spec fn spec_wildcard_match(pattern: Seq<char>, text: Seq<char>) -> bool {
    if pattern.len() == 0 {
        text.len() == 0
    } else {
        let parts = split_star(pattern);
        if parts.len() == 1 {
            pattern == text
        } else {
            seq_starts_with(text, parts[0]) && wildcard_rest(text, parts, 1, parts[0].len() as int)
        }
    }
}

/// `split_star` has at least one piece, and the pieces of a pattern without
/// stars are the pattern itself.
proof fn lemma_split_star_len(s: Seq<char>)
    ensures
        split_star(s).len() >= 1,
        split_star(s).len() == 1 <==> find_char(s, '*') >= s.len(),
        split_star(s).len() == 1 ==> split_star(s)[0] == s,
    decreases s.len(),
{
    lemma_find_char(s, '*');
    let f = find_char(s, '*');
    if f < s.len() {
        lemma_split_star_len(s.skip(f + 1));
    }
}

/// Splits characters at each `*`.
fn split_at_star(s: &Vec<char>) -> (r: Vec<Vec<char>>)
    ensures
        r@.len() == split_star(s@).len(),
        forall|k: int| 0 <= k < r@.len() ==> (#[trigger] r@[k])@ == split_star(s@)[k],
{
    let mut parts: Vec<Vec<char>> = Vec::new();
    let mut cur: Vec<char> = Vec::new();
    let mut start: usize = 0;
    let mut i: usize = 0;
    let ghost mut done: Seq<Seq<char>> = Seq::empty();
    assert(s@.skip(0) =~= s@);
    assert(done + split_star(s@.skip(0)) =~= split_star(s@));
    while i < s.len()
        invariant
            start <= i <= s@.len(),
            cur@ == s@.subrange(start as int, i as int),
            forall|j: int| start <= j < i ==> s@[j] != '*',
            parts@.len() == done.len(),
            forall|k: int| 0 <= k < parts@.len() ==> (#[trigger] parts@[k])@ == done[k],
            done + split_star(s@.skip(start as int)) == split_star(s@),
        decreases s.len() - i,
    {
        if s[i] == '*' {
            let ghost rest = s@.skip(start as int);
            proof {
                assert forall|j: int| 0 <= j < i - start implies rest[j] != '*' by {
                    assert(rest[j] == s@[start + j]);
                }
                lemma_find_char_is(rest, '*', i - start);
                assert(rest.take(i - start) =~= cur@);
                assert(rest.skip(i - start + 1) =~= s@.skip(i + 1));
                assert(split_star(rest) == seq![cur@] + split_star(s@.skip(i + 1)));
                assert(done.push(cur@) + split_star(s@.skip(i + 1)) =~= done + split_star(rest));
                done = done.push(cur@);
            }
            parts.push(cur);
            cur = Vec::new();
            start = i + 1;
            assert(cur@ =~= s@.subrange(start as int, start as int));
        } else {
            cur.push(s[i]);
            assert(cur@ =~= s@.subrange(start as int, i + 1));
        }
        i = i + 1;
    }
    proof {
        let rest = s@.skip(start as int);
        assert forall|j: int| 0 <= j < rest.len() implies rest[j] != '*' by {
            assert(rest[j] == s@[start + j]);
        }
        lemma_find_char_is(rest, '*', rest.len() as int);
        assert(rest =~= cur@);
        assert(split_star(rest) == seq![rest]);
        assert(done + seq![rest] =~= done.push(cur@));
        done = done.push(cur@);
    }
    let ghost before = parts@;
    parts.push(cur);
    assert forall|k: int| 0 <= k < parts@.len() implies (#[trigger] parts@[k])@ == split_star(s@)[k] by {
        if k < before.len() {
            assert(parts@[k] == before[k]);
        }
    }
    parts
}

/// The first position at or after `from` where `needle` occurs in `hay`.
fn find_from_exec(hay: &Vec<char>, needle: &Vec<char>, from: usize) -> (r: Option<usize>)
    requires
        from <= hay@.len(),
    ensures
        match r {
            Some(f) => find_from(hay@, needle@, from as int) == Some(f as int),
            None => find_from(hay@, needle@, from as int) is None,
        },
    decreases hay@.len() - from,
{
    if needle.len() > hay.len() - from {
        return None;
    }
    if matches_at(hay, needle, from) {
        assert(occurs_at(hay@, needle@, from as int));
        return Some(from);
    }
    if from == hay.len() {
        return None;
    }
    find_from_exec(hay, needle, from + 1)
}

/// A found occurrence lies within the text.
proof fn lemma_find_from_bounds(hay: Seq<char>, needle: Seq<char>, i: int)
    ensures
        find_from(hay, needle, i) matches Some(f) ==> i <= f && f + needle.len() <= hay.len(),
    decreases hay.len() - i,
{
    if !(i < 0 || i + needle.len() > hay.len()) && !occurs_at(hay, needle, i) && i < hay.len() {
        lemma_find_from_bounds(hay, needle, i + 1);
    }
}

/// Wildcard matching (`*` matches any run of characters).
pub fn wildcard_match(pattern: &str, text: &str) -> (r: bool)
    ensures
        r == spec_wildcard_match(pattern@, text@),
{
    let p = chars_of(pattern);
    let t = chars_of(text);
    if p.len() == 0 {
        return t.len() == 0;
    }
    let parts = split_at_star(&p);
    proof { lemma_split_star_len(p@); }
    if parts.len() == 1 {
        return vec_eq(&p, &t);
    }
    let ghost sp = split_star(p@);
    if !vec_starts_with(&t, &parts[0]) {
        return false;
    }
    let mut pos: usize = parts[0].len();
    assert(parts@[0]@ == sp[0]);
    assert(spec_wildcard_match(pattern@, text@) == wildcard_rest(t@, sp, 1, pos as int));
    let mut i: usize = 1;
    let last = parts.len() - 1;
    while i < last
        invariant
            1 <= i <= last,
            last == parts@.len() - 1,
            sp == split_star(p@),
            parts@.len() == sp.len(),
            forall|k: int| 0 <= k < parts@.len() ==> (#[trigger] parts@[k])@ == sp[k],
            pos <= t@.len(),
            spec_wildcard_match(pattern@, text@) == wildcard_rest(t@, sp, i as int, pos as int),
            t@ == text@,
        decreases last - i,
    {
        assert(parts@[i as int]@ == sp[i as int]);
        match find_from_exec(&t, &parts[i], pos) {
            Some(f) => {
                proof { lemma_find_from_bounds(t@, parts@[i as int]@, pos as int); }
                assert(f + parts@[i as int]@.len() <= t.len());
                pos = f + parts[i].len();
            },
            None => {
                return false;
            },
        }
        i = i + 1;
    }
    assert(parts@[last as int]@ == sp.last());
    parts[last].len() <= t.len() - pos && vec_ends_with(&t, &parts[last])
}

/// Exception matching type.
#[derive(Debug, Clone, Copy, PartialEq, Eq, Structural)]
pub enum ExceptionType {
    /// Exact match of caller ID
    Exact,
    /// Prefix match (e.g., "555" matches "5551234")
    Prefix,
    /// Contains match
    Contains,
    /// Wildcard match (e.g., "*911" or "555*")
    Wildcard,
}

/// Whether one listed entry matches the caller under the exception type.
pub open spec fn spec_entry_matches(t: ExceptionType, entry: Seq<char>, caller: Seq<char>) -> bool {
    match t {
        ExceptionType::Exact => entry == caller,
        ExceptionType::Prefix => seq_starts_with(caller, entry),
        ExceptionType::Contains => seq_contains(caller, entry),
        ExceptionType::Wildcard => spec_wildcard_match(entry, caller),
    }
}

/// Exception rule letting specific callers through DND.
#[derive(Debug, Clone)]
pub struct DndException {
    /// Exception identifier
    pub id: u128,
    /// Exception type
    pub exception_type: ExceptionType,
    /// Caller identifiers (numbers, URIs, or patterns)
    pub callers: Vec<String>,
    /// Whether the exception is enabled
    pub enabled: bool,
    /// Optional description
    pub description: Option<String>,
}

impl DndException {
    /// An enabled exception with a fresh identifier.
    pub fn new(exception_type: ExceptionType, callers: Vec<String>) -> (r: Self)
        ensures
            is_v4_uuid(r.id),
            r.exception_type == exception_type,
            r.callers@ == callers@,
            r.enabled,
            r.description is None,
    {
        Self { id: new_uuid(), exception_type, callers, enabled: true, description: None }
    }

    pub fn with_description(self, description: String) -> (r: Self)
        ensures
            r == (DndException { description: Some(description), ..self }),
    {
        let mut s = self;
        s.description = Some(description);
        s
    }

    pub fn disabled(self) -> (r: Self)
        ensures
            r == (DndException { enabled: false, ..self }),
    {
        let mut s = self;
        s.enabled = false;
        s
    }

    /// An enabled exception matches a caller when some listed entry does.
    pub open spec fn spec_matches(&self, caller: Seq<char>) -> bool {
        self.enabled && exists|i: int|
            0 <= i < self.callers@.len() && spec_entry_matches(self.exception_type, #[trigger] self.callers@[i]@, caller)
    }

    /// Check if a caller matches this exception.
    pub fn matches_caller(&self, caller_id: &str) -> (r: bool)
        ensures
            r == self.spec_matches(caller_id@),
    {
        if !self.enabled {
            return false;
        }
        let caller = chars_of(caller_id);
        let mut i: usize = 0;
        while i < self.callers.len()
            invariant
                i <= self.callers@.len(),
                self.enabled,
                caller@ == caller_id@,
                forall|k: int|
                    0 <= k < i ==> !spec_entry_matches(self.exception_type, #[trigger] self.callers@[k]@, caller@),
            decreases self.callers.len() - i,
        {
            let entry_str: &str = self.callers[i].as_str();
            let m = match self.exception_type {
                ExceptionType::Exact => str_eq(entry_str, caller_id),
                ExceptionType::Prefix => {
                    let e = chars_of(entry_str);
                    vec_starts_with(&caller, &e)
                },
                ExceptionType::Contains => {
                    let e = chars_of(entry_str);
                    vec_contains(&caller, &e)
                },
                ExceptionType::Wildcard => wildcard_match(entry_str, caller_id),
            };
            if m {
                assert(spec_entry_matches(self.exception_type, self.callers@[i as int]@, caller@));
                return true;
            }
            i = i + 1;
        }
        false
    }
}

/// Time-based DND schedule.
#[derive(Debug, Clone)]
pub struct DndSchedule {
    /// Schedule identifier
    pub id: u128,
    /// Schedule name
    pub name: String,
    /// Start time
    pub start_time: TimeOfDay,
    /// End time
    pub end_time: TimeOfDay,
    /// Days of week (empty = all days)
    pub days_of_week: Vec<Weekday>,
    /// Whether the schedule is enabled
    pub enabled: bool,
    /// DND mode to use during this schedule
    pub mode: DndMode,
}

impl DndSchedule {
    pub fn new(name: String, start_time: TimeOfDay, end_time: TimeOfDay, mode: DndMode) -> (r: Self)
        ensures
            is_v4_uuid(r.id),
            r.name@ == name@,
            r.start_time == start_time,
            r.end_time == end_time,
            r.days_of_week@.len() == 0,
            r.enabled,
            r.mode == mode,
    {
        Self { id: new_uuid(), name, start_time, end_time, days_of_week: Vec::new(), enabled: true, mode }
    }

    pub fn with_days(self, days: Vec<Weekday>) -> (r: Self)
        ensures
            r == (DndSchedule { days_of_week: days, ..self }),
    {
        let mut s = self;
        s.days_of_week = days;
        s
    }

    pub fn disabled(self) -> (r: Self)
        ensures
            r == (DndSchedule { enabled: false, ..self }),
    {
        let mut s = self;
        s.enabled = false;
        s
    }

    /// A schedule is active when enabled, on a listed day (any day when none
    /// is listed), and within its time range.
    pub open spec fn spec_is_active(&self, time: TimeOfDay, weekday: Weekday) -> bool {
        &&& self.enabled
        &&& (self.days_of_week@.len() == 0 || self.days_of_week@.contains(weekday))
        &&& spec_in_time_range(time, self.start_time, self.end_time)
    }

    /// Check if the time falls within this schedule.
    pub fn is_active(&self, time: TimeOfDay, weekday: Weekday) -> (r: bool)
        ensures
            r == self.spec_is_active(time, weekday),
    {
        if !self.enabled {
            return false;
        }
        if self.days_of_week.len() != 0 && !weekday_listed(&self.days_of_week, weekday) {
            return false;
        }
        in_time_range(&time, &self.start_time, &self.end_time)
    }

    /// Business hours preset: Monday to Friday, 09:00 to 17:00.
    pub fn business_hours(mode: DndMode) -> (r: Self)
        ensures
            is_v4_uuid(r.id),
            r.name@ == "Business Hours"@,
            r.start_time == (TimeOfDay { secs: 32400, nanos: 0 }),
            r.end_time == (TimeOfDay { secs: 61200, nanos: 0 }),
            r.days_of_week@ == seq![Weekday::Mon, Weekday::Tue, Weekday::Wed, Weekday::Thu, Weekday::Fri],
            r.enabled,
            r.mode == mode,
    {
        let mut days: Vec<Weekday> = Vec::new();
        days.push(Weekday::Mon);
        days.push(Weekday::Tue);
        days.push(Weekday::Wed);
        days.push(Weekday::Thu);
        days.push(Weekday::Fri);
        assert(days@ =~= seq![Weekday::Mon, Weekday::Tue, Weekday::Wed, Weekday::Thu, Weekday::Fri]);
        Self {
            id: new_uuid(),
            name: String::from_str("Business Hours"),
            start_time: TimeOfDay { secs: 32400, nanos: 0 },
            end_time: TimeOfDay { secs: 61200, nanos: 0 },
            days_of_week: days,
            enabled: true,
            mode,
        }
    }

    /// Night hours preset: 22:00 to 07:00 every day.
    pub fn night_hours(mode: DndMode) -> (r: Self)
        ensures
            is_v4_uuid(r.id),
            r.name@ == "Night Hours"@,
            r.start_time == (TimeOfDay { secs: 79200, nanos: 0 }),
            r.end_time == (TimeOfDay { secs: 25200, nanos: 0 }),
            r.days_of_week@.len() == 0,
            r.enabled,
            r.mode == mode,
    {
        Self {
            id: new_uuid(),
            name: String::from_str("Night Hours"),
            start_time: TimeOfDay { secs: 79200, nanos: 0 },
            end_time: TimeOfDay { secs: 25200, nanos: 0 },
            days_of_week: Vec::new(),
            enabled: true,
            mode,
        }
    }
}

/// Position of the first schedule of `schedules` active at the given time.
pub open spec fn first_active_schedule(schedules: Seq<DndSchedule>, time: TimeOfDay, weekday: Weekday, i: int) -> Option<int>
    decreases schedules.len() - i,
{
    if i < 0 || i >= schedules.len() {
        None
    } else if schedules[i].spec_is_active(time, weekday) {
        Some(i)
    } else {
        first_active_schedule(schedules, time, weekday, i + 1)
    }
}

/// DND status for a user.
#[derive(Debug, Clone)]
pub struct DndStatus {
    /// User identifier
    pub user_id: String,
    /// Whether DND is enabled
    pub enabled: bool,
    /// Current DND mode
    pub mode: DndMode,
    /// Alternate forward destination (ForwardToAlternate mode)
    pub alternate_destination: Option<String>,
    /// Custom announcement file (PlayAnnouncementDisconnect mode)
    pub announcement_file: Option<String>,
    /// Schedules
    pub schedules: Vec<DndSchedule>,
    /// Exception rules
    pub exceptions: Vec<DndException>,
    /// When DND was last enabled (Unix milliseconds)
    pub enabled_at: Option<i64>,
    /// When DND was last disabled (Unix milliseconds)
    pub disabled_at: Option<i64>,
    /// Manual override (ignores schedules)
    pub manual_override: bool,
}

impl DndStatus {
    /// DND off, rejecting busy when turned on, with no schedules or exceptions.
    pub fn new(user_id: String) -> (r: Self)
        ensures
            r.user_id@ == user_id@,
            !r.enabled,
            r.mode == DndMode::RejectBusy,
            r.alternate_destination is None,
            r.announcement_file is None,
            r.schedules@.len() == 0,
            r.exceptions@.len() == 0,
            r.enabled_at is None,
            r.disabled_at is None,
            !r.manual_override,
    {
        Self {
            user_id,
            enabled: false,
            mode: DndMode::RejectBusy,
            alternate_destination: None,
            announcement_file: None,
            schedules: Vec::new(),
            exceptions: Vec::new(),
            enabled_at: None,
            disabled_at: None,
            manual_override: false,
        }
    }

    /// Enabled by manual override, or some schedule active.
    pub open spec fn spec_scheduled_active(&self, time: TimeOfDay, weekday: Weekday) -> bool {
        (self.enabled && self.manual_override) || exists|i: int|
            0 <= i < self.schedules@.len() && (#[trigger] self.schedules@[i]).spec_is_active(time, weekday)
    }

    /// DND is in force: the manual setting under override, else the schedules.
    pub open spec fn spec_dnd_active(&self, time: TimeOfDay, weekday: Weekday) -> bool {
        if self.manual_override { self.enabled } else { self.spec_scheduled_active(time, weekday) }
    }

    /// Some exception lets the caller through.
    pub open spec fn spec_excepted(&self, caller: Seq<char>) -> bool {
        exists|i: int| 0 <= i < self.exceptions@.len() && (#[trigger] self.exceptions@[i]).spec_matches(caller)
    }

    /// A call is blocked when DND is in force and no exception matches the caller.
    pub open spec fn spec_should_block(&self, caller: Seq<char>, time: TimeOfDay, weekday: Weekday) -> bool {
        self.spec_dnd_active(time, weekday) && !self.spec_excepted(caller)
    }

    /// The mode in force: the manual mode under an enabled override, else the
    /// mode of the first active schedule.
    pub open spec fn spec_effective_mode(&self, time: TimeOfDay, weekday: Weekday) -> Option<DndMode> {
        if self.manual_override && self.enabled {
            Some(self.mode)
        } else {
            match first_active_schedule(self.schedules@, time, weekday, 0) {
                Some(i) => Some(self.schedules@[i].mode),
                None => None,
            }
        }
    }

    /// Check whether DND blocks a call from `caller_id` at the given time.
    pub fn should_block_call(&self, caller_id: &str, time: TimeOfDay, weekday: Weekday) -> (r: bool)
        ensures
            r == self.spec_should_block(caller_id@, time, weekday),
    {
        let dnd_active = if self.manual_override {
            self.enabled
        } else {
            self.is_scheduled_active(time, weekday)
        };
        if !dnd_active {
            return false;
        }
        let mut i: usize = 0;
        while i < self.exceptions.len()
            invariant
                i <= self.exceptions@.len(),
                forall|k: int| 0 <= k < i ==> !(#[trigger] self.exceptions@[k]).spec_matches(caller_id@),
            decreases self.exceptions.len() - i,
        {
            if self.exceptions[i].matches_caller(caller_id) {
                assert(self.exceptions@[i as int].spec_matches(caller_id@));
                return false;
            }
            i = i + 1;
        }
        true
    }

    /// Check if DND is enabled by override or any schedule is active.
    pub fn is_scheduled_active(&self, time: TimeOfDay, weekday: Weekday) -> (r: bool)
        ensures
            r == self.spec_scheduled_active(time, weekday),
    {
        if self.enabled && self.manual_override {
            return true;
        }
        let mut i: usize = 0;
        while i < self.schedules.len()
            invariant
                i <= self.schedules@.len(),
                !(self.enabled && self.manual_override),
                forall|k: int| 0 <= k < i ==> !(#[trigger] self.schedules@[k]).spec_is_active(time, weekday),
            decreases self.schedules.len() - i,
        {
            if self.schedules[i].is_active(time, weekday) {
                assert(self.schedules@[i as int].spec_is_active(time, weekday));
                return true;
            }
            i = i + 1;
        }
        false
    }

    /// Get the current effective DND mode.
    pub fn get_effective_mode(&self, time: TimeOfDay, weekday: Weekday) -> (r: Option<DndMode>)
        ensures
            r == self.spec_effective_mode(time, weekday),
    {
        if self.manual_override && self.enabled {
            return Some(self.mode);
        }
        let mut i: usize = 0;
        while i < self.schedules.len()
            invariant
                i <= self.schedules@.len(),
                !(self.manual_override && self.enabled),
                first_active_schedule(self.schedules@, time, weekday, 0) == first_active_schedule(
                    self.schedules@,
                    time,
                    weekday,
                    i as int,
                ),
            decreases self.schedules.len() - i,
        {
            if self.schedules[i].is_active(time, weekday) {
                return Some(self.schedules[i].mode);
            }
            i = i + 1;
        }
        None
    }
}

/// DND statistics.
#[derive(Debug, Clone)]
pub struct DndStatistics {
    /// Total users in system
    pub total_users: usize,
    /// Users with DND enabled
    pub users_with_dnd_enabled: usize,
    /// Total blocked calls
    pub total_blocked_calls: u64,
    /// Blocked calls by mode name
    pub blocked_by_mode: HashMap<String, u64>,
    /// Total exception matches
    pub total_exception_matches: u64,
    /// Calls allowed by exceptions
    pub calls_allowed_by_exception: u64,
}

impl DndStatistics {
    pub fn new() -> (r: Self)
        ensures
            r.total_users == 0,
            r.users_with_dnd_enabled == 0,
            r.total_blocked_calls == 0,
            r.blocked_by_mode@ == Map::<String, u64>::empty(),
            r.total_exception_matches == 0,
            r.calls_allowed_by_exception == 0,
    {
        Self {
            total_users: 0,
            users_with_dnd_enabled: 0,
            total_blocked_calls: 0,
            blocked_by_mode: HashMap::new(),
            total_exception_matches: 0,
            calls_allowed_by_exception: 0,
        }
    }
}

impl Default for DndStatistics {
    fn default() -> (r: Self)
        ensures
            r.total_users == 0,
            r.total_blocked_calls == 0,
    {
        Self::new()
    }
}

} // verus!

verus! {

/// What a DND status holds, with texts as character sequences.
pub struct DndStatusView {
    pub user_id: Seq<char>,
    pub enabled: bool,
    pub mode: DndMode,
    pub alternate_destination: Option<Seq<char>>,
    pub announcement_file: Option<Seq<char>>,
    pub schedules: Seq<DndSchedule>,
    pub exceptions: Seq<DndException>,
    pub enabled_at: Option<i64>,
    pub disabled_at: Option<i64>,
    pub manual_override: bool,
}

/// The characters of an optional string.
pub open spec fn opt_text(o: Option<String>) -> Option<Seq<char>> {
    match o {
        Some(s) => Some(s@),
        None => None,
    }
}

impl View for DndStatus {
    type V = DndStatusView;

    open spec fn view(&self) -> DndStatusView {
        DndStatusView {
            user_id: self.user_id@,
            enabled: self.enabled,
            mode: self.mode,
            alternate_destination: opt_text(self.alternate_destination),
            announcement_file: opt_text(self.announcement_file),
            schedules: self.schedules@,
            exceptions: self.exceptions@,
            enabled_at: self.enabled_at,
            disabled_at: self.disabled_at,
            manual_override: self.manual_override,
        }
    }
}

impl Keyed for DndStatus {
    type Key = str;

    open spec fn key(&self) -> Seq<char> {
        self.user_id@
    }

    open spec fn inv(&self) -> bool {
        true
    }

    fn key_ref(&self) -> (r: &str) {
        let r = self.user_id.as_str();
        assert(r@ == self.user_id@);
        assert(r.kv() == r@);
        r
    }
}

/// The status a user has before any setting: DND off, rejecting busy.
pub open spec fn fresh_status(user: Seq<char>) -> DndStatusView {
    DndStatusView {
        user_id: user,
        enabled: false,
        mode: DndMode::RejectBusy,
        alternate_destination: None,
        announcement_file: None,
        schedules: Seq::empty(),
        exceptions: Seq::empty(),
        enabled_at: None,
        disabled_at: None,
        manual_override: false,
    }
}

/// The status view of an optional status.
pub open spec fn status_view(o: Option<DndStatus>) -> Option<DndStatusView> {
    match o {
        Some(s) => Some(s@),
        None => None,
    }
}

/// Position of a mode among the counters.
pub open spec fn mode_index(m: DndMode) -> int {
    match m {
        DndMode::RejectBusy => 0,
        DndMode::SendToVoicemail => 1,
        DndMode::ForwardToAlternate => 2,
        DndMode::SilentReject => 3,
        DndMode::PlayAnnouncementDisconnect => 4,
    }
}

fn mode_slot(m: DndMode) -> (r: usize)
    ensures
        r == mode_index(m),
{
    match m {
        DndMode::RejectBusy => 0,
        DndMode::SendToVoicemail => 1,
        DndMode::ForwardToAlternate => 2,
        DndMode::SilentReject => 3,
        DndMode::PlayAnnouncementDisconnect => 4,
    }
}

/// Do Not Disturb manager: one status per user and call counters.
pub struct DndManager {
    statuses: Store<DndStatus>,
    blocked_calls: u64,
    blocked_by_mode: Vec<u64>,
    exception_matches: u64,
}

impl DndManager {
    /// The status record of `user`, if it has one.
    pub closed spec fn spec_entry(&self, user: Seq<char>) -> Option<DndStatus> {
        self.statuses.get_spec(user)
    }

    /// The status of `user`, if it has one.
    pub open spec fn spec_status(&self, user: Seq<char>) -> Option<DndStatusView> {
        status_view(self.spec_entry(user))
    }

    /// The status of `user`, or the initial one when it has none.
    pub open spec fn spec_base(&self, user: Seq<char>) -> DndStatusView {
        match self.spec_status(user) {
            Some(v) => v,
            None => fresh_status(user),
        }
    }

    /// The statuses, in the order users were first seen.
    pub closed spec fn spec_statuses(&self) -> Seq<DndStatus> {
        self.statuses.items()
    }

    /// Calls blocked so far.
    pub closed spec fn spec_blocked_calls(&self) -> u64 {
        self.blocked_calls
    }

    /// Calls blocked so far in the given mode.
    pub closed spec fn spec_blocked_in_mode(&self, m: DndMode) -> u64 {
        self.blocked_by_mode@[mode_index(m)]
    }

    /// Calls let through by an exception while DND was in force.
    pub closed spec fn spec_exception_matches(&self) -> u64 {
        self.exception_matches
    }

    /// One status per user, five mode counters.
    pub closed spec fn wf(&self) -> bool {
        self.statuses.wf() && self.blocked_by_mode@.len() == 5
    }

    /// Everything but the status of `user` is as in `old`.
    pub open spec fn others_unchanged(&self, old: &DndManager, user: Seq<char>) -> bool {
        &&& forall|u: Seq<char>| u != user ==> self.spec_status(u) == old.spec_status(u)
        &&& self.spec_blocked_calls() == old.spec_blocked_calls()
        &&& self.spec_exception_matches() == old.spec_exception_matches()
        &&& forall|m: DndMode| self.spec_blocked_in_mode(m) == old.spec_blocked_in_mode(m)
    }

    pub fn new() -> (r: Self)
        ensures
            r.wf(),
            forall|u: Seq<char>| r.spec_status(u) is None,
            r.spec_blocked_calls() == 0,
            r.spec_exception_matches() == 0,
            forall|m: DndMode| r.spec_blocked_in_mode(m) == 0,
    {
        let mut counts: Vec<u64> = Vec::new();
        counts.push(0);
        counts.push(0);
        counts.push(0);
        counts.push(0);
        counts.push(0);
        let r = Self { statuses: Store::new(), blocked_calls: 0, blocked_by_mode: counts, exception_matches: 0 };
        proof {
            assert forall|u: Seq<char>| r.spec_status(u) is None by {
                lemma_lookup_absent(r.statuses.items(), u);
            }
        }
        r
    }

    /// Takes out the status of `user_id` (or makes the initial one), with the
    /// position to put it back at.
    fn take_or_fresh(&mut self, user_id: &str) -> (r: (usize, DndStatus))
        requires
            old(self).wf(),
        ensures
            final(self).wf(),
            r.1@ == old(self).spec_base(user_id@),
            r.0 <= final(self).statuses.items().len(),
            !has_key(final(self).statuses.items(), user_id@),
            forall|u: Seq<char>| u != user_id@ ==> final(self).spec_status(u) == old(self).spec_status(u),
            final(self).blocked_calls == old(self).blocked_calls,
            final(self).blocked_by_mode == old(self).blocked_by_mode,
            final(self).exception_matches == old(self).exception_matches,
    {
        match self.statuses.find(user_id) {
            Some(i) => {
                let st = self.statuses.take_at(i);
                (i, st)
            },
            None => {
                let st = DndStatus::new(String::from_str(user_id));
                assert(st.schedules@ =~= Seq::<DndSchedule>::empty());
                assert(st.exceptions@ =~= Seq::<DndException>::empty());
                (self.statuses.len(), st)
            },
        }
    }

    /// Puts back a status taken out with `take_or_fresh`.
    fn put_back(&mut self, pos: usize, st: DndStatus)
        requires
            old(self).wf(),
            pos <= old(self).statuses.items().len(),
            !has_key(old(self).statuses.items(), st.user_id@),
        ensures
            final(self).wf(),
            final(self).spec_status(st.user_id@) == Some(st@),
            forall|u: Seq<char>| u != st.user_id@ ==> final(self).spec_status(u) == old(self).spec_status(u),
            final(self).blocked_calls == old(self).blocked_calls,
            final(self).blocked_by_mode == old(self).blocked_by_mode,
            final(self).exception_matches == old(self).exception_matches,
    {
        self.statuses.put_at(pos, st);
    }

    /// Enable DND for a user.
    pub fn enable_dnd(&mut self, user_id: &str, mode: DndMode, manual: bool)
        requires
            old(self).wf(),
        ensures
            final(self).wf(),
            final(self).others_unchanged(old(self), user_id@),
            final(self).spec_status(user_id@) matches Some(v) && v.enabled_at is Some && (DndStatusView {
                enabled_at: None,
                ..v
            }) == (DndStatusView {
                enabled: true,
                mode,
                manual_override: manual,
                enabled_at: None,
                ..old(self).spec_base(user_id@)
            }),
    {
        let (pos, mut st) = self.take_or_fresh(user_id);
        st.enabled = true;
        st.mode = mode;
        st.manual_override = manual;
        st.enabled_at = Some(now_millis());
        self.put_back(pos, st);
    }

    /// Disable DND for a user that has a status; others are unaffected.
    pub fn disable_dnd(&mut self, user_id: &str)
        requires
            old(self).wf(),
        ensures
            final(self).wf(),
            final(self).others_unchanged(old(self), user_id@),
            match old(self).spec_status(user_id@) {
                None => final(self).spec_status(user_id@) is None,
                Some(b) => final(self).spec_status(user_id@) matches Some(v) && v.disabled_at is Some && (DndStatusView {
                    disabled_at: None,
                    ..v
                }) == (DndStatusView { enabled: false, manual_override: false, disabled_at: None, ..b }),
            },
    {
        if let Some(i) = self.statuses.find(user_id) {
            let mut st = self.statuses.take_at(i);
            st.enabled = false;
            st.manual_override = false;
            st.disabled_at = Some(now_millis());
            self.put_back(i, st);
        }
    }

    /// Toggle DND for a user (as a manual override); returns the new setting.
    pub fn toggle_dnd(&mut self, user_id: &str, mode: DndMode) -> (r: bool)
        requires
            old(self).wf(),
        ensures
            final(self).wf(),
            final(self).others_unchanged(old(self), user_id@),
            r == !old(self).spec_base(user_id@).enabled,
            final(self).spec_status(user_id@) matches Some(v) && (if r {
                v.enabled_at is Some && (DndStatusView { enabled_at: None, ..v }) == (DndStatusView {
                    enabled: true,
                    manual_override: true,
                    mode,
                    enabled_at: None,
                    ..old(self).spec_base(user_id@)
                })
            } else {
                v.disabled_at is Some && (DndStatusView { disabled_at: None, ..v }) == (DndStatusView {
                    enabled: false,
                    manual_override: true,
                    disabled_at: None,
                    ..old(self).spec_base(user_id@)
                })
            }),
    {
        let (pos, mut st) = self.take_or_fresh(user_id);
        st.enabled = !st.enabled;
        st.manual_override = true;
        if st.enabled {
            st.mode = mode;
            st.enabled_at = Some(now_millis());
        } else {
            st.disabled_at = Some(now_millis());
        }
        let r = st.enabled;
        self.put_back(pos, st);
        r
    }

    /// DND is in force for a user at the given time: the manual setting under
    /// override, else the schedules; false for an unknown user.
    pub open spec fn spec_is_enabled_at(&self, user: Seq<char>, time: TimeOfDay, weekday: Weekday) -> bool {
        match self.spec_entry(user) {
            Some(s) => s.spec_dnd_active(time, weekday),
            None => false,
        }
    }

    /// Check if DND is in force for a user at the given time.
    pub fn is_enabled_at(&self, user_id: &str, time: TimeOfDay, weekday: Weekday) -> (r: bool)
        requires
            self.wf(),
        ensures
            r == self.spec_is_enabled_at(user_id@, time, weekday),
    {
        match self.statuses.get(user_id) {
            Some(st) => if st.manual_override {
                st.enabled
            } else {
                st.is_scheduled_active(time, weekday)
            },
            None => false,
        }
    }

    /// Check if DND is in force for a user now (UTC).
    pub fn is_enabled(&self, user_id: &str) -> (r: bool)
        requires
            self.wf(),
        ensures
            exists|t: TimeOfDay, w: Weekday| r == self.spec_is_enabled_at(user_id@, t, w),
    {
        let (t, w) = clock_parts(now_millis());
        self.is_enabled_at(user_id, t, w)
    }

    /// The DND status of a user.
    pub fn get_status(&self, user_id: &str) -> (r: Option<&DndStatus>)
        requires
            self.wf(),
        ensures
            status_view(match r { Some(s) => Some(*s), None => None }) == self.spec_status(user_id@),
    {
        self.statuses.get(user_id)
    }

    /// Set the alternate destination of a user that has a status.
    pub fn set_alternate_destination(&mut self, user_id: &str, destination: String)
        requires
            old(self).wf(),
        ensures
            final(self).wf(),
            final(self).others_unchanged(old(self), user_id@),
            final(self).spec_status(user_id@) == match old(self).spec_status(user_id@) {
                Some(b) => Some(DndStatusView { alternate_destination: Some(destination@), ..b }),
                None => None,
            },
    {
        if let Some(i) = self.statuses.find(user_id) {
            let mut st = self.statuses.take_at(i);
            st.alternate_destination = Some(destination);
            self.put_back(i, st);
        }
    }

    /// Set the announcement file of a user that has a status.
    pub fn set_announcement_file(&mut self, user_id: &str, file_path: String)
        requires
            old(self).wf(),
        ensures
            final(self).wf(),
            final(self).others_unchanged(old(self), user_id@),
            final(self).spec_status(user_id@) == match old(self).spec_status(user_id@) {
                Some(b) => Some(DndStatusView { announcement_file: Some(file_path@), ..b }),
                None => None,
            },
    {
        if let Some(i) = self.statuses.find(user_id) {
            let mut st = self.statuses.take_at(i);
            st.announcement_file = Some(file_path);
            self.put_back(i, st);
        }
    }

    /// Add a schedule for a user; returns its identifier.
    pub fn add_schedule(&mut self, user_id: &str, schedule: DndSchedule) -> (r: u128)
        requires
            old(self).wf(),
        ensures
            final(self).wf(),
            final(self).others_unchanged(old(self), user_id@),
            r == schedule.id,
            final(self).spec_status(user_id@) == Some(DndStatusView {
                schedules: old(self).spec_base(user_id@).schedules.push(schedule),
                ..old(self).spec_base(user_id@)
            }),
    {
        let (pos, mut st) = self.take_or_fresh(user_id);
        let id = schedule.id;
        st.schedules.push(schedule);
        self.put_back(pos, st);
        id
    }

    /// Add an exception rule for a user; returns its identifier.
    pub fn add_exception(&mut self, user_id: &str, exception: DndException) -> (r: u128)
        requires
            old(self).wf(),
        ensures
            final(self).wf(),
            final(self).others_unchanged(old(self), user_id@),
            r == exception.id,
            final(self).spec_status(user_id@) == Some(DndStatusView {
                exceptions: old(self).spec_base(user_id@).exceptions.push(exception),
                ..old(self).spec_base(user_id@)
            }),
    {
        let (pos, mut st) = self.take_or_fresh(user_id);
        let id = exception.id;
        st.exceptions.push(exception);
        self.put_back(pos, st);
        id
    }

    /// Remove a user's schedules with the given identifier.
    pub fn remove_schedule(&mut self, user_id: &str, schedule_id: u128) -> (r: Result<(), String>)
        requires
            old(self).wf(),
        ensures
            final(self).wf(),
            final(self).others_unchanged(old(self), user_id@),
            match old(self).spec_status(user_id@) {
                None => (r is Err && r->Err_0@ == "User not found"@) && final(self).spec_status(user_id@) is None,
                Some(b) => {
                    let kept = b.schedules.filter(|s: DndSchedule| s.id != schedule_id);
                    &&& final(self).spec_status(user_id@) == Some(DndStatusView { schedules: kept, ..b })
                    &&& (kept.len() == b.schedules.len()) == (r is Err)
                    &&& r matches Err(m) ==> m@ == "Schedule not found"@
                },
            },
    {
        match self.statuses.find(user_id) {
            None => Err(String::from_str("User not found")),
            Some(i) => {
                let mut st = self.statuses.take_at(i);
                let before = st.schedules.len();
                let kept = retain_schedules(st.schedules, schedule_id);
                st.schedules = kept;
                let after = st.schedules.len();
                self.put_back(i, st);
                if after == before {
                    Err(String::from_str("Schedule not found"))
                } else {
                    Ok(())
                }
            },
        }
    }

    /// Remove a user's exceptions with the given identifier.
    pub fn remove_exception(&mut self, user_id: &str, exception_id: u128) -> (r: Result<(), String>)
        requires
            old(self).wf(),
        ensures
            final(self).wf(),
            final(self).others_unchanged(old(self), user_id@),
            match old(self).spec_status(user_id@) {
                None => (r is Err && r->Err_0@ == "User not found"@) && final(self).spec_status(user_id@) is None,
                Some(b) => {
                    let kept = b.exceptions.filter(|e: DndException| e.id != exception_id);
                    &&& final(self).spec_status(user_id@) == Some(DndStatusView { exceptions: kept, ..b })
                    &&& (kept.len() == b.exceptions.len()) == (r is Err)
                    &&& r matches Err(m) ==> m@ == "Exception not found"@
                },
            },
    {
        match self.statuses.find(user_id) {
            None => Err(String::from_str("User not found")),
            Some(i) => {
                let mut st = self.statuses.take_at(i);
                let before = st.exceptions.len();
                let kept = retain_exceptions(st.exceptions, exception_id);
                st.exceptions = kept;
                let after = st.exceptions.len();
                self.put_back(i, st);
                if after == before {
                    Err(String::from_str("Exception not found"))
                } else {
                    Ok(())
                }
            },
        }
    }
}

impl DndManager {
    /// The counters can all take one more call.
    pub open spec fn counters_below_max(&self) -> bool {
        &&& self.spec_blocked_calls() < u64::MAX
        &&& self.spec_exception_matches() < u64::MAX
        &&& forall|m: DndMode| self.spec_blocked_in_mode(m) < u64::MAX
    }

    /// The outcome of a call to `user` from `caller` at the given time: blocked
    /// (with the mode in force, or the user's mode when no schedule gives one)
    /// when DND is in force and no exception matches; otherwise not blocked.
    pub open spec fn spec_block_decision(&self, user: Seq<char>, caller: Seq<char>, time: TimeOfDay, weekday: Weekday) -> (bool, Option<DndMode>) {
        match self.spec_entry(user) {
            Some(s) => if s.spec_should_block(caller, time, weekday) {
                (true, Some(match s.spec_effective_mode(time, weekday) { Some(m) => m, None => s.mode }))
            } else {
                (false, None)
            },
            None => (false, None),
        }
    }

    /// DND was in force for `user` but an exception let the caller through.
    pub open spec fn spec_let_through(&self, user: Seq<char>, caller: Seq<char>, time: TimeOfDay, weekday: Weekday) -> bool {
        match self.spec_entry(user) {
            Some(s) => !s.spec_should_block(caller, time, weekday) && (s.spec_scheduled_active(time, weekday) || (
            s.manual_override && s.enabled)),
            None => false,
        }
    }

    /// Decide whether a call to `user_id` from `caller_id` is blocked at the
    /// given time, counting blocked calls (in total and by mode) and calls let
    /// through by an exception.
    pub fn should_block_call_at(&mut self, user_id: &str, caller_id: &str, time: TimeOfDay, weekday: Weekday) -> (r: (bool, Option<DndMode>))
        requires
            old(self).wf(),
            old(self).counters_below_max(),
        ensures
            final(self).wf(),
            r == old(self).spec_block_decision(user_id@, caller_id@, time, weekday),
            forall|u: Seq<char>| final(self).spec_entry(u) == old(self).spec_entry(u),
            final(self).spec_blocked_calls() == old(self).spec_blocked_calls() + (if r.0 { 1int } else { 0int }),
            forall|m: DndMode| final(self).spec_blocked_in_mode(m) == old(self).spec_blocked_in_mode(m) + (if r.1 == Some(m) { 1int } else { 0int }),
            final(self).spec_exception_matches() == old(self).spec_exception_matches() + (if old(self).spec_let_through(user_id@, caller_id@, time, weekday) { 1int } else { 0int }),
    {
        match self.statuses.get(user_id) {
            Some(st) => {
                let block = st.should_block_call(caller_id, time, weekday);
                if block {
                    let mode = match st.get_effective_mode(time, weekday) {
                        Some(m) => m,
                        None => st.mode,
                    };
                    let slot = mode_slot(mode);
                    let c = self.blocked_by_mode[slot];
                    assert(old(self).spec_blocked_in_mode(mode) < u64::MAX);
                    self.blocked_calls = self.blocked_calls + 1;
                    self.blocked_by_mode.set(slot, c + 1);
                    (true, Some(mode))
                } else {
                    let active = st.is_scheduled_active(time, weekday) || (st.manual_override && st.enabled);
                    if active {
                        self.exception_matches = self.exception_matches + 1;
                    }
                    (false, None)
                }
            },
            None => (false, None),
        }
    }

    /// Decide whether a call is blocked now (UTC); see `should_block_call_at`.
    pub fn should_block_call(&mut self, user_id: &str, caller_id: &str) -> (r: (bool, Option<DndMode>))
        requires
            old(self).wf(),
            old(self).counters_below_max(),
        ensures
            final(self).wf(),
            exists|t: TimeOfDay, w: Weekday| r == old(self).spec_block_decision(user_id@, caller_id@, t, w)
                && final(self).spec_exception_matches() == old(self).spec_exception_matches() + (if old(self).spec_let_through(user_id@, caller_id@, t, w) { 1int } else { 0int }),
            forall|u: Seq<char>| final(self).spec_entry(u) == old(self).spec_entry(u),
            final(self).spec_blocked_calls() == old(self).spec_blocked_calls() + (if r.0 { 1int } else { 0int }),
            forall|m: DndMode| final(self).spec_blocked_in_mode(m) == old(self).spec_blocked_in_mode(m) + (if r.1 == Some(m) { 1int } else { 0int }),
    {
        let (t, w) = clock_parts(now_millis());
        self.should_block_call_at(user_id, caller_id, t, w)
    }

    /// Calls blocked in a mode so far.
    pub fn blocked_in_mode(&self, mode: DndMode) -> (r: u64)
        requires
            self.wf(),
        ensures
            r == self.spec_blocked_in_mode(mode),
    {
        self.blocked_by_mode[mode_slot(mode)]
    }

    /// The users for whom DND is in force at the given time.
    pub open spec fn spec_active_statuses(&self, time: TimeOfDay, weekday: Weekday) -> Seq<DndStatus> {
        self.spec_statuses().filter(|s: DndStatus| s.spec_dnd_active(time, weekday))
    }

    /// Statistics at the given time: users, users with DND in force, blocked
    /// calls (in total and by mode name), and calls let through by exceptions.
    pub fn get_statistics_at(&self, time: TimeOfDay, weekday: Weekday) -> (r: DndStatistics)
        requires
            self.wf(),
        ensures
            r.total_users == self.spec_statuses().len(),
            r.users_with_dnd_enabled == self.spec_active_statuses(time, weekday).len(),
            r.total_blocked_calls == self.spec_blocked_calls(),
            r.total_exception_matches == self.spec_exception_matches(),
            r.calls_allowed_by_exception == self.spec_exception_matches(),
    {
        let active = self.active_user_ids(time, weekday);
        let mut by_mode: HashMap<String, u64> = HashMap::new();
        let names = ["RejectBusy", "SendToVoicemail", "ForwardToAlternate", "SilentReject", "PlayAnnouncementDisconnect"];
        let mut k: usize = 0;
        while k < 5
            invariant
                self.wf(),
            decreases 5 - k,
        {
            let c = self.blocked_by_mode[k];
            if c > 0 {
                by_mode.insert(String::from_str(names[k]), c);
            }
            k = k + 1;
        }
        DndStatistics {
            total_users: self.statuses.len(),
            users_with_dnd_enabled: active.len(),
            total_blocked_calls: self.blocked_calls,
            blocked_by_mode: by_mode,
            total_exception_matches: self.exception_matches,
            calls_allowed_by_exception: self.exception_matches,
        }
    }

    /// Statistics now (UTC); see `get_statistics_at`.
    pub fn get_statistics(&self) -> (r: DndStatistics)
        requires
            self.wf(),
        ensures
            r.total_users == self.spec_statuses().len(),
            exists|t: TimeOfDay, w: Weekday| r.users_with_dnd_enabled == self.spec_active_statuses(t, w).len(),
            r.total_blocked_calls == self.spec_blocked_calls(),
            r.total_exception_matches == self.spec_exception_matches(),
            r.calls_allowed_by_exception == self.spec_exception_matches(),
    {
        let (t, w) = clock_parts(now_millis());
        self.get_statistics_at(t, w)
    }

    fn active_user_ids(&self, time: TimeOfDay, weekday: Weekday) -> (r: Vec<String>)
        requires
            self.wf(),
        ensures
            r@.len() == self.spec_active_statuses(time, weekday).len(),
            forall|k: int| 0 <= k < r@.len() ==> (#[trigger] r@[k])@ == self.spec_active_statuses(time, weekday)[k].user_id@,
    {
        let mut r: Vec<String> = Vec::new();
        let n = self.statuses.len();
        let ghost all = self.spec_statuses();
        let mut i: usize = 0;
        while i < n
            invariant
                n == all.len(),
                all == self.spec_statuses(),
                self.wf(),
                i <= n,
                r@.len() == all.take(i as int).filter(|s: DndStatus| s.spec_dnd_active(time, weekday)).len(),
                forall|k: int| 0 <= k < r@.len() ==> (#[trigger] r@[k])@ == all.take(i as int).filter(
                    |s: DndStatus| s.spec_dnd_active(time, weekday),
                )[k].user_id@,
            decreases n - i,
        {
            let st = self.statuses.at(i);
            proof {
                assert(all.take(i + 1).drop_last() =~= all.take(i as int));
                assert(all.take(i + 1).last() == all[i as int]);
                reveal_with_fuel(Seq::filter, 1);
            }
            let active = if st.manual_override { st.enabled } else { st.is_scheduled_active(time, weekday) };
            assert(all[i as int].spec_dnd_active(time, weekday) == active);
            let ghost prev = all.take(i as int).filter(|s: DndStatus| s.spec_dnd_active(time, weekday));
            assert(all.take(i + 1).filter(|s: DndStatus| s.spec_dnd_active(time, weekday)) == if active {
                prev.push(all[i as int])
            } else {
                prev
            });
            if active {
                r.push(st.user_id.clone());
            }
            i = i + 1;
        }
        assert(all.take(n as int) =~= all);
        r
    }

    /// The users for whom DND is in force at the given time, in the order
    /// they were first seen.
    pub fn list_users_with_dnd_at(&self, time: TimeOfDay, weekday: Weekday) -> (r: Vec<String>)
        requires
            self.wf(),
        ensures
            r@.len() == self.spec_active_statuses(time, weekday).len(),
            forall|k: int| 0 <= k < r@.len() ==> (#[trigger] r@[k])@ == self.spec_active_statuses(time, weekday)[k].user_id@,
    {
        self.active_user_ids(time, weekday)
    }

    /// The users for whom DND is in force now (UTC).
    pub fn list_users_with_dnd(&self) -> (r: Vec<String>)
        requires
            self.wf(),
        ensures
            exists|t: TimeOfDay, w: Weekday| r@.len() == self.spec_active_statuses(t, w).len(),
    {
        let (t, w) = clock_parts(now_millis());
        self.active_user_ids(t, w)
    }

    /// Remove every user's status.
    pub fn clear_all(&mut self)
        requires
            old(self).wf(),
        ensures
            final(self).wf(),
            forall|u: Seq<char>| final(self).spec_entry(u) is None,
            final(self).spec_blocked_calls() == old(self).spec_blocked_calls(),
            final(self).spec_exception_matches() == old(self).spec_exception_matches(),
            forall|m: DndMode| final(self).spec_blocked_in_mode(m) == old(self).spec_blocked_in_mode(m),
    {
        self.statuses.clear();
    }
}

impl Default for DndManager {
    fn default() -> (r: Self)
        ensures
            r.wf(),
            forall|u: Seq<char>| r.spec_status(u) is None,
    {
        Self::new()
    }
}

/// The schedules whose identifier differs from `id`, in order.
fn retain_schedules(v: Vec<DndSchedule>, id: u128) -> (r: Vec<DndSchedule>)
    ensures
        r@ == v@.filter(|s: DndSchedule| s.id != id),
{
    let mut r: Vec<DndSchedule> = Vec::new();
    let mut v = v;
    let ghost orig = v@;
    let mut taken: usize = 0;
    assert(orig.len() == v.len());
    assert(orig.skip(0) =~= orig);
    assert(orig.take(0) =~= Seq::<DndSchedule>::empty());
    while v.len() > 0
        invariant
            taken + v@.len() == orig.len(),
            orig.len() <= usize::MAX,
            v@ == orig.skip(taken as int),
            r@ == orig.take(taken as int).filter(|s: DndSchedule| s.id != id),
        decreases v.len(),
    {
        let s = v.remove(0);
        proof {
            assert(orig.take(taken + 1).drop_last() =~= orig.take(taken as int));
            assert(orig.take(taken + 1).last() == s);
            reveal_with_fuel(Seq::filter, 1);
        }
        if s.id != id {
            r.push(s);
        }
        taken = taken + 1;
        assert(v@ =~= orig.skip(taken as int));
    }
    assert(orig.take(taken as int) =~= orig);
    r
}

/// The exceptions whose identifier differs from `id`, in order.
fn retain_exceptions(v: Vec<DndException>, id: u128) -> (r: Vec<DndException>)
    ensures
        r@ == v@.filter(|e: DndException| e.id != id),
{
    let mut r: Vec<DndException> = Vec::new();
    let mut v = v;
    let ghost orig = v@;
    let mut taken: usize = 0;
    assert(orig.len() == v.len());
    assert(orig.skip(0) =~= orig);
    assert(orig.take(0) =~= Seq::<DndException>::empty());
    while v.len() > 0
        invariant
            taken + v@.len() == orig.len(),
            orig.len() <= usize::MAX,
            v@ == orig.skip(taken as int),
            r@ == orig.take(taken as int).filter(|e: DndException| e.id != id),
        decreases v.len(),
    {
        let e = v.remove(0);
        proof {
            assert(orig.take(taken + 1).drop_last() =~= orig.take(taken as int));
            assert(orig.take(taken + 1).last() == e);
            reveal_with_fuel(Seq::filter, 1);
        }
        if e.id != id {
            r.push(e);
        }
        taken = taken + 1;
        assert(v@ =~= orig.skip(taken as int));
    }
    assert(orig.take(taken as int) =~= orig);
    r
}

} // verus!
