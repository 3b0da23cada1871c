//! Times of day and days of the week, and their derivation from Unix time.
use vstd::prelude::*;

verus! {

/// Day of the week.
#[derive(Debug, Clone, Copy, PartialEq, Eq, Hash, Structural)]
pub enum Weekday {
    Mon,
    Tue,
    Wed,
    Thu,
    Fri,
    Sat,
    Sun,
}

/// A time of day: whole seconds since midnight and the nanoseconds within
/// that second.
#[derive(Debug, Clone, Copy, PartialEq, Eq, Hash, Structural)]
pub struct TimeOfDay {
    pub secs: u32,
    pub nanos: u32,
}

impl TimeOfDay {
    /// Order of times of day: by seconds, then by nanoseconds.
    pub open spec fn spec_le(self, other: TimeOfDay) -> bool {
        self.secs < other.secs || (self.secs == other.secs && self.nanos <= other.nanos)
    }

    /// `self` is not after `other`.
    pub fn le(&self, other: &TimeOfDay) -> (r: bool)
        ensures
            r == self.spec_le(*other),
    {
        self.secs < other.secs || (self.secs == other.secs && self.nanos <= other.nanos)
    }

    /// The time `hour:min:sec`, if it is a valid time of day.
    pub fn from_hms(hour: u32, min: u32, sec: u32) -> (r: Option<TimeOfDay>)
        ensures
            (hour < 24 && min < 60 && sec < 60) == r is Some,
            r matches Some(t) ==> t.secs == hour * 3600 + min * 60 + sec && t.nanos == 0,
    {
        if hour < 24 && min < 60 && sec < 60 {
            Some(TimeOfDay { secs: hour * 3600 + min * 60 + sec, nanos: 0 })
        } else {
            None
        }
    }
}

/// Whether `time` lies in the range from `start` to `end`, both included; a
/// range whose start is after its end runs across midnight.
pub open spec fn spec_in_time_range(time: TimeOfDay, start: TimeOfDay, end: TimeOfDay) -> bool {
    if start.spec_le(end) {
        start.spec_le(time) && time.spec_le(end)
    } else {
        start.spec_le(time) || time.spec_le(end)
    }
}

/// Whether `time` lies in the (possibly midnight-crossing) range.
pub fn in_time_range(time: &TimeOfDay, start: &TimeOfDay, end: &TimeOfDay) -> (r: bool)
    ensures
        r == spec_in_time_range(*time, *start, *end),
{
    if start.le(end) {
        start.le(time) && time.le(end)
    } else {
        start.le(time) || time.le(end)
    }
}

/// Whether `days` lists `day`.
pub fn weekday_listed(days: &Vec<Weekday>, day: Weekday) -> (r: bool)
    ensures
        r == days@.contains(day),
{
    let mut i: usize = 0;
    while i < days.len()
        invariant
            i <= days@.len(),
            forall|k: int| 0 <= k < i ==> days@[k] != day,
        decreases days.len() - i,
    {
        if days[i] == day {
            assert(days@[i as int] == day);
            return true;
        }
        i = i + 1;
    }
    false
}

/// The weekday of a count of days since Thursday 1 January 1970 (taken modulo 7).
pub open spec fn weekday_of_day_index(r: int) -> Weekday {
    if r == 0 { Weekday::Thu } else if r == 1 { Weekday::Fri } else if r == 2 { Weekday::Sat }
    else if r == 3 { Weekday::Sun } else if r == 4 { Weekday::Mon } else if r == 5 { Weekday::Tue }
    else { Weekday::Wed }
}

/// The UTC time of day and weekday of a Unix time in milliseconds.
pub open spec fn spec_clock_parts(millis: int) -> (TimeOfDay, Weekday) {
    let secs = millis / 1000;
    let day = secs / 86400;
    (
        TimeOfDay { secs: (secs % 86400) as u32, nanos: ((millis % 1000) * 1_000_000) as u32 },
        weekday_of_day_index(day % 7),
    )
}

/// The UTC time of day and weekday of a Unix time in milliseconds.
pub fn clock_parts(millis: i64) -> (r: (TimeOfDay, Weekday))
    ensures
        r == spec_clock_parts(millis as int),
{
    let m = millis as i128;
    let secs: i128 = if m >= 0 { m / 1000 } else { -((-m + 999) / 1000) };
    assert(secs == m / 1000) by (nonlinear_arith)
        requires
            m >= 0 ==> secs == m / 1000,
            m < 0 ==> secs == -((-m + 999) / 1000),
    ;
    let ms: i128 = m - secs * 1000;
    assert(ms == m % 1000) by (nonlinear_arith)
        requires
            secs == m / 1000,
            ms == m - secs * 1000,
    ;
    let day: i128 = if secs >= 0 { secs / 86400 } else { -((-secs + 86399) / 86400) };
    assert(day == secs / 86400) by (nonlinear_arith)
        requires
            secs >= 0 ==> day == secs / 86400,
            secs < 0 ==> day == -((-secs + 86399) / 86400),
    ;
    let sod: i128 = secs - day * 86400;
    assert(sod == secs % 86400) by (nonlinear_arith)
        requires
            day == secs / 86400,
            sod == secs - day * 86400,
    ;
    let w: i128 = if day >= 0 { day % 7 } else { (7 - ((-day) % 7)) % 7 };
    assert(w == day % 7) by (nonlinear_arith)
        requires
            day >= 0 ==> w == day % 7,
            day < 0 ==> w == (7 - ((-day) % 7)) % 7,
    ;
    let weekday = if w == 0 { Weekday::Thu } else if w == 1 { Weekday::Fri } else if w == 2 { Weekday::Sat }
        else if w == 3 { Weekday::Sun } else if w == 4 { Weekday::Mon } else if w == 5 { Weekday::Tue }
        else { Weekday::Wed };
    (TimeOfDay { secs: sod as u32, nanos: (ms * 1_000_000) as u32 }, weekday)
}

} // verus!
