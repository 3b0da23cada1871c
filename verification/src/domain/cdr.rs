//! Call Detail Records: what is kept of each call for billing, auditing and
//! analytics. Times are milliseconds since the Unix epoch.
use vstd::prelude::*;
use crate::domain::shared::system::{clock_reading, elapsed_seconds, is_v4_uuid, new_uuid, now_millis, seconds_between};
use crate::text::str_eq;

verus! {

/// Call direction.
#[derive(Debug, Clone, Copy, PartialEq, Eq, Structural)]
pub enum CallDirection {
    /// Inbound call from external
    Inbound,
    /// Outbound call to external
    Outbound,
    /// Internal call between registered users
    Internal,
}

impl CallDirection {
    pub open spec fn spec_as_str(&self) -> Seq<char> {
        match self {
            CallDirection::Inbound => "inbound"@,
            CallDirection::Outbound => "outbound"@,
            CallDirection::Internal => "internal"@,
        }
    }

    pub fn as_str(&self) -> (r: &'static str)
        ensures
            r@ == self.spec_as_str(),
    {
        match self {
            CallDirection::Inbound => "inbound",
            CallDirection::Outbound => "outbound",
            CallDirection::Internal => "internal",
        }
    }
}

/// Call status.
#[derive(Debug, Clone, Copy, PartialEq, Eq, Structural)]
pub enum CallStatus {
    /// Call in progress
    Active,
    /// Call completed successfully
    Completed,
    /// Call failed (connection issues, etc.)
    Failed,
    /// Callee was busy
    Busy,
    /// Call was not answered
    NoAnswer,
    /// Call was cancelled
    Cancelled,
    /// Call was rejected/declined
    Rejected,
}

impl CallStatus {
    pub open spec fn spec_as_str(&self) -> Seq<char> {
        match self {
            CallStatus::Active => "active"@,
            CallStatus::Completed => "completed"@,
            CallStatus::Failed => "failed"@,
            CallStatus::Busy => "busy"@,
            CallStatus::NoAnswer => "no_answer"@,
            CallStatus::Cancelled => "cancelled"@,
            CallStatus::Rejected => "rejected"@,
        }
    }

    pub fn as_str(&self) -> (r: &'static str)
        ensures
            r@ == self.spec_as_str(),
    {
        match self {
            CallStatus::Active => "active",
            CallStatus::Completed => "completed",
            CallStatus::Failed => "failed",
            CallStatus::Busy => "busy",
            CallStatus::NoAnswer => "no_answer",
            CallStatus::Cancelled => "cancelled",
            CallStatus::Rejected => "rejected",
        }
    }

    /// The status whose name is `s`, if any.
    pub fn from_str(s: &str) -> (r: Option<Self>)
        ensures
            match r {
                Some(st) => st.spec_as_str() == s@,
                None => forall|st: CallStatus| st.spec_as_str() != s@,
            },
    {
        proof {
            reveal_strlit("active");
            reveal_strlit("completed");
            reveal_strlit("failed");
            reveal_strlit("busy");
            reveal_strlit("no_answer");
            reveal_strlit("cancelled");
            reveal_strlit("rejected");
        }
        if str_eq(s, "active") {
            Some(CallStatus::Active)
        } else if str_eq(s, "completed") {
            Some(CallStatus::Completed)
        } else if str_eq(s, "failed") {
            Some(CallStatus::Failed)
        } else if str_eq(s, "busy") {
            Some(CallStatus::Busy)
        } else if str_eq(s, "no_answer") {
            Some(CallStatus::NoAnswer)
        } else if str_eq(s, "cancelled") {
            Some(CallStatus::Cancelled)
        } else if str_eq(s, "rejected") {
            Some(CallStatus::Rejected)
        } else {
            proof {
                assert forall|st: CallStatus| st.spec_as_str() != s@ by {
                    match st {
                        CallStatus::Active => {},
                        CallStatus::Completed => {},
                        CallStatus::Failed => {},
                        CallStatus::Busy => {},
                        CallStatus::NoAnswer => {},
                        CallStatus::Cancelled => {},
                        CallStatus::Rejected => {},
                    }
                }
            }
            None
        }
    }
}

/// Reading back a status's name gives the status.
pub proof fn lemma_status_name_round_trip(st: CallStatus, other: CallStatus)
    ensures
        st.spec_as_str() == other.spec_as_str() ==> st == other,
{
    reveal_strlit("active");
    reveal_strlit("completed");
    reveal_strlit("failed");
    reveal_strlit("busy");
    reveal_strlit("no_answer");
    reveal_strlit("cancelled");
    reveal_strlit("rejected");
    if st.spec_as_str() == other.spec_as_str() && st != other {
        match st {
            CallStatus::Active => { assert(st.spec_as_str()[0] == 'a'); },
            CallStatus::Completed => { assert(st.spec_as_str()[0] == 'c'); },
            CallStatus::Failed => { assert(st.spec_as_str()[0] == 'f'); },
            CallStatus::Busy => { assert(st.spec_as_str()[0] == 'b'); },
            CallStatus::NoAnswer => { assert(st.spec_as_str()[0] == 'n'); },
            CallStatus::Cancelled => { assert(st.spec_as_str()[1] == 'a'); },
            CallStatus::Rejected => { assert(st.spec_as_str()[0] == 'r'); },
        }
        match other {
            CallStatus::Active => { assert(other.spec_as_str()[0] == 'a'); },
            CallStatus::Completed => { assert(other.spec_as_str()[1] == 'o'); },
            CallStatus::Failed => { assert(other.spec_as_str()[0] == 'f'); },
            CallStatus::Busy => { assert(other.spec_as_str()[0] == 'b'); },
            CallStatus::NoAnswer => { assert(other.spec_as_str()[0] == 'n'); },
            CallStatus::Cancelled => { assert(other.spec_as_str()[1] == 'a'); },
            CallStatus::Rejected => { assert(other.spec_as_str()[0] == 'r'); },
        }
    }
}

/// Whole seconds from `earlier` to `later`, as the record keeps them (an
/// `i32`, truncated as `as i32` truncates).
pub open spec fn spec_duration_i32(later: i64, earlier: i64) -> i32 {
    seconds_between(later, earlier) as i32
}

/// Call Detail Record.
#[derive(Debug, Clone)]
pub struct CallDetailRecord {
    /// Unique CDR ID
    pub id: u128,
    /// SIP Call-ID
    pub call_id: String,
    pub caller_username: String,
    pub caller_uri: String,
    pub caller_ip: String,
    pub callee_username: String,
    pub callee_uri: String,
    pub callee_ip: Option<String>,
    pub direction: CallDirection,
    pub start_time: i64,
    pub answer_time: Option<i64>,
    pub end_time: Option<i64>,
    /// Seconds from start to answer
    pub setup_duration: Option<i32>,
    /// Seconds from answer to end
    pub call_duration: Option<i32>,
    /// Seconds from start to end
    pub total_duration: Option<i32>,
    pub status: CallStatus,
    pub end_reason: Option<String>,
    pub sip_response_code: Option<u16>,
    pub codec: Option<String>,
    pub rtp_packets_sent: Option<i64>,
    pub rtp_packets_received: Option<i64>,
    pub rtp_bytes_sent: Option<i64>,
    pub rtp_bytes_received: Option<i64>,
    pub created_at: i64,
    pub updated_at: i64,
}

/// The fields a call's parties and media fill are those of `b`, where `a`
/// and `b` differ at most in the times, durations and outcome.
pub open spec fn same_parties(a: CallDetailRecord, b: CallDetailRecord) -> bool {
    &&& b.id == a.id
    &&& b.call_id == a.call_id
    &&& b.caller_username == a.caller_username
    &&& b.caller_uri == a.caller_uri
    &&& b.caller_ip == a.caller_ip
    &&& b.callee_username == a.callee_username
    &&& b.callee_uri == a.callee_uri
    &&& b.direction == a.direction
    &&& b.start_time == a.start_time
    &&& b.created_at == a.created_at
}

impl CallDetailRecord {
    /// A record for a call initiated at `now`, with the given identifier.
    pub fn new_at(
        id: u128,
        call_id: String,
        caller_username: String,
        caller_uri: String,
        caller_ip: String,
        callee_username: String,
        callee_uri: String,
        direction: CallDirection,
        now: i64,
    ) -> (r: Self)
        ensures
            r == (CallDetailRecord {
                id,
                call_id,
                caller_username,
                caller_uri,
                caller_ip,
                callee_username,
                callee_uri,
                callee_ip: None,
                direction,
                start_time: now,
                answer_time: None,
                end_time: None,
                setup_duration: None,
                call_duration: None,
                total_duration: None,
                status: CallStatus::Active,
                end_reason: None,
                sip_response_code: None,
                codec: None,
                rtp_packets_sent: None,
                rtp_packets_received: None,
                rtp_bytes_sent: None,
                rtp_bytes_received: None,
                created_at: now,
                updated_at: now,
            }),
    {
        CallDetailRecord {
            id,
            call_id,
            caller_username,
            caller_uri,
            caller_ip,
            callee_username,
            callee_uri,
            callee_ip: None,
            direction,
            start_time: now,
            answer_time: None,
            end_time: None,
            setup_duration: None,
            call_duration: None,
            total_duration: None,
            status: CallStatus::Active,
            end_reason: None,
            sip_response_code: None,
            codec: None,
            rtp_packets_sent: None,
            rtp_packets_received: None,
            rtp_bytes_sent: None,
            rtp_bytes_received: None,
            created_at: now,
            updated_at: now,
        }
    }

    /// A record for a call initiated now, with a fresh identifier.
    pub fn new(
        call_id: String,
        caller_username: String,
        caller_uri: String,
        caller_ip: String,
        callee_username: String,
        callee_uri: String,
        direction: CallDirection,
    ) -> (r: Self)
        ensures
            is_v4_uuid(r.id),
            r.call_id == call_id,
            r.caller_username == caller_username,
            r.caller_uri == caller_uri,
            r.caller_ip == caller_ip,
            r.callee_username == callee_username,
            r.callee_uri == callee_uri,
            r.callee_ip is None,
            r.direction == direction,
            r.answer_time is None,
            r.end_time is None,
            r.setup_duration is None,
            r.call_duration is None,
            r.total_duration is None,
            r.status == CallStatus::Active,
            r.end_reason is None,
            r.sip_response_code is None,
            r.codec is None,
            r.rtp_packets_sent is None,
            r.rtp_packets_received is None,
            r.rtp_bytes_sent is None,
            r.rtp_bytes_received is None,
            r.created_at == r.start_time,
            r.updated_at == r.start_time,
    {
        let id = new_uuid();
        let now = now_millis();
        Self::new_at(
            id,
            call_id,
            caller_username,
            caller_uri,
            caller_ip,
            callee_username,
            callee_uri,
            direction,
            now,
        )
    }

    /// Marks the call answered at `now`; the setup took the seconds since the start.
    pub fn mark_answered_at(&mut self, now: i64)
        ensures
            *final(self) == (CallDetailRecord {
                answer_time: Some(now),
                setup_duration: Some(spec_duration_i32(now, old(self).start_time)),
                updated_at: now,
                ..*old(self)
            }),
    {
        let secs = elapsed_seconds(now, self.start_time);
        self.answer_time = Some(now);
        self.setup_duration = Some(secs as i32);
        self.updated_at = now;
    }

    /// Marks the call answered now.
    pub fn mark_answered(&mut self)
        ensures
            final(self).answer_time matches Some(t) && final(self).setup_duration == Some(
                spec_duration_i32(t, old(self).start_time),
            ) && final(self).updated_at == t && *final(self) == (CallDetailRecord {
                answer_time: Some(t),
                setup_duration: Some(spec_duration_i32(t, old(self).start_time)),
                updated_at: t,
                ..*old(self)
            }),
            exists|now: i64| #[trigger] clock_reading(now) && {
                &&& (*final(self) == (CallDetailRecord {
                    answer_time: Some(now),
                    setup_duration: Some(spec_duration_i32(now, old(self).start_time)),
                    updated_at: now,
                    ..*old(self)
                }))
            },
    {
        let now = now_millis();
        proof {
            assert(clock_reading(now));
        }
        self.mark_answered_at(now);
    }

    /// Marks the call ended at `now` with the given outcome: the total runs
    /// from the start, and the talk time from the answer when there was one.
    pub fn mark_ended_at(
        &mut self,
        status: CallStatus,
        reason: Option<String>,
        response_code: Option<u16>,
        now: i64,
    )
        ensures
            *final(self) == (CallDetailRecord {
                end_time: Some(now),
                status,
                end_reason: reason,
                sip_response_code: response_code,
                total_duration: Some(spec_duration_i32(now, old(self).start_time)),
                call_duration: match old(self).answer_time {
                    Some(a) => Some(spec_duration_i32(now, a)),
                    None => old(self).call_duration,
                },
                updated_at: now,
                ..*old(self)
            }),
    {
        self.end_time = Some(now);
        self.status = status;
        self.end_reason = reason;
        self.sip_response_code = response_code;
        let total = elapsed_seconds(now, self.start_time);
        self.total_duration = Some(total as i32);
        if let Some(answer_time) = self.answer_time {
            let talk = elapsed_seconds(now, answer_time);
            self.call_duration = Some(talk as i32);
        }
        self.updated_at = now;
    }

    /// Marks the call ended now with the given outcome.
    pub fn mark_ended(&mut self, status: CallStatus, reason: Option<String>, response_code: Option<u16>)
        ensures
            final(self).end_time matches Some(t) && *final(self) == (CallDetailRecord {
                end_time: Some(t),
                status,
                end_reason: reason,
                sip_response_code: response_code,
                total_duration: Some(spec_duration_i32(t, old(self).start_time)),
                call_duration: match old(self).answer_time {
                    Some(a) => Some(spec_duration_i32(t, a)),
                    None => old(self).call_duration,
                },
                updated_at: t,
                ..*old(self)
            }),
            exists|now: i64| #[trigger] clock_reading(now) && {
                &&& (*final(self) == (CallDetailRecord {
                    end_time: Some(now),
                    status,
                    end_reason: reason,
                    sip_response_code: response_code,
                    total_duration: Some(spec_duration_i32(now, old(self).start_time)),
                    call_duration: match old(self).answer_time {
                        Some(a) => Some(spec_duration_i32(now, a)),
                        None => old(self).call_duration,
                    },
                    updated_at: now,
                    ..*old(self)
                }))
            },
    {
        let now = now_millis();
        proof {
            assert(clock_reading(now));
        }
        self.mark_ended_at(status, reason, response_code, now);
    }

    /// Records the media information, at `now`.
    pub fn set_media_info_at(
        &mut self,
        codec: Option<String>,
        packets_sent: Option<i64>,
        packets_received: Option<i64>,
        bytes_sent: Option<i64>,
        bytes_received: Option<i64>,
        now: i64,
    )
        ensures
            *final(self) == (CallDetailRecord {
                codec,
                rtp_packets_sent: packets_sent,
                rtp_packets_received: packets_received,
                rtp_bytes_sent: bytes_sent,
                rtp_bytes_received: bytes_received,
                updated_at: now,
                ..*old(self)
            }),
    {
        self.codec = codec;
        self.rtp_packets_sent = packets_sent;
        self.rtp_packets_received = packets_received;
        self.rtp_bytes_sent = bytes_sent;
        self.rtp_bytes_received = bytes_received;
        self.updated_at = now;
    }

    /// Records the media information, now.
    pub fn set_media_info(
        &mut self,
        codec: Option<String>,
        packets_sent: Option<i64>,
        packets_received: Option<i64>,
        bytes_sent: Option<i64>,
        bytes_received: Option<i64>,
    )
        ensures
            *final(self) == (CallDetailRecord {
                codec,
                rtp_packets_sent: packets_sent,
                rtp_packets_received: packets_received,
                rtp_bytes_sent: bytes_sent,
                rtp_bytes_received: bytes_received,
                updated_at: final(self).updated_at,
                ..*old(self)
            }),
            exists|now: i64| #[trigger] clock_reading(now) && {
                &&& (*final(self) == (CallDetailRecord {
                    codec,
                    rtp_packets_sent: packets_sent,
                    rtp_packets_received: packets_received,
                    rtp_bytes_sent: bytes_sent,
                    rtp_bytes_received: bytes_received,
                    updated_at: now,
                    ..*old(self)
                }))
            },
    {
        let now = now_millis();
        proof {
            assert(clock_reading(now));
        }
        self.set_media_info_at(codec, packets_sent, packets_received, bytes_sent, bytes_received, now);
    }

    /// Records the callee's IP address, at `now`.
    pub fn set_callee_ip_at(&mut self, ip: String, now: i64)
        ensures
            *final(self) == (CallDetailRecord { callee_ip: Some(ip), updated_at: now, ..*old(self) }),
    {
        self.callee_ip = Some(ip);
        self.updated_at = now;
    }

    /// Records the callee's IP address, now.
    pub fn set_callee_ip(&mut self, ip: String)
        ensures
            *final(self) == (CallDetailRecord {
                callee_ip: Some(ip),
                updated_at: final(self).updated_at,
                ..*old(self)
            }),
            exists|now: i64| #[trigger] clock_reading(now) && {
                &&& (*final(self) == (CallDetailRecord { callee_ip: Some(ip), updated_at: now, ..*old(self) }))
            },
    {
        let now = now_millis();
        proof {
            assert(clock_reading(now));
        }
        self.set_callee_ip_at(ip, now);
    }
}

/// Filters for CDR queries; times are milliseconds since the epoch.
#[derive(Debug, Clone)]
pub struct CdrFilters {
    pub caller_username: Option<String>,
    pub callee_username: Option<String>,
    pub direction: Option<CallDirection>,
    pub status: Option<CallStatus>,
    pub start_time_from: Option<i64>,
    pub start_time_to: Option<i64>,
    pub min_duration: Option<i32>,
}

impl Default for CdrFilters {
    fn default() -> (r: Self)
        ensures
            r.caller_username is None,
            r.callee_username is None,
            r.direction is None,
            r.status is None,
            r.start_time_from is None,
            r.start_time_to is None,
            r.min_duration is None,
    {
        CdrFilters {
            caller_username: None,
            callee_username: None,
            direction: None,
            status: None,
            start_time_from: None,
            start_time_to: None,
            min_duration: None,
        }
    }
}

/// Ending after answering gives a total that covers both the setup and the
/// talk time, when the clock does not run backwards and no duration
/// overflows an `i32`.
pub proof fn lemma_total_covers_parts(start: i64, answer: i64, end: i64)
    requires
        start <= answer <= end,
        end - start < 1000 * 0x8000_0000,
    ensures
        spec_duration_i32(end, start) >= spec_duration_i32(answer, start),
        spec_duration_i32(end, start) >= spec_duration_i32(end, answer),
{
    let t = seconds_between(end, start);
    let s = seconds_between(answer, start);
    let c = seconds_between(end, answer);
    assert(0 <= s <= t) by (nonlinear_arith)
        requires
            s == (answer - start) / 1000,
            t == (end - start) / 1000,
            0 <= answer - start <= end - start,
    ;
    assert(0 <= c <= t) by (nonlinear_arith)
        requires
            c == (end - answer) / 1000,
            t == (end - start) / 1000,
            0 <= end - answer <= end - start,
    ;
    assert(t < 0x8000_0000) by (nonlinear_arith)
        requires
            t == (end - start) / 1000,
            0 <= end - start < 1000 * 0x8000_0000,
    ;
}

} // verus!
