//! Call aggregate root: the lifecycle of one call and the events it records.
use vstd::prelude::*;
use crate::domain::call::entity::Participant;
use crate::domain::call::event::{
    CallAnswered, CallEnded, CallEvent, CallEventBase, CallHeld, CallInitiated, CallResumed,
    CallRinging,
};
use crate::domain::call::value_object::{
    spec_can_transition, spec_state_debug, CallDirection, CallState, EndReason,
};
use crate::domain::shared::error::DomainError;
use crate::domain::shared::events::EventMetadata;
use crate::domain::shared::system::{clock_reading, 
    elapsed_seconds, is_v4_uuid, now_millis, seconds_between,
};
use crate::domain::shared::value_objects::{CallId, SessionId};

verus! {

/// The message of a refused transition.
pub open spec fn spec_transition_error(from: CallState, to: CallState) -> Seq<char> {
    "Cannot transition from "@ + spec_state_debug(from) + " to "@ + spec_state_debug(to)
}

/// The message of a resume outside hold.
pub open spec fn spec_resume_error() -> Seq<char> {
    "Can only resume from OnHold state"@
}

/// The error is an invalid-transition error with the given message.
pub open spec fn is_transition_error(e: DomainError, msg: Seq<char>) -> bool {
    match e {
        DomainError::InvalidStateTransition(m) => m@ == msg,
        _ => false,
    }
}

/// Metadata of a freshly recorded event of the given type.
pub open spec fn fresh_metadata(m: EventMetadata, event_type: Seq<char>) -> bool {
    m.event_type@ == event_type && is_v4_uuid(m.event_id)
}

pub open spec fn is_initiated_event(
    e: CallEvent,
    id: CallId,
    caller: Participant,
    callee: Participant,
    direction: CallDirection,
) -> bool {
    match e {
        CallEvent::Initiated(x) => x.base.call_id == id && x.caller == caller && x.callee == callee
            && x.direction == direction && fresh_metadata(x.base.metadata, "call.initiated"@),
        _ => false,
    }
}

pub open spec fn is_ringing_event(e: CallEvent, id: CallId, session_id: SessionId) -> bool {
    match e {
        CallEvent::Ringing(x) => x.base.call_id == id && x.session_id == session_id
            && fresh_metadata(x.base.metadata, "call.ringing"@),
        _ => false,
    }
}

pub open spec fn is_answered_event(e: CallEvent, id: CallId, at: i64) -> bool {
    match e {
        CallEvent::Answered(x) => x.base.call_id == id && x.answered_at == at
            && fresh_metadata(x.base.metadata, "call.answered"@),
        _ => false,
    }
}

pub open spec fn is_held_event(e: CallEvent, id: CallId) -> bool {
    match e {
        CallEvent::Held(x) => x.base.call_id == id && fresh_metadata(x.base.metadata, "call.held"@),
        _ => false,
    }
}

pub open spec fn is_resumed_event(e: CallEvent, id: CallId) -> bool {
    match e {
        CallEvent::Resumed(x) => x.base.call_id == id && fresh_metadata(
            x.base.metadata,
            "call.resumed"@,
        ),
        _ => false,
    }
}

/// The duration recorded when a call ends at `ended_at`: whole seconds from
/// the answer, when the call was answered.
pub open spec fn spec_end_duration(answered_at: Option<i64>, ended_at: i64) -> Option<i64> {
    match answered_at {
        Some(a) => Some(seconds_between(ended_at, a) as i64),
        None => None,
    }
}

pub open spec fn is_ended_event(
    e: CallEvent,
    id: CallId,
    reason: EndReason,
    at: i64,
    answered_at: Option<i64>,
) -> bool {
    match e {
        CallEvent::Ended(x) => x.base.call_id == id && x.reason == reason && x.ended_at == at
            && x.duration_seconds == spec_end_duration(answered_at, at) && fresh_metadata(
            x.base.metadata,
            "call.ended"@,
        ),
        _ => false,
    }
}

/// Call aggregate root: manages the lifecycle of a call and enforces its
/// state machine. Times are milliseconds since the Unix epoch.
#[derive(Debug, Clone)]
pub struct Call {
    id: CallId,
    session_id: Option<SessionId>,
    state: CallState,
    direction: CallDirection,
    caller: Participant,
    callee: Participant,
    started_at: i64,
    answered_at: Option<i64>,
    ended_at: Option<i64>,
    events: Vec<CallEvent>,
}

/// Identity, parties and start time of `b` are those of `a`.
pub open spec fn same_identity(a: Call, b: Call) -> bool {
    &&& b.spec_id() == a.spec_id()
    &&& b.spec_direction() == a.spec_direction()
    &&& b.spec_caller() == a.spec_caller()
    &&& b.spec_callee() == a.spec_callee()
    &&& b.spec_started_at() == a.spec_started_at()
}

/// `b` is `a` put on hold: on hold, the rest as it was, one held event more.
pub open spec fn held_from(a: Call, b: Call) -> bool {
    &&& same_identity(a, b)
    &&& b.spec_state() == CallState::OnHold
    &&& b.spec_session_id() == a.spec_session_id()
    &&& b.spec_answered_at() == a.spec_answered_at()
    &&& b.spec_ended_at() == a.spec_ended_at()
    &&& b.spec_events().len() == a.spec_events().len() + 1
    &&& b.spec_events().drop_last() == a.spec_events()
    &&& is_held_event(b.spec_events().last(), a.spec_id())
}

/// `b` is `a` taken off hold: answered, the rest as it was, one resumed event more.
pub open spec fn resumed_from(a: Call, b: Call) -> bool {
    &&& same_identity(a, b)
    &&& b.spec_state() == CallState::Answered
    &&& b.spec_session_id() == a.spec_session_id()
    &&& b.spec_answered_at() == a.spec_answered_at()
    &&& b.spec_ended_at() == a.spec_ended_at()
    &&& b.spec_events().len() == a.spec_events().len() + 1
    &&& b.spec_events().drop_last() == a.spec_events()
    &&& is_resumed_event(b.spec_events().last(), a.spec_id())
}

/// Holding an answered call and resuming it gives an answered call again:
/// the same call, session and answer time, with a held and a resumed event
/// added after the earlier ones.
pub proof fn law_hold_then_resume(c0: Call, c1: Call, c2: Call)
    requires
        c0.spec_state() is Answered,
        held_from(c0, c1),
        resumed_from(c1, c2),
    ensures
        c2.spec_state() == c0.spec_state(),
        same_identity(c0, c2),
        c2.spec_session_id() == c0.spec_session_id(),
        c2.spec_answered_at() == c0.spec_answered_at(),
        c2.spec_ended_at() == c0.spec_ended_at(),
        c2.spec_events().len() == c0.spec_events().len() + 2,
        c2.spec_events().take(c0.spec_events().len() as int) == c0.spec_events(),
        is_held_event(c2.spec_events()[c0.spec_events().len() as int], c0.spec_id()),
        is_resumed_event(c2.spec_events().last(), c0.spec_id()),
{
    let n = c0.spec_events().len() as int;
    assert(c2.spec_events().take(n) =~= c1.spec_events().drop_last());
    assert(c2.spec_events()[n] == c1.spec_events().last());
}

/// `b` is `a` with one more pending event, `e`.
pub open spec fn records(a: Call, b: Call, e: CallEvent) -> bool {
    b.spec_events() == a.spec_events().push(e)
}

impl Call {
    pub closed spec fn spec_id(&self) -> CallId {
        self.id
    }

    pub closed spec fn spec_session_id(&self) -> Option<SessionId> {
        self.session_id
    }

    pub closed spec fn spec_state(&self) -> CallState {
        self.state
    }

    pub closed spec fn spec_direction(&self) -> CallDirection {
        self.direction
    }

    pub closed spec fn spec_caller(&self) -> Participant {
        self.caller
    }

    pub closed spec fn spec_callee(&self) -> Participant {
        self.callee
    }

    pub closed spec fn spec_started_at(&self) -> i64 {
        self.started_at
    }

    pub closed spec fn spec_answered_at(&self) -> Option<i64> {
        self.answered_at
    }

    pub closed spec fn spec_ended_at(&self) -> Option<i64> {
        self.ended_at
    }

    /// The pending events, oldest first.
    pub closed spec fn spec_events(&self) -> Seq<CallEvent> {
        self.events@
    }

    /// A new call, initiated at `now`, with its initiated event pending.
    pub fn new_at(
        id: CallId,
        caller: Participant,
        callee: Participant,
        direction: CallDirection,
        now: i64,
    ) -> (r: Self)
        ensures
            r.spec_id() == id,
            r.spec_session_id() is None,
            r.spec_state() == CallState::Initiating,
            r.spec_direction() == direction,
            r.spec_caller() == caller,
            r.spec_callee() == callee,
            r.spec_started_at() == now,
            r.spec_answered_at() is None,
            r.spec_ended_at() is None,
            r.spec_events().len() == 1,
            is_initiated_event(r.spec_events()[0], id, caller, callee, direction),
    {
        let mut call = Self {
            id,
            session_id: None,
            state: CallState::Initiating,
            direction,
            caller: caller.duplicate(),
            callee: callee.duplicate(),
            started_at: now,
            answered_at: None,
            ended_at: None,
            events: Vec::new(),
        };
        let e = CallEvent::Initiated(
            CallInitiated {
                base: CallEventBase {
                    metadata: EventMetadata::new(String::from_str("call.initiated")),
                    call_id: id,
                },
                caller,
                callee,
                direction,
            },
        );
        call.events.push(e);
        call
    }

    /// A new call, initiated now.
    pub fn new(id: CallId, caller: Participant, callee: Participant, direction: CallDirection) -> (r:
        Self)
        ensures
            r.spec_id() == id,
            r.spec_session_id() is None,
            r.spec_state() == CallState::Initiating,
            r.spec_direction() == direction,
            r.spec_caller() == caller,
            r.spec_callee() == callee,
            r.spec_answered_at() is None,
            r.spec_ended_at() is None,
            r.spec_events().len() == 1,
            is_initiated_event(r.spec_events()[0], id, caller, callee, direction),
    {
        Self::new_at(id, caller, callee, direction, now_millis())
    }

    /// Moves to `new_state` where the lifecycle allows it.
    fn transition_to(&mut self, new_state: CallState) -> (r: Result<(), DomainError>)
        ensures
            r is Ok <==> spec_can_transition(old(self).state, new_state),
            r is Ok ==> *final(self) == (Call { state: new_state, ..*old(self) }),
            r matches Err(e) ==> *final(self) == *old(self) && is_transition_error(
                e,
                spec_transition_error(old(self).state, new_state),
            ),
    {
        if !self.state.can_transition_to(&new_state) {
            let mut m = String::from_str("Cannot transition from ");
            let a = self.state.debug_text();
            m.append(a.as_str());
            m.append(" to ");
            let b = new_state.debug_text();
            m.append(b.as_str());
            return Err(DomainError::InvalidStateTransition(m));
        }
        self.state = new_state;
        Ok(())
    }

    /// Rings the call on the given session: allowed while initiating.
    pub fn ring(&mut self, session_id: SessionId) -> (r: Result<(), DomainError>)
        ensures
            r is Ok <==> old(self).spec_state() is Initiating,
            r is Ok ==> {
                &&& same_identity(*old(self), *final(self))
                &&& final(self).spec_state() == CallState::Ringing
                &&& final(self).spec_session_id() == Some(session_id)
                &&& final(self).spec_answered_at() == old(self).spec_answered_at()
                &&& final(self).spec_ended_at() == old(self).spec_ended_at()
                &&& final(self).spec_events().len() == old(self).spec_events().len() + 1
                &&& final(self).spec_events().drop_last() == old(self).spec_events()
                &&& is_ringing_event(
                    final(self).spec_events().last(),
                    old(self).spec_id(),
                    session_id,
                )
            },
            r matches Err(e) ==> *final(self) == *old(self) && is_transition_error(
                e,
                spec_transition_error(old(self).spec_state(), CallState::Ringing),
            ),
    {
        self.transition_to(CallState::Ringing)?;
        self.session_id = Some(session_id);
        let e = CallEvent::Ringing(
            CallRinging {
                base: CallEventBase {
                    metadata: EventMetadata::new(String::from_str("call.ringing")),
                    call_id: self.id,
                },
                session_id,
            },
        );
        let ghost before = self.events@;
        self.events.push(e);
        assert(self.events@.drop_last() == before);
        Ok(())
    }

    /// Answers the call at `now`: allowed while ringing, and also from hold or
    /// transfer, which the lifecycle lets return to answered.
    pub fn answer_at(&mut self, now: i64) -> (r: Result<(), DomainError>)
        ensures
            r is Ok <==> spec_can_transition(old(self).spec_state(), CallState::Answered),
            r is Ok ==> {
                &&& same_identity(*old(self), *final(self))
                &&& final(self).spec_state() == CallState::Answered
                &&& final(self).spec_session_id() == old(self).spec_session_id()
                &&& final(self).spec_answered_at() == Some(now)
                &&& final(self).spec_ended_at() == old(self).spec_ended_at()
                &&& final(self).spec_events().len() == old(self).spec_events().len() + 1
                &&& final(self).spec_events().drop_last() == old(self).spec_events()
                &&& is_answered_event(final(self).spec_events().last(), old(self).spec_id(), now)
            },
            r matches Err(e) ==> *final(self) == *old(self) && is_transition_error(
                e,
                spec_transition_error(old(self).spec_state(), CallState::Answered),
            ),
    {
        self.transition_to(CallState::Answered)?;
        self.answered_at = Some(now);
        let e = CallEvent::Answered(
            CallAnswered {
                base: CallEventBase {
                    metadata: EventMetadata::new(String::from_str("call.answered")),
                    call_id: self.id,
                },
                answered_at: now,
            },
        );
        let ghost before = self.events@;
        self.events.push(e);
        assert(self.events@.drop_last() == before);
        Ok(())
    }

    /// Answers the call now: allowed where `answer_at` allows it.
    pub fn answer(&mut self) -> (r: Result<(), DomainError>)
        ensures
            r is Ok <==> spec_can_transition(old(self).spec_state(), CallState::Answered),
            r is Ok ==> {
                &&& same_identity(*old(self), *final(self))
                &&& final(self).spec_state() == CallState::Answered
                &&& final(self).spec_session_id() == old(self).spec_session_id()
                &&& final(self).spec_answered_at() is Some
                &&& final(self).spec_ended_at() == old(self).spec_ended_at()
                &&& final(self).spec_events().len() == old(self).spec_events().len() + 1
                &&& final(self).spec_events().drop_last() == old(self).spec_events()
                &&& is_answered_event(
                    final(self).spec_events().last(),
                    old(self).spec_id(),
                    final(self).spec_answered_at().unwrap(),
                )
            },
            r matches Err(e) ==> *final(self) == *old(self) && is_transition_error(
                e,
                spec_transition_error(old(self).spec_state(), CallState::Answered),
            ),
            exists|now: i64| #[trigger] clock_reading(now) && {
                &&& (r is Ok <==> spec_can_transition(old(self).spec_state(), CallState::Answered))
                &&& (r is Ok ==> {
                    &&& same_identity(*old(self), *final(self))
                    &&& final(self).spec_state() == CallState::Answered
                    &&& final(self).spec_session_id() == old(self).spec_session_id()
                    &&& final(self).spec_answered_at() == Some(now)
                    &&& final(self).spec_ended_at() == old(self).spec_ended_at()
                    &&& final(self).spec_events().len() == old(self).spec_events().len() + 1
                    &&& final(self).spec_events().drop_last() == old(self).spec_events()
                    &&& is_answered_event(final(self).spec_events().last(), old(self).spec_id(), now)
                })
                &&& (r matches Err(e) ==> *final(self) == *old(self) && is_transition_error(
                    e,
                    spec_transition_error(old(self).spec_state(), CallState::Answered),
                ))
            },
    {
        let now = now_millis();
        proof {
            assert(clock_reading(now));
        }
        self.answer_at(now)
    }

    /// Puts the call on hold: allowed while answered.
    pub fn hold(&mut self) -> (r: Result<(), DomainError>)
        ensures
            r is Ok <==> old(self).spec_state() is Answered,
            r is Ok ==> held_from(*old(self), *final(self)),
            r matches Err(e) ==> *final(self) == *old(self) && is_transition_error(
                e,
                spec_transition_error(old(self).spec_state(), CallState::OnHold),
            ),
    {
        self.transition_to(CallState::OnHold)?;
        let e = CallEvent::Held(
            CallHeld {
                base: CallEventBase {
                    metadata: EventMetadata::new(String::from_str("call.held")),
                    call_id: self.id,
                },
            },
        );
        let ghost before = self.events@;
        self.events.push(e);
        assert(self.events@.drop_last() == before);
        Ok(())
    }

    /// Resumes the call from hold.
    pub fn resume(&mut self) -> (r: Result<(), DomainError>)
        ensures
            r is Ok <==> old(self).spec_state() is OnHold,
            r is Ok ==> resumed_from(*old(self), *final(self)),
            r matches Err(e) ==> *final(self) == *old(self) && is_transition_error(
                e,
                spec_resume_error(),
            ),
    {
        if !matches!(self.state, CallState::OnHold) {
            return Err(DomainError::InvalidStateTransition(String::from_str("Can only resume from OnHold state")));
        }
        self.transition_to(CallState::Answered)?;
        let e = CallEvent::Resumed(
            CallResumed {
                base: CallEventBase {
                    metadata: EventMetadata::new(String::from_str("call.resumed")),
                    call_id: self.id,
                },
            },
        );
        let ghost before = self.events@;
        self.events.push(e);
        assert(self.events@.drop_last() == before);
        Ok(())
    }

    /// Ends the call at `now` for the given reason: allowed until it has ended.
    pub fn end_at(&mut self, reason: EndReason, now: i64) -> (r: Result<(), DomainError>)
        ensures
            r is Ok <==> !(old(self).spec_state() is Ended),
            r is Ok ==> {
                &&& same_identity(*old(self), *final(self))
                &&& final(self).spec_state() == CallState::Ended(reason)
                &&& final(self).spec_session_id() == old(self).spec_session_id()
                &&& final(self).spec_answered_at() == old(self).spec_answered_at()
                &&& final(self).spec_ended_at() == Some(now)
                &&& final(self).spec_events().len() == old(self).spec_events().len() + 1
                &&& final(self).spec_events().drop_last() == old(self).spec_events()
                &&& is_ended_event(
                    final(self).spec_events().last(),
                    old(self).spec_id(),
                    reason,
                    now,
                    old(self).spec_answered_at(),
                )
            },
            r matches Err(e) ==> *final(self) == *old(self) && is_transition_error(
                e,
                spec_transition_error(old(self).spec_state(), CallState::Ended(reason)),
            ),
    {
        self.transition_to(CallState::Ended(reason.duplicate()))?;
        self.ended_at = Some(now);
        let duration_seconds = match self.answered_at {
            Some(a) => Some(elapsed_seconds(now, a)),
            None => None,
        };
        let e = CallEvent::Ended(
            CallEnded {
                base: CallEventBase {
                    metadata: EventMetadata::new(String::from_str("call.ended")),
                    call_id: self.id,
                },
                reason,
                ended_at: now,
                duration_seconds,
            },
        );
        let ghost before = self.events@;
        self.events.push(e);
        assert(self.events@.drop_last() == before);
        Ok(())
    }

    /// Ends the call now for the given reason: allowed until it has ended.
    pub fn end(&mut self, reason: EndReason) -> (r: Result<(), DomainError>)
        ensures
            r is Ok <==> !(old(self).spec_state() is Ended),
            r is Ok ==> {
                &&& same_identity(*old(self), *final(self))
                &&& final(self).spec_state() == CallState::Ended(reason)
                &&& final(self).spec_session_id() == old(self).spec_session_id()
                &&& final(self).spec_answered_at() == old(self).spec_answered_at()
                &&& final(self).spec_ended_at() is Some
                &&& final(self).spec_events().len() == old(self).spec_events().len() + 1
                &&& final(self).spec_events().drop_last() == old(self).spec_events()
                &&& is_ended_event(
                    final(self).spec_events().last(),
                    old(self).spec_id(),
                    reason,
                    final(self).spec_ended_at().unwrap(),
                    old(self).spec_answered_at(),
                )
            },
            r matches Err(e) ==> *final(self) == *old(self) && is_transition_error(
                e,
                spec_transition_error(old(self).spec_state(), CallState::Ended(reason)),
            ),
            exists|now: i64| #[trigger] clock_reading(now) && {
                &&& (r is Ok <==> !(old(self).spec_state() is Ended))
                &&& (r is Ok ==> {
                    &&& same_identity(*old(self), *final(self))
                    &&& final(self).spec_state() == CallState::Ended(reason)
                    &&& final(self).spec_session_id() == old(self).spec_session_id()
                    &&& final(self).spec_answered_at() == old(self).spec_answered_at()
                    &&& final(self).spec_ended_at() == Some(now)
                    &&& final(self).spec_events().len() == old(self).spec_events().len() + 1
                    &&& final(self).spec_events().drop_last() == old(self).spec_events()
                    &&& is_ended_event(
                        final(self).spec_events().last(),
                        old(self).spec_id(),
                        reason,
                        now,
                        old(self).spec_answered_at(),
                    )
                })
                &&& (r matches Err(e) ==> *final(self) == *old(self) && is_transition_error(
                    e,
                    spec_transition_error(old(self).spec_state(), CallState::Ended(reason)),
                ))
            },
    {
        let now = now_millis();
        proof {
            assert(clock_reading(now));
        }
        self.end_at(reason, now)
    }

    /// Takes all pending events, oldest first, leaving none.
    pub fn take_events(&mut self) -> (r: Vec<CallEvent>)
        ensures
            r@ == old(self).spec_events(),
            final(self).spec_events().len() == 0,
            same_identity(*old(self), *final(self)),
            final(self).spec_state() == old(self).spec_state(),
            final(self).spec_session_id() == old(self).spec_session_id(),
            final(self).spec_answered_at() == old(self).spec_answered_at(),
            final(self).spec_ended_at() == old(self).spec_ended_at(),
    {
        let mut out: Vec<CallEvent> = Vec::new();
        std::mem::swap(&mut out, &mut self.events);
        out
    }

    /// The pending events, oldest first.
    pub fn pending_events(&self) -> (r: &Vec<CallEvent>)
        ensures
            r@ == self.spec_events(),
    {
        &self.events
    }

    pub fn id(&self) -> (r: &CallId)
        ensures
            *r == self.spec_id(),
    {
        &self.id
    }

    pub fn session_id(&self) -> (r: Option<&SessionId>)
        ensures
            match self.spec_session_id() {
                Some(s) => r == Some(&s),
                None => r is None,
            },
    {
        match &self.session_id {
            Some(s) => Some(s),
            None => None,
        }
    }

    pub fn state(&self) -> (r: &CallState)
        ensures
            *r == self.spec_state(),
    {
        &self.state
    }

    pub fn direction(&self) -> (r: &CallDirection)
        ensures
            *r == self.spec_direction(),
    {
        &self.direction
    }

    pub fn caller(&self) -> (r: &Participant)
        ensures
            *r == self.spec_caller(),
    {
        &self.caller
    }

    pub fn callee(&self) -> (r: &Participant)
        ensures
            *r == self.spec_callee(),
    {
        &self.callee
    }

    pub fn started_at(&self) -> (r: i64)
        ensures
            r == self.spec_started_at(),
    {
        self.started_at
    }

    pub fn answered_at(&self) -> (r: Option<i64>)
        ensures
            r == self.spec_answered_at(),
    {
        self.answered_at
    }

    pub fn ended_at(&self) -> (r: Option<i64>)
        ensures
            r == self.spec_ended_at(),
    {
        self.ended_at
    }

    /// Milliseconds from the answer to the end, once the call was answered
    /// and has ended.
    pub fn duration(&self) -> (r: Option<i128>)
        ensures
            match (self.spec_answered_at(), self.spec_ended_at()) {
                (Some(a), Some(e)) => r == Some((e - a) as i128),
                _ => r is None,
            },
    {
        match (self.answered_at, self.ended_at) {
            (Some(a), Some(e)) => Some(e as i128 - a as i128),
            _ => None,
        }
    }

    /// A call is active until it has ended.
    pub fn is_active(&self) -> (r: bool)
        ensures
            r == !(self.spec_state() is Ended),
    {
        self.state.is_active()
    }
}

} // verus!
