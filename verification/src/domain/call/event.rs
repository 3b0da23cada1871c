//! Call domain events.
use vstd::prelude::*;
use crate::domain::call::entity::Participant;
use crate::domain::call::value_object::{CallDirection, EndReason};
use crate::domain::shared::events::{DomainEvent, EventMetadata};
use crate::domain::shared::value_objects::{CallId, SessionId};

verus! {

/// Base of all call events.
#[derive(Debug, Clone)]
pub struct CallEventBase {
    pub metadata: EventMetadata,
    pub call_id: CallId,
}

/// Call initiated event.
#[derive(Debug, Clone)]
pub struct CallInitiated {
    pub base: CallEventBase,
    pub caller: Participant,
    pub callee: Participant,
    pub direction: CallDirection,
}

impl DomainEvent for CallInitiated {
    fn event_type(&self) -> (r: &'static str)
        ensures
            r@ == "call.initiated"@,
    {
        "call.initiated"
    }

    fn occurred_at(&self) -> (r: i64)
        ensures
            r == self.base.metadata.occurred_at,
    {
        self.base.metadata.occurred_at
    }
}

/// Call ringing event.
#[derive(Debug, Clone)]
pub struct CallRinging {
    pub base: CallEventBase,
    pub session_id: SessionId,
}

impl DomainEvent for CallRinging {
    fn event_type(&self) -> (r: &'static str)
        ensures
            r@ == "call.ringing"@,
    {
        "call.ringing"
    }

    fn occurred_at(&self) -> (r: i64)
        ensures
            r == self.base.metadata.occurred_at,
    {
        self.base.metadata.occurred_at
    }
}

/// Call answered event; `answered_at` is in milliseconds since the epoch.
#[derive(Debug, Clone)]
pub struct CallAnswered {
    pub base: CallEventBase,
    pub answered_at: i64,
}

impl DomainEvent for CallAnswered {
    fn event_type(&self) -> (r: &'static str)
        ensures
            r@ == "call.answered"@,
    {
        "call.answered"
    }

    fn occurred_at(&self) -> (r: i64)
        ensures
            r == self.base.metadata.occurred_at,
    {
        self.base.metadata.occurred_at
    }
}

/// Call held event.
#[derive(Debug, Clone)]
pub struct CallHeld {
    pub base: CallEventBase,
}

impl DomainEvent for CallHeld {
    fn event_type(&self) -> (r: &'static str)
        ensures
            r@ == "call.held"@,
    {
        "call.held"
    }

    fn occurred_at(&self) -> (r: i64)
        ensures
            r == self.base.metadata.occurred_at,
    {
        self.base.metadata.occurred_at
    }
}

/// Call resumed event.
#[derive(Debug, Clone)]
pub struct CallResumed {
    pub base: CallEventBase,
}

impl DomainEvent for CallResumed {
    fn event_type(&self) -> (r: &'static str)
        ensures
            r@ == "call.resumed"@,
    {
        "call.resumed"
    }

    fn occurred_at(&self) -> (r: i64)
        ensures
            r == self.base.metadata.occurred_at,
    {
        self.base.metadata.occurred_at
    }
}

/// Call ended event; `ended_at` is in milliseconds since the epoch and the
/// duration is counted in whole seconds from the answer, when there was one.
#[derive(Debug, Clone)]
pub struct CallEnded {
    pub base: CallEventBase,
    pub reason: EndReason,
    pub ended_at: i64,
    pub duration_seconds: Option<i64>,
}

impl DomainEvent for CallEnded {
    fn event_type(&self) -> (r: &'static str)
        ensures
            r@ == "call.ended"@,
    {
        "call.ended"
    }

    fn occurred_at(&self) -> (r: i64)
        ensures
            r == self.base.metadata.occurred_at,
    {
        self.base.metadata.occurred_at
    }
}

/// Union of all call events.
#[derive(Debug, Clone)]
pub enum CallEvent {
    Initiated(CallInitiated),
    Ringing(CallRinging),
    Answered(CallAnswered),
    Held(CallHeld),
    Resumed(CallResumed),
    Ended(CallEnded),
}

/// The call an event belongs to.
pub open spec fn spec_event_call_id(e: CallEvent) -> CallId {
    match e {
        CallEvent::Initiated(x) => x.base.call_id,
        CallEvent::Ringing(x) => x.base.call_id,
        CallEvent::Answered(x) => x.base.call_id,
        CallEvent::Held(x) => x.base.call_id,
        CallEvent::Resumed(x) => x.base.call_id,
        CallEvent::Ended(x) => x.base.call_id,
    }
}

/// The type name recorded in an event's metadata.
pub open spec fn spec_event_type(e: CallEvent) -> Seq<char> {
    match e {
        CallEvent::Initiated(x) => x.base.metadata.event_type@,
        CallEvent::Ringing(x) => x.base.metadata.event_type@,
        CallEvent::Answered(x) => x.base.metadata.event_type@,
        CallEvent::Held(x) => x.base.metadata.event_type@,
        CallEvent::Resumed(x) => x.base.metadata.event_type@,
        CallEvent::Ended(x) => x.base.metadata.event_type@,
    }
}

impl CallEvent {
    /// The call the event belongs to.
    pub fn call_id(&self) -> (r: &CallId)
        ensures
            *r == spec_event_call_id(*self),
    {
        match self {
            CallEvent::Initiated(e) => &e.base.call_id,
            CallEvent::Ringing(e) => &e.base.call_id,
            CallEvent::Answered(e) => &e.base.call_id,
            CallEvent::Held(e) => &e.base.call_id,
            CallEvent::Resumed(e) => &e.base.call_id,
            CallEvent::Ended(e) => &e.base.call_id,
        }
    }
}

} // verus!
