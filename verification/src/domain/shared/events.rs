//! Domain events infrastructure.
use vstd::prelude::*;
use crate::domain::shared::system::{is_v4_uuid, new_uuid, now_millis};

verus! {

/// What every domain event tells: its type name and when it occurred
/// (milliseconds since the Unix epoch).
pub trait DomainEvent {
    /// The event type name.
    fn event_type(&self) -> &'static str;

    /// When the event occurred.
    fn occurred_at(&self) -> i64;
}

/// Event metadata: a fresh identifier, the time of recording and the type name.
#[derive(Debug, Clone)]
pub struct EventMetadata {
    pub event_id: u128,
    pub occurred_at: i64,
    pub event_type: String,
}

impl EventMetadata {
    /// Metadata for an event of the given type, stamped with a fresh
    /// identifier and the current time.
    pub fn new(event_type: String) -> (r: Self)
        ensures
            r.event_type@ == event_type@,
            is_v4_uuid(r.event_id),
    {
        EventMetadata { event_id: new_uuid(), occurred_at: now_millis(), event_type }
    }
}

} // verus!
