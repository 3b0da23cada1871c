//! Shared kernel: errors, value objects, identifiers and the clock.
pub mod calendar;
pub mod error;
pub mod events;
pub mod stats;
pub mod system;
pub mod value_objects;

pub use error::DomainError;
pub use value_objects::{CallId, EndpointId, SessionId, SipUri};
