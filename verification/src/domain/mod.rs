//! Domain layer - core business logic and rules.
pub mod api_auth;
pub mod audio;
pub mod billing;
pub mod call;
pub mod call_announcer;
pub mod call_forwarding;
pub mod call_manager;
pub mod call_parking;
pub mod call_pickup;
pub mod call_quality;
pub mod call_queue;
pub mod call_queue_engine;
pub mod call_recording;
pub mod cdr;
pub mod conference;
pub mod conference_manager;
pub mod conference_recording;
pub mod dnd;
pub mod instant_messaging;
pub mod ip_blacklist;
pub mod music_on_hold;
pub mod mwi;
pub mod presence;
pub mod security;
pub mod tenant;
pub mod shared;
pub mod sip_trunk;

pub use shared::DomainError;
