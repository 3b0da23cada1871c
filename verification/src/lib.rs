//! YakYak PBX domain library.
pub mod config;
pub mod domain;
pub mod store;
pub mod text;
