//! Rules of an authenticated input session between two computers.
pub mod actor;
pub mod arrivals;
pub mod control;
pub mod desktop;
pub mod effects;
pub mod merge;
pub mod messages;
pub mod negotiation;
pub mod outbound;
pub mod pending;
pub mod pacing;
pub mod validation;
