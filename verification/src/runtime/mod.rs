//! Decisions of the headless platform runtime.
pub mod chords;
pub mod linux;
pub mod readiness;
pub mod selection;
pub mod state;
