//! Input source on macOS.
pub mod awdl;
pub mod frames;
pub mod handoff;
pub mod keys;
pub mod native;
pub mod source;
