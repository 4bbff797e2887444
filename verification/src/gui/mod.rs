//! State and rules of the desktop program.
pub mod app;
pub mod displays;
pub mod document;
pub mod launch;
pub mod layout_editor;
pub mod layout_model;
pub mod pairing;
pub mod receiver;
pub mod settings;
pub mod sharing;
