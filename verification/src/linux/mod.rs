//! Linux input backbone: device rules, evdev decoding and uinput planning.
pub mod capture;
pub mod devices;
pub mod evdev;
pub mod grabs;
pub mod logind;
pub mod mapping;
pub mod ownership;
pub mod seat;
pub mod touch;
pub mod touchpad;
pub mod touchpad_replay;
pub mod uinput;
