//! Rules of the native capture: modifier keys and scroll events.
use vstd::prelude::*;

use crate::key_names::{mac_key, Key};

verus! {

/// Caps Lock is on, in the flags of an event.
pub const ALPHA_SHIFT: u64 = 0x0001_0000;

/// The flag that says whether a modifier key is down. Keys that exist on both
/// sides have a flag for each side; Caps Lock has one for both.
pub open spec fn modifier_flag(keycode: u16) -> u64 {
    match keycode {
        // Command
        55 => 0x0000_0008,
        54 => 0x0000_0010,
        // Shift
        56 => 0x0000_0002,
        60 => 0x0000_0004,
        // Option
        58 => 0x0000_0020,
        61 => 0x0000_0040,
        // Control
        59 => 0x0000_0001,
        62 => 0x0000_2000,
        57 => ALPHA_SHIFT,
        _ => 0,
    }
}

/// Whether a modifier key is down, given the flags of an event.
pub fn modifier_pressed(keycode: u16, flags: u64) -> (result: bool)
    ensures
        result == (flags & modifier_flag(keycode) != 0),
{
    let flag: u64 = match keycode {
        55 => 0x0000_0008,
        54 => 0x0000_0010,
        56 => 0x0000_0002,
        60 => 0x0000_0004,
        58 => 0x0000_0020,
        61 => 0x0000_0040,
        59 => 0x0000_0001,
        62 => 0x0000_2000,
        57 => ALPHA_SHIFT,
        _ => 0,
    };
    flags & flag != 0
}

/// The two keys of a pair are told apart: no flag stands for two keys.
pub proof fn modifier_sides_are_distinct(first: u16, second: u16)
    requires
        modifier_flag(first) != 0,
        modifier_flag(first) == modifier_flag(second),
    ensures
        first == second,
{
}

/// A scroll event of the system is forwarded unless raw touch already carries
/// it: with raw touch, scrolling that has phases comes from the fingers, and so
/// does any scrolling while a finger is down.
pub fn should_forward_scroll(
    raw_touch: bool,
    raw_contact_active: bool,
    scroll_phase: i64,
    momentum_phase: i64,
) -> (result: bool)
    ensures
        result == (!raw_touch || (!raw_contact_active && scroll_phase == 0 && momentum_phase == 0)),
{
    !raw_touch || (!raw_contact_active && scroll_phase == 0 && momentum_phase == 0)
}

/// The flag of a modifier key in the events of a Mac, by the key's name. Keys on
/// the right have flags of their own.
pub open spec fn flag_of_key(key: Key) -> Option<u64> {
    match key {
        Key::LeftControl => Some(0x1),
        Key::LeftShift => Some(0x2),
        Key::RightShift => Some(0x4),
        Key::LeftMeta => Some(0x8),
        Key::RightMeta => Some(0x10),
        Key::LeftAlt => Some(0x20),
        Key::RightAlt => Some(0x40),
        Key::RightControl => Some(0x2000),
        Key::CapsLock => Some(0x1_0000),
        _ => None,
    }
}

/// A key code is looked up by the flag of the key that it names, and has none if it
/// names no modifier.
pub proof fn modifiers_have_the_flag_of_their_key(keycode: u16)
    ensures
        match mac_key(keycode) {
            Some(key) => match flag_of_key(key) {
                Some(flag) => modifier_flag(keycode) == flag,
                None => modifier_flag(keycode) == 0,
            },
            None => modifier_flag(keycode) == 0,
        },
{
}

} // verus!
