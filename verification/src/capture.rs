//! Frames handed from a capture backend to the sharing session.
use vstd::prelude::*;

use crate::input::{HidUsage, MotionDelta, PointerButton, TouchState};

verus! {

/// Contacts that a captured or injected touchpad can carry at once.
pub const MAX_TOUCHPAD_CONTACTS: usize = 5;

#[derive(Clone, Copy, Debug, PartialEq, Eq, Structural)]
pub enum KeyState {
    Pressed,
    Released,
    Repeat,
}

#[derive(Clone, Copy, Debug, PartialEq, Eq, Structural)]
pub enum CaptureTransition {
    Key { usage: HidUsage, state: KeyState },
    Button { button: PointerButton, state: KeyState },
}

/// One complete report: ordered transitions and the accumulated motion.
#[derive(Clone, Debug, PartialEq, Eq)]
pub struct CaptureFrame {
    pub transitions: Vec<CaptureTransition>,
    pub motion: MotionDelta,
    pub touch_snapshot: Option<TouchState>,
    pub event_count: u64,
}

} // verus!
