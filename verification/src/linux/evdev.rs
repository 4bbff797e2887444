//! Kernel input events as plain values, with the event codes that matter here.
use vstd::prelude::*;

verus! {

/// Key or button code of the Linux input subsystem.
#[derive(Clone, Copy, Debug, PartialEq, Eq, Structural)]
pub struct KeyCode(pub u16);

impl KeyCode {
    pub fn new(code: u16) -> (result: Self)
        ensures
            result.0 == code,
    {
        KeyCode(code)
    }

    pub fn code(&self) -> (result: u16)
        ensures
            result == self.0,
    {
        self.0
    }
}

/// One kernel input event.
#[derive(Clone, Copy, Debug, PartialEq, Eq, Structural)]
pub struct InputEvent {
    pub kind: u16,
    pub code: u16,
    pub value: i32,
}

impl InputEvent {
    pub fn new(kind: u16, code: u16, value: i32) -> (result: Self)
        ensures
            result == (InputEvent { kind, code, value }),
    {
        InputEvent { kind, code, value }
    }
}

pub const EV_SYN: u16 = 0x00;

pub const EV_KEY: u16 = 0x01;

pub const EV_REL: u16 = 0x02;

pub const EV_ABS: u16 = 0x03;

pub const SYN_REPORT: u16 = 0;

pub const SYN_DROPPED: u16 = 3;

pub const REL_X: u16 = 0x00;

pub const REL_Y: u16 = 0x01;

pub const REL_HWHEEL: u16 = 0x06;

pub const REL_WHEEL: u16 = 0x08;

pub const REL_WHEEL_HI_RES: u16 = 0x0b;

pub const REL_HWHEEL_HI_RES: u16 = 0x0c;

pub const ABS_X: u16 = 0x00;

pub const ABS_Y: u16 = 0x01;

pub const ABS_MT_SLOT: u16 = 0x2f;

pub const ABS_MT_POSITION_X: u16 = 0x35;

pub const ABS_MT_POSITION_Y: u16 = 0x36;

pub const ABS_MT_TRACKING_ID: u16 = 0x39;

pub const BTN_LEFT: u16 = 0x110;

pub const BTN_TASK: u16 = 0x117;

pub const BTN_TOOL_FINGER: u16 = 0x145;

pub const BTN_TOUCH: u16 = 0x14a;

pub const BTN_TOOL_DOUBLETAP: u16 = 0x14d;

pub const BTN_TOOL_TRIPLETAP: u16 = 0x14e;

pub const BTN_TOOL_QUADTAP: u16 = 0x14f;

} // verus!
