//! Events of the native macOS capture as capture frames.
use vstd::prelude::*;

use crate::capture::{CaptureFrame, CaptureTransition, KeyState, MAX_TOUCHPAD_CONTACTS};
use crate::input::{
    distinct_ids, first_repeated_id, keyboard_usage, ContactId, MotionDelta, PointerButton,
    SourceDimensions, TouchContact, TouchState, TouchTool,
};
use crate::key_names::{mac_codes_have_the_usage_of_their_key, mac_key, usage_of_key};
use crate::linux::capture::CapturedDeviceFrame;
use crate::macos::keys::{mac_keycode_to_hid, usage_of_mac_code};

verus! {

pub const MOTION_EVENT: u32 = 1;

pub const KEY_EVENT: u32 = 2;

pub const BUTTON_EVENT: u32 = 3;

pub const TOUCH_EVENT: u32 = 4;

pub const ESCAPE_EVENT: u32 = 5;

/// One finger on the trackpad. The position counts from the top left corner,
/// from zero to the largest 16-bit number on both axes.
#[derive(Clone, Copy, Debug, PartialEq, Eq, Structural)]
pub struct NativeContact {
    pub id: i32,
    pub x: i32,
    pub y: i32,
}

/// One event of the native capture.
#[derive(Clone, Copy, Debug, PartialEq, Eq)]
pub struct NativeEvent {
    pub kind: u32,
    pub dx: i64,
    pub dy: i64,
    pub scroll_x: i64,
    pub scroll_y: i64,
    pub code: u16,
    pub button: u16,
    pub pressed: u8,
    pub contact_count: u8,
    pub contacts: [NativeContact; MAX_TOUCHPAD_CONTACTS],
}

impl NativeEvent {
    pub open spec fn motion(self) -> MotionDelta {
        MotionDelta {
            dx: self.dx,
            dy: self.dy,
            scroll_x: self.scroll_x,
            scroll_y: self.scroll_y,
        }
    }

    /// Contacts that the event carries: never more than fit.
    pub open spec fn reported_contacts(self) -> Seq<NativeContact> {
        self.contacts@.take(
            if self.contact_count < MAX_TOUCHPAD_CONTACTS {
                self.contact_count as int
            } else {
                MAX_TOUCHPAD_CONTACTS as int
            },
        )
    }
}

pub open spec fn state_of_pressed(pressed: u8) -> KeyState {
    if pressed == 0 {
        KeyState::Released
    } else {
        KeyState::Pressed
    }
}

pub fn pressed_state(pressed: u8) -> (result: KeyState)
    ensures
        result == state_of_pressed(pressed),
{
    if pressed == 0 {
        KeyState::Released
    } else {
        KeyState::Pressed
    }
}

pub open spec fn touch_contact(contact: NativeContact) -> TouchContact {
    TouchContact {
        id: ContactId(contact.id as u32),
        x: contact.x,
        y: contact.y,
        pressure: None,
        major: None,
        minor: None,
        orientation_millidegrees: None,
        tool: TouchTool::Finger,
        source_dimensions: Some(
            SourceDimensions { width: u16::MAX as u32, height: u16::MAX as u32 },
        ),
    }
}

/// The contacts with an id; a negative one marks no contact.
pub open spec fn touch_contacts(contacts: Seq<NativeContact>) -> Seq<TouchContact>
    decreases contacts.len(),
{
    if contacts.len() == 0 {
        Seq::empty()
    } else {
        let rest = touch_contacts(contacts.drop_last());
        if contacts.last().id >= 0 {
            rest.push(touch_contact(contacts.last()))
        } else {
            rest
        }
    }
}

/// A frame of the event tap with these contents and no touch.
pub open spec fn is_tap_frame(
    captured: CapturedDeviceFrame,
    transitions: Seq<CaptureTransition>,
    motion: MotionDelta,
    captured_at: u64,
) -> bool {
    &&& captured.device_path@ == "macos:event-tap"@
    &&& captured.captured_at == captured_at
    &&& captured.frame.transitions@ == transitions
    &&& captured.frame.motion == motion
    &&& captured.frame.touch_snapshot is None
    &&& captured.frame.event_count == 1
}

/// A frame of the trackpad whose touch state is `state`.
pub open spec fn is_touch_frame(
    captured: CapturedDeviceFrame,
    state: TouchState,
    captured_at: u64,
) -> bool {
    &&& captured.device_path@ == "macos:magic-trackpad"@
    &&& captured.captured_at == captured_at
    &&& captured.frame.transitions@.len() == 0
    &&& captured.frame.motion == MotionDelta::zero()
    &&& captured.frame.touch_snapshot == Some(state)
    &&& captured.frame.event_count == 1
}

pub fn touch_frame(state: TouchState, captured_at: u64) -> (result: CapturedDeviceFrame)
    ensures
        is_touch_frame(result, state, captured_at),
{
    CapturedDeviceFrame {
        device_path: "macos:magic-trackpad".to_owned(),
        frame: CaptureFrame {
            transitions: Vec::new(),
            motion: MotionDelta::default(),
            touch_snapshot: Some(state),
            event_count: 1,
        },
        captured_at,
    }
}

fn tap_frame(
    transitions: Vec<CaptureTransition>,
    motion: MotionDelta,
    captured_at: u64,
) -> (result: CapturedDeviceFrame)
    ensures
        is_tap_frame(result, transitions@, motion, captured_at),
{
    CapturedDeviceFrame {
        device_path: "macos:event-tap".to_owned(),
        frame: CaptureFrame { transitions, motion, touch_snapshot: None, event_count: 1 },
        captured_at,
    }
}

/// The transitions that an event of a key or a button carries, if it is one
/// that can be sent.
pub open spec fn transition_of_event(event: NativeEvent) -> Option<CaptureTransition> {
    if event.kind == KEY_EVENT {
        match usage_of_mac_code(event.code) {
            Some(usage) => Some(
                CaptureTransition::Key {
                    usage: keyboard_usage(usage),
                    state: state_of_pressed(event.pressed),
                },
            ),
            None => None,
        }
    } else if event.kind == BUTTON_EVENT {
        Some(
            CaptureTransition::Button {
                button: PointerButton(event.button),
                state: state_of_pressed(event.pressed),
            },
        )
    } else {
        None
    }
}

/// The frame that an event becomes. Keys without a usage and unknown events
/// become none; an id that two contacts share is an error.
pub fn native_frame(event: &NativeEvent, captured_at: u64) -> (result: Result<
    Option<CapturedDeviceFrame>,
    ContactId,
>)
    ensures
        event.kind == MOTION_EVENT ==> {
            &&& result matches Ok(Some(captured))
            &&& is_tap_frame(result->Ok_0->0, Seq::empty(), event.motion(), captured_at)
        },
        event.kind == KEY_EVENT || event.kind == BUTTON_EVENT ==> match transition_of_event(
            *event,
        ) {
            Some(transition) => {
                &&& result matches Ok(Some(captured))
                &&& is_tap_frame(
                    result->Ok_0->0,
                    seq![transition],
                    MotionDelta::zero(),
                    captured_at,
                )
            },
            None => result matches Ok(None),
        },
        event.kind == TOUCH_EVENT ==> {
            let contacts = touch_contacts(event.reported_contacts());
            match result {
                Ok(Some(captured)) => {
                    &&& distinct_ids(contacts)
                    &&& captured.frame.touch_snapshot is Some
                    &&& is_touch_frame(captured, captured.frame.touch_snapshot->0, captured_at)
                    &&& captured.frame.touch_snapshot->0.wf()
                    &&& captured.frame.touch_snapshot->0@.to_multiset() == contacts.to_multiset()
                },
                Ok(None) => false,
                Err(id) => !distinct_ids(contacts) && first_repeated_id(contacts, id),
            }
        },
        !(MOTION_EVENT <= event.kind <= TOUCH_EVENT) ==> (result matches Ok(None)),
{
    let kind: u32 = event.kind;
    if kind == MOTION_EVENT {
        let motion = MotionDelta {
            dx: event.dx,
            dy: event.dy,
            scroll_x: event.scroll_x,
            scroll_y: event.scroll_y,
        };
        let frame = tap_frame(Vec::new(), motion, captured_at);
        assert(frame.frame.transitions@ =~= Seq::<CaptureTransition>::empty());
        return Ok(Some(frame));
    }
    if kind == KEY_EVENT {
        let usage = match mac_keycode_to_hid(event.code) {
            Some(usage) => usage,
            None => return Ok(None),
        };
        let transition = CaptureTransition::Key { usage, state: pressed_state(event.pressed) };
        let transitions = vec![transition];
        assert(transitions@ =~= seq![transition]);
        return Ok(Some(tap_frame(transitions, MotionDelta::default(), captured_at)));
    }
    if kind == BUTTON_EVENT {
        let transition = CaptureTransition::Button {
            button: PointerButton(event.button),
            state: pressed_state(event.pressed),
        };
        let transitions = vec![transition];
        assert(transitions@ =~= seq![transition]);
        return Ok(Some(tap_frame(transitions, MotionDelta::default(), captured_at)));
    }
    if kind != TOUCH_EVENT {
        return Ok(None);
    }
    let mut count: usize = event.contact_count as usize;
    if count > MAX_TOUCHPAD_CONTACTS {
        count = MAX_TOUCHPAD_CONTACTS;
    }
    let mut contacts: Vec<TouchContact> = Vec::new();
    let mut at: usize = 0;
    assert(event.contacts@.take(0) =~= Seq::empty());
    assert(contacts@ =~= Seq::empty());
    while at < count
        invariant
            at <= count <= MAX_TOUCHPAD_CONTACTS,
            event.contacts@.len() == MAX_TOUCHPAD_CONTACTS,
            contacts@ == touch_contacts(event.contacts@.take(at as int)),
        decreases count - at,
    {
        let contact = event.contacts[at];
        assert(event.contacts@.take(at + 1).drop_last() =~= event.contacts@.take(at as int));
        assert(event.contacts@.take(at + 1).last() == contact);
        if contact.id >= 0 {
            contacts.push(
                TouchContact {
                    id: ContactId(contact.id as u32),
                    x: contact.x,
                    y: contact.y,
                    pressure: None,
                    major: None,
                    minor: None,
                    orientation_millidegrees: None,
                    tool: TouchTool::Finger,
                    source_dimensions: Some(
                        SourceDimensions { width: u16::MAX as u32, height: u16::MAX as u32 },
                    ),
                },
            );
        }
        at = at + 1;
    }
    match TouchState::new(contacts) {
        Ok(state) => Ok(Some(touch_frame(state, captured_at))),
        Err(id) => Err(id),
    }
}

/// Motion keeps its four parts, and a key or a button that is down is pressed.
pub proof fn native_events_keep_their_parts(event: NativeEvent)
    ensures
        event.motion().dx == event.dx,
        event.motion().dy == event.dy,
        event.motion().scroll_x == event.scroll_x,
        event.motion().scroll_y == event.scroll_y,
        event.kind == 3 ==> transition_of_event(event) == Some(
            CaptureTransition::Button {
                button: PointerButton(event.button),
                state: if event.pressed != 0 {
                    KeyState::Pressed
                } else {
                    KeyState::Released
                },
            },
        ),
        event.kind == 2 && mac_key(event.code) is Some ==> transition_of_event(event) == Some(
            CaptureTransition::Key {
                usage: usage_of_key(mac_key(event.code)->0),
                state: if event.pressed != 0 {
                    KeyState::Pressed
                } else {
                    KeyState::Released
                },
            },
        ),
        event.kind == 2 && mac_key(event.code) is None ==> transition_of_event(event) is None,
{
    mac_codes_have_the_usage_of_their_key(event.code);
}

/// Every finger with an id is a contact with that id at its place on a pad of the
/// full range, in order, and nothing else is.
pub proof fn native_fingers_are_contacts(
    before: Seq<NativeContact>,
    after: Seq<NativeContact>,
    finger: NativeContact,
)
    ensures
        touch_contacts(before + after) == touch_contacts(before) + touch_contacts(after),
        finger.id < 0 ==> touch_contacts(seq![finger]).len() == 0,
        finger.id >= 0 ==> touch_contacts(seq![finger]).len() == 1 && ({
            let contact = touch_contacts(seq![finger])[0];
            &&& contact.id.0 == finger.id
            &&& contact.x == finger.x
            &&& contact.y == finger.y
            &&& contact.tool is Finger
            &&& contact.source_dimensions == Some(
                SourceDimensions { width: 65_535, height: 65_535 },
            )
        }),
    decreases after.len(),
{
    let one = seq![finger];
    assert(one.drop_last() =~= Seq::<NativeContact>::empty());
    assert(one.last() == finger);
    assert(touch_contacts(one.drop_last()) =~= Seq::empty());
    if after.len() == 0 {
        assert(before + after =~= before);
        assert(touch_contacts(before) + touch_contacts(after) =~= touch_contacts(before));
    } else {
        native_fingers_are_contacts(before, after.drop_last(), finger);
        assert((before + after).drop_last() =~= before + after.drop_last());
        assert((before + after).last() == after.last());
        assert(touch_contacts(before + after) =~= touch_contacts(before) + touch_contacts(after));
    }
}

/// An event carries the fingers that it counts, up to five.
pub proof fn events_carry_the_fingers_they_count(event: NativeEvent, at: int)
    ensures
        event.reported_contacts().len() == if event.contact_count <= 5 {
            event.contact_count as int
        } else {
            5
        },
        0 <= at < event.reported_contacts().len() ==> event.reported_contacts()[at]
            == event.contacts@[at],
{
}

} // verus!
