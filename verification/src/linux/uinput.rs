//! Planning of virtual keyboard, pointer and touchpad input.
//!
//! Each device plans the events of a request without changing what it records
//! as held. The caller emits the events and confirms them afterwards, so a
//! failed emission leaves the record as it was.
use vstd::prelude::*;

use super::devices::VirtualDeviceRole;
use super::evdev::{
    InputEvent, BTN_LEFT, EV_KEY, EV_REL, REL_HWHEEL, REL_HWHEEL_HI_RES, REL_WHEEL,
    REL_WHEEL_HI_RES, REL_X, REL_Y,
};
use super::mapping::{
    axis_sum, fits_i64, frame_of, hid_of_code, hid_to_evdev_key, pointer_button_to_evdev, saw_axis,
    transition_of, transitions_of, MappingError, BUTTON_PAGE, WHEEL_CLICK_UNITS,
};
use super::touchpad::{are_reports_for, plan_touchpad_events, TouchpadState};
use crate::capture::{CaptureFrame, CaptureTransition, KeyState, MAX_TOUCHPAD_CONTACTS};
use crate::codes::{increasing, CodeSet};
use crate::input::{HidUsage, HidUsagePage, MotionDelta, PointerButton, TouchState};
use crate::key_names::linux_codes_have_the_usage_of_their_key;

verus! {

#[derive(Debug, PartialEq, Eq)]
pub enum InjectionError {
    /// The input has no Linux equivalent.
    Unsupported(MappingError),
    /// The value does not fit the kernel's 32-bit event field.
    ValueOutOfRange { axis: &'static str, value: i64 },
    /// Only a held key can repeat.
    RepeatOfReleasedKey { usage: HidUsage },
    /// The virtual device could not be created.
    Create { role: VirtualDeviceRole, source: String },
    /// Events could not be written to the virtual device.
    Emit { role: VirtualDeviceRole, source: String },
    /// More contacts than the virtual touchpad has slots.
    TooManyTouchContacts { actual: usize, maximum: usize },
    /// Touch input arrived while the virtual touchpad is disabled.
    TouchpadDisabled,
}

#[derive(Debug, PartialEq, Eq)]
pub struct ReleaseAllError {
    /// Number of devices that could not be released.
    pub count: usize,
    pub failures: Vec<InjectionError>,
}

impl ReleaseAllError {
    fn new(failures: Vec<InjectionError>) -> (result: Self)
        ensures
            result.failures == failures,
            result.count == failures@.len(),
    {
        let count: usize = failures.len();
        ReleaseAllError { count, failures }
    }
}

/// The failures among the release results of all devices, in device order.
pub open spec fn release_failures(
    keyboard: Result<(), InjectionError>,
    pointer: Result<(), InjectionError>,
    touchpad: Option<Result<(), InjectionError>>,
) -> Seq<InjectionError> {
    let first = match keyboard {
        Err(error) => seq![error],
        Ok(_) => Seq::empty(),
    };
    let second = match pointer {
        Err(error) => first.push(error),
        Ok(_) => first,
    };
    match touchpad {
        Some(Err(error)) => second.push(error),
        _ => second,
    }
}

/// Every device is released; what failed is reported together.
pub fn release_all(
    keyboard: Result<(), InjectionError>,
    pointer: Result<(), InjectionError>,
    touchpad: Option<Result<(), InjectionError>>,
) -> (result: Result<(), ReleaseAllError>)
    ensures
        ({
            let failed = release_failures(keyboard, pointer, touchpad);
            match result {
                Ok(_) => failed.len() == 0,
                Err(error) => failed.len() > 0 && error.failures@ == failed && error.count
                    == failed.len(),
            }
        }),
{
    let mut failures: Vec<InjectionError> = Vec::new();
    if let Err(error) = keyboard {
        failures.push(error);
    }
    if let Err(error) = pointer {
        failures.push(error);
    }
    if let Some(Err(error)) = touchpad {
        failures.push(error);
    }
    assert(failures@ =~= release_failures(keyboard, pointer, touchpad));
    if failures.len() == 0 {
        Ok(())
    } else {
        Err(ReleaseAllError::new(failures))
    }
}

// ---------------------------------------------------------------------------
// Keyboard
// ---------------------------------------------------------------------------

/// A usage as one number; usages order by page first.
pub open spec fn usage_code(usage: HidUsage) -> u32 {
    (usage.page.0 as u32 * 0x1_0000 + usage.usage) as u32
}

pub open spec fn usage_of_code(code: u32) -> HidUsage {
    HidUsage { page: HidUsagePage((code / 0x1_0000) as u16), usage: (code % 0x1_0000) as u16 }
}

fn encode_usage(usage: HidUsage) -> (result: u32)
    ensures
        result == usage_code(usage),
        usage_of_code(result) == usage,
{
    usage.page.0 as u32 * 0x1_0000 + usage.usage as u32
}

fn decode_usage(code: u32) -> (result: HidUsage)
    ensures
        result == usage_of_code(code),
        usage_code(result) == code,
{
    HidUsage { page: HidUsagePage((code / 0x1_0000) as u16), usage: (code % 0x1_0000) as u16 }
}

pub open spec fn is_mapped(usage: HidUsage) -> bool {
    exists|code: u16| #[trigger] hid_of_code(code) == Some(usage)
}

/// `event` reports `value` for the key of `usage`.
pub open spec fn is_key_event(event: InputEvent, usage: HidUsage, value: int) -> bool {
    event.kind == EV_KEY && hid_of_code(event.code) == Some(usage) && event.value == value
}

pub open spec fn unsupported_usage(usage: HidUsage) -> InjectionError {
    InjectionError::Unsupported(
        MappingError::UnsupportedHidUsage { page: usage.page.0, usage: usage.usage },
    )
}

/// Keys that the virtual keyboard holds down.
#[derive(Debug, PartialEq, Eq)]
pub struct VirtualKeyboard {
    held: CodeSet,
}

impl View for VirtualKeyboard {
    type V = Set<u32>;

    closed spec fn view(&self) -> Set<u32> {
        self.held@
    }
}

impl VirtualKeyboard {
    pub fn create() -> (result: Self)
        ensures
            result@ == Set::<u32>::empty(),
    {
        VirtualKeyboard { held: CodeSet::new() }
    }

    /// The event that presses or releases a key; none if it already is so.
    pub fn set_key(&self, usage: HidUsage, pressed: bool) -> (result: Result<
        Option<InputEvent>,
        InjectionError,
    >)
        ensures
            match result {
                Err(error) => !is_mapped(usage) && error == unsupported_usage(usage),
                Ok(None) => is_mapped(usage) && self@.contains(usage_code(usage)) == pressed,
                Ok(Some(event)) => self@.contains(usage_code(usage)) != pressed && is_key_event(
                    event,
                    usage,
                    if pressed {
                        1
                    } else {
                        0
                    },
                ),
            },
    {
        let key = match hid_to_evdev_key(usage) {
            Ok(key) => key,
            Err(error) => return Err(InjectionError::Unsupported(error)),
        };
        assert(hid_of_code(key.0) == Some(usage));
        if self.held.contains(encode_usage(usage)) == pressed {
            return Ok(None);
        }
        let value: i32 = if pressed {
            1
        } else {
            0
        };
        Ok(Some(InputEvent::new(EV_KEY, key.0, value)))
    }

    /// Records a key event that reached the device.
    pub fn key_emitted(&mut self, usage: HidUsage, pressed: bool)
        ensures
            final(self)@ == if pressed {
                old(self)@.insert(usage_code(usage))
            } else {
                old(self)@.remove(usage_code(usage))
            },
    {
        if pressed {
            self.held.insert(encode_usage(usage));
        } else {
            self.held.remove(encode_usage(usage));
        }
    }

    /// The event that repeats a held key.
    pub fn repeat_key(&self, usage: HidUsage) -> (result: Result<InputEvent, InjectionError>)
        ensures
            match result {
                Ok(event) => self@.contains(usage_code(usage)) && is_key_event(event, usage, 2),
                Err(error) => if self@.contains(usage_code(usage)) {
                    !is_mapped(usage) && error == unsupported_usage(usage)
                } else {
                    error == (InjectionError::RepeatOfReleasedKey { usage })
                },
            },
    {
        if !self.held.contains(encode_usage(usage)) {
            return Err(InjectionError::RepeatOfReleasedKey { usage });
        }
        match hid_to_evdev_key(usage) {
            Ok(key) => Ok(InputEvent::new(EV_KEY, key.0, 2)),
            Err(error) => Err(InjectionError::Unsupported(error)),
        }
    }

    pub fn held(&self) -> (result: &CodeSet)
        ensures
            result@ == self@,
    {
        &self.held
    }

    /// Events that release every held key, in usage order.
    pub fn release_all(&self) -> (result: Result<Vec<InputEvent>, InjectionError>)
        ensures
            match result {
                Ok(events) => exists|codes: Seq<u32>|
                    increasing(codes) && codes.to_set() == self@ && releases_usages(
                        events@,
                        codes,
                    ),
                Err(error) => exists|code: u32|
                    {
                        &&& first_unmapped_usage(self@, code)
                        &&& error == #[trigger] unsupported_usage(usage_of_code(code))
                    },
            },
    {
        let codes = self.held.items();
        let mut events: Vec<InputEvent> = Vec::new();
        let mut at: usize = 0;
        while at < codes.len()
            invariant
                at <= codes@.len(),
                increasing(codes@),
                codes@.to_set() == self@,
                events@.len() == at,
                forall|i: int|
                    0 <= i < at ==> is_key_event(
                        #[trigger] events@[i],
                        usage_of_code(codes@[i]),
                        0,
                    ),
            decreases codes@.len() - at,
        {
            let usage = decode_usage(codes[at]);
            match hid_to_evdev_key(usage) {
                Ok(key) => events.push(InputEvent::new(EV_KEY, key.0, 0)),
                Err(error) => {
                    let failed = InjectionError::Unsupported(error);
                    assert(codes@.contains(codes@[at as int]));
                    assert(self@.contains(codes@[at as int]));
                    assert(failed == unsupported_usage(usage_of_code(codes@[at as int])));
                    assert forall|other: u32| #[trigger]
                        self@.contains(other) && other < codes@[at as int] implies is_mapped(
                        usage_of_code(other),
                    ) by {
                        assert(codes@.to_set().contains(other));
                        let k = choose|k: int| 0 <= k < codes@.len() && codes@[k] == other;
                        if k > at {
                            assert(codes@[at as int] < codes@[k]);
                        }
                        assert(is_key_event(events@[k], usage_of_code(codes@[k]), 0));
                    }
                    return Err(failed);
                },
            }
            at = at + 1;
        }
        assert(releases_usages(events@, codes@));
        Ok(events)
    }

    /// Records that every held key was released.
    pub fn all_released(&mut self)
        ensures
            final(self)@ == Set::<u32>::empty(),
    {
        self.held.clear();
    }
}

/// The first held usage, in usage order, that no key stands for.
pub open spec fn first_unmapped_usage(held: Set<u32>, code: u32) -> bool {
    &&& held.contains(code)
    &&& !is_mapped(usage_of_code(code))
    &&& forall|other: u32| #[trigger]
        held.contains(other) && other < code ==> is_mapped(usage_of_code(other))
}

pub open spec fn releases_usages(events: Seq<InputEvent>, codes: Seq<u32>) -> bool {
    &&& events.len() == codes.len()
    &&& forall|i: int|
        0 <= i < codes.len() ==> is_key_event(#[trigger] events[i], usage_of_code(codes[i]), 0)
}

// ---------------------------------------------------------------------------
// Pointer
// ---------------------------------------------------------------------------

pub open spec fn fits_i32(value: int) -> bool {
    i32::MIN <= value <= i32::MAX
}

/// `events` with a movement along `axis` added; no movement adds nothing.
pub open spec fn with_relative(
    events: Seq<InputEvent>,
    axis: u16,
    value: int,
) -> Seq<InputEvent> {
    if value == 0 {
        events
    } else {
        events.push(InputEvent { kind: EV_REL, code: axis, value: value as i32 })
    }
}

pub fn push_relative(
    events: &mut Vec<InputEvent>,
    axis: u16,
    axis_name: &'static str,
    value: i64,
) -> (result: Result<(), InjectionError>)
    ensures
        fits_i32(value as int) ==> result is Ok && final(events)@ == with_relative(
            old(events)@,
            axis,
            value as int,
        ),
        !fits_i32(value as int) ==> result == Err::<(), InjectionError>(
            InjectionError::ValueOutOfRange { axis: axis_name, value },
        ) && final(events)@ == old(events)@,
{
    if value == 0 {
        return Ok(());
    }
    if value < i32::MIN as i64 || value > i32::MAX as i64 {
        return Err(InjectionError::ValueOutOfRange { axis: axis_name, value });
    }
    events.push(InputEvent::new(EV_REL, axis, value as i32));
    Ok(())
}

/// Whole detents in a number of high-resolution units, toward zero.
pub open spec fn wheel_clicks(total: int) -> int {
    if total >= 0 {
        total / (WHEEL_CLICK_UNITS as int)
    } else {
        -((-total) / (WHEEL_CLICK_UNITS as int))
    }
}

pub open spec fn wheel_rest(total: int) -> int {
    total - wheel_clicks(total) * WHEEL_CLICK_UNITS
}

/// Turns high-resolution scrolling into legacy detents and keeps the rest for
/// the next movement.
pub fn legacy_wheel_delta(remainder: &mut i64, high_resolution: i64) -> (clicks: i64)
    requires
        fits_i64(*old(remainder) + high_resolution),
    ensures
        clicks == wheel_clicks(*old(remainder) + high_resolution),
        *final(remainder) == wheel_rest(*old(remainder) + high_resolution),
        clicks * WHEEL_CLICK_UNITS + *final(remainder) == *old(remainder) + high_resolution,
        -WHEEL_CLICK_UNITS < *final(remainder) < WHEEL_CLICK_UNITS,
{
    let total: i64 = *remainder + high_resolution;
    let clicks: i64 = if total >= 0 {
        ((total as u64) / (WHEEL_CLICK_UNITS as u64)) as i64
    } else {
        let size: u64 = (-(total + 1)) as u64 + 1;
        let whole: u64 = size / (WHEEL_CLICK_UNITS as u64);
        assert(size == -total);
        assert(whole * 120 <= size);
        -(whole as i64)
    };
    assert(clicks == wheel_clicks(total as int));
    assert(i64::MIN <= clicks * 120 <= i64::MAX);
    *remainder = total - clicks * WHEEL_CLICK_UNITS;
    clicks
}

/// Total detents and the rest after a run of movements.
pub open spec fn wheel_run(remainder: int, deltas: Seq<int>) -> (int, int)
    decreases deltas.len(),
{
    if deltas.len() == 0 {
        (0, remainder)
    } else {
        let (clicks, rest) = wheel_run(remainder, deltas.drop_last());
        let total = rest + deltas.last();
        (clicks + wheel_clicks(total), wheel_rest(total))
    }
}

pub open spec fn total_of(deltas: Seq<int>) -> int
    decreases deltas.len(),
{
    if deltas.len() == 0 {
        0
    } else {
        total_of(deltas.drop_last()) + deltas.last()
    }
}

/// No scrolling is lost: over any run of movements the detents and the rest add
/// up to what was scrolled.
pub proof fn legacy_wheel_conserves_scrolling(remainder: int, deltas: Seq<int>)
    ensures
        ({
            let (clicks, rest) = wheel_run(remainder, deltas);
            clicks * WHEEL_CLICK_UNITS + rest == remainder + total_of(deltas)
        }),
    decreases deltas.len(),
{
    if deltas.len() > 0 {
        legacy_wheel_conserves_scrolling(remainder, deltas.drop_last());
        let (clicks, rest) = wheel_run(remainder, deltas.drop_last());
        let total = rest + deltas.last();
        assert((clicks + wheel_clicks(total)) * WHEEL_CLICK_UNITS == clicks * WHEEL_CLICK_UNITS
            + wheel_clicks(total) * WHEEL_CLICK_UNITS) by (nonlinear_arith);
    }
}

/// The first part of a movement that does not fit a kernel event.
pub open spec fn first_misfit(motion: MotionDelta) -> Option<InjectionError> {
    if !fits_i32(motion.dx as int) {
        Some(InjectionError::ValueOutOfRange { axis: "pointer x", value: motion.dx })
    } else if !fits_i32(motion.dy as int) {
        Some(InjectionError::ValueOutOfRange { axis: "pointer y", value: motion.dy })
    } else if !fits_i32(motion.scroll_x as int) {
        Some(
            InjectionError::ValueOutOfRange {
                axis: "horizontal high-resolution wheel",
                value: motion.scroll_x,
            },
        )
    } else if !fits_i32(motion.scroll_y as int) {
        Some(
            InjectionError::ValueOutOfRange {
                axis: "vertical high-resolution wheel",
                value: motion.scroll_y,
            },
        )
    } else {
        None
    }
}

/// One complete pointer report. High-resolution wheel events are always paired
/// with the accumulated legacy detents that Linux requires.
pub open spec fn motion_events(
    motion: MotionDelta,
    hwheel_rest: int,
    wheel_rest: int,
) -> Seq<InputEvent> {
    let pointer = with_relative(
        with_relative(Seq::empty(), REL_X, motion.dx as int),
        REL_Y,
        motion.dy as int,
    );
    let smooth = with_relative(
        with_relative(pointer, REL_HWHEEL_HI_RES, motion.scroll_x as int),
        REL_WHEEL_HI_RES,
        motion.scroll_y as int,
    );
    with_relative(
        with_relative(smooth, REL_HWHEEL, wheel_clicks(hwheel_rest + motion.scroll_x)),
        REL_WHEEL,
        wheel_clicks(wheel_rest + motion.scroll_y),
    )
}

/// Distance that events report for one axis of relative movement, by the
/// kernel's numbers.
pub open spec fn reported_on(events: Seq<InputEvent>, axis: u16) -> int
    decreases events.len(),
{
    if events.len() == 0 {
        0
    } else {
        let last = events.last();
        reported_on(events.drop_last(), axis) + if last.kind == 2 && last.code == axis {
            last.value as int
        } else {
            0
        }
    }
}

proof fn with_relative_reports(events: Seq<InputEvent>, axis: u16, value: int, other: u16)
    requires
        fits_i32(value),
    ensures
        reported_on(with_relative(events, axis, value), other) == reported_on(events, other)
            + if other == axis {
            value
        } else {
            0
        },
        axis_sum(with_relative(events, axis, value), other) == axis_sum(events, other)
            + if other == axis {
            value
        } else {
            0
        },
        saw_axis(with_relative(events, axis, value), other) == (saw_axis(events, other) || other
            == axis && value != 0),
        transitions_of(with_relative(events, axis, value)) == transitions_of(events),
{
    let event = InputEvent { kind: EV_REL, code: axis, value: value as i32 };
    assert(events.push(event).drop_last() =~= events);
}

proof fn motion_reports(motion: MotionDelta, hwheel_rest: int, wheel_rest: int, other: u16)
    requires
        first_misfit(motion) is None,
        -120 < hwheel_rest < 120,
        -120 < wheel_rest < 120,
    ensures
        ({
            let events = motion_events(motion, hwheel_rest, wheel_rest);
            let expected = if other == 0 {
                motion.dx as int
            } else if other == 1 {
                motion.dy as int
            } else if other == 12 {
                motion.scroll_x as int
            } else if other == 11 {
                motion.scroll_y as int
            } else if other == 6 {
                wheel_clicks(hwheel_rest + motion.scroll_x)
            } else if other == 8 {
                wheel_clicks(wheel_rest + motion.scroll_y)
            } else {
                0
            };
            &&& reported_on(events, other) == expected
            &&& axis_sum(events, other) == expected
            &&& saw_axis(events, other) == (expected != 0)
            &&& transitions_of(events) == Seq::<CaptureTransition>::empty()
        }),
{
    let none = Seq::<InputEvent>::empty();
    let x = with_relative(none, REL_X, motion.dx as int);
    let y = with_relative(x, REL_Y, motion.dy as int);
    let across = with_relative(y, REL_HWHEEL_HI_RES, motion.scroll_x as int);
    let down = with_relative(across, REL_WHEEL_HI_RES, motion.scroll_y as int);
    let h = wheel_clicks(hwheel_rest + motion.scroll_x);
    let w = wheel_clicks(wheel_rest + motion.scroll_y);
    with_relative_reports(none, REL_X, motion.dx as int, other);
    with_relative_reports(x, REL_Y, motion.dy as int, other);
    with_relative_reports(y, REL_HWHEEL_HI_RES, motion.scroll_x as int, other);
    with_relative_reports(across, REL_WHEEL_HI_RES, motion.scroll_y as int, other);
    with_relative_reports(down, REL_HWHEEL, h, other);
    with_relative_reports(with_relative(down, REL_HWHEEL, h), REL_WHEEL, w, other);
}

/// A report moves the pointer and turns the wheels by what was asked: along each
/// axis of the kernel the events add up to that part of the movement. The old
/// wheels turn by whole detents, and never by more than there is to turn.
pub proof fn reports_move_by_what_was_asked(
    motion: MotionDelta,
    hwheel_rest: int,
    wheel_rest: int,
)
    requires
        first_misfit(motion) is None,
        -120 < hwheel_rest < 120,
        -120 < wheel_rest < 120,
    ensures
        ({
            let events = motion_events(motion, hwheel_rest, wheel_rest);
            &&& reported_on(events, 0) == motion.dx
            &&& reported_on(events, 1) == motion.dy
            &&& reported_on(events, 12) == motion.scroll_x
            &&& reported_on(events, 11) == motion.scroll_y
            &&& -120 < hwheel_rest + motion.scroll_x - 120 * reported_on(events, 6) < 120
            &&& -120 < wheel_rest + motion.scroll_y - 120 * reported_on(events, 8) < 120
            &&& forall|i: int| 0 <= i < events.len() ==> (#[trigger] events[i]).kind == 2
        }),
{
    motion_reports(motion, hwheel_rest, wheel_rest, 0);
    motion_reports(motion, hwheel_rest, wheel_rest, 1);
    motion_reports(motion, hwheel_rest, wheel_rest, 12);
    motion_reports(motion, hwheel_rest, wheel_rest, 11);
    motion_reports(motion, hwheel_rest, wheel_rest, 6);
    motion_reports(motion, hwheel_rest, wheel_rest, 8);
}

/// Capturing an injected report gives the movement that was injected, and no key
/// or button.
pub proof fn injected_motion_reads_back(
    motion: MotionDelta,
    hwheel_rest: int,
    wheel_rest: int,
    frame: CaptureFrame,
)
    requires
        first_misfit(motion) is None,
        -120 < hwheel_rest < 120,
        -120 < wheel_rest < 120,
        frame_of(motion_events(motion, hwheel_rest, wheel_rest), frame),
    ensures
        frame.motion == motion,
        frame.transitions@.len() == 0,
{
    motion_reports(motion, hwheel_rest, wheel_rest, REL_X);
    motion_reports(motion, hwheel_rest, wheel_rest, REL_Y);
    motion_reports(motion, hwheel_rest, wheel_rest, REL_HWHEEL_HI_RES);
    motion_reports(motion, hwheel_rest, wheel_rest, REL_WHEEL_HI_RES);
    motion_reports(motion, hwheel_rest, wheel_rest, REL_HWHEEL);
    motion_reports(motion, hwheel_rest, wheel_rest, REL_WHEEL);
}

/// Capturing an injected key or button event gives that key or button, pressed,
/// released or repeated as the value says: one, zero or two.
pub proof fn injected_keys_read_back(
    event: InputEvent,
    usage: HidUsage,
    button: int,
    state: KeyState,
)
    requires
        event.value == match state {
            KeyState::Released => 0i32,
            KeyState::Pressed => 1i32,
            KeyState::Repeat => 2i32,
        },
        1 <= button <= 8,
    ensures
        is_key_event(event, usage, event.value as int) ==> event.kind == 1 && transition_of(event)
            == Some(CaptureTransition::Key { usage, state }),
        is_button_event(event, button, event.value as int) ==> event.kind == 1 && event.code
            == 0x10f + button && transition_of(event) == Some(
            CaptureTransition::Button { button: PointerButton(button as u16), state },
        ),
{
    linux_codes_have_the_usage_of_their_key(event.code);
}

/// Buttons that the virtual pointer holds down and unreported scrolling.
#[derive(Debug, PartialEq, Eq)]
pub struct VirtualPointer {
    held: CodeSet,
    legacy_wheel_remainder: i64,
    legacy_hwheel_remainder: i64,
}

/// Mathematical state of a [`VirtualPointer`].
pub struct PointerModel {
    pub held: Set<u32>,
    pub wheel_rest: int,
    pub hwheel_rest: int,
}

impl View for VirtualPointer {
    type V = PointerModel;

    closed spec fn view(&self) -> PointerModel {
        PointerModel {
            held: self.held@,
            wheel_rest: self.legacy_wheel_remainder as int,
            hwheel_rest: self.legacy_hwheel_remainder as int,
        }
    }
}

pub open spec fn is_button_event(event: InputEvent, button: int, value: int) -> bool {
    event.kind == EV_KEY && event.code == BTN_LEFT + button - 1 && event.value == value
}

pub open spec fn unsupported_button(button: u16) -> InjectionError {
    InjectionError::Unsupported(
        MappingError::UnsupportedHidUsage { page: BUTTON_PAGE, usage: button },
    )
}

impl VirtualPointer {
    pub open spec fn wf(&self) -> bool {
        &&& -WHEEL_CLICK_UNITS < self@.wheel_rest < WHEEL_CLICK_UNITS
        &&& -WHEEL_CLICK_UNITS < self@.hwheel_rest < WHEEL_CLICK_UNITS
        &&& forall|button: u32| #[trigger] self@.held.contains(button) ==> button <= u16::MAX
    }

    pub fn create() -> (result: Self)
        ensures
            result.wf(),
            result@ == (PointerModel { held: Set::empty(), wheel_rest: 0, hwheel_rest: 0 }),
    {
        VirtualPointer {
            held: CodeSet::new(),
            legacy_wheel_remainder: 0,
            legacy_hwheel_remainder: 0,
        }
    }

    /// The event that presses or releases a button; none if it already is so.
    pub fn set_button(&self, button: PointerButton, pressed: bool) -> (result: Result<
        Option<InputEvent>,
        InjectionError,
    >)
        ensures
            match result {
                Err(error) => !(1 <= button.0 <= 8) && error == unsupported_button(button.0),
                Ok(None) => 1 <= button.0 <= 8 && self@.held.contains(button.0 as u32) == pressed,
                Ok(Some(event)) => 1 <= button.0 <= 8 && self@.held.contains(button.0 as u32)
                    != pressed && is_button_event(
                    event,
                    button.0 as int,
                    if pressed {
                        1
                    } else {
                        0
                    },
                ),
            },
    {
        let key = match pointer_button_to_evdev(button) {
            Ok(key) => key,
            Err(error) => return Err(InjectionError::Unsupported(error)),
        };
        if self.held.contains(button.0 as u32) == pressed {
            return Ok(None);
        }
        let value: i32 = if pressed {
            1
        } else {
            0
        };
        Ok(Some(InputEvent::new(EV_KEY, key.0, value)))
    }

    /// Records a button event that reached the device.
    pub fn button_emitted(&mut self, button: PointerButton, pressed: bool)
        requires
            old(self).wf(),
        ensures
            final(self).wf(),
            final(self)@ == (PointerModel {
                held: if pressed {
                    old(self)@.held.insert(button.0 as u32)
                } else {
                    old(self)@.held.remove(button.0 as u32)
                },
                ..old(self)@
            }),
    {
        if pressed {
            self.held.insert(button.0 as u32);
        } else {
            self.held.remove(button.0 as u32);
        }
    }

    /// Plans one complete pointer report and takes its detents off the rest.
    pub fn motion(&mut self, motion: MotionDelta) -> (result: Result<
        Vec<InputEvent>,
        InjectionError,
    >)
        requires
            old(self).wf(),
        ensures
            final(self).wf(),
            match first_misfit(motion) {
                Some(error) => result == Err::<Vec<InputEvent>, InjectionError>(error)
                    && final(self)@ == old(self)@,
                None => {
                    &&& result matches Ok(events) && events@ == motion_events(
                        motion,
                        old(self)@.hwheel_rest,
                        old(self)@.wheel_rest,
                    ) && reported_on(events@, 0) == motion.dx && reported_on(events@, 1)
                        == motion.dy && reported_on(events@, 12) == motion.scroll_x
                        && reported_on(events@, 11) == motion.scroll_y
                    &&& final(self)@ == (PointerModel {
                        wheel_rest: wheel_rest(old(self)@.wheel_rest + motion.scroll_y),
                        hwheel_rest: wheel_rest(old(self)@.hwheel_rest + motion.scroll_x),
                        ..old(self)@
                    })
                },
            },
    {
        proof {
            if first_misfit(motion) is None {
                reports_move_by_what_was_asked(motion, self@.hwheel_rest, self@.wheel_rest);
            }
        }
        let mut events: Vec<InputEvent> = Vec::new();
        if let Err(error) = push_relative(&mut events, REL_X, "pointer x", motion.dx) {
            return Err(error);
        }
        if let Err(error) = push_relative(&mut events, REL_Y, "pointer y", motion.dy) {
            return Err(error);
        }
        if let Err(error) = push_relative(
            &mut events,
            REL_HWHEEL_HI_RES,
            "horizontal high-resolution wheel",
            motion.scroll_x,
        ) {
            return Err(error);
        }
        if let Err(error) = push_relative(
            &mut events,
            REL_WHEEL_HI_RES,
            "vertical high-resolution wheel",
            motion.scroll_y,
        ) {
            return Err(error);
        }
        let mut hwheel: i64 = self.legacy_hwheel_remainder;
        let mut wheel: i64 = self.legacy_wheel_remainder;
        let legacy_x: i64 = legacy_wheel_delta(&mut hwheel, motion.scroll_x);
        let legacy_y: i64 = legacy_wheel_delta(&mut wheel, motion.scroll_y);
        self.legacy_hwheel_remainder = hwheel;
        self.legacy_wheel_remainder = wheel;
        if let Err(error) = push_relative(
            &mut events,
            REL_HWHEEL,
            "horizontal legacy wheel",
            legacy_x,
        ) {
            return Err(error);
        }
        if let Err(error) = push_relative(
            &mut events,
            REL_WHEEL,
            "vertical legacy wheel",
            legacy_y,
        ) {
            return Err(error);
        }
        Ok(events)
    }

    pub fn held(&self) -> (result: &CodeSet)
        ensures
            result@ == self@.held,
    {
        &self.held
    }

    /// Events that release every held button, in button order.
    pub fn release_all(&self) -> (result: Result<Vec<InputEvent>, InjectionError>)
        requires
            self.wf(),
        ensures
            match result {
                Ok(events) => exists|buttons: Seq<u32>|
                    increasing(buttons) && buttons.to_set() == self@.held && releases_buttons(
                        events@,
                        buttons,
                    ),
                Err(error) => exists|button: u16|
                    {
                        &&& first_unmapped_button(self@.held, button)
                        &&& error == #[trigger] unsupported_button(button)
                    },
            },
    {
        let buttons = self.held.items();
        let mut events: Vec<InputEvent> = Vec::new();
        let mut at: usize = 0;
        while at < buttons.len()
            invariant
                self.wf(),
                at <= buttons@.len(),
                increasing(buttons@),
                buttons@.to_set() == self@.held,
                events@.len() == at,
                forall|i: int|
                    0 <= i < at ==> is_button_event(#[trigger] events@[i], buttons@[i] as int, 0),
                forall|i: int| 0 <= i < at ==> 1 <= #[trigger] buttons@[i] <= 8,
            decreases buttons@.len() - at,
        {
            assert(buttons@.contains(buttons@[at as int]));
            assert(self@.held.contains(buttons@[at as int]));
            let button: u16 = buttons[at] as u16;
            match pointer_button_to_evdev(PointerButton(button)) {
                Ok(key) => events.push(InputEvent::new(EV_KEY, key.0, 0)),
                Err(error) => {
                    let failed = InjectionError::Unsupported(error);
                    assert(failed == unsupported_button(button));
                    assert forall|other: u32| #[trigger]
                        self@.held.contains(other) && other < button implies 1 <= other <= 8 by {
                        assert(buttons@.to_set().contains(other));
                        let k = choose|k: int| 0 <= k < buttons@.len() && buttons@[k] == other;
                        if k > at {
                            assert(buttons@[at as int] < buttons@[k]);
                        }
                        assert(is_button_event(events@[k], buttons@[k] as int, 0));
                    }
                    return Err(failed);
                },
            }
            at = at + 1;
        }
        assert(releases_buttons(events@, buttons@));
        Ok(events)
    }

    /// Records that every held button was released.
    pub fn all_released(&mut self)
        requires
            old(self).wf(),
        ensures
            final(self).wf(),
            final(self)@ == (PointerModel { held: Set::empty(), ..old(self)@ }),
    {
        self.held.clear();
    }
}

/// The first held button, in button order, that no code stands for.
pub open spec fn first_unmapped_button(held: Set<u32>, button: u16) -> bool {
    &&& held.contains(button as u32)
    &&& !(1 <= button <= 8)
    &&& forall|other: u32| #[trigger] held.contains(other) && other < button ==> 1 <= other <= 8
}

pub open spec fn releases_buttons(events: Seq<InputEvent>, buttons: Seq<u32>) -> bool {
    &&& events.len() == buttons.len()
    &&& forall|i: int|
        0 <= i < buttons.len() ==> is_button_event(#[trigger] events[i], buttons[i] as int, 0)
    &&& forall|i: int| 0 <= i < buttons.len() ==> 1 <= #[trigger] buttons[i] <= 8
}

// ---------------------------------------------------------------------------
// Touchpad
// ---------------------------------------------------------------------------

/// Reports that show `touch`. Without a virtual touchpad only the absence of
/// contacts can be shown, which takes no report.
pub fn replace_touch(touchpad: Option<&TouchpadState>, touch: &TouchState) -> (result: Result<
    Vec<(Vec<InputEvent>, TouchpadState)>,
    InjectionError,
>)
    requires
        touch.wf(),
        touchpad matches Some(state) ==> state.wf(),
    ensures
        match touchpad {
            None => if touch@.len() == 0 {
                result matches Ok(reports) && reports@.len() == 0
            } else {
                result == Err::<Vec<(Vec<InputEvent>, TouchpadState)>, InjectionError>(
                    InjectionError::TouchpadDisabled,
                )
            },
            Some(state) => match result {
                Ok(reports) => touch@.len() <= MAX_TOUCHPAD_CONTACTS && are_reports_for(
                    *state,
                    touch@,
                    reports@,
                ) && forall|i: int| 0 <= i < reports@.len() ==> (#[trigger] reports@[i]).1.wf(),
                Err(error) => touch@.len() > MAX_TOUCHPAD_CONTACTS && error == (
                InjectionError::TooManyTouchContacts {
                    actual: touch@.len() as usize,
                    maximum: MAX_TOUCHPAD_CONTACTS,
                }),
            },
        },
{
    match touchpad {
        Some(state) => match plan_touchpad_events(state, touch) {
            Ok(reports) => Ok(reports),
            Err(error) => Err(
                InjectionError::TooManyTouchContacts {
                    actual: error.actual,
                    maximum: error.maximum,
                },
            ),
        },
        None => if touch.is_empty() {
            Ok(Vec::new())
        } else {
            Err(InjectionError::TouchpadDisabled)
        },
    }
}

/// A usage is found again by its code, and different usages have different codes.
pub proof fn codes_name_their_usage(usage: HidUsage, code: u32)
    ensures
        usage_of_code(usage_code(usage)) == usage,
        usage_code(usage_of_code(code)) == code,
{
}

/// Letting go is what it says: captured again, each event is the release of a key or
/// button that was held, in the same order.
pub proof fn releases_read_back(events: Seq<InputEvent>, codes: Seq<u32>, at: int)
    requires
        0 <= at < codes.len(),
    ensures
        releases_usages(events, codes) ==> events.len() == codes.len() && transition_of(events[at])
            == Some(
            CaptureTransition::Key { usage: usage_of_code(codes[at]), state: KeyState::Released },
        ),
        releases_buttons(events, codes) ==> events.len() == codes.len() && transition_of(
            events[at],
        ) == Some(
            CaptureTransition::Button {
                button: PointerButton(codes[at] as u16),
                state: KeyState::Released,
            },
        ),
{
    if releases_usages(events, codes) {
        assert(is_key_event(events[at], usage_of_code(codes[at]), 0));
        injected_keys_read_back(events[at], usage_of_code(codes[at]), 1, KeyState::Released);
    }
    if releases_buttons(events, codes) {
        assert(is_button_event(events[at], codes[at] as int, 0));
        assert(1 <= codes[at] <= 8);
        injected_keys_read_back(
            events[at],
            usage_of_code(codes[at]),
            codes[at] as int,
            KeyState::Released,
        );
    }
}

/// Every device that could not be released is told, each once.
pub proof fn failed_releases_are_told(
    keyboard: Result<(), InjectionError>,
    pointer: Result<(), InjectionError>,
    touchpad: Option<Result<(), InjectionError>>,
)
    ensures
        ({
            let told = release_failures(keyboard, pointer, touchpad);
            let failed = (if keyboard is Err {
                1int
            } else {
                0
            }) + (if pointer is Err {
                1int
            } else {
                0
            }) + (if touchpad matches Some(Err(_)) {
                1int
            } else {
                0
            });
            &&& told.len() == failed
            &&& keyboard matches Err(error) ==> told[0] == error
            &&& pointer matches Err(error) ==> told.contains(error)
            &&& touchpad matches Some(Err(error)) ==> told.last() == error
        }),
{
    let told = release_failures(keyboard, pointer, touchpad);
    if pointer is Err {
        assert(told[if keyboard is Err {
            1
        } else {
            0
        }] == pointer->Err_0);
    }
}

/// Clicks are whole and never overshoot: they go as far as the movement does, toward
/// zero, and as far in one direction as in the other.
pub proof fn clicks_never_overshoot(total: int)
    ensures
        total >= 0 ==> 0 <= 120 * wheel_clicks(total) <= total < 120 * wheel_clicks(total) + 120,
        total <= 0 ==> 120 * wheel_clicks(total) - 120 < total <= 120 * wheel_clicks(total) <= 0,
        wheel_clicks(-total) == -wheel_clicks(total),
        wheel_rest(total) == total - 120 * wheel_clicks(total),
{
}

/// Motion is injected exactly if every part of it fits the kernel's 32 bits.
pub proof fn motion_fits_exactly_so(motion: MotionDelta)
    ensures
        first_misfit(motion) is None <==> {
            &&& -0x8000_0000 <= motion.dx <= 0x7fff_ffff
            &&& -0x8000_0000 <= motion.dy <= 0x7fff_ffff
            &&& -0x8000_0000 <= motion.scroll_x <= 0x7fff_ffff
            &&& -0x8000_0000 <= motion.scroll_y <= 0x7fff_ffff
        },
{
}

} // verus!
