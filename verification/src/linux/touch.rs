//! Linux multitouch decoding.
use vstd::prelude::*;

use super::evdev::{
    InputEvent, ABS_MT_POSITION_X, ABS_MT_POSITION_Y, ABS_MT_SLOT, ABS_MT_TRACKING_ID, EV_ABS,
    EV_SYN, SYN_DROPPED, SYN_REPORT,
};
use super::mapping::is_report;
use crate::capture::MAX_TOUCHPAD_CONTACTS;
use crate::codes::CodeSet;
use crate::input::{
    distinct_ids, first_repeated_id, ContactId, SourceDimensions, TouchContact, TouchState,
    TouchTool,
};

verus! {

/// Inclusive range of raw positions along one touchpad axis.
#[derive(Clone, Copy, Debug, PartialEq, Eq, Structural)]
pub struct TouchAxisRange {
    minimum: i32,
    maximum: i32,
}

impl TouchAxisRange {
    pub closed spec fn lowest(self) -> int {
        self.minimum as int
    }

    pub closed spec fn highest(self) -> int {
        self.maximum as int
    }

    /// Offsets within the range fit a contact coordinate.
    pub open spec fn measurable(self) -> bool {
        0 < self.highest() - self.lowest() <= i32::MAX
    }

    /// Offset of the nearest in-range position from the start of the range.
    pub open spec fn offset_of(self, value: i32) -> int {
        if value < self.lowest() {
            0
        } else if value > self.highest() {
            self.highest() - self.lowest()
        } else {
            value - self.lowest()
        }
    }

    pub fn new(minimum: i32, maximum: i32) -> (result: Option<Self>)
        ensures
            result == range_between(minimum, maximum),
            result is Some <==> maximum > minimum,
            result matches Some(range) ==> range.lowest() == minimum && range.highest()
                == maximum,
    {
        if maximum > minimum {
            Some(TouchAxisRange { minimum, maximum })
        } else {
            None
        }
    }

    /// Whether the whole range can be expressed as contact coordinates.
    pub fn is_measurable(self) -> (result: bool)
        ensures
            result == self.measurable(),
    {
        self.minimum < self.maximum && (self.maximum as i64) - (self.minimum as i64)
            <= i32::MAX as i64
    }

    fn normalize(self, value: i32) -> (result: i32)
        requires
            self.measurable(),
        ensures
            result == self.offset_of(value),
    {
        let clamped: i32 = if value < self.minimum {
            self.minimum
        } else if value > self.maximum {
            self.maximum
        } else {
            value
        };
        clamped - self.minimum
    }

    fn extent(self) -> (result: u32)
        requires
            self.measurable(),
        ensures
            result == self.highest() - self.lowest(),
    {
        (self.maximum - self.minimum) as u32
    }
}

/// The range of one absolute axis, as the device reports it.
#[derive(Clone, Copy, Debug, PartialEq, Eq, Structural)]
pub struct AxisInfo {
    pub code: u16,
    pub minimum: i32,
    pub maximum: i32,
}

/// A device with these absolute axes reports positions in slots.
pub open spec fn has_touch_axes(axes: Set<u32>) -> bool {
    &&& axes.contains(ABS_MT_SLOT as u32)
    &&& axes.contains(ABS_MT_TRACKING_ID as u32)
    &&& axes.contains(ABS_MT_POSITION_X as u32)
    &&& axes.contains(ABS_MT_POSITION_Y as u32)
}

/// The range that was last reported for an axis, if it has an extent.
pub open spec fn range_of(ranges: Seq<AxisInfo>, code: u16) -> Option<TouchAxisRange>
    decreases ranges.len(),
{
    if ranges.len() == 0 {
        None
    } else if ranges.last().code == code {
        range_between(ranges.last().minimum, ranges.last().maximum)
    } else {
        range_of(ranges.drop_last(), code)
    }
}

pub closed spec fn range_between(minimum: i32, maximum: i32) -> Option<TouchAxisRange> {
    if maximum > minimum {
        Some(TouchAxisRange { minimum, maximum })
    } else {
        None
    }
}

fn read_range(ranges: &Vec<AxisInfo>, code: u16) -> (result: Option<TouchAxisRange>)
    ensures
        result == range_of(ranges@, code),
{
    let mut found: Option<TouchAxisRange> = None;
    let mut at: usize = 0;
    while at < ranges.len()
        invariant
            at <= ranges@.len(),
            found == range_of(ranges@.take(at as int), code),
        decreases ranges@.len() - at,
    {
        assert(ranges@.take(at + 1).drop_last() =~= ranges@.take(at as int));
        if ranges[at].code == code {
            found = TouchAxisRange::new(ranges[at].minimum, ranges[at].maximum);
        }
        at = at + 1;
    }
    assert(ranges@.take(at as int) =~= ranges@);
    found
}

/// What the kernel last reported for one multitouch slot.
#[derive(Clone, Copy, Debug, PartialEq, Eq, Structural)]
pub struct SlotState {
    pub tracking_id: Option<ContactId>,
    pub x: i32,
    pub y: i32,
}

#[derive(Clone, Copy, Debug, PartialEq, Eq, Structural)]
pub enum TouchError {
    /// The kernel dropped multitouch events.
    SynchronizationLost,
    /// Two active slots carry the same tracking id.
    DuplicateTrackingId(ContactId),
}

/// Mathematical state of a [`TouchAccumulator`].
pub struct TouchModel {
    pub x: TouchAxisRange,
    pub y: TouchAxisRange,
    pub slots: Seq<SlotState>,
    pub current_slot: Option<int>,
    pub dirty: bool,
    pub event_count: u64,
}

impl TouchModel {
    pub open spec fn wf(self) -> bool {
        &&& self.slots.len() == MAX_TOUCHPAD_CONTACTS
        &&& self.current_slot matches Some(slot) ==> 0 <= slot < MAX_TOUCHPAD_CONTACTS
    }

    /// Nothing touches, and no event was seen.
    pub open spec fn is_fresh(self) -> bool {
        &&& self.wf()
        &&& forall|i: int|
            0 <= i < MAX_TOUCHPAD_CONTACTS ==> (#[trigger] self.slots[i]) == (SlotState {
                tracking_id: None,
                x: 0,
                y: 0,
            })
        &&& self.current_slot == Some(0int)
        &&& !self.dirty
        &&& self.event_count == 0
    }

    /// One more mapped event was seen.
    pub open spec fn touched(self) -> TouchModel {
        TouchModel {
            dirty: true,
            event_count: if self.event_count < u64::MAX {
                (self.event_count + 1) as u64
            } else {
                u64::MAX
            },
            ..self
        }
    }

    /// The slot that updates apply to is replaced; updates of slots beyond the
    /// supported ones change nothing.
    pub open spec fn with_slot(self, update: spec_fn(SlotState) -> SlotState) -> TouchModel {
        match self.current_slot {
            Some(slot) => TouchModel {
                slots: self.slots.update(slot, update(self.slots[slot])),
                ..self
            },
            None => self,
        }
    }

    /// Effect of one absolute-axis event.
    pub open spec fn moved(self, event: InputEvent) -> TouchModel {
        if event.code == ABS_MT_SLOT {
            TouchModel {
                current_slot: if 0 <= event.value < MAX_TOUCHPAD_CONTACTS {
                    Some(event.value as int)
                } else {
                    None
                },
                ..self
            }.touched()
        } else if event.code == ABS_MT_TRACKING_ID {
            self.with_slot(
                |slot: SlotState|
                    SlotState {
                        tracking_id: if event.value < 0 {
                            None
                        } else {
                            Some(ContactId(event.value as u32))
                        },
                        ..slot
                    },
            ).touched()
        } else if event.code == ABS_MT_POSITION_X {
            self.with_slot(
                |slot: SlotState| SlotState { x: self.x.offset_of(event.value) as i32, ..slot },
            ).touched()
        } else if event.code == ABS_MT_POSITION_Y {
            self.with_slot(
                |slot: SlotState| SlotState { y: self.y.offset_of(event.value) as i32, ..slot },
            ).touched()
        } else {
            self
        }
    }

    pub open spec fn dimensions(self) -> SourceDimensions {
        SourceDimensions {
            width: (self.x.highest() - self.x.lowest()) as u32,
            height: (self.y.highest() - self.y.lowest()) as u32,
        }
    }
}

pub open spec fn contact_of_slot(
    slot: SlotState,
    id: ContactId,
    dimensions: SourceDimensions,
) -> TouchContact {
    TouchContact {
        id,
        x: slot.x,
        y: slot.y,
        pressure: None,
        major: None,
        minor: None,
        orientation_millidegrees: None,
        tool: TouchTool::Finger,
        source_dimensions: Some(dimensions),
    }
}

/// The contacts of all occupied slots, in slot order.
pub open spec fn active_contacts(
    slots: Seq<SlotState>,
    dimensions: SourceDimensions,
) -> Seq<TouchContact>
    decreases slots.len(),
{
    if slots.len() == 0 {
        Seq::empty()
    } else {
        let before = active_contacts(slots.drop_last(), dimensions);
        match slots.last().tracking_id {
            Some(id) => before.push(contact_of_slot(slots.last(), id, dimensions)),
            None => before,
        }
    }
}

/// Converts Linux type-B multitouch slot updates into complete contact states.
/// A snapshot is emitted only at SYN_REPORT, preserving kernel frame semantics.
#[derive(Debug)]
pub struct TouchAccumulator {
    x: TouchAxisRange,
    y: TouchAxisRange,
    slots: Vec<SlotState>,
    current_slot: Option<usize>,
    dirty: bool,
    event_count: u64,
}

impl View for TouchAccumulator {
    type V = TouchModel;

    closed spec fn view(&self) -> TouchModel {
        TouchModel {
            x: self.x,
            y: self.y,
            slots: self.slots@,
            current_slot: match self.current_slot {
                Some(slot) => Some(slot as int),
                None => None,
            },
            dirty: self.dirty,
            event_count: self.event_count,
        }
    }
}

impl TouchAccumulator {
    /// The accumulator for a device that reports multitouch positions in slots,
    /// given the absolute axes that it has and their ranges. Another device, or
    /// one whose positions have no extent, gets none.
    pub fn from_device(axes: &Option<CodeSet>, ranges: &Vec<AxisInfo>) -> (result: Option<Self>)
        ensures
            match result {
                Some(touch) => {
                    &&& axes matches Some(axes) && has_touch_axes(axes@)
                    &&& range_of(ranges@, ABS_MT_POSITION_X) == Some(touch@.x)
                    &&& range_of(ranges@, ABS_MT_POSITION_Y) == Some(touch@.y)
                    &&& touch@.is_fresh()
                },
                None => {
                    ||| axes is None
                    ||| !has_touch_axes(axes->0@)
                    ||| range_of(ranges@, ABS_MT_POSITION_X) is None
                    ||| range_of(ranges@, ABS_MT_POSITION_Y) is None
                },
            },
    {
        let axes = match axes {
            Some(axes) => axes,
            None => return None,
        };
        if !axes.contains(ABS_MT_SLOT as u32) || !axes.contains(ABS_MT_TRACKING_ID as u32)
            || !axes.contains(ABS_MT_POSITION_X as u32) || !axes.contains(
            ABS_MT_POSITION_Y as u32,
        ) {
            return None;
        }
        let x = read_range(ranges, ABS_MT_POSITION_X);
        let y = read_range(ranges, ABS_MT_POSITION_Y);
        match (x, y) {
            (Some(x), Some(y)) => Some(TouchAccumulator::new(x, y)),
            _ => None,
        }
    }

    /// Whether every position can be expressed as contact coordinates.
    pub fn is_measurable(&self) -> (result: bool)
        ensures
            result == (self@.x.measurable() && self@.y.measurable()),
    {
        self.x.is_measurable() && self.y.is_measurable()
    }

    pub fn new(x: TouchAxisRange, y: TouchAxisRange) -> (result: Self)
        ensures
            result@.is_fresh(),
            result@.x == x,
            result@.y == y,
    {
        let mut slots: Vec<SlotState> = Vec::new();
        while slots.len() < MAX_TOUCHPAD_CONTACTS
            invariant
                slots@.len() <= MAX_TOUCHPAD_CONTACTS,
                forall|i: int|
                    0 <= i < slots@.len() ==> (#[trigger] slots@[i]) == (SlotState {
                        tracking_id: None,
                        x: 0,
                        y: 0,
                    }),
            decreases MAX_TOUCHPAD_CONTACTS - slots@.len(),
        {
            slots.push(SlotState { tracking_id: None, x: 0, y: 0 });
        }
        TouchAccumulator { x, y, slots, current_slot: Some(0), dirty: false, event_count: 0 }
    }

    /// Returns a complete state and the number of mapped events at SYN_REPORT.
    pub fn push(&mut self, event: InputEvent) -> (result: Result<
        Option<(TouchState, u64)>,
        TouchError,
    >)
        requires
            old(self)@.wf(),
            old(self)@.x.measurable(),
            old(self)@.y.measurable(),
        ensures
            final(self)@.wf(),
            final(self)@.x == old(self)@.x && final(self)@.y == old(self)@.y,
            if is_report(event) && old(self)@.dirty {
                let active = active_contacts(old(self)@.slots, old(self)@.dimensions());
                if distinct_ids(active) {
                    &&& result matches Ok(Some((state, count))) && state.wf()
                        && state@.to_multiset() == active.to_multiset() && count
                        == old(self)@.event_count
                    &&& final(self)@ == (TouchModel { dirty: false, event_count: 0, ..old(self)@ })
                } else {
                    &&& result matches Err(TouchError::DuplicateTrackingId(id))
                        && first_repeated_id(active, id)
                    &&& final(self)@ == old(self)@
                }
            } else if event.kind == EV_SYN && event.code == SYN_DROPPED {
                &&& result == Err::<Option<(TouchState, u64)>, TouchError>(
                    TouchError::SynchronizationLost,
                )
                &&& final(self)@ == old(self)@
            } else {
                &&& result == Ok::<Option<(TouchState, u64)>, TouchError>(None)
                &&& final(self)@ == if event.kind == EV_ABS {
                    old(self)@.moved(event)
                } else {
                    old(self)@
                }
            },
    {
        if event.kind == EV_SYN {
            if event.code == SYN_REPORT && self.dirty {
                let state = match self.snapshot() {
                    Ok(state) => state,
                    Err(error) => return Err(error),
                };
                let count: u64 = self.event_count;
                self.event_count = 0;
                self.dirty = false;
                return Ok(Some((state, count)));
            }
            if event.code == SYN_DROPPED {
                return Err(TouchError::SynchronizationLost);
            }
            return Ok(None);
        }
        if event.kind != EV_ABS {
            return Ok(None);
        }
        if event.code == ABS_MT_SLOT {
            self.current_slot = if event.value >= 0 && (event.value as usize)
                < MAX_TOUCHPAD_CONTACTS {
                Some(event.value as usize)
            } else {
                None
            };
            self.mapped();
        } else if event.code == ABS_MT_TRACKING_ID {
            if let Some(slot) = self.current_slot {
                let tracking_id = if event.value < 0 {
                    None
                } else {
                    Some(ContactId(event.value as u32))
                };
                self.slots[slot].tracking_id = tracking_id;
            }
            self.mapped();
        } else if event.code == ABS_MT_POSITION_X {
            if let Some(slot) = self.current_slot {
                let x: i32 = self.x.normalize(event.value);
                self.slots[slot].x = x;
            }
            self.mapped();
        } else if event.code == ABS_MT_POSITION_Y {
            if let Some(slot) = self.current_slot {
                let y: i32 = self.y.normalize(event.value);
                self.slots[slot].y = y;
            }
            self.mapped();
        }
        assert(self@.slots =~= old(self)@.moved(event).slots);
        Ok(None)
    }

    fn mapped(&mut self)
        ensures
            final(self)@ == old(self)@.touched(),
    {
        self.dirty = true;
        self.event_count = self.event_count.saturating_add(1);
    }

    fn snapshot(&self) -> (result: Result<TouchState, TouchError>)
        requires
            self@.x.measurable(),
            self@.y.measurable(),
        ensures
            ({
                let active = active_contacts(self@.slots, self@.dimensions());
                if distinct_ids(active) {
                    result matches Ok(state) && state.wf() && state@.to_multiset()
                        == active.to_multiset()
                } else {
                    result matches Err(TouchError::DuplicateTrackingId(id))
                        && first_repeated_id(active, id)
                }
            }),
    {
        let dimensions = SourceDimensions { width: self.x.extent(), height: self.y.extent() };
        let mut contacts: Vec<TouchContact> = Vec::new();
        let mut next: usize = 0;
        while next < self.slots.len()
            invariant
                next <= self.slots@.len(),
                contacts@ == active_contacts(self.slots@.take(next as int), dimensions),
            decreases self.slots@.len() - next,
        {
            assert(self.slots@.take(next + 1).drop_last() =~= self.slots@.take(next as int));
            let slot = self.slots[next];
            if let Some(id) = slot.tracking_id {
                contacts.push(
                    TouchContact {
                        id,
                        x: slot.x,
                        y: slot.y,
                        pressure: None,
                        major: None,
                        minor: None,
                        orientation_millidegrees: None,
                        tool: TouchTool::Finger,
                        source_dimensions: Some(dimensions),
                    },
                );
            }
            next = next + 1;
        }
        assert(self.slots@.take(next as int) =~= self.slots@);
        match TouchState::new(contacts) {
            Ok(state) => Ok(state),
            Err(id) => Err(TouchError::DuplicateTrackingId(id)),
        }
    }
}

/// Updates of slots beyond the supported ones leave every slot as it was.
pub proof fn high_slots_never_corrupt_low_slots(model: TouchModel, event: InputEvent)
    requires
        model.current_slot is None,
    ensures
        model.moved(event).slots == model.slots,
{
}

/// What the kernel reports for one slot: which it is, whose contact it has, and
/// where that is.
pub open spec fn slot_report(slot: i32, id: i32, x: i32, y: i32) -> Seq<InputEvent> {
    seq![
        InputEvent { kind: 3, code: 0x2f, value: slot },
        InputEvent { kind: 3, code: 0x39, value: id },
        InputEvent { kind: 3, code: 0x35, value: x },
        InputEvent { kind: 3, code: 0x36, value: y },
    ]
}

pub open spec fn moved_by_all(model: TouchModel, events: Seq<InputEvent>) -> TouchModel
    decreases events.len(),
{
    if events.len() == 0 {
        model
    } else {
        moved_by_all(model, events.drop_last()).moved(events.last())
    }
}

/// A reported contact stands in its slot, at its distance from the edges of the
/// pad, and all other slots stay as they were. A negative id lifts the contact.
pub proof fn reported_contacts_stand_in_their_slot(
    model: TouchModel,
    slot: i32,
    id: i32,
    x: i32,
    y: i32,
    other: int,
)
    requires
        model.wf(),
        model.x.measurable(),
        model.y.measurable(),
        0 <= slot < 5,
        0 <= other < 5,
    ensures
        ({
            let after = moved_by_all(model, slot_report(slot, id, x, y));
            let shown = after.slots[slot as int];
            &&& after.wf() && after.dirty
            &&& after.x == model.x && after.y == model.y
            &&& after.event_count == model.event_count + 4 || after.event_count == u64::MAX
            &&& id >= 0 ==> shown.tracking_id == Some(ContactId(id as u32))
            &&& id < 0 ==> shown.tracking_id is None
            &&& model.x.lowest() <= x <= model.x.highest() ==> shown.x == x - model.x.lowest()
            &&& x < model.x.lowest() ==> shown.x == 0
            &&& x > model.x.highest() ==> shown.x == model.x.highest() - model.x.lowest()
            &&& model.y.lowest() <= y <= model.y.highest() ==> shown.y == y - model.y.lowest()
            &&& y < model.y.lowest() ==> shown.y == 0
            &&& y > model.y.highest() ==> shown.y == model.y.highest() - model.y.lowest()
            &&& other != slot ==> after.slots[other] == model.slots[other]
        }),
{
    let report = slot_report(slot, id, x, y);
    let t0 = report.take(0);
    let t1 = report.take(1);
    let t2 = report.take(2);
    let t3 = report.take(3);
    assert(t1.drop_last() =~= t0 && t1.last() == report[0]);
    assert(t2.drop_last() =~= t1 && t2.last() == report[1]);
    assert(t3.drop_last() =~= t2 && t3.last() == report[2]);
    assert(report.drop_last() =~= t3 && report.last() == report[3]);
    assert(moved_by_all(model, t0) == model);
    let one = moved_by_all(model, t1);
    assert(one == model.moved(report[0]));
    let two = moved_by_all(model, t2);
    assert(two == one.moved(report[1]));
    let three = moved_by_all(model, t3);
    assert(three == two.moved(report[2]));
    assert(moved_by_all(model, report) == three.moved(report[3]));
}

/// The contacts of a pad are those of its occupied slots: each with the slot's id
/// and place, as a finger on a surface of the pad's size.
pub proof fn occupied_slots_are_contacts(
    slots: Seq<SlotState>,
    size: SourceDimensions,
    slot: int,
    contact: TouchContact,
)
    ensures
        0 <= slot < slots.len() && slots[slot].tracking_id is Some ==> exists|i: int|
            {
                &&& 0 <= i < active_contacts(slots, size).len()
                &&& (#[trigger] active_contacts(slots, size)[i]).id == slots[slot].tracking_id->0
                &&& active_contacts(slots, size)[i].x == slots[slot].x
                &&& active_contacts(slots, size)[i].y == slots[slot].y
                &&& active_contacts(slots, size)[i].source_dimensions == Some(size)
                &&& active_contacts(slots, size)[i].tool is Finger
            },
        active_contacts(slots, size).contains(contact) ==> exists|k: int|
            0 <= k < slots.len() && (#[trigger] slots[k]).tracking_id == Some(contact.id)
                && slots[k].x == contact.x && slots[k].y == contact.y,
    decreases slots.len(),
{
    if slots.len() > 0 {
        let before = slots.drop_last();
        let earlier = active_contacts(before, size);
        let now = active_contacts(slots, size);
        occupied_slots_are_contacts(before, size, slot, contact);
        assert(forall|i: int| 0 <= i < earlier.len() ==> #[trigger] now[i] == earlier[i]);
        if 0 <= slot < slots.len() && slots[slot].tracking_id is Some {
            if slot < before.len() {
                assert(before[slot] == slots[slot]);
                let i = choose|i: int|
                    {
                        &&& 0 <= i < earlier.len()
                        &&& (#[trigger] earlier[i]).id == slots[slot].tracking_id->0
                        &&& earlier[i].x == slots[slot].x
                        &&& earlier[i].y == slots[slot].y
                        &&& earlier[i].source_dimensions == Some(size)
                        &&& earlier[i].tool is Finger
                    };
                assert(now[i] == earlier[i]);
            } else {
                assert(now[earlier.len() as int].id == slots[slot].tracking_id->0);
            }
        }
        if now.contains(contact) {
            let i = choose|i: int| 0 <= i < now.len() && now[i] == contact;
            if i < earlier.len() {
                assert(earlier[i] == contact);
                let k = choose|k: int|
                    0 <= k < before.len() && (#[trigger] before[k]).tracking_id == Some(contact.id)
                        && before[k].x == contact.x && before[k].y == contact.y;
                assert(slots[k] == before[k]);
            } else {
                assert(slots[slots.len() - 1].tracking_id == Some(contact.id));
            }
        }
    }
}

/// A device is a touchpad of slots exactly if it reports slots, tracking ids and
/// both positions.
pub proof fn touchpads_have_four_axes(axes: Set<u32>)
    ensures
        has_touch_axes(axes) <==> axes.contains(0x2f) && axes.contains(0x39) && axes.contains(0x35)
            && axes.contains(0x36),
{
}

/// An axis has a range exactly if it is not empty, and a touchpad is as wide and as
/// high as its axes are long.
pub proof fn axes_have_their_length(minimum: i32, maximum: i32, touch: TouchModel)
    ensures
        range_between(minimum, maximum) is Some <==> minimum < maximum,
        range_between(minimum, maximum) matches Some(range) ==> range.lowest() == minimum
            && range.highest() == maximum,
        touch.x.measurable() ==> touch.x.lowest() + touch.dimensions().width == touch.x.highest(),
        touch.y.measurable() ==> touch.y.lowest() + touch.dimensions().height == touch.y.highest(),
{
}

} // verus!
