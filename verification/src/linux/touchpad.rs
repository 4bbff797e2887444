//! Planning of virtual touchpad reports.
//!
//! A touchpad report describes how the kernel's multitouch slots change. The
//! planner keeps every contact in its slot for as long as it is down, never
//! reuses a slot in the report that frees it, and splits a replacement over two
//! reports when no unused slot is left.
use vstd::prelude::*;

use super::evdev::{
    InputEvent, ABS_MT_POSITION_X, ABS_MT_POSITION_Y, ABS_MT_SLOT, ABS_MT_TRACKING_ID, ABS_X, ABS_Y,
    BTN_TOOL_DOUBLETAP, BTN_TOOL_FINGER, BTN_TOOL_QUADTAP, BTN_TOOL_TRIPLETAP, BTN_TOUCH, EV_ABS,
    EV_KEY,
};
use crate::capture::MAX_TOUCHPAD_CONTACTS;
use crate::input::{ordered_by_id, ContactId, TouchContact, TouchState};

verus! {

pub const TOUCHPAD_MAX_X: i32 = 2_999;

pub const TOUCHPAD_MAX_Y: i32 = 2_199;

pub const TOUCHPAD_RESOLUTION: i32 = 30;

pub const MAX_TRACKING_ID: i32 = 65_535;

/// Where a contact lives on the virtual touchpad.
#[derive(Clone, Copy, Debug, PartialEq, Eq, Structural)]
pub struct TargetContact {
    pub slot: usize,
    pub tracking_id: i32,
    pub x: i32,
    pub y: i32,
}

#[derive(Clone, Copy, Debug, PartialEq, Eq, Structural)]
pub struct TouchEntry {
    pub id: ContactId,
    pub target: TargetContact,
}

/// Contacts that the virtual touchpad currently shows, ordered by contact id.
#[derive(Debug, PartialEq, Eq)]
pub struct TouchpadState {
    pub contacts: Vec<TouchEntry>,
    pub next_tracking_id: i32,
}

/// A touch state with more contacts than the virtual touchpad has slots.
#[derive(Clone, Copy, Debug, PartialEq, Eq, Structural)]
pub struct TooManyContacts {
    pub actual: usize,
    pub maximum: usize,
}

pub open spec fn entries_ordered(contacts: Seq<TouchEntry>) -> bool {
    forall|i: int, j: int|
        0 <= i < j < contacts.len() ==> (#[trigger] contacts[i]).id.0 < (
        #[trigger] contacts[j]).id.0
}

pub open spec fn slots_distinct(contacts: Seq<TouchEntry>) -> bool {
    forall|i: int, j: int|
        0 <= i < j < contacts.len() ==> (#[trigger] contacts[i]).target.slot != (
        #[trigger] contacts[j]).target.slot
}

pub open spec fn targets_in_range(contacts: Seq<TouchEntry>) -> bool {
    forall|i: int|
        0 <= i < contacts.len() ==> (#[trigger] contacts[i]).target.slot < MAX_TOUCHPAD_CONTACTS
            && 1 <= contacts[i].target.tracking_id <= MAX_TRACKING_ID
}

pub open spec fn has_entry(contacts: Seq<TouchEntry>, id: ContactId) -> bool {
    exists|i: int| 0 <= i < contacts.len() && (#[trigger] contacts[i]).id == id
}

/// The target that `contacts` records for a contact.
pub open spec fn target_of(contacts: Seq<TouchEntry>, id: ContactId) -> Option<TargetContact> {
    if has_entry(contacts, id) {
        let i = choose|i: int| 0 <= i < contacts.len() && (#[trigger] contacts[i]).id == id;
        Some(contacts[i].target)
    } else {
        None
    }
}

pub open spec fn contacts_wf(contacts: Seq<TouchEntry>) -> bool {
    &&& contacts.len() <= MAX_TOUCHPAD_CONTACTS
    &&& entries_ordered(contacts)
    &&& slots_distinct(contacts)
    &&& targets_in_range(contacts)
}

impl TouchpadState {
    pub open spec fn wf(&self) -> bool {
        &&& contacts_wf(self.contacts@)
        &&& 1 <= self.next_tracking_id <= MAX_TRACKING_ID
    }

    /// The recorded target of a contact, if it is down.
    pub fn target(&self, id: ContactId) -> (result: Option<TargetContact>)
        requires
            self.wf(),
        ensures
            result == target_of(self.contacts@, id),
    {
        find_target(&self.contacts, id)
    }
}

impl Default for TouchpadState {
    fn default() -> (result: Self)
        ensures
            result.wf(),
            result.contacts@ == Seq::<TouchEntry>::empty(),
            result.next_tracking_id == 1,
    {
        TouchpadState { contacts: Vec::new(), next_tracking_id: 1 }
    }
}

pub open spec fn clamp_spec(value: int, low: int, high: int) -> int {
    if value < low {
        low
    } else if value > high {
        high
    } else {
        value
    }
}

/// A source coordinate on the virtual touchpad: rounded to the nearest unit when
/// the source extent is known, clamped otherwise.
pub open spec fn scaled(value: i32, extent: Option<u32>, maximum: i32) -> int {
    match extent {
        Some(extent) => if extent > 0 {
            (clamp_spec(value as int, 0, extent as int) * maximum + extent as int / 2)
                / (extent as int)
        } else {
            clamp_spec(value as int, 0, maximum as int)
        },
        None => clamp_spec(value as int, 0, maximum as int),
    }
}

pub open spec fn scaled_x(contact: TouchContact) -> int {
    scaled(
        contact.x,
        match contact.source_dimensions {
            Some(size) => Some(size.width),
            None => None,
        },
        TOUCHPAD_MAX_X,
    )
}

pub open spec fn scaled_y(contact: TouchContact) -> int {
    scaled(
        contact.y,
        match contact.source_dimensions {
            Some(size) => Some(size.height),
            None => None,
        },
        TOUCHPAD_MAX_Y,
    )
}

/// Scaled coordinates never leave the virtual touchpad.
pub proof fn scaled_stays_on_the_touchpad(value: i32, extent: Option<u32>, maximum: i32)
    requires
        maximum >= 0,
    ensures
        0 <= scaled(value, extent, maximum) <= maximum,
{
    if let Some(extent) = extent {
        if extent > 0 {
            let v = clamp_spec(value as int, 0, extent as int);
            let e = extent as int;
            let m = maximum as int;
            let q = (v * m + e / 2) / e;
            assert(0 <= q <= m) by (nonlinear_arith)
                requires
                    q == (v * m + e / 2) / e,
                    0 <= v <= e,
                    0 < e,
                    0 <= m,
            {
                assert(0 <= v * m <= e * m);
                let total = v * m + e / 2;
                assert(total == e * (total / e) + total % e);
                assert(0 <= total % e < e);
                assert(e * q < e * (m + 1));
            }
        }
    }
}

/// `place` is the unit of an axis of length `maximum` that is nearest to the same
/// share of the axis as `value` has of `extent`. Half a unit counts up.
pub open spec fn keeps_share(value: int, extent: int, place: int, maximum: int) -> bool {
    -extent < 2 * (place * extent - value * maximum) <= extent
}

/// A coordinate keeps its share of the pad. What lies beyond the source's edges is
/// shown at the edges, and where the source's size is unknown its units are kept.
pub proof fn scaling_keeps_the_share(value: i32, extent: u32, maximum: i32)
    requires
        0 < extent,
        0 <= maximum,
    ensures
        0 <= value <= extent ==> keeps_share(
            value as int,
            extent as int,
            scaled(value, Some(extent), maximum),
            maximum as int,
        ),
        value < 0 ==> scaled(value, Some(extent), maximum) == 0,
        value > extent ==> scaled(value, Some(extent), maximum) == maximum,
        0 <= value <= maximum ==> scaled(value, None, maximum) == value,
        value < 0 ==> scaled(value, None, maximum) == 0,
        value > maximum ==> scaled(value, None, maximum) == maximum,
        scaled(value, Some(0), maximum) == scaled(value, None, maximum),
{
    let e = extent as int;
    let m = maximum as int;
    let v = if value < 0 {
        0
    } else if value > extent {
        e
    } else {
        value as int
    };
    let q = scaled(value, Some(extent), maximum);
    assert(q == (v * m + e / 2) / e);
    assert(-e < 2 * (q * e - v * m) <= e && (v == 0 ==> q == 0) && (v == e ==> q == m))
        by (nonlinear_arith)
        requires
            q == (v * m + e / 2) / e,
            0 <= v <= e,
            0 < e,
            0 <= m,
    {
        let total = v * m + e / 2;
        assert(total == e * (total / e) + total % e);
        assert(0 <= total % e < e);
        if v == e {
            assert(e * q <= e * m + e / 2 < e * (q + 1));
            assert(q == m);
        }
        if v == 0 {
            assert(q == 0);
        }
    }
}

/// Where the contact of a pad of known size is shown: 3000 units across and 2200
/// down, each place with its own share.
pub proof fn contacts_keep_their_place(contact: TouchContact)
    requires
        contact.source_dimensions matches Some(size) && size.width > 0 && size.height > 0
            && 0 <= contact.x <= size.width && 0 <= contact.y <= size.height,
    ensures
        keeps_share(
            contact.x as int,
            contact.source_dimensions->0.width as int,
            scaled_x(contact),
            2_999,
        ),
        keeps_share(
            contact.y as int,
            contact.source_dimensions->0.height as int,
            scaled_y(contact),
            2_199,
        ),
{
    let size = contact.source_dimensions->0;
    scaling_keeps_the_share(contact.x, size.width, TOUCHPAD_MAX_X);
    scaling_keeps_the_share(contact.y, size.height, TOUCHPAD_MAX_Y);
}

fn scale_axis(value: i32, extent: Option<u32>, maximum: i32) -> (result: i32)
    requires
        0 <= maximum <= 10_000,
    ensures
        result == scaled(value, extent, maximum),
        extent is Some && 0 <= value <= extent->0 && 0 < extent->0 ==> keeps_share(
            value as int,
            extent->0 as int,
            result as int,
            maximum as int,
        ),
{
    proof {
        scaled_stays_on_the_touchpad(value, extent, maximum);
        if let Some(extent) = extent {
            if extent > 0 {
                scaling_keeps_the_share(value, extent, maximum);
            }
        }
    }
    if let Some(extent) = extent {
        if extent > 0 {
            let clamped: u64 = if value < 0 {
                0
            } else if (value as u32) > extent {
                extent as u64
            } else {
                value as u64
            };
            assert(clamped * (maximum as u64) <= 0x8000_0000 * 10_000) by (nonlinear_arith)
                requires
                    clamped <= 0x7fff_ffff,
                    0 <= maximum <= 10_000,
            ;
            return ((clamped * (maximum as u64) + (extent as u64) / 2) / (extent as u64)) as i32;
        }
    }
    if value < 0 {
        0
    } else if value > maximum {
        maximum
    } else {
        value
    }
}

pub fn scale_touch_axis(contact: &TouchContact, horizontal: bool) -> (result: i32)
    ensures
        result == if horizontal {
            scaled_x(*contact)
        } else {
            scaled_y(*contact)
        },
{
    if horizontal {
        let extent = match contact.source_dimensions {
            Some(size) => Some(size.width),
            None => None,
        };
        scale_axis(contact.x, extent, TOUCHPAD_MAX_X)
    } else {
        let extent = match contact.source_dimensions {
            Some(size) => Some(size.height),
            None => None,
        };
        scale_axis(contact.y, extent, TOUCHPAD_MAX_Y)
    }
}

/// Key that tells how many fingers rest on the touchpad.
pub open spec fn tool_key(count: int) -> Option<u16> {
    if count <= 0 {
        None
    } else if count == 1 {
        Some(BTN_TOOL_FINGER)
    } else if count == 2 {
        Some(BTN_TOOL_DOUBLETAP)
    } else if count == 3 {
        Some(BTN_TOOL_TRIPLETAP)
    } else {
        Some(BTN_TOOL_QUADTAP)
    }
}

fn touch_tool_key(count: usize) -> (result: Option<u16>)
    ensures
        result == tool_key(count as int),
{
    match count {
        0 => None,
        1 => Some(BTN_TOOL_FINGER),
        2 => Some(BTN_TOOL_DOUBLETAP),
        3 => Some(BTN_TOOL_TRIPLETAP),
        _ => Some(BTN_TOOL_QUADTAP),
    }
}

pub open spec fn absolute(axis: u16, value: int) -> InputEvent {
    InputEvent { kind: EV_ABS, code: axis, value: value as i32 }
}

pub open spec fn key_event(key: u16, pressed: bool) -> InputEvent {
    InputEvent {
        kind: EV_KEY,
        code: key,
        value: if pressed {
            1
        } else {
            0
        },
    }
}

fn push_absolute(events: &mut Vec<InputEvent>, axis: u16, value: i32)
    ensures
        final(events)@ == old(events)@.push(absolute(axis, value as int)),
{
    events.push(InputEvent::new(EV_ABS, axis, value));
}

fn push_key(events: &mut Vec<InputEvent>, key: u16, pressed: bool)
    ensures
        final(events)@ == old(events)@.push(key_event(key, pressed)),
{
    let value: i32 = if pressed {
        1
    } else {
        0
    };
    events.push(InputEvent::new(EV_KEY, key, value));
}

// ---------------------------------------------------------------------------
// Slot assignment
// ---------------------------------------------------------------------------

/// Progress of slot assignment over a prefix of the new contacts.
pub struct Assignment {
    pub contacts: Seq<TouchEntry>,
    pub next_tracking_id: int,
    pub used: Seq<bool>,
}

/// Slots that the first `count` of `contacts` occupy.
pub open spec fn occupied(contacts: Seq<TouchEntry>, count: int) -> Seq<bool> {
    Seq::new(
        MAX_TOUCHPAD_CONTACTS as nat,
        |slot: int|
            exists|i: int| 0 <= i < count && (#[trigger] contacts[i]).target.slot == slot,
    )
}

/// The lowest free slot at or after `from`.
pub open spec fn free_slot(used: Seq<bool>, from: int) -> int
    decreases used.len() - from,
{
    if from >= used.len() || !used[from] {
        from
    } else {
        free_slot(used, from + 1)
    }
}

/// Tracking ids count up and start over after the largest one.
pub open spec fn following_tracking_id(id: int) -> int {
    if id == MAX_TRACKING_ID {
        1
    } else {
        id + 1
    }
}

pub open spec fn moved_target(existing: TargetContact, contact: TouchContact) -> TargetContact {
    TargetContact {
        x: scaled_x(contact) as i32,
        y: scaled_y(contact) as i32,
        slot: existing.slot,
        tracking_id: existing.tracking_id,
    }
}

/// Targets of the first `count` new contacts: a contact that was already down
/// keeps its slot and tracking id, a new one takes the lowest slot that neither
/// the previous nor the new contacts occupy.
pub open spec fn assigned(
    previous: Seq<TouchEntry>,
    next_tracking_id: int,
    touch: Seq<TouchContact>,
    count: nat,
) -> Assignment
    decreases count,
{
    if count == 0 {
        Assignment {
            contacts: Seq::empty(),
            next_tracking_id,
            used: occupied(previous, previous.len() as int),
        }
    } else {
        let before = assigned(previous, next_tracking_id, touch, (count - 1) as nat);
        let contact = touch[count - 1];
        match target_of(previous, contact.id) {
            Some(existing) => Assignment {
                contacts: before.contacts.push(
                    TouchEntry { id: contact.id, target: moved_target(existing, contact) },
                ),
                ..before
            },
            None => {
                let slot = free_slot(before.used, 0);
                Assignment {
                    contacts: before.contacts.push(
                        TouchEntry {
                            id: contact.id,
                            target: TargetContact {
                                slot: slot as usize,
                                tracking_id: before.next_tracking_id as i32,
                                x: scaled_x(contact) as i32,
                                y: scaled_y(contact) as i32,
                            },
                        },
                    ),
                    next_tracking_id: following_tracking_id(before.next_tracking_id),
                    used: before.used.update(slot, true),
                }
            },
        }
    }
}

/// Contacts among the first `count` that were not down before.
pub open spec fn landings(
    previous: Seq<TouchEntry>,
    touch: Seq<TouchContact>,
    count: nat,
) -> nat
    decreases count,
{
    if count == 0 {
        0
    } else {
        landings(previous, touch, (count - 1) as nat) + if has_entry(
            previous,
            touch[count - 1].id,
        ) {
            0nat
        } else {
            1nat
        }
    }
}

/// Enough slots are unused for every landing contact.
pub open spec fn landings_fit(previous: Seq<TouchEntry>, touch: Seq<TouchContact>) -> bool {
    previous.len() + landings(previous, touch, touch.len()) <= MAX_TOUCHPAD_CONTACTS
}

pub open spec fn used_count(used: Seq<bool>) -> nat
    decreases used.len(),
{
    if used.len() == 0 {
        0
    } else {
        used_count(used.drop_last()) + if used.last() {
            1nat
        } else {
            0nat
        }
    }
}

proof fn used_count_update(used: Seq<bool>, slot: int)
    requires
        0 <= slot < used.len(),
        !used[slot],
    ensures
        used_count(used.update(slot, true)) == used_count(used) + 1,
    decreases used.len(),
{
    let updated = used.update(slot, true);
    if slot == used.len() - 1 {
        assert(updated.drop_last() =~= used.drop_last());
    } else {
        assert(updated.drop_last() =~= used.drop_last().update(slot, true));
        used_count_update(used.drop_last(), slot);
    }
}

proof fn full_use_counts_every_slot(used: Seq<bool>)
    requires
        forall|i: int| 0 <= i < used.len() ==> #[trigger] used[i],
    ensures
        used_count(used) == used.len(),
    decreases used.len(),
{
    if used.len() > 0 {
        full_use_counts_every_slot(used.drop_last());
    }
}

proof fn empty_use_counts_nothing(used: Seq<bool>)
    requires
        forall|i: int| 0 <= i < used.len() ==> !#[trigger] used[i],
    ensures
        used_count(used) == 0,
    decreases used.len(),
{
    if used.len() > 0 {
        empty_use_counts_nothing(used.drop_last());
    }
}

/// The lowest free slot is free and every slot below it is used.
proof fn free_slot_is_first(used: Seq<bool>, from: int)
    requires
        0 <= from <= used.len(),
    ensures
        from <= free_slot(used, from) <= used.len(),
        free_slot(used, from) < used.len() ==> !used[free_slot(used, from)],
        forall|i: int| from <= i < free_slot(used, from) ==> #[trigger] used[i],
    decreases used.len() - from,
{
    if from < used.len() && used[from] {
        free_slot_is_first(used, from + 1);
    }
}

proof fn occupied_counts(contacts: Seq<TouchEntry>, count: int)
    requires
        0 <= count <= contacts.len(),
        slots_distinct(contacts),
        targets_in_range(contacts),
    ensures
        used_count(occupied(contacts, count)) == count,
    decreases count,
{
    if count == 0 {
        empty_use_counts_nothing(occupied(contacts, 0));
    } else {
        occupied_counts(contacts, count - 1);
        let before = occupied(contacts, count - 1);
        let slot = contacts[count - 1].target.slot as int;
        assert(!before[slot]) by {
            if before[slot] {
                let i = choose|i: int|
                    0 <= i < count - 1 && (#[trigger] contacts[i]).target.slot == slot;
                assert(contacts[i].target.slot != contacts[count - 1].target.slot);
            }
        }
        used_count_update(before, slot);
        assert(occupied(contacts, count) =~= before.update(slot, true)) by {
            assert forall|s: int| 0 <= s < MAX_TOUCHPAD_CONTACTS implies occupied(
                contacts,
                count,
            )[s] == before.update(slot, true)[s] by {
                if before[s] {
                    let i = choose|i: int|
                        0 <= i < count - 1 && (#[trigger] contacts[i]).target.slot == s;
                    assert(contacts[i].target.slot == s);
                }
                if s == slot {
                    assert(contacts[count - 1].target.slot == s);
                }
                if occupied(contacts, count)[s] && s != slot {
                    let i = choose|i: int|
                        0 <= i < count && (#[trigger] contacts[i]).target.slot == s;
                    assert(i != count - 1);
                    assert(before[s]);
                }
            }
        }
    }
}

proof fn landings_grow(previous: Seq<TouchEntry>, touch: Seq<TouchContact>, low: nat, high: nat)
    requires
        low <= high,
    ensures
        landings(previous, touch, low) <= landings(previous, touch, high) <= landings(
            previous,
            touch,
            low,
        ) + (high - low),
    decreases high - low,
{
    if low < high {
        landings_grow(previous, touch, low, (high - 1) as nat);
    }
}

/// In an ordered list a contact has one entry, and `target_of` finds it.
pub proof fn target_of_entry(contacts: Seq<TouchEntry>, i: int)
    requires
        entries_ordered(contacts),
        0 <= i < contacts.len(),
    ensures
        has_entry(contacts, contacts[i].id),
        target_of(contacts, contacts[i].id) == Some(contacts[i].target),
{
    let id = contacts[i].id;
    let k = choose|k: int| 0 <= k < contacts.len() && (#[trigger] contacts[k]).id == id;
    assert(contacts[i].id == id);
    if k < i {
        assert(contacts[k].id.0 < contacts[i].id.0);
    } else if i < k {
        assert(contacts[i].id.0 < contacts[k].id.0);
    }
}

/// What slot assignment keeps true while it walks over the contacts.
pub proof fn assignment_invariant(
    previous: Seq<TouchEntry>,
    next_tracking_id: int,
    touch: Seq<TouchContact>,
    count: nat,
)
    requires
        contacts_wf(previous),
        1 <= next_tracking_id <= MAX_TRACKING_ID,
        ordered_by_id(touch),
        landings_fit(previous, touch),
        count <= touch.len(),
    ensures
        ({
            let plan = assigned(previous, next_tracking_id, touch, count);
            &&& plan.contacts.len() == count
            &&& plan.used.len() == MAX_TOUCHPAD_CONTACTS
            &&& used_count(plan.used) == previous.len() + landings(previous, touch, count)
            &&& 1 <= plan.next_tracking_id <= MAX_TRACKING_ID
            &&& slots_distinct(plan.contacts)
            &&& targets_in_range(plan.contacts)
            &&& forall|i: int|
                0 <= i < count ==> {
                    let entry = #[trigger] plan.contacts[i];
                    &&& entry.id == touch[i].id
                    &&& entry.target.x == scaled_x(touch[i])
                    &&& entry.target.y == scaled_y(touch[i])
                    &&& plan.used[entry.target.slot as int]
                    &&& match target_of(previous, entry.id) {
                        Some(known) => entry.target.slot == known.slot && entry.target.tracking_id
                            == known.tracking_id,
                        None => forall|k: int|
                            0 <= k < previous.len() ==> (#[trigger] previous[k]).target.slot
                                != entry.target.slot,
                    }
                }
            &&& forall|k: int|
                0 <= k < previous.len() ==> plan.used[(#[trigger] previous[k]).target.slot as int]
        }),
    decreases count,
{
    let plan = assigned(previous, next_tracking_id, touch, count);
    if count == 0 {
        occupied_counts(previous, previous.len() as int);
        assert forall|k: int| 0 <= k < previous.len() implies plan.used[(
        #[trigger] previous[k]).target.slot as int] by {
            assert(previous[k].target.slot == previous[k].target.slot);
        }
    } else {
        let earlier = (count - 1) as nat;
        assignment_invariant(previous, next_tracking_id, touch, earlier);
        let before = assigned(previous, next_tracking_id, touch, earlier);
        let contact = touch[count - 1];
        scaled_stays_on_the_touchpad(
            contact.x,
            match contact.source_dimensions {
                Some(size) => Some(size.width),
                None => None,
            },
            TOUCHPAD_MAX_X,
        );
        scaled_stays_on_the_touchpad(
            contact.y,
            match contact.source_dimensions {
                Some(size) => Some(size.height),
                None => None,
            },
            TOUCHPAD_MAX_Y,
        );
        let entry = plan.contacts[count - 1];
        if has_entry(previous, contact.id) {
            let k = choose|k: int|
                0 <= k < previous.len() && (#[trigger] previous[k]).id == contact.id;
            target_of_entry(previous, k);
            assert forall|i: int| 0 <= i < earlier implies (
            #[trigger] plan.contacts[i]).target.slot != entry.target.slot by {
                let other = before.contacts[i];
                assert(other == plan.contacts[i]);
                if has_entry(previous, other.id) {
                    let m = choose|m: int|
                        0 <= m < previous.len() && (#[trigger] previous[m]).id == other.id;
                    target_of_entry(previous, m);
                    assert(touch[i].id.0 < touch[count - 1].id.0);
                    assert(m != k);
                    if m < k {
                        assert(previous[m].target.slot != previous[k].target.slot);
                    } else {
                        assert(previous[k].target.slot != previous[m].target.slot);
                    }
                } else {
                    assert(previous[k].target.slot != other.target.slot);
                }
            }
        } else {
            landings_grow(previous, touch, count, touch.len());
            free_slot_is_first(before.used, 0);
            let slot = free_slot(before.used, 0);
            if slot == before.used.len() {
                full_use_counts_every_slot(before.used);
                assert(false);
            }
            used_count_update(before.used, slot);
            assert forall|i: int| 0 <= i < earlier implies (
            #[trigger] plan.contacts[i]).target.slot != entry.target.slot by {
                assert(before.used[before.contacts[i].target.slot as int]);
            }
            assert forall|k: int| 0 <= k < previous.len() implies (
            #[trigger] previous[k]).target.slot != entry.target.slot by {
                assert(before.used[previous[k].target.slot as int]);
            }
        }
        assert forall|i: int| 0 <= i < earlier implies plan.contacts[i] == before.contacts[i] by {}
        assert forall|i: int, j: int| 0 <= i < j < count implies (
        #[trigger] plan.contacts[i]).target.slot != (#[trigger] plan.contacts[j]).target.slot by {
            if j < earlier {
                assert(before.contacts[i].target.slot != before.contacts[j].target.slot);
            }
        }
    }
}

fn find_target(contacts: &Vec<TouchEntry>, id: ContactId) -> (result: Option<TargetContact>)
    requires
        entries_ordered(contacts@),
    ensures
        result == target_of(contacts@, id),
{
    let mut at: usize = 0;
    while at < contacts.len()
        invariant
            at <= contacts@.len(),
            entries_ordered(contacts@),
            forall|i: int| 0 <= i < at ==> (#[trigger] contacts@[i]).id != id,
        decreases contacts@.len() - at,
    {
        if contacts[at].id.0 == id.0 {
            proof {
                target_of_entry(contacts@, at as int);
            }
            return Some(contacts[at].target);
        }
        at = at + 1;
    }
    None
}

// ---------------------------------------------------------------------------
// Events of one report
// ---------------------------------------------------------------------------

/// Lifts of the first `count` previous contacts that are no longer down.
pub open spec fn lift_events(
    previous: Seq<TouchEntry>,
    next: Seq<TouchEntry>,
    count: nat,
) -> Seq<InputEvent>
    decreases count,
{
    if count == 0 {
        Seq::empty()
    } else {
        let before = lift_events(previous, next, (count - 1) as nat);
        let entry = previous[count - 1];
        if has_entry(next, entry.id) {
            before
        } else {
            before.push(absolute(ABS_MT_SLOT, entry.target.slot as int)).push(
                absolute(ABS_MT_TRACKING_ID, -1),
            )
        }
    }
}

/// Changes of one contact: the slot it lives in, then what is new about it.
pub open spec fn entry_events(
    events: Seq<InputEvent>,
    known: Option<TargetContact>,
    current: TargetContact,
) -> Seq<InputEvent> {
    if known == Some(current) {
        events
    } else {
        let slot = events.push(absolute(ABS_MT_SLOT, current.slot as int));
        let tracking = if known is None {
            slot.push(absolute(ABS_MT_TRACKING_ID, current.tracking_id as int))
        } else {
            slot
        };
        let x = if known is None || known->0.x != current.x {
            tracking.push(absolute(ABS_MT_POSITION_X, current.x as int))
        } else {
            tracking
        };
        if known is None || known->0.y != current.y {
            x.push(absolute(ABS_MT_POSITION_Y, current.y as int))
        } else {
            x
        }
    }
}

/// Lifts followed by the changes of the first `count` contacts now down.
pub open spec fn contact_events(
    previous: Seq<TouchEntry>,
    next: Seq<TouchEntry>,
    count: nat,
) -> Seq<InputEvent>
    decreases count,
{
    if count == 0 {
        lift_events(previous, next, previous.len())
    } else {
        let entry = next[count - 1];
        entry_events(
            contact_events(previous, next, (count - 1) as nat),
            target_of(previous, entry.id),
            entry.target,
        )
    }
}

/// Change of the finger-count key.
pub open spec fn tool_events(
    events: Seq<InputEvent>,
    old_count: int,
    new_count: int,
) -> Seq<InputEvent> {
    let old_tool = tool_key(old_count);
    let new_tool = tool_key(new_count);
    if old_tool == new_tool {
        events
    } else {
        let released = match old_tool {
            Some(key) => events.push(key_event(key, false)),
            None => events,
        };
        match new_tool {
            Some(key) => released.push(key_event(key, true)),
            None => released,
        }
    }
}

/// Position of the contact in the lowest slot among the first `count`.
pub open spec fn lowest_slot(contacts: Seq<TouchEntry>, count: nat) -> int
    decreases count,
{
    if count <= 1 {
        0
    } else {
        let before = lowest_slot(contacts, (count - 1) as nat);
        if contacts[count - 1].target.slot < contacts[before].target.slot {
            count - 1
        } else {
            before
        }
    }
}

/// Single-touch emulation follows the contact in the lowest slot.
pub open spec fn primary_events(
    events: Seq<InputEvent>,
    contacts: Seq<TouchEntry>,
) -> Seq<InputEvent> {
    if contacts.len() == 0 {
        events
    } else {
        let primary = contacts[lowest_slot(contacts, contacts.len())].target;
        events.push(absolute(ABS_X, primary.x as int)).push(absolute(ABS_Y, primary.y as int))
    }
}

pub open spec fn touch_key_events(
    events: Seq<InputEvent>,
    old_count: int,
    new_count: int,
) -> Seq<InputEvent> {
    if (old_count == 0) != (new_count == 0) {
        events.push(key_event(BTN_TOUCH, new_count != 0))
    } else {
        events
    }
}

/// Every event of the report that turns `previous` into `next`.
pub open spec fn report_events(
    previous: Seq<TouchEntry>,
    next: Seq<TouchEntry>,
) -> Seq<InputEvent> {
    if next == previous {
        Seq::empty()
    } else {
        primary_events(
            touch_key_events(
                tool_events(
                    contact_events(previous, next, next.len()),
                    previous.len() as int,
                    next.len() as int,
                ),
                previous.len() as int,
                next.len() as int,
            ),
            next,
        )
    }
}

/// `report` is the report that moves `previous` to the contacts of `touch`.
pub open spec fn is_report_for(
    previous: TouchpadState,
    touch: Seq<TouchContact>,
    events: Seq<InputEvent>,
    next: TouchpadState,
) -> bool {
    let plan = assigned(
        previous.contacts@,
        previous.next_tracking_id as int,
        touch,
        touch.len(),
    );
    &&& next.contacts@ == plan.contacts
    &&& next.next_tracking_id == plan.next_tracking_id
    &&& events == report_events(previous.contacts@, next.contacts@)
}

fn same_entries(left: &Vec<TouchEntry>, right: &Vec<TouchEntry>) -> (result: bool)
    ensures
        result == (left@ == right@),
{
    if left.len() != right.len() {
        return false;
    }
    let mut at: usize = 0;
    while at < left.len()
        invariant
            at <= left@.len(),
            left@.len() == right@.len(),
            forall|i: int| 0 <= i < at ==> left@[i] == right@[i],
        decreases left@.len() - at,
    {
        if left[at] != right[at] {
            return false;
        }
        at = at + 1;
    }
    assert(left@ =~= right@);
    true
}

fn push_entry_events(
    events: &mut Vec<InputEvent>,
    known: Option<TargetContact>,
    current: TargetContact,
)
    requires
        current.slot < MAX_TOUCHPAD_CONTACTS,
    ensures
        final(events)@ == entry_events(old(events)@, known, current),
{
    if let Some(existing) = known {
        if existing == current {
            return ;
        }
    }
    push_absolute(events, ABS_MT_SLOT, current.slot as i32);
    match known {
        None => {
            push_absolute(events, ABS_MT_TRACKING_ID, current.tracking_id);
            push_absolute(events, ABS_MT_POSITION_X, current.x);
            push_absolute(events, ABS_MT_POSITION_Y, current.y);
        },
        Some(existing) => {
            if existing.x != current.x {
                push_absolute(events, ABS_MT_POSITION_X, current.x);
            }
            if existing.y != current.y {
                push_absolute(events, ABS_MT_POSITION_Y, current.y);
            }
        },
    }
}

/// Assigns a target to each contact of `touch`.
fn assign_targets(previous: &TouchpadState, touch: &Vec<TouchContact>) -> (next: TouchpadState)
    requires
        previous.wf(),
        ordered_by_id(touch@),
        landings_fit(previous.contacts@, touch@),
    ensures
        next.wf(),
        next.contacts@ == assigned(
            previous.contacts@,
            previous.next_tracking_id as int,
            touch@,
            touch@.len(),
        ).contacts,
        next.next_tracking_id == assigned(
            previous.contacts@,
            previous.next_tracking_id as int,
            touch@,
            touch@.len(),
        ).next_tracking_id,
{
    let ghost known = previous.contacts@;
    let ghost first_id = previous.next_tracking_id as int;
    let mut used: Vec<bool> = Vec::new();
    while used.len() < MAX_TOUCHPAD_CONTACTS
        invariant
            used@.len() <= MAX_TOUCHPAD_CONTACTS,
            forall|i: int| 0 <= i < used@.len() ==> !#[trigger] used@[i],
        decreases MAX_TOUCHPAD_CONTACTS - used@.len(),
    {
        used.push(false);
    }
    let mut next: usize = 0;
    assert(used@ =~= occupied(known, 0));
    while next < previous.contacts.len()
        invariant
            known == previous.contacts@,
            previous.wf(),
            next <= known.len(),
            used@ == occupied(known, next as int),
        decreases known.len() - next,
    {
        let ghost before = used@;
        let slot: usize = previous.contacts[next].target.slot;
        used[slot] = true;
        next = next + 1;
        assert(used@ =~= occupied(known, next as int)) by {
            assert forall|s: int| 0 <= s < MAX_TOUCHPAD_CONTACTS implies used@[s] == occupied(
                known,
                next as int,
            )[s] by {
                if before[s] {
                    let i = choose|i: int|
                        0 <= i < next - 1 && (#[trigger] known[i]).target.slot == s;
                    assert(known[i].target.slot == s);
                }
                if s == slot {
                    assert(known[next - 1].target.slot == s);
                }
                if occupied(known, next as int)[s] && s != slot {
                    let i = choose|i: int|
                        0 <= i < next && (#[trigger] known[i]).target.slot == s;
                    assert(i != next - 1);
                    assert(before[s]);
                }
            }
        }
    }
    let mut contacts: Vec<TouchEntry> = Vec::new();
    let mut next_tracking_id: i32 = previous.next_tracking_id;
    let mut at: usize = 0;
    while at < touch.len()
        invariant
            known == previous.contacts@,
            first_id == previous.next_tracking_id as int,
            previous.wf(),
            ordered_by_id(touch@),
            landings_fit(known, touch@),
            at <= touch@.len(),
            contacts@ == assigned(known, first_id, touch@, at as nat).contacts,
            next_tracking_id == assigned(known, first_id, touch@, at as nat).next_tracking_id,
            used@ == assigned(known, first_id, touch@, at as nat).used,
        decreases touch@.len() - at,
    {
        proof {
            assignment_invariant(known, first_id, touch@, at as nat);
            assignment_invariant(known, first_id, touch@, (at + 1) as nat);
        }
        let contact = touch[at];
        let x: i32 = scale_touch_axis(&contact, true);
        let y: i32 = scale_touch_axis(&contact, false);
        let target = match find_target(&previous.contacts, contact.id) {
            Some(existing) => TargetContact {
                slot: existing.slot,
                tracking_id: existing.tracking_id,
                x,
                y,
            },
            None => {
                let mut slot: usize = 0;
                proof {
                    free_slot_is_first(used@, 0);
                }
                while slot < used.len() && used[slot]
                    invariant
                        slot <= used@.len(),
                        free_slot(used@, 0) == free_slot(used@, slot as int),
                    decreases used@.len() - slot,
                {
                    slot = slot + 1;
                }
                let ghost before = assigned(known, first_id, touch@, at as nat);
                proof {
                    let plan = assigned(known, first_id, touch@, (at + 1) as nat);
                    assert(plan.contacts[at as int].target.slot < MAX_TOUCHPAD_CONTACTS);
                    landings_grow(known, touch@, (at + 1) as nat, touch@.len());
                    if slot == used@.len() {
                        full_use_counts_every_slot(used@);
                    }
                }
                used[slot] = true;
                let tracking_id: i32 = next_tracking_id;
                next_tracking_id = if tracking_id == MAX_TRACKING_ID {
                    1
                } else {
                    tracking_id + 1
                };
                TargetContact { slot, tracking_id, x, y }
            },
        };
        contacts.push(TouchEntry { id: contact.id, target });
        at = at + 1;
    }
    proof {
        assignment_invariant(known, first_id, touch@, touch@.len());
        planned_contacts_wf(*previous, touch@);
    }
    TouchpadState { contacts, next_tracking_id }
}

pub proof fn planned_contacts_wf(previous: TouchpadState, touch: Seq<TouchContact>)
    requires
        previous.wf(),
        ordered_by_id(touch),
        landings_fit(previous.contacts@, touch),
    ensures
        contacts_wf(
            assigned(
                previous.contacts@,
                previous.next_tracking_id as int,
                touch,
                touch.len(),
            ).contacts,
        ),
{
    let plan = assigned(previous.contacts@, previous.next_tracking_id as int, touch, touch.len());
    assignment_invariant(previous.contacts@, previous.next_tracking_id as int, touch, touch.len());
    assert forall|i: int, j: int| 0 <= i < j < plan.contacts.len() implies (
    #[trigger] plan.contacts[i]).id.0 < (#[trigger] plan.contacts[j]).id.0 by {
        assert(touch[i].id.0 < touch[j].id.0);
    }
    assert forall|k: int| 0 <= k < plan.contacts.len() implies (
    #[trigger] plan.contacts[k]).target.slot < MAX_TOUCHPAD_CONTACTS by {}
    distinct_slots_are_few(plan.contacts);
}

/// Contacts in distinct slots are no more than there are slots.
proof fn distinct_slots_are_few(contacts: Seq<TouchEntry>)
    requires
        slots_distinct(contacts),
        targets_in_range(contacts),
    ensures
        contacts.len() <= MAX_TOUCHPAD_CONTACTS,
{
    occupied_counts(contacts, contacts.len() as int);
    used_count_bounded(occupied(contacts, contacts.len() as int));
}

proof fn used_count_bounded(used: Seq<bool>)
    ensures
        used_count(used) <= used.len(),
    decreases used.len(),
{
    if used.len() > 0 {
        used_count_bounded(used.drop_last());
    }
}

fn plan_touchpad_report(previous: &TouchpadState, touch: &Vec<TouchContact>) -> (result: (
    Vec<InputEvent>,
    TouchpadState,
))
    requires
        previous.wf(),
        ordered_by_id(touch@),
        landings_fit(previous.contacts@, touch@),
    ensures
        result.1.wf(),
        is_report_for(*previous, touch@, result.0@, result.1),
{
    let next = assign_targets(previous, touch);
    if same_entries(&next.contacts, &previous.contacts) {
        return (Vec::new(), next);
    }
    let mut events: Vec<InputEvent> = Vec::new();
    let mut lifted: usize = 0;
    while lifted < previous.contacts.len()
        invariant
            previous.wf(),
            next.wf(),
            lifted <= previous.contacts@.len(),
            events@ == lift_events(previous.contacts@, next.contacts@, lifted as nat),
        decreases previous.contacts@.len() - lifted,
    {
        let entry = previous.contacts[lifted];
        if find_target(&next.contacts, entry.id).is_none() {
            push_absolute(&mut events, ABS_MT_SLOT, entry.target.slot as i32);
            push_absolute(&mut events, ABS_MT_TRACKING_ID, -1);
        }
        lifted = lifted + 1;
    }
    let mut changed: usize = 0;
    while changed < next.contacts.len()
        invariant
            previous.wf(),
            next.wf(),
            changed <= next.contacts@.len(),
            events@ == contact_events(previous.contacts@, next.contacts@, changed as nat),
        decreases next.contacts@.len() - changed,
    {
        let entry = next.contacts[changed];
        let known = find_target(&previous.contacts, entry.id);
        push_entry_events(&mut events, known, entry.target);
        changed = changed + 1;
    }
    let old_count: usize = previous.contacts.len();
    let new_count: usize = next.contacts.len();
    let old_tool = touch_tool_key(old_count);
    let new_tool = touch_tool_key(new_count);
    if old_tool != new_tool {
        if let Some(key) = old_tool {
            push_key(&mut events, key, false);
        }
        if let Some(key) = new_tool {
            push_key(&mut events, key, true);
        }
    }
    if (old_count == 0) != (new_count == 0) {
        push_key(&mut events, BTN_TOUCH, new_count != 0);
    }
    if new_count > 0 {
        let mut primary: usize = 0;
        let mut seen: usize = 1;
        while seen < new_count
            invariant
                1 <= seen <= new_count,
                new_count == next.contacts@.len(),
                primary < new_count,
                primary == lowest_slot(next.contacts@, seen as nat),
            decreases new_count - seen,
        {
            if next.contacts[seen].target.slot < next.contacts[primary].target.slot {
                primary = seen;
            }
            seen = seen + 1;
        }
        let target = next.contacts[primary].target;
        push_absolute(&mut events, ABS_X, target.x);
        push_absolute(&mut events, ABS_Y, target.y);
    }
    (events, next)
}

// ---------------------------------------------------------------------------
// Reports for a new touch state
// ---------------------------------------------------------------------------

/// The contacts of `touch` that were already down.
pub open spec fn survivors(
    previous: Seq<TouchEntry>,
    touch: Seq<TouchContact>,
) -> Seq<TouchContact>
    decreases touch.len(),
{
    if touch.len() == 0 {
        Seq::empty()
    } else {
        let before = survivors(previous, touch.drop_last());
        if has_entry(previous, touch.last().id) {
            before.push(touch.last())
        } else {
            before
        }
    }
}

pub(super) proof fn survivors_ordered(previous: Seq<TouchEntry>, touch: Seq<TouchContact>)
    requires
        ordered_by_id(touch),
    ensures
        ordered_by_id(survivors(previous, touch)),
        forall|i: int|
            0 <= i < survivors(previous, touch).len() ==> has_entry(
                previous,
                (#[trigger] survivors(previous, touch)[i]).id,
            ) && touch.contains(survivors(previous, touch)[i]),
        survivors(previous, touch).len() + landings(previous, touch, touch.len()) == touch.len(),
        forall|j: int|
            0 <= j < touch.len() && has_entry(previous, (#[trigger] touch[j]).id) ==> survivors(
                previous,
                touch,
            ).contains(touch[j]),
    decreases touch.len(),
{
    if touch.len() > 0 {
        let shorter = touch.drop_last();
        survivors_ordered(previous, shorter);
        landings_of_prefix(previous, touch, shorter, shorter.len());
        let before = survivors(previous, shorter);
        let all = survivors(previous, touch);
        assert forall|i: int| 0 <= i < all.len() implies has_entry(
            previous,
            (#[trigger] all[i]).id,
        ) && touch.contains(all[i]) by {
            if i < before.len() {
                assert(all[i] == before[i]);
                assert(shorter.contains(before[i]));
                let k = choose|k: int| 0 <= k < shorter.len() && shorter[k] == before[i];
                assert(touch[k] == all[i]);
            } else {
                assert(touch[touch.len() - 1] == all[i]);
            }
        }
        assert forall|i: int, j: int| 0 <= i < j < all.len() implies (#[trigger] all[i]).id.0 < (
        #[trigger] all[j]).id.0 by {
            if j < before.len() {
                assert(before[i].id.0 < before[j].id.0);
            } else {
                assert(before[i] == all[i]);
                assert(shorter.contains(before[i]));
                let k = choose|k: int| 0 <= k < shorter.len() && shorter[k] == before[i];
                assert(touch[k].id.0 < touch[touch.len() - 1].id.0);
            }
        }
        assert forall|j: int|
            0 <= j < touch.len() && has_entry(previous, (#[trigger] touch[j]).id) implies all.contains(
            touch[j],
        ) by {
            if j < shorter.len() {
                assert(shorter[j] == touch[j]);
                assert(before.contains(shorter[j]));
                let k = choose|k: int| 0 <= k < before.len() && before[k] == shorter[j];
                assert(all[k] == touch[j]);
            } else {
                assert(all[all.len() - 1] == touch[j]);
            }
        }
    }
}

proof fn landings_of_prefix(
    previous: Seq<TouchEntry>,
    touch: Seq<TouchContact>,
    prefix: Seq<TouchContact>,
    count: nat,
)
    requires
        count <= prefix.len() <= touch.len(),
        forall|i: int| 0 <= i < prefix.len() ==> #[trigger] prefix[i] == touch[i],
    ensures
        landings(previous, touch, count) == landings(previous, prefix, count),
    decreases count,
{
    if count > 0 {
        landings_of_prefix(previous, touch, prefix, (count - 1) as nat);
        assert(prefix[count - 1] == touch[count - 1]);
    }
}

pub(super) proof fn survivors_do_not_land(previous: Seq<TouchEntry>, touch: Seq<TouchContact>, count: nat)
    requires
        count <= touch.len(),
        forall|i: int| 0 <= i < touch.len() ==> has_entry(previous, (#[trigger] touch[i]).id),
    ensures
        landings(previous, touch, count) == 0,
    decreases count,
{
    if count > 0 {
        survivors_do_not_land(previous, touch, (count - 1) as nat);
    }
}

proof fn landings_agree(
    first: Seq<TouchEntry>,
    second: Seq<TouchEntry>,
    touch: Seq<TouchContact>,
    count: nat,
)
    requires
        count <= touch.len(),
        forall|i: int|
            0 <= i < touch.len() ==> has_entry(first, (#[trigger] touch[i]).id) == has_entry(
                second,
                touch[i].id,
            ),
    ensures
        landings(first, touch, count) == landings(second, touch, count),
    decreases count,
{
    if count > 0 {
        landings_agree(first, second, touch, (count - 1) as nat);
    }
}

/// After the release report exactly the surviving contacts are down, so every
/// landing contact finds a slot in the next report.
pub(super) proof fn released_makes_room(
    previous: TouchpadState,
    released: TouchpadState,
    touch: Seq<TouchContact>,
)
    requires
        previous.wf(),
        ordered_by_id(touch),
        touch.len() <= MAX_TOUCHPAD_CONTACTS,
        released.wf(),
        released.contacts@ == assigned(
            previous.contacts@,
            previous.next_tracking_id as int,
            survivors(previous.contacts@, touch),
            survivors(previous.contacts@, touch).len(),
        ).contacts,
    ensures
        landings_fit(released.contacts@, touch),
{
    let known = previous.contacts@;
    let staying = survivors(known, touch);
    survivors_ordered(known, touch);
    survivors_do_not_land(known, staying, staying.len());
    assignment_invariant(known, previous.next_tracking_id as int, staying, staying.len());
    assert forall|i: int| 0 <= i < touch.len() implies has_entry(
        known,
        (#[trigger] touch[i]).id,
    ) == has_entry(released.contacts@, touch[i].id) by {
        if has_entry(known, touch[i].id) {
            assert(staying.contains(touch[i]));
            let k = choose|k: int| 0 <= k < staying.len() && staying[k] == touch[i];
            assert(released.contacts@[k].id == touch[i].id);
        }
        if has_entry(released.contacts@, touch[i].id) {
            let k = choose|k: int|
                0 <= k < released.contacts@.len() && (#[trigger] released.contacts@[k]).id
                    == touch[i].id;
            assert(staying[k].id == touch[i].id);
        }
    }
    landings_agree(known, released.contacts@, touch, touch.len());
}

/// What `plan_touchpad_events` returns for a touch state that fits.
pub open spec fn are_reports_for(
    previous: TouchpadState,
    touch: Seq<TouchContact>,
    reports: Seq<(Vec<InputEvent>, TouchpadState)>,
) -> bool {
    if landings_fit(previous.contacts@, touch) {
        &&& reports.len() == 1
        &&& is_report_for(previous, touch, reports[0].0@, reports[0].1)
    } else {
        &&& reports.len() == 2
        &&& is_report_for(
            previous,
            survivors(previous.contacts@, touch),
            reports[0].0@,
            reports[0].1,
        )
        &&& is_report_for(reports[0].1, touch, reports[1].0@, reports[1].1)
    }
}

/// Plans the reports that show `touch`: one when every landing contact finds an
/// unused slot, otherwise a release report first and a landing report after it.
pub fn plan_touchpad_events(previous: &TouchpadState, touch: &TouchState) -> (result: Result<
    Vec<(Vec<InputEvent>, TouchpadState)>,
    TooManyContacts,
>)
    requires
        previous.wf(),
        touch.wf(),
    ensures
        match result {
            Err(error) => touch@.len() > MAX_TOUCHPAD_CONTACTS && error == (TooManyContacts {
                actual: touch@.len() as usize,
                maximum: MAX_TOUCHPAD_CONTACTS,
            }),
            Ok(reports) => {
                &&& touch@.len() <= MAX_TOUCHPAD_CONTACTS
                &&& are_reports_for(*previous, touch@, reports@)
                &&& forall|i: int| 0 <= i < reports@.len() ==> (#[trigger] reports@[i]).1.wf()
            },
        },
{
    if touch.len() > MAX_TOUCHPAD_CONTACTS {
        return Err(
            TooManyContacts { actual: touch.len(), maximum: MAX_TOUCHPAD_CONTACTS },
        );
    }
    let contacts: &Vec<TouchContact> = touch.contacts();
    let mut surviving: Vec<TouchContact> = Vec::new();
    let mut landing: usize = 0;
    let mut at: usize = 0;
    assert(contacts@.take(0) =~= Seq::empty());
    while at < contacts.len()
        invariant
            previous.wf(),
            at <= contacts@.len(),
            landing <= at,
            landing == landings(previous.contacts@, contacts@, at as nat),
            surviving@ == survivors(previous.contacts@, contacts@.take(at as int)),
        decreases contacts@.len() - at,
    {
        assert(contacts@.take(at + 1).drop_last() =~= contacts@.take(at as int));
        let contact = contacts[at];
        if find_target(&previous.contacts, contact.id).is_some() {
            surviving.push(contact);
        } else {
            landing = landing + 1;
        }
        at = at + 1;
    }
    assert(contacts@.take(at as int) =~= contacts@);
    let mut reports: Vec<(Vec<InputEvent>, TouchpadState)> = Vec::new();
    if landing <= MAX_TOUCHPAD_CONTACTS - previous.contacts.len() {
        reports.push(plan_touchpad_report(previous, contacts));
        return Ok(reports);
    }
    proof {
        survivors_ordered(previous.contacts@, contacts@);
        survivors_do_not_land(previous.contacts@, surviving@, surviving@.len());
    }
    let (release_events, released) = plan_touchpad_report(previous, &surviving);
    proof {
        released_makes_room(*previous, released, contacts@);
    }
    let landed = plan_touchpad_report(&released, contacts);
    reports.push((release_events, released));
    reports.push(landed);
    Ok(reports)
}

} // verus!
