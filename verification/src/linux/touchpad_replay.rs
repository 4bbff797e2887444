//! What a reader of the virtual touchpad sees: replaying the planned events on
//! the kernel's multitouch slots ends in exactly the planned contacts.
use vstd::prelude::*;

use super::evdev::{
    InputEvent, ABS_MT_POSITION_X, ABS_MT_POSITION_Y, ABS_MT_SLOT, ABS_MT_TRACKING_ID,
};
use super::touchpad::{
    absolute, are_reports_for, assignment_invariant, contact_events, contacts_wf, entry_events,
    following_tracking_id, has_entry, is_report_for, key_event, landings_fit, lift_events,
    lowest_slot, planned_contacts_wf,
    primary_events, released_makes_room, scaled_x, scaled_y, slots_distinct, survivors,
    survivors_do_not_land, survivors_ordered, target_of, target_of_entry, targets_in_range,
    tool_events, tool_key, touch_key_events, TargetContact, TouchEntry, TouchpadState,
};
use crate::capture::MAX_TOUCHPAD_CONTACTS;
use crate::input::{ordered_by_id, TouchContact};

verus! {

/// One multitouch slot as the kernel keeps it.
pub struct PadSlot {
    pub tracking: Option<int>,
    pub x: int,
    pub y: int,
}

/// The kernel's multitouch slots and the slot that updates apply to.
pub struct Pad {
    pub current: int,
    pub slots: Seq<PadSlot>,
}

/// Effect of one event on the multitouch slots, by the kernel's numbers: slot,
/// tracking id, and position across and down.
pub open spec fn replay_event(pad: Pad, event: InputEvent) -> Pad {
    let slot = pad.slots[pad.current];
    let value = event.value as int;
    if event.kind != 3 {
        pad
    } else if event.code == 0x2f {
        Pad { current: value, ..pad }
    } else if event.code == 0x39 {
        let tracking = if value < 0 {
            None
        } else {
            Some(value)
        };
        Pad { slots: pad.slots.update(pad.current, PadSlot { tracking, ..slot }), ..pad }
    } else if event.code == 0x35 {
        Pad { slots: pad.slots.update(pad.current, PadSlot { x: value, ..slot }), ..pad }
    } else if event.code == 0x36 {
        Pad { slots: pad.slots.update(pad.current, PadSlot { y: value, ..slot }), ..pad }
    } else {
        pad
    }
}

pub open spec fn replay(pad: Pad, events: Seq<InputEvent>) -> Pad
    decreases events.len(),
{
    if events.len() == 0 {
        pad
    } else {
        replay_event(replay(pad, events.drop_last()), events.last())
    }
}

pub open spec fn shows_target(pad: Pad, target: TargetContact) -> bool {
    pad.slots[target.slot as int] == (PadSlot {
        tracking: Some(target.tracking_id as int),
        x: target.x as int,
        y: target.y as int,
    })
}

pub open spec fn slot_taken(contacts: Seq<TouchEntry>, slot: int) -> bool {
    exists|i: int| 0 <= i < contacts.len() && (#[trigger] contacts[i]).target.slot == slot
}

/// The slots hold exactly `contacts`: each in its slot, every other slot empty.
pub open spec fn shows(pad: Pad, contacts: Seq<TouchEntry>) -> bool {
    &&& pad.slots.len() == MAX_TOUCHPAD_CONTACTS
    &&& forall|i: int|
        0 <= i < contacts.len() ==> shows_target(pad, (#[trigger] contacts[i]).target)
    &&& forall|slot: int|
        0 <= slot < MAX_TOUCHPAD_CONTACTS && !slot_taken(contacts, slot) ==> (
        #[trigger] pad.slots[slot]).tracking is None
}

proof fn replay_push(pad: Pad, events: Seq<InputEvent>, event: InputEvent)
    ensures
        replay(pad, events.push(event)) == replay_event(replay(pad, events), event),
{
    assert(events.push(event).drop_last() =~= events);
}

proof fn lifts_clear_their_slots(
    pad: Pad,
    previous: Seq<TouchEntry>,
    next: Seq<TouchEntry>,
    count: nat,
)
    requires
        pad.slots.len() == MAX_TOUCHPAD_CONTACTS,
        slots_distinct(previous),
        targets_in_range(previous),
        count <= previous.len(),
    ensures
        ({
            let after = replay(pad, lift_events(previous, next, count));
            &&& after.slots.len() == MAX_TOUCHPAD_CONTACTS
            &&& forall|k: int|
                0 <= k < previous.len() ==> if k < count && !has_entry(
                    next,
                    (#[trigger] previous[k]).id,
                ) {
                    after.slots[previous[k].target.slot as int].tracking is None
                } else {
                    after.slots[previous[k].target.slot as int]
                        == pad.slots[previous[k].target.slot as int]
                }
            &&& forall|slot: int|
                0 <= slot < MAX_TOUCHPAD_CONTACTS && !slot_taken(previous, slot)
                    ==> #[trigger] after.slots[slot] == pad.slots[slot]
        }),
    decreases count,
{
    if count > 0 {
        let earlier = (count - 1) as nat;
        lifts_clear_their_slots(pad, previous, next, earlier);
        let events = lift_events(previous, next, earlier);
        let entry = previous[count - 1];
        if !has_entry(next, entry.id) {
            let select = absolute(ABS_MT_SLOT, entry.target.slot as int);
            let lift = absolute(ABS_MT_TRACKING_ID, -1);
            replay_push(pad, events, select);
            replay_push(pad, events.push(select), lift);
            let after = replay(pad, lift_events(previous, next, count));
            assert forall|k: int| 0 <= k < previous.len() implies if k < count && !has_entry(
                next,
                (#[trigger] previous[k]).id,
            ) {
                after.slots[previous[k].target.slot as int].tracking is None
            } else {
                after.slots[previous[k].target.slot as int]
                    == pad.slots[previous[k].target.slot as int]
            } by {
                if k < count - 1 {
                    assert(previous[k].target.slot != previous[count - 1].target.slot);
                } else if k > count - 1 {
                    assert(previous[count - 1].target.slot != previous[k].target.slot);
                }
            }
            assert forall|slot: int|
                0 <= slot < MAX_TOUCHPAD_CONTACTS && !slot_taken(
                    previous,
                    slot,
                ) implies #[trigger] after.slots[slot] == pad.slots[slot] by {
                assert(previous[count - 1].target.slot != slot);
            }
        }
    }
}

/// Kept contacts stay in their slot, landed ones avoid every previous slot.
pub open spec fn slots_carried_over(previous: Seq<TouchEntry>, next: Seq<TouchEntry>) -> bool {
    forall|i: int|
        0 <= i < next.len() ==> match target_of(previous, (#[trigger] next[i]).id) {
            Some(known) => next[i].target.slot == known.slot && next[i].target.tracking_id
                == known.tracking_id,
            None => !slot_taken(previous, next[i].target.slot as int),
        }
}

proof fn changes_show_their_contacts(
    pad: Pad,
    previous: Seq<TouchEntry>,
    next: Seq<TouchEntry>,
    count: nat,
)
    requires
        shows(pad, previous),
        contacts_wf(previous),
        contacts_wf(next),
        slots_carried_over(previous, next),
        count <= next.len(),
    ensures
        ({
            let lifted = replay(pad, lift_events(previous, next, previous.len()));
            let after = replay(pad, contact_events(previous, next, count));
            &&& after.slots.len() == MAX_TOUCHPAD_CONTACTS
            &&& forall|j: int|
                0 <= j < count ==> shows_target(after, (#[trigger] next[j]).target)
            &&& forall|slot: int|
                #![trigger after.slots[slot]]
                0 <= slot < MAX_TOUCHPAD_CONTACTS && (forall|j: int|
                    0 <= j < count ==> (#[trigger] next[j]).target.slot != slot)
                    ==> after.slots[slot] == lifted.slots[slot]
        }),
    decreases count,
{
    let lifted = replay(pad, lift_events(previous, next, previous.len()));
    lifts_clear_their_slots(pad, previous, next, previous.len());
    if count > 0 {
        let earlier = (count - 1) as nat;
        changes_show_their_contacts(pad, previous, next, earlier);
        let events = contact_events(previous, next, earlier);
        let before = replay(pad, events);
        let entry = next[count - 1];
        let known = target_of(previous, entry.id);
        let slot = entry.target.slot as int;
        assert forall|j: int| 0 <= j < earlier implies (#[trigger] next[j]).target.slot != slot by {
            assert(next[j].target.slot != next[count - 1].target.slot);
        }
        assert(before.slots[slot] == lifted.slots[slot]);
        if known is Some {
            let k = choose|k: int|
                0 <= k < previous.len() && (#[trigger] previous[k]).id == entry.id;
            target_of_entry(previous, k);
            assert(next[count - 1].id == previous[k].id);
            assert(has_entry(next, previous[k].id));
            assert(shows_target(pad, previous[k].target));
        }
        let after = replay(pad, contact_events(previous, next, count));
        if known != Some(entry.target) {
            let select = events.push(absolute(ABS_MT_SLOT, slot));
            replay_push(pad, events, absolute(ABS_MT_SLOT, slot));
            let followed = if known is None {
                select.push(absolute(ABS_MT_TRACKING_ID, entry.target.tracking_id as int))
            } else {
                select
            };
            replay_push(pad, select, absolute(ABS_MT_TRACKING_ID, entry.target.tracking_id as int));
            let placed = if known is None || known->0.x != entry.target.x {
                followed.push(absolute(ABS_MT_POSITION_X, entry.target.x as int))
            } else {
                followed
            };
            replay_push(pad, followed, absolute(ABS_MT_POSITION_X, entry.target.x as int));
            replay_push(pad, placed, absolute(ABS_MT_POSITION_Y, entry.target.y as int));
            assert(contact_events(previous, next, count) == entry_events(
                events,
                known,
                entry.target,
            ));
        }
        assert(shows_target(after, entry.target));
        assert(forall|s: int|
            0 <= s < MAX_TOUCHPAD_CONTACTS && s != slot ==> #[trigger] after.slots[s]
                == before.slots[s]);
        assert forall|j: int| 0 <= j < count implies shows_target(
            after,
            (#[trigger] next[j]).target,
        ) by {
            if j < earlier {
                assert(shows_target(before, next[j].target));
            }
        }
        assert forall|s: int|
            #![trigger after.slots[s]]
            0 <= s < MAX_TOUCHPAD_CONTACTS && (forall|j: int|
                0 <= j < count ==> (#[trigger] next[j]).target.slot != s) implies after.slots[s]
            == lifted.slots[s] by {
            assert(next[count - 1].target.slot != s);
            assert(before.slots[s] == lifted.slots[s]);
        }
    }
}

/// Finger-count, touch and single-touch events leave the slots alone.
proof fn closing_events_keep_slots(
    pad: Pad,
    events: Seq<InputEvent>,
    known: int,
    current: int,
    contacts: Seq<TouchEntry>,
)
    ensures
        replay(
            pad,
            primary_events(
                touch_key_events(tool_events(events, known, current), known, current),
                contacts,
            ),
        ).slots == replay(pad, events).slots,
{
    let released = match super::touchpad::tool_key(known) {
        Some(key) => events.push(key_event(key, false)),
        None => events,
    };
    if let Some(key) = super::touchpad::tool_key(known) {
        replay_push(pad, events, key_event(key, false));
    }
    if let Some(key) = super::touchpad::tool_key(current) {
        replay_push(pad, released, key_event(key, true));
    }
    let tools = tool_events(events, known, current);
    assert(replay(pad, tools).slots == replay(pad, events).slots);
    replay_push(pad, tools, key_event(super::evdev::BTN_TOUCH, current != 0));
    let touched = touch_key_events(tools, known, current);
    assert(replay(pad, touched).slots == replay(pad, events).slots);
    if contacts.len() > 0 {
        let primary = contacts[super::touchpad::lowest_slot(contacts, contacts.len())].target;
        let x = absolute(super::evdev::ABS_X, primary.x as int);
        replay_push(pad, touched, x);
        replay_push(pad, touched.push(x), absolute(super::evdev::ABS_Y, primary.y as int));
    }
}

/// Replaying a report on slots that show the previous contacts ends in slots
/// that show exactly the planned contacts.
pub proof fn report_shows_its_state(
    pad: Pad,
    previous: TouchpadState,
    touch: Seq<TouchContact>,
    events: Seq<InputEvent>,
    next: TouchpadState,
)
    requires
        previous.wf(),
        ordered_by_id(touch),
        landings_fit(previous.contacts@, touch),
        is_report_for(previous, touch, events, next),
        shows(pad, previous.contacts@),
    ensures
        shows(replay(pad, events), next.contacts@),
{
    let earlier = previous.contacts@;
    let planned = next.contacts@;
    planned_contacts_wf(previous, touch);
    assignment_invariant(earlier, previous.next_tracking_id as int, touch, touch.len());
    assert forall|i: int| 0 <= i < planned.len() implies match target_of(
        earlier,
        (#[trigger] planned[i]).id,
    ) {
        Some(known) => planned[i].target.slot == known.slot && planned[i].target.tracking_id
            == known.tracking_id,
        None => !slot_taken(earlier, planned[i].target.slot as int),
    } by {}
    let pad_after = replay(pad, events);
    if planned != earlier {
        lifts_clear_their_slots(pad, earlier, planned, earlier.len());
        changes_show_their_contacts(pad, earlier, planned, planned.len());
        closing_events_keep_slots(
            pad,
            contact_events(earlier, planned, planned.len()),
            earlier.len() as int,
            planned.len() as int,
            planned,
        );
        let lifted = replay(pad, lift_events(earlier, planned, earlier.len()));
        assert forall|slot: int|
            0 <= slot < MAX_TOUCHPAD_CONTACTS && !slot_taken(planned, slot) implies (
        #[trigger] pad_after.slots[slot]).tracking is None by {
            assert(pad_after.slots[slot] == lifted.slots[slot]);
            if slot_taken(earlier, slot) {
                let k = choose|k: int|
                    0 <= k < earlier.len() && (#[trigger] earlier[k]).target.slot == slot;
                if has_entry(planned, earlier[k].id) {
                    let j = choose|j: int|
                        0 <= j < planned.len() && (#[trigger] planned[j]).id == earlier[k].id;
                    target_of_entry(earlier, k);
                    assert(planned[j].target.slot == slot);
                }
            } else {
                assert(pad.slots[slot].tracking is None);
            }
        }
        assert forall|i: int| 0 <= i < planned.len() implies shows_target(
            pad_after,
            (#[trigger] planned[i]).target,
        ) by {}
    }
}

/// The planned contacts are the contacts of the touch state, scaled. A contact
/// that stays down keeps its slot and tracking id; one that lands takes a slot
/// that no previous contact occupied.
pub proof fn planned_state_matches_touch(
    previous: TouchpadState,
    touch: Seq<TouchContact>,
    events: Seq<InputEvent>,
    next: TouchpadState,
)
    requires
        previous.wf(),
        ordered_by_id(touch),
        landings_fit(previous.contacts@, touch),
        is_report_for(previous, touch, events, next),
    ensures
        next.wf(),
        next.contacts@.len() == touch.len(),
        forall|i: int|
            0 <= i < touch.len() ==> (#[trigger] next.contacts@[i]).id == touch[i].id
                && next.contacts@[i].target.x == scaled_x(touch[i])
                && next.contacts@[i].target.y == scaled_y(touch[i]),
        slots_carried_over(previous.contacts@, next.contacts@),
{
    planned_contacts_wf(previous, touch);
    assignment_invariant(
        previous.contacts@,
        previous.next_tracking_id as int,
        touch,
        touch.len(),
    );
}

/// All events of some reports, one after the other.
pub open spec fn all_events(reports: Seq<(Vec<InputEvent>, TouchpadState)>) -> Seq<InputEvent>
    decreases reports.len(),
{
    if reports.len() == 0 {
        Seq::empty()
    } else {
        all_events(reports.drop_last()) + reports.last().0@
    }
}

proof fn replay_sum(pad: Pad, first: Seq<InputEvent>, second: Seq<InputEvent>)
    ensures
        replay(pad, first + second) == replay(replay(pad, first), second),
    decreases second.len(),
{
    let whole = first + second;
    if second.len() == 0 {
        assert(whole =~= first);
    } else {
        replay_sum(pad, first, second.drop_last());
        assert(whole.drop_last() =~= first + second.drop_last());
        assert(whole.last() == second.last());
    }
}

/// A reader of the virtual touchpad ends up with exactly the contacts of the
/// touch state: every planned report replayed in order shows them, each at its
/// scaled place, and nothing else.
pub proof fn reports_show_the_touch_state(
    pad: Pad,
    previous: TouchpadState,
    touch: Seq<TouchContact>,
    reports: Seq<(Vec<InputEvent>, TouchpadState)>,
)
    requires
        previous.wf(),
        ordered_by_id(touch),
        touch.len() <= MAX_TOUCHPAD_CONTACTS,
        are_reports_for(previous, touch, reports),
        shows(pad, previous.contacts@),
    ensures
        ({
            let next = reports.last().1;
            &&& shows(replay(pad, all_events(reports)), next.contacts@)
            &&& next.wf()
            &&& next.contacts@.len() == touch.len()
            &&& forall|i: int|
                0 <= i < touch.len() ==> (#[trigger] next.contacts@[i]).id == touch[i].id
                    && next.contacts@[i].target.x == scaled_x(touch[i])
                    && next.contacts@[i].target.y == scaled_y(touch[i])
        }),
{
    let known = previous.contacts@;
    assert(all_events(Seq::empty()) =~= Seq::empty());
    if landings_fit(known, touch) {
        let events = reports[0].0@;
        assert(reports.drop_last() =~= Seq::empty());
        assert(all_events(reports) =~= events);
        report_shows_its_state(pad, previous, touch, events, reports[0].1);
        planned_state_matches_touch(previous, touch, events, reports[0].1);
    } else {
        let staying = survivors(known, touch);
        let released = reports[0].1;
        let first = reports[0].0@;
        let second = reports[1].0@;
        survivors_ordered(known, touch);
        survivors_do_not_land(known, staying, staying.len());
        report_shows_its_state(pad, previous, staying, first, released);
        planned_state_matches_touch(previous, staying, first, released);
        released_makes_room(previous, released, touch);
        let lifted = replay(pad, first);
        report_shows_its_state(lifted, released, touch, second, reports[1].1);
        planned_state_matches_touch(released, touch, second, reports[1].1);
        assert(reports.drop_last() =~= seq![reports[0]]);
        assert(seq![reports[0]].drop_last() =~= Seq::empty());
        assert(all_events(reports.drop_last()) =~= first);
        assert(all_events(reports) =~= first + second);
        replay_sum(pad, first, second);
    }
}

/// Keys that are down after events, by the kernel's numbers.
pub open spec fn keys_down(down: Set<u16>, events: Seq<InputEvent>) -> Set<u16>
    decreases events.len(),
{
    if events.len() == 0 {
        down
    } else {
        let before = keys_down(down, events.drop_last());
        let last = events.last();
        if last.kind != 1 {
            before
        } else if last.value == 0 {
            before.remove(last.code)
        } else {
            before.insert(last.code)
        }
    }
}

/// What a touchpad holds down for a number of fingers: that something touches, and
/// one key for one, two, three, or four and more of them.
pub open spec fn finger_keys(count: int) -> Set<u16> {
    if count <= 0 {
        Set::empty()
    } else if count == 1 {
        set![0x14au16, 0x145]
    } else if count == 2 {
        set![0x14au16, 0x14d]
    } else if count == 3 {
        set![0x14au16, 0x14e]
    } else {
        set![0x14au16, 0x14f]
    }
}

/// The last place that events report for the whole pad, across and down.
pub open spec fn single_place(events: Seq<InputEvent>) -> (Option<int>, Option<int>)
    decreases events.len(),
{
    if events.len() == 0 {
        (None, None)
    } else {
        let (x, y) = single_place(events.drop_last());
        let last = events.last();
        if last.kind == 3 && last.code == 0 {
            (Some(last.value as int), y)
        } else if last.kind == 3 && last.code == 1 {
            (x, Some(last.value as int))
        } else {
            (x, y)
        }
    }
}

proof fn slot_event_presses_nothing(down: Set<u16>, events: Seq<InputEvent>, axis: u16, value: int)
    requires
        axis == ABS_MT_SLOT || axis == ABS_MT_TRACKING_ID || axis == ABS_MT_POSITION_X || axis
            == ABS_MT_POSITION_Y,
    ensures
        keys_down(down, events.push(absolute(axis, value))) == keys_down(down, events),
        single_place(events.push(absolute(axis, value))) == single_place(events),
{
    assert(events.push(absolute(axis, value)).drop_last() =~= events);
}

proof fn key_event_presses_its_key(
    down: Set<u16>,
    events: Seq<InputEvent>,
    key: u16,
    pressed: bool,
)
    ensures
        keys_down(down, events.push(key_event(key, pressed))) == if pressed {
            keys_down(down, events).insert(key)
        } else {
            keys_down(down, events).remove(key)
        },
        single_place(events.push(key_event(key, pressed))) == single_place(events),
{
    assert(events.push(key_event(key, pressed)).drop_last() =~= events);
}

proof fn lifts_press_nothing(
    down: Set<u16>,
    previous: Seq<TouchEntry>,
    next: Seq<TouchEntry>,
    count: nat,
)
    ensures
        keys_down(down, lift_events(previous, next, count)) == down,
        single_place(lift_events(previous, next, count)) == (None::<int>, None::<int>),
    decreases count,
{
    if count > 0 {
        let earlier = (count - 1) as nat;
        lifts_press_nothing(down, previous, next, earlier);
        let events = lift_events(previous, next, earlier);
        let slot = previous[count - 1].target.slot as int;
        slot_event_presses_nothing(down, events, ABS_MT_SLOT, slot);
        slot_event_presses_nothing(
            down,
            events.push(absolute(ABS_MT_SLOT, slot)),
            ABS_MT_TRACKING_ID,
            -1,
        );
    }
}

proof fn contacts_press_nothing(
    down: Set<u16>,
    previous: Seq<TouchEntry>,
    next: Seq<TouchEntry>,
    count: nat,
)
    ensures
        keys_down(down, contact_events(previous, next, count)) == down,
        single_place(contact_events(previous, next, count)) == (None::<int>, None::<int>),
    decreases count,
{
    if count == 0 {
        lifts_press_nothing(down, previous, next, previous.len());
    } else {
        contacts_press_nothing(down, previous, next, (count - 1) as nat);
        let events = contact_events(previous, next, (count - 1) as nat);
        let entry = next[count - 1];
        let known = target_of(previous, entry.id);
        let select = events.push(absolute(ABS_MT_SLOT, entry.target.slot as int));
        let followed = if known is None {
            select.push(absolute(ABS_MT_TRACKING_ID, entry.target.tracking_id as int))
        } else {
            select
        };
        let placed = if known is None || known->0.x != entry.target.x {
            followed.push(absolute(ABS_MT_POSITION_X, entry.target.x as int))
        } else {
            followed
        };
        slot_event_presses_nothing(down, events, ABS_MT_SLOT, entry.target.slot as int);
        slot_event_presses_nothing(
            down,
            select,
            ABS_MT_TRACKING_ID,
            entry.target.tracking_id as int,
        );
        slot_event_presses_nothing(down, followed, ABS_MT_POSITION_X, entry.target.x as int);
        slot_event_presses_nothing(down, placed, ABS_MT_POSITION_Y, entry.target.y as int);
    }
}

proof fn lowest_slot_is_lowest(contacts: Seq<TouchEntry>, count: nat, other: int)
    requires
        0 < count <= contacts.len(),
        0 <= other < count,
    ensures
        0 <= lowest_slot(contacts, count) < count,
        contacts[lowest_slot(contacts, count)].target.slot <= contacts[other].target.slot,
    decreases count,
{
    if count > 1 {
        let before = (count - 1) as nat;
        lowest_slot_is_lowest(contacts, before, if other < before {
            other
        } else {
            0
        });
    }
}

/// After a report the pad holds down what belongs to the number of its contacts,
/// and shows the one in the lowest slot as the place of the whole pad.
pub proof fn reports_show_the_number_of_fingers(
    previous: TouchpadState,
    touch: Seq<TouchContact>,
    events: Seq<InputEvent>,
    next: TouchpadState,
    other: int,
)
    requires
        is_report_for(previous, touch, events, next),
    ensures
        keys_down(finger_keys(previous.contacts@.len() as int), events) == finger_keys(
            next.contacts@.len() as int,
        ),
        next.contacts@ != previous.contacts@ && next.contacts@.len() > 0 ==> exists|i: int|
            {
                &&& 0 <= i < next.contacts@.len()
                &&& single_place(events) == (
                    Some(next.contacts@[i].target.x as int),
                    Some((#[trigger] next.contacts@[i]).target.y as int),
                )
                &&& 0 <= other < next.contacts@.len() ==> next.contacts@[i].target.slot
                    <= next.contacts@[other].target.slot
            },
{
    let earlier = previous.contacts@;
    let planned = next.contacts@;
    let old_count = earlier.len() as int;
    let new_count = planned.len() as int;
    let down = finger_keys(old_count);
    if planned != earlier {
        let moved = contact_events(earlier, planned, planned.len());
        contacts_press_nothing(down, earlier, planned, planned.len());
        let released = match tool_key(old_count) {
            Some(key) => moved.push(key_event(key, false)),
            None => moved,
        };
        if let Some(key) = tool_key(old_count) {
            key_event_presses_its_key(down, moved, key, false);
        }
        if let Some(key) = tool_key(new_count) {
            key_event_presses_its_key(down, released, key, true);
        }
        let tools = tool_events(moved, old_count, new_count);
        key_event_presses_its_key(down, tools, super::evdev::BTN_TOUCH, new_count != 0);
        let touched = touch_key_events(tools, old_count, new_count);
        assert(keys_down(down, touched) =~= finger_keys(new_count));
        assert(single_place(touched) == (None::<int>, None::<int>));
        if new_count > 0 {
            let first = lowest_slot(planned, planned.len());
            lowest_slot_is_lowest(planned, planned.len(), 0);
            if 0 <= other < new_count {
                lowest_slot_is_lowest(planned, planned.len(), other);
            }
            let primary = planned[first].target;
            let x = absolute(super::evdev::ABS_X, primary.x as int);
            let y = absolute(super::evdev::ABS_Y, primary.y as int);
            let across = touched.push(x);
            let down_too = across.push(y);
            assert(across.drop_last() =~= touched);
            assert(down_too.drop_last() =~= across);
            assert(single_place(across) == (Some(primary.x as int), None::<int>));
            assert(single_place(down_too) == (Some(primary.x as int), Some(primary.y as int)));
            assert(keys_down(down, across) == keys_down(down, touched));
            assert(keys_down(down, down_too) == keys_down(down, touched));
            assert(events == down_too);
            assert(single_place(events) == (Some(primary.x as int), Some(primary.y as int)));
            assert(0 <= first < planned.len() && planned[first].target == primary);
        }
    } else {
        assert(events =~= Seq::empty());
    }
}

/// A finger that lands is never taken for the one that landed before it.
pub proof fn tracking_ids_go_on(id: int)
    requires
        1 <= id <= 65_535,
    ensures
        1 <= following_tracking_id(id) <= 65_535,
        following_tracking_id(id) != id,
        id < 65_535 ==> following_tracking_id(id) == id + 1,
{
}

} // verus!
