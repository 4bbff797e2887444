//! Platform-neutral input vocabulary: usages, buttons, motion and touch.
use vstd::prelude::*;

verus! {

/// USB HID usage page number.
#[derive(Clone, Copy, Debug, PartialEq, Eq, Structural)]
pub struct HidUsagePage(pub u16);

/// Usage page of ordinary keyboard and keypad keys.
pub const KEYBOARD_PAGE: u16 = 0x07;

/// Usage page of media and other consumer controls.
pub const CONSUMER_PAGE: u16 = 0x0c;

/// One USB HID usage: a page and a usage number within it.
#[derive(Clone, Copy, Debug, PartialEq, Eq, Structural)]
pub struct HidUsage {
    pub page: HidUsagePage,
    pub usage: u16,
}

impl HidUsage {
    pub fn new(page: HidUsagePage, usage: u16) -> (result: Self)
        ensures
            result.page == page,
            result.usage == usage,
    {
        HidUsage { page, usage }
    }

    pub fn keyboard(usage: u16) -> (result: Self)
        ensures
            result == keyboard_usage(usage),
    {
        HidUsage { page: HidUsagePage(KEYBOARD_PAGE), usage }
    }

    pub fn consumer(usage: u16) -> (result: Self)
        ensures
            result == consumer_usage(usage),
    {
        HidUsage { page: HidUsagePage(CONSUMER_PAGE), usage }
    }
}

pub open spec fn keyboard_usage(usage: u16) -> HidUsage {
    HidUsage { page: HidUsagePage(KEYBOARD_PAGE), usage }
}

pub open spec fn consumer_usage(usage: u16) -> HidUsage {
    HidUsage { page: HidUsagePage(CONSUMER_PAGE), usage }
}

/// Pointer button, numbered from one (left).
#[derive(Clone, Copy, Debug, PartialEq, Eq, Structural)]
pub struct PointerButton(pub u16);

#[derive(Clone, Copy, Debug, PartialEq, Eq, Structural)]
pub enum Modifier {
    LeftControl,
    LeftShift,
    LeftAlt,
    LeftMeta,
    RightControl,
    RightShift,
    RightAlt,
    RightMeta,
}

impl Modifier {
    /// Position in the HID modifier block.
    pub open spec fn index(self) -> int {
        match self {
            Modifier::LeftControl => 0,
            Modifier::LeftShift => 1,
            Modifier::LeftAlt => 2,
            Modifier::LeftMeta => 3,
            Modifier::RightControl => 4,
            Modifier::RightShift => 5,
            Modifier::RightAlt => 6,
            Modifier::RightMeta => 7,
        }
    }
}

/// Relative pointer and scroll movement accumulated over one frame.
#[derive(Clone, Copy, Debug, PartialEq, Eq, Structural)]
pub struct MotionDelta {
    pub dx: i64,
    pub dy: i64,
    pub scroll_x: i64,
    pub scroll_y: i64,
}

impl MotionDelta {
    pub open spec fn zero() -> MotionDelta {
        MotionDelta { dx: 0, dy: 0, scroll_x: 0, scroll_y: 0 }
    }
}

impl Default for MotionDelta {
    fn default() -> (result: Self)
        ensures
            result == MotionDelta::zero(),
    {
        MotionDelta { dx: 0, dy: 0, scroll_x: 0, scroll_y: 0 }
    }
}

/// Identity of one touch contact, unique among simultaneously active contacts.
#[derive(Clone, Copy, Debug, PartialEq, Eq, Structural)]
pub struct ContactId(pub u32);

/// Size of the surface on which a contact was measured.
#[derive(Clone, Copy, Debug, PartialEq, Eq, Structural)]
pub struct SourceDimensions {
    pub width: u32,
    pub height: u32,
}

#[derive(Clone, Copy, Debug, PartialEq, Eq, Structural)]
pub enum TouchTool {
    Finger,
    Pen,
    Palm,
}

#[derive(Clone, Copy, Debug, PartialEq, Eq, Structural)]
pub struct TouchContact {
    pub id: ContactId,
    pub x: i32,
    pub y: i32,
    pub pressure: Option<u32>,
    pub major: Option<u32>,
    pub minor: Option<u32>,
    pub orientation_millidegrees: Option<i32>,
    pub tool: TouchTool,
    pub source_dimensions: Option<SourceDimensions>,
}

/// A complete set of active contacts, ordered by contact id.
#[derive(Clone, Debug, PartialEq, Eq)]
pub struct TouchState {
    contacts: Vec<TouchContact>,
}

/// Contact ids increase strictly, so no id occurs twice.
pub open spec fn ordered_by_id(contacts: Seq<TouchContact>) -> bool {
    forall|i: int, j: int|
        0 <= i < j < contacts.len() ==> (#[trigger] contacts[i]).id.0 < (
        #[trigger] contacts[j]).id.0
}

pub open spec fn has_contact(contacts: Seq<TouchContact>, id: ContactId) -> bool {
    exists|i: int| 0 <= i < contacts.len() && (#[trigger] contacts[i]).id == id
}

pub open spec fn distinct_ids(contacts: Seq<TouchContact>) -> bool {
    forall|i: int, j: int|
        0 <= i < j < contacts.len() ==> (#[trigger] contacts[i]).id != (#[trigger] contacts[j]).id
}

/// `id` belongs to the first contact whose id was already used before it.
pub open spec fn first_repeated_id(contacts: Seq<TouchContact>, id: ContactId) -> bool {
    exists|j: int|
        0 <= j < contacts.len() && (#[trigger] contacts[j]).id == id && has_contact(
            contacts.take(j),
            id,
        ) && distinct_ids(contacts.take(j))
}

impl View for TouchState {
    type V = Seq<TouchContact>;

    closed spec fn view(&self) -> Seq<TouchContact> {
        self.contacts@
    }
}

impl TouchState {
    pub open spec fn wf(&self) -> bool {
        ordered_by_id(self@)
    }

    /// Collects contacts into one state; a repeated id is handed back.
    pub fn new(contacts: Vec<TouchContact>) -> (result: Result<TouchState, ContactId>)
        ensures
            result is Ok <==> distinct_ids(contacts@),
            result matches Ok(state) ==> state.wf() && state@.to_multiset()
                == contacts@.to_multiset(),
            result matches Err(id) ==> first_repeated_id(contacts@, id),
    {
        let mut sorted: Vec<TouchContact> = Vec::new();
        let mut next: usize = 0;
        assert(sorted@ =~= contacts@.take(0));
        while next < contacts.len()
            invariant
                next <= contacts@.len(),
                ordered_by_id(sorted@),
                sorted@.to_multiset() == contacts@.take(next as int).to_multiset(),
                distinct_ids(contacts@.take(next as int)),
                forall|id: ContactId| #[trigger]
                    has_contact(sorted@, id) == has_contact(contacts@.take(next as int), id),
            decreases contacts.len() - next,
        {
            let contact = contacts[next];
            let mut at: usize = 0;
            while at < sorted.len() && sorted[at].id.0 < contact.id.0
                invariant
                    at <= sorted@.len(),
                    forall|i: int| 0 <= i < at ==> (#[trigger] sorted@[i]).id.0 < contact.id.0,
                decreases sorted.len() - at,
            {
                at = at + 1;
            }
            let ghost before = contacts@.take(next as int);
            let ghost after = contacts@.take(next + 1);
            assert(after =~= before.push(contact));
            if at < sorted.len() && sorted[at].id.0 == contact.id.0 {
                assert(has_contact(sorted@, contact.id));
                assert(has_contact(before, contact.id));
                proof {
                    let k = choose|k: int|
                        0 <= k < before.len() && (#[trigger] before[k]).id == contact.id;
                    assert(contacts@[k].id == contacts@[next as int].id);
                }
                return Err(contact.id);
            }
            assert(!has_contact(sorted@, contact.id)) by {
                if has_contact(sorted@, contact.id) {
                    let k = choose|k: int|
                        0 <= k < sorted@.len() && (#[trigger] sorted@[k]).id == contact.id;
                    assert(sorted@[k].id.0 == contact.id.0);
                    if k > at {
                        assert(sorted@[at as int].id.0 < sorted@[k].id.0);
                    }
                }
            }
            assert(!has_contact(before, contact.id));
            let ghost previous = sorted@;
            sorted.insert(at, contact);
            proof {
                assert(sorted@ =~= previous.insert(at as int, contact));
                assert(sorted@.to_multiset() =~= previous.to_multiset().insert(contact)) by {
                    sorted@.to_multiset_ensures();
                    assert(sorted@.remove(at as int) =~= previous);
                    assert(sorted@[at as int] == contact);
                }
                before.to_multiset_ensures();
                assert forall|id: ContactId| #[trigger]
                    has_contact(sorted@, id) == has_contact(after, id) by {
                    if has_contact(previous, id) {
                        let k = choose|k: int|
                            0 <= k < previous.len() && (#[trigger] previous[k]).id == id;
                        if k < at {
                            assert(sorted@[k].id == id);
                        } else {
                            assert(sorted@[k + 1].id == id);
                        }
                        let m = choose|m: int|
                            0 <= m < before.len() && (#[trigger] before[m]).id == id;
                        assert(after[m].id == id);
                    }
                    if id == contact.id {
                        assert(sorted@[at as int].id == id);
                        assert(after[next as int].id == id);
                    }
                    if has_contact(sorted@, id) && id != contact.id {
                        let k = choose|k: int|
                            0 <= k < sorted@.len() && (#[trigger] sorted@[k]).id == id;
                        if k < at {
                            assert(previous[k].id == id);
                        } else {
                            assert(previous[k - 1].id == id);
                        }
                    }
                    if has_contact(after, id) && id != contact.id {
                        let m = choose|m: int|
                            0 <= m < after.len() && (#[trigger] after[m]).id == id;
                        assert(before[m].id == id);
                    }
                }
                assert forall|i: int, j: int| 0 <= i < j < after.len() implies (
                #[trigger] after[i]).id != (#[trigger] after[j]).id by {
                    if j == next {
                        assert(before[i].id != contact.id);
                    } else {
                        assert(before[i].id != before[j].id);
                    }
                }
            }
            next = next + 1;
        }
        assert(contacts@.take(next as int) =~= contacts@);
        Ok(TouchState { contacts: sorted })
    }

    pub fn len(&self) -> (result: usize)
        ensures
            result == self@.len(),
    {
        self.contacts.len()
    }

    pub fn is_empty(&self) -> (result: bool)
        ensures
            result == (self@.len() == 0),
    {
        self.contacts.len() == 0
    }

    /// Contacts in order of increasing id.
    pub fn contacts(&self) -> (result: &Vec<TouchContact>)
        ensures
            result@ == self@,
    {
        &self.contacts
    }

    pub fn get(&self, id: ContactId) -> (result: Option<TouchContact>)
        ensures
            result is Some <==> has_contact(self@, id),
            result matches Some(contact) ==> contact.id == id && self@.contains(contact),
    {
        let mut at: usize = 0;
        while at < self.contacts.len()
            invariant
                at <= self@.len(),
                forall|i: int| 0 <= i < at ==> (#[trigger] self@[i]).id != id,
            decreases self.contacts.len() - at,
        {
            if self.contacts[at].id.0 == id.0 {
                assert(self@[at as int].id == id);
                return Some(self.contacts[at]);
            }
            at = at + 1;
        }
        None
    }
}

impl Default for TouchState {
    fn default() -> (result: Self)
        ensures
            result@ == Seq::<TouchContact>::empty(),
            result.wf(),
    {
        TouchState { contacts: Vec::new() }
    }
}

} // verus!
