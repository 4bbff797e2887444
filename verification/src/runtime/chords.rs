//! Key chords that move control between computers.
use vstd::prelude::*;

use crate::capture::{CaptureFrame, CaptureTransition, KeyState};
use crate::input::{HidUsage, PointerButton};
use crate::key_names::{linux_codes_have_the_usage_of_their_key, linux_key, usage_of_key};
use crate::linux::evdev::{KeyCode, BTN_LEFT, BTN_TASK};
use crate::linux::mapping::{
    button_of_code, evdev_button_to_pointer, evdev_key_to_hid, hid_of_code, is_button_code,
};
use crate::ordered::OrderedMap;
use crate::paths::{normalized, path_of};
use crate::scan::views;
use crate::session::outbound::{held_by, is_repeat};

verus! {

/// The code that the evdev crate gives a key name such as `KEY_F12`.
pub uninterp spec fn named_key_code(name: Seq<char>) -> Option<u16>;

/// Looks a key name up with `evdev::KeyCode::from_str`, which searches a fixed
/// table of names. The result depends on the name alone; which names the table
/// holds is left to the crate.
#[verifier::external_body]
fn key_code_named(name: &str) -> (result: Option<u16>)
    ensures
        result == named_key_code(name@),
{
    <evdev::KeyCode as std::str::FromStr>::from_str(name).ok().map(|key| key.code())
}

#[derive(Clone, Copy, Debug, PartialEq, Eq, Structural)]
pub enum ChordMember {
    Key(HidUsage),
    Button(PointerButton),
}

#[derive(Clone, Copy, Debug, PartialEq, Eq, Structural)]
pub enum ChordError {
    /// Input chords must not be empty.
    Empty,
    /// A chord names a key that does not exist.
    UnknownKey,
    /// A chord names a key that has no portable meaning.
    UnsupportedKey,
    /// A chord names the same key twice.
    DuplicateKey,
}

/// `kept` has the same members as `members`, except for one.
spec fn is_without(
    kept: Seq<ChordMember>,
    members: Seq<ChordMember>,
    removed: ChordMember,
) -> bool {
    forall|m: ChordMember| #[trigger] kept.contains(m) == (m != removed && members.contains(m))
}

/// A set of keys and buttons.
#[derive(Debug)]
pub struct MemberSet {
    members: Vec<ChordMember>,
}

impl View for MemberSet {
    type V = Set<ChordMember>;

    closed spec fn view(&self) -> Set<ChordMember> {
        self.members@.to_set()
    }
}

impl MemberSet {
    pub closed spec fn listed(&self) -> Seq<ChordMember> {
        self.members@
    }

    pub fn new() -> (result: Self)
        ensures
            result@ == Set::<ChordMember>::empty(),
            result.listed() == Seq::<ChordMember>::empty(),
    {
        let result = MemberSet { members: Vec::new() };
        assert(result@ =~= Set::<ChordMember>::empty());
        result
    }

    fn position(&self, member: ChordMember) -> (result: Option<usize>)
        ensures
            match result {
                Some(at) => at < self.members@.len() && self.members@[at as int] == member,
                None => !self@.contains(member),
            },
            result is Some == self@.contains(member),
    {
        let mut at: usize = 0;
        while at < self.members.len()
            invariant
                at <= self.members@.len(),
                forall|i: int| 0 <= i < at ==> self.members@[i] != member,
            decreases self.members@.len() - at,
        {
            if self.members[at] == member {
                assert(self.members@.contains(member));
                return Some(at);
            }
            at = at + 1;
        }
        None
    }

    pub fn contains(&self, member: ChordMember) -> (result: bool)
        ensures
            result == self@.contains(member),
    {
        self.position(member).is_some()
    }

    /// Adds a member and tells whether it is new.
    pub fn insert(&mut self, member: ChordMember) -> (added: bool)
        ensures
            added == !old(self)@.contains(member),
            final(self)@ == old(self)@.insert(member),
    {
        if self.contains(member) {
            assert(self@ =~= old(self)@.insert(member));
            return false;
        }
        let ghost before = self.members@;
        self.members.push(member);
        assert(self@ =~= old(self)@.insert(member)) by {
            assert forall|m: ChordMember| self@.contains(m) == old(self)@.insert(member).contains(
                m,
            ) by {
                if before.contains(m) {
                    let k = choose|k: int| 0 <= k < before.len() && before[k] == m;
                    assert(self.members@[k] == m);
                }
                if m == member {
                    assert(self.members@[before.len() as int] == m);
                }
            }
        }
        true
    }

    pub fn remove(&mut self, member: ChordMember)
        ensures
            final(self)@ == old(self)@.remove(member),
    {
        let mut kept: Vec<ChordMember> = Vec::new();
        let mut at: usize = 0;
        while at < self.members.len()
            invariant
                at <= self.members@.len(),
                is_without(kept@, self.members@.take(at as int), member),
            decreases self.members@.len() - at,
        {
            let next = self.members[at];
            let ghost before = kept@;
            let ghost shorter = self.members@.take(at as int);
            let ghost longer = self.members@.take(at + 1);
            assert(longer =~= shorter.push(next));
            if next != member {
                kept.push(next);
            }
            assert forall|m: ChordMember| #[trigger] kept@.contains(m) == (m != member
                && longer.contains(m)) by {
                if before.contains(m) {
                    let k = choose|k: int| 0 <= k < before.len() && before[k] == m;
                    assert(kept@[k] == m);
                }
                if shorter.contains(m) {
                    let k = choose|k: int| 0 <= k < shorter.len() && shorter[k] == m;
                    assert(longer[k] == m);
                }
                if m == next {
                    assert(longer[at as int] == m);
                    if m != member {
                        assert(kept@[before.len() as int] == m);
                    }
                }
                if longer.contains(m) && m != next {
                    let k = choose|k: int| 0 <= k < longer.len() && longer[k] == m;
                    assert(shorter[k] == m);
                }
                if kept@.contains(m) && m != next {
                    let k = choose|k: int| 0 <= k < kept@.len() && kept@[k] == m;
                    assert(before[k] == m);
                }
            }
            at = at + 1;
        }
        assert(self.members@.take(at as int) =~= self.members@);
        self.members = kept;
        assert(self@ =~= old(self)@.remove(member));
    }
}

/// What a key code stands for in a chord.
pub open spec fn member_of_code(code: u16) -> Option<ChordMember> {
    if is_button_code(code) {
        Some(ChordMember::Button(button_of_code(code)))
    } else {
        match hid_of_code(code) {
            Some(usage) => Some(ChordMember::Key(usage)),
            None => None,
        }
    }
}

/// Members of a chord so far, or what is wrong with it.
pub open spec fn chord_of(codes: Seq<Option<u16>>) -> Result<Set<ChordMember>, ChordError>
    decreases codes.len(),
{
    if codes.len() == 0 {
        Ok(Set::empty())
    } else {
        match chord_of(codes.drop_last()) {
            Err(error) => Err(error),
            Ok(members) => match codes.last() {
                None => Err(ChordError::UnknownKey),
                Some(code) => match member_of_code(code) {
                    None => Err(ChordError::UnsupportedKey),
                    Some(member) => if members.contains(member) {
                        Err(ChordError::DuplicateKey)
                    } else {
                        Ok(members.insert(member))
                    },
                },
            },
        }
    }
}

pub open spec fn configured_chord(codes: Seq<Option<u16>>) -> Result<
    Set<ChordMember>,
    ChordError,
> {
    if codes.len() == 0 {
        Err(ChordError::Empty)
    } else {
        chord_of(codes)
    }
}

/// Codes that the names of a chord stand for.
pub open spec fn named_codes(names: Seq<Seq<char>>) -> Seq<Option<u16>> {
    Seq::new(names.len(), |i: int| named_key_code(names[i]))
}

/// Keys that have to be down together.
#[derive(Debug)]
pub struct ConfiguredChord {
    members: MemberSet,
}

impl View for ConfiguredChord {
    type V = Set<ChordMember>;

    closed spec fn view(&self) -> Set<ChordMember> {
        self.members@
    }
}

proof fn chord_error_stays(codes: Seq<Option<u16>>, count: int)
    requires
        0 <= count <= codes.len(),
        chord_of(codes.take(count)) is Err,
    ensures
        chord_of(codes) == chord_of(codes.take(count)),
    decreases codes.len() - count,
{
    if count == codes.len() {
        assert(codes.take(count) =~= codes);
    } else {
        assert(codes.take(count + 1).drop_last() =~= codes.take(count));
        chord_error_stays(codes, count + 1);
    }
}

impl ConfiguredChord {
    /// A chord has at least one member.
    pub open spec fn wf(&self) -> bool {
        self@ != Set::<ChordMember>::empty()
    }

    /// Builds a chord from the codes of its keys.
    pub fn from_codes(codes: &Vec<Option<u16>>) -> (result: Result<Self, ChordError>)
        ensures
            match result {
                Ok(chord) => chord.wf() && configured_chord(codes@) == Ok::<
                    Set<ChordMember>,
                    ChordError,
                >(chord@),
                Err(error) => configured_chord(codes@) == Err::<Set<ChordMember>, ChordError>(
                    error,
                ),
            },
    {
        if codes.len() == 0 {
            return Err(ChordError::Empty);
        }
        let mut members = MemberSet::new();
        let mut at: usize = 0;
        assert(codes@.take(0) =~= Seq::empty());
        while at < codes.len()
            invariant
                at <= codes@.len(),
                codes@.len() > 0,
                chord_of(codes@.take(at as int)) == Ok::<Set<ChordMember>, ChordError>(members@),
            decreases codes@.len() - at,
        {
            assert(codes@.take(at + 1).drop_last() =~= codes@.take(at as int));
            let mut failed: Option<ChordError> = None;
            match codes[at] {
                None => {
                    failed = Some(ChordError::UnknownKey);
                },
                Some(code) => {
                    let member = if code >= BTN_LEFT && code <= BTN_TASK {
                        match evdev_button_to_pointer(KeyCode(code)) {
                            Ok(button) => Some(ChordMember::Button(button)),
                            Err(_) => None,
                        }
                    } else {
                        match evdev_key_to_hid(KeyCode(code)) {
                            Ok(usage) => Some(ChordMember::Key(usage)),
                            Err(_) => None,
                        }
                    };
                    assert(member == member_of_code(code));
                    match member {
                        None => {
                            failed = Some(ChordError::UnsupportedKey);
                        },
                        Some(member) => {
                            if !members.insert(member) {
                                failed = Some(ChordError::DuplicateKey);
                            }
                        },
                    }
                },
            }
            if let Some(error) = failed {
                proof {
                    chord_error_stays(codes@, at + 1);
                }
                return Err(error);
            }
            at = at + 1;
        }
        assert(codes@.take(at as int) =~= codes@);
        proof {
            let last = member_of_code(codes@.last()->0)->0;
            assert(members@.contains(last));
        }
        Ok(ConfiguredChord { members })
    }

    /// Reads a chord from key names.
    pub fn parse(names: &Vec<String>) -> (result: Result<Self, ChordError>)
        ensures
            match result {
                Ok(chord) => chord.wf() && configured_chord(named_codes(views(names@))) == Ok::<
                    Set<ChordMember>,
                    ChordError,
                >(chord@),
                Err(error) => configured_chord(named_codes(views(names@))) == Err::<
                    Set<ChordMember>,
                    ChordError,
                >(error),
            },
    {
        let mut codes: Vec<Option<u16>> = Vec::new();
        let mut at: usize = 0;
        while at < names.len()
            invariant
                at <= names@.len(),
                codes@.len() == at,
                forall|i: int| 0 <= i < at ==> #[trigger] codes@[i] == named_key_code(names@[i]@),
            decreases names@.len() - at,
        {
            codes.push(key_code_named(names[at].as_str()));
            at = at + 1;
        }
        assert(codes@ =~= named_codes(views(names@)));
        ConfiguredChord::from_codes(&codes)
    }
}

/// Chord members held on each device.
pub open spec fn held_members(devices: Map<Seq<char>, MemberSet>) -> Map<
    Seq<char>,
    Set<ChordMember>,
> {
    devices.map_values(|held: MemberSet| held@)
}

pub open spec fn transition_member(transition: CaptureTransition) -> ChordMember {
    match transition {
        CaptureTransition::Key { usage, .. } => ChordMember::Key(usage),
        CaptureTransition::Button { button, .. } => ChordMember::Button(button),
    }
}

pub open spec fn transition_state(transition: CaptureTransition) -> KeyState {
    match transition {
        CaptureTransition::Key { state, .. } => state,
        CaptureTransition::Button { state, .. } => state,
    }
}

/// What is held after the first `count` transitions.
pub open spec fn held_after(
    held: Set<ChordMember>,
    transitions: Seq<CaptureTransition>,
    count: nat,
) -> Set<ChordMember>
    decreases count,
{
    if count == 0 {
        held
    } else {
        let before = held_after(held, transitions, (count - 1) as nat);
        let last = transitions[count - 1];
        if transition_state(last) == KeyState::Released {
            before.remove(transition_member(last))
        } else {
            before.insert(transition_member(last))
        }
    }
}

/// Every member of the chord is held on some device.
pub open spec fn chord_complete(
    chord: Set<ChordMember>,
    held: Map<Seq<char>, Set<ChordMember>>,
) -> bool {
    forall|member: ChordMember| #[trigger] chord.contains(member) ==> held_somewhere(held, member)
}

pub open spec fn held_somewhere(
    held: Map<Seq<char>, Set<ChordMember>>,
    member: ChordMember,
) -> bool {
    exists|path: Seq<char>| held.contains_key(path) && (#[trigger] held[path]).contains(member)
}

/// Follows one chord over all capture devices.
pub struct ChordTracker {
    chord: ConfiguredChord,
    held_by_device: OrderedMap<MemberSet>,
    latched: bool,
}

/// Mathematical state of a [`ChordTracker`].
pub struct ChordModel {
    pub chord: Set<ChordMember>,
    pub held: Map<Seq<char>, Set<ChordMember>>,
    pub latched: bool,
}

impl View for ChordTracker {
    type V = ChordModel;

    closed spec fn view(&self) -> ChordModel {
        ChordModel {
            chord: self.chord@,
            held: held_members(self.held_by_device@),
            latched: self.latched,
        }
    }
}

impl ChordModel {
    /// Nothing is held.
    pub open spec fn fresh(chord: Set<ChordMember>) -> ChordModel {
        ChordModel { chord, held: Map::empty(), latched: false }
    }

    pub open spec fn complete(self) -> bool {
        chord_complete(self.chord, self.held)
    }

    pub open spec fn wf(self) -> bool {
        self.chord != Set::<ChordMember>::empty() && self.latched == self.complete()
    }

    /// The state when a device is gone.
    pub open spec fn without(self, path: Seq<char>) -> ChordModel {
        let held = self.held.remove(path);
        ChordModel { held, latched: chord_complete(self.chord, held), ..self }
    }

    pub open spec fn held_on(self, path: Seq<char>) -> Set<ChordMember> {
        if self.held.contains_key(path) {
            self.held[path]
        } else {
            Set::empty()
        }
    }

    /// The state after a frame of one device.
    pub open spec fn after(self, path: Seq<char>, transitions: Seq<CaptureTransition>) -> ChordModel {
        let held = self.held.insert(
            path,
            held_after(self.held_on(path), transitions, transitions.len()),
        );
        ChordModel { held, latched: chord_complete(self.chord, held), ..self }
    }
}

proof fn nothing_is_complete(chord: Set<ChordMember>)
    requires
        chord != Set::<ChordMember>::empty(),
    ensures
        !ChordModel::fresh(chord).complete(),
{
    if ChordModel::fresh(chord).complete() {
        assert(chord =~= Set::<ChordMember>::empty()) by {
            assert forall|member: ChordMember| !chord.contains(member) by {
                if chord.contains(member) {
                    assert(held_somewhere(ChordModel::fresh(chord).held, member));
                }
            }
        }
    }
}

impl ChordTracker {
    /// The chord has members, and it is latched exactly while it is complete.
    pub open spec fn wf(&self) -> bool {
        self.has_its_devices() && self@.wf()
    }

    pub closed spec fn has_its_devices(&self) -> bool {
        self.held_by_device.wf()
    }

    pub fn new(chord: ConfiguredChord) -> (result: Self)
        requires
            chord.wf(),
        ensures
            result.wf(),
            result@ == ChordModel::fresh(chord@),
    {
        let result = ChordTracker { chord, held_by_device: OrderedMap::new(true), latched: false };
        assert(result@.held =~= Map::<Seq<char>, Set<ChordMember>>::empty());
        proof {
            nothing_is_complete(result@.chord);
        }
        result
    }

    fn is_complete(&self) -> (result: bool)
        requires
            self.has_its_devices(),
        ensures
            result == self@.complete(),
    {
        let members = &self.chord.members.members;
        let count: usize = self.held_by_device.len();
        let mut at: usize = 0;
        while at < members.len()
            invariant
                self.has_its_devices(),
                count == self.held_by_device.keys().len(),
                members@.to_set() == self@.chord,
                at <= members@.len(),
                forall|i: int|
                    0 <= i < at ==> held_somewhere(self@.held, #[trigger] members@[i]),
            decreases members@.len() - at,
        {
            let member = members[at];
            let mut found = false;
            let mut next: usize = 0;
            while next < count
                invariant
                    self.has_its_devices(),
                    count == self.held_by_device.keys().len(),
                    next <= count,
                    found == exists|i: int|
                        0 <= i < next && (
                        #[trigger] self.held_by_device.values()[i])@.contains(member),
                decreases count - next,
            {
                if self.held_by_device.value_at(next).contains(member) {
                    assert(self.held_by_device.values()[next as int]@.contains(member));
                    found = true;
                }
                next = next + 1;
            }
            proof {
                if found {
                    let i = choose|i: int|
                        0 <= i < count && (
                        #[trigger] self.held_by_device.values()[i])@.contains(member);
                    self.held_by_device.entry_in_map(i);
                    assert(self@.held[self.held_by_device.keys()[i]].contains(member));
                } else {
                    assert(members@.contains(member));
                    if held_somewhere(self@.held, member) {
                        let path = choose|path: Seq<char>|
                            self@.held.contains_key(path) && (
                            #[trigger] self@.held[path]).contains(member);
                        let k = self.held_by_device.key_has_position(path);
                        assert(self.held_by_device.values()[k]@.contains(member));
                    }
                    assert(self@.chord.contains(member));
                }
            }
            if !found {
                return false;
            }
            at = at + 1;
        }
        assert forall|member: ChordMember| #[trigger]
            self@.chord.contains(member) implies held_somewhere(self@.held, member) by {
            let k = choose|k: int| 0 <= k < members@.len() && members@[k] == member;
            assert(held_somewhere(self@.held, members@[k]));
        }
        true
    }

    /// Follows a frame and tells whether it completed the chord. A chord fires
    /// once when it becomes complete, however long it is held.
    pub fn observe(&mut self, path: &str, frame: &CaptureFrame) -> (triggered: bool)
        requires
            old(self).wf(),
        ensures
            final(self).wf(),
            final(self)@ == old(self)@.after(path_of(path@), frame.transitions@),
            triggered == (final(self)@.complete() && !old(self)@.complete()),
    {
        let name = normalized(path);
        let mut held = match self.held_by_device.remove(name.as_str()) {
            Some(held) => held,
            None => MemberSet::new(),
        };
        let ghost start = held@;
        assert(start == old(self)@.held_on(path_of(path@)));
        let mut at: usize = 0;
        while at < frame.transitions.len()
            invariant
                at <= frame.transitions@.len(),
                held@ == held_after(start, frame.transitions@, at as nat),
            decreases frame.transitions@.len() - at,
        {
            let (member, state) = match frame.transitions[at] {
                CaptureTransition::Key { usage, state } => (ChordMember::Key(usage), state),
                CaptureTransition::Button { button, state } => (
                    ChordMember::Button(button),
                    state,
                ),
            };
            match state {
                KeyState::Pressed | KeyState::Repeat => {
                    let _ = held.insert(member);
                },
                KeyState::Released => {
                    held.remove(member);
                },
            }
            at = at + 1;
        }
        let ghost ended = held@;
        self.held_by_device.insert(name, held);
        assert(self@.held =~= old(self)@.held.insert(path_of(path@), ended));
        let complete = self.is_complete();
        let triggered = complete && !self.latched;
        self.latched = complete;
        triggered
    }

    pub fn remove_device(&mut self, path: &str)
        requires
            old(self).wf(),
        ensures
            final(self).wf(),
            final(self)@ == old(self)@.without(path_of(path@)),
    {
        let _ = self.held_by_device.remove(normalized(path).as_str());
        assert(self@.held =~= old(self)@.held.remove(path_of(path@)));
        self.latched = self.is_complete();
    }

    pub fn clear(&mut self)
        requires
            old(self).wf(),
        ensures
            final(self).wf(),
            final(self)@ == ChordModel::fresh(old(self)@.chord),
    {
        self.held_by_device = OrderedMap::new(true);
        self.latched = false;
        assert(self@.held =~= Map::<Seq<char>, Set<ChordMember>>::empty());
        proof {
            nothing_is_complete(self@.chord);
        }
    }
}

/// What happens to a tracker.
pub enum ChordEvent {
    /// A frame of the device at this path.
    Frame(Seq<char>, Seq<CaptureTransition>),
    /// The device at this path is gone.
    Removed(Seq<char>),
    /// Everything is forgotten.
    Cleared,
}

impl ChordModel {
    pub open spec fn after_event(self, event: ChordEvent) -> ChordModel {
        match event {
            ChordEvent::Frame(path, transitions) => self.after(path, transitions),
            ChordEvent::Removed(path) => self.without(path),
            ChordEvent::Cleared => ChordModel::fresh(self.chord),
        }
    }
}

/// The state after a run of events.
pub open spec fn chord_run(chord: Set<ChordMember>, events: Seq<ChordEvent>) -> ChordModel
    decreases events.len(),
{
    if events.len() == 0 {
        ChordModel::fresh(chord)
    } else {
        chord_run(chord, events.drop_last()).after_event(events.last())
    }
}

/// Whatever happened before, a frame fires a chord exactly when the chord was
/// not complete before the frame and is complete after it.
pub proof fn chords_fire_exactly_when_completed(
    chord: Set<ChordMember>,
    events: Seq<ChordEvent>,
    path: Seq<char>,
    transitions: Seq<CaptureTransition>,
)
    requires
        chord != Set::<ChordMember>::empty(),
    ensures
        chord_run(chord, events).wf(),
        chord_run(chord, events).chord == chord,
        ({
            let before = chord_run(chord, events);
            let after = before.after(path, transitions);
            (after.latched && !before.latched) == (chord_complete(chord, after.held)
                && !chord_complete(chord, before.held))
        }),
    decreases events.len(),
{
    nothing_is_complete(chord);
    if events.len() > 0 {
        chords_fire_exactly_when_completed(chord, events.drop_last(), path, transitions);
    }
}

/// A held key counts no matter which device holds it.
pub proof fn chords_span_devices(
    tracker: ChordModel,
    path: Seq<char>,
    transitions: Seq<CaptureTransition>,
    member: ChordMember,
    other: Seq<char>,
)
    requires
        other != path,
        tracker.held.contains_key(other),
        tracker.held[other].contains(member),
    ensures
        held_somewhere(tracker.after(path, transitions).held, member),
{
    assert(tracker.after(path, transitions).held[other].contains(member));
}

/// A chord has exactly the members that its codes stand for, one for each; a code
/// that stands for none, and one that stands for a member twice, is refused.
pub proof fn chords_have_the_members_of_their_codes(codes: Seq<Option<u16>>, at: int)
    requires
        0 <= at < codes.len(),
        chord_of(codes) is Ok,
    ensures
        codes[at] is Some,
        member_of_code(codes[at]->0) is Some,
        chord_of(codes)->Ok_0.contains(member_of_code(codes[at]->0)->0),
        chord_of(codes)->Ok_0.len() == codes.len(),
        chord_of(codes)->Ok_0.finite(),
    decreases codes.len(),
{
    let before = codes.drop_last();
    chord_size(before);
    if at < before.len() {
        chords_have_the_members_of_their_codes(before, at);
    }
}

proof fn chord_size(codes: Seq<Option<u16>>)
    ensures
        chord_of(codes) matches Ok(members) ==> members.finite() && members.len() == codes.len(),
    decreases codes.len(),
{
    if codes.len() > 0 {
        chord_size(codes.drop_last());
    }
}

/// A member of a chord is the key or the button that its code names: the eight
/// buttons from the left one on, and the keys by their names.
pub proof fn members_are_named_by_their_codes(code: u16)
    ensures
        0x110 <= code <= 0x117 ==> member_of_code(code) == Some(
            ChordMember::Button(PointerButton((code - 0x10f) as u16)),
        ),
        linux_key(code) is Some ==> member_of_code(code) == Some(
            ChordMember::Key(usage_of_key(linux_key(code)->0)),
        ),
        linux_key(code) is None && !(0x110 <= code <= 0x117) ==> member_of_code(code) is None,
{
    linux_codes_have_the_usage_of_their_key(code);
}

/// What a device holds is what its presses and releases leave it holding.
pub proof fn trackers_follow_presses_and_releases(
    held: Set<ChordMember>,
    transitions: Seq<CaptureTransition>,
    count: nat,
)
    requires
        count <= transitions.len(),
        forall|i: int|
            0 <= i < transitions.len() ==> !is_repeat(#[trigger] transitions[i]),
    ensures
        held_after(held, transitions, count) == held_by(held, transitions.take(count as int)),
    decreases count,
{
    let taken = transitions.take(count as int);
    if count > 0 {
        trackers_follow_presses_and_releases(held, transitions, (count - 1) as nat);
        assert(taken.drop_last() =~= transitions.take(count - 1));
        assert(taken.last() == transitions[count - 1]);
        assert(!is_repeat(transitions[count - 1]));
    } else {
        assert(taken =~= Seq::empty());
    }
}

} // verus!
