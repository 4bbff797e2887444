//! Merging of overlapping capture devices.
use vstd::prelude::*;

use crate::capture::{CaptureFrame, CaptureTransition, KeyState};
use crate::linux::capture::CapturedDeviceFrame;
use super::outbound::held_by;
use crate::ordered::OrderedMap;
use crate::paths::{normalized, path_of};
use crate::runtime::chords::{
    held_members, held_somewhere, transition_member, transition_state, ChordMember, MemberSet,
};

verus! {

/// Progress of merging one frame.
pub struct MergeModel {
    pub held: Map<Seq<char>, Set<ChordMember>>,
    pub transitions: Seq<CaptureTransition>,
}

pub open spec fn held_on(
    held: Map<Seq<char>, Set<ChordMember>>,
    path: Seq<char>,
) -> Set<ChordMember> {
    if held.contains_key(path) {
        held[path]
    } else {
        Set::empty()
    }
}

/// Held keys after one press or release on a device.
pub open spec fn held_with(
    held: Map<Seq<char>, Set<ChordMember>>,
    path: Seq<char>,
    transition: CaptureTransition,
) -> Map<Seq<char>, Set<ChordMember>> {
    let member = transition_member(transition);
    let device = held_on(held, path);
    held.insert(
        path,
        if transition_state(transition) == KeyState::Pressed {
            device.insert(member)
        } else {
            device.remove(member)
        },
    )
}

/// One more transition. Repeats are dropped, and a press or release counts only
/// if it changes whether any device holds the key.
pub open spec fn merge_step(
    state: MergeModel,
    path: Seq<char>,
    transition: CaptureTransition,
) -> MergeModel {
    let member = transition_member(transition);
    if transition_state(transition) == KeyState::Repeat {
        state
    } else {
        let held = held_with(state.held, path, transition);
        MergeModel {
            held,
            transitions: if held_somewhere(state.held, member) != held_somewhere(held, member) {
                state.transitions.push(transition)
            } else {
                state.transitions
            },
        }
    }
}

pub open spec fn merged(
    held: Map<Seq<char>, Set<ChordMember>>,
    path: Seq<char>,
    transitions: Seq<CaptureTransition>,
    count: nat,
) -> MergeModel
    decreases count,
{
    if count == 0 {
        MergeModel { held, transitions: Seq::empty() }
    } else {
        merge_step(
            merged(held, path, transitions, (count - 1) as nat),
            path,
            transitions[count - 1],
        )
    }
}

/// Keys held on each capture device.
pub struct CaptureMerger {
    held_by_device: OrderedMap<MemberSet>,
}

impl View for CaptureMerger {
    type V = Map<Seq<char>, Set<ChordMember>>;

    closed spec fn view(&self) -> Map<Seq<char>, Set<ChordMember>> {
        held_members(self.held_by_device@)
    }
}

impl Default for CaptureMerger {
    fn default() -> (result: Self)
        ensures
            result.wf(),
            result@ == Map::<Seq<char>, Set<ChordMember>>::empty(),
    {
        let result = CaptureMerger { held_by_device: OrderedMap::new(true) };
        assert(result@ =~= Map::<Seq<char>, Set<ChordMember>>::empty());
        result
    }
}

impl CaptureMerger {
    pub closed spec fn wf(&self) -> bool {
        self.held_by_device.wf()
    }

    fn holds(&self, member: ChordMember) -> (result: bool)
        requires
            self.wf(),
        ensures
            result == held_somewhere(self@, member),
    {
        let count: usize = self.held_by_device.len();
        let mut at: usize = 0;
        while at < count
            invariant
                self.wf(),
                count == self.held_by_device.keys().len(),
                at <= count,
                forall|i: int|
                    0 <= i < at ==> !(#[trigger] self.held_by_device.values()[i])@.contains(
                        member,
                    ),
            decreases count - at,
        {
            if self.held_by_device.value_at(at).contains(member) {
                proof {
                    self.held_by_device.entry_in_map(at as int);
                    assert(self@[self.held_by_device.keys()[at as int]].contains(member));
                }
                return true;
            }
            at = at + 1;
        }
        proof {
            if held_somewhere(self@, member) {
                let path = choose|path: Seq<char>|
                    self@.contains_key(path) && (#[trigger] self@[path]).contains(member);
                let k = self.held_by_device.key_has_position(path);
                assert(self.held_by_device.values()[k]@.contains(member));
            }
        }
        false
    }

    fn apply(&mut self, path: &str, transition: CaptureTransition)
        requires
            old(self).wf(),
            transition_state(transition) != KeyState::Repeat,
        ensures
            final(self).wf(),
            final(self)@ == held_with(old(self)@, path_of(path@), transition),
    {
        let (member, state) = match transition {
            CaptureTransition::Key { usage, state } => (ChordMember::Key(usage), state),
            CaptureTransition::Button { button, state } => (ChordMember::Button(button), state),
        };
        let name = normalized(path);
        let mut device = match self.held_by_device.remove(name.as_str()) {
            Some(device) => device,
            None => MemberSet::new(),
        };
        assert(device@ == held_on(old(self)@, path_of(path@)));
        if state == KeyState::Pressed {
            let _ = device.insert(member);
        } else {
            device.remove(member);
        }
        let ghost ended = device@;
        self.held_by_device.insert(name, device);
        assert(self@ =~= old(self)@.insert(path_of(path@), ended));
    }

    /// Replaces the transitions of a frame by those that change what all
    /// devices together hold.
    pub fn merge(&mut self, captured: CapturedDeviceFrame) -> (result: CapturedDeviceFrame)
        requires
            old(self).wf(),
        ensures
            final(self).wf(),
            ({
                let all = captured.frame.transitions@;
                let state = merged(old(self)@, path_of(captured.device_path@), all, all.len());
                &&& final(self)@ == state.held
                &&& result.frame.transitions@ == state.transitions
            }),
            result.device_path == captured.device_path,
            result.captured_at == captured.captured_at,
            result.frame.motion == captured.frame.motion,
            result.frame.touch_snapshot == captured.frame.touch_snapshot,
            result.frame.event_count == captured.frame.event_count,
    {
        let mut transitions: Vec<CaptureTransition> = Vec::new();
        let mut at: usize = 0;
        let path: &str = captured.device_path.as_str();
        let ghost start = self@;
        while at < captured.frame.transitions.len()
            invariant
                self.wf(),
                path@ == captured.device_path@,
                at <= captured.frame.transitions@.len(),
                self@ == merged(
                    start,
                    path_of(path@),
                    captured.frame.transitions@,
                    at as nat,
                ).held,
                transitions@ == merged(
                    start,
                    path_of(path@),
                    captured.frame.transitions@,
                    at as nat,
                ).transitions,
            decreases captured.frame.transitions@.len() - at,
        {
            let transition = captured.frame.transitions[at];
            let (member, state) = match transition {
                CaptureTransition::Key { usage, state } => (ChordMember::Key(usage), state),
                CaptureTransition::Button { button, state } => (
                    ChordMember::Button(button),
                    state,
                ),
            };
            if state != KeyState::Repeat {
                let held_before = self.holds(member);
                self.apply(path, transition);
                let held_after = self.holds(member);
                if held_before != held_after {
                    transitions.push(transition);
                }
            }
            at = at + 1;
        }
        CapturedDeviceFrame {
            device_path: captured.device_path,
            captured_at: captured.captured_at,
            frame: CaptureFrame {
                transitions,
                motion: captured.frame.motion,
                touch_snapshot: captured.frame.touch_snapshot,
                event_count: captured.frame.event_count,
            },
        }
    }

    pub fn clear(&mut self)
        ensures
            final(self).wf(),
            final(self)@ == Map::<Seq<char>, Set<ChordMember>>::empty(),
    {
        self.held_by_device = OrderedMap::new(true);
        assert(self@ =~= Map::<Seq<char>, Set<ChordMember>>::empty());
    }
}

/// A key stays down for the peer as long as any device holds it: releasing it on
/// one device sends nothing while another still holds it.
pub proof fn keys_stay_down_until_the_last_release(
    state: MergeModel,
    path: Seq<char>,
    other: Seq<char>,
    transition: CaptureTransition,
)
    requires
        path != other,
        state.held.contains_key(other),
        state.held[other].contains(transition_member(transition)),
    ensures
        merge_step(state, path, transition).transitions == state.transitions,
        held_somewhere(merge_step(state, path, transition).held, transition_member(transition)),
{
    let member = transition_member(transition);
    let after = merge_step(state, path, transition).held;
    assert(state.held[other].contains(member));
    assert(after[other].contains(member));
}

/// What the peer was told matches what is held: a transition is sent exactly
/// when a key goes down for the first device or up for the last.
pub proof fn merged_transitions_alternate(
    state: MergeModel,
    path: Seq<char>,
    transition: CaptureTransition,
)
    requires
        merge_step(state, path, transition).transitions != state.transitions,
    ensures
        transition_state(transition) == KeyState::Pressed <==> !held_somewhere(
            state.held,
            transition_member(transition),
        ),
        transition_state(transition) == KeyState::Pressed <==> held_somewhere(
            merge_step(state, path, transition).held,
            transition_member(transition),
        ),
{
    let member = transition_member(transition);
    let after = merge_step(state, path, transition).held;
    if transition_state(transition) == KeyState::Pressed {
        assert(after[path].contains(member));
    } else {
        if !held_somewhere(state.held, member) {
            assert(held_somewhere(after, member));
            let where_held = choose|p: Seq<char>|
                after.contains_key(p) && (#[trigger] after[p]).contains(member);
            assert(where_held != path);
            assert(state.held[where_held].contains(member));
        }
    }
}

/// What is held on any device.
pub open spec fn held_on_any(held: Map<Seq<char>, Set<ChordMember>>) -> Set<ChordMember> {
    Set::new(|member: ChordMember| held_somewhere(held, member))
}

proof fn a_step_keeps_the_peer_right(
    start: Map<Seq<char>, Set<ChordMember>>,
    state: MergeModel,
    path: Seq<char>,
    transition: CaptureTransition,
)
    requires
        held_by(held_on_any(start), state.transitions) == held_on_any(state.held),
    ensures
        ({
            let after = merge_step(state, path, transition);
            held_by(held_on_any(start), after.transitions) == held_on_any(after.held)
        }),
{
    let after = merge_step(state, path, transition);
    let member = transition_member(transition);
    if transition_state(transition) != KeyState::Repeat {
        assert forall|other: ChordMember| other != member implies held_somewhere(after.held, other)
            == held_somewhere(state.held, other) by {
            if held_somewhere(state.held, other) {
                let p = choose|p: Seq<char>|
                    state.held.contains_key(p) && (#[trigger] state.held[p]).contains(other);
                assert(after.held[p].contains(other));
            }
            if held_somewhere(after.held, other) {
                let p = choose|p: Seq<char>|
                    after.held.contains_key(p) && (#[trigger] after.held[p]).contains(other);
                assert(state.held[p].contains(other));
            }
        }
        if after.transitions != state.transitions {
            merged_transitions_alternate(state, path, transition);
            assert(after.transitions.drop_last() =~= state.transitions);
            let told = held_by(held_on_any(start), after.transitions);
            assert forall|other: ChordMember| told.contains(other) == held_on_any(
                after.held,
            ).contains(other) by {}
            assert(told =~= held_on_any(after.held));
        } else {
            assert(state.transitions.push(transition).len() != state.transitions.len());
            assert(held_somewhere(state.held, member) == held_somewhere(after.held, member));
            assert(held_on_any(state.held) =~= held_on_any(after.held));
        }
    }
}

/// Told of the merged transitions only, the peer holds at every moment exactly what
/// is held on some device.
pub proof fn the_peer_holds_what_any_device_holds(
    held: Map<Seq<char>, Set<ChordMember>>,
    path: Seq<char>,
    transitions: Seq<CaptureTransition>,
    count: nat,
)
    requires
        count <= transitions.len(),
    ensures
        ({
            let state = merged(held, path, transitions, count);
            held_by(held_on_any(held), state.transitions) == held_on_any(state.held)
        }),
    decreases count,
{
    if count > 0 {
        the_peer_holds_what_any_device_holds(held, path, transitions, (count - 1) as nat);
        a_step_keeps_the_peer_right(
            held,
            merged(held, path, transitions, (count - 1) as nat),
            path,
            transitions[count - 1],
        );
    }
}

/// A device holds what its own presses and releases leave it holding, and merging
/// changes no other device.
pub proof fn merging_follows_each_device(
    held: Map<Seq<char>, Set<ChordMember>>,
    path: Seq<char>,
    transitions: Seq<CaptureTransition>,
    count: nat,
    other: Seq<char>,
)
    requires
        count <= transitions.len(),
        other != path,
    ensures
        ({
            let after = merged(held, path, transitions, count).held;
            &&& held_on(after, path) == held_by(held_on(held, path), transitions.take(count as int))
            &&& held_on(after, other) == held_on(held, other)
        }),
    decreases count,
{
    let taken = transitions.take(count as int);
    if count > 0 {
        merging_follows_each_device(held, path, transitions, (count - 1) as nat, other);
        assert(taken.drop_last() =~= transitions.take(count - 1));
        assert(taken.last() == transitions[count - 1]);
    } else {
        assert(taken =~= Seq::empty());
    }
}

} // verus!
