//! Sending captured input to the peer.
use vstd::prelude::*;

use super::negotiation::ProtocolVersion;
use crate::capture::{CaptureFrame, CaptureTransition, KeyState};
use crate::input::{HidUsage, MotionDelta, PointerButton, TouchContact, TouchState};
use crate::runtime::chords::ChordMember;

verus! {

/// One message to build and send, in order.
#[derive(Debug)]
pub enum CaptureStep {
    TouchBegin(TouchState),
    TouchEnd,
    Motion { delta: MotionDelta, touch: Option<TouchState> },
    KeyDown(HidUsage),
    KeyUp(HidUsage),
    ButtonDown(PointerButton),
    ButtonUp(PointerButton),
}

pub open spec fn motion_step(delta: MotionDelta) -> Seq<CaptureStep> {
    if delta == MotionDelta::zero() {
        Seq::empty()
    } else {
        seq![CaptureStep::Motion { delta, touch: None }]
    }
}

/// Motion and touch of one frame. Landing contacts are announced reliably before
/// the motion that goes with them, and lifting them after it.
pub open spec fn motion_steps(
    touch: Option<TouchState>,
    touching: bool,
    delta: MotionDelta,
) -> Seq<CaptureStep> {
    match touch {
        Some(state) => if !touching && state@.len() > 0 {
            seq![CaptureStep::TouchBegin(state)] + motion_step(delta)
        } else if touching && state@.len() == 0 {
            motion_step(delta).push(CaptureStep::TouchEnd)
        } else if state@.len() > 0 {
            seq![CaptureStep::Motion { delta, touch: Some(state) }]
        } else {
            motion_step(delta)
        },
        None => motion_step(delta),
    }
}

pub open spec fn transition_step(transition: CaptureTransition) -> Option<CaptureStep> {
    match transition {
        CaptureTransition::Key { usage, state } => match state {
            KeyState::Pressed => Some(CaptureStep::KeyDown(usage)),
            KeyState::Released => Some(CaptureStep::KeyUp(usage)),
            KeyState::Repeat => None,
        },
        CaptureTransition::Button { button, state } => match state {
            KeyState::Pressed => Some(CaptureStep::ButtonDown(button)),
            KeyState::Released => Some(CaptureStep::ButtonUp(button)),
            KeyState::Repeat => None,
        },
    }
}

/// Presses and releases in order; repeats stay local.
pub open spec fn transition_steps(transitions: Seq<CaptureTransition>) -> Seq<CaptureStep>
    decreases transitions.len(),
{
    if transitions.len() == 0 {
        Seq::empty()
    } else {
        let before = transition_steps(transitions.drop_last());
        match transition_step(transitions.last()) {
            Some(step) => before.push(step),
            None => before,
        }
    }
}

pub open spec fn negotiated_touch(
    touch: Option<TouchState>,
    touch_negotiated: bool,
) -> Option<TouchState> {
    if touch_negotiated {
        touch
    } else {
        None
    }
}

fn is_zero(delta: MotionDelta) -> (result: bool)
    ensures
        result == (delta == MotionDelta::zero()),
{
    delta.dx == 0 && delta.dy == 0 && delta.scroll_x == 0 && delta.scroll_y == 0
}

fn push_motion(steps: &mut Vec<CaptureStep>, delta: MotionDelta)
    ensures
        final(steps)@ == old(steps)@ + motion_step(delta),
{
    if !is_zero(delta) {
        steps.push(CaptureStep::Motion { delta, touch: None });
        assert(steps@ =~= old(steps)@ + motion_step(delta));
    } else {
        assert(steps@ =~= old(steps)@ + motion_step(delta));
    }
}

/// What to send for a captured frame. `touching` tells whether the peer has
/// active contacts.
pub fn plan_capture(frame: CaptureFrame, touch_negotiated: bool, touching: bool) -> (steps: Vec<
    CaptureStep,
>)
    ensures
        steps@ == motion_steps(
            negotiated_touch(frame.touch_snapshot, touch_negotiated),
            touching,
            frame.motion,
        ) + transition_steps(frame.transitions@),
        changes_of_steps(steps@) == without_repeats(frame.transitions@),
{
    proof {
        the_peer_holds_what_is_held(
            negotiated_touch(frame.touch_snapshot, touch_negotiated),
            touching,
            frame.motion,
            frame.transitions@,
            Set::empty(),
        );
    }
    let delta = frame.motion;
    let touch = if touch_negotiated {
        frame.touch_snapshot
    } else {
        None
    };
    let ghost planned = motion_steps(touch, touching, delta);
    let mut steps: Vec<CaptureStep> = Vec::new();
    match touch {
        Some(state) => {
            if !touching && !state.is_empty() {
                steps.push(CaptureStep::TouchBegin(state));
                push_motion(&mut steps, delta);
            } else if touching && state.is_empty() {
                push_motion(&mut steps, delta);
                steps.push(CaptureStep::TouchEnd);
            } else if !state.is_empty() {
                steps.push(CaptureStep::Motion { delta, touch: Some(state) });
            } else {
                push_motion(&mut steps, delta);
            }
        },
        None => {
            push_motion(&mut steps, delta);
        },
    }
    assert(steps@ =~= planned);
    let transitions = frame.transitions;
    let mut at: usize = 0;
    assert(transitions@.take(0) =~= Seq::empty());
    assert(steps@ =~= planned + transition_steps(transitions@.take(0)));
    while at < transitions.len()
        invariant
            at <= transitions@.len(),
            steps@ == planned + transition_steps(transitions@.take(at as int)),
        decreases transitions@.len() - at,
    {
        assert(transitions@.take(at + 1).drop_last() =~= transitions@.take(at as int));
        let ghost before = steps@;
        let step = match transitions[at] {
            CaptureTransition::Key { usage, state } => match state {
                KeyState::Pressed => Some(CaptureStep::KeyDown(usage)),
                KeyState::Released => Some(CaptureStep::KeyUp(usage)),
                KeyState::Repeat => None,
            },
            CaptureTransition::Button { button, state } => match state {
                KeyState::Pressed => Some(CaptureStep::ButtonDown(button)),
                KeyState::Released => Some(CaptureStep::ButtonUp(button)),
                KeyState::Repeat => None,
            },
        };
        if let Some(step) = step {
            steps.push(step);
        }
        assert(steps@ =~= planned + transition_steps(transitions@.take(at + 1)));
        at = at + 1;
    }
    assert(transitions@.take(at as int) =~= transitions@);
    steps
}

#[derive(Clone, Copy, Debug, PartialEq, Eq, Structural)]
pub enum OutboundError {
    /// An outbound activation is already open.
    AlreadyOpen,
    /// The activation names another protocol version than the negotiated one.
    WrongVersion,
    /// Captured input arrived without an outbound activation.
    NotOpen,
}

/// Whether an outbound activation may begin.
pub fn check_begin(open: bool, version: ProtocolVersion, negotiated: ProtocolVersion) -> (result:
    Result<(), OutboundError>)
    ensures
        result == if open {
            Err::<(), OutboundError>(OutboundError::AlreadyOpen)
        } else if version != negotiated {
            Err(OutboundError::WrongVersion)
        } else {
            Ok(())
        },
{
    if open {
        Err(OutboundError::AlreadyOpen)
    } else if version != negotiated {
        Err(OutboundError::WrongVersion)
    } else {
        Ok(())
    }
}

/// Whether captured input may be sent.
pub fn check_capture(open: bool) -> (result: Result<(), OutboundError>)
    ensures
        result == if open {
            Ok::<(), OutboundError>(())
        } else {
            Err(OutboundError::NotOpen)
        },
{
    if open {
        Ok(())
    } else {
        Err(OutboundError::NotOpen)
    }
}

// ---------------------------------------------------------------------------
// What the peer is left with
// ---------------------------------------------------------------------------

/// What a step changes about keys and buttons.
pub open spec fn change_of_step(step: CaptureStep) -> Option<CaptureTransition> {
    match step {
        CaptureStep::KeyDown(usage) => Some(
            CaptureTransition::Key { usage, state: KeyState::Pressed },
        ),
        CaptureStep::KeyUp(usage) => Some(
            CaptureTransition::Key { usage, state: KeyState::Released },
        ),
        CaptureStep::ButtonDown(button) => Some(
            CaptureTransition::Button { button, state: KeyState::Pressed },
        ),
        CaptureStep::ButtonUp(button) => Some(
            CaptureTransition::Button { button, state: KeyState::Released },
        ),
        _ => None,
    }
}

/// Presses and releases that a run of steps tells of.
pub open spec fn changes_of_steps(steps: Seq<CaptureStep>) -> Seq<CaptureTransition>
    decreases steps.len(),
{
    if steps.len() == 0 {
        Seq::empty()
    } else {
        let before = changes_of_steps(steps.drop_last());
        match change_of_step(steps.last()) {
            Some(change) => before.push(change),
            None => before,
        }
    }
}

pub open spec fn is_repeat(transition: CaptureTransition) -> bool {
    match transition {
        CaptureTransition::Key { state, .. } => state is Repeat,
        CaptureTransition::Button { state, .. } => state is Repeat,
    }
}

/// The presses and releases among transitions.
pub open spec fn without_repeats(transitions: Seq<CaptureTransition>) -> Seq<CaptureTransition>
    decreases transitions.len(),
{
    if transitions.len() == 0 {
        Seq::empty()
    } else {
        let before = without_repeats(transitions.drop_last());
        if is_repeat(transitions.last()) {
            before
        } else {
            before.push(transitions.last())
        }
    }
}

/// What is held after a run of presses and releases.
pub open spec fn held_by(
    held: Set<ChordMember>,
    changes: Seq<CaptureTransition>,
) -> Set<ChordMember>
    decreases changes.len(),
{
    if changes.len() == 0 {
        held
    } else {
        let before = held_by(held, changes.drop_last());
        match changes.last() {
            CaptureTransition::Key { usage, state: KeyState::Pressed } => before.insert(
                ChordMember::Key(usage),
            ),
            CaptureTransition::Key { usage, state: KeyState::Released } => before.remove(
                ChordMember::Key(usage),
            ),
            CaptureTransition::Button { button, state: KeyState::Pressed } => before.insert(
                ChordMember::Button(button),
            ),
            CaptureTransition::Button { button, state: KeyState::Released } => before.remove(
                ChordMember::Button(button),
            ),
            _ => before,
        }
    }
}

/// Distance that a run of steps moves and scrolls.
pub open spec fn moved_by(steps: Seq<CaptureStep>) -> (int, int, int, int)
    decreases steps.len(),
{
    if steps.len() == 0 {
        (0, 0, 0, 0)
    } else {
        let (x, y, scroll_x, scroll_y) = moved_by(steps.drop_last());
        match steps.last() {
            CaptureStep::Motion { delta, .. } => (
                x + delta.dx,
                y + delta.dy,
                scroll_x + delta.scroll_x,
                scroll_y + delta.scroll_y,
            ),
            _ => (x, y, scroll_x, scroll_y),
        }
    }
}

/// The contacts that the peer shows after a run of steps, starting from `shown`.
pub open spec fn shown_by(shown: Seq<TouchContact>, steps: Seq<CaptureStep>) -> Seq<TouchContact>
    decreases steps.len(),
{
    if steps.len() == 0 {
        shown
    } else {
        let before = shown_by(shown, steps.drop_last());
        match steps.last() {
            CaptureStep::TouchBegin(state) => state@,
            CaptureStep::TouchEnd => Seq::empty(),
            CaptureStep::Motion { touch: Some(state), .. } => state@,
            _ => before,
        }
    }
}

/// Contacts begin only where none are shown, and end and move only where some are.
pub open spec fn touch_is_in_turn(shown: Seq<TouchContact>, steps: Seq<CaptureStep>) -> bool
    decreases steps.len(),
{
    steps.len() > 0 ==> {
        let before = shown_by(shown, steps.drop_last());
        &&& touch_is_in_turn(shown, steps.drop_last())
        &&& match steps.last() {
            CaptureStep::TouchBegin(state) => before.len() == 0 && state@.len() > 0,
            CaptureStep::TouchEnd => before.len() > 0,
            CaptureStep::Motion { touch: Some(state), .. } => before.len() > 0 && state@.len() > 0,
            _ => true,
        }
    }
}

proof fn changes_of_joined_steps(first: Seq<CaptureStep>, second: Seq<CaptureStep>)
    ensures
        changes_of_steps(first + second) == changes_of_steps(first) + changes_of_steps(second),
    decreases second.len(),
{
    if second.len() == 0 {
        assert(first + second =~= first);
        assert(changes_of_steps(first) + changes_of_steps(second) =~= changes_of_steps(first));
    } else {
        changes_of_joined_steps(first, second.drop_last());
        assert((first + second).drop_last() =~= first + second.drop_last());
        assert((first + second).last() == second.last());
        assert(changes_of_steps(first + second) =~= changes_of_steps(first) + changes_of_steps(
            second,
        ));
    }
}

proof fn transition_steps_tell_the_changes(transitions: Seq<CaptureTransition>)
    ensures
        changes_of_steps(transition_steps(transitions)) == without_repeats(transitions),
        forall|i: int|
            0 <= i < transition_steps(transitions).len() ==> change_of_step(
                #[trigger] transition_steps(transitions)[i],
            ) is Some,
    decreases transitions.len(),
{
    if transitions.len() > 0 {
        transition_steps_tell_the_changes(transitions.drop_last());
        let before = transition_steps(transitions.drop_last());
        let now = transition_steps(transitions);
        if now.len() > before.len() {
            assert(now.drop_last() =~= before);
        }
    }
}

proof fn only_changes_follow(
    shown: Seq<TouchContact>,
    first: Seq<CaptureStep>,
    second: Seq<CaptureStep>,
)
    requires
        forall|i: int| 0 <= i < second.len() ==> change_of_step(#[trigger] second[i]) is Some,
    ensures
        moved_by(first + second) == moved_by(first),
        shown_by(shown, first + second) == shown_by(shown, first),
        touch_is_in_turn(shown, first + second) == touch_is_in_turn(shown, first),
    decreases second.len(),
{
    if second.len() == 0 {
        assert(first + second =~= first);
    } else {
        assert forall|i: int| 0 <= i < second.drop_last().len() implies change_of_step(
            #[trigger] second.drop_last()[i],
        ) is Some by {
            assert(second.drop_last()[i] == second[i]);
        }
        only_changes_follow(shown, first, second.drop_last());
        assert((first + second).drop_last() =~= first + second.drop_last());
        assert((first + second).last() == second[second.len() - 1]);
    }
}

/// What is sent for a frame tells of every press and every release of it, once
/// each and in order, and of nothing else. So the peer holds what the frame leaves
/// held.
pub proof fn the_peer_holds_what_is_held(
    touch: Option<TouchState>,
    touching: bool,
    delta: MotionDelta,
    transitions: Seq<CaptureTransition>,
    held: Set<ChordMember>,
)
    ensures
        ({
            let steps = motion_steps(touch, touching, delta) + transition_steps(transitions);
            &&& changes_of_steps(steps) == without_repeats(transitions)
            &&& held_by(held, changes_of_steps(steps)) == held_by(held, transitions)
        }),
{
    let moving = motion_steps(touch, touching, delta);
    changes_of_joined_steps(moving, transition_steps(transitions));
    transition_steps_tell_the_changes(transitions);
    assert(changes_of_steps(moving) =~= Seq::empty()) by {
        reveal_with_fuel(changes_of_steps, 3);
    }
    assert(changes_of_steps(moving) + without_repeats(transitions) =~= without_repeats(
        transitions,
    ));
    repeats_hold_nothing(held, transitions);
}

proof fn repeats_hold_nothing(held: Set<ChordMember>, transitions: Seq<CaptureTransition>)
    ensures
        held_by(held, without_repeats(transitions)) == held_by(held, transitions),
    decreases transitions.len(),
{
    if transitions.len() > 0 {
        let before = transitions.drop_last();
        repeats_hold_nothing(held, before);
        if !is_repeat(transitions.last()) {
            assert(without_repeats(transitions).drop_last() =~= without_repeats(before));
        }
    }
}

/// What is sent for a frame moves the peer by the frame's motion, no more and no
/// less, and leaves it with the frame's contacts, or with those it had where the
/// frame says nothing of touch. Contacts begin, move and end in turn.
pub proof fn the_peer_moves_and_touches_as_captured(
    touch: Option<TouchState>,
    shown: Seq<TouchContact>,
    delta: MotionDelta,
    transitions: Seq<CaptureTransition>,
)
    ensures
        ({
            let steps = motion_steps(touch, shown.len() > 0, delta) + transition_steps(
                transitions,
            );
            &&& moved_by(steps) == (
                delta.dx as int,
                delta.dy as int,
                delta.scroll_x as int,
                delta.scroll_y as int,
            )
            &&& shown_by(shown, steps) == match touch {
                Some(state) => state@,
                None => shown,
            }
            &&& touch_is_in_turn(shown, steps)
        }),
{
    let moving = motion_steps(touch, shown.len() > 0, delta);
    transition_steps_tell_the_changes(transitions);
    only_changes_follow(shown, moving, transition_steps(transitions));
    assert(Seq::<CaptureStep>::empty().push(CaptureStep::TouchEnd).drop_last() =~= Seq::empty());
    reveal_with_fuel(moved_by, 3);
    reveal_with_fuel(shown_by, 3);
    reveal_with_fuel(touch_is_in_turn, 3);
    assert(shown.len() == 0 ==> shown =~= Seq::empty());
    if let Some(state) = touch {
        assert(state@.len() == 0 ==> state@ =~= Seq::empty());
        let begun = seq![CaptureStep::TouchBegin(state)];
        assert(begun.drop_last() =~= Seq::empty());
        assert((begun + motion_step(delta)).len() == 2 ==> (begun + motion_step(
            delta,
        )).drop_last() =~= begun);
        assert(begun + Seq::<CaptureStep>::empty() =~= begun);
        assert(motion_step(delta).push(CaptureStep::TouchEnd).drop_last() =~= motion_step(delta));
        assert(seq![CaptureStep::Motion { delta, touch: Some(state) }].drop_last()
            =~= Seq::empty());
    }
    assert(motion_step(delta).len() > 0 ==> motion_step(delta).drop_last() =~= Seq::empty());
}

/// Without negotiated touch no contact is sent.
pub proof fn touch_is_sent_only_when_negotiated(
    touch: Option<TouchState>,
    touching: bool,
    delta: MotionDelta,
)
    ensures
        motion_steps(negotiated_touch(touch, false), touching, delta) == motion_step(delta),
{
}

/// A touch begins before the motion of its frame and ends after it.
pub proof fn touches_enclose_the_motion(
    touch: Option<TouchState>,
    touching: bool,
    delta: MotionDelta,
    at: int,
)
    requires
        0 <= at < motion_steps(touch, touching, delta).len(),
    ensures
        ({
            let moving = motion_steps(touch, touching, delta);
            &&& moving[at] is TouchBegin ==> at == 0
            &&& moving[at] is TouchEnd ==> at == moving.len() - 1
            &&& change_of_step(moving[at]) is None
        }),
{
}

/// Steps that follow the motion are presses and releases alone.
pub proof fn presses_follow_the_motion(transitions: Seq<CaptureTransition>, at: int)
    requires
        0 <= at < transition_steps(transitions).len(),
    ensures
        change_of_step(transition_steps(transitions)[at]) is Some,
    decreases transitions.len(),
{
    if transitions.len() > 0 {
        let before = transition_steps(transitions.drop_last());
        if at < before.len() {
            presses_follow_the_motion(transitions.drop_last(), at);
        }
    }
}

} // verus!
