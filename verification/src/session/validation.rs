//! Refusal of events that a session was not negotiated for.
use vstd::prelude::*;

use super::messages::{
    ActiveScroll, CumulativeMotion, HeldState, MotionAnchor, MotionFrame, ReliableControl,
    ScrollUnit,
};
use super::negotiation::{InputCapability, NegotiatedSession};
use crate::input::{HidUsage, TouchState, CONSUMER_PAGE, KEYBOARD_PAGE};

verus! {

/// Events that need a capability.
#[derive(Clone, Copy, Debug, PartialEq, Eq, Structural)]
pub enum EventFamily {
    KeyUsage,
    ModifierState,
    PointerButton,
    PointerButtonState,
    PointerMotion,
    PointerAnchor,
    ScrollMotion,
    ScrollAnchor,
    ScrollLifecycle,
    TouchControl,
    TouchSnapshot,
}

#[derive(Clone, Copy, Debug, PartialEq, Eq, Structural)]
pub enum Violation {
    /// A key from a HID usage page that sessions do not carry.
    UnsupportedUsagePage,
    MissingCapability { event: EventFamily, capability: InputCapability },
    /// High-resolution scroll totals were not negotiated.
    ScrollResolution,
    ScrollPhase,
    ScrollSourceUnit,
    ScrollSourceResolution,
    ScrollMomentum,
    /// More contacts than the negotiated limit.
    TooManyContacts,
    /// Touch state without negotiated touch support.
    TouchState,
}

pub open spec fn missing(
    negotiated: NegotiatedSession,
    capability: InputCapability,
    event: EventFamily,
) -> Option<Violation> {
    if negotiated.capabilities.has(capability) {
        None
    } else {
        Some(Violation::MissingCapability { event, capability })
    }
}

/// The first violation of two checks.
pub open spec fn either(first: Option<Violation>, second: Option<Violation>) -> Option<Violation> {
    if first is Some {
        first
    } else {
        second
    }
}

pub open spec fn usage_violation(
    usage: HidUsage,
    negotiated: NegotiatedSession,
) -> Option<Violation> {
    if usage.page.0 == KEYBOARD_PAGE {
        missing(negotiated, InputCapability::Keyboard, EventFamily::KeyUsage)
    } else if usage.page.0 == CONSUMER_PAGE {
        missing(negotiated, InputCapability::ConsumerControls, EventFamily::KeyUsage)
    } else {
        Some(Violation::UnsupportedUsagePage)
    }
}

pub open spec fn touch_violation(
    contacts: nat,
    negotiated: NegotiatedSession,
) -> Option<Violation> {
    if contacts > negotiated.contact_limit {
        Some(Violation::TooManyContacts)
    } else if contacts > 0 && !negotiated.capabilities.touch {
        Some(Violation::TouchState)
    } else {
        None
    }
}

pub open spec fn totals_violation(
    totals: CumulativeMotion,
    negotiated: NegotiatedSession,
    pointer: EventFamily,
    scroll: EventFamily,
) -> Option<Violation> {
    let pointer_check = if totals.dx != 0 || totals.dy != 0 {
        missing(negotiated, InputCapability::Pointer, pointer)
    } else {
        None
    };
    let scroll_check = if totals.scroll_x != 0 || totals.scroll_y != 0 {
        either(
            missing(negotiated, InputCapability::Scroll, scroll),
            if negotiated.scroll_fields.high_resolution {
                None
            } else {
                Some(Violation::ScrollResolution)
            },
        )
    } else {
        None
    };
    either(pointer_check, scroll_check)
}

pub open spec fn anchor_violation(
    anchor: MotionAnchor,
    negotiated: NegotiatedSession,
) -> Option<Violation> {
    either(
        totals_violation(
            anchor.totals,
            negotiated,
            EventFamily::PointerAnchor,
            EventFamily::ScrollAnchor,
        ),
        touch_violation(anchor.final_touch_state@.len(), negotiated),
    )
}

pub open spec fn scroll_violation(
    scroll: ActiveScroll,
    negotiated: NegotiatedSession,
) -> Option<Violation> {
    let fields = negotiated.scroll_fields;
    if !negotiated.capabilities.scroll {
        missing(negotiated, InputCapability::Scroll, EventFamily::ScrollLifecycle)
    } else if !fields.phase {
        Some(Violation::ScrollPhase)
    } else if scroll.source.unit != ScrollUnit::Device && !fields.source_unit {
        Some(Violation::ScrollSourceUnit)
    } else if (scroll.source.resolution_x is Some || scroll.source.resolution_y is Some)
        && !fields.source_resolution {
        Some(Violation::ScrollSourceResolution)
    } else if scroll.momentum_phase is Some && !fields.momentum_phase {
        Some(Violation::ScrollMomentum)
    } else {
        None
    }
}

/// The first key among `keys` that the session may not carry.
pub open spec fn keys_violation(
    keys: Seq<HidUsage>,
    negotiated: NegotiatedSession,
) -> Option<Violation>
    decreases keys.len(),
{
    if keys.len() == 0 {
        None
    } else {
        either(
            keys_violation(keys.drop_last(), negotiated),
            usage_violation(keys.last(), negotiated),
        )
    }
}

pub open spec fn held_violation(
    state: HeldState,
    negotiated: NegotiatedSession,
) -> Option<Violation> {
    let modifiers = if state.modifiers@.len() > 0 {
        missing(negotiated, InputCapability::Keyboard, EventFamily::ModifierState)
    } else {
        None
    };
    let buttons = if state.pressed_buttons@.len() > 0 {
        missing(negotiated, InputCapability::Pointer, EventFamily::PointerButtonState)
    } else {
        None
    };
    let scroll = match state.active_scroll {
        Some(scroll) => scroll_violation(scroll, negotiated),
        None => None,
    };
    either(
        keys_violation(state.pressed_keys@, negotiated),
        either(
            modifiers,
            either(
                buttons,
                either(scroll, touch_violation(state.active_touch@.len(), negotiated)),
            ),
        ),
    )
}

/// What is wrong with a control, if anything.
pub open spec fn control_violation(
    payload: ReliableControl,
    negotiated: NegotiatedSession,
) -> Option<Violation> {
    let lifecycle = either(
        missing(negotiated, InputCapability::Scroll, EventFamily::ScrollLifecycle),
        if negotiated.scroll_fields.phase {
            None
        } else {
            Some(Violation::ScrollPhase)
        },
    );
    let touch = missing(negotiated, InputCapability::Touch, EventFamily::TouchControl);
    let button = missing(negotiated, InputCapability::Pointer, EventFamily::PointerButton);
    match payload {
        ReliableControl::Enter => None,
        ReliableControl::SnapshotAck(_) => None,
        ReliableControl::TakeoverAccepted(_) => None,
        ReliableControl::Leave { anchor } => anchor_violation(anchor, negotiated),
        ReliableControl::KeyDown { key } => usage_violation(key, negotiated),
        ReliableControl::KeyUp { key } => usage_violation(key, negotiated),
        ReliableControl::ButtonDown { anchor, .. } => either(
            button,
            anchor_violation(anchor, negotiated),
        ),
        ReliableControl::ButtonUp { anchor, .. } => either(
            button,
            anchor_violation(anchor, negotiated),
        ),
        ReliableControl::ScrollBegin { scroll } => scroll_violation(scroll, negotiated),
        ReliableControl::ScrollEnd { anchor, .. } => either(
            lifecycle,
            anchor_violation(anchor, negotiated),
        ),
        ReliableControl::ScrollCancel { anchor, .. } => either(
            lifecycle,
            anchor_violation(anchor, negotiated),
        ),
        ReliableControl::TouchBegin { initial_state } => either(
            touch,
            touch_violation(initial_state@.len(), negotiated),
        ),
        ReliableControl::TouchEnd { anchor } => either(
            touch,
            anchor_violation(anchor, negotiated),
        ),
        ReliableControl::TouchCancel { anchor } => either(
            touch,
            anchor_violation(anchor, negotiated),
        ),
        ReliableControl::StateSnapshot(snapshot) => either(
            held_violation(snapshot.held, negotiated),
            anchor_violation(snapshot.motion_anchor, negotiated),
        ),
        ReliableControl::SessionTakeover(takeover) => either(
            held_violation(takeover.authoritative_held_state, negotiated),
            anchor_violation(takeover.final_motion_anchor, negotiated),
        ),
        ReliableControl::SessionClose { final_anchor, .. } => match final_anchor {
            Some(anchor) => anchor_violation(anchor, negotiated),
            None => None,
        },
    }
}

/// What is wrong with a motion frame, if anything.
pub open spec fn motion_violation(
    frame: MotionFrame,
    negotiated: NegotiatedSession,
) -> Option<Violation> {
    either(
        totals_violation(
            frame.totals,
            negotiated,
            EventFamily::PointerMotion,
            EventFamily::ScrollMotion,
        ),
        match frame.touch_snapshot {
            Some(touch) => either(
                missing(negotiated, InputCapability::Touch, EventFamily::TouchSnapshot),
                touch_violation(touch@.len(), negotiated),
            ),
            None => None,
        },
    )
}

/// A check's result says exactly what its specification says.
pub open spec fn reports(result: Result<(), Violation>, violation: Option<Violation>) -> bool {
    match result {
        Ok(_) => violation is None,
        Err(error) => violation == Some(error),
    }
}

fn require_capability(
    negotiated: &NegotiatedSession,
    capability: InputCapability,
    event: EventFamily,
) -> (result: Result<(), Violation>)
    ensures
        reports(result, missing(*negotiated, capability, event)),
{
    if negotiated.capabilities.contains(capability) {
        Ok(())
    } else {
        Err(Violation::MissingCapability { event, capability })
    }
}

fn validate_negotiated_usage(usage: HidUsage, negotiated: &NegotiatedSession) -> (result: Result<
    (),
    Violation,
>)
    ensures
        reports(result, usage_violation(usage, *negotiated)),
{
    if usage.page.0 == KEYBOARD_PAGE {
        require_capability(negotiated, InputCapability::Keyboard, EventFamily::KeyUsage)
    } else if usage.page.0 == CONSUMER_PAGE {
        require_capability(negotiated, InputCapability::ConsumerControls, EventFamily::KeyUsage)
    } else {
        Err(Violation::UnsupportedUsagePage)
    }
}

fn validate_negotiated_touch(state: &TouchState, negotiated: &NegotiatedSession) -> (result: Result<
    (),
    Violation,
>)
    ensures
        reports(result, touch_violation(state@.len(), *negotiated)),
{
    if state.len() > negotiated.contact_limit as usize {
        return Err(Violation::TooManyContacts);
    }
    if !state.is_empty() && !negotiated.capabilities.contains(InputCapability::Touch) {
        return Err(Violation::TouchState);
    }
    Ok(())
}

fn validate_totals(
    totals: CumulativeMotion,
    negotiated: &NegotiatedSession,
    pointer: EventFamily,
    scroll: EventFamily,
) -> (result: Result<(), Violation>)
    ensures
        reports(result, totals_violation(totals, *negotiated, pointer, scroll)),
{
    if totals.dx != 0 || totals.dy != 0 {
        if let Err(error) = require_capability(negotiated, InputCapability::Pointer, pointer) {
            return Err(error);
        }
    }
    if totals.scroll_x != 0 || totals.scroll_y != 0 {
        if let Err(error) = require_capability(negotiated, InputCapability::Scroll, scroll) {
            return Err(error);
        }
        if !negotiated.scroll_fields.high_resolution {
            return Err(Violation::ScrollResolution);
        }
    }
    Ok(())
}

fn validate_negotiated_anchor(anchor: &MotionAnchor, negotiated: &NegotiatedSession) -> (result:
    Result<(), Violation>)
    ensures
        reports(result, anchor_violation(*anchor, *negotiated)),
{
    if let Err(error) = validate_totals(
        anchor.totals,
        negotiated,
        EventFamily::PointerAnchor,
        EventFamily::ScrollAnchor,
    ) {
        return Err(error);
    }
    validate_negotiated_touch(&anchor.final_touch_state, negotiated)
}

fn validate_negotiated_scroll(scroll: ActiveScroll, negotiated: &NegotiatedSession) -> (result:
    Result<(), Violation>)
    ensures
        reports(result, scroll_violation(scroll, *negotiated)),
{
    if let Err(error) = require_capability(
        negotiated,
        InputCapability::Scroll,
        EventFamily::ScrollLifecycle,
    ) {
        return Err(error);
    }
    let fields = negotiated.scroll_fields;
    if !fields.phase {
        return Err(Violation::ScrollPhase);
    }
    if scroll.source.unit != ScrollUnit::Device && !fields.source_unit {
        return Err(Violation::ScrollSourceUnit);
    }
    if (scroll.source.resolution_x.is_some() || scroll.source.resolution_y.is_some())
        && !fields.source_resolution {
        return Err(Violation::ScrollSourceResolution);
    }
    if scroll.momentum_phase.is_some() && !fields.momentum_phase {
        return Err(Violation::ScrollMomentum);
    }
    Ok(())
}

proof fn key_violation_stays(keys: Seq<HidUsage>, negotiated: NegotiatedSession, count: int)
    requires
        0 <= count <= keys.len(),
        keys_violation(keys.take(count), negotiated) is Some,
    ensures
        keys_violation(keys, negotiated) == keys_violation(keys.take(count), negotiated),
    decreases keys.len() - count,
{
    if count == keys.len() {
        assert(keys.take(count) =~= keys);
    } else {
        assert(keys.take(count + 1).drop_last() =~= keys.take(count));
        key_violation_stays(keys, negotiated, count + 1);
    }
}

fn validate_negotiated_held(state: &HeldState, negotiated: &NegotiatedSession) -> (result: Result<
    (),
    Violation,
>)
    ensures
        reports(result, held_violation(*state, *negotiated)),
{
    let keys = &state.pressed_keys;
    let mut at: usize = 0;
    assert(keys@.take(0) =~= Seq::empty());
    while at < keys.len()
        invariant
            keys@ == state.pressed_keys@,
            at <= keys@.len(),
            keys_violation(keys@.take(at as int), *negotiated) is None,
        decreases keys@.len() - at,
    {
        assert(keys@.take(at + 1).drop_last() =~= keys@.take(at as int));
        if let Err(error) = validate_negotiated_usage(keys[at], negotiated) {
            proof {
                key_violation_stays(keys@, *negotiated, at + 1);
            }
            return Err(error);
        }
        at = at + 1;
    }
    assert(keys@.take(at as int) =~= keys@);
    if state.modifiers.len() > 0 {
        if let Err(error) = require_capability(
            negotiated,
            InputCapability::Keyboard,
            EventFamily::ModifierState,
        ) {
            return Err(error);
        }
    }
    if state.pressed_buttons.len() > 0 {
        if let Err(error) = require_capability(
            negotiated,
            InputCapability::Pointer,
            EventFamily::PointerButtonState,
        ) {
            return Err(error);
        }
    }
    if let Some(scroll) = state.active_scroll {
        if let Err(error) = validate_negotiated_scroll(scroll, negotiated) {
            return Err(error);
        }
    }
    validate_negotiated_touch(&state.active_touch, negotiated)
}

/// Refuses a control that the session was not negotiated for.
pub fn validate_negotiated_control(payload: &ReliableControl, negotiated: &NegotiatedSession) -> (
    result: Result<(), Violation>)
    ensures
        reports(result, control_violation(*payload, *negotiated)),
{
    match payload {
        ReliableControl::Enter
        | ReliableControl::SnapshotAck(_)
        | ReliableControl::TakeoverAccepted(_) => Ok(()),
        ReliableControl::Leave { anchor } => validate_negotiated_anchor(anchor, negotiated),
        ReliableControl::KeyDown { key } | ReliableControl::KeyUp { key } =>
            validate_negotiated_usage(*key, negotiated),
        ReliableControl::ButtonDown { anchor, .. } | ReliableControl::ButtonUp { anchor, .. } => {
            if let Err(error) = require_capability(
                negotiated,
                InputCapability::Pointer,
                EventFamily::PointerButton,
            ) {
                return Err(error);
            }
            validate_negotiated_anchor(anchor, negotiated)
        },
        ReliableControl::ScrollBegin { scroll } => validate_negotiated_scroll(
            *scroll,
            negotiated,
        ),
        ReliableControl::ScrollEnd { anchor, .. }
        | ReliableControl::ScrollCancel { anchor, .. } => {
            if let Err(error) = require_capability(
                negotiated,
                InputCapability::Scroll,
                EventFamily::ScrollLifecycle,
            ) {
                return Err(error);
            }
            if !negotiated.scroll_fields.phase {
                return Err(Violation::ScrollPhase);
            }
            validate_negotiated_anchor(anchor, negotiated)
        },
        ReliableControl::TouchBegin { initial_state } => {
            if let Err(error) = require_capability(
                negotiated,
                InputCapability::Touch,
                EventFamily::TouchControl,
            ) {
                return Err(error);
            }
            validate_negotiated_touch(initial_state, negotiated)
        },
        ReliableControl::TouchEnd { anchor } | ReliableControl::TouchCancel { anchor } => {
            if let Err(error) = require_capability(
                negotiated,
                InputCapability::Touch,
                EventFamily::TouchControl,
            ) {
                return Err(error);
            }
            validate_negotiated_anchor(anchor, negotiated)
        },
        ReliableControl::StateSnapshot(snapshot) => {
            if let Err(error) = validate_negotiated_held(&snapshot.held, negotiated) {
                return Err(error);
            }
            validate_negotiated_anchor(&snapshot.motion_anchor, negotiated)
        },
        ReliableControl::SessionTakeover(takeover) => {
            if let Err(error) = validate_negotiated_held(
                &takeover.authoritative_held_state,
                negotiated,
            ) {
                return Err(error);
            }
            validate_negotiated_anchor(&takeover.final_motion_anchor, negotiated)
        },
        ReliableControl::SessionClose { final_anchor, .. } => match final_anchor {
            Some(anchor) => validate_negotiated_anchor(anchor, negotiated),
            None => Ok(()),
        },
    }
}

/// Refuses motion that the session was not negotiated for.
pub fn validate_negotiated_motion(frame: &MotionFrame, negotiated: &NegotiatedSession) -> (result:
    Result<(), Violation>)
    ensures
        reports(result, motion_violation(*frame, *negotiated)),
{
    if let Err(error) = validate_totals(
        frame.totals,
        negotiated,
        EventFamily::PointerMotion,
        EventFamily::ScrollMotion,
    ) {
        return Err(error);
    }
    if let Some(touch) = &frame.touch_snapshot {
        if let Err(error) = require_capability(
            negotiated,
            InputCapability::Touch,
            EventFamily::TouchSnapshot,
        ) {
            return Err(error);
        }
        return validate_negotiated_touch(touch, negotiated);
    }
    Ok(())
}

/// A session without touch refuses every event that carries a contact.
pub proof fn touch_never_passes_unnegotiated(
    frame: MotionFrame,
    payload: ReliableControl,
    negotiated: NegotiatedSession,
)
    requires
        !negotiated.capabilities.touch,
    ensures
        frame.touch_snapshot is Some ==> motion_violation(frame, negotiated) is Some,
        payload is TouchBegin || payload is TouchEnd || payload is TouchCancel
            ==> control_violation(payload, negotiated) is Some,
        payload.anchor() matches Some(anchor) ==> (anchor.final_touch_state@.len() > 0
            ==> control_violation(payload, negotiated) is Some),
{
}

/// Keyboard keys need the keyboard, media keys the consumer controls; there are no
/// other keys.
pub open spec fn key_fits(key: HidUsage, negotiated: NegotiatedSession) -> bool {
    ||| key.page.0 == 0x07 && negotiated.capabilities.keyboard
    ||| key.page.0 == 0x0c && negotiated.capabilities.consumer_controls
}

/// Movement needs the pointer, scrolling the wheels in their full resolution.
pub open spec fn totals_fit(totals: CumulativeMotion, negotiated: NegotiatedSession) -> bool {
    &&& negotiated.capabilities.pointer || (totals.dx == 0 && totals.dy == 0)
    &&& (negotiated.capabilities.scroll && negotiated.scroll_fields.high_resolution) || (
    totals.scroll_x == 0 && totals.scroll_y == 0)
}

/// Contacts need touch, and no more of them than agreed.
pub open spec fn contacts_fit(contacts: nat, negotiated: NegotiatedSession) -> bool {
    contacts <= negotiated.contact_limit && (contacts == 0 || negotiated.capabilities.touch)
}

pub open spec fn anchor_fits(anchor: MotionAnchor, negotiated: NegotiatedSession) -> bool {
    totals_fit(anchor.totals, negotiated) && contacts_fit(
        anchor.final_touch_state@.len(),
        negotiated,
    )
}

/// A scroll gesture needs phases, and each detail that it carries.
pub open spec fn gesture_fits(scroll: ActiveScroll, negotiated: NegotiatedSession) -> bool {
    &&& negotiated.capabilities.scroll
    &&& negotiated.scroll_fields.phase
    &&& scroll.source.unit is Device || negotiated.scroll_fields.source_unit
    &&& (scroll.source.resolution_x is None && scroll.source.resolution_y is None)
        || negotiated.scroll_fields.source_resolution
    &&& scroll.momentum_phase is None || negotiated.scroll_fields.momentum_phase
}

pub open spec fn held_fits(held: HeldState, negotiated: NegotiatedSession) -> bool {
    &&& forall|i: int|
        0 <= i < held.pressed_keys@.len() ==> key_fits(#[trigger] held.pressed_keys@[i], negotiated)
    &&& held.modifiers@.len() == 0 || negotiated.capabilities.keyboard
    &&& held.pressed_buttons@.len() == 0 || negotiated.capabilities.pointer
    &&& held.active_scroll matches Some(scroll) ==> gesture_fits(scroll, negotiated)
    &&& contacts_fit(held.active_touch@.len(), negotiated)
}

/// A control needs no more than what was negotiated.
pub open spec fn control_fits(payload: ReliableControl, negotiated: NegotiatedSession) -> bool {
    match payload {
        ReliableControl::Enter => true,
        ReliableControl::SnapshotAck(_) => true,
        ReliableControl::TakeoverAccepted(_) => true,
        ReliableControl::Leave { anchor } => anchor_fits(anchor, negotiated),
        ReliableControl::KeyDown { key } => key_fits(key, negotiated),
        ReliableControl::KeyUp { key } => key_fits(key, negotiated),
        ReliableControl::ButtonDown { anchor, .. } => negotiated.capabilities.pointer
            && anchor_fits(anchor, negotiated),
        ReliableControl::ButtonUp { anchor, .. } => negotiated.capabilities.pointer && anchor_fits(
            anchor,
            negotiated,
        ),
        ReliableControl::ScrollBegin { scroll } => gesture_fits(scroll, negotiated),
        ReliableControl::ScrollEnd { anchor, .. } => negotiated.capabilities.scroll
            && negotiated.scroll_fields.phase && anchor_fits(anchor, negotiated),
        ReliableControl::ScrollCancel { anchor, .. } => negotiated.capabilities.scroll
            && negotiated.scroll_fields.phase && anchor_fits(anchor, negotiated),
        ReliableControl::TouchBegin { initial_state } => negotiated.capabilities.touch
            && contacts_fit(initial_state@.len(), negotiated),
        ReliableControl::TouchEnd { anchor } => negotiated.capabilities.touch && anchor_fits(
            anchor,
            negotiated,
        ),
        ReliableControl::TouchCancel { anchor } => negotiated.capabilities.touch && anchor_fits(
            anchor,
            negotiated,
        ),
        ReliableControl::StateSnapshot(snapshot) => held_fits(snapshot.held, negotiated)
            && anchor_fits(snapshot.motion_anchor, negotiated),
        ReliableControl::SessionTakeover(takeover) => held_fits(
            takeover.authoritative_held_state,
            negotiated,
        ) && anchor_fits(takeover.final_motion_anchor, negotiated),
        ReliableControl::SessionClose { final_anchor, .. } => final_anchor matches Some(anchor)
            ==> anchor_fits(anchor, negotiated),
    }
}

proof fn keys_without_violation_fit(keys: Seq<HidUsage>, negotiated: NegotiatedSession)
    ensures
        keys_violation(keys, negotiated) is None <==> forall|i: int|
            0 <= i < keys.len() ==> key_fits(#[trigger] keys[i], negotiated),
    decreases keys.len(),
{
    if keys.len() > 0 {
        let before = keys.drop_last();
        keys_without_violation_fit(before, negotiated);
        assert(forall|i: int| 0 <= i < before.len() ==> before[i] == #[trigger] keys[i]);
        if forall|i: int| 0 <= i < keys.len() ==> key_fits(#[trigger] keys[i], negotiated) {
            assert(key_fits(keys[keys.len() - 1], negotiated));
            assert forall|i: int| 0 <= i < before.len() implies key_fits(
                #[trigger] before[i],
                negotiated,
            ) by {
                assert(key_fits(keys[i], negotiated));
            }
        }
        if keys_violation(keys, negotiated) is None {
            assert forall|i: int| 0 <= i < keys.len() implies key_fits(
                #[trigger] keys[i],
                negotiated,
            ) by {
                if i < before.len() {
                    assert(key_fits(before[i], negotiated));
                }
            }
        }
    }
}

/// A control passes exactly if it needs no more than what was negotiated.
pub proof fn controls_pass_exactly_as_negotiated(
    payload: ReliableControl,
    negotiated: NegotiatedSession,
)
    ensures
        control_violation(payload, negotiated) is None <==> control_fits(payload, negotiated),
{
    match payload {
        ReliableControl::StateSnapshot(snapshot) => {
            keys_without_violation_fit(snapshot.held.pressed_keys@, negotiated);
        },
        ReliableControl::SessionTakeover(takeover) => {
            keys_without_violation_fit(
                takeover.authoritative_held_state.pressed_keys@,
                negotiated,
            );
        },
        _ => {},
    }
}

/// Motion passes exactly if it needs no more than what was negotiated.
pub proof fn motion_passes_exactly_as_negotiated(
    frame: MotionFrame,
    negotiated: NegotiatedSession,
)
    ensures
        motion_violation(frame, negotiated) is None <==> totals_fit(frame.totals, negotiated) && (
        frame.touch_snapshot matches Some(touch) ==> negotiated.capabilities.touch && contacts_fit(
            touch@.len(),
            negotiated,
        )),
{
}

} // verus!
