//! What the two sides of a session tell each other.
use vstd::prelude::*;

use super::negotiation::ProtocolVersion;
use crate::input::{HidUsage, Modifier, MotionDelta, PointerButton, TouchState};

verus! {

/// Names one activation of one session over one transport.
#[derive(Clone, Copy, Debug, PartialEq, Eq, Structural)]
pub struct SessionContext {
    pub protocol_version: ProtocolVersion,
    pub session_epoch: u128,
    pub transport_generation: u64,
    pub activation_id: u64,
}

/// Movement accumulated since the start of an activation.
#[derive(Clone, Copy, Debug, PartialEq, Eq, Structural)]
pub struct CumulativeMotion {
    pub dx: i64,
    pub dy: i64,
    pub scroll_x: i64,
    pub scroll_y: i64,
}

/// The motion that has to be shown before a control takes effect.
#[derive(Debug, PartialEq, Eq)]
pub struct MotionAnchor {
    pub activation_id: u64,
    pub through_motion_sequence: u64,
    /// Microseconds of the sender's clock.
    pub sender_capture_time: u64,
    pub totals: CumulativeMotion,
    pub final_touch_state: TouchState,
}

#[derive(Debug, PartialEq, Eq)]
pub struct MotionFrame {
    pub session: SessionContext,
    pub motion_sequence: u64,
    pub control_watermark: u64,
    pub sender_capture_time: u64,
    pub totals: CumulativeMotion,
    pub touch_snapshot: Option<TouchState>,
}

#[derive(Clone, Copy, Debug, PartialEq, Eq, Structural)]
pub enum ScrollUnit {
    Device,
    Pixels,
    Lines,
}

#[derive(Clone, Copy, Debug, PartialEq, Eq, Structural)]
pub enum ScrollPhase {
    Begin,
    Update,
    End,
}

#[derive(Clone, Copy, Debug, PartialEq, Eq, Structural)]
pub struct ScrollSource {
    pub unit: ScrollUnit,
    pub resolution_x: Option<u32>,
    pub resolution_y: Option<u32>,
}

#[derive(Clone, Copy, Debug, PartialEq, Eq, Structural)]
pub struct ActiveScroll {
    pub id: u64,
    pub source: ScrollSource,
    pub phase: ScrollPhase,
    pub momentum_phase: Option<ScrollPhase>,
}

/// Everything that is held at one moment.
#[derive(Debug, PartialEq, Eq)]
pub struct HeldState {
    pub pressed_keys: Vec<HidUsage>,
    pub modifiers: Vec<Modifier>,
    pub pressed_buttons: Vec<PointerButton>,
    pub active_scroll: Option<ActiveScroll>,
    pub active_touch: TouchState,
}

#[derive(Debug, PartialEq, Eq)]
pub struct StateSnapshot {
    pub held: HeldState,
    pub motion_anchor: MotionAnchor,
}

/// Moves a live activation to another transport.
#[derive(Debug, PartialEq, Eq)]
pub struct SessionTakeover {
    pub prior_generation: u64,
    pub proposed_generation: u64,
    pub authoritative_held_state: HeldState,
    pub final_motion_anchor: MotionAnchor,
}

#[derive(Clone, Copy, Debug, PartialEq, Eq, Structural)]
pub struct SnapshotAck {
    pub snapshot_sequence: u64,
    pub accepted_generation: u64,
}

#[derive(Clone, Copy, Debug, PartialEq, Eq, Structural)]
pub struct TakeoverAccepted {
    pub accepted_generation: u64,
}

#[derive(Clone, Copy, Debug, PartialEq, Eq, Structural)]
pub enum SessionCloseReason {
    LocalRelease,
    BackendUnavailable,
    ProtocolViolation,
    ConnectionLost,
}

/// One reliable control, in order with all others.
#[derive(Debug, PartialEq, Eq)]
pub enum ReliableControl {
    Enter,
    Leave { anchor: MotionAnchor },
    KeyDown { key: HidUsage },
    KeyUp { key: HidUsage },
    ButtonDown { button: PointerButton, anchor: MotionAnchor },
    ButtonUp { button: PointerButton, anchor: MotionAnchor },
    ScrollBegin { scroll: ActiveScroll },
    ScrollEnd { id: u64, anchor: MotionAnchor },
    ScrollCancel { id: u64, anchor: MotionAnchor },
    TouchBegin { initial_state: TouchState },
    TouchEnd { anchor: MotionAnchor },
    TouchCancel { anchor: MotionAnchor },
    StateSnapshot(StateSnapshot),
    SnapshotAck(SnapshotAck),
    SessionTakeover(SessionTakeover),
    TakeoverAccepted(TakeoverAccepted),
    SessionClose { reason: SessionCloseReason, final_anchor: Option<MotionAnchor> },
}

#[derive(Debug, PartialEq, Eq)]
pub struct ReliableControlMessage {
    pub session: SessionContext,
    pub sequence: u64,
    pub payload: ReliableControl,
}

impl ReliableControl {
    /// The motion that this control waits for.
    pub open spec fn anchor(self) -> Option<MotionAnchor> {
        match self {
            ReliableControl::Leave { anchor } => Some(anchor),
            ReliableControl::ButtonDown { anchor, .. } => Some(anchor),
            ReliableControl::ButtonUp { anchor, .. } => Some(anchor),
            ReliableControl::ScrollEnd { anchor, .. } => Some(anchor),
            ReliableControl::ScrollCancel { anchor, .. } => Some(anchor),
            ReliableControl::TouchEnd { anchor } => Some(anchor),
            ReliableControl::TouchCancel { anchor } => Some(anchor),
            ReliableControl::StateSnapshot(snapshot) => Some(snapshot.motion_anchor),
            ReliableControl::SessionTakeover(takeover) => Some(takeover.final_motion_anchor),
            ReliableControl::SessionClose { final_anchor, .. } => final_anchor,
            _ => None,
        }
    }

    pub fn motion_anchor(&self) -> (result: Option<&MotionAnchor>)
        ensures
            match result {
                Some(anchor) => self.anchor() == Some(*anchor),
                None => self.anchor() is None,
            },
    {
        match self {
            ReliableControl::Leave { anchor } => Some(anchor),
            ReliableControl::ButtonDown { anchor, .. } => Some(anchor),
            ReliableControl::ButtonUp { anchor, .. } => Some(anchor),
            ReliableControl::ScrollEnd { anchor, .. } => Some(anchor),
            ReliableControl::ScrollCancel { anchor, .. } => Some(anchor),
            ReliableControl::TouchEnd { anchor } => Some(anchor),
            ReliableControl::TouchCancel { anchor } => Some(anchor),
            ReliableControl::StateSnapshot(snapshot) => Some(&snapshot.motion_anchor),
            ReliableControl::SessionTakeover(takeover) => Some(&takeover.final_motion_anchor),
            ReliableControl::SessionClose { final_anchor, .. } => match final_anchor {
                Some(anchor) => Some(anchor),
                None => None,
            },
            _ => None,
        }
    }
}

/// Why the receiving side refused a control.
#[derive(Clone, Copy, Debug, PartialEq, Eq, Structural)]
pub enum RejectionReason {
    Stale,
    Duplicate,
    NotAuthorized,
    ControlGap,
    InvalidTransition,
    InvalidTakeover,
    AnchorActivationMismatch,
    AnchorMovedBackwards,
    WrongDirection,
}

/// What the receiving side of a session asks the local machine to do.
#[derive(Debug, PartialEq, Eq)]
pub enum ReceiverEffect {
    Motion { delta: MotionDelta },
    Key { key: HidUsage, pressed: bool, synthetic: bool },
    Button { button: PointerButton, pressed: bool, synthetic: bool },
    Modifier { modifier: Modifier, pressed: bool, synthetic: bool },
    TouchReplaced { state: TouchState, synthetic: bool },
    ActivationOpened(SessionContext),
    ActivationClosed { session: SessionContext },
    ScrollBegan(ActiveScroll),
    ScrollEnded { id: u64, synthetic: bool },
    SnapshotAck { session: SessionContext, ack: SnapshotAck },
    TakeoverAccepted { session: SessionContext, accepted: TakeoverAccepted },
    Rejected { session: SessionContext, reason: RejectionReason },
}

/// A control has an anchor exactly if it ends something or acts where the pointer is:
/// keys, acknowledgements and what begins have none, and a close may go without.
pub proof fn what_ends_has_an_anchor(control: ReliableControl)
    ensures
        control.anchor() is None <==> (control is Enter || control is KeyDown || control is KeyUp
            || control is ScrollBegin || control is TouchBegin || control is SnapshotAck || control
            is TakeoverAccepted || (control matches ReliableControl::SessionClose {
            final_anchor,
            ..
        } && final_anchor is None)),
        control matches ReliableControl::StateSnapshot(snapshot) ==> control.anchor() == Some(
            snapshot.motion_anchor,
        ),
        control matches ReliableControl::SessionTakeover(takeover) ==> control.anchor() == Some(
            takeover.final_motion_anchor,
        ),
{
}

/// A control's anchor is the one that it was made with.
pub proof fn anchors_are_their_controls(
    anchor: MotionAnchor,
    button: PointerButton,
    id: u64,
    reason: SessionCloseReason,
)
    ensures
        (ReliableControl::Leave { anchor }).anchor() == Some(anchor),
        (ReliableControl::ButtonDown { button, anchor }).anchor() == Some(anchor),
        (ReliableControl::ButtonUp { button, anchor }).anchor() == Some(anchor),
        (ReliableControl::ScrollEnd { id, anchor }).anchor() == Some(anchor),
        (ReliableControl::ScrollCancel { id, anchor }).anchor() == Some(anchor),
        (ReliableControl::TouchEnd { anchor }).anchor() == Some(anchor),
        (ReliableControl::TouchCancel { anchor }).anchor() == Some(anchor),
        (ReliableControl::SessionClose { reason, final_anchor: Some(anchor) }).anchor() == Some(
            anchor,
        ),
{
}

} // verus!
