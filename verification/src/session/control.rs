//! Session bookkeeping around a reliable control.
use vstd::prelude::*;

use super::messages::{ReceiverEffect, SessionContext};
use super::negotiation::ProtocolVersion;
use super::pending::saturating;
use crate::input::MotionDelta;

verus! {

/// The session that the receiving side has authorized.
#[derive(Clone, Copy, Debug, PartialEq, Eq, Structural)]
pub struct SessionBoundary {
    pub protocol_version: ProtocolVersion,
    pub session_epoch: u128,
    pub transport_generation: u64,
}

pub open spec fn boundary_of(session: SessionContext) -> SessionBoundary {
    SessionBoundary {
        protocol_version: session.protocol_version,
        session_epoch: session.session_epoch,
        transport_generation: session.transport_generation,
    }
}

/// What has to happen before a control is handed to the receiver.
#[derive(Clone, Copy, Debug, PartialEq, Eq, Structural)]
pub struct AuthorizeStep {
    /// The control's session has to be authorized first.
    pub authorize: bool,
    /// The clock mapping starts over.
    pub epoch_changed: bool,
    pub generation_changed: bool,
}

/// Controls of another session are authorized before they count. A takeover is
/// not: it has to be accepted by the session that it continues.
pub fn authorize_step(
    authorized: Option<SessionBoundary>,
    session: SessionContext,
    takeover: bool,
) -> (result: AuthorizeStep)
    ensures
        result.authorize == (authorized != Some(boundary_of(session)) && !takeover),
        result.epoch_changed == (result.authorize && authorized is Some
            && authorized->0.session_epoch != session.session_epoch),
        result.generation_changed == (result.authorize && !result.epoch_changed
            && authorized is Some && authorized->0.transport_generation
            != session.transport_generation),
{
    let boundary = SessionBoundary {
        protocol_version: session.protocol_version,
        session_epoch: session.session_epoch,
        transport_generation: session.transport_generation,
    };
    match authorized {
        Some(current) => {
            let authorize = current != boundary && !takeover;
            let epoch_changed = authorize && current.session_epoch != session.session_epoch;
            AuthorizeStep {
                authorize,
                epoch_changed,
                generation_changed: authorize && !epoch_changed && current.transport_generation
                    != session.transport_generation,
            }
        },
        None => AuthorizeStep {
            authorize: !takeover,
            epoch_changed: false,
            generation_changed: false,
        },
    }
}

pub open spec fn has_takeover(effects: Seq<ReceiverEffect>) -> bool {
    exists|i: int| 0 <= i < effects.len() && (#[trigger] effects[i]) is TakeoverAccepted
}

pub open spec fn has_rejection(effects: Seq<ReceiverEffect>) -> bool {
    exists|i: int| 0 <= i < effects.len() && (#[trigger] effects[i]) is Rejected
}

pub open spec fn has_opening(effects: Seq<ReceiverEffect>) -> bool {
    exists|i: int| 0 <= i < effects.len() && (#[trigger] effects[i]) is ActivationOpened
}

/// What follows from the receiver's answer to a control.
#[derive(Clone, Copy, Debug, PartialEq, Eq, Structural)]
pub struct ControlFollowUp {
    /// The session that is authorized from now on.
    pub authorized: Option<SessionBoundary>,
    /// Another transport carries the session from now on.
    pub generation_changed: bool,
    /// Motion is scheduled afresh.
    pub restart_playout: bool,
    /// Motion statistics start over.
    pub begin_activation: bool,
    /// The control moves the playout watermark and rebases motion.
    pub advance_playout: bool,
}

/// Draws the consequences of a control. An accepted takeover moves the session
/// to its transport, an opened activation starts new motion, and a rejected
/// control changes nothing.
pub fn after_control(
    authorized: Option<SessionBoundary>,
    session: SessionContext,
    takeover: bool,
    effects: &Vec<ReceiverEffect>,
) -> (result: ControlFollowUp)
    ensures
        ({
            let accepted = takeover && has_takeover(effects@);
            let rejected = has_rejection(effects@);
            let opened = !rejected && has_opening(effects@);
            result == (ControlFollowUp {
                authorized: if accepted {
                    Some(boundary_of(session))
                } else {
                    authorized
                },
                generation_changed: accepted && authorized is Some
                    && authorized->0.transport_generation != session.transport_generation,
                restart_playout: accepted || opened,
                begin_activation: opened,
                advance_playout: !rejected,
            })
        }),
{
    let mut took_over = false;
    let mut rejected = false;
    let mut opened = false;
    let mut at: usize = 0;
    while at < effects.len()
        invariant
            at <= effects@.len(),
            took_over == exists|i: int|
                0 <= i < at && (#[trigger] effects@[i]) is TakeoverAccepted,
            rejected == exists|i: int| 0 <= i < at && (#[trigger] effects@[i]) is Rejected,
            opened == exists|i: int|
                0 <= i < at && (#[trigger] effects@[i]) is ActivationOpened,
        decreases effects@.len() - at,
    {
        assert(effects@[at as int] == effects@[at as int]);
        match &effects[at] {
            ReceiverEffect::TakeoverAccepted { .. } => {
                took_over = true;
            },
            ReceiverEffect::Rejected { .. } => {
                rejected = true;
            },
            ReceiverEffect::ActivationOpened(_) => {
                opened = true;
            },
            _ => {},
        }
        at = at + 1;
    }
    let accepted = takeover && took_over;
    let boundary = SessionBoundary {
        protocol_version: session.protocol_version,
        session_epoch: session.session_epoch,
        transport_generation: session.transport_generation,
    };
    let generation_changed = match authorized {
        Some(current) => accepted && current.transport_generation != session.transport_generation,
        None => false,
    };
    let authorized = if accepted {
        Some(boundary)
    } else {
        authorized
    };
    ControlFollowUp {
        authorized,
        generation_changed,
        restart_playout: accepted || (!rejected && opened),
        begin_activation: !rejected && opened,
        advance_playout: !rejected,
    }
}

pub open spec fn magnitude(value: i64) -> int {
    if value < 0 {
        -(value as int)
    } else {
        value as int
    }
}

fn unsigned_magnitude(value: i64) -> (result: u64)
    ensures
        result == magnitude(value),
{
    if value < 0 {
        (-(value + 1)) as u64 + 1
    } else {
        value as u64
    }
}

/// A running total of movement along two axes, which stops at the largest value.
pub fn add_units(total: u64, first: i64, second: i64) -> (result: u64)
    ensures
        result == saturating(total + magnitude(first) + magnitude(second)),
{
    total.saturating_add(unsigned_magnitude(first)).saturating_add(unsigned_magnitude(second))
}

/// Movement counters of a session.
#[derive(Clone, Copy, Debug, PartialEq, Eq, Structural)]
pub struct MotionCounters {
    pub explicit_rebases: u64,
    pub rebase_discarded_pointer_units: u64,
    pub rebase_discarded_scroll_units: u64,
    pub scheduler_late_events: u64,
    pub catch_up_steps: u64,
    pub catch_up_pointer_units: u64,
    pub catch_up_scroll_units: u64,
}

/// What one playout step reported.
#[derive(Clone, Copy, Debug, PartialEq, Eq, Structural)]
pub struct PlayoutProgress {
    pub late_before: u64,
    pub late_after: u64,
    pub catch_up_before: u64,
    pub catch_up_after: u64,
    pub pointer_limited: bool,
    pub scroll_limited: bool,
    pub delta: MotionDelta,
}

pub open spec fn gained(before: u64, after: u64) -> int {
    if after > before {
        after - before
    } else {
        0
    }
}

impl MotionCounters {
    /// Counts a rebase and the movement that it discarded.
    pub fn record_rebase(&mut self, discarded: MotionDelta)
        ensures
            *final(self) == (MotionCounters {
                explicit_rebases: saturating(old(self).explicit_rebases + 1),
                rebase_discarded_pointer_units: saturating(
                    old(self).rebase_discarded_pointer_units + magnitude(discarded.dx) + magnitude(
                        discarded.dy,
                    ),
                ),
                rebase_discarded_scroll_units: saturating(
                    old(self).rebase_discarded_scroll_units + magnitude(discarded.scroll_x)
                        + magnitude(discarded.scroll_y),
                ),
                ..*old(self)
            }),
    {
        self.explicit_rebases = self.explicit_rebases.saturating_add(1);
        self.rebase_discarded_pointer_units = add_units(
            self.rebase_discarded_pointer_units,
            discarded.dx,
            discarded.dy,
        );
        self.rebase_discarded_scroll_units = add_units(
            self.rebase_discarded_scroll_units,
            discarded.scroll_x,
            discarded.scroll_y,
        );
    }

    /// Counts lateness and catching up of a playout step. Movement counts as
    /// catching up only where the step was limited.
    pub fn record_step(&mut self, step: PlayoutProgress)
        ensures
            ({
                let late = gained(step.late_before, step.late_after);
                let caught = gained(step.catch_up_before, step.catch_up_after);
                *final(self) == (MotionCounters {
                    scheduler_late_events: saturating(old(self).scheduler_late_events + late),
                    catch_up_steps: saturating(old(self).catch_up_steps + caught),
                    catch_up_pointer_units: if caught > 0 && step.pointer_limited {
                        saturating(
                            old(self).catch_up_pointer_units + magnitude(step.delta.dx)
                                + magnitude(step.delta.dy),
                        )
                    } else {
                        old(self).catch_up_pointer_units
                    },
                    catch_up_scroll_units: if caught > 0 && step.scroll_limited {
                        saturating(
                            old(self).catch_up_scroll_units + magnitude(step.delta.scroll_x)
                                + magnitude(step.delta.scroll_y),
                        )
                    } else {
                        old(self).catch_up_scroll_units
                    },
                    ..*old(self)
                })
            }),
    {
        let late: u64 = step.late_after.saturating_sub(step.late_before);
        let caught: u64 = step.catch_up_after.saturating_sub(step.catch_up_before);
        self.scheduler_late_events = self.scheduler_late_events.saturating_add(late);
        self.catch_up_steps = self.catch_up_steps.saturating_add(caught);
        if caught > 0 {
            if step.pointer_limited {
                self.catch_up_pointer_units = add_units(
                    self.catch_up_pointer_units,
                    step.delta.dx,
                    step.delta.dy,
                );
            }
            if step.scroll_limited {
                self.catch_up_scroll_units = add_units(
                    self.catch_up_scroll_units,
                    step.delta.scroll_x,
                    step.delta.scroll_y,
                );
            }
        }
    }
}

/// What happens to motion that arrived.
#[derive(Clone, Copy, Debug, PartialEq, Eq, Structural)]
pub enum MotionFate {
    /// Motion of another activation, or of none.
    Stale,
    /// Motion to schedule, after starting the clock mapping if it has none.
    Schedule { bootstrap_clock: bool },
}

/// Only motion of the scheduled activation is shown. One arrival gives playout a
/// first clock mapping; later arrivals carry network jitter and do not train it.
pub fn motion_fate(
    scheduled: Option<SessionContext>,
    session: SessionContext,
    clock_ready: bool,
) -> (result: MotionFate)
    ensures
        result == if scheduled == Some(session) {
            MotionFate::Schedule { bootstrap_clock: !clock_ready }
        } else {
            MotionFate::Stale
        },
{
    match scheduled {
        Some(active) => if active == session {
            MotionFate::Schedule { bootstrap_clock: !clock_ready }
        } else {
            MotionFate::Stale
        },
        None => MotionFate::Stale,
    }
}

/// Two activations are authorized together exactly if they share the version, the
/// session and the transport, whatever their numbers.
pub proof fn boundaries_name_a_transport(left: SessionContext, right: SessionContext)
    ensures
        boundary_of(left) == boundary_of(right) <==> left.protocol_version
            == right.protocol_version && left.session_epoch == right.session_epoch
            && left.transport_generation == right.transport_generation,
{
}

/// A magnitude does not know the direction, and grows with the distance.
pub proof fn magnitudes_are_distances(value: i64)
    ensures
        magnitude(value) >= 0,
        magnitude(value) == value || magnitude(value) == -value,
{
}

/// A count that grew by a number gained that number, and one that was set back gained
/// nothing.
pub proof fn counts_gain_what_they_grew_by(before: u64, after: u64)
    ensures
        after >= before ==> before + gained(before, after) == after,
        after <= before ==> gained(before, after) == 0,
{
}

} // verus!
