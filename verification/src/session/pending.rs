//! Controls that wait until the motion before them has been shown.
use vstd::prelude::*;

use super::messages::{ReliableControl, ReliableControlMessage, SessionContext};

verus! {

#[derive(Debug)]
pub struct PendingControl {
    pub message: ReliableControlMessage,
    /// When the control arrived, for latency metrics.
    pub received_at: u64,
    /// When the control arrived, in microseconds of the session clock.
    pub receiver_received_at: u64,
}

/// The queue of waiting controls reached its bound.
#[derive(Clone, Copy, Debug, PartialEq, Eq, Structural)]
pub struct QueueFull;

pub fn enqueue_pending_control(
    pending: &mut Vec<PendingControl>,
    message: ReliableControlMessage,
    received_at: u64,
    receiver_received_at: u64,
    maximum: usize,
) -> (result: Result<(), QueueFull>)
    ensures
        result is Ok <==> old(pending)@.len() < maximum,
        final(pending)@ == if result is Ok {
            old(pending)@.push(PendingControl { message, received_at, receiver_received_at })
        } else {
            old(pending)@
        },
{
    if pending.len() >= maximum {
        return Err(QueueFull);
    }
    pending.push(PendingControl { message, received_at, receiver_received_at });
    Ok(())
}

/// A control of the active activation, or a takeover that continues it.
pub open spec fn targets(message: ReliableControlMessage, active: SessionContext) -> bool {
    match message.payload.anchor() {
        None => false,
        Some(anchor) => {
            &&& anchor.activation_id == active.activation_id
            &&& message.session.protocol_version == active.protocol_version
            &&& message.session.session_epoch == active.session_epoch
            &&& match message.payload {
                ReliableControl::SessionTakeover(takeover) => takeover.prior_generation
                    == active.transport_generation && takeover.proposed_generation
                    == message.session.transport_generation,
                _ => message.session == active,
            }
        },
    }
}

pub fn anchor_targets_active_context(
    message: &ReliableControlMessage,
    active: SessionContext,
) -> (result: bool)
    ensures
        result == targets(*message, active),
{
    let anchor = match message.payload.motion_anchor() {
        Some(anchor) => anchor,
        None => return false,
    };
    if anchor.activation_id != active.activation_id || message.session.protocol_version
        != active.protocol_version || message.session.session_epoch != active.session_epoch {
        return false;
    }
    match &message.payload {
        ReliableControl::SessionTakeover(takeover) => takeover.prior_generation
            == active.transport_generation && takeover.proposed_generation
            == message.session.transport_generation,
        _ => message.session == active,
    }
}

/// A control that ends with an activation: its own, or a takeover of it.
pub open spec fn belongs(message: ReliableControlMessage, context: SessionContext) -> bool {
    message.session == context || match message.payload {
        ReliableControl::SessionTakeover(takeover) => {
            &&& message.session.protocol_version == context.protocol_version
            &&& message.session.session_epoch == context.session_epoch
            &&& message.session.activation_id == context.activation_id
            &&& takeover.prior_generation == context.transport_generation
        },
        _ => false,
    }
}

pub fn message_belongs_to_context(
    message: &ReliableControlMessage,
    context: SessionContext,
) -> (result: bool)
    ensures
        result == belongs(*message, context),
{
    if message.session == context {
        return true;
    }
    match &message.payload {
        ReliableControl::SessionTakeover(takeover) => message.session.protocol_version
            == context.protocol_version && message.session.session_epoch == context.session_epoch
            && message.session.activation_id == context.activation_id && takeover.prior_generation
            == context.transport_generation,
        _ => false,
    }
}

/// Waiting controls that do not belong to an activation, in order.
pub open spec fn without_context(
    pending: Seq<PendingControl>,
    context: SessionContext,
) -> Seq<PendingControl>
    decreases pending.len(),
{
    if pending.len() == 0 {
        Seq::empty()
    } else {
        let before = without_context(pending.drop_last(), context);
        if belongs(pending.last().message, context) {
            before
        } else {
            before.push(pending.last())
        }
    }
}

/// Drops every waiting control of a closed activation.
pub fn discard_pending_context(pending: &mut Vec<PendingControl>, context: SessionContext)
    ensures
        final(pending)@ == without_context(old(pending)@, context),
{
    let mut all: Vec<PendingControl> = Vec::new();
    std::mem::swap(pending, &mut all);
    let ghost start = all@;
    let ghost mut done: int = 0;
    assert(start.take(0) =~= Seq::empty());
    while all.len() > 0
        invariant
            0 <= done <= start.len(),
            all@ == start.skip(done),
            pending@ == without_context(start.take(done), context),
        decreases all@.len(),
    {
        let item = all.remove(0);
        proof {
            assert(item == start[done]);
            assert(start.take(done + 1).drop_last() =~= start.take(done));
            assert(start.skip(done).remove(0) =~= start.skip(done + 1));
        }
        if !message_belongs_to_context(&item.message, context) {
            pending.push(item);
        }
        proof {
            done = done + 1;
        }
    }
    assert(start.take(done) =~= start);
}

/// The activation has no playout schedule to wait for.
#[derive(Clone, Copy, Debug, PartialEq, Eq, Structural)]
pub struct NoPlayout;

pub open spec fn saturating(value: int) -> u64 {
    if value <= u64::MAX {
        value as u64
    } else {
        u64::MAX
    }
}

/// A moment later than `time`, both in microseconds.
pub fn add_duration(time: u64, duration: u64) -> (result: u64)
    ensures
        result == saturating(time + duration),
{
    time.saturating_add(duration)
}

/// Whether a waiting control may be applied. Only a control whose anchor belongs
/// to the active activation waits: until its capture time, mapped to the local
/// clock, plus the playout delay. `playout` is the scheduled activation and its
/// delay, `mapped_capture_time` the anchor's capture time on the local clock.
pub fn pending_control_is_ready(
    pending: &PendingControl,
    active: Option<SessionContext>,
    playout: Option<(SessionContext, u64)>,
    mapped_capture_time: u64,
    now: u64,
) -> (result: Result<bool, NoPlayout>)
    ensures
        match active {
            Some(context) => if targets(pending.message, context) {
                match playout {
                    Some((session, delay)) => if session == context {
                        result == Ok::<bool, NoPlayout>(
                            saturating(mapped_capture_time + delay) <= now,
                        )
                    } else {
                        result is Err
                    },
                    None => result is Err,
                }
            } else {
                result == Ok::<bool, NoPlayout>(true)
            },
            None => result == Ok::<bool, NoPlayout>(true),
        },
{
    let active = match active {
        Some(active) => active,
        None => return Ok(true),
    };
    if !anchor_targets_active_context(&pending.message, active) {
        return Ok(true);
    }
    match playout {
        Some((session, delay)) => if session == active {
            Ok(add_duration(mapped_capture_time, delay) <= now)
        } else {
            Err(NoPlayout)
        },
        None => Err(NoPlayout),
    }
}

/// Takes the first waiting control. Later controls stay behind it, in order.
pub fn pop_pending(pending: &mut Vec<PendingControl>) -> (result: Option<PendingControl>)
    ensures
        match result {
            Some(item) => old(pending)@.len() > 0 && item == old(pending)@[0] && final(pending)@
                == old(pending)@.skip(1),
            None => old(pending)@.len() == 0 && final(pending)@ == old(pending)@,
        },
{
    if pending.len() == 0 {
        return None;
    }
    let item = pending.remove(0);
    assert(old(pending)@.remove(0) =~= old(pending)@.skip(1));
    Some(item)
}

/// After an activation closes, nothing of it is left waiting.
pub proof fn discarded_controls_are_gone(pending: Seq<PendingControl>, context: SessionContext)
    ensures
        forall|i: int|
            0 <= i < without_context(pending, context).len() ==> !belongs(
                (#[trigger] without_context(pending, context)[i]).message,
                context,
            ),
    decreases pending.len(),
{
    if pending.len() > 0 {
        discarded_controls_are_gone(pending.drop_last(), context);
    }
}

/// Discarding an activation keeps the controls of all others, in their order.
pub proof fn other_controls_are_kept(
    before: Seq<PendingControl>,
    after: Seq<PendingControl>,
    control: PendingControl,
    context: SessionContext,
)
    ensures
        without_context(before + after, context) == without_context(before, context)
            + without_context(after, context),
        without_context(seq![control], context) == if belongs(control.message, context) {
            Seq::<PendingControl>::empty()
        } else {
            seq![control]
        },
    decreases after.len(),
{
    let one = seq![control];
    assert(one.drop_last() =~= Seq::<PendingControl>::empty());
    assert(without_context(one.drop_last(), context) =~= Seq::empty());
    assert(without_context(one, context) =~= if belongs(control.message, context) {
        Seq::<PendingControl>::empty()
    } else {
        one
    });
    if after.len() == 0 {
        assert(before + after =~= before);
        assert(without_context(before, context) + without_context(after, context)
            =~= without_context(before, context));
    } else {
        other_controls_are_kept(before, after.drop_last(), control, context);
        assert((before + after).drop_last() =~= before + after.drop_last());
        assert((before + after).last() == after.last());
        assert(without_context(before + after, context) =~= without_context(before, context)
            + without_context(after, context));
    }
}

/// A control belongs to the activation that it names, and to no other. A takeover
/// also belongs to the activation that it moves, on the transport it moves it from.
pub proof fn controls_belong_to_their_activation(
    message: ReliableControlMessage,
    context: SessionContext,
)
    ensures
        message.session == context ==> belongs(message, context),
        belongs(message, context) ==> message.session.activation_id == context.activation_id
            && message.session.session_epoch == context.session_epoch
            && message.session.protocol_version == context.protocol_version,
        belongs(message, context) && !(message.payload is SessionTakeover) ==> message.session
            == context,
        message.payload matches ReliableControl::SessionTakeover(takeover) && message.session
            == (SessionContext {
            transport_generation: message.session.transport_generation,
            ..context
        }) && takeover.prior_generation == context.transport_generation ==> belongs(
            message,
            context,
        ),
        belongs(message, context) && message.session != context ==> (
        message.payload matches ReliableControl::SessionTakeover(takeover)
            && takeover.prior_generation == context.transport_generation),
{
}

/// A control waits for motion exactly if it names how far the motion of the running
/// activation must have come.
pub proof fn only_anchored_controls_wait(
    message: ReliableControlMessage,
    active: SessionContext,
)
    ensures
        targets(message, active) ==> message.payload.anchor() is Some
            && message.payload.anchor()->0.activation_id == active.activation_id && belongs(
            message,
            SessionContext { activation_id: message.session.activation_id, ..active },
        ),
        message.session == active && !(message.payload is SessionTakeover) && (
        message.payload.anchor() matches Some(anchor) && anchor.activation_id
            == active.activation_id) ==> targets(message, active),
        message.payload.anchor() is None ==> message.payload is Enter || message.payload is KeyDown
            || message.payload is KeyUp || message.payload is ScrollBegin
            || message.payload is TouchBegin || message.payload is SnapshotAck
            || message.payload is TakeoverAccepted || (
        message.payload matches ReliableControl::SessionClose { final_anchor, .. }
            && final_anchor is None),
        message.payload matches ReliableControl::ButtonDown { anchor, .. }
            ==> message.payload.anchor() == Some(anchor),
        message.payload matches ReliableControl::ButtonUp { anchor, .. }
            ==> message.payload.anchor() == Some(anchor),
        message.payload matches ReliableControl::StateSnapshot(snapshot)
            ==> message.payload.anchor() == Some(snapshot.motion_anchor),
        message.payload matches ReliableControl::SessionTakeover(takeover)
            ==> message.payload.anchor() == Some(takeover.final_motion_anchor),
{
}

/// A number that does not fit is the greatest that does.
pub proof fn saturated_numbers_are_the_greatest(value: int, other: u64)
    requires
        0 <= value,
    ensures
        saturating(value) <= value,
        other <= value ==> other <= saturating(value),
{
}

} // verus!
