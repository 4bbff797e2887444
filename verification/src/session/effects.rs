//! Receiver effects: what goes to the local machine and what is answered.
use vstd::prelude::*;

use super::messages::{
    ReceiverEffect, RejectionReason, ReliableControl, ReliableControlMessage, SessionContext,
};

verus! {

/// A release that nobody pressed for: the other side went away.
pub open spec fn synthetic_release(effect: ReceiverEffect) -> bool {
    match effect {
        ReceiverEffect::Key { pressed, synthetic, .. } => !pressed && synthetic,
        ReceiverEffect::Button { pressed, synthetic, .. } => !pressed && synthetic,
        ReceiverEffect::Modifier { pressed, synthetic, .. } => !pressed && synthetic,
        ReceiverEffect::ScrollEnded { synthetic, .. } => synthetic,
        ReceiverEffect::TouchReplaced { synthetic, .. } => synthetic,
        _ => false,
    }
}

pub fn is_synthetic_release(effect: &ReceiverEffect) -> (result: bool)
    ensures
        result == synthetic_release(*effect),
{
    match effect {
        ReceiverEffect::Key { pressed, synthetic, .. } => !*pressed && *synthetic,
        ReceiverEffect::Button { pressed, synthetic, .. } => !*pressed && *synthetic,
        ReceiverEffect::Modifier { pressed, synthetic, .. } => !*pressed && *synthetic,
        ReceiverEffect::ScrollEnded { synthetic, .. } => *synthetic,
        ReceiverEffect::TouchReplaced { synthetic, .. } => *synthetic,
        _ => false,
    }
}

/// Rejections that no well-behaved peer causes.
pub open spec fn is_fatal(reason: RejectionReason) -> bool {
    reason == RejectionReason::ControlGap || reason == RejectionReason::InvalidTransition || reason
        == RejectionReason::InvalidTakeover || reason == RejectionReason::AnchorActivationMismatch
        || reason == RejectionReason::AnchorMovedBackwards || reason
        == RejectionReason::WrongDirection
}

fn rejection_is_fatal(reason: RejectionReason) -> (result: bool)
    ensures
        result == is_fatal(reason),
{
    match reason {
        RejectionReason::ControlGap
        | RejectionReason::InvalidTransition
        | RejectionReason::InvalidTakeover
        | RejectionReason::AnchorActivationMismatch
        | RejectionReason::AnchorMovedBackwards
        | RejectionReason::WrongDirection => true,
        _ => false,
    }
}

/// An answer to the peer.
#[derive(Debug)]
pub struct Response {
    pub session: SessionContext,
    pub payload: ReliableControl,
}

/// Effects sorted by where they go.
#[derive(Debug)]
pub struct SplitEffects {
    /// Effects for the local machine.
    pub backend: Vec<ReceiverEffect>,
    /// Answers, sent only after every backend effect was applied.
    pub responses: Vec<Response>,
    pub rejected: u64,
    pub synthetic_releases: u64,
}

/// The peer sent an invalid state transition; rejections up to it are counted.
#[derive(Clone, Copy, Debug, PartialEq, Eq, Structural)]
pub struct InvalidTransition {
    pub rejected: u64,
}

pub open spec fn is_backend(effect: ReceiverEffect) -> bool {
    !(effect is SnapshotAck) && !(effect is TakeoverAccepted) && !(effect is Rejected)
}

pub open spec fn backend_of(effects: Seq<ReceiverEffect>) -> Seq<ReceiverEffect>
    decreases effects.len(),
{
    if effects.len() == 0 {
        Seq::empty()
    } else if is_backend(effects.last()) {
        backend_of(effects.drop_last()).push(effects.last())
    } else {
        backend_of(effects.drop_last())
    }
}

pub open spec fn response_of(effect: ReceiverEffect) -> Option<Response> {
    match effect {
        ReceiverEffect::SnapshotAck { session, ack } => Some(
            Response { session, payload: ReliableControl::SnapshotAck(ack) },
        ),
        ReceiverEffect::TakeoverAccepted { session, accepted } => Some(
            Response { session, payload: ReliableControl::TakeoverAccepted(accepted) },
        ),
        _ => None,
    }
}

pub open spec fn responses_of(effects: Seq<ReceiverEffect>) -> Seq<Response>
    decreases effects.len(),
{
    if effects.len() == 0 {
        Seq::empty()
    } else {
        let before = responses_of(effects.drop_last());
        match response_of(effects.last()) {
            Some(response) => before.push(response),
            None => before,
        }
    }
}

pub open spec fn rejections(effects: Seq<ReceiverEffect>) -> nat
    decreases effects.len(),
{
    if effects.len() == 0 {
        0
    } else {
        rejections(effects.drop_last()) + if effects.last() is Rejected {
            1nat
        } else {
            0nat
        }
    }
}

pub open spec fn synthetic_count(effects: Seq<ReceiverEffect>) -> nat
    decreases effects.len(),
{
    if effects.len() == 0 {
        0
    } else {
        synthetic_count(effects.drop_last()) + if synthetic_release(effects.last()) {
            1nat
        } else {
            0nat
        }
    }
}

pub open spec fn fatal_at(effects: Seq<ReceiverEffect>, at: int) -> bool {
    effects[at] matches ReceiverEffect::Rejected { reason, .. } && is_fatal(reason)
}

/// Sorts effects by where they go. The first fatal rejection ends the session.
pub fn split_effects(effects: Vec<ReceiverEffect>) -> (result: Result<
    SplitEffects,
    InvalidTransition,
>)
    ensures
        match result {
            Ok(split) => {
                &&& forall|i: int| 0 <= i < effects@.len() ==> !#[trigger] fatal_at(effects@, i)
                &&& split.backend@ == backend_of(effects@)
                &&& split.responses@ == responses_of(effects@)
                &&& split.rejected == rejections(effects@)
                &&& split.synthetic_releases == synthetic_count(effects@)
            },
            Err(error) => exists|at: int|
                {
                    &&& 0 <= at < effects@.len()
                    &&& #[trigger] fatal_at(effects@, at)
                    &&& forall|i: int| 0 <= i < at ==> !#[trigger] fatal_at(effects@, i)
                    &&& error.rejected == rejections(effects@.take(at + 1))
                },
        },
{
    let total: usize = effects.len();
    let mut remaining = effects;
    let ghost all = remaining@;
    let ghost mut done: int = 0;
    let mut backend: Vec<ReceiverEffect> = Vec::new();
    let mut responses: Vec<Response> = Vec::new();
    let mut rejected: u64 = 0;
    let mut synthetic_releases: u64 = 0;
    assert(all.take(0) =~= Seq::empty());
    while remaining.len() > 0
        invariant
            all == effects@,
            0 <= done <= all.len(),
            all.len() == total,
            remaining@ == all.skip(done),
            backend@ == backend_of(all.take(done)),
            responses@ == responses_of(all.take(done)),
            rejected == rejections(all.take(done)),
            rejected <= done,
            synthetic_releases == synthetic_count(all.take(done)),
            synthetic_releases <= done,
            forall|i: int| 0 <= i < done ==> !#[trigger] fatal_at(all, i),
        decreases remaining@.len(),
    {
        let effect = remaining.remove(0);
        proof {
            assert(effect == all[done]);
            assert(all.take(done + 1).drop_last() =~= all.take(done));
            assert(all.skip(done).remove(0) =~= all.skip(done + 1));
        }
        if is_synthetic_release(&effect) {
            synthetic_releases = synthetic_releases + 1;
        }
        match effect {
            ReceiverEffect::SnapshotAck { session, ack } => {
                responses.push(Response { session, payload: ReliableControl::SnapshotAck(ack) });
            },
            ReceiverEffect::TakeoverAccepted { session, accepted } => {
                responses.push(
                    Response { session, payload: ReliableControl::TakeoverAccepted(accepted) },
                );
            },
            ReceiverEffect::Rejected { session: _, reason } => {
                rejected = rejected + 1;
                if rejection_is_fatal(reason) {
                    assert(fatal_at(all, done));
                    return Err(InvalidTransition { rejected });
                }
            },
            other => {
                backend.push(other);
            },
        }
        proof {
            assert(!fatal_at(all, done));
            done = done + 1;
        }
    }
    assert(all.take(done) =~= all);
    Ok(SplitEffects { backend, responses, rejected, synthetic_releases })
}

/// Numbers an answer after the ones before it; nothing is sent once the numbers
/// are used up.
pub fn next_response(sequence: &mut u64, response: Response) -> (result: Option<
    ReliableControlMessage,
>)
    ensures
        if *old(sequence) < u64::MAX {
            &&& *final(sequence) == *old(sequence) + 1
            &&& result == Some(
                ReliableControlMessage {
                    session: response.session,
                    sequence: *final(sequence),
                    payload: response.payload,
                },
            )
        } else {
            result is None && *final(sequence) == *old(sequence)
        },
{
    match sequence.checked_add(1) {
        Some(next) => {
            *sequence = next;
            Some(
                ReliableControlMessage {
                    session: response.session,
                    sequence: next,
                    payload: response.payload,
                },
            )
        },
        None => None,
    }
}

/// Every effect goes somewhere: to the local machine, to the peer, or into the
/// count of rejections.
pub proof fn no_effect_is_lost(effects: Seq<ReceiverEffect>)
    ensures
        backend_of(effects).len() + responses_of(effects).len() + rejections(effects)
            == effects.len(),
    decreases effects.len(),
{
    if effects.len() > 0 {
        no_effect_is_lost(effects.drop_last());
    }
}

/// Effects are told apart one by one and keep their order: input and the opening and
/// closing of activations go to the devices as they are, what has to be answered is
/// answered to the session it came from, and refusals are counted.
pub proof fn effects_are_split_one_by_one(
    before: Seq<ReceiverEffect>,
    after: Seq<ReceiverEffect>,
    effect: ReceiverEffect,
)
    ensures
        backend_of(before + after) == backend_of(before) + backend_of(after),
        responses_of(before + after) == responses_of(before) + responses_of(after),
        match effect {
            ReceiverEffect::SnapshotAck { session, ack } => backend_of(seq![effect]).len() == 0
                && responses_of(seq![effect]) == seq![
                Response { session, payload: ReliableControl::SnapshotAck(ack) },
            ] && rejections(seq![effect]) == 0,
            ReceiverEffect::TakeoverAccepted { session, accepted } => backend_of(
                seq![effect],
            ).len() == 0 && responses_of(seq![effect]) == seq![
                Response { session, payload: ReliableControl::TakeoverAccepted(accepted) },
            ] && rejections(seq![effect]) == 0,
            ReceiverEffect::Rejected { .. } => backend_of(seq![effect]).len() == 0 && responses_of(
                seq![effect],
            ).len() == 0 && rejections(seq![effect]) == 1,
            _ => backend_of(seq![effect]) == seq![effect] && responses_of(seq![effect]).len() == 0
                && rejections(seq![effect]) == 0,
        },
    decreases after.len(),
{
    let one = seq![effect];
    assert(one.drop_last() =~= Seq::<ReceiverEffect>::empty());
    assert(one.last() == effect);
    assert(backend_of(one.drop_last()) =~= Seq::empty());
    assert(responses_of(one.drop_last()) =~= Seq::empty());
    assert(backend_of(one) =~= if is_backend(effect) {
        seq![effect]
    } else {
        Seq::empty()
    });
    assert(responses_of(one) =~= match response_of(effect) {
        Some(response) => seq![response],
        None => Seq::empty(),
    });
    assert(rejections(one.drop_last()) == 0);
    if after.len() == 0 {
        assert(before + after =~= before);
        assert(backend_of(before) + backend_of(after) =~= backend_of(before));
        assert(responses_of(before) + responses_of(after) =~= responses_of(before));
    } else {
        effects_are_split_one_by_one(before, after.drop_last(), effect);
        assert((before + after).drop_last() =~= before + after.drop_last());
        assert((before + after).last() == after.last());
        assert(backend_of(before + after) =~= backend_of(before) + backend_of(after));
        assert(responses_of(before + after) =~= responses_of(before) + responses_of(after));
    }
}

/// A refusal ends the session unless the control only came too late, twice, or from
/// a side that may not send.
pub proof fn only_harmless_refusals_are_survived(reason: RejectionReason)
    ensures
        !is_fatal(reason) <==> reason is Stale || reason is Duplicate || reason is NotAuthorized,
{
}

/// What counts as a release that nobody sent: something let go, and marked so.
pub proof fn only_marked_releases_are_synthetic(effect: ReceiverEffect)
    ensures
        match effect {
            ReceiverEffect::Key { pressed, synthetic, .. } => synthetic_release(effect) <==> (
            synthetic && !pressed),
            ReceiverEffect::Button { pressed, synthetic, .. } => synthetic_release(effect) <==> (
            synthetic && !pressed),
            ReceiverEffect::Modifier { pressed, synthetic, .. } => synthetic_release(effect) <==> (
            synthetic && !pressed),
            ReceiverEffect::ScrollEnded { synthetic, .. } => synthetic_release(effect)
                <==> synthetic,
            ReceiverEffect::TouchReplaced { synthetic, .. } => synthetic_release(effect)
                <==> synthetic,
            _ => !synthetic_release(effect),
        },
{
}

/// Synthetic releases are counted one by one.
pub proof fn synthetic_releases_add_up(
    first: Seq<ReceiverEffect>,
    second: Seq<ReceiverEffect>,
    effect: ReceiverEffect,
)
    ensures
        synthetic_count(first + second) == synthetic_count(first) + synthetic_count(second),
        synthetic_count(seq![effect]) == if synthetic_release(effect) {
            1nat
        } else {
            0nat
        },
    decreases second.len(),
{
    if second.len() == 0 {
        assert(first + second =~= first);
    } else {
        synthetic_releases_add_up(first, second.drop_last(), effect);
        assert((first + second).drop_last() =~= first + second.drop_last());
    }
    assert(seq![effect].drop_last() =~= Seq::empty());
    assert(synthetic_count(Seq::<ReceiverEffect>::empty()) == 0);
}

} // verus!
