//! The actor that owns one session: what each event makes it do.
//!
//! The actor's task owns the connection, the sender and the receiver. It reports
//! what happened here, and carries out what comes back.
use vstd::prelude::*;

use super::desktop::{DesktopError, DesktopExchange, IncomingRequest};
use super::messages::{
    ReliableControl, ReliableControlMessage, SessionContext, SnapshotAck, TakeoverAccepted,
};
use super::negotiation::{NegotiatedSession, ProtocolVersion};
use super::outbound::{check_begin, OutboundError};
use super::pending::{
    belongs, discard_pending_context, discarded_controls_are_gone, enqueue_pending_control,
    without_context, PendingControl,
};
use super::validation::{control_violation, validate_negotiated_control, Violation};

verus! {

pub struct SessionActor {
    /// The activation in which this side sends, if one is open.
    pub outbound: Option<SessionContext>,
    /// Received controls that wait for their turn.
    pub pending: Vec<PendingControl>,
}

/// Why a received control ends the session.
#[derive(Clone, Copy, Debug, PartialEq, Eq, Structural)]
pub enum ControlRefusal {
    NotNegotiated(Violation),
    /// A snapshot was acknowledged although this side sends nothing.
    AcknowledgementWithoutActivation,
    /// A snapshot of another activation was acknowledged.
    AcknowledgementOfOther,
    /// A takeover was accepted although this side sends nothing.
    TakeoverWithoutActivation,
    QueueFull,
}

/// Where a received control goes.
#[derive(Clone, Copy, Debug, PartialEq, Eq, Structural)]
pub enum ControlRoute {
    /// To the sender, whose snapshot was acknowledged.
    Acknowledge(SnapshotAck),
    /// To the sender, whose takeover was accepted.
    AcceptTakeover(TakeoverAccepted),
    /// Into the queue.
    Queued,
}

/// What the sender's clock asks for.
#[derive(Clone, Copy, Debug, PartialEq, Eq, Structural)]
pub enum SenderTick {
    Idle,
    /// Send a checkpoint, which renews the lease.
    Checkpoint,
    /// The lease ran out: this side no longer controls the other one.
    ExitRemote,
}

/// A message on the session's control stream.
#[derive(Debug)]
pub enum ControlMessage {
    NegotiationOffer,
    NegotiatedSession,
    /// A request of the peer's; `finish` ends a handoff.
    DesktopRequest { id: u64, finish: bool },
    DesktopResponse { id: u64 },
    Reliable(ReliableControlMessage),
}

/// Where a message goes.
#[derive(Clone, Copy, Debug, PartialEq, Eq, Structural)]
pub enum MessageRoute {
    /// The desktop request waits for its turn.
    DesktopRequested,
    /// Our desktop request was answered.
    DesktopAnswered,
    Control(ControlRoute),
}

/// Why a message ends the session.
#[derive(Clone, Copy, Debug, PartialEq, Eq, Structural)]
pub enum MessageRefusal {
    /// A session is negotiated once.
    RepeatedNegotiation,
    Desktop(DesktopError),
    Control(ControlRefusal),
}

/// When a message arrived, on each clock that counts.
#[derive(Clone, Copy, Debug, PartialEq, Eq, Structural)]
pub struct Arrival {
    pub received_at: u64,
    pub receiver_received_at: u64,
    /// Milliseconds of the session clock.
    pub session_ms: u64,
}

/// Where a control goes that was negotiated, or why it is refused.
pub open spec fn routed(
    message: ReliableControlMessage,
    outbound: Option<SessionContext>,
    has_room: bool,
) -> Result<ControlRoute, ControlRefusal> {
    match message.payload {
        ReliableControl::SnapshotAck(ack) => match outbound {
            None => Err(ControlRefusal::AcknowledgementWithoutActivation),
            Some(session) => if message.session != session {
                Err(ControlRefusal::AcknowledgementOfOther)
            } else {
                Ok(ControlRoute::Acknowledge(ack))
            },
        },
        ReliableControl::TakeoverAccepted(accepted) => match outbound {
            None => Err(ControlRefusal::TakeoverWithoutActivation),
            Some(_) => Ok(ControlRoute::AcceptTakeover(accepted)),
        },
        _ => if has_room {
            Ok(ControlRoute::Queued)
        } else {
            Err(ControlRefusal::QueueFull)
        },
    }
}

/// Where any control goes, or why it is refused.
pub open spec fn control_route(
    message: ReliableControlMessage,
    negotiated: NegotiatedSession,
    outbound: Option<SessionContext>,
    has_room: bool,
) -> Result<ControlRoute, ControlRefusal> {
    match control_violation(message.payload, negotiated) {
        Some(violation) => Err(ControlRefusal::NotNegotiated(violation)),
        None => routed(message, outbound, has_room),
    }
}

impl SessionActor {
    pub fn new() -> (result: Self)
        ensures
            result.outbound is None,
            result.pending@.len() == 0,
    {
        SessionActor { outbound: None, pending: Vec::new() }
    }

    /// Opens an activation in which this side sends. Then what was merged of
    /// captured devices is forgotten and the activation is announced.
    pub fn begin_outbound(
        &mut self,
        context: SessionContext,
        negotiated: ProtocolVersion,
    ) -> (result: Result<(), OutboundError>)
        ensures
            final(self).pending == old(self).pending,
            result == if old(self).outbound is Some {
                Err::<(), OutboundError>(OutboundError::AlreadyOpen)
            } else if context.protocol_version != negotiated {
                Err(OutboundError::WrongVersion)
            } else {
                Ok(())
            },
            final(self).outbound == if result is Ok {
                Some(context)
            } else {
                old(self).outbound
            },
    {
        match check_begin(self.outbound.is_some(), context.protocol_version, negotiated) {
            Err(error) => Err(error),
            Ok(_) => {
                self.outbound = Some(context);
                Ok(())
            },
        }
    }

    /// Closes the activation in which this side sends: on request, with the
    /// session, or because the connection was lost. `remote` says whether the
    /// sender still controls the other side. Gives whether that side has to be
    /// left: told so, or reported as no longer controlled.
    pub fn end_outbound(&mut self, remote: bool) -> (leave: bool)
        ensures
            leave == (old(self).outbound is Some && remote),
            final(self).outbound is None,
            final(self).pending == old(self).pending,
    {
        let leave = self.outbound.is_some() && remote;
        self.outbound = None;
        leave
    }

    /// The sender's clock ticked. Gives whether the end of the activation has to
    /// be reported.
    pub fn sender_ticked(&mut self, tick: SenderTick) -> (ended: bool)
        ensures
            ended == (tick == SenderTick::ExitRemote),
            final(self).pending == old(self).pending,
            final(self).outbound == if ended {
                None
            } else {
                old(self).outbound
            },
    {
        match tick {
            SenderTick::ExitRemote => {
                self.outbound = None;
                true
            },
            _ => false,
        }
    }

    /// A reliable control arrived. Only what was negotiated passes;
    /// acknowledgements go to the sender, everything else waits for its turn.
    pub fn control_received(
        &mut self,
        message: ReliableControlMessage,
        negotiated: &NegotiatedSession,
        received_at: u64,
        receiver_received_at: u64,
        maximum: usize,
    ) -> (result: Result<ControlRoute, ControlRefusal>)
        ensures
            final(self).outbound == old(self).outbound,
            result == control_route(
                message,
                *negotiated,
                old(self).outbound,
                old(self).pending@.len() < maximum,
            ),
            final(self).pending@ == if result == Ok::<ControlRoute, ControlRefusal>(
                ControlRoute::Queued,
            ) {
                old(self).pending@.push(
                    PendingControl { message, received_at, receiver_received_at },
                )
            } else {
                old(self).pending@
            },
    {
        if let Err(violation) = validate_negotiated_control(&message.payload, negotiated) {
            return Err(ControlRefusal::NotNegotiated(violation));
        }
        match &message.payload {
            ReliableControl::SnapshotAck(ack) => match self.outbound {
                None => Err(ControlRefusal::AcknowledgementWithoutActivation),
                Some(session) => if message.session != session {
                    Err(ControlRefusal::AcknowledgementOfOther)
                } else {
                    Ok(ControlRoute::Acknowledge(*ack))
                },
            },
            ReliableControl::TakeoverAccepted(accepted) => match self.outbound {
                None => Err(ControlRefusal::TakeoverWithoutActivation),
                Some(_) => Ok(ControlRoute::AcceptTakeover(*accepted)),
            },
            _ => match enqueue_pending_control(
                &mut self.pending,
                message,
                received_at,
                receiver_received_at,
                maximum,
            ) {
                Ok(_) => Ok(ControlRoute::Queued),
                Err(_) => Err(ControlRefusal::QueueFull),
            },
        }
    }

    /// A message arrived after the negotiation. Another negotiation ends the
    /// session, desktop messages take their turn, and controls are routed.
    pub fn message_received(
        &mut self,
        exchange: &mut DesktopExchange,
        message: ControlMessage,
        negotiated: &NegotiatedSession,
        arrival: Arrival,
        maximum: usize,
    ) -> (result: Result<MessageRoute, MessageRefusal>)
        ensures
            final(self).outbound == old(self).outbound,
            match message {
                ControlMessage::NegotiationOffer | ControlMessage::NegotiatedSession => {
                    &&& result == Err::<MessageRoute, MessageRefusal>(
                        MessageRefusal::RepeatedNegotiation,
                    )
                    &&& final(self).pending == old(self).pending
                    &&& *final(exchange) == *old(exchange)
                },
                ControlMessage::DesktopRequest { id, finish } => {
                    &&& final(self).pending == old(self).pending
                    &&& if old(exchange).incoming is None && old(exchange).replying is None {
                        &&& result == Ok::<MessageRoute, MessageRefusal>(
                            MessageRoute::DesktopRequested,
                        )
                        &&& *final(exchange) == (DesktopExchange {
                            incoming: Some(
                                IncomingRequest { id, finish, started_at: arrival.session_ms },
                            ),
                            ..*old(exchange)
                        })
                    } else {
                        &&& result == Err::<MessageRoute, MessageRefusal>(
                            MessageRefusal::Desktop(DesktopError::Overlapping),
                        )
                        &&& *final(exchange) == *old(exchange)
                    }
                },
                ControlMessage::DesktopResponse { id } => {
                    &&& final(self).pending == old(self).pending
                    &&& *final(exchange) == (DesktopExchange { waiting: None, ..*old(exchange) })
                    &&& result == match old(exchange).waiting {
                        Some(expected) => if expected == id {
                            Ok::<MessageRoute, MessageRefusal>(MessageRoute::DesktopAnswered)
                        } else {
                            Err(MessageRefusal::Desktop(DesktopError::WrongResponse))
                        },
                        None => Err(MessageRefusal::Desktop(DesktopError::UnexpectedResponse)),
                    }
                },
                ControlMessage::Reliable(control) => {
                    let route = control_route(
                        control,
                        *negotiated,
                        old(self).outbound,
                        old(self).pending@.len() < maximum,
                    );
                    &&& *final(exchange) == *old(exchange)
                    &&& result == match route {
                        Ok(route) => Ok::<MessageRoute, MessageRefusal>(
                            MessageRoute::Control(route),
                        ),
                        Err(refusal) => Err(MessageRefusal::Control(refusal)),
                    }
                    &&& final(self).pending@ == if route == Ok::<ControlRoute, ControlRefusal>(
                        ControlRoute::Queued,
                    ) {
                        old(self).pending@.push(
                            PendingControl {
                                message: control,
                                received_at: arrival.received_at,
                                receiver_received_at: arrival.receiver_received_at,
                            },
                        )
                    } else {
                        old(self).pending@
                    }
                },
            },
    {
        match message {
            ControlMessage::NegotiationOffer => Err(MessageRefusal::RepeatedNegotiation),
            ControlMessage::NegotiatedSession => Err(MessageRefusal::RepeatedNegotiation),
            ControlMessage::DesktopRequest { id, finish } => match exchange.receive(
                id,
                finish,
                arrival.session_ms,
            ) {
                Ok(_) => Ok(MessageRoute::DesktopRequested),
                Err(error) => Err(MessageRefusal::Desktop(error)),
            },
            ControlMessage::DesktopResponse { id } => match exchange.response(id) {
                Ok(_) => Ok(MessageRoute::DesktopAnswered),
                Err(error) => Err(MessageRefusal::Desktop(error)),
            },
            ControlMessage::Reliable(control) => match self.control_received(
                control,
                negotiated,
                arrival.received_at,
                arrival.receiver_received_at,
                maximum,
            ) {
                Ok(route) => Ok(MessageRoute::Control(route)),
                Err(refusal) => Err(MessageRefusal::Control(refusal)),
            },
        }
    }

    /// The receiver went from one activation to another, or to none. What waits
    /// for the activation that it left is dropped.
    pub fn receiver_moved(
        &mut self,
        before: Option<SessionContext>,
        after: Option<SessionContext>,
    )
        ensures
            final(self).outbound == old(self).outbound,
            final(self).pending@ == match before {
                Some(context) => if after != before {
                    without_context(old(self).pending@, context)
                } else {
                    old(self).pending@
                },
                None => old(self).pending@,
            },
    {
        let context = match before {
            Some(context) => context,
            None => return,
        };
        let kept = match after {
            Some(active) => active == context,
            None => false,
        };
        if !kept {
            discard_pending_context(&mut self.pending, context);
        }
    }
}

/// After the receiver left an activation, no control of it is applied any more.
pub proof fn nothing_is_applied_after_an_activation(
    pending: Seq<PendingControl>,
    context: SessionContext,
    at: int,
)
    requires
        0 <= at < without_context(pending, context).len(),
    ensures
        !belongs(without_context(pending, context)[at].message, context),
{
    discarded_controls_are_gone(pending, context);
    assert(!belongs((without_context(pending, context)[at]).message, context));
}

/// How a session ends: cleanup that failed comes before the reason of the end.
pub fn session_result(
    outbound: Result<(), String>,
    receiver: Result<(), String>,
    run: Result<(), String>,
) -> (result: Result<(), String>)
    ensures
        result == if outbound is Err {
            outbound
        } else if receiver is Err {
            receiver
        } else {
            run
        },
{
    if outbound.is_err() {
        outbound
    } else if receiver.is_err() {
        receiver
    } else {
        run
    }
}

/// How the negotiation of a new session ended.
#[derive(Debug, PartialEq, Eq)]
pub enum StartOutcome {
    Ready,
    Refused(String),
    /// The session stopped without an answer.
    Stopped,
    TimedOut,
}

#[derive(Debug, PartialEq, Eq)]
pub enum StartError {
    Refused(String),
    StoppedDuringNegotiation,
    TimedOut,
}

/// A session that was not negotiated is closed as a violation of the protocol:
/// whoever gets an error here closes it.
pub fn start_result(outcome: StartOutcome) -> (result: Result<(), StartError>)
    ensures
        result == match outcome {
            StartOutcome::Ready => Ok::<(), StartError>(()),
            StartOutcome::Refused(reason) => Err(StartError::Refused(reason)),
            StartOutcome::Stopped => Err(StartError::StoppedDuringNegotiation),
            StartOutcome::TimedOut => Err(StartError::TimedOut),
        },
{
    match outcome {
        StartOutcome::Ready => Ok(()),
        StartOutcome::Refused(reason) => Err(StartError::Refused(reason)),
        StartOutcome::Stopped => Err(StartError::StoppedDuringNegotiation),
        StartOutcome::TimedOut => Err(StartError::TimedOut),
    }
}

/// A control goes to the sender exactly if it answers the sender: it acknowledges the
/// activation that is open, or accepts a takeover while one is open. Every other
/// control waits for the receiver. What was not negotiated goes nowhere.
pub proof fn controls_go_where_they_belong(
    message: ReliableControlMessage,
    negotiated: NegotiatedSession,
    outbound: Option<SessionContext>,
    has_room: bool,
)
    ensures
        ({
            let route = control_route(message, negotiated, outbound, has_room);
            let agreed = control_violation(message.payload, negotiated) is None;
            let answers = message.payload is SnapshotAck || message.payload
                is TakeoverAccepted;
            &&& route is Ok ==> agreed
            &&& agreed && !answers ==> (has_room <==> route == Ok::<ControlRoute, ControlRefusal>(
                ControlRoute::Queued,
            )) && (!has_room <==> route == Err::<ControlRoute, ControlRefusal>(
                ControlRefusal::QueueFull,
            ))
            &&& agreed && message.payload is SnapshotAck ==> (route is Ok <==> outbound == Some(
                message.session,
            ))
            &&& agreed && message.payload is TakeoverAccepted ==> (route is Ok <==> outbound
                is Some)
            &&& route matches Ok(ControlRoute::Acknowledge(ack)) ==> message.payload
                == ReliableControl::SnapshotAck(ack)
            &&& route matches Ok(ControlRoute::AcceptTakeover(accepted)) ==> message.payload
                == ReliableControl::TakeoverAccepted(accepted)
            &&& answers ==> route != Ok::<ControlRoute, ControlRefusal>(ControlRoute::Queued)
        }),
{
}

} // verus!
