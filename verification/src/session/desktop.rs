//! Desktop requests that travel inside a session, one at a time each way.
use vstd::prelude::*;

use crate::desktop::{DesktopResponse, REQUEST_TIMEOUT_MS};

verus! {

/// A request of the peer that waits for its turn.
#[derive(Clone, Copy, Debug, PartialEq, Eq, Structural)]
pub struct IncomingRequest {
    pub id: u64,
    /// The request ends a handoff.
    pub finish: bool,
    /// Milliseconds of the session clock.
    pub started_at: u64,
}

/// A request that was handed to the local desktop.
#[derive(Clone, Copy, Debug, PartialEq, Eq, Structural)]
pub struct PendingReply {
    pub id: u64,
    pub started_at: u64,
}

#[derive(Clone, Copy, Debug, PartialEq, Eq, Structural)]
pub enum DesktopError {
    /// The peer sent a request while another was open.
    Overlapping,
    /// The controls before a request were not applied in time.
    OrderingTimeout,
    /// The local desktop did not answer in time.
    ReplyTimeout,
    /// The local desktop went away.
    ReceiverStopped,
    /// The peer answered a request that was not made.
    UnexpectedResponse,
    /// The peer answered another request than the open one.
    WrongResponse,
}

/// Open desktop requests of a session.
#[derive(Clone, Copy, Debug, PartialEq, Eq, Structural)]
pub struct DesktopExchange {
    /// Our request that the peer has not answered.
    pub waiting: Option<u64>,
    pub incoming: Option<IncomingRequest>,
    pub replying: Option<PendingReply>,
}

pub open spec fn timed_out(started_at: u64, now: u64) -> bool {
    now >= started_at && now - started_at >= REQUEST_TIMEOUT_MS
}

fn is_timed_out(started_at: u64, now: u64) -> (result: bool)
    ensures
        result == timed_out(started_at, now),
{
    now.saturating_sub(started_at) >= REQUEST_TIMEOUT_MS
}

impl DesktopExchange {
    pub fn new() -> (result: Self)
        ensures
            result == (DesktopExchange { waiting: None, incoming: None, replying: None }),
    {
        DesktopExchange { waiting: None, incoming: None, replying: None }
    }

    /// Opens a request of our own. It is refused while another one is open.
    pub fn request(&mut self, id: u64) -> (accepted: bool)
        ensures
            accepted == old(self).waiting is None,
            *final(self) == if accepted {
                DesktopExchange { waiting: Some(id), ..*old(self) }
            } else {
                *old(self)
            },
    {
        if self.waiting.is_some() {
            return false;
        }
        self.waiting = Some(id);
        true
    }

    /// The peer answered. Whatever it answered, our request is closed.
    pub fn response(&mut self, id: u64) -> (result: Result<(), DesktopError>)
        ensures
            *final(self) == (DesktopExchange { waiting: None, ..*old(self) }),
            result == match old(self).waiting {
                Some(expected) => if expected == id {
                    Ok::<(), DesktopError>(())
                } else {
                    Err(DesktopError::WrongResponse)
                },
                None => Err(DesktopError::UnexpectedResponse),
            },
    {
        let expected = self.waiting;
        self.waiting = None;
        match expected {
            Some(expected) => if expected == id {
                Ok(())
            } else {
                Err(DesktopError::WrongResponse)
            },
            None => Err(DesktopError::UnexpectedResponse),
        }
    }

    /// The peer made a request.
    pub fn receive(&mut self, id: u64, finish: bool, now: u64) -> (result: Result<
        (),
        DesktopError,
    >)
        ensures
            if old(self).incoming is None && old(self).replying is None {
                &&& result is Ok
                &&& *final(self) == (DesktopExchange {
                    incoming: Some(IncomingRequest { id, finish, started_at: now }),
                    ..*old(self)
                })
            } else {
                &&& result == Err::<(), DesktopError>(DesktopError::Overlapping)
                &&& *final(self) == *old(self)
            },
    {
        if self.incoming.is_some() || self.replying.is_some() {
            return Err(DesktopError::Overlapping);
        }
        self.incoming = Some(IncomingRequest { id, finish, started_at: now });
        Ok(())
    }

    /// A request has its turn once no control waits before it. A request that
    /// ends a handoff also waits until no activation is left.
    pub open spec fn has_turn(self, controls_waiting: bool, receiver_active: bool) -> bool {
        self.incoming matches Some(request) && !controls_waiting && !(request.finish
            && receiver_active) && self.replying is None
    }

    /// Hands the peer's request to the local desktop when it has its turn.
    pub fn dispatch(&mut self, now: u64, controls_waiting: bool, receiver_active: bool) -> (result:
        Result<Option<IncomingRequest>, DesktopError>)
        ensures
            match old(self).incoming {
                None => result == Ok::<Option<IncomingRequest>, DesktopError>(None)
                    && *final(self) == *old(self),
                Some(request) => if timed_out(request.started_at, now) {
                    &&& result == Err::<Option<IncomingRequest>, DesktopError>(
                        DesktopError::OrderingTimeout,
                    )
                    &&& *final(self) == *old(self)
                } else if old(self).has_turn(controls_waiting, receiver_active) {
                    &&& result == Ok::<Option<IncomingRequest>, DesktopError>(Some(request))
                    &&& *final(self) == (DesktopExchange {
                        incoming: None,
                        replying: Some(
                            PendingReply { id: request.id, started_at: request.started_at },
                        ),
                        ..*old(self)
                    })
                } else {
                    &&& result == Ok::<Option<IncomingRequest>, DesktopError>(None)
                    &&& *final(self) == *old(self)
                },
            },
    {
        let request = match self.incoming {
            Some(request) => request,
            None => return Ok(None),
        };
        if is_timed_out(request.started_at, now) {
            return Err(DesktopError::OrderingTimeout);
        }
        if controls_waiting || (request.finish && receiver_active) || self.replying.is_some() {
            return Ok(None);
        }
        self.incoming = None;
        self.replying = Some(PendingReply { id: request.id, started_at: request.started_at });
        Ok(Some(request))
    }

    /// Looks for the local desktop's answer: arrived, gone, or still open.
    /// Gives the id to answer once it arrived.
    pub fn check_reply(&mut self, now: u64, arrived: bool, gone: bool) -> (result: Result<
        Option<u64>,
        DesktopError,
    >)
        ensures
            match old(self).replying {
                None => result == Ok::<Option<u64>, DesktopError>(None) && *final(self)
                    == *old(self),
                Some(reply) => if arrived {
                    &&& result == Ok::<Option<u64>, DesktopError>(Some(reply.id))
                    &&& *final(self) == (DesktopExchange { replying: None, ..*old(self) })
                } else {
                    &&& *final(self) == *old(self)
                    &&& result == if gone {
                        Err::<Option<u64>, DesktopError>(DesktopError::ReceiverStopped)
                    } else if timed_out(reply.started_at, now) {
                        Err(DesktopError::ReplyTimeout)
                    } else {
                        Ok(None)
                    }
                },
            },
    {
        let reply = match self.replying {
            Some(reply) => reply,
            None => return Ok(None),
        };
        if arrived {
            self.replying = None;
            return Ok(Some(reply.id));
        }
        if gone {
            return Err(DesktopError::ReceiverStopped);
        }
        if is_timed_out(reply.started_at, now) {
            return Err(DesktopError::ReplyTimeout);
        }
        Ok(None)
    }
}

/// A handoff is acknowledged as finished only after its activation closed and
/// every control before it was applied.
pub proof fn finish_waits_for_the_activation(
    exchange: DesktopExchange,
    controls_waiting: bool,
    receiver_active: bool,
)
    requires
        exchange.incoming is Some,
        exchange.incoming->0.finish,
        exchange.has_turn(controls_waiting, receiver_active),
    ensures
        !receiver_active,
        !controls_waiting,
{
}

/// How waiting for the peer's answer to our request ended.
#[derive(Debug, PartialEq, Eq)]
pub enum RequestOutcome {
    Answered(DesktopResponse),
    /// The session could not take the request.
    QueueUnavailable(String),
    /// The session ended before an answer came.
    ChannelClosed,
    TimedOut,
    /// The numbers for requests are used up.
    Exhausted,
}

#[derive(Debug, PartialEq, Eq)]
pub enum RequestError {
    QueueUnavailable(String),
    ChannelClosed,
    TimedOut,
    Exhausted,
}

/// The result of a request. Whatever else than an answer comes, the session is
/// closed: the other desktop may be in any state.
pub fn request_result(outcome: RequestOutcome) -> (result: (
    Result<DesktopResponse, RequestError>,
    bool,
))
    ensures
        result.1 == !(outcome is Answered),
        result.0 == match outcome {
            RequestOutcome::Answered(response) => Ok::<DesktopResponse, RequestError>(response),
            RequestOutcome::QueueUnavailable(reason) => Err(
                RequestError::QueueUnavailable(reason),
            ),
            RequestOutcome::ChannelClosed => Err(RequestError::ChannelClosed),
            RequestOutcome::TimedOut => Err(RequestError::TimedOut),
            RequestOutcome::Exhausted => Err(RequestError::Exhausted),
        },
{
    match outcome {
        RequestOutcome::Answered(response) => (Ok(response), false),
        RequestOutcome::QueueUnavailable(reason) => (
            Err(RequestError::QueueUnavailable(reason)),
            true,
        ),
        RequestOutcome::ChannelClosed => (Err(RequestError::ChannelClosed), true),
        RequestOutcome::TimedOut => (Err(RequestError::TimedOut), true),
        RequestOutcome::Exhausted => (Err(RequestError::Exhausted), true),
    }
}

/// A request waits for a second and no longer; a clock that seems to run backwards
/// does not end it.
pub proof fn requests_wait_for_a_second(started_at: u64, waited: u64, later: u64)
    requires
        started_at + waited <= u64::MAX,
        started_at + waited <= later,
    ensures
        timed_out(started_at, (started_at + waited) as u64) <==> waited >= 1_000,
        timed_out(started_at, (started_at + waited) as u64) ==> timed_out(started_at, later),
        waited > 0 ==> !timed_out((started_at + waited) as u64, started_at),
{
}

} // verus!
