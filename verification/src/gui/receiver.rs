//! Receiving through the desktop of the logged-in user.
use vstd::prelude::*;

use crate::desktop::DesktopResponse;

verus! {

/// Milliseconds that the desktop has to answer.
pub const CALL_TIMEOUT_MS: u64 = 450;

#[derive(Debug, PartialEq, Eq)]
pub enum ReceiverMessage {
    Connecting,
    Ready,
    Stopped,
    Failed(String),
}

/// Whether this computer receives. Every start and stop has a number, so that a
/// worker that was left behind cannot change what is shown.
#[derive(Debug, PartialEq, Eq)]
pub struct DesktopReceiver {
    pub active: bool,
    pub message: ReceiverMessage,
    pub generation: u64,
}

pub open spec fn next_generation(generation: u64) -> u64 {
    if generation == u64::MAX {
        0
    } else {
        (generation + 1) as u64
    }
}

fn after(generation: u64) -> (result: u64)
    ensures
        result == next_generation(generation),
{
    if generation == u64::MAX {
        0
    } else {
        generation + 1
    }
}

impl DesktopReceiver {
    pub fn new() -> (result: Self)
        ensures
            !result.active,
            result.message == ReceiverMessage::Stopped,
            result.generation == 0,
    {
        DesktopReceiver { active: false, message: ReceiverMessage::Stopped, generation: 0 }
    }

    pub fn is_active(&self) -> (result: bool)
        ensures
            result == self.active,
    {
        self.active
    }

    pub fn stop(&mut self)
        ensures
            *final(self) == (DesktopReceiver {
                active: false,
                message: ReceiverMessage::Stopped,
                generation: next_generation(old(self).generation),
            }),
    {
        self.generation = after(self.generation);
        self.active = false;
        self.message = ReceiverMessage::Stopped;
    }

    /// Starts receiving, unless it is on. Gives the number for the worker.
    pub fn start(&mut self) -> (generation: Option<u64>)
        ensures
            generation is None == old(self).active,
            old(self).active ==> *final(self) == *old(self),
            !old(self).active ==> {
                &&& final(self).active
                &&& final(self).message == ReceiverMessage::Connecting
                &&& final(self).generation == next_generation(
                    next_generation(old(self).generation),
                )
                &&& generation == Some(final(self).generation)
            },
    {
        if self.active {
            return None;
        }
        self.stop();
        self.generation = after(self.generation);
        self.active = true;
        self.message = ReceiverMessage::Connecting;
        Some(self.generation)
    }

    /// A worker is connected. Gives whether it is still wanted.
    pub fn ready(&mut self, generation: u64) -> (wanted: bool)
        ensures
            wanted == (generation == old(self).generation),
            *final(self) == if wanted {
                DesktopReceiver { message: ReceiverMessage::Ready, ..*old(self) }
            } else {
                *old(self)
            },
    {
        if generation != self.generation {
            return false;
        }
        self.message = ReceiverMessage::Ready;
        true
    }

    /// A worker ended.
    pub fn finished(&mut self, generation: u64, outcome: Result<(), String>)
        ensures
            *final(self) == if generation == old(self).generation {
                DesktopReceiver {
                    active: false,
                    message: match outcome {
                        Ok(_) => ReceiverMessage::Stopped,
                        Err(reason) => ReceiverMessage::Failed(reason),
                    },
                    generation,
                }
            } else {
                *old(self)
            },
    {
        if generation != self.generation {
            return;
        }
        self.active = false;
        self.message = match outcome {
            Ok(_) => ReceiverMessage::Stopped,
            Err(reason) => ReceiverMessage::Failed(reason),
        };
    }
}

/// A worker of an earlier start is never the current one after a restart.
pub proof fn old_workers_are_ignored(receiver: DesktopReceiver)
    ensures
        next_generation(receiver.generation) != receiver.generation,
        next_generation(next_generation(receiver.generation)) != receiver.generation,
{
}

#[derive(Debug, PartialEq, Eq)]
pub enum AttachError {
    /// The desktop cannot be shared, for this reason.
    Unavailable(String),
    /// The desktop answered something else than its state.
    UnexpectedDesktop,
    /// The service did not accept the desktop.
    Denied,
}

/// The desktop must tell its state before it is offered to the service.
pub fn check_desktop(snapshot: DesktopResponse) -> (result: Result<(), AttachError>)
    ensures
        result == match snapshot {
            DesktopResponse::Snapshot { .. } => Ok::<(), AttachError>(()),
            DesktopResponse::Unavailable { reason } => Err(AttachError::Unavailable(reason)),
            _ => Err(AttachError::UnexpectedDesktop),
        },
{
    match snapshot {
        DesktopResponse::Snapshot { .. } => Ok(()),
        DesktopResponse::Unavailable { reason } => Err(AttachError::Unavailable(reason)),
        _ => Err(AttachError::UnexpectedDesktop),
    }
}

/// The service must acknowledge the desktop.
pub fn check_service(ready: DesktopResponse) -> (result: Result<(), AttachError>)
    ensures
        result == match ready {
            DesktopResponse::Finished => Ok::<(), AttachError>(()),
            _ => Err(AttachError::Denied),
        },
{
    match ready {
        DesktopResponse::Finished => Ok(()),
        _ => Err(AttachError::Denied),
    }
}

/// The answer for the service: that of the desktop, or that it cannot be had.
pub fn desktop_answer(answer: Result<DesktopResponse, String>) -> (result: DesktopResponse)
    ensures
        match answer {
            Ok(response) => result == response,
            Err(reason) => result matches DesktopResponse::Unavailable { reason: text } && text@
                == "GNOME integration unavailable: "@ + reason@,
        },
{
    match answer {
        Ok(response) => response,
        Err(reason) => {
            let mut text = "GNOME integration unavailable: ".to_owned();
            text.append(reason.as_str());
            DesktopResponse::Unavailable { reason: text }
        },
    }
}

} // verus!
