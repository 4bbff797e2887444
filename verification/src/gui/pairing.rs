//! The pairing page.
use vstd::prelude::*;

use crate::address_text::{address_text, write_address};
use crate::net::SocketAddress;
use crate::pairing::{byte_length, DEFAULT_PAIRING_PORT};
use crate::peer_view::PairingEvent;
use crate::scan::{trim, trimmed};
use crate::text::text_of;

verus! {

/// Bytes of a pairing code.
pub const CODE_BYTES: usize = 6;

#[derive(Debug, PartialEq, Eq)]
pub enum Stage {
    Idle,
    Waiting,
    /// The code was derived and waits for the user's answer.
    Confirm { code: String, label: Option<String> },
    Saving,
    Paired,
    Failed(String),
}

/// The pairing page. Every attempt has a number, so that what an abandoned
/// attempt still reports is not taken for the current one.
#[derive(Debug, PartialEq, Eq)]
pub struct PairingUi {
    pub stage: Stage,
    pub attempt: u64,
}

impl Default for PairingUi {
    fn default() -> (result: Self)
        ensures
            result.stage == Stage::Idle,
            result.attempt == 0,
    {
        PairingUi { stage: Stage::Idle, attempt: 0 }
    }
}

/// The address with the port on which computers listen for pairing.
pub open spec fn pairing_address(address: SocketAddress) -> SocketAddress {
    match address {
        SocketAddress::V4 { ip, .. } => SocketAddress::V4 { ip, port: DEFAULT_PAIRING_PORT },
        SocketAddress::V6 { ip, flowinfo, scope_id, .. } => SocketAddress::V6 {
            ip,
            port: DEFAULT_PAIRING_PORT,
            flowinfo,
            scope_id,
        },
    }
}

/// The text of the address field for a computer that was found nearby.
pub fn pairing_address_text(address: SocketAddress) -> (result: String)
    ensures
        result@ == address_text(pairing_address(address)),
{
    match address {
        SocketAddress::V4 { ip, .. } => write_address(
            SocketAddress::V4 { ip, port: DEFAULT_PAIRING_PORT },
        ),
        SocketAddress::V6 { ip, flowinfo, scope_id, .. } => write_address(
            SocketAddress::V6 { ip, port: DEFAULT_PAIRING_PORT, flowinfo, scope_id },
        ),
    }
}

/// The name that is proposed for a computer: its own, else what it probably is.
pub fn proposed_name(label: Option<String>, receiver: bool) -> (result: String)
    ensures
        result@ == match text_of(label) {
            Some(text) => text,
            None => if receiver {
                "Mac"@
            } else {
                "Ubuntu"@
            },
        },
{
    match label {
        Some(text) => text,
        None => if receiver {
            "Mac".to_owned()
        } else {
            "Ubuntu".to_owned()
        },
    }
}

/// The answer can be sent: a whole code and some name.
pub fn can_confirm(code: &str, name: &str) -> (result: bool)
    ensures
        result == (byte_length(code@) == CODE_BYTES && trimmed(name@).len() > 0),
{
    code.as_bytes().len() == CODE_BYTES && trim(name).unicode_len() > 0
}

impl PairingUi {
    pub open spec fn active(&self) -> bool {
        self.stage is Waiting || self.stage is Confirm || self.stage is Saving
    }

    pub fn is_active(&self) -> (result: bool)
        ensures
            result == self.active(),
    {
        match self.stage {
            Stage::Waiting => true,
            Stage::Confirm { .. } => true,
            Stage::Saving => true,
            _ => false,
        }
    }

    pub open spec fn next_attempt(attempt: u64) -> u64 {
        if attempt == u64::MAX {
            0
        } else {
            (attempt + 1) as u64
        }
    }

    /// Abandons the attempt.
    pub fn stop(&mut self)
        ensures
            final(self).stage == Stage::Idle,
            final(self).attempt == Self::next_attempt(old(self).attempt),
    {
        self.attempt = if self.attempt == u64::MAX {
            0
        } else {
            self.attempt + 1
        };
        self.stage = Stage::Idle;
    }

    /// Starts an attempt and gives its number.
    pub fn start(&mut self) -> (attempt: u64)
        ensures
            final(self).stage == Stage::Waiting,
            final(self).attempt == Self::next_attempt(old(self).attempt),
            attempt == final(self).attempt,
    {
        self.stop();
        self.stage = Stage::Waiting;
        self.attempt
    }

    /// An attempt reported how far it is. Only the current attempt counts.
    pub fn update(&mut self, attempt: u64, stage: Stage)
        ensures
            *final(self) == if attempt == old(self).attempt {
                PairingUi { stage, ..*old(self) }
            } else {
                *old(self)
            },
    {
        if attempt == self.attempt {
            self.stage = stage;
        }
    }

    /// The user confirmed the code. Gives the name and code to send.
    pub fn confirm(&mut self, name: &str, code: &str) -> (answer: (String, String))
        ensures
            final(self).stage == Stage::Saving,
            final(self).attempt == old(self).attempt,
            answer.0@ == trimmed(name@),
            answer.1@ == trimmed(code@),
    {
        self.stage = Stage::Saving;
        (trim(name).to_owned(), trim(code).to_owned())
    }

    /// Gives once whether a computer was added, so that the list is read again.
    pub fn take_paired(&mut self) -> (paired: bool)
        ensures
            paired == (old(self).stage == Stage::Paired),
            *final(self) == if paired {
                PairingUi { stage: Stage::Idle, ..*old(self) }
            } else {
                *old(self)
            },
    {
        match self.stage {
            Stage::Paired => {
                self.stage = Stage::Idle;
                true
            },
            _ => false,
        }
    }
}

/// What an abandoned attempt reports changes nothing.
pub proof fn abandoned_attempts_are_ignored(before: PairingUi, after: PairingUi)
    requires
        after.attempt == PairingUi::next_attempt(before.attempt),
    ensures
        after.attempt != before.attempt,
{
}

/// Pairing through the service.
#[derive(Clone, Copy, Debug, PartialEq, Eq, Structural)]
pub struct ServicePairing {
    /// The user was already asked.
    pub asked: bool,
}

#[derive(Debug, PartialEq, Eq)]
pub enum ServiceStep {
    /// Wait for the next event.
    Wait,
    /// Show the code, await the user's answer and send it.
    Ask { code: String, label: Option<String> },
    Done,
}

#[derive(Debug, PartialEq, Eq)]
pub enum ServiceError {
    /// The service asked for a second answer.
    RepeatedConfirmation,
    Refused(String),
}

impl ServicePairing {
    pub fn new() -> (result: Self)
        ensures
            !result.asked,
    {
        ServicePairing { asked: false }
    }

    /// Handles an event of the service. The user is asked at most once.
    pub fn handle(&mut self, event: PairingEvent) -> (result: Result<ServiceStep, ServiceError>)
        ensures
            final(self).asked == (old(self).asked || event is Confirm),
            result == match event {
                PairingEvent::Ready => Ok::<ServiceStep, ServiceError>(ServiceStep::Wait),
                PairingEvent::Confirm { peer_label, authentication_code } => if old(self).asked {
                    Err(ServiceError::RepeatedConfirmation)
                } else {
                    Ok(ServiceStep::Ask { code: authentication_code, label: peer_label })
                },
                PairingEvent::Paired => Ok(ServiceStep::Done),
                PairingEvent::Error { message } => Err(ServiceError::Refused(message)),
            },
    {
        match event {
            PairingEvent::Ready => Ok(ServiceStep::Wait),
            PairingEvent::Confirm { peer_label, authentication_code } => {
                if self.asked {
                    return Err(ServiceError::RepeatedConfirmation);
                }
                self.asked = true;
                Ok(ServiceStep::Ask { code: authentication_code, label: peer_label })
            },
            PairingEvent::Paired => Ok(ServiceStep::Done),
            PairingEvent::Error { message } => Err(ServiceError::Refused(message)),
        }
    }
}

/// Pairing goes to the same host in the same zone, at the pairing port.
pub proof fn pairing_goes_to_the_same_host(address: SocketAddress)
    ensures
        pairing_address(address).host() == address.host(),
        pairing_address(address).port_spec() == 43_120,
        pairing_address(address) is V4 == address is V4,
        address matches SocketAddress::V6 { flowinfo, scope_id, .. } ==> pairing_address(address)
            matches SocketAddress::V6 { flowinfo: f, scope_id: s, .. } && f == flowinfo && s
            == scope_id,
        pairing_address(pairing_address(address)) == pairing_address(address),
{
}

} // verus!
