//! Decisions of a running input source.
use vstd::prelude::*;

use crate::config::{Config, PeerModel};
use crate::desktop::DesktopResponse;
use crate::macos::frames::{ESCAPE_EVENT, TOUCH_EVENT};
use crate::macos::handoff::HandoffOptions;
use crate::net::SocketAddress;

verus! {

/// Milliseconds between two looks at the native capture.
pub const CAPTURE_POLL_INTERVAL_MS: u64 = 1;

/// Milliseconds without a report after which a touch counts as lifted.
pub const TOUCH_STALE_TIMEOUT_MS: u64 = 150;

/// Milliseconds for a connection to be made.
pub const CONNECT_TIMEOUT_MS: u64 = 5_000;

#[derive(Debug, PartialEq, Eq)]
pub enum SourceStatus {
    Connecting,
    Sharing,
    LocalInputRestored,
    Returned { position: u32 },
    Stopped,
    /// The crossing was given up; nothing is wrong.
    Cancelled(String),
    Failed(String),
}

/// Keeps a second source from running beside the first.
#[derive(Debug, PartialEq, Eq, Structural)]
pub struct SourceGuard {
    pub active: bool,
}

/// A source is already running.
#[derive(Clone, Copy, Debug, PartialEq, Eq, Structural)]
pub struct AlreadyRunning;

impl SourceGuard {
    pub fn new() -> (result: Self)
        ensures
            !result.active,
    {
        SourceGuard { active: false }
    }

    pub fn acquire(&mut self) -> (result: Result<(), AlreadyRunning>)
        ensures
            final(self).active,
            result is Ok <==> !old(self).active,
    {
        if self.active {
            return Err(AlreadyRunning);
        }
        self.active = true;
        Ok(())
    }

    pub fn release(&mut self)
        ensures
            !final(self).active,
    {
        self.active = false;
    }
}

#[derive(Clone, Copy, Debug, PartialEq, Eq, Structural)]
pub enum SourceRefusal {
    UnknownPeer,
    /// The peer may not connect, or may not receive normal input.
    NotPermitted,
    NoAddress,
}

/// How a source connects.
#[derive(Clone, Copy, Debug, PartialEq, Eq, Structural)]
pub struct SourcePlan {
    pub address: SocketAddress,
    /// Any local address and port of the same family.
    pub bind: SocketAddress,
    /// Raw touch is captured and offered.
    pub raw_touch: bool,
    /// Raw touch was asked for and cannot be had.
    pub fell_back: bool,
}

pub open spec fn unspecified_address(peer: SocketAddress) -> SocketAddress {
    match peer {
        SocketAddress::V4 { .. } => SocketAddress::V4 { ip: 0, port: 0 },
        SocketAddress::V6 { .. } => SocketAddress::V6 {
            ip: 0,
            port: 0,
            flowinfo: 0,
            scope_id: 0,
        },
    }
}

pub open spec fn may_receive_input(peer: PeerModel) -> bool {
    peer.permissions.connect && peer.permissions.receive_normal
}

/// The address to connect to: the chosen one, else the peer's first.
pub open spec fn chosen_address(
    chosen: Option<SocketAddress>,
    peer: PeerModel,
) -> Option<SocketAddress> {
    if chosen is Some {
        chosen
    } else if peer.addresses.len() > 0 {
        Some(peer.addresses[0])
    } else {
        None
    }
}

/// Decides with whom and how a source connects. `available` says whether raw
/// touch can be captured; it only counts where raw touch was asked for.
pub fn plan_source(
    config: &Config,
    peer: &str,
    address: Option<SocketAddress>,
    raw_touch: bool,
    available: bool,
) -> (result: Result<SourcePlan, SourceRefusal>)
    requires
        config.wf(),
    ensures
        result == if !config.paired().dom().contains(peer@) {
            Err::<SourcePlan, SourceRefusal>(SourceRefusal::UnknownPeer)
        } else if !may_receive_input(config.paired()[peer@]) {
            Err(SourceRefusal::NotPermitted)
        } else {
            match chosen_address(address, config.paired()[peer@]) {
                None => Err(SourceRefusal::NoAddress),
                Some(address) => {
                    let requested = raw_touch && config.input.experimental_touchpad;
                    Ok(
                        SourcePlan {
                            address,
                            bind: unspecified_address(address),
                            raw_touch: requested && available,
                            fell_back: requested && !available,
                        },
                    )
                },
            }
        },
{
    let peer = match config.peers.get(peer) {
        Some(peer) => peer,
        None => return Err(SourceRefusal::UnknownPeer),
    };
    if !peer.permissions.connect || !peer.permissions.receive_normal {
        return Err(SourceRefusal::NotPermitted);
    }
    let address = match address {
        Some(address) => address,
        None => {
            if peer.addresses.len() == 0 {
                return Err(SourceRefusal::NoAddress);
            }
            peer.addresses[0]
        },
    };
    let bind = match address {
        SocketAddress::V4 { .. } => SocketAddress::V4 { ip: 0, port: 0 },
        SocketAddress::V6 { .. } => SocketAddress::V6 {
            ip: 0,
            port: 0,
            flowinfo: 0,
            scope_id: 0,
        },
    };
    let requested = raw_touch && config.input.experimental_touchpad;
    Ok(
        SourcePlan {
            address,
            bind,
            raw_touch: requested && available,
            fell_back: requested && !available,
        },
    )
}

/// Why a source ended badly.
#[derive(Debug, PartialEq, Eq)]
pub enum SourceError {
    /// The receiver returned the pointer outside the configured edge range.
    ReturnedOutside,
    DesktopUnavailable(String),
    UnexpectedDesktopResponse,
    DesktopRequestFailed(String),
    /// The wireless lease could not be renewed.
    RenewalFailed(String),
    /// Captured input could not be sent.
    ForwardingFailed(String),
    /// The other computer sent input to a source.
    ReceivedInput,
    SessionClosed(String),
    OwnershipEnded,
    SessionChannelClosed,
    /// The pointer has no place to return to.
    NoReturnPoint(String),
    /// The displays changed before the pointer returned.
    DesktopChanged,
    CaptureFailed(String),
    ReleaseUnconfirmed(String),
    FinishUnconfirmed(String),
    LeaseNotRestored(String),
    /// Something failed before capture started.
    NotStarted(String),
    /// The connection did not close in time.
    NotClosed(String),
}

/// An event of the session that a source has to react to.
#[derive(Debug, PartialEq, Eq)]
pub enum SourceSessionEvent {
    /// The other computer asked for our desktop.
    Desktop,
    /// The other computer sent input.
    ReceiverEffects,
    Closed(String),
    OutboundEnded,
    ChannelClosed,
}

#[derive(Clone, Copy, Debug, PartialEq, Eq, Structural)]
pub enum SourceStep {
    Continue,
    Stop,
    /// Answer that this computer cannot receive a handoff, and go on.
    RefuseDesktop,
    /// Answer that this computer takes no input, and stop.
    RefuseInput,
    /// Send an empty touch state.
    ReleaseTouch,
}

/// State of the loop that runs while input is captured. Times are milliseconds.
#[derive(Debug, PartialEq, Eq)]
pub struct SourceLoop {
    pub touch_active: bool,
    pub last_touch: u64,
    pub returned: Option<u32>,
    pub error: Option<SourceError>,
}

/// A returned position is acceptable on the edge that was crossed.
pub open spec fn on_crossed_edge(handoff: Option<HandoffOptions>, position: u32) -> bool {
    handoff matches Some(options) ==> options.start <= position <= options.end
}

impl SourceLoop {
    pub fn new(now: u64) -> (result: Self)
        ensures
            result == (SourceLoop {
                touch_active: false,
                last_touch: now,
                returned: None,
                error: None,
            }),
    {
        SourceLoop { touch_active: false, last_touch: now, returned: None, error: None }
    }

    pub open spec fn failed(self, error: SourceError) -> SourceLoop {
        SourceLoop { error: Some(error), ..self }
    }

    pub open spec fn after_desktop(
        self,
        response: Result<DesktopResponse, String>,
        handoff: Option<HandoffOptions>,
    ) -> (SourceLoop, SourceStep) {
        match response {
            Ok(DesktopResponse::Active) => (self, SourceStep::Continue),
            Ok(DesktopResponse::Returned { position }) => if on_crossed_edge(handoff, position) {
                (SourceLoop { returned: Some(position), ..self }, SourceStep::Stop)
            } else {
                (self.failed(SourceError::ReturnedOutside), SourceStep::Stop)
            },
            Ok(DesktopResponse::Unavailable { reason }) => (
                self.failed(SourceError::DesktopUnavailable(reason)),
                SourceStep::Stop,
            ),
            Ok(_) => (self.failed(SourceError::UnexpectedDesktopResponse), SourceStep::Stop),
            Err(reason) => (
                self.failed(SourceError::DesktopRequestFailed(reason)),
                SourceStep::Stop,
            ),
        }
    }

    /// The receiver said where the pointer is.
    pub fn desktop_answered(
        &mut self,
        response: Result<DesktopResponse, String>,
        handoff: Option<HandoffOptions>,
    ) -> (step: SourceStep)
        ensures
            (*final(self), step) == old(self).after_desktop(response, handoff),
    {
        match response {
            Ok(DesktopResponse::Active) => SourceStep::Continue,
            Ok(DesktopResponse::Returned { position }) => {
                let outside = match handoff {
                    Some(options) => position < options.start || position > options.end,
                    None => false,
                };
                if outside {
                    self.error = Some(SourceError::ReturnedOutside);
                } else {
                    self.returned = Some(position);
                }
                SourceStep::Stop
            },
            Ok(DesktopResponse::Unavailable { reason }) => {
                self.error = Some(SourceError::DesktopUnavailable(reason));
                SourceStep::Stop
            },
            Ok(_) => {
                self.error = Some(SourceError::UnexpectedDesktopResponse);
                SourceStep::Stop
            },
            Err(reason) => {
                self.error = Some(SourceError::DesktopRequestFailed(reason));
                SourceStep::Stop
            },
        }
    }

    /// The wireless lease was renewed, or not.
    pub fn renewed(&mut self, outcome: Result<(), String>) -> (step: SourceStep)
        ensures
            match outcome {
                Ok(_) => *final(self) == *old(self) && step == SourceStep::Continue,
                Err(reason) => *final(self) == old(self).failed(SourceError::RenewalFailed(reason))
                    && step == SourceStep::Stop,
            },
    {
        match outcome {
            Ok(_) => SourceStep::Continue,
            Err(reason) => {
                self.error = Some(SourceError::RenewalFailed(reason));
                SourceStep::Stop
            },
        }
    }

    /// A captured event was read. Gives whether it is forwarded; an escape ends
    /// this round of reading.
    pub fn event_read(&mut self, kind: u32, contact_count: u8, now: u64) -> (forward: bool)
        ensures
            forward == (kind != ESCAPE_EVENT),
            *final(self) == if kind == TOUCH_EVENT {
                SourceLoop { last_touch: now, touch_active: contact_count > 0, ..*old(self) }
            } else {
                *old(self)
            },
    {
        if kind == ESCAPE_EVENT {
            return false;
        }
        if kind == TOUCH_EVENT {
            self.last_touch = now;
            self.touch_active = contact_count > 0;
        }
        true
    }

    /// A captured frame could not be sent: this round of reading ends.
    pub fn forwarding_failed(&mut self, reason: String)
        ensures
            *final(self) == old(self).failed(SourceError::ForwardingFailed(reason)),
    {
        self.error = Some(SourceError::ForwardingFailed(reason));
    }

    /// Everything captured has been read.
    pub fn round_read(&self, capture_stopped: bool, now: u64) -> (step: SourceStep)
        ensures
            step == if capture_stopped || self.error is Some {
                SourceStep::Stop
            } else if self.touch_active && now - self.last_touch >= TOUCH_STALE_TIMEOUT_MS {
                SourceStep::ReleaseTouch
            } else {
                SourceStep::Continue
            },
    {
        if capture_stopped || self.error.is_some() {
            SourceStep::Stop
        } else if self.touch_active && now.saturating_sub(self.last_touch)
            >= TOUCH_STALE_TIMEOUT_MS {
            SourceStep::ReleaseTouch
        } else {
            SourceStep::Continue
        }
    }

    /// An empty touch state was sent, or not.
    pub fn touch_released(&mut self, outcome: Result<(), String>) -> (step: SourceStep)
        ensures
            match outcome {
                Ok(_) => *final(self) == (SourceLoop { touch_active: false, ..*old(self) })
                    && step == SourceStep::Continue,
                Err(reason) => *final(self) == old(self).failed(
                    SourceError::ForwardingFailed(reason),
                ) && step == SourceStep::Stop,
            },
    {
        match outcome {
            Ok(_) => {
                self.touch_active = false;
                SourceStep::Continue
            },
            Err(reason) => {
                self.error = Some(SourceError::ForwardingFailed(reason));
                SourceStep::Stop
            },
        }
    }

    pub open spec fn after_session(self, event: SourceSessionEvent) -> (SourceLoop, SourceStep) {
        match event {
            SourceSessionEvent::Desktop => (self, SourceStep::RefuseDesktop),
            SourceSessionEvent::ReceiverEffects => (
                self.failed(SourceError::ReceivedInput),
                SourceStep::RefuseInput,
            ),
            SourceSessionEvent::Closed(reason) => (
                self.failed(SourceError::SessionClosed(reason)),
                SourceStep::Stop,
            ),
            SourceSessionEvent::OutboundEnded => (
                self.failed(SourceError::OwnershipEnded),
                SourceStep::Stop,
            ),
            SourceSessionEvent::ChannelClosed => (
                self.failed(SourceError::SessionChannelClosed),
                SourceStep::Stop,
            ),
        }
    }

    /// The session reported something.
    pub fn session_event(&mut self, event: SourceSessionEvent) -> (step: SourceStep)
        ensures
            (*final(self), step) == old(self).after_session(event),
    {
        match event {
            SourceSessionEvent::Desktop => SourceStep::RefuseDesktop,
            SourceSessionEvent::ReceiverEffects => {
                self.error = Some(SourceError::ReceivedInput);
                SourceStep::RefuseInput
            },
            SourceSessionEvent::Closed(reason) => {
                self.error = Some(SourceError::SessionClosed(reason));
                SourceStep::Stop
            },
            SourceSessionEvent::OutboundEnded => {
                self.error = Some(SourceError::OwnershipEnded);
                SourceStep::Stop
            },
            SourceSessionEvent::ChannelClosed => {
                self.error = Some(SourceError::SessionChannelClosed);
                SourceStep::Stop
            },
        }
    }

    /// The first error stands.
    pub open spec fn failed_first(self, error: SourceError) -> SourceLoop {
        if self.error is Some {
            self
        } else {
            self.failed(error)
        }
    }

    fn fail_first(&mut self, error: SourceError)
        ensures
            *final(self) == old(self).failed_first(error),
    {
        if self.error.is_none() {
            self.error = Some(error);
        }
    }

    /// Gives whether the pointer moves to its return point when capture stops.
    /// `mapped` says whether the returned position has a place on our displays,
    /// `desktop_unchanged` whether they still are as they were.
    pub fn plan_return(&mut self, mapped: Result<(), String>, desktop_unchanged: bool) -> (moves:
        bool)
        ensures
            moves == (old(self).returned is Some && mapped is Ok && desktop_unchanged),
            *final(self) == if old(self).returned is None || moves {
                *old(self)
            } else {
                match mapped {
                    Err(reason) => old(self).failed_first(SourceError::NoReturnPoint(reason)),
                    Ok(_) => old(self).failed_first(SourceError::DesktopChanged),
                }
            },
    {
        if self.returned.is_none() {
            return false;
        }
        match mapped {
            Err(reason) => {
                self.fail_first(SourceError::NoReturnPoint(reason));
                false
            },
            Ok(_) => {
                if !desktop_unchanged {
                    self.fail_first(SourceError::DesktopChanged);
                }
                desktop_unchanged
            },
        }
    }

    /// Capture stopped. Gives whether the restored local input is reported.
    pub fn capture_stopped(&mut self, outcome: Result<(), String>, moved: bool) -> (report: bool)
        ensures
            report == (outcome is Ok && moved),
            *final(self) == match outcome {
                Ok(_) => *old(self),
                Err(reason) => old(self).failed_first(SourceError::CaptureFailed(reason)),
            },
    {
        match outcome {
            Ok(_) => moved,
            Err(reason) => {
                self.fail_first(SourceError::CaptureFailed(reason));
                false
            },
        }
    }
}

/// How far a source had come when it ended.
#[derive(Clone, Copy, Debug, PartialEq, Eq, Structural)]
pub struct SourceProgress {
    /// Token of a handoff that the receiver was asked to prepare, answered or not.
    pub prepared: Option<u64>,
    pub activation_started: bool,
    pub lease_held: bool,
}

/// What the cleanup of a source came to. A step that was not needed is `None`.
#[derive(Debug, PartialEq, Eq)]
pub struct Cleanup {
    pub released: Option<Result<(), String>>,
    pub finished: Option<Result<(), String>>,
    pub restored: Option<Result<(), String>>,
}

impl Cleanup {
    /// Every step that the progress made necessary was taken, and no other.
    pub open spec fn covers(self, progress: SourceProgress) -> bool {
        &&& self.released is Some == progress.activation_started
        &&& self.finished is Some == progress.prepared is Some
        &&& self.restored is Some == progress.lease_held
    }
}

pub open spec fn step_error(step: Option<Result<(), String>>) -> Option<String> {
    match step {
        Some(Err(reason)) => Some(reason),
        _ => None,
    }
}

/// The result of a source after its cleanup. A return only counts when the
/// receiver confirmed that it let go of the input and of the desktop.
pub open spec fn concluded(
    error: Option<SourceError>,
    returned: Option<u32>,
    cleanup: Cleanup,
) -> Result<Option<u32>, SourceError> {
    match error {
        Some(error) => Err(error),
        None => match (
            step_error(cleanup.released),
            step_error(cleanup.finished),
            step_error(cleanup.restored),
        ) {
            (Some(reason), _, _) if returned is Some => Err(
                SourceError::ReleaseUnconfirmed(reason),
            ),
            (_, Some(reason), _) if returned is Some => Err(
                SourceError::FinishUnconfirmed(reason),
            ),
            (_, _, Some(reason)) => Err(SourceError::LeaseNotRestored(reason)),
            _ => Ok(returned),
        },
    }
}

pub fn conclude(
    error: Option<SourceError>,
    returned: Option<u32>,
    cleanup: Cleanup,
) -> (result: Result<Option<u32>, SourceError>)
    ensures
        result == concluded(error, returned, cleanup),
{
    if let Some(error) = error {
        return Err(error);
    }
    if returned.is_some() {
        if let Some(Err(reason)) = cleanup.released {
            return Err(SourceError::ReleaseUnconfirmed(reason));
        }
        if let Some(Err(reason)) = cleanup.finished {
            return Err(SourceError::FinishUnconfirmed(reason));
        }
    }
    if let Some(Err(reason)) = cleanup.restored {
        return Err(SourceError::LeaseNotRestored(reason));
    }
    Ok(returned)
}

/// A source reports a return only after every handoff that the receiver was
/// asked to prepare was finished, every activation was released and a held
/// lease was given back, each with the other side's confirmation.
pub proof fn a_return_follows_confirmed_cleanup(
    error: Option<SourceError>,
    returned: Option<u32>,
    cleanup: Cleanup,
    progress: SourceProgress,
)
    requires
        cleanup.covers(progress),
        concluded(error, returned, cleanup) is Ok,
        concluded(error, returned, cleanup)->Ok_0 is Some,
    ensures
        error is None,
        progress.prepared is Some ==> (cleanup.finished matches Some(Ok(_))),
        progress.activation_started ==> (cleanup.released matches Some(Ok(_))),
        progress.lease_held ==> (cleanup.restored matches Some(Ok(_))),
{
    assert(step_error(cleanup.released) is None);
    assert(step_error(cleanup.finished) is None);
    assert(step_error(cleanup.restored) is None);
}

/// The connection's shutdown only turns a good result into a bad one.
pub fn after_shutdown(
    result: Result<Option<u32>, SourceError>,
    shutdown: Result<(), String>,
) -> (outcome: Result<Option<u32>, SourceError>)
    ensures
        outcome == match (result, shutdown) {
            (Ok(_), Err(reason)) => Err::<Option<u32>, SourceError>(
                SourceError::NotClosed(reason),
            ),
            _ => result,
        },
{
    match (result, shutdown) {
        (Ok(_), Err(reason)) => Err(SourceError::NotClosed(reason)),
        (result, _) => result,
    }
}

/// What is reported when a source ends: the return, if there was one, and then
/// that it stopped or failed.
pub fn final_statuses(result: Result<Option<u32>, String>) -> (statuses: Vec<SourceStatus>)
    ensures
        statuses@ == match result {
            Ok(Some(position)) => seq![
                SourceStatus::Returned { position },
                SourceStatus::Stopped,
            ],
            Ok(None) => seq![SourceStatus::Stopped],
            Err(reason) => seq![SourceStatus::Failed(reason)],
        },
{
    let mut statuses: Vec<SourceStatus> = Vec::new();
    match result {
        Ok(returned) => {
            if let Some(position) = returned {
                statuses.push(SourceStatus::Returned { position });
            }
            statuses.push(SourceStatus::Stopped);
        },
        Err(reason) => {
            statuses.push(SourceStatus::Failed(reason));
        },
    }
    assert(statuses@ =~= match result {
        Ok(Some(position)) => seq![SourceStatus::Returned { position }, SourceStatus::Stopped],
        Ok(None) => seq![SourceStatus::Stopped],
        Err(reason) => seq![SourceStatus::Failed(reason)],
    });
    statuses
}

/// A source goes on exactly while the desktop is active, and then nothing changes. It
/// stops with an error on everything else but a return.
pub proof fn a_source_stops_for_a_reason(
    source: SourceLoop,
    response: Result<DesktopResponse, String>,
    handoff: Option<HandoffOptions>,
)
    ensures
        ({
            let (after, step) = source.after_desktop(response, handoff);
            let active = response matches Ok(DesktopResponse::Active);
            let returned = response matches Ok(DesktopResponse::Returned { .. });
            &&& active ==> step == SourceStep::Continue && after == source
            &&& !active ==> step == SourceStep::Stop
            &&& !active && !returned ==> after.error is Some
            &&& !returned ==> after.returned == source.returned
            &&& after.touch_active == source.touch_active && after.last_touch == source.last_touch
        }),
{
}

/// A cursor that comes back where it crossed ends the sharing well: its position is
/// kept and no error is added. Anywhere else it is an error.
pub proof fn returns_are_taken_where_the_edge_was_crossed(
    source: SourceLoop,
    options: HandoffOptions,
    position: u32,
)
    ensures
        ({
            let response = Ok::<DesktopResponse, String>(DesktopResponse::Returned { position });
            let (after, _) = source.after_desktop(response, Some(options));
            let (anywhere, _) = source.after_desktop(response, None);
            &&& options.start <= position && position <= options.end ==> after.returned == Some(
                position,
            ) && after.error == source.error
            &&& position < options.start || options.end < position ==> after.returned
                == source.returned && after.error == Some(SourceError::ReturnedOutside)
            &&& anywhere.returned == Some(position) && anywhere.error == source.error
        }),
{
}

/// Whatever the session reports but a desktop request ends the sharing with an error;
/// a desktop request is refused and changes nothing. A return is not forgotten.
pub proof fn a_source_takes_no_input(source: SourceLoop, event: SourceSessionEvent)
    ensures
        ({
            let (after, step) = source.after_session(event);
            &&& event is Desktop ==> after == source && step == SourceStep::RefuseDesktop
            &&& event !is Desktop ==> after.error is Some
            &&& event is ReceiverEffects <==> step == SourceStep::RefuseInput
            &&& after.returned == source.returned
        }),
{
}

/// A later problem does not hide the first one.
pub proof fn the_first_problem_is_told(source: SourceLoop, error: SourceError, later: SourceError)
    ensures
        source.failed_first(error).error is Some,
        source.error is Some ==> source.failed_first(error) == source,
        source.error is None ==> source.failed_first(error).error == Some(error),
        source.failed_first(error).failed_first(later) == source.failed_first(error),
{
}

/// Sharing ends well exactly if nothing went wrong: no error before, the lease is
/// given back if there was one, and after a return the release and the desktop's
/// answer are confirmed.
pub proof fn sharing_ends_well_exactly_so(
    error: Option<SourceError>,
    returned: Option<u32>,
    cleanup: Cleanup,
)
    ensures
        concluded(error, returned, cleanup) is Ok <==> {
            &&& error is None
            &&& !(cleanup.restored matches Some(Err(_)))
            &&& returned is Some ==> !(cleanup.released matches Some(Err(_))) && !(
            cleanup.finished matches Some(Err(_)))
        },
        concluded(error, returned, cleanup) is Ok ==> concluded(error, returned, cleanup)->Ok_0
            == returned,
        error is Some ==> concluded(error, returned, cleanup) == Err::<Option<u32>, SourceError>(
            error->0,
        ),
{
}

/// A source binds to any address of the family of its peer, at a port that the system
/// picks, and goes to the address that was chosen or to the peer's first one.
pub proof fn sources_bind_in_the_peers_family(
    peer: PeerModel,
    chosen: Option<SocketAddress>,
    address: SocketAddress,
)
    ensures
        unspecified_address(address) is V4 == address is V4,
        unspecified_address(address).port_spec() == 0,
        unspecified_address(address).host().1 == 0,
        chosen is Some ==> chosen_address(chosen, peer) == chosen,
        chosen is None && peer.addresses.len() > 0 ==> chosen_address(chosen, peer) == Some(
            peer.addresses.first(),
        ),
        chosen_address(chosen, peer) is None <==> chosen is None && peer.addresses.len() == 0,
{
}

} // verus!
