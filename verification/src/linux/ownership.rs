//! Who owns the physical input devices: the local session or the remote peer.
use vstd::prelude::*;

use super::evdev::{InputEvent, KeyCode, EV_KEY, EV_SYN, SYN_REPORT};
use super::mapping::is_report;
use crate::codes::CodeSet;
use crate::ordered::OrderedMap;
use crate::paths::{normalized, path_of};

verus! {

#[derive(Clone, Copy, Debug, PartialEq, Eq, Structural)]
pub enum OwnershipPhase {
    Idle,
    Arming,
    Remote,
    Releasing,
}

#[derive(Clone, Copy, Debug, PartialEq, Eq, Structural)]
pub enum OwnershipEffect {
    /// Nothing to do.
    Nothing,
    /// Grab every configured device transactionally, then report the result
    /// with `grab_succeeded` or `grab_failed`.
    AcquireGrabs,
    /// Queue the reliable terminal state. Ungrabbing still waits for a complete
    /// physical report boundary.
    QueueTerminal,
    /// Ungrab the complete capture set, then call `release_completed`.
    ReleaseGrabs,
    /// A lifecycle failure cannot wait for the network or another input frame:
    /// close the activation and ungrab immediately.
    CloseActivationAndReleaseGrabs,
    /// Cancel an activation that never acquired physical ownership.
    CancelActivation,
}

#[derive(Clone, Copy, Debug, PartialEq, Eq, Structural)]
pub enum OwnershipError {
    /// Activation can only be requested while idle.
    CannotArm(OwnershipPhase),
    /// A grab result is only valid while an acquisition is pending.
    NoGrabPending,
    /// Release completion is only valid while an ungrab is pending.
    NoReleasePending,
    /// Terminal delivery is not pending.
    NoTerminalPending,
}

/// Ownership state of the capture set.
#[derive(Clone, Copy, Debug, PartialEq, Eq, Structural)]
pub struct SourceOwnership {
    pub phase: OwnershipPhase,
    pub grab_pending: bool,
    pub release_pending: bool,
    pub terminal_pending: bool,
    pub last_complete_boundary: u64,
    pub phase_transition_pending: bool,
}

/// Everything that can happen to the ownership state.
pub enum OwnershipOp {
    RequestActivation,
    /// A look at the devices: whether all are between frames, which boundary
    /// generation that is, and whether nothing is held.
    Boundary { complete: bool, generation: u64, neutral: bool },
    GrabSucceeded,
    GrabFailed,
    RequestRelease { transport_live: bool },
    TerminalSent,
    ReleaseCompleted,
    ForceRelease,
}

impl SourceOwnership {
    pub open spec fn idle() -> SourceOwnership {
        SourceOwnership {
            phase: OwnershipPhase::Idle,
            grab_pending: false,
            release_pending: false,
            terminal_pending: false,
            last_complete_boundary: 0,
            phase_transition_pending: false,
        }
    }

    /// Pending work belongs to the phase that can finish it.
    pub open spec fn consistent(self) -> bool {
        &&& self.grab_pending ==> self.phase == OwnershipPhase::Arming
        &&& self.release_pending ==> self.phase == OwnershipPhase::Releasing
        &&& self.terminal_pending ==> self.phase == OwnershipPhase::Releasing
    }

    /// A boundary counts once, unless a phase change waits to be looked at.
    pub open spec fn boundary_counts(self, complete: bool, generation: u64) -> bool {
        complete && (generation != self.last_complete_boundary || self.phase_transition_pending)
    }

    /// What an operation asks the caller to do.
    pub open spec fn effect_of(self, op: OwnershipOp) -> OwnershipEffect {
        match op {
            OwnershipOp::Boundary { complete, generation, neutral } => if !self.boundary_counts(
                complete,
                generation,
            ) {
                OwnershipEffect::Nothing
            } else if self.phase == OwnershipPhase::Arming && !self.grab_pending && neutral {
                OwnershipEffect::AcquireGrabs
            } else if self.phase == OwnershipPhase::Releasing && !self.terminal_pending
                && !self.release_pending {
                OwnershipEffect::ReleaseGrabs
            } else {
                OwnershipEffect::Nothing
            },
            OwnershipOp::RequestRelease { transport_live } => match self.phase {
                OwnershipPhase::Arming => OwnershipEffect::CancelActivation,
                OwnershipPhase::Remote => if transport_live {
                    OwnershipEffect::QueueTerminal
                } else {
                    OwnershipEffect::Nothing
                },
                _ => OwnershipEffect::Nothing,
            },
            OwnershipOp::ForceRelease => match self.phase {
                OwnershipPhase::Idle => OwnershipEffect::Nothing,
                OwnershipPhase::Arming => OwnershipEffect::CancelActivation,
                _ => OwnershipEffect::CloseActivationAndReleaseGrabs,
            },
            _ => OwnershipEffect::Nothing,
        }
    }

    /// The state after an operation; a refused operation changes nothing.
    pub open spec fn after(self, op: OwnershipOp) -> SourceOwnership {
        match op {
            OwnershipOp::RequestActivation => if self.phase == OwnershipPhase::Idle {
                SourceOwnership {
                    phase: OwnershipPhase::Arming,
                    phase_transition_pending: true,
                    ..self
                }
            } else {
                self
            },
            OwnershipOp::Boundary { complete, generation, neutral } => if self.boundary_counts(
                complete,
                generation,
            ) {
                SourceOwnership {
                    last_complete_boundary: generation,
                    phase_transition_pending: false,
                    grab_pending: self.grab_pending || self.effect_of(op)
                        == OwnershipEffect::AcquireGrabs,
                    release_pending: self.release_pending || self.effect_of(op)
                        == OwnershipEffect::ReleaseGrabs,
                    ..self
                }
            } else {
                self
            },
            OwnershipOp::GrabSucceeded => if self.phase == OwnershipPhase::Arming
                && self.grab_pending {
                SourceOwnership { phase: OwnershipPhase::Remote, grab_pending: false, ..self }
            } else {
                self
            },
            OwnershipOp::GrabFailed => if self.phase == OwnershipPhase::Arming
                && self.grab_pending {
                SourceOwnership { phase: OwnershipPhase::Idle, grab_pending: false, ..self }
            } else {
                self
            },
            OwnershipOp::RequestRelease { transport_live } => match self.phase {
                OwnershipPhase::Arming => SourceOwnership {
                    phase: OwnershipPhase::Idle,
                    grab_pending: false,
                    phase_transition_pending: false,
                    ..self
                },
                OwnershipPhase::Remote => SourceOwnership {
                    phase: OwnershipPhase::Releasing,
                    phase_transition_pending: true,
                    terminal_pending: self.terminal_pending || transport_live,
                    ..self
                },
                _ => self,
            },
            OwnershipOp::TerminalSent => if self.phase == OwnershipPhase::Releasing
                && self.terminal_pending {
                SourceOwnership {
                    terminal_pending: false,
                    phase_transition_pending: true,
                    ..self
                }
            } else {
                self
            },
            OwnershipOp::ReleaseCompleted => if self.phase == OwnershipPhase::Releasing
                && self.release_pending {
                SourceOwnership {
                    phase: OwnershipPhase::Idle,
                    release_pending: false,
                    terminal_pending: false,
                    phase_transition_pending: false,
                    ..self
                }
            } else {
                self
            },
            OwnershipOp::ForceRelease => match self.phase {
                OwnershipPhase::Idle => self,
                OwnershipPhase::Arming => SourceOwnership {
                    phase: OwnershipPhase::Idle,
                    grab_pending: false,
                    phase_transition_pending: false,
                    ..self
                },
                _ => SourceOwnership {
                    phase: OwnershipPhase::Releasing,
                    terminal_pending: false,
                    release_pending: true,
                    phase_transition_pending: false,
                    ..self
                },
            },
        }
    }

    pub fn phase(&self) -> (result: OwnershipPhase)
        ensures
            result == self.phase,
    {
        self.phase
    }

    pub fn request_activation(&mut self) -> (result: Result<OwnershipEffect, OwnershipError>)
        ensures
            *final(self) == old(self).after(OwnershipOp::RequestActivation),
            result == if old(self).phase == OwnershipPhase::Idle {
                Ok::<OwnershipEffect, OwnershipError>(OwnershipEffect::Nothing)
            } else {
                Err(OwnershipError::CannotArm(old(self).phase))
            },
    {
        if self.phase != OwnershipPhase::Idle {
            return Err(OwnershipError::CannotArm(self.phase));
        }
        self.phase = OwnershipPhase::Arming;
        self.phase_transition_pending = true;
        Ok(OwnershipEffect::Nothing)
    }

    /// Advances ownership only when every device is between complete frames.
    /// Arming additionally needs both the followed aggregate state and a fresh
    /// kernel observation to be neutral.
    pub fn at_complete_boundary(
        &mut self,
        aggregate: &AggregateInputState,
        kernel_neutral: bool,
    ) -> (effect: OwnershipEffect)
        requires
            aggregate.wf(),
        ensures
            *final(self) == old(self).after(
                OwnershipOp::Boundary {
                    complete: between_frames(aggregate@.devices),
                    generation: aggregate@.generation,
                    neutral: nothing_held(aggregate@.devices) && kernel_neutral,
                },
            ),
            effect == old(self).effect_of(
                OwnershipOp::Boundary {
                    complete: between_frames(aggregate@.devices),
                    generation: aggregate@.generation,
                    neutral: nothing_held(aggregate@.devices) && kernel_neutral,
                },
            ),
    {
        if !aggregate.all_at_boundary() {
            return OwnershipEffect::Nothing;
        }
        let boundary: u64 = aggregate.boundary_generation();
        if boundary == self.last_complete_boundary && !self.phase_transition_pending {
            return OwnershipEffect::Nothing;
        }
        self.last_complete_boundary = boundary;
        self.phase_transition_pending = false;
        if self.phase == OwnershipPhase::Arming && !self.grab_pending && aggregate.is_neutral()
            && kernel_neutral {
            self.grab_pending = true;
            OwnershipEffect::AcquireGrabs
        } else if self.phase == OwnershipPhase::Releasing && !self.terminal_pending
            && !self.release_pending {
            self.release_pending = true;
            OwnershipEffect::ReleaseGrabs
        } else {
            OwnershipEffect::Nothing
        }
    }

    pub fn grab_succeeded(&mut self) -> (result: Result<(), OwnershipError>)
        ensures
            *final(self) == old(self).after(OwnershipOp::GrabSucceeded),
            result == if old(self).phase == OwnershipPhase::Arming && old(self).grab_pending {
                Ok::<(), OwnershipError>(())
            } else {
                Err(OwnershipError::NoGrabPending)
            },
    {
        if self.phase != OwnershipPhase::Arming || !self.grab_pending {
            return Err(OwnershipError::NoGrabPending);
        }
        self.grab_pending = false;
        self.phase = OwnershipPhase::Remote;
        Ok(())
    }

    pub fn grab_failed(&mut self) -> (result: Result<(), OwnershipError>)
        ensures
            *final(self) == old(self).after(OwnershipOp::GrabFailed),
            result == if old(self).phase == OwnershipPhase::Arming && old(self).grab_pending {
                Ok::<(), OwnershipError>(())
            } else {
                Err(OwnershipError::NoGrabPending)
            },
    {
        if self.phase != OwnershipPhase::Arming || !self.grab_pending {
            return Err(OwnershipError::NoGrabPending);
        }
        self.grab_pending = false;
        self.phase = OwnershipPhase::Idle;
        Ok(())
    }

    pub fn request_release(&mut self, transport_live: bool) -> (effect: OwnershipEffect)
        ensures
            *final(self) == old(self).after(OwnershipOp::RequestRelease { transport_live }),
            effect == old(self).effect_of(OwnershipOp::RequestRelease { transport_live }),
    {
        match self.phase {
            OwnershipPhase::Idle => OwnershipEffect::Nothing,
            OwnershipPhase::Arming => {
                self.grab_pending = false;
                self.phase = OwnershipPhase::Idle;
                self.phase_transition_pending = false;
                OwnershipEffect::CancelActivation
            },
            OwnershipPhase::Remote => {
                self.phase = OwnershipPhase::Releasing;
                self.phase_transition_pending = true;
                if transport_live {
                    self.terminal_pending = true;
                    OwnershipEffect::QueueTerminal
                } else {
                    OwnershipEffect::Nothing
                }
            },
            OwnershipPhase::Releasing => OwnershipEffect::Nothing,
        }
    }

    /// Confirms that the reliable terminal state reached the transport write
    /// boundary. Physical grabs may be released only after this point.
    pub fn terminal_sent(&mut self) -> (result: Result<(), OwnershipError>)
        ensures
            *final(self) == old(self).after(OwnershipOp::TerminalSent),
            result == if old(self).phase == OwnershipPhase::Releasing
                && old(self).terminal_pending {
                Ok::<(), OwnershipError>(())
            } else {
                Err(OwnershipError::NoTerminalPending)
            },
    {
        if self.phase != OwnershipPhase::Releasing || !self.terminal_pending {
            return Err(OwnershipError::NoTerminalPending);
        }
        self.terminal_pending = false;
        self.phase_transition_pending = true;
        Ok(())
    }

    pub fn release_completed(&mut self) -> (result: Result<(), OwnershipError>)
        ensures
            *final(self) == old(self).after(OwnershipOp::ReleaseCompleted),
            result == if old(self).phase == OwnershipPhase::Releasing
                && old(self).release_pending {
                Ok::<(), OwnershipError>(())
            } else {
                Err(OwnershipError::NoReleasePending)
            },
    {
        if self.phase != OwnershipPhase::Releasing || !self.release_pending {
            return Err(OwnershipError::NoReleasePending);
        }
        self.release_pending = false;
        self.terminal_pending = false;
        self.phase = OwnershipPhase::Idle;
        self.phase_transition_pending = false;
        Ok(())
    }

    pub fn suspend(&mut self) -> (effect: OwnershipEffect)
        ensures
            *final(self) == old(self).after(OwnershipOp::ForceRelease),
            effect == old(self).effect_of(OwnershipOp::ForceRelease),
    {
        self.force_release()
    }

    pub fn device_removed(&mut self) -> (effect: OwnershipEffect)
        ensures
            *final(self) == old(self).after(OwnershipOp::ForceRelease),
            effect == old(self).effect_of(OwnershipOp::ForceRelease),
    {
        self.force_release()
    }

    fn force_release(&mut self) -> (effect: OwnershipEffect)
        ensures
            *final(self) == old(self).after(OwnershipOp::ForceRelease),
            effect == old(self).effect_of(OwnershipOp::ForceRelease),
    {
        match self.phase {
            OwnershipPhase::Idle => OwnershipEffect::Nothing,
            OwnershipPhase::Arming => {
                self.grab_pending = false;
                self.phase = OwnershipPhase::Idle;
                self.phase_transition_pending = false;
                OwnershipEffect::CancelActivation
            },
            OwnershipPhase::Remote | OwnershipPhase::Releasing => {
                self.phase = OwnershipPhase::Releasing;
                self.terminal_pending = false;
                self.release_pending = true;
                self.phase_transition_pending = false;
                OwnershipEffect::CloseActivationAndReleaseGrabs
            },
        }
    }
}

impl Default for SourceOwnership {
    fn default() -> (result: Self)
        ensures
            result == SourceOwnership::idle(),
            result.consistent(),
    {
        SourceOwnership {
            phase: OwnershipPhase::Idle,
            grab_pending: false,
            release_pending: false,
            terminal_pending: false,
            last_complete_boundary: 0,
            phase_transition_pending: false,
        }
    }
}

/// Every operation keeps pending work in the phase that can finish it.
pub proof fn operations_stay_consistent(state: SourceOwnership, op: OwnershipOp)
    requires
        state.consistent(),
    ensures
        state.after(op).consistent(),
{
}

/// Devices are grabbed only while arming, between frames, with nothing held.
pub proof fn grabs_wait_for_neutral_input(state: SourceOwnership, op: OwnershipOp)
    requires
        state.effect_of(op) == OwnershipEffect::AcquireGrabs,
    ensures
        op matches OwnershipOp::Boundary { complete, neutral, .. } && complete && neutral,
        state.phase == OwnershipPhase::Arming,
{
}

/// A graceful release ungrabs only between frames and after the terminal state
/// reached the transport.
pub proof fn release_waits_for_terminal_and_boundary(state: SourceOwnership, op: OwnershipOp)
    requires
        state.effect_of(op) == OwnershipEffect::ReleaseGrabs,
    ensures
        op matches OwnershipOp::Boundary { complete, .. } && complete,
        state.phase == OwnershipPhase::Releasing,
        !state.terminal_pending,
{
}

/// Grabbed devices come back to the local session only through a release: no
/// operation leaves the remote phase for idle, and a release completes only
/// after an ungrab was asked for.
pub proof fn remote_input_always_ends_in_a_release(state: SourceOwnership, op: OwnershipOp)
    ensures
        state.phase == OwnershipPhase::Remote ==> state.after(op).phase == OwnershipPhase::Remote
            || state.after(op).phase == OwnershipPhase::Releasing,
        state.phase == OwnershipPhase::Releasing && state.after(op).phase == OwnershipPhase::Idle
            ==> state.release_pending,
        !state.release_pending && state.after(op).release_pending ==> state.effect_of(op)
            == OwnershipEffect::ReleaseGrabs || state.effect_of(op)
            == OwnershipEffect::CloseActivationAndReleaseGrabs,
{
}

// ---------------------------------------------------------------------------
// Held keys of all devices
// ---------------------------------------------------------------------------

/// What is held on one device, and whether a frame is still open.
pub struct InputModel {
    pub held: Set<u32>,
    pub in_frame: bool,
}

/// Held state of every device, by path.
pub struct AggregateModel {
    pub devices: Map<Seq<char>, InputModel>,
    pub generation: u64,
}

pub open spec fn nothing_held(devices: Map<Seq<char>, InputModel>) -> bool {
    forall|path: Seq<char>|
        devices.contains_key(path) ==> (#[trigger] devices[path]).held == Set::<u32>::empty()
}

pub open spec fn between_frames(devices: Map<Seq<char>, InputModel>) -> bool {
    forall|path: Seq<char>| devices.contains_key(path) ==> !(#[trigger] devices[path]).in_frame
}

pub open spec fn key_codes(keys: Seq<KeyCode>) -> Seq<u32> {
    Seq::new(keys.len(), |i: int| keys[i].0 as u32)
}

/// Effect of one event on its device.
pub open spec fn observed(device: InputModel, event: InputEvent) -> InputModel {
    if event.kind == EV_SYN {
        if event.code == SYN_REPORT {
            InputModel { in_frame: false, ..device }
        } else {
            device
        }
    } else if event.kind == EV_KEY {
        InputModel {
            in_frame: true,
            held: if event.value == 0 {
                device.held.remove(event.code as u32)
            } else if event.value == 1 || event.value == 2 {
                device.held.insert(event.code as u32)
            } else {
                device.held
            },
        }
    } else {
        InputModel { in_frame: true, ..device }
    }
}

#[derive(Debug)]
pub struct DeviceInput {
    held: CodeSet,
    in_frame: bool,
}

impl View for DeviceInput {
    type V = InputModel;

    closed spec fn view(&self) -> InputModel {
        InputModel { held: self.held@, in_frame: self.in_frame }
    }
}

fn codes_of(keys: &Vec<KeyCode>) -> (result: CodeSet)
    ensures
        result@ == key_codes(keys@).to_set(),
{
    let mut codes: Vec<u32> = Vec::new();
    let mut at: usize = 0;
    while at < keys.len()
        invariant
            at <= keys@.len(),
            codes@ =~= key_codes(keys@).take(at as int),
        decreases keys@.len() - at,
    {
        codes.push(keys[at].0 as u32);
        at = at + 1;
    }
    assert(codes@ =~= key_codes(keys@));
    CodeSet::from_codes(&codes)
}

/// Physical key and button state, kept per device node so that overlapping
/// composite nodes do not release each other's keys. Neutrality is the union of
/// all held state, and ownership changes only while no node has a partial frame.
pub struct AggregateInputState {
    devices: OrderedMap<DeviceInput>,
    boundary_generation: u64,
}

impl View for AggregateInputState {
    type V = AggregateModel;

    closed spec fn view(&self) -> AggregateModel {
        AggregateModel {
            devices: self.devices@.map_values(|device: DeviceInput| device@),
            generation: self.boundary_generation,
        }
    }
}

impl Default for AggregateInputState {
    fn default() -> (result: Self)
        ensures
            result.wf(),
            result@.devices == Map::<Seq<char>, InputModel>::empty(),
            result@.generation == 0,
    {
        let result = AggregateInputState { devices: OrderedMap::new(true), boundary_generation: 0 };
        assert(result@.devices =~= Map::<Seq<char>, InputModel>::empty());
        result
    }
}

impl AggregateInputState {
    pub closed spec fn wf(&self) -> bool {
        self.devices.wf()
    }

    pub fn add_device(&mut self, path: String, initially_held: &Vec<KeyCode>)
        requires
            old(self).wf(),
        ensures
            final(self).wf(),
            final(self)@.generation == old(self)@.generation,
            final(self)@.devices == old(self)@.devices.insert(
                path_of(path@),
                InputModel { held: key_codes(initially_held@).to_set(), in_frame: false },
            ),
    {
        let held = codes_of(initially_held);
        let path = normalized(path.as_str());
        let ghost name = path@;
        self.devices.insert(path, DeviceInput { held, in_frame: false });
        assert(self@.devices =~= old(self)@.devices.insert(
            name,
            InputModel { held: held@, in_frame: false },
        ));
    }

    /// Forgets a device and tells whether it was known.
    pub fn remove_device(&mut self, path: &str) -> (removed: bool)
        requires
            old(self).wf(),
        ensures
            final(self).wf(),
            final(self)@.generation == old(self)@.generation,
            removed == old(self)@.devices.contains_key(path_of(path@)),
            final(self)@.devices == old(self)@.devices.remove(path_of(path@)),
    {
        let removed = self.devices.remove(normalized(path).as_str()).is_some();
        assert(self@.devices =~= old(self)@.devices.remove(path_of(path@)));
        removed
    }

    pub fn replace_held(&mut self, path: &str, held: &Vec<KeyCode>) -> (known: bool)
        requires
            old(self).wf(),
        ensures
            final(self).wf(),
            final(self)@.generation == old(self)@.generation,
            known == old(self)@.devices.contains_key(path_of(path@)),
            final(self)@.devices == if known {
                old(self)@.devices.insert(
                    path_of(path@),
                    InputModel {
                        held: key_codes(held@).to_set(),
                        ..old(self)@.devices[path_of(path@)]
                    },
                )
            } else {
                old(self)@.devices
            },
    {
        let name = normalized(path);
        match self.devices.remove(name.as_str()) {
            Some(mut device) => {
                device.held = codes_of(held);
                let ghost updated = device@;
                self.devices.insert(name, device);
                assert(self@.devices =~= old(self)@.devices.insert(path_of(path@), updated));
                true
            },
            None => {
                assert(self@.devices =~= old(self)@.devices);
                false
            },
        }
    }

    /// Follows one raw event and tells whether its device is known.
    pub fn observe(&mut self, path: &str, event: InputEvent) -> (known: bool)
        requires
            old(self).wf(),
        ensures
            final(self).wf(),
            known == old(self)@.devices.contains_key(path_of(path@)),
            final(self)@.devices == if known {
                old(self)@.devices.insert(path_of(path@), observed(old(self)@.devices[path_of(path@)], event))
            } else {
                old(self)@.devices
            },
            final(self)@.generation == if known && is_report(event) {
                if old(self)@.generation == u64::MAX {
                    0
                } else {
                    (old(self)@.generation + 1) as u64
                }
            } else {
                old(self)@.generation
            },
    {
        let name = normalized(path);
        let mut device = match self.devices.remove(name.as_str()) {
            Some(device) => device,
            None => {
                assert(self@.devices =~= old(self)@.devices);
                return false;
            },
        };
        let ghost before = device@;
        if event.kind == EV_SYN {
            if event.code == SYN_REPORT {
                device.in_frame = false;
                self.boundary_generation = self.boundary_generation.wrapping_add(1);
            }
        } else if event.kind == EV_KEY {
            device.in_frame = true;
            if event.value == 0 {
                device.held.remove(event.code as u32);
            } else if event.value == 1 || event.value == 2 {
                device.held.insert(event.code as u32);
            }
        } else {
            device.in_frame = true;
        }
        let ghost after = device@;
        self.devices.insert(name, device);
        assert(after == observed(before, event));
        assert(self@.devices =~= old(self)@.devices.insert(path_of(path@), after));
        true
    }

    pub fn is_neutral(&self) -> (result: bool)
        requires
            self.wf(),
        ensures
            result == nothing_held(self@.devices),
    {
        let count: usize = self.devices.len();
        let mut at: usize = 0;
        while at < count
            invariant
                self.wf(),
                count == self.devices.keys().len(),
                at <= count,
                forall|i: int|
                    0 <= i < at ==> (#[trigger] self.devices.values()[i])@.held == Set::<
                        u32,
                    >::empty(),
            decreases count - at,
        {
            if !self.devices.value_at(at).held.is_empty() {
                proof {
                    self.devices.entry_in_map(at as int);
                    assert(self@.devices[self.devices.keys()[at as int]].held != Set::<
                        u32,
                    >::empty());
                }
                return false;
            }
            at = at + 1;
        }
        proof {
            assert forall|path: Seq<char>| self@.devices.contains_key(path) implies (
            #[trigger] self@.devices[path]).held == Set::<u32>::empty() by {
                let k = self.devices.key_has_position(path);
                assert(self.devices.values()[k]@.held == Set::<u32>::empty());
            }
        }
        true
    }

    pub fn all_at_boundary(&self) -> (result: bool)
        requires
            self.wf(),
        ensures
            result == between_frames(self@.devices),
    {
        let count: usize = self.devices.len();
        let mut at: usize = 0;
        while at < count
            invariant
                self.wf(),
                count == self.devices.keys().len(),
                at <= count,
                forall|i: int|
                    0 <= i < at ==> !(#[trigger] self.devices.values()[i])@.in_frame,
            decreases count - at,
        {
            if self.devices.value_at(at).in_frame {
                proof {
                    self.devices.entry_in_map(at as int);
                    assert(self@.devices[self.devices.keys()[at as int]].in_frame);
                }
                return false;
            }
            at = at + 1;
        }
        proof {
            assert forall|path: Seq<char>|
                self@.devices.contains_key(path) implies !(#[trigger] self@.devices[path]).in_frame by {
                let k = self.devices.key_has_position(path);
                assert(!self.devices.values()[k]@.in_frame);
            }
        }
        true
    }

    pub fn boundary_generation(&self) -> (result: u64)
        ensures
            result == self@.generation,
    {
        self.boundary_generation
    }

    pub fn held_on(&self, path: &str) -> (result: Option<&CodeSet>)
        requires
            self.wf(),
        ensures
            match result {
                Some(held) => self@.devices.contains_key(path_of(path@)) && held@
                    == self@.devices[path_of(path@)].held,
                None => !self@.devices.contains_key(path_of(path@)),
            },
    {
        match self.devices.get(normalized(path).as_str()) {
            Some(device) => Some(&device.held),
            None => None,
        }
    }

    pub fn len(&self) -> (result: usize)
        requires
            self.wf(),
        ensures
            result == self@.devices.dom().len(),
    {
        assert(self@.devices.dom() =~= self.devices@.dom());
        self.devices.len()
    }

    pub fn is_empty(&self) -> (result: bool)
        requires
            self.wf(),
        ensures
            result == (self@.devices.dom().len() == 0),
    {
        self.len() == 0
    }
}

/// Releasing a key on one device leaves the keys held on every other device.
pub proof fn devices_do_not_release_each_other(
    devices: Map<Seq<char>, InputModel>,
    path: Seq<char>,
    other: Seq<char>,
    event: InputEvent,
)
    requires
        devices.contains_key(path),
        devices.contains_key(other),
        path != other,
    ensures
        devices.insert(path, observed(devices[path], event))[other] == devices[other],
{
}

/// Input goes out and comes back: an activation grabs the devices at the first
/// moment between frames with nothing held, whether or not a frame came since, and
/// input is then remote. A release tells the peer first and lets the devices go at
/// the next moment between frames after that. Then everything is as it was.
pub proof fn input_goes_out_and_comes_back(
    state: SourceOwnership,
    there: u64,
    early: u64,
    back: u64,
    held: bool,
)
    requires
        state.consistent(),
        state.phase == OwnershipPhase::Idle,
    ensures
        ({
            let arming = state.after(OwnershipOp::RequestActivation);
            let neutral = OwnershipOp::Boundary {
                complete: true,
                generation: there,
                neutral: true,
            };
            let grabbing = arming.after(neutral);
            let remote = grabbing.after(OwnershipOp::GrabSucceeded);
            let release = OwnershipOp::RequestRelease { transport_live: true };
            let telling = remote.after(release);
            let too_early = OwnershipOp::Boundary {
                complete: true,
                generation: early,
                neutral: held,
            };
            let told = telling.after(too_early).after(OwnershipOp::TerminalSent);
            let quiet = OwnershipOp::Boundary { complete: true, generation: back, neutral: held };
            let releasing = told.after(quiet);
            let ended = releasing.after(OwnershipOp::ReleaseCompleted);
            &&& arming.phase is Arming
            &&& arming.effect_of(neutral) is AcquireGrabs
            &&& grabbing.phase is Arming
            &&& grabbing.after(OwnershipOp::GrabFailed).phase is Idle
            &&& remote.phase is Remote
            &&& remote.effect_of(release) is QueueTerminal
            &&& telling.phase is Releasing
            &&& telling.effect_of(too_early) is Nothing
            &&& told.effect_of(quiet) is ReleaseGrabs
            &&& releasing.phase is Releasing
            &&& ended.phase is Idle
            &&& ended.consistent()
        }),
{
}

/// A release without a way to the peer waits only for the next moment between
/// frames, and one before the devices were grabbed ends at once.
pub proof fn releases_do_not_wait_for_a_lost_peer(
    state: SourceOwnership,
    generation: u64,
    neutral: bool,
    transport_live: bool,
)
    requires
        state.consistent(),
    ensures
        ({
            let dead = state.after(OwnershipOp::RequestRelease { transport_live: false });
            let quiet = OwnershipOp::Boundary { complete: true, generation, neutral };
            &&& state.phase is Remote ==> dead.phase is Releasing && dead.effect_of(
                quiet,
            ) is ReleaseGrabs && dead.after(quiet).after(OwnershipOp::ReleaseCompleted).phase is Idle
            &&& state.phase is Arming ==> state.after(
                OwnershipOp::RequestRelease { transport_live },
            ).phase is Idle && state.effect_of(
                OwnershipOp::RequestRelease { transport_live },
            ) is CancelActivation
            &&& state.phase is Idle || state.phase is Releasing ==> state.after(
                OwnershipOp::RequestRelease { transport_live },
            ) == state
        }),
{
}

/// One moment between frames counts once: looked at again, it does nothing.
pub proof fn boundaries_count_once(state: SourceOwnership, generation: u64, neutral: bool)
    ensures
        ({
            let boundary = OwnershipOp::Boundary { complete: true, generation, neutral };
            let after = state.after(boundary);
            &&& after.effect_of(boundary) is Nothing
            &&& after.after(boundary) == after
            &&& after.phase == state.phase
        }),
        state.after(OwnershipOp::Boundary { complete: false, generation, neutral }) == state,
        state.effect_of(
            OwnershipOp::Boundary { complete: false, generation, neutral },
        ) is Nothing,
{
}

/// A forced release closes what was open and lets the devices go, or cancels what
/// was not open yet.
pub proof fn forced_releases_close_everything(state: SourceOwnership)
    requires
        state.consistent(),
    ensures
        ({
            let forced = state.after(OwnershipOp::ForceRelease);
            &&& state.phase is Remote || state.phase is Releasing ==> state.effect_of(
                OwnershipOp::ForceRelease,
            ) is CloseActivationAndReleaseGrabs && forced.after(
                OwnershipOp::ReleaseCompleted,
            ).phase is Idle
            &&& state.phase is Arming ==> state.effect_of(
                OwnershipOp::ForceRelease,
            ) is CancelActivation && forced.phase is Idle
            &&& state.phase is Idle ==> forced == state
        }),
{
}

/// A key or button is held from the event that presses it until the one that
/// releases it; no other event changes that, and no event changes another key. A
/// frame is open from its first event to its report.
pub proof fn keys_are_held_until_released(device: InputModel, event: InputEvent, other: u32)
    ensures
        ({
            let after = observed(device, event);
            &&& event.kind == 1 && (event.value == 1 || event.value == 2) ==> after.held.contains(
                event.code as u32,
            )
            &&& event.kind == 1 && event.value == 0 ==> !after.held.contains(event.code as u32)
            &&& event.kind != 1 || other != event.code || !(0 <= event.value <= 2)
                ==> after.held.contains(other) == device.held.contains(other)
            &&& event.kind != 0 ==> after.in_frame
            &&& event.kind == 0 && event.code == 0 ==> !after.in_frame
            &&& event.kind == 0 && event.code != 0 ==> after == device
        }),
{
}

} // verus!
