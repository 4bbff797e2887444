//! The state that the runtime loop carries between events, and the actions that
//! each event asks for.
use vstd::prelude::*;

use super::linux::{blocker_spec, RuntimeCloseReason, RuntimeDiagnostic};
use crate::linux::ownership::{
    between_frames, nothing_held, AggregateInputState, OwnershipEffect, OwnershipOp, OwnershipPhase,
    SourceOwnership,
};
use crate::text::text_of;

verus! {

/// One step for the runtime loop. Steps are carried out in order; steps that
/// end in a result are answered with the method of the same name.
#[derive(Clone, Copy, Debug, PartialEq, Eq, Structural)]
pub enum RuntimeAction {
    EmitReady,
    EmitActivationChord,
    /// Publish the current phase, peer and leakage count.
    EmitOwnership,
    EmitClosed(RuntimeCloseReason),
    EmitReceiverReleased(RuntimeCloseReason),
    EmitStopped,
    Diagnose(RuntimeDiagnostic),
    /// Publish the terminal request; answered with `terminal_queued`.
    QueueTerminal,
    /// Hand the frame to the session; answered with `frame_forwarded`.
    ForwardFrame,
    /// Look at the devices; answered with `boundary`.
    AdvanceBoundary,
    /// Grab every device; answered with `grab_finished`.
    GrabAll,
    /// Ungrab every device; answered with `ungrab_finished` and this reason.
    UngrabAll(RuntimeCloseReason),
    /// Carry out `force_release`.
    ForceRelease(RuntimeCloseReason),
    /// Release held virtual input; answered with `receiver_released`.
    ReleaseReceiver(RuntimeCloseReason),
    /// Close every capture descriptor.
    CloseDescriptors,
    /// Ungrab every device and close every descriptor; answered with
    /// `capture_suspended`.
    SuspendCapture,
    Deregister,
    /// Register descriptors; a failure is answered with `register_failed`.
    Register,
    /// Register descriptors as far as that is possible; nothing is answered.
    RegisterAgain,
    /// Open and close nodes; answered with `reconciled`.
    Reconcile,
    /// Forget chord keys of removed devices.
    ForgetRemovedDevices,
    ClearChords,
    RescanNow,
    ProbeNow,
    /// Scan the devices; answered with `scan_failed` or `selection_resolved`.
    Rescan,
    /// Create the virtual devices anew; answered with `devices_replaced`.
    ReplaceDevices,
    /// Tell the service manager; answered with `ready_notified`.
    NotifyReady,
    NotifyStopping,
}

#[derive(Clone, Copy, Debug, PartialEq, Eq, Structural)]
pub enum ForwardResult {
    Sent,
    Full,
    Disconnected,
}

#[derive(Clone, Copy, Debug, PartialEq, Eq, Structural)]
pub enum ReadFailure {
    DeviceRemoved,
    Mapping,
    Other,
}

/// Runtime state between events.
pub struct RuntimeCore {
    pub ownership: SourceOwnership,
    pub selected_peer: Option<String>,
    pub arming_leakage_events: u64,
    pub capture_selection_complete: bool,
    pub ready: bool,
    pub suspended: bool,
    pub stopping: bool,
}

/// Runtime state as mathematical values.
pub struct RuntimeModel {
    pub ownership: SourceOwnership,
    pub selected_peer: Option<Seq<char>>,
    pub arming_leakage_events: u64,
    pub capture_selection_complete: bool,
    pub ready: bool,
    pub suspended: bool,
    pub stopping: bool,
}

impl View for RuntimeCore {
    type V = RuntimeModel;

    open spec fn view(&self) -> RuntimeModel {
        RuntimeModel {
            ownership: self.ownership,
            selected_peer: text_of(self.selected_peer),
            arming_leakage_events: self.arming_leakage_events,
            capture_selection_complete: self.capture_selection_complete,
            ready: self.ready,
            suspended: self.suspended,
            stopping: self.stopping,
        }
    }
}

impl RuntimeModel {
    pub open spec fn phase(self) -> OwnershipPhase {
        self.ownership.phase
    }

    pub open spec fn stepped(self, op: OwnershipOp) -> RuntimeModel {
        RuntimeModel { ownership: self.ownership.after(op), ..self }
    }

    /// Input that was still seen locally while arming is counted; the escape
    /// chord takes remote input back.
    pub open spec fn framed(self, event_count: u64, escape: bool) -> RuntimeModel {
        match self.phase() {
            OwnershipPhase::Arming => RuntimeModel {
                arming_leakage_events: if self.arming_leakage_events + event_count <= u64::MAX {
                    (self.arming_leakage_events + event_count) as u64
                } else {
                    u64::MAX
                },
                ..self
            },
            OwnershipPhase::Remote => if escape {
                self.stepped(OwnershipOp::RequestRelease { transport_live: true })
            } else {
                self
            },
            _ => self,
        }
    }

    pub open spec fn without_peer(self) -> RuntimeModel {
        RuntimeModel { selected_peer: None, ..self }
    }
}

impl RuntimeCore {
    pub fn new(capture_selection_complete: bool) -> (result: Self)
        ensures
            result@ == (RuntimeModel {
                ownership: SourceOwnership::idle(),
                selected_peer: None,
                arming_leakage_events: 0,
                capture_selection_complete,
                ready: false,
                suspended: false,
                stopping: false,
            }),
    {
        RuntimeCore {
            ownership: SourceOwnership::default(),
            selected_peer: None,
            arming_leakage_events: 0,
            capture_selection_complete,
            ready: false,
            suspended: false,
            stopping: false,
        }
    }

    /// A request to hand input to a peer.
    pub fn activate(&mut self, peer: String, capture_empty: bool) -> (actions: Vec<RuntimeAction>)
        ensures
            match blocker_spec(old(self).capture_selection_complete, capture_empty) {
                Some(diagnostic) => actions@ == seq![RuntimeAction::Diagnose(diagnostic)]
                    && final(self)@ == old(self)@,
                None => if old(self)@.phase() == OwnershipPhase::Idle {
                    &&& actions@ == seq![
                        RuntimeAction::EmitOwnership,
                        RuntimeAction::AdvanceBoundary,
                    ]
                    &&& final(self)@ == (RuntimeModel {
                        arming_leakage_events: 0,
                        selected_peer: Some(peer@),
                        ..old(self)@.stepped(OwnershipOp::RequestActivation)
                    })
                } else {
                    actions@.len() == 0 && final(self)@ == old(self)@
                },
            },
    {
        if let Some(diagnostic) = super::linux::activation_capture_blocker(
            self.capture_selection_complete,
            capture_empty,
        ) {
            return vec![RuntimeAction::Diagnose(diagnostic)];
        }
        if self.ownership.request_activation().is_err() {
            return Vec::new();
        }
        self.arming_leakage_events = 0;
        self.selected_peer = Some(peer);
        vec![RuntimeAction::EmitOwnership, RuntimeAction::AdvanceBoundary]
    }

    /// A request to take input back.
    pub fn release(&mut self, transport_live: bool) -> (actions: Vec<RuntimeAction>)
        ensures
            if !transport_live {
                &&& actions@ == transport_loss_actions()
                &&& final(self)@ == old(self)@
            } else {
                let op = OwnershipOp::RequestRelease { transport_live: true };
                match old(self)@.phase() {
                    OwnershipPhase::Remote => {
                        &&& actions@ == seq![
                            RuntimeAction::QueueTerminal,
                            RuntimeAction::EmitOwnership,
                            RuntimeAction::AdvanceBoundary,
                        ]
                        &&& final(self)@ == old(self)@.stepped(op)
                    },
                    OwnershipPhase::Arming => {
                        &&& actions@ == seq![
                            RuntimeAction::EmitClosed(RuntimeCloseReason::LocalRelease),
                            RuntimeAction::EmitOwnership,
                            RuntimeAction::AdvanceBoundary,
                        ]
                        &&& final(self)@ == old(self)@.stepped(op).without_peer()
                    },
                    _ => {
                        &&& actions@ == seq![
                            RuntimeAction::EmitOwnership,
                            RuntimeAction::AdvanceBoundary,
                        ]
                        &&& final(self)@ == old(self)@
                    },
                }
            },
    {
        if !transport_live {
            return vec![RuntimeAction::ForceRelease(RuntimeCloseReason::TransportLost)];
        }
        match self.ownership.request_release(true) {
            OwnershipEffect::QueueTerminal => vec![
                RuntimeAction::QueueTerminal,
                RuntimeAction::EmitOwnership,
                RuntimeAction::AdvanceBoundary,
            ],
            OwnershipEffect::CancelActivation => {
                self.selected_peer = None;
                vec![
                    RuntimeAction::EmitClosed(RuntimeCloseReason::LocalRelease),
                    RuntimeAction::EmitOwnership,
                    RuntimeAction::AdvanceBoundary,
                ]
            },
            _ => vec![RuntimeAction::EmitOwnership, RuntimeAction::AdvanceBoundary],
        }
    }

    /// The terminal state reached the transport, or the transport is gone.
    pub fn terminal_sent(&mut self, transport_live: bool) -> (actions: Vec<RuntimeAction>)
        ensures
            if !transport_live {
                &&& actions@ == transport_loss_actions()
                &&& final(self)@ == old(self)@
            } else if old(self)@.phase() == OwnershipPhase::Releasing
                && old(self)@.ownership.terminal_pending {
                &&& actions@ == seq![RuntimeAction::AdvanceBoundary]
                &&& final(self)@ == old(self)@.stepped(OwnershipOp::TerminalSent)
            } else {
                actions@.len() == 0 && final(self)@ == old(self)@
            },
    {
        if !transport_live {
            return vec![RuntimeAction::ForceRelease(RuntimeCloseReason::TransportLost)];
        }
        if self.ownership.terminal_sent().is_err() {
            return Vec::new();
        }
        vec![RuntimeAction::AdvanceBoundary]
    }

    /// An unpublished terminal request can never be confirmed, so grabs are
    /// dropped at once instead of waiting for it.
    pub fn terminal_queued(&self, published: bool) -> (actions: Vec<RuntimeAction>)
        ensures
            actions@ == if published {
                Seq::<RuntimeAction>::empty()
            } else {
                seq![RuntimeAction::ForceRelease(RuntimeCloseReason::Backpressure)]
            },
    {
        if published {
            Vec::new()
        } else {
            vec![RuntimeAction::ForceRelease(RuntimeCloseReason::Backpressure)]
        }
    }

    /// A captured frame, with whether it completed the activation or escape
    /// chord. The frame that completes the escape chord is consumed locally, so
    /// the escape key itself never reaches the peer.
    pub fn captured_frame(&mut self, event_count: u64, activation: bool, escape: bool) -> (actions:
        Vec<RuntimeAction>)
        ensures
            final(self)@ == old(self)@.framed(event_count, escape),
            actions@ == frame_actions(old(self)@.phase(), activation, escape),
    {
        let phase = self.ownership.phase();
        if phase == OwnershipPhase::Arming {
            self.arming_leakage_events = self.arming_leakage_events.saturating_add(event_count);
        }
        if phase == OwnershipPhase::Idle && activation {
            vec![RuntimeAction::EmitActivationChord, RuntimeAction::AdvanceBoundary]
        } else if phase == OwnershipPhase::Remote && escape {
            let _ = self.ownership.request_release(true);
            vec![
                RuntimeAction::QueueTerminal,
                RuntimeAction::EmitOwnership,
                RuntimeAction::AdvanceBoundary,
            ]
        } else if phase == OwnershipPhase::Remote {
            vec![RuntimeAction::ForwardFrame, RuntimeAction::AdvanceBoundary]
        } else {
            vec![RuntimeAction::AdvanceBoundary]
        }
    }

    /// A frame that cannot be handed on ends remote input.
    pub fn frame_forwarded(&self, result: ForwardResult) -> (actions: Vec<RuntimeAction>)
        ensures
            actions@ == forward_actions(result),
    {
        match result {
            ForwardResult::Sent => Vec::new(),
            ForwardResult::Full => vec![
                RuntimeAction::Diagnose(RuntimeDiagnostic::CapturedFrameQueueFull),
                RuntimeAction::ForceRelease(RuntimeCloseReason::Backpressure),
            ],
            ForwardResult::Disconnected => vec![
                RuntimeAction::ForceRelease(RuntimeCloseReason::Backpressure),
            ],
        }
    }

    /// Looks at the devices. `kernel` is what the kernel reports as held while
    /// arming: nothing held, something held, or unreadable.
    pub fn boundary(&mut self, aggregate: &AggregateInputState, kernel: Option<bool>) -> (actions:
        Vec<RuntimeAction>)
        requires
            aggregate.wf(),
        ensures
            if old(self)@.phase() == OwnershipPhase::Arming && kernel is None {
                &&& actions@ == seq![
                    RuntimeAction::Diagnose(RuntimeDiagnostic::GrabFailed),
                    RuntimeAction::EmitOwnership,
                ]
                &&& final(self)@ == old(self)@.stepped(
                    OwnershipOp::RequestRelease { transport_live: false },
                ).without_peer()
            } else {
                let op = OwnershipOp::Boundary {
                    complete: between_frames(aggregate@.devices),
                    generation: aggregate@.generation,
                    neutral: nothing_held(aggregate@.devices) && old(self)@.phase()
                        == OwnershipPhase::Arming && kernel == Some(true),
                };
                &&& final(self)@ == old(self)@.stepped(op)
                &&& actions@ == match old(self)@.ownership.effect_of(op) {
                    OwnershipEffect::AcquireGrabs => seq![RuntimeAction::GrabAll],
                    OwnershipEffect::ReleaseGrabs => seq![
                        RuntimeAction::UngrabAll(RuntimeCloseReason::LocalRelease),
                    ],
                    _ => Seq::<RuntimeAction>::empty(),
                }
            },
    {
        let arming = self.ownership.phase() == OwnershipPhase::Arming;
        if arming && kernel.is_none() {
            let _ = self.ownership.request_release(false);
            self.selected_peer = None;
            return vec![
                RuntimeAction::Diagnose(RuntimeDiagnostic::GrabFailed),
                RuntimeAction::EmitOwnership,
            ];
        }
        let kernel_neutral = match kernel {
            Some(neutral) => arming && neutral,
            None => false,
        };
        match self.ownership.at_complete_boundary(aggregate, kernel_neutral) {
            OwnershipEffect::AcquireGrabs => vec![RuntimeAction::GrabAll],
            OwnershipEffect::ReleaseGrabs => vec![
                RuntimeAction::UngrabAll(RuntimeCloseReason::LocalRelease),
            ],
            _ => Vec::new(),
        }
    }

    /// The grab transaction ended. A failed transaction may leave a device
    /// grabbed, so every descriptor is closed.
    pub fn grab_finished(&mut self, grabbed: bool) -> (actions: Vec<RuntimeAction>)
        ensures
            if grabbed {
                &&& actions@ == seq![RuntimeAction::EmitOwnership]
                &&& final(self)@ == old(self)@.stepped(OwnershipOp::GrabSucceeded)
            } else {
                &&& actions@ == seq![
                    RuntimeAction::Deregister,
                    RuntimeAction::CloseDescriptors,
                    RuntimeAction::RescanNow,
                    RuntimeAction::Diagnose(RuntimeDiagnostic::GrabFailed),
                    RuntimeAction::Diagnose(RuntimeDiagnostic::UngrabRequiredDescriptorClose),
                    RuntimeAction::EmitOwnership,
                ]
                &&& final(self)@ == old(self)@.stepped(OwnershipOp::GrabFailed).without_peer()
            },
    {
        if grabbed {
            let _ = self.ownership.grab_succeeded();
            vec![RuntimeAction::EmitOwnership]
        } else {
            let _ = self.ownership.grab_failed();
            self.selected_peer = None;
            vec![
                RuntimeAction::Deregister,
                RuntimeAction::CloseDescriptors,
                RuntimeAction::RescanNow,
                RuntimeAction::Diagnose(RuntimeDiagnostic::GrabFailed),
                RuntimeAction::Diagnose(RuntimeDiagnostic::UngrabRequiredDescriptorClose),
                RuntimeAction::EmitOwnership,
            ]
        }
    }

    /// Every device was ungrabbed, or closing descriptors has to do it.
    pub fn ungrab_finished(&mut self, clean: bool, reason: RuntimeCloseReason) -> (actions: Vec<
        RuntimeAction,
    >)
        ensures
            final(self)@ == old(self)@.stepped(OwnershipOp::ReleaseCompleted).without_peer(),
            actions@ == if clean {
                seq![RuntimeAction::EmitClosed(reason), RuntimeAction::EmitOwnership]
            } else {
                seq![
                    RuntimeAction::CloseDescriptors,
                    RuntimeAction::RescanNow,
                    RuntimeAction::Diagnose(RuntimeDiagnostic::UngrabRequiredDescriptorClose),
                    RuntimeAction::EmitClosed(reason),
                    RuntimeAction::EmitOwnership,
                ]
            },
    {
        let _ = self.ownership.release_completed();
        self.selected_peer = None;
        if clean {
            vec![RuntimeAction::EmitClosed(reason), RuntimeAction::EmitOwnership]
        } else {
            vec![
                RuntimeAction::CloseDescriptors,
                RuntimeAction::RescanNow,
                RuntimeAction::Diagnose(RuntimeDiagnostic::UngrabRequiredDescriptorClose),
                RuntimeAction::EmitClosed(reason),
                RuntimeAction::EmitOwnership,
            ]
        }
    }

    /// Ends remote input at once, whatever the phase.
    pub fn force_release(&mut self, reason: RuntimeCloseReason) -> (actions: Vec<RuntimeAction>)
        ensures
            match old(self)@.phase() {
                OwnershipPhase::Idle => actions@.len() == 0 && final(self)@ == old(self)@,
                OwnershipPhase::Arming => {
                    &&& actions@ == seq![
                        RuntimeAction::EmitClosed(reason),
                        RuntimeAction::EmitOwnership,
                    ]
                    &&& final(self)@ == old(self)@.stepped(OwnershipOp::ForceRelease).without_peer()
                },
                _ => {
                    &&& actions@ == seq![RuntimeAction::UngrabAll(reason)]
                    &&& final(self)@ == old(self)@.stepped(OwnershipOp::ForceRelease)
                },
            },
    {
        match self.ownership.device_removed() {
            OwnershipEffect::CloseActivationAndReleaseGrabs => vec![
                RuntimeAction::UngrabAll(reason),
            ],
            OwnershipEffect::CancelActivation => {
                self.selected_peer = None;
                vec![RuntimeAction::EmitClosed(reason), RuntimeAction::EmitOwnership]
            },
            _ => Vec::new(),
        }
    }

    /// Injection failed. A failed emission may leave a key down, so the loop
    /// stops and closes the virtual devices.
    pub fn injection_failed(&mut self) -> (actions: Vec<RuntimeAction>)
        ensures
            actions@ == seq![
                RuntimeAction::Diagnose(RuntimeDiagnostic::InjectionFailed),
                RuntimeAction::ReleaseReceiver(RuntimeCloseReason::BackendFault),
            ],
            final(self)@ == (RuntimeModel { stopping: true, ..old(self)@ }),
    {
        self.stopping = true;
        vec![
            RuntimeAction::Diagnose(RuntimeDiagnostic::InjectionFailed),
            RuntimeAction::ReleaseReceiver(RuntimeCloseReason::BackendFault),
        ]
    }

    /// Held virtual input was released, or the loop has to stop.
    pub fn receiver_released(&mut self, released: bool, reason: RuntimeCloseReason) -> (actions:
        Vec<RuntimeAction>)
        ensures
            final(self)@ == (RuntimeModel {
                stopping: old(self)@.stopping || !released,
                ..old(self)@
            }),
            actions@ == if released {
                seq![RuntimeAction::EmitReceiverReleased(reason)]
            } else {
                seq![
                    RuntimeAction::Diagnose(RuntimeDiagnostic::InjectionFailed),
                    RuntimeAction::EmitReceiverReleased(reason),
                ]
            },
    {
        if released {
            vec![RuntimeAction::EmitReceiverReleased(reason)]
        } else {
            self.stopping = true;
            vec![
                RuntimeAction::Diagnose(RuntimeDiagnostic::InjectionFailed),
                RuntimeAction::EmitReceiverReleased(reason),
            ]
        }
    }

    /// The machine is about to sleep.
    pub fn suspend(&mut self) -> (actions: Vec<RuntimeAction>)
        ensures
            final(self)@ == (RuntimeModel { suspended: true, ..old(self)@ }),
            actions@ == suspend_actions(old(self)@.suspended),
    {
        if self.suspended {
            return Vec::new();
        }
        self.suspended = true;
        vec![
            RuntimeAction::ForceRelease(RuntimeCloseReason::Suspend),
            RuntimeAction::Deregister,
            RuntimeAction::SuspendCapture,
            RuntimeAction::ReleaseReceiver(RuntimeCloseReason::Suspend),
            RuntimeAction::ClearChords,
        ]
    }

    /// Every descriptor was closed. Closing ends every grab, also one that could
    /// not be let go before.
    pub fn capture_suspended(&self, ungrabbed: bool) -> (actions: Vec<RuntimeAction>)
        ensures
            actions@ == if ungrabbed {
                Seq::<RuntimeAction>::empty()
            } else {
                seq![RuntimeAction::Diagnose(RuntimeDiagnostic::UngrabRequiredDescriptorClose)]
            },
    {
        if ungrabbed {
            Vec::new()
        } else {
            vec![RuntimeAction::Diagnose(RuntimeDiagnostic::UngrabRequiredDescriptorClose)]
        }
    }

    /// The machine woke up; `released` tells whether nothing is held on the
    /// virtual devices.
    pub fn resume(&mut self, released: bool) -> (actions: Vec<RuntimeAction>)
        ensures
            if !old(self)@.suspended {
                actions@.len() == 0 && final(self)@ == old(self)@
            } else if released {
                &&& actions@ == seq![
                    RuntimeAction::RescanNow,
                    RuntimeAction::ProbeNow,
                    RuntimeAction::Rescan,
                ]
                &&& final(self)@ == (RuntimeModel { suspended: false, ..old(self)@ })
            } else {
                &&& actions@ == seq![RuntimeAction::Diagnose(RuntimeDiagnostic::InjectionFailed)]
                &&& final(self)@ == (RuntimeModel { stopping: true, ..old(self)@ })
            },
    {
        if !self.suspended {
            return Vec::new();
        }
        if !released {
            self.stopping = true;
            return vec![RuntimeAction::Diagnose(RuntimeDiagnostic::InjectionFailed)];
        }
        self.suspended = false;
        vec![RuntimeAction::RescanNow, RuntimeAction::ProbeNow, RuntimeAction::Rescan]
    }

    /// The device scan failed; the open set stays as it is.
    pub fn scan_failed(&self) -> (actions: Vec<RuntimeAction>)
        ensures
            actions@ == seq![
                RuntimeAction::Diagnose(RuntimeDiagnostic::CaptureReadFailed),
                RuntimeAction::RegisterAgain,
            ],
    {
        vec![
            RuntimeAction::Diagnose(RuntimeDiagnostic::CaptureReadFailed),
            RuntimeAction::RegisterAgain,
        ]
    }

    /// The configured devices were resolved again.
    pub fn selection_resolved(&mut self, complete: bool) -> (actions: Vec<RuntimeAction>)
        ensures
            final(self)@ == (RuntimeModel { capture_selection_complete: complete, ..old(self)@ }),
            actions@ == selection_actions(
                old(self)@.capture_selection_complete,
                complete,
                old(self)@.phase(),
            ),
    {
        let was_complete = self.capture_selection_complete;
        self.capture_selection_complete = complete;
        let mut actions: Vec<RuntimeAction> = Vec::new();
        if let Some(diagnostic) = super::linux::capture_selection_diagnostic(
            Some(was_complete),
            complete,
        ) {
            actions.push(RuntimeAction::Diagnose(diagnostic));
        }
        if super::linux::selection_loss_closes_activation(self.ownership.phase(), complete) {
            actions.push(RuntimeAction::ForceRelease(RuntimeCloseReason::DeviceRemoved));
        }
        actions.push(RuntimeAction::Reconcile);
        assert(actions@ =~= selection_actions(was_complete, complete, old(self)@.phase()));
        actions
    }

    /// Nodes were opened and closed: whether any was removed and whether that
    /// closes the activation, or `None` if opening failed.
    pub fn reconciled(&self, outcome: Option<(bool, bool)>) -> (actions: Vec<RuntimeAction>)
        ensures
            actions@ == reconcile_actions(outcome),
    {
        match outcome {
            Some((removed, must_close)) => {
                let mut actions: Vec<RuntimeAction> = Vec::new();
                if removed {
                    actions.push(RuntimeAction::ForgetRemovedDevices);
                    actions.push(
                        RuntimeAction::ReleaseReceiver(RuntimeCloseReason::DeviceRemoved),
                    );
                }
                if must_close {
                    actions.push(RuntimeAction::ForceRelease(RuntimeCloseReason::DeviceRemoved));
                }
                assert(actions@ =~= reconcile_actions(outcome));
                actions
            },
            None => vec![
                RuntimeAction::Diagnose(RuntimeDiagnostic::CaptureOpenFailed),
                RuntimeAction::ForceRelease(RuntimeCloseReason::CaptureFault),
                RuntimeAction::CloseDescriptors,
            ],
        }
    }

    /// Closes a rescan: unreadable nodes explain a selector without a device.
    pub fn rescan_finished(&self, scan_failures: usize, unmatched: usize) -> (actions: Vec<
        RuntimeAction,
    >)
        ensures
            actions@ == if scan_failures > 0 && unmatched > 0 {
                seq![
                    RuntimeAction::Diagnose(RuntimeDiagnostic::CaptureOpenFailed),
                    RuntimeAction::Register,
                ]
            } else {
                seq![RuntimeAction::Register]
            },
    {
        if scan_failures > 0 && unmatched > 0 {
            vec![
                RuntimeAction::Diagnose(RuntimeDiagnostic::CaptureOpenFailed),
                RuntimeAction::Register,
            ]
        } else {
            vec![RuntimeAction::Register]
        }
    }

    pub fn register_failed(&self) -> (actions: Vec<RuntimeAction>)
        ensures
            actions@ == seq![
                RuntimeAction::Diagnose(RuntimeDiagnostic::CaptureOpenFailed),
                RuntimeAction::ForceRelease(RuntimeCloseReason::CaptureFault),
                RuntimeAction::CloseDescriptors,
            ],
    {
        vec![
            RuntimeAction::Diagnose(RuntimeDiagnostic::CaptureOpenFailed),
            RuntimeAction::ForceRelease(RuntimeCloseReason::CaptureFault),
            RuntimeAction::CloseDescriptors,
        ]
    }

    /// A capture node could not be read.
    pub fn read_failed(&self, failure: ReadFailure) -> (actions: Vec<RuntimeAction>)
        ensures
            actions@ == read_failure_actions(failure),
    {
        match failure {
            ReadFailure::DeviceRemoved => vec![
                RuntimeAction::ForgetRemovedDevices,
                RuntimeAction::ForceRelease(RuntimeCloseReason::DeviceRemoved),
                RuntimeAction::ReleaseReceiver(RuntimeCloseReason::DeviceRemoved),
                RuntimeAction::RescanNow,
            ],
            ReadFailure::Mapping => vec![
                RuntimeAction::Diagnose(RuntimeDiagnostic::CaptureMappingLost),
                RuntimeAction::ForceRelease(RuntimeCloseReason::CaptureFault),
                RuntimeAction::Deregister,
                RuntimeAction::CloseDescriptors,
                RuntimeAction::RescanNow,
            ],
            ReadFailure::Other => vec![
                RuntimeAction::Diagnose(RuntimeDiagnostic::CaptureReadFailed),
                RuntimeAction::ForceRelease(RuntimeCloseReason::CaptureFault),
                RuntimeAction::Deregister,
                RuntimeAction::CloseDescriptors,
                RuntimeAction::RescanNow,
            ],
        }
    }

    /// The virtual devices were probed: ready, not yet ready, or unreadable.
    pub fn probed(&self, ready: Option<bool>) -> (actions: Vec<RuntimeAction>)
        ensures
            actions@ == match ready {
                Some(ready) => if ready {
                    seq![RuntimeAction::NotifyReady]
                } else {
                    Seq::<RuntimeAction>::empty()
                },
                None => seq![RuntimeAction::Diagnose(RuntimeDiagnostic::ReadinessProbeFailed)],
            },
    {
        match ready {
            Some(ready) => if ready {
                vec![RuntimeAction::NotifyReady]
            } else {
                Vec::new()
            },
            None => vec![RuntimeAction::Diagnose(RuntimeDiagnostic::ReadinessProbeFailed)],
        }
    }

    /// The service manager was told, or could not be told.
    pub fn ready_notified(&mut self, told: bool) -> (actions: Vec<RuntimeAction>)
        ensures
            final(self)@ == (RuntimeModel { ready: old(self)@.ready || told, ..old(self)@ }),
            actions@ == if told {
                seq![RuntimeAction::EmitReady]
            } else {
                seq![RuntimeAction::Diagnose(RuntimeDiagnostic::ServiceNotificationFailed)]
            },
    {
        if told {
            self.ready = true;
            vec![RuntimeAction::EmitReady]
        } else {
            vec![RuntimeAction::Diagnose(RuntimeDiagnostic::ServiceNotificationFailed)]
        }
    }

    /// A new configuration was accepted. A changed touchpad setting replaces
    /// the virtual devices before anything else.
    pub fn reload(&self, touchpad_changed: bool) -> (actions: Vec<RuntimeAction>)
        ensures
            actions@ == reload_actions(self@.phase(), touchpad_changed, self@.suspended),
    {
        let mut actions: Vec<RuntimeAction> = Vec::new();
        if self.ownership.phase() != OwnershipPhase::Idle {
            actions.push(RuntimeAction::ForceRelease(RuntimeCloseReason::LocalRelease));
        }
        if touchpad_changed {
            actions.push(RuntimeAction::ReleaseReceiver(RuntimeCloseReason::LocalRelease));
            actions.push(RuntimeAction::ReplaceDevices);
        } else {
            actions.push(RuntimeAction::RescanNow);
            if !self.suspended {
                actions.push(RuntimeAction::Rescan);
            }
        }
        assert(actions@ =~= reload_actions(self@.phase(), touchpad_changed, self@.suspended));
        actions
    }

    /// The virtual devices were created anew and have to become ready again, or
    /// they stay as they were and the new configuration is not taken.
    pub fn devices_replaced(&mut self, created: bool) -> (actions: Vec<RuntimeAction>)
        ensures
            final(self)@ == (RuntimeModel { ready: old(self)@.ready && !created, ..old(self)@ }),
            actions@ == if created {
                seq![RuntimeAction::ProbeNow] + rescan_actions(old(self)@.suspended)
            } else {
                Seq::<RuntimeAction>::empty()
            },
    {
        if !created {
            return Vec::new();
        }
        self.ready = false;
        let mut actions: Vec<RuntimeAction> = vec![
            RuntimeAction::ProbeNow,
            RuntimeAction::RescanNow,
        ];
        if !self.suspended {
            actions.push(RuntimeAction::Rescan);
        }
        assert(actions@ =~= seq![RuntimeAction::ProbeNow] + rescan_actions(old(self)@.suspended));
        actions
    }

    /// The descriptors can no longer be waited for.
    pub fn poll_failed(&mut self) -> (actions: Vec<RuntimeAction>)
        ensures
            final(self)@ == (RuntimeModel { stopping: true, ..old(self)@ }),
            actions@ == seq![
                RuntimeAction::Diagnose(RuntimeDiagnostic::CaptureReadFailed),
                RuntimeAction::ForceRelease(RuntimeCloseReason::CaptureFault),
            ],
    {
        self.stopping = true;
        vec![
            RuntimeAction::Diagnose(RuntimeDiagnostic::CaptureReadFailed),
            RuntimeAction::ForceRelease(RuntimeCloseReason::CaptureFault),
        ]
    }

    /// The loop ends.
    pub fn stop(&self) -> (actions: Vec<RuntimeAction>)
        ensures
            actions@ == stop_actions(),
    {
        vec![
            RuntimeAction::ForceRelease(RuntimeCloseReason::Stop),
            RuntimeAction::Deregister,
            RuntimeAction::SuspendCapture,
            RuntimeAction::ReleaseReceiver(RuntimeCloseReason::Stop),
            RuntimeAction::NotifyStopping,
            RuntimeAction::EmitStopped,
        ]
    }
}

pub open spec fn frame_actions(
    phase: OwnershipPhase,
    activation: bool,
    escape: bool,
) -> Seq<RuntimeAction> {
    match phase {
        OwnershipPhase::Idle => if activation {
            seq![RuntimeAction::EmitActivationChord, RuntimeAction::AdvanceBoundary]
        } else {
            seq![RuntimeAction::AdvanceBoundary]
        },
        OwnershipPhase::Remote => if escape {
            seq![
                RuntimeAction::QueueTerminal,
                RuntimeAction::EmitOwnership,
                RuntimeAction::AdvanceBoundary,
            ]
        } else {
            seq![RuntimeAction::ForwardFrame, RuntimeAction::AdvanceBoundary]
        },
        _ => seq![RuntimeAction::AdvanceBoundary],
    }
}

pub open spec fn selection_actions(
    was_complete: bool,
    complete: bool,
    phase: OwnershipPhase,
) -> Seq<RuntimeAction> {
    let diagnosed = if !complete && was_complete {
        seq![RuntimeAction::Diagnose(RuntimeDiagnostic::CaptureSelectionIncomplete)]
    } else {
        Seq::empty()
    };
    let closed = if !complete && phase != OwnershipPhase::Idle {
        diagnosed.push(RuntimeAction::ForceRelease(RuntimeCloseReason::DeviceRemoved))
    } else {
        diagnosed
    };
    closed.push(RuntimeAction::Reconcile)
}

pub open spec fn reconcile_actions(outcome: Option<(bool, bool)>) -> Seq<RuntimeAction> {
    match outcome {
        Some((removed, must_close)) => {
            let forgotten = if removed {
                seq![
                    RuntimeAction::ForgetRemovedDevices,
                    RuntimeAction::ReleaseReceiver(RuntimeCloseReason::DeviceRemoved),
                ]
            } else {
                Seq::empty()
            };
            if must_close {
                forgotten.push(RuntimeAction::ForceRelease(RuntimeCloseReason::DeviceRemoved))
            } else {
                forgotten
            }
        },
        None => seq![
            RuntimeAction::Diagnose(RuntimeDiagnostic::CaptureOpenFailed),
            RuntimeAction::ForceRelease(RuntimeCloseReason::CaptureFault),
            RuntimeAction::CloseDescriptors,
        ],
    }
}

pub open spec fn reload_actions(
    phase: OwnershipPhase,
    touchpad_changed: bool,
    suspended: bool,
) -> Seq<RuntimeAction> {
    let released = if phase != OwnershipPhase::Idle {
        seq![RuntimeAction::ForceRelease(RuntimeCloseReason::LocalRelease)]
    } else {
        Seq::empty()
    };
    if touchpad_changed {
        released.push(RuntimeAction::ReleaseReceiver(RuntimeCloseReason::LocalRelease)).push(
            RuntimeAction::ReplaceDevices,
        )
    } else {
        released + rescan_actions(suspended)
    }
}

/// A rescan is due, and done at once unless the machine sleeps.
pub open spec fn rescan_actions(suspended: bool) -> Seq<RuntimeAction> {
    if suspended {
        seq![RuntimeAction::RescanNow]
    } else {
        seq![RuntimeAction::RescanNow, RuntimeAction::Rescan]
    }
}

pub open spec fn forward_actions(result: ForwardResult) -> Seq<RuntimeAction> {
    match result {
        ForwardResult::Sent => Seq::empty(),
        ForwardResult::Full => seq![
            RuntimeAction::Diagnose(RuntimeDiagnostic::CapturedFrameQueueFull),
            RuntimeAction::ForceRelease(RuntimeCloseReason::Backpressure),
        ],
        ForwardResult::Disconnected => seq![
            RuntimeAction::ForceRelease(RuntimeCloseReason::Backpressure),
        ],
    }
}

pub open spec fn read_failure_actions(failure: ReadFailure) -> Seq<RuntimeAction> {
    match failure {
        ReadFailure::DeviceRemoved => seq![
            RuntimeAction::ForgetRemovedDevices,
            RuntimeAction::ForceRelease(RuntimeCloseReason::DeviceRemoved),
            RuntimeAction::ReleaseReceiver(RuntimeCloseReason::DeviceRemoved),
            RuntimeAction::RescanNow,
        ],
        ReadFailure::Mapping => seq![
            RuntimeAction::Diagnose(RuntimeDiagnostic::CaptureMappingLost),
            RuntimeAction::ForceRelease(RuntimeCloseReason::CaptureFault),
            RuntimeAction::Deregister,
            RuntimeAction::CloseDescriptors,
            RuntimeAction::RescanNow,
        ],
        ReadFailure::Other => seq![
            RuntimeAction::Diagnose(RuntimeDiagnostic::CaptureReadFailed),
            RuntimeAction::ForceRelease(RuntimeCloseReason::CaptureFault),
            RuntimeAction::Deregister,
            RuntimeAction::CloseDescriptors,
            RuntimeAction::RescanNow,
        ],
    }
}

pub open spec fn suspend_actions(suspended: bool) -> Seq<RuntimeAction> {
    if suspended {
        Seq::empty()
    } else {
        seq![
            RuntimeAction::ForceRelease(RuntimeCloseReason::Suspend),
            RuntimeAction::Deregister,
            RuntimeAction::SuspendCapture,
            RuntimeAction::ReleaseReceiver(RuntimeCloseReason::Suspend),
            RuntimeAction::ClearChords,
        ]
    }
}

pub open spec fn stop_actions() -> Seq<RuntimeAction> {
    seq![
        RuntimeAction::ForceRelease(RuntimeCloseReason::Stop),
        RuntimeAction::Deregister,
        RuntimeAction::SuspendCapture,
        RuntimeAction::ReleaseReceiver(RuntimeCloseReason::Stop),
        RuntimeAction::NotifyStopping,
        RuntimeAction::EmitStopped,
    ]
}

pub open spec fn transport_loss_actions() -> Seq<RuntimeAction> {
    seq![RuntimeAction::ForceRelease(RuntimeCloseReason::TransportLost)]
}

/// Remote input is taken back at once.
pub open spec fn forced_by(actions: Seq<RuntimeAction>) -> bool {
    exists|i: int| 0 <= i < actions.len() && (#[trigger] actions[i]) is ForceRelease
}

/// A forced release always ends idle with no peer selected, directly or once
/// the devices are ungrabbed.
pub proof fn forced_release_ends_idle(state: RuntimeModel)
    requires
        state.ownership.consistent(),
        state.phase() == OwnershipPhase::Idle ==> state.selected_peer is None,
    ensures
        ({
            let forced = state.stepped(OwnershipOp::ForceRelease);
            if forced.phase() == OwnershipPhase::Idle {
                forced.ownership.consistent()
            } else {
                forced.stepped(OwnershipOp::ReleaseCompleted).without_peer().phase()
                    == OwnershipPhase::Idle
            }
        }),
{
}

/// Frames are handed to the peer only while input is remote, and never the one
/// that completes the escape chord.
pub proof fn frames_leave_only_while_remote(phase: OwnershipPhase, activation: bool, escape: bool)
    requires
        frame_actions(phase, activation, escape).contains(RuntimeAction::ForwardFrame),
    ensures
        phase == OwnershipPhase::Remote,
        !escape,
{
}

/// The escape chord always returns input. Once it is complete no frame is handed
/// on, the peer is to be told, and both ways out end idle: the next moment
/// between frames after the peer was told, or at once where it cannot be told.
pub proof fn the_escape_chord_returns_input(
    state: RuntimeModel,
    event_count: u64,
    activation: bool,
    generation: u64,
    neutral: bool,
    later_activation: bool,
    later_escape: bool,
)
    requires
        state.ownership.consistent(),
        state.phase() == OwnershipPhase::Remote,
    ensures
        ({
            let released = state.framed(event_count, true);
            let quiet = OwnershipOp::Boundary { complete: true, generation, neutral };
            let told = released.stepped(OwnershipOp::TerminalSent);
            let forced = released.stepped(OwnershipOp::ForceRelease);
            &&& frame_actions(state.phase(), activation, true).contains(
                RuntimeAction::QueueTerminal,
            )
            &&& released.phase() == OwnershipPhase::Releasing
            &&& !frame_actions(released.phase(), later_activation, later_escape).contains(
                RuntimeAction::ForwardFrame,
            )
            &&& told.ownership.effect_of(quiet) == OwnershipEffect::ReleaseGrabs
            &&& told.stepped(quiet).stepped(OwnershipOp::ReleaseCompleted).phase()
                == OwnershipPhase::Idle
            &&& released.ownership.effect_of(OwnershipOp::ForceRelease)
                == OwnershipEffect::CloseActivationAndReleaseGrabs
            &&& forced.stepped(OwnershipOp::ReleaseCompleted).phase() == OwnershipPhase::Idle
        }),
{
    let actions = frame_actions(state.phase(), activation, true);
    assert(actions[0] == RuntimeAction::QueueTerminal);
}

/// Whatever is lost while input is remote, the answer takes remote input back: a
/// node that can no longer be read, the way to the session, a selected device,
/// the transport, or the machine that goes to sleep or stops.
pub proof fn losses_take_remote_input_back(failure: ReadFailure)
    ensures
        forced_by(read_failure_actions(failure)),
        forced_by(forward_actions(ForwardResult::Full)),
        forced_by(forward_actions(ForwardResult::Disconnected)),
        forced_by(selection_actions(true, false, OwnershipPhase::Remote)),
        forced_by(reconcile_actions(None)),
        forced_by(suspend_actions(false)),
        forced_by(stop_actions()),
        forced_by(transport_loss_actions()),
{
    assert(read_failure_actions(failure)[1] is ForceRelease);
    assert(forward_actions(ForwardResult::Full)[1] is ForceRelease);
    assert(forward_actions(ForwardResult::Disconnected)[0] is ForceRelease);
    assert(selection_actions(true, false, OwnershipPhase::Remote)[1] is ForceRelease);
    assert(reconcile_actions(None)[1] is ForceRelease);
    assert(suspend_actions(false)[0] is ForceRelease);
    assert(stop_actions()[0] is ForceRelease);
    assert(transport_loss_actions()[0] is ForceRelease);
}

/// What follows a frame: it is forwarded exactly while the peer is controlled and no
/// escape chord is held; the peer is told to let go exactly by the escape chord; the
/// activation chord counts only while this computer is controlled. A boundary always
/// comes last.
pub proof fn frames_are_answered_by_phase(phase: OwnershipPhase, activation: bool, escape: bool)
    ensures
        ({
            let actions = frame_actions(phase, activation, escape);
            let remote = phase == OwnershipPhase::Remote;
            let idle = phase == OwnershipPhase::Idle;
            &&& actions.contains(RuntimeAction::ForwardFrame) <==> remote && !escape
            &&& actions.contains(RuntimeAction::QueueTerminal) <==> remote && escape
            &&& actions.contains(RuntimeAction::EmitActivationChord) <==> idle && activation
            &&& actions.len() > 0 && actions.last() == RuntimeAction::AdvanceBoundary
            &&& !forced_by(actions)
        }),
{
    let actions = frame_actions(phase, activation, escape);
    if phase == OwnershipPhase::Remote {
        assert(actions[0] == if escape {
            RuntimeAction::QueueTerminal
        } else {
            RuntimeAction::ForwardFrame
        });
    }
    if phase == OwnershipPhase::Idle && activation {
        assert(actions[0] == RuntimeAction::EmitActivationChord);
    }
}

/// Events are counted as leaked exactly while arming, and only the escape chord while
/// the peer is controlled changes who is controlled.
pub proof fn frames_leak_only_while_arming(state: RuntimeModel, event_count: u64, escape: bool)
    ensures
        ({
            let after = state.framed(event_count, escape);
            let sum = state.arming_leakage_events + event_count;
            &&& state.phase() != OwnershipPhase::Arming ==> after.arming_leakage_events
                == state.arming_leakage_events
            &&& state.phase() == OwnershipPhase::Arming ==> after.arming_leakage_events == if sum
                > u64::MAX {
                u64::MAX as int
            } else {
                sum
            }
            &&& !(state.phase() == OwnershipPhase::Remote && escape) ==> after.ownership
                == state.ownership
            &&& after.selected_peer == state.selected_peer && after.ready == state.ready
                && after.suspended == state.suspended && after.stopping == state.stopping
        }),
{
}

/// A lost device ends the activation, whatever else is found; the devices are
/// compared in any case, and the loss is told once.
pub proof fn lost_selections_end_the_activation(
    was_complete: bool,
    complete: bool,
    phase: OwnershipPhase,
)
    ensures
        ({
            let actions = selection_actions(was_complete, complete, phase);
            &&& forced_by(actions) <==> !complete && phase != OwnershipPhase::Idle
            &&& actions.last() == RuntimeAction::Reconcile
            &&& actions.contains(
                RuntimeAction::Diagnose(RuntimeDiagnostic::CaptureSelectionIncomplete),
            ) <==> was_complete && !complete
        }),
{
    let actions = selection_actions(was_complete, complete, phase);
    if was_complete && !complete {
        assert(actions[0] == RuntimeAction::Diagnose(
            RuntimeDiagnostic::CaptureSelectionIncomplete,
        ));
    }
    if !complete && phase != OwnershipPhase::Idle {
        assert(actions[actions.len() - 2] is ForceRelease);
    }
}

/// After the devices are compared, removed ones are forgotten and their input is
/// released, and the activation ends exactly if it must. A failed comparison ends it
/// and closes the devices.
pub proof fn removed_devices_are_forgotten(removed: bool, must_close: bool)
    ensures
        ({
            let actions = reconcile_actions(Some((removed, must_close)));
            &&& actions.contains(RuntimeAction::ForgetRemovedDevices) <==> removed
            &&& actions.contains(
                RuntimeAction::ReleaseReceiver(RuntimeCloseReason::DeviceRemoved),
            ) <==> removed
            &&& forced_by(actions) <==> must_close
            &&& !removed && !must_close ==> actions.len() == 0
        }),
        forced_by(reconcile_actions(None)),
        reconcile_actions(None).last() == RuntimeAction::CloseDescriptors,
{
    let actions = reconcile_actions(Some((removed, must_close)));
    if removed {
        assert(actions[0] == RuntimeAction::ForgetRemovedDevices);
        assert(actions[1] == RuntimeAction::ReleaseReceiver(RuntimeCloseReason::DeviceRemoved));
    }
    if must_close {
        assert(actions[actions.len() - 1] is ForceRelease);
    }
    assert(reconcile_actions(None)[1] is ForceRelease);
}

/// A reload ends an activation first. The virtual devices are replaced exactly if the
/// touchpad's setting changed, after their input was released; else the physical
/// devices are looked for, unless suspended.
pub proof fn reloads_end_the_activation_first(
    phase: OwnershipPhase,
    touchpad_changed: bool,
    suspended: bool,
)
    ensures
        ({
            let actions = reload_actions(phase, touchpad_changed, suspended);
            &&& forced_by(actions) <==> phase != OwnershipPhase::Idle
            &&& phase != OwnershipPhase::Idle ==> actions.first() is ForceRelease
            &&& actions.contains(RuntimeAction::ReplaceDevices) <==> touchpad_changed
            &&& touchpad_changed ==> actions.last() == RuntimeAction::ReplaceDevices
                && actions.contains(RuntimeAction::ReleaseReceiver(
                RuntimeCloseReason::LocalRelease,
            ))
            &&& actions.contains(RuntimeAction::Rescan) <==> !touchpad_changed && !suspended
            &&& actions.contains(RuntimeAction::RescanNow) <==> !touchpad_changed
        }),
{
    let actions = reload_actions(phase, touchpad_changed, suspended);
    let start: int = if phase != OwnershipPhase::Idle {
        1
    } else {
        0
    };
    if phase != OwnershipPhase::Idle {
        assert(actions[0] is ForceRelease);
    }
    if touchpad_changed {
        assert(actions[start] == RuntimeAction::ReleaseReceiver(RuntimeCloseReason::LocalRelease));
        assert(actions[start + 1] == RuntimeAction::ReplaceDevices);
    } else {
        assert(actions[start] == RuntimeAction::RescanNow);
        if !suspended {
            assert(actions[start + 1] == RuntimeAction::Rescan);
        }
    }
}

/// Suspending and stopping give all input back before anything else is done: the
/// activation ends first, then the devices are let go, then what was injected is
/// released. Suspending twice does nothing more, and a stop is told last.
pub proof fn input_is_given_back_first()
    ensures
        suspend_actions(true).len() == 0,
        suspend_actions(false).first() == RuntimeAction::ForceRelease(RuntimeCloseReason::Suspend),
        suspend_actions(false).contains(RuntimeAction::SuspendCapture),
        suspend_actions(false).contains(
            RuntimeAction::ReleaseReceiver(RuntimeCloseReason::Suspend),
        ),
        suspend_actions(false).contains(RuntimeAction::ClearChords),
        stop_actions().first() == RuntimeAction::ForceRelease(RuntimeCloseReason::Stop),
        stop_actions().contains(RuntimeAction::SuspendCapture),
        stop_actions().contains(RuntimeAction::ReleaseReceiver(RuntimeCloseReason::Stop)),
        stop_actions().contains(RuntimeAction::NotifyStopping),
        stop_actions().last() == RuntimeAction::EmitStopped,
{
    assert(suspend_actions(false)[2] == RuntimeAction::SuspendCapture);
    assert(suspend_actions(false)[3] == RuntimeAction::ReleaseReceiver(
        RuntimeCloseReason::Suspend,
    ));
    assert(suspend_actions(false)[4] == RuntimeAction::ClearChords);
    assert(stop_actions()[2] == RuntimeAction::SuspendCapture);
    assert(stop_actions()[3] == RuntimeAction::ReleaseReceiver(RuntimeCloseReason::Stop));
    assert(stop_actions()[4] == RuntimeAction::NotifyStopping);
}

/// A failed read ends the activation for the right reason and looks for devices
/// again at once. Only a removed device is forgotten; any other failure closes the
/// devices and is told.
pub proof fn failed_reads_look_again(failure: ReadFailure)
    ensures
        ({
            let actions = read_failure_actions(failure);
            &&& actions.last() == RuntimeAction::RescanNow
            &&& actions.contains(
                RuntimeAction::ForceRelease(RuntimeCloseReason::DeviceRemoved),
            ) <==> failure is DeviceRemoved
            &&& actions.contains(
                RuntimeAction::ForceRelease(RuntimeCloseReason::CaptureFault),
            ) <==> !(failure is DeviceRemoved)
            &&& actions.contains(RuntimeAction::ForgetRemovedDevices) <==> failure is DeviceRemoved
            &&& actions.contains(RuntimeAction::CloseDescriptors) <==> !(failure is DeviceRemoved)
            &&& actions.contains(
                RuntimeAction::Diagnose(RuntimeDiagnostic::CaptureMappingLost),
            ) <==> failure is Mapping
            &&& actions.contains(
                RuntimeAction::Diagnose(RuntimeDiagnostic::CaptureReadFailed),
            ) <==> failure is Other
        }),
        forward_actions(ForwardResult::Sent).len() == 0,
        forward_actions(ForwardResult::Full).contains(
            RuntimeAction::Diagnose(RuntimeDiagnostic::CapturedFrameQueueFull),
        ),
{
    let actions = read_failure_actions(failure);
    assert(actions[0] == actions.first() && actions[1] is ForceRelease);
    if !(failure is DeviceRemoved) {
        assert(actions[3] == RuntimeAction::CloseDescriptors);
    }
    assert(forward_actions(ForwardResult::Full)[0] == RuntimeAction::Diagnose(
        RuntimeDiagnostic::CapturedFrameQueueFull,
    ));
}

} // verus!
