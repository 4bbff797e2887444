//! Capture of physical input devices.
//!
//! Opening a device never grabs it, so an idle service stays outside the local
//! input path. Grabs are taken all together or not at all.
use vstd::prelude::*;

use super::devices::DeviceInfo;
use super::evdev::{InputEvent, KeyCode, EV_ABS, EV_SYN, SYN_DROPPED};
use super::grabs::{GrabSequence, SequenceModel};
use super::mapping::{
    axis_sum, batch_fits, frame_error, frame_of, is_report, open_frame_after, push_fits,
    transitions_of, FrameAccumulator, MappingError,
};
use super::ownership::{
    between_frames, key_codes, nothing_held, observed, AggregateInputState, AggregateModel,
    InputModel,
};
use super::touch::{active_contacts, TouchAccumulator, TouchModel};
use crate::capture::CaptureFrame;
use crate::input::distinct_ids;
use crate::ordered::{precedes, shortest_forms_come_in_path_order, OrderedMap};
use crate::paths::{normalized, path_of, path_precedes, same_path, shortest_forms_stay};
use crate::scan::views;


verus! {

#[derive(Debug, PartialEq, Eq)]
pub struct UngrabFailure {
    pub path: String,
    pub error: String,
}

/// A device could not be grabbed; the earlier grabs were rolled back.
#[derive(Debug, PartialEq, Eq)]
pub struct GrabError {
    pub path: String,
    pub source: String,
    pub rolled_back: usize,
    pub rollback_failures: Vec<UngrabFailure>,
}

#[derive(Debug, PartialEq, Eq)]
pub enum CaptureSetError {
    /// The configured capture set is empty.
    Empty,
    /// zflow's own virtual devices are never captured.
    VirtualDevice(String),
    /// A capture device appears more than once.
    Duplicate { path: String },
    /// A capture device could not be opened or inspected.
    Open { path: String, source: String },
    /// Something is held on the capture set.
    NotNeutral,
    Grab(GrabError),
    /// The held state of a device could not be read.
    InspectState { path: String, source: String },
    /// The capture set cannot change while devices are grabbed.
    ActiveSetChange,
}

#[allow(inconsistent_fields)]
#[derive(Debug, PartialEq, Eq)]
pub enum CaptureReadError {
    /// The capture device is not open.
    UnknownDevice(String),
    /// The capture device was removed; all remaining grabs have to be released.
    DeviceRemoved { path: String },
    Read { path: String, source: String },
    Mapping { path: String, source: MappingError },
}

#[derive(Debug, PartialEq, Eq)]
pub struct CapturedDeviceFrame {
    pub device_path: String,
    pub frame: CaptureFrame,
    /// Monotonic time at which the terminating report was read.
    pub captured_at: u64,
}

#[derive(Debug, PartialEq, Eq)]
pub struct ReconcileOutcome {
    pub added: Vec<String>,
    pub removed: Vec<String>,
    pub activation_must_close: bool,
}

// ---------------------------------------------------------------------------
// Grabbing every device or none
// ---------------------------------------------------------------------------

/// The next step of a grab transaction.
#[derive(Clone, Copy, Debug, PartialEq, Eq, Structural)]
pub enum GrabStep {
    /// Grab the device with this index.
    Take(usize),
    /// Release the device with this index.
    Release(usize),
    /// Every device is grabbed.
    Committed,
    /// The device with this index refused and every earlier grab was released.
    RolledBack(usize),
}

/// Grabs devices in order. When one refuses, every earlier grab is released in
/// reverse order.
#[derive(Debug)]
pub struct GrabTransaction {
    targets: usize,
    step: GrabStep,
    failed: usize,
    source: String,
    failures: Vec<(usize, String)>,
}

/// Mathematical state of a [`GrabTransaction`].
pub struct TransactionModel {
    pub targets: int,
    pub step: GrabStep,
    /// Index of the device that refused, once one did.
    pub failed: int,
    /// What the device that refused reported.
    pub source: Seq<char>,
    /// Devices that could not be released during rollback, in that order, with
    /// what each reported.
    pub failures: Seq<(int, Seq<char>)>,
}

/// The outcome of a step as mathematical values.
pub open spec fn outcome_of(outcome: Result<(), String>) -> Result<(), Seq<char>> {
    match outcome {
        Ok(_) => Ok(()),
        Err(error) => Err(error@),
    }
}

pub open spec fn take_from(index: int, targets: int) -> GrabStep {
    if index < targets {
        GrabStep::Take(index as usize)
    } else {
        GrabStep::Committed
    }
}

pub open spec fn release_below(index: int, failed: int) -> GrabStep {
    if index > 0 {
        GrabStep::Release((index - 1) as usize)
    } else {
        GrabStep::RolledBack(failed as usize)
    }
}

impl TransactionModel {
    pub open spec fn wf(self) -> bool {
        &&& 0 <= self.targets <= usize::MAX
        &&& match self.step {
            GrabStep::Take(index) => index < self.targets && self.failures.len() == 0,
            GrabStep::Release(index) => index < self.failed < self.targets,
            GrabStep::Committed => self.failures.len() == 0,
            GrabStep::RolledBack(index) => index == self.failed && self.failed < self.targets,
        }
    }

    /// Devices that hold a grab if no rollback failed.
    pub open spec fn held(self) -> int {
        match self.step {
            GrabStep::Take(index) => index as int,
            GrabStep::Release(index) => index + 1,
            GrabStep::Committed => self.targets,
            GrabStep::RolledBack(_) => 0,
        }
    }

    pub open spec fn fresh(targets: int) -> TransactionModel {
        TransactionModel {
            targets,
            step: take_from(0, targets),
            failed: 0,
            source: Seq::empty(),
            failures: Seq::empty(),
        }
    }

    /// The state after the step was carried out, successfully or not.
    pub open spec fn after(self, outcome: Result<(), Seq<char>>) -> TransactionModel {
        match self.step {
            GrabStep::Take(index) => match outcome {
                Ok(_) => TransactionModel { step: take_from(index + 1, self.targets), ..self },
                Err(source) => TransactionModel {
                    step: release_below(index as int, index as int),
                    failed: index as int,
                    source,
                    ..self
                },
            },
            GrabStep::Release(index) => TransactionModel {
                step: release_below(index as int, self.failed),
                failures: match outcome {
                    Ok(_) => self.failures,
                    Err(error) => self.failures.push((index as int, error)),
                },
                ..self
            },
            _ => self,
        }
    }
}

impl View for GrabTransaction {
    type V = TransactionModel;

    closed spec fn view(&self) -> TransactionModel {
        TransactionModel {
            targets: self.targets as int,
            step: self.step,
            failed: self.failed as int,
            source: self.source@,
            failures: Seq::new(
                self.failures@.len(),
                |i: int| (self.failures@[i].0 as int, self.failures@[i].1@),
            ),
        }
    }
}

impl GrabError {
    /// The error of a transaction that was rolled back: the device that refused
    /// with what it reported, the number of earlier grabs, and every device
    /// that could not be released with what it reported.
    pub open spec fn tells(self, transaction: TransactionModel, paths: Seq<Seq<char>>) -> bool {
        &&& self.path@ == paths[transaction.failed]
        &&& self.source@ == transaction.source
        &&& self.rolled_back == transaction.failed
        &&& self.rollback_failures@.len() == transaction.failures.len()
        &&& forall|i: int|
            0 <= i < transaction.failures.len() ==> (#[trigger] self.rollback_failures@[i]).path@
                == paths[transaction.failures[i].0] && self.rollback_failures@[i].error@
                == transaction.failures[i].1
    }
}

impl GrabTransaction {
    pub open spec fn wf(&self) -> bool {
        &&& self@.wf()
        &&& forall|i: int| 0 <= i < self@.failures.len() ==> 0 <= (
        #[trigger] self@.failures[i]).0 < self@.targets
    }

    pub fn new(targets: usize) -> (result: Self)
        ensures
            result.wf(),
            result@ == TransactionModel::fresh(targets as int),
    {
        let step = if targets > 0 {
            GrabStep::Take(0)
        } else {
            GrabStep::Committed
        };
        let result = GrabTransaction {
            targets,
            step,
            failed: 0,
            source: String::new(),
            failures: Vec::new(),
        };
        assert(result@.source =~= Seq::empty());
        assert(result@.failures =~= Seq::empty());
        result
    }

    pub fn step(&self) -> (result: GrabStep)
        ensures
            result == self@.step,
    {
        self.step
    }

    /// Takes the result of the current step.
    pub fn advance(&mut self, outcome: Result<(), String>)
        requires
            old(self).wf(),
        ensures
            final(self).wf(),
            final(self)@ == old(self)@.after(outcome_of(outcome)),
    {
        let ghost before = self@;
        let ghost reported = outcome_of(outcome);
        match self.step {
            GrabStep::Take(index) => match outcome {
                Ok(_) => {
                    self.step = if index + 1 < self.targets {
                        GrabStep::Take(index + 1)
                    } else {
                        GrabStep::Committed
                    };
                },
                Err(source) => {
                    self.failed = index;
                    self.source = source;
                    self.step = if index > 0 {
                        GrabStep::Release(index - 1)
                    } else {
                        GrabStep::RolledBack(index)
                    };
                },
            },
            GrabStep::Release(index) => {
                if let Err(error) = outcome {
                    self.failures.push((index, error));
                }
                self.step = if index > 0 {
                    GrabStep::Release(index - 1)
                } else {
                    GrabStep::RolledBack(self.failed)
                };
            },
            _ => {},
        }
        assert(self@.failures =~= before.after(reported).failures);
    }

    /// The result once the transaction ended; `paths` names the devices.
    pub fn finish(self, paths: &Vec<String>) -> (result: Option<Result<(), GrabError>>)
        requires
            self.wf(),
            paths@.len() == self@.targets,
        ensures
            match self@.step {
                GrabStep::Committed => result == Some(Ok::<(), GrabError>(())),
                GrabStep::RolledBack(_) => result matches Some(Err(error)) && error.tells(
                    self@,
                    views(paths@),
                ),
                _ => result is None,
            },
    {
        match self.step {
            GrabStep::Committed => Some(Ok(())),
            GrabStep::RolledBack(index) => {
                let mut rollback_failures: Vec<UngrabFailure> = Vec::new();
                let mut at: usize = 0;
                while at < self.failures.len()
                    invariant
                        self.wf(),
                        paths@.len() == self@.targets,
                        at <= self.failures@.len(),
                        rollback_failures@.len() == at,
                        forall|i: int|
                            0 <= i < at ==> (#[trigger] rollback_failures@[i]).path@ == views(
                                paths@,
                            )[self@.failures[i].0] && rollback_failures@[i].error@
                                == self@.failures[i].1,
                    decreases self.failures@.len() - at,
                {
                    assert(0 <= self@.failures[at as int].0 < self@.targets);
                    let target: usize = self.failures[at].0;
                    rollback_failures.push(
                        UngrabFailure {
                            path: paths[target].clone(),
                            error: self.failures[at].1.clone(),
                        },
                    );
                    at = at + 1;
                }
                Some(
                    Err(
                        GrabError {
                            path: paths[index].clone(),
                            source: self.source,
                            rolled_back: index,
                            rollback_failures,
                        },
                    ),
                )
            },
            _ => None,
        }
    }
}

/// The state after a run of step outcomes, starting from a fresh transaction.
pub open spec fn transaction_run(
    targets: int,
    outcomes: Seq<Result<(), Seq<char>>>,
) -> TransactionModel
    decreases outcomes.len(),
{
    if outcomes.len() == 0 {
        TransactionModel::fresh(targets)
    } else {
        transaction_run(targets, outcomes.drop_last()).after(outcomes.last())
    }
}

/// A transaction ends with every device grabbed, or with none grabbed but those
/// whose release failed.
pub proof fn grabs_are_all_or_none(targets: int, outcomes: Seq<Result<(), Seq<char>>>)
    requires
        0 <= targets <= usize::MAX,
    ensures
        transaction_run(targets, outcomes).wf(),
        transaction_run(targets, outcomes).targets == targets,
        transaction_run(targets, outcomes).step == GrabStep::Committed ==> transaction_run(
            targets,
            outcomes,
        ).held() == targets,
        transaction_run(targets, outcomes).step is RolledBack ==> transaction_run(
            targets,
            outcomes,
        ).held() == 0,
    decreases outcomes.len(),
{
    if outcomes.len() > 0 {
        grabs_are_all_or_none(targets, outcomes.drop_last());
    }
}

/// While no device refuses, the devices are taken in order, each once.
pub proof fn willing_devices_are_taken_in_order(
    targets: int,
    outcomes: Seq<Result<(), Seq<char>>>,
)
    requires
        0 <= targets <= usize::MAX,
        outcomes.len() <= targets,
        forall|i: int| 0 <= i < outcomes.len() ==> (#[trigger] outcomes[i]) is Ok,
    ensures
        transaction_run(targets, outcomes) == (TransactionModel {
            step: take_from(outcomes.len() as int, targets),
            ..TransactionModel::fresh(targets)
        }),
    decreases outcomes.len(),
{
    if outcomes.len() > 0 {
        let before = outcomes.drop_last();
        assert forall|i: int| 0 <= i < before.len() implies (#[trigger] before[i]) is Ok by {
            assert(outcomes[i] is Ok);
        }
        assert(outcomes.last() == outcomes[outcomes.len() - 1]);
        willing_devices_are_taken_in_order(targets, before);
    }
}

/// Devices whose release failed when they were released downwards from the one
/// below `failed`, in the order of the releases.
pub open spec fn failed_releases(
    failed: int,
    outcomes: Seq<Result<(), Seq<char>>>,
) -> Seq<(int, Seq<char>)>
    decreases outcomes.len(),
{
    if outcomes.len() == 0 {
        Seq::empty()
    } else {
        let before = failed_releases(failed, outcomes.drop_last());
        match outcomes.last() {
            Ok(_) => before,
            Err(error) => before.push((failed - outcomes.len(), error)),
        }
    }
}

/// When a device refuses after `taken` took every device before it, each of
/// those is released once, in reverse order. The refusal and every failed
/// release are kept with what was reported.
pub proof fn a_refusal_releases_in_reverse_order(
    targets: int,
    taken: Seq<Result<(), Seq<char>>>,
    refusal: Seq<char>,
    released: Seq<Result<(), Seq<char>>>,
)
    requires
        0 <= targets <= usize::MAX,
        taken.len() < targets,
        forall|i: int| 0 <= i < taken.len() ==> (#[trigger] taken[i]) is Ok,
        released.len() <= taken.len(),
    ensures
        transaction_run(
            targets,
            taken.push(Err::<(), Seq<char>>(refusal)) + released,
        ) == (TransactionModel {
            targets,
            step: release_below(taken.len() - released.len(), taken.len() as int),
            failed: taken.len() as int,
            source: refusal,
            failures: failed_releases(taken.len() as int, released),
        }),
    decreases released.len(),
{
    let refused = taken.push(Err::<(), Seq<char>>(refusal));
    let run = refused + released;
    if released.len() == 0 {
        assert(run =~= refused);
        assert(refused.drop_last() =~= taken);
        willing_devices_are_taken_in_order(targets, taken);
    } else {
        assert(run.drop_last() =~= refused + released.drop_last());
        assert(run.last() == released.last());
        a_refusal_releases_in_reverse_order(targets, taken, refusal, released.drop_last());
    }
}

// ---------------------------------------------------------------------------
// Decoding one device node
// ---------------------------------------------------------------------------

/// Decoder state of one open device node.
pub struct CaptureNode {
    frames: FrameAccumulator,
    touch: Option<TouchAccumulator>,
}

/// Mathematical state of a [`CaptureNode`].
pub struct NodeModel {
    /// Events of the frame that is still open.
    pub open_frame: Seq<InputEvent>,
    pub touch: Option<TouchModel>,
}

impl NodeModel {
    pub open spec fn wf(self) -> bool {
        self.touch matches Some(touch) ==> touch.wf() && touch.x.measurable()
            && touch.y.measurable()
    }

    pub open spec fn fresh(touch: Option<TouchModel>) -> NodeModel {
        NodeModel { open_frame: Seq::empty(), touch }
    }

    /// Why an event cannot be decoded.
    pub open spec fn error(self, event: InputEvent) -> Option<MappingError> {
        if self.touch matches Some(touch) && touch_fails(touch, event) {
            Some(MappingError::InvalidTouchState)
        } else {
            frame_error(event)
        }
    }

    /// Effect of an event that can be decoded.
    pub open spec fn after(self, event: InputEvent) -> NodeModel {
        NodeModel {
            open_frame: open_frame_after(self.open_frame, event),
            touch: match self.touch {
                Some(touch) => Some(touch_after(touch, event)),
                None => None,
            },
        }
    }

    /// `frame` is what a report completes: the open frame, with the contacts
    /// attached when the touchpad changed since the last report.
    pub open spec fn completes(self, frame: CaptureFrame) -> bool {
        match self.touch {
            Some(touch) => if touch.dirty {
                &&& frame.touch_snapshot matches Some(state) && state.wf()
                    && state@.to_multiset() == active_contacts(
                    touch.slots,
                    touch.dimensions(),
                ).to_multiset()
                &&& frame_with_events(self.open_frame, frame, touch.event_count as int)
            } else {
                frame.touch_snapshot is None && frame_with_events(self.open_frame, frame, 0)
            },
            None => frame.touch_snapshot is None && frame_with_events(self.open_frame, frame, 0),
        }
    }
}

/// `frame` holds the transitions and motion of `events`, and `more` events on
/// top of theirs.
pub open spec fn frame_with_events(
    events: Seq<InputEvent>,
    frame: CaptureFrame,
    more: int,
) -> bool {
    exists|base: CaptureFrame|
        {
            &&& #[trigger] frame_of(events, base)
            &&& frame.transitions == base.transitions
            &&& frame.motion == base.motion
            &&& frame.event_count == if base.event_count + more <= u64::MAX {
                base.event_count + more
            } else {
                u64::MAX as int
            }
        }
}

pub open spec fn touch_fails(touch: TouchModel, event: InputEvent) -> bool {
    ||| event.kind == EV_SYN && event.code == SYN_DROPPED
    ||| is_report(event) && touch.dirty && !distinct_ids(
        active_contacts(touch.slots, touch.dimensions()),
    )
}

pub open spec fn touch_after(touch: TouchModel, event: InputEvent) -> TouchModel {
    if is_report(event) && touch.dirty {
        TouchModel { dirty: false, event_count: 0, ..touch }
    } else if event.kind == EV_ABS {
        touch.moved(event)
    } else {
        touch
    }
}

impl View for CaptureNode {
    type V = NodeModel;

    closed spec fn view(&self) -> NodeModel {
        NodeModel {
            open_frame: self.frames@,
            touch: match self.touch {
                Some(touch) => Some(touch@),
                None => None,
            },
        }
    }
}

impl CaptureNode {
    pub closed spec fn wf(&self) -> bool {
        self.frames.wf() && self@.wf()
    }

    pub fn new(touch: Option<TouchAccumulator>) -> (result: Self)
        requires
            touch matches Some(touch) ==> touch@.wf() && touch@.x.measurable()
                && touch@.y.measurable(),
        ensures
            result.wf(),
            result@.wf(),
            result@.open_frame == Seq::<InputEvent>::empty(),
            result@.touch == match touch {
                Some(touch) => Some(touch@),
                None => None,
            },
    {
        CaptureNode { frames: FrameAccumulator::default(), touch }
    }

    /// Decodes one event of this node.
    pub fn push(&mut self, event: InputEvent) -> (result: Result<
        Option<CaptureFrame>,
        MappingError,
    >)
        requires
            old(self).wf(),
            push_fits(old(self)@.open_frame, event),
        ensures
            final(self).wf(),
            match result {
                Err(error) => old(self)@.error(event) == Some(error) && final(self)@
                    == old(self)@,
                Ok(None) => old(self)@.error(event) is None && !is_report(event) && final(self)@
                    == old(self)@.after(event),
                Ok(Some(frame)) => old(self)@.error(event) is None && is_report(event)
                    && final(self)@ == old(self)@.after(event) && old(self)@.completes(frame),
            },
    {
        let mut touch_state = None;
        if let Some(touch) = &mut self.touch {
            match touch.push(event) {
                Ok(state) => {
                    touch_state = state;
                },
                Err(_) => {
                    return Err(MappingError::InvalidTouchState);
                },
            }
        }
        match self.frames.push(event) {
            Ok(Some(mut frame)) => {
                let ghost base = frame;
                if let Some((state, event_count)) = touch_state {
                    frame.touch_snapshot = Some(state);
                    frame.event_count = frame.event_count.saturating_add(event_count);
                }
                assert(frame_of(old(self)@.open_frame, base));
                Ok(Some(frame))
            },
            Ok(None) => Ok(None),
            Err(error) => Err(error),
        }
    }

    /// Whether a whole batch can be decoded without leaving the 64-bit range.
    pub fn can_push_all(&self, batch: &Vec<InputEvent>) -> (result: bool)
        requires
            self.wf(),
        ensures
            result == batch_fits(self@.open_frame, batch@),
    {
        self.frames.can_push_all(batch)
    }
}

// ---------------------------------------------------------------------------
// The capture set
// ---------------------------------------------------------------------------

/// Result of reading every ready event of one node.
#[derive(Debug)]
pub enum Fetched {
    Events(Vec<InputEvent>),
    /// The node is gone. Every grab was given up first; `still_grabbed` tells
    /// whether one could not be.
    Removed { still_grabbed: bool },
    Failed(String),
}

/// What a read that failed asks for.
#[derive(Debug, PartialEq, Eq)]
pub enum FetchStep {
    /// Nothing is ready.
    Wait,
    /// The node is gone and takes every grab with it: ungrab every node.
    GiveUpGrabs,
    Fail(String),
}

/// Keys that the kernel reports as held on one node.
#[derive(Debug)]
pub struct HeldObservation {
    pub path: String,
    pub held: Result<usize, String>,
}

pub const ENXIO: i32 = 6;

pub const ENODEV: i32 = 19;

/// Whether a read error means that the device is gone.
pub fn is_device_removed(not_found: bool, os_error: Option<i32>) -> (result: bool)
    ensures
        result == (not_found || os_error == Some(19i32) || os_error == Some(6i32)),
{
    not_found || os_error == Some(ENODEV) || os_error == Some(ENXIO)
}

/// Decides what a failed read of a node means.
pub fn fetch_failed(
    would_block: bool,
    not_found: bool,
    os_error: Option<i32>,
    reason: String,
) -> (step: FetchStep)
    ensures
        step == if would_block {
            FetchStep::Wait
        } else if not_found || os_error == Some(19i32) || os_error == Some(6i32) {
            FetchStep::GiveUpGrabs
        } else {
            FetchStep::Fail(reason)
        },
{
    if would_block {
        FetchStep::Wait
    } else if is_device_removed(not_found, os_error) {
        FetchStep::GiveUpGrabs
    } else {
        FetchStep::Fail(reason)
    }
}

pub open spec fn observation_neutral(observation: HeldObservation) -> bool {
    observation.held matches Ok(held) && held == 0
}

/// Looks over fresh kernel observations of every node; the first node that is
/// not neutral decides.
pub fn kernel_is_neutral(observations: &Vec<HeldObservation>) -> (result: Result<
    bool,
    CaptureSetError,
>)
    ensures
        match result {
            Ok(true) => forall|i: int|
                0 <= i < observations@.len() ==> observation_neutral(#[trigger] observations@[i]),
            Ok(false) => exists|i: int|
                0 <= i < observations@.len() && (#[trigger] observations@[i]).held is Ok
                    && first_not_neutral(observations@, i),
            Err(error) => exists|i: int|
                0 <= i < observations@.len() && first_not_neutral(observations@, i) && (
                #[trigger] observations@[i]).held is Err && is_inspect_error(
                    error,
                    observations@[i],
                ),
        },
{
    let mut at: usize = 0;
    while at < observations.len()
        invariant
            at <= observations@.len(),
            forall|i: int| 0 <= i < at ==> observation_neutral(#[trigger] observations@[i]),
        decreases observations@.len() - at,
    {
        match &observations[at].held {
            Ok(held) => {
                if *held > 0 {
                    assert(first_not_neutral(observations@, at as int));
                    return Ok(false);
                }
            },
            Err(source) => {
                let error = CaptureSetError::InspectState {
                    path: observations[at].path.clone(),
                    source: source.clone(),
                };
                assert(first_not_neutral(observations@, at as int));
                assert(is_inspect_error(error, observations@[at as int]));
                return Err(error);
            },
        }
        at = at + 1;
    }
    Ok(true)
}

pub open spec fn first_not_neutral(observations: Seq<HeldObservation>, at: int) -> bool {
    &&& !observation_neutral(observations[at])
    &&& forall|i: int| 0 <= i < at ==> observation_neutral(#[trigger] observations[i])
}

pub open spec fn is_inspect_error(error: CaptureSetError, observation: HeldObservation) -> bool {
    &&& error matches CaptureSetError::InspectState { path, source }
    &&& path@ == observation.path@
    &&& observation.held matches Err(text)
    &&& source@ == text@
}

/// Open nodes, what is held on them, and whether they are grabbed.
pub struct CaptureSet {
    nodes: OrderedMap<CaptureNode>,
    aggregate: AggregateInputState,
    grabbed: bool,
}

/// Mathematical state of a [`CaptureSet`].
pub struct CaptureModel {
    pub nodes: Map<Seq<char>, NodeModel>,
    pub input: AggregateModel,
    pub grabbed: bool,
}

impl CaptureModel {
    /// Whether grabbing may start: only a set with nodes, with nothing held and
    /// no frame open. `Ok(true)` means that the set is grabbed already.
    pub open spec fn grab_check(self) -> Result<bool, CaptureSetError> {
        if self.nodes.dom().len() == 0 {
            Err(CaptureSetError::Empty)
        } else if self.grabbed {
            Ok(true)
        } else if nothing_held(self.input.devices) && between_frames(self.input.devices) {
            Ok(false)
        } else {
            Err(CaptureSetError::NotNeutral)
        }
    }
}

/// `paths` lists the nodes in path order.
pub open spec fn nodes_in_order(
    paths: Seq<Seq<char>>,
    nodes: Map<Seq<char>, NodeModel>,
) -> bool {
    &&& forall|i: int, j: int|
        0 <= i < j < paths.len() ==> path_precedes(#[trigger] paths[i], #[trigger] paths[j])
    &&& forall|i: int|
        0 <= i < paths.len() ==> nodes.contains_key(#[trigger] paths[i]) && path_of(paths[i])
            == paths[i]
    &&& forall|path: Seq<char>| #[trigger] nodes.contains_key(path) ==> paths.contains(path)
}

pub open spec fn node_models(nodes: Map<Seq<char>, CaptureNode>) -> Map<Seq<char>, NodeModel> {
    nodes.map_values(|node: CaptureNode| node@)
}

pub open spec fn nodes_wf(nodes: Map<Seq<char>, CaptureNode>) -> bool {
    forall|path: Seq<char>| nodes.contains_key(path) ==> (#[trigger] nodes[path]).wf()
}

impl View for CaptureSet {
    type V = CaptureModel;

    closed spec fn view(&self) -> CaptureModel {
        CaptureModel {
            nodes: node_models(self.nodes@),
            input: self.aggregate@,
            grabbed: self.grabbed,
        }
    }
}

/// A node after the first `count` events, none of which failed.
pub open spec fn node_at(node: NodeModel, events: Seq<InputEvent>, count: nat) -> NodeModel
    decreases count,
{
    if count == 0 {
        node
    } else {
        node_at(node, events, (count - 1) as nat).after(events[count - 1])
    }
}

/// The aggregate state after one event of a known device.
pub open spec fn input_after(
    input: AggregateModel,
    path: Seq<char>,
    event: InputEvent,
) -> AggregateModel {
    AggregateModel {
        devices: input.devices.insert(path, observed(input.devices[path], event)),
        generation: if is_report(event) {
            if input.generation == u64::MAX {
                0
            } else {
                (input.generation + 1) as u64
            }
        } else {
            input.generation
        },
    }
}

pub open spec fn input_at(
    input: AggregateModel,
    path: Seq<char>,
    events: Seq<InputEvent>,
    count: nat,
) -> AggregateModel
    decreases count,
{
    if count == 0 {
        input
    } else {
        input_after(input_at(input, path, events, (count - 1) as nat), path, events[count - 1])
    }
}

pub open spec fn report_count(events: Seq<InputEvent>, count: nat) -> nat
    decreases count,
{
    if count == 0 {
        0
    } else {
        report_count(events, (count - 1) as nat) + if is_report(events[count - 1]) {
            1nat
        } else {
            0nat
        }
    }
}

/// Why the event at a position cannot be decoded.
pub open spec fn error_at(
    node: NodeModel,
    events: Seq<InputEvent>,
    at: int,
) -> Option<MappingError> {
    node_at(node, events, at as nat).error(events[at])
}

/// The first `count` events can all be decoded.
pub open spec fn decodes(node: NodeModel, events: Seq<InputEvent>, count: int) -> bool {
    forall|i: int| 0 <= i < count ==> (#[trigger] error_at(node, events, i)) is None
}

/// One frame per report, each with what that report completed.
#[verifier::opaque]
pub open spec fn frames_of_reports(
    node: NodeModel,
    events: Seq<InputEvent>,
    count: nat,
    frames: Seq<CapturedDeviceFrame>,
    path: Seq<char>,
    captured_at: u64,
) -> bool {
    &&& frames.len() == report_count(events, count)
    &&& forall|i: int|
        0 <= i < count && #[trigger] is_report(events[i]) ==> node_at(
            node,
            events,
            i as nat,
        ).completes(frames[report_count(events, i as nat) as int].frame)
    &&& forall|k: int|
        0 <= k < frames.len() ==> (#[trigger] frames[k]).device_path@ == path
            && frames[k].captured_at == captured_at
}

proof fn report_count_grows(events: Seq<InputEvent>, low: nat, high: nat)
    requires
        low <= high,
    ensures
        report_count(events, low) <= report_count(events, high),
    decreases high - low,
{
    if low < high {
        report_count_grows(events, low, (high - 1) as nat);
    }
}

#[verifier::spinoff_prover]
proof fn frames_grow(
    node: NodeModel,
    events: Seq<InputEvent>,
    at: int,
    seen: Seq<CapturedDeviceFrame>,
    frames: Seq<CapturedDeviceFrame>,
    path: Seq<char>,
    captured_at: u64,
)
    requires
        0 <= at < events.len(),
        frames_of_reports(node, events, at as nat, seen, path, captured_at),
        if is_report(events[at]) {
            &&& frames.len() == seen.len() + 1
            &&& frames.drop_last() == seen
            &&& frames.last().device_path@ == path
            &&& frames.last().captured_at == captured_at
            &&& node_at(node, events, at as nat).completes(frames.last().frame)
        } else {
            frames == seen
        },
    ensures
        frames_of_reports(node, events, (at + 1) as nat, frames, path, captured_at),
{
    reveal(frames_of_reports);
    assert forall|k: int| 0 <= k < seen.len() implies #[trigger] frames[k] == seen[k] by {
        if is_report(events[at]) {
            assert(frames.drop_last()[k] == seen[k]);
        }
    }
    assert forall|i: int| 0 <= i < at + 1 && #[trigger] is_report(events[i]) implies node_at(
        node,
        events,
        i as nat,
    ).completes(frames[report_count(events, i as nat) as int].frame) by {
        if i < at {
            report_count_grows(events, (i + 1) as nat, at as nat);
            assert(frames[report_count(events, i as nat) as int] == seen[report_count(
                events,
                i as nat,
            ) as int]);
        }
    }
}

fn decode_events(
    aggregate: &mut AggregateInputState,
    node: &mut CaptureNode,
    path: &str,
    events: &Vec<InputEvent>,
    captured_at: u64,
) -> (result: Result<Vec<CapturedDeviceFrame>, MappingError>)
    requires
        old(aggregate).wf(),
        old(aggregate)@.devices.contains_key(path_of(path@)),
        old(node).wf(),
        batch_fits(old(node)@.open_frame, events@),
    ensures
        final(aggregate).wf(),
        final(aggregate)@.devices.dom() =~= old(aggregate)@.devices.dom(),
        final(node).wf(),
        match result {
            Ok(frames) => {
                &&& decodes(old(node)@, events@, events@.len() as int)
                &&& frames_of_reports(
                    old(node)@,
                    events@,
                    events@.len(),
                    frames@,
                    path@,
                    captured_at,
                )
                &&& final(node)@ == node_at(old(node)@, events@, events@.len())
                &&& final(aggregate)@ == input_at(
                    old(aggregate)@,
                    path_of(path@),
                    events@,
                    events@.len(),
                )
            },
            Err(source) => exists|i: int|
                {
                    &&& 0 <= i < events@.len()
                    &&& decodes(old(node)@, events@, i)
                    &&& #[trigger] error_at(old(node)@, events@, i) == Some(source)
                    &&& final(node)@ == node_at(old(node)@, events@, i as nat)
                    &&& final(aggregate)@ == input_at(
                        old(aggregate)@,
                        path_of(path@),
                        events@,
                        (i + 1) as nat,
                    )
                },
        },
{
    let ghost start = node@;
    let ghost input = aggregate@;
    let mut frames: Vec<CapturedDeviceFrame> = Vec::new();
    let mut at: usize = 0;
    proof {
        reveal(frames_of_reports);
    }
    assert(events@.skip(0) =~= events@);
    while at < events.len()
        invariant
            at <= events@.len(),
            start == old(node)@,
            input == old(aggregate)@,
            input.devices.contains_key(path_of(path@)),
            aggregate.wf(),
            aggregate@ == input_at(input, path_of(path@), events@, at as nat),
            aggregate@.devices.dom() =~= input.devices.dom(),
            node.wf(),
            node@ == node_at(start, events@, at as nat),
            decodes(start, events@, at as int),
            batch_fits(node@.open_frame, events@.skip(at as int)),
            frames_of_reports(start, events@, at as nat, frames@, path@, captured_at),
        decreases events@.len() - at,
    {
        let event = events[at];
        assert(events@.skip(at as int).drop_first() =~= events@.skip(at + 1));
        assert(events@.skip(at as int)[0] == event);
        let ghost seen = frames@;
        aggregate.observe(path, event);
        assert(aggregate@ == input_at(input, path_of(path@), events@, (at + 1) as nat));
        match node.push(event) {
            Ok(Some(frame)) => {
                frames.push(
                    CapturedDeviceFrame { device_path: path.to_owned(), frame, captured_at },
                );
                assert(frames@.drop_last() =~= seen);
            },
            Ok(None) => {},
            Err(source) => {
                assert(error_at(start, events@, at as int) == Some(source));
                return Err(source);
            },
        }
        proof {
            frames_grow(start, events@, at as int, seen, frames@, path@, captured_at);
            assert(error_at(start, events@, at as int) is None);
        }
        at = at + 1;
    }
    Ok(frames)
}

pub open spec fn selects_path(selected: Seq<DeviceInfo>, path: Seq<char>) -> bool {
    exists|i: int| 0 <= i < selected.len() && (#[trigger] selected[i])@.path == path
}

/// What a rescan asks of an open capture set.
#[derive(Debug)]
pub struct ReconcilePlan {
    /// Open nodes that are no longer selected, in path order.
    pub removed: Vec<String>,
    /// Indexes of selected devices that are not open yet.
    pub missing: Vec<usize>,
    /// Removing a grabbed node closes the whole activation.
    pub activation_must_close: bool,
}

impl Default for CaptureSet {
    fn default() -> (result: Self)
        ensures
            result.wf(),
            result@.nodes == Map::<Seq<char>, NodeModel>::empty(),
            result@.input.devices == Map::<Seq<char>, InputModel>::empty(),
            result@.input.generation == 0,
            !result@.grabbed,
    {
        let result = CaptureSet {
            nodes: OrderedMap::new(true),
            aggregate: AggregateInputState::default(),
            grabbed: false,
        };
        assert(result@.nodes =~= Map::<Seq<char>, NodeModel>::empty());
        result
    }
}

impl CaptureSet {
    pub closed spec fn wf(&self) -> bool {
        &&& self.nodes.wf()
        &&& self.nodes.by_path()
        &&& nodes_wf(self.nodes@)
        &&& self.aggregate.wf()
        &&& self.nodes@.dom() =~= self.aggregate@.devices.dom()
        &&& forall|path: Seq<char>| #[trigger]
            self.nodes@.contains_key(path) ==> path_of(path) == path
    }

    /// Whether a device may join the set: never one of zflow's own, and never
    /// the same node twice.
    pub fn check_device(&self, info: &DeviceInfo) -> (result: Result<(), CaptureSetError>)
        requires
            self.wf(),
        ensures
            match result {
                Ok(_) => info@.zflow_role() is None && !self@.nodes.contains_key(info@.path),
                Err(CaptureSetError::VirtualDevice(path)) => info@.zflow_role() is Some && path@
                    == info.path@,
                Err(CaptureSetError::Duplicate { path }) => info@.zflow_role() is None
                    && self@.nodes.contains_key(info@.path) && path@ == info.path@,
                Err(_) => false,
            },
    {
        if info.is_zflow_virtual() {
            return Err(CaptureSetError::VirtualDevice(info.path.clone()));
        }
        if self.nodes.contains_key(normalized(info.path.as_str()).as_str()) {
            return Err(CaptureSetError::Duplicate { path: info.path.clone() });
        }
        Ok(())
    }

    /// Adds an opened node with what is held on it.
    pub fn add_node(&mut self, path: String, held: &Vec<KeyCode>, node: CaptureNode)
        requires
            old(self).wf(),
            node.wf(),
        ensures
            final(self).wf(),
            final(self)@ == (CaptureModel {
                nodes: old(self)@.nodes.insert(path_of(path@), node@),
                input: AggregateModel {
                    devices: old(self)@.input.devices.insert(
                        path_of(path@),
                        InputModel { held: key_codes(held@).to_set(), in_frame: false },
                    ),
                    ..old(self)@.input
                },
                ..old(self)@
            }),
    {
        let name = normalized(path.as_str());
        proof {
            shortest_forms_stay(path@);
        }
        self.aggregate.add_device(path, held);
        self.nodes.insert(name, node);
        assert(self@.nodes =~= old(self)@.nodes.insert(path_of(path@), node@));
    }

    /// Open nodes in path order.
    pub fn paths(&self) -> (result: Vec<String>)
        requires
            self.wf(),
        ensures
            nodes_in_order(views(result@), self@.nodes),
    {
        let count: usize = self.nodes.len();
        let mut paths: Vec<String> = Vec::new();
        let mut at: usize = 0;
        while at < count
            invariant
                self.wf(),
                count == self.nodes.keys().len(),
                at <= count,
                paths@.len() == at,
                forall|i: int| 0 <= i < at ==> (#[trigger] paths@[i])@ == self.nodes.keys()[i],
            decreases count - at,
        {
            paths.push(self.nodes.key_at(at).clone());
            at = at + 1;
        }
        proof {
            let listed = views(paths@);
            assert forall|i: int| 0 <= i < listed.len() implies self@.nodes.contains_key(
                #[trigger] listed[i],
            ) && path_of(listed[i]) == listed[i] by {
                self.nodes.entry_in_map(i);
                assert(self.nodes@.contains_key(listed[i]));
            }
            assert forall|i: int, j: int| 0 <= i < j < listed.len() implies path_precedes(
                #[trigger] listed[i],
                #[trigger] listed[j],
            ) by {
                assert(precedes(self.nodes.keys()[i], self.nodes.keys()[j], true));
                assert(self@.nodes.contains_key(listed[i]) && self@.nodes.contains_key(listed[j]));
                shortest_forms_come_in_path_order(listed[i], listed[j]);
            }
            assert forall|path: Seq<char>| #[trigger]
                self@.nodes.contains_key(path) implies listed.contains(path) by {
                let k = self.nodes.key_has_position(path);
                assert(listed[k] == path);
            }
        }
        paths
    }

    pub fn aggregate_state(&self) -> (result: &AggregateInputState)
        requires
            self.wf(),
        ensures
            result.wf(),
            result@ == self@.input,
    {
        &self.aggregate
    }

    pub fn is_grabbed(&self) -> (result: bool)
        ensures
            result == self@.grabbed,
    {
        self.grabbed
    }

    /// Whether grabbing may start: `Ok(true)` if nothing is left to do,
    /// `Ok(false)` if the kernel state has to be looked at next.
    pub fn check_grab(&self) -> (result: Result<bool, CaptureSetError>)
        requires
            self.wf(),
        ensures
            result == self@.grab_check(),
    {
        assert(self@.nodes.dom() =~= self.nodes@.dom());
        if self.nodes.len() == 0 {
            return Err(CaptureSetError::Empty);
        }
        if self.grabbed {
            return Ok(true);
        }
        if !self.aggregate.is_neutral() || !self.aggregate.all_at_boundary() {
            return Err(CaptureSetError::NotNeutral);
        }
        Ok(false)
    }

    /// Starts to grab every node: `Ok(None)` if nothing is left to do.
    pub fn start_grab(&self) -> (result: Result<Option<GrabSequence>, CaptureSetError>)
        requires
            self.wf(),
        ensures
            match self@.grab_check() {
                Err(error) => result == Err::<Option<GrabSequence>, CaptureSetError>(error),
                Ok(true) => result == Ok::<Option<GrabSequence>, CaptureSetError>(None),
                Ok(false) => result matches Ok(Some(sequence)) && sequence.wf() && sequence@
                    == SequenceModel::fresh(sequence@.paths) && nodes_in_order(
                    sequence@.paths,
                    self@.nodes,
                ),
            },
    {
        match self.check_grab() {
            Ok(true) => Ok(None),
            Ok(false) => {
                let paths = self.paths();
                proof {
                    if paths@.len() == 0 {
                        assert(self@.nodes.dom() =~= Set::<Seq<char>>::empty()) by {
                            assert forall|path: Seq<char>| !self@.nodes.contains_key(path) by {
                                if self@.nodes.contains_key(path) {
                                    assert(views(paths@).contains(path));
                                }
                            }
                        }
                    }
                }
                Ok(Some(GrabSequence::new(paths)))
            },
            Err(error) => Err(error),
        }
    }

    /// Records how a grab sequence ended.
    pub fn end_grab(&mut self, sequence: GrabSequence) -> (result: Result<(), CaptureSetError>)
        requires
            old(self).wf(),
            sequence.wf(),
            sequence@.phase is Ended,
        ensures
            final(self).wf(),
            sequence@.told(result),
            final(self)@ == (CaptureModel {
                grabbed: sequence@.committed() || sequence@.still_grabbed,
                ..old(self)@
            }),
    {
        match sequence.finish() {
            Some((result, grabbed)) => {
                self.grabbed = grabbed;
                result
            },
            None => Ok(()),
        }
    }

    /// Records an ungrab of every node; a node that could not be ungrabbed
    /// keeps the set grabbed.
    pub fn ungrabbed(&mut self, any_still_grabbed: bool)
        requires
            old(self).wf(),
        ensures
            final(self).wf(),
            final(self)@ == (CaptureModel { grabbed: any_still_grabbed, ..old(self)@ }),
    {
        self.grabbed = any_still_grabbed;
    }

    /// Whether a batch of one node can be decoded within 64-bit totals.
    pub fn can_read(&self, path: &str, events: &Vec<InputEvent>) -> (result: bool)
        requires
            self.wf(),
        ensures
            result == (self@.nodes.contains_key(path_of(path@)) ==> batch_fits(
                self@.nodes[path_of(path@)].open_frame,
                events@,
            )),
    {
        match self.nodes.get(normalized(path).as_str()) {
            Some(node) => node.can_push_all(events),
            None => true,
        }
    }

    /// Decodes every event read from one node; a node that is gone is forgotten
    /// and leaves no grab that could be given up. Ownership tracking sees the raw
    /// event before mapping, while callers see frames only after a report.
    pub fn read_ready(&mut self, path: &str, fetched: Fetched, captured_at: u64) -> (result: Result<
        Vec<CapturedDeviceFrame>,
        CaptureReadError,
    >)
        requires
            old(self).wf(),
            fetched matches Fetched::Events(events) ==> (old(self)@.nodes.contains_key(path_of(path@))
                ==> batch_fits(old(self)@.nodes[path_of(path@)].open_frame, events@)),
        ensures
            final(self).wf(),
            !(fetched is Removed) ==> final(self)@.grabbed == old(self)@.grabbed,
            !old(self)@.nodes.contains_key(path_of(path@)) ==> final(self)@ == old(self)@ && (
            result matches Err(CaptureReadError::UnknownDevice(unknown)) && unknown@ == path@),
            old(self)@.nodes.contains_key(path_of(path@)) ==> match fetched {
                Fetched::Removed { still_grabbed } => {
                    &&& result matches Err(CaptureReadError::DeviceRemoved { path: removed })
                        && removed@ == path@
                    &&& final(self)@.grabbed == still_grabbed
                    &&& final(self)@.nodes == old(self)@.nodes.remove(path_of(path@))
                    &&& final(self)@.input == (AggregateModel {
                        devices: old(self)@.input.devices.remove(path_of(path@)),
                        ..old(self)@.input
                    })
                },
                Fetched::Failed(text) => {
                    &&& result matches Err(CaptureReadError::Read { path: failed, source })
                        && failed@ == path@ && source == text
                    &&& final(self)@ == old(self)@
                },
                Fetched::Events(events) => {
                    let node = old(self)@.nodes[path_of(path@)];
                    match result {
                        Ok(frames) => {
                            &&& decodes(node, events@, events@.len() as int)
                            &&& frames_of_reports(
                                node,
                                events@,
                                events@.len(),
                                frames@,
                                path@,
                                captured_at,
                            )
                            &&& final(self)@.nodes == old(self)@.nodes.insert(
                                path_of(path@),
                                node_at(node, events@, events@.len()),
                            )
                            &&& final(self)@.input == input_at(
                                old(self)@.input,
                                path_of(path@),
                                events@,
                                events@.len(),
                            )
                        },
                        Err(CaptureReadError::Mapping { path: failed, source }) => {
                            &&& failed@ == path@
                            &&& exists|i: int|
                                {
                                    &&& 0 <= i < events@.len()
                                    &&& decodes(node, events@, i)
                                    &&& #[trigger] error_at(node, events@, i) == Some(source)
                                    &&& final(self)@.nodes == old(self)@.nodes.insert(
                                        path_of(path@),
                                        node_at(node, events@, i as nat),
                                    )
                                    &&& final(self)@.input == input_at(
                                        old(self)@.input,
                                        path_of(path@),
                                        events@,
                                        (i + 1) as nat,
                                    )
                                }
                        },
                        Err(_) => false,
                    }
                },
            },
    {
        let name = normalized(path);
        proof {
            shortest_forms_stay(path@);
        }
        let mut node = match self.nodes.remove(name.as_str()) {
            Some(node) => node,
            None => {
                assert(self@.nodes =~= old(self)@.nodes);
                assert(self.nodes@ =~= old(self).nodes@);
                return Err(CaptureReadError::UnknownDevice(path.to_owned()));
            },
        };
        let ghost start = node@;
        assert(start == old(self)@.nodes[path_of(path@)]);
        let events = match fetched {
            Fetched::Events(events) => events,
            Fetched::Removed { still_grabbed } => {
                self.aggregate.remove_device(path);
                self.grabbed = still_grabbed;
                assert(self@.nodes =~= old(self)@.nodes.remove(path_of(path@)));
                return Err(CaptureReadError::DeviceRemoved { path: path.to_owned() });
            },
            Fetched::Failed(source) => {
                self.nodes.insert(name, node);
                assert(self@.nodes =~= old(self)@.nodes);
                assert(self.nodes@.dom() =~= old(self).nodes@.dom());
                return Err(CaptureReadError::Read { path: path.to_owned(), source });
            },
        };
        let decoded = decode_events(&mut self.aggregate, &mut node, path, &events, captured_at);
        let ghost ended = node@;
        self.nodes.insert(name, node);
        assert(self@.nodes =~= old(self)@.nodes.insert(path_of(path@), ended));
        assert(self.nodes@.dom() =~= old(self).nodes@.dom());
        match decoded {
            Ok(frames) => Ok(frames),
            Err(source) => Err(CaptureReadError::Mapping { path: path.to_owned(), source }),
        }
    }

    /// Compares the open nodes with a fresh selection. New nodes never join a
    /// grabbed set; they are picked up the next time the set is armed.
    pub fn plan_reconcile(&self, selected: &Vec<DeviceInfo>) -> (plan: ReconcilePlan)
        requires
            self.wf(),
        ensures
            forall|i: int, j: int|
                0 <= i < j < plan.removed@.len() ==> path_precedes(
                    (#[trigger] plan.removed@[i])@,
                    (#[trigger] plan.removed@[j])@,
                ),
            forall|path: Seq<char>|
                (exists|i: int| 0 <= i < plan.removed@.len() && (#[trigger] plan.removed@[i])@ == path)
                    <==> #[trigger] self@.nodes.contains_key(path) && !selects_path(
                    selected@,
                    path,
                ),
            forall|i: int, j: int|
                0 <= i < j < plan.missing@.len() ==> #[trigger] plan.missing@[i]
                    < #[trigger] plan.missing@[j],
            forall|k: int|
                plan.missing@.contains(k as usize) && 0 <= k <= usize::MAX <==> 0 <= k
                    < selected@.len() && !self@.nodes.contains_key(
                    (#[trigger] selected@[k])@.path,
                ),
            plan.activation_must_close == (self@.grabbed && plan.removed@.len() > 0),
    {
        let open: Vec<String> = self.paths();
        proof {
            let listed = views(open@);
            assert forall|i: int, j: int| 0 <= i < j < open@.len() implies path_precedes(
                (#[trigger] open@[i])@,
                (#[trigger] open@[j])@,
            ) by {
                assert(path_precedes(listed[i], listed[j]));
            }
            assert forall|i: int| 0 <= i < open@.len() implies self@.nodes.contains_key(
                (#[trigger] open@[i])@,
            ) && path_of(open@[i]@) == open@[i]@ by {
                assert(self@.nodes.contains_key(listed[i]));
            }
            assert forall|path: Seq<char>| #[trigger]
                self@.nodes.contains_key(path) implies exists|i: int|
                0 <= i < open@.len() && (#[trigger] open@[i])@ == path by {
                let k = listed.index_of(path);
                assert(open@[k]@ == path);
            }
        }
        let mut removed: Vec<String> = Vec::new();
        let mut at: usize = 0;
        while at < open.len()
            invariant
                at <= open@.len(),
                forall|i: int|
                    0 <= i < open@.len() ==> path_of((#[trigger] open@[i])@) == open@[i]@,
                forall|i: int, j: int|
                    0 <= i < j < open@.len() ==> path_precedes(
                        (#[trigger] open@[i])@,
                        (#[trigger] open@[j])@,
                    ),
                forall|i: int, k: int|
                    0 <= i < removed@.len() && at <= k < open@.len() ==> path_precedes(
                        (#[trigger] removed@[i])@,
                        (#[trigger] open@[k])@,
                    ),
                forall|i: int, j: int|
                    0 <= i < j < removed@.len() ==> path_precedes(
                        (#[trigger] removed@[i])@,
                        (#[trigger] removed@[j])@,
                    ),
                forall|i: int|
                    0 <= i < removed@.len() ==> !selects_path(
                        selected@,
                        (#[trigger] removed@[i])@,
                    ) && exists|k: int|
                        0 <= k < at && (#[trigger] open@[k])@ == removed@[i]@,
                forall|k: int|
                    0 <= k < at && !selects_path(selected@, (#[trigger] open@[k])@)
                        ==> exists|i: int|
                        0 <= i < removed@.len() && (#[trigger] removed@[i])@ == open@[k]@,
            decreases open@.len() - at,
        {
            let ghost before = removed@;
            if !is_selected(selected, open[at].as_str()) {
                removed.push(open[at].clone());
                assert(removed@[before.len() as int]@ == open@[at as int]@);
            }
            proof {
                assert forall|k: int|
                    0 <= k < at + 1 && !selects_path(
                        selected@,
                        (#[trigger] open@[k])@,
                    ) implies exists|i: int|
                    0 <= i < removed@.len() && (#[trigger] removed@[i])@ == open@[k]@ by {
                    if k < at {
                        let i = choose|i: int|
                            0 <= i < before.len() && (#[trigger] before[i])@ == open@[k]@;
                        assert(removed@[i]@ == open@[k]@);
                    }
                }
            }
            at = at + 1;
        }
        let mut missing: Vec<usize> = Vec::new();
        let mut next: usize = 0;
        while next < selected.len()
            invariant
                self.wf(),
                next <= selected@.len(),
                forall|i: int| 0 <= i < missing@.len() ==> #[trigger] missing@[i] < next,
                forall|i: int, j: int|
                    0 <= i < j < missing@.len() ==> #[trigger] missing@[i]
                        < #[trigger] missing@[j],
                forall|i: int|
                    0 <= i < missing@.len() ==> !self@.nodes.contains_key(
                        selected@[#[trigger] missing@[i] as int]@.path,
                    ),
                forall|k: int|
                    0 <= k < next && !self@.nodes.contains_key((#[trigger] selected@[k])@.path)
                        ==> missing@.contains(k as usize),
            decreases selected@.len() - next,
        {
            let ghost before = missing@;
            if !self.nodes.contains_key(normalized(selected[next].path.as_str()).as_str()) {
                missing.push(next);
                assert(missing@[before.len() as int] == next);
            }
            proof {
                assert forall|k: int|
                    0 <= k < next + 1 && !self@.nodes.contains_key(
                        (#[trigger] selected@[k])@.path,
                    ) implies missing@.contains(k as usize) by {
                    if k < next {
                        let i = choose|i: int| 0 <= i < before.len() && before[i] == k as usize;
                        assert(missing@[i] == k as usize);
                    }
                }
            }
            next = next + 1;
        }
        let activation_must_close = self.grabbed && removed.len() > 0;
        ReconcilePlan { removed, missing, activation_must_close }
    }

    /// Closes nodes that are no longer selected.
    pub fn remove_nodes(&mut self, removed: &Vec<String>)
        requires
            old(self).wf(),
        ensures
            final(self).wf(),
            final(self)@.grabbed == old(self)@.grabbed,
            final(self)@.input.generation == old(self)@.input.generation,
            final(self)@.nodes == old(self)@.nodes.remove_keys(named_paths(removed@)),
            final(self)@.input.devices == old(self)@.input.devices.remove_keys(named_paths(removed@)),
    {
        let mut at: usize = 0;
        assert(old(self)@.nodes.remove_keys(named_paths(removed@.take(0))) =~= old(self)@.nodes);
        assert(old(self)@.input.devices.remove_keys(named_paths(removed@.take(0)))
            =~= old(self)@.input.devices);
        while at < removed.len()
            invariant
                at <= removed@.len(),
                self.wf(),
                self@.grabbed == old(self)@.grabbed,
                self@.input.generation == old(self)@.input.generation,
                self@.nodes == old(self)@.nodes.remove_keys(named_paths(removed@.take(at as int))),
                self@.input.devices == old(self)@.input.devices.remove_keys(
                    named_paths(removed@.take(at as int)),
                ),
            decreases removed@.len() - at,
        {
            let name = normalized(removed[at].as_str());
            let ghost path = path_of(removed@[at as int]@);
            let ghost before = self.nodes@;
            let _ = self.nodes.remove(name.as_str());
            self.aggregate.remove_device(removed[at].as_str());
            proof {
                assert(removed@.take(at + 1) =~= removed@.take(at as int).push(
                    removed@[at as int],
                ));
                assert(named_paths(removed@.take(at + 1)) =~= named_paths(removed@.take(at as int)).insert(
                    path,
                )) by {
                    named_paths_push(removed@.take(at as int), removed@[at as int]);
                }
                assert(self@.nodes =~= node_models(before).remove(path));
                assert(self@.nodes =~= old(self)@.nodes.remove_keys(
                    named_paths(removed@.take(at + 1)),
                ));
                assert(self@.input.devices =~= old(self)@.input.devices.remove_keys(
                    named_paths(removed@.take(at + 1)),
                ));
            }
            at = at + 1;
        }
        assert(removed@.take(at as int) =~= removed@);
    }

    /// Suspend closes every node. Closing releases the kernel grabs even if an
    /// explicit ungrab failed.
    pub fn suspend(&mut self)
        ensures
            final(self).wf(),
            final(self)@.nodes == Map::<Seq<char>, NodeModel>::empty(),
            final(self)@.input.devices == Map::<Seq<char>, InputModel>::empty(),
            final(self)@.input.generation == 0,
            !final(self)@.grabbed,
    {
        *self = CaptureSet::default();
    }
}

/// The paths that a list names.
pub open spec fn named_paths(list: Seq<String>) -> Set<Seq<char>> {
    Set::new(
        |path: Seq<char>|
            exists|i: int| 0 <= i < list.len() && path_of((#[trigger] list[i])@) == path,
    )
}

proof fn named_paths_push(list: Seq<String>, text: String)
    ensures
        named_paths(list.push(text)) == named_paths(list).insert(path_of(text@)),
{
    let longer = list.push(text);
    let path = path_of(text@);
    assert forall|p: Seq<char>| named_paths(longer).contains(p) == named_paths(list).insert(
        path,
    ).contains(p) by {
        if named_paths(list).contains(p) {
            let i = choose|i: int| 0 <= i < list.len() && path_of((#[trigger] list[i])@) == p;
            assert(path_of(longer[i]@) == p);
        }
        if p == path {
            assert(path_of(longer[list.len() as int]@) == p);
        }
        if named_paths(longer).contains(p) && p != path {
            let i = choose|i: int| 0 <= i < longer.len() && path_of((#[trigger] longer[i])@) == p;
            assert(path_of(list[i]@) == p);
        }
    }
    assert(named_paths(longer) =~= named_paths(list).insert(path));
}

fn is_selected(selected: &Vec<DeviceInfo>, path: &str) -> (result: bool)
    ensures
        result == selects_path(selected@, path_of(path@)),
{
    let mut at: usize = 0;
    while at < selected.len()
        invariant
            at <= selected@.len(),
            forall|i: int| 0 <= i < at ==> (#[trigger] selected@[i])@.path != path_of(path@),
        decreases selected@.len() - at,
    {
        if same_path(selected[at].path.as_str(), path) {
            assert(selected@[at as int]@.path == path_of(path@));
            return true;
        }
        at = at + 1;
    }
    false
}

/// Devices are grabbed exactly if there are some, none is grabbed yet, no key is held
/// and no device is in the middle of a frame.
pub proof fn grabs_start_only_when_neutral(model: CaptureModel)
    ensures
        model.grab_check() == Ok::<bool, CaptureSetError>(false) <==> {
            &&& model.nodes.dom().len() > 0
            &&& !model.grabbed
            &&& nothing_held(model.input.devices)
            &&& between_frames(model.input.devices)
        },
        model.grab_check() == Ok::<bool, CaptureSetError>(true) <==> model.grabbed
            && model.nodes.dom().len() > 0,
        model.grab_check() == Err::<bool, CaptureSetError>(CaptureSetError::Empty)
            <==> model.nodes.dom().len() == 0,
{
}

/// Reading goes on where it stopped: two batches read one after the other leave a
/// device, and what is known of its input, as one batch of both would.
pub proof fn reading_goes_on_where_it_stopped(
    node: NodeModel,
    input: AggregateModel,
    path: Seq<char>,
    first: Seq<InputEvent>,
    second: Seq<InputEvent>,
    count: nat,
)
    requires
        count <= second.len(),
    ensures
        node_at(node, first + second, first.len() + count) == node_at(
            node_at(node, first, first.len()),
            second,
            count,
        ),
        input_at(input, path, first + second, first.len() + count) == input_at(
            input_at(input, path, first, first.len()),
            path,
            second,
            count,
        ),
        report_count(first + second, first.len() + count) == report_count(first, first.len())
            + report_count(second, count),
    decreases count,
{
    if count > 0 {
        reading_goes_on_where_it_stopped(node, input, path, first, second, (count - 1) as nat);
        assert((first + second)[first.len() + count - 1] == second[count - 1]);
        assert((first.len() + count - 1) as nat == first.len() + (count - 1) as nat);
    } else {
        earlier_events_decide(node, input, path, first, second, first.len());
    }
}

proof fn earlier_events_decide(
    node: NodeModel,
    input: AggregateModel,
    path: Seq<char>,
    first: Seq<InputEvent>,
    second: Seq<InputEvent>,
    count: nat,
)
    requires
        count <= first.len(),
    ensures
        node_at(node, first + second, count) == node_at(node, first, count),
        input_at(input, path, first + second, count) == input_at(input, path, first, count),
        report_count(first + second, count) == report_count(first, count),
    decreases count,
{
    if count > 0 {
        earlier_events_decide(node, input, path, first, second, (count - 1) as nat);
        assert((first + second)[count - 1] == first[count - 1]);
    }
}

/// An event changes what is held of its own device alone, and each report counts as
/// one more generation, which starts again behind the last.
pub proof fn events_are_of_one_device(
    input: AggregateModel,
    path: Seq<char>,
    other: Seq<char>,
    event: InputEvent,
)
    requires
        input.devices.contains_key(path),
    ensures
        ({
            let after = input_after(input, path, event);
            &&& after.devices.dom() == input.devices.dom()
            &&& other != path ==> after.devices[other] == input.devices[other]
            &&& event.kind == 0 && event.code == 0 && input.generation < u64::MAX
                ==> after.generation == input.generation + 1
            &&& event.kind == 0 && event.code == 0 && input.generation == u64::MAX
                ==> after.generation == 0
            &&& !(event.kind == 0 && event.code == 0) ==> after.generation == input.generation
        }),
{
    assert(input_after(input, path, event).devices.dom() =~= input.devices.dom());
}

/// A frame shows the touchpad exactly if something changed on it, and holds what the
/// events since the last report say.
pub proof fn frames_show_what_changed(node: NodeModel, frame: CaptureFrame)
    requires
        node.completes(frame),
    ensures
        frame.touch_snapshot is Some <==> (node.touch matches Some(touch) && touch.dirty),
        frame.transitions@ == transitions_of(node.open_frame),
        frame.motion.dx == axis_sum(node.open_frame, 0),
        frame.motion.dy == axis_sum(node.open_frame, 1),
{
}

/// Lost events are an error on every device, and nothing else of a touchpad is one
/// but two contacts with the same identity when a frame ends.
pub proof fn lost_events_are_errors(node: NodeModel, event: InputEvent)
    ensures
        event.kind == 0 && event.code == 3 ==> node.error(event) is Some,
        event.kind == 0 && event.code == 3 && node.touch is Some ==> node.error(event) == Some(
            MappingError::InvalidTouchState,
        ),
        event.kind == 0 && event.code == 3 && node.touch is None ==> node.error(event) == Some(
            MappingError::SynchronizationLost,
        ),
        node.touch is None ==> node.error(event) == frame_error(event),
        frame_error(event) is Some ==> node.error(event) is Some,
        node.error(event) == Some(MappingError::InvalidTouchState) && !(event.kind == 0
            && event.code == 3) ==> event.kind == 0 && event.code == 0 && node.touch is Some,
{
}

} // verus!
