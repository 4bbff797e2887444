//! Taking over the devices of a capture set.
//!
//! Every device is looked at before and after the grabs. The grabs stay only if
//! nothing was held either time.
use vstd::prelude::*;

use super::capture::{
    outcome_of, CaptureSetError, GrabStep, GrabTransaction, TransactionModel,
};
use crate::scan::views;

verus! {

/// What has to be done next.
#[derive(Clone, Copy, Debug, PartialEq, Eq, Structural)]
pub enum GrabAction {
    /// Ask the kernel how many keys are held on the device with this index.
    Inspect(usize),
    /// Grab the device with this index.
    Take(usize),
    /// Release the device with this index.
    Release(usize),
    /// Nothing is left to do.
    End,
}

/// What came of an action.
#[derive(Debug)]
pub enum GrabEvent {
    /// Keys that are held on the inspected device.
    Held(Result<usize, String>),
    /// A device was grabbed or released, or that failed.
    Done(Result<(), String>),
}

#[derive(Clone, Copy, Debug, PartialEq, Eq, Structural)]
pub enum GrabPhase {
    /// Devices below this index are neutral; nothing is grabbed.
    Before(usize),
    /// The transaction is running.
    Taking,
    /// Every device is grabbed; devices below this index are still neutral.
    After(usize),
    /// Every grab is given up; this device is the next to be released.
    Undoing(usize),
    Ended,
}

/// Why the grabs did not stay.
#[derive(Debug)]
pub enum GrabProblem {
    /// Something is held on a device.
    Held,
    /// The held state of the device with this index could not be read.
    Unreadable(usize, String),
    /// A device refused.
    Refused,
}

/// Mathematical value of a [`GrabProblem`].
pub enum ProblemModel {
    Held,
    Unreadable(int, Seq<char>),
    Refused,
}

/// Mathematical value of a [`GrabEvent`].
pub enum EventModel {
    Held(Result<usize, Seq<char>>),
    Done(Result<(), Seq<char>>),
}

impl View for GrabEvent {
    type V = EventModel;

    open spec fn view(&self) -> EventModel {
        match self {
            GrabEvent::Held(Ok(held)) => EventModel::Held(Ok(*held)),
            GrabEvent::Held(Err(error)) => EventModel::Held(Err(error@)),
            GrabEvent::Done(outcome) => EventModel::Done(outcome_of(*outcome)),
        }
    }
}

pub open spec fn problem_of(problem: Option<GrabProblem>) -> Option<ProblemModel> {
    match problem {
        None => None,
        Some(GrabProblem::Held) => Some(ProblemModel::Held),
        Some(GrabProblem::Unreadable(at, error)) => Some(
            ProblemModel::Unreadable(at as int, error@),
        ),
        Some(GrabProblem::Refused) => Some(ProblemModel::Refused),
    }
}

/// Grabs every device of a set, or none.
#[derive(Debug)]
pub struct GrabSequence {
    paths: Vec<String>,
    phase: GrabPhase,
    transaction: GrabTransaction,
    problem: Option<GrabProblem>,
    still_grabbed: bool,
}

/// Mathematical state of a [`GrabSequence`].
pub struct SequenceModel {
    pub paths: Seq<Seq<char>>,
    pub phase: GrabPhase,
    pub transaction: TransactionModel,
    pub problem: Option<ProblemModel>,
    /// A device could not be released when every grab was given up.
    pub still_grabbed: bool,
}

/// Why a device is not neutral.
pub open spec fn trouble(at: int, held: Result<usize, Seq<char>>) -> Option<ProblemModel> {
    match held {
        Ok(0) => None,
        Ok(_) => Some(ProblemModel::Held),
        Err(error) => Some(ProblemModel::Unreadable(at, error)),
    }
}

impl SequenceModel {
    pub open spec fn fresh(paths: Seq<Seq<char>>) -> SequenceModel {
        SequenceModel {
            paths,
            phase: GrabPhase::Before(0),
            transaction: TransactionModel::fresh(paths.len() as int),
            problem: None,
            still_grabbed: false,
        }
    }

    pub open spec fn wf(self) -> bool {
        &&& 0 < self.paths.len() <= usize::MAX
        &&& self.transaction.wf()
        &&& self.transaction.targets == self.paths.len()
        &&& match self.phase {
            GrabPhase::Before(at) => at < self.paths.len() && self.problem is None
                && self.transaction == TransactionModel::fresh(self.paths.len() as int),
            GrabPhase::Taking => self.problem is None && (self.transaction.step is Take
                || self.transaction.step is Release),
            GrabPhase::After(at) => at < self.paths.len() && self.problem is None
                && self.transaction.step is Committed,
            GrabPhase::Undoing(at) => at < self.paths.len() && self.undone(),
            GrabPhase::Ended => match self.problem {
                None => self.transaction.step is Committed,
                Some(ProblemModel::Refused) => self.transaction.step is RolledBack,
                Some(ProblemModel::Unreadable(at, _)) => 0 <= at < self.paths.len(),
                Some(ProblemModel::Held) => true,
            },
        }
        &&& self.still_grabbed ==> self.problem is Some && !(self.problem->Some_0 is Refused)
    }

    /// A problem was found after the grabs were taken.
    pub open spec fn undone(self) -> bool {
        &&& self.transaction.step is Committed
        &&& match self.problem {
            Some(ProblemModel::Unreadable(at, _)) => 0 <= at < self.paths.len(),
            Some(ProblemModel::Held) => true,
            _ => false,
        }
    }

    pub open spec fn action(self) -> GrabAction {
        match self.phase {
            GrabPhase::Before(at) => GrabAction::Inspect(at),
            GrabPhase::Taking => match self.transaction.step {
                GrabStep::Take(at) => GrabAction::Take(at),
                GrabStep::Release(at) => GrabAction::Release(at),
                _ => GrabAction::End,
            },
            GrabPhase::After(at) => GrabAction::Inspect(at),
            GrabPhase::Undoing(at) => GrabAction::Release(at),
            GrabPhase::Ended => GrabAction::End,
        }
    }

    /// The event can come of the next action.
    pub open spec fn expects(self, event: EventModel) -> bool {
        match self.action() {
            GrabAction::Inspect(_) => event is Held,
            GrabAction::Take(_) => event is Done,
            GrabAction::Release(_) => event is Done,
            GrabAction::End => false,
        }
    }

    /// Every device stays grabbed.
    pub open spec fn committed(self) -> bool {
        self.phase is Ended && self.problem is None
    }

    /// What an ended sequence reports.
    pub open spec fn told(self, verdict: Result<(), CaptureSetError>) -> bool {
        match self.problem {
            None => verdict is Ok,
            Some(ProblemModel::Held) => verdict == Err::<(), CaptureSetError>(
                CaptureSetError::NotNeutral,
            ),
            Some(ProblemModel::Unreadable(at, error)) => verdict matches Err(
                CaptureSetError::InspectState { path, source },
            ) && path@ == self.paths[at] && source@ == error,
            Some(ProblemModel::Refused) => verdict matches Err(CaptureSetError::Grab(error))
                && error.tells(self.transaction, self.paths),
        }
    }

    /// The state after an event. One that cannot come of the next action changes
    /// nothing.
    pub open spec fn after(self, event: EventModel) -> SequenceModel {
        if !self.expects(event) {
            self
        } else {
            match (self.phase, event) {
                (GrabPhase::Before(at), EventModel::Held(held)) => match trouble(
                    at as int,
                    held,
                ) {
                    Some(problem) => SequenceModel {
                        phase: GrabPhase::Ended,
                        problem: Some(problem),
                        ..self
                    },
                    None => SequenceModel {
                        phase: if at + 1 < self.paths.len() {
                            GrabPhase::Before((at + 1) as usize)
                        } else {
                            GrabPhase::Taking
                        },
                        ..self
                    },
                },
                (GrabPhase::Taking, EventModel::Done(outcome)) => {
                    let transaction = self.transaction.after(outcome);
                    match transaction.step {
                        GrabStep::Committed => SequenceModel {
                            phase: GrabPhase::After(0),
                            transaction,
                            ..self
                        },
                        GrabStep::RolledBack(_) => SequenceModel {
                            phase: GrabPhase::Ended,
                            transaction,
                            problem: Some(ProblemModel::Refused),
                            ..self
                        },
                        _ => SequenceModel { transaction, ..self },
                    }
                },
                (GrabPhase::After(at), EventModel::Held(held)) => match trouble(
                    at as int,
                    held,
                ) {
                    Some(problem) => SequenceModel {
                        phase: GrabPhase::Undoing((self.paths.len() - 1) as usize),
                        problem: Some(problem),
                        ..self
                    },
                    None => SequenceModel {
                        phase: if at + 1 < self.paths.len() {
                            GrabPhase::After((at + 1) as usize)
                        } else {
                            GrabPhase::Ended
                        },
                        ..self
                    },
                },
                (GrabPhase::Undoing(at), EventModel::Done(outcome)) => SequenceModel {
                    phase: if at > 0 {
                        GrabPhase::Undoing((at - 1) as usize)
                    } else {
                        GrabPhase::Ended
                    },
                    still_grabbed: self.still_grabbed || outcome is Err,
                    ..self
                },
                _ => self,
            }
        }
    }
}

impl View for GrabSequence {
    type V = SequenceModel;

    closed spec fn view(&self) -> SequenceModel {
        SequenceModel {
            paths: views(self.paths@),
            phase: self.phase,
            transaction: self.transaction@,
            problem: problem_of(self.problem),
            still_grabbed: self.still_grabbed,
        }
    }
}

impl GrabSequence {
    pub closed spec fn wf(&self) -> bool {
        self@.wf() && self.transaction.wf()
    }

    /// Starts with the devices at these paths; there is at least one.
    pub fn new(paths: Vec<String>) -> (result: Self)
        requires
            paths@.len() > 0,
        ensures
            result.wf(),
            result@ == SequenceModel::fresh(views(paths@)),
    {
        let transaction = GrabTransaction::new(paths.len());
        GrabSequence {
            paths,
            phase: GrabPhase::Before(0),
            transaction,
            problem: None,
            still_grabbed: false,
        }
    }

    pub fn action(&self) -> (result: GrabAction)
        ensures
            result == self@.action(),
    {
        match self.phase {
            GrabPhase::Before(at) => GrabAction::Inspect(at),
            GrabPhase::Taking => match self.transaction.step() {
                GrabStep::Take(at) => GrabAction::Take(at),
                GrabStep::Release(at) => GrabAction::Release(at),
                _ => GrabAction::End,
            },
            GrabPhase::After(at) => GrabAction::Inspect(at),
            GrabPhase::Undoing(at) => GrabAction::Release(at),
            GrabPhase::Ended => GrabAction::End,
        }
    }

    /// Takes what came of the next action.
    pub fn advance(&mut self, event: GrabEvent)
        requires
            old(self).wf(),
        ensures
            final(self).wf(),
            final(self)@ == old(self)@.after(event@),
    {
        match (self.phase, event) {
            (GrabPhase::Before(at), GrabEvent::Held(held)) => match held {
                Ok(0) => {
                    self.phase = if at + 1 < self.paths.len() {
                        GrabPhase::Before(at + 1)
                    } else {
                        GrabPhase::Taking
                    };
                },
                Ok(_) => {
                    self.phase = GrabPhase::Ended;
                    self.problem = Some(GrabProblem::Held);
                },
                Err(error) => {
                    self.phase = GrabPhase::Ended;
                    self.problem = Some(GrabProblem::Unreadable(at, error));
                },
            },
            (GrabPhase::Taking, GrabEvent::Done(outcome)) => {
                self.transaction.advance(outcome);
                match self.transaction.step() {
                    GrabStep::Committed => {
                        self.phase = GrabPhase::After(0);
                    },
                    GrabStep::RolledBack(_) => {
                        self.phase = GrabPhase::Ended;
                        self.problem = Some(GrabProblem::Refused);
                    },
                    _ => {},
                }
            },
            (GrabPhase::After(at), GrabEvent::Held(held)) => match held {
                Ok(0) => {
                    self.phase = if at + 1 < self.paths.len() {
                        GrabPhase::After(at + 1)
                    } else {
                        GrabPhase::Ended
                    };
                },
                Ok(_) => {
                    self.phase = GrabPhase::Undoing(self.paths.len() - 1);
                    self.problem = Some(GrabProblem::Held);
                },
                Err(error) => {
                    self.phase = GrabPhase::Undoing(self.paths.len() - 1);
                    self.problem = Some(GrabProblem::Unreadable(at, error));
                },
            },
            (GrabPhase::Undoing(at), GrabEvent::Done(outcome)) => {
                if outcome.is_err() {
                    self.still_grabbed = true;
                }
                self.phase = if at > 0 {
                    GrabPhase::Undoing(at - 1)
                } else {
                    GrabPhase::Ended
                };
            },
            _ => {},
        }
    }

    /// The result and whether a grab is left, once the sequence ended.
    pub fn finish(self) -> (result: Option<(Result<(), CaptureSetError>, bool)>)
        requires
            self.wf(),
        ensures
            !(self@.phase is Ended) ==> result is None,
            self@.phase is Ended ==> (result matches Some((verdict, grabbed)) && self@.told(verdict)
                && grabbed == (self@.committed() || self@.still_grabbed)),
    {
        match self.phase {
            GrabPhase::Ended => match self.problem {
                None => Some((Ok(()), true)),
                Some(GrabProblem::Held) => Some(
                    (Err(CaptureSetError::NotNeutral), self.still_grabbed),
                ),
                Some(GrabProblem::Unreadable(at, source)) => Some(
                    (
                        Err(CaptureSetError::InspectState { path: self.paths[at].clone(), source }),
                        self.still_grabbed,
                    ),
                ),
                Some(GrabProblem::Refused) => match self.transaction.finish(&self.paths) {
                    Some(Err(error)) => Some((Err(CaptureSetError::Grab(error)), false)),
                    _ => None,
                },
            },
            _ => None,
        }
    }
}

// ---------------------------------------------------------------------------
// Whole runs
// ---------------------------------------------------------------------------

/// The state after a run of events.
pub open spec fn sequence_run(paths: Seq<Seq<char>>, events: Seq<EventModel>) -> SequenceModel
    decreases events.len(),
{
    if events.len() == 0 {
        SequenceModel::fresh(paths)
    } else {
        sequence_run(paths, events.drop_last()).after(events.last())
    }
}

/// Each event can come of the action that was next.
pub open spec fn proper_run(paths: Seq<Seq<char>>, events: Seq<EventModel>) -> bool {
    forall|i: int|
        0 <= i < events.len() ==> sequence_run(paths, #[trigger] events.take(i)).expects(events[i])
}

/// Devices that were grabbed during a run and whose release was not tried yet.
pub open spec fn unreleased(paths: Seq<Seq<char>>, events: Seq<EventModel>) -> Set<int>
    decreases events.len(),
{
    if events.len() == 0 {
        Set::empty()
    } else {
        let before = unreleased(paths, events.drop_last());
        match (sequence_run(paths, events.drop_last()).action(), events.last()) {
            (GrabAction::Take(at), EventModel::Done(Ok(_))) => before.insert(at as int),
            (GrabAction::Release(at), EventModel::Done(_)) => before.remove(at as int),
            _ => before,
        }
    }
}

/// Devices from the first on that hold a grab.
pub open spec fn grab_level(model: SequenceModel) -> int {
    match model.phase {
        GrabPhase::Before(_) => 0,
        GrabPhase::Taking => model.transaction.held(),
        GrabPhase::After(_) => model.paths.len() as int,
        GrabPhase::Undoing(at) => at + 1,
        GrabPhase::Ended => if model.problem is None {
            model.paths.len() as int
        } else {
            0
        },
    }
}

pub open spec fn below(level: int) -> Set<int> {
    Set::new(|at: int| 0 <= at < level)
}

proof fn run_keeps_the_level(paths: Seq<Seq<char>>, events: Seq<EventModel>)
    requires
        0 < paths.len() <= usize::MAX,
    ensures
        sequence_run(paths, events).wf(),
        sequence_run(paths, events).paths == paths,
        unreleased(paths, events) == below(grab_level(sequence_run(paths, events))),
    decreases events.len(),
{
    if events.len() == 0 {
        assert(unreleased(paths, events) =~= below(0));
    } else {
        run_keeps_the_level(paths, events.drop_last());
        assert(unreleased(paths, events) =~= below(grab_level(sequence_run(paths, events))));
    }
}

/// When a run ends, either every device is grabbed, or every grab that was taken
/// was released again, as far as the kernel let it go.
pub proof fn grabs_stay_or_are_released(paths: Seq<Seq<char>>, events: Seq<EventModel>)
    requires
        0 < paths.len() <= usize::MAX,
        sequence_run(paths, events).phase is Ended,
    ensures
        sequence_run(paths, events).committed() ==> unreleased(paths, events) == below(
            paths.len() as int,
        ),
        !sequence_run(paths, events).committed() ==> unreleased(paths, events) == Set::<
            int,
        >::empty(),
{
    run_keeps_the_level(paths, events);
    assert(below(0) =~= Set::<int>::empty());
}

/// An event of a run without a problem: a device was found neutral, or grabbed.
pub open spec fn went_well(event: EventModel, taking: bool) -> bool {
    if taking {
        event matches EventModel::Done(Ok(_))
    } else {
        event == EventModel::Held(Ok::<usize, Seq<char>>(0))
    }
}

/// Every device is found neutral, then every one is grabbed, then every one is
/// found neutral again.
pub open spec fn neutral_steps(events: Seq<EventModel>, targets: int) -> bool {
    forall|i: int|
        0 <= i < events.len() ==> went_well(#[trigger] events[i], targets <= i < 2 * targets)
}

/// Where a run is that has met no problem.
pub open spec fn smooth_phase(done: int, targets: int) -> GrabPhase {
    if done < targets {
        GrabPhase::Before(done as usize)
    } else if done < 2 * targets {
        GrabPhase::Taking
    } else if done < 3 * targets {
        GrabPhase::After((done - 2 * targets) as usize)
    } else {
        GrabPhase::Ended
    }
}

pub open spec fn is_smooth(model: SequenceModel) -> bool {
    model.problem is None && !(model.transaction.step is Release)
}

proof fn smooth_runs_are_neutral(paths: Seq<Seq<char>>, events: Seq<EventModel>)
    requires
        0 < paths.len() <= usize::MAX,
        proper_run(paths, events),
        is_smooth(sequence_run(paths, events)),
    ensures
        events.len() <= 3 * paths.len(),
        neutral_steps(events, paths.len() as int),
        sequence_run(paths, events).phase == smooth_phase(
            events.len() as int,
            paths.len() as int,
        ),
        paths.len() <= events.len() < 2 * paths.len() ==> sequence_run(
            paths,
            events,
        ).transaction.step == GrabStep::Take((events.len() - paths.len()) as usize),
    decreases events.len(),
{
    if events.len() > 0 {
        let earlier = events.drop_last();
        let last = events.len() - 1;
        run_keeps_the_level(paths, earlier);
        assert(events.take(last) =~= earlier);
        assert forall|i: int| 0 <= i < earlier.len() implies sequence_run(
            paths,
            #[trigger] earlier.take(i),
        ).expects(earlier[i]) by {
            assert(earlier.take(i) =~= events.take(i));
        }
        assert(sequence_run(paths, earlier).expects(events[last]));
        assert(is_smooth(sequence_run(paths, earlier)));
        smooth_runs_are_neutral(paths, earlier);
        assert forall|i: int| 0 <= i < events.len() implies went_well(
            #[trigger] events[i],
            paths.len() <= i < 2 * paths.len(),
        ) by {
            if i < last {
                assert(earlier[i] == events[i]);
            }
        }
    }
}

/// The grabs stay only if nothing was held on any device, neither before the
/// first nor after the last of them was grabbed.
pub proof fn grabs_stay_only_on_neutral_devices(paths: Seq<Seq<char>>, events: Seq<EventModel>)
    requires
        0 < paths.len() <= usize::MAX,
        proper_run(paths, events),
        sequence_run(paths, events).committed(),
    ensures
        events.len() == 3 * paths.len(),
        neutral_steps(events, paths.len() as int),
{
    run_keeps_the_level(paths, events);
    smooth_runs_are_neutral(paths, events);
}

/// A device that could not be released is not forgotten, and nothing else leaves one
/// grabbed.
pub proof fn failed_releases_are_not_forgotten(model: SequenceModel, event: EventModel)
    ensures
        model.still_grabbed ==> model.after(event).still_grabbed,
        model.phase is Undoing && (event matches EventModel::Done(Err(_))) ==> model.after(
            event,
        ).still_grabbed,
        model.after(event).still_grabbed && !model.still_grabbed ==> model.phase is Undoing && (
        event matches EventModel::Done(Err(_))),
{
}

/// A device that is held or cannot be read ends the grabs, for that reason; a neutral
/// one does not.
pub proof fn held_devices_end_the_grabs(model: SequenceModel, held: Result<usize, Seq<char>>)
    requires
        model.wf(),
        model.phase is Before || model.phase is After,
    ensures
        ({
            let after = model.after(EventModel::Held(held));
            &&& after.problem is None <==> held == Ok::<usize, Seq<char>>(0)
            &&& held is Ok && held->Ok_0 > 0 ==> after.problem == Some(ProblemModel::Held)
            &&& held is Err ==> after.problem is Some && after.problem->0 is Unreadable
            &&& after.problem is Some && model.phase is After ==> after.phase
                == GrabPhase::Undoing((model.paths.len() - 1) as usize)
            &&& after.problem is Some && model.phase is Before ==> after.phase is Ended
        }),
{
}

} // verus!
