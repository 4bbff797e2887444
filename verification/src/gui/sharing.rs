//! Sharing over the edges of this computer's displays.
use vstd::prelude::*;

use super::layout_model::{
    all_links, every_crossing_is_listed, is_valid, link, links_from, Layout, MonitorModel,
    Transition,
};
use crate::config::{Config, PeerModel};
use crate::desktop::Point;
use crate::macos::source::{may_receive_input, SourceStatus};

verus! {

/// What the page tells about sharing.
#[derive(Debug, PartialEq, Eq)]
pub enum Notice {
    Off,
    /// Armed; the next crossing connects.
    Ready,
    Connecting,
    Sharing,
    /// Input is local again and the connection is being closed.
    Restored,
    /// Input is local again and the edges are armed.
    Rearmed,
    /// Input is local and the edges are not armed.
    OffLocal,
    Returning,
    Cancelled(String),
    CursorLeft,
    DisplaysChanged,
    WorkerStopped,
    Failed(String),
    ObservationFailed(String),
}

/// A crossing that is under way.
#[derive(Clone, Copy, Debug, PartialEq, Eq, Structural)]
pub struct Running {
    pub returned: Option<u32>,
    pub failed: bool,
    pub cancelled: bool,
    pub capturing: bool,
}

/// Watches the edges while sharing is enabled.
#[derive(Debug, PartialEq, Eq)]
pub struct Observer {
    pub enabled: bool,
    pub running: Option<Running>,
    /// Where the pointer was at the last look.
    pub previous: Option<Point>,
    pub notice: Notice,
}

impl Default for Observer {
    fn default() -> (result: Self)
        ensures
            result == (Observer {
                enabled: false,
                running: None,
                previous: None,
                notice: Notice::Off,
            }),
    {
        Observer { enabled: false, running: None, previous: None, notice: Notice::Off }
    }
}

/// What was seen of a crossing since the last round.
#[derive(Debug, PartialEq, Eq)]
pub struct TickFacts {
    /// What the crossing's source reported.
    pub reports: Vec<SourceStatus>,
    /// The displays are those with which the crossing began.
    pub displays_unchanged: bool,
    /// The pointer is known to be away from the edge.
    pub left_edge: bool,
    /// The crossing's worker ended.
    pub ended: Option<WorkerEnd>,
}

#[derive(Debug, PartialEq, Eq)]
pub struct WorkerEnd {
    pub panicked: bool,
    /// What was still reported before the end.
    pub late_reports: Vec<SourceStatus>,
}

/// What a round asks for.
#[derive(Clone, Copy, Debug, PartialEq, Eq, Structural)]
pub struct TickOutcome {
    /// The crossing has to be stopped.
    pub stop: bool,
    /// The pointer has to be looked at.
    pub observe: bool,
}

#[derive(Debug, PartialEq, Eq)]
pub enum EnableError {
    /// The layout was never saved.
    NoLayout,
    /// The layout leads to a computer that is not paired.
    NotPaired(String),
    /// The computer does not take input from this one.
    NotPermitted(String),
}

/// A way leads from this computer to one that is not paired or takes no input.
pub open spec fn way_error(
    monitors: Seq<MonitorModel>,
    paired: Map<Seq<char>, PeerModel>,
    way: Transition,
) -> bool {
    &&& monitors[way.source as int].peer is None
    &&& monitors[way.target as int].peer matches Some(name) && !(paired.dom().contains(name)
        && may_receive_input(paired[name]))
}

/// A way joins two monitors of the layout, of different computers.
proof fn ways_join_monitors(monitors: Seq<MonitorModel>, source: int, targets: int, at: int)
    requires
        0 <= source < monitors.len() <= usize::MAX,
        0 <= targets <= monitors.len(),
        0 <= at < links_from(monitors, source, targets).len(),
    ensures
        ({
            let way = links_from(monitors, source, targets)[at];
            &&& way.source == source
            &&& way.target < targets
            &&& link(monitors, source, way.target as int) == Some(way)
        }),
    decreases targets,
{
    if targets > 0 {
        let before = links_from(monitors, source, targets - 1);
        if at < before.len() {
            ways_join_monitors(monitors, source, targets - 1, at);
        }
    }
}

proof fn all_ways_join_monitors(monitors: Seq<MonitorModel>, sources: int, at: int)
    requires
        0 <= sources <= monitors.len() <= usize::MAX,
        0 <= at < all_links(monitors, sources).len(),
    ensures
        ({
            let way = all_links(monitors, sources)[at];
            &&& way.source < sources
            &&& way.target < monitors.len()
            &&& link(monitors, way.source as int, way.target as int) == Some(way)
        }),
    decreases sources,
{
    if sources > 0 {
        let before = all_links(monitors, sources - 1);
        if at < before.len() {
            all_ways_join_monitors(monitors, sources - 1, at);
        } else {
            ways_join_monitors(
                monitors,
                sources - 1,
                monitors.len() as int,
                at - before.len(),
            );
        }
    }
}

/// Refuses a layout over whose edges this computer could not share: the first
/// way out that leads to a computer which is not paired or takes no input.
pub fn check_ways(layout: &Layout, is_new: bool, config: &Config) -> (result: Result<
    (),
    EnableError,
>)
    requires
        config.wf(),
        is_valid(layout@),
    ensures
        ({
            let ways = all_links(layout@, layout@.len() as int);
            match result {
                Ok(_) => !is_new && forall|i: int|
                    0 <= i < ways.len() ==> !way_error(
                        layout@,
                        config.paired(),
                        #[trigger] ways[i],
                    ),
                Err(EnableError::NoLayout) => is_new,
                Err(EnableError::NotPaired(name)) => !is_new && exists|at: int|
                    first_way_error(layout@, config.paired(), ways, at) && layout@[(
                    #[trigger] ways[at]).target as int].peer == Some(name@)
                        && !config.paired().dom().contains(name@),
                Err(EnableError::NotPermitted(name)) => !is_new && exists|at: int|
                    first_way_error(layout@, config.paired(), ways, at) && layout@[(
                    #[trigger] ways[at]).target as int].peer == Some(name@)
                        && config.paired().dom().contains(name@),
            }
        }),
{
    if is_new {
        return Err(EnableError::NoLayout);
    }
    let transitions = layout.transitions();
    let ghost ways = all_links(layout@, layout@.len() as int);
    assert(layout@.len() == layout.monitors@.len());
    let mut at: usize = 0;
    while at < transitions.len()
        invariant
            config.wf(),
            is_valid(layout@),
            layout@.len() == layout.monitors@.len(),
            transitions@ == ways,
            ways == all_links(layout@, layout@.len() as int),
            at <= transitions@.len(),
            !is_new,
            forall|i: int|
                0 <= i < at ==> !way_error(layout@, config.paired(), #[trigger] ways[i]),
        decreases transitions@.len() - at,
    {
        proof {
            assert(layout@.len() <= 32);
            all_ways_join_monitors(layout@, layout@.len() as int, at as int);
        }
        let way = transitions[at];
        assert(ways[at as int] == way);
        let source = &layout.monitors[way.source];
        let target = &layout.monitors[way.target];
        assert(layout@[way.source as int] == source@);
        assert(layout@[way.target as int] == target@);
        if source.peer.is_none() {
            if let Some(name) = &target.peer {
                match config.peers.get(name.as_str()) {
                    None => {
                        assert(way_error(layout@, config.paired(), ways[at as int]));
                        assert(first_way_error(layout@, config.paired(), ways, at as int));
                        return Err(EnableError::NotPaired(name.clone()));
                    },
                    Some(peer) => {
                        assert(config.paired()[name@] == peer@);
                        if !(peer.permissions.connect && peer.permissions.receive_normal) {
                            assert(way_error(layout@, config.paired(), ways[at as int]));
                            assert(first_way_error(layout@, config.paired(), ways, at as int));
                            return Err(EnableError::NotPermitted(name.clone()));
                        }
                    },
                }
            }
        }
        at = at + 1;
    }
    Ok(())
}

/// The way at a place is the first one that sharing cannot use.
pub open spec fn first_way_error(
    monitors: Seq<MonitorModel>,
    paired: Map<Seq<char>, PeerModel>,
    ways: Seq<Transition>,
    at: int,
) -> bool {
    &&& 0 <= at < ways.len()
    &&& way_error(monitors, paired, ways[at])
    &&& forall|i: int| 0 <= i < at ==> !way_error(monitors, paired, #[trigger] ways[i])
}

impl Observer {
    pub open spec fn active(&self) -> bool {
        self.enabled || self.running is Some
    }

    pub fn is_active(&self) -> (result: bool)
        ensures
            result == self.active(),
    {
        self.enabled || self.running.is_some()
    }

    /// Sharing was enabled with a layout that can be used.
    pub fn enable(&mut self)
        ensures
            *final(self) == (Observer {
                enabled: true,
                previous: None,
                notice: Notice::Ready,
                running: old(self).running,
            }),
    {
        self.enabled = true;
        self.previous = None;
        self.notice = Notice::Ready;
    }

    /// Sharing was turned off. Gives whether a crossing has to be stopped.
    pub fn stop(&mut self) -> (stop: bool)
        ensures
            stop == old(self).running is Some,
            *final(self) == (Observer {
                enabled: false,
                previous: None,
                notice: if stop {
                    Notice::Returning
                } else {
                    Notice::Off
                },
                running: old(self).running,
            }),
    {
        self.enabled = false;
        self.previous = None;
        if self.running.is_some() {
            self.notice = Notice::Returning;
            true
        } else {
            self.notice = Notice::Off;
            false
        }
    }

    /// A crossing under way after a report of its source.
    pub open spec fn running_after(running: Running, status: SourceStatus) -> Running {
        match status {
            SourceStatus::Sharing => Running { capturing: true, ..running },
            SourceStatus::Returned { position } => Running { returned: Some(position), ..running },
            SourceStatus::Cancelled(_) => if running.failed {
                running
            } else {
                Running { cancelled: true, ..running }
            },
            SourceStatus::Failed(_) => Running { failed: true, ..running },
            _ => running,
        }
    }

    pub open spec fn notice_after(&self, running: Running, status: SourceStatus) -> Notice {
        match status {
            SourceStatus::Connecting => Notice::Connecting,
            SourceStatus::Sharing => Notice::Sharing,
            SourceStatus::LocalInputRestored => Notice::Restored,
            SourceStatus::Cancelled(reason) => if running.failed {
                self.notice
            } else {
                Notice::Cancelled(reason)
            },
            SourceStatus::Failed(reason) => Notice::Failed(reason),
            _ => self.notice,
        }
    }

    /// The source of the crossing reported something. A cancellation after a
    /// failure does not hide the failure.
    pub fn source_reported(&mut self, status: SourceStatus)
        ensures
            *final(self) == old(self).after_report(status),
    {
        let mut running = match self.running {
            Some(running) => running,
            None => return,
        };
        match status {
            SourceStatus::Connecting => {
                self.notice = Notice::Connecting;
            },
            SourceStatus::Sharing => {
                running.capturing = true;
                self.notice = Notice::Sharing;
            },
            SourceStatus::LocalInputRestored => {
                self.notice = Notice::Restored;
            },
            SourceStatus::Returned { position } => {
                running.returned = Some(position);
            },
            SourceStatus::Stopped => {},
            SourceStatus::Cancelled(reason) => {
                if !running.failed {
                    running.cancelled = true;
                    self.notice = Notice::Cancelled(reason);
                }
            },
            SourceStatus::Failed(reason) => {
                running.failed = true;
                self.notice = Notice::Failed(reason);
            },
        }
        self.running = Some(running);
    }

    /// The state after a report of the crossing's source.
    pub open spec fn after_report(self, status: SourceStatus) -> Observer {
        match self.running {
            None => self,
            Some(running) => Observer {
                running: Some(Self::running_after(running, status)),
                notice: self.notice_after(running, status),
                ..self
            },
        }
    }

    /// The state after a report that was read when the worker had ended: how the
    /// crossing came out counts, what it was doing does not.
    pub open spec fn after_late_report(self, status: SourceStatus) -> Observer {
        match status {
            SourceStatus::Returned { .. } => self.after_report(status),
            SourceStatus::Cancelled(_) => self.after_report(status),
            SourceStatus::Failed(_) => self.after_report(status),
            _ => self,
        }
    }

    /// A report of a source whose worker has ended.
    pub fn late_report(&mut self, status: SourceStatus)
        ensures
            *final(self) == old(self).after_late_report(status),
    {
        match status {
            SourceStatus::Returned { position } => {
                self.source_reported(SourceStatus::Returned { position });
            },
            SourceStatus::Cancelled(reason) => {
                self.source_reported(SourceStatus::Cancelled(reason));
            },
            SourceStatus::Failed(reason) => {
                self.source_reported(SourceStatus::Failed(reason));
            },
            _ => {},
        }
    }

    pub open spec fn after_displays(self, unchanged: bool) -> Observer {
        match self.running {
            Some(running) => if unchanged {
                self
            } else {
                Observer {
                    enabled: false,
                    running: Some(Running { failed: true, ..running }),
                    notice: Notice::DisplaysChanged,
                    ..self
                }
            },
            None => self,
        }
    }

    /// The displays were looked at during a crossing. When they changed, the
    /// crossing has to be stopped and sharing is off.
    pub fn displays_checked(&mut self, unchanged: bool) -> (stop: bool)
        ensures
            stop == (old(self).running is Some && !unchanged),
            *final(self) == old(self).after_displays(unchanged),
    {
        let mut running = match self.running {
            Some(running) => running,
            None => return false,
        };
        if unchanged {
            return false;
        }
        running.failed = true;
        self.enabled = false;
        self.running = Some(running);
        self.notice = Notice::DisplaysChanged;
        true
    }

    /// A crossing is prepared and nothing is wrong with it.
    pub open spec fn preparing(self) -> bool {
        self.running matches Some(running) && !running.capturing && !running.failed
            && !running.cancelled
    }

    pub open spec fn after_pointer(self, left_edge: bool) -> Observer {
        if self.preparing() && left_edge {
            Observer {
                running: Some(Running { cancelled: true, ..self.running->0 }),
                notice: Notice::CursorLeft,
                ..self
            }
        } else {
            self
        }
    }

    /// The pointer was looked at while a crossing is prepared. When it left the
    /// edge, the crossing has to be stopped; sharing stays armed.
    pub fn pointer_checked(&mut self, left_edge: bool) -> (stop: bool)
        ensures
            stop == (old(self).preparing() && left_edge),
            *final(self) == old(self).after_pointer(left_edge),
    {
        let mut running = match self.running {
            Some(running) => running,
            None => return false,
        };
        if running.capturing || running.failed || running.cancelled || !left_edge {
            return false;
        }
        running.cancelled = true;
        self.running = Some(running);
        self.notice = Notice::CursorLeft;
        true
    }

    /// The state after a crossing's worker ended.
    pub open spec fn finished(&self, running: Running, panicked: bool) -> Observer {
        let (enabled, notice) = if panicked {
            (false, Notice::WorkerStopped)
        } else if running.failed {
            (false, self.notice)
        } else if running.cancelled && self.enabled {
            (true, self.notice)
        } else if running.returned is Some && self.enabled {
            (true, Notice::Rearmed)
        } else {
            (false, Notice::OffLocal)
        };
        Observer { enabled, running: None, previous: None, notice }
    }

    pub open spec fn after_worker(self, panicked: bool) -> Observer {
        match self.running {
            Some(running) => self.finished(running, panicked),
            None => self,
        }
    }

    /// The worker of the crossing ended, and all its reports have been read.
    /// The edges stay armed after a return or a cancellation, and after
    /// nothing else.
    pub fn worker_finished(&mut self, panicked: bool)
        ensures
            *final(self) == old(self).after_worker(panicked),
    {
        let running = match self.running {
            Some(running) => running,
            None => return,
        };
        self.running = None;
        self.previous = None;
        if panicked {
            self.enabled = false;
            self.notice = Notice::WorkerStopped;
        } else if running.failed {
            self.enabled = false;
        } else if running.cancelled && self.enabled {
        } else if running.returned.is_some() && self.enabled {
            self.notice = Notice::Rearmed;
        } else {
            self.enabled = false;
            self.notice = Notice::OffLocal;
        }
    }

    /// The edges are watched: sharing is enabled and no crossing is under way.
    pub open spec fn watching(&self) -> bool {
        self.enabled && self.running is None
    }

    pub fn is_watching(&self) -> (result: bool)
        ensures
            result == self.watching(),
    {
        self.enabled && self.running.is_none()
    }

    /// One round of watching. Reports come first, then a look at the displays and
    /// the pointer, then the end of the crossing's worker.
    pub fn tick(&mut self, facts: TickFacts) -> (outcome: TickOutcome)
        ensures
            ({
                let reported = old(self).after_reports(facts.reports@);
                let displayed = reported.after_displays(facts.displays_unchanged);
                &&& outcome.stop == ((reported.running is Some && !facts.displays_unchanged) || (
                displayed.preparing() && facts.left_edge))
                &&& *final(self) == old(self).after_tick(facts)
                &&& outcome.observe == final(self).watching()
            }),
    {
        let TickFacts { reports, displays_unchanged, left_edge, ended } = facts;
        let mut reports = reports;
        let ghost all = reports@;
        let mut count: usize = 0;
        let total: usize = reports.len();
        assert(all.take(0) =~= Seq::empty());
        assert(all.skip(0) =~= all);
        while count < total
            invariant
                total == all.len(),
                count <= total,
                reports@ == all.skip(count as int),
                *self == old(self).after_reports(all.take(count as int)),
            decreases total - count,
        {
            let status = reports.remove(0);
            self.source_reported(status);
            proof {
                assert(all.take(count + 1).drop_last() =~= all.take(count as int));
                assert(all.take(count + 1).last() == status);
                assert(reports@ =~= all.skip(count + 1));
            }
            count = count + 1;
        }
        assert(all.take(count as int) =~= all);
        let displays_stop = self.displays_checked(displays_unchanged);
        let pointer_stop = self.pointer_checked(left_edge);
        if let Some(ended) = ended {
            let mut late = ended.late_reports;
            let ghost start = *self;
            let ghost all_late = late@;
            let mut read: usize = 0;
            let late_total: usize = late.len();
            assert(all_late.take(0) =~= Seq::empty());
            assert(all_late.skip(0) =~= all_late);
            while read < late_total
                invariant
                    late_total == all_late.len(),
                    read <= late_total,
                    late@ == all_late.skip(read as int),
                    *self == start.after_late_reports(all_late.take(read as int)),
                decreases late_total - read,
            {
                let status = late.remove(0);
                self.late_report(status);
                proof {
                    assert(all_late.take(read + 1).drop_last() =~= all_late.take(read as int));
                    assert(all_late.take(read + 1).last() == status);
                    assert(late@ =~= all_late.skip(read + 1));
                }
                read = read + 1;
            }
            assert(all_late.take(read as int) =~= all_late);
            self.worker_finished(ended.panicked);
        }
        TickOutcome { stop: displays_stop || pointer_stop, observe: self.is_watching() }
    }

    /// The pointer was seen. Gives where it was before, if a crossing between
    /// the two places may start: nothing may be held.
    pub fn pointer_seen(&mut self, current: Point, neutral: bool) -> (from: Option<Point>)
        ensures
            from == if neutral {
                old(self).previous
            } else {
                None
            },
            *final(self) == (Observer { previous: Some(current), ..*old(self) }),
    {
        let previous = self.previous;
        self.previous = Some(current);
        if neutral {
            previous
        } else {
            None
        }
    }

    /// A crossing started.
    pub fn crossing_started(&mut self)
        ensures
            *final(self) == (Observer {
                running: Some(
                    Running { returned: None, failed: false, cancelled: false, capturing: false },
                ),
                notice: Notice::Connecting,
                ..*old(self)
            }),
    {
        self.running = Some(
            Running { returned: None, failed: false, cancelled: false, capturing: false },
        );
        self.notice = Notice::Connecting;
    }

    /// The edges could not be watched, or a crossing could not start.
    pub fn observation_failed(&mut self, reason: String)
        ensures
            *final(self) == (Observer {
                enabled: false,
                previous: None,
                notice: Notice::ObservationFailed(reason),
                running: old(self).running,
            }),
    {
        self.enabled = false;
        self.previous = None;
        self.notice = Notice::ObservationFailed(reason);
    }
}

impl Observer {
    pub open spec fn after_reports(self, reports: Seq<SourceStatus>) -> Observer
        decreases reports.len(),
    {
        if reports.len() == 0 {
            self
        } else {
            self.after_reports(reports.drop_last()).after_report(reports.last())
        }
    }

    pub open spec fn after_late_reports(self, reports: Seq<SourceStatus>) -> Observer
        decreases reports.len(),
    {
        if reports.len() == 0 {
            self
        } else {
            self.after_late_reports(reports.drop_last()).after_late_report(reports.last())
        }
    }

    /// The state after one round of watching.
    pub open spec fn after_tick(self, facts: TickFacts) -> Observer {
        let looked = self.after_reports(facts.reports@).after_displays(
            facts.displays_unchanged,
        ).after_pointer(facts.left_edge);
        match facts.ended {
            Some(ended) => looked.after_late_reports(ended.late_reports@).after_worker(
                ended.panicked,
            ),
            None => looked,
        }
    }
}

/// Once sharing is turned off, the end of the crossing leaves it inactive,
/// whatever the crossing came to.
pub proof fn stopping_ends_sharing(observer: Observer, running: Running, panicked: bool)
    requires
        !observer.enabled,
    ensures
        !observer.finished(running, panicked).active(),
{
}

/// A crossing that failed turns sharing off.
pub proof fn failures_turn_sharing_off(observer: Observer, running: Running, panicked: bool)
    requires
        running.failed || panicked,
    ensures
        !observer.finished(running, panicked).active(),
{
}

/// Reports that are read after the worker ended do not say that the crossing
/// goes on.
pub proof fn late_reports_only_tell_the_outcome(observer: Observer, status: SourceStatus)
    ensures
        ({
            let after = observer.after_late_report(status);
            &&& after.enabled == observer.enabled
            &&& after.previous == observer.previous
            &&& after.running is Some == observer.running is Some
            &&& observer.running is Some ==> after.running->0.capturing
                == observer.running->0.capturing
            &&& after.notice != observer.notice ==> after.notice is Cancelled
                || after.notice is Failed
        }),
{
}

/// A failure is remembered to the end of the crossing, whatever is reported
/// after it.
pub proof fn failures_are_remembered(running: Running, status: SourceStatus)
    requires
        running.failed,
    ensures
        Observer::running_after(running, status).failed,
{
}

/// The watch goes on after a worker's end exactly if it is wanted and the worker
/// ended well: by a return or a cancelled crossing, and not by a failure. Then no
/// worker runs.
pub proof fn only_good_ends_keep_the_watch(observer: Observer, panicked: bool)
    requires
        observer.running is Some,
    ensures
        observer.after_worker(panicked).watching() <==> {
            &&& !panicked
            &&& observer.enabled
            &&& !observer.running->0.failed
            &&& observer.running->0.cancelled || observer.running->0.returned is Some
        },
        observer.after_worker(panicked).running is None,
        observer.after_worker(panicked).previous is None,
{
}

/// What a worker reports is kept: that it shares, where the cursor came back, that it
/// failed, and, unless it failed before, that the crossing was cancelled. Nothing
/// else of the watch changes.
pub proof fn reports_are_kept(observer: Observer, status: SourceStatus)
    requires
        observer.running is Some,
    ensures
        ({
            let before = observer.running->0;
            let after = observer.after_report(status);
            let now = after.running->0;
            &&& after.running is Some
            &&& after.enabled == observer.enabled
            &&& after.previous == observer.previous
            &&& now.capturing <==> before.capturing || status is Sharing
            &&& now.failed <==> before.failed || status is Failed
            &&& now.cancelled <==> before.cancelled || (status is Cancelled && !before.failed)
            &&& now.returned == (if status is Returned {
                Some(status->position)
            } else {
                before.returned
            })
        }),
{
}

/// Changed displays end the sharing for good, whatever is reported late; a cursor
/// that leaves the edge ends only this crossing.
pub proof fn changed_displays_end_sharing(
    observer: Observer,
    status: SourceStatus,
    panicked: bool,
)
    requires
        observer.running is Some,
    ensures
        !observer.after_displays(false).after_late_report(status).after_worker(panicked).active(),
        observer.after_displays(true) == observer,
        observer.preparing() ==> observer.after_pointer(true).after_worker(false).enabled
            == observer.enabled,
        !observer.preparing() ==> observer.after_pointer(true) == observer,
        observer.after_pointer(false) == observer,
        !observer.after_pointer(true).preparing(),
{
}

/// Reports are taken one after the other, and with nothing to tell, the displays as
/// they were and the cursor at the edge, a tick changes nothing.
pub proof fn quiet_ticks_change_nothing(
    observer: Observer,
    first: Seq<SourceStatus>,
    second: Seq<SourceStatus>,
    facts: TickFacts,
)
    ensures
        observer.after_reports(first + second) == observer.after_reports(first).after_reports(
            second,
        ),
        observer.after_late_reports(first + second) == observer.after_late_reports(
            first,
        ).after_late_reports(second),
        facts.reports@.len() == 0 && facts.displays_unchanged && !facts.left_edge && facts.ended
            is None ==> observer.after_tick(facts) == observer,
        facts.ended is Some ==> observer.after_tick(facts).running is None,
    decreases second.len(),
{
    if second.len() == 0 {
        assert(first + second =~= first);
    } else {
        quiet_ticks_change_nothing(observer, first, second.drop_last(), facts);
        assert((first + second).drop_last() =~= first + second.drop_last());
    }
}

/// Sharing is possible only if every computer that lies beside this one is paired and
/// may receive input.
pub proof fn neighbours_may_receive_input(
    monitors: Seq<MonitorModel>,
    paired: Map<Seq<char>, PeerModel>,
    source: int,
    target: int,
)
    requires
        0 <= source < monitors.len() <= usize::MAX,
        0 <= target < monitors.len(),
        monitors[source].peer is None,
        monitors[target].peer is Some,
        link(monitors, source, target) is Some,
        forall|i: int|
            0 <= i < all_links(monitors, monitors.len() as int).len() ==> !way_error(
                monitors,
                paired,
                #[trigger] all_links(monitors, monitors.len() as int)[i],
            ),
    ensures
        paired.dom().contains(monitors[target].peer->0),
        paired[monitors[target].peer->0].permissions.connect,
        paired[monitors[target].peer->0].permissions.receive_normal,
{
    let ways = all_links(monitors, monitors.len() as int);
    let way = link(monitors, source, target)->0;
    every_crossing_is_listed(monitors, source, target, monitors.len() as int);
    let i = choose|i: int| 0 <= i < ways.len() && ways[i] == way;
    assert(!way_error(monitors, paired, ways[i]));
}

} // verus!
