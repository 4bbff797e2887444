//! Decisions of the Linux input runtime.
//!
//! The runtime loop owns descriptors, queues and clocks. It reports what
//! happened to [`RuntimeCore`] and carries out the actions that come back, in
//! order.
use vstd::prelude::*;

use super::chords::{configured_chord, named_codes, ChordError, ConfiguredChord};
use super::readiness::{ReadinessPaths, VirtualDeviceReadiness};
use super::selection::{select_configured, CaptureSelection};
use crate::config::{copy_selectors, selector_models, Config, DeviceSelector};
use crate::input::{keyboard_usage, HidUsage, Modifier, MotionDelta, PointerButton, TouchState};
use crate::linux::devices::{device_models, DeviceInfo, DeviceScan};
use crate::linux::ownership::OwnershipPhase;
use crate::lists::copy_texts;
use crate::paths::path_of;
use crate::scan::views;
use crate::session::messages::ReceiverEffect;

verus! {

/// Commands handled before descriptors and timers get their turn again.
pub const MAX_COMMANDS_PER_TICK: usize = 256;

/// Longest sleep of the idle loop, in nanoseconds.
pub const MAX_IDLE_POLL: u64 = 2_000_000_000;

// ---------------------------------------------------------------------------
// Configuration
// ---------------------------------------------------------------------------

#[derive(Debug)]
pub struct LinuxRuntimeConfig {
    pub capture_devices: Vec<DeviceSelector>,
    pub activation_chord: Vec<String>,
    pub escape_chord: Vec<String>,
    pub experimental_touchpad: bool,
    /// Nanoseconds between device rescans.
    pub rescan_interval: u64,
    /// Nanoseconds between readiness probes.
    pub readiness_probe_interval: u64,
    pub command_capacity: usize,
    pub event_capacity: usize,
    pub capture_capacity: usize,
    pub readiness_paths: ReadinessPaths,
}

#[derive(Debug, PartialEq, Eq)]
pub enum LinuxRuntimeError {
    InvalidConfig(ConfigProblem),
    /// The input poller could not be created.
    Poll(String),
    /// The input thread could not be started.
    Spawn(String),
    Startup(RuntimeStartupError),
    /// The runtime exited during startup.
    StartupChannelClosed,
    ThreadPanicked,
    /// The virtual devices could not be replaced during reload.
    ReloadVirtualInput(String),
}

#[derive(Debug, PartialEq, Eq)]
pub enum RuntimeStartupError {
    VirtualInput(String),
    DeviceScan(String),
    Capture(String),
    Register(String),
}

#[derive(Clone, Copy, Debug, PartialEq, Eq, Structural)]
pub enum RuntimeCommandError {
    /// The command queue is full.
    Full,
    /// The runtime has stopped.
    Stopped,
    /// The runtime could not be woken.
    Wake,
}

/// What is wrong with a runtime configuration.
#[derive(Clone, Copy, Debug, PartialEq, Eq, Structural)]
pub enum ConfigProblem {
    /// The device rescan interval must be non-zero.
    ZeroRescanInterval,
    /// The readiness probe interval must be non-zero.
    ZeroProbeInterval,
    /// Channel capacities must be non-zero.
    ZeroCapacity,
    Chord(ChordError),
}

pub open spec fn chord_problem(names: Seq<String>) -> Option<ConfigProblem> {
    match configured_chord(named_codes(views(names))) {
        Ok(_) => None,
        Err(error) => Some(ConfigProblem::Chord(error)),
    }
}

impl LinuxRuntimeConfig {
    /// The first problem of a configuration.
    pub open spec fn problem(&self) -> Option<ConfigProblem> {
        if self.rescan_interval == 0 {
            Some(ConfigProblem::ZeroRescanInterval)
        } else if self.readiness_probe_interval == 0 {
            Some(ConfigProblem::ZeroProbeInterval)
        } else if self.command_capacity == 0 || self.event_capacity == 0 || self.capture_capacity
            == 0 {
            Some(ConfigProblem::ZeroCapacity)
        } else if chord_problem(self.activation_chord@) is Some {
            chord_problem(self.activation_chord@)
        } else {
            chord_problem(self.escape_chord@)
        }
    }

    /// The settings that the runtime takes from the configuration file; the
    /// rest keeps its default.
    pub fn from_config(config: &Config) -> (result: Self)
        ensures
            selector_models(result.capture_devices@) == selector_models(
                config.input.capture_devices@,
            ),
            views(result.activation_chord@) == views(config.input.activation_chord@),
            views(result.escape_chord@) == views(config.input.escape_chord@),
            result.experimental_touchpad == config.input.experimental_touchpad,
            result.has_default_limits(),
    {
        let mut result = LinuxRuntimeConfig::default();
        result.capture_devices = copy_selectors(&config.input.capture_devices);
        result.activation_chord = copy_texts(&config.input.activation_chord);
        result.escape_chord = copy_texts(&config.input.escape_chord);
        result.experimental_touchpad = config.input.experimental_touchpad;
        result
    }

    pub open spec fn has_default_limits(&self) -> bool {
        &&& self.rescan_interval == 2_000_000_000
        &&& self.readiness_probe_interval == 25_000_000
        &&& self.command_capacity == 256
        &&& self.event_capacity == 256
        &&& self.capture_capacity == 1024
        &&& self.readiness_paths.input_dir@ == "/dev/input"@
        &&& self.readiness_paths.sys_class_input_dir@ == "/sys/class/input"@
        &&& self.readiness_paths.udev_database_dir@ == "/run/udev/data"@
    }

    pub fn validate(&self) -> (result: Result<(), LinuxRuntimeError>)
        ensures
            match self.problem() {
                Some(problem) => result == Err::<(), LinuxRuntimeError>(
                    LinuxRuntimeError::InvalidConfig(problem),
                ),
                None => result is Ok,
            },
    {
        if self.rescan_interval == 0 {
            return Err(LinuxRuntimeError::InvalidConfig(ConfigProblem::ZeroRescanInterval));
        }
        if self.readiness_probe_interval == 0 {
            return Err(LinuxRuntimeError::InvalidConfig(ConfigProblem::ZeroProbeInterval));
        }
        if self.command_capacity == 0 || self.event_capacity == 0 || self.capture_capacity == 0 {
            return Err(LinuxRuntimeError::InvalidConfig(ConfigProblem::ZeroCapacity));
        }
        if let Err(error) = ConfiguredChord::parse(&self.activation_chord) {
            return Err(LinuxRuntimeError::InvalidConfig(ConfigProblem::Chord(error)));
        }
        if let Err(error) = ConfiguredChord::parse(&self.escape_chord) {
            return Err(LinuxRuntimeError::InvalidConfig(ConfigProblem::Chord(error)));
        }
        Ok(())
    }
}

fn chord_names(first: &str, second: &str, third: &str) -> (result: Vec<String>)
    ensures
        views(result@) == seq![first@, second@, third@],
{
    let mut names: Vec<String> = Vec::new();
    names.push(first.to_owned());
    names.push(second.to_owned());
    names.push(third.to_owned());
    assert(views(names@) =~= seq![first@, second@, third@]);
    names
}

impl Default for LinuxRuntimeConfig {
    fn default() -> (result: Self)
        ensures
            result.capture_devices@.len() == 0,
            views(result.activation_chord@) == seq![
                "KEY_LEFTCTRL"@,
                "KEY_LEFTMETA"@,
                "KEY_F12"@,
            ],
            views(result.escape_chord@) == seq![
                "KEY_LEFTCTRL"@,
                "KEY_LEFTMETA"@,
                "KEY_BACKSPACE"@,
            ],
            !result.experimental_touchpad,
            result.has_default_limits(),
    {
        LinuxRuntimeConfig {
            capture_devices: Vec::new(),
            activation_chord: chord_names("KEY_LEFTCTRL", "KEY_LEFTMETA", "KEY_F12"),
            escape_chord: chord_names("KEY_LEFTCTRL", "KEY_LEFTMETA", "KEY_BACKSPACE"),
            experimental_touchpad: false,
            rescan_interval: 2_000_000_000,
            readiness_probe_interval: 25_000_000,
            command_capacity: 256,
            event_capacity: 256,
            capture_capacity: 1024,
            readiness_paths: ReadinessPaths::default(),
        }
    }
}

// ---------------------------------------------------------------------------
// Capture diagnostics
// ---------------------------------------------------------------------------

/// Read-only capture resolution used by setup diagnostics.
///
/// It shares the runtime's exact all-or-none selector rules, so a setup check
/// cannot claim a configuration is usable when the daemon would refuse it.
#[derive(Debug, PartialEq, Eq)]
pub struct CaptureSelectionDiagnostic {
    pub selected_paths: Vec<String>,
    pub configured: usize,
    pub unmatched: usize,
    pub ambiguous: usize,
    pub scan_failures: usize,
}

impl CaptureSelectionDiagnostic {
    pub fn is_complete(&self) -> (result: bool)
        ensures
            result == (self.configured > 0 && self.unmatched == 0 && self.ambiguous == 0),
    {
        self.configured > 0 && self.unmatched == 0 && self.ambiguous == 0
    }

    /// Describes how `selection` resolved.
    pub open spec fn describes(&self, selection: CaptureSelection, failures: int) -> bool {
        &&& self.configured == selection.configured
        &&& self.unmatched == selection.unmatched
        &&& self.ambiguous == selection.ambiguous
        &&& self.scan_failures == failures
        &&& self.selected_paths@.len() == if selection.complete() {
            selection.selected@.len()
        } else {
            0
        }
        &&& forall|i: int|
            0 <= i < self.selected_paths@.len() ==> path_of((#[trigger] self.selected_paths@[i])@)
                == selection.selected@[i]@.path
    }
}

pub fn diagnose_capture_selection(selectors: &Vec<DeviceSelector>, scan: &DeviceScan) -> (result:
    CaptureSelectionDiagnostic)
    requires
        2 * selectors@.len() <= usize::MAX,
    ensures
        exists|selection: CaptureSelection|
            {
                &&& #[trigger] selection.resolves(
                    selector_models(selectors@),
                    device_models(scan.devices@),
                )
                &&& result.describes(selection, scan.failures@.len() as int)
            },
{
    let selection = select_configured(selectors, &scan.devices);
    let captured: Vec<DeviceInfo> = selection.capture_set();
    let mut selected_paths: Vec<String> = Vec::new();
    let mut at: usize = 0;
    while at < captured.len()
        invariant
            at <= captured@.len(),
            selected_paths@.len() == at,
            forall|i: int|
                0 <= i < at ==> path_of((#[trigger] selected_paths@[i])@) == captured@[i]@.path,
        decreases captured@.len() - at,
    {
        selected_paths.push(captured[at].path.clone());
        at = at + 1;
    }
    let result = CaptureSelectionDiagnostic {
        selected_paths,
        configured: selection.configured,
        unmatched: selection.unmatched,
        ambiguous: selection.ambiguous,
        scan_failures: scan.failures.len(),
    };
    proof {
        assert(device_models(captured@).len() == captured@.len());
        assert(device_models(selection.selected@).len() == selection.selected@.len());
        assert forall|i: int| 0 <= i < result.selected_paths@.len() implies path_of(
            (#[trigger] result.selected_paths@[i])@,
        ) == selection.selected@[i]@.path by {
            assert(device_models(captured@)[i] == captured@[i]@);
            assert(device_models(selection.selected@)[i] == selection.selected@[i]@);
        }
        assert(result.describes(selection, scan.failures@.len() as int));
    }
    result
}

// ---------------------------------------------------------------------------
// Events, diagnostics and status
// ---------------------------------------------------------------------------

#[derive(Clone, Copy, Debug, PartialEq, Eq, Structural)]
pub enum RuntimeCloseReason {
    LocalRelease,
    TransportLost,
    DeviceRemoved,
    CaptureFault,
    BackendFault,
    Backpressure,
    Suspend,
    Stop,
}

#[derive(Clone, Copy, Debug, PartialEq, Eq, Structural)]
pub enum RuntimeDiagnostic {
    CaptureSelectionIncomplete,
    CaptureOpenFailed,
    CaptureReadFailed,
    CaptureMappingLost,
    GrabFailed,
    UngrabRequiredDescriptorClose,
    CapturedFrameQueueFull,
    InjectionFailed,
    ReadinessProbeFailed,
    ServiceNotificationFailed,
    EventQueueFull,
}

#[derive(Debug, PartialEq, Eq)]
pub enum RuntimeEvent {
    Ready,
    ActivationChord,
    OwnershipChanged {
        phase: OwnershipPhase,
        selected_peer: Option<String>,
        /// Monotonic time of the change.
        changed_at: u64,
        /// Mappable events observed after activation was requested but before
        /// the devices were grabbed.
        arming_leakage_events: u64,
    },
    TerminalRequested,
    ActivationClosed(RuntimeCloseReason),
    ReceiverStateReleased(RuntimeCloseReason),
    Diagnostic(RuntimeDiagnostic),
    Stopped,
}

#[derive(Debug, PartialEq, Eq)]
pub struct RuntimeDeviceStatus {
    pub path: String,
    pub grabbed: bool,
}

#[derive(Debug, PartialEq, Eq)]
pub struct LinuxRuntimeStatus {
    pub running: bool,
    pub suspended: bool,
    pub ready: bool,
    pub virtual_devices: VirtualDeviceReadiness,
    pub ownership: OwnershipPhase,
    pub selected_peer: Option<String>,
    pub capture_devices: Vec<RuntimeDeviceStatus>,
    pub capture_selection_complete: bool,
    pub unmatched_selectors: usize,
    pub ambiguous_selectors: usize,
    pub dropped_events: u64,
    pub dropped_capture_frames: u64,
    pub last_diagnostic: Option<RuntimeDiagnostic>,
}

impl Default for LinuxRuntimeStatus {
    fn default() -> (result: Self)
        ensures
            !result.running && !result.suspended && !result.ready,
            !result.virtual_devices.keyboard && !result.virtual_devices.pointer,
            result.ownership == OwnershipPhase::Idle,
            result.selected_peer is None,
            result.capture_devices@.len() == 0,
            !result.capture_selection_complete,
            result.unmatched_selectors == 0 && result.ambiguous_selectors == 0,
            result.dropped_events == 0 && result.dropped_capture_frames == 0,
            result.last_diagnostic is None,
    {
        LinuxRuntimeStatus {
            running: false,
            suspended: false,
            ready: false,
            virtual_devices: VirtualDeviceReadiness::default(),
            ownership: OwnershipPhase::Idle,
            selected_peer: None,
            capture_devices: Vec::new(),
            capture_selection_complete: false,
            unmatched_selectors: 0,
            ambiguous_selectors: 0,
            dropped_events: 0,
            dropped_capture_frames: 0,
            last_diagnostic: None,
        }
    }
}

impl LinuxRuntimeStatus {
    /// Records that an event found no room in its queue.
    pub fn event_dropped(&mut self)
        ensures
            final(self).dropped_events == if old(self).dropped_events < u64::MAX {
                old(self).dropped_events + 1
            } else {
                u64::MAX as int
            },
            final(self).last_diagnostic == Some(RuntimeDiagnostic::EventQueueFull),
            *final(self) == (LinuxRuntimeStatus {
                dropped_events: final(self).dropped_events,
                last_diagnostic: final(self).last_diagnostic,
                ..*old(self)
            }),
    {
        self.dropped_events = self.dropped_events.saturating_add(1);
        self.last_diagnostic = Some(RuntimeDiagnostic::EventQueueFull);
    }

    /// Records that a captured frame found no room in its queue.
    pub fn capture_frame_dropped(&mut self)
        ensures
            final(self).dropped_capture_frames == if old(self).dropped_capture_frames < u64::MAX {
                old(self).dropped_capture_frames + 1
            } else {
                u64::MAX as int
            },
            *final(self) == (LinuxRuntimeStatus {
                dropped_capture_frames: final(self).dropped_capture_frames,
                ..*old(self)
            }),
    {
        self.dropped_capture_frames = self.dropped_capture_frames.saturating_add(1);
    }
}

/// Why an activation cannot start.
pub fn activation_capture_blocker(selection_complete: bool, capture_empty: bool) -> (result: Option<
    RuntimeDiagnostic,
>)
    ensures
        result == blocker_spec(selection_complete, capture_empty),
{
    if !selection_complete {
        Some(RuntimeDiagnostic::CaptureSelectionIncomplete)
    } else if capture_empty {
        Some(RuntimeDiagnostic::CaptureOpenFailed)
    } else {
        None
    }
}

pub open spec fn blocker_spec(selection_complete: bool, capture_empty: bool) -> Option<
    RuntimeDiagnostic,
> {
    if !selection_complete {
        Some(RuntimeDiagnostic::CaptureSelectionIncomplete)
    } else if capture_empty {
        Some(RuntimeDiagnostic::CaptureOpenFailed)
    } else {
        None
    }
}

/// An incomplete selection is reported once, when it becomes incomplete.
pub fn capture_selection_diagnostic(previous_complete: Option<bool>, current_complete: bool) -> (
    result: Option<RuntimeDiagnostic>)
    ensures
        result == if !current_complete && previous_complete != Some(false) {
            Some(RuntimeDiagnostic::CaptureSelectionIncomplete)
        } else {
            None
        },
{
    if !current_complete && previous_complete != Some(false) {
        Some(RuntimeDiagnostic::CaptureSelectionIncomplete)
    } else {
        None
    }
}

pub fn selection_loss_closes_activation(phase: OwnershipPhase, selection_complete: bool) -> (result:
    bool)
    ensures
        result == (!selection_complete && phase != OwnershipPhase::Idle),
{
    !selection_complete && phase != OwnershipPhase::Idle
}

// ---------------------------------------------------------------------------
// Timers
// ---------------------------------------------------------------------------

/// Half of the service manager's deadline, and never zero. Nanoseconds.
pub fn watchdog_tick_interval(watchdog_timeout: Option<u64>) -> (result: Option<u64>)
    ensures
        match watchdog_timeout {
            Some(timeout) => result == Some(
                if timeout / 2 == 0 {
                    1_000u64
                } else {
                    (timeout / 2) as u64
                },
            ),
            None => result is None,
        },
{
    match watchdog_timeout {
        Some(timeout) => {
            let half: u64 = timeout / 2;
            if half == 0 {
                Some(1_000)
            } else {
                Some(half)
            }
        },
        None => None,
    }
}

/// Deadlines of the runtime loop, in nanoseconds of a monotonic clock.
#[derive(Clone, Copy, Debug, PartialEq, Eq, Structural)]
pub struct RuntimeTimers {
    pub next_rescan: u64,
    pub next_readiness_probe: u64,
    pub next_watchdog: Option<u64>,
    pub watchdog_period: Option<u64>,
    pub rescan_interval: u64,
    pub readiness_probe_interval: u64,
}

/// Work that has a deadline, in the order in which it is done.
#[derive(Clone, Copy, Debug, PartialEq, Eq, Structural)]
pub enum TimedWork {
    Watchdog,
    Rescan,
    ReadinessProbe,
}

impl TimedWork {
    pub open spec fn place(self) -> int {
        match self {
            TimedWork::Watchdog => 0,
            TimedWork::Rescan => 1,
            TimedWork::ReadinessProbe => 2,
        }
    }

    /// The work has its turn behind `after` in one round.
    pub open spec fn follows(self, after: Option<TimedWork>) -> bool {
        after matches Some(earlier) ==> earlier.place() < self.place()
    }
}

pub open spec fn earlier(left: int, right: int) -> int {
    if left < right {
        left
    } else {
        right
    }
}

fn min_time(left: u64, right: u64) -> (result: u64)
    ensures
        result == earlier(left as int, right as int),
{
    if left < right {
        left
    } else {
        right
    }
}

impl RuntimeTimers {
    pub fn new(
        now: u64,
        watchdog_period: Option<u64>,
        rescan_interval: u64,
        readiness_probe_interval: u64,
    ) -> (result: Self)
        requires
            watchdog_period matches Some(period) ==> now + period <= u64::MAX,
        ensures
            result == (RuntimeTimers {
                next_rescan: now,
                next_readiness_probe: now,
                next_watchdog: match watchdog_period {
                    Some(period) => Some((now + period) as u64),
                    None => None,
                },
                watchdog_period,
                rescan_interval,
                readiness_probe_interval,
            }),
    {
        let next_watchdog = match watchdog_period {
            Some(period) => Some(now + period),
            None => None,
        };
        RuntimeTimers {
            next_rescan: now,
            next_readiness_probe: now,
            next_watchdog,
            watchdog_period,
            rescan_interval,
            readiness_probe_interval,
        }
    }

    pub open spec fn due(self, work: TimedWork, now: u64, suspended: bool, ready: bool) -> bool {
        match work {
            TimedWork::Watchdog => self.next_watchdog matches Some(deadline) && now >= deadline,
            TimedWork::Rescan => !suspended && now >= self.next_rescan,
            TimedWork::ReadinessProbe => !ready && now >= self.next_readiness_probe,
        }
    }

    /// The next work of a round in which `after` was done last. Each kind of work
    /// is done once a round at most.
    pub fn next_work(
        &self,
        after: Option<TimedWork>,
        now: u64,
        suspended: bool,
        ready: bool,
    ) -> (result: Option<TimedWork>)
        ensures
            match result {
                Some(work) => {
                    &&& work.follows(after)
                    &&& self.due(work, now, suspended, ready)
                    &&& forall|other: TimedWork| #[trigger]
                        other.follows(after) && other.place() < work.place() ==> !self.due(
                            other,
                            now,
                            suspended,
                            ready,
                        )
                },
                None => forall|other: TimedWork| #[trigger]
                    other.follows(after) ==> !self.due(other, now, suspended, ready),
            },
    {
        let watchdog = match self.next_watchdog {
            Some(deadline) => now >= deadline,
            None => false,
        };
        if after.is_none() && watchdog {
            return Some(TimedWork::Watchdog);
        }
        let before_rescan = match after {
            None => true,
            Some(TimedWork::Watchdog) => true,
            _ => false,
        };
        if before_rescan && !suspended && now >= self.next_rescan {
            return Some(TimedWork::Rescan);
        }
        let before_probe = match after {
            Some(TimedWork::ReadinessProbe) => false,
            _ => true,
        };
        if before_probe && !ready && now >= self.next_readiness_probe {
            return Some(TimedWork::ReadinessProbe);
        }
        None
    }

    /// Work of the round that began at `now` was done. Its next turn is counted
    /// from then, also if it was asked for while it was being done.
    pub fn work_done(&mut self, work: TimedWork, now: u64)
        requires
            old(self).watchdog_period matches Some(period) ==> now + period <= u64::MAX,
            now + old(self).rescan_interval <= u64::MAX,
            now + old(self).readiness_probe_interval <= u64::MAX,
        ensures
            *final(self) == match work {
                TimedWork::Watchdog => RuntimeTimers {
                    next_watchdog: match old(self).watchdog_period {
                        Some(period) => Some((now + period) as u64),
                        None => None,
                    },
                    ..*old(self)
                },
                TimedWork::Rescan => RuntimeTimers {
                    next_rescan: (now + old(self).rescan_interval) as u64,
                    ..*old(self)
                },
                TimedWork::ReadinessProbe => RuntimeTimers {
                    next_readiness_probe: (now + old(self).readiness_probe_interval) as u64,
                    ..*old(self)
                },
            },
    {
        match work {
            TimedWork::Watchdog => {
                self.next_watchdog = match self.watchdog_period {
                    Some(period) => Some(now + period),
                    None => None,
                };
            },
            TimedWork::Rescan => {
                self.next_rescan = now + self.rescan_interval;
            },
            TimedWork::ReadinessProbe => {
                self.next_readiness_probe = now + self.readiness_probe_interval;
            },
        }
    }

    /// The next moment at which something is due.
    pub open spec fn next_deadline(self, now: u64, suspended: bool, ready: bool) -> int {
        let idle = now + MAX_IDLE_POLL;
        let rescan = if suspended {
            idle
        } else {
            earlier(idle, self.next_rescan as int)
        };
        let probe = if ready {
            rescan
        } else {
            earlier(rescan, self.next_readiness_probe as int)
        };
        match self.next_watchdog {
            Some(deadline) => earlier(probe, deadline as int),
            None => probe,
        }
    }

    /// How long the loop may sleep.
    pub fn poll_timeout(&self, now: u64, suspended: bool, ready: bool) -> (result: u64)
        requires
            now + MAX_IDLE_POLL <= u64::MAX,
        ensures
            result == if self.next_deadline(now, suspended, ready) > now {
                self.next_deadline(now, suspended, ready) - now
            } else {
                0
            },
            result <= MAX_IDLE_POLL,
    {
        let mut next: u64 = now + MAX_IDLE_POLL;
        if !suspended {
            next = min_time(next, self.next_rescan);
        }
        if !ready {
            next = min_time(next, self.next_readiness_probe);
        }
        if let Some(watchdog) = self.next_watchdog {
            next = min_time(next, watchdog);
        }
        next.saturating_sub(now)
    }

    /// A full command batch must not starve descriptors or the watchdog: the
    /// next poll returns at once.
    pub fn commands_drained(&mut self, handled: usize, now: u64)
        ensures
            *final(self) == (RuntimeTimers {
                next_rescan: if handled >= MAX_COMMANDS_PER_TICK {
                    earlier(old(self).next_rescan as int, now as int) as u64
                } else {
                    old(self).next_rescan
                },
                ..*old(self)
            }),
    {
        if handled >= MAX_COMMANDS_PER_TICK {
            self.next_rescan = min_time(self.next_rescan, now);
        }
    }

    /// Asks for a rescan as soon as possible.
    pub fn rescan_now(&mut self, now: u64)
        ensures
            *final(self) == (RuntimeTimers { next_rescan: now, ..*old(self) }),
    {
        self.next_rescan = now;
    }

    /// Asks for a readiness probe as soon as possible.
    pub fn probe_now(&mut self, now: u64)
        ensures
            *final(self) == (RuntimeTimers { next_readiness_probe: now, ..*old(self) }),
    {
        self.next_readiness_probe = now;
    }
}

// ---------------------------------------------------------------------------
// Receiver effects
// ---------------------------------------------------------------------------

pub fn modifier_usage(modifier: Modifier) -> (result: HidUsage)
    ensures
        result == keyboard_usage((0xe0 + modifier.index()) as u16),
{
    let usage: u16 = match modifier {
        Modifier::LeftControl => 0xe0,
        Modifier::LeftShift => 0xe1,
        Modifier::LeftAlt => 0xe2,
        Modifier::LeftMeta => 0xe3,
        Modifier::RightControl => 0xe4,
        Modifier::RightShift => 0xe5,
        Modifier::RightAlt => 0xe6,
        Modifier::RightMeta => 0xe7,
    };
    HidUsage::keyboard(usage)
}

/// A request to the virtual devices.
#[derive(Debug)]
pub enum Injection {
    Motion(MotionDelta),
    Key { usage: HidUsage, pressed: bool },
    Button { button: PointerButton, pressed: bool },
    Touch(TouchState),
    ReleaseAll,
    Nothing,
}

/// Turns a receiver effect into a request to the virtual devices. Closing an
/// activation releases everything that is held; bookkeeping effects inject
/// nothing.
pub fn route_receiver_effect(effect: ReceiverEffect) -> (result: Injection)
    ensures
        match effect {
            ReceiverEffect::Motion { delta } => result == Injection::Motion(delta),
            ReceiverEffect::Key { key, pressed, .. } => result == (Injection::Key {
                usage: key,
                pressed,
            }),
            ReceiverEffect::Button { button, pressed, .. } => result == (Injection::Button {
                button,
                pressed,
            }),
            ReceiverEffect::Modifier { modifier, pressed, .. } => result == (Injection::Key {
                usage: keyboard_usage((0xe0 + modifier.index()) as u16),
                pressed,
            }),
            ReceiverEffect::TouchReplaced { state, .. } => result == Injection::Touch(state),
            ReceiverEffect::ActivationClosed { .. } => result == Injection::ReleaseAll,
            _ => result == Injection::Nothing,
        },
{
    match effect {
        ReceiverEffect::Motion { delta } => Injection::Motion(delta),
        ReceiverEffect::Key { key, pressed, .. } => Injection::Key { usage: key, pressed },
        ReceiverEffect::Button { button, pressed, .. } => Injection::Button { button, pressed },
        ReceiverEffect::Modifier { modifier, pressed, .. } => Injection::Key {
            usage: modifier_usage(modifier),
            pressed,
        },
        ReceiverEffect::TouchReplaced { state, .. } => Injection::Touch(state),
        ReceiverEffect::ActivationClosed { .. } => Injection::ReleaseAll,
        _ => Injection::Nothing,
    }
}

// ---------------------------------------------------------------------------
// Commands
// ---------------------------------------------------------------------------

/// Commands to the runtime, without what they carry.
#[derive(Clone, Copy, Debug, PartialEq, Eq, Structural)]
pub enum RuntimeCommand {
    Activate,
    Release,
    TerminalSent,
    ReceiverEffects,
    Suspend,
    Resume,
    Reload,
    Stop,
}

#[derive(Clone, Copy, Debug, PartialEq, Eq, Structural)]
pub enum CommandRoute {
    Activate,
    Release,
    TerminalSent,
    Inject,
    Suspend,
    Resume,
    Reload,
    Stop,
    IgnoreWhileSuspended,
}

/// Commands that touch input devices.
pub open spec fn needs_input(command: RuntimeCommand) -> bool {
    command == RuntimeCommand::Activate || command == RuntimeCommand::Release || command
        == RuntimeCommand::TerminalSent || command == RuntimeCommand::ReceiverEffects
}

/// While suspended, commands that touch input devices are ignored.
pub fn route_command(suspended: bool, command: RuntimeCommand) -> (result: CommandRoute)
    ensures
        suspended && needs_input(command) ==> result == CommandRoute::IgnoreWhileSuspended,
        !(suspended && needs_input(command)) ==> result == match command {
            RuntimeCommand::Activate => CommandRoute::Activate,
            RuntimeCommand::Release => CommandRoute::Release,
            RuntimeCommand::TerminalSent => CommandRoute::TerminalSent,
            RuntimeCommand::ReceiverEffects => CommandRoute::Inject,
            RuntimeCommand::Suspend => CommandRoute::Suspend,
            RuntimeCommand::Resume => CommandRoute::Resume,
            RuntimeCommand::Reload => CommandRoute::Reload,
            RuntimeCommand::Stop => CommandRoute::Stop,
        },
{
    match command {
        RuntimeCommand::Stop => CommandRoute::Stop,
        RuntimeCommand::Resume => CommandRoute::Resume,
        RuntimeCommand::Reload => CommandRoute::Reload,
        RuntimeCommand::Suspend => CommandRoute::Suspend,
        _ => if suspended {
            CommandRoute::IgnoreWhileSuspended
        } else {
            match command {
                RuntimeCommand::Activate => CommandRoute::Activate,
                RuntimeCommand::Release => CommandRoute::Release,
                RuntimeCommand::TerminalSent => CommandRoute::TerminalSent,
                _ => CommandRoute::Inject,
            }
        },
    }
}

/// What became of an attempt to put a command into the queue.
#[derive(Clone, Copy, Debug, PartialEq, Eq, Structural)]
pub enum SendAttempt {
    /// The runtime has stopped.
    Stopped,
    /// The command is in the queue; the runtime could be woken, or not.
    Queued { woken: bool },
    /// The queue is full; the runtime could be woken to drain it, or not.
    Full { woken: bool },
}

/// What follows from an attempt to send a critical command.
#[derive(Clone, Copy, Debug, PartialEq, Eq)]
pub enum CriticalStep {
    Finished(Result<(), RuntimeCommandError>),
    /// Wait a moment and try again.
    Retry,
}

/// The result of sending an ordinary command: it is tried once.
pub fn send_result(attempt: SendAttempt) -> (result: Result<(), RuntimeCommandError>)
    ensures
        result == match attempt {
            SendAttempt::Stopped => Err::<(), RuntimeCommandError>(RuntimeCommandError::Stopped),
            SendAttempt::Queued { woken } => if woken {
                Ok(())
            } else {
                Err(RuntimeCommandError::Wake)
            },
            SendAttempt::Full { .. } => Err(RuntimeCommandError::Full),
        },
{
    match attempt {
        SendAttempt::Stopped => Err(RuntimeCommandError::Stopped),
        SendAttempt::Queued { woken } => if woken {
            Ok(())
        } else {
            Err(RuntimeCommandError::Wake)
        },
        SendAttempt::Full { .. } => Err(RuntimeCommandError::Full),
    }
}

/// A critical command outlasts a full queue until its deadline, and no longer.
pub fn critical_step(attempt: SendAttempt, now: u64, deadline: u64) -> (step: CriticalStep)
    ensures
        step == match attempt {
            SendAttempt::Stopped => CriticalStep::Finished(Err(RuntimeCommandError::Stopped)),
            SendAttempt::Queued { woken } => CriticalStep::Finished(
                if woken {
                    Ok(())
                } else {
                    Err(RuntimeCommandError::Wake)
                },
            ),
            SendAttempt::Full { woken } => if now >= deadline {
                CriticalStep::Finished(Err(RuntimeCommandError::Full))
            } else if woken {
                CriticalStep::Retry
            } else {
                CriticalStep::Finished(Err(RuntimeCommandError::Wake))
            },
        },
{
    match attempt {
        SendAttempt::Stopped => CriticalStep::Finished(Err(RuntimeCommandError::Stopped)),
        SendAttempt::Queued { woken } => if woken {
            CriticalStep::Finished(Ok(()))
        } else {
            CriticalStep::Finished(Err(RuntimeCommandError::Wake))
        },
        SendAttempt::Full { woken } => if now >= deadline {
            CriticalStep::Finished(Err(RuntimeCommandError::Full))
        } else if woken {
            CriticalStep::Retry
        } else {
            CriticalStep::Finished(Err(RuntimeCommandError::Wake))
        },
    }
}

/// The runtime sleeps until the next work is due, and two seconds at most: until then
/// nothing is due, and if it sleeps less, something is due when it wakes.
pub proof fn sleep_ends_when_work_is_due(
    timers: RuntimeTimers,
    now: u64,
    suspended: bool,
    ready: bool,
    work: TimedWork,
    later: u64,
)
    ensures
        timers.next_deadline(now, suspended, ready) <= now + 2_000_000_000,
        later < timers.next_deadline(now, suspended, ready) ==> !timers.due(
            work,
            later,
            suspended,
            ready,
        ),
        timers.next_deadline(now, suspended, ready) < now + 2_000_000_000 && later
            >= timers.next_deadline(now, suspended, ready) ==> exists|due: TimedWork| #[trigger]
            timers.due(due, later, suspended, ready),
{
    let deadline = timers.next_deadline(now, suspended, ready);
    if deadline < now + 2_000_000_000 && later >= deadline {
        let due = if timers.next_watchdog matches Some(first) && first == deadline {
            TimedWork::Watchdog
        } else if !suspended && timers.next_rescan == deadline {
            TimedWork::Rescan
        } else {
            TimedWork::ReadinessProbe
        };
        assert(timers.due(due, later, suspended, ready));
    }
}

/// While suspended nothing is looked for, and once ready nothing is probed; the
/// watchdog is told in any case.
pub proof fn only_needed_work_is_due(
    timers: RuntimeTimers,
    now: u64,
    suspended: bool,
    ready: bool,
    deadline: u64,
)
    ensures
        !timers.due(TimedWork::Rescan, now, true, ready),
        !timers.due(TimedWork::ReadinessProbe, now, suspended, true),
        timers.due(TimedWork::Watchdog, now, suspended, ready) == timers.due(
            TimedWork::Watchdog,
            now,
            !suspended,
            !ready,
        ),
        (RuntimeTimers { next_rescan: deadline, ..timers }).due(
            TimedWork::Rescan,
            now,
            false,
            ready,
        ) <==> now >= deadline,
        (RuntimeTimers { next_readiness_probe: deadline, ..timers }).due(
            TimedWork::ReadinessProbe,
            now,
            suspended,
            false,
        ) <==> now >= deadline,
        (RuntimeTimers { next_watchdog: Some(deadline), ..timers }).due(
            TimedWork::Watchdog,
            now,
            suspended,
            ready,
        ) <==> now >= deadline,
        !(RuntimeTimers { next_watchdog: None, ..timers }).due(
            TimedWork::Watchdog,
            now,
            suspended,
            ready,
        ),
{
}

/// A configuration is accepted exactly if it has intervals and room, and two chords.
pub proof fn configurations_are_accepted_exactly_so(config: LinuxRuntimeConfig)
    ensures
        config.problem() is None <==> {
            &&& config.rescan_interval > 0 && config.readiness_probe_interval > 0
            &&& config.command_capacity > 0 && config.event_capacity > 0 && config.capture_capacity
                > 0
            &&& configured_chord(named_codes(views(config.activation_chord@))) is Ok
            &&& configured_chord(named_codes(views(config.escape_chord@))) is Ok
        },
{
}

/// Activation is possible exactly with a complete selection of devices that are open.
pub proof fn activation_needs_all_devices(selection_complete: bool, capture_empty: bool)
    ensures
        blocker_spec(selection_complete, capture_empty) is None <==> selection_complete
            && !capture_empty,
{
}

} // verus!
