use zflow::capture::CaptureFrame;
use zflow::config::DeviceSelector;
use zflow::input::{HidUsage, Modifier, MotionDelta, PointerButton, TouchState};
use zflow::linux::devices::{
    DeviceInfo, DeviceScan, VirtualDeviceRole, BUS_VIRTUAL, ZFLOW_DEVICE_VERSION,
    ZFLOW_POINTER_NAME, ZFLOW_POINTER_PHYS, ZFLOW_POINTER_PRODUCT_ID, ZFLOW_VENDOR_ID,
};
use zflow::linux::evdev::{InputEvent, KeyCode, EV_KEY, EV_SYN, SYN_REPORT};
use zflow::linux::mapping::FrameAccumulator;
use zflow::linux::ownership::{AggregateInputState, OwnershipPhase};
use zflow::runtime::chords::{ChordError, ChordTracker, ConfiguredChord};
use zflow::runtime::linux::{
    activation_capture_blocker, capture_selection_diagnostic, critical_step,
    diagnose_capture_selection,
    modifier_usage, route_command, route_receiver_effect, selection_loss_closes_activation,
    send_result,
    watchdog_tick_interval, CommandRoute, ConfigProblem, CriticalStep, Injection, LinuxRuntimeConfig,
    LinuxRuntimeError, RuntimeCloseReason, RuntimeCommand, RuntimeCommandError, RuntimeDiagnostic,
    RuntimeTimers, SendAttempt, TimedWork,
};
use zflow::runtime::readiness::{
    device_info_from_sysfs, udev_record_name, SysfsTexts, UdevProperties, VirtualDeviceReadiness,
};
use zflow::runtime::selection::{capture_selector_matches, select_configured};
use zflow::runtime::state::{ForwardResult, ReadFailure, RuntimeAction, RuntimeCore};
use zflow::session::messages::{ReceiverEffect, SessionContext};
use zflow::session::negotiation::ProtocolVersion;

fn frame(events: &[(evdev::KeyCode, i32)]) -> CaptureFrame {
    let mut accumulator = FrameAccumulator::default();
    for (key, value) in events {
        accumulator.push(InputEvent::new(EV_KEY, key.code(), *value)).unwrap();
    }
    accumulator.push(InputEvent::new(EV_SYN, SYN_REPORT, 0)).unwrap().unwrap()
}

fn names(list: &[&str]) -> Vec<String> {
    list.iter().map(|name| name.to_string()).collect()
}

fn device(path: &str, name: &str, phys: &str, vendor: u16, product: u16) -> DeviceInfo {
    DeviceInfo {
        path: path.to_owned(),
        name: Some(name.to_owned()),
        physical_path: Some(phys.to_owned()),
        unique_name: None,
        bus: 3,
        vendor,
        product,
        version: 1,
        has_keyboard_keys: true,
        has_pointer_buttons: false,
        has_relative_pointer: false,
        has_high_resolution_wheel: false,
    }
}

fn selector(path: &str, name: &str, phys: &str) -> DeviceSelector {
    DeviceSelector {
        path: path.to_owned(),
        name: Some(name.to_owned()),
        phys: Some(phys.to_owned()),
        vendor: Some(0x1234),
        product: Some(0x5678),
    }
}

// ---------------------------------------------------------------------------
// Chords
// ---------------------------------------------------------------------------

#[test]
fn chord_is_aggregate_edge_triggered_across_devices() {
    let chord = ConfiguredChord::parse(&names(&["KEY_LEFTCTRL", "KEY_F12"])).unwrap();
    let mut tracker = ChordTracker::new(chord);
    assert!(!tracker.observe("one", &frame(&[(evdev::KeyCode::KEY_LEFTCTRL, 1)])));
    assert!(tracker.observe("two", &frame(&[(evdev::KeyCode::KEY_F12, 1)])));
    assert!(!tracker.observe("two", &frame(&[(evdev::KeyCode::KEY_F12, 2)])));
    assert!(!tracker.observe("one", &frame(&[(evdev::KeyCode::KEY_LEFTCTRL, 0)])));
    assert!(tracker.observe("one", &frame(&[(evdev::KeyCode::KEY_LEFTCTRL, 1)])));
}

#[test]
fn removal_clears_composite_chord_state() {
    let chord = ConfiguredChord::parse(&names(&["KEY_LEFTCTRL", "KEY_F12"])).unwrap();
    let mut tracker = ChordTracker::new(chord);
    tracker.observe("one", &frame(&[(evdev::KeyCode::KEY_LEFTCTRL, 1)]));
    tracker.remove_device("one");
    assert!(!tracker.observe("two", &frame(&[(evdev::KeyCode::KEY_F12, 1)])));
}

#[test]
fn chords_name_known_portable_keys_once() {
    let error = |list: &[&str]| ConfiguredChord::parse(&names(list)).err();
    assert_eq!(error(&[]), Some(ChordError::Empty));
    assert_eq!(error(&["KEY_A", "KEY_NOWHERE"]), Some(ChordError::UnknownKey));
    assert_eq!(error(&["KEY_BRIGHTNESSUP"]), Some(ChordError::UnsupportedKey));
    assert_eq!(error(&["KEY_A", "KEY_A"]), Some(ChordError::DuplicateKey));
    assert_eq!(error(&["BTN_SIDE", "KEY_A"]), None);
    assert_eq!(
        ConfiguredChord::from_codes(&vec![Some(30), None]).err(),
        Some(ChordError::UnknownKey)
    );
    assert!(ConfiguredChord::from_codes(&vec![Some(0x110), Some(30)]).is_ok());
    // A chord of one key fires with the key that it names, and no other.
    let mut tracker = ChordTracker::new(ConfiguredChord::parse(&names(&["KEY_F11"])).unwrap());
    assert!(!tracker.observe("one", &frame(&[(evdev::KeyCode::KEY_F10, 1)])));
    assert!(tracker.observe("one", &frame(&[(evdev::KeyCode::KEY_F11, 1)])));
    tracker.clear();
    assert!(tracker.observe("one", &frame(&[(evdev::KeyCode::KEY_F11, 1)])));
    // Another spelling of a path names the same device.
    assert!(!tracker.observe("one//", &frame(&[(evdev::KeyCode::KEY_F11, 0)])));
    assert!(tracker.observe("one", &frame(&[(evdev::KeyCode::KEY_F11, 1)])));
    tracker.remove_device("one/.");
    assert!(tracker.observe("two", &frame(&[(evdev::KeyCode::KEY_F11, 1)])));
}

#[test]
fn selectors_find_devices_by_any_spelling_of_their_path() {
    let mut configured = selector("/dev/input//event3", "Keyboard", "usb");
    configured.phys = None;
    let mut found = device("/dev/input/event3", "Keyboard", "usb", 0x1234, 0x5678);
    assert!(capture_selector_matches(&configured, &found));
    found.path = "/dev/input/event30".to_owned();
    assert!(!capture_selector_matches(&configured, &found));
}

// ---------------------------------------------------------------------------
// Selection
// ---------------------------------------------------------------------------

#[test]
fn stable_selector_survives_event_node_renumbering() {
    let configured =
        selector("/dev/input/event3", "Actually Good Keyboard", "usb-0000:01/input0");
    let renumbered = device(
        "/dev/input/event19",
        "Actually Good Keyboard",
        "usb-0000:01/input0",
        0x1234,
        0x5678,
    );

    assert!(capture_selector_matches(&configured, &renumbered));
    let selection = select_configured(&vec![configured], &vec![renumbered.copy()]);

    assert!(selection.is_complete());
    assert_eq!(selection.capture_set()[0].path, renumbered.path);
}

#[test]
fn selector_without_stable_tuple_uses_exact_path_only() {
    let configured = || DeviceSelector {
        path: "/dev/input/event3".to_owned(),
        name: Some("Legacy Keyboard".to_owned()),
        phys: None,
        vendor: Some(0x1234),
        product: Some(0x5678),
    };
    let original_path = device(
        "/dev/input/event3",
        "Legacy Keyboard",
        "usb-legacy/input0",
        0x1234,
        0x5678,
    );
    let renumbered =
        DeviceInfo { path: "/dev/input/event19".to_owned(), ..original_path.copy() };

    assert!(capture_selector_matches(&configured(), &original_path));
    assert!(!capture_selector_matches(&configured(), &renumbered));
    let exact = select_configured(&vec![configured()], &vec![original_path]);
    let moved = select_configured(&vec![configured()], &vec![renumbered]);

    assert!(exact.is_complete());
    assert!(!moved.is_complete());
    assert!(moved.capture_set().is_empty());
}

#[test]
fn partial_capture_set_cannot_activate_or_open_a_subset() {
    let keyboard = selector("/dev/input/event3", "Actually Good Keyboard", "usb-0000:01/input0");
    let mouse = selector("/dev/input/event4", "Actually Good Mouse", "usb-0000:02/input0");
    let present = device(
        "/dev/input/event19",
        "Actually Good Keyboard",
        "usb-0000:01/input0",
        0x1234,
        0x5678,
    );

    let selection = select_configured(&vec![keyboard, mouse], &vec![present]);

    assert!(!selection.is_complete());
    assert_eq!(selection.unmatched, 1);
    assert!(selection.capture_set().is_empty());
    assert_eq!(
        activation_capture_blocker(selection.is_complete(), true),
        Some(RuntimeDiagnostic::CaptureSelectionIncomplete)
    );
    assert_eq!(
        activation_capture_blocker(true, true),
        Some(RuntimeDiagnostic::CaptureOpenFailed)
    );
    assert_eq!(activation_capture_blocker(true, false), None);
}

#[test]
fn incomplete_capture_selection_diagnostic_is_edge_triggered() {
    assert_eq!(
        capture_selection_diagnostic(None, false),
        Some(RuntimeDiagnostic::CaptureSelectionIncomplete)
    );
    assert_eq!(capture_selection_diagnostic(Some(false), false), None);
    assert_eq!(capture_selection_diagnostic(Some(false), true), None);
    assert_eq!(
        capture_selection_diagnostic(Some(true), false),
        Some(RuntimeDiagnostic::CaptureSelectionIncomplete)
    );
}

#[test]
fn selector_removal_closes_remote_and_empties_the_capture_plan() {
    let configured =
        || selector("/dev/input/event3", "Actually Good Keyboard", "usb-0000:01/input0");
    let present = device(
        "/dev/input/event3",
        "Actually Good Keyboard",
        "usb-0000:01/input0",
        0x1234,
        0x5678,
    );
    let complete = select_configured(&vec![configured()], &vec![present]);
    let removed = select_configured(&vec![configured()], &Vec::new());

    assert!(complete.is_complete());
    assert!(!selection_loss_closes_activation(OwnershipPhase::Remote, complete.is_complete()));
    assert!(removed.capture_set().is_empty());
    assert!(selection_loss_closes_activation(OwnershipPhase::Remote, removed.is_complete()));
    assert!(!selection_loss_closes_activation(OwnershipPhase::Idle, removed.is_complete()));
}

#[test]
fn stable_selector_rejects_ambiguous_devices() {
    let configured = selector("/dev/input/event3", "Clone Keyboard", "usb-clone/input0");
    let clone = |path: &str| device(path, "Clone Keyboard", "usb-clone/input0", 0x1234, 0x5678);

    let selection = select_configured(
        &vec![configured],
        &vec![clone("/dev/input/event8"), clone("/dev/input/event9")],
    );

    assert!(!selection.is_complete());
    assert_eq!(selection.ambiguous, 1);
    assert!(selection.capture_set().is_empty());
}

#[test]
fn two_selectors_for_one_device_are_ambiguous() {
    let configured = || selector("/dev/input/event3", "Keyboard", "usb-1/input0");
    let present = device("/dev/input/event3", "Keyboard", "usb-1/input0", 0x1234, 0x5678);
    let selection = select_configured(&vec![configured(), configured()], &vec![present.copy()]);
    assert!(!selection.is_complete());
    let diagnostic = diagnose_capture_selection(
        &vec![configured()],
        &DeviceScan { devices: vec![present], failures: Vec::new() },
    );
    assert!(diagnostic.is_complete());
    assert_eq!(diagnostic.selected_paths, ["/dev/input/event3"]);
    assert_eq!((diagnostic.configured, diagnostic.scan_failures), (1, 0));
}

fn virtual_pointer(path: &str) -> DeviceInfo {
    let mut pointer = device(
        path,
        ZFLOW_POINTER_NAME,
        ZFLOW_POINTER_PHYS,
        ZFLOW_VENDOR_ID,
        ZFLOW_POINTER_PRODUCT_ID,
    );
    pointer.bus = BUS_VIRTUAL;
    pointer.version = ZFLOW_DEVICE_VERSION;
    pointer
}

#[test]
fn exact_path_fallback_does_not_capture_zflow_virtual_devices() {
    let configured = DeviceSelector {
        path: "/dev/input/event8".to_owned(),
        name: None,
        phys: None,
        vendor: None,
        product: None,
    };

    let selection =
        select_configured(&vec![configured], &vec![virtual_pointer("/dev/input/event8")]);

    assert!(!selection.is_complete());
    assert_eq!(selection.unmatched, 1);
    assert!(selection.capture_set().is_empty());
}

// ---------------------------------------------------------------------------
// Configuration, timers and routing
// ---------------------------------------------------------------------------

#[test]
fn lifecycle_commands_route_safely_while_suspended() {
    assert_eq!(
        route_command(true, RuntimeCommand::Activate),
        CommandRoute::IgnoreWhileSuspended
    );
    assert_eq!(
        route_command(true, RuntimeCommand::ReceiverEffects),
        CommandRoute::IgnoreWhileSuspended
    );
    assert_eq!(route_command(true, RuntimeCommand::Resume), CommandRoute::Resume);
    assert_eq!(route_command(true, RuntimeCommand::Stop), CommandRoute::Stop);
    assert_eq!(route_command(false, RuntimeCommand::ReceiverEffects), CommandRoute::Inject);
    assert_eq!(route_command(false, RuntimeCommand::Activate), CommandRoute::Activate);
}

#[test]
fn runtime_defaults_do_not_claim_the_linux_vt_switch_chord() {
    let config = LinuxRuntimeConfig::default();
    assert_eq!(config.activation_chord, ["KEY_LEFTCTRL", "KEY_LEFTMETA", "KEY_F12"]);
    assert_eq!(config.escape_chord, ["KEY_LEFTCTRL", "KEY_LEFTMETA", "KEY_BACKSPACE"]);
}

#[test]
fn runtime_configurations_are_checked() {
    assert_eq!(LinuxRuntimeConfig::default().validate(), Ok(()));
    let problem = |change: fn(&mut LinuxRuntimeConfig)| {
        let mut config = LinuxRuntimeConfig::default();
        change(&mut config);
        match config.validate() {
            Err(LinuxRuntimeError::InvalidConfig(problem)) => problem,
            other => panic!("unexpected result: {other:?}"),
        }
    };
    assert_eq!(
        problem(|config| config.rescan_interval = 0),
        ConfigProblem::ZeroRescanInterval
    );
    assert_eq!(
        problem(|config| config.readiness_probe_interval = 0),
        ConfigProblem::ZeroProbeInterval
    );
    assert_eq!(problem(|config| config.event_capacity = 0), ConfigProblem::ZeroCapacity);
    assert_eq!(
        problem(|config| config.escape_chord = Vec::new()),
        ConfigProblem::Chord(ChordError::Empty)
    );
}

#[test]
fn watchdog_ticks_at_half_the_manager_deadline() {
    assert_eq!(watchdog_tick_interval(Some(2_000_000_000)), Some(1_000_000_000));
    assert_eq!(watchdog_tick_interval(None), None);
    assert_eq!(watchdog_tick_interval(Some(1)), Some(1_000));
}

#[test]
fn modifier_mapping_matches_usb_hid_modifier_block() {
    assert_eq!(modifier_usage(Modifier::LeftControl), HidUsage::keyboard(0xe0));
    assert_eq!(modifier_usage(Modifier::RightMeta), HidUsage::keyboard(0xe7));
}

#[test]
fn timers_come_due_and_bound_the_sleep() {
    let mut timers = RuntimeTimers::new(100, Some(50), 1_000, 25);
    assert_eq!(timers.next_work(None, 100, false, false), Some(TimedWork::Rescan));
    // A rescan that is asked for during a rescan waits like any other.
    timers.rescan_now(100);
    timers.work_done(TimedWork::Rescan, 100);
    assert_eq!(timers.next_rescan, 1_100);
    let after = Some(TimedWork::Rescan);
    assert_eq!(timers.next_work(after, 100, false, true), None);
    assert_eq!(timers.next_work(after, 100, false, false), Some(TimedWork::ReadinessProbe));
    timers.work_done(TimedWork::ReadinessProbe, 100);
    assert_eq!(timers.next_work(None, 100, false, false), None);
    assert_eq!(timers.poll_timeout(100, false, false), 25);
    assert_eq!(timers.poll_timeout(100, false, true), 50);
    assert_eq!(timers.next_work(None, 150, true, true), Some(TimedWork::Watchdog));
    timers.work_done(TimedWork::Watchdog, 150);
    assert_eq!(timers.next_work(Some(TimedWork::Watchdog), 150, true, true), None);
    assert_eq!(timers.poll_timeout(150, true, true), 50);
    timers.commands_drained(256, 150);
    assert_eq!(timers.poll_timeout(150, false, true), 0);
    timers.rescan_now(160);
    timers.probe_now(155);
    assert_eq!(timers.poll_timeout(150, false, false), 5);
    let idle = RuntimeTimers::new(0, None, 1, 1);
    assert_eq!(idle.poll_timeout(0, true, true), 2_000_000_000);
}

fn context() -> SessionContext {
    SessionContext {
        protocol_version: ProtocolVersion(1),
        session_epoch: 7,
        transport_generation: 1,
        activation_id: 1,
    }
}

#[test]
fn receiver_effects_reach_their_devices() {
    let delta = MotionDelta { dx: 1, ..MotionDelta::default() };
    assert!(matches!(
        route_receiver_effect(ReceiverEffect::Motion { delta }),
        Injection::Motion(MotionDelta { dx: 1, .. })
    ));
    assert!(matches!(
        route_receiver_effect(ReceiverEffect::Modifier {
            modifier: Modifier::LeftShift,
            pressed: true,
            synthetic: false,
        }),
        Injection::Key { usage: HidUsage { usage: 0xe1, .. }, pressed: true }
    ));
    assert!(matches!(
        route_receiver_effect(ReceiverEffect::Button {
            button: PointerButton(2),
            pressed: false,
            synthetic: true,
        }),
        Injection::Button { button: PointerButton(2), pressed: false }
    ));
    assert!(matches!(
        route_receiver_effect(ReceiverEffect::TouchReplaced {
            state: TouchState::default(),
            synthetic: false,
        }),
        Injection::Touch(_)
    ));
    assert!(matches!(
        route_receiver_effect(ReceiverEffect::ActivationClosed { session: context() }),
        Injection::ReleaseAll
    ));
    assert!(matches!(
        route_receiver_effect(ReceiverEffect::ActivationOpened(context())),
        Injection::Nothing
    ));
}

// ---------------------------------------------------------------------------
// Readiness
// ---------------------------------------------------------------------------

#[test]
fn parses_udev_database_and_udevadm_property_forms() {
    let properties = UdevProperties::parse(
        "I:123\nE:ID_INPUT=1\nE:ID_SEAT=seat0\nZFLOW_DEVICE_ROLE=remote-keyboard\n",
    );
    assert_eq!(properties.get("ID_INPUT"), Some("1"));
    assert_eq!(properties.get("ID_SEAT"), Some("seat0"));
    assert_eq!(properties.get("ZFLOW_DEVICE_ROLE"), Some("remote-keyboard"));
    assert_eq!(properties.get("I:123"), None);
}

fn virtual_info(role: VirtualDeviceRole) -> DeviceInfo {
    let mut info = device(
        "/dev/input/event10",
        role.name(),
        role.physical_path(),
        ZFLOW_VENDOR_ID,
        role.product_id(),
    );
    info.bus = BUS_VIRTUAL;
    info.version = ZFLOW_DEVICE_VERSION;
    info
}

#[test]
fn readiness_requires_both_exact_roles_and_classification() {
    let mut readiness = VirtualDeviceReadiness::default();
    let keyboard = UdevProperties::parse(
        "E:ZFLOW_VIRTUAL_DEVICE=1\nE:ZFLOW_CAPTURE_EXCLUDE=1\nE:ZFLOW_DEVICE_ROLE=remote-keyboard\nE:ID_SEAT=seat0\nE:ID_INPUT=1\nE:ID_INPUT_KEY=1\nE:ID_INPUT_KEYBOARD=1\n",
    );
    readiness.observe(&virtual_info(VirtualDeviceRole::Keyboard), &keyboard);
    assert!(!readiness.is_ready());

    let pointer = UdevProperties::parse(
        "E:ZFLOW_VIRTUAL_DEVICE=1\nE:ZFLOW_CAPTURE_EXCLUDE=1\nE:ZFLOW_DEVICE_ROLE=remote-pointer\nE:ID_SEAT=seat0\nE:ID_INPUT=1\nE:ID_INPUT_MOUSE=1\n",
    );
    readiness.observe(&virtual_info(VirtualDeviceRole::Pointer), &pointer);
    assert!(readiness.is_ready());
}

#[test]
fn wrong_seat_or_missing_classification_is_not_ready() {
    let properties = UdevProperties::parse(
        "E:ZFLOW_VIRTUAL_DEVICE=1\nE:ZFLOW_CAPTURE_EXCLUDE=1\nE:ZFLOW_DEVICE_ROLE=remote-pointer\nE:ID_SEAT=seat1\nE:ID_INPUT=1\n",
    );
    let mut readiness = VirtualDeviceReadiness::default();
    readiness.observe(&virtual_info(VirtualDeviceRole::Pointer), &properties);
    assert_eq!(readiness, VirtualDeviceReadiness::default());
}

#[test]
fn identities_come_from_sysfs() {
    let text = |value: &str| Some(value.to_owned());
    let texts = || SysfsTexts {
        name: text("zflow remote pointer\n"),
        phys: text("zflow/remote/pointer\n"),
        uniq: text("\n"),
        bustype: text("0006\n"),
        vendor: text("1209\n"),
        product: text("5a02\n"),
        version: text("0001\n"),
    };
    let device = device_info_from_sysfs("/dev/input/event7".to_owned(), &texts()).unwrap();
    assert_eq!(device.zflow_role(), Some(VirtualDeviceRole::Pointer));
    assert_eq!(device.unique_name, None);
    let broken = SysfsTexts { vendor: text("12345\n"), ..texts() };
    assert!(device_info_from_sysfs("/dev/input/event7".to_owned(), &broken).is_none());
    assert_eq!(udev_record_name(13, 74), "c13:74");
}

// ---------------------------------------------------------------------------
// Runtime state
// ---------------------------------------------------------------------------

#[test]
fn an_activation_runs_from_arming_to_idle() {
    let mut aggregate = AggregateInputState::default();
    aggregate.add_device("/dev/input/event1".to_owned(), &Vec::<KeyCode>::new());
    let mut core = RuntimeCore::new(true);
    assert_eq!(
        core.activate("desk".to_owned(), true),
        [RuntimeAction::Diagnose(RuntimeDiagnostic::CaptureOpenFailed)]
    );
    assert_eq!(
        core.activate("desk".to_owned(), false),
        [RuntimeAction::EmitOwnership, RuntimeAction::AdvanceBoundary]
    );
    assert_eq!(core.activate("other".to_owned(), false), []);
    assert_eq!(core.boundary(&aggregate, Some(true)), [RuntimeAction::GrabAll]);
    core.grab_finished(true);
    assert_eq!(core.ownership.phase, OwnershipPhase::Remote);
    assert_eq!(
        core.captured_frame(1, false, false),
        [RuntimeAction::ForwardFrame, RuntimeAction::AdvanceBoundary]
    );
    assert_eq!(core.frame_forwarded(ForwardResult::Sent), []);
    assert_eq!(
        core.captured_frame(1, false, true),
        [
            RuntimeAction::QueueTerminal,
            RuntimeAction::EmitOwnership,
            RuntimeAction::AdvanceBoundary,
        ]
    );
    core.terminal_sent(true);
    assert_eq!(
        core.boundary(&aggregate, Some(true)),
        [RuntimeAction::UngrabAll(RuntimeCloseReason::LocalRelease)]
    );
    core.ungrab_finished(true, RuntimeCloseReason::LocalRelease);
    assert_eq!(core.ownership.phase, OwnershipPhase::Idle);
    assert_eq!(core.selected_peer, None);
}

#[test]
fn losing_the_transport_or_a_device_forces_a_release() {
    let mut core = RuntimeCore::new(true);
    core.activate("desk".to_owned(), false);
    core.ownership.phase = OwnershipPhase::Remote;
    assert_eq!(
        core.release(false),
        [RuntimeAction::ForceRelease(RuntimeCloseReason::TransportLost)]
    );
    assert_eq!(
        core.frame_forwarded(ForwardResult::Full),
        [
            RuntimeAction::Diagnose(RuntimeDiagnostic::CapturedFrameQueueFull),
            RuntimeAction::ForceRelease(RuntimeCloseReason::Backpressure),
        ]
    );
    assert!(!core.read_failed(ReadFailure::DeviceRemoved).is_empty());
    assert!(!core.force_release(RuntimeCloseReason::TransportLost).is_empty());
}

#[test]
fn critical_command_reports_a_full_queue_at_its_bound() {
    let full = SendAttempt::Full { woken: true };
    assert_eq!(
        critical_step(full, 0, 0),
        CriticalStep::Finished(Err(RuntimeCommandError::Full))
    );
    assert_eq!(critical_step(full, 9, 10), CriticalStep::Retry);
    assert_eq!(
        critical_step(full, 10, 10),
        CriticalStep::Finished(Err(RuntimeCommandError::Full))
    );
    assert_eq!(
        critical_step(SendAttempt::Full { woken: false }, 9, 10),
        CriticalStep::Finished(Err(RuntimeCommandError::Wake))
    );
}

#[test]
fn ordinary_commands_are_tried_once() {
    assert_eq!(send_result(SendAttempt::Queued { woken: true }), Ok(()));
    assert_eq!(
        send_result(SendAttempt::Queued { woken: false }),
        Err(RuntimeCommandError::Wake)
    );
    assert_eq!(
        send_result(SendAttempt::Full { woken: true }),
        Err(RuntimeCommandError::Full)
    );
    assert_eq!(send_result(SendAttempt::Stopped), Err(RuntimeCommandError::Stopped));
    assert_eq!(
        critical_step(SendAttempt::Queued { woken: true }, 9, 10),
        CriticalStep::Finished(Ok(()))
    );
}

#[test]
fn a_changed_touchpad_replaces_the_devices_first() {
    let mut core = RuntimeCore::new(true);
    assert_eq!(core.reload(false), vec![RuntimeAction::RescanNow, RuntimeAction::Rescan]);
    assert_eq!(
        core.reload(true),
        vec![
            RuntimeAction::ReleaseReceiver(RuntimeCloseReason::LocalRelease),
            RuntimeAction::ReplaceDevices,
        ]
    );
    core.ready_notified(true);
    assert!(core.devices_replaced(false).is_empty());
    assert!(core.ready);
    assert_eq!(
        core.devices_replaced(true),
        vec![RuntimeAction::ProbeNow, RuntimeAction::RescanNow, RuntimeAction::Rescan]
    );
    assert!(!core.ready);
    core.suspend();
    assert_eq!(core.reload(false), vec![RuntimeAction::RescanNow]);
}

#[test]
fn closing_descriptors_explains_a_failed_ungrab() {
    let mut core = RuntimeCore::new(true);
    assert_eq!(
        core.suspend(),
        vec![
            RuntimeAction::ForceRelease(RuntimeCloseReason::Suspend),
            RuntimeAction::Deregister,
            RuntimeAction::SuspendCapture,
            RuntimeAction::ReleaseReceiver(RuntimeCloseReason::Suspend),
            RuntimeAction::ClearChords,
        ]
    );
    assert!(core.suspend().is_empty());
    assert!(core.capture_suspended(true).is_empty());
    assert_eq!(
        core.capture_suspended(false),
        vec![RuntimeAction::Diagnose(RuntimeDiagnostic::UngrabRequiredDescriptorClose)]
    );
    assert!(!core.stopping);
    core.poll_failed();
    assert!(core.stopping);
}

#[test]
fn the_escape_chord_keeps_its_frame_and_releases() {
    let mut core = RuntimeCore::new(true);
    core.ownership.phase = OwnershipPhase::Remote;
    assert_eq!(
        core.captured_frame(3, false, false),
        vec![RuntimeAction::ForwardFrame, RuntimeAction::AdvanceBoundary]
    );
    assert_eq!(
        core.captured_frame(3, false, true),
        vec![
            RuntimeAction::QueueTerminal,
            RuntimeAction::EmitOwnership,
            RuntimeAction::AdvanceBoundary,
        ]
    );
    assert_eq!(core.ownership.phase(), OwnershipPhase::Releasing);
    assert_eq!(core.captured_frame(3, false, false), vec![RuntimeAction::AdvanceBoundary]);
    assert_eq!(core.terminal_sent(true), vec![RuntimeAction::AdvanceBoundary]);
    assert_eq!(
        core.boundary(&AggregateInputState::default(), Some(false)),
        vec![RuntimeAction::UngrabAll(RuntimeCloseReason::LocalRelease)]
    );
    core.ungrab_finished(true, RuntimeCloseReason::LocalRelease);
    assert_eq!(core.ownership.phase(), OwnershipPhase::Idle);
}

#[test]
fn a_lost_transport_takes_input_back() {
    let mut core = RuntimeCore::new(true);
    core.ownership.phase = OwnershipPhase::Remote;
    assert_eq!(
        core.release(false),
        vec![RuntimeAction::ForceRelease(RuntimeCloseReason::TransportLost)]
    );
    assert_eq!(
        core.force_release(RuntimeCloseReason::TransportLost),
        vec![RuntimeAction::UngrabAll(RuntimeCloseReason::TransportLost)]
    );
    core.ungrab_finished(true, RuntimeCloseReason::TransportLost);
    assert_eq!(core.ownership.phase(), OwnershipPhase::Idle);
}
