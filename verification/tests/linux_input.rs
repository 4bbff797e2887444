use std::path::Path;

use zflow::capture::{CaptureTransition, KeyState};
use zflow::codes::CodeSet;
use zflow::input::{
    ContactId, HidUsage, HidUsagePage, MotionDelta, PointerButton, SourceDimensions, TouchContact,
    TouchState, TouchTool,
};
use zflow::linux::capture::{
    fetch_failed, is_device_removed, kernel_is_neutral, CaptureNode, CaptureReadError, CaptureSet,
    CaptureSetError, FetchStep, Fetched, GrabError, GrabStep, GrabTransaction, HeldObservation,
    UngrabFailure,
};
use zflow::linux::devices::{
    is_event_node, select_devices, DeviceDescription, DeviceInfo, DeviceScan, DeviceSelector,
    InputId, PeriodicDeviceScanner, SelectionError, VirtualDeviceRole, BUS_VIRTUAL,
    ZFLOW_DEVICE_VERSION, ZFLOW_VENDOR_ID,
};
use zflow::linux::evdev::{
    InputEvent, KeyCode, ABS_MT_POSITION_X, ABS_MT_POSITION_Y, ABS_MT_SLOT, ABS_MT_TRACKING_ID,
    ABS_X, ABS_Y, BTN_LEFT, BTN_TASK, BTN_TOOL_DOUBLETAP, BTN_TOOL_FINGER, BTN_TOOL_QUADTAP,
    BTN_TOOL_TRIPLETAP, BTN_TOUCH, EV_ABS, EV_KEY, EV_REL, EV_SYN, REL_HWHEEL, REL_HWHEEL_HI_RES,
    REL_WHEEL, REL_WHEEL_HI_RES, REL_X, REL_Y, SYN_DROPPED, SYN_REPORT,
};
use zflow::linux::grabs::{GrabAction, GrabEvent, GrabSequence};
use zflow::linux::mapping::{
    evdev_button_to_pointer, evdev_key_to_hid, hid_to_evdev_key, mapped_evdev_keys,
    mapped_pointer_buttons, pointer_button_to_evdev, FrameAccumulator, MappingError,
};
use zflow::linux::ownership::{
    AggregateInputState, OwnershipEffect, OwnershipError, OwnershipPhase, SourceOwnership,
};
use zflow::linux::touch::{AxisInfo, TouchAccumulator, TouchAxisRange, TouchError};
use zflow::linux::touchpad::{
    plan_touchpad_events, scale_touch_axis, TooManyContacts, TouchpadState, TOUCHPAD_MAX_X,
    TOUCHPAD_MAX_Y,
};
use zflow::linux::uinput::{
    legacy_wheel_delta, push_relative, release_all, replace_touch, InjectionError,
    VirtualKeyboard, VirtualPointer,
};
use zflow::paths::{normalized, path_order, same_path};
use zflow::text::KeyOrder;

fn event(kind: u16, code: u16, value: i32) -> InputEvent {
    InputEvent::new(kind, code, value)
}

fn key(code: u16, value: i32) -> InputEvent {
    event(EV_KEY, code, value)
}

fn report() -> InputEvent {
    event(EV_SYN, SYN_REPORT, 0)
}

const KEY_ESC: u16 = 1;
const KEY_A: u16 = 30;

// ---------------------------------------------------------------------------
// Event codes against the kernel bindings
// ---------------------------------------------------------------------------

#[test]
fn event_codes_are_the_kernels() {
    assert_eq!(EV_SYN, evdev::EventType::SYNCHRONIZATION.0);
    assert_eq!(EV_KEY, evdev::EventType::KEY.0);
    assert_eq!(EV_REL, evdev::EventType::RELATIVE.0);
    assert_eq!(EV_ABS, evdev::EventType::ABSOLUTE.0);
    assert_eq!(SYN_REPORT, evdev::SynchronizationCode::SYN_REPORT.0);
    assert_eq!(SYN_DROPPED, evdev::SynchronizationCode::SYN_DROPPED.0);
    for (code, axis) in [
        (REL_X, evdev::RelativeAxisCode::REL_X),
        (REL_Y, evdev::RelativeAxisCode::REL_Y),
        (REL_HWHEEL, evdev::RelativeAxisCode::REL_HWHEEL),
        (REL_WHEEL, evdev::RelativeAxisCode::REL_WHEEL),
        (REL_WHEEL_HI_RES, evdev::RelativeAxisCode::REL_WHEEL_HI_RES),
        (REL_HWHEEL_HI_RES, evdev::RelativeAxisCode::REL_HWHEEL_HI_RES),
    ] {
        assert_eq!(code, axis.0);
    }
    for (code, axis) in [
        (ABS_X, evdev::AbsoluteAxisCode::ABS_X),
        (ABS_Y, evdev::AbsoluteAxisCode::ABS_Y),
        (ABS_MT_SLOT, evdev::AbsoluteAxisCode::ABS_MT_SLOT),
        (ABS_MT_POSITION_X, evdev::AbsoluteAxisCode::ABS_MT_POSITION_X),
        (ABS_MT_POSITION_Y, evdev::AbsoluteAxisCode::ABS_MT_POSITION_Y),
        (ABS_MT_TRACKING_ID, evdev::AbsoluteAxisCode::ABS_MT_TRACKING_ID),
    ] {
        assert_eq!(code, axis.0);
    }
    for (code, button) in [
        (BTN_LEFT, evdev::KeyCode::BTN_LEFT),
        (BTN_TASK, evdev::KeyCode::BTN_TASK),
        (BTN_TOOL_FINGER, evdev::KeyCode::BTN_TOOL_FINGER),
        (BTN_TOUCH, evdev::KeyCode::BTN_TOUCH),
        (BTN_TOOL_DOUBLETAP, evdev::KeyCode::BTN_TOOL_DOUBLETAP),
        (BTN_TOOL_TRIPLETAP, evdev::KeyCode::BTN_TOOL_TRIPLETAP),
        (BTN_TOOL_QUADTAP, evdev::KeyCode::BTN_TOOL_QUADTAP),
    ] {
        assert_eq!(code, button.code());
    }
    assert_eq!(BUS_VIRTUAL, evdev::BusType::BUS_VIRTUAL.0);
}

// ---------------------------------------------------------------------------
// Mapping
// ---------------------------------------------------------------------------

#[test]
fn common_keyboard_and_modifier_mappings_round_trip() {
    for (name, expected) in [
        (evdev::KeyCode::KEY_A, HidUsage::keyboard(0x04)),
        (evdev::KeyCode::KEY_ENTER, HidUsage::keyboard(0x28)),
        (evdev::KeyCode::KEY_LEFTCTRL, HidUsage::keyboard(0xe0)),
        (evdev::KeyCode::KEY_RIGHTMETA, HidUsage::keyboard(0xe7)),
        (evdev::KeyCode::KEY_VOLUMEUP, HidUsage::consumer(0xe9)),
    ] {
        let key = KeyCode::new(name.code());
        assert_eq!(evdev_key_to_hid(key).unwrap(), expected);
        assert_eq!(hid_to_evdev_key(expected).unwrap(), key);
    }
}

#[test]
fn key_map_is_bijective() {
    let mut usages = Vec::new();
    let mut codes = Vec::new();
    for mapped in mapped_evdev_keys() {
        assert!(!codes.contains(&mapped.code()), "duplicate evdev code {}", mapped.code());
        codes.push(mapped.code());
        let usage = evdev_key_to_hid(mapped).unwrap();
        assert!(!usages.contains(&usage), "duplicate HID usage {usage:?}");
        usages.push(usage);
        assert_eq!(hid_to_evdev_key(usage).unwrap(), mapped);
    }
    for code in 0..u16::MAX {
        assert_eq!(evdev_key_to_hid(KeyCode::new(code)).is_ok(), codes.contains(&code));
    }
}

#[test]
fn pointer_buttons_round_trip() {
    for number in 1..=8 {
        let button = PointerButton(number);
        assert_eq!(
            evdev_button_to_pointer(pointer_button_to_evdev(button).unwrap()),
            Ok(button)
        );
    }
    assert_eq!(mapped_pointer_buttons().len(), 8);
    assert_eq!(
        evdev_button_to_pointer(KeyCode::new(KEY_A)),
        Err(MappingError::UnsupportedEvdevCode(KEY_A))
    );
    assert!(pointer_button_to_evdev(PointerButton(0)).is_err());
    assert!(pointer_button_to_evdev(PointerButton(9)).is_err());
}

#[test]
fn unsupported_usage_is_a_specific_error() {
    assert_eq!(
        hid_to_evdev_key(HidUsage::new(HidUsagePage(0xff00), 7)),
        Err(MappingError::UnsupportedHidUsage { page: 0xff00, usage: 7 })
    );
}

#[test]
fn unmapped_vendor_key_does_not_discard_mapped_events_or_end_the_frame() {
    let mut accumulator = FrameAccumulator::default();
    accumulator.push(key(evdev::KeyCode::KEY_BRIGHTNESSUP.code(), 1)).unwrap();
    accumulator.push(key(KEY_A, 1)).unwrap();
    let frame = accumulator.push(report()).unwrap().unwrap();

    assert_eq!(
        frame.transitions,
        vec![CaptureTransition::Key { usage: HidUsage::keyboard(4), state: KeyState::Pressed }]
    );
    assert_eq!(frame.event_count, 1);
}

#[test]
fn emits_only_complete_frames_and_prefers_high_resolution_wheel() {
    let mut accumulator = FrameAccumulator::default();
    assert_eq!(accumulator.push(event(EV_REL, REL_X, 4)).unwrap(), None);
    accumulator.push(event(EV_REL, REL_WHEEL, 1)).unwrap();
    accumulator.push(event(EV_REL, REL_WHEEL_HI_RES, 30)).unwrap();
    let frame = accumulator.push(report()).unwrap().unwrap();
    assert_eq!(
        frame.motion,
        MotionDelta { dx: 4, scroll_y: 30, ..MotionDelta::default() }
    );
    assert_eq!(frame.event_count, 3);
}

#[test]
fn legacy_wheel_is_normalized_to_high_resolution_units() {
    let mut accumulator = FrameAccumulator::default();
    accumulator.push(event(EV_REL, REL_HWHEEL, -2)).unwrap();
    let frame = accumulator.push(report()).unwrap().unwrap();
    assert_eq!(frame.motion.scroll_x, -240);
}

#[test]
fn lost_synchronization_and_odd_key_values_are_errors() {
    let mut accumulator = FrameAccumulator::default();
    assert_eq!(
        accumulator.push(event(EV_SYN, SYN_DROPPED, 0)),
        Err(MappingError::SynchronizationLost)
    );
    assert_eq!(accumulator.push(key(KEY_A, 7)), Err(MappingError::InvalidKeyValue(7)));
    assert!(accumulator.can_push(report()));
    assert!(accumulator.can_push_all(&vec![report(), key(KEY_A, 1)]));
    assert_eq!(accumulator.push(key(KEY_A, 2)), Ok(None));
    let frame = accumulator.push(report()).unwrap().unwrap();
    assert_eq!(
        frame.transitions,
        vec![CaptureTransition::Key { usage: HidUsage::keyboard(4), state: KeyState::Repeat }]
    );
}

// ---------------------------------------------------------------------------
// Grab transactions and the capture set
// ---------------------------------------------------------------------------

struct FakeTarget {
    path: &'static str,
    fail_grab: bool,
    fail_release: bool,
    grabbed: bool,
    releases: usize,
}

fn target(path: &'static str, fail_grab: bool, fail_release: bool) -> FakeTarget {
    FakeTarget { path, fail_grab, fail_release, grabbed: false, releases: 0 }
}

fn grab_transaction(targets: &mut [FakeTarget]) -> Result<(), GrabError> {
    let mut transaction = GrabTransaction::new(targets.len());
    loop {
        match transaction.step() {
            GrabStep::Take(index) => {
                let target = &mut targets[index];
                if target.fail_grab {
                    transaction.advance(Err("permission denied".to_owned()));
                } else {
                    target.grabbed = true;
                    transaction.advance(Ok(()));
                }
            }
            GrabStep::Release(index) => {
                let target = &mut targets[index];
                target.releases += 1;
                if target.fail_release {
                    transaction.advance(Err("permission denied".to_owned()));
                } else {
                    target.grabbed = false;
                    transaction.advance(Ok(()));
                }
            }
            GrabStep::Committed | GrabStep::RolledBack(_) => break,
        }
    }
    let paths = targets.iter().map(|target| target.path.to_owned()).collect();
    transaction.finish(&paths).unwrap()
}

#[test]
fn grab_failure_rolls_back_every_earlier_device() {
    let mut targets = [
        target("one", false, false),
        target("two", false, false),
        target("three", true, false),
    ];
    let error = grab_transaction(&mut targets).unwrap_err();
    assert_eq!(error.path, "three");
    assert_eq!(error.rolled_back, 2);
    assert!(targets.iter().all(|target| !target.grabbed));
    assert_eq!(targets[0].releases, 1);
    assert_eq!(targets[1].releases, 1);
}

#[test]
fn grab_failure_reports_a_failed_rollback_that_still_holds_the_device() {
    let mut targets = [target("one", false, true), target("two", true, false)];

    let error = grab_transaction(&mut targets).unwrap_err();

    assert_eq!(error.rollback_failures.len(), 1);
    assert_eq!(error.rollback_failures[0].path, "one");
    assert!(targets[0].grabbed);
    assert_eq!(targets[0].releases, 1);
}

#[test]
fn willing_devices_are_all_grabbed() {
    let mut targets = [target("one", false, false), target("two", false, false)];
    assert_eq!(grab_transaction(&mut targets), Ok(()));
    assert!(targets.iter().all(|target| target.grabbed && target.releases == 0));
    assert_eq!(grab_transaction(&mut []), Ok(()));
}

fn info(path: &str, name: &str) -> DeviceInfo {
    DeviceInfo {
        path: path.to_owned(),
        name: Some(name.to_owned()),
        physical_path: Some("usb-1/input0".to_owned()),
        unique_name: None,
        bus: 3,
        vendor: 1,
        product: 2,
        version: 3,
        has_keyboard_keys: true,
        has_pointer_buttons: false,
        has_relative_pointer: false,
        has_high_resolution_wheel: false,
    }
}

fn virtual_info(path: &str, role: VirtualDeviceRole) -> DeviceInfo {
    let mut device = info(path, role.name());
    device.bus = BUS_VIRTUAL;
    device.vendor = ZFLOW_VENDOR_ID;
    device.product = role.product_id();
    device.version = ZFLOW_DEVICE_VERSION;
    device.physical_path = Some(role.physical_path().to_owned());
    device
}

#[test]
fn the_capture_set_refuses_virtual_repeated_and_held_devices() {
    let mut set = CaptureSet::default();
    assert_eq!(set.check_grab(), Err(CaptureSetError::Empty));
    let own = virtual_info("/dev/input/event9", VirtualDeviceRole::Keyboard);
    assert_eq!(
        set.check_device(&own),
        Err(CaptureSetError::VirtualDevice("/dev/input/event9".to_owned()))
    );
    let one = info("/dev/input/event1", "one");
    assert_eq!(set.check_device(&one), Ok(()));
    set.add_node(one.path.clone(), &vec![KeyCode::new(KEY_A)], CaptureNode::new(None));
    assert_eq!(
        set.check_device(&one),
        Err(CaptureSetError::Duplicate { path: one.path.clone() })
    );
    assert_eq!(set.paths(), ["/dev/input/event1"]);
    assert_eq!(set.check_grab(), Err(CaptureSetError::NotNeutral));
    let frames = set
        .read_ready("/dev/input/event1", Fetched::Events(vec![key(KEY_A, 0), report()]), 9)
        .unwrap();
    assert_eq!(frames.len(), 1);
    assert_eq!(frames[0].captured_at, 9);
    assert_eq!(set.check_grab(), Ok(false));
    let mut sequence = set.start_grab().unwrap().unwrap();
    assert_eq!(sequence.action(), GrabAction::Inspect(0));
    sequence.advance(GrabEvent::Held(Ok(0)));
    assert_eq!(sequence.action(), GrabAction::Take(0));
    sequence.advance(GrabEvent::Done(Ok(())));
    assert_eq!(sequence.action(), GrabAction::Inspect(0));
    sequence.advance(GrabEvent::Held(Ok(0)));
    assert_eq!(sequence.action(), GrabAction::End);
    assert_eq!(set.end_grab(sequence), Ok(()));
    assert!(set.is_grabbed());
    assert!(set.start_grab().unwrap().is_none());
    assert_eq!(set.check_grab(), Ok(true));
    set.suspend();
    set.ungrabbed(false);
    assert!(!set.is_grabbed());
}

fn grab_with(events: Vec<GrabEvent>, paths: &[&str]) -> (Vec<GrabAction>, GrabSequence) {
    let paths = paths.iter().map(|path| (*path).to_owned()).collect();
    let mut sequence = GrabSequence::new(paths);
    let mut actions = Vec::new();
    for event in events {
        actions.push(sequence.action());
        sequence.advance(event);
    }
    assert_eq!(sequence.action(), GrabAction::End);
    (actions, sequence)
}

#[test]
fn input_that_races_the_grabs_takes_them_back() {
    let held = |keys: usize| GrabEvent::Held(Ok(keys));
    let done = || GrabEvent::Done(Ok(()));
    let (actions, sequence) = grab_with(
        vec![held(0), held(0), done(), done(), held(0), held(1), done(), done()],
        &["one", "two"],
    );
    assert_eq!(
        actions,
        [
            GrabAction::Inspect(0),
            GrabAction::Inspect(1),
            GrabAction::Take(0),
            GrabAction::Take(1),
            GrabAction::Inspect(0),
            GrabAction::Inspect(1),
            GrabAction::Release(1),
            GrabAction::Release(0),
        ]
    );
    assert_eq!(sequence.finish(), Some((Err(CaptureSetError::NotNeutral), false)));

    // A device that cannot be released stays grabbed.
    let stuck = GrabEvent::Done(Err("busy".to_owned()));
    let (_, sequence) = grab_with(
        vec![held(0), done(), GrabEvent::Held(Err("gone".to_owned())), stuck],
        &["one"],
    );
    let error = CaptureSetError::InspectState {
        path: "one".to_owned(),
        source: "gone".to_owned(),
    };
    assert_eq!(sequence.finish(), Some((Err(error), true)));
}

#[test]
fn nothing_is_grabbed_while_a_key_is_held() {
    let (actions, sequence) = grab_with(vec![GrabEvent::Held(Ok(2))], &["one", "two"]);
    assert_eq!(actions, [GrabAction::Inspect(0)]);
    assert_eq!(sequence.finish(), Some((Err(CaptureSetError::NotNeutral), false)));
    // An unexpected event changes nothing, and a sequence has to end first.
    let mut early = GrabSequence::new(vec!["one".to_owned()]);
    early.advance(GrabEvent::Done(Ok(())));
    assert_eq!(early.action(), GrabAction::Inspect(0));
    assert_eq!(early.finish(), None);
}

#[test]
fn a_refused_grab_is_reported_with_every_failed_release() {
    let failed = |text: &str| GrabEvent::Done(Err(text.to_owned()));
    let held = || GrabEvent::Held(Ok(0));
    let (_, sequence) = grab_with(
        vec![held(), held(), GrabEvent::Done(Ok(())), failed("denied"), failed("stuck")],
        &["one", "two"],
    );
    let error = GrabError {
        path: "two".to_owned(),
        source: "denied".to_owned(),
        rolled_back: 1,
        rollback_failures: vec![UngrabFailure {
            path: "one".to_owned(),
            error: "stuck".to_owned(),
        }],
    };
    assert_eq!(sequence.finish(), Some((Err(CaptureSetError::Grab(error)), false)));
}

#[test]
fn paths_are_compared_by_their_components() {
    assert!(same_path("/dev/input//event3", "/dev/input/event3"));
    assert!(same_path("/dev/./input/event3/", "/dev/input/event3"));
    assert!(same_path("//", "/"));
    assert!(!same_path("/", ""));
    assert!(!same_path("./a", "a"));
    assert!(same_path("./a/.", "./a"));
    assert!(!same_path("/dev/input/../event3", "/dev/event3"));
    assert!(!same_path("dev/input", "/dev/input"));
    assert_eq!(normalized("/dev//input/./event3/"), "/dev/input/event3");

    let device = info("/dev/input/event3", "keyboard");
    assert!(DeviceSelector::path("/dev/input//event3".to_owned()).matches(&device));
    assert!(!DeviceSelector::path("/dev/input/event30".to_owned()).matches(&device));
    assert!(device.same_as(&info("/dev//input/event3", "keyboard")));
}

#[test]
fn paths_order_as_the_paths_of_the_system_do() {
    let texts = [
        "", "/", ".", "..", "./a", "../a", "-x", "a", "a/b", "a-b", "a/../b", "a/!", "/a", "/..",
        "/../a", "/-x", "//a", "/a/", "/a/./b", "/a/b", "/a-b", "/dev/input/event10",
        "/dev/input/event2", "/dev/input/event2/", " ", "...", "..a", "./..", "./-x", "\u{e9}", "z",
    ];
    for left in texts {
        for right in texts {
            let (one, two) = (Path::new(left), Path::new(right));
            let expected = if one < two {
                KeyOrder::Before
            } else if two < one {
                KeyOrder::After
            } else {
                KeyOrder::Same
            };
            assert_eq!(path_order(left, right), expected, "{left:?} and {right:?}");
            assert_eq!(same_path(left, right), one == two, "{left:?} and {right:?}");
        }
    }
}

#[test]
fn devices_are_listed_in_path_order() {
    let paths = ["-x", "/dev/input/event2", "../a", "/dev/input/event10", "a"];
    let scan = DeviceScan {
        devices: paths.iter().map(|path| info(path, "keyboard")).collect(),
        failures: Vec::new(),
    };
    let mut any = DeviceSelector::path("unused".to_owned());
    any.path = None;
    any.name = Some("keyboard".to_owned());
    let listed = |devices: &[DeviceInfo]| -> Vec<String> {
        devices.iter().map(|device| device.path.clone()).collect()
    };
    let expected = ["/dev/input/event10", "/dev/input/event2", "../a", "-x", "a"];
    assert_eq!(listed(&select_devices(&vec![any], &scan).unwrap()), expected);
    let mut scanner = PeriodicDeviceScanner::new(10);
    assert_eq!(listed(&scanner.apply_scan(scan).delta.added), expected);
    assert_eq!(listed(&scanner.known()), expected);
}

#[test]
fn a_removed_device_takes_every_grab_with_it() {
    let wait = |os_error| fetch_failed(false, false, os_error, "no".to_owned());
    assert_eq!(fetch_failed(true, false, None, "busy".to_owned()), FetchStep::Wait);
    assert_eq!(wait(Some(19)), FetchStep::GiveUpGrabs);
    assert_eq!(wait(Some(6)), FetchStep::GiveUpGrabs);
    assert_eq!(wait(Some(5)), FetchStep::Fail("no".to_owned()));
    for still_grabbed in [false, true] {
        let mut set = CaptureSet::default();
        for path in ["one", "two"] {
            set.add_node(path.to_owned(), &Vec::new(), CaptureNode::new(None));
        }
        set.ungrabbed(true);
        set.read_ready("one", Fetched::Events(vec![report()]), 0).unwrap();
        let generation = set.aggregate_state().boundary_generation();
        assert_eq!(
            set.read_ready("one", Fetched::Removed { still_grabbed }, 0),
            Err(CaptureReadError::DeviceRemoved { path: "one".to_owned() })
        );
        assert_eq!(set.paths(), ["two"]);
        assert_eq!(set.is_grabbed(), still_grabbed);
        assert_eq!(set.aggregate_state().boundary_generation(), generation);
    }
}

#[test]
fn removed_and_unknown_devices_cannot_be_read() {
    let mut set = CaptureSet::default();
    assert_eq!(
        set.read_ready("/dev/input/event1", Fetched::Events(Vec::new()), 0),
        Err(CaptureReadError::UnknownDevice("/dev/input/event1".to_owned()))
    );
    assert!(is_device_removed(true, None));
    assert!(is_device_removed(false, Some(19)));
    assert!(!is_device_removed(false, Some(5)));
}

#[test]
fn reconciling_opens_new_devices_and_drops_gone_ones() {
    let mut set = CaptureSet::default();
    for path in ["/dev/input/event1", "/dev/input/event2"] {
        set.add_node(path.to_owned(), &Vec::new(), CaptureNode::new(None));
    }
    let plan = set.plan_reconcile(&vec![
        info("/dev/input/event2", "two"),
        info("/dev/input/event3", "three"),
    ]);
    assert_eq!(plan.removed, ["/dev/input/event1"]);
    assert_eq!(plan.missing, [1]);
    assert!(!plan.activation_must_close);
    set.remove_nodes(&plan.removed);
    assert_eq!(set.paths(), ["/dev/input/event2"]);
}

#[test]
fn neutrality_needs_every_device() {
    let free = || HeldObservation {
        path: "/dev/input/event1".to_owned(),
        held: Ok(0),
    };
    assert_eq!(kernel_is_neutral(&vec![free(), free()]), Ok(true));
    let held = HeldObservation { path: "/dev/input/event2".to_owned(), held: Ok(1) };
    assert_eq!(kernel_is_neutral(&vec![free(), held]), Ok(false));
    let broken = HeldObservation {
        path: "/dev/input/event3".to_owned(),
        held: Err("gone".to_owned()),
    };
    assert_eq!(
        kernel_is_neutral(&vec![free(), broken]),
        Err(CaptureSetError::InspectState {
            path: "/dev/input/event3".to_owned(),
            source: "gone".to_owned(),
        })
    );
}

// ---------------------------------------------------------------------------
// Devices
// ---------------------------------------------------------------------------

#[test]
fn exact_virtual_identifiers_are_always_excluded() {
    for (index, role) in [
        VirtualDeviceRole::Keyboard,
        VirtualDeviceRole::Pointer,
        VirtualDeviceRole::Touchpad,
    ]
    .into_iter()
    .enumerate()
    {
        let path = format!("/dev/input/event{}", index + 8);
        let virtual_device = virtual_info(&path, role);
        assert_eq!(virtual_device.zflow_role(), Some(role));
        assert!(virtual_device.is_zflow_virtual());

        let scan = DeviceScan { devices: vec![virtual_device], failures: Vec::new() };
        let error = select_devices(&vec![DeviceSelector::path(path)], &scan).unwrap_err();
        assert!(matches!(error, SelectionError::NoMatch { .. }));
    }
}

#[test]
fn selector_can_match_composite_nodes_and_deduplicates_overlaps() {
    let scan = DeviceScan {
        devices: vec![
            info("/dev/input/event2", "Composite Keyboard"),
            info("/dev/input/event3", "Composite Keyboard"),
        ],
        failures: Vec::new(),
    };
    let selected = select_devices(
        &vec![
            DeviceSelector {
                path: None,
                name: Some("Composite Keyboard".to_owned()),
                physical_path: None,
                unique_name: None,
            },
            DeviceSelector::path("/dev/input/event2".to_owned()),
        ],
        &scan,
    )
    .unwrap();
    assert_eq!(selected.len(), 2);
}

#[test]
fn empty_selectors_are_refused() {
    let scan = DeviceScan { devices: vec![info("/dev/input/event2", "x")], failures: Vec::new() };
    let nothing =
        DeviceSelector { path: None, name: None, physical_path: None, unique_name: None };
    assert!(nothing.is_empty());
    assert_eq!(
        select_devices(&vec![nothing], &scan).unwrap_err(),
        SelectionError::EmptySelector { index: 0 }
    );
}

#[test]
fn rescanner_reports_add_change_and_remove() {
    let mut scanner = PeriodicDeviceScanner::new(2_000_000_000);
    let scan = |name: &str| DeviceScan {
        devices: vec![info("/dev/input/event1", name)],
        failures: Vec::new(),
    };
    let first = scanner.apply_scan(scan("one"));
    assert_eq!(first.delta.added.len(), 1);

    let second = scanner.apply_scan(scan("replacement"));
    assert_eq!(second.delta.added.len(), 1);
    assert_eq!(second.delta.removed.len(), 1);

    let unchanged = scanner.apply_scan(scan("replacement"));
    assert!(unchanged.delta.is_empty());

    let third = scanner.apply_scan(DeviceScan::default());
    assert_eq!(third.delta.removed.len(), 1);
}

#[test]
fn scans_are_due_at_their_interval() {
    let mut scanner = PeriodicDeviceScanner::new(10);
    assert!(scanner.is_due(0));
    assert!(scanner.poll(5, Err("denied".to_owned())).is_err());
    assert!(scanner.is_due(6));
    assert!(scanner.poll(6, Ok(DeviceScan::default())).unwrap().is_some());
    assert!(!scanner.is_due(15));
    assert!(scanner.poll(15, Ok(DeviceScan::default())).unwrap().is_none());
    assert!(scanner.is_due(16));
    assert_eq!(scanner.interval(), 10);
    assert!(scanner.known().is_empty());
}

#[test]
fn devices_are_classified_by_their_codes() {
    let description = DeviceDescription {
        name: Some("mouse".to_owned()),
        physical_path: None,
        unique_name: None,
        id: InputId { bus: 3, vendor: 1, product: 2, version: 4 },
        keys: Some(CodeSet::from_codes(&vec![BTN_LEFT as u32])),
        relative_axes: Some(CodeSet::from_codes(&vec![
            REL_X as u32,
            REL_Y as u32,
            REL_WHEEL_HI_RES as u32,
        ])),
    };
    let device = DeviceInfo::from_device("/dev/input/event4".to_owned(), &description);
    assert!(!device.has_keyboard_keys && device.has_pointer_buttons);
    assert!(device.has_relative_pointer && device.has_high_resolution_wheel);
    assert_eq!(device.input_id().version, 4);
    assert!(is_event_node("event12") && !is_event_node("mouse0") && !is_event_node("eventx"));
}

// ---------------------------------------------------------------------------
// Ownership
// ---------------------------------------------------------------------------

#[test]
fn arming_waits_for_aggregate_neutral_and_complete_frames() {
    let one = "/dev/input/event1";
    let two = "/dev/input/event2";
    let mut aggregate = AggregateInputState::default();
    aggregate.add_device(one.to_owned(), &vec![KeyCode::new(KEY_A)]);
    aggregate.add_device(two.to_owned(), &Vec::new());
    let mut ownership = SourceOwnership::default();
    ownership.request_activation().unwrap();

    assert_eq!(ownership.at_complete_boundary(&aggregate, false), OwnershipEffect::Nothing);
    aggregate.observe(one, key(KEY_A, 0));
    assert!(!aggregate.all_at_boundary());
    assert_eq!(ownership.at_complete_boundary(&aggregate, true), OwnershipEffect::Nothing);
    aggregate.observe(one, report());
    assert_eq!(ownership.at_complete_boundary(&aggregate, true), OwnershipEffect::AcquireGrabs);
    ownership.grab_succeeded().unwrap();
    assert_eq!(ownership.phase(), OwnershipPhase::Remote);
}

#[test]
fn failed_grab_returns_to_idle() {
    let mut ownership = SourceOwnership::default();
    let path = "/dev/input/event1";
    let mut aggregate = AggregateInputState::default();
    aggregate.add_device(path.to_owned(), &Vec::new());
    ownership.request_activation().unwrap();
    aggregate.observe(path, report());
    assert_eq!(ownership.at_complete_boundary(&aggregate, true), OwnershipEffect::AcquireGrabs);
    ownership.grab_failed().unwrap();
    assert_eq!(ownership.phase(), OwnershipPhase::Idle);
}

#[test]
fn graceful_release_queues_terminal_then_waits_for_boundary() {
    let path = "/dev/input/event1";
    let mut aggregate = AggregateInputState::default();
    aggregate.add_device(path.to_owned(), &Vec::new());
    let mut ownership = SourceOwnership::default();
    ownership.request_activation().unwrap();
    aggregate.observe(path, report());
    assert_eq!(ownership.at_complete_boundary(&aggregate, true), OwnershipEffect::AcquireGrabs);
    ownership.grab_succeeded().unwrap();

    assert_eq!(ownership.request_release(true), OwnershipEffect::QueueTerminal);
    aggregate.observe(path, key(KEY_ESC, 1));
    assert_eq!(ownership.at_complete_boundary(&aggregate, true), OwnershipEffect::Nothing);
    aggregate.observe(path, report());
    assert_eq!(ownership.at_complete_boundary(&aggregate, true), OwnershipEffect::Nothing);
    ownership.terminal_sent().unwrap();
    assert_eq!(ownership.at_complete_boundary(&aggregate, true), OwnershipEffect::ReleaseGrabs);
    ownership.release_completed().unwrap();
    assert_eq!(ownership.phase(), OwnershipPhase::Idle);
}

#[test]
fn quiescent_remote_release_uses_the_current_complete_boundary() {
    let path = "/dev/input/event1";
    let mut aggregate = AggregateInputState::default();
    aggregate.add_device(path.to_owned(), &Vec::new());
    let mut ownership = SourceOwnership::default();
    ownership.request_activation().unwrap();
    assert_eq!(ownership.at_complete_boundary(&aggregate, true), OwnershipEffect::AcquireGrabs);
    ownership.grab_succeeded().unwrap();

    assert_eq!(ownership.request_release(true), OwnershipEffect::QueueTerminal);
    assert_eq!(ownership.at_complete_boundary(&aggregate, true), OwnershipEffect::Nothing);
    ownership.terminal_sent().unwrap();
    assert_eq!(ownership.at_complete_boundary(&aggregate, true), OwnershipEffect::ReleaseGrabs);
    ownership.release_completed().unwrap();
    assert_eq!(ownership.phase(), OwnershipPhase::Idle);
}

#[test]
fn suspend_and_removal_force_remote_release() {
    let mut ownership = SourceOwnership {
        phase: OwnershipPhase::Remote,
        ..SourceOwnership::default()
    };
    assert_eq!(ownership.suspend(), OwnershipEffect::CloseActivationAndReleaseGrabs);
    ownership.release_completed().unwrap();
    assert_eq!(ownership.phase(), OwnershipPhase::Idle);

    ownership.request_activation().unwrap();
    assert_eq!(ownership.device_removed(), OwnershipEffect::CancelActivation);
}

#[test]
fn results_out_of_turn_are_refused() {
    let mut ownership = SourceOwnership::default();
    assert_eq!(ownership.grab_succeeded(), Err(OwnershipError::NoGrabPending));
    assert_eq!(ownership.grab_failed(), Err(OwnershipError::NoGrabPending));
    assert_eq!(ownership.release_completed(), Err(OwnershipError::NoReleasePending));
    assert_eq!(ownership.terminal_sent(), Err(OwnershipError::NoTerminalPending));
    ownership.request_activation().unwrap();
    assert_eq!(
        ownership.request_activation(),
        Err(OwnershipError::CannotArm(OwnershipPhase::Arming))
    );
}

#[test]
fn held_keys_belong_to_their_device() {
    let mut aggregate = AggregateInputState::default();
    aggregate.add_device("a".to_owned(), &Vec::new());
    aggregate.add_device("b".to_owned(), &Vec::new());
    assert!(aggregate.observe("a", key(KEY_A, 1)));
    assert!(aggregate.observe("b", key(KEY_A, 1)));
    assert!(aggregate.observe("b", key(KEY_A, 0)));
    assert!(!aggregate.observe("c", key(KEY_A, 1)));
    assert!(!aggregate.is_neutral());
    assert!(aggregate.held_on("a").unwrap().contains(KEY_A as u32));
    assert!(aggregate.replace_held("a", &Vec::new()));
    assert!(aggregate.is_neutral());
    assert!(aggregate.remove_device("a") && !aggregate.remove_device("a"));
    assert_eq!(aggregate.len(), 1);
    assert!(!aggregate.is_empty());
}

// ---------------------------------------------------------------------------
// Touch and uinput
// ---------------------------------------------------------------------------

fn abs(axis: u16, value: i32) -> InputEvent {
    event(EV_ABS, axis, value)
}

fn accumulator() -> TouchAccumulator {
    TouchAccumulator::new(
        TouchAxisRange::new(100, 1_399).unwrap(),
        TouchAxisRange::new(50, 772).unwrap(),
    )
}

#[test]
fn type_b_contact_lifecycle_emits_complete_states_only_at_report_boundaries() {
    let mut touch = accumulator();
    assert!(touch.push(abs(ABS_MT_SLOT, 0)).unwrap().is_none());
    touch.push(abs(ABS_MT_TRACKING_ID, 41)).unwrap();
    touch.push(abs(ABS_MT_POSITION_X, 750)).unwrap();
    touch.push(abs(ABS_MT_POSITION_Y, 411)).unwrap();
    let (landed, count) = touch.push(report()).unwrap().unwrap();
    assert_eq!(count, 4);
    assert_eq!(landed.len(), 1);
    let contact = landed.get(ContactId(41)).unwrap();
    assert_eq!((contact.x, contact.y), (650, 361));
    assert_eq!(
        contact.source_dimensions,
        Some(SourceDimensions { width: 1_299, height: 722 })
    );
    assert!(touch.push(report()).unwrap().is_none());

    touch.push(abs(ABS_MT_POSITION_Y, 500)).unwrap();
    let (moved, _) = touch.push(report()).unwrap().unwrap();
    assert_eq!(moved.get(ContactId(41)).unwrap().y, 450);

    touch.push(abs(ABS_MT_TRACKING_ID, -1)).unwrap();
    let (lifted, _) = touch.push(report()).unwrap().unwrap();
    assert!(lifted.is_empty());
}

#[test]
fn contacts_in_unsupported_high_slots_are_ignored_without_corrupting_low_slots() {
    let mut touch = accumulator();
    touch.push(abs(ABS_MT_SLOT, 7)).unwrap();
    touch.push(abs(ABS_MT_TRACKING_ID, 99)).unwrap();
    touch.push(abs(ABS_MT_POSITION_X, 500)).unwrap();
    let (state, _) = touch.push(report()).unwrap().unwrap();
    assert!(state.is_empty());
}

#[test]
fn touch_errors_name_what_went_wrong() {
    let mut touch = accumulator();
    assert_eq!(
        touch.push(event(EV_SYN, SYN_DROPPED, 0)),
        Err(TouchError::SynchronizationLost)
    );
    for slot in 0..2 {
        touch.push(abs(ABS_MT_SLOT, slot)).unwrap();
        touch.push(abs(ABS_MT_TRACKING_ID, 5)).unwrap();
    }
    assert_eq!(
        touch.push(report()),
        Err(TouchError::DuplicateTrackingId(ContactId(5)))
    );
    assert!(TouchAxisRange::new(5, 5).is_none());
    assert!(!TouchAxisRange::new(i32::MIN, i32::MAX).unwrap().is_measurable());
}

fn touch(id: u32, x: i32, y: i32) -> TouchContact {
    TouchContact {
        id: ContactId(id),
        x,
        y,
        pressure: None,
        major: None,
        minor: None,
        orientation_millidegrees: None,
        tool: TouchTool::Finger,
        source_dimensions: Some(SourceDimensions { width: 1_299, height: 722 }),
    }
}

fn state(contacts: Vec<TouchContact>) -> TouchState {
    TouchState::new(contacts).unwrap()
}

fn one_touchpad_report(
    previous: &TouchpadState,
    touch: &TouchState,
) -> (Vec<InputEvent>, TouchpadState) {
    let mut reports = plan_touchpad_events(previous, touch).unwrap();
    assert_eq!(reports.len(), 1);
    reports.pop().unwrap()
}

fn slot_of(state: &TouchpadState, id: u32) -> usize {
    state.target(ContactId(id)).unwrap().slot
}

fn tracking_transitions(events: &[InputEvent]) -> Vec<(i32, i32)> {
    let mut slot = 0;
    let mut transitions = Vec::new();
    for event in events {
        if event.kind != EV_ABS {
            continue;
        }
        if event.code == ABS_MT_SLOT {
            slot = event.value;
        } else if event.code == ABS_MT_TRACKING_ID {
            transitions.push((slot, event.value));
        }
    }
    transitions
}

#[test]
fn legacy_wheel_accumulates_fractional_detents_in_both_directions() {
    let mut remainder = 0;
    assert_eq!(legacy_wheel_delta(&mut remainder, 30), 0);
    assert_eq!(remainder, 30);
    assert_eq!(legacy_wheel_delta(&mut remainder, 90), 1);
    assert_eq!(remainder, 0);
    assert_eq!(legacy_wheel_delta(&mut remainder, -60), 0);
    assert_eq!(legacy_wheel_delta(&mut remainder, -60), -1);
    assert_eq!(remainder, 0);
}

#[test]
fn pointer_value_range_error_names_the_axis() {
    let mut events = Vec::new();
    let error = push_relative(&mut events, REL_X, "pointer x", i64::MAX).unwrap_err();
    assert!(matches!(
        error,
        InjectionError::ValueOutOfRange { axis: "pointer x", value: i64::MAX }
    ));
}

#[test]
fn touchpad_plan_preserves_slots_and_releases_lifted_contacts() {
    let initial = state(vec![touch(10, 100, 200), touch(20, 900, 500)]);
    let (landing, shown) = one_touchpad_report(&TouchpadState::default(), &initial);
    assert!(landing
        .iter()
        .any(|event| event.kind == EV_KEY && event.code == BTN_TOOL_DOUBLETAP && event.value == 1));
    assert_eq!(slot_of(&shown, 10), 0);
    assert_eq!(slot_of(&shown, 20), 1);

    let moved = state(vec![touch(10, 200, 300), touch(20, 900, 500)]);
    let (movement, shown) = one_touchpad_report(&shown, &moved);
    assert!(movement
        .iter()
        .any(|event| event.kind == EV_ABS && event.code == ABS_MT_POSITION_X));
    assert_eq!(slot_of(&shown, 10), 0);

    let remaining = state(vec![touch(20, 900, 500)]);
    let (lift, shown) = one_touchpad_report(&shown, &remaining);
    assert!(lift
        .iter()
        .any(|event| event.kind == EV_ABS && event.code == ABS_MT_TRACKING_ID && event.value == -1));
    assert_eq!(slot_of(&shown, 20), 1);
}

#[test]
fn touchpad_plan_scales_source_dimensions_and_emits_final_lift() {
    let initial = state(vec![touch(1, 1_299, 722)]);
    let (landing, shown) = one_touchpad_report(&TouchpadState::default(), &initial);
    assert!(landing
        .iter()
        .any(|event| event.code == ABS_MT_POSITION_X && event.value == TOUCHPAD_MAX_X));
    assert!(landing
        .iter()
        .any(|event| event.code == ABS_MT_POSITION_Y && event.value == TOUCHPAD_MAX_Y));

    let (lift, empty) = one_touchpad_report(&shown, &TouchState::default());
    assert!(empty.contacts.is_empty());
    assert!(lift
        .iter()
        .any(|event| event.kind == EV_KEY && event.code == BTN_TOUCH && event.value == 0));
}

#[test]
fn touchpad_plan_uses_a_fresh_slot_for_simultaneous_lift_and_land() {
    let initial = state(vec![touch(1, 100, 200)]);
    let (_, shown) = one_touchpad_report(&TouchpadState::default(), &initial);
    assert_eq!(slot_of(&shown, 1), 0);

    let replacement = state(vec![touch(2, 900, 500)]);
    let reports = plan_touchpad_events(&shown, &replacement).unwrap();
    assert_eq!(reports.len(), 1);
    assert_eq!(tracking_transitions(&reports[0].0), vec![(0, -1), (1, 2)]);
    assert_eq!(slot_of(&reports[0].1, 2), 1);
}

#[test]
fn touchpad_plan_splits_full_capacity_replacement_across_reports() {
    let initial = state(vec![
        touch(1, 100, 200),
        touch(2, 300, 200),
        touch(3, 500, 200),
        touch(4, 700, 200),
        touch(5, 900, 200),
    ]);
    let (_, shown) = one_touchpad_report(&TouchpadState::default(), &initial);

    let replacement = state(vec![
        touch(1, 100, 200),
        touch(2, 300, 200),
        touch(3, 500, 200),
        touch(4, 700, 200),
        touch(6, 1_100, 200),
    ]);
    let reports = plan_touchpad_events(&shown, &replacement).unwrap();

    assert_eq!(reports.len(), 2);
    assert_eq!(tracking_transitions(&reports[0].0), vec![(4, -1)]);
    assert_eq!(tracking_transitions(&reports[1].0), vec![(4, 6)]);
    for id in 1..=4 {
        assert_eq!(slot_of(&reports[0].1, id), (id - 1) as usize);
        assert_eq!(slot_of(&reports[1].1, id), (id - 1) as usize);
    }
    assert_eq!(slot_of(&reports[1].1, 6), 4);
}

#[test]
fn touches_need_a_touchpad_with_room() {
    let six = state((1..=6).map(|id| touch(id, 1, 1)).collect());
    assert_eq!(
        plan_touchpad_events(&TouchpadState::default(), &six),
        Err(TooManyContacts { actual: 6, maximum: 5 })
    );
    assert_eq!(
        replace_touch(Some(&TouchpadState::default()), &six),
        Err(InjectionError::TooManyTouchContacts { actual: 6, maximum: 5 })
    );
    let one = state(vec![touch(1, 1, 1)]);
    assert_eq!(replace_touch(None, &one), Err(InjectionError::TouchpadDisabled));
    assert_eq!(replace_touch(None, &TouchState::default()), Ok(Vec::new()));
    assert_eq!(scale_touch_axis(&touch(1, 0, 0), true), 0);
    assert_eq!(scale_touch_axis(&touch(1, 9_999, 9_999), false), TOUCHPAD_MAX_Y);
}

#[test]
fn held_keys_and_buttons_are_remembered_and_released() {
    let mut keyboard = VirtualKeyboard::create();
    let a = HidUsage::keyboard(4);
    assert_eq!(keyboard.set_key(a, true), Ok(Some(key(KEY_A, 1))));
    assert_eq!(keyboard.repeat_key(a), Err(InjectionError::RepeatOfReleasedKey { usage: a }));
    keyboard.key_emitted(a, true);
    assert_eq!(keyboard.set_key(a, true), Ok(None));
    assert_eq!(keyboard.repeat_key(a), Ok(key(KEY_A, 2)));
    assert_eq!(keyboard.release_all(), Ok(vec![key(KEY_A, 0)]));
    keyboard.all_released();
    assert!(keyboard.held().is_empty());
    let unknown = HidUsage::keyboard(0xfff);
    assert_eq!(
        keyboard.set_key(unknown, true),
        Err(InjectionError::Unsupported(MappingError::UnsupportedHidUsage {
            page: 7,
            usage: 0xfff,
        }))
    );

    // The first held usage without a key is reported, whatever was held first.
    keyboard.key_emitted(unknown, true);
    keyboard.key_emitted(HidUsage::keyboard(0xffe), true);
    keyboard.key_emitted(a, true);
    assert_eq!(
        keyboard.release_all(),
        Err(InjectionError::Unsupported(MappingError::UnsupportedHidUsage {
            page: 7,
            usage: 0xffe,
        }))
    );

    let mut pointer = VirtualPointer::create();
    assert_eq!(pointer.set_button(PointerButton(1), true), Ok(Some(key(BTN_LEFT, 1))));
    pointer.button_emitted(PointerButton(1), true);
    assert_eq!(pointer.release_all(), Ok(vec![key(BTN_LEFT, 0)]));
    pointer.all_released();
    assert!(pointer.held().is_empty());
    let moved = pointer
        .motion(MotionDelta { dx: 2, dy: 0, scroll_x: 0, scroll_y: 150 })
        .unwrap();
    assert!(moved.contains(&event(EV_REL, REL_X, 2)));
    assert!(moved.contains(&event(EV_REL, REL_WHEEL_HI_RES, 150)));
    assert!(moved.contains(&event(EV_REL, REL_WHEEL, 1)));
    let far = MotionDelta { dx: i64::MAX, ..MotionDelta::default() };
    assert!(matches!(pointer.motion(far), Err(InjectionError::ValueOutOfRange { .. })));
}

#[test]
fn every_device_is_released_and_failures_are_counted() {
    assert_eq!(release_all(Ok(()), Ok(()), None), Ok(()));
    let error = release_all(
        Err(InjectionError::TouchpadDisabled),
        Ok(()),
        Some(Err(InjectionError::TouchpadDisabled)),
    )
    .unwrap_err();
    assert_eq!(error.count, 2);
    assert_eq!(error.failures.len(), 2);
}

#[test]
fn only_slotted_touchpads_are_decoded() {
    let slots = [ABS_MT_SLOT, ABS_MT_TRACKING_ID, ABS_MT_POSITION_X, ABS_MT_POSITION_Y];
    let axes = |codes: &[u16]| {
        Some(CodeSet::from_codes(&codes.iter().map(|code| u32::from(*code)).collect()))
    };
    let range = |code, maximum| AxisInfo { code, minimum: 50, maximum };
    let ranges = vec![range(ABS_MT_POSITION_X, 1_399), range(ABS_MT_POSITION_Y, 772)];
    let touch = TouchAccumulator::from_device(&axes(&slots), &ranges).unwrap();
    assert!(touch.is_measurable());
    assert!(TouchAccumulator::from_device(&axes(&slots[1..]), &ranges).is_none());
    assert!(TouchAccumulator::from_device(&None, &ranges).is_none());
    let flat = vec![range(ABS_MT_POSITION_X, 1_399), range(ABS_MT_POSITION_Y, 50)];
    assert!(TouchAccumulator::from_device(&axes(&slots), &flat).is_none());
}
