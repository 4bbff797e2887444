use zflow::capture::{CaptureTransition, KeyState};
use zflow::config::{
    Config, DaemonConfig, InputConfig, PeerConfig, PeerPermissions, PlayoutConfig, PlayoutMode,
    Share, TransportConfig,
};
use zflow::desktop::{
    desktop_operation, desktop_response_kind, DesktopRequest, DesktopResponse, Edge, Geometry,
    Point, Rect, FRACTION_MAX, MAX_TOKEN,
};
use zflow::input::{ContactId, HidUsage, MotionDelta, PointerButton, TouchState};
use zflow::macos::awdl::{
    validate_helper, AwDlLease, FileFacts, HelperProblem, LeaseError, LeasePhase, LeaseStep,
};
use zflow::macos::frames::{
    native_frame, touch_frame, NativeContact, NativeEvent, BUTTON_EVENT, ESCAPE_EVENT, KEY_EVENT,
    MOTION_EVENT, TOUCH_EVENT,
};
use zflow::macos::handoff::{
    check_entry, handoff_token, random_handoff_token, validate_finished, validate_prepared,
    EntryProblem, FinishError, HandoffOptions, PrepareError,
};
use zflow::macos::keys::mac_keycode_to_hid;
use zflow::macos::native::{modifier_pressed, should_forward_scroll, ALPHA_SHIFT};
use zflow::macos::source::{
    after_shutdown, conclude, final_statuses, plan_source, Cleanup, SourceError, SourceGuard,
    SourceLoop, SourcePlan, SourceRefusal, SourceSessionEvent, SourceStatus, SourceStep,
};
use zflow::net::SocketAddress;
use zflow::ordered::OrderedMap;

#[test]
fn maps_main_return_to_hid_return() {
    assert_eq!(mac_keycode_to_hid(36), Some(HidUsage::keyboard(0x28)));
}

#[test]
fn unknown_mac_keys_have_no_usage() {
    assert_eq!(mac_keycode_to_hid(10), None);
    assert_eq!(mac_keycode_to_hid(u16::MAX), None);
    assert_eq!(mac_keycode_to_hid(126), Some(HidUsage::keyboard(0x52)));
    let mut seen = Vec::new();
    for code in 0..200 {
        if let Some(usage) = mac_keycode_to_hid(code) {
            assert!(!seen.contains(&usage));
            seen.push(usage);
        }
    }
    assert_eq!(seen.len(), 105);
}

#[test]
fn modifier_sides_follow_device_specific_flags() {
    let pairs: [(u16, u16, u64, u64, u64); 4] = [
        (55, 54, 0x0010_0000, 0x0000_0008, 0x0000_0010),
        (56, 60, 0x0002_0000, 0x0000_0002, 0x0000_0004),
        (58, 61, 0x0008_0000, 0x0000_0020, 0x0000_0040),
        (59, 62, 0x0004_0000, 0x0000_0001, 0x0000_2000),
    ];

    for (left_keycode, right_keycode, aggregate, left, right) in pairs {
        let both_pressed = aggregate | left | right;
        assert!(modifier_pressed(left_keycode, both_pressed));
        assert!(modifier_pressed(right_keycode, both_pressed));

        let left_released = aggregate | right;
        assert!(!modifier_pressed(left_keycode, left_released));
        assert!(modifier_pressed(right_keycode, left_released));

        let right_released = aggregate | left;
        assert!(modifier_pressed(left_keycode, right_released));
        assert!(!modifier_pressed(right_keycode, right_released));
    }
}

#[test]
fn caps_lock_uses_the_aggregate_flag() {
    assert!(modifier_pressed(57, ALPHA_SHIFT));
    assert!(!modifier_pressed(57, 0));
}

#[test]
fn raw_touch_suppresses_phased_scroll_even_after_lift() {
    for active in [false, true] {
        for phase in [1, 2, 4, 8, 16, 32, 128] {
            assert!(!should_forward_scroll(true, active, phase, 0));
            assert!(!should_forward_scroll(true, active, 0, phase));
            assert!(!should_forward_scroll(true, active, phase, phase));
        }
    }
}

#[test]
fn raw_touch_preserves_unphased_wheel_after_lift() {
    assert!(should_forward_scroll(true, false, 0, 0));
    assert!(!should_forward_scroll(true, true, 0, 0));
}

#[test]
fn pointer_only_capture_preserves_scroll_and_momentum() {
    for active in [false, true] {
        for (scroll, momentum) in [(0, 0), (1, 0), (2, 0), (0, 1), (0, 2), (0, 3)] {
            assert!(should_forward_scroll(false, active, scroll, momentum));
        }
    }
}

fn event(kind: u32) -> NativeEvent {
    NativeEvent {
        kind,
        dx: 0,
        dy: 0,
        scroll_x: 0,
        scroll_y: 0,
        code: 0,
        button: 0,
        pressed: 0,
        contact_count: 0,
        contacts: [NativeContact { id: 0, x: 0, y: 0 }; 5],
    }
}

#[test]
fn native_events_become_frames() {
    let moved = NativeEvent { dx: 3, dy: -4, scroll_x: 5, scroll_y: -6, ..event(MOTION_EVENT) };
    let captured = native_frame(&moved, 17).unwrap().unwrap();
    assert_eq!(captured.device_path, "macos:event-tap");
    assert_eq!(captured.captured_at, 17);
    assert_eq!(
        captured.frame.motion,
        MotionDelta { dx: 3, dy: -4, scroll_x: 5, scroll_y: -6 }
    );
    assert_eq!(captured.frame.event_count, 1);

    let key = NativeEvent { code: 36, pressed: 1, ..event(KEY_EVENT) };
    assert_eq!(
        native_frame(&key, 0).unwrap().unwrap().frame.transitions,
        vec![CaptureTransition::Key {
            usage: HidUsage::keyboard(0x28),
            state: KeyState::Pressed,
        }]
    );
    let button = NativeEvent { button: 2, ..event(BUTTON_EVENT) };
    assert_eq!(
        native_frame(&button, 0).unwrap().unwrap().frame.transitions,
        vec![CaptureTransition::Button { button: PointerButton(2), state: KeyState::Released }]
    );
    assert_eq!(native_frame(&NativeEvent { code: 10, ..event(KEY_EVENT) }, 0), Ok(None));
    assert_eq!(native_frame(&event(ESCAPE_EVENT), 0), Ok(None));
    assert_eq!(native_frame(&event(99), 0), Ok(None));
}

#[test]
fn native_touches_become_touch_states() {
    let mut touch = NativeEvent { contact_count: 200, ..event(TOUCH_EVENT) };
    for (place, id) in [9, -1, 3, 4, 5].into_iter().enumerate() {
        touch.contacts[place] = NativeContact { id, x: id * 10, y: id * 20 };
    }
    let captured = native_frame(&touch, 5).unwrap().unwrap();
    assert_eq!(captured.device_path, "macos:magic-trackpad");
    let state = captured.frame.touch_snapshot.unwrap();
    let ids: Vec<u32> = state.contacts().iter().map(|contact| contact.id.0).collect();
    assert_eq!(ids, [3, 4, 5, 9]);
    assert_eq!(state.get(ContactId(9)).unwrap().y, 180);
    touch.contacts[1].id = 9;
    assert_eq!(native_frame(&touch, 5), Err(ContactId(9)));
    touch.contact_count = 1;
    let one = native_frame(&touch, 5).unwrap().unwrap().frame.touch_snapshot.unwrap();
    assert_eq!(one.len(), 1);
    let empty = touch_frame(TouchState::default(), 8);
    assert!(empty.frame.touch_snapshot.unwrap().is_empty());
}

#[test]
fn handoff_tokens_fit_the_receiver_javascript_integer_range() {
    assert_eq!(handoff_token([0; 8]), 1);
    assert_eq!(handoff_token([u8::MAX; 8]), MAX_TOKEN);
    assert!(handoff_token([0x80; 8]) <= MAX_TOKEN);
}

#[test]
fn drawn_handoff_tokens_differ_and_are_in_range() {
    let first = random_handoff_token().unwrap();
    let second = random_handoff_token().unwrap();
    assert!((1..=MAX_TOKEN).contains(&first) && (1..=MAX_TOKEN).contains(&second));
    assert_ne!(first, second);
}

#[test]
fn requests_name_a_part_of_an_edge() {
    let prepare = |token, start, end, position| DesktopRequest::Prepare {
        token,
        edge: Edge::Left,
        start,
        end,
        position,
    };
    assert!(prepare(7, 0, FRACTION_MAX, 500_000).is_valid());
    assert!(!prepare(0, 0, FRACTION_MAX, 500_000).is_valid());
    assert!(!prepare(7, 0, FRACTION_MAX + 1, 500_000).is_valid());
    assert!(!prepare(7, 500, 500, 500).is_valid());
    assert!(!prepare(7, 500, 600, 601).is_valid());
    assert!(DesktopRequest::Snapshot.is_valid());
    assert!(DesktopRequest::Poll { token: MAX_TOKEN }.is_valid());
    assert!(!DesktopRequest::Finish { token: MAX_TOKEN + 1 }.is_valid());
}

fn handoff() -> HandoffOptions {
    HandoffOptions {
        edge: Edge::Left,
        start: 0,
        end: FRACTION_MAX,
        position: 500_000,
        expected_width: 2880,
        expected_height: 1620,
    }
}

fn prepared() -> DesktopResponse {
    DesktopResponse::Prepared {
        geometry: Geometry {
            monitors: vec![Rect { x: -2880, y: -200, width: 2880, height: 1620 }],
        },
        position: Point { x: -2879, y: 610 },
    }
}

#[test]
fn handoff_requires_prepared_geometry_to_match_saved_target() {
    assert!(validate_prepared(&handoff(), prepared()).is_ok());
    assert_eq!(
        validate_prepared(&HandoffOptions { expected_width: 3840, ..handoff() }, prepared()),
        Err(PrepareError::SizeChanged)
    );
    assert_eq!(
        validate_prepared(&handoff(), DesktopResponse::Active),
        Err(PrepareError::NotPrepared)
    );
    assert_eq!(
        validate_prepared(&handoff(), DesktopResponse::unavailable("missing extension")),
        Err(PrepareError::Unavailable("missing extension".to_owned()))
    );
    let nothing = DesktopResponse::Prepared {
        geometry: Geometry { monitors: Vec::new() },
        position: Point { x: 0, y: 0 },
    };
    assert_eq!(validate_prepared(&handoff(), nothing), Err(PrepareError::InvalidGeometry));
}

#[test]
fn desktop_bounds_hold_every_monitor() {
    let geometry = Geometry {
        monitors: vec![
            Rect { x: -100, y: 0, width: 100, height: 50 },
            Rect { x: 0, y: -20, width: 300, height: 40 },
        ],
    };
    assert_eq!(geometry.bounds(), Some(Rect { x: -100, y: -20, width: 400, height: 70 }));
    let huge = Geometry {
        monitors: vec![
            Rect { x: i32::MIN, y: 0, width: 1, height: 1 },
            Rect { x: i32::MAX, y: 0, width: u32::MAX, height: 1 },
        ],
    };
    assert_eq!(huge.bounds(), None);
}

#[test]
fn handoff_return_requires_explicit_finish_acknowledgement() {
    assert!(validate_finished(Ok(DesktopResponse::Finished)).is_ok());
    assert_eq!(
        validate_finished(Ok(DesktopResponse::Active)),
        Err(FinishError::NotConfirmed)
    );
    assert_eq!(
        validate_finished(Ok(DesktopResponse::unavailable("receiver still active"))),
        Err(FinishError::Unavailable("receiver still active".to_owned()))
    );
    assert_eq!(
        validate_finished(Err("disconnected".to_owned())),
        Err(FinishError::Failed("disconnected".to_owned()))
    );
}

#[test]
fn crossings_are_checked_once_more_before_capture() {
    assert_eq!(check_entry(true, true, true), Ok(()));
    assert_eq!(check_entry(false, false, false), Err(EntryProblem::HeldInput));
    assert_eq!(check_entry(true, false, false), Err(EntryProblem::LeftEdge));
    assert_eq!(check_entry(true, true, false), Err(EntryProblem::DesktopChanged));
}

#[test]
fn source_guard_excludes_concurrent_sources_and_releases_on_drop() {
    let mut guard = SourceGuard::new();
    guard.acquire().unwrap();
    assert!(guard.acquire().is_err());
    guard.release();
    assert!(guard.acquire().is_ok());
}

fn config(permissions: PeerPermissions, addresses: Vec<SocketAddress>) -> Config {
    let mut peers = OrderedMap::new(false);
    peers.insert("desk".to_owned(), PeerConfig::from_spki(&vec![7], addresses, permissions));
    Config {
        daemon: DaemonConfig { state_dir: "/s".to_owned(), control_socket: "/c".to_owned() },
        input: InputConfig {
            capture_devices: Vec::new(),
            activation_chord: Vec::new(),
            escape_chord: Vec::new(),
            experimental_touchpad: true,
            allow_prelogin_input: false,
        },
        transport: TransportConfig {
            listen: SocketAddress::V4 { ip: 0, port: 43119 },
            discovery: false,
            checkpoint_ms: 50,
            lease_ms: 250,
        },
        playout: PlayoutConfig {
            mode: PlayoutMode::Fixed,
            fixed_delay_ms: 5,
            minimum_delay_ms: 0,
            maximum_delay_ms: 40,
            percentile: Share { bits: 0.95_f64.to_bits(), hundredths: 95 },
        },
        peers,
    }
}

#[test]
fn sources_need_a_permitted_peer_with_an_address() {
    let allowed = PeerPermissions {
        connect: true,
        send_normal: false,
        receive_normal: true,
        inject_prelogin: false,
    };
    let first = SocketAddress::V6 { ip: 9, port: 43119, flowinfo: 0, scope_id: 0 };
    let ready = config(allowed, vec![first]);
    assert_eq!(plan_source(&ready, "other", None, true, true), Err(SourceRefusal::UnknownPeer));
    assert_eq!(
        plan_source(&config(PeerPermissions::default(), vec![first]), "desk", None, true, true),
        Err(SourceRefusal::NotPermitted)
    );
    assert_eq!(
        plan_source(&config(allowed, Vec::new()), "desk", None, true, true),
        Err(SourceRefusal::NoAddress)
    );
    assert_eq!(
        plan_source(&ready, "desk", None, true, true),
        Ok(SourcePlan {
            address: first,
            bind: SocketAddress::V6 { ip: 0, port: 0, flowinfo: 0, scope_id: 0 },
            raw_touch: true,
            fell_back: false,
        })
    );
    let chosen = SocketAddress::V4 { ip: 1, port: 2 };
    let plan = plan_source(&ready, "desk", Some(chosen), true, false).unwrap();
    assert_eq!((plan.address, plan.raw_touch, plan.fell_back), (chosen, false, true));
    assert_eq!(plan.bind, SocketAddress::V4 { ip: 0, port: 0 });
    let plan = plan_source(&ready, "desk", Some(chosen), false, true).unwrap();
    assert!(!plan.raw_touch && !plan.fell_back);
}

#[test]
fn the_source_stops_where_the_receiver_returns_it() {
    let edge = HandoffOptions { start: 10, end: 20, ..handoff() };
    let mut source = SourceLoop::new(0);
    assert_eq!(
        source.desktop_answered(Ok(DesktopResponse::Active), Some(edge)),
        SourceStep::Continue
    );
    assert_eq!(
        source.desktop_answered(Ok(DesktopResponse::Returned { position: 20 }), Some(edge)),
        SourceStep::Stop
    );
    assert_eq!(source.returned, Some(20));
    let mut source = SourceLoop::new(0);
    source.desktop_answered(Ok(DesktopResponse::Returned { position: 21 }), Some(edge));
    assert_eq!((source.returned, source.error), (None, Some(SourceError::ReturnedOutside)));
    let mut source = SourceLoop::new(0);
    source.desktop_answered(Ok(DesktopResponse::unavailable("gone")), None);
    assert_eq!(source.error, Some(SourceError::DesktopUnavailable("gone".to_owned())));
    source.desktop_answered(Ok(DesktopResponse::Finished), None);
    assert_eq!(source.error, Some(SourceError::UnexpectedDesktopResponse));
    source.desktop_answered(Err("timeout".to_owned()), None);
    assert_eq!(source.error, Some(SourceError::DesktopRequestFailed("timeout".to_owned())));
}

#[test]
fn stale_touches_are_lifted() {
    let mut source = SourceLoop::new(0);
    assert!(!source.event_read(ESCAPE_EVENT, 0, 5));
    assert!(source.event_read(TOUCH_EVENT, 2, 10));
    assert_eq!(source.round_read(false, 159), SourceStep::Continue);
    assert_eq!(source.round_read(false, 160), SourceStep::ReleaseTouch);
    assert_eq!(source.round_read(true, 160), SourceStep::Stop);
    assert_eq!(source.touch_released(Ok(())), SourceStep::Continue);
    assert_eq!(source.round_read(false, 500), SourceStep::Continue);
    assert!(source.event_read(TOUCH_EVENT, 1, 600));
    assert_eq!(source.touch_released(Err("closed".to_owned())), SourceStep::Stop);
    assert!(source.touch_active);
    assert_eq!(source.round_read(false, 601), SourceStep::Stop);
}

#[test]
fn session_events_end_a_source() {
    let mut source = SourceLoop::new(0);
    assert_eq!(source.session_event(SourceSessionEvent::Desktop), SourceStep::RefuseDesktop);
    assert_eq!(source.error, None);
    for (event, error, step) in [
        (
            SourceSessionEvent::ReceiverEffects,
            SourceError::ReceivedInput,
            SourceStep::RefuseInput,
        ),
        (
            SourceSessionEvent::Closed("bye".to_owned()),
            SourceError::SessionClosed("bye".to_owned()),
            SourceStep::Stop,
        ),
        (SourceSessionEvent::OutboundEnded, SourceError::OwnershipEnded, SourceStep::Stop),
        (SourceSessionEvent::ChannelClosed, SourceError::SessionChannelClosed, SourceStep::Stop),
    ] {
        let mut source = SourceLoop::new(0);
        assert_eq!(source.session_event(event), step);
        assert_eq!(source.error, Some(error));
    }
    let mut source = SourceLoop::new(0);
    assert_eq!(source.renewed(Ok(())), SourceStep::Continue);
    assert_eq!(source.renewed(Err("gone".to_owned())), SourceStep::Stop);
    assert_eq!(source.error, Some(SourceError::RenewalFailed("gone".to_owned())));
    source.forwarding_failed("full".to_owned());
    assert_eq!(source.error, Some(SourceError::ForwardingFailed("full".to_owned())));
}

#[test]
fn the_pointer_returns_only_to_unchanged_displays() {
    let returned = || SourceLoop { returned: Some(7), ..SourceLoop::new(0) };
    let mut source = returned();
    assert!(source.plan_return(Ok(()), true));
    assert!(source.capture_stopped(Ok(()), true));
    let mut source = returned();
    assert!(!source.plan_return(Ok(()), false));
    assert_eq!(source.error, Some(SourceError::DesktopChanged));
    let mut source = returned();
    assert!(!source.plan_return(Err("no edge".to_owned()), true));
    assert_eq!(source.error, Some(SourceError::NoReturnPoint("no edge".to_owned())));
    assert!(!source.capture_stopped(Err("tap".to_owned()), true));
    assert_eq!(source.error, Some(SourceError::NoReturnPoint("no edge".to_owned())));
    let mut source = SourceLoop::new(0);
    assert!(!source.plan_return(Ok(()), true));
    assert!(!source.capture_stopped(Err("tap".to_owned()), false));
    assert_eq!(source.error, Some(SourceError::CaptureFailed("tap".to_owned())));
}

#[test]
fn returns_count_only_after_confirmed_cleanup() {
    let fail = |reason: &str| Some(Err(reason.to_owned()));
    let clean = || Cleanup { released: Some(Ok(())), finished: Some(Ok(())), restored: None };
    assert_eq!(conclude(None, Some(7), clean()), Ok(Some(7)));
    assert_eq!(
        conclude(None, Some(7), Cleanup { released: fail("r"), ..clean() }),
        Err(SourceError::ReleaseUnconfirmed("r".to_owned()))
    );
    assert_eq!(
        conclude(None, Some(7), Cleanup { finished: fail("f"), ..clean() }),
        Err(SourceError::FinishUnconfirmed("f".to_owned()))
    );
    assert_eq!(
        conclude(None, None, Cleanup { released: fail("r"), finished: fail("f"), restored: None }),
        Ok(None)
    );
    assert_eq!(
        conclude(None, None, Cleanup { restored: fail("l"), ..clean() }),
        Err(SourceError::LeaseNotRestored("l".to_owned()))
    );
    assert_eq!(
        conclude(Some(SourceError::OwnershipEnded), Some(7), clean()),
        Err(SourceError::OwnershipEnded)
    );
    assert_eq!(
        after_shutdown(Ok(Some(7)), Err("late".to_owned())),
        Err(SourceError::NotClosed("late".to_owned()))
    );
    assert_eq!(
        after_shutdown(Err(SourceError::OwnershipEnded), Err("late".to_owned())),
        Err(SourceError::OwnershipEnded)
    );
    assert_eq!(
        final_statuses(Ok(Some(7))),
        vec![SourceStatus::Returned { position: 7 }, SourceStatus::Stopped]
    );
    assert_eq!(final_statuses(Ok(None)), vec![SourceStatus::Stopped]);
    assert_eq!(
        final_statuses(Err("no".to_owned())),
        vec![SourceStatus::Failed("no".to_owned())]
    );
}

#[test]
fn the_helper_protocol_runs_in_order() {
    let mut lease = AwDlLease::start();
    assert_eq!(lease.expected().unwrap(), b"READY\n");
    assert_eq!(lease.renew(), Err(LeaseError::OutOfTurn));
    assert_eq!(lease.answered(&b"READY\n".to_vec()), Ok(LeaseStep::Send(b'A')));
    assert_eq!(lease.expected().unwrap(), b"ACTIVE\n");
    assert_eq!(lease.answered(&b"ACTIVE\n".to_vec()), Ok(LeaseStep::Done));
    assert_eq!(lease.expected(), None);
    assert_eq!(lease.answered(&b"HELD\n".to_vec()), Err(LeaseError::OutOfTurn));
    assert_eq!(lease.renew(), Ok(LeaseStep::Send(b'H')));
    assert_eq!(lease.answered(&b"WELD\n".to_vec()), Err(LeaseError::UnexpectedResponse));
    // Another heartbeat may follow one that was not answered well.
    assert_eq!(lease.renew(), Ok(LeaseStep::Send(b'H')));
    assert_eq!(lease.answered(&b"HELD\n".to_vec()), Ok(LeaseStep::Done));
    assert_eq!(lease.release(), Ok(LeaseStep::Send(b'R')));
    assert_eq!(lease.expected().unwrap(), b"RELEASED\n");
    assert_eq!(lease.answered(&b"RELEASED\n".to_vec()), Ok(LeaseStep::AwaitExit));
    assert_eq!(lease.release(), Err(LeaseError::OutOfTurn));
    assert_eq!(lease.exited(true), Ok(()));
    assert_eq!(lease.phase, LeasePhase::Ended);
    let mut failed = AwDlLease { phase: LeasePhase::Restored };
    assert_eq!(failed.exited(false), Err(LeaseError::NotRestored));
    let mut early = AwDlLease { phase: LeasePhase::Releasing };
    assert_eq!(early.exited(true), Err(LeaseError::NotRestored));
}

#[test]
fn refuses_an_unprivileged_helper() {
    let unprivileged =
        FileFacts { is_file: true, is_directory: false, owner: 1000, mode: 0o100600 };
    assert!(validate_helper(unprivileged, &Vec::new()).is_err());
}

#[test]
fn only_a_protected_setuid_helper_is_started() {
    let helper = FileFacts { is_file: true, is_directory: false, owner: 0, mode: 0o104755 };
    let directory = FileFacts { is_file: false, is_directory: true, owner: 0, mode: 0o40755 };
    assert_eq!(validate_helper(helper, &vec![directory, directory]), Ok(()));
    for bad in [
        FileFacts { mode: 0o100755, ..helper },
        FileFacts { mode: 0o106755, ..helper },
        FileFacts { mode: 0o104775, ..helper },
        FileFacts { is_file: false, ..helper },
    ] {
        assert_eq!(validate_helper(bad, &vec![directory]), Err(HelperProblem::UnsafeHelper));
    }
    let open = FileFacts { mode: 0o40777, ..directory };
    assert_eq!(
        validate_helper(helper, &vec![directory, open]),
        Err(HelperProblem::UnsafeDirectory(1))
    );
}

#[test]
fn requests_and_responses_have_names() {
    assert_eq!(desktop_operation(&DesktopRequest::Snapshot), "snapshot");
    assert_eq!(desktop_operation(&DesktopRequest::Poll { token: 1 }), "poll");
    assert_eq!(desktop_operation(&DesktopRequest::Finish { token: 1 }), "finish");
    assert_eq!(
        desktop_operation(&DesktopRequest::Prepare {
            token: 1,
            edge: Edge::Top,
            start: 0,
            end: 1,
            position: 0,
        }),
        "prepare"
    );
    assert_eq!(desktop_response_kind(&prepared()), "prepared");
    assert_eq!(desktop_response_kind(&DesktopResponse::Active), "active");
    assert_eq!(desktop_response_kind(&DesktopResponse::Returned { position: 1 }), "returned");
    assert_eq!(desktop_response_kind(&DesktopResponse::Finished), "finished");
    assert_eq!(desktop_response_kind(&DesktopResponse::unavailable("x")), "unavailable");
}
