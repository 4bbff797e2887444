use zflow::capture::{CaptureFrame, CaptureTransition, KeyState};
use zflow::config::{
    Config, DaemonConfig, InputConfig, PlayoutConfig, PlayoutMode, Share, TransportConfig,
};
use zflow::desktop::DesktopResponse;
use zflow::input::{
    ContactId, HidUsage, MotionDelta, PointerButton, TouchContact, TouchState, TouchTool,
};
use zflow::linux::capture::CapturedDeviceFrame;
use zflow::net::SocketAddress;
use zflow::ordered::OrderedMap;
use zflow::session::actor::{
    session_result, start_result, Arrival, ControlMessage, ControlRefusal, ControlRoute,
    MessageRefusal, MessageRoute, SenderTick, SessionActor, StartError, StartOutcome,
};
use zflow::session::arrivals::{ArrivalLog, Enqueued};
use zflow::session::control::{
    add_units, after_control, authorize_step, motion_fate, MotionCounters, MotionFate,
    PlayoutProgress, SessionBoundary,
};
use zflow::session::desktop::{
    request_result, DesktopError, DesktopExchange, RequestError, RequestOutcome,
};
use zflow::session::effects::{is_synthetic_release, next_response, split_effects, Response};
use zflow::session::merge::CaptureMerger;
use zflow::session::messages::{
    ActiveScroll, CumulativeMotion, MotionAnchor, MotionFrame, ReceiverEffect, RejectionReason,
    ReliableControl, ReliableControlMessage, ScrollPhase, ScrollSource, ScrollUnit,
    SessionContext, SnapshotAck, TakeoverAccepted,
};
use zflow::session::negotiation::{
    confirm_negotiation, select_negotiation, InputCapabilities, InputCapability, NegotiatedSession,
    NegotiationError, NegotiationOffer, ProtocolVersion, SessionOptions, CURRENT_PROTOCOL_VERSION,
};
use zflow::session::outbound::{
    check_begin, check_capture, plan_capture, CaptureStep, OutboundError,
};
use zflow::session::pacing::{
    answer_probe, random_session_id, session_id_drawn, session_id_from, EventRate, PendingProbe,
    ProbeBook, ProbeEcho, SessionIdError,
};
use zflow::session::pending::{
    discard_pending_context, enqueue_pending_control, pending_control_is_ready, pop_pending,
};
use zflow::session::validation::{
    validate_negotiated_control, validate_negotiated_motion, EventFamily, Violation,
};

fn config(touchpad: bool) -> Config {
    Config {
        daemon: DaemonConfig { state_dir: "/s".to_owned(), control_socket: "/c".to_owned() },
        input: InputConfig {
            capture_devices: Vec::new(),
            activation_chord: Vec::new(),
            escape_chord: Vec::new(),
            experimental_touchpad: touchpad,
            allow_prelogin_input: false,
        },
        transport: TransportConfig {
            listen: SocketAddress::V4 { ip: 0, port: 43119 },
            discovery: false,
            checkpoint_ms: 50,
            lease_ms: 250,
        },
        playout: PlayoutConfig {
            mode: PlayoutMode::Fixed,
            fixed_delay_ms: 5,
            minimum_delay_ms: 0,
            maximum_delay_ms: 40,
            percentile: Share { bits: 0.95_f64.to_bits(), hundredths: 95 },
        },
        peers: OrderedMap::new(false),
    }
}

fn offer(touchpad: bool) -> NegotiationOffer {
    SessionOptions::from_config(&config(touchpad)).offer
}

#[test]
fn sessions_play_out_as_configured() {
    let mut settings = config(false);
    settings.playout.percentile = Share { bits: 0.999_f64.to_bits(), hundredths: 100 };
    let playout = SessionOptions::from_config(&settings).playout;
    assert_eq!(playout.adaptive_percentile, 100);
    assert_eq!((playout.mode, playout.fixed_delay_ms), (PlayoutMode::Fixed, 5));
    assert_eq!((playout.minimum_delay_ms, playout.maximum_delay_ms), (0, 40));
}

fn negotiated(touchpad: bool) -> NegotiatedSession {
    select_negotiation(&offer(touchpad), &offer(touchpad)).unwrap()
}

fn context() -> SessionContext {
    SessionContext {
        protocol_version: ProtocolVersion(CURRENT_PROTOCOL_VERSION),
        session_epoch: 7,
        transport_generation: 1,
        activation_id: 1,
    }
}

fn anchor() -> MotionAnchor {
    MotionAnchor {
        activation_id: 1,
        through_motion_sequence: 1,
        sender_capture_time: 1_000,
        totals: CumulativeMotion { dx: 12, dy: 0, scroll_x: 0, scroll_y: 0 },
        final_touch_state: TouchState::default(),
    }
}

fn message(sequence: u64, payload: ReliableControl) -> ReliableControlMessage {
    ReliableControlMessage { session: context(), sequence, payload }
}

fn key_down() -> ReliableControl {
    ReliableControl::KeyDown { key: HidUsage::keyboard(4) }
}

fn contact(id: u32) -> TouchContact {
    TouchContact {
        id: ContactId(id),
        x: 1,
        y: 2,
        pressure: None,
        major: None,
        minor: None,
        orientation_millidegrees: None,
        tool: TouchTool::Finger,
        source_dimensions: None,
    }
}

// ---------------------------------------------------------------------------
// Negotiation
// ---------------------------------------------------------------------------

#[test]
fn protocol_version_is_current() {
    assert_eq!(ProtocolVersion(CURRENT_PROTOCOL_VERSION), ProtocolVersion(1));
}

#[test]
fn negotiation_is_symmetric_and_requires_the_linux_baseline() {
    let selected = negotiated(false);
    assert!(selected.capabilities.contains(InputCapability::Keyboard));
    assert!(selected.capabilities.contains(InputCapability::Pointer));
    assert!(selected.capabilities.contains(InputCapability::Scroll));

    let mut incomplete = offer(false);
    incomplete.supported_capabilities = InputCapabilities {
        keyboard: true,
        consumer_controls: false,
        pointer: false,
        scroll: false,
        touch: false,
    };
    assert_eq!(
        select_negotiation(&offer(false), &incomplete),
        Err(NegotiationError::MissingCapability)
    );
    let mut newer = offer(false);
    newer.protocol_versions = vec![ProtocolVersion(9)];
    assert_eq!(
        select_negotiation(&offer(false), &newer),
        Err(NegotiationError::NoCommonVersion)
    );
    assert_eq!(
        select_negotiation(&offer(true), &offer(false)),
        select_negotiation(&offer(false), &offer(true))
    );
    assert_eq!(confirm_negotiation(selected, selected), Some(selected));
    assert_eq!(confirm_negotiation(selected, negotiated(true)), None);
}

#[test]
fn touch_is_optional_and_uses_the_smaller_contact_limit() {
    let mixed = select_negotiation(&offer(false), &offer(true)).unwrap();
    assert!(!mixed.capabilities.contains(InputCapability::Touch));
    assert_eq!(mixed.contact_limit, 0);

    let mut smaller = offer(true);
    smaller.maximum_contacts = 3;
    let selected = select_negotiation(&offer(true), &smaller).unwrap();
    assert!(selected.capabilities.contains(InputCapability::Touch));
    assert_eq!(selected.contact_limit, 3);
}

#[test]
fn negotiated_capabilities_reject_omitted_event_families_before_receiver_state() {
    let selected = negotiated(false);
    assert!(!selected.capabilities.contains(InputCapability::Touch));
    assert_eq!(
        validate_negotiated_control(
            &ReliableControl::TouchBegin { initial_state: TouchState::default() },
            &selected,
        ),
        Err(Violation::MissingCapability {
            event: EventFamily::TouchControl,
            capability: InputCapability::Touch,
        })
    );

    let frame = MotionFrame {
        session: SessionContext { session_epoch: 1, ..context() },
        motion_sequence: 1,
        control_watermark: 1,
        sender_capture_time: 1,
        totals: CumulativeMotion { dx: 0, dy: 0, scroll_x: 0, scroll_y: 0 },
        touch_snapshot: Some(TouchState::default()),
    };
    assert!(validate_negotiated_motion(&frame, &selected).is_err());
    assert!(validate_negotiated_motion(&frame, &negotiated(true)).is_ok());

    let mut without_consumer = offer(false);
    without_consumer.supported_capabilities.consumer_controls = false;
    let without_consumer = select_negotiation(&offer(false), &without_consumer).unwrap();
    let volume = ReliableControl::KeyDown { key: HidUsage::consumer(0xe9) };
    assert!(validate_negotiated_control(&volume, &without_consumer).is_err());
    assert!(validate_negotiated_control(&volume, &selected).is_ok());

    let scroll = ReliableControl::ScrollBegin {
        scroll: ActiveScroll {
            id: 1,
            source: ScrollSource {
                unit: ScrollUnit::Device,
                resolution_x: None,
                resolution_y: None,
            },
            phase: ScrollPhase::Begin,
            momentum_phase: None,
        },
    };
    assert!(validate_negotiated_control(&scroll, &selected).is_err());
}

#[test]
fn contacts_beyond_the_limit_are_refused() {
    let mut smaller = offer(true);
    smaller.maximum_contacts = 1;
    let selected = select_negotiation(&offer(true), &smaller).unwrap();
    let touch = |ids: &[u32]| ReliableControl::TouchBegin {
        initial_state: TouchState::new(ids.iter().map(|id| contact(*id)).collect()).unwrap(),
    };
    assert_eq!(validate_negotiated_control(&touch(&[1]), &selected), Ok(()));
    assert_eq!(
        validate_negotiated_control(&touch(&[1, 2]), &selected),
        Err(Violation::TooManyContacts)
    );
}

// ---------------------------------------------------------------------------
// Merging and sending
// ---------------------------------------------------------------------------

fn key_frame(device: &str, state: KeyState) -> CapturedDeviceFrame {
    CapturedDeviceFrame {
        device_path: device.to_owned(),
        frame: CaptureFrame {
            transitions: vec![CaptureTransition::Key { usage: HidUsage::keyboard(0xe0), state }],
            motion: MotionDelta::default(),
            touch_snapshot: None,
            event_count: 1,
        },
        captured_at: 0,
    }
}

#[test]
fn capture_merge_keeps_overlapping_devices_held_until_the_last_release() {
    let mut merge = CaptureMerger::default();
    let mut sent = |device: &str, state| {
        merge.merge(key_frame(device, state)).frame.transitions.len()
    };
    assert_eq!(sent("/dev/input/one", KeyState::Pressed), 1);
    assert_eq!(sent("/dev/input/two", KeyState::Pressed), 0);
    assert_eq!(sent("/dev/input/one", KeyState::Released), 0);
    assert_eq!(sent("/dev/input/two", KeyState::Released), 1);
}

#[test]
fn a_cleared_merge_forgets_what_was_held() {
    let mut merge = CaptureMerger::default();
    merge.merge(key_frame("/dev/input/one", KeyState::Pressed));
    merge.clear();
    let again = merge.merge(key_frame("/dev/input/two", KeyState::Pressed));
    assert_eq!(again.frame.transitions.len(), 1);
}

#[test]
fn captured_frames_become_messages_in_order() {
    let touch = TouchState::new(vec![contact(1)]).unwrap();
    let motion = MotionDelta { dx: 3, ..MotionDelta::default() };
    let frame = |touch: Option<TouchState>| CaptureFrame {
        transitions: vec![
            CaptureTransition::Key { usage: HidUsage::keyboard(4), state: KeyState::Pressed },
            CaptureTransition::Key { usage: HidUsage::keyboard(4), state: KeyState::Repeat },
            CaptureTransition::Button { button: PointerButton(1), state: KeyState::Released },
        ],
        motion,
        touch_snapshot: touch,
        event_count: 4,
    };
    let steps = plan_capture(frame(Some(touch)), true, false);
    assert!(matches!(
        steps.as_slice(),
        [
            CaptureStep::TouchBegin(_),
            CaptureStep::Motion { touch: None, .. },
            CaptureStep::KeyDown(_),
            CaptureStep::ButtonUp(PointerButton(1)),
        ]
    ));
    let lifted = plan_capture(frame(Some(TouchState::default())), true, true);
    assert!(matches!(
        lifted.as_slice(),
        [CaptureStep::Motion { .. }, CaptureStep::TouchEnd, ..]
    ));
    let unshared = plan_capture(
        frame(Some(TouchState::new(vec![contact(1)]).unwrap())),
        false,
        false,
    );
    assert!(matches!(unshared[0], CaptureStep::Motion { touch: None, .. }));
    assert_eq!(unshared.len(), 3);
    assert_eq!(
        check_begin(true, ProtocolVersion(1), ProtocolVersion(1)),
        Err(OutboundError::AlreadyOpen)
    );
    assert_eq!(check_capture(false), Err(OutboundError::NotOpen));
    assert_eq!(check_capture(true), Ok(()));
}

// ---------------------------------------------------------------------------
// Pending controls
// ---------------------------------------------------------------------------

#[test]
fn event_rate_rejects_work_past_the_fixed_window_bound() {
    let mut rate = EventRate::new(2, 0);
    rate.observe(0).unwrap();
    rate.observe(0).unwrap();
    assert!(rate.observe(0).is_err());
    assert!(rate.observe(999_999).is_err());
    assert!(rate.observe(1_000_000).is_ok());
}

#[test]
fn anchored_controls_wait_in_fifo_and_follow_clock_remapping() {
    let mut pending = Vec::new();
    let button = ReliableControl::ButtonDown { button: PointerButton(1), anchor: anchor() };
    enqueue_pending_control(&mut pending, message(2, button), 0, 11_000, 4_096).unwrap();
    enqueue_pending_control(&mut pending, message(3, key_down()), 0, 11_001, 4_096).unwrap();
    let playout = Some((context(), 50_000));

    // Without a clock mapping the capture time stands for the arrival.
    assert_eq!(
        pending_control_is_ready(&pending[0], Some(context()), playout, 11_000, 60_999),
        Ok(false)
    );
    assert_eq!(pending.len(), 2, "later controls must remain behind the anchor");

    // The mapping of the clocks shows that both started together.
    assert_eq!(
        pending_control_is_ready(&pending[0], Some(context()), playout, 1_000, 51_000),
        Ok(true)
    );
    assert_eq!(
        pending_control_is_ready(&pending[0], Some(context()), playout, 1_000, 50_999),
        Ok(false)
    );
    assert!(pending_control_is_ready(&pending[0], Some(context()), None, 0, 0).is_err());
    assert_eq!(pending_control_is_ready(&pending[0], None, None, 0, 0), Ok(true));
    assert_eq!(pending_control_is_ready(&pending[1], Some(context()), playout, 0, 0), Ok(true));
    assert_eq!(pop_pending(&mut pending).unwrap().message.sequence, 2);
    assert_eq!(pop_pending(&mut pending).unwrap().message.sequence, 3);
    assert!(pop_pending(&mut pending).is_none());
}

#[test]
fn deferred_control_queue_is_bounded_and_cleared_with_its_activation() {
    let mut pending = Vec::new();
    enqueue_pending_control(&mut pending, message(2, key_down()), 0, 0, 1).unwrap();
    assert!(enqueue_pending_control(&mut pending, message(2, key_down()), 0, 0, 1).is_err());

    discard_pending_context(&mut pending, SessionContext { activation_id: 2, ..context() });
    assert_eq!(pending.len(), 1);
    discard_pending_context(&mut pending, context());
    assert!(pending.is_empty());
}

// ---------------------------------------------------------------------------
// Actor
// ---------------------------------------------------------------------------

#[test]
fn one_outbound_activation_is_open_at_a_time() {
    let mut actor = SessionActor::new();
    let version = ProtocolVersion(1);
    assert_eq!(
        actor.begin_outbound(
            SessionContext { protocol_version: ProtocolVersion(2), ..context() },
            version,
        ),
        Err(OutboundError::WrongVersion)
    );
    assert_eq!(actor.begin_outbound(context(), version), Ok(()));
    assert_eq!(actor.begin_outbound(context(), version), Err(OutboundError::AlreadyOpen));
    assert!(!actor.sender_ticked(SenderTick::Checkpoint));
    assert!(actor.outbound.is_some());
    assert!(actor.sender_ticked(SenderTick::ExitRemote));
    assert!(!actor.end_outbound(true));
    actor.begin_outbound(context(), version).unwrap();
    assert!(actor.end_outbound(true));
    actor.begin_outbound(context(), version).unwrap();
    assert!(!actor.end_outbound(false));
    assert!(actor.outbound.is_none());
}

#[test]
fn controls_go_to_the_sender_or_wait_their_turn() {
    let session = negotiated(false);
    let mut actor = SessionActor::new();
    let ack = SnapshotAck { snapshot_sequence: 3, accepted_generation: 1 };
    let accepted = TakeoverAccepted { accepted_generation: 2 };
    let receive = |actor: &mut SessionActor, payload| {
        actor.control_received(message(1, payload), &session, 0, 0, 1)
    };
    assert_eq!(
        receive(&mut actor, ReliableControl::SnapshotAck(ack)),
        Err(ControlRefusal::AcknowledgementWithoutActivation)
    );
    assert_eq!(
        receive(&mut actor, ReliableControl::TakeoverAccepted(accepted)),
        Err(ControlRefusal::TakeoverWithoutActivation)
    );
    actor.outbound = Some(SessionContext { activation_id: 9, ..context() });
    assert_eq!(
        receive(&mut actor, ReliableControl::SnapshotAck(ack)),
        Err(ControlRefusal::AcknowledgementOfOther)
    );
    actor.outbound = Some(context());
    assert_eq!(
        receive(&mut actor, ReliableControl::SnapshotAck(ack)),
        Ok(ControlRoute::Acknowledge(ack))
    );
    assert_eq!(
        receive(&mut actor, ReliableControl::TakeoverAccepted(accepted)),
        Ok(ControlRoute::AcceptTakeover(accepted))
    );
    assert!(matches!(
        receive(&mut actor, ReliableControl::TouchBegin { initial_state: TouchState::default() }),
        Err(ControlRefusal::NotNegotiated(_))
    ));
    assert_eq!(receive(&mut actor, key_down()), Ok(ControlRoute::Queued));
    assert_eq!(receive(&mut actor, key_down()), Err(ControlRefusal::QueueFull));
    actor.receiver_moved(Some(context()), Some(context()));
    assert_eq!(actor.pending.len(), 1);
    actor.receiver_moved(Some(context()), None);
    assert!(actor.pending.is_empty());
}

#[test]
fn a_session_is_negotiated_only_once() {
    let session = negotiated(false);
    let mut actor = SessionActor::new();
    let mut exchange = DesktopExchange::new();
    let arrival = Arrival { received_at: 1, receiver_received_at: 2, session_ms: 3 };
    let mut receive =
        |message| actor.message_received(&mut exchange, message, &session, arrival, 1);
    for repeated in [ControlMessage::NegotiationOffer, ControlMessage::NegotiatedSession] {
        assert_eq!(receive(repeated), Err(MessageRefusal::RepeatedNegotiation));
    }
    let request = || ControlMessage::DesktopRequest { id: 7, finish: false };
    assert_eq!(receive(request()), Ok(MessageRoute::DesktopRequested));
    assert_eq!(receive(request()), Err(MessageRefusal::Desktop(DesktopError::Overlapping)));
    assert_eq!(
        receive(ControlMessage::DesktopResponse { id: 7 }),
        Err(MessageRefusal::Desktop(DesktopError::UnexpectedResponse))
    );
    let control = || ControlMessage::Reliable(message(1, key_down()));
    assert_eq!(receive(control()), Ok(MessageRoute::Control(ControlRoute::Queued)));
    assert_eq!(receive(control()), Err(MessageRefusal::Control(ControlRefusal::QueueFull)));
    assert_eq!(exchange.incoming.unwrap().started_at, 3);
    assert_eq!(actor.pending[0].receiver_received_at, 2);
}

#[test]
fn failed_cleanup_is_reported_before_the_reason() {
    let failed = |reason: &str| Err(reason.to_owned());
    assert_eq!(session_result(Ok(()), Ok(()), Ok(())), Ok(()));
    assert_eq!(session_result(Ok(()), Ok(()), failed("run")), failed("run"));
    assert_eq!(session_result(Ok(()), failed("receiver"), failed("run")), failed("receiver"));
    assert_eq!(
        session_result(failed("outbound"), failed("receiver"), Ok(())),
        failed("outbound")
    );
}

// ---------------------------------------------------------------------------
// Control, effects, probes and desktop
// ---------------------------------------------------------------------------

#[test]
fn sessions_are_authorized_and_taken_over() {
    let boundary = SessionBoundary {
        protocol_version: ProtocolVersion(1),
        session_epoch: 7,
        transport_generation: 1,
    };
    assert!(authorize_step(None, context(), false).authorize);
    assert!(!authorize_step(Some(boundary), context(), false).authorize);
    let epoch = authorize_step(
        Some(boundary),
        SessionContext { session_epoch: 8, transport_generation: 2, ..context() },
        false,
    );
    assert!(epoch.authorize && epoch.epoch_changed && !epoch.generation_changed);
    let next = SessionContext { transport_generation: 2, ..context() };
    let generation = authorize_step(Some(boundary), next, false);
    assert!(generation.generation_changed && !generation.epoch_changed);
    assert!(!authorize_step(Some(boundary), next, true).authorize);

    let accepted = vec![ReceiverEffect::TakeoverAccepted {
        session: next,
        accepted: TakeoverAccepted { accepted_generation: 2 },
    }];
    let follow = after_control(Some(boundary), next, true, &accepted);
    assert_eq!(follow.authorized.unwrap().transport_generation, 2);
    assert!(follow.generation_changed && follow.restart_playout && !follow.begin_activation);
    let opened = vec![ReceiverEffect::ActivationOpened(context())];
    let follow = after_control(Some(boundary), context(), false, &opened);
    assert!(follow.begin_activation && follow.restart_playout && follow.advance_playout);
    let rejected = vec![
        ReceiverEffect::ActivationOpened(context()),
        ReceiverEffect::Rejected { session: context(), reason: RejectionReason::Stale },
    ];
    let follow = after_control(Some(boundary), context(), false, &rejected);
    assert!(!follow.begin_activation && !follow.advance_playout);
}

#[test]
fn movement_is_counted_in_units() {
    assert_eq!(add_units(5, -3, 4), 12);
    assert_eq!(add_units(u64::MAX - 1, i64::MIN, 4), u64::MAX);
    let mut counters = MotionCounters {
        explicit_rebases: 0,
        rebase_discarded_pointer_units: 0,
        rebase_discarded_scroll_units: 0,
        scheduler_late_events: 0,
        catch_up_steps: 0,
        catch_up_pointer_units: 0,
        catch_up_scroll_units: 0,
    };
    let delta = MotionDelta { dx: -2, dy: 3, scroll_x: 4, scroll_y: -5 };
    counters.record_rebase(delta);
    assert_eq!(counters.rebase_discarded_pointer_units, 5);
    assert_eq!(counters.rebase_discarded_scroll_units, 9);
    counters.record_step(PlayoutProgress {
        late_before: 1,
        late_after: 3,
        catch_up_before: 0,
        catch_up_after: 1,
        pointer_limited: true,
        scroll_limited: false,
        delta,
    });
    assert_eq!((counters.scheduler_late_events, counters.catch_up_steps), (2, 1));
    assert_eq!((counters.catch_up_pointer_units, counters.catch_up_scroll_units), (5, 0));
    assert_eq!(motion_fate(None, context(), true), MotionFate::Stale);
    assert_eq!(
        motion_fate(Some(context()), context(), false),
        MotionFate::Schedule { bootstrap_clock: true }
    );
}

#[test]
fn effects_are_applied_answered_or_rejected() {
    let ack = SnapshotAck { snapshot_sequence: 1, accepted_generation: 1 };
    let release = || ReceiverEffect::Key {
        key: HidUsage::keyboard(4),
        pressed: false,
        synthetic: true,
    };
    assert!(is_synthetic_release(&release()));
    let split = split_effects(vec![
        release(),
        ReceiverEffect::SnapshotAck { session: context(), ack },
        ReceiverEffect::Rejected { session: context(), reason: RejectionReason::Duplicate },
    ])
    .ok()
    .unwrap();
    assert_eq!(split.backend, vec![release()]);
    assert_eq!((split.responses.len(), split.rejected, split.synthetic_releases), (1, 1, 1));
    let fatal = split_effects(vec![ReceiverEffect::Rejected {
        session: context(),
        reason: RejectionReason::ControlGap,
    }]);
    assert!(fatal.is_err());

    let mut sequence = 0;
    let answer = || Response { session: context(), payload: ReliableControl::SnapshotAck(ack) };
    assert_eq!(next_response(&mut sequence, answer()).unwrap().sequence, 1);
    sequence = u64::MAX;
    assert!(next_response(&mut sequence, answer()).is_none());
}

#[test]
fn probes_are_answered_once() {
    let mut book = ProbeBook::new(0);
    assert_eq!(book.tick(0, Some(context())), Ok(None));
    assert_eq!(book.tick(99_999, Some(context())), Ok(None));
    let probe = PendingProbe { sequence: 1, sent_at: 100_000 };
    assert_eq!(book.tick(100_000, Some(context())), Ok(Some(probe)));
    assert!(!book.echo(context(), 1, 99, Some(context())));
    assert!(!book.echo(context(), 1, 100_000, Some(context())));
    book.tick(200_000, Some(context())).unwrap();
    assert!(!book.echo(context(), 2, 200_000, None));
    assert!(book.echo(context(), 2, 200_000, Some(context())));
    assert!(!book.echo(context(), 2, 200_000, Some(context())));
}

#[test]
fn session_ids_are_random_and_never_zero() {
    assert_eq!(session_id_from([0; 8]), None);
    assert_eq!(session_id_from([1, 2, 0, 0, 0, 0, 0, 0]), Some(513));
    assert_eq!(session_id_from([255; 8]), Some(u64::MAX));
    assert_eq!(session_id_drawn(None), Some(Err(SessionIdError::NoRandomness)));
    assert_eq!(session_id_drawn(Some([0; 8])), None);
    assert_eq!(session_id_drawn(Some([0, 1, 0, 0, 0, 0, 0, 0])), Some(Ok(256)));
    let first = random_session_id().unwrap();
    let second = random_session_id().unwrap();
    assert_ne!(first, 0);
    assert_ne!(first, second);
}

#[test]
fn desktop_requests_take_turns() {
    let mut exchange = DesktopExchange::new();
    assert!(exchange.request(1));
    assert!(!exchange.request(2));
    assert_eq!(exchange.response(1), Ok(()));
    assert_eq!(exchange.response(1), Err(DesktopError::UnexpectedResponse));
    assert!(exchange.request(3));
    assert_eq!(exchange.response(4), Err(DesktopError::WrongResponse));

    assert_eq!(exchange.receive(7, true, 100), Ok(()));
    assert_eq!(exchange.receive(8, false, 100), Err(DesktopError::Overlapping));
    // Ending a handoff waits for the controls before it and for the activation.
    assert_eq!(exchange.dispatch(200, true, false), Ok(None));
    assert_eq!(exchange.dispatch(200, false, true), Ok(None));
    assert_eq!(exchange.dispatch(1_100, false, true), Err(DesktopError::OrderingTimeout));
    assert_eq!(exchange.dispatch(300, false, false).unwrap().unwrap().id, 7);
    assert_eq!(exchange.receive(9, false, 300), Err(DesktopError::Overlapping));
    assert_eq!(exchange.check_reply(400, false, false), Ok(None));
    assert_eq!(exchange.check_reply(400, false, true), Err(DesktopError::ReceiverStopped));
    assert_eq!(exchange.check_reply(1_100, false, false), Err(DesktopError::ReplyTimeout));
    assert_eq!(exchange.check_reply(400, true, false), Ok(Some(7)));
    assert_eq!(exchange.receive(9, false, 400), Ok(()));
}

#[test]
fn only_an_answer_keeps_the_session() {
    let (answer, close) = request_result(RequestOutcome::Answered(DesktopResponse::unavailable(
        "Start the GNOME receiver",
    )));
    assert!(answer.is_ok());
    assert!(!close);
    for (outcome, error) in [
        (RequestOutcome::TimedOut, RequestError::TimedOut),
        (RequestOutcome::ChannelClosed, RequestError::ChannelClosed),
        (RequestOutcome::Exhausted, RequestError::Exhausted),
        (
            RequestOutcome::QueueUnavailable("channel closed".to_owned()),
            RequestError::QueueUnavailable("channel closed".to_owned()),
        ),
    ] {
        let (result, close) = request_result(outcome);
        assert_eq!(result, Err(error));
        assert!(close);
    }
}

#[test]
fn sessions_start_only_when_negotiated() {
    assert_eq!(start_result(StartOutcome::Ready), Ok(()));
    assert_eq!(
        start_result(StartOutcome::Refused("no version".to_owned())),
        Err(StartError::Refused("no version".to_owned()))
    );
    assert_eq!(
        start_result(StartOutcome::Stopped),
        Err(StartError::StoppedDuringNegotiation)
    );
    assert_eq!(start_result(StartOutcome::TimedOut), Err(StartError::TimedOut));
}

#[test]
fn stale_probes_get_no_answer() {
    let active = context();
    let stale = SessionContext { activation_id: active.activation_id + 1, ..active };
    assert_eq!(
        answer_probe(Some(active), active, 3, 100, 130),
        Some(ProbeEcho {
            session: active,
            sequence: 3,
            probe_sent_at: 100,
            received_at: 130,
            echoed_at: 130,
        })
    );
    assert_eq!(answer_probe(Some(active), stale, 3, 100, 130), None);
    assert_eq!(answer_probe(None, active, 3, 100, 130), None);
}

#[test]
fn arrivals_are_kept_until_shown() {
    let mut log = ArrivalLog::new();
    assert!(!log.enqueued(Enqueued::Queued { sequence: 4 }, 40));
    assert!(!log.enqueued(Enqueued::Queued { sequence: 2 }, 20));
    assert!(!log.enqueued(Enqueued::Queued { sequence: 9 }, 90));
    assert!(!log.enqueued(Enqueued::Duplicate, 95));
    assert!(log.enqueued(Enqueued::RetiredByTarget, 96));
    assert!(log.enqueued(Enqueued::RetiredByRebase, 97));
    assert_eq!(log.get(2), Some(20));
    assert_eq!(log.get(3), None);
    log.forget_through(4);
    assert_eq!(log.get(2), None);
    assert_eq!(log.get(4), None);
    assert_eq!(log.get(9), Some(90));
    assert!(!log.enqueued(Enqueued::Queued { sequence: 9 }, 99));
    assert_eq!(log.get(9), Some(99));
}
