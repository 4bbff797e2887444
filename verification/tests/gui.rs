use zflow::config::{
    Config, DaemonConfig, InputConfig, PeerConfig, PeerPermissions, PlayoutConfig, PlayoutMode,
    Share, TransportConfig,
};
use zflow::gui::app::{AppState, DiscoveryStep, Page};
use zflow::gui::displays::{
    announce_step, announced_displays, keep_report, match_reports, parse_report, AnnounceStep,
    Announcement, Desktop, Display, Report,
};
use zflow::gui::document::{ConfigDocument, SettingsApp, SyncError};
use zflow::gui::launch::{shell_quote, source_command, LaunchError, LaunchOptions};
use zflow::gui::layout_editor::{
    add_monitor, computer_id, nudge, suggested_layout, DropOutcome, LayoutEditor, TileState,
};
use zflow::gui::layout_model::{
    layout_file_name, Edge, Layout, LayoutDocument, LayoutProblem, Monitor, ReloadProblem,
    SaveProblem, Transition,
};
use zflow::gui::pairing::{
    can_confirm, pairing_address_text, proposed_name, PairingUi, ServiceError, ServicePairing,
    ServiceStep, Stage,
};
use zflow::gui::receiver::{
    check_desktop, check_service, desktop_answer, AttachError, DesktopReceiver, ReceiverMessage,
};
use zflow::gui::settings::{parse_address, AddressError, FieldError, TextFields};
use zflow::gui::sharing::{
    check_ways, EnableError, Notice, Observer, TickFacts, TickOutcome, WorkerEnd,
};
use zflow::desktop::{DesktopResponse, Geometry, Point};
use zflow::macos::source::SourceStatus;
use zflow::net::SocketAddress;
use zflow::ordered::OrderedMap;
use zflow::peer_view::{is_trusted_service, PairingEvent, Snapshot};

fn v4(a: u8, b: u8, c: u8, d: u8, port: u16) -> SocketAddress {
    SocketAddress::V4 { ip: u32::from_be_bytes([a, b, c, d]), port }
}

fn plain_config() -> Config {
    Config {
        daemon: DaemonConfig {
            state_dir: "/var/lib/zflow".to_owned(),
            control_socket: "/run/zflow/control.sock".to_owned(),
        },
        input: InputConfig {
            capture_devices: Vec::new(),
            activation_chord: vec!["KEY_LEFTCTRL".to_owned(), "KEY_F12".to_owned()],
            escape_chord: vec!["KEY_LEFTCTRL".to_owned(), "KEY_BACKSPACE".to_owned()],
            experimental_touchpad: false,
            allow_prelogin_input: false,
        },
        transport: TransportConfig {
            listen: SocketAddress::V6 { ip: 0, port: 43119, flowinfo: 0, scope_id: 0 },
            discovery: true,
            checkpoint_ms: 50,
            lease_ms: 250,
        },
        playout: PlayoutConfig {
            mode: PlayoutMode::Adaptive,
            fixed_delay_ms: 5,
            minimum_delay_ms: 0,
            maximum_delay_ms: 40,
            percentile: Share { bits: 0.95_f64.to_bits(), hundredths: 95 },
        },
        peers: OrderedMap::new(false),
    }
}

fn peer(addresses: Vec<SocketAddress>) -> PeerConfig {
    PeerConfig::from_spki(&b"test".to_vec(), addresses, PeerPermissions::default())
}

fn paired_config() -> Config {
    let mut config = plain_config();
    config.peers.insert(
        "Ubuntu's desk".to_owned(),
        PeerConfig::from_spki(
            &vec![1, 2, 3],
            vec![v4(192, 0, 2, 10, 43119)],
            PeerPermissions {
                connect: true,
                send_normal: false,
                receive_normal: true,
                inject_prelogin: false,
            },
        ),
    );
    config
}

fn assert_same_config(left: &Config, right: &Config) {
    assert_eq!(left.daemon, right.daemon);
    assert_eq!(left.input, right.input);
    assert_eq!(left.transport, right.transport);
    assert_eq!(left.playout, right.playout);
    assert_eq!(left.peers.len(), right.peers.len());
    for at in 0..left.peers.len() {
        assert_eq!(left.peers.key_at(at), right.peers.key_at(at));
        assert_eq!(left.peers.value_at(at), right.peers.value_at(at));
    }
}

fn set_peer(config: &mut Config, name: &str, change: impl Fn(&mut PeerConfig)) {
    let mut changed = config.peers.remove(name).unwrap();
    change(&mut changed);
    config.peers.insert(name.to_owned(), changed);
}

fn monitor(id: &str, x: i32, y: i32, width: u32, height: u32) -> Monitor {
    Monitor {
        id: id.to_owned(),
        label: id.to_owned(),
        peer: if id == "local" { None } else { Some(id.to_owned()) },
        x,
        y,
        width,
        height,
    }
}

// ---------------------------------------------------------------------------
// Displays
// ---------------------------------------------------------------------------

#[test]
fn retina_displays_use_logical_size_without_losing_resolution() {
    let display = Display { width: 3840, height: 2160, scale_milli: 2000 };
    assert_eq!(display.logical_size(), (1920, 1080));
    assert_eq!(display.width, 3840);
    assert!(!Display { scale_milli: 0, ..display }.valid());
}

#[test]
fn logical_sizes_are_never_zero() {
    let display = Display { width: 1, height: 7, scale_milli: 8000 };
    assert!(display.valid());
    assert_eq!(display.logical_size(), (1, 1));
    assert!(!Display { width: 16_385, ..display }.valid());
    assert!(!Display { scale_milli: 8_001, ..display }.valid());
}

fn announcement(displays: Vec<Option<Display>>, sizes: Vec<usize>) -> Announcement {
    Announcement {
        full_name: "random._zflow-display._udp.local.".to_owned(),
        property_sizes: sizes,
        version: Some("1".to_owned()),
        displays,
        addresses: vec![v4(192, 0, 2, 1, 0)],
    }
}

#[test]
fn display_records_reject_extra_fields_invalid_sizes_and_too_many_displays() {
    let display = Display { width: 3840, height: 2160, scale_milli: 2000 };
    let valid = announcement(vec![Some(display)], vec![2, 49]);
    assert_eq!(parse_report(&valid).unwrap().displays[0].logical_size(), (1920, 1080));
    // A property that is no display.
    assert!(parse_report(&announcement(vec![Some(display), None], vec![2, 49, 19])).is_none());
    let flat = Display { width: 0, ..display };
    assert!(parse_report(&announcement(vec![Some(flat)], vec![2, 46])).is_none());
    let many: Vec<Option<Display>> = vec![Some(display); 9];
    assert!(parse_report(&announcement(many, vec![49; 10])).is_none());
}

#[test]
fn announcements_have_a_service_a_version_and_a_size() {
    let display = Display { width: 3840, height: 2160, scale_milli: 2000 };
    let mut other_service = announcement(vec![Some(display)], vec![2, 49]);
    other_service.full_name = "random._other._udp.local.".to_owned();
    assert!(parse_report(&other_service).is_none());
    let mut other_version = announcement(vec![Some(display)], vec![2, 49]);
    other_version.version = Some("2".to_owned());
    assert!(parse_report(&other_version).is_none());
    other_version.version = None;
    assert!(parse_report(&other_version).is_none());
    assert!(parse_report(&announcement(vec![Some(display)], vec![700, 68])).is_some());
    assert!(parse_report(&announcement(vec![Some(display)], vec![700, 69])).is_none());
    assert!(parse_report(&announcement(Vec::new(), vec![2])).is_none());
    let mut crowded = announcement(vec![Some(display)], vec![2, 49]);
    crowded.addresses = (0..20).map(|n| v4(192, 0, 2, n, 0)).collect();
    assert_eq!(parse_report(&crowded).unwrap().addresses.len(), 16);
}

#[test]
fn at_most_eight_valid_displays_are_announced() {
    let good = Display { width: 100, height: 100, scale_milli: 1000 };
    let bad = Display { width: 0, ..good };
    let mut all = vec![bad];
    all.extend(vec![good; 10]);
    assert_eq!(announced_displays(&all), vec![good; 8]);
}

#[test]
fn discovery_matches_only_one_saved_peer_and_never_adds_pairing() {
    let address = v4(192, 0, 2, 1, 43119);
    let mut config = plain_config();
    config.peers.insert("mac".to_owned(), peer(vec![address]));
    let mut reports = OrderedMap::new(false);
    reports.insert(
        "random".to_owned(),
        Report {
            addresses: vec![v4(192, 0, 2, 1, 0)],
            displays: vec![Display { width: 3000, height: 2000, scale_milli: 2000 }],
        },
    );
    let matches = match_reports(&reports, &config);
    assert_eq!(matches.len(), 1);
    assert_eq!(matches.get("mac").unwrap()[0].width, 3000);
    // The same host as an IPv4-mapped IPv6 address.
    let mapped = SocketAddress::V6 {
        ip: 0xffff_0000_0000 + 0xc000_0201,
        port: 43119,
        flowinfo: 0,
        scope_id: 0,
    };
    set_peer(&mut config, "mac", |peer| peer.addresses = vec![mapped]);
    assert_eq!(match_reports(&reports, &config).len(), 1);
    config.peers.insert("ambiguous".to_owned(), peer(vec![address]));
    assert!(match_reports(&reports, &config).len() == 0);
    assert!(match_reports(&reports, &plain_config()).len() == 0);
}

#[test]
fn two_reports_of_one_computer_match_neither() {
    let mut config = plain_config();
    config.peers.insert("mac".to_owned(), peer(vec![v4(192, 0, 2, 1, 43119)]));
    let mut reports = OrderedMap::new(false);
    for name in ["a", "b"] {
        reports.insert(
            name.to_owned(),
            Report { addresses: vec![v4(192, 0, 2, 1, 0)], displays: Vec::new() },
        );
    }
    assert_eq!(match_reports(&reports, &config).len(), 0);
}

#[test]
fn own_reports_are_dropped_and_the_list_is_bounded() {
    let own = vec![v4(192, 0, 2, 9, 0)];
    let mut reports = OrderedMap::new(false);
    let report = |last: u8| Report { addresses: vec![v4(192, 0, 2, last, 0)], displays: Vec::new() };
    keep_report(&mut reports, "own".to_owned(), report(9), &own);
    assert_eq!(reports.len(), 0);
    for number in 0..70 {
        keep_report(&mut reports, format!("other {number}"), report(1), &own);
    }
    assert_eq!(reports.len(), 64);
    keep_report(&mut reports, "other 0".to_owned(), report(2), &own);
    assert_eq!(reports.len(), 64);
    assert_eq!(reports.get("other 0").unwrap().addresses, vec![v4(192, 0, 2, 2, 0)]);
}

// ---------------------------------------------------------------------------
// Layout model
// ---------------------------------------------------------------------------

#[test]
fn touching_edges_have_reciprocal_normalized_ranges() {
    let layout = Layout {
        monitors: vec![monitor("local", 0, 0, 100, 100), monitor("peer", 100, 50, 200, 100)],
    };
    let links = layout.transitions();
    assert_eq!(
        links,
        vec![
            Transition {
                source: 0,
                target: 1,
                edge: Edge::Right,
                source_start: 50,
                source_end: 100,
                source_length: 100,
                target_start: 0,
                target_end: 50,
                target_length: 100,
            },
            Transition {
                source: 1,
                target: 0,
                edge: Edge::Left,
                source_start: 0,
                source_end: 50,
                source_length: 100,
                target_start: 50,
                target_end: 100,
                target_length: 100,
            },
        ]
    );
    let share = |part: i64, whole: i64| part as f64 / whole as f64;
    let link = &links[0];
    assert_eq!(share(link.source_start, link.source_length), 0.5);
    assert_eq!(share(link.source_end, link.source_length), 1.0);
    assert_eq!(share(link.target_start, link.target_length), 0.0);
    assert_eq!(share(link.target_end, link.target_length), 0.5);
    let source_position = 0.75;
    let start = share(link.source_start, link.source_length);
    let end = share(link.source_end, link.source_length);
    let mapped = share(link.target_start, link.target_length)
        + (source_position - start) / (end - start)
            * (share(link.target_end, link.target_length)
                - share(link.target_start, link.target_length));
    assert_eq!(mapped, 0.25);
}

#[test]
fn stacked_monitors_split_an_edge_and_skip_same_owner() {
    let mut layout = Layout {
        monitors: vec![
            monitor("local", 0, 0, 100, 100),
            monitor("a", 100, 0, 100, 50),
            monitor("b", 100, 50, 100, 50),
        ],
    };
    layout.monitors[2].peer = Some("a".to_owned());
    let links = layout.transitions();
    assert_eq!(links.len(), 4);
    assert_eq!((links[0].source_start, links[0].source_end, links[0].source_length), (0, 50, 100));
    assert_eq!(
        (links[1].source_start, links[1].source_end, links[1].source_length),
        (50, 100, 100)
    );
    layout.monitors[1].peer = None;
    layout.monitors[2].peer = None;
    assert!(layout.transitions().is_empty());
}

#[test]
fn vertical_links_and_gaps_and_corners() {
    let mut layout = Layout {
        monitors: vec![monitor("local", -50, -100, 100, 100), monitor("a", 0, 0, 100, 100)],
    };
    let links = layout.transitions();
    assert_eq!(links[0].edge, Edge::Bottom);
    assert_eq!(links[1].edge, Edge::Top);
    assert_eq!((links[0].source_start, links[0].source_length), (50, 100));
    layout.monitors[1].y = 1;
    assert!(layout.transitions().is_empty());
    layout.monitors[1].y = 0;
    layout.monitors[1].x = 50;
    assert!(layout.transitions().is_empty());
}

#[test]
fn invalid_geometry_names_and_overlaps_fail_validation() {
    let good = Layout {
        monitors: vec![monitor("local", 0, 0, 100, 100), monitor("peer", 100, 0, 100, 100)],
    };
    let second = || good.monitors[1].copy();
    for (bad, problem) in [
        (Monitor { x: 99, ..second() }, LayoutProblem::Overlap(1, 0)),
        (Monitor { x: i32::MIN, ..second() }, LayoutProblem::OutOfBounds(1)),
        (Monitor { width: u32::MAX, ..second() }, LayoutProblem::OutOfBounds(1)),
        (Monitor { height: 0, ..second() }, LayoutProblem::OutOfBounds(1)),
        (Monitor { id: "local".to_owned(), ..second() }, LayoutProblem::RepeatedId(1)),
        (Monitor { label: " ".to_owned(), ..second() }, LayoutProblem::InvalidText(1)),
        (Monitor { peer: Some("".to_owned()), ..second() }, LayoutProblem::InvalidText(1)),
        (Monitor { label: "bell\u{7}".to_owned(), ..second() }, LayoutProblem::InvalidText(1)),
        (Monitor { id: "x".repeat(129), ..second() }, LayoutProblem::InvalidText(1)),
    ] {
        let layout = Layout { monitors: vec![good.monitors[0].copy(), bad] };
        assert!(layout.validate().is_err());
        assert_eq!(layout.validate(), Err(problem));
        assert!(layout.transitions().is_empty());
    }
    let mut same_labels = good;
    same_labels.monitors[1].label = "local".to_owned();
    same_labels.validate().unwrap();
}

#[test]
fn a_layout_has_at_most_thirty_two_monitors() {
    let monitors = |count: i32| Layout {
        monitors: (0..count).map(|n| monitor(&format!("m{n}"), n * 10, 0, 10, 10)).collect(),
    };
    monitors(32).validate().unwrap();
    assert_eq!(monitors(33).validate(), Err(LayoutProblem::TooMany));
}

#[test]
fn snapping_uses_nearest_edge_and_rejects_overlap() {
    let layout = Layout {
        monitors: vec![monitor("local", 0, 0, 100, 100), monitor("peer", 200, 0, 100, 100)],
    };
    assert_eq!(layout.snap_move(1, 106, 20, 10), Some((100, 20)));
    assert_eq!(layout.snap_move(1, -108, 20, 10), Some((-100, 20)));
    assert_eq!(layout.snap_move(1, 20, 108, 10), Some((20, 100)));
    assert_eq!(layout.snap_move(1, 20, -108, 10), Some((20, -100)));
    assert_eq!(layout.snap_move(1, 96, 20, 10), Some((100, 20)));
    assert_eq!(layout.snap_move(1, 50, 0, 10), None);
    assert_eq!(layout.snap_move(1, 200, 200, 10), Some((200, 200)));
    assert_eq!(layout.snap_move(1, i32::MAX, 0, 10), None);
    assert_eq!(layout.snap_move(1, i32::MIN, i32::MIN, 10), None);
    assert_eq!(layout.snap_move(2, 0, 0, 10), None);
    assert_eq!(layout.snap_move(1, 100, 0, -1), None);
}

#[test]
fn snapping_aligns_corners_that_are_near() {
    let layout = Layout {
        monitors: vec![monitor("local", 0, 0, 100, 100), monitor("peer", 200, 0, 50, 50)],
    };
    // Flush with the lower edge is nearer than flush with nothing.
    assert_eq!(layout.snap_move(1, 104, 49, 10), Some((100, 49)));
    assert_eq!(layout.snap_move(1, 95, 103, 10), Some((95, 100)));
}

fn document(stored: Layout, contents: Option<&str>) -> LayoutDocument {
    LayoutDocument::open(
        "/tmp/zflow.toml.layout.toml".to_owned(),
        stored,
        contents.map(|text| text.as_bytes().to_vec()),
    )
    .unwrap()
}

#[test]
fn documents_know_what_is_unsaved() {
    let mut new = document(Layout::default(), None);
    assert!(new.is_new());
    assert!(!new.is_dirty());
    new.draft.monitors.push(monitor("revoked-peer", 0, 0, 100, 100));
    assert!(new.is_dirty());
    assert_eq!(new.check_save(&None), Ok(()));
    new.save(b"monitors".to_vec());
    assert!(!new.is_new());
    assert!(!new.is_dirty());
    assert_eq!(new.check_save(&None), Err(SaveProblem::ChangedOnDisk));
    assert_eq!(new.check_save(&Some(b"monitors".to_vec())), Ok(()));
}

#[test]
fn changed_files_and_invalid_drafts_are_not_overwritten() {
    let mut opened = document(Layout::default(), None);
    assert_eq!(
        opened.check_save(&Some(b"monitors = []\n".to_vec())),
        Err(SaveProblem::ChangedOnDisk)
    );
    opened.reload(Ok((Layout::default(), Some(b"monitors = []\n".to_vec())))).unwrap();
    opened.draft.monitors.push(monitor("local", 0, 0, 100, 100));
    assert_eq!(
        opened.reload(Err("unfinished".to_owned())),
        Err(ReloadProblem::Unreadable("unfinished".to_owned()))
    );
    let flat = Layout { monitors: vec![monitor("local", 0, 0, 0, 100)] };
    assert_eq!(
        opened.reload(Ok((flat.copy(), None))),
        Err(ReloadProblem::Invalid(LayoutProblem::OutOfBounds(0)))
    );
    assert_eq!(opened.draft.monitors.len(), 1);
    opened.draft = flat;
    assert_eq!(
        opened.check_save(&Some(b"monitors = []\n".to_vec())),
        Err(SaveProblem::Invalid(LayoutProblem::OutOfBounds(0)))
    );
}

// ---------------------------------------------------------------------------
// Layout editor
// ---------------------------------------------------------------------------

fn desktops(entries: &[(&str, u32, u32)]) -> OrderedMap<Desktop> {
    let mut map = OrderedMap::new(false);
    for (name, width, height) in entries {
        map.insert(name.to_string(), Desktop { width: *width, height: *height });
    }
    map
}

fn saved_editor(layout: &Layout) -> LayoutEditor {
    LayoutEditor::open(Ok(document(layout.copy(), Some("saved"))))
}

#[test]
fn one_tile_per_computer_preserves_drag_save_and_report_loss() {
    let mut config = plain_config();
    config.peers.insert("mac".to_owned(), peer(Vec::new()));
    let mut editor = LayoutEditor::open(Ok(document(Layout::default(), None)));
    let local = Desktop { width: 5696, height: 1692 };
    editor.update_desktops(Some(local), &desktops(&[]), &config);
    assert_eq!(editor.effective_layout().monitors.len(), 1);
    assert_eq!(editor.waiting, ["mac"]);
    let remote = desktops(&[("mac", 2880, 1620)]);
    editor.update_desktops(Some(local), &remote, &config);
    let mut layout = editor.effective_layout();
    assert_eq!(layout.monitors.len(), 2);
    assert_eq!(layout.monitors[0].label, "This computer");
    assert_eq!(layout.monitors[1].label, "mac");
    assert_eq!((layout.monitors[0].width, layout.monitors[1].width), (5696, 2880));
    assert!(!editor.is_dirty());
    layout.monitors[1].x = -2880;
    editor.apply_edit(layout.copy());
    editor.update_desktops(Some(local), &remote, &config);
    assert_eq!(editor.effective_layout(), layout);
    assert!(editor.is_dirty());
    assert!(editor.stage());
    editor.save(b"written".to_vec());
    assert!(!editor.is_dirty());
    editor.reload(Ok(document(layout.copy(), Some("written"))));
    editor.update_desktops(Some(local), &remote, &config);
    assert_eq!(editor.effective_layout(), layout);
    editor.update_desktops(Some(local), &desktops(&[]), &config);
    assert_eq!(editor.effective_layout(), layout);
    assert_eq!(editor.waiting, ["mac"]);
    assert_eq!(editor.ready.len(), 1);
    assert!(!editor.is_dirty());
    editor.update_desktops(Some(local), &remote, &config);
    assert_eq!(editor.effective_layout(), layout);
    assert_eq!(editor.ready.len(), 2);
}

#[test]
fn old_output_tiles_collapse_without_writing_or_dirtying_the_layout() {
    let mut config = plain_config();
    config.peers.insert("local".to_owned(), peer(Vec::new()));
    let stored = Layout {
        monitors: [None, None, Some("local"), Some("local")]
            .iter()
            .enumerate()
            .map(|(i, owner)| Monitor {
                id: format!("old-{i}"),
                label: format!("Display {i}"),
                peer: owner.map(str::to_owned),
                x: i as i32 * 1920,
                y: 0,
                width: 1920,
                height: 1080,
            })
            .collect(),
    };
    let mut editor = saved_editor(&stored);
    let desktop = Desktop { width: 3840, height: 1080 };
    let remote = desktops(&[("local", 3840, 1080)]);
    editor.update_desktops(Some(desktop), &remote, &config);
    let layout = editor.effective_layout();
    assert_eq!(layout.monitors.len(), 2);
    assert_eq!(layout.monitors[1].x, 3840);
    assert_ne!(layout.monitors[0].id, layout.monitors[1].id);
    assert!(!editor.is_dirty());
    assert!(editor.can_save());
    assert!(editor.stage());
    editor.save(b"written".to_vec());
    assert_eq!(editor.document.as_ref().unwrap().draft, layout);
    assert!(!editor.can_save());
}

#[test]
fn reload_discards_drag_and_unpaired_reports_cannot_add_tiles() {
    let config = plain_config();
    let desktop = Desktop { width: 1920, height: 1080 };
    let remote = desktops(&[("stranger", 1920, 1080)]);
    let mut editor = LayoutEditor::open(Ok(document(Layout::default(), None)));
    editor.update_desktops(Some(desktop), &remote, &config);
    let saved = editor.effective_layout();
    assert_eq!(saved.monitors.len(), 1);
    assert!(editor.stage());
    editor.save(b"written".to_vec());
    let mut moved = editor.effective_layout();
    moved.monitors[0].x = 100;
    editor.apply_edit(moved);
    editor.start_drag(0, &saved);
    assert!(editor.is_dirty());
    editor.reload(Ok(document(saved.copy(), Some("written"))));
    assert!(editor.drag.is_none());
    editor.update_desktops(Some(desktop), &remote, &config);
    assert_eq!(editor.effective_layout().monitors[0].x, 0);
    assert!(!editor.is_dirty());
    let smaller = Desktop { width: 1280, height: 720 };
    editor.update_desktops(Some(smaller), &remote, &config);
    assert!(!editor.is_dirty());
    assert!(editor.can_save());
    editor.update_desktops(None, &remote, &config);
    assert!(!editor.can_save());
}

#[test]
fn a_failed_reload_keeps_everything_but_the_error() {
    let mut editor = saved_editor(&Layout { monitors: vec![monitor("local", 0, 0, 100, 100)] });
    editor.reload(Err("malformed".to_owned()));
    assert_eq!(editor.error.as_deref(), Some("malformed"));
    assert_eq!(editor.effective_layout().monitors.len(), 1);
    assert!(!editor.can_save());
    assert!(!editor.stage());
}

#[test]
fn real_drag_uses_total_pointer_displacement_once() {
    let layout = two_tiles(1920);
    let mut editor = saved_editor(&layout);
    editor.start_drag(1, &layout);
    assert_eq!(editor.drag_to(500, 0, 40), Some((2420, 0)));
    assert_eq!(editor.drag_to(1000, 0, 40), Some((2920, 0)));
    let mut dropped = layout.copy();
    assert_eq!(editor.drop_tile(&mut dropped), DropOutcome::Moved);
    assert_eq!(dropped.monitors[1].x, 1920 + 1000);
    assert_eq!(dropped.monitors[1].y, 0);
    assert!(editor.drag.is_none());
    assert_eq!(editor.drop_tile(&mut dropped), DropOutcome::Nothing);
}

fn two_tiles(x: i32) -> Layout {
    let mut layout = suggested_layout();
    add_monitor(&mut layout, Some("ubuntu"));
    assert_eq!(layout.monitors[1].x, 1920);
    layout.monitors[1].x = x;
    layout
}

#[test]
fn real_drag_snaps_shared_edge_and_rejects_overlap() {
    let layout = two_tiles(2400);
    let mut editor = saved_editor(&layout);
    editor.start_drag(1, &layout);
    assert_eq!(editor.drag_to(-480 + 20, 0, 48), Some((1920, 0)));
    let mut dropped = layout.copy();
    assert_eq!(editor.drop_tile(&mut dropped), DropOutcome::Moved);
    assert_eq!(dropped.monitors[1].x, 1920);
    assert_eq!(dropped.transitions().len(), 2);
    editor.start_drag(1, &dropped);
    assert_eq!(editor.drag_to(-960, 0, 48), Some((960, 0)));
    assert_eq!(editor.drop_tile(&mut dropped), DropOutcome::Rejected);
    assert_eq!(dropped.monitors[1].x, 1920);
}

#[test]
fn nothing_moves_during_a_drag_and_arrow_keys_respect_neighbours() {
    let mut config = plain_config();
    config.peers.insert("ubuntu".to_owned(), peer(Vec::new()));
    let layout = two_tiles(1920);
    let mut editor = saved_editor(&layout);
    editor.start_drag(1, &layout);
    editor.update_desktops(Some(Desktop { width: 800, height: 600 }), &desktops(&[]), &config);
    assert!(editor.detected.is_none());
    let mut nudged = layout.copy();
    assert_eq!(nudge(&mut nudged, 1, -10, 0), None);
    assert_eq!(nudged, layout);
    assert_eq!(nudge(&mut nudged, 1, 10, 0), Some((1930, 0)));
    assert_eq!(nudged.monitors[1].x, 1930);
}

#[test]
fn empty_saved_layout_stays_empty_and_main_config_stays_untouched() {
    let mut editor = LayoutEditor::open(Ok(document(Layout::default(), None)));
    assert!(editor.suggested());
    editor.edited = true;
    assert!(editor.stage());
    editor.save(b"monitors = []\n".to_vec());
    assert!(!editor.suggested());
    editor.reload(Ok(document(Layout::default(), Some("monitors = []\n"))));
    assert!(editor.effective_layout().monitors.is_empty());
}

#[test]
fn suggested_layout_and_view_are_deterministic() {
    let layout = suggested_layout();
    assert_eq!(layout.monitors.len(), 1);
    layout.validate().unwrap();
    assert_eq!(layout, suggested_layout());
}

#[test]
fn suggested_layouts_and_ids_are_plain() {
    let layout = suggested_layout();
    assert_eq!((layout.monitors[0].width, layout.monitors[0].height), (1920, 1080));
    assert_eq!(computer_id(None), "computer:local");
    // SHA-256 of the three letters.
    assert_eq!(
        computer_id(Some("abc")),
        "computer:ba7816bf8f01cfea414140de5dae2223b00361a396177a9cb410ff61f20015ad"
    );
}

#[test]
fn tiles_tell_what_they_wait_for() {
    let mut config = plain_config();
    config.peers.insert("ubuntu".to_owned(), peer(Vec::new()));
    let mut editor = saved_editor(&two_tiles(1920));
    editor.update_desktops(Some(Desktop { width: 1920, height: 1080 }), &desktops(&[]), &config);
    let layout = editor.effective_layout();
    assert_eq!(editor.tile_state(&layout.monitors[0]), TileState::Local);
    assert_eq!(editor.tile_state(&layout.monitors[1]), TileState::Waiting);
    editor.update_desktops(
        Some(Desktop { width: 1920, height: 1080 }),
        &desktops(&[("ubuntu", 1920, 1080)]),
        &config,
    );
    assert_eq!(editor.tile_state(&layout.monitors[1]), TileState::Paired);
}

// ---------------------------------------------------------------------------
// Settings and launch
// ---------------------------------------------------------------------------

#[test]
fn text_fields_round_trip_and_reject_invalid_addresses() {
    let config = paired_config();
    let mut fields = TextFields::from_config(&config);
    assert_same_config(&fields.apply(&config).ok().unwrap(), &config);
    fields.listen = "localhost".to_owned();
    assert!(fields.apply(&config).is_err());
    fields.listen = "[::]:43119".to_owned();
    fields.addresses.insert("Ubuntu's desk".to_owned(), "192.0.2.10:0".to_owned());
    assert!(fields.apply(&config).is_err());
}

#[test]
fn fields_report_the_first_thing_that_is_wrong() {
    let config = paired_config();
    let mut fields = TextFields::from_config(&config);
    assert_eq!(fields.listen, "[::]:43119");
    assert_eq!(fields.activation, "KEY_LEFTCTRL KEY_F12");
    assert_eq!(fields.addresses.get("Ubuntu's desk").unwrap(), "192.0.2.10:43119");
    fields.addresses.insert("Ubuntu's desk".to_owned(), "1.2.3.4:5\nnonsense".to_owned());
    fields.state_dir = "  ".to_owned();
    fields.listen = "[::]:0".to_owned();
    assert_eq!(fields.apply(&config).err(), Some(FieldError::Listen(AddressError::ZeroPort)));
    fields.listen = "127.0.0.1:43119".to_owned();
    assert_eq!(fields.apply(&config).err(), Some(FieldError::EmptyPath));
    fields.state_dir = "/srv/zflow".to_owned();
    assert_eq!(
        fields.apply(&config).err(),
        Some(FieldError::Peer("Ubuntu's desk".to_owned(), AddressError::Malformed))
    );
    fields.addresses.insert("Ubuntu's desk".to_owned(), " 1.2.3.4:5\n[::1]:6 ".to_owned());
    fields.addresses.insert("unknown".to_owned(), "nonsense".to_owned());
    fields.activation = " KEY_A   KEY_B ".to_owned();
    let edited = fields.apply(&config).ok().unwrap();
    assert_eq!(edited.daemon.state_dir, "/srv/zflow");
    assert_eq!(edited.transport.listen, v4(127, 0, 0, 1, 43119));
    assert_eq!(edited.input.activation_chord, ["KEY_A", "KEY_B"]);
    assert_eq!(
        edited.peers.get("Ubuntu's desk").unwrap().addresses,
        vec![
            v4(1, 2, 3, 4, 5),
            SocketAddress::V6 { ip: 1, port: 6, flowinfo: 0, scope_id: 0 },
        ]
    );
    assert!(edited.peers.get("unknown").is_none());
}

#[test]
fn address_fields_need_a_port() {
    assert_eq!(parse_address(" 192.0.2.1:43119 "), Ok(v4(192, 0, 2, 1, 43119)));
    assert_eq!(parse_address("192.0.2.1"), Err(AddressError::Malformed));
    assert_eq!(parse_address("192.0.2.1:0"), Err(AddressError::ZeroPort));
}

#[test]
fn source_flags_are_opt_in_and_command_arguments_are_quoted() {
    let config = paired_config();
    let path = "/tmp/Mac's config.toml";
    let mut options = LaunchOptions::default();
    let command = source_command(path, &config, &options).unwrap();
    assert!(command.contains("'Ubuntu'\"'\"'s desk'"));
    assert!(command.contains("'/tmp/Mac'\"'\"'s config.toml'"));
    assert!(!command.contains("--no-touch"));
    assert!(!command.contains("--reduce-wifi-latency"));
    options.no_touch = true;
    options.reduce_wifi_latency = true;
    options.address = "[::1]:43119".to_owned();
    let command = source_command(path, &config, &options).unwrap();
    assert!(command.contains("'--no-touch' '--reduce-wifi-latency'"));
    assert!(command.contains("'--address' '[::1]:43119'"));
    options.address = "$(touch /tmp/nope)".to_owned();
    assert!(source_command(path, &config, &options).is_err());
}

#[test]
fn source_preview_requires_pairing_address_and_permission() {
    let path = "/tmp/config.toml";
    let options = LaunchOptions::default();
    assert_eq!(source_command(path, &plain_config(), &options), Err(LaunchError::NotPaired));
    let mut config = paired_config();
    set_peer(&mut config, "Ubuntu's desk", |peer| peer.addresses.clear());
    assert_eq!(source_command(path, &config, &options), Err(LaunchError::NoAddress));
    let options = LaunchOptions {
        address: "192.0.2.1:43119".to_owned(),
        ..LaunchOptions::default()
    };
    set_peer(&mut config, "Ubuntu's desk", |peer| peer.permissions.connect = false);
    assert_eq!(source_command(path, &config, &options), Err(LaunchError::NotPermitted));
    set_peer(&mut config, "Ubuntu's desk", |peer| peer.permissions.connect = true);
    let options = LaunchOptions { address: "nowhere".to_owned(), ..LaunchOptions::default() };
    assert_eq!(
        source_command(path, &config, &options),
        Err(LaunchError::Address(AddressError::Malformed))
    );
}

#[test]
fn quotes_in_arguments_are_quoted() {
    assert_eq!(shell_quote("plain"), "'plain'");
    assert_eq!(shell_quote("a'b"), "'a'\"'\"'b'");
    assert_eq!(shell_quote(""), "''");
}

// ---------------------------------------------------------------------------
// Sharing
// ---------------------------------------------------------------------------

fn observer_with_crossing() -> Observer {
    let mut observer = Observer::default();
    observer.enable();
    observer.crossing_started();
    observer
}

#[test]
fn a_return_rearms_the_edges() {
    let mut observer = observer_with_crossing();
    assert_eq!(observer.notice, Notice::Connecting);
    observer.source_reported(SourceStatus::Connecting);
    observer.source_reported(SourceStatus::Sharing);
    assert_eq!(observer.notice, Notice::Sharing);
    observer.source_reported(SourceStatus::LocalInputRestored);
    assert_eq!(observer.notice, Notice::Restored);
    observer.source_reported(SourceStatus::Returned { position: 7 });
    observer.source_reported(SourceStatus::Stopped);
    observer.worker_finished(false);
    assert_eq!(observer.notice, Notice::Rearmed);
    assert!(observer.is_active() && observer.is_watching());
}

#[test]
fn a_failed_crossing_turns_sharing_off_and_keeps_its_reason() {
    let mut observer = observer_with_crossing();
    observer.source_reported(SourceStatus::Failed("no route".to_owned()));
    observer.source_reported(SourceStatus::Cancelled("later".to_owned()));
    assert!(!observer.pointer_checked(true));
    observer.worker_finished(false);
    assert_eq!(observer.notice, Notice::Failed("no route".to_owned()));
    assert!(!observer.is_active());
}

fn quiet() -> TickFacts {
    TickFacts {
        reports: Vec::new(),
        displays_unchanged: true,
        left_edge: false,
        ended: None,
    }
}

#[test]
fn rounds_read_reports_look_around_and_end_crossings() {
    let mut observer = observer_with_crossing();
    let reports = vec![SourceStatus::Connecting, SourceStatus::Sharing];
    let outcome = observer.tick(TickFacts { reports, left_edge: true, ..quiet() });
    // Once input is captured the pointer is free to move.
    assert_eq!(outcome, TickOutcome { stop: false, observe: false });
    assert_eq!(observer.notice, Notice::Sharing);
    let ended = WorkerEnd {
        panicked: false,
        late_reports: vec![
            SourceStatus::Returned { position: 3 },
            SourceStatus::LocalInputRestored,
        ],
    };
    let outcome = observer.tick(TickFacts { ended: Some(ended), ..quiet() });
    assert_eq!(outcome, TickOutcome { stop: false, observe: true });
    assert_eq!(observer.notice, Notice::Rearmed);

    let mut observer = observer_with_crossing();
    let outcome = observer.tick(TickFacts { left_edge: true, ..quiet() });
    assert_eq!(outcome, TickOutcome { stop: true, observe: false });
    let outcome = observer.tick(TickFacts { displays_unchanged: false, ..quiet() });
    assert_eq!(outcome, TickOutcome { stop: true, observe: false });
    assert_eq!(observer.notice, Notice::DisplaysChanged);
}

#[test]
fn late_reports_tell_only_how_a_crossing_came_out() {
    let mut observer = observer_with_crossing();
    observer.late_report(SourceStatus::Sharing);
    observer.late_report(SourceStatus::LocalInputRestored);
    assert_eq!(observer, observer_with_crossing());
    observer.late_report(SourceStatus::Cancelled("moved".to_owned()));
    assert_eq!(observer.notice, Notice::Cancelled("moved".to_owned()));
    observer.late_report(SourceStatus::Failed("lost".to_owned()));
    observer.late_report(SourceStatus::Cancelled("again".to_owned()));
    assert_eq!(observer.notice, Notice::Failed("lost".to_owned()));
    observer.worker_finished(false);
    assert!(!observer.is_active());
}

#[test]
fn a_cancelled_crossing_stays_armed() {
    let mut observer = observer_with_crossing();
    assert!(!observer.pointer_checked(false));
    assert!(observer.pointer_checked(true));
    assert!(!observer.pointer_checked(true));
    assert_eq!(observer.notice, Notice::CursorLeft);
    observer.worker_finished(false);
    assert!(observer.is_watching());

    let mut observer = observer_with_crossing();
    observer.source_reported(SourceStatus::Cancelled("moved away".to_owned()));
    assert_eq!(observer.notice, Notice::Cancelled("moved away".to_owned()));
    observer.worker_finished(false);
    assert!(observer.is_watching());
}

#[test]
fn changed_displays_and_panics_turn_sharing_off() {
    let mut observer = observer_with_crossing();
    assert!(!observer.displays_checked(true));
    assert!(observer.displays_checked(false));
    assert_eq!(observer.notice, Notice::DisplaysChanged);
    observer.worker_finished(false);
    assert!(!observer.is_active());

    let mut observer = observer_with_crossing();
    observer.worker_finished(true);
    assert_eq!(observer.notice, Notice::WorkerStopped);
    assert!(!observer.is_active());
}

#[test]
fn stopping_waits_for_the_crossing() {
    let mut observer = observer_with_crossing();
    assert!(observer.stop());
    assert_eq!(observer.notice, Notice::Returning);
    assert!(observer.is_active() && !observer.is_watching());
    observer.source_reported(SourceStatus::Returned { position: 1 });
    observer.worker_finished(false);
    assert_eq!(observer.notice, Notice::OffLocal);
    assert!(!observer.is_active());
    assert!(!observer.stop());
    assert_eq!(observer.notice, Notice::Off);
}

#[test]
fn crossings_start_only_with_nothing_held() {
    let mut observer = Observer::default();
    observer.enable();
    assert_eq!(observer.notice, Notice::Ready);
    let first = Point { x: 1, y: 2 };
    let second = Point { x: 3, y: 4 };
    assert_eq!(observer.pointer_seen(first, true), None);
    assert_eq!(observer.pointer_seen(second, false), None);
    assert_eq!(observer.pointer_seen(first, true), Some(second));
    observer.observation_failed("no display".to_owned());
    assert_eq!(observer.notice, Notice::ObservationFailed("no display".to_owned()));
    assert!(!observer.is_active());
}

#[test]
fn sharing_needs_a_saved_layout_and_permitted_computers() {
    let layout = Layout {
        monitors: vec![monitor("local", 0, 0, 100, 100), monitor("desk", 100, 0, 100, 100)],
    };
    let mut config = plain_config();
    assert_eq!(check_ways(&layout, true, &config), Err(EnableError::NoLayout));
    assert_eq!(
        check_ways(&layout, false, &config),
        Err(EnableError::NotPaired("desk".to_owned()))
    );
    config.peers.insert("desk".to_owned(), peer(Vec::new()));
    assert_eq!(
        check_ways(&layout, false, &config),
        Err(EnableError::NotPermitted("desk".to_owned()))
    );
    set_peer(&mut config, "desk", |peer| {
        peer.permissions.connect = true;
        peer.permissions.receive_normal = true;
    });
    assert_eq!(check_ways(&layout, false, &config), Ok(()));
    // Ways between two other computers do not matter.
    let remote = Layout {
        monitors: vec![monitor("a", 0, 0, 100, 100), monitor("b", 100, 0, 100, 100)],
    };
    assert_eq!(check_ways(&remote, false, &config), Ok(()));
}

// ---------------------------------------------------------------------------
// Pairing page, receiver and program
// ---------------------------------------------------------------------------

#[test]
fn cancellation_closes_channels_and_isolates_old_workers() {
    let mut pairing = PairingUi::default();
    let attempt = pairing.start();
    assert!(pairing.is_active());
    pairing.stop();
    pairing.update(attempt, Stage::Paired);
    assert_eq!(pairing.stage, Stage::Idle);
    assert!(!pairing.take_paired());
}

#[test]
fn pairing_asks_once_and_reports_once() {
    let mut pairing = PairingUi::default();
    let attempt = pairing.start();
    pairing.update(attempt, Stage::Confirm { code: "123456".to_owned(), label: None });
    assert!(pairing.is_active());
    assert_eq!(
        pairing.confirm(" Ubuntu ", " 123456"),
        ("Ubuntu".to_owned(), "123456".to_owned())
    );
    assert_eq!(pairing.stage, Stage::Saving);
    pairing.update(attempt, Stage::Paired);
    assert!(pairing.take_paired());
    assert!(!pairing.take_paired());
    pairing.update(attempt, Stage::Failed("expired".to_owned()));
    assert!(!pairing.is_active());
    assert!(can_confirm("123456", "Ubuntu"));
    assert!(!can_confirm("12345", "Ubuntu"));
    assert!(!can_confirm("123456", "  "));
    assert_eq!(proposed_name(Some("desk".to_owned()), true), "desk");
    assert_eq!(proposed_name(None, true), "Mac");
    assert_eq!(proposed_name(None, false), "Ubuntu");
    assert_eq!(pairing_address_text(v4(192, 0, 2, 1, 43119)), "192.0.2.1:43120");
    let scoped = SocketAddress::V6 { ip: 1, port: 1, flowinfo: 0, scope_id: 4 };
    assert_eq!(pairing_address_text(scoped), "[::1%4]:43120");
}

#[test]
fn the_service_asks_at_most_once() {
    let confirm = || PairingEvent::Confirm {
        peer_label: Some("desk".to_owned()),
        authentication_code: "123456".to_owned(),
    };
    let mut service = ServicePairing::new();
    assert_eq!(service.handle(PairingEvent::Ready), Ok(ServiceStep::Wait));
    assert_eq!(
        service.handle(confirm()),
        Ok(ServiceStep::Ask { code: "123456".to_owned(), label: Some("desk".to_owned()) })
    );
    assert_eq!(service.handle(confirm()), Err(ServiceError::RepeatedConfirmation));
    assert_eq!(service.handle(PairingEvent::Paired), Ok(ServiceStep::Done));
    assert_eq!(
        service.handle(PairingEvent::Error { message: "denied".to_owned() }),
        Err(ServiceError::Refused("denied".to_owned()))
    );
}

#[test]
fn old_receiver_workers_change_nothing() {
    let mut receiver = DesktopReceiver::new();
    let first = receiver.start().unwrap();
    assert_eq!(receiver.start(), None);
    assert!(receiver.ready(first));
    assert_eq!(receiver.message, ReceiverMessage::Ready);
    receiver.stop();
    assert!(!receiver.is_active());
    let second = receiver.start().unwrap();
    assert!(!receiver.ready(first));
    receiver.finished(first, Err("late".to_owned()));
    assert!(receiver.is_active());
    receiver.finished(second, Err("lost".to_owned()));
    assert_eq!(receiver.message, ReceiverMessage::Failed("lost".to_owned()));
    assert!(!receiver.is_active());
}

#[test]
fn desktops_attach_only_after_both_sides_agree() {
    let snapshot = DesktopResponse::Snapshot { geometry: Geometry { monitors: Vec::new() } };
    assert_eq!(check_desktop(snapshot), Ok(()));
    assert_eq!(
        check_desktop(DesktopResponse::unavailable("locked")),
        Err(AttachError::Unavailable("locked".to_owned()))
    );
    assert_eq!(check_desktop(DesktopResponse::Active), Err(AttachError::UnexpectedDesktop));
    assert_eq!(check_service(DesktopResponse::Finished), Ok(()));
    assert_eq!(check_service(DesktopResponse::Active), Err(AttachError::Denied));
    assert_eq!(desktop_answer(Ok(DesktopResponse::Active)), DesktopResponse::Active);
    assert_eq!(
        desktop_answer(Err("no bus".to_owned())),
        DesktopResponse::unavailable("GNOME integration unavailable: no bus")
    );
}

#[test]
fn actions_follow_the_state() {
    let saved = AppState {
        service_mode: false,
        load_failed: false,
        document_loaded: true,
        document_new: false,
        discovery: true,
        config_dirty: false,
        fields_valid: true,
        layout_dirty: false,
        layout_saveable: true,
        sharing: false,
        pairing: false,
        has_peers: true,
    };
    assert_eq!(saved.discovery_step(None), (DiscoveryStep::Start, true));
    assert_eq!(saved.discovery_step(Some(true)), (DiscoveryStep::Keep, true));
    let failed = AppState { load_failed: true, ..saved };
    assert_eq!(failed.discovery_step(Some(true)), (DiscoveryStep::Stop, false));
    assert!(!saved.can_save_config());
    assert!(AppState { config_dirty: true, ..saved }.can_save_config());
    assert!(!AppState { config_dirty: true, fields_valid: false, ..saved }.can_save_config());
    assert!(!AppState { document_new: true, service_mode: true, ..saved }.can_save_config());
    assert!(saved.can_save_layout());
    assert!(!AppState { sharing: true, ..saved }.can_save_layout());
    assert!(saved.can_pair());
    assert!(!AppState { config_dirty: true, ..saved }.can_pair());
    assert!(AppState { config_dirty: true, service_mode: true, ..saved }.can_pair());
    assert!(saved.can_share(true));
    assert!(!saved.can_share(false));
    assert!(!AppState { layout_dirty: true, ..saved }.can_share(true));
    assert!(AppState { layout_dirty: true, ..saved }.confirm_before_discarding(false));
    assert!(!AppState { layout_dirty: true, ..saved }.confirm_before_discarding(true));
    assert!(!saved.dirty());
    assert!(saved.shows(Page::Advanced));
    let service = AppState { service_mode: true, ..saved };
    assert!(!service.shows(Page::Advanced) && service.shows(Page::Layout));
    assert!(service.editing_allowed());
}

#[test]
fn snapshot_contains_only_peer_metadata_and_discovery() {
    let mut config = paired_config();
    config.daemon.state_dir = "/private/identity-location".to_owned();
    let snapshot = Snapshot::from_config(&config);
    assert_eq!(snapshot.peers.len(), 1);
    assert!(snapshot.discovery);
    let blank = plain_config();
    let shown = snapshot.into_display_config(
        blank.daemon,
        blank.input,
        TransportConfig { discovery: false, ..blank.transport },
        blank.playout,
    );
    assert_eq!(shown.daemon.state_dir, "/var/lib/zflow");
    assert!(shown.transport.discovery);
    assert_eq!(shown.peers.len(), 1);
    assert!(is_trusted_service(0, 990) && is_trusted_service(990, 990));
    assert!(!is_trusted_service(1000, 990));
}

#[test]
fn layouts_are_kept_beside_the_configuration() {
    assert_eq!(layout_file_name("zflow.toml"), "zflow.toml.layout.toml");
}

#[test]
fn announcements_follow_the_displays() {
    let none: Vec<Display> = Vec::new();
    let one = vec![Display { width: 1920, height: 1080, scale_milli: 1000 }];
    assert_eq!(announce_step(&one, true, &one, true), AnnounceStep::Keep);
    assert_eq!(announce_step(&none, false, &none, false), AnnounceStep::Keep);
    assert_eq!(announce_step(&none, false, &one, true), AnnounceStep::Restart);
    assert_eq!(announce_step(&one, true, &one, false), AnnounceStep::Stop);
    assert_eq!(announce_step(&one, true, &none, true), AnnounceStep::Stop);
}

#[test]
fn equal_configurations_are_the_same() {
    let config = paired_config();
    assert!(config.same_as(&config.copy()));
    let mut other = config.copy();
    set_peer(&mut other, "Ubuntu's desk", |peer| peer.permissions.connect = false);
    assert!(!config.same_as(&other));
    assert!(!config.same_as(&plain_config()));
}

fn settings(config: Config) -> SettingsApp {
    let mut app = SettingsApp::open(false);
    app.load(Ok(ConfigDocument::open("settings.toml".to_owned(), config, false)));
    app
}

#[test]
fn invalid_text_is_dirty_and_cannot_be_saved() {
    let mut app = settings(plain_config());
    assert!(!app.config_dirty());
    app.fields.as_mut().unwrap().listen = "invalid".to_owned();
    assert!(app.config_dirty());
    assert!(matches!(app.sync_fields(), Err(SyncError::Field(FieldError::Listen(_)))));
    assert_same_config(&app.document.as_ref().unwrap().draft, &plain_config());
    assert_eq!(app.fields.as_ref().unwrap().listen, "invalid");
    assert!(app.config_dirty());
}

#[test]
fn saved_fields_are_clean() {
    let mut app = settings(paired_config());
    assert_eq!(app.page, Page::Layout);
    app.fields.as_mut().unwrap().state_dir = "/srv/zflow".to_owned();
    assert!(app.config_dirty());
    assert_eq!(app.sync_fields(), Ok(()));
    assert_eq!(app.document.as_ref().unwrap().draft.daemon.state_dir, "/srv/zflow");
    assert!(app.config_dirty());
    app.saved();
    assert!(!app.config_dirty());
    assert_eq!(app.document.as_ref().unwrap().saved.daemon.state_dir, "/srv/zflow");
}

#[test]
fn failed_loads_keep_what_is_open() {
    let mut app = settings(plain_config());
    assert_eq!(app.page, Page::Computers);
    app.load(Err("no such file".to_owned()));
    assert_eq!(app.load_error.as_deref(), Some("no such file"));
    assert_same_config(&app.document.as_ref().unwrap().draft, &plain_config());
    let mut closed = SettingsApp::open(false);
    assert_eq!(closed.sync_fields(), Err(SyncError::NoConfiguration));
    assert!(!closed.config_dirty());
}

#[test]
fn the_configuration_of_the_service_is_never_edited() {
    let mut app = SettingsApp::open(true);
    app.load_service("Reading".to_owned());
    assert_eq!(app.load_error.as_deref(), Some("Reading"));
    app.service_answered("service".to_owned(), Ok(paired_config()));
    assert!(app.load_error.is_none());
    app.fields.as_mut().unwrap().listen = "invalid".to_owned();
    assert_eq!(app.sync_fields(), Ok(()));
    assert_same_config(&app.document.as_ref().unwrap().draft, &paired_config());
    app.service_answered("service".to_owned(), Err("stopped".to_owned()));
    assert_eq!(app.load_error.as_deref(), Some("stopped"));
    assert!(app.document.is_some());
}
