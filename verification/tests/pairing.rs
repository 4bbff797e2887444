use zflow::address_text::{read_address, write_address};
use zflow::config::{
    Config, DaemonConfig, InputConfig, PeerConfig, PlayoutConfig, PlayoutMode, Share,
    TransportConfig,
};
use zflow::identity::{check_key_file, code_of_digest, hex, Identity, IdentityError};
use zflow::metrics::{SampleSummary, SampleWindow, SessionMetrics};
use zflow::net::{sorted_addresses, SocketAddress};
use zflow::ordered::OrderedMap;
use zflow::pairing::{
    add_confirmed_peer, complete, make_offer, offer_with_nonce, offered_label, transcript,
    validate_label, ConfirmError, ExchangeError, OfferError, PairingMethod, PairingObservation,
    PairingOffer,
};

fn v4(a: u8, b: u8, c: u8, d: u8, port: u16) -> SocketAddress {
    SocketAddress::V4 { ip: u32::from_be_bytes([a, b, c, d]), port }
}

fn v6(ip: u128, port: u16) -> SocketAddress {
    SocketAddress::V6 { ip, port, flowinfo: 0, scope_id: 0 }
}

fn blank_config() -> Config {
    Config {
        daemon: DaemonConfig { state_dir: "/s".to_owned(), control_socket: "/c".to_owned() },
        input: InputConfig {
            capture_devices: Vec::new(),
            activation_chord: Vec::new(),
            escape_chord: Vec::new(),
            experimental_touchpad: false,
            allow_prelogin_input: false,
        },
        transport: TransportConfig {
            listen: v6(0, 43119),
            discovery: true,
            checkpoint_ms: 50,
            lease_ms: 250,
        },
        playout: PlayoutConfig {
            mode: PlayoutMode::Fixed,
            fixed_delay_ms: 5,
            minimum_delay_ms: 0,
            maximum_delay_ms: 40,
            percentile: Share { bits: 0.95_f64.to_bits(), hundredths: 95 },
        },
        peers: OrderedMap::new(false),
    }
}

// ---------------------------------------------------------------------------
// Identity
// ---------------------------------------------------------------------------

#[test]
fn identity_persists_and_has_stable_fingerprint() {
    let first = Identity::generate().unwrap();
    let fingerprint = first.fingerprint();
    let spki = first.spki().clone();
    let stored = first.private_key_der().clone();
    drop(first);

    let second = Identity::load(stored).unwrap();
    assert_eq!(second.fingerprint(), fingerprint);
    assert_eq!(second.spki(), &spki);
    assert_eq!(second.fingerprint_hex().len(), 64);
    assert_ne!(&second.fingerprint()[..], &spki[..32]);
    assert_ne!(second.spki(), second.private_key_der());
}

#[test]
fn fingerprints_are_sha256_of_the_public_key() {
    let identity = Identity::from_key_pair(Vec::new(), b"abc".to_vec());
    assert_eq!(
        identity.fingerprint_hex(),
        "ba7816bf8f01cfea414140de5dae2223b00361a396177a9cb410ff61f20015ad"
    );
}

#[test]
fn unreadable_keys_and_open_files_are_refused() {
    assert_eq!(Identity::load(b"no key".to_vec()), Err(IdentityError::InvalidKey));
    assert_eq!(check_key_file(true, 0o100600), Ok(()));
    assert_eq!(check_key_file(true, 0o100640), Err(IdentityError::InsecurePermissions));
    assert_eq!(check_key_file(false, 0o120600), Err(IdentityError::InsecurePermissions));
    assert_eq!(hex(&[0, 15, 255]), "000fff");
}

#[test]
fn pairing_code_is_symmetric_and_fixed_width() {
    let left = Identity::generate().unwrap();
    let right = Identity::generate().unwrap();
    let transcript = b"nonces and transport transcript".to_vec();

    let left_code = left.pairing_code(right.spki(), &transcript);
    let right_code = right.pairing_code(left.spki(), &transcript);
    assert_eq!(left_code, right_code);
    assert_eq!(left_code.len(), 6);
    assert!(left_code.bytes().all(|byte| byte.is_ascii_digit()));
}

#[test]
fn pairing_codes_are_numbers_with_leading_zeros() {
    let mut digest = [0u8; 32];
    assert_eq!(code_of_digest(digest), "000000");
    digest[3] = 7;
    assert_eq!(code_of_digest(digest), "000007");
    digest[..4].copy_from_slice(&1_234_567u32.to_be_bytes());
    assert_eq!(code_of_digest(digest), "234567");
    digest[..4].copy_from_slice(&u32::MAX.to_be_bytes());
    assert_eq!(code_of_digest(digest), "967295");
}

// ---------------------------------------------------------------------------
// Offers and exchange
// ---------------------------------------------------------------------------

#[test]
fn offer_requires_a_real_input_port() {
    assert_eq!(make_offer(None, 0, Vec::new()), Err(OfferError::ZeroPort));
    assert_eq!(
        make_offer(Some("bad\u{1b}label".to_owned()), 43119, Vec::new()),
        Err(OfferError::InvalidLabel)
    );
    assert_eq!(
        offer_with_nonce(None, None, 43119, Vec::new()),
        Err(OfferError::NoRandomness)
    );
}

#[test]
fn offers_carry_fresh_nonces_and_addresses_as_text() {
    let candidates = vec![v4(192, 0, 2, 1, 43119), v6(1, 43119)];
    let first = make_offer(Some("desk".to_owned()), 43119, candidates).unwrap();
    let second = make_offer(None, 43119, Vec::new()).unwrap();
    assert_eq!(first.handshake_nonce.len(), 32);
    assert_ne!(first.handshake_nonce, second.handshake_nonce);
    assert_eq!(first.input_candidates, ["192.0.2.1:43119", "[::1]:43119"]);
    assert_eq!(first.method, PairingMethod::ShortAuthenticationString);
    assert!(validate_label("Ubuntu's desk") && !validate_label("") && !validate_label("a\u{7f}"));
    assert_eq!(offered_label(Some("host".to_owned())), Some("host".to_owned()));
    assert_eq!(offered_label(Some("x".repeat(256))), None);
    assert_eq!(offered_label(Some("\n".to_owned())), None);
}

fn exchange(
    local: &Identity,
    local_offer: &PairingOffer,
    peer: &Identity,
    peer_offer: &PairingOffer,
    remote: SocketAddress,
) -> Result<PairingObservation, ExchangeError> {
    // The wire form of an offer only has to be the same on both sides.
    let encode = |offer: &PairingOffer| format!("{offer:?}").into_bytes();
    complete(
        local,
        local_offer.method,
        peer.spki().clone(),
        peer_offer,
        &vec![7; 32],
        &encode(local_offer),
        &encode(peer_offer),
        remote,
    )
}

#[test]
fn both_sides_derive_the_same_code_and_observed_candidate() {
    let left = Identity::generate().unwrap();
    let right = Identity::generate().unwrap();
    let left_offer = make_offer(Some("left".to_owned()), 43119, Vec::new()).unwrap();
    let right_offer = make_offer(Some("right".to_owned()), 43121, Vec::new()).unwrap();
    let seen_by_left =
        exchange(&left, &left_offer, &right, &right_offer, v4(127, 0, 0, 1, 50001)).unwrap();
    let seen_by_right =
        exchange(&right, &right_offer, &left, &left_offer, v4(127, 0, 0, 1, 50002)).unwrap();

    assert_eq!(seen_by_left.authentication_code, seen_by_right.authentication_code);
    assert_eq!(&seen_by_left.peer_spki, right.spki());
    assert_eq!(&seen_by_right.peer_spki, left.spki());
    assert_eq!(seen_by_left.peer_label.as_deref(), Some("right"));
    assert_eq!(seen_by_right.peer_label.as_deref(), Some("left"));
    assert!(seen_by_left.peer_candidates.contains(&v4(127, 0, 0, 1, 43121)));
    assert!(seen_by_right.peer_candidates.contains(&v4(127, 0, 0, 1, 43119)));
}

#[test]
fn exchanges_refuse_what_they_cannot_use() {
    let left = Identity::generate().unwrap();
    let right = Identity::generate().unwrap();
    let remote = v4(127, 0, 0, 1, 50001);
    let offer = || make_offer(Some("x".to_owned()), 43119, Vec::new()).unwrap();
    let refused = |local: PairingOffer, peer: PairingOffer| {
        exchange(&left, &local, &right, &peer, remote).unwrap_err()
    };
    let unsupported = || PairingOffer { method: PairingMethod::Unsupported, ..offer() };
    assert_eq!(refused(unsupported(), offer()), ExchangeError::LocalMethod);
    assert_eq!(refused(offer(), unsupported()), ExchangeError::PeerMethod);
    assert_eq!(
        refused(offer(), PairingOffer { input_port: 0, ..offer() }),
        ExchangeError::PeerPort
    );
    assert_eq!(
        refused(offer(), PairingOffer { device_label: Some("".to_owned()), ..offer() }),
        ExchangeError::PeerLabel
    );
    let candidates = vec!["192.0.2.1:1".to_owned(), "nowhere".to_owned()];
    assert_eq!(
        refused(offer(), PairingOffer { input_candidates: candidates, ..offer() }),
        ExchangeError::PeerCandidate(1)
    );
    assert_eq!(
        exchange(&left, &offer(), &left, &offer(), remote).unwrap_err(),
        ExchangeError::SelfPairing
    );
}

#[test]
fn transcripts_frame_both_offers_in_key_order() {
    let bytes = |text: &str| text.as_bytes().to_vec();
    let made = transcript(&bytes("B"), &bytes("a"), &bytes("b"), &bytes("left"), &bytes("r"));
    let mut expected = b"B".to_vec();
    expected.extend(4u64.to_be_bytes());
    expected.extend(b"left");
    expected.extend(1u64.to_be_bytes());
    expected.extend(b"r");
    assert_eq!(made, expected);
    let other = transcript(&bytes("B"), &bytes("b"), &bytes("a"), &bytes("r"), &bytes("left"));
    assert_eq!(other, expected);
}

fn peer(config: &Config, name: &str) -> PeerConfig {
    config.peers.get(name).unwrap().copy()
}

#[test]
fn gui_pairing_requires_code_and_retries_without_replacing_trust() {
    let identity = Identity::generate().unwrap();
    let observation = PairingObservation {
        peer_spki: identity.spki().clone(),
        peer_label: None,
        peer_candidates: vec![v4(192, 0, 2, 1, 43119)],
        authentication_code: "123456".to_owned(),
    };
    let mut config = blank_config();
    assert_eq!(
        add_confirmed_peer(&mut config, &observation, "Ubuntu", "000000", false),
        Err(ConfirmError::CodeMismatch)
    );
    assert_eq!(config.peers.len(), 0);
    add_confirmed_peer(&mut config, &observation, "Ubuntu", "123456", false).unwrap();
    let saved = peer(&config, "Ubuntu");
    let permissions = saved.permissions;
    assert!(permissions.connect && permissions.receive_normal);
    assert!(!permissions.send_normal && !permissions.inject_prelogin);
    add_confirmed_peer(&mut config, &observation, "Ubuntu", "123456", true).unwrap();
    assert_eq!(
        add_confirmed_peer(&mut config, &observation, "Duplicate", "123456", false),
        Err(ConfirmError::AlreadyPaired("Ubuntu".to_owned()))
    );
    assert_eq!((config.peers.len(), peer(&config, "Ubuntu")), (1, saved.copy()));
    let other_identity = Identity::generate().unwrap();
    let other_observation = PairingObservation {
        peer_spki: other_identity.spki().clone(),
        peer_label: None,
        peer_candidates: vec![v4(192, 0, 2, 1, 43119)],
        authentication_code: "123456".to_owned(),
    };
    assert_eq!(
        add_confirmed_peer(&mut config, &other_observation, "Ubuntu", "123456", false),
        Err(ConfirmError::NameTaken)
    );
    assert_eq!((config.peers.len(), peer(&config, "Ubuntu")), (1, saved));

    let mut receiver = blank_config();
    add_confirmed_peer(&mut receiver, &observation, "Mac", "123456", true).unwrap();
    let permissions = peer(&receiver, "Mac").permissions;
    assert!(permissions.connect && permissions.send_normal);
    assert!(!permissions.receive_normal && !permissions.inject_prelogin);
}

#[test]
fn names_of_computers_are_checked() {
    let observation = PairingObservation {
        peer_spki: vec![1],
        peer_label: None,
        peer_candidates: Vec::new(),
        authentication_code: "123456".to_owned(),
    };
    let mut config = blank_config();
    assert_eq!(
        add_confirmed_peer(&mut config, &observation, "  ", "123456", false),
        Err(ConfirmError::InvalidName)
    );
    assert_eq!(
        add_confirmed_peer(&mut config, &observation, &"\u{e9}".repeat(128), "123456", false),
        Err(ConfirmError::NameTooLong)
    );
    add_confirmed_peer(&mut config, &observation, " desk ", "123456", false).unwrap();
    assert_eq!(peer(&config, "desk").spki_der_hex, "01");
}

// ---------------------------------------------------------------------------
// Addresses in text
// ---------------------------------------------------------------------------

#[test]
fn addresses_are_written_like_the_standard_library_writes_them() {
    for (address, text) in [
        (v4(192, 0, 2, 10, 43119), "192.0.2.10:43119"),
        (v4(0, 0, 0, 0, 0), "0.0.0.0:0"),
        (v6(0, 43119), "[::]:43119"),
        (v6(1, 1), "[::1]:1"),
        (v6(0x2001_0db8_0000_0000_0001_0000_0000_0001, 80), "[2001:db8::1:0:0:1]:80"),
        (v6(0x0001_0000_0000_0002_0000_0000_0000_0003, 80), "[1:0:0:2::3]:80"),
        (v6(0x0001_0002_0003_0004_0005_0006_0000_0008, 80), "[1:2:3:4:5:6:0:8]:80"),
        (v6(0xfe80_0000_0000_0000_0000_0000_0000_0000, 80), "[fe80::]:80"),
        (v6(0xffff_c000_0201, 80), "[::ffff:192.0.2.1]:80"),
        (
            SocketAddress::V6 { ip: 0xfe80 << 112 | 5, port: 9, flowinfo: 0, scope_id: 3 },
            "[fe80::5%3]:9",
        ),
    ] {
        assert_eq!(write_address(address), text);
        assert_eq!(read_address(text), Some(address));
    }
}

#[test]
fn addresses_are_read_in_every_standard_form() {
    for (text, address) in [
        ("127.0.0.1:00080", v4(127, 0, 0, 1, 80)),
        ("[0:0:0:0:0:0:0:1]:80", v6(1, 80)),
        ("[1::]:80", v6(1 << 112, 80)),
        ("[1:2:3:4:5:6:7::]:80", v6(0x0001_0002_0003_0004_0005_0006_0007_0000, 80)),
        ("[::FFFF:1.2.3.4]:80", v6(0xffff_0102_0304, 80)),
        ("[64:ff9b::1.2.3.4]:80", v6(0x0064_ff9b << 96 | 0x0102_0304, 80)),
        ("[1:2:3:4:5:6:1.2.3.4]:80", v6(0x0001_0002_0003_0004_0005_0006_0102_0304, 80)),
    ] {
        assert_eq!(read_address(text), Some(address), "{text}");
    }
    for text in [
        "",
        "localhost",
        "localhost:80",
        "127.0.0.1",
        "127.0.0.1:",
        "127.0.0.1:65536",
        "127.0.0.1:+80",
        "127.0.0:80",
        "127.0.0.01:80",
        "127.0.0.256:80",
        "1.2.3.4.5:80",
        "::1:80",
        "[::1]",
        "[::1]80",
        "[::1]:80 ",
        "[:::1]:80",
        "[1::2::3]:80",
        "[12345::]:80",
        "[1:2:3:4:5:6:7:8:9]:80",
        "[1:2:3:4:5:6:7:8::]:80",
        "[1:2:3:4:5:6::1.2.3.4]:80",
        "[1.2.3.4::]:80",
        "[::1%]:80",
        "[::1%x]:80",
        "[::g]:80",
        "$(touch /tmp/nope)",
    ] {
        assert_eq!(read_address(text), None, "{text}");
    }
    let flow = SocketAddress::V6 { ip: 1, port: 2, flowinfo: 3, scope_id: 0 };
    assert_eq!(read_address(&write_address(flow)), Some(v6(1, 2)));
}

#[test]
fn candidates_are_sorted_and_listed_once() {
    let list = vec![v6(1, 1), v4(10, 0, 0, 1, 2), v4(10, 0, 0, 1, 1), v6(1, 1)];
    assert_eq!(
        sorted_addresses(&list),
        vec![v4(10, 0, 0, 1, 1), v4(10, 0, 0, 1, 2), v6(1, 1)]
    );
}

// ---------------------------------------------------------------------------
// Metrics
// ---------------------------------------------------------------------------

#[test]
fn window_is_bounded_and_reports_percentiles() {
    let mut window = SampleWindow::new(4);
    for value in 1..=6 {
        window.record(Some(value));
    }
    let summary = window.summary().unwrap();
    assert_eq!(summary.count, 4);
    assert_eq!(summary.p50, 5);
    assert_eq!(summary.maximum, 6);
}

#[test]
fn percentiles_are_ranks_of_the_sorted_samples() {
    let mut window = SampleWindow::default();
    for value in (1..=1001).rev() {
        window.record(Some(value * 10));
    }
    assert_eq!(
        window.summary().unwrap(),
        SampleSummary {
            count: 1001,
            p50: 5_010,
            p95: 9_510,
            p99: 9_910,
            p999: 10_000,
            maximum: 10_010,
        }
    );
    // The same ranks as rounding the quantile of the last index up.
    for count in 1..=200usize {
        let mut window = SampleWindow::new(count);
        for value in 0..count as i64 {
            window.record(Some(value));
        }
        let summary = window.summary().unwrap();
        let rank = |quantile: f64| ((count - 1) as f64 * quantile).ceil() as i64;
        assert_eq!(
            (summary.p50, summary.p95, summary.p99, summary.p999),
            (rank(0.50), rank(0.95), rank(0.99), rank(0.999))
        );
    }
}

#[test]
fn non_finite_samples_are_ignored() {
    let mut window = SampleWindow::new(2);
    let sample = |value: f64| value.is_finite().then_some(value as i64);
    window.record(sample(f64::NAN));
    window.record(sample(f64::INFINITY));
    assert!(window.summary().is_none());
}

#[test]
fn sequence_gaps_are_repaired_by_bounded_late_arrivals() {
    let mut metrics = SessionMetrics::default();
    metrics.begin_activation();
    metrics.observe_motion_sequence(1);
    metrics.observe_motion_sequence(3);
    assert_eq!(metrics.loss, 1);

    metrics.observe_motion_sequence(2);
    assert_eq!(metrics.loss, 0);
    assert_eq!(metrics.reordered, 1);

    metrics.observe_motion_sequence(2);
    assert_eq!(metrics.duplicate_datagrams, 1);
}

#[test]
fn losses_are_exact_far_beyond_the_first_window() {
    let mut metrics = SessionMetrics::default();
    let arrivals = [4_000, 8_000, 7_999, 5_000, 5_000, 12_000, 9_000, 12_001];
    for sequence in arrivals {
        metrics.observe_motion_sequence(sequence);
    }
    // Seven different sequences up to the highest have arrived.
    assert_eq!(metrics.loss, 12_001 - 7);
    assert_eq!((metrics.reordered, metrics.duplicate_datagrams), (3, 1));
}

#[test]
fn arrivals_below_the_window_are_not_guessed_at() {
    let mut metrics = SessionMetrics::default();
    metrics.observe_motion_sequence(0);
    metrics.observe_motion_sequence(5_000);
    assert_eq!(metrics.loss, 4_999);
    metrics.observe_motion_sequence(904);
    assert_eq!((metrics.loss, metrics.reordered), (4_999, 0));
    metrics.observe_motion_sequence(905);
    assert_eq!((metrics.loss, metrics.reordered), (4_998, 1));
    metrics.begin_activation();
    metrics.observe_motion_sequence(1);
    assert_eq!(metrics.loss, 4_998);
    let snapshot = metrics.snapshot();
    assert_eq!((snapshot.loss, snapshot.reordered), (4_998, 1));
}

#[test]
fn packet_delay_variation_uses_consecutive_absolute_deltas() {
    let mut metrics = SessionMetrics::default();
    let mut window = SampleWindow::default();
    for delay in [1_000, 1_600, 1_100] {
        if let Some(variation) = metrics.observe_packet_delay(delay) {
            window.record(Some(variation as i64));
        }
    }

    let summary = window.summary().unwrap();
    assert_eq!(summary.count, 2);
    assert_eq!(summary.maximum, 600);
}
