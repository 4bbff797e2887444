use std::cell::RefCell;
use std::collections::VecDeque;

use zflow::linux::logind::{
    seat_properties, session_properties, validate_identifier, BusValue, IdentifierKind,
    LogindError, PropertyFault,
};
use zflow::linux::seat::{
    classify_session, decide_seat, inspect_seat, is_valid_identifier, parse_seat,
    AuthenticatedSession, AuthenticatedSessionKind, Doubt, InjectionGate, LogindQuery, Properties,
    Property, QueryContext, RestrictedSeatState, SeatState,
};
use zflow::ordered::OrderedMap;

const SEAT_ACTIVE: &str = "Id=seat0\nActiveSession=2\nSessions=2 c1\n";
const WAYLAND: &str = "Id=2\nUser=1000\nVTNr=2\nSeat=seat0\nTTY=tty2\nRemote=no\nType=wayland\nClass=user\nActive=yes\nState=active\nCanLock=yes\nLockedHint=no\n";

fn parse_properties(output: &str) -> Result<Properties, String> {
    let mut properties = Properties::new();
    for line in output.lines() {
        if line.is_empty() {
            continue;
        }
        let (name, value) = line
            .split_once('=')
            .ok_or_else(|| format!("malformed logind property line {line:?}"))?;
        if name.is_empty() || !name.bytes().all(|byte| byte.is_ascii_alphanumeric()) {
            return Err(format!("invalid logind property name {name:?}"));
        }
        if properties.insert(name.to_owned(), value.to_owned()) {
            return Err(format!("logind property {name:?} appears more than once"));
        }
    }
    Ok(properties)
}

struct FakeQuery {
    seats: RefCell<VecDeque<Result<String, &'static str>>>,
    sessions: RefCell<VecDeque<Result<String, &'static str>>>,
}

impl FakeQuery {
    fn new(seats: &[&str], sessions: &[&str]) -> Self {
        Self {
            seats: RefCell::new(seats.iter().map(|value| Ok((*value).to_owned())).collect()),
            sessions: RefCell::new(sessions.iter().map(|value| Ok((*value).to_owned())).collect()),
        }
    }
}

impl LogindQuery for FakeQuery {
    fn show_seat(&self, _seat: &str) -> Result<Properties, String> {
        self.seats
            .borrow_mut()
            .pop_front()
            .expect("unexpected seat query")
            .map_err(str::to_owned)
            .and_then(|output| parse_properties(&output))
    }

    fn show_session(&self, _session: &str) -> Result<Properties, String> {
        self.sessions
            .borrow_mut()
            .pop_front()
            .expect("unexpected session query")
            .map_err(str::to_owned)
            .and_then(|output| parse_properties(&output))
    }
}

fn inspect(seats: &[&str], sessions: &[&str]) -> SeatState {
    inspect_seat(&FakeQuery::new(seats, sessions), "seat0")
}

#[test]
fn unlocked_wayland_session_grants_normal_input_and_ipc_uid() {
    let state = inspect(&[SEAT_ACTIVE, SEAT_ACTIVE], &[WAYLAND, WAYLAND]);
    assert_eq!(
        state,
        SeatState::Unlocked(AuthenticatedSession {
            id: "2".to_owned(),
            uid: 1000,
            kind: AuthenticatedSessionKind::Wayland,
        })
    );
    assert_eq!(state.injection_gate(), InjectionGate::Normal { uid: 1000 });
    assert_eq!(state.active_authenticated_uid(), Some(1000));
}

#[test]
fn authenticated_active_vt_is_a_normal_session() {
    let tty = WAYLAND
        .replace("Type=wayland", "Type=tty")
        .replace("CanLock=yes", "CanLock=no");
    let state = inspect(&[SEAT_ACTIVE, SEAT_ACTIVE], &[&tty, &tty]);
    assert!(matches!(
        state,
        SeatState::Unlocked(AuthenticatedSession {
            kind: AuthenticatedSessionKind::VirtualTerminal,
            ..
        })
    ));
}

#[test]
fn locked_user_requires_prelogin_permission_but_keeps_ipc_uid() {
    let locked = WAYLAND.replace("LockedHint=no", "LockedHint=yes");
    let state = inspect(&[SEAT_ACTIVE, SEAT_ACTIVE], &[&locked, &locked]);
    assert!(matches!(state, SeatState::Restricted(RestrictedSeatState::LockedUser(_))));
    assert_eq!(state.injection_gate(), InjectionGate::PreLogin);
    assert_eq!(state.active_authenticated_uid(), Some(1000));
}

#[test]
fn greeter_and_lock_screen_are_known_prelogin_states() {
    for class in ["greeter", "lock-screen"] {
        let pseudo = WAYLAND.replace("Class=user", &format!("Class={class}"));
        let state = inspect(&[SEAT_ACTIVE, SEAT_ACTIVE], &[&pseudo, &pseudo]);
        assert_eq!(state.injection_gate(), InjectionGate::PreLogin);
        assert_eq!(state.active_authenticated_uid(), None);
    }
}

#[test]
fn no_active_logind_session_is_a_known_login_state() {
    let no_active = "Id=seat0\nActiveSession=\nSessions=2\n";
    let state = inspect(&[no_active, no_active], &[]);
    assert_eq!(state, SeatState::Restricted(RestrictedSeatState::NoActiveSession));
    assert_eq!(state.injection_gate(), InjectionGate::PreLogin);
}

#[test]
fn seat_or_session_change_fails_closed() {
    let other = "Id=seat0\nActiveSession=c1\nSessions=2 c1\n";
    let changed_session = WAYLAND.replace("LockedHint=no", "LockedHint=yes");
    for state in [
        inspect(&[SEAT_ACTIVE, other], &[WAYLAND]),
        inspect(&[SEAT_ACTIVE, SEAT_ACTIVE], &[WAYLAND, &changed_session]),
    ] {
        assert!(matches!(state, SeatState::Unknown { .. }));
        assert_eq!(state.injection_gate(), InjectionGate::Denied);
    }
}

#[test]
fn contradictory_or_incomplete_properties_fail_closed() {
    let cases = [
        WAYLAND.replace("Remote=no", "Remote=yes"),
        WAYLAND.replace("State=active", "State=online"),
        WAYLAND.replace("CanLock=yes", "CanLock=no"),
        WAYLAND.replace("Type=wayland", "Type=x11"),
        WAYLAND.replace("Class=user", "Class=manager"),
        WAYLAND.replace("LockedHint=no\n", ""),
        WAYLAND.replace("TTY=tty2", "TTY=tty3"),
        format!("{WAYLAND}User=1000\n"),
    ];
    for session in cases {
        let state = inspect(&[SEAT_ACTIVE, SEAT_ACTIVE], &[&session, &session]);
        assert!(matches!(state, SeatState::Unknown { .. }), "unexpected state: {state:?}");
        assert_eq!(state.injection_gate(), InjectionGate::Denied);
        assert_eq!(state.active_authenticated_uid(), None);
    }
}

#[test]
fn active_session_must_belong_to_the_seat_session_list() {
    let contradictory = "Id=seat0\nActiveSession=2\nSessions=c1\n";
    let state = inspect(&[contradictory], &[]);
    assert!(matches!(state, SeatState::Unknown { .. }));
}

#[test]
fn query_error_fails_closed() {
    let query = FakeQuery {
        seats: RefCell::new(VecDeque::from([Err("logind unavailable")])),
        sessions: RefCell::new(VecDeque::new()),
    };
    let state = inspect_seat(&query, "seat0");
    assert_eq!(
        state,
        SeatState::Unknown {
            reason: Doubt::QueryFailed {
                context: QueryContext::Seat,
                error: "logind unavailable".to_owned(),
            },
        }
    );
    assert_eq!(state.injection_gate(), InjectionGate::Denied);
}

fn doubt(session: &str) -> Doubt<String> {
    match classify_session(&parse_properties(session).unwrap(), "seat0", "2") {
        SeatState::Unknown { reason } => reason,
        other => panic!("unexpected state: {other:?}"),
    }
}

#[test]
fn doubts_name_the_property() {
    assert_eq!(
        doubt(&WAYLAND.replace("Remote=no", "Remote=yes")),
        Doubt::UnexpectedValue {
            property: Property::Remote,
            actual: "yes".to_owned(),
            expected: "no".to_owned(),
        }
    );
    assert_eq!(
        doubt(&WAYLAND.replace("LockedHint=no\n", "")),
        Doubt::MissingProperty(Property::LockedHint)
    );
    assert_eq!(
        doubt(&WAYLAND.replace("LockedHint=no", "LockedHint=maybe")),
        Doubt::InvalidBoolean { property: Property::LockedHint, value: "maybe".to_owned() }
    );
    assert_eq!(
        doubt(&WAYLAND.replace("Class=user", "Class=manager")),
        Doubt::UnsupportedClass("manager".to_owned())
    );
    assert_eq!(
        doubt(&WAYLAND.replace("Type=wayland", "Type=x11")),
        Doubt::UnsupportedType("x11".to_owned())
    );
    assert_eq!(doubt(&WAYLAND.replace("User=1000", "User=root")), Doubt::InvalidUser);
    assert_eq!(doubt(&WAYLAND.replace("VTNr=2", "VTNr=x")), Doubt::InvalidTerminalNumber);
    assert_eq!(doubt(&WAYLAND.replace("VTNr=2", "VTNr=0")), Doubt::NoTerminal);
}

#[test]
fn seats_list_each_session_once() {
    let repeated = parse_properties("Id=seat0\nActiveSession=2\nSessions=2 2\n").unwrap();
    assert_eq!(
        parse_seat(&repeated, "seat0").err(),
        Some(Doubt::RepeatedSession("2".to_owned()))
    );
    let unsafe_name = parse_properties("Id=seat0\nActiveSession=2\nSessions=../2\n").unwrap();
    assert_eq!(
        parse_seat(&unsafe_name, "seat0").err(),
        Some(Doubt::InvalidIdentifier("../2".to_owned()))
    );
    let answers = |text: &str| parse_properties(text);
    let unused = || Err(String::new());
    let state = decide_seat(
        &answers("Id=seat0\nActiveSession=2\nSessions=c1\n"),
        &unused(),
        &unused(),
        &unused(),
        "seat0",
    );
    assert_eq!(
        state,
        SeatState::Unknown { reason: Doubt::UnlistedSession("2".to_owned()) }
    );
}

fn bus_properties(text: &str) -> OrderedMap<BusValue> {
    let mut values = OrderedMap::new(false);
    for line in text.lines() {
        let (name, value) = line.split_once('=').unwrap();
        let value = match name {
            "ActiveSession" | "Seat" => BusValue::Named(value.to_owned()),
            "Sessions" => {
                BusValue::NameList(value.split_whitespace().map(str::to_owned).collect())
            }
            "User" => BusValue::User(value.parse().unwrap()),
            "VTNr" => BusValue::Number(value.parse().unwrap()),
            "Remote" | "Active" | "CanLock" | "LockedHint" => BusValue::Flag(value == "yes"),
            _ => BusValue::Text(value.to_owned()),
        };
        values.insert(name.to_owned(), value);
    }
    values
}

#[test]
fn typed_bus_properties_preserve_seat_and_session_classification() {
    let seat = seat_properties(&bus_properties(SEAT_ACTIVE)).ok().unwrap();
    let session = session_properties(&bus_properties(WAYLAND)).ok().unwrap();
    assert!(seat.same_as(&parse_properties(SEAT_ACTIVE).unwrap()));
    assert!(session.same_as(&parse_properties(WAYLAND).unwrap()));
    assert_eq!(
        classify_session(&session, "seat0", "2").injection_gate(),
        InjectionGate::Normal { uid: 1000 }
    );
    let no_active = "Id=seat0\nActiveSession=\nSessions=\n";
    assert!(seat_properties(&bus_properties(no_active))
        .ok()
        .unwrap()
        .same_as(&parse_properties(no_active).unwrap()));
}

#[test]
fn wrong_bus_types_and_missing_security_properties_are_rejected() {
    for name in ["LockedHint", "Remote", "User", "Seat", "VTNr"] {
        let mut missing = bus_properties(WAYLAND);
        missing.remove(name);
        assert!(matches!(
            session_properties(&missing).err(),
            Some(LogindError::Property { fault: PropertyFault::Missing, .. })
        ));
        let mut wrong = bus_properties(WAYLAND);
        wrong.insert(name.to_owned(), BusValue::Other);
        assert!(matches!(
            session_properties(&wrong).err(),
            Some(LogindError::Property { fault: PropertyFault::WrongType, .. })
        ));
    }
    for name in ["ActiveSession", "Sessions"] {
        let mut wrong = bus_properties(SEAT_ACTIVE);
        wrong.insert(name.to_owned(), BusValue::Other);
        assert!(seat_properties(&wrong).is_err(), "wrong type for {name}");
    }
}

#[test]
fn unsafe_identifiers_are_not_put_into_queries() {
    assert!(is_valid_identifier("seat0") && is_valid_identifier("c1"));
    for bad in ["", "../seat0", "seat 0", "seat\n"] {
        assert!(!is_valid_identifier(bad));
        assert_eq!(
            validate_identifier(IdentifierKind::Seat, bad),
            Err(LogindError::InvalidIdentifier {
                kind: IdentifierKind::Seat,
                value: bad.to_owned(),
            })
        );
    }
    assert_eq!(validate_identifier(IdentifierKind::Session, "2"), Ok(()));
}

/// Writes down every question.
struct Listening {
    inner: FakeQuery,
    asked: RefCell<Vec<String>>,
}

impl LogindQuery for Listening {
    fn show_seat(&self, seat: &str) -> Result<Properties, String> {
        self.asked.borrow_mut().push(format!("seat {seat}"));
        self.inner.show_seat(seat)
    }

    fn show_session(&self, session: &str) -> Result<Properties, String> {
        self.asked.borrow_mut().push(format!("session {session}"));
        self.inner.show_session(session)
    }
}

#[test]
fn the_seat_and_the_session_that_it_names_are_asked_about_twice() {
    let query = Listening {
        inner: FakeQuery::new(&[SEAT_ACTIVE, SEAT_ACTIVE], &[WAYLAND, WAYLAND]),
        asked: RefCell::new(Vec::new()),
    };
    let state = inspect_seat(&query, "seat0");
    assert_eq!(state.injection_gate(), InjectionGate::Normal { uid: 1000 });
    assert_eq!(*query.asked.borrow(), ["seat seat0", "session 2", "seat seat0", "session 2"]);
}
