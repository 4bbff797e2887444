//! Who sits at the local seat, and whether remote input may reach it.
//!
//! Logind is asked twice and has to answer the same both times. Whatever is
//! incomplete, contradictory or changing denies input.
use vstd::prelude::*;

use crate::ordered::OrderedMap;
use crate::scan::{
    decimal, decimal_text, joined, number_in, numbers_stay_in_range, parse_number, split_whitespace, views, words,
};
use crate::text::{position_of_text, same_text};

verus! {

/// The seat of the machine's own keyboard and display.
pub const PRIMARY_SEAT: &'static str = "seat0";

/// The permission class required before remote input may reach the active
/// Linux seat.
#[derive(Clone, Copy, Debug, PartialEq, Eq, Structural)]
pub enum InjectionGate {
    /// An unlocked, authenticated local user session is active.
    Normal { uid: u32 },
    /// The active seat is in a known greeter, lock or login state.
    PreLogin,
    /// Logind did not provide a complete and self-consistent answer.
    Denied,
}

#[derive(Clone, Copy, Debug, PartialEq, Eq, Structural)]
pub enum AuthenticatedSessionKind {
    Wayland,
    VirtualTerminal,
}

#[derive(Debug, PartialEq, Eq)]
pub struct AuthenticatedSession {
    pub id: String,
    pub uid: u32,
    pub kind: AuthenticatedSessionKind,
}

#[derive(Debug, PartialEq, Eq)]
pub enum RestrictedSeatState {
    /// No logind session owns the foreground terminal. This covers a text login
    /// prompt and the period before a display manager starts.
    NoActiveSession,
    Greeter { session_id: String },
    LockScreen { session_id: String },
    LockedUser(AuthenticatedSession),
}

/// Logind properties that decide about a seat.
#[derive(Clone, Copy, Debug, PartialEq, Eq, Structural)]
pub enum Property {
    Id,
    ActiveSession,
    Sessions,
    Seat,
    Active,
    State,
    Remote,
    Class,
    User,
    LockedHint,
    Type,
    CanLock,
    VtNumber,
    Tty,
}

impl Property {
    pub open spec fn name_spec(self) -> Seq<char> {
        match self {
            Property::Id => "Id"@,
            Property::ActiveSession => "ActiveSession"@,
            Property::Sessions => "Sessions"@,
            Property::Seat => "Seat"@,
            Property::Active => "Active"@,
            Property::State => "State"@,
            Property::Remote => "Remote"@,
            Property::Class => "Class"@,
            Property::User => "User"@,
            Property::LockedHint => "LockedHint"@,
            Property::Type => "Type"@,
            Property::CanLock => "CanLock"@,
            Property::VtNumber => "VTNr"@,
            Property::Tty => "TTY"@,
        }
    }

    pub fn name(self) -> (result: &'static str)
        ensures
            result@ == self.name_spec(),
    {
        match self {
            Property::Id => "Id",
            Property::ActiveSession => "ActiveSession",
            Property::Sessions => "Sessions",
            Property::Seat => "Seat",
            Property::Active => "Active",
            Property::State => "State",
            Property::Remote => "Remote",
            Property::Class => "Class",
            Property::User => "User",
            Property::LockedHint => "LockedHint",
            Property::Type => "Type",
            Property::CanLock => "CanLock",
            Property::VtNumber => "VTNr",
            Property::Tty => "TTY",
        }
    }
}

/// Which question to logind failed.
#[derive(Clone, Copy, Debug, PartialEq, Eq, Structural)]
pub enum QueryContext {
    Runtime,
    Seat,
    SeatConfirmation,
    Session,
    SessionConfirmation,
}

/// Why the seat state is unknown.
#[derive(Debug, PartialEq, Eq)]
pub enum Doubt<T> {
    QueryFailed { context: QueryContext, error: T },
    MissingProperty(Property),
    UnexpectedValue { property: Property, actual: T, expected: T },
    InvalidIdentifier(T),
    /// The seat lists a session more than once.
    RepeatedSession(T),
    /// The active session is not in the seat's session list.
    UnlistedSession(T),
    /// The active session changed while logind was asked.
    SessionChanged,
    /// The properties of the active session changed while logind was asked.
    PropertiesChanged,
    UnsupportedClass(T),
    UnsupportedType(T),
    InvalidUser,
    InvalidTerminalNumber,
    /// The session names no virtual terminal.
    NoTerminal,
    InvalidBoolean { property: Property, value: T },
}

pub open spec fn doubt_of(doubt: Doubt<String>) -> Doubt<Seq<char>> {
    match doubt {
        Doubt::QueryFailed { context, error } => Doubt::QueryFailed { context, error: error@ },
        Doubt::MissingProperty(property) => Doubt::MissingProperty(property),
        Doubt::UnexpectedValue { property, actual, expected } => Doubt::UnexpectedValue {
            property,
            actual: actual@,
            expected: expected@,
        },
        Doubt::InvalidIdentifier(text) => Doubt::InvalidIdentifier(text@),
        Doubt::RepeatedSession(text) => Doubt::RepeatedSession(text@),
        Doubt::UnlistedSession(text) => Doubt::UnlistedSession(text@),
        Doubt::SessionChanged => Doubt::SessionChanged,
        Doubt::PropertiesChanged => Doubt::PropertiesChanged,
        Doubt::UnsupportedClass(text) => Doubt::UnsupportedClass(text@),
        Doubt::UnsupportedType(text) => Doubt::UnsupportedType(text@),
        Doubt::InvalidUser => Doubt::InvalidUser,
        Doubt::InvalidTerminalNumber => Doubt::InvalidTerminalNumber,
        Doubt::NoTerminal => Doubt::NoTerminal,
        Doubt::InvalidBoolean { property, value } => Doubt::InvalidBoolean {
            property,
            value: value@,
        },
    }
}

/// A point-in-time classification of the local Linux seat.
///
/// `Unknown` is intentionally different from `Restricted`: pre-login permission
/// can authorize only states that logind identified conclusively.
#[derive(Debug, PartialEq, Eq)]
pub enum SeatState {
    Unlocked(AuthenticatedSession),
    Restricted(RestrictedSeatState),
    Unknown { reason: Doubt<String> },
}

/// A seat state as mathematical values.
pub enum SeatModel {
    Unlocked { id: Seq<char>, uid: u32, kind: AuthenticatedSessionKind },
    NoActiveSession,
    Greeter { id: Seq<char> },
    LockScreen { id: Seq<char> },
    LockedUser { id: Seq<char>, uid: u32, kind: AuthenticatedSessionKind },
    Unknown(Doubt<Seq<char>>),
}

impl View for SeatState {
    type V = SeatModel;

    open spec fn view(&self) -> SeatModel {
        match *self {
            SeatState::Unlocked(session) => SeatModel::Unlocked {
                id: session.id@,
                uid: session.uid,
                kind: session.kind,
            },
            SeatState::Restricted(
                RestrictedSeatState::NoActiveSession,
            ) => SeatModel::NoActiveSession,
            SeatState::Restricted(RestrictedSeatState::Greeter { session_id }) =>
                SeatModel::Greeter { id: session_id@ },
            SeatState::Restricted(RestrictedSeatState::LockScreen { session_id }) =>
                SeatModel::LockScreen { id: session_id@ },
            SeatState::Restricted(RestrictedSeatState::LockedUser(session)) =>
                SeatModel::LockedUser { id: session.id@, uid: session.uid, kind: session.kind },
            SeatState::Unknown { reason } => SeatModel::Unknown(doubt_of(reason)),
        }
    }
}

impl SeatModel {
    pub open spec fn gate(self) -> InjectionGate {
        match self {
            SeatModel::Unlocked { uid, .. } => InjectionGate::Normal { uid },
            SeatModel::Unknown(_) => InjectionGate::Denied,
            _ => InjectionGate::PreLogin,
        }
    }

    pub open spec fn authenticated_uid(self) -> Option<u32> {
        match self {
            SeatModel::Unlocked { uid, .. } => Some(uid),
            SeatModel::LockedUser { uid, .. } => Some(uid),
            _ => None,
        }
    }
}

impl SeatState {
    pub fn injection_gate(&self) -> (result: InjectionGate)
        ensures
            result == self@.gate(),
    {
        match self {
            SeatState::Unlocked(session) => InjectionGate::Normal { uid: session.uid },
            SeatState::Restricted(_) => InjectionGate::PreLogin,
            SeatState::Unknown { .. } => InjectionGate::Denied,
        }
    }

    /// Returns the interactive user's UID for local IPC authorization.
    ///
    /// A locked user remains the authenticated owner of their session. A greeter
    /// or lock-screen pseudo-session is not an interactive user.
    pub fn active_authenticated_uid(&self) -> (result: Option<u32>)
        ensures
            result == self@.authenticated_uid(),
    {
        match self {
            SeatState::Unlocked(session) => Some(session.uid),
            SeatState::Restricted(RestrictedSeatState::LockedUser(session)) => Some(session.uid),
            _ => None,
        }
    }
}

/// Textual logind properties by name.
pub struct Properties {
    entries: OrderedMap<String>,
}

pub open spec fn texts_of(map: Map<Seq<char>, String>) -> Map<Seq<char>, Seq<char>> {
    map.map_values(|text: String| text@)
}

impl View for Properties {
    type V = Map<Seq<char>, Seq<char>>;

    closed spec fn view(&self) -> Map<Seq<char>, Seq<char>> {
        texts_of(self.entries@)
    }
}

impl Properties {
    #[verifier::type_invariant]
    spec fn ordered(&self) -> bool {
        self.entries.wf()
    }

    pub fn new() -> (result: Self)
        ensures
            result@ == Map::<Seq<char>, Seq<char>>::empty(),
    {
        let result = Properties { entries: OrderedMap::new(false) };
        assert(result@ =~= Map::<Seq<char>, Seq<char>>::empty());
        result
    }

    /// Stores a property and tells whether it replaced one.
    pub fn insert(&mut self, name: String, value: String) -> (replaced: bool)
        ensures
            replaced == old(self)@.contains_key(name@),
            final(self)@ == old(self)@.insert(name@, value@),
    {
        let mut taken = Properties::new();
        std::mem::swap(self, &mut taken);
        proof {
            use_type_invariant(&taken);
        }
        let ghost key = name@;
        let ghost text = value@;
        let mut entries = taken.entries;
        let replaced = entries.contains_key(name.as_str());
        entries.insert(name, value);
        *self = Properties { entries };
        assert(self@ =~= old(self)@.insert(key, text));
        replaced
    }

    pub fn get(&self, name: &str) -> (result: Option<&str>)
        ensures
            match result {
                Some(value) => self@.contains_pair(name@, value@),
                None => !self@.contains_key(name@),
            },
    {
        proof {
            use_type_invariant(self);
        }
        match self.entries.get(name) {
            Some(value) => Some(value.as_str()),
            None => None,
        }
    }

    fn included_in(&self, other: &Properties) -> (result: bool)
        ensures
            result == forall|name: Seq<char>| #[trigger]
                self@.contains_key(name) ==> other@.contains_pair(name, self@[name]),
    {
        proof {
            use_type_invariant(self);
        }
        let count: usize = self.entries.len();
        let mut at: usize = 0;
        while at < count
            invariant
                self.entries.wf(),
                count == self.entries.keys().len(),
                at <= count,
                forall|i: int|
                    0 <= i < at ==> other@.contains_pair(
                        #[trigger] self.entries.keys()[i],
                        self.entries.values()[i]@,
                    ),
            decreases count - at,
        {
            proof {
                self.entries.entry_in_map(at as int);
                assert(self@.contains_pair(
                    self.entries.keys()[at as int],
                    self.entries.values()[at as int]@,
                ));
            }
            let same = match other.get(self.entries.key_at(at).as_str()) {
                Some(value) => same_text(value, self.entries.value_at(at).as_str()),
                None => false,
            };
            if !same {
                return false;
            }
            at = at + 1;
        }
        proof {
            assert forall|name: Seq<char>| #[trigger]
                self@.contains_key(name) implies other@.contains_pair(name, self@[name]) by {
                let k = self.entries.key_has_position(name);
                assert(other@.contains_pair(self.entries.keys()[k], self.entries.values()[k]@));
            }
        }
        true
    }

    pub fn same_as(&self, other: &Properties) -> (result: bool)
        ensures
            result == (self@ == other@),
    {
        let forward = self.included_in(other);
        let backward = other.included_in(self);
        if forward && backward {
            assert(self@ =~= other@);
        }
        forward && backward
    }
}

/// Boundary around logind. Callers decide how the questions are asked.
pub trait LogindQuery {
    fn show_seat(&self, seat: &str) -> Result<Properties, String>;

    fn show_session(&self, session: &str) -> Result<Properties, String>;
}

pub open spec fn identifier_char(c: char) -> bool {
    'a' <= c <= 'z' || 'A' <= c <= 'Z' || '0' <= c <= '9' || c == '_' || c == '-'
}

/// A session or seat name that is safe to use in a query.
pub open spec fn valid_identifier(text: Seq<char>) -> bool {
    &&& 0 < text.len() <= 128
    &&& forall|i: int| 0 <= i < text.len() ==> identifier_char(#[trigger] text[i])
}

pub fn is_valid_identifier(text: &str) -> (result: bool)
    ensures
        result == valid_identifier(text@),
{
    let len: usize = text.unicode_len();
    if len == 0 || len > 128 {
        return false;
    }
    let mut at: usize = 0;
    while at < len
        invariant
            len == text@.len(),
            at <= len,
            forall|i: int| 0 <= i < at ==> identifier_char(#[trigger] text@[i]),
        decreases len - at,
    {
        let c = text.get_char(at);
        if !(('a' <= c && c <= 'z') || ('A' <= c && c <= 'Z') || ('0' <= c && c <= '9') || c
            == '_' || c == '-') {
            return false;
        }
        at = at + 1;
    }
    true
}

// ---------------------------------------------------------------------------
// Reading one answer
// ---------------------------------------------------------------------------

pub struct SeatSnapshot {
    pub active_session: Option<String>,
    pub sessions: Vec<String>,
}

/// A seat answer as mathematical values.
pub struct SnapshotModel {
    pub active_session: Option<Seq<char>>,
    pub sessions: Seq<Seq<char>>,
}

impl View for SeatSnapshot {
    type V = SnapshotModel;

    open spec fn view(&self) -> SnapshotModel {
        SnapshotModel {
            active_session: crate::text::text_of(self.active_session),
            sessions: views(self.sessions@),
        }
    }
}

pub open spec fn exact_value(
    properties: Map<Seq<char>, Seq<char>>,
    property: Property,
    expected: Seq<char>,
) -> Option<Doubt<Seq<char>>> {
    if !properties.contains_key(property.name_spec()) {
        Some(Doubt::MissingProperty(property))
    } else if properties[property.name_spec()] != expected {
        Some(
            Doubt::UnexpectedValue { property, actual: properties[property.name_spec()], expected },
        )
    } else {
        None
    }
}

/// The first session in the list that is invalid or repeats an earlier one.
pub open spec fn list_doubt(sessions: Seq<Seq<char>>) -> Option<Doubt<Seq<char>>>
    decreases sessions.len(),
{
    if sessions.len() == 0 {
        None
    } else {
        match list_doubt(sessions.drop_last()) {
            Some(doubt) => Some(doubt),
            None => if !valid_identifier(sessions.last()) {
                Some(Doubt::InvalidIdentifier(sessions.last()))
            } else if sessions.drop_last().contains(sessions.last()) {
                Some(Doubt::RepeatedSession(sessions.last()))
            } else {
                None
            },
        }
    }
}

/// What a seat answer says, or why it cannot be trusted.
pub open spec fn snapshot_of(
    properties: Map<Seq<char>, Seq<char>>,
    seat: Seq<char>,
) -> Result<SnapshotModel, Doubt<Seq<char>>> {
    let active = properties[Property::ActiveSession.name_spec()];
    let listed = words(properties[Property::Sessions.name_spec()]);
    if let Some(doubt) = exact_value(properties, Property::Id, seat) {
        Err(doubt)
    } else if !properties.contains_key(Property::ActiveSession.name_spec()) {
        Err(Doubt::MissingProperty(Property::ActiveSession))
    } else if active.len() > 0 && !valid_identifier(active) {
        Err(Doubt::InvalidIdentifier(active))
    } else if !properties.contains_key(Property::Sessions.name_spec()) {
        Err(Doubt::MissingProperty(Property::Sessions))
    } else if let Some(doubt) = list_doubt(listed) {
        Err(doubt)
    } else {
        Ok(
            SnapshotModel {
                active_session: if active.len() > 0 {
                    Some(active)
                } else {
                    None
                },
                sessions: listed,
            },
        )
    }
}

fn require<'a>(properties: &'a Properties, property: Property) -> (result: Result<
    &'a str,
    Doubt<String>,
>)
    ensures
        match result {
            Ok(value) => properties@.contains_pair(property.name_spec(), value@),
            Err(doubt) => !properties@.contains_key(property.name_spec()) && doubt_of(doubt)
                == Doubt::<Seq<char>>::MissingProperty(property),
        },
{
    match properties.get(property.name()) {
        Some(value) => Ok(value),
        None => Err(Doubt::MissingProperty(property)),
    }
}

fn require_exact(properties: &Properties, property: Property, expected: &str) -> (result: Result<
    (),
    Doubt<String>,
>)
    ensures
        match result {
            Ok(_) => exact_value(properties@, property, expected@) is None,
            Err(doubt) => exact_value(properties@, property, expected@) == Some(doubt_of(doubt)),
        },
{
    let actual = match require(properties, property) {
        Ok(actual) => actual,
        Err(doubt) => return Err(doubt),
    };
    if same_text(actual, expected) {
        Ok(())
    } else {
        Err(
            Doubt::UnexpectedValue {
                property,
                actual: actual.to_owned(),
                expected: expected.to_owned(),
            },
        )
    }
}

fn check_sessions(sessions: &Vec<String>) -> (result: Result<(), Doubt<String>>)
    ensures
        match result {
            Ok(_) => list_doubt(views(sessions@)) is None,
            Err(doubt) => list_doubt(views(sessions@)) == Some(doubt_of(doubt)),
        },
{
    let ghost listed = views(sessions@);
    let mut at: usize = 0;
    assert(listed.take(0) =~= Seq::empty());
    while at < sessions.len()
        invariant
            listed == views(sessions@),
            at <= sessions@.len(),
            list_doubt(listed.take(at as int)) is None,
        decreases sessions@.len() - at,
    {
        let ghost shorter = listed.take(at as int);
        let ghost longer = listed.take(at + 1);
        assert(longer.drop_last() =~= shorter);
        assert(longer.last() == sessions@[at as int]@);
        let session: &str = sessions[at].as_str();
        let mut failed: Option<Doubt<String>> = None;
        if !is_valid_identifier(session) {
            failed = Some(Doubt::InvalidIdentifier(session.to_owned()));
        } else {
            let mut earlier: usize = 0;
            let mut repeated = false;
            while earlier < at
                invariant
                    earlier <= at < sessions@.len(),
                    listed == views(sessions@),
                    shorter == listed.take(at as int),
                    session@ == listed[at as int],
                    repeated == exists|i: int|
                        0 <= i < earlier && #[trigger] shorter[i] == session@,
                decreases at - earlier,
            {
                if same_text(sessions[earlier].as_str(), session) {
                    assert(shorter[earlier as int] == session@);
                    repeated = true;
                }
                earlier = earlier + 1;
            }
            assert(repeated == shorter.contains(session@));
            if repeated {
                failed = Some(Doubt::RepeatedSession(session.to_owned()));
            }
        }
        if let Some(doubt) = failed {
            proof {
                list_doubt_stays(listed, at + 1);
            }
            return Err(doubt);
        }
        at = at + 1;
    }
    assert(listed.take(at as int) =~= listed);
    Ok(())
}

/// A doubt about the start of a list is the doubt about the whole list.
proof fn list_doubt_stays(sessions: Seq<Seq<char>>, count: int)
    requires
        0 <= count <= sessions.len(),
        list_doubt(sessions.take(count)) is Some,
    ensures
        list_doubt(sessions) == list_doubt(sessions.take(count)),
    decreases sessions.len() - count,
{
    if count == sessions.len() {
        assert(sessions.take(count) =~= sessions);
    } else {
        assert(sessions.take(count + 1).drop_last() =~= sessions.take(count));
        list_doubt_stays(sessions, count + 1);
    }
}

pub fn parse_seat(properties: &Properties, seat: &str) -> (result: Result<
    SeatSnapshot,
    Doubt<String>,
>)
    ensures
        match result {
            Ok(snapshot) => snapshot_of(properties@, seat@) == Ok::<
                SnapshotModel,
                Doubt<Seq<char>>,
            >(snapshot@),
            Err(doubt) => snapshot_of(properties@, seat@) == Err::<
                SnapshotModel,
                Doubt<Seq<char>>,
            >(doubt_of(doubt)),
        },
{
    if let Err(doubt) = require_exact(properties, Property::Id, seat) {
        return Err(doubt);
    }
    let active = match require(properties, Property::ActiveSession) {
        Ok(active) => active,
        Err(doubt) => return Err(doubt),
    };
    let active_session = if active.unicode_len() == 0 {
        None
    } else if is_valid_identifier(active) {
        Some(active.to_owned())
    } else {
        return Err(Doubt::InvalidIdentifier(active.to_owned()));
    };
    let listed = match require(properties, Property::Sessions) {
        Ok(listed) => listed,
        Err(doubt) => return Err(doubt),
    };
    let sessions: Vec<String> = split_whitespace(listed);
    if let Err(doubt) = check_sessions(&sessions) {
        return Err(doubt);
    }
    Ok(SeatSnapshot { active_session, sessions })
}

// ---------------------------------------------------------------------------
// Classifying a session
// ---------------------------------------------------------------------------

pub open spec fn boolean_value(
    properties: Map<Seq<char>, Seq<char>>,
    property: Property,
) -> Result<bool, Doubt<Seq<char>>> {
    let value = properties[property.name_spec()];
    if !properties.contains_key(property.name_spec()) {
        Err(Doubt::MissingProperty(property))
    } else if value == "yes"@ {
        Ok(true)
    } else if value == "no"@ {
        Ok(false)
    } else {
        Err(Doubt::InvalidBoolean { property, value })
    }
}

/// The session runs on the virtual terminal that its number names.
pub open spec fn terminal_doubt(properties: Map<Seq<char>, Seq<char>>) -> Option<
    Doubt<Seq<char>>,
> {
    if !properties.contains_key(Property::VtNumber.name_spec()) {
        Some(Doubt::MissingProperty(Property::VtNumber))
    } else {
        match number_in(properties[Property::VtNumber.name_spec()], 10, u32::MAX as int) {
            None => Some(Doubt::InvalidTerminalNumber),
            Some(number) => if number == 0 {
                Some(Doubt::NoTerminal)
            } else {
                exact_value(properties, Property::Tty, "tty"@ + decimal_text(number as nat))
            },
        }
    }
}

/// Classification of an active session of class `user`.
pub open spec fn user_session(
    properties: Map<Seq<char>, Seq<char>>,
    id: Seq<char>,
) -> SeatModel {
    let user = properties[Property::User.name_spec()];
    let kind = properties[Property::Type.name_spec()];
    if !properties.contains_key(Property::User.name_spec()) {
        SeatModel::Unknown(Doubt::MissingProperty(Property::User))
    } else {
        match (
            number_in(user, 10, u32::MAX as int),
            boolean_value(properties, Property::LockedHint),
        ) {
            (None, _) => SeatModel::Unknown(Doubt::InvalidUser),
            (_, Err(doubt)) => SeatModel::Unknown(doubt),
            (Some(uid), Ok(locked)) => if !properties.contains_key(Property::Type.name_spec()) {
                SeatModel::Unknown(Doubt::MissingProperty(Property::Type))
            } else if kind == "tty"@ {
                match terminal_doubt(properties) {
                    Some(doubt) => SeatModel::Unknown(doubt),
                    None => authenticated(
                        id,
                        uid as u32,
                        AuthenticatedSessionKind::VirtualTerminal,
                        locked,
                    ),
                }
            } else if kind == "wayland"@ {
                match (
                    exact_value(properties, Property::CanLock, "yes"@),
                    terminal_doubt(properties),
                ) {
                    (Some(doubt), _) => SeatModel::Unknown(doubt),
                    (None, Some(doubt)) => SeatModel::Unknown(doubt),
                    (None, None) => authenticated(
                        id,
                        uid as u32,
                        AuthenticatedSessionKind::Wayland,
                        locked,
                    ),
                }
            } else {
                SeatModel::Unknown(Doubt::UnsupportedType(kind))
            },
        }
    }
}

pub open spec fn authenticated(
    id: Seq<char>,
    uid: u32,
    kind: AuthenticatedSessionKind,
    locked: bool,
) -> SeatModel {
    if locked {
        SeatModel::LockedUser { id, uid, kind }
    } else {
        SeatModel::Unlocked { id, uid, kind }
    }
}

/// Classification of the session that owns the seat.
pub open spec fn session_state(
    properties: Map<Seq<char>, Seq<char>>,
    seat: Seq<char>,
    id: Seq<char>,
) -> SeatModel {
    let class = properties[Property::Class.name_spec()];
    if let Some(doubt) = exact_value(properties, Property::Id, id) {
        SeatModel::Unknown(doubt)
    } else if let Some(doubt) = exact_value(properties, Property::Seat, seat) {
        SeatModel::Unknown(doubt)
    } else if let Some(doubt) = exact_value(properties, Property::Active, "yes"@) {
        SeatModel::Unknown(doubt)
    } else if let Some(doubt) = exact_value(properties, Property::State, "active"@) {
        SeatModel::Unknown(doubt)
    } else if let Some(doubt) = exact_value(properties, Property::Remote, "no"@) {
        SeatModel::Unknown(doubt)
    } else if !properties.contains_key(Property::Class.name_spec()) {
        SeatModel::Unknown(Doubt::MissingProperty(Property::Class))
    } else if class == "greeter"@ {
        SeatModel::Greeter { id }
    } else if class == "lock-screen"@ {
        SeatModel::LockScreen { id }
    } else if class == "user"@ {
        user_session(properties, id)
    } else {
        SeatModel::Unknown(Doubt::UnsupportedClass(class))
    }
}

fn parse_bool(properties: &Properties, property: Property) -> (result: Result<
    bool,
    Doubt<String>,
>)
    ensures
        match result {
            Ok(value) => boolean_value(properties@, property) == Ok::<bool, Doubt<Seq<char>>>(
                value,
            ),
            Err(doubt) => boolean_value(properties@, property) == Err::<bool, Doubt<Seq<char>>>(
                doubt_of(doubt),
            ),
        },
{
    let value = match require(properties, property) {
        Ok(value) => value,
        Err(doubt) => return Err(doubt),
    };
    if same_text(value, "yes") {
        Ok(true)
    } else if same_text(value, "no") {
        Ok(false)
    } else {
        Err(Doubt::InvalidBoolean { property, value: value.to_owned() })
    }
}

fn validate_vt(properties: &Properties) -> (result: Result<(), Doubt<String>>)
    ensures
        match result {
            Ok(_) => terminal_doubt(properties@) is None,
            Err(doubt) => terminal_doubt(properties@) == Some(doubt_of(doubt)),
        },
{
    let text = match require(properties, Property::VtNumber) {
        Ok(text) => text,
        Err(doubt) => return Err(doubt),
    };
    let number: u64 = match parse_number(text, 10, u32::MAX as u64) {
        Some(number) => number,
        None => return Err(Doubt::InvalidTerminalNumber),
    };
    if number == 0 {
        return Err(Doubt::NoTerminal);
    }
    let expected = joined("tty", decimal(number).as_str());
    require_exact(properties, Property::Tty, expected.as_str())
}

fn classify_user_session(properties: &Properties, id: &str) -> (result: SeatState)
    ensures
        result@ == user_session(properties@, id@),
{
    let user = match require(properties, Property::User) {
        Ok(user) => user,
        Err(reason) => return SeatState::Unknown { reason },
    };
    let uid: u64 = match parse_number(user, 10, u32::MAX as u64) {
        Some(uid) => uid,
        None => return SeatState::Unknown { reason: Doubt::InvalidUser },
    };
    let locked = match parse_bool(properties, Property::LockedHint) {
        Ok(locked) => locked,
        Err(reason) => return SeatState::Unknown { reason },
    };
    let session_type = match require(properties, Property::Type) {
        Ok(session_type) => session_type,
        Err(reason) => return SeatState::Unknown { reason },
    };
    let kind = if same_text(session_type, "tty") {
        AuthenticatedSessionKind::VirtualTerminal
    } else if same_text(session_type, "wayland") {
        if let Err(reason) = require_exact(properties, Property::CanLock, "yes") {
            return SeatState::Unknown { reason };
        }
        AuthenticatedSessionKind::Wayland
    } else {
        return SeatState::Unknown { reason: Doubt::UnsupportedType(session_type.to_owned()) };
    };
    if let Err(reason) = validate_vt(properties) {
        return SeatState::Unknown { reason };
    }
    proof {
        reveal_strlit("tty");
        reveal_strlit("wayland");
        assert("tty"@.len() != "wayland"@.len());
    }
    let session = AuthenticatedSession { id: id.to_owned(), uid: uid as u32, kind };
    if locked {
        SeatState::Restricted(RestrictedSeatState::LockedUser(session))
    } else {
        SeatState::Unlocked(session)
    }
}

pub fn classify_session(properties: &Properties, seat: &str, id: &str) -> (result: SeatState)
    ensures
        result@ == session_state(properties@, seat@, id@),
{
    if let Err(reason) = require_exact(properties, Property::Id, id) {
        return SeatState::Unknown { reason };
    }
    if let Err(reason) = require_exact(properties, Property::Seat, seat) {
        return SeatState::Unknown { reason };
    }
    if let Err(reason) = require_exact(properties, Property::Active, "yes") {
        return SeatState::Unknown { reason };
    }
    if let Err(reason) = require_exact(properties, Property::State, "active") {
        return SeatState::Unknown { reason };
    }
    if let Err(reason) = require_exact(properties, Property::Remote, "no") {
        return SeatState::Unknown { reason };
    }
    let class = match require(properties, Property::Class) {
        Ok(class) => class,
        Err(reason) => return SeatState::Unknown { reason },
    };
    if same_text(class, "greeter") {
        SeatState::Restricted(RestrictedSeatState::Greeter { session_id: id.to_owned() })
    } else if same_text(class, "lock-screen") {
        SeatState::Restricted(RestrictedSeatState::LockScreen { session_id: id.to_owned() })
    } else if same_text(class, "user") {
        classify_user_session(properties, id)
    } else {
        SeatState::Unknown { reason: Doubt::UnsupportedClass(class.to_owned()) }
    }
}

// ---------------------------------------------------------------------------
// Asking twice
// ---------------------------------------------------------------------------

/// One answer as mathematical values.
pub open spec fn answer_of(answer: Result<Properties, String>) -> Result<
    Map<Seq<char>, Seq<char>>,
    Seq<char>,
> {
    match answer {
        Ok(properties) => Ok(properties@),
        Err(error) => Err(error@),
    }
}

/// All answers that an inspection can use.
pub struct SeatAnswers {
    pub first_seat: Result<Map<Seq<char>, Seq<char>>, Seq<char>>,
    pub first_session: Result<Map<Seq<char>, Seq<char>>, Seq<char>>,
    pub second_seat: Result<Map<Seq<char>, Seq<char>>, Seq<char>>,
    pub second_session: Result<Map<Seq<char>, Seq<char>>, Seq<char>>,
}

pub open spec fn seat_answer(
    answer: Result<Map<Seq<char>, Seq<char>>, Seq<char>>,
    seat: Seq<char>,
    context: QueryContext,
) -> Result<SnapshotModel, Doubt<Seq<char>>> {
    match answer {
        Ok(properties) => snapshot_of(properties, seat),
        Err(error) => Err(Doubt::QueryFailed { context, error }),
    }
}

/// The seat state that a set of answers amounts to.
pub open spec fn decide(answers: SeatAnswers, seat: Seq<char>) -> SeatModel {
    match seat_answer(answers.first_seat, seat, QueryContext::Seat) {
        Err(doubt) => SeatModel::Unknown(doubt),
        Ok(first) => match first.active_session {
            None => match seat_answer(answers.second_seat, seat, QueryContext::SeatConfirmation) {
                Err(doubt) => SeatModel::Unknown(doubt),
                Ok(second) => if second.active_session is None {
                    SeatModel::NoActiveSession
                } else {
                    SeatModel::Unknown(Doubt::SessionChanged)
                },
            },
            Some(active) => if !first.sessions.contains(active) {
                SeatModel::Unknown(Doubt::UnlistedSession(active))
            } else {
                decide_active(answers, seat, active)
            },
        },
    }
}

pub open spec fn decide_active(
    answers: SeatAnswers,
    seat: Seq<char>,
    active: Seq<char>,
) -> SeatModel {
    match answers.first_session {
        Err(error) => SeatModel::Unknown(
            Doubt::QueryFailed { context: QueryContext::Session, error },
        ),
        Ok(session) => match seat_answer(
            answers.second_seat,
            seat,
            QueryContext::SeatConfirmation,
        ) {
            Err(doubt) => SeatModel::Unknown(doubt),
            Ok(second) => if second.active_session != Some(active) || !second.sessions.contains(
                active,
            ) {
                SeatModel::Unknown(Doubt::SessionChanged)
            } else {
                match answers.second_session {
                    Err(error) => SeatModel::Unknown(
                        Doubt::QueryFailed { context: QueryContext::SessionConfirmation, error },
                    ),
                    Ok(confirmed) => if session != confirmed {
                        SeatModel::Unknown(Doubt::PropertiesChanged)
                    } else {
                        session_state(session, seat, active)
                    },
                }
            },
        },
    }
}

fn read_seat(answer: &Result<Properties, String>, seat: &str, context: QueryContext) -> (result:
    Result<SeatSnapshot, Doubt<String>>)
    ensures
        match result {
            Ok(snapshot) => seat_answer(answer_of(*answer), seat@, context) == Ok::<
                SnapshotModel,
                Doubt<Seq<char>>,
            >(snapshot@),
            Err(doubt) => seat_answer(answer_of(*answer), seat@, context) == Err::<
                SnapshotModel,
                Doubt<Seq<char>>,
            >(doubt_of(doubt)),
        },
{
    match answer {
        Ok(properties) => parse_seat(properties, seat),
        Err(error) => Err(Doubt::QueryFailed { context, error: error.clone() }),
    }
}

fn lists(snapshot: &SeatSnapshot, session: &str) -> (result: bool)
    ensures
        result == snapshot@.sessions.contains(session@),
{
    match position_of_text(&snapshot.sessions, session) {
        Some(at) => {
            assert(snapshot@.sessions[at as int] == session@);
            true
        },
        None => {
            assert(forall|i: int|
                0 <= i < snapshot@.sessions.len() ==> #[trigger] snapshot@.sessions[i]
                    == snapshot.sessions@[i]@);
            false
        },
    }
}

/// The seat state for given answers; answers that are not needed are ignored.
pub fn decide_seat(
    first_seat: &Result<Properties, String>,
    first_session: &Result<Properties, String>,
    second_seat: &Result<Properties, String>,
    second_session: &Result<Properties, String>,
    seat: &str,
) -> (result: SeatState)
    ensures
        result@ == decide(
            SeatAnswers {
                first_seat: answer_of(*first_seat),
                first_session: answer_of(*first_session),
                second_seat: answer_of(*second_seat),
                second_session: answer_of(*second_session),
            },
            seat@,
        ),
{
    let first = match read_seat(first_seat, seat, QueryContext::Seat) {
        Ok(first) => first,
        Err(reason) => return SeatState::Unknown { reason },
    };
    let active = match &first.active_session {
        Some(active) => active,
        None => {
            return match read_seat(second_seat, seat, QueryContext::SeatConfirmation) {
                Ok(second) => if second.active_session.is_none() {
                    SeatState::Restricted(RestrictedSeatState::NoActiveSession)
                } else {
                    SeatState::Unknown { reason: Doubt::SessionChanged }
                },
                Err(reason) => SeatState::Unknown { reason },
            };
        },
    };
    if !lists(&first, active.as_str()) {
        return SeatState::Unknown { reason: Doubt::UnlistedSession(active.clone()) };
    }
    let session = match first_session {
        Ok(session) => session,
        Err(error) => return SeatState::Unknown {
            reason: Doubt::QueryFailed { context: QueryContext::Session, error: error.clone() },
        },
    };
    let second = match read_seat(second_seat, seat, QueryContext::SeatConfirmation) {
        Ok(second) => second,
        Err(reason) => return SeatState::Unknown { reason },
    };
    let unchanged = match &second.active_session {
        Some(confirmed) => *confirmed == *active,
        None => false,
    };
    if !unchanged || !lists(&second, active.as_str()) {
        return SeatState::Unknown { reason: Doubt::SessionChanged };
    }
    let confirmed = match second_session {
        Ok(confirmed) => confirmed,
        Err(error) => return SeatState::Unknown {
            reason: Doubt::QueryFailed {
                context: QueryContext::SessionConfirmation,
                error: error.clone(),
            },
        },
    };
    if !session.same_as(confirmed) {
        return SeatState::Unknown { reason: Doubt::PropertiesChanged };
    }
    classify_session(session, seat, active.as_str())
}

/// The listed active session that a seat answer asks about.
pub open spec fn session_of_interest(
    answer: Result<Map<Seq<char>, Seq<char>>, Seq<char>>,
    seat: Seq<char>,
) -> Option<Seq<char>> {
    match seat_answer(answer, seat, QueryContext::Seat) {
        Ok(first) => match first.active_session {
            Some(active) => if first.sessions.contains(active) {
                Some(active)
            } else {
                None
            },
            None => None,
        },
        Err(_) => None,
    }
}

fn session_to_ask(answer: &Result<Properties, String>, seat: &str) -> (result: Option<String>)
    ensures
        match session_of_interest(answer_of(*answer), seat@) {
            Some(active) => result matches Some(asked) && asked@ == active,
            None => result is None,
        },
{
    match read_seat(answer, seat, QueryContext::Seat) {
        Ok(first) => match &first.active_session {
            Some(active) => if lists(&first, active.as_str()) {
                Some(active.clone())
            } else {
                None
            },
            None => None,
        },
        Err(_) => None,
    }
}

/// `answer` is what the query said of a seat when asked about it.
pub open spec fn seat_asked<Q: LogindQuery>(
    query: &Q,
    seat: &str,
    answer: Result<Map<Seq<char>, Seq<char>>, Seq<char>>,
) -> bool {
    exists|reply: Result<Properties, String>|
        {
            &&& #[trigger] call_ensures(Q::show_seat, (query, seat), reply)
            &&& answer_of(reply) == answer
        }
}

/// `answer` is what the query said of a session when asked about it.
pub open spec fn session_asked<Q: LogindQuery>(
    query: &Q,
    session: Seq<char>,
    answer: Result<Map<Seq<char>, Seq<char>>, Seq<char>>,
) -> bool {
    exists|name: &str, reply: Result<Properties, String>|
        {
            &&& #[trigger] call_ensures(Q::show_session, (query, name), reply)
            &&& name@ == session
            &&& answer_of(reply) == answer
        }
}

impl SeatAnswers {
    /// The first answers are worth a second look at the seat: it has no active
    /// session, or one whose properties are known.
    pub open spec fn seat_is_confirmed(self, seat: Seq<char>) -> bool {
        match session_of_interest(self.first_seat, seat) {
            Some(_) => self.first_session is Ok,
            None => seat_answer(self.first_seat, seat, QueryContext::Seat) matches Ok(first)
                && first.active_session is None,
        }
    }

    /// The second look at the seat found the same active session.
    pub open spec fn session_is_confirmed(self, seat: Seq<char>) -> bool {
        &&& self.seat_is_confirmed(seat)
        &&& session_of_interest(self.first_seat, seat) matches Some(active) && seat_answer(
            self.second_seat,
            seat,
            QueryContext::SeatConfirmation,
        ) matches Ok(second) && second.active_session == Some(active) && second.sessions.contains(
            active,
        )
    }

    /// Each answer is what the query said of the seat, or of the session that
    /// the first answer names; questions that were not put have no answer.
    pub open spec fn come_from<Q: LogindQuery>(self, query: &Q, seat: &str) -> bool {
        &&& seat_asked(query, seat, self.first_seat)
        &&& match session_of_interest(self.first_seat, seat@) {
            Some(active) => session_asked(query, active, self.first_session),
            None => self.first_session is Err,
        }
        &&& if self.seat_is_confirmed(seat@) {
            seat_asked(query, seat, self.second_seat)
        } else {
            self.second_seat is Err
        }
        &&& if self.session_is_confirmed(seat@) {
            session_asked(
                query,
                session_of_interest(self.first_seat, seat@)->Some_0,
                self.second_session,
            )
        } else {
            self.second_session is Err
        }
    }
}

/// Asks logind about a seat and its active session, twice each. The state is
/// decided by what the query said of this seat, and of the session that it named.
pub fn inspect_seat<Q: LogindQuery>(query: &Q, seat: &str) -> (result: SeatState)
    ensures
        exists|answers: SeatAnswers|
            {
                &&& result@ == #[trigger] decide(answers, seat@)
                &&& answers.come_from(query, seat)
            },
{
    let first_seat = query.show_seat(seat);
    let asked = session_to_ask(&first_seat, seat);
    let first_session = match &asked {
        Some(active) => query.show_session(active.as_str()),
        None => Err(String::new()),
    };
    let known = match &asked {
        Some(_) => first_session.is_ok(),
        None => match read_seat(&first_seat, seat, QueryContext::Seat) {
            Ok(first) => first.active_session.is_none(),
            Err(_) => false,
        },
    };
    let second_seat = if known {
        query.show_seat(seat)
    } else {
        Err(String::new())
    };
    let still_asked = match &asked {
        Some(active) => match read_seat(&second_seat, seat, QueryContext::SeatConfirmation) {
            Ok(second) => match &second.active_session {
                Some(confirmed) => *confirmed == *active && lists(&second, active.as_str()),
                None => false,
            },
            Err(_) => false,
        },
        None => false,
    };
    let second_session = match &asked {
        Some(active) => if known && still_asked {
            query.show_session(active.as_str())
        } else {
            Err(String::new())
        },
        None => Err(String::new()),
    };
    let ghost answers = SeatAnswers {
        first_seat: answer_of(first_seat),
        first_session: answer_of(first_session),
        second_seat: answer_of(second_seat),
        second_session: answer_of(second_session),
    };
    assert(answers.come_from(query, seat));
    decide_seat(&first_seat, &first_session, &second_seat, &second_session, seat)
}

/// Input is granted only for answers that agree with each other: the same
/// listed session was active both times with the same properties, and it is an
/// unlocked local session of an authenticated user.
pub proof fn normal_input_needs_agreeing_answers(answers: SeatAnswers, seat: Seq<char>)
    requires
        decide(answers, seat).gate() is Normal,
    ensures
        answers.first_session is Ok,
        answers.first_session == answers.second_session,
        answers.first_seat is Ok && answers.second_seat is Ok,
        ({
            let first = snapshot_of(answers.first_seat->Ok_0, seat);
            let second = snapshot_of(answers.second_seat->Ok_0, seat);
            &&& first is Ok && second is Ok
            &&& first->Ok_0.active_session is Some
            &&& first->Ok_0.active_session == second->Ok_0.active_session
        }),
        boolean_value(answers.first_session->Ok_0, Property::LockedHint) == Ok::<
            bool,
            Doubt<Seq<char>>,
        >(false),
        exact_value(answers.first_session->Ok_0, Property::Remote, "no"@) is None,
        answers.first_session->Ok_0[Property::Class.name_spec()] == "user"@,
{
}

/// Any failed question denies input.
pub proof fn failed_queries_deny_input(answers: SeatAnswers, seat: Seq<char>)
    requires
        answers.first_seat is Err || answers.second_seat is Err,
    ensures
        decide(answers, seat).gate() == InjectionGate::Denied,
        decide(answers, seat).authenticated_uid() is None,
{
}

/// A property has a value, by its name.
pub open spec fn says(
    properties: Map<Seq<char>, Seq<char>>,
    name: Seq<char>,
    value: Seq<char>,
) -> bool {
    properties.contains_key(name) && properties[name] == value
}

/// The answers about a seat name `active` as the session in front, and list it among
/// sessions with proper names, each once.
pub open spec fn seat_shows(
    properties: Map<Seq<char>, Seq<char>>,
    seat: Seq<char>,
    active: Seq<char>,
) -> bool {
    &&& says(properties, "Id"@, seat)
    &&& says(properties, "ActiveSession"@, active)
    &&& valid_identifier(active)
    &&& properties.contains_key("Sessions"@)
    &&& words(properties["Sessions"@]).contains(active)
    &&& proper_list(words(properties["Sessions"@]))
}

pub open spec fn proper_list(sessions: Seq<Seq<char>>) -> bool {
    &&& sessions.no_duplicates()
    &&& forall|i: int| 0 <= i < sessions.len() ==> valid_identifier(#[trigger] sessions[i])
}

/// A session in front of a seat, at the machine itself.
pub open spec fn is_in_front(
    properties: Map<Seq<char>, Seq<char>>,
    seat: Seq<char>,
    id: Seq<char>,
) -> bool {
    &&& says(properties, "Id"@, id)
    &&& says(properties, "Seat"@, seat)
    &&& says(properties, "Active"@, "yes"@)
    &&& says(properties, "State"@, "active"@)
    &&& says(properties, "Remote"@, "no"@)
}

/// A session of a known user on a terminal of its own, of a kind that can be locked
/// or that is a plain terminal.
pub open spec fn is_user_session(properties: Map<Seq<char>, Seq<char>>, uid: u32) -> bool {
    &&& says(properties, "Class"@, "user"@)
    &&& properties.contains_key("User"@)
    &&& number_in(properties["User"@], 10, u32::MAX as int) == Some(uid as int)
    &&& says(properties, "Type"@, "tty"@) || (says(properties, "Type"@, "wayland"@) && says(
        properties,
        "CanLock"@,
        "yes"@,
    ))
    &&& properties.contains_key("VTNr"@)
    &&& number_in(properties["VTNr"@], 10, u32::MAX as int) matches Some(terminal) && terminal > 0
        && says(properties, "TTY"@, "tty"@ + decimal_text(terminal as nat))
}

proof fn lists_without_doubt_are_proper(sessions: Seq<Seq<char>>)
    ensures
        list_doubt(sessions) is None <==> proper_list(sessions),
    decreases sessions.len(),
{
    if sessions.len() > 0 {
        let before = sessions.drop_last();
        let last = sessions.last();
        lists_without_doubt_are_proper(before);
        if proper_list(sessions) {
            assert forall|i: int| 0 <= i < before.len() implies valid_identifier(
                #[trigger] before[i],
            ) by {
                assert(before[i] == sessions[i]);
            }
            assert(valid_identifier(sessions[sessions.len() - 1]));
            if before.contains(last) {
                let i = choose|i: int| 0 <= i < before.len() && before[i] == last;
                assert(sessions[i] == sessions[sessions.len() - 1]);
            }
        }
        if list_doubt(sessions) is None {
            assert forall|i: int, j: int|
                0 <= i < sessions.len() && 0 <= j < sessions.len() && i
                    != j implies sessions[i] != sessions[j] by {
                if i < before.len() && j < before.len() {
                    assert(before[i] != before[j]);
                } else if i < before.len() {
                    assert(before.contains(before[i]));
                } else {
                    assert(before.contains(before[j]));
                }
            }
            assert forall|i: int| 0 <= i < sessions.len() implies valid_identifier(
                #[trigger] sessions[i],
            ) by {
                if i < before.len() {
                    assert(valid_identifier(before[i]));
                }
            }
        }
    }
}

proof fn literals_differ()
    ensures
        "yes"@ != "no"@,
        "user"@ != "greeter"@,
        "user"@ != "lock-screen"@,
        "greeter"@ != "lock-screen"@,
        "tty"@ != "wayland"@,
{
    reveal_strlit("yes");
    reveal_strlit("no");
    reveal_strlit("user");
    reveal_strlit("greeter");
    reveal_strlit("lock-screen");
    reveal_strlit("tty");
    reveal_strlit("wayland");
    assert("yes"@.len() != "no"@.len());
    assert("user"@.len() != "greeter"@.len());
    assert("user"@.len() != "lock-screen"@.len());
    assert("greeter"@.len() != "lock-screen"@.len());
    assert("tty"@.len() != "wayland"@.len());
}

proof fn snapshots_show_the_active_session(
    properties: Map<Seq<char>, Seq<char>>,
    seat: Seq<char>,
    active: Seq<char>,
)
    requires
        active.len() > 0,
    ensures
        (snapshot_of(properties, seat) matches Ok(snapshot) && snapshot.active_session == Some(
            active,
        ) && snapshot.sessions.contains(active)) <==> seat_shows(properties, seat, active),
{
    lists_without_doubt_are_proper(words(properties["Sessions"@]));
}

proof fn session_states_by_their_properties(
    properties: Map<Seq<char>, Seq<char>>,
    seat: Seq<char>,
    id: Seq<char>,
    uid: u32,
)
    ensures
        session_state(properties, seat, id).gate() == (InjectionGate::Normal { uid }) <==> (
        is_in_front(properties, seat, id) && is_user_session(properties, uid) && says(
            properties,
            "LockedHint"@,
            "no"@,
        )),
        session_state(properties, seat, id) is LockedUser && session_state(
            properties,
            seat,
            id,
        )->LockedUser_uid == uid <==> (is_in_front(properties, seat, id) && is_user_session(
            properties,
            uid,
        ) && says(properties, "LockedHint"@, "yes"@)),
{
    literals_differ();
    numbers_stay_in_range(properties["User"@], 10, u32::MAX as int);
    numbers_stay_in_range(properties["VTNr"@], 10, u32::MAX as int);
}

/// A user's input is taken exactly if logind says twice that the same session of
/// that user is in front of the seat, local, active and not locked.
pub proof fn normal_input_is_granted_exactly_in_front(
    answers: SeatAnswers,
    seat: Seq<char>,
    uid: u32,
)
    ensures
        decide(answers, seat).gate() == (InjectionGate::Normal { uid }) <==> (
        answers.first_seat is Ok && answers.second_seat is Ok && answers.first_session is Ok
            && answers.second_session == answers.first_session && exists|active: Seq<char>|
            #[trigger] seat_shows(answers.first_seat->Ok_0, seat, active) && seat_shows(
                answers.second_seat->Ok_0,
                seat,
                active,
            ) && is_in_front(answers.first_session->Ok_0, seat, active) && is_user_session(
                answers.first_session->Ok_0,
                uid,
            ) && says(answers.first_session->Ok_0, "LockedHint"@, "no"@)),
{
    front_session_decides(answers, seat);
    if answers.first_session is Ok {
        assert forall|active: Seq<char>| #[trigger]
            session_state(answers.first_session->Ok_0, seat, active).gate() == (
            InjectionGate::Normal { uid }) <==> (is_in_front(
                answers.first_session->Ok_0,
                seat,
                active,
            ) && is_user_session(answers.first_session->Ok_0, uid) && says(
                answers.first_session->Ok_0,
                "LockedHint"@,
                "no"@,
            )) by {
            session_states_by_their_properties(answers.first_session->Ok_0, seat, active, uid);
        }
    }
    if answers.first_seat is Ok && answers.second_seat is Ok {
        let first = answers.first_seat->Ok_0;
        let second = answers.second_seat->Ok_0;
        assert forall|active: Seq<char>| #[trigger]
            seat_shows(first, seat, active) implies snapshot_of(first, seat) is Ok && snapshot_of(
            first,
            seat,
        )->Ok_0.active_session == Some(active) && snapshot_of(first, seat)->Ok_0.sessions.contains(
            active,
        ) && (seat_shows(second, seat, active) ==> snapshot_of(second, seat) is Ok && snapshot_of(
            second,
            seat,
        )->Ok_0.active_session == Some(active) && snapshot_of(
            second,
            seat,
        )->Ok_0.sessions.contains(active)) by {
            snapshots_show_the_active_session(first, seat, active);
            snapshots_show_the_active_session(second, seat, active);
        }
    }
}

proof fn front_session_decides(answers: SeatAnswers, seat: Seq<char>)
    ensures
        decide(answers, seat).gate() is Normal ==> answers.first_seat is Ok
            && answers.second_seat is Ok && snapshot_of(answers.first_seat->Ok_0, seat) is Ok && ({
            let active = snapshot_of(answers.first_seat->Ok_0, seat)->Ok_0.active_session;
            &&& active is Some
            &&& seat_shows(answers.first_seat->Ok_0, seat, active->0)
            &&& seat_shows(answers.second_seat->Ok_0, seat, active->0)
        }),
{
    if decide(answers, seat).gate() is Normal {
        let first = answers.first_seat->Ok_0;
        let active = snapshot_of(first, seat)->Ok_0.active_session->0;
        snapshots_show_the_active_session(first, seat, active);
        snapshots_show_the_active_session(answers.second_seat->Ok_0, seat, active);
    }
}

/// Input before login is considered only for a seat without a session, a login or
/// lock screen, or a locked session of a known user; nothing else lets input in.
pub proof fn prelogin_input_needs_a_known_screen(answers: SeatAnswers, seat: Seq<char>)
    requires
        decide(answers, seat).gate() is PreLogin,
    ensures
        answers.first_seat is Ok,
        answers.second_seat is Ok,
        ({
            let nobody = says(answers.first_seat->Ok_0, "ActiveSession"@, Seq::empty()) && says(
                answers.second_seat->Ok_0,
                "ActiveSession"@,
                Seq::empty(),
            );
            let session = answers.first_session->Ok_0;
            let same = answers.first_session is Ok && answers.second_session
                == answers.first_session && says(session, "Active"@, "yes"@) && says(
                session,
                "Remote"@,
                "no"@,
            ) && says(session, "Seat"@, seat);
            let screen = says(session, "Class"@, "greeter"@) || says(
                session,
                "Class"@,
                "lock-screen"@,
            );
            let locked = exists|uid: u32| #[trigger]
                is_user_session(session, uid) && says(session, "LockedHint"@, "yes"@);
            nobody || (same && (screen || locked))
        }),
{
    literals_differ();
    let session = answers.first_session->Ok_0;
    let none = answers.first_seat->Ok_0["ActiveSession"@];
    assert(none.len() == 0 ==> none =~= Seq::empty());
    let none = answers.second_seat->Ok_0["ActiveSession"@];
    assert(none.len() == 0 ==> none =~= Seq::empty());
    if decide(answers, seat) is LockedUser {
        let active = snapshot_of(answers.first_seat->Ok_0, seat)->Ok_0.active_session->0;
        let uid = decide(answers, seat)->LockedUser_uid;
        session_states_by_their_properties(session, seat, active, uid);
        assert(is_user_session(session, uid));
    }
}

/// A seat without a session in front, a login or lock screen in front, or a locked
/// session in front is known as what it is, and counts as before login.
pub proof fn known_screens_are_before_login(
    answers: SeatAnswers,
    seat: Seq<char>,
    active: Seq<char>,
    uid: u32,
)
    requires
        answers.first_seat is Ok,
        answers.second_seat is Ok,
    ensures
        ({
            let first = answers.first_seat->Ok_0;
            let second = answers.second_seat->Ok_0;
            let session = answers.first_session->Ok_0;
            let shown = answers.first_session is Ok && answers.second_session
                == answers.first_session && seat_shows(first, seat, active) && seat_shows(
                second,
                seat,
                active,
            ) && is_in_front(session, seat, active);
            let found = decide(answers, seat);
            &&& seat_is_empty(first, seat) && seat_is_empty(second, seat) ==> found
                == SeatModel::NoActiveSession
            &&& shown && says(session, "Class"@, "greeter"@) ==> found == (SeatModel::Greeter {
                id: active,
            })
            &&& shown && says(session, "Class"@, "lock-screen"@) ==> found
                == (SeatModel::LockScreen { id: active })
            &&& shown && is_user_session(session, uid) && says(session, "LockedHint"@, "yes"@)
                ==> (found matches SeatModel::LockedUser { id, uid: user, kind } && id == active
                && user == uid && (kind is VirtualTerminal <==> says(session, "Type"@, "tty"@)))
            &&& shown && is_user_session(session, uid) && says(session, "LockedHint"@, "no"@)
                ==> (found matches SeatModel::Unlocked { id, uid: user, kind } && id == active
                && user == uid && (kind is VirtualTerminal <==> says(session, "Type"@, "tty"@)))
            &&& found is NoActiveSession || found is Greeter || found is LockScreen || found
                is LockedUser <==> found.gate() is PreLogin
        }),
{
    literals_differ();
    let first = answers.first_seat->Ok_0;
    let second = answers.second_seat->Ok_0;
    if active.len() > 0 {
        snapshots_show_the_active_session(first, seat, active);
        snapshots_show_the_active_session(second, seat, active);
    }
    lists_without_doubt_are_proper(words(first["Sessions"@]));
    lists_without_doubt_are_proper(words(second["Sessions"@]));
    if answers.first_session is Ok {
        session_states_by_their_properties(answers.first_session->Ok_0, seat, active, uid);
    }
}

/// The answers about a seat name no session in front.
pub open spec fn seat_is_empty(properties: Map<Seq<char>, Seq<char>>, seat: Seq<char>) -> bool {
    &&& says(properties, "Id"@, seat)
    &&& says(properties, "ActiveSession"@, Seq::empty())
    &&& properties.contains_key("Sessions"@)
    &&& proper_list(words(properties["Sessions"@]))
}

/// The session that is asked about is the one in front.
pub proof fn the_session_in_front_is_asked_about(
    properties: Map<Seq<char>, Seq<char>>,
    seat: Seq<char>,
    active: Seq<char>,
)
    requires
        active.len() > 0,
    ensures
        session_of_interest(Ok(properties), seat) == Some(active) <==> seat_shows(
            properties,
            seat,
            active,
        ),
{
    snapshots_show_the_active_session(properties, seat, active);
}

} // verus!
