//! Typed logind bus properties turned into the text that seat rules read.
use vstd::prelude::*;

use super::seat::{identifier_char, is_valid_identifier, valid_identifier, Properties, Property};
use crate::ordered::OrderedMap;
use crate::scan::{
    decimal, decimal_round_trips, decimal_text, digits_value, is_space, views, words,
};

verus! {

/// A bus value, as far as logind properties use its type.
#[derive(Debug, PartialEq, Eq)]
pub enum BusValue {
    Text(String),
    Flag(bool),
    Number(u32),
    /// A name together with an object path.
    Named(String),
    /// A user id together with an object path.
    User(u32),
    /// Names, each with an object path.
    NameList(Vec<String>),
    /// A value of any other type.
    Other,
}

/// What is wrong with a property.
#[derive(Clone, Copy, Debug, PartialEq, Eq, Structural)]
pub enum PropertyFault {
    Missing,
    WrongType,
}

#[derive(Debug, PartialEq, Eq)]
pub enum LogindError {
    InvalidIdentifier { kind: IdentifierKind, value: String },
    /// The query took longer than its time limit, in milliseconds.
    Timeout(u64),
    Bus(String),
    Property { property: Property, fault: PropertyFault },
}

#[derive(Clone, Copy, Debug, PartialEq, Eq, Structural)]
pub enum IdentifierKind {
    Seat,
    Session,
}

/// Refuses identifiers that are not safe to put into a query.
pub fn validate_identifier(kind: IdentifierKind, value: &str) -> (result: Result<(), LogindError>)
    ensures
        match result {
            Ok(_) => valid_identifier(value@),
            Err(error) => !valid_identifier(value@) && (
            error matches LogindError::InvalidIdentifier { kind: named, value: text } && named
                == kind && text@ == value@),
        },
{
    if is_valid_identifier(value) {
        Ok(())
    } else {
        Err(LogindError::InvalidIdentifier { kind, value: value.to_owned() })
    }
}

pub open spec fn lookup(
    values: Map<Seq<char>, BusValue>,
    property: Property,
) -> Option<BusValue> {
    if values.contains_key(property.name_spec()) {
        Some(values[property.name_spec()])
    } else {
        None
    }
}

/// Fault of a property, given whether its value has the right type.
pub open spec fn fault_of(value: Option<BusValue>, right_type: bool) -> Option<PropertyFault> {
    if value is None {
        Some(PropertyFault::Missing)
    } else if !right_type {
        Some(PropertyFault::WrongType)
    } else {
        None
    }
}

/// The type that logind gives a property.
pub open spec fn has_type(property: Property, value: BusValue) -> bool {
    match property {
        Property::Remote | Property::Active | Property::CanLock | Property::LockedHint =>
            value is Flag,
        Property::User => value is User,
        Property::Seat | Property::ActiveSession => value is Named,
        Property::Sessions => value is NameList,
        Property::VtNumber => value is Number,
        _ => value is Text,
    }
}

pub open spec fn property_fault(
    values: Map<Seq<char>, BusValue>,
    property: Property,
) -> Option<PropertyFault> {
    let value = lookup(values, property);
    fault_of(value, value is Some && has_type(property, value->0))
}

pub open spec fn flag_text(flag: bool) -> Seq<char> {
    if flag {
        "yes"@
    } else {
        "no"@
    }
}

/// Names separated by single spaces.
pub open spec fn spaced(names: Seq<Seq<char>>) -> Seq<char>
    decreases names.len(),
{
    if names.len() == 0 {
        Seq::empty()
    } else if names.len() == 1 {
        names[0]
    } else {
        spaced(names.drop_last()) + seq![' '] + names.last()
    }
}

/// The text that stands for a property's value.
pub open spec fn text_for(value: BusValue) -> Seq<char> {
    match value {
        BusValue::Text(text) => text@,
        BusValue::Flag(flag) => flag_text(flag),
        BusValue::Number(number) => decimal_text(number as nat),
        BusValue::Named(name) => name@,
        BusValue::User(uid) => decimal_text(uid as nat),
        BusValue::NameList(names) => spaced(views(names@)),
        BusValue::Other => Seq::empty(),
    }
}

fn spaced_text(names: &Vec<String>) -> (result: String)
    ensures
        result@ == spaced(views(names@)),
{
    let ghost listed = views(names@);
    let mut text = String::new();
    let mut at: usize = 0;
    while at < names.len()
        invariant
            listed == views(names@),
            at <= names@.len(),
            text@ == spaced(listed.take(at as int)),
        decreases names@.len() - at,
    {
        let ghost shorter = listed.take(at as int);
        let ghost longer = listed.take(at + 1);
        assert(longer.drop_last() =~= shorter);
        assert(longer.last() == names@[at as int]@);
        if at > 0 {
            text.append(" ");
        }
        text.append(names[at].as_str());
        proof {
            reveal_strlit(" ");
            assert(" "@ =~= seq![' ']);
            if at == 0 {
                assert(text@ =~= names@[0]@);
            } else {
                assert(text@ =~= spaced(shorter) + seq![' '] + names@[at as int]@);
            }
        }
        at = at + 1;
    }
    assert(listed.take(at as int) =~= listed);
    text
}

fn text_value(value: &BusValue) -> (result: String)
    ensures
        result@ == text_for(*value),
{
    match value {
        BusValue::Text(text) => text.clone(),
        BusValue::Flag(flag) => if *flag {
            "yes".to_owned()
        } else {
            "no".to_owned()
        },
        BusValue::Number(number) => decimal(*number as u64),
        BusValue::Named(name) => name.clone(),
        BusValue::User(uid) => decimal(*uid as u64),
        BusValue::NameList(names) => spaced_text(names),
        BusValue::Other => {
            let text = String::new();
            assert(text@ =~= Seq::<char>::empty());
            text
        },
    }
}

fn value_has_type(property: Property, value: &BusValue) -> (result: bool)
    ensures
        result == has_type(property, *value),
{
    match property {
        Property::Remote | Property::Active | Property::CanLock | Property::LockedHint => match value {
            BusValue::Flag(_) => true,
            _ => false,
        },
        Property::User => match value {
            BusValue::User(_) => true,
            _ => false,
        },
        Property::Seat | Property::ActiveSession => match value {
            BusValue::Named(_) => true,
            _ => false,
        },
        Property::Sessions => match value {
            BusValue::NameList(_) => true,
            _ => false,
        },
        Property::VtNumber => match value {
            BusValue::Number(_) => true,
            _ => false,
        },
        _ => match value {
            BusValue::Text(_) => true,
            _ => false,
        },
    }
}

fn typed_property<'a>(
    values: &'a OrderedMap<BusValue>,
    property: Property,
) -> (result: Result<&'a BusValue, LogindError>)
    requires
        values.wf(),
    ensures
        match result {
            Ok(value) => property_fault(values@, property) is None && *value
                == values@[property.name_spec()],
            Err(error) => error matches LogindError::Property { property: named, fault } && named
                == property && property_fault(values@, property) == Some(fault),
        },
{
    match values.get(property.name()) {
        Some(value) => if value_has_type(property, value) {
            Ok(value)
        } else {
            Err(LogindError::Property { property, fault: PropertyFault::WrongType })
        },
        None => Err(LogindError::Property { property, fault: PropertyFault::Missing }),
    }
}

/// Properties with one more value copied as text.
pub open spec fn with_property(
    properties: Map<Seq<char>, Seq<char>>,
    values: Map<Seq<char>, BusValue>,
    property: Property,
) -> Map<Seq<char>, Seq<char>> {
    properties.insert(property.name_spec(), text_for(values[property.name_spec()]))
}

/// Session properties in the order in which they are read.
pub open spec fn session_order() -> Seq<Property> {
    seq![
        Property::Id,
        Property::Tty,
        Property::Type,
        Property::Class,
        Property::State,
        Property::Remote,
        Property::Active,
        Property::CanLock,
        Property::LockedHint,
        Property::User,
        Property::Seat,
        Property::VtNumber,
    ]
}

pub open spec fn copied(
    values: Map<Seq<char>, BusValue>,
    order: Seq<Property>,
) -> Map<Seq<char>, Seq<char>>
    decreases order.len(),
{
    if order.len() == 0 {
        Map::empty()
    } else {
        with_property(copied(values, order.drop_last()), values, order.last())
    }
}

/// Every property in the list is there with the right type.
pub open spec fn all_typed(values: Map<Seq<char>, BusValue>, order: Seq<Property>) -> bool {
    forall|i: int|
        0 <= i < order.len() ==> property_fault(values, #[trigger] order[i]) is None
}

/// `error` is about the first property in the list that is missing or has the
/// wrong type.
pub open spec fn first_fault(
    values: Map<Seq<char>, BusValue>,
    order: Seq<Property>,
    error: LogindError,
) -> bool {
    exists|at: int|
        {
            &&& 0 <= at < order.len()
            &&& all_typed(values, order.take(at))
            &&& property_fault(values, #[trigger] order[at]) is Some
            &&& error == (LogindError::Property {
                property: order[at],
                fault: property_fault(values, order[at])->0,
            })
        }
}

fn copy_properties(values: &OrderedMap<BusValue>, order: &Vec<Property>) -> (result: Result<
    Properties,
    LogindError,
>)
    requires
        values.wf(),
    ensures
        match result {
            Ok(properties) => all_typed(values@, order@) && properties@ == copied(values@, order@),
            Err(error) => first_fault(values@, order@, error),
        },
{
    let mut properties = Properties::new();
    let mut at: usize = 0;
    while at < order.len()
        invariant
            values.wf(),
            at <= order@.len(),
            all_typed(values@, order@.take(at as int)),
            properties@ == copied(values@, order@.take(at as int)),
        decreases order@.len() - at,
    {
        let ghost shorter = order@.take(at as int);
        let ghost longer = order@.take(at + 1);
        assert(longer.drop_last() =~= shorter);
        let property = order[at];
        match typed_property(values, property) {
            Ok(value) => {
                properties.insert(property.name().to_owned(), text_value(value));
                assert forall|i: int| 0 <= i < longer.len() implies property_fault(
                    values@,
                    #[trigger] longer[i],
                ) is None by {
                    if i < at {
                        assert(longer[i] == shorter[i]);
                    }
                }
            },
            Err(error) => {
                assert(property_fault(values@, order@[at as int]) is Some);
                return Err(error);
            },
        }
        at = at + 1;
    }
    assert(order@.take(at as int) =~= order@);
    Ok(properties)
}

/// The properties of a session.
pub fn session_properties(values: &OrderedMap<BusValue>) -> (result: Result<
    Properties,
    LogindError,
>)
    requires
        values.wf(),
    ensures
        match result {
            Ok(properties) => all_typed(values@, session_order()) && properties@ == copied(
                values@,
                session_order(),
            ),
            Err(error) => first_fault(values@, session_order(), error),
        },
{
    let order: Vec<Property> = vec![
        Property::Id,
        Property::Tty,
        Property::Type,
        Property::Class,
        Property::State,
        Property::Remote,
        Property::Active,
        Property::CanLock,
        Property::LockedHint,
        Property::User,
        Property::Seat,
        Property::VtNumber,
    ];
    assert(order@ =~= session_order());
    copy_properties(values, &order)
}

pub open spec fn seat_order() -> Seq<Property> {
    seq![Property::Id, Property::ActiveSession, Property::Sessions]
}

pub open spec fn listed_sessions(values: Map<Seq<char>, BusValue>) -> Seq<Seq<char>> {
    views(values[Property::Sessions.name_spec()]->NameList_0@)
}

/// The properties of a seat. Session names are checked before they are listed.
pub fn seat_properties(values: &OrderedMap<BusValue>) -> (result: Result<Properties, LogindError>)
    requires
        values.wf(),
    ensures
        match result {
            Ok(properties) => {
                &&& all_typed(values@, seat_order())
                &&& forall|i: int|
                    0 <= i < listed_sessions(values@).len() ==> valid_identifier(
                        #[trigger] listed_sessions(values@)[i],
                    )
                &&& properties@ == copied(values@, seat_order())
            },
            Err(error) => if all_typed(values@, seat_order()) {
                exists|i: int|
                    {
                        &&& 0 <= i < listed_sessions(values@).len()
                        &&& !valid_identifier(#[trigger] listed_sessions(values@)[i])
                        &&& forall|j: int|
                            0 <= j < i ==> valid_identifier(
                                #[trigger] listed_sessions(values@)[j],
                            )
                        &&& error matches LogindError::InvalidIdentifier { kind, value } && kind
                            == IdentifierKind::Session && value@ == listed_sessions(values@)[i]
                    }
            } else {
                first_fault(values@, seat_order(), error)
            },
        },
{
    let order: Vec<Property> = vec![Property::Id, Property::ActiveSession, Property::Sessions];
    assert(order@ =~= seat_order());
    let properties = match copy_properties(values, &order) {
        Ok(properties) => properties,
        Err(error) => {
            proof {
                let at = choose|at: int|
                    0 <= at < seat_order().len() && all_typed(values@, seat_order().take(at))
                        && property_fault(values@, #[trigger] seat_order()[at]) is Some;
                assert(property_fault(values@, seat_order()[at]) is Some);
            }
            return Err(error);
        },
    };
    assert(seat_order()[2] == Property::Sessions);
    let listed = match typed_property(values, Property::Sessions) {
        Ok(value) => value,
        Err(error) => return Err(error),
    };
    if let BusValue::NameList(sessions) = listed {
        let mut at: usize = 0;
        while at < sessions.len()
            invariant
                at <= sessions@.len(),
                listed_sessions(values@) == views(sessions@),
                all_typed(values@, seat_order()),
                forall|i: int|
                    0 <= i < at ==> valid_identifier(#[trigger] listed_sessions(values@)[i]),
            decreases sessions@.len() - at,
        {
            let name: &str = sessions[at].as_str();
            assert(listed_sessions(values@)[at as int] == name@);
            if let Err(error) = validate_identifier(IdentifierKind::Session, name) {
                return Err(error);
            }
            at = at + 1;
        }
    }
    Ok(properties)
}

proof fn identifier_is_one_word(text: Seq<char>, name: Seq<char>, count: int)
    requires
        0 < count <= name.len(),
        forall|i: int| 0 <= i < name.len() ==> identifier_char(#[trigger] name[i]),
        text.len() == 0 || is_space(text.last()),
    ensures
        words(text + name.take(count)) == words(text).push(name.take(count)),
    decreases count,
{
    let whole = text + name.take(count);
    assert(identifier_char(name[count - 1]));
    assert(whole.last() == name[count - 1]);
    assert(!is_space(whole.last()));
    if count == 1 {
        assert(whole.drop_last() =~= text);
        assert(name.take(1) =~= seq![name[0]]);
    } else {
        identifier_is_one_word(text, name, count - 1);
        let shorter = text + name.take(count - 1);
        assert(whole.drop_last() =~= shorter);
        assert(identifier_char(name[count - 2]));
        assert(shorter.last() == name[count - 2]);
        let before = words(shorter);
        assert(before.drop_last() =~= words(text));
        assert(before.last().push(whole.last()) =~= name.take(count));
    }
}

/// Reading the listed session names gives the names back, so nothing is lost
/// between the bus and the seat rules.
pub proof fn session_lists_round_trip(names: Seq<Seq<char>>)
    requires
        forall|i: int| 0 <= i < names.len() ==> valid_identifier(#[trigger] names[i]),
    ensures
        words(spaced(names)) == names,
    decreases names.len(),
{
    if names.len() == 0 {
        assert(words(spaced(names)) =~= names);
    } else if names.len() == 1 {
        let name = names[0];
        identifier_is_one_word(Seq::empty(), name, name.len() as int);
        assert(name.take(name.len() as int) =~= name);
        assert(Seq::<char>::empty() + name =~= name);
        assert(words(spaced(names)) =~= names);
    } else {
        let before = names.drop_last();
        let name = names.last();
        session_lists_round_trip(before);
        assert(valid_identifier(names[names.len() - 1]));
        let spaced_before = spaced(before) + seq![' '];
        assert(spaced_before.drop_last() =~= spaced(before));
        assert(is_space(' '));
        assert(words(spaced_before) == before);
        identifier_is_one_word(spaced_before, name, name.len() as int);
        assert(name.take(name.len() as int) =~= name);
        assert(before.push(name) =~= names);
    }
}

/// Each property that is asked for is kept under its own name with its own value, and
/// nothing else is.
pub proof fn properties_keep_their_values(
    values: Map<Seq<char>, BusValue>,
    order: Seq<Property>,
    name: Seq<char>,
)
    ensures
        copied(values, order).dom().contains(name) <==> exists|i: int|
            0 <= i < order.len() && (#[trigger] order[i]).name_spec() == name,
        copied(values, order).dom().contains(name) ==> copied(values, order)[name] == text_for(
            values[name],
        ),
    decreases order.len(),
{
    if order.len() > 0 {
        let earlier = order.drop_last();
        properties_keep_their_values(values, earlier, name);
        if exists|i: int| 0 <= i < earlier.len() && (#[trigger] earlier[i]).name_spec() == name {
            let i = choose|i: int|
                0 <= i < earlier.len() && (#[trigger] earlier[i]).name_spec() == name;
            assert(order[i].name_spec() == name);
        }
        if exists|i: int| 0 <= i < order.len() && (#[trigger] order[i]).name_spec() == name {
            let i = choose|i: int|
                0 <= i < order.len() && (#[trigger] order[i]).name_spec() == name;
            if i < earlier.len() {
                assert(earlier[i].name_spec() == name);
            }
        }
        assert(order[order.len() - 1] == order.last());
    }
}

/// A value's text reads back: flags as the words for them, numbers and users as the
/// number, names as they are, and lists as their names.
pub proof fn bus_values_read_back(value: BusValue)
    requires
        value matches BusValue::NameList(names) ==> forall|i: int|
            0 <= i < views(names@).len() ==> valid_identifier(#[trigger] views(names@)[i]),
    ensures
        match value {
            BusValue::Text(text) => text_for(value) == text@,
            BusValue::Flag(flag) => (flag <==> text_for(value) == "yes"@) && (!flag <==> text_for(
                value,
            ) == "no"@),
            BusValue::Number(number) => digits_value(text_for(value), 10) == Some(number as int),
            BusValue::Named(name) => text_for(value) == name@,
            BusValue::User(uid) => digits_value(text_for(value), 10) == Some(uid as int),
            BusValue::NameList(names) => words(text_for(value)) == views(names@),
            BusValue::Other => text_for(value).len() == 0,
        },
{
    reveal_strlit("yes");
    reveal_strlit("no");
    match value {
        BusValue::Number(number) => decimal_round_trips(number as nat),
        BusValue::User(uid) => decimal_round_trips(uid as nat),
        BusValue::NameList(names) => session_lists_round_trip(views(names@)),
        _ => {},
    }
}

/// A property is at fault exactly if it is missing or of the wrong type.
pub proof fn properties_are_at_fault_exactly_so(
    values: Map<Seq<char>, BusValue>,
    property: Property,
)
    ensures
        property_fault(values, property) == Some(PropertyFault::Missing) <==> !values.contains_key(
            property.name_spec(),
        ),
        property_fault(values, property) == Some(PropertyFault::WrongType) <==> values.contains_key(
            property.name_spec(),
        ) && !has_type(property, values[property.name_spec()]),
        property_fault(values, property) is None <==> values.contains_key(property.name_spec())
            && has_type(property, values[property.name_spec()]),
{
}

/// A session is asked for everything that is decided by, and a seat too.
pub proof fn everything_needed_is_asked_for(values: Map<Seq<char>, BusValue>)
    ensures
        ({
            let session = copied(values, session_order()).dom();
            let seat = copied(values, seat_order()).dom();
            &&& session.contains("Id"@) && session.contains("Seat"@) && session.contains(
                "Active"@,
            ) && session.contains("State"@) && session.contains("Remote"@)
            &&& session.contains("Class"@) && session.contains("User"@) && session.contains(
                "LockedHint"@,
            ) && session.contains("Type"@) && session.contains("CanLock"@)
            &&& session.contains("VTNr"@) && session.contains("TTY"@)
            &&& seat.contains("Id"@) && seat.contains("ActiveSession"@) && seat.contains(
                "Sessions"@,
            )
        }),
{
    let session = session_order();
    let seat = seat_order();
    assert forall|i: int| 0 <= i < session.len() implies copied(values, session).dom().contains(
        (#[trigger] session[i]).name_spec(),
    ) by {
        properties_keep_their_values(values, session, session[i].name_spec());
    }
    assert forall|i: int| 0 <= i < seat.len() implies copied(values, seat).dom().contains(
        (#[trigger] seat[i]).name_spec(),
    ) by {
        properties_keep_their_values(values, seat, seat[i].name_spec());
    }
    assert(session[0].name_spec() == "Id"@);
    assert(session[1].name_spec() == "TTY"@);
    assert(session[2].name_spec() == "Type"@);
    assert(session[3].name_spec() == "Class"@);
    assert(session[4].name_spec() == "State"@);
    assert(session[5].name_spec() == "Remote"@);
    assert(session[6].name_spec() == "Active"@);
    assert(session[7].name_spec() == "CanLock"@);
    assert(session[8].name_spec() == "LockedHint"@);
    assert(session[9].name_spec() == "User"@);
    assert(session[10].name_spec() == "Seat"@);
    assert(session[11].name_spec() == "VTNr"@);
    assert(seat[0].name_spec() == "Id"@);
    assert(seat[1].name_spec() == "ActiveSession"@);
    assert(seat[2].name_spec() == "Sessions"@);
}

} // verus!
