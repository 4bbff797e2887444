//! Agreement on what a session may carry.
use vstd::prelude::*;

use crate::capture::MAX_TOUCHPAD_CONTACTS;
use crate::codes::{increasing, CodeSet};
use crate::config::{Config, PlayoutConfig, PlayoutMode};

verus! {

/// Version of the input protocol.
#[derive(Clone, Copy, Debug, PartialEq, Eq, Structural)]
pub struct ProtocolVersion(pub u16);

/// Number of the protocol version that this implementation speaks.
pub const CURRENT_PROTOCOL_VERSION: u16 = 1;

/// Datagram size that this implementation offers.
pub const OFFER_DATAGRAM_SIZE: u32 = 1_200;

/// Number of the pointer unit for raw, unaccelerated device motion.
pub const DEVICE_UNACCELERATED: u32 = 0;

#[derive(Clone, Copy, Debug, PartialEq, Eq, Structural)]
pub enum InputCapability {
    Keyboard,
    ConsumerControls,
    Pointer,
    Scroll,
    Touch,
}

/// A set of input capabilities.
#[derive(Clone, Copy, Debug, PartialEq, Eq, Structural)]
pub struct InputCapabilities {
    pub keyboard: bool,
    pub consumer_controls: bool,
    pub pointer: bool,
    pub scroll: bool,
    pub touch: bool,
}

impl InputCapabilities {
    pub open spec fn has(self, capability: InputCapability) -> bool {
        match capability {
            InputCapability::Keyboard => self.keyboard,
            InputCapability::ConsumerControls => self.consumer_controls,
            InputCapability::Pointer => self.pointer,
            InputCapability::Scroll => self.scroll,
            InputCapability::Touch => self.touch,
        }
    }

    pub open spec fn includes(self, other: InputCapabilities) -> bool {
        forall|capability: InputCapability| #[trigger]
            other.has(capability) ==> self.has(capability)
    }

    pub open spec fn common(self, other: InputCapabilities) -> InputCapabilities {
        InputCapabilities {
            keyboard: self.keyboard && other.keyboard,
            consumer_controls: self.consumer_controls && other.consumer_controls,
            pointer: self.pointer && other.pointer,
            scroll: self.scroll && other.scroll,
            touch: self.touch && other.touch,
        }
    }

    pub fn contains(&self, capability: InputCapability) -> (result: bool)
        ensures
            result == self.has(capability),
    {
        match capability {
            InputCapability::Keyboard => self.keyboard,
            InputCapability::ConsumerControls => self.consumer_controls,
            InputCapability::Pointer => self.pointer,
            InputCapability::Scroll => self.scroll,
            InputCapability::Touch => self.touch,
        }
    }

    pub fn is_superset(&self, other: &InputCapabilities) -> (result: bool)
        ensures
            result == self.includes(*other),
    {
        let result = (self.keyboard || !other.keyboard) && (self.consumer_controls
            || !other.consumer_controls) && (self.pointer || !other.pointer) && (self.scroll
            || !other.scroll) && (self.touch || !other.touch);
        proof {
            if self.includes(*other) {
                assert(other.has(InputCapability::Keyboard) ==> self.has(
                    InputCapability::Keyboard,
                ));
                assert(other.has(InputCapability::ConsumerControls) ==> self.has(
                    InputCapability::ConsumerControls,
                ));
                assert(other.has(InputCapability::Pointer) ==> self.has(InputCapability::Pointer));
                assert(other.has(InputCapability::Scroll) ==> self.has(InputCapability::Scroll));
                assert(other.has(InputCapability::Touch) ==> self.has(InputCapability::Touch));
            }
        }
        result
    }

    pub fn intersection(&self, other: &InputCapabilities) -> (result: InputCapabilities)
        ensures
            result == self.common(*other),
    {
        InputCapabilities {
            keyboard: self.keyboard && other.keyboard,
            consumer_controls: self.consumer_controls && other.consumer_controls,
            pointer: self.pointer && other.pointer,
            scroll: self.scroll && other.scroll,
            touch: self.touch && other.touch,
        }
    }
}

/// Optional parts of scroll events.
#[derive(Clone, Copy, Debug, PartialEq, Eq, Structural)]
pub struct ScrollFields {
    pub high_resolution: bool,
    pub source_unit: bool,
    pub source_resolution: bool,
    pub discrete_steps: bool,
    pub phase: bool,
    pub momentum_phase: bool,
}

impl ScrollFields {
    pub open spec fn common(self, other: ScrollFields) -> ScrollFields {
        ScrollFields {
            high_resolution: self.high_resolution && other.high_resolution,
            source_unit: self.source_unit && other.source_unit,
            source_resolution: self.source_resolution && other.source_resolution,
            discrete_steps: self.discrete_steps && other.discrete_steps,
            phase: self.phase && other.phase,
            momentum_phase: self.momentum_phase && other.momentum_phase,
        }
    }
}

pub fn intersect_scroll_fields(left: ScrollFields, right: ScrollFields) -> (result: ScrollFields)
    ensures
        result == left.common(right),
{
    ScrollFields {
        high_resolution: left.high_resolution && right.high_resolution,
        source_unit: left.source_unit && right.source_unit,
        source_resolution: left.source_resolution && right.source_resolution,
        discrete_steps: left.discrete_steps && right.discrete_steps,
        phase: left.phase && right.phase,
        momentum_phase: left.momentum_phase && right.momentum_phase,
    }
}

/// What one side of a session can do and insists on.
#[derive(Debug)]
pub struct NegotiationOffer {
    pub protocol_versions: Vec<ProtocolVersion>,
    pub maximum_datagram_size: u32,
    pub supported_capabilities: InputCapabilities,
    pub required_capabilities: InputCapabilities,
    /// Numbers of the supported pointer units.
    pub pointer_units: CodeSet,
    pub scroll_fields: ScrollFields,
    pub maximum_contacts: u16,
    pub maximum_receiver_lease_ms: u32,
    pub maximum_checkpoint_bound_ms: u32,
}

/// What both sides agreed on.
#[derive(Clone, Copy, Debug, PartialEq, Eq, Structural)]
pub struct NegotiatedSession {
    pub protocol_version: ProtocolVersion,
    pub maximum_datagram_size: u32,
    pub capabilities: InputCapabilities,
    pub pointer_unit: Option<u32>,
    pub scroll_fields: ScrollFields,
    pub contact_limit: u16,
    pub receiver_lease_ms: u32,
    pub checkpoint_bound_ms: u32,
}

#[derive(Clone, Copy, Debug, PartialEq, Eq, Structural)]
pub enum NegotiationError {
    /// The peers have no protocol version in common.
    NoCommonVersion,
    /// A peer lacks an input capability that the other requires.
    MissingCapability,
}

pub open spec fn smaller(left: int, right: int) -> int {
    if left <= right {
        left
    } else {
        right
    }
}

/// `version` is the newest one that both lists have.
pub open spec fn is_newest_common(
    version: ProtocolVersion,
    left: Seq<ProtocolVersion>,
    right: Seq<ProtocolVersion>,
) -> bool {
    &&& left.contains(version) && right.contains(version)
    &&& forall|other: ProtocolVersion| #[trigger]
        left.contains(other) && right.contains(other) ==> other.0 <= version.0
}

pub open spec fn have_common_version(
    left: Seq<ProtocolVersion>,
    right: Seq<ProtocolVersion>,
) -> bool {
    exists|version: ProtocolVersion| #[trigger] left.contains(version) && right.contains(version)
}

/// `unit` is the lowest-numbered one that both sets have.
pub open spec fn is_first_common(unit: Option<u32>, left: Set<u32>, right: Set<u32>) -> bool {
    match unit {
        Some(unit) => {
            &&& left.contains(unit) && right.contains(unit)
            &&& forall|other: u32| #[trigger]
                left.contains(other) && right.contains(other) ==> unit <= other
        },
        None => forall|other: u32| #[trigger] left.contains(other) ==> !right.contains(other),
    }
}

pub open spec fn offers_compatible(left: NegotiationOffer, right: NegotiationOffer) -> bool {
    let common = left.supported_capabilities.common(right.supported_capabilities);
    common.includes(left.required_capabilities) && common.includes(right.required_capabilities)
}

/// `session` is what two offers amount to.
pub open spec fn agrees(
    session: NegotiatedSession,
    left: NegotiationOffer,
    right: NegotiationOffer,
) -> bool {
    let common = left.supported_capabilities.common(right.supported_capabilities);
    &&& is_newest_common(
        session.protocol_version,
        left.protocol_versions@,
        right.protocol_versions@,
    )
    &&& offers_compatible(left, right)
    &&& session.capabilities == common
    &&& is_first_common(session.pointer_unit, left.pointer_units@, right.pointer_units@)
    &&& session.scroll_fields == left.scroll_fields.common(right.scroll_fields)
    &&& session.contact_limit == if common.touch {
        smaller(left.maximum_contacts as int, right.maximum_contacts as int)
    } else {
        0
    }
    &&& session.maximum_datagram_size == smaller(
        left.maximum_datagram_size as int,
        right.maximum_datagram_size as int,
    )
    &&& session.receiver_lease_ms == smaller(
        left.maximum_receiver_lease_ms as int,
        right.maximum_receiver_lease_ms as int,
    )
    &&& session.checkpoint_bound_ms == smaller(
        left.maximum_checkpoint_bound_ms as int,
        right.maximum_checkpoint_bound_ms as int,
    )
}

/// The two sides of a negotiation come to the same session, whichever offer is
/// called left.
pub proof fn negotiation_is_symmetric(
    first: NegotiatedSession,
    second: NegotiatedSession,
    left: NegotiationOffer,
    right: NegotiationOffer,
)
    requires
        agrees(first, left, right),
        agrees(second, right, left),
    ensures
        first == second,
{
    assert(left.protocol_versions@.contains(second.protocol_version));
    assert(left.protocol_versions@.contains(first.protocol_version));
    assert(right.protocol_versions@.contains(first.protocol_version));
    if let Some(unit) = first.pointer_unit {
        assert(left.pointer_units@.contains(unit));
        assert(right.pointer_units@.contains(unit));
    }
    if let Some(unit) = second.pointer_unit {
        assert(left.pointer_units@.contains(unit));
        assert(right.pointer_units@.contains(unit));
    }
}

/// A session never exceeds what either side offered, and grants everything that
/// either side requires.
pub proof fn negotiated_sessions_fit_both_offers(
    session: NegotiatedSession,
    left: NegotiationOffer,
    right: NegotiationOffer,
)
    requires
        agrees(session, left, right),
    ensures
        left.supported_capabilities.includes(session.capabilities),
        right.supported_capabilities.includes(session.capabilities),
        session.capabilities.includes(left.required_capabilities),
        session.capabilities.includes(right.required_capabilities),
        session.maximum_datagram_size <= left.maximum_datagram_size,
        session.maximum_datagram_size <= right.maximum_datagram_size,
        session.contact_limit <= left.maximum_contacts,
        session.contact_limit <= right.maximum_contacts,
        session.receiver_lease_ms <= left.maximum_receiver_lease_ms,
        session.receiver_lease_ms <= right.maximum_receiver_lease_ms,
        session.checkpoint_bound_ms <= left.maximum_checkpoint_bound_ms,
        session.checkpoint_bound_ms <= right.maximum_checkpoint_bound_ms,
        !session.capabilities.touch ==> session.contact_limit == 0,
{
}

/// A session leaves out nothing that both sides offered: every capability, every
/// scroll field and the newest version that both have, and each limit in full of
/// the side that has the lower one.
pub proof fn negotiated_sessions_leave_nothing_out(
    session: NegotiatedSession,
    left: NegotiationOffer,
    right: NegotiationOffer,
)
    requires
        agrees(session, left, right),
    ensures
        left.protocol_versions@.contains(session.protocol_version),
        right.protocol_versions@.contains(session.protocol_version),
        forall|version: ProtocolVersion| #[trigger]
            left.protocol_versions@.contains(version) && right.protocol_versions@.contains(version)
                ==> version.0 <= session.protocol_version.0,
        session.capabilities.keyboard == (left.supported_capabilities.keyboard
            && right.supported_capabilities.keyboard),
        session.capabilities.consumer_controls == (
        left.supported_capabilities.consumer_controls
            && right.supported_capabilities.consumer_controls),
        session.capabilities.pointer == (left.supported_capabilities.pointer
            && right.supported_capabilities.pointer),
        session.capabilities.scroll == (left.supported_capabilities.scroll
            && right.supported_capabilities.scroll),
        session.capabilities.touch == (left.supported_capabilities.touch
            && right.supported_capabilities.touch),
        session.scroll_fields.high_resolution == (left.scroll_fields.high_resolution
            && right.scroll_fields.high_resolution),
        session.scroll_fields.source_unit == (left.scroll_fields.source_unit
            && right.scroll_fields.source_unit),
        session.scroll_fields.source_resolution == (left.scroll_fields.source_resolution
            && right.scroll_fields.source_resolution),
        session.scroll_fields.discrete_steps == (left.scroll_fields.discrete_steps
            && right.scroll_fields.discrete_steps),
        session.scroll_fields.phase == (left.scroll_fields.phase && right.scroll_fields.phase),
        session.scroll_fields.momentum_phase == (left.scroll_fields.momentum_phase
            && right.scroll_fields.momentum_phase),
        session.pointer_unit matches Some(unit) ==> left.pointer_units@.contains(unit)
            && right.pointer_units@.contains(unit),
        session.pointer_unit is None ==> left.pointer_units@.disjoint(right.pointer_units@),
        session.capabilities.touch ==> session.contact_limit == left.maximum_contacts
            || session.contact_limit == right.maximum_contacts,
        session.maximum_datagram_size == left.maximum_datagram_size
            || session.maximum_datagram_size == right.maximum_datagram_size,
        session.receiver_lease_ms == left.maximum_receiver_lease_ms || session.receiver_lease_ms
            == right.maximum_receiver_lease_ms,
        session.checkpoint_bound_ms == left.maximum_checkpoint_bound_ms
            || session.checkpoint_bound_ms == right.maximum_checkpoint_bound_ms,
        left.required_capabilities.keyboard || right.required_capabilities.keyboard
            ==> session.capabilities.keyboard,
        left.required_capabilities.consumer_controls
            || right.required_capabilities.consumer_controls
            ==> session.capabilities.consumer_controls,
        left.required_capabilities.pointer || right.required_capabilities.pointer
            ==> session.capabilities.pointer,
        left.required_capabilities.scroll || right.required_capabilities.scroll
            ==> session.capabilities.scroll,
        left.required_capabilities.touch || right.required_capabilities.touch
            ==> session.capabilities.touch,
{
    let common = session.capabilities;
    assert(left.required_capabilities.has(InputCapability::Keyboard) ==> common.has(
        InputCapability::Keyboard,
    ));
    assert(right.required_capabilities.has(InputCapability::Keyboard) ==> common.has(
        InputCapability::Keyboard,
    ));
    assert(left.required_capabilities.has(InputCapability::ConsumerControls) ==> common.has(
        InputCapability::ConsumerControls,
    ));
    assert(right.required_capabilities.has(InputCapability::ConsumerControls) ==> common.has(
        InputCapability::ConsumerControls,
    ));
    assert(left.required_capabilities.has(InputCapability::Pointer) ==> common.has(
        InputCapability::Pointer,
    ));
    assert(right.required_capabilities.has(InputCapability::Pointer) ==> common.has(
        InputCapability::Pointer,
    ));
    assert(left.required_capabilities.has(InputCapability::Scroll) ==> common.has(
        InputCapability::Scroll,
    ));
    assert(right.required_capabilities.has(InputCapability::Scroll) ==> common.has(
        InputCapability::Scroll,
    ));
    assert(left.required_capabilities.has(InputCapability::Touch) ==> common.has(
        InputCapability::Touch,
    ));
    assert(right.required_capabilities.has(InputCapability::Touch) ==> common.has(
        InputCapability::Touch,
    ));
}

/// Sides that have a version in common and support what either requires agree.
pub proof fn compatible_offers_need_no_more(left: NegotiationOffer, right: NegotiationOffer)
    requires
        forall|capability: InputCapability|
            (#[trigger] left.required_capabilities.has(capability)
                || right.required_capabilities.has(capability))
                ==> left.supported_capabilities.has(capability)
                && right.supported_capabilities.has(capability),
    ensures
        offers_compatible(left, right),
{
    let common = left.supported_capabilities.common(right.supported_capabilities);
    assert forall|capability: InputCapability| #[trigger]
        right.required_capabilities.has(capability) implies common.has(capability) by {
        let trigger = left.required_capabilities.has(capability);
    }
}

fn has_version(versions: &Vec<ProtocolVersion>, version: ProtocolVersion) -> (result: bool)
    ensures
        result == versions@.contains(version),
{
    let mut at: usize = 0;
    while at < versions.len()
        invariant
            at <= versions@.len(),
            forall|i: int| 0 <= i < at ==> versions@[i] != version,
        decreases versions@.len() - at,
    {
        if versions[at] == version {
            return true;
        }
        at = at + 1;
    }
    false
}

fn newest_common_version(left: &Vec<ProtocolVersion>, right: &Vec<ProtocolVersion>) -> (result:
    Option<ProtocolVersion>)
    ensures
        match result {
            Some(version) => is_newest_common(version, left@, right@),
            None => !have_common_version(left@, right@),
        },
{
    let mut best: Option<ProtocolVersion> = None;
    let mut at: usize = 0;
    while at < left.len()
        invariant
            at <= left@.len(),
            best matches Some(version) ==> left@.contains(version) && right@.contains(version),
            forall|i: int|
                0 <= i < at && right@.contains(#[trigger] left@[i]) ==> (best matches Some(version)
                    && left@[i].0 <= version.0),
        decreases left@.len() - at,
    {
        let candidate = left[at];
        if has_version(right, candidate) {
            assert(left@.contains(candidate));
            match best {
                Some(version) => {
                    if candidate.0 > version.0 {
                        best = Some(candidate);
                    }
                },
                None => {
                    best = Some(candidate);
                },
            }
        }
        at = at + 1;
    }
    proof {
        assert forall|other: ProtocolVersion| #[trigger]
            left@.contains(other) && right@.contains(other) implies (best matches Some(version)
            && other.0 <= version.0) by {
            let k = choose|k: int| 0 <= k < left@.len() && left@[k] == other;
            assert(right@.contains(left@[k]));
        }
    }
    best
}

fn first_common_unit(left: &CodeSet, right: &CodeSet) -> (result: Option<u32>)
    ensures
        is_first_common(result, left@, right@),
{
    let units = left.items();
    let mut at: usize = 0;
    while at < units.len()
        invariant
            at <= units@.len(),
            increasing(units@),
            units@.to_set() == left@,
            forall|i: int| 0 <= i < at ==> !right@.contains(#[trigger] units@[i]),
        decreases units@.len() - at,
    {
        if right.contains(units[at]) {
            proof {
                let unit = units@[at as int];
                assert(units@.contains(unit));
                assert(left@.contains(unit));
                assert forall|other: u32| #[trigger]
                    left@.contains(other) && right@.contains(other) implies unit <= other by {
                    assert(units@.to_set().contains(other));
                    let k = choose|k: int| 0 <= k < units@.len() && units@[k] == other;
                    if k < at {
                        assert(!right@.contains(units@[k]));
                    } else if k > at {
                        assert(units@[at as int] < units@[k]);
                    }
                }
            }
            return Some(units[at]);
        }
        at = at + 1;
    }
    proof {
        assert forall|other: u32| #[trigger] left@.contains(other) implies !right@.contains(
            other,
        ) by {
            assert(units@.to_set().contains(other));
            let k = choose|k: int| 0 <= k < units@.len() && units@[k] == other;
            assert(!right@.contains(units@[k]));
        }
    }
    None
}

fn min_u32(left: u32, right: u32) -> (result: u32)
    ensures
        result == smaller(left as int, right as int),
{
    if left <= right {
        left
    } else {
        right
    }
}

fn min_u16(left: u16, right: u16) -> (result: u16)
    ensures
        result == smaller(left as int, right as int),
{
    if left <= right {
        left
    } else {
        right
    }
}

/// Finds the session that two offers amount to.
pub fn select_negotiation(left: &NegotiationOffer, right: &NegotiationOffer) -> (result: Result<
    NegotiatedSession,
    NegotiationError,
>)
    ensures
        match result {
            Ok(session) => agrees(session, *left, *right),
            Err(NegotiationError::NoCommonVersion) => !have_common_version(
                left.protocol_versions@,
                right.protocol_versions@,
            ),
            Err(NegotiationError::MissingCapability) => have_common_version(
                left.protocol_versions@,
                right.protocol_versions@,
            ) && !offers_compatible(*left, *right),
        },
{
    let protocol_version = match newest_common_version(
        &left.protocol_versions,
        &right.protocol_versions,
    ) {
        Some(version) => version,
        None => return Err(NegotiationError::NoCommonVersion),
    };
    assert(left.protocol_versions@.contains(protocol_version));
    let capabilities = left.supported_capabilities.intersection(&right.supported_capabilities);
    if !capabilities.is_superset(&left.required_capabilities) || !capabilities.is_superset(
        &right.required_capabilities,
    ) {
        return Err(NegotiationError::MissingCapability);
    }
    let contact_limit: u16 = if capabilities.contains(InputCapability::Touch) {
        min_u16(left.maximum_contacts, right.maximum_contacts)
    } else {
        0
    };
    Ok(
        NegotiatedSession {
            protocol_version,
            maximum_datagram_size: min_u32(
                left.maximum_datagram_size,
                right.maximum_datagram_size,
            ),
            capabilities,
            pointer_unit: first_common_unit(&left.pointer_units, &right.pointer_units),
            scroll_fields: intersect_scroll_fields(left.scroll_fields, right.scroll_fields),
            contact_limit,
            receiver_lease_ms: min_u32(
                left.maximum_receiver_lease_ms,
                right.maximum_receiver_lease_ms,
            ),
            checkpoint_bound_ms: min_u32(
                left.maximum_checkpoint_bound_ms,
                right.maximum_checkpoint_bound_ms,
            ),
        },
    )
}

/// Both sides compute the session and compare; a different answer ends the
/// negotiation.
pub fn confirm_negotiation(selected: NegotiatedSession, peer_selected: NegotiatedSession) -> (result:
    Option<NegotiatedSession>)
    ensures
        result == if selected == peer_selected {
            Some(selected)
        } else {
            None
        },
{
    if selected == peer_selected {
        Some(selected)
    } else {
        None
    }
}

/// How a session schedules motion.
#[derive(Clone, Copy, Debug, PartialEq, Eq, Structural)]
pub struct SessionPlayout {
    pub mode: PlayoutMode,
    pub fixed_delay_ms: u64,
    pub minimum_delay_ms: u64,
    pub maximum_delay_ms: u64,
    /// Percentile of the delay variation that adaptive playout covers.
    pub adaptive_percentile: u8,
}

impl SessionPlayout {
    pub fn from_config(config: PlayoutConfig) -> (result: Self)
        ensures
            result == (SessionPlayout {
                mode: config.mode,
                fixed_delay_ms: config.fixed_delay_ms,
                minimum_delay_ms: config.minimum_delay_ms,
                maximum_delay_ms: config.maximum_delay_ms,
                adaptive_percentile: config.percentile.hundredths,
            }),
    {
        SessionPlayout {
            mode: config.mode,
            fixed_delay_ms: config.fixed_delay_ms,
            minimum_delay_ms: config.minimum_delay_ms,
            maximum_delay_ms: config.maximum_delay_ms,
            adaptive_percentile: config.percentile.hundredths,
        }
    }
}

/// Session settings derived from the configuration.
#[derive(Debug)]
pub struct SessionOptions {
    pub offer: NegotiationOffer,
    pub playout: SessionPlayout,
}

/// Everything that a session has to be able to carry.
pub open spec fn baseline_capabilities() -> InputCapabilities {
    InputCapabilities {
        keyboard: true,
        consumer_controls: false,
        pointer: true,
        scroll: true,
        touch: false,
    }
}

impl SessionOptions {
    pub fn from_config(config: &Config) -> (result: Self)
        requires
            config.transport.lease_ms <= u32::MAX,
            config.transport.checkpoint_ms <= u32::MAX,
        ensures
            ({
                let touchpad = config.input.experimental_touchpad;
                let offer = result.offer;
                &&& offer.protocol_versions@ == seq![ProtocolVersion(CURRENT_PROTOCOL_VERSION)]
                &&& offer.maximum_datagram_size == OFFER_DATAGRAM_SIZE
                &&& offer.supported_capabilities == (InputCapabilities {
                    consumer_controls: true,
                    touch: touchpad,
                    ..baseline_capabilities()
                })
                &&& offer.required_capabilities == baseline_capabilities()
                &&& offer.pointer_units@ == set![DEVICE_UNACCELERATED]
                &&& offer.scroll_fields == (ScrollFields {
                    high_resolution: true,
                    source_unit: false,
                    source_resolution: false,
                    discrete_steps: true,
                    phase: false,
                    momentum_phase: false,
                })
                &&& offer.maximum_contacts == if touchpad {
                    MAX_TOUCHPAD_CONTACTS as int
                } else {
                    0
                }
                &&& offer.maximum_receiver_lease_ms == config.transport.lease_ms
                &&& offer.maximum_checkpoint_bound_ms == config.transport.checkpoint_ms
                &&& result.playout == (SessionPlayout {
                    mode: config.playout.mode,
                    fixed_delay_ms: config.playout.fixed_delay_ms,
                    minimum_delay_ms: config.playout.minimum_delay_ms,
                    maximum_delay_ms: config.playout.maximum_delay_ms,
                    adaptive_percentile: config.playout.percentile.hundredths,
                })
            }),
    {
        let touchpad = config.input.experimental_touchpad;
        let mut pointer_units = CodeSet::new();
        pointer_units.insert(DEVICE_UNACCELERATED);
        assert(pointer_units@ =~= set![DEVICE_UNACCELERATED]);
        let maximum_contacts: u16 = if touchpad {
            MAX_TOUCHPAD_CONTACTS as u16
        } else {
            0
        };
        SessionOptions {
            offer: NegotiationOffer {
                protocol_versions: vec![ProtocolVersion(CURRENT_PROTOCOL_VERSION)],
                maximum_datagram_size: OFFER_DATAGRAM_SIZE,
                supported_capabilities: InputCapabilities {
                    keyboard: true,
                    consumer_controls: true,
                    pointer: true,
                    scroll: true,
                    touch: touchpad,
                },
                required_capabilities: InputCapabilities {
                    keyboard: true,
                    consumer_controls: false,
                    pointer: true,
                    scroll: true,
                    touch: false,
                },
                pointer_units,
                scroll_fields: ScrollFields {
                    high_resolution: true,
                    source_unit: false,
                    source_resolution: false,
                    discrete_steps: true,
                    phase: false,
                    momentum_phase: false,
                },
                maximum_contacts,
                maximum_receiver_lease_ms: config.transport.lease_ms as u32,
                maximum_checkpoint_bound_ms: config.transport.checkpoint_ms as u32,
            },
            playout: SessionPlayout::from_config(config.playout),
        }
    }
}

/// Of the pointer units that both sides know, the lowest is taken; without one there
/// is none.
pub proof fn the_lowest_common_unit_is_taken(
    session: NegotiatedSession,
    left: NegotiationOffer,
    right: NegotiationOffer,
    unit: u32,
)
    requires
        agrees(session, left, right),
        left.pointer_units@.contains(unit),
        right.pointer_units@.contains(unit),
    ensures
        session.pointer_unit matches Some(taken) && taken <= unit && left.pointer_units@.contains(
            taken,
        ) && right.pointer_units@.contains(taken),
{
}

} // verus!
