//! Pairing: offers, what both sides derive from them, and the confirmed peer.
use vstd::prelude::*;

use crate::address_text::{address_of, address_texts, read_address, write_addresses};
use crate::config::{Config, PeerConfig, PeerModel, PeerPermissions};
use crate::identity::{
    bytes_at_most, bytes_come_by_their_first_difference, bytes_order_is_total, bytes_ordered,
    code_of, framed, frames_are_unambiguous,
    hex_text, hex_text_names_its_bytes, pairing_code_is_symmetric, push_bytes, push_framed, same_bytes, Identity,
};
use crate::macos::source::may_receive_input;
use crate::net::{addresses_ordered, copy_addresses, sorted_addresses, SocketAddress};
use crate::ordered::precedes;
use crate::random::random_bytes;
use crate::scan::{trim, trimmed, views};
use crate::text::{copy_optional_text, same_text, text_of};

verus! {

pub const DEFAULT_PAIRING_PORT: u16 = 43120;

/// Longest name of a computer, in bytes.
pub const MAX_NAME_BYTES: usize = 255;

#[derive(Clone, Copy, Debug, PartialEq, Eq, Structural)]
pub enum PairingMethod {
    ShortAuthenticationString,
    /// A method that this program does not know.
    Unsupported,
}

/// What one side tells the other before the code is compared.
#[derive(Debug, PartialEq, Eq)]
pub struct PairingOffer {
    pub handshake_nonce: Vec<u8>,
    pub method: PairingMethod,
    pub device_label: Option<String>,
    pub input_port: u16,
    /// Addresses in text.
    pub input_candidates: Vec<String>,
}

#[derive(Debug, PartialEq, Eq)]
pub struct PairingObservation {
    pub peer_spki: Vec<u8>,
    pub peer_label: Option<String>,
    pub peer_candidates: Vec<SocketAddress>,
    pub authentication_code: String,
}

#[derive(Clone, Copy, Debug, PartialEq, Eq, Structural)]
pub enum OfferError {
    ZeroPort,
    InvalidLabel,
    /// The system gave no random data for the nonce.
    NoRandomness,
}

/// A control character: one that is not printed.
pub open spec fn is_control(c: char) -> bool {
    c as u32 <= 0x1f || 0x7f <= c as u32 <= 0x9f
}

/// Labels are non-empty printable text.
pub open spec fn is_label(label: Seq<char>) -> bool {
    label.len() > 0 && forall|i: int| 0 <= i < label.len() ==> !is_control(#[trigger] label[i])
}

pub fn validate_label(label: &str) -> (result: bool)
    ensures
        result == is_label(label@),
{
    let len: usize = label.unicode_len();
    let mut at: usize = 0;
    while at < len
        invariant
            len == label@.len(),
            at <= len,
            forall|i: int| 0 <= i < at ==> !is_control(#[trigger] label@[i]),
        decreases len - at,
    {
        let c: u32 = label.get_char(at) as u32;
        if c <= 0x1f || (0x7f <= c && c <= 0x9f) {
            assert(is_control(label@[at as int]));
            return false;
        }
        at = at + 1;
    }
    len > 0
}

pub open spec fn is_optional_label(label: Option<Seq<char>>) -> bool {
    label matches Some(text) ==> is_label(text)
}

fn validate_optional_label(label: &Option<String>) -> (result: bool)
    ensures
        result == is_optional_label(text_of(*label)),
{
    match label {
        Some(text) => validate_label(text.as_str()),
        None => true,
    }
}

pub open spec fn byte_length(text: Seq<char>) -> nat {
    vstd::utf8::encode_utf8(text).len()
}

/// The host name, where it can be offered as a label.
pub fn offered_label(host_name: Option<String>) -> (result: Option<String>)
    ensures
        result == match host_name {
            Some(name) => if byte_length(name@) <= MAX_NAME_BYTES && is_label(name@) {
                Some(name)
            } else {
                None
            },
            None => None,
        },
{
    match host_name {
        Some(name) => if name.as_str().as_bytes().len() <= MAX_NAME_BYTES && validate_label(
            name.as_str(),
        ) {
            Some(name)
        } else {
            None
        },
        None => None,
    }
}

/// Why an offer cannot be made, whatever the nonce is.
pub open spec fn offer_error(label: Option<Seq<char>>, input_port: u16) -> Option<OfferError> {
    if input_port == 0 {
        Some(OfferError::ZeroPort)
    } else if !is_optional_label(label) {
        Some(OfferError::InvalidLabel)
    } else {
        None
    }
}

/// An offer of these parts.
pub open spec fn offers(
    offer: PairingOffer,
    label: Option<String>,
    input_port: u16,
    candidates: Vec<SocketAddress>,
) -> bool {
    &&& offer.method == PairingMethod::ShortAuthenticationString
    &&& offer.device_label == label
    &&& offer.input_port == input_port
    &&& views(offer.input_candidates@) == address_texts(candidates@)
}

/// An offer with a given nonce; no nonce means that there was no random data.
pub fn offer_with_nonce(
    nonce: Option<Vec<u8>>,
    device_label: Option<String>,
    input_port: u16,
    input_candidates: Vec<SocketAddress>,
) -> (result: Result<PairingOffer, OfferError>)
    ensures
        match offer_error(text_of(device_label), input_port) {
            Some(error) => result == Err::<PairingOffer, OfferError>(error),
            None => match nonce {
                None => result == Err::<PairingOffer, OfferError>(OfferError::NoRandomness),
                Some(bytes) => {
                    &&& result is Ok
                    &&& result->Ok_0.handshake_nonce == bytes
                    &&& offers(result->Ok_0, device_label, input_port, input_candidates)
                },
            },
        },
{
    if input_port == 0 {
        return Err(OfferError::ZeroPort);
    }
    if !validate_optional_label(&device_label) {
        return Err(OfferError::InvalidLabel);
    }
    match nonce {
        Some(handshake_nonce) => Ok(
            PairingOffer {
                handshake_nonce,
                method: PairingMethod::ShortAuthenticationString,
                device_label,
                input_port,
                input_candidates: write_addresses(&input_candidates),
            },
        ),
        None => Err(OfferError::NoRandomness),
    }
}

/// An offer with a fresh nonce of 32 bytes.
pub fn make_offer(
    device_label: Option<String>,
    input_port: u16,
    input_candidates: Vec<SocketAddress>,
) -> (result: Result<PairingOffer, OfferError>)
    ensures
        match offer_error(text_of(device_label), input_port) {
            Some(error) => result == Err::<PairingOffer, OfferError>(error),
            None => match result {
                Ok(offer) => offer.handshake_nonce@.len() == 32 && offers(
                    offer,
                    device_label,
                    input_port,
                    input_candidates,
                ),
                Err(error) => error == OfferError::NoRandomness,
            },
        },
{
    offer_with_nonce(random_bytes(32), device_label, input_port, input_candidates)
}

#[derive(Clone, Copy, Debug, PartialEq, Eq, Structural)]
pub enum ExchangeError {
    /// Our own offer has a method that this program cannot complete.
    LocalMethod,
    /// The other side has our own identity.
    SelfPairing,
    PeerMethod,
    PeerPort,
    PeerLabel,
    /// The candidate at this place is no address.
    PeerCandidate(usize),
}

/// A candidate that is no address, and the first one.
pub open spec fn first_bad_candidate(candidates: Seq<Seq<char>>, at: int) -> bool {
    &&& 0 <= at < candidates.len()
    &&& address_of(candidates[at]) is None
    &&& forall|i: int| 0 <= i < at ==> address_of(#[trigger] candidates[i]) is Some
}

/// The addresses that candidates are.
pub open spec fn candidate_addresses(candidates: Seq<Seq<char>>) -> Seq<SocketAddress> {
    candidates.map_values(|candidate: Seq<char>| address_of(candidate)->0)
}

fn read_candidates(texts: &Vec<String>) -> (result: Result<Vec<SocketAddress>, usize>)
    ensures
        match result {
            Ok(addresses) => {
                &&& forall|i: int|
                    0 <= i < texts@.len() ==> address_of(#[trigger] views(texts@)[i]) is Some
                &&& addresses@ == candidate_addresses(views(texts@))
            },
            Err(at) => first_bad_candidate(views(texts@), at as int),
        },
{
    let ghost all = views(texts@);
    let mut addresses: Vec<SocketAddress> = Vec::new();
    let mut at: usize = 0;
    while at < texts.len()
        invariant
            at <= texts@.len(),
            all == views(texts@),
            addresses@.len() == at,
            forall|i: int| 0 <= i < at ==> address_of(#[trigger] all[i]) == Some(addresses@[i]),
        decreases texts@.len() - at,
    {
        assert(all[at as int] == texts@[at as int]@);
        match read_address(texts[at].as_str()) {
            Some(address) => addresses.push(address),
            None => return Err(at),
        }
        at = at + 1;
    }
    assert(addresses@ =~= candidate_addresses(all));
    Ok(addresses)
}

pub open spec fn exchange_error(
    local_method: PairingMethod,
    local_spki: Seq<u8>,
    peer_spki: Seq<u8>,
    peer: PairingOffer,
) -> Option<ExchangeError> {
    if local_method != PairingMethod::ShortAuthenticationString {
        Some(ExchangeError::LocalMethod)
    } else if peer_spki == local_spki {
        Some(ExchangeError::SelfPairing)
    } else if peer.method != PairingMethod::ShortAuthenticationString {
        Some(ExchangeError::PeerMethod)
    } else if peer.input_port == 0 {
        Some(ExchangeError::PeerPort)
    } else if !is_optional_label(text_of(peer.device_label)) {
        Some(ExchangeError::PeerLabel)
    } else {
        None
    }
}

/// The transcript of an exchange: the transport's binding, and both encoded
/// offers in the order of the two identities.
pub open spec fn transcript_of(
    binding: Seq<u8>,
    local_spki: Seq<u8>,
    peer_spki: Seq<u8>,
    local_offer: Seq<u8>,
    peer_offer: Seq<u8>,
) -> Seq<u8> {
    if bytes_ordered(peer_spki, local_spki) {
        binding + framed(peer_offer) + framed(local_offer)
    } else {
        binding + framed(local_offer) + framed(peer_offer)
    }
}

pub fn transcript(
    binding: &Vec<u8>,
    local_spki: &Vec<u8>,
    peer_spki: &Vec<u8>,
    local_offer: &Vec<u8>,
    peer_offer: &Vec<u8>,
) -> (result: Vec<u8>)
    ensures
        result@ == transcript_of(binding@, local_spki@, peer_spki@, local_offer@, peer_offer@),
{
    let mut bytes: Vec<u8> = Vec::new();
    push_bytes(&mut bytes, binding);
    assert(bytes@ =~= binding@);
    if bytes_at_most(peer_spki, local_spki) {
        push_framed(&mut bytes, peer_offer);
        push_framed(&mut bytes, local_offer);
    } else {
        push_framed(&mut bytes, local_offer);
        push_framed(&mut bytes, peer_offer);
    }
    bytes
}

/// Completes an exchange. `local_encoded` and `peer_encoded` are the two offers
/// as they were sent, `remote` is the address that the other side has. What the
/// other side offers is checked before its candidates are read.
pub fn complete(
    identity: &Identity,
    local_method: PairingMethod,
    peer_spki: Vec<u8>,
    peer: &PairingOffer,
    binding: &Vec<u8>,
    local_encoded: &Vec<u8>,
    peer_encoded: &Vec<u8>,
    remote: SocketAddress,
) -> (result: Result<PairingObservation, ExchangeError>)
    ensures
        ({
            let error = exchange_error(local_method, identity.public_key@, peer_spki@, *peer);
            let candidates = views(peer.input_candidates@);
            if error is Some {
                result == Err::<PairingObservation, ExchangeError>(error->0)
            } else if exists|at: int| first_bad_candidate(candidates, at) {
                &&& result matches Err(ExchangeError::PeerCandidate(at))
                &&& first_bad_candidate(candidates, at as int)
            } else {
                &&& result matches Ok(observation)
                &&& observation.peer_spki == peer_spki
                &&& text_of(observation.peer_label) == text_of(peer.device_label)
                &&& addresses_ordered(observation.peer_candidates@)
                &&& observation.peer_candidates@.to_set() == candidate_addresses(
                    candidates,
                ).to_set().insert(remote.at_port_spec(peer.input_port))
                &&& observation.authentication_code@ == code_of(
                    identity.public_key@,
                    peer_spki@,
                    transcript_of(
                        binding@,
                        identity.public_key@,
                        peer_spki@,
                        local_encoded@,
                        peer_encoded@,
                    ),
                )
            }
        }),
{
    if local_method != PairingMethod::ShortAuthenticationString {
        return Err(ExchangeError::LocalMethod);
    }
    if same_bytes(&peer_spki, &identity.public_key) {
        return Err(ExchangeError::SelfPairing);
    }
    if peer.method != PairingMethod::ShortAuthenticationString {
        return Err(ExchangeError::PeerMethod);
    }
    if peer.input_port == 0 {
        return Err(ExchangeError::PeerPort);
    }
    if !validate_optional_label(&peer.device_label) {
        return Err(ExchangeError::PeerLabel);
    }
    let bytes = transcript(
        binding,
        &identity.public_key,
        &peer_spki,
        local_encoded,
        peer_encoded,
    );
    let mut candidates = match read_candidates(&peer.input_candidates) {
        Ok(candidates) => candidates,
        Err(at) => return Err(ExchangeError::PeerCandidate(at)),
    };
    let observed = remote.at_port(peer.input_port);
    let ghost before = candidates@;
    candidates.push(observed);
    assert(candidates@.to_set() =~= before.to_set().insert(observed)) by {
        assert(candidates@ =~= before.push(observed));
        assert forall|a: SocketAddress| candidates@.to_set().contains(a)
            == before.to_set().insert(observed).contains(a) by {
            if before.contains(a) {
                let k = choose|k: int| 0 <= k < before.len() && before[k] == a;
                assert(candidates@[k] == a);
            }
            if a == observed {
                assert(candidates@[before.len() as int] == a);
            }
            if candidates@.contains(a) && a != observed {
                let k = choose|k: int| 0 <= k < candidates@.len() && candidates@[k] == a;
                assert(before[k] == a);
            }
        }
    }
    let authentication_code = identity.pairing_code(&peer_spki, &bytes);
    Ok(
        PairingObservation {
            peer_spki,
            peer_label: copy_optional_text(&peer.device_label),
            peer_candidates: sorted_addresses(&candidates),
            authentication_code,
        },
    )
}

/// Two sides that saw the same transport and the same two offers show the same
/// code.
pub proof fn both_sides_derive_the_same_code(
    binding: Seq<u8>,
    left_spki: Seq<u8>,
    right_spki: Seq<u8>,
    left_offer: Seq<u8>,
    right_offer: Seq<u8>,
)
    requires
        left_spki != right_spki,
    ensures
        code_of(
            left_spki,
            right_spki,
            transcript_of(binding, left_spki, right_spki, left_offer, right_offer),
        ) == code_of(
            right_spki,
            left_spki,
            transcript_of(binding, right_spki, left_spki, right_offer, left_offer),
        ),
{
    bytes_order_is_total(left_spki, right_spki);
    pairing_code_is_symmetric(
        left_spki,
        right_spki,
        transcript_of(binding, left_spki, right_spki, left_offer, right_offer),
    );
}

/// Why a confirmed pairing adds no computer.
#[derive(Debug, PartialEq, Eq)]
pub enum ConfirmError {
    InvalidName,
    NameTooLong,
    CodeMismatch,
    /// Another computer has this name.
    NameTaken,
    /// This computer is already paired under the name given here.
    AlreadyPaired(String),
}

/// A new peer that may connect, and send or receive normal input.
pub open spec fn new_peer(
    spki: Seq<u8>,
    candidates: Seq<SocketAddress>,
    receiver: bool,
) -> PeerModel {
    PeerModel {
        spki_der_hex: hex_text(spki),
        addresses: candidates,
        permissions: PeerPermissions {
            connect: true,
            send_normal: receiver,
            receive_normal: !receiver,
            inject_prelogin: false,
        },
    }
}

/// `name` is paired with the identity.
pub open spec fn is_paired_as(
    paired: Map<Seq<char>, PeerModel>,
    name: Seq<char>,
    spki_der_hex: Seq<char>,
) -> bool {
    paired.dom().contains(name) && paired[name].spki_der_hex == spki_der_hex
}

/// What is refused before the list of peers is looked at.
pub open spec fn confirm_input_error(
    name: Seq<char>,
    code_matches: bool,
) -> Option<ConfirmError> {
    if !is_label(name) {
        Some(ConfirmError::InvalidName)
    } else if byte_length(name) > MAX_NAME_BYTES {
        Some(ConfirmError::NameTooLong)
    } else if !code_matches {
        Some(ConfirmError::CodeMismatch)
    } else {
        None
    }
}

/// What a confirmed pairing does to the list of peers. A known computer only
/// gets its new addresses; no computer replaces another one.
pub open spec fn confirmed(
    paired: Map<Seq<char>, PeerModel>,
    name: Seq<char>,
    record: PeerModel,
) -> Map<Seq<char>, PeerModel> {
    if paired.dom().contains(name) {
        paired.insert(name, PeerModel { addresses: record.addresses, ..paired[name] })
    } else {
        paired.insert(name, record)
    }
}

fn find_identity(config: &Config, spki_der_hex: &String) -> (result: Option<usize>)
    requires
        config.wf(),
    ensures
        match result {
            Some(at) => at < config.peers.keys().len() && is_paired_as(
                config.paired(),
                config.peers.keys()[at as int],
                spki_der_hex@,
            ) && forall|name: Seq<char>|
                is_paired_as(config.paired(), name, spki_der_hex@) ==> !#[trigger] precedes(
                    name,
                    config.peers.keys()[at as int],
                    config.peers.by_path(),
                ),
            None => forall|name: Seq<char>|
                !#[trigger] is_paired_as(config.paired(), name, spki_der_hex@),
        },
{
    let count: usize = config.peers.len();
    let mut at: usize = 0;
    while at < count
        invariant
            config.wf(),
            count == config.peers.keys().len(),
            at <= count,
            forall|i: int|
                0 <= i < at ==> !is_paired_as(
                    config.paired(),
                    #[trigger] config.peers.keys()[i],
                    spki_der_hex@,
                ),
        decreases count - at,
    {
        proof {
            config.peers.entry_in_map(at as int);
        }
        if same_text(config.peers.value_at(at).spki_der_hex.as_str(), spki_der_hex.as_str()) {
            proof {
                let key = config.peers.keys()[at as int];
                assert forall|name: Seq<char>|
                    is_paired_as(
                        config.paired(),
                        name,
                        spki_der_hex@,
                    ) implies !#[trigger] precedes(name, key, config.peers.by_path()) by {
                    assert(config.peers@.contains_key(name));
                    let k = config.peers.key_has_position(name);
                    assert(k >= at);
                    if k == at {
                        crate::ordered::precedes_is_irreflexive(name, config.peers.by_path());
                    } else {
                        assert(precedes(key, name, config.peers.by_path()));
                        if precedes(name, key, config.peers.by_path()) {
                            crate::ordered::precedes_is_transitive(
                                name,
                                key,
                                name,
                                config.peers.by_path(),
                            );
                            crate::ordered::precedes_is_irreflexive(name, config.peers.by_path());
                        }
                    }
                }
            }
            return Some(at);
        }
        at = at + 1;
    }
    assert forall|name: Seq<char>|
        !#[trigger] is_paired_as(config.paired(), name, spki_der_hex@) by {
        if is_paired_as(config.paired(), name, spki_der_hex@) {
            assert(config.peers@.contains_key(name));
            let k = config.peers.key_has_position(name);
            assert(config.peers.keys()[k] == name);
        }
    }
    None
}

/// Adds only the identity observed on this authenticated transport after a
/// matching code. A pairing request cannot replace an existing trusted peer.
pub fn add_confirmed_peer(
    config: &mut Config,
    observation: &PairingObservation,
    name: &str,
    code: &str,
    receiver: bool,
) -> (result: Result<(), ConfirmError>)
    requires
        old(config).wf(),
    ensures
        final(config).wf(),
        final(config).daemon == old(config).daemon,
        final(config).input == old(config).input,
        final(config).transport == old(config).transport,
        final(config).playout == old(config).playout,
        result is Err ==> *final(config) == *old(config),
        ({
            let paired = old(config).paired();
            let wanted = trimmed(name@);
            let spki_der_hex = hex_text(observation.peer_spki@);
            let early = confirm_input_error(wanted, code@ == observation.authentication_code@);
            if early is Some {
                result == Err::<(), ConfirmError>(early->0)
            } else if paired.dom().contains(wanted) && paired[wanted].spki_der_hex
                != spki_der_hex {
                result == Err::<(), ConfirmError>(ConfirmError::NameTaken)
            } else if !paired.dom().contains(wanted) && exists|other: Seq<char>| #[trigger]
                is_paired_as(paired, other, spki_der_hex) {
                &&& result matches Err(ConfirmError::AlreadyPaired(existing))
                &&& is_paired_as(paired, result->Err_0->AlreadyPaired_0@, spki_der_hex)
                &&& forall|other: Seq<char>|
                    is_paired_as(paired, other, spki_der_hex) ==> !#[trigger] precedes(
                        other,
                        result->Err_0->AlreadyPaired_0@,
                        old(config).peers.by_path(),
                    )
            } else {
                &&& result is Ok
                &&& final(config).paired() == confirmed(
                    paired,
                    wanted,
                    new_peer(observation.peer_spki@, observation.peer_candidates@, receiver),
                )
            }
        }),
{
    let name = trim(name);
    if !validate_label(name) {
        return Err(ConfirmError::InvalidName);
    }
    if name.as_bytes().len() > MAX_NAME_BYTES {
        return Err(ConfirmError::NameTooLong);
    }
    if !same_text(code, observation.authentication_code.as_str()) {
        return Err(ConfirmError::CodeMismatch);
    }
    let record = PeerConfig::from_spki(
        &observation.peer_spki,
        copy_addresses(&observation.peer_candidates),
        PeerPermissions {
            connect: true,
            send_normal: receiver,
            receive_normal: !receiver,
            inject_prelogin: false,
        },
    );
    let ghost paired = config.paired();
    let ghost before = config.peers@;
    if let Some(existing) = config.peers.get(name) {
        if !same_text(existing.spki_der_hex.as_str(), record.spki_der_hex.as_str()) {
            return Err(ConfirmError::NameTaken);
        }
        let updated = PeerConfig {
            spki_der_hex: record.spki_der_hex,
            addresses: record.addresses,
            permissions: existing.permissions,
        };
        let ghost model = updated@;
        config.peers.insert(name.to_owned(), updated);
        assert(config.paired() =~= paired.insert(name@, model));
        return Ok(());
    }
    if let Some(at) = find_identity(config, &record.spki_der_hex) {
        proof {
            assert(is_paired_as(
                paired,
                config.peers.keys()[at as int],
                hex_text(observation.peer_spki@),
            ));
        }
        return Err(ConfirmError::AlreadyPaired(config.peers.key_at(at).clone()));
    }
    let ghost model = record@;
    config.peers.insert(name.to_owned(), record);
    assert(config.paired() =~= paired.insert(name@, model));
    Ok(())
}

/// Confirming a pairing never changes which identity a name stands for, and
/// never changes the permissions of a paired computer.
pub proof fn pairing_never_replaces_trust(
    paired: Map<Seq<char>, PeerModel>,
    name: Seq<char>,
    record: PeerModel,
    known: Seq<char>,
)
    requires
        paired.dom().contains(known),
    ensures
        confirmed(paired, name, record).dom().contains(known),
        confirmed(paired, name, record)[known].spki_der_hex == paired[known].spki_der_hex,
        confirmed(paired, name, record)[known].permissions == paired[known].permissions,
        known != name ==> confirmed(paired, name, record)[known] == paired[known],
{
}

/// A newly paired computer may not type before login.
pub proof fn pairing_never_grants_prelogin_input(
    paired: Map<Seq<char>, PeerModel>,
    name: Seq<char>,
    spki: Seq<u8>,
    candidates: Seq<SocketAddress>,
    receiver: bool,
    known: Seq<char>,
)
    requires
        confirmed(paired, name, new_peer(spki, candidates, receiver)).dom().contains(known),
        confirmed(
            paired,
            name,
            new_peer(spki, candidates, receiver),
        )[known].permissions.inject_prelogin,
    ensures
        paired.dom().contains(known),
        paired[known].permissions.inject_prelogin,
{
}

/// The transcript holds the binding and both offers: transcripts of the same two
/// keys are equal only if all three are.
pub proof fn transcripts_cover_both_offers(
    binding: Seq<u8>,
    other_binding: Seq<u8>,
    local_spki: Seq<u8>,
    peer_spki: Seq<u8>,
    local_offer: Seq<u8>,
    peer_offer: Seq<u8>,
    other_local: Seq<u8>,
    other_peer: Seq<u8>,
)
    requires
        binding.len() == other_binding.len(),
        local_offer.len() <= u64::MAX,
        peer_offer.len() <= u64::MAX,
        other_local.len() <= u64::MAX,
        other_peer.len() <= u64::MAX,
        transcript_of(binding, local_spki, peer_spki, local_offer, peer_offer) == transcript_of(
            other_binding,
            local_spki,
            peer_spki,
            other_local,
            other_peer,
        ),
    ensures
        binding == other_binding,
        local_offer == other_local,
        peer_offer == other_peer,
{
    let whole = transcript_of(binding, local_spki, peer_spki, local_offer, peer_offer);
    let count = binding.len() as int;
    let (first, second, other_first, other_second) = if bytes_ordered(peer_spki, local_spki) {
        (peer_offer, local_offer, other_peer, other_local)
    } else {
        (local_offer, peer_offer, other_local, other_peer)
    };
    assert(whole.take(count) =~= binding);
    assert(whole.take(count) =~= other_binding);
    assert(whole.skip(count) =~= framed(first) + framed(second));
    assert(whole.skip(count) =~= framed(other_first) + framed(other_second));
    frames_are_unambiguous(first, framed(second), other_first, framed(other_second));
    assert(framed(second) =~= framed(second) + Seq::<u8>::empty());
    assert(framed(other_second) =~= framed(other_second) + Seq::<u8>::empty());
    frames_are_unambiguous(second, Seq::empty(), other_second, Seq::empty());
}

/// Both computers write the offers in the same order.
pub proof fn both_sides_write_the_same_transcript(
    binding: Seq<u8>,
    left_spki: Seq<u8>,
    right_spki: Seq<u8>,
    left_offer: Seq<u8>,
    right_offer: Seq<u8>,
)
    requires
        left_spki != right_spki,
    ensures
        transcript_of(binding, left_spki, right_spki, left_offer, right_offer) == transcript_of(
            binding,
            right_spki,
            left_spki,
            right_offer,
            left_offer,
        ),
{
    bytes_order_is_total(left_spki, right_spki);
}

/// Of two computers that pair, the one that receives lets its peer send, the other
/// lets its peer receive, and neither does both. The peer's key is remembered.
pub proof fn paired_roles_fit_together(
    spki: Seq<u8>,
    other_spki: Seq<u8>,
    candidates: Seq<SocketAddress>,
    other_candidates: Seq<SocketAddress>,
    receiver: bool,
)
    ensures
        ({
            let here = new_peer(spki, candidates, receiver).permissions;
            let there = new_peer(other_spki, other_candidates, !receiver).permissions;
            &&& here.connect && there.connect
            &&& here.send_normal == there.receive_normal
            &&& here.receive_normal == there.send_normal
            &&& here.send_normal != here.receive_normal
        }),
        receiver ==> new_peer(spki, candidates, receiver).permissions.send_normal,
        may_receive_input(new_peer(spki, candidates, receiver)) <==> !receiver,
        spki.len() == other_spki.len() && new_peer(spki, candidates, receiver).spki_der_hex
            == new_peer(other_spki, candidates, receiver).spki_der_hex ==> spki == other_spki,
        new_peer(spki, candidates, receiver).addresses == candidates,
{
    if spki.len() == other_spki.len() && new_peer(spki, candidates, receiver).spki_der_hex
        == new_peer(other_spki, candidates, receiver).spki_der_hex {
        assert forall|i: int| 0 <= i < spki.len() implies spki[i] == other_spki[i] by {
            hex_text_names_its_bytes(spki, i);
            hex_text_names_its_bytes(other_spki, i);
        }
        assert(spki =~= other_spki);
    }
}

/// An exchange succeeds exactly if both sides compare a code, the keys differ, and the
/// peer offers a port and, if any, a printable name.
pub proof fn exchanges_succeed_exactly_so(
    local_method: PairingMethod,
    local_spki: Seq<u8>,
    peer_spki: Seq<u8>,
    peer: PairingOffer,
)
    ensures
        exchange_error(local_method, local_spki, peer_spki, peer) is None <==> (local_method
            == PairingMethod::ShortAuthenticationString && peer.method
            == PairingMethod::ShortAuthenticationString && local_spki != peer_spki
            && peer.input_port != 0 && (peer.device_label matches Some(label) ==> is_label(
            label@,
        ))),
{
}

/// A name is not empty and holds nothing below the space, no delete and none of the
/// controls behind it; every other text is a name.
pub proof fn names_are_printable(name: Seq<char>)
    ensures
        is_label(name) <==> name.len() > 0 && forall|i: int|
            0 <= i < name.len() ==> 0x20 <= (#[trigger] name[i]) as u32 && !(0x7f
                <= name[i] as u32 <= 0x9f),
{
    if is_label(name) {
        assert forall|i: int| 0 <= i < name.len() implies 0x20 <= (#[trigger] name[i]) as u32
            && !(0x7f <= name[i] as u32 <= 0x9f) by {
            assert(!is_control(name[i]));
        }
    }
}

/// The transcript begins with the binding, and then comes the offer of the lower key:
/// the one with the lower byte where the keys first differ.
pub proof fn the_lower_keys_offer_comes_first(
    binding: Seq<u8>,
    start: Seq<u8>,
    lower: Seq<u8>,
    higher: Seq<u8>,
    lower_offer: Seq<u8>,
    higher_offer: Seq<u8>,
)
    requires
        lower.len() > 0,
        higher.len() > 0,
        lower[0] < higher[0],
    ensures
        ({
            let first = binding + framed(lower_offer);
            let here = transcript_of(
                binding,
                start + lower,
                start + higher,
                lower_offer,
                higher_offer,
            );
            let there = transcript_of(
                binding,
                start + higher,
                start + lower,
                higher_offer,
                lower_offer,
            );
            &&& first.len() <= here.len() && here.take(first.len() as int) == first
            &&& first.len() <= there.len() && there.take(first.len() as int) == first
            &&& here.skip(first.len() as int) == framed(higher_offer)
        }),
{
    bytes_come_by_their_first_difference(start, lower, higher);
    let first = binding + framed(lower_offer);
    let whole = first + framed(higher_offer);
    assert(whole.take(first.len() as int) =~= first);
    assert(whole.skip(first.len() as int) =~= framed(higher_offer));
}

/// An offer is made exactly with a port and, if any, a printable name; a peer is
/// confirmed exactly under a printable name of at most 255 bytes and with the code.
pub proof fn names_and_codes_are_checked(
    label: Option<Seq<char>>,
    input_port: u16,
    name: Seq<char>,
    code_matches: bool,
)
    ensures
        offer_error(label, input_port) is None <==> input_port > 0 && (label matches Some(text)
            ==> is_label(text)),
        confirm_input_error(name, code_matches) is None <==> is_label(name) && byte_length(name)
            <= 255 && code_matches,
        !code_matches ==> confirm_input_error(name, code_matches) is Some,
{
}

} // verus!
