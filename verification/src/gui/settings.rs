//! Settings as they are edited, and the command that starts a source.
use vstd::prelude::*;

use crate::address_text::{
    address_of, address_text, address_text_is_plain, address_texts, addresses_round_trip,
    is_address_char, read_address, write_address, write_addresses,
};
use crate::config::{Config, ConfigModel, PeerConfig, PeerModel, TransportConfig};
use crate::lists::{join, join_with};
use crate::net::SocketAddress;
use crate::ordered::OrderedMap;
use crate::scan::{drop_space, is_space, skip_space, split_whitespace, trim, trimmed, views, words};

verus! {

#[derive(Clone, Copy, Debug, PartialEq, Eq, Structural)]
pub enum AddressError {
    /// The text is no IP address and port.
    Malformed,
    ZeroPort,
}

/// The address that a field holds.
pub open spec fn address_field(text: Seq<char>) -> Result<SocketAddress, AddressError> {
    match address_of(trimmed(text)) {
        None => Err(AddressError::Malformed),
        Some(address) => if address.port_spec() == 0 {
            Err(AddressError::ZeroPort)
        } else {
            Ok(address)
        },
    }
}

pub fn parse_address(text: &str) -> (result: Result<SocketAddress, AddressError>)
    ensures
        result == address_field(text@),
{
    match read_address(trim(text)) {
        None => Err(AddressError::Malformed),
        Some(address) => if address.port() == 0 {
            Err(AddressError::ZeroPort)
        } else {
            Ok(address)
        },
    }
}

/// The addresses that words are, or the first error.
pub open spec fn word_addresses(found: Seq<Seq<char>>) -> Result<Seq<SocketAddress>, AddressError>
    decreases found.len(),
{
    if found.len() == 0 {
        Ok(Seq::empty())
    } else {
        match word_addresses(found.drop_last()) {
            Err(error) => Err(error),
            Ok(addresses) => match address_field(found.last()) {
                Err(error) => Err(error),
                Ok(address) => Ok(addresses.push(address)),
            },
        }
    }
}

proof fn first_error_stays(found: Seq<Seq<char>>, count: int)
    requires
        0 <= count <= found.len(),
        word_addresses(found.take(count)) is Err,
    ensures
        word_addresses(found) == word_addresses(found.take(count)),
    decreases found.len(),
{
    if count == found.len() {
        assert(found.take(count) =~= found);
    } else {
        assert(found.drop_last().take(count) =~= found.take(count));
        first_error_stays(found.drop_last(), count);
    }
}

fn parse_addresses(text: &str) -> (result: Result<Vec<SocketAddress>, AddressError>)
    ensures
        match result {
            Ok(addresses) => word_addresses(words(text@)) == Ok::<
                Seq<SocketAddress>,
                AddressError,
            >(addresses@),
            Err(error) => word_addresses(words(text@)) == Err::<Seq<SocketAddress>, AddressError>(
                error,
            ),
        },
{
    let found = split_whitespace(text);
    let ghost all = words(text@);
    let mut addresses: Vec<SocketAddress> = Vec::new();
    let mut at: usize = 0;
    assert(all.take(0) =~= Seq::empty());
    assert(addresses@ =~= Seq::empty());
    while at < found.len()
        invariant
            at <= found@.len(),
            all == views(found@),
            all == words(text@),
            word_addresses(all.take(at as int)) == Ok::<Seq<SocketAddress>, AddressError>(
                addresses@,
            ),
        decreases found@.len() - at,
    {
        assert(all.take(at + 1).drop_last() =~= all.take(at as int));
        assert(all.take(at + 1).last() == found@[at as int]@);
        match parse_address(found[at].as_str()) {
            Ok(address) => addresses.push(address),
            Err(error) => {
                proof {
                    first_error_stays(all, at + 1);
                }
                return Err(error);
            },
        }
        at = at + 1;
    }
    assert(all.take(at as int) =~= all);
    Ok(addresses)
}

/// Addresses as they are edited: one on each line.
pub open spec fn addresses_field(addresses: Seq<SocketAddress>) -> Seq<char> {
    join_with(address_texts(addresses), "\n"@)
}

/// The settings that are edited as text.
pub struct TextFields {
    pub listen: String,
    pub activation: String,
    pub escape: String,
    pub state_dir: String,
    pub control_socket: String,
    /// Addresses of each paired computer.
    pub addresses: OrderedMap<String>,
}

/// Text fields as mathematical values.
#[verifier::ext_equal]
pub struct FieldsModel {
    pub listen: Seq<char>,
    pub activation: Seq<char>,
    pub escape: Seq<char>,
    pub state_dir: Seq<char>,
    pub control_socket: Seq<char>,
    pub addresses: Map<Seq<char>, Seq<char>>,
}

impl View for TextFields {
    type V = FieldsModel;

    open spec fn view(&self) -> FieldsModel {
        FieldsModel {
            listen: self.listen@,
            activation: self.activation@,
            escape: self.escape@,
            state_dir: self.state_dir@,
            control_socket: self.control_socket@,
            addresses: self.addresses@.map_values(|text: String| text@),
        }
    }
}

/// The text fields of a configuration.
pub open spec fn fields_of(config: ConfigModel) -> FieldsModel {
    FieldsModel {
        listen: address_text(config.transport.listen),
        activation: join_with(config.activation_chord, " "@),
        escape: join_with(config.escape_chord, " "@),
        state_dir: config.state_dir,
        control_socket: config.control_socket,
        addresses: config.peers.map_values(|peer: PeerModel| addresses_field(peer.addresses)),
    }
}

#[derive(Debug, PartialEq, Eq)]
pub enum FieldError {
    Listen(AddressError),
    EmptyPath,
    /// The addresses of this computer.
    Peer(String, AddressError),
}

/// What is wrong with the fields that every configuration has.
pub open spec fn common_error(fields: FieldsModel) -> Option<FieldError> {
    match address_field(fields.listen) {
        Err(error) => Some(FieldError::Listen(error)),
        Ok(_) => if trimmed(fields.state_dir).len() == 0 || trimmed(fields.control_socket).len()
            == 0 {
            Some(FieldError::EmptyPath)
        } else {
            None
        },
    }
}

/// The addresses entered for a computer that the configuration has are wrong.
pub open spec fn peer_error(fields: FieldsModel, config: ConfigModel, name: Seq<char>) -> Option<
    AddressError,
> {
    if config.peers.dom().contains(name) && fields.addresses.dom().contains(name) {
        match word_addresses(words(fields.addresses[name])) {
            Err(error) => Some(error),
            Ok(_) => None,
        }
    } else {
        None
    }
}

pub open spec fn edited_peer(fields: FieldsModel, name: Seq<char>, peer: PeerModel) -> PeerModel {
    if fields.addresses.dom().contains(name) {
        PeerModel { addresses: word_addresses(words(fields.addresses[name]))->Ok_0, ..peer }
    } else {
        peer
    }
}

/// A configuration with the fields' values, where they are all valid.
pub open spec fn edited(fields: FieldsModel, config: ConfigModel) -> ConfigModel {
    ConfigModel {
        state_dir: fields.state_dir,
        control_socket: fields.control_socket,
        activation_chord: words(fields.activation),
        escape_chord: words(fields.escape),
        transport: TransportConfig {
            listen: address_field(fields.listen)->Ok_0,
            ..config.transport
        },
        peers: Map::new(
            |name: Seq<char>| config.peers.dom().contains(name),
            |name: Seq<char>| edited_peer(fields, name, config.peers[name]),
        ),
        ..config
    }
}

impl TextFields {
    pub open spec fn wf(&self) -> bool {
        self.addresses.wf()
    }

    pub fn from_config(config: &Config) -> (result: Self)
        requires
            config.wf(),
        ensures
            result.wf(),
            result@ == fields_of(config@),
    {
        let mut addresses: OrderedMap<String> = OrderedMap::new(false);
        let count: usize = config.peers.len();
        let mut at: usize = 0;
        let ghost wanted = fields_of(config@).addresses;
        while at < count
            invariant
                config.wf(),
                addresses.wf(),
                count == config.peers.keys().len(),
                at <= count,
                wanted == fields_of(config@).addresses,
                forall|name: Seq<char>| #[trigger]
                    addresses@.dom().contains(name) <==> exists|i: int|
                        0 <= i < at && #[trigger] config.peers.keys()[i] == name,
                forall|name: Seq<char>| #[trigger]
                    addresses@.dom().contains(name) ==> addresses@[name]@ == wanted[name],
            decreases count - at,
        {
            let ghost before = addresses@;
            let ghost name = config.peers.keys()[at as int];
            proof {
                config.peers.entry_in_map(at as int);
            }
            let lines = write_addresses(&config.peers.value_at(at).addresses);
            let text = join(&lines, "\n");
            assert(text@ == wanted[name]);
            addresses.insert(config.peers.key_at(at).clone(), text);
            proof {
                assert forall|other: Seq<char>| #[trigger]
                    addresses@.dom().contains(other) <==> exists|i: int|
                        0 <= i < at + 1 && #[trigger] config.peers.keys()[i] == other by {
                    if before.dom().contains(other) {
                        let i = choose|i: int|
                            0 <= i < at && #[trigger] config.peers.keys()[i] == other;
                        assert(config.peers.keys()[i] == other);
                    }
                    if other == name {
                        assert(config.peers.keys()[at as int] == other);
                    }
                }
                assert forall|other: Seq<char>| #[trigger]
                    addresses@.dom().contains(other) implies addresses@[other]@
                    == wanted[other] by {
                    if other != name {
                        assert(before.dom().contains(other));
                    }
                }
            }
            at = at + 1;
        }
        let result = TextFields {
            listen: write_address(config.transport.listen),
            activation: join(&config.input.activation_chord, " "),
            escape: join(&config.input.escape_chord, " "),
            state_dir: config.daemon.state_dir.clone(),
            control_socket: config.daemon.control_socket.clone(),
            addresses,
        };
        proof {
            let written = result@.addresses;
            assert forall|name: Seq<char>| #[trigger]
                written.dom().contains(name) == wanted.dom().contains(name) && (
            wanted.dom().contains(name) ==> written[name] == wanted[name]) by {
                assert(written.dom().contains(name) == addresses@.dom().contains(name));
                if wanted.dom().contains(name) {
                    let k = config.peers.key_has_position(name);
                    assert(config.peers.keys()[k] == name);
                    assert(addresses@.dom().contains(name));
                } else if addresses@.dom().contains(name) {
                    let k = choose|k: int|
                        0 <= k < count && #[trigger] config.peers.keys()[k] == name;
                    config.peers.entry_in_map(k);
                }
            }
            assert(written.dom() =~= wanted.dom());
            assert(written =~= wanted);
        }
        result
    }

    /// A configuration with the fields' values, or what is wrong with them:
    /// first what every configuration has, then the computers in their order.
    pub fn apply(&self, config: &Config) -> (result: Result<Config, FieldError>)
        requires
            self.wf(),
            config.wf(),
        ensures
            match common_error(self@) {
                Some(error) => result == Err::<Config, FieldError>(error),
                None => match result {
                    Ok(candidate) => {
                        &&& candidate.wf()
                        &&& candidate@ == edited(self@, config@)
                        &&& forall|name: Seq<char>|
                            #[trigger] peer_error(self@, config@, name) is None
                    },
                    Err(FieldError::Peer(name, error)) => {
                        &&& peer_error(self@, config@, name@) == Some(error)
                        &&& exists|at: int|
                            0 <= at < self.addresses.keys().len()
                                && #[trigger] self.addresses.keys()[at] == name@ && forall|
                                i: int,
                            |
                                0 <= i < at ==> peer_error(
                                    self@,
                                    config@,
                                    #[trigger] self.addresses.keys()[i],
                                ) is None
                    },
                    Err(_) => false,
                },
            },
    {
        let listen = match parse_address(self.listen.as_str()) {
            Ok(listen) => listen,
            Err(error) => return Err(FieldError::Listen(error)),
        };
        if trim(self.state_dir.as_str()).unicode_len() == 0 || trim(
            self.control_socket.as_str(),
        ).unicode_len() == 0 {
            return Err(FieldError::EmptyPath);
        }
        let mut candidate = config.copy();
        candidate.transport.listen = listen;
        candidate.input.activation_chord = split_whitespace(self.activation.as_str());
        candidate.input.escape_chord = split_whitespace(self.escape.as_str());
        candidate.daemon.state_dir = self.state_dir.clone();
        candidate.daemon.control_socket = self.control_socket.clone();
        let ghost base = candidate@;
        let ghost texts = self@.addresses;
        let count: usize = self.addresses.len();
        let mut at: usize = 0;
        while at < count
            invariant
                self.wf(),
                candidate.wf(),
                count == self.addresses.keys().len(),
                at <= count,
                texts == self@.addresses,
                base.peers == config@.peers,
                base == (ConfigModel { peers: base.peers, ..edited(self@, config@) }),
                common_error(self@) is None,
                candidate@ == (ConfigModel { peers: candidate@.peers, ..base }),
                candidate@.peers.dom() == base.peers.dom(),
                forall|name: Seq<char>| #[trigger]
                    candidate@.peers.dom().contains(name) ==> candidate@.peers[name] == if (exists|
                        i: int,
                    |
                        0 <= i < at && #[trigger] self.addresses.keys()[i] == name) {
                        edited_peer(self@, name, base.peers[name])
                    } else {
                        base.peers[name]
                    },
                forall|i: int|
                    0 <= i < at ==> peer_error(
                        self@,
                        config@,
                        #[trigger] self.addresses.keys()[i],
                    ) is None,
            decreases count - at,
        {
            let ghost before = candidate@.peers;
            let ghost key = self.addresses.keys()[at as int];
            let name: &str = self.addresses.key_at(at).as_str();
            proof {
                self.addresses.entry_in_map(at as int);
            }
            assert(texts.dom().contains(key) && texts[key] == self.addresses.values()[at as int]@);
            let known = match candidate.peers.get(name) {
                Some(peer) => Some((peer.spki_der_hex.clone(), peer.permissions)),
                None => None,
            };
            assert(known is Some == base.peers.dom().contains(key)) by {
                assert(candidate@.peers.dom().contains(key) == candidate.peers@.contains_key(key));
            }
            if let Some((spki_der_hex, permissions)) = known {
                assert(candidate.peers@.contains_key(key));
                let ghost current = candidate@.peers[key];
                assert(current == base.peers[key]) by {
                    if exists|i: int| 0 <= i < at && #[trigger] self.addresses.keys()[i] == key {
                        let i = choose|i: int|
                            0 <= i < at && #[trigger] self.addresses.keys()[i] == key;
                        crate::ordered::precedes_is_irreflexive(key, self.addresses.by_path());
                    }
                }
                match parse_addresses(self.addresses.value_at(at).as_str()) {
                    Ok(addresses) => {
                        let peer = PeerConfig { spki_der_hex, addresses, permissions };
                        let ghost model = peer@;
                        assert(model == edited_peer(self@, key, base.peers[key]));
                        candidate.peers.insert(name.to_owned(), peer);
                        assert(candidate@.peers =~= before.insert(key, model));
                    },
                    Err(error) => {
                        assert(peer_error(self@, config@, key) == Some(error));
                        return Err(FieldError::Peer(name.to_owned(), error));
                    },
                }
            }
            proof {
                assert(candidate@.peers.dom() =~= base.peers.dom());
                assert forall|other: Seq<char>| #[trigger]
                    candidate@.peers.dom().contains(other) implies candidate@.peers[other] == if (
                exists|i: int| 0 <= i < at + 1 && #[trigger] self.addresses.keys()[i] == other) {
                    edited_peer(self@, other, base.peers[other])
                } else {
                    base.peers[other]
                } by {
                    let earlier = exists|i: int|
                        0 <= i < at && #[trigger] self.addresses.keys()[i] == other;
                    let known_now = exists|i: int|
                        0 <= i < at + 1 && #[trigger] self.addresses.keys()[i] == other;
                    assert(known_now == (earlier || other == key)) by {
                        if other == key {
                            assert(self.addresses.keys()[at as int] == other);
                        }
                        if earlier {
                            let i = choose|i: int|
                                0 <= i < at && #[trigger] self.addresses.keys()[i] == other;
                            assert(self.addresses.keys()[i] == other);
                        }
                    }
                    assert(before.dom().contains(other));
                }
            }
            at = at + 1;
        }
        proof {
            let wanted = edited(self@, config@);
            assert forall|name: Seq<char>| #[trigger]
                candidate@.peers.dom().contains(name) implies candidate@.peers[name]
                == wanted.peers[name] by {
                if texts.dom().contains(name) {
                    assert(self.addresses@.contains_key(name));
                    let k = self.addresses.key_has_position(name);
                    assert(self.addresses.keys()[k] == name);
                } else if exists|i: int|
                    0 <= i < at && #[trigger] self.addresses.keys()[i] == name {
                    let i = choose|i: int|
                        0 <= i < at && #[trigger] self.addresses.keys()[i] == name;
                    self.addresses.entry_in_map(i);
                }
            }
            assert(candidate@.peers.dom() =~= wanted.peers.dom());
            assert(candidate@.peers =~= wanted.peers);
            assert forall|name: Seq<char>| #[trigger]
                peer_error(self@, config@, name) is None by {
                if texts.dom().contains(name) {
                    assert(self.addresses@.contains_key(name));
                    let k = self.addresses.key_has_position(name);
                    assert(self.addresses.keys()[k] == name);
                }
            }
        }
        Ok(candidate)
    }
}

/// Text without white space.
pub open spec fn is_word(text: Seq<char>) -> bool {
    text.len() > 0 && forall|i: int| 0 <= i < text.len() ==> !is_space(#[trigger] text[i])
}

proof fn a_word_behind_space(text: Seq<char>, word: Seq<char>, space: char)
    requires
        is_space(space),
        is_word(word),
    ensures
        words(text + seq![space] + word) == words(text).push(word),
        words(word) == seq![word],
    decreases word.len(),
{
    let whole = text + seq![space] + word;
    let earlier = whole.drop_last();
    let last = word.last();
    assert(!is_space(word[word.len() - 1]));
    assert(whole.last() == last);
    if word.len() == 1 {
        assert(word =~= seq![last]);
        assert(earlier =~= text.push(space));
        assert(earlier.drop_last() =~= text);
        assert(earlier.last() == space);
        assert(words(earlier) == words(text));
        assert(words(whole) == words(text).push(seq![last]));
        assert(word.drop_last() =~= Seq::empty());
        assert(words(Seq::<char>::empty()) =~= Seq::empty());
        assert(words(word) =~= seq![word]);
    } else {
        let shorter = word.drop_last();
        assert forall|i: int| 0 <= i < shorter.len() implies !is_space(#[trigger] shorter[i]) by {
            assert(!is_space(word[i]));
        }
        a_word_behind_space(text, shorter, space);
        assert(earlier =~= text + seq![space] + shorter);
        assert(earlier.last() == word[word.len() - 2]);
        assert(word =~= shorter.push(last));
        let before = words(text).push(shorter);
        assert(before.drop_last() =~= words(text));
        assert(words(whole) =~= words(text).push(word));
        assert(seq![shorter].drop_last() =~= Seq::<Seq<char>>::empty());
        assert(shorter.last() == word[word.len() - 2]);
        assert(words(word) =~= seq![word]);
    }
}

proof fn words_of_joined(parts: Seq<Seq<char>>, space: char)
    requires
        is_space(space),
        forall|i: int| 0 <= i < parts.len() ==> is_word(#[trigger] parts[i]),
    ensures
        words(join_with(parts, seq![space])) == parts,
    decreases parts.len(),
{
    if parts.len() == 0 {
        assert(parts =~= Seq::empty());
    } else {
        let last = parts.last();
        assert(is_word(parts[parts.len() - 1]));
        let before = parts.drop_last();
        assert forall|i: int| 0 <= i < before.len() implies is_word(#[trigger] before[i]) by {
            assert(is_word(parts[i]));
        }
        words_of_joined(before, space);
        a_word_behind_space(join_with(before, seq![space]), last, space);
        assert(before.push(last) =~= parts);
        if parts.len() == 1 {
            assert(parts =~= seq![last]);
        }
    }
}

proof fn words_are_trimmed(text: Seq<char>)
    requires
        is_word(text),
    ensures
        trimmed(text) == text,
{
    assert(!is_space(text[0]));
    assert(!is_space(text[text.len() - 1]));
    assert(skip_space(text, 0) == 0);
    assert(drop_space(text, text.len() as int, 0) == text.len());
    assert(text.subrange(0, text.len() as int) =~= text);
}

/// An address that can be entered: with a port, and without a flow label.
pub open spec fn can_be_entered(address: SocketAddress) -> bool {
    &&& address.port_spec() != 0
    &&& address matches SocketAddress::V6 { flowinfo, .. } ==> flowinfo == 0
}

proof fn address_field_reads_back(address: SocketAddress)
    requires
        can_be_entered(address),
    ensures
        address_field(address_text(address)) == Ok::<SocketAddress, AddressError>(address),
        is_word(address_text(address)),
{
    let text = address_text(address);
    address_text_is_plain(address);
    assert forall|i: int| 0 <= i < text.len() implies !is_space(#[trigger] text[i]) by {
        assert(is_address_char(text[i]));
    }
    words_are_trimmed(text);
    addresses_round_trip(address);
}

proof fn words_read_back(addresses: Seq<SocketAddress>)
    requires
        forall|i: int| 0 <= i < addresses.len() ==> can_be_entered(#[trigger] addresses[i]),
    ensures
        word_addresses(address_texts(addresses)) == Ok::<Seq<SocketAddress>, AddressError>(
            addresses,
        ),
        forall|i: int|
            0 <= i < addresses.len() ==> is_word(#[trigger] address_texts(addresses)[i]),
    decreases addresses.len(),
{
    let texts = address_texts(addresses);
    if addresses.len() == 0 {
        assert(addresses =~= Seq::empty());
    } else {
        let before = addresses.drop_last();
        assert forall|i: int| 0 <= i < before.len() implies can_be_entered(
            #[trigger] before[i],
        ) by {
            assert(can_be_entered(addresses[i]));
        }
        words_read_back(before);
        assert(can_be_entered(addresses[addresses.len() - 1]));
        address_field_reads_back(addresses.last());
        assert(texts.drop_last() =~= address_texts(before));
        assert(before.push(addresses.last()) =~= addresses);
        assert forall|i: int| 0 <= i < addresses.len() implies is_word(#[trigger] texts[i]) by {
            if i < before.len() {
                assert(is_word(address_texts(before)[i]));
                assert(texts[i] == address_texts(before)[i]);
            }
        }
    }
}

proof fn addresses_field_reads_back(addresses: Seq<SocketAddress>)
    requires
        forall|i: int| 0 <= i < addresses.len() ==> can_be_entered(#[trigger] addresses[i]),
    ensures
        word_addresses(words(addresses_field(addresses))) == Ok::<
            Seq<SocketAddress>,
            AddressError,
        >(addresses),
{
    reveal_strlit("\n");
    assert("\n"@ =~= seq!['\n']);
    words_read_back(addresses);
    words_of_joined(address_texts(addresses), '\n');
}

/// A configuration whose values can all be entered as text.
pub open spec fn is_editable(config: ConfigModel) -> bool {
    &&& can_be_entered(config.transport.listen)
    &&& forall|i: int|
        0 <= i < config.activation_chord.len() ==> is_word(#[trigger] config.activation_chord[i])
    &&& forall|i: int|
        0 <= i < config.escape_chord.len() ==> is_word(#[trigger] config.escape_chord[i])
    &&& trimmed(config.state_dir).len() > 0
    &&& trimmed(config.control_socket).len() > 0
    &&& forall|name: Seq<char>, i: int|
        config.peers.dom().contains(name) && 0 <= i < config.peers[name].addresses.len()
            ==> can_be_entered(#[trigger] config.peers[name].addresses[i])
}

/// Showing a configuration's values and applying them unchanged gives the
/// configuration back.
pub proof fn fields_round_trip(config: ConfigModel)
    requires
        is_editable(config),
    ensures
        common_error(fields_of(config)) is None,
        forall|name: Seq<char>| #[trigger] peer_error(fields_of(config), config, name) is None,
        edited(fields_of(config), config) == config,
{
    let fields = fields_of(config);
    reveal_strlit(" ");
    assert(" "@ =~= seq![' ']);
    address_field_reads_back(config.transport.listen);
    words_of_joined(config.activation_chord, ' ');
    words_of_joined(config.escape_chord, ' ');
    let after = edited(fields, config);
    assert forall|name: Seq<char>| config.peers.dom().contains(name) implies (
    #[trigger] after.peers[name]) == config.peers[name] && word_addresses(
        words(fields.addresses[name]),
    ) is Ok by {
        let peer = config.peers[name];
        assert forall|i: int| 0 <= i < peer.addresses.len() implies can_be_entered(
            #[trigger] peer.addresses[i],
        ) by {
            assert(can_be_entered(config.peers[name].addresses[i]));
        }
        addresses_field_reads_back(peer.addresses);
    }
    assert forall|name: Seq<char>| #[trigger] peer_error(fields, config, name) is None by {
        if config.peers.dom().contains(name) {
            assert(after.peers[name] == config.peers[name]);
        }
    }
    assert(after.peers.dom() =~= config.peers.dom());
    assert(after.peers =~= config.peers);
    assert(after =~= config);
}

/// Every field shows the setting that it is named after, and an edited field changes
/// that setting alone.
pub proof fn fields_stand_for_their_setting(
    config: ConfigModel,
    fields: FieldsModel,
    text: Seq<char>,
)
    requires
        is_editable(config),
    ensures
        words(fields_of(config).activation) == config.activation_chord,
        words(fields_of(config).escape) == config.escape_chord,
        address_of(fields_of(config).listen) == Some(config.transport.listen),
        edited((FieldsModel { activation: text, ..fields }), config) == (ConfigModel {
            activation_chord: words(text),
            ..edited(fields, config)
        }),
        edited((FieldsModel { escape: text, ..fields }), config) == (ConfigModel {
            escape_chord: words(text),
            ..edited(fields, config)
        }),
        edited((FieldsModel { state_dir: text, ..fields }), config) == (ConfigModel {
            state_dir: text,
            ..edited(fields, config)
        }),
        edited((FieldsModel { control_socket: text, ..fields }), config) == (ConfigModel {
            control_socket: text,
            ..edited(fields, config)
        }),
        edited(fields, config).peers.dom() == config.peers.dom(),
{
    reveal_strlit(" ");
    assert(" "@ =~= seq![' ']);
    words_of_joined(config.activation_chord, ' ');
    words_of_joined(config.escape_chord, ' ');
    address_field_reads_back(config.transport.listen);
    addresses_round_trip(config.transport.listen);
    let base = edited(fields, config).peers;
    assert(edited((FieldsModel { activation: text, ..fields }), config).peers =~= base);
    assert(edited((FieldsModel { escape: text, ..fields }), config).peers =~= base);
    assert(edited((FieldsModel { state_dir: text, ..fields }), config).peers =~= base);
    assert(edited((FieldsModel { control_socket: text, ..fields }), config).peers =~= base);
    assert(base.dom() =~= config.peers.dom());
}

/// Fields are accepted exactly if the address can be listened on and no path is blank.
pub proof fn fields_are_accepted_exactly_so(fields: FieldsModel)
    ensures
        common_error(fields) is None <==> (address_of(trimmed(fields.listen)) matches Some(address)
            && address.port_spec() != 0) && trimmed(fields.state_dir).len() > 0 && trimmed(
            fields.control_socket,
        ).len() > 0,
        common_error(fields) == Some(FieldError::EmptyPath) ==> trimmed(fields.state_dir).len()
            == 0 || trimmed(fields.control_socket).len() == 0,
{
}

/// The addresses of a field are those of its words, in their order; one bad word
/// spoils the field.
pub proof fn every_word_is_an_address(found: Seq<Seq<char>>, at: int)
    requires
        0 <= at < found.len(),
    ensures
        word_addresses(found) is Ok ==> word_addresses(found)->Ok_0.len() == found.len()
            && address_of(trimmed(found[at])) == Some(word_addresses(found)->Ok_0[at])
            && word_addresses(found)->Ok_0[at].port_spec() != 0,
        address_field(found[at]) is Err ==> word_addresses(found) is Err,
        word_addresses(found) is Err ==> exists|i: int|
            0 <= i < found.len() && address_field(#[trigger] found[i]) is Err,
    decreases found.len(),
{
    let earlier = found.drop_last();
    if earlier.len() > 0 {
        every_word_is_an_address(earlier, if at < earlier.len() {
            at
        } else {
            0
        });
        if word_addresses(earlier) is Err {
            let i = choose|i: int|
                0 <= i < earlier.len() && address_field(#[trigger] earlier[i]) is Err;
            assert(found[i] == earlier[i]);
        }
    } else {
        assert(word_addresses(earlier) == Ok::<Seq<SocketAddress>, AddressError>(Seq::empty()));
    }
    assert(found[found.len() - 1] == found.last());
}

} // verus!
