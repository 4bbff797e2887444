//! Settings that decisions read.
use vstd::prelude::*;

use crate::lists::{copy_texts, same_texts};
use crate::net::{copy_addresses, same_addresses, SocketAddress};
use crate::ordered::OrderedMap;
use crate::scan::views;
use crate::paths::{path_of, same_path};
use crate::text::{copy_optional_text, same_optional_text, same_text, text_of};

verus! {

/// What a paired computer may do.
#[derive(Clone, Copy, Debug, PartialEq, Eq, Structural)]
pub struct PeerPermissions {
    pub connect: bool,
    pub send_normal: bool,
    pub receive_normal: bool,
    pub inject_prelogin: bool,
}

impl Default for PeerPermissions {
    fn default() -> (result: Self)
        ensures
            result == (PeerPermissions {
                connect: false,
                send_normal: false,
                receive_normal: false,
                inject_prelogin: false,
            }),
    {
        PeerPermissions {
            connect: false,
            send_normal: false,
            receive_normal: false,
            inject_prelogin: false,
        }
    }
}

/// A paired computer: its identity, where it was seen, and what it may do.
#[derive(Debug, PartialEq, Eq)]
pub struct PeerConfig {
    pub spki_der_hex: String,
    pub addresses: Vec<SocketAddress>,
    pub permissions: PeerPermissions,
}

/// A paired computer as mathematical values.
pub struct PeerModel {
    pub spki_der_hex: Seq<char>,
    pub addresses: Seq<SocketAddress>,
    pub permissions: PeerPermissions,
}

impl View for PeerConfig {
    type V = PeerModel;

    open spec fn view(&self) -> PeerModel {
        PeerModel {
            spki_der_hex: self.spki_der_hex@,
            addresses: self.addresses@,
            permissions: self.permissions,
        }
    }
}

impl PeerConfig {
    /// A record for an identity that was seen on an authenticated transport.
    pub fn from_spki(
        spki: &Vec<u8>,
        addresses: Vec<SocketAddress>,
        permissions: PeerPermissions,
    ) -> (result: Self)
        ensures
            result@ == (PeerModel {
                spki_der_hex: crate::identity::hex_text(spki@),
                addresses: addresses@,
                permissions,
            }),
    {
        PeerConfig { spki_der_hex: crate::identity::hex(spki.as_slice()), addresses, permissions }
    }

    pub fn copy(&self) -> (result: Self)
        ensures
            result@ == self@,
    {
        PeerConfig {
            spki_der_hex: self.spki_der_hex.clone(),
            addresses: copy_addresses(&self.addresses),
            permissions: self.permissions,
        }
    }
}

impl PeerConfig {
    pub fn same_as(&self, other: &PeerConfig) -> (result: bool)
        ensures
            result == (self@ == other@),
    {
        same_text(self.spki_der_hex.as_str(), other.spki_der_hex.as_str()) && same_addresses(
            &self.addresses,
            &other.addresses,
        ) && self.permissions == other.permissions
    }
}

/// Names one physical input device. The stable identity is the physical path
/// with the vendor and product; the event path is only a fallback.
#[derive(Debug, PartialEq, Eq)]
pub struct DeviceSelector {
    pub path: String,
    pub name: Option<String>,
    pub phys: Option<String>,
    pub vendor: Option<u16>,
    pub product: Option<u16>,
}

/// A configured selector as mathematical values.
pub struct SelectorModel {
    pub path: Seq<char>,
    pub name: Option<Seq<char>>,
    pub phys: Option<Seq<char>>,
    pub vendor: Option<u16>,
    pub product: Option<u16>,
}

impl View for DeviceSelector {
    type V = SelectorModel;

    open spec fn view(&self) -> SelectorModel {
        SelectorModel {
            path: path_of(self.path@),
            name: text_of(self.name),
            phys: text_of(self.phys),
            vendor: self.vendor,
            product: self.product,
        }
    }
}

impl DeviceSelector {
    pub fn copy(&self) -> (result: Self)
        ensures
            result@ == self@,
            result.path@ == self.path@,
    {
        DeviceSelector {
            path: self.path.clone(),
            name: copy_optional_text(&self.name),
            phys: copy_optional_text(&self.phys),
            vendor: self.vendor,
            product: self.product,
        }
    }
}

impl DeviceSelector {
    pub fn same_as(&self, other: &DeviceSelector) -> (result: bool)
        ensures
            result == (self@ == other@),
    {
        same_path(self.path.as_str(), other.path.as_str()) && same_optional_text(
            &self.name,
            &other.name,
        ) && same_optional_text(&self.phys, &other.phys) && self.vendor == other.vendor
            && self.product == other.product
    }
}

fn same_selectors(left: &Vec<DeviceSelector>, right: &Vec<DeviceSelector>) -> (result: bool)
    ensures
        result == (selector_models(left@) == selector_models(right@)),
{
    if left.len() != right.len() {
        assert(selector_models(left@).len() != selector_models(right@).len());
        return false;
    }
    let mut at: usize = 0;
    while at < left.len()
        invariant
            at <= left@.len(),
            left@.len() == right@.len(),
            forall|i: int| 0 <= i < at ==> (#[trigger] left@[i])@ == right@[i]@,
        decreases left@.len() - at,
    {
        if !left[at].same_as(&right[at]) {
            assert(selector_models(left@)[at as int] != selector_models(right@)[at as int]);
            return false;
        }
        at = at + 1;
    }
    assert(selector_models(left@) =~= selector_models(right@));
    true
}

pub open spec fn selector_models(selectors: Seq<DeviceSelector>) -> Seq<SelectorModel> {
    Seq::new(selectors.len(), |i: int| selectors[i]@)
}

pub fn copy_selectors(selectors: &Vec<DeviceSelector>) -> (result: Vec<DeviceSelector>)
    ensures
        selector_models(result@) == selector_models(selectors@),
{
    let mut copied: Vec<DeviceSelector> = Vec::new();
    let mut at: usize = 0;
    while at < selectors.len()
        invariant
            at <= selectors@.len(),
            copied@.len() == at,
            forall|i: int| 0 <= i < at ==> (#[trigger] copied@[i])@ == selectors@[i]@,
        decreases selectors@.len() - at,
    {
        copied.push(selectors[at].copy());
        at = at + 1;
    }
    assert(selector_models(copied@) =~= selector_models(selectors@));
    copied
}

#[derive(Clone, Copy, Debug, PartialEq, Eq, Structural)]
pub enum PlayoutMode {
    Fixed,
    Adaptive,
}

#[derive(Debug, PartialEq, Eq)]
pub struct DaemonConfig {
    pub state_dir: String,
    pub control_socket: String,
}

#[derive(Debug, PartialEq, Eq)]
pub struct InputConfig {
    pub capture_devices: Vec<DeviceSelector>,
    pub activation_chord: Vec<String>,
    pub escape_chord: Vec<String>,
    pub experimental_touchpad: bool,
    pub allow_prelogin_input: bool,
}

#[derive(Clone, Copy, Debug, PartialEq, Eq, Structural)]
pub struct TransportConfig {
    pub listen: SocketAddress,
    pub discovery: bool,
    pub checkpoint_ms: u64,
    pub lease_ms: u64,
}

/// A share of all arrivals. It is floating point where it is read and written;
/// here it is kept as it was, beside its nearest whole hundredths.
#[derive(Clone, Copy, Debug, PartialEq, Eq, Structural)]
pub struct Share {
    /// The floating-point value, bit by bit.
    pub bits: u64,
    pub hundredths: u8,
}

#[derive(Clone, Copy, Debug, PartialEq, Eq, Structural)]
pub struct PlayoutConfig {
    pub mode: PlayoutMode,
    pub fixed_delay_ms: u64,
    pub minimum_delay_ms: u64,
    pub maximum_delay_ms: u64,
    /// Share of the delay variation that adaptive playout covers.
    pub percentile: Share,
}

pub struct Config {
    pub daemon: DaemonConfig,
    pub input: InputConfig,
    pub transport: TransportConfig,
    pub playout: PlayoutConfig,
    pub peers: OrderedMap<PeerConfig>,
}

/// A configuration as mathematical values.
#[verifier::ext_equal]
pub struct ConfigModel {
    pub state_dir: Seq<char>,
    pub control_socket: Seq<char>,
    pub capture_devices: Seq<SelectorModel>,
    pub activation_chord: Seq<Seq<char>>,
    pub escape_chord: Seq<Seq<char>>,
    pub experimental_touchpad: bool,
    pub allow_prelogin_input: bool,
    pub transport: TransportConfig,
    pub playout: PlayoutConfig,
    pub peers: Map<Seq<char>, PeerModel>,
}

impl View for Config {
    type V = ConfigModel;

    open spec fn view(&self) -> ConfigModel {
        ConfigModel {
            state_dir: self.daemon.state_dir@,
            control_socket: self.daemon.control_socket@,
            capture_devices: selector_models(self.input.capture_devices@),
            activation_chord: views(self.input.activation_chord@),
            escape_chord: views(self.input.escape_chord@),
            experimental_touchpad: self.input.experimental_touchpad,
            allow_prelogin_input: self.input.allow_prelogin_input,
            transport: self.transport,
            playout: self.playout,
            peers: self.paired(),
        }
    }
}

pub open spec fn peer_models(peers: Map<Seq<char>, PeerConfig>) -> Map<Seq<char>, PeerModel> {
    peers.map_values(|peer: PeerConfig| peer@)
}

impl Config {
    pub open spec fn wf(&self) -> bool {
        self.peers.wf()
    }

    /// Paired computers by name.
    pub open spec fn paired(&self) -> Map<Seq<char>, PeerModel> {
        peer_models(self.peers@)
    }

    pub fn same_as(&self, other: &Config) -> (result: bool)
        requires
            self.wf(),
            other.wf(),
        ensures
            result == (self@ == other@),
    {
        same_text(
            self.daemon.state_dir.as_str(),
            other.daemon.state_dir.as_str(),
        ) && same_text(
            self.daemon.control_socket.as_str(),
            other.daemon.control_socket.as_str(),
        ) && same_selectors(
            &self.input.capture_devices,
            &other.input.capture_devices,
        ) && same_texts(
            &self.input.activation_chord,
            &other.input.activation_chord,
        ) && same_texts(&self.input.escape_chord, &other.input.escape_chord)
            && self.input.experimental_touchpad == other.input.experimental_touchpad
            && self.input.allow_prelogin_input == other.input.allow_prelogin_input
            && self.transport == other.transport && self.playout == other.playout && same_peers(
            &self.peers,
            &other.peers,
        )
    }

    pub fn copy(&self) -> (result: Self)
        requires
            self.wf(),
        ensures
            result.wf(),
            result@ == self@,
    {
        Config {
            daemon: DaemonConfig {
                state_dir: self.daemon.state_dir.clone(),
                control_socket: self.daemon.control_socket.clone(),
            },
            input: InputConfig {
                capture_devices: copy_selectors(&self.input.capture_devices),
                activation_chord: copy_texts(&self.input.activation_chord),
                escape_chord: copy_texts(&self.input.escape_chord),
                experimental_touchpad: self.input.experimental_touchpad,
                allow_prelogin_input: self.input.allow_prelogin_input,
            },
            transport: self.transport,
            playout: self.playout,
            peers: copy_peers(&self.peers),
        }
    }
}

/// Every peer of the left map is in the right one, with the same values.
fn peers_included(left: &OrderedMap<PeerConfig>, right: &OrderedMap<PeerConfig>) -> (result: bool)
    requires
        left.wf(),
        right.wf(),
    ensures
        result == peer_models(left@).submap_of(peer_models(right@)),
{
    let ghost a = peer_models(left@);
    let ghost b = peer_models(right@);
    let count: usize = left.len();
    let mut at: usize = 0;
    while at < count
        invariant
            left.wf(),
            right.wf(),
            a == peer_models(left@),
            b == peer_models(right@),
            count == left.keys().len(),
            at <= count,
            forall|i: int|
                0 <= i < at ==> b.contains_pair(#[trigger] left.keys()[i], left.values()[i]@),
        decreases count - at,
    {
        proof {
            left.entry_in_map(at as int);
        }
        let ghost name = left.keys()[at as int];
        assert(a.contains_pair(name, left.values()[at as int]@));
        match right.get(left.key_at(at).as_str()) {
            Some(peer) => {
                assert(b.contains_pair(name, peer@));
                if !left.value_at(at).same_as(peer) {
                    assert(a.dom().contains(name));
                    return false;
                }
            },
            None => {
                assert(a.dom().contains(name) && !b.dom().contains(name));
                return false;
            },
        }
        at = at + 1;
    }
    assert forall|name: Seq<char>| a.dom().contains(name) implies #[trigger] b.dom().contains(name)
        && a[name] == b[name] by {
        assert(left@.contains_key(name));
        let k = left.key_has_position(name);
        assert(b.contains_pair(left.keys()[k], left.values()[k]@));
    }
    true
}

pub fn same_peers(left: &OrderedMap<PeerConfig>, right: &OrderedMap<PeerConfig>) -> (result: bool)
    requires
        left.wf(),
        right.wf(),
    ensures
        result == (peer_models(left@) == peer_models(right@)),
{
    let result = peers_included(left, right) && peers_included(right, left);
    proof {
        let a = peer_models(left@);
        let b = peer_models(right@);
        if result {
            assert forall|name: Seq<char>| a.dom().contains(name) == #[trigger] b.dom().contains(
                name,
            ) by {
                if b.dom().contains(name) {
                    assert(b.submap_of(a));
                    assert(a.dom().contains(name));
                }
                if a.dom().contains(name) {
                    assert(a.submap_of(b));
                    assert(b.dom().contains(name));
                }
            }
            assert(a.dom() =~= b.dom());
            assert(a =~= b);
        }
    }
    result
}

pub fn copy_peers(peers: &OrderedMap<PeerConfig>) -> (result: OrderedMap<PeerConfig>)
    requires
        peers.wf(),
    ensures
        result.wf(),
        peer_models(result@) == peer_models(peers@),
{
    let mut copied: OrderedMap<PeerConfig> = OrderedMap::new(false);
    let count: usize = peers.len();
    let mut at: usize = 0;
    while at < count
        invariant
            peers.wf(),
            copied.wf(),
            count == peers.keys().len(),
            at <= count,
            forall|i: int|
                0 <= i < at ==> peer_models(copied@).contains_pair(
                    #[trigger] peers.keys()[i],
                    peers.values()[i]@,
                ),
            forall|name: Seq<char>| #[trigger]
                peer_models(copied@).contains_key(name) ==> exists|i: int|
                    0 <= i < at && #[trigger] peers.keys()[i] == name,
        decreases count - at,
    {
        let ghost before = copied@;
        let peer = peers.value_at(at).copy();
        let ghost model = peer@;
        copied.insert(peers.key_at(at).clone(), peer);
        proof {
            let key = peers.keys()[at as int];
            assert(peer_models(copied@) =~= peer_models(before).insert(key, model));
            assert forall|i: int| 0 <= i < at + 1 implies peer_models(copied@).contains_pair(
                #[trigger] peers.keys()[i],
                peers.values()[i]@,
            ) by {
                peers.entry_in_map(i);
                peers.entry_in_map(at as int);
                if i < at {
                    assert(peer_models(before).contains_pair(peers.keys()[i], peers.values()[i]@));
                }
            }
            assert forall|name: Seq<char>| #[trigger]
                peer_models(copied@).contains_key(name) implies exists|i: int|
                0 <= i < at + 1 && #[trigger] peers.keys()[i] == name by {
                if name == key {
                    assert(peers.keys()[at as int] == name);
                } else {
                    assert(peer_models(before).contains_key(name));
                }
            }
        }
        at = at + 1;
    }
    proof {
        let source = peer_models(peers@);
        let target = peer_models(copied@);
        assert forall|name: Seq<char>| #[trigger]
            target.dom().contains(name) == source.dom().contains(name) && (
        source.dom().contains(name) ==> target[name] == source[name]) by {
            if target.contains_key(name) {
                let i = choose|i: int| 0 <= i < count && #[trigger] peers.keys()[i] == name;
                peers.entry_in_map(i);
            }
            if source.contains_key(name) {
                let i = peers.key_has_position(name);
                assert(target.contains_pair(peers.keys()[i], peers.values()[i]@));
            }
        }
        assert(target.dom() =~= source.dom());
        assert(target =~= source);
    }
    copied
}

} // verus!
