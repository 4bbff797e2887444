//! Network addresses as plain values.
use vstd::prelude::*;

verus! {

/// Address and port of an internet endpoint.
#[allow(inconsistent_fields)]
#[derive(Clone, Copy, Debug, PartialEq, Eq, Structural)]
pub enum SocketAddress {
    V4 { ip: u32, port: u16 },
    V6 { ip: u128, port: u16, flowinfo: u32, scope_id: u32 },
}

/// Where an IPv4 address sits inside IPv6: `::ffff:0:0/96`.
pub const MAPPED_PREFIX: u128 = 0xffff;

impl SocketAddress {
    pub open spec fn port_spec(self) -> u16 {
        match self {
            SocketAddress::V4 { port, .. } => port,
            SocketAddress::V6 { port, .. } => port,
        }
    }

    pub fn port(self) -> (result: u16)
        ensures
            result == self.port_spec(),
    {
        match self {
            SocketAddress::V4 { port, .. } => port,
            SocketAddress::V6 { port, .. } => port,
        }
    }

    /// The same host with another port and no flow or scope.
    pub open spec fn at_port_spec(self, port: u16) -> SocketAddress {
        match self {
            SocketAddress::V4 { ip, .. } => SocketAddress::V4 { ip, port },
            SocketAddress::V6 { ip, .. } => SocketAddress::V6 {
                ip,
                port,
                flowinfo: 0,
                scope_id: 0,
            },
        }
    }

    pub fn at_port(self, port: u16) -> (result: SocketAddress)
        ensures
            result == self.at_port_spec(port),
    {
        match self {
            SocketAddress::V4 { ip, .. } => SocketAddress::V4 { ip, port },
            SocketAddress::V6 { ip, .. } => SocketAddress::V6 {
                ip,
                port,
                flowinfo: 0,
                scope_id: 0,
            },
        }
    }

    /// The host as one number, with IPv4 addresses inside IPv6 told apart from
    /// nothing else: an IPv4-mapped IPv6 address is its IPv4 address.
    pub open spec fn host(self) -> (bool, u128) {
        match self {
            SocketAddress::V4 { ip, .. } => (false, ip as u128),
            SocketAddress::V6 { ip, .. } => if ip / 0x1_0000_0000 == MAPPED_PREFIX {
                (false, (ip % 0x1_0000_0000) as u128)
            } else {
                (true, ip)
            },
        }
    }

    pub fn canonical_host(self) -> (result: (bool, u128))
        ensures
            result == self.host(),
    {
        match self {
            SocketAddress::V4 { ip, .. } => (false, ip as u128),
            SocketAddress::V6 { ip, .. } => if ip / 0x1_0000_0000 == MAPPED_PREFIX {
                (false, ip % 0x1_0000_0000)
            } else {
                (true, ip)
            },
        }
    }

    pub fn same_host(self, other: SocketAddress) -> (result: bool)
        ensures
            result == (self.host() == other.host()),
    {
        let (left_wide, left) = self.canonical_host();
        let (right_wide, right) = other.canonical_host();
        left_wide == right_wide && left == right
    }

    /// Order of addresses: IPv4 first, then by address, port, flow and scope.
    pub open spec fn before(self, other: SocketAddress) -> bool {
        match (self, other) {
            (SocketAddress::V4 { .. }, SocketAddress::V6 { .. }) => true,
            (SocketAddress::V6 { .. }, SocketAddress::V4 { .. }) => false,
            (SocketAddress::V4 { ip: a, port: p }, SocketAddress::V4 { ip: b, port: q }) => a < b
                || (a == b && p < q),
            (
                SocketAddress::V6 { ip: a, port: p, flowinfo: f, scope_id: s },
                SocketAddress::V6 { ip: b, port: q, flowinfo: g, scope_id: t },
            ) => a < b || (a == b && (p < q || (p == q && (f < g || (f == g && s < t))))),
        }
    }

    pub fn is_before(self, other: SocketAddress) -> (result: bool)
        ensures
            result == self.before(other),
    {
        match (self, other) {
            (SocketAddress::V4 { .. }, SocketAddress::V6 { .. }) => true,
            (SocketAddress::V6 { .. }, SocketAddress::V4 { .. }) => false,
            (SocketAddress::V4 { ip: a, port: p }, SocketAddress::V4 { ip: b, port: q }) => a < b
                || (a == b && p < q),
            (
                SocketAddress::V6 { ip: a, port: p, flowinfo: f, scope_id: s },
                SocketAddress::V6 { ip: b, port: q, flowinfo: g, scope_id: t },
            ) => a < b || (a == b && (p < q || (p == q && (f < g || (f == g && s < t))))),
        }
    }
}

pub open spec fn addresses_ordered(addresses: Seq<SocketAddress>) -> bool {
    forall|i: int, j: int|
        0 <= i < j < addresses.len() ==> (#[trigger] addresses[i]).before(#[trigger] addresses[j])
}

/// The same addresses in order, each once.
pub fn sorted_addresses(addresses: &Vec<SocketAddress>) -> (result: Vec<SocketAddress>)
    ensures
        addresses_ordered(result@),
        result@.to_set() == addresses@.to_set(),
{
    let mut sorted: Vec<SocketAddress> = Vec::new();
    let mut next: usize = 0;
    assert(sorted@.to_set() =~= addresses@.take(0).to_set());
    while next < addresses.len()
        invariant
            next <= addresses@.len(),
            addresses_ordered(sorted@),
            sorted@.to_set() == addresses@.take(next as int).to_set(),
        decreases addresses@.len() - next,
    {
        let address = addresses[next];
        let mut at: usize = 0;
        while at < sorted.len() && sorted[at].is_before(address)
            invariant
                at <= sorted@.len(),
                forall|i: int| 0 <= i < at ==> (#[trigger] sorted@[i]).before(address),
            decreases sorted@.len() - at,
        {
            at = at + 1;
        }
        let ghost before = sorted@;
        let ghost shorter = addresses@.take(next as int);
        let ghost longer = addresses@.take(next + 1);
        assert(longer =~= shorter.push(address));
        if at == sorted.len() || sorted[at] != address {
            proof {
                if at < before.len() {
                    assert(address.before(before[at as int]));
                }
                assert forall|i: int, j: int|
                    0 <= i < j < before.len() + 1 implies (#[trigger] before.insert(
                    at as int,
                    address,
                )[i]).before(#[trigger] before.insert(at as int, address)[j]) by {
                    if i == at && j > at + 1 {
                        assert(before[at as int].before(before[j - 1]));
                    }
                    if i < at && j > at {
                        assert(before[i].before(before[j - 1]));
                    }
                }
            }
            sorted.insert(at, address);
        }
        assert(sorted@.to_set() =~= longer.to_set()) by {
            assert forall|a: SocketAddress| sorted@.to_set().contains(a)
                == longer.to_set().contains(a) by {
                assert(before.to_set().contains(a) == shorter.to_set().contains(a));
                if before.contains(a) {
                    let k = choose|k: int| 0 <= k < before.len() && before[k] == a;
                    if sorted@.len() > before.len() && k >= at {
                        assert(sorted@[k + 1] == a);
                    } else {
                        assert(sorted@[k] == a);
                    }
                }
                if shorter.contains(a) {
                    let k = choose|k: int| 0 <= k < shorter.len() && shorter[k] == a;
                    assert(longer[k] == a);
                }
                if a == address {
                    assert(longer[next as int] == a);
                    assert(sorted@[at as int] == a);
                }
                if sorted@.contains(a) && a != address {
                    let k = choose|k: int| 0 <= k < sorted@.len() && sorted@[k] == a;
                    if sorted@.len() > before.len() && k > at {
                        assert(before[k - 1] == a);
                    } else {
                        assert(before[k] == a);
                    }
                }
                if longer.contains(a) && a != address {
                    let k = choose|k: int| 0 <= k < longer.len() && longer[k] == a;
                    assert(shorter[k] == a);
                }
            }
        }
        next = next + 1;
    }
    assert(addresses@.take(next as int) =~= addresses@);
    sorted
}

pub fn copy_addresses(addresses: &Vec<SocketAddress>) -> (result: Vec<SocketAddress>)
    ensures
        result@ == addresses@,
{
    let mut copied: Vec<SocketAddress> = Vec::new();
    let mut at: usize = 0;
    while at < addresses.len()
        invariant
            at <= addresses@.len(),
            copied@ =~= addresses@.take(at as int),
        decreases addresses@.len() - at,
    {
        copied.push(addresses[at]);
        at = at + 1;
    }
    assert(copied@ =~= addresses@);
    copied
}

pub fn same_addresses(left: &Vec<SocketAddress>, right: &Vec<SocketAddress>) -> (result: bool)
    ensures
        result == (left@ == right@),
{
    if left.len() != right.len() {
        return false;
    }
    let mut at: usize = 0;
    while at < left.len()
        invariant
            at <= left@.len(),
            left@.len() == right@.len(),
            forall|i: int| 0 <= i < at ==> left@[i] == right@[i],
        decreases left@.len() - at,
    {
        if left[at] != right[at] {
            return false;
        }
        at = at + 1;
    }
    assert(left@ =~= right@);
    true
}

/// Two addresses are of the same host exactly if they hold the same IP address,
/// where an IPv4 address and the IPv6 address that maps it are one.
pub proof fn hosts_are_the_same_exactly_so(first: SocketAddress, second: SocketAddress)
    ensures
        (first.host() == second.host()) == match (first, second) {
            (SocketAddress::V4 { ip: a, .. }, SocketAddress::V4 { ip: b, .. }) => a == b,
            (SocketAddress::V6 { ip: a, .. }, SocketAddress::V6 { ip: b, .. }) => a == b,
            (SocketAddress::V4 { ip: a, .. }, SocketAddress::V6 { ip: b, .. }) => b
                == 0xffff_0000_0000 + a,
            (SocketAddress::V6 { ip: a, .. }, SocketAddress::V4 { ip: b, .. }) => a
                == 0xffff_0000_0000 + b,
        },
{
}

/// An address at another port is of the same host and at that port, and says
/// nothing else.
pub proof fn other_ports_are_of_the_same_host(address: SocketAddress, port: u16, other: u16)
    ensures
        address.at_port_spec(port).host() == address.host(),
        address.at_port_spec(port).port_spec() == port,
        address.at_port_spec(port) is V4 == address is V4,
        address.at_port_spec(other).at_port_spec(port) == address.at_port_spec(port),
        address.at_port_spec(port) matches SocketAddress::V6 { flowinfo, scope_id, .. } ==> flowinfo
            == 0 && scope_id == 0,
{
}

/// Addresses are in a strict order: no address is before itself, of two different
/// ones exactly one is before the other, and what is before an earlier one is before
/// a later one.
pub proof fn addresses_are_in_a_strict_order(
    first: SocketAddress,
    second: SocketAddress,
    third: SocketAddress,
)
    ensures
        !first.before(first),
        first != second ==> first.before(second) != second.before(first),
        first.before(second) && second.before(third) ==> first.before(third),
{
}

/// IPv4 addresses come first; addresses of one kind come by IP address, and those of
/// one host by port.
pub proof fn addresses_come_by_host_and_port(first: SocketAddress, second: SocketAddress)
    requires
        first.before(second),
    ensures
        second is V4 ==> first is V4,
        match (first, second) {
            (SocketAddress::V4 { ip: a, .. }, SocketAddress::V4 { ip: b, .. }) => a <= b,
            (SocketAddress::V6 { ip: a, .. }, SocketAddress::V6 { ip: b, .. }) => a <= b,
            _ => true,
        },
        first is V4 == second is V4 && first.host() == second.host() ==> first.port_spec()
            <= second.port_spec(),
{
}

} // verus!
