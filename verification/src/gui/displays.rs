//! Displays of this computer and of those nearby.
use vstd::prelude::*;

use crate::config::{Config, PeerConfig, PeerModel};
use crate::net::{other_ports_are_of_the_same_host, SocketAddress};
use crate::ordered::OrderedMap;
use crate::scan::chars_of;
use crate::text::same_text;

verus! {

/// Displays that a computer announces at most.
pub const MAX_DISPLAYS: usize = 8;

/// Bytes that an announcement holds at most.
pub const MAX_REPORT_BYTES: usize = 768;

/// Addresses of an announcement that are kept.
pub const MAX_REPORT_ADDRESSES: usize = 16;

/// Announcements of other computers that are kept.
pub const MAX_REPORTS: usize = 64;

#[derive(Clone, Copy, Debug, PartialEq, Eq, Structural)]
pub struct Display {
    pub width: u32,
    pub height: u32,
    /// Thousandths of the scale between logical and physical size.
    pub scale_milli: u32,
}

/// The size of a computer's whole desktop.
#[derive(Clone, Copy, Debug, PartialEq, Eq, Structural)]
pub struct Desktop {
    pub width: u32,
    pub height: u32,
}

impl Desktop {
    pub open spec fn is_valid(self) -> bool {
        1 <= self.width <= 16_384 && 1 <= self.height <= 16_384
    }

    pub fn valid(&self) -> (result: bool)
        ensures
            result == self.is_valid(),
    {
        1 <= self.width && self.width <= 16_384 && 1 <= self.height && self.height <= 16_384
    }
}

/// A physical length in logical units, rounded down, but never zero.
pub open spec fn logical_length(physical: u32, scale_milli: u32) -> int {
    let length = physical * 1000 / scale_milli as int;
    if length < 1 {
        1
    } else {
        length
    }
}

impl Display {
    pub open spec fn is_valid(self) -> bool {
        &&& 1 <= self.width <= 16_384
        &&& 1 <= self.height <= 16_384
        &&& 1000 <= self.scale_milli <= 8000
    }

    pub fn valid(&self) -> (result: bool)
        ensures
            result == self.is_valid(),
    {
        1 <= self.width && self.width <= 16_384 && 1 <= self.height && self.height <= 16_384
            && 1000 <= self.scale_milli && self.scale_milli <= 8000
    }

    pub fn logical_size(&self) -> (result: (u32, u32))
        requires
            self.scale_milli > 0,
            self.width * 1000 <= u32::MAX,
            self.height * 1000 <= u32::MAX,
        ensures
            result.0 == logical_length(self.width, self.scale_milli),
            result.1 == logical_length(self.height, self.scale_milli),
    {
        let width: u32 = self.width * 1000 / self.scale_milli;
        let height: u32 = self.height * 1000 / self.scale_milli;
        (
            if width < 1 {
                1
            } else {
                width
            },
            if height < 1 {
                1
            } else {
                height
            },
        )
    }
}

/// The first valid displays, as many as can be announced.
pub open spec fn announced(displays: Seq<Display>) -> Seq<Display>
    decreases displays.len(),
{
    if displays.len() == 0 {
        Seq::empty()
    } else {
        let before = announced(displays.drop_last());
        if displays.last().is_valid() && before.len() < MAX_DISPLAYS {
            before.push(displays.last())
        } else {
            before
        }
    }
}

pub fn announced_displays(displays: &Vec<Display>) -> (result: Vec<Display>)
    ensures
        result@ == announced(displays@),
{
    let mut kept: Vec<Display> = Vec::new();
    let mut at: usize = 0;
    assert(kept@ =~= announced(displays@.take(0)));
    while at < displays.len()
        invariant
            at <= displays@.len(),
            kept@ == announced(displays@.take(at as int)),
        decreases displays@.len() - at,
    {
        assert(displays@.take(at + 1).drop_last() =~= displays@.take(at as int));
        if displays[at].valid() && kept.len() < MAX_DISPLAYS {
            kept.push(displays[at]);
        }
        at = at + 1;
    }
    assert(displays@.take(at as int) =~= displays@);
    kept
}

/// What happens to the announcement of this computer's displays.
#[derive(Clone, Copy, Debug, PartialEq, Eq, Structural)]
pub enum AnnounceStep {
    /// Nothing changed.
    Keep,
    /// What was found is forgotten, and nothing is announced.
    Stop,
    /// What was found is forgotten, and the new displays are announced.
    Restart,
}

fn same_displays(left: &Vec<Display>, right: &Vec<Display>) -> (result: bool)
    ensures
        result == (left@ == right@),
{
    if left.len() != right.len() {
        return false;
    }
    let mut at: usize = 0;
    while at < left.len()
        invariant
            at <= left@.len(),
            left@.len() == right@.len(),
            forall|i: int| 0 <= i < at ==> left@[i] == right@[i],
        decreases left@.len() - at,
    {
        if left[at] != right[at] {
            return false;
        }
        at = at + 1;
    }
    assert(left@ =~= right@);
    true
}

/// Decides about the announcement, given the displays that it announces,
/// whether it runs, the displays to announce now, and whether that is allowed.
pub fn announce_step(
    announced: &Vec<Display>,
    running: bool,
    displays: &Vec<Display>,
    enabled: bool,
) -> (step: AnnounceStep)
    ensures
        step == if announced@ == displays@ && running == enabled {
            AnnounceStep::Keep
        } else if enabled && displays@.len() > 0 {
            AnnounceStep::Restart
        } else {
            AnnounceStep::Stop
        },
{
    if same_displays(announced, displays) && running == enabled {
        AnnounceStep::Keep
    } else if enabled && displays.len() > 0 {
        AnnounceStep::Restart
    } else {
        AnnounceStep::Stop
    }
}

/// What a computer announces of itself. Its addresses are hosts: their port is zero.
#[derive(Debug, PartialEq, Eq)]
pub struct Report {
    pub addresses: Vec<SocketAddress>,
    pub displays: Vec<Display>,
}

/// Some address of the peer is an address of the report, whatever the ports.
pub open spec fn reports_for(report: Report, addresses: Seq<SocketAddress>) -> bool {
    exists|i: int, j: int|
        0 <= i < addresses.len() && 0 <= j < report.addresses@.len() && (
        #[trigger] addresses[i]).host() == (#[trigger] report.addresses@[j]).host()
}

pub fn has_peer_address(report: &Report, peer: &PeerConfig) -> (result: bool)
    ensures
        result == reports_for(*report, peer@.addresses),
{
    let mut i: usize = 0;
    while i < peer.addresses.len()
        invariant
            i <= peer.addresses@.len(),
            forall|k: int, j: int|
                0 <= k < i && 0 <= j < report.addresses@.len() ==> (
                #[trigger] peer.addresses@[k]).host() != (
                #[trigger] report.addresses@[j]).host(),
        decreases peer.addresses@.len() - i,
    {
        let mut j: usize = 0;
        while j < report.addresses.len()
            invariant
                i < peer.addresses@.len(),
                j <= report.addresses@.len(),
                forall|k: int|
                    0 <= k < j ==> peer.addresses@[i as int].host() != (
                    #[trigger] report.addresses@[k]).host(),
            decreases report.addresses@.len() - j,
        {
            if peer.addresses[i].same_host(report.addresses[j]) {
                return true;
            }
            j = j + 1;
        }
        i = i + 1;
    }
    false
}

/// A paired computer has an address of the report.
pub open spec fn claims(
    paired: Map<Seq<char>, PeerModel>,
    report: Report,
    name: Seq<char>,
) -> bool {
    paired.dom().contains(name) && reports_for(report, paired[name].addresses)
}

/// The report belongs to this paired computer and can belong to no other one.
pub open spec fn only_claim(
    paired: Map<Seq<char>, PeerModel>,
    report: Report,
    name: Seq<char>,
) -> bool {
    claims(paired, report, name) && forall|other: Seq<char>| #[trigger]
        claims(paired, report, other) ==> other == name
}

/// The report under `key` is the only one that belongs to the computer.
pub open spec fn sole_report(
    reports: Map<Seq<char>, Report>,
    paired: Map<Seq<char>, PeerModel>,
    name: Seq<char>,
    key: Seq<char>,
) -> bool {
    &&& reports.dom().contains(key)
    &&& only_claim(paired, reports[key], name)
    &&& forall|other: Seq<char>| #[trigger]
        reports.dom().contains(other) && only_claim(paired, reports[other], name) ==> other == key
}

fn is_only_claim(config: &Config, report: &Report, at: usize) -> (result: bool)
    requires
        config.wf(),
        at < config.peers.keys().len(),
    ensures
        result == only_claim(config.paired(), *report, config.peers.keys()[at as int]),
{
    let ghost paired = config.paired();
    let ghost name = config.peers.keys()[at as int];
    proof {
        config.peers.entry_in_map(at as int);
    }
    if !has_peer_address(report, config.peers.value_at(at)) {
        return false;
    }
    let count: usize = config.peers.len();
    let mut i: usize = 0;
    while i < count
        invariant
            config.wf(),
            paired == config.paired(),
            count == config.peers.keys().len(),
            at < count,
            i <= count,
            name == config.peers.keys()[at as int],
            claims(paired, *report, name),
            forall|k: int|
                0 <= k < i && k != at ==> !claims(
                    paired,
                    *report,
                    #[trigger] config.peers.keys()[k],
                ),
        decreases count - i,
    {
        proof {
            config.peers.entry_in_map(i as int);
            config.peers.entry_in_map(at as int);
        }
        if i != at && has_peer_address(report, config.peers.value_at(i)) {
            proof {
                let other = config.peers.keys()[i as int];
                assert(claims(paired, *report, other));
                assert(other != name) by {
                    if i < at {
                        crate::ordered::precedes_is_irreflexive(name, config.peers.by_path());
                    } else {
                        crate::ordered::precedes_is_irreflexive(name, config.peers.by_path());
                    }
                }
            }
            return false;
        }
        i = i + 1;
    }
    assert forall|other: Seq<char>| #[trigger]
        claims(paired, *report, other) implies other == name by {
        assert(config.peers@.contains_key(other));
        let k = config.peers.key_has_position(other);
        assert(config.peers.keys()[k] == other);
    }
    true
}

fn find_sole_report(
    reports: &OrderedMap<Report>,
    config: &Config,
    at: usize,
) -> (result: Option<usize>)
    requires
        reports.wf(),
        config.wf(),
        at < config.peers.keys().len(),
    ensures
        match result {
            Some(found) => found < reports.keys().len() && sole_report(
                reports@,
                config.paired(),
                config.peers.keys()[at as int],
                reports.keys()[found as int],
            ),
            None => forall|key: Seq<char>|
                !#[trigger] sole_report(
                    reports@,
                    config.paired(),
                    config.peers.keys()[at as int],
                    key,
                ),
        },
{
    let ghost paired = config.paired();
    let ghost name = config.peers.keys()[at as int];
    let count: usize = reports.len();
    let mut found: Option<usize> = None;
    let mut i: usize = 0;
    while i < count
        invariant
            reports.wf(),
            config.wf(),
            at < config.peers.keys().len(),
            paired == config.paired(),
            name == config.peers.keys()[at as int],
            count == reports.keys().len(),
            i <= count,
            match found {
                Some(first) => first < i && only_claim(
                    paired,
                    reports.values()[first as int],
                    name,
                ) && forall|k: int|
                    0 <= k < i && k != first ==> !only_claim(
                        paired,
                        #[trigger] reports.values()[k],
                        name,
                    ),
                None => forall|k: int|
                    0 <= k < i ==> !only_claim(paired, #[trigger] reports.values()[k], name),
            },
        decreases count - i,
    {
        proof {
            reports.entry_in_map(i as int);
        }
        if is_only_claim(config, reports.value_at(i), at) {
            if let Some(first) = found {
                proof {
                    reports.entry_in_map(first as int);
                    assert forall|key: Seq<char>|
                        !#[trigger] sole_report(reports@, paired, name, key) by {
                        if sole_report(reports@, paired, name, key) {
                            let one = reports.keys()[first as int];
                            let two = reports.keys()[i as int];
                            assert(reports@.dom().contains(one));
                            assert(reports@.dom().contains(two));
                            assert(one == two);
                            crate::ordered::precedes_is_irreflexive(one, reports.by_path());
                        }
                    }
                }
                return None;
            }
            found = Some(i);
        }
        i = i + 1;
    }
    proof {
        match found {
            Some(first) => {
                reports.entry_in_map(first as int);
                assert forall|other: Seq<char>| #[trigger]
                    reports@.dom().contains(other) && only_claim(
                        paired,
                        reports@[other],
                        name,
                    ) implies other == reports.keys()[first as int] by {
                    let k = reports.key_has_position(other);
                    reports.entry_in_map(k);
                    assert(reports.values()[k] == reports@[other]);
                }
            },
            None => {
                assert forall|key: Seq<char>|
                    !#[trigger] sole_report(reports@, paired, name, key) by {
                    if sole_report(reports@, paired, name, key) {
                        let k = reports.key_has_position(key);
                        reports.entry_in_map(k);
                        assert(reports.values()[k] == reports@[key]);
                    }
                }
            },
        }
    }
    found
}

fn copy_displays(displays: &Vec<Display>) -> (result: Vec<Display>)
    ensures
        result@ == displays@,
{
    let mut copied: Vec<Display> = Vec::new();
    let mut at: usize = 0;
    while at < displays.len()
        invariant
            at <= displays@.len(),
            copied@ =~= displays@.take(at as int),
        decreases displays@.len() - at,
    {
        copied.push(displays[at]);
        at = at + 1;
    }
    copied
}

/// The displays of the paired computers that announce them. A computer without
/// a report, with several, or with one that could be another computer's has
/// none.
pub fn match_reports(reports: &OrderedMap<Report>, config: &Config) -> (result: OrderedMap<
    Vec<Display>,
>)
    requires
        reports.wf(),
        config.wf(),
    ensures
        result.wf(),
        forall|name: Seq<char>| #[trigger]
            result@.dom().contains(name) <==> exists|key: Seq<char>| #[trigger]
                sole_report(reports@, config.paired(), name, key),
        forall|name: Seq<char>, key: Seq<char>| #[trigger]
            sole_report(reports@, config.paired(), name, key) ==> result@[name]@
                == reports@[key].displays@,
{
    let ghost paired = config.paired();
    let mut matches: OrderedMap<Vec<Display>> = OrderedMap::new(false);
    let count: usize = config.peers.len();
    let mut at: usize = 0;
    while at < count
        invariant
            reports.wf(),
            config.wf(),
            matches.wf(),
            paired == config.paired(),
            count == config.peers.keys().len(),
            at <= count,
            forall|name: Seq<char>| #[trigger]
                matches@.dom().contains(name) <==> (exists|k: int|
                    0 <= k < at && #[trigger] config.peers.keys()[k] == name) && (exists|
                    key: Seq<char>,
                | #[trigger]
                    sole_report(reports@, paired, name, key)),
            forall|name: Seq<char>, key: Seq<char>|
                matches@.dom().contains(name) && #[trigger] sole_report(
                    reports@,
                    paired,
                    name,
                    key,
                ) ==> matches@[name]@ == reports@[key].displays@,
        decreases count - at,
    {
        let ghost before = matches@;
        let ghost name = config.peers.keys()[at as int];
        let found = find_sole_report(reports, config, at);
        if let Some(found) = found {
            let displays = copy_displays(&reports.value_at(found).displays);
            matches.insert(config.peers.key_at(at).clone(), displays);
            proof {
                let key = reports.keys()[found as int];
                reports.entry_in_map(found as int);
                assert(sole_report(reports@, paired, name, key));
                assert forall|other: Seq<char>, k: Seq<char>|
                    matches@.dom().contains(other) && #[trigger] sole_report(
                        reports@,
                        paired,
                        other,
                        k,
                    ) implies matches@[other]@ == reports@[k].displays@ by {
                    if other == name {
                        assert(reports@.dom().contains(key));
                        assert(key == k);
                    } else {
                        assert(before.dom().contains(other));
                    }
                }
            }
        }
        proof {
            assert forall|other: Seq<char>| #[trigger]
                matches@.dom().contains(other) <==> (exists|k: int|
                    0 <= k < at + 1 && #[trigger] config.peers.keys()[k] == other) && (exists|
                    key: Seq<char>,
                | #[trigger]
                    sole_report(reports@, paired, other, key)) by {
                let known = exists|k: int|
                    0 <= k < at + 1 && #[trigger] config.peers.keys()[k] == other;
                let earlier = exists|k: int|
                    0 <= k < at && #[trigger] config.peers.keys()[k] == other;
                assert(known == (earlier || other == name)) by {
                    if other == name {
                        assert(config.peers.keys()[at as int] == other);
                    }
                    if earlier {
                        let k = choose|k: int|
                            0 <= k < at && #[trigger] config.peers.keys()[k] == other;
                        assert(config.peers.keys()[k] == other);
                    }
                }
                assert(before.dom().contains(other) <==> earlier && exists|key: Seq<char>|
                 #[trigger]
                    sole_report(reports@, paired, other, key));
                if other == name {
                    if found is Some {
                        assert(sole_report(
                            reports@,
                            paired,
                            name,
                            reports.keys()[found->0 as int],
                        ));
                    }
                }
            }
        }
        at = at + 1;
    }
    proof {
        assert forall|name: Seq<char>| #[trigger]
            matches@.dom().contains(name) <==> exists|key: Seq<char>| #[trigger]
                sole_report(reports@, paired, name, key) by {
            if exists|key: Seq<char>| #[trigger] sole_report(reports@, paired, name, key) {
                let key = choose|key: Seq<char>| #[trigger]
                    sole_report(reports@, paired, name, key);
                assert(claims(paired, reports@[key], name));
                assert(config.peers@.contains_key(name));
                let k = config.peers.key_has_position(name);
                assert(config.peers.keys()[k] == name);
            }
        }
        assert forall|name: Seq<char>, key: Seq<char>| #[trigger]
            sole_report(reports@, paired, name, key) implies matches@[name]@
            == reports@[key].displays@ by {
            assert(matches@.dom().contains(name));
        }
    }
    matches
}

/// Announcements never add a computer: only paired ones have displays.
pub proof fn only_paired_computers_have_displays(
    reports: Map<Seq<char>, Report>,
    paired: Map<Seq<char>, PeerModel>,
    name: Seq<char>,
    key: Seq<char>,
)
    requires
        sole_report(reports, paired, name, key),
    ensures
        paired.dom().contains(name),
        reports_for(reports[key], paired[name].addresses),
{
}

/// Sum of lengths.
pub open spec fn total(sizes: Seq<usize>) -> int
    decreases sizes.len(),
{
    if sizes.len() == 0 {
        0
    } else {
        total(sizes.drop_last()) + sizes.last()
    }
}

proof fn total_grows(sizes: Seq<usize>, at: int)
    requires
        0 <= at <= sizes.len(),
    ensures
        total(sizes.take(at)) <= total(sizes),
    decreases sizes.len(),
{
    if at == sizes.len() {
        assert(sizes.take(at) =~= sizes);
    } else {
        total_grows(sizes.drop_last(), at);
        assert(sizes.drop_last().take(at) =~= sizes.take(at));
    }
}

fn within(sizes: &Vec<usize>, limit: usize) -> (result: bool)
    ensures
        result == (total(sizes@) <= limit),
{
    let mut sum: usize = 0;
    let mut at: usize = 0;
    assert(sizes@.take(0) =~= Seq::empty());
    while at < sizes.len()
        invariant
            at <= sizes@.len(),
            sum <= limit,
            sum == total(sizes@.take(at as int)),
        decreases sizes@.len() - at,
    {
        proof {
            assert(sizes@.take(at + 1).drop_last() =~= sizes@.take(at as int));
            total_grows(sizes@, at + 1);
        }
        if sizes[at] > limit - sum {
            return false;
        }
        sum = sum + sizes[at];
        at = at + 1;
    }
    assert(sizes@.take(at as int) =~= sizes@);
    true
}

pub open spec fn has_suffix(text: Seq<char>, suffix: Seq<char>) -> bool {
    suffix.len() <= text.len() && text.skip(text.len() - suffix.len()) == suffix
}

fn ends_with(text: &str, suffix: &str) -> (result: bool)
    ensures
        result == has_suffix(text@, suffix@),
{
    let chars = chars_of(text);
    let wanted = chars_of(suffix);
    if wanted.len() > chars.len() {
        return false;
    }
    let len: usize = chars.len();
    let start: usize = len - wanted.len();
    let ghost tail = text@.skip(start as int);
    let mut at: usize = 0;
    while at < wanted.len()
        invariant
            at <= wanted@.len(),
            start + wanted@.len() == len == chars@.len(),
            chars@ == text@,
            wanted@ == suffix@,
            tail == text@.skip(start as int),
            forall|i: int| 0 <= i < at ==> tail[i] == wanted@[i],
        decreases wanted@.len() - at,
    {
        if chars[start + at] != wanted[at] {
            assert(tail[at as int] != suffix@[at as int]);
            return false;
        }
        at = at + 1;
    }
    assert(tail =~= suffix@);
    true
}

/// An announcement as it was received. `displays` holds what each of the
/// properties d0, d1 and so on says, as many as there are properties beside
/// the version; `None` is one that is missing or no display.
pub struct Announcement {
    pub full_name: String,
    /// Bytes of each property, its key and its value.
    pub property_sizes: Vec<usize>,
    pub version: Option<String>,
    pub displays: Vec<Option<Display>>,
    pub addresses: Vec<SocketAddress>,
}

impl Announcement {
    /// One display for every property but the version.
    pub open spec fn wf(&self) -> bool {
        self.property_sizes@.len() > 0 ==> self.displays@.len() + 1 == self.property_sizes@.len()
    }

    /// The announcement is of our service, of a reasonable size, of a known
    /// version, and names valid displays only.
    pub open spec fn is_usable(&self) -> bool {
        &&& has_suffix(self.full_name@, "._zflow-display._udp.local."@)
        &&& 2 <= self.property_sizes@.len() <= MAX_DISPLAYS + 1
        &&& total(self.property_sizes@) <= MAX_REPORT_BYTES
        &&& self.version is Some
        &&& self.version->0@ == "1"@
        &&& forall|i: int|
            0 <= i < self.displays@.len() ==> (#[trigger] self.displays@[i]) is Some
                && self.displays@[i]->0.is_valid()
    }
}

pub fn parse_report(announcement: &Announcement) -> (result: Option<Report>)
    requires
        announcement.wf(),
    ensures
        result is Some <==> announcement.is_usable(),
        result matches Some(report) ==> {
            &&& report.displays@.len() == announcement.displays@.len()
            &&& forall|i: int|
                0 <= i < report.displays@.len() ==> announcement.displays@[i] == Some(
                    #[trigger] report.displays@[i],
                )
            &&& report.addresses@ == announcement.addresses@.take(
                if announcement.addresses@.len() < MAX_REPORT_ADDRESSES {
                    announcement.addresses@.len() as int
                } else {
                    MAX_REPORT_ADDRESSES as int
                },
            )
        },
{
    if !ends_with(announcement.full_name.as_str(), "._zflow-display._udp.local.") {
        return None;
    }
    let count: usize = announcement.property_sizes.len();
    if count < 2 || count > MAX_DISPLAYS + 1 || !within(
        &announcement.property_sizes,
        MAX_REPORT_BYTES,
    ) {
        return None;
    }
    match &announcement.version {
        Some(version) => {
            if !same_text(version.as_str(), "1") {
                return None;
            }
        },
        None => return None,
    }
    let mut displays: Vec<Display> = Vec::new();
    let mut at: usize = 0;
    while at < announcement.displays.len()
        invariant
            at <= announcement.displays@.len(),
            displays@.len() == at,
            forall|i: int|
                0 <= i < at ==> announcement.displays@[i] == Some(#[trigger] displays@[i])
                    && displays@[i].is_valid(),
        decreases announcement.displays@.len() - at,
    {
        match announcement.displays[at] {
            Some(display) => {
                if !display.valid() {
                    return None;
                }
                displays.push(display);
            },
            None => return None,
        }
        at = at + 1;
    }
    assert forall|i: int| 0 <= i < announcement.displays@.len() implies (
    #[trigger] announcement.displays@[i]) is Some && announcement.displays@[i]->0.is_valid() by {
        assert(displays@[i].is_valid());
    }
    let mut addresses: Vec<SocketAddress> = Vec::new();
    let mut at: usize = 0;
    while at < announcement.addresses.len() && at < MAX_REPORT_ADDRESSES
        invariant
            at <= announcement.addresses@.len(),
            at <= MAX_REPORT_ADDRESSES,
            addresses@ =~= announcement.addresses@.take(at as int),
        decreases announcement.addresses@.len() - at,
    {
        addresses.push(announcement.addresses[at]);
        at = at + 1;
    }
    Some(Report { addresses, displays })
}

/// A report of this computer itself.
pub open spec fn is_own_report(report: Report, own: Seq<SocketAddress>) -> bool {
    exists|i: int| 0 <= i < report.addresses@.len() && own.contains(#[trigger] report.addresses@[i])
}

/// Keeps a report of another computer, as long as there is room for it or it
/// replaces an earlier one.
pub fn keep_report(
    reports: &mut OrderedMap<Report>,
    name: String,
    report: Report,
    own: &Vec<SocketAddress>,
)
    requires
        old(reports).wf(),
    ensures
        final(reports).wf(),
        final(reports)@ == if !is_own_report(report, own@) && (old(reports).keys().len()
            < MAX_REPORTS || old(reports)@.contains_key(name@)) {
            old(reports)@.insert(name@, report)
        } else {
            old(reports)@
        },
{
    let mut at: usize = 0;
    while at < report.addresses.len()
        invariant
            reports.wf(),
            *reports == *old(reports),
            at <= report.addresses@.len(),
            forall|i: int| 0 <= i < at ==> !own@.contains(#[trigger] report.addresses@[i]),
        decreases report.addresses@.len() - at,
    {
        let mut i: usize = 0;
        while i < own.len()
            invariant
                reports.wf(),
                *reports == *old(reports),
                at < report.addresses@.len(),
                i <= own@.len(),
                forall|k: int| 0 <= k < i ==> own@[k] != report.addresses@[at as int],
            decreases own@.len() - i,
        {
            if own[i] == report.addresses[at] {
                assert(own@.contains(report.addresses@[at as int]));
                return;
            }
            i = i + 1;
        }
        at = at + 1;
    }
    if reports.len() < MAX_REPORTS || reports.contains_key(name.as_str()) {
        reports.insert(name, report);
    }
}

/// A logical length is the physical one divided by the scale, rounded down, but at
/// least one.
pub proof fn logical_lengths_divide_by_the_scale(physical: u32, scale_milli: u32)
    requires
        scale_milli > 0,
    ensures
        logical_length(physical, scale_milli) >= 1,
        physical * 1000 >= scale_milli ==> logical_length(physical, scale_milli) * scale_milli
            <= physical * 1000 < (logical_length(physical, scale_milli) + 1) * scale_milli,
        physical * 1000 < scale_milli ==> logical_length(physical, scale_milli) == 1,
        physical > 0 ==> logical_length(physical, 1000) == physical,
{
    let length = physical * 1000 / scale_milli as int;
    let scale = scale_milli as int;
    let milli = physical * 1000;
    assert(length * scale <= milli < (length + 1) * scale) by (nonlinear_arith)
        requires
            scale > 0,
            milli >= 0,
            length == milli / scale,
    ;
    if milli >= scale {
        assert(length >= 1) by (nonlinear_arith)
            requires
                scale > 0,
                milli >= scale,
                milli < (length + 1) * scale,
        ;
    } else {
        assert(length <= 0) by (nonlinear_arith)
            requires
                scale > 0,
                milli < scale,
                length * scale <= milli,
        ;
    }
}

/// The first eight displays of a proper size and scale are announced, in their order.
pub proof fn the_first_proper_displays_are_announced(displays: Seq<Display>, next: Display)
    ensures
        announced(displays).len() <= 8,
        forall|i: int|
            0 <= i < announced(displays).len() ==> 1 <= (#[trigger] announced(displays)[i]).width
                <= 16_384 && 1 <= announced(displays)[i].height <= 16_384 && 1000
                <= announced(displays)[i].scale_milli <= 8000,
        announced(displays).len() < 8 && 1 <= next.width <= 16_384 && 1 <= next.height <= 16_384
            && 1000 <= next.scale_milli <= 8000 ==> announced(displays.push(next)) == announced(
            displays,
        ).push(next),
        !(announced(displays).len() < 8 && 1 <= next.width <= 16_384 && 1 <= next.height <= 16_384
            && 1000 <= next.scale_milli <= 8000) ==> announced(displays.push(next)) == announced(
            displays,
        ),
        announced(Seq::empty()) == Seq::<Display>::empty(),
    decreases displays.len(),
{
    assert(displays.push(next).drop_last() =~= displays);
    if displays.len() > 0 {
        the_first_proper_displays_are_announced(displays.drop_last(), displays.last());
    }
}

/// A report with addresses of two paired computers is no report of either, and of two
/// reports that are a computer's alone none is taken.
pub proof fn doubtful_reports_are_not_taken(
    reports: Map<Seq<char>, Report>,
    paired: Map<Seq<char>, PeerModel>,
    name: Seq<char>,
    other: Seq<char>,
    key: Seq<char>,
    other_key: Seq<char>,
)
    ensures
        name != other && claims(paired, reports[key], name) && claims(paired, reports[key], other)
            ==> !sole_report(reports, paired, name, key),
        key != other_key && reports.dom().contains(other_key) && only_claim(
            paired,
            reports[other_key],
            name,
        ) ==> !sole_report(reports, paired, name, key),
{
}

/// An announcement is used exactly if it names the service, its version is one, it is
/// small enough, and it holds one to eight displays of a proper size and scale.
pub proof fn announcements_are_used_exactly_so(announcement: Announcement)
    requires
        announcement.wf(),
    ensures
        announcement.is_usable() <==> {
            &&& has_suffix(announcement.full_name@, "._zflow-display._udp.local."@)
            &&& 2 <= announcement.property_sizes@.len() <= 9
            &&& total(announcement.property_sizes@) <= 768
            &&& announcement.version matches Some(version) && version@ == "1"@
            &&& forall|i: int|
                0 <= i < announcement.displays@.len() ==> {
                    let display = #[trigger] announcement.displays@[i];
                    display is Some && 1 <= display->0.width <= 16_384 && 1 <= display->0.height
                        <= 16_384 && 1000 <= display->0.scale_milli <= 8000
                }
        },
        announcement.is_usable() ==> 1 <= announcement.displays@.len() <= 8,
{
    if announcement.is_usable() {
        assert forall|i: int| 0 <= i < announcement.displays@.len() implies {
            let display = #[trigger] announcement.displays@[i];
            display is Some && 1 <= display->0.width <= 16_384 && 1 <= display->0.height <= 16_384
                && 1000 <= display->0.scale_milli <= 8000
        } by {
            assert(announcement.displays@[i]->0.is_valid());
        }
    }
}

/// A text has the suffix that was put behind it, and the sizes of parts add up.
pub proof fn suffixes_and_sizes_add_up(
    text: Seq<char>,
    suffix: Seq<char>,
    sizes: Seq<usize>,
    more: Seq<usize>,
)
    ensures
        has_suffix(text + suffix, suffix),
        has_suffix(text, suffix) ==> text.take(text.len() - suffix.len()) + suffix == text,
        total(sizes + more) == total(sizes) + total(more),
        sizes.len() == 1 ==> total(sizes) == sizes[0],
    decreases more.len(),
{
    assert((text + suffix).skip(text.len() as int) =~= suffix);
    if has_suffix(text, suffix) {
        let start = text.len() - suffix.len();
        assert(text =~= text.take(start) + text.skip(start));
    }
    if more.len() == 0 {
        assert(sizes + more =~= sizes);
    } else {
        suffixes_and_sizes_add_up(text, suffix, sizes, more.drop_last());
        assert((sizes + more).drop_last() =~= sizes + more.drop_last());
    }
    if sizes.len() == 1 {
        assert(total(sizes.drop_last()) == 0);
    }
}

/// A report is of a computer if it names the computer's host, whatever the port, and
/// it is not if it names none of its hosts.
pub proof fn computers_are_known_by_host(
    report: Report,
    addresses: Seq<SocketAddress>,
    address: SocketAddress,
    port: u16,
)
    ensures
        addresses.contains(address) && report.addresses@.contains(address.at_port_spec(port))
            ==> reports_for(report, addresses),
        addresses.contains(address) && report.addresses@.contains(address) ==> reports_for(
            report,
            addresses,
        ),
        reports_for(report, addresses) ==> exists|known: SocketAddress, named: SocketAddress|
            #![trigger addresses.contains(known), report.addresses@.contains(named)]
            addresses.contains(known) && report.addresses@.contains(named) && known.host()
                == named.host(),
{
    if addresses.contains(address) {
        let i = choose|i: int| 0 <= i < addresses.len() && addresses[i] == address;
        if report.addresses@.contains(address.at_port_spec(port)) {
            let j = choose|j: int|
                0 <= j < report.addresses@.len() && report.addresses@[j] == address.at_port_spec(
                    port,
                );
            other_ports_are_of_the_same_host(address, port, port);
            assert(addresses[i].host() == report.addresses@[j].host());
        }
        if report.addresses@.contains(address) {
            let j = choose|j: int|
                0 <= j < report.addresses@.len() && report.addresses@[j] == address;
            assert(addresses[i].host() == report.addresses@[j].host());
        }
    }
    if reports_for(report, addresses) {
        let (i, j) = choose|i: int, j: int|
            0 <= i < addresses.len() && 0 <= j < report.addresses@.len() && (
            #[trigger] addresses[i]).host() == (#[trigger] report.addresses@[j]).host();
        assert(addresses.contains(addresses[i]) && report.addresses@.contains(
            report.addresses@[j],
        ));
    }
}

} // verus!
