//! Addresses as text, such as `192.0.2.1:43119` and `[2001:db8::1]:43119`.
use vstd::prelude::*;

use crate::identity::{hex_digit, hex_digit_text};
use crate::lists::{
    a_part_is_a_piece, free_of, join, join_with, joined_pieces_are_the_text, pieces_of_joined_parts,
};
use crate::net::SocketAddress;
use crate::scan::{
    decimal, decimal_round_trips, decimal_text, digit_char, digit_of, digits_value, parse_number,
    pieces, split_on, views,
};
use crate::text::same_text;

verus! {

/// A number written in digits alone.
pub open spec fn plain_number(text: Seq<char>, radix: int, maximum: int) -> Option<int> {
    if text.len() == 0 {
        None
    } else {
        match digits_value(text, radix) {
            Some(value) => if value <= maximum {
                Some(value)
            } else {
                None
            },
            None => None,
        }
    }
}

proof fn sign_is_no_digit(text: Seq<char>, radix: int)
    requires
        text.len() > 0,
        text[0] == '+',
        radix <= 36,
    ensures
        digits_value(text, radix) is None,
    decreases text.len(),
{
    assert(digit_of('+', radix) is None);
    if text.len() > 1 {
        assert(text.drop_last()[0] == '+');
        sign_is_no_digit(text.drop_last(), radix);
    } else {
        assert(text.last() == '+');
    }
}

fn parse_plain(text: &str, radix: u64, maximum: u64) -> (result: Option<u64>)
    requires
        2 <= radix <= 16,
        maximum <= 0xffff_ffff,
    ensures
        match result {
            Some(value) => plain_number(text@, radix as int, maximum as int) == Some(value as int),
            None => plain_number(text@, radix as int, maximum as int) is None,
        },
{
    let len: usize = text.unicode_len();
    if len > 0 && text.get_char(0) == '+' {
        proof {
            sign_is_no_digit(text@, radix as int);
        }
        return None;
    }
    parse_number(text, radix, maximum)
}

/// The digits of a number are digits.
proof fn decimal_is_digits(value: nat)
    ensures
        forall|i: int|
            0 <= i < decimal_text(value).len() ==> '0' <= #[trigger] decimal_text(value)[i] <= '9',
    decreases value,
{
    let text = decimal_text(value);
    if value >= 10 {
        decimal_is_digits(value / 10);
        let before = decimal_text(value / 10);
        assert forall|i: int| 0 <= i < text.len() implies '0' <= #[trigger] text[i] <= '9' by {
            if i < before.len() {
                assert('0' <= before[i] <= '9');
            } else {
                assert(text[i] == digit_char((value % 10) as int));
            }
        }
    } else {
        assert forall|i: int| 0 <= i < text.len() implies '0' <= #[trigger] text[i] <= '9' by {
            assert(text[i] == digit_char(value as int));
        }
    }
}

proof fn decimal_is_free_of(value: nat, separator: char)
    requires
        !('0' <= separator <= '9'),
    ensures
        free_of(decimal_text(value), separator),
{
    decimal_is_digits(value);
}

/// Numbers with the same digits are the same.
proof fn decimal_is_injective(first: nat, second: nat)
    requires
        decimal_text(first) == decimal_text(second),
    ensures
        first == second,
{
    decimal_round_trips(first);
    decimal_round_trips(second);
}

/// The four numbers of an IPv4 address.
pub open spec fn octets(ip: u32) -> Seq<nat> {
    seq![
        (ip / 256 / 256 / 256) as nat,
        (ip / 256 / 256 % 256) as nat,
        (ip / 256 % 256) as nat,
        (ip % 256) as nat,
    ]
}

pub open spec fn octet_texts(ip: u32) -> Seq<Seq<char>> {
    octets(ip).map_values(|octet: nat| decimal_text(octet))
}

/// An IPv4 address in text: four numbers with points between them.
pub open spec fn ipv4_text(ip: u32) -> Seq<char> {
    join_with(octet_texts(ip), seq!['.'])
}

proof fn octet_texts_are_free_of(ip: u32, separator: char)
    requires
        !('0' <= separator <= '9'),
    ensures
        forall|i: int| 0 <= i < 4 ==> free_of(#[trigger] octet_texts(ip)[i], separator),
{
    assert forall|i: int| 0 <= i < 4 implies free_of(
        #[trigger] octet_texts(ip)[i],
        separator,
    ) by {
        decimal_is_free_of(octets(ip)[i], separator);
    }
}

proof fn ipv4_pieces(ip: u32)
    ensures
        pieces(ipv4_text(ip), '.') == octet_texts(ip),
{
    octet_texts_are_free_of(ip, '.');
    pieces_of_joined_parts(octet_texts(ip), '.');
}

proof fn ipv4_text_is_injective(first: u32, second: u32)
    requires
        ipv4_text(first) == ipv4_text(second),
    ensures
        first == second,
{
    ipv4_pieces(first);
    ipv4_pieces(second);
    assert forall|i: int| 0 <= i < 4 implies octets(first)[i] == octets(second)[i] by {
        assert(octet_texts(first)[i] == octet_texts(second)[i]);
        decimal_is_injective(octets(first)[i], octets(second)[i]);
    }
    assert(octets(first)[0] == octets(second)[0]);
    assert(octets(first)[1] == octets(second)[1]);
    assert(octets(first)[2] == octets(second)[2]);
    assert(octets(first)[3] == octets(second)[3]);
}

/// The IPv4 address that a text is.
pub open spec fn ipv4_of(text: Seq<char>) -> Option<u32> {
    if exists|ip: u32| text == #[trigger] ipv4_text(ip) {
        Some(choose|ip: u32| text == #[trigger] ipv4_text(ip))
    } else {
        None
    }
}

proof fn ipv4_of_text(ip: u32)
    ensures
        ipv4_of(ipv4_text(ip)) == Some(ip),
{
    let found = choose|other: u32| ipv4_text(ip) == #[trigger] ipv4_text(other);
    ipv4_text_is_injective(ip, found);
}

fn parse_octet(text: &str) -> (result: Option<u32>)
    ensures
        match result {
            Some(octet) => octet < 256 && text@ == decimal_text(octet as nat),
            None => forall|octet: nat| octet < 256 ==> text@ != #[trigger] decimal_text(octet),
        },
{
    match parse_plain(text, 10, 255) {
        Some(value) => {
            if same_text(decimal(value).as_str(), text) {
                Some(value as u32)
            } else {
                proof {
                    assert forall|octet: nat| octet < 256 implies text@ != #[trigger] decimal_text(
                        octet,
                    ) by {
                        decimal_round_trips(octet);
                    }
                }
                None
            }
        },
        None => {
            proof {
                assert forall|octet: nat| octet < 256 implies text@ != #[trigger] decimal_text(
                    octet,
                ) by {
                    decimal_round_trips(octet);
                }
            }
            None
        },
    }
}

proof fn octets_of(a: u32, b: u32, c: u32, d: u32)
    requires
        a < 256,
        b < 256,
        c < 256,
        d < 256,
    ensures
        octets((((a * 256 + b) * 256 + c) * 256 + d) as u32) == seq![
            a as nat,
            b as nat,
            c as nat,
            d as nat,
        ],
{
    let ip = (((a * 256 + b) * 256 + c) * 256 + d) as u32;
    assert(ip / 256 == (a * 256 + b) * 256 + c && ip % 256 == d);
    assert(ip / 256 / 256 == a * 256 + b && ip / 256 % 256 == c);
    assert(ip / 256 / 256 / 256 == a && ip / 256 / 256 % 256 == b);
    assert(octets(ip) =~= seq![a as nat, b as nat, c as nat, d as nat]);
}

proof fn four_octets_are_an_address(text: Seq<char>, a: u32, b: u32, c: u32, d: u32)
    requires
        a < 256,
        b < 256,
        c < 256,
        d < 256,
        pieces(text, '.') == seq![
            decimal_text(a as nat),
            decimal_text(b as nat),
            decimal_text(c as nat),
            decimal_text(d as nat),
        ],
    ensures
        ipv4_of(text) == Some((((a * 256 + b) * 256 + c) * 256 + d) as u32),
{
    let ip = (((a * 256 + b) * 256 + c) * 256 + d) as u32;
    octets_of(a, b, c, d);
    assert(octet_texts(ip) =~= pieces(text, '.'));
    joined_pieces_are_the_text(text, '.');
    ipv4_of_text(ip);
}

/// A piece that is no number below 256 makes a text no address.
proof fn wrong_octet(text: Seq<char>, at: int)
    requires
        pieces(text, '.').len() == 4,
        0 <= at < 4,
        forall|octet: nat| octet < 256 ==> pieces(text, '.')[at] != #[trigger] decimal_text(octet),
    ensures
        ipv4_of(text) is None,
{
    assert forall|ip: u32| text != #[trigger] ipv4_text(ip) by {
        if text == ipv4_text(ip) {
            ipv4_pieces(ip);
            assert(octets(ip)[at] < 256);
            assert(octet_texts(ip)[at] == decimal_text(octets(ip)[at]));
        }
    }
}

pub fn parse_ipv4(text: &str) -> (result: Option<u32>)
    ensures
        result == ipv4_of(text@),
{
    let parts = split_on(text, '.');
    let ghost split = pieces(text@, '.');
    if parts.len() != 4 {
        proof {
            assert forall|ip: u32| text@ != #[trigger] ipv4_text(ip) by {
                ipv4_pieces(ip);
                assert(split.len() == parts@.len());
            }
        }
        return None;
    }
    assert(split[0] == parts@[0]@ && split[1] == parts@[1]@ && split[2] == parts@[2]@ && split[3]
        == parts@[3]@);
    let a: u32 = match parse_octet(parts[0].as_str()) {
        Some(octet) => octet,
        None => {
            proof {
                wrong_octet(text@, 0);
            }
            return None;
        },
    };
    let b: u32 = match parse_octet(parts[1].as_str()) {
        Some(octet) => octet,
        None => {
            proof {
                wrong_octet(text@, 1);
            }
            return None;
        },
    };
    let c: u32 = match parse_octet(parts[2].as_str()) {
        Some(octet) => octet,
        None => {
            proof {
                wrong_octet(text@, 2);
            }
            return None;
        },
    };
    let d: u32 = match parse_octet(parts[3].as_str()) {
        Some(octet) => octet,
        None => {
            proof {
                wrong_octet(text@, 3);
            }
            return None;
        },
    };
    proof {
        assert(split =~= seq![
            decimal_text(a as nat),
            decimal_text(b as nat),
            decimal_text(c as nat),
            decimal_text(d as nat),
        ]);
        four_octets_are_an_address(text@, a, b, c, d);
    }
    Some(((a * 256 + b) * 256 + c) * 256 + d)
}

pub fn write_ipv4(ip: u32) -> (result: String)
    ensures
        result@ == ipv4_text(ip),
{
    let parts = vec![
        decimal((ip / 256 / 256 / 256) as u64),
        decimal((ip / 256 / 256 % 256) as u64),
        decimal((ip / 256 % 256) as u64),
        decimal((ip % 256) as u64),
    ];
    assert(views(parts@) =~= octet_texts(ip));
    proof {
        reveal_strlit(".");
        assert("."@ =~= seq!['.']);
    }
    join(&parts, ".")
}

/// The number that 16-bit groups spell, the most significant first.
pub open spec fn groups_value(groups: Seq<u16>) -> nat
    decreases groups.len(),
{
    if groups.len() == 0 {
        0
    } else {
        groups_value(groups.drop_last()) * 65536 + groups.last() as nat
    }
}

/// The lowest 16-bit groups of a number.
pub open spec fn groups_of(value: nat, count: nat) -> Seq<u16>
    decreases count,
{
    if count == 0 {
        Seq::empty()
    } else {
        groups_of(value / 65536, (count - 1) as nat).push((value % 65536) as u16)
    }
}

/// Numbers below this fit into so many groups.
pub open spec fn group_limit(count: nat) -> nat
    decreases count,
{
    if count == 0 {
        1
    } else {
        65536 * group_limit((count - 1) as nat)
    }
}

proof fn value_of_groups(value: nat, count: nat)
    requires
        value < group_limit(count),
    ensures
        groups_value(groups_of(value, count)) == value,
        groups_of(value, count).len() == count,
    decreases count,
{
    if count > 0 {
        value_of_groups(value / 65536, (count - 1) as nat);
        let groups = groups_of(value, count);
        assert(groups.drop_last() =~= groups_of(value / 65536, (count - 1) as nat));
    }
}

proof fn groups_of_value(groups: Seq<u16>)
    ensures
        groups_of(groups_value(groups), groups.len()) == groups,
        groups_value(groups) < group_limit(groups.len()),
    decreases groups.len(),
{
    if groups.len() > 0 {
        groups_of_value(groups.drop_last());
        let value = groups_value(groups);
        let high = groups_value(groups.drop_last());
        assert(value / 65536 == high && value % 65536 == groups.last());
        assert(groups =~= groups.drop_last().push(groups.last()));
    } else {
        assert(groups =~= Seq::empty());
    }
}

proof fn eight_groups_hold_an_address()
    ensures
        group_limit(8) == 0x1_0000_0000_0000_0000_0000_0000_0000_0000,
{
    reveal_with_fuel(group_limit, 9);
}

/// A group in hexadecimal, of one to four digits.
pub open spec fn hex_group(text: Seq<char>) -> Option<u16> {
    if 1 <= text.len() <= 4 {
        match digits_value(text, 16) {
            Some(value) => Some(value as u16),
            None => None,
        }
    } else {
        None
    }
}

/// The groups that texts are, if each is one.
pub open spec fn all_groups(parts: Seq<Seq<char>>) -> Option<Seq<u16>>
    decreases parts.len(),
{
    if parts.len() == 0 {
        Some(Seq::empty())
    } else {
        match (all_groups(parts.drop_last()), hex_group(parts.last())) {
            (Some(groups), Some(group)) => Some(groups.push(group)),
            _ => None,
        }
    }
}

pub open spec fn ipv4_groups(ip: u32) -> Seq<u16> {
    seq![(ip / 65536) as u16, (ip % 65536) as u16]
}

/// Groups with colons between them. Where `mixed`, an IPv4 address may stand
/// for the last two.
pub open spec fn group_list(text: Seq<char>, mixed: bool) -> Option<Seq<u16>> {
    let parts = pieces(text, ':');
    if text.len() == 0 {
        Some(Seq::empty())
    } else if mixed && ipv4_of(parts.last()) is Some {
        match all_groups(parts.drop_last()) {
            Some(groups) => Some(groups + ipv4_groups(ipv4_of(parts.last())->0)),
            None => None,
        }
    } else {
        all_groups(parts)
    }
}

/// Two colons stand at a place.
pub open spec fn gap_at(text: Seq<char>, at: int) -> bool {
    0 <= at && at + 1 < text.len() && text[at] == ':' && text[at + 1] == ':'
}

pub open spec fn first_gap(text: Seq<char>, at: int) -> bool {
    gap_at(text, at) && forall|other: int| 0 <= other < at ==> !#[trigger] gap_at(text, other)
}

pub open spec fn zero_groups(count: int) -> Seq<u16> {
    Seq::new(count as nat, |i: int| 0u16)
}

/// The eight groups of an IPv6 address. Two colons stand for the zeros that are
/// missing, at least one.
pub open spec fn ipv6_groups(text: Seq<char>) -> Option<Seq<u16>> {
    if exists|at: int| first_gap(text, at) {
        let at = choose|at: int| first_gap(text, at);
        match (group_list(text.take(at), false), group_list(text.skip(at + 2), true)) {
            (Some(head), Some(tail)) => if head.len() + tail.len() <= 7 {
                Some(head + zero_groups(8 - head.len() - tail.len()) + tail)
            } else {
                None
            },
            _ => None,
        }
    } else {
        match group_list(text, true) {
            Some(groups) => if groups.len() == 8 {
                Some(groups)
            } else {
                None
            },
            None => None,
        }
    }
}

/// The IPv6 address that a text is.
pub open spec fn ipv6_of(text: Seq<char>) -> Option<u128> {
    match ipv6_groups(text) {
        Some(groups) => Some(groups_value(groups) as u128),
        None => None,
    }
}

proof fn digits_are_bounded(text: Seq<char>, count: nat)
    requires
        text.len() <= count,
        digits_value(text, 16) is Some,
    ensures
        0 <= digits_value(text, 16)->0 < hex_limit(count),
    decreases text.len(), count,
{
    if text.len() > 0 {
        digits_are_bounded(text.drop_last(), (count - 1) as nat);
    } else if count > 0 {
        digits_are_bounded(text, (count - 1) as nat);
    }
}

/// Numbers of so many hexadecimal digits are below this.
spec fn hex_limit(count: nat) -> nat
    decreases count,
{
    if count == 0 {
        1
    } else {
        16 * hex_limit((count - 1) as nat)
    }
}

fn parse_group(text: &str) -> (result: Option<u16>)
    ensures
        result == hex_group(text@),
{
    let len: usize = text.unicode_len();
    if len < 1 || len > 4 {
        return None;
    }
    let parsed = parse_plain(text, 16, 0xffff);
    proof {
        if digits_value(text@, 16) is Some {
            digits_are_bounded(text@, 4);
            reveal_with_fuel(hex_limit, 5);
        }
    }
    match parsed {
        Some(value) => Some(value as u16),
        None => None,
    }
}

proof fn a_wrong_group_spoils_all(parts: Seq<Seq<char>>, at: int)
    requires
        0 <= at < parts.len(),
        hex_group(parts[at]) is None,
    ensures
        all_groups(parts) is None,
    decreases parts.len(),
{
    if at < parts.len() - 1 {
        assert(parts.drop_last()[at] == parts[at]);
        a_wrong_group_spoils_all(parts.drop_last(), at);
    }
}

fn parse_groups(parts: &Vec<String>, count: usize) -> (result: Option<Vec<u16>>)
    requires
        count <= parts@.len(),
    ensures
        match result {
            Some(groups) => all_groups(views(parts@).take(count as int)) == Some(groups@),
            None => all_groups(views(parts@).take(count as int)) is None,
        },
{
    let ghost all = views(parts@).take(count as int);
    let mut groups: Vec<u16> = Vec::new();
    let mut at: usize = 0;
    assert(all.take(0) =~= Seq::empty());
    assert(groups@ =~= Seq::empty());
    while at < count
        invariant
            at <= count <= parts@.len(),
            all == views(parts@).take(count as int),
            all_groups(all.take(at as int)) == Some(groups@),
        decreases count - at,
    {
        assert(all[at as int] == parts@[at as int]@);
        match parse_group(parts[at].as_str()) {
            Some(group) => {
                assert(all.take(at + 1).drop_last() =~= all.take(at as int));
                groups.push(group);
            },
            None => {
                proof {
                    a_wrong_group_spoils_all(all, at as int);
                }
                return None;
            },
        }
        at = at + 1;
    }
    assert(all.take(count as int) =~= all);
    Some(groups)
}

fn parse_group_list(text: &str, mixed: bool) -> (result: Option<Vec<u16>>)
    ensures
        match result {
            Some(groups) => group_list(text@, mixed) == Some(groups@),
            None => group_list(text@, mixed) is None,
        },
{
    if text.unicode_len() == 0 {
        let groups: Vec<u16> = Vec::new();
        assert(groups@ =~= Seq::empty());
        return Some(groups);
    }
    let parts = split_on(text, ':');
    let count: usize = parts.len();
    let ghost split = pieces(text@, ':');
    assert(split.last() == parts@[count - 1]@);
    if mixed {
        if let Some(ip) = parse_ipv4(parts[count - 1].as_str()) {
            assert(split.drop_last() =~= views(parts@).take(count - 1));
            match parse_groups(&parts, count - 1) {
                Some(groups) => {
                    let mut groups = groups;
                    let ghost before = groups@;
                    groups.push((ip / 65536) as u16);
                    groups.push((ip % 65536) as u16);
                    assert(groups@ =~= before + ipv4_groups(ip));
                    return Some(groups);
                },
                None => return None,
            }
        }
    }
    assert(split =~= views(parts@).take(count as int));
    parse_groups(&parts, count)
}

proof fn first_gap_is_unique(text: Seq<char>, first: int, second: int)
    requires
        first_gap(text, first),
        first_gap(text, second),
    ensures
        first == second,
{
    if first < second {
        assert(gap_at(text, first));
    } else if second < first {
        assert(gap_at(text, second));
    }
}

fn find_gap(text: &str) -> (result: Option<usize>)
    ensures
        match result {
            Some(at) => first_gap(text@, at as int),
            None => forall|at: int| !#[trigger] gap_at(text@, at),
        },
{
    let len: usize = text.unicode_len();
    let mut at: usize = 1;
    while at < len
        invariant
            len == text@.len(),
            at >= 1,
            forall|other: int| other + 1 < at ==> !#[trigger] gap_at(text@, other),
        decreases len - at,
    {
        if text.get_char(at - 1) == ':' && text.get_char(at) == ':' {
            assert(first_gap(text@, at - 1));
            return Some(at - 1);
        }
        at = at + 1;
    }
    None
}

fn value_of(groups: &Vec<u16>) -> (result: u128)
    requires
        groups@.len() == 8,
    ensures
        result == groups_value(groups@),
{
    let mut value: u128 = 0;
    let mut at: usize = 0;
    assert(groups@.take(0) =~= Seq::empty());
    while at < 8
        invariant
            at <= 8,
            groups@.len() == 8,
            value == groups_value(groups@.take(at as int)),
        decreases 8 - at,
    {
        proof {
            let longer = groups@.take(at + 1);
            assert(longer.drop_last() =~= groups@.take(at as int));
            groups_of_value(longer);
            group_limit_grows((at + 1) as nat, 8);
            eight_groups_hold_an_address();
        }
        value = value * 65536 + groups[at] as u128;
        at = at + 1;
    }
    assert(groups@.take(8) =~= groups@);
    value
}

proof fn group_limit_grows(low: nat, high: nat)
    requires
        low <= high,
    ensures
        0 < group_limit(low) <= group_limit(high),
    decreases high,
{
    if low < high {
        group_limit_grows(low, (high - 1) as nat);
    } else if low > 0 {
        group_limit_grows((low - 1) as nat, (low - 1) as nat);
    }
}

pub fn parse_ipv6(text: &str) -> (result: Option<u128>)
    ensures
        result == ipv6_of(text@),
{
    let len: usize = text.unicode_len();
    match find_gap(text) {
        None => {
            assert(!exists|at: int| first_gap(text@, at));
            match parse_group_list(text, true) {
                Some(groups) => if groups.len() == 8 {
                    Some(value_of(&groups))
                } else {
                    None
                },
                None => None,
            }
        },
        Some(at) => {
            proof {
                let found = choose|found: int| first_gap(text@, found);
                first_gap_is_unique(text@, found, at as int);
            }
            assert(text@.subrange(0, at as int) =~= text@.take(at as int));
            assert(text@.subrange(at + 2, len as int) =~= text@.skip(at + 2));
            let head = match parse_group_list(text.substring_char(0, at), false) {
                Some(head) => head,
                None => return None,
            };
            let tail = match parse_group_list(text.substring_char(at + 2, len), true) {
                Some(tail) => tail,
                None => return None,
            };
            if head.len() > 7 || tail.len() > 7 - head.len() {
                return None;
            }
            let ghost front = head@;
            let missing: usize = 8 - head.len() - tail.len();
            let mut groups: Vec<u16> = head;
            let mut filled: usize = 0;
            while filled < missing
                invariant
                    filled <= missing,
                    groups@ =~= front + zero_groups(filled as int),
                decreases missing - filled,
            {
                groups.push(0);
                filled = filled + 1;
            }
            let mut next: usize = 0;
            while next < tail.len()
                invariant
                    next <= tail@.len(),
                    groups@ =~= front + zero_groups(missing as int) + tail@.take(next as int),
                decreases tail@.len() - next,
            {
                groups.push(tail[next]);
                next = next + 1;
            }
            assert(tail@.take(next as int) =~= tail@);
            Some(value_of(&groups))
        },
    }
}

/// A number in hexadecimal without leading zeros.
pub open spec fn hex_number(value: nat) -> Seq<char>
    decreases value,
{
    if value < 16 {
        seq![hex_digit(value as int)]
    } else {
        hex_number(value / 16).push(hex_digit((value % 16) as int))
    }
}

fn write_group(value: u16) -> (result: String)
    ensures
        result@ == hex_number(value as nat),
    decreases value,
{
    if value < 16 {
        hex_digit_text(value as u8).to_owned()
    } else {
        let mut text = write_group(value / 16);
        let ghost before = text@;
        text.append(hex_digit_text((value % 16) as u8));
        assert(text@ =~= before.push(hex_digit((value % 16) as int)));
        text
    }
}

pub open spec fn group_texts(groups: Seq<u16>) -> Seq<Seq<char>> {
    groups.map_values(|group: u16| hex_number(group as nat))
}

/// Groups with colons between them.
pub open spec fn groups_text(groups: Seq<u16>) -> Seq<char> {
    join_with(group_texts(groups), seq![':'])
}

/// A run of zeros.
pub struct ZeroRun {
    pub start: int,
    pub len: int,
}

/// The longest run of zeros among the first groups, the first of that length,
/// and the run that the last of them is in.
pub open spec fn zero_runs(groups: Seq<u16>, count: int) -> (ZeroRun, ZeroRun)
    decreases count,
{
    if count <= 0 {
        (ZeroRun { start: 0, len: 0 }, ZeroRun { start: 0, len: 0 })
    } else {
        let (longest, current) = zero_runs(groups, count - 1);
        if groups[count - 1] == 0 {
            let current = ZeroRun {
                start: if current.len == 0 {
                    count - 1
                } else {
                    current.start
                },
                len: current.len + 1,
            };
            (
                if current.len > longest.len {
                    current
                } else {
                    longest
                },
                current,
            )
        } else {
            (longest, ZeroRun { start: 0, len: 0 })
        }
    }
}

/// An IPv6 address in text. An embedded IPv4 address is written as such; else
/// the longest run of two or more zeros is left out.
pub open spec fn ipv6_text(ip: u128) -> Seq<char> {
    let groups = groups_of(ip as nat, 8);
    let run = zero_runs(groups, 8).0;
    if ip / 0x1_0000_0000 == 0xffff {
        "::ffff:"@ + ipv4_text((ip % 0x1_0000_0000) as u32)
    } else if run.len > 1 {
        groups_text(groups.take(run.start)) + "::"@ + groups_text(
            groups.skip(run.start + run.len),
        )
    } else {
        groups_text(groups)
    }
}

proof fn runs_are_zeros(groups: Seq<u16>, count: int)
    requires
        0 <= count <= groups.len(),
    ensures
        ({
            let (longest, current) = zero_runs(groups, count);
            &&& 0 <= longest.start
            &&& 0 <= longest.len
            &&& longest.start + longest.len <= count
            &&& forall|i: int|
                longest.start <= i < longest.start + longest.len ==> #[trigger] groups[i] == 0
            &&& 0 <= current.start
            &&& 0 <= current.len
            &&& current.len > 0 ==> current.start + current.len == count
            &&& forall|i: int|
                current.start <= i < current.start + current.len ==> #[trigger] groups[i] == 0
        }),
    decreases count,
{
    if count > 0 {
        runs_are_zeros(groups, count - 1);
    }
}

fn groups_in(ip: u128) -> (result: Vec<u16>)
    ensures
        result@ == groups_of(ip as nat, 8),
{
    let mut reversed: Vec<u16> = Vec::new();
    let mut rest: u128 = ip;
    let mut count: usize = 0;
    while count < 8
        invariant
            count <= 8,
            reversed@.len() == count,
            groups_of(ip as nat, 8) == groups_of(rest as nat, (8 - count) as nat)
                + reversed@.reverse(),
        decreases 8 - count,
    {
        let ghost before = reversed@;
        let ghost high = groups_of((rest / 65536) as nat, (7 - count) as nat);
        reversed.push((rest % 65536) as u16);
        assert(groups_of(rest as nat, (8 - count) as nat) == high.push((rest % 65536) as u16));
        assert(high.push((rest % 65536) as u16) + before.reverse() =~= high
            + reversed@.reverse());
        rest = rest / 65536;
        count = count + 1;
    }
    assert(groups_of(rest as nat, 0) =~= Seq::empty());
    let mut groups: Vec<u16> = Vec::new();
    while count > 0
        invariant
            count <= 8,
            reversed@.len() == 8,
            groups@ =~= reversed@.reverse().take(8 - count),
        decreases count,
    {
        count = count - 1;
        groups.push(reversed[count]);
    }
    assert(groups@ =~= reversed@.reverse());
    groups
}

fn write_groups(groups: &Vec<u16>, from: usize, to: usize) -> (result: String)
    requires
        from <= to <= groups@.len(),
    ensures
        result@ == groups_text(groups@.subrange(from as int, to as int)),
{
    let ghost wanted = group_texts(groups@.subrange(from as int, to as int));
    let mut parts: Vec<String> = Vec::new();
    let mut at: usize = from;
    while at < to
        invariant
            from <= at <= to <= groups@.len(),
            wanted == group_texts(groups@.subrange(from as int, to as int)),
            views(parts@) =~= wanted.take(at - from),
        decreases to - at,
    {
        let ghost before = parts@;
        parts.push(write_group(groups[at]));
        assert(views(parts@) =~= views(before).push(hex_number(groups@[at as int] as nat)));
        at = at + 1;
    }
    assert(wanted.take(to - from) =~= wanted);
    proof {
        reveal_strlit(":");
        assert(":"@ =~= seq![':']);
    }
    join(&parts, ":")
}

fn longest_run(groups: &Vec<u16>) -> (result: (usize, usize))
    requires
        groups@.len() == 8,
    ensures
        result.0 == zero_runs(groups@, 8).0.start,
        result.1 == zero_runs(groups@, 8).0.len,
{
    let mut start: usize = 0;
    let mut len: usize = 0;
    let mut current_start: usize = 0;
    let mut current_len: usize = 0;
    let mut at: usize = 0;
    while at < 8
        invariant
            at <= 8,
            groups@.len() == 8,
            start == zero_runs(groups@, at as int).0.start,
            len == zero_runs(groups@, at as int).0.len,
            current_start == zero_runs(groups@, at as int).1.start,
            current_len == zero_runs(groups@, at as int).1.len,
            current_len <= at,
        decreases 8 - at,
    {
        if groups[at] == 0 {
            if current_len == 0 {
                current_start = at;
            }
            current_len = current_len + 1;
            if current_len > len {
                start = current_start;
                len = current_len;
            }
        } else {
            current_start = 0;
            current_len = 0;
        }
        at = at + 1;
    }
    (start, len)
}

pub fn write_ipv6(ip: u128) -> (result: String)
    ensures
        result@ == ipv6_text(ip),
{
    if ip / 0x1_0000_0000 == 0xffff {
        let mut text = "::ffff:".to_owned();
        text.append(write_ipv4((ip % 0x1_0000_0000) as u32).as_str());
        return text;
    }
    let groups = groups_in(ip);
    proof {
        eight_groups_hold_an_address();
        value_of_groups(ip as nat, 8);
        runs_are_zeros(groups@, 8);
    }
    let (start, len) = longest_run(&groups);
    if len > 1 {
        let mut text = write_groups(&groups, 0, start);
        text.append("::");
        text.append(write_groups(&groups, start + len, 8).as_str());
        assert(groups@.subrange(0, start as int) =~= groups@.take(start as int));
        assert(groups@.subrange(start + len, 8) =~= groups@.skip(start + len));
        text
    } else {
        assert(groups@.subrange(0, 8) =~= groups@);
        write_groups(&groups, 0, 8)
    }
}

/// An address and port in text. The flow label is not written.
pub open spec fn address_text(address: SocketAddress) -> Seq<char> {
    match address {
        SocketAddress::V4 { ip, port } => ipv4_text(ip) + ":"@ + decimal_text(port as nat),
        SocketAddress::V6 { ip, port, scope_id, .. } => "["@ + ipv6_text(ip) + (if scope_id == 0 {
            Seq::empty()
        } else {
            "%"@ + decimal_text(scope_id as nat)
        }) + "]:"@ + decimal_text(port as nat),
    }
}

pub fn write_address(address: SocketAddress) -> (result: String)
    ensures
        result@ == address_text(address),
{
    match address {
        SocketAddress::V4 { ip, port } => {
            let mut text = write_ipv4(ip);
            text.append(":");
            text.append(decimal(port as u64).as_str());
            text
        },
        SocketAddress::V6 { ip, port, scope_id, .. } => {
            let mut text = "[".to_owned();
            text.append(write_ipv6(ip).as_str());
            let ghost before = text@;
            if scope_id != 0 {
                text.append("%");
                text.append(decimal(scope_id as u64).as_str());
                assert(text@ =~= before + ("%"@ + decimal_text(scope_id as nat)));
            } else {
                assert(text@ =~= before + Seq::<char>::empty());
            }
            text.append("]:");
            text.append(decimal(port as u64).as_str());
            text
        },
    }
}

/// Addresses in text.
pub open spec fn address_texts(addresses: Seq<SocketAddress>) -> Seq<Seq<char>> {
    addresses.map_values(|address: SocketAddress| address_text(address))
}

pub fn write_addresses(addresses: &Vec<SocketAddress>) -> (result: Vec<String>)
    ensures
        views(result@) == address_texts(addresses@),
{
    let mut texts: Vec<String> = Vec::new();
    let mut at: usize = 0;
    while at < addresses.len()
        invariant
            at <= addresses@.len(),
            texts@.len() == at,
            forall|i: int|
                0 <= i < at ==> (#[trigger] texts@[i])@ == address_text(addresses@[i]),
        decreases addresses@.len() - at,
    {
        texts.push(write_address(addresses[at]));
        at = at + 1;
    }
    assert(views(texts@) =~= address_texts(addresses@));
    texts
}

pub open spec fn port_of(text: Seq<char>) -> Option<int> {
    plain_number(text, 10, 0xffff)
}

/// An IPv4 address, a colon and a port.
pub open spec fn address_v4_of(text: Seq<char>) -> Option<SocketAddress> {
    let parts = pieces(text, ':');
    if parts.len() != 2 {
        None
    } else {
        match (ipv4_of(parts[0]), port_of(parts[1])) {
            (Some(ip), Some(port)) => Some(SocketAddress::V4 { ip, port: port as u16 }),
            _ => None,
        }
    }
}

/// An IPv6 address, and a scope behind a percent sign if there is one.
pub open spec fn scoped_ipv6_of(text: Seq<char>) -> Option<(u128, u32)> {
    let parts = pieces(text, '%');
    if parts.len() == 1 {
        match ipv6_of(parts[0]) {
            Some(ip) => Some((ip, 0u32)),
            None => None,
        }
    } else if parts.len() == 2 {
        match (ipv6_of(parts[0]), plain_number(parts[1], 10, 0xffff_ffff)) {
            (Some(ip), Some(scope)) => Some((ip, scope as u32)),
            _ => None,
        }
    } else {
        None
    }
}

/// An IPv6 address in brackets, a colon and a port.
pub open spec fn address_v6_of(text: Seq<char>) -> Option<SocketAddress> {
    let parts = pieces(text.skip(1), ']');
    if parts.len() != 2 || parts[1].len() == 0 || parts[1][0] != ':' {
        None
    } else {
        match (scoped_ipv6_of(parts[0]), port_of(parts[1].skip(1))) {
            (Some((ip, scope_id)), Some(port)) => Some(
                SocketAddress::V6 { ip, port: port as u16, flowinfo: 0, scope_id },
            ),
            _ => None,
        }
    }
}

/// The address and port that a text is.
#[verifier::opaque]
pub open spec fn address_of(text: Seq<char>) -> Option<SocketAddress> {
    if text.len() > 0 && text[0] == '[' {
        address_v6_of(text)
    } else {
        address_v4_of(text)
    }
}

fn parse_scoped(text: &str) -> (result: Option<(u128, u32)>)
    ensures
        result == scoped_ipv6_of(text@),
{
    let parts = split_on(text, '%');
    let ghost split = pieces(text@, '%');
    assert(split.len() == parts@.len());
    if parts.len() == 1 {
        assert(split[0] == parts@[0]@);
        match parse_ipv6(parts[0].as_str()) {
            Some(ip) => Some((ip, 0)),
            None => None,
        }
    } else if parts.len() == 2 {
        assert(split[0] == parts@[0]@ && split[1] == parts@[1]@);
        match (parse_ipv6(parts[0].as_str()), parse_plain(parts[1].as_str(), 10, 0xffff_ffff)) {
            (Some(ip), Some(scope)) => Some((ip, scope as u32)),
            _ => None,
        }
    } else {
        None
    }
}

pub fn read_address(text: &str) -> (result: Option<SocketAddress>)
    ensures
        result == address_of(text@),
{
    proof {
        reveal(address_of);
    }
    let len: usize = text.unicode_len();
    if len > 0 && text.get_char(0) == '[' {
        assert(text@.subrange(1, len as int) =~= text@.skip(1));
        let parts = split_on(text.substring_char(1, len), ']');
        let ghost split = pieces(text@.skip(1), ']');
        assert(split.len() == parts@.len());
        if parts.len() != 2 {
            return None;
        }
        assert(split[0] == parts@[0]@ && split[1] == parts@[1]@);
        let rest: &str = parts[1].as_str();
        let rest_len: usize = rest.unicode_len();
        if rest_len == 0 || rest.get_char(0) != ':' {
            return None;
        }
        assert(rest@.subrange(1, rest_len as int) =~= rest@.skip(1));
        match (
            parse_scoped(parts[0].as_str()),
            parse_plain(rest.substring_char(1, rest_len), 10, 0xffff),
        ) {
            (Some((ip, scope_id)), Some(port)) => Some(
                SocketAddress::V6 { ip, port: port as u16, flowinfo: 0, scope_id },
            ),
            _ => None,
        }
    } else {
        let parts = split_on(text, ':');
        let ghost split = pieces(text@, ':');
        assert(split.len() == parts@.len());
        if parts.len() != 2 {
            return None;
        }
        assert(split[0] == parts@[0]@ && split[1] == parts@[1]@);
        match (parse_ipv4(parts[0].as_str()), parse_plain(parts[1].as_str(), 10, 0xffff)) {
            (Some(ip), Some(port)) => Some(SocketAddress::V4 { ip, port: port as u16 }),
            _ => None,
        }
    }
}

proof fn hex_number_reads_back(value: nat, count: nat)
    requires
        value < hex_limit(count),
        count > 0,
    ensures
        digits_value(hex_number(value), 16) == Some(value as int),
        1 <= hex_number(value).len() <= count,
        free_of(hex_number(value), ':'),
        free_of(hex_number(value), '.'),
        free_of(hex_number(value), '%'),
        free_of(hex_number(value), ']'),
    decreases count,
{
    let text = hex_number(value);
    assert(digits_value(Seq::<char>::empty(), 16) == Some(0int));
    if value < 16 {
        assert(text.drop_last() =~= Seq::<char>::empty());
        assert(digit_of(hex_digit(value as int), 16) == Some(value as int));
    } else {
        assert(count > 1) by {
            if count == 1 {
                reveal_with_fuel(hex_limit, 2);
            }
        }
        hex_number_reads_back(value / 16, (count - 1) as nat);
        let before = hex_number(value / 16);
        let digit = hex_digit((value % 16) as int);
        assert(text.drop_last() =~= before);
        assert(digit_of(digit, 16) == Some((value % 16) as int));
        assert(digit != ':' && digit != '.' && digit != '%' && digit != ']');
        assert forall|i: int| 0 <= i < text.len() implies #[trigger] text[i] != ':' && text[i]
            != '.' && text[i] != '%' && text[i] != ']' by {
            if i < before.len() {
                assert(before[i] != ':');
                assert(text[i] == before[i]);
            } else {
                assert(text[i] == digit);
            }
        }
    }
}

proof fn a_group_reads_back(group: u16)
    ensures
        hex_group(hex_number(group as nat)) == Some(group),
        hex_number(group as nat).len() > 0,
        free_of(hex_number(group as nat), ':'),
        free_of(hex_number(group as nat), '.'),
        free_of(hex_number(group as nat), '%'),
        free_of(hex_number(group as nat), ']'),
{
    reveal_with_fuel(hex_limit, 5);
    hex_number_reads_back(group as nat, 4);
}

proof fn all_groups_read_back(groups: Seq<u16>)
    ensures
        all_groups(group_texts(groups)) == Some(groups),
    decreases groups.len(),
{
    let texts = group_texts(groups);
    if groups.len() > 0 {
        all_groups_read_back(groups.drop_last());
        a_group_reads_back(groups.last());
        assert(texts.drop_last() =~= group_texts(groups.drop_last()));
        assert(groups =~= groups.drop_last().push(groups.last()));
    } else {
        assert(groups =~= Seq::empty());
    }
}

proof fn joined_is_free_of(parts: Seq<Seq<char>>, separator: char, other: char)
    requires
        separator != other,
        forall|i: int| 0 <= i < parts.len() ==> free_of(#[trigger] parts[i], other),
    ensures
        free_of(join_with(parts, seq![separator]), other),
    decreases parts.len(),
{
    if parts.len() == 1 {
        assert(free_of(parts[0], other));
    } else if parts.len() > 1 {
        let rest = parts.drop_last();
        assert forall|i: int| 0 <= i < rest.len() implies free_of(#[trigger] rest[i], other) by {
            assert(free_of(parts[i], other));
        }
        joined_is_free_of(rest, separator, other);
        let front = join_with(rest, seq![separator]);
        let last = parts.last();
        assert(free_of(parts[parts.len() - 1], other));
        let whole = front + seq![separator] + last;
        assert forall|i: int| 0 <= i < whole.len() implies #[trigger] whole[i] != other by {
            if i < front.len() {
                assert(whole[i] == front[i]);
            } else if i > front.len() {
                assert(whole[i] == last[i - front.len() - 1]);
            }
        }
    }
}

/// Joined groups have no gap and no colon at either end.
proof fn joined_groups_have_no_gap(groups: Seq<u16>)
    ensures
        groups.len() > 0 ==> groups_text(groups).len() > 0 && groups_text(groups).last() != ':'
            && groups_text(groups)[0] != ':',
        groups.len() == 0 ==> groups_text(groups).len() == 0,
        forall|at: int| !#[trigger] gap_at(groups_text(groups), at),
    decreases groups.len(),
{
    let texts = group_texts(groups);
    let text = groups_text(groups);
    if groups.len() > 0 {
        let last = hex_number(groups.last() as nat);
        a_group_reads_back(groups.last());
        assert(texts.last() == last);
        assert(last[last.len() - 1] != ':');
        assert(last[0] != ':');
        if groups.len() == 1 {
            assert(text == last);
            assert forall|at: int| !#[trigger] gap_at(text, at) by {
                if 0 <= at < text.len() {
                    assert(last[at] != ':');
                }
            }
        } else {
            let rest = groups.drop_last();
            joined_groups_have_no_gap(rest);
            let front = groups_text(rest);
            assert(texts.drop_last() =~= group_texts(rest));
            assert(text == front + seq![':'] + last);
            assert(text.last() == last[last.len() - 1]);
            assert(text[0] == front[0]);
            assert forall|at: int| !#[trigger] gap_at(text, at) by {
                if gap_at(text, at) {
                    if at + 1 < front.len() {
                        assert(gap_at(front, at));
                    } else if at + 1 == front.len() {
                        assert(text[at] == front.last());
                    } else {
                        assert(text[at + 1] == last[at - front.len()]);
                        assert(last[at - front.len()] != ':');
                    }
                }
            }
        }
    }
}

proof fn group_texts_are_free_of(groups: Seq<u16>)
    ensures
        forall|i: int|
            0 <= i < groups.len() ==> free_of(#[trigger] group_texts(groups)[i], ':') && free_of(
                group_texts(groups)[i],
                '.',
            ) && free_of(group_texts(groups)[i], '%') && free_of(group_texts(groups)[i], ']'),
{
    assert forall|i: int| 0 <= i < groups.len() implies free_of(
        #[trigger] group_texts(groups)[i],
        ':',
    ) && free_of(group_texts(groups)[i], '.') && free_of(group_texts(groups)[i], '%') && free_of(
        group_texts(groups)[i],
        ']',
    ) by {
        a_group_reads_back(groups[i]);
    }
}

/// An IPv4 address has points.
proof fn ipv4_text_has_a_point(ip: u32)
    ensures
        !free_of(ipv4_text(ip), '.'),
{
    let texts = octet_texts(ip);
    let front = join_with(texts.drop_last(), seq!['.']);
    let text = ipv4_text(ip);
    assert(text == front + seq!['.'] + texts.last());
    assert(text[front.len() as int] == '.');
}

proof fn group_lists_read_back(groups: Seq<u16>, mixed: bool)
    ensures
        group_list(groups_text(groups), mixed) == Some(groups),
{
    joined_groups_have_no_gap(groups);
    if groups.len() == 0 {
        assert(groups =~= Seq::empty());
    } else {
        let texts = group_texts(groups);
        group_texts_are_free_of(groups);
        pieces_of_joined_parts(texts, ':');
        all_groups_read_back(groups);
        let last = texts.last();
        assert(free_of(texts[texts.len() - 1], '.'));
        assert(ipv4_of(last) is None) by {
            assert forall|ip: u32| last != #[trigger] ipv4_text(ip) by {
                ipv4_text_has_a_point(ip);
            }
        }
    }
}

proof fn ipv4_text_is_free_of(ip: u32, other: char)
    requires
        !('0' <= other <= '9'),
        other != '.',
    ensures
        free_of(ipv4_text(ip), other),
{
    octet_texts_are_free_of(ip, other);
    joined_is_free_of(octet_texts(ip), '.', other);
}

proof fn gap_reads_back(head: Seq<u16>, tail: Seq<u16>, text: Seq<char>)
    requires
        head.len() + tail.len() <= 7,
        text == groups_text(head) + "::"@ + groups_text(tail),
    ensures
        ipv6_groups(text) == Some(head + zero_groups(8 - head.len() - tail.len()) + tail),
{
    reveal_strlit("::");
    let front = groups_text(head);
    let back = groups_text(tail);
    let at = front.len() as int;
    joined_groups_have_no_gap(head);
    assert(text[at] == ':' && text[at + 1] == ':');
    assert forall|other: int| 0 <= other < at implies !#[trigger] gap_at(text, other) by {
        if other + 1 < at {
            assert(!gap_at(front, other));
        } else {
            assert(text[other] == front.last());
        }
    }
    assert(first_gap(text, at));
    let found = choose|found: int| first_gap(text, found);
    first_gap_is_unique(text, found, at);
    assert(text.take(at) =~= front);
    assert(text.skip(at + 2) =~= back);
    group_lists_read_back(head, false);
    group_lists_read_back(tail, true);
}

proof fn mapped_reads_back(ip: u128)
    requires
        ip / 0x1_0000_0000 == 0xffff,
    ensures
        ipv6_of(ipv6_text(ip)) == Some(ip),
{
    reveal_strlit("::ffff:");
    let low = (ip % 0x1_0000_0000) as u32;
    let address = ipv4_text(low);
    let text = ipv6_text(ip);
    assert(text == "::ffff:"@ + address);
    assert(text[0] == ':' && text[1] == ':');
    assert(first_gap(text, 0));
    let found = choose|found: int| first_gap(text, found);
    first_gap_is_unique(text, found, 0);
    let prefix = seq!['f', 'f', 'f', 'f'];
    let tail = text.skip(2);
    assert(tail =~= prefix + seq![':'] + address);
    assert(text.take(0) =~= Seq::empty());
    ipv4_text_is_free_of(low, ':');
    assert(free_of(prefix, ':'));
    a_part_is_a_piece(prefix, address, ':');
    a_part_is_a_piece(Seq::empty(), prefix, ':');
    assert(pieces(tail, ':') =~= seq![prefix, address]);
    ipv4_of_text(low);
    assert(pieces(tail, ':').drop_last() =~= seq![prefix]);
    reveal_with_fuel(digits_value, 5);
    assert(prefix.drop_last() =~= seq!['f', 'f', 'f']);
    assert(prefix.drop_last().drop_last() =~= seq!['f', 'f']);
    assert(prefix.drop_last().drop_last().drop_last() =~= seq!['f']);
    assert(prefix.drop_last().drop_last().drop_last().drop_last() =~= Seq::<char>::empty());
    assert(digit_of('f', 16) == Some(15int));
    assert(digits_value(prefix, 16) == Some(0xffffint));
    assert(hex_group(prefix) == Some(0xffffu16));
    assert(seq![prefix].drop_last() =~= Seq::<Seq<char>>::empty());
    assert(all_groups(seq![prefix]) == Some(seq![0xffffu16])) by {
        assert(all_groups(Seq::<Seq<char>>::empty()) == Some(Seq::<u16>::empty()));
        assert(Seq::<u16>::empty().push(0xffffu16) =~= seq![0xffffu16]);
    }
    let groups = seq![0xffffu16] + ipv4_groups(low);
    assert(group_list(tail, true) == Some(groups));
    let all = Seq::<u16>::empty() + zero_groups(5) + groups;
    let high: u16 = (low / 65536) as u16;
    let rest: u16 = (low % 65536) as u16;
    assert(all =~= seq![0u16, 0u16, 0u16, 0u16, 0u16, 0xffffu16, high, rest]);
    assert(ipv6_groups(text) == Some(all));
    assert(all.drop_last() =~= seq![0u16, 0u16, 0u16, 0u16, 0u16, 0xffffu16, high]);
    assert(all.drop_last().drop_last() =~= seq![0u16, 0u16, 0u16, 0u16, 0u16, 0xffffu16]);
    assert(all.drop_last().drop_last().drop_last() =~= seq![0u16, 0u16, 0u16, 0u16, 0u16]);
    zeros_are_zero(seq![0u16, 0u16, 0u16, 0u16, 0u16]);
    reveal_with_fuel(groups_value, 4);
    assert(groups_value(all) == (0xffff * 65536 + high as nat) * 65536 + rest as nat);
}

proof fn zeros_are_zero(groups: Seq<u16>)
    requires
        forall|i: int| 0 <= i < groups.len() ==> groups[i] == 0,
    ensures
        groups_value(groups) == 0,
    decreases groups.len(),
{
    if groups.len() > 0 {
        zeros_are_zero(groups.drop_last());
    }
}

/// Reading a written IPv6 address gives the address back.
pub proof fn ipv6_round_trips(ip: u128)
    ensures
        ipv6_of(ipv6_text(ip)) == Some(ip),
{
    let groups = groups_of(ip as nat, 8);
    let text = ipv6_text(ip);
    eight_groups_hold_an_address();
    value_of_groups(ip as nat, 8);
    if ip / 0x1_0000_0000 == 0xffff {
        mapped_reads_back(ip);
    } else {
        runs_are_zeros(groups, 8);
        let run = zero_runs(groups, 8).0;
        if run.len > 1 {
            let head = groups.take(run.start);
            let tail = groups.skip(run.start + run.len);
            gap_reads_back(head, tail, text);
            assert(head + zero_groups(8 - head.len() - tail.len()) + tail =~= groups);
        } else {
            joined_groups_have_no_gap(groups);
            assert(!exists|at: int| first_gap(text, at)) by {
                assert forall|at: int| !first_gap(text, at) by {
                    assert(!gap_at(text, at));
                }
            }
            group_lists_read_back(groups, true);
        }
    }
}

/// Reading a written IPv4 address gives the address back.
pub proof fn ipv4_round_trips(ip: u32)
    ensures
        ipv4_of(ipv4_text(ip)) == Some(ip),
{
    ipv4_of_text(ip);
}

proof fn ipv6_text_is_free_of(ip: u128, other: char)
    requires
        other == '%' || other == ']',
    ensures
        free_of(ipv6_text(ip), other),
{
    let groups = groups_of(ip as nat, 8);
    let text = ipv6_text(ip);
    eight_groups_hold_an_address();
    value_of_groups(ip as nat, 8);
    if ip / 0x1_0000_0000 == 0xffff {
        reveal_strlit("::ffff:");
        let address = ipv4_text((ip % 0x1_0000_0000) as u32);
        ipv4_text_is_free_of((ip % 0x1_0000_0000) as u32, other);
        assert forall|i: int| 0 <= i < text.len() implies #[trigger] text[i] != other by {
            if i >= 7 {
                assert(text[i] == address[i - 7]);
            }
        }
    } else {
        runs_are_zeros(groups, 8);
        let run = zero_runs(groups, 8).0;
        if run.len > 1 {
            reveal_strlit("::");
            let head = groups.take(run.start);
            let tail = groups.skip(run.start + run.len);
            group_texts_are_free_of(head);
            group_texts_are_free_of(tail);
            joined_is_free_of(group_texts(head), ':', other);
            joined_is_free_of(group_texts(tail), ':', other);
            let front = groups_text(head);
            let back = groups_text(tail);
            assert forall|i: int| 0 <= i < text.len() implies #[trigger] text[i] != other by {
                if i < front.len() {
                    assert(text[i] == front[i]);
                } else if i >= front.len() + 2 {
                    assert(text[i] == back[i - front.len() - 2]);
                }
            }
        } else {
            group_texts_are_free_of(groups);
            joined_is_free_of(group_texts(groups), ':', other);
        }
    }
}

proof fn decimal_reads_back(value: nat, maximum: int)
    requires
        value <= maximum,
    ensures
        plain_number(decimal_text(value), 10, maximum) == Some(value as int),
{
    decimal_round_trips(value);
}

proof fn v4_address_reads_back(ip: u32, port: u16)
    ensures
        address_of(address_text(SocketAddress::V4 { ip, port })) == Some(
            SocketAddress::V4 { ip, port },
        ),
{
    reveal(address_of);
    reveal_strlit(":");
    let text = address_text(SocketAddress::V4 { ip, port });
    let number = decimal_text(port as nat);
    let host = ipv4_text(ip);
    decimal_is_free_of(port as nat, ':');
    ipv4_text_is_free_of(ip, ':');
    ipv4_text_is_free_of(ip, '[');
    assert(":"@ =~= seq![':']);
    a_part_is_a_piece(host, number, ':');
    a_part_is_a_piece(Seq::empty(), host, ':');
    assert(pieces(text, ':') =~= seq![host, number]);
    ipv4_of_text(ip);
    decimal_reads_back(port as nat, 0xffff);
    ipv4_text_has_a_point(ip);
    assert(host.len() > 0);
    assert(text[0] == host[0]);
    assert(host[0] != '[');
}

proof fn scoped_ipv6_reads_back(ip: u128, scope_id: u32, inside: Seq<char>)
    requires
        inside == if scope_id == 0 {
            ipv6_text(ip)
        } else {
            ipv6_text(ip) + seq!['%'] + decimal_text(scope_id as nat)
        },
    ensures
        scoped_ipv6_of(inside) == Some((ip, scope_id)),
        free_of(inside, ']'),
{
    let host = ipv6_text(ip);
    let scope = decimal_text(scope_id as nat);
    decimal_is_free_of(scope_id as nat, ']');
    decimal_is_free_of(scope_id as nat, '%');
    ipv6_text_is_free_of(ip, ']');
    ipv6_text_is_free_of(ip, '%');
    assert forall|i: int| 0 <= i < inside.len() implies #[trigger] inside[i] != ']' by {
        if i < host.len() {
            assert(inside[i] == host[i]);
        } else if i > host.len() {
            assert(inside[i] == scope[i - host.len() - 1]);
        }
    }
    decimal_reads_back(scope_id as nat, 0xffff_ffff);
    ipv6_round_trips(ip);
    a_part_is_a_piece(Seq::empty(), host, '%');
    if scope_id != 0 {
        a_part_is_a_piece(host, scope, '%');
        assert(pieces(inside, '%') =~= seq![host, scope]);
    }
}

proof fn v6_address_reads_back(ip: u128, port: u16, scope_id: u32)
    ensures
        address_of(
            address_text(SocketAddress::V6 { ip, port, flowinfo: 0, scope_id }),
        ) == Some(SocketAddress::V6 { ip, port, flowinfo: 0, scope_id }),
{
    reveal(address_of);
    reveal_strlit("[");
    reveal_strlit("%");
    reveal_strlit("]:");
    let text = address_text(SocketAddress::V6 { ip, port, flowinfo: 0, scope_id });
    let number = decimal_text(port as nat);
    let host = ipv6_text(ip);
    let scope = decimal_text(scope_id as nat);
    let inside = if scope_id == 0 {
        host
    } else {
        host + seq!['%'] + scope
    };
    let rest = seq![':'] + number;
    assert("%"@ =~= seq!['%']);
    assert(text[0] == '[');
    assert(text.skip(1) =~= inside + seq![']'] + rest);
    scoped_ipv6_reads_back(ip, scope_id, inside);
    decimal_is_free_of(port as nat, ']');
    assert forall|i: int| 0 <= i < rest.len() implies #[trigger] rest[i] != ']' by {
        if i > 0 {
            assert(rest[i] == number[i - 1]);
        }
    }
    a_part_is_a_piece(inside, rest, ']');
    a_part_is_a_piece(Seq::empty(), inside, ']');
    assert(pieces(text.skip(1), ']') =~= seq![inside, rest]);
    assert(rest.skip(1) =~= number);
    decimal_reads_back(port as nat, 0xffff);
}

/// Reading a written address gives the address back. A flow label other than
/// zero is not written, so that it is lost.
pub proof fn addresses_round_trip(address: SocketAddress)
    requires
        address matches SocketAddress::V6 { flowinfo, .. } ==> flowinfo == 0,
    ensures
        address_of(address_text(address)) == Some(address),
{
    reveal(address_of);
    match address {
        SocketAddress::V4 { ip, port } => v4_address_reads_back(ip, port),
        SocketAddress::V6 { ip, port, scope_id, .. } => v6_address_reads_back(ip, port, scope_id),
    }
}

/// The characters that addresses are written with.
pub open spec fn is_address_char(c: char) -> bool {
    '0' <= c <= '9' || 'a' <= c <= 'f' || c == '.' || c == ':' || c == '[' || c == ']' || c == '%'
}

spec fn is_plain(text: Seq<char>) -> bool {
    forall|i: int| 0 <= i < text.len() ==> is_address_char(#[trigger] text[i])
}

proof fn plain_sum(first: Seq<char>, second: Seq<char>)
    requires
        is_plain(first),
        is_plain(second),
    ensures
        is_plain(first + second),
{
    let whole = first + second;
    assert forall|i: int| 0 <= i < whole.len() implies is_address_char(#[trigger] whole[i]) by {
        if i < first.len() {
            assert(whole[i] == first[i]);
        } else {
            assert(whole[i] == second[i - first.len()]);
        }
    }
}

proof fn decimal_is_plain(value: nat)
    ensures
        is_plain(decimal_text(value)),
{
    decimal_is_digits(value);
}

proof fn hex_is_plain(value: nat)
    ensures
        is_plain(hex_number(value)),
    decreases value,
{
    let text = hex_number(value);
    if value < 16 {
        assert(is_address_char(hex_digit(value as int)));
    } else {
        hex_is_plain(value / 16);
        let before = hex_number(value / 16);
        assert(is_address_char(hex_digit((value % 16) as int)));
        assert forall|i: int| 0 <= i < text.len() implies is_address_char(#[trigger] text[i]) by {
            if i < before.len() {
                assert(text[i] == before[i]);
            }
        }
    }
}

proof fn joined_is_plain(parts: Seq<Seq<char>>, separator: char)
    requires
        is_address_char(separator),
        forall|i: int| 0 <= i < parts.len() ==> is_plain(#[trigger] parts[i]),
    ensures
        is_plain(join_with(parts, seq![separator])),
    decreases parts.len(),
{
    if parts.len() == 1 {
        assert(is_plain(parts[0]));
    } else if parts.len() > 1 {
        let before = parts.drop_last();
        assert forall|i: int| 0 <= i < before.len() implies is_plain(#[trigger] before[i]) by {
            assert(is_plain(parts[i]));
        }
        joined_is_plain(before, separator);
        assert(is_plain(parts[parts.len() - 1]));
        plain_sum(join_with(before, seq![separator]), seq![separator]);
        plain_sum(join_with(before, seq![separator]) + seq![separator], parts.last());
    }
}

proof fn ipv4_is_plain(ip: u32)
    ensures
        is_plain(ipv4_text(ip)),
{
    let texts = octet_texts(ip);
    assert forall|i: int| 0 <= i < texts.len() implies is_plain(#[trigger] texts[i]) by {
        decimal_is_plain(octets(ip)[i]);
    }
    joined_is_plain(texts, '.');
}

proof fn groups_are_plain(groups: Seq<u16>)
    ensures
        is_plain(groups_text(groups)),
{
    let texts = group_texts(groups);
    assert forall|i: int| 0 <= i < texts.len() implies is_plain(#[trigger] texts[i]) by {
        hex_is_plain(groups[i] as nat);
    }
    joined_is_plain(texts, ':');
}

proof fn ipv6_is_plain(ip: u128)
    ensures
        is_plain(ipv6_text(ip)),
{
    reveal_strlit("::ffff:");
    reveal_strlit("::");
    let groups = groups_of(ip as nat, 8);
    let run = zero_runs(groups, 8).0;
    assert(is_plain("::ffff:"@));
    assert(is_plain("::"@));
    ipv4_is_plain((ip % 0x1_0000_0000) as u32);
    plain_sum("::ffff:"@, ipv4_text((ip % 0x1_0000_0000) as u32));
    groups_are_plain(groups);
    let head = groups_text(groups.take(run.start));
    let tail = groups_text(groups.skip(run.start + run.len));
    groups_are_plain(groups.take(run.start));
    groups_are_plain(groups.skip(run.start + run.len));
    plain_sum(head, "::"@);
    plain_sum(head + "::"@, tail);
}

/// Addresses are written in digits, small letters and few signs.
pub proof fn address_text_is_plain(address: SocketAddress)
    ensures
        address_text(address).len() > 0,
        forall|i: int|
            0 <= i < address_text(address).len() ==> is_address_char(
                #[trigger] address_text(address)[i],
            ),
{
    reveal_strlit(":");
    reveal_strlit("[");
    reveal_strlit("%");
    reveal_strlit("]:");
    assert(is_plain(":"@) && is_plain("["@) && is_plain("%"@) && is_plain("]:"@));
    match address {
        SocketAddress::V4 { ip, port } => {
            ipv4_is_plain(ip);
            decimal_is_plain(port as nat);
            plain_sum(ipv4_text(ip), ":"@);
            plain_sum(ipv4_text(ip) + ":"@, decimal_text(port as nat));
        },
        SocketAddress::V6 { ip, port, scope_id, .. } => {
            let scope = if scope_id == 0 {
                Seq::empty()
            } else {
                "%"@ + decimal_text(scope_id as nat)
            };
            ipv6_is_plain(ip);
            decimal_is_plain(port as nat);
            decimal_is_plain(scope_id as nat);
            plain_sum("%"@, decimal_text(scope_id as nat));
            plain_sum("["@, ipv6_text(ip));
            plain_sum("["@ + ipv6_text(ip), scope);
            plain_sum("["@ + ipv6_text(ip) + scope, "]:"@);
            plain_sum("["@ + ipv6_text(ip) + scope + "]:"@, decimal_text(port as nat));
        },
    }
    assert(is_plain(address_text(address)));
}

/// An IPv4 address is written as four decimal numbers below 256 with points between
/// them, the highest first.
pub proof fn ipv4_texts_hold_four_octets(ip: u32)
    ensures
        ({
            let parts = pieces(ipv4_text(ip), '.');
            let a = digits_value(parts[0], 10)->0;
            let b = digits_value(parts[1], 10)->0;
            let c = digits_value(parts[2], 10)->0;
            let d = digits_value(parts[3], 10)->0;
            &&& parts.len() == 4
            &&& forall|i: int|
                0 <= i < 4 ==> (#[trigger] digits_value(parts[i], 10)) is Some && 0
                    <= digits_value(parts[i], 10)->0 < 256
            &&& ip == ((a * 256 + b) * 256 + c) * 256 + d
        }),
{
    ipv4_pieces(ip);
    let parts = octet_texts(ip);
    assert forall|i: int| 0 <= i < 4 implies (#[trigger] digits_value(parts[i], 10)) == Some(
        octets(ip)[i] as int,
    ) && octets(ip)[i] < 256 by {
        decimal_round_trips(octets(ip)[i]);
    }
    assert(digits_value(parts[0], 10) == Some(octets(ip)[0] as int));
    assert(digits_value(parts[1], 10) == Some(octets(ip)[1] as int));
    assert(digits_value(parts[2], 10) == Some(octets(ip)[2] as int));
    assert(digits_value(parts[3], 10) == Some(octets(ip)[3] as int));
}

/// The value of eight groups, the first one highest.
pub open spec fn value_of_eight(groups: Seq<u16>) -> int {
    ((((((groups[0] * 65536 + groups[1]) * 65536 + groups[2]) * 65536 + groups[3]) * 65536
        + groups[4]) * 65536 + groups[5]) * 65536 + groups[6]) * 65536 + groups[7]
}

proof fn one_more_group(groups: Seq<u16>, at: int)
    requires
        0 <= at < groups.len(),
    ensures
        groups_value(groups.take(at + 1)) == groups_value(groups.take(at)) * 65536 + groups[at],
{
    assert(groups.take(at + 1).drop_last() =~= groups.take(at));
}

proof fn eight_groups_have_their_value(groups: Seq<u16>)
    requires
        groups.len() == 8,
    ensures
        groups_value(groups) == value_of_eight(groups),
        groups_value(groups) <= u128::MAX,
{
    assert(groups.take(8) =~= groups);
    assert(groups_value(groups.take(0)) == 0);
    one_more_group(groups, 0);
    one_more_group(groups, 1);
    one_more_group(groups, 2);
    one_more_group(groups, 3);
    one_more_group(groups, 4);
    one_more_group(groups, 5);
    one_more_group(groups, 6);
    one_more_group(groups, 7);
    groups_of_value(groups);
    eight_groups_hold_an_address();
}

/// Eight groups with colons between them are the address with these groups, the
/// highest first, each in hexadecimal.
pub proof fn ipv6_groups_are_read_in_order(groups: Seq<u16>, at: int)
    requires
        groups.len() == 8,
        0 <= at < 8,
    ensures
        ipv6_of(groups_text(groups)) matches Some(ip) && ip == value_of_eight(groups),
        pieces(groups_text(groups), ':').len() == 8,
        digits_value(pieces(groups_text(groups), ':')[at], 16) == Some(groups[at] as int),
{
    joined_groups_have_no_gap(groups);
    group_lists_read_back(groups, true);
    eight_groups_have_their_value(groups);
    group_texts_are_free_of(groups);
    pieces_of_joined_parts(group_texts(groups), ':');
    a_group_reads_back(groups[at]);
    let text = group_texts(groups)[at];
    assert(text == hex_number(groups[at] as nat));
    digits_are_bounded(text, 4);
    reveal_with_fuel(hex_limit, 5);
    assert(digits_value(text, 16)->0 as u16 == groups[at]);
}

/// Two colons stand for the groups that are missing, which are zero.
pub proof fn two_colons_stand_for_zeros(head: Seq<u16>, tail: Seq<u16>, groups: Seq<u16>)
    requires
        groups.len() == 8,
        head.len() + tail.len() <= 7,
        head == groups.take(head.len() as int),
        tail == groups.skip(8 - tail.len()),
        forall|i: int| head.len() <= i < 8 - tail.len() ==> #[trigger] groups[i] == 0,
    ensures
        ipv6_of(groups_text(head) + "::"@ + groups_text(tail)) matches Some(ip) && ip
            == value_of_eight(groups),
{
    gap_reads_back(head, tail, groups_text(head) + "::"@ + groups_text(tail));
    assert(groups =~= head + zero_groups(8 - head.len() - tail.len()) + tail);
    eight_groups_have_their_value(groups);
}

proof fn runs_are_longest(groups: Seq<u16>, count: int, from: int, to: int)
    requires
        0 <= from < to <= count <= groups.len(),
        forall|i: int| from <= i < to ==> #[trigger] groups[i] == 0,
    ensures
        ({
            let (longest, current) = zero_runs(groups, count);
            &&& to - from <= longest.len
            &&& to - from == longest.len ==> longest.start <= from
            &&& to == count ==> to - from <= current.len
        }),
    decreases count,
{
    runs_are_zeros(groups, count);
    runs_are_zeros(groups, count - 1);
    if to < count {
        runs_are_longest(groups, count - 1, from, to);
    } else {
        assert(groups[to - 1] == 0);
        if from < to - 1 {
            runs_are_longest(groups, count - 1, from, to - 1);
        }
    }
}

/// The groups that are left out of an address's text are zeros, and there is no longer
/// run of zeros, nor one as long before it.
pub proof fn the_longest_run_is_left_out(groups: Seq<u16>, from: int, to: int)
    requires
        groups.len() == 8,
        0 <= from < to <= 8,
        forall|i: int| from <= i < to ==> #[trigger] groups[i] == 0,
    ensures
        ({
            let run = zero_runs(groups, 8).0;
            &&& 0 <= run.start && run.start + run.len <= 8
            &&& forall|i: int| run.start <= i < run.start + run.len ==> #[trigger] groups[i] == 0
            &&& to - from <= run.len
            &&& to - from == run.len ==> run.start <= from
        }),
{
    runs_are_zeros(groups, 8);
    runs_are_longest(groups, 8, from, to);
}

/// An address's text ends in a colon and the port; only an IPv6 address stands in
/// brackets.
pub proof fn address_texts_end_in_the_port(address: SocketAddress)
    ensures
        ({
            let text = address_text(address);
            let port = decimal_text(address.port_spec() as nat);
            let start = text.len() - port.len();
            &&& start > 1
            &&& text.skip(start) == port
            &&& digits_value(port, 10) == Some(address.port_spec() as int)
            &&& text[start - 1] == ':'
            &&& address is V6 <==> text[0] == '['
            &&& address is V6 ==> text[start - 2] == ']'
            &&& address matches SocketAddress::V4 { ip, .. } ==> text.take(start - 1) == ipv4_text(
                ip,
            )
        }),
{
    let text = address_text(address);
    let port = decimal_text(address.port_spec() as nat);
    let start = text.len() - port.len();
    decimal_round_trips(address.port_spec() as nat);
    reveal_strlit(":");
    reveal_strlit("[");
    reveal_strlit("]:");
    assert(text.skip(start) =~= port);
    match address {
        SocketAddress::V4 { ip, .. } => {
            assert(text.take(start - 1) =~= ipv4_text(ip));
            ipv4_text_has_a_point(ip);
            ipv4_text_is_free_of(ip, '[');
            assert(text[0] == ipv4_text(ip)[0]);
        },
        SocketAddress::V6 { .. } => {},
    }
}

} // verus!
