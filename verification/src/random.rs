//! Random data and the numbers made of it.
use vstd::prelude::*;

verus! {

/// The number that bytes spell, least significant byte first.
pub open spec fn le_value(bytes: Seq<u8>) -> nat
    decreases bytes.len(),
{
    if bytes.len() == 0 {
        0
    } else {
        bytes[0] as nat + 256 * le_value(bytes.drop_first())
    }
}

/// Reads eight bytes as a number.
pub fn u64_from_le(bytes: [u8; 8]) -> (result: u64)
    ensures
        result == le_value(bytes@),
{
    proof {
        reveal_with_fuel(le_value, 9);
        let s = bytes@;
        assert(s.drop_first() =~= seq![s[1], s[2], s[3], s[4], s[5], s[6], s[7]]);
        assert(s.drop_first().drop_first() =~= seq![s[2], s[3], s[4], s[5], s[6], s[7]]);
        assert(s.drop_first().drop_first().drop_first() =~= seq![s[3], s[4], s[5], s[6], s[7]]);
        assert(s.drop_first().drop_first().drop_first().drop_first() =~= seq![
            s[4],
            s[5],
            s[6],
            s[7],
        ]);
    }
    let low: u64 = bytes[0] as u64 + 256 * (bytes[1] as u64 + 256 * (bytes[2] as u64 + 256 * (
    bytes[3] as u64)));
    let high: u64 = bytes[4] as u64 + 256 * (bytes[5] as u64 + 256 * (bytes[6] as u64 + 256 * (
    bytes[7] as u64)));
    low + 0x1_0000_0000 * high
}

/// Fills a buffer with `getrandom::fill`, which asks the operating system for
/// random data. Nothing is promised of the bytes but their number; `None` means
/// that the system had none to give.
#[verifier::external_body]
pub(crate) fn random_bytes(count: usize) -> (result: Option<Vec<u8>>)
    requires
        count <= 4096,
    ensures
        result matches Some(bytes) ==> bytes@.len() == count,
{
    let mut bytes = vec![0u8; count];
    getrandom::fill(&mut bytes).ok().map(|_| bytes)
}

pub fn first_eight(bytes: &Vec<u8>) -> (result: [u8; 8])
    requires
        bytes@.len() >= 8,
    ensures
        result@ == bytes@.take(8),
{
    let result: [u8; 8] = [
        bytes[0],
        bytes[1],
        bytes[2],
        bytes[3],
        bytes[4],
        bytes[5],
        bytes[6],
        bytes[7],
    ];
    assert(result@ =~= bytes@.take(8));
    result
}

/// The first byte is the lowest one: it is the rest by 256, and the other bytes are
/// the quotient.
pub proof fn the_first_byte_is_the_lowest(bytes: Seq<u8>)
    requires
        bytes.len() > 0,
    ensures
        le_value(bytes) % 256 == bytes[0],
        le_value(bytes) / 256 == le_value(bytes.skip(1)),
{
    assert(bytes.drop_first() =~= bytes.skip(1));
}

} // verus!
