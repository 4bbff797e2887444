//! Device identity and the pairing code.
use rcgen::PublicKeyData;
use sha2::Digest;
use vstd::prelude::*;

verus! {

/// SHA-256 of a message.
pub uninterp spec fn sha256_of(message: Seq<u8>) -> Seq<u8>;

/// Hashes with `sha2::Sha256::digest`. The digest depends on the message alone.
#[verifier::external_body]
pub(crate) fn sha256(message: &Vec<u8>) -> (result: [u8; 32])
    ensures
        result@ == sha256_of(message@),
{
    sha2::Sha256::digest(message.as_slice()).into()
}

/// Public key, as DER SubjectPublicKeyInfo, of a private key in DER PKCS#8.
pub uninterp spec fn spki_of_private_key(private_key: Seq<u8>) -> Seq<u8>;

/// Reads a private key with `rcgen::KeyPair::try_from` and takes its public key
/// with `rcgen::KeyPair::subject_public_key_info`. A key that is read has one
/// public key. Which bytes are read as a key is left open: reading an elliptic
/// curve key also draws random data from the system, and fails without it.
#[verifier::external_body]
fn read_private_key(private_key: &Vec<u8>) -> (result: Option<Vec<u8>>)
    ensures
        result matches Some(spki) ==> spki@ == spki_of_private_key(private_key@),
{
    let key_pair = rcgen::KeyPair::try_from(private_key.as_slice()).ok()?;
    Some(key_pair.subject_public_key_info())
}

/// Makes a key pair with `rcgen::KeyPair::generate` and gives its private key
/// (`rcgen::KeyPair::serialize_der`) and its public key. The key is random; what
/// is promised is that both belong to each other.
#[verifier::external_body]
fn generate_private_key() -> (result: Option<(Vec<u8>, Vec<u8>)>)
    ensures
        result matches Some(pair) ==> pair.1@ == spki_of_private_key(pair.0@),
{
    let key_pair = rcgen::KeyPair::generate().ok()?;
    Some((key_pair.serialize_der(), key_pair.subject_public_key_info()))
}

pub open spec fn hex_digit(value: int) -> char {
    if value < 10 {
        (48 + value) as char
    } else {
        (87 + value) as char
    }
}

/// Bytes in lowercase hexadecimal.
pub open spec fn hex_text(bytes: Seq<u8>) -> Seq<char>
    decreases bytes.len(),
{
    if bytes.len() == 0 {
        Seq::empty()
    } else {
        hex_text(bytes.drop_last()).push(hex_digit(bytes.last() as int / 16)).push(
            hex_digit(bytes.last() as int % 16),
        )
    }
}

pub(crate) fn hex_digit_text(value: u8) -> (result: &'static str)
    requires
        value < 16,
    ensures
        result@ == seq![hex_digit(value as int)],
{
    proof {
        reveal_strlit("0");
        reveal_strlit("1");
        reveal_strlit("2");
        reveal_strlit("3");
        reveal_strlit("4");
        reveal_strlit("5");
        reveal_strlit("6");
        reveal_strlit("7");
        reveal_strlit("8");
        reveal_strlit("9");
        reveal_strlit("a");
        reveal_strlit("b");
        reveal_strlit("c");
        reveal_strlit("d");
        reveal_strlit("e");
        reveal_strlit("f");
    }
    let text: &'static str = match value {
        0 => "0",
        1 => "1",
        2 => "2",
        3 => "3",
        4 => "4",
        5 => "5",
        6 => "6",
        7 => "7",
        8 => "8",
        9 => "9",
        10 => "a",
        11 => "b",
        12 => "c",
        13 => "d",
        14 => "e",
        _ => "f",
    };
    assert(text@ =~= seq![hex_digit(value as int)]);
    text
}

pub fn hex(bytes: &[u8]) -> (result: String)
    ensures
        result@ == hex_text(bytes@),
{
    let mut text = String::new();
    let mut at: usize = 0;
    assert(text@ =~= hex_text(bytes@.take(0)));
    while at < bytes.len()
        invariant
            at <= bytes@.len(),
            text@ == hex_text(bytes@.take(at as int)),
        decreases bytes@.len() - at,
    {
        let byte: u8 = bytes[at];
        let ghost before = text@;
        assert(bytes@.take(at + 1).drop_last() =~= bytes@.take(at as int));
        text.append(hex_digit_text(byte / 16));
        text.append(hex_digit_text(byte % 16));
        assert(text@ =~= before.push(hex_digit(byte as int / 16)).push(
            hex_digit(byte as int % 16),
        ));
        at = at + 1;
    }
    assert(bytes@.take(at as int) =~= bytes@);
    text
}

#[derive(Clone, Copy, Debug, PartialEq, Eq, Structural)]
pub enum IdentityError {
    /// No key could be generated.
    Generate,
    /// The stored key cannot be read.
    InvalidKey,
    /// The key file is no regular file, or group or others can reach it.
    InsecurePermissions,
}

/// Decides from what the file system says whether a key file may be used.
pub fn check_key_file(is_file: bool, mode: u32) -> (result: Result<(), IdentityError>)
    ensures
        result == if is_file && mode & 0o077 == 0 {
            Ok::<(), IdentityError>(())
        } else {
            Err(IdentityError::InsecurePermissions)
        },
{
    if !is_file || mode & 0o077 != 0 {
        Err(IdentityError::InsecurePermissions)
    } else {
        Ok(())
    }
}

/// The key pair by which other computers know this one.
#[derive(Debug, PartialEq, Eq)]
pub struct Identity {
    /// DER PKCS#8; kept in a file that only its owner can reach.
    pub private_key: Vec<u8>,
    /// DER SubjectPublicKeyInfo.
    pub public_key: Vec<u8>,
    pub digest: [u8; 32],
}

impl Identity {
    /// All three parts are of one key.
    pub open spec fn wf(&self) -> bool {
        &&& self.public_key@ == spki_of_private_key(self.private_key@)
        &&& self.digest@ == sha256_of(self.public_key@)
    }

    /// An identity of a private key and its public key.
    pub fn from_key_pair(private_key: Vec<u8>, spki: Vec<u8>) -> (result: Self)
        ensures
            result.private_key == private_key,
            result.public_key == spki,
            result.digest@ == sha256_of(spki@),
    {
        let digest = sha256(&spki);
        Identity { private_key, public_key: spki, digest }
    }

    /// The identity of a stored private key. Two loads of one key give the same
    /// identity.
    pub fn load(private_key: Vec<u8>) -> (result: Result<Self, IdentityError>)
        ensures
            result matches Ok(identity) ==> identity.wf() && identity.private_key == private_key,
            result matches Err(error) ==> error == IdentityError::InvalidKey,
    {
        match read_private_key(&private_key) {
            Some(spki) => Ok(Self::from_key_pair(private_key, spki)),
            None => Err(IdentityError::InvalidKey),
        }
    }

    /// A new identity, whose private key is to be stored.
    pub fn generate() -> (result: Result<Self, IdentityError>)
        ensures
            result matches Ok(identity) ==> identity.wf(),
            result matches Err(error) ==> error == IdentityError::Generate,
    {
        match generate_private_key() {
            Some(pair) => Ok(Self::from_key_pair(pair.0, pair.1)),
            None => Err(IdentityError::Generate),
        }
    }

    pub fn private_key_der(&self) -> (result: &Vec<u8>)
        ensures
            *result == self.private_key,
    {
        &self.private_key
    }

    pub fn spki(&self) -> (result: &Vec<u8>)
        ensures
            *result == self.public_key,
    {
        &self.public_key
    }

    pub fn fingerprint(&self) -> (result: [u8; 32])
        ensures
            result == self.digest,
    {
        self.digest
    }

    pub fn fingerprint_hex(&self) -> (result: String)
        ensures
            result@ == hex_text(self.digest@),
    {
        hex(self.digest.as_slice())
    }

    /// Six decimal digits derived from both identities and the pairing transcript.
    pub fn pairing_code(&self, peer_spki: &Vec<u8>, transcript: &Vec<u8>) -> (result: String)
        ensures
            result@ == code_of(self.public_key@, peer_spki@, transcript@),
    {
        let message = if bytes_at_most(&self.public_key, peer_spki) {
            code_message(&self.public_key, peer_spki, transcript)
        } else {
            code_message(peer_spki, &self.public_key, transcript)
        };
        let digest = sha256(&message);
        code_of_digest(digest)
    }
}

/// Storing a generated identity's private key and loading it again gives the
/// same public key and the same fingerprint.
pub proof fn identities_persist(first: Identity, second: Identity)
    requires
        first.wf(),
        second.wf(),
        first.private_key@ == second.private_key@,
    ensures
        first.public_key@ == second.public_key@,
        first.digest@ == second.digest@,
{
}

/// Bytes are ordered like words in a dictionary.
pub open spec fn bytes_ordered(left: Seq<u8>, right: Seq<u8>) -> bool
    decreases left.len(),
{
    if left.len() == 0 {
        true
    } else if right.len() == 0 {
        false
    } else if left[0] == right[0] {
        bytes_ordered(left.drop_first(), right.drop_first())
    } else {
        left[0] < right[0]
    }
}

/// Two different byte strings are ordered one way and not the other.
pub proof fn bytes_order_is_total(left: Seq<u8>, right: Seq<u8>)
    ensures
        left == right ==> bytes_ordered(left, right),
        left != right ==> bytes_ordered(left, right) != bytes_ordered(right, left),
    decreases left.len(),
{
    if left.len() > 0 && right.len() > 0 && left[0] == right[0] {
        bytes_order_is_total(left.drop_first(), right.drop_first());
        if left.drop_first() == right.drop_first() {
            assert(left =~= seq![left[0]] + left.drop_first());
            assert(right =~= seq![right[0]] + right.drop_first());
        }
    } else if left.len() == 0 && right.len() == 0 {
        assert(left =~= right);
    }
}

pub fn bytes_at_most(left: &Vec<u8>, right: &Vec<u8>) -> (result: bool)
    ensures
        result == bytes_ordered(left@, right@),
{
    let mut at: usize = 0;
    assert(left@.skip(0) =~= left@);
    assert(right@.skip(0) =~= right@);
    while at < left.len() && at < right.len() && left[at] == right[at]
        invariant
            at <= left@.len(),
            at <= right@.len(),
            bytes_ordered(left@, right@) == bytes_ordered(
                left@.skip(at as int),
                right@.skip(at as int),
            ),
        decreases left@.len() - at,
    {
        assert(left@.skip(at as int).drop_first() =~= left@.skip(at + 1));
        assert(right@.skip(at as int).drop_first() =~= right@.skip(at + 1));
        at = at + 1;
    }
    if at >= left.len() {
        true
    } else if at >= right.len() {
        false
    } else {
        left[at] < right[at]
    }
}

pub fn same_bytes(left: &Vec<u8>, right: &Vec<u8>) -> (result: bool)
    ensures
        result == (left@ == right@),
{
    proof {
        bytes_order_is_total(left@, right@);
        bytes_order_is_total(right@, left@);
    }
    bytes_at_most(left, right) && bytes_at_most(right, left)
}

/// Eight bytes of a number, most significant first.
pub open spec fn be_bytes(value: u64) -> Seq<u8> {
    seq![
        (value / 0x100_0000_0000_0000 % 256) as u8,
        (value / 0x1_0000_0000_0000 % 256) as u8,
        (value / 0x100_0000_0000 % 256) as u8,
        (value / 0x1_0000_0000 % 256) as u8,
        (value / 0x100_0000 % 256) as u8,
        (value / 0x1_0000 % 256) as u8,
        (value / 0x100 % 256) as u8,
        (value % 256) as u8,
    ]
}

/// A part of a message: its length in eight bytes, then its bytes.
pub open spec fn framed(part: Seq<u8>) -> Seq<u8> {
    be_bytes(part.len() as u64) + part
}

pub fn push_bytes(message: &mut Vec<u8>, part: &Vec<u8>)
    ensures
        final(message)@ == old(message)@ + part@,
{
    let mut at: usize = 0;
    assert(message@ =~= old(message)@ + part@.take(0));
    while at < part.len()
        invariant
            at <= part@.len(),
            message@ == old(message)@ + part@.take(at as int),
        decreases part@.len() - at,
    {
        message.push(part[at]);
        assert(message@ =~= old(message)@ + part@.take(at + 1));
        at = at + 1;
    }
    assert(part@.take(at as int) =~= part@);
}

pub fn push_framed(message: &mut Vec<u8>, part: &Vec<u8>)
    ensures
        final(message)@ == old(message)@ + framed(part@),
{
    let length: u64 = part.len() as u64;
    message.push((length / 0x100_0000_0000_0000 % 256) as u8);
    message.push((length / 0x1_0000_0000_0000 % 256) as u8);
    message.push((length / 0x100_0000_0000 % 256) as u8);
    message.push((length / 0x1_0000_0000 % 256) as u8);
    message.push((length / 0x100_0000 % 256) as u8);
    message.push((length / 0x1_0000 % 256) as u8);
    message.push((length / 0x100 % 256) as u8);
    message.push((length % 256) as u8);
    assert(message@ =~= old(message)@ + be_bytes(length));
    push_bytes(message, part);
    assert(message@ =~= old(message)@ + framed(part@));
}

/// "zflow pairing code v1" and a zero byte.
pub open spec fn code_label() -> Seq<u8> {
    seq![
        122u8,
        102,
        108,
        111,
        119,
        32,
        112,
        97,
        105,
        114,
        105,
        110,
        103,
        32,
        99,
        111,
        100,
        101,
        32,
        118,
        49,
        0,
    ]
}

/// The message whose digest gives the pairing code.
pub open spec fn code_message_of(first: Seq<u8>, second: Seq<u8>, transcript: Seq<u8>) -> Seq<u8> {
    code_label() + framed(first) + framed(second) + framed(transcript)
}

fn code_message(first: &Vec<u8>, second: &Vec<u8>, transcript: &Vec<u8>) -> (result: Vec<u8>)
    ensures
        result@ == code_message_of(first@, second@, transcript@),
{
    let mut message: Vec<u8> = vec![
        122,
        102,
        108,
        111,
        119,
        32,
        112,
        97,
        105,
        114,
        105,
        110,
        103,
        32,
        99,
        111,
        100,
        101,
        32,
        118,
        49,
        0,
    ];
    assert(message@ =~= code_label());
    push_framed(&mut message, first);
    push_framed(&mut message, second);
    push_framed(&mut message, transcript);
    message
}

/// The number that a digest's first four bytes spell, in six decimal digits.
pub open spec fn code_number(digest: Seq<u8>) -> int {
    (((digest[0] * 256 + digest[1]) * 256 + digest[2]) * 256 + digest[3]) % 1_000_000
}

pub open spec fn six_digits(value: int) -> Seq<char> {
    seq![
        hex_digit(value / 100_000 % 10),
        hex_digit(value / 10_000 % 10),
        hex_digit(value / 1_000 % 10),
        hex_digit(value / 100 % 10),
        hex_digit(value / 10 % 10),
        hex_digit(value % 10),
    ]
}

/// The pairing code that a digest gives.
pub fn code_of_digest(digest: [u8; 32]) -> (result: String)
    ensures
        result@ == six_digits(code_number(digest@)),
{
    let value: u32 = (((digest[0] as u32 * 256 + digest[1] as u32) * 256 + digest[2] as u32) * 256
        + digest[3] as u32) % 1_000_000;
    let mut text = String::new();
    text.append(hex_digit_text((value / 100_000 % 10) as u8));
    text.append(hex_digit_text((value / 10_000 % 10) as u8));
    text.append(hex_digit_text((value / 1_000 % 10) as u8));
    text.append(hex_digit_text((value / 100 % 10) as u8));
    text.append(hex_digit_text((value / 10 % 10) as u8));
    text.append(hex_digit_text((value % 10) as u8));
    assert(text@ =~= six_digits(value as int));
    text
}

pub open spec fn code_of(local: Seq<u8>, peer: Seq<u8>, transcript: Seq<u8>) -> Seq<char> {
    six_digits(
        code_number(
            sha256_of(
                if bytes_ordered(local, peer) {
                    code_message_of(local, peer, transcript)
                } else {
                    code_message_of(peer, local, transcript)
                },
            ),
        ),
    )
}

/// Both computers derive the same pairing code.
pub proof fn pairing_code_is_symmetric(left: Seq<u8>, right: Seq<u8>, transcript: Seq<u8>)
    ensures
        code_of(left, right, transcript) == code_of(right, left, transcript),
{
    bytes_order_is_total(left, right);
}

/// A pairing code is six decimal digits.
pub proof fn pairing_code_is_six_digits(left: Seq<u8>, right: Seq<u8>, transcript: Seq<u8>)
    ensures
        code_of(left, right, transcript).len() == 6,
        forall|i: int|
            0 <= i < 6 ==> '0' <= #[trigger] code_of(left, right, transcript)[i] <= '9',
{
}

/// The value of a hexadecimal digit, as its place in the order of the digits.
pub open spec fn hex_value(digit: char) -> int {
    if '0' <= digit <= '9' {
        digit as int - '0' as int
    } else {
        10 + digit as int - 'a' as int
    }
}

/// Hexadecimal text names its bytes: two digits for each, the higher one first,
/// so that different bytes have different texts.
pub proof fn hex_text_names_its_bytes(bytes: Seq<u8>, at: int)
    requires
        0 <= at < bytes.len(),
    ensures
        hex_text(bytes).len() == 2 * bytes.len(),
        16 * hex_value(hex_text(bytes)[2 * at]) + hex_value(hex_text(bytes)[2 * at + 1])
            == bytes[at],
        ({
            let high = hex_text(bytes)[2 * at];
            let low = hex_text(bytes)[2 * at + 1];
            &&& '0' <= high <= '9' || 'a' <= high <= 'f'
            &&& '0' <= low <= '9' || 'a' <= low <= 'f'
        }),
    decreases bytes.len(),
{
    hex_text_length(bytes.drop_last());
    hex_text_length(bytes);
    if at < bytes.len() - 1 {
        hex_text_names_its_bytes(bytes.drop_last(), at);
    }
}

proof fn hex_text_length(bytes: Seq<u8>)
    ensures
        hex_text(bytes).len() == 2 * bytes.len(),
    decreases bytes.len(),
{
    if bytes.len() > 0 {
        hex_text_length(bytes.drop_last());
    }
}

/// The number that decimal digits spell.
pub open spec fn spelled(digits: Seq<char>) -> int
    decreases digits.len(),
{
    if digits.len() == 0 {
        0
    } else {
        10 * spelled(digits.drop_last()) + (digits.last() as int - '0' as int)
    }
}

proof fn one_more_digit(digits: Seq<char>, at: int)
    requires
        0 <= at < digits.len(),
    ensures
        spelled(digits.take(at + 1)) == 10 * spelled(digits.take(at)) + (digits[at] as int
            - '0' as int),
{
    assert(digits.take(at + 1).drop_last() =~= digits.take(at));
}

/// A quotient is made of the next higher one and of its last digit.
proof fn quotient_and_digit(value: int, scale: int, base: int)
    requires
        0 <= value,
        0 < scale,
        0 < base,
    ensures
        value / scale == base * (value / (scale * base)) + value / scale % base,
{
    vstd::arithmetic::div_mod::lemma_div_denominator(value, scale, base);
    vstd::arithmetic::div_mod::lemma_fundamental_div_mod(value / scale, base);
}

/// A code spells the first four bytes of the digest, read as one number with the
/// highest byte first, as far as six digits go.
#[verifier::spinoff_prover]
pub proof fn codes_spell_the_digest(digest: Seq<u8>)
    requires
        digest.len() == 32,
    ensures
        ({
            let number = digest[0] * 0x100_0000 + digest[1] * 0x1_0000 + digest[2] * 0x100
                + digest[3];
            let code = spelled(six_digits(code_number(digest)));
            &&& 0 <= code < 1_000_000
            &&& (number - code) % 1_000_000 == 0
        }),
{
    let value = code_number(digest);
    let text = six_digits(value);
    assert(0 <= value < 1_000_000);
    assert forall|d: int| 0 <= d < 10 implies (#[trigger] hex_digit(d)) as int - '0' as int
        == d by {}
    assert(text.take(6) =~= text);
    assert(spelled(text.take(0)) == 0);
    one_more_digit(text, 0);
    one_more_digit(text, 1);
    one_more_digit(text, 2);
    one_more_digit(text, 3);
    one_more_digit(text, 4);
    one_more_digit(text, 5);
    quotient_and_digit(value, 10_000, 10);
    quotient_and_digit(value, 1_000, 10);
    quotient_and_digit(value, 100, 10);
    quotient_and_digit(value, 10, 10);
    quotient_and_digit(value, 1, 10);
    assert(spelled(text.take(1)) == value / 100_000);
    assert(spelled(text.take(2)) == value / 10_000);
    assert(spelled(text.take(3)) == value / 1_000);
    assert(spelled(text.take(4)) == value / 100);
    assert(spelled(text.take(5)) == value / 10);
    assert(spelled(text) == value);
}

/// The length that eight bytes name, the highest first.
pub open spec fn named_length(bytes: Seq<u8>) -> int
    decreases bytes.len(),
{
    if bytes.len() == 0 {
        0
    } else {
        256 * named_length(bytes.drop_last()) + bytes.last()
    }
}

proof fn one_more_byte(bytes: Seq<u8>, at: int)
    requires
        0 <= at < bytes.len(),
    ensures
        named_length(bytes.take(at + 1)) == 256 * named_length(bytes.take(at)) + bytes[at],
{
    assert(bytes.take(at + 1).drop_last() =~= bytes.take(at));
}

/// A framed part begins with its length in eight bytes and goes on with the part.
#[verifier::spinoff_prover]
pub proof fn frames_name_their_length(part: Seq<u8>)
    requires
        part.len() <= u64::MAX,
    ensures
        framed(part).len() == 8 + part.len(),
        named_length(framed(part).take(8)) == part.len(),
        framed(part).skip(8) == part,
{
    let size = part.len() as u64;
    let head = be_bytes(size);
    assert(framed(part).take(8) =~= head);
    assert(framed(part).skip(8) =~= part);
    assert(head.take(8) =~= head);
    assert(named_length(head.take(0)) == 0);
    one_more_byte(head, 0);
    one_more_byte(head, 1);
    one_more_byte(head, 2);
    one_more_byte(head, 3);
    one_more_byte(head, 4);
    one_more_byte(head, 5);
    one_more_byte(head, 6);
    one_more_byte(head, 7);
    let value = size as int;
    quotient_and_digit(value, 0x1_0000_0000_0000, 256);
    quotient_and_digit(value, 0x100_0000_0000, 256);
    quotient_and_digit(value, 0x1_0000_0000, 256);
    quotient_and_digit(value, 0x100_0000, 256);
    quotient_and_digit(value, 0x1_0000, 256);
    quotient_and_digit(value, 0x100, 256);
    quotient_and_digit(value, 1, 256);
    assert(named_length(head.take(1)) == value / 0x100_0000_0000_0000);
    assert(named_length(head.take(2)) == value / 0x1_0000_0000_0000);
    assert(named_length(head.take(3)) == value / 0x100_0000_0000);
    assert(named_length(head.take(4)) == value / 0x1_0000_0000);
    assert(named_length(head.take(5)) == value / 0x100_0000);
    assert(named_length(head.take(6)) == value / 0x1_0000);
    assert(named_length(head.take(7)) == value / 0x100);
    assert(named_length(head) == size);
}

/// Framed parts in a row can be told apart.
pub proof fn frames_are_unambiguous(
    first: Seq<u8>,
    rest: Seq<u8>,
    other: Seq<u8>,
    other_rest: Seq<u8>,
)
    requires
        first.len() <= u64::MAX,
        other.len() <= u64::MAX,
        framed(first) + rest == framed(other) + other_rest,
    ensures
        first == other,
        rest == other_rest,
{
    let whole = framed(first) + rest;
    frames_name_their_length(first);
    frames_name_their_length(other);
    assert(whole.take(8) =~= framed(first).take(8));
    assert(whole.take(8) =~= framed(other).take(8));
    assert(whole.subrange(8, 8 + first.len() as int) =~= first);
    assert((framed(other) + other_rest).subrange(8, 8 + other.len() as int) =~= other);
    assert(whole.skip(8 + first.len() as int) =~= rest);
    assert((framed(other) + other_rest).skip(8 + other.len() as int) =~= other_rest);
}

/// The digest behind a code covers both keys and the whole transcript: no two
/// different pairings are hashed as the same message.
pub proof fn code_messages_are_unambiguous(
    first: Seq<u8>,
    second: Seq<u8>,
    transcript: Seq<u8>,
    other_first: Seq<u8>,
    other_second: Seq<u8>,
    other_transcript: Seq<u8>,
)
    requires
        first.len() <= u64::MAX,
        second.len() <= u64::MAX,
        transcript.len() <= u64::MAX,
        other_first.len() <= u64::MAX,
        other_second.len() <= u64::MAX,
        other_transcript.len() <= u64::MAX,
        code_message_of(first, second, transcript) == code_message_of(
            other_first,
            other_second,
            other_transcript,
        ),
    ensures
        first == other_first,
        second == other_second,
        transcript == other_transcript,
{
    labelled_frames_are_unambiguous(
        code_label(),
        first,
        second,
        transcript,
        other_first,
        other_second,
        other_transcript,
    );
}

proof fn labelled_frames_are_unambiguous(
    label: Seq<u8>,
    a: Seq<u8>,
    b: Seq<u8>,
    c: Seq<u8>,
    d: Seq<u8>,
    e: Seq<u8>,
    f: Seq<u8>,
)
    requires
        a.len() <= u64::MAX,
        b.len() <= u64::MAX,
        c.len() <= u64::MAX,
        d.len() <= u64::MAX,
        e.len() <= u64::MAX,
        f.len() <= u64::MAX,
        label + framed(a) + framed(b) + framed(c) == label + framed(d) + framed(e) + framed(f),
    ensures
        a == d,
        b == e,
        c == f,
{
    rest_behind(label, framed(a), framed(b), framed(c));
    rest_behind(label, framed(d), framed(e), framed(f));
    frames_are_unambiguous(a, framed(b) + framed(c), d, framed(e) + framed(f));
    frames_are_unambiguous(b, framed(c), e, framed(f));
    assert(framed(c) + Seq::empty() =~= framed(c));
    assert(framed(f) + Seq::empty() =~= framed(f));
    frames_are_unambiguous(c, Seq::empty(), f, Seq::empty());
}

proof fn rest_behind(label: Seq<u8>, a: Seq<u8>, b: Seq<u8>, c: Seq<u8>)
    ensures
        (label + a + b + c).skip(label.len() as int) == a + (b + c),
{
    assert((label + a + b + c).skip(label.len() as int) =~= a + (b + c));
}

/// The digest behind a code is taken over the two keys, the smaller one first, and
/// the transcript, behind the words that say what it is for.
pub proof fn codes_cover_keys_and_transcript(local: Seq<u8>, peer: Seq<u8>, transcript: Seq<u8>)
    ensures
        exists|first: Seq<u8>, second: Seq<u8>|
            {
                &&& (first == local && second == peer) || (first == peer && second == local)
                &&& bytes_ordered(first, second)
                &&& code_of(local, peer, transcript) == six_digits(
                    code_number(
                        sha256_of(#[trigger] code_message_of(first, second, transcript)),
                    ),
                )
            },
        code_label().len() == 22,
        forall|i: int|
            0 <= i < 21 ==> #[trigger] code_label()[i] as char == "zflow pairing code v1"@[i],
        code_label()[21] == 0,
{
    reveal_strlit("zflow pairing code v1");
    bytes_order_is_total(local, peer);
    let one = code_message_of(local, peer, transcript);
    let two = code_message_of(peer, local, transcript);
    assert(code_of(local, peer, transcript) == six_digits(
        code_number(
            sha256_of(
                if bytes_ordered(local, peer) {
                    one
                } else {
                    two
                },
            ),
        ),
    ));
}

/// Byte strings come by the first byte in which they differ, and a byte string comes
/// before every longer one that begins with it.
pub proof fn bytes_come_by_their_first_difference(start: Seq<u8>, left: Seq<u8>, right: Seq<u8>)
    requires
        left.len() > 0,
        right.len() > 0,
        left[0] < right[0],
    ensures
        bytes_ordered(start + left, start + right),
        !bytes_ordered(start + right, start + left),
        bytes_ordered(start, start + left),
        !bytes_ordered(start + left, start),
    decreases start.len(),
{
    if start.len() > 0 {
        let rest = start.drop_first();
        bytes_come_by_their_first_difference(rest, left, right);
        assert((start + left).drop_first() =~= rest + left);
        assert((start + right).drop_first() =~= rest + right);
    } else {
        assert(start + left =~= left);
        assert(start + right =~= right);
    }
}

} // verus!
