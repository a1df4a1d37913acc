//! Identifiers of clients and users: 128-bit UUIDs, held as their sixteen
//! bytes, with the text form the uuid crate gives them.

use vstd::prelude::*;

use rand::{Rng, RngCore, SeedableRng};

verus! {

/// The lowercase hexadecimal digits.
pub open spec fn hex_digits() -> Seq<char> {
    seq!['0', '1', '2', '3', '4', '5', '6', '7', '8', '9', 'a', 'b', 'c', 'd', 'e', 'f']
}

/// Character `i` of the hyphenated lowercase text of the UUID with bytes `b`:
/// 8-4-4-4-12 hexadecimal digits, two per byte, high nibble first, with
/// hyphens between the groups.
pub open spec fn uuid_text_char(b: Seq<u8>, i: int) -> char {
    if i == 8 || i == 13 || i == 18 || i == 23 {
        '-'
    } else {
        let hyphens: int = if i < 8 {
            0
        } else if i < 13 {
            1
        } else if i < 18 {
            2
        } else if i < 23 {
            3
        } else {
            4
        };
        let digit = i - hyphens;
        let byte = b[digit / 2];
        if digit % 2 == 0 {
            hex_digits()[(byte / 16) as int]
        } else {
            hex_digits()[(byte % 16) as int]
        }
    }
}

/// The hyphenated lowercase text of the UUID with bytes `b`.
pub open spec fn uuid_text(b: Seq<u8>) -> Seq<char> {
    Seq::new(36, |i: int| uuid_text_char(b, i))
}

/// What `uuid::Uuid::parse_str` makes of a text: the bytes of the UUID it
/// reads, or `None` where it reports an error.
pub uninterp spec fn uuid_parse(text: Seq<char>) -> Option<Seq<u8>>;

/// Whether the bytes carry the RFC 4122 variant and the random (version 4)
/// version.
pub open spec fn is_random_v4(b: Seq<u8>) -> bool {
    &&& b[6] >> 4u8 == 4
    &&& b[8] >> 6u8 == 2
}

/// Calls `uuid::Uuid::from_bytes` and its `Display` (`to_string`): the
/// hyphenated lowercase text of the UUID; and, as the crate documents that its
/// parser accepts every format it generates, `parse_str` reads that text back
/// as the same bytes.
#[verifier::external_body]
fn uuid_hyphenated(bytes: [u8; 16]) -> (res: String)
    ensures
        res@ == uuid_text(bytes@),
        uuid_parse(res@) == Some(bytes@),
{
    uuid::Uuid::from_bytes(bytes).to_string()
}

/// Calls `uuid::Uuid::parse_str`: the bytes of the parsed UUID, or `None`
/// where it reports an error.
#[verifier::external_body]
fn uuid_parse_str(text: &str) -> (res: Option<[u8; 16]>)
    ensures
        res is None <==> uuid_parse(text@) is None,
        res matches Some(b) ==> uuid_parse(text@) == Some(b@),
{
    match uuid::Uuid::parse_str(text) {
        Ok(u) => Some(*u.as_bytes()),
        Err(_) => None,
    }
}

/// Calls `uuid::Builder::from_bytes(..).set_variant(Variant::RFC4122)
/// .set_version(Version::Random).build()`: the same bytes, except that byte 8
/// gets the variant bits `10` and byte 6 the version nibble 4.
#[verifier::external_body]
fn uuid_build_random(bytes: [u8; 16]) -> (res: [u8; 16])
    ensures
        forall|i: int| 0 <= i < 16 && i != 6 && i != 8 ==> res@[i] == bytes@[i],
        res@[6] == (bytes@[6] & 0x0f) | 0x40,
        res@[8] == (bytes@[8] & 0x3f) | 0x80,
{
    *uuid::Builder::from_bytes(bytes)
        .set_variant(uuid::Variant::RFC4122)
        .set_version(uuid::Version::Random)
        .build()
        .as_bytes()
}

/// Calls `rand::rngs::StdRng::from_entropy` and `fill_bytes`: sixteen bytes
/// from a generator seeded by the operating system. Nothing is stated of
/// their values; `from_entropy` panics where the operating system gives no
/// entropy.
#[verifier::external_body]
pub(crate) fn std_random_bytes() -> (res: [u8; 16]) {
    let mut bytes = [0u8; 16];
    rand::rngs::StdRng::from_entropy().fill_bytes(&mut bytes);
    bytes
}

/// Calls `rand_chacha::ChaCha20Rng::from_entropy` and `fill_bytes`: `n`
/// bytes from a ChaCha20 generator seeded by the operating system. Only their
/// number is stated; `from_entropy` panics where the operating system gives
/// no entropy.
#[verifier::external_body]
pub(crate) fn chacha_random_bytes(n: usize) -> (res: Vec<u8>)
    ensures
        res@.len() == n,
{
    let mut bytes = vec![0u8; n];
    rand_chacha::ChaCha20Rng::from_entropy().fill_bytes(&mut bytes);
    bytes
}

/// Calls `rand::thread_rng().gen_range(low, high)`: a number drawn from
/// `[low, high)`, as the crate documents; it panics unless `low < high`,
/// which `requires` leaves out.
#[verifier::external_body]
pub(crate) fn random_in_range(low: i32, high: i32) -> (res: i32)
    requires
        low < high,
    ensures
        low <= res < high,
{
    rand::thread_rng().gen_range(low, high)
}

/// A universally unique identifier.
#[derive(Clone, Copy, Debug)]
pub struct Uuid {
    pub bytes: [u8; 16],
}

impl Uuid {
    /// The all-zero UUID.
    pub fn nil() -> (res: Uuid)
        ensures
            forall|i: int| 0 <= i < 16 ==> res.bytes@[i] == 0,
    {
        Uuid { bytes: [0u8; 16] }
    }

    /// The hyphenated lowercase text of the UUID.
    pub fn to_string(&self) -> (res: String)
        ensures
            res@ == uuid_text(self.bytes@),
            uuid_parse(res@) == Some(self.bytes@),
    {
        uuid_hyphenated(self.bytes)
    }

    /// Whether two UUIDs are the same: they have the same bytes.
    pub fn same(&self, other: &Uuid) -> (res: bool)
        ensures
            res == (self.bytes@ == other.bytes@),
    {
        let mut i: usize = 0;
        while i < 16
            invariant
                i <= 16,
                self.bytes@.len() == 16,
                other.bytes@.len() == 16,
                forall|j: int| 0 <= j < i ==> self.bytes@[j] == other.bytes@[j],
            decreases 16 - i,
        {
            if self.bytes[i] != other.bytes[i] {
                return false;
            }
            i = i + 1;
        }
        assert(self.bytes@ =~= other.bytes@);
        true
    }

    /// Parses a UUID from its text, as the uuid crate reads it.
    pub fn parse_str(text: &str) -> (res: Option<Uuid>)
        ensures
            res is None <==> uuid_parse(text@) is None,
            res matches Some(u) ==> uuid_parse(text@) == Some(u.bytes@),
    {
        match uuid_parse_str(text) {
            Some(b) => Some(Uuid { bytes: b }),
            None => None,
        }
    }

    /// The random (version 4, RFC 4122 variant) UUID made of `random`: the
    /// same bytes with the version and variant bits set.
    pub fn from_random_bytes(random: [u8; 16]) -> (res: Uuid)
        ensures
            is_random_v4(res.bytes@),
            forall|i: int| 0 <= i < 16 && i != 6 && i != 8 ==> res.bytes@[i] == random@[i],
            res.bytes@[6] & 0x0f == random@[6] & 0x0f,
            res.bytes@[8] & 0x3f == random@[8] & 0x3f,
    {
        let b = uuid_build_random(random);
        let b6 = random[6];
        let b8 = random[8];
        let r6 = b[6];
        let r8 = b[8];
        assert(r6 >> 4u8 == 4 && r6 & 0x0f == b6 & 0x0f) by (bit_vector)
            requires
                r6 == (b6 & 0x0f) | 0x40,
        ;
        assert(r8 >> 6u8 == 2 && r8 & 0x3f == b8 & 0x3f) by (bit_vector)
            requires
                r8 == (b8 & 0x3f) | 0x80,
        ;
        Uuid { bytes: b }
    }
}

/// A fresh random identifier: sixteen bytes from a ChaCha20 generator seeded
/// by the operating system, made a version 4 UUID.
pub fn new_secure_uuid_v4() -> (res: Uuid)
    ensures
        is_random_v4(res.bytes@),
{
    let random = chacha_random_bytes(16);
    let mut bytes = [0u8; 16];
    let mut i: usize = 0;
    while i < 16
        invariant
            i <= 16,
            random@.len() == 16,
        decreases 16 - i,
    {
        bytes[i] = random[i];
        i = i + 1;
    }
    Uuid::from_random_bytes(bytes)
}

} // verus!
