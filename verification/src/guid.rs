//! Globally unique identifiers, and what is relied on of the `uuid` crate.
use vstd::prelude::*;

use crate::endian::{be_bytes, be_value};

verus! {

/// A globally unique identifier, by its sixteen bytes in the order of its text form.
#[derive(Clone, Copy, Debug, PartialEq, Eq)]
pub struct Guid {
    /// The bytes, the first one being the leftmost in text.
    pub bytes: [u8; 16],
}

impl View for Guid {
    type V = Seq<u8>;

    open spec fn view(&self) -> Seq<u8> {
        self.bytes@
    }
}

/// The lower-case digit for a value below sixteen.
pub open spec fn hex_digit(value: int) -> char {
    if value < 10 {
        ('0' as int + value) as char
    } else {
        ('a' as int + value - 10) as char
    }
}

/// Two digits for each byte, the high one first.
pub open spec fn hex(bytes: Seq<u8>) -> Seq<char> {
    Seq::new(
        2 * bytes.len(),
        |i: int|
            hex_digit(
                if i % 2 == 0 {
                    bytes[i / 2] as int / 16
                } else {
                    bytes[i / 2] as int % 16
                },
            ),
    )
}

/// The text of a GUID: its bytes in groups of 4, 2, 2, 2 and 6, with hyphens between.
pub open spec fn hyphenated(bytes: Seq<u8>) -> Seq<char> {
    hex(bytes.subrange(0, 4)) + seq!['-'] + hex(bytes.subrange(4, 6)) + seq!['-'] + hex(
        bytes.subrange(6, 8),
    ) + seq!['-'] + hex(bytes.subrange(8, 10)) + seq!['-'] + hex(bytes.subrange(10, 16))
}

/// Whether the bytes are marked as those of a random identifier: version 4, in the
/// variant of RFC 4122.
pub open spec fn is_random(bytes: Seq<u8>) -> bool {
    &&& bytes[6] / 16 == 4
    &&& bytes[8] / 64 == 2
}

/// `uuid::Uuid::as_fields`: the first four bytes, the next two and the next two as
/// big-endian numbers, and the last eight as they are.
#[verifier::external_body]
fn uuid_as_fields(bytes: [u8; 16]) -> (fields: (u32, u16, u16, [u8; 8]))
    ensures
        fields.0 == be_value(bytes@.subrange(0, 4)),
        fields.1 == be_value(bytes@.subrange(4, 6)),
        fields.2 == be_value(bytes@.subrange(6, 8)),
        fields.3@ == bytes@.subrange(8, 16),
{
    let uuid = uuid::Uuid::from_bytes(bytes);
    let (d1, d2, d3, d4) = uuid.as_fields();
    (d1, d2, d3, *d4)
}

/// `uuid::Uuid::from_fields`: the three numbers as big-endian bytes, then `d4`.
#[verifier::external_body]
fn uuid_from_fields(d1: u32, d2: u16, d3: u16, d4: &[u8; 8]) -> (bytes: [u8; 16])
    ensures
        bytes@ == be_bytes(d1 as nat, 4) + be_bytes(d2 as nat, 2) + be_bytes(d3 as nat, 2) + d4@,
{
    uuid::Uuid::from_fields(d1, d2, d3, d4).into_bytes()
}

/// `uuid::Uuid::new_v4`: random bytes with the marks of a random identifier. It panics
/// where the operating system has no randomness to give.
#[verifier::external_body]
fn uuid_new_v4() -> (bytes: [u8; 16])
    ensures
        is_random(bytes@),
{
    uuid::Uuid::new_v4().into_bytes()
}

/// `uuid::Uuid`'s `Display`: the hyphenated text with lower-case digits.
#[verifier::external_body]
fn uuid_to_string(bytes: [u8; 16]) -> (text: String)
    ensures
        text@ == hyphenated(bytes@),
{
    uuid::Uuid::from_bytes(bytes).to_string()
}

impl Guid {
    /// The identifier as three numbers and eight bytes.
    pub fn as_fields(&self) -> (fields: (u32, u16, u16, [u8; 8]))
        ensures
            fields.0 == be_value(self@.subrange(0, 4)),
            fields.1 == be_value(self@.subrange(4, 6)),
            fields.2 == be_value(self@.subrange(6, 8)),
            fields.3@ == self@.subrange(8, 16),
    {
        uuid_as_fields(self.bytes)
    }

    /// The identifier with the given fields.
    pub fn from_fields(d1: u32, d2: u16, d3: u16, d4: &[u8; 8]) -> (guid: Guid)
        ensures
            guid@ == be_bytes(d1 as nat, 4) + be_bytes(d2 as nat, 2) + be_bytes(d3 as nat, 2) + d4@,
    {
        Guid { bytes: uuid_from_fields(d1, d2, d3, d4) }
    }

    /// A new random identifier.
    pub fn new_v4() -> (guid: Guid)
        ensures
            is_random(guid@),
    {
        Guid { bytes: uuid_new_v4() }
    }

    /// The hyphenated text of the identifier.
    pub fn to_text(&self) -> (text: String)
        ensures
            text@ == hyphenated(self@),
    {
        uuid_to_string(self.bytes)
    }
}

/// The text of a GUID has 36 characters: a hyphen at four places, and two digits for each
/// byte at the others. The digits are 0 to 9 and a to f, the high one first.
pub proof fn law_text_of_guid(bytes: Seq<u8>)
    requires
        bytes.len() == 16,
    ensures
        hyphenated(bytes).len() == 36,
        hyphenated(bytes)[8] == '-',
        hyphenated(bytes)[13] == '-',
        hyphenated(bytes)[18] == '-',
        hyphenated(bytes)[23] == '-',
        hyphenated(bytes)[0] == hex_digit(bytes[0] as int / 16),
        hyphenated(bytes)[1] == hex_digit(bytes[0] as int % 16),
        hyphenated(bytes)[2] == hex_digit(bytes[1] as int / 16),
        hyphenated(bytes)[3] == hex_digit(bytes[1] as int % 16),
        hyphenated(bytes)[4] == hex_digit(bytes[2] as int / 16),
        hyphenated(bytes)[5] == hex_digit(bytes[2] as int % 16),
        hyphenated(bytes)[6] == hex_digit(bytes[3] as int / 16),
        hyphenated(bytes)[7] == hex_digit(bytes[3] as int % 16),
        hyphenated(bytes)[9] == hex_digit(bytes[4] as int / 16),
        hyphenated(bytes)[10] == hex_digit(bytes[4] as int % 16),
        hyphenated(bytes)[11] == hex_digit(bytes[5] as int / 16),
        hyphenated(bytes)[12] == hex_digit(bytes[5] as int % 16),
        hyphenated(bytes)[14] == hex_digit(bytes[6] as int / 16),
        hyphenated(bytes)[15] == hex_digit(bytes[6] as int % 16),
        hyphenated(bytes)[16] == hex_digit(bytes[7] as int / 16),
        hyphenated(bytes)[17] == hex_digit(bytes[7] as int % 16),
        hyphenated(bytes)[19] == hex_digit(bytes[8] as int / 16),
        hyphenated(bytes)[20] == hex_digit(bytes[8] as int % 16),
        hyphenated(bytes)[21] == hex_digit(bytes[9] as int / 16),
        hyphenated(bytes)[22] == hex_digit(bytes[9] as int % 16),
        hyphenated(bytes)[24] == hex_digit(bytes[10] as int / 16),
        hyphenated(bytes)[25] == hex_digit(bytes[10] as int % 16),
        hyphenated(bytes)[26] == hex_digit(bytes[11] as int / 16),
        hyphenated(bytes)[27] == hex_digit(bytes[11] as int % 16),
        hyphenated(bytes)[28] == hex_digit(bytes[12] as int / 16),
        hyphenated(bytes)[29] == hex_digit(bytes[12] as int % 16),
        hyphenated(bytes)[30] == hex_digit(bytes[13] as int / 16),
        hyphenated(bytes)[31] == hex_digit(bytes[13] as int % 16),
        hyphenated(bytes)[32] == hex_digit(bytes[14] as int / 16),
        hyphenated(bytes)[33] == hex_digit(bytes[14] as int % 16),
        hyphenated(bytes)[34] == hex_digit(bytes[15] as int / 16),
        hyphenated(bytes)[35] == hex_digit(bytes[15] as int % 16),
{
}

/// The digits of the values below sixteen.
pub proof fn law_hex_digits(value: int)
    requires
        0 <= value < 16,
    ensures
        value < 10 ==> hex_digit(value) as int == 0x30 + value,
        value >= 10 ==> hex_digit(value) as int == 0x61 + value - 10,
{
}

/// A GUID is read as its bytes, and the marks of a random one are its version, 4, and its
/// variant, in the high bits of two of them.
pub proof fn law_guid_is_viewed(guid: Guid)
    ensures
        guid@ == guid.bytes@,
        is_random(guid@) <==> 0x40 <= guid.bytes@[6] < 0x50 && 0x80 <= guid.bytes@[8] < 0xc0,
{
}

} // verus!
