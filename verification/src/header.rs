//! The header of a GUID partition table, and its form on a disk.
use simple_bytes::{Bytes, BytesArray};
use vstd::prelude::*;
use vstd::utf8::{encode_utf8, is_ascii_chars, is_ascii_chars_encode_utf8};

use crate::checksum::{calculate_crc32, crc32_iso_hdlc};
use crate::cursor;
use crate::cursor::{
    advanced, array_bytes, array_position, has_unread, next_bytes, slice_bytes, slice_position,
    written,
};
use crate::endian::{
    be_bytes, le_bytes, le_value, lemma_be_bytes_of_le_value, lemma_le_bytes_len,
    lemma_le_bytes_of_be_value, lemma_le_bytes_of_zero, zeros,
};
use crate::error::HeaderError;
use crate::guid::Guid;

pub use crate::create::write_header;
pub use crate::read::read_header_from_arbitrary_device;

verus! {

/// The number of bytes in a header.
pub const HEADER_SIZE: usize = 92;

/// Header describing a GPT disk.
#[derive(Debug, PartialEq, Eq)]
pub struct Header {
    /// GPT header magic signature, "EFI PART".
    pub signature: String,
    /// Major, minor.
    pub revision: (u16, u16),
    /// The size of the header, little endian on disk.
    pub header_size_le: u32,
    /// CRC32 of the header with this field zeroed.
    pub crc32: u32,
    /// Must be 0.
    pub reserved: u32,
    /// The block of this header: 1 for the primary one.
    pub current_lba: u64,
    /// The block of the other header.
    pub backup_lba: u64,
    /// First block for partitions (last block of the primary table + 1).
    pub first_usable: u64,
    /// Last block for partitions (first block of the secondary table - 1).
    pub last_usable: u64,
    /// GUID of the disk.
    pub disk_guid: Guid,
    /// First block of the partition entries.
    pub part_start: u64,
    /// Number of partition entries.
    pub num_parts: u32,
    /// Size of a partition entry, usually 128.
    pub part_size: u32,
    /// CRC32 of the partition table.
    pub crc32_parts: u32,
}

/// What a header says.
#[verifier::ext_equal]
pub struct HeaderView {
    pub signature: Seq<char>,
    pub revision: (u16, u16),
    pub header_size_le: u32,
    pub crc32: u32,
    pub reserved: u32,
    pub current_lba: u64,
    pub backup_lba: u64,
    pub first_usable: u64,
    pub last_usable: u64,
    pub disk_guid: Seq<u8>,
    pub part_start: u64,
    pub num_parts: u32,
    pub part_size: u32,
    pub crc32_parts: u32,
}

impl View for Header {
    type V = HeaderView;

    open spec fn view(&self) -> HeaderView {
        HeaderView {
            signature: self.signature@,
            revision: self.revision,
            header_size_le: self.header_size_le,
            crc32: self.crc32,
            reserved: self.reserved,
            current_lba: self.current_lba,
            backup_lba: self.backup_lba,
            first_usable: self.first_usable,
            last_usable: self.last_usable,
            disk_guid: self.disk_guid@,
            part_start: self.part_start,
            num_parts: self.num_parts,
            part_size: self.part_size,
            crc32_parts: self.crc32_parts,
        }
    }
}

impl Clone for Header {
    fn clone(&self) -> (copy: Header)
        ensures
            copy@ == self@,
    {
        Header {
            signature: self.signature.clone(),
            revision: self.revision,
            header_size_le: self.header_size_le,
            crc32: self.crc32,
            reserved: self.reserved,
            current_lba: self.current_lba,
            backup_lba: self.backup_lba,
            first_usable: self.first_usable,
            last_usable: self.last_usable,
            disk_guid: self.disk_guid,
            part_start: self.part_start,
            num_parts: self.num_parts,
            part_size: self.part_size,
            crc32_parts: self.crc32_parts,
        }
    }
}

/// "EFI PART" in ASCII: the first bytes of every header on a disk.
pub open spec fn signature_bytes() -> Seq<u8> {
    seq![0x45u8, 0x46u8, 0x49u8, 0x20u8, 0x50u8, 0x41u8, 0x52u8, 0x54u8]
}

/// A GUID with the bytes of its first three groups turned around: the form on a disk for
/// the bytes of the text form, and the other way round.
pub open spec fn mixed_endian(guid: Seq<u8>) -> Seq<u8> {
    guid.subrange(0, 4).reverse() + guid.subrange(4, 6).reverse() + guid.subrange(6, 8).reverse()
        + guid.subrange(8, 16)
}

impl HeaderView {
    /// The fields of the header in the order and form in which a disk holds them, with the
    /// given checksums. The reserved field is stored as zero.
    pub open spec fn fields(self, header_sum: u32, table_sum: u32) -> Seq<u8> {
        encode_utf8(self.signature)
            + le_bytes(self.revision.1 as nat, 2)
            + le_bytes(self.revision.0 as nat, 2)
            + le_bytes(self.header_size_le as nat, 4)
            + le_bytes(header_sum as nat, 4)
            + le_bytes(0, 4)
            + le_bytes(self.current_lba as nat, 8)
            + le_bytes(self.backup_lba as nat, 8)
            + le_bytes(self.first_usable as nat, 8)
            + le_bytes(self.last_usable as nat, 8)
            + mixed_endian(self.disk_guid)
            + le_bytes(self.part_start as nat, 8)
            + le_bytes(self.num_parts as nat, 4)
            + le_bytes(self.part_size as nat, 4)
            + le_bytes(table_sum as nat, 4)
    }

    /// The bytes of the header on a disk: its fields, filled up with zeros.
    pub open spec fn encoded(self, header_sum: u32, table_sum: u32) -> Seq<u8> {
        let fields = self.fields(header_sum, table_sum);
        fields + zeros((HEADER_SIZE - fields.len()) as nat)
    }

    /// Whether the signature leaves room for the other fields.
    pub open spec fn fits(self) -> bool {
        encode_utf8(self.signature).len() <= 8
    }
}

/// A header's bytes, zero at first, being filled from the start.
struct HeaderWriter {
    cursor: BytesArray<92>,
    done: Ghost<Seq<u8>>,
}

impl HeaderWriter {
    spec fn inv(self) -> bool {
        &&& self.done@.len() <= HEADER_SIZE
        &&& array_position(self.cursor) == self.done@.len()
        &&& array_bytes(self.cursor) == self.done@ + zeros((HEADER_SIZE - self.done@.len()) as nat)
    }

    spec fn has_room(self, len: nat) -> bool {
        self.inv() && self.done@.len() + len <= HEADER_SIZE
    }

    /// Whether this is `before` with `data` written to it.
    spec fn wrote(self, before: HeaderWriter, data: Seq<u8>) -> bool {
        self.inv() && self.done@ == before.done@ + data
    }

    fn new() -> (writer: HeaderWriter)
        ensures
            writer.inv(),
            writer.done@ == Seq::<u8>::empty(),
    {
        let cursor = cursor::from_array([0u8; 92]);
        assert(array_bytes(cursor) =~= Seq::empty() + zeros(92));
        HeaderWriter { cursor, done: Ghost(Seq::empty()) }
    }

    /// What is written to the cursor comes behind what was written before.
    proof fn lemma_wrote(self, before: HeaderWriter, data: Seq<u8>)
        requires
            before.has_room(data.len()),
            written(before.cursor, self.cursor, data),
            self.done@ == before.done@ + data,
        ensures
            self.wrote(before, data),
    {
        let all = array_bytes(before.cursor);
        let len = (before.done@.len() + data.len()) as int;
        assert(all.take(before.done@.len() as int) =~= before.done@);
        assert(all.skip(len) =~= zeros((HEADER_SIZE - len) as nat));
    }

    fn put(&mut self, data: &[u8])
        requires
            old(self).has_room(data@.len()),
        ensures
            final(self).wrote(*old(self), data@),
    {
        cursor::write(&mut self.cursor, data);
        self.done = Ghost(old(self).done@ + data@);
        proof {
            self.lemma_wrote(*old(self), data@);
        }
    }

    fn put_u16(&mut self, value: u16)
        requires
            old(self).has_room(2),
        ensures
            final(self).wrote(*old(self), le_bytes(value as nat, 2)),
    {
        cursor::write_le_u16(&mut self.cursor, value);
        self.done = Ghost(old(self).done@ + le_bytes(value as nat, 2));
        proof {
            lemma_le_bytes_len(value as nat, 2);
            self.lemma_wrote(*old(self), le_bytes(value as nat, 2));
        }
    }

    fn put_u32(&mut self, value: u32)
        requires
            old(self).has_room(4),
        ensures
            final(self).wrote(*old(self), le_bytes(value as nat, 4)),
    {
        cursor::write_le_u32(&mut self.cursor, value);
        self.done = Ghost(old(self).done@ + le_bytes(value as nat, 4));
        proof {
            lemma_le_bytes_len(value as nat, 4);
            self.lemma_wrote(*old(self), le_bytes(value as nat, 4));
        }
    }

    fn put_u64(&mut self, value: u64)
        requires
            old(self).has_room(8),
        ensures
            final(self).wrote(*old(self), le_bytes(value as nat, 8)),
    {
        cursor::write_le_u64(&mut self.cursor, value);
        self.done = Ghost(old(self).done@ + le_bytes(value as nat, 8));
        proof {
            lemma_le_bytes_len(value as nat, 8);
            self.lemma_wrote(*old(self), le_bytes(value as nat, 8));
        }
    }
}

impl Header {
    /// The bytes of the header on a disk, with the given checksums, or zero where one is
    /// not given.
    pub fn as_bytes(
        &self,
        header_checksum: Option<u32>,
        partitions_checksum: Option<u32>,
    ) -> (bytes: [u8; 92])
        requires
            self@.fits(),
        ensures
            bytes@ == self@.encoded(
                match header_checksum {
                    Some(sum) => sum,
                    None => 0,
                },
                match partitions_checksum {
                    Some(sum) => sum,
                    None => 0,
                },
            ),
    {
        broadcast use lemma_le_bytes_len;

        let mut writer = HeaderWriter::new();
        let fields = self.disk_guid.as_fields();
        let header_sum: u32 = match header_checksum {
            Some(sum) => sum,
            None => 0,
        };
        let table_sum: u32 = match partitions_checksum {
            Some(sum) => sum,
            None => 0,
        };

        writer.put(self.signature.as_str().as_bytes());
        writer.put_u16(self.revision.1);
        writer.put_u16(self.revision.0);
        writer.put_u32(self.header_size_le);
        writer.put_u32(header_sum);
        writer.put_u32(0);
        writer.put_u64(self.current_lba);
        writer.put_u64(self.backup_lba);
        writer.put_u64(self.first_usable);
        writer.put_u64(self.last_usable);
        writer.put_u32(fields.0);
        writer.put_u16(fields.1);
        writer.put_u16(fields.2);
        writer.put(&fields.3);
        writer.put_u64(self.part_start);
        writer.put_u32(self.num_parts);
        writer.put_u32(self.part_size);
        writer.put_u32(table_sum);

        proof {
            let guid = self.disk_guid@;
            lemma_le_bytes_of_be_value(guid.subrange(0, 4));
            lemma_le_bytes_of_be_value(guid.subrange(4, 6));
            lemma_le_bytes_of_be_value(guid.subrange(6, 8));
            assert(array_bytes(writer.cursor) =~= self@.encoded(header_sum, table_sum));
        }
        cursor::into_array(writer.cursor)
    }
}

/// The number that bytes `from` to `to` hold.
pub open spec fn field(raw: Seq<u8>, from: int, to: int) -> nat {
    le_value(raw.subrange(from, to))
}

/// What the bytes of a header say, if they are valid.
pub open spec fn decoded(raw: Seq<u8>) -> HeaderView {
    HeaderView {
        signature: "EFI PART"@,
        revision: (field(raw, 10, 12) as u16, field(raw, 8, 10) as u16),
        header_size_le: field(raw, 12, 16) as u32,
        crc32: field(raw, 16, 20) as u32,
        reserved: field(raw, 20, 24) as u32,
        current_lba: field(raw, 24, 32) as u64,
        backup_lba: field(raw, 32, 40) as u64,
        first_usable: field(raw, 40, 48) as u64,
        last_usable: field(raw, 48, 56) as u64,
        disk_guid: mixed_endian(raw.subrange(56, 72)),
        part_start: field(raw, 72, 80) as u64,
        num_parts: field(raw, 80, 84) as u32,
        part_size: field(raw, 84, 88) as u32,
        crc32_parts: field(raw, 88, 92) as u32,
    }
}

/// The bytes of a header with its checksum zeroed.
pub open spec fn without_checksum(raw: Seq<u8>) -> Seq<u8> {
    raw.take(16) + zeros(4) + raw.skip(20)
}

/// What reading the bytes of a header gives, where `sum` is the checksum found for it.
pub open spec fn checked(raw: Seq<u8>, sum: u32) -> Result<HeaderView, HeaderError> {
    if raw.take(8) != signature_bytes() {
        Err(HeaderError::InvalidSignature)
    } else if decoded(raw).crc32 != sum {
        Err(HeaderError::InvalidChecksum)
    } else {
        Ok(decoded(raw))
    }
}

/// What the bytes of a header say, or what is wrong with them.
pub open spec fn header_in(raw: Seq<u8>) -> Result<HeaderView, HeaderError> {
    checked(raw, crc32_iso_hdlc(without_checksum(raw)))
}

/// A result by what its header says.
pub open spec fn viewed(result: Result<Header, HeaderError>) -> Result<HeaderView, HeaderError> {
    match result {
        Ok(header) => Ok(header@),
        Err(error) => Err(error),
    }
}

/// Parses a uuid with first 3 portions in little endian.
pub fn parse_uuid(rdr: &mut Bytes<'_>) -> (result: Result<Guid, HeaderError>)
    requires
        has_unread(*old(rdr), 0),
    ensures
        match result {
            Ok(guid) => {
                &&& has_unread(*old(rdr), 16)
                &&& guid@ == mixed_endian(next_bytes(*old(rdr), 16))
                &&& advanced(*old(rdr), *final(rdr), 16)
            },
            Err(error) => {
                &&& !has_unread(*old(rdr), 16)
                &&& error == HeaderError::UuidTooShort
                &&& *final(rdr) == *old(rdr)
            },
        },
{
    if cursor::remaining(rdr).len() < 16 {
        return Err(HeaderError::UuidTooShort);
    }
    let ghost stored = next_bytes(*rdr, 16);
    let d1 = cursor::read_le_u32(rdr);
    let d2 = cursor::read_le_u16(rdr);
    let d3 = cursor::read_le_u16(rdr);
    let rest = cursor::read(rdr, 8);
    let d4 = [rest[0], rest[1], rest[2], rest[3], rest[4], rest[5], rest[6], rest[7]];
    let guid = Guid::from_fields(d1, d2, d3, &d4);
    proof {
        let start = slice_position(*old(rdr)) as int;
        let all = slice_bytes(*old(rdr));
        assert(all.subrange(start, start + 4) =~= stored.subrange(0, 4));
        assert(all.subrange(start + 4, start + 6) =~= stored.subrange(4, 6));
        assert(all.subrange(start + 6, start + 8) =~= stored.subrange(6, 8));
        assert(d4@ =~= stored.subrange(8, 16));
        lemma_be_bytes_of_le_value(stored.subrange(0, 4));
        lemma_be_bytes_of_le_value(stored.subrange(4, 6));
        lemma_be_bytes_of_le_value(stored.subrange(6, 8));
    }
    Ok(guid)
}

/// Reads the bytes of a header, given the checksum that was computed for them.
pub fn check_header(raw: &[u8; 92], computed: u32) -> (result: Result<Header, HeaderError>)
    ensures
        viewed(result) == checked(raw@, computed),
{
    let mut rdr = cursor::from_slice(raw);
    let start = cursor::read(&mut rdr, 8);
    assert(start@ == raw@.take(8));
    if !is_signature(&start) {
        return Err(HeaderError::InvalidSignature);
    }
    let minor = cursor::read_le_u16(&mut rdr);
    let major = cursor::read_le_u16(&mut rdr);
    let header_size_le = cursor::read_le_u32(&mut rdr);
    let crc32 = cursor::read_le_u32(&mut rdr);
    let reserved = cursor::read_le_u32(&mut rdr);
    let current_lba = cursor::read_le_u64(&mut rdr);
    let backup_lba = cursor::read_le_u64(&mut rdr);
    let first_usable = cursor::read_le_u64(&mut rdr);
    let last_usable = cursor::read_le_u64(&mut rdr);
    let disk_guid = match parse_uuid(&mut rdr) {
        Ok(guid) => guid,
        Err(error) => {
            return Err(error);
        },
    };
    let part_start = cursor::read_le_u64(&mut rdr);
    let num_parts = cursor::read_le_u32(&mut rdr);
    let part_size = cursor::read_le_u32(&mut rdr);
    let crc32_parts = cursor::read_le_u32(&mut rdr);
    let header = Header {
        signature: "EFI PART".to_string(),
        revision: (major, minor),
        header_size_le,
        crc32,
        reserved,
        current_lba,
        backup_lba,
        first_usable,
        last_usable,
        disk_guid,
        part_start,
        num_parts,
        part_size,
        crc32_parts,
    };
    assert(header@ == decoded(raw@));
    if computed == header.crc32 {
        Ok(header)
    } else {
        Err(HeaderError::InvalidChecksum)
    }
}

/// Whether the bytes are "EFI PART".
fn is_signature(start: &Vec<u8>) -> (same: bool)
    requires
        start@.len() == 8,
    ensures
        same == (start@ == signature_bytes()),
{
    let same = start[0] == 0x45 && start[1] == 0x46 && start[2] == 0x49 && start[3] == 0x20
        && start[4] == 0x50 && start[5] == 0x41 && start[6] == 0x52 && start[7] == 0x54;
    proof {
        if same {
            assert(start@ =~= signature_bytes());
        }
    }
    same
}

/// The checksum of the bytes of a header: that of the bytes with the checksum zeroed.
pub fn header_checksum(raw: &[u8; 92]) -> (sum: u32)
    ensures
        sum == crc32_iso_hdlc(without_checksum(raw@)),
{
    let mut bytes = cursor::from_array(*raw);
    cursor::seek(&mut bytes, 16);
    cursor::write_u32(&mut bytes, 0);
    proof {
        lemma_le_bytes_of_zero(4);
        assert(be_bytes(0, 4) =~= zeros(4));
        assert(array_bytes(bytes) =~= without_checksum(raw@));
    }
    calculate_crc32(cursor::as_slice(&bytes))
}

/// Reads a header from its bytes on a disk.
pub fn file_read_header(raw: &[u8; 92]) -> (result: Result<Header, HeaderError>)
    ensures
        viewed(result) == header_in(raw@),
{
    check_header(raw, header_checksum(raw))
}

/// The text of the signature is stored as its bytes.
pub proof fn lemma_signature()
    ensures
        encode_utf8("EFI PART"@) == signature_bytes(),
{
    reveal_strlit("EFI PART");
    let text = "EFI PART"@;
    assert(is_ascii_chars(text));
    is_ascii_chars_encode_utf8(text);
    assert(encode_utf8(text) =~= signature_bytes());
}

/// A header is read as what its fields hold, and a result as the header or error in it.
pub proof fn law_header_is_viewed(header: Header, result: Result<Header, HeaderError>)
    ensures
        header@.signature == header.signature@,
        header@.disk_guid == header.disk_guid.bytes@,
        header@.revision == header.revision,
        header@.header_size_le == header.header_size_le,
        header@.crc32 == header.crc32,
        header@.reserved == header.reserved,
        header@.current_lba == header.current_lba,
        header@.backup_lba == header.backup_lba,
        header@.first_usable == header.first_usable,
        header@.last_usable == header.last_usable,
        header@.part_start == header.part_start,
        header@.num_parts == header.num_parts,
        header@.part_size == header.part_size,
        header@.crc32_parts == header.crc32_parts,
        result matches Ok(made) ==> viewed(result) == Ok::<HeaderView, HeaderError>(made@),
        result matches Err(error) ==> viewed(result) == Err::<HeaderView, HeaderError>(error),
{
}

} // verus!
