//! What writing and reading the bytes of a header have to do with each other.
use vstd::prelude::*;
use vstd::utf8::encode_utf8;

use crate::checksum::{crc32_iso_hdlc, law_one_byte_changes_checksum};
use crate::endian::{
    law_byte_weights, le_bytes, lemma_byte_ranges, lemma_le_bytes_len, lemma_le_bytes_of_value,
    lemma_le_bytes_of_zero, lemma_le_value_of_bytes, zeros,
};
use crate::error::HeaderError;
use crate::header::{
    checked, decoded, header_in, lemma_signature, mixed_endian, signature_bytes, without_checksum,
    HeaderView, HEADER_SIZE,
};

verus! {

impl HeaderView {
    /// The header as a disk holds it: with the checksums set, and nothing reserved.
    pub open spec fn sealed(self, table_sum: u32) -> HeaderView {
        HeaderView {
            crc32: self.own_checksum(table_sum),
            reserved: 0,
            crc32_parts: table_sum,
            ..self
        }
    }

    /// Whether this is what a header can say: its signature is that of all headers, and
    /// its GUID has sixteen bytes.
    pub open spec fn valid(self) -> bool {
        &&& self.signature == "EFI PART"@
        &&& self.disk_guid.len() == 16
    }
}

/// Each field of a header is found at its offset.
proof fn lemma_field_offsets(
    signature: Seq<u8>,
    minor: Seq<u8>,
    major: Seq<u8>,
    size: Seq<u8>,
    sum: Seq<u8>,
    reserved: Seq<u8>,
    current: Seq<u8>,
    backup: Seq<u8>,
    first: Seq<u8>,
    last: Seq<u8>,
    guid: Seq<u8>,
    start: Seq<u8>,
    count: Seq<u8>,
    entry: Seq<u8>,
    table: Seq<u8>,
)
    requires
        signature.len() == 8,
        minor.len() == 2,
        major.len() == 2,
        size.len() == 4,
        sum.len() == 4,
        reserved.len() == 4,
        current.len() == 8,
        backup.len() == 8,
        first.len() == 8,
        last.len() == 8,
        guid.len() == 16,
        start.len() == 8,
        count.len() == 4,
        entry.len() == 4,
        table.len() == 4,
    ensures
        ({
            let all = signature + minor + major + size + sum + reserved + current + backup + first
                + last + guid + start + count + entry + table;
            &&& all.len() == HEADER_SIZE
            &&& all.subrange(0, 8) == signature
            &&& all.subrange(8, 10) == minor
            &&& all.subrange(10, 12) == major
            &&& all.subrange(12, 16) == size
            &&& all.subrange(16, 20) == sum
            &&& all.subrange(20, 24) == reserved
            &&& all.subrange(24, 32) == current
            &&& all.subrange(32, 40) == backup
            &&& all.subrange(40, 48) == first
            &&& all.subrange(48, 56) == last
            &&& all.subrange(56, 72) == guid
            &&& all.subrange(72, 80) == start
            &&& all.subrange(80, 84) == count
            &&& all.subrange(84, 88) == entry
            &&& all.subrange(88, 92) == table
        }),
{
    let all = signature + minor + major + size + sum + reserved + current + backup + first + last
        + guid + start + count + entry + table;
    assert(all.subrange(0, 8) =~= signature);
    assert(all.subrange(8, 10) =~= minor);
    assert(all.subrange(10, 12) =~= major);
    assert(all.subrange(12, 16) =~= size);
    assert(all.subrange(16, 20) =~= sum);
    assert(all.subrange(20, 24) =~= reserved);
    assert(all.subrange(24, 32) =~= current);
    assert(all.subrange(32, 40) =~= backup);
    assert(all.subrange(40, 48) =~= first);
    assert(all.subrange(48, 56) =~= last);
    assert(all.subrange(56, 72) =~= guid);
    assert(all.subrange(72, 80) =~= start);
    assert(all.subrange(80, 84) =~= count);
    assert(all.subrange(84, 88) =~= entry);
    assert(all.subrange(88, 92) =~= table);
}

/// A header has the size of a header.
pub proof fn law_encoded_len(header: HeaderView, header_sum: u32, table_sum: u32)
    requires
        header.fits(),
        header.disk_guid.len() == 16,
    ensures
        header.encoded(header_sum, table_sum).len() == HEADER_SIZE,
{
    broadcast use lemma_le_bytes_len;

}

/// Turning the groups of a GUID around twice gives it back.
pub proof fn law_mixed_endian_twice(guid: Seq<u8>)
    requires
        guid.len() == 16,
    ensures
        mixed_endian(guid).len() == 16,
        mixed_endian(mixed_endian(guid)) == guid,
{
    assert(mixed_endian(mixed_endian(guid)) =~= guid);
}

/// Where the fields of an encoded header lie.
proof fn lemma_encoded_fields(header: HeaderView, header_sum: u32, table_sum: u32)
    requires
        header.valid(),
    ensures
        ({
            let raw = header.encoded(header_sum, table_sum);
            &&& raw == header.fields(header_sum, table_sum)
            &&& raw.len() == HEADER_SIZE
            &&& raw.subrange(0, 8) == signature_bytes()
            &&& raw.subrange(8, 10) == le_bytes(header.revision.1 as nat, 2)
            &&& raw.subrange(10, 12) == le_bytes(header.revision.0 as nat, 2)
            &&& raw.subrange(12, 16) == le_bytes(header.header_size_le as nat, 4)
            &&& raw.subrange(16, 20) == le_bytes(header_sum as nat, 4)
            &&& raw.subrange(20, 24) == le_bytes(0, 4)
            &&& raw.subrange(24, 32) == le_bytes(header.current_lba as nat, 8)
            &&& raw.subrange(32, 40) == le_bytes(header.backup_lba as nat, 8)
            &&& raw.subrange(40, 48) == le_bytes(header.first_usable as nat, 8)
            &&& raw.subrange(48, 56) == le_bytes(header.last_usable as nat, 8)
            &&& raw.subrange(56, 72) == mixed_endian(header.disk_guid)
            &&& raw.subrange(72, 80) == le_bytes(header.part_start as nat, 8)
            &&& raw.subrange(80, 84) == le_bytes(header.num_parts as nat, 4)
            &&& raw.subrange(84, 88) == le_bytes(header.part_size as nat, 4)
            &&& raw.subrange(88, 92) == le_bytes(table_sum as nat, 4)
        }),
{
    broadcast use lemma_le_bytes_len;

    lemma_signature();
    law_mixed_endian_twice(header.disk_guid);
    lemma_field_offsets(
        encode_utf8(header.signature),
        le_bytes(header.revision.1 as nat, 2),
        le_bytes(header.revision.0 as nat, 2),
        le_bytes(header.header_size_le as nat, 4),
        le_bytes(header_sum as nat, 4),
        le_bytes(0, 4),
        le_bytes(header.current_lba as nat, 8),
        le_bytes(header.backup_lba as nat, 8),
        le_bytes(header.first_usable as nat, 8),
        le_bytes(header.last_usable as nat, 8),
        mixed_endian(header.disk_guid),
        le_bytes(header.part_start as nat, 8),
        le_bytes(header.num_parts as nat, 4),
        le_bytes(header.part_size as nat, 4),
        le_bytes(table_sum as nat, 4),
    );
    let fields = header.fields(header_sum, table_sum);
    assert(fields + zeros(0) =~= fields);
}

/// What was stored in a header is read from it: the bytes of a header say what the header
/// says, with the checksums that were given, and nothing reserved.
pub proof fn law_decoded_encoded(header: HeaderView, header_sum: u32, table_sum: u32)
    requires
        header.valid(),
    ensures
        header.encoded(header_sum, table_sum).len() == HEADER_SIZE,
        decoded(header.encoded(header_sum, table_sum)) == (HeaderView {
            crc32: header_sum,
            reserved: 0,
            crc32_parts: table_sum,
            ..header
        }),
{
    lemma_encoded_fields(header, header_sum, table_sum);
    lemma_byte_ranges();
    law_mixed_endian_twice(header.disk_guid);
    lemma_le_value_of_bytes(header.revision.1 as nat, 2);
    lemma_le_value_of_bytes(header.revision.0 as nat, 2);
    lemma_le_value_of_bytes(header.header_size_le as nat, 4);
    lemma_le_value_of_bytes(header_sum as nat, 4);
    lemma_le_value_of_bytes(0, 4);
    lemma_le_value_of_bytes(header.current_lba as nat, 8);
    lemma_le_value_of_bytes(header.backup_lba as nat, 8);
    lemma_le_value_of_bytes(header.first_usable as nat, 8);
    lemma_le_value_of_bytes(header.last_usable as nat, 8);
    lemma_le_value_of_bytes(header.part_start as nat, 8);
    lemma_le_value_of_bytes(header.num_parts as nat, 4);
    lemma_le_value_of_bytes(header.part_size as nat, 4);
    lemma_le_value_of_bytes(table_sum as nat, 4);
}

/// Zeroing the checksum in the bytes of a header gives the bytes with the checksum zero.
pub proof fn law_without_checksum(header: HeaderView, header_sum: u32, table_sum: u32)
    requires
        header.valid(),
    ensures
        without_checksum(header.encoded(header_sum, table_sum)) == header.encoded(0, table_sum),
{
    lemma_encoded_fields(header, header_sum, table_sum);
    lemma_encoded_fields(header, 0, table_sum);
    lemma_le_bytes_of_zero(4);
    assert(without_checksum(header.encoded(header_sum, table_sum)) =~= header.encoded(
        0,
        table_sum,
    ));
}

/// A header that was written with its checksum is read back as it was sealed.
pub proof fn law_sealed_is_read(header: HeaderView, table_sum: u32)
    requires
        header.valid(),
    ensures
        header_in(header.encoded(header.own_checksum(table_sum), table_sum)) == Ok::<
            HeaderView,
            HeaderError,
        >(header.sealed(table_sum)),
{
    let header_sum = header.own_checksum(table_sum);
    let raw = header.encoded(header_sum, table_sum);
    lemma_encoded_fields(header, header_sum, table_sum);
    law_decoded_encoded(header, header_sum, table_sum);
    law_without_checksum(header, header_sum, table_sum);
    assert(raw.take(8) =~= raw.subrange(0, 8));
}

/// The bytes of a header field by field.
spec fn in_fields(raw: Seq<u8>) -> Seq<u8> {
    raw.subrange(0, 8)
        + raw.subrange(8, 10)
        + raw.subrange(10, 12)
        + raw.subrange(12, 16)
        + raw.subrange(16, 20)
        + raw.subrange(20, 24)
        + raw.subrange(24, 32)
        + raw.subrange(32, 40)
        + raw.subrange(40, 48)
        + raw.subrange(48, 56)
        + raw.subrange(56, 72)
        + raw.subrange(72, 80)
        + raw.subrange(80, 84)
        + raw.subrange(84, 88)
        + raw.subrange(88, 92)
}

/// A header consists of its fields.
proof fn lemma_in_fields(raw: Seq<u8>)
    requires
        raw.len() == HEADER_SIZE,
    ensures
        in_fields(raw) == raw,
{
    assert(in_fields(raw) =~= raw);
}

/// Bytes that begin as a header does and reserve nothing are those of the header that they
/// say.
pub proof fn law_encoded_decoded(raw: Seq<u8>)
    requires
        raw.len() == HEADER_SIZE,
        raw.take(8) == signature_bytes(),
        decoded(raw).reserved == 0,
    ensures
        decoded(raw).valid(),
        decoded(raw).encoded(decoded(raw).crc32, decoded(raw).crc32_parts) == raw,
{
    let header = decoded(raw);
    lemma_signature();
    lemma_byte_ranges();
    law_mixed_endian_twice(raw.subrange(56, 72));
    lemma_le_bytes_of_value(raw.subrange(8, 10));
    lemma_le_bytes_of_value(raw.subrange(10, 12));
    lemma_le_bytes_of_value(raw.subrange(12, 16));
    lemma_le_bytes_of_value(raw.subrange(16, 20));
    lemma_le_bytes_of_value(raw.subrange(20, 24));
    lemma_le_bytes_of_value(raw.subrange(24, 32));
    lemma_le_bytes_of_value(raw.subrange(32, 40));
    lemma_le_bytes_of_value(raw.subrange(40, 48));
    lemma_le_bytes_of_value(raw.subrange(48, 56));
    lemma_le_bytes_of_value(raw.subrange(72, 80));
    lemma_le_bytes_of_value(raw.subrange(80, 84));
    lemma_le_bytes_of_value(raw.subrange(84, 88));
    lemma_le_bytes_of_value(raw.subrange(88, 92));
    lemma_encoded_fields(header, header.crc32, header.crc32_parts);
    lemma_in_fields(header.encoded(header.crc32, header.crc32_parts));
    lemma_in_fields(raw);
    assert(raw.take(8) =~= raw.subrange(0, 8));
}

/// A header that was read with nothing reserved is written again, beside the same
/// partition table, as the bytes that it was read from.
pub proof fn law_read_is_written_back(raw: Seq<u8>)
    requires
        raw.len() == HEADER_SIZE,
        header_in(raw) is Ok,
        decoded(raw).reserved == 0,
    ensures
        ({
            let header = header_in(raw)->Ok_0;
            &&& header.valid()
            &&& header.sealed(header.crc32_parts) == header
            &&& header.encoded(header.own_checksum(header.crc32_parts), header.crc32_parts) == raw
        }),
{
    let header = decoded(raw);
    law_encoded_decoded(raw);
    law_without_checksum(header, header.crc32, header.crc32_parts);
}

/// A header with one byte damaged is refused: for its signature where that is damaged, else
/// for its checksum.
pub proof fn law_damaged_header_is_refused(raw: Seq<u8>, i: int, byte: u8)
    requires
        raw.len() == HEADER_SIZE,
        0 <= i < HEADER_SIZE,
        byte != raw[i],
        header_in(raw) is Ok,
    ensures
        header_in(raw.update(i, byte)) == Err::<HeaderView, HeaderError>(
            if i < 8 {
                HeaderError::InvalidSignature
            } else {
                HeaderError::InvalidChecksum
            },
        ),
{
    let damaged = raw.update(i, byte);
    let stored = raw.subrange(16, 20);
    let stored_after = damaged.subrange(16, 20);
    lemma_byte_ranges();
    lemma_le_bytes_of_value(stored);
    lemma_le_bytes_of_value(stored_after);
    if i < 8 {
        assert(damaged.take(8)[i] == byte);
        assert(raw.take(8)[i] == raw[i]);
    } else {
        assert(damaged.take(8) =~= raw.take(8));
        if 16 <= i < 20 {
            assert(without_checksum(damaged) =~= without_checksum(raw));
            assert(stored_after[i - 16] == byte);
            assert(stored[i - 16] == raw[i]);
        } else {
            assert(stored_after =~= stored);
            assert(without_checksum(damaged) =~= without_checksum(raw).update(i, byte));
            law_one_byte_changes_checksum(without_checksum(raw), i, byte);
        }
    }
}

/// The order of the bytes of a GUID: the first four are turned around, the next two and the
/// two after them likewise, and the last eight are as they are, whatever the GUID.
pub proof fn law_guid_byte_order(guid: Seq<u8>)
    requires
        guid.len() == 16,
    ensures
        mixed_endian(guid).len() == 16,
        mixed_endian(guid)[0] == guid[3],
        mixed_endian(guid)[1] == guid[2],
        mixed_endian(guid)[2] == guid[1],
        mixed_endian(guid)[3] == guid[0],
        mixed_endian(guid)[4] == guid[5],
        mixed_endian(guid)[5] == guid[4],
        mixed_endian(guid)[6] == guid[7],
        mixed_endian(guid)[7] == guid[6],
        mixed_endian(guid)[8] == guid[8],
        mixed_endian(guid)[9] == guid[9],
        mixed_endian(guid)[10] == guid[10],
        mixed_endian(guid)[11] == guid[11],
        mixed_endian(guid)[12] == guid[12],
        mixed_endian(guid)[13] == guid[13],
        mixed_endian(guid)[14] == guid[14],
        mixed_endian(guid)[15] == guid[15],
{
}

/// Where each field of a header is read from, and what its bytes count for.
pub proof fn law_fields_in_bytes(raw: Seq<u8>)
    requires
        raw.len() == 92,
    ensures
        decoded(raw).signature == "EFI PART"@,
        decoded(raw).revision.1 == raw[8] + 0x100 * raw[9],
        decoded(raw).revision.0 == raw[10] + 0x100 * raw[11],
        decoded(raw).header_size_le == raw[12] + 0x100 * raw[13]
            + 0x1_0000 * raw[14] + 0x100_0000 * raw[15],
        decoded(raw).crc32 == raw[16] + 0x100 * raw[17]
            + 0x1_0000 * raw[18] + 0x100_0000 * raw[19],
        decoded(raw).reserved == raw[20] + 0x100 * raw[21]
            + 0x1_0000 * raw[22] + 0x100_0000 * raw[23],
        decoded(raw).current_lba == raw[24] + 0x100 * raw[25]
            + 0x1_0000 * raw[26] + 0x100_0000 * raw[27]
            + 0x1_0000_0000 * raw[28] + 0x100_0000_0000 * raw[29]
            + 0x1_0000_0000_0000 * raw[30] + 0x100_0000_0000_0000 * raw[31],
        decoded(raw).backup_lba == raw[32] + 0x100 * raw[33]
            + 0x1_0000 * raw[34] + 0x100_0000 * raw[35]
            + 0x1_0000_0000 * raw[36] + 0x100_0000_0000 * raw[37]
            + 0x1_0000_0000_0000 * raw[38] + 0x100_0000_0000_0000 * raw[39],
        decoded(raw).first_usable == raw[40] + 0x100 * raw[41]
            + 0x1_0000 * raw[42] + 0x100_0000 * raw[43]
            + 0x1_0000_0000 * raw[44] + 0x100_0000_0000 * raw[45]
            + 0x1_0000_0000_0000 * raw[46] + 0x100_0000_0000_0000 * raw[47],
        decoded(raw).last_usable == raw[48] + 0x100 * raw[49]
            + 0x1_0000 * raw[50] + 0x100_0000 * raw[51]
            + 0x1_0000_0000 * raw[52] + 0x100_0000_0000 * raw[53]
            + 0x1_0000_0000_0000 * raw[54] + 0x100_0000_0000_0000 * raw[55],
        decoded(raw).part_start == raw[72] + 0x100 * raw[73]
            + 0x1_0000 * raw[74] + 0x100_0000 * raw[75]
            + 0x1_0000_0000 * raw[76] + 0x100_0000_0000 * raw[77]
            + 0x1_0000_0000_0000 * raw[78] + 0x100_0000_0000_0000 * raw[79],
        decoded(raw).num_parts == raw[80] + 0x100 * raw[81]
            + 0x1_0000 * raw[82] + 0x100_0000 * raw[83],
        decoded(raw).part_size == raw[84] + 0x100 * raw[85]
            + 0x1_0000 * raw[86] + 0x100_0000 * raw[87],
        decoded(raw).crc32_parts == raw[88] + 0x100 * raw[89]
            + 0x1_0000 * raw[90] + 0x100_0000 * raw[91],
        decoded(raw).disk_guid.len() == 16,
        decoded(raw).disk_guid[0] == raw[59],
        decoded(raw).disk_guid[1] == raw[58],
        decoded(raw).disk_guid[2] == raw[57],
        decoded(raw).disk_guid[3] == raw[56],
        decoded(raw).disk_guid[4] == raw[61],
        decoded(raw).disk_guid[5] == raw[60],
        decoded(raw).disk_guid[6] == raw[63],
        decoded(raw).disk_guid[7] == raw[62],
        decoded(raw).disk_guid[8] == raw[64],
        decoded(raw).disk_guid[9] == raw[65],
        decoded(raw).disk_guid[10] == raw[66],
        decoded(raw).disk_guid[11] == raw[67],
        decoded(raw).disk_guid[12] == raw[68],
        decoded(raw).disk_guid[13] == raw[69],
        decoded(raw).disk_guid[14] == raw[70],
        decoded(raw).disk_guid[15] == raw[71],
{
    law_guid_byte_order(raw.subrange(56, 72));
    law_byte_weights(raw.subrange(8, 10));
    law_byte_weights(raw.subrange(10, 12));
    law_byte_weights(raw.subrange(12, 16));
    law_byte_weights(raw.subrange(16, 20));
    law_byte_weights(raw.subrange(20, 24));
    law_byte_weights(raw.subrange(24, 32));
    law_byte_weights(raw.subrange(32, 40));
    law_byte_weights(raw.subrange(40, 48));
    law_byte_weights(raw.subrange(48, 56));
    law_byte_weights(raw.subrange(72, 80));
    law_byte_weights(raw.subrange(80, 84));
    law_byte_weights(raw.subrange(84, 88));
    law_byte_weights(raw.subrange(88, 92));
}

/// Where each field of a header is stored, and what its bytes count for. The bytes of the
/// reserved field are zero.
#[verifier::spinoff_prover]
#[verifier::rlimit(40)]
pub proof fn law_bytes_of_fields(header: HeaderView, header_sum: u32, table_sum: u32)
    requires
        header.signature == "EFI PART"@,
        header.disk_guid.len() == 16,
    ensures
        ({
            let raw = header.encoded(header_sum, table_sum);
            &&& raw.len() == 92
            &&& raw[0] == 0x45
            &&& raw[1] == 0x46
            &&& raw[2] == 0x49
            &&& raw[3] == 0x20
            &&& raw[4] == 0x50
            &&& raw[5] == 0x41
            &&& raw[6] == 0x52
            &&& raw[7] == 0x54
            &&& header.revision.1 == raw[8] + 0x100 * raw[9]
            &&& header.revision.0 == raw[10] + 0x100 * raw[11]
            &&& header.header_size_le == raw[12] + 0x100 * raw[13]
                + 0x1_0000 * raw[14] + 0x100_0000 * raw[15]
            &&& header_sum == raw[16] + 0x100 * raw[17]
                + 0x1_0000 * raw[18] + 0x100_0000 * raw[19]
            &&& 0 == raw[20] + 0x100 * raw[21]
                + 0x1_0000 * raw[22] + 0x100_0000 * raw[23]
            &&& header.current_lba == raw[24] + 0x100 * raw[25]
                + 0x1_0000 * raw[26] + 0x100_0000 * raw[27]
                + 0x1_0000_0000 * raw[28] + 0x100_0000_0000 * raw[29]
                + 0x1_0000_0000_0000 * raw[30] + 0x100_0000_0000_0000 * raw[31]
            &&& header.backup_lba == raw[32] + 0x100 * raw[33]
                + 0x1_0000 * raw[34] + 0x100_0000 * raw[35]
                + 0x1_0000_0000 * raw[36] + 0x100_0000_0000 * raw[37]
                + 0x1_0000_0000_0000 * raw[38] + 0x100_0000_0000_0000 * raw[39]
            &&& header.first_usable == raw[40] + 0x100 * raw[41]
                + 0x1_0000 * raw[42] + 0x100_0000 * raw[43]
                + 0x1_0000_0000 * raw[44] + 0x100_0000_0000 * raw[45]
                + 0x1_0000_0000_0000 * raw[46] + 0x100_0000_0000_0000 * raw[47]
            &&& header.last_usable == raw[48] + 0x100 * raw[49]
                + 0x1_0000 * raw[50] + 0x100_0000 * raw[51]
                + 0x1_0000_0000 * raw[52] + 0x100_0000_0000 * raw[53]
                + 0x1_0000_0000_0000 * raw[54] + 0x100_0000_0000_0000 * raw[55]
            &&& header.part_start == raw[72] + 0x100 * raw[73]
                + 0x1_0000 * raw[74] + 0x100_0000 * raw[75]
                + 0x1_0000_0000 * raw[76] + 0x100_0000_0000 * raw[77]
                + 0x1_0000_0000_0000 * raw[78] + 0x100_0000_0000_0000 * raw[79]
            &&& header.num_parts == raw[80] + 0x100 * raw[81]
                + 0x1_0000 * raw[82] + 0x100_0000 * raw[83]
            &&& header.part_size == raw[84] + 0x100 * raw[85]
                + 0x1_0000 * raw[86] + 0x100_0000 * raw[87]
            &&& table_sum == raw[88] + 0x100 * raw[89]
                + 0x1_0000 * raw[90] + 0x100_0000 * raw[91]
            &&& raw[56] == header.disk_guid[3]
            &&& raw[57] == header.disk_guid[2]
            &&& raw[58] == header.disk_guid[1]
            &&& raw[59] == header.disk_guid[0]
            &&& raw[60] == header.disk_guid[5]
            &&& raw[61] == header.disk_guid[4]
            &&& raw[62] == header.disk_guid[7]
            &&& raw[63] == header.disk_guid[6]
            &&& raw[64] == header.disk_guid[8]
            &&& raw[65] == header.disk_guid[9]
            &&& raw[66] == header.disk_guid[10]
            &&& raw[67] == header.disk_guid[11]
            &&& raw[68] == header.disk_guid[12]
            &&& raw[69] == header.disk_guid[13]
            &&& raw[70] == header.disk_guid[14]
            &&& raw[71] == header.disk_guid[15]
        }),
{
    let raw = header.encoded(header_sum, table_sum);
    law_decoded_encoded(header, header_sum, table_sum);
    law_fields_in_bytes(raw);
    lemma_encoded_fields(header, header_sum, table_sum);
    law_guid_byte_order(header.disk_guid);
    assert forall|i: int| 0 <= i < 16 implies raw[56 + i] == #[trigger] mixed_endian(
        header.disk_guid,
    )[i] by {
        assert(raw.subrange(56, 72)[i] == raw[56 + i]);
    }
    assert forall|i: int| 0 <= i < 8 implies raw[i] == #[trigger] signature_bytes()[i] by {
        assert(raw.subrange(0, 8)[i] == raw[i]);
    }
}

/// With a signature of other than eight bytes the other fields are the same bytes as ever,
/// just behind it, and zeros fill up the rest.
pub proof fn law_other_signatures(header: HeaderView, header_sum: u32, table_sum: u32)
    requires
        encode_utf8(header.signature).len() <= 8,
        header.disk_guid.len() == 16,
    ensures
        ({
            let raw = header.encoded(header_sum, table_sum);
            let usual = HeaderView { signature: "EFI PART"@, ..header }.encoded(
                header_sum,
                table_sum,
            );
            let len = encode_utf8(header.signature).len() as int;
            &&& raw.len() == 92
            &&& usual.len() == 92
            &&& forall|i: int| 0 <= i < len ==> raw[i] == #[trigger] encode_utf8(header.signature)[i]
            &&& forall|i: int| 8 <= i < 92 ==> raw[i - 8 + len] == #[trigger] usual[i]
            &&& forall|i: int| 84 + len <= i < 92 ==> #[trigger] raw[i] == 0
        }),
{
    let usual = HeaderView { signature: "EFI PART"@, ..header };
    lemma_signature();
    law_encoded_len(header, header_sum, table_sum);
    law_encoded_len(usual, header_sum, table_sum);
    lemma_other_fields(header, header_sum, table_sum);
    lemma_other_fields(usual, header_sum, table_sum);
}

/// The fields behind the signature.
spec fn other_fields(header: HeaderView, header_sum: u32, table_sum: u32) -> Seq<u8> {
    le_bytes(header.revision.1 as nat, 2) + le_bytes(header.revision.0 as nat, 2) + le_bytes(
        header.header_size_le as nat,
        4,
    ) + le_bytes(header_sum as nat, 4) + le_bytes(0, 4) + le_bytes(header.current_lba as nat, 8)
        + le_bytes(header.backup_lba as nat, 8) + le_bytes(header.first_usable as nat, 8)
        + le_bytes(header.last_usable as nat, 8) + mixed_endian(header.disk_guid) + le_bytes(
        header.part_start as nat,
        8,
    ) + le_bytes(header.num_parts as nat, 4) + le_bytes(header.part_size as nat, 4) + le_bytes(
        table_sum as nat,
        4,
    )
}

/// The fields are the signature and the others, which take up 84 bytes.
proof fn lemma_other_fields(header: HeaderView, header_sum: u32, table_sum: u32)
    requires
        header.disk_guid.len() == 16,
    ensures
        header.fields(header_sum, table_sum) == encode_utf8(header.signature) + other_fields(
            header,
            header_sum,
            table_sum,
        ),
        other_fields(header, header_sum, table_sum).len() == 84,
{
    broadcast use lemma_le_bytes_len;

    assert(header.fields(header_sum, table_sum) =~= encode_utf8(header.signature) + other_fields(
        header,
        header_sum,
        table_sum,
    ));
}

/// The bytes that a header's checksum is computed over are its own, with the four of the
/// checksum zero.
pub proof fn law_checksum_is_zeroed(raw: Seq<u8>)
    requires
        raw.len() == 92,
    ensures
        without_checksum(raw).len() == 92,
        forall|i: int|
            0 <= i < 92 ==> #[trigger] without_checksum(raw)[i] == if 16 <= i < 20 {
                0
            } else {
                raw[i]
            },
{
}

/// Which bytes are a header: those that begin with "EFI PART" and state the checksum that
/// is found for them. The signature is looked at first. What is read of them is what they
/// say.
pub proof fn law_what_is_a_header(raw: Seq<u8>, sum: u32)
    requires
        raw.len() == 92,
    ensures
        ({
            let signed = raw[0] == 0x45 && raw[1] == 0x46 && raw[2] == 0x49 && raw[3] == 0x20
                && raw[4] == 0x50 && raw[5] == 0x41 && raw[6] == 0x52 && raw[7] == 0x54;
            let stated = raw[16] + 0x100 * raw[17]
                + 0x1_0000 * raw[18] + 0x100_0000 * raw[19];
            &&& !signed ==> checked(raw, sum) == Err::<HeaderView, HeaderError>(
                HeaderError::InvalidSignature,
            )
            &&& signed && sum != stated ==> checked(raw, sum) == Err::<HeaderView, HeaderError>(
                HeaderError::InvalidChecksum,
            )
            &&& signed && sum == stated ==> checked(raw, sum) == Ok::<HeaderView, HeaderError>(
                decoded(raw),
            )
            &&& header_in(raw) == checked(raw, crc32_iso_hdlc(without_checksum(raw)))
        }),
{
    law_fields_in_bytes(raw);
    let start = raw.take(8);
    if raw[0] == 0x45 && raw[1] == 0x46 && raw[2] == 0x49 && raw[3] == 0x20 && raw[4] == 0x50
        && raw[5] == 0x41 && raw[6] == 0x52 && raw[7] == 0x54 {
        assert(start =~= signature_bytes());
    } else {
        assert(start[0] == raw[0] && start[1] == raw[1] && start[2] == raw[2] && start[3] == raw[3]
            && start[4] == raw[4] && start[5] == raw[5] && start[6] == raw[6] && start[7]
            == raw[7]);
    }
}

} // verus!
