//! Where a new header puts itself, its backup and their partition tables.
use std::collections::BTreeMap;
use vstd::prelude::*;

use crate::disk::LogicalBlockSize;
use crate::error::HeaderError;
use crate::guid::Guid;
use crate::header::{Header, HeaderView};
use crate::partition::{count_used, used_count, Partition};

verus! {

/// The number of entries in the partition table: the number that is asked for, else that
/// of the header before, else the number in use (which a field of 32 bits holds) or 128,
/// whichever is larger.
pub open spec fn entry_count(
    used: nat,
    original: Option<HeaderView>,
    num_parts: Option<u32>,
) -> nat {
    match (num_parts, original) {
        (Some(count), _) => count as nat,
        (None, Some(header)) => header.num_parts as nat,
        (None, None) => if used % 0x1_0000_0000 > 128 {
            used % 0x1_0000_0000
        } else {
            128
        },
    }
}

/// The size of an entry in the partition table: that of the header before, else 128.
pub open spec fn entry_size(original: Option<HeaderView>) -> nat {
    match original {
        Some(header) => header.part_size as nat,
        None => 128,
    }
}

/// The size of the partition table in bytes: all entries together.
pub open spec fn table_size(
    used: nat,
    original: Option<HeaderView>,
    num_parts: Option<u32>,
) -> nat {
    match original {
        Some(header) => entry_count(used, original, num_parts) * header.part_size as nat,
        None => entry_count(used, original, num_parts) * 128,
    }
}

/// The number of whole blocks that hold a partition table of `size` bytes.
pub open spec fn table_blocks(size: nat, lb_size: LogicalBlockSize) -> nat {
    (size + lb_size.bytes() - 1) as nat / lb_size.bytes()
}

/// Whether the range of usable blocks is taken over from the header before.
pub open spec fn keeps_range(original: Option<HeaderView>, num_parts: Option<u32>) -> bool {
    original is Some && num_parts is None
}

/// A header without its checksums, which are set when it is written.
pub open spec fn blank_header(
    primary: bool,
    guid: Seq<u8>,
    backup_offset: u64,
    usable: (nat, nat),
    count: nat,
    size: nat,
) -> HeaderView {
    HeaderView {
        signature: "EFI PART"@,
        revision: (1, 0),
        header_size_le: 92,
        crc32: 0,
        reserved: 0,
        current_lba: if primary {
            1
        } else {
            backup_offset
        },
        backup_lba: if primary {
            backup_offset
        } else {
            1
        },
        first_usable: usable.0 as u64,
        last_usable: usable.1 as u64,
        disk_guid: guid,
        // A table lies behind the primary header, and behind the last usable block.
        part_start: if primary {
            2
        } else {
            (usable.1 + 1) as u64
        },
        num_parts: count as u32,
        part_size: size as u32,
        crc32_parts: 0,
    }
}

/// The header for a disk whose last block is `backup_offset`.
///
/// Block 0 holds a protective record, block 1 the primary header, and from block 2 on lies
/// its table. The last block holds the backup header, and just before it lies its table.
pub open spec fn computed(
    primary: bool,
    used: nat,
    guid: Seq<u8>,
    backup_offset: u64,
    original: Option<HeaderView>,
    lb_size: LogicalBlockSize,
    num_parts: Option<u32>,
) -> Result<HeaderView, HeaderError> {
    let count = entry_count(used, original, num_parts);
    let size = entry_size(original);
    let blocks = table_blocks(table_size(used, original, num_parts), lb_size);
    if keeps_range(original, num_parts) {
        let range = (original->0.first_usable as nat, original->0.last_usable as nat);
        Ok(blank_header(primary, guid, backup_offset, range, count, size))
    } else if backup_offset < blocks + 1 {
        Err(HeaderError::LastUsableUnderflow)
    } else {
        let range = (2 + blocks, (backup_offset - blocks - 1) as nat);
        Ok(blank_header(primary, guid, backup_offset, range, count, size))
    }
}

/// Whether the sizes can be computed: the table's size in bytes fits in 32 bits, and there
/// is a block behind the last usable one.
pub open spec fn computable(
    primary: bool,
    used: nat,
    original: Option<HeaderView>,
    num_parts: Option<u32>,
) -> bool {
    &&& table_size(used, original, num_parts) <= u32::MAX
    &&& !primary && keeps_range(original, num_parts) ==> original->0.last_usable < u64::MAX
}

/// An optional header by what it says.
pub open spec fn viewed_option(header: Option<Header>) -> Option<HeaderView> {
    match header {
        Some(header) => Some(header@),
        None => None,
    }
}

impl Header {
    /// Makes a header, primary or backup, for a disk whose last block is `backup_offset`.
    ///
    /// The table has room for `num_parts` entries, if given. Otherwise it is as in
    /// `original_header`, or has room for all partitions in use and at least 128.
    pub fn compute_new(
        primary: bool,
        pp: &BTreeMap<u32, Partition>,
        guid: Guid,
        backup_offset: u64,
        original_header: &Option<Header>,
        lb_size: LogicalBlockSize,
        num_parts: Option<u32>,
    ) -> (result: Result<Header, HeaderError>)
        requires
            computable(primary, used_count(pp@), viewed_option(*original_header), num_parts),
        ensures
            crate::header::viewed(result) == computed(
                primary,
                used_count(pp@),
                guid@,
                backup_offset,
                viewed_option(*original_header),
                lb_size,
                num_parts,
            ),
    {
        let (cur, bak): (u64, u64) = if primary {
            (1, backup_offset)
        } else {
            (backup_offset, 1)
        };

        // This is the number of all entries in the table, used or not. A table made from
        // scratch has room for at least 128, as UEFI requires.
        let parts: u32 = match num_parts {
            Some(p) => p,
            None => match original_header {
                Some(header) => header.num_parts,
                None => {
                    let used = count_used(pp) as u64;
                    let used_low = used as u32;
                    assert(used_low == used % 0x1_0000_0000) by (bit_vector)
                        requires
                            used_low == used as u32,
                    ;
                    if used_low > 128 {
                        used_low
                    } else {
                        128
                    }
                },
            },
        };
        let part_size: u32 = match original_header {
            Some(header) => header.part_size,
            None => 128,
        };

        let ghost size = table_size(used_count(pp@), viewed_option(*original_header), num_parts);
        assert(parts * part_size == size);
        let part_array_num_bytes = (parts * part_size) as u64;
        let lb_size_u64 = lb_size.as_u64();
        let part_array_num_lbs = (part_array_num_bytes + (lb_size_u64 - 1)) / lb_size_u64;
        assert(part_array_num_lbs == table_blocks(size, lb_size));
        proof {
            lemma_table_blocks(size, lb_size);
        }

        // The first usable block of an existing header may lie further on, to align
        // partitions.
        let first: u64 = match num_parts {
            Some(_) => 1 + 1 + part_array_num_lbs,
            None => match original_header {
                Some(header) => header.first_usable,
                None => 1 + 1 + part_array_num_lbs,
            },
        };
        let last: u64 = match (num_parts, original_header) {
            (None, Some(header)) => header.last_usable,
            _ => match backup_offset.checked_sub(part_array_num_lbs + 1) {
                Some(last) => last,
                None => {
                    return Err(HeaderError::LastUsableUnderflow);
                },
            },
        };
        let part_start: u64 = if primary {
            2
        } else {
            last + 1
        };

        let header = Header {
            signature: "EFI PART".to_string(),
            revision: (1, 0),
            header_size_le: 92,
            crc32: 0,
            reserved: 0,
            current_lba: cur,
            backup_lba: bak,
            first_usable: first,
            last_usable: last,
            disk_guid: guid,
            part_start,
            num_parts: parts,
            part_size,
            crc32_parts: 0,
        };
        Ok(header)
    }
}

/// A partition table takes just the blocks that it needs.
proof fn lemma_table_blocks(size: nat, lb_size: LogicalBlockSize)
    ensures
        size <= table_blocks(size, lb_size) * lb_size.bytes(),
        table_blocks(size, lb_size) * lb_size.bytes() < size + lb_size.bytes(),
        table_blocks(size, lb_size) <= size,
{
    match lb_size {
        LogicalBlockSize::Lb512 => {
            assert(lb_size.bytes() == 512);
        },
        LogicalBlockSize::Lb4096 => {
            assert(lb_size.bytes() == 4096);
        },
    }
}

/// The primary and the backup header for a disk are made or refused together. They differ
/// in that each names the other's block, and in where their tables start: that of the
/// backup lies behind the last usable block.
pub proof fn law_primary_and_backup_agree(
    used: nat,
    guid: Seq<u8>,
    backup_offset: u64,
    original: Option<HeaderView>,
    lb_size: LogicalBlockSize,
    num_parts: Option<u32>,
)
    requires
        computable(false, used, original, num_parts),
    ensures
        computed(false, used, guid, backup_offset, original, lb_size, num_parts) == (match computed(
            true,
            used,
            guid,
            backup_offset,
            original,
            lb_size,
            num_parts,
        ) {
            Ok(primary) => Ok(
                HeaderView {
                    current_lba: primary.backup_lba,
                    backup_lba: primary.current_lba,
                    part_start: (primary.last_usable + 1) as u64,
                    ..primary
                },
            ),
            Err(error) => Err(error),
        }),
{
}

/// In a new layout the primary table fills the blocks from its start to the first usable
/// one, and the backup table those from the last usable one to the backup header. Both
/// have room for all entries, and not a whole block more.
pub proof fn law_tables_have_room(
    primary: bool,
    used: nat,
    guid: Seq<u8>,
    backup_offset: u64,
    original: Option<HeaderView>,
    lb_size: LogicalBlockSize,
    num_parts: Option<u32>,
)
    requires
        computable(primary, used, original, num_parts),
        !keeps_range(original, num_parts),
    ensures
        computed(primary, used, guid, backup_offset, original, lb_size, num_parts) matches Ok(
            header,
        ) ==> {
            let size = header.num_parts * header.part_size;
            let primary_room = (header.first_usable - 2) * lb_size.bytes();
            let backup_room = (backup_offset - (header.last_usable + 1)) * lb_size.bytes();
            &&& size <= primary_room < size + lb_size.bytes()
            &&& size <= backup_room < size + lb_size.bytes()
            &&& header.part_start == if primary {
                2
            } else {
                header.last_usable + 1
            }
        },
{
    lemma_table_blocks(table_size(used, original, num_parts), lb_size);
}

/// Making a header again from one that was made, for the same disk and without asking for
/// another number of entries, gives the same header, whatever the checksums, the
/// partitions and the block size are by then. The other one of the pair can be made from
/// it too.
pub proof fn law_made_again(
    first_primary: bool,
    second_primary: bool,
    used: (nat, nat),
    guid: Seq<u8>,
    backup_offset: u64,
    original: Option<HeaderView>,
    lb_size: (LogicalBlockSize, LogicalBlockSize),
    num_parts: Option<u32>,
    sums: (u32, u32),
)
    requires
        computable(first_primary, used.0, original, num_parts),
        computable(second_primary, used.0, original, num_parts),
    ensures
        computed(first_primary, used.0, guid, backup_offset, original, lb_size.0, num_parts) matches
            Ok(made) ==> {
            let before = Some(HeaderView { crc32: sums.0, crc32_parts: sums.1, ..made });
            &&& computable(second_primary, used.1, before, None)
            &&& computed(
                second_primary,
                used.1,
                guid,
                backup_offset,
                before,
                lb_size.1,
                None,
            ) == computed(
                second_primary,
                used.0,
                guid,
                backup_offset,
                original,
                lb_size.0,
                num_parts,
            )
        },
{
    lemma_table_blocks(table_size(used.0, original, num_parts), lb_size.0);
}

/// A table made from scratch has room for at least 128 entries of 128 bytes, and for every
/// partition in use.
pub proof fn law_from_scratch(used: nat)
    requires
        used <= u32::MAX,
    ensures
        entry_count(used, None, None) >= 128,
        entry_count(used, None, None) >= used,
        entry_size(None) == 128,
{
}

/// Whatever the header before is, a header that is made is for the disk and the GUID given:
/// it has that GUID, lies in block 1 or in the last block, and names the other one. Its
/// checksums are still to be set.
pub proof fn law_header_is_for_the_disk(
    primary: bool,
    used: nat,
    guid: Seq<u8>,
    backup_offset: u64,
    original: Option<HeaderView>,
    lb_size: LogicalBlockSize,
    num_parts: Option<u32>,
)
    ensures
        computed(primary, used, guid, backup_offset, original, lb_size, num_parts) matches Ok(
            header,
        ) ==> {
            &&& header.disk_guid == guid
            &&& header.signature == "EFI PART"@
            &&& header.revision.0 == 1 && header.revision.1 == 0
            &&& header.header_size_le == 92
            &&& header.crc32 == 0 && header.reserved == 0 && header.crc32_parts == 0
            &&& primary ==> header.current_lba == 1 && header.backup_lba == backup_offset
            &&& !primary ==> header.current_lba == backup_offset && header.backup_lba == 1
            &&& primary ==> header.part_start == 2
            &&& !primary && header.last_usable < u64::MAX ==> header.part_start
                == header.last_usable + 1
        },
{
}

/// The table that is asked for is made: a number of entries that is given is kept, for
/// every number, with or without a header before. Without it the number is that of the
/// header before. Made from scratch, there are 128 entries, or as many as are in use if
/// these are more. The size of an entry is that of the header before, or 128.
pub proof fn law_entries_as_asked(
    primary: bool,
    used: nat,
    guid: Seq<u8>,
    backup_offset: u64,
    original: Option<HeaderView>,
    lb_size: LogicalBlockSize,
    num_parts: Option<u32>,
)
    ensures
        computed(primary, used, guid, backup_offset, original, lb_size, num_parts) matches Ok(
            header,
        ) ==> {
            &&& num_parts matches Some(asked) ==> header.num_parts == asked
            &&& original matches Some(before) ==> header.part_size == before.part_size
            &&& original is None ==> header.part_size == 128
            &&& num_parts is None ==> (original matches Some(before) ==> header.num_parts
                == before.num_parts)
            &&& num_parts is None && original is None && used <= 128 ==> header.num_parts == 128
            &&& num_parts is None && original is None && 128 < used <= u32::MAX
                ==> header.num_parts == used
            &&& num_parts is None && original is None && used == 0x1_0000_0000
                ==> header.num_parts == 128
        },
{
}

/// The range of usable blocks is that of the header before, exactly where there is one and
/// no number of entries is asked for. Then no disk is refused.
pub proof fn law_range_is_taken_over(
    primary: bool,
    used: nat,
    guid: Seq<u8>,
    backup_offset: u64,
    before: HeaderView,
    lb_size: LogicalBlockSize,
)
    ensures
        computed(primary, used, guid, backup_offset, Some(before), lb_size, None) matches Ok(header)
            && header.first_usable == before.first_usable && header.last_usable
            == before.last_usable,
{
}

/// Otherwise the range is a new one, between two tables of `count` entries of `size` bytes.
/// A header is made exactly where the last block comes after block 0 and as many blocks as
/// a table needs. In front of the range are two blocks and those of the primary table,
/// behind it those of the backup table. A table takes as few blocks as hold it.
pub proof fn law_new_range(
    primary: bool,
    used: nat,
    guid: Seq<u8>,
    backup_offset: u64,
    original: Option<HeaderView>,
    lb_size: LogicalBlockSize,
    num_parts: Option<u32>,
    count: int,
    size: int,
)
    requires
        original is None || num_parts is Some,
        size == match original {
            Some(before) => before.part_size as int,
            None => 128,
        },
        count == match num_parts {
            Some(asked) => asked as int,
            None => if used > 128 {
                used as int
            } else {
                128
            },
        },
        used <= u32::MAX,
        count * size <= u32::MAX,
    ensures
        ({
            let result = computed(
                primary,
                used,
                guid,
                backup_offset,
                original,
                lb_size,
                num_parts,
            );
            let block: int = match lb_size {
                LogicalBlockSize::Lb512 => 512,
                LogicalBlockSize::Lb4096 => 4096,
            };
            &&& result is Ok <==> backup_offset >= 1 && (backup_offset - 1) * block >= count * size
            &&& result matches Err(error) ==> error == HeaderError::LastUsableUnderflow
            &&& result matches Ok(header) ==> {
                let table = header.first_usable - 2;
                &&& table * block >= count * size
                &&& (table - 1) * block < count * size
                &&& header.last_usable + 1 + table == backup_offset
            }
        }),
{
    let bytes = (count * size) as nat;
    assert(table_size(used, original, num_parts) == bytes);
    lemma_table_blocks(bytes, lb_size);
    match lb_size {
        LogicalBlockSize::Lb512 => {
            assert(lb_size.bytes() == 512);
        },
        LogicalBlockSize::Lb4096 => {
            assert(lb_size.bytes() == 4096);
        },
    }
}

/// When a header can be computed: where the entries together take less than 2^32 bytes,
/// and, for a backup header that takes over a range, the range does not end with the
/// very last block number.
pub proof fn law_computable(
    primary: bool,
    used: nat,
    original: Option<HeaderView>,
    num_parts: Option<u32>,
    count: int,
    size: int,
)
    requires
        size == match original {
            Some(before) => before.part_size as int,
            None => 128,
        },
        count == match (num_parts, original) {
            (Some(asked), _) => asked as int,
            (None, Some(before)) => before.num_parts as int,
            (None, None) => if used > 128 {
                used as int
            } else {
                128
            },
        },
        used <= u32::MAX,
    ensures
        computable(primary, used, original, num_parts) <==> count * size < 0x1_0000_0000 && (primary
            || num_parts is Some || (original matches Some(before) ==> before.last_usable
            < u64::MAX)),
{
    assert(table_size(used, original, num_parts) == count * size);
}

/// A header given or not is read as what it says.
pub proof fn law_viewed_option(header: Option<Header>)
    ensures
        header is None <==> viewed_option(header) is None,
        header matches Some(before) ==> viewed_option(header) == Some(before@),
{
}

} // verus!
