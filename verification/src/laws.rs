//! What holds of headers on a disk as a whole.
use vstd::prelude::*;

use crate::checksum::crc32_iso_hdlc;
use crate::codec::{law_encoded_len, law_sealed_is_read};
use crate::create::{CreatePhaseView, CreateView};
use crate::device::{overwritten, Image, ReplyView, Step};
use crate::disk::LogicalBlockSize;
use crate::endian::zeros;
use crate::error::HeaderError;
use crate::find::{last_block, law_last_block_is_on_disk, FindBackup, FindPhase};
use crate::header::{lemma_signature, HeaderView, HEADER_SIZE};
use crate::layout::{computable, computed, keeps_range, law_tables_have_room, table_blocks};
use crate::read::{header_at, law_read_backup_header, law_read_primary_header, ReadView};
use crate::table::TableChecksum;
use crate::write::{WritePhaseView, WriteView};

verus! {

/// Whether a disk has the block `lba`.
pub open spec fn has_block(bytes: Seq<u8>, lba: u64, lb_size: LogicalBlockSize) -> bool {
    lba * lb_size.bytes() + lb_size.bytes() <= bytes.len()
}

/// A disk once a header has been written to block `lba`: that block holds the header with
/// the checksums set, and all else is as it was.
pub open spec fn with_header(
    bytes: Seq<u8>,
    header: HeaderView,
    lba: u64,
    lb_size: LogicalBlockSize,
) -> Seq<u8> {
    let table_sum = crc32_iso_hdlc(header.table_on(bytes, lb_size));
    overwritten(bytes, lba * lb_size.bytes(), header.sealed_block(table_sum, lb_size))
}

/// A header's block is a whole block.
proof fn lemma_block_len(header: HeaderView, table_sum: u32, lb_size: LogicalBlockSize)
    requires
        header.fits(),
        header.disk_guid.len() == 16,
    ensures
        header.sealed_block(table_sum, lb_size).len() == lb_size.bytes(),
{
    law_encoded_len(header, header.own_checksum(table_sum), table_sum);
}

/// What is written over `bytes` is found where it was written.
proof fn lemma_overwritten(bytes: Seq<u8>, offset: int, first: Seq<u8>, second: Seq<u8>)
    requires
        0 <= offset,
        offset + first.len() + second.len() <= bytes.len(),
    ensures
        ({
            let after = overwritten(bytes, offset, first + second);
            let middle = offset + first.len();
            &&& after.len() == bytes.len()
            &&& after.subrange(offset, middle) == first
            &&& after.subrange(middle, middle + second.len()) == second
        }),
{
    let after = overwritten(bytes, offset, first + second);
    let middle = offset + first.len();
    assert(after.subrange(offset, middle) =~= first);
    assert(after.subrange(middle, middle + second.len()) =~= second);
}

/// On a disk that does what is asked of it and holds the partition table and the block,
/// writing a header puts one block in place.
pub proof fn law_write(
    header: HeaderView,
    lba: u64,
    lb_size: LogicalBlockSize,
    image: Image,
)
    requires
        image.valid(),
        header.fits(),
        header.disk_guid.len() == 16,
        header.table_fits(image.bytes, lb_size),
        has_block(image.bytes, lba, lb_size),
    ensures
        header.begin_write(lba, lb_size) is Ok,
        header.begin_write(lba, lb_size)->Ok_0.run(image) == (
            Ok::<usize, HeaderError>(lb_size.bytes() as usize),
            Image {
                bytes: with_header(image.bytes, header, lba, lb_size),
                position: (lba * lb_size.bytes() + lb_size.bytes()) as nat,
            },
        ),
{
    let table = header.table_on(image.bytes, lb_size);
    let table_sum = crc32_iso_hdlc(table);
    let block = header.sealed_block(table_sum, lb_size);
    lemma_block_len(header, table_sum, lb_size);
    let start = header.table_start(lb_size);
    let len = header.table_len();
    let offset = (lba * lb_size.bytes()) as nat;

    let seek_table = header.begin_write(lba, lb_size)->Ok_0;
    let read_table = WriteView {
        phase: WritePhaseView::Table { table: TableChecksum::Read { len: len as u64 } },
        ..seek_table
    };
    let seek_block = WriteView {
        phase: WritePhaseView::Seek { offset: offset as u64, block },
        ..seek_table
    };
    let write_block = WriteView { phase: WritePhaseView::Write { block }, ..seek_table };
    let at_table = Image { position: start, ..image };
    let behind_table = Image { position: start + len, ..image };
    let at_block = Image { position: offset, ..image };
    let behind_block = Image {
        bytes: overwritten(image.bytes, offset as int, block),
        position: offset + block.len(),
    };

    assert(image.serve(seek_table.asks()) == (ReplyView::At(start as u64), at_table));
    assert(seek_table.run(image) == read_table.run(at_table));
    assert(at_table.serve(read_table.asks()) == (ReplyView::Data(table), behind_table));
    assert(read_table.run(at_table) == seek_block.run(behind_table));
    assert(behind_table.serve(seek_block.asks()) == (ReplyView::At(offset as u64), at_block));
    assert(seek_block.run(behind_table) == write_block.run(at_block));
    assert(at_block.serve(write_block.asks()) == (
        ReplyView::Wrote(block.len() as usize),
        behind_block,
    ));
}

/// Writing a header changes nothing but its block.
pub proof fn law_write_changes_one_block(
    bytes: Seq<u8>,
    header: HeaderView,
    lba: u64,
    lb_size: LogicalBlockSize,
)
    requires
        header.fits(),
        header.disk_guid.len() == 16,
        has_block(bytes, lba, lb_size),
    ensures
        with_header(bytes, header, lba, lb_size).len() == bytes.len(),
        forall|i: int|
            0 <= i < bytes.len() && !(lba * lb_size.bytes() <= i < lba * lb_size.bytes()
                + lb_size.bytes()) ==> #[trigger] with_header(bytes, header, lba, lb_size)[i]
                == bytes[i],
{
    let table_sum = crc32_iso_hdlc(header.table_on(bytes, lb_size));
    lemma_block_len(header, table_sum, lb_size);
    assert(0 <= lba * lb_size.bytes()) by (nonlinear_arith)
        requires
            lba >= 0,
            lb_size.bytes() >= 0,
    ;
}

/// A header that was written is found in its block, with its checksums set, and the rest
/// of the block is zero.
pub proof fn law_written_header_is_there(
    bytes: Seq<u8>,
    header: HeaderView,
    lba: u64,
    lb_size: LogicalBlockSize,
)
    requires
        header.valid(),
        has_block(bytes, lba, lb_size),
    ensures
        ({
            let after = with_header(bytes, header, lba, lb_size);
            let offset = lba * lb_size.bytes();
            &&& header_at(after, offset) == Ok::<HeaderView, HeaderError>(
                header.sealed(crc32_iso_hdlc(header.table_on(bytes, lb_size))),
            )
            &&& after.subrange(offset + HEADER_SIZE, offset + lb_size.bytes()) == zeros(
                (lb_size.bytes() - HEADER_SIZE) as nat,
            )
        }),
{
    let table_sum = crc32_iso_hdlc(header.table_on(bytes, lb_size));
    let header_sum = header.own_checksum(table_sum);
    let raw = header.encoded(header_sum, table_sum);
    let rest = zeros((lb_size.bytes() - HEADER_SIZE) as nat);
    let offset = lba * lb_size.bytes();
    assert(0 <= offset) by (nonlinear_arith)
        requires
            offset == lba * lb_size.bytes(),
            lba >= 0,
            lb_size.bytes() >= 0,
    ;
    lemma_signature();
    law_encoded_len(header, header_sum, table_sum);
    lemma_overwritten(bytes, offset, raw, rest);
    law_sealed_is_read(header, table_sum);
}

/// Writing a header leaves its partition table as it was, where the two do not overlap.
/// The checksum in the written header is then that of the table beside it.
pub proof fn law_write_keeps_table(
    bytes: Seq<u8>,
    header: HeaderView,
    lba: u64,
    lb_size: LogicalBlockSize,
)
    requires
        header.fits(),
        header.disk_guid.len() == 16,
        has_block(bytes, lba, lb_size),
        header.table_fits(bytes, lb_size),
        header.table_clear_of(
            lb_size,
            lba * lb_size.bytes(),
            lba * lb_size.bytes() + lb_size.bytes(),
        ),
    ensures
        header.table_on(with_header(bytes, header, lba, lb_size), lb_size) == header.table_on(
            bytes,
            lb_size,
        ),
{
    law_write_changes_one_block(bytes, header, lba, lb_size);
    let after = with_header(bytes, header, lba, lb_size);
    assert(header.table_on(after, lb_size) =~= header.table_on(bytes, lb_size));
}

/// A primary header that was written is read back, with its checksums set.
pub proof fn law_write_primary_then_read(
    header: HeaderView,
    lb_size: LogicalBlockSize,
    image: Image,
)
    requires
        image.valid(),
        header.valid(),
        header.current_lba == 1,
        header.current_lba < header.backup_lba,
        header.table_fits(image.bytes, lb_size),
        has_block(image.bytes, header.current_lba, lb_size),
    ensures
        ({
            let begun = header.begin_write_primary(lb_size);
            let (result, after) = begun->Ok_0.run(image);
            let read = (ReadView::Position { sector_size: lb_size, backup: false }).run(after);
            &&& begun is Ok
            &&& result is Ok
            &&& read.0 == Ok::<HeaderView, HeaderError>(
                header.sealed(crc32_iso_hdlc(header.table_on(image.bytes, lb_size))),
            )
        }),
{
    lemma_signature();
    law_write(header, header.current_lba, lb_size, image);
    law_write_changes_one_block(image.bytes, header, header.current_lba, lb_size);
    law_written_header_is_there(image.bytes, header, header.current_lba, lb_size);
    law_read_primary_header(lb_size, header.begin_write_primary(lb_size)->Ok_0.run(image).1);
}

/// A backup header that was written to the last block is read back, with its checksums
/// set.
pub proof fn law_write_backup_then_read(
    header: HeaderView,
    lb_size: LogicalBlockSize,
    image: Image,
)
    requires
        image.valid(),
        header.valid(),
        last_block(image.bytes.len(), lb_size) == Ok::<u64, HeaderError>(header.current_lba),
        header.current_lba > header.backup_lba,
        header.table_fits(image.bytes, lb_size),
    ensures
        ({
            let begun = header.begin_write_backup(lb_size);
            let (result, after) = begun->Ok_0.run(image);
            let read = (ReadView::Position { sector_size: lb_size, backup: true }).run(after);
            &&& begun is Ok
            &&& result is Ok
            &&& read.0 == Ok::<HeaderView, HeaderError>(
                header.sealed(crc32_iso_hdlc(header.table_on(image.bytes, lb_size))),
            )
        }),
{
    lemma_signature();
    law_last_block_is_on_disk(image.bytes.len() as u64, lb_size);
    law_write(header, header.current_lba, lb_size, image);
    law_write_changes_one_block(image.bytes, header, header.current_lba, lb_size);
    law_written_header_is_there(image.bytes, header, header.current_lba, lb_size);
    law_read_backup_header(lb_size, header.begin_write_backup(lb_size)->Ok_0.run(image).1);
}

/// No header can be written both as a primary and as a backup one.
pub proof fn law_primary_or_backup(header: HeaderView, lb_size: LogicalBlockSize)
    ensures
        header.begin_write_primary(lb_size) is Ok ==> header.begin_write_backup(lb_size) == Err::<
            WriteView,
            HeaderError,
        >(HeaderError::BackupNotAfterPrimary),
        header.begin_write_backup(lb_size) is Ok ==> header.begin_write_primary(lb_size) == Err::<
            WriteView,
            HeaderError,
        >(HeaderError::PrimaryNotBeforeBackup),
{
}

/// Once the header is being written, the creation runs as the writing does.
proof fn lemma_create_runs_write(create: CreateView, write: WriteView, image: Image)
    requires
        create.phase == (CreatePhaseView::Write { write }),
    ensures
        create.run(image) == (
            match write.run(image).0 {
                Ok(_) => Ok(create.guid),
                Err(error) => Err(error),
            },
            write.run(image).1,
        ),
    decreases write.requests_left(),
{
    let (reply, after) = image.serve(write.asks());
    if let Step::Ask(rest) = write.next(reply) {
        lemma_create_runs_write(
            CreateView { phase: CreatePhaseView::Write { write: rest }, ..create },
            rest,
            after,
        );
    }
}

/// A new header fits on the disk that it was made for: so do its partition table and its
/// block, and the two do not overlap.
proof fn lemma_new_header_fits(
    guid: Seq<u8>,
    bytes: Seq<u8>,
    sector_size: LogicalBlockSize,
    backup_lba: u64,
)
    requires
        bytes.len() <= u64::MAX,
        guid.len() == 16,
        last_block(bytes.len(), sector_size) == Ok::<u64, HeaderError>(backup_lba),
        computed(true, 0, guid, backup_lba, None, sector_size, None) is Ok,
    ensures
        ({
            let header = computed(true, 0, guid, backup_lba, None, sector_size, None)->Ok_0;
            &&& header.valid()
            &&& header.current_lba == 1
            &&& header.current_lba < header.backup_lba
            &&& header.current_lba < header.part_start
            &&& header.table_fits(bytes, sector_size)
            &&& has_block(bytes, 1, sector_size)
        }),
{
    law_last_block_is_on_disk(bytes.len() as u64, sector_size);
    match sector_size {
        LogicalBlockSize::Lb512 => {
            assert(table_blocks(16384, sector_size) == 32);
        },
        LogicalBlockSize::Lb4096 => {
            assert(table_blocks(16384, sector_size) == 4);
        },
    }
}

/// The creation runs as the search for the last block does, and then goes on from there.
proof fn lemma_create_runs_find(guid: Seq<u8>, sector_size: LogicalBlockSize, image: Image)
    requires
        image.valid(),
    ensures
        CreateView::begin(guid, sector_size).run(image) == match last_block(
            image.bytes.len(),
            sector_size,
        ) {
            Ok(last) => match CreateView::begin(guid, sector_size).next_with(last) {
                Step::Ask(rest) => rest.run(image),
                Step::Done(result) => (result, image),
            },
            Err(error) => (Err(error), image),
        },
{
    let start = image.position as u64;
    let len = image.bytes.len() as u64;
    let tell = CreateView::begin(guid, sector_size);
    let end = CreateView {
        phase: CreatePhaseView::Find {
            find: FindBackup { sector_size, phase: FindPhase::End { start } },
        },
        ..tell
    };
    let restore = CreateView {
        phase: CreatePhaseView::Find {
            find: FindBackup { sector_size, phase: FindPhase::Restore { start, len } },
        },
        ..tell
    };
    let at_end = Image { position: image.bytes.len(), ..image };
    assert(image.serve(tell.asks()) == (ReplyView::At(start), image));
    assert(tell.run(image) == end.run(image));
    assert(image.serve(end.asks()) == (ReplyView::At(len), at_end));
    assert(end.run(image) == restore.run(at_end));
    assert(at_end.serve(restore.asks()) == (ReplyView::At(start), image));
}

/// Creating a header on a disk that does what is asked of it writes one block, from which
/// the new header is read back, with the checksum of the table beside it. On a disk that
/// is too small nothing is changed.
pub proof fn law_write_header(guid: Seq<u8>, sector_size: LogicalBlockSize, image: Image)
    requires
        image.valid(),
        guid.len() == 16,
    ensures
        ({
            let (result, after) = CreateView::begin(guid, sector_size).run(image);
            let read = (ReadView::Position { sector_size, backup: false }).run(after);
            match last_block(image.bytes.len(), sector_size) {
                Ok(backup_lba) => match computed(
                    true,
                    0,
                    guid,
                    backup_lba,
                    None,
                    sector_size,
                    None,
                ) {
                    Ok(header) => {
                        &&& result == Ok::<Seq<u8>, HeaderError>(guid)
                        &&& after.bytes == with_header(image.bytes, header, 1, sector_size)
                        &&& header.table_on(after.bytes, sector_size) == header.table_on(
                            image.bytes,
                            sector_size,
                        )
                        &&& read.0 == Ok::<HeaderView, HeaderError>(
                            header.sealed(
                                crc32_iso_hdlc(header.table_on(after.bytes, sector_size)),
                            ),
                        )
                    },
                    Err(error) => result == Err::<Seq<u8>, HeaderError>(error) && after == image,
                },
                Err(error) => result == Err::<Seq<u8>, HeaderError>(error) && after == image,
            }
        }),
{
    let create = CreateView::begin(guid, sector_size);
    lemma_create_runs_find(guid, sector_size, image);
    if let Ok(backup_lba) = last_block(image.bytes.len(), sector_size) {
        if let Ok(header) = computed(true, 0, guid, backup_lba, None, sector_size, None) {
            lemma_signature();
            lemma_new_header_fits(guid, image.bytes, sector_size, backup_lba);
            law_write(header, 1, sector_size, image);
            let write = header.begin_write_primary(sector_size)->Ok_0;
            lemma_create_runs_write(
                CreateView { phase: CreatePhaseView::Write { write }, ..create },
                write,
                image,
            );
            law_write_primary_then_read(header, sector_size, image);
            law_write_keeps_table(image.bytes, header, 1, sector_size);
        }
    }
}

/// Whether a primary header in block 1 and a backup header in the last block lie apart from
/// the tables: the primary table overlaps neither of them, and the backup table does not
/// overlap the backup header.
pub open spec fn lie_apart(
    primary: HeaderView,
    backup: HeaderView,
    lb_size: LogicalBlockSize,
    bytes: Seq<u8>,
) -> bool {
    let block = lb_size.bytes() as int;
    let last = backup.current_lba * block;
    &&& last_block(bytes.len(), lb_size) == Ok::<u64, HeaderError>(backup.current_lba)
    &&& primary.current_lba == 1
    &&& primary.backup_lba > 1
    &&& backup.backup_lba < backup.current_lba
    &&& primary.table_fits(bytes, lb_size)
    &&& backup.table_fits(bytes, lb_size)
    &&& primary.table_clear_of(lb_size, block, 2 * block)
    &&& primary.table_clear_of(lb_size, last, last + block)
    &&& backup.table_clear_of(lb_size, last, last + block)
}

/// Writing the backup header leaves the primary header and its table as they were.
proof fn lemma_backup_keeps_primary(
    primary: HeaderView,
    backup: HeaderView,
    lb_size: LogicalBlockSize,
    bytes: Seq<u8>,
)
    requires
        bytes.len() <= u64::MAX,
        backup.valid(),
        lie_apart(primary, backup, lb_size, bytes),
    ensures
        ({
            let after = with_header(bytes, backup, backup.current_lba, lb_size);
            &&& after.len() == bytes.len()
            &&& header_at(after, lb_size.bytes() as int) == header_at(
                bytes,
                lb_size.bytes() as int,
            )
            &&& primary.table_on(after, lb_size) == primary.table_on(bytes, lb_size)
        }),
{
    lemma_signature();
    law_last_block_is_on_disk(bytes.len() as u64, lb_size);
    law_write_changes_one_block(bytes, backup, backup.current_lba, lb_size);
    let after = with_header(bytes, backup, backup.current_lba, lb_size);
    let block = lb_size.bytes() as int;
    assert(2 * block <= backup.current_lba * block) by {
        match lb_size {
            LogicalBlockSize::Lb512 => {},
            LogicalBlockSize::Lb4096 => {},
        }
    }
    assert(after.subrange(block, block + HEADER_SIZE) =~= bytes.subrange(
        block,
        block + HEADER_SIZE,
    ));
    assert(primary.table_on(after, lb_size) =~= primary.table_on(bytes, lb_size));
}

/// A disk once a primary header and then a backup header have been written to it.
pub open spec fn with_both(
    bytes: Seq<u8>,
    primary: HeaderView,
    backup: HeaderView,
    lb_size: LogicalBlockSize,
) -> Seq<u8> {
    let middle = with_header(bytes, primary, primary.current_lba, lb_size);
    with_header(middle, backup, backup.current_lba, lb_size)
}

/// Both headers are there, each with the checksum of its table as it is then.
proof fn lemma_both_are_there(
    primary: HeaderView,
    backup: HeaderView,
    lb_size: LogicalBlockSize,
    bytes: Seq<u8>,
)
    requires
        bytes.len() <= u64::MAX,
        primary.valid(),
        backup.valid(),
        lie_apart(primary, backup, lb_size, bytes),
    ensures
        ({
            let end = with_both(bytes, primary, backup, lb_size);
            &&& end.len() == bytes.len()
            &&& header_at(end, lb_size.bytes() as int) == Ok::<HeaderView, HeaderError>(
                primary.sealed(crc32_iso_hdlc(primary.table_on(end, lb_size))),
            )
            &&& header_at(end, backup.current_lba * lb_size.bytes()) == Ok::<
                HeaderView,
                HeaderError,
            >(backup.sealed(crc32_iso_hdlc(backup.table_on(end, lb_size))))
        }),
{
    let last = backup.current_lba;
    let middle = with_header(bytes, primary, 1, lb_size);
    lemma_signature();
    lemma_last_block(lb_size, bytes, last);
    assert(middle.len() == bytes.len()) by {
        law_write_changes_one_block(bytes, primary, 1, lb_size);
    }
    assert(header_at(middle, lb_size.bytes() as int) == Ok::<HeaderView, HeaderError>(
        primary.sealed(crc32_iso_hdlc(primary.table_on(bytes, lb_size))),
    )) by {
        law_written_header_is_there(bytes, primary, 1, lb_size);
    }
    assert(primary.table_on(middle, lb_size) == primary.table_on(bytes, lb_size)) by {
        law_write_keeps_table(bytes, primary, 1, lb_size);
    }
    let end = with_header(middle, backup, last, lb_size);
    assert(header_at(end, last * lb_size.bytes()) == Ok::<HeaderView, HeaderError>(
        backup.sealed(crc32_iso_hdlc(backup.table_on(middle, lb_size))),
    )) by {
        law_written_header_is_there(middle, backup, last, lb_size);
    }
    assert(backup.table_on(end, lb_size) == backup.table_on(middle, lb_size)) by {
        law_write_keeps_table(middle, backup, last, lb_size);
    }
    lemma_backup_keeps_primary(primary, backup, lb_size, middle);
}

/// A disk has its last block, and the two before it.
proof fn lemma_last_block(lb_size: LogicalBlockSize, bytes: Seq<u8>, last: u64)
    requires
        bytes.len() <= u64::MAX,
        last_block(bytes.len(), lb_size) == Ok::<u64, HeaderError>(last),
    ensures
        last >= 2,
        has_block(bytes, 1, lb_size),
        has_block(bytes, last, lb_size),
{
    law_last_block_is_on_disk(bytes.len() as u64, lb_size);
    match lb_size {
        LogicalBlockSize::Lb512 => {},
        LogicalBlockSize::Lb4096 => {},
    }
}

/// On a disk that does what is asked of it, both headers are written.
proof fn lemma_both_are_written(
    primary: HeaderView,
    backup: HeaderView,
    lb_size: LogicalBlockSize,
    image: Image,
)
    requires
        image.valid(),
        primary.valid(),
        backup.valid(),
        lie_apart(primary, backup, lb_size, image.bytes),
    ensures
        ({
            let one = primary.begin_write_primary(lb_size)->Ok_0.run(image);
            let two = backup.begin_write_backup(lb_size)->Ok_0.run(one.1);
            &&& primary.begin_write_primary(lb_size) is Ok
            &&& backup.begin_write_backup(lb_size) is Ok
            &&& one.0 is Ok
            &&& two.0 is Ok
            &&& two.1.bytes == with_both(image.bytes, primary, backup, lb_size)
            &&& two.1.position <= u64::MAX
        }),
{
    let last = backup.current_lba;
    lemma_signature();
    lemma_last_block(lb_size, image.bytes, last);
    law_write(primary, 1, lb_size, image);
    let one = primary.begin_write(1, lb_size)->Ok_0.run(image).1;
    assert(one.bytes.len() == image.bytes.len()) by {
        law_write_changes_one_block(image.bytes, primary, 1, lb_size);
    }
    law_write(backup, last, lb_size, one);
}

/// A primary header and then a backup header that are written to a disk are both read
/// back, each with the checksum of its table as it is then, where they and their tables
/// lie apart.
pub proof fn law_both_are_read_back(
    primary: HeaderView,
    backup: HeaderView,
    lb_size: LogicalBlockSize,
    image: Image,
)
    requires
        image.valid(),
        primary.valid(),
        backup.valid(),
        lie_apart(primary, backup, lb_size, image.bytes),
    ensures
        ({
            let one = primary.begin_write_primary(lb_size)->Ok_0.run(image);
            let two = backup.begin_write_backup(lb_size)->Ok_0.run(one.1);
            let end = two.1.bytes;
            let read_primary = ReadView::Position { sector_size: lb_size, backup: false };
            let read_backup = ReadView::Position { sector_size: lb_size, backup: true };
            &&& primary.begin_write_primary(lb_size) is Ok
            &&& backup.begin_write_backup(lb_size) is Ok
            &&& one.0 is Ok
            &&& two.0 is Ok
            &&& read_primary.run(two.1).0 == Ok::<HeaderView, HeaderError>(
                primary.sealed(crc32_iso_hdlc(primary.table_on(end, lb_size))),
            )
            &&& read_backup.run(two.1).0 == Ok::<HeaderView, HeaderError>(
                backup.sealed(crc32_iso_hdlc(backup.table_on(end, lb_size))),
            )
        }),
{
    let one = primary.begin_write_primary(lb_size)->Ok_0.run(image).1;
    let two = backup.begin_write_backup(lb_size)->Ok_0.run(one).1;
    lemma_both_are_written(primary, backup, lb_size, image);
    lemma_both_are_there(primary, backup, lb_size, image.bytes);
    law_read_primary_header(lb_size, two);
    law_read_backup_header(lb_size, two);
}

/// A new pair of headers fits on the disk that it was made for, where there is a usable
/// block before the backup table: neither header's block overlaps a table of the pair.
proof fn lemma_pair_fits(
    used: nat,
    guid: Seq<u8>,
    backup_offset: u64,
    original: Option<HeaderView>,
    lb_size: LogicalBlockSize,
    num_parts: Option<u32>,
    bytes: Seq<u8>,
)
    requires
        bytes.len() <= u64::MAX,
        guid.len() == 16,
        computable(false, used, original, num_parts),
        !keeps_range(original, num_parts),
        last_block(bytes.len(), lb_size) == Ok::<u64, HeaderError>(backup_offset),
        computed(true, used, guid, backup_offset, original, lb_size, num_parts) matches Ok(header)
            && header.last_usable >= 1,
    ensures
        ({
            let primary = computed(true, used, guid, backup_offset, original, lb_size, num_parts);
            let backup = computed(false, used, guid, backup_offset, original, lb_size, num_parts);
            &&& backup is Ok
            &&& primary->Ok_0.valid()
            &&& backup->Ok_0.valid()
            &&& lie_apart(primary->Ok_0, backup->Ok_0, lb_size, bytes)
        }),
{
    let primary = computed(true, used, guid, backup_offset, original, lb_size, num_parts)->Ok_0;
    let backup = computed(false, used, guid, backup_offset, original, lb_size, num_parts)->Ok_0;
    law_last_block_is_on_disk(bytes.len() as u64, lb_size);
    law_tables_have_room(true, used, guid, backup_offset, original, lb_size, num_parts);
    law_tables_have_room(false, used, guid, backup_offset, original, lb_size, num_parts);
    match lb_size {
        LogicalBlockSize::Lb512 => {
            assert(lb_size.bytes() == 512);
        },
        LogicalBlockSize::Lb4096 => {
            assert(lb_size.bytes() == 4096);
        },
    }
}

/// A new pair of headers that is written to the disk that it was made for is read back,
/// both headers with the checksums of the tables as they are then. There has to be a
/// usable block before the backup table, or the pair overlaps.
pub proof fn law_pair_is_read_back(
    used: nat,
    guid: Seq<u8>,
    backup_offset: u64,
    original: Option<HeaderView>,
    lb_size: LogicalBlockSize,
    num_parts: Option<u32>,
    image: Image,
)
    requires
        image.valid(),
        guid.len() == 16,
        computable(false, used, original, num_parts),
        !keeps_range(original, num_parts),
        last_block(image.bytes.len(), lb_size) == Ok::<u64, HeaderError>(backup_offset),
        computed(true, used, guid, backup_offset, original, lb_size, num_parts) matches Ok(header)
            && header.last_usable >= 1,
    ensures
        ({
            let primary = computed(
                true,
                used,
                guid,
                backup_offset,
                original,
                lb_size,
                num_parts,
            )->Ok_0;
            let backup = computed(
                false,
                used,
                guid,
                backup_offset,
                original,
                lb_size,
                num_parts,
            )->Ok_0;
            let one = primary.begin_write_primary(lb_size)->Ok_0.run(image);
            let two = backup.begin_write_backup(lb_size)->Ok_0.run(one.1);
            let end = two.1.bytes;
            let read_primary = ReadView::Position { sector_size: lb_size, backup: false };
            let read_backup = ReadView::Position { sector_size: lb_size, backup: true };
            &&& one.0 is Ok
            &&& two.0 is Ok
            &&& read_primary.run(two.1).0 == Ok::<HeaderView, HeaderError>(
                primary.sealed(crc32_iso_hdlc(primary.table_on(end, lb_size))),
            )
            &&& read_backup.run(two.1).0 == Ok::<HeaderView, HeaderError>(
                backup.sealed(crc32_iso_hdlc(backup.table_on(end, lb_size))),
            )
        }),
{
    let primary = computed(true, used, guid, backup_offset, original, lb_size, num_parts)->Ok_0;
    let backup = computed(false, used, guid, backup_offset, original, lb_size, num_parts)->Ok_0;
    lemma_pair_fits(used, guid, backup_offset, original, lb_size, num_parts, image.bytes);
    law_both_are_read_back(primary, backup, lb_size, image);
}

} // verus!
