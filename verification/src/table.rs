//! The checksum of a partition table.
use vstd::prelude::*;

use crate::checksum::{calculate_crc32, crc32_iso_hdlc, law_one_byte_changes_checksum};
use crate::device::{Image, Reply, ReplyView, Request, RequestView, Step};
use crate::disk::LogicalBlockSize;
use crate::error::HeaderError;
use crate::header::{Header, HeaderView};

verus! {

impl HeaderView {
    /// The offset of the partition table on a disk.
    pub open spec fn table_start(self, lb_size: LogicalBlockSize) -> nat {
        self.part_start as nat * lb_size.bytes()
    }

    /// The size of the partition table in bytes.
    pub open spec fn table_len(self) -> nat {
        self.num_parts as nat * self.part_size as nat
    }

    /// The partition table on a disk. An empty table may start anywhere.
    pub open spec fn table_on(self, bytes: Seq<u8>, lb_size: LogicalBlockSize) -> Seq<u8> {
        let start = self.table_start(lb_size) as int;
        if self.table_len() == 0 {
            Seq::empty()
        } else {
            bytes.subrange(start, start + self.table_len())
        }
    }

    /// Whether the partition table can be read from a disk: its offset can be told, and
    /// the disk is large enough to hold it.
    pub open spec fn table_fits(self, bytes: Seq<u8>, lb_size: LogicalBlockSize) -> bool {
        &&& self.table_start(lb_size) <= u64::MAX
        &&& self.table_len() == 0 || self.table_start(lb_size) + self.table_len() <= bytes.len()
    }

    /// Whether the partition table takes up none of the disk from `from` to `to`.
    pub open spec fn table_clear_of(
        self,
        lb_size: LogicalBlockSize,
        from: int,
        to: int,
    ) -> bool {
        ||| self.table_len() == 0
        ||| self.table_start(lb_size) + self.table_len() <= from
        ||| to <= self.table_start(lb_size)
    }

    /// How computing the checksum of the partition table begins.
    pub open spec fn begin_checksum(self, lb_size: LogicalBlockSize) -> Result<
        TableChecksum,
        HeaderError,
    > {
        if self.table_start(lb_size) > u64::MAX {
            Err(HeaderError::TableStartOverflow)
        } else {
            Ok(
                TableChecksum::Seek {
                    start: self.table_start(lb_size) as u64,
                    len: self.table_len() as u64,
                },
            )
        }
    }
}

/// The computing of the checksum of a partition table.
///
/// The variants say what it waits for.
#[derive(Clone, Copy, Debug)]
pub enum TableChecksum {
    /// To be at the partition table.
    Seek { start: u64, len: u64 },
    /// The partition table.
    Read { len: u64 },
}

impl TableChecksum {
    /// What is asked of the disk.
    pub open spec fn asks(self) -> RequestView {
        match self {
            TableChecksum::Seek { start, .. } => RequestView::SeekStart(start),
            TableChecksum::Read { len } => RequestView::ReadExact(len),
        }
    }

    /// How the computing goes on with a reply. It ends with the first failure.
    pub open spec fn next(self, reply: ReplyView) -> Step<TableChecksum, u32> {
        match (self, reply) {
            (_, ReplyView::Failed(failure)) => Step::Done(Err(HeaderError::Device(failure))),
            (TableChecksum::Seek { len, .. }, ReplyView::At(_)) => Step::Ask(
                TableChecksum::Read { len },
            ),
            (TableChecksum::Read { .. }, ReplyView::Data(table)) => Step::Done(
                Ok(crc32_iso_hdlc(table)),
            ),
            _ => arbitrary(),
        }
    }

    /// The most requests that are still to come.
    pub open spec fn requests_left(self) -> nat {
        match self {
            TableChecksum::Seek { .. } => 2,
            TableChecksum::Read { .. } => 1,
        }
    }

    /// The outcome on a disk that does what is asked of it.
    pub open spec fn run(self, image: Image) -> (Result<u32, HeaderError>, Image)
        decreases self.requests_left(),
    {
        let (reply, image) = image.serve(self.asks());
        match self.next(reply) {
            Step::Ask(rest) => rest.run(image),
            Step::Done(result) => (result, image),
        }
    }

    /// What is asked of the disk.
    pub fn request(&self) -> (request: Request<'_>)
        ensures
            request@ == self.asks(),
    {
        match *self {
            TableChecksum::Seek { start, .. } => Request::SeekStart(start),
            TableChecksum::Read { len } => Request::ReadExact(len),
        }
    }

    /// Goes on with the reply to the request.
    pub fn resume(self, reply: Reply) -> (step: Step<TableChecksum, u32>)
        requires
            self.asks().allows(reply@),
        ensures
            step == self.next(reply@),
    {
        match (self, reply) {
            (_, Reply::Failed(failure)) => Step::Done(Err(HeaderError::Device(failure))),
            (TableChecksum::Seek { len, .. }, Reply::At(_)) => Step::Ask(
                TableChecksum::Read { len },
            ),
            (TableChecksum::Read { .. }, Reply::Data(table)) => Step::Done(
                Ok(calculate_crc32(table.as_slice())),
            ),
            _ => {
                assert(false);
                Step::Done(Err(HeaderError::TableStartOverflow))
            },
        }
    }
}

/// Computes the checksum of the partition table of a header.
pub fn partentry_checksum(hdr: &Header, lb_size: LogicalBlockSize) -> (begun: Result<
    TableChecksum,
    HeaderError,
>)
    ensures
        begun == hdr@.begin_checksum(lb_size),
{
    match hdr.part_start.checked_mul(lb_size.as_u64()) {
        Some(start) => {
            assert(hdr.num_parts * hdr.part_size <= u64::MAX) by (nonlinear_arith)
                requires
                    hdr.num_parts <= u32::MAX,
                    hdr.part_size <= u32::MAX,
            ;
            let len = hdr.num_parts as u64 * hdr.part_size as u64;
            Ok(TableChecksum::Seek { start, len })
        },
        None => Err(HeaderError::TableStartOverflow),
    }
}

/// On a disk that does what is asked of it and holds the whole partition table, the
/// checksum is that of the table's bytes, and the disk keeps its bytes.
pub proof fn law_partentry_checksum(hdr: HeaderView, lb_size: LogicalBlockSize, image: Image)
    requires
        image.valid(),
        hdr.table_fits(image.bytes, lb_size),
    ensures
        hdr.begin_checksum(lb_size) is Ok,
        hdr.begin_checksum(lb_size)->Ok_0.run(image) == (
            Ok::<u32, HeaderError>(crc32_iso_hdlc(hdr.table_on(image.bytes, lb_size))),
            Image {
                bytes: image.bytes,
                position: hdr.table_start(lb_size) + hdr.table_len(),
            },
        ),
{
    reveal_with_fuel(TableChecksum::run, 2);
}

/// However the disk answers, computing the checksum asks for nothing to be written and
/// comes to its end.
pub proof fn law_checksum_ends(table: TableChecksum, reply: ReplyView)
    requires
        table.asks().allows(reply),
    ensures
        table.asks() !is Write,
        table.next(reply) matches Step::Ask(rest) ==> rest.requests_left() < table.requests_left(),
{
}

/// What computing the checksum asks for, whatever position the disk tells: to be at the
/// block where the table starts, and all bytes of all entries. It is refused exactly where
/// that offset does not fit in 64 bits. The result is the checksum of what was read.
pub proof fn law_checksum_by_steps(
    hdr: HeaderView,
    lb_size: LogicalBlockSize,
    at: u64,
    table: Seq<u8>,
)
    requires
        table.len() == hdr.num_parts * hdr.part_size,
    ensures
        ({
            let block: int = match lb_size {
                LogicalBlockSize::Lb512 => 512,
                LogicalBlockSize::Lb4096 => 4096,
            };
            let begun = hdr.begin_checksum(lb_size);
            &&& begun is Err <==> hdr.part_start * block > u64::MAX
            &&& begun matches Err(error) ==> error == HeaderError::TableStartOverflow
            &&& begun matches Ok(seek) ==> {
                let read = seek.next(ReplyView::At(at));
                &&& seek.asks() matches RequestView::SeekStart(offset) && offset == hdr.part_start
                    * block
                &&& read is Ask
                &&& read->Ask_0.asks() matches RequestView::ReadExact(len) && len == hdr.num_parts
                    * hdr.part_size
                &&& read->Ask_0.next(ReplyView::Data(table)) == Step::<TableChecksum, u32>::Done(
                    Ok(crc32_iso_hdlc(table)),
                )
            }
        }),
{
    lemma_table_len_fits(hdr);
}

/// The size of a table fits in 64 bits.
pub proof fn lemma_table_len_fits(hdr: HeaderView)
    ensures
        0 <= hdr.num_parts * hdr.part_size <= u64::MAX,
{
    assert(0 <= hdr.num_parts * hdr.part_size <= u64::MAX) by (nonlinear_arith)
        requires
            0 <= hdr.num_parts <= u32::MAX,
            0 <= hdr.part_size <= u32::MAX,
    ;
}

/// Whenever the disk fails, computing the checksum ends with that failure.
pub proof fn law_checksum_reports_failures(table: TableChecksum, failure: usize)
    ensures
        table.next(ReplyView::Failed(failure)) == Step::<TableChecksum, u32>::Done(
            Err(HeaderError::Device(failure)),
        ),
{
}

/// On a disk that does what is asked of it and holds the table, from its first block and as
/// long as all its entries, the checksum is that of just these bytes.
pub proof fn law_checksum_covers_the_table(
    hdr: HeaderView,
    lb_size: LogicalBlockSize,
    image: Image,
    start: int,
    end: int,
)
    requires
        image.bytes.len() <= u64::MAX,
        start == hdr.part_start * match lb_size {
            LogicalBlockSize::Lb512 => 512int,
            LogicalBlockSize::Lb4096 => 4096int,
        },
        end == start + hdr.num_parts * hdr.part_size,
        end <= image.bytes.len(),
    ensures
        hdr.begin_checksum(lb_size) is Ok,
        hdr.begin_checksum(lb_size)->Ok_0.run(image).0 == Ok::<u32, HeaderError>(
            crc32_iso_hdlc(image.bytes.subrange(start, end)),
        ),
        hdr.begin_checksum(lb_size)->Ok_0.run(image).1.bytes == image.bytes,
{
    lemma_table_len_fits(hdr);
    reveal_with_fuel(TableChecksum::run, 2);
    if start == end {
        assert(image.bytes.subrange(start, end) =~= Seq::empty());
    }
}

/// The checksum of a table sees every byte of every entry: it changes with any one of them.
pub proof fn law_every_entry_counts(
    hdr: HeaderView,
    lb_size: LogicalBlockSize,
    image: Image,
    start: int,
    entry: int,
    i: int,
    byte: u8,
)
    requires
        image.bytes.len() <= u64::MAX,
        start == hdr.part_start * match lb_size {
            LogicalBlockSize::Lb512 => 512int,
            LogicalBlockSize::Lb4096 => 4096int,
        },
        start + hdr.num_parts * hdr.part_size <= image.bytes.len(),
        0 <= entry < hdr.num_parts,
        0 <= i < hdr.part_size,
        byte != image.bytes[start + entry * hdr.part_size + i],
    ensures
        ({
            let place = start + entry * hdr.part_size + i;
            let changed = Image { bytes: image.bytes.update(place, byte), ..image };
            let begun = hdr.begin_checksum(lb_size)->Ok_0;
            &&& begun.run(image).0 is Ok
            &&& begun.run(changed).0 is Ok
            &&& begun.run(changed).0 != begun.run(image).0
        }),
{
    let place = start + entry * hdr.part_size + i;
    let end = start + hdr.num_parts * hdr.part_size;
    let changed = Image { bytes: image.bytes.update(place, byte), ..image };
    assert(0 <= entry * hdr.part_size + i < hdr.num_parts * hdr.part_size) by (nonlinear_arith)
        requires
            0 <= entry < hdr.num_parts,
            0 <= i < hdr.part_size,
    ;
    law_checksum_covers_the_table(hdr, lb_size, image, start, end);
    law_checksum_covers_the_table(hdr, lb_size, changed, start, end);
    let table = image.bytes.subrange(start, end);
    assert(changed.bytes.subrange(start, end) =~= table.update(place - start, byte));
    law_one_byte_changes_checksum(table, place - start, byte);
}

} // verus!
