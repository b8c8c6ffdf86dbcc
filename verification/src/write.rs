//! Writing headers to a disk.
use vstd::prelude::*;
use vstd::utf8::encode_utf8;

use crate::checksum::{calculate_crc32, crc32_iso_hdlc};
use crate::codec::law_encoded_len;
use crate::device::{Image, Reply, ReplyView, Request, RequestView, Step};
use crate::disk::LogicalBlockSize;
use crate::endian::zeros;
use crate::error::HeaderError;
use crate::header::{Header, HeaderView, HEADER_SIZE};
use crate::table::{lemma_table_len_fits, partentry_checksum, TableChecksum};

verus! {

impl HeaderView {
    /// The header's own checksum, given that of the partition table: that of its bytes
    /// with the checksum zeroed.
    pub open spec fn own_checksum(self, table_sum: u32) -> u32 {
        crc32_iso_hdlc(self.encoded(0, table_sum))
    }

    /// The block that holds the header with the given checksums: its bytes, and zeros.
    pub open spec fn block(
        self,
        header_sum: u32,
        table_sum: u32,
        lb_size: LogicalBlockSize,
    ) -> Seq<u8> {
        self.encoded(header_sum, table_sum) + zeros((lb_size.bytes() - HEADER_SIZE) as nat)
    }

    /// The block that is written where the partition table has the checksum `table_sum`.
    pub open spec fn sealed_block(self, table_sum: u32, lb_size: LogicalBlockSize) -> Seq<u8> {
        self.block(self.own_checksum(table_sum), table_sum, lb_size)
    }
}

/// The writing of a header to a block. The partition table is read first, for its
/// checksum.
#[derive(Debug)]
pub struct WriteHeader {
    pub header: Header,
    pub lba: u64,
    pub lb_size: LogicalBlockSize,
    pub phase: WritePhase,
}

/// What the writing waits for.
#[derive(Debug)]
pub enum WritePhase {
    /// The checksum of the partition table.
    Table { table: TableChecksum },
    /// To be at the header's offset, where `block` is to be written.
    Seek { offset: u64, block: Vec<u8> },
    /// The block to be written.
    Write { block: Vec<u8> },
}

/// The writing of a header, by its contents.
pub struct WriteView {
    pub header: HeaderView,
    pub lba: u64,
    pub lb_size: LogicalBlockSize,
    pub phase: WritePhaseView,
}

/// What the writing waits for, by its contents.
pub enum WritePhaseView {
    Table { table: TableChecksum },
    Seek { offset: u64, block: Seq<u8> },
    Write { block: Seq<u8> },
}

impl View for WritePhase {
    type V = WritePhaseView;

    open spec fn view(&self) -> WritePhaseView {
        match self {
            WritePhase::Table { table } => WritePhaseView::Table { table: *table },
            WritePhase::Seek { offset, block } => WritePhaseView::Seek {
                offset: *offset,
                block: block@,
            },
            WritePhase::Write { block } => WritePhaseView::Write { block: block@ },
        }
    }
}

impl View for WriteHeader {
    type V = WriteView;

    open spec fn view(&self) -> WriteView {
        WriteView {
            header: self.header@,
            lba: self.lba,
            lb_size: self.lb_size,
            phase: self.phase@,
        }
    }
}

impl WriteView {
    /// What is asked of the disk.
    pub open spec fn asks(self) -> RequestView {
        match self.phase {
            WritePhaseView::Table { table } => table.asks(),
            WritePhaseView::Seek { offset, .. } => RequestView::SeekStart(offset),
            WritePhaseView::Write { block } => RequestView::Write(block),
        }
    }

    /// How the writing goes on once the checksum of the partition table is there.
    pub open spec fn next_with(self, table_sum: u32) -> Step<WriteView, usize> {
        let offset = self.lba * self.lb_size.bytes();
        if offset > u64::MAX {
            Step::Done(Err(HeaderError::OffsetOverflow))
        } else {
            Step::Ask(
                WriteView {
                    phase: WritePhaseView::Seek {
                        offset: offset as u64,
                        block: self.header.sealed_block(table_sum, self.lb_size),
                    },
                    ..self
                },
            )
        }
    }

    /// How the writing goes on with a reply. It ends with the first failure. The result is
    /// the number of bytes written.
    pub open spec fn next(self, reply: ReplyView) -> Step<WriteView, usize> {
        match (self.phase, reply) {
            (WritePhaseView::Table { table }, _) => match table.next(reply) {
                Step::Ask(table) => Step::Ask(
                    WriteView { phase: WritePhaseView::Table { table }, ..self },
                ),
                Step::Done(Ok(table_sum)) => self.next_with(table_sum),
                Step::Done(Err(error)) => Step::Done(Err(error)),
            },
            (_, ReplyView::Failed(failure)) => Step::Done(Err(HeaderError::Device(failure))),
            (WritePhaseView::Seek { block, .. }, ReplyView::At(_)) => Step::Ask(
                WriteView { phase: WritePhaseView::Write { block }, ..self },
            ),
            (WritePhaseView::Write { .. }, ReplyView::Wrote(len)) => Step::Done(Ok(len)),
            _ => arbitrary(),
        }
    }

    /// The most requests that are still to come.
    pub open spec fn requests_left(self) -> nat {
        match self.phase {
            WritePhaseView::Table { table } => 2 + table.requests_left(),
            WritePhaseView::Seek { .. } => 2,
            WritePhaseView::Write { .. } => 1,
        }
    }

    /// The outcome of the writing on a disk that does what is asked of it.
    pub open spec fn run(self, image: Image) -> (Result<usize, HeaderError>, Image)
        decreases self.requests_left(),
    {
        let (reply, image) = image.serve(self.asks());
        match self.next(reply) {
            Step::Ask(rest) => rest.run(image),
            Step::Done(result) => (result, image),
        }
    }
}

/// A step of the writing, by its contents.
pub open spec fn viewed_write(step: Step<WriteHeader, usize>) -> Step<WriteView, usize> {
    match step {
        Step::Ask(write) => Step::Ask(write@),
        Step::Done(result) => Step::Done(result),
    }
}

/// A begun writing, by its contents.
pub open spec fn viewed_begun(
    begun: Result<WriteHeader, HeaderError>,
) -> Result<WriteView, HeaderError> {
    match begun {
        Ok(write) => Ok(write@),
        Err(error) => Err(error),
    }
}

impl HeaderView {
    /// How writing the header to block `lba` begins.
    pub open spec fn begin_write(
        self,
        lba: u64,
        lb_size: LogicalBlockSize,
    ) -> Result<WriteView, HeaderError> {
        match self.begin_checksum(lb_size) {
            Ok(table) => Ok(
                WriteView { header: self, lba, lb_size, phase: WritePhaseView::Table { table } },
            ),
            Err(error) => Err(error),
        }
    }

    /// How writing a primary header begins. It has to start before the backup one.
    pub open spec fn begin_write_primary(
        self,
        lb_size: LogicalBlockSize,
    ) -> Result<WriteView, HeaderError> {
        if self.current_lba >= self.backup_lba {
            Err(HeaderError::PrimaryNotBeforeBackup)
        } else {
            self.begin_write(self.current_lba, lb_size)
        }
    }

    /// How writing a backup header begins. It has to start after the primary one.
    pub open spec fn begin_write_backup(
        self,
        lb_size: LogicalBlockSize,
    ) -> Result<WriteView, HeaderError> {
        if self.current_lba <= self.backup_lba {
            Err(HeaderError::BackupNotAfterPrimary)
        } else {
            self.begin_write(self.current_lba, lb_size)
        }
    }
}

impl Header {
    /// Write the primary header.
    ///
    /// The checksums of the header and of the partition table are set in what is written.
    pub fn write_primary(&self, lb_size: LogicalBlockSize) -> (begun: Result<
        WriteHeader,
        HeaderError,
    >)
        ensures
            viewed_begun(begun) == self@.begin_write_primary(lb_size),
    {
        // This is the primary header. It must start before the backup one.
        if self.current_lba >= self.backup_lba {
            return Err(HeaderError::PrimaryNotBeforeBackup);
        }
        self.file_write_header(self.current_lba, lb_size)
    }

    /// Write the backup header.
    ///
    /// The checksums of the header and of the partition table are set in what is written.
    pub fn write_backup(&self, lb_size: LogicalBlockSize) -> (begun: Result<
        WriteHeader,
        HeaderError,
    >)
        ensures
            viewed_begun(begun) == self@.begin_write_backup(lb_size),
    {
        // This is the backup header. It must start after the primary one.
        if self.current_lba <= self.backup_lba {
            return Err(HeaderError::BackupNotAfterPrimary);
        }
        self.file_write_header(self.current_lba, lb_size)
    }

    /// Write a header to an arbitrary LBA.
    pub fn file_write_header(&self, lba: u64, lb_size: LogicalBlockSize) -> (begun: Result<
        WriteHeader,
        HeaderError,
    >)
        ensures
            viewed_begun(begun) == self@.begin_write(lba, lb_size),
    {
        match partentry_checksum(self, lb_size) {
            Ok(table) => Ok(
                WriteHeader {
                    header: self.clone(),
                    lba,
                    lb_size,
                    phase: WritePhase::Table { table },
                },
            ),
            Err(error) => Err(error),
        }
    }

    /// The block that holds the header with the given checksums. The rest of the block is
    /// zero.
    pub fn block_with(
        &self,
        header_sum: u32,
        table_sum: u32,
        lb_size: LogicalBlockSize,
    ) -> (block: Vec<u8>)
        requires
            self@.fits(),
        ensures
            block@ == self@.block(header_sum, table_sum, lb_size),
    {
        let header_bytes = self.as_bytes(Some(header_sum), Some(table_sum));
        let mut block: Vec<u8> = Vec::with_capacity(lb_size.as_usize());
        block.extend_from_slice(&header_bytes);
        assert(block@ =~= header_bytes@);
        block.resize(lb_size.as_usize(), 0);
        assert(block@ =~= block@.subrange(0, 92) + block@.skip(92));
        assert(block@ =~= self@.block(header_sum, table_sum, lb_size));
        block
    }
}

impl WriteHeader {
    /// What is asked of the disk.
    pub fn request(&self) -> (request: Request<'_>)
        ensures
            request@ == self@.asks(),
    {
        match &self.phase {
            WritePhase::Table { table } => table.request(),
            WritePhase::Seek { offset, .. } => Request::SeekStart(*offset),
            WritePhase::Write { block } => Request::Write(block.as_slice()),
        }
    }

    /// Goes on with the checksum of the partition table.
    pub fn resume_with(self, parts_checksum: u32) -> (step: Step<WriteHeader, usize>)
        requires
            self@.header.fits(),
        ensures
            viewed_write(step) == self@.next_with(parts_checksum),
    {
        let WriteHeader { header, lba, lb_size, .. } = self;
        let bytes = header.as_bytes(None, Some(parts_checksum));
        let checksum = calculate_crc32(&bytes);
        match lba.checked_mul(lb_size.as_u64()) {
            Some(offset) => {
                let block = header.block_with(checksum, parts_checksum, lb_size);
                Step::Ask(
                    WriteHeader { header, lba, lb_size, phase: WritePhase::Seek { offset, block } },
                )
            },
            None => Step::Done(Err(HeaderError::OffsetOverflow)),
        }
    }

    /// Goes on with the reply to the request. By the time the partition table is there,
    /// the header's signature must leave room for the other fields.
    pub fn resume(self, reply: Reply) -> (step: Step<WriteHeader, usize>)
        requires
            self@.asks().allows(reply@),
            reply is Data ==> self@.header.fits(),
        ensures
            viewed_write(step) == self@.next(reply@),
    {
        let WriteHeader { header, lba, lb_size, phase } = self;
        match phase {
            WritePhase::Table { table } => match table.resume(reply) {
                Step::Ask(table) => Step::Ask(
                    WriteHeader { header, lba, lb_size, phase: WritePhase::Table { table } },
                ),
                Step::Done(Ok(parts_checksum)) => {
                    let write = WriteHeader {
                        header,
                        lba,
                        lb_size,
                        phase: WritePhase::Table { table },
                    };
                    write.resume_with(parts_checksum)
                },
                Step::Done(Err(error)) => Step::Done(Err(error)),
            },
            WritePhase::Seek { block, .. } => match reply {
                Reply::Failed(failure) => Step::Done(Err(HeaderError::Device(failure))),
                _ => Step::Ask(
                    WriteHeader { header, lba, lb_size, phase: WritePhase::Write { block } },
                ),
            },
            WritePhase::Write { block } => match reply {
                Reply::Failed(failure) => Step::Done(Err(HeaderError::Device(failure))),
                Reply::Wrote(len) => Step::Done(Ok(len)),
                Reply::At(_) | Reply::Data(_) => {
                    assert(false);
                    Step::Ask(
                        WriteHeader { header, lba, lb_size, phase: WritePhase::Write { block } },
                    )
                },
            },
        }
    }
}

/// However the disk answers, the writing comes to its end, and stays with its header and
/// block.
pub proof fn law_write_ends(write: WriteView, reply: ReplyView)
    requires
        write.asks().allows(reply),
    ensures
        write.next(reply) matches Step::Ask(rest) ==> {
            &&& rest.requests_left() < write.requests_left()
            &&& rest.header == write.header
            &&& rest.lba == write.lba
            &&& rest.lb_size == write.lb_size
        },
{
}

/// However the disk answers, nothing is asked to be written before the partition table has
/// been read. What is then written, at the header's block, holds the checksum of what was
/// read.
pub proof fn law_table_before_write(write: WriteView, reply: ReplyView, rest: WriteView)
    requires
        write.asks().allows(reply),
        write.phase is Table,
        write.next(reply) == Step::<WriteView, usize>::Ask(rest),
    ensures
        write.asks() !is Write,
        match reply {
            ReplyView::Data(table) => rest.phase == (WritePhaseView::Seek {
                offset: (write.lba * write.lb_size.bytes()) as u64,
                block: write.header.sealed_block(crc32_iso_hdlc(table), write.lb_size),
            }),
            _ => rest.phase is Table,
        },
{
}

/// The block that is written is the one that was made when the partition table had been
/// read.
pub proof fn law_block_is_kept(write: WriteView, reply: ReplyView, offset: u64, block: Seq<u8>)
    requires
        write.phase == (WritePhaseView::Seek { offset, block }),
        write.asks().allows(reply),
    ensures
        match write.next(reply) {
            Step::Ask(rest) => rest.asks() == RequestView::Write(block),
            Step::Done(result) => result is Err,
        },
{
}

/// A header is written as a primary one exactly where its block comes before the other's,
/// and as a backup one exactly where it comes after, in both cases to its own block.
pub proof fn law_order_decides(header: HeaderView, lb_size: LogicalBlockSize)
    ensures
        header.current_lba < header.backup_lba ==> header.begin_write_primary(lb_size)
            == header.begin_write(header.current_lba, lb_size),
        header.current_lba >= header.backup_lba ==> header.begin_write_primary(lb_size) == Err::<
            WriteView,
            HeaderError,
        >(HeaderError::PrimaryNotBeforeBackup),
        header.current_lba > header.backup_lba ==> header.begin_write_backup(lb_size)
            == header.begin_write(header.current_lba, lb_size),
        header.current_lba <= header.backup_lba ==> header.begin_write_backup(lb_size) == Err::<
            WriteView,
            HeaderError,
        >(HeaderError::BackupNotAfterPrimary),
{
}

/// What the writing of a header to block `lba` asks for, whatever positions the disk tells:
/// to be at the table, all of the table, to be at the block, and one block to be written.
/// It is refused exactly where one of the two offsets does not fit in 64 bits, before the
/// table is read or after it. The block begins with the header's bytes: first those with a
/// checksum of zero are summed up, then that sum is put in. The rest of the block is zero.
/// The result is the number of bytes that the disk has written.
pub proof fn law_writing_by_steps(
    header: HeaderView,
    lba: u64,
    lb_size: LogicalBlockSize,
    at: (u64, u64),
    table: Seq<u8>,
    wrote: usize,
)
    requires
        table.len() == header.num_parts * header.part_size,
        encode_utf8(header.signature).len() <= 8,
        header.disk_guid.len() == 16,
    ensures
        ({
            let block: int = match lb_size {
                LogicalBlockSize::Lb512 => 512,
                LogicalBlockSize::Lb4096 => 4096,
            };
            let begun = header.begin_write(lba, lb_size);
            &&& begun is Err <==> header.part_start * block > u64::MAX
            &&& begun matches Err(error) ==> error == HeaderError::TableStartOverflow
            &&& begun matches Ok(seek_table) ==> {
                let read_table = seek_table.next(ReplyView::At(at.0));
                let seek = read_table->Ask_0.next(ReplyView::Data(table));
                &&& seek_table.asks() matches RequestView::SeekStart(offset) && offset
                    == header.part_start * block
                &&& read_table is Ask
                &&& read_table->Ask_0.asks() matches RequestView::ReadExact(len) && len
                    == header.num_parts * header.part_size
                &&& lba * block > u64::MAX ==> seek == Step::<WriteView, usize>::Done(
                    Err(HeaderError::OffsetOverflow),
                )
                &&& lba * block <= u64::MAX ==> {
                    let write = seek->Ask_0.next(ReplyView::At(at.1));
                    let data = write->Ask_0.asks()->Write_0;
                    let table_sum = crc32_iso_hdlc(table);
                    let header_sum = crc32_iso_hdlc(header.encoded(0, table_sum));
                    &&& seek is Ask
                    &&& seek->Ask_0.asks() matches RequestView::SeekStart(offset) && offset == lba
                        * block
                    &&& write is Ask
                    &&& write->Ask_0.asks() is Write
                    &&& data.len() == block
                    &&& data.take(92) == header.encoded(header_sum, table_sum)
                    &&& forall|i: int| 92 <= i < block ==> #[trigger] data[i] == 0
                    &&& write->Ask_0.next(ReplyView::Wrote(wrote)) == Step::<
                        WriteView,
                        usize,
                    >::Done(Ok(wrote))
                }
            }
        }),
{
    let table_sum = crc32_iso_hdlc(table);
    let header_sum = header.own_checksum(table_sum);
    lemma_table_len_fits(header);
    law_block(header, header_sum, table_sum, lb_size);
}

/// A block with a header begins with the header's bytes, and the rest of it is zero.
pub proof fn law_block(
    header: HeaderView,
    header_sum: u32,
    table_sum: u32,
    lb_size: LogicalBlockSize,
)
    requires
        encode_utf8(header.signature).len() <= 8,
        header.disk_guid.len() == 16,
    ensures
        ({
            let data = header.block(header_sum, table_sum, lb_size);
            &&& data.len() == match lb_size {
                LogicalBlockSize::Lb512 => 512int,
                LogicalBlockSize::Lb4096 => 4096int,
            }
            &&& data.take(92) == header.encoded(header_sum, table_sum)
            &&& forall|i: int| 92 <= i < data.len() ==> #[trigger] data[i] == 0
        }),
{
    law_encoded_len(header, header_sum, table_sum);
    let data = header.block(header_sum, table_sum, lb_size);
    assert(data.take(92) =~= header.encoded(header_sum, table_sum));
}

/// Whenever the disk fails, the writing ends with that failure.
pub proof fn law_writing_reports_failures(write: WriteView, failure: usize)
    ensures
        write.next(ReplyView::Failed(failure)) == Step::<WriteView, usize>::Done(
            Err(HeaderError::Device(failure)),
        ),
{
}

/// A header can be written exactly where its signature takes at most eight bytes.
pub proof fn law_fits(header: HeaderView)
    ensures
        header.fits() <==> encode_utf8(header.signature).len() <= 8,
{
}

/// A header that was made and the step that the writing is at are read as what they are.
pub proof fn law_writing_is_viewed(
    begun: Result<WriteHeader, HeaderError>,
    step: Step<WriteHeader, usize>,
)
    ensures
        begun matches Ok(write) ==> viewed_begun(begun) == Ok::<WriteView, HeaderError>(write@),
        begun matches Err(error) ==> viewed_begun(begun) == Err::<WriteView, HeaderError>(error),
        step matches Step::Ask(write) ==> viewed_write(step) == Step::<WriteView, usize>::Ask(
            write@,
        ),
        step matches Step::Done(result) ==> viewed_write(step) == Step::<WriteView, usize>::Done(
            result,
        ),
{
}

} // verus!
