//! Reading headers from a disk.
use vstd::prelude::*;

use crate::codec::law_damaged_header_is_refused;
use crate::device::{Image, Reply, ReplyView, Request, RequestView, Step};
use crate::disk::LogicalBlockSize;
use crate::error::HeaderError;
use crate::find::{find_backup_lba, last_block, law_last_block_is_on_disk, FindBackup, FindPhase};
use crate::header::{file_read_header, header_in, viewed, Header, HeaderView, HEADER_SIZE};

verus! {

/// The reading of a header. It moves back to where it began.
///
/// The variants say what it waits for.
#[derive(Debug)]
pub enum ReadHeader {
    /// The position.
    Position { sector_size: LogicalBlockSize, backup: bool },
    /// The search for the block of the backup header, having begun at `start`.
    Find { start: u64, find: FindBackup },
    /// To be at the header's offset.
    Seek { start: u64, offset: u64 },
    /// The header's bytes.
    Read { start: u64 },
    /// To be back at `start`.
    Restore { start: u64, result: Result<Header, HeaderError> },
}

/// The reading of a header, by its contents.
pub enum ReadView {
    Position { sector_size: LogicalBlockSize, backup: bool },
    Find { start: u64, find: FindBackup },
    Seek { start: u64, offset: u64 },
    Read { start: u64 },
    Restore { start: u64, result: Result<HeaderView, HeaderError> },
}

impl View for ReadHeader {
    type V = ReadView;

    open spec fn view(&self) -> ReadView {
        match self {
            ReadHeader::Position { sector_size, backup } => ReadView::Position {
                sector_size: *sector_size,
                backup: *backup,
            },
            ReadHeader::Find { start, find } => ReadView::Find { start: *start, find: *find },
            ReadHeader::Seek { start, offset } => ReadView::Seek { start: *start, offset: *offset },
            ReadHeader::Read { start } => ReadView::Read { start: *start },
            ReadHeader::Restore { start, result } => ReadView::Restore {
                start: *start,
                result: viewed(*result),
            },
        }
    }
}

impl ReadView {
    /// What is asked of the disk.
    pub open spec fn asks(self) -> RequestView {
        match self {
            ReadView::Position { .. } => RequestView::Position,
            ReadView::Find { find, .. } => find.asks(),
            ReadView::Seek { offset, .. } => RequestView::SeekStart(offset),
            ReadView::Read { .. } => RequestView::ReadExact(HEADER_SIZE as u64),
            ReadView::Restore { start, .. } => RequestView::SeekStart(start),
        }
    }

    /// How the reading goes on with a reply.
    ///
    /// The position counts as 0 where it is not told, and a failure to move is passed
    /// over. A failure to read is the result, once the position has been moved back.
    pub open spec fn next(self, reply: ReplyView) -> Step<ReadView, HeaderView> {
        match self {
            ReadView::Position { sector_size, backup } => {
                let start = match reply {
                    ReplyView::At(offset) => offset,
                    _ => 0,
                };
                if backup {
                    Step::Ask(
                        ReadView::Find {
                            start,
                            find: FindBackup { sector_size, phase: FindPhase::Position },
                        },
                    )
                } else {
                    Step::Ask(ReadView::Seek { start, offset: sector_size.bytes() as u64 })
                }
            },
            ReadView::Find { start, find } => match find.next(reply) {
                Step::Ask(find) => Step::Ask(ReadView::Find { start, find }),
                Step::Done(Ok(block)) => Step::Ask(
                    ReadView::Seek { start, offset: (block * find.sector_size.bytes()) as u64 },
                ),
                Step::Done(Err(error)) => Step::Done(Err(error)),
            },
            ReadView::Seek { start, .. } => Step::Ask(ReadView::Read { start }),
            ReadView::Read { start } => match reply {
                ReplyView::Data(raw) => Step::Ask(
                    ReadView::Restore { start, result: header_in(raw) },
                ),
                ReplyView::Failed(failure) => Step::Ask(
                    ReadView::Restore { start, result: Err(HeaderError::Device(failure)) },
                ),
                _ => arbitrary(),
            },
            ReadView::Restore { result, .. } => Step::Done(result),
        }
    }

    /// The most requests that are still to come.
    pub open spec fn requests_left(self) -> nat {
        match self {
            ReadView::Position { .. } => 7,
            ReadView::Find { find, .. } => 3 + find.requests_left(),
            ReadView::Seek { .. } => 3,
            ReadView::Read { .. } => 2,
            ReadView::Restore { .. } => 1,
        }
    }

    /// The outcome of the reading on a disk that does what is asked of it.
    pub open spec fn run(self, image: Image) -> (Result<HeaderView, HeaderError>, Image)
        decreases self.requests_left(),
    {
        let (reply, image) = image.serve(self.asks());
        match self.next(reply) {
            Step::Ask(rest) => rest.run(image),
            Step::Done(result) => (result, image),
        }
    }
}

/// A step of the reading, by its contents.
pub open spec fn viewed_read(step: Step<ReadHeader, Header>) -> Step<ReadView, HeaderView> {
    match step {
        Step::Ask(read) => Step::Ask(read@),
        Step::Done(result) => Step::Done(viewed(result)),
    }
}

/// The bytes of a header as an array.
fn header_array(data: &Vec<u8>) -> (raw: [u8; 92])
    requires
        data@.len() == HEADER_SIZE,
    ensures
        raw@ == data@,
{
    let mut raw = [0u8; 92];
    let mut i: usize = 0;
    while i < HEADER_SIZE
        invariant
            i <= HEADER_SIZE,
            data@.len() == HEADER_SIZE,
            forall|j: int| 0 <= j < i ==> raw@[j] == data@[j],
        decreases HEADER_SIZE - i,
    {
        raw[i] = data[i];
        i = i + 1;
    }
    assert(raw@ =~= data@);
    raw
}

impl ReadHeader {
    /// What is asked of the disk.
    pub fn request(&self) -> (request: Request<'_>)
        ensures
            request@ == self@.asks(),
    {
        match self {
            ReadHeader::Position { .. } => Request::Position,
            ReadHeader::Find { find, .. } => find.request(),
            ReadHeader::Seek { offset, .. } => Request::SeekStart(*offset),
            ReadHeader::Read { .. } => Request::ReadExact(HEADER_SIZE as u64),
            ReadHeader::Restore { start, .. } => Request::SeekStart(*start),
        }
    }

    /// Goes on with the reply to the request.
    pub fn resume(self, reply: Reply) -> (step: Step<ReadHeader, Header>)
        requires
            self@.asks().allows(reply@),
        ensures
            viewed_read(step) == self@.next(reply@),
    {
        match self {
            ReadHeader::Position { sector_size, backup } => {
                let start: u64 = match reply {
                    Reply::At(offset) => offset,
                    _ => 0,
                };
                if backup {
                    Step::Ask(ReadHeader::Find { start, find: find_backup_lba(sector_size) })
                } else {
                    Step::Ask(ReadHeader::Seek { start, offset: sector_size.as_u64() })
                }
            },
            ReadHeader::Find { start, find } => {
                let sector_size = find.sector_size;
                proof {
                    if let FindPhase::Restore { len, .. } = find.phase {
                        law_last_block_is_on_disk(len, sector_size);
                    }
                }
                match find.resume(reply) {
                    Step::Ask(find) => Step::Ask(ReadHeader::Find { start, find }),
                    Step::Done(Ok(block)) => Step::Ask(
                        ReadHeader::Seek { start, offset: block * sector_size.as_u64() },
                    ),
                    Step::Done(Err(error)) => Step::Done(Err(error)),
                }
            },
            ReadHeader::Seek { start, .. } => Step::Ask(ReadHeader::Read { start }),
            ReadHeader::Read { start } => {
                let result = match reply {
                    Reply::Data(data) => file_read_header(&header_array(&data)),
                    Reply::Failed(failure) => Err(HeaderError::Device(failure)),
                    Reply::At(_) | Reply::Wrote(_) => {
                        assert(false);
                        Err(HeaderError::InvalidSignature)
                    },
                };
                Step::Ask(ReadHeader::Restore { start, result })
            },
            ReadHeader::Restore { result, .. } => Step::Done(result),
        }
    }
}

/// Reads the primary header, in the second block.
pub fn read_primary_header(sector_size: LogicalBlockSize) -> (read: ReadHeader)
    ensures
        read@ == (ReadView::Position { sector_size, backup: false }),
{
    ReadHeader::Position { sector_size, backup: false }
}

/// Reads the backup header, in the last block.
pub fn read_backup_header(sector_size: LogicalBlockSize) -> (read: ReadHeader)
    ensures
        read@ == (ReadView::Position { sector_size, backup: true }),
{
    ReadHeader::Position { sector_size, backup: true }
}

/// Read a GPT header from any device capable of reading and seeking.
pub fn read_header_from_arbitrary_device(sector_size: LogicalBlockSize) -> (read: ReadHeader)
    ensures
        read@ == (ReadView::Position { sector_size, backup: false }),
{
    read_primary_header(sector_size)
}

/// What a disk holds at an offset: a header, or why there is none.
pub open spec fn header_at(bytes: Seq<u8>, offset: int) -> Result<HeaderView, HeaderError> {
    if offset + HEADER_SIZE <= bytes.len() {
        header_in(bytes.subrange(offset, offset + HEADER_SIZE))
    } else {
        Err(HeaderError::Device(0))
    }
}

/// On a disk that does what is asked of it, reading the primary header gives what lies in
/// the second block, and leaves the disk and its position as they were.
pub proof fn law_read_primary_header(sector_size: LogicalBlockSize, image: Image)
    requires
        image.valid(),
    ensures
        (ReadView::Position { sector_size, backup: false }).run(image) == (
            header_at(image.bytes, sector_size.bytes() as int),
            image,
        ),
{
    reveal_with_fuel(ReadView::run, 4);
}

/// On a disk that does what is asked of it, reading the backup header gives what lies in
/// the last whole block, and leaves the disk and its position as they were.
pub proof fn law_read_backup_header(sector_size: LogicalBlockSize, image: Image)
    requires
        image.valid(),
    ensures
        (ReadView::Position { sector_size, backup: true }).run(image) == (
            match last_block(image.bytes.len(), sector_size) {
                Ok(block) => header_at(image.bytes, block * sector_size.bytes()),
                Err(error) => Err(error),
            },
            image,
        ),
{
    reveal_with_fuel(ReadView::run, 7);
    law_last_block_is_on_disk(image.bytes.len() as u64, sector_size);
}

impl ReadView {
    /// Where the position was when the reading began, once that is known.
    pub open spec fn start(self) -> Option<u64> {
        match self {
            ReadView::Position { .. } => None,
            ReadView::Find { start, .. } => Some(start),
            ReadView::Seek { start, .. } => Some(start),
            ReadView::Read { start } => Some(start),
            ReadView::Restore { start, .. } => Some(start),
        }
    }
}

/// However the disk answers, the reading asks for nothing to be written and comes to its
/// end. It remembers where the position was when it began.
pub proof fn law_read_ends(read: ReadView, reply: ReplyView)
    requires
        read.asks().allows(reply),
    ensures
        read.asks() !is Write,
        read.next(reply) matches Step::Ask(rest) ==> {
            &&& rest.requests_left() < read.requests_left()
            &&& rest.start() == match (read.start(), reply) {
                (Some(start), _) => Some(start),
                (None, ReplyView::At(offset)) => Some(offset),
                (None, _) => Some(0u64),
            }
        },
{
}

/// However the disk answers, the last thing that the reading asks for is to move back to
/// where it began, unless it ends because no backup header could be looked for.
pub proof fn law_read_goes_back(read: ReadView, reply: ReplyView)
    requires
        read.asks().allows(reply),
        read.next(reply) is Done,
    ensures
        read matches ReadView::Find { .. } ==> read.next(reply)->Done_0 is Err,
        read !is Find ==> read.start() is Some && read.asks() == RequestView::SeekStart(
            read.start()->0,
        ),
{
}

/// A header on a disk is refused once one of its bytes has another value.
pub proof fn law_damage_is_seen(bytes: Seq<u8>, offset: int, i: int, byte: u8)
    requires
        0 <= offset,
        0 <= i < HEADER_SIZE,
        header_at(bytes, offset) is Ok,
        byte != bytes[offset + i],
    ensures
        header_at(bytes.update(offset + i, byte), offset) == Err::<HeaderView, HeaderError>(
            if i < 8 {
                HeaderError::InvalidSignature
            } else {
                HeaderError::InvalidChecksum
            },
        ),
{
    let raw = bytes.subrange(offset, offset + HEADER_SIZE);
    assert(bytes.update(offset + i, byte).subrange(offset, offset + HEADER_SIZE) =~= raw.update(
        i,
        byte,
    ));
    law_damaged_header_is_refused(raw, i, byte);
}

/// What the reading of the primary header asks for, whatever the disk answers: the position,
/// to be at the second block, 92 bytes, and to be back at the position, or at 0 where it was
/// not told. The result is what the bytes say, or the failure to read them.
pub proof fn law_primary_reading_by_steps(
    sector_size: LogicalBlockSize,
    told: ReplyView,
    moved: ReplyView,
    raw: Seq<u8>,
    failure: usize,
    moved_back: ReplyView,
)
    requires
        raw.len() == 92,
    ensures
        ({
            let block: int = match sector_size {
                LogicalBlockSize::Lb512 => 512,
                LogicalBlockSize::Lb4096 => 4096,
            };
            let start = match told {
                ReplyView::At(position) => position,
                _ => 0u64,
            };
            let tell = ReadView::Position { sector_size, backup: false };
            let seek = tell.next(told);
            let read = seek->Ask_0.next(moved);
            let good = read->Ask_0.next(ReplyView::Data(raw));
            let bad = read->Ask_0.next(ReplyView::Failed(failure));
            &&& tell.asks() == RequestView::Position
            &&& seek is Ask
            &&& seek->Ask_0.asks() matches RequestView::SeekStart(offset) && offset == block
            &&& read is Ask && read->Ask_0.asks() == RequestView::ReadExact(92)
            &&& good is Ask && good->Ask_0.asks() == RequestView::SeekStart(start)
            &&& good->Ask_0.next(moved_back) == Step::<ReadView, HeaderView>::Done(header_in(raw))
            &&& bad is Ask && bad->Ask_0.asks() == RequestView::SeekStart(start)
            &&& bad->Ask_0.next(moved_back) == Step::<ReadView, HeaderView>::Done(
                Err(HeaderError::Device(failure)),
            )
        }),
{
}

/// What the reading of the backup header asks for, whatever the disk answers: the position,
/// then, for its size, the position again, the end, and to be back. A disk of fewer than
/// three blocks has none. Else it asks to be at the last whole block, 92 bytes, and to be
/// back at the first position, or at 0 where it was not told. The result is what the bytes
/// say, or the failure to read them.
pub proof fn law_backup_reading_by_steps(
    sector_size: LogicalBlockSize,
    told: ReplyView,
    again: u64,
    len: u64,
    back: u64,
    moved: ReplyView,
    raw: Seq<u8>,
    failure: usize,
    moved_back: ReplyView,
)
    requires
        raw.len() == 92,
    ensures
        ({
            let block: int = match sector_size {
                LogicalBlockSize::Lb512 => 512,
                LogicalBlockSize::Lb4096 => 4096,
            };
            let start = match told {
                ReplyView::At(position) => position,
                _ => 0u64,
            };
            let tell = ReadView::Position { sector_size, backup: true };
            let tell_again = tell.next(told);
            let to_end = tell_again->Ask_0.next(ReplyView::At(again));
            let go_back = to_end->Ask_0.next(ReplyView::At(len));
            let seek = go_back->Ask_0.next(ReplyView::At(back));
            &&& tell.asks() == RequestView::Position
            &&& tell_again is Ask && tell_again->Ask_0.asks() == RequestView::Position
            &&& to_end is Ask && to_end->Ask_0.asks() == RequestView::SeekEnd
            &&& go_back is Ask && go_back->Ask_0.asks() == RequestView::SeekStart(again)
            &&& len < 3 * block ==> seek == Step::<ReadView, HeaderView>::Done(
                Err(HeaderError::DiskTooSmall),
            )
            &&& len >= 3 * block ==> {
                let read = seek->Ask_0.next(moved);
                let good = read->Ask_0.next(ReplyView::Data(raw));
                let bad = read->Ask_0.next(ReplyView::Failed(failure));
                &&& seek is Ask
                &&& seek->Ask_0.asks() matches RequestView::SeekStart(offset) && offset as int % block
                    == 0
                    && offset + block <= len < offset + 2 * block
                &&& read is Ask && read->Ask_0.asks() == RequestView::ReadExact(92)
                &&& good is Ask && good->Ask_0.asks() == RequestView::SeekStart(start)
                &&& good->Ask_0.next(moved_back) == Step::<ReadView, HeaderView>::Done(
                    header_in(raw),
                )
                &&& bad is Ask && bad->Ask_0.asks() == RequestView::SeekStart(start)
                &&& bad->Ask_0.next(moved_back) == Step::<ReadView, HeaderView>::Done(
                    Err(HeaderError::Device(failure)),
                )
            }
        }),
{
    law_last_block_is_on_disk(len, sector_size);
    match sector_size {
        LogicalBlockSize::Lb512 => {
            assert(sector_size.bytes() == 512);
        },
        LogicalBlockSize::Lb4096 => {
            assert(sector_size.bytes() == 4096);
        },
    }
}

/// Where the size of the disk is being found out, a failure ends the reading.
pub proof fn law_no_size_no_backup(start: u64, find: FindBackup, failure: usize)
    ensures
        (ReadView::Find { start, find }).next(ReplyView::Failed(failure)) == Step::<
            ReadView,
            HeaderView,
        >::Done(Err(HeaderError::Device(failure))),
{
}

/// The step that the reading is at is read as what it is.
pub proof fn law_reading_is_viewed(step: Step<ReadHeader, Header>)
    ensures
        step matches Step::Ask(read) ==> viewed_read(step) == Step::<ReadView, HeaderView>::Ask(
            read@,
        ),
        step matches Step::Done(Ok(header)) ==> viewed_read(step) == Step::<
            ReadView,
            HeaderView,
        >::Done(Ok(header@)),
        step matches Step::Done(Err(error)) ==> viewed_read(step) == Step::<
            ReadView,
            HeaderView,
        >::Done(Err(error)),
{
}

} // verus!
