//! Finding the block of the backup header.
use vstd::prelude::*;

use crate::device::{Image, Reply, ReplyView, Request, RequestView, Step};
use crate::disk::LogicalBlockSize;
use crate::error::HeaderError;

verus! {

/// The last whole block of a disk of `len` bytes. There have to be three: block 0, the
/// primary header and the backup header.
pub open spec fn last_block(len: nat, sector_size: LogicalBlockSize) -> Result<u64, HeaderError> {
    if len < 3 * sector_size.bytes() {
        Err(HeaderError::DiskTooSmall)
    } else {
        Ok(((len - sector_size.bytes()) as nat / sector_size.bytes()) as u64)
    }
}

/// The block of the backup header lies whole on the disk, behind two others, and no whole
/// block comes after it.
pub proof fn law_last_block_is_on_disk(len: u64, sector_size: LogicalBlockSize)
    ensures
        last_block(len as nat, sector_size) matches Ok(block) ==> {
            &&& block >= 2
            &&& block * sector_size.bytes() + sector_size.bytes() <= len
            &&& len < block * sector_size.bytes() + 2 * sector_size.bytes()
        },
{
    match sector_size {
        LogicalBlockSize::Lb512 => {
            assert(sector_size.bytes() == 512);
        },
        LogicalBlockSize::Lb4096 => {
            assert(sector_size.bytes() == 4096);
        },
    }
}

/// The block of the backup header on a disk of `len` bytes.
pub fn backup_lba(len: u64, sector_size: LogicalBlockSize) -> (result: Result<u64, HeaderError>)
    ensures
        result == last_block(len as nat, sector_size),
{
    let lb_size = sector_size.as_u64();
    if len < lb_size * 3 {
        return Err(HeaderError::DiskTooSmall);
    }
    let bak_offset = len.saturating_sub(lb_size);
    Ok(bak_offset / lb_size)
}

/// The search for the block of the backup header. It asks for the size of the disk and
/// moves back to where it began.
#[derive(Clone, Copy, Debug)]
pub struct FindBackup {
    pub sector_size: LogicalBlockSize,
    pub phase: FindPhase,
}

/// What the search waits for.
#[derive(Clone, Copy, Debug)]
pub enum FindPhase {
    /// The position.
    Position,
    /// The end of the disk, having begun at `start`.
    End { start: u64 },
    /// To be back at `start`, the disk having `len` bytes.
    Restore { start: u64, len: u64 },
}

impl FindBackup {
    /// What is asked of the disk.
    pub open spec fn asks(self) -> RequestView {
        match self.phase {
            FindPhase::Position => RequestView::Position,
            FindPhase::End { .. } => RequestView::SeekEnd,
            FindPhase::Restore { start, .. } => RequestView::SeekStart(start),
        }
    }

    /// How the search goes on with a reply. It ends with the first failure.
    pub open spec fn next(self, reply: ReplyView) -> Step<FindBackup, u64> {
        match reply {
            ReplyView::At(offset) => match self.phase {
                FindPhase::Position => Step::Ask(
                    FindBackup { phase: FindPhase::End { start: offset }, ..self },
                ),
                FindPhase::End { start } => Step::Ask(
                    FindBackup { phase: FindPhase::Restore { start, len: offset }, ..self },
                ),
                FindPhase::Restore { len, .. } => Step::Done(
                    last_block(len as nat, self.sector_size),
                ),
            },
            ReplyView::Failed(failure) => Step::Done(Err(HeaderError::Device(failure))),
            _ => arbitrary(),
        }
    }

    /// The most requests that are still to come.
    pub open spec fn requests_left(self) -> nat {
        match self.phase {
            FindPhase::Position => 3,
            FindPhase::End { .. } => 2,
            FindPhase::Restore { .. } => 1,
        }
    }

    /// The outcome of the search on a disk that does what is asked of it.
    pub open spec fn run(self, image: Image) -> (Result<u64, HeaderError>, Image)
        decreases self.requests_left(),
    {
        let (reply, image) = image.serve(self.asks());
        match self.next(reply) {
            Step::Ask(rest) => rest.run(image),
            Step::Done(result) => (result, image),
        }
    }

    /// What is asked of the disk.
    pub fn request(&self) -> (request: Request<'_>)
        ensures
            request@ == self.asks(),
    {
        match self.phase {
            FindPhase::Position => Request::Position,
            FindPhase::End { .. } => Request::SeekEnd,
            FindPhase::Restore { start, .. } => Request::SeekStart(start),
        }
    }

    /// Goes on with the reply to the request.
    pub fn resume(self, reply: Reply) -> (step: Step<FindBackup, u64>)
        requires
            self.asks().allows(reply@),
        ensures
            step == self.next(reply@),
    {
        match reply {
            Reply::At(offset) => match self.phase {
                FindPhase::Position => Step::Ask(
                    FindBackup {
                        sector_size: self.sector_size,
                        phase: FindPhase::End { start: offset },
                    },
                ),
                FindPhase::End { start } => Step::Ask(
                    FindBackup {
                        sector_size: self.sector_size,
                        phase: FindPhase::Restore { start, len: offset },
                    },
                ),
                FindPhase::Restore { len, .. } => Step::Done(backup_lba(len, self.sector_size)),
            },
            Reply::Failed(failure) => Step::Done(Err(HeaderError::Device(failure))),
            Reply::Data(_) | Reply::Wrote(_) => {
                assert(false);
                Step::Done(Err(HeaderError::DiskTooSmall))
            },
        }
    }
}

/// Finds the block of the backup header.
pub fn find_backup_lba(sector_size: LogicalBlockSize) -> (find: FindBackup)
    ensures
        find == (FindBackup { sector_size, phase: FindPhase::Position }),
{
    FindBackup { sector_size, phase: FindPhase::Position }
}

/// On a disk that does what is asked of it, the search gives the disk's last whole block,
/// or that the disk is too small, and leaves the disk and its position as they were.
pub proof fn law_find_backup_lba(sector_size: LogicalBlockSize, image: Image)
    requires
        image.valid(),
    ensures
        (FindBackup { sector_size, phase: FindPhase::Position }).run(image) == (
            last_block(image.bytes.len(), sector_size),
            image,
        ),
{
    reveal_with_fuel(FindBackup::run, 3);
}

/// However the disk answers, the search asks for nothing to be written and comes to its
/// end.
pub proof fn law_find_ends(find: FindBackup, reply: ReplyView)
    requires
        find.asks().allows(reply),
    ensures
        find.asks() !is Write,
        find.next(reply) matches Step::Ask(rest) ==> rest.requests_left() < find.requests_left(),
{
}

/// The search fails exactly on disks of fewer than three blocks. On every other it gives
/// the last block that lies whole on the disk.
pub proof fn law_three_blocks_are_enough(len: nat, sector_size: LogicalBlockSize)
    requires
        len <= u64::MAX,
    ensures
        ({
            let block: int = match sector_size {
                LogicalBlockSize::Lb512 => 512,
                LogicalBlockSize::Lb4096 => 4096,
            };
            &&& last_block(len, sector_size) is Err <==> len < 3 * block
            &&& last_block(len, sector_size) matches Err(error) ==> error
                == HeaderError::DiskTooSmall
            &&& last_block(len, sector_size) matches Ok(lba) ==> (lba + 1) * block <= len < (lba + 2)
                * block
        }),
{
    match sector_size {
        LogicalBlockSize::Lb512 => {
            assert(sector_size.bytes() == 512);
        },
        LogicalBlockSize::Lb4096 => {
            assert(sector_size.bytes() == 4096);
        },
    }
}

/// What the search asks for, whatever positions the disk tells: the position, the end, and
/// to be back at the position. The size of the disk is the position of its end, and decides
/// the result: an error below three blocks, else the last whole block.
pub proof fn law_search_by_steps(
    sector_size: LogicalBlockSize,
    start: u64,
    len: u64,
    back: u64,
)
    ensures
        ({
            let block: int = match sector_size {
                LogicalBlockSize::Lb512 => 512,
                LogicalBlockSize::Lb4096 => 4096,
            };
            let tell = FindBackup { sector_size, phase: FindPhase::Position };
            let to_end = tell.next(ReplyView::At(start));
            let go_back = to_end->Ask_0.next(ReplyView::At(len));
            let over = go_back->Ask_0.next(ReplyView::At(back));
            &&& tell.asks() == RequestView::Position
            &&& to_end is Ask && to_end->Ask_0.asks() == RequestView::SeekEnd
            &&& go_back is Ask && go_back->Ask_0.asks() == RequestView::SeekStart(start)
            &&& over is Done
            &&& over->Done_0 is Err <==> len < 3 * block
            &&& over->Done_0 matches Err(error) ==> error == HeaderError::DiskTooSmall
            &&& over->Done_0 matches Ok(lba) ==> (lba + 1) * block <= len < (lba + 2) * block
        }),
{
    law_three_blocks_are_enough(len as nat, sector_size);
}

/// Whenever the disk fails, the search ends with that failure.
pub proof fn law_search_reports_failures(find: FindBackup, failure: usize)
    ensures
        find.next(ReplyView::Failed(failure)) == Step::<FindBackup, u64>::Done(
            Err(HeaderError::Device(failure)),
        ),
{
}

} // verus!
