//! Creating a header on a disk.
use std::collections::BTreeMap;
use vstd::prelude::*;
use vstd::utf8::encode_utf8;

use crate::checksum::crc32_iso_hdlc;
use crate::codec::law_sealed_is_read;
use crate::device::{Image, Reply, ReplyView, Request, RequestView, Step};
use crate::disk::LogicalBlockSize;
use crate::error::HeaderError;
use crate::find::{find_backup_lba, last_block, FindBackup, FindPhase};
use crate::guid::{is_random, Guid};
use crate::header::{header_in, lemma_signature, Header, HeaderView};
use crate::layout::{computed, table_blocks};
use crate::partition::{used_count, Partition};
use crate::write::{law_writing_by_steps, WriteHeader, WriteView};

verus! {

/// The creation of a header: the search for the disk's last block, then the writing of a
/// new primary header.
#[derive(Debug)]
pub struct CreateHeader {
    pub guid: Guid,
    pub sector_size: LogicalBlockSize,
    pub phase: CreatePhase,
}

/// What the creation waits for.
#[derive(Debug)]
pub enum CreatePhase {
    /// The search for the block of the backup header.
    Find { find: FindBackup },
    /// The writing of the header.
    Write { write: WriteHeader },
}

/// The creation of a header, by its contents.
pub struct CreateView {
    pub guid: Seq<u8>,
    pub sector_size: LogicalBlockSize,
    pub phase: CreatePhaseView,
}

/// What the creation waits for, by its contents.
pub enum CreatePhaseView {
    Find { find: FindBackup },
    Write { write: WriteView },
}

impl View for CreateHeader {
    type V = CreateView;

    open spec fn view(&self) -> CreateView {
        CreateView {
            guid: self.guid@,
            sector_size: self.sector_size,
            phase: match self.phase {
                CreatePhase::Find { find } => CreatePhaseView::Find { find },
                CreatePhase::Write { write } => CreatePhaseView::Write { write: write@ },
            },
        }
    }
}

impl CreateView {
    /// The creation at its beginning.
    pub open spec fn begin(guid: Seq<u8>, sector_size: LogicalBlockSize) -> CreateView {
        CreateView {
            guid,
            sector_size,
            phase: CreatePhaseView::Find {
                find: FindBackup { sector_size, phase: FindPhase::Position },
            },
        }
    }

    /// Whether the header being written can be written.
    pub open spec fn valid(self) -> bool {
        self.phase matches CreatePhaseView::Write { write } ==> write.header.fits()
    }

    /// What is asked of the disk.
    pub open spec fn asks(self) -> RequestView {
        match self.phase {
            CreatePhaseView::Find { find } => find.asks(),
            CreatePhaseView::Write { write } => write.asks(),
        }
    }

    /// How the creation goes on once the disk's last block is known.
    pub open spec fn next_with(self, backup_lba: u64) -> Step<CreateView, Seq<u8>> {
        match computed(true, 0, self.guid, backup_lba, None, self.sector_size, None) {
            Ok(header) => match header.begin_write_primary(self.sector_size) {
                Ok(write) => Step::Ask(
                    CreateView { phase: CreatePhaseView::Write { write }, ..self },
                ),
                Err(error) => Step::Done(Err(error)),
            },
            Err(error) => Step::Done(Err(error)),
        }
    }

    /// How the creation goes on with a reply. The result is the GUID of the disk.
    pub open spec fn next(self, reply: ReplyView) -> Step<CreateView, Seq<u8>> {
        match self.phase {
            CreatePhaseView::Find { find } => match find.next(reply) {
                Step::Ask(find) => Step::Ask(
                    CreateView { phase: CreatePhaseView::Find { find }, ..self },
                ),
                Step::Done(Ok(backup_lba)) => self.next_with(backup_lba),
                Step::Done(Err(error)) => Step::Done(Err(error)),
            },
            CreatePhaseView::Write { write } => match write.next(reply) {
                Step::Ask(write) => Step::Ask(
                    CreateView { phase: CreatePhaseView::Write { write }, ..self },
                ),
                Step::Done(Ok(_)) => Step::Done(Ok(self.guid)),
                Step::Done(Err(error)) => Step::Done(Err(error)),
            },
        }
    }

    /// The most requests that are still to come.
    pub open spec fn requests_left(self) -> nat {
        match self.phase {
            CreatePhaseView::Find { find } => 4 + find.requests_left(),
            CreatePhaseView::Write { write } => write.requests_left(),
        }
    }

    /// The outcome of the creation on a disk that does what is asked of it.
    pub open spec fn run(self, image: Image) -> (Result<Seq<u8>, HeaderError>, Image)
        decreases self.requests_left(),
    {
        let (reply, image) = image.serve(self.asks());
        match self.next(reply) {
            Step::Ask(rest) => rest.run(image),
            Step::Done(result) => (result, image),
        }
    }
}

/// A step of the creation, by its contents.
pub open spec fn viewed_create(step: Step<CreateHeader, Guid>) -> Step<CreateView, Seq<u8>> {
    match step {
        Step::Ask(create) => Step::Ask(create@),
        Step::Done(Ok(guid)) => Step::Done(Ok(guid@)),
        Step::Done(Err(error)) => Step::Done(Err(error)),
    }
}

impl CreateHeader {
    /// Creates a header for a disk with the given GUID.
    pub fn new(guid: Guid, sector_size: LogicalBlockSize) -> (create: CreateHeader)
        ensures
            create@ == CreateView::begin(guid@, sector_size),
            create.guid == guid,
    {
        CreateHeader {
            guid,
            sector_size,
            phase: CreatePhase::Find { find: find_backup_lba(sector_size) },
        }
    }

    /// What is asked of the disk.
    pub fn request(&self) -> (request: Request<'_>)
        ensures
            request@ == self@.asks(),
    {
        match &self.phase {
            CreatePhase::Find { find } => find.request(),
            CreatePhase::Write { write } => write.request(),
        }
    }

    /// Goes on with the disk's last block.
    pub fn resume_with(self, backup_lba: u64) -> (step: Step<CreateHeader, Guid>)
        ensures
            viewed_create(step) == self@.next_with(backup_lba),
            step matches Step::Ask(create) ==> create@.valid(),
    {
        let CreateHeader { guid, sector_size, .. } = self;
        let none: BTreeMap<u32, Partition> = BTreeMap::new();
        proof {
            assert(none@.dom().filter(|id: u32| none@[id].used()) =~= Set::empty());
            assert(used_count(none@) == 0);
            lemma_signature();
        }
        match Header::compute_new(true, &none, guid, backup_lba, &None, sector_size, None) {
            Ok(header) => match header.write_primary(sector_size) {
                Ok(write) => Step::Ask(
                    CreateHeader { guid, sector_size, phase: CreatePhase::Write { write } },
                ),
                Err(error) => Step::Done(Err(error)),
            },
            Err(error) => Step::Done(Err(error)),
        }
    }

    /// Goes on with the reply to the request.
    pub fn resume(self, reply: Reply) -> (step: Step<CreateHeader, Guid>)
        requires
            self@.asks().allows(reply@),
            self@.valid(),
        ensures
            viewed_create(step) == self@.next(reply@),
            step matches Step::Ask(create) ==> create@.valid(),
    {
        let CreateHeader { guid, sector_size, phase } = self;
        match phase {
            CreatePhase::Find { find } => match find.resume(reply) {
                Step::Ask(find) => Step::Ask(
                    CreateHeader { guid, sector_size, phase: CreatePhase::Find { find } },
                ),
                Step::Done(Ok(backup_lba)) => {
                    let create = CreateHeader {
                        guid,
                        sector_size,
                        phase: CreatePhase::Find { find },
                    };
                    create.resume_with(backup_lba)
                },
                Step::Done(Err(error)) => Step::Done(Err(error)),
            },
            CreatePhase::Write { write } => match write.resume(reply) {
                Step::Ask(write) => Step::Ask(
                    CreateHeader { guid, sector_size, phase: CreatePhase::Write { write } },
                ),
                Step::Done(Ok(_)) => Step::Done(Ok(guid)),
                Step::Done(Err(error)) => Step::Done(Err(error)),
            },
        }
    }
}

/// Creates a new primary header and writes it to a disk. If the uuid isn't given a random
/// one will be generated.
pub fn write_header(uuid: Option<Guid>, sector_size: LogicalBlockSize) -> (create: CreateHeader)
    ensures
        create@ == CreateView::begin(create.guid@, sector_size),
        match uuid {
            Some(guid) => create.guid == guid,
            None => is_random(create.guid@),
        },
{
    let guid = match uuid {
        Some(guid) => guid,
        None => Guid::new_v4(),
    };
    CreateHeader::new(guid, sector_size)
}

/// However the disk answers, the creation comes to its end.
pub proof fn law_create_ends(create: CreateView, reply: ReplyView)
    requires
        create.asks().allows(reply),
    ensures
        create.next(reply) matches Step::Ask(rest) ==> {
            &&& rest.requests_left() < create.requests_left()
            &&& rest.guid == create.guid
        },
{
}

/// The header that is made for a disk of `len` bytes, or why there is none.
proof fn lemma_new_header(guid: Seq<u8>, sector_size: LogicalBlockSize, len: u64)
    requires
        guid.len() == 16,
    ensures
        ({
            let block = sector_size.bytes() as int;
            let last = len as int / block - 1;
            let made = computed(true, 0, guid, last as u64, None, sector_size, None);
            &&& len < 3 * block ==> last_block(len as nat, sector_size) == Err::<u64, HeaderError>(
                HeaderError::DiskTooSmall,
            )
            &&& len >= 3 * block ==> last_block(len as nat, sector_size) == Ok::<u64, HeaderError>(
                last as u64,
            ) && 2 <= last <= u64::MAX
            &&& len >= 3 * block && (last - 1) * block < 16384 ==> made == Err::<
                HeaderView,
                HeaderError,
            >(HeaderError::LastUsableUnderflow)
            &&& len >= 3 * block && (last - 1) * block >= 16384 ==> {
                let header = made->Ok_0;
                &&& made is Ok
                &&& header.valid()
                &&& header.revision == (1u16, 0u16)
                &&& header.header_size_le == 92
                &&& header.disk_guid == guid
                &&& header.current_lba == 1 && header.backup_lba == last
                &&& header.part_start == 2
                &&& header.num_parts == 128 && header.part_size == 128
                &&& (header.first_usable - 2) * block == 16384
                &&& (last - 1 - header.last_usable) * block == 16384
            }
        }),
{
    match sector_size {
        LogicalBlockSize::Lb512 => {
            assert(sector_size.bytes() == 512);
            assert(table_blocks(16384, sector_size) == 32);
        },
        LogicalBlockSize::Lb4096 => {
            assert(sector_size.bytes() == 4096);
            assert(table_blocks(16384, sector_size) == 4);
        },
    }
}

/// How a new header is written.
#[verifier::spinoff_prover]
#[verifier::rlimit(40)]
proof fn lemma_creation_writes(
    guid: Seq<u8>,
    sector_size: LogicalBlockSize,
    header: HeaderView,
    at: (u64, u64),
    table: Seq<u8>,
    wrote: usize,
)
    requires
        header.valid(),
        header.current_lba == 1,
        header.backup_lba > 1,
        header.part_start == 2,
        header.num_parts == 128,
        header.part_size == 128,
        table.len() == 16384,
    ensures
        ({
            let block = sector_size.bytes() as int;
            let begun = header.begin_write_primary(sector_size);
            let seek_table = CreateView {
                guid,
                sector_size,
                phase: CreatePhaseView::Write { write: begun->Ok_0 },
            };
            let read_table = seek_table.next(ReplyView::At(at.0));
            let seek = read_table->Ask_0.next(ReplyView::Data(table));
            let write = seek->Ask_0.next(ReplyView::At(at.1));
            let data = write->Ask_0.asks()->Write_0;
            &&& begun is Ok
            &&& seek_table.asks() == RequestView::SeekStart((2 * block) as u64)
            &&& read_table is Ask && read_table->Ask_0.asks() == RequestView::ReadExact(16384)
            &&& seek is Ask && seek->Ask_0.asks() == RequestView::SeekStart(block as u64)
            &&& write is Ask && write->Ask_0.asks() is Write
            &&& data.len() == block
            &&& forall|i: int| 92 <= i < block ==> #[trigger] data[i] == 0
            &&& header_in(data.take(92)) == Ok::<HeaderView, HeaderError>(
                header.sealed(crc32_iso_hdlc(table)),
            )
            &&& write->Ask_0.next(ReplyView::Wrote(wrote)) == Step::<CreateView, Seq<u8>>::Done(
                Ok(guid),
            )
        }),
{
    let table_sum = crc32_iso_hdlc(table);
    let begun = header.begin_write_primary(sector_size);
    let seek_table = begun->Ok_0;
    let read_table = seek_table.next(ReplyView::At(at.0))->Ask_0;
    let seek = read_table.next(ReplyView::Data(table))->Ask_0;
    let write = seek.next(ReplyView::At(at.1))->Ask_0;
    let data = write.asks()->Write_0;
    let block = sector_size.bytes() as int;
    let creation = |write: WriteView| CreateView {
        guid,
        sector_size,
        phase: CreatePhaseView::Write { write },
    };
    lemma_signature();
    assert(block == 512 || block == 4096);
    assert(header.num_parts * header.part_size == 16384);
    law_writing_by_steps(header, 1, sector_size, at, table, wrote);
    assert(begun == header.begin_write(1, sector_size));
    assert(seek_table.next(ReplyView::At(at.0)) == Step::<WriteView, usize>::Ask(read_table));
    assert(read_table.next(ReplyView::Data(table)) == Step::<WriteView, usize>::Ask(seek));
    assert(seek.next(ReplyView::At(at.1)) == Step::<WriteView, usize>::Ask(write));
    assert(creation(seek_table).next(ReplyView::At(at.0)) == Step::<CreateView, Seq<u8>>::Ask(
        creation(read_table),
    ));
    assert(creation(read_table).next(ReplyView::Data(table)) == Step::<CreateView, Seq<u8>>::Ask(
        creation(seek),
    ));
    assert(creation(seek).next(ReplyView::At(at.1)) == Step::<CreateView, Seq<u8>>::Ask(
        creation(write),
    ));
    assert(header_in(data.take(92)) == Ok::<HeaderView, HeaderError>(header.sealed(table_sum))) by {
        law_sealed_is_read(header, table_sum);
    }
}

/// What the creation asks for, whatever positions the disk tells: for its size the position,
/// the end, and to be back; then to be at the third block, the 16384 bytes of a table of 128
/// entries of 128 bytes, to be at the second block, and one block to be written. A disk of
/// fewer than three blocks is refused, and one that is too small for two such tables. What
/// is written is a header with the GUID given, the disk's last block, and all blocks between
/// the tables as usable ones. The result is the GUID.
pub proof fn law_creation_by_steps(
    guid: Seq<u8>,
    sector_size: LogicalBlockSize,
    find: (u64, u64, u64),
    at: (u64, u64),
    table: Seq<u8>,
    wrote: usize,
)
    requires
        guid.len() == 16,
        table.len() == 16384,
    ensures
        ({
            let block: int = match sector_size {
                LogicalBlockSize::Lb512 => 512,
                LogicalBlockSize::Lb4096 => 4096,
            };
            let (start, len, back) = find;
            let last = len as int / block - 1;
            let tell = CreateView::begin(guid, sector_size);
            let to_end = tell.next(ReplyView::At(start));
            let go_back = to_end->Ask_0.next(ReplyView::At(len));
            let found = go_back->Ask_0.next(ReplyView::At(back));
            &&& tell.asks() == RequestView::Position
            &&& to_end is Ask && to_end->Ask_0.asks() == RequestView::SeekEnd
            &&& go_back is Ask && go_back->Ask_0.asks() == RequestView::SeekStart(start)
            &&& len < 3 * block ==> found == Step::<CreateView, Seq<u8>>::Done(
                Err(HeaderError::DiskTooSmall),
            )
            &&& len >= 3 * block && (last - 1) * block < 16384 ==> found == Step::<
                CreateView,
                Seq<u8>,
            >::Done(Err(HeaderError::LastUsableUnderflow))
            &&& len >= 3 * block && (last - 1) * block >= 16384 ==> {
                let read_table = found->Ask_0.next(ReplyView::At(at.0));
                let seek = read_table->Ask_0.next(ReplyView::Data(table));
                let write = seek->Ask_0.next(ReplyView::At(at.1));
                let data = write->Ask_0.asks()->Write_0;
                let said = header_in(data.take(92));
                let header = said->Ok_0;
                &&& found is Ask
                &&& found->Ask_0.asks() matches RequestView::SeekStart(offset) && offset == 2 * block
                &&& read_table is Ask && read_table->Ask_0.asks() == RequestView::ReadExact(16384)
                &&& seek is Ask
                &&& seek->Ask_0.asks() matches RequestView::SeekStart(offset) && offset == block
                &&& write is Ask && write->Ask_0.asks() is Write
                &&& data.len() == block
                &&& forall|i: int| 92 <= i < block ==> #[trigger] data[i] == 0
                &&& said is Ok
                &&& header.revision.0 == 1 && header.revision.1 == 0
                &&& header.header_size_le == 92 && header.reserved == 0
                &&& header.disk_guid == guid
                &&& header.current_lba == 1 && header.backup_lba == last
                &&& header.part_start == 2
                &&& header.num_parts == 128 && header.part_size == 128
                &&& (header.first_usable - 2) * block == 16384
                &&& (last - 1 - header.last_usable) * block == 16384
                &&& header.crc32_parts == crc32_iso_hdlc(table)
                &&& write->Ask_0.next(ReplyView::Wrote(wrote)) == Step::<
                    CreateView,
                    Seq<u8>,
                >::Done(Ok(guid))
            }
        }),
{
    let last = find.1 as int / sector_size.bytes() as int - 1;
    lemma_new_header(guid, sector_size, find.1);
    if find.1 >= 3 * sector_size.bytes() && (last - 1) * sector_size.bytes() >= 16384 {
        let header = computed(true, 0, guid, last as u64, None, sector_size, None)->Ok_0;
        lemma_creation_writes(guid, sector_size, header, at, table, wrote);
    }
}

/// Whenever the disk fails, the creation ends with that failure.
pub proof fn law_creation_reports_failures(create: CreateView, failure: usize)
    ensures
        create.next(ReplyView::Failed(failure)) == Step::<CreateView, Seq<u8>>::Done(
            Err(HeaderError::Device(failure)),
        ),
{
}

/// The step that the creation is at is read as what it is.
pub proof fn law_creation_is_viewed(step: Step<CreateHeader, Guid>)
    ensures
        step matches Step::Ask(create) ==> viewed_create(step) == Step::<
            CreateView,
            Seq<u8>,
        >::Ask(create@),
        step matches Step::Done(Ok(guid)) ==> viewed_create(step) == Step::<
            CreateView,
            Seq<u8>,
        >::Done(Ok(guid@)),
        step matches Step::Done(Err(error)) ==> viewed_create(step) == Step::<
            CreateView,
            Seq<u8>,
        >::Done(Err(error)),
{
}

/// A creation can go on from its beginning, and while a header is written whose signature
/// takes at most eight bytes.
pub proof fn law_creation_can_go_on(guid: Seq<u8>, sector_size: LogicalBlockSize, write: WriteView)
    ensures
        CreateView::begin(guid, sector_size).valid(),
        encode_utf8(write.header.signature).len() <= 8 <==> (CreateView {
            guid,
            sector_size,
            phase: CreatePhaseView::Write { write },
        }).valid(),
{
}

} // verus!
