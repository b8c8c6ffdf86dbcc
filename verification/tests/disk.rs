use std::collections::BTreeMap;

use gpt::create::{CreateHeader, CreatePhase};
use gpt::device::{Reply, Request, Step};
use gpt::disk::{LogicalBlockSize, DEFAULT_SECTOR_SIZE};
use gpt::error::HeaderError;
use gpt::find::FindBackup;
use gpt::guid::Guid;
use gpt::header::{read_header_from_arbitrary_device, write_header, Header};
use gpt::read::{read_backup_header, read_primary_header, ReadHeader};
use gpt::table::{partentry_checksum, TableChecksum};
use gpt::write::WriteHeader;

const PRIMARY: [u8; 92] = [
    0x45, 0x46, 0x49, 0x20, 0x50, 0x41, 0x52, 0x54, 0x00, 0x00, 0x01, 0x00, 0x5c, 0x00, 0x00, 0x00,
    0x99, 0x66, 0xf0, 0x55, 0x00, 0x00, 0x00, 0x00, 0x01, 0x00, 0x00, 0x00, 0x00, 0x00, 0x00, 0x00,
    0x47, 0x00, 0x00, 0x00, 0x00, 0x00, 0x00, 0x00, 0x22, 0x00, 0x00, 0x00, 0x00, 0x00, 0x00, 0x00,
    0x26, 0x00, 0x00, 0x00, 0x00, 0x00, 0x00, 0x00, 0xfa, 0x2b, 0x6a, 0x1b, 0x2b, 0xe9, 0x4c, 0x18,
    0xa8, 0xa7, 0xed, 0x06, 0x10, 0xd5, 0x48, 0x21, 0x02, 0x00, 0x00, 0x00, 0x00, 0x00, 0x00, 0x00,
    0x80, 0x00, 0x00, 0x00, 0x80, 0x00, 0x00, 0x00, 0x1b, 0x60, 0xad, 0x5f,
];

const BACKUP: [u8; 92] = [
    0x45, 0x46, 0x49, 0x20, 0x50, 0x41, 0x52, 0x54, 0x00, 0x00, 0x01, 0x00, 0x5c, 0x00, 0x00, 0x00,
    0x1b, 0xa4, 0xdf, 0x7d, 0x00, 0x00, 0x00, 0x00, 0x47, 0x00, 0x00, 0x00, 0x00, 0x00, 0x00, 0x00,
    0x01, 0x00, 0x00, 0x00, 0x00, 0x00, 0x00, 0x00, 0x22, 0x00, 0x00, 0x00, 0x00, 0x00, 0x00, 0x00,
    0x26, 0x00, 0x00, 0x00, 0x00, 0x00, 0x00, 0x00, 0xfa, 0x2b, 0x6a, 0x1b, 0x2b, 0xe9, 0x4c, 0x18,
    0xa8, 0xa7, 0xed, 0x06, 0x10, 0xd5, 0x48, 0x21, 0x27, 0x00, 0x00, 0x00, 0x00, 0x00, 0x00, 0x00,
    0x80, 0x00, 0x00, 0x00, 0x80, 0x00, 0x00, 0x00, 0x1b, 0x60, 0xad, 0x5f,
];

/// A disk in memory. The request with the number in `fails` fails.
struct Disk {
    bytes: Vec<u8>,
    position: u64,
    served: usize,
    fails: Vec<usize>,
}

impl Disk {
    fn new(bytes: Vec<u8>) -> Disk {
        Disk { bytes, position: 0, served: 0, fails: Vec::new() }
    }

    fn serve(&mut self, request: Request<'_>) -> Reply {
        let number = self.served;
        self.served += 1;
        if self.fails.contains(&number) {
            return Reply::Failed(number);
        }
        match request {
            Request::Position => Reply::At(self.position),
            Request::SeekStart(offset) => {
                self.position = offset;
                Reply::At(offset)
            }
            Request::SeekEnd => {
                self.position = self.bytes.len() as u64;
                Reply::At(self.position)
            }
            Request::ReadExact(0) => Reply::Data(Vec::new()),
            Request::ReadExact(len) => {
                let start = self.position as usize;
                match self.bytes.get(start..start + len as usize) {
                    Some(data) => {
                        self.position += len;
                        Reply::Data(data.to_vec())
                    }
                    None => Reply::Failed(number),
                }
            }
            Request::Write(data) => {
                let start = self.position as usize;
                self.bytes[start..start + data.len()].copy_from_slice(data);
                self.position += data.len() as u64;
                Reply::Wrote(data.len())
            }
        }
    }

    fn find(&mut self, mut find: FindBackup) -> Result<u64, HeaderError> {
        loop {
            let reply = self.serve(find.request());
            match find.resume(reply) {
                Step::Ask(rest) => find = rest,
                Step::Done(result) => return result,
            }
        }
    }

    fn checksum(&mut self, mut table: TableChecksum) -> Result<u32, HeaderError> {
        loop {
            let reply = self.serve(table.request());
            match table.resume(reply) {
                Step::Ask(rest) => table = rest,
                Step::Done(result) => return result,
            }
        }
    }

    fn read(&mut self, mut read: ReadHeader) -> Result<Header, HeaderError> {
        loop {
            let reply = self.serve(read.request());
            match read.resume(reply) {
                Step::Ask(rest) => read = rest,
                Step::Done(result) => return result,
            }
        }
    }

    fn write(&mut self, mut write: WriteHeader) -> Result<usize, HeaderError> {
        loop {
            let reply = self.serve(write.request());
            match write.resume(reply) {
                Step::Ask(rest) => write = rest,
                Step::Done(result) => return result,
            }
        }
    }

    fn create(&mut self, mut create: CreateHeader) -> Result<Guid, HeaderError> {
        loop {
            let reply = self.serve(create.request());
            match create.resume(reply) {
                Step::Ask(rest) => create = rest,
                Step::Done(result) => return result,
            }
        }
    }
}

fn disk_guid() -> Guid {
    let uuid: uuid::Uuid = "1B6A2BFA-E92B-184C-A8A7-ED0610D54821".parse().unwrap();
    Guid { bytes: *uuid.as_bytes() }
}

fn expected_headers() -> (Header, Header) {
    let expected_primary = Header {
        signature: "EFI PART".to_string(),
        revision: (1, 0),
        header_size_le: 92,
        crc32: 0x55f06699,
        reserved: 0,
        current_lba: 1,
        backup_lba: 71,
        first_usable: 34,
        last_usable: 38,
        disk_guid: disk_guid(),
        part_start: 2,
        num_parts: 128,
        part_size: 128,
        crc32_parts: 0x5fad601b,
    };

    let mut expected_backup = expected_primary.clone();
    expected_backup.crc32 = 0x7ddfa41b;
    expected_backup.current_lba = 71;
    expected_backup.backup_lba = 1;
    expected_backup.part_start = 39;

    (expected_primary, expected_backup)
}

/// A disk of 72 blocks with both headers, and tables whose checksum is 0x5fad601b.
fn gpt_disk() -> Vec<u8> {
    let mut bytes = vec![0; 72 * 512];
    bytes[512..604].copy_from_slice(&PRIMARY);
    bytes[71 * 512..71 * 512 + 92].copy_from_slice(&BACKUP);
    for end in [34 * 512, 71 * 512] {
        bytes[end - 4..end].copy_from_slice(&[0xf7, 0x78, 0x8b, 0x15]);
    }
    bytes
}

#[test]
fn read_gpt_disk() {
    let lb_size = LogicalBlockSize::Lb512;

    let (expected_primary, expected_backup) = expected_headers();

    let mut disk = Disk::new(gpt_disk());
    let primary = disk.read(read_primary_header(lb_size)).unwrap();
    let backup = disk.read(read_backup_header(lb_size)).unwrap();

    assert_eq!(primary, expected_primary);
    assert_eq!(backup, expected_backup);

    let same = disk.read(read_header_from_arbitrary_device(DEFAULT_SECTOR_SIZE)).unwrap();
    assert_eq!(same, expected_primary);
}

#[test]
fn write_gpt_disk() {
    let empty_pp = BTreeMap::new();

    let lb_size = LogicalBlockSize::Lb512;

    let primary = Header::compute_new(
        true,
        &empty_pp,
        disk_guid(),
        71,
        &None,
        LogicalBlockSize::Lb512,
        Some(128),
    )
    .unwrap();

    let backup = Header::compute_new(
        false,
        &empty_pp,
        disk_guid(),
        71,
        &None,
        LogicalBlockSize::Lb512,
        Some(128),
    )
    .unwrap();

    let expected_disk = gpt_disk();
    let mut memory_disk = Disk::new(expected_disk.clone());

    let first_lba = 1;
    let backup_lba = memory_disk.find(gpt::find::find_backup_lba(lb_size)).unwrap();

    // clear out primary and backup
    for lba in [first_lba, backup_lba] {
        let start = (lba * lb_size.as_u64()) as usize;
        memory_disk.bytes[start..start + 92].copy_from_slice(&[0u8; 92]);
    }

    assert_eq!(memory_disk.write(primary.write_primary(lb_size).unwrap()), Ok(512));
    assert_eq!(memory_disk.write(backup.write_backup(lb_size).unwrap()), Ok(512));

    assert_eq!(memory_disk.bytes, expected_disk);
}

#[test]
fn rest_of_the_block_is_cleared() {
    let (primary, _) = expected_headers();
    let mut bytes = gpt_disk();
    for i in 512..1024 {
        bytes[i] = 0xff;
    }
    let mut disk = Disk::new(bytes);
    disk.write(primary.write_primary(LogicalBlockSize::Lb512).unwrap()).unwrap();
    assert_eq!(disk.bytes, gpt_disk());
}

#[test]
fn finding_the_backup_keeps_the_position() {
    let mut disk = Disk::new(gpt_disk());
    disk.position = 1234;
    assert_eq!(disk.find(gpt::find::find_backup_lba(LogicalBlockSize::Lb512)), Ok(71));
    assert_eq!(disk.position, 1234);
    for number in 0..3 {
        let mut disk = Disk::new(gpt_disk());
        disk.fails = vec![number];
        let result = disk.find(gpt::find::find_backup_lba(LogicalBlockSize::Lb512));
        assert_eq!(result, Err(HeaderError::Device(number)));
    }
}

#[test]
fn table_checksum() {
    let (primary, backup) = expected_headers();
    let lb_size = LogicalBlockSize::Lb512;
    let mut disk = Disk::new(gpt_disk());
    assert_eq!(disk.checksum(partentry_checksum(&primary, lb_size).unwrap()), Ok(0x5fad601b));
    assert_eq!(disk.checksum(partentry_checksum(&backup, lb_size).unwrap()), Ok(0x5fad601b));
    let mut far = primary.clone();
    far.part_start = u64::MAX / 512 + 1;
    assert!(matches!(partentry_checksum(&far, lb_size), Err(HeaderError::TableStartOverflow)));
    let mut short = Disk::new(vec![0; 2048]);
    let result = short.checksum(partentry_checksum(&primary, lb_size).unwrap());
    assert_eq!(result, Err(HeaderError::Device(1)));
}

#[test]
fn reading_moves_back() {
    let mut disk = Disk::new(gpt_disk());
    disk.position = 99;
    disk.read(read_primary_header(LogicalBlockSize::Lb512)).unwrap();
    assert_eq!(disk.position, 99);
    disk.read(read_backup_header(LogicalBlockSize::Lb512)).unwrap();
    assert_eq!(disk.position, 99);
    // An empty block is no header.
    disk.bytes[512..604].copy_from_slice(&[0; 92]);
    let result = disk.read(read_primary_header(LogicalBlockSize::Lb512));
    assert_eq!(result, Err(HeaderError::InvalidSignature));
    assert_eq!(disk.position, 99);
    // Neither is a disk that ends too early.
    disk.bytes.truncate(600);
    let result = disk.read(read_primary_header(LogicalBlockSize::Lb512));
    assert_eq!(result, Err(HeaderError::Device(disk.served - 2)));
    assert_eq!(disk.position, 99);
    let result = disk.read(read_backup_header(LogicalBlockSize::Lb512));
    assert_eq!(result, Err(HeaderError::DiskTooSmall));
    assert_eq!(disk.position, 99);
}

#[test]
fn reading_passes_over_failures_to_move() {
    let (primary, _) = expected_headers();
    // The position is not told, and so counts as 0.
    let mut disk = Disk::new(gpt_disk());
    disk.position = 99;
    disk.fails = vec![0];
    assert_eq!(disk.read(read_primary_header(LogicalBlockSize::Lb512)), Ok(primary.clone()));
    assert_eq!(disk.position, 0);
    // The disk cannot move, but is at the header.
    let mut disk = Disk::new(gpt_disk());
    disk.position = 512;
    disk.fails = vec![1, 3];
    assert_eq!(disk.read(read_primary_header(LogicalBlockSize::Lb512)), Ok(primary));
    assert_eq!(disk.position, 604);
    // The disk cannot read.
    let mut disk = Disk::new(gpt_disk());
    disk.fails = vec![2, 3];
    let result = disk.read(read_primary_header(LogicalBlockSize::Lb512));
    assert_eq!(result, Err(HeaderError::Device(2)));
}

#[test]
fn headers_in_the_wrong_order_are_not_written() {
    let (primary, backup) = expected_headers();
    let lb_size = LogicalBlockSize::Lb512;
    assert!(matches!(
        backup.write_primary(lb_size),
        Err(HeaderError::PrimaryNotBeforeBackup)
    ));
    assert!(matches!(primary.write_backup(lb_size), Err(HeaderError::BackupNotAfterPrimary)));
    let mut same = primary.clone();
    same.backup_lba = 1;
    assert!(matches!(same.write_primary(lb_size), Err(HeaderError::PrimaryNotBeforeBackup)));
    assert!(matches!(same.write_backup(lb_size), Err(HeaderError::BackupNotAfterPrimary)));
}

#[test]
fn blocks_out_of_reach_are_not_written() {
    let (primary, _) = expected_headers();
    let lb_size = LogicalBlockSize::Lb512;
    let mut far = primary.clone();
    far.part_start = u64::MAX;
    assert!(matches!(far.write_primary(lb_size), Err(HeaderError::TableStartOverflow)));
    let mut disk = Disk::new(gpt_disk());
    let write = primary.file_write_header(u64::MAX / 512 + 1, lb_size).unwrap();
    assert_eq!(disk.write(write), Err(HeaderError::OffsetOverflow));
    assert_eq!(disk.bytes, gpt_disk());
}

#[test]
fn failures_end_the_writing() {
    let (primary, _) = expected_headers();
    for number in 0..4 {
        let mut disk = Disk::new(gpt_disk());
        disk.bytes[512] = 0;
        disk.fails = vec![number];
        let result = disk.write(primary.write_primary(LogicalBlockSize::Lb512).unwrap());
        assert_eq!(result, Err(HeaderError::Device(number)));
        assert_eq!(disk.bytes[512], 0);
    }
}

#[test]
fn written_bytes_are_counted() {
    let (primary, _) = expected_headers();
    let block = primary.block_with(0x55f06699, 0x5fad601b, LogicalBlockSize::Lb4096);
    assert_eq!(block.len(), 4096);
    assert_eq!(&block[..92], &PRIMARY[..]);
    assert!(block[92..].iter().all(|byte| *byte == 0));
    let mut write = primary.write_primary(LogicalBlockSize::Lb512).unwrap();
    let mut disk = Disk::new(gpt_disk());
    for _ in 0..3 {
        let reply = disk.serve(write.request());
        match write.resume(reply) {
            Step::Ask(rest) => write = rest,
            Step::Done(_) => panic!("the block is still to be written"),
        }
    }
    match write.resume(Reply::Wrote(100)) {
        Step::Ask(_) => panic!("the block has been written"),
        Step::Done(result) => assert_eq!(result, Ok(100)),
    }
}

#[test]
fn created_header_is_read_back() {
    for lb_size in [LogicalBlockSize::Lb512, LogicalBlockSize::Lb4096] {
        let size = lb_size.as_usize();
        let mut disk = Disk::new(vec![0xa5; 80 * size + 17]);
        let before = disk.bytes.clone();
        assert_eq!(disk.create(write_header(Some(disk_guid()), lb_size)), Ok(disk_guid()));
        let header = disk.read(read_primary_header(lb_size)).unwrap();
        assert_eq!(header.disk_guid, disk_guid());
        assert_eq!((header.current_lba, header.backup_lba), (1, 79));
        assert_eq!((header.num_parts, header.part_size, header.part_start), (128, 128, 2));
        assert_eq!(header.first_usable as usize, 2 + 16384 / size);
        assert_eq!(header.last_usable as usize, 79 - 16384 / size - 1);
        let table = &disk.bytes[2 * size..2 * size + 16384];
        assert_eq!(header.crc32_parts, gpt::checksum::calculate_crc32(table));
        assert_eq!(&disk.bytes[..size], &before[..size]);
        assert_eq!(&disk.bytes[2 * size..], &before[2 * size..]);
    }
}

#[test]
fn random_guid_is_returned() {
    let mut disk = Disk::new(vec![0; 40960]);
    let guid = disk.create(write_header(None, LogicalBlockSize::Lb512)).unwrap();
    assert_eq!(guid.bytes[6] >> 4, 4);
    assert_eq!(disk.read(read_primary_header(LogicalBlockSize::Lb512)).unwrap().disk_guid, guid);
}

#[test]
fn nothing_is_created_on_a_small_disk() {
    let lb_size = LogicalBlockSize::Lb512;
    let mut tiny = Disk::new(vec![0; 1000]);
    let result = tiny.create(CreateHeader::new(disk_guid(), lb_size));
    assert_eq!(result, Err(HeaderError::DiskTooSmall));
    let mut small = Disk::new(vec![0; 33 * 512]);
    let result = small.create(CreateHeader::new(disk_guid(), lb_size));
    assert_eq!(result, Err(HeaderError::LastUsableUnderflow));
    assert_eq!(small.bytes, vec![0; 33 * 512]);
    let mut least = Disk::new(vec![0; 34 * 512]);
    assert_eq!(least.create(CreateHeader::new(disk_guid(), lb_size)), Ok(disk_guid()));
}

#[test]
fn creation_goes_on_with_the_last_block() {
    match CreateHeader::new(disk_guid(), LogicalBlockSize::Lb512).resume_with(71) {
        Step::Ask(create) => match create.phase {
            CreatePhase::Write { write } => {
                let (primary, _) = expected_headers();
                assert_eq!(Header { crc32: 0, crc32_parts: 0, ..primary }, write.header);
            }
            CreatePhase::Find { .. } => panic!("the last block is known"),
        },
        Step::Done(_) => panic!("the header is still to be written"),
    }
}

#[test]
fn empty_table_may_lie_behind_the_end() {
    let lb_size = LogicalBlockSize::Lb512;
    let (mut primary, _) = expected_headers();
    primary.num_parts = 0;
    primary.part_start = 100;
    primary.backup_lba = 2;
    let mut disk = Disk::new(vec![0; 3 * 512]);
    assert_eq!(disk.checksum(partentry_checksum(&primary, lb_size).unwrap()), Ok(0));
    assert_eq!(disk.write(primary.write_primary(lb_size).unwrap()), Ok(512));
    let read = disk.read(read_primary_header(lb_size)).unwrap();
    assert_eq!((read.num_parts, read.part_start, read.crc32_parts), (0, 100, 0));
}

#[test]
fn damage_to_any_byte_is_seen() {
    for i in 0..92 {
        for flip in [0x01, 0x80, 0xff] {
            let mut disk = Disk::new(gpt_disk());
            disk.bytes[512 + i] ^= flip;
            let expected = if i < 8 {
                HeaderError::InvalidSignature
            } else {
                HeaderError::InvalidChecksum
            };
            let result = disk.read(read_primary_header(LogicalBlockSize::Lb512));
            assert_eq!(result, Err(expected));
        }
    }
}

#[test]
fn damage_to_a_table_changes_its_checksum() {
    let (primary, _) = expected_headers();
    let lb_size = LogicalBlockSize::Lb512;
    for i in [1024, 5000, 34 * 512 - 1] {
        let mut disk = Disk::new(gpt_disk());
        disk.bytes[i] ^= 0x10;
        let sum = disk.checksum(partentry_checksum(&primary, lb_size).unwrap()).unwrap();
        assert_ne!(sum, 0x5fad601b);
    }
}
