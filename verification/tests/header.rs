use std::collections::BTreeMap;

use gpt::checksum::calculate_crc32;
use gpt::disk::LogicalBlockSize;
use gpt::error::HeaderError;
use gpt::find::backup_lba;
use gpt::guid::Guid;
use gpt::header::{check_header, file_read_header, header_checksum, parse_uuid, Header};
use gpt::partition::{count_used, Partition};
use gpt::text::decimal_text;
use simple_bytes::{Bytes, BytesRead};

const PRIMARY: [u8; 92] = [
    0x45, 0x46, 0x49, 0x20, 0x50, 0x41, 0x52, 0x54, 0x00, 0x00, 0x01, 0x00, 0x5c, 0x00, 0x00, 0x00,
    0x99, 0x66, 0xf0, 0x55, 0x00, 0x00, 0x00, 0x00, 0x01, 0x00, 0x00, 0x00, 0x00, 0x00, 0x00, 0x00,
    0x47, 0x00, 0x00, 0x00, 0x00, 0x00, 0x00, 0x00, 0x22, 0x00, 0x00, 0x00, 0x00, 0x00, 0x00, 0x00,
    0x26, 0x00, 0x00, 0x00, 0x00, 0x00, 0x00, 0x00, 0xfa, 0x2b, 0x6a, 0x1b, 0x2b, 0xe9, 0x4c, 0x18,
    0xa8, 0xa7, 0xed, 0x06, 0x10, 0xd5, 0x48, 0x21, 0x02, 0x00, 0x00, 0x00, 0x00, 0x00, 0x00, 0x00,
    0x80, 0x00, 0x00, 0x00, 0x80, 0x00, 0x00, 0x00, 0x1b, 0x60, 0xad, 0x5f,
];

fn guid(text: &str) -> Guid {
    let uuid: uuid::Uuid = text.parse().unwrap();
    Guid { bytes: *uuid.as_bytes() }
}

fn disk_guid() -> Guid {
    guid("1B6A2BFA-E92B-184C-A8A7-ED0610D54821")
}

fn expected_headers() -> (Header, Header) {
    let expected_primary = Header {
        signature: "EFI PART".to_string(),
        revision: (1, 0),
        header_size_le: 92,
        crc32: 0x55f06699,
        reserved: 0,
        current_lba: 1,
        backup_lba: 71,
        first_usable: 34,
        last_usable: 38,
        disk_guid: disk_guid(),
        part_start: 2,
        num_parts: 128,
        part_size: 128,
        crc32_parts: 0x5fad601b,
    };

    let mut expected_backup = expected_primary.clone();
    expected_backup.crc32 = 0x7ddfa41b;
    expected_backup.current_lba = 71;
    expected_backup.backup_lba = 1;
    expected_backup.part_start = 39;

    (expected_primary, expected_backup)
}

#[test]
fn create_gpt_disk() {
    let empty_pp = BTreeMap::new();

    let header_1 = Header::compute_new(
        true,
        &empty_pp,
        disk_guid(),
        71,
        &None,
        LogicalBlockSize::Lb512,
        Some(128),
    )
    .unwrap();

    let backup_header = Header::compute_new(
        false,
        &empty_pp,
        disk_guid(),
        71,
        &None,
        LogicalBlockSize::Lb512,
        Some(128),
    )
    .unwrap();

    let mut filled_pp = BTreeMap::new();
    let mut used_partition = Partition::zero();
    // The type of Linux file systems.
    used_partition.part_type_guid = guid("0FC63DAF-8483-4772-8E79-3D69D8477DE4");
    filled_pp.insert(1, used_partition.clone());
    filled_pp.insert(2, used_partition.clone());

    let header_2 = Header::compute_new(
        true,
        &filled_pp,
        disk_guid(),
        71,
        &None,
        LogicalBlockSize::Lb512,
        None,
    )
    .unwrap();

    assert_eq!(header_1, header_2);

    let (mut expected_primary, mut expected_backup) = expected_headers();

    let header_3 = Header::compute_new(
        true,
        &empty_pp,
        disk_guid(),
        71,
        &Some(expected_primary.clone()),
        LogicalBlockSize::Lb512,
        None,
    )
    .unwrap();

    assert_eq!(header_1, header_3);

    expected_primary.crc32 = 0;
    expected_primary.crc32_parts = 0;
    expected_backup.crc32 = 0;
    expected_backup.crc32_parts = 0;

    assert_eq!(expected_primary, header_1);
    assert_eq!(expected_backup, backup_header);
}

#[test]
fn layout_refuses_a_disk_without_room() {
    let none = BTreeMap::new();
    let make = |last: u64, size: LogicalBlockSize| {
        Header::compute_new(true, &none, disk_guid(), last, &None, size, None)
    };
    assert_eq!(make(32, LogicalBlockSize::Lb512), Err(HeaderError::LastUsableUnderflow));
    assert_eq!(make(33, LogicalBlockSize::Lb512).unwrap().last_usable, 0);
    assert_eq!(make(4, LogicalBlockSize::Lb4096), Err(HeaderError::LastUsableUnderflow));
    let large = make(5, LogicalBlockSize::Lb4096).unwrap();
    assert_eq!(large.first_usable, 6);
    assert_eq!(large.last_usable, 0);
}

#[test]
fn layout_takes_over_the_range_of_an_earlier_header() {
    let none = BTreeMap::new();
    let (mut earlier, _) = expected_headers();
    earlier.first_usable = 2048;
    earlier.last_usable = 4000;
    earlier.num_parts = 200;
    earlier.part_size = 256;
    let earlier = Some(earlier);
    let kept = Header::compute_new(
        false,
        &none,
        disk_guid(),
        5000,
        &earlier,
        LogicalBlockSize::Lb512,
        None,
    )
    .unwrap();
    assert_eq!((kept.first_usable, kept.last_usable), (2048, 4000));
    assert_eq!((kept.num_parts, kept.part_size, kept.part_start), (200, 256, 4001));
    assert_eq!((kept.current_lba, kept.backup_lba), (5000, 1));
    // With a number of entries of its own the range is a new one: 130 * 256 bytes take 65
    // blocks.
    let fresh = Header::compute_new(
        false,
        &none,
        disk_guid(),
        5000,
        &earlier,
        LogicalBlockSize::Lb512,
        Some(130),
    )
    .unwrap();
    assert_eq!((fresh.first_usable, fresh.last_usable, fresh.part_start), (67, 4934, 4935));
}

#[test]
fn layout_rounds_the_table_up_to_whole_blocks() {
    let none = BTreeMap::new();
    let header = Header::compute_new(
        true,
        &none,
        disk_guid(),
        100,
        &None,
        LogicalBlockSize::Lb512,
        Some(5),
    )
    .unwrap();
    assert_eq!((header.first_usable, header.last_usable), (4, 97));
}

#[test]
fn layout_has_room_for_all_partitions_in_use() {
    let mut many = BTreeMap::new();
    let mut used = Partition::zero();
    used.part_type_guid.bytes[15] = 1;
    for id in 0..300u32 {
        many.insert(id, if id % 2 == 0 { used } else { Partition::zero() });
    }
    assert_eq!(count_used(&many), 150);
    let header = Header::compute_new(
        true,
        &many,
        disk_guid(),
        1000,
        &None,
        LogicalBlockSize::Lb512,
        None,
    )
    .unwrap();
    assert_eq!(header.num_parts, 150);
    assert_eq!(header.part_size, 128);
}

#[test]
fn making_a_header_again_keeps_it() {
    let none = BTreeMap::new();
    let (primary, backup) = expected_headers();
    let again = Header::compute_new(
        false,
        &none,
        disk_guid(),
        71,
        &Some(primary),
        LogicalBlockSize::Lb4096,
        None,
    )
    .unwrap();
    assert_eq!(Header { crc32: 0, crc32_parts: 0, ..backup }, again);
}

#[test]
fn partitions_in_use() {
    assert!(!Partition::zero().is_used());
    let mut entry = Partition::zero();
    entry.part_type_guid.bytes[0] = 0x80;
    assert!(entry.is_used());
}

#[test]
fn crc_of_the_check_string() {
    assert_eq!(calculate_crc32(b"123456789"), 0xcbf43926);
    assert_eq!(calculate_crc32(b""), 0);
    assert_eq!(calculate_crc32(&[0]), 0xd202ef8d);
}

#[test]
fn header_to_bytes() {
    let (primary, backup) = expected_headers();
    assert_eq!(primary.as_bytes(Some(0x55f06699), Some(0x5fad601b)), PRIMARY);
    let unsealed = primary.as_bytes(None, Some(0x5fad601b));
    assert_eq!(&unsealed[16..20], &[0, 0, 0, 0]);
    assert_eq!(calculate_crc32(&unsealed), 0x55f06699);
    assert_eq!(calculate_crc32(&backup.as_bytes(None, Some(0x5fad601b))), 0x7ddfa41b);
    assert_eq!(&primary.as_bytes(None, None)[88..92], &[0, 0, 0, 0]);
}

#[test]
fn reserved_field_is_written_as_zero() {
    let (mut primary, _) = expected_headers();
    primary.reserved = 7;
    assert_eq!(primary.as_bytes(Some(0x55f06699), Some(0x5fad601b)), PRIMARY);
}

#[test]
fn short_signature_moves_the_fields() {
    let (mut primary, _) = expected_headers();
    primary.signature = "EFI".to_string();
    let bytes = primary.as_bytes(Some(0x55f06699), Some(0x5fad601b));
    assert_eq!(&bytes[..3], b"EFI");
    assert_eq!(&bytes[3..87], &PRIMARY[8..]);
    assert_eq!(&bytes[87..], &[0; 5]);
}

#[test]
fn header_from_bytes() {
    let (primary, _) = expected_headers();
    assert_eq!(file_read_header(&PRIMARY), Ok(primary.clone()));
    assert_eq!(header_checksum(&PRIMARY), 0x55f06699);
    assert_eq!(check_header(&PRIMARY, 0x55f06699), Ok(primary));
    assert_eq!(check_header(&PRIMARY, 0x55f06698), Err(HeaderError::InvalidChecksum));
}

#[test]
fn every_field_is_read_from_its_place() {
    let mut raw = [0u8; 92];
    for i in 8..92 {
        raw[i] = i as u8;
    }
    raw[..8].copy_from_slice(b"EFI PART");
    let header = check_header(&raw, 0x13121110).unwrap();
    assert_eq!(header.revision, (0x0b0a, 0x0908));
    assert_eq!(header.header_size_le, 0x0f0e0d0c);
    assert_eq!(header.crc32, 0x13121110);
    assert_eq!(header.reserved, 0x17161514);
    assert_eq!(header.current_lba, 0x1f1e1d1c1b1a1918);
    assert_eq!(header.backup_lba, 0x2726252423222120);
    assert_eq!(header.first_usable, 0x2f2e2d2c2b2a2928);
    assert_eq!(header.last_usable, 0x3736353433323130);
    assert_eq!(header.disk_guid, guid("3b3a3938-3d3c-3f3e-4041-424344454647"));
    assert_eq!(header.part_start, 0x4f4e4d4c4b4a4948);
    assert_eq!(header.num_parts, 0x53525150);
    assert_eq!(header.part_size, 0x57565554);
    assert_eq!(header.crc32_parts, 0x5b5a5958);
}

#[test]
fn bad_headers_are_refused() {
    let mut raw = PRIMARY;
    raw[7] = b'S';
    assert_eq!(file_read_header(&raw), Err(HeaderError::InvalidSignature));
    let mut raw = PRIMARY;
    raw[40] ^= 1;
    assert_eq!(file_read_header(&raw), Err(HeaderError::InvalidChecksum));
    let mut raw = PRIMARY;
    raw[16] ^= 1;
    assert_eq!(file_read_header(&raw), Err(HeaderError::InvalidChecksum));
    // The signature is looked at first.
    assert_eq!(file_read_header(&[0; 92]), Err(HeaderError::InvalidSignature));
}

#[test]
fn uuid_from_bytes() {
    let mut rdr = Bytes::from(&PRIMARY[56..]);
    assert_eq!(parse_uuid(&mut rdr), Ok(disk_guid()));
    assert_eq!(rdr.remaining(), &PRIMARY[72..]);
    let mut short = Bytes::from(&PRIMARY[..15]);
    assert_eq!(parse_uuid(&mut short), Err(HeaderError::UuidTooShort));
    assert_eq!(short.remaining().len(), 15);
    let mut exact = Bytes::from(&PRIMARY[56..72]);
    assert_eq!(parse_uuid(&mut exact), Ok(disk_guid()));
    assert_eq!(parse_uuid(&mut exact), Err(HeaderError::UuidTooShort));
}

#[test]
fn guid_fields() {
    let fields = disk_guid().as_fields();
    assert_eq!(
        fields,
        (0x1B6A2BFA, 0xE92B, 0x184C, [0xA8, 0xA7, 0xED, 0x06, 0x10, 0xD5, 0x48, 0x21])
    );
    assert_eq!(Guid::from_fields(fields.0, fields.1, fields.2, &fields.3), disk_guid());
}

#[test]
fn random_guids() {
    let one = Guid::new_v4();
    let two = Guid::new_v4();
    assert_ne!(one, two);
    assert_eq!(one.bytes[6] >> 4, 4);
    assert_eq!(one.bytes[8] >> 6, 2);
}

#[test]
fn header_as_text() {
    let (primary, _) = expected_headers();
    assert_eq!(disk_guid().to_text(), "1b6a2bfa-e92b-184c-a8a7-ed0610d54821");
    assert_eq!(
        primary.to_string(),
        "Disk:\t\t1b6a2bfa-e92b-184c-a8a7-ed0610d54821\nCRC32:\t\t1441818265\nTable CRC:\t1605197851"
    );
    for value in [0, 9, 10, 99, 100, 4294967295u32] {
        assert_eq!(decimal_text(value), format!("{}", value));
    }
}

#[test]
fn backup_block() {
    assert_eq!(backup_lba(72 * 512, LogicalBlockSize::Lb512), Ok(71));
    assert_eq!(backup_lba(72 * 512 + 511, LogicalBlockSize::Lb512), Ok(71));
    assert_eq!(backup_lba(3 * 512, LogicalBlockSize::Lb512), Ok(2));
    assert_eq!(backup_lba(3 * 512 - 1, LogicalBlockSize::Lb512), Err(HeaderError::DiskTooSmall));
    assert_eq!(backup_lba(3 * 512, LogicalBlockSize::Lb4096), Err(HeaderError::DiskTooSmall));
    assert_eq!(backup_lba(u64::MAX, LogicalBlockSize::Lb4096), Ok(u64::MAX / 4096 - 1));
}

#[test]
fn error_texts() {
    let texts = [
        (HeaderError::LastUsableUnderflow, "header underflow - last usable"),
        (
            HeaderError::PrimaryNotBeforeBackup,
            "primary header does not start before backup one",
        ),
        (
            HeaderError::BackupNotAfterPrimary,
            "backup header does not start after primary one",
        ),
        (HeaderError::OffsetOverflow, "header overflow - offset"),
        (HeaderError::TableStartOverflow, "header overflow - partition table start"),
        (HeaderError::UuidTooShort, "uuid needs 16bytes"),
        (HeaderError::InvalidSignature, "invalid GPT signature"),
        (HeaderError::InvalidChecksum, "invalid CRC32 checksum"),
        (HeaderError::DiskTooSmall, "disk image too small for backup header"),
    ];
    for (error, text) in texts {
        assert_eq!(error.message(), text);
        assert_eq!(error.is_unexpected_eof(), error == HeaderError::UuidTooShort);
    }
}
