//! What can go wrong with a header.
use vstd::prelude::*;

verus! {

/// Why a header could not be made, read or written.
#[derive(Clone, Copy, Debug, PartialEq, Eq, Structural)]
pub enum HeaderError {
    /// The disk has no room for two partition tables.
    LastUsableUnderflow,
    /// A primary header that does not lie before its backup.
    PrimaryNotBeforeBackup,
    /// A backup header that does not lie after its primary.
    BackupNotAfterPrimary,
    /// The header's offset on the disk does not fit in 64 bits.
    OffsetOverflow,
    /// The partition table's offset on the disk does not fit in 64 bits.
    TableStartOverflow,
    /// Too few bytes for a GUID.
    UuidTooShort,
    /// The bytes do not begin as a header does.
    InvalidSignature,
    /// The header does not have the checksum that it states.
    InvalidChecksum,
    /// The disk has no room for a backup header.
    DiskTooSmall,
    /// The device failed. The number is the one under which the failure was reported.
    Device(usize),
}

impl HeaderError {
    /// The text for this error.
    pub open spec fn text(self) -> Seq<char> {
        match self {
            HeaderError::LastUsableUnderflow => "header underflow - last usable"@,
            HeaderError::PrimaryNotBeforeBackup =>
                "primary header does not start before backup one"@,
            HeaderError::BackupNotAfterPrimary =>
                "backup header does not start after primary one"@,
            HeaderError::OffsetOverflow => "header overflow - offset"@,
            HeaderError::TableStartOverflow => "header overflow - partition table start"@,
            HeaderError::UuidTooShort => "uuid needs 16bytes"@,
            HeaderError::InvalidSignature => "invalid GPT signature"@,
            HeaderError::InvalidChecksum => "invalid CRC32 checksum"@,
            HeaderError::DiskTooSmall => "disk image too small for backup header"@,
            HeaderError::Device(_) => "device failure"@,
        }
    }

    /// The text for this error.
    pub fn message(&self) -> (text: &'static str)
        ensures
            text@ == self.text(),
    {
        match self {
            HeaderError::LastUsableUnderflow => "header underflow - last usable",
            HeaderError::PrimaryNotBeforeBackup =>
                "primary header does not start before backup one",
            HeaderError::BackupNotAfterPrimary =>
                "backup header does not start after primary one",
            HeaderError::OffsetOverflow => "header overflow - offset",
            HeaderError::TableStartOverflow => "header overflow - partition table start",
            HeaderError::UuidTooShort => "uuid needs 16bytes",
            HeaderError::InvalidSignature => "invalid GPT signature",
            HeaderError::InvalidChecksum => "invalid CRC32 checksum",
            HeaderError::DiskTooSmall => "disk image too small for backup header",
            HeaderError::Device(_) => "device failure",
        }
    }

    /// Whether the error says that the input ended too early.
    pub fn is_unexpected_eof(&self) -> (eof: bool)
        ensures
            eof == (*self == HeaderError::UuidTooShort),
    {
        matches!(self, HeaderError::UuidTooShort)
    }
}

/// Two errors have the same text only where both are failures of the device, or they are the
/// same.
pub proof fn law_texts_differ(a: HeaderError, b: HeaderError)
    ensures
        a.text() == b.text() <==> a == b || (a is Device && b is Device),
{
    reveal_strlit("header underflow - last usable");
    reveal_strlit("primary header does not start before backup one");
    reveal_strlit("backup header does not start after primary one");
    reveal_strlit("header overflow - offset");
    reveal_strlit("header overflow - partition table start");
    reveal_strlit("uuid needs 16bytes");
    reveal_strlit("invalid GPT signature");
    reveal_strlit("invalid CRC32 checksum");
    reveal_strlit("disk image too small for backup header");
    reveal_strlit("device failure");
    let (x, y) = (a.text(), b.text());
    assert(x.len() == y.len() ==> (x[0] == y[0] && x[1] == y[1] && x[8] == y[8] ==> a == b || (a
        is Device && b is Device)));
}

} // verus!
