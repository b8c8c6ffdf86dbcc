//! Disks and their blocks.
use vstd::prelude::*;

verus! {

/// The size of a logical block.
#[derive(Clone, Copy, Debug, PartialEq, Eq, Structural)]
pub enum LogicalBlockSize {
    /// 512 bytes.
    Lb512,
    /// 4096 bytes.
    Lb4096,
}

/// The block size of most disks.
pub const DEFAULT_SECTOR_SIZE: LogicalBlockSize = LogicalBlockSize::Lb512;

impl LogicalBlockSize {
    /// The number of bytes in a block.
    pub open spec fn bytes(self) -> nat {
        match self {
            LogicalBlockSize::Lb512 => 512,
            LogicalBlockSize::Lb4096 => 4096,
        }
    }

    /// The number of bytes in a block.
    pub fn as_u64(&self) -> (size: u64)
        ensures
            size == self.bytes(),
    {
        match self {
            LogicalBlockSize::Lb512 => 512,
            LogicalBlockSize::Lb4096 => 4096,
        }
    }

    /// The number of bytes in a block.
    pub fn as_usize(&self) -> (size: usize)
        ensures
            size == self.bytes(),
    {
        match self {
            LogicalBlockSize::Lb512 => 512,
            LogicalBlockSize::Lb4096 => 4096,
        }
    }
}

/// Blocks have 512 bytes or 4096, as their size is called.
pub proof fn law_block_sizes(lb_size: LogicalBlockSize)
    ensures
        lb_size is Lb512 ==> lb_size.bytes() == 512,
        lb_size is Lb4096 ==> lb_size.bytes() == 4096,
{
}

} // verus!
