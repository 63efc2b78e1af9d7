//! The control commands of the block-device interface, and the plain types
//! they carry.

use vstd::prelude::*;

verus! {

/// Memory sector address.
pub type Lba = u64;

/// Sector size of a drive.
pub type SectorSize = usize;

/// Block size of a drive.
pub type BlockSize = usize;

/// Data area.
/// `0` - start of data area.
/// `1` - end of data area.
pub type DataArea = (Lba, Lba);

/// Ioctl commands.
pub enum IoctlCmd<'a> {
    /// Complete pending write process.
    CtrlSync,
    /// Get media size.
    GetSectorCount(&'a mut Lba),
    /// Get sector size.
    GetSectorSize(&'a mut SectorSize),
    /// Get erase block size.
    GetBlockSize(&'a mut BlockSize),
    /// Inform device that the data on the block of sectors is no longer used.
    CtrlTrim(&'a DataArea),
}

} // verus!
