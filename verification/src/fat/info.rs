//! The FAT32 File System Information sector, and the FAT-type specific
//! parts of a volume.

use crate::blockdevice::{BlockCount, BlockIdx};
use crate::bytes::{le32, read_u32_le};
use crate::filesystem::cluster::ClusterId;
use vstd::prelude::*;

verus! {

/// Identifies the supported types of FAT format.
#[derive(Debug, Clone, Copy, Eq, PartialEq, Structural)]
pub enum FatSpecificInfo {
    /// Fat16 Format
    Fat16(Fat16Info),
    /// Fat32 Format
    Fat32(Fat32Info),
}

/// FAT32 specific data.
#[derive(Debug, Clone, Copy, Eq, PartialEq, Structural)]
pub struct Fat32Info {
    /// The root directory does not have a reserved area in FAT32. This is the
    /// cluster it starts in (nominally 2).
    pub first_root_dir_cluster: ClusterId,
    /// Block idx of the info sector.
    pub info_location: BlockIdx,
}

/// FAT16 specific data.
#[derive(Debug, Clone, Copy, Eq, PartialEq, Structural)]
pub struct Fat16Info {
    /// The block the root directory starts in. Relative to start of partition.
    pub first_root_dir_block: BlockCount,
    /// Number of entries in root directory (it's reserved and not in the FAT).
    pub root_entries_count: u16,
}

/// What an info sector says, or why it is refused: its lead signature
/// (offset 0), structure signature (offset 484) and trail signature
/// (offset 508) must have their fixed values.
pub open spec fn info_sector_check(d: Seq<u8>) -> Result<(), Seq<char>> {
    if le32(d, 0) != 0x4161_5252 {
        Err("Bad lead signature on InfoSector"@)
    } else if le32(d, 484) != 0x6141_7272 {
        Err("Bad struc signature on InfoSector"@)
    } else if le32(d, 508) != 0xAA55_0000 {
        Err("Bad trail signature on InfoSector"@)
    } else {
        Ok(())
    }
}

/// The free cluster count of an info sector, unless it is 0xFFFFFFFF
/// (unknown).
pub open spec fn info_free_count(d: Seq<u8>) -> Option<u32> {
    if le32(d, 488) == 0xFFFF_FFFF {
        None
    } else {
        Some(le32(d, 488) as u32)
    }
}

/// The next free cluster of an info sector, unless it is 0xFFFFFFFF
/// (unknown) or a reserved cluster (0 or 1).
pub open spec fn info_next_free(d: Seq<u8>) -> Option<ClusterId> {
    let n = le32(d, 492);
    if n == 0xFFFF_FFFF || n == 0 || n == 1 {
        None
    } else {
        Some(ClusterId(n as u32))
    }
}

/// The File System Information structure, only present on FAT32
/// partitions. It may contain the number of free clusters and the number
/// of the next free cluster; both are advisory only.
pub struct InfoSector<'a> {
    data: &'a [u8; 512],
}

impl<'a> InfoSector<'a> {
    /// The bytes of the sector.
    pub closed spec fn bytes(&self) -> Seq<u8> {
        self.data@
    }

    /// Try and create a new Info Sector from a block.
    pub fn create_from_bytes(data: &[u8; 512]) -> (r: Result<InfoSector, &'static str>)
        ensures
            match (r, info_sector_check(data@)) {
                (Ok(i), Ok(())) => i.bytes() == data@,
                (Err(e), Err(f)) => e@ == f,
                _ => false,
            },
    {
        let info = InfoSector { data };
        if info.lead_sig() != 0x4161_5252 {
            return Err("Bad lead signature on InfoSector");
        }
        if info.struc_sig() != 0x6141_7272 {
            return Err("Bad struc signature on InfoSector");
        }
        if info.trail_sig() != 0xAA55_0000 {
            return Err("Bad trail signature on InfoSector");
        }
        Ok(info)
    }

    /// The lead signature (offset 0).
    pub fn lead_sig(&self) -> (r: u32)
        ensures
            r == le32(self.bytes(), 0),
    {
        read_u32_le(self.data, 0)
    }

    /// The structure signature (offset 484).
    pub fn struc_sig(&self) -> (r: u32)
        ensures
            r == le32(self.bytes(), 484),
    {
        read_u32_le(self.data, 484)
    }

    /// The free cluster count field (offset 488).
    pub fn free_count(&self) -> (r: u32)
        ensures
            r == le32(self.bytes(), 488),
    {
        read_u32_le(self.data, 488)
    }

    /// The next free cluster field (offset 492).
    pub fn next_free(&self) -> (r: u32)
        ensures
            r == le32(self.bytes(), 492),
    {
        read_u32_le(self.data, 492)
    }

    /// The trail signature (offset 508).
    pub fn trail_sig(&self) -> (r: u32)
        ensures
            r == le32(self.bytes(), 508),
    {
        read_u32_le(self.data, 508)
    }

    /// Return how many free clusters are left in this volume, if known.
    pub fn free_clusters_count(&self) -> (r: Option<u32>)
        ensures
            r == info_free_count(self.bytes()),
    {
        let n = self.free_count();
        if n == 0xFFFF_FFFF {
            None
        } else {
            Some(n)
        }
    }

    /// Return the number of the next free cluster, if known.
    pub fn next_free_cluster(&self) -> (r: Option<ClusterId>)
        ensures
            r == info_next_free(self.bytes()),
    {
        let n = self.next_free();
        if n == 0xFFFF_FFFF || n == 0 || n == 1 {
            None
        } else {
            Some(ClusterId(n))
        }
    }
}

} // verus!
