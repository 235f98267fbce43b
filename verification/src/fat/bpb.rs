//! Boot Parameter Block.

use crate::blockdevice::BlockCount;
use crate::bytes::{le16, le32, read_u16_le, read_u32_le};
use crate::fat::FatType;
use crate::filesystem::cluster::ClusterId;
use vstd::prelude::*;

verus! {

/// The size of the File Allocation Table in blocks: the 16-bit field, or
/// the 32-bit one when the 16-bit field is zero.
pub open spec fn bpb_fat_size(d: Seq<u8>) -> int {
    if le16(d, 22) != 0 {
        le16(d, 22)
    } else {
        le32(d, 36)
    }
}

/// The total number of blocks: the 16-bit field, or the 32-bit one when
/// the 16-bit field is zero.
pub open spec fn bpb_total_blocks(d: Seq<u8>) -> int {
    if le16(d, 19) != 0 {
        le16(d, 19)
    } else {
        le32(d, 32)
    }
}

/// Blocks taken by the fixed root directory (32 bytes per entry, rounded
/// up to whole blocks).
pub open spec fn bpb_root_dir_blocks(d: Seq<u8>) -> int {
    (le16(d, 17) * 32 + 511) / 512
}

/// Blocks before the data region: reserved blocks, the FATs, and the fixed
/// root directory.
pub open spec fn bpb_non_data_blocks(d: Seq<u8>) -> int {
    le16(d, 14) + d[16] * bpb_fat_size(d) + bpb_root_dir_blocks(d)
}

/// A block whose cluster count can be computed: it has at least one block
/// per cluster and no more non-data blocks than blocks.
pub open spec fn bpb_geometry_ok(d: Seq<u8>) -> bool {
    d[13] != 0 && bpb_non_data_blocks(d) <= bpb_total_blocks(d)
}

/// The number of clusters in the data region.
pub open spec fn bpb_cluster_count(d: Seq<u8>) -> int {
    (bpb_total_blocks(d) - bpb_non_data_blocks(d)) / (d[13] as int)
}

/// What a Boot Parameter Block says about its volume: the FAT type and the
/// cluster count, or why it is refused. A block without a cluster size, or
/// with more blocks before the data region than in all, is malformed.
/// Volumes with fewer than 4085
/// clusters are FAT12, with fewer than 65525 FAT16, and otherwise FAT32 of
/// version 0.0.
pub open spec fn bpb_parse(d: Seq<u8>) -> Result<(FatType, u32), Seq<char>> {
    if le16(d, 510) != 0xAA55 {
        Err("Bad BPB footer"@)
    } else if !bpb_geometry_ok(d) {
        Err("Bad BPB geometry"@)
    } else if bpb_cluster_count(d) < 4085 {
        Err("FAT12 is unsupported"@)
    } else if bpb_cluster_count(d) < 65525 {
        Ok((FatType::Fat16, bpb_cluster_count(d) as u32))
    } else if le16(d, 42) == 0 {
        Ok((FatType::Fat32, bpb_cluster_count(d) as u32))
    } else {
        Err("Invalid FAT format"@)
    }
}

/// The bytes `d[start..end]`.
pub open spec fn field(d: Seq<u8>, start: int, end: int) -> Seq<u8> {
    d.subrange(start, end)
}

/// Represents a Boot Parameter Block. This is the first sector of a FAT
/// formatted partition, and it describes various properties of the FAT
/// filesystem.
pub struct Bpb<'a> {
    data: &'a [u8; 512],
    /// The FAT type, decided from the cluster count.
    pub fat_type: FatType,
    cluster_count: u32,
}

impl<'a> Bpb<'a> {
    /// The value of the last two bytes of a valid block.
    pub const FOOTER_VALUE: u16 = 0xAA55;

    /// The 512 bytes of the block.
    pub closed spec fn bytes(&self) -> Seq<u8> {
        self.data@
    }

    /// The FAT type that parsing found.
    pub closed spec fn spec_fat_type(&self) -> FatType {
        self.fat_type
    }

    /// The cluster count that parsing found.
    pub closed spec fn spec_cluster_count(&self) -> u32 {
        self.cluster_count
    }

    /// Attempt to parse a Boot Parameter Block from a 512 byte sector.
    pub fn create_from_bytes(data: &[u8; 512]) -> (r: Result<Bpb, &'static str>)
        ensures
            match (r, bpb_parse(data@)) {
                (Ok(b), Ok((t, c))) => b.bytes() == data@ && b.spec_fat_type() == t
                    && b.spec_cluster_count() == c,
                (Err(e), Err(f)) => e@ == f,
                _ => false,
            },
    {
        let mut bpb = Bpb { data, fat_type: FatType::Fat16, cluster_count: 0 };
        if bpb.footer() != Self::FOOTER_VALUE {
            return Err("Bad BPB footer");
        }
        let root_dir_blocks = BlockCount::from_bytes(bpb.root_entries_count() as u32 * 32).0;
        let fat_size = bpb.fat_size();
        let total = bpb.total_blocks();
        let num_fats = bpb.num_fats() as u64;
        assert(num_fats * fat_size <= 255 * 0xFFFF_FFFF) by (nonlinear_arith)
            requires
                num_fats < 256,
                fat_size <= 0xFFFF_FFFF,
        ;
        let wide_fats: u64 = num_fats * fat_size as u64;
        if bpb.blocks_per_cluster() == 0 || bpb.reserved_block_count() as u64 + wide_fats
            + root_dir_blocks as u64 > total as u64 {
            return Err("Bad BPB geometry");
        }
        proof {
            let d = data@;
            assert(d[16] * fat_size <= total) by (nonlinear_arith)
                requires
                    le16(d, 14) + d[16] * fat_size + root_dir_blocks <= total,
                    0 <= le16(d, 14),
                    0 <= root_dir_blocks,
            ;
        }
        let non_data_blocks: u32 = bpb.reserved_block_count() as u32 + (bpb.num_fats() as u32
            * fat_size) + root_dir_blocks;
        let data_blocks: u32 = total - non_data_blocks;
        bpb.cluster_count = data_blocks / bpb.blocks_per_cluster() as u32;
        if bpb.cluster_count < 4085 {
            return Err("FAT12 is unsupported");
        } else if bpb.cluster_count < 65525 {
            bpb.fat_type = FatType::Fat16;
        } else {
            bpb.fat_type = FatType::Fat32;
        }
        match bpb.fat_type {
            FatType::Fat16 => Ok(bpb),
            FatType::Fat32 => {
                if bpb.fs_ver() == 0 {
                    Ok(bpb)
                } else {
                    Err("Invalid FAT format")
                }
            },
        }
    }

    /// Bytes per block (offset 11).
    pub fn bytes_per_block(&self) -> (r: u16)
        ensures
            r == le16(self.bytes(), 11),
    {
        read_u16_le(self.data, 11)
    }

    /// Blocks per cluster (offset 13).
    pub fn blocks_per_cluster(&self) -> (r: u8)
        ensures
            r == self.bytes()[13],
    {
        self.data[13]
    }

    /// Reserved block count (offset 14).
    pub fn reserved_block_count(&self) -> (r: u16)
        ensures
            r == le16(self.bytes(), 14),
    {
        read_u16_le(self.data, 14)
    }

    /// Number of FATs (offset 16).
    pub fn num_fats(&self) -> (r: u8)
        ensures
            r == self.bytes()[16],
    {
        self.data[16]
    }

    /// Number of root directory entries (offset 17).
    pub fn root_entries_count(&self) -> (r: u16)
        ensures
            r == le16(self.bytes(), 17),
    {
        read_u16_le(self.data, 17)
    }

    /// 16-bit total block count (offset 19).
    pub fn total_blocks16(&self) -> (r: u16)
        ensures
            r == le16(self.bytes(), 19),
    {
        read_u16_le(self.data, 19)
    }

    /// Media descriptor (offset 21).
    pub fn media(&self) -> (r: u8)
        ensures
            r == self.bytes()[21],
    {
        self.data[21]
    }

    /// 16-bit FAT size (offset 22).
    pub fn fat_size16(&self) -> (r: u16)
        ensures
            r == le16(self.bytes(), 22),
    {
        read_u16_le(self.data, 22)
    }

    /// Blocks per track (offset 24).
    pub fn blocks_per_track(&self) -> (r: u16)
        ensures
            r == le16(self.bytes(), 24),
    {
        read_u16_le(self.data, 24)
    }

    /// Number of heads (offset 26).
    pub fn num_heads(&self) -> (r: u16)
        ensures
            r == le16(self.bytes(), 26),
    {
        read_u16_le(self.data, 26)
    }

    /// Hidden blocks (offset 28).
    pub fn hidden_blocks(&self) -> (r: u32)
        ensures
            r == le32(self.bytes(), 28),
    {
        read_u32_le(self.data, 28)
    }

    /// 32-bit total block count (offset 32).
    pub fn total_blocks32(&self) -> (r: u32)
        ensures
            r == le32(self.bytes(), 32),
    {
        read_u32_le(self.data, 32)
    }

    /// The footer (offset 510), 0xAA55 on a valid block.
    pub fn footer(&self) -> (r: u16)
        ensures
            r == le16(self.bytes(), 510),
    {
        read_u16_le(self.data, 510)
    }

    /// 32-bit FAT size (offset 36, FAT32 only).
    pub fn fat_size32(&self) -> (r: u32)
        ensures
            r == le32(self.bytes(), 36),
    {
        read_u32_le(self.data, 36)
    }

    /// Filesystem version (offset 42, FAT32 only).
    pub fn fs_ver(&self) -> (r: u16)
        ensures
            r == le16(self.bytes(), 42),
    {
        read_u16_le(self.data, 42)
    }

    /// First cluster of the root directory (offset 44, FAT32 only).
    pub fn first_root_dir_cluster(&self) -> (r: u32)
        ensures
            r == le32(self.bytes(), 44),
    {
        read_u32_le(self.data, 44)
    }

    /// Block of the info sector (offset 48, FAT32 only).
    pub fn fs_info(&self) -> (r: u16)
        ensures
            r == le16(self.bytes(), 48),
    {
        read_u16_le(self.data, 48)
    }

    /// Block of the backup boot block (offset 50, FAT32 only).
    pub fn backup_boot_block(&self) -> (r: u16)
        ensures
            r == le16(self.bytes(), 50),
    {
        read_u16_le(self.data, 50)
    }

    /// Get the OEM name string for this volume.
    pub fn oem_name(&self) -> (r: &[u8])
        ensures
            r@ == field(self.bytes(), 3, 11),
    {
        vstd::slice::slice_subrange(self.data, 3, 11)
    }

    /// The drive number (offset 36 on FAT16, 64 on FAT32).
    pub fn drive_number(&self) -> (r: u8)
        ensures
            r == self.bytes()[if self.spec_fat_type() == FatType::Fat32 { 64int } else { 36int }],
    {
        if self.fat_type != FatType::Fat32 {
            self.data[36]
        } else {
            self.data[64]
        }
    }

    /// The boot signature (offset 38 on FAT16, 66 on FAT32).
    pub fn boot_signature(&self) -> (r: u8)
        ensures
            r == self.bytes()[if self.spec_fat_type() == FatType::Fat32 { 66int } else { 38int }],
    {
        if self.fat_type != FatType::Fat32 {
            self.data[38]
        } else {
            self.data[66]
        }
    }

    /// The volume ID (offset 39 on FAT16, 67 on FAT32).
    pub fn volume_id(&self) -> (r: u32)
        ensures
            r == le32(self.bytes(), if self.spec_fat_type() == FatType::Fat32 { 67int } else { 39int }),
    {
        if self.fat_type != FatType::Fat32 {
            read_u32_le(self.data, 39)
        } else {
            read_u32_le(self.data, 67)
        }
    }

    /// Get the Volume Label string for this volume.
    pub fn volume_label(&self) -> (r: &[u8])
        ensures
            r@ == if self.spec_fat_type() == FatType::Fat32 {
                field(self.bytes(), 71, 82)
            } else {
                field(self.bytes(), 43, 54)
            },
    {
        if self.fat_type != FatType::Fat32 {
            vstd::slice::slice_subrange(self.data, 43, 54)
        } else {
            vstd::slice::slice_subrange(self.data, 71, 82)
        }
    }

    /// The filesystem type string (offset 54 on FAT16, 82 on FAT32).
    pub fn fs_type(&self) -> (r: &[u8])
        ensures
            r@ == if self.spec_fat_type() == FatType::Fat32 {
                field(self.bytes(), 82, 90)
            } else {
                field(self.bytes(), 54, 62)
            },
    {
        if self.fat_type != FatType::Fat32 {
            vstd::slice::slice_subrange(self.data, 54, 62)
        } else {
            vstd::slice::slice_subrange(self.data, 82, 90)
        }
    }

    /// The active FAT (FAT32 only).
    pub fn current_fat(&self) -> (r: u8)
        ensures
            r == self.bytes()[40] % 16,
    {
        let v = self.data[40];
        assert(v & 0x0F == v % 16) by (bit_vector);
        v & 0x0F
    }

    /// Whether only the active FAT is used (FAT32 only).
    pub fn use_specific_fat(&self) -> (r: bool)
        ensures
            r == (self.bytes()[40] >= 0x80),
    {
        let v = self.data[40];
        assert((v & 0x80 != 0) == (v >= 0x80)) by (bit_vector);
        (v & 0x80) != 0x00
    }

    /// The first cluster of the root directory (FAT32 only).
    pub fn root_cluster(&self) -> (r: ClusterId)
        ensures
            r.0 == le32(self.bytes(), 44),
    {
        ClusterId(read_u32_le(self.data, 44))
    }

    /// On a FAT32 volume, the block of the Info Sector. On a FAT16 volume,
    /// returns None.
    pub fn fs_info_block(&self) -> (r: Option<BlockCount>)
        ensures
            r == if self.spec_fat_type() == FatType::Fat32 {
                Some(BlockCount(le16(self.bytes(), 48) as u32))
            } else {
                None
            },
    {
        if self.fat_type != FatType::Fat32 {
            None
        } else {
            Some(BlockCount(self.fs_info() as u32))
        }
    }

    /// Get the size of the File Allocation Table in blocks.
    pub fn fat_size(&self) -> (r: u32)
        ensures
            r == bpb_fat_size(self.bytes()),
    {
        let result = self.fat_size16() as u32;
        if result != 0 {
            result
        } else {
            self.fat_size32()
        }
    }

    /// Get the total number of blocks in this filesystem.
    pub fn total_blocks(&self) -> (r: u32)
        ensures
            r == bpb_total_blocks(self.bytes()),
    {
        let result = self.total_blocks16() as u32;
        if result != 0 {
            result
        } else {
            self.total_blocks32()
        }
    }

    /// The FAT type that parsing found.
    pub fn fat_type(&self) -> (r: FatType)
        ensures
            r == self.spec_fat_type(),
    {
        self.fat_type
    }

    /// Get the total number of clusters in this filesystem.
    pub fn total_clusters(&self) -> (r: u32)
        ensures
            r == self.spec_cluster_count(),
    {
        self.cluster_count
    }
}

} // verus!
