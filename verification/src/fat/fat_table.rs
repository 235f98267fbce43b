//! The start of a File Allocation Table, which holds the volume's dirty flag.

use crate::bytes::{le16, le32, put16, put32, read_u16_le, read_u32_le, write_u16_le, write_u32_le};
use crate::fat::FatType;
use vstd::prelude::*;

verus! {

/// The FAT16 flags word: the second entry of the table.
pub open spec fn fat16_flags(bytes: Seq<u8>) -> u16 {
    le16(bytes, 2) as u16
}

/// The FAT32 flags word: the second entry of the table.
pub open spec fn fat32_flags(bytes: Seq<u8>) -> u32 {
    le32(bytes, 4) as u32
}

/// Whether the table bytes are long enough to hold the flags word.
pub open spec fn holds_flags(fat_type: FatType, bytes: Seq<u8>) -> bool {
    match fat_type {
        FatType::Fat16 => bytes.len() >= 4,
        FatType::Fat32 => bytes.len() >= 8,
    }
}

/// The volume is dirty when the flag bit is clear.
pub open spec fn is_dirty(fat_type: FatType, bytes: Seq<u8>) -> bool {
    match fat_type {
        FatType::Fat16 => fat16_flags(bytes) & (1u16 << 15u16) == 0,
        FatType::Fat32 => fat32_flags(bytes) & (1u32 << 27u32) == 0,
    }
}

/// The table bytes with the dirty flag set to `dirty` and every other bit
/// and byte unchanged.
pub open spec fn with_dirty(fat_type: FatType, bytes: Seq<u8>, dirty: bool) -> Seq<u8> {
    match fat_type {
        FatType::Fat16 => {
            let v = fat16_flags(bytes);
            put16(bytes, 2, (if dirty { v & !(1u16 << 15u16) } else { v | (1u16 << 15u16) }) as int)
        },
        FatType::Fat32 => {
            let v = fat32_flags(bytes);
            put32(bytes, 4, (if dirty { v & !(1u32 << 27u32) } else { v | (1u32 << 27u32) }) as int)
        },
    }
}

/// Represents a single FAT table. It contains all information about which cluster is occupied
/// from a file
pub struct FatTable<'a> {
    fat_type: FatType,
    data: &'a mut [u8],
}

impl<'a> FatTable<'a> {
    const FAT16_DIRTY_BIT: u16 = 15;

    const FAT32_DIRTY_BIT: u32 = 27;

    /// The bytes of the table.
    pub closed spec fn bytes(&self) -> Seq<u8> {
        self.data@
    }

    /// The kind of FAT the table belongs to.
    pub closed spec fn kind(&self) -> FatType {
        self.fat_type
    }

    /// Attempt to parse a FAT table from a multiple sectors.
    pub fn create_from_bytes(data: &'a mut [u8], fat_type: FatType) -> (r: Result<
        Self,
        &'static str,
    >)
        ensures
            r matches Ok(t) && t.bytes() == old(data)@ && t.kind() == fat_type,
    {
        Ok(Self { data, fat_type })
    }

    /// Whether the table marks the volume as dirty (not cleanly unmounted).
    pub fn dirty(&self) -> (r: bool)
        requires
            holds_flags(self.kind(), self.bytes()),
        ensures
            r == is_dirty(self.kind(), self.bytes()),
    {
        match self.fat_type {
            FatType::Fat16 => {
                (read_u16_le(self.data, 2) & (1u16 << Self::FAT16_DIRTY_BIT)) == 0
            },
            FatType::Fat32 => {
                (read_u32_le(self.data, 4) & (1u32 << Self::FAT32_DIRTY_BIT)) == 0
            },
        }
    }

    /// Marks the volume as dirty, or as clean.
    pub fn set_dirty(&mut self, dirty: bool)
        requires
            holds_flags(old(self).kind(), old(self).bytes()),
        ensures
            final(self).kind() == old(self).kind(),
            final(self).bytes() == with_dirty(old(self).kind(), old(self).bytes(), dirty),
    {
        match self.fat_type {
            FatType::Fat16 => {
                let mut v = read_u16_le(self.data, 2);
                if dirty {
                    v = v & !(1u16 << Self::FAT16_DIRTY_BIT);
                } else {
                    v = v | (1u16 << Self::FAT16_DIRTY_BIT);
                }
                write_u16_le(self.data, 2, v);
            },
            FatType::Fat32 => {
                let mut v = read_u32_le(self.data, 4);
                if dirty {
                    v = v & !(1u32 << Self::FAT32_DIRTY_BIT);
                } else {
                    v = v | (1u32 << Self::FAT32_DIRTY_BIT);
                }
                write_u32_le(self.data, 4, v);
            },
        }
    }
}

proof fn lemma_flag_bits(v16: u16, v32: u32)
    by (bit_vector)
    ensures
        (v16 & !(1u16 << 15u16)) & (1u16 << 15u16) == 0,
        (v16 | (1u16 << 15u16)) & (1u16 << 15u16) != 0,
        (v32 & !(1u32 << 27u32)) & (1u32 << 27u32) == 0,
        (v32 | (1u32 << 27u32)) & (1u32 << 27u32) != 0,
{
}

/// Setting the dirty flag and reading it back gives what was set, and no
/// byte but those of the flags word changes.
pub proof fn lemma_dirty_reads_back(fat_type: FatType, bytes: Seq<u8>, dirty: bool)
    requires
        holds_flags(fat_type, bytes),
    ensures
        is_dirty(fat_type, with_dirty(fat_type, bytes, dirty)) == dirty,
        with_dirty(fat_type, bytes, dirty).len() == bytes.len(),
        forall|j: int|
            0 <= j < bytes.len() && !(2 <= j < 8) ==> #[trigger] with_dirty(
                fat_type,
                bytes,
                dirty,
            )[j] == bytes[j],
{
    lemma_flag_bits(fat16_flags(bytes), fat32_flags(bytes));
    match fat_type {
        FatType::Fat16 => {
            let v = fat16_flags(bytes);
            let w: u16 = if dirty { v & !(1u16 << 15u16) } else { v | (1u16 << 15u16) };
            let nb = put16(bytes, 2, w as int);
            assert(le16(nb, 2) == w);
        },
        FatType::Fat32 => {
            let v = fat32_flags(bytes);
            let w: u32 = if dirty { v & !(1u32 << 27u32) } else { v | (1u32 << 27u32) };
            let nb = put32(bytes, 4, w as int);
            assert(le32(nb, 4) == w);
        },
    }
}

} // verus!
