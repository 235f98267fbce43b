//! The FAT16/FAT32 file system: its on-disk structures and the volume logic.

pub mod bpb;
pub mod dir_laws;
pub mod directory;
pub mod fat_table;
pub mod info;
pub mod ondiskdirentry;
pub mod volume;

use vstd::prelude::*;

verus! {

/// Number of entries reserved at the start of a File Allocation Table.
pub const RESERVED_ENTRIES: u32 = 2;

/// Identifies the supported types of FAT format.
#[derive(Debug, Copy, Clone, PartialEq, Eq, Structural)]
pub enum FatType {
    /// FAT16 Format
    Fat16,
    /// FAT32 Format
    Fat32,
}

} // verus!
