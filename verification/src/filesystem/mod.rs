//! Generic file system structures, applicable to the FAT16 and FAT32
//! filesystems that this crate supports.

pub mod attributes;
pub mod cluster;
pub mod directory;
pub mod filename;
pub mod files;
pub mod handles;
pub mod lfn;
pub mod search_id;
pub mod timestamp;

use vstd::prelude::*;

verus! {

/// Maximum file size supported by this library.
pub const MAX_FILE_SIZE: u32 = 0xFFFF_FFFF;

} // verus!
