//! Directory entries and open directories.

use crate::blockdevice::BlockIdx;
use crate::fat::FatType;
use crate::filesystem::attributes::Attributes;
use crate::filesystem::cluster::ClusterId;
use crate::filesystem::filename::ShortFileName;
use crate::filesystem::timestamp::{fat_bytes, Timestamp};
use vstd::prelude::*;

verus! {

/// Represents a directory entry, which tells you about other files and
/// directories.
#[derive(Debug, PartialEq, Eq, Clone, Copy)]
pub struct DirEntry {
    /// The name of the file.
    pub name: ShortFileName,
    /// When the file was last modified.
    pub mtime: Timestamp,
    /// When the file was first created.
    pub ctime: Timestamp,
    /// The file attributes (Read Only, Archive, etc).
    pub attributes: Attributes,
    /// The starting cluster of the file. The FAT tells us the following
    /// clusters.
    pub cluster: ClusterId,
    /// The size of the file in bytes.
    pub size: u32,
    /// The disk block of this entry.
    pub entry_block: BlockIdx,
    /// The offset on its block (in bytes).
    pub entry_offset: u32,
}

/// Represents an open directory on disk.
#[derive(Debug, Clone, Copy)]
pub struct Directory {
    /// The starting point of the directory listing.
    pub cluster: ClusterId,
    /// Dir Entry of this directory, None for the root directory.
    pub entry: Option<DirEntry>,
}

/// Whether a timestamp can be written: its month and day fields are below
/// 255, so that one more than each fits in a byte.
pub open spec fn timestamp_writable(t: Timestamp) -> bool {
    t.zero_indexed_month < 255 && t.zero_indexed_day < 255
}

/// The 32 bytes of an on-disk directory entry: name, attributes, two zero
/// bytes, creation time, two zero bytes, the high half of the cluster
/// number (zero on FAT16), modification time, the low half of the cluster
/// number and the size, all little-endian.
pub open spec fn entry_bytes(e: DirEntry, fat_type: FatType) -> Seq<u8> {
    let c = e.cluster.0 as int;
    let hi = if fat_type == FatType::Fat16 { 0 } else { c / 65536 };
    let lo = c % 65536;
    let s = e.size as int;
    e.name.contents@ + seq![e.attributes.0, 0u8, 0u8] + fat_bytes(e.ctime) + seq![0u8, 0u8]
        + seq![(hi % 256) as u8, (hi / 256) as u8] + fat_bytes(e.mtime) + seq![
        (lo % 256) as u8,
        (lo / 256) as u8,
        (s % 256) as u8,
        ((s / 256) % 256) as u8,
        ((s / 65536) % 256) as u8,
        (s / 16777216) as u8,
    ]
}

impl DirEntry {
    /// The on-disk form of this entry.
    pub fn serialize(&self, fat_type: FatType) -> (data: [u8; 32])
        requires
            timestamp_writable(self.ctime),
            timestamp_writable(self.mtime),
        ensures
            data@ == entry_bytes(*self, fat_type),
    {
        let mut data = [0u8; 32];
        let mut i: usize = 0;
        while i < 11
            invariant
                i <= 11,
                data@.len() == 32,
                forall|j: int| 0 <= j < i ==> data@[j] == self.name.contents@[j],
                forall|j: int| 11 <= j < 32 ==> data@[j] == 0,
            decreases 11 - i,
        {
            data[i] = self.name.contents[i];
            i = i + 1;
        }
        data[11] = self.attributes.0;
        let ct = self.ctime.serialize_to_fat();
        data[14] = ct[0];
        data[15] = ct[1];
        data[16] = ct[2];
        data[17] = ct[3];
        let cluster_number: u32 = self.cluster.0;
        if fat_type != FatType::Fat16 {
            let hi: u32 = cluster_number >> 16;
            assert(cluster_number >> 16 == cluster_number / 65536) by (bit_vector);
            data[20] = (hi & 0xFF) as u8;
            data[21] = (hi >> 8) as u8;
            assert(hi & 0xFF == hi % 256 && hi >> 8 == hi / 256) by (bit_vector);
        }
        let mt = self.mtime.serialize_to_fat();
        data[22] = mt[0];
        data[23] = mt[1];
        data[24] = mt[2];
        data[25] = mt[3];
        let lo: u32 = cluster_number & 0xFFFF;
        assert(cluster_number & 0xFFFF == cluster_number % 65536) by (bit_vector);
        data[26] = (lo & 0xFF) as u8;
        data[27] = (lo >> 8) as u8;
        assert(lo & 0xFF == lo % 256 && lo >> 8 == lo / 256) by (bit_vector);
        let size: u32 = self.size;
        data[28] = (size & 0xFF) as u8;
        data[29] = ((size >> 8) & 0xFF) as u8;
        data[30] = ((size >> 16) & 0xFF) as u8;
        data[31] = (size >> 24) as u8;
        assert(size & 0xFF == size % 256 && (size >> 8) & 0xFF == (size / 256) % 256 && (size
            >> 16) & 0xFF == (size / 65536) % 256 && size >> 24 == size / 16777216) by (bit_vector);
        assert(data@ =~= entry_bytes(*self, fat_type));
        data
    }

    /// A new entry for a file of size zero, whose modification time is its
    /// creation time.
    pub fn new(
        name: ShortFileName,
        attributes: Attributes,
        cluster: ClusterId,
        ctime: Timestamp,
        entry_block: BlockIdx,
        entry_offset: u32,
    ) -> (e: DirEntry)
        ensures
            e == (DirEntry {
                name,
                mtime: ctime,
                ctime,
                attributes,
                cluster,
                size: 0,
                entry_block,
                entry_offset,
            }),
    {
        DirEntry { name, mtime: ctime, ctime, attributes, cluster, size: 0, entry_block, entry_offset }
    }
}

} // verus!
