//! FAT volumes: the File Allocation Table, cluster chains and directories.

use crate::blockdevice::{Block, BlockCount, BlockDevice, BlockIdx, BLOCK_LEN, BLOCK_LEN_U32};
use crate::bytes::{le16, le32, lemma_put32_reads_back, put16, put32, read_u16_le, read_u32_le, write_u16_le, write_u32_le};
use crate::fat::bpb::{
    bpb_fat_size, bpb_parse, bpb_root_dir_blocks, field, Bpb,
};
use crate::fat::info::{
    info_free_count, info_next_free, info_sector_check, Fat16Info, Fat32Info, FatSpecificInfo,
    InfoSector,
};
use crate::fat::{FatType, RESERVED_ENTRIES};
use crate::filesystem::cluster::ClusterId;
use crate::{Error, VolumeType};
use vstd::prelude::*;

verus! {

/// The name given to a particular FAT formatted volume.
#[derive(Debug, Clone, Copy)]
pub struct VolumeName {
    /// The 11 bytes of the name.
    pub data: [u8; 11],
}

impl VolumeName {
    /// Create a new VolumeName.
    pub fn new(data: [u8; 11]) -> (v: VolumeName)
        ensures
            v.data == data,
    {
        VolumeName { data }
    }
}

/// Identifies a FAT16 or FAT32 volume on the disk.
#[derive(Debug)]
pub struct FatVolume {
    /// The block number of the start of the partition. All other BlockIdx
    /// values are relative to this.
    pub lba_start: BlockIdx,
    /// The number of blocks in this volume.
    pub num_blocks: BlockCount,
    /// The name of this volume.
    pub name: VolumeName,
    /// Number of 512 byte blocks in a cluster.
    pub blocks_per_cluster: u8,
    /// The block the data starts in. Relative to start of partition.
    pub first_data_block: BlockCount,
    /// The block the FAT starts in. Relative to start of partition.
    pub fat_start: BlockCount,
    /// Expected number of free clusters.
    pub free_clusters_count: Option<u32>,
    /// Number of the next expected free cluster.
    pub next_free_cluster: Option<ClusterId>,
    /// Total number of clusters.
    pub cluster_count: u32,
    /// Type of FAT.
    pub fat_specific_info: FatSpecificInfo,
}

/// Blocks taken by a fixed FAT16 root directory of `entries` entries.
pub open spec fn root_dir_blocks(entries: u16) -> int {
    (entries * 32 + 511) / 512
}

/// The value stored in a FAT16 entry for `new`.
pub open spec fn fat16_value(new: ClusterId) -> int {
    if new.0 == ClusterId::INVALID {
        0xFFF6
    } else if new.0 == ClusterId::BAD {
        0xFFF7
    } else if new.0 == ClusterId::EMPTY {
        0
    } else if new.0 == ClusterId::END_OF_FILE {
        0xFFFF
    } else {
        new.0 as int % 65536
    }
}

/// The low 28 bits stored in a FAT32 entry for `new`.
pub open spec fn fat32_value(new: ClusterId) -> int {
    if new.0 == ClusterId::INVALID {
        0x0FFF_FFF6
    } else if new.0 == ClusterId::BAD {
        0x0FFF_FFF7
    } else if new.0 == ClusterId::EMPTY {
        0
    } else {
        new.0 as int % 0x1000_0000
    }
}

/// The FAT16 entry that stands for `new`.
fn fat16_entry(new: ClusterId) -> (r: u16)
    ensures
        r == fat16_value(new),
{
    let n = new.0;
    if n == ClusterId::INVALID {
        0xFFF6
    } else if n == ClusterId::BAD {
        0xFFF7
    } else if n == ClusterId::EMPTY {
        0x0000
    } else if n == ClusterId::END_OF_FILE {
        0xFFFF
    } else {
        assert(n & 0xFFFF == n % 65536) by (bit_vector);
        (n & 0xFFFF) as u16
    }
}

/// The low 28 bits of the FAT32 entry that stands for `new`.
fn fat32_entry(new: ClusterId) -> (r: u32)
    ensures
        r == fat32_value(new),
{
    let n = new.0;
    if n == ClusterId::INVALID {
        0x0FFF_FFF6
    } else if n == ClusterId::BAD {
        0x0FFF_FFF7
    } else if n == ClusterId::EMPTY {
        0x0000_0000
    } else {
        assert(n & 0x0FFF_FFFF == n % 0x1000_0000) by (bit_vector);
        n & 0x0FFF_FFFF
    }
}

/// A block of zeros.
pub open spec fn zero_block() -> Seq<u8> {
    Seq::new(512, |j: int| 0u8)
}

/// The device blocks `dev` with the `count` blocks from `first` on zeroed.
pub open spec fn zeroed(dev: Seq<Seq<u8>>, first: int, count: int) -> Seq<Seq<u8>> {
    Seq::new(dev.len(), |i: int| if first <= i < first + count { zero_block() } else { dev[i] })
}

/// A count of free clusters after one more cluster was taken.
pub open spec fn one_fewer(count: Option<u32>) -> Option<u32> {
    match count {
        Some(k) => Some(if k == 0 { u32::MAX } else { (k - 1) as u32 }),
        None => None,
    }
}

/// A count of free clusters after `k` more clusters were taken.
pub open spec fn k_fewer(count: Option<u32>, k: nat) -> Option<u32>
    decreases k,
{
    if k == 0 {
        count
    } else {
        one_fewer(k_fewer(count, (k - 1) as nat))
    }
}

/// An info sector `blk` with the free-cluster hints that are known written
/// into it: the free cluster count at offset 488 and the next free cluster
/// at offset 492.
pub open spec fn info_with_hints(blk: Seq<u8>, free: Option<u32>, next: Option<ClusterId>) -> Seq<
    u8,
> {
    let b = match free {
        Some(c) => put32(blk, 488, c as int),
        None => blk,
    };
    match next {
        Some(n) => put32(b, 492, n.0 as int),
        None => b,
    }
}

/// The free-cluster hints written into an info sector read back as written
/// (a count of 0xFFFFFFFF and a cluster of 0, 1 or 0xFFFFFFFF read as
/// unknown), a hint not written reads as before, and the signatures stay.
pub proof fn lemma_info_hints_read_back(blk: Seq<u8>, free: Option<u32>, next: Option<ClusterId>)
    requires
        blk.len() == 512,
    ensures
        info_sector_check(info_with_hints(blk, free, next)) == info_sector_check(blk),
        free matches Some(c) ==> info_free_count(info_with_hints(blk, free, next)) == if c
            == 0xFFFF_FFFF {
            None
        } else {
            Some(c)
        },
        free is None ==> info_free_count(info_with_hints(blk, free, next)) == info_free_count(blk),
        next matches Some(n) ==> info_next_free(info_with_hints(blk, free, next)) == if n.0
            == 0xFFFF_FFFF || n.0 == 0 || n.0 == 1 {
            None
        } else {
            Some(n)
        },
        next is None ==> info_next_free(info_with_hints(blk, free, next)) == info_next_free(blk),
{
    let b = match free {
        Some(c) => put32(blk, 488, c as int),
        None => blk,
    };
    if let Some(c) = free {
        lemma_put32_reads_back(blk, 488, c as int);
    }
    assert(b.len() == 512);
    assert(le32(b, 0) == le32(blk, 0) && le32(b, 484) == le32(blk, 484) && le32(b, 508) == le32(
        blk,
        508,
    ) && le32(b, 492) == le32(blk, 492));
    let t = info_with_hints(blk, free, next);
    if let Some(n) = next {
        lemma_put32_reads_back(b, 492, n.0 as int);
    }
    assert(le32(t, 0) == le32(b, 0) && le32(t, 484) == le32(b, 484) && le32(t, 508) == le32(b, 508)
        && le32(t, 488) == le32(b, 488));
}

impl FatVolume {
    /// Setting a FAT entry keeps the volume on the device.
    pub proof fn lemma_on_device_set_entry(&self, dev: Seq<Seq<u8>>, c: int, new: ClusterId)
        requires
            self.wf(),
            self.on_device(dev),
            0 <= c < self.fat_limit(),
            self.fat_block(c) < dev.len(),
        ensures
            self.on_device(self.set_entry(dev, c, new)),
    {
        let b = self.fat_block(c);
        assert(dev[b].len() == 512);
        if self.entry_width() == 2 {
            assert((c * 2) % 512 == 2 * (c % 256)) by (nonlinear_arith)
                requires
                    c >= 0,
            ;
        } else {
            assert((c * 4) % 512 == 4 * (c % 128)) by (nonlinear_arith)
                requires
                    c >= 0,
            ;
        }
        assert(self.with_entry(dev[b], c, new).len() == 512);
    }
}

/// A count of free clusters after `k` more clusters were freed.
pub open spec fn more_free(count: Option<u32>, k: nat) -> Option<u32> {
    match count {
        Some(x) => Some(((x + k) % 0x1_0000_0000) as u32),
        None => None,
    }
}

/// The free-cluster hint once cluster `f` was freed: the lower of the two.
pub open spec fn lower_hint(hint: Option<ClusterId>, f: ClusterId) -> Option<ClusterId> {
    match hint {
        Some(h) => Some(if h.0 > f.0 { f } else { h }),
        None => Some(f),
    }
}

impl FatVolume {
    /// The FAT type of the volume.
    pub open spec fn kind(&self) -> FatType {
        match self.fat_specific_info {
            FatSpecificInfo::Fat16(_) => FatType::Fat16,
            FatSpecificInfo::Fat32(_) => FatType::Fat32,
        }
    }

    /// Bytes per FAT entry.
    pub open spec fn entry_width(&self) -> int {
        if self.kind() == FatType::Fat16 {
            2
        } else {
            4
        }
    }

    /// Clusters whose FAT entry lies within the FAT blocks that the
    /// volume's clusters use: the volume's clusters and the entries that
    /// share the last of those blocks.
    pub open spec fn fat_limit(&self) -> int {
        self.cluster_count + 2 + 256
    }

    /// A cluster of the volume.
    pub open spec fn valid_cluster(&self, c: ClusterId) -> bool {
        2 <= c.0 < self.cluster_count + 2
    }

    /// A cluster whose FAT entry and data blocks can be addressed.
    pub open spec fn addressable(&self, c: ClusterId) -> bool {
        2 <= c.0 < self.fat_limit()
    }

    /// The absolute block that holds the FAT entry of cluster `c`.
    pub open spec fn fat_block(&self, c: int) -> int {
        self.lba_start.0 + self.fat_start.0 + (c * self.entry_width()) / 512
    }

    /// Where in its block the FAT entry of cluster `c` starts.
    pub open spec fn fat_offset(&self, c: int) -> int {
        (c * self.entry_width()) % 512
    }

    /// The layout of the volume fits block and cluster arithmetic in 32
    /// bits, and its root directory is where it can be read.
    pub open spec fn wf(&self) -> bool {
        &&& self.blocks_per_cluster >= 1
        &&& self.cluster_count <= 0x0FFF_FF00
        &&& self.lba_start.0 + self.fat_start.0 + (self.fat_limit() * 4) / 512 + 1 <= u32::MAX
        &&& self.lba_start.0 + self.first_data_block.0 + self.fat_limit() * self.blocks_per_cluster
            <= u32::MAX
        &&& match self.fat_specific_info {
            FatSpecificInfo::Fat16(i) => self.lba_start.0 + i.first_root_dir_block.0
                + root_dir_blocks(i.root_entries_count) <= u32::MAX,
            FatSpecificInfo::Fat32(i) => self.valid_cluster(i.first_root_dir_cluster),
        }
    }

    /// The FAT entry of cluster `c` in the device blocks `dev` (its low 28
    /// bits on FAT32).
    pub open spec fn fat_entry(&self, dev: Seq<Seq<u8>>, c: int) -> int {
        let blk = dev[self.fat_block(c)];
        if self.kind() == FatType::Fat16 {
            le16(blk, self.fat_offset(c))
        } else {
            le32(blk, self.fat_offset(c)) % 0x1000_0000
        }
    }

    /// The cluster that follows, given a FAT entry, or why there is none.
    /// Entries that name no cluster of the volume are bad clusters.
    pub open spec fn next_from_entry<E>(&self, entry: int) -> Result<ClusterId, Error<E>> {
        if self.kind() == FatType::Fat16 {
            if entry == 0xFFF7 {
                Err(Error::BadCluster)
            } else if entry >= 0xFFF8 {
                Err(Error::EndOfFile)
            } else if self.valid_cluster(ClusterId(entry as u32)) {
                Ok(ClusterId(entry as u32))
            } else {
                Err(Error::BadCluster)
            }
        } else {
            if entry == 0 {
                Err(Error::UnterminatedFatChain)
            } else if entry == 0x0FFF_FFF7 {
                Err(Error::BadCluster)
            } else if entry == 1 || entry >= 0x0FFF_FFF8 {
                Err(Error::EndOfFile)
            } else if self.valid_cluster(ClusterId(entry as u32)) {
                Ok(ClusterId(entry as u32))
            } else {
                Err(Error::BadCluster)
            }
        }
    }

    /// The block `blk` holding the FAT entry of `c`, with that entry set to
    /// `new` (on FAT32 the top four bits of the entry are kept).
    pub open spec fn with_entry(&self, blk: Seq<u8>, c: int, new: ClusterId) -> Seq<u8> {
        let off = self.fat_offset(c);
        if self.kind() == FatType::Fat16 {
            put16(blk, off, fat16_value(new))
        } else {
            put32(blk, off, (le32(blk, off) / 0x1000_0000) * 0x1000_0000 + fat32_value(new))
        }
    }

    /// The device blocks after the FAT entry of `c` is set to `new`.
    pub open spec fn set_entry(&self, dev: Seq<Seq<u8>>, c: int, new: ClusterId) -> Seq<Seq<u8>> {
        dev.update(self.fat_block(c), self.with_entry(dev[self.fat_block(c)], c, new))
    }

    /// The same volume, but for its free-cluster hints.
    pub open spec fn same_layout(&self, other: &FatVolume) -> bool {
        &&& self.lba_start == other.lba_start
        &&& self.num_blocks == other.num_blocks
        &&& self.name == other.name
        &&& self.blocks_per_cluster == other.blocks_per_cluster
        &&& self.first_data_block == other.first_data_block
        &&& self.fat_start == other.fat_start
        &&& self.cluster_count == other.cluster_count
        &&& self.fat_specific_info == other.fat_specific_info
    }

    /// Where the search for a free cluster starts: the volume's hint when it
    /// names a cluster of the volume, else the first cluster.
    pub open spec fn alloc_start(&self) -> int {
        match self.next_free_cluster {
            Some(c) => if 2 <= c.0 < self.cluster_count + 2 {
                c.0 as int
            } else {
                2
            },
            None => 2,
        }
    }

    /// The device after cluster `n` was taken for a chain: its FAT entry ends
    /// the chain, and the entry of `prev`, if there is one, points to it.
    pub open spec fn linked(&self, dev: Seq<Seq<u8>>, n: ClusterId, prev: Option<ClusterId>) -> Seq<
        Seq<u8>,
    > {
        let d = self.set_entry(dev, n.0 as int, ClusterId(ClusterId::END_OF_FILE));
        match prev {
            Some(p) => self.set_entry(d, p.0 as int, n),
            None => d,
        }
    }

    /// The cluster that a FAT entry links to, if it links to one.
    pub open spec fn link(&self, entry: int) -> Option<ClusterId> {
        match self.next_from_entry::<()>(entry) {
            Ok(n) => Some(n),
            Err(_) => None,
        }
    }

    /// Whether a FAT entry marks the end of a chain.
    pub open spec fn ends_chain(&self, entry: int) -> bool {
        self.next_from_entry::<()>(entry) == Err::<ClusterId, Error<()>>(Error::EndOfFile)
    }

    /// The cluster `i` links along the chain that starts at `c` in `dev`.
    pub open spec fn chain_at(&self, dev: Seq<Seq<u8>>, c: ClusterId, i: nat) -> ClusterId
        decreases i,
    {
        if i == 0 {
            c
        } else {
            let prev = self.chain_at(dev, c, (i - 1) as nat);
            match self.link(self.fat_entry(dev, prev.0 as int)) {
                Some(n) => n,
                None => prev,
            }
        }
    }

    /// The first `n` clusters of the chain from `c` in `dev` are different
    /// clusters of the volume whose FAT entries can be read, and each links
    /// to the one after it.
    pub open spec fn chain_prefix(&self, dev: Seq<Seq<u8>>, c: ClusterId, n: nat) -> bool {
        &&& forall|i: nat|
            i < n ==> {
                &&& self.valid_cluster(#[trigger] self.chain_at(dev, c, i))
                &&& self.fat_block(self.chain_at(dev, c, i).0 as int) < dev.len()
                &&& dev[self.fat_block(self.chain_at(dev, c, i).0 as int)].len() == 512
            }
        &&& forall|i: nat|
            i + 1 < n ==> self.link(self.fat_entry(dev, #[trigger] self.chain_at(dev, c, i).0 as int))
                is Some
        &&& forall|i: nat, j: nat|
            i < j < n ==> #[trigger] self.chain_at(dev, c, i) != #[trigger] self.chain_at(dev, c, j)
    }

    /// The chain from `c` in `dev` has exactly `len` clusters, all different,
    /// and the last one ends it.
    pub open spec fn chain_ends(&self, dev: Seq<Seq<u8>>, c: ClusterId, len: nat) -> bool {
        &&& len >= 1
        &&& self.chain_prefix(dev, c, len)
        &&& self.ends_chain(self.fat_entry(dev, self.chain_at(dev, c, (len - 1) as nat).0 as int))
    }

    /// `dev` with the FAT entries of the first `n` clusters of the chain
    /// from `c` set free.
    pub open spec fn free_prefix(&self, dev: Seq<Seq<u8>>, c: ClusterId, n: nat) -> Seq<Seq<u8>>
        decreases n,
    {
        if n == 0 {
            dev
        } else {
            self.set_entry(
                self.free_prefix(dev, c, (n - 1) as nat),
                self.chain_at(dev, c, (n - 1) as nat).0 as int,
                ClusterId(ClusterId::EMPTY),
            )
        }
    }

    /// After cluster `c` was marked as the end of its chain, the chain that
    /// followed it has exactly `len` clusters.
    pub open spec fn truncated_chain_ends(&self, dev: Seq<Seq<u8>>, c: int, len: nat) -> bool {
        self.chain_ends(
            self.set_entry(dev, c, ClusterId(ClusterId::END_OF_FILE)),
            self.link(self.fat_entry(dev, c))->0,
            len,
        )
    }

    /// `dev` once cluster `c` was marked as the end of its chain and the
    /// `len` clusters that followed it were freed.
    pub open spec fn truncated(&self, dev: Seq<Seq<u8>>, c: int, len: nat) -> Seq<Seq<u8>> {
        self.free_prefix(
            self.set_entry(dev, c, ClusterId(ClusterId::END_OF_FILE)),
            self.link(self.fat_entry(dev, c))->0,
            len,
        )
    }

    /// What the FAT entry of a cluster reads as once it was set to `new`.
    pub open spec fn written_entry(&self, new: ClusterId) -> int {
        if self.kind() == FatType::Fat16 {
            fat16_value(new)
        } else {
            fat32_value(new)
        }
    }

    /// The absolute first block of a cluster (`ROOT_DIR` is the FAT16 root
    /// directory region, or the FAT32 root directory cluster).
    pub open spec fn cluster_block(&self, c: ClusterId) -> int {
        match self.fat_specific_info {
            FatSpecificInfo::Fat16(i) => if c.0 == ClusterId::ROOT_DIR {
                self.lba_start.0 + i.first_root_dir_block.0
            } else {
                self.lba_start.0 + self.first_data_block.0 + (c.0 - 2) * self.blocks_per_cluster
            },
            FatSpecificInfo::Fat32(i) => {
                let n = if c.0 == ClusterId::ROOT_DIR {
                    i.first_root_dir_cluster.0
                } else {
                    c.0
                };
                self.lba_start.0 + self.first_data_block.0 + (n - 2) * self.blocks_per_cluster
            },
        }
    }

    /// The device after the volume's free-cluster hints were written to its
    /// info sector (FAT32 volumes only, and only when a hint is known).
    pub open spec fn with_info_hints(&self, dev: Seq<Seq<u8>>) -> Seq<Seq<u8>> {
        match self.fat_specific_info {
            FatSpecificInfo::Fat32(i) => if self.free_clusters_count is None
                && self.next_free_cluster is None {
                dev
            } else {
                dev.update(
                    i.info_location.0 as int,
                    info_with_hints(
                        dev[i.info_location.0 as int],
                        self.free_clusters_count,
                        self.next_free_cluster,
                    ),
                )
            },
            FatSpecificInfo::Fat16(_) => dev,
        }
    }

    /// Writes the free-cluster hints of the volume to its info sector.
    pub fn update_info_sector<D: BlockDevice>(&mut self, block_device: &mut D) -> (r: Result<
        (),
        Error<D::Error>,
    >)
        ensures
            *final(self) == *old(self),
            r is Ok ==> final(block_device).blocks() == old(self).with_info_hints(
                old(block_device).blocks(),
            ),
            r matches Err(e) ==> e is DeviceError,
            (old(self).kind() == FatType::Fat16 || (old(self).free_clusters_count is None
                && old(self).next_free_cluster is None)) ==> r is Ok && *final(block_device) == *old(
                block_device,
            ),
            old(block_device).reads_ok() && old(block_device).writes_ok() && (match old(
                self,
            ).fat_specific_info {
                FatSpecificInfo::Fat32(i) => i.info_location.0 < old(block_device).blocks().len(),
                _ => true,
            }) ==> r is Ok,
            r is Ok ==> match old(self).fat_specific_info {
                FatSpecificInfo::Fat32(i) => {
                    let l = i.info_location.0 as int;
                    let before = old(block_device).blocks()[l];
                    let after = final(block_device).blocks()[l];
                    (old(self).free_clusters_count is Some || old(self).next_free_cluster is Some)
                        ==> {
                        &&& info_sector_check(after) == info_sector_check(before)
                        &&& old(self).free_clusters_count matches Some(c) ==> info_free_count(after)
                            == if c == 0xFFFF_FFFF {
                            None
                        } else {
                            Some(c)
                        }
                        &&& old(self).next_free_cluster matches Some(n) ==> info_next_free(after)
                            == if n.0 == 0xFFFF_FFFF || n.0 == 0 || n.0 == 1 {
                            None
                        } else {
                            Some(n)
                        }
                    }
                },
                _ => true,
            },
    {
        match &self.fat_specific_info {
            FatSpecificInfo::Fat16(_) => {},
            FatSpecificInfo::Fat32(fat32_info) => {
                if self.free_clusters_count.is_none() && self.next_free_cluster.is_none() {
                    return Ok(());
                }
                let mut blocks = [Block::new()];
                match block_device.read(&mut blocks, fat32_info.info_location) {
                    Ok(()) => {},
                    Err(e) => return Err(Error::DeviceError(e)),
                }
                let ghost dev = block_device.blocks();
                let ghost blk = blocks@[0].contents@;
                let mut contents = blocks[0].contents;
                if let Some(count) = self.free_clusters_count {
                    write_u32_le(&mut contents, 488, count);
                }
                if let Some(next_free_cluster) = self.next_free_cluster {
                    write_u32_le(&mut contents, 492, next_free_cluster.0);
                }
                assert(contents@ == info_with_hints(
                    blk,
                    self.free_clusters_count,
                    self.next_free_cluster,
                ));
                let out = [Block { contents }];
                match block_device.write(&out, fat32_info.info_location) {
                    Ok(()) => {},
                    Err(e) => return Err(Error::DeviceError(e)),
                }
                assert(block_device.blocks() =~= self.with_info_hints(dev));
                proof {
                    lemma_info_hints_read_back(blk, self.free_clusters_count, self.next_free_cluster);
                }
            },
        }
        Ok(())
    }

    /// Whether the volume's layout fits the 32-bit block and cluster
    /// arithmetic of this crate (`wf`).
    pub fn fits(&self) -> (r: bool)
        ensures
            r == self.wf(),
    {
        let lba = self.lba_start.0 as u64;
        let limit: u64 = self.cluster_count as u64 + 2 + 256;
        let max: u64 = 0xFFFF_FFFF;
        if self.blocks_per_cluster < 1 || self.cluster_count > 0x0FFF_FF00 {
            return false;
        }
        if lba + self.fat_start.0 as u64 + (limit * 4) / 512 + 1 > max {
            return false;
        }
        assert(limit * self.blocks_per_cluster <= 0x1000_1000 * 256) by (nonlinear_arith)
            requires
                limit <= 0x1000_1000,
                self.blocks_per_cluster < 256,
        ;
        if lba + self.first_data_block.0 as u64 + limit * self.blocks_per_cluster as u64 > max {
            return false;
        }
        match &self.fat_specific_info {
            FatSpecificInfo::Fat16(i) => {
                let blocks: u64 = (i.root_entries_count as u64 * 32 + 511) / 512;
                lba + i.first_root_dir_block.0 as u64 + blocks <= max
            },
            FatSpecificInfo::Fat32(i) => {
                2 <= i.first_root_dir_cluster.0 && (i.first_root_dir_cluster.0 as u64)
                    < self.cluster_count as u64 + 2
            },
        }
    }

    /// Get the type of FAT this volume is.
    pub fn get_fat_type(&self) -> (r: FatType)
        ensures
            r == self.kind(),
    {
        match &self.fat_specific_info {
            FatSpecificInfo::Fat16(_) => FatType::Fat16,
            FatSpecificInfo::Fat32(_) => FatType::Fat32,
        }
    }

    /// Number of bytes in a cluster.
    pub fn bytes_per_cluster(&self) -> (r: u32)
        ensures
            r == self.blocks_per_cluster * 512,
    {
        self.blocks_per_cluster as u32 * BLOCK_LEN_U32
    }

    /// Converts a cluster number to the absolute block number of its first
    /// block.
    pub fn cluster_to_block(&self, cluster: ClusterId) -> (r: BlockIdx)
        requires
            self.wf(),
            cluster.0 == ClusterId::ROOT_DIR || self.addressable(cluster),
        ensures
            r.0 == self.cluster_block(cluster),
    {
        let bpc = self.blocks_per_cluster as u32;
        match &self.fat_specific_info {
            FatSpecificInfo::Fat16(fat16_info) => {
                if cluster.0 == ClusterId::ROOT_DIR {
                    self.lba_start.plus(fat16_info.first_root_dir_block)
                } else {
                    assert((cluster.0 - 2) * bpc <= self.fat_limit() * bpc) by (nonlinear_arith)
                        requires
                            2 <= cluster.0 < self.fat_limit(),
                    ;
                    let first_block_of_cluster = BlockCount((cluster.0 - 2) * bpc);
                    self.lba_start.plus(self.first_data_block.plus(first_block_of_cluster))
                }
            },
            FatSpecificInfo::Fat32(fat32_info) => {
                let cluster_num = if cluster.0 == ClusterId::ROOT_DIR {
                    fat32_info.first_root_dir_cluster.0
                } else {
                    cluster.0
                };
                assert((cluster_num - 2) * bpc <= self.fat_limit() * bpc) by (nonlinear_arith)
                    requires
                        2 <= cluster_num < self.fat_limit(),
                ;
                let first_block_of_cluster = BlockCount((cluster_num - 2) * bpc);
                self.lba_start.plus(self.first_data_block).plus(first_block_of_cluster)
            },
        }
    }

    /// The absolute block holding the FAT entry of `cluster`, and the
    /// entry's offset in it.
    fn fat_position(&self, cluster: ClusterId) -> (r: (BlockIdx, usize))
        requires
            self.wf(),
            cluster.0 < self.fat_limit(),
        ensures
            r.0.0 == self.fat_block(cluster.0 as int),
            r.1 == self.fat_offset(cluster.0 as int),
            r.1 + self.entry_width() <= 512,
    {
        let width: u32 = match &self.fat_specific_info {
            FatSpecificInfo::Fat16(_) => 2,
            FatSpecificInfo::Fat32(_) => 4,
        };
        let c = cluster.0;
        assert(c * width <= self.fat_limit() * 4) by (nonlinear_arith)
            requires
                c < self.fat_limit(),
                width <= 4,
        ;
        let fat_offset: u32 = c * width;
        assert(fat_offset / 512 <= (self.fat_limit() * 4) / 512) by (nonlinear_arith)
            requires
                fat_offset <= self.fat_limit() * 4,
        ;
        let block = self.lba_start.plus(self.fat_start.offset_bytes(fat_offset));
        let off: usize = (fat_offset % BLOCK_LEN_U32) as usize;
        proof {
            let x = c as int;
            let w = width as int;
            if w == 2 {
                assert((x * 2) % 512 == 2 * (x % 256)) by (nonlinear_arith)
                    requires
                        x >= 0,
                ;
            } else {
                assert((x * 4) % 512 == 4 * (x % 128)) by (nonlinear_arith)
                    requires
                        x >= 0,
                ;
            }
        }
        (block, off)
    }

    /// Look in the FAT to see which cluster comes after `cluster`.
    pub fn next_cluster<D: BlockDevice>(&self, block_device: &D, cluster: ClusterId) -> (r: Result<
        ClusterId,
        Error<D::Error>,
    >)
        requires
            self.wf(),
            cluster.0 < self.fat_limit(),
        ensures
            block_device.reads_ok() && self.fat_block(cluster.0 as int) < block_device.blocks().len()
                ==> !(r matches Err(Error::DeviceError(_))),
            r matches Err(Error::DeviceError(_)) || (self.fat_block(cluster.0 as int)
                < block_device.blocks().len() && block_device.blocks()[self.fat_block(
                cluster.0 as int,
            )].len() == 512 && r == self.next_from_entry::<D::Error>(
                self.fat_entry(block_device.blocks(), cluster.0 as int),
            )),
    {
        let (block, off) = self.fat_position(cluster);
        let mut blocks = [Block::new()];
        match block_device.read(&mut blocks, block) {
            Ok(()) => {},
            Err(e) => return Err(Error::DeviceError(e)),
        }
        assert(blocks@[0].contents@ == block_device.blocks()[block.0 as int]);
        match &self.fat_specific_info {
            FatSpecificInfo::Fat16(_) => {
                let fat_entry = read_u16_le(&blocks[0].contents, off);
                if fat_entry == 0xFFF7 {
                    Err(Error::BadCluster)
                } else if fat_entry >= 0xFFF8 {
                    Err(Error::EndOfFile)
                } else if 2 <= fat_entry as u32 && (fat_entry as u32) < self.cluster_count + 2 {
                    Ok(ClusterId(fat_entry as u32))
                } else {
                    Err(Error::BadCluster)
                }
            },
            FatSpecificInfo::Fat32(_) => {
                let raw = read_u32_le(&blocks[0].contents, off);
                let fat_entry = raw & 0x0FFF_FFFF;
                assert(raw & 0x0FFF_FFFF == raw % 0x1000_0000) by (bit_vector);
                if fat_entry == 0 {
                    Err(Error::UnterminatedFatChain)
                } else if fat_entry == 0x0FFF_FFF7 {
                    Err(Error::BadCluster)
                } else if fat_entry == 1 || fat_entry >= 0x0FFF_FFF8 {
                    Err(Error::EndOfFile)
                } else if 2 <= fat_entry && fat_entry < self.cluster_count + 2 {
                    Ok(ClusterId(fat_entry))
                } else {
                    Err(Error::BadCluster)
                }
            },
        }
    }

    /// Write a new entry in the FAT: set the entry of `cluster` to
    /// `new_value`.
    #[verifier::rlimit(50)]
    pub fn update_fat<D: BlockDevice>(
        &self,
        block_device: &mut D,
        cluster: ClusterId,
        new_value: ClusterId,
    ) -> (r: Result<(), Error<D::Error>>)
        requires
            self.wf(),
            cluster.0 < self.fat_limit(),
        ensures
            r is Ok ==> self.fat_block(cluster.0 as int) < old(block_device).blocks().len()
                && final(block_device).blocks() == self.set_entry(
                old(block_device).blocks(),
                cluster.0 as int,
                new_value,
            ),
            r is Err ==> r matches Err(Error::DeviceError(_)),
            old(block_device).reads_ok() && old(block_device).writes_ok() && self.fat_block(
                cluster.0 as int,
            ) < old(block_device).blocks().len() ==> r is Ok,
            final(block_device).reads_ok() == old(block_device).reads_ok(),
            final(block_device).writes_ok() == old(block_device).writes_ok(),
            final(block_device).blocks().len() == old(block_device).blocks().len(),
    {
        let (block, off) = self.fat_position(cluster);
        let mut blocks = [Block::new()];
        match block_device.read(&mut blocks, block) {
            Ok(()) => {},
            Err(e) => return Err(Error::DeviceError(e)),
        }
        let ghost old_blk = blocks@[0].contents@;
        assert(old_blk == old(block_device).blocks()[block.0 as int]);
        let mut contents = blocks[0].contents;
        match &self.fat_specific_info {
            FatSpecificInfo::Fat16(_) => {
                write_u16_le(&mut contents, off, fat16_entry(new_value));
            },
            FatSpecificInfo::Fat32(_) => {
                let existing = read_u32_le(&contents, off);
                let entry = fat32_entry(new_value);
                let new: u32 = (existing & 0xF000_0000) | entry;
                assert((existing & 0xF000_0000) | entry == (existing / 0x1000_0000) * 0x1000_0000
                    + entry) by (bit_vector)
                    requires
                        entry < 0x1000_0000,
                ;
                write_u32_le(&mut contents, off, new);
            },
        }
        let out = [Block { contents }];
        match block_device.write(&out, block) {
            Ok(()) => {},
            Err(e) => return Err(Error::DeviceError(e)),
        }
        assert(final(block_device).blocks() =~= self.set_entry(
            old(block_device).blocks(),
            cluster.0 as int,
            new_value,
        ));
        Ok(())
    }

    /// Whether the FAT entries of all clusters in `lo..hi` can be read and
    /// are in use (non-zero).
    pub open spec fn all_used(&self, dev: Seq<Seq<u8>>, lo: int, hi: int) -> bool {
        forall|k: int|
            lo <= k < hi ==> #[trigger] self.fat_block(k) < dev.len() && self.fat_entry(dev, k)
                != 0
    }

    /// Finds the first free cluster (one whose FAT entry is zero) from
    /// `start_cluster` on, before `end_cluster`. The end may lie up to 256
    /// entries past the last cluster; further out, the FAT entries would
    /// have block addresses that the volume's layout was not checked for.
    pub fn find_next_free_cluster<D: BlockDevice>(
        &self,
        block_device: &D,
        start_cluster: ClusterId,
        end_cluster: ClusterId,
    ) -> (r: Result<ClusterId, Error<D::Error>>)
        requires
            self.wf(),
            end_cluster.0 <= self.fat_limit(),
        ensures
            r matches Ok(c) ==> {
                &&& start_cluster.0 <= c.0 < end_cluster.0
                &&& self.fat_block(c.0 as int) < block_device.blocks().len()
                &&& self.fat_entry(block_device.blocks(), c.0 as int) == 0
                &&& self.all_used(block_device.blocks(), start_cluster.0 as int, c.0 as int)
            },
            r matches Err(e) ==> e is DeviceError || (e is NotEnoughSpace && self.all_used(
                block_device.blocks(),
                start_cluster.0 as int,
                end_cluster.0 as int,
            )),
            block_device.reads_ok() && self.on_device(block_device.blocks()) && 2 <= start_cluster.0
                ==> !(r matches Err(Error::DeviceError(_))),
    {
        let ghost dev = block_device.blocks();
        let width: usize = match &self.fat_specific_info {
            FatSpecificInfo::Fat16(_) => 2,
            FatSpecificInfo::Fat32(_) => 4,
        };
        let mut current_cluster = start_cluster;
        while current_cluster.0 < end_cluster.0
            invariant
                self.wf(),
                end_cluster.0 <= self.fat_limit(),
                dev == block_device.blocks(),
                width == self.entry_width(),
                start_cluster.0 <= current_cluster.0,
                self.all_used(dev, start_cluster.0 as int, current_cluster.0 as int),
            decreases self.fat_limit() - current_cluster.0,
        {
            let (block, off) = self.fat_position(current_cluster);
            let mut blocks = [Block::new()];
            match block_device.read(&mut blocks, block) {
                Ok(()) => {},
                Err(e) => return Err(Error::DeviceError(e)),
            }
            let contents = blocks[0].contents;
            assert(contents@ == dev[block.0 as int]);
            let ghost blk = block.0 as int;
            let ghost c0 = current_cluster.0 as int;
            let mut this_fat_ent_offset: usize = off;
            while this_fat_ent_offset <= BLOCK_LEN - width && current_cluster.0 < end_cluster.0
                invariant
                    self.wf(),
                    dev == block_device.blocks(),
                    width == self.entry_width(),
                    contents@ == dev[blk],
                    blk < dev.len(),
                    blk == self.fat_block(c0),
                    0 <= c0 < self.fat_limit(),
                    c0 <= current_cluster.0,
                    c0 < end_cluster.0,
                    end_cluster.0 <= self.fat_limit(),
                    start_cluster.0 <= current_cluster.0,
                    this_fat_ent_offset == self.fat_offset(c0) + (current_cluster.0 - c0) * width,
                    this_fat_ent_offset <= 512,
                    current_cluster.0 <= self.fat_limit(),
                    self.all_used(dev, start_cluster.0 as int, current_cluster.0 as int),
                decreases 512 - this_fat_ent_offset,
            {
                proof {
                    lemma_entry_step(
                        c0,
                        current_cluster.0 - c0,
                        width as int,
                    );
                    assert((current_cluster.0 - c0) * width <= 512 ==> current_cluster.0 - c0
                        <= 256) by (nonlinear_arith)
                        requires
                            width == 2 || width == 4,
                            current_cluster.0 - c0 >= 0,
                    ;
                }
                let fat_entry: u32 = if width == 2 {
                    read_u16_le(&contents, this_fat_ent_offset) as u32
                } else {
                    let raw = read_u32_le(&contents, this_fat_ent_offset);
                    assert(raw & 0x0FFF_FFFF == raw % 0x1000_0000) by (bit_vector);
                    raw & 0x0FFF_FFFF
                };
                assert(fat_entry == self.fat_entry(dev, current_cluster.0 as int));
                if fat_entry == 0 {
                    assert(current_cluster.0 - c0 < 256) by (nonlinear_arith)
                        requires
                            width == 2 || width == 4,
                            (current_cluster.0 - c0) * width + width <= 512,
                    ;
                    return Ok(current_cluster);
                }
                this_fat_ent_offset = this_fat_ent_offset + width;
                current_cluster = current_cluster.add(1);
                assert(current_cluster.0 - c0 <= 256) by (nonlinear_arith)
                    requires
                        width == 2 || width == 4,
                        (current_cluster.0 - c0) * width <= 512,
                ;
            }
            if this_fat_ent_offset > BLOCK_LEN - width {
                assert(current_cluster.0 > c0) by (nonlinear_arith)
                    requires
                        this_fat_ent_offset > 512 - width,
                        this_fat_ent_offset == off + (current_cluster.0 - c0) * width,
                        off + width <= 512,
                ;
            }
        }
        Err(Error::NotEnoughSpace)
    }

    /// Finds a free cluster from `start` up to the end of the volume, and
    /// when that fails and `start` is past the first cluster, from the
    /// first cluster on.
    fn find_free_wrapping<D: BlockDevice>(&self, block_device: &D, start: ClusterId) -> (r: Result<
        ClusterId,
        Error<D::Error>,
    >)
        requires
            self.wf(),
            2 <= start.0,
        ensures
            r matches Ok(c) ==> {
                &&& 2 <= c.0 < self.cluster_count + 2
                &&& self.fat_block(c.0 as int) < block_device.blocks().len()
                &&& self.fat_entry(block_device.blocks(), c.0 as int) == 0
                &&& ((start.0 <= c.0 && self.all_used(block_device.blocks(), start.0 as int, c.0 as int))
                    || (c.0 < start.0 && self.all_used(block_device.blocks(), 2, c.0 as int) && (
                    self.all_used(block_device.blocks(), start.0 as int, self.cluster_count + 2)
                        || !(block_device.reads_ok() && self.on_device(block_device.blocks())))))
            },
            r matches Err(e) ==> e is DeviceError || (e is NotEnoughSpace && self.all_used(
                block_device.blocks(),
                2,
                self.cluster_count + 2,
            )),
            block_device.reads_ok() && self.on_device(block_device.blocks()) ==> !(r matches Err(
                Error::DeviceError(_),
            )),
    {
        let end_cluster = ClusterId(self.cluster_count + RESERVED_ENTRIES);
        match self.find_next_free_cluster(block_device, start, end_cluster) {
            Ok(cluster) => Ok(cluster),
            Err(e) => {
                if start.0 > RESERVED_ENTRIES {
                    let r = self.find_next_free_cluster(
                        block_device,
                        ClusterId(RESERVED_ENTRIES),
                        end_cluster,
                    );
                    proof {
                        if let Ok(c) = r {
                            if c.0 >= start.0 {
                                assert forall|k: int| start.0 <= k < c.0 implies #[trigger] self.fat_block(k)
                                    < block_device.blocks().len() && self.fat_entry(block_device.blocks(), k)
                                    != 0 by {
                                    assert(2 <= k < c.0);
                                }
                            }
                        }
                    }
                    r
                } else {
                    Err(e)
                }
            },
        }
    }

    /// Fills every block of `cluster` with zeros.
    fn zero_cluster<D: BlockDevice>(&self, block_device: &mut D, cluster: ClusterId) -> (r: Result<
        (),
        Error<D::Error>,
    >)
        requires
            self.wf(),
            self.addressable(cluster),
        ensures
            r is Ok ==> final(block_device).blocks() == zeroed(
                old(block_device).blocks(),
                self.cluster_block(cluster),
                self.blocks_per_cluster as int,
            ),
            r is Err ==> r matches Err(Error::DeviceError(_)),
            old(block_device).writes_ok() && self.cluster_block(cluster) + self.blocks_per_cluster
                <= old(block_device).blocks().len() ==> r is Ok,
            final(block_device).reads_ok() == old(block_device).reads_ok(),
            final(block_device).writes_ok() == old(block_device).writes_ok(),
            final(block_device).blocks().len() == old(block_device).blocks().len(),
    {
        let ghost dev = block_device.blocks();
        let first_block = self.cluster_to_block(cluster);
        let bpc = self.blocks_per_cluster as u32;
        assert(first_block.0 + bpc <= u32::MAX) by {
            assert((cluster.0 - 2) * bpc + bpc <= self.fat_limit() * bpc) by (nonlinear_arith)
                requires
                    2 <= cluster.0 < self.fat_limit(),
            ;
        }
        let zeros = [Block::new()];
        assert(zeros@[0].contents@ =~= zero_block());
        let mut i: u32 = 0;
        assert(block_device.blocks() =~= zeroed(dev, first_block.0 as int, 0));
        while i < bpc
            invariant
                i <= bpc,
                first_block.0 + bpc <= u32::MAX,
                zeros@.len() == 1,
                zeros@[0].contents@ == zero_block(),
                block_device.blocks() == zeroed(dev, first_block.0 as int, i as int),
                block_device.reads_ok() == old(block_device).reads_ok(),
                block_device.writes_ok() == old(block_device).writes_ok(),
                dev == old(block_device).blocks(),
                first_block.0 == self.cluster_block(cluster),
                bpc == self.blocks_per_cluster,
            decreases bpc - i,
        {
            match block_device.write(&zeros, BlockIdx(first_block.0 + i)) {
                Ok(()) => {},
                Err(e) => return Err(Error::DeviceError(e)),
            }
            assert(block_device.blocks() =~= zeroed(dev, first_block.0 as int, i + 1));
            i = i + 1;
        }
        Ok(())
    }

    /// Takes a free cluster: marks it as the end of a chain, links it after
    /// `prev_cluster` if given, moves the free-cluster hints on and, if
    /// `zero` is set, fills the cluster with zeros.
    #[verifier::rlimit(50)]
    pub fn alloc_cluster<D: BlockDevice>(
        &mut self,
        block_device: &mut D,
        prev_cluster: Option<ClusterId>,
        zero: bool,
    ) -> (r: Result<ClusterId, Error<D::Error>>)
        requires
            old(self).wf(),
            prev_cluster matches Some(p) ==> p.0 < old(self).fat_limit(),
        ensures
            final(self).same_layout(old(self)),
            final(self).wf(),
            r matches Ok(n) ==> {
                let v = *old(self);
                let dev0 = old(block_device).blocks();
                let dev1 = v.linked(dev0, n, prev_cluster);
                &&& 2 <= n.0 < v.cluster_count + 2
                &&& v.fat_block(n.0 as int) < dev0.len()
                &&& v.fat_entry(dev0, n.0 as int) == 0
                &&& ((v.alloc_start() <= n.0 && v.all_used(dev0, v.alloc_start(), n.0 as int))
                    || (n.0 < v.alloc_start() && v.all_used(dev0, 2, n.0 as int) && (v.all_used(
                    dev0,
                    v.alloc_start(),
                    v.cluster_count + 2,
                ) || !(old(block_device).reads_ok() && v.on_device(dev0)))))
                &&& final(self).next_free_cluster matches Some(m) && {
                    &&& 2 <= m.0 < v.cluster_count + 2
                    &&& v.fat_block(m.0 as int) < dev1.len()
                    &&& v.fat_entry(dev1, m.0 as int) == 0
                    &&& ((n.0 <= m.0 && v.all_used(dev1, n.0 as int, m.0 as int)) || (m.0 < n.0
                        && v.all_used(dev1, 2, m.0 as int)))
                }
                &&& final(self).free_clusters_count == one_fewer(v.free_clusters_count)
                &&& final(block_device).blocks() == if zero {
                    zeroed(dev1, v.cluster_block(n), v.blocks_per_cluster as int)
                } else {
                    dev1
                }
            },
            r matches Err(e) ==> e is DeviceError || (e is NotEnoughSpace && old(self).all_used(
                final(block_device).blocks(),
                2,
                old(self).cluster_count + 2,
            )),
            r matches Err(Error::NotEnoughSpace) ==> *final(self) == *old(self) && {
                ||| final(block_device).blocks() == old(block_device).blocks()
                ||| exists|n: ClusterId|
                    #![trigger old(self).linked(old(block_device).blocks(), n, prev_cluster)]
                    {
                        &&& 2 <= n.0 < old(self).cluster_count + 2
                        &&& old(self).fat_entry(old(block_device).blocks(), n.0 as int) == 0
                        &&& final(block_device).blocks() == old(self).linked(
                            old(block_device).blocks(),
                            n,
                            prev_cluster,
                        )
                    }
            },
            old(block_device).reads_ok() && old(block_device).writes_ok() && old(self).on_device(
                old(block_device).blocks(),
            ) ==> !(r matches Err(Error::DeviceError(_))),
            final(block_device).reads_ok() == old(block_device).reads_ok(),
            final(block_device).writes_ok() == old(block_device).writes_ok(),
            final(block_device).blocks().len() == old(block_device).blocks().len(),
    {
        let ghost dev0 = block_device.blocks();
        let start_cluster = match self.next_free_cluster {
            Some(cluster) => if RESERVED_ENTRIES <= cluster.0 && cluster.0 < self.cluster_count
                + RESERVED_ENTRIES {
                cluster
            } else {
                ClusterId(RESERVED_ENTRIES)
            },
            None => ClusterId(RESERVED_ENTRIES),
        };
        let new_cluster = match self.find_free_wrapping(block_device, start_cluster) {
            Ok(cluster) => cluster,
            Err(e) => return Err(e),
        };
        match self.update_fat(block_device, new_cluster, ClusterId(ClusterId::END_OF_FILE)) {
            Ok(()) => {},
            Err(e) => return Err(e),
        }
        if let Some(cluster) = prev_cluster {
            match self.update_fat(block_device, cluster, new_cluster) {
                Ok(()) => {},
                Err(e) => return Err(e),
            }
        }
        let ghost dev1 = block_device.blocks();
        assert(dev1 == self.linked(dev0, new_cluster, prev_cluster));
        proof {
            if block_device.reads_ok() && block_device.writes_ok() && self.on_device(dev0) {
                let d = self.set_entry(dev0, new_cluster.0 as int, ClusterId(ClusterId::END_OF_FILE));
                self.lemma_on_device_set_entry(
                    dev0,
                    new_cluster.0 as int,
                    ClusterId(ClusterId::END_OF_FILE),
                );
                if let Some(p) = prev_cluster {
                    if p.0 >= 2 {
                        assert(self.fat_block(p.0 as int) < d.len());
                    } else {
                        assert(self.fat_block(p.0 as int) == self.fat_block(2)) by (nonlinear_arith)
                            requires
                                self.fat_block(p.0 as int) == self.lba_start.0 + self.fat_start.0 + (
                                p.0 * self.entry_width()) / 512,
                                self.fat_block(2) == self.lba_start.0 + self.fat_start.0 + (2
                                    * self.entry_width()) / 512,
                                0 <= p.0 < 2,
                                self.entry_width() == 2 || self.entry_width() == 4,
                        ;
                    }
                    self.lemma_on_device_set_entry(d, p.0 as int, new_cluster);
                }
                assert(self.addressable(new_cluster));
                assert(self.cluster_block(new_cluster) + self.blocks_per_cluster <= dev0.len());
                assert(dev1.len() == dev0.len());
            }
        }
        let next = match self.find_free_wrapping(block_device, new_cluster) {
            Ok(cluster) => cluster,
            Err(e) => return Err(e),
        };
        self.next_free_cluster = Some(next);
        self.free_clusters_count = match self.free_clusters_count {
            Some(count) => Some(count.wrapping_sub(1)),
            None => None,
        };
        if zero {
            match self.zero_cluster(block_device, new_cluster) {
                Ok(()) => {},
                Err(e) => return Err(e),
            }
        }
        Ok(new_cluster)
    }

    /// Tries to allocate a chain of clusters: `clusters_to_alloc` clusters,
    /// each linked after the one before (the first after `prev_cluster`).
    pub fn alloc_clusters<D: BlockDevice>(
        &mut self,
        block_device: &mut D,
        prev_cluster: Option<ClusterId>,
        clusters_to_alloc: u32,
        zero: bool,
    ) -> (r: Result<(), Error<D::Error>>)
        requires
            old(self).wf(),
            prev_cluster matches Some(p) ==> p.0 < old(self).fat_limit(),
        ensures
            final(self).same_layout(old(self)),
            final(self).wf(),
            clusters_to_alloc == 0 ==> r is Ok && *final(self) == *old(self)
                && final(block_device).blocks() == old(block_device).blocks(),
            r is Ok ==> final(self).free_clusters_count == k_fewer(
                old(self).free_clusters_count,
                clusters_to_alloc as nat,
            ),
            r matches Err(e) ==> e is DeviceError || (e is NotEnoughSpace && old(self).all_used(
                final(block_device).blocks(),
                2,
                old(self).cluster_count + 2,
            )),
    {
        let mut prev_cluster = prev_cluster;
        let mut left = clusters_to_alloc;
        while left > 0
            invariant
                self.wf(),
                self.same_layout(old(self)),
                left <= clusters_to_alloc,
                prev_cluster matches Some(p) ==> p.0 < self.fat_limit(),
                self.free_clusters_count == k_fewer(
                    old(self).free_clusters_count,
                    (clusters_to_alloc - left) as nat,
                ),
                left == clusters_to_alloc ==> *self == *old(self)
                    && block_device.blocks() == old(block_device).blocks(),
            decreases left,
        {
            let ghost before = *self;
            let new_cluster = match self.alloc_cluster(block_device, prev_cluster, zero) {
                Ok(n) => n,
                Err(e) => {
                    proof {
                        assert forall|k: int| 2 <= k < old(self).cluster_count + 2 implies
                            #[trigger] old(self).fat_block(k) == before.fat_block(k)
                            && old(self).fat_entry(block_device.blocks(), k) == before.fat_entry(
                            block_device.blocks(),
                            k,
                        ) by {}
                    }
                    return Err(e);
                },
            };
            prev_cluster = Some(new_cluster);
            left = left - 1;
        }
        Ok(())
    }

    /// Marks `cluster` as the end of its chain and frees every cluster that
    /// followed it in the chain.
    #[verifier::rlimit(100)]
    pub fn truncate_cluster_chain<D: BlockDevice>(
        &mut self,
        block_device: &mut D,
        cluster: ClusterId,
    ) -> (r: Result<(), Error<D::Error>>)
        requires
            old(self).wf(),
            cluster.0 < old(self).fat_limit(),
        ensures
            final(self).same_layout(old(self)),
            final(self).wf(),
            r is Ok ==> {
                let v = *old(self);
                let dev0 = old(block_device).blocks();
                let c = cluster.0 as int;
                ||| c < 2 && final(block_device).blocks() == dev0 && *final(self) == v
                ||| {
                    &&& c >= 2
                    &&& v.fat_block(c) < dev0.len()
                    &&& v.ends_chain(v.fat_entry(dev0, c))
                    &&& final(block_device).blocks() == dev0
                    &&& *final(self) == v
                }
                ||| {
                    &&& c >= 2
                    &&& v.fat_block(c) < dev0.len()
                    &&& v.link(v.fat_entry(dev0, c)) is Some
                    &&& final(self).next_free_cluster == lower_hint(
                        v.next_free_cluster,
                        v.link(v.fat_entry(dev0, c))->0,
                    )
                    &&& exists|len: nat|
                        {
                            &&& #[trigger] v.truncated_chain_ends(dev0, c, len)
                            &&& final(block_device).blocks() == v.truncated(dev0, c, len)
                            &&& final(self).free_clusters_count == more_free(
                                v.free_clusters_count,
                                len,
                            )
                        }
                }
            },
            r matches Err(e) ==> e is DeviceError || e is BadCluster || e is UnterminatedFatChain,
            old(block_device).reads_ok() && old(block_device).writes_ok() && old(self).on_device(
                old(block_device).blocks(),
            ) ==> !(r matches Err(Error::DeviceError(_))),
    {
        let ghost v = *self;
        let ghost dev0 = block_device.blocks();
        if cluster.0 < RESERVED_ENTRIES {
            return Ok(());
        }
        let first = match self.next_cluster(block_device, cluster) {
            Ok(n) => n,
            Err(Error::EndOfFile) => return Ok(()),
            Err(e) => return Err(e),
        };
        match self.next_free_cluster {
            Some(h) => {
                if h.0 > first.0 {
                    self.next_free_cluster = Some(first);
                }
            },
            None => {
                self.next_free_cluster = Some(first);
            },
        }
        match self.update_fat(block_device, cluster, ClusterId(ClusterId::END_OF_FILE)) {
            Ok(()) => {},
            Err(e) => return Err(e),
        }
        let ghost dev1 = block_device.blocks();
        proof {
            lemma_set_entry_shape(v, dev0, cluster.0 as int, ClusterId(ClusterId::END_OF_FILE));
        }
        let mut next = first;
        let mut steps: u32 = 0;
        loop
            invariant
                self.wf(),
                self.same_layout(&v),
                v == *old(self),
                dev0 == old(block_device).blocks(),
                v.wf(),
                2 <= cluster.0 < v.fat_limit(),
                v.fat_block(cluster.0 as int) < dev0.len(),
                v.link(v.fat_entry(dev0, cluster.0 as int)) == Some(first),
                dev1 == v.set_entry(dev0, cluster.0 as int, ClusterId(ClusterId::END_OF_FILE)),
                dev1.len() == dev0.len(),
                self.next_free_cluster == lower_hint(v.next_free_cluster, first),
                self.free_clusters_count == more_free(v.free_clusters_count, steps as nat),
                next == v.chain_at(dev1, first, steps as nat),
                v.valid_cluster(next),
                v.chain_prefix(dev1, first, steps as nat),
                steps > 0 ==> v.link(
                    v.fat_entry(dev1, v.chain_at(dev1, first, (steps - 1) as nat).0 as int),
                ) == Some(next),
                block_device.blocks() == v.free_prefix(dev1, first, steps as nat),
                steps <= v.cluster_count,
                block_device.reads_ok() == old(block_device).reads_ok(),
                block_device.writes_ok() == old(block_device).writes_ok(),
                block_device.blocks().len() == dev0.len(),
            decreases v.cluster_count - steps,
        {
            if steps >= self.cluster_count {
                return Err(Error::UnterminatedFatChain);
            }
            let ghost cur = block_device.blocks();
            let ghost n_ = steps as nat;
            let step = self.next_cluster(block_device, next);
            match step {
                Ok(n) => {
                    proof {
                        lemma_chain_step(v, dev1, first, n_, next);
                        assert(v.link(v.fat_entry(dev1, next.0 as int)) == Some(n));
                        assert(v.chain_at(dev1, first, n_ + 1) == n);
                    }
                    match self.update_fat(block_device, next, ClusterId(ClusterId::EMPTY)) {
                        Ok(()) => {},
                        Err(e) => return Err(e),
                    }
                    proof {
                        lemma_more_free_step(v.free_clusters_count, n_);
                    }
                    next = n;
                    steps = steps + 1;
                    self.free_clusters_count = match self.free_clusters_count {
                        Some(count) => Some(count.wrapping_add(1)),
                        None => None,
                    };
                },
                Err(Error::EndOfFile) => {
                    proof {
                        lemma_chain_step(v, dev1, first, n_, next);
                    }
                    match self.update_fat(block_device, next, ClusterId(ClusterId::EMPTY)) {
                        Ok(()) => {},
                        Err(e) => return Err(e),
                    }
                    proof {
                        lemma_more_free_step(v.free_clusters_count, n_);
                    }
                    self.free_clusters_count = match self.free_clusters_count {
                        Some(count) => Some(count.wrapping_add(1)),
                        None => None,
                    };
                    proof {
                        assert(v.chain_ends(dev1, first, n_ + 1));
                        assert(v.truncated_chain_ends(dev0, cluster.0 as int, n_ + 1));
                        assert(block_device.blocks() == v.truncated(dev0, cluster.0 as int, n_ + 1));
                        assert(self.free_clusters_count == more_free(
                            v.free_clusters_count,
                            n_ + 1,
                        ));
                        assert(v.link(v.fat_entry(dev0, cluster.0 as int))->0 == first);
                    }
                    return Ok(());
                },
                Err(e) => return Err(e),
            }
        }
    }
}

/// Whether `v` is the FAT16 volume with `cluster_count` clusters that the
/// Boot Parameter Block `d`, found at `lba_start`, describes.
pub open spec fn is_fat16_volume_of(
    v: FatVolume,
    d: Seq<u8>,
    lba_start: BlockIdx,
    num_blocks: BlockCount,
    cluster_count: u32,
) -> bool {
    let fat_start = le16(d, 14);
    let first_root = fat_start + d[16] * bpb_fat_size(d);
    &&& v.lba_start == lba_start
    &&& v.num_blocks == num_blocks
    &&& v.name.data@ == field(d, 43, 54)
    &&& v.blocks_per_cluster == d[13]
    &&& v.fat_start.0 == fat_start
    &&& v.first_data_block.0 == first_root + bpb_root_dir_blocks(d)
    &&& v.free_clusters_count is None
    &&& v.next_free_cluster is None
    &&& v.cluster_count == cluster_count
    &&& v.fat_specific_info == FatSpecificInfo::Fat16(
        Fat16Info { first_root_dir_block: BlockCount(first_root as u32), root_entries_count: le16(d, 17) as u16 },
    )
}

/// Whether `v` is the FAT32 volume with `cluster_count` clusters that the
/// Boot Parameter Block `d`, found at `lba_start`, and the info sector
/// `info` describe.
pub open spec fn is_fat32_volume_of(
    v: FatVolume,
    d: Seq<u8>,
    info: Seq<u8>,
    lba_start: BlockIdx,
    num_blocks: BlockCount,
    cluster_count: u32,
) -> bool {
    let fat_start = le16(d, 14);
    &&& v.lba_start == lba_start
    &&& v.num_blocks == num_blocks
    &&& v.name.data@ == field(d, 71, 82)
    &&& v.blocks_per_cluster == d[13]
    &&& v.fat_start.0 == fat_start
    &&& v.first_data_block.0 == fat_start + d[16] * bpb_fat_size(d)
    &&& v.free_clusters_count == info_free_count(info)
    &&& v.next_free_cluster == info_next_free(info)
    &&& v.cluster_count == cluster_count
    &&& v.fat_specific_info == FatSpecificInfo::Fat32(
        Fat32Info {
            first_root_dir_cluster: ClusterId(le32(d, 44) as u32),
            info_location: BlockIdx((lba_start.0 + le16(d, 48)) as u32),
        },
    )
}

/// Copies the 11 bytes of a volume label.
fn label_from(src: &[u8]) -> (r: VolumeName)
    requires
        src@.len() == 11,
    ensures
        r.data@ == src@,
{
    let mut data = [0u8; 11];
    let mut i: usize = 0;
    while i < 11
        invariant
            i <= 11,
            src@.len() == 11,
            forall|j: int| 0 <= j < i ==> data@[j] == src@[j],
        decreases 11 - i,
    {
        data[i] = src[i];
        i = i + 1;
    }
    assert(data@ =~= src@);
    VolumeName { data }
}

/// Load the boot parameter block from the start of the given partition and
/// determine if the partition contains a valid FAT16 or FAT32 file system.
///
/// The volume's operations ask that its layout fit 32-bit block addresses
/// (`FatVolume::wf`); `FatVolume::fits` tells whether a parsed volume does.
pub fn parse_volume<D: BlockDevice>(
    block_device: &D,
    lba_start: BlockIdx,
    num_blocks: BlockCount,
) -> (r: Result<VolumeType, Error<D::Error>>)
    ensures
        r matches Err(e) ==> e is DeviceError || e is FormatError || e is BadBlockSize,
        block_device.reads_ok() && (r matches Err(Error::DeviceError(_))) ==> lba_start.0
            >= block_device.blocks().len() || lba_start.0 + le16(
            block_device.blocks()[lba_start.0 as int],
            48,
        ) >= block_device.blocks().len(),
        !(r matches Err(Error::DeviceError(_))) ==> {
            let dev = block_device.blocks();
            let d = dev[lba_start.0 as int];
            &&& lba_start.0 < dev.len()
            &&& d.len() == 512
            &&& bpb_parse(d) matches Err(m) ==> (r matches Err(Error::FormatError(s)) && s@ == m)
            &&& bpb_parse(d) matches Ok((FatType::Fat16, cc)) ==> {
                if le16(d, 11) != 512 {
                    r matches Err(Error::BadBlockSize(b)) && b == le16(d, 11)
                } else {
                    r matches Ok(VolumeType::Fat(v)) && is_fat16_volume_of(
                        v,
                        d,
                        lba_start,
                        num_blocks,
                        cc,
                    )
                }
            }
            &&& bpb_parse(d) matches Ok((FatType::Fat32, cc)) ==> {
                if lba_start.0 + le16(d, 48) > u32::MAX {
                    r matches Err(Error::FormatError(s)) && s@ == "Info sector out of range"@
                } else {
                    let info = dev[lba_start.0 + le16(d, 48)];
                    &&& lba_start.0 + le16(d, 48) < dev.len()
                    &&& info_sector_check(info) matches Err(m) ==> (r matches Err(
                        Error::FormatError(s),
                    ) && s@ == m)
                    &&& info_sector_check(info) is Ok ==> (r matches Ok(VolumeType::Fat(v))
                        && is_fat32_volume_of(v, d, info, lba_start, num_blocks, cc))
                }
            }
        },
{
    let mut blocks = [Block::new()];
    match block_device.read(&mut blocks, lba_start) {
        Ok(()) => {},
        Err(e) => return Err(Error::DeviceError(e)),
    }
    let ghost d = blocks@[0].contents@;
    let block = &blocks[0].contents;
    let bpb = match Bpb::create_from_bytes(block) {
        Ok(b) => b,
        Err(e) => return Err(Error::FormatError(e)),
    };
    match bpb.fat_type() {
        FatType::Fat16 => {
            if bpb.bytes_per_block() != 512 {
                return Err(Error::BadBlockSize(bpb.bytes_per_block()));
            }
            let root_dir_blocks = (bpb.root_entries_count() as u32 * 32 + 511) / 512;
            let fat_start = BlockCount(bpb.reserved_block_count() as u32);
            let first_root_dir_block = fat_start.plus(
                BlockCount(bpb.num_fats() as u32 * bpb.fat_size()),
            );
            let first_data_block = first_root_dir_block.plus(BlockCount(root_dir_blocks));
            let volume = FatVolume {
                lba_start,
                num_blocks,
                name: label_from(bpb.volume_label()),
                blocks_per_cluster: bpb.blocks_per_cluster(),
                first_data_block,
                fat_start,
                free_clusters_count: None,
                next_free_cluster: None,
                cluster_count: bpb.total_clusters(),
                fat_specific_info: FatSpecificInfo::Fat16(
                    Fat16Info { root_entries_count: bpb.root_entries_count(), first_root_dir_block },
                ),
            };
            Ok(VolumeType::Fat(volume))
        },
        FatType::Fat32 => {
            let first_data_block = bpb.reserved_block_count() as u32 + bpb.num_fats() as u32
                * bpb.fat_size();
            let info_offset = bpb.fs_info() as u32;
            if lba_start.0 as u64 + info_offset as u64 > 0xFFFF_FFFF {
                return Err(Error::FormatError("Info sector out of range"));
            }
            let info_location = BlockIdx(lba_start.0 + info_offset);
            let mut info_blocks = [Block::new()];
            match block_device.read(&mut info_blocks, info_location) {
                Ok(()) => {},
                Err(e) => return Err(Error::DeviceError(e)),
            }
            let info_sector = match InfoSector::create_from_bytes(&info_blocks[0].contents) {
                Ok(i) => i,
                Err(e) => return Err(Error::FormatError(e)),
            };
            let volume = FatVolume {
                lba_start,
                num_blocks,
                name: label_from(bpb.volume_label()),
                blocks_per_cluster: bpb.blocks_per_cluster(),
                first_data_block: BlockCount(first_data_block),
                fat_start: BlockCount(bpb.reserved_block_count() as u32),
                free_clusters_count: info_sector.free_clusters_count(),
                next_free_cluster: info_sector.next_free_cluster(),
                cluster_count: bpb.total_clusters(),
                fat_specific_info: FatSpecificInfo::Fat32(
                    Fat32Info {
                        info_location,
                        first_root_dir_cluster: ClusterId(bpb.first_root_dir_cluster()),
                    },
                ),
            };
            Ok(VolumeType::Fat(volume))
        },
    }
}

/// The FAT entries of `c0` and of the `n` clusters after it share a block
/// when they fit in what is left of it: each lies `w` bytes after the one
/// before.
proof fn lemma_entry_step(c0: int, n: int, w: int)
    requires
        c0 >= 0,
        n >= 0,
        w == 2 || w == 4,
        (c0 * w) % 512 + n * w + w <= 512,
    ensures
        ((c0 + n) * w) / 512 == (c0 * w) / 512,
        ((c0 + n) * w) % 512 == (c0 * w) % 512 + n * w,
{
    let q = (c0 * w) / 512;
    let r = (c0 * w) % 512;
    vstd::arithmetic::div_mod::lemma_fundamental_div_mod(c0 * w, 512);
    assert((c0 + n) * w == c0 * w + n * w) by (nonlinear_arith);
    vstd::arithmetic::div_mod::lemma_fundamental_div_mod_converse((c0 + n) * w, 512, q, r + n * w);
}

/// A FAT entry never crosses the end of its block.
proof fn lemma_entry_in_block(c: int, w: int)
    requires
        c >= 0,
        w == 2 || w == 4,
    ensures
        (c * w) % 512 + w <= 512,
{
    if w == 2 {
        assert((c * 2) % 512 == 2 * (c % 256)) by (nonlinear_arith)
            requires
                c >= 0,
        ;
    } else {
        assert((c * 4) % 512 == 4 * (c % 128)) by (nonlinear_arith)
            requires
                c >= 0,
        ;
    }
}

/// The FAT entries of two different clusters that share a block do not
/// overlap.
proof fn lemma_entries_apart(c: int, k: int, w: int)
    requires
        c >= 0,
        k >= 0,
        c != k,
        w == 2 || w == 4,
        (c * w) / 512 == (k * w) / 512,
    ensures
        (k * w) % 512 + w <= (c * w) % 512 || (c * w) % 512 + w <= (k * w) % 512,
{
    vstd::arithmetic::div_mod::lemma_fundamental_div_mod(c * w, 512);
    vstd::arithmetic::div_mod::lemma_fundamental_div_mod(k * w, 512);
    assert(k * w - c * w == (k - c) * w) by (nonlinear_arith);
    if k > c {
        assert((k - c) * w >= w) by (nonlinear_arith)
            requires
                k - c >= 1,
                w > 0,
        ;
    } else {
        assert((c - k) * w >= w) by (nonlinear_arith)
            requires
                c - k >= 1,
                w > 0,
        ;
        assert(c * w - k * w == (c - k) * w) by (nonlinear_arith);
    }
}

/// Writing the FAT entry of cluster `c` and then reading the FAT gives back
/// what was written for `c`, and leaves the entry of every other cluster as
/// it was.
pub proof fn lemma_fat_write_read(
    vol: FatVolume,
    dev: Seq<Seq<u8>>,
    c: ClusterId,
    new: ClusterId,
    k: ClusterId,
)
    requires
        vol.fat_block(c.0 as int) < dev.len(),
        dev[vol.fat_block(c.0 as int)].len() == 512,
        vol.fat_block(k.0 as int) < dev.len(),
    ensures
        vol.fat_entry(vol.set_entry(dev, c.0 as int, new), k.0 as int) == if k == c {
            vol.written_entry(new)
        } else {
            vol.fat_entry(dev, k.0 as int)
        },
{
    let w = vol.entry_width();
    let ci = c.0 as int;
    let ki = k.0 as int;
    let b = vol.fat_block(ci);
    let blk = dev[b];
    let off = vol.fat_offset(ci);
    let after = vol.set_entry(dev, ci, new);
    lemma_entry_in_block(ci, w);
    lemma_entry_in_block(ki, w);
    assert(after[b] == vol.with_entry(blk, ci, new));
    if k == c {
        if vol.kind() == FatType::Fat16 {
            let v = fat16_value(new);
            assert(0 <= v < 65536);
        } else {
            let v = fat32_value(new);
            let hi = le32(blk, off) / 0x1000_0000;
            assert(0 <= v < 0x1000_0000);
            assert(0 <= hi < 16);
            let x = hi * 0x1000_0000 + v;
            assert(le32(put32(blk, off, x), off) == x);
            assert(x % 0x1000_0000 == v) by {
                vstd::arithmetic::div_mod::lemma_fundamental_div_mod_converse(x, 0x1000_0000, hi, v);
            }
        }
    } else if vol.fat_block(ki) != b {
        assert(after[vol.fat_block(ki)] == dev[vol.fat_block(ki)]);
    } else {
        assert((ci * w) / 512 == (ki * w) / 512);
        lemma_entries_apart(ci, ki, w);
        let offk = vol.fat_offset(ki);
        if vol.kind() == FatType::Fat16 {
            assert(le16(after[b], offk) == le16(blk, offk));
        } else {
            assert(le32(after[b], offk) == le32(blk, offk));
        }
    }
}

/// Setting a FAT entry keeps the number of blocks and the length of each.
proof fn lemma_set_entry_shape(vol: FatVolume, dev: Seq<Seq<u8>>, c: int, new: ClusterId)
    requires
        0 <= c,
        vol.fat_block(c) < dev.len(),
        dev[vol.fat_block(c)].len() == 512,
    ensures
        vol.set_entry(dev, c, new).len() == dev.len(),
        forall|b: int|
            0 <= b < dev.len() ==> #[trigger] vol.set_entry(dev, c, new)[b].len() == dev[b].len(),
{
    lemma_entry_in_block(c, vol.entry_width());
}

/// Freeing the first `n` clusters of a chain sets their FAT entries to zero
/// and leaves every other entry, and the shape of the device, as it was.
pub proof fn lemma_free_prefix(vol: FatVolume, dev: Seq<Seq<u8>>, c: ClusterId, n: nat)
    requires
        vol.chain_prefix(dev, c, n),
    ensures
        vol.free_prefix(dev, c, n).len() == dev.len(),
        forall|b: int|
            0 <= b < dev.len() ==> #[trigger] vol.free_prefix(dev, c, n)[b].len() == dev[b].len(),
        forall|k: ClusterId|
            vol.fat_block(k.0 as int) < dev.len() && (forall|j: nat|
                j < n ==> #[trigger] vol.chain_at(dev, c, j) != k) ==> #[trigger] vol.fat_entry(
                vol.free_prefix(dev, c, n),
                k.0 as int,
            ) == vol.fat_entry(dev, k.0 as int),
        forall|j: nat|
            j < n ==> #[trigger] vol.fat_entry(
                vol.free_prefix(dev, c, n),
                vol.chain_at(dev, c, j).0 as int,
            ) == 0,
    decreases n,
{
    if n > 0 {
        let m = (n - 1) as nat;
        assert(vol.chain_prefix(dev, c, m));
        lemma_free_prefix(vol, dev, c, m);
        let before = vol.free_prefix(dev, c, m);
        let x = vol.chain_at(dev, c, m);
        assert(vol.valid_cluster(x));
        assert(vol.fat_block(x.0 as int) < dev.len());
        lemma_set_entry_shape(vol, before, x.0 as int, ClusterId(ClusterId::EMPTY));
        assert forall|k: ClusterId|
            vol.fat_block(k.0 as int) < dev.len() && (forall|j: nat|
                j < n ==> #[trigger] vol.chain_at(dev, c, j) != k) implies #[trigger] vol.fat_entry(
            vol.free_prefix(dev, c, n),
            k.0 as int,
        ) == vol.fat_entry(dev, k.0 as int) by {
            assert(vol.chain_at(dev, c, m) != k);
            assert(forall|j: nat| j < m ==> #[trigger] vol.chain_at(dev, c, j) != k) by {
                assert forall|j: nat| j < m implies #[trigger] vol.chain_at(dev, c, j) != k by {
                    assert(j < n);
                }
            }
            lemma_fat_write_read(vol, before, x, ClusterId(ClusterId::EMPTY), k);
        }
        assert forall|j: nat| j < n implies #[trigger] vol.fat_entry(
            vol.free_prefix(dev, c, n),
            vol.chain_at(dev, c, j).0 as int,
        ) == 0 by {
            let y = vol.chain_at(dev, c, j);
            assert(vol.valid_cluster(y));
            lemma_fat_write_read(vol, before, x, ClusterId(ClusterId::EMPTY), y);
            if j < m {
                assert(vol.chain_at(dev, c, j) != vol.chain_at(dev, c, m));
            }
        }
    }
}

/// One more step along a chain whose first `n` clusters were freed: if the
/// entry of the next cluster is still in use, that cluster was not met
/// before, its entry is the one the chain had, and freeing it frees the
/// first `n + 1` clusters.
proof fn lemma_chain_step(vol: FatVolume, dev: Seq<Seq<u8>>, c: ClusterId, n: nat, next: ClusterId)
    requires
        vol.chain_prefix(dev, c, n),
        next == vol.chain_at(dev, c, n),
        vol.valid_cluster(next),
        vol.fat_block(next.0 as int) < vol.free_prefix(dev, c, n).len(),
        vol.free_prefix(dev, c, n)[vol.fat_block(next.0 as int)].len() == 512,
        vol.fat_entry(vol.free_prefix(dev, c, n), next.0 as int) != 0,
        n > 0 ==> vol.link(vol.fat_entry(dev, vol.chain_at(dev, c, (n - 1) as nat).0 as int))
            == Some(next),
    ensures
        vol.fat_entry(vol.free_prefix(dev, c, n), next.0 as int) == vol.fat_entry(
            dev,
            next.0 as int,
        ),
        vol.chain_prefix(dev, c, n + 1),
        vol.set_entry(vol.free_prefix(dev, c, n), next.0 as int, ClusterId(ClusterId::EMPTY))
            == vol.free_prefix(dev, c, n + 1),
{
    lemma_free_prefix(vol, dev, c, n);
    let fp = vol.free_prefix(dev, c, n);
    assert forall|j: nat| j < n implies #[trigger] vol.chain_at(dev, c, j) != next by {
        if vol.chain_at(dev, c, j) == next {
            assert(vol.fat_entry(fp, vol.chain_at(dev, c, j).0 as int) == 0);
        }
    }
    assert(vol.fat_block(next.0 as int) < dev.len());
    assert(dev[vol.fat_block(next.0 as int)].len() == 512);
    assert forall|i: nat, j: nat| i < j < n + 1 implies #[trigger] vol.chain_at(dev, c, i)
        != #[trigger] vol.chain_at(dev, c, j) by {
        if j == n {
            assert(vol.chain_at(dev, c, i) != next);
        }
    }
    assert forall|i: nat| i + 1 < n + 1 implies vol.link(
        vol.fat_entry(dev, #[trigger] vol.chain_at(dev, c, i).0 as int),
    ) is Some by {
        if i + 1 == n {
            assert(i == (n - 1) as nat);
        }
    }
}

/// Counting one more freed cluster, with the wrap-around of a `u32`.
proof fn lemma_more_free_step(count: Option<u32>, n: nat)
    ensures
        more_free(count, n + 1) == match more_free(count, n) {
            Some(x) => Some(vstd::wrapping::u32_specs::wrapping_add(x, 1)),
            None => None,
        },
{
    if let Some(x) = count {
        vstd::arithmetic::div_mod::lemma_add_mod_noop(x + n, 1, 0x1_0000_0000);
    }
}

/// Once cluster `n` was taken for a chain after cluster `p`, the FAT links
/// `p` to `n`, and `n` ends the chain. (On FAT16 the law needs `n` below the
/// reserved entry values, which every cluster of a FAT16 volume is.)
#[verifier::spinoff_prover]
pub proof fn lemma_alloc_links(vol: FatVolume, dev: Seq<Seq<u8>>, n: ClusterId, p: ClusterId)
    requires
        vol.wf(),
        vol.valid_cluster(n),
        vol.kind() == FatType::Fat32 || n.0 < 0xFFF7,
        p != n,
        vol.fat_block(n.0 as int) < dev.len(),
        dev[vol.fat_block(n.0 as int)].len() == 512,
        vol.fat_block(p.0 as int) < dev.len(),
        dev[vol.fat_block(p.0 as int)].len() == 512,
    ensures
        vol.link(vol.fat_entry(vol.linked(dev, n, Some(p)), p.0 as int)) == Some(n),
        vol.ends_chain(vol.fat_entry(vol.linked(dev, n, Some(p)), n.0 as int)),
{
    let eof = ClusterId(ClusterId::END_OF_FILE);
    let d = vol.set_entry(dev, n.0 as int, eof);
    let after = vol.linked(dev, n, Some(p));
    lemma_set_entry_shape(vol, dev, n.0 as int, eof);
    assert(vol.fat_entry(after, p.0 as int) == n.0) by {
        lemma_fat_write_read(vol, d, p, n, p);
        assert(vol.written_entry(n) == n.0);
    }
    assert(vol.fat_entry(after, n.0 as int) == vol.written_entry(eof)) by {
        lemma_fat_write_read(vol, dev, n, eof, n);
        lemma_fat_write_read(vol, d, p, n, n);
    }
    assert(vol.link(n.0 as int) == Some(n));
    assert(vol.ends_chain(vol.written_entry(eof)));
}

} // verus!
