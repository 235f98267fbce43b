//! Reading and changing the directories of a FAT volume.

use crate::blockdevice::{Block, BlockDevice, BlockIdx};
use crate::fat::info::FatSpecificInfo;
use crate::fat::ondiskdirentry::{is_entry_of, lemma_entry_bytes_roundtrip, OnDiskDirEntry};
use crate::fat::volume::{one_fewer, root_dir_blocks, zero_block, zeroed, FatVolume};
use crate::fat::FatType;
use crate::filesystem::attributes::has_flags;
use crate::filesystem::cluster::ClusterId;
use crate::filesystem::attributes::Attributes;
use crate::filesystem::directory::{entry_bytes, timestamp_writable, DirEntry, Directory};
use crate::filesystem::timestamp::{fat_representable, TimeSource, Timestamp};
use crate::filesystem::filename::{short_name_of, FilenameError, ShortFileName};
use crate::Error;
use vstd::prelude::*;

verus! {

/// Number of directory entries in a block.
pub const ENTRIES_PER_BLOCK: usize = 16;

/// The 32 bytes of entry `i` of a directory block.
pub open spec fn dir_entry_bytes(blk: Seq<u8>, i: int) -> Seq<u8> {
    blk.subrange(32 * i, 32 * i + 32)
}

/// Whether entry `i` of a directory block marks the end of the directory.
pub open spec fn ends_dir(blk: Seq<u8>, i: int) -> bool {
    blk[32 * i] == 0
}

/// Whether entry `i` of a directory block is free: the end marker or a
/// deleted entry.
pub open spec fn free_entry(blk: Seq<u8>, i: int) -> bool {
    blk[32 * i] == 0 || blk[32 * i] == 0xE5
}

/// Whether entry `i` of a directory block is listed: in use, and not a
/// part of a long file name.
pub open spec fn listed_entry(blk: Seq<u8>, i: int) -> bool {
    !free_entry(blk, i) && !has_flags(blk[32 * i + 11], 0x0F)
}

/// The first of the entries `i..16` of a directory block that ends the
/// directory or has the name `name`; 16 if there is none.
pub open spec fn find_stop(blk: Seq<u8>, name: Seq<u8>, i: int) -> int
    decreases 16 - i,
{
    if i >= 16 {
        16
    } else if ends_dir(blk, i) || dir_entry_bytes(blk, i).take(11) == name {
        i
    } else {
        find_stop(blk, name, i + 1)
    }
}

/// The first free entry among the entries `i..16` of a directory block; 16
/// if there is none.
pub open spec fn free_stop(blk: Seq<u8>, i: int) -> int
    decreases 16 - i,
{
    if i >= 16 {
        16
    } else if free_entry(blk, i) {
        i
    } else {
        free_stop(blk, i + 1)
    }
}

/// The first of the entries `i..16` of a directory block that ends the
/// directory; 16 if there is none.
pub open spec fn end_stop(blk: Seq<u8>, i: int) -> int
    decreases 16 - i,
{
    if i >= 16 {
        16
    } else if ends_dir(blk, i) {
        i
    } else {
        end_stop(blk, i + 1)
    }
}

/// The positions `(block, entry)` of the listed entries among entries
/// `k..16` of block `b`, whose bytes are `blk`, up to the end marker.
pub open spec fn block_positions(blk: Seq<u8>, b: int, k: int) -> Seq<(int, int)>
    decreases 16 - k,
{
    if k < 0 || k >= 16 || ends_dir(blk, k) {
        Seq::empty()
    } else {
        (if listed_entry(blk, k) {
            seq![(b, k)]
        } else {
            Seq::empty()
        }) + block_positions(blk, b, k + 1)
    }
}

/// The positions of the listed entries in blocks `first + i ..` of a run of
/// `size` blocks, up to the first end marker.
pub open spec fn seg_positions(dev: Seq<Seq<u8>>, first: int, size: int, i: int) -> Seq<(int, int)>
    decreases size - i,
{
    if i < 0 || i >= size {
        Seq::empty()
    } else {
        block_positions(dev[first + i], first + i, 0) + if end_stop(dev[first + i], 0) < 16 {
            Seq::empty()
        } else {
            seg_positions(dev, first, size, i + 1)
        }
    }
}

/// `v` holds the entries at positions `pos` of `dev`, in that order, read
/// as entries of a volume of type `fat_type`.
pub open spec fn reads_entries(
    dev: Seq<Seq<u8>>,
    v: Seq<DirEntry>,
    pos: Seq<(int, int)>,
    fat_type: FatType,
) -> bool {
    &&& v.len() == pos.len()
    &&& forall|i: int|
        0 <= i < v.len() ==> #[trigger] is_entry_of(
            v[i],
            dir_entry_bytes(dev[pos[i].0], pos[i].1),
            fat_type,
            BlockIdx(pos[i].0 as u32),
            (32 * pos[i].1) as u32,
        )
}

/// What a walk over a directory looks for in each block.
pub enum DirScan {
    /// The entry with this name, or the end of the directory.
    Name(Seq<u8>),
    /// A free entry.
    Free,
    /// The end of the directory.
    End,
}

/// The entry of a directory block at which a scan stops; 16 if it does not
/// stop in the block.
pub open spec fn scan_stop(scan: DirScan, blk: Seq<u8>) -> int {
    match scan {
        DirScan::Name(name) => find_stop(blk, name, 0),
        DirScan::Free => free_stop(blk, 0),
        DirScan::End => end_stop(blk, 0),
    }
}

/// The first of the blocks `first + i .. first + size` of `dev` in which
/// `scan` stops, counted from `first`; `size` if there is none.
pub open spec fn seg_stop(dev: Seq<Seq<u8>>, scan: DirScan, first: int, size: int, i: int) -> int
    decreases size - i,
{
    if i >= size {
        size
    } else if scan_stop(scan, dev[first + i]) < 16 {
        i
    } else {
        seg_stop(dev, scan, first, size, i + 1)
    }
}

/// Where a walk over the blocks of a directory, in order, ends.
pub enum DirWalk {
    /// The scan stops at entry `k` of block `b` (the fields, in that order).
    Stop(int, int),
    /// The fixed root directory runs out before the scan stops.
    RootEnd,
    /// The cluster chain ends at the given cluster before the scan stops;
    /// the flag tells whether the cluster's FAT entry marks the end of a
    /// chain (rather than a bad or free cluster).
    ChainEnd(ClusterId, bool),
    /// The chain runs on for more clusters than the volume has.
    TooLong,
}

/// What the search of one directory block for a name finds.
pub enum BlockSearch<T> {
    /// The name is in the block.
    Found(T),
    /// The block ends the directory before the name.
    EndOfDirectory,
    /// The name is not in the block and the directory goes on after it.
    NotInBlock,
}

/// Whether the entry at `offset` of block `b` of `dev` is `e`, read as a
/// directory entry of a volume of type `fat_type`.
pub open spec fn stored_entry(dev: Seq<Seq<u8>>, e: DirEntry, fat_type: FatType) -> bool {
    let b = e.entry_block.0 as int;
    let k = e.entry_offset / 32;
    &&& b < dev.len()
    &&& dev[b].len() == 512
    &&& e.entry_offset % 32 == 0
    &&& e.entry_offset < 512
    &&& is_entry_of(e, dir_entry_bytes(dev[b], k as int), fat_type, e.entry_block, e.entry_offset)
}

/// Whether `e` is a listed entry stored in `dev`: in use, not a part of a
/// long file name, and read from where it says it is.
pub open spec fn listed_in(dev: Seq<Seq<u8>>, e: DirEntry, fat_type: FatType) -> bool {
    &&& stored_entry(dev, e, fat_type)
    &&& listed_entry(dev[e.entry_block.0 as int], (e.entry_offset / 32) as int)
}

/// What the search of a directory for a name answers, given where the walk
/// over the directory for that name ends in `dev`.
pub open spec fn search_answer<E>(
    dev: Seq<Seq<u8>>,
    walk: DirWalk,
    fat_type: FatType,
    r: Result<DirEntry, Error<E>>,
) -> bool {
    match walk {
        DirWalk::Stop(b, k) => if ends_dir(dev[b], k) {
            r == Err::<DirEntry, Error<E>>(Error::NotFound)
        } else {
            r matches Ok(e) && is_entry_of(
                e,
                dir_entry_bytes(dev[b], k),
                fat_type,
                BlockIdx(b as u32),
                (32 * k) as u32,
            )
        },
        DirWalk::TooLong => r == Err::<DirEntry, Error<E>>(Error::UnterminatedFatChain),
        _ => r == Err::<DirEntry, Error<E>>(Error::NotFound),
    }
}

/// What deleting a name from a directory answers, and the device blocks it
/// leaves, given where the walk over the directory for that name ends in
/// `dev`: the entry found is marked as deleted.
pub open spec fn delete_answer<E>(
    dev: Seq<Seq<u8>>,
    walk: DirWalk,
    r: Result<(), Error<E>>,
    after: Seq<Seq<u8>>,
) -> bool {
    match walk {
        DirWalk::Stop(b, k) => if ends_dir(dev[b], k) {
            r == Err::<(), Error<E>>(Error::NotFound) && after == dev
        } else {
            r is Ok && after == dev.update(b, dev[b].update(32 * k, 0xE5))
        },
        DirWalk::TooLong => r == Err::<(), Error<E>>(Error::UnterminatedFatChain) && after == dev,
        _ => r == Err::<(), Error<E>>(Error::NotFound) && after == dev,
    }
}

/// Directory block `blk` with entry `k` replaced by the 32 bytes `data`.
pub open spec fn with_dir_entry(blk: Seq<u8>, k: int, data: Seq<u8>) -> Seq<u8> {
    Seq::new(blk.len(), |x: int| if 32 * k <= x < 32 * k + 32 { data[x - 32 * k] } else { blk[x] })
}

/// What writing a new entry into a directory answers, and the device and
/// volume it leaves, given the volume `v` and device `dev` it starts from
/// and where the walk over the directory for a free entry ends: the entry
/// goes into the first free entry; when the cluster chain ends before one,
/// a zeroed cluster is taken, linked to the end of the chain, and the entry
/// goes first in it.
pub open spec fn write_answer<E>(
    v: FatVolume,
    dev: Seq<Seq<u8>>,
    walk: DirWalk,
    r: Result<DirEntry, Error<E>>,
    after: Seq<Seq<u8>>,
    v_after: FatVolume,
) -> bool {
    match walk {
        DirWalk::Stop(b, k) => {
            &&& r matches Ok(e) && e.entry_block.0 == b && e.entry_offset == 32 * k && after
                == dev.update(b, with_dir_entry(dev[b], k, entry_bytes(e, v.kind())))
            &&& v_after == v
        },
        DirWalk::ChainEnd(c, true) => {
            ||| r matches Ok(e) && exists|n: ClusterId|
                #![trigger v.fat_entry(dev, n.0 as int)]
                {
                    &&& 2 <= n.0 < v.cluster_count + 2
                    &&& v.fat_entry(dev, n.0 as int) == 0
                    &&& e.entry_block.0 == v.cluster_block(n)
                    &&& e.entry_offset == 0
                    &&& after == v.extended_with(dev, c, n, e)
                    &&& v_after.free_clusters_count == one_fewer(v.free_clusters_count)
                }
            ||| r == Err::<DirEntry, Error<E>>(Error::NotEnoughSpace) && v.all_used(
                after,
                2,
                v.cluster_count + 2,
            )
        },
        DirWalk::TooLong => r == Err::<DirEntry, Error<E>>(Error::UnterminatedFatChain) && after
            == dev && v_after == v,
        _ => r == Err::<DirEntry, Error<E>>(Error::NotEnoughSpace) && after == dev && v_after == v,
    }
}

/// While a new directory entry is written: the walk for a free entry ran to
/// the end of the chain at `c`, and cluster `n` was taken to extend it,
/// which left the device `dev` and the volume `v`.
#[verifier::opaque]
spec fn extending(
    v0: FatVolume,
    dev0: Seq<Seq<u8>>,
    walk: DirWalk,
    c: ClusterId,
    n: ClusterId,
    dev: Seq<Seq<u8>>,
    v: FatVolume,
) -> bool {
    &&& walk == DirWalk::ChainEnd(c, true)
    &&& 2 <= n.0 < v0.cluster_count + 2
    &&& v0.fat_entry(dev0, n.0 as int) == 0
    &&& dev == v0.extended(dev0, c, n)
    &&& v.free_clusters_count == one_fewer(v0.free_clusters_count)
}

broadcast use vstd::function::group_function_axioms;

impl FatVolume {
    /// Whether `dir` names a directory whose blocks can be addressed: the
    /// root directory, or a directory that starts at an addressable cluster.
    pub open spec fn dir_addressable(&self, dir: &Directory) -> bool {
        dir.cluster.0 == ClusterId::ROOT_DIR || self.addressable(dir.cluster)
    }

    /// Where the listing of `dir` starts: its first block, the number of its
    /// blocks that follow each other from there, and the cluster that holds
    /// them (none for the fixed root directory of FAT16).
    pub open spec fn dir_seg(&self, dir: &Directory) -> (int, int, Option<ClusterId>) {
        match self.fat_specific_info {
            FatSpecificInfo::Fat16(i) => if dir.cluster.0 == ClusterId::ROOT_DIR {
                (
                    self.lba_start.0 + i.first_root_dir_block.0,
                    root_dir_blocks(i.root_entries_count),
                    None,
                )
            } else {
                (self.cluster_block(dir.cluster), self.blocks_per_cluster as int, Some(dir.cluster))
            },
            FatSpecificInfo::Fat32(i) => {
                let c = if dir.cluster.0 == ClusterId::ROOT_DIR {
                    i.first_root_dir_cluster
                } else {
                    dir.cluster
                };
                (self.cluster_block(c), self.blocks_per_cluster as int, Some(c))
            },
        }
    }

    /// Where a walk that scans the `size` blocks from `first`, then follows
    /// the cluster chain from `cur` in `dev`, having followed `steps` links
    /// already, ends.
    pub open spec fn walk_from(
        &self,
        dev: Seq<Seq<u8>>,
        scan: DirScan,
        first: int,
        size: int,
        cur: Option<ClusterId>,
        steps: nat,
    ) -> DirWalk
        decreases self.cluster_count - steps,
    {
        let i = seg_stop(dev, scan, first, size, 0);
        if i < size {
            DirWalk::Stop(first + i, scan_stop(scan, dev[first + i]))
        } else {
            match cur {
                None => DirWalk::RootEnd,
                Some(c) => if steps >= self.cluster_count {
                    DirWalk::TooLong
                } else {
                    match self.next_from_entry::<()>(self.fat_entry(dev, c.0 as int)) {
                        Ok(n) => self.walk_from(
                            dev,
                            scan,
                            self.cluster_block(n),
                            self.blocks_per_cluster as int,
                            Some(n),
                            steps + 1,
                        ),
                        Err(e) => DirWalk::ChainEnd(c, e is EndOfFile),
                    }
                },
            }
        }
    }

    /// The positions of the listed entries that a walk finds after the run
    /// of `size` blocks from `first`: none if the run holds the end marker,
    /// else those of the clusters that follow `cur` in the chain.
    pub open spec fn after_seg_positions(
        &self,
        dev: Seq<Seq<u8>>,
        first: int,
        size: int,
        cur: Option<ClusterId>,
        steps: nat,
    ) -> Seq<(int, int)>
        decreases self.cluster_count - steps, 0nat,
    {
        if seg_stop(dev, DirScan::End, first, size, 0) < size {
            Seq::empty()
        } else {
            match cur {
                None => Seq::empty(),
                Some(c) => if steps >= self.cluster_count {
                    Seq::empty()
                } else {
                    match self.next_from_entry::<()>(self.fat_entry(dev, c.0 as int)) {
                        Ok(n) => self.positions_from(
                            dev,
                            self.cluster_block(n),
                            self.blocks_per_cluster as int,
                            Some(n),
                            steps + 1,
                        ),
                        Err(_) => Seq::empty(),
                    }
                },
            }
        }
    }

    /// The positions of the listed entries that a walk finds from the run of
    /// `size` blocks at `first` on, following the chain from `cur`.
    pub open spec fn positions_from(
        &self,
        dev: Seq<Seq<u8>>,
        first: int,
        size: int,
        cur: Option<ClusterId>,
        steps: nat,
    ) -> Seq<(int, int)>
        decreases self.cluster_count - steps, 1nat,
    {
        seg_positions(dev, first, size, 0) + self.after_seg_positions(dev, first, size, cur, steps)
    }

    /// `v` is a listing of directory `dir` in `dev`: the listed entries at
    /// the directory's positions, in directory order, all of them unless
    /// the walk left its first cluster and a read of the FAT may have failed
    /// (on a device that does not promise `reads_ok`, or a volume that does
    /// not lie on it).
    pub open spec fn lists_dir(&self, dev: Seq<Seq<u8>>, dir: &Directory, v: Seq<DirEntry>, reads_ok: bool) -> bool {
        let all = self.dir_positions(dev, dir);
        &&& v.len() <= all.len()
        &&& reads_entries(dev, v, all.take(v.len() as int), self.kind())
        &&& v.len() < all.len() ==> self.leaves_first(dev, dir, DirScan::End) && !(reads_ok
            && self.on_device(dev))
        &&& forall|i: int| 0 <= i < v.len() ==> #[trigger] listed_in(dev, v[i], self.kind())
    }

    /// The positions of the listed entries of directory `dir` in `dev`: in
    /// use, not a part of a long file name, before the end marker, in
    /// directory order.
    pub open spec fn dir_positions(&self, dev: Seq<Seq<u8>>, dir: &Directory) -> Seq<(int, int)> {
        let (first, size, cur) = self.dir_seg(dir);
        self.positions_from(dev, first, size, cur, 0)
    }

    /// Whether a walk over directory `dir` in `dev` goes past the directory's
    /// first cluster, and so reads the FAT.
    pub open spec fn leaves_first(&self, dev: Seq<Seq<u8>>, dir: &Directory, scan: DirScan) -> bool {
        let (first, size, cur) = self.dir_seg(dir);
        &&& seg_stop(dev, scan, first, size, 0) == size
        &&& cur is Some
        &&& self.cluster_count > 0
    }

    /// `dev` once cluster `n` was taken, zeroed, to extend the chain that
    /// ends at `c`.
    #[verifier::opaque]
    pub open spec fn extended(&self, dev: Seq<Seq<u8>>, c: ClusterId, n: ClusterId) -> Seq<Seq<u8>> {
        zeroed(self.linked(dev, n, Some(c)), self.cluster_block(n), self.blocks_per_cluster as int)
    }

    /// `dev` once cluster `n` was taken to extend the chain that ends at `c`,
    /// with `e` written as the first entry of the zeroed cluster.
    #[verifier::opaque]
    pub open spec fn extended_with(
        &self,
        dev: Seq<Seq<u8>>,
        c: ClusterId,
        n: ClusterId,
        e: DirEntry,
    ) -> Seq<Seq<u8>> {
        self.extended(dev, c, n).update(
            self.cluster_block(n),
            with_dir_entry(zero_block(), 0, entry_bytes(e, self.kind())),
        )
    }

    /// Where a walk over directory `dir` in `dev` ends.
    pub open spec fn dir_walk(&self, dev: Seq<Seq<u8>>, dir: &Directory, scan: DirScan) -> DirWalk {
        let (first, size, cur) = self.dir_seg(dir);
        self.walk_from(dev, scan, first, size, cur, 0)
    }

    fn dir_start(&self, dir: &Directory) -> (r: (BlockIdx, u32, Option<ClusterId>))
        requires
            self.wf(),
            self.dir_addressable(dir),
        ensures
            (r.0.0 as int, r.1 as int, r.2) == self.dir_seg(dir),
            r.0.0 + r.1 <= u32::MAX,
            r.2 matches Some(c) ==> self.addressable(c) && r.0.0 == self.cluster_block(c) && r.1
                == self.blocks_per_cluster,
            r.2 is None ==> self.kind() == FatType::Fat16 && dir.cluster.0 == ClusterId::ROOT_DIR,
    {
        match &self.fat_specific_info {
            FatSpecificInfo::Fat16(fat16_info) => {
                if dir.cluster.0 == ClusterId::ROOT_DIR {
                    let first = self.lba_start.plus(fat16_info.first_root_dir_block);
                    let count: u32 = (fat16_info.root_entries_count as u32 * 32 + 511) / 512;
                    (first, count, None)
                } else {
                    let first = self.cluster_to_block(dir.cluster);
                    proof {
                        self.lemma_cluster_blocks_fit(dir.cluster);
                    }
                    (first, self.blocks_per_cluster as u32, Some(dir.cluster))
                }
            },
            FatSpecificInfo::Fat32(fat32_info) => {
                let start = if dir.cluster.0 == ClusterId::ROOT_DIR {
                    fat32_info.first_root_dir_cluster
                } else {
                    dir.cluster
                };
                let first = self.cluster_to_block(start);
                proof {
                    self.lemma_cluster_blocks_fit(start);
                }
                (first, self.blocks_per_cluster as u32, Some(start))
            },
        }
    }

    /// The blocks of an addressable cluster can be numbered in 32 bits.
    proof fn lemma_cluster_blocks_fit(&self, c: ClusterId)
        requires
            self.wf(),
            self.addressable(c),
        ensures
            self.cluster_block(c) + self.blocks_per_cluster <= u32::MAX,
    {
        let bpc = self.blocks_per_cluster as int;
        assert((c.0 - 2) * bpc + bpc <= self.fat_limit() * bpc) by (nonlinear_arith)
            requires
                2 <= c.0 < self.fat_limit(),
                bpc >= 0,
        ;
    }

    /// Looks for the entry named `match_name` in directory block `block`.
    pub fn find_entry_in_block<D: BlockDevice>(
        &self,
        block_device: &D,
        fat_type: FatType,
        match_name: &ShortFileName,
        block: BlockIdx,
    ) -> (r: Result<BlockSearch<DirEntry>, Error<D::Error>>)
        ensures
            r matches Err(e) ==> e is DeviceError,
            block_device.reads_ok() && block.0 < block_device.blocks().len() ==> r is Ok,
            r is Ok ==> {
                let dev = block_device.blocks();
                let blk = dev[block.0 as int];
                let k = find_stop(blk, match_name.contents@, 0);
                &&& block.0 < dev.len()
                &&& blk.len() == 512
                &&& k == 16 ==> (r matches Ok(BlockSearch::NotInBlock))
                &&& (k < 16 && ends_dir(blk, k)) ==> (r matches Ok(BlockSearch::EndOfDirectory))
                &&& (k < 16 && !ends_dir(blk, k)) ==> (r matches Ok(BlockSearch::Found(e))
                    && is_entry_of(e, dir_entry_bytes(blk, k), fat_type, block, (32 * k) as u32))
            },
    {
        let mut blocks = [Block::new()];
        match block_device.read(&mut blocks, block) {
            Ok(()) => {},
            Err(e) => return Err(Error::DeviceError(e)),
        }
        let ghost blk = blocks@[0].contents@;
        let ghost name = match_name.contents@;
        let all: &[u8] = &blocks[0].contents;
        let mut entry: usize = 0;
        while entry < ENTRIES_PER_BLOCK
            invariant
                entry <= 16,
                all@ == blk,
                blk == block_device.blocks()[block.0 as int],
                blk.len() == 512,
                block.0 < block_device.blocks().len(),
                find_stop(blk, name, 0) == find_stop(blk, name, entry as int),
                name == match_name.contents@,
            decreases 16 - entry,
        {
            let start = entry * 32;
            let dir_entry = OnDiskDirEntry::new(vstd::slice::slice_subrange(all, start, start + 32));
            assert(dir_entry.bytes()[0] == blk[32 * entry]);
            if dir_entry.is_end() {
                return Ok(BlockSearch::EndOfDirectory);
            } else if dir_entry.matches(match_name) {
                return Ok(BlockSearch::Found(dir_entry.get_entry(fat_type, block, start as u32)));
            }
            entry = entry + 1;
        }
        Ok(BlockSearch::NotInBlock)
    }

    /// Marks the entry named `match_name` in directory block `block` as
    /// deleted.
    pub fn delete_entry_in_block<D: BlockDevice>(
        &self,
        block_device: &mut D,
        match_name: &ShortFileName,
        block: BlockIdx,
    ) -> (r: Result<BlockSearch<()>, Error<D::Error>>)
        ensures
            r matches Err(e) ==> e is DeviceError,
            (r matches Ok(BlockSearch::EndOfDirectory)) || (r matches Ok(BlockSearch::NotInBlock))
                ==> *final(block_device) == *old(block_device),
            r is Ok ==> {
                let dev = old(block_device).blocks();
                let blk = dev[block.0 as int];
                let k = find_stop(blk, match_name.contents@, 0);
                &&& block.0 < dev.len()
                &&& blk.len() == 512
                &&& k == 16 ==> (r matches Ok(BlockSearch::NotInBlock))
                    && final(block_device).blocks() == dev
                &&& (k < 16 && ends_dir(blk, k)) ==> (r matches Ok(BlockSearch::EndOfDirectory))
                    && final(block_device).blocks() == dev
                &&& (k < 16 && !ends_dir(blk, k)) ==> (r matches Ok(BlockSearch::Found(())))
                    && final(block_device).blocks() == dev.update(
                    block.0 as int,
                    blk.update(32 * k, 0xE5),
                )
            },
    {
        let mut blocks = [Block::new()];
        match block_device.read(&mut blocks, block) {
            Ok(()) => {},
            Err(e) => return Err(Error::DeviceError(e)),
        }
        let ghost dev = block_device.blocks();
        let ghost blk = blocks@[0].contents@;
        let ghost name = match_name.contents@;
        let mut entry: usize = 0;
        while entry < ENTRIES_PER_BLOCK
            invariant
                entry <= 16,
                blocks@.len() == 1,
                blocks@[0].contents@ == blk,
                dev == block_device.blocks(),
                dev == old(block_device).blocks(),
                *block_device == *old(block_device),
                blk == dev[block.0 as int],
                blk.len() == 512,
                block.0 < dev.len(),
                find_stop(blk, name, 0) == find_stop(blk, name, entry as int),
                name == match_name.contents@,
            decreases 16 - entry,
        {
            let start = entry * 32;
            let found: bool;
            let end: bool;
            {
                let all: &[u8] = &blocks[0].contents;
                let dir_entry = OnDiskDirEntry::new(
                    vstd::slice::slice_subrange(all, start, start + 32),
                );
                assert(dir_entry.bytes()[0] == blk[32 * entry]);
                end = dir_entry.is_end();
                found = dir_entry.matches(match_name);
            }
            if end {
                return Ok(BlockSearch::EndOfDirectory);
            } else if found {
                blocks[0].contents[start] = 0xE5;
                assert(blocks@[0].contents@ =~= blk.update(32 * entry, 0xE5));
                match block_device.write(&blocks, block) {
                    Ok(()) => {},
                    Err(e) => return Err(Error::DeviceError(e)),
                }
                assert(block_device.blocks() =~= dev.update(block.0 as int, blk.update(32 * entry, 0xE5)));
                return Ok(BlockSearch::Found(()));
            }
            entry = entry + 1;
        }
        Ok(BlockSearch::NotInBlock)
    }

    /// Gets the entry named `name` from directory `dir`.
    ///
    /// A failing read of the FAT ends the search as if the directory ended
    /// there.
    pub fn find_directory_entry<D: BlockDevice>(
        &self,
        block_device: &D,
        dir: &Directory,
        name: &str,
    ) -> (r: Result<DirEntry, Error<D::Error>>)
        requires
            self.wf(),
            self.dir_addressable(dir),
        ensures
            short_name_of(name@) matches Err(f) ==> r == Err::<DirEntry, Error<D::Error>>(
                Error::FilenameError(f),
            ),
            short_name_of(name@) matches Ok(n) ==> {
                let dev = block_device.blocks();
                let scan = DirScan::Name(n);
                ||| r matches Err(Error::DeviceError(_))
                ||| search_answer(dev, self.dir_walk(dev, dir, scan), self.kind(), r)
                ||| r == Err::<DirEntry, Error<D::Error>>(Error::NotFound) && self.leaves_first(
                    dev,
                    dir,
                    scan,
                ) && !(block_device.reads_ok() && self.on_device(dev))
            },
            block_device.reads_ok() && self.on_device(block_device.blocks()) ==> !(r matches Err(
                Error::DeviceError(_),
            )),
            r matches Ok(e) ==> short_name_of(name@) == Ok::<Seq<u8>, FilenameError>(e.name.contents@)
                && stored_entry(block_device.blocks(), e, self.kind()),
            r matches Err(e) ==> e is FilenameError || e is DeviceError || e is NotFound
                || e is UnterminatedFatChain,
    {
        let match_name = match ShortFileName::create_from_str(name) {
            Ok(n) => n,
            Err(e) => return Err(Error::FilenameError(e)),
        };
        let ghost dev = block_device.blocks();
        let ghost scan = DirScan::Name(match_name.contents@);
        let fat_type = self.get_fat_type();
        let (first, dir_size, start) = self.dir_start(dir);
        let mut first_block = first;
        let mut current = start;
        let mut steps: u32 = 0;
        loop
            invariant
                self.wf(),
                fat_type == self.kind(),
                dev == block_device.blocks(),
                scan == DirScan::Name(match_name.contents@),
                short_name_of(name@) == Ok::<Seq<u8>, FilenameError>(match_name.contents@),
                first_block.0 + dir_size <= u32::MAX,
                current matches Some(c) ==> self.addressable(c) && first_block.0 == self.cluster_block(c)
                    && dir_size == self.blocks_per_cluster,
                steps <= self.cluster_count,
                self.walk_from(dev, scan, first_block.0 as int, dir_size as int, current, steps as nat)
                    == self.dir_walk(dev, dir, scan),
                steps == 0 ==> (first_block.0 as int, dir_size as int, current) == self.dir_seg(dir),
                steps > 0 ==> self.leaves_first(dev, dir, scan),
                block_device.reads_ok() && self.on_device(dev) ==> first_block.0 + dir_size
                    <= dev.len(),
            decreases self.cluster_count - steps,
        {
            let mut i: u32 = 0;
            while i < dir_size
                invariant
                    i <= dir_size,
                    fat_type == self.kind(),
                    dev == block_device.blocks(),
                    scan == DirScan::Name(match_name.contents@),
                    first_block.0 + dir_size <= u32::MAX,
                    short_name_of(name@) == Ok::<Seq<u8>, FilenameError>(match_name.contents@),
                    seg_stop(dev, scan, first_block.0 as int, dir_size as int, 0) == seg_stop(
                        dev,
                        scan,
                        first_block.0 as int,
                        dir_size as int,
                        i as int,
                    ),
                    self.walk_from(dev, scan, first_block.0 as int, dir_size as int, current, steps as nat)
                        == self.dir_walk(dev, dir, scan),
                    block_device.reads_ok() && self.on_device(dev) ==> first_block.0 + dir_size
                        <= dev.len(),
                decreases dir_size - i,
            {
                let block = BlockIdx(first_block.0 + i);
                match self.find_entry_in_block(block_device, fat_type, &match_name, block) {
                    Ok(BlockSearch::Found(e)) => {
                        proof {
                            let blk = block_device.blocks()[block.0 as int];
                            let k = find_stop(blk, match_name.contents@, 0);
                            lemma_find_stop_bounds(blk, match_name.contents@, 0);
                            assert(dir_entry_bytes(blk, k).take(11) == match_name.contents@);
                            assert(e.entry_offset == 32 * k);
                            assert(e.entry_offset / 32 == k);
                            assert(self.dir_walk(dev, dir, scan) == DirWalk::Stop(block.0 as int, k));
                        }
                        return Ok(e);
                    },
                    Ok(BlockSearch::EndOfDirectory) => {
                        proof {
                            let blk = block_device.blocks()[block.0 as int];
                            let k = find_stop(blk, match_name.contents@, 0);
                            lemma_find_stop_bounds(blk, match_name.contents@, 0);
                            assert(self.dir_walk(dev, dir, scan) == DirWalk::Stop(block.0 as int, k));
                        }
                        return Err(Error::NotFound);
                    },
                    Ok(BlockSearch::NotInBlock) => {},
                    Err(e) => return Err(e),
                }
                i = i + 1;
            }
            match current {
                None => return Err(Error::NotFound),
                Some(c) => {
                    if steps >= self.cluster_count {
                        return Err(Error::UnterminatedFatChain);
                    }
                    match self.next_cluster(block_device, c) {
                        Ok(n) => {
                            first_block = self.cluster_to_block(n);
                            proof {
                                self.lemma_cluster_blocks_fit(n);
                            }
                            current = Some(n);
                            steps = steps + 1;
                        },
                        Err(_) => {
                            proof {
                                if block_device.reads_ok() && self.on_device(dev) {
                                    assert(self.fat_block(c.0 as int) < dev.len());
                                }
                            }
                            return Err(Error::NotFound);
                        },
                    }
                },
            }
        }
    }

    /// Deletes the entry named `name` from directory `dir`, by marking it as
    /// deleted.
    ///
    /// A failing read of the FAT ends the search as if the directory ended
    /// there.
    pub fn delete_directory_entry<D: BlockDevice>(
        &self,
        block_device: &mut D,
        dir: &Directory,
        name: &str,
    ) -> (r: Result<(), Error<D::Error>>)
        requires
            self.wf(),
            self.dir_addressable(dir),
        ensures
            short_name_of(name@) matches Err(f) ==> r == Err::<(), Error<D::Error>>(
                Error::FilenameError(f),
            ),
            short_name_of(name@) matches Ok(n) ==> {
                let dev = old(block_device).blocks();
                let scan = DirScan::Name(n);
                ||| r matches Err(Error::DeviceError(_))
                ||| delete_answer(dev, self.dir_walk(dev, dir, scan), r, final(block_device).blocks())
                ||| r == Err::<(), Error<D::Error>>(Error::NotFound) && self.leaves_first(
                    dev,
                    dir,
                    scan,
                ) && final(block_device).blocks() == dev && !(old(block_device).reads_ok()
                    && self.on_device(dev))
            },
            r matches Err(e) ==> e is FilenameError || e is DeviceError || e is NotFound
                || e is UnterminatedFatChain,
            r matches Err(e) && !(e is DeviceError) ==> final(block_device).blocks() == old(
                block_device,
            ).blocks(),
    {
        let match_name = match ShortFileName::create_from_str(name) {
            Ok(n) => n,
            Err(e) => return Err(Error::FilenameError(e)),
        };
        let ghost dev0 = block_device.blocks();
        let ghost scan = DirScan::Name(match_name.contents@);
        let (first, dir_size, start) = self.dir_start(dir);
        let mut first_block = first;
        let mut current = start;
        let mut steps: u32 = 0;
        loop
            invariant
                self.wf(),
                dev0 == old(block_device).blocks(),
                block_device.blocks() == dev0,
                *block_device == *old(block_device),
                scan == DirScan::Name(match_name.contents@),
                short_name_of(name@) == Ok::<Seq<u8>, FilenameError>(match_name.contents@),
                first_block.0 + dir_size <= u32::MAX,
                current matches Some(c) ==> self.addressable(c) && first_block.0 == self.cluster_block(c)
                    && dir_size == self.blocks_per_cluster,
                steps <= self.cluster_count,
                self.walk_from(dev0, scan, first_block.0 as int, dir_size as int, current, steps as nat)
                    == self.dir_walk(dev0, dir, scan),
                steps == 0 ==> (first_block.0 as int, dir_size as int, current) == self.dir_seg(dir),
                steps > 0 ==> self.leaves_first(dev0, dir, scan),
            decreases self.cluster_count - steps,
        {
            let mut i: u32 = 0;
            while i < dir_size
                invariant
                    i <= dir_size,
                    dev0 == old(block_device).blocks(),
                    block_device.blocks() == dev0,
                    *block_device == *old(block_device),
                    scan == DirScan::Name(match_name.contents@),
                    first_block.0 + dir_size <= u32::MAX,
                    short_name_of(name@) == Ok::<Seq<u8>, FilenameError>(match_name.contents@),
                    seg_stop(dev0, scan, first_block.0 as int, dir_size as int, 0) == seg_stop(
                        dev0,
                        scan,
                        first_block.0 as int,
                        dir_size as int,
                        i as int,
                    ),
                    self.walk_from(dev0, scan, first_block.0 as int, dir_size as int, current, steps as nat)
                        == self.dir_walk(dev0, dir, scan),
                decreases dir_size - i,
            {
                let block = BlockIdx(first_block.0 + i);
                match self.delete_entry_in_block(block_device, &match_name, block) {
                    Ok(BlockSearch::Found(())) => {
                        proof {
                            let blk = dev0[block.0 as int];
                            let k = find_stop(blk, match_name.contents@, 0);
                            lemma_find_stop_bounds(blk, match_name.contents@, 0);
                            assert(dir_entry_bytes(blk, k).take(11) == match_name.contents@);
                            assert(self.dir_walk(dev0, dir, scan) == DirWalk::Stop(block.0 as int, k));
                        }
                        return Ok(());
                    },
                    Ok(BlockSearch::EndOfDirectory) => {
                        proof {
                            let blk = dev0[block.0 as int];
                            let k = find_stop(blk, match_name.contents@, 0);
                            lemma_find_stop_bounds(blk, match_name.contents@, 0);
                            assert(self.dir_walk(dev0, dir, scan) == DirWalk::Stop(block.0 as int, k));
                        }
                        return Err(Error::NotFound);
                    },
                    Ok(BlockSearch::NotInBlock) => {},
                    Err(e) => return Err(e),
                }
                i = i + 1;
            }
            match current {
                None => return Err(Error::NotFound),
                Some(c) => {
                    if steps >= self.cluster_count {
                        return Err(Error::UnterminatedFatChain);
                    }
                    match self.next_cluster(block_device, c) {
                        Ok(n) => {
                            first_block = self.cluster_to_block(n);
                            proof {
                                self.lemma_cluster_blocks_fit(n);
                            }
                            current = Some(n);
                            steps = steps + 1;
                        },
                        Err(_) => {
                            proof {
                                if block_device.reads_ok() && self.on_device(dev0) {
                                    assert(self.fat_block(c.0 as int) < dev0.len());
                                }
                            }
                            return Err(Error::NotFound);
                        },
                    }
                },
            }
        }
    }

    /// The listed entries of directory `dir` (in use and not a part of a
    /// long file name), in directory order, up to the end marker.
    ///
    /// A failing read of the FAT ends the listing as if the directory ended
    /// there: the entries listed are then those of the clusters read so far.
    pub fn list_dir<D: BlockDevice>(&self, block_device: &D, dir: &Directory) -> (r: Result<
        Vec<DirEntry>,
        Error<D::Error>,
    >)
        requires
            self.wf(),
            self.dir_addressable(dir),
        ensures
            r matches Ok(v) ==> self.lists_dir(block_device.blocks(), dir, v@, block_device.reads_ok()),
            r matches Err(e) ==> e is DeviceError || e is UnterminatedFatChain,
            block_device.reads_ok() && self.on_device(block_device.blocks()) ==> !(r matches Err(
                Error::DeviceError(_),
            )),
            r matches Err(Error::UnterminatedFatChain) ==> self.dir_walk(
                block_device.blocks(),
                dir,
                DirScan::End,
            ) is TooLong,
    {
        let fat_type = self.get_fat_type();
        let ghost dev = block_device.blocks();
        let ghost walk = self.dir_walk(dev, dir, DirScan::End);
        let ghost all = self.dir_positions(dev, dir);
        let (first, dir_size, start) = self.dir_start(dir);
        let mut first_block = first;
        let mut current = start;
        let mut steps: u32 = 0;
        let mut blocks = [Block::new()];
        let mut v: Vec<DirEntry> = Vec::new();
        assert(all.skip(0) =~= all);
        loop
            invariant
                self.wf(),
                fat_type == self.kind(),
                dev == block_device.blocks(),
                blocks@.len() == 1,
                first_block.0 + dir_size <= u32::MAX,
                current matches Some(c) ==> self.addressable(c) && first_block.0 == self.cluster_block(c)
                    && dir_size == self.blocks_per_cluster,
                steps <= self.cluster_count,
                walk == self.dir_walk(dev, dir, DirScan::End),
                self.walk_from(dev, DirScan::End, first_block.0 as int, dir_size as int, current, steps as nat)
                    == walk,
                steps == 0 ==> (first_block.0 as int, dir_size as int, current) == self.dir_seg(dir),
                steps > 0 ==> self.leaves_first(dev, dir, DirScan::End),
                block_device.reads_ok() && self.on_device(dev) ==> first_block.0 + dir_size
                    <= dev.len(),
                all == self.dir_positions(dev, dir),
                v@.len() <= all.len(),
                reads_entries(dev, v@, all.take(v@.len() as int), self.kind()),
                all.skip(v@.len() as int) == self.positions_from(
                    dev,
                    first_block.0 as int,
                    dir_size as int,
                    current,
                    steps as nat,
                ),
                forall|j: int| 0 <= j < v@.len() ==> #[trigger] listed_in(dev, v@[j], self.kind()),
            decreases self.cluster_count - steps,
        {
            let mut i: u32 = 0;
            while i < dir_size
                invariant
                    i <= dir_size,
                    fat_type == self.kind(),
                    dev == block_device.blocks(),
                    blocks@.len() == 1,
                    first_block.0 + dir_size <= u32::MAX,
                    seg_stop(dev, DirScan::End, first_block.0 as int, dir_size as int, 0) == seg_stop(
                        dev,
                        DirScan::End,
                        first_block.0 as int,
                        dir_size as int,
                        i as int,
                    ),
                    block_device.reads_ok() && self.on_device(dev) ==> first_block.0 + dir_size
                        <= dev.len(),
                    all == self.dir_positions(dev, dir),
                    v@.len() <= all.len(),
                    reads_entries(dev, v@, all.take(v@.len() as int), self.kind()),
                    all.skip(v@.len() as int) == seg_positions(
                        dev,
                        first_block.0 as int,
                        dir_size as int,
                        i as int,
                    ) + self.after_seg_positions(
                        dev,
                        first_block.0 as int,
                        dir_size as int,
                        current,
                        steps as nat,
                    ),
                    forall|j: int| 0 <= j < v@.len() ==> #[trigger] listed_in(dev, v@[j], self.kind()),
                decreases dir_size - i,
            {
                let block = BlockIdx(first_block.0 + i);
                match block_device.read(&mut blocks, block) {
                    Ok(()) => {},
                    Err(e) => return Err(Error::DeviceError(e)),
                }
                let ghost blk = dev[block.0 as int];
                let ghost rest = (if end_stop(blk, 0) < 16 {
                    Seq::<(int, int)>::empty()
                } else {
                    seg_positions(dev, first_block.0 as int, dir_size as int, i + 1)
                }) + self.after_seg_positions(
                    dev,
                    first_block.0 as int,
                    dir_size as int,
                    current,
                    steps as nat,
                );
                assert(blocks@[0].contents@ == blk);
                assert(all.skip(v@.len() as int) =~= block_positions(blk, block.0 as int, 0) + rest);
                let all_bytes: &[u8] = &blocks[0].contents;
                let mut entry: usize = 0;
                while entry < ENTRIES_PER_BLOCK
                    invariant
                        entry <= 16,
                        fat_type == self.kind(),
                        all_bytes@ == blk,
                        blk == dev[block.0 as int],
                        blk.len() == 512,
                        block.0 < dev.len(),
                        block.0 == first_block.0 + i,
                        i < dir_size,
                        seg_stop(dev, DirScan::End, first_block.0 as int, dir_size as int, 0) == seg_stop(
                            dev,
                            DirScan::End,
                            first_block.0 as int,
                            dir_size as int,
                            i as int,
                        ),
                        end_stop(blk, 0) == end_stop(blk, entry as int),
                        rest == (if end_stop(blk, 0) < 16 {
                            Seq::<(int, int)>::empty()
                        } else {
                            seg_positions(dev, first_block.0 as int, dir_size as int, i + 1)
                        }) + self.after_seg_positions(
                            dev,
                            first_block.0 as int,
                            dir_size as int,
                            current,
                            steps as nat,
                        ),
                        dev == block_device.blocks(),
                        all == self.dir_positions(dev, dir),
                        v@.len() <= all.len(),
                        reads_entries(dev, v@, all.take(v@.len() as int), self.kind()),
                        all.skip(v@.len() as int) == block_positions(blk, block.0 as int, entry as int)
                            + rest,
                        forall|j: int|
                            0 <= j < v@.len() ==> #[trigger] listed_in(dev, v@[j], self.kind()),
                    decreases 16 - entry,
                {
                    let start = entry * 32;
                    let dir_entry = OnDiskDirEntry::new(
                        vstd::slice::slice_subrange(all_bytes, start, start + 32),
                    );
                    assert(dir_entry.bytes()[0] == blk[32 * entry]);
                    assert(dir_entry.bytes()[11] == blk[32 * entry + 11]);
                    if dir_entry.is_end() {
                        proof {
                            assert(block_positions(blk, block.0 as int, entry as int) =~= Seq::empty());
                            assert(end_stop(blk, 0) < 16);
                            assert(scan_stop(DirScan::End, dev[first_block.0 + i]) < 16);
                            lemma_seg_stop_here(dev, first_block.0 as int, dir_size as int, i as int);
                            assert(all.skip(v@.len() as int) =~= Seq::empty());
                            assert(all.skip(v@.len() as int).len() == all.len() - v@.len());
                        }
                        return Ok(v);
                    } else if dir_entry.is_valid() && !dir_entry.is_lfn() {
                        let e = dir_entry.get_entry(fat_type, block, start as u32);
                        proof {
                            assert(e.entry_offset / 32 == entry);
                            assert(listed_in(dev, e, self.kind()));
                            let n = v@.len() as int;
                            let tail = block_positions(blk, block.0 as int, entry + 1) + rest;
                            assert(block_positions(blk, block.0 as int, entry as int) =~= seq![
                                (block.0 as int, entry as int),
                            ] + block_positions(blk, block.0 as int, entry + 1));
                            assert(block_positions(blk, block.0 as int, entry as int) + rest =~= seq![
                                (block.0 as int, entry as int),
                            ] + tail);
                            lemma_skip_step(all, n, (block.0 as int, entry as int), tail);
                            assert(dir_entry_bytes(blk, entry as int) =~= dir_entry.bytes());
                        }
                        let ghost v_old = v@;
                        v.push(e);
                        proof {
                            let n = v@.len() - 1;
                            assert(all.take(v@.len() as int) =~= all.take(n).push(all[n]));
                            assert forall|j: int| 0 <= j < v@.len() implies #[trigger] is_entry_of(
                                v@[j],
                                dir_entry_bytes(
                                    dev[all.take(v@.len() as int)[j].0],
                                    all.take(v@.len() as int)[j].1,
                                ),
                                self.kind(),
                                BlockIdx(all.take(v@.len() as int)[j].0 as u32),
                                (32 * all.take(v@.len() as int)[j].1) as u32,
                            ) by {
                                if j < n {
                                    assert(all.take(v@.len() as int)[j] == all.take(n)[j]);
                                    assert(v@[j] == v_old[j]);
                                } else {
                                    assert(v@[j] == e);
                                    assert(all.take(v@.len() as int)[j] == (block.0 as int, entry as int));
                                }
                            }
                        }
                    } else {
                        proof {
                            assert(block_positions(blk, block.0 as int, entry as int) =~= block_positions(
                                blk,
                                block.0 as int,
                                entry + 1,
                            ));
                        }
                    }
                    entry = entry + 1;
                }
                proof {
                    assert(block_positions(blk, block.0 as int, 16) =~= Seq::empty());
                    assert(scan_stop(DirScan::End, dev[first_block.0 + i]) >= 16);
                    assert(all.skip(v@.len() as int) =~= seg_positions(
                        dev,
                        first_block.0 as int,
                        dir_size as int,
                        i + 1,
                    ) + self.after_seg_positions(
                        dev,
                        first_block.0 as int,
                        dir_size as int,
                        current,
                        steps as nat,
                    ));
                }
                i = i + 1;
            }
            proof {
                assert(seg_positions(dev, first_block.0 as int, dir_size as int, dir_size as int)
                    =~= Seq::empty());
                assert(all.skip(v@.len() as int) =~= self.after_seg_positions(
                    dev,
                    first_block.0 as int,
                    dir_size as int,
                    current,
                    steps as nat,
                ));
            }
            match current {
                None => {
                    proof {
                        assert(all.skip(v@.len() as int) =~= Seq::empty());
                        assert(all.skip(v@.len() as int).len() == all.len() - v@.len());
                    }
                    return Ok(v);
                },
                Some(c) => {
                    if steps >= self.cluster_count {
                        return Err(Error::UnterminatedFatChain);
                    }
                    match self.next_cluster(block_device, c) {
                        Ok(n) => {
                            first_block = self.cluster_to_block(n);
                            proof {
                                self.lemma_cluster_blocks_fit(n);
                            }
                            current = Some(n);
                            steps = steps + 1;
                        },
                        Err(Error::DeviceError(_)) => {
                            proof {
                                if block_device.reads_ok() && self.on_device(dev) {
                                    assert(self.fat_block(c.0 as int) < dev.len());
                                }
                            }
                            return Ok(v);
                        },
                        Err(_) => {
                            proof {
                                assert(all.skip(v@.len() as int) =~= Seq::empty());
                                assert(all.skip(v@.len() as int).len() == all.len() - v@.len());
                            }
                            return Ok(v);
                        },
                    }
                },
            }
        }
    }

    /// Calls `func` with every listed entry of directory `dir` (in use and
    /// not a part of a long file name), in directory order, up to the end
    /// marker: the entries that `list_dir` gives. A failing read of the FAT
    /// ends the directory there.
    pub fn iterate_dir<D: BlockDevice, F: FnMut(&DirEntry)>(
        &self,
        block_device: &D,
        dir: &Directory,
        mut func: F,
    ) -> (r: Result<(), Error<D::Error>>)
        requires
            self.wf(),
            self.dir_addressable(dir),
            forall|e: &DirEntry|
                listed_in(block_device.blocks(), *e, self.kind()) ==> call_requires(func, (e,)),
        ensures
            r matches Err(e) ==> e is DeviceError || e is UnterminatedFatChain,
            r matches Err(Error::UnterminatedFatChain) ==> self.dir_walk(
                block_device.blocks(),
                dir,
                DirScan::End,
            ) is TooLong,
            block_device.reads_ok() && self.on_device(block_device.blocks()) ==> !(r matches Err(
                Error::DeviceError(_),
            )),
            r is Ok ==> exists|v: Seq<DirEntry>|
                #![trigger self.lists_dir(block_device.blocks(), dir, v, block_device.reads_ok())]
                {
                    &&& self.lists_dir(block_device.blocks(), dir, v, block_device.reads_ok())
                    &&& forall|i: int| 0 <= i < v.len() ==> call_ensures(func, (&v[i],), ())
                },
    {
        let entries = match self.list_dir(block_device, dir) {
            Ok(v) => v,
            Err(e) => return Err(e),
        };
        let ghost f0 = func;
        let mut i: usize = 0;
        while i < entries.len()
            invariant
                func == f0,
                i <= entries@.len(),
                forall|j: int|
                    0 <= j < entries@.len() ==> #[trigger] listed_in(
                        block_device.blocks(),
                        entries@[j],
                        self.kind(),
                    ),
                forall|e: &DirEntry|
                    listed_in(block_device.blocks(), *e, self.kind()) ==> call_requires(func, (e,)),
                forall|j: int| 0 <= j < i ==> call_ensures(func, (&entries@[j],), ()),
            decreases entries@.len() - i,
        {
            let e = &entries[i];
            assert(listed_in(block_device.blocks(), entries@[i as int], self.kind()));
            func(e);
            i = i + 1;
        }
        assert(self.lists_dir(block_device.blocks(), dir, entries@, block_device.reads_ok()));
        assert(forall|j: int| 0 <= j < entries@.len() ==> call_ensures(f0, (&entries@[j],), ()));
        Ok(())
    }

    /// Writes a new entry for `name` into the first free entry of directory
    /// `dir`, stamped with the time that `time_source` gives, and extends
    /// the directory by a zeroed cluster when it has no free entry left (the
    /// fixed FAT16 root directory cannot grow): `write_new_entry_at` with
    /// that time.
    ///
    /// A failing read of the FAT ends the search as if the directory could
    /// not grow.
    pub fn write_new_directory_entry<D: BlockDevice, T: TimeSource>(
        &mut self,
        block_device: &mut D,
        time_source: &T,
        dir: &Directory,
        name: ShortFileName,
        attributes: Attributes,
    ) -> (r: Result<DirEntry, Error<D::Error>>)
        requires
            old(self).wf(),
            old(self).dir_addressable(dir),
        ensures
            final(self).same_layout(old(self)),
            final(self).wf(),
            ({
                let dev = old(block_device).blocks();
                let walk = old(self).dir_walk(dev, dir, DirScan::Free);
                ||| r matches Err(Error::DeviceError(_))
                ||| write_answer(*old(self), dev, walk, r, final(block_device).blocks(), *final(self))
                ||| r == Err::<DirEntry, Error<D::Error>>(Error::NotEnoughSpace) && old(self).leaves_first(
                    dev,
                    dir,
                    DirScan::Free,
                ) && final(block_device).blocks() == dev && *final(self) == *old(self) && !(old(
                    block_device,
                ).reads_ok() && old(self).on_device(dev))
            }),
            r matches Ok(e) ==> {
                let dev = final(block_device).blocks();
                &&& e.name == name
                &&& e.attributes == attributes
                &&& e.cluster.0 == 0
                &&& e.size == 0
                &&& e.mtime == e.ctime
                &&& timestamp_writable(e.ctime)
                &&& e.entry_block.0 < dev.len()
                &&& dev[e.entry_block.0 as int].len() == 512
                &&& e.entry_offset % 32 == 0
                &&& e.entry_offset < 512
                &&& dir_entry_bytes(dev[e.entry_block.0 as int], (e.entry_offset / 32) as int)
                    == entry_bytes(e, old(self).kind())
            },
            r matches Err(e) ==> e is DeviceError || e is NotEnoughSpace || e is UnterminatedFatChain,
            old(block_device).reads_ok() && old(block_device).writes_ok() && old(self).on_device(
                old(block_device).blocks(),
            ) ==> !(r matches Err(Error::DeviceError(_))),
    {
        let ctime = time_source.get_timestamp();
        self.write_new_entry_at(block_device, dir, name, attributes, ctime)
    }

    /// Writes a new entry for `name`, with creation and modification time
    /// `ctime`, into the first free entry of directory `dir`, and extends the
    /// directory by a zeroed cluster when it has no free entry left (the
    /// fixed FAT16 root directory cannot grow).
    ///
    /// A failing read of the FAT ends the search as if the directory could
    /// not grow.
    #[verifier::rlimit(50)]
    pub fn write_new_entry_at<D: BlockDevice>(
        &mut self,
        block_device: &mut D,
        dir: &Directory,
        name: ShortFileName,
        attributes: Attributes,
        ctime: Timestamp,
    ) -> (r: Result<DirEntry, Error<D::Error>>)
        requires
            old(self).wf(),
            old(self).dir_addressable(dir),
            timestamp_writable(ctime),
        ensures
            final(self).same_layout(old(self)),
            final(self).wf(),
            ({
                let dev = old(block_device).blocks();
                let walk = old(self).dir_walk(dev, dir, DirScan::Free);
                ||| r matches Err(Error::DeviceError(_))
                ||| write_answer(*old(self), dev, walk, r, final(block_device).blocks(), *final(self))
                ||| r == Err::<DirEntry, Error<D::Error>>(Error::NotEnoughSpace) && old(self).leaves_first(
                    dev,
                    dir,
                    DirScan::Free,
                ) && final(block_device).blocks() == dev && *final(self) == *old(self) && !(old(
                    block_device,
                ).reads_ok() && old(self).on_device(dev))
            }),
            r matches Ok(e) ==> {
                let dev = final(block_device).blocks();
                &&& e.name == name
                &&& e.attributes == attributes
                &&& e.cluster.0 == 0
                &&& e.size == 0
                &&& e.ctime == ctime
                &&& e.mtime == ctime
                &&& e.entry_block.0 < dev.len()
                &&& dev[e.entry_block.0 as int].len() == 512
                &&& e.entry_offset % 32 == 0
                &&& e.entry_offset < 512
                &&& dir_entry_bytes(dev[e.entry_block.0 as int], (e.entry_offset / 32) as int)
                    == entry_bytes(e, old(self).kind())
            },
            r matches Err(e) ==> e is DeviceError || e is NotEnoughSpace || e is UnterminatedFatChain,
            old(block_device).reads_ok() && old(block_device).writes_ok() && old(self).on_device(
                old(block_device).blocks(),
            ) ==> !(r matches Err(Error::DeviceError(_))),
    {
        let fat_type = self.get_fat_type();
        let ghost v0 = *self;
        let ghost dev0 = block_device.blocks();
        let ghost walk = v0.dir_walk(dev0, dir, DirScan::Free);
        let ghost mut taken: Option<(ClusterId, ClusterId)> = None;
        let (first, dir_size, start) = self.dir_start(dir);
        let mut first_block = first;
        let mut current = start;
        let mut steps: u32 = 0;
        let mut blocks = [Block::new()];
        loop
            invariant
                self.wf(),
                self.same_layout(old(self)),
                v0 == *old(self),
                timestamp_writable(ctime),
                block_device.reads_ok() == old(block_device).reads_ok(),
                block_device.writes_ok() == old(block_device).writes_ok(),
                block_device.blocks().len() == dev0.len(),
                old(block_device).reads_ok() && old(block_device).writes_ok() && v0.on_device(dev0)
                    ==> first_block.0 + dir_size <= dev0.len(),
                dev0 == old(block_device).blocks(),
                walk == v0.dir_walk(dev0, dir, DirScan::Free),
                fat_type == self.kind(),
                blocks@.len() == 1,
                first_block.0 + dir_size <= u32::MAX,
                current matches Some(c) ==> self.addressable(c) && first_block.0 == self.cluster_block(c)
                    && dir_size == self.blocks_per_cluster,
                steps <= self.cluster_count,
                taken is None ==> {
                    &&& block_device.blocks() == dev0
                    &&& *block_device == *old(block_device)
                    &&& *self == v0
                    &&& v0.walk_from(dev0, DirScan::Free, first_block.0 as int, dir_size as int, current, steps as nat) == walk
                    &&& steps == 0 ==> (first_block.0 as int, dir_size as int, current) == v0.dir_seg(dir)
                    &&& steps > 0 ==> v0.leaves_first(dev0, dir, DirScan::Free)
                },
                taken matches Some((c, n)) ==> {
                    &&& first_block.0 == v0.cluster_block(n)
                    &&& current == Some(n)
                    &&& extending(v0, dev0, walk, c, n, block_device.blocks(), *self)
                },
            decreases self.cluster_count - steps,
        {
            let mut i: u32 = 0;
            while i < dir_size
                invariant
                    i <= dir_size,
                    self.wf(),
                    self.same_layout(old(self)),
                    v0 == *old(self),
                    timestamp_writable(ctime),
                    block_device.reads_ok() == old(block_device).reads_ok(),
                    block_device.writes_ok() == old(block_device).writes_ok(),
                    block_device.blocks().len() == dev0.len(),
                    old(block_device).reads_ok() && old(block_device).writes_ok() && v0.on_device(dev0)
                        ==> first_block.0 + dir_size <= dev0.len(),
                    dev0 == old(block_device).blocks(),
                    walk == v0.dir_walk(dev0, dir, DirScan::Free),
                    fat_type == self.kind(),
                    blocks@.len() == 1,
                    first_block.0 + dir_size <= u32::MAX,
                    current matches Some(c) ==> self.addressable(c) && first_block.0 == self.cluster_block(c)
                        && dir_size == self.blocks_per_cluster,
                    taken is None ==> {
                        &&& block_device.blocks() == dev0
                        &&& *block_device == *old(block_device)
                        &&& *self == v0
                        &&& v0.walk_from(dev0, DirScan::Free, first_block.0 as int, dir_size as int, current, steps as nat) == walk
                        &&& seg_stop(dev0, DirScan::Free, first_block.0 as int, dir_size as int, 0)
                            == seg_stop(dev0, DirScan::Free, first_block.0 as int, dir_size as int, i as int)
                    },
                    taken matches Some((c, n)) ==> {
                        &&& i == 0
                        &&& first_block.0 == v0.cluster_block(n)
                        &&& current == Some(n)
                        &&& extending(v0, dev0, walk, c, n, block_device.blocks(), *self)
                    },
                decreases dir_size - i,
            {
                let block = BlockIdx(first_block.0 + i);
                match block_device.read(&mut blocks, block) {
                    Ok(()) => {},
                    Err(e) => return Err(Error::DeviceError(e)),
                }
                let ghost dev = block_device.blocks();
                let ghost blk = dev[block.0 as int];
                proof {
                    assert(blocks@[0].contents@ == blk);
                    assert(blocks@[0].contents@.len() == 512);
                    if let Some((c, n)) = taken {
                        reveal(extending);
                        reveal(FatVolume::extended);
                        assert(self.blocks_per_cluster >= 1);
                        assert(blk == zero_block());
                    }
                }
                let mut entry: usize = 0;
                while entry < ENTRIES_PER_BLOCK
                    invariant
                        entry <= 16,
                        self.wf(),
                        self.same_layout(old(self)),
                        v0 == *old(self),
                        timestamp_writable(ctime),
                        block_device.reads_ok() == old(block_device).reads_ok(),
                        block_device.writes_ok() == old(block_device).writes_ok(),
                        block_device.blocks().len() == dev0.len(),
                        old(block_device).reads_ok() && old(block_device).writes_ok() && v0.on_device(dev0)
                            ==> first_block.0 + dir_size <= dev0.len(),
                        dev0 == old(block_device).blocks(),
                        walk == v0.dir_walk(dev0, dir, DirScan::Free),
                        fat_type == self.kind(),
                        blocks@.len() == 1,
                        blocks@[0].contents@ == blk,
                        blk == dev[block.0 as int],
                        blk.len() == 512,
                        dev == block_device.blocks(),
                        block.0 < dev.len(),
                        block.0 == first_block.0 + i,
                        i < dir_size,
                        free_stop(blk, 0) == free_stop(blk, entry as int),
                        taken is None ==> {
                            &&& dev == dev0
                            &&& *block_device == *old(block_device)
                            &&& *self == v0
                            &&& v0.walk_from(dev0, DirScan::Free, first_block.0 as int, dir_size as int, current, steps as nat) == walk
                            &&& seg_stop(dev0, DirScan::Free, first_block.0 as int, dir_size as int, 0)
                                == seg_stop(dev0, DirScan::Free, first_block.0 as int, dir_size as int, i as int)
                        },
                        taken matches Some((c, n)) ==> {
                            &&& i == 0
                            &&& entry == 0
                            &&& blk == zero_block()
                            &&& first_block.0 == v0.cluster_block(n)
                            &&& extending(v0, dev0, walk, c, n, dev, *self)
                        },
                    decreases 16 - entry,
                {
                    let start = entry * 32;
                    let free: bool;
                    {
                        let all: &[u8] = &blocks[0].contents;
                        let dir_entry = OnDiskDirEntry::new(
                            vstd::slice::slice_subrange(all, start, start + 32),
                        );
                        assert(dir_entry.bytes()[0] == blk[32 * entry]);
                        free = !dir_entry.is_valid();
                    }
                    if free {
                        let new_entry = DirEntry::new(
                            name,
                            attributes,
                            ClusterId(0),
                            ctime,
                            block,
                            start as u32,
                        );
                        let data = new_entry.serialize(fat_type);
                        store_dir_entry(&mut blocks, entry, &data);
                        match block_device.write(&blocks, block) {
                            Ok(()) => {},
                            Err(e) => return Err(Error::DeviceError(e)),
                        }
                        proof {
                            let fin = block_device.blocks()[block.0 as int];
                            assert(fin == blocks@[0].contents@);
                            assert(dir_entry_bytes(fin, entry as int) =~= data@);
                            assert(new_entry.entry_offset / 32 == entry);
                            assert(block_device.blocks() =~= dev.update(block.0 as int, fin));
                            if let Some((c, n)) = taken {
                                reveal(extending);
                                assert(block.0 == v0.cluster_block(n));
                                assert(entry == 0);
                                assert(block_device.blocks() == v0.extended_with(dev0, c, n, new_entry)) by {
                                    reveal(FatVolume::extended_with);
                                }
                                lemma_extension_answer::<D::Error>(
                                    v0,
                                    dev0,
                                    c,
                                    n,
                                    new_entry,
                                    block_device.blocks(),
                                    *self,
                                );
                            } else {
                                assert(free_entry(blk, entry as int));
                                assert(free_stop(blk, entry as int) == entry);
                                assert(scan_stop(DirScan::Free, dev0[block.0 as int]) == entry);
                                assert(seg_stop(dev0, DirScan::Free, first_block.0 as int, dir_size as int, i as int) == i);
                                assert(walk == DirWalk::Stop(block.0 as int, entry as int));
                                assert(entry_bytes(new_entry, v0.kind()) == data@);
                                assert(write_answer::<D::Error>(v0, dev0, walk, Ok(new_entry), block_device.blocks(), *self));
                            }
                        }
                        return Ok(new_entry);
                    }
                    entry = entry + 1;
                }
                i = i + 1;
            }
            match current {
                None => return Err(Error::NotEnoughSpace),
                Some(c) => {
                    if steps >= self.cluster_count {
                        return Err(Error::UnterminatedFatChain);
                    }
                    let n = match self.next_cluster(block_device, c) {
                        Ok(n) => n,
                        Err(Error::EndOfFile) => {
                            proof {
                                assert(walk == DirWalk::ChainEnd(c, true));
                            }
                            match self.alloc_cluster(block_device, Some(c), true) {
                                Ok(n) => {
                                    proof {
                                        taken = Some((c, n));
                                        reveal(extending);
                                        reveal(FatVolume::extended);
                                    }
                                    n
                                },
                                Err(e) => return Err(e),
                            }
                        },
                        Err(_) => {
                            proof {
                                if block_device.reads_ok() && self.on_device(dev0) {
                                    assert(self.fat_block(c.0 as int) < dev0.len());
                                }
                            }
                            return Err(Error::NotEnoughSpace);
                        },
                    };
                    first_block = self.cluster_to_block(n);
                    proof {
                        self.lemma_cluster_blocks_fit(n);
                    }
                    current = Some(n);
                    steps = steps + 1;
                },
            }
        }
    }
}

/// A new entry written first in the cluster that extends a directory's
/// chain is what writing a new entry answers when the chain ends with no
/// free entry.
proof fn lemma_extension_answer<E>(
    v0: FatVolume,
    dev0: Seq<Seq<u8>>,
    c: ClusterId,
    n: ClusterId,
    e: DirEntry,
    after: Seq<Seq<u8>>,
    v_after: FatVolume,
)
    requires
        2 <= n.0 < v0.cluster_count + 2,
        v0.fat_entry(dev0, n.0 as int) == 0,
        e.entry_block.0 == v0.cluster_block(n),
        e.entry_offset == 0,
        after == v0.extended_with(dev0, c, n, e),
        v_after.free_clusters_count == one_fewer(v0.free_clusters_count),
    ensures
        write_answer::<E>(v0, dev0, DirWalk::ChainEnd(c, true), Ok(e), after, v_after),
{
}

/// Stores the 32 bytes `data` as entry `k` of the directory block held in
/// `blocks`.
fn store_dir_entry(blocks: &mut [Block; 1], k: usize, data: &[u8; 32])
    requires
        k < 16,
    ensures
        final(blocks)@.len() == 1,
        final(blocks)@[0].contents@ == with_dir_entry(old(blocks)@[0].contents@, k as int, data@),
{
    let ghost blk = blocks@[0].contents@;
    let start = k * 32;
    let mut j: usize = 0;
    while j < 32
        invariant
            j <= 32,
            start == 32 * k,
            k < 16,
            blocks@.len() == 1,
            blk.len() == 512,
            blocks@[0].contents@.len() == 512,
            forall|x: int|
                0 <= x < 512 && !(start <= x < start + j) ==> blocks@[0].contents@[x] == blk[x],
            forall|x: int| start <= x < start + j ==> blocks@[0].contents@[x] == data@[x - start],
        decreases 32 - j,
    {
        blocks[0].contents[start + j] = data[j];
        j = j + 1;
    }
    assert(blocks@[0].contents@ =~= with_dir_entry(blk, k as int, data@));
}

/// The search of a directory block stops at an entry of the block.
proof fn lemma_find_stop_bounds(blk: Seq<u8>, name: Seq<u8>, i: int)
    requires
        0 <= i <= 16,
    ensures
        i <= find_stop(blk, name, i) <= 16,
        find_stop(blk, name, i) < 16 ==> ends_dir(blk, find_stop(blk, name, i)) || dir_entry_bytes(
            blk,
            find_stop(blk, name, i),
        ).take(11) == name,
    decreases 16 - i,
{
    if i < 16 {
        lemma_find_stop_bounds(blk, name, i + 1);
    }
}

/// An entry written where a directory keeps its entries reads back as the
/// same entry: what `write_new_directory_entry` writes is what
/// `find_directory_entry` and `iterate_dir` read. The law needs the entry's
/// times to be ones FAT stores exactly, and leaves out a directory whose
/// cluster is zero, which reads back as the root directory.
pub proof fn lemma_written_entry_reads_back(dev: Seq<Seq<u8>>, e: DirEntry, fat_type: FatType)
    requires
        e.entry_block.0 < dev.len(),
        dev[e.entry_block.0 as int].len() == 512,
        e.entry_offset % 32 == 0,
        e.entry_offset < 512,
        dir_entry_bytes(dev[e.entry_block.0 as int], (e.entry_offset / 32) as int) == entry_bytes(
            e,
            fat_type,
        ),
        fat_representable(e.ctime),
        fat_representable(e.mtime),
        fat_type == FatType::Fat32 || e.cluster.0 < 65536,
        !(e.cluster.0 == 0 && has_flags(e.attributes.0, 0x10)),
    ensures
        stored_entry(dev, e, fat_type),
{
    lemma_entry_bytes_roundtrip(e, fat_type);
}

/// A deleted entry is no longer listed: once `delete_directory_entry` has
/// marked the entry it found, that entry reads as free, so `iterate_dir`
/// passes it over and a search for a free entry stops at it.
pub proof fn lemma_deleted_entry_unlisted<E>(
    dev: Seq<Seq<u8>>,
    b: int,
    k: int,
    r: Result<(), Error<E>>,
    after: Seq<Seq<u8>>,
)
    requires
        0 <= b < dev.len(),
        dev[b].len() == 512,
        0 <= k < 16,
        delete_answer(dev, DirWalk::Stop(b, k), r, after),
        r is Ok,
    ensures
        free_entry(after[b], k),
        !listed_entry(after[b], k),
        !ends_dir(after[b], k),
        forall|j: int| 0 <= j < after.len() && j != b ==> after[j] == dev[j],
        forall|x: int| 0 <= x < 512 && x != 32 * k ==> after[b][x] == dev[b][x],
{
}


/// When the scan for the end marker stops in block `i` of a run, the run's
/// scan stops there.
proof fn lemma_seg_stop_here(dev: Seq<Seq<u8>>, first: int, size: int, i: int)
    requires
        0 <= i < size,
        scan_stop(DirScan::End, dev[first + i]) < 16,
    ensures
        seg_stop(dev, DirScan::End, first, size, i) == i,
{
}

/// A sequence whose part from `n` on is `x` followed by `t` has `x` at `n`,
/// and `t` from `n + 1` on.
proof fn lemma_skip_step<A>(s: Seq<A>, n: int, x: A, t: Seq<A>)
    requires
        0 <= n <= s.len(),
        s.skip(n) == seq![x] + t,
    ensures
        n < s.len(),
        s[n] == x,
        s.skip(n + 1) == t,
{
    assert(s.skip(n).len() == t.len() + 1);
    assert(s.skip(n)[0] == x);
    assert(s.skip(n + 1) =~= s.skip(n).skip(1));
    assert((seq![x] + t).skip(1) =~= t);
}

} // verus!
