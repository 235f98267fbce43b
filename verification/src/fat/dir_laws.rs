//! Laws that relate the directory operations through the walks they make:
//! a name written into a directory that did not hold it is found where it
//! was written, and a deleted entry is not found again.

use crate::blockdevice::{BlockCount, BlockIdx};
use crate::bytes::le16;
use crate::fat::directory::{
    delete_answer, dir_entry_bytes, ends_dir, find_stop, free_entry, free_stop, scan_stop, search_answer, seg_stop,
    with_dir_entry, write_answer, DirScan, DirWalk,
};
use crate::fat::info::{Fat16Info, FatSpecificInfo};
use crate::fat::ondiskdirentry::{is_entry_of, lemma_entry_bytes_roundtrip};
use crate::fat::volume::{is_fat16_volume_of, root_dir_blocks, FatVolume};
use crate::fat::FatType;
use crate::filesystem::attributes::has_flags;
use crate::filesystem::cluster::ClusterId;
use crate::filesystem::directory::{entry_bytes, DirEntry, Directory};
use crate::filesystem::timestamp::fat_representable;
use crate::Error;
use vstd::prelude::*;

verus! {

/// Where a run of blocks stops, told block by block.
proof fn lemma_seg_stop(dev: Seq<Seq<u8>>, scan: DirScan, first: int, size: int, i: int)
    requires
        0 <= i <= size,
    ensures
        i <= seg_stop(dev, scan, first, size, i) <= size,
        forall|j: int|
            i <= j < seg_stop(dev, scan, first, size, i) ==> #[trigger] scan_stop(scan, dev[first + j])
                >= 16,
        seg_stop(dev, scan, first, size, i) < size ==> scan_stop(
            scan,
            dev[first + seg_stop(dev, scan, first, size, i)],
        ) < 16,
    decreases size - i,
{
    if i < size {
        lemma_seg_stop(dev, scan, first, size, i + 1);
    }
}

/// A run of blocks stops at the first block in which its scan stops.
proof fn lemma_seg_stop_is(dev: Seq<Seq<u8>>, scan: DirScan, first: int, size: int, i: int, m: int)
    requires
        0 <= i <= m <= size,
        forall|j: int| i <= j < m ==> #[trigger] scan_stop(scan, dev[first + j]) >= 16,
        m < size ==> scan_stop(scan, dev[first + m]) < 16,
    ensures
        seg_stop(dev, scan, first, size, i) == m,
    decreases m - i,
{
    if i < m {
        assert(scan_stop(scan, dev[first + i]) >= 16);
        lemma_seg_stop_is(dev, scan, first, size, i + 1, m);
    }
}

/// Where the search of a block for a free entry stops, told entry by entry.
proof fn lemma_free_stop(blk: Seq<u8>, i: int)
    requires
        0 <= i <= 16,
    ensures
        i <= free_stop(blk, i) <= 16,
        forall|j: int| i <= j < free_stop(blk, i) ==> !#[trigger] free_entry(blk, j),
        free_stop(blk, i) < 16 ==> free_entry(blk, free_stop(blk, i)),
    decreases 16 - i,
{
    if i < 16 {
        lemma_free_stop(blk, i + 1);
    }
}

/// Whether the search of a block for `name` goes past entry `j`: it neither
/// ends the directory nor has the name.
spec fn passes(blk: Seq<u8>, name: Seq<u8>, j: int) -> bool {
    !ends_dir(blk, j) && dir_entry_bytes(blk, j).take(11) != name
}

/// Where the search of a block for a name stops, told entry by entry.
proof fn lemma_find_stop(blk: Seq<u8>, name: Seq<u8>, i: int)
    requires
        0 <= i <= 16,
    ensures
        i <= find_stop(blk, name, i) <= 16,
        forall|j: int| i <= j < find_stop(blk, name, i) ==> #[trigger] passes(blk, name, j),
        find_stop(blk, name, i) < 16 ==> ends_dir(blk, find_stop(blk, name, i)) || dir_entry_bytes(
            blk,
            find_stop(blk, name, i),
        ).take(11) == name,
    decreases 16 - i,
{
    if i < 16 {
        lemma_find_stop(blk, name, i + 1);
    }
}

/// The search of a block for a name stops at `k` when no entry before it
/// ends the directory or has the name, and entry `k` has it.
proof fn lemma_find_stop_is(blk: Seq<u8>, name: Seq<u8>, i: int, k: int)
    requires
        0 <= i <= k < 16,
        forall|j: int| i <= j < k ==> #[trigger] passes(blk, name, j),
        dir_entry_bytes(blk, k).take(11) == name,
    ensures
        find_stop(blk, name, i) == k,
    decreases k - i,
{
    if i < k {
        assert(passes(blk, name, i));
        lemma_find_stop_is(blk, name, i + 1, k);
    }
}

/// A block whose entry `kf` is its first free one, and in which no entry
/// before `kf` has the name, stops the search for the name at `kf` once the
/// name is written there.
proof fn lemma_written_name_stops(blk: Seq<u8>, kf: int, data: Seq<u8>, name: Seq<u8>)
    requires
        blk.len() == 512,
        0 <= kf < 16,
        free_stop(blk, 0) == kf,
        find_stop(blk, name, 0) >= kf,
        data.len() == 32,
        data.take(11) == name,
    ensures
        find_stop(with_dir_entry(blk, kf, data), name, 0) == kf,
{
    let blk1 = with_dir_entry(blk, kf, data);
    lemma_free_stop(blk, 0);
    lemma_find_stop(blk, name, 0);
    assert forall|j: int| 0 <= j < kf implies #[trigger] passes(blk1, name, j) by {
        assert(passes(blk, name, j));
        assert(dir_entry_bytes(blk1, j) =~= dir_entry_bytes(blk, j));
        assert(!free_entry(blk, j));
        assert(blk1[32 * j] == blk[32 * j]);
    }
    assert(dir_entry_bytes(blk1, kf).take(11) =~= name);
    lemma_find_stop_is(blk1, name, 0, kf);
}

/// An end marker is a free entry, so the search for a free entry stops at it
/// or before.
proof fn lemma_free_before_end(blk: Seq<u8>, k: int)
    requires
        0 <= k < 16,
        ends_dir(blk, k),
    ensures
        free_stop(blk, 0) <= k,
{
    lemma_free_stop(blk, 0);
    if free_stop(blk, 0) > k {
        assert(!free_entry(blk, k));
    }
}

impl FatVolume {
    /// The volume lies on the device `dev`: every block of it is a block of
    /// the device, of 512 bytes.
    pub open spec fn on_device(&self, dev: Seq<Seq<u8>>) -> bool {
        &&& forall|i: int| 0 <= i < dev.len() ==> #[trigger] dev[i].len() == 512
        &&& forall|c: int| 2 <= c < self.fat_limit() ==> #[trigger] self.fat_block(c) < dev.len()
        &&& forall|c: ClusterId|
            self.addressable(c) ==> #[trigger] self.cluster_block(c) + self.blocks_per_cluster
                <= dev.len()
        &&& match self.fat_specific_info {
            FatSpecificInfo::Fat16(i) => self.lba_start.0 + i.first_root_dir_block.0
                + root_dir_blocks(i.root_entries_count) <= dev.len(),
            FatSpecificInfo::Fat32(_) => true,
        }
    }

    /// Block `b` holds no FAT entry of the volume.
    pub open spec fn apart_from_fat(&self, b: int) -> bool {
        forall|c: int| 2 <= c < self.fat_limit() ==> #[trigger] self.fat_block(c) != b
    }

    /// A walk over blocks of the device that stops, stops at an entry where
    /// its scan stops, in a block of the device.
    proof fn lemma_walk_stop(
        &self,
        dev: Seq<Seq<u8>>,
        scan: DirScan,
        first: int,
        size: int,
        cur: Option<ClusterId>,
        steps: nat,
    )
        requires
            self.wf(),
            self.on_device(dev),
            0 <= first,
            0 <= size,
            first + size <= dev.len(),
            cur matches Some(c) ==> self.addressable(c),
        ensures
            self.walk_from(dev, scan, first, size, cur, steps) matches DirWalk::Stop(b, k) ==> {
                &&& 0 <= b < dev.len()
                &&& k == scan_stop(scan, dev[b])
                &&& k < 16
            },
        decreases self.cluster_count - steps,
    {
        let i = seg_stop(dev, scan, first, size, 0);
        lemma_seg_stop(dev, scan, first, size, 0);
        if i >= size {
            match cur {
                None => {},
                Some(c) => {
                    if steps < self.cluster_count {
                        match self.next_from_entry::<()>(self.fat_entry(dev, c.0 as int)) {
                            Ok(n) => {
                                assert(self.cluster_block(n) + self.blocks_per_cluster <= dev.len());
                                self.lemma_walk_stop(
                                    dev,
                                    scan,
                                    self.cluster_block(n),
                                    self.blocks_per_cluster as int,
                                    Some(n),
                                    steps + 1,
                                );
                            },
                            Err(_) => {},
                        }
                    }
                },
            }
        }
    }

    /// The walk for `name` over `dev1`, which is `dev0` with `name` written
    /// into the entry where the walk for a free entry over `dev0` stops,
    /// stops there, when the walk for `name` over `dev0` finds no entry
    /// with the name.
    proof fn lemma_walk_finds_written(
        &self,
        dev0: Seq<Seq<u8>>,
        dev1: Seq<Seq<u8>>,
        name: Seq<u8>,
        bf: int,
        kf: int,
        data: Seq<u8>,
        first: int,
        size: int,
        cur: Option<ClusterId>,
        steps: nat,
    )
        requires
            self.wf(),
            self.on_device(dev0),
            self.apart_from_fat(bf),
            0 <= first,
            0 <= size,
            first + size <= dev0.len(),
            cur matches Some(c) ==> self.addressable(c),
            self.walk_from(dev0, DirScan::Free, first, size, cur, steps) == DirWalk::Stop(bf, kf),
            kf == free_stop(dev0[bf], 0),
            0 <= bf < dev0.len(),
            0 <= kf < 16,
            !(self.walk_from(dev0, DirScan::Name(name), first, size, cur, steps) matches DirWalk::Stop(
                b,
                k,
            ) && !ends_dir(dev0[b], k)),
            dev1 == dev0.update(bf, with_dir_entry(dev0[bf], kf, data)),
            data.len() == 32,
            data.take(11) == name,
        ensures
            self.walk_from(dev1, DirScan::Name(name), first, size, cur, steps) == DirWalk::Stop(
                bf,
                kf,
            ),
        decreases self.cluster_count - steps,
    {
        let free = DirScan::Free;
        let by_name = DirScan::Name(name);
        let i_f = seg_stop(dev0, free, first, size, 0);
        let i_n = seg_stop(dev0, by_name, first, size, 0);
        lemma_seg_stop(dev0, free, first, size, 0);
        lemma_seg_stop(dev0, by_name, first, size, 0);
        if i_n < i_f {
            let b = first + i_n;
            let k = find_stop(dev0[b], name, 0);
            lemma_find_stop(dev0[b], name, 0);
            if ends_dir(dev0[b], k) {
                lemma_free_before_end(dev0[b], k);
                assert(scan_stop(free, dev0[first + i_n]) >= 16);
            }
            assert(self.walk_from(dev0, by_name, first, size, cur, steps) == DirWalk::Stop(b, k));
        }
        assert forall|j: int| 0 <= j < i_f implies #[trigger] dev1[first + j] == dev0[first + j] by {
            assert(scan_stop(free, dev0[first + j]) >= 16);
        }
        if i_f < size {
            assert(bf == first + i_f);
            if i_n == i_f {
                let k = find_stop(dev0[bf], name, 0);
                lemma_find_stop(dev0[bf], name, 0);
                assert(self.walk_from(dev0, by_name, first, size, cur, steps) == DirWalk::Stop(bf, k));
                lemma_free_before_end(dev0[bf], k);
            } else {
                lemma_find_stop(dev0[bf], name, 0);
                assert(scan_stop(by_name, dev0[first + i_f]) >= 16);
            }
            lemma_written_name_stops(dev0[bf], kf, data, name);
            assert(dev1[bf] == with_dir_entry(dev0[bf], kf, data));
            assert forall|j: int| 0 <= j < i_f implies #[trigger] scan_stop(
                by_name,
                dev1[first + j],
            ) >= 16 by {
                assert(dev1[first + j] == dev0[first + j]);
                assert(scan_stop(by_name, dev0[first + j]) >= 16);
            }
            lemma_seg_stop_is(dev1, by_name, first, size, 0, i_f);
        } else {
            assert forall|j: int| 0 <= j < size implies #[trigger] scan_stop(
                by_name,
                dev1[first + j],
            ) >= 16 by {
                assert(dev1[first + j] == dev0[first + j]);
                assert(scan_stop(by_name, dev0[first + j]) >= 16);
            }
            lemma_seg_stop_is(dev1, by_name, first, size, 0, size);
            match cur {
                None => {},
                Some(c) => {
                    if steps < self.cluster_count {
                        assert(self.fat_block(c.0 as int) != bf);
                        assert(dev1[self.fat_block(c.0 as int)] == dev0[self.fat_block(c.0 as int)]);
                        assert(self.fat_entry(dev1, c.0 as int) == self.fat_entry(dev0, c.0 as int));
                        match self.next_from_entry::<()>(self.fat_entry(dev0, c.0 as int)) {
                            Ok(n) => {
                                assert(self.addressable(n));
                                assert(self.cluster_block(n) + self.blocks_per_cluster <= dev0.len());
                                self.lemma_walk_finds_written(
                                    dev0,
                                    dev1,
                                    name,
                                    bf,
                                    kf,
                                    data,
                                    self.cluster_block(n),
                                    self.blocks_per_cluster as int,
                                    Some(n),
                                    steps + 1,
                                );
                            },
                            Err(_) => {},
                        }
                    }
                },
            }
        }
    }
}

impl FatVolume {
    /// A name that a directory does not hold is found where a new entry for
    /// it is written: once an entry holding `name` is written into the entry
    /// at which the walk over the directory for a free entry stops (where
    /// `write_new_directory_entry` writes when the directory has a free
    /// entry), the search of the directory for `name` stops at that entry.
    /// The law asks that the volume lie on the device, and that the block
    /// written hold no FAT entry.
    pub proof fn lemma_written_name_found(
        &self,
        dev0: Seq<Seq<u8>>,
        dir: &Directory,
        name: Seq<u8>,
        data: Seq<u8>,
    )
        requires
            self.wf(),
            self.dir_addressable(dir),
            self.on_device(dev0),
            self.dir_walk(dev0, dir, DirScan::Free) matches DirWalk::Stop(bf, kf)
                && self.apart_from_fat(bf),
            !(self.dir_walk(dev0, dir, DirScan::Name(name)) matches DirWalk::Stop(b, k) && !ends_dir(
                dev0[b],
                k,
            )),
            data.len() == 32,
            data.take(11) == name,
        ensures
            self.dir_walk(dev0, dir, DirScan::Free) matches DirWalk::Stop(bf, kf) ==> self.dir_walk(
                dev0.update(bf, with_dir_entry(dev0[bf], kf, data)),
                dir,
                DirScan::Name(name),
            ) == DirWalk::Stop(bf, kf),
    {
        let (first, size, cur) = self.dir_seg(dir);
        let w = self.dir_walk(dev0, dir, DirScan::Free);
        match self.fat_specific_info {
            FatSpecificInfo::Fat16(_) => {},
            FatSpecificInfo::Fat32(i) => {
                assert(self.valid_cluster(i.first_root_dir_cluster));
            },
        }
        assert(0 <= first && 0 <= size && first + size <= dev0.len());
        self.lemma_walk_stop(dev0, DirScan::Free, first, size, cur, 0);
        if let DirWalk::Stop(bf, kf) = w {
            lemma_free_stop(dev0[bf], 0);
            self.lemma_walk_finds_written(
                dev0,
                dev0.update(bf, with_dir_entry(dev0[bf], kf, data)),
                name,
                bf,
                kf,
                data,
                first,
                size,
                cur,
                0,
            );
        }
    }
}

/// An entry read from the bytes that entry `e` is written as is `e`, when
/// `e` reads back as itself.
proof fn lemma_read_back_is(x: DirEntry, e: DirEntry, fat_type: FatType)
    requires
        is_entry_of(x, entry_bytes(e, fat_type), fat_type, e.entry_block, e.entry_offset),
        fat_representable(e.ctime),
        fat_representable(e.mtime),
        fat_type == FatType::Fat32 || e.cluster.0 < 65536,
        !(e.cluster.0 == 0 && has_flags(e.attributes.0, 0x10)),
    ensures
        x == e,
{
    lemma_entry_bytes_roundtrip(e, fat_type);
    lemma_same_entry(x, e, entry_bytes(e, fat_type), fat_type, e.entry_block, e.entry_offset);
}

/// Two entries read from the same bytes at the same place are the same.
proof fn lemma_same_entry(
    x: DirEntry,
    e: DirEntry,
    d: Seq<u8>,
    fat_type: FatType,
    b: BlockIdx,
    o: u32,
)
    requires
        is_entry_of(x, d, fat_type, b, o),
        is_entry_of(e, d, fat_type, b, o),
    ensures
        x == e,
{
    assert(x.ctime == e.ctime);
    assert(x.mtime == e.mtime);
    assert(x.cluster == e.cluster);
    assert(x.size == e.size);
    assert(x.attributes == e.attributes);
    assert(x.name.contents =~= e.name.contents);
}

impl FatVolume {
    /// Where a new entry is written into a directory with a free entry, the
    /// device holds it afterwards, and the volume is unchanged.
    proof fn lemma_written_in_place<E>(
        &self,
        dev0: Seq<Seq<u8>>,
        bf: int,
        kf: int,
        e: DirEntry,
        dev1: Seq<Seq<u8>>,
        v1: FatVolume,
    )
        requires
            write_answer::<E>(*self, dev0, DirWalk::Stop(bf, kf), Ok(e), dev1, v1),
        ensures
            v1 == *self,
            e.entry_block.0 == bf,
            e.entry_offset == 32 * kf,
            dev1 == dev0.update(bf, with_dir_entry(dev0[bf], kf, entry_bytes(e, self.kind()))),
    {
    }
}

impl FatVolume {
    /// What `write_new_directory_entry` writes, `find_directory_entry`
    /// finds: when directory `dir` held no entry with the new entry's name
    /// and had a free entry, the search of the device that the write left
    /// for that name answers the entry written, and nothing else. The law
    /// asks that the volume lie on the device, that the block written hold
    /// no FAT entry, that the name not start with a zero byte (which marks
    /// the end of a directory), and that the entry read back as itself: its
    /// creation time one that FAT stores exactly, and not a directory (a
    /// directory entry with cluster zero reads back as the root directory).
    pub proof fn lemma_write_then_find<E>(
        &self,
        dev0: Seq<Seq<u8>>,
        dir: &Directory,
        e: DirEntry,
        dev1: Seq<Seq<u8>>,
        v1: FatVolume,
    )
        requires
            self.wf(),
            self.dir_addressable(dir),
            self.on_device(dev0),
            self.dir_walk(dev0, dir, DirScan::Free) matches DirWalk::Stop(bf, kf)
                && self.apart_from_fat(bf),
            write_answer::<E>(*self, dev0, self.dir_walk(dev0, dir, DirScan::Free), Ok(e), dev1, v1),
            !(self.dir_walk(dev0, dir, DirScan::Name(e.name.contents@)) matches DirWalk::Stop(b, k)
                && !ends_dir(dev0[b], k)),
            e.name.contents@[0] != 0,
            e.mtime == e.ctime,
            e.cluster.0 == 0,
            fat_representable(e.ctime),
            !has_flags(e.attributes.0, 0x10),
        ensures
            forall|r: Result<DirEntry, Error<E>>|
                search_answer::<E>(
                    dev1,
                    v1.dir_walk(dev1, dir, DirScan::Name(e.name.contents@)),
                    v1.kind(),
                    r,
                ) ==> r == Ok::<DirEntry, Error<E>>(e),
    {
        let name = e.name.contents@;
        let data = entry_bytes(e, self.kind());
        if let DirWalk::Stop(bf, kf) = self.dir_walk(dev0, dir, DirScan::Free) {
            self.lemma_written_in_place::<E>(dev0, bf, kf, e, dev1, v1);
            assert(data.len() == 32);
            assert(data.take(11) =~= name);
            self.lemma_written_name_found(dev0, dir, name, data);
            lemma_free_stop(dev0[bf], 0);
            let (first, size, cur) = self.dir_seg(dir);
            match self.fat_specific_info {
                FatSpecificInfo::Fat16(_) => {},
                FatSpecificInfo::Fat32(i) => {
                    assert(self.valid_cluster(i.first_root_dir_cluster));
                },
            }
            self.lemma_walk_stop(dev0, DirScan::Free, first, size, cur, 0);
            assert(dev1[bf] == with_dir_entry(dev0[bf], kf, data));
            assert(dir_entry_bytes(dev1[bf], kf) =~= data);
            assert(!ends_dir(dev1[bf], kf)) by {
                assert(dev1[bf][32 * kf] == data[0]);
                assert(data[0] == name[0]);
            }
            assert forall|r: Result<DirEntry, Error<E>>|
                search_answer::<E>(
                    dev1,
                    v1.dir_walk(dev1, dir, DirScan::Name(name)),
                    v1.kind(),
                    r,
                ) implies r == Ok::<DirEntry, Error<E>>(e) by {
                let x = r->Ok_0;
                assert(BlockIdx(bf as u32) == e.entry_block);
                assert((32 * kf) as u32 == e.entry_offset);
                lemma_read_back_is(x, e, self.kind());
            }
        }
    }
}

impl FatVolume {
    /// A deleted entry is not found again: once the entry at which the
    /// search of directory `dir` for `name` stopped is marked as deleted
    /// (which `delete_directory_entry` does), the search for `name` no
    /// longer stops at that entry. The law asks that the volume lie on the
    /// device and that the name not start with the deletion mark 0xE5.
    pub proof fn lemma_deleted_not_found(
        &self,
        dev0: Seq<Seq<u8>>,
        dir: &Directory,
        name: Seq<u8>,
        b: int,
        k: int,
    )
        requires
            self.wf(),
            self.dir_addressable(dir),
            self.on_device(dev0),
            self.dir_walk(dev0, dir, DirScan::Name(name)) == DirWalk::Stop(b, k),
            name.len() == 11,
            name[0] != 0xE5,
        ensures
            self.dir_walk(dev0.update(b, dev0[b].update(32 * k, 0xE5)), dir, DirScan::Name(name))
                != DirWalk::Stop(b, k),
    {
        let dev1 = dev0.update(b, dev0[b].update(32 * k, 0xE5));
        let (first, size, cur) = self.dir_seg(dir);
        match self.fat_specific_info {
            FatSpecificInfo::Fat16(_) => {},
            FatSpecificInfo::Fat32(i) => {
                assert(self.valid_cluster(i.first_root_dir_cluster));
            },
        }
        self.lemma_walk_stop(dev0, DirScan::Name(name), first, size, cur, 0);
        lemma_find_stop(dev0[b], name, 0);
        assert forall|i: int| 0 <= i < dev1.len() implies #[trigger] dev1[i].len() == 512 by {
            assert(dev0[i].len() == 512);
        }
        assert(self.on_device(dev1));
        self.lemma_walk_stop(dev1, DirScan::Name(name), first, size, cur, 0);
        if self.dir_walk(dev1, dir, DirScan::Name(name)) == DirWalk::Stop(b, k) {
            lemma_find_stop(dev1[b], name, 0);
            assert(dev1[b][32 * k] == 0xE5);
            assert(dir_entry_bytes(dev1[b], k).take(11)[0] == 0xE5);
        }
    }
}


/// Deleting a name does to the directory what looking the name up finds:
/// `find_directory_entry` and `delete_directory_entry` answer over the same
/// walk of the directory for the name (`search_answer` and
/// `delete_answer`; on a device that promises `reads_ok` and holds the
/// volume, always). Where the lookup gives the entry `e`, the deletion
/// succeeds and marks only `e`'s entry, its first byte set to 0xE5; where
/// the lookup finds nothing, or the chain does not end, the deletion gives
/// the same error and changes nothing.
pub proof fn lemma_lookup_then_delete<E>(
    dev: Seq<Seq<u8>>,
    walk: DirWalk,
    fat_type: FatType,
    found: Result<DirEntry, Error<E>>,
    deleted: Result<(), Error<E>>,
    after: Seq<Seq<u8>>,
)
    requires
        search_answer::<E>(dev, walk, fat_type, found),
        delete_answer::<E>(dev, walk, deleted, after),
    ensures
        found is Ok ==> deleted is Ok,
        found matches Ok(e) ==> (walk matches DirWalk::Stop(b, k) && {
            &&& e.entry_block == BlockIdx(b as u32)
            &&& e.entry_offset == (32 * k) as u32
            &&& after == dev.update(b, dev[b].update(32 * k, 0xE5))
        }),
        found == Err::<DirEntry, Error<E>>(Error::NotFound) ==> deleted == Err::<(), Error<E>>(
            Error::NotFound,
        ) && after == dev,
        found == Err::<DirEntry, Error<E>>(Error::UnterminatedFatChain) ==> deleted == Err::<
            (),
            Error<E>,
        >(Error::UnterminatedFatChain) && after == dev,
{
}

impl FatVolume {
    /// The fixed root directory of a FAT16 volume is walked from its first
    /// block over as many blocks as its `root_entries_count` entries of 32
    /// bytes take: enough blocks of 512 bytes to hold them all, and not one
    /// more.
    pub proof fn lemma_root_dir_extent(&self, dir: &Directory, i: Fat16Info)
        requires
            self.fat_specific_info == FatSpecificInfo::Fat16(i),
            dir.cluster.0 == ClusterId::ROOT_DIR,
        ensures
            self.dir_seg(dir).0 == self.lba_start.0 + i.first_root_dir_block.0,
            self.dir_seg(dir).2 is None,
            self.dir_seg(dir).1 * 512 >= i.root_entries_count * 32,
            self.dir_seg(dir).1 * 512 < i.root_entries_count * 32 + 512,
    {
        let n = i.root_entries_count * 32;
        assert(((n + 511) / 512) * 512 >= n && ((n + 511) / 512) * 512 < n + 512) by (nonlinear_arith)
            requires
                n >= 0,
        ;
    }

    /// Every block of the fixed root directory of a FAT16 volume that holds
    /// some of its `root_entries_count` entries is searched: when the scan
    /// stops in block `j` of the root directory and in none before it, the
    /// walk over the root directory stops there.
    pub proof fn lemma_root_dir_block_reached(
        &self,
        dev: Seq<Seq<u8>>,
        dir: &Directory,
        scan: DirScan,
        i: Fat16Info,
        j: int,
    )
        requires
            self.fat_specific_info == FatSpecificInfo::Fat16(i),
            dir.cluster.0 == ClusterId::ROOT_DIR,
            0 <= j,
            j * 512 < i.root_entries_count * 32,
            scan_stop(scan, dev[self.lba_start.0 + i.first_root_dir_block.0 + j]) < 16,
            forall|m: int|
                0 <= m < j ==> #[trigger] scan_stop(scan, dev[self.lba_start.0 + i.first_root_dir_block.0 + m])
                    >= 16,
        ensures
            self.dir_walk(dev, dir, scan) == DirWalk::Stop(
                self.lba_start.0 + i.first_root_dir_block.0 + j,
                scan_stop(scan, dev[self.lba_start.0 + i.first_root_dir_block.0 + j]),
            ),
    {
        self.lemma_root_dir_extent(dir, i);
        let (first, size, cur) = self.dir_seg(dir);
        assert(j < size) by (nonlinear_arith)
            requires
                j * 512 < i.root_entries_count * 32,
                size * 512 >= i.root_entries_count * 32,
        ;
        assert forall|m: int| 0 <= m < j implies #[trigger] scan_stop(scan, dev[first + m]) >= 16 by {
            assert(scan_stop(scan, dev[self.lba_start.0 + i.first_root_dir_block.0 + m]) >= 16);
        }
        lemma_seg_stop_is(dev, scan, first, size, 0, j);
    }

    /// On a FAT16 volume laid out by a Boot Parameter Block, the fixed root
    /// directory that is walked fills exactly the blocks between its first
    /// block and the start of the data region.
    pub proof fn lemma_root_dir_ends_at_data(
        &self,
        dir: &Directory,
        d: Seq<u8>,
        lba_start: BlockIdx,
        num_blocks: BlockCount,
        cluster_count: u32,
    )
        requires
            is_fat16_volume_of(*self, d, lba_start, num_blocks, cluster_count),
            dir.cluster.0 == ClusterId::ROOT_DIR,
        ensures
            self.dir_seg(dir).0 + self.dir_seg(dir).1 == self.lba_start.0 + self.first_data_block.0,
    {
        let e = le16(d, 17);
        assert(0 <= e < 0x10000) by {
            assert(0 <= d[17] < 256 && 0 <= d[18] < 256);
        }
    }
}

} // verus!
