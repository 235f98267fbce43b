//! Tests of the volume logic on a FAT16 volume held in memory.

use embedded_sdmmc::blockdevice::{Block, BlockCount, BlockDevice, BlockIdx};
use embedded_sdmmc::fat::volume::{parse_volume, FatVolume};
use embedded_sdmmc::fat::FatType;
use embedded_sdmmc::filesystem::attributes::Attributes;
use embedded_sdmmc::filesystem::cluster::ClusterId;
use embedded_sdmmc::filesystem::directory::{DirEntry, Directory};
use embedded_sdmmc::filesystem::filename::{FilenameError, ShortFileName};
use embedded_sdmmc::filesystem::timestamp::{TimeSource, Timestamp};
use embedded_sdmmc::{Error, VolumeType};

/// A device whose blocks are held in memory.
struct RamDisk {
    blocks: Vec<[u8; 512]>,
}

impl BlockDevice for RamDisk {
    type Error = ();

    fn read(&self, blocks: &mut [Block], start_block_idx: BlockIdx) -> Result<(), ()> {
        for (i, b) in blocks.iter_mut().enumerate() {
            let idx = start_block_idx.0 as usize + i;
            if idx >= self.blocks.len() {
                return Err(());
            }
            b.contents = self.blocks[idx];
        }
        Ok(())
    }

    fn write(&mut self, blocks: &[Block], start_block_idx: BlockIdx) -> Result<(), ()> {
        for (i, b) in blocks.iter().enumerate() {
            let idx = start_block_idx.0 as usize + i;
            if idx >= self.blocks.len() {
                return Err(());
            }
            self.blocks[idx] = b.contents;
        }
        Ok(())
    }

    fn num_blocks(&self) -> Result<BlockCount, ()> {
        Ok(BlockCount(self.blocks.len() as u32))
    }
}

struct FixedTime;

impl TimeSource for FixedTime {
    fn get_timestamp(&self) -> Timestamp {
        Timestamp::from_calendar(2024, 5, 17, 12, 30, 10).unwrap()
    }
}

const TOTAL_BLOCKS: u16 = 4150;
const FAT_BLOCKS: u16 = 17;
const ROOT_ENTRIES: u16 = 512;

/// A freshly formatted FAT16 volume: one reserved block, one FAT of 17
/// blocks, a 512-entry root directory and 4100 one-block clusters.
fn formatted() -> RamDisk {
    let mut blocks = vec![[0u8; 512]; TOTAL_BLOCKS as usize];
    let b = &mut blocks[0];
    b[0..3].copy_from_slice(&[0xEB, 0x3C, 0x90]);
    b[3..11].copy_from_slice(b"mkfs.fat");
    b[11..13].copy_from_slice(&512u16.to_le_bytes());
    b[13] = 1;
    b[14..16].copy_from_slice(&1u16.to_le_bytes());
    b[16] = 1;
    b[17..19].copy_from_slice(&ROOT_ENTRIES.to_le_bytes());
    b[19..21].copy_from_slice(&TOTAL_BLOCKS.to_le_bytes());
    b[21] = 0xF8;
    b[22..24].copy_from_slice(&FAT_BLOCKS.to_le_bytes());
    b[38] = 0x29;
    b[43..54].copy_from_slice(b"TESTVOLUME ");
    b[54..62].copy_from_slice(b"FAT16   ");
    b[510] = 0x55;
    b[511] = 0xAA;
    // The two reserved FAT entries.
    blocks[1][0..4].copy_from_slice(&[0xF8, 0xFF, 0xFF, 0xFF]);
    RamDisk { blocks }
}

fn open(disk: &RamDisk) -> FatVolume {
    match parse_volume(disk, BlockIdx(0), BlockCount(TOTAL_BLOCKS as u32)) {
        Ok(VolumeType::Fat(v)) => v,
        Err(e) => panic!("parse failed: {:?}", e),
    }
}

fn root() -> Directory {
    Directory { cluster: ClusterId(ClusterId::ROOT_DIR), entry: None }
}

fn fat_entry(disk: &RamDisk, cluster: u32) -> u16 {
    let off = cluster as usize * 2;
    let blk = &disk.blocks[1 + off / 512];
    u16::from_le_bytes([blk[off % 512], blk[off % 512 + 1]])
}

#[test]
fn parse_volume_reads_fat16_layout() {
    let disk = formatted();
    let v = open(&disk);
    assert_eq!(v.get_fat_type(), FatType::Fat16);
    assert_eq!(v.cluster_count, 4100);
    assert_eq!(v.blocks_per_cluster, 1);
    assert_eq!(v.fat_start, BlockCount(1));
    assert_eq!(v.first_data_block, BlockCount(1 + 17 + 32));
    assert_eq!(&v.name.data, b"TESTVOLUME ");
    assert_eq!(v.bytes_per_cluster(), 512);
    assert_eq!(v.cluster_to_block(ClusterId(2)), BlockIdx(50));
    assert_eq!(v.cluster_to_block(ClusterId(ClusterId::ROOT_DIR)), BlockIdx(18));
}

#[test]
fn parse_volume_refuses_bad_footer_and_block_size() {
    let mut disk = formatted();
    disk.blocks[0][510] = 0;
    assert!(matches!(
        parse_volume(&disk, BlockIdx(0), BlockCount(TOTAL_BLOCKS as u32)),
        Err(Error::FormatError("Bad BPB footer"))
    ));
    let mut disk = formatted();
    disk.blocks[0][11..13].copy_from_slice(&1024u16.to_le_bytes());
    assert!(matches!(
        parse_volume(&disk, BlockIdx(0), BlockCount(TOTAL_BLOCKS as u32)),
        Err(Error::BadBlockSize(1024))
    ));
    let mut disk = formatted();
    disk.blocks[0][13] = 0;
    assert!(matches!(
        parse_volume(&disk, BlockIdx(0), BlockCount(TOTAL_BLOCKS as u32)),
        Err(Error::FormatError("Bad BPB geometry"))
    ));
    let disk = RamDisk { blocks: vec![] };
    assert!(matches!(
        parse_volume(&disk, BlockIdx(0), BlockCount(0)),
        Err(Error::DeviceError(()))
    ));
}

#[test]
fn directory_entries_are_written_found_listed_and_deleted() {
    let mut disk = formatted();
    let mut v = open(&disk);
    let name = ShortFileName::create_from_str("HELLO.TXT").unwrap();
    let entry = v
        .write_new_directory_entry(&mut disk, &FixedTime, &root(), name, Attributes::create_from_fat(Attributes::ARCHIVE))
        .unwrap();
    assert_eq!(entry.name, name);
    assert_eq!(entry.entry_block, BlockIdx(18));
    assert_eq!(entry.entry_offset, 0);
    assert_eq!(entry.size, 0);
    let found = v.find_directory_entry(&disk, &root(), "hello.txt").unwrap();
    assert_eq!(found, entry);
    let mut listed: Vec<DirEntry> = Vec::new();
    v.iterate_dir(&disk, &root(), |e: &DirEntry| listed.push(*e)).unwrap();
    assert_eq!(listed, vec![entry]);
    let second = v
        .write_new_directory_entry(&mut disk, &FixedTime, &root(), ShortFileName::create_from_str("B").unwrap(), Attributes::create_from_fat(0))
        .unwrap();
    assert_eq!(second.entry_offset, 32);
    v.delete_directory_entry(&mut disk, &root(), "HELLO.TXT").unwrap();
    assert!(matches!(v.find_directory_entry(&disk, &root(), "HELLO.TXT"), Err(Error::NotFound)));
    assert_eq!(disk.blocks[18][0], 0xE5);
    // The deleted entry is free again: the next new entry goes there.
    let third = v
        .write_new_directory_entry(&mut disk, &FixedTime, &root(), ShortFileName::create_from_str("C").unwrap(), Attributes::create_from_fat(0))
        .unwrap();
    assert_eq!(third.entry_offset, 0);
    assert!(matches!(
        v.find_directory_entry(&disk, &root(), "a/b"),
        Err(Error::FilenameError(FilenameError::InvalidCharacter))
    ));
    assert!(matches!(v.delete_directory_entry(&mut disk, &root(), "NONE"), Err(Error::NotFound)));
}

#[test]
fn clusters_are_allocated_chained_and_freed() {
    let mut disk = formatted();
    let mut v = open(&disk);
    let first = v.alloc_cluster(&mut disk, None, false).unwrap();
    assert_eq!(first, ClusterId(2));
    assert_eq!(fat_entry(&disk, 2), 0xFFFF);
    assert_eq!(v.next_free_cluster, Some(ClusterId(3)));
    let second = v.alloc_cluster(&mut disk, Some(first), true).unwrap();
    assert_eq!(second, ClusterId(3));
    assert_eq!(fat_entry(&disk, 2), 3);
    assert_eq!(v.next_cluster(&disk, first), Ok(ClusterId(3)));
    assert!(matches!(v.next_cluster(&disk, second), Err(Error::EndOfFile)));
    let third = v.alloc_cluster(&mut disk, Some(second), false).unwrap();
    assert_eq!(third, ClusterId(4));
    v.free_clusters_count = Some(100);
    v.truncate_cluster_chain(&mut disk, first).unwrap();
    // Clusters 3 and 4 were freed.
    assert_eq!(v.free_clusters_count, Some(102));
    assert_eq!(fat_entry(&disk, 2), 0xFFFF);
    assert_eq!(fat_entry(&disk, 3), 0);
    assert_eq!(fat_entry(&disk, 4), 0);
    assert_eq!(v.next_free_cluster, Some(ClusterId(3)));
    assert_eq!(v.find_next_free_cluster(&disk, ClusterId(2), ClusterId(4102)), Ok(ClusterId(3)));
}

#[test]
fn fat_entries_read_back_what_was_written() {
    let mut disk = formatted();
    let v = open(&disk);
    v.update_fat(&mut disk, ClusterId(300), ClusterId(301)).unwrap();
    v.update_fat(&mut disk, ClusterId(301), ClusterId(ClusterId::END_OF_FILE)).unwrap();
    assert_eq!(v.next_cluster(&disk, ClusterId(300)), Ok(ClusterId(301)));
    assert!(matches!(v.next_cluster(&disk, ClusterId(301)), Err(Error::EndOfFile)));
    v.update_fat(&mut disk, ClusterId(302), ClusterId(ClusterId::BAD)).unwrap();
    assert!(matches!(v.next_cluster(&disk, ClusterId(302)), Err(Error::BadCluster)));
    // Neighbouring entries are untouched.
    assert_eq!(fat_entry(&disk, 299), 0);
    assert_eq!(fat_entry(&disk, 303), 0);
}

#[test]
fn full_volume_reports_not_enough_space() {
    let mut disk = formatted();
    let mut v = open(&disk);
    for c in 2..4102u32 {
        let off = c as usize * 2;
        disk.blocks[1 + off / 512][off % 512] = 0xFF;
        disk.blocks[1 + off / 512][off % 512 + 1] = 0xFF;
    }
    assert!(matches!(
        v.find_next_free_cluster(&disk, ClusterId(2), ClusterId(2)),
        Err(Error::NotEnoughSpace)
    ));
    // The free entry that follows the last cluster in the same FAT block
    // names no cluster of the volume.
    assert_eq!(v.alloc_cluster(&mut disk, None, false), Err(Error::NotEnoughSpace));
    // Freed clusters are found again, the lowest first.
    for c in [4000usize, 4001] {
        disk.blocks[1 + c * 2 / 512][c * 2 % 512] = 0;
        disk.blocks[1 + c * 2 / 512][c * 2 % 512 + 1] = 0;
    }
    assert_eq!(v.alloc_cluster(&mut disk, None, false), Ok(ClusterId(4000)));
    assert_eq!(v.next_free_cluster, Some(ClusterId(4001)));
}

#[test]
fn alloc_clusters_builds_a_chain() {
    let mut disk = formatted();
    let mut v = open(&disk);
    let head = v.alloc_cluster(&mut disk, None, false).unwrap();
    assert_eq!(head, ClusterId(2));
    let before = v.free_clusters_count;
    v.alloc_clusters(&mut disk, Some(head), 3, false).unwrap();
    assert_eq!(v.next_cluster(&disk, ClusterId(2)), Ok(ClusterId(3)));
    assert_eq!(v.next_cluster(&disk, ClusterId(3)), Ok(ClusterId(4)));
    assert_eq!(v.next_cluster(&disk, ClusterId(4)), Ok(ClusterId(5)));
    assert!(matches!(v.next_cluster(&disk, ClusterId(5)), Err(Error::EndOfFile)));
    assert_eq!(v.free_clusters_count, before.map(|c| c - 3));
    // Allocating nothing changes nothing.
    let blocks = disk.blocks.clone();
    v.alloc_clusters(&mut disk, Some(ClusterId(5)), 0, true).unwrap();
    assert_eq!(disk.blocks, blocks);
}

#[test]
fn directory_grows_by_a_cluster_and_is_searched_across_it() {
    let mut disk = formatted();
    let mut v = open(&disk);
    // A subdirectory in cluster 2, one block per cluster: 16 entries.
    let dir_cluster = v.alloc_cluster(&mut disk, None, true).unwrap();
    let dir = Directory { cluster: dir_cluster, entry: None };
    let mut written = Vec::new();
    for i in 0..17u8 {
        let name = ShortFileName::create_from_str(&format!("F{}", i)).unwrap();
        let e = v
            .write_new_directory_entry(&mut disk, &FixedTime, &dir, name, Attributes::create_from_fat(0))
            .unwrap();
        written.push(e);
    }
    // The seventeenth entry went first into a new, zeroed cluster linked
    // after the directory's cluster.
    let next = v.next_cluster(&disk, dir_cluster).unwrap();
    assert_eq!(written[16].entry_block, v.cluster_to_block(next));
    assert_eq!(written[16].entry_offset, 0);
    assert_eq!(written[15].entry_offset, 15 * 32);
    // The search walks into the second cluster.
    assert_eq!(v.find_directory_entry(&disk, &dir, "F16"), Ok(written[16]));
    assert_eq!(v.find_directory_entry(&disk, &dir, "F3"), Ok(written[3]));
    assert!(matches!(v.find_directory_entry(&disk, &dir, "F17"), Err(Error::NotFound)));
    let mut listed: Vec<DirEntry> = Vec::new();
    v.iterate_dir(&disk, &dir, |e: &DirEntry| listed.push(*e)).unwrap();
    assert_eq!(listed, written);
    // Deleting in the second cluster marks that entry only.
    v.delete_directory_entry(&mut disk, &dir, "F16").unwrap();
    assert!(matches!(v.find_directory_entry(&disk, &dir, "F16"), Err(Error::NotFound)));
    let mut listed: Vec<DirEntry> = Vec::new();
    v.iterate_dir(&disk, &dir, |e: &DirEntry| listed.push(*e)).unwrap();
    assert_eq!(listed.len(), 16);
    assert_eq!(v.list_dir(&disk, &dir).unwrap(), listed);
}

#[test]
fn listing_skips_deleted_and_long_name_entries_and_stops_at_the_end() {
    let mut disk = formatted();
    let mut v = open(&disk);
    let mut written = Vec::new();
    for n in ["A", "B", "C", "D"] {
        let name = ShortFileName::create_from_str(n).unwrap();
        written.push(
            v.write_new_directory_entry(&mut disk, &FixedTime, &root(), name, Attributes::create_from_fat(0))
                .unwrap(),
        );
    }
    v.delete_directory_entry(&mut disk, &root(), "B").unwrap();
    // Entry C becomes a long file name fragment.
    disk.blocks[18][2 * 32 + 11] = Attributes::LFN;
    // An entry after an end marker is not listed.
    disk.blocks[18][5 * 32] = b'Z';
    let listed = v.list_dir(&disk, &root()).unwrap();
    assert_eq!(listed, vec![written[0], written[3]]);
    let mut called: Vec<DirEntry> = Vec::new();
    v.iterate_dir(&disk, &root(), |e: &DirEntry| called.push(*e)).unwrap();
    assert_eq!(called, listed);
}

#[test]
fn fixed_root_directory_does_not_grow() {
    let mut disk = formatted();
    let mut v = open(&disk);
    // Fill every entry of the 32-block root directory.
    for b in 18..50usize {
        for k in 0..16usize {
            disk.blocks[b][k * 32] = b'X';
        }
    }
    let name = ShortFileName::create_from_str("NEW").unwrap();
    assert!(matches!(
        v.write_new_directory_entry(&mut disk, &FixedTime, &root(), name, Attributes::create_from_fat(0)),
        Err(Error::NotEnoughSpace)
    ));
    assert!(matches!(v.find_directory_entry(&disk, &root(), "NEW"), Err(Error::NotFound)));
}

/// A device that holds one block, at a chosen index.
struct OneBlockDisk {
    idx: u32,
    block: [u8; 512],
}

impl BlockDevice for OneBlockDisk {
    type Error = ();

    fn read(&self, blocks: &mut [Block], start_block_idx: BlockIdx) -> Result<(), ()> {
        if blocks.len() == 1 && start_block_idx.0 == self.idx {
            blocks[0].contents = self.block;
            Ok(())
        } else {
            Err(())
        }
    }

    fn write(&mut self, _blocks: &[Block], _start_block_idx: BlockIdx) -> Result<(), ()> {
        Err(())
    }

    fn num_blocks(&self) -> Result<BlockCount, ()> {
        Ok(BlockCount(self.idx + 1))
    }
}

#[test]
fn parse_volume_accepts_a_volume_near_the_top_of_the_address_range() {
    let idx = u32::MAX - 100;
    let disk = OneBlockDisk { idx, block: formatted().blocks[0] };
    match parse_volume(&disk, BlockIdx(idx), BlockCount(TOTAL_BLOCKS as u32)) {
        Ok(VolumeType::Fat(v)) => {
            assert_eq!(v.lba_start, BlockIdx(idx));
            assert_eq!(v.cluster_count, 4100);
            assert_eq!(v.first_data_block, BlockCount(1 + 17 + 32));
            // Its blocks do not all have 32-bit addresses.
            assert!(!v.fits());
        },
        Err(e) => panic!("parse failed: {:?}", e),
    }
    let disk = OneBlockDisk { idx: 0, block: formatted().blocks[0] };
    match parse_volume(&disk, BlockIdx(0), BlockCount(TOTAL_BLOCKS as u32)) {
        Ok(VolumeType::Fat(v)) => assert!(v.fits()),
        Err(e) => panic!("parse failed: {:?}", e),
    }
}

#[test]
fn new_entry_carries_the_time_it_is_given() {
    let mut disk = formatted();
    let mut v = open(&disk);
    let t = Timestamp::from_calendar(2001, 2, 3, 4, 5, 6).unwrap();
    let name = ShortFileName::create_from_str("T.TXT").unwrap();
    let e = v
        .write_new_entry_at(&mut disk, &root(), name, Attributes::create_from_fat(0), t)
        .unwrap();
    assert_eq!(e.ctime, t);
    assert_eq!(e.mtime, t);
    let found = v.find_directory_entry(&disk, &root(), "T.TXT").unwrap();
    assert_eq!(found.ctime, t);
    // The time source is asked for the time of a new entry.
    let e2 = v
        .write_new_directory_entry(
            &mut disk,
            &FixedTime,
            &root(),
            ShortFileName::create_from_str("U").unwrap(),
            Attributes::create_from_fat(0),
        )
        .unwrap();
    assert_eq!(e2.ctime, FixedTime.get_timestamp());
}

#[test]
fn info_sector_update_on_fat16_touches_nothing() {
    let mut disk = formatted();
    let mut v = open(&disk);
    v.free_clusters_count = Some(5);
    let before = disk.blocks.clone();
    assert!(v.update_info_sector(&mut disk).is_ok());
    assert!(disk.blocks == before);
}
