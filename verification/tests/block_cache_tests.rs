//! Tests of the one-block cache in front of a block device.

use embedded_sdmmc::{Block, BlockCache, BlockCount, BlockDevice, BlockIdx};
use std::cell::Cell;

/// A device held in memory that counts how often it is read.
struct CountingDisk {
    blocks: Vec<[u8; 512]>,
    reads: Cell<usize>,
}

impl CountingDisk {
    fn new(n: usize) -> CountingDisk {
        let mut blocks = Vec::new();
        for i in 0..n {
            blocks.push([i as u8; 512]);
        }
        CountingDisk { blocks, reads: Cell::new(0) }
    }
}

impl BlockDevice for CountingDisk {
    type Error = ();

    fn read(&self, blocks: &mut [Block], start_block_idx: BlockIdx) -> Result<(), ()> {
        self.reads.set(self.reads.get() + 1);
        for (i, b) in blocks.iter_mut().enumerate() {
            let idx = start_block_idx.0 as usize + i;
            if idx >= self.blocks.len() {
                return Err(());
            }
            b.contents = self.blocks[idx];
        }
        Ok(())
    }

    fn write(&mut self, blocks: &[Block], start_block_idx: BlockIdx) -> Result<(), ()> {
        for (i, b) in blocks.iter().enumerate() {
            let idx = start_block_idx.0 as usize + i;
            if idx >= self.blocks.len() {
                return Err(());
            }
            self.blocks[idx] = b.contents;
        }
        Ok(())
    }

    fn num_blocks(&self) -> Result<BlockCount, ()> {
        Ok(BlockCount(self.blocks.len() as u32))
    }
}

#[test]
fn second_read_of_a_block_does_not_touch_the_device() {
    let mut cache = BlockCache::new(CountingDisk::new(4));
    let first = cache.read(BlockIdx(2)).unwrap().contents;
    assert_eq!(first, [2u8; 512]);
    let second = cache.read(BlockIdx(2)).unwrap().contents;
    assert_eq!(second, [2u8; 512]);
    let disk = cache.free();
    assert_eq!(disk.reads.get(), 1);
}

#[test]
fn reading_another_block_replaces_the_cached_one() {
    let mut cache = BlockCache::new(CountingDisk::new(4));
    assert_eq!(cache.read(BlockIdx(1)).unwrap().contents, [1u8; 512]);
    assert_eq!(cache.read(BlockIdx(3)).unwrap().contents, [3u8; 512]);
    assert_eq!(cache.read(BlockIdx(1)).unwrap().contents, [1u8; 512]);
    assert_eq!(cache.free().reads.get(), 3);
}

#[test]
fn failed_read_empties_the_cache() {
    let mut cache = BlockCache::new(CountingDisk::new(2));
    assert!(cache.read(BlockIdx(0)).is_ok());
    assert!(cache.read(BlockIdx(7)).is_err());
    // block 0 must be fetched again
    assert_eq!(cache.read(BlockIdx(0)).unwrap().contents, [0u8; 512]);
    assert_eq!(cache.free().reads.get(), 3);
}

#[test]
fn changes_through_read_mut_reach_the_device_on_write_back() {
    let mut cache = BlockCache::new(CountingDisk::new(4));
    {
        let block = cache.read_mut(BlockIdx(2)).unwrap();
        block.contents[10] = 0xAB;
    }
    // still only in the cache
    assert_eq!(cache.read(BlockIdx(2)).unwrap().contents[10], 0xAB);
    assert_eq!(cache.block_device().blocks[2][10], 2);
    // block_device() forgot the block, so read it again and change it
    cache.read_mut(BlockIdx(2)).unwrap().contents[10] = 0xAB;
    cache.write_back().unwrap();
    let disk = cache.free();
    assert_eq!(disk.blocks[2][10], 0xAB);
    assert_eq!(disk.blocks[2][11], 2);
    assert_eq!(disk.blocks[1], [1u8; 512]);
}

#[test]
fn write_back_with_duplicate_writes_both_copies() {
    let mut cache = BlockCache::new(CountingDisk::new(6));
    cache.read_mut(BlockIdx(1)).unwrap().contents[0] = 0x55;
    cache.write_back_with_duplicate(BlockIdx(4)).unwrap();
    let disk = cache.free();
    assert_eq!(disk.blocks[1][0], 0x55);
    assert_eq!(disk.blocks[4][0], 0x55);
    assert_eq!(disk.blocks[4][1], 1);
    assert_eq!(disk.blocks[3], [3u8; 512]);
}

#[test]
fn write_back_with_duplicate_past_the_end_fails() {
    let mut cache = BlockCache::new(CountingDisk::new(3));
    cache.read_mut(BlockIdx(1)).unwrap().contents[0] = 0x55;
    assert!(cache.write_back_with_duplicate(BlockIdx(9)).is_err());
    // the first copy was written before the second failed
    assert_eq!(cache.free().blocks[1][0], 0x55);
}

#[test]
fn blank_mut_gives_zeros_and_reads_nothing() {
    let mut cache = BlockCache::new(CountingDisk::new(4));
    {
        let block = cache.blank_mut(BlockIdx(3));
        assert_eq!(block.contents, [0u8; 512]);
        block.contents[0] = 1;
    }
    cache.write_back().unwrap();
    let disk = cache.free();
    assert_eq!(disk.reads.get(), 0);
    assert_eq!(disk.blocks[3][0], 1);
    assert_eq!(disk.blocks[3][1], 0);
}
