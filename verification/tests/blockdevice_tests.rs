//! Tests of the block arithmetic helpers and the block index walk.

use embedded_sdmmc::blockdevice::{
    block_count_from_bytes, block_count_offset_bytes, block_index_into_bytes, BlockIter,
};
use embedded_sdmmc::{BlockCount, BlockIdx, ShortFileName};

#[test]
fn block_counts_round_up() {
    assert_eq!(block_count_from_bytes(0), BlockCount(0));
    assert_eq!(block_count_from_bytes(511), BlockCount(1));
    assert_eq!(block_count_from_bytes(512), BlockCount(1));
    assert_eq!(block_count_from_bytes(513), BlockCount(2));
    assert_eq!(block_count_from_bytes(1024), BlockCount(2));
    assert_eq!(block_count_from_bytes(1025), BlockCount(3));
}

#[test]
fn block_offsets_count_whole_blocks() {
    assert_eq!(block_count_offset_bytes(BlockCount(10), 0), BlockCount(10));
    assert_eq!(block_count_offset_bytes(BlockCount(10), 511), BlockCount(10));
    assert_eq!(block_count_offset_bytes(BlockCount(10), 512), BlockCount(11));
    assert_eq!(block_count_offset_bytes(BlockCount(10), 5000), BlockCount(19));
}

#[test]
fn block_index_to_byte_offset() {
    assert_eq!(block_index_into_bytes(BlockIdx(0)), 0);
    assert_eq!(block_index_into_bytes(BlockIdx(3)), 1536);
    assert_eq!(block_index_into_bytes(BlockIdx(u32::MAX)), 4294967295u64 * 512);
}

#[test]
fn block_iter_includes_both_ends() {
    let mut it = BlockIter::new(BlockIdx(5), BlockIdx(8));
    let mut seen = Vec::new();
    while let Some(b) = it.next() {
        seen.push(b.0);
    }
    assert_eq!(seen, vec![5, 6, 7, 8]);
    assert_eq!(it.next(), None);
}

#[test]
fn block_iter_of_one_block_and_of_none() {
    let mut one = BlockIter::new(BlockIdx(7), BlockIdx(7));
    assert_eq!(one.next(), Some(BlockIdx(7)));
    assert_eq!(one.next(), None);
    let mut none = BlockIter::new(BlockIdx(8), BlockIdx(7));
    assert_eq!(none.next(), None);
}

#[test]
fn block_iter_reaches_the_last_index() {
    let mut it = BlockIter::new(BlockIdx(u32::MAX - 1), BlockIdx(u32::MAX));
    assert_eq!(it.next(), Some(BlockIdx(u32::MAX - 1)));
    assert_eq!(it.next(), Some(BlockIdx(u32::MAX)));
    assert_eq!(it.next(), None);
}

#[test]
fn short_name_as_volume_label() {
    let name = ShortFileName::create_from_str("HELLO.TXT").unwrap();
    let label = name.to_volume_label();
    assert_eq!(&label.data, b"HELLO   TXT");
}
